//! The logic of a status bar for the niri compositor.

pub mod bar;
pub mod clock;
pub mod config;
pub mod control;
pub mod counter;
pub mod date;
pub mod icons;
pub mod json;
pub mod logger;
pub mod media;
pub mod memory;
pub mod network;
pub mod niri;
pub mod order;
pub mod render;
pub mod text;
pub mod tray;
pub mod weather;
