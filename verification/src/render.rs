//! Drawing of the bar and of its popups.

pub mod bar;
pub mod bar_laws;
pub mod button_laws;
pub mod cache;
pub mod calendar;
pub mod calendar_laws;
pub mod card;
pub mod card_laws;
pub mod fonts;
pub mod layout;
pub mod menu;
pub mod menu_laws;
pub mod menu_layout_laws;
pub mod network;
pub mod pixels;
pub mod plan_laws;
pub mod popup;
pub mod surface_laws;
pub mod weather;
