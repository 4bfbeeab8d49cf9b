//! The settings of the bar: their defaults, their validation and the
//! completion of a settings file.
//!
//! Settings with a fraction are held as IEEE 754 bit patterns, so that every
//! statement about them is a statement about integers.

pub mod completion;
pub mod laws;
pub mod loading;

use vstd::prelude::*;
use crate::clock::{all_valid, format_items, is_valid_format, strftime_items, FormatItem};
use crate::text::{
    after_prefix, all_digits, byte_length, chars_of, digit, digit_value, fits_bytes,
    is_ascii_text, is_ascii_word, is_control, is_control_char, lemma_byte_length, option_view,
    same_text, strip_prefix, trim, trimmed, trimmed_end, trimmed_start,
};

verus! {

#[derive(Clone, Copy, Debug, Default, PartialEq, Eq, Structural)]
pub enum ClockPosition {
    #[default]
    Right,
    Center,
}

#[derive(Clone, Copy, Debug, Default, PartialEq, Eq, Structural)]
pub enum WeatherUnits {
    #[default]
    Metric,
    Imperial,
}

/// Why a text is not a color.
#[derive(Clone, Copy, Debug, PartialEq, Eq, Structural)]
pub enum ColorError {
    /// Neither `#RRGGBB` nor `#RRGGBBAA` in length.
    Form,
    /// A channel is not a hexadecimal number.
    Digit,
}

/// The first reason why settings cannot be used.
#[derive(Clone, Copy, Debug, PartialEq, Eq, Structural)]
pub enum ConfigError {
    TasksNeedCenteredClock,
    Height,
    FontSize,
    FontFamily,
    TrayIconSize,
    Spacing,
    WorkspaceWidth,
    TaskIconSize,
    TaskSpacing,
    ClockFormat,
    Coordinates,
    RefreshMinutes,
    Location,
    Interface,
    PingTarget,
    /// The setting at this place of `COLOR_SETTINGS` is no color.
    Color(usize, ColorError),
}

/// The names of the color settings, in the order in which they are checked.
pub const COLOR_SETTINGS: [&'static str; 32] = [
    "background",
    "foreground",
    "workspace_focused_background",
    "workspace_active_background",
    "workspace_active_foreground",
    "workspace_occupied_foreground",
    "workspace_empty_foreground",
    "workspace_urgent_foreground",
    "calendar_background",
    "calendar_foreground",
    "calendar_header",
    "calendar_weekday",
    "calendar_weekend",
    "calendar_muted",
    "calendar_today_background",
    "calendar_today_foreground",
    "calendar_border",
    "weather_background",
    "weather_foreground",
    "weather_muted",
    "weather_accent",
    "weather_border",
    "network_background",
    "network_foreground",
    "network_muted",
    "network_accent",
    "network_border",
    "task_background",
    "task_focused_background",
    "task_urgent_background",
    "task_foreground",
    "task_focused_foreground",
];

#[derive(Clone, Debug)]
pub struct Config {
    pub height: u32,
    pub font_family: String,
    /// The bit pattern of a single-precision number.
    pub font_size: u32,
    pub background: String,
    pub foreground: String,
    pub padding: u32,
    pub tray_icon_size: u32,
    pub tray_spacing: u32,
    pub tray_drawer: bool,
    pub tray_drawer_duration_ms: u32,
    pub workspace_width: u32,
    pub workspace_focused_background: String,
    pub workspace_active_background: String,
    pub workspace_active_foreground: String,
    pub workspace_occupied_foreground: String,
    pub workspace_empty_foreground: String,
    pub workspace_urgent_foreground: String,
    pub media_enabled: bool,
    pub show_tasks: bool,
    pub task_icon_size: u32,
    pub task_spacing: u32,
    pub task_padding: u32,
    pub task_background: String,
    pub task_focused_background: String,
    pub task_urgent_background: String,
    pub task_foreground: String,
    pub task_focused_foreground: String,
    pub weather_enabled: bool,
    pub weather_location: String,
    /// The bit pattern of a double-precision number of degrees.
    pub weather_latitude: Option<u64>,
    /// The bit pattern of a double-precision number of degrees.
    pub weather_longitude: Option<u64>,
    pub weather_units: WeatherUnits,
    pub weather_refresh_minutes: u32,
    pub weather_background: String,
    pub weather_foreground: String,
    pub weather_muted: String,
    pub weather_accent: String,
    pub weather_border: String,
    pub network_enabled: bool,
    pub network_interface: String,
    pub network_ping_target: String,
    pub network_background: String,
    pub network_foreground: String,
    pub network_muted: String,
    pub network_accent: String,
    pub network_border: String,
    pub clock_format: String,
    pub clock_position: ClockPosition,
    pub calendar_enabled: bool,
    pub calendar_background: String,
    pub calendar_foreground: String,
    pub calendar_header: String,
    pub calendar_weekday: String,
    pub calendar_weekend: String,
    pub calendar_muted: String,
    pub calendar_today_background: String,
    pub calendar_today_foreground: String,
    pub calendar_border: String,
    pub icon_theme: Option<String>,
}

/// The bit pattern of the single-precision number 6.
pub const MINIMUM_FONT_SIZE: u32 = 0x40c0_0000;

/// The bit pattern of the single-precision number 8.
pub const DEFAULT_FONT_SIZE: u32 = 0x4100_0000;

/// The bit pattern of the single-precision number 96.
pub const MAXIMUM_FONT_SIZE: u32 = 0x42c0_0000;

/// The bit pattern of the double-precision number 90.
pub const MAXIMUM_LATITUDE: u64 = 0x4056_8000_0000_0000;

/// The bit pattern of the double-precision number 180.
pub const MAXIMUM_LONGITUDE: u64 = 0x4066_8000_0000_0000;

/// The weight of the sign bit of a double-precision number.
pub const DOUBLE_SIGN: u64 = 0x8000_0000_0000_0000;

/// Whether a double-precision number lies between `-limit` and `limit`.
///
/// Without the sign bit, patterns are ordered as the magnitudes they stand for,
/// with infinity and the patterns that are no number above all finite ones.
pub open spec fn within(bits: u64, limit: u64) -> bool {
    bits as int % (DOUBLE_SIGN as int) <= limit
}

pub fn is_within(bits: u64, limit: u64) -> (result: bool)
    ensures
        result == within(bits, limit),
{
    bits % DOUBLE_SIGN <= limit
}

impl Default for Config {
    fn default() -> (result: Self)
        ensures
            result.is_default(),
    {
        Config {
            height: 28,
            font_family: "Fira Code Medium".to_owned(),
            font_size: DEFAULT_FONT_SIZE,
            background: "#282828".to_owned(),
            foreground: "#DCDCCC".to_owned(),
            padding: 8,
            tray_icon_size: 18,
            tray_spacing: 6,
            tray_drawer: false,
            tray_drawer_duration_ms: 600,
            workspace_width: 28,
            workspace_focused_background: "#3C3836".to_owned(),
            workspace_active_background: "#6F6F6F".to_owned(),
            workspace_active_foreground: "#F0DFAF".to_owned(),
            workspace_occupied_foreground: "#DCDCCC".to_owned(),
            workspace_empty_foreground: "#6F6F6F".to_owned(),
            workspace_urgent_foreground: "#CC9393".to_owned(),
            media_enabled: true,
            show_tasks: false,
            task_icon_size: 18,
            task_spacing: 2,
            task_padding: 6,
            task_background: "#282828".to_owned(),
            task_focused_background: "#3C3836".to_owned(),
            task_urgent_background: "#282828".to_owned(),
            task_foreground: "#DCDCCC".to_owned(),
            task_focused_foreground: "#F0DFAF".to_owned(),
            weather_enabled: false,
            weather_location: "".to_owned(),
            weather_latitude: None,
            weather_longitude: None,
            weather_units: WeatherUnits::Metric,
            weather_refresh_minutes: 15,
            weather_background: "#282828F2".to_owned(),
            weather_foreground: "#DCDCCC".to_owned(),
            weather_muted: "#6F6F6F".to_owned(),
            weather_accent: "#F0DFAF".to_owned(),
            weather_border: "#6F6F6F".to_owned(),
            network_enabled: false,
            network_interface: "".to_owned(),
            network_ping_target: "1.1.1.1".to_owned(),
            network_background: "#282828F2".to_owned(),
            network_foreground: "#DCDCCC".to_owned(),
            network_muted: "#6F6F6F".to_owned(),
            network_accent: "#F0DFAF".to_owned(),
            network_border: "#6F6F6F".to_owned(),
            clock_format: "%a %b %d, %H:%M".to_owned(),
            clock_position: ClockPosition::Right,
            calendar_enabled: true,
            calendar_background: "#282828F2".to_owned(),
            calendar_foreground: "#DCDCCC".to_owned(),
            calendar_header: "#F0DFAF".to_owned(),
            calendar_weekday: "#DCDCCC".to_owned(),
            calendar_weekend: "#CC9393".to_owned(),
            calendar_muted: "#6F6F6F".to_owned(),
            calendar_today_background: "#3C3836".to_owned(),
            calendar_today_foreground: "#F0DFAF".to_owned(),
            calendar_border: "#6F6F6F".to_owned(),
            icon_theme: None,
        }
    }
}

impl Config {
    /// The settings that hold where nothing is configured.
    pub open spec fn is_default(&self) -> bool {
        &&& self.height == 28
        &&& self.font_family@ == "Fira Code Medium"@
        &&& self.font_size == DEFAULT_FONT_SIZE
        &&& self.background@ == "#282828"@
        &&& self.foreground@ == "#DCDCCC"@
        &&& self.padding == 8
        &&& self.tray_icon_size == 18
        &&& self.tray_spacing == 6
        &&& !self.tray_drawer
        &&& self.tray_drawer_duration_ms == 600
        &&& self.workspace_width == 28
        &&& self.workspace_focused_background@ == "#3C3836"@
        &&& self.workspace_active_background@ == "#6F6F6F"@
        &&& self.workspace_active_foreground@ == "#F0DFAF"@
        &&& self.workspace_occupied_foreground@ == "#DCDCCC"@
        &&& self.workspace_empty_foreground@ == "#6F6F6F"@
        &&& self.workspace_urgent_foreground@ == "#CC9393"@
        &&& self.media_enabled
        &&& !self.show_tasks
        &&& self.task_icon_size == 18
        &&& self.task_spacing == 2
        &&& self.task_padding == 6
        &&& self.task_background@ == "#282828"@
        &&& self.task_focused_background@ == "#3C3836"@
        &&& self.task_urgent_background@ == "#282828"@
        &&& self.task_foreground@ == "#DCDCCC"@
        &&& self.task_focused_foreground@ == "#F0DFAF"@
        &&& !self.weather_enabled
        &&& self.weather_location@ == ""@
        &&& self.weather_latitude is None
        &&& self.weather_longitude is None
        &&& self.weather_units == WeatherUnits::Metric
        &&& self.weather_refresh_minutes == 15
        &&& self.weather_background@ == "#282828F2"@
        &&& self.weather_foreground@ == "#DCDCCC"@
        &&& self.weather_muted@ == "#6F6F6F"@
        &&& self.weather_accent@ == "#F0DFAF"@
        &&& self.weather_border@ == "#6F6F6F"@
        &&& !self.network_enabled
        &&& self.network_interface@ == ""@
        &&& self.network_ping_target@ == "1.1.1.1"@
        &&& self.network_background@ == "#282828F2"@
        &&& self.network_foreground@ == "#DCDCCC"@
        &&& self.network_muted@ == "#6F6F6F"@
        &&& self.network_accent@ == "#F0DFAF"@
        &&& self.network_border@ == "#6F6F6F"@
        &&& self.clock_format@ == "%a %b %d, %H:%M"@
        &&& self.clock_position == ClockPosition::Right
        &&& self.calendar_enabled
        &&& self.calendar_background@ == "#282828F2"@
        &&& self.calendar_foreground@ == "#DCDCCC"@
        &&& self.calendar_header@ == "#F0DFAF"@
        &&& self.calendar_weekday@ == "#DCDCCC"@
        &&& self.calendar_weekend@ == "#CC9393"@
        &&& self.calendar_muted@ == "#6F6F6F"@
        &&& self.calendar_today_background@ == "#3C3836"@
        &&& self.calendar_today_foreground@ == "#F0DFAF"@
        &&& self.calendar_border@ == "#6F6F6F"@
        &&& self.icon_theme is None
    }

    /// The text of the color setting at a place of `COLOR_SETTINGS`.
    pub open spec fn color_text(&self, setting: int) -> Seq<char> {
        if setting == 0 {
            self.background@
        } else if setting == 1 {
            self.foreground@
        } else if setting == 2 {
            self.workspace_focused_background@
        } else if setting == 3 {
            self.workspace_active_background@
        } else if setting == 4 {
            self.workspace_active_foreground@
        } else if setting == 5 {
            self.workspace_occupied_foreground@
        } else if setting == 6 {
            self.workspace_empty_foreground@
        } else if setting == 7 {
            self.workspace_urgent_foreground@
        } else if setting == 8 {
            self.calendar_background@
        } else if setting == 9 {
            self.calendar_foreground@
        } else if setting == 10 {
            self.calendar_header@
        } else if setting == 11 {
            self.calendar_weekday@
        } else if setting == 12 {
            self.calendar_weekend@
        } else if setting == 13 {
            self.calendar_muted@
        } else if setting == 14 {
            self.calendar_today_background@
        } else if setting == 15 {
            self.calendar_today_foreground@
        } else if setting == 16 {
            self.calendar_border@
        } else if setting == 17 {
            self.weather_background@
        } else if setting == 18 {
            self.weather_foreground@
        } else if setting == 19 {
            self.weather_muted@
        } else if setting == 20 {
            self.weather_accent@
        } else if setting == 21 {
            self.weather_border@
        } else if setting == 22 {
            self.network_background@
        } else if setting == 23 {
            self.network_foreground@
        } else if setting == 24 {
            self.network_muted@
        } else if setting == 25 {
            self.network_accent@
        } else if setting == 26 {
            self.network_border@
        } else if setting == 27 {
            self.task_background@
        } else if setting == 28 {
            self.task_focused_background@
        } else if setting == 29 {
            self.task_urgent_background@
        } else if setting == 30 {
            self.task_foreground@
        } else {
            self.task_focused_foreground@
        }
    }

    fn color_setting(&self, setting: usize) -> (result: &String)
        requires
            setting < 32,
        ensures
            result@ == self.color_text(setting as int),
    {
        match setting {
            0 => &self.background,
            1 => &self.foreground,
            2 => &self.workspace_focused_background,
            3 => &self.workspace_active_background,
            4 => &self.workspace_active_foreground,
            5 => &self.workspace_occupied_foreground,
            6 => &self.workspace_empty_foreground,
            7 => &self.workspace_urgent_foreground,
            8 => &self.calendar_background,
            9 => &self.calendar_foreground,
            10 => &self.calendar_header,
            11 => &self.calendar_weekday,
            12 => &self.calendar_weekend,
            13 => &self.calendar_muted,
            14 => &self.calendar_today_background,
            15 => &self.calendar_today_foreground,
            16 => &self.calendar_border,
            17 => &self.weather_background,
            18 => &self.weather_foreground,
            19 => &self.weather_muted,
            20 => &self.weather_accent,
            21 => &self.weather_border,
            22 => &self.network_background,
            23 => &self.network_foreground,
            24 => &self.network_muted,
            25 => &self.network_accent,
            26 => &self.network_border,
            27 => &self.task_background,
            28 => &self.task_focused_background,
            29 => &self.task_urgent_background,
            30 => &self.task_foreground,
            _ => &self.task_focused_foreground,
        }
    }

    /// The first setting, in the order of the checks, that cannot be used.
    ///
    /// `format_items` is what the clock format consists of, and
    /// `target_is_address` whether the ping target is a numeric IP address.
    pub open spec fn problem(
        &self,
        format_items: Seq<FormatItem>,
        target_is_address: bool,
    ) -> Option<ConfigError> {
        if self.show_tasks && self.clock_position != ClockPosition::Center {
            Some(ConfigError::TasksNeedCenteredClock)
        } else if !(16 <= self.height <= 256) {
            Some(ConfigError::Height)
        } else if !(MINIMUM_FONT_SIZE <= self.font_size <= MAXIMUM_FONT_SIZE) {
            Some(ConfigError::FontSize)
        } else if trimmed(self.font_family@).len() == 0 {
            Some(ConfigError::FontFamily)
        } else if !(0 < self.tray_icon_size <= self.height) {
            Some(ConfigError::TrayIconSize)
        } else if self.padding > 256 || self.tray_spacing > 256 {
            Some(ConfigError::Spacing)
        } else if !(16 <= self.workspace_width <= 128) {
            Some(ConfigError::WorkspaceWidth)
        } else if !(0 < self.task_icon_size <= self.height) {
            Some(ConfigError::TaskIconSize)
        } else if self.task_spacing > 256 || self.task_padding > 256 {
            Some(ConfigError::TaskSpacing)
        } else if !is_valid_format(format_items) {
            Some(ConfigError::ClockFormat)
        } else if !coordinates_usable(self.weather_latitude, self.weather_longitude) {
            Some(ConfigError::Coordinates)
        } else if !(5 <= self.weather_refresh_minutes <= 1440) {
            Some(ConfigError::RefreshMinutes)
        } else if !is_location(self.weather_location@) {
            Some(ConfigError::Location)
        } else if self.network_interface@.len() > 0 && !is_interface_name(self.network_interface@) {
            Some(ConfigError::Interface)
        } else if !target_is_address {
            Some(ConfigError::PingTarget)
        } else {
            self.color_problem(0)
        }
    }

    /// The first color setting from `start` on that is no color.
    pub open spec fn color_problem(&self, start: int) -> Option<ConfigError>
        decreases 32 - start,
    {
        if start >= 32 {
            None
        } else {
            match color_of(self.color_text(start)) {
                Err(error) => Some(ConfigError::Color(start as usize, error)),
                Ok(_) => self.color_problem(start + 1),
            }
        }
    }

    fn check_colors(&self) -> (result: Result<(), ConfigError>)
        ensures
            match self.color_problem(0) {
                Some(problem) => result == Err::<(), ConfigError>(problem),
                None => result is Ok,
            },
    {
        let mut i: usize = 0;
        while i < 32
            invariant
                i <= 32,
                self.color_problem(0) == self.color_problem(i as int),
            decreases 32 - i,
        {
            if let Err(error) = parse_color(self.color_setting(i).as_str()) {
                return Err(ConfigError::Color(i, error));
            }
            i += 1;
        }
        Ok(())
    }

    /// Checks the settings against what the clock format consists of.
    pub fn validate_with(&self, format_items: &Vec<FormatItem>, target_is_address: bool) -> (result:
        Result<(), ConfigError>)
        ensures
            match self.problem(format_items@, target_is_address) {
                Some(problem) => result == Err::<(), ConfigError>(problem),
                None => result is Ok,
            },
    {
        if self.show_tasks && self.clock_position != ClockPosition::Center {
            return Err(ConfigError::TasksNeedCenteredClock);
        }
        if self.height < 16 || self.height > 256 {
            return Err(ConfigError::Height);
        }
        if self.font_size < MINIMUM_FONT_SIZE || self.font_size > MAXIMUM_FONT_SIZE {
            return Err(ConfigError::FontSize);
        }
        let family = chars_of(self.font_family.as_str());
        if trim(family.as_slice()).len() == 0 {
            return Err(ConfigError::FontFamily);
        }
        if self.tray_icon_size == 0 || self.tray_icon_size > self.height {
            return Err(ConfigError::TrayIconSize);
        }
        if self.padding > 256 || self.tray_spacing > 256 {
            return Err(ConfigError::Spacing);
        }
        if self.workspace_width < 16 || self.workspace_width > 128 {
            return Err(ConfigError::WorkspaceWidth);
        }
        if self.task_icon_size == 0 || self.task_icon_size > self.height {
            return Err(ConfigError::TaskIconSize);
        }
        if self.task_spacing > 256 || self.task_padding > 256 {
            return Err(ConfigError::TaskSpacing);
        }
        if !all_valid(format_items) {
            return Err(ConfigError::ClockFormat);
        }
        let coordinates = match (self.weather_latitude, self.weather_longitude) {
            (None, None) => true,
            (Some(latitude), Some(longitude)) => is_within(latitude, MAXIMUM_LATITUDE)
                && is_within(longitude, MAXIMUM_LONGITUDE),
            _ => false,
        };
        if !coordinates {
            return Err(ConfigError::Coordinates);
        }
        if self.weather_refresh_minutes < 5 || self.weather_refresh_minutes > 1440 {
            return Err(ConfigError::RefreshMinutes);
        }
        if !valid_location(self.weather_location.as_str()) {
            return Err(ConfigError::Location);
        }
        if !self.network_interface.as_str().is_empty() && !valid_interface_name(
            self.network_interface.as_str(),
        ) {
            return Err(ConfigError::Interface);
        }
        if !target_is_address {
            return Err(ConfigError::PingTarget);
        }
        self.check_colors()
    }

    /// Checks the settings. Reading an IP address is the caller's part: the
    /// argument says whether the ping target is a numeric one.
    pub fn validate(&self, target_is_address: bool) -> (result: Result<(), ConfigError>)
        ensures
            match self.problem(strftime_items(self.clock_format@), target_is_address) {
                Some(problem) => result == Err::<(), ConfigError>(problem),
                None => result is Ok,
            },
    {
        let items = format_items(self.clock_format.as_str());
        self.validate_with(&items, target_is_address)
    }

    /// The color of the bar's background.
    pub fn background_rgba(&self) -> (result: [u8; 4])
        requires
            color_of(self.background@) is Ok,
        ensures
            color_of(self.background@) == Ok::<Seq<u8>, ColorError>(result@),
    {
        self.color_rgba(self.background.as_str())
    }

    /// The color of the bar's text.
    pub fn foreground_rgba(&self) -> (result: [u8; 4])
        requires
            color_of(self.foreground@) is Ok,
        ensures
            color_of(self.foreground@) == Ok::<Seq<u8>, ColorError>(result@),
    {
        self.color_rgba(self.foreground.as_str())
    }

    /// The color that a checked setting stands for.
    pub fn color_rgba(&self, color: &str) -> (result: [u8; 4])
        requires
            color_of(color@) is Ok,
        ensures
            color_of(color@) == Ok::<Seq<u8>, ColorError>(result@),
    {
        match parse_color(color) {
            Ok(channels) => channels,
            Err(_) => [0, 0, 0, 0],
        }
    }
}

/// Either both coordinates are absent, or both are given and on the globe.
pub open spec fn coordinates_usable(latitude: Option<u64>, longitude: Option<u64>) -> bool {
    match (latitude, longitude) {
        (None, None) => true,
        (Some(latitude), Some(longitude)) => within(latitude, MAXIMUM_LATITUDE) && within(
            longitude,
            MAXIMUM_LONGITUDE,
        ),
        _ => false,
    }
}

/// A city name of at most 256 bytes without control characters.
pub open spec fn is_location(text: Seq<char>) -> bool {
    byte_length(text) <= 256 && forall|i: int|
        0 <= i < text.len() ==> !is_control_char(#[trigger] text[i])
}

fn valid_location(text: &str) -> (result: bool)
    ensures
        result == is_location(text@),
{
    let characters = chars_of(text);
    if !fits_bytes(characters.as_slice(), 256) {
        return false;
    }
    let mut i: usize = 0;
    while i < characters.len()
        invariant
            i <= characters@.len(),
            characters@ == text@,
            forall|k: int| 0 <= k < i ==> !is_control_char(#[trigger] characters@[k]),
        decreases characters@.len() - i,
    {
        if is_control(characters[i]) {
            return false;
        }
        i += 1;
    }
    true
}

/// A character that interface names are made of.
pub open spec fn is_interface_char(character: char) -> bool {
    is_ascii_word(character) || character == '_' || character == '.' || character == '-'
        || character == ':'
}

/// A name that the kernel gives to interfaces: one to fifteen letters, digits
/// or marks, and not a name of the current or the parent directory.
pub open spec fn is_interface_name(text: Seq<char>) -> bool {
    &&& 0 < text.len() < 16
    &&& text != seq!['.']
    &&& text != seq!['.', '.']
    &&& forall|i: int| 0 <= i < text.len() ==> is_interface_char(#[trigger] text[i])
}

pub fn valid_interface_name(text: &str) -> (result: bool)
    ensures
        result == is_interface_name(text@),
{
    let characters = chars_of(text);
    if characters.len() == 0 || characters.len() >= 16 {
        return false;
    }
    if characters.len() == 1 && characters[0] == '.' {
        assert(text@ =~= seq!['.']);
        return false;
    }
    if characters.len() == 2 && characters[0] == '.' && characters[1] == '.' {
        assert(text@ =~= seq!['.', '.']);
        return false;
    }
    let mut i: usize = 0;
    while i < characters.len()
        invariant
            i <= characters@.len(),
            characters@ == text@,
            forall|k: int| 0 <= k < i ==> is_interface_char(#[trigger] characters@[k]),
        decreases characters@.len() - i,
    {
        let character: char = characters[i];
        if digit(character) >= 36 && character != '_' && character != '.' && character != '-'
            && character != ':' {
            assert(!is_interface_char(characters@[i as int]));
            return false;
        }
        i += 1;
    }
    true
}

/// One channel: the number that two hexadecimal digits stand for.
pub open spec fn channel_of(hex: Seq<char>, offset: int) -> Option<int> {
    let high = digit_value(hex[offset]);
    let low = digit_value(hex[offset + 1]);
    if high < 16 && low < 16 {
        Some(16 * high + low)
    } else {
        None
    }
}

/// The four channels of a color text, opaque where it names no opacity.
#[verifier::opaque]
pub open spec fn color_of(text: Seq<char>) -> Result<Seq<u8>, ColorError> {
    match after_prefix(text, "#"@) {
        None => Err(ColorError::Form),
        Some(hex) => if byte_length(hex) != 6 && byte_length(hex) != 8 {
            Err(ColorError::Form)
        } else if !is_ascii_text(hex) || channel_of(hex, 0) is None || channel_of(hex, 2) is None
            || channel_of(hex, 4) is None || (hex.len() == 8 && channel_of(hex, 6) is None) {
            Err(ColorError::Digit)
        } else {
            Ok(
                seq![
                    channel_of(hex, 0)->0 as u8,
                    channel_of(hex, 2)->0 as u8,
                    channel_of(hex, 4)->0 as u8,
                    if hex.len() == 8 {
                        channel_of(hex, 6)->0 as u8
                    } else {
                        255
                    },
                ],
            )
        },
    }
}

fn parse_channel(hex: &[char], offset: usize) -> (result: Option<u8>)
    requires
        offset <= 6,
        offset + 2 <= hex@.len(),
    ensures
        match result {
            Some(value) => channel_of(hex@, offset as int) == Some(value as int),
            None => channel_of(hex@, offset as int) is None,
        },
{
    let high: u32 = digit(hex[offset]);
    let low: u32 = digit(hex[offset + 1]);
    if high < 16 && low < 16 {
        Some((16 * high + low) as u8)
    } else {
        None
    }
}

/// Reads a color in the form `#RRGGBB` or `#RRGGBBAA`.
pub fn parse_color(value: &str) -> (result: Result<[u8; 4], ColorError>)
    ensures
        match result {
            Ok(channels) => color_of(value@) == Ok::<Seq<u8>, ColorError>(channels@),
            Err(error) => color_of(value@) == Err::<Seq<u8>, ColorError>(error),
        },
{
    reveal(color_of);
    let characters = chars_of(value);
    let hex = match strip_prefix(characters.as_slice(), "#") {
        Some(hex) => hex,
        None => return Err(ColorError::Form),
    };
    proof {
        lemma_byte_length(hex@);
    }
    if !fits_bytes(hex, 8) || fits_bytes(hex, 5) || (!fits_bytes(hex, 6) && fits_bytes(hex, 7)) {
        return Err(ColorError::Form);
    }
    if !(hex.len() == 6 && fits_bytes(hex, 6)) && hex.len() != 8 {
        return Err(ColorError::Digit);
    }
    let (red, green, blue) = match (parse_channel(hex, 0), parse_channel(hex, 2), parse_channel(hex, 4)) {
        (Some(red), Some(green), Some(blue)) => (red, green, blue),
        _ => return Err(ColorError::Digit),
    };
    let alpha: u8 = if hex.len() == 8 {
        match parse_channel(hex, 6) {
            Some(alpha) => alpha,
            None => return Err(ColorError::Digit),
        }
    } else {
        255
    };
    let channels = [red, green, blue, alpha];
    assert(channels@ =~= color_of(value@)->Ok_0);
    Ok(channels)
}

impl ConfigError {
    /// What to tell about wrong settings.
    pub fn message(&self) -> (result: String)
        requires
            self matches ConfigError::Color(setting, _) ==> setting < 32,
        ensures
            result@ == self.text(),
    {
        match self {
            ConfigError::TasksNeedCenteredClock => "show_tasks requires clock_position = 'center'".to_owned(),
            ConfigError::Height => "height must be in the range 16..=256".to_owned(),
            ConfigError::FontSize => "font_size must be in the range 6..=96".to_owned(),
            ConfigError::FontFamily => "font_family cannot be empty".to_owned(),
            ConfigError::TrayIconSize => "tray_icon_size must be greater than 0 and no greater than height".to_owned(),
            ConfigError::Spacing => "padding and tray_spacing must be no greater than 256".to_owned(),
            ConfigError::WorkspaceWidth => "workspace_width must be in the range 16..=128".to_owned(),
            ConfigError::TaskIconSize => "task_icon_size must be greater than 0 and no greater than height".to_owned(),
            ConfigError::TaskSpacing => "task_spacing and task_padding must be no greater than 256".to_owned(),
            ConfigError::ClockFormat => "clock_format contains an invalid strftime sequence".to_owned(),
            ConfigError::Coordinates => "weather_latitude and weather_longitude must both be set, within -90..90 and -180..180".to_owned(),
            ConfigError::RefreshMinutes => "weather_refresh_minutes must be in the range 5..=1440".to_owned(),
            ConfigError::Location => "weather_location must be a city name of at most 256 bytes, without control characters".to_owned(),
            ConfigError::Interface => "network_interface must be an interface name or empty for automatic selection".to_owned(),
            ConfigError::PingTarget => "network_ping_target must be a numeric IPv4 or IPv6 address".to_owned(),
            ConfigError::Color(setting, _) => {
                let mut message = "invalid ".to_owned();
                message.append(COLOR_SETTINGS[*setting]);
                message
            },
        }
    }

    /// The text of the message.
    pub open spec fn text(&self) -> Seq<char> {
        match self {
            ConfigError::TasksNeedCenteredClock => "show_tasks requires clock_position = 'center'"@,
            ConfigError::Height => "height must be in the range 16..=256"@,
            ConfigError::FontSize => "font_size must be in the range 6..=96"@,
            ConfigError::FontFamily => "font_family cannot be empty"@,
            ConfigError::TrayIconSize => "tray_icon_size must be greater than 0 and no greater than height"@,
            ConfigError::Spacing => "padding and tray_spacing must be no greater than 256"@,
            ConfigError::WorkspaceWidth => "workspace_width must be in the range 16..=128"@,
            ConfigError::TaskIconSize => "task_icon_size must be greater than 0 and no greater than height"@,
            ConfigError::TaskSpacing => "task_spacing and task_padding must be no greater than 256"@,
            ConfigError::ClockFormat => "clock_format contains an invalid strftime sequence"@,
            ConfigError::Coordinates => "weather_latitude and weather_longitude must both be set, within -90..90 and -180..180"@,
            ConfigError::RefreshMinutes => "weather_refresh_minutes must be in the range 5..=1440"@,
            ConfigError::Location => "weather_location must be a city name of at most 256 bytes, without control characters"@,
            ConfigError::Interface => "network_interface must be an interface name or empty for automatic selection"@,
            ConfigError::PingTarget => "network_ping_target must be a numeric IPv4 or IPv6 address"@,
            ConfigError::Color(setting, _) => "invalid "@ + COLOR_SETTINGS[*setting as int]@,
        }
    }
}

/// A color without a named opacity is opaque.
pub proof fn law_short_color_is_opaque(text: Seq<char>)
    requires
        text.len() == 7,
        color_of(text) is Ok,
    ensures
        color_of(text)->Ok_0[3] == 255,
{
    reveal(color_of);
    reveal_strlit("#");
}

/// Naming full opacity changes nothing.
pub proof fn law_full_opacity_is_the_default(text: Seq<char>)
    requires
        text.len() == 7,
        color_of(text) is Ok,
    ensures
        color_of(text + "FF"@) == color_of(text),
{
    reveal(color_of);
    reveal_strlit("#");
    reveal_strlit("FF");
    let short = text.skip(1);
    let long = (text + "FF"@).skip(1);
    assert(text.take(1) =~= "#"@);
    assert((text + "FF"@).take(1) =~= "#"@);
    assert(long =~= short + "FF"@);
    lemma_byte_length(short);
    lemma_byte_length(long);
    assert(is_ascii_text(long)) by {
        assert forall|i: int| 0 <= i < long.len() implies (#[trigger] long[i] as int) < 0x80 by {
            if i < 6 {
                assert(long[i] == short[i]);
            }
        }
    }
    assert(forall|i: int| 0 <= i < 6 ==> #[trigger] long[i] == short[i]);
    assert(long[6] == 'F' && long[7] == 'F');
    assert(channel_of(long, 6) == Some(255int));
    assert(color_of(text + "FF"@)->Ok_0 =~= color_of(text)->Ok_0);
}

/// The default settings can be used, whatever is decided of the clock format.
pub proof fn law_default_settings_are_valid(config: Config, format_items: Seq<FormatItem>)
    requires
        config.is_default(),
        is_valid_format(format_items),
    ensures
        config.problem(format_items, true) is None,
{
    reveal_strlit("Fira Code Medium");
    reveal_strlit("");
    assert(trimmed(config.font_family@).len() > 0) by {
        let text = config.font_family@;
        assert(trimmed_start(text) == text);
        assert(trimmed_end(text) == text);
    }
    assert(config.weather_location@ =~= Seq::<char>::empty());
    assert(byte_length(config.weather_location@) == 0);
    lemma_default_colors(config);
    lemma_no_color_problem(config, 0);
}

/// Without a wrong color there is no color problem.
proof fn lemma_no_color_problem(config: Config, start: int)
    requires
        0 <= start <= 32,
        forall|i: int| 0 <= i < 32 ==> color_of(#[trigger] config.color_text(i)) is Ok,
    ensures
        config.color_problem(start) is None,
    decreases 32 - start,
{
    if start < 32 {
        assert(color_of(config.color_text(start)) is Ok);
        lemma_no_color_problem(config, start + 1);
    }
}

proof fn lemma_default_colors(config: Config)
    requires
        config.is_default(),
    ensures
        forall|i: int| 0 <= i < 32 ==> color_of(#[trigger] config.color_text(i)) is Ok,
{
    assert(color_of("#282828"@) is Ok) by {
        reveal_strlit("#282828");
        lemma_color_literal("#282828"@);
    }
    assert(color_of("#DCDCCC"@) is Ok) by {
        reveal_strlit("#DCDCCC");
        lemma_color_literal("#DCDCCC"@);
    }
    assert(color_of("#3C3836"@) is Ok) by {
        reveal_strlit("#3C3836");
        lemma_color_literal("#3C3836"@);
    }
    assert(color_of("#6F6F6F"@) is Ok) by {
        reveal_strlit("#6F6F6F");
        lemma_color_literal("#6F6F6F"@);
    }
    assert(color_of("#F0DFAF"@) is Ok) by {
        reveal_strlit("#F0DFAF");
        lemma_color_literal("#F0DFAF"@);
    }
    assert(color_of("#CC9393"@) is Ok) by {
        reveal_strlit("#CC9393");
        lemma_color_literal("#CC9393"@);
    }
    assert(color_of("#282828F2"@) is Ok) by {
        reveal_strlit("#282828F2");
        lemma_color_literal("#282828F2"@);
    }
}

/// A number sign with six or eight hexadecimal digits is a color.
proof fn lemma_color_literal(text: Seq<char>)
    requires
        text.len() == 7 || text.len() == 9,
        text[0] == '#',
        all_digits(text.skip(1), 16),
    ensures
        color_of(text) is Ok,
{
    reveal(color_of);
    reveal_strlit("#");
    let hex = text.skip(1);
    assert(text.take(1) =~= "#"@);
    assert(is_ascii_text(hex)) by {
        assert forall|i: int| 0 <= i < hex.len() implies (#[trigger] hex[i] as int) < 0x80 by {
            assert(digit_value(hex[i]) < 16);
        }
    }
    lemma_byte_length(hex);
    assert(forall|i: int| 0 <= i < hex.len() ==> digit_value(#[trigger] hex[i]) < 16);
}

/// Colors are a number sign with six or eight hexadecimal digits, and nothing else is.
pub proof fn law_colors_are_hexadecimal(text: Seq<char>)
    ensures
        color_of(text) is Ok <==> (text.len() == 7 || text.len() == 9) && text[0] == '#'
            && all_digits(text.skip(1), 16),
{
    reveal_strlit("#");
    if (text.len() == 7 || text.len() == 9) && text[0] == '#' && all_digits(text.skip(1), 16) {
        lemma_color_literal(text);
    }
    if color_of(text) is Ok {
        reveal(color_of);
        let hex = after_prefix(text, "#"@)->0;
        lemma_byte_length(hex);
        assert(hex =~= text.skip(1));
        assert(text.take(1)[0] == text[0]);
        assert(channel_of(hex, 0) is Some && channel_of(hex, 2) is Some && channel_of(hex, 4)
            is Some);
        if hex.len() == 8 {
            assert(channel_of(hex, 6) is Some);
        }
    }
}

/// What the command line asks for.
#[derive(Clone, Copy, Debug, PartialEq, Eq, Structural)]
pub enum Invocation {
    /// Start the bar, with the settings file that this argument names.
    Run(Option<usize>),
    PrintDefaultConfig,
    Help,
}

#[derive(Clone, Copy, Debug, PartialEq, Eq, Structural)]
pub enum ArgumentError {
    MissingConfigPath,
    /// The argument at this place is not known.
    Unknown(usize),
}

/// What the arguments from `start` on ask for, after a path was given at `path`.
pub open spec fn invocation_of(
    arguments: Seq<Option<String>>,
    start: int,
    path: Option<usize>,
) -> Result<Invocation, ArgumentError>
    decreases arguments.len() - start,
{
    if start < 0 || start >= arguments.len() {
        Ok(Invocation::Run(path))
    } else {
        match option_view(arguments[start]) {
            None => Err(ArgumentError::Unknown(start as usize)),
            Some(argument) => if argument == "-c"@ || argument == "--config"@ {
                if start + 1 < arguments.len() {
                    invocation_of(arguments, start + 2, Some((start + 1) as usize))
                } else {
                    Err(ArgumentError::MissingConfigPath)
                }
            } else if argument == "--print-default-config"@ {
                Ok(Invocation::PrintDefaultConfig)
            } else if argument == "-h"@ || argument == "--help"@ {
                Ok(Invocation::Help)
            } else {
                Err(ArgumentError::Unknown(start as usize))
            },
        }
    }
}

/// Reads the arguments in order. An argument that is not Unicode is `None`.
pub fn parse_arguments(arguments: &Vec<Option<String>>) -> (result: Result<
    Invocation,
    ArgumentError,
>)
    ensures
        result == invocation_of(arguments@, 0, None),
{
    let mut path: Option<usize> = None;
    let mut i: usize = 0;
    while i < arguments.len()
        invariant
            i <= arguments@.len(),
            invocation_of(arguments@, 0, None) == invocation_of(arguments@, i as int, path),
        decreases arguments@.len() - i,
    {
        let argument = match &arguments[i] {
            Some(argument) => argument.as_str(),
            None => return Err(ArgumentError::Unknown(i)),
        };
        if same_text(argument, "-c") || same_text(argument, "--config") {
            if i + 1 < arguments.len() {
                path = Some(i + 1);
                i += 2;
            } else {
                return Err(ArgumentError::MissingConfigPath);
            }
        } else if same_text(argument, "--print-default-config") {
            return Ok(Invocation::PrintDefaultConfig);
        } else if same_text(argument, "-h") || same_text(argument, "--help") {
            return Ok(Invocation::Help);
        } else {
            return Err(ArgumentError::Unknown(i));
        }
    }
    Ok(Invocation::Run(path))
}

} // verus!
