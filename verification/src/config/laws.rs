//! What holds of settings, colors and arguments, whatever they are.

use vstd::prelude::*;

use crate::clock::{is_valid_format, FormatItem};
use crate::config::{
    channel_of, color_of, coordinates_usable, invocation_of, is_interface_char, is_interface_name,
    is_location, law_colors_are_hexadecimal, within, ArgumentError, ClockPosition, ColorError,
    Config, ConfigError, Invocation, COLOR_SETTINGS,
};
use crate::render::calendar::CalendarPalette;
use crate::render::network::NetworkPalette;
use crate::render::weather::WeatherPalette;
use crate::text::{
    after_prefix, all_digits, byte_length, digit_value, is_control_char, option_view, trimmed,
};

verus! {

/// The channels of a color are red, green, blue and opacity, two hexadecimal digits each.
pub proof fn law_colors_are_read_channel_by_channel(text: Seq<char>)
    requires
        text.len() == 7 || text.len() == 9,
        text[0] == '#',
        all_digits(text.skip(1), 16),
    ensures
        ({
            let color = color_of(text)->Ok_0;
            &&& color_of(text) is Ok
            &&& color.len() == 4
            &&& color[0] == 16 * digit_value(text[1]) + digit_value(text[2])
            &&& color[1] == 16 * digit_value(text[3]) + digit_value(text[4])
            &&& color[2] == 16 * digit_value(text[5]) + digit_value(text[6])
            &&& text.len() == 9 ==> color[3] == 16 * digit_value(text[7]) + digit_value(text[8])
            &&& text.len() == 7 ==> color[3] == 255
        }),
{
    law_colors_are_hexadecimal(text);
    reveal(color_of);
    reveal_strlit("#");
    let hex = after_prefix(text, "#"@)->0;
    assert(hex =~= text.skip(1));
    assert forall|i: int| 0 <= i < hex.len() implies 0 <= digit_value(#[trigger] hex[i]) < 16
        && hex[i] == text[i + 1] by {
    }
    assert(channel_of(hex, 0) is Some && channel_of(hex, 2) is Some && channel_of(hex, 4) is Some);
    assert(hex[0] == text[1] && hex[1] == text[2] && hex[2] == text[3] && hex[3] == text[4]
        && hex[4] == text[5] && hex[5] == text[6]);
    if text.len() == 9 {
        assert(hex[6] == text[7] && hex[7] == text[8]);
    }
}

/// Settings have no problem if and only if every one of them is in its range.
pub proof fn law_settings_are_checked(config: Config, items: Seq<FormatItem>, address: bool)
    ensures
        config.problem(items, address) is None <==> {
            &&& config.show_tasks ==> config.clock_position == ClockPosition::Center
            &&& 16 <= config.height <= 256
            &&& 0x40c0_0000 <= config.font_size <= 0x42c0_0000
            &&& trimmed(config.font_family@).len() > 0
            &&& 0 < config.tray_icon_size <= config.height
            &&& config.padding <= 256
            &&& config.tray_spacing <= 256
            &&& 16 <= config.workspace_width <= 128
            &&& 0 < config.task_icon_size <= config.height
            &&& config.task_spacing <= 256
            &&& config.task_padding <= 256
            &&& is_valid_format(items)
            &&& coordinates_usable(config.weather_latitude, config.weather_longitude)
            &&& 5 <= config.weather_refresh_minutes <= 1440
            &&& is_location(config.weather_location@)
            &&& config.network_interface@.len() == 0 || is_interface_name(
                config.network_interface@,
            )
            &&& address
            &&& config.color_problem(0) is None
        },
{
    lemma_color_problem(config, 0);
}

proof fn lemma_color_problem(config: Config, start: int)
    requires
        0 <= start <= 32,
    ensures
        config.color_problem(start) is None <==> forall|i: int|
            start <= i < 32 ==> color_of(#[trigger] config.color_text(i)) is Ok,
        config.color_problem(start) matches Some(problem) ==> problem is Color && start
            <= problem->Color_0 < 32 && color_of(config.color_text(problem->Color_0 as int)) is Err,
    decreases 32 - start,
{
    if start < 32 {
        lemma_color_problem(config, start + 1);
        assert(color_of(config.color_text(start)) is Ok || color_of(config.color_text(start))
            is Err);
    }
}

/// A color that cannot be read is told with the place of its setting, and the first one is.
pub proof fn law_wrong_colors_are_named(config: Config, place: int)
    requires
        0 <= place < 32,
        color_of(config.color_text(place)) is Err,
        forall|i: int| 0 <= i < place ==> color_of(#[trigger] config.color_text(i)) is Ok,
    ensures
        config.color_problem(0) == Some(
            ConfigError::Color(place as usize, color_of(config.color_text(place))->Err_0),
        ),
{
    lemma_first_problem(config, 0, place);
}

proof fn lemma_first_problem(config: Config, start: int, place: int)
    requires
        0 <= start <= place < 32,
        color_of(config.color_text(place)) is Err,
        forall|i: int| start <= i < place ==> color_of(#[trigger] config.color_text(i)) is Ok,
    ensures
        config.color_problem(start) == Some(
            ConfigError::Color(place as usize, color_of(config.color_text(place))->Err_0),
        ),
    decreases place - start,
{
    if start < place {
        assert(color_of(config.color_text(start)) is Ok);
        lemma_first_problem(config, start + 1, place);
    }
}

/// The colors of the calendar are those of its settings.
pub proof fn law_calendars_have_their_colors(palette: CalendarPalette, config: Config)
    requires
        palette.follows(config),
    ensures
        color_of(config.calendar_background@) == Ok::<Seq<u8>, ColorError>(palette.background@),
        color_of(config.calendar_foreground@) == Ok::<Seq<u8>, ColorError>(palette.foreground@),
        color_of(config.calendar_header@) == Ok::<Seq<u8>, ColorError>(palette.header@),
        color_of(config.calendar_weekday@) == Ok::<Seq<u8>, ColorError>(palette.weekday@),
        color_of(config.calendar_weekend@) == Ok::<Seq<u8>, ColorError>(palette.weekend@),
        color_of(config.calendar_muted@) == Ok::<Seq<u8>, ColorError>(palette.muted@),
        color_of(config.calendar_today_background@) == Ok::<Seq<u8>, ColorError>(
            palette.today_background@,
        ),
        color_of(config.calendar_today_foreground@) == Ok::<Seq<u8>, ColorError>(
            palette.today_foreground@,
        ),
        color_of(config.calendar_border@) == Ok::<Seq<u8>, ColorError>(palette.border@),
{
}

/// The colors of the cards are those of their settings.
pub proof fn law_cards_have_their_colors(
    weather: WeatherPalette,
    network: NetworkPalette,
    config: Config,
)
    requires
        weather.follows(config),
        network.follows(config),
    ensures
        color_of(config.weather_background@) == Ok::<Seq<u8>, ColorError>(weather.background@),
        color_of(config.weather_foreground@) == Ok::<Seq<u8>, ColorError>(weather.foreground@),
        color_of(config.weather_muted@) == Ok::<Seq<u8>, ColorError>(weather.muted@),
        color_of(config.weather_accent@) == Ok::<Seq<u8>, ColorError>(weather.accent@),
        color_of(config.weather_border@) == Ok::<Seq<u8>, ColorError>(weather.border@),
        color_of(config.network_background@) == Ok::<Seq<u8>, ColorError>(network.background@),
        color_of(config.network_foreground@) == Ok::<Seq<u8>, ColorError>(network.foreground@),
        color_of(config.network_muted@) == Ok::<Seq<u8>, ColorError>(network.muted@),
        color_of(config.network_accent@) == Ok::<Seq<u8>, ColorError>(network.accent@),
        color_of(config.network_border@) == Ok::<Seq<u8>, ColorError>(network.border@),
{
}

/// Coordinates come in pairs, a latitude of at most 90 degrees and a longitude of at most
/// 180, on either side of zero.
pub proof fn law_coordinates_come_in_pairs(latitude: u64, longitude: u64)
    ensures
        coordinates_usable(None, None),
        !coordinates_usable(Some(latitude), None),
        !coordinates_usable(None, Some(longitude)),
        coordinates_usable(Some(latitude), Some(longitude)) <==> (latitude % 0x8000_0000_0000_0000
            <= 0x4056_8000_0000_0000) && (longitude % 0x8000_0000_0000_0000
            <= 0x4066_8000_0000_0000),
        latitude < 0x8000_0000_0000_0000 ==> within(latitude, longitude) == within(
            (latitude + 0x8000_0000_0000_0000) as u64,
            longitude,
        ),
{
}

/// The name of an interface has 1 to 15 letters, digits and `_.-:`, and is no directory.
pub proof fn law_interface_names(name: Seq<char>)
    ensures
        is_interface_name(name) <==> {
            &&& 1 <= name.len() <= 15
            &&& !(name.len() == 1 && name[0] == '.')
            &&& !(name.len() == 2 && name[0] == '.' && name[1] == '.')
            &&& forall|i: int|
                0 <= i < name.len() ==> digit_value(#[trigger] name[i]) < 36 || name[i] == '_'
                    || name[i] == '.' || name[i] == '-' || name[i] == ':'
        },
{
    if name.len() == 1 && name[0] == '.' {
        assert(name =~= seq!['.']);
    }
    if name.len() == 2 && name[0] == '.' && name[1] == '.' {
        assert(name =~= seq!['.', '.']);
    }
    if is_interface_name(name) {
        assert forall|i: int| 0 <= i < name.len() implies digit_value(#[trigger] name[i]) < 36
            || name[i] == '_' || name[i] == '.' || name[i] == '-' || name[i] == ':' by {
            assert(is_interface_char(name[i]));
        }
    }
}

/// A location has at most 256 bytes and no control characters.
pub proof fn law_locations_are_plain(text: Seq<char>, i: int)
    ensures
        is_location(text) && 0 <= i < text.len() ==> !is_control_char(text[i]),
        byte_length(text) > 256 ==> !is_location(text),
        is_location(Seq::empty()),
{
    assert(byte_length(Seq::<char>::empty()) == 0);
}

/// The last settings file that the arguments name is used; help and the default settings
/// are shown as soon as they are asked for; no other argument is known.
pub proof fn law_arguments_are_read_in_order(
    arguments: Seq<Option<String>>,
    start: int,
    path: Option<usize>,
)
    requires
        0 <= start,
        arguments.len() <= usize::MAX,
    ensures
        start >= arguments.len() ==> invocation_of(arguments, start, path) == Ok::<
            Invocation,
            ArgumentError,
        >(Invocation::Run(path)),
        start < arguments.len() && arguments[start] is None ==> invocation_of(
            arguments,
            start,
            path,
        ) == Err::<Invocation, ArgumentError>(ArgumentError::Unknown(start as usize)),
        start < arguments.len() && (option_view(arguments[start]) == Some("-c"@) || option_view(
            arguments[start],
        ) == Some("--config"@)) ==> invocation_of(arguments, start, path) == (if start + 1
            < arguments.len() {
            invocation_of(arguments, start + 2, Some((start + 1) as usize))
        } else {
            Err(ArgumentError::MissingConfigPath)
        }),
        start < arguments.len() && (option_view(arguments[start]) == Some("-h"@) || option_view(
            arguments[start],
        ) == Some("--help"@)) ==> invocation_of(arguments, start, path) == Ok::<
            Invocation,
            ArgumentError,
        >(Invocation::Help),
        start < arguments.len() && option_view(arguments[start]) == Some("--print-default-config"@)
            ==> invocation_of(arguments, start, path) == Ok::<Invocation, ArgumentError>(
            Invocation::PrintDefaultConfig,
        ),
{
    reveal_strlit("-c");
    reveal_strlit("-h");
    reveal_strlit("--config");
    reveal_strlit("--help");
    reveal_strlit("--print-default-config");
    assert("-c"@[1] == 'c' && "-h"@[1] == 'h' && "--config"@[2] == 'c' && "--help"@[2] == 'h'
        && "--print-default-config"@[2] == 'p' && "-c"@.len() == 2 && "-h"@.len() == 2);
    assert("--config"@.len() == 8 && "--help"@.len() == 6 && "--print-default-config"@.len() == 22);
}

/// The color settings are checked under their names.
pub proof fn law_color_settings_have_names(config: Config)
    ensures
        COLOR_SETTINGS[0]@ == "background"@,
        config.color_text(0) == config.background@,
        COLOR_SETTINGS[1]@ == "foreground"@,
        config.color_text(1) == config.foreground@,
        COLOR_SETTINGS[2]@ == "workspace_focused_background"@,
        config.color_text(2) == config.workspace_focused_background@,
        COLOR_SETTINGS[3]@ == "workspace_active_background"@,
        config.color_text(3) == config.workspace_active_background@,
        COLOR_SETTINGS[4]@ == "workspace_active_foreground"@,
        config.color_text(4) == config.workspace_active_foreground@,
        COLOR_SETTINGS[5]@ == "workspace_occupied_foreground"@,
        config.color_text(5) == config.workspace_occupied_foreground@,
        COLOR_SETTINGS[6]@ == "workspace_empty_foreground"@,
        config.color_text(6) == config.workspace_empty_foreground@,
        COLOR_SETTINGS[7]@ == "workspace_urgent_foreground"@,
        config.color_text(7) == config.workspace_urgent_foreground@,
        COLOR_SETTINGS[8]@ == "calendar_background"@,
        config.color_text(8) == config.calendar_background@,
        COLOR_SETTINGS[9]@ == "calendar_foreground"@,
        config.color_text(9) == config.calendar_foreground@,
        COLOR_SETTINGS[10]@ == "calendar_header"@,
        config.color_text(10) == config.calendar_header@,
        COLOR_SETTINGS[11]@ == "calendar_weekday"@,
        config.color_text(11) == config.calendar_weekday@,
        COLOR_SETTINGS[12]@ == "calendar_weekend"@,
        config.color_text(12) == config.calendar_weekend@,
        COLOR_SETTINGS[13]@ == "calendar_muted"@,
        config.color_text(13) == config.calendar_muted@,
        COLOR_SETTINGS[14]@ == "calendar_today_background"@,
        config.color_text(14) == config.calendar_today_background@,
        COLOR_SETTINGS[15]@ == "calendar_today_foreground"@,
        config.color_text(15) == config.calendar_today_foreground@,
        COLOR_SETTINGS[16]@ == "calendar_border"@,
        config.color_text(16) == config.calendar_border@,
        COLOR_SETTINGS[17]@ == "weather_background"@,
        config.color_text(17) == config.weather_background@,
        COLOR_SETTINGS[18]@ == "weather_foreground"@,
        config.color_text(18) == config.weather_foreground@,
        COLOR_SETTINGS[19]@ == "weather_muted"@,
        config.color_text(19) == config.weather_muted@,
        COLOR_SETTINGS[20]@ == "weather_accent"@,
        config.color_text(20) == config.weather_accent@,
        COLOR_SETTINGS[21]@ == "weather_border"@,
        config.color_text(21) == config.weather_border@,
        COLOR_SETTINGS[22]@ == "network_background"@,
        config.color_text(22) == config.network_background@,
        COLOR_SETTINGS[23]@ == "network_foreground"@,
        config.color_text(23) == config.network_foreground@,
        COLOR_SETTINGS[24]@ == "network_muted"@,
        config.color_text(24) == config.network_muted@,
        COLOR_SETTINGS[25]@ == "network_accent"@,
        config.color_text(25) == config.network_accent@,
        COLOR_SETTINGS[26]@ == "network_border"@,
        config.color_text(26) == config.network_border@,
        COLOR_SETTINGS[27]@ == "task_background"@,
        config.color_text(27) == config.task_background@,
        COLOR_SETTINGS[28]@ == "task_focused_background"@,
        config.color_text(28) == config.task_focused_background@,
        COLOR_SETTINGS[29]@ == "task_urgent_background"@,
        config.color_text(29) == config.task_urgent_background@,
        COLOR_SETTINGS[30]@ == "task_foreground"@,
        config.color_text(30) == config.task_foreground@,
        COLOR_SETTINGS[31]@ == "task_focused_foreground"@,
        config.color_text(31) == config.task_focused_foreground@,
{
}

} // verus!
