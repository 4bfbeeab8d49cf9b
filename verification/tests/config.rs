use nibari::clock::FormatItem;
use nibari::config::completion::{completed_config, completed_with, CompletionError, DEFAULT_CONFIG};
use nibari::config::loading::{next_load_step, LoadAction, LoadEvent, LoadState};
use nibari::config::{
    parse_arguments, parse_color, valid_interface_name, ArgumentError, ClockPosition, ColorError,
    Config, ConfigError, Invocation, WeatherUnits, COLOR_SETTINGS,
};

fn text(table: &toml::Table, key: &str, setting: &mut String) {
    if let Some(value) = table.get(key) {
        *setting = value.as_str().expect("a text").to_owned();
    }
}

fn flag(table: &toml::Table, key: &str, setting: &mut bool) {
    if let Some(value) = table.get(key) {
        *setting = value.as_bool().expect("a truth value");
    }
}

fn count(table: &toml::Table, key: &str, setting: &mut u32) {
    if let Some(value) = table.get(key) {
        *setting = u32::try_from(value.as_integer().expect("a number")).expect("no sign");
    }
}

fn degrees(table: &toml::Table, key: &str, setting: &mut Option<u64>) {
    if let Some(value) = table.get(key) {
        *setting = Some(value.as_float().expect("a number").to_bits());
    }
}

/// The settings of a file, for the keys that the tests use.
fn settings(source: &str) -> Result<Config, String> {
    let table: toml::Table = toml::from_str(source).map_err(|error| error.to_string())?;
    let known: toml::Table = toml::from_str(DEFAULT_CONFIG).unwrap();
    for key in table.keys() {
        let optional = ["weather_latitude", "weather_longitude", "icon_theme", "appmenu_enabled"];
        if !known.contains_key(key) && !optional.contains(&key.as_str()) {
            return Err(format!("unknown setting {key}"));
        }
    }
    let mut config = Config::default();
    count(&table, "height", &mut config.height);
    text(&table, "font_family", &mut config.font_family);
    if let Some(size) = table.get("font_size") {
        config.font_size = (size.as_float().unwrap() as f32).to_bits();
    }
    text(&table, "background", &mut config.background);
    text(&table, "foreground", &mut config.foreground);
    flag(&table, "tray_drawer", &mut config.tray_drawer);
    count(&table, "tray_drawer_duration_ms", &mut config.tray_drawer_duration_ms);
    flag(&table, "media_enabled", &mut config.media_enabled);
    flag(&table, "show_tasks", &mut config.show_tasks);
    text(&table, "clock_format", &mut config.clock_format);
    if let Some(position) = table.get("clock_position") {
        config.clock_position = match position.as_str() {
            Some("center") => ClockPosition::Center,
            Some("right") => ClockPosition::Right,
            _ => return Err("unknown clock_position".to_owned()),
        };
    }
    flag(&table, "calendar_enabled", &mut config.calendar_enabled);
    text(&table, "calendar_background", &mut config.calendar_background);
    text(&table, "calendar_border", &mut config.calendar_border);
    flag(&table, "weather_enabled", &mut config.weather_enabled);
    text(&table, "weather_location", &mut config.weather_location);
    degrees(&table, "weather_latitude", &mut config.weather_latitude);
    degrees(&table, "weather_longitude", &mut config.weather_longitude);
    if let Some(units) = table.get("weather_units") {
        config.weather_units = match units.as_str() {
            Some("metric") => WeatherUnits::Metric,
            Some("imperial") => WeatherUnits::Imperial,
            _ => return Err("unknown weather_units".to_owned()),
        };
    }
    count(&table, "weather_refresh_minutes", &mut config.weather_refresh_minutes);
    text(&table, "weather_background", &mut config.weather_background);
    text(&table, "weather_foreground", &mut config.weather_foreground);
    flag(&table, "network_enabled", &mut config.network_enabled);
    text(&table, "network_interface", &mut config.network_interface);
    text(&table, "network_ping_target", &mut config.network_ping_target);
    text(&table, "network_background", &mut config.network_background);
    text(&table, "network_accent", &mut config.network_accent);
    Ok(config)
}

fn check(config: &Config) -> Result<(), ConfigError> {
    let numbers: Vec<_> = config
        .network_ping_target
        .split('.')
        .map(|part| part.parse::<u8>())
        .collect();
    config.validate(numbers.len() == 4 && numbers.iter().all(|number| number.is_ok()))
}

#[test]
fn weather_config_validates_coordinate_pairs_units_and_refresh_interval() {
    for source in [
        "weather_enabled = true",
        "weather_location = 'Уфа'",
        "weather_latitude = 0.0\nweather_longitude = 0.0\nweather_units = 'imperial'\nweather_background = '#22222280'",
    ] {
        let c = settings(source).unwrap();
        check(&c).unwrap();
    }
    for source in [
        "weather_latitude = 10.0",
        "weather_latitude = nan\nweather_longitude = 1.0",
        "weather_latitude = 91.0\nweather_longitude = 0.0",
        "weather_latitude = 0.0\nweather_longitude = -181.0",
        "weather_refresh_minutes = 0",
        "weather_foreground = 'bad'",
    ] {
        let c = settings(source).unwrap();
        assert!(check(&c).is_err(), "{source}");
    }
    assert!(settings("weather_units = 'kelvin'").is_err());
}

#[test]
fn network_options_accept_numeric_probe_and_rgba_palette() {
    let config = settings("network_enabled = true\nnetwork_interface = 'eth0'\nnetwork_ping_target = '1.1.1.1'\nnetwork_background = '#222222CC'").unwrap();
    check(&config).unwrap();
    for source in [
        "network_interface = '../eth0'",
        "network_ping_target = '--help'",
        "network_accent = 'invalid'",
    ] {
        let invalid = settings(source).unwrap();
        assert!(check(&invalid).is_err());
    }
}

#[test]
fn accepts_centered_formatted_clock_and_rgba_calendar_palette() {
    let config = settings("clock_position = 'center'\nclock_format = '%d.%m.%Y %H:%M'\ncalendar_background = '#222222CC'\ncalendar_enabled = true").unwrap();
    check(&config).unwrap();
    assert_eq!(config.clock_format, "%d.%m.%Y %H:%M");
}

#[test]
fn rejects_invalid_clock_position_and_calendar_color() {
    assert!(settings("clock_position = 'middle'").is_err());
    let config = settings("calendar_border = 'invalid'").unwrap();
    assert!(check(&config).is_err());
}

#[test]
fn parses_rgb_and_rgba() {
    assert_eq!(parse_color("#123456").unwrap(), [0x12, 0x34, 0x56, 0xff]);
    assert_eq!(parse_color("#12345678").unwrap(), [0x12, 0x34, 0x56, 0x78]);
}

#[test]
fn colors_need_six_or_eight_hexadecimal_digits() {
    assert_eq!(parse_color("123456"), Err(ColorError::Form));
    assert_eq!(parse_color("#12345"), Err(ColorError::Form));
    assert_eq!(parse_color("#1234567"), Err(ColorError::Form));
    assert_eq!(parse_color("#12345g"), Err(ColorError::Digit));
    assert_eq!(parse_color("#+10000"), Err(ColorError::Digit));
    assert_eq!(parse_color("#0000+1"), Err(ColorError::Digit));
    assert_eq!(parse_color("#000000+1"), Err(ColorError::Digit));
    assert_eq!(parse_color("#-10000"), Err(ColorError::Digit));
    assert_eq!(parse_color("#FFffFF00"), Ok([255, 255, 255, 0]));
    assert_eq!(parse_color("#282828FF"), parse_color("#282828"));
}

#[test]
fn rejects_unknown_keys() {
    let error = settings("unknown = true").unwrap_err();
    assert!(error.to_string().contains("unknown"));
}

#[test]
fn tray_drawer_options_are_accepted() {
    for duration in [0, 600] {
        check(
            &settings(&format!(
                "tray_drawer = true\ntray_drawer_duration_ms = {duration}"
            ))
            .unwrap(),
        )
        .unwrap();
    }
}

#[test]
fn tasks_require_a_centered_clock_and_default_to_hidden() {
    let config = settings("show_tasks = true\nclock_position = 'center'").unwrap();
    check(&config).unwrap();
    assert!(config.show_tasks);

    let invalid = settings("show_tasks = true").unwrap();
    assert!(check(&invalid)
        .unwrap_err()
        .message()
        .contains("clock_position"));

    assert!(!settings("").unwrap().show_tasks);
    assert!(!settings(DEFAULT_CONFIG).unwrap().show_tasks);
}

#[test]
fn obsolete_menu_option_does_not_disable_media_or_break_existing_configs() {
    for value in ["true", "false"] {
        let config = settings(&format!("appmenu_enabled = {value}")).unwrap();
        check(&config).unwrap();
        assert!(config.media_enabled);
    }
    assert!(!settings("media_enabled = false").unwrap().media_enabled);
}

#[test]
fn default_clock_format_is_valid() {
    check(&Config::default()).unwrap();
}

#[test]
fn bundled_example_is_a_valid_config() {
    check(&settings(DEFAULT_CONFIG).unwrap()).unwrap();
}

#[test]
fn default_colors_use_static_zenburn_palette() {
    let config = Config::default();

    assert_eq!(config.background, "#282828");
    assert_eq!(config.foreground, "#DCDCCC");
    assert_eq!(config.workspace_focused_background, "#3C3836");
    assert_eq!(config.workspace_active_background, "#6F6F6F");
    assert_eq!(config.workspace_active_foreground, "#F0DFAF");
    assert_eq!(config.workspace_urgent_foreground, "#CC9393");
    assert_eq!(config.task_focused_background, "#3C3836");
    assert_eq!(config.task_focused_foreground, "#F0DFAF");
    assert_eq!(config.background_rgba(), [0x28, 0x28, 0x28, 0xff]);
    assert_eq!(config.foreground_rgba(), [0xdc, 0xdc, 0xcc, 0xff]);
    assert_eq!(config.color_rgba("#01020304"), [1, 2, 3, 4]);
}

#[test]
fn every_wrong_setting_has_its_own_error() {
    let wrong = |change: fn(&mut Config)| {
        let mut config = Config::default();
        change(&mut config);
        check(&config).unwrap_err()
    };
    assert_eq!(wrong(|c| c.show_tasks = true), ConfigError::TasksNeedCenteredClock);
    assert_eq!(wrong(|c| c.height = 15), ConfigError::Height);
    assert_eq!(wrong(|c| c.height = 257), ConfigError::Height);
    assert_eq!(wrong(|c| c.font_size = 5.5f32.to_bits()), ConfigError::FontSize);
    assert_eq!(wrong(|c| c.font_size = f32::NAN.to_bits()), ConfigError::FontSize);
    assert_eq!(wrong(|c| c.font_family = " ".to_owned()), ConfigError::FontFamily);
    assert_eq!(wrong(|c| c.tray_icon_size = 0), ConfigError::TrayIconSize);
    assert_eq!(wrong(|c| c.padding = 257), ConfigError::Spacing);
    assert_eq!(wrong(|c| c.workspace_width = 129), ConfigError::WorkspaceWidth);
    assert_eq!(wrong(|c| c.task_icon_size = 29), ConfigError::TaskIconSize);
    assert_eq!(wrong(|c| c.task_padding = 300), ConfigError::TaskSpacing);
    assert_eq!(wrong(|c| c.clock_format = "%Q".to_owned()), ConfigError::ClockFormat);
    assert_eq!(wrong(|c| c.weather_latitude = Some(0)), ConfigError::Coordinates);
    assert_eq!(wrong(|c| c.weather_refresh_minutes = 4), ConfigError::RefreshMinutes);
    assert_eq!(wrong(|c| c.weather_location = "a\tb".to_owned()), ConfigError::Location);
    assert_eq!(wrong(|c| c.network_interface = "..".to_owned()), ConfigError::Interface);
    assert_eq!(wrong(|c| c.network_ping_target = "host".to_owned()), ConfigError::PingTarget);
    let error = wrong(|c| c.task_focused_foreground = "red".to_owned());
    assert_eq!(error, ConfigError::Color(31, ColorError::Form));
    assert_eq!(error.message(), "invalid task_focused_foreground");
    assert_eq!(COLOR_SETTINGS[31], "task_focused_foreground");
}

#[test]
fn a_format_is_judged_by_its_items() {
    let config = Config::default();
    assert_eq!(config.validate_with(&vec![FormatItem::Literal], true), Ok(()));
    assert_eq!(
        config.validate_with(&vec![FormatItem::Literal, FormatItem::Invalid], true),
        Err(ConfigError::ClockFormat)
    );
}

#[test]
fn interface_names_are_short_and_plain() {
    assert!(valid_interface_name("eth0.100"));
    assert!(valid_interface_name("wg-home_1:a"));
    assert!(!valid_interface_name(""));
    assert!(!valid_interface_name("."));
    assert!(!valid_interface_name("a/b"));
    assert!(valid_interface_name("123456789012345"));
    assert!(!valid_interface_name("1234567890123456"));
}

#[test]
fn missing_settings_are_added_behind_the_users_text() {
    let source = "# My settings\n\"height\" = 32\ntray_drawer = true\ntray_drawer_duration_ms = 123\n# trailing comment";
    let updated = completed_config(source).unwrap().unwrap();
    let table: toml::Table = toml::from_str(&updated).unwrap();
    assert!(updated.starts_with(source));
    assert_eq!(table.get("height").and_then(toml::Value::as_integer), Some(32));
    for key in toml::from_str::<toml::Table>(DEFAULT_CONFIG).unwrap().keys() {
        assert!(table.contains_key(key), "missing setting: {key}");
    }
    assert_eq!(completed_config(&updated), Ok(None));
}

#[test]
fn settings_inside_values_and_comments_are_not_taken_for_settings() {
    let source = "clock_format = '''time\ntray_drawer = true\n'''\n# tray_drawer = true\n";
    let updated = completed_config(source).unwrap().unwrap();
    assert!(updated.starts_with(source));
    let table: toml::Table = toml::from_str(&updated).unwrap();
    assert_eq!(table.get("tray_drawer").and_then(toml::Value::as_bool), Some(false));
}

#[test]
fn unreadable_files_are_not_completed() {
    assert_eq!(completed_config("height = "), Err(CompletionError::Syntax));
    assert_eq!(completed_config(DEFAULT_CONFIG), Ok(None));
}

#[test]
fn completion_adds_blocks_with_their_comments() {
    let template = "# The first.\na = 1\n\n# The second.\nb = 2\n";
    let keys = vec!["a".to_owned()];
    assert_eq!(
        completed_with("a = 5", &keys, template),
        Ok(Some("a = 5\n\n# The second.\nb = 2\n".to_owned()))
    );
    for template in [
        "# no setting\nword\n",
        "b = 2",
        "b=2\n",
        "b = 02\n",
        "b = 1.\n",
        "b = 'it''s'\n",
        "b.c = 2\n",
        "# bell \u{7}\nb = 2\n",
        "b = 2\n\nb = 3\n",
    ] {
        let result = completed_with("a = 5", &keys, template);
        assert_eq!(result, Err(CompletionError::Template), "{template:?}");
    }
    for line in ["b = true\n", "b-2_C = ''\n", "b = 'ä # =  x'\n", "b = 8.05\n", "b = 10\n"] {
        let completed = format!("a = 5\n\n{line}");
        assert_eq!(completed_with("a = 5", &keys, line), Ok(Some(completed.clone())));
        assert_eq!(toml::from_str::<toml::Table>(&completed).unwrap().len(), 2);
    }
}

#[test]
fn arguments_name_a_file_or_ask_for_help() {
    let arguments = |words: &[&str]| {
        words.iter().map(|word| Some(word.to_string())).collect::<Vec<_>>()
    };
    assert_eq!(parse_arguments(&arguments(&[])), Ok(Invocation::Run(None)));
    assert_eq!(parse_arguments(&arguments(&["--config", "x"])), Ok(Invocation::Run(Some(1))));
    assert_eq!(parse_arguments(&arguments(&["-c"])), Err(ArgumentError::MissingConfigPath));
    assert_eq!(parse_arguments(&arguments(&["-h"])), Ok(Invocation::Help));
    assert_eq!(
        parse_arguments(&arguments(&["--print-default-config"])),
        Ok(Invocation::PrintDefaultConfig)
    );
    assert_eq!(parse_arguments(&arguments(&["-c", "x", "y"])), Err(ArgumentError::Unknown(2)));
    assert_eq!(parse_arguments(&vec![None]), Err(ArgumentError::Unknown(0)));
}

/// What is done when the steps of loading go in some way.
fn loading(required: bool, events: &[LoadEvent]) -> Vec<LoadAction> {
    let mut state = LoadState::Reading { required };
    events
        .iter()
        .map(|event| {
            let (next, action) = next_load_step(state, *event);
            state = next;
            action
        })
        .collect()
}

#[test]
fn missing_default_files_are_created_and_explicit_ones_are_errors() {
    for outcome in [LoadEvent::Succeeded, LoadEvent::Failed] {
        assert_eq!(
            loading(false, &[LoadEvent::Missing, outcome]),
            [LoadAction::WriteTemplate, LoadAction::UseDefaults]
        );
    }
    assert_eq!(
        loading(true, &[LoadEvent::Missing, LoadEvent::Succeeded]),
        [LoadAction::Fail, LoadAction::Nothing]
    );
    assert_eq!(loading(false, &[LoadEvent::Failed]), [LoadAction::Fail]);
}

#[test]
fn invalid_files_are_never_written() {
    assert_eq!(
        loading(false, &[LoadEvent::Succeeded, LoadEvent::Failed]),
        [LoadAction::CheckSettings, LoadAction::Fail]
    );
    assert_eq!(
        loading(
            true,
            &[
                LoadEvent::Succeeded,
                LoadEvent::Succeeded,
                LoadEvent::Succeeded,
                LoadEvent::Failed,
            ]
        ),
        [
            LoadAction::CheckSettings,
            LoadAction::CompleteSettings,
            LoadAction::CheckCompleted,
            LoadAction::UseLoaded,
        ]
    );
}

#[test]
fn complete_files_are_left_alone_and_failed_writes_do_not_matter() {
    assert_eq!(
        loading(
            false,
            &[
                LoadEvent::Succeeded,
                LoadEvent::Succeeded,
                LoadEvent::Complete,
            ]
        ),
        [
            LoadAction::CheckSettings,
            LoadAction::CompleteSettings,
            LoadAction::UseLoaded,
        ]
    );
    for written in [LoadEvent::Succeeded, LoadEvent::Failed] {
        assert_eq!(
            loading(
                false,
                &[
                    LoadEvent::Succeeded,
                    LoadEvent::Succeeded,
                    LoadEvent::Succeeded,
                    LoadEvent::Succeeded,
                    written,
                ]
            )[3..],
            [LoadAction::WriteCompleted, LoadAction::UseLoaded]
        );
    }
}

#[test]
fn completed_files_name_every_setting() {
    let keys = |source: &str| -> Vec<String> {
        let table: toml::Table = toml::from_str(source).unwrap();
        table.keys().cloned().collect()
    };
    let all = keys(DEFAULT_CONFIG);
    let mut sources = vec![
        "".to_owned(),
        "\n".into(),
        "other = 1".into(),
        "\u{feff}other = 1".into(),
        "a.b = [1,\n  2] # [x]".into(),
        "text = '''\n[no table]\n'''\r\n".into(),
    ];
    for missing in &all {
        let mut table: toml::Table = toml::from_str(DEFAULT_CONFIG).unwrap();
        table.remove(missing);
        sources.push(table.to_string());
    }
    for source in sources {
        let completed = completed_config(&source).unwrap().unwrap();
        assert!(completed.starts_with(&source));
        let named = keys(&completed);
        for key in keys(&source).iter().chain(&all) {
            assert!(named.contains(key), "{key} in {completed}");
        }
        assert!(named
            .iter()
            .all(|key| all.contains(key) || source.contains(key.as_str())));
        assert_eq!(completed_config(&completed), Ok(None));

        let before: toml::Table = toml::from_str(&source).unwrap();
        let after: toml::Table = toml::from_str(&completed).unwrap();
        assert!(before.iter().all(|(key, value)| after.get(key) == Some(value)));
    }
}
