use nibari::bar::popup::{OpenPopup, PopupEffect, PopupKey};
use nibari::config::{Config, WeatherUnits};
use nibari::date::{Date, FIRST_YEAR, LAST_YEAR};
use nibari::network::{IpAddress, NetworkKind, NetworkSnapshot};
use nibari::render::calendar::{
    centered_at, clip_hitbox, month_grid, prepare_calendar, shifted_month, weekday_label,
    CalendarCommand, CalendarPalette, PreparedCalendar,
};
use nibari::render::bar::Size;
use nibari::render::card::{place_text, CardCommand, CardIcon};
use nibari::render::menu::{MenuHitbox, MenuSelection};
use nibari::render::network::{
    bytes, prepare_network, rate, NetworkPalette, NetworkTexts, PreparedNetwork,
};
use nibari::render::pixels::{blend_rect, Bitmap, PixelRect};
use nibari::render::popup::PreparedPopup;
use nibari::render::weather::{
    prepare_weather, temperature_size, DayTexts, WeatherPalette, WeatherTexts,
};
use nibari::tray::BTN_LEFT;
use nibari::weather::schedule::WeatherState;
use nibari::weather::{Condition, WeatherDay, WeatherReport};

fn date(year: i32, month: u32, day: u32) -> Date {
    Date::new(year, month, day).unwrap()
}

fn calendar_palette() -> CalendarPalette {
    CalendarPalette {
        background: [21, 23, 28, 128],
        foreground: [220, 220, 220, 255],
        header: [245, 245, 245, 255],
        weekday: [205, 205, 205, 255],
        weekend: [224, 155, 94, 255],
        muted: [92, 96, 105, 255],
        today_background: [126, 156, 216, 255],
        today_foreground: [12, 15, 20, 255],
        border: [75, 79, 88, 255],
    }
}

#[test]
fn leap_february_uses_monday_first_six_week_grid() {
    let grid = month_grid(date(2024, 2, 18));

    assert_eq!(grid[0], Some(date(2024, 1, 29)));
    assert_eq!(grid[3], Some(date(2024, 2, 1)));
    assert_eq!(grid[31], Some(date(2024, 2, 29)));
    assert_eq!(grid[32], Some(date(2024, 3, 1)));
    assert_eq!(grid[41], Some(date(2024, 3, 10)));
}

#[test]
fn month_starting_monday_occupies_first_cell() {
    let grid = month_grid(date(2023, 5, 29));

    assert_eq!(grid[0], Some(date(2023, 5, 1)));
    assert_eq!(grid[6], Some(date(2023, 5, 7)));
    assert_eq!(grid[41], Some(date(2023, 6, 11)));
}

#[test]
fn december_grid_and_month_shift_cross_year_boundary() {
    let grid = month_grid(date(2024, 12, 31));

    assert_eq!(grid[0], Some(date(2024, 11, 25)));
    assert_eq!(grid[6], Some(date(2024, 12, 1)));
    assert_eq!(grid[37], Some(date(2025, 1, 1)));
    assert_eq!(shifted_month(date(2024, 12, 31), 1), date(2025, 1, 1));
    assert_eq!(shifted_month(date(2025, 1, 31), -1), date(2024, 12, 1));
}

#[test]
fn date_bounds_clamp_month_navigation_and_leave_unrepresentable_cells_empty() {
    let earliest = date(FIRST_YEAR, 1, 1);
    let latest = date(LAST_YEAR, 12, 31);
    let min_month = date(FIRST_YEAR, 1, 1);
    let max_month = date(LAST_YEAR, 12, 1);

    assert_eq!(shifted_month(earliest, -1), min_month);
    assert_eq!(shifted_month(latest, 1), max_month);
    assert!(month_grid(earliest).contains(&Some(earliest)));
    assert!(month_grid(latest).contains(&Some(latest)));
    assert!(month_grid(earliest).iter().any(Option::is_none));
    assert!(month_grid(latest).iter().any(Option::is_none));
    assert_eq!(
        chrono::NaiveDate::MIN,
        chrono::NaiveDate::from_ymd_opt(FIRST_YEAR, 1, 1).unwrap()
    );
    assert_eq!(
        chrono::NaiveDate::MAX,
        chrono::NaiveDate::from_ymd_opt(LAST_YEAR, 12, 31).unwrap()
    );
}

#[test]
fn prepared_calendar_scales_and_normalizes_its_month() {
    for scale in [1, 2, 3] {
        let calendar = prepare_calendar(
            date(2024, 2, 29),
            date(2024, 2, 18),
            scale,
            &calendar_palette(),
        );
        assert_eq!(calendar.month, date(2024, 2, 1));
        assert_eq!(calendar.today, date(2024, 2, 18));
        assert_eq!(calendar.size(), (288 * scale, 280 * scale));
        assert_eq!(calendar.heading, "February 2024");
    }
}

#[test]
fn calendar_headings_name_month_and_year() {
    for (day, heading) in [
        (date(2026, 12, 31), "December 2026"),
        (date(0, 1, 1), "January 0000"),
        (date(-5, 5, 9), "May -0005"),
        (date(987, 9, 1), "September 0987"),
        (date(12345, 6, 1), "June +12345"),
    ] {
        let calendar = prepare_calendar(day, date(2024, 2, 18), 1, &calendar_palette());
        assert_eq!(calendar.heading, heading);
    }
}

#[test]
fn header_hitboxes_navigate_in_visual_order() {
    let calendar = prepare_calendar(date(2024, 2, 1), date(2024, 2, 18), 1, &calendar_palette());

    assert_eq!(calendar.selection_at(30, 34), Some(MenuSelection::Item(-1)));
    assert_eq!(calendar.selection_at(144, 34), Some(MenuSelection::Item(0)));
    assert_eq!(calendar.selection_at(258, 34), Some(MenuSelection::Item(1)));
    assert_eq!(
        calendar.next_selection(None, false),
        Some(MenuSelection::Item(-1))
    );
    assert_eq!(
        calendar.next_selection(Some(MenuSelection::Item(-1)), false),
        Some(MenuSelection::Item(0))
    );
    assert_eq!(
        calendar.next_selection(Some(MenuSelection::Item(-1)), true),
        Some(MenuSelection::Item(1))
    );
}

#[test]
fn constraints_clip_navigation_hitboxes() {
    let mut calendar =
        prepare_calendar(date(2024, 2, 1), date(2024, 2, 18), 2, &calendar_palette());

    calendar.constrain(300, 70);

    assert_eq!(calendar.size(), (300, 70));
    assert_eq!(calendar.selection_at(60, 68), Some(MenuSelection::Item(-1)));
    assert_eq!(calendar.selection_at(299, 68), Some(MenuSelection::Item(0)));
    assert_eq!(calendar.selection_at(300, 68), None);
    assert_eq!(calendar.selection_at(60, 70), None);
}

/// Fills a rectangle whose corners are cut off by circles.
fn fill_rounded(canvas: &mut Bitmap, area: PixelRect, radius: i32, color: [u8; 4]) {
    for y in 0..area.height {
        for x in 0..area.width {
            let dx = (radius - x).max(x - (area.width - 1 - radius)).max(0);
            let dy = (radius - y).max(y - (area.height - 1 - radius)).max(0);
            if dx * dx + dy * dy <= radius * radius {
                blend_rect(canvas, area.x + x, area.y + y, 1, 1, color);
            }
        }
    }
}

fn outline(canvas: &mut Bitmap, area: PixelRect, width: i32, color: [u8; 4]) {
    let right = area.x + area.width - width;
    let bottom = area.y + area.height - width;
    blend_rect(
        canvas,
        area.x,
        area.y,
        area.width as u32,
        width as u32,
        color,
    );
    blend_rect(canvas, area.x, bottom, area.width as u32, width as u32, color);
    blend_rect(
        canvas,
        area.x,
        area.y,
        width as u32,
        area.height as u32,
        color,
    );
    blend_rect(canvas, right, area.y, width as u32, area.height as u32, color);
}

/// Draws the areas and numbers of a calendar, numbers as squares.
fn paint_calendar(calendar: &PreparedCalendar) -> Bitmap {
    let mut canvas = Bitmap::transparent(calendar.width, calendar.height);
    for command in &calendar.commands {
        match *command {
            CalendarCommand::Rounded {
                area,
                radius,
                color,
            } => fill_rounded(&mut canvas, area, radius, color),
            CalendarCommand::Day { x, y, color, .. } => {
                blend_rect(&mut canvas, x - 3, y - 3, 6, 6, color)
            }
            _ => {}
        }
    }
    canvas
}

fn rect_contains_color(bitmap: &Bitmap, rect: (u32, u32, u32, u32), color: [u8; 4]) -> bool {
    let (x, y, width, height) = rect;
    (y..y + height).any(|y| (x..x + width).any(|x| bitmap.pixel(x, y) == color))
}

#[test]
fn rendered_today_has_highlight_while_another_day_does_not() {
    let colors = calendar_palette();
    let calendar = prepare_calendar(date(2024, 2, 1), date(2024, 2, 18), 1, &colors);
    let bitmap = paint_calendar(&calendar);

    assert!(rect_contains_color(
        &bitmap,
        (241, 150, 28, 28),
        colors.today_background,
    ));
    assert!(!rect_contains_color(
        &bitmap,
        (130, 150, 28, 28),
        colors.today_background,
    ));
}

#[test]
fn transparent_card_keeps_exact_configured_alpha_at_an_unpainted_interior_pixel() {
    let colors = calendar_palette();
    let calendar = prepare_calendar(date(2024, 2, 1), date(2024, 2, 18), 1, &colors);
    let bitmap = paint_calendar(&calendar);

    assert_eq!(bitmap.pixel(144, 62)[3], colors.background[3]);
    assert_eq!(bitmap.pixel(0, 0)[3], 0);
}

#[test]
fn drawing_reuses_prepared_bitmap_and_publishes_navigation_hitboxes() {
    let calendar = prepare_calendar(date(2024, 2, 1), date(2024, 2, 18), 1, &calendar_palette());

    let (frame, hitboxes) = calendar.draw_calendar(Some(MenuSelection::Item(1)));

    assert_eq!(hitboxes.len(), 3);
    assert_eq!(hitboxes[0].selection, MenuSelection::Item(-1));
    assert!(paint_calendar(&calendar)
        .pixels
        .iter()
        .any(|channel| *channel != 0));
    let frame = frame.unwrap();
    assert!(frame.x <= 258 && 258 < frame.x + frame.width);
    assert_eq!(calendar.draw_calendar(None).0, None);
}

#[test]
fn month_shifts_undo_each_other() {
    for delta in [-100, -1, 1, 13] {
        let there = shifted_month(date(2024, 2, 1), delta);
        assert_eq!(shifted_month(there, -delta), date(2024, 2, 1));
    }
}

#[test]
fn boxes_outside_the_popup_are_dropped() {
    let hitbox = MenuHitbox {
        selection: MenuSelection::Item(0),
        enabled: true,
        x: 90,
        y: 10,
        width: 20,
        height: 20,
    };
    assert_eq!(
        clip_hitbox(hitbox, 100, 25),
        Some(MenuHitbox {
            width: 10,
            height: 15,
            ..hitbox
        })
    );
    assert_eq!(clip_hitbox(hitbox, 90, 25), None);
    let size = Size {
        width: 10,
        height: 4,
    };
    assert_eq!(centered_at(100, 50, size), (95, 48));
    let area = PixelRect {
        x: 10,
        y: 20,
        width: 100,
        height: 10,
    };
    assert_eq!(place_text(area, size, false), (10, 23));
    assert_eq!(place_text(area, size, true), (100, 23));
}

#[test]
fn traffic_units_distinguish_unknown_from_idle_and_scale_large_totals() {
    assert_eq!(rate(None), "—");
    assert_eq!(rate(Some(0)), "0 B/s");
    assert_eq!(bytes(1024), "1.0 KiB");
    assert_eq!(bytes(1572864), "1.5 MiB");
    assert_eq!(bytes(1099511627776), "1.0 TiB");
}

#[test]
fn traffic_is_rounded_to_one_decimal() {
    assert_eq!(bytes(0), "0 B");
    assert_eq!(bytes(1023), "1023 B");
    for value in [1075_u64, 1076, 1126, 1127, 10_700, 999_999, 123_456_789] {
        let mut scaled = value as f64;
        let mut unit = 0;
        while scaled >= 1024.0 {
            scaled /= 1024.0;
            unit += 1;
        }
        let name = ["B", "KiB", "MiB"][unit];
        assert_eq!(bytes(value), format!("{scaled:.1} {name}"));
    }
}

/// Draws the areas of a card.
fn paint_card(commands: &[CardCommand], width: u32, height: u32) -> Bitmap {
    let mut canvas = Bitmap::transparent(width, height);
    for command in commands {
        match command {
            CardCommand::Fill { area, color } => blend_rect(
                &mut canvas,
                area.x,
                area.y,
                area.width as u32,
                area.height as u32,
                *color,
            ),
            CardCommand::Outline { area, width, color } => {
                outline(&mut canvas, *area, *width, *color)
            }
            CardCommand::Icon {
                icon: CardIcon::Refresh,
                ..
            } => {}
            CardCommand::Icon {
                x, y, size, color, ..
            } => blend_rect(&mut canvas, *x, *y, *size, *size, *color),
            CardCommand::Text { .. } | CardCommand::Placed { .. } => {}
        }
    }
    canvas
}

fn network_texts() -> NetworkTexts {
    NetworkTexts {
        ping: "9".into(),
        address: "10.0.2.15".into(),
        gateway: "10.0.2.2".into(),
        target: "1.1.1.1".into(),
    }
}

fn texts_of(commands: &[CardCommand]) -> Vec<&str> {
    commands
        .iter()
        .filter_map(|command| match command {
            CardCommand::Text { text, .. } | CardCommand::Placed { text, .. } => {
                Some(text.as_str())
            }
            _ => None,
        })
        .collect()
}

#[test]
fn card_preserves_alpha_and_exposes_only_refresh_action() {
    let c = Config {
        network_background: "#22222280".into(),
        ..Config::default()
    };
    for scale in [1, 2, 3] {
        let mut prepared = prepare_network(
            &NetworkSnapshot::default(),
            &network_texts(),
            scale,
            &NetworkPalette::new(&c),
        );
        let (width, height) = prepared.size();
        let bitmap = paint_card(&prepared.card.commands, width, height);
        assert_eq!(bitmap.pixel(10 * scale, 100 * scale)[3], 128);
        assert_eq!(
            prepared.selection_at(360 * scale as i32, 30 * scale as i32),
            Some(MenuSelection::Item(0))
        );
        prepared.constrain(100 * scale, 100 * scale);
        assert_eq!(prepared.next_selection(), None);
    }
}

fn connected() -> PreparedNetwork {
    let c = Config::default();
    let snapshot = NetworkSnapshot {
        interface: "eth0".into(),
        kind: NetworkKind::Ethernet,
        address: Some(IpAddress::V4(0x0a00_020f)),
        gateway: Some(IpAddress::V4(0x0a00_0202)),
        rx_bytes: 34288435,
        tx_bytes: 704614,
        rx_per_second: Some(175),
        tx_per_second: Some(160),
        ping_ms: Some(56.0_f64.to_bits()),
        loss_percent: Some(0),
        probe_error: None,
    };
    let texts = NetworkTexts {
        ping: "56".into(),
        address: "10.0.2.15".into(),
        gateway: "10.0.2.2".into(),
        target: "1.1.1.1".into(),
    };
    prepare_network(&snapshot, &texts, 1, &NetworkPalette::new(&c))
}

#[test]
fn network_cards_tell_what_is_known() {
    let prepared = connected();
    let texts = texts_of(&prepared.card.commands);
    for expected in ["175 B/s", "160 B/s", "32.7 MiB", "688.1 KiB", "10.0.2.15", "0%"] {
        assert!(texts.contains(&expected), "{expected} in {texts:?}");
    }
    assert!(texts.iter().any(|text| text.contains("eth0")), "{texts:?}");
    assert!(texts.iter().any(|text| text.contains("56")), "{texts:?}");
}

#[test]
fn unknown_figures_are_dashes() {
    let prepared = prepare_network(
        &NetworkSnapshot::default(),
        &network_texts(),
        1,
        &NetworkPalette::new(&Config::default()),
    );
    let texts = texts_of(&prepared.card.commands);
    assert_eq!(texts.iter().filter(|text| **text == "—").count(), 6, "{texts:?}");
    assert!(!texts.contains(&"9 ms"), "{texts:?}");
    assert!(!texts.contains(&"10.0.2.15"), "{texts:?}");

    let mut little = report(false, Condition::Clear);
    little.feels = None;
    little.humidity = None;
    little.days[1].low = None;
    let mut state = state(Some(little), None);
    state.updated_at = Some(1_800_000_000);
    let weather = prepare_weather(
        &state,
        &weather_texts(3),
        WeatherUnits::Imperial,
        40,
        1,
        &weather_palette(),
    );
    let texts = texts_of(&weather.card.commands);
    assert_eq!(texts.iter().filter(|text| **text == "—").count(), 3, "{texts:?}");
    assert!(texts.contains(&"4 mph"), "{texts:?}");
    assert!(texts.contains(&"11°"), "{texts:?}");
    assert!(texts.contains(&"Open-Meteo · updated 12:30"), "{texts:?}");
}

#[test]
fn long_addresses_get_a_row_of_their_own() {
    let texts = NetworkTexts {
        address: "2001:db8:1234:5678:9abc:def0:1234:5678".into(),
        ..network_texts()
    };
    let snapshot = NetworkSnapshot {
        address: Some(IpAddress::V6(0x2001_0db8_1234_5678_9abc_def0_1234_5678)),
        ..NetworkSnapshot::default()
    };
    let prepared = prepare_network(
        &snapshot,
        &texts,
        2,
        &NetworkPalette::new(&Config::default()),
    );
    assert_eq!(prepared.size(), (800, 430));
}

fn weather_palette() -> WeatherPalette {
    WeatherPalette {
        background: [24, 28, 36, 173],
        foreground: [232, 238, 245, 255],
        muted: [139, 153, 170, 255],
        accent: [116, 190, 255, 255],
        border: [75, 91, 112, 255],
    }
}

fn report(night: bool, condition: Condition) -> WeatherReport {
    WeatherReport {
        location: "Helsinki".into(),
        temperature: 9.0_f64.to_bits(),
        feels: Some(7.0_f64.to_bits()),
        wind: Some(4.0_f64.to_bits()),
        humidity: Some(77.0_f64.to_bits()),
        condition,
        night,
        days: (1..=3)
            .map(|day| WeatherDay {
                date: date(2026, 9, 15 + day),
                high: Some((10.0 + f64::from(day)).to_bits()),
                low: Some((5.0 + f64::from(day)).to_bits()),
                condition: Condition::Rain,
            })
            .collect(),
    }
}

fn weather_texts(days: usize) -> WeatherTexts {
    WeatherTexts {
        temperature: "9".into(),
        feels: "7".into(),
        wind: "4".into(),
        humidity: "77".into(),
        days: (0..days)
            .map(|_| DayTexts {
                high: "11".into(),
                low: "6".into(),
            })
            .collect(),
        updated: "12:30".into(),
    }
}

fn state(report: Option<WeatherReport>, error: Option<&str>) -> WeatherState {
    WeatherState {
        report,
        error: error.map(str::to_owned),
        updated_at: None,
    }
}

#[test]
fn prepared_weather_scales_to_popup_size_and_preserves_background_alpha() {
    for scale in [1, 2, 3] {
        let weather = prepare_weather(
            &state(Some(report(false, Condition::Rain)), None),
            &weather_texts(3),
            WeatherUnits::Metric,
            40 * scale as i32,
            scale,
            &weather_palette(),
        );
        assert_eq!(weather.size(), (480 * scale, 202 * scale));
        assert_eq!(weather.card.scale, scale);
        let bitmap = paint_card(&weather.card.commands, 480 * scale, 202 * scale);
        assert_eq!(bitmap.pixel(0, 0)[3], 0);
        assert_eq!(
            bitmap.pixel(10 * scale, 115 * scale)[3],
            weather_palette().background[3]
        );
    }
}

#[test]
fn constrain_refresh_hitbox_is_clipped_to_popup_viewport() {
    let mut weather = prepare_weather(
        &state(Some(report(false, Condition::Clear)), None),
        &weather_texts(3),
        WeatherUnits::Metric,
        40,
        1,
        &weather_palette(),
    );
    weather.constrain(450, 30);
    assert_eq!(
        weather.card.refresh,
        MenuHitbox {
            selection: MenuSelection::Item(0),
            enabled: true,
            x: 442,
            y: 14,
            width: 24,
            height: 24,
        }
    );
    assert_eq!(weather.selection_at(449, 29), Some(MenuSelection::Item(0)));
    assert_eq!(weather.selection_at(450, 29), None);
    assert_eq!(weather.selection_at(449, 30), None);
    weather.constrain(100, 100);
    assert_eq!(weather.next_selection(), None);
}

#[test]
fn loading_error_and_no_data_states_render_without_panic() {
    for (state, days) in [
        (state(None, None), 0),
        (state(None, Some("Weather unavailable")), 0),
        (state(Some(report(true, Condition::Cloudy)), None), 3),
    ] {
        let weather = prepare_weather(
            &state,
            &weather_texts(days),
            WeatherUnits::Metric,
            40,
            1,
            &weather_palette(),
        );
        let (width, height) = weather.size();
        let canvas = paint_card(&weather.card.commands, width, height);
        assert!(canvas.pixels.iter().any(|alpha| *alpha != 0));
    }
}

#[test]
fn weather_cards_show_the_report_and_the_error() {
    let weather = prepare_weather(
        &state(
            Some(report(true, Condition::Cloudy)),
            Some("Weather unavailable"),
        ),
        &weather_texts(3),
        WeatherUnits::Metric,
        40,
        1,
        &weather_palette(),
    );
    let texts = texts_of(&weather.card.commands);
    assert!(texts.contains(&"HELSINKI"), "{texts:?}");
    assert!(texts.contains(&"9"), "{texts:?}");
    assert!(texts.contains(&"Open-Meteo · update failed; showing saved data"));
    assert!(weather.card.commands.iter().any(|command| matches!(
        command,
        CardCommand::Icon {
            icon: CardIcon::Weather {
                condition: Condition::Cloudy,
                night: true
            },
            ..
        }
    )));
    assert!(temperature_size("-10") <= temperature_size("9"));
}

#[test]
fn calendars_and_cards_answer_to_keys_and_clicks() {
    let calendar = PreparedPopup::Calendar(prepare_calendar(
        date(2024, 2, 1),
        date(2024, 2, 18),
        1,
        &calendar_palette(),
    ));
    let (mut popup, placement) = OpenPopup::open(None, calendar, 960, 1920, 1080, 1, 28);
    assert_eq!(placement.left, (1920 - 288) / 2);
    assert_eq!(popup.press_key(PopupKey::PageDown), PopupEffect::ShowMonth(1));
    assert_eq!(popup.press_key(PopupKey::PageUp), PopupEffect::ShowMonth(-1));
    assert_eq!(popup.press_key(PopupKey::Home), PopupEffect::ShowToday);
    assert_eq!(popup.click(BTN_LEFT, 30, 34), PopupEffect::ShowMonth(-1));
    assert_eq!(popup.click(BTN_LEFT, 144, 34), PopupEffect::ShowToday);
    assert_eq!(popup.press_key(PopupKey::Escape), PopupEffect::Close);
    assert_eq!(popup.press_key(PopupKey::Other), PopupEffect::Nothing);

    let card = PreparedPopup::Network(connected());
    let (mut popup, _) = OpenPopup::open(None, card, 1900, 1920, 1080, 1, 28);
    assert_eq!(popup.click(BTN_LEFT, 360, 30), PopupEffect::Refresh);
    popup.keyboard_entered();
    assert_eq!(popup.press_key(PopupKey::Enter), PopupEffect::Refresh);
    assert!(!popup.configure(400, 196));
    popup.rescale(2);
    assert_eq!(popup.frame.scale, 2);
}

#[test]
fn calendar_columns_are_labelled_from_monday_on() {
    let calendar = prepare_calendar(date(2024, 2, 1), date(2024, 2, 18), 1, &calendar_palette());
    let labels: Vec<&str> = calendar
        .commands
        .iter()
        .filter_map(|command| match command {
            CalendarCommand::Weekday { column, .. } => Some(weekday_label(*column)),
            _ => None,
        })
        .collect();
    assert_eq!(labels, ["Mon", "Tue", "Wed", "Thu", "Fri", "Sat", "Sun"]);
}
