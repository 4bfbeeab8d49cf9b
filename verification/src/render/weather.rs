//! The card of the weather.

use vstd::prelude::*;

use crate::config::{color_of, ColorError, Config, WeatherUnits};
use crate::date::Date;
use crate::render::bar::rect;
use crate::render::card::{
    area_of, button_at, button_of, card_area, card_views, push_command, push_text, text_step,
    Card, CardCommand, CardIcon, CardView,
};
use crate::render::layout::{at_least_one, has_colors, min_i32, smaller, LONGEST};
use crate::render::menu::{MenuHitbox, MenuSelection};
use crate::render::pixels::PixelRect;
use crate::text::{byte_length, chars_of, fits_bytes, option_view, to_uppercase, uppercase};
use crate::weather::schedule::{StateView, WeatherState};
use crate::weather::{Condition, ReportView, WeatherDay, WeatherReport};

verus! {

pub const WIDTH: u32 = 480;

pub const HEIGHT: u32 = 202;

#[derive(Clone, Copy, Debug)]
pub struct WeatherPalette {
    pub background: [u8; 4],
    pub foreground: [u8; 4],
    pub muted: [u8; 4],
    pub accent: [u8; 4],
    pub border: [u8; 4],
}

impl WeatherPalette {
    /// The colors that settings give the card.
    pub open spec fn follows(&self, config: Config) -> bool {
        &&& color_of(config.weather_background@) == Ok::<Seq<u8>, ColorError>(self.background@)
        &&& color_of(config.weather_foreground@) == Ok::<Seq<u8>, ColorError>(self.foreground@)
        &&& color_of(config.weather_muted@) == Ok::<Seq<u8>, ColorError>(self.muted@)
        &&& color_of(config.weather_accent@) == Ok::<Seq<u8>, ColorError>(self.accent@)
        &&& color_of(config.weather_border@) == Ok::<Seq<u8>, ColorError>(self.border@)
    }

    pub fn new(config: &Config) -> (result: Self)
        requires
            has_colors(*config),
        ensures
            result.follows(*config),
    {
        proof {
            assert(color_of(config.color_text(17)) is Ok);
            assert(color_of(config.color_text(18)) is Ok);
            assert(color_of(config.color_text(19)) is Ok);
            assert(color_of(config.color_text(20)) is Ok);
            assert(color_of(config.color_text(21)) is Ok);
        }
        WeatherPalette {
            background: config.color_rgba(config.weather_background.as_str()),
            foreground: config.color_rgba(config.weather_foreground.as_str()),
            muted: config.color_rgba(config.weather_muted.as_str()),
            accent: config.color_rgba(config.weather_accent.as_str()),
            border: config.color_rgba(config.weather_border.as_str()),
        }
    }
}

/// The numbers of a day as texts.
#[derive(Debug)]
pub struct DayTexts {
    pub high: String,
    pub low: String,
}

/// The numbers of a report as texts, each a whole number in the wanted units. A
/// text is shown only where the report has the number.
#[derive(Debug)]
pub struct WeatherTexts {
    pub temperature: String,
    pub feels: String,
    pub wind: String,
    pub humidity: String,
    pub days: Vec<DayTexts>,
    /// The time of day of the last report.
    pub updated: String,
}

/// The size that the temperature is written in.
pub open spec fn temperature_size_of(temperature: Seq<char>) -> u32 {
    if byte_length(temperature) > 3 {
        36
    } else {
        50
    }
}

pub fn temperature_size(temperature: &str) -> (result: u32)
    ensures
        result == temperature_size_of(temperature@),
{
    let characters = chars_of(temperature);
    if fits_bytes(characters.as_slice(), 3) {
        50
    } else {
        36
    }
}

pub open spec fn unit_of(units: WeatherUnits) -> Seq<char> {
    if units == WeatherUnits::Imperial {
        "°F"@
    } else {
        "°C"@
    }
}

/// The text of a figure with its unit, or a dash where there is no figure.
pub open spec fn with_unit(figure: Option<u64>, text: Seq<char>, unit: Seq<char>) -> Seq<char> {
    if figure is Some {
        text + unit
    } else {
        "—"@
    }
}

fn text_with_unit(figure: Option<u64>, text: &String, unit: &str) -> (result: String)
    ensures
        result@ == with_unit(figure, text@, unit@),
{
    if figure.is_some() {
        let mut shown = text.clone();
        shown.append(unit);
        shown
    } else {
        "—".to_owned()
    }
}

pub open spec fn wind_unit(units: WeatherUnits) -> Seq<char> {
    if units == WeatherUnits::Imperial {
        " mph"@
    } else {
        " km/h"@
    }
}

/// The name of a day of the week, Monday being 0.
pub open spec fn weekday_text(weekday: int) -> Seq<char> {
    if weekday == 0 {
        "MONDAY"@
    } else if weekday == 1 {
        "TUESDAY"@
    } else if weekday == 2 {
        "WEDNESDAY"@
    } else if weekday == 3 {
        "THURSDAY"@
    } else if weekday == 4 {
        "FRIDAY"@
    } else if weekday == 5 {
        "SATURDAY"@
    } else {
        "SUNDAY"@
    }
}

fn weekday_name(date: Date) -> (result: String)
    requires
        date.wf(),
    ensures
        result@ == weekday_text(date.weekday()),
{
    match date.days_from_monday() {
        0 => "MONDAY".to_owned(),
        1 => "TUESDAY".to_owned(),
        2 => "WEDNESDAY".to_owned(),
        3 => "THURSDAY".to_owned(),
        4 => "FRIDAY".to_owned(),
        5 => "SATURDAY".to_owned(),
        _ => "SUNDAY".to_owned(),
    }
}

/// An icon of the weather at a place in the card's own units.
pub open spec fn icon_step(
    condition: Condition,
    night: bool,
    x: int,
    y: int,
    size: int,
    s: int,
    color: [u8; 4],
) -> CardView {
    CardView::Icon {
        icon: CardIcon::Weather { condition, night },
        x: (x * s) as i32,
        y: (y * s) as i32,
        size: (size * s) as u32,
        color,
    }
}

fn push_icon(
    commands: &mut Vec<CardCommand>,
    icon: (Condition, bool),
    x: i32,
    y: i32,
    size: i32,
    s: i32,
    color: [u8; 4],
)
    requires
        0 <= x <= 480,
        0 <= y <= 480,
        0 <= size <= 480,
        1 <= s <= 0x1_0000,
    ensures
        card_views(final(commands)@) == card_views(old(commands)@).push(
            icon_step(icon.0, icon.1, x as int, y as int, size as int, s as int, color),
        ),
{
    assert(0 <= x * s <= 0x1e0_0000 && 0 <= y * s <= 0x1e0_0000 && 0 <= size * s <= 0x1e0_0000)
        by (nonlinear_arith)
        requires
            0 <= x <= 480,
            0 <= y <= 480,
            0 <= size <= 480,
            1 <= s <= 0x1_0000,
    ;
    push_command(
        commands,
        CardCommand::Icon {
            icon: CardIcon::Weather { condition: icon.0, night: icon.1 },
            x: x * s,
            y: y * s,
            size: (size * s) as u32,
            color,
        },
    );
}

/// The frame and the button.
pub open spec fn frame_steps(s: int, palette: &WeatherPalette) -> Seq<CardView> {
    seq![
        CardView::Fill { area: area_of(6, 6, 468, 190, s), color: palette.background },
        CardView::Outline {
            area: area_of(6, 6, 468, 190, s),
            width: s as i32,
            color: palette.border,
        },
        CardView::Icon {
            icon: CardIcon::Refresh,
            x: 0,
            y: 0,
            size: s as u32,
            color: palette.muted,
        },
    ]
}

/// The weather now: an icon, the temperature, its unit and the location.
pub open spec fn now_steps(
    report: ReportView,
    temperature: Seq<char>,
    units: WeatherUnits,
    width: int,
    s: int,
    palette: &WeatherPalette,
) -> Seq<CardView> {
    seq![
        icon_step(report.condition, report.night, 27, 33, 76, s, palette.foreground),
        CardView::Placed {
            text: temperature,
            x: (112 * s) as i32,
            y: (35 * s) as i32,
            area: area_of(112, 28, 132, 82, s),
            size: temperature_size_of(temperature),
            color: palette.foreground,
        },
        text_step(
            unit_of(units),
            rect(smaller(112 * s + width + 3 * s, 218 * s), 37 * s, 30 * s, 28 * s),
            18,
            palette.foreground,
            false,
        ),
        text_step(
            uppercase(report.location),
            area_of(250, 28, 186, 20, s),
            11,
            palette.muted,
            false,
        ),
    ]
}

/// A figure under its label.
pub open spec fn figure_steps(
    x: int,
    label: Seq<char>,
    value: Seq<char>,
    s: int,
    palette: &WeatherPalette,
) -> Seq<CardView> {
    seq![
        text_step(label, area_of(x, 60, 70, 17, s), 10, palette.muted, false),
        text_step(value, area_of(x, 81, 70, 20, s), 12, palette.foreground, false),
    ]
}

/// A day of the forecast.
pub open spec fn day_steps(
    index: int,
    day: WeatherDay,
    high: Seq<char>,
    low: Seq<char>,
    s: int,
    palette: &WeatherPalette,
) -> Seq<CardView> {
    let x = 31 + index * 147;
    seq![
        icon_step(day.condition, false, x, 138, 28, s, palette.foreground),
        text_step(
            weekday_text(day.date.weekday()),
            area_of(x + 35, 134, 107, 18, s),
            9,
            palette.muted,
            false,
        ),
        text_step(
            with_unit(day.high, high, "°"@),
            area_of(x + 35, 152, 42, 19, s),
            12,
            palette.accent,
            false,
        ),
        text_step(
            with_unit(day.low, low, "°"@),
            area_of(x + 79, 152, 52, 19, s),
            12,
            palette.foreground,
            false,
        ),
    ]
}

/// The first `count` days of the forecast.
pub open spec fn days_steps(
    days: Seq<WeatherDay>,
    texts: Seq<DayTexts>,
    count: int,
    s: int,
    palette: &WeatherPalette,
) -> Seq<CardView>
    decreases count,
{
    if count <= 0 {
        Seq::empty()
    } else {
        days_steps(days, texts, count - 1, s, palette) + day_steps(
            count - 1,
            days[count - 1],
            texts[count - 1].high@,
            texts[count - 1].low@,
            s,
            palette,
        )
    }
}

/// The forecast of up to three days.
pub open spec fn forecast_steps(
    days: Seq<WeatherDay>,
    texts: Seq<DayTexts>,
    s: int,
    palette: &WeatherPalette,
) -> Seq<CardView> {
    if days.len() == 0 {
        seq![
            text_step(
                "Forecast unavailable"@,
                area_of(22, 138, 436, 27, s),
                12,
                palette.muted,
                false,
            ),
        ]
    } else {
        days_steps(days, texts, smaller(days.len() as int, 3), s, palette)
    }
}

/// What is shown of a report.
pub open spec fn report_steps(
    report: ReportView,
    texts: WeatherTexts,
    units: WeatherUnits,
    width: int,
    s: int,
    palette: &WeatherPalette,
) -> Seq<CardView> {
    now_steps(report, texts.temperature@, units, width, s, palette) + figure_steps(
        250,
        "FEELS"@,
        with_unit(report.feels, texts.feels@, unit_of(units)),
        s,
        palette,
    ) + figure_steps(
        322,
        "WIND"@,
        with_unit(report.wind, texts.wind@, wind_unit(units)),
        s,
        palette,
    ) + figure_steps(400, "HUMID"@, with_unit(report.humidity, texts.humidity@, "%"@), s, palette) + seq![
        CardView::Fill { area: area_of(22, 120, 436, 1, s), color: palette.border },
    ] + forecast_steps(report.days, texts.days@, s, palette)
}

/// What is shown while there is no report.
pub open spec fn empty_steps(
    error: Option<Seq<char>>,
    s: int,
    palette: &WeatherPalette,
) -> Seq<CardView> {
    seq![
        icon_step(Condition::Unknown, false, 30, 44, 60, s, palette.muted),
        text_step(
            if error is Some {
                "Weather unavailable"@
            } else {
                "Loading weather…"@
            },
            area_of(115, 48, 310, 28, s),
            18,
            palette.foreground,
            false,
        ),
        text_step(
            match error {
                Some(error) => error,
                None => "Finding location and fetching forecast"@,
            },
            area_of(115, 83, 310, 32, s),
            10,
            palette.muted,
            false,
        ),
    ]
}

/// The line at the bottom.
pub open spec fn footer_text(state: StateView, updated: Seq<char>) -> Seq<char> {
    if state.error is Some && state.report is Some {
        "Open-Meteo · update failed; showing saved data"@
    } else if state.updated_at is Some {
        "Open-Meteo · updated "@ + updated
    } else {
        "Open-Meteo"@
    }
}

/// The drawing of the card.
pub open spec fn weather_steps(
    state: StateView,
    texts: WeatherTexts,
    units: WeatherUnits,
    width: int,
    s: int,
    palette: &WeatherPalette,
) -> Seq<CardView> {
    frame_steps(s, palette) + (match state.report {
        Some(report) => report_steps(report, texts, units, width, s, palette),
        None => empty_steps(state.error, s, palette),
    }) + seq![
        text_step(
            footer_text(state, texts.updated@),
            area_of(22, 178, 436, 14, s),
            9,
            if state.error is Some {
                palette.accent
            } else {
                palette.muted
            },
            false,
        ),
    ]
}

fn push_frame(commands: &mut Vec<CardCommand>, s: i32, palette: &WeatherPalette)
    requires
        1 <= s <= 0x1_0000,
    ensures
        card_views(final(commands)@) == card_views(old(commands)@) + frame_steps(
            s as int,
            palette,
        ),
{
    let frame = card_area(6, 6, 468, 190, s);
    push_command(commands, CardCommand::Fill { area: frame, color: palette.background });
    push_command(commands, CardCommand::Outline { area: frame, width: s, color: palette.border });
    push_command(
        commands,
        CardCommand::Icon {
            icon: CardIcon::Refresh,
            x: 0,
            y: 0,
            size: s as u32,
            color: palette.muted,
        },
    );
    assert(card_views(commands@) =~= card_views(old(commands)@) + frame_steps(s as int, palette));
}

fn push_now(
    commands: &mut Vec<CardCommand>,
    report: &WeatherReport,
    temperature: &String,
    units: WeatherUnits,
    width: i32,
    s: i32,
    palette: &WeatherPalette,
)
    requires
        1 <= s <= 0x1_0000,
        0 <= width <= LONGEST,
    ensures
        card_views(final(commands)@) == card_views(old(commands)@) + now_steps(
            report@,
            temperature@,
            units,
            width as int,
            s as int,
            palette,
        ),
{
    push_icon(commands, (report.condition, report.night), 27, 33, 76, s, palette.foreground);
    push_command(
        commands,
        CardCommand::Placed {
            text: temperature.clone(),
            x: 112 * s,
            y: 35 * s,
            area: card_area(112, 28, 132, 82, s),
            size: temperature_size(temperature.as_str()),
            color: palette.foreground,
        },
    );
    let unit = if units == WeatherUnits::Imperial {
        "°F".to_owned()
    } else {
        "°C".to_owned()
    };
    let unit_x: i32 = min_i32(112 * s + width + 3 * s, 218 * s);
    push_text(
        commands,
        unit,
        PixelRect { x: unit_x, y: 37 * s, width: 30 * s, height: 28 * s },
        18,
        palette.foreground,
        false,
    );
    push_text(
        commands,
        to_uppercase(report.location.as_str()),
        card_area(250, 28, 186, 20, s),
        11,
        palette.muted,
        false,
    );
    assert(card_views(commands@) =~= card_views(old(commands)@) + now_steps(
        report@,
        temperature@,
        units,
        width as int,
        s as int,
        palette,
    ));
}

fn push_figure(
    commands: &mut Vec<CardCommand>,
    x: i32,
    label: &str,
    value: String,
    s: i32,
    palette: &WeatherPalette,
)
    requires
        0 <= x <= 480,
        1 <= s <= 0x1_0000,
    ensures
        card_views(final(commands)@) == card_views(old(commands)@) + figure_steps(
            x as int,
            label@,
            value@,
            s as int,
            palette,
        ),
{
    push_text(commands, label.to_owned(), card_area(x, 60, 70, 17, s), 10, palette.muted, false);
    push_text(commands, value, card_area(x, 81, 70, 20, s), 12, palette.foreground, false);
    assert(card_views(commands@) =~= card_views(old(commands)@) + figure_steps(
        x as int,
        label@,
        value@,
        s as int,
        palette,
    ));
}

fn push_day(
    commands: &mut Vec<CardCommand>,
    index: i32,
    day: WeatherDay,
    texts: &DayTexts,
    s: i32,
    palette: &WeatherPalette,
)
    requires
        0 <= index < 3,
        1 <= s <= 0x1_0000,
        day.date.wf(),
    ensures
        card_views(final(commands)@) == card_views(old(commands)@) + day_steps(
            index as int,
            day,
            texts.high@,
            texts.low@,
            s as int,
            palette,
        ),
{
    let x: i32 = 31 + index * 147;
    push_icon(commands, (day.condition, false), x, 138, 28, s, palette.foreground);
    push_text(
        commands,
        weekday_name(day.date),
        card_area(x + 35, 134, 107, 18, s),
        9,
        palette.muted,
        false,
    );
    push_text(
        commands,
        text_with_unit(day.high, &texts.high, "°"),
        card_area(x + 35, 152, 42, 19, s),
        12,
        palette.accent,
        false,
    );
    push_text(
        commands,
        text_with_unit(day.low, &texts.low, "°"),
        card_area(x + 79, 152, 52, 19, s),
        12,
        palette.foreground,
        false,
    );
    assert(card_views(commands@) =~= card_views(old(commands)@) + day_steps(
        index as int,
        day,
        texts.high@,
        texts.low@,
        s as int,
        palette,
    ));
}

fn push_forecast(
    commands: &mut Vec<CardCommand>,
    days: &Vec<WeatherDay>,
    texts: &Vec<DayTexts>,
    s: i32,
    palette: &WeatherPalette,
)
    requires
        1 <= s <= 0x1_0000,
        texts@.len() == days@.len(),
        forall|i: int| 0 <= i < days@.len() ==> (#[trigger] days@[i]).date.wf(),
    ensures
        card_views(final(commands)@) == card_views(old(commands)@) + forecast_steps(
            days@,
            texts@,
            s as int,
            palette,
        ),
{
    if days.len() == 0 {
        push_text(
            commands,
            "Forecast unavailable".to_owned(),
            card_area(22, 138, 436, 27, s),
            12,
            palette.muted,
            false,
        );
        assert(card_views(commands@) =~= card_views(old(commands)@) + forecast_steps(
            days@,
            texts@,
            s as int,
            palette,
        ));
        return;
    }
    let mut i: usize = 0;
    assert(card_views(commands@) =~= card_views(old(commands)@) + Seq::<CardView>::empty());
    while i < days.len() && i < 3
        invariant
            i <= days@.len(),
            i <= 3,
            1 <= s <= 0x1_0000,
            texts@.len() == days@.len(),
            forall|k: int| 0 <= k < days@.len() ==> (#[trigger] days@[k]).date.wf(),
            card_views(commands@) == card_views(old(commands)@) + days_steps(
                days@,
                texts@,
                i as int,
                s as int,
                palette,
            ),
        decreases days@.len() - i,
    {
        assert(days@[i as int].date.wf());
        push_day(commands, i as i32, days[i], &texts[i], s, palette);
        assert(card_views(commands@) =~= card_views(old(commands)@) + days_steps(
            days@,
            texts@,
            i + 1,
            s as int,
            palette,
        ));
        i += 1;
    }
}

fn push_report(
    commands: &mut Vec<CardCommand>,
    report: &WeatherReport,
    texts: &WeatherTexts,
    units: WeatherUnits,
    width: i32,
    s: i32,
    palette: &WeatherPalette,
)
    requires
        1 <= s <= 0x1_0000,
        0 <= width <= LONGEST,
        report.wf(),
        texts.days@.len() == report.days@.len(),
    ensures
        card_views(final(commands)@) == card_views(old(commands)@) + report_steps(
            report@,
            *texts,
            units,
            width as int,
            s as int,
            palette,
        ),
{
    push_now(commands, report, &texts.temperature, units, width, s, palette);
    let (degrees, speed) = if units == WeatherUnits::Imperial {
        ("°F", " mph")
    } else {
        ("°C", " km/h")
    };
    push_figure(commands, 250, "FEELS", text_with_unit(report.feels, &texts.feels, degrees), s, palette);
    push_figure(commands, 322, "WIND", text_with_unit(report.wind, &texts.wind, speed), s, palette);
    push_figure(commands, 400, "HUMID", text_with_unit(report.humidity, &texts.humidity, "%"), s, palette);
    let ghost before = card_views(commands@);
    push_command(
        commands,
        CardCommand::Fill { area: card_area(22, 120, 436, 1, s), color: palette.border },
    );
    assert(card_views(commands@) =~= before + seq![
        CardView::Fill { area: area_of(22, 120, 436, 1, s as int), color: palette.border },
    ]);
    push_forecast(commands, &report.days, &texts.days, s, palette);
    assert(card_views(commands@) =~= card_views(old(commands)@) + report_steps(
        report@,
        *texts,
        units,
        width as int,
        s as int,
        palette,
    ));
}

fn push_empty(
    commands: &mut Vec<CardCommand>,
    error: &Option<String>,
    s: i32,
    palette: &WeatherPalette,
)
    requires
        1 <= s <= 0x1_0000,
    ensures
        card_views(final(commands)@) == card_views(old(commands)@) + empty_steps(
            option_view(*error),
            s as int,
            palette,
        ),
{
    push_icon(commands, (Condition::Unknown, false), 30, 44, 60, s, palette.muted);
    let (title, detail) = match error {
        Some(error) => ("Weather unavailable".to_owned(), error.clone()),
        None => (
            "Loading weather…".to_owned(),
            "Finding location and fetching forecast".to_owned(),
        ),
    };
    push_text(commands, title, card_area(115, 48, 310, 28, s), 18, palette.foreground, false);
    push_text(commands, detail, card_area(115, 83, 310, 32, s), 10, palette.muted, false);
    assert(card_views(commands@) =~= card_views(old(commands)@) + empty_steps(
        option_view(*error),
        s as int,
        palette,
    ));
}

fn footer_of(state: &WeatherState, updated: &str) -> (result: String)
    ensures
        result@ == footer_text(state@, updated@),
{
    if state.error.is_some() && state.report.is_some() {
        return "Open-Meteo · update failed; showing saved data".to_owned();
    }
    let mut text = "Open-Meteo".to_owned();
    if state.updated_at.is_some() {
        text = "Open-Meteo · updated ".to_owned();
        text.append(updated);
    }
    text
}

/// The card of the weather.
#[derive(Debug)]
pub struct PreparedWeather {
    pub card: Card,
}

impl PreparedWeather {
    pub open spec fn wf(&self) -> bool {
        self.card.wf()
    }

    pub fn size(&self) -> (result: (u32, u32))
        ensures
            result == (self.card.width, self.card.height),
    {
        self.card.size()
    }

    /// Gives the card the room that there is for it; the rest is cut off.
    pub fn constrain(&mut self, width: u32, height: u32)
        requires
            old(self).wf(),
        ensures
            final(self).wf(),
            final(self).card.constrained_from(&old(self).card, width, height),
    {
        self.card.constrain(width, height);
    }

    pub fn selection_at(&self, x: i32, y: i32) -> (result: Option<MenuSelection>)
        requires
            self.wf(),
        ensures
            result == self.card.selected_at(x as int, y as int),
    {
        self.card.selection_at(x, y)
    }

    pub fn next_selection(&self) -> (result: Option<MenuSelection>)
        requires
            self.wf(),
        ensures
            result == self.card.only_selection(),
    {
        self.card.next_selection()
    }

    /// The visible buttons, and the frame around the selected one, to be drawn
    /// over the card.
    pub fn draw_weather(&self, selected: Option<MenuSelection>) -> (result: (
        Vec<MenuHitbox>,
        Option<PixelRect>,
    ))
        requires
            self.wf(),
        ensures
            result.0@ == self.card.visible_buttons(),
            result.1 == self.card.frame_of(selected),
    {
        self.card.draw(selected)
    }
}

/// Lays out the card of the weather. `width` is that of the temperature's text.
pub fn prepare_weather(
    state: &WeatherState,
    texts: &WeatherTexts,
    units: WeatherUnits,
    width: i32,
    scale: u32,
    palette: &WeatherPalette,
) -> (result: PreparedWeather)
    requires
        scale <= 0x1_0000,
        0 <= width <= LONGEST,
        state.report matches Some(report) ==> report.wf() && texts.days@.len()
            == report.days@.len(),
    ensures
        result.wf(),
        result.card.scale == at_least_one(scale),
        result.card.accent == palette.accent,
        result.card.width == 480 * result.card.scale,
        result.card.height == 202 * result.card.scale,
        result.card.natural_size == (result.card.width, result.card.height),
        result.card.refresh == button_of(area_of(442, 14, 24, 24, result.card.scale as int)),
        card_views(result.card.commands@) == weather_steps(
            state@,
            *texts,
            units,
            width as int,
            result.card.scale as int,
            palette,
        ),
{
    let scale: u32 = if scale >= 1 {
        scale
    } else {
        1
    };
    let s: i32 = scale as i32;
    let mut commands: Vec<CardCommand> = Vec::new();
    assert(card_views(commands@) =~= Seq::<CardView>::empty());
    push_frame(&mut commands, s, palette);
    match &state.report {
        Some(report) => {
            push_report(&mut commands, report, texts, units, width, s, palette);
        },
        None => {
            push_empty(&mut commands, &state.error, s, palette);
        },
    }
    let color = if state.error.is_some() {
        palette.accent
    } else {
        palette.muted
    };
    push_text(
        &mut commands,
        footer_of(state, texts.updated.as_str()),
        card_area(22, 178, 436, 14, s),
        9,
        color,
        false,
    );
    assert(card_views(commands@) =~= weather_steps(
        state@,
        *texts,
        units,
        width as int,
        s as int,
        palette,
    ));
    PreparedWeather {
        card: Card {
            width: WIDTH * scale,
            height: HEIGHT * scale,
            natural_size: (WIDTH * scale, HEIGHT * scale),
            scale,
            refresh: button_at(card_area(442, 14, 24, 24, s)),
            accent: palette.accent,
            commands,
        },
    }
}

/// A report that a later request failed to renew stays on the card, with a note.
pub proof fn law_saved_reports_stay_visible(
    state: StateView,
    texts: WeatherTexts,
    units: WeatherUnits,
    width: int,
    s: int,
    palette: &WeatherPalette,
)
    requires
        state.report is Some,
        state.error is Some,
    ensures
        weather_steps(state, texts, units, width, s, palette) == frame_steps(s, palette)
            + report_steps(state.report->0, texts, units, width, s, palette) + seq![
            text_step(
                "Open-Meteo · update failed; showing saved data"@,
                area_of(22, 178, 436, 14, s),
                9,
                palette.accent,
                false,
            ),
        ],
{
}

} // verus!
