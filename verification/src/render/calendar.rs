//! The month calendar that the clock opens.

use vstd::prelude::*;
use chrono::NaiveDate;

use crate::config::{color_of, ColorError, Config};
use crate::date::{first_date, last_date, Date, FIRST_YEAR, LAST_YEAR};
use crate::render::bar::{rect, Size};
use crate::render::layout::{at_least_one, has_colors, larger, smaller, LONGEST};
use crate::render::menu::{clamped, step_among, step_in, MenuHitbox, MenuSelection};
use crate::render::pixels::PixelRect;
use crate::text::decimal;

verus! {

pub const WIDTH: u32 = 288;

pub const HEIGHT: u32 = 280;

#[derive(Clone, Copy, Debug)]
pub struct CalendarPalette {
    pub background: [u8; 4],
    pub foreground: [u8; 4],
    pub header: [u8; 4],
    pub weekday: [u8; 4],
    pub weekend: [u8; 4],
    pub muted: [u8; 4],
    pub today_background: [u8; 4],
    pub today_foreground: [u8; 4],
    pub border: [u8; 4],
}

impl CalendarPalette {
    /// The colors that settings give the calendar.
    pub open spec fn follows(&self, config: Config) -> bool {
        &&& color_of(config.calendar_background@) == Ok::<Seq<u8>, ColorError>(
            self.background@,
        )
        &&& color_of(config.calendar_foreground@) == Ok::<Seq<u8>, ColorError>(
            self.foreground@,
        )
        &&& color_of(config.calendar_header@) == Ok::<Seq<u8>, ColorError>(
            self.header@,
        )
        &&& color_of(config.calendar_weekday@) == Ok::<Seq<u8>, ColorError>(
            self.weekday@,
        )
        &&& color_of(config.calendar_weekend@) == Ok::<Seq<u8>, ColorError>(
            self.weekend@,
        )
        &&& color_of(config.calendar_muted@) == Ok::<Seq<u8>, ColorError>(
            self.muted@,
        )
        &&& color_of(config.calendar_today_background@) == Ok::<Seq<u8>, ColorError>(
            self.today_background@,
        )
        &&& color_of(config.calendar_today_foreground@) == Ok::<Seq<u8>, ColorError>(
            self.today_foreground@,
        )
        &&& color_of(config.calendar_border@) == Ok::<Seq<u8>, ColorError>(
            self.border@,
        )
    }

    pub fn new(config: &Config) -> (result: Self)
        requires
            has_colors(*config),
        ensures
            result.follows(*config),
    {
        proof {
            assert(color_of(config.color_text(8)) is Ok);
            assert(color_of(config.color_text(9)) is Ok);
            assert(color_of(config.color_text(10)) is Ok);
            assert(color_of(config.color_text(11)) is Ok);
            assert(color_of(config.color_text(12)) is Ok);
            assert(color_of(config.color_text(13)) is Ok);
            assert(color_of(config.color_text(14)) is Ok);
            assert(color_of(config.color_text(15)) is Ok);
            assert(color_of(config.color_text(16)) is Ok);
        }
        CalendarPalette {
            background: config.color_rgba(config.calendar_background.as_str()),
            foreground: config.color_rgba(config.calendar_foreground.as_str()),
            header: config.color_rgba(config.calendar_header.as_str()),
            weekday: config.color_rgba(config.calendar_weekday.as_str()),
            weekend: config.color_rgba(config.calendar_weekend.as_str()),
            muted: config.color_rgba(config.calendar_muted.as_str()),
            today_background: config.color_rgba(config.calendar_today_background.as_str()),
            today_foreground: config.color_rgba(config.calendar_today_foreground.as_str()),
            border: config.color_rgba(config.calendar_border.as_str()),
        }
    }
}

/// One step of drawing a calendar.
#[derive(Clone, Copy, Debug)]
pub enum CalendarCommand {
    Rounded { area: PixelRect, radius: i32, color: [u8; 4] },
    Outline { area: PixelRect, radius: i32, width: i32, color: [u8; 4] },
    Chevron { x: i32, y: i32, backwards: bool, color: [u8; 4] },
    /// The name of the month, centered at a place.
    Heading { x: i32, y: i32, color: [u8; 4] },
    /// The short name of a day of the week, Monday being 0.
    Weekday { column: usize, x: i32, y: i32, color: [u8; 4] },
    /// The number of a day.
    Day { day: u32, x: i32, y: i32, color: [u8; 4] },
}

/// The number of a month, counted through the years.
pub open spec fn month_index(year: int, month: int) -> int {
    year * 12 + month - 1
}

/// The month `delta` months later, as far as dates reach.
pub open spec fn month_after(date: Date, delta: int) -> int {
    clamped(
        month_index(date.year as int, date.month as int) + delta,
        month_index(FIRST_YEAR as int, 1),
        month_index(LAST_YEAR as int, 12),
    )
}

/// The first day of the month `delta` months later.
pub fn shifted_month(month: Date, delta: i32) -> (result: Date)
    requires
        month.wf(),
    ensures
        result.wf(),
        result.day == 1,
        month_index(result.year as int, result.month as int) == month_after(month, delta as int),
{
    let index: i64 = month.year as i64 * 12 + month.month as i64 - 1;
    let least: i64 = FIRST_YEAR as i64 * 12;
    let most: i64 = LAST_YEAR as i64 * 12 + 11;
    let wanted: i64 = index + delta as i64;
    let target: i64 = if wanted < least {
        least
    } else if wanted > most {
        most
    } else {
        wanted
    };
    // Counted from the first month, so that the division rounds down.
    let months: i64 = target - least;
    let year: i32 = (FIRST_YEAR as i64 + months / 12) as i32;
    let number: u32 = (months % 12) as u32 + 1;
    Date { year, month: number, day: 1 }
}

/// Going forth and back by as many months returns to the month, unless the
/// range of dates ends before.
pub proof fn law_month_shifts_undo_each_other(start: Date, there: Date, back: Date, delta: int)
    requires
        start.wf(),
        there.wf(),
        back.wf(),
        month_index(FIRST_YEAR as int, 1) <= month_index(start.year as int, start.month as int)
            + delta <= month_index(LAST_YEAR as int, 12),
        month_index(there.year as int, there.month as int) == month_after(start, delta),
        month_index(back.year as int, back.month as int) == month_after(there, -delta),
    ensures
        back.year == start.year,
        back.month == start.month,
{
}

/// The number of the day that the first cell of a month's grid stands for: the
/// last Monday up to the first of the month.
pub open spec fn grid_start(month: Date) -> int {
    month.first().number() - month.first().weekday()
}

/// Whether a cell holds the day with a number, or nothing where no date has it.
pub open spec fn cell_holds(cell: Option<Date>, number: int) -> bool {
    match cell {
        Some(date) => date.wf() && date.number() == number,
        None => number < first_date().number() || number > last_date().number(),
    }
}

/// The six weeks of a month's grid, Monday first.
pub fn month_grid(month: Date) -> (result: Vec<Option<Date>>)
    requires
        month.wf(),
    ensures
        result@.len() == 42,
        forall|i: int|
            0 <= i < 42 ==> cell_holds(#[trigger] result@[i], grid_start(month) + i),
{
    let first = Date { year: month.year, month: month.month, day: 1 };
    let leading: i64 = first.days_from_monday() as i64;
    let mut grid: Vec<Option<Date>> = Vec::new();
    let mut i: usize = 0;
    while i < 42
        invariant
            i <= 42,
            first == month.first(),
            first.wf(),
            leading == first.weekday(),
            0 <= leading < 7,
            grid@.len() == i,
            forall|k: int|
                0 <= k < i ==> cell_holds(#[trigger] grid@[k], grid_start(month) + k),
        decreases 42 - i,
    {
        grid.push(first.plus(i as i64 - leading));
        i += 1;
    }
    grid
}

/// Each column of the grid holds one day of the week, Monday first, and the
/// first of the month is in the first row.
pub proof fn law_grid_columns_are_weekdays(month: Date, date: Date, cell: int)
    requires
        month.wf(),
        0 <= cell < 42,
        date.number() == grid_start(month) + cell,
    ensures
        date.weekday() == cell % 7,
        0 <= month.first().number() - grid_start(month) < 7,
{
    let start = grid_start(month);
    let first = month.first().number();
    assert((first + 5) % 7 == month.first().weekday());
    assert((start + 5) % 7 == 0);
    assert((start + cell + 5) % 7 == cell % 7);
}

/// Every day of the month has a cell of its own.
pub proof fn law_grid_holds_the_whole_month(month: Date, day: u32)
    requires
        month.wf(),
        1 <= day <= crate::date::days_in_month(month.year as int, month.month as int),
    ensures
        0 <= (Date { year: month.year, month: month.month, day }).number() - grid_start(month) < 42,
{
}

/// The label of a column of the grid; weeks begin on Monday.
pub open spec fn column_label(column: int) -> Seq<char> {
    if column == 0 {
        "Mon"@
    } else if column == 1 {
        "Tue"@
    } else if column == 2 {
        "Wed"@
    } else if column == 3 {
        "Thu"@
    } else if column == 4 {
        "Fri"@
    } else if column == 5 {
        "Sat"@
    } else {
        "Sun"@
    }
}

pub fn weekday_label(column: usize) -> (result: &'static str)
    ensures
        result@ == column_label(column as int),
{
    match column {
        0 => "Mon",
        1 => "Tue",
        2 => "Wed",
        3 => "Thu",
        4 => "Fri",
        5 => "Sat",
        _ => "Sun",
    }
}

/// The English name of a month.
pub open spec fn month_name(month: u32) -> Seq<char> {
    if month == 1 {
        "January"@
    } else if month == 2 {
        "February"@
    } else if month == 3 {
        "March"@
    } else if month == 4 {
        "April"@
    } else if month == 5 {
        "May"@
    } else if month == 6 {
        "June"@
    } else if month == 7 {
        "July"@
    } else if month == 8 {
        "August"@
    } else if month == 9 {
        "September"@
    } else if month == 10 {
        "October"@
    } else if month == 11 {
        "November"@
    } else {
        "December"@
    }
}

/// A year in at least four digits, with a sign unless it is one from 0 to 9999.
pub open spec fn year_text(year: int) -> Seq<char> {
    let digits = decimal(
        (if year < 0 {
            -year
        } else {
            year
        }) as nat,
    );
    let sign = if year < 0 {
        seq!['-']
    } else if year > 9999 {
        seq!['+']
    } else {
        Seq::empty()
    };
    let zeros = Seq::new(larger(4 - digits.len(), 0) as nat, |i: int| '0');
    sign + zeros + digits
}

/// The heading of a month: its name and its year.
pub open spec fn heading_of(year: i32, month: u32) -> Seq<char> {
    month_name(month) + seq![' '] + year_text(year as int)
}

/// `chrono::NaiveDate::format` of the first of a month with `%B %Y`.
///
/// It writes the English name of the month, a space, and the year with at least
/// four digits and, beyond those, a sign.
#[verifier::external_body]
fn format_heading(year: i32, month: u32) -> (result: String)
    requires
        (Date { year, month, day: 1 }).wf(),
    ensures
        result@ == heading_of(year, month),
{
    NaiveDate::from_ymd_opt(year, month, 1).map(
        |date| date.format("%B %Y").to_string(),
    ).unwrap_or_default()
}

/// The middle of a column.
pub open spec fn column_x(column: int, scale: int) -> int {
    (33 + column * 37) * scale
}

/// The middle of a row.
pub open spec fn row_y(row: int, scale: int) -> int {
    (108 + row * 28) * scale
}

/// The color of a day's number.
pub open spec fn day_color(
    palette: &CalendarPalette,
    date: Date,
    month: Date,
    today: Date,
    column: int,
) -> [u8; 4] {
    if date == today {
        palette.today_foreground
    } else if date.year != month.year || date.month != month.month {
        palette.muted
    } else if column >= 5 {
        palette.weekend
    } else {
        palette.foreground
    }
}

/// How a cell is drawn: the day's number, with a mark behind it if it is today.
pub open spec fn cell_drawing(
    cell: Option<Date>,
    index: int,
    month: Date,
    today: Date,
    scale: int,
    palette: &CalendarPalette,
) -> Seq<CalendarCommand> {
    let x = column_x(index % 7, scale);
    let y = row_y(index / 7, scale);
    match cell {
        Some(date) => {
            let number = CalendarCommand::Day {
                day: date.day,
                x: x as i32,
                y: y as i32,
                color: day_color(palette, date, month, today, index % 7),
            };
            if date == today {
                seq![
                    CalendarCommand::Rounded {
                        area: rect(x - 13 * scale, y - 13 * scale, 26 * scale, 26 * scale),
                        radius: (13 * scale) as i32,
                        color: palette.today_background,
                    },
                    number,
                ]
            } else {
                seq![number]
            }
        },
        None => Seq::empty(),
    }
}

/// How the first `count` cells are drawn.
pub open spec fn cells_drawing(
    cells: Seq<Option<Date>>,
    count: int,
    month: Date,
    today: Date,
    scale: int,
    palette: &CalendarPalette,
) -> Seq<CalendarCommand>
    decreases count,
{
    if count <= 0 {
        Seq::empty()
    } else {
        cells_drawing(cells, count - 1, month, today, scale, palette) + cell_drawing(
            cells[count - 1],
            count - 1,
            month,
            today,
            scale,
            palette,
        )
    }
}

/// The names of the first `count` days of the week.
pub open spec fn weekdays_drawing(count: int, scale: int, palette: &CalendarPalette) -> Seq<
    CalendarCommand,
>
    decreases count,
{
    if count <= 0 {
        Seq::empty()
    } else {
        weekdays_drawing(count - 1, scale, palette).push(
            CalendarCommand::Weekday {
                column: (count - 1) as usize,
                x: column_x(count - 1, scale) as i32,
                y: (78 * scale) as i32,
                color: if count - 1 >= 5 {
                    palette.weekend
                } else {
                    palette.weekday
                },
            },
        )
    }
}

/// The card with its header.
pub open spec fn header_drawing(scale: int, palette: &CalendarPalette) -> Seq<CalendarCommand> {
    let card = rect(6 * scale, 6 * scale, 276 * scale, 268 * scale);
    seq![
        CalendarCommand::Rounded {
            area: card,
            radius: (12 * scale) as i32,
            color: palette.background,
        },
        CalendarCommand::Outline {
            area: card,
            radius: (12 * scale) as i32,
            width: scale as i32,
            color: palette.border,
        },
        CalendarCommand::Chevron {
            x: (34 * scale) as i32,
            y: (34 * scale) as i32,
            backwards: true,
            color: palette.foreground,
        },
        CalendarCommand::Chevron {
            x: (254 * scale) as i32,
            y: (34 * scale) as i32,
            backwards: false,
            color: palette.foreground,
        },
        CalendarCommand::Heading {
            x: (144 * scale) as i32,
            y: (34 * scale) as i32,
            color: palette.header,
        },
    ]
}

/// A calendar that is laid out.
#[derive(Debug)]
pub struct PreparedCalendar {
    pub month: Date,
    pub today: Date,
    pub width: u32,
    pub height: u32,
    pub natural_size: (u32, u32),
    pub scale: u32,
    pub heading: String,
    pub commands: Vec<CalendarCommand>,
    pub navigation: [MenuHitbox; 3],
    pub hover: [u8; 4],
}

/// The box of one of the three controls of the header.
pub open spec fn control_box(index: int, scale: int) -> MenuHitbox {
    MenuHitbox {
        selection: MenuSelection::Item((index - 1) as i32),
        enabled: true,
        x: (if index == 0 {
            14 * scale
        } else if index == 1 {
            54 * scale
        } else {
            234 * scale
        }) as i32,
        y: (14 * scale) as i32,
        width: (if index == 1 {
            180 * scale
        } else {
            40 * scale
        }) as i32,
        height: (40 * scale) as i32,
    }
}

/// A box, cut to a popup of the given size, if any of it is left.
pub open spec fn clipped_box(hitbox: MenuHitbox, width: int, height: int) -> Option<MenuHitbox> {
    let right = smaller(hitbox.x + hitbox.width, width);
    let bottom = smaller(hitbox.y + hitbox.height, height);
    let x = larger(hitbox.x as int, 0);
    let y = larger(hitbox.y as int, 0);
    if right > x && bottom > y {
        Some(
            MenuHitbox {
                selection: hitbox.selection,
                enabled: hitbox.enabled,
                x: x as i32,
                y: y as i32,
                width: (right - x) as i32,
                height: (bottom - y) as i32,
            },
        )
    } else {
        None
    }
}

/// Cuts a box to a popup of the given size.
pub fn clip_hitbox(hitbox: MenuHitbox, width: u32, height: u32) -> (result: Option<MenuHitbox>)
    requires
        width <= LONGEST,
        height <= LONGEST,
        0 <= hitbox.x <= LONGEST,
        0 <= hitbox.y <= LONGEST,
        0 <= hitbox.width <= LONGEST,
        0 <= hitbox.height <= LONGEST,
    ensures
        result == clipped_box(hitbox, width as int, height as int),
{
    let right: i32 = if hitbox.x + hitbox.width <= width as i32 {
        hitbox.x + hitbox.width
    } else {
        width as i32
    };
    let bottom: i32 = if hitbox.y + hitbox.height <= height as i32 {
        hitbox.y + hitbox.height
    } else {
        height as i32
    };
    if right > hitbox.x && bottom > hitbox.y {
        Some(
            MenuHitbox {
                selection: hitbox.selection,
                enabled: hitbox.enabled,
                x: hitbox.x,
                y: hitbox.y,
                width: right - hitbox.x,
                height: bottom - hitbox.y,
            },
        )
    } else {
        None
    }
}

/// Whether a box holds a pixel.
pub open spec fn box_holds(hitbox: MenuHitbox, x: int, y: int) -> bool {
    hitbox.x <= x < hitbox.x + hitbox.width && hitbox.y <= y < hitbox.y + hitbox.height
}

pub fn holds(hitbox: MenuHitbox, x: i32, y: i32) -> (result: bool)
    ensures
        result == box_holds(hitbox, x as int, y as int),
{
    x >= hitbox.x && (x as i64) < hitbox.x as i64 + hitbox.width as i64 && y >= hitbox.y && (
    y as i64) < hitbox.y as i64 + hitbox.height as i64
}

/// The controls that can be selected, in order.
pub open spec fn controls() -> Seq<MenuSelection> {
    seq![MenuSelection::Item(-1i32), MenuSelection::Item(0), MenuSelection::Item(1)]
}

/// The upper left corner of a text that is centered at a place.
pub fn centered_at(x: i32, y: i32, size: Size) -> (result: (i32, i32))
    requires
        size.wf(),
        -LONGEST <= x <= LONGEST,
        -LONGEST <= y <= LONGEST,
    ensures
        result.0 == x - size.width as int / 2,
        result.1 == y - size.height as int / 2,
{
    (x - size.width / 2, y - size.height / 2)
}

impl PreparedCalendar {
    pub open spec fn wf(&self) -> bool {
        &&& 1 <= self.scale <= 0x1_0000
        &&& self.month.wf()
        &&& self.month.day == 1
        &&& self.natural_size == (
            (288 * self.scale) as u32,
            (280 * self.scale) as u32,
        )
        &&& 1 <= self.width <= self.natural_size.0
        &&& 1 <= self.height <= self.natural_size.1
        &&& forall|i: int|
            0 <= i < 3 ==> #[trigger] self.navigation[i] == control_box(i, self.scale as int)
    }

    pub fn size(&self) -> (result: (u32, u32))
        ensures
            result == (self.width, self.height),
    {
        (self.width, self.height)
    }

    /// Whether this is another calendar, cut to a size.
    pub open spec fn constrained_from(
        &self,
        other: &PreparedCalendar,
        width: u32,
        height: u32,
    ) -> bool {
        &&& self.width == smaller(other.natural_size.0 as int, larger(width as int, 1))
        &&& self.height == smaller(other.natural_size.1 as int, larger(height as int, 1))
        &&& self.natural_size == other.natural_size
        &&& self.month == other.month
        &&& self.today == other.today
        &&& self.scale == other.scale
        &&& self.commands@ == other.commands@
        &&& self.heading@ == other.heading@
        &&& self.hover == other.hover
    }

    /// Gives the calendar the room that there is for it; the rest is cut off.
    pub fn constrain(&mut self, width: u32, height: u32)
        requires
            old(self).wf(),
        ensures
            final(self).wf(),
            final(self).constrained_from(old(self), width, height),
    {
        let width: u32 = if width > 1 {
            width
        } else {
            1
        };
        let height: u32 = if height > 1 {
            height
        } else {
            1
        };
        self.width = if self.natural_size.0 < width {
            self.natural_size.0
        } else {
            width
        };
        self.height = if self.natural_size.1 < height {
            self.natural_size.1
        } else {
            height
        };
    }

    /// The box of a control as far as it is visible.
    pub open spec fn visible_box(&self, index: int) -> Option<MenuHitbox> {
        clipped_box(
            control_box(index, self.scale as int),
            self.width as int,
            self.height as int,
        )
    }

    /// The control, from `start` on, whose visible part holds a pixel.
    pub open spec fn control_at(&self, x: int, y: int, start: int) -> Option<MenuSelection>
        decreases 3 - start,
    {
        if start >= 3 {
            None
        } else if self.visible_box(start) matches Some(hitbox) && box_holds(hitbox, x, y) {
            Some(MenuSelection::Item((start - 1) as i32))
        } else {
            self.control_at(x, y, start + 1)
        }
    }

    pub fn selection_at(&self, x: i32, y: i32) -> (result: Option<MenuSelection>)
        requires
            self.wf(),
        ensures
            result == self.control_at(x as int, y as int, 0),
    {
        let mut i: usize = 0;
        while i < 3
            invariant
                i <= 3,
                self.wf(),
                self.control_at(x as int, y as int, 0) == self.control_at(
                    x as int,
                    y as int,
                    i as int,
                ),
            decreases 3 - i,
        {
            let control = self.navigation[i];
            assert(control == control_box(i as int, self.scale as int));
            if let Some(hitbox) = clip_hitbox(control, self.width, self.height) {
                if holds(hitbox, x, y) {
                    return Some(hitbox.selection);
                }
            }
            i += 1;
        }
        None
    }

    /// The next control, from the last back to the first.
    pub fn next_selection(&self, current: Option<MenuSelection>, backwards: bool) -> (result: Option<
        MenuSelection,
    >)
        ensures
            result == step_in(controls(), current, backwards),
    {
        let mut choices: Vec<MenuSelection> = Vec::new();
        choices.push(MenuSelection::Item(-1));
        choices.push(MenuSelection::Item(0));
        choices.push(MenuSelection::Item(1));
        assert(choices@ =~= controls());
        step_among(&choices, current, backwards)
    }

    /// The visible boxes of the first `count` controls.
    pub open spec fn visible_boxes(&self, count: int) -> Seq<MenuHitbox>
        decreases count,
    {
        if count <= 0 {
            Seq::empty()
        } else {
            match self.visible_box(count - 1) {
                Some(hitbox) => self.visible_boxes(count - 1).push(hitbox),
                None => self.visible_boxes(count - 1),
            }
        }
    }

    /// The frame around the selected control.
    pub open spec fn hover_drawing(&self, selected: Option<MenuSelection>) -> Option<PixelRect> {
        let s = self.scale as int;
        match selected {
            Some(MenuSelection::Item(item)) => if -1 <= item <= 1 {
                let control = control_box(item + 1, s);
                Some(
                    rect(
                        control.x + 2 * s,
                        control.y + 2 * s,
                        control.width - 4 * s,
                        control.height - 4 * s,
                    ),
                )
            } else {
                None
            },
            _ => None,
        }
    }

    /// Plans the drawing of the calendar with a selection: the frame around the
    /// selected control, if any, to be drawn over the calendar, and the boxes
    /// that can be clicked.
    pub fn draw_calendar(&self, selected: Option<MenuSelection>) -> (result: (
        Option<PixelRect>,
        Vec<MenuHitbox>,
    ))
        requires
            self.wf(),
        ensures
            result.0 == self.hover_drawing(selected),
            result.1@ == self.visible_boxes(3),
    {
        let s: i32 = self.scale as i32;
        let mut hitboxes: Vec<MenuHitbox> = Vec::new();
        let mut frame: Option<PixelRect> = None;
        let mut i: usize = 0;
        while i < 3
            invariant
                i <= 3,
                s == self.scale,
                self.wf(),
                hitboxes@ == self.visible_boxes(i as int),
                frame == (match selected {
                    Some(MenuSelection::Item(item)) => if -1 <= item < i - 1 {
                        self.hover_drawing(selected)
                    } else {
                        None
                    },
                    _ => None,
                }),
            decreases 3 - i,
        {
            let control = self.navigation[i];
            assert(control == control_box(i as int, self.scale as int));
            if let Some(hitbox) = clip_hitbox(control, self.width, self.height) {
                hitboxes.push(hitbox);
            }
            if let Some(selection) = selected {
                if selection == control.selection {
                    frame = Some(
                        PixelRect {
                            x: control.x + s * 2,
                            y: control.y + s * 2,
                            width: control.width - s * 4,
                            height: control.height - s * 4,
                        },
                    );
                }
            }
            i += 1;
        }
        (frame, hitboxes)
    }
}

fn navigation_hitbox(index: usize, s: i32) -> (result: MenuHitbox)
    requires
        index < 3,
        1 <= s <= 0x1_0000,
    ensures
        result == control_box(index as int, s as int),
{
    MenuHitbox {
        selection: MenuSelection::Item(index as i32 - 1),
        enabled: true,
        x: if index == 0 {
            14 * s
        } else if index == 1 {
            54 * s
        } else {
            234 * s
        },
        y: 14 * s,
        width: if index == 1 {
            180 * s
        } else {
            40 * s
        },
        height: 40 * s,
    }
}

fn push_cell(
    cell: Option<Date>,
    index: usize,
    month: Date,
    today: Date,
    s: i32,
    palette: &CalendarPalette,
    commands: &mut Vec<CalendarCommand>,
)
    requires
        index < 42,
        1 <= s <= 0x1_0000,
    ensures
        final(commands)@ == old(commands)@ + cell_drawing(
            cell,
            index as int,
            month,
            today,
            s as int,
            palette,
        ),
{
    let ghost before = commands@;
    let column: i32 = (index % 7) as i32;
    let row: i32 = (index / 7) as i32;
    let wide: i32 = 33 + column * 37;
    let high: i32 = 108 + row * 28;
    assert(0 <= wide * s <= 255 * 0x1_0000) by (nonlinear_arith)
        requires
            0 <= wide <= 255,
            0 <= s <= 0x1_0000,
    ;
    assert(0 <= high * s <= 248 * 0x1_0000) by (nonlinear_arith)
        requires
            0 <= high <= 248,
            0 <= s <= 0x1_0000,
    ;
    let x: i32 = wide * s;
    let y: i32 = high * s;
    if let Some(date) = cell {
        let is_today = date == today;
        if is_today {
            commands.push(
                CalendarCommand::Rounded {
                    area: PixelRect {
                        x: x - 13 * s,
                        y: y - 13 * s,
                        width: 26 * s,
                        height: 26 * s,
                    },
                    radius: 13 * s,
                    color: palette.today_background,
                },
            );
        }
        let color = if is_today {
            palette.today_foreground
        } else if date.year != month.year || date.month != month.month {
            palette.muted
        } else if column >= 5 {
            palette.weekend
        } else {
            palette.foreground
        };
        commands.push(CalendarCommand::Day { day: date.day, x, y, color });
    }
    assert(commands@ =~= before + cell_drawing(
        cell,
        index as int,
        month,
        today,
        s as int,
        palette,
    ));
}

fn push_weekdays(s: i32, palette: &CalendarPalette, commands: &mut Vec<CalendarCommand>)
    requires
        1 <= s <= 0x1_0000,
    ensures
        final(commands)@ == old(commands)@ + weekdays_drawing(7, s as int, palette),
{
    let ghost before = commands@;
    let mut column: usize = 0;
    assert(before + Seq::<CalendarCommand>::empty() =~= before);
    while column < 7
        invariant
            column <= 7,
            1 <= s <= 0x1_0000,
            commands@ == before + weekdays_drawing(column as int, s as int, palette),
        decreases 7 - column,
    {
        let wide: i32 = 33 + column as i32 * 37;
        assert(0 <= wide * s <= 255 * 0x1_0000) by (nonlinear_arith)
            requires
                0 <= wide <= 255,
                0 <= s <= 0x1_0000,
        ;
        commands.push(
            CalendarCommand::Weekday {
                column,
                x: wide * s,
                y: 78 * s,
                color: if column >= 5 {
                    palette.weekend
                } else {
                    palette.weekday
                },
            },
        );
        assert(commands@ =~= before + weekdays_drawing(column + 1, s as int, palette));
        column += 1;
    }
}

fn push_header(s: i32, palette: &CalendarPalette) -> (result: Vec<CalendarCommand>)
    requires
        1 <= s <= 0x1_0000,
    ensures
        result@ == header_drawing(s as int, palette),
{
    let mut commands: Vec<CalendarCommand> = Vec::new();
    let card = PixelRect { x: 6 * s, y: 6 * s, width: 276 * s, height: 268 * s };
    commands.push(
        CalendarCommand::Rounded { area: card, radius: 12 * s, color: palette.background },
    );
    commands.push(
        CalendarCommand::Outline { area: card, radius: 12 * s, width: s, color: palette.border },
    );
    commands.push(
        CalendarCommand::Chevron {
            x: 34 * s,
            y: 34 * s,
            backwards: true,
            color: palette.foreground,
        },
    );
    commands.push(
        CalendarCommand::Chevron {
            x: 254 * s,
            y: 34 * s,
            backwards: false,
            color: palette.foreground,
        },
    );
    commands.push(CalendarCommand::Heading { x: 144 * s, y: 34 * s, color: palette.header });
    assert(commands@ =~= header_drawing(s as int, palette));
    commands
}

/// Whether some cells are the grid of a month.
pub open spec fn is_grid(cells: Seq<Option<Date>>, month: Date) -> bool {
    cells.len() == 42 && forall|i: int|
        0 <= i < 42 ==> cell_holds(#[trigger] cells[i], grid_start(month) + i)
}

/// Lays out the calendar of a month.
pub fn prepare_calendar(month: Date, today: Date, scale: u32, palette: &CalendarPalette) -> (result:
    PreparedCalendar)
    requires
        month.wf(),
        scale <= 0x1_0000,
    ensures
        result.wf(),
        result.month == month.first(),
        result.today == today,
        result.scale == at_least_one(scale),
        result.width == 288 * at_least_one(scale),
        result.height == 280 * at_least_one(scale),
        result.heading@ == heading_of(month.year, month.month),
        result.hover@ == seq![palette.header[0], palette.header[1], palette.header[2], 92u8],
        exists|cells: Seq<Option<Date>>|
            is_grid(cells, month) && result.commands@ == header_drawing(at_least_one(scale) as int, palette)
                + weekdays_drawing(7, at_least_one(scale) as int, palette) + #[trigger] cells_drawing(
                cells,
                42,
                month.first(),
                today,
                at_least_one(scale) as int,
                palette,
            ),
{
    let scale: u32 = if scale >= 1 {
        scale
    } else {
        1
    };
    let s: i32 = scale as i32;
    let first = Date { year: month.year, month: month.month, day: 1 };
    let mut commands = push_header(s, palette);
    push_weekdays(s, palette, &mut commands);
    let ghost before = commands@;
    assert(before + Seq::<CalendarCommand>::empty() =~= before);
    let grid = month_grid(month);
    let mut i: usize = 0;
    while i < 42
        invariant
            i <= 42,
            grid@.len() == 42,
            1 <= s <= 0x1_0000,
            commands@ == before + cells_drawing(grid@, i as int, first, today, s as int, palette),
        decreases 42 - i,
    {
        push_cell(grid[i], i, first, today, s, palette, &mut commands);
        assert(commands@ =~= before + cells_drawing(
            grid@,
            i + 1,
            first,
            today,
            s as int,
            palette,
        ));
        i += 1;
    }
    assert(is_grid(grid@, month));
    let natural_size = (WIDTH * scale, HEIGHT * scale);
    let hover = [palette.header[0], palette.header[1], palette.header[2], 92u8];
    assert(hover@ =~= seq![palette.header[0], palette.header[1], palette.header[2], 92u8]);
    PreparedCalendar {
        month: first,
        today,
        width: natural_size.0,
        height: natural_size.1,
        natural_size,
        scale,
        heading: format_heading(month.year, month.month),
        commands,
        navigation: [navigation_hitbox(0, s), navigation_hitbox(1, s), navigation_hitbox(2, s)],
        hover,
    }
}

/// The grid of a month is unique: two grids hold the same days.
pub proof fn law_grid_is_unique(left: Seq<Option<Date>>, right: Seq<Option<Date>>, month: Date)
    requires
        month.wf(),
        is_grid(left, month),
        is_grid(right, month),
    ensures
        left == right,
{
    assert forall|i: int| 0 <= i < 42 implies left[i] == right[i] by {
        assert(cell_holds(left[i], grid_start(month) + i));
        assert(cell_holds(right[i], grid_start(month) + i));
        match (left[i], right[i]) {
            (Some(a), Some(b)) => {
                crate::date::law_numbers_tell_dates_apart(a, b);
            },
            (Some(a), None) => {
                lemma_in_range(a);
            },
            (None, Some(b)) => {
                lemma_in_range(b);
            },
            _ => {},
        }
    }
    assert(left =~= right);
}

/// Every date lies between the first and the last one.
pub proof fn lemma_in_range(date: Date)
    requires
        date.wf(),
    ensures
        first_date().number() <= date.number() <= last_date().number(),
{
    if date != first_date() {
        crate::date::law_later_dates_have_higher_numbers(first_date(), date);
    }
    if date != last_date() {
        crate::date::law_later_dates_have_higher_numbers(date, last_date());
    }
}

/// Today is marked exactly where it is in the grid.
pub proof fn law_only_today_is_marked(
    cell: Option<Date>,
    index: int,
    month: Date,
    today: Date,
    scale: int,
    palette: &CalendarPalette,
)
    ensures
        cell_drawing(cell, index, month, today, scale, palette).len() == 2 <==> cell == Some(today),
{
}

} // verus!
