//! What holds of every calendar: each day has its number under its day of the week,
//! and the arrows lead where they point.

use vstd::prelude::*;

use crate::date::{days_in_month, Date, FIRST_YEAR, LAST_YEAR};
use crate::render::calendar::{
    box_holds, cell_drawing, cell_holds, cells_drawing, clipped_box, column_label, column_x,
    control_box, controls, grid_start, header_drawing, heading_of, is_grid,
    law_grid_columns_are_weekdays, law_grid_holds_the_whole_month, month_after, month_index,
    month_name, row_y, weekdays_drawing, year_text, CalendarCommand, CalendarPalette,
    PreparedCalendar,
};
use crate::render::menu::{MenuHitbox, MenuSelection};
use crate::render::weather::weekday_text;
use crate::text::decimal;

verus! {

/// Whether a command writes the number of a day at a place.
pub open spec fn writes_day(command: CalendarCommand, day: int, x: int, y: int) -> bool {
    command matches CalendarCommand::Day { day: shown, x: left, y: top, .. } && shown == day && left
        == x && top == y
}

/// Whether a command lays a mark in a color around a place.
pub open spec fn marks_place(command: CalendarCommand, x: int, y: int, color: [u8; 4]) -> bool {
    command matches CalendarCommand::Rounded { area, color: shown, .. } && shown == color && area.x
        + area.width / 2 == x && area.y + area.height / 2 == y
}

proof fn lemma_place(column: int, row: int, scale: int)
    requires
        0 <= column < 7,
        0 <= row < 6,
        1 <= scale <= 0x1_0000,
    ensures
        33 * scale <= column_x(column, scale) <= 0x200_0000,
        108 * scale <= row_y(row, scale) <= 0x200_0000,
        0 <= column_x(column, scale) - 13 * scale,
{
    assert((33 + column * 37) * scale <= 255 * scale) by (nonlinear_arith)
        requires
            0 <= column < 7,
            1 <= scale,
    ;
    assert(33 * scale <= (33 + column * 37) * scale) by (nonlinear_arith)
        requires
            0 <= column < 7,
            1 <= scale,
    ;
    assert((108 + row * 28) * scale <= 248 * scale) by (nonlinear_arith)
        requires
            0 <= row < 6,
            1 <= scale,
    ;
    assert(108 * scale <= (108 + row * 28) * scale) by (nonlinear_arith)
        requires
            0 <= row < 6,
            1 <= scale,
    ;
}

/// Where a cell's drawing stands among those of all cells.
proof fn lemma_cell_part(
    cells: Seq<Option<Date>>,
    count: int,
    month: Date,
    today: Date,
    scale: int,
    palette: &CalendarPalette,
    index: int,
) -> (start: int)
    requires
        0 <= index < count,
    ensures
        0 <= start,
        start + cell_drawing(cells[index], index, month, today, scale, palette).len()
            <= cells_drawing(cells, count, month, today, scale, palette).len(),
        forall|k: int|
            0 <= k < cell_drawing(cells[index], index, month, today, scale, palette).len()
                ==> #[trigger] cell_drawing(cells[index], index, month, today, scale, palette)[k]
                == cells_drawing(cells, count, month, today, scale, palette)[start + k],
    decreases count,
{
    let before = cells_drawing(cells, count - 1, month, today, scale, palette);
    let last = cell_drawing(cells[count - 1], count - 1, month, today, scale, palette);
    let all = cells_drawing(cells, count, month, today, scale, palette);
    assert(all == before + last);
    if index == count - 1 {
        before.len() as int
    } else {
        let start = lemma_cell_part(cells, count - 1, month, today, scale, palette, index);
        let part = cell_drawing(cells[index], index, month, today, scale, palette);
        assert forall|k: int| 0 <= k < part.len() implies #[trigger] part[k] == all[start + k] by {
            assert(all[start + k] == before[start + k]);
        }
        start
    }
}

/// The number in a cell is the day of the month of the date that the grid holds there,
/// in a color that tells today, other months and weekends apart. Today has a mark.
pub proof fn law_cells_show_their_day(
    cells: Seq<Option<Date>>,
    month: Date,
    today: Date,
    scale: int,
    palette: &CalendarPalette,
    index: int,
    date: Date,
)
    requires
        1 <= scale <= 0x1_0000,
        0 <= index < 42,
        cells[index] == Some(date),
    ensures
        ({
            let drawn = cells_drawing(cells, 42, month, today, scale, palette);
            let x = column_x(index % 7, scale);
            let y = row_y(index / 7, scale);
            &&& exists|k: int|
                0 <= k < drawn.len() && #[trigger] writes_day(drawn[k], date.day as int, x, y) && (
                drawn[k] matches CalendarCommand::Day { color, .. } && {
                    &&& date == today ==> color == palette.today_foreground
                    &&& date != today && (date.year != month.year || date.month != month.month)
                        ==> color == palette.muted
                    &&& date != today && date.year == month.year && date.month == month.month && index
                        % 7 >= 5 ==> color == palette.weekend
                    &&& date != today && date.year == month.year && date.month == month.month && index
                        % 7 < 5 ==> color == palette.foreground
                })
            &&& date == today ==> exists|k: int|
                0 <= k < drawn.len() && #[trigger] marks_place(
                    drawn[k],
                    x,
                    y,
                    palette.today_background,
                )
        }),
{
    let drawn = cells_drawing(cells, 42, month, today, scale, palette);
    let part = cell_drawing(cells[index], index, month, today, scale, palette);
    let x = column_x(index % 7, scale);
    let y = row_y(index / 7, scale);
    lemma_place(index % 7, index / 7, scale);
    let start = lemma_cell_part(cells, 42, month, today, scale, palette, index);
    let last = part.len() - 1;
    assert(part[last] == drawn[start + last]);
    assert(writes_day(drawn[start + last], date.day as int, x, y));
    if date == today {
        assert(part[0] == drawn[start]);
        assert(marks_place(drawn[start], x, y, palette.today_background));
    }
}

/// Every number is that of a cell: no other numbers are written, and each is written
/// in the middle of its cell.
pub proof fn law_numbers_are_those_of_cells(
    cells: Seq<Option<Date>>,
    count: int,
    month: Date,
    today: Date,
    scale: int,
    palette: &CalendarPalette,
    place: int,
)
    requires
        1 <= scale <= 0x1_0000,
        0 <= count <= 42,
        0 <= place < cells_drawing(cells, count, month, today, scale, palette).len(),
    ensures
        ({
            let command = cells_drawing(cells, count, month, today, scale, palette)[place];
            command is Day ==> exists|index: int|
                0 <= index < count && (#[trigger] cells[index]) is Some && writes_day(
                    command,
                    cells[index]->0.day as int,
                    column_x(index % 7, scale),
                    row_y(index / 7, scale),
                )
        }),
    decreases count,
{
    if count > 0 {
        let before = cells_drawing(cells, count - 1, month, today, scale, palette);
        let last = cell_drawing(cells[count - 1], count - 1, month, today, scale, palette);
        let all = cells_drawing(cells, count, month, today, scale, palette);
        lemma_place((count - 1) % 7, (count - 1) / 7, scale);
        if place < before.len() {
            assert(all[place] == before[place]);
            law_numbers_are_those_of_cells(
                cells,
                count - 1,
                month,
                today,
                scale,
                palette,
                place,
            );
        } else {
            assert(all[place] == last[place - before.len()]);
            let index = count - 1;
            assert(cells[index] is Some);
        }
    }
}

/// The label of a column of the week stands over its numbers.
proof fn lemma_weekday_at(count: int, scale: int, palette: &CalendarPalette, column: int)
    requires
        0 <= column < count <= 7,
        1 <= scale <= 0x1_0000,
    ensures
        weekdays_drawing(count, scale, palette).len() == count,
        weekdays_drawing(count, scale, palette)[column] matches CalendarCommand::Weekday {
            column: shown,
            x,
            ..
        } && shown == column && x == column_x(column, scale),
    decreases count,
{
    lemma_place(column, 0, scale);
    if count > 1 {
        lemma_weekday_at(count - 1, scale, palette, if column < count - 1 {
            column
        } else {
            0
        });
    } else {
        assert(weekdays_drawing(0, scale, palette).len() == 0);
    }
}

/// Every day of the month is in its calendar, under the label of its day of the week.
pub proof fn law_days_stand_under_their_weekday(
    cells: Seq<Option<Date>>,
    month: Date,
    today: Date,
    scale: int,
    palette: &CalendarPalette,
    day: u32,
)
    requires
        month.wf(),
        is_grid(cells, month),
        1 <= scale <= 0x1_0000,
        1 <= day <= days_in_month(month.year as int, month.month as int),
    ensures
        ({
            let date = Date { year: month.year, month: month.month, day };
            let numbers = cells_drawing(cells, 42, month.first(), today, scale, palette);
            let labels = weekdays_drawing(7, scale, palette);
            exists|label: int, number: int, x: int, y: int|
                #![trigger labels[label], writes_day(numbers[number], day as int, x, y)]
                {
                    &&& 0 <= label < labels.len()
                    &&& 0 <= number < numbers.len()
                    &&& labels[label] matches CalendarCommand::Weekday { column, x: left, .. } && column
                        == date.weekday() && left == x
                    &&& writes_day(numbers[number], day as int, x, y)
                }
        }),
{
    let date = Date { year: month.year, month: month.month, day };
    let numbers = cells_drawing(cells, 42, month.first(), today, scale, palette);
    let labels = weekdays_drawing(7, scale, palette);
    law_grid_holds_the_whole_month(month, day);
    let index = date.number() - grid_start(month);
    law_grid_columns_are_weekdays(month, date, index);
    assert(cell_holds(cells[index], grid_start(month) + index));
    assert(date.wf());
    assert(cells[index] == Some(date)) by {
        match cells[index] {
            Some(other) => {
                crate::date::law_numbers_tell_dates_apart(other, date);
            },
            None => {
                crate::render::calendar::lemma_in_range(date);
            },
        }
    }
    law_cells_show_their_day(cells, month.first(), today, scale, palette, index, date);
    lemma_weekday_at(7, scale, palette, index % 7);
    let x = column_x(index % 7, scale);
    let y = row_y(index / 7, scale);
    let number = choose|k: int|
        0 <= k < numbers.len() && #[trigger] writes_day(numbers[k], date.day as int, x, y);
    let label = index % 7;
    assert(labels[label] is Weekday);
    assert(writes_day(numbers[number], day as int, x, y));
}

/// Going on by a month leads to the next one, over the end of the year too, and going
/// back to the one before.
pub proof fn law_months_follow_each_other(month: Date, there: Date)
    requires
        month.wf(),
        there.wf(),
        FIRST_YEAR < month.year < LAST_YEAR,
    ensures
        month_index(there.year as int, there.month as int) == month_after(month, 1) ==> if month.month
            == 12 {
            there.month == 1 && there.year == month.year + 1
        } else {
            there.month == month.month + 1 && there.year == month.year
        },
        month_index(there.year as int, there.month as int) == month_after(month, -1)
            ==> if month.month == 1 {
            there.month == 12 && there.year == month.year - 1
        } else {
            there.month == month.month - 1 && there.year == month.year
        },
{
}

/// An arrow of the header is drawn on the control that leads in its direction, and the
/// heading on the one that leads back to today.
pub proof fn law_arrows_lead_where_they_point(scale: int, palette: &CalendarPalette, place: int)
    requires
        1 <= scale <= 0x1_0000,
        0 <= place < header_drawing(scale, palette).len(),
    ensures
        match header_drawing(scale, palette)[place] {
            CalendarCommand::Chevron { x, y, backwards, .. } => exists|control: int|
                0 <= control < 3 && box_holds(
                    #[trigger] control_box(control, scale),
                    x as int,
                    y as int,
                ) && control_box(control, scale).selection == MenuSelection::Item(
                    if backwards {
                        -1i32
                    } else {
                        1i32
                    },
                ),
            CalendarCommand::Heading { x, y, .. } => exists|control: int|
                0 <= control < 3 && box_holds(
                    #[trigger] control_box(control, scale),
                    x as int,
                    y as int,
                ) && control_box(control, scale).selection == MenuSelection::Item(0),
            _ => true,
        },
        exists|first: int, second: int|
            {
                &&& 0 <= first < header_drawing(scale, palette).len()
                &&& 0 <= second < header_drawing(scale, palette).len()
                &&& #[trigger] header_drawing(scale, palette)[first] matches CalendarCommand::Chevron {
                    x: left,
                    backwards: true,
                    ..
                } && #[trigger] header_drawing(scale, palette)[second]
                    matches CalendarCommand::Chevron { x: right, backwards: false, .. } && left < right
            },
{
    let drawn = header_drawing(scale, palette);
    assert(box_holds(control_box(0, scale), 34 * scale, 34 * scale));
    assert(box_holds(control_box(1, scale), 144 * scale, 34 * scale));
    assert(box_holds(control_box(2, scale), 254 * scale, 34 * scale));
    assert(drawn[2] is Chevron && drawn[3] is Chevron);
}

/// The weather names the days of the week as the calendar does, in capitals.
pub proof fn law_weekdays_are_named_alike(weekday: int, place: int)
    requires
        0 <= weekday < 7,
        0 <= place < 3,
    ensures
        column_label(weekday).len() == 3,
        weekday_text(weekday).len() > 3,
        place == 0 ==> weekday_text(weekday)[0] == column_label(weekday)[0],
        place > 0 ==> weekday_text(weekday)[place] as int + 32 == column_label(weekday)[place] as int,
{
    reveal_strlit("Mon");
    reveal_strlit("Tue");
    reveal_strlit("Wed");
    reveal_strlit("Thu");
    reveal_strlit("Fri");
    reveal_strlit("Sat");
    reveal_strlit("Sun");
    reveal_strlit("MONDAY");
    reveal_strlit("TUESDAY");
    reveal_strlit("WEDNESDAY");
    reveal_strlit("THURSDAY");
    reveal_strlit("FRIDAY");
    reveal_strlit("SATURDAY");
    reveal_strlit("SUNDAY");
}

/// The heading is the name of the month and the year, which has at least four digits.
pub proof fn law_headings_name_the_month(year: i32, month: u32)
    requires
        1 <= month <= 12,
    ensures
        heading_of(year, month) == month_name(month) + seq![' '] + year_text(year as int),
        0 <= year <= 9999 && decimal(year as nat).len() == 4 ==> year_text(year as int) == decimal(
            year as nat,
        ),
        0 <= year <= 9999 ==> year_text(year as int).len() >= 4,
        year > 9999 ==> year_text(year as int)[0] == '+',
        year < 0 ==> year_text(year as int)[0] == '-',
        month_name(1) == "January"@,
        month_name(2) == "February"@,
        month_name(3) == "March"@,
        month_name(4) == "April"@,
        month_name(5) == "May"@,
        month_name(6) == "June"@,
        month_name(7) == "July"@,
        month_name(8) == "August"@,
        month_name(9) == "September"@,
        month_name(10) == "October"@,
        month_name(11) == "November"@,
        month_name(12) == "December"@,
{
    if 0 <= year <= 9999 && decimal(year as nat).len() == 4 {
        assert(year_text(year as int) =~= decimal(year as nat));
    }
}

/// The weekend has a color of its own in the row of the weekdays, and the frame, the arrows
/// and the heading have theirs.
pub proof fn law_calendars_are_colored(scale: int, palette: &CalendarPalette, column: int)
    requires
        1 <= scale <= 0x1_0000,
        0 <= column < 7,
    ensures
        ({
            let label = weekdays_drawing(7, scale, palette)[column];
            &&& label is Weekday
            &&& label->column == column
            &&& column < 5 ==> label->Weekday_color == palette.weekday
            &&& column >= 5 ==> label->Weekday_color == palette.weekend
        }),
        ({
            let drawn = header_drawing(scale, palette);
            &&& drawn.len() == 5
            &&& drawn[0] is Rounded && drawn[0]->Rounded_color == palette.background
            &&& drawn[1] is Outline && drawn[1]->Outline_color == palette.border
            &&& drawn[1]->Outline_area == drawn[0]->Rounded_area
            &&& drawn[2] is Chevron && drawn[2]->Chevron_color == palette.foreground
            &&& drawn[3] is Chevron && drawn[3]->Chevron_color == palette.foreground
            &&& drawn[4] is Heading && drawn[4]->Heading_color == palette.header
        }),
{
    lemma_label_color(7, scale, palette, column);
}

proof fn lemma_label_color(count: int, scale: int, palette: &CalendarPalette, column: int)
    requires
        0 <= column < count <= 7,
    ensures
        weekdays_drawing(count, scale, palette).len() == count,
        ({
            let label = weekdays_drawing(count, scale, palette)[column];
            &&& label is Weekday
            &&& label->column == column
            &&& column < 5 ==> label->Weekday_color == palette.weekday
            &&& column >= 5 ==> label->Weekday_color == palette.weekend
        }),
    decreases count,
{
    if column < count - 1 {
        lemma_label_color(count - 1, scale, palette, column);
        assert(weekdays_drawing(count, scale, palette)[column] == weekdays_drawing(
            count - 1,
            scale,
            palette,
        )[column]);
    } else if count > 1 {
        lemma_label_color(count - 1, scale, palette, 0);
    } else {
        assert(weekdays_drawing(0, scale, palette).len() == 0);
    }
}

/// What can be hit of a box is the part of it on the canvas, and leads where the box does.
pub proof fn law_clipped_boxes_are_on_the_canvas(
    hitbox: MenuHitbox,
    width: int,
    height: int,
    x: int,
    y: int,
)
    requires
        0 <= width <= 0x400_0000,
        0 <= height <= 0x400_0000,
    ensures
        box_holds(hitbox, x, y) && 0 <= x < width && 0 <= y < height <==> clipped_box(
            hitbox,
            width,
            height,
        ) is Some && box_holds(clipped_box(hitbox, width, height)->0, x, y),
        clipped_box(hitbox, width, height) matches Some(clipped) ==> clipped.selection
            == hitbox.selection && clipped.enabled == hitbox.enabled,
{
}

/// A point on the left control leads a month back, one on the right control a month on, and
/// one between them to today.
pub proof fn law_controls_lead_by_a_month(calendar: &PreparedCalendar, x: int, y: int)
    requires
        calendar.wf(),
        calendar.width == calendar.natural_size.0,
        calendar.height == calendar.natural_size.1,
        14 * calendar.scale <= y < 54 * calendar.scale,
    ensures
        14 * calendar.scale <= x < 54 * calendar.scale ==> calendar.control_at(x, y, 0) == Some(
            MenuSelection::Item(-1i32),
        ),
        54 * calendar.scale <= x < 234 * calendar.scale ==> calendar.control_at(x, y, 0) == Some(
            MenuSelection::Item(0),
        ),
        234 * calendar.scale <= x < 274 * calendar.scale ==> calendar.control_at(x, y, 0) == Some(
            MenuSelection::Item(1),
        ),
        x >= 274 * calendar.scale || x < 14 * calendar.scale ==> calendar.control_at(x, y, 0)
            is None,
{
    reveal_with_fuel(PreparedCalendar::control_at, 4);
}

/// The selected control is highlighted within its box.
pub proof fn law_selected_controls_are_highlighted(calendar: &PreparedCalendar, item: i32)
    requires
        calendar.wf(),
        -1 <= item <= 1,
    ensures
        ({
            let area = calendar.hover_drawing(Some(MenuSelection::Item(item)));
            let control = control_box(item + 1, calendar.scale as int);
            &&& area is Some
            &&& control.selection == MenuSelection::Item(item)
            &&& control.x < area->0.x
            &&& control.y < area->0.y
            &&& area->0.x + area->0.width < control.x + control.width
            &&& area->0.y + area->0.height < control.y + control.height
        }),
        calendar.hover_drawing(None) is None,
        controls()[0] == MenuSelection::Item(-1i32),
        controls()[1] == MenuSelection::Item(0),
        controls()[2] == MenuSelection::Item(1),
        controls().len() == 3,
{
}

/// A calendar begins with a Monday, and the first day of the month is in its first row.
pub proof fn law_months_begin_in_the_first_row(month: Date, cells: Seq<Option<Date>>, start: Date)
    requires
        month.wf(),
        is_grid(cells, month),
        cells[0] == Some(start),
    ensures
        start.weekday() == 0,
        0 <= month.first().number() - start.number() < 7,
        month.first().number() - start.number() == month.first().weekday(),
{
    assert(cell_holds(cells[0], grid_start(month) + 0));
}

} // verus!
