//! What holds of every menu: where its rows are, and what is selected in it.

use vstd::prelude::*;

use crate::render::bar::Size;
use crate::render::layout::Style;
use crate::render::menu::{
    card_drawing, choice_at, clamped, color_of_text, has_toggles, height_of, inset_of,
    label_drawing, label_of, menu_width, prepared_row, row_top, step_in, text_row_height, widest,
    MenuCommand, MenuInk, MenuRow, MenuSelection, PreparedMenu, PreparedMenuEntry, TextInk,
};
use crate::render::pixels::PixelRect;
use crate::text::is_control_char;
use crate::tray::{ToggleType, TrayMenuEntry};

verus! {

/// Rows stand below each other without a gap, the first one at the inset; lines are lower
/// than entries.
pub proof fn law_rows_stand_below_each_other(
    rows: Seq<MenuRow>,
    row_height: int,
    scale: u32,
    index: int,
)
    requires
        0 <= index < rows.len(),
    ensures
        row_top(rows, row_height, scale, 0) == 18 * scale,
        row_top(rows, row_height, scale, index + 1) == row_top(rows, row_height, scale, index)
            + height_of(rows[index], row_height, scale),
        rows[index] is Separator ==> height_of(rows[index], row_height, scale) == 9 * scale,
        !(rows[index] is Separator) ==> height_of(rows[index], row_height, scale) == row_height,
        inset_of(scale) == 18 * scale,
{
}

/// A row of text has room for its line and is at least 32 pixels high.
pub proof fn law_rows_have_room_for_their_text(line_height: i32, scale: u32)
    requires
        scale >= 1,
    ensures
        text_row_height(line_height, scale) >= 32 * scale,
        text_row_height(line_height, scale) >= (line_height + 14) * scale,
        text_row_height(line_height, scale) == 32 * scale || text_row_height(line_height, scale) == (
        line_height + 14) * scale,
{
    assert((line_height + 14) * scale <= 32 * scale || line_height + 14 >= 32) by (nonlinear_arith)
        requires
            scale >= 1,
    ;
    assert((line_height + 14) * scale >= 32 * scale || line_height + 14 <= 32) by (nonlinear_arith)
        requires
            scale >= 1,
    ;
}

/// A prepared row has the place and the height of its row and the size of its own label.
pub proof fn law_rows_are_prepared_at_their_place(
    entries: Seq<TrayMenuEntry>,
    rows: Seq<MenuRow>,
    labels: Seq<Size>,
    row_height: int,
    scale: u32,
    index: int,
)
    requires
        0 <= index < rows.len(),
        0 <= row_top(rows, row_height, scale, index) <= i32::MAX,
        0 <= height_of(rows[index], row_height, scale) <= i32::MAX,
    ensures
        ({
            let row = prepared_row(entries, rows, labels, row_height, scale, index);
            &&& row.y == row_top(rows, row_height, scale, index)
            &&& row.height == height_of(rows[index], row_height, scale)
            &&& rows[index] is Separator ==> row.text is None && row.selection is None
                && !row.enabled
            &&& !(rows[index] is Separator) ==> row.text == Some(labels[index])
            &&& rows[index] is Back ==> row.selection == Some(MenuSelection::Back) && row.enabled
                && !row.submenu
        }),
{
}

proof fn lemma_boxes(menu: &PreparedMenu, count: int, place: int)
    requires
        0 <= count <= menu.entries@.len(),
        0 <= place < menu.boxes(count).len(),
    ensures
        exists|i: int|
            0 <= i < count && menu.box_of(#[trigger] menu.entries@[i]) == Some(
                menu.boxes(count)[place],
            ),
    decreases count,
{
    if count > 0 {
        let before = menu.boxes(count - 1);
        if place < before.len() {
            lemma_boxes(menu, count - 1, place);
            assert(menu.boxes(count)[place] == before[place]);
        } else {
            assert(menu.box_of(menu.entries@[count - 1]) == Some(menu.boxes(count)[place]));
        }
    }
}

/// A box of a menu lies on the row of an entry, selects that entry, and is enabled if and
/// only if the entry is.
pub proof fn law_boxes_select_their_row(menu: &PreparedMenu, place: int)
    requires
        menu.wf(),
        0 <= place < menu.hitboxes@.len(),
    ensures
        exists|i: int|
            {
                let hitbox = menu.hitboxes@[place];
                let row = menu.rect_of(menu.entries@[i]);
                &&& 0 <= i < menu.entries@.len()
                &&& (#[trigger] menu.entries@[i]).selection == Some(hitbox.selection)
                &&& menu.entries@[i].enabled == hitbox.enabled
                &&& hitbox.x == row.x
                &&& hitbox.width == row.width
                &&& row.y <= hitbox.y
                &&& hitbox.y + hitbox.height <= row.y + row.height
                &&& hitbox.height > 0
            },
{
    lemma_boxes(menu, menu.entries@.len() as int, place);
    let i = choose|i: int|
        0 <= i < menu.entries@.len() && menu.box_of(#[trigger] menu.entries@[i]) == Some(
            menu.boxes(menu.entries@.len() as int)[place],
        );
    assert(0 <= menu.entries@[i].y);
    let inset = inset_of(menu.scale);
}

/// A row of the content stands its scroll offset higher than it would without scrolling, and
/// a row of the header stands where it is.
pub proof fn law_scrolling_moves_rows_up(menu: &PreparedMenu, entry: PreparedMenuEntry)
    requires
        menu.laid_out(),
        0 <= entry.y <= 0x400_0000,
    ensures
        entry.y >= menu.content_top ==> menu.rect_of(entry).y + menu.scroll_offset == entry.y,
        entry.y < menu.content_top ==> menu.rect_of(entry).y == entry.y,
        menu.rect_of(entry).height == entry.height,
        menu.rect_of(entry).x == 18 * menu.scale,
{
}

proof fn lemma_hit(menu: &PreparedMenu, x: int, y: int, start: int)
    requires
        0 <= start,
    ensures
        menu.hit_at(x, y, start) matches Some(selection) ==> exists|i: int|
            start <= i < menu.hitboxes@.len() && (#[trigger] menu.hitboxes@[i]).selection
                == selection && menu.hitboxes@[i].enabled && menu.hitboxes@[i].x <= x
                < menu.hitboxes@[i].x + menu.hitboxes@[i].width && menu.hitboxes@[i].y <= y
                < menu.hitboxes@[i].y + menu.hitboxes@[i].height,
        menu.hit_at(x, y, start) is None ==> forall|i: int|
            start <= i < menu.hitboxes@.len() && (#[trigger] menu.hitboxes@[i]).enabled ==> !(
            menu.hitboxes@[i].x <= x < menu.hitboxes@[i].x + menu.hitboxes@[i].width
                && menu.hitboxes@[i].y <= y < menu.hitboxes@[i].y + menu.hitboxes@[i].height),
    decreases menu.hitboxes@.len() - start,
{
    if start < menu.hitboxes@.len() {
        lemma_hit(menu, x, y, start + 1);
        let row = menu.hitboxes@[start];
        assert(row.selection == row.selection);
    }
}

/// A point selects the enabled row that it is on, and nothing where it is on none.
pub proof fn law_points_select_what_they_are_on(menu: &PreparedMenu, x: int, y: int)
    ensures
        menu.hit_at(x, y, 0) matches Some(selection) ==> exists|i: int|
            0 <= i < menu.hitboxes@.len() && (#[trigger] menu.hitboxes@[i]).selection == selection
                && menu.hitboxes@[i].enabled && menu.hitboxes@[i].x <= x < menu.hitboxes@[i].x
                + menu.hitboxes@[i].width && menu.hitboxes@[i].y <= y < menu.hitboxes@[i].y
                + menu.hitboxes@[i].height,
        menu.hit_at(x, y, 0) is None ==> forall|i: int|
            0 <= i < menu.hitboxes@.len() && (#[trigger] menu.hitboxes@[i]).enabled ==> !(
            menu.hitboxes@[i].x <= x < menu.hitboxes@[i].x + menu.hitboxes@[i].width
                && menu.hitboxes@[i].y <= y < menu.hitboxes@[i].y + menu.hitboxes@[i].height),
{
    lemma_hit(menu, x, y, 0);
}

proof fn lemma_choice(choices: Seq<MenuSelection>, place: int, start: int)
    requires
        choices.no_duplicates(),
        0 <= start <= place < choices.len(),
    ensures
        choice_at(choices, choices[place], start) == Some(place),
    decreases place - start,
{
    if start < place {
        lemma_choice(choices, place, start + 1);
    }
}

/// A step goes to the next choice, a step backwards to the one before, and round at the
/// ends; without a selection they go to the first and to the last.
pub proof fn law_steps_go_to_the_neighbor(choices: Seq<MenuSelection>, place: int)
    requires
        choices.no_duplicates(),
        0 <= place < choices.len(),
    ensures
        place + 1 < choices.len() ==> step_in(choices, Some(choices[place]), false) == Some(
            choices[place + 1],
        ),
        place > 0 ==> step_in(choices, Some(choices[place]), true) == Some(choices[place - 1]),
        step_in(choices, Some(choices[choices.len() - 1]), false) == Some(choices[0]),
        step_in(choices, Some(choices[0]), true) == Some(choices[choices.len() - 1]),
        step_in(choices, None, false) == Some(choices[0]),
        step_in(choices, None, true) == Some(choices[choices.len() - 1]),
        step_in(Seq::empty(), None, true) is None,
{
    lemma_choice(choices, place, 0);
    lemma_choice(choices, 0, 0);
    lemma_choice(choices, choices.len() - 1, 0);
}

/// Every enabled entry can be selected, in the order of the rows, and no other one.
pub proof fn law_choices_are_the_enabled_entries(menu: &PreparedMenu, count: int)
    requires
        0 < count <= menu.entries@.len(),
    ensures
        ({
            let entry = menu.entries@[count - 1];
            let before = menu.choices(count - 1);
            &&& entry.enabled && entry.selection is Some ==> menu.choices(count) == before.push(
                entry.selection->0,
            )
            &&& !entry.enabled || entry.selection is None ==> menu.choices(count) == before
        }),
        menu.choices(0).len() == 0,
{
}

/// A label is one line of at most 256 characters and a mark: blanks stand for control
/// characters, and everything else stays.
pub proof fn law_labels_are_one_line(text: Seq<char>, place: int)
    ensures
        text.len() <= 256 ==> label_of(text).len() == text.len(),
        text.len() > 256 ==> label_of(text).len() == 257 && label_of(text)[256] == '…',
        0 <= place < text.len() && place < 256 ==> label_of(text)[place] == (if is_control_char(
            text[place],
        ) {
            ' '
        } else {
            text[place]
        }),
{
}

/// Enabled entries are written in the usual color, disabled ones in that of empty
/// workspaces, and the way back in that of active workspaces.
pub proof fn law_inks_of_text(style: &Style, entry: PreparedMenuEntry)
    ensures
        color_of_text(style, TextInk::Usual) == style.foreground,
        color_of_text(style, TextInk::Disabled) == style.workspace_empty_foreground,
        color_of_text(style, TextInk::Header) == style.workspace_active_foreground,
        entry.selection == Some(MenuSelection::Back) ==> entry.text_ink() == TextInk::Header,
        entry.selection != Some(MenuSelection::Back) && entry.enabled ==> entry.text_ink()
            == TextInk::Usual,
        entry.selection != Some(MenuSelection::Back) && !entry.enabled ==> entry.text_ink()
            == TextInk::Disabled,
{
}

/// A label that fits is written whole; one that does not is cut, with a mark that ends where
/// the room ends.
pub proof fn law_labels_are_cut_at_their_room(
    entry: usize,
    text: Size,
    ellipsis: Size,
    clip: PixelRect,
    ink: TextInk,
)
    requires
        0 <= clip.x <= 0x1000_0000,
        0 <= clip.width <= 0x1000_0000,
        0 <= ellipsis.width <= clip.width,
    ensures
        ({
            let drawn = label_drawing(entry, text, ellipsis, clip, ink);
            &&& drawn[0] is RowText
            &&& drawn[0]->entry == entry
            &&& drawn[0]->RowText_x == clip.x
            &&& drawn[0]->RowText_clip.x == clip.x
            &&& text.width <= clip.width ==> drawn.len() == 1 && drawn[0]->RowText_clip.width
                == clip.width
            &&& text.width > clip.width ==> drawn.len() == 2 && drawn[1] is RowEllipsis
                && drawn[0]->RowText_clip.width + ellipsis.width == clip.width
                && drawn[1]->RowEllipsis_x + ellipsis.width == clip.x + clip.width
        }),
{
}

proof fn lemma_widest(rows: Seq<MenuRow>, labels: Seq<Size>, count: int, place: int)
    requires
        0 <= place < count <= rows.len(),
        !(rows[place] is Separator),
    ensures
        labels[place].width <= widest(rows, labels, count),
    decreases count,
{
    if place < count - 1 {
        lemma_widest(rows, labels, count - 1, place);
    }
}

/// A menu is between 220 and 360 pixels wide beside its shadow, and wide enough for each of
/// its labels unless that takes more.
pub proof fn law_menus_are_as_wide_as_their_labels(
    rows: Seq<MenuRow>,
    labels: Seq<Size>,
    column: bool,
    titled: bool,
    scale: u32,
    place: int,
)
    requires
        0 <= place < rows.len(),
        !(rows[place] is Separator),
    ensures
        ({
            let width = menu_width(rows, labels, column, titled, scale) - 24 * scale;
            &&& 220 * scale <= width <= 360 * scale
            &&& width < 360 * scale ==> labels[place].width + 56 * scale <= width
            &&& width < 360 * scale && (column || titled) ==> labels[place].width + 80 * scale
                <= width
        }),
{
    lemma_widest(rows, labels, rows.len() as int, place);
}

/// There is a column for toggles if and only if an entry has one.
pub proof fn law_columns_are_for_toggles(entries: Seq<TrayMenuEntry>, entry: TrayMenuEntry)
    ensures
        entry.toggle_type != ToggleType::CannotBeToggled ==> has_toggles(entries.push(entry)),
        entry.toggle_type == ToggleType::CannotBeToggled ==> has_toggles(entries.push(entry))
            == has_toggles(entries),
        !has_toggles(Seq::empty()),
{
    let more = entries.push(entry);
    assert(more[entries.len() as int] == entry);
    if has_toggles(entries) {
        let i = choose|i: int|
            0 <= i < entries.len() && (#[trigger] entries[i]).toggle_type
                != ToggleType::CannotBeToggled;
        assert(more[i] == entries[i]);
    }
    if has_toggles(more) {
        let i = choose|i: int|
            0 <= i < more.len() && (#[trigger] more[i]).toggle_type != ToggleType::CannotBeToggled;
        assert(i < entries.len() ==> more[i] == entries[i]);
    }
}

/// A menu is cleared first; its border lies on its shadow and its background, a pixel
/// smaller on each side, on its border.
pub proof fn law_menus_lie_on_their_shadow(width: int, height: int, scale: int)
    requires
        1 <= scale <= 0x1_0000,
        26 * scale <= width <= 0x400_0000,
        26 * scale <= height <= 0x400_0000,
    ensures
        ({
            let drawn = card_drawing(width, height, scale);
            let border = drawn[drawn.len() - 2];
            let background = drawn[drawn.len() - 1];
            &&& drawn.len() >= 3
            &&& drawn[0] is Clear
            &&& border is Rounded && border->Rounded_ink == MenuInk::Border
            &&& background is Rounded && background->Rounded_ink == MenuInk::Background
            &&& background->Rounded_area.x == border->Rounded_area.x + scale
            &&& background->Rounded_area.y == border->Rounded_area.y + scale
            &&& background->Rounded_area.width == border->Rounded_area.width - 2 * scale
            &&& background->Rounded_area.height == border->Rounded_area.height - 2 * scale
        }),
{
}

/// A value stays within its bounds, and is left alone where it is within them.
pub proof fn law_clamped_values_are_within_bounds(value: int, least: int, most: int)
    requires
        least <= most,
    ensures
        least <= clamped(value, least, most) <= most,
        least <= value <= most ==> clamped(value, least, most) == value,
        value < least ==> clamped(value, least, most) == least,
        value > most ==> clamped(value, least, most) == most,
{
}

/// The selected row has a highlight behind its text; the other rows have none.
pub proof fn law_selected_rows_are_highlighted(
    menu: &PreparedMenu,
    index: usize,
    entry: PreparedMenuEntry,
    target: PixelRect,
    clip: PixelRect,
    selected: Option<MenuSelection>,
)
    ensures
        ({
            let drawn = menu.item_drawing(index, entry, target, clip, selected);
            &&& drawn[0] == MenuCommand::BeginRow
            &&& drawn.last() == (MenuCommand::EndRow { x: target.x, y: target.y, clip })
            &&& entry.enabled && selected == entry.selection ==> drawn[1] is RowRounded
                && drawn[1]->RowRounded_ink == MenuInk::Hover
        }),
{
}

/// The label of a row stands right of the column for toggles, where there is one, and of the
/// arrow that leads back; it ends before the arrow into a submenu. Otherwise it begins near
/// the edge.
pub proof fn law_labels_stand_beside_their_marks(
    menu: &PreparedMenu,
    entry: PreparedMenuEntry,
    width: int,
)
    requires
        menu.laid_out(),
        68 * menu.scale <= width <= 0x400_0000,
        0 < entry.height <= 0x400_0000,
    ensures
        ({
            let s = menu.scale as int;
            let clip = menu.label_clip(entry, width);
            &&& menu.indicator_column || entry.selection == Some(MenuSelection::Back) ==> clip.x
                == 34 * s
            &&& !menu.indicator_column && entry.selection != Some(MenuSelection::Back) ==> clip.x
                == 10 * s
            &&& clip.x + clip.width == width - 34 * s
            &&& clip.y == 0
            &&& clip.height == entry.height
        }),
{
}

/// A line between entries is drawn across its row, in its middle, and only where all of it
/// can be seen.
pub proof fn law_lines_lie_in_the_middle(menu: &PreparedMenu, target: PixelRect, clip: PixelRect)
    requires
        menu.laid_out(),
        0 <= target.x <= 0x400_0000,
        -0x400_0000 <= target.y <= 0x400_0000,
        20 * menu.scale <= target.width <= 0x400_0000,
        0 <= target.height <= 0x400_0000,
    ensures
        ({
            let s = menu.scale as int;
            let drawn = menu.line_drawing(target, clip);
            &&& drawn.len() <= 1
            &&& drawn.len() == 1 ==> {
                &&& drawn[0] is Fill
                &&& drawn[0]->Fill_ink == MenuInk::Line
                &&& drawn[0]->Fill_area.height == s
                &&& drawn[0]->Fill_area.x == target.x + 10 * s
                &&& drawn[0]->Fill_area.x + drawn[0]->Fill_area.width == target.x + target.width
                    - 10 * s
                &&& drawn[0]->Fill_area.y == target.y + target.height / 2
                &&& clip.y <= drawn[0]->Fill_area.y
                &&& drawn[0]->Fill_area.y + s <= clip.y + clip.height
            }
            &&& clip.y <= target.y + target.height / 2 && target.y + target.height / 2 + s <= clip.y
                + clip.height ==> drawn.len() == 1
        }),
{
}

} // verus!
