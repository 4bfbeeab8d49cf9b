//! The popup menu of a tray icon.

use vstd::prelude::*;

use crate::render::bar::{rect, Size};
use crate::render::layout::{
    at_least_one, half, larger, max_i32, min_i32, smaller, Style, LONGEST,
};
use crate::render::pixels::PixelRect;
use crate::text::{chars_of, is_control, is_control_char};
use crate::tray::{ToggleState, ToggleType, TrayMenuEntry};

verus! {

pub const SHADOW: i32 = 12;

pub const INSET: i32 = 6;

pub const TEXT_PADDING: i32 = 10;

pub const INDICATOR_WIDTH: i32 = 24;

pub const SEPARATOR_HEIGHT: i32 = 9;

/// The bit pattern of the single-precision number 13, the least font size of a menu.
pub const MINIMUM_MENU_FONT: u32 = 0x4150_0000;

/// The font size of a menu: that of the bar, but not too small to read.
pub fn menu_font_size(font_size: u32) -> (result: u32)
    ensures
        result == if font_size > MINIMUM_MENU_FONT {
            font_size
        } else {
            MINIMUM_MENU_FONT
        },
{
    if font_size > MINIMUM_MENU_FONT {
        font_size
    } else {
        MINIMUM_MENU_FONT
    }
}

#[derive(Clone, Copy, Debug, PartialEq, Eq, Structural)]
pub enum MenuSelection {
    Item(i32),
    Back,
}

#[derive(Clone, Copy, Debug, PartialEq, Eq, Structural)]
pub struct MenuHitbox {
    pub selection: MenuSelection,
    pub enabled: bool,
    pub x: i32,
    pub y: i32,
    pub width: i32,
    pub height: i32,
}

/// A row of a menu: the header of a submenu, a line, or an entry.
#[derive(Clone, Copy, Debug, PartialEq, Eq, Structural)]
pub enum MenuRow {
    Back,
    Separator,
    Item(usize),
}

/// The rows of the entries from `start` on. A separator is shown once, between
/// two entries; `pending` is whether one is due, `has_item` whether an entry came.
pub open spec fn body_rows(
    entries: Seq<TrayMenuEntry>,
    start: int,
    pending: bool,
    has_item: bool,
) -> Seq<MenuRow>
    decreases entries.len() - start,
{
    if start < 0 || start >= entries.len() {
        Seq::empty()
    } else if entries[start].separator {
        body_rows(entries, start + 1, has_item, has_item)
    } else {
        (if pending {
            seq![MenuRow::Separator, MenuRow::Item(start as usize)]
        } else {
            seq![MenuRow::Item(start as usize)]
        }) + body_rows(entries, start + 1, false, true)
    }
}

/// The rows above the entries.
pub open spec fn header_rows(titled: bool) -> Seq<MenuRow> {
    if titled {
        seq![MenuRow::Back, MenuRow::Separator]
    } else {
        Seq::empty()
    }
}

/// The rows of a menu.
pub open spec fn rows_of(entries: Seq<TrayMenuEntry>, titled: bool) -> Seq<MenuRow> {
    header_rows(titled) + body_rows(entries, 0, false, false)
}

pub fn menu_rows(entries: &Vec<TrayMenuEntry>, titled: bool) -> (result: Vec<MenuRow>)
    ensures
        result@ == rows_of(entries@, titled),
        result@.len() <= 2 * entries@.len() + 2,
        forall|k: int|
            0 <= k < result@.len() ==> (#[trigger] result@[k] matches MenuRow::Item(index) ==> index
                < entries@.len()),
{
    let mut rows: Vec<MenuRow> = Vec::new();
    if titled {
        rows.push(MenuRow::Back);
        rows.push(MenuRow::Separator);
    }
    assert(rows@ =~= header_rows(titled));
    let mut pending = false;
    let mut has_item = false;
    let mut i: usize = 0;
    while i < entries.len()
        invariant
            i <= entries@.len(),
            rows@.len() <= 2 * i + 2,
            rows@ + body_rows(entries@, i as int, pending, has_item) == rows_of(entries@, titled),
            forall|k: int|
                0 <= k < rows@.len() ==> (#[trigger] rows@[k] matches MenuRow::Item(index) ==> index
                    < entries@.len()),
        decreases entries@.len() - i,
    {
        let ghost before = rows@;
        if entries[i].separator {
            pending = has_item;
        } else {
            let ghost rest = body_rows(entries@, i + 1, false, true);
            let ghost due = pending;
            if pending {
                rows.push(MenuRow::Separator);
                pending = false;
            }
            rows.push(MenuRow::Item(i));
            has_item = true;
            assert(before + ((if due {
                seq![MenuRow::Separator, MenuRow::Item(i)]
            } else {
                seq![MenuRow::Item(i)]
            }) + rest) =~= rows@ + rest);
        }
        i += 1;
    }
    assert(rows@ + Seq::<MenuRow>::empty() =~= rows@);
    rows
}

/// Separators are neither first nor last, and never next to each other: between
/// two rows of entries there is at most one.
pub open spec fn neat(rows: Seq<MenuRow>) -> bool {
    forall|i: int|
        0 <= i < rows.len() && #[trigger] rows[i] is Separator ==> 0 < i && i + 1 < rows.len()
            && rows[i + 1] is Item && rows[i - 1] is Item
}

/// Where rows follow a row of an entry, each separator stands before an entry.
pub open spec fn neat_tail(rows: Seq<MenuRow>) -> bool {
    forall|i: int|
        0 <= i < rows.len() && #[trigger] rows[i] is Separator ==> i + 1 < rows.len() && rows[i + 1]
            is Item && (i > 0 ==> rows[i - 1] is Item)
}

proof fn lemma_body_rows(
    entries: Seq<TrayMenuEntry>,
    start: int,
    pending: bool,
    has_item: bool,
)
    requires
        0 <= start,
        pending ==> has_item,
    ensures
        ({
            let rows = body_rows(entries, start, pending, has_item);
            &&& neat_tail(rows)
            &&& rows.len() > 0 && !has_item ==> rows[0] is Item
            &&& forall|i: int| 0 <= i < rows.len() ==> !(#[trigger] rows[i] is Back)
        }),
    decreases entries.len() - start,
{
    if start < entries.len() {
        if entries[start].separator {
            lemma_body_rows(entries, start + 1, has_item, has_item);
        } else {
            lemma_body_rows(entries, start + 1, false, true);
            let head = if pending {
                seq![MenuRow::Separator, MenuRow::Item(start as usize)]
            } else {
                seq![MenuRow::Item(start as usize)]
            };
            let tail = body_rows(entries, start + 1, false, true);
            let rows = head + tail;
            assert forall|i: int| 0 <= i < rows.len() && #[trigger] rows[i] is Separator implies i
                + 1 < rows.len() && rows[i + 1] is Item && (i > 0 ==> rows[i - 1] is Item) by {
                if i >= head.len() {
                    let j = i - head.len();
                    assert(rows[i] == tail[j]);
                    assert(tail[j] is Separator);
                    assert(rows[i + 1] == tail[j + 1]);
                    if j > 0 {
                        assert(rows[i - 1] == tail[j - 1]);
                    }
                }
            }
            assert forall|i: int| 0 <= i < rows.len() implies !(#[trigger] rows[i] is Back) by {
                if i >= head.len() {
                    assert(rows[i] == tail[i - head.len()]);
                }
            }
        }
    }
}

/// Separators at the edges of a menu are left out, and runs of them are one.
pub proof fn law_separators_stand_between_entries(entries: Seq<TrayMenuEntry>)
    ensures
        neat(body_rows(entries, 0, false, false)),
{
    lemma_body_rows(entries, 0, false, false);
    let rows = body_rows(entries, 0, false, false);
    assert forall|i: int| 0 <= i < rows.len() && #[trigger] rows[i] is Separator implies 0 < i && i
        + 1 < rows.len() && rows[i + 1] is Item && rows[i - 1] is Item by {
        if i == 0 {
            assert(rows[0] is Item);
        }
    }
}

/// The entries among some rows.
pub open spec fn items_in(rows: Seq<MenuRow>) -> Seq<int>
    decreases rows.len(),
{
    if rows.len() == 0 {
        Seq::empty()
    } else {
        match rows[0] {
            MenuRow::Item(index) => seq![index as int] + items_in(rows.drop_first()),
            _ => items_in(rows.drop_first()),
        }
    }
}

/// The places of the entries that are no separators, from `start` on.
pub open spec fn shown_entries(entries: Seq<TrayMenuEntry>, start: int) -> Seq<int>
    decreases entries.len() - start,
{
    if start < 0 || start >= entries.len() {
        Seq::empty()
    } else if entries[start].separator {
        shown_entries(entries, start + 1)
    } else {
        seq![start] + shown_entries(entries, start + 1)
    }
}

/// Every entry that is no separator has a row, in order.
pub proof fn law_every_entry_has_a_row(
    entries: Seq<TrayMenuEntry>,
    start: int,
    pending: bool,
    has_item: bool,
)
    requires
        0 <= start,
        entries.len() <= usize::MAX,
    ensures
        items_in(body_rows(entries, start, pending, has_item)) == shown_entries(entries, start),
    decreases entries.len() - start,
{
    if start < entries.len() {
        if entries[start].separator {
            law_every_entry_has_a_row(entries, start + 1, has_item, has_item);
        } else {
            law_every_entry_has_a_row(entries, start + 1, false, true);
            let tail = body_rows(entries, start + 1, false, true);
            let rows = body_rows(entries, start, pending, has_item);
            reveal_with_fuel(items_in, 3);
            if pending {
                assert(rows.drop_first() =~= seq![MenuRow::Item(start as usize)] + tail);
                assert(rows.drop_first().drop_first() =~= tail);
            } else {
                assert(rows.drop_first() =~= tail);
            }
        }
    }
}

/// A label as it is drawn: cut after 256 characters, on one line.
pub open spec fn label_of(text: Seq<char>) -> Seq<char> {
    let length = if text.len() > 256 {
        256
    } else {
        text.len()
    };
    let line = Seq::new(
        length,
        |i: int|
            if is_control_char(text[i]) {
                ' '
            } else {
                text[i]
            },
    );
    if text.len() > 256 {
        line.push('…')
    } else {
        line
    }
}

/// The text of a menu row. Labels come from other programs: they may be very
/// long or hold line breaks.
pub fn menu_text(text: &str) -> (result: String)
    ensures
        result@ == label_of(text@),
{
    let characters = chars_of(text);
    let mut result = String::new();
    let mut i: usize = 0;
    let length: usize = if characters.len() > 256 {
        256
    } else {
        characters.len()
    };
    while i < length
        invariant
            i <= length,
            length <= characters@.len(),
            characters@ == text@,
            result@.len() == i,
            forall|k: int|
                0 <= k < i ==> #[trigger] result@[k] == (if is_control_char(text@[k]) {
                    ' '
                } else {
                    text@[k]
                }),
        decreases length - i,
    {
        if is_control(characters[i]) {
            result.push(' ');
        } else {
            result.push(characters[i]);
        }
        i += 1;
    }
    if characters.len() > 256 {
        result.push('…');
    }
    assert(result@ =~= label_of(text@));
    result
}

/// The colors of a menu's texts.
#[derive(Clone, Copy, Debug, PartialEq, Eq, Structural)]
pub enum TextInk {
    Usual,
    /// Of an item that cannot be taken.
    Disabled,
    /// Of the header that leads back.
    Header,
}

/// The color that an ink stands for.
pub open spec fn color_of_text(style: &Style, ink: TextInk) -> [u8; 4] {
    match ink {
        TextInk::Usual => style.foreground,
        TextInk::Disabled => style.workspace_empty_foreground,
        TextInk::Header => style.workspace_active_foreground,
    }
}

pub fn text_color(style: &Style, ink: TextInk) -> (result: [u8; 4])
    ensures
        result == color_of_text(style, ink),
{
    match ink {
        TextInk::Usual => style.foreground,
        TextInk::Disabled => style.workspace_empty_foreground,
        TextInk::Header => style.workspace_active_foreground,
    }
}

/// A row with its place in the menu.
#[derive(Clone, Copy, Debug, PartialEq, Eq, Structural)]
pub struct PreparedMenuEntry {
    pub selection: Option<MenuSelection>,
    pub enabled: bool,
    pub y: i32,
    pub height: i32,
    /// The size of the row's text; none for a line.
    pub text: Option<Size>,
    pub toggle_type: ToggleType,
    pub toggle_state: ToggleState,
    pub submenu: bool,
}

impl PreparedMenuEntry {
    /// What the text of the row, and the mark where it is cut, are written in.
    pub open spec fn text_ink(&self) -> TextInk {
        if self.selection == Some(MenuSelection::Back) {
            TextInk::Header
        } else if self.enabled {
            TextInk::Usual
        } else {
            TextInk::Disabled
        }
    }

    pub fn ink(&self) -> (result: TextInk)
        ensures
            result == self.text_ink(),
    {
        match self.selection {
            Some(MenuSelection::Back) => TextInk::Header,
            _ => if self.enabled {
                TextInk::Usual
            } else {
                TextInk::Disabled
            },
        }
    }
}

/// A menu that is laid out.
#[derive(Debug)]
pub struct PreparedMenu {
    pub width: u32,
    pub height: u32,
    pub natural_size: (u32, u32),
    pub content_top: i32,
    pub scroll_offset: i32,
    pub scale: u32,
    pub indicator_column: bool,
    pub entries: Vec<PreparedMenuEntry>,
    pub hitboxes: Vec<MenuHitbox>,
    /// The size of the mark where a label was cut.
    pub ellipsis: Size,
}

/// The distance of the rows from the edge of the popup: its shadow and its frame.
pub open spec fn inset_of(scale: u32) -> int {
    18 * scale
}

/// The place of the first entry, from `start` on, with a selection.
pub open spec fn entry_selected(
    entries: Seq<PreparedMenuEntry>,
    selection: MenuSelection,
    start: int,
) -> Option<int>
    decreases entries.len() - start,
{
    if start < 0 || start >= entries.len() {
        None
    } else if entries[start].selection == Some(selection) {
        Some(start)
    } else {
        entry_selected(entries, selection, start + 1)
    }
}

/// A number brought between two others.
pub open spec fn clamped(value: int, least: int, most: int) -> int {
    if value < least {
        least
    } else if value > most {
        most
    } else {
        value
    }
}

impl PreparedMenu {
    /// How far the menu can be scrolled.
    pub open spec fn scroll_limit(&self) -> int {
        self.natural_size.1 - self.height
    }

    /// Everything but the boxes is in order.
    pub open spec fn laid_out(&self) -> bool {
        &&& 1 <= self.scale <= 0x1_0000
        &&& 1 <= self.width <= self.natural_size.0 <= LONGEST
        &&& 1 <= self.height <= self.natural_size.1 <= LONGEST
        &&& 0 <= self.content_top <= LONGEST
        &&& 0 <= self.scroll_offset <= self.scroll_limit()
        &&& self.ellipsis.wf()
        &&& forall|i: int|
            0 <= i < self.entries@.len() ==> {
                let entry = #[trigger] self.entries@[i];
                &&& 0 <= entry.y
                &&& 0 < entry.height
                &&& entry.y + entry.height <= LONGEST
                &&& (entry.text matches Some(size) ==> size.wf())
            }
    }

    /// The menu is laid out, and its boxes are where its rows are.
    pub open spec fn wf(&self) -> bool {
        self.laid_out() && self.hitboxes@ == self.boxes(self.entries@.len() as int)
    }

    /// The part of the popup in which entries are shown.
    pub open spec fn viewport_of(&self) -> PixelRect {
        let inset = inset_of(self.scale);
        rect(
            inset,
            self.content_top as int,
            larger(self.width - 2 * inset, 0),
            larger(self.height - inset - self.content_top, 0),
        )
    }

    /// Where a row stands. The header does not scroll.
    pub open spec fn rect_of(&self, entry: PreparedMenuEntry) -> PixelRect {
        let inset = inset_of(self.scale);
        rect(
            inset,
            entry.y - (if entry.y >= self.content_top {
                self.scroll_offset as int
            } else {
                0
            }),
            larger(self.width - 2 * inset, 0),
            entry.height as int,
        )
    }

    /// What a row is cut to.
    pub open spec fn clip_of(&self, entry: PreparedMenuEntry) -> PixelRect {
        if entry.y < self.content_top {
            self.rect_of(entry)
        } else {
            self.viewport_of()
        }
    }

    /// The box of a row, if some of it is visible and it can be selected.
    pub open spec fn box_of(&self, entry: PreparedMenuEntry) -> Option<MenuHitbox> {
        let row = self.rect_of(entry);
        let clip = self.clip_of(entry);
        let top = larger(row.y as int, clip.y as int);
        let bottom = smaller(row.y + row.height, clip.y + clip.height);
        match entry.selection {
            Some(selection) => if bottom > top && row.width > 0 {
                Some(
                    MenuHitbox {
                        selection,
                        enabled: entry.enabled,
                        x: row.x,
                        y: top as i32,
                        width: row.width,
                        height: (bottom - top) as i32,
                    },
                )
            } else {
                None
            },
            None => None,
        }
    }

    /// The boxes of the first `count` rows.
    pub open spec fn boxes(&self, count: int) -> Seq<MenuHitbox>
        decreases count,
    {
        if count <= 0 {
            Seq::empty()
        } else {
            match self.box_of(self.entries@[count - 1]) {
                Some(hitbox) => self.boxes(count - 1).push(hitbox),
                None => self.boxes(count - 1),
            }
        }
    }

    /// Whether everything but the scroll position and the boxes is as in another menu.
    pub open spec fn same_menu(&self, other: &PreparedMenu) -> bool {
        &&& self.natural_size == other.natural_size
        &&& self.content_top == other.content_top
        &&& self.scale == other.scale
        &&& self.indicator_column == other.indicator_column
        &&& self.entries@ == other.entries@
        &&& self.ellipsis == other.ellipsis
    }

    /// Whether this is another menu, cut to a size.
    pub open spec fn constrained_from(
        &self,
        other: &PreparedMenu,
        width: u32,
        height: u32,
    ) -> bool {
        &&& self.same_menu(other)
        &&& self.width == smaller(other.natural_size.0 as int, larger(width as int, 1))
        &&& self.height == smaller(other.natural_size.1 as int, larger(height as int, 1))
        &&& self.scroll_offset == smaller(other.scroll_offset as int, self.scroll_limit())
    }

    /// Whether this is another menu, scrolled to an offset.
    pub open spec fn scrolled_from(&self, other: &PreparedMenu, offset: int) -> bool {
        &&& self.same_menu(other)
        &&& self.width == other.width
        &&& self.height == other.height
        &&& self.scroll_offset == offset
    }

    /// The offset at which a selection is visible.
    pub open spec fn revealed_offset(&self, selection: MenuSelection) -> int {
        match entry_selected(self.entries@, selection, 0) {
            Some(place) => if selection is Back {
                self.scroll_offset as int
            } else {
                clamped(
                    self.scroll_offset + self.reveal_delta(self.entries@[place]),
                    0,
                    self.scroll_limit(),
                )
            },
            None => self.scroll_offset as int,
        }
    }

    pub fn size(&self) -> (result: (u32, u32))
        ensures
            result == (self.width, self.height),
    {
        (self.width, self.height)
    }

    fn inset(&self) -> (result: i32)
        requires
            self.scale <= 0x1_0000,
        ensures
            result == inset_of(self.scale),
    {
        (SHADOW + INSET) * self.scale as i32
    }

    pub fn max_scroll(&self) -> (result: i32)
        requires
            self.laid_out(),
        ensures
            result == self.scroll_limit(),
    {
        (self.natural_size.1 - self.height) as i32
    }

    pub fn viewport(&self) -> (result: PixelRect)
        requires
            self.laid_out(),
        ensures
            result == self.viewport_of(),
    {
        let inset = self.inset();
        PixelRect {
            x: inset,
            y: self.content_top,
            width: max_i32(self.width as i32 - 2 * inset, 0),
            height: max_i32(self.height as i32 - inset - self.content_top, 0),
        }
    }

    pub fn row_rect(&self, entry: PreparedMenuEntry) -> (result: PixelRect)
        requires
            self.laid_out(),
            0 <= entry.y <= LONGEST,
        ensures
            result == self.rect_of(entry),
    {
        let inset = self.inset();
        PixelRect {
            x: inset,
            y: if entry.y >= self.content_top {
                entry.y - self.scroll_offset
            } else {
                entry.y
            },
            width: max_i32(self.width as i32 - 2 * inset, 0),
            height: entry.height,
        }
    }

    pub fn row_clip(&self, entry: PreparedMenuEntry) -> (result: PixelRect)
        requires
            self.laid_out(),
            0 <= entry.y <= LONGEST,
        ensures
            result == self.clip_of(entry),
    {
        if entry.y < self.content_top {
            self.row_rect(entry)
        } else {
            self.viewport()
        }
    }

    fn rebuild_hitboxes(&mut self)
        requires
            old(self).laid_out(),
        ensures
            final(self).wf(),
            final(self).same_menu(old(self)),
            final(self).width == old(self).width,
            final(self).height == old(self).height,
            final(self).scroll_offset == old(self).scroll_offset,
    {
        let mut hitboxes: Vec<MenuHitbox> = Vec::new();
        let mut i: usize = 0;
        while i < self.entries.len()
            invariant
                i <= self.entries@.len(),
                self.laid_out(),
                hitboxes@ == self.boxes(i as int),
            decreases self.entries@.len() - i,
        {
            let entry = self.entries[i];
            assert(0 <= self.entries@[i as int].y);
            if let Some(selection) = entry.selection {
                let row = self.row_rect(entry);
                let clip = self.row_clip(entry);
                let top: i32 = max_i32(row.y, clip.y);
                let bottom: i32 = min_i32(row.y + row.height, clip.y + clip.height);
                if bottom > top && row.width > 0 {
                    hitboxes.push(
                        MenuHitbox {
                            selection,
                            enabled: entry.enabled,
                            x: row.x,
                            y: top,
                            width: row.width,
                            height: bottom - top,
                        },
                    );
                }
            }
            i += 1;
        }
        let ghost before = *self;
        self.hitboxes = hitboxes;
        proof {
            lemma_boxes_same(&before, self, self.entries@.len() as int);
        }
    }

    /// Gives the menu the room that there is for it; what does not fit is scrolled.
    pub fn constrain(&mut self, width: u32, height: u32)
        requires
            old(self).wf(),
        ensures
            final(self).wf(),
            final(self).constrained_from(old(self), width, height),
    {
        let width: u32 = if width > 1 {
            width
        } else {
            1
        };
        let height: u32 = if height > 1 {
            height
        } else {
            1
        };
        self.width = if self.natural_size.0 < width {
            self.natural_size.0
        } else {
            width
        };
        self.height = if self.natural_size.1 < height {
            self.natural_size.1
        } else {
            height
        };
        let limit: i32 = (self.natural_size.1 - self.height) as i32;
        self.scroll_offset = min_i32(self.scroll_offset, limit);
        self.rebuild_hitboxes();
    }

    /// Scrolls as far as the menu reaches. Returns whether anything moved.
    pub fn scroll_by(&mut self, delta: i32) -> (result: bool)
        requires
            old(self).wf(),
        ensures
            final(self).wf(),
            final(self).scrolled_from(
                old(self),
                clamped(old(self).scroll_offset + delta, 0, old(self).scroll_limit()),
            ),
            result == (final(self).scroll_offset != old(self).scroll_offset),
    {
        let limit: i64 = self.max_scroll() as i64;
        let wanted: i64 = self.scroll_offset as i64 + delta as i64;
        let offset: i64 = if wanted < 0 {
            0
        } else if wanted > limit {
            limit
        } else {
            wanted
        };
        if offset == self.scroll_offset as i64 {
            return false;
        }
        self.scroll_offset = offset as i32;
        self.rebuild_hitboxes();
        true
    }

    /// How far to scroll for an entry to be visible.
    pub open spec fn reveal_delta(&self, entry: PreparedMenuEntry) -> int {
        let top = entry.y - self.scroll_offset;
        let viewport = self.viewport_of();
        if top < viewport.y {
            top - viewport.y
        } else {
            larger(top + entry.height - viewport.y - viewport.height, 0)
        }
    }

    /// Scrolls an entry into view. Returns whether anything moved.
    pub fn ensure_visible(&mut self, selection: MenuSelection) -> (result: bool)
        requires
            old(self).wf(),
        ensures
            final(self).wf(),
            final(self).scrolled_from(old(self), old(self).revealed_offset(selection)),
            result == (final(self).scroll_offset != old(self).scroll_offset),
    {
        let mut i: usize = 0;
        while i < self.entries.len()
            invariant
                i <= self.entries@.len(),
                self.wf(),
                *self == *old(self),
                entry_selected(self.entries@, selection, 0) == entry_selected(
                    self.entries@,
                    selection,
                    i as int,
                ),
            decreases self.entries@.len() - i,
        {
            let entry = self.entries[i];
            assert(0 <= self.entries@[i as int].y);
            let found = match entry.selection {
                Some(candidate) => candidate == selection,
                None => false,
            };
            if found {
                if selection == MenuSelection::Back {
                    return false;
                }
                let top: i32 = entry.y - self.scroll_offset;
                let bottom: i32 = top + entry.height;
                let viewport = self.viewport();
                let delta: i32 = if top < viewport.y {
                    top - viewport.y
                } else {
                    max_i32(bottom - viewport.y - viewport.height, 0)
                };
                return self.scroll_by(delta);
            }
            i += 1;
        }
        false
    }

    /// The first enabled box, from `start` on, that holds a pixel.
    pub open spec fn hit_at(&self, x: int, y: int, start: int) -> Option<MenuSelection>
        decreases self.hitboxes@.len() - start,
    {
        if start < 0 || start >= self.hitboxes@.len() {
            None
        } else {
            let row = self.hitboxes@[start];
            if row.enabled && row.x <= x < row.x + row.width && row.y <= y < row.y + row.height {
                Some(row.selection)
            } else {
                self.hit_at(x, y, start + 1)
            }
        }
    }

    /// What a click on a pixel selects.
    pub fn selection_at(&self, x: i32, y: i32) -> (result: Option<MenuSelection>)
        ensures
            result == self.hit_at(x as int, y as int, 0),
    {
        let mut i: usize = 0;
        while i < self.hitboxes.len()
            invariant
                i <= self.hitboxes@.len(),
                self.hit_at(x as int, y as int, 0) == self.hit_at(x as int, y as int, i as int),
            decreases self.hitboxes@.len() - i,
        {
            let row = self.hitboxes[i];
            if row.enabled && x >= row.x && (x as i64) < row.x as i64 + row.width as i64 && y
                >= row.y && (y as i64) < row.y as i64 + row.height as i64 {
                return Some(row.selection);
            }
            i += 1;
        }
        None
    }

    /// What can be selected, among the first `count` rows.
    pub open spec fn choices(&self, count: int) -> Seq<MenuSelection>
        decreases count,
    {
        if count <= 0 {
            Seq::empty()
        } else {
            let entry = self.entries@[count - 1];
            let before = self.choices(count - 1);
            match entry.selection {
                Some(selection) => if entry.enabled {
                    before.push(selection)
                } else {
                    before
                },
                None => before,
            }
        }
    }

    /// What is selected after a step from `current`.
    pub open spec fn stepped(&self, current: Option<MenuSelection>, backwards: bool) -> Option<
        MenuSelection,
    > {
        step_in(self.choices(self.entries@.len() as int), current, backwards)
    }

    /// The next selection, from the last back to the first.
    pub fn next_selection(&self, current: Option<MenuSelection>, backwards: bool) -> (result: Option<
        MenuSelection,
    >)
        ensures
            result == self.stepped(current, backwards),
    {
        let mut choices: Vec<MenuSelection> = Vec::new();
        let mut i: usize = 0;
        while i < self.entries.len()
            invariant
                i <= self.entries@.len(),
                choices@ == self.choices(i as int),
            decreases self.entries@.len() - i,
        {
            let entry = self.entries[i];
            if entry.enabled {
                if let Some(selection) = entry.selection {
                    choices.push(selection);
                }
            }
            i += 1;
        }
        step_among(&choices, current, backwards)
    }
}

proof fn lemma_boxes_same(a: &PreparedMenu, b: &PreparedMenu, count: int)
    requires
        a.same_menu(b),
        a.width == b.width,
        a.height == b.height,
        a.scroll_offset == b.scroll_offset,
    ensures
        a.boxes(count) == b.boxes(count),
    decreases count,
{
    if count > 0 {
        lemma_boxes_same(a, b, count - 1);
        assert(a.box_of(a.entries@[count - 1]) == b.box_of(b.entries@[count - 1]));
    }
}

/// The place of the first occurrence of a choice, from `start` on.
pub open spec fn choice_at(choices: Seq<MenuSelection>, wanted: MenuSelection, start: int) -> Option<
    int,
>
    decreases choices.len() - start,
{
    if start < 0 || start >= choices.len() {
        None
    } else if choices[start] == wanted {
        Some(start)
    } else {
        choice_at(choices, wanted, start + 1)
    }
}

/// The place after another one, the first after the last.
pub open spec fn after_place(place: int, count: int) -> int {
    if place + 1 == count {
        0
    } else {
        place + 1
    }
}

/// The place before another one, the last before the first.
pub open spec fn before_place(place: int, count: int) -> int {
    if place == 0 {
        count - 1
    } else {
        place - 1
    }
}

/// The choice after or before `current`; without one, the first or the last.
pub open spec fn step_in(
    choices: Seq<MenuSelection>,
    current: Option<MenuSelection>,
    backwards: bool,
) -> Option<MenuSelection> {
    let count = choices.len() as int;
    let place = match current {
        Some(current) => choice_at(choices, current, 0),
        None => None,
    };
    if count == 0 {
        None
    } else {
        match (place, backwards) {
            (Some(place), true) => Some(choices[before_place(place, count)]),
            (Some(place), false) => Some(choices[after_place(place, count)]),
            (None, true) => Some(choices[count - 1]),
            (None, false) => Some(choices[0]),
        }
    }
}

pub fn step_among(
    choices: &Vec<MenuSelection>,
    current: Option<MenuSelection>,
    backwards: bool,
) -> (result: Option<MenuSelection>)
    ensures
        result == step_in(choices@, current, backwards),
{
    let count: usize = choices.len();
    if count == 0 {
        return None;
    }
    let mut place: Option<usize> = None;
    if let Some(wanted) = current {
        let mut i: usize = 0;
        while i < count && place.is_none()
            invariant
                i <= count,
                count == choices@.len(),
                match place {
                    Some(found) => found < count && choice_at(choices@, wanted, 0) == Some(
                        found as int,
                    ),
                    None => choice_at(choices@, wanted, 0) == choice_at(
                        choices@,
                        wanted,
                        i as int,
                    ),
                },
            decreases count - i,
        {
            if choices[i] == wanted {
                place = Some(i);
            }
            i += 1;
        }
    }
    match place {
        Some(place) => if backwards {
            if place == 0 {
                Some(choices[count - 1])
            } else {
                Some(choices[place - 1])
            }
        } else if place + 1 == count {
            Some(choices[0])
        } else {
            Some(choices[place + 1])
        },
        None => if backwards {
            Some(choices[count - 1])
        } else {
            Some(choices[0])
        },
    }
}

proof fn lemma_choice_at(choices: Seq<MenuSelection>, place: int, start: int)
    requires
        choices.no_duplicates(),
        0 <= start <= place < choices.len(),
    ensures
        choice_at(choices, choices[place], start) == Some(place),
    decreases place - start,
{
    if start < place {
        assert(choices[start] != choices[place]);
        lemma_choice_at(choices, place, start + 1);
    }
}

/// A step back undoes a step forward, and the other way round.
pub proof fn law_steps_undo_each_other(choices: Seq<MenuSelection>, place: int, backwards: bool)
    requires
        choices.no_duplicates(),
        0 <= place < choices.len(),
    ensures
        step_in(choices, step_in(choices, Some(choices[place]), backwards), !backwards) == Some(
            choices[place],
        ),
{
    let count = choices.len() as int;
    lemma_choice_at(choices, place, 0);
    lemma_choice_at(choices, after_place(place, count), 0);
    lemma_choice_at(choices, before_place(place, count), 0);
}

/// Only rows that are enabled are ever selected by a step.
pub proof fn law_steps_select_enabled_rows(menu: &PreparedMenu, count: int, selection: MenuSelection)
    requires
        0 <= count <= menu.entries@.len(),
        menu.choices(count).contains(selection),
    ensures
        exists|i: int|
            0 <= i < count && (#[trigger] menu.entries@[i]).enabled && menu.entries@[i].selection
                == Some(selection),
    decreases count,
{
    if count > 0 {
        let before = menu.choices(count - 1);
        let k = choose|k: int| 0 <= k < menu.choices(count).len() && menu.choices(count)[k] == selection;
        if k < before.len() {
            assert(before[k] == selection);
            assert(before.contains(selection));
            law_steps_select_enabled_rows(menu, count - 1, selection);
        } else {
            assert(menu.entries@[count - 1].enabled);
        }
    }
}

/// The header of a submenu stays where it is when the menu is scrolled.
pub proof fn law_header_does_not_scroll(
    before: &PreparedMenu,
    after: &PreparedMenu,
    entry: PreparedMenuEntry,
)
    requires
        after.same_menu(before),
        after.width == before.width,
        after.height == before.height,
        entry.y < before.content_top,
    ensures
        after.rect_of(entry) == before.rect_of(entry),
        after.box_of(entry) == before.box_of(entry),
{
}

/// After scrolling an entry into view, all of it is visible if it fits.
pub proof fn law_revealed_entries_are_visible(menu: &PreparedMenu, entry: PreparedMenuEntry)
    requires
        menu.laid_out(),
        entry.y >= menu.content_top,
        0 < entry.height,
        entry.y + entry.height + inset_of(menu.scale) <= menu.natural_size.1,
        entry.height <= menu.viewport_of().height,
    ensures
        ({
            let offset = clamped(
                menu.scroll_offset + menu.reveal_delta(entry),
                0,
                menu.scroll_limit(),
            );
            let viewport = menu.viewport_of();
            &&& viewport.y <= entry.y - offset
            &&& entry.y - offset + entry.height <= viewport.y + viewport.height
        }),
{
}

/// The height of a row with a text.
pub open spec fn text_row_height(line_height: i32, scale: u32) -> int {
    larger(line_height + 14, 32) * scale
}

pub open spec fn height_of(row: MenuRow, row_height: int, scale: u32) -> int {
    if row is Separator {
        9 * scale
    } else {
        row_height
    }
}

/// The upper edge of a row.
pub open spec fn row_top(rows: Seq<MenuRow>, row_height: int, scale: u32, index: int) -> int
    decreases index,
{
    if index <= 0 {
        inset_of(scale)
    } else {
        row_top(rows, row_height, scale, index - 1) + height_of(rows[index - 1], row_height, scale)
    }
}

proof fn lemma_row_top(rows: Seq<MenuRow>, row_height: int, scale: u32, index: int)
    requires
        0 <= index <= rows.len(),
        32 * scale <= row_height,
    ensures
        inset_of(scale) <= row_top(rows, row_height, scale, index) <= inset_of(scale) + index
            * row_height,
    decreases index,
{
    if index > 0 {
        lemma_row_top(rows, row_height, scale, index - 1);
        assert(index * row_height == (index - 1) * row_height + row_height) by (nonlinear_arith);
    } else {
        assert(index * row_height == 0) by (nonlinear_arith)
            requires
                index == 0,
        ;
    }
}

/// A row, laid out.
pub open spec fn prepared_row(
    entries: Seq<TrayMenuEntry>,
    rows: Seq<MenuRow>,
    labels: Seq<Size>,
    row_height: int,
    scale: u32,
    index: int,
) -> PreparedMenuEntry {
    let y = row_top(rows, row_height, scale, index) as i32;
    let height = height_of(rows[index], row_height, scale) as i32;
    match rows[index] {
        MenuRow::Back => PreparedMenuEntry {
            selection: Some(MenuSelection::Back),
            enabled: true,
            y,
            height,
            text: Some(labels[index]),
            toggle_type: ToggleType::CannotBeToggled,
            toggle_state: ToggleState::Off,
            submenu: false,
        },
        MenuRow::Separator => PreparedMenuEntry {
            selection: None,
            enabled: false,
            y,
            height,
            text: None,
            toggle_type: ToggleType::CannotBeToggled,
            toggle_state: ToggleState::Off,
            submenu: false,
        },
        MenuRow::Item(place) => {
            let entry = entries[place as int];
            PreparedMenuEntry {
                selection: Some(MenuSelection::Item(entry.id)),
                enabled: entry.enabled,
                y,
                height,
                text: Some(labels[index]),
                toggle_type: entry.toggle_type,
                toggle_state: entry.toggle_state,
                submenu: entry.submenu@.len() > 0,
            }
        },
    }
}

/// What the text of a row is written in; a line has none.
pub open spec fn ink_of_row(entries: Seq<TrayMenuEntry>, row: MenuRow) -> Option<TextInk> {
    match row {
        MenuRow::Back => Some(TextInk::Header),
        MenuRow::Separator => None,
        MenuRow::Item(place) => if entries[place as int].enabled {
            Some(TextInk::Usual)
        } else {
            Some(TextInk::Disabled)
        },
    }
}

pub fn row_ink(entries: &Vec<TrayMenuEntry>, row: MenuRow) -> (result: Option<TextInk>)
    requires
        row matches MenuRow::Item(place) ==> place < entries@.len(),
    ensures
        result == ink_of_row(entries@, row),
{
    match row {
        MenuRow::Back => Some(TextInk::Header),
        MenuRow::Separator => None,
        MenuRow::Item(place) => if entries[place].enabled {
            Some(TextInk::Usual)
        } else {
            Some(TextInk::Disabled)
        },
    }
}

/// Laid out, a row is written in what it was written in before.
pub proof fn law_rows_keep_their_ink(
    entries: Seq<TrayMenuEntry>,
    rows: Seq<MenuRow>,
    labels: Seq<Size>,
    row_height: int,
    scale: u32,
    index: int,
)
    requires
        0 <= index < rows.len(),
        !(rows[index] is Separator),
    ensures
        ink_of_row(entries, rows[index]) == Some(
            prepared_row(entries, rows, labels, row_height, scale, index).text_ink(),
        ),
{
}

/// Whether some entry is a checkbox or a radio button.
pub open spec fn has_toggles(entries: Seq<TrayMenuEntry>) -> bool {
    exists|i: int|
        0 <= i < entries.len() && (#[trigger] entries[i]).toggle_type
            != ToggleType::CannotBeToggled
}

/// The widest of the texts of the first `count` rows.
pub open spec fn widest(rows: Seq<MenuRow>, labels: Seq<Size>, count: int) -> int
    decreases count,
{
    if count <= 0 {
        0
    } else if rows[count - 1] is Separator {
        widest(rows, labels, count - 1)
    } else {
        larger(widest(rows, labels, count - 1), labels[count - 1].width as int)
    }
}

/// The width of the popup of a menu: wide enough for its texts, within limits.
pub open spec fn menu_width(
    rows: Seq<MenuRow>,
    labels: Seq<Size>,
    column: bool,
    titled: bool,
    scale: u32,
) -> int {
    let text = if widest(rows, labels, rows.len() as int) == 0 {
        1
    } else {
        widest(rows, labels, rows.len() as int)
    };
    let chrome: int = if column || titled {
        80
    } else {
        56
    };
    clamped(text + chrome * scale, 220 * scale, 360 * scale) + 24 * scale
}

fn any_toggle(entries: &Vec<TrayMenuEntry>) -> (result: bool)
    ensures
        result == has_toggles(entries@),
{
    let mut i: usize = 0;
    while i < entries.len()
        invariant
            i <= entries@.len(),
            forall|k: int|
                0 <= k < i ==> (#[trigger] entries@[k]).toggle_type == ToggleType::CannotBeToggled,
        decreases entries@.len() - i,
    {
        if entries[i].toggle_type != ToggleType::CannotBeToggled {
            assert(entries@[i as int].toggle_type != ToggleType::CannotBeToggled);
            return true;
        }
        i += 1;
    }
    false
}

fn prepare_row(
    entries: &Vec<TrayMenuEntry>,
    row: MenuRow,
    label: Size,
    y: i32,
    row_height: i32,
    scale: i32,
) -> (result: PreparedMenuEntry)
    requires
        row matches MenuRow::Item(place) ==> place < entries@.len(),
        1 <= scale <= 0x1_0000,
    ensures
        forall|rows: Seq<MenuRow>, labels: Seq<Size>, index: int|
            0 <= index < rows.len() && rows[index] == row && labels[index] == label
                && row_top(rows, row_height as int, scale as u32, index) == y
                ==> result == #[trigger] prepared_row(
                entries@,
                rows,
                labels,
                row_height as int,
                scale as u32,
                index,
            ),
{
    match row {
        MenuRow::Back => PreparedMenuEntry {
            selection: Some(MenuSelection::Back),
            enabled: true,
            y,
            height: row_height,
            text: Some(label),
            toggle_type: ToggleType::CannotBeToggled,
            toggle_state: ToggleState::Off,
            submenu: false,
        },
        MenuRow::Separator => PreparedMenuEntry {
            selection: None,
            enabled: false,
            y,
            height: SEPARATOR_HEIGHT * scale,
            text: None,
            toggle_type: ToggleType::CannotBeToggled,
            toggle_state: ToggleState::Off,
            submenu: false,
        },
        MenuRow::Item(place) => {
            let entry = &entries[place];
            PreparedMenuEntry {
                selection: Some(MenuSelection::Item(entry.id)),
                enabled: entry.enabled,
                y,
                height: row_height,
                text: Some(label),
                toggle_type: entry.toggle_type,
                toggle_state: entry.toggle_state,
                submenu: entry.submenu.len() > 0,
            }
        },
    }
}

/// Whether a menu with so many entries can be laid out.
pub fn menu_fits(count: usize, scale: u32, line_height: i32) -> (result: bool)
    ensures
        result == (scale <= 0x1_0000 && 0 <= line_height <= 1000 && (2 * count + 2)
            * text_row_height(line_height, at_least_one(scale)) + 36 * at_least_one(scale)
            <= LONGEST),
{
    if scale > 0x1_0000 || line_height < 0 || line_height > 1000 {
        return false;
    }
    let scale: u32 = if scale >= 1 {
        scale
    } else {
        1
    };
    let height: i32 = max_i32(line_height + 14, 32);
    assert(0 <= height * scale <= 1014 * 0x1_0000) by (nonlinear_arith)
        requires
            0 <= height <= 1014,
            0 <= scale <= 0x1_0000,
    ;
    let row: u128 = height as u128 * scale as u128;
    assert(0 <= (2 * count + 2) * row <= 0x2_0000_0000_0000_0000 * 0x400_0000) by (nonlinear_arith)
        requires
            0 <= 2 * count + 2 <= 0x2_0000_0000_0000_0000,
            0 <= row <= 0x400_0000,
    ;
    (2 * count as u128 + 2) * row + 36 * scale as u128 <= LONGEST as u128
}

/// Lays out a menu. `labels` holds the size of the text of each of the menu's
/// rows, `line_height` the height of a line of text in logical pixels.
pub fn prepare_menu(
    entries: &Vec<TrayMenuEntry>,
    titled: bool,
    scale: u32,
    line_height: i32,
    labels: &Vec<Size>,
    ellipsis: Size,
) -> (result: PreparedMenu)
    requires
        scale <= 0x1_0000,
        0 <= line_height <= 1000,
        labels@.len() == rows_of(entries@, titled).len(),
        forall|i: int| 0 <= i < labels@.len() ==> (#[trigger] labels@[i]).wf(),
        ellipsis.wf(),
        (2 * entries@.len() + 2) * text_row_height(line_height, at_least_one(scale)) + 36 * at_least_one(scale) <= LONGEST,
    ensures
        result.wf(),
        result.scale == at_least_one(scale),
        result.scroll_offset == 0,
        result.indicator_column == has_toggles(entries@),
        result.ellipsis == ellipsis,
        result.width == result.natural_size.0,
        result.height == result.natural_size.1,
        ({
            let rows = rows_of(entries@, titled);
            let row_height = text_row_height(line_height, at_least_one(scale));
            let bottom = row_top(rows, row_height, at_least_one(scale), rows.len() as int);
            &&& result.entries@ == Seq::new(
                rows.len(),
                |i: int| prepared_row(entries@, rows, labels@, row_height, at_least_one(scale), i),
            )
            &&& result.content_top == row_top(
                rows,
                row_height,
                at_least_one(scale),
                header_rows(titled).len() as int,
            )
            &&& result.width == menu_width(
                rows,
                labels@,
                has_toggles(entries@),
                titled,
                at_least_one(scale),
            )
            &&& result.height == larger(bottom + 18 * at_least_one(scale), 52 * at_least_one(scale))
        }),
{
    let scale: u32 = if scale >= 1 {
        scale
    } else {
        1
    };
    let s: i32 = scale as i32;
    let rows = menu_rows(entries, titled);
    let units: i32 = max_i32(line_height + 14, 32);
    assert(0 <= units * s <= 1014 * 0x1_0000) by (nonlinear_arith)
        requires
            0 <= units <= 1014,
            0 <= s <= 0x1_0000,
    ;
    let row_height: i32 = units * s;
    let ghost height = text_row_height(line_height, scale);
    assert(32 * scale <= height) by (nonlinear_arith)
        requires
            height == units * scale,
            units >= 32,
    ;
    let indicator_column = any_toggle(entries);
    let mut prepared: Vec<PreparedMenuEntry> = Vec::new();
    let mut y: i32 = (SHADOW + INSET) * s;
    let mut text_width: i32 = 0;
    let header: usize = if titled {
        2
    } else {
        0
    };
    let mut content_top: i32 = y;
    let mut i: usize = 0;
    while i < rows.len()
        invariant
            i <= rows@.len(),
            rows@ == rows_of(entries@, titled),
            rows@.len() <= 2 * entries@.len() + 2,
            forall|k: int|
                0 <= k < rows@.len() ==> (#[trigger] rows@[k] matches MenuRow::Item(index) ==> index
                    < entries@.len()),
            labels@.len() == rows@.len(),
            forall|k: int| 0 <= k < labels@.len() ==> (#[trigger] labels@[k]).wf(),
            s == scale,
            1 <= scale <= 0x1_0000,
            row_height == height,
            height == text_row_height(line_height, scale),
            32 * scale <= height,
            (2 * entries@.len() + 2) * height + 36 * scale <= LONGEST,
            y == row_top(rows@, height, scale, i as int),
            header == header_rows(titled).len(),
            content_top == row_top(
                rows@,
                height,
                scale,
                if i < header {
                    i as int
                } else {
                    header as int
                },
            ),
            text_width == widest(rows@, labels@, i as int),
            0 <= text_width <= LONGEST,
            prepared@.len() == i,
            forall|k: int|
                0 <= k < i ==> #[trigger] prepared@[k] == prepared_row(
                    entries@,
                    rows@,
                    labels@,
                    height,
                    scale,
                    k,
                ) && 0 <= prepared@[k].y && 0 < prepared@[k].height && prepared@[k].y
                    + prepared@[k].height <= LONGEST && (prepared@[k].text matches Some(size)
                    ==> size.wf()),
        decreases rows@.len() - i,
    {
        proof {
            lemma_row_top(rows@, height, scale, i as int);
            lemma_row_top(rows@, height, scale, i + 1);
            assert((i + 1) * height <= (2 * entries@.len() + 2) * height) by (nonlinear_arith)
                requires
                    i + 1 <= 2 * entries@.len() + 2,
                    0 <= height,
            ;
        }
        let row = rows[i];
        let label = labels[i];
        assert(labels@[i as int].wf());
        let entry = prepare_row(entries, row, label, y, row_height, s);
        assert(entry == prepared_row(entries@, rows@, labels@, height, scale, i as int));
        if row != MenuRow::Separator {
            text_width = max_i32(text_width, label.width);
        }
        y += entry.height;
        prepared.push(entry);
        i += 1;
        if i <= header {
            content_top = y;
        }
    }
    proof {
        lemma_row_top(rows@, height, scale, rows@.len() as int);
        assert(rows@.len() * height <= (2 * entries@.len() + 2) * height) by (nonlinear_arith)
            requires
                rows@.len() <= 2 * entries@.len() + 2,
                0 <= height,
        ;
        assert(header <= rows@.len());
        lemma_row_top(rows@, height, scale, header as int);
        assert(header * height <= (2 * entries@.len() + 2) * height) by (nonlinear_arith)
            requires
                header <= 2 * entries@.len() + 2,
                0 <= height,
        ;
    }
    let text_width: i32 = if text_width == 0 {
        1
    } else {
        text_width
    };
    let inset: i32 = INSET * s;
    let padding: i32 = TEXT_PADDING * s;
    let frame: i32 = 2 * inset + 2 * padding + INDICATOR_WIDTH * s;
    let chrome: i32 = if indicator_column || titled {
        frame + INDICATOR_WIDTH * s
    } else {
        frame
    };
    let wanted: i32 = text_width + chrome;
    let card_width: i32 = max_i32(min_i32(wanted, 360 * s), 220 * s);
    let shadow: i32 = SHADOW * s;
    let width: u32 = (card_width + 2 * shadow) as u32;
    let height: u32 = max_i32(y + inset + shadow, 2 * shadow + 2 * inset + 16 * s) as u32;
    let mut menu = PreparedMenu {
        width,
        height,
        natural_size: (width, height),
        content_top,
        scroll_offset: 0,
        scale,
        indicator_column,
        entries: prepared,
        hitboxes: Vec::new(),
        ellipsis,
    };
    menu.rebuild_hitboxes();
    assert(menu.entries@ =~= Seq::new(
        rows@.len(),
        |i: int|
            prepared_row(
                entries@,
                rows@,
                labels@,
                text_row_height(line_height, scale),
                scale,
                i,
            ),
    ));
    menu
}

/// The colors of a menu. They are mixed from the colors of the bar.
#[derive(Clone, Copy, Debug, PartialEq, Eq, Structural)]
pub enum MenuInk {
    Shadow,
    Border,
    Background,
    /// A separator's line.
    Line,
    /// The mark of the scroll position.
    Thumb,
    /// The background of the selected row.
    Hover,
    Accent,
    Disabled,
    /// Halfway between the background and the color of a row's marks.
    HalfAccent,
    HalfDisabled,
}

/// One step of drawing a menu. Rows are drawn on a canvas of their own, which is
/// then laid over the popup.
#[derive(Clone, Copy, Debug, PartialEq, Eq, Structural)]
pub enum MenuCommand {
    Clear,
    Rounded { area: PixelRect, radius: i32, ink: MenuInk },
    Fill { area: PixelRect, ink: MenuInk },
    BeginRow,
    RowRounded { area: PixelRect, radius: i32, ink: MenuInk },
    RowFill { area: PixelRect, ink: MenuInk },
    RowChevron { x: i32, y: i32, back: bool, ink: MenuInk },
    /// The tick of a checkbox whose corner is at the given place.
    RowTick { x: i32, y: i32, ink: MenuInk },
    /// The text of the entry at a place.
    RowText { entry: usize, x: i32, y: i32, clip: PixelRect, ink: TextInk },
    /// The mark where a text is cut.
    RowEllipsis { x: i32, y: i32, clip: PixelRect, ink: TextInk },
    EndRow { x: i32, y: i32, clip: PixelRect },
}

pub open spec fn rounded(x: int, y: int, width: int, height: int, radius: int, ink: MenuInk) -> MenuCommand {
    MenuCommand::Rounded { area: rect(x, y, width, height), radius: radius as i32, ink }
}

pub open spec fn row_rounded(x: int, y: int, width: int, height: int, radius: int, ink: MenuInk) -> MenuCommand {
    MenuCommand::RowRounded { area: rect(x, y, width, height), radius: radius as i32, ink }
}

/// The soft shadow: layers from `spread` inwards.
pub open spec fn shadow_layers(width: int, height: int, scale: int, spread: int) -> Seq<MenuCommand>
    decreases spread,
{
    if spread <= 0 {
        Seq::empty()
    } else {
        seq![
            rounded(
                12 * scale - spread * scale,
                12 * scale - spread * scale + 2 * scale,
                width - 24 * scale + 2 * spread * scale,
                height - 24 * scale + 2 * spread * scale,
                (10 + spread) * scale,
                MenuInk::Shadow,
            ),
        ] + shadow_layers(width, height, scale, spread - 1)
    }
}

/// The card that the rows are drawn on, with its shadow and its border.
pub open spec fn card_drawing(width: int, height: int, scale: int) -> Seq<MenuCommand> {
    seq![MenuCommand::Clear] + shadow_layers(width, height, scale, 8) + seq![
        rounded(
            12 * scale,
            12 * scale,
            width - 24 * scale,
            height - 24 * scale,
            10 * scale,
            MenuInk::Border,
        ),
        rounded(
            13 * scale,
            13 * scale,
            width - 26 * scale,
            height - 26 * scale,
            9 * scale,
            MenuInk::Background,
        ),
    ]
}

fn draw_card(width: i32, height: i32, s: i32) -> (result: Vec<MenuCommand>)
    requires
        0 <= width <= LONGEST,
        0 <= height <= LONGEST,
        1 <= s <= 0x1_0000,
    ensures
        result@ == card_drawing(width as int, height as int, s as int),
{
    let mut commands: Vec<MenuCommand> = Vec::new();
    commands.push(MenuCommand::Clear);
    assert(commands@ =~= seq![MenuCommand::Clear]);
    let mut spread: i32 = 8;
    while spread > 0
        invariant
            0 <= spread <= 8,
            0 <= width <= LONGEST,
            0 <= height <= LONGEST,
            1 <= s <= 0x1_0000,
            commands@ + shadow_layers(width as int, height as int, s as int, spread as int) == seq![
                MenuCommand::Clear,
            ] + shadow_layers(width as int, height as int, s as int, 8),
        decreases spread,
    {
        let ghost before = commands@;
        assert(0 <= spread * s <= 8 * 0x1_0000) by (nonlinear_arith)
            requires
                0 <= spread <= 8,
                0 <= s <= 0x1_0000,
        ;
        assert(2 * spread * s == 2 * (spread * s)) by (nonlinear_arith);
        assert((10 + spread) * s == 10 * s + spread * s) by (nonlinear_arith);
        let reach: i32 = spread * s;
        commands.push(
            MenuCommand::Rounded {
                area: PixelRect {
                    x: SHADOW * s - reach,
                    y: SHADOW * s - reach + 2 * s,
                    width: width - 2 * SHADOW * s + 2 * reach,
                    height: height - 2 * SHADOW * s + 2 * reach,
                },
                radius: 10 * s + reach,
                ink: MenuInk::Shadow,
            },
        );
        assert(before + shadow_layers(width as int, height as int, s as int, spread as int)
            =~= commands@ + shadow_layers(width as int, height as int, s as int, spread - 1));
        spread -= 1;
    }
    let ghost before = commands@;
    assert(before + Seq::<MenuCommand>::empty() =~= before);
    commands.push(
        MenuCommand::Rounded {
            area: PixelRect {
                x: SHADOW * s,
                y: SHADOW * s,
                width: width - 2 * SHADOW * s,
                height: height - 2 * SHADOW * s,
            },
            radius: 10 * s,
            ink: MenuInk::Border,
        },
    );
    commands.push(
        MenuCommand::Rounded {
            area: PixelRect {
                x: SHADOW * s + s,
                y: SHADOW * s + s,
                width: width - 2 * SHADOW * s - 2 * s,
                height: height - 2 * SHADOW * s - 2 * s,
            },
            radius: 9 * s,
            ink: MenuInk::Background,
        },
    );
    assert(commands@ =~= card_drawing(width as int, height as int, s as int));
    commands
}

/// How a checkbox or a radio button is drawn.
pub open spec fn toggle_drawing(
    x: int,
    y: int,
    scale: int,
    toggle_type: ToggleType,
    state: ToggleState,
    enabled: bool,
) -> Seq<MenuCommand> {
    let radio = toggle_type == ToggleType::Radio;
    let marked = state != ToggleState::Off;
    let radius = if radio {
        7 * scale
    } else {
        3 * scale
    };
    let ink = if enabled {
        MenuInk::Accent
    } else {
        MenuInk::Disabled
    };
    let faint = if enabled {
        MenuInk::HalfAccent
    } else {
        MenuInk::HalfDisabled
    };
    let frame = seq![
        row_rounded(
            x,
            y,
            14 * scale,
            14 * scale,
            radius,
            if marked {
                ink
            } else {
                faint
            },
        ),
    ];
    let hollow = if !marked || radio {
        frame.push(
            row_rounded(
                x + scale,
                y + scale,
                12 * scale,
                12 * scale,
                radius - scale,
                MenuInk::Background,
            ),
        )
    } else {
        frame
    };
    if state == ToggleState::Indeterminate {
        hollow.push(
            MenuCommand::RowFill {
                area: rect(x + 4 * scale, y + 6 * scale, 6 * scale, 2 * scale),
                ink: if radio {
                    ink
                } else {
                    MenuInk::Background
                },
            },
        )
    } else if marked && radio {
        hollow.push(
            row_rounded(x + 4 * scale, y + 4 * scale, 6 * scale, 6 * scale, 3 * scale, ink),
        )
    } else if marked {
        hollow.push(MenuCommand::RowTick { x: x as i32, y: y as i32, ink: MenuInk::Background })
    } else {
        hollow
    }
}

fn draw_toggle(
    x: i32,
    y: i32,
    s: i32,
    toggle_type: ToggleType,
    state: ToggleState,
    enabled: bool,
    commands: &mut Vec<MenuCommand>,
)
    requires
        -LONGEST <= x <= LONGEST,
        -LONGEST <= y <= LONGEST,
        1 <= s <= 0x1_0000,
    ensures
        final(commands)@ == old(commands)@ + toggle_drawing(
            x as int,
            y as int,
            s as int,
            toggle_type,
            state,
            enabled,
        ),
{
    let ghost before = commands@;
    let radio = toggle_type == ToggleType::Radio;
    let marked = state != ToggleState::Off;
    let radius: i32 = if radio {
        7 * s
    } else {
        3 * s
    };
    let ink = if enabled {
        MenuInk::Accent
    } else {
        MenuInk::Disabled
    };
    let faint = if enabled {
        MenuInk::HalfAccent
    } else {
        MenuInk::HalfDisabled
    };
    commands.push(
        MenuCommand::RowRounded {
            area: PixelRect { x, y, width: 14 * s, height: 14 * s },
            radius,
            ink: if marked {
                ink
            } else {
                faint
            },
        },
    );
    if !marked || radio {
        commands.push(
            MenuCommand::RowRounded {
                area: PixelRect { x: x + s, y: y + s, width: 12 * s, height: 12 * s },
                radius: radius - s,
                ink: MenuInk::Background,
            },
        );
    }
    if state == ToggleState::Indeterminate {
        commands.push(
            MenuCommand::RowFill {
                area: PixelRect { x: x + 4 * s, y: y + 6 * s, width: 6 * s, height: 2 * s },
                ink: if radio {
                    ink
                } else {
                    MenuInk::Background
                },
            },
        );
    } else if marked && radio {
        commands.push(
            MenuCommand::RowRounded {
                area: PixelRect { x: x + 4 * s, y: y + 4 * s, width: 6 * s, height: 6 * s },
                radius: 3 * s,
                ink,
            },
        );
    } else if marked {
        commands.push(MenuCommand::RowTick { x, y, ink: MenuInk::Background });
    }
    assert(commands@ =~= before + toggle_drawing(
        x as int,
        y as int,
        s as int,
        toggle_type,
        state,
        enabled,
    ));
}

/// How a label is drawn: one that does not fit is cut and marked.
pub open spec fn label_drawing(
    entry: usize,
    text: Size,
    ellipsis: Size,
    clip: PixelRect,
    ink: TextInk,
) -> Seq<MenuCommand> {
    let truncated = text.width > clip.width;
    let width = if truncated {
        larger(clip.width - ellipsis.width, 0)
    } else {
        clip.width as int
    };
    let drawn = seq![
        MenuCommand::RowText {
            entry,
            x: clip.x,
            y: (clip.y + half(clip.height - text.height)) as i32,
            clip: rect(clip.x as int, clip.y as int, width, clip.height as int),
            ink,
        },
    ];
    if truncated {
        drawn.push(
            MenuCommand::RowEllipsis {
                x: (clip.x + width) as i32,
                y: (clip.y + half(clip.height - ellipsis.height)) as i32,
                clip,
                ink,
            },
        )
    } else {
        drawn
    }
}

fn draw_label(
    entry: usize,
    text: Size,
    ellipsis: Size,
    clip: PixelRect,
    ink: TextInk,
    commands: &mut Vec<MenuCommand>,
)
    requires
        text.wf(),
        ellipsis.wf(),
        0 <= clip.x <= LONGEST,
        0 <= clip.y <= LONGEST,
        -4 * LONGEST <= clip.width <= LONGEST,
        0 <= clip.height <= LONGEST,
    ensures
        final(commands)@ == old(commands)@ + label_drawing(entry, text, ellipsis, clip, ink),
{
    let ghost before = commands@;
    let truncated = text.width > clip.width;
    let width: i32 = if truncated {
        max_i32(clip.width - ellipsis.width, 0)
    } else {
        clip.width
    };
    commands.push(
        MenuCommand::RowText {
            entry,
            x: clip.x,
            y: clip.y + (clip.height - text.height) / 2,
            clip: PixelRect { x: clip.x, y: clip.y, width, height: clip.height },
            ink,
        },
    );
    if truncated {
        commands.push(
            MenuCommand::RowEllipsis {
                x: clip.x + width,
                y: clip.y + (clip.height - ellipsis.height) / 2,
                clip,
                ink,
            },
        );
    }
    assert(commands@ =~= before + label_drawing(entry, text, ellipsis, clip, ink));
}

impl PreparedMenu {
    /// The background and the mark of the selected row.
    pub open spec fn hover_drawing(&self, width: int, height: int) -> Seq<MenuCommand> {
        let s = self.scale as int;
        seq![
            row_rounded(0, s, width, height - 2 * s, 5 * s, MenuInk::Hover),
            row_rounded(2 * s, half(height - 12 * s), 2 * s, 12 * s, s, MenuInk::Accent),
        ]
    }

    /// The marks of a row: an arrow back, a checkbox, an arrow into a submenu.
    pub open spec fn marks_drawing(&self, entry: PreparedMenuEntry, width: int) -> Seq<MenuCommand> {
        let s = self.scale as int;
        let center = half(entry.height as int);
        let ink = if entry.enabled {
            MenuInk::Accent
        } else {
            MenuInk::Disabled
        };
        let start = if entry.selection == Some(MenuSelection::Back) {
            seq![
                MenuCommand::RowChevron {
                    x: (17 * s) as i32,
                    y: center as i32,
                    back: true,
                    ink,
                },
            ]
        } else if entry.toggle_type != ToggleType::CannotBeToggled {
            toggle_drawing(
                10 * s,
                center - 7 * s,
                s,
                entry.toggle_type,
                entry.toggle_state,
                entry.enabled,
            )
        } else {
            Seq::empty()
        };
        if entry.submenu {
            start.push(
                MenuCommand::RowChevron {
                    x: (width - 14 * s) as i32,
                    y: center as i32,
                    back: false,
                    ink,
                },
            )
        } else {
            start
        }
    }

    /// Where the label of a row may be drawn.
    pub open spec fn label_clip(&self, entry: PreparedMenuEntry, width: int) -> PixelRect {
        let s = self.scale as int;
        let x = if self.indicator_column || entry.selection == Some(MenuSelection::Back) {
            34 * s
        } else {
            10 * s
        };
        rect(x, 0, width - 34 * s - x, entry.height as int)
    }

    /// The line of a separator, if all of it is visible.
    pub open spec fn line_drawing(&self, target: PixelRect, clip: PixelRect) -> Seq<MenuCommand> {
        let s = self.scale as int;
        let line = target.y + half(target.height as int);
        if line >= clip.y && line + s <= clip.y + clip.height {
            seq![
                MenuCommand::Fill {
                    area: rect(target.x + 10 * s, line, target.width - 20 * s, s),
                    ink: MenuInk::Line,
                },
            ]
        } else {
            Seq::empty()
        }
    }

    /// A row with a label: what is drawn on its own canvas, and where that goes.
    pub open spec fn item_drawing(
        &self,
        index: usize,
        entry: PreparedMenuEntry,
        target: PixelRect,
        clip: PixelRect,
        selected: Option<MenuSelection>,
    ) -> Seq<MenuCommand> {
        let hovered = if entry.enabled && selected == entry.selection {
            self.hover_drawing(target.width as int, entry.height as int)
        } else {
            Seq::empty()
        };
        let label = match entry.text {
            Some(text) => label_drawing(
                index,
                text,
                self.ellipsis,
                self.label_clip(entry, target.width as int),
                entry.text_ink(),
            ),
            None => Seq::empty(),
        };
        seq![MenuCommand::BeginRow] + hovered + self.marks_drawing(entry, target.width as int)
            + label + seq![MenuCommand::EndRow { x: target.x, y: target.y, clip }]
    }

    /// How one row is drawn, if some of it is visible.
    pub open spec fn row_drawing(&self, index: int, selected: Option<MenuSelection>) -> Seq<
        MenuCommand,
    > {
        let entry = self.entries@[index];
        let target = self.rect_of(entry);
        let clip = self.clip_of(entry);
        if target.y + target.height <= clip.y || target.y >= clip.y + clip.height {
            Seq::empty()
        } else if entry.selection is None {
            self.line_drawing(target, clip)
        } else {
            self.item_drawing(index as usize, entry, target, clip, selected)
        }
    }

    /// How the first `count` rows are drawn.
    pub open spec fn row_drawings(&self, count: int, selected: Option<MenuSelection>) -> Seq<
        MenuCommand,
    >
        decreases count,
    {
        if count <= 0 {
            Seq::empty()
        } else {
            self.row_drawings(count - 1, selected) + self.row_drawing(count - 1, selected)
        }
    }

    fn draw_line(&self, target: PixelRect, clip: PixelRect, commands: &mut Vec<MenuCommand>)
        requires
            1 <= self.scale <= 0x1_0000,
            0 <= target.x <= LONGEST,
            -LONGEST <= target.y <= LONGEST,
            0 <= target.width <= LONGEST,
            0 <= target.height <= LONGEST,
            -2 * LONGEST <= clip.y + clip.height <= 2 * LONGEST,
        ensures
            final(commands)@ == old(commands)@ + self.line_drawing(target, clip),
    {
        let ghost before = commands@;
        let s: i32 = self.scale as i32;
        let line: i32 = target.y + target.height / 2;
        let padding: i32 = TEXT_PADDING * s;
        if line >= clip.y && line + s <= clip.y + clip.height {
            commands.push(
                MenuCommand::Fill {
                    area: PixelRect {
                        x: target.x + padding,
                        y: line,
                        width: target.width - 2 * padding,
                        height: s,
                    },
                    ink: MenuInk::Line,
                },
            );
        }
        assert(commands@ =~= before + self.line_drawing(target, clip));
    }

    fn draw_hover(&self, width: i32, height: i32, commands: &mut Vec<MenuCommand>)
        requires
            1 <= self.scale <= 0x1_0000,
            0 <= width <= LONGEST,
            0 <= height <= LONGEST,
        ensures
            final(commands)@ == old(commands)@ + self.hover_drawing(width as int, height as int),
    {
        let ghost before = commands@;
        let s: i32 = self.scale as i32;
        commands.push(
            MenuCommand::RowRounded {
                area: PixelRect { x: 0, y: s, width, height: height - 2 * s },
                radius: 5 * s,
                ink: MenuInk::Hover,
            },
        );
        commands.push(
            MenuCommand::RowRounded {
                area: PixelRect {
                    x: 2 * s,
                    y: (height - 12 * s) / 2,
                    width: 2 * s,
                    height: 12 * s,
                },
                radius: s,
                ink: MenuInk::Accent,
            },
        );
        assert(commands@ =~= before + self.hover_drawing(width as int, height as int));
    }

    fn draw_item(
        &self,
        index: usize,
        entry: PreparedMenuEntry,
        target: PixelRect,
        clip: PixelRect,
        selected: Option<MenuSelection>,
        commands: &mut Vec<MenuCommand>,
    )
        requires
            1 <= self.scale <= 0x1_0000,
            0 <= target.width <= LONGEST,
            0 <= entry.height <= LONGEST,
            self.ellipsis.wf(),
            entry.text matches Some(size) ==> size.wf(),
            entry.selection is Some,
        ensures
            final(commands)@ == old(commands)@ + self.item_drawing(
                index,
                entry,
                target,
                clip,
                selected,
            ),
    {
        let ghost before = commands@;
        let s: i32 = self.scale as i32;
        commands.push(MenuCommand::BeginRow);
        assert(commands@ =~= before + seq![MenuCommand::BeginRow]);
        let (is_selected, back) = match (selected, entry.selection) {
            (Some(selected), Some(selection)) => (
                selected == selection,
                selection == MenuSelection::Back,
            ),
            (_, Some(selection)) => (false, selection == MenuSelection::Back),
            _ => (false, false),
        };
        let ghost begun = commands@;
        assert(begun + Seq::<MenuCommand>::empty() =~= begun);
        if entry.enabled && is_selected {
            self.draw_hover(target.width, entry.height, commands);
        }
        self.draw_marks(entry, target.width, commands);
        let ghost marked = commands@;
        assert(marked + Seq::<MenuCommand>::empty() =~= marked);
        if let Some(text) = entry.text {
            let gutter: i32 = TEXT_PADDING * s + INDICATOR_WIDTH * s;
            let text_x: i32 = if self.indicator_column || back {
                gutter
            } else {
                TEXT_PADDING * s
            };
            let label_clip = PixelRect {
                x: text_x,
                y: 0,
                width: target.width - gutter - text_x,
                height: entry.height,
            };
            draw_label(index, text, self.ellipsis, label_clip, entry.ink(), commands);
        }
        commands.push(MenuCommand::EndRow { x: target.x, y: target.y, clip });
        assert(commands@ =~= before + self.item_drawing(index, entry, target, clip, selected));
    }

    fn draw_row(&self, index: usize, selected: Option<MenuSelection>, commands: &mut Vec<MenuCommand>)
        requires
            self.laid_out(),
            index < self.entries@.len(),
        ensures
            final(commands)@ == old(commands)@ + self.row_drawing(index as int, selected),
    {
        assert(commands@ + Seq::<MenuCommand>::empty() =~= commands@);
        let entry = self.entries[index];
        assert(0 <= self.entries@[index as int].y);
        let target = self.row_rect(entry);
        let clip = self.row_clip(entry);
        if target.y + target.height <= clip.y || target.y >= clip.y + clip.height {
            return;
        }
        if entry.selection.is_none() {
            self.draw_line(target, clip, commands);
        } else {
            self.draw_item(index, entry, target, clip, selected, commands);
        }
    }

    fn draw_marks(&self, entry: PreparedMenuEntry, width: i32, commands: &mut Vec<MenuCommand>)
        requires
            1 <= self.scale <= 0x1_0000,
            0 <= width <= LONGEST,
            0 <= entry.height <= LONGEST,
        ensures
            final(commands)@ == old(commands)@ + self.marks_drawing(entry, width as int),
    {
        let ghost before = commands@;
        let s: i32 = self.scale as i32;
        let center: i32 = entry.height / 2;
        let ink = if entry.enabled {
            MenuInk::Accent
        } else {
            MenuInk::Disabled
        };
        let back = match entry.selection {
            Some(selection) => selection == MenuSelection::Back,
            None => false,
        };
        if back {
            commands.push(
                MenuCommand::RowChevron { x: TEXT_PADDING * s + 7 * s, y: center, back: true, ink },
            );
        } else if entry.toggle_type != ToggleType::CannotBeToggled {
            draw_toggle(
                TEXT_PADDING * s,
                center - 7 * s,
                s,
                entry.toggle_type,
                entry.toggle_state,
                entry.enabled,
                commands,
            );
        }
        if entry.submenu {
            commands.push(
                MenuCommand::RowChevron { x: width - 14 * s, y: center, back: false, ink },
            );
        }
        assert(commands@ =~= before + self.marks_drawing(entry, width as int));
    }

    /// How the menu is drawn, but for the mark of the scroll position.
    pub open spec fn drawing(&self, selected: Option<MenuSelection>) -> Seq<MenuCommand> {
        card_drawing(self.width as int, self.height as int, self.scale as int) + self.row_drawings(
            self.entries@.len() as int,
            selected,
        )
    }

    /// Plans the drawing of the menu with a selection.
    pub fn draw_menu(&self, selected: Option<MenuSelection>) -> (result: Vec<MenuCommand>)
        requires
            self.laid_out(),
        ensures
            result@ == self.drawing(selected),
    {
        let mut commands = draw_card(self.width as i32, self.height as i32, self.scale as i32);
        let ghost card = commands@;
        assert(card + Seq::<MenuCommand>::empty() =~= card);
        let mut i: usize = 0;
        while i < self.entries.len()
            invariant
                i <= self.entries@.len(),
                self.laid_out(),
                commands@ == card + self.row_drawings(i as int, selected),
            decreases self.entries@.len() - i,
        {
            self.draw_row(i, selected, &mut commands);
            assert(commands@ =~= card + self.row_drawings(i + 1, selected));
            i += 1;
        }
        commands
    }

    /// The height of the mark of the scroll position, from the height that the
    /// visible share of the menu has on its track.
    pub open spec fn thumb_height(&self, share: int) -> int {
        smaller(larger(share, 16 * self.scale), self.viewport_of().height as int)
    }

    /// Where the mark of the scroll position starts: it moves over the rest of its
    /// track as the menu is scrolled.
    pub open spec fn thumb_top(&self, share: int) -> int {
        self.content_top + (self.viewport_of().height - self.thumb_height(share))
            * self.scroll_offset / self.scroll_limit()
    }

    /// The mark of the scroll position, which only a menu that is cut has. `share`
    /// is the height of the visible share of the menu on its track.
    pub fn scroll_thumb(&self, share: i32) -> (result: Option<MenuCommand>)
        requires
            self.laid_out(),
        ensures
            result == (if self.scroll_limit() > 0 {
                Some(
                    rounded(
                        self.width - 16 * self.scale,
                        self.thumb_top(share as int),
                        2 * self.scale,
                        self.thumb_height(share as int),
                        self.scale as int,
                        MenuInk::Thumb,
                    ),
                )
            } else {
                None
            }),
    {
        let limit = self.max_scroll();
        if limit <= 0 {
            return None;
        }
        let s: i32 = self.scale as i32;
        let track: i32 = self.viewport().height;
        let height = min_i32(max_i32(share, 16 * s), track);
        proof {
            lemma_travel(track - height, self.scroll_offset as int, limit as int);
            law_scroll_marks_stay_on_their_track(self, share as int);
        }
        let travelled: i64 = (track - height) as i64 * self.scroll_offset as i64 / limit as i64;
        Some(
            MenuCommand::Rounded {
                area: PixelRect {
                    x: self.width as i32 - 16 * s,
                    y: self.content_top + travelled as i32,
                    width: 2 * s,
                    height,
                },
                radius: s,
                ink: MenuInk::Thumb,
            },
        )
    }
}

proof fn lemma_travel(free: int, offset: int, limit: int)
    requires
        0 <= free <= LONGEST,
        0 <= offset <= limit,
        0 < limit,
    ensures
        0 <= free * offset <= free * limit,
        0 <= free * offset / limit <= free,
        free * limit <= LONGEST * limit,
{
    assert(0 <= free * offset <= free * limit) by (nonlinear_arith)
        requires
            0 <= free,
            0 <= offset <= limit,
    ;
    assert(0 <= free * offset / limit <= free) by (nonlinear_arith)
        requires
            0 <= free * offset <= free * limit,
            0 < limit,
    ;
    assert(free * limit <= LONGEST * limit) by (nonlinear_arith)
        requires
            free <= LONGEST,
            0 < limit,
    ;
}

/// The mark of the scroll position stays on its track, and it stands at the ends
/// of the track when the menu is scrolled to its ends.
pub proof fn law_scroll_marks_stay_on_their_track(menu: &PreparedMenu, share: int)
    requires
        menu.laid_out(),
        menu.scroll_limit() > 0,
    ensures
        0 <= menu.thumb_height(share),
        menu.content_top <= menu.thumb_top(share),
        menu.thumb_top(share) + menu.thumb_height(share) <= menu.content_top
            + menu.viewport_of().height,
        menu.scroll_offset == 0 ==> menu.thumb_top(share) == menu.content_top,
        menu.scroll_offset == menu.scroll_limit() ==> menu.thumb_top(share) + menu.thumb_height(
            share,
        ) == menu.content_top + menu.viewport_of().height,
{
    let free = menu.viewport_of().height - menu.thumb_height(share);
    lemma_travel(free, menu.scroll_offset as int, menu.scroll_limit());
    if menu.scroll_offset == 0 {
        assert(free * 0 / menu.scroll_limit() == 0) by (nonlinear_arith)
            requires
                menu.scroll_limit() > 0,
        ;
    }
    if menu.scroll_offset == menu.scroll_limit() {
        let limit = menu.scroll_limit();
        assert(free * limit / limit == free) by (nonlinear_arith)
            requires
                limit > 0,
        ;
    }
}

/// A selection changes the drawing of enabled rows only.
pub proof fn law_disabled_rows_are_not_highlighted(
    menu: &PreparedMenu,
    index: int,
    selected: Option<MenuSelection>,
)
    requires
        0 <= index < menu.entries@.len(),
        !menu.entries@[index].enabled,
    ensures
        menu.row_drawing(index, selected) == menu.row_drawing(index, None),
{
}

/// At its natural size every row of a menu is visible as a whole.
pub proof fn law_natural_menus_show_every_row(menu: &PreparedMenu, index: int)
    requires
        menu.laid_out(),
        menu.height == menu.natural_size.1,
        menu.width > 2 * inset_of(menu.scale),
        0 <= index < menu.entries@.len(),
        menu.entries@[index].y + menu.entries@[index].height + inset_of(menu.scale) <= menu.height,
    ensures
        match menu.entries@[index].selection {
            Some(selection) => menu.box_of(menu.entries@[index]) == Some(
                MenuHitbox {
                    selection,
                    enabled: menu.entries@[index].enabled,
                    x: inset_of(menu.scale) as i32,
                    y: menu.entries@[index].y,
                    width: (menu.width - 2 * inset_of(menu.scale)) as i32,
                    height: menu.entries@[index].height,
                },
            ),
            None => menu.box_of(menu.entries@[index]) is None,
        },
{
    assert(0 <= menu.entries@[index].y);
}

} // verus!
