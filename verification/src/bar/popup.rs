//! The popup below a bar: where it stands, and what keys and clicks do to it.

use vstd::prelude::*;

use crate::render::layout::{larger, smaller};
use crate::render::menu::MenuSelection;
use crate::render::popup::PreparedPopup;
use crate::tray::{copy_entries, entry_views, TrayMenuEntry, BTN_LEFT, BTN_RIGHT};

verus! {

/// What a click or a key does to a menu.
#[derive(Clone, Copy, Debug, PartialEq, Eq, Structural)]
pub enum MenuInputAction {
    Nothing,
    Dismiss,
    Back,
    OpenSubmenu(i32),
    Activate(i32),
}

/// What a button does at a selection: the right one goes back or closes the
/// menu, the left one takes the selection.
pub open spec fn input_action(
    button: u32,
    selection: Option<MenuSelection>,
    has_submenu: bool,
    can_go_back: bool,
) -> MenuInputAction {
    if button == BTN_RIGHT {
        if can_go_back {
            MenuInputAction::Back
        } else {
            MenuInputAction::Dismiss
        }
    } else if button == BTN_LEFT {
        match selection {
            Some(MenuSelection::Back) => MenuInputAction::Back,
            Some(MenuSelection::Item(id)) => if has_submenu {
                MenuInputAction::OpenSubmenu(id)
            } else {
                MenuInputAction::Activate(id)
            },
            None => MenuInputAction::Nothing,
        }
    } else {
        MenuInputAction::Nothing
    }
}

pub fn menu_input_action(
    button: u32,
    selection: Option<MenuSelection>,
    has_submenu: bool,
    can_go_back: bool,
) -> (result: MenuInputAction)
    ensures
        result == input_action(button, selection, has_submenu, can_go_back),
{
    if button == BTN_RIGHT {
        if can_go_back {
            MenuInputAction::Back
        } else {
            MenuInputAction::Dismiss
        }
    } else if button == BTN_LEFT {
        match selection {
            Some(MenuSelection::Back) => MenuInputAction::Back,
            Some(MenuSelection::Item(id)) => if has_submenu {
                MenuInputAction::OpenSubmenu(id)
            } else {
                MenuInputAction::Activate(id)
            },
            None => MenuInputAction::Nothing,
        }
    } else {
        MenuInputAction::Nothing
    }
}

/// A length of at least one, and no longer than the output where that is known.
pub open spec fn bounded_length(preferred: int, output_bound: int) -> int {
    if output_bound == 0 {
        larger(preferred, 1)
    } else {
        smaller(larger(preferred, 1), output_bound)
    }
}

pub fn bounded_dimension(preferred: u32, output_bound: u32) -> (result: u32)
    ensures
        result == bounded_length(preferred as int, output_bound as int),
{
    let least: u32 = if preferred > 1 {
        preferred
    } else {
        1
    };
    if output_bound != 0 && least > output_bound {
        output_bound
    } else {
        least
    }
}

/// Where the top of a popup stands: below the bar, or higher where it would
/// reach over the output's end.
pub open spec fn top_of(panel_height: int, popup_height: int, output_height: int) -> int {
    if output_height == 0 {
        panel_height
    } else {
        smaller(panel_height, larger(output_height - popup_height, 0))
    }
}

pub fn menu_top(panel_height: u32, menu_height: u32, output_height: u32) -> (result: i32)
    requires
        panel_height <= i32::MAX,
    ensures
        result == top_of(panel_height as int, menu_height as int, output_height as int),
{
    if output_height == 0 {
        return panel_height as i32;
    }
    let free: u32 = if output_height > menu_height {
        output_height - menu_height
    } else {
        0
    };
    if free < panel_height {
        free as i32
    } else {
        panel_height as i32
    }
}

/// Where the left edge of a popup stands: at its anchor, or around it, and
/// within the output.
pub open spec fn left_of(anchor: int, width: int, output_width: int, centered: bool) -> int {
    let wanted: int = if centered {
        anchor - width / 2
    } else {
        anchor
    };
    smaller(larger(wanted, 0), larger(output_width - width, 0))
}

fn menu_left(anchor: i32, width: u32, output_width: u32, centered: bool) -> (result: i32)
    requires
        output_width <= i32::MAX,
    ensures
        result == left_of(anchor as int, width as int, output_width as int, centered),
{
    let wanted: i64 = if centered {
        anchor as i64 - (width / 2) as i64
    } else {
        anchor as i64
    };
    let free: i64 = if output_width > width {
        (output_width - width) as i64
    } else {
        0
    };
    let least: i64 = if wanted > 0 {
        wanted
    } else {
        0
    };
    if least > free {
        free as i32
    } else {
        least as i32
    }
}

/// A product that stops at the largest number.
pub open spec fn saturated(value: int) -> u32 {
    if value > u32::MAX {
        u32::MAX
    } else {
        value as u32
    }
}

fn saturating_product(left: u32, right: u32) -> (result: u32)
    ensures
        result == saturated(left * right),
{
    assert(left * right <= 0xffff_fffe_0000_0001) by (nonlinear_arith)
        requires
            left <= 0xffff_ffff,
            right <= 0xffff_ffff,
    ;
    let product: u64 = left as u64 * right as u64;
    if product > u32::MAX as u64 {
        u32::MAX
    } else {
        product as u32
    }
}

/// Whether a popup is another one, cut to the room below the bar, as far as
/// that is known.
pub open spec fn fitted(
    after: &PreparedPopup,
    before: &PreparedPopup,
    scale: u32,
    width: int,
    height: int,
) -> bool {
    if width > 0 && height > 0 {
        after.constrained_from(before, saturated(width * scale), saturated(height * scale))
    } else {
        *after == *before
    }
}

/// Cuts a popup to the room that there is for it, if it is known.
pub fn constrain_menu(popup: &mut PreparedPopup, scale: u32, width: u32, height: u32)
    requires
        old(popup).wf(),
    ensures
        final(popup).wf(),
        fitted(final(popup), old(popup), scale, width as int, height as int),
{
    if width > 0 && height > 0 {
        let room_width: u32 = saturating_product(width, scale);
        let room_height: u32 = saturating_product(height, scale);
        popup.constrain(room_width, room_height);
    }
}

/// Where a popup is to stand, in logical pixels.
#[derive(Clone, Copy, Debug, PartialEq, Eq, Structural)]
pub struct Placement {
    pub left: i32,
    pub top: i32,
    pub width: u32,
    pub height: u32,
}

/// A quotient, rounded up.
pub open spec fn ceiling(dividend: int, divisor: int) -> int {
    (dividend + divisor - 1) / divisor
}

fn divide_up(dividend: u32, divisor: u32) -> (result: u32)
    requires
        divisor >= 1,
    ensures
        result == ceiling(dividend as int, divisor as int),
{
    let wide: u64 = dividend as u64 + divisor as u64 - 1;
    let quotient: u64 = wide / divisor as u64;
    assert(quotient <= dividend) by (nonlinear_arith)
        requires
            quotient == (dividend + divisor - 1) / (divisor as int),
            divisor >= 1,
            dividend >= 0,
    ;
    quotient as u32
}

/// The place of a popup of a size, in physical pixels, at its anchor.
pub open spec fn placement_of(
    extent: (u32, u32),
    centered: bool,
    frame: PopupFrame,
    panel_height: u32,
) -> Placement {
    let width = bounded_length(
        ceiling(extent.0 as int, frame.scale as int),
        frame.output_width as int,
    );
    let height = bounded_length(
        ceiling(extent.1 as int, frame.scale as int),
        frame.output_height as int,
    );
    Placement {
        left: left_of(frame.anchor_x as int, width, frame.output_width as int, centered) as i32,
        top: top_of(panel_height as int, height, frame.output_height as int) as i32,
        width: width as u32,
        height: height as u32,
    }
}

/// The surface of a popup: its anchor on an output, and the state of its buffers.
#[derive(Clone, Copy, Debug, PartialEq, Eq, Structural)]
pub struct PopupFrame {
    pub anchor_x: i32,
    pub output_width: u32,
    pub output_height: u32,
    pub reposition_token: u32,
    pub logical_width: u32,
    pub logical_height: u32,
    pub scale: u32,
    pub configured: bool,
    pub dirty: bool,
    pub frame_pending: bool,
}

impl PopupFrame {
    pub open spec fn wf(self) -> bool {
        self.scale >= 1 && self.output_width <= i32::MAX && self.reposition_token >= 1
    }

    /// The frame with its content to be drawn, if it is not already.
    pub open spec fn marked(self, changed: bool) -> PopupFrame {
        PopupFrame { dirty: self.dirty || changed, ..self }
    }
}

fn place(extent: (u32, u32), centered: bool, frame: &PopupFrame, panel_height: u32) -> (result:
    Placement)
    requires
        frame.wf(),
        panel_height <= i32::MAX,
    ensures
        result == placement_of(extent, centered, *frame, panel_height),
{
    let width: u32 = bounded_dimension(divide_up(extent.0, frame.scale), frame.output_width);
    let height: u32 = bounded_dimension(divide_up(extent.1, frame.scale), frame.output_height);
    Placement {
        left: menu_left(frame.anchor_x, width, frame.output_width, centered),
        top: menu_top(panel_height, height, frame.output_height),
        width,
        height,
    }
}

/// A popup stays on its output, as far as its size is known.
pub proof fn law_popups_stay_on_their_output(
    extent: (u32, u32),
    centered: bool,
    frame: PopupFrame,
    panel_height: u32,
)
    requires
        frame.wf(),
        panel_height <= i32::MAX,
        frame.output_height <= i32::MAX,
    ensures
        ({
            let place = placement_of(extent, centered, frame, panel_height);
            &&& place.width >= 1 && place.height >= 1
            &&& frame.output_width > 0 ==> 0 <= place.left && place.left + place.width
                <= frame.output_width
            &&& frame.output_height > 0 ==> 0 <= place.top && place.top + place.height
                <= frame.output_height
            &&& place.top <= panel_height
        }),
{
    let width = ceiling(extent.0 as int, frame.scale as int);
    let height = ceiling(extent.1 as int, frame.scale as int);
    assert(0 <= width <= extent.0 && 0 <= height <= extent.1) by (nonlinear_arith)
        requires
            width == (extent.0 + frame.scale - 1) / (frame.scale as int),
            height == (extent.1 + frame.scale - 1) / (frame.scale as int),
            frame.scale >= 1,
    ;
}

/// A page that a submenu was opened from.
#[derive(Debug)]
pub struct MenuPage {
    pub title: Option<String>,
    pub entries: Vec<TrayMenuEntry>,
}

/// The pages of a tray menu: the shown one, and those that led to it.
#[derive(Debug)]
pub struct TrayPages {
    pub address: String,
    pub menu_path: String,
    pub entries: Vec<TrayMenuEntry>,
    pub pages: Vec<MenuPage>,
    pub title: Option<String>,
}

/// Whether an item has a submenu, from a place of the page on.
pub open spec fn item_opens(entries: Seq<TrayMenuEntry>, id: i32, start: int) -> bool
    decreases entries.len() - start,
{
    if start < 0 || start >= entries.len() {
        false
    } else {
        (entries[start].id == id && entries[start].submenu@.len() > 0) || item_opens(
            entries,
            id,
            start + 1,
        )
    }
}

/// Whether a selection has a submenu.
pub open spec fn selection_opens(
    entries: Seq<TrayMenuEntry>,
    selection: Option<MenuSelection>,
) -> bool {
    match selection {
        Some(MenuSelection::Item(id)) => item_opens(entries, id, 0),
        _ => false,
    }
}

/// The first entry of an item that can be opened, from a place of the page on.
pub open spec fn opened_entry(entries: Seq<TrayMenuEntry>, id: i32, start: int) -> Option<int>
    decreases entries.len() - start,
{
    if start < 0 || start >= entries.len() {
        None
    } else if entries[start].id == id && entries[start].enabled && entries[start].submenu@.len()
        > 0 {
        Some(start)
    } else {
        opened_entry(entries, id, start + 1)
    }
}

impl TrayPages {
    /// Whether another page of the same menu is shown.
    pub open spec fn same_menu(&self, other: &TrayPages) -> bool {
        self.address == other.address && self.menu_path == other.menu_path
    }

    pub fn has_submenu(&self, selection: Option<MenuSelection>) -> (result: bool)
        ensures
            result == selection_opens(self.entries@, selection),
    {
        let id = match selection {
            Some(MenuSelection::Item(id)) => id,
            _ => return false,
        };
        let mut i: usize = 0;
        while i < self.entries.len()
            invariant
                i <= self.entries@.len(),
                selection == Some(MenuSelection::Item(id)),
                item_opens(self.entries@, id, 0) == item_opens(self.entries@, id, i as int),
            decreases self.entries@.len() - i,
        {
            if self.entries[i].id == id && self.entries[i].submenu.len() > 0 {
                return true;
            }
            i += 1;
        }
        false
    }

    /// Goes back to the page before, and tells whether there was one.
    pub fn go_back(&mut self) -> (result: bool)
        ensures
            final(self).same_menu(old(self)),
            result == (old(self).pages@.len() > 0),
            if result {
                &&& final(self).pages@ == old(self).pages@.drop_last()
                &&& final(self).title == old(self).pages@.last().title
                &&& final(self).entries == old(self).pages@.last().entries
            } else {
                *final(self) == *old(self)
            },
    {
        if self.pages.len() == 0 {
            return false;
        }
        match self.pages.pop() {
            Some(page) => {
                self.title = page.title;
                self.entries = page.entries;
                true
            },
            None => false,
        }
    }

    fn find_submenu(&self, id: i32) -> (result: Option<usize>)
        ensures
            match result {
                Some(place) => place < self.entries@.len() && opened_entry(self.entries@, id, 0)
                    == Some(place as int),
                None => opened_entry(self.entries@, id, 0) is None,
            },
    {
        let mut i: usize = 0;
        while i < self.entries.len()
            invariant
                i <= self.entries@.len(),
                opened_entry(self.entries@, id, 0) == opened_entry(self.entries@, id, i as int),
            decreases self.entries@.len() - i,
        {
            if self.entries[i].id == id && self.entries[i].enabled && self.entries[i].submenu.len()
                > 0 {
                return Some(i);
            }
            i += 1;
        }
        None
    }

    /// Opens the submenu of an item, and tells whether it has one that can be opened.
    pub fn open_submenu(&mut self, id: i32) -> (result: bool)
        ensures
            final(self).same_menu(old(self)),
            match opened_entry(old(self).entries@, id, 0) {
                Some(place) => {
                    &&& result
                    &&& final(self).pages@ == old(self).pages@.push(
                        (MenuPage { title: old(self).title, entries: old(self).entries }),
                    )
                    &&& (final(self).title matches Some(title) && title@ == old(
                        self,
                    ).entries@[place].label@)
                    &&& entry_views(final(self).entries@) == entry_views(
                        old(self).entries@[place].submenu@,
                    )
                },
                None => !result && *final(self) == *old(self),
            },
    {
        let place = match self.find_submenu(id) {
            Some(place) => place,
            None => return false,
        };
        let label = self.entries[place].label.clone();
        let mut entries = copy_entries(&self.entries[place].submenu);
        let mut title = Some(label);
        std::mem::swap(&mut self.entries, &mut entries);
        std::mem::swap(&mut self.title, &mut title);
        self.pages.push(MenuPage { title, entries });
        true
    }
}

/// Going back from a submenu restores the page that it was opened from.
pub proof fn law_back_undoes_a_submenu(
    before: TrayPages,
    inside: TrayPages,
    after: TrayPages,
)
    requires
        inside.pages@ == before.pages@.push(
            (MenuPage { title: before.title, entries: before.entries }),
        ),
        after.pages@ == inside.pages@.drop_last(),
        after.title == inside.pages@.last().title,
        after.entries == inside.pages@.last().entries,
    ensures
        after.pages@ == before.pages@,
        after.title == before.title,
        after.entries == before.entries,
{
    assert(after.pages@ =~= before.pages@);
}

/// A key that a popup listens to.
#[derive(Clone, Copy, Debug, PartialEq, Eq, Structural)]
pub enum PopupKey {
    Up,
    Down,
    Tab,
    Left,
    Right,
    PageUp,
    PageDown,
    Home,
    Enter,
    Escape,
    Other,
}

/// What is left to do once a popup has seen an event.
#[derive(Clone, Copy, Debug, PartialEq, Eq, Structural)]
pub enum PopupEffect {
    Nothing,
    Close,
    /// The page of the menu has changed: it is to be laid out anew.
    Relayout,
    /// The popup is to be closed and an item of its application activated.
    Activate(i32),
    /// The calendar is to show a month so much later.
    ShowMonth(i32),
    /// The calendar is to show the current month.
    ShowToday,
    /// The figures of the card are to be updated.
    Refresh,
}

/// A popup that is open.
#[derive(Debug)]
pub struct OpenPopup {
    /// The pages of a tray menu.
    pub tray: Option<TrayPages>,
    pub prepared: PreparedPopup,
    pub selected: Option<MenuSelection>,
    pub frame: PopupFrame,
}

/// What taking a selection of a calendar or a card leads to.
pub open spec fn taken(prepared: PreparedPopup, selection: Option<MenuSelection>) -> PopupEffect {
    match selection {
        Some(MenuSelection::Item(item)) => match prepared {
            PreparedPopup::Calendar(_) => if item == 0 {
                PopupEffect::ShowToday
            } else {
                PopupEffect::ShowMonth(item)
            },
            PreparedPopup::Network(_) | PreparedPopup::Weather(_) => PopupEffect::Refresh,
            PreparedPopup::Tray(_) => PopupEffect::Nothing,
        },
        _ => PopupEffect::Nothing,
    }
}

/// Which month a turn of the wheel leads to.
pub open spec fn wheel_effect(prepared: PreparedPopup, delta: i32) -> PopupEffect {
    if prepared is Calendar && delta > 0 {
        PopupEffect::ShowMonth(1)
    } else if prepared is Calendar && delta < 0 {
        PopupEffect::ShowMonth(-1i32)
    } else {
        PopupEffect::Nothing
    }
}

/// What a key leads to in a calendar.
pub open spec fn calendar_key(
    prepared: PreparedPopup,
    selected: Option<MenuSelection>,
    key: PopupKey,
) -> PopupEffect {
    match key {
        PopupKey::Escape => PopupEffect::Close,
        PopupKey::Left | PopupKey::PageUp => PopupEffect::ShowMonth(-1i32),
        PopupKey::Right | PopupKey::PageDown => PopupEffect::ShowMonth(1),
        PopupKey::Home => PopupEffect::ShowToday,
        PopupKey::Enter => taken(prepared, selected),
        _ => PopupEffect::Nothing,
    }
}

/// What a key leads to in a card.
pub open spec fn card_key(
    prepared: PreparedPopup,
    selected: Option<MenuSelection>,
    key: PopupKey,
) -> PopupEffect {
    match key {
        PopupKey::Escape => PopupEffect::Close,
        PopupKey::Enter => taken(prepared, selected),
        _ => PopupEffect::Nothing,
    }
}

/// The popup's part of an action: what is left to do, and the pages after it.
pub open spec fn menu_effect(
    after: &TrayPages,
    before: &TrayPages,
    action: MenuInputAction,
    effect: PopupEffect,
) -> bool {
    match action {
        MenuInputAction::Nothing => effect == PopupEffect::Nothing && *after == *before,
        MenuInputAction::Dismiss => effect == PopupEffect::Close && *after == *before,
        MenuInputAction::Activate(id) => effect == PopupEffect::Activate(id) && *after == *before,
        MenuInputAction::Back => if before.pages@.len() > 0 {
            &&& effect == PopupEffect::Relayout
            &&& after.same_menu(before)
            &&& after.pages@ == before.pages@.drop_last()
            &&& after.title == before.pages@.last().title
            &&& after.entries == before.pages@.last().entries
        } else {
            effect == PopupEffect::Close && *after == *before
        },
        MenuInputAction::OpenSubmenu(id) => match opened_entry(before.entries@, id, 0) {
            Some(place) => {
                &&& effect == PopupEffect::Relayout
                &&& after.same_menu(before)
                &&& after.pages@ == before.pages@.push(
                    (MenuPage { title: before.title, entries: before.entries }),
                )
                &&& (after.title matches Some(title) && title@ == before.entries@[place].label@)
                &&& entry_views(after.entries@) == entry_views(before.entries@[place].submenu@)
            },
            None => effect == PopupEffect::Nothing && *after == *before,
        },
    }
}

/// What a key does to a tray menu, apart from moving the selection.
pub open spec fn menu_key_action(
    pages: TrayPages,
    selected: Option<MenuSelection>,
    key: PopupKey,
) -> MenuInputAction {
    match key {
        PopupKey::Escape => MenuInputAction::Dismiss,
        PopupKey::Left => if pages.pages@.len() > 0 {
            MenuInputAction::Back
        } else {
            MenuInputAction::Nothing
        },
        PopupKey::Right => match selected {
            Some(MenuSelection::Item(id)) => if item_opens(pages.entries@, id, 0) {
                MenuInputAction::OpenSubmenu(id)
            } else {
                MenuInputAction::Nothing
            },
            _ => MenuInputAction::Nothing,
        },
        PopupKey::Enter => input_action(
            BTN_LEFT,
            selected,
            selection_opens(pages.entries@, selected),
            pages.pages@.len() > 0,
        ),
        _ => MenuInputAction::Nothing,
    }
}

fn apply_menu_action(pages: &mut TrayPages, action: MenuInputAction) -> (result: PopupEffect)
    ensures
        menu_effect(final(pages), old(pages), action, result),
{
    match action {
        MenuInputAction::Nothing => PopupEffect::Nothing,
        MenuInputAction::Dismiss => PopupEffect::Close,
        MenuInputAction::Activate(id) => PopupEffect::Activate(id),
        MenuInputAction::Back => if pages.go_back() {
            PopupEffect::Relayout
        } else {
            PopupEffect::Close
        },
        MenuInputAction::OpenSubmenu(id) => if pages.open_submenu(id) {
            PopupEffect::Relayout
        } else {
            PopupEffect::Nothing
        },
    }
}

fn menu_key(pages: &mut TrayPages, selected: Option<MenuSelection>, key: PopupKey) -> (result:
    PopupEffect)
    ensures
        menu_effect(
            final(pages),
            old(pages),
            menu_key_action(*old(pages), selected, key),
            result,
        ),
{
    let action = match key {
        PopupKey::Escape => MenuInputAction::Dismiss,
        PopupKey::Left => if pages.pages.len() > 0 {
            MenuInputAction::Back
        } else {
            MenuInputAction::Nothing
        },
        PopupKey::Right => match selected {
            Some(MenuSelection::Item(id)) => if pages.has_submenu(selected) {
                MenuInputAction::OpenSubmenu(id)
            } else {
                MenuInputAction::Nothing
            },
            _ => MenuInputAction::Nothing,
        },
        PopupKey::Enter => {
            let has_submenu = pages.has_submenu(selected);
            menu_input_action(BTN_LEFT, selected, has_submenu, pages.pages.len() > 0)
        },
        _ => MenuInputAction::Nothing,
    };
    apply_menu_action(pages, action)
}

fn take_selection(prepared: &PreparedPopup, selection: Option<MenuSelection>) -> (result:
    PopupEffect)
    ensures
        result == taken(*prepared, selection),
{
    match selection {
        Some(MenuSelection::Item(item)) => match prepared {
            PreparedPopup::Calendar(_) => if item == 0 {
                PopupEffect::ShowToday
            } else {
                PopupEffect::ShowMonth(item)
            },
            PreparedPopup::Network(_) => PopupEffect::Refresh,
            PreparedPopup::Weather(_) => PopupEffect::Refresh,
            PreparedPopup::Tray(_) => PopupEffect::Nothing,
        },
        _ => PopupEffect::Nothing,
    }
}

fn same_selection(left: Option<MenuSelection>, right: Option<MenuSelection>) -> (result: bool)
    ensures
        result == (left == right),
{
    match (left, right) {
        (Some(left), Some(right)) => left == right,
        (None, None) => true,
        _ => false,
    }
}

/// Whether a key moves the selection.
pub open spec fn moves_selection(prepared: PreparedPopup, key: PopupKey) -> bool {
    key == PopupKey::Up || key == PopupKey::Down || (key == PopupKey::Tab && !(prepared is Tray))
}

impl OpenPopup {
    pub open spec fn wf(&self) -> bool {
        &&& self.prepared.wf()
        &&& self.frame.wf()
        &&& (self.tray is Some) == (self.prepared is Tray)
    }

    /// Whether the popup is another one with another selection.
    pub open spec fn selects(&self, other: &OpenPopup, selected: Option<MenuSelection>) -> bool {
        &&& self.tray == other.tray
        &&& self.prepared == other.prepared
        &&& self.selected == selected
        &&& self.frame == other.frame.marked(selected != other.selected)
    }

    /// Whether the popup is another one with the selection that follows.
    pub open spec fn steps(&self, other: &OpenPopup, backwards: bool) -> bool {
        let next = other.prepared.stepped(other.selected, backwards);
        &&& self.tray == other.tray
        &&& self.selected == next
        &&& match next {
            Some(selection) => self.prepared.revealed_from(&other.prepared, selection),
            None => self.prepared == other.prepared,
        }
        &&& self.frame == other.frame.marked(
            next != other.selected || self.prepared.offset() != other.prepared.offset(),
        )
    }

    /// Opens a popup at its anchor, cut to the room that there is for it.
    pub fn open(
        tray: Option<TrayPages>,
        prepared: PreparedPopup,
        anchor_x: i32,
        output_width: u32,
        output_height: u32,
        scale: u32,
        panel_height: u32,
    ) -> (result: (Self, Placement))
        requires
            prepared.wf(),
            (tray is Some) == (prepared is Tray),
            scale >= 1,
            output_width <= i32::MAX,
            panel_height <= i32::MAX,
        ensures
            result.0.wf(),
            result.0.tray == tray,
            fitted(
                &result.0.prepared,
                &prepared,
                scale,
                output_width as int,
                larger(output_height - panel_height, 0),
            ),
            result.0.selected is None,
            result.0.frame == (PopupFrame {
                anchor_x,
                output_width,
                output_height,
                reposition_token: 1,
                logical_width: result.1.width,
                logical_height: result.1.height,
                scale,
                configured: false,
                dirty: true,
                frame_pending: false,
            }),
            result.1 == placement_of(
                result.0.prepared.extent(),
                result.0.prepared is Calendar || result.0.prepared is Weather,
                result.0.frame,
                panel_height,
            ),
    {
        let mut prepared = prepared;
        let room: u32 = if output_height > panel_height {
            output_height - panel_height
        } else {
            0
        };
        constrain_menu(&mut prepared, scale, output_width, room);
        let mut frame = PopupFrame {
            anchor_x,
            output_width,
            output_height,
            reposition_token: 1,
            logical_width: 0,
            logical_height: 0,
            scale,
            configured: false,
            dirty: true,
            frame_pending: false,
        };
        let placement = place(prepared.size(), prepared.centered(), &frame, panel_height);
        frame.logical_width = placement.width;
        frame.logical_height = placement.height;
        (OpenPopup { tray, prepared, selected: None, frame }, placement)
    }

    /// Shows another layout at the same anchor.
    pub fn lay_out(&mut self, prepared: PreparedPopup, panel_height: u32) -> (result: Placement)
        requires
            old(self).wf(),
            prepared.wf(),
            (prepared is Tray) == (old(self).prepared is Tray),
            panel_height <= i32::MAX,
        ensures
            final(self).wf(),
            final(self).tray == old(self).tray,
            fitted(
                &final(self).prepared,
                &prepared,
                old(self).frame.scale,
                old(self).frame.output_width as int,
                larger(old(self).frame.output_height - panel_height, 0),
            ),
            final(self).selected is None,
            final(self).frame == (PopupFrame {
                logical_width: result.width,
                logical_height: result.height,
                dirty: true,
                ..old(self).frame
            }),
            result == placement_of(
                final(self).prepared.extent(),
                final(self).prepared is Calendar || final(self).prepared is Weather,
                old(self).frame,
                panel_height,
            ),
    {
        let mut prepared = prepared;
        let room: u32 = if self.frame.output_height > panel_height {
            self.frame.output_height - panel_height
        } else {
            0
        };
        constrain_menu(&mut prepared, self.frame.scale, self.frame.output_width, room);
        let placement = place(prepared.size(), prepared.centered(), &self.frame, panel_height);
        self.frame.logical_width = placement.width;
        self.frame.logical_height = placement.height;
        self.frame.dirty = true;
        self.prepared = prepared;
        self.selected = None;
        placement
    }

    /// The token of the next move; tokens start over at one.
    pub fn next_token(&mut self) -> (result: u32)
        requires
            old(self).wf(),
        ensures
            final(self).wf(),
            result == old(self).frame.reposition_token,
            *final(self) == (OpenPopup {
                frame: PopupFrame {
                    reposition_token: if result == u32::MAX {
                        1
                    } else {
                        (result + 1) as u32
                    },
                    ..old(self).frame
                },
                ..*old(self)
            }),
    {
        let token: u32 = self.frame.reposition_token;
        self.frame.reposition_token = if token == u32::MAX {
            1
        } else {
            token + 1
        };
        token
    }

    fn select(&mut self, selected: Option<MenuSelection>)
        requires
            old(self).wf(),
        ensures
            final(self).wf(),
            final(self).selects(old(self), selected),
    {
        if !same_selection(self.selected, selected) {
            self.selected = selected;
            self.frame.dirty = true;
        }
    }

    fn step(&mut self, backwards: bool)
        requires
            old(self).wf(),
        ensures
            final(self).wf(),
            final(self).steps(old(self), backwards),
    {
        let next = self.prepared.next_selection(self.selected, backwards);
        self.select(next);
        if let Some(selection) = next {
            if self.prepared.ensure_visible(selection) {
                self.frame.dirty = true;
            }
        }
    }

    /// A key was pressed.
    pub fn press_key(&mut self, key: PopupKey) -> (result: PopupEffect)
        requires
            old(self).wf(),
        ensures
            final(self).wf(),
            if moves_selection(old(self).prepared, key) {
                &&& result == PopupEffect::Nothing
                &&& final(self).steps(old(self), key == PopupKey::Up)
            } else {
                &&& final(self).prepared == old(self).prepared
                &&& final(self).selected == old(self).selected
                &&& final(self).frame == old(self).frame
                &&& match old(self).prepared {
                    PreparedPopup::Tray(_) => menu_effect(
                        &final(self).tray->0,
                        &old(self).tray->0,
                        menu_key_action(old(self).tray->0, old(self).selected, key),
                        result,
                    ),
                    PreparedPopup::Calendar(_) => {
                        &&& final(self).tray == old(self).tray
                        &&& result == calendar_key(
                            old(self).prepared,
                            old(self).selected,
                            key,
                        )
                    },
                    _ => {
                        &&& final(self).tray == old(self).tray
                        &&& result == card_key(old(self).prepared, old(self).selected, key)
                    },
                }
            },
    {
        let is_tray = self.prepared.is_tray();
        if key == PopupKey::Up || key == PopupKey::Down || (key == PopupKey::Tab && !is_tray) {
            self.step(key == PopupKey::Up);
            return PopupEffect::Nothing;
        }
        if is_tray {
            let selected = self.selected;
            return match &mut self.tray {
                Some(pages) => menu_key(pages, selected, key),
                None => PopupEffect::Nothing,
            };
        }
        match key {
            PopupKey::Escape => PopupEffect::Close,
            PopupKey::Enter => take_selection(&self.prepared, self.selected),
            _ => match &self.prepared {
                PreparedPopup::Calendar(_) => match key {
                    PopupKey::Left | PopupKey::PageUp => PopupEffect::ShowMonth(-1i32),
                    PopupKey::Right | PopupKey::PageDown => PopupEffect::ShowMonth(1),
                    PopupKey::Home => PopupEffect::ShowToday,
                    _ => PopupEffect::Nothing,
                },
                _ => PopupEffect::Nothing,
            },
        }
    }

    /// A button was pressed at a pixel of the popup.
    pub fn click(&mut self, button: u32, x: i32, y: i32) -> (result: PopupEffect)
        requires
            old(self).wf(),
        ensures
            final(self).wf(),
            final(self).prepared == old(self).prepared,
            final(self).selected == old(self).selected,
            final(self).frame == old(self).frame,
            ({
                let selection = old(self).prepared.selected_at(x as int, y as int);
                match old(self).tray {
                    Some(pages) => final(self).tray matches Some(after) && menu_effect(
                        &after,
                        &pages,
                        input_action(
                            button,
                            selection,
                            selection_opens(pages.entries@, selection),
                            pages.pages@.len() > 0,
                        ),
                        result,
                    ),
                    None => {
                        &&& final(self).tray is None
                        &&& result == (if button == BTN_RIGHT {
                            PopupEffect::Close
                        } else if button == BTN_LEFT {
                            taken(old(self).prepared, selection)
                        } else {
                            PopupEffect::Nothing
                        })
                    },
                }
            }),
    {
        let selection = self.prepared.selection_at(x, y);
        match &mut self.tray {
            Some(pages) => {
                let has_submenu = pages.has_submenu(selection);
                let action = menu_input_action(
                    button,
                    selection,
                    has_submenu,
                    pages.pages.len() > 0,
                );
                apply_menu_action(pages, action)
            },
            None => if button == BTN_RIGHT {
                PopupEffect::Close
            } else if button == BTN_LEFT {
                take_selection(&self.prepared, selection)
            } else {
                PopupEffect::Nothing
            },
        }
    }

    /// The pointer is over a pixel of the popup.
    pub fn pointer_moved(&mut self, x: i32, y: i32)
        requires
            old(self).wf(),
        ensures
            final(self).wf(),
            final(self).selects(
                old(self),
                old(self).prepared.selected_at(x as int, y as int),
            ),
    {
        let selection = self.prepared.selection_at(x, y);
        self.select(selection);
    }

    /// The pointer has left the popup.
    pub fn pointer_left(&mut self)
        requires
            old(self).wf(),
        ensures
            final(self).wf(),
            final(self).selects(old(self), None),
    {
        self.select(None);
    }

    /// The keyboard has entered the popup.
    pub fn keyboard_entered(&mut self)
        requires
            old(self).wf(),
        ensures
            final(self).wf(),
            final(self).selects(old(self), old(self).prepared.stepped(None, false)),
    {
        let selection = self.prepared.next_selection(None, false);
        self.select(selection);
    }

    /// The wheel was turned by so many pixels.
    pub fn scroll(&mut self, delta: i32) -> (result: PopupEffect)
        requires
            old(self).wf(),
        ensures
            final(self).wf(),
            result == wheel_effect(old(self).prepared, delta),
            final(self).tray == old(self).tray,
            final(self).prepared.scrolled_from(&old(self).prepared, delta),
            final(self).selected == (if final(self).prepared.offset() != old(
                self,
            ).prepared.offset() {
                None
            } else {
                old(self).selected
            }),
            final(self).frame == old(self).frame.marked(
                final(self).prepared.offset() != old(self).prepared.offset(),
            ),
    {
        if self.prepared.scroll_by(delta) {
            self.selected = None;
            self.frame.dirty = true;
        }
        match &self.prepared {
            PreparedPopup::Calendar(_) => if delta > 0 {
                PopupEffect::ShowMonth(1)
            } else if delta < 0 {
                PopupEffect::ShowMonth(-1i32)
            } else {
                PopupEffect::Nothing
            },
            _ => PopupEffect::Nothing,
        }
    }

    /// The compositor has given the popup a size; a negative one leaves it as it
    /// is. Tells whether the buffers no longer fit.
    pub fn configure(&mut self, width: i32, height: i32) -> (result: bool)
        requires
            old(self).wf(),
        ensures
            final(self).wf(),
            final(self).tray == old(self).tray,
            final(self).selected == old(self).selected,
            ({
                let new_width: u32 = if width >= 0 {
                    width as u32
                } else {
                    old(self).frame.logical_width
                };
                let new_height: u32 = if height >= 0 {
                    height as u32
                } else {
                    old(self).frame.logical_height
                };
                &&& result == (new_width != old(self).frame.logical_width || new_height != old(
                    self,
                ).frame.logical_height)
                &&& final(self).prepared.constrained_from(
                    &old(self).prepared,
                    saturated(new_width * old(self).frame.scale),
                    saturated(new_height * old(self).frame.scale),
                )
                &&& final(self).frame == (PopupFrame {
                    logical_width: new_width,
                    logical_height: new_height,
                    configured: new_width > 0 && new_height > 0,
                    dirty: true,
                    ..old(self).frame
                })
            }),
    {
        let new_width: u32 = if width >= 0 {
            width as u32
        } else {
            self.frame.logical_width
        };
        let new_height: u32 = if height >= 0 {
            height as u32
        } else {
            self.frame.logical_height
        };
        let changed = new_width != self.frame.logical_width || new_height
            != self.frame.logical_height;
        let room_width: u32 = saturating_product(new_width, self.frame.scale);
        let room_height: u32 = saturating_product(new_height, self.frame.scale);
        self.prepared.constrain(room_width, room_height);
        self.frame.logical_width = new_width;
        self.frame.logical_height = new_height;
        self.frame.configured = new_width > 0 && new_height > 0;
        self.frame.dirty = true;
        changed
    }

    /// The output has another scale: the popup is to be laid out anew.
    pub fn rescale(&mut self, factor: i32)
        requires
            old(self).wf(),
        ensures
            final(self).wf(),
            *final(self) == (OpenPopup {
                frame: PopupFrame {
                    scale: if factor > 1 {
                        factor as u32
                    } else {
                        1
                    },
                    ..old(self).frame
                },
                ..*old(self)
            }),
    {
        self.frame.scale = if factor > 1 {
            factor as u32
        } else {
            1
        };
    }
}

/// Escape closes every popup, and no other key closes a card or the calendar.
pub proof fn law_escape_closes(
    prepared: PreparedPopup,
    pages: TrayPages,
    after: TrayPages,
    selected: Option<MenuSelection>,
    effect: PopupEffect,
)
    ensures
        calendar_key(prepared, selected, PopupKey::Escape) == PopupEffect::Close,
        card_key(prepared, selected, PopupKey::Escape) == PopupEffect::Close,
        menu_effect(
            &after,
            &pages,
            menu_key_action(pages, selected, PopupKey::Escape),
            effect,
        ) ==> effect == PopupEffect::Close,
        forall|key: PopupKey|
            key != PopupKey::Escape ==> #[trigger] calendar_key(prepared, selected, key)
                != PopupEffect::Close && card_key(prepared, selected, key) != PopupEffect::Close,
{
}

/// Enter takes the selection as a left click does.
pub proof fn law_enter_takes_the_selection(
    prepared: PreparedPopup,
    pages: TrayPages,
    selected: Option<MenuSelection>,
)
    ensures
        calendar_key(prepared, selected, PopupKey::Enter) == taken(prepared, selected),
        card_key(prepared, selected, PopupKey::Enter) == taken(prepared, selected),
        menu_key_action(pages, selected, PopupKey::Enter) == input_action(
            BTN_LEFT,
            selected,
            selection_opens(pages.entries@, selected),
            pages.pages@.len() > 0,
        ),
{
}

} // verus!
