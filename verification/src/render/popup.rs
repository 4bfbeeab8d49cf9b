//! The popup that is open: a tray menu, the calendar or a card.

use vstd::prelude::*;

use crate::date::Date;
use crate::render::calendar::{controls, PreparedCalendar};
use crate::render::menu::{
    clamped, step_in, MenuCommand, MenuHitbox, MenuSelection, PreparedMenu,
};
use crate::render::network::PreparedNetwork;
use crate::render::pixels::PixelRect;
use crate::render::weather::PreparedWeather;

verus! {

#[derive(Debug)]
pub enum PreparedPopup {
    Tray(PreparedMenu),
    Calendar(PreparedCalendar),
    Network(PreparedNetwork),
    Weather(PreparedWeather),
}

/// What is drawn of a popup: all of a menu, or what comes over the prepared
/// drawing of another one.
#[derive(Debug)]
pub enum PopupDrawing {
    Menu(Vec<MenuCommand>),
    Frame(Option<PixelRect>),
}

impl PreparedPopup {
    pub open spec fn wf(&self) -> bool {
        match *self {
            PreparedPopup::Tray(menu) => menu.wf(),
            PreparedPopup::Calendar(calendar) => calendar.wf(),
            PreparedPopup::Network(card) => card.wf(),
            PreparedPopup::Weather(card) => card.wf(),
        }
    }

    pub fn is_weather(&self) -> (result: bool)
        ensures
            result == (self is Weather),
    {
        matches!(self, PreparedPopup::Weather(_))
    }

    /// Whether the popup stands below the middle of the bar.
    pub fn centered(&self) -> (result: bool)
        ensures
            result == (self is Calendar || self is Weather),
    {
        matches!(self, PreparedPopup::Calendar(_) | PreparedPopup::Weather(_))
    }

    pub fn is_tray(&self) -> (result: bool)
        ensures
            result == (self is Tray),
    {
        matches!(self, PreparedPopup::Tray(_))
    }

    pub fn is_network(&self) -> (result: bool)
        ensures
            result == (self is Network),
    {
        matches!(self, PreparedPopup::Network(_))
    }

    /// The size of the popup.
    pub open spec fn extent(&self) -> (u32, u32) {
        match *self {
            PreparedPopup::Tray(menu) => (menu.width, menu.height),
            PreparedPopup::Calendar(calendar) => (calendar.width, calendar.height),
            PreparedPopup::Network(network) => (network.card.width, network.card.height),
            PreparedPopup::Weather(weather) => (weather.card.width, weather.card.height),
        }
    }

    pub fn size(&self) -> (result: (u32, u32))
        ensures
            result == self.extent(),
    {
        match self {
            PreparedPopup::Tray(menu) => menu.size(),
            PreparedPopup::Calendar(calendar) => calendar.size(),
            PreparedPopup::Network(card) => card.size(),
            PreparedPopup::Weather(card) => card.size(),
        }
    }

    /// Whether this is another popup, cut to a size.
    pub open spec fn constrained_from(
        &self,
        other: &PreparedPopup,
        width: u32,
        height: u32,
    ) -> bool {
        match (*self, *other) {
            (PreparedPopup::Tray(after), PreparedPopup::Tray(before)) => after.constrained_from(
                &before,
                width,
                height,
            ),
            (
                PreparedPopup::Calendar(after),
                PreparedPopup::Calendar(before),
            ) => after.constrained_from(&before, width, height),
            (
                PreparedPopup::Network(after),
                PreparedPopup::Network(before),
            ) => after.card.constrained_from(&before.card, width, height),
            (
                PreparedPopup::Weather(after),
                PreparedPopup::Weather(before),
            ) => after.card.constrained_from(&before.card, width, height),
            _ => false,
        }
    }

    /// Gives the popup the room that there is for it.
    pub fn constrain(&mut self, width: u32, height: u32)
        requires
            old(self).wf(),
        ensures
            final(self).wf(),
            final(self).constrained_from(old(self), width, height),
    {
        match self {
            PreparedPopup::Tray(menu) => menu.constrain(width, height),
            PreparedPopup::Calendar(calendar) => calendar.constrain(width, height),
            PreparedPopup::Network(card) => card.constrain(width, height),
            PreparedPopup::Weather(card) => card.constrain(width, height),
        }
    }

    /// What a pixel selects.
    pub open spec fn selected_at(&self, x: int, y: int) -> Option<MenuSelection> {
        match *self {
            PreparedPopup::Tray(menu) => menu.hit_at(x, y, 0),
            PreparedPopup::Calendar(calendar) => calendar.control_at(x, y, 0),
            PreparedPopup::Network(network) => network.card.selected_at(x, y),
            PreparedPopup::Weather(weather) => weather.card.selected_at(x, y),
        }
    }

    pub fn selection_at(&self, x: i32, y: i32) -> (result: Option<MenuSelection>)
        requires
            self.wf(),
        ensures
            result == self.selected_at(x as int, y as int),
    {
        match self {
            PreparedPopup::Tray(menu) => menu.selection_at(x, y),
            PreparedPopup::Calendar(calendar) => calendar.selection_at(x, y),
            PreparedPopup::Network(card) => card.selection_at(x, y),
            PreparedPopup::Weather(card) => card.selection_at(x, y),
        }
    }

    /// The selection that follows another one.
    pub open spec fn stepped(&self, current: Option<MenuSelection>, backwards: bool) -> Option<
        MenuSelection,
    > {
        match *self {
            PreparedPopup::Tray(menu) => menu.stepped(current, backwards),
            PreparedPopup::Calendar(_) => step_in(controls(), current, backwards),
            PreparedPopup::Network(network) => network.card.only_selection(),
            PreparedPopup::Weather(weather) => weather.card.only_selection(),
        }
    }

    pub fn next_selection(&self, current: Option<MenuSelection>, backwards: bool) -> (result: Option<
        MenuSelection,
    >)
        requires
            self.wf(),
        ensures
            result == self.stepped(current, backwards),
    {
        match self {
            PreparedPopup::Tray(menu) => menu.next_selection(current, backwards),
            PreparedPopup::Calendar(calendar) => calendar.next_selection(current, backwards),
            PreparedPopup::Network(card) => card.next_selection(),
            PreparedPopup::Weather(card) => card.next_selection(),
        }
    }

    /// How far a popup is scrolled.
    pub open spec fn offset(&self) -> int {
        match *self {
            PreparedPopup::Tray(menu) => menu.scroll_offset as int,
            _ => 0,
        }
    }

    /// Whether this is another popup, scrolled on.
    pub open spec fn scrolled_from(&self, other: &PreparedPopup, delta: i32) -> bool {
        match *other {
            PreparedPopup::Tray(before) => *self matches PreparedPopup::Tray(after)
                && after.scrolled_from(
                &before,
                clamped(before.scroll_offset + delta, 0, before.scroll_limit()),
            ),
            _ => *self == *other,
        }
    }

    /// Whether this is another popup, scrolled so that a selection is visible.
    pub open spec fn revealed_from(
        &self,
        other: &PreparedPopup,
        selection: MenuSelection,
    ) -> bool {
        match *other {
            PreparedPopup::Tray(before) => *self matches PreparedPopup::Tray(after)
                && after.scrolled_from(&before, before.revealed_offset(selection)),
            _ => *self == *other,
        }
    }

    /// Scrolls a menu as far as it reaches, and tells whether anything moved.
    /// Other popups do not scroll.
    pub fn scroll_by(&mut self, delta: i32) -> (result: bool)
        requires
            old(self).wf(),
        ensures
            final(self).wf(),
            final(self).scrolled_from(old(self), delta),
            result == (final(self).offset() != old(self).offset()),
    {
        match self {
            PreparedPopup::Tray(menu) => menu.scroll_by(delta),
            _ => false,
        }
    }

    /// Scrolls a menu so that a selection is visible, and tells whether
    /// anything moved.
    pub fn ensure_visible(&mut self, selection: MenuSelection) -> (result: bool)
        requires
            old(self).wf(),
        ensures
            final(self).wf(),
            final(self).revealed_from(old(self), selection),
            result == (final(self).offset() != old(self).offset()),
    {
        match self {
            PreparedPopup::Tray(menu) => menu.ensure_visible(selection),
            _ => false,
        }
    }

    /// The shown month and today, of a calendar.
    pub fn calendar_dates(&self) -> (result: Option<(Date, Date)>)
        ensures
            result == (match *self {
                PreparedPopup::Calendar(calendar) => Some((calendar.month, calendar.today)),
                _ => None,
            }),
    {
        match self {
            PreparedPopup::Calendar(calendar) => Some((calendar.month, calendar.today)),
            _ => None,
        }
    }

    /// Plans the drawing of a popup with a selection, and gives the boxes that
    /// can be clicked.
    pub fn draw_popup(&self, selected: Option<MenuSelection>) -> (result: (
        PopupDrawing,
        Vec<MenuHitbox>,
    ))
        requires
            self.wf(),
        ensures
            match *self {
                PreparedPopup::Tray(menu) => {
                    &&& result.0 matches PopupDrawing::Menu(commands) && commands@ == menu.drawing(
                        selected,
                    )
                    &&& result.1@ == menu.hitboxes@
                },
                PreparedPopup::Calendar(calendar) => {
                    &&& result.0 == PopupDrawing::Frame(calendar.hover_drawing(selected))
                    &&& result.1@ == calendar.visible_boxes(3)
                },
                PreparedPopup::Network(network) => {
                    &&& result.0 == PopupDrawing::Frame(network.card.frame_of(selected))
                    &&& result.1@ == network.card.visible_buttons()
                },
                PreparedPopup::Weather(weather) => {
                    &&& result.0 == PopupDrawing::Frame(weather.card.frame_of(selected))
                    &&& result.1@ == weather.card.visible_buttons()
                },
            },
    {
        match self {
            PreparedPopup::Tray(menu) => {
                let commands = menu.draw_menu(selected);
                (PopupDrawing::Menu(commands), copy_boxes(&menu.hitboxes))
            },
            PreparedPopup::Calendar(calendar) => {
                let (frame, boxes) = calendar.draw_calendar(selected);
                (PopupDrawing::Frame(frame), boxes)
            },
            PreparedPopup::Network(card) => {
                let (boxes, frame) = card.draw_network(selected);
                (PopupDrawing::Frame(frame), boxes)
            },
            PreparedPopup::Weather(card) => {
                let (boxes, frame) = card.draw_weather(selected);
                (PopupDrawing::Frame(frame), boxes)
            },
        }
    }
}

fn copy_boxes(boxes: &Vec<MenuHitbox>) -> (result: Vec<MenuHitbox>)
    ensures
        result@ == boxes@,
{
    let mut copy: Vec<MenuHitbox> = Vec::new();
    let mut i: usize = 0;
    while i < boxes.len()
        invariant
            i <= boxes@.len(),
            copy@ == boxes@.take(i as int),
        decreases boxes@.len() - i,
    {
        copy.push(boxes[i]);
        assert(boxes@.take(i + 1) =~= boxes@.take(i as int).push(boxes@[i as int]));
        i += 1;
    }
    assert(boxes@.take(i as int) =~= boxes@);
    copy
}

/// A popup keeps its kind, and is never larger than the room for it, nor empty.
pub proof fn law_popups_fit_their_room(
    before: PreparedPopup,
    after: PreparedPopup,
    width: u32,
    height: u32,
)
    requires
        before.wf(),
        after.constrained_from(&before, width, height),
    ensures
        (after is Tray) == (before is Tray),
        (after is Calendar) == (before is Calendar),
        (after is Network) == (before is Network),
        (after is Weather) == (before is Weather),
        1 <= after.extent().0 && (width > 0 ==> after.extent().0 <= width),
        1 <= after.extent().1 && (height > 0 ==> after.extent().1 <= height),
{
}

} // verus!
