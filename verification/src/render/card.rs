//! Information cards: popups with texts, icons and one button that refreshes them.

use vstd::prelude::*;

use crate::network::NetworkKind;
use crate::render::bar::{rect, Size};
use crate::render::calendar::{box_holds, clip_hitbox, clipped_box, holds};
use crate::render::layout::{half, larger, smaller, LONGEST};
use crate::render::menu::{MenuHitbox, MenuSelection};
use crate::render::pixels::PixelRect;
use crate::weather::Condition;

verus! {

/// An icon of a card.
#[derive(Clone, Copy, Debug, PartialEq, Eq, Structural)]
pub enum CardIcon {
    Network(NetworkKind),
    Weather { condition: Condition, night: bool },
    /// The arrow of the button, which has its own place.
    Refresh,
}

/// One step of drawing a card.
#[derive(Debug)]
pub enum CardCommand {
    Fill { area: PixelRect, color: [u8; 4] },
    Outline { area: PixelRect, width: i32, color: [u8; 4] },
    Icon { icon: CardIcon, x: i32, y: i32, size: u32, color: [u8; 4] },
    /// A text in the middle of an area's height, at its left or right edge, and
    /// cut to the area.
    Text { text: String, area: PixelRect, size: u32, color: [u8; 4], right: bool },
    /// A text at a place, cut to an area.
    Placed { text: String, x: i32, y: i32, area: PixelRect, size: u32, color: [u8; 4] },
}

/// The view of a step.
pub ghost enum CardView {
    Fill { area: PixelRect, color: [u8; 4] },
    Outline { area: PixelRect, width: i32, color: [u8; 4] },
    Icon { icon: CardIcon, x: i32, y: i32, size: u32, color: [u8; 4] },
    Text { text: Seq<char>, area: PixelRect, size: u32, color: [u8; 4], right: bool },
    Placed { text: Seq<char>, x: i32, y: i32, area: PixelRect, size: u32, color: [u8; 4] },
}

impl View for CardCommand {
    type V = CardView;

    open spec fn view(&self) -> CardView {
        match *self {
            CardCommand::Fill { area, color } => CardView::Fill { area, color },
            CardCommand::Outline { area, width, color } => CardView::Outline {
                area,
                width,
                color,
            },
            CardCommand::Icon { icon, x, y, size, color } => CardView::Icon {
                icon,
                x,
                y,
                size,
                color,
            },
            CardCommand::Text { text, area, size, color, right } => CardView::Text {
                text: text@,
                area,
                size,
                color,
                right,
            },
            CardCommand::Placed { text, x, y, area, size, color } => CardView::Placed {
                text: text@,
                x,
                y,
                area,
                size,
                color,
            },
        }
    }
}

/// The views of some steps.
pub open spec fn card_views(commands: Seq<CardCommand>) -> Seq<CardView> {
    Seq::new(commands.len(), |i: int| commands[i]@)
}

/// Appends a step.
pub fn push_command(commands: &mut Vec<CardCommand>, command: CardCommand)
    ensures
        card_views(final(commands)@) == card_views(old(commands)@).push(command@),
{
    commands.push(command);
    assert(card_views(commands@) =~= card_views(old(commands)@).push(command@));
}

/// An area in the card's own units.
pub open spec fn area_of(x: int, y: int, width: int, height: int, scale: int) -> PixelRect {
    rect(x * scale, y * scale, width * scale, height * scale)
}

pub fn card_area(x: i32, y: i32, width: i32, height: i32, scale: i32) -> (result: PixelRect)
    requires
        0 <= x <= 480,
        0 <= y <= 480,
        0 <= width <= 480,
        0 <= height <= 480,
        1 <= scale <= 0x1_0000,
    ensures
        result == area_of(x as int, y as int, width as int, height as int, scale as int),
        0 <= result.x <= 0x1e0_0000,
        0 <= result.y <= 0x1e0_0000,
        0 <= result.width <= 0x1e0_0000,
        0 <= result.height <= 0x1e0_0000,
{
    assert(0 <= x * scale <= 0x1e0_0000 && 0 <= y * scale <= 0x1e0_0000 && 0 <= width * scale
        <= 0x1e0_0000 && 0 <= height * scale <= 0x1e0_0000) by (nonlinear_arith)
        requires
            0 <= x <= 480,
            0 <= y <= 480,
            0 <= width <= 480,
            0 <= height <= 480,
            1 <= scale <= 0x1_0000,
    ;
    PixelRect { x: x * scale, y: y * scale, width: width * scale, height: height * scale }
}

/// The step of a text in an area in the card's own units.
pub open spec fn text_step(
    text: Seq<char>,
    area: PixelRect,
    size: u32,
    color: [u8; 4],
    right: bool,
) -> CardView {
    CardView::Text { text, area, size, color, right }
}

pub fn push_text(
    commands: &mut Vec<CardCommand>,
    text: String,
    area: PixelRect,
    size: u32,
    color: [u8; 4],
    right: bool,
)
    ensures
        card_views(final(commands)@) == card_views(old(commands)@).push(
            text_step(text@, area, size, color, right),
        ),
{
    push_command(commands, CardCommand::Text { text, area, size, color, right });
}

/// Where a text of a size stands in its area.
pub open spec fn text_place(area: PixelRect, size: Size, right: bool) -> (int, int) {
    (
        if right {
            area.x + area.width - size.width
        } else {
            area.x as int
        },
        area.y + half(area.height - size.height),
    )
}

pub fn place_text(area: PixelRect, size: Size, right: bool) -> (result: (i32, i32))
    requires
        size.wf(),
        0 <= area.x <= LONGEST,
        0 <= area.y <= LONGEST,
        0 <= area.width <= LONGEST,
        0 <= area.height <= LONGEST,
    ensures
        result.0 == text_place(area, size, right).0,
        result.1 == text_place(area, size, right).1,
{
    let x: i32 = if right {
        area.x + area.width - size.width
    } else {
        area.x
    };
    (x, area.y + (area.height - size.height) / 2)
}

/// A card with its drawing, and its size as far as there is room for it.
#[derive(Debug)]
pub struct Card {
    pub width: u32,
    pub height: u32,
    pub natural_size: (u32, u32),
    pub scale: u32,
    pub refresh: MenuHitbox,
    pub accent: [u8; 4],
    pub commands: Vec<CardCommand>,
}

/// The button at an area of the card.
pub open spec fn button_of(area: PixelRect) -> MenuHitbox {
    MenuHitbox {
        selection: MenuSelection::Item(0),
        enabled: true,
        x: area.x,
        y: area.y,
        width: area.width,
        height: area.height,
    }
}

pub fn button_at(area: PixelRect) -> (result: MenuHitbox)
    ensures
        result == button_of(area),
{
    MenuHitbox {
        selection: MenuSelection::Item(0),
        enabled: true,
        x: area.x,
        y: area.y,
        width: area.width,
        height: area.height,
    }
}

impl Card {
    pub open spec fn wf(&self) -> bool {
        &&& 1 <= self.scale <= 0x1_0000
        &&& 1 <= self.width <= self.natural_size.0 <= LONGEST
        &&& 1 <= self.height <= self.natural_size.1 <= LONGEST
        &&& 0 <= self.refresh.x <= LONGEST
        &&& 0 <= self.refresh.y <= LONGEST
        &&& 0 <= self.refresh.width <= LONGEST
        &&& 0 <= self.refresh.height <= LONGEST
        &&& self.refresh.selection == MenuSelection::Item(0)
    }

    pub fn size(&self) -> (result: (u32, u32))
        ensures
            result == (self.width, self.height),
    {
        (self.width, self.height)
    }

    /// Whether this is another card, cut to a size.
    pub open spec fn constrained_from(&self, other: &Card, width: u32, height: u32) -> bool {
        &&& self.width == smaller(other.natural_size.0 as int, larger(width as int, 1))
        &&& self.height == smaller(other.natural_size.1 as int, larger(height as int, 1))
        &&& self.natural_size == other.natural_size
        &&& self.scale == other.scale
        &&& self.refresh == other.refresh
        &&& self.accent == other.accent
        &&& self.commands == other.commands
    }

    /// Gives the card the room that there is for it; the rest is cut off.
    pub fn constrain(&mut self, width: u32, height: u32)
        requires
            old(self).wf(),
        ensures
            final(self).wf(),
            final(self).constrained_from(old(self), width, height),
    {
        let width: u32 = if width > 1 {
            width
        } else {
            1
        };
        let height: u32 = if height > 1 {
            height
        } else {
            1
        };
        self.width = if self.natural_size.0 < width {
            self.natural_size.0
        } else {
            width
        };
        self.height = if self.natural_size.1 < height {
            self.natural_size.1
        } else {
            height
        };
    }

    /// The button as far as it is visible.
    pub open spec fn visible_button(&self) -> Option<MenuHitbox> {
        clipped_box(self.refresh, self.width as int, self.height as int)
    }

    pub fn refresh_hitbox(&self) -> (result: Option<MenuHitbox>)
        requires
            self.wf(),
        ensures
            result == self.visible_button(),
    {
        clip_hitbox(self.refresh, self.width, self.height)
    }

    /// What a pixel selects.
    pub open spec fn selected_at(&self, x: int, y: int) -> Option<MenuSelection> {
        if self.visible_button() matches Some(button) && box_holds(button, x, y) {
            Some(MenuSelection::Item(0))
        } else {
            None
        }
    }

    /// What can be selected.
    pub open spec fn only_selection(&self) -> Option<MenuSelection> {
        if self.visible_button() is Some {
            Some(MenuSelection::Item(0))
        } else {
            None
        }
    }

    /// The boxes that can be clicked.
    pub open spec fn visible_buttons(&self) -> Seq<MenuHitbox> {
        match self.visible_button() {
            Some(button) => seq![button],
            None => Seq::empty(),
        }
    }

    /// The frame around the selected button.
    pub open spec fn frame_of(&self, selected: Option<MenuSelection>) -> Option<PixelRect> {
        match self.visible_button() {
            Some(button) => if selected == Some(MenuSelection::Item(0)) {
                Some(
                    rect(
                        button.x as int,
                        button.y as int,
                        button.width as int,
                        button.height as int,
                    ),
                )
            } else {
                None
            },
            None => None,
        }
    }

    pub fn selection_at(&self, x: i32, y: i32) -> (result: Option<MenuSelection>)
        requires
            self.wf(),
        ensures
            result == self.selected_at(x as int, y as int),
    {
        match self.refresh_hitbox() {
            Some(button) => if holds(button, x, y) {
                Some(button.selection)
            } else {
                None
            },
            None => None,
        }
    }

    pub fn next_selection(&self) -> (result: Option<MenuSelection>)
        requires
            self.wf(),
        ensures
            result == self.only_selection(),
    {
        match self.refresh_hitbox() {
            Some(button) => Some(button.selection),
            None => None,
        }
    }

    /// The visible buttons, and the frame around the selected one.
    pub fn draw(&self, selected: Option<MenuSelection>) -> (result: (
        Vec<MenuHitbox>,
        Option<PixelRect>,
    ))
        requires
            self.wf(),
        ensures
            result.0@ == self.visible_buttons(),
            result.1 == self.frame_of(selected),
    {
        let mut hitboxes: Vec<MenuHitbox> = Vec::new();
        match self.refresh_hitbox() {
            Some(button) => {
                hitboxes.push(button);
                assert(hitboxes@ =~= seq![button]);
                let chosen = match selected {
                    Some(selection) => selection == button.selection,
                    None => false,
                };
                let frame = if chosen {
                    Some(
                        PixelRect {
                            x: button.x,
                            y: button.y,
                            width: button.width,
                            height: button.height,
                        },
                    )
                } else {
                    None
                };
                (hitboxes, frame)
            },
            None => (hitboxes, None),
        }
    }
}

/// The button is the one thing that can be selected, and only while a part of
/// it is visible.
pub proof fn law_cards_have_one_button(card: Card, x: int, y: int)
    requires
        card.wf(),
    ensures
        card.visible_button() is Some <==> card.refresh.x < card.width && card.refresh.y
            < card.height && card.refresh.width > 0 && card.refresh.height > 0,
        card.visible_button() matches Some(button) ==> (box_holds(button, x, y) <==> box_holds(
            card.refresh,
            x,
            y,
        ) && x < card.width && y < card.height),
{
}

} // verus!
