//! What holds of popups: what keys, buttons and the wheel do, and where popups stand.

use vstd::prelude::*;

use crate::bar::drawer::{openness, turned, visible_part, Drawer, FULLY};
use crate::bar::frame::{exchanged, fits, size_of_frame, BufferState, FrameError, FrameSize};
use crate::bar::popup::{
    bounded_length, calendar_key, card_key, ceiling, fitted, input_action, item_opens, left_of,
    menu_effect, menu_key_action, moves_selection, opened_entry, placement_of, saturated, taken,
    top_of, wheel_effect, MenuInputAction, OpenPopup, PopupEffect, PopupFrame, PopupKey, TrayPages,
};
use crate::render::menu::MenuSelection;
use crate::render::popup::PreparedPopup;
use crate::tray::{entry_views, TrayMenuEntry};

verus! {

/// A left click on an entry opens its submenu or activates it, whichever it has; one on the
/// way back goes back; a right click goes back, and closes the menu at its first page.
pub proof fn law_clicks_in_menus(
    button: u32,
    selection: Option<MenuSelection>,
    has_submenu: bool,
    can_go_back: bool,
    id: i32,
)
    ensures
        input_action(0x110, Some(MenuSelection::Item(id)), true, can_go_back)
            == MenuInputAction::OpenSubmenu(id),
        input_action(0x110, Some(MenuSelection::Item(id)), false, can_go_back)
            == MenuInputAction::Activate(id),
        input_action(0x110, Some(MenuSelection::Back), has_submenu, can_go_back)
            == MenuInputAction::Back,
        input_action(0x110, None, has_submenu, can_go_back) == MenuInputAction::Nothing,
        input_action(0x111, selection, has_submenu, true) == MenuInputAction::Back,
        input_action(0x111, selection, has_submenu, false) == MenuInputAction::Dismiss,
        button != 0x110 && button != 0x111 ==> input_action(
            button,
            selection,
            has_submenu,
            can_go_back,
        ) == MenuInputAction::Nothing,
{
}

/// An item that is activated is the one that was chosen, and the menu stays as it is;
/// dismissing a menu closes it.
pub proof fn law_chosen_items_are_activated(
    after: &TrayPages,
    before: &TrayPages,
    id: i32,
    effect: PopupEffect,
)
    ensures
        menu_effect(after, before, MenuInputAction::Activate(id), effect) ==> effect
            == PopupEffect::Activate(id) && *after == *before,
        menu_effect(after, before, MenuInputAction::Dismiss, effect) ==> effect
            == PopupEffect::Close && *after == *before,
        menu_effect(after, before, MenuInputAction::Nothing, effect) ==> effect
            == PopupEffect::Nothing && *after == *before,
        menu_effect(after, before, MenuInputAction::Back, effect) && before.pages@.len() == 0
            ==> effect == PopupEffect::Close,
        menu_effect(after, before, MenuInputAction::Back, effect) && before.pages@.len() > 0
            ==> effect == PopupEffect::Relayout && after.pages@.len() == before.pages@.len() - 1
            && after.entries == before.pages@.last().entries && after.title
            == before.pages@.last().title,
{
}

proof fn lemma_opened(entries: Seq<TrayMenuEntry>, id: i32, start: int)
    requires
        0 <= start,
    ensures
        match opened_entry(entries, id, start) {
            Some(place) => start <= place < entries.len() && entries[place].id == id
                && entries[place].enabled && entries[place].submenu@.len() > 0,
            None => forall|i: int|
                start <= i < entries.len() && (#[trigger] entries[i]).id == id
                    ==> !entries[i].enabled || entries[i].submenu@.len() == 0,
        },
    decreases entries.len() - start,
{
    if start < entries.len() {
        lemma_opened(entries, id, start + 1);
    }
}

proof fn lemma_opens(entries: Seq<TrayMenuEntry>, id: i32, start: int)
    requires
        0 <= start,
    ensures
        item_opens(entries, id, start) <==> exists|i: int|
            start <= i < entries.len() && (#[trigger] entries[i]).id == id
                && entries[i].submenu@.len() > 0,
    decreases entries.len() - start,
{
    if start < entries.len() {
        lemma_opens(entries, id, start + 1);
        if entries[start].id == id && entries[start].submenu@.len() > 0 {
            assert(item_opens(entries, id, start));
        } else if item_opens(entries, id, start + 1) {
            let i = choose|i: int|
                start + 1 <= i < entries.len() && (#[trigger] entries[i]).id == id
                    && entries[i].submenu@.len() > 0;
            assert(start <= i);
        }
    }
}

/// An opened submenu is that of an enabled entry with the chosen number, is titled as the
/// entry is, and shows what is in it; going back leads to where it was opened.
pub proof fn law_submenus_belong_to_their_entry(
    after: &TrayPages,
    before: &TrayPages,
    id: i32,
    effect: PopupEffect,
)
    requires
        menu_effect(after, before, MenuInputAction::OpenSubmenu(id), effect),
    ensures
        effect == PopupEffect::Relayout || effect == PopupEffect::Nothing,
        effect == PopupEffect::Relayout <==> exists|i: int|
            0 <= i < before.entries@.len() && (#[trigger] before.entries@[i]).id == id
                && before.entries@[i].enabled && before.entries@[i].submenu@.len() > 0,
        effect == PopupEffect::Relayout ==> exists|i: int|
            0 <= i < before.entries@.len() && (#[trigger] before.entries@[i]).id == id
                && before.entries@[i].enabled && after.title is Some && after.title->0@
                == before.entries@[i].label@ && entry_views(after.entries@) == entry_views(
                before.entries@[i].submenu@,
            ),
        effect == PopupEffect::Relayout ==> after.pages@.len() == before.pages@.len() + 1
            && after.pages@.last().entries == before.entries && after.pages@.last().title
            == before.title,
{
    lemma_opened(before.entries@, id, 0);
    if let Some(place) = opened_entry(before.entries@, id, 0) {
        assert(before.entries@[place].id == id);
    }
}

/// The right arrow opens the submenu of the selected entry, and the left arrow leads back.
pub proof fn law_arrows_move_between_pages(
    pages: TrayPages,
    selected: Option<MenuSelection>,
    id: i32,
)
    ensures
        (exists|i: int|
            0 <= i < pages.entries@.len() && (#[trigger] pages.entries@[i]).id == id
                && pages.entries@[i].submenu@.len() > 0) ==> menu_key_action(
            pages,
            Some(MenuSelection::Item(id)),
            PopupKey::Right,
        ) == MenuInputAction::OpenSubmenu(id),
        !(exists|i: int|
            0 <= i < pages.entries@.len() && (#[trigger] pages.entries@[i]).id == id
                && pages.entries@[i].submenu@.len() > 0) ==> menu_key_action(
            pages,
            Some(MenuSelection::Item(id)),
            PopupKey::Right,
        ) == MenuInputAction::Nothing,
        pages.pages@.len() > 0 ==> menu_key_action(pages, selected, PopupKey::Left)
            == MenuInputAction::Back,
        pages.pages@.len() == 0 ==> menu_key_action(pages, selected, PopupKey::Left)
            == MenuInputAction::Nothing,
        !(selected matches Some(MenuSelection::Item(_))) ==> menu_key_action(
            pages,
            selected,
            PopupKey::Right,
        ) == MenuInputAction::Nothing,
{
    lemma_opens(pages.entries@, id, 0);
}

/// Left and Page Up lead to the month before, Right and Page Down to the month after, and
/// Home to the current one; the wheel leads the way it is turned.
pub proof fn law_keys_turn_the_calendar(
    prepared: PreparedPopup,
    selected: Option<MenuSelection>,
    delta: i32,
)
    ensures
        calendar_key(prepared, selected, PopupKey::Left) == PopupEffect::ShowMonth(-1i32),
        calendar_key(prepared, selected, PopupKey::PageUp) == PopupEffect::ShowMonth(-1i32),
        calendar_key(prepared, selected, PopupKey::Right) == PopupEffect::ShowMonth(1),
        calendar_key(prepared, selected, PopupKey::PageDown) == PopupEffect::ShowMonth(1),
        calendar_key(prepared, selected, PopupKey::Home) == PopupEffect::ShowToday,
        calendar_key(prepared, selected, PopupKey::Other) == PopupEffect::Nothing,
        prepared is Calendar && delta > 0 ==> wheel_effect(prepared, delta)
            == PopupEffect::ShowMonth(1),
        prepared is Calendar && delta < 0 ==> wheel_effect(prepared, delta)
            == PopupEffect::ShowMonth(-1i32),
        delta == 0 || !(prepared is Calendar) ==> wheel_effect(prepared, delta)
            == PopupEffect::Nothing,
{
}

/// What is chosen in a calendar is a month so far away, or today; what is chosen on a card
/// updates it.
pub proof fn law_chosen_controls_act(prepared: PreparedPopup, item: i32)
    ensures
        prepared is Calendar && item != 0 ==> taken(prepared, Some(MenuSelection::Item(item)))
            == PopupEffect::ShowMonth(item),
        prepared is Calendar ==> taken(prepared, Some(MenuSelection::Item(0)))
            == PopupEffect::ShowToday,
        prepared is Network || prepared is Weather ==> taken(
            prepared,
            Some(MenuSelection::Item(item)),
        ) == PopupEffect::Refresh,
        prepared is Tray ==> taken(prepared, Some(MenuSelection::Item(item)))
            == PopupEffect::Nothing,
        taken(prepared, None) == PopupEffect::Nothing,
        taken(prepared, Some(MenuSelection::Back)) == PopupEffect::Nothing,
        card_key(prepared, None, PopupKey::Left) == PopupEffect::Nothing,
        card_key(prepared, None, PopupKey::Home) == PopupEffect::Nothing,
        moves_selection(prepared, PopupKey::Up),
        moves_selection(prepared, PopupKey::Down),
        moves_selection(prepared, PopupKey::Tab) <==> !(prepared is Tray),
        !moves_selection(prepared, PopupKey::Enter),
        !moves_selection(prepared, PopupKey::Escape),
{
}

/// A popup is as large as its content, in whole logical pixels, unless its output is
/// smaller.
pub proof fn law_popups_are_as_large_as_their_content(
    extent: (u32, u32),
    centered: bool,
    frame: PopupFrame,
    panel_height: u32,
)
    requires
        frame.wf(),
        0 < extent.0,
        0 < extent.1,
    ensures
        ({
            let place = placement_of(extent, centered, frame, panel_height);
            let width = place.width as int;
            let height = place.height as int;
            &&& frame.output_width > 0 ==> width <= frame.output_width
            &&& frame.output_height > 0 ==> height <= frame.output_height
            &&& (frame.output_width == 0 || width < frame.output_width) ==> width * frame.scale
                >= extent.0 && (width - 1) * frame.scale < extent.0
            &&& (frame.output_height == 0 || height < frame.output_height) ==> height * frame.scale
                >= extent.1 && (height - 1) * frame.scale < extent.1
        }),
{
    lemma_ceiling(extent.0 as int, frame.scale as int);
    lemma_ceiling(extent.1 as int, frame.scale as int);
}

proof fn lemma_ceiling(dividend: int, divisor: int)
    requires
        0 < dividend,
        0 < divisor,
    ensures
        1 <= ceiling(dividend, divisor) <= dividend,
        ceiling(dividend, divisor) * divisor >= dividend,
        (ceiling(dividend, divisor) - 1) * divisor < dividend,
{
    let total = dividend + divisor - 1;
    let quotient = total / divisor;
    let rest = total % divisor;
    vstd::arithmetic::div_mod::lemma_fundamental_div_mod(total, divisor);
    assert(1 <= quotient <= dividend && quotient * divisor >= dividend && (quotient - 1) * divisor
        < dividend) by (nonlinear_arith)
        requires
            total == divisor * quotient + rest,
            0 <= rest < divisor,
            total == dividend + divisor - 1,
            0 < dividend,
            0 < divisor,
    ;
}

/// A popup stands below the bar and at its anchor, or with its middle there, as long as it
/// has room; it moves no further than to the edges of the output.
pub proof fn law_popups_stand_at_their_anchor(
    anchor: int,
    width: int,
    output_width: int,
    panel_height: int,
    height: int,
    output_height: int,
)
    requires
        0 <= width,
        0 <= height,
        0 <= panel_height,
    ensures
        0 <= anchor && anchor + width <= output_width ==> left_of(
            anchor,
            width,
            output_width,
            false,
        ) == anchor,
        0 <= anchor - width / 2 && anchor - width / 2 + width <= output_width ==> left_of(
            anchor,
            width,
            output_width,
            true,
        ) == anchor - width / 2,
        anchor < 0 ==> left_of(anchor, width, output_width, false) == 0,
        width <= output_width < anchor + width ==> left_of(anchor, width, output_width, false)
            == output_width - width,
        panel_height + height <= output_height ==> top_of(panel_height, height, output_height)
            == panel_height,
        top_of(panel_height, height, 0) == panel_height,
        0 < output_height < panel_height + height && height <= output_height ==> top_of(
            panel_height,
            height,
            output_height,
        ) + height == output_height,
{
}

/// A length is never less than one pixel and never more than the output has.
pub proof fn law_lengths_are_bounded(preferred: int, bound: int)
    requires
        0 <= bound,
    ensures
        bounded_length(preferred, bound) >= 1,
        bound > 0 ==> bounded_length(preferred, bound) <= bound,
        1 <= preferred && (bound == 0 || preferred <= bound) ==> bounded_length(preferred, bound)
            == preferred,
{
}

/// An opening drawer only opens and a closing one only closes; without a duration it is
/// there at once, and otherwise after the duration at the latest.
pub proof fn law_drawers_move_one_way(drawer: Drawer, duration_ms: u32, now: u64, later: u64)
    requires
        drawer.wf(),
        drawer.since <= now <= later,
    ensures
        0 <= openness(drawer, duration_ms, now) <= FULLY,
        drawer.open ==> drawer.from <= openness(drawer, duration_ms, now) <= openness(
            drawer,
            duration_ms,
            later,
        ),
        duration_ms > 0 && !drawer.open ==> openness(drawer, duration_ms, later) <= openness(
            drawer,
            duration_ms,
            now,
        ) <= drawer.from,
        duration_ms == 0 ==> openness(drawer, duration_ms, now) == (if drawer.open {
            1000int
        } else {
            0
        }),
        duration_ms > 0 ==> openness(drawer, duration_ms, drawer.since) == drawer.from,
        now - drawer.since >= duration_ms * 1_000_000 ==> openness(drawer, duration_ms, now) == (
        if drawer.open {
            1000int
        } else {
            0
        }),
{
    if duration_ms > 0 {
        let unit = duration_ms * 1_000_000;
        let first = (now - drawer.since) * FULLY;
        let second = (later - drawer.since) * FULLY;
        assert(0 <= first / unit <= second / unit) by (nonlinear_arith)
            requires
                0 <= first <= second,
                unit > 0,
        ;
        assert(0int / unit == 0) by (nonlinear_arith)
            requires
                unit > 0,
        ;
        if now - drawer.since >= unit {
            assert(first / unit >= 1000) by (nonlinear_arith)
                requires
                    first >= unit * 1000,
                    unit > 0,
            ;
        }
    }
}

/// A drawer that is half open after half of the time moves evenly: what it has moved is its
/// share of the duration, to the thousandth.
pub proof fn law_drawers_move_evenly(drawer: Drawer, duration_ms: u32, now: u64)
    requires
        drawer.wf(),
        duration_ms > 0,
        drawer.since <= now,
        now - drawer.since <= duration_ms * 1_000_000,
    ensures
        ({
            let passed = now - drawer.since;
            let unit = duration_ms * 1_000_000;
            let open = openness(drawer, duration_ms, now);
            &&& drawer.open && open < FULLY ==> (open - drawer.from) * unit <= passed * 1000 < (open
                - drawer.from + 1) * unit
            &&& !drawer.open && open > 0 ==> (drawer.from - open) * unit <= passed * 1000 < (
            drawer.from - open + 1) * unit
        }),
{
    let passed = now - drawer.since;
    let unit = duration_ms * 1_000_000;
    let moved = passed * FULLY / unit;
    vstd::arithmetic::div_mod::lemma_fundamental_div_mod(passed * FULLY, unit);
    let rest = (passed * FULLY) % unit;
    assert(0 <= moved && moved * unit <= passed * 1000 < (moved + 1) * unit) by (nonlinear_arith)
        requires
            passed * FULLY == unit * moved + rest,
            0 <= rest < unit,
            0 <= passed,
            FULLY == 1000,
    ;
}

/// Exchanging the channels of a pixel swaps its first and third byte and leaves the others.
pub proof fn law_red_and_blue_are_exchanged(pixels: Seq<u8>, pixel: int)
    requires
        0 <= pixel,
        4 * pixel + 4 <= pixels.len(),
    ensures
        exchanged(pixels).len() == pixels.len(),
        exchanged(pixels)[4 * pixel] == pixels[4 * pixel + 2],
        exchanged(pixels)[4 * pixel + 1] == pixels[4 * pixel + 1],
        exchanged(pixels)[4 * pixel + 2] == pixels[4 * pixel],
        exchanged(pixels)[4 * pixel + 3] == pixels[4 * pixel + 3],
{
}

/// A frame has so many pixels for each logical pixel, and four bytes for each pixel of a
/// row; one without pixels is not drawn.
pub proof fn law_frames_are_scaled(width: int, height: int, scale: int)
    requires
        0 < width * scale <= 0x3fff_ffff,
        0 < height * scale <= u32::MAX,
    ensures
        size_of_frame(width, height, scale) is Ok,
        size_of_frame(width, height, scale)->Ok_0 is Some,
        ({
            let size = size_of_frame(width, height, scale)->Ok_0->0;
            &&& size.width == width * scale
            &&& size.height == height * scale
            &&& size.stride == 4 * size.width
        }),
        size_of_frame(0, height, scale) == Ok::<Option<FrameSize>, FrameError>(None),
        size_of_frame(width, 0, scale) == Ok::<Option<FrameSize>, FrameError>(None),
{
    assert(0 * scale == 0) by (nonlinear_arith);
}

/// A buffer is used again if it is free and has the wanted shape, and never otherwise.
pub proof fn law_free_buffers_are_used_again(buffer: BufferState, size: FrameSize)
    ensures
        !buffer.free ==> !fits(buffer, size),
        buffer.height != size.height ==> !fits(buffer, size),
        buffer.stride != size.stride ==> !fits(buffer, size),
        buffer.free && buffer.height == size.height && buffer.stride == size.stride ==> fits(
            buffer,
            size,
        ),
{
}

/// A drawer turns round where it is, and one that is already on its way goes on.
pub proof fn law_drawers_turn_round_in_place(drawer: Drawer, open: bool, duration_ms: u32, now: u64)
    requires
        drawer.wf(),
        drawer.since <= now,
        duration_ms > 0,
    ensures
        turned(drawer, open, duration_ms, now).open == open,
        drawer.open == open ==> turned(drawer, open, duration_ms, now) == drawer,
        openness(turned(drawer, open, duration_ms, now), duration_ms, now) == openness(
            drawer,
            duration_ms,
            now,
        ),
        drawer.open != open ==> turned(drawer, open, duration_ms, now).since == now,
{
    law_drawers_move_one_way(drawer, duration_ms, now, now);
    if drawer.open != open {
        law_drawers_move_one_way(turned(drawer, open, duration_ms, now), duration_ms, now, now);
    }
}

/// A closed drawer shows nothing of itself and an open one all; between them it shows its
/// share, to the nearest pixel.
pub proof fn law_drawers_show_their_share(width: int, position: int)
    requires
        0 <= width,
        0 <= position <= 1000,
    ensures
        visible_part(width, 0) == 0,
        visible_part(width, 1000) == width,
        -1000 < 2 * (1000 * visible_part(width, position) - width * position) <= 1000,
{
    assert(0 <= width * position && width * 0 == 0) by (nonlinear_arith)
        requires
            0 <= width,
            0 <= position,
    ;
}

/// A popup is drawn anew when another row is selected, and not when the same one is; its
/// content stays.
pub proof fn law_selections_are_drawn(
    after: &OpenPopup,
    before: &OpenPopup,
    selected: Option<MenuSelection>,
)
    requires
        after.selects(before, selected),
    ensures
        after.selected == selected,
        after.tray == before.tray,
        after.prepared == before.prepared,
        selected != before.selected ==> after.frame.dirty,
        selected == before.selected ==> after.frame == before.frame,
        before.frame.dirty ==> after.frame.dirty,
        after.frame.scale == before.frame.scale,
        after.frame.configured == before.frame.configured,
        after.frame.frame_pending == before.frame.frame_pending,
{
}

/// A step selects the next row and draws the popup anew if that changes anything.
pub proof fn law_steps_are_drawn(after: &OpenPopup, before: &OpenPopup, backwards: bool)
    requires
        after.steps(before, backwards),
    ensures
        after.selected == before.prepared.stepped(before.selected, backwards),
        after.tray == before.tray,
        after.selected != before.selected ==> after.frame.dirty,
        after.prepared.offset() != before.prepared.offset() ==> after.frame.dirty,
        after.selected == before.selected && after.prepared.offset() == before.prepared.offset()
            ==> after.frame == before.frame,
        after.frame.scale == before.frame.scale,
{
}

/// A popup is made to fit into the room that it is given, in pixels, and is left alone where
/// it is given none.
pub proof fn law_popups_fit_what_they_are_given(
    after: &PreparedPopup,
    before: &PreparedPopup,
    scale: u32,
    width: int,
    height: int,
)
    requires
        fitted(after, before, scale, width, height),
    ensures
        width <= 0 || height <= 0 ==> *after == *before,
        width > 0 && height > 0 && width * scale <= u32::MAX && height * scale <= u32::MAX
            ==> after.constrained_from(before, (width * scale) as u32, (height * scale) as u32),
        0 <= width <= u32::MAX ==> saturated(width) == width,
        width > u32::MAX ==> saturated(width) == u32::MAX,
{
}

/// What is scrolled or revealed is a menu, by its own rules; other popups do not scroll.
pub proof fn law_only_menus_scroll(
    after: &PreparedPopup,
    before: &PreparedPopup,
    delta: i32,
    selection: MenuSelection,
)
    ensures
        !(before is Tray) && after.scrolled_from(before, delta) ==> *after == *before,
        !(before is Tray) && after.revealed_from(before, selection) ==> *after == *before,
        before is Tray && after.scrolled_from(before, delta) && before.wf() ==> after is Tray && {
            let limit = before->Tray_0.scroll_limit();
            &&& 0 <= after.offset() <= limit
            &&& 0 <= before.offset() + delta <= limit ==> after.offset() == before.offset() + delta
            &&& before.offset() + delta < 0 ==> after.offset() == 0
            &&& before.offset() + delta > limit ==> after.offset() == limit
        },
        !(before is Tray) ==> before.offset() == 0,
{
}

} // verus!
