//! What holds of bars and of clicks on them, whatever the outputs are.

use vstd::prelude::*;

use crate::bar::{
    bar_of, content_shows, covers, distance, given_or, grab_at, grab_of, group_of, is_action,
    is_first, is_new_bar, is_target, known_size, output_scale, place_before, position_or_origin,
    target_of, BarAction, BarFrame, BarState, Bars, FocusCommand, GrabCheck, OutputInfo,
    OutputPlace,
};
use crate::niri::NiriModel;
use crate::render::layout::HitTarget;
use crate::text::option_view;

verus! {

/// The left button of a pointer, as Linux numbers it.
pub open spec fn left_button() -> u32 {
    0x110
}

/// A left click on a window's button focuses that window, and one on a workspace's button
/// that workspace of the bar's output. The other buttons do nothing there.
pub proof fn law_clicks_focus_what_they_hit(
    action: BarAction,
    bar: BarState,
    target: HitTarget,
    button: u32,
    point: (int, int),
    tray_len: int,
    calendar: bool,
)
    requires
        is_action(action, bar, Some(target), button, point, tray_len, calendar),
    ensures
        target matches HitTarget::Window(id) ==> if button == left_button() {
            action == BarAction::Focus(FocusCommand::Window(id))
        } else {
            action is Nothing
        },
        target matches HitTarget::Workspace { id, index } ==> if button == left_button() {
            &&& action is Focus
            &&& action->Focus_0 is Workspace
            &&& action->Focus_0->id == id
            &&& action->Focus_0->index == index
            &&& option_view(action->Focus_0->output) == option_view(bar.output_name)
        } else {
            action is Nothing
        },
        action matches BarAction::Focus(FocusCommand::Window(id)) ==> target == HitTarget::Window(
            id,
        ),
{
}

/// The clock opens the calendar, the weather its forecast and the network its figures, with
/// the left button alone, and nothing else opens them.
pub proof fn law_clicks_open_what_they_hit(
    action: BarAction,
    bar: BarState,
    target: Option<HitTarget>,
    button: u32,
    point: (int, int),
    tray_len: int,
    calendar: bool,
)
    requires
        is_action(action, bar, target, button, point, tray_len, calendar),
    ensures
        action is OpenCalendar <==> target == Some(HitTarget::Clock) && button == left_button()
            && calendar,
        action is OpenWeather <==> target == Some(HitTarget::Weather) && button == left_button(),
        action is OpenNetwork <==> target == Some(HitTarget::Network) && button == left_button(),
        target is None ==> action is Nothing,
{
}

/// Every button of the pointer is handed to the tray icon that was hit, with the point of
/// the desktop that was clicked.
pub proof fn law_clicks_reach_the_tray(
    action: BarAction,
    bar: BarState,
    index: usize,
    button: u32,
    x: i32,
    y: i32,
    tray_len: int,
    calendar: bool,
)
    requires
        bar.on_desktop(x, y),
        is_action(
            action,
            bar,
            Some(HitTarget::Tray(index)),
            button,
            (bar.output_position.0 + x, bar.output_position.1 + y),
            tray_len,
            calendar,
        ),
    ensures
        index >= tray_len ==> action is Nothing,
        index < tray_len ==> {
            &&& action is Tray
            &&& action->Tray_index == index
            &&& action->Tray_x - bar.output_position.0 == x
            &&& action->Tray_y - bar.output_position.1 == y
        },
{
}

/// The first group of workspaces belongs to the leftmost output, of several such ones to the
/// topmost.
pub proof fn law_first_group_is_at_the_left(outputs: Seq<OutputPlace>, first: int, other: int)
    requires
        0 <= first < outputs.len(),
        0 <= other < outputs.len(),
        group_of(outputs, first) == 0,
    ensures
        outputs[first].position.0 <= outputs[other].position.0,
        outputs[first].position.0 == outputs[other].position.0 ==> outputs[first].position.1
            <= outputs[other].position.1,
        other != first ==> group_of(outputs, other) == 1,
{
    if other != first {
        assert(is_first(outputs, first));
        assert(!place_before(outputs[other], outputs[first]));
        if group_of(outputs, other) == 0 {
            crate::bar::law_one_output_is_first(outputs, first, other);
        }
    }
}

/// A bar covers the points from its output's corner on, over its width and its height, once
/// it is configured.
pub proof fn law_bars_cover_their_rectangle(bar: BarState, dx: int, dy: int)
    ensures
        covers(bar, bar.output_position.0 + dx, bar.output_position.1 + dy) <==> {
            &&& bar.frame.configured
            &&& 0 <= dx < bar.frame.logical_width
            &&& 0 <= dy < bar.frame.logical_height
        },
{
}

/// A popup opens below a bar that covers its point, and otherwise below one whose output is
/// as near as any. Its place is told from the left edge of that output.
pub proof fn law_popups_open_where_they_are_asked(
    bars: Seq<BarState>,
    index: int,
    other: int,
    x: int,
    y: int,
)
    requires
        is_target(bars, index, x, y),
        0 <= other < bars.len(),
        bars.len() <= usize::MAX,
        i32::MIN <= x - bars[index].output_position.0 <= i32::MAX,
    ensures
        ({
            let target = target_of(bars, index, x);
            &&& target.bar == index
            &&& target.local_x + bars[index].output_position.0 == x
            &&& target.scale == bars[index].frame.scale
            &&& target.logical_width == bars[index].frame.logical_width
            &&& target.logical_height == bars[index].output_size.1
        }),
        bars[index].frame.configured,
        covers(bars[other], x, y) ==> covers(bars[index], x, y) && index <= other,
        !covers(bars[index], x, y) && bars[other].frame.configured ==> {
            let here = bars[index].output_position.0;
            let there = bars[other].output_position.0;
            (if here < x { x - here } else { here - x }) <= (if there < x { x - there } else {
                there - x
            })
        },
{
    if covers(bars[other], x, y) {
        assert(covers(bars[index], x, y));
    }
    assert(bars[other] == bars[other]);
    if !covers(bars[index], x, y) && bars[other].frame.configured {
        assert(distance(bars[index], x) <= distance(bars[other], x));
    }
}

/// A bar takes over the name, position, size and scale of its output; it is drawn anew
/// where the name or the scale is another one, and keeps its surface's size.
pub proof fn law_bars_follow_their_output(
    before: BarState,
    after: BarState,
    info: OutputInfo,
    model: NiriModel,
)
    requires
        after.updated(&before, info, model),
    ensures
        after.output == before.output,
        option_view(after.output_name) == option_view(info.name),
        info.position matches Some(position) ==> after.output_position == position,
        info.position is None ==> after.output_position == (0i32, 0i32),
        info.size matches Some((width, height)) ==> (width >= 0 ==> after.output_size.0 == width)
            && (height >= 0 ==> after.output_size.1 == height),
        info.scale >= 1 ==> after.frame.scale == info.scale,
        info.scale < 1 ==> after.frame.scale == 1,
        after.frame.scale != before.frame.scale ==> after.frame.dirty,
        option_view(after.output_name) != option_view(before.output_name) ==> after.frame.dirty
            && after.shows(model),
        before.frame.dirty ==> after.frame.dirty,
        after.frame.logical_width == before.frame.logical_width,
        after.frame.logical_height == before.frame.logical_height,
        after.frame.configured == before.frame.configured,
        after.frame.frame_pending == before.frame.frame_pending,
        after.hitboxes == before.hitboxes,
        after.workspace_group == before.workspace_group,
{
}

/// A new bar has the configured height and the scale, position and size of its output. It
/// is to be drawn as soon as the compositor has given it a width.
pub proof fn law_new_bars_wait_for_their_size(
    bar: BarState,
    output: u64,
    info: OutputInfo,
    height: u32,
    model: NiriModel,
)
    requires
        is_new_bar(bar, output, Some(info), height, model),
    ensures
        bar.output == output,
        option_view(bar.output_name) == option_view(info.name),
        bar.frame.logical_height == height,
        bar.frame.logical_width == 0,
        !bar.frame.configured,
        bar.frame.dirty,
        !bar.frame.frame_pending,
        bar.hitboxes@.len() == 0,
        bar.shows(model),
        info.scale >= 1 ==> bar.frame.scale == info.scale,
        info.position matches Some(position) ==> bar.output_position == position,
        info.size matches Some((width, height)) ==> width >= 0 && height >= 0
            ==> bar.output_size.0 == width && bar.output_size.1 == height,
{
}

/// Lengths of outputs are never negative, and scales never less than one.
pub proof fn law_lengths_are_not_negative(width: i32, height: i32, scale: i32)
    ensures
        width >= 0 ==> known_size(Some((width, height))).0 == width,
        width < 0 ==> known_size(Some((width, height))).0 == 0,
        height >= 0 ==> known_size(Some((width, height))).1 == height,
        height < 0 ==> known_size(Some((width, height))).1 == 0,
        known_size(None) == (0u32, 0u32),
        output_scale(scale) >= 1,
        scale >= 1 ==> output_scale(scale) == scale,
        position_or_origin(Some((width, height))) == (width, height),
{
}

/// A length of zero leaves the choice to the bar.
pub proof fn law_given_lengths_count(given: u32, other: u32)
    ensures
        given > 0 ==> given_or(given, other) == given,
        given_or(0, other) == other,
{
}

/// A menu belongs to the last press if that was one of the right button on a bar, at the
/// point of the menu.
pub proof fn law_menus_follow_right_clicks(button: u32, serial: u32, x: i32, y: i32, point: (i32, i32))
    ensures
        button == 0x111 ==> grab_at(grab_of(button, serial, Some((x, y))), x, y)
            == GrabCheck::Matching(serial),
        button == 0x111 && point != (x, y) ==> grab_at(
            grab_of(button, serial, Some(point)),
            x,
            y,
        ) == GrabCheck::Stale,
        button != 0x111 ==> grab_at(grab_of(button, serial, Some((x, y))), x, y)
            == GrabCheck::Missing,
        grab_at(grab_of(button, serial, None), x, y) == GrabCheck::Missing,
{
}

/// A bar is drawn once it has a size and something has changed, and then not again before
/// what was drawn is shown and something has changed once more.
pub proof fn law_bars_are_drawn_once(frame: BarFrame, width: u32, height: u32, scale: u32)
    ensures
        !frame.after_drawing().is_due(),
        !frame.after_drawing().after_showing().is_due(),
        !frame.after_drawing().rescaled(scale).is_due(),
        frame.configured ==> frame.after_drawing().after_showing().rescaled(scale).is_due(),
        width > 0 ==> frame.after_drawing().after_showing().resized(width, height).is_due(),
        !frame.resized(0, height).is_due(),
        frame.resized(width, height).logical_width == width,
        frame.resized(width, height).logical_height == height,
        frame.resized(width, height).scale == frame.scale,
        frame.rescaled(scale).scale == scale,
        frame.rescaled(scale).logical_width == frame.logical_width,
        frame.rescaled(scale).logical_height == frame.logical_height,
        frame.after_showing().dirty == frame.dirty,
        frame.is_due() ==> frame.configured && frame.dirty && !frame.frame_pending,
{
}

/// A bar with another group of workspaces shows the model anew and is drawn anew; one with
/// the same group is left alone.
pub proof fn law_regrouped_bars_show_their_group(
    before: BarState,
    after: BarState,
    group: u8,
    model: NiriModel,
)
    requires
        after.regrouped(&before, group, model),
    ensures
        after.workspace_group == group,
        after.output == before.output,
        after.output_position == before.output_position,
        after.output_size == before.output_size,
        after.hitboxes == before.hitboxes,
        group == before.workspace_group ==> after.content == before.content && after.frame.dirty
            == before.frame.dirty,
        group != before.workspace_group ==> after.shows(model) && after.frame.dirty,
        after.frame.scale == before.frame.scale,
        after.frame.logical_width == before.frame.logical_width,
        after.frame.logical_height == before.frame.logical_height,
        after.frame.configured == before.frame.configured,
        after.frame.frame_pending == before.frame.frame_pending,
{
}

/// A new model leaves the output, the size and the boxes of a bar as they are.
pub proof fn law_models_change_the_content_alone(
    before: BarState,
    after: BarState,
    model: NiriModel,
)
    requires
        after.refreshed(&before, model),
    ensures
        after.output == before.output,
        after.output_name == before.output_name,
        after.output_position == before.output_position,
        after.output_size == before.output_size,
        after.workspace_group == before.workspace_group,
        after.hitboxes == before.hitboxes,
        after.frame.scale == before.frame.scale,
        after.frame.logical_width == before.frame.logical_width,
        after.frame.configured == before.frame.configured,
        after.frame.frame_pending == before.frame.frame_pending,
        before.frame.dirty ==> after.frame.dirty,
{
}

/// A bar shows the layout of the model and each workspace at its place.
pub proof fn law_bars_show_the_model(bar: BarState, model: NiriModel, place: int)
    requires
        bar.shows(model),
        0 <= place < 5,
    ensures
        bar.content.keyboard_layout@ == model.keyboard_layout@,
        bar.content.workspaces[place] == crate::niri::slot_at(
            model.workspaces.workspaces@,
            place,
            option_view(bar.output_name),
            bar.workspace_group,
        ),
        bar.content.workspaces[place].index == place + 1 + (if bar.workspace_group == 0 {
            0int
        } else {
            5
        }),
        content_shows(bar.content, model, option_view(bar.output_name), bar.workspace_group),
{
}

/// Changing the surface of a bar leaves the other bars alone, and everything else of that
/// bar.
pub proof fn law_surfaces_change_alone(
    after: &Bars,
    before: &Bars,
    index: int,
    frame: BarFrame,
    other: int,
)
    requires
        after.reframed(before, index, frame),
        0 <= index < before.bars@.len(),
        0 <= other < before.bars@.len(),
    ensures
        after.bars@.len() == before.bars@.len(),
        other != index ==> after.bars@[other] == before.bars@[other],
        after.bars@[index].frame == frame,
        after.bars@[index].content == before.bars@[index].content,
        after.bars@[index].output == before.bars@[index].output,
        after.bars@[index].hitboxes == before.bars@[index].hitboxes,
        after.hidden == before.hidden,
        after.height == before.height,
{
}

/// The bar of an output is found if it has one.
pub proof fn law_bars_are_found_by_their_output(bars: Seq<BarState>, output: u64, start: int)
    requires
        0 <= start,
    ensures
        match bar_of(bars, output, start) {
            Some(place) => start <= place < bars.len() && bars[place].output == output,
            None => forall|i: int| start <= i < bars.len() ==> (#[trigger] bars[i]).output != output,
        },
    decreases bars.len() - start,
{
    if start < bars.len() && bars[start].output != output {
        law_bars_are_found_by_their_output(bars, output, start + 1);
    }
}

} // verus!
