//! What holds of pixels, of the places on a bar and of what is kept between drawings.

use vstd::prelude::*;

use crate::config::ClockPosition;
use crate::niri::{ApplicationIcon, WORKSPACE_LABELS};
use crate::render::bar::{task_icon_x, task_label_width, task_layout, workspace_visible, Edges};
use crate::render::cache::{
    edge_limit, holds_icon, holds_tray_icon, label_place, layout_drawn, media_place, roomy,
    size_place, still_in_tray, task_icon_place, tray_icon_place, workspace_place, workspace_text,
    IconBitmap, KeyboardBitmap, MediaBitmap, SizedBitmap, TaskIconBitmap, TaskLabels,
    TaskTextBitmap, WorkspaceBitmap, FALLBACK_LABELS,
};
use crate::render::fonts::{cut_text, first_filled, part_length, path_parts, same_path};
use crate::render::layout::{
    at_least_one, half, larger, last_hit, measures, scale_of, smaller, Hitbox, Measures, Style,
};
use crate::render::pixels::{
    blended_channel, channel_index, covered, is_scaled, layered, lemma_nearest_inside, mixed,
    mixed_alpha, nearest, over, PixelRect,
};
use crate::text::trimmed;
use crate::tray::TrayIcon;

verus! {

/// A rectangle has its corner, and ends before its width and its height are over.
pub proof fn law_rectangles_have_their_size(area: PixelRect, dx: int, dy: int)
    ensures
        area.contains(area.x + dx, area.y + dy) <==> 0 <= dx < area.width && 0 <= dy < area.height,
{
}

/// A picture is drawn at its place, inside its clip, and nowhere else.
pub proof fn law_pictures_are_clipped(
    x: int,
    y: int,
    left: int,
    top: int,
    width: int,
    height: int,
    clip: PixelRect,
)
    ensures
        covered(x, y, left, top, width, height, clip) <==> clip.x <= x < clip.x + clip.width
            && clip.y <= y < clip.y + clip.height && left <= x < left + width && top <= y < top
            + height,
{
}

/// A color that is laid over another one lies between the two: the nearer to itself, the
/// more opaque it is.
pub proof fn law_mixed_colors_lie_between(color: int, target: int, alpha: int, more: int)
    requires
        0 <= color <= 255,
        0 <= target <= 255,
        0 <= alpha <= more <= 255,
    ensures
        mixed(color, 255, target) == color,
        mixed(color, 0, target) == target,
        target <= color ==> target <= mixed(color, alpha, target) <= mixed(color, more, target)
            <= color,
        color <= target ==> color <= mixed(color, more, target) <= mixed(color, alpha, target)
            <= target,
{
    let first = color * alpha + target * (255 - alpha);
    let second = color * more + target * (255 - more);
    assert(first == 255 * target + (color - target) * alpha) by (nonlinear_arith)
        requires
            first == color * alpha + target * (255 - alpha),
    ;
    assert(second == 255 * target + (color - target) * more) by (nonlinear_arith)
        requires
            second == color * more + target * (255 - more),
    ;
    if target <= color {
        assert(0 <= (color - target) * alpha <= (color - target) * more <= 255 * (color - target))
            by (nonlinear_arith)
            requires
                0 <= color - target,
                0 <= alpha <= more <= 255,
        ;
    } else {
        assert(0 >= (color - target) * alpha >= (color - target) * more >= 255 * (color - target))
            by (nonlinear_arith)
            requires
                color - target <= 0,
                0 <= alpha <= more <= 255,
        ;
    }
}

/// Opacity only grows, and nothing is more than opaque.
pub proof fn law_opacity_grows(alpha: int, target: int)
    requires
        0 <= alpha <= 255,
        0 <= target <= 255,
    ensures
        alpha <= mixed_alpha(alpha, target) <= 255,
        mixed_alpha(0, target) == target,
        mixed_alpha(255, target) == 255,
        mixed_alpha(alpha, 255) == 255,
        mixed_alpha(alpha, 0) == alpha,
        0 <= layered(0, alpha, target) <= target,
        over(target, 0, alpha) == alpha,
{
    assert(0 <= target * (255 - alpha) <= 255 * target && target * (255 - alpha) <= 255 * (255
        - alpha)) by (nonlinear_arith)
        requires
            0 <= target <= 255,
            0 <= alpha <= 255,
    ;
    assert(0 * (255 - alpha) == 0 && target * 255 == 255 * target && target * 0 == 0)
        by (nonlinear_arith);
}

/// The red of a color goes into the red of a pixel, and so do green, blue and opacity.
pub proof fn law_channels_are_blended_apart(color: [u8; 4], target: u8)
    ensures
        blended_channel(color, 0, target) == mixed(color[0] as int, color[3] as int, target as int),
        blended_channel(color, 1, target) == mixed(color[1] as int, color[3] as int, target as int),
        blended_channel(color, 2, target) == mixed(color[2] as int, color[3] as int, target as int),
        blended_channel(color, 3, target) == mixed_alpha(color[3] as int, target as int),
{
}

/// Scaling keeps the order of pixels and stays inside the picture; a picture of the wanted
/// size is left as it is.
pub proof fn law_scaling_keeps_the_order(
    first: int,
    second: int,
    source_length: int,
    target_length: int,
)
    requires
        0 <= first <= second < target_length,
        0 < source_length,
    ensures
        0 <= nearest(first, source_length, target_length) <= nearest(
            second,
            source_length,
            target_length,
        ) < source_length,
        nearest(0, source_length, target_length) == 0,
        nearest(first, source_length, source_length) == first,
        forall|pixels: Seq<u8>, size: u32| #[trigger] is_scaled(pixels, pixels, size, size, size),
{
    lemma_nearest_inside(first, source_length, target_length);
    lemma_nearest_inside(second, source_length, target_length);
    assert(first * source_length <= second * source_length) by (nonlinear_arith)
        requires
            first <= second,
            0 < source_length,
    ;
    vstd::arithmetic::div_mod::lemma_div_is_ordered(
        first * source_length,
        second * source_length,
        target_length,
    );
    vstd::arithmetic::div_mod::lemma_div_multiples_vanish(first, source_length);
    assert(first * source_length == source_length * first) by (nonlinear_arith);
    assert(0 * source_length == 0 && 0int / target_length == 0) by (nonlinear_arith)
        requires
            target_length > 0,
    ;
}

/// Pixels lie in rows, four bytes each.
pub proof fn law_pixels_lie_in_rows(width: int, x: int, y: int, c: int)
    ensures
        channel_index(width, x + 1, y, c) == channel_index(width, x, y, c) + 4,
        channel_index(width, x, y + 1, c) == channel_index(width, x, y, c) + 4 * width,
        channel_index(width, x, y, c + 1) == channel_index(width, x, y, c) + 1,
        channel_index(width, 0, 0, 0) == 0,
{
    assert((y + 1) * width == y * width + width) by (nonlinear_arith);
    assert(0 * width == 0) by (nonlinear_arith);
}

/// The half, the larger and the smaller of numbers are what their names say; a half is
/// rounded towards zero.
pub proof fn law_halves_and_bounds(a: int, b: int)
    ensures
        0 <= a ==> half(2 * a) == a && half(2 * a + 1) == a,
        half(-a) == -half(a),
        larger(a, b) >= a && larger(a, b) >= b && (larger(a, b) == a || larger(a, b) == b),
        smaller(a, b) <= a && smaller(a, b) <= b && (smaller(a, b) == a || smaller(a, b) == b),
{
}

/// The lengths of a bar are those of its style times the scale, which is at least one.
pub proof fn law_lengths_are_scaled(
    canvas: (i32, i32),
    clock: (i32, i32),
    keyboard: (i32, i32),
    tray_len: usize,
    scale: u32,
    style: &Style,
)
    ensures
        ({
            let m = measures(canvas, clock, keyboard, tray_len, scale, style);
            &&& m.width == canvas.0 && m.height == canvas.1
            &&& m.clock_width == clock.0 && m.clock_height == clock.1
            &&& m.keyboard_width == keyboard.0 && m.keyboard_height == keyboard.1
            &&& m.tray_len == tray_len
            &&& scale >= 1 ==> m.padding == style.padding * scale && m.spacing == style.tray_spacing
                * scale && m.icon == style.tray_icon_size * scale
            &&& m.centered <==> style.clock_position == ClockPosition::Center
            &&& m.weather <==> style.weather_enabled
            &&& m.network <==> style.network_enabled
        }),
        at_least_one(0) == 1,
        scale >= 1 ==> at_least_one(scale) == scale,
        scale_of(0) == 1,
{
}

/// The parts at the right stand beside each other at one gap: the tray, the keyboard layout,
/// the network and what they are anchored to.
pub proof fn law_parts_stand_beside_each_other(m: Measures)
    requires
        m.wf(),
    ensures
        m.network && m.centered ==> m.network_x() + m.icon == m.width - m.padding,
        m.network && !m.centered ==> m.network_x() + m.icon + m.spacing == m.clock_x(),
        !m.network && m.tray_len == 0 && m.keyboard_width > 0 ==> m.keyboard_x() + m.keyboard_width
            + m.spacing == m.right_anchor(),
        !m.network && m.tray_len > 0 && m.keyboard_width > 0 ==> m.keyboard_x() + m.keyboard_width
            + m.spacing == m.tray_x(),
        m.network && m.tray_len > 0 && m.keyboard_width == 0 ==> m.tray_x() + m.tray_width()
            + m.spacing == m.network_x(),
        !m.network && !m.centered ==> m.tray_x() + m.tray_width() + m.spacing == m.clock_x(),
        !m.centered && !m.weather && m.clock_x() > 0 ==> m.clock_right() == m.width - m.padding,
        m.tray_len == 0 ==> m.tray_width() == 0,
        m.tray_len == 1 ==> m.tray_width() == m.icon,
        m.tray_len == 2 ==> m.tray_width() == 2 * m.icon + m.spacing,
{
}

/// The drawer's handle stands left of the keyboard layout, and the open part of the drawer
/// left of the handle.
pub proof fn law_drawers_stand_left_of_their_handle(e: Edges)
    requires
        e.drawer,
    ensures
        e.handle() + e.m.icon + e.m.spacing == e.keyboard_x(),
        e.tray_left() + e.visible == e.handle(),
        !e.m.network && e.m.keyboard_width > 0 ==> e.keyboard_x() + e.m.keyboard_width + e.m.spacing
            == e.m.right_anchor(),
        !e.m.network && e.m.keyboard_width == 0 ==> e.keyboard_x() == e.m.right_anchor(),
        e.m.network ==> e.keyboard_x() == e.m.keyboard_x(),
{
}

/// A workspace shows as much of its width as there is room for.
pub proof fn law_workspaces_end_at_their_limit(offset: int, width: int, limit: int, canvas: int)
    ensures
        workspace_visible(offset, width, limit, canvas) <= width,
        offset * width + workspace_visible(offset, width, limit, canvas) <= limit,
        offset * width + workspace_visible(offset, width, limit, canvas) <= canvas,
        (offset * width + width <= limit && offset * width + width <= canvas) ==> workspace_visible(
            offset,
            width,
            limit,
            canvas,
        ) == width,
{
}

/// The tasks share the whole space between the workspaces and the clock, and are not shown
/// where there is less than a pixel for each.
pub proof fn law_tasks_share_their_space(left: int, right: int, height: int, count: int, spacing: int)
    requires
        0 <= left < right <= 0x400_0000,
        0 <= height <= 0x400_0000,
        0 < count <= 0x400_0000,
        0 <= spacing <= 0x100_0000,
    ensures
        task_layout(left, right, height, count, spacing) is Some <==> right - left - spacing * (count
            - 1) >= count,
        task_layout(left, right, height, count, spacing) matches Some(layout) ==> layout.left
            == left && layout.right() == right && layout.count == count && layout.height == height
            && layout.spacing == spacing,
{
    let width = right - left - spacing * (count - 1);
    assert(larger(spacing, 0) == spacing);
    if width >= count {
        vstd::arithmetic::div_mod::lemma_fundamental_div_mod(width, count);
        assert(0 <= spacing * (count - 1)) by (nonlinear_arith)
            requires
                0 <= spacing,
                1 <= count,
        ;
        assert(1 <= width / count <= width) by (nonlinear_arith)
            requires
                width >= count,
                count >= 1,
        ;
        assert(count * (width / count) == (width / count) * count) by (nonlinear_arith);
    }
}

/// The icon and the label of a task stand together in the middle of it; a label that does
/// not fit is cut, and one without room is left out.
pub proof fn law_icons_and_labels_stand_in_the_middle(
    x: int,
    width: int,
    label: int,
    padding: int,
    icon: int,
)
    requires
        0 <= padding,
        0 < icon,
        0 < label,
        0 <= width,
    ensures
        ({
            let visible = task_label_width(width, label, padding, icon);
            let left = task_icon_x(x, width, label, padding, icon);
            let content = icon + (if visible > 0 {
                padding + visible
            } else {
                0
            });
            &&& 0 <= visible <= label
            &&& visible > 0 ==> content <= width - 2 * padding
            &&& icon + padding + label + 2 * padding <= width ==> visible == label
            &&& content <= width ==> {
                let before = left - x;
                let after = x + width - (left + content);
                before == after || before + 1 == after
            }
        }),
{
}

/// The last box under a point is hit.
pub proof fn law_upper_boxes_are_hit(hitboxes: Seq<Hitbox>, hitbox: Hitbox, x: int, y: int)
    ensures
        hitbox.x <= x < hitbox.x + hitbox.width && hitbox.y <= y < hitbox.y + hitbox.height
            ==> last_hit(hitboxes.push(hitbox), hitboxes.len() as int + 1, x, y) == Some(
            hitbox.target,
        ),
        !(hitbox.x <= x < hitbox.x + hitbox.width && hitbox.y <= y < hitbox.y + hitbox.height)
            ==> last_hit(hitboxes.push(hitbox), hitboxes.len() as int + 1, x, y) == last_hit(
            hitboxes,
            hitboxes.len() as int,
            x,
            y,
        ),
{
    lemma_last_hit(hitboxes, hitbox, hitboxes.len() as int, x, y);
}

proof fn lemma_last_hit(hitboxes: Seq<Hitbox>, hitbox: Hitbox, count: int, x: int, y: int)
    requires
        0 <= count <= hitboxes.len(),
    ensures
        last_hit(hitboxes.push(hitbox), count, x, y) == last_hit(hitboxes, count, x, y),
    decreases count,
{
    if count > 0 {
        lemma_last_hit(hitboxes, hitbox, count - 1, x, y);
    }
}

/// A kept label is that of its window at its scale, and a kept icon too.
pub proof fn law_kept_pictures_are_of_their_window(
    labels: Seq<TaskTextBitmap>,
    icons: Seq<TaskIconBitmap>,
    id: u64,
    scale: u32,
    start: int,
)
    requires
        0 <= start,
    ensures
        match label_place(labels, id, scale, start) {
            Some(place) => start <= place < labels.len() && labels[place].id == id
                && labels[place].scale == scale,
            None => forall|i: int|
                start <= i < labels.len() && (#[trigger] labels[i]).id == id ==> labels[i].scale
                    != scale,
        },
        match task_icon_place(icons, id, scale, start) {
            Some(place) => start <= place < icons.len() && icons[place].id == id
                && icons[place].scale == scale,
            None => forall|i: int|
                start <= i < icons.len() && (#[trigger] icons[i]).id == id ==> icons[i].scale
                    != scale,
        },
    decreases larger(labels.len() as int, icons.len() as int) - start,
{
    if start < labels.len() || start < icons.len() {
        law_kept_pictures_are_of_their_window(labels, icons, id, scale, start + 1);
    }
}

/// A kept tray icon is that of its item at its scale.
pub proof fn law_kept_icons_are_of_their_item(
    entries: Seq<IconBitmap>,
    id: Seq<char>,
    scale: u32,
    start: int,
)
    requires
        0 <= start,
    ensures
        match tray_icon_place(entries, id, scale, start) {
            Some(place) => start <= place < entries.len() && entries[place].id@ == id
                && entries[place].scale == scale,
            None => forall|i: int|
                start <= i < entries.len() && (#[trigger] entries[i]).id@ == id ==> entries[i].scale
                    != scale,
        },
    decreases entries.len() - start,
{
    if start < entries.len() {
        law_kept_icons_are_of_their_item(entries, id, scale, start + 1);
    }
}

/// A kept label of a workspace is that of its number, scale and color.
pub proof fn law_kept_labels_are_of_their_workspace(
    entries: Seq<WorkspaceBitmap>,
    index: u8,
    scale: u32,
    color: [u8; 4],
    start: int,
)
    requires
        0 <= start,
    ensures
        match workspace_place(entries, index, scale, color, start) {
            Some(place) => start <= place < entries.len() && entries[place].index == index
                && entries[place].scale == scale && entries[place].color@ == color@,
            None => forall|i: int|
                start <= i < entries.len() && (#[trigger] entries[i]).index == index
                    && entries[i].scale == scale ==> entries[i].color@ != color@,
        },
    decreases entries.len() - start,
{
    if start < entries.len() {
        law_kept_labels_are_of_their_workspace(entries, index, scale, color, start + 1);
    }
}

/// Kept media lines and icons are those of their scale and size.
pub proof fn law_kept_pictures_are_of_their_size(
    media: Seq<MediaBitmap>,
    icons: Seq<SizedBitmap>,
    size: u32,
    start: int,
)
    requires
        0 <= start,
    ensures
        match media_place(media, size, start) {
            Some(place) => start <= place < media.len() && media[place].scale == size,
            None => forall|i: int| start <= i < media.len() ==> (#[trigger] media[i]).scale != size,
        },
        match size_place(icons, size, start) {
            Some(place) => start <= place < icons.len() && icons[place].size == size,
            None => forall|i: int| start <= i < icons.len() ==> (#[trigger] icons[i]).size != size,
        },
    decreases larger(media.len() as int, icons.len() as int) - start,
{
    if start < media.len() || start < icons.len() {
        law_kept_pictures_are_of_their_size(media, icons, size, start + 1);
    }
}

/// A keyboard layout is drawn anew when its text, scale or color changes.
pub proof fn law_layouts_are_drawn_anew(
    entry: KeyboardBitmap,
    text: Seq<char>,
    scale: u32,
    color: [u8; 4],
)
    ensures
        !layout_drawn(None, text, scale, color),
        layout_drawn(Some(entry), text, scale, color) <==> entry.text@ == text && entry.scale
            == scale && entry.color@ == color@,
{
}

/// A full cache loses its older half, and another one nothing.
pub proof fn law_older_entries_go_first<T>(entries: Seq<T>, place: int)
    ensures
        entries.len() < 512 ==> roomy(entries) == entries,
        entries.len() == 512 ==> roomy(entries).len() == 256,
        entries.len() == 512 && 0 <= place < 256 ==> roomy(entries)[place] == entries[place + 256],
{
}

/// An icon whose item is still in the tray is kept.
pub proof fn law_icons_in_the_tray_are_kept(
    entries: Seq<IconBitmap>,
    tray: Seq<TrayIcon>,
    count: int,
    i: int,
    j: int,
)
    requires
        0 <= i < count <= entries.len(),
        0 <= j < tray.len(),
        tray[j].id@ == entries[i].id@,
    ensures
        still_in_tray(entries, tray, count).contains(entries[i]),
    decreases count,
{
    let before = still_in_tray(entries, tray, count - 1);
    let all = still_in_tray(entries, tray, count);
    if i < count - 1 {
        law_icons_in_the_tray_are_kept(entries, tray, count - 1, i, j);
        let k = choose|k: int| 0 <= k < before.len() && before[k] == entries[i];
        assert(all[k] == entries[i]);
    } else {
        assert(crate::render::cache::in_tray(tray, entries[i].id@));
        assert(all[all.len() - 1] == entries[i]);
    }
}

/// The labels of the first and the last of several tasks get the width of the narrower one,
/// and the others have no limit.
pub proof fn law_edge_labels_have_a_limit(first: u32, last: u32, index: int, count: int)
    requires
        0 <= index < count,
    ensures
        count == 1 ==> edge_limit(first, last, index, count) is None,
        0 < index < count - 1 ==> edge_limit(first, last, index, count) is None,
        count > 1 && (index == 0 || index == count - 1) ==> {
            let limit = edge_limit(first, last, index, count);
            &&& limit is Some
            &&& limit->0 <= first
            &&& limit->0 <= last
            &&& limit->0 == first || limit->0 == last
        },
{
}

/// A workspace is labelled with its number, in one of two scripts.
pub proof fn law_workspaces_are_labelled_by_number(index: u8)
    requires
        1 <= index <= 10,
    ensures
        workspace_text(index, false) == WORKSPACE_LABELS[index - 1]@,
        workspace_text(index, true) == FALLBACK_LABELS[index - 1]@,
        workspace_text(1, true) == "1"@,
        workspace_text(9, true) == "9"@,
        workspace_text(10, true) == "0"@,
        workspace_text(1, false) == "一"@,
        workspace_text(2, false) == "二"@,
        workspace_text(10, false) == "零"@,
        workspace_text(0, true) == "●"@,
{
}

/// The first line that is not blank counts.
pub proof fn law_first_filled_line_counts(lines: Seq<Seq<char>>, start: int)
    requires
        0 <= start < lines.len(),
    ensures
        trimmed(lines[start]).len() > 0 ==> first_filled(lines, start) == Some(
            trimmed(lines[start]),
        ),
        trimmed(lines[start]).len() == 0 ==> first_filled(lines, start) == first_filled(
            lines,
            start + 1,
        ),
        first_filled(lines, lines.len() as int) is None,
{
}

/// A cut text is a beginning of it and a mark; a path is the same as itself, and an absolute
/// one never the same as a relative one.
pub proof fn law_cut_texts_and_paths(text: Seq<char>, count: int, other: Seq<char>)
    requires
        0 <= count <= text.len(),
    ensures
        cut_text(text, count).len() == count + 1,
        cut_text(text, count).last() == '…',
        cut_text(text, count).take(count) == text.take(count),
        same_path(text, text),
        same_path(text, other) == same_path(other, text),
        text.len() > 0 && text[0] == '/' && other.len() > 0 && other[0] != '/' ==> !same_path(
            text,
            other,
        ),
{
    assert(cut_text(text, count).take(count) =~= text.take(count));
}

/// A label is shortened only if it is wider than its limit.
pub proof fn law_wide_labels_are_shortened(labels: &TaskLabels, index: int, limit: u32)
    ensures
        labels.limit_for(index, None) is None,
        labels.entries@[index].natural_width <= limit ==> labels.limit_for(index, Some(limit))
            is None,
        labels.entries@[index].natural_width > limit ==> labels.limit_for(index, Some(limit))
            == Some(limit),
{
}

/// A kept icon is the scaled picture of the icon that it was made from, at its revision.
pub proof fn law_kept_icons_are_scaled(
    entry: TaskIconBitmap,
    id: u64,
    scale: u32,
    icon: ApplicationIcon,
    size: u32,
    kept: IconBitmap,
    tray: TrayIcon,
)
    ensures
        holds_icon(entry, id, scale, icon, size) ==> entry.id == id && entry.scale == scale
            && entry.revision == icon.revision && is_scaled(
            entry.pixels@,
            icon.pixels@,
            icon.width,
            icon.height,
            size,
        ),
        holds_tray_icon(kept, scale, tray, size) ==> kept.id@ == tray.id@ && kept.scale == scale
            && kept.revision == tray.revision && is_scaled(
            kept.pixels@,
            tray.pixels@,
            tray.width,
            tray.height,
            size,
        ),
{
}

/// Slashes that follow each other count as one, and a dot between slashes as nothing.
pub proof fn law_paths_are_compared_part_by_part(rest: Seq<char>, first: bool)
    ensures
        path_parts(seq!['/'] + rest, first) == path_parts(rest, false),
        path_parts(seq!['.', '/'] + rest, false) == path_parts(rest, false),
        path_parts(seq!['.', '/'] + rest, true) == seq![seq!['.']] + path_parts(rest, false),
        path_parts(Seq::empty(), first).len() == 0,
{
    let slashed = seq!['/'] + rest;
    assert(slashed.skip(1) =~= rest);
    let dotted = seq!['.', '/'] + rest;
    assert(dotted.skip(1) =~= slashed);
    reveal_with_fuel(part_length, 2);
    assert(part_length(dotted) == 1);
    assert(dotted.take(1) =~= seq!['.']);
    assert(path_parts(slashed, false) == path_parts(rest, false));
}

} // verus!
