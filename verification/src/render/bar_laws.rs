//! What holds of every bar: the clock stays clear, and the drawer holds its icons.

use vstd::prelude::*;

use crate::render::bar::{DrawCommand, RenderContent};
use crate::render::layout::{
    larger, law_tasks_fill_the_space, scale_of, smaller, HitTarget, Hitbox, Style, TaskLayout,
    LONGEST,
};

verus! {

/// Whether a box leaves the columns from `left` to `right` alone.
pub open spec fn box_clear(hitbox: Hitbox, left: int, right: int) -> bool {
    hitbox.width <= 0 || hitbox.x + hitbox.width <= left || hitbox.x >= right
}

/// Whether a command leaves the columns from `left` to `right` alone.
pub open spec fn command_clear(command: DrawCommand, left: int, right: int) -> bool {
    match command {
        DrawCommand::Clear { .. } => false,
        DrawCommand::Fill { area, .. } => area.width <= 0 || area.x + area.width <= left || area.x
            >= right,
        DrawCommand::Blit { x, width, clip, .. } => {
            let start = larger(x as int, clip.x as int);
            let end = smaller(x + width, clip.x + clip.width);
            end <= start || end <= left || start >= right
        },
        DrawCommand::DrawerHandle { x, size, .. } => x + size <= left || x >= right,
    }
}

/// Whether all boxes leave some columns alone.
pub open spec fn boxes_clear(boxes: Seq<Hitbox>, left: int, right: int) -> bool {
    forall|i: int| 0 <= i < boxes.len() ==> box_clear(#[trigger] boxes[i], left, right)
}

/// Whether all commands leave some columns alone.
pub open spec fn commands_clear(commands: Seq<DrawCommand>, left: int, right: int) -> bool {
    forall|i: int| 0 <= i < commands.len() ==> command_clear(#[trigger] commands[i], left, right)
}

proof fn lemma_boxes_join(a: Seq<Hitbox>, b: Seq<Hitbox>, left: int, right: int)
    requires
        boxes_clear(a, left, right),
        boxes_clear(b, left, right),
    ensures
        boxes_clear(a + b, left, right),
{
    assert forall|i: int| 0 <= i < (a + b).len() implies box_clear(
        #[trigger] (a + b)[i],
        left,
        right,
    ) by {
        if i < a.len() {
            assert((a + b)[i] == a[i]);
        } else {
            assert((a + b)[i] == b[i - a.len()]);
        }
    }
}

proof fn lemma_commands_join(a: Seq<DrawCommand>, b: Seq<DrawCommand>, left: int, right: int)
    requires
        commands_clear(a, left, right),
        commands_clear(b, left, right),
    ensures
        commands_clear(a + b, left, right),
{
    assert forall|i: int| 0 <= i < (a + b).len() implies command_clear(
        #[trigger] (a + b)[i],
        left,
        right,
    ) by {
        if i < a.len() {
            assert((a + b)[i] == a[i]);
        } else {
            assert((a + b)[i] == b[i - a.len()]);
        }
    }
}

/// A product of a small count and a length that can be drawn with.
proof fn lemma_small_product(count: int, length: int, most: int)
    requires
        0 <= count <= most,
        0 <= length <= LONGEST,
    ensures
        0 <= count * length <= most * LONGEST,
{
    assert(0 <= count * length) by (nonlinear_arith)
        requires
            0 <= count,
            0 <= length,
    ;
    assert(count * length <= most * LONGEST) by (nonlinear_arith)
        requires
            0 <= count <= most,
            0 <= length <= LONGEST,
    ;
}

proof fn lemma_scaled(length: u32, scale: u32)
    requires
        length <= 256,
        scale <= 0x1_0000,
    ensures
        0 <= length * scale_of(scale) <= 0x100_0000,
        1 <= scale_of(scale) <= 0x1_0000,
{
    assert(0 <= length * scale_of(scale) <= 256 * 0x1_0000) by (nonlinear_arith)
        requires
            0 <= length <= 256,
            1 <= scale_of(scale) <= 0x1_0000,
    ;
}

proof fn lemma_workspaces_clear(content: &RenderContent, style: &Style, offset: int)
    requires
        style.wf(),
        content.wf(style),
        content.measures(style).centered,
        0 <= offset <= 5,
    ensures
        boxes_clear(
            content.workspace_boxes(style, offset),
            content.measures(style).clock_x(),
            content.measures(style).clock_right(),
        ),
        commands_clear(
            content.workspace_drawings(style, offset),
            content.measures(style).clock_x(),
            content.measures(style).clock_right(),
        ),
    decreases 5 - offset,
{
    let m = content.measures(style);
    let left = m.clock_x();
    let right = m.clock_right();
    let width = content.workspace_width(style);
    lemma_scaled(style.workspace_width, content.scale);
    lemma_small_product(offset, width, 5);
    let visible = crate::render::bar::workspace_visible(
        offset,
        width,
        content.edges(style).workspace_right(),
        content.canvas.width as int,
    );
    if offset < 5 && visible > 0 {
        lemma_workspaces_clear(content, style, offset + 1);
        let boxes = content.workspace_boxes(style, offset);
        let next = content.workspace_boxes(style, offset + 1);
        assert forall|i: int| 0 <= i < boxes.len() implies box_clear(
            #[trigger] boxes[i],
            left,
            right,
        ) by {
            if i > 0 {
                assert(boxes[i] == next[i - 1]);
            }
        }
        let drawing = content.workspace_drawing(style, offset);
        assert(content.workspace_labels[offset].wf());
        assert(commands_clear(drawing, left, right));
        lemma_commands_join(drawing, content.workspace_drawings(style, offset + 1), left, right);
    }
}

proof fn lemma_task_fits(
    x: int,
    width: int,
    label: int,
    padding: int,
    icon: int,
)
    requires
        0 <= label,
        0 <= padding,
        0 <= icon,
    ensures
        ({
            let visible = crate::render::bar::task_label_width(width, label, padding, icon);
            let icon_x = crate::render::bar::task_icon_x(x, width, label, padding, icon);
            visible > 0 ==> icon_x + icon + padding + visible <= x + width
        }),
{
}

proof fn lemma_tasks_clear(content: &RenderContent, style: &Style, layout: TaskLayout, index: int)
    requires
        style.wf(),
        content.wf(style),
        content.measures(style).centered,
        content.tasks_layout(style) == Some(layout),
        layout.wf(),
        layout.count == content.tasks@.len(),
        0 <= layout.left,
        layout.right() <= content.measures(style).clock_x(),
        0 <= layout.height <= LONGEST,
        0 <= index <= content.tasks@.len(),
    ensures
        boxes_clear(
            content.task_boxes(layout, index),
            content.measures(style).clock_x(),
            content.measures(style).clock_right(),
        ),
        commands_clear(
            content.task_drawings(style, layout, index),
            content.measures(style).clock_x(),
            content.measures(style).clock_right(),
        ),
    decreases content.tasks@.len() - index,
{
    let left = content.measures(style).clock_x();
    let right = content.measures(style).clock_right();
    if index < content.tasks@.len() {
        lemma_tasks_clear(content, style, layout, index + 1);
        law_tasks_fill_the_space(layout, index);
        let boxes = content.task_boxes(layout, index);
        let next = content.task_boxes(layout, index + 1);
        assert(box_clear(content.task_box(layout, index), left, right));
        assert forall|i: int| 0 <= i < boxes.len() implies box_clear(
            #[trigger] boxes[i],
            left,
            right,
        ) by {
            if i > 0 {
                assert(boxes[i] == next[i - 1]);
            }
        }
        let drawing = content.task_drawing(style, layout, index);
        lemma_task_drawing_clear(content, style, layout, index);
        lemma_commands_join(drawing, content.task_drawings(style, layout, index + 1), left, right);
    }
}

proof fn lemma_task_drawing_clear(
    content: &RenderContent,
    style: &Style,
    layout: TaskLayout,
    index: int,
)
    requires
        style.wf(),
        content.scale <= 0x1_0000,
        content.tasks@[index].label.wf(),
        layout.wf(),
        0 <= layout.left,
        layout.right() <= content.measures(style).clock_x(),
        content.measures(style).clock_x() <= LONGEST,
        0 <= index < layout.count,
        0 <= index < content.tasks@.len(),
    ensures
        commands_clear(
            content.task_drawing(style, layout, index),
            content.measures(style).clock_x(),
            content.measures(style).clock_right(),
        ),
{
    law_tasks_fill_the_space(layout, index);
    lemma_scaled(style.task_padding, content.scale);
    lemma_scaled(style.task_icon_size, content.scale);
    lemma_task_fits(
        layout.item_x(index),
        layout.item_wide(index),
        content.tasks@[index].label.width as int,
        style.task_padding * scale_of(content.scale),
        style.task_icon_size * scale_of(content.scale),
    );
}

proof fn lemma_layout_of_tasks(content: &RenderContent, style: &Style)
    requires
        style.wf(),
        content.wf(style),
    ensures
        match content.tasks_layout(style) {
            Some(layout) => {
                &&& layout.wf()
                &&& layout.count == content.tasks@.len()
                &&& 0 <= layout.left
                &&& layout.right() <= content.measures(style).clock_x()
                &&& layout.height == content.canvas.height
            },
            None => true,
        },
{
    let m = content.measures(style);
    let spacing = style.task_spacing * scale_of(content.scale);
    lemma_scaled(style.task_spacing, content.scale);
    lemma_scaled(style.workspace_width, content.scale);
    match content.tasks_layout(style) {
        Some(layout) => {
            let count = content.tasks@.len() as int;
            let width = crate::render::layout::content_width(
                5 * content.workspace_width(style),
                m.clock_x() - m.spacing - spacing,
                count,
                spacing,
            );
            assert(0 <= spacing * (count - 1)) by (nonlinear_arith)
                requires
                    0 <= spacing,
                    1 <= count,
            ;
            vstd::arithmetic::div_mod::lemma_fundamental_div_mod(width, count);
            assert(1 <= width / count <= width) by (nonlinear_arith)
                requires
                    width >= count,
                    count >= 1,
            ;
            assert(count * (width / count) == (width / count) * count) by (nonlinear_arith);
        },
        None => {},
    }
}

proof fn lemma_media_clear(content: &RenderContent, style: &Style)
    requires
        style.wf(),
        content.wf(style),
        content.measures(style).centered,
    ensures
        commands_clear(
            content.all_media_drawings(style),
            content.measures(style).clock_x(),
            content.measures(style).clock_right(),
        ),
{
}

proof fn lemma_tray_clear(content: &RenderContent, style: &Style, count: int)
    requires
        style.wf(),
        content.wf(style),
        content.measures(style).centered,
        0 <= count <= content.tray_len,
    ensures
        boxes_clear(
            content.tray_boxes(style, count),
            content.measures(style).clock_x(),
            content.measures(style).clock_right(),
        ),
        commands_clear(
            content.tray_drawings(style, count),
            content.measures(style).clock_x(),
            content.measures(style).clock_right(),
        ),
    decreases count,
{
    let left = content.measures(style).clock_x();
    let right = content.measures(style).clock_right();
    if count > 0 {
        lemma_tray_clear(content, style, count - 1);
        let m = content.measures(style);
        assert(0 <= (count - 1) * (m.icon + m.spacing) <= LONGEST) by {
            lemma_tray_index(m.tray_len, count - 1, m.icon + m.spacing);
        }
        if content.tray_visible(style, count - 1) {
            assert(box_clear(content.tray_box(style, count - 1), left, right));
            assert(command_clear(content.tray_drawing(style, count - 1), left, right));
            let boxes = content.tray_boxes(style, count);
            let before = content.tray_boxes(style, count - 1);
            assert forall|i: int| 0 <= i < boxes.len() implies box_clear(
                #[trigger] boxes[i],
                left,
                right,
            ) by {
                if i < before.len() {
                    assert(boxes[i] == before[i]);
                }
            }
            let commands = content.tray_drawings(style, count);
            let drawn = content.tray_drawings(style, count - 1);
            assert forall|i: int| 0 <= i < commands.len() implies command_clear(
                #[trigger] commands[i],
                left,
                right,
            ) by {
                if i < drawn.len() {
                    assert(commands[i] == drawn[i]);
                }
            }
        }
    }
}

proof fn lemma_tray_index(tray_len: int, index: int, step: int)
    requires
        0 <= index < tray_len,
        0 <= step,
        tray_len * step <= LONGEST,
    ensures
        0 <= index * step <= LONGEST,
{
    assert(0 <= index * step) by (nonlinear_arith)
        requires
            0 <= index,
            0 <= step,
    ;
    assert(index * step <= tray_len * step) by (nonlinear_arith)
        requires
            index <= tray_len,
            0 <= step,
    ;
}

proof fn lemma_status_clear(content: &RenderContent, style: &Style)
    requires
        style.wf(),
        content.wf(style),
        content.measures(style).centered,
    ensures
        ({
            let left = content.measures(style).clock_x();
            let right = content.measures(style).clock_right();
            &&& boxes_clear(content.weather_boxes(style), left, right)
            &&& boxes_clear(content.network_boxes(style), left, right)
            &&& boxes_clear(content.handle_boxes(style), left, right)
            &&& commands_clear(content.weather_drawing(style), left, right)
            &&& commands_clear(content.network_drawing(style), left, right)
            &&& commands_clear(content.keyboard_drawing(style), left, right)
            &&& commands_clear(content.handle_drawing(style), left, right)
        }),
{
}

/// Nothing beside a centered clock can be clicked on the clock's columns.
pub proof fn law_click_area_of_the_clock_is_clear(content: &RenderContent, style: &Style, i: int)
    requires
        style.wf(),
        content.wf(style),
        content.measures(style).centered,
        0 <= i < content.all_boxes(style).len(),
        content.all_boxes(style)[i].target != HitTarget::Clock,
    ensures
        box_clear(
            content.all_boxes(style)[i],
            content.measures(style).clock_x(),
            content.measures(style).clock_right(),
        ),
{
    let left = content.measures(style).clock_x();
    let right = content.measures(style).clock_right();
    lemma_workspaces_clear(content, style, 0);
    lemma_layout_of_tasks(content, style);
    match content.tasks_layout(style) {
        Some(layout) => {
            lemma_tasks_clear(content, style, layout, 0);
        },
        None => {},
    }
    lemma_status_clear(content, style);
    lemma_tray_clear(content, style, content.tray_len as int);
    lemma_box_parts(
        content.workspace_boxes(style, 0),
        content.all_task_boxes(style),
        content.clock_boxes(style),
        content.weather_boxes(style),
        content.network_boxes(style),
        content.handle_boxes(style),
        content.tray_boxes(style, content.tray_len as int),
        left,
        right,
        i,
    );
}

/// A box of a joined sequence is clear unless it is of the third part.
proof fn lemma_box_parts(
    a: Seq<Hitbox>,
    b: Seq<Hitbox>,
    clock: Seq<Hitbox>,
    c: Seq<Hitbox>,
    d: Seq<Hitbox>,
    e: Seq<Hitbox>,
    f: Seq<Hitbox>,
    left: int,
    right: int,
    i: int,
)
    requires
        boxes_clear(a, left, right),
        boxes_clear(b, left, right),
        boxes_clear(c, left, right),
        boxes_clear(d, left, right),
        boxes_clear(e, left, right),
        boxes_clear(f, left, right),
        0 <= i < (a + b + clock + c + d + e + f).len(),
        forall|k: int| 0 <= k < clock.len() ==> (#[trigger] clock[k]).target == HitTarget::Clock,
    ensures
        ({
            let hitbox = (a + b + clock + c + d + e + f)[i];
            hitbox.target == HitTarget::Clock || box_clear(hitbox, left, right)
        }),
{
    let before = a + b;
    let after = c + d + e + f;
    lemma_boxes_join(a, b, left, right);
    lemma_boxes_join(c, d, left, right);
    lemma_boxes_join(c + d, e, left, right);
    lemma_boxes_join(c + d + e, f, left, right);
    let all = a + b + clock + c + d + e + f;
    assert(all =~= before + clock + after);
    if i < before.len() {
        assert(all[i] == before[i]);
    } else if i >= before.len() + clock.len() {
        assert(all[i] == after[i - before.len() - clock.len()]);
    } else {
        assert(all[i] == clock[i - before.len()]);
    }
}

/// Nothing is drawn on the columns of a centered clock but the background, once,
/// before everything else, and the clock.
pub proof fn law_pixels_of_the_clock_are_clear(content: &RenderContent, style: &Style, i: int)
    requires
        style.wf(),
        content.wf(style),
        content.measures(style).centered,
        0 < i < content.all_drawings(style).len(),
    ensures
        ({
            let command = content.all_drawings(style)[i];
            ||| command == content.clock_drawing(style)[0]
            ||| command_clear(
                command,
                content.measures(style).clock_x(),
                content.measures(style).clock_right(),
            )
        }),
{
    let left = content.measures(style).clock_x();
    let right = content.measures(style).clock_right();
    lemma_workspaces_clear(content, style, 0);
    lemma_layout_of_tasks(content, style);
    match content.tasks_layout(style) {
        Some(layout) => {
            lemma_tasks_clear(content, style, layout, 0);
        },
        None => {},
    }
    lemma_media_clear(content, style);
    lemma_status_clear(content, style);
    lemma_tray_clear(content, style, content.tray_len as int);
    lemma_command_parts(
        seq![DrawCommand::Clear { color: style.background }],
        content.workspace_drawings(style, 0),
        content.all_task_drawings(style),
        content.all_media_drawings(style),
        content.clock_drawing(style),
        content.weather_drawing(style),
        content.keyboard_drawing(style),
        content.network_drawing(style),
        content.handle_drawing(style),
        content.tray_drawings(style, content.tray_len as int),
        left,
        right,
        i,
    );
}

/// A command of a joined sequence is clear unless it is the first or the clock's.
proof fn lemma_command_parts(
    first: Seq<DrawCommand>,
    a: Seq<DrawCommand>,
    b: Seq<DrawCommand>,
    c: Seq<DrawCommand>,
    clock: Seq<DrawCommand>,
    d: Seq<DrawCommand>,
    e: Seq<DrawCommand>,
    f: Seq<DrawCommand>,
    g: Seq<DrawCommand>,
    h: Seq<DrawCommand>,
    left: int,
    right: int,
    i: int,
)
    requires
        first.len() == 1,
        clock.len() == 1,
        commands_clear(a, left, right),
        commands_clear(b, left, right),
        commands_clear(c, left, right),
        commands_clear(d, left, right),
        commands_clear(e, left, right),
        commands_clear(f, left, right),
        commands_clear(g, left, right),
        commands_clear(h, left, right),
        0 < i < (first + a + b + c + clock + d + e + f + g + h).len(),
    ensures
        ({
            let command = (first + a + b + c + clock + d + e + f + g + h)[i];
            command == clock[0] || command_clear(command, left, right)
        }),
{
    lemma_commands_join(a, b, left, right);
    lemma_commands_join(a + b, c, left, right);
    lemma_commands_join(d, e, left, right);
    lemma_commands_join(d + e, f, left, right);
    lemma_commands_join(d + e + f, g, left, right);
    lemma_commands_join(d + e + f + g, h, left, right);
    let before = a + b + c;
    let after = d + e + f + g + h;
    let all = first + a + b + c + clock + d + e + f + g + h;
    assert(all =~= first + before + clock + after);
    if i - 1 < before.len() {
        assert(all[i] == before[i - 1]);
    } else if i - 1 < before.len() + clock.len() {
        assert(all[i] == clock[i - 1 - before.len()]);
    } else {
        assert(all[i] == after[i - 1 - before.len() - clock.len()]);
    }
}

/// The drawer keeps its right edge while it opens; its icons stay inside it and
/// left of the chevron.
pub proof fn law_drawer_holds_its_icons(content: &RenderContent, style: &Style, index: int)
    requires
        style.wf(),
        content.wf(style),
        content.edges(style).drawer,
        0 <= index < content.tray_len,
        content.tray_visible(style, index),
    ensures
        ({
            let drawer = content.handle_boxes(style)[0];
            let icon = content.tray_box(style, index);
            &&& drawer.target == HitTarget::TrayDrawer
            &&& drawer.x <= icon.x
            &&& icon.x + icon.width <= content.edges(style).handle() - content.edges(
                style,
            ).m.spacing
            &&& icon.x + icon.width < drawer.x + drawer.width
            &&& drawer.x + drawer.width == content.edges(style).handle() + content.edges(
                style,
            ).m.icon
        }),
{
    let m = content.measures(style);
    lemma_tray_index(m.tray_len, index, m.icon + m.spacing);
}

/// A closed drawer shows none of its icons, and an open one all of them unless
/// the clock is in their way.
pub proof fn law_drawer_opens_and_closes(content: &RenderContent, style: &Style, index: int)
    requires
        style.wf(),
        content.wf(style),
        content.edges(style).drawer,
        0 <= index < content.tray_len,
    ensures
        content.drawer_visible == 0 ==> !content.tray_visible(style, index),
        content.drawer_visible == content.tray_len * (content.measures(style).icon
            + content.measures(style).spacing) && content.tray_icon_x(style, index) >= content.edges(
            style,
        ).right_min() ==> content.tray_visible(style, index),
{
    let m = content.measures(style);
    let step = m.icon + m.spacing;
    lemma_tray_index(m.tray_len, index, step);
    assert(index * step + step <= m.tray_len * step) by (nonlinear_arith)
        requires
            index + 1 <= m.tray_len,
            0 <= step,
    ;
}

/// The place of the chevron does not depend on how far the drawer is open.
pub proof fn law_chevron_stays_in_place(
    before: &RenderContent,
    after: &RenderContent,
    style: &Style,
)
    requires
        before.measures(style) == after.measures(style),
        before.tray_len == after.tray_len,
    ensures
        before.edges(style).handle() == after.edges(style).handle(),
        before.edges(style).keyboard_x() == after.edges(style).keyboard_x(),
{
}

} // verus!
