//! What holds of every bar: each picture stands where the thing that it shows can
//! be clicked, and everything that can be clicked shows what it stands for.

use vstd::prelude::*;

use crate::render::bar::{DrawCommand, Picture, RenderContent};
use crate::render::layout::{
    law_tasks_fill_the_space, scale_of, HitTarget, Hitbox, Style, TaskLayout, LONGEST,
};
use crate::render::pixels::PixelRect;

verus! {

/// Whether a box covers the columns of a clip.
pub open spec fn box_covers(hitbox: Hitbox, clip: PixelRect) -> bool {
    hitbox.x <= clip.x && clip.x + clip.width <= hitbox.x + hitbox.width
}

/// Whether no two windows have the same id.
pub open spec fn distinct_windows(content: &RenderContent) -> bool {
    forall|i: int, j: int|
        0 <= i < j < content.tasks@.len() ==> (#[trigger] content.tasks@[i]).id != (
        #[trigger] content.tasks@[j]).id
}

/// The task whose icon or label a command draws, if some of it can be seen.
pub open spec fn drawn_task(command: DrawCommand) -> Option<usize> {
    match command {
        DrawCommand::Blit { picture, clip, .. } => if clip.width <= 0 {
            None
        } else {
            match picture {
                Picture::TaskIcon(place) => Some(place),
                Picture::TaskLabel(place) => Some(place),
                _ => None,
            }
        },
        _ => None,
    }
}

/// The clip of a command.
pub open spec fn clip_of(command: DrawCommand) -> PixelRect {
    match command {
        DrawCommand::Blit { clip, .. } => clip,
        DrawCommand::Fill { area, .. } => area,
        _ => PixelRect { x: 0, y: 0, width: 0, height: 0 },
    }
}

/// Whether none of some commands draws a task.
spec fn no_tasks(commands: Seq<DrawCommand>) -> bool {
    forall|i: int| 0 <= i < commands.len() ==> drawn_task(#[trigger] commands[i]) is None
}

/// Whether none of some boxes is that of a window.
spec fn no_windows(boxes: Seq<Hitbox>) -> bool {
    forall|i: int| 0 <= i < boxes.len() ==> !((#[trigger] boxes[i]).target is Window)
}

proof fn lemma_no_tasks_join(a: Seq<DrawCommand>, b: Seq<DrawCommand>)
    requires
        no_tasks(a),
        no_tasks(b),
    ensures
        no_tasks(a + b),
{
    assert forall|i: int| 0 <= i < (a + b).len() implies drawn_task(#[trigger] (a + b)[i]) is None by {
        if i < a.len() {
            assert((a + b)[i] == a[i]);
        } else {
            assert((a + b)[i] == b[i - a.len()]);
        }
    }
}

proof fn lemma_no_windows_join(a: Seq<Hitbox>, b: Seq<Hitbox>)
    requires
        no_windows(a),
        no_windows(b),
    ensures
        no_windows(a + b),
{
    assert forall|i: int| 0 <= i < (a + b).len() implies !((#[trigger] (a + b)[i]).target is Window) by {
        if i < a.len() {
            assert((a + b)[i] == a[i]);
        } else {
            assert((a + b)[i] == b[i - a.len()]);
        }
    }
}

proof fn lemma_workspaces_draw_no_tasks(content: &RenderContent, style: &Style, offset: int)
    requires
        0 <= offset <= 5,
    ensures
        no_tasks(content.workspace_drawings(style, offset)),
        no_windows(content.workspace_boxes(style, offset)),
    decreases 5 - offset,
{
    if offset < 5 {
        lemma_workspaces_draw_no_tasks(content, style, offset + 1);
        let drawing = content.workspace_drawing(style, offset);
        assert(no_tasks(drawing));
        lemma_no_tasks_join(drawing, content.workspace_drawings(style, offset + 1));
        let boxes = content.workspace_boxes(style, offset);
        let next = content.workspace_boxes(style, offset + 1);
        assert forall|i: int| 0 <= i < boxes.len() implies !((#[trigger] boxes[i]).target is Window) by {
            if i > 0 {
                assert(boxes[i] == next[i - 1]);
            }
        }
    }
}

proof fn lemma_tray_draws_no_tasks(content: &RenderContent, style: &Style, count: int)
    ensures
        no_tasks(content.tray_drawings(style, count)),
        no_windows(content.tray_boxes(style, count)),
    decreases count,
{
    if count > 0 {
        lemma_tray_draws_no_tasks(content, style, count - 1);
        let drawn = content.tray_drawings(style, count);
        let before = content.tray_drawings(style, count - 1);
        assert forall|i: int| 0 <= i < drawn.len() implies drawn_task(#[trigger] drawn[i]) is None by {
            if i < before.len() {
                assert(drawn[i] == before[i]);
            }
        }
        let boxes = content.tray_boxes(style, count);
        let earlier = content.tray_boxes(style, count - 1);
        assert forall|i: int| 0 <= i < boxes.len() implies !((#[trigger] boxes[i]).target is Window) by {
            if i < earlier.len() {
                assert(boxes[i] == earlier[i]);
            }
        }
    }
}

/// What is drawn before the tasks, and what after them.
spec fn drawn_before(content: &RenderContent, style: &Style) -> Seq<DrawCommand> {
    seq![DrawCommand::Clear { color: style.background }] + content.workspace_drawings(style, 0)
}

spec fn drawn_after(content: &RenderContent, style: &Style) -> Seq<DrawCommand> {
    content.all_media_drawings(style) + content.clock_drawing(style) + content.weather_drawing(style)
        + content.keyboard_drawing(style) + content.network_drawing(style) + content.handle_drawing(
        style,
    ) + content.tray_drawings(style, content.tray_len as int)
}

spec fn boxes_after(content: &RenderContent, style: &Style) -> Seq<Hitbox> {
    content.clock_boxes(style) + content.weather_boxes(style) + content.network_boxes(style)
        + content.handle_boxes(style) + content.tray_boxes(style, content.tray_len as int)
}

proof fn lemma_media_draws_no_tasks(content: &RenderContent, style: &Style)
    ensures
        no_tasks(content.all_media_drawings(style)),
{
    let drawn = content.all_media_drawings(style);
    assert forall|i: int| 0 <= i < drawn.len() implies drawn_task(#[trigger] drawn[i]) is None by {
    }
}

proof fn lemma_status_draws_no_tasks(content: &RenderContent, style: &Style)
    ensures
        no_tasks(content.clock_drawing(style)),
        no_tasks(content.weather_drawing(style)),
        no_tasks(content.keyboard_drawing(style)),
        no_tasks(content.network_drawing(style)),
        no_tasks(content.handle_drawing(style)),
        no_windows(content.clock_boxes(style)),
        no_windows(content.weather_boxes(style)),
        no_windows(content.network_boxes(style)),
        no_windows(content.handle_boxes(style)),
{
}

proof fn lemma_drawn_before(content: &RenderContent, style: &Style)
    ensures
        no_tasks(drawn_before(content, style)),
{
    let clear = seq![DrawCommand::Clear { color: style.background }];
    assert(no_tasks(clear));
    lemma_workspaces_draw_no_tasks(content, style, 0);
    lemma_no_tasks_join(clear, content.workspace_drawings(style, 0));
}

proof fn lemma_drawn_after(content: &RenderContent, style: &Style)
    ensures
        no_tasks(drawn_after(content, style)),
{
    lemma_media_draws_no_tasks(content, style);
    lemma_status_draws_no_tasks(content, style);
    lemma_tray_draws_no_tasks(content, style, content.tray_len as int);
    let a = content.all_media_drawings(style);
    let b = content.clock_drawing(style);
    let c = content.weather_drawing(style);
    let d = content.keyboard_drawing(style);
    let e = content.network_drawing(style);
    let f = content.handle_drawing(style);
    let g = content.tray_drawings(style, content.tray_len as int);
    lemma_no_tasks_join(a, b);
    lemma_no_tasks_join(a + b, c);
    lemma_no_tasks_join(a + b + c, d);
    lemma_no_tasks_join(a + b + c + d, e);
    lemma_no_tasks_join(a + b + c + d + e, f);
    lemma_no_tasks_join(a + b + c + d + e + f, g);
}

proof fn lemma_boxes_after(content: &RenderContent, style: &Style)
    ensures
        no_windows(boxes_after(content, style)),
{
    lemma_status_draws_no_tasks(content, style);
    lemma_tray_draws_no_tasks(content, style, content.tray_len as int);
    let a = content.clock_boxes(style);
    let b = content.weather_boxes(style);
    let c = content.network_boxes(style);
    let d = content.handle_boxes(style);
    lemma_no_windows_join(a, b);
    lemma_no_windows_join(a + b, c);
    lemma_no_windows_join(a + b + c, d);
    lemma_no_windows_join(a + b + c + d, content.tray_boxes(style, content.tray_len as int));
}

proof fn lemma_joined(
    a: Seq<DrawCommand>,
    b: Seq<DrawCommand>,
    c: Seq<DrawCommand>,
    d: Seq<DrawCommand>,
    e: Seq<DrawCommand>,
    f: Seq<DrawCommand>,
    g: Seq<DrawCommand>,
    h: Seq<DrawCommand>,
)
    ensures
        a + b + c + d + e + f + g + h == a + (b + c + d + e + f + g + h),
{
    assert(a + b + c + d + e + f + g + h =~= a + (b + c + d + e + f + g + h));
}

proof fn lemma_joined_boxes(
    a: Seq<Hitbox>,
    b: Seq<Hitbox>,
    c: Seq<Hitbox>,
    d: Seq<Hitbox>,
    e: Seq<Hitbox>,
    f: Seq<Hitbox>,
)
    ensures
        a + b + c + d + e + f == a + (b + c + d + e + f),
{
    assert(a + b + c + d + e + f =~= a + (b + c + d + e + f));
}

proof fn lemma_parts(content: &RenderContent, style: &Style)
    ensures
        content.all_drawings(style) == drawn_before(content, style) + content.all_task_drawings(style)
            + drawn_after(content, style),
        content.all_boxes(style) == content.workspace_boxes(style, 0) + content.all_task_boxes(style)
            + boxes_after(content, style),
        no_tasks(drawn_before(content, style)),
        no_tasks(drawn_after(content, style)),
        no_windows(content.workspace_boxes(style, 0)),
        no_windows(boxes_after(content, style)),
{
    lemma_drawn_before(content, style);
    lemma_drawn_after(content, style);
    lemma_workspaces_draw_no_tasks(content, style, 0);
    lemma_boxes_after(content, style);
    lemma_joined(
        drawn_before(content, style) + content.all_task_drawings(style),
        content.all_media_drawings(style),
        content.clock_drawing(style),
        content.weather_drawing(style),
        content.keyboard_drawing(style),
        content.network_drawing(style),
        content.handle_drawing(style),
        content.tray_drawings(style, content.tray_len as int),
    );
    lemma_joined_boxes(
        content.workspace_boxes(style, 0) + content.all_task_boxes(style),
        content.clock_boxes(style),
        content.weather_boxes(style),
        content.network_boxes(style),
        content.handle_boxes(style),
        content.tray_boxes(style, content.tray_len as int),
    );
}

proof fn lemma_layout(content: &RenderContent, style: &Style)
    requires
        style.wf(),
        content.wf(style),
    ensures
        content.tasks_layout(style) matches Some(layout) ==> {
            &&& layout.wf()
            &&& layout.count == content.tasks@.len()
            &&& 0 <= layout.left
            &&& layout.right() <= LONGEST
            &&& layout.height == content.canvas.height
        },
{
    let m = content.measures(style);
    let spacing = style.task_spacing * scale_of(content.scale);
    assert(0 <= spacing && 0 <= style.workspace_width * scale_of(content.scale)) by (nonlinear_arith)
        requires
            spacing == style.task_spacing * scale_of(content.scale),
            1 <= scale_of(content.scale),
    ;
    if let Some(layout) = content.tasks_layout(style) {
        let count = content.tasks@.len() as int;
        let width = crate::render::layout::content_width(
            5 * content.workspace_width(style),
            m.clock_x() - m.spacing - spacing,
            count,
            spacing,
        );
        assert(0 <= spacing * (count - 1)) by (nonlinear_arith)
            requires
                0 <= spacing,
                1 <= count,
        ;
        vstd::arithmetic::div_mod::lemma_fundamental_div_mod(width, count);
        assert(1 <= width / count <= width) by (nonlinear_arith)
            requires
                width >= count,
                count >= 1,
        ;
        assert(count * (width / count) == (width / count) * count) by (nonlinear_arith);
        assert(spacing <= 0x100_0000) by (nonlinear_arith)
            requires
                spacing == style.task_spacing * scale_of(content.scale),
                0 <= style.task_spacing <= 256,
                1 <= scale_of(content.scale) <= 0x1_0000,
        ;
        assert(style.workspace_width * scale_of(content.scale) <= 0x80_0000) by (nonlinear_arith)
            requires
                0 <= style.workspace_width <= 128,
                1 <= scale_of(content.scale) <= 0x1_0000,
        ;
    }
}

proof fn lemma_task_boxes(content: &RenderContent, layout: TaskLayout, start: int)
    requires
        0 <= start <= content.tasks@.len(),
    ensures
        content.task_boxes(layout, start).len() == content.tasks@.len() - start,
        forall|k: int|
            0 <= k < content.tasks@.len() - start ==> #[trigger] content.task_boxes(layout, start)[k]
                == content.task_box(layout, start + k),
    decreases content.tasks@.len() - start,
{
    if start < content.tasks@.len() {
        lemma_task_boxes(content, layout, start + 1);
        let boxes = content.task_boxes(layout, start);
        let next = content.task_boxes(layout, start + 1);
        assert forall|k: int| 0 <= k < content.tasks@.len() - start implies #[trigger] boxes[k]
            == content.task_box(layout, start + k) by {
            if k > 0 {
                assert(boxes[k] == next[k - 1]);
            }
        }
    }
}

/// Whether what a command draws of a task is on the button of that task.
spec fn on_its_button(content: &RenderContent, layout: TaskLayout, command: DrawCommand) -> bool {
    drawn_task(command) matches Some(place) ==> place < content.tasks@.len() && box_covers(
        content.task_box(layout, place as int),
        clip_of(command),
    )
}

proof fn lemma_task_drawing(content: &RenderContent, style: &Style, layout: TaskLayout, index: int)
    requires
        style.wf(),
        content.wf(style),
        content.tasks_layout(style) == Some(layout),
        0 <= index < content.tasks@.len(),
    ensures
        forall|k: int|
            0 <= k < content.task_drawing(style, layout, index).len() ==> on_its_button(
                content,
                layout,
                #[trigger] content.task_drawing(style, layout, index)[k],
            ),
{
    lemma_layout(content, style);
    law_tasks_fill_the_space(layout, index);
    assert(content.tasks@[index].label.wf());
    let padding = style.task_padding * scale_of(content.scale);
    let icon = style.task_icon_size * scale_of(content.scale);
    assert(0 <= padding <= 0x100_0000 && 0 <= icon <= 0x100_0000) by (nonlinear_arith)
        requires
            padding == style.task_padding * scale_of(content.scale),
            icon == style.task_icon_size * scale_of(content.scale),
            0 <= style.task_padding <= 256,
            0 <= style.task_icon_size <= 256,
            1 <= scale_of(content.scale) <= 0x1_0000,
    ;
}

proof fn lemma_task_drawings(content: &RenderContent, style: &Style, layout: TaskLayout, start: int)
    requires
        style.wf(),
        content.wf(style),
        content.tasks_layout(style) == Some(layout),
        0 <= start <= content.tasks@.len(),
    ensures
        forall|k: int|
            0 <= k < content.task_drawings(style, layout, start).len() ==> on_its_button(
                content,
                layout,
                #[trigger] content.task_drawings(style, layout, start)[k],
            ),
    decreases content.tasks@.len() - start,
{
    if start < content.tasks@.len() {
        lemma_task_drawing(content, style, layout, start);
        lemma_task_drawings(content, style, layout, start + 1);
        let first = content.task_drawing(style, layout, start);
        let rest = content.task_drawings(style, layout, start + 1);
        let all = content.task_drawings(style, layout, start);
        assert forall|k: int| 0 <= k < all.len() implies on_its_button(
            content,
            layout,
            #[trigger] all[k],
        ) by {
            if k < first.len() {
                assert(all[k] == first[k]);
            } else {
                assert(all[k] == rest[k - first.len()]);
            }
        }
    }
}

/// The buttons of two tasks stand apart, in the order of the tasks.
proof fn lemma_buttons_apart(layout: TaskLayout, first: int, second: int)
    requires
        layout.wf(),
        0 <= first < second < layout.count,
    ensures
        layout.item_x(first) + layout.item_wide(first) <= layout.item_x(second),
    decreases second - first,
{
    law_tasks_fill_the_space(layout, first);
    if first + 1 < second {
        lemma_buttons_apart(layout, first + 1, second);
        law_tasks_fill_the_space(layout, first + 1);
    }
}

/// What can be seen of a window's icon and title is inside the click area of that
/// window.
pub proof fn law_buttons_cover_their_pictures(content: &RenderContent, style: &Style, place: int)
    requires
        style.wf(),
        content.wf(style),
        0 <= place < content.all_drawings(style).len(),
        drawn_task(content.all_drawings(style)[place]) is Some,
    ensures
        ({
            let command = content.all_drawings(style)[place];
            let task = drawn_task(command)->0 as int;
            task < content.tasks@.len() && exists|hitbox: Hitbox|
                content.all_boxes(style).contains(hitbox) && hitbox.target == HitTarget::Window(
                    content.tasks@[task].id,
                ) && #[trigger] box_covers(hitbox, clip_of(command))
        }),
{
    lemma_parts(content, style);
    let all = content.all_drawings(style);
    let before = drawn_before(content, style);
    let tasks = content.all_task_drawings(style);
    let command = all[place];
    if place < before.len() {
        assert(command == before[place]);
    } else if place >= before.len() + tasks.len() {
        assert(command == drawn_after(content, style)[place - before.len() - tasks.len()]);
    } else {
        assert(command == tasks[place - before.len()]);
        let layout = content.tasks_layout(style)->0;
        lemma_task_drawings(content, style, layout, 0);
        lemma_task_boxes(content, layout, 0);
        let task = drawn_task(command)->0 as int;
        let hitbox = content.task_box(layout, task);
        let boxes = content.task_boxes(layout, 0);
        assert(boxes[task] == hitbox);
        let k = content.workspace_boxes(style, 0).len() + task;
        assert(content.all_boxes(style)[k] == hitbox);
        assert(box_covers(hitbox, clip_of(command)));
    }
}

/// The place of the task that a window's box belongs to.
proof fn lemma_box_of_window(content: &RenderContent, style: &Style, place: int) -> (task: int)
    requires
        0 <= place < content.all_boxes(style).len(),
        content.all_boxes(style)[place].target is Window,
    ensures
        content.tasks_layout(style) is Some,
        0 <= task < content.tasks@.len(),
        content.all_boxes(style)[place] == content.task_box(content.tasks_layout(style)->0, task),
{
    lemma_parts(content, style);
    let all = content.all_boxes(style);
    let before = content.workspace_boxes(style, 0);
    let tasks = content.all_task_boxes(style);
    if place < before.len() {
        assert(all[place] == before[place]);
    } else if place >= before.len() + tasks.len() {
        assert(all[place] == boxes_after(content, style)[place - before.len() - tasks.len()]);
    }
    let layout = content.tasks_layout(style)->0;
    lemma_task_boxes(content, layout, 0);
    assert(all[place] == tasks[place - before.len()]);
    place - before.len()
}

/// A button shows the icon and the title of its own window and of no other: what is
/// drawn of a task inside the click area of a window is that window's.
pub proof fn law_buttons_show_their_own_window(
    content: &RenderContent,
    style: &Style,
    place: int,
    hit: int,
    task: int,
)
    requires
        style.wf(),
        content.wf(style),
        distinct_windows(content),
        0 <= place < content.all_drawings(style).len(),
        drawn_task(content.all_drawings(style)[place]) is Some,
        0 <= hit < content.all_boxes(style).len(),
        0 <= task < content.tasks@.len(),
        content.all_boxes(style)[hit].target == HitTarget::Window(content.tasks@[task].id),
        box_covers(content.all_boxes(style)[hit], clip_of(content.all_drawings(style)[place])),
    ensures
        drawn_task(content.all_drawings(style)[place]) == Some(task as usize),
{
    law_buttons_cover_their_pictures(content, style, place);
    lemma_layout(content, style);
    let command = content.all_drawings(style)[place];
    let drawn = drawn_task(command)->0 as int;
    let owner = lemma_box_of_window(content, style, hit);
    let layout = content.tasks_layout(style)->0;
    let hitbox = choose|hitbox: Hitbox|
        content.all_boxes(style).contains(hitbox) && hitbox.target == HitTarget::Window(
            content.tasks@[drawn].id,
        ) && #[trigger] box_covers(hitbox, clip_of(command));
    let other = choose|k: int|
        0 <= k < content.all_boxes(style).len() && content.all_boxes(style)[k] == hitbox;
    let shown = lemma_box_of_window(content, style, other);
    law_tasks_fill_the_space(layout, owner);
    law_tasks_fill_the_space(layout, shown);
    if owner < shown {
        lemma_buttons_apart(layout, owner, shown);
    } else if shown < owner {
        lemma_buttons_apart(layout, shown, owner);
    }
    assert(content.tasks@[owner].id == content.tasks@[task].id);
    assert(owner == task) by {
        if owner < task {
            assert(content.tasks@[owner].id != content.tasks@[task].id);
        } else if task < owner {
            assert(content.tasks@[task].id != content.tasks@[owner].id);
        }
    }
    assert(shown == drawn) by {
        if shown < drawn {
            assert(content.tasks@[shown].id != content.tasks@[drawn].id);
        } else if drawn < shown {
            assert(content.tasks@[drawn].id != content.tasks@[shown].id);
        }
    }
}

} // verus!
