//! What holds of every part of a bar: what it shows, in which color, and where it is.

use vstd::prelude::*;

use crate::config::{color_of, ColorError, Config};
use crate::niri::WorkspaceSlot;
use crate::render::bar::{
    media_drawing, media_title_width, task_background_of, workspace_background_of,
    workspace_foreground_of, DrawCommand, MediaLabels, Picture, RenderContent, TaskItem,
};
use crate::render::layout::{has_colors, HitTarget, Style, TaskLayout};

verus! {

/// Every part of a bar has the color of the setting of its own name.
pub proof fn law_parts_have_their_own_color(style: Style, config: Config)
    requires
        has_colors(config),
        style.follows(config),
    ensures
        color_of(config.background@) == Ok::<Seq<u8>, ColorError>(style.background@),
        color_of(config.foreground@) == Ok::<Seq<u8>, ColorError>(style.foreground@),
        color_of(config.weather_foreground@) == Ok::<Seq<u8>, ColorError>(style.weather_foreground@),
        color_of(config.network_foreground@) == Ok::<Seq<u8>, ColorError>(style.network_foreground@),
        color_of(config.network_muted@) == Ok::<Seq<u8>, ColorError>(style.network_muted@),
        color_of(config.workspace_focused_background@) == Ok::<Seq<u8>, ColorError>(
            style.workspace_focused_background@,
        ),
        color_of(config.workspace_active_background@) == Ok::<Seq<u8>, ColorError>(
            style.workspace_active_background@,
        ),
        color_of(config.workspace_active_foreground@) == Ok::<Seq<u8>, ColorError>(
            style.workspace_active_foreground@,
        ),
        color_of(config.workspace_occupied_foreground@) == Ok::<Seq<u8>, ColorError>(
            style.workspace_occupied_foreground@,
        ),
        color_of(config.workspace_empty_foreground@) == Ok::<Seq<u8>, ColorError>(
            style.workspace_empty_foreground@,
        ),
        color_of(config.workspace_urgent_foreground@) == Ok::<Seq<u8>, ColorError>(
            style.workspace_urgent_foreground@,
        ),
        color_of(config.task_background@) == Ok::<Seq<u8>, ColorError>(style.task_background@),
        color_of(config.task_focused_background@) == Ok::<Seq<u8>, ColorError>(
            style.task_focused_background@,
        ),
        color_of(config.task_urgent_background@) == Ok::<Seq<u8>, ColorError>(style.task_urgent_background@),
        color_of(config.task_foreground@) == Ok::<Seq<u8>, ColorError>(style.task_foreground@),
        color_of(config.task_focused_foreground@) == Ok::<Seq<u8>, ColorError>(
            style.task_focused_foreground@,
        ),
        style.padding == config.padding,
        style.tray_icon_size == config.tray_icon_size,
        style.tray_spacing == config.tray_spacing,
        style.task_icon_size == config.task_icon_size,
        style.task_spacing == config.task_spacing,
        style.task_padding == config.task_padding,
        style.workspace_width == config.workspace_width,
{
    assert(color_of(config.color_text(0)) is Ok);
    assert(color_of(config.color_text(1)) is Ok);
    assert(color_of(config.color_text(2)) is Ok);
    assert(color_of(config.color_text(3)) is Ok);
    assert(color_of(config.color_text(4)) is Ok);
    assert(color_of(config.color_text(5)) is Ok);
    assert(color_of(config.color_text(6)) is Ok);
    assert(color_of(config.color_text(7)) is Ok);
    assert(color_of(config.color_text(18)) is Ok);
    assert(color_of(config.color_text(23)) is Ok);
    assert(color_of(config.color_text(24)) is Ok);
    assert(color_of(config.color_text(27)) is Ok);
    assert(color_of(config.color_text(28)) is Ok);
    assert(color_of(config.color_text(29)) is Ok);
    assert(color_of(config.color_text(30)) is Ok);
    assert(color_of(config.color_text(31)) is Ok);
}

/// A focused workspace has the focused background, another active one the active
/// background, and any other none. Urgency comes first in the color of a label, then
/// activity, then windows.
pub proof fn law_workspaces_show_their_state(style: &Style, workspace: WorkspaceSlot)
    ensures
        workspace.is_focused ==> workspace_background_of(style, workspace) == Some(
            style.workspace_focused_background,
        ),
        !workspace.is_focused && workspace.is_active ==> workspace_background_of(style, workspace)
            == Some(style.workspace_active_background),
        !workspace.is_focused && !workspace.is_active ==> workspace_background_of(style, workspace)
            is None,
        workspace.is_urgent ==> workspace_foreground_of(style, workspace)
            == style.workspace_urgent_foreground,
        !workspace.is_urgent && (workspace.is_focused || workspace.is_active)
            ==> workspace_foreground_of(style, workspace) == style.workspace_active_foreground,
        !workspace.is_urgent && !workspace.is_focused && !workspace.is_active
            ==> workspace_foreground_of(style, workspace) == (if workspace.is_occupied {
            style.workspace_occupied_foreground
        } else {
            style.workspace_empty_foreground
        }),
{
}

/// A focused task has the focused background, another urgent one the urgent background, and
/// any other the ordinary one.
pub proof fn law_tasks_show_their_state(style: &Style, task: TaskItem)
    ensures
        task.is_focused ==> task_background_of(style, task) == style.task_focused_background,
        !task.is_focused && task.is_urgent ==> task_background_of(style, task)
            == style.task_urgent_background,
        !task.is_focused && !task.is_urgent ==> task_background_of(style, task)
            == style.task_background,
{
}

/// The drawing of a workspace shows its own label, and a mark below it if and only if there
/// are windows on it; its background is filled if and only if it is active.
pub proof fn law_workspaces_are_drawn(content: &RenderContent, style: &Style, offset: int)
    requires
        0 <= offset < 5,
    ensures
        ({
            let drawn = content.workspace_drawing(style, offset);
            let workspace = content.workspaces[offset];
            let shown = workspace.is_focused || workspace.is_active;
            let label = if shown {
                1int
            } else {
                0
            };
            &&& drawn.len() == 1 + (if shown {
                1int
            } else {
                0
            }) + (if workspace.is_occupied {
                1int
            } else {
                0
            })
            &&& drawn[label] is Blit
            &&& drawn[label]->picture == Picture::WorkspaceLabel(offset as usize)
            &&& workspace.is_focused ==> drawn[0] is Fill && drawn[0]->Fill_color
                == style.workspace_focused_background
            &&& !workspace.is_focused && workspace.is_active ==> drawn[0] is Fill
                && drawn[0]->Fill_color == style.workspace_active_background
            &&& shown ==> drawn[0]->Fill_area == drawn[1]->clip
            &&& workspace.is_occupied ==> drawn.last() is Fill && drawn.last()->Fill_color
                == workspace_foreground_of(style, workspace)
        }),
{
}

proof fn lemma_workspace_boxes(content: &RenderContent, style: &Style, start: int, k: int)
    requires
        0 <= start <= 5,
        0 <= k < content.workspace_boxes(style, start).len(),
    ensures
        start + k < 5,
        content.workspace_boxes(style, start)[k].target == (HitTarget::Workspace {
            id: content.workspaces[start + k].id,
            index: (start + k + 1) as u8,
        }),
        content.workspace_boxes(style, start)[k].x == ((start + k) * content.workspace_width(
            style,
        )) as i32,
    decreases 5 - start,
{
    if k > 0 {
        let boxes = content.workspace_boxes(style, start);
        assert(boxes[k] == content.workspace_boxes(style, start + 1)[k - 1]);
        lemma_workspace_boxes(content, style, start + 1, k - 1);
    }
}

/// The box at a place focuses the workspace that is shown at that place, and covers the
/// place of its label.
pub proof fn law_workspace_boxes_lead_to_their_workspace(
    content: &RenderContent,
    style: &Style,
    place: int,
)
    requires
        0 <= place < content.workspace_boxes(style, 0).len(),
    ensures
        place < 5,
        ({
            let hitbox = content.workspace_boxes(style, 0)[place];
            let drawn = content.workspace_drawing(style, place);
            let workspace = content.workspaces[place];
            let label = drawn[if workspace.is_focused || workspace.is_active {
                1int
            } else {
                0
            }];
            &&& hitbox.target is Workspace
            &&& hitbox.target->id == workspace.id
            &&& hitbox.target->index == place + 1
            &&& label is Blit
            &&& label->picture == Picture::WorkspaceLabel(place as usize)
            &&& label->clip.x == hitbox.x
        }),
{
    lemma_workspace_boxes(content, style, 0, place);
}

/// The drawing of a task is its background, its own icon and its own label right of it; an
/// urgent task has a line below.
pub proof fn law_tasks_are_drawn(
    content: &RenderContent,
    style: &Style,
    layout: TaskLayout,
    index: int,
)
    requires
        0 <= index < content.tasks@.len(),
        content.tasks@.len() <= usize::MAX,
    ensures
        ({
            let drawn = content.task_drawing(style, layout, index);
            let task = content.tasks@[index];
            &&& drawn.len() == 3 + (if task.is_urgent {
                1int
            } else {
                0
            })
            &&& drawn[0] is Fill
            &&& drawn[0]->Fill_color == task_background_of(style, task)
            &&& drawn[1] is Blit && drawn[1]->picture == Picture::TaskIcon(index as usize)
            &&& drawn[1]->clip == drawn[0]->Fill_area
            &&& drawn[2] is Blit && drawn[2]->picture == Picture::TaskLabel(index as usize)
            &&& drawn[2]->width == task.label.width
            &&& drawn[2]->height == task.label.height
            &&& drawn[2]->Blit_x == drawn[2]->clip.x
            &&& task.is_urgent ==> drawn[3] is Fill && drawn[3]->Fill_color
                == style.task_urgent_background && drawn[3]->Fill_area.x == drawn[0]->Fill_area.x
                && drawn[3]->Fill_area.width == drawn[0]->Fill_area.width
        }),
        content.task_box(layout, index).target == HitTarget::Window(content.tasks@[index].id),
        content.task_box(layout, index).x == content.task_drawing(
            style,
            layout,
            index,
        )[0]->Fill_area.x,
        content.task_box(layout, index).width == content.task_drawing(
            style,
            layout,
            index,
        )[0]->Fill_area.width,
{
}

/// The weather, the network and the clock are shown where a click opens them.
pub proof fn law_status_is_shown_where_it_opens(content: &RenderContent, style: &Style)
    ensures
        style.weather_enabled <==> content.measures(style).weather,
        !style.weather_enabled ==> content.weather_drawing(style).len() == 0
            && content.weather_boxes(style).len() == 0,
        !style.network_enabled ==> content.network_drawing(style).len() == 0
            && content.network_boxes(style).len() == 0,
        content.weather_drawing(style).len() == content.weather_boxes(style).len(),
        content.network_drawing(style).len() == content.network_boxes(style).len(),
        content.weather_boxes(style).len() > 0 ==> {
            let hitbox = content.weather_boxes(style)[0];
            let drawn = content.weather_drawing(style)[0];
            &&& hitbox.target == HitTarget::Weather
            &&& drawn is Blit && drawn->picture == Picture::Weather
            &&& drawn->clip.x == hitbox.x && drawn->clip.width == hitbox.width
        },
        content.network_boxes(style).len() > 0 ==> {
            let hitbox = content.network_boxes(style)[0];
            let drawn = content.network_drawing(style)[0];
            &&& hitbox.target == HitTarget::Network
            &&& drawn is Blit && drawn->picture == Picture::Network
            &&& drawn->clip.x == hitbox.x && drawn->clip.width == hitbox.width
        },
        content.clock_drawing(style).len() == 1,
        content.clock_drawing(style)[0] is Blit,
        content.clock_drawing(style)[0]->picture == Picture::Clock,
        content.clock_boxes(style).len() > 0 <==> style.calendar_enabled && content.clock.width > 0,
        content.clock_boxes(style).len() > 0 ==> {
            let hitbox = content.clock_boxes(style)[0];
            let drawn = content.clock_drawing(style)[0];
            &&& hitbox.target == HitTarget::Clock
            &&& 0 <= content.measures(style).clock_x() <= 0x7fff_ffff ==> hitbox.x == drawn->Blit_x
        },
        content.keyboard is Some <==> content.keyboard_drawing(style).len() == 1,
        content.keyboard is Some ==> content.keyboard_drawing(style)[0] is Blit
            && content.keyboard_drawing(style)[0]->picture == Picture::Keyboard,
{
}

/// A tray icon is drawn at the place where a click reaches that icon.
pub proof fn law_tray_icons_are_shown_where_they_are_clicked(
    content: &RenderContent,
    style: &Style,
    count: int,
    place: int,
)
    requires
        0 <= place < content.tray_boxes(style, count).len(),
        count <= usize::MAX,
    ensures
        content.tray_drawings(style, count).len() == content.tray_boxes(style, count).len(),
        ({
            let hitbox = content.tray_boxes(style, count)[place];
            let drawn = content.tray_drawings(style, count)[place];
            &&& hitbox.target is Tray
            &&& hitbox.target->Tray_0 < count
            &&& content.tray_visible(style, hitbox.target->Tray_0 as int)
            &&& drawn is Blit
            &&& drawn->picture == Picture::TrayIcon(hitbox.target->Tray_0)
            &&& drawn->Blit_y == hitbox.y
            &&& drawn->height == hitbox.height
            &&& drawn->Blit_x == content.tray_icon_x(style, hitbox.target->Tray_0 as int) as i32
        }),
    decreases count,
{
    lemma_tray_lengths(content, style, count);
    if count > 0 {
        lemma_tray_lengths(content, style, count - 1);
        let before = content.tray_boxes(style, count - 1);
        if place < before.len() {
            law_tray_icons_are_shown_where_they_are_clicked(content, style, count - 1, place);
            assert(content.tray_boxes(style, count)[place] == before[place]);
            assert(content.tray_drawings(style, count)[place] == content.tray_drawings(
                style,
                count - 1,
            )[place]);
        }
    }
}

proof fn lemma_tray_lengths(content: &RenderContent, style: &Style, count: int)
    ensures
        content.tray_drawings(style, count).len() == content.tray_boxes(style, count).len(),
    decreases count,
{
    if count > 0 {
        lemma_tray_lengths(content, style, count - 1);
    }
}

/// Every tray icon that has room is shown.
pub proof fn law_visible_tray_icons_are_shown(
    content: &RenderContent,
    style: &Style,
    count: int,
    index: int,
)
    requires
        0 <= index < count,
        content.tray_visible(style, index),
    ensures
        content.tray_boxes(style, count).contains(content.tray_box(style, index)),
        content.tray_drawings(style, count).contains(content.tray_drawing(style, index)),
    decreases count,
{
    let boxes = content.tray_boxes(style, count);
    let drawn = content.tray_drawings(style, count);
    if index < count - 1 {
        law_visible_tray_icons_are_shown(content, style, count - 1, index);
        let before = content.tray_boxes(style, count - 1);
        let earlier = content.tray_drawings(style, count - 1);
        let i = choose|i: int| 0 <= i < before.len() && before[i] == content.tray_box(style, index);
        assert(boxes[i] == before[i]);
        let j = choose|j: int|
            0 <= j < earlier.len() && earlier[j] == content.tray_drawing(style, index);
        assert(drawn[j] == earlier[j]);
    } else {
        assert(boxes[boxes.len() - 1] == content.tray_box(style, index));
        assert(drawn[drawn.len() - 1] == content.tray_drawing(style, index));
    }
}

/// The media line shows title, separator and detail from left to right. Where there is not
/// enough room the title is cut, and the detail is kept as long as it fits.
pub proof fn law_media_lines_keep_their_detail(
    media: MediaLabels,
    left: int,
    right: int,
    height: int,
)
    requires
        media.title.wf(),
        media.separator.wf(),
        media.detail.wf(),
        0 <= left < right <= 0x400_0000,
        0 <= height <= 0x400_0000,
    ensures
        ({
            let drawn = media_drawing(media, left, right, height);
            let last = drawn[drawn.len() - 1];
            &&& 2 <= drawn.len() <= 3
            &&& drawn[0] is Blit && drawn[0]->picture == Picture::MediaTitle
            &&& last is Blit && last->picture == Picture::MediaDetail
            &&& drawn.len() == 3 ==> drawn[1] is Blit && drawn[1]->picture
                == Picture::MediaSeparator && drawn[0]->clip.x + drawn[0]->clip.width
                == drawn[1]->Blit_x && drawn[1]->Blit_x + media.separator.width == last->Blit_x
                && drawn[0]->clip.width > 0
            &&& drawn[0]->clip.width <= media.title.width
            &&& media.detail.width <= right - left ==> left <= last->Blit_x && last->Blit_x
                + media.detail.width <= right
            &&& media.title.width > 0 && media.title.width + media.separator.width
                + media.detail.width <= right - left ==> drawn.len() == 3 && drawn[0]->clip.width
                == media.title.width
        }),
{
}

/// The parts of a bar are all drawn, on a background in its color, and all of their boxes
/// can be hit.
pub proof fn law_all_parts_are_there(content: &RenderContent, style: &Style)
    ensures
        ({
            let all = content.all_drawings(style);
            let workspaces = content.workspace_drawings(style, 0);
            let tasks = content.all_task_drawings(style);
            let media = content.all_media_drawings(style);
            let clock = content.clock_drawing(style);
            let weather = content.weather_drawing(style);
            let keyboard = content.keyboard_drawing(style);
            let network = content.network_drawing(style);
            let handle = content.handle_drawing(style);
            let tray = content.tray_drawings(style, content.tray_len as int);
            &&& all.len() == 1 + workspaces.len() + tasks.len() + media.len() + clock.len()
                + weather.len() + keyboard.len() + network.len() + handle.len() + tray.len()
            &&& all[0] == DrawCommand::Clear { color: style.background }
        }),
        ({
            let all = content.all_boxes(style);
            &&& all.len() == content.workspace_boxes(style, 0).len() + content.all_task_boxes(
                style,
            ).len() + content.clock_boxes(style).len() + content.weather_boxes(style).len()
                + content.network_boxes(style).len() + content.handle_boxes(style).len()
                + content.tray_boxes(style, content.tray_len as int).len()
        }),
{
}

/// Everything at the right end of a bar stands right of where its content begins; what is
/// left of that is for workspaces, tasks and the media line.
pub proof fn law_content_begins_left_of_its_parts(content: &RenderContent, style: &Style)
    ensures
        ({
            let e = content.edges(style);
            &&& e.content_left() <= e.m.right_anchor()
            &&& content.tray_len > 0 ==> e.content_left() <= e.tray_left()
            &&& e.m.keyboard_width > 0 ==> e.content_left() <= e.keyboard_x()
            &&& e.m.network ==> e.content_left() <= e.m.network_x()
            &&& content.media_right(style) + e.m.spacing <= e.content_left()
            &&& content.media_right(style) <= e.m.width
            &&& 0 <= content.media_left(style)
            &&& e.m.centered ==> e.m.clock_right() + e.m.spacing <= content.media_left(style)
                || e.m.weather
            &&& e.m.centered && e.m.weather ==> e.m.weather_x() + e.m.icon + 2 * e.m.spacing
                <= content.media_left(style)
            &&& !e.m.centered ==> 5 * content.workspace_width(style) + e.m.spacing
                <= content.media_left(style)
            &&& e.m.centered ==> e.workspace_right() + e.m.spacing == e.m.clock_x()
                || e.workspace_right() == 0
            &&& !e.m.centered ==> e.workspace_right() + e.m.spacing == e.content_left()
                || e.workspace_right() == 0
        }),
        content.workspace_width(style) == style.workspace_width * crate::render::layout::scale_of(
            content.scale,
        ),
{
}

/// The media line is shown if it is enabled, there is something to show and room for it.
pub proof fn law_media_lines_need_room(content: &RenderContent, style: &Style)
    ensures
        content.all_media_drawings(style).len() > 0 <==> style.media_enabled && content.media
            is Some && content.media_left(style) < content.media_right(style),
        content.media matches Some(media) ==> media.title.width >= 0 ==> 0 <= media_title_width(
            media,
            content.media_left(style),
            content.media_right(style),
        ) <= media.title.width,
{
}

/// The tray ends before the handle of its drawer, and begins no earlier than the clock lets
/// it.
pub proof fn law_trays_stay_in_their_place(content: &RenderContent, style: &Style, index: int)
    ensures
        ({
            let e = content.edges(style);
            &&& e.drawer ==> content.tray_right(style) + e.m.spacing == e.handle()
            &&& !e.drawer ==> content.tray_right(style) == e.m.width
            &&& content.tray_clip_left(style) >= e.right_min()
            &&& content.tray_clip_left(style) >= e.tray_left()
            &&& content.tray_icon_x(style, 0) == e.tray_left()
            &&& content.tray_icon_x(style, index + 1) == content.tray_icon_x(style, index)
                + e.m.icon + e.m.spacing
            &&& e.drawer <==> style.tray_drawer && content.tray_len > 0
            &&& content.handle_boxes(style).len() > 0 <==> e.drawer
        }),
{
    let e = content.edges(style);
    let step = e.m.icon + e.m.spacing;
    assert((index + 1) * step == index * step + step && 0 * step == 0) by (nonlinear_arith);
}

} // verus!
