//! What is drawn on the bar, and what of it can be clicked.
//!
//! Drawing is planned from the sizes of the texts alone. The plan is a list of
//! commands, which are carried out in order on a canvas.

use vstd::prelude::*;

use crate::config::ClockPosition;
use crate::niri::WorkspaceSlot;
use crate::render::layout::{
    half, larger, max_i32, measures, min_i32, scale_of, scaled, smaller, BarLayout, HitTarget, Hitbox,
    Measures, Style, TaskLayout, LONGEST,
};
use crate::render::pixels::PixelRect;

verus! {

/// The size of a text or a canvas in physical pixels.
#[derive(Clone, Copy, Debug, PartialEq, Eq, Structural)]
pub struct Size {
    pub width: i32,
    pub height: i32,
}

impl Size {
    pub open spec fn wf(self) -> bool {
        0 <= self.width <= LONGEST && 0 <= self.height <= LONGEST
    }
}

/// The sizes of the keyboard layout's text and of the room that is kept for it.
#[derive(Clone, Copy, Debug, PartialEq, Eq, Structural)]
pub struct KeyboardLabel {
    pub reserved_width: i32,
    pub size: Size,
}

/// A task with the size of its label.
#[derive(Clone, Copy, Debug, PartialEq, Eq, Structural)]
pub struct TaskItem {
    pub id: u64,
    pub is_focused: bool,
    pub is_urgent: bool,
    pub label: Size,
}

/// The sizes of the parts of the media line.
#[derive(Clone, Copy, Debug, PartialEq, Eq, Structural)]
pub struct MediaLabels {
    pub title: Size,
    pub separator: Size,
    pub detail: Size,
}

/// What a bar shows, with the sizes of its texts.
#[derive(Debug)]
pub struct RenderContent {
    pub canvas: Size,
    pub scale: u32,
    pub clock: Size,
    pub keyboard: Option<KeyboardLabel>,
    pub tray_len: usize,
    /// How much of the tray drawer is open.
    pub drawer_visible: i32,
    pub workspaces: [WorkspaceSlot; 5],
    pub workspace_labels: [Size; 5],
    pub tasks: Vec<TaskItem>,
    pub media: Option<MediaLabels>,
}

/// A picture that is drawn on the bar.
#[derive(Clone, Copy, Debug, PartialEq, Eq, Structural)]
pub enum Picture {
    Clock,
    Keyboard,
    Weather,
    Network,
    TrayIcon(usize),
    WorkspaceLabel(usize),
    TaskIcon(usize),
    TaskLabel(usize),
    MediaTitle,
    MediaSeparator,
    MediaDetail,
}

/// One step of drawing.
#[derive(Clone, Copy, Debug)]
pub enum DrawCommand {
    /// Replaces the whole canvas by a color.
    Clear { color: [u8; 4] },
    /// Lays a color over a rectangle.
    Fill { area: PixelRect, color: [u8; 4] },
    /// Lays a picture of the given size over the canvas, inside a clip.
    Blit { picture: Picture, x: i32, y: i32, width: i32, height: i32, clip: PixelRect },
    /// Draws the chevron of the tray drawer.
    DrawerHandle { x: i32, y: i32, size: i32 },
}

/// What to draw, and what can be clicked.
#[derive(Debug)]
pub struct BarPlan {
    pub commands: Vec<DrawCommand>,
    pub hitboxes: Vec<Hitbox>,
}

pub open spec fn rect(x: int, y: int, width: int, height: int) -> PixelRect {
    PixelRect { x: x as i32, y: y as i32, width: width as i32, height: height as i32 }
}

pub open spec fn hitbox(target: HitTarget, x: int, y: int, width: int, height: int) -> Hitbox {
    Hitbox { target, x: x as i32, y: y as i32, width: width as i32, height: height as i32 }
}

pub open spec fn blit(picture: Picture, x: int, y: int, size: Size, clip: PixelRect) -> DrawCommand {
    DrawCommand::Blit {
        picture,
        x: x as i32,
        y: y as i32,
        width: size.width,
        height: size.height,
        clip,
    }
}

pub open spec fn fill(x: int, y: int, width: int, height: int, color: [u8; 4]) -> DrawCommand {
    DrawCommand::Fill { area: rect(x, y, width, height), color }
}

impl RenderContent {
    /// The measures that the bar is laid out from.
    pub open spec fn measures(&self, style: &Style) -> Measures {
        let keyboard = match self.keyboard {
            Some(label) => (label.reserved_width, label.size.height),
            None => (0i32, 0i32),
        };
        measures(
            (self.canvas.width, self.canvas.height),
            (self.clock.width, self.clock.height),
            keyboard,
            self.tray_len,
            self.scale,
            style,
        )
    }

    /// Every length is one that can be drawn with, and the drawer is open at
    /// most as far as its icons reach.
    pub open spec fn wf(&self, style: &Style) -> bool {
        let m = self.measures(style);
        &&& m.wf()
        &&& self.scale <= 0x1_0000
        &&& (self.keyboard matches Some(label) ==> label.size.wf())
        &&& forall|i: int| 0 <= i < 5 ==> (#[trigger] self.workspace_labels[i]).wf()
        &&& self.tasks@.len() <= LONGEST
        &&& forall|i: int| 0 <= i < self.tasks@.len() ==> (#[trigger] self.tasks@[i]).label.wf()
        &&& (self.media matches Some(media) ==> media.title.wf() && media.separator.wf()
            && media.detail.wf())
        &&& 0 <= self.drawer_visible <= m.tray_len * (m.icon + m.spacing)
    }
}

/// Whether a size is one that can be drawn with.
fn size_fits(size: Size) -> (result: bool)
    ensures
        result == size.wf(),
{
    0 <= size.width && size.width <= LONGEST && 0 <= size.height && size.height <= LONGEST
}

impl RenderContent {
    fn labels_fit(&self) -> (result: bool)
        ensures
            result == ((forall|i: int| 0 <= i < 5 ==> (#[trigger] self.workspace_labels[i]).wf())
                && (forall|i: int|
                0 <= i < self.tasks@.len() ==> (#[trigger] self.tasks@[i]).label.wf())),
    {
        let mut i: usize = 0;
        while i < 5
            invariant
                i <= 5,
                forall|k: int| 0 <= k < i ==> (#[trigger] self.workspace_labels[k]).wf(),
            decreases 5 - i,
        {
            if !size_fits(self.workspace_labels[i]) {
                assert(!self.workspace_labels[i as int].wf());
                return false;
            }
            i += 1;
        }
        let mut k: usize = 0;
        while k < self.tasks.len()
            invariant
                k <= self.tasks@.len(),
                forall|j: int| 0 <= j < k ==> (#[trigger] self.tasks@[j]).label.wf(),
            decreases self.tasks@.len() - k,
        {
            if !size_fits(self.tasks[k].label) {
                assert(!self.tasks@[k as int].label.wf());
                return false;
            }
            k += 1;
        }
        true
    }

    fn texts_fit(&self) -> (result: bool)
        ensures
            result == (self.canvas.wf() && self.clock.wf() && (self.keyboard matches Some(label)
                ==> 0 <= label.reserved_width <= LONGEST && label.size.wf()) && (
            self.media matches Some(media) ==> media.title.wf() && media.separator.wf()
                && media.detail.wf())),
    {
        let keyboard = match self.keyboard {
            Some(label) => 0 <= label.reserved_width && label.reserved_width <= LONGEST
                && size_fits(label.size),
            None => true,
        };
        let media = match self.media {
            Some(media) => size_fits(media.title) && size_fits(media.separator) && size_fits(
                media.detail,
            ),
            None => true,
        };
        size_fits(self.canvas) && size_fits(self.clock) && keyboard && media
    }

    fn tray_fits(&self, style: &Style) -> (result: bool)
        requires
            style.wf(),
            self.scale <= 0x1_0000,
        ensures
            result == ({
                let icon = style.tray_icon_size * scale_of(self.scale);
                let spacing = style.tray_spacing * scale_of(self.scale);
                &&& style.padding * scale_of(self.scale) <= LONGEST
                &&& spacing <= LONGEST
                &&& icon <= LONGEST
                &&& self.tray_len * (icon + spacing) <= LONGEST
                &&& 0 <= self.drawer_visible <= self.tray_len * (icon + spacing)
            }),
    {
        let icon: i32 = scaled(style.tray_icon_size, self.scale);
        let spacing: i32 = scaled(style.tray_spacing, self.scale);
        let padding: i32 = scaled(style.padding, self.scale);
        let step: i32 = icon + spacing;
        assert(0 <= self.tray_len * step <= u128::MAX) by (nonlinear_arith)
            requires
                0 <= self.tray_len <= u64::MAX,
                0 <= step <= i32::MAX,
        ;
        let width: u128 = self.tray_len as u128 * step as u128;
        padding <= LONGEST && width <= LONGEST as u128 && 0 <= self.drawer_visible
            && self.drawer_visible as u128 <= width
    }

    /// Whether the bar can be drawn with these lengths.
    pub fn fits(&self, style: &Style) -> (result: bool)
        requires
            style.wf(),
        ensures
            result == self.wf(style),
    {
        if self.scale > 0x1_0000 {
            return false;
        }
        proof {
            assert(0 < style.tray_icon_size * scale_of(self.scale)) by (nonlinear_arith)
                requires
                    0 < style.tray_icon_size,
                    0 < scale_of(self.scale),
            ;
            assert(0 <= style.tray_spacing * scale_of(self.scale)) by (nonlinear_arith)
                requires
                    0 < scale_of(self.scale),
            ;
            assert(0 <= style.padding * scale_of(self.scale)) by (nonlinear_arith)
                requires
                    0 < scale_of(self.scale),
            ;
        }
        self.texts_fit() && self.labels_fit() && self.tray_fits(style) && self.tasks.len()
            <= LONGEST as usize
    }
}

/// The width of all tray icons with a gap after each: how far the drawer opens.
pub fn drawer_width(style: &Style, scale: u32, tray_len: usize) -> (result: i32)
    requires
        style.wf(),
        scale <= 0x1_0000,
        tray_len <= LONGEST,
        tray_len * (style.tray_icon_size * scale_of(scale) + style.tray_spacing * scale_of(scale))
            <= LONGEST,
    ensures
        result == tray_len * (style.tray_icon_size * scale_of(scale) + style.tray_spacing
            * scale_of(scale)),
{
    let step: i32 = scaled(style.tray_icon_size, scale) + scaled(style.tray_spacing, scale);
    assert(0 <= tray_len * step) by (nonlinear_arith)
        requires
            0 <= tray_len,
            0 <= step,
    ;
    tray_len as i32 * step
}

/// The left edge of the item after `count` items of one width.
fn repeated(count: usize, width: i32) -> (result: i32)
    requires
        count <= 5,
        0 <= width <= LONGEST,
    ensures
        result == count * width,
        0 <= result <= 5 * LONGEST,
{
    assert(0 <= count * width <= 5 * LONGEST) by (nonlinear_arith)
        requires
            0 <= count <= 5,
            0 <= width <= LONGEST,
    ;
    count as i32 * width
}

/// The edges that the parts of the bar are drawn between.
pub ghost struct Edges {
    pub m: Measures,
    pub drawer: bool,
    pub visible: int,
}

impl Edges {
    /// Where content right of a centered clock may begin.
    pub open spec fn right_min(self) -> int {
        if self.m.centered {
            larger(
                if self.m.weather {
                    self.m.weather_x() + self.m.icon + 2 * self.m.spacing
                } else {
                    self.m.clock_right() + self.m.spacing
                },
                0,
            )
        } else {
            0
        }
    }

    /// The drawer stands left of the keyboard layout, so that with a drawer the
    /// layout moves to the right end of the group.
    pub open spec fn keyboard_x(self) -> int {
        if self.drawer && !self.m.network {
            if self.m.keyboard_width > 0 {
                self.m.right_anchor() - self.m.spacing - self.m.keyboard_width
            } else {
                self.m.right_anchor()
            }
        } else {
            self.m.keyboard_x()
        }
    }

    /// The left edge of the drawer's chevron.
    pub open spec fn handle(self) -> int {
        self.keyboard_x() - self.m.spacing - self.m.icon
    }

    pub open spec fn tray_left(self) -> int {
        if self.drawer {
            self.handle() - self.visible
        } else {
            self.m.tray_x()
        }
    }

    /// The left edge of everything in the status group.
    pub open spec fn content_left(self) -> int {
        let anchor = self.m.right_anchor();
        let tray = if self.m.tray_len > 0 {
            smaller(anchor, self.tray_left())
        } else {
            anchor
        };
        let keyboard = if self.m.keyboard_width > 0 {
            smaller(tray, self.keyboard_x())
        } else {
            tray
        };
        if self.m.network {
            smaller(keyboard, self.m.network_x())
        } else {
            keyboard
        }
    }

    /// Where workspaces have to end.
    pub open spec fn workspace_right(self) -> int {
        if self.m.centered {
            larger(self.m.clock_x() - self.m.spacing, 0)
        } else {
            larger(self.content_left() - self.m.spacing, 0)
        }
    }
}

impl RenderContent {
    pub open spec fn edges(&self, style: &Style) -> Edges {
        Edges {
            m: self.measures(style),
            drawer: style.tray_drawer && self.tray_len > 0,
            visible: self.drawer_visible as int,
        }
    }
}

/// The edges as the planner uses them.
#[derive(Clone, Copy, Debug)]
struct Frame {
    layout: BarLayout,
    clock_right: i32,
    right_min: i32,
    handle: Option<i32>,
    content_left: i32,
    workspace_right: i32,
}

impl Frame {
    spec fn follows(self, e: Edges) -> bool {
        &&& self.layout.clock_x == e.m.clock_x()
        &&& self.layout.clock_y == half(e.m.height - e.m.clock_height)
        &&& self.layout.keyboard_x == e.keyboard_x()
        &&& self.layout.network_x == (if e.m.network {
            Some(e.m.network_x() as i32)
        } else {
            None
        })
        &&& self.layout.weather_x == (if e.m.weather {
            Some(e.m.weather_x() as i32)
        } else {
            None
        })
        &&& self.layout.keyboard_y == half(e.m.height - e.m.keyboard_height)
        &&& self.layout.keyboard_width == e.m.keyboard_width
        &&& self.layout.tray_left == e.tray_left()
        &&& self.layout.icon_y == half(e.m.height - e.m.icon)
        &&& self.layout.icon_size == e.m.icon
        &&& self.layout.spacing == e.m.spacing
        &&& self.clock_right == e.m.clock_right()
        &&& self.right_min == e.right_min()
        &&& self.handle == (if e.drawer {
            Some(e.handle() as i32)
        } else {
            None
        })
        &&& self.content_left == e.content_left()
        &&& self.workspace_right == e.workspace_right()
    }
}

fn arrange(content: &RenderContent, style: &Style) -> (result: Frame)
    requires
        style.wf(),
        content.wf(style),
    ensures
        result.follows(content.edges(style)),
{
    let ghost e = content.edges(style);
    let keyboard: (i32, i32) = match content.keyboard {
        Some(label) => (label.reserved_width, label.size.height),
        None => (0, 0),
    };
    let mut layout = BarLayout::calculate(
        (content.canvas.width, content.canvas.height),
        (content.clock.width, content.clock.height),
        keyboard,
        content.tray_len,
        content.scale,
        style,
    );
    let centered = style.clock_position == ClockPosition::Center;
    let right_anchor: i32 = if centered {
        content.canvas.width - scaled(style.padding, content.scale)
    } else {
        layout.clock_x
    };
    let clock_right: i32 = layout.clock_x + content.clock.width;
    let right_min: i32 = if centered {
        match layout.weather_x {
            Some(x) => max_i32(x + layout.icon_size + layout.spacing * 2, 0),
            None => max_i32(clock_right + layout.spacing, 0),
        }
    } else {
        0
    };
    let mut handle: Option<i32> = None;
    if style.tray_drawer && content.tray_len > 0 {
        if layout.network_x.is_none() {
            layout.keyboard_x = if layout.keyboard_width > 0 {
                right_anchor - layout.spacing - layout.keyboard_width
            } else {
                right_anchor
            };
        }
        let x: i32 = layout.keyboard_x - layout.spacing - layout.icon_size;
        layout.tray_left = x - content.drawer_visible;
        handle = Some(x);
    }
    let mut content_left: i32 = right_anchor;
    if content.tray_len > 0 {
        content_left = min_i32(content_left, layout.tray_left);
    }
    if layout.keyboard_width > 0 {
        content_left = min_i32(content_left, layout.keyboard_x);
    }
    if let Some(x) = layout.network_x {
        content_left = min_i32(content_left, x);
    }
    let workspace_right: i32 = if centered {
        max_i32(layout.clock_x - layout.spacing, 0)
    } else {
        max_i32(content_left - layout.spacing, 0)
    };
    Frame { layout, clock_right, right_min, handle, content_left, workspace_right }
}

/// The background that marks a focused or an active workspace.
pub open spec fn workspace_background_of(style: &Style, workspace: WorkspaceSlot) -> Option<[u8; 4]> {
    if workspace.is_focused {
        Some(style.workspace_focused_background)
    } else if workspace.is_active {
        Some(style.workspace_active_background)
    } else {
        None
    }
}

pub fn workspace_background(style: &Style, workspace: WorkspaceSlot) -> (result: Option<[u8; 4]>)
    ensures
        result == workspace_background_of(style, workspace),
{
    if workspace.is_focused {
        Some(style.workspace_focused_background)
    } else if workspace.is_active {
        Some(style.workspace_active_background)
    } else {
        None
    }
}

/// The color of a workspace's label: urgent, shown, occupied or empty.
pub open spec fn workspace_foreground_of(style: &Style, workspace: WorkspaceSlot) -> [u8; 4] {
    if workspace.is_urgent {
        style.workspace_urgent_foreground
    } else if workspace.is_focused || workspace.is_active {
        style.workspace_active_foreground
    } else if workspace.is_occupied {
        style.workspace_occupied_foreground
    } else {
        style.workspace_empty_foreground
    }
}

pub fn workspace_foreground(style: &Style, workspace: WorkspaceSlot) -> (result: [u8; 4])
    ensures
        result == workspace_foreground_of(style, workspace),
{
    if workspace.is_urgent {
        style.workspace_urgent_foreground
    } else if workspace.is_focused || workspace.is_active {
        style.workspace_active_foreground
    } else if workspace.is_occupied {
        style.workspace_occupied_foreground
    } else {
        style.workspace_empty_foreground
    }
}

/// The label of a workspace: 0 stands for the dot of a shown one.
pub fn workspace_label_index(workspace: WorkspaceSlot) -> (result: u8)
    ensures
        result == if workspace.is_focused || workspace.is_active {
            0
        } else {
            workspace.index
        },
{
    if workspace.is_focused || workspace.is_active {
        0
    } else {
        workspace.index
    }
}

/// The width of the visible part of the workspace at an offset.
pub open spec fn workspace_visible(offset: int, width: int, right_limit: int, canvas: int) -> int {
    smaller(smaller(width, right_limit - offset * width), canvas - offset * width)
}

impl RenderContent {
    pub open spec fn workspace_width(&self, style: &Style) -> int {
        style.workspace_width * scale_of(self.scale)
    }

    /// The boxes of the workspaces from an offset on, up to the first hidden one.
    pub open spec fn workspace_boxes(&self, style: &Style, offset: int) -> Seq<Hitbox>
        decreases 5 - offset,
    {
        let width = self.workspace_width(style);
        let visible = workspace_visible(
            offset,
            width,
            self.edges(style).workspace_right(),
            self.canvas.width as int,
        );
        if offset >= 5 || visible <= 0 {
            Seq::empty()
        } else {
            seq![
                hitbox(
                    HitTarget::Workspace {
                        id: self.workspaces[offset].id,
                        index: (offset + 1) as u8,
                    },
                    offset * width,
                    0,
                    visible,
                    self.canvas.height as int,
                ),
            ] + self.workspace_boxes(style, offset + 1)
        }
    }

    /// How one workspace is drawn: a background if it is shown, its label, and
    /// an underline if it is occupied.
    pub open spec fn workspace_drawing(&self, style: &Style, offset: int) -> Seq<DrawCommand> {
        let width = self.workspace_width(style);
        let limit = self.edges(style).workspace_right();
        let x = offset * width;
        let visible = workspace_visible(offset, width, limit, self.canvas.width as int);
        let height = self.canvas.height as int;
        let workspace = self.workspaces[offset];
        let label = self.workspace_labels[offset];
        let mark = larger(width / 3, 4 * scale_of(self.scale));
        let start = match workspace_background_of(style, workspace) {
            Some(color) => seq![fill(x, 0, visible, height, color)],
            None => Seq::empty(),
        };
        let labelled = start.push(
            blit(
                Picture::WorkspaceLabel(offset as usize),
                x + half(width - label.width),
                half(height - label.height),
                label,
                rect(x, 0, visible, height),
            ),
        );
        if workspace.is_occupied {
            labelled.push(
                fill(
                    x + half(width - mark),
                    height - 2 * scale_of(self.scale),
                    smaller(mark, limit - x - half(width - mark)),
                    2 * scale_of(self.scale),
                    workspace_foreground_of(style, workspace),
                ),
            )
        } else {
            labelled
        }
    }

    /// How the workspaces from an offset on are drawn, up to the first hidden one.
    pub open spec fn workspace_drawings(&self, style: &Style, offset: int) -> Seq<DrawCommand>
        decreases 5 - offset,
    {
        let visible = workspace_visible(
            offset,
            self.workspace_width(style),
            self.edges(style).workspace_right(),
            self.canvas.width as int,
        );
        if offset >= 5 || visible <= 0 {
            Seq::empty()
        } else {
            self.workspace_drawing(style, offset) + self.workspace_drawings(style, offset + 1)
        }
    }
}

fn plan_workspace(
    content: &RenderContent,
    style: &Style,
    offset: usize,
    right_limit: i32,
    commands: &mut Vec<DrawCommand>,
)
    requires
        style.wf(),
        content.wf(style),
        right_limit == content.edges(style).workspace_right(),
        0 <= right_limit <= 8 * LONGEST,
        offset < 5,
    ensures
        final(commands)@ == old(commands)@ + content.workspace_drawing(style, offset as int),
{
    let scale: i32 = if content.scale >= 1 {
        content.scale as i32
    } else {
        1
    };
    let width: i32 = scaled(style.workspace_width, content.scale);
    let height: i32 = content.canvas.height;
    let x: i32 = repeated(offset, width);
    let visible: i32 = min_i32(min_i32(width, right_limit - x), content.canvas.width - x);
    let workspace = content.workspaces[offset];
    let ghost expected = content.workspace_drawing(style, offset as int);
    let ghost before = commands@;
    if let Some(color) = workspace_background(style, workspace) {
        commands.push(
            DrawCommand::Fill { area: PixelRect { x, y: 0, width: visible, height }, color },
        );
    }
    let label = content.workspace_labels[offset];
    assert(label.wf());
    commands.push(
        DrawCommand::Blit {
            picture: Picture::WorkspaceLabel(offset),
            x: x + (width - label.width) / 2,
            y: (height - label.height) / 2,
            width: label.width,
            height: label.height,
            clip: PixelRect { x, y: 0, width: visible, height },
        },
    );
    if workspace.is_occupied {
        let mark: i32 = max_i32(width / 3, scale * 4);
        let mark_x: i32 = x + (width - mark) / 2;
        commands.push(
            DrawCommand::Fill {
                area: PixelRect {
                    x: mark_x,
                    y: height - 2 * scale,
                    width: min_i32(mark, right_limit - mark_x),
                    height: 2 * scale,
                },
                color: workspace_foreground(style, workspace),
            },
        );
    }
    assert(commands@ =~= before + expected);
}

fn plan_workspaces(
    content: &RenderContent,
    style: &Style,
    right_limit: i32,
    commands: &mut Vec<DrawCommand>,
    hitboxes: &mut Vec<Hitbox>,
)
    requires
        style.wf(),
        content.wf(style),
        right_limit == content.edges(style).workspace_right(),
        0 <= right_limit <= 8 * LONGEST,
    ensures
        final(commands)@ == old(commands)@ + content.workspace_drawings(style, 0),
        final(hitboxes)@ == old(hitboxes)@ + content.workspace_boxes(style, 0),
{
    let width: i32 = scaled(style.workspace_width, content.scale);
    let mut offset: usize = 0;
    while offset < 5
        invariant
            offset <= 5,
            style.wf(),
            content.wf(style),
            right_limit == content.edges(style).workspace_right(),
            0 <= right_limit <= 8 * LONGEST,
            width == content.workspace_width(style),
            0 <= width <= LONGEST,
            commands@ + content.workspace_drawings(style, offset as int) == old(commands)@
                + content.workspace_drawings(style, 0),
            hitboxes@ + content.workspace_boxes(style, offset as int) == old(hitboxes)@
                + content.workspace_boxes(style, 0),
        decreases 5 - offset,
    {
        let x: i32 = repeated(offset, width);
        let visible: i32 = min_i32(min_i32(width, right_limit - x), content.canvas.width - x);
        if visible <= 0 {
            assert(commands@ + Seq::<DrawCommand>::empty() =~= commands@);
            assert(hitboxes@ + Seq::<Hitbox>::empty() =~= hitboxes@);
            return;
        }
        let next = Hitbox {
            target: HitTarget::Workspace {
                id: content.workspaces[offset].id,
                index: offset as u8 + 1,
            },
            x,
            y: 0,
            width: visible,
            height: content.canvas.height,
        };
        let ghost boxes = hitboxes@;
        let ghost drawn = commands@;
        hitboxes.push(next);
        plan_workspace(content, style, offset, right_limit, commands);
        assert(boxes + content.workspace_boxes(style, offset as int) =~= hitboxes@
            + content.workspace_boxes(style, offset + 1));
        assert(drawn + content.workspace_drawings(style, offset as int) =~= commands@
            + content.workspace_drawings(style, offset + 1));
        offset += 1;
    }
    assert(commands@ + Seq::<DrawCommand>::empty() =~= commands@);
    assert(hitboxes@ + Seq::<Hitbox>::empty() =~= hitboxes@);
}

/// The background of a task.
pub open spec fn task_background_of(style: &Style, task: TaskItem) -> [u8; 4] {
    if task.is_focused {
        style.task_focused_background
    } else if task.is_urgent {
        style.task_urgent_background
    } else {
        style.task_background
    }
}

pub fn task_background(style: &Style, task: TaskItem) -> (result: [u8; 4])
    ensures
        result == task_background_of(style, task),
{
    if task.is_focused {
        style.task_focused_background
    } else if task.is_urgent {
        style.task_urgent_background
    } else {
        style.task_background
    }
}

/// The color of a task's label.
pub fn task_foreground(style: &Style, is_focused: bool) -> (result: [u8; 4])
    ensures
        result == if is_focused {
            style.task_focused_foreground
        } else {
            style.task_foreground
        },
{
    if is_focused {
        style.task_focused_foreground
    } else {
        style.task_foreground
    }
}

/// The layout of tasks in a space, if each of them gets a pixel.
pub open spec fn task_layout(left: int, right: int, height: int, count: int, spacing: int) -> Option<
    TaskLayout,
> {
    let width = crate::render::layout::content_width(left, right, count, spacing);
    if count == 0 || right <= left || width < count {
        None
    } else {
        Some(
            TaskLayout {
                left: left as i32,
                height: height as i32,
                item_width: (width / count) as i32,
                remainder: (width % count) as i32,
                spacing: spacing as i32,
                count: count as i32,
            },
        )
    }
}

impl RenderContent {
    /// Tasks share the space between the workspaces and a centered clock.
    pub open spec fn tasks_layout(&self, style: &Style) -> Option<TaskLayout> {
        let m = self.measures(style);
        let spacing = style.task_spacing * scale_of(self.scale);
        if m.centered {
            task_layout(
                5 * self.workspace_width(style),
                m.clock_x() - m.spacing - spacing,
                m.height,
                self.tasks@.len() as int,
                spacing,
            )
        } else {
            None
        }
    }

    pub open spec fn task_rect(&self, layout: TaskLayout, index: int) -> PixelRect {
        rect(layout.item_x(index), 0, layout.item_wide(index), layout.height as int)
    }

    pub open spec fn task_box(&self, layout: TaskLayout, index: int) -> Hitbox {
        hitbox(
            HitTarget::Window(self.tasks@[index].id),
            layout.item_x(index),
            0,
            layout.item_wide(index),
            layout.height as int,
        )
    }

    /// How one task is drawn: a background, its icon and as much of its label as
    /// fits beside it, both centered, and a line if it is urgent.
    pub open spec fn task_drawing(&self, style: &Style, layout: TaskLayout, index: int) -> Seq<
        DrawCommand,
    > {
        let task = self.tasks@[index];
        let scale = scale_of(self.scale);
        let x = layout.item_x(index);
        let width = layout.item_wide(index);
        let height = layout.height as int;
        let padding = style.task_padding * scale;
        let icon = style.task_icon_size * scale;
        let visible = task_label_width(width, task.label.width as int, padding, icon);
        let icon_x = task_icon_x(x, width, task.label.width as int, padding, icon);
        let label_x = icon_x + icon + padding;
        let drawn = seq![
            fill(x, 0, width, height, task_background_of(style, task)),
            blit(
                Picture::TaskIcon(index as usize),
                icon_x,
                half(height - icon),
                (Size { width: icon as i32, height: icon as i32 }),
                self.task_rect(layout, index),
            ),
            blit(
                Picture::TaskLabel(index as usize),
                label_x,
                half(height - task.label.height),
                task.label,
                rect(label_x, 0, visible, height),
            ),
        ];
        if task.is_urgent {
            drawn.push(
                fill(x, height - 2 * scale, width, 2 * scale, style.task_urgent_background),
            )
        } else {
            drawn
        }
    }

    pub open spec fn task_boxes(&self, layout: TaskLayout, index: int) -> Seq<Hitbox>
        decreases self.tasks@.len() - index,
    {
        if index >= self.tasks@.len() {
            Seq::empty()
        } else {
            seq![self.task_box(layout, index)] + self.task_boxes(layout, index + 1)
        }
    }

    pub open spec fn task_drawings(&self, style: &Style, layout: TaskLayout, index: int) -> Seq<
        DrawCommand,
    >
        decreases self.tasks@.len() - index,
    {
        if index >= self.tasks@.len() {
            Seq::empty()
        } else {
            self.task_drawing(style, layout, index) + self.task_drawings(style, layout, index + 1)
        }
    }
}

/// The visible width of a task's label.
pub open spec fn task_label_width(width: int, label: int, padding: int, icon: int) -> int {
    let inner = larger(width - padding * 2, 0);
    if inner >= icon + padding {
        smaller(label, inner - icon - padding)
    } else {
        0
    }
}

/// The left edge of a task's icon, which is centered together with the label.
pub open spec fn task_icon_x(x: int, width: int, label: int, padding: int, icon: int) -> int {
    let visible = task_label_width(width, label, padding, icon);
    x + half(
        width - (icon + (if visible > 0 {
            padding + visible
        } else {
            0
        })),
    )
}

fn place_task(x: i32, width: i32, label: i32, padding: i32, icon: i32) -> (result: (i32, i32))
    requires
        0 <= x <= 4 * LONGEST,
        0 <= width <= 4 * LONGEST,
        0 <= label <= LONGEST,
        0 <= padding <= LONGEST,
        0 <= icon <= LONGEST,
    ensures
        result.0 == task_label_width(width as int, label as int, padding as int, icon as int),
        result.1 == task_icon_x(x as int, width as int, label as int, padding as int, icon as int),
        0 <= result.0 <= LONGEST,
        -2 * LONGEST <= result.1 <= 8 * LONGEST,
{
    let inner: i32 = max_i32(width - padding * 2, 0);
    let visible: i32 = if inner >= icon + padding {
        min_i32(label, inner - icon - padding)
    } else {
        0
    };
    let content: i32 = if visible > 0 {
        icon + padding + visible
    } else {
        icon
    };
    (visible, x + (width - content) / 2)
}

fn plan_task(
    content: &RenderContent,
    style: &Style,
    layout: TaskLayout,
    index: usize,
    commands: &mut Vec<DrawCommand>,
    hitboxes: &mut Vec<Hitbox>,
)
    requires
        style.wf(),
        content.scale <= 0x1_0000,
        layout.wf(),
        layout.count == content.tasks@.len(),
        0 <= layout.left,
        layout.right() <= 4 * LONGEST,
        0 <= layout.height <= LONGEST,
        index < content.tasks@.len(),
        content.tasks@[index as int].label.wf(),
    ensures
        final(commands)@ == old(commands)@ + content.task_drawing(style, layout, index as int),
        final(hitboxes)@ == old(hitboxes)@.push(content.task_box(layout, index as int)),
{
    proof {
        crate::render::layout::law_tasks_fill_the_space(layout, index as int);
    }
    let ghost expected = content.task_drawing(style, layout, index as int);
    let ghost before = commands@;
    let area = match layout.item(index) {
        Some(area) => area,
        None => return,
    };
    let scale: i32 = if content.scale >= 1 {
        content.scale as i32
    } else {
        1
    };
    let task = content.tasks[index];
    assert(task.label.wf());
    hitboxes.push(
        Hitbox {
            target: HitTarget::Window(task.id),
            x: area.x,
            y: area.y,
            width: area.width,
            height: area.height,
        },
    );
    let padding: i32 = scaled(style.task_padding, content.scale);
    let icon: i32 = scaled(style.task_icon_size, content.scale);
    let (visible, icon_x) = place_task(area.x, area.width, task.label.width, padding, icon);
    let label_x: i32 = icon_x + icon + padding;
    commands.push(DrawCommand::Fill { area, color: task_background(style, task) });
    commands.push(
        DrawCommand::Blit {
            picture: Picture::TaskIcon(index),
            x: icon_x,
            y: (area.height - icon) / 2,
            width: icon,
            height: icon,
            clip: area,
        },
    );
    commands.push(
        DrawCommand::Blit {
            picture: Picture::TaskLabel(index),
            x: label_x,
            y: (area.height - task.label.height) / 2,
            width: task.label.width,
            height: task.label.height,
            clip: PixelRect { x: label_x, y: area.y, width: visible, height: area.height },
        },
    );
    if task.is_urgent {
        commands.push(
            DrawCommand::Fill {
                area: PixelRect {
                    x: area.x,
                    y: area.height - 2 * scale,
                    width: area.width,
                    height: 2 * scale,
                },
                color: style.task_urgent_background,
            },
        );
    }
    assert(commands@ =~= before + expected);
}

impl RenderContent {
    /// The boxes of the tasks, if they have a layout.
    pub open spec fn all_task_boxes(&self, style: &Style) -> Seq<Hitbox> {
        match self.tasks_layout(style) {
            Some(layout) => self.task_boxes(layout, 0),
            None => Seq::empty(),
        }
    }

    pub open spec fn all_task_drawings(&self, style: &Style) -> Seq<DrawCommand> {
        match self.tasks_layout(style) {
            Some(layout) => self.task_drawings(style, layout, 0),
            None => Seq::empty(),
        }
    }
}

fn plan_tasks(
    content: &RenderContent,
    style: &Style,
    frame: Frame,
    commands: &mut Vec<DrawCommand>,
    hitboxes: &mut Vec<Hitbox>,
)
    requires
        style.wf(),
        content.wf(style),
        frame.follows(content.edges(style)),
    ensures
        final(commands)@ == old(commands)@ + content.all_task_drawings(style),
        final(hitboxes)@ == old(hitboxes)@ + content.all_task_boxes(style),
{
    assert(commands@ + Seq::<DrawCommand>::empty() =~= commands@);
    assert(hitboxes@ + Seq::<Hitbox>::empty() =~= hitboxes@);
    if style.clock_position != ClockPosition::Center {
        return;
    }
    let spacing: i32 = scaled(style.task_spacing, content.scale);
    let left: i32 = 5 * scaled(style.workspace_width, content.scale);
    let right: i32 = frame.layout.clock_x - frame.layout.spacing - spacing;
    let layout = match TaskLayout::calculate(
        left,
        right,
        content.canvas.height,
        content.tasks.len(),
        spacing,
    ) {
        Some(layout) => layout,
        None => return,
    };
    assert(content.tasks_layout(style) == Some(layout));
    let mut index: usize = 0;
    while index < content.tasks.len()
        invariant
            index <= content.tasks@.len(),
            style.wf(),
            content.wf(style),
            layout.wf(),
            layout.count == content.tasks@.len(),
            0 <= layout.left,
            layout.right() <= 4 * LONGEST,
            layout.height == content.canvas.height,
            commands@ + content.task_drawings(style, layout, index as int) == old(commands)@
                + content.task_drawings(style, layout, 0),
            hitboxes@ + content.task_boxes(layout, index as int) == old(hitboxes)@
                + content.task_boxes(layout, 0),
        decreases content.tasks@.len() - index,
    {
        let ghost drawn = commands@;
        let ghost boxes = hitboxes@;
        plan_task(content, style, layout, index, commands, hitboxes);
        assert(drawn + content.task_drawings(style, layout, index as int) =~= commands@
            + content.task_drawings(style, layout, index + 1));
        assert(boxes + content.task_boxes(layout, index as int) =~= hitboxes@ + content.task_boxes(
            layout,
            index + 1,
        ));
        index += 1;
    }
    assert(commands@ + Seq::<DrawCommand>::empty() =~= commands@);
    assert(hitboxes@ + Seq::<Hitbox>::empty() =~= hitboxes@);
}

/// The visible width of the media title: what the detail leaves of the space.
pub open spec fn media_title_width(media: MediaLabels, left: int, right: int) -> int {
    smaller(
        larger(right - left - media.detail.width - media.separator.width, 0),
        media.title.width as int,
    )
}

/// The left edge of the media line, which is centered in its space.
pub open spec fn media_text_left(media: MediaLabels, left: int, right: int) -> int {
    let title = media_title_width(media, left, right);
    let content = if title > 0 {
        title + media.separator.width + media.detail.width
    } else {
        smaller(media.detail.width as int, right - left)
    };
    left + half(right - left - content)
}

/// How the media line is drawn: the title is cut first; elapsed time and state stay.
pub open spec fn media_drawing(media: MediaLabels, left: int, right: int, height: int) -> Seq<
    DrawCommand,
> {
    let title = media_title_width(media, left, right);
    let text_left = media_text_left(media, left, right);
    let detail_x = if title > 0 {
        text_left + title + media.separator.width
    } else {
        larger(right - media.detail.width, text_left)
    };
    let start = seq![
        blit(
            Picture::MediaTitle,
            text_left,
            half(height - media.title.height),
            media.title,
            rect(text_left, 0, title, height),
        ),
    ];
    let middle = if title > 0 {
        start.push(
            blit(
                Picture::MediaSeparator,
                text_left + title,
                half(height - media.separator.height),
                media.separator,
                rect(left, 0, right - left, height),
            ),
        )
    } else {
        start
    };
    middle.push(
        blit(
            Picture::MediaDetail,
            detail_x,
            half(height - media.detail.height),
            media.detail,
            rect(text_left, 0, right - text_left, height),
        ),
    )
}

impl RenderContent {
    /// The space of the media line: after the clock, or after the workspaces
    /// where the clock is at the right end.
    pub open spec fn media_left(&self, style: &Style) -> int {
        let e = self.edges(style);
        larger(
            if e.m.centered {
                e.right_min()
            } else {
                5 * self.workspace_width(style) + e.m.spacing
            },
            0,
        )
    }

    pub open spec fn media_right(&self, style: &Style) -> int {
        let e = self.edges(style);
        smaller(e.content_left() - e.m.spacing, e.m.width)
    }

    pub open spec fn all_media_drawings(&self, style: &Style) -> Seq<DrawCommand> {
        let left = self.media_left(style);
        let right = self.media_right(style);
        match self.media {
            Some(media) => if style.media_enabled && left < right {
                media_drawing(media, left, right, self.canvas.height as int)
            } else {
                Seq::empty()
            },
            None => Seq::empty(),
        }
    }
}

/// Plans the media line in the space between two edges: the title gives way to
/// the time and the state.
pub fn draw_media(
    media: MediaLabels,
    left: i32,
    right: i32,
    height: i32,
    commands: &mut Vec<DrawCommand>,
)
    requires
        media.title.wf(),
        media.separator.wf(),
        media.detail.wf(),
        0 <= left < right <= 16 * LONGEST,
        0 <= height <= LONGEST,
    ensures
        final(commands)@ == old(commands)@ + media_drawing(
            media,
            left as int,
            right as int,
            height as int,
        ),
{
    let ghost before = commands@;
    let ghost expected = media_drawing(media, left as int, right as int, height as int);
    let gap: i32 = media.separator.width;
    let detail_width: i32 = media.detail.width;
    let title_width: i32 = min_i32(
        max_i32(right - left - detail_width - gap, 0),
        media.title.width,
    );
    let content_width: i32 = if title_width > 0 {
        title_width + gap + detail_width
    } else {
        min_i32(detail_width, right - left)
    };
    let text_left: i32 = left + (right - left - content_width) / 2;
    let detail_x: i32 = if title_width > 0 {
        text_left + title_width + gap
    } else {
        max_i32(right - detail_width, text_left)
    };
    commands.push(
        DrawCommand::Blit {
            picture: Picture::MediaTitle,
            x: text_left,
            y: (height - media.title.height) / 2,
            width: media.title.width,
            height: media.title.height,
            clip: PixelRect { x: text_left, y: 0, width: title_width, height },
        },
    );
    if title_width > 0 {
        commands.push(
            DrawCommand::Blit {
                picture: Picture::MediaSeparator,
                x: text_left + title_width,
                y: (height - media.separator.height) / 2,
                width: media.separator.width,
                height: media.separator.height,
                clip: PixelRect { x: left, y: 0, width: right - left, height },
            },
        );
    }
    commands.push(
        DrawCommand::Blit {
            picture: Picture::MediaDetail,
            x: detail_x,
            y: (height - media.detail.height) / 2,
            width: media.detail.width,
            height: media.detail.height,
            clip: PixelRect { x: text_left, y: 0, width: right - text_left, height },
        },
    );
    assert(commands@ =~= before + expected);
}

impl RenderContent {
    /// The clock is drawn whole; where the calendar is enabled, the part on the
    /// canvas opens it.
    pub open spec fn clock_drawing(&self, style: &Style) -> Seq<DrawCommand> {
        let m = self.measures(style);
        seq![
            blit(
                Picture::Clock,
                m.clock_x(),
                half(m.height - m.clock_height),
                self.clock,
                rect(0, 0, m.width, m.height),
            ),
        ]
    }

    pub open spec fn clock_boxes(&self, style: &Style) -> Seq<Hitbox> {
        let m = self.measures(style);
        let left = larger(m.clock_x(), 0);
        if style.calendar_enabled && m.clock_width > 0 {
            seq![
                hitbox(
                    HitTarget::Clock,
                    left,
                    0,
                    larger(smaller(m.clock_right(), m.width) - left, 0),
                    m.height,
                ),
            ]
        } else {
            Seq::empty()
        }
    }

    /// An icon of the status group, as far as it is right of `least` and on the canvas.
    pub open spec fn icon_drawing(&self, style: &Style, picture: Picture, x: int, least: int) -> Seq<
        DrawCommand,
    > {
        let m = self.measures(style);
        let left = larger(x, least);
        let right = smaller(x + m.icon, m.width);
        if left < right {
            seq![
                blit(
                    picture,
                    x,
                    half(m.height - m.icon),
                    (Size { width: m.icon as i32, height: m.icon as i32 }),
                    rect(left, 0, right - left, m.height),
                ),
            ]
        } else {
            Seq::empty()
        }
    }

    pub open spec fn icon_boxes(&self, style: &Style, target: HitTarget, x: int, least: int) -> Seq<
        Hitbox,
    > {
        let m = self.measures(style);
        let left = larger(x, least);
        let right = smaller(x + m.icon, m.width);
        if left < right {
            seq![hitbox(target, left, 0, right - left, m.height)]
        } else {
            Seq::empty()
        }
    }

    pub open spec fn weather_drawing(&self, style: &Style) -> Seq<DrawCommand> {
        let m = self.measures(style);
        if m.weather {
            self.icon_drawing(style, Picture::Weather, m.weather_x(), 0)
        } else {
            Seq::empty()
        }
    }

    pub open spec fn weather_boxes(&self, style: &Style) -> Seq<Hitbox> {
        let m = self.measures(style);
        if m.weather {
            self.icon_boxes(style, HitTarget::Weather, m.weather_x(), 0)
        } else {
            Seq::empty()
        }
    }

    pub open spec fn network_drawing(&self, style: &Style) -> Seq<DrawCommand> {
        let e = self.edges(style);
        if e.m.network {
            self.icon_drawing(style, Picture::Network, e.m.network_x(), e.right_min())
        } else {
            Seq::empty()
        }
    }

    pub open spec fn network_boxes(&self, style: &Style) -> Seq<Hitbox> {
        let e = self.edges(style);
        if e.m.network {
            self.icon_boxes(style, HitTarget::Network, e.m.network_x(), e.right_min())
        } else {
            Seq::empty()
        }
    }

    /// The keyboard layout is drawn at the right end of the room kept for it.
    pub open spec fn keyboard_drawing(&self, style: &Style) -> Seq<DrawCommand> {
        let e = self.edges(style);
        match self.keyboard {
            Some(label) => seq![
                blit(
                    Picture::Keyboard,
                    e.keyboard_x() + e.m.keyboard_width - label.size.width,
                    half(e.m.height - e.m.keyboard_height),
                    label.size,
                    rect(e.right_min(), 0, larger(e.m.width - e.right_min(), 0), e.m.height),
                ),
            ],
            None => Seq::empty(),
        }
    }
}

fn plan_icon(
    frame: Frame,
    content: &RenderContent,
    picture: Picture,
    target: HitTarget,
    x: i32,
    least: i32,
    commands: &mut Vec<DrawCommand>,
    hitboxes: &mut Vec<Hitbox>,
    Ghost(style): Ghost<&Style>,
)
    requires
        content.measures(style).wf(),
        frame.follows(content.edges(style)),
        -16 * LONGEST <= x <= 16 * LONGEST,
        0 <= least <= 16 * LONGEST,
    ensures
        final(commands)@ == old(commands)@ + content.icon_drawing(
            style,
            picture,
            x as int,
            least as int,
        ),
        final(hitboxes)@ == old(hitboxes)@ + content.icon_boxes(
            style,
            target,
            x as int,
            least as int,
        ),
{
    let ghost drawn = commands@;
    let ghost boxes = hitboxes@;
    let size: i32 = frame.layout.icon_size;
    let left: i32 = max_i32(x, least);
    let right: i32 = min_i32(x + size, content.canvas.width);
    if right > left {
        commands.push(
            DrawCommand::Blit {
                picture,
                x,
                y: frame.layout.icon_y,
                width: size,
                height: size,
                clip: PixelRect {
                    x: left,
                    y: 0,
                    width: right - left,
                    height: content.canvas.height,
                },
            },
        );
        hitboxes.push(
            Hitbox { target, x: left, y: 0, width: right - left, height: content.canvas.height },
        );
    }
    assert(commands@ =~= drawn + content.icon_drawing(style, picture, x as int, least as int));
    assert(hitboxes@ =~= boxes + content.icon_boxes(style, target, x as int, least as int));
}

impl RenderContent {
    /// Where tray icons are cut off: at the canvas or before the drawer's chevron.
    pub open spec fn tray_right(&self, style: &Style) -> int {
        let e = self.edges(style);
        if e.drawer {
            e.handle() - e.m.spacing
        } else {
            e.m.width
        }
    }

    pub open spec fn tray_clip_left(&self, style: &Style) -> int {
        larger(self.edges(style).tray_left(), self.edges(style).right_min())
    }

    /// The left edge of a tray icon.
    pub open spec fn tray_icon_x(&self, style: &Style, index: int) -> int {
        let e = self.edges(style);
        e.tray_left() + index * (e.m.icon + e.m.spacing)
    }

    /// The chevron, and one box over the whole drawer with its gaps.
    pub open spec fn handle_boxes(&self, style: &Style) -> Seq<Hitbox> {
        let e = self.edges(style);
        if e.drawer {
            let left = self.tray_clip_left(style);
            seq![
                hitbox(
                    HitTarget::TrayDrawer,
                    left,
                    0,
                    larger(e.handle() + e.m.icon - left, 0),
                    e.m.height,
                ),
            ]
        } else {
            Seq::empty()
        }
    }

    pub open spec fn handle_drawing(&self, style: &Style) -> Seq<DrawCommand> {
        let e = self.edges(style);
        if e.drawer && e.handle() >= e.right_min() {
            seq![
                DrawCommand::DrawerHandle {
                    x: e.handle() as i32,
                    y: half(e.m.height - e.m.icon) as i32,
                    size: e.m.icon as i32,
                },
            ]
        } else {
            Seq::empty()
        }
    }

    /// Whether some of a tray icon is visible.
    pub open spec fn tray_visible(&self, style: &Style, index: int) -> bool {
        let x = self.tray_icon_x(style, index);
        larger(x, self.tray_clip_left(style)) < smaller(
            x + self.edges(style).m.icon,
            self.tray_right(style),
        )
    }

    pub open spec fn tray_box(&self, style: &Style, index: int) -> Hitbox {
        let e = self.edges(style);
        let x = self.tray_icon_x(style, index);
        let left = larger(x, self.tray_clip_left(style));
        let right = smaller(x + e.m.icon, self.tray_right(style));
        hitbox(
            HitTarget::Tray(index as usize),
            left,
            half(e.m.height - e.m.icon),
            right - left,
            e.m.icon,
        )
    }

    pub open spec fn tray_drawing(&self, style: &Style, index: int) -> DrawCommand {
        let e = self.edges(style);
        let left = self.tray_clip_left(style);
        blit(
            Picture::TrayIcon(index as usize),
            self.tray_icon_x(style, index),
            half(e.m.height - e.m.icon),
            (Size { width: e.m.icon as i32, height: e.m.icon as i32 }),
            rect(left, 0, larger(self.tray_right(style) - left, 0), e.m.height),
        )
    }

    /// The boxes of the first `count` tray icons, without the hidden ones.
    pub open spec fn tray_boxes(&self, style: &Style, count: int) -> Seq<Hitbox>
        decreases count,
    {
        if count <= 0 {
            Seq::empty()
        } else if self.tray_visible(style, count - 1) {
            self.tray_boxes(style, count - 1).push(self.tray_box(style, count - 1))
        } else {
            self.tray_boxes(style, count - 1)
        }
    }

    pub open spec fn tray_drawings(&self, style: &Style, count: int) -> Seq<DrawCommand>
        decreases count,
    {
        if count <= 0 {
            Seq::empty()
        } else if self.tray_visible(style, count - 1) {
            self.tray_drawings(style, count - 1).push(self.tray_drawing(style, count - 1))
        } else {
            self.tray_drawings(style, count - 1)
        }
    }

    /// Everything that is drawn, in order.
    pub open spec fn all_drawings(&self, style: &Style) -> Seq<DrawCommand> {
        seq![DrawCommand::Clear { color: style.background }] + self.workspace_drawings(style, 0)
            + self.all_task_drawings(style) + self.all_media_drawings(style) + self.clock_drawing(
            style,
        ) + self.weather_drawing(style) + self.keyboard_drawing(style) + self.network_drawing(
            style,
        ) + self.handle_drawing(style) + self.tray_drawings(style, self.tray_len as int)
    }

    /// Everything that can be clicked; of overlapping boxes the later one counts.
    pub open spec fn all_boxes(&self, style: &Style) -> Seq<Hitbox> {
        self.workspace_boxes(style, 0) + self.all_task_boxes(style) + self.clock_boxes(style)
            + self.weather_boxes(style) + self.network_boxes(style) + self.handle_boxes(style)
            + self.tray_boxes(style, self.tray_len as int)
    }
}

proof fn lemma_tray_reach(m: Measures, index: int)
    requires
        m.wf(),
        0 <= index < m.tray_len,
    ensures
        0 <= index * (m.icon + m.spacing) <= LONGEST,
        m.tray_len <= LONGEST,
{
    assert(0 <= index * (m.icon + m.spacing)) by (nonlinear_arith)
        requires
            0 <= index,
            0 <= m.icon + m.spacing,
    ;
    assert(index * (m.icon + m.spacing) <= m.tray_len * (m.icon + m.spacing)) by (nonlinear_arith)
        requires
            index <= m.tray_len,
            0 <= m.icon + m.spacing,
    ;
    assert(m.tray_len <= m.tray_len * (m.icon + m.spacing)) by (nonlinear_arith)
        requires
            0 <= m.tray_len,
            1 <= m.icon + m.spacing,
    ;
}

fn plan_tray(
    content: &RenderContent,
    frame: Frame,
    commands: &mut Vec<DrawCommand>,
    hitboxes: &mut Vec<Hitbox>,
    Ghost(style): Ghost<&Style>,
)
    requires
        content.wf(style),
        frame.follows(content.edges(style)),
    ensures
        final(commands)@ == old(commands)@ + content.handle_drawing(style) + content.tray_drawings(
            style,
            content.tray_len as int,
        ),
        final(hitboxes)@ == old(hitboxes)@ + content.handle_boxes(style) + content.tray_boxes(
            style,
            content.tray_len as int,
        ),
{
    let ghost drawn = commands@;
    let ghost boxes = hitboxes@;
    let ghost e = content.edges(style);
    if content.tray_len == 0 {
        assert(commands@ =~= drawn + content.handle_drawing(style) + content.tray_drawings(
            style,
            0,
        ));
        assert(hitboxes@ =~= boxes + content.handle_boxes(style) + content.tray_boxes(style, 0));
        return;
    }
    let layout = frame.layout;
    let height: i32 = content.canvas.height;
    let clip_left: i32 = max_i32(layout.tray_left, frame.right_min);
    let clip_right: i32 = match frame.handle {
        Some(handle) => {
            hitboxes.push(
                Hitbox {
                    target: HitTarget::TrayDrawer,
                    x: clip_left,
                    y: 0,
                    width: max_i32(handle + layout.icon_size - clip_left, 0),
                    height,
                },
            );
            if handle >= frame.right_min {
                commands.push(
                    DrawCommand::DrawerHandle {
                        x: handle,
                        y: layout.icon_y,
                        size: layout.icon_size,
                    },
                );
            }
            handle - layout.spacing
        },
        None => content.canvas.width,
    };
    let clip = PixelRect {
        x: clip_left,
        y: 0,
        width: max_i32(clip_right - clip_left, 0),
        height,
    };
    assert(commands@ =~= drawn + content.handle_drawing(style));
    assert(hitboxes@ =~= boxes + content.handle_boxes(style));
    assert(commands@ =~= commands@ + content.tray_drawings(style, 0));
    assert(hitboxes@ =~= hitboxes@ + content.tray_boxes(style, 0));
    let mut index: usize = 0;
    while index < content.tray_len
        invariant
            index <= content.tray_len,
            content.wf(style),
            e == content.edges(style),
            layout.tray_left == e.tray_left(),
            layout.icon_size == e.m.icon,
            layout.spacing == e.m.spacing,
            layout.icon_y == half(e.m.height - e.m.icon),
            -16 * LONGEST <= layout.tray_left <= 16 * LONGEST,
            clip_left == content.tray_clip_left(style),
            clip_right == content.tray_right(style),
            -16 * LONGEST <= clip_left <= 16 * LONGEST,
            -16 * LONGEST <= clip_right <= 16 * LONGEST,
            clip == rect(
                clip_left as int,
                0,
                larger(clip_right - clip_left, 0),
                content.canvas.height as int,
            ),
            commands@ == drawn + content.handle_drawing(style) + content.tray_drawings(
                style,
                index as int,
            ),
            hitboxes@ == boxes + content.handle_boxes(style) + content.tray_boxes(
                style,
                index as int,
            ),
        decreases content.tray_len - index,
    {
        proof {
            lemma_tray_reach(e.m, index as int);
        }
        let hit = layout.hitbox(index);
        let left: i32 = max_i32(hit.x, clip_left);
        let right: i32 = min_i32(hit.x + hit.width, clip_right);
        if right > left {
            commands.push(
                DrawCommand::Blit {
                    picture: Picture::TrayIcon(index),
                    x: hit.x,
                    y: hit.y,
                    width: hit.width,
                    height: hit.height,
                    clip,
                },
            );
            hitboxes.push(
                Hitbox {
                    target: hit.target,
                    x: left,
                    y: hit.y,
                    width: right - left,
                    height: hit.height,
                },
            );
        }
        assert(commands@ =~= drawn + content.handle_drawing(style) + content.tray_drawings(
            style,
            index + 1,
        ));
        assert(hitboxes@ =~= boxes + content.handle_boxes(style) + content.tray_boxes(
            style,
            index + 1,
        ));
        index += 1;
    }
}

fn plan_media_line(
    content: &RenderContent,
    style: &Style,
    frame: Frame,
    commands: &mut Vec<DrawCommand>,
)
    requires
        style.wf(),
        content.wf(style),
        frame.follows(content.edges(style)),
    ensures
        final(commands)@ == old(commands)@ + content.all_media_drawings(style),
{
    assert(commands@ + Seq::<DrawCommand>::empty() =~= commands@);
    let left: i32 = if style.clock_position == ClockPosition::Center {
        frame.right_min
    } else {
        max_i32(5 * scaled(style.workspace_width, content.scale) + frame.layout.spacing, 0)
    };
    let right: i32 = min_i32(frame.content_left - frame.layout.spacing, content.canvas.width);
    if let Some(media) = content.media {
        if style.media_enabled && left < right {
            draw_media(media, left, right, content.canvas.height, commands);
        }
    }
}

fn plan_clock(
    content: &RenderContent,
    style: &Style,
    frame: Frame,
    commands: &mut Vec<DrawCommand>,
    hitboxes: &mut Vec<Hitbox>,
)
    requires
        content.wf(style),
        frame.follows(content.edges(style)),
    ensures
        final(commands)@ == old(commands)@ + content.clock_drawing(style),
        final(hitboxes)@ == old(hitboxes)@ + content.clock_boxes(style),
{
    let ghost drawn = commands@;
    let ghost boxes = hitboxes@;
    let width: i32 = content.canvas.width;
    let height: i32 = content.canvas.height;
    commands.push(
        DrawCommand::Blit {
            picture: Picture::Clock,
            x: frame.layout.clock_x,
            y: frame.layout.clock_y,
            width: content.clock.width,
            height: content.clock.height,
            clip: PixelRect { x: 0, y: 0, width, height },
        },
    );
    if style.calendar_enabled && content.clock.width > 0 {
        let left: i32 = max_i32(frame.layout.clock_x, 0);
        hitboxes.push(
            Hitbox {
                target: HitTarget::Clock,
                x: left,
                y: 0,
                width: max_i32(min_i32(frame.clock_right, width) - left, 0),
                height,
            },
        );
    }
    assert(commands@ =~= drawn + content.clock_drawing(style));
    assert(hitboxes@ =~= boxes + content.clock_boxes(style));
}

fn plan_weather(
    content: &RenderContent,
    frame: Frame,
    commands: &mut Vec<DrawCommand>,
    hitboxes: &mut Vec<Hitbox>,
    Ghost(style): Ghost<&Style>,
)
    requires
        content.wf(style),
        frame.follows(content.edges(style)),
    ensures
        final(commands)@ == old(commands)@ + content.weather_drawing(style),
        final(hitboxes)@ == old(hitboxes)@ + content.weather_boxes(style),
{
    assert(commands@ + Seq::<DrawCommand>::empty() =~= commands@);
    assert(hitboxes@ + Seq::<Hitbox>::empty() =~= hitboxes@);
    if let Some(x) = frame.layout.weather_x {
        plan_icon(
            frame,
            content,
            Picture::Weather,
            HitTarget::Weather,
            x,
            0,
            commands,
            hitboxes,
            Ghost(style),
        );
    }
}

fn plan_keyboard(
    content: &RenderContent,
    frame: Frame,
    commands: &mut Vec<DrawCommand>,
    Ghost(style): Ghost<&Style>,
)
    requires
        content.wf(style),
        frame.follows(content.edges(style)),
    ensures
        final(commands)@ == old(commands)@ + content.keyboard_drawing(style),
{
    let ghost drawn = commands@;
    if let Some(label) = content.keyboard {
        let layout = frame.layout;
        commands.push(
            DrawCommand::Blit {
                picture: Picture::Keyboard,
                x: layout.keyboard_x + layout.keyboard_width - label.size.width,
                y: layout.keyboard_y,
                width: label.size.width,
                height: label.size.height,
                clip: PixelRect {
                    x: frame.right_min,
                    y: 0,
                    width: max_i32(content.canvas.width - frame.right_min, 0),
                    height: content.canvas.height,
                },
            },
        );
    }
    assert(commands@ =~= drawn + content.keyboard_drawing(style));
}

fn plan_network(
    content: &RenderContent,
    frame: Frame,
    commands: &mut Vec<DrawCommand>,
    hitboxes: &mut Vec<Hitbox>,
    Ghost(style): Ghost<&Style>,
)
    requires
        content.wf(style),
        frame.follows(content.edges(style)),
    ensures
        final(commands)@ == old(commands)@ + content.network_drawing(style),
        final(hitboxes)@ == old(hitboxes)@ + content.network_boxes(style),
{
    assert(commands@ + Seq::<DrawCommand>::empty() =~= commands@);
    assert(hitboxes@ + Seq::<Hitbox>::empty() =~= hitboxes@);
    if let Some(x) = frame.layout.network_x {
        plan_icon(
            frame,
            content,
            Picture::Network,
            HitTarget::Network,
            x,
            frame.right_min,
            commands,
            hitboxes,
            Ghost(style),
        );
    }
}

/// Plans the drawing of a bar.
pub fn draw(content: &RenderContent, style: &Style) -> (result: BarPlan)
    requires
        style.wf(),
        content.wf(style),
    ensures
        result.commands@ == content.all_drawings(style),
        result.hitboxes@ == content.all_boxes(style),
{
    let mut commands: Vec<DrawCommand> = Vec::new();
    let mut hitboxes: Vec<Hitbox> = Vec::new();
    let frame = arrange(content, style);
    commands.push(DrawCommand::Clear { color: style.background });
    assert(commands@ =~= seq![DrawCommand::Clear { color: style.background }]);
    plan_workspaces(content, style, frame.workspace_right, &mut commands, &mut hitboxes);
    assert(hitboxes@ =~= content.workspace_boxes(style, 0));
    plan_tasks(content, style, frame, &mut commands, &mut hitboxes);
    plan_media_line(content, style, frame, &mut commands);
    plan_clock(content, style, frame, &mut commands, &mut hitboxes);
    plan_weather(content, frame, &mut commands, &mut hitboxes, Ghost(style));
    plan_keyboard(content, frame, &mut commands, Ghost(style));
    plan_network(content, frame, &mut commands, &mut hitboxes, Ghost(style));
    plan_tray(content, frame, &mut commands, &mut hitboxes, Ghost(style));
    BarPlan { commands, hitboxes }
}

} // verus!
