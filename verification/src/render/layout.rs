//! Where the parts of the bar stand, in physical pixels.

use vstd::prelude::*;

use crate::config::{color_of, ClockPosition, Config};
use crate::render::pixels::PixelRect;

verus! {

/// What a click can hit.
#[derive(Clone, Copy, Debug, PartialEq, Eq, Structural)]
pub enum HitTarget {
    Workspace { id: Option<u64>, index: u8 },
    Window(u64),
    Tray(usize),
    TrayDrawer,
    Clock,
    Network,
    Weather,
}

#[derive(Clone, Copy, Debug, PartialEq, Eq, Structural)]
pub struct Hitbox {
    pub target: HitTarget,
    pub x: i32,
    pub y: i32,
    pub width: i32,
    pub height: i32,
}

impl Hitbox {
    /// Whether a physical pixel lies in the box.
    pub open spec fn contains(self, x: int, y: int) -> bool {
        self.x <= x < self.x + self.width && self.y <= y < self.y + self.height
    }
}

/// The last of the first `count` boxes that holds a pixel.
pub open spec fn last_hit(hitboxes: Seq<Hitbox>, count: int, x: int, y: int) -> Option<HitTarget>
    decreases count,
{
    if count <= 0 {
        None
    } else if hitboxes[count - 1].contains(x, y) {
        Some(hitboxes[count - 1].target)
    } else {
        last_hit(hitboxes, count - 1, x, y)
    }
}

/// What a click on a physical pixel hits: of overlapping boxes the last one.
pub fn hit_target_at(hitboxes: &Vec<Hitbox>, x: i32, y: i32) -> (result: Option<HitTarget>)
    ensures
        result == last_hit(hitboxes@, hitboxes@.len() as int, x as int, y as int),
{
    let mut i: usize = hitboxes.len();
    while i > 0
        invariant
            i <= hitboxes@.len(),
            last_hit(hitboxes@, hitboxes@.len() as int, x as int, y as int) == last_hit(
                hitboxes@,
                i as int,
                x as int,
                y as int,
            ),
        decreases i,
    {
        let hitbox = hitboxes[i - 1];
        if x >= hitbox.x && (x as i64) < hitbox.x as i64 + hitbox.width as i64 && y >= hitbox.y && (
        y as i64) < hitbox.y as i64 + hitbox.height as i64 {
            return Some(hitbox.target);
        }
        i -= 1;
    }
    None
}

/// A click hits something exactly if some box holds the pixel.
pub proof fn law_clicks_hit_boxes_only(hitboxes: Seq<Hitbox>, count: int, x: int, y: int)
    requires
        0 <= count <= hitboxes.len(),
    ensures
        last_hit(hitboxes, count, x, y) is Some <==> exists|i: int|
            0 <= i < count && (#[trigger] hitboxes[i]).contains(x, y),
    decreases count,
{
    if count > 0 {
        law_clicks_hit_boxes_only(hitboxes, count - 1, x, y);
        if hitboxes[count - 1].contains(x, y) {
            assert(hitboxes[count - 1].contains(x, y));
        } else if exists|i: int| 0 <= i < count && (#[trigger] hitboxes[i]).contains(x, y) {
            let i = choose|i: int| 0 <= i < count && (#[trigger] hitboxes[i]).contains(x, y);
            assert(i < count - 1);
        }
    }
}

/// How the bar looks.
#[derive(Debug)]
pub struct Style {
    pub font_family: String,
    /// The bit pattern of a single-precision number.
    pub font_size: u32,
    pub background: [u8; 4],
    pub foreground: [u8; 4],
    pub padding: u32,
    pub tray_icon_size: u32,
    pub tray_spacing: u32,
    pub tray_drawer: bool,
    pub clock_position: ClockPosition,
    pub calendar_enabled: bool,
    pub weather_enabled: bool,
    pub weather_foreground: [u8; 4],
    pub network_enabled: bool,
    pub network_foreground: [u8; 4],
    pub network_muted: [u8; 4],
    pub workspace_width: u32,
    pub workspace_focused_background: [u8; 4],
    pub workspace_active_background: [u8; 4],
    pub workspace_active_foreground: [u8; 4],
    pub workspace_occupied_foreground: [u8; 4],
    pub workspace_empty_foreground: [u8; 4],
    pub workspace_urgent_foreground: [u8; 4],
    pub media_enabled: bool,
    pub task_icon_size: u32,
    pub task_spacing: u32,
    pub task_padding: u32,
    pub task_background: [u8; 4],
    pub task_focused_background: [u8; 4],
    pub task_urgent_background: [u8; 4],
    pub task_foreground: [u8; 4],
    pub task_focused_foreground: [u8; 4],
}

/// Whether every color setting is a color.
pub open spec fn has_colors(config: Config) -> bool {
    forall|i: int| 0 <= i < 32 ==> color_of(#[trigger] config.color_text(i)) is Ok
}

/// Settings without a problem name colors only.
pub proof fn law_valid_settings_name_colors(
    config: Config,
    format_items: Seq<crate::clock::FormatItem>,
    target_is_address: bool,
)
    requires
        config.problem(format_items, target_is_address) is None,
    ensures
        has_colors(config),
{
    assert forall|i: int| 0 <= i < 32 implies color_of(#[trigger] config.color_text(i)) is Ok by {
        lemma_color_problem(config, 0, i);
    }
}

proof fn lemma_color_problem(config: Config, start: int, i: int)
    requires
        0 <= start <= i < 32,
        config.color_problem(start) is None,
    ensures
        color_of(config.color_text(i)) is Ok,
    decreases i - start,
{
    if start < i {
        lemma_color_problem(config, start + 1, i);
    }
}

impl Style {
    /// The style of some settings.
    pub open spec fn follows(&self, config: Config) -> bool {
        let color = |i: int| color_of(config.color_text(i))->Ok_0;
        &&& self.font_family@ == config.font_family@
        &&& self.font_size == config.font_size
        &&& self.background@ == color(0)
        &&& self.foreground@ == color(1)
        &&& self.padding == config.padding
        &&& self.tray_icon_size == config.tray_icon_size
        &&& self.tray_spacing == config.tray_spacing
        &&& self.tray_drawer == config.tray_drawer
        &&& self.clock_position == config.clock_position
        &&& self.calendar_enabled == config.calendar_enabled
        &&& self.weather_enabled == config.weather_enabled
        &&& self.weather_foreground@ == color(18)
        &&& self.network_enabled == config.network_enabled
        &&& self.network_foreground@ == color(23)
        &&& self.network_muted@ == color(24)
        &&& self.workspace_width == config.workspace_width
        &&& self.workspace_focused_background@ == color(2)
        &&& self.workspace_active_background@ == color(3)
        &&& self.workspace_active_foreground@ == color(4)
        &&& self.workspace_occupied_foreground@ == color(5)
        &&& self.workspace_empty_foreground@ == color(6)
        &&& self.workspace_urgent_foreground@ == color(7)
        &&& self.media_enabled == config.media_enabled
        &&& self.task_icon_size == config.task_icon_size
        &&& self.task_spacing == config.task_spacing
        &&& self.task_padding == config.task_padding
        &&& self.task_background@ == color(27)
        &&& self.task_focused_background@ == color(28)
        &&& self.task_urgent_background@ == color(29)
        &&& self.task_foreground@ == color(30)
        &&& self.task_focused_foreground@ == color(31)
    }

    /// The lengths that checked settings have.
    pub open spec fn wf(&self) -> bool {
        &&& self.padding <= 256
        &&& 0 < self.tray_icon_size <= 256
        &&& self.tray_spacing <= 256
        &&& 16 <= self.workspace_width <= 128
        &&& 0 < self.task_icon_size <= 256
        &&& self.task_spacing <= 256
        &&& self.task_padding <= 256
    }

    pub fn new(config: &Config) -> (result: Self)
        requires
            has_colors(*config),
        ensures
            result.follows(*config),
    {
        proof {
            assert(color_of(config.color_text(0)) is Ok);
            assert(color_of(config.color_text(1)) is Ok);
            assert(color_of(config.color_text(2)) is Ok);
            assert(color_of(config.color_text(3)) is Ok);
            assert(color_of(config.color_text(4)) is Ok);
            assert(color_of(config.color_text(5)) is Ok);
            assert(color_of(config.color_text(6)) is Ok);
            assert(color_of(config.color_text(7)) is Ok);
            assert(color_of(config.color_text(18)) is Ok);
            assert(color_of(config.color_text(23)) is Ok);
            assert(color_of(config.color_text(24)) is Ok);
            assert(color_of(config.color_text(27)) is Ok);
            assert(color_of(config.color_text(28)) is Ok);
            assert(color_of(config.color_text(29)) is Ok);
            assert(color_of(config.color_text(30)) is Ok);
            assert(color_of(config.color_text(31)) is Ok);
        }
        Style {
            font_family: config.font_family.clone(),
            font_size: config.font_size,
            background: config.background_rgba(),
            foreground: config.foreground_rgba(),
            padding: config.padding,
            tray_icon_size: config.tray_icon_size,
            tray_spacing: config.tray_spacing,
            tray_drawer: config.tray_drawer,
            clock_position: config.clock_position,
            calendar_enabled: config.calendar_enabled,
            weather_enabled: config.weather_enabled,
            weather_foreground: config.color_rgba(config.weather_foreground.as_str()),
            network_enabled: config.network_enabled,
            network_foreground: config.color_rgba(config.network_foreground.as_str()),
            network_muted: config.color_rgba(config.network_muted.as_str()),
            workspace_width: config.workspace_width,
            workspace_focused_background: config.color_rgba(
                config.workspace_focused_background.as_str(),
            ),
            workspace_active_background: config.color_rgba(
                config.workspace_active_background.as_str(),
            ),
            workspace_active_foreground: config.color_rgba(
                config.workspace_active_foreground.as_str(),
            ),
            workspace_occupied_foreground: config.color_rgba(
                config.workspace_occupied_foreground.as_str(),
            ),
            workspace_empty_foreground: config.color_rgba(
                config.workspace_empty_foreground.as_str(),
            ),
            workspace_urgent_foreground: config.color_rgba(
                config.workspace_urgent_foreground.as_str(),
            ),
            media_enabled: config.media_enabled,
            task_icon_size: config.task_icon_size,
            task_spacing: config.task_spacing,
            task_padding: config.task_padding,
            task_background: config.color_rgba(config.task_background.as_str()),
            task_focused_background: config.color_rgba(config.task_focused_background.as_str()),
            task_urgent_background: config.color_rgba(config.task_urgent_background.as_str()),
            task_foreground: config.color_rgba(config.task_foreground.as_str()),
            task_focused_foreground: config.color_rgba(config.task_focused_foreground.as_str()),
        }
    }
}

/// The settings that passed validation give a style within bounds.
pub proof fn law_valid_settings_give_a_bounded_style(
    style: Style,
    config: Config,
    format_items: Seq<crate::clock::FormatItem>,
    target_is_address: bool,
)
    requires
        style.follows(config),
        config.problem(format_items, target_is_address) is None,
    ensures
        style.wf(),
{
}

/// Half of a length; halves of negative lengths are rounded towards zero.
pub open spec fn half(length: int) -> int {
    if length >= 0 {
        length / 2
    } else {
        -((-length) / 2)
    }
}

pub open spec fn larger(a: int, b: int) -> int {
    if a >= b {
        a
    } else {
        b
    }
}

pub open spec fn smaller(a: int, b: int) -> int {
    if a <= b {
        a
    } else {
        b
    }
}

pub fn max_i32(a: i32, b: i32) -> (result: i32)
    ensures
        result == larger(a as int, b as int),
{
    if a >= b {
        a
    } else {
        b
    }
}

pub fn min_i32(a: i32, b: i32) -> (result: i32)
    ensures
        result == smaller(a as int, b as int),
{
    if a <= b {
        a
    } else {
        b
    }
}

/// A logical length in physical pixels.
pub fn scaled(length: u32, scale: u32) -> (result: i32)
    requires
        length <= 1024,
        scale <= 0x1_0000,
    ensures
        result == length * scale_of(scale),
        0 <= result <= LONGEST,
{
    let scale: u32 = if scale >= 1 {
        scale
    } else {
        1
    };
    assert(0 <= length * scale <= 1024 * 0x1_0000) by (nonlinear_arith)
        requires
            0 <= length <= 1024,
            0 <= scale <= 0x1_0000,
    ;
    (length * scale) as i32
}

/// The longest length that is drawn with. It leaves room for sums of lengths.
pub const LONGEST: i32 = 0x400_0000;

/// What a bar is laid out from, in physical pixels.
pub ghost struct Measures {
    pub width: int,
    pub height: int,
    pub clock_width: int,
    pub clock_height: int,
    pub keyboard_width: int,
    pub keyboard_height: int,
    pub tray_len: int,
    pub padding: int,
    pub spacing: int,
    pub icon: int,
    pub centered: bool,
    pub weather: bool,
    pub network: bool,
}

/// A scale of at least one.
pub open spec fn at_least_one(scale: u32) -> u32 {
    if scale >= 1 {
        scale
    } else {
        1
    }
}

pub open spec fn scale_of(scale: u32) -> int {
    at_least_one(scale) as int
}

pub open spec fn measures(
    canvas: (i32, i32),
    clock: (i32, i32),
    keyboard: (i32, i32),
    tray_len: usize,
    scale: u32,
    style: &Style,
) -> Measures {
    Measures {
        width: canvas.0 as int,
        height: canvas.1 as int,
        clock_width: clock.0 as int,
        clock_height: clock.1 as int,
        keyboard_width: keyboard.0 as int,
        keyboard_height: keyboard.1 as int,
        tray_len: tray_len as int,
        padding: style.padding * scale_of(scale),
        spacing: style.tray_spacing * scale_of(scale),
        icon: style.tray_icon_size * scale_of(scale),
        centered: style.clock_position == ClockPosition::Center,
        weather: style.weather_enabled,
        network: style.network_enabled,
    }
}

impl Measures {
    /// Every length is one that can be drawn with.
    pub open spec fn wf(self) -> bool {
        &&& 0 <= self.width <= LONGEST
        &&& 0 <= self.height <= LONGEST
        &&& 0 <= self.clock_width <= LONGEST
        &&& 0 <= self.clock_height <= LONGEST
        &&& 0 <= self.keyboard_width <= LONGEST
        &&& 0 <= self.keyboard_height <= LONGEST
        &&& 0 <= self.tray_len
        &&& 0 <= self.padding <= LONGEST
        &&& 0 <= self.spacing <= LONGEST
        &&& 0 < self.icon <= LONGEST
        &&& self.tray_len * (self.icon + self.spacing) <= LONGEST
    }

    /// The left edge of the clock: centered on the canvas, or at its right end
    /// before the weather icon.
    pub open spec fn clock_x(self) -> int {
        if self.centered {
            half(self.width - self.clock_width)
        } else {
            larger(
                self.width - self.padding - self.clock_width - (if self.weather {
                    self.spacing + self.icon
                } else {
                    0
                }),
                0,
            )
        }
    }

    pub open spec fn clock_right(self) -> int {
        self.clock_x() + self.clock_width
    }

    /// The right edge of the status group: the canvas or the clock.
    pub open spec fn right_anchor(self) -> int {
        if self.centered {
            self.width - self.padding
        } else {
            self.clock_x()
        }
    }

    /// The gap between the status group and what is right of it.
    pub open spec fn anchor_gap(self) -> int {
        if self.centered {
            0
        } else {
            self.spacing
        }
    }

    /// The width of all tray icons with the gaps between them.
    pub open spec fn tray_width(self) -> int {
        if self.tray_len == 0 {
            0
        } else {
            self.tray_len * (self.icon + self.spacing) - self.spacing
        }
    }

    pub open spec fn weather_x(self) -> int {
        self.clock_right() + self.spacing
    }

    pub open spec fn network_x(self) -> int {
        self.right_anchor() - self.anchor_gap() - self.icon
    }

    /// The left edge of the keyboard layout: left of the network icon, else left
    /// of the tray, else at the right end of the group.
    pub open spec fn keyboard_x(self) -> int {
        let anchor = if self.network {
            self.network_x()
        } else if self.tray_len == 0 {
            self.right_anchor()
        } else {
            self.tray_x()
        };
        if self.keyboard_width > 0 {
            anchor - self.spacing - self.keyboard_width
        } else {
            anchor
        }
    }

    /// The left edge of the tray: at the right end of the group, or left of the
    /// keyboard layout where a network icon is shown.
    pub open spec fn tray_x(self) -> int {
        if self.network {
            let keyboard_x = self.network_x() - (if self.keyboard_width > 0 {
                self.spacing + self.keyboard_width
            } else {
                0
            });
            keyboard_x - (if self.tray_len > 0 {
                self.spacing + self.tray_width()
            } else {
                0
            })
        } else {
            self.right_anchor() - self.anchor_gap() - self.tray_width()
        }
    }
}

/// The places of the parts of the bar.
#[derive(Clone, Copy, Debug, PartialEq, Eq, Structural)]
pub struct BarLayout {
    pub clock_x: i32,
    pub clock_y: i32,
    pub keyboard_x: i32,
    pub network_x: Option<i32>,
    pub weather_x: Option<i32>,
    pub keyboard_y: i32,
    pub keyboard_width: i32,
    pub tray_left: i32,
    pub icon_y: i32,
    pub icon_size: i32,
    pub spacing: i32,
}

impl BarLayout {
    /// The layout of some measures.
    pub open spec fn follows(self, m: Measures) -> bool {
        &&& self.clock_x == m.clock_x()
        &&& self.clock_y == half(m.height - m.clock_height)
        &&& self.keyboard_x == m.keyboard_x()
        &&& self.network_x == (if m.network {
            Some(m.network_x() as i32)
        } else {
            None
        })
        &&& self.weather_x == (if m.weather {
            Some(m.weather_x() as i32)
        } else {
            None
        })
        &&& self.keyboard_y == half(m.height - m.keyboard_height)
        &&& self.keyboard_width == m.keyboard_width
        &&& self.tray_left == m.tray_x()
        &&& self.icon_y == half(m.height - m.icon)
        &&& self.icon_size == m.icon
        &&& self.spacing == m.spacing
    }

    pub fn calculate(
        canvas: (i32, i32),
        clock: (i32, i32),
        keyboard: (i32, i32),
        tray_len: usize,
        scale: u32,
        style: &Style,
    ) -> (result: Self)
        requires
            style.wf(),
            scale <= 0x1_0000,
            measures(canvas, clock, keyboard, tray_len, scale, style).wf(),
        ensures
            result.follows(measures(canvas, clock, keyboard, tray_len, scale, style)),
    {
        let ghost m = measures(canvas, clock, keyboard, tray_len, scale, style);
        let padding: i32 = scaled(style.padding, scale);
        let spacing: i32 = scaled(style.tray_spacing, scale);
        let icon_size: i32 = scaled(style.tray_icon_size, scale);
        let centered = style.clock_position == ClockPosition::Center;
        let weather_width: i32 = if style.weather_enabled {
            spacing + icon_size
        } else {
            0
        };
        let clock_x: i32 = if centered {
            (canvas.0 - clock.0) / 2
        } else {
            max_i32(canvas.0 - padding - clock.0 - weather_width, 0)
        };
        let right_anchor: i32 = if centered {
            canvas.0 - padding
        } else {
            clock_x
        };
        let gap: i32 = if centered {
            0
        } else {
            spacing
        };
        assert(tray_len <= LONGEST) by (nonlinear_arith)
            requires
                0 <= tray_len,
                tray_len * (m.icon + m.spacing) <= LONGEST,
                1 <= m.icon + m.spacing,
        ;
        let tray_width: i32 = if tray_len == 0 {
            0
        } else {
            tray_len as i32 * (icon_size + spacing) - spacing
        };
        let mut tray_left: i32 = right_anchor - gap - tray_width;
        let keyboard_width: i32 = keyboard.0;
        let keyboard_anchor: i32 = if tray_len == 0 {
            right_anchor
        } else {
            tray_left
        };
        let mut keyboard_x: i32 = if keyboard_width == 0 {
            keyboard_anchor
        } else {
            keyboard_anchor - spacing - keyboard_width
        };
        let mut network_x: Option<i32> = None;
        if style.network_enabled {
            let x: i32 = right_anchor - gap - icon_size;
            keyboard_x = if keyboard_width > 0 {
                x - spacing - keyboard_width
            } else {
                x
            };
            tray_left = if tray_len > 0 {
                keyboard_x - spacing - tray_width
            } else {
                keyboard_x
            };
            network_x = Some(x);
        }
        BarLayout {
            clock_x,
            clock_y: (canvas.1 - clock.1) / 2,
            keyboard_x,
            network_x,
            weather_x: if style.weather_enabled {
                Some(clock_x + clock.0 + spacing)
            } else {
                None
            },
            keyboard_y: (canvas.1 - keyboard.1) / 2,
            keyboard_width,
            tray_left,
            icon_y: (canvas.1 - icon_size) / 2,
            icon_size,
            spacing,
        }
    }

    /// The left edge of a tray icon.
    pub fn icon_x(self, index: usize) -> (result: i32)
        requires
            -16 * LONGEST <= self.tray_left <= 16 * LONGEST,
            0 <= self.icon_size,
            0 <= self.spacing,
            0 <= self.icon_size + self.spacing <= i32::MAX,
            index <= LONGEST,
            index * (self.icon_size + self.spacing) <= LONGEST,
        ensures
            result == self.tray_left + index * (self.icon_size + self.spacing),
    {
        assert(0 <= index * (self.icon_size + self.spacing)) by (nonlinear_arith)
            requires
                0 <= index,
                0 <= self.icon_size + self.spacing,
        ;
        self.tray_left + index as i32 * (self.icon_size + self.spacing)
    }

    /// The box of a tray icon.
    pub fn hitbox(self, tray_index: usize) -> (result: Hitbox)
        requires
            -16 * LONGEST <= self.tray_left <= 16 * LONGEST,
            0 <= self.icon_size,
            0 <= self.spacing,
            0 <= self.icon_size + self.spacing <= i32::MAX,
            tray_index <= LONGEST,
            tray_index * (self.icon_size + self.spacing) <= LONGEST,
        ensures
            result == (Hitbox {
                target: HitTarget::Tray(tray_index),
                x: (self.tray_left + tray_index * (self.icon_size + self.spacing)) as i32,
                y: self.icon_y,
                width: self.icon_size,
                height: self.icon_size,
            }),
    {
        Hitbox {
            target: HitTarget::Tray(tray_index),
            x: self.icon_x(tray_index),
            y: self.icon_y,
            width: self.icon_size,
            height: self.icon_size,
        }
    }
}

/// A centered clock stands in the middle of the canvas, whatever is beside it.
pub proof fn law_centered_clock_ignores_side_content(m: Measures, n: Measures)
    requires
        m.centered,
        n.centered,
        m.width == n.width,
        m.clock_width == n.clock_width,
    ensures
        m.clock_x() == n.clock_x(),
        m.width >= m.clock_width ==> 0 <= (m.width - m.clock_right()) - m.clock_x() <= 1,
{
}

/// The weather icon follows the clock at one gap, and fits on the canvas beside
/// a clock at the right end unless the clock itself does not.
pub proof fn law_weather_follows_the_clock(m: Measures)
    requires
        m.wf(),
        m.weather,
    ensures
        m.weather_x() == m.clock_right() + m.spacing,
        !m.centered && m.clock_x() > 0 ==> m.weather_x() + m.icon == m.width - m.padding,
{
}

/// The network icon stands right of the keyboard layout and does not move with the tray.
pub proof fn law_network_does_not_move_with_the_tray(m: Measures, n: Measures)
    requires
        m.wf(),
        n.wf(),
        m.network,
        n.network,
        m == (Measures { tray_len: m.tray_len, ..n }),
    ensures
        m.network_x() == n.network_x(),
        m.keyboard_x() == n.keyboard_x(),
        m.clock_x() == n.clock_x(),
        m.keyboard_width > 0 ==> m.keyboard_x() + m.keyboard_width + m.spacing == m.network_x(),
        m.tray_len > 0 && m.keyboard_width > 0 ==> m.tray_x() + m.tray_width() + m.spacing
            == m.keyboard_x(),
{
}

/// In a centered layout without a network icon the last tray icon ends at the padding.
pub proof fn law_tray_ends_at_the_padding(m: Measures)
    requires
        m.wf(),
        m.centered,
        !m.network,
        m.tray_len > 0,
    ensures
        m.tray_x() + (m.tray_len - 1) * (m.icon + m.spacing) + m.icon == m.width - m.padding,
{
    assert((m.tray_len - 1) * (m.icon + m.spacing) == m.tray_len * (m.icon + m.spacing) - (m.icon
        + m.spacing)) by (nonlinear_arith);
}

/// How tasks share the space between the workspaces and the clock.
#[derive(Clone, Copy, Debug, PartialEq, Eq, Structural)]
pub struct TaskLayout {
    pub left: i32,
    pub height: i32,
    pub item_width: i32,
    pub remainder: i32,
    pub spacing: i32,
    pub count: i32,
}

/// The width that is left for the tasks themselves.
pub open spec fn content_width(left: int, right: int, count: int, spacing: int) -> int {
    right - left - larger(spacing, 0) * (count - 1)
}

impl TaskLayout {
    /// The layout of `count` tasks: as many pixels for each, and one more for
    /// each of the first few.
    pub open spec fn wf(self) -> bool {
        &&& 0 < self.count
        &&& 0 <= self.spacing
        &&& 0 < self.item_width
        &&& 0 <= self.remainder < self.count
        &&& self.item_wide(0) <= i32::MAX
    }

    /// The right edge of the last task.
    pub open spec fn right(self) -> int {
        self.left + self.count * self.item_width + self.remainder + self.spacing * (self.count - 1)
    }

    pub fn calculate(left: i32, right: i32, height: i32, count: usize, spacing: i32) -> (result:
        Option<Self>)
        requires
            right - left <= i32::MAX,
        ensures
            match result {
                Some(layout) => {
                    &&& 0 < count <= i32::MAX
                    &&& left < right
                    &&& content_width(left as int, right as int, count as int, spacing as int)
                        >= count
                    &&& layout.wf()
                    &&& layout.left == left
                    &&& layout.height == height
                    &&& layout.count == count
                    &&& layout.spacing == larger(spacing as int, 0)
                    &&& layout.item_width == content_width(
                        left as int,
                        right as int,
                        count as int,
                        spacing as int,
                    ) / (count as int)
                    &&& layout.remainder == content_width(
                        left as int,
                        right as int,
                        count as int,
                        spacing as int,
                    ) % (count as int)
                    &&& layout.right() == right
                },
                None => count == 0 || count > i32::MAX || right <= left || content_width(
                    left as int,
                    right as int,
                    count as int,
                    spacing as int,
                ) < count,
            },
    {
        if count == 0 || count > i32::MAX as usize || right <= left {
            return None;
        }
        let count: i32 = count as i32;
        let spacing: i32 = max_i32(spacing, 0);
        assert(0 <= spacing * (count - 1) <= 0x7fff_ffff * 0x7fff_ffff) by (nonlinear_arith)
            requires
                0 <= spacing <= 0x7fff_ffff,
                0 <= count - 1 <= 0x7fff_ffff,
        ;
        let gaps: i64 = spacing as i64 * (count as i64 - 1);
        let width: i64 = (right - left) as i64 - gaps;
        if width < count as i64 {
            return None;
        }
        let width: i32 = width as i32;
        proof {
            vstd::arithmetic::div_mod::lemma_fundamental_div_mod(width as int, count as int);
            assert(width as int / count as int >= 1) by (nonlinear_arith)
                requires
                    width >= count,
                    count > 0,
            ;
            assert(count as int * (width as int / count as int) == (width as int / count as int)
                * count as int) by (nonlinear_arith);
            assert(width as int / count as int <= count as int * (width as int / count as int))
                by (nonlinear_arith)
                requires
                    count > 0,
                    width as int / count as int >= 1,
            ;
        }
        Some(
            TaskLayout {
                left,
                height,
                item_width: width / count,
                remainder: width % count,
                spacing,
                count,
            },
        )
    }

    /// The left edge of the task at an index.
    pub open spec fn item_x(self, index: int) -> int {
        self.left + index * (self.item_width + self.spacing) + smaller(
            index,
            self.remainder as int,
        )
    }

    /// The width of the task at an index.
    pub open spec fn item_wide(self, index: int) -> int {
        self.item_width + (if index < self.remainder {
            1int
        } else {
            0
        })
    }

    pub fn item(self, index: usize) -> (result: Option<PixelRect>)
        requires
            self.wf(),
            self.right() <= i32::MAX,
        ensures
            match result {
                Some(rect) => {
                    &&& index < self.count
                    &&& rect.x == self.item_x(index as int)
                    &&& rect.y == 0
                    &&& rect.width == self.item_wide(index as int)
                    &&& rect.height == self.height
                    &&& rect.x + rect.width <= self.right()
                    &&& self.left <= rect.x
                    &&& 0 < rect.width
                },
                None => index >= self.count,
            },
    {
        if index >= self.count as usize {
            return None;
        }
        let index: i32 = index as i32;
        proof {
            law_tasks_fill_the_space(self, index as int);
        }
        let extra_before: i32 = min_i32(index, self.remainder);
        assert(index * (self.item_width + self.spacing) == index * self.item_width + index
            * self.spacing) by (nonlinear_arith);
        assert(0 <= index * self.item_width) by (nonlinear_arith)
            requires
                0 <= index,
                0 <= self.item_width,
        ;
        assert(0 <= index * self.spacing) by (nonlinear_arith)
            requires
                0 <= index,
                0 <= self.spacing,
        ;
        let offset: i64 = index as i64 * (self.item_width as i64 + self.spacing as i64);
        let x: i64 = self.left as i64 + offset + extra_before as i64;
        Some(
            PixelRect {
                x: x as i32,
                y: 0,
                width: if index < self.remainder {
                    self.item_width + 1
                } else {
                    self.item_width
                },
                height: self.height,
            },
        )
    }
}

/// Tasks stand side by side from the left edge to the right one: each starts
/// where the one before it ends and a gap follows, and the last ends at the edge.
/// Every task gets a pixel, none is narrower than one after it, and no two widths
/// differ by more than one.
pub proof fn law_tasks_fill_the_space(layout: TaskLayout, index: int)
    requires
        layout.wf(),
        0 <= index < layout.count,
    ensures
        layout.item_x(0) == layout.left,
        layout.item_x(index + 1) == layout.item_x(index) + layout.item_wide(index) + layout.spacing,
        layout.item_x(layout.count - 1) + layout.item_wide(layout.count - 1) == layout.right(),
        layout.left <= layout.item_x(index),
        layout.item_x(index) + layout.item_wide(index) <= layout.right(),
        0 <= index * (layout.item_width + layout.spacing) <= layout.right() - layout.left,
        1 <= layout.item_wide(index),
        layout.item_wide(layout.count - 1) <= layout.item_wide(index + 1) <= layout.item_wide(index)
            <= layout.item_wide(layout.count - 1) + 1,
{
    let step = layout.item_width + layout.spacing;
    assert((index + 1) * step == index * step + step) by (nonlinear_arith);
    assert((layout.count - 1) * step == (layout.count - 1) * layout.item_width + (layout.count - 1)
        * layout.spacing) by (nonlinear_arith)
        requires
            step == layout.item_width + layout.spacing,
    ;
    assert((layout.count - 1) * layout.item_width == layout.count * layout.item_width
        - layout.item_width) by (nonlinear_arith);
    assert((layout.count - 1) * layout.spacing == layout.spacing * (layout.count - 1))
        by (nonlinear_arith);
    assert(0 <= index * step) by (nonlinear_arith)
        requires
            0 <= index,
            0 <= step,
    ;
    assert(index * step <= (layout.count - 1) * step) by (nonlinear_arith)
        requires
            index <= layout.count - 1,
            0 <= step,
    ;
}

} // verus!
