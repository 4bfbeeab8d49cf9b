//! The drawer that tray icons slide out of.

use vstd::prelude::*;

use crate::render::layout::HitTarget;

verus! {

/// How far a drawer is when it is open.
pub const FULLY: u32 = 1000;

/// The drawer of a bar. How far it is open moves evenly to its end, which it
/// reaches from the other end in the configured time.
#[derive(Clone, Copy, Debug, PartialEq, Eq, Structural)]
pub struct Drawer {
    pub open: bool,
    /// How far it was open, in thousandths, when it began to move.
    pub from: u32,
    /// When it began to move, in nanoseconds.
    pub since: u64,
}

/// How far a drawer is open.
pub open spec fn openness(drawer: Drawer, duration_ms: u32, now: u64) -> int {
    let passed: int = if now > drawer.since {
        now - drawer.since
    } else {
        0
    };
    if duration_ms == 0 {
        if drawer.open {
            FULLY as int
        } else {
            0
        }
    } else {
        let moved = passed * FULLY / (duration_ms * 1_000_000);
        if drawer.open {
            if drawer.from + moved > FULLY {
                FULLY as int
            } else {
                drawer.from + moved
            }
        } else {
            if moved > drawer.from {
                0
            } else {
                drawer.from - moved
            }
        }
    }
}

/// Whether what the pointer is over is part of the drawer: its chevron, its icons
/// or the gaps between them.
pub fn is_over_drawer(target: Option<HitTarget>) -> (result: bool)
    ensures
        result == (target == Some(HitTarget::TrayDrawer) || target matches Some(
            HitTarget::Tray(_),
        )),
{
    match target {
        Some(HitTarget::TrayDrawer) => true,
        Some(HitTarget::Tray(_)) => true,
        _ => false,
    }
}

/// Whether a drawer is to be open: while the pointer is over it, or a menu of
/// one of its icons is open.
pub fn wants_open(hovered: bool, menu_open: bool) -> (result: bool)
    ensures
        result == (hovered || menu_open),
{
    hovered || menu_open
}

/// The drawer once it is to be open or closed.
pub open spec fn turned(drawer: Drawer, open: bool, duration_ms: u32, now: u64) -> Drawer {
    if drawer.open != open {
        Drawer { open, from: openness(drawer, duration_ms, now) as u32, since: now }
    } else {
        drawer
    }
}

/// The part of a width that so many thousandths are.
pub open spec fn visible_part(width: int, position: int) -> int {
    (width * position + 500) / 1000
}

impl Drawer {
    pub open spec fn wf(self) -> bool {
        self.from <= FULLY
    }

    pub fn new() -> (result: Self)
        ensures
            result.wf(),
            result == (Drawer { open: false, from: 0, since: 0 }),
    {
        Drawer { open: false, from: 0, since: 0 }
    }

    pub fn position(&self, duration_ms: u32, now: u64) -> (result: u32)
        requires
            self.wf(),
        ensures
            result == openness(*self, duration_ms, now),
            result <= FULLY,
    {
        if duration_ms == 0 {
            return if self.open {
                FULLY
            } else {
                0
            };
        }
        let passed: u64 = if now > self.since {
            now - self.since
        } else {
            0
        };
        let moved: u128 = passed as u128 * FULLY as u128 / (duration_ms as u128 * 1_000_000);
        if self.open {
            if self.from as u128 + moved > FULLY as u128 {
                FULLY
            } else {
                self.from + moved as u32
            }
        } else {
            if moved > self.from as u128 {
                0
            } else {
                self.from - moved as u32
            }
        }
    }

    /// Begins to open or close the drawer, from where it is, and tells whether
    /// it moves.
    pub fn set_open(&mut self, open: bool, duration_ms: u32, now: u64) -> (result: bool)
        requires
            old(self).wf(),
        ensures
            final(self).wf(),
            result == (old(self).open != open),
            *final(self) == turned(*old(self), open, duration_ms, now),
    {
        if self.open == open {
            return false;
        }
        self.from = self.position(duration_ms, now);
        self.open = open;
        self.since = now;
        true
    }

    /// Whether the drawer is on its way.
    pub fn moving(&self, duration_ms: u32, now: u64) -> (result: bool)
        requires
            self.wf(),
        ensures
            result == (openness(*self, duration_ms, now) != (if self.open {
                FULLY as int
            } else {
                0
            })),
    {
        let end: u32 = if self.open {
            FULLY
        } else {
            0
        };
        self.position(duration_ms, now) != end
    }
}

/// The pixels of a drawer that are visible, rounded to the nearest one.
pub fn visible_width(width: i32, position: u32) -> (result: i32)
    requires
        width >= 0,
        position <= FULLY,
    ensures
        result == visible_part(width as int, position as int),
        0 <= result <= width,
{
    assert(0 <= width * position <= width * 1000) by (nonlinear_arith)
        requires
            width >= 0,
            0 <= position <= 1000,
    ;
    ((width as i64 * position as i64 + 500) / 1000) as i32
}

/// A drawer is where it is to be once its time has passed, at once where there
/// is none, and does not jump when it turns round.
pub proof fn law_drawers_arrive(drawer: Drawer, duration_ms: u32, now: u64, open: bool)
    requires
        drawer.wf(),
    ensures
        now >= drawer.since + duration_ms * 1_000_000 ==> openness(drawer, duration_ms, now) == (
        if drawer.open {
            FULLY as int
        } else {
            0
        }),
        0 <= openness(drawer, duration_ms, now) <= FULLY,
        duration_ms > 0 ==> openness(
            Drawer { open, from: openness(drawer, duration_ms, now) as u32, since: now },
            duration_ms,
            now,
        ) == openness(drawer, duration_ms, now),
{
    if duration_ms > 0 {
        let passed: int = if now > drawer.since {
            now - drawer.since
        } else {
            0
        };
        let whole = duration_ms * 1_000_000;
        let moved = passed * FULLY / whole;
        assert(moved >= 0 && (passed >= whole ==> moved >= FULLY)) by (nonlinear_arith)
            requires
                whole > 0,
                passed >= 0,
                moved == passed * FULLY / whole,
        ;
        assert(0int * FULLY / whole == 0) by (nonlinear_arith)
            requires
                whole > 0,
        ;
    }
}

} // verus!
