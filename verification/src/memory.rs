//! When freed memory is given back to the system.

use vstd::prelude::*;

verus! {

/// The least time, in nanoseconds, from a request to the trim that it causes.
pub const TRIM_DELAY: u64 = 3_000_000_000;

/// The least time, in nanoseconds, from one trim to the next.
pub const TRIM_COOLDOWN: u64 = 30_000_000_000;

/// Coalesces requests, so that memory is not trimmed on every frame and no
/// timer runs while there is nothing to trim.
///
/// Moments are nanoseconds of a monotonic clock.
#[derive(Clone, Copy, Debug, PartialEq, Eq, Structural)]
pub struct TrimSchedule {
    pub pending: bool,
    pub last_trim: Option<u64>,
}

/// The time left at `now` until `cooldown` after `last` has passed.
pub open spec fn cooldown_left(last: Option<u64>, now: u64) -> int {
    match last {
        Some(last) => if last + TRIM_COOLDOWN > now {
            last + TRIM_COOLDOWN - now
        } else {
            0
        },
        None => 0,
    }
}

/// The delay that a request at `now` is answered with, if none is pending.
pub open spec fn trim_delay(last: Option<u64>, now: u64) -> int {
    if cooldown_left(last, now) > TRIM_DELAY {
        cooldown_left(last, now)
    } else {
        TRIM_DELAY as int
    }
}

impl Default for TrimSchedule {
    fn default() -> (result: Self)
        ensures
            !result.pending,
            result.last_trim is None,
    {
        TrimSchedule { pending: false, last_trim: None }
    }
}

impl TrimSchedule {
    /// Asks for a trim. Returns the nanoseconds after which it is due, or `None`
    /// if one is already on its way.
    pub fn request(&mut self, now: u64) -> (result: Option<u64>)
        requires
            old(self).last_trim matches Some(last) ==> last + TRIM_COOLDOWN <= u64::MAX,
        ensures
            final(self).pending,
            final(self).last_trim == old(self).last_trim,
            match result {
                Some(delay) => !old(self).pending && delay == trim_delay(old(self).last_trim, now),
                None => old(self).pending,
            },
    {
        if self.pending {
            return None;
        }
        self.pending = true;
        let cooldown: u64 = match self.last_trim {
            Some(last) => if last + TRIM_COOLDOWN > now {
                last + TRIM_COOLDOWN - now
            } else {
                0
            },
            None => 0,
        };
        if cooldown > TRIM_DELAY {
            Some(cooldown)
        } else {
            Some(TRIM_DELAY)
        }
    }

    /// Notes that the trim on its way was done at `now`.
    pub fn completed(&mut self, now: u64)
        ensures
            !final(self).pending,
            final(self).last_trim == Some(now),
    {
        self.pending = false;
        self.last_trim = Some(now);
    }

    /// Forgets the trim on its way.
    pub fn cancel(&mut self)
        ensures
            !final(self).pending,
            final(self).last_trim == old(self).last_trim,
    {
        self.pending = false;
    }
}

/// Two trims are never less than the cooldown apart, and a trim never comes
/// less than the delay after the request for it.
pub proof fn law_trims_keep_their_distance(last: u64, now: u64)
    requires
        last <= now,
    ensures
        now + trim_delay(Some(last), now) >= last + TRIM_COOLDOWN,
        trim_delay(Some(last), now) >= TRIM_DELAY,
{
}

/// Memory is given back three seconds after it was freed, and at the earliest half a minute
/// after the last time.
pub proof fn law_trims_wait_for_both(last: u64, now: u64)
    requires
        last <= now,
    ensures
        trim_delay(None, now) == 3_000_000_000,
        trim_delay(Some(last), now) >= 3_000_000_000,
        now + trim_delay(Some(last), now) >= last + 30_000_000_000,
        trim_delay(Some(last), now) == 3_000_000_000 || now + trim_delay(Some(last), now) == last
            + 30_000_000_000,
        cooldown_left(None, now) == 0,
{
}

} // verus!
