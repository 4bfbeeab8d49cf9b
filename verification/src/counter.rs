//! Counters that tell an event from an earlier one.

use vstd::prelude::*;

verus! {

/// The count after another one; after the last it starts over.
pub open spec fn following(count: u64) -> u64 {
    if count == u64::MAX {
        0
    } else {
        (count + 1) as u64
    }
}

pub fn next_count(count: u64) -> (result: u64)
    ensures
        result == following(count),
{
    count.wrapping_add(1)
}

} // verus!
