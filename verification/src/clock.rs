//! The clock's format and the time until its text can change.

use vstd::prelude::*;
use chrono::format::Fixed::{Nanosecond3, Nanosecond6, Nanosecond9, RFC2822, RFC3339};
use chrono::format::Item::{Literal, OwnedLiteral, OwnedSpace, Space};
use chrono::format::{Fixed, Item, Numeric, StrftimeItems};

verus! {

/// What one item of a clock format shows, as far as the bar tells items apart.
#[derive(Clone, Copy, Debug, PartialEq, Eq, Structural)]
pub enum FormatItem {
    Literal,
    OwnedLiteral,
    Space,
    OwnedSpace,
    /// A number other than the next three.
    Numeric,
    Second,
    Timestamp,
    Nanosecond,
    /// A text of a fixed form other than the next six.
    Fixed,
    Fraction,
    Fraction3,
    Fraction6,
    Fraction9,
    Rfc2822,
    Rfc3339,
    Invalid,
}

/// How often the text of a clock can change.
#[derive(Clone, Copy, Debug, PartialEq, Eq, Structural)]
pub enum ClockGranularity {
    Minute,
    Second,
    Subsecond,
}

/// The items that chrono's `StrftimeItems` finds in a format.
pub uninterp spec fn strftime_items(format: Seq<char>) -> Seq<FormatItem>;

/// `chrono::format::StrftimeItems::new`, run to its end.
///
/// The result depends on the format alone. Which items a format has is left to
/// chrono; each is reported as the matching `FormatItem`.
#[verifier::external_body]
pub(crate) fn format_items(format: &str) -> (result: Vec<FormatItem>)
    ensures
        result@ == strftime_items(format@),
{
    StrftimeItems::new(format).map(|item| match item {
        Literal(_) => FormatItem::Literal,
        OwnedLiteral(_) => FormatItem::OwnedLiteral,
        Space(_) => FormatItem::Space, OwnedSpace(_) => FormatItem::OwnedSpace,
        Item::Numeric(Numeric::Second, _) => FormatItem::Second,
        Item::Numeric(Numeric::Timestamp, _) => FormatItem::Timestamp,
        Item::Numeric(Numeric::Nanosecond, _) => FormatItem::Nanosecond,
        Item::Numeric(..) => FormatItem::Numeric,
        Item::Fixed(Fixed::Nanosecond) => FormatItem::Fraction,
        Item::Fixed(Nanosecond3) => FormatItem::Fraction3,
        Item::Fixed(Nanosecond6) => FormatItem::Fraction6,
        Item::Fixed(Nanosecond9) => FormatItem::Fraction9,
        Item::Fixed(RFC2822) => FormatItem::Rfc2822,
        Item::Fixed(RFC3339) => FormatItem::Rfc3339, Item::Fixed(_) => FormatItem::Fixed,
        Item::Error => FormatItem::Invalid }).collect()
}

/// Whether chrono understands every part of a format.
pub open spec fn is_valid_format(items: Seq<FormatItem>) -> bool {
    forall|i: int| 0 <= i < items.len() ==> #[trigger] items[i] != FormatItem::Invalid
}

/// Whether all of the items are understood.
pub fn all_valid(items: &Vec<FormatItem>) -> (result: bool)
    ensures
        result == is_valid_format(items@),
{
    let mut i: usize = 0;
    while i < items.len()
        invariant
            i <= items@.len(),
            forall|k: int| 0 <= k < i ==> #[trigger] items@[k] != FormatItem::Invalid,
        decreases items@.len() - i,
    {
        if items[i] == FormatItem::Invalid {
            return false;
        }
        i += 1;
    }
    true
}

/// Whether a clock format can be used.
pub fn valid_format(format: &str) -> (result: bool)
    ensures
        result == is_valid_format(strftime_items(format@)),
{
    let items = format_items(format);
    all_valid(&items)
}

/// Whether an item changes more often than once a second.
pub open spec fn shows_fractions(item: FormatItem) -> bool {
    item is Nanosecond || item is Fraction || item is Fraction3 || item is Fraction6 || item
        is Fraction9
}

/// Whether an item changes once a second.
pub open spec fn shows_seconds(item: FormatItem) -> bool {
    item is Second || item is Timestamp || item is Rfc2822 || item is Rfc3339
}

/// The finest granularity that one of the items asks for.
pub open spec fn finest(items: Seq<FormatItem>) -> ClockGranularity {
    if exists|i: int| 0 <= i < items.len() && shows_fractions(#[trigger] items[i]) {
        ClockGranularity::Subsecond
    } else if exists|i: int| 0 <= i < items.len() && shows_seconds(#[trigger] items[i]) {
        ClockGranularity::Second
    } else {
        ClockGranularity::Minute
    }
}

/// The granularity of a clock that shows these items.
pub fn granularity_of(items: &Vec<FormatItem>) -> (result: ClockGranularity)
    ensures
        result == finest(items@),
{
    let mut current = ClockGranularity::Minute;
    let mut i: usize = 0;
    while i < items.len()
        invariant
            i <= items@.len(),
            current != ClockGranularity::Subsecond,
            current == finest(items@.take(i as int)),
        decreases items@.len() - i,
    {
        let ghost before = items@.take(i as int);
        let ghost after = items@.take(i + 1);
        assert(forall|k: int| 0 <= k < i ==> before[k] == after[k]);
        match items[i] {
            FormatItem::Nanosecond
            | FormatItem::Fraction
            | FormatItem::Fraction3
            | FormatItem::Fraction6
            | FormatItem::Fraction9 => {
                assert(shows_fractions(items@[i as int]));
                return ClockGranularity::Subsecond;
            },
            FormatItem::Second
            | FormatItem::Timestamp
            | FormatItem::Rfc2822
            | FormatItem::Rfc3339 => {
                assert(shows_seconds(after[i as int]));
                current = ClockGranularity::Second;
            },
            _ => {
                assert(!shows_fractions(after[i as int]) && !shows_seconds(after[i as int]));
                proof {
                    if current == ClockGranularity::Second {
                        let k = choose|k: int|
                            0 <= k < before.len() && shows_seconds(#[trigger] before[k]);
                        assert(shows_seconds(after[k]));
                    }
                }
            },
        }
        assert(forall|k: int| 0 <= k < after.len() ==> !shows_fractions(#[trigger] after[k])) by {
            assert forall|k: int| 0 <= k < after.len() implies !shows_fractions(#[trigger] after[k]) by {
                if k < i {
                    assert(after[k] == before[k]);
                }
            }
        }
        i += 1;
    }
    assert(items@.take(i as int) == items@);
    current
}

/// The granularity of a clock with the given format.
pub fn clock_granularity(format: &str) -> (result: ClockGranularity)
    ensures
        result == finest(strftime_items(format@)),
{
    let items = format_items(format);
    granularity_of(&items)
}

pub const NANOSECONDS_PER_SECOND: u64 = 1_000_000_000;

pub const NANOSECONDS_PER_MILLISECOND: u64 = 1_000_000;

/// The nanoseconds from a moment until just after the clock's next change.
///
/// Fractions of a second are refreshed every 16 milliseconds. A leap second
/// counts as the end of its second or minute.
pub open spec fn tick_delay(granularity: ClockGranularity, second: u32, nanosecond: u32) -> int {
    1_000_000 + match granularity {
        ClockGranularity::Subsecond => 16_000_000,
        ClockGranularity::Second => if nanosecond <= 1_000_000_000 {
            1_000_000_000 - nanosecond
        } else {
            0
        },
        ClockGranularity::Minute => {
            let left = (60 - second) * 1_000_000_000 - nanosecond;
            if second < 60 && left > 1 {
                left
            } else {
                1
            }
        },
    }
}

pub fn delay_until_next_tick(granularity: ClockGranularity, second: u32, nanosecond: u32) -> (result: u64)
    ensures
        result == tick_delay(granularity, second, nanosecond),
{
    let nanosecond: u64 = nanosecond as u64;
    let delay: u64 = match granularity {
        ClockGranularity::Subsecond => 16 * NANOSECONDS_PER_MILLISECOND,
        ClockGranularity::Second => if nanosecond <= NANOSECONDS_PER_SECOND {
            NANOSECONDS_PER_SECOND - nanosecond
        } else {
            0
        },
        ClockGranularity::Minute => {
            let seconds: u64 = if second < 60 {
                60 - second as u64
            } else {
                0
            };
            let length: u64 = seconds * NANOSECONDS_PER_SECOND;
            if length > nanosecond + 1 {
                length - nanosecond
            } else {
                1
            }
        },
    };
    delay + NANOSECONDS_PER_MILLISECOND
}

/// For a time of day outside a leap second, waiting for the computed delay ends
/// after the next change of the clock, and at most a millisecond after it.
pub proof fn law_tick_ends_just_after_the_boundary(second: u32, nanosecond: u32)
    requires
        second < 60,
        nanosecond < 1_000_000_000,
    ensures
        nanosecond + tick_delay(ClockGranularity::Second, second, nanosecond) == 1_001_000_000,
        second * 1_000_000_000 + nanosecond + tick_delay(
            ClockGranularity::Minute,
            second,
            nanosecond,
        ) == 60_001_000_000,
{
}

/// The clock ticks as often as the finest part of its format changes: a format with parts
/// of a second in it more often than one with seconds, and that more often than any other.
pub proof fn law_finest_part_sets_the_pace(items: Seq<FormatItem>, item: FormatItem)
    ensures
        finest(Seq::empty()) == ClockGranularity::Minute,
        shows_fractions(item) ==> finest(items.push(item)) == ClockGranularity::Subsecond,
        shows_seconds(item) && finest(items) == ClockGranularity::Minute ==> finest(
            items.push(item),
        ) == ClockGranularity::Second,
        !shows_fractions(item) && !shows_seconds(item) ==> finest(items.push(item)) == finest(
            items,
        ),
        finest(items) == ClockGranularity::Subsecond ==> finest(items.push(item))
            == ClockGranularity::Subsecond,
{
    let more = items.push(item);
    assert(more[items.len() as int] == item);
    assert(forall|i: int| 0 <= i < items.len() ==> #[trigger] more[i] == items[i]);
    if exists|i: int| 0 <= i < items.len() && shows_fractions(#[trigger] items[i]) {
        let i = choose|i: int| 0 <= i < items.len() && shows_fractions(#[trigger] items[i]);
        assert(shows_fractions(more[i]));
    }
    if exists|i: int| 0 <= i < items.len() && shows_seconds(#[trigger] items[i]) {
        let i = choose|i: int| 0 <= i < items.len() && shows_seconds(#[trigger] items[i]);
        assert(shows_seconds(more[i]));
    }
    if exists|i: int| 0 <= i < more.len() && shows_fractions(#[trigger] more[i]) {
        let i = choose|i: int| 0 <= i < more.len() && shows_fractions(#[trigger] more[i]);
        assert(i < items.len() ==> shows_fractions(items[i]));
    }
    if exists|i: int| 0 <= i < more.len() && shows_seconds(#[trigger] more[i]) {
        let i = choose|i: int| 0 <= i < more.len() && shows_seconds(#[trigger] more[i]);
        assert(i < items.len() ==> shows_seconds(items[i]));
    }
}

/// Fractions of a second and nanoseconds are parts of a second; seconds, timestamps and the
/// two internet formats show seconds; nothing else does.
pub proof fn law_parts_of_formats(item: FormatItem)
    ensures
        shows_fractions(item) <==> item == FormatItem::Nanosecond || item == FormatItem::Fraction
            || item == FormatItem::Fraction3 || item == FormatItem::Fraction6 || item
            == FormatItem::Fraction9,
        shows_seconds(item) <==> item == FormatItem::Second || item == FormatItem::Timestamp || item
            == FormatItem::Rfc2822 || item == FormatItem::Rfc3339,
{
}

/// A tick comes a millisecond after the next second or minute begins, or every 17
/// milliseconds.
pub proof fn law_ticks_follow_the_boundary(second: u32, nanosecond: u32)
    requires
        second < 60,
        nanosecond < 1_000_000_000,
    ensures
        tick_delay(ClockGranularity::Second, second, nanosecond) + nanosecond == 1_000_000_000
            + 1_000_000,
        second * 1_000_000_000 + nanosecond + tick_delay(
            ClockGranularity::Minute,
            second,
            nanosecond,
        ) == 60_000_000_000 + 1_000_000,
        tick_delay(ClockGranularity::Subsecond, second, nanosecond) == 17_000_000,
{
}

} // verus!
