use nibari::clock::{
    clock_granularity, delay_until_next_tick, granularity_of, valid_format, ClockGranularity,
    FormatItem,
};

#[test]
fn clock_timer_matches_format_precision() {
    assert_eq!(
        clock_granularity("%a %b %d, %H:%M"),
        ClockGranularity::Minute
    );
    assert_eq!(clock_granularity("%H:%M:%S"), ClockGranularity::Second);
    assert_eq!(
        clock_granularity("%H:%M:%S%.3f"),
        ClockGranularity::Subsecond
    );
    assert_eq!(
        delay_until_next_tick(ClockGranularity::Minute, 42, 500_000_000),
        17_501_000_000
    );
}

#[test]
fn other_precisions_and_formats_follow_their_finest_item() {
    assert_eq!(clock_granularity("%s"), ClockGranularity::Second);
    assert_eq!(clock_granularity("%c %T"), ClockGranularity::Second);
    assert_eq!(clock_granularity("%+"), ClockGranularity::Second);
    assert_eq!(clock_granularity("plain"), ClockGranularity::Minute);
    for fraction in ["%f", "%.f", "%.3f", "%.6f", "%.9f"] {
        assert_eq!(clock_granularity(fraction), ClockGranularity::Subsecond, "{fraction}");
    }
    assert_eq!(granularity_of(&vec![]), ClockGranularity::Minute);
    assert_eq!(
        granularity_of(&vec![FormatItem::Second, FormatItem::Fraction, FormatItem::Literal]),
        ClockGranularity::Subsecond
    );
    assert!(valid_format("%H:%M"));
    assert!(!valid_format("%H:%Q"));
}

#[test]
fn ticks_come_just_after_their_boundary() {
    assert_eq!(delay_until_next_tick(ClockGranularity::Subsecond, 1, 2), 17_000_000);
    assert_eq!(delay_until_next_tick(ClockGranularity::Second, 59, 999_999_999), 1_000_001);
    assert_eq!(delay_until_next_tick(ClockGranularity::Second, 0, 0), 1_001_000_000);
    assert_eq!(delay_until_next_tick(ClockGranularity::Minute, 0, 0), 60_001_000_000);
}
