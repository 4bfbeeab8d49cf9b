use std::time::Duration;

use nibari::memory::TrimSchedule;

fn nanos(duration: Duration) -> u64 {
    duration.as_nanos() as u64
}

#[test]
fn reclamation_coalesces_bursts_and_has_no_idle_timer() {
    let now = 1_000_000_000_000;
    let at = |seconds| now + nanos(Duration::from_secs(seconds));
    let mut schedule = TrimSchedule::default();
    assert_eq!(schedule.request(now), Some(nanos(Duration::from_secs(3))));
    assert_eq!(schedule.request(at(1)), None);
    schedule.completed(at(3));
    assert_eq!(
        schedule.request(at(4)),
        Some(nanos(Duration::from_secs(29)))
    );
    assert_eq!(schedule.request(at(5)), None);
    schedule.completed(at(33));
    assert_eq!(
        schedule.request(at(90)),
        Some(nanos(Duration::from_secs(3)))
    );
}

#[test]
fn cancelled_trims_can_be_asked_for_again() {
    let mut schedule = TrimSchedule::default();
    assert!(schedule.request(0).is_some());
    schedule.cancel();
    assert_eq!(schedule.request(1), Some(3_000_000_000));
}
