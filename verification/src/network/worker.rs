//! When the network is looked at: the steps between two waits for an event.

use vstd::prelude::*;

use super::probe::{loss_of, recorded, LossWindow, OutcomeView, ProbeOutcome};
use super::{
    apply_connectivity, clear_probe, connected, counted, same_connection, unprobed,
    update_counters, NetworkKind, NetworkSnapshot, RateSampler, SampleView, SnapshotView,
};
use crate::config::DOUBLE_SIGN;
use crate::counter::{following, next_count};
use crate::text::same_text;

verus! {

/// The time between two readings of the traffic counters.
pub const COUNTER_INTERVAL: u64 = 1_000_000_000;

/// The time between two probes.
pub const PROBE_INTERVAL: u64 = 2_000_000_000;

/// The last moment that the worker can plan from.
pub const LAST_MOMENT: u64 = 0xffff_ffff_ffff_ffff - 2_000_000_000;

/// The bits of an infinite double-precision number without a sign.
pub const DOUBLE_INFINITY: u64 = 0x7ff0_0000_0000_0000;

/// Whether the bits of a double-precision number stand for no number.
pub open spec fn not_a_number(bits: u64) -> bool {
    bits as int % (DOUBLE_SIGN as int) > DOUBLE_INFINITY
}

/// Whether two double-precision numbers are equal: neither may be no number,
/// and the zeros of both signs are equal.
pub open spec fn same_number(left: u64, right: u64) -> bool {
    &&& !not_a_number(left)
    &&& !not_a_number(right)
    &&& left == right || (left as int % (DOUBLE_SIGN as int) == 0 && right as int % (
    DOUBLE_SIGN as int) == 0)
}

/// Whether two round-trip times are equal.
pub open spec fn same_time(left: Option<u64>, right: Option<u64>) -> bool {
    match (left, right) {
        (Some(left), Some(right)) => same_number(left, right),
        (None, None) => true,
        _ => false,
    }
}

fn times_equal(left: Option<u64>, right: Option<u64>) -> (result: bool)
    ensures
        result == same_time(left, right),
{
    match (left, right) {
        (Some(left), Some(right)) => {
            let first: u64 = left % DOUBLE_SIGN;
            let second: u64 = right % DOUBLE_SIGN;
            first <= DOUBLE_INFINITY && second <= DOUBLE_INFINITY && (left == right || (first == 0
                && second == 0))
        },
        (None, None) => true,
        _ => false,
    }
}

fn same_loss(left: Option<u8>, right: Option<u8>) -> (result: bool)
    ensures
        result == (left == right),
{
    match (left, right) {
        (Some(left), Some(right)) => left == right,
        (None, None) => true,
        _ => false,
    }
}

/// The milliseconds to wait from `now` to a deadline, rounded up.
pub open spec fn wait_until(deadline: u64, now: u64) -> int {
    let nanos: int = if deadline > now {
        deadline - now
    } else {
        0
    };
    let millis = (nanos + 999_999) / 1_000_000;
    if millis > i32::MAX {
        i32::MAX as int
    } else {
        millis
    }
}

pub fn poll_timeout(deadline: u64, now: u64) -> (result: i32)
    ensures
        result == wait_until(deadline, now),
{
    if deadline <= now {
        return 0;
    }
    let nanos: u64 = deadline - now;
    let mut millis: u64 = nanos / 1_000_000;
    if nanos % 1_000_000 != 0 {
        millis += 1;
    }
    if millis > i32::MAX as u64 {
        i32::MAX
    } else {
        millis as i32
    }
}

/// A wait is never too short, and less than a millisecond too long, unless it
/// is longer than a wait can be.
pub proof fn law_waits_reach_their_deadline(deadline: u64, now: u64)
    requires
        now <= deadline,
        wait_until(deadline, now) < i32::MAX,
    ensures
        now + wait_until(deadline, now) * 1_000_000 >= deadline,
        now + wait_until(deadline, now) * 1_000_000 < deadline + 1_000_000,
{
}

/// When the next probe may start.
pub open spec fn probe_moment(now: u64, last_started: Option<u64>) -> int {
    match last_started {
        Some(last) => if last + PROBE_INTERVAL > now {
            last + PROBE_INTERVAL
        } else {
            now as int
        },
        None => now as int,
    }
}

pub fn probe_deadline(now: u64, last_started: Option<u64>) -> (result: u64)
    requires
        last_started matches Some(last) ==> last <= LAST_MOMENT,
    ensures
        result == probe_moment(now, last_started),
{
    match last_started {
        Some(last) => if last + PROBE_INTERVAL > now {
            last + PROBE_INTERVAL
        } else {
            now
        },
        None => now,
    }
}

/// What the network's thread keeps between its steps.
#[derive(Debug)]
pub struct Worker {
    pub snapshot: NetworkSnapshot,
    pub visibility_generation: u64,
    pub refresh_generation: u64,
    pub connectivity_dirty: bool,
    pub sampler: RateSampler,
    pub loss: LossWindow,
    pub next_counter: u64,
    pub next_probe: u64,
    pub last_probe_started: Option<u64>,
    pub probe_enabled: bool,
}

/// The view of what is kept.
pub ghost struct WorkerView {
    pub snapshot: SnapshotView,
    pub visibility_generation: u64,
    pub refresh_generation: u64,
    pub connectivity_dirty: bool,
    pub sampler: Option<SampleView>,
    pub loss: Seq<bool>,
    pub next_counter: int,
    pub next_probe: int,
    pub last_probe_started: Option<u64>,
    pub probe_enabled: bool,
}

impl View for Worker {
    type V = WorkerView;

    open spec fn view(&self) -> WorkerView {
        WorkerView {
            snapshot: self.snapshot@,
            visibility_generation: self.visibility_generation,
            refresh_generation: self.refresh_generation,
            connectivity_dirty: self.connectivity_dirty,
            sampler: self.sampler@,
            loss: self.loss.outcomes@,
            next_counter: self.next_counter as int,
            next_probe: self.next_probe as int,
            last_probe_started: self.last_probe_started,
            probe_enabled: self.probe_enabled,
        }
    }
}

/// What is kept at the start.
pub open spec fn started(snapshot: SnapshotView, now: u64) -> WorkerView {
    WorkerView {
        snapshot,
        visibility_generation: 0,
        refresh_generation: 0,
        connectivity_dirty: false,
        sampler: None,
        loss: Seq::empty(),
        next_counter: now as int,
        next_probe: now as int,
        last_probe_started: None,
        probe_enabled: true,
    }
}

/// Whether a moment lets the next probe start at most once per interval.
pub open spec fn keeps_distance(next_probe: int, last_started: Option<u64>) -> bool {
    last_started matches Some(last) ==> next_probe >= last + PROBE_INTERVAL
}

/// What is kept once the popup's visibility has been looked at.
pub open spec fn seen(worker: WorkerView, generation: u64, visible: bool, now: u64) -> WorkerView {
    if generation == worker.visibility_generation {
        worker
    } else if visible {
        WorkerView {
            visibility_generation: generation,
            sampler: None,
            loss: Seq::empty(),
            probe_enabled: true,
            snapshot: unprobed(worker.snapshot),
            next_counter: now as int,
            next_probe: probe_moment(now, worker.last_probe_started),
            connectivity_dirty: true,
            ..worker
        }
    } else {
        WorkerView { visibility_generation: generation, ..worker }
    }
}

/// What is kept once the requests for a refresh have been looked at.
pub open spec fn refreshed(
    worker: WorkerView,
    generation: u64,
    visible: bool,
    now: u64,
) -> WorkerView {
    if generation == worker.refresh_generation {
        worker
    } else if visible {
        WorkerView {
            refresh_generation: generation,
            connectivity_dirty: true,
            probe_enabled: true,
            snapshot: unprobed(worker.snapshot),
            next_probe: probe_moment(now, worker.last_probe_started),
            ..worker
        }
    } else {
        WorkerView { refresh_generation: generation, connectivity_dirty: true, ..worker }
    }
}

/// What is kept once the connection has been looked up.
pub open spec fn reconnected(
    worker: WorkerView,
    connection: SnapshotView,
    now: u64,
) -> WorkerView {
    let after = WorkerView {
        connectivity_dirty: false,
        snapshot: connected(worker.snapshot, connection),
        ..worker
    };
    if same_connection(worker.snapshot, connection) {
        after
    } else {
        WorkerView {
            sampler: None,
            loss: Seq::empty(),
            probe_enabled: true,
            next_counter: now as int,
            next_probe: probe_moment(now, worker.last_probe_started),
            ..after
        }
    }
}

/// What is kept once the traffic counters have been read.
pub open spec fn measured(
    worker: WorkerView,
    counters: Option<(u64, u64)>,
    now: u64,
) -> WorkerView {
    let (snapshot, sampler) = counted(worker.snapshot, worker.sampler, counters, now);
    WorkerView { snapshot, sampler, next_counter: now + COUNTER_INTERVAL, ..worker }
}

/// What is kept once a probe has started.
pub open spec fn probing(worker: WorkerView, now: u64) -> WorkerView {
    WorkerView { last_probe_started: Some(now), next_probe: now + PROBE_INTERVAL, ..worker }
}

/// What is kept once a probe has ended. It counts only while the popup has
/// stayed visible.
pub open spec fn probed(
    worker: WorkerView,
    outcome: OutcomeView,
    visible: bool,
    generation: u64,
) -> WorkerView {
    if !visible || generation != worker.visibility_generation {
        worker
    } else {
        match outcome {
            OutcomeView::Sent(time) => {
                let loss = recorded(worker.loss, time is Some);
                WorkerView {
                    loss,
                    snapshot: SnapshotView {
                        ping_ms: time,
                        loss_percent: loss_of(loss),
                        probe_error: None,
                        ..worker.snapshot
                    },
                    ..worker
                }
            },
            OutcomeView::Unavailable(error) => WorkerView {
                probe_enabled: false,
                snapshot: SnapshotView {
                    ping_ms: None,
                    probe_error: Some(error),
                    ..worker.snapshot
                },
                ..worker
            },
        }
    }
}

/// Whether the end of a probe changes what is shown.
pub open spec fn probe_shows(
    worker: WorkerView,
    outcome: OutcomeView,
    visible: bool,
    generation: u64,
) -> bool {
    let after = probed(worker, outcome, visible, generation);
    &&& visible && generation == worker.visibility_generation
    &&& match outcome {
        OutcomeView::Sent(time) => !same_time(worker.snapshot.ping_ms, time)
            || worker.snapshot.loss_percent != after.snapshot.loss_percent
            || worker.snapshot.probe_error is Some,
        OutcomeView::Unavailable(_) => worker.snapshot.ping_ms is Some
            || worker.snapshot.probe_error != after.snapshot.probe_error,
    }
}

/// Whether the counters are to be read.
pub open spec fn counting_due(worker: WorkerView, visible: bool, now: u64) -> bool {
    visible && now >= worker.next_counter
}

/// Whether a probe is to start.
pub open spec fn probing_due(worker: WorkerView, visible: bool, now: u64) -> bool {
    visible && worker.probe_enabled && worker.snapshot.kind != NetworkKind::Offline && now
        >= worker.next_probe
}

/// The milliseconds to wait for an event; negative for any length.
pub open spec fn wait_of(worker: WorkerView, visible: bool, now: u64) -> int {
    if !visible {
        -1
    } else if worker.probe_enabled && worker.snapshot.kind != NetworkKind::Offline
        && worker.next_probe < worker.next_counter {
        wait_until(worker.next_probe as u64, now)
    } else {
        wait_until(worker.next_counter as u64, now)
    }
}

impl Worker {
    pub open spec fn wf(self) -> bool {
        &&& self.loss.wf()
        &&& self.last_probe_started matches Some(last) ==> last <= LAST_MOMENT
        &&& keeps_distance(self.next_probe as int, self.last_probe_started)
    }

    pub fn new(snapshot: NetworkSnapshot, now: u64) -> (result: Self)
        ensures
            result.wf(),
            result@ == started(snapshot@, now),
    {
        Worker {
            snapshot,
            visibility_generation: 0,
            refresh_generation: 0,
            connectivity_dirty: false,
            sampler: RateSampler::new(),
            loss: LossWindow::new(),
            next_counter: now,
            next_probe: now,
            last_probe_started: None,
            probe_enabled: true,
        }
    }

    /// Looks at the popup's visibility and at the requests for a refresh, and
    /// tells whether the snapshot has changed.
    pub fn observe(
        &mut self,
        visibility_generation: u64,
        visible: bool,
        refresh_generation: u64,
        now: u64,
    ) -> (result: bool)
        requires
            old(self).wf(),
        ensures
            final(self).wf(),
            final(self)@ == refreshed(
                seen(old(self)@, visibility_generation, visible, now),
                refresh_generation,
                visible,
                now,
            ),
            result == (final(self)@.snapshot != old(self)@.snapshot),
    {
        let mut changed = false;
        if visibility_generation != self.visibility_generation {
            self.visibility_generation = visibility_generation;
            if visible {
                self.sampler = RateSampler::new();
                self.loss = LossWindow::new();
                self.probe_enabled = true;
                changed = clear_probe(&mut self.snapshot);
                self.next_counter = now;
                self.next_probe = probe_deadline(now, self.last_probe_started);
                self.connectivity_dirty = true;
            }
        }
        assert(self@ == seen(old(self)@, visibility_generation, visible, now));
        if refresh_generation != self.refresh_generation {
            self.refresh_generation = refresh_generation;
            self.connectivity_dirty = true;
            if visible {
                self.probe_enabled = true;
                let cleared = clear_probe(&mut self.snapshot);
                changed = changed || cleared;
                self.next_probe = probe_deadline(now, self.last_probe_started);
            }
        }
        changed
    }

    /// Takes over the connection that was looked up, and tells whether the
    /// snapshot has changed.
    pub fn reconnect(&mut self, connection: NetworkSnapshot, now: u64) -> (result: bool)
        requires
            old(self).wf(),
        ensures
            final(self).wf(),
            final(self)@ == reconnected(old(self)@, connection@, now),
            result == !same_connection(old(self)@.snapshot, connection@),
    {
        self.connectivity_dirty = false;
        let changed = apply_connectivity(&mut self.snapshot, connection);
        if changed {
            self.sampler = RateSampler::new();
            self.loss = LossWindow::new();
            self.probe_enabled = true;
            self.next_counter = now;
            self.next_probe = probe_deadline(now, self.last_probe_started);
        }
        changed
    }

    pub fn counters_due(&self, visible: bool, now: u64) -> (result: bool)
        ensures
            result == counting_due(self@, visible, now),
    {
        visible && now >= self.next_counter
    }

    /// Takes over the received and sent bytes, if they could be read, and tells
    /// whether the snapshot has changed.
    pub fn count(&mut self, counters: Option<(u64, u64)>, now: u64) -> (result: bool)
        requires
            old(self).wf(),
            now <= LAST_MOMENT,
        ensures
            final(self).wf(),
            final(self)@ == measured(old(self)@, counters, now),
            result == (final(self)@.snapshot != old(self)@.snapshot),
    {
        self.next_counter = now + COUNTER_INTERVAL;
        update_counters(&mut self.snapshot, &mut self.sampler, counters, now)
    }

    pub fn probe_due(&self, visible: bool, now: u64) -> (result: bool)
        ensures
            result == probing_due(self@, visible, now),
    {
        visible && self.probe_enabled && self.snapshot.kind != NetworkKind::Offline && now
            >= self.next_probe
    }

    pub fn begin_probe(&mut self, now: u64)
        requires
            old(self).wf(),
            now <= LAST_MOMENT,
        ensures
            final(self).wf(),
            final(self)@ == probing(old(self)@, now),
    {
        self.last_probe_started = Some(now);
        self.next_probe = now + PROBE_INTERVAL;
    }

    /// Takes over the end of a probe, with the popup's visibility by then, and
    /// tells whether the snapshot shows it.
    pub fn finish_probe(&mut self, outcome: ProbeOutcome, visible: bool, generation: u64) -> (result:
        bool)
        requires
            old(self).wf(),
        ensures
            final(self).wf(),
            final(self)@ == probed(old(self)@, outcome@, visible, generation),
            result == probe_shows(old(self)@, outcome@, visible, generation),
    {
        if !visible || generation != self.visibility_generation {
            return false;
        }
        match outcome {
            ProbeOutcome::Sent(time) => {
                self.loss.record(time.is_some());
                let loss_percent = self.loss.percent();
                let changed = !times_equal(self.snapshot.ping_ms, time) || !same_loss(
                    self.snapshot.loss_percent,
                    loss_percent,
                ) || self.snapshot.probe_error.is_some();
                self.snapshot.ping_ms = time;
                self.snapshot.loss_percent = loss_percent;
                self.snapshot.probe_error = None;
                changed
            },
            ProbeOutcome::Unavailable(error) => {
                self.probe_enabled = false;
                let same_error = match &self.snapshot.probe_error {
                    Some(shown) => same_text(shown.as_str(), error.as_str()),
                    None => false,
                };
                let changed = self.snapshot.ping_ms.is_some() || !same_error;
                self.snapshot.ping_ms = None;
                self.snapshot.probe_error = Some(error);
                changed
            },
        }
    }

    /// The routes or addresses have changed.
    pub fn routes_changed(&mut self)
        requires
            old(self).wf(),
        ensures
            final(self).wf(),
            final(self)@ == (WorkerView { connectivity_dirty: true, ..old(self)@ }),
    {
        self.connectivity_dirty = true;
    }

    pub fn timeout(&self, visible: bool, now: u64) -> (result: i32)
        ensures
            result == wait_of(self@, visible, now),
    {
        if !visible {
            return -1;
        }
        let mut deadline: u64 = self.next_counter;
        if self.probe_enabled && self.snapshot.kind != NetworkKind::Offline && self.next_probe
            < deadline {
            deadline = self.next_probe;
        }
        poll_timeout(deadline, now)
    }
}

/// No step lets a probe start less than the probe interval after the last one.
pub proof fn law_probes_keep_their_distance(
    worker: WorkerView,
    generation: u64,
    visible: bool,
    connection: SnapshotView,
    counters: Option<(u64, u64)>,
    outcome: OutcomeView,
    now: u64,
)
    requires
        keeps_distance(worker.next_probe, worker.last_probe_started),
    ensures
        ({
            let w = seen(worker, generation, visible, now);
            keeps_distance(w.next_probe, w.last_probe_started)
        }),
        ({
            let w = refreshed(worker, generation, visible, now);
            keeps_distance(w.next_probe, w.last_probe_started)
        }),
        ({
            let w = reconnected(worker, connection, now);
            keeps_distance(w.next_probe, w.last_probe_started)
        }),
        ({
            let w = measured(worker, counters, now);
            keeps_distance(w.next_probe, w.last_probe_started)
        }),
        ({
            let w = probing(worker, now);
            keeps_distance(w.next_probe, w.last_probe_started)
        }),
        ({
            let w = probed(worker, outcome, visible, generation);
            keeps_distance(w.next_probe, w.last_probe_started)
        }),
        probing_due(worker, visible, now) && worker.last_probe_started is Some ==> now
            >= worker.last_probe_started->0 + PROBE_INTERVAL,
{
}

/// While the popup is hidden nothing is read or probed, and the worker sleeps
/// until something happens.
pub proof fn law_hidden_workers_sleep(worker: WorkerView, now: u64)
    ensures
        !counting_due(worker, false, now),
        !probing_due(worker, false, now),
        wait_of(worker, false, now) == -1,
{
}

/// A probe that ends after the popup was hidden, or shown anew, leaves no trace.
pub proof fn law_stale_probes_are_ignored(
    worker: WorkerView,
    outcome: OutcomeView,
    visible: bool,
    generation: u64,
)
    requires
        !visible || generation != worker.visibility_generation,
    ensures
        probed(worker, outcome, visible, generation) == worker,
        !probe_shows(worker, outcome, visible, generation),
{
}

/// Showing the popup starts every measurement afresh.
pub proof fn law_shown_popups_measure_afresh(worker: WorkerView, generation: u64, now: u64)
    requires
        generation != worker.visibility_generation,
    ensures
        ({
            let w = seen(worker, generation, true, now);
            &&& w.connectivity_dirty && w.probe_enabled
            &&& w.loss == Seq::<bool>::empty() && w.sampler is None
            &&& w.snapshot == unprobed(worker.snapshot)
            &&& counting_due(w, true, now)
        }),
{
}

/// An error stops the probes until a refresh, another connection, or the popup
/// being shown anew.
pub proof fn law_errors_stop_probes(
    worker: WorkerView,
    error: Seq<char>,
    generation: u64,
    connection: SnapshotView,
    now: u64,
)
    requires
        generation == worker.visibility_generation,
    ensures
        ({
            let w = probed(worker, OutcomeView::Unavailable(error), true, generation);
            &&& !probing_due(w, true, now)
            &&& forall|shown: u64|
                shown != generation ==> (#[trigger] seen(w, shown, true, now)).probe_enabled
            &&& forall|asked: u64|
                asked != w.refresh_generation ==> (#[trigger] refreshed(
                    w,
                    asked,
                    true,
                    now,
                )).probe_enabled
            &&& !same_connection(w.snapshot, connection) ==> reconnected(
                w,
                connection,
                now,
            ).probe_enabled
        }),
{
}

/// What the network's thread is asked for: whether the popup is shown, and how
/// often that has changed and a refresh has been asked for.
#[derive(Clone, Copy, Debug, PartialEq, Eq, Structural)]
pub struct NetworkHandle {
    pub visible: bool,
    pub visibility_generation: u64,
    pub refresh_generation: u64,
}

impl NetworkHandle {
    /// The handle once the popup is shown or hidden.
    pub open spec fn shown_as(&self, visible: bool) -> NetworkHandle {
        if self.visible != visible {
            NetworkHandle {
                visible,
                visibility_generation: following(self.visibility_generation),
                ..*self
            }
        } else {
            *self
        }
    }

    /// The handle once a refresh was asked for.
    pub open spec fn asked(&self) -> NetworkHandle {
        NetworkHandle { refresh_generation: following(self.refresh_generation), ..*self }
    }

    pub fn new() -> (result: Self)
        ensures
            result == (NetworkHandle {
                visible: false,
                visibility_generation: 0,
                refresh_generation: 0,
            }),
    {
        NetworkHandle { visible: false, visibility_generation: 0, refresh_generation: 0 }
    }

    /// Shows or hides the popup, and tells whether the worker is to wake.
    pub fn set_visible(&mut self, visible: bool) -> (result: bool)
        ensures
            result == (old(self).visible != visible),
            *final(self) == old(self).shown_as(visible),
    {
        if self.visible == visible {
            return false;
        }
        self.visible = visible;
        self.visibility_generation = next_count(self.visibility_generation);
        true
    }

    /// Asks for a refresh; the worker is to wake.
    pub fn refresh(&mut self)
        ensures
            *final(self) == old(self).asked(),
    {
        self.refresh_generation = next_count(self.refresh_generation);
    }
}

} // verus!
