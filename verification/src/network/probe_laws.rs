//! What holds of probes and of the thread that makes them, whatever is measured.

use vstd::prelude::*;

use crate::network::probe::{
    first_some, kept_outcomes, loss_of, lost_in, outcome_of, packets_sent, recorded, sent_in,
    shortened_error, time_in, times_in, without_commas, OutcomeView,
};
use crate::network::worker::{
    counting_due, measured, probe_moment, probe_shows, probed, probing, probing_due, reconnected,
    refreshed, same_time, seen, started, wait_of, wait_until, NetworkHandle, WorkerView,
};
use crate::network::{counted, same_connection, unprobed, NetworkKind, SnapshotView};
use crate::text::{after_prefix, lines_of, trimmed, unsigned_of};

verus! {

/// The loss is the share of probes without an answer: none while all are answered, all
/// while none is.
pub proof fn law_loss_counts_missing_answers(outcomes: Seq<bool>, received: bool)
    ensures
        lost_in(outcomes.push(received)) == lost_in(outcomes) + (if received {
            0int
        } else {
            1
        }),
        lost_in(Seq::empty()) == 0,
        0 < outcomes.len() <= 20 ==> loss_of(outcomes) is Some && loss_of(outcomes)->0
            * outcomes.len() <= 100 * lost_in(outcomes) < (loss_of(outcomes)->0 + 1)
            * outcomes.len(),
        loss_of(Seq::empty()) is None,
{
    assert(outcomes.push(received).drop_last() =~= outcomes);
    lemma_lost_bounds(outcomes);
    if 0 < outcomes.len() <= 20 {
        let lost = lost_in(outcomes);
        let count = outcomes.len() as int;
        let total = lost * 100;
        vstd::arithmetic::div_mod::lemma_fundamental_div_mod(total, count);
        let quotient = total / count;
        let rest = total % count;
        assert(0 <= quotient <= 100 && quotient * count <= total < (quotient + 1) * count)
            by (nonlinear_arith)
            requires
                total == count * quotient + rest,
                0 <= rest < count,
                0 <= total <= 100 * count,
        ;
    }
}

proof fn lemma_lost_bounds(outcomes: Seq<bool>)
    ensures
        0 <= lost_in(outcomes) <= outcomes.len(),
    decreases outcomes.len(),
{
    if outcomes.len() > 0 {
        lemma_lost_bounds(outcomes.drop_last());
    }
}

/// The last 20 outcomes are kept, the newest one last.
pub proof fn law_last_outcomes_are_kept(outcomes: Seq<bool>, received: bool)
    requires
        outcomes.len() <= 20,
    ensures
        recorded(outcomes, received).len() == (if outcomes.len() == 20 {
            20
        } else {
            outcomes.len() + 1
        }),
        recorded(outcomes, received).last() == received,
        outcomes.len() < 20 ==> recorded(outcomes, received).drop_last() == outcomes,
        outcomes.len() == 20 ==> recorded(outcomes, received).drop_last() == outcomes.skip(1),
{
    assert(outcomes.push(received).drop_last() =~= outcomes);
    assert(outcomes.skip(1).push(received).drop_last() =~= outcomes.skip(1));
}

/// A summary says how many packets were transmitted in its first word, with or without a
/// comma after the third.
pub proof fn law_summaries_tell_what_was_sent(count: Seq<char>, rest: Seq<Seq<char>>, word: Seq<char>)
    requires
        word == "transmitted"@ || word == "transmitted"@.push(','),
    ensures
        sent_in(seq![count, "packets"@, word] + rest) == unsigned_of(count, 10, u32::MAX as int),
        forall|words: Seq<Seq<char>>|
            words.len() < 3 || words[1] != "packets"@ ==> #[trigger] sent_in(words) is None,
{
    reveal_strlit("transmitted");
    let plain = "transmitted"@;
    assert(plain.len() == 11 && plain[10] == 'd');
    assert(without_commas(plain) == plain);
    if word == plain.push(',') {
        assert(word.drop_last() =~= plain);
        reveal_with_fuel(without_commas, 2);
    }
    let words = seq![count, "packets"@, word] + rest;
    assert(words[0] == count && words[1] == "packets"@ && words[2] == word);
}

/// The first line that says how many packets were sent counts.
pub proof fn law_first_summary_counts(lines: Seq<Seq<char>>, start: int)
    requires
        0 <= start < lines.len(),
    ensures
        sent_in(crate::text::words_of(lines[start])) matches Some(count) ==> packets_sent(
            lines,
            start,
        ) == Some(count),
        sent_in(crate::text::words_of(lines[start])) is None ==> packets_sent(lines, start)
            == packets_sent(lines, start + 1),
        packets_sent(lines, lines.len() as int) is None,
{
}

/// A probe that sent packets has the first time that was measured, if any; one that sent
/// none is unavailable, for the reason that stands in the error output, or else in the
/// output.
pub proof fn law_outcomes_of_probes(stdout: Seq<char>, stderr: Seq<char>, times: Seq<Option<u64>>)
    ensures
        ({
            let sent = packets_sent(lines_of(stdout), 0);
            let outcome = outcome_of(stdout, stderr, times);
            &&& outcome is Sent <==> sent is Some && sent->0 != 0
            &&& outcome is Sent ==> outcome->Sent_0 == first_some(times, 0)
            &&& outcome is Unavailable && trimmed(stderr).len() > 0 ==> outcome->Unavailable_0
                == shortened_error(trimmed(stderr))
            &&& outcome is Unavailable && trimmed(stderr).len() == 0 ==> outcome->Unavailable_0
                == shortened_error(trimmed(stdout))
        }),
        times.len() > 0 && times[0] is Some ==> first_some(times, 0) == times[0],
        times.len() > 0 && times[0] is None ==> first_some(times, 0) == first_some(times, 1),
        times.len() == 0 ==> first_some(times, 0) is None,
{
}

/// An error is at most 256 characters of its message, and never empty.
pub proof fn law_errors_are_short(message: Seq<char>)
    ensures
        message.len() == 0 ==> shortened_error(message) == "ping unavailable"@,
        0 < message.len() <= 256 ==> shortened_error(message) == message,
        message.len() > 256 ==> shortened_error(message) == message.take(256),
{
}

/// A time stands after `time=` or `time<`, and times are read in their order.
pub proof fn law_times_stand_after_their_name(value: Seq<char>, words: Seq<Seq<char>>, word: Seq<char>)
    ensures
        time_in("time="@ + value) == Some(value),
        time_in("time<"@ + value) == Some(value),
        times_in(words.push(word), words.len() as int + 1) == (match time_in(word) {
            Some(value) => times_in(words.push(word), words.len() as int).push(value),
            None => times_in(words.push(word), words.len() as int),
        }),
{
    reveal_strlit("time=");
    reveal_strlit("time<");
    let first = "time="@ + value;
    let second = "time<"@ + value;
    assert(first.take(5) =~= "time="@);
    assert(first.skip(5) =~= value);
    assert(second.take(5) =~= "time<"@);
    assert(second.skip(5) =~= value);
    assert(second[4] == '<' && "time="@[4] == '=');
    if crate::text::starts(second, "time="@) {
        assert(second.take(5)[4] == '<');
    }
    assert(after_prefix(second, "time="@) is None);
}

/// A probe that was answered shows its time and the loss so far and no error; one that was
/// not answered counts as lost; an unavailable one stops the probes and tells why.
pub proof fn law_probes_are_shown(worker: WorkerView, time: Option<u64>, error: Seq<char>)
    ensures
        ({
            let after = probed(worker, OutcomeView::Sent(time), true, worker.visibility_generation);
            &&& after.snapshot.ping_ms == time
            &&& after.snapshot.probe_error is None
            &&& after.loss == recorded(worker.loss, time is Some)
            &&& after.snapshot.loss_percent == loss_of(after.loss)
            &&& after.probe_enabled == worker.probe_enabled
            &&& same_connection(after.snapshot, worker.snapshot)
            &&& after.snapshot.rx_bytes == worker.snapshot.rx_bytes
            &&& after.snapshot.tx_bytes == worker.snapshot.tx_bytes
        }),
        ({
            let after = probed(
                worker,
                OutcomeView::Unavailable(error),
                true,
                worker.visibility_generation,
            );
            &&& after.snapshot.ping_ms is None
            &&& after.snapshot.probe_error == Some(error)
            &&& !after.probe_enabled
            &&& after.loss == worker.loss
            &&& after.snapshot.loss_percent == worker.snapshot.loss_percent
        }),
{
}

/// A change of what is shown of a probe is told, and nothing else.
pub proof fn law_shown_changes_are_told(
    worker: WorkerView,
    outcome: OutcomeView,
    visible: bool,
    generation: u64,
)
    ensures
        probe_shows(worker, outcome, visible, generation) ==> visible && generation
            == worker.visibility_generation,
        visible && generation == worker.visibility_generation ==> {
            let after = probed(worker, outcome, visible, generation).snapshot;
            !probe_shows(worker, outcome, visible, generation) ==> (after.ping_ms is Some)
                == (worker.snapshot.ping_ms is Some) && (after.probe_error is Some)
                == (worker.snapshot.probe_error is Some) && (after.loss_percent
                == worker.snapshot.loss_percent)
        },
        same_time(None, None),
        !same_time(Some(0), None),
{
}

/// A popup that is shown again starts over: no rates, no loss, and a reading and a probe as
/// soon as they may be; one that is hidden leaves everything as it is.
pub proof fn law_shown_popups_start_over(worker: WorkerView, generation: u64, now: u64)
    requires
        generation != worker.visibility_generation,
    ensures
        ({
            let after = seen(worker, generation, true, now);
            &&& after.visibility_generation == generation
            &&& after.sampler is None
            &&& after.loss.len() == 0
            &&& after.probe_enabled
            &&& after.connectivity_dirty
            &&& after.snapshot == unprobed(worker.snapshot)
            &&& after.next_counter == now
            &&& after.next_probe >= now
            &&& worker.last_probe_started is None ==> after.next_probe == now
        }),
        seen(worker, generation, false, now) == (WorkerView {
            visibility_generation: generation,
            ..worker
        }),
        seen(worker, worker.visibility_generation, true, now) == worker,
{
}

/// A refresh asks for the connection anew, and for a probe if the popup is shown; what was
/// counted stays.
pub proof fn law_refreshes_ask_anew(worker: WorkerView, generation: u64, now: u64)
    requires
        generation != worker.refresh_generation,
    ensures
        ({
            let after = refreshed(worker, generation, true, now);
            &&& after.refresh_generation == generation
            &&& after.connectivity_dirty
            &&& after.probe_enabled
            &&& after.snapshot == unprobed(worker.snapshot)
            &&& after.sampler == worker.sampler
            &&& after.loss == worker.loss
            &&& after.next_counter == worker.next_counter
        }),
        refreshed(worker, generation, false, now).connectivity_dirty,
        refreshed(worker, generation, false, now).refresh_generation == generation,
        refreshed(worker, generation, false, now).snapshot == worker.snapshot,
        refreshed(worker, generation, false, now).next_probe == worker.next_probe,
        refreshed(worker, worker.refresh_generation, true, now) == worker,
{
}

/// Another connection is measured from the beginning, and the same one goes on as it was.
pub proof fn law_new_connections_are_measured_afresh(
    worker: WorkerView,
    connection: SnapshotView,
    now: u64,
)
    ensures
        ({
            let after = reconnected(worker, connection, now);
            &&& !after.connectivity_dirty
            &&& same_connection(after.snapshot, connection)
            &&& same_connection(worker.snapshot, connection) ==> after.loss == worker.loss
                && after.sampler == worker.sampler && after.next_probe == worker.next_probe
                && after.next_counter == worker.next_counter && after.probe_enabled
                == worker.probe_enabled
            &&& !same_connection(worker.snapshot, connection) ==> after.loss.len() == 0
                && after.sampler is None && after.probe_enabled && after.next_counter == now
                && after.next_probe >= now
        }),
{
}

/// The counters are read every second and a probe is made every two seconds, while the
/// popup is shown; no probe is made offline or once probes are off.
pub proof fn law_measurements_are_made_in_time(
    worker: WorkerView,
    counters: Option<(u64, u64)>,
    visible: bool,
    now: u64,
    later: u64,
)
    ensures
        measured(worker, counters, now).next_counter == now + 1_000_000_000,
        measured(worker, counters, now).snapshot == counted(
            worker.snapshot,
            worker.sampler,
            counters,
            now,
        ).0,
        measured(worker, counters, now).sampler == counted(
            worker.snapshot,
            worker.sampler,
            counters,
            now,
        ).1,
        counting_due(measured(worker, counters, now), true, later) <==> later - now
            >= 1_000_000_000,
        probing(worker, now).next_probe == now + 2_000_000_000,
        probing(worker, now).last_probe_started == Some(now),
        probing_due(probing(worker, now), true, later) <==> later - now >= 2_000_000_000
            && worker.probe_enabled && worker.snapshot.kind != NetworkKind::Offline,
        !counting_due(worker, false, now),
        !probing_due(worker, false, now),
        probing_due(worker, visible, now) ==> now >= worker.next_probe && worker.probe_enabled,
        probe_moment(now, None) == now,
        probe_moment(now, Some(later)) >= later + 2_000_000_000,
        probe_moment(now, Some(later)) >= now,
{
}

/// The thread waits in whole milliseconds until the earlier of the two measurements, no
/// shorter and less than a millisecond longer, and without end while nothing is shown.
pub proof fn law_waits_end_with_the_next_measurement(worker: WorkerView, now: u64)
    requires
        0 <= worker.next_counter <= u64::MAX,
        0 <= worker.next_probe <= u64::MAX,
    ensures
        wait_of(worker, false, now) == -1,
        ({
            let probes = worker.probe_enabled && worker.snapshot.kind != NetworkKind::Offline;
            let next = if probes && worker.next_probe < worker.next_counter {
                worker.next_probe
            } else {
                worker.next_counter
            };
            let wait = wait_of(worker, true, now);
            &&& next <= now ==> wait == 0
            &&& next > now && wait < i32::MAX ==> wait * 1_000_000 >= next - now && (wait - 1)
                * 1_000_000 < next - now
        }),
        wait_until(now, now) == 0,
{
}

/// A thread starts with nothing measured and everything due.
pub proof fn law_threads_start_at_once(snapshot: SnapshotView, now: u64)
    ensures
        started(snapshot, now).snapshot == snapshot,
        started(snapshot, now).loss.len() == 0,
        started(snapshot, now).sampler is None,
        started(snapshot, now).probe_enabled,
        !started(snapshot, now).connectivity_dirty,
        counting_due(started(snapshot, now), true, now),
        snapshot.kind != NetworkKind::Offline ==> probing_due(started(snapshot, now), true, now),
        kept_outcomes(Seq::empty()) == started(snapshot, now).loss,
{
}

/// Showing and hiding the popup is told to the thread by a new number, and asking for a
/// refresh by another one; doing what is done already tells it nothing.
pub proof fn law_handles_tell_the_thread(handle: NetworkHandle, visible: bool)
    ensures
        handle.shown_as(visible).visible == visible,
        handle.visible == visible ==> handle.shown_as(visible) == handle,
        handle.visible != visible ==> handle.shown_as(visible).visibility_generation
            != handle.visibility_generation,
        handle.shown_as(visible).refresh_generation == handle.refresh_generation,
        handle.asked().refresh_generation != handle.refresh_generation,
        handle.asked().visible == handle.visible,
        handle.asked().visibility_generation == handle.visibility_generation,
{
}

} // verus!
