//! What a probe with `ping` tells.

use std::collections::VecDeque;

use vstd::prelude::*;
use vstd::slice::slice_subrange;

use crate::text::{
    after_prefix, chars_of, lines_of, parse_unsigned, same_text, split_lines, split_words,
    string_of, string_views, strip_prefix, trim, trimmed, unsigned_of, views, words_of,
    lemma_string_views_push,
};

verus! {

/// The longest error text of a probe, in characters.
pub const MAX_ERROR: usize = 256;

/// The number of probes that a loss is taken over.
pub const LOSS_WINDOW: usize = 20;

/// How a probe ended: with a packet sent, and its round-trip time if it came
/// back, or with none sent.
#[derive(Debug)]
pub enum ProbeOutcome {
    Sent(Option<u64>),
    Unavailable(String),
}

/// The view of an outcome.
pub ghost enum OutcomeView {
    Sent(Option<u64>),
    Unavailable(Seq<char>),
}

impl View for ProbeOutcome {
    type V = OutcomeView;

    open spec fn view(&self) -> OutcomeView {
        match *self {
            ProbeOutcome::Sent(time) => OutcomeView::Sent(time),
            ProbeOutcome::Unavailable(error) => OutcomeView::Unavailable(error@),
        }
    }
}

/// A text without commas at its end.
pub open spec fn without_commas(text: Seq<char>) -> Seq<char>
    decreases text.len(),
{
    if text.len() > 0 && text.last() == ',' {
        without_commas(text.drop_last())
    } else {
        text
    }
}

/// The number of packets that a line of the summary reports as sent.
pub open spec fn sent_in(words: Seq<Seq<char>>) -> Option<int> {
    if words.len() >= 3 && words[1] == "packets"@ && without_commas(words[2]) == "transmitted"@ {
        unsigned_of(words[0], 10, u32::MAX as int)
    } else {
        None
    }
}

/// The first report of packets sent from a line on.
pub open spec fn packets_sent(lines: Seq<Seq<char>>, start: int) -> Option<int>
    decreases lines.len() - start,
{
    if start < 0 || start >= lines.len() {
        None
    } else {
        match sent_in(words_of(lines[start])) {
            Some(count) => Some(count),
            None => packets_sent(lines, start + 1),
        }
    }
}

fn trim_commas(text: &[char]) -> (result: String)
    ensures
        result@ == without_commas(text@),
{
    let mut end: usize = text.len();
    assert(text@.take(end as int) =~= text@);
    while end > 0 && text[end - 1] == ','
        invariant
            end <= text@.len(),
            without_commas(text@.take(end as int)) == without_commas(text@),
        decreases end,
    {
        assert(text@.take(end as int).drop_last() =~= text@.take(end - 1));
        end -= 1;
    }
    let kept = slice_subrange(text, 0, end);
    assert(kept@ =~= text@.take(end as int));
    string_of(kept)
}

fn parse_sent(words: &Vec<&[char]>) -> (result: Option<u64>)
    ensures
        match result {
            Some(count) => sent_in(views(words@)) == Some(count as int),
            None => sent_in(views(words@)) is None,
        },
{
    if words.len() < 3 {
        return None;
    }
    let second = string_of(words[1]);
    let third = trim_commas(words[2]);
    if same_text(second.as_str(), "packets") && same_text(third.as_str(), "transmitted") {
        parse_unsigned(words[0], 10, u32::MAX as u64)
    } else {
        None
    }
}

fn find_sent(lines: &Vec<&[char]>) -> (result: Option<u64>)
    ensures
        match result {
            Some(count) => packets_sent(views(lines@), 0) == Some(count as int),
            None => packets_sent(views(lines@), 0) is None,
        },
{
    let mut i: usize = 0;
    while i < lines.len()
        invariant
            i <= lines@.len(),
            packets_sent(views(lines@), 0) == packets_sent(views(lines@), i as int),
        decreases lines@.len() - i,
    {
        let words = split_words(lines[i]);
        let sent = parse_sent(&words);
        if sent.is_some() {
            return sent;
        }
        i += 1;
    }
    None
}

/// A text as it is shown for an error.
pub open spec fn shortened_error(message: Seq<char>) -> Seq<char> {
    if message.len() == 0 {
        "ping unavailable"@
    } else if message.len() > MAX_ERROR {
        message.take(MAX_ERROR as int)
    } else {
        message
    }
}

pub fn short_error(message: &[char]) -> (result: String)
    ensures
        result@ == shortened_error(message@),
{
    let total: usize = message.len();
    if total == 0 {
        string_of(chars_of("ping unavailable").as_slice())
    } else if total > MAX_ERROR {
        let start = slice_subrange(message, 0, MAX_ERROR);
        assert(start@ =~= message@.take(MAX_ERROR as int));
        string_of(start)
    } else {
        string_of(message)
    }
}

/// The round-trip time that a word gives, as a text.
pub open spec fn time_in(word: Seq<char>) -> Option<Seq<char>> {
    match after_prefix(word, "time="@) {
        Some(value) => Some(value),
        None => after_prefix(word, "time<"@),
    }
}

/// The round-trip times that the first `count` words give.
pub open spec fn times_in(words: Seq<Seq<char>>, count: int) -> Seq<Seq<char>>
    decreases count,
{
    if count <= 0 {
        Seq::empty()
    } else {
        let before = times_in(words, count - 1);
        match time_in(words[count - 1]) {
            Some(value) => before.push(value),
            None => before,
        }
    }
}

/// The texts of the output that may be a round-trip time, in their order.
pub fn round_trip_texts(stdout: &str) -> (result: Vec<String>)
    ensures
        string_views(result@) == times_in(words_of(stdout@), words_of(stdout@).len() as int),
{
    let characters = chars_of(stdout);
    let words = split_words(characters.as_slice());
    let mut times: Vec<String> = Vec::new();
    let mut i: usize = 0;
    assert(string_views(times@) =~= Seq::<Seq<char>>::empty());
    while i < words.len()
        invariant
            i <= words@.len(),
            string_views(times@) == times_in(views(words@), i as int),
        decreases words@.len() - i,
    {
        let value = match strip_prefix(words[i], "time=") {
            Some(value) => Some(value),
            None => strip_prefix(words[i], "time<"),
        };
        if let Some(value) = value {
            let time = string_of(value);
            proof {
                lemma_string_views_push(times@, time);
            }
            times.push(time);
        }
        i += 1;
    }
    times
}

/// The first value that there is from a position on.
pub open spec fn first_some(values: Seq<Option<u64>>, start: int) -> Option<u64>
    decreases values.len() - start,
{
    if start < 0 || start >= values.len() {
        None
    } else if values[start] is Some {
        values[start]
    } else {
        first_some(values, start + 1)
    }
}

/// The outcome that the output of a probe stands for. `times` holds the
/// numbers that the texts of the round-trip times read as.
pub open spec fn outcome_of(
    stdout: Seq<char>,
    stderr: Seq<char>,
    times: Seq<Option<u64>>,
) -> OutcomeView {
    match packets_sent(lines_of(stdout), 0) {
        Some(count) if count != 0 => OutcomeView::Sent(first_some(times, 0)),
        _ => OutcomeView::Unavailable(
            shortened_error(
                if trimmed(stderr).len() == 0 {
                    trimmed(stdout)
                } else {
                    trimmed(stderr)
                },
            ),
        ),
    }
}

/// Reads the output of a probe.
pub fn parse_ping_output(stdout: &str, stderr: &str, times: &Vec<Option<u64>>) -> (result:
    ProbeOutcome)
    ensures
        result@ == outcome_of(stdout@, stderr@, times@),
{
    let output = chars_of(stdout);
    let lines = split_lines(output.as_slice());
    let sent = match find_sent(&lines) {
        Some(count) => count != 0,
        None => false,
    };
    if !sent {
        let errors = chars_of(stderr);
        let error = trim(errors.as_slice());
        let message = if error.len() == 0 {
            trim(output.as_slice())
        } else {
            error
        };
        return ProbeOutcome::Unavailable(short_error(message));
    }
    let mut i: usize = 0;
    while i < times.len()
        invariant
            i <= times@.len(),
            first_some(times@, 0) == first_some(times@, i as int),
            packets_sent(lines_of(stdout@), 0) matches Some(count) && count != 0,
        decreases times@.len() - i,
    {
        if times[i].is_some() {
            return ProbeOutcome::Sent(times[i]);
        }
        i += 1;
    }
    ProbeOutcome::Sent(None)
}

/// A probe that reports a packet as sent is not an error, whatever it wrote.
pub proof fn law_sent_packets_are_outcomes(
    stdout: Seq<char>,
    stderr: Seq<char>,
    times: Seq<Option<u64>>,
)
    ensures
        (outcome_of(stdout, stderr, times) is Sent) == (packets_sent(
            lines_of(stdout),
            0,
        ) matches Some(count) && count != 0),
{
}

/// The number of lost packets among outcomes.
pub open spec fn lost_in(outcomes: Seq<bool>) -> int
    decreases outcomes.len(),
{
    if outcomes.len() == 0 {
        0
    } else {
        lost_in(outcomes.drop_last()) + if outcomes.last() {
            0int
        } else {
            1
        }
    }
}

/// The last outcomes once one more is known.
pub open spec fn recorded(outcomes: Seq<bool>, received: bool) -> Seq<bool> {
    if outcomes.len() == LOSS_WINDOW {
        outcomes.skip(1).push(received)
    } else {
        outcomes.push(received)
    }
}

/// The share of lost packets, in percent.
pub open spec fn loss_of(outcomes: Seq<bool>) -> Option<u8> {
    if outcomes.len() == 0 {
        None
    } else {
        Some((lost_in(outcomes) * 100 / outcomes.len() as int) as u8)
    }
}

/// The outcomes of the last probes.
#[derive(Debug)]
pub struct LossWindow {
    pub outcomes: VecDeque<bool>,
}

proof fn lemma_lost_in(outcomes: Seq<bool>)
    ensures
        0 <= lost_in(outcomes) <= outcomes.len(),
    decreases outcomes.len(),
{
    if outcomes.len() > 0 {
        lemma_lost_in(outcomes.drop_last());
    }
}

impl LossWindow {
    pub open spec fn wf(self) -> bool {
        self.outcomes@.len() <= LOSS_WINDOW
    }

    pub fn new() -> (result: Self)
        ensures
            result.wf(),
            result.outcomes@ == Seq::<bool>::empty(),
    {
        LossWindow { outcomes: VecDeque::new() }
    }

    pub fn record(&mut self, received: bool)
        requires
            old(self).wf(),
        ensures
            final(self).wf(),
            final(self).outcomes@ == recorded(old(self).outcomes@, received),
    {
        if self.outcomes.len() == LOSS_WINDOW {
            self.outcomes.pop_front();
            assert(self.outcomes@ =~= old(self).outcomes@.skip(1));
        }
        self.outcomes.push_back(received);
    }

    pub fn percent(&self) -> (result: Option<u8>)
        requires
            self.wf(),
        ensures
            result == loss_of(self.outcomes@),
    {
        let total: usize = self.outcomes.len();
        if total == 0 {
            return None;
        }
        let mut lost: usize = 0;
        let mut i: usize = 0;
        assert(self.outcomes@.take(0) =~= Seq::empty());
        while i < total
            invariant
                i <= total,
                total == self.outcomes@.len(),
                total <= LOSS_WINDOW,
                lost <= i,
                lost == lost_in(self.outcomes@.take(i as int)),
            decreases total - i,
        {
            assert(self.outcomes@.take(i + 1).drop_last() =~= self.outcomes@.take(i as int));
            if !self.outcomes[i] {
                lost += 1;
            }
            i += 1;
        }
        assert(self.outcomes@.take(total as int) =~= self.outcomes@);
        let share: usize = lost * 100 / total;
        assert(share <= 100) by (nonlinear_arith)
            requires
                lost <= total,
                total > 0,
                share == lost * 100 / (total as int),
        ;
        Some(share as u8)
    }
}

/// The outcomes that are kept of a run of probes.
pub open spec fn kept_outcomes(run: Seq<bool>) -> Seq<bool>
    decreases run.len(),
{
    if run.len() == 0 {
        Seq::empty()
    } else {
        recorded(kept_outcomes(run.drop_last()), run.last())
    }
}

/// The loss is taken over the last twenty probes that were sent, or over all
/// of them while there are fewer.
pub proof fn law_loss_is_over_the_last_probes(run: Seq<bool>)
    ensures
        kept_outcomes(run) == (if run.len() <= LOSS_WINDOW {
            run
        } else {
            run.skip(run.len() - LOSS_WINDOW)
        }),
    decreases run.len(),
{
    if run.len() > 0 {
        let before = run.drop_last();
        law_loss_is_over_the_last_probes(before);
        assert(before.push(run.last()) =~= run);
        if before.len() > LOSS_WINDOW {
            assert(before.skip(before.len() - LOSS_WINDOW).skip(1).push(run.last()) =~= run.skip(
                run.len() - LOSS_WINDOW,
            ));
        } else if before.len() == LOSS_WINDOW {
            assert(before.skip(1).push(run.last()) =~= run.skip(1));
        }
    } else {
        assert(run =~= Seq::empty());
    }
}

/// A loss is at most all, and is nothing only where nothing was lost.
pub proof fn law_loss_is_a_percentage(outcomes: Seq<bool>)
    requires
        0 < outcomes.len() <= LOSS_WINDOW,
    ensures
        loss_of(outcomes) matches Some(share) && share <= 100 && (share == 0 <==> lost_in(outcomes)
            == 0),
{
    lemma_lost_in(outcomes);
    let lost = lost_in(outcomes);
    let total = outcomes.len() as int;
    assert(0 <= lost * 100 / total <= 100) by (nonlinear_arith)
        requires
            0 <= lost <= total,
            total > 0,
    ;
    if lost > 0 {
        assert(lost * 100 / total >= 1) by (nonlinear_arith)
            requires
                1 <= lost,
                0 < total <= 20,
        ;
    }
}

} // verus!
