//! Running statistics of a chat session: two durations and two token counts,
//! summed over the turns with saturating addition.

use vstd::prelude::*;
use crate::decimal::{append_decimal, digits_of};

verus! {

/// Nanoseconds in a second.
pub const NANOS_PER_SEC: u32 = 1_000_000_000;

/// The longest span there is, in nanoseconds: `u64::MAX` seconds and
/// 999,999,999 nanoseconds.
pub open spec fn max_span_nanos() -> nat {
    18_446_744_073_709_551_615_999_999_999
}

/// The sum of two spans in nanoseconds, held at the longest span.
pub open spec fn saturating_nanos(a: nat, b: nat) -> nat {
    if a + b > max_span_nanos() {
        max_span_nanos()
    } else {
        a + b
    }
}

/// The sum of two counts, held at the largest count.
pub open spec fn saturating_count(a: nat, b: nat) -> nat {
    if a + b > usize::MAX {
        usize::MAX as nat
    } else {
        a + b
    }
}

/// A span of time: whole seconds and the nanoseconds of a second begun. Its
/// view is the span in nanoseconds.
#[derive(Clone, Copy, Debug, PartialEq, Eq)]
pub struct Span {
    secs: u64,
    nanos: u32,
}

impl View for Span {
    type V = nat;

    closed spec fn view(&self) -> nat {
        (self.secs * 1_000_000_000 + self.nanos) as nat
    }
}

impl Span {
    #[verifier::type_invariant]
    spec fn in_range(self) -> bool {
        self.nanos < 1_000_000_000
    }

    /// The empty span.
    pub fn zero() -> (span: Span)
        ensures
            span@ == 0,
    {
        Span { secs: 0, nanos: 0 }
    }

    /// The longest span.
    pub fn longest() -> (span: Span)
        ensures
            span@ == max_span_nanos(),
    {
        Span { secs: u64::MAX, nanos: NANOS_PER_SEC - 1 }
    }

    /// The span of `secs` seconds and `nanos` nanoseconds. A billion
    /// nanoseconds or more carry over into the seconds; what would exceed the
    /// longest span is the longest span.
    pub fn new(secs: u64, nanos: u32) -> (span: Span)
        ensures
            span@ == saturating_nanos(secs as nat * 1_000_000_000, nanos as nat),
    {
        let carry: u64 = (nanos / NANOS_PER_SEC) as u64;
        let rest: u32 = nanos % NANOS_PER_SEC;
        match secs.checked_add(carry) {
            Some(total) => Span { secs: total, nanos: rest },
            None => Span::longest(),
        }
    }

    /// The span of `millis` milliseconds.
    pub fn from_millis(millis: u64) -> (span: Span)
        ensures
            span@ == millis as nat * 1_000_000,
    {
        let rest: u32 = ((millis % 1000) as u32) * 1_000_000;
        Span { secs: millis / 1000, nanos: rest }
    }

    /// The whole seconds of the span.
    pub fn secs(&self) -> (secs: u64)
        ensures
            secs == self@ / 1_000_000_000,
    {
        proof {
            use_type_invariant(self);
        }
        self.secs
    }

    /// The nanoseconds past the last whole second.
    pub fn subsec_nanos(&self) -> (nanos: u32)
        ensures
            nanos == self@ % 1_000_000_000,
    {
        proof {
            use_type_invariant(self);
        }
        self.nanos
    }

    /// The whole milliseconds of the span.
    pub fn as_millis(&self) -> (millis: u128)
        ensures
            millis == self@ / 1_000_000,
    {
        proof {
            use_type_invariant(self);
        }
        self.secs as u128 * 1000 + (self.nanos / 1_000_000) as u128
    }

    /// The sum of two spans, held at the longest span.
    pub fn saturating_add(self, other: Span) -> (sum: Span)
        ensures
            sum@ == saturating_nanos(self@, other@),
            self@ <= sum@ <= max_span_nanos(),
    {
        proof {
            use_type_invariant(&self);
            use_type_invariant(&other);
        }
        let nanos: u32 = self.nanos + other.nanos;
        let carry: u64 = if nanos >= NANOS_PER_SEC {
            1
        } else {
            0
        };
        let rest: u32 = if nanos >= NANOS_PER_SEC {
            nanos - NANOS_PER_SEC
        } else {
            nanos
        };
        match self.secs.checked_add(other.secs) {
            Some(secs) => match secs.checked_add(carry) {
                Some(total) => Span { secs: total, nanos: rest },
                None => Span::longest(),
            },
            None => Span::longest(),
        }
    }
}

/// The four counters as contracts see them: durations in nanoseconds, counts
/// of tokens.
pub struct StatsView {
    pub feed_prompt_nanos: nat,
    pub prompt_tokens: nat,
    pub predict_nanos: nat,
    pub predict_tokens: nat,
}

impl StatsView {
    /// All four counters at zero.
    pub open spec fn zero() -> StatsView {
        StatsView { feed_prompt_nanos: 0, prompt_tokens: 0, predict_nanos: 0, predict_tokens: 0 }
    }

    /// No counter is beyond what it can hold.
    pub open spec fn within_limits(self) -> bool {
        &&& self.feed_prompt_nanos <= max_span_nanos()
        &&& self.prompt_tokens <= usize::MAX
        &&& self.predict_nanos <= max_span_nanos()
        &&& self.predict_tokens <= usize::MAX
    }

    /// No counter of `self` is greater than the same counter of `other`.
    pub open spec fn at_most(self, other: StatsView) -> bool {
        &&& self.feed_prompt_nanos <= other.feed_prompt_nanos
        &&& self.prompt_tokens <= other.prompt_tokens
        &&& self.predict_nanos <= other.predict_nanos
        &&& self.predict_tokens <= other.predict_tokens
    }

    /// The counters after a turn: each is the saturating sum of what it was
    /// and what the turn brought.
    pub open spec fn absorb(self, turn: StatsView) -> StatsView {
        StatsView {
            feed_prompt_nanos: saturating_nanos(self.feed_prompt_nanos, turn.feed_prompt_nanos),
            prompt_tokens: saturating_count(self.prompt_tokens, turn.prompt_tokens),
            predict_nanos: saturating_nanos(self.predict_nanos, turn.predict_nanos),
            predict_tokens: saturating_count(self.predict_tokens, turn.predict_tokens),
        }
    }

    /// The counters after a sequence of turns.
    pub open spec fn absorb_all(self, turns: Seq<StatsView>) -> StatsView
        decreases turns.len(),
    {
        if turns.len() == 0 {
            self
        } else {
            self.absorb_all(turns.drop_last()).absorb(turns.last())
        }
    }

    /// The report on the counters: a line for each, the durations in whole
    /// milliseconds.
    pub open spec fn report(self) -> Seq<char> {
        "feed_prompt_duration: "@ + digits_of(self.feed_prompt_nanos / 1_000_000)
            + "ms\nprompt_tokens: "@ + digits_of(self.prompt_tokens) + "\npredict_duration: "@
            + digits_of(self.predict_nanos / 1_000_000) + "ms\npredict_tokens: "@ + digits_of(
            self.predict_tokens,
        )
    }
}

/// No counter decreases in a turn, and a sum beyond what a counter can hold
/// leaves the counter at its limit.
pub proof fn lemma_turn_never_decreases(before: StatsView, turn: StatsView)
    requires
        before.within_limits(),
    ensures
        before.at_most(before.absorb(turn)),
        before.absorb(turn).within_limits(),
        before.feed_prompt_nanos + turn.feed_prompt_nanos > max_span_nanos() ==> before.absorb(
            turn,
        ).feed_prompt_nanos == max_span_nanos(),
        before.prompt_tokens + turn.prompt_tokens > usize::MAX ==> before.absorb(
            turn,
        ).prompt_tokens == usize::MAX,
        before.predict_nanos + turn.predict_nanos > max_span_nanos() ==> before.absorb(
            turn,
        ).predict_nanos == max_span_nanos(),
        before.predict_tokens + turn.predict_tokens > usize::MAX ==> before.absorb(
            turn,
        ).predict_tokens == usize::MAX,
{
}

/// Over any sequence of turns the counters after fewer turns are at most the
/// counters after more of them.
pub proof fn lemma_turns_never_decrease(start: StatsView, turns: Seq<StatsView>, i: int, j: int)
    requires
        start.within_limits(),
        0 <= i <= j <= turns.len(),
    ensures
        start.absorb_all(turns.take(i)).within_limits(),
        start.absorb_all(turns.take(i)).at_most(start.absorb_all(turns.take(j))),
    decreases j - i,
{
    lemma_absorb_all_within_limits(start, turns.take(i));
    if i < j {
        lemma_turns_never_decrease(start, turns, i, j - 1);
        lemma_absorb_all_within_limits(start, turns.take(j - 1));
        assert(turns.take(j).drop_last() =~= turns.take(j - 1));
    }
}

/// Counters within their limits stay within them.
pub proof fn lemma_absorb_all_within_limits(start: StatsView, turns: Seq<StatsView>)
    requires
        start.within_limits(),
    ensures
        start.absorb_all(turns).within_limits(),
    decreases turns.len(),
{
    if turns.len() > 0 {
        lemma_absorb_all_within_limits(start, turns.drop_last());
    }
}

/// The running statistics of a session.
#[derive(Clone, Copy, Debug, PartialEq, Eq)]
pub struct InferenceStats {
    /// How long feeding prompts took.
    pub feed_prompt_duration: Span,
    /// How many tokens the prompts had.
    pub prompt_tokens: usize,
    /// How long predicting took.
    pub predict_duration: Span,
    /// How many tokens were predicted.
    pub predict_tokens: usize,
}

impl View for InferenceStats {
    type V = StatsView;

    open spec fn view(&self) -> StatsView {
        StatsView {
            feed_prompt_nanos: self.feed_prompt_duration@,
            prompt_tokens: self.prompt_tokens as nat,
            predict_nanos: self.predict_duration@,
            predict_tokens: self.predict_tokens as nat,
        }
    }
}

impl Default for InferenceStats {
    fn default() -> (stats: InferenceStats)
        ensures
            stats@ == StatsView::zero(),
    {
        InferenceStats::new()
    }
}

impl InferenceStats {
    /// Statistics with all four counters at zero.
    pub fn new() -> (stats: InferenceStats)
        ensures
            stats@ == StatsView::zero(),
    {
        InferenceStats {
            feed_prompt_duration: Span::zero(),
            prompt_tokens: 0,
            predict_duration: Span::zero(),
            predict_tokens: 0,
        }
    }

    /// Adds the statistics of one turn, each counter by saturating addition.
    /// No counter decreases.
    pub fn absorb(&mut self, turn: &InferenceStats)
        ensures
            final(self)@ == old(self)@.absorb(turn@),
            old(self)@.at_most(final(self)@),
            final(self)@.within_limits(),
    {
        self.feed_prompt_duration = self.feed_prompt_duration.saturating_add(
            turn.feed_prompt_duration,
        );
        self.prompt_tokens = self.prompt_tokens.saturating_add(turn.prompt_tokens);
        self.predict_duration = self.predict_duration.saturating_add(turn.predict_duration);
        self.predict_tokens = self.predict_tokens.saturating_add(turn.predict_tokens);
    }

    /// The report on the statistics: a line for each counter, the durations in
    /// whole milliseconds.
    pub fn report(&self) -> (text: String)
        ensures
            text@ == self@.report(),
    {
        let mut text = String::from_str("feed_prompt_duration: ");
        append_decimal(&mut text, self.feed_prompt_duration.as_millis());
        text.append("ms\nprompt_tokens: ");
        append_decimal(&mut text, self.prompt_tokens as u128);
        text.append("\npredict_duration: ");
        append_decimal(&mut text, self.predict_duration.as_millis());
        text.append("ms\npredict_tokens: ");
        append_decimal(&mut text, self.predict_tokens as u128);
        text
    }
}

} // verus!
