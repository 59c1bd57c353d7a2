//! The stop-sequence filter: generated text streams through it token by token,
//! and it lets through everything up to the first occurrence of the stop tag.
//!
//! A token may end in the middle of what could become the stop tag. The filter
//! withholds exactly that much, the longest end of the text that is a beginning
//! of the tag, until later tokens decide whether the tag follows.

use vstd::prelude::*;
use crate::text::{chars_of, find_first, longest_overlap};
use crate::text::{contains, find, is_overlap, occurs_at, overlap};
use crate::text::{
    lemma_find_is_first, lemma_first_is_found, lemma_longest_is_overlap, lemma_overlap_is_longest,
};

verus! {

/// What a filter for `stop` has let through once it was fed `text`: the text up
/// to the first occurrence of the tag, or, while there is none, the text
/// without its longest end that could still grow into one.
pub open spec fn released(text: Seq<char>, stop: Seq<char>) -> Seq<char> {
    match find(text, stop) {
        Some(p) => text.take(p),
        None => text.take(text.len() - overlap(text, stop)),
    }
}

/// What a filter for `stop` holds back once it was fed `text`.
pub open spec fn withheld(text: Seq<char>, stop: Seq<char>) -> Seq<char> {
    match find(text, stop) {
        Some(_) => Seq::empty(),
        None => text.skip(text.len() - overlap(text, stop)),
    }
}

/// `text` cut off where the stop tag first begins; all of it where the tag does
/// not occur.
pub open spec fn truncated(text: Seq<char>, stop: Seq<char>) -> Seq<char> {
    match find(text, stop) {
        Some(p) => text.take(p),
        None => text,
    }
}

/// The tokens of a stream, joined.
pub open spec fn concat(tokens: Seq<Seq<char>>) -> Seq<char>
    decreases tokens.len(),
{
    if tokens.len() == 0 {
        Seq::empty()
    } else {
        concat(tokens.drop_last()) + tokens.last()
    }
}

/// The empty tag occurs at the start of every text.
pub proof fn lemma_empty_stop_found(text: Seq<char>, stop: Seq<char>)
    requires
        stop.len() == 0,
    ensures
        find(text, stop) == Some(0int),
{
    assert(occurs_at(text, stop, 0));
}

/// What is let through and what is held back make up the truncated text.
pub proof fn lemma_released_and_withheld(text: Seq<char>, stop: Seq<char>)
    ensures
        released(text, stop) + withheld(text, stop) == truncated(text, stop),
{
    lemma_overlap_is_longest(text, stop);
    lemma_find_is_first(text, stop);
}

/// What is held back is a beginning of the stop tag, and not all of it.
pub proof fn lemma_withheld_is_prefix(text: Seq<char>, stop: Seq<char>)
    ensures
        withheld(text, stop).len() <= stop.len(),
        stop.len() > 0 ==> withheld(text, stop).len() < stop.len(),
        withheld(text, stop) == stop.take(withheld(text, stop).len() as int),
        find(text, stop) is None ==> withheld(text, stop).len() == overlap(text, stop),
{
    lemma_overlap_is_longest(text, stop);
}

/// An occurrence in a text is an occurrence in every text that continues it.
pub proof fn lemma_found_stays_first(text: Seq<char>, more: Seq<char>, stop: Seq<char>)
    requires
        find(text, stop) is Some,
    ensures
        find(text + more, stop) == find(text, stop),
{
    let p = find(text, stop)->0;
    let whole = text + more;
    lemma_find_is_first(text, stop);
    assert(whole.subrange(p, p + stop.len()) =~= text.subrange(p, p + stop.len()));
    assert forall|j: int| 0 <= j < p implies !occurs_at(whole, stop, j) by {
        if occurs_at(whole, stop, j) {
            assert(whole.subrange(j, j + stop.len()) =~= text.subrange(j, j + stop.len()));
            assert(occurs_at(text, stop, j));
        }
    }
    lemma_first_is_found(whole, stop, p);
}

/// No occurrence of the tag begins in what a running filter has let through,
/// whatever follows.
proof fn lemma_released_is_settled(text: Seq<char>, stop: Seq<char>, more: Seq<char>, i: int)
    requires
        find(text, stop) is None,
        0 <= i < released(text, stop).len(),
        i + stop.len() <= text.len() + more.len(),
    ensures
        !((text + more).subrange(i, i + stop.len()) =~= stop),
{
    let whole = text + more;
    let rest = text.len() - i;
    lemma_overlap_is_longest(text, stop);
    lemma_find_is_first(text, stop);
    if whole.subrange(i, i + stop.len()) =~= stop {
        if rest >= stop.len() {
            assert(text.subrange(i, i + stop.len()) =~= whole.subrange(i, i + stop.len()));
            assert(occurs_at(text, stop, i));
        } else {
            assert forall|m: int| 0 <= m < rest implies text.skip(i)[m] == stop.take(rest)[m] by {
                assert(whole.subrange(i, i + stop.len())[m] == stop[m]);
            }
            assert(text.skip(text.len() - rest) =~= stop.take(rest));
            assert(is_overlap(text, stop, rest));
        }
    }
}

/// No end of the continued text that reaches back into what was let through
/// is a beginning of the tag.
proof fn lemma_released_no_overlap(text: Seq<char>, stop: Seq<char>, more: Seq<char>, k: int)
    requires
        find(text, stop) is None,
        withheld(text, stop).len() + more.len() < k < stop.len(),
    ensures
        !is_overlap(text + more, stop, k),
{
    let whole = text + more;
    lemma_overlap_is_longest(text, stop);
    if is_overlap(whole, stop, k) {
        let i = whole.len() - k;
        let rest = text.len() - i;
        assert forall|m: int| 0 <= m < rest implies text.skip(i)[m] == stop.take(rest)[m] by {
            assert(whole.skip(i)[m] == stop.take(k)[m]);
        }
        assert(text.skip(text.len() - rest) =~= stop.take(rest));
        assert(is_overlap(text, stop, rest));
    }
}

/// One more token: what a running filter lets through and holds back after it
/// is decided by what it held back before and the token alone.
pub proof fn lemma_released_step(text: Seq<char>, stop: Seq<char>, token: Seq<char>)
    requires
        find(text, stop) is None,
    ensures
        released(text + token, stop) == released(text, stop) + released(
            withheld(text, stop) + token,
            stop,
        ),
        withheld(text + token, stop) == withheld(withheld(text, stop) + token, stop),
        find(text + token, stop) is Some <==> find(withheld(text, stop) + token, stop) is Some,
{
    let whole = text + token;
    let out = released(text, stop);
    let work = withheld(text, stop) + token;
    let cut = out.len() as int;
    lemma_overlap_is_longest(text, stop);
    if stop.len() == 0 {
        lemma_empty_stop_found(text, stop);
    }
    assert(whole =~= out + work);
    assert forall|i: int| occurs_at(whole, stop, i) implies cut <= i && occurs_at(
        work,
        stop,
        i - cut,
    ) by {
        if i < cut {
            lemma_released_is_settled(text, stop, token, i);
        }
        assert(work.subrange(i - cut, i - cut + stop.len()) =~= whole.subrange(
            i,
            i + stop.len(),
        ));
    }
    assert forall|i: int| occurs_at(work, stop, i) implies occurs_at(whole, stop, i + cut) by {
        assert(work.subrange(i, i + stop.len()) =~= whole.subrange(
            i + cut,
            i + cut + stop.len(),
        ));
    }
    lemma_find_is_first(work, stop);
    lemma_find_is_first(whole, stop);
    match find(work, stop) {
        Some(p) => {
            assert(occurs_at(whole, stop, p + cut));
            assert forall|j: int| 0 <= j < p + cut implies !occurs_at(whole, stop, j) by {
                if occurs_at(whole, stop, j) {
                    assert(occurs_at(work, stop, j - cut));
                }
            }
            lemma_first_is_found(whole, stop, p + cut);
            assert(whole.take(p + cut) =~= out + work.take(p));
        },
        None => {
            if find(whole, stop) is Some {
                assert(occurs_at(work, stop, find(whole, stop)->0 - cut));
            }
            let k = overlap(work, stop);
            lemma_overlap_is_longest(work, stop);
            assert(whole.skip(whole.len() - k) =~= work.skip(work.len() - k));
            assert(is_overlap(whole, stop, k));
            assert forall|j: int| k < j < stop.len() implies !is_overlap(whole, stop, j) by {
                if j <= work.len() {
                    if is_overlap(whole, stop, j) {
                        assert(work.skip(work.len() - j) =~= whole.skip(whole.len() - j));
                        assert(is_overlap(work, stop, j));
                    }
                } else {
                    lemma_released_no_overlap(text, stop, token, j);
                }
            }
            lemma_longest_is_overlap(whole, stop, k);
            assert(whole.take(whole.len() - k) =~= out + work.take(work.len() - k));
        },
    }
}

/// What the generator is told after a token: go on, or stop this turn.
#[derive(Clone, Copy, Debug, PartialEq, Eq, Structural)]
pub enum Feedback {
    Continue,
    Halt,
}

/// What one token brings about: the text to show at once, and what to tell the
/// generator.
#[derive(Debug, PartialEq, Eq)]
pub struct Emission {
    pub text: String,
    pub feedback: Feedback,
}

/// A filter as contracts see it: its stop tag, and the text it was fed while it
/// was running.
pub struct FilterView {
    pub stop: Seq<char>,
    pub seen: Seq<char>,
}

impl FilterView {
    /// The filter for `stop` that was fed nothing yet.
    pub open spec fn fresh(stop: Seq<char>) -> FilterView {
        FilterView { stop, seen: Seq::empty() }
    }

    /// The stop tag has occurred.
    pub open spec fn halted(self) -> bool {
        find(self.seen, self.stop) is Some
    }

    /// All that the filter has let through.
    pub open spec fn emitted(self) -> Seq<char> {
        released(self.seen, self.stop)
    }

    /// What the filter holds back.
    pub open spec fn pending(self) -> Seq<char> {
        withheld(self.seen, self.stop)
    }

    /// The filter after one more token. A halted filter takes no more.
    pub open spec fn push(self, token: Seq<char>) -> FilterView {
        if self.halted() {
            self
        } else {
            FilterView { stop: self.stop, seen: self.seen + token }
        }
    }

    /// The filter after a stream of tokens.
    pub open spec fn push_all(self, tokens: Seq<Seq<char>>) -> FilterView
        decreases tokens.len(),
    {
        if tokens.len() == 0 {
            self
        } else {
            self.push_all(tokens.drop_last()).push(tokens.last())
        }
    }
}

/// How far a filter has come.
struct Progress {
    /// How many characters are held back; they are the first of the stop tag.
    held: usize,
    halted: bool,
    seen: Ghost<Seq<char>>,
}

/// Lets a stream of generated tokens through up to the stop tag.
pub struct StopFilter {
    stop: String,
    marker: Vec<char>,
    progress: Progress,
}

impl View for StopFilter {
    type V = FilterView;

    closed spec fn view(&self) -> FilterView {
        FilterView { stop: self.stop@, seen: self.progress.seen@ }
    }
}

impl StopFilter {
    #[verifier::type_invariant]
    spec fn consistent(self) -> bool {
        &&& self.marker@ == self.stop@
        &&& self.progress.halted == self@.halted()
        &&& self.progress.held == self@.pending().len()
    }

    /// A filter for the stop tag `stop`. With an empty tag it is halted from
    /// the start.
    pub fn new(stop: &str) -> (filter: StopFilter)
        ensures
            filter@ == FilterView::fresh(stop@),
    {
        let marker = chars_of(stop);
        let halted = marker.len() == 0;
        proof {
            let nothing = Seq::<char>::empty();
            lemma_overlap_is_longest(nothing, stop@);
            if stop@.len() == 0 {
                lemma_empty_stop_found(nothing, stop@);
            }
        }
        StopFilter {
            stop: String::from_str(stop),
            marker,
            progress: Progress { held: 0, halted, seen: Ghost(Seq::empty()) },
        }
    }

    /// Whether the stop tag has occurred.
    pub fn is_halted(&self) -> (halted: bool)
        ensures
            halted == self@.halted(),
    {
        proof {
            use_type_invariant(self);
        }
        self.progress.halted
    }

    /// The first `cut` characters of what is held back followed by `token`.
    fn head(&self, token: &str, cut: usize) -> (text: String)
        requires
            cut <= self@.pending().len() + token@.len(),
        ensures
            text@ == (self@.pending() + token@).take(cut as int),
    {
        proof {
            use_type_invariant(self);
            lemma_withheld_is_prefix(self@.seen, self@.stop);
        }
        let held = self.progress.held;
        if cut <= held {
            let text = String::from_str(self.stop.as_str().substring_char(0, cut));
            assert(text@ =~= (self@.pending() + token@).take(cut as int));
            text
        } else {
            let mut text = String::from_str(self.stop.as_str().substring_char(0, held));
            text.append(token.substring_char(0, cut - held));
            assert(text@ =~= (self@.pending() + token@).take(cut as int));
            text
        }
    }

    /// What is held back followed by `token`, as characters.
    fn workspace(&self, token: &str) -> (work: Vec<char>)
        ensures
            work@ == self@.pending() + token@,
    {
        proof {
            use_type_invariant(self);
            lemma_withheld_is_prefix(self@.seen, self@.stop);
        }
        let mut work: Vec<char> = Vec::new();
        let mut i: usize = 0;
        while i < self.progress.held
            invariant
                i <= self.progress.held <= self.marker@.len(),
                work@ == self.marker@.take(i as int),
            decreases self.progress.held - i,
        {
            work.push(self.marker[i]);
            assert(work@ =~= self.marker@.take(i + 1));
            i += 1;
        }
        let mut piece = chars_of(token);
        work.append(&mut piece);
        work
    }

    /// Feeds one token. Returns the text to show for it and whether to go on:
    /// all that is now known to come before the stop tag and was not shown
    /// yet, and `Halt` from the token on that completes the tag. A halted
    /// filter takes no more: it shows nothing and says `Halt` again.
    pub fn push(&mut self, token: &str) -> (out: Emission)
        ensures
            final(self)@ == old(self)@.push(token@),
            old(self)@.emitted() + out.text@ == final(self)@.emitted(),
            out.feedback == if final(self)@.halted() {
                Feedback::Halt
            } else {
                Feedback::Continue
            },
    {
        proof {
            use_type_invariant(&*self);
        }
        if self.progress.halted {
            return Emission { text: String::new(), feedback: Feedback::Halt };
        }
        let ghost before = self@.seen;
        let ghost stop = self@.stop;
        let work = self.workspace(token);
        proof {
            lemma_released_step(before, stop, token@);
            lemma_overlap_is_longest(work@, stop);
        }
        match find_first(work.as_slice(), self.marker.as_slice()) {
            Some(p) => {
                proof {
                    lemma_find_is_first(work@, stop);
                }
                let text = self.head(token, p);
                self.progress = Progress { held: 0, halted: true, seen: Ghost(before + token@) };
                Emission { text, feedback: Feedback::Halt }
            },
            None => {
                let keep = longest_overlap(work.as_slice(), self.marker.as_slice());
                let text = self.head(token, work.len() - keep);
                self.progress = Progress {
                    held: keep,
                    halted: false,
                    seen: Ghost(before + token@),
                };
                Emission { text, feedback: Feedback::Continue }
            },
        }
    }

    /// Ends the stream: hands out what was still held back. After the stop tag
    /// that is nothing.
    pub fn finish(self) -> (rest: String)
        ensures
            rest@ == self@.pending(),
            self@.emitted() + rest@ == truncated(self@.seen, self@.stop),
    {
        proof {
            use_type_invariant(&self);
            lemma_withheld_is_prefix(self@.seen, self@.stop);
            lemma_released_and_withheld(self@.seen, self@.stop);
        }
        String::from_str(self.stop.as_str().substring_char(0, self.progress.held))
    }
}

/// The texts of a list of tokens.
pub open spec fn token_texts(tokens: Seq<String>) -> Seq<Seq<char>> {
    tokens.map_values(|t: String| t@)
}

/// A filter that was fed nothing has let nothing through and holds nothing
/// back.
pub proof fn lemma_fresh_is_silent(stop: Seq<char>)
    ensures
        FilterView::fresh(stop).emitted() == Seq::<char>::empty(),
        FilterView::fresh(stop).pending() == Seq::<char>::empty(),
{
    lemma_overlap_is_longest(Seq::<char>::empty(), stop);
    lemma_find_is_first(Seq::<char>::empty(), stop);
}

/// What a filter has let through only grows, and a halted filter lets nothing
/// more through.
pub proof fn lemma_emitted_grows(before: FilterView, token: Seq<char>)
    ensures
        before.emitted().is_prefix_of(before.push(token).emitted()),
        before.halted() ==> before.push(token).emitted() == before.emitted(),
        before.halted() ==> before.push(token).halted(),
{
    if !before.halted() {
        lemma_released_step(before.seen, before.stop, token);
        let after = before.push(token).emitted();
        assert(after.subrange(0, before.emitted().len() as int) =~= before.emitted());
    }
}

/// The stop tag does not occur in what a filter has let through.
pub proof fn lemma_emitted_lacks_stop(text: Seq<char>, stop: Seq<char>)
    requires
        stop.len() > 0,
    ensures
        !contains(released(text, stop), stop),
{
    let shown = released(text, stop);
    lemma_find_is_first(text, stop);
    lemma_overlap_is_longest(text, stop);
    assert forall|i: int| !occurs_at(shown, stop, i) by {
        if occurs_at(shown, stop, i) {
            assert(text.subrange(i, i + stop.len()) =~= shown.subrange(i, i + stop.len()));
            assert(occurs_at(text, stop, i));
        }
    }
}

/// The text that a filter was fed while it ran is the beginning of the
/// stream's text up to and including the token that completed the stop tag,
/// and the tag first occurs in it where it first occurs in the stream.
pub proof fn lemma_seen_of_stream(stop: Seq<char>, tokens: Seq<Seq<char>>)
    ensures
        FilterView::fresh(stop).push_all(tokens).stop == stop,
        FilterView::fresh(stop).push_all(tokens).seen.is_prefix_of(concat(tokens)),
        find(FilterView::fresh(stop).push_all(tokens).seen, stop) == find(concat(tokens), stop),
        !FilterView::fresh(stop).push_all(tokens).halted() ==> FilterView::fresh(stop).push_all(
            tokens,
        ).seen == concat(tokens),
    decreases tokens.len(),
{
    if tokens.len() > 0 {
        let earlier = tokens.drop_last();
        let before = FilterView::fresh(stop).push_all(earlier);
        lemma_seen_of_stream(stop, earlier);
        if before.halted() {
            lemma_found_stays_first(concat(earlier), tokens.last(), stop);
            assert(before.seen =~= concat(tokens).subrange(0, before.seen.len() as int));
        }
    }
}

/// Stop-sequence truncation. Where the text of a stream contains the stop tag,
/// a filter that was fed the stream, cut into tokens in any way, is halted,
/// holds nothing back, and has let through exactly the text before the tag's
/// first occurrence.
pub proof fn lemma_stream_ends_before_stop(stop: Seq<char>, tokens: Seq<Seq<char>>)
    requires
        contains(concat(tokens), stop),
    ensures
        FilterView::fresh(stop).push_all(tokens).halted(),
        FilterView::fresh(stop).push_all(tokens).pending() == Seq::<char>::empty(),
        find(concat(tokens), stop) is Some,
        FilterView::fresh(stop).push_all(tokens).emitted() == concat(tokens).take(
            find(concat(tokens), stop)->0,
        ),
{
    let run = FilterView::fresh(stop).push_all(tokens);
    let p = find(concat(tokens), stop)->0;
    lemma_find_is_first(concat(tokens), stop);
    lemma_seen_of_stream(stop, tokens);
    lemma_find_is_first(run.seen, stop);
    assert(run.seen.take(p) =~= concat(tokens).take(p));
}

/// Where the text of a stream does not contain the stop tag, the filter is
/// still running, and what it has let through and what it holds back are
/// together the whole text.
pub proof fn lemma_stream_without_stop(stop: Seq<char>, tokens: Seq<Seq<char>>)
    requires
        !contains(concat(tokens), stop),
    ensures
        !FilterView::fresh(stop).push_all(tokens).halted(),
        FilterView::fresh(stop).push_all(tokens).emitted() + FilterView::fresh(stop).push_all(
            tokens,
        ).pending() == concat(tokens),
{
    let run = FilterView::fresh(stop).push_all(tokens);
    lemma_find_is_first(concat(tokens), stop);
    lemma_seen_of_stream(stop, tokens);
    lemma_released_and_withheld(run.seen, stop);
}

/// Runs a whole stream of tokens through a filter for `stop` and returns all
/// that is shown of it: the stream's text up to the first occurrence of the
/// stop tag, or all of it where the tag does not occur.
pub fn filter_tokens(stop: &str, tokens: &Vec<String>) -> (shown: String)
    ensures
        shown@ == truncated(concat(token_texts(tokens@)), stop@),
{
    let ghost texts = token_texts(tokens@);
    let mut filter = StopFilter::new(stop);
    let mut shown = String::new();
    proof {
        lemma_fresh_is_silent(stop@);
    }
    let mut i: usize = 0;
    while i < tokens.len()
        invariant
            i <= tokens.len(),
            texts == token_texts(tokens@),
            filter@ == FilterView::fresh(stop@).push_all(texts.take(i as int)),
            shown@ == filter@.emitted(),
        decreases tokens.len() - i,
    {
        let out = filter.push(tokens[i].as_str());
        shown.append(out.text.as_str());
        proof {
            assert(texts.take(i + 1).drop_last() =~= texts.take(i as int));
            assert(texts.take(i + 1).last() == tokens@[i as int]@);
        }
        i += 1;
    }
    let rest = filter.finish();
    shown.append(rest.as_str());
    proof {
        assert(texts.take(tokens.len() as int) =~= texts);
        lemma_seen_of_stream(stop@, texts);
        lemma_find_is_first(filter@.seen, stop@);
        if find(concat(texts), stop@) is Some {
            let p = find(concat(texts), stop@)->0;
            assert(filter@.seen.take(p) =~= concat(texts).take(p));
        }
    }
    shown
}

} // verus!
