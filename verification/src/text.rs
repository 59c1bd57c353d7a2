//! Searching a text for a marker: where the marker first occurs, and how much
//! of the text's end could still grow into an occurrence.

use vstd::prelude::*;

verus! {

/// `pat` stands in `text` at position `i`.
pub open spec fn occurs_at(text: Seq<char>, pat: Seq<char>, i: int) -> bool {
    &&& 0 <= i
    &&& i + pat.len() <= text.len()
    &&& text.subrange(i, i + pat.len()) =~= pat
}

/// `pat` stands somewhere in `text`.
pub open spec fn contains(text: Seq<char>, pat: Seq<char>) -> bool {
    exists|i: int| occurs_at(text, pat, i)
}

/// The least position at or after `from` at which `pat` stands in `text`.
pub open spec fn find_from(text: Seq<char>, pat: Seq<char>, from: int) -> Option<int>
    decreases text.len() - from,
{
    if from < 0 || from + pat.len() > text.len() {
        None
    } else if occurs_at(text, pat, from) {
        Some(from)
    } else {
        find_from(text, pat, from + 1)
    }
}

/// The position of the first occurrence of `pat` in `text`.
pub open spec fn find(text: Seq<char>, pat: Seq<char>) -> Option<int> {
    find_from(text, pat, 0)
}

/// The last `k` characters of `text` are the first `k` characters of `pat`.
pub open spec fn is_overlap(text: Seq<char>, pat: Seq<char>, k: int) -> bool {
    &&& 0 <= k <= text.len()
    &&& k <= pat.len()
    &&& text.skip(text.len() - k) =~= pat.take(k)
}

/// The greatest overlap of `text` with `pat` that is no longer than `limit`.
pub open spec fn overlap_within(text: Seq<char>, pat: Seq<char>, limit: int) -> int
    decreases limit,
{
    if limit <= 0 {
        0
    } else if is_overlap(text, pat, limit) {
        limit
    } else {
        overlap_within(text, pat, limit - 1)
    }
}

/// The length of the longest end of `text` that is a beginning of `pat` without
/// being all of it.
pub open spec fn overlap(text: Seq<char>, pat: Seq<char>) -> int {
    overlap_within(text, pat, pat.len() - 1)
}

/// What `find_from` returns is the least occurrence from `from` on, and it
/// returns `None` only where there is no such occurrence.
pub proof fn lemma_find_from(text: Seq<char>, pat: Seq<char>, from: int)
    requires
        0 <= from,
    ensures
        match find_from(text, pat, from) {
            Some(p) => {
                &&& from <= p
                &&& occurs_at(text, pat, p)
                &&& forall|j: int| from <= j < p ==> !occurs_at(text, pat, j)
            },
            None => forall|j: int| from <= j ==> !occurs_at(text, pat, j),
        },
    decreases text.len() - from,
{
    if from + pat.len() > text.len() {
    } else if occurs_at(text, pat, from) {
    } else {
        lemma_find_from(text, pat, from + 1);
    }
}

/// `find` returns the first occurrence, and `None` exactly where the text does
/// not contain the marker.
pub proof fn lemma_find_is_first(text: Seq<char>, pat: Seq<char>)
    ensures
        find(text, pat) is Some <==> contains(text, pat),
        find(text, pat) matches Some(p) ==> {
            &&& occurs_at(text, pat, p)
            &&& forall|j: int| j < p ==> !occurs_at(text, pat, j)
        },
{
    lemma_find_from(text, pat, 0);
}

/// A position that holds an occurrence with none before it is what `find`
/// returns.
pub proof fn lemma_first_is_found(text: Seq<char>, pat: Seq<char>, p: int)
    requires
        occurs_at(text, pat, p),
        forall|j: int| 0 <= j < p ==> !occurs_at(text, pat, j),
    ensures
        find(text, pat) == Some(p),
{
    lemma_find_from(text, pat, 0);
}

/// What `overlap_within` returns is an overlap, and no overlap up to `limit`
/// is longer.
pub proof fn lemma_overlap_within(text: Seq<char>, pat: Seq<char>, limit: int)
    ensures
        0 <= overlap_within(text, pat, limit),
        limit >= 0 ==> overlap_within(text, pat, limit) <= limit,
        is_overlap(text, pat, overlap_within(text, pat, limit)),
        forall|k: int|
            overlap_within(text, pat, limit) < k <= limit ==> !is_overlap(text, pat, k),
    decreases limit,
{
    if limit <= 0 {
    } else if is_overlap(text, pat, limit) {
    } else {
        lemma_overlap_within(text, pat, limit - 1);
    }
}

/// `overlap` is the longest overlap that is shorter than the marker.
pub proof fn lemma_overlap_is_longest(text: Seq<char>, pat: Seq<char>)
    ensures
        0 <= overlap(text, pat) <= text.len(),
        pat.len() > 0 ==> overlap(text, pat) < pat.len(),
        is_overlap(text, pat, overlap(text, pat)),
        forall|k: int| overlap(text, pat) < k < pat.len() ==> !is_overlap(text, pat, k),
{
    lemma_overlap_within(text, pat, pat.len() - 1);
}

/// An overlap shorter than the marker with none longer is what `overlap`
/// returns.
pub proof fn lemma_longest_is_overlap(text: Seq<char>, pat: Seq<char>, k: int)
    requires
        is_overlap(text, pat, k),
        k < pat.len(),
        forall|j: int| k < j < pat.len() ==> !is_overlap(text, pat, j),
    ensures
        overlap(text, pat) == k,
{
    lemma_overlap_within(text, pat, pat.len() - 1);
}

/// The characters of `s`, in order.
pub fn chars_of(s: &str) -> (chars: Vec<char>)
    ensures
        chars@ == s@,
{
    let mut chars: Vec<char> = Vec::new();
    for c in it: s.chars()
        invariant
            it.seq() == s@,
            chars@ == it.seq().take(it.index()),
    {
        chars.push(c);
    }
    chars
}

/// Tells whether `pat` stands in `text` at position `i`.
pub fn matches_at(text: &[char], pat: &[char], i: usize) -> (found: bool)
    ensures
        found == occurs_at(text@, pat@, i as int),
{
    if pat.len() > text.len() || i > text.len() - pat.len() {
        return false;
    }
    let mut j: usize = 0;
    while j < pat.len()
        invariant
            j <= pat.len(),
            i + pat.len() <= text.len(),
            forall|m: int| 0 <= m < j ==> text@[i + m] == pat@[m],
        decreases pat.len() - j,
    {
        if text[i + j] != pat[j] {
            assert(text@.subrange(i as int, i + pat.len())[j as int] != pat@[j as int]);
            return false;
        }
        j += 1;
    }
    true
}

/// Finds the first occurrence of `pat` in `text`.
pub fn find_first(text: &[char], pat: &[char]) -> (found: Option<usize>)
    ensures
        match found {
            Some(p) => find(text@, pat@) == Some(p as int),
            None => find(text@, pat@) is None,
        },
{
    if pat.len() > text.len() {
        return None;
    }
    let last: usize = text.len() - pat.len();
    let mut i: usize = 0;
    while i <= last
        invariant
            i <= last + 1,
            last == text.len() - pat.len(),
            find(text@, pat@) == find_from(text@, pat@, i as int),
        decreases last + 1 - i,
    {
        if matches_at(text, pat, i) {
            return Some(i);
        }
        i += 1;
    }
    None
}

/// Measures the longest end of `text` that is a beginning of `pat` without
/// being all of it.
pub fn longest_overlap(text: &[char], pat: &[char]) -> (k: usize)
    ensures
        k == overlap(text@, pat@),
{
    if pat.len() == 0 {
        return 0;
    }
    let mut k: usize = pat.len() - 1;
    while k > 0
        invariant
            k < pat.len(),
            overlap(text@, pat@) == overlap_within(text@, pat@, k as int),
        decreases k,
    {
        if k <= text.len() && ends_with_prefix(text, pat, k) {
            return k;
        }
        k -= 1;
    }
    0
}

/// Tells whether the last `k` characters of `text` are the first `k` of `pat`.
fn ends_with_prefix(text: &[char], pat: &[char], k: usize) -> (yes: bool)
    requires
        k <= text.len(),
        k <= pat.len(),
    ensures
        yes == is_overlap(text@, pat@, k as int),
{
    let start: usize = text.len() - k;
    let mut j: usize = 0;
    while j < k
        invariant
            j <= k,
            k <= pat.len(),
            start + k == text.len(),
            forall|m: int| 0 <= m < j ==> text@[start + m] == pat@[m],
        decreases k - j,
    {
        if text[start + j] != pat[j] {
            assert(text@.skip(start as int)[j as int] != pat@.take(k as int)[j as int]);
            return false;
        }
        j += 1;
    }
    true
}

} // verus!
