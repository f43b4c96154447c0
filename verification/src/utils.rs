//! Finding a byte pattern, parts of which may be wildcards, in a buffer.

use std::ops::Range;
use vstd::prelude::*;
use vstd::slice::slice_subrange;

verus! {

/// Whether position `i` of a pattern lies in one of the wildcard ranges.
pub open spec fn is_wild(ranges: Seq<Range<usize>>, i: int) -> bool {
    exists|k: int| 0 <= k < ranges.len() && (#[trigger] ranges[k]).start <= i < ranges[k].end
}

/// Whether `window` is `needle` at every position outside the wildcard ranges.
pub open spec fn window_matches(
    window: Seq<u8>,
    needle: Seq<u8>,
    ranges: Seq<Range<usize>>,
) -> bool {
    &&& window.len() == needle.len()
    &&& forall|i: int| 0 <= i < needle.len() && !is_wild(ranges, i) ==> window[i] == needle[i]
}

/// Whether `needle` matches `haystack` at offset `at`.
pub open spec fn matches_at(
    haystack: Seq<u8>,
    needle: Seq<u8>,
    ranges: Seq<Range<usize>>,
    at: int,
) -> bool {
    &&& 0 <= at
    &&& at + needle.len() <= haystack.len()
    &&& window_matches(haystack.subrange(at, at + needle.len()), needle, ranges)
}

/// Whether `found` is the answer to the search: the leftmost offset at which
/// `needle` matches, or `None` where it matches nowhere.
pub open spec fn is_first_match(
    haystack: Seq<u8>,
    needle: Seq<u8>,
    ranges: Seq<Range<usize>>,
    found: Option<usize>,
) -> bool {
    match found {
        Some(at) => {
            &&& matches_at(haystack, needle, ranges, at as int)
            &&& forall|j: int| 0 <= j < at ==> !matches_at(haystack, needle, ranges, j)
        },
        None => forall|j: int| !matches_at(haystack, needle, ranges, j),
    }
}

/// The ranges that an optional list of ranges stands for: none where it is absent.
pub open spec fn ranges_of(wild_ranges: Option<&Vec<Range<usize>>>) -> Seq<Range<usize>> {
    match wild_ranges {
        Some(v) => v@,
        None => Seq::empty(),
    }
}

/// Whether position `i` lies in one of `ranges`.
pub fn in_wild_range(ranges: &Vec<Range<usize>>, i: usize) -> (b: bool)
    ensures
        b == is_wild(ranges@, i as int),
{
    let mut k: usize = 0;
    while k < ranges.len()
        invariant
            k <= ranges.len(),
            forall|j: int| 0 <= j < k ==> !((#[trigger] ranges@[j]).start <= i < ranges@[j].end),
        decreases ranges.len() - k,
    {
        if ranges[k].start <= i && i < ranges[k].end {
            return true;
        }
        k += 1;
    }
    false
}

/// Whether `window` equals `needle` wherever `needle` is not wildcarded. A
/// window of another length than the needle does not match.
pub fn matches_with_wildcard(window: &[u8], needle: &[u8], wild_ranges: &Vec<Range<usize>>) -> (b:
    bool)
    ensures
        b == window_matches(window@, needle@, wild_ranges@),
{
    if window.len() != needle.len() {
        return false;
    }
    let mut i: usize = 0;
    while i < needle.len()
        invariant
            i <= needle.len(),
            window@.len() == needle@.len(),
            forall|j: int| 0 <= j < i && !is_wild(wild_ranges@, j) ==> window@[j] == needle@[j],
        decreases needle.len() - i,
    {
        if window[i] != needle[i] && !in_wild_range(wild_ranges, i) {
            return false;
        }
        i += 1;
    }
    true
}

/// Finds the leftmost offset in `haystack` at which `needle` matches, the
/// positions in `wild_ranges` being free. A needle longer than the haystack
/// matches nowhere; an empty needle matches at 0.
pub fn find_subsequence(
    haystack: &[u8],
    needle: &[u8],
    wild_ranges: Option<&Vec<Range<usize>>>,
) -> (found: Option<usize>)
    ensures
        is_first_match(haystack@, needle@, ranges_of(wild_ranges), found),
{
    let empty: Vec<Range<usize>> = Vec::new();
    let ranges: &Vec<Range<usize>> = match wild_ranges {
        Some(v) => v,
        None => &empty,
    };
    let n: usize = needle.len();
    let h: usize = haystack.len();
    if n > h {
        return None;
    }
    let last: usize = h - n;
    let mut at: usize = 0;
    while at <= last
        invariant
            at <= last + 1,
            last == h - n,
            n == needle@.len(),
            h == haystack@.len(),
            ranges@ == ranges_of(wild_ranges),
            forall|j: int| 0 <= j < at ==> !matches_at(haystack@, needle@, ranges@, j),
        decreases last + 1 - at,
    {
        let window = slice_subrange(haystack, at, at + n);
        if matches_with_wildcard(window, needle, ranges) {
            return Some(at);
        }
        at += 1;
    }
    None
}

/// A needle planted in a haystack is found: at the place where it was
/// planted, unless it also matches further left, and then there.
pub proof fn lemma_planted_needle_is_found(
    before: Seq<u8>,
    needle: Seq<u8>,
    after: Seq<u8>,
    ranges: Seq<Range<usize>>,
    found: Option<usize>,
)
    requires
        is_first_match(before + needle + after, needle, ranges, found),
    ensures
        found matches Some(at) && at <= before.len(),
        (forall|j: int|
            0 <= j < before.len() ==> !matches_at(before + needle + after, needle, ranges, j))
            ==> found == Some(before.len() as usize),
{
    let haystack = before + needle + after;
    let at = before.len() as int;
    assert(haystack.subrange(at, at + needle.len()) =~= needle);
    assert(matches_at(haystack, needle, ranges, at));
}

/// Bytes under a wildcard do not matter: a window that agrees with the needle
/// outside the wildcard ranges matches, whatever it holds inside them.
pub proof fn lemma_wildcards_are_free(
    window: Seq<u8>,
    needle: Seq<u8>,
    ranges: Seq<Range<usize>>,
)
    requires
        window.len() == needle.len(),
        forall|i: int| 0 <= i < needle.len() && window[i] != needle[i] ==> is_wild(ranges, i),
    ensures
        window_matches(window, needle, ranges),
{
}

/// Without wildcards, a match is an exact copy of the needle.
pub proof fn lemma_exact_match(haystack: Seq<u8>, needle: Seq<u8>, at: int)
    ensures
        matches_at(haystack, needle, Seq::empty(), at) <==> (0 <= at && at + needle.len()
            <= haystack.len() && haystack.subrange(at, at + needle.len()) == needle),
{
    if 0 <= at && at + needle.len() <= haystack.len() {
        let window = haystack.subrange(at, at + needle.len());
        if window_matches(window, needle, Seq::empty()) {
            assert(window =~= needle);
        }
    }
}

} // verus!
