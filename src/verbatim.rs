//! Verbatim matching: the pattern is a byte string, found by a naive scan.

use vstd::prelude::*;

use crate::model::{capped, gap_start, joined, spans_ordered, spliced, spliced_prefix};

verus! {

/// `pat` occurs in `hay` at offset `i`.
pub open spec fn occurs_at(hay: Seq<u8>, pat: Seq<u8>, i: int) -> bool {
    0 <= i && i + pat.len() <= hay.len() && hay.subrange(i, i + pat.len()) == pat
}

/// The leftmost occurrence of `pat` in `hay` at an offset of at least `from`.
pub open spec fn first_occurrence_from(hay: Seq<u8>, pat: Seq<u8>, from: int) -> Option<int>
    decreases hay.len() + 1 - from,
{
    if from < 0 || from + pat.len() > hay.len() {
        None
    } else if occurs_at(hay, pat, from) {
        Some(from)
    } else {
        first_occurrence_from(hay, pat, from + 1)
    }
}

/// The leftmost occurrence of `pat` in `hay`.
pub open spec fn first_occurrence(hay: Seq<u8>, pat: Seq<u8>) -> Option<int> {
    first_occurrence_from(hay, pat, 0)
}

/// `first_occurrence_from` finds an occurrence, and none lies before it.
pub proof fn lemma_first_occurrence_from(hay: Seq<u8>, pat: Seq<u8>, from: int)
    requires
        0 <= from,
    ensures
        match first_occurrence_from(hay, pat, from) {
            Some(i) => from <= i && occurs_at(hay, pat, i) && forall|j: int|
                from <= j < i ==> !occurs_at(hay, pat, j),
            None => forall|j: int| from <= j ==> !occurs_at(hay, pat, j),
        },
    decreases hay.len() + 1 - from,
{
    if from + pat.len() > hay.len() {
    } else if occurs_at(hay, pat, from) {
    } else {
        lemma_first_occurrence_from(hay, pat, from + 1);
    }
}

/// Where the scan resumes after a match of a pattern of `len` bytes that
/// starts at `start`: at the match's end, or one byte further when the match
/// is empty, so that the scan always moves forward.
pub open spec fn resume_after(start: int, len: nat) -> int {
    if len == 0 {
        start + 1
    } else {
        start + len
    }
}

/// The spans of the successive leftmost occurrences of `pat` in `hay` found
/// by a scan that starts at `from`, each search resuming after the last match.
pub open spec fn verbatim_spans_from(hay: Seq<u8>, pat: Seq<u8>, from: int) -> Seq<(int, int)>
    decreases hay.len() + 1 - from,
{
    if from < 0 || from + pat.len() > hay.len() {
        Seq::empty()
    } else if occurs_at(hay, pat, from) {
        seq![(from, from + pat.len())] + verbatim_spans_from(hay, pat, resume_after(from, pat.len()))
    } else {
        verbatim_spans_from(hay, pat, from + 1)
    }
}

/// The leftmost-first, non-overlapping occurrences of `pat` in `hay`.
pub open spec fn verbatim_spans(hay: Seq<u8>, pat: Seq<u8>) -> Seq<(int, int)> {
    verbatim_spans_from(hay, pat, 0)
}

/// The stand-in `t` for each of `k` matches.
pub open spec fn repeated(t: Seq<u8>, k: nat) -> Seq<Seq<u8>> {
    Seq::new(k, |i: int| t)
}

/// A scan from `from` starts with the leftmost occurrence at or after `from`.
pub proof fn lemma_spans_from_unfold(hay: Seq<u8>, pat: Seq<u8>, from: int)
    requires
        0 <= from,
    ensures
        verbatim_spans_from(hay, pat, from) == match first_occurrence_from(hay, pat, from) {
            Some(s) => seq![(s, s + pat.len())] + verbatim_spans_from(hay, pat, resume_after(s, pat.len())),
            None => Seq::<(int, int)>::empty(),
        },
    decreases hay.len() + 1 - from,
{
    if from + pat.len() > hay.len() {
    } else if occurs_at(hay, pat, from) {
    } else {
        lemma_spans_from_unfold(hay, pat, from + 1);
    }
}

/// The spans of a scan from `from` are ordered occurrences of the pattern,
/// none of them before `from`.
pub proof fn lemma_spans_from_ordered(hay: Seq<u8>, pat: Seq<u8>, from: int)
    requires
        0 <= from,
    ensures
        spans_ordered(hay, verbatim_spans_from(hay, pat, from)),
        forall|i: int|
            0 <= i < verbatim_spans_from(hay, pat, from).len() ==> {
                let sp = #[trigger] verbatim_spans_from(hay, pat, from)[i];
                &&& from <= sp.0
                &&& sp.1 == sp.0 + pat.len()
                &&& occurs_at(hay, pat, sp.0)
            },
    decreases hay.len() + 1 - from,
{
    if from + pat.len() > hay.len() {
    } else if occurs_at(hay, pat, from) {
        let next = resume_after(from, pat.len());
        lemma_spans_from_ordered(hay, pat, next);
        let rest = verbatim_spans_from(hay, pat, next);
        let all = seq![(from, from + pat.len())] + rest;
        assert(all == verbatim_spans_from(hay, pat, from));
        assert forall|i: int| 0 < i < all.len() implies all[i - 1].1 <= #[trigger] all[i].0 by {
            assert(all[i] == rest[i - 1]);
            if i > 1 {
                assert(all[i - 1] == rest[i - 2]);
            }
        }
        assert forall|i: int| 0 <= i < all.len() implies {
            let sp = #[trigger] all[i];
            &&& from <= sp.0
            &&& sp.1 == sp.0 + pat.len()
            &&& occurs_at(hay, pat, sp.0)
        } by {
            if i > 0 {
                assert(all[i] == rest[i - 1]);
            }
        }
    } else {
        lemma_spans_from_ordered(hay, pat, from + 1);
    }
}

/// Compares `needle` with the bytes of `haystack` that start at `at`.
fn matches_at(haystack: &[u8], needle: &[u8], at: usize) -> (r: bool)
    requires
        at + needle@.len() <= haystack@.len(),
    ensures
        r == occurs_at(haystack@, needle@, at as int),
{
    let n: usize = haystack.len();
    let mut k: usize = 0;
    while k < needle.len()
        invariant
            n == haystack@.len(),
            at + needle@.len() <= haystack@.len(),
            k <= needle@.len(),
            forall|j: int| 0 <= j < k ==> haystack@[at + j] == needle@[j],
        decreases needle@.len() - k,
    {
        if haystack[at + k] != needle[k] {
            assert(haystack@.subrange(at as int, at + needle@.len())[k as int] != needle@[k as int]);
            return false;
        }
        k = k + 1;
    }
    assert(haystack@.subrange(at as int, at + needle@.len()) =~= needle@);
    true
}

/// The leftmost occurrence of `needle` in `haystack` at an offset of at least
/// `from`.
pub fn find_from(haystack: &[u8], needle: &[u8], from: usize) -> (r: Option<usize>)
    ensures
        r matches Some(i) ==> first_occurrence_from(haystack@, needle@, from as int) == Some(i as int),
        r is None ==> first_occurrence_from(haystack@, needle@, from as int) is None,
{
    if needle.len() > haystack.len() || from > haystack.len() - needle.len() {
        return None;
    }
    let last = haystack.len() - needle.len();
    let mut at = from;
    while at <= last
        invariant
            last == haystack@.len() - needle@.len(),
            from <= at,
            at <= last + 1,
            first_occurrence_from(haystack@, needle@, from as int) == first_occurrence_from(
                haystack@,
                needle@,
                at as int,
            ),
        decreases last + 1 - at,
    {
        if matches_at(haystack, needle, at) {
            return Some(at);
        }
        if at == last {
            return None;
        }
        at = at + 1;
    }
    None
}

/// The leftmost offset at which `needle` occurs in `haystack`, or `None`.
pub fn find_subslice(haystack: &[u8], needle: &[u8]) -> (r: Option<usize>)
    ensures
        r matches Some(i) ==> first_occurrence(haystack@, needle@) == Some(i as int),
        r is None ==> first_occurrence(haystack@, needle@) is None,
        match r {
            Some(i) => occurs_at(haystack@, needle@, i as int) && forall|j: int|
                0 <= j < i ==> !occurs_at(haystack@, needle@, j),
            None => forall|j: int| !occurs_at(haystack@, needle@, j),
        },
{
    proof {
        lemma_first_occurrence_from(haystack@, needle@, 0);
    }
    find_from(haystack, needle, 0)
}

/// `record` with each of the first `n_rep` leftmost-first, non-overlapping
/// occurrences of `patt` replaced by `repl`; every other byte is kept.
pub fn static_replace(record: &[u8], patt: &[u8], repl: &[u8], n_rep: usize) -> (r: Vec<u8>)
    ensures
        r@ == spliced(
            record@,
            verbatim_spans(record@, patt@),
            repeated(repl@, verbatim_spans(record@, patt@).len()),
            capped(n_rep as nat, verbatim_spans(record@, patt@).len()),
        ),
{
    let ghost spans = verbatim_spans(record@, patt@);
    let ghost reps = repeated(repl@, spans.len());
    let len: usize = record.len();
    let mut out: Vec<u8> = Vec::new();
    let mut pos: usize = 0;
    let mut last: usize = 0;
    let mut n: usize = 0;
    let mut done = false;
    proof {
        lemma_spans_from_ordered(record@, patt@, 0);
        assert(spans.subrange(0, spans.len() as int) == spans);
    }
    while n < n_rep && !done
        invariant
            len == record@.len(),
            spans == verbatim_spans(record@, patt@),
            reps == repeated(repl@, spans.len()),
            spans_ordered(record@, spans),
            n <= spans.len(),
            n <= n_rep,
            last == gap_start(spans, n as int),
            last <= len,
            pos <= len,
            out@ == spliced_prefix(record@, spans, reps, n as nat),
            done ==> n == spans.len(),
            !done ==> spans.subrange(n as int, spans.len() as int) == verbatim_spans_from(record@, patt@, pos as int),
            !done ==> last <= pos,
        decreases spans.len() - n + (if done { 0int } else { 1int }),
    {
        proof {
            lemma_spans_from_unfold(record@, patt@, pos as int);
            lemma_first_occurrence_from(record@, patt@, pos as int);
        }
        match find_from(record, patt, pos) {
            None => {
                done = true;
            },
            Some(s) => {
                let ghost rest = spans.subrange(n as int, spans.len() as int);
                assert(rest == seq![(s as int, s + patt@.len())] + verbatim_spans_from(
                    record@,
                    patt@,
                    resume_after(s as int, patt@.len()),
                ));
                assert(rest[0] == (s as int, s + patt@.len()));
                assert(rest[0] == spans[n as int]);
                assert(spans.subrange(n + 1, spans.len() as int) == rest.subrange(1, rest.len() as int));
                out.extend_from_slice(&record[last..s]);
                out.extend_from_slice(repl);
                proof {
                    assert(reps[n as int] == repl@);
                    assert(spans[n as int].0 == s);
                }
                last = s + patt.len();
                n = n + 1;
                if patt.len() == 0 {
                    if s == len {
                        done = true;
                        assert(spans.subrange(n as int, spans.len() as int).len() == 0);
                    } else {
                        pos = s + 1;
                    }
                } else {
                    pos = last;
                }
            },
        }
    }
    out.extend_from_slice(&record[last..len]);
    out
}

/// The stand-in `repl` once for each of the first `n_rep` leftmost-first,
/// non-overlapping occurrences of `patt` in `record`; nothing else.
pub fn static_extract(record: &[u8], patt: &[u8], repl: &[u8], n_rep: usize) -> (r: Vec<u8>)
    ensures
        r@ == joined(
            repeated(repl@, verbatim_spans(record@, patt@).len()),
            capped(n_rep as nat, verbatim_spans(record@, patt@).len()),
        ),
{
    let ghost spans = verbatim_spans(record@, patt@);
    let ghost reps = repeated(repl@, spans.len());
    let len: usize = record.len();
    let mut out: Vec<u8> = Vec::new();
    let mut pos: usize = 0;
    let mut n: usize = 0;
    let mut done = false;
    proof {
        lemma_spans_from_ordered(record@, patt@, 0);
        assert(spans.subrange(0, spans.len() as int) == spans);
    }
    while n < n_rep && !done
        invariant
            len == record@.len(),
            spans == verbatim_spans(record@, patt@),
            reps == repeated(repl@, spans.len()),
            n <= spans.len(),
            n <= n_rep,
            pos <= len,
            out@ == joined(reps, n as nat),
            done ==> n == spans.len(),
            !done ==> spans.subrange(n as int, spans.len() as int) == verbatim_spans_from(record@, patt@, pos as int),
        decreases spans.len() - n + (if done { 0int } else { 1int }),
    {
        proof {
            lemma_spans_from_unfold(record@, patt@, pos as int);
            lemma_first_occurrence_from(record@, patt@, pos as int);
        }
        match find_from(record, patt, pos) {
            None => {
                done = true;
            },
            Some(s) => {
                let ghost rest = spans.subrange(n as int, spans.len() as int);
                assert(rest == seq![(s as int, s + patt@.len())] + verbatim_spans_from(
                    record@,
                    patt@,
                    resume_after(s as int, patt@.len()),
                ));
                assert(rest[0] == (s as int, s + patt@.len()));
                assert(rest[0] == spans[n as int]);
                assert(spans.subrange(n + 1, spans.len() as int) == rest.subrange(1, rest.len() as int));
                out.extend_from_slice(repl);
                proof {
                    assert(reps[n as int] == repl@);
                }
                n = n + 1;
                if patt.len() == 0 {
                    if s == len {
                        done = true;
                        assert(spans.subrange(n as int, spans.len() as int).len() == 0);
                    } else {
                        pos = s + 1;
                    }
                } else {
                    pos = s + patt.len();
                }
            },
        }
    }
    out
}

} // verus!
