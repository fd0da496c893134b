//! Laws that hold of every record processor and every record.

use vstd::prelude::*;

use crate::model::{capped, gap_start, joined, spans_ordered, spliced, spliced_prefix};
use crate::process::{emitted, match_spans, matches_taken, record_output, stand_ins, ProcessorView};
use crate::regex_matcher::regex_spans;
use crate::verbatim::{
    first_occurrence_from, lemma_first_occurrence_from, lemma_spans_from_ordered, lemma_spans_from_unfold,
    occurs_at, repeated, verbatim_spans,
};

verus! {

/// The pattern occurs in `hay`: the regular expression matches somewhere in
/// it, or the verbatim pattern is one of its substrings.
pub open spec fn pattern_occurs(v: ProcessorView, hay: Seq<u8>) -> bool {
    match v.regex {
        Some(p) => regex_spans(p, hay).len() > 0,
        None => exists|i: int| occurs_at(hay, v.pattern, i),
    }
}

/// In ordered spans, every match ends before any later one starts.
proof fn lemma_ordered_apart(hay: Seq<u8>, spans: Seq<(int, int)>, i: int, j: int)
    requires
        spans_ordered(hay, spans),
        0 <= i < j < spans.len(),
    ensures
        spans[i].1 <= spans[j].0,
    decreases j - i,
{
    if i + 1 < j {
        lemma_ordered_apart(hay, spans, i, j - 1);
        assert(spans[j - 1].0 <= spans[j - 1].1);
    }
}

/// The verbatim spans of a record are ordered, and each is an occurrence of
/// the pattern.
proof fn lemma_verbatim_spans(hay: Seq<u8>, pat: Seq<u8>)
    ensures
        spans_ordered(hay, verbatim_spans(hay, pat)),
        forall|i: int|
            0 <= i < verbatim_spans(hay, pat).len() ==> {
                let sp = #[trigger] verbatim_spans(hay, pat)[i];
                &&& sp.1 == sp.0 + pat.len()
                &&& occurs_at(hay, pat, sp.0)
            },
{
    lemma_spans_from_ordered(hay, pat, 0);
}

/// A record without an occurrence of the pattern has no verbatim spans.
proof fn lemma_no_occurrence_no_spans(hay: Seq<u8>, pat: Seq<u8>)
    requires
        !exists|i: int| occurs_at(hay, pat, i),
    ensures
        verbatim_spans(hay, pat).len() == 0,
{
    lemma_first_occurrence_from(hay, pat, 0);
    lemma_spans_from_unfold(hay, pat, 0);
    if first_occurrence_from(hay, pat, 0) is Some {
        assert(occurs_at(hay, pat, first_occurrence_from(hay, pat, 0)->Some_0));
    }
}

/// Replacing each occurrence of a pattern by the pattern itself rebuilds
/// the record up to the end of the last match replaced.
proof fn lemma_self_splice_prefix(hay: Seq<u8>, pat: Seq<u8>, n: nat)
    requires
        n <= verbatim_spans(hay, pat).len(),
    ensures
        spliced_prefix(
            hay,
            verbatim_spans(hay, pat),
            repeated(pat, verbatim_spans(hay, pat).len()),
            n,
        ) == hay.subrange(0, gap_start(verbatim_spans(hay, pat), n as int)),
    decreases n,
{
    let spans = verbatim_spans(hay, pat);
    let reps = repeated(pat, spans.len());
    lemma_verbatim_spans(hay, pat);
    if n > 0 {
        lemma_self_splice_prefix(hay, pat, (n - 1) as nat);
        let sp = spans[n - 1];
        let g = gap_start(spans, n - 1);
        assert(0 <= g <= sp.0) by {
            if n > 1 {
                assert(spans[n - 2].1 <= spans[n - 1].0);
                assert(0 <= spans[n - 2].0 <= spans[n - 2].1);
            }
        }
        assert(reps[n - 1] == hay.subrange(sp.0, sp.1));
        assert(hay.subrange(0, g) + hay.subrange(g, sp.0) + hay.subrange(sp.0, sp.1) =~= hay.subrange(0, sp.1));
    }
}

/// Replace mode leaves a record in which the pattern does not occur
/// unchanged, whichever way the pattern is read.
pub proof fn law_replace_without_match_is_identity(v: ProcessorView, hay: Seq<u8>)
    requires
        !v.extract,
        !pattern_occurs(v, hay),
    ensures
        record_output(v, hay) == hay,
{
    if v.regex is None {
        lemma_no_occurrence_no_spans(hay, v.pattern);
    }
    assert(matches_taken(v, hay) == 0);
    assert(hay.subrange(0, hay.len() as int) =~= hay);
}

/// With a bound of zero, replace mode gives back the record unchanged,
/// followed by the terminator.
pub proof fn law_zero_bound_replace_is_identity(v: ProcessorView, hay: Seq<u8>)
    requires
        !v.extract,
        v.max == 0,
    ensures
        record_output(v, hay) == hay,
        emitted(v, hay) == hay + v.terminator,
{
    assert(hay.subrange(0, hay.len() as int) =~= hay);
}

/// With a bound of zero, extract mode contributes nothing to the output, not
/// even a terminator.
pub proof fn law_zero_bound_extract_is_empty(v: ProcessorView, hay: Seq<u8>)
    requires
        v.extract,
        v.max == 0,
    ensures
        record_output(v, hay).len() == 0,
        emitted(v, hay).len() == 0,
{
}

/// With a bound `m` below the number of matches, replace mode substitutes
/// exactly the first `m` matches and keeps the rest of the record, from the
/// end of the `m`-th match on, as it was; the matches left over all lie in
/// that kept tail.
pub proof fn law_bounded_replace(v: ProcessorView, hay: Seq<u8>)
    requires
        !v.extract,
        v.max < match_spans(v, hay).len(),
    ensures
        matches_taken(v, hay) == v.max,
        record_output(v, hay) == spliced_prefix(hay, match_spans(v, hay), stand_ins(v, hay), v.max)
            + hay.subrange(gap_start(match_spans(v, hay), v.max as int), hay.len() as int),
        spans_ordered(hay, match_spans(v, hay)) ==> forall|j: int|
            v.max <= j < match_spans(v, hay).len() ==> gap_start(match_spans(v, hay), v.max as int)
                <= #[trigger] match_spans(v, hay)[j].0,
        v.regex is None ==> forall|j: int|
            v.max <= j < match_spans(v, hay).len() ==> {
                let sp = #[trigger] match_spans(v, hay)[j];
                &&& gap_start(match_spans(v, hay), v.max as int) <= sp.0
                &&& occurs_at(hay, v.pattern, sp.0)
                &&& sp.1 == sp.0 + v.pattern.len()
            },
{
    let spans = match_spans(v, hay);
    let m = v.max as int;
    if v.regex is None {
        lemma_verbatim_spans(hay, v.pattern);
    }
    if spans_ordered(hay, spans) {
        assert forall|j: int| m <= j < spans.len() implies gap_start(spans, m) <= #[trigger] spans[j].0 by {
            if m > 0 {
                if m - 1 < j {
                    lemma_ordered_apart(hay, spans, m - 1, j);
                }
            } else {
                assert(0 <= spans[j].0);
            }
        }
    }
}

/// Extracting with the pattern as its own template from a record with two
/// occurrences of a non-empty verbatim pattern gives the two matched
/// substrings, with nothing between them, and one terminator.
pub proof fn law_extract_two_matches_verbatim(v: ProcessorView, hay: Seq<u8>)
    requires
        v.extract,
        v.regex is None,
        v.template == v.pattern,
        v.pattern.len() > 0,
        match_spans(v, hay).len() == 2,
        v.max >= 2,
    ensures
        emitted(v, hay) == hay.subrange(match_spans(v, hay)[0].0, match_spans(v, hay)[0].1) + hay.subrange(
            match_spans(v, hay)[1].0,
            match_spans(v, hay)[1].1,
        ) + v.terminator,
{
    let spans = match_spans(v, hay);
    let reps = stand_ins(v, hay);
    lemma_verbatim_spans(hay, v.pattern);
    assert(spans[0] == verbatim_spans(hay, v.pattern)[0]);
    assert(spans[1] == verbatim_spans(hay, v.pattern)[1]);
    assert(hay.subrange(spans[0].0, spans[0].1) == v.pattern);
    assert(hay.subrange(spans[1].0, spans[1].1) == v.pattern);
    assert(matches_taken(v, hay) == 2);
    assert(joined(reps, 2) == joined(reps, 1) + reps[1]);
    assert(joined(reps, 1) == joined(reps, 0) + reps[0]);
    assert(joined(reps, 0) + reps[0] =~= reps[0]);
    assert(record_output(v, hay) == v.pattern + v.pattern);
}

/// Replacing a verbatim pattern by itself leaves every record unchanged,
/// however many times the pattern occurs.
pub proof fn law_self_replacement_round_trip(v: ProcessorView, hay: Seq<u8>)
    requires
        !v.extract,
        v.regex is None,
        v.template == v.pattern,
    ensures
        record_output(v, hay) == hay,
{
    let spans = verbatim_spans(hay, v.pattern);
    let reps = repeated(v.pattern, spans.len());
    let n = capped(v.max, spans.len());
    let g = gap_start(spans, n as int);
    lemma_self_splice_prefix(hay, v.pattern, n);
    assert(0 <= g <= hay.len()) by {
        if n > 0 {
            lemma_verbatim_spans(hay, v.pattern);
            assert(0 <= spans[n - 1].0 <= spans[n - 1].1 <= hay.len());
        }
    }
    assert(spliced(hay, spans, reps, n) == hay.subrange(0, g) + hay.subrange(g, hay.len() as int));
    assert(hay.subrange(0, g) + hay.subrange(g, hay.len() as int) =~= hay);
}

} // verus!
