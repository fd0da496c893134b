//! The mathematical model shared by both pattern dialects: a record, the
//! spans where the pattern matched in it, and the bytes that stand in for
//! each match.

use vstd::prelude::*;

verus! {

/// The spans lie inside the haystack, in order, and do not overlap.
pub open spec fn spans_ordered(hay: Seq<u8>, spans: Seq<(int, int)>) -> bool {
    &&& forall|i: int| 0 <= i < spans.len() ==> 0 <= #[trigger] spans[i].0 <= spans[i].1 <= hay.len()
    &&& forall|i: int| 0 < i < spans.len() ==> spans[i - 1].1 <= #[trigger] spans[i].0
}

/// Where the unmatched bytes before match `i` begin: the end of match `i - 1`,
/// or the start of the haystack.
pub open spec fn gap_start(spans: Seq<(int, int)>, i: int) -> int {
    if i <= 0 {
        0
    } else {
        spans[i - 1].1
    }
}

/// The haystack up to the end of match `n - 1`, with each of the first `n`
/// matches replaced by its stand-in.
pub open spec fn spliced_prefix(hay: Seq<u8>, spans: Seq<(int, int)>, reps: Seq<Seq<u8>>, n: nat) -> Seq<u8>
    decreases n,
{
    if n == 0 {
        Seq::empty()
    } else {
        spliced_prefix(hay, spans, reps, (n - 1) as nat) + hay.subrange(gap_start(spans, n - 1), spans[n - 1].0)
            + reps[n - 1]
    }
}

/// The haystack with its first `n` matches replaced by their stand-ins and
/// every other byte kept.
pub open spec fn spliced(hay: Seq<u8>, spans: Seq<(int, int)>, reps: Seq<Seq<u8>>, n: nat) -> Seq<u8> {
    spliced_prefix(hay, spans, reps, n) + hay.subrange(gap_start(spans, n as int), hay.len() as int)
}

/// The stand-ins of the first `n` matches, one after the other.
pub open spec fn joined(reps: Seq<Seq<u8>>, n: nat) -> Seq<u8>
    decreases n,
{
    if n == 0 {
        Seq::empty()
    } else {
        joined(reps, (n - 1) as nat) + reps[n - 1]
    }
}

/// The bytes of `hay` that each span covers.
pub open spec fn matched_texts(hay: Seq<u8>, spans: Seq<(int, int)>) -> Seq<Seq<u8>> {
    Seq::new(spans.len(), |i: int| hay.subrange(spans[i].0, spans[i].1))
}

/// The smaller of a bound and a count.
pub open spec fn capped(max: nat, count: nat) -> nat {
    if max < count {
        max
    } else {
        count
    }
}

} // verus!
