//! Regular-expression matching, through the `regex` crate.
//!
//! What the crate computes (which spans match, what a template expands to)
//! is named by spec functions without a body; the wrappers below state what
//! its documentation promises of them, and the record functions of this
//! module are proved from those statements.

use vstd::prelude::*;

use regex::bytes::Regex;

use crate::model::{capped, joined, matched_texts, spliced};

verus! {

#[verifier::external_type_specification]
#[verifier::external_body]
pub struct ExRegex(regex::bytes::Regex);

#[verifier::external_type_specification]
#[verifier::external_body]
pub struct ExRegexError(regex::Error);

/// Whether `regex::bytes::Regex::new` accepts a pattern.
pub uninterp spec fn regex_compiles(pattern: Seq<char>) -> bool;

/// The spans of the successive leftmost-first, non-overlapping matches that
/// `regex::bytes::Regex::captures_iter` reports for a pattern in a haystack.
pub uninterp spec fn regex_spans(pattern: Seq<char>, hay: Seq<u8>) -> Seq<(int, int)>;

/// For each match in `regex_spans(pattern, hay)`, the bytes that
/// `regex::bytes::Captures::expand` writes for `template` against it.
pub uninterp spec fn regex_expansions(pattern: Seq<char>, hay: Seq<u8>, template: Seq<u8>) -> Seq<Seq<u8>>;

/// The template `$0`, which stands for the whole match.
pub open spec fn whole_match_template() -> Seq<u8> {
    seq![36u8, 48u8]
}

/// Relies on `regex::bytes::Regex::new`: whether a pattern compiles depends
/// on the pattern alone.
#[verifier::external_body]
fn compile_regex(pattern: &str) -> (r: Result<Regex, regex::Error>)
    ensures
        r is Ok <==> regex_compiles(pattern@),
{
    Regex::new(pattern)
}

/// A compiled regular expression, together with the pattern it was compiled
/// from. Only `RegexMatcher::new` builds one, so the two always agree.
pub struct RegexMatcher {
    re: Regex,
    pattern: String,
}

impl View for RegexMatcher {
    type V = Seq<char>;

    /// The pattern that the expression was compiled from.
    closed spec fn view(&self) -> Seq<char> {
        self.pattern@
    }
}

impl RegexMatcher {
    /// Compiles `pattern`; fails with the crate's error exactly when the
    /// pattern does not compile.
    pub fn new(pattern: &str) -> (r: Result<RegexMatcher, regex::Error>)
        ensures
            r is Ok <==> regex_compiles(pattern@),
            r matches Ok(m) ==> m@ == pattern@,
    {
        match compile_regex(pattern) {
            Ok(re) => Ok(RegexMatcher { re, pattern: pattern.to_owned() }),
            Err(e) => Err(e),
        }
    }

    /// Relies on `regex::bytes::Regex::captures_iter`, which yields the
    /// successive leftmost-first, non-overlapping matches in order, and on
    /// `regex::bytes::Captures::expand`, which writes `template` with each
    /// `$ref` resolved against one match (`$0` being the whole match).
    #[verifier::external_body]
    fn expansions(&self, hay: &[u8], template: &[u8]) -> (r: Vec<Vec<u8>>)
        ensures
            r@.len() == regex_spans(self@, hay@).len(),
            r@.len() == regex_expansions(self@, hay@, template@).len(),
            forall|i: int| 0 <= i < r@.len() ==> #[trigger] r@[i]@ == regex_expansions(self@, hay@, template@)[i],
            forall|i: int|
                0 <= i < r@.len() ==> 0 <= #[trigger] regex_spans(self@, hay@)[i].0 <= regex_spans(self@, hay@)[i].1
                    <= hay@.len(),
            forall|i: int|
                0 < i < r@.len() ==> regex_spans(self@, hay@)[i - 1].1 <= #[trigger] regex_spans(self@, hay@)[i].0,
            template@ == whole_match_template() ==> forall|i: int|
                0 <= i < r@.len() ==> #[trigger] r@[i]@ == hay@.subrange(
                    regex_spans(self@, hay@)[i].0,
                    regex_spans(self@, hay@)[i].1,
                ),
    {
        let mut out = Vec::new();
        for caps in self.re.captures_iter(hay) {
            let mut bytes = Vec::new();
            caps.expand(template, &mut bytes);
            out.push(bytes);
        }
        out
    }

    /// Relies on `regex::bytes::Regex::replacen`: for a limit above zero, the
    /// first `limit` matches are replaced by `template` expanded against each
    /// (a template without `$` is copied as it stands, which is also what
    /// `Captures::expand` writes for it), and all other bytes are kept.
    #[verifier::external_body]
    fn replace_first(&self, hay: &[u8], limit: usize, template: &[u8]) -> (r: Vec<u8>)
        requires
            limit > 0,
        ensures
            r@ == spliced(
                hay@,
                regex_spans(self@, hay@),
                regex_expansions(self@, hay@, template@),
                capped(limit as nat, regex_spans(self@, hay@).len()),
            ),
    {
        self.re.replacen(hay, limit, template).into_owned()
    }
}

/// `record` with each of its first `n_rep` matches replaced by `repl`
/// expanded against that match; every other byte is kept. With `n_rep` zero
/// the record comes back unchanged.
pub fn regex_replace(re: &RegexMatcher, record: &[u8], repl: &[u8], n_rep: usize) -> (r: Vec<u8>)
    ensures
        r@ == spliced(
            record@,
            regex_spans(re@, record@),
            regex_expansions(re@, record@, repl@),
            capped(n_rep as nat, regex_spans(re@, record@).len()),
        ),
{
    if n_rep == 0 {
        let r = vstd::slice::slice_to_vec(record);
        assert(r@ == record@.subrange(0, record@.len() as int));
        r
    } else {
        re.replace_first(record, n_rep, repl)
    }
}

/// `repl` expanded against each of the first `n_rep` matches in `record`,
/// one after the other with nothing between them; no unmatched byte.
pub fn regex_extract(re: &RegexMatcher, record: &[u8], repl: &[u8], n_rep: usize) -> (r: Vec<u8>)
    ensures
        r@ == joined(regex_expansions(re@, record@, repl@), capped(n_rep as nat, regex_spans(re@, record@).len())),
        repl@ == whole_match_template() ==> r@ == joined(
            matched_texts(record@, regex_spans(re@, record@)),
            capped(n_rep as nat, regex_spans(re@, record@).len()),
        ),
{
    let exps = re.expansions(record, repl);
    let ghost reps = regex_expansions(re@, record@, repl@);
    proof {
        if repl@ == whole_match_template() {
            let texts = matched_texts(record@, regex_spans(re@, record@));
            assert forall|i: int| 0 <= i < reps.len() implies reps[i] == texts[i] by {
                assert(exps@[i]@ == reps[i]);
            }
            assert(reps =~= texts);
        }
    }
    let k: usize = if n_rep < exps.len() {
        n_rep
    } else {
        exps.len()
    };
    let mut out: Vec<u8> = Vec::new();
    let mut i: usize = 0;
    while i < k
        invariant
            k <= exps@.len(),
            exps@.len() == reps.len(),
            forall|j: int| 0 <= j < exps@.len() ==> #[trigger] exps@[j]@ == reps[j],
            i <= k,
            out@ == joined(reps, i as nat),
        decreases k - i,
    {
        out.extend_from_slice(exps[i].as_slice());
        assert(exps@[i as int]@ == reps[i as int]);
        i = i + 1;
    }
    out
}

} // verus!
