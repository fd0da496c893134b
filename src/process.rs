//! The record processor: one configured session, applied record by record.

use vstd::prelude::*;

use crate::err::FrErr;
use crate::model::{capped, joined, matched_texts, spliced};
use crate::opt::{MatchMode, OutputMode, Opts};
use crate::regex_matcher::{
    regex_compiles, regex_expansions, regex_extract, regex_replace, regex_spans, RegexMatcher,
};
use crate::verbatim::{repeated, static_extract, static_replace, verbatim_spans};

verus! {

/// What a record processor does, as plain values.
pub struct ProcessorView {
    /// The regular expression, in regex mode; `None` in verbatim mode.
    pub regex: Option<Seq<char>>,
    /// The pattern's bytes.
    pub pattern: Seq<u8>,
    /// The template's bytes.
    pub template: Seq<u8>,
    /// The most matches processed per record.
    pub max: nat,
    /// Extract mode rather than replace mode.
    pub extract: bool,
    /// The bytes written after each record's output.
    pub terminator: Seq<u8>,
}

/// The spans where the pattern matches in a record.
pub open spec fn match_spans(v: ProcessorView, hay: Seq<u8>) -> Seq<(int, int)> {
    match v.regex {
        Some(p) => regex_spans(p, hay),
        None => verbatim_spans(hay, v.pattern),
    }
}

/// What stands in for each match: the template expanded against it (regex)
/// or the template as it is (verbatim).
pub open spec fn stand_ins(v: ProcessorView, hay: Seq<u8>) -> Seq<Seq<u8>> {
    match v.regex {
        Some(p) => regex_expansions(p, hay, v.template),
        None => repeated(v.template, match_spans(v, hay).len()),
    }
}

/// How many matches of a record are processed.
pub open spec fn matches_taken(v: ProcessorView, hay: Seq<u8>) -> nat {
    capped(v.max, match_spans(v, hay).len())
}

/// The output for one record, before any terminator.
pub open spec fn record_output(v: ProcessorView, hay: Seq<u8>) -> Seq<u8> {
    if v.extract {
        joined(stand_ins(v, hay), matches_taken(v, hay))
    } else {
        spliced(hay, match_spans(v, hay), stand_ins(v, hay), matches_taken(v, hay))
    }
}

/// What one record contributes to the output stream: its output and the
/// terminator, except that an extract that produced nothing contributes
/// nothing.
pub open spec fn emitted(v: ProcessorView, hay: Seq<u8>) -> Seq<u8> {
    if !v.extract || record_output(v, hay).len() > 0 {
        record_output(v, hay) + v.terminator
    } else {
        Seq::empty()
    }
}

/// The processor that the options `opts` describe, writing `terminator`
/// after each record.
pub open spec fn configured(opts: &Opts, terminator: Seq<u8>) -> ProcessorView {
    ProcessorView {
        regex: if opts.match_mode == MatchMode::Regex {
            Some(opts.pattern@)
        } else {
            None
        },
        pattern: vstd::utf8::encode_utf8(opts.pattern@),
        template: vstd::utf8::encode_utf8(opts.output_mode.template()),
        max: opts.max as nat,
        extract: opts.output_mode is Extract,
        terminator,
    }
}

/// One session's fixed configuration, with its pattern compiled once.
pub struct RecordProcessor {
    matcher: Option<RegexMatcher>,
    pattern: Vec<u8>,
    template: Vec<u8>,
    max: usize,
    extract: bool,
    terminator: Vec<u8>,
}

impl View for RecordProcessor {
    type V = ProcessorView;

    closed spec fn view(&self) -> ProcessorView {
        ProcessorView {
            regex: match self.matcher {
                Some(m) => Some(m@),
                None => None,
            },
            pattern: self.pattern@,
            template: self.template@,
            max: self.max as nat,
            extract: self.extract,
            terminator: self.terminator@,
        }
    }
}

impl RecordProcessor {
    /// Sets up a session from its options. Fails, with the regex error,
    /// exactly when the options ask for regex matching and the pattern does
    /// not compile.
    pub fn new(opts: &Opts, terminator: &[u8]) -> (r: Result<RecordProcessor, FrErr>)
        ensures
            r is Err <==> (opts.match_mode == MatchMode::Regex && !regex_compiles(opts.pattern@)),
            r matches Err(e) ==> e is Regex,
            r matches Ok(p) ==> p@ == configured(opts, terminator@),
    {
        let matcher = match opts.match_mode {
            MatchMode::Regex => match RegexMatcher::new(opts.pattern.as_str()) {
                Ok(m) => Some(m),
                Err(e) => {
                    return Err(FrErr::Regex(e));
                },
            },
            MatchMode::Verbatim => None,
        };
        let (extract, template) = match &opts.output_mode {
            OutputMode::Replace(t) => (false, t),
            OutputMode::Extract(t) => (true, t),
        };
        Ok(
            RecordProcessor {
                matcher,
                pattern: vstd::slice::slice_to_vec(opts.pattern.as_str().as_bytes()),
                template: vstd::slice::slice_to_vec(template.as_str().as_bytes()),
                max: opts.max,
                extract,
                terminator: vstd::slice::slice_to_vec(terminator),
            },
        )
    }

    /// The output for one record, before any terminator. In regex extract
    /// mode with the whole-match template, that is the matched bytes one
    /// after the other.
    pub fn process(&self, record: &[u8]) -> (r: Vec<u8>)
        ensures
            r@ == record_output(self@, record@),
            self@.regex is Some && self@.extract && self@.template == crate::regex_matcher::whole_match_template()
                ==> r@ == joined(
                matched_texts(record@, match_spans(self@, record@)),
                matches_taken(self@, record@),
            ),
    {
        match &self.matcher {
            Some(re) => {
                if self.extract {
                    regex_extract(re, record, self.template.as_slice(), self.max)
                } else {
                    regex_replace(re, record, self.template.as_slice(), self.max)
                }
            },
            None => {
                if self.extract {
                    static_extract(record, self.pattern.as_slice(), self.template.as_slice(), self.max)
                } else {
                    static_replace(record, self.pattern.as_slice(), self.template.as_slice(), self.max)
                }
            },
        }
    }

    /// What one record contributes to the output stream: its output followed
    /// by the terminator, or nothing for an extract that produced nothing.
    pub fn emit(&self, record: &[u8]) -> (r: Vec<u8>)
        ensures
            r@ == emitted(self@, record@),
    {
        let mut out = self.process(record);
        if !self.extract || out.len() > 0 {
            out.extend_from_slice(self.terminator.as_slice());
        }
        out
    }
}

} // verus!
