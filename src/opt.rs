//! The options of a session, resolved to one cell of the match/action table
//! with a concrete template.

use vstd::prelude::*;

verus! {

/// The template that extracts the whole match in regex mode.
pub const DEFAULT_REGEX_EXTRACT: &'static str = "$0";

/// What a session emits for each record, and the template it uses for that.
#[derive(Clone, Debug, PartialEq, Eq)]
pub enum OutputMode {
    /// The record, with matches replaced by the template.
    Replace(String),
    /// Only the template, once per match.
    Extract(String),
}

impl OutputMode {
    /// The template that this mode carries.
    pub open spec fn template(&self) -> Seq<char> {
        match self {
            OutputMode::Replace(t) => t@,
            OutputMode::Extract(t) => t@,
        }
    }
}

/// How the pattern is read.
#[derive(Clone, Copy, Debug, PartialEq, Eq, Structural)]
pub enum MatchMode {
    /// As a regular expression.
    Regex,
    /// As a literal string, matched byte for byte.
    Verbatim,
}

/// The resolved options of one session.
pub struct Opts {
    pub pattern: String,
    /// The most matches processed per record; `usize::MAX` when unbounded.
    pub max: usize,
    pub output_mode: OutputMode,
    pub match_mode: MatchMode,
    /// The regular expression that separates input records.
    pub delimiter: String,
}

impl Opts {
    /// Resolves the options as given on a command line. Without a template
    /// the session extracts, with the pattern itself (verbatim) or the whole
    /// match (regex) as template; with one it replaces, unless `extract` is
    /// set. No bound means no limit.
    pub fn new(
        pattern: String,
        replace: Option<String>,
        max: Option<usize>,
        extract: bool,
        simple: bool,
        delimiter: String,
    ) -> (r: Opts)
        ensures
            r.pattern@ == pattern@,
            r.delimiter@ == delimiter@,
            r.max == (match max {
                Some(m) => m,
                None => usize::MAX,
            }),
            r.match_mode == (if simple {
                MatchMode::Verbatim
            } else {
                MatchMode::Regex
            }),
            r.output_mode is Extract <==> (extract || replace is None),
            r.output_mode.template() == (match replace {
                Some(t) => t@,
                None => if simple {
                    pattern@
                } else {
                    seq!['$', '0']
                },
            }),
    {
        let max = match max {
            Some(m) => m,
            None => usize::MAX,
        };
        let output_mode = match replace {
            None => {
                if simple {
                    OutputMode::Extract(pattern.clone())
                } else {
                    proof {
                        reveal_strlit("$0");
                    }
                    OutputMode::Extract(DEFAULT_REGEX_EXTRACT.to_owned())
                }
            },
            Some(repl) => {
                if extract {
                    OutputMode::Extract(repl)
                } else {
                    OutputMode::Replace(repl)
                }
            },
        };
        let match_mode = if simple {
            MatchMode::Verbatim
        } else {
            MatchMode::Regex
        };
        Opts { pattern, max, output_mode, match_mode, delimiter }
    }
}

} // verus!
