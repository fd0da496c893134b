//! A streaming find/replace engine: each record of a byte stream is either
//! rewritten in place (replace) or reduced to what matched (extract), with
//! the pattern read as a regular expression or as verbatim bytes.
//!
//! The executable functions are proved against the spec functions of
//! [`model`], which describe a record's output in terms of the spans where
//! the pattern matched and the bytes that stand in for each match.

pub mod err;
pub mod laws;
pub mod model;
pub mod opt;
pub mod process;
pub mod regex_matcher;
pub mod verbatim;

pub use err::FrErr;
pub use opt::{MatchMode, Opts, OutputMode};
pub use process::RecordProcessor;
pub use regex_matcher::{regex_extract, regex_replace, RegexMatcher};
pub use verbatim::{find_subslice, static_extract, static_replace};
