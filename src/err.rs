//! The one error type of a session.

use vstd::prelude::*;

verus! {

#[verifier::external_type_specification]
#[verifier::external_body]
pub struct ExIoError(std::io::Error);

/// Why a session stopped: reading or writing failed, or the pattern is not a
/// regular expression that compiles.
#[derive(Debug)]
pub enum FrErr {
    Io(std::io::Error),
    Regex(regex::Error),
}

impl From<std::io::Error> for FrErr {
    fn from(e: std::io::Error) -> (r: FrErr) {
        FrErr::Io(e)
    }
}

impl vstd::std_specs::convert::FromSpecImpl<std::io::Error> for FrErr {
    open spec fn obeys_from_spec() -> bool {
        true
    }

    open spec fn from_spec(v: std::io::Error) -> FrErr {
        FrErr::Io(v)
    }
}

impl From<regex::Error> for FrErr {
    fn from(e: regex::Error) -> (r: FrErr) {
        FrErr::Regex(e)
    }
}

impl vstd::std_specs::convert::FromSpecImpl<regex::Error> for FrErr {
    open spec fn obeys_from_spec() -> bool {
        true
    }

    open spec fn from_spec(v: regex::Error) -> FrErr {
        FrErr::Regex(v)
    }
}

} // verus!
