use vstd::prelude::*;

verus! {

#[verifier::external_type_specification]
#[verifier::external_body]
pub struct ExIoError(std::io::Error);

#[verifier::external_type_specification]
#[verifier::external_body]
pub struct ExFmtError(std::fmt::Error);

#[verifier::external_type_specification]
#[verifier::external_body]
pub struct ExParseIntError(std::num::ParseIntError);

/// Everything that can go wrong in `rmore`.
#[derive(Debug)]
#[non_exhaustive]
pub enum Error {
    Io(std::io::Error),
    Fmt(std::fmt::Error),
    ParseIntError(std::num::ParseIntError),
    UndetectedSyntax(String),
    UnknownSyntax(String),
    UnknownStyle(String),
    Msg(String),
}

pub type Result<T> = std::result::Result<T, Error>;

impl Error {
    /// A plain message error holding a copy of `s`.
    pub fn msg(s: &str) -> (e: Error)
        ensures
            e matches Error::Msg(m) && m@ == s@,
    {
        Error::Msg(s.to_string())
    }
}

impl From<String> for Error {
    fn from(s: String) -> (e: Error) {
        Error::Msg(s)
    }
}

impl vstd::std_specs::convert::FromSpecImpl<String> for Error {
    open spec fn obeys_from_spec() -> bool {
        true
    }

    open spec fn from_spec(s: String) -> Error {
        Error::Msg(s)
    }
}

} // verus!
