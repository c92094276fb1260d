use crate::cache::CacheSpan;
use vstd::prelude::*;

verus! {

/// Why a numeric literal was rejected.
#[derive(Debug, Clone, Copy, PartialEq, Eq, Structural)]
pub enum NumParseError {
    NoDigits,
    InvalidDigit,
}

/// A parse-time failure. Every variant carries the span of the offending
/// token or of the construct's opening token; the message strings are
/// display text for the host's diagnostics.
#[derive(Debug)]
pub enum PError {
    UnexpectedEnd { expected: String, data: CacheSpan },
    InvalidToken { part: String, data: CacheSpan },
    UnclosedString { data: CacheSpan },
    ParseNumError { error: NumParseError, data: CacheSpan },
    UnexpectedToken { expected: String, found: String, data: CacheSpan },
    UnclosedBrace { data: CacheSpan },
    InvalidAssignment { data: CacheSpan },
    MixedTabsAndSpaces { data: CacheSpan, tab: bool },
}

/// The kind-and-location abstraction of a [`PError`]: what the language
/// definition fixes about an error. The display text stays out of it.
#[derive(PartialEq, Eq, Structural)]
pub enum PErrV {
    UnexpectedEnd { data: CacheSpan },
    InvalidToken { data: CacheSpan },
    UnclosedString { data: CacheSpan },
    ParseNum { error: NumParseError, data: CacheSpan },
    UnexpectedToken { data: CacheSpan },
    UnclosedBrace { data: CacheSpan },
    InvalidAssignment { data: CacheSpan },
    MixedTabsAndSpaces { data: CacheSpan, tab: bool },
}

impl View for PError {
    type V = PErrV;

    open spec fn view(&self) -> PErrV {
        match self {
            PError::UnexpectedEnd { expected, data } => PErrV::UnexpectedEnd { data: *data },
            PError::InvalidToken { part, data } => PErrV::InvalidToken { data: *data },
            PError::UnclosedString { data } => PErrV::UnclosedString { data: *data },
            PError::ParseNumError { error, data } => PErrV::ParseNum {
                error: *error,
                data: *data,
            },
            PError::UnexpectedToken { expected, found, data } => PErrV::UnexpectedToken {
                data: *data,
            },
            PError::UnclosedBrace { data } => PErrV::UnclosedBrace { data: *data },
            PError::InvalidAssignment { data } => PErrV::InvalidAssignment { data: *data },
            PError::MixedTabsAndSpaces { data, tab } => PErrV::MixedTabsAndSpaces {
                data: *data,
                tab: *tab,
            },
        }
    }
}

impl Clone for PError {
    fn clone(&self) -> (r: Self)
        ensures
            r == *self,
    {
        match self {
            PError::UnexpectedEnd { expected, data } => PError::UnexpectedEnd {
                expected: expected.clone(),
                data: *data,
            },
            PError::InvalidToken { part, data } => PError::InvalidToken {
                part: part.clone(),
                data: *data,
            },
            PError::UnclosedString { data } => PError::UnclosedString { data: *data },
            PError::ParseNumError { error, data } => PError::ParseNumError {
                error: *error,
                data: *data,
            },
            PError::UnexpectedToken { expected, found, data } => PError::UnexpectedToken {
                expected: expected.clone(),
                found: found.clone(),
                data: *data,
            },
            PError::UnclosedBrace { data } => PError::UnclosedBrace { data: *data },
            PError::InvalidAssignment { data } => PError::InvalidAssignment { data: *data },
            PError::MixedTabsAndSpaces { data, tab } => PError::MixedTabsAndSpaces {
                data: *data,
                tab: *tab,
            },
        }
    }
}

pub type PResult<T> = Result<T, PError>;

} // verus!
