use crate::cache::CacheSpan;
use crate::engine::engine::{BinaryOpType, UnaryOpType};
use vstd::prelude::*;

verus! {

/// A run-time failure. Every variant carries the span of the expression or
/// statement whose evaluation failed.
#[derive(Debug)]
pub enum RunError {
    UnknownFunction { ident: String, data: CacheSpan },
    UnknownVariable { ident: String, data: CacheSpan },
    ParameterCount { expected: usize, found: usize, data: CacheSpan },
    NativeCallError { message: String, data: CacheSpan },
    TypeMismatch { expected: String, found: String, data: CacheSpan },
    InvalidUnary { op: UnaryOpType, vtype: String, data: CacheSpan },
    InvalidBinary { op: BinaryOpType, vtype1: String, vtype2: String, data: CacheSpan },
    /// Division or remainder by zero (an arbitrary-precision failure mode
    /// surfaced as an error rather than a fault).
    DivisionByZero { data: CacheSpan },
    /// A power with no finite real value (a negative base under a fractional
    /// exponent, a zero base under a negative exponent, or an overflow).
    InvalidPower { data: CacheSpan },
    /// A decimal sum, difference, product or quotient left the representable
    /// exponent range.
    Overflow { data: CacheSpan },
    /// The evaluator's step budget ran out; it starts at usize::MAX nested
    /// steps per entry call, so this is practically unreachable.
    CallDepthLimit { data: CacheSpan },
}

/// The abstraction of a run-time failure, with the strings as character
/// sequences.
#[verifier::ext_equal]
pub enum RunErrV {
    UnknownFunction { ident: Seq<char>, data: CacheSpan },
    UnknownVariable { ident: Seq<char>, data: CacheSpan },
    ParameterCount { expected: usize, found: usize, data: CacheSpan },
    NativeCallError { message: Seq<char>, data: CacheSpan },
    TypeMismatch { expected: Seq<char>, found: Seq<char>, data: CacheSpan },
    InvalidUnary { op: UnaryOpType, vtype: Seq<char>, data: CacheSpan },
    InvalidBinary { op: BinaryOpType, vtype1: Seq<char>, vtype2: Seq<char>, data: CacheSpan },
    DivisionByZero { data: CacheSpan },
    InvalidPower { data: CacheSpan },
    Overflow { data: CacheSpan },
    CallDepthLimit { data: CacheSpan },
}

impl View for RunError {
    type V = RunErrV;

    open spec fn view(&self) -> RunErrV {
        match self {
            RunError::UnknownFunction { ident, data } => RunErrV::UnknownFunction {
                ident: ident@,
                data: *data,
            },
            RunError::UnknownVariable { ident, data } => RunErrV::UnknownVariable {
                ident: ident@,
                data: *data,
            },
            RunError::ParameterCount { expected, found, data } => RunErrV::ParameterCount {
                expected: *expected,
                found: *found,
                data: *data,
            },
            RunError::NativeCallError { message, data } => RunErrV::NativeCallError {
                message: message@,
                data: *data,
            },
            RunError::TypeMismatch { expected, found, data } => RunErrV::TypeMismatch {
                expected: expected@,
                found: found@,
                data: *data,
            },
            RunError::InvalidUnary { op, vtype, data } => RunErrV::InvalidUnary {
                op: *op,
                vtype: vtype@,
                data: *data,
            },
            RunError::InvalidBinary { op, vtype1, vtype2, data } => RunErrV::InvalidBinary {
                op: *op,
                vtype1: vtype1@,
                vtype2: vtype2@,
                data: *data,
            },
            RunError::DivisionByZero { data } => RunErrV::DivisionByZero { data: *data },
            RunError::InvalidPower { data } => RunErrV::InvalidPower { data: *data },
            RunError::Overflow { data } => RunErrV::Overflow { data: *data },
            RunError::CallDepthLimit { data } => RunErrV::CallDepthLimit { data: *data },
        }
    }
}

pub type RResult<T> = Result<T, RunError>;

} // verus!
