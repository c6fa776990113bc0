//! The error taxonomy of the language.
//!
//! Parse errors are raised while turning program text into tokens;
//! execution errors are raised while running tokens against the value
//! queue. Both are terminal for the run that raised them.

use crate::range::IndexError;
use crate::range::RangeError;
use crate::value::Kind;
use vstd::prelude::*;

verus! {

/// An error that can occur during parsing.
#[derive(Debug, PartialEq, Eq, Clone)]
pub enum ParseError {
    /// A given program was empty.
    Empty,
    /// An unknown token was encountered; carries the remaining text.
    Unknown(String),
}

/// A function argument was not of an expected kind. Carries the kinds that
/// would have been accepted and the kind that was given.
#[derive(Debug, PartialEq, Eq, Clone)]
pub struct ArgMismatchError {
    /// The kinds the function accepts.
    pub expected: Vec<Kind>,
    /// The kind the argument had.
    pub given: Kind,
}

impl ArgMismatchError {
    /// Creates a new mismatch report from the accepted kinds and the kind
    /// that was given.
    pub fn new(expected: Vec<Kind>, given: Kind) -> (r: Self)
        ensures
            r.expected == expected,
            r.given == given,
    {
        Self { expected, given }
    }
}

/// An error that can occur during program execution.
#[derive(Debug, PartialEq, Eq, Clone)]
pub enum Error {
    /// An error occurred during parsing.
    Parse(ParseError),
    /// A relative index resolved outside the valid target range.
    Index(IndexError),
    /// A relative range resolved outside the valid target range, or to
    /// incompatible bounds.
    Range(RangeError),
    /// A function argument was not of an expected kind.
    ArgMismatch(ArgMismatchError),
    /// Two values were expected to be of the same kind but were not.
    Mismatch(Kind, Kind),
    /// The queue held fewer values than an opcode needs. Carries how many
    /// were needed and how many there were.
    QueueTooShort(usize, usize),
}

} // verus!
