//! A token iterator over program text.
//!
//! Each call to `next` attempts to yield one token; after a parse error
//! every further call yields nothing.

use crate::error::ParseError;
use crate::parse::lemma_next_token_consumes;
use crate::parse::next_token;
use crate::parse::spec_next_token;
use crate::parse::Scan;
use crate::token::Token;
use vstd::prelude::*;
use vstd::string::*;

verus! {

/// A token iterator: attempts to yield one token per call to `next`.
/// Once it has yielded an error, every further call yields nothing.
#[derive(Debug)]
pub struct Iter<'a> {
    /// The remaining text.
    slice: &'a str,
    /// Whether an error was yielded before.
    error: bool,
}

impl<'a> Iter<'a> {
    /// The remaining text.
    pub closed spec fn slice_view(&self) -> Seq<char> {
        self.slice@
    }

    /// An error was yielded before.
    pub closed spec fn failed(&self) -> bool {
        self.error
    }

    /// Creates a new iterator for the given text.
    pub fn new(input: &'a str) -> (r: Self)
        ensures
            r.slice_view() == input@,
            !r.failed(),
    {
        Self { slice: input, error: false }
    }

    /// Returns whether this iterator has previously yielded an error.
    pub fn error(&self) -> (r: bool)
        ensures
            r == self.failed(),
    {
        self.error
    }

    /// Returns the remaining text.
    pub fn slice(&self) -> (r: &'a str)
        ensures
            r@ == self.slice_view(),
    {
        self.slice
    }

    /// Attempts to yield the next token and its consumed length: nothing
    /// once the text is exhausted or an error was yielded before, the
    /// parse error once when one is found.
    pub fn next(&mut self) -> (r: Option<Result<(Token, usize), ParseError>>)
        ensures
            old(self).failed() ==> r is None && *final(self) == *old(self),
            !old(self).failed() ==> (match spec_next_token(old(self).slice_view()) {
                Scan::Tok(tv, n) => {
                    &&& r matches Some(Ok((tok, len)))
                    &&& tok@ == tv
                    &&& len == n
                    &&& final(self).slice_view() == old(self).slice_view().skip(n as int)
                    &&& !final(self).failed()
                },
                Scan::Empty => r is None && *final(self) == *old(self),
                Scan::Unknown(u) => {
                    &&& (r matches Some(Err(pe)) && pe matches ParseError::Unknown(m) && m@ == u)
                    &&& final(self).failed()
                },
            }),
    {
        if self.error {
            return None;
        }
        match next_token(self.slice) {
            Ok((rest, tok, len)) => {
                self.slice = rest;
                Some(Ok((tok, len)))
            },
            Err(ParseError::Empty) => None,
            Err(e) => {
                self.error = true;
                Some(Err(e))
            },
        }
    }
}

} // verus!
