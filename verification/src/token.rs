//! The instruction set of the language.
//!
//! A token is one parsed instruction unit; it is produced once by the
//! tokenizer and consumed once by the execution context.

use crate::range::EolinaRange;
use crate::range::EolinaRangeBound;
use vstd::prelude::*;

verus! {

/// A map argument, the `x` in a map token `{x}`.
#[derive(Debug, PartialEq, Eq, Clone, Copy, Structural)]
pub enum MapToken {
    /// The lowercase map `_`.
    Lower,
    /// The uppercase map `^`.
    Upper,
    /// The case-swapping map `%`.
    Swap,
}

/// A check argument, the `x` in a filter token `[x]`.
#[derive(Debug, PartialEq, Eq, Clone, Copy, Structural)]
pub enum CheckToken {
    /// The vowel check `v`.
    Vowel,
    /// The consonant check `c`.
    Conso,
    /// The uppercase check `^`.
    Upper,
    /// The lowercase check `_`.
    Lower,
}

/// A parsed instruction of the language.
#[derive(Debug, PartialEq, Eq, Clone)]
pub enum Token {
    /// The input token `<`.
    In,
    /// The output token `>`.
    Out,
    /// The rotation token `@x`, where `x` is an optional count.
    Rotate(usize),
    /// The split token `//` or `/"x"/`, where `x` is a literal delimiter.
    Split(Option<String>),
    /// The join token `.`.
    Join,
    /// The concatenation token `~`.
    Concat,
    /// The duplication token `*`.
    Copy,
    /// The vowel check token `v`.
    IsVowel,
    /// The consonant check token `c`.
    IsConso,
    /// The uppercase check token `^`.
    IsUpper,
    /// The lowercase check token `_`.
    IsLower,
    /// The map token `{x}`.
    Mapping(MapToken),
    /// The filter token `[x]`.
    Filter(CheckToken),
    /// The slice token `|a.b|`.
    Slice(EolinaRange),
    /// The index token `|a|`.
    Index(EolinaRangeBound),
}

/// The mathematical shape of a token: the same variants, with the split
/// delimiter as a character sequence.
pub ghost enum TokenView {
    /// The input token.
    In,
    /// The output token.
    Out,
    /// The rotation token and its count.
    Rotate(usize),
    /// The split token and its optional delimiter.
    Split(Option<Seq<char>>),
    /// The join token.
    Join,
    /// The concatenation token.
    Concat,
    /// The duplication token.
    Copy,
    /// The vowel check token.
    IsVowel,
    /// The consonant check token.
    IsConso,
    /// The uppercase check token.
    IsUpper,
    /// The lowercase check token.
    IsLower,
    /// The map token and its argument.
    Mapping(MapToken),
    /// The filter token and its argument.
    Filter(CheckToken),
    /// The slice token and its range.
    Slice(EolinaRange),
    /// The index token and its bound.
    Index(EolinaRangeBound),
}

impl View for Token {
    type V = TokenView;

    open spec fn view(&self) -> TokenView {
        match *self {
            Token::In => TokenView::In,
            Token::Out => TokenView::Out,
            Token::Rotate(n) => TokenView::Rotate(n),
            Token::Split(None) => TokenView::Split(None),
            Token::Split(Some(s)) => TokenView::Split(Some(s@)),
            Token::Join => TokenView::Join,
            Token::Concat => TokenView::Concat,
            Token::Copy => TokenView::Copy,
            Token::IsVowel => TokenView::IsVowel,
            Token::IsConso => TokenView::IsConso,
            Token::IsUpper => TokenView::IsUpper,
            Token::IsLower => TokenView::IsLower,
            Token::Mapping(m) => TokenView::Mapping(m),
            Token::Filter(c) => TokenView::Filter(c),
            Token::Slice(r) => TokenView::Slice(r),
            Token::Index(b) => TokenView::Index(b),
        }
    }
}

} // verus!
