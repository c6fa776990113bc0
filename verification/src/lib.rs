//! Eolina: a small stack-based string-manipulation language.
//!
//! A tokenizer turns program text into opcodes, and an execution context runs
//! them against a FIFO value queue, supporting both one-shot execution and
//! single-step interactive use.

use vstd::prelude::*;

pub mod ascii;
pub mod context;
pub mod display;
pub mod error;
pub mod func;
pub mod gen;
pub mod iter;
pub mod parse;
pub mod range;
pub mod token;
pub mod value;

pub use ascii::AsciiExt;
pub use context::Context;
pub use context::Step;
pub use display::fmt_iter;
pub use error::ArgMismatchError;
pub use error::Error;
pub use error::ParseError;
pub use func::filter;
pub use func::index;
pub use func::is_conso;
pub use func::is_lower;
pub use func::is_upper;
pub use func::is_vowel;
pub use func::join;
pub use func::slice;
pub use func::split;
pub use gen::EagerGen;
pub use gen::Gen;
pub use gen::GenState;
pub use gen::LazyGen;
pub use iter::Iter;
pub use parse::next_token;
pub use range::EolinaRange;
pub use range::EolinaRangeBound;
pub use range::IndexError;
pub use range::RangeError;
pub use token::CheckToken;
pub use token::MapToken;
pub use token::Token;
pub use token::TokenView;
pub use value::Kind;
pub use value::Value;

verus! {

/// Relies on std's `String::push`: it appends the given character to the end
/// of the string.
pub assume_specification[ std::string::String::push ](s: &mut std::string::String, ch: char)
    ensures
        final(s)@ == old(s)@.push(ch),
;

} // verus!
