//! Resumable token generators.
//!
//! A generator yields one token per resume until the program text is
//! exhausted or a token is invalid. The lazy variant scans the text again
//! on every resume; the eager variant scans the whole text at construction
//! and replays a buffer. Both hold only an offset into the one program
//! text, never a second copy of it.

use crate::error::ParseError;
use crate::parse::lemma_next_token_consumes;
use crate::parse::lemma_stream_suffix;
use crate::parse::next_token;
use crate::parse::spec_next_token;
use crate::parse::stream_pos;
use crate::parse::token_stream;
use crate::parse::token_stream_end;
use crate::parse::Scan;
use crate::token::Token;
use crate::token::TokenView;
use vstd::prelude::*;
use vstd::string::*;

verus! {

/// The outcome of one resume of a generator.
#[derive(Debug, PartialEq, Eq)]
pub enum GenState {
    /// A token was found; carries it and the characters it consumed,
    /// leading whitespace included.
    Yielded(Token, usize),
    /// The generator completed: cleanly, or with a parse error.
    Completed(Result<(), ParseError>),
}

/// The shape of a buffered token pair: its view and its length.
pub open spec fn pair_view(p: (Token, usize)) -> (TokenView, nat) {
    (p.0@, p.1 as nat)
}

impl Token {
    /// Clones this token; the copy is equal to the original.
    pub fn duplicate(&self) -> (r: Token)
        ensures
            r == *self,
    {
        match self {
            Token::In => Token::In,
            Token::Out => Token::Out,
            Token::Rotate(n) => Token::Rotate(*n),
            Token::Split(None) => Token::Split(None),
            Token::Split(Some(s)) => Token::Split(Some(s.clone())),
            Token::Join => Token::Join,
            Token::Concat => Token::Concat,
            Token::Copy => Token::Copy,
            Token::IsVowel => Token::IsVowel,
            Token::IsConso => Token::IsConso,
            Token::IsUpper => Token::IsUpper,
            Token::IsLower => Token::IsLower,
            Token::Mapping(m) => Token::Mapping(*m),
            Token::Filter(c) => Token::Filter(*c),
            Token::Slice(r) => Token::Slice(*r),
            Token::Index(b) => Token::Index(*b),
        }
    }
}

/// A reusable token generator over one program text.
///
/// What a resume yields depends only on the program text and on how many
/// of its characters are already consumed, so the same text always yields
/// the same stream, stepwise or replayed.
pub trait Gen<'t>: Sized {
    /// The program text this generator yields tokens from.
    spec fn program_view(&self) -> Seq<char>;

    /// How many characters of the program are consumed so far.
    spec fn position(&self) -> nat;

    /// The generator completed cleanly and must be reset before the next
    /// resume.
    spec fn completed(&self) -> bool;

    /// The generator's internal consistency.
    spec fn wf(&self) -> bool;

    /// Returns this generator's program text.
    fn tokens(&self) -> (r: &'t str)
        requires
            self.wf(),
        ensures
            r@ == self.program_view(),
    ;

    /// Attempts to yield the next token.
    fn resume(&mut self) -> (r: GenState)
        requires
            old(self).wf(),
            !old(self).completed(),
        ensures
            final(self).wf(),
            final(self).program_view() == old(self).program_view(),
            (match r {
                GenState::Yielded(tok, len) => {
                    &&& spec_next_token(
                        old(self).program_view().skip(old(self).position() as int),
                    ) == Scan::Tok(tok@, len as nat)
                    &&& final(self).position() == old(self).position() + len
                    &&& !final(self).completed()
                },
                GenState::Completed(res) => {
                    &&& final(self).position() == old(self).position()
                    &&& (match res {
                        Ok(()) => {
                            &&& spec_next_token(
                                old(self).program_view().skip(old(self).position() as int),
                            ) == Scan::Empty
                            &&& final(self).completed()
                        },
                        Err(e) => {
                            &&& (spec_next_token(
                                old(self).program_view().skip(old(self).position() as int),
                            ) matches Scan::Unknown(u) && e matches ParseError::Unknown(m)
                                && m@ == u)
                        },
                    })
                },
            }),
    ;

    /// Resets this generator to yield from the start of the text again.
    fn reset(&mut self)
        requires
            old(self).wf(),
        ensures
            final(self).wf(),
            final(self).program_view() == old(self).program_view(),
            final(self).position() == 0,
            !final(self).completed(),
    ;
}

/// A lazily evaluated token generator: every resume scans the remaining
/// text again.
#[derive(Debug)]
pub struct LazyGen<'t> {
    /// The program text.
    program: &'t str,
    /// How many characters are consumed so far.
    pos: usize,
    /// Whether the generator completed cleanly.
    done: bool,
}

impl<'t> LazyGen<'t> {
    /// Creates a new lazy generator for the given text.
    pub fn new(input: &'t str) -> (r: Self)
        ensures
            r.wf(),
            r.program_view() == input@,
            r.position() == 0,
            !r.completed(),
    {
        Self { program: input, pos: 0, done: false }
    }
}

impl<'t> Gen<'t> for LazyGen<'t> {
    closed spec fn program_view(&self) -> Seq<char> {
        self.program@
    }

    closed spec fn position(&self) -> nat {
        self.pos as nat
    }

    closed spec fn completed(&self) -> bool {
        self.done
    }

    closed spec fn wf(&self) -> bool {
        self.pos <= self.program@.len()
    }

    fn tokens(&self) -> (r: &'t str) {
        self.program
    }

    fn resume(&mut self) -> (r: GenState) {
        let n = self.program.unicode_len();
        let rem = self.program.substring_char(self.pos, n);
        proof {
            assert(rem@ =~= self.program@.skip(self.pos as int));
            lemma_next_token_consumes(rem@);
        }
        match next_token(rem) {
            Err(ParseError::Empty) => {
                self.done = true;
                GenState::Completed(Ok(()))
            },
            Err(e) => GenState::Completed(Err(e)),
            Ok((_, tok, len)) => {
                self.pos = self.pos + len;
                GenState::Yielded(tok, len)
            },
        }
    }

    fn reset(&mut self) {
        self.pos = 0;
        self.done = false;
    }
}

/// An eagerly collected token generator: construction scans the whole
/// text, and construction of an invalid program fails; every resume then
/// replays one buffered token.
#[derive(Debug)]
pub struct EagerGen<'t> {
    /// The program text.
    program: &'t str,
    /// The buffered tokens with their lengths.
    tokens: Vec<(Token, usize)>,
    /// The buffer index of the next token to yield.
    yield_at: usize,
    /// How many characters the yielded tokens consumed.
    pos: usize,
    /// Whether the generator completed cleanly.
    done: bool,
}

impl<'t> EagerGen<'t> {
    /// The buffered token stream.
    pub closed spec fn buffer_view(&self) -> Seq<(TokenView, nat)> {
        self.tokens@.map_values(|p: (Token, usize)| pair_view(p))
    }

    /// Attempts to create a new eager generator for the given text:
    /// succeeds with the whole token stream buffered when every token is
    /// valid, and fails with the parse error otherwise.
    pub fn new(input: &'t str) -> (r: Result<Self, ParseError>)
        ensures
            (match r {
                Ok(g) => {
                    &&& g.wf()
                    &&& g.program_view() == input@
                    &&& g.position() == 0
                    &&& !g.completed()
                    &&& g.buffer_view() == token_stream(input@)
                    &&& token_stream_end(input@) == Scan::Empty
                },
                Err(e) => {
                    &&& (token_stream_end(input@) matches Scan::Unknown(u) && e
                        matches ParseError::Unknown(m) && m@ == u)
                },
            }),
    {
        let n = input.unicode_len();
        let mut lazy = LazyGen::new(input);
        let mut toks: Vec<(Token, usize)> = Vec::new();
        proof {
            assert(input@.skip(0) =~= input@);
            assert(toks@.map_values(|p: (Token, usize)| pair_view(p)) =~= Seq::<(
                TokenView,
                nat,
            )>::empty());
        }
        loop
            invariant
                input@.len() <= usize::MAX,
                lazy.wf(),
                !lazy.completed(),
                lazy.program_view() == input@,
                token_stream(input@) == toks@.map_values(|p: (Token, usize)| pair_view(p))
                    + token_stream(input@.skip(lazy.position() as int)),
                token_stream_end(input@) == token_stream_end(
                    input@.skip(lazy.position() as int),
                ),
                stream_pos(input@, toks@.len() as int) == lazy.position(),
            decreases input@.len() - lazy.position(),
        {
            let ghost pos0 = lazy.position();
            let ghost tail0 = input@.skip(pos0 as int);
            match lazy.resume() {
                GenState::Yielded(tok, len) => {
                    proof {
                        lemma_next_token_consumes(tail0);
                        assert(token_stream(tail0) == seq![(tok@, len as nat)] + token_stream(
                            tail0.skip(len as int),
                        ));
                        assert(tail0.skip(len as int) =~= input@.skip(pos0 + len));
                        assert(token_stream_end(tail0) == token_stream_end(
                            input@.skip(pos0 + len),
                        ));
                        assert(stream_pos(tail0, 1) == len + stream_pos(
                            tail0.skip(len as int),
                            0,
                        ));
                    }
                    let ghost k = toks@.len() as int;
                    toks.push((tok, len));
                    proof {
                        assert(toks@.map_values(|p: (Token, usize)| pair_view(p)) =~= toks@.take(
                            k,
                        ).map_values(|p: (Token, usize)| pair_view(p)).push((tok@, len as nat)));
                        assert(toks@.take(k) =~= toks@.drop_last());
                        assert(token_stream(input@) =~= toks@.map_values(
                            |p: (Token, usize)| pair_view(p),
                        ) + token_stream(input@.skip(lazy.position() as int)));
                        lemma_stream_suffix(input@, k);
                        assert(stream_pos(input@, k + 1) == stream_pos(input@, k)
                            + token_stream(input@)[k].1);
                    }
                },
                GenState::Completed(res) => {
                    match res {
                        Ok(()) => {
                            proof {
                                assert(token_stream(tail0) =~= Seq::<(TokenView, nat)>::empty());
                                assert(token_stream(input@) =~= toks@.map_values(
                                    |p: (Token, usize)| pair_view(p),
                                ));
                                assert(token_stream_end(tail0) == Scan::Empty);
                            }
                            return Ok(
                                EagerGen {
                                    program: input,
                                    tokens: toks,
                                    yield_at: 0,
                                    pos: 0,
                                    done: false,
                                },
                            );
                        },
                        Err(e) => {
                            proof {
                                assert(token_stream_end(tail0) == spec_next_token(tail0));
                            }
                            return Err(e);
                        },
                    }
                },
            }
        }
    }
}

impl<'t> Gen<'t> for EagerGen<'t> {
    closed spec fn program_view(&self) -> Seq<char> {
        self.program@
    }

    closed spec fn position(&self) -> nat {
        self.pos as nat
    }

    closed spec fn completed(&self) -> bool {
        self.done
    }

    closed spec fn wf(&self) -> bool {
        &&& self.program@.len() <= usize::MAX
        &&& self.buffer_view() == token_stream(self.program@)
        &&& token_stream_end(self.program@) == Scan::Empty
        &&& self.yield_at <= self.tokens@.len()
        &&& self.pos == stream_pos(self.program@, self.yield_at as int)
        &&& (self.done ==> self.yield_at == self.tokens@.len())
    }

    fn tokens(&self) -> (r: &'t str) {
        self.program
    }

    fn resume(&mut self) -> (r: GenState) {
        proof {
            lemma_stream_suffix(self.program@, self.yield_at as int);
        }
        if self.yield_at == self.tokens.len() {
            self.done = true;
            proof {
                let tail = self.program@.skip(self.pos as int);
                assert(token_stream(tail) =~= Seq::<(TokenView, nat)>::empty());
                assert(token_stream_end(tail) == Scan::Empty);
                assert(spec_next_token(tail) == Scan::Empty);
            }
            GenState::Completed(Ok(()))
        } else {
            let pair = &self.tokens[self.yield_at];
            let tok = pair.0.duplicate();
            let len = pair.1;
            proof {
                lemma_stream_suffix(self.program@, self.yield_at + 1);
                assert(token_stream(self.program@)[self.yield_at as int] == pair_view(
                    self.tokens@[self.yield_at as int],
                ));
            }
            self.yield_at = self.yield_at + 1;
            self.pos = self.pos + len;
            GenState::Yielded(tok, len)
        }
    }

    fn reset(&mut self) {
        self.yield_at = 0;
        self.pos = 0;
        self.done = false;
    }
}

/// The eagerly collected sequence equals the lazy stepwise stream.
///
/// The `i`-th buffered pair of a well-formed eager generator is exactly
/// what a lazy generator over the same text yields at its `i`-th resume:
/// the token found at the position the first `i` tokens consumed.
pub proof fn lemma_eager_matches_lazy<'t>(eager: EagerGen<'t>, i: int)
    requires
        eager.wf(),
        0 <= i < eager.buffer_view().len(),
    ensures
        spec_next_token(eager.program_view().skip(stream_pos(eager.program_view(), i) as int))
            == Scan::Tok(eager.buffer_view()[i].0, eager.buffer_view()[i].1),
{
    lemma_stream_suffix(eager.program_view(), i);
}

/// A generator at position zero replays the stream of a fresh one.
///
/// What a resume yields is a function of the program text and the
/// consumed position alone, so after a reset (which puts the position back
/// to zero) full consumption yields `token_stream` of the whole text — the
/// very stream a freshly constructed generator yields.
pub proof fn lemma_reset_replays(s: Seq<char>, i: int)
    requires
        0 <= i < token_stream(s).len(),
    ensures
        spec_next_token(s.skip(stream_pos(s, i) as int)) == Scan::Tok(
            token_stream(s)[i].0,
            token_stream(s)[i].1,
        ),
{
    lemma_stream_suffix(s, i);
}

} // verus!
