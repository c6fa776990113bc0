//! The execution context: a step-resumable state machine that drives a
//! token generator and dispatches each token against the value queue.
//!
//! The context performs no reading or writing of its own: an input token
//! either takes a pre-seeded argument or asks the host for a line, and an
//! output token hands the host the rendered value. A host — batch runner
//! or interactive loop alike — drives the very same machine by resuming
//! it step by step.

use crate::error::Error;
use crate::error::ParseError;
use crate::func;
use crate::func::check_value;
use crate::func::concat_all;
use crate::func::map_chars;
use crate::func::check_chars;
use crate::func::split_spec;
use crate::parse::lemma_next_token_consumes;
use crate::parse::spec_next_token;
use crate::parse::Scan;
use crate::gen::Gen;
use crate::gen::GenState;
use crate::range::bound_abs;
use crate::range::valid_repr;
use crate::range::RangeError;
use crate::range::IndexError;
use crate::token::CheckToken;
use crate::token::Token;
use crate::token::TokenView;
use crate::value::value_like;
use crate::value::Kind;
use crate::value::Value;
use std::collections::VecDeque;
use vstd::prelude::*;
use vstd::string::*;

verus! {

/// The queue rotated left by the given count: positions past the length
/// wrap around.
pub open spec fn rotate_spec(q: Seq<Value>, k: nat) -> Seq<Value> {
    if q.len() == 0 {
        q
    } else {
        let m = (k as int) % (q.len() as int);
        q.skip(m) + q.take(m)
    }
}

/// An argument-kind mismatch naming the two collection kinds.
pub open spec fn coll_mismatch(err: Option<Error>, given: Kind) -> bool {
    &&& err matches Some(Error::ArgMismatch(e))
    &&& e.expected@ == seq![Kind::String, Kind::StringVec]
    &&& e.given == given
}

/// The transition one executed opcode makes on the queue: which values it
/// pops and pushes, what it outputs, or the error that ends the run. The
/// input opcode is not covered here: it is dispatched by the context
/// itself, which supplies the input value.
pub open spec fn token_step(
    tok: TokenView,
    q0: Seq<Value>,
    q1: Seq<Value>,
    out: Option<Seq<char>>,
    err: Option<Error>,
) -> bool {
    match tok {
        TokenView::In => false,
        TokenView::Out => {
            if q0.len() >= 1 {
                &&& q1 == q0.skip(1)
                &&& out == Some(q0[0].render_view())
                &&& err is None
            } else {
                &&& q1 == q0
                &&& out is None
                &&& err == Some(Error::QueueTooShort(1, 0))
            }
        },
        TokenView::Rotate(k) => {
            &&& q1 == rotate_spec(q0, k as nat)
            &&& out is None
            &&& err is None
        },
        TokenView::Copy => {
            if q0.len() >= 1 {
                &&& q1 == q0.skip(1).push(q0[0]).push(q1.last())
                &&& value_like(q0[0], q1.last())
                &&& out is None
                &&& err is None
            } else {
                &&& q1 == q0
                &&& out is None
                &&& err == Some(Error::QueueTooShort(1, 0))
            }
        },
        TokenView::Split(d) => {
            if q0.len() < 1 {
                &&& q1 == q0
                &&& out is None
                &&& err == Some(Error::QueueTooShort(1, 0))
            } else {
                match q0[0] {
                    Value::String(s) => {
                        &&& q1 == q0.skip(1).push(q1.last())
                        &&& (q1.last() matches Value::StringVec(v) && v@.map_values(
                            |x: String| x@,
                        ) == split_spec(s@, d))
                        &&& out is None
                        &&& err is None
                    },
                    _ => {
                        &&& q1 == q0.skip(1)
                        &&& out is None
                        &&& (err matches Some(Error::ArgMismatch(e)) && e.expected@ == seq![
                            Kind::String,
                        ] && e.given == q0[0].kind_view())
                    },
                }
            }
        },
        TokenView::Join => {
            if q0.len() < 1 {
                &&& q1 == q0
                &&& out is None
                &&& err == Some(Error::QueueTooShort(1, 0))
            } else {
                match q0[0] {
                    Value::StringVec(v) => {
                        &&& q1 == q0.skip(1).push(q1.last())
                        &&& (q1.last() matches Value::String(s) && s@ == concat_all(
                            v@.map_values(|x: String| x@),
                        ))
                        &&& out is None
                        &&& err is None
                    },
                    _ => {
                        &&& q1 == q0.skip(1)
                        &&& out is None
                        &&& (err matches Some(Error::ArgMismatch(e)) && e.expected@ == seq![
                            Kind::StringVec,
                        ] && e.given == q0[0].kind_view())
                    },
                }
            }
        },
        TokenView::Concat => {
            if q0.len() < 2 {
                &&& q1 == q0
                &&& out is None
                &&& err == Some(Error::QueueTooShort(2, q0.len() as usize))
            } else {
                match (q0[0], q0[1]) {
                    (Value::String(a), Value::String(b)) => {
                        &&& q1 == q0.skip(2).push(q1.last())
                        &&& (q1.last() matches Value::String(s) && s@ == a@ + b@)
                        &&& out is None
                        &&& err is None
                    },
                    (Value::StringVec(a), Value::StringVec(b)) => {
                        &&& q1 == q0.skip(2).push(q1.last())
                        &&& (q1.last() matches Value::StringVec(w) && w@ == a@ + b@)
                        &&& out is None
                        &&& err is None
                    },
                    (x, Value::Bool(_)) => {
                        &&& q1 == q0.skip(2)
                        &&& out is None
                        &&& coll_mismatch(err, x.kind_view())
                    },
                    (Value::Bool(_), x) => {
                        &&& q1 == q0.skip(2)
                        &&& out is None
                        &&& coll_mismatch(err, x.kind_view())
                    },
                    (x, y) => {
                        &&& q1 == q0.skip(2)
                        &&& out is None
                        &&& err == Some(Error::Mismatch(x.kind_view(), y.kind_view()))
                    },
                }
            }
        },
        TokenView::IsVowel => pred_step(CheckToken::Vowel, q0, q1, out, err),
        TokenView::IsConso => pred_step(CheckToken::Conso, q0, q1, out, err),
        TokenView::IsUpper => pred_step(CheckToken::Upper, q0, q1, out, err),
        TokenView::IsLower => pred_step(CheckToken::Lower, q0, q1, out, err),
        TokenView::Mapping(kind) => {
            if q0.len() < 1 {
                &&& q1 == q0
                &&& out is None
                &&& err == Some(Error::QueueTooShort(1, 0))
            } else {
                match q0[0] {
                    Value::String(s) => {
                        &&& q1 == q0.skip(1).push(q1.last())
                        &&& (q1.last() matches Value::String(t) && t@ == map_chars(kind, s@))
                        &&& out is None
                        &&& err is None
                    },
                    Value::StringVec(v) => {
                        &&& q1 == q0.skip(1).push(q1.last())
                        &&& (q1.last() matches Value::StringVec(w) && w@.len() == v@.len()
                            && (forall|i: int|
                            0 <= i < v@.len() ==> #[trigger] w@[i]@ == map_chars(kind, v@[i]@)))
                        &&& out is None
                        &&& err is None
                    },
                    _ => {
                        &&& q1 == q0.skip(1)
                        &&& out is None
                        &&& coll_mismatch(err, q0[0].kind_view())
                    },
                }
            }
        },
        TokenView::Filter(check) => {
            if q0.len() < 1 {
                &&& q1 == q0
                &&& out is None
                &&& err == Some(Error::QueueTooShort(1, 0))
            } else {
                match q0[0] {
                    Value::String(s) => {
                        &&& q1 == q0.skip(1).push(q1.last())
                        &&& (q1.last() matches Value::String(t) && t@ == s@.filter(
                            |c: char| func::check_char(check, c),
                        ))
                        &&& out is None
                        &&& err is None
                    },
                    Value::StringVec(v) => {
                        &&& q1 == q0.skip(1).push(q1.last())
                        &&& (q1.last() matches Value::StringVec(w) && w@ == v@.filter(
                            |x: String| check_chars(check, x@),
                        ))
                        &&& out is None
                        &&& err is None
                    },
                    _ => {
                        &&& q1 == q0.skip(1)
                        &&& out is None
                        &&& coll_mismatch(err, q0[0].kind_view())
                    },
                }
            }
        },
        TokenView::Slice(range) => {
            if q0.len() < 1 {
                &&& q1 == q0
                &&& out is None
                &&& err == Some(Error::QueueTooShort(1, 0))
            } else {
                match q0[0] {
                    Value::Bool(_) => {
                        &&& q1 == q0.skip(1)
                        &&& out is None
                        &&& coll_mismatch(err, Kind::Bool)
                    },
                    _ => {
                        let len = (match q0[0] {
                            Value::String(s) => s@.len(),
                            Value::StringVec(v) => v@.len(),
                            Value::Bool(_) => 0,
                        });
                        if !range.bounds_valid(len) {
                            &&& q1 == q0.skip(1)
                            &&& out is None
                            &&& err == Some(
                                Error::Range(
                                    RangeError::OutOfTargetRange(
                                        range,
                                        range.translated(len),
                                        valid_repr(len),
                                    ),
                                ),
                            )
                        } else if range.start_abs(len) > range.end_abs(len) {
                            &&& q1 == q0.skip(1)
                            &&& out is None
                            &&& err == Some(
                                Error::Range(
                                    RangeError::IncompatibleBounds(
                                        range.translated(len),
                                        valid_repr(len),
                                    ),
                                ),
                            )
                        } else {
                            &&& q1 == q0.skip(1).push(q1.last())
                            &&& (match q0[0] {
                                Value::String(s) => q1.last() matches Value::String(t) && t@
                                    == s@.subrange(range.start_abs(len), range.end_abs(len)),
                                Value::StringVec(v) => q1.last() matches Value::StringVec(w)
                                    && w@ == v@.subrange(
                                    range.start_abs(len),
                                    range.end_abs(len),
                                ),
                                Value::Bool(_) => false,
                            })
                            &&& out is None
                            &&& err is None
                        }
                    },
                }
            }
        },
        TokenView::Index(b) => {
            if q0.len() < 1 {
                &&& q1 == q0
                &&& out is None
                &&& err == Some(Error::QueueTooShort(1, 0))
            } else {
                match q0[0] {
                    Value::Bool(_) => {
                        &&& q1 == q0.skip(1)
                        &&& out is None
                        &&& coll_mismatch(err, Kind::Bool)
                    },
                    _ => {
                        let len = (match q0[0] {
                            Value::String(s) => s@.len(),
                            Value::StringVec(v) => v@.len(),
                            Value::Bool(_) => 0,
                        });
                        let abs = bound_abs(b, len);
                        if !(0 <= abs < len) {
                            &&& q1 == q0.skip(1)
                            &&& out is None
                            &&& err == Some(
                                Error::Index(IndexError::OutOfTargetRange(b, len as usize)),
                            )
                        } else {
                            &&& q1 == q0.skip(1).push(q1.last())
                            &&& (match q0[0] {
                                Value::String(s) => q1.last() matches Value::String(t) && t@
                                    == seq![s@[abs]],
                                Value::StringVec(v) => q1.last() matches Value::String(t) && t@
                                    == v@[abs]@,
                                Value::Bool(_) => false,
                            })
                            &&& out is None
                            &&& err is None
                        }
                    },
                }
            }
        },
    }
}

/// The queue transition of a predicate opcode: it pops one value and
/// pushes whether every element passed the check.
pub open spec fn pred_step(
    check: CheckToken,
    q0: Seq<Value>,
    q1: Seq<Value>,
    out: Option<Seq<char>>,
    err: Option<Error>,
) -> bool {
    if q0.len() < 1 {
        &&& q1 == q0
        &&& out is None
        &&& err == Some(Error::QueueTooShort(1, 0))
    } else {
        match q0[0] {
            Value::Bool(_) => {
                &&& q1 == q0.skip(1)
                &&& out is None
                &&& coll_mismatch(err, Kind::Bool)
            },
            _ => {
                &&& q1 == q0.skip(1).push(Value::Bool(check_value(check, q0[0])))
                &&& out is None
                &&& err is None
            },
        }
    }
}

/// What dispatching one opcode against the queue came to.
enum Dispatched {
    /// The opcode was executed.
    Done,
    /// The opcode was executed and produced this output.
    Output(String),
    /// The opcode failed with this error.
    Failed(Error),
}

/// Executes one opcode (any but the input opcode) against the queue.
fn dispatch(values: &mut VecDeque<Value>, tok: Token) -> (r: Dispatched)
    requires
        !(tok is In),
    ensures
        (match r {
            Dispatched::Done => token_step(tok@, old(values)@, final(values)@, None, None),
            Dispatched::Output(s) => token_step(
                tok@,
                old(values)@,
                final(values)@,
                Some(s@),
                None,
            ),
            Dispatched::Failed(e) => token_step(
                tok@,
                old(values)@,
                final(values)@,
                None,
                Some(e),
            ),
        }),
{
    let ghost q0 = values@;
    match tok {
        Token::In => {
            proof {
                assert(false);
            }
            Dispatched::Done
        },
        Token::Out => {
            match values.pop_front() {
                Some(val) => {
                    let rendered = val.render();
                    Dispatched::Output(rendered)
                },
                None => Dispatched::Failed(Error::QueueTooShort(1, 0)),
            }
        },
        Token::Rotate(k) => {
            let len = values.len();
            if len > 0 {
                let m = k % len;
                let mut c: usize = 0;
                while c < m
                    invariant
                        c <= m,
                        m < q0.len(),
                        values@.len() == q0.len(),
                        values@ =~= q0.skip(c as int) + q0.take(c as int),
                    decreases m - c,
                {
                    let ghost qc = values@;
                    match values.pop_front() {
                        Some(front) => {
                            values.push_back(front);
                            proof {
                                assert(values@ =~= qc.skip(1).push(qc[0]));
                                assert(values@ =~= q0.skip(c + 1) + q0.take(c + 1));
                            }
                        },
                        None => {},
                    }
                    c = c + 1;
                }
                proof {
                    assert(values@ =~= rotate_spec(q0, k as nat));
                }
            } else {
                proof {
                    assert(values@ =~= rotate_spec(q0, k as nat));
                }
            }
            Dispatched::Done
        },
        Token::Copy => {
            match values.pop_front() {
                Some(val) => {
                    let copy = val.duplicate();
                    values.push_back(val);
                    values.push_back(copy);
                    Dispatched::Done
                },
                None => Dispatched::Failed(Error::QueueTooShort(1, 0)),
            }
        },
        Token::Split(delim) => {
            match values.pop_front() {
                Some(val) => {
                    let d = match &delim {
                        Some(inner) => Some(inner.as_str()),
                        None => None,
                    };
                    match func::split(val, d) {
                        Ok(ret) => {
                            values.push_back(ret);
                            Dispatched::Done
                        },
                        Err(e) => Dispatched::Failed(e),
                    }
                },
                None => Dispatched::Failed(Error::QueueTooShort(1, 0)),
            }
        },
        Token::Join => {
            match values.pop_front() {
                Some(val) => {
                    match func::join(val) {
                        Ok(ret) => {
                            values.push_back(ret);
                            Dispatched::Done
                        },
                        Err(e) => Dispatched::Failed(e),
                    }
                },
                None => Dispatched::Failed(Error::QueueTooShort(1, 0)),
            }
        },
        Token::Concat => {
            let len = values.len();
            if len < 2 {
                Dispatched::Failed(Error::QueueTooShort(2, len))
            } else {
                let val1 = match values.pop_front() {
                    Some(v) => v,
                    None => {
                        return Dispatched::Failed(Error::QueueTooShort(2, 0));
                    },
                };
                let val2 = match values.pop_front() {
                    Some(v) => v,
                    None => {
                        return Dispatched::Failed(Error::QueueTooShort(2, 1));
                    },
                };
                proof {
                    assert(values@ =~= q0.skip(2));
                }
                match func::concat(val1, val2) {
                    Ok(ret) => {
                        values.push_back(ret);
                        Dispatched::Done
                    },
                    Err(e) => Dispatched::Failed(e),
                }
            }
        },
        Token::IsVowel => dispatch_check(values, CheckToken::Vowel),
        Token::IsConso => dispatch_check(values, CheckToken::Conso),
        Token::IsUpper => dispatch_check(values, CheckToken::Upper),
        Token::IsLower => dispatch_check(values, CheckToken::Lower),
        Token::Mapping(kind) => {
            match values.pop_front() {
                Some(val) => {
                    match func::map(val, kind) {
                        Ok(ret) => {
                            values.push_back(ret);
                            Dispatched::Done
                        },
                        Err(e) => Dispatched::Failed(e),
                    }
                },
                None => Dispatched::Failed(Error::QueueTooShort(1, 0)),
            }
        },
        Token::Filter(check) => {
            match values.pop_front() {
                Some(val) => {
                    match func::filter(val, check) {
                        Ok(ret) => {
                            values.push_back(ret);
                            Dispatched::Done
                        },
                        Err(e) => Dispatched::Failed(e),
                    }
                },
                None => Dispatched::Failed(Error::QueueTooShort(1, 0)),
            }
        },
        Token::Slice(range) => {
            match values.pop_front() {
                Some(val) => {
                    match func::slice(val, range) {
                        Ok(ret) => {
                            values.push_back(ret);
                            Dispatched::Done
                        },
                        Err(e) => Dispatched::Failed(e),
                    }
                },
                None => Dispatched::Failed(Error::QueueTooShort(1, 0)),
            }
        },
        Token::Index(b) => {
            match values.pop_front() {
                Some(val) => {
                    match func::index(val, b) {
                        Ok(ret) => {
                            values.push_back(ret);
                            Dispatched::Done
                        },
                        Err(e) => Dispatched::Failed(e),
                    }
                },
                None => Dispatched::Failed(Error::QueueTooShort(1, 0)),
            }
        },
    }
}

/// Executes one predicate opcode against the queue.
fn dispatch_check(values: &mut VecDeque<Value>, check: CheckToken) -> (r: Dispatched)
    ensures
        (match r {
            Dispatched::Done => pred_step(check, old(values)@, final(values)@, None, None),
            Dispatched::Output(s) => pred_step(check, old(values)@, final(values)@, Some(s@), None),
            Dispatched::Failed(e) => pred_step(check, old(values)@, final(values)@, None, Some(e)),
        }),
{
    match values.pop_front() {
        Some(val) => {
            match func::check_all(val, check) {
                Ok(ret) => {
                    values.push_back(ret);
                    Dispatched::Done
                },
                Err(e) => Dispatched::Failed(e),
            }
        },
        None => Dispatched::Failed(Error::QueueTooShort(1, 0)),
    }
}


/// One step's outcome, handed back to the host.
#[derive(Debug)]
pub enum Step {
    /// The token was executed; the host may resume again.
    Yielded,
    /// The token was executed and produced this output; the host should
    /// write it and may resume again.
    Output(String),
    /// An input token needs a value: the host should read one and feed it
    /// in before resuming again.
    AwaitInput,
    /// The program completed, cleanly or with the error that ended it.
    Completed(Result<(), Error>),
}

/// The execution context for one program, over any token generator.
///
/// It owns the value queue, tracks the span of the token last yielded,
/// consumes pre-seeded arguments back-to-front on input tokens, and
/// hands every read and write to the host.
pub struct Context<'p, G> {
    /// The span of the token last yielded: its start offset and length in
    /// characters of the program text.
    current_token: (usize, usize),
    /// The program text.
    input: &'p str,
    /// The token generator.
    gen: G,
    /// The pre-seeded inputs, consumed back to front, if any were given.
    args: Option<Vec<String>>,
    /// The value queue.
    values: VecDeque<Value>,
    /// Whether this context is driven interactively.
    is_repl: bool,
    /// An input token waits for the host to feed a value.
    pending_in: bool,
    /// The program completed.
    finished: bool,
}

impl<'p, G: Gen<'p>> Context<'p, G> {
    /// The program text.
    pub closed spec fn program_view(&self) -> Seq<char> {
        self.input@
    }

    /// The values on the queue, front first.
    pub closed spec fn queue_view(&self) -> Seq<Value> {
        self.values@
    }

    /// The pre-seeded arguments still left, if any were given.
    pub closed spec fn args_view(&self) -> Option<Seq<String>> {
        match self.args {
            Some(v) => Some(v@),
            None => None,
        }
    }

    /// How many characters of the program are consumed.
    pub closed spec fn position(&self) -> nat {
        self.gen.position()
    }

    /// The span of the token last yielded: start offset and length.
    pub closed spec fn span(&self) -> (nat, nat) {
        (self.current_token.0 as nat, self.current_token.1 as nat)
    }

    /// An input token waits for the host to feed a value.
    pub closed spec fn pending(&self) -> bool {
        self.pending_in
    }

    /// The program completed.
    pub closed spec fn finished(&self) -> bool {
        self.finished
    }

    /// Whether this context is driven interactively.
    pub closed spec fn repl_view(&self) -> bool {
        self.is_repl
    }

    /// The context's internal consistency.
    pub closed spec fn wf(&self) -> bool {
        &&& self.gen.wf()
        &&& self.gen.program_view() == self.input@
        &&& self.input@.len() <= usize::MAX
        &&& self.gen.position() <= self.input@.len()
        &&& (!self.finished ==> !self.gen.completed())
        &&& self.current_token.0 + self.current_token.1 == self.gen.position()
        &&& !(self.pending_in && self.finished)
    }

    /// Creates a new context over the given program text, token
    /// generator, optional pre-seeded inputs and starting queue.
    pub fn new(
        input: &'p str,
        gen: G,
        args: Option<Vec<String>>,
        values: VecDeque<Value>,
        is_repl: bool,
    ) -> (r: Self)
        requires
            gen.wf(),
            gen.program_view() == input@,
            gen.position() == 0,
            !gen.completed(),
        ensures
            r.wf(),
            r.program_view() == input@,
            r.queue_view() == values@,
            r.args_view() == (match args {
                Some(v) => Some(v@),
                None => None::<Seq<String>>,
            }),
            !r.pending(),
            !r.finished(),
            r.position() == 0,
            r.span() == (0nat, 0nat),
            r.repl_view() == is_repl,
    {
        let n = input.unicode_len();
        Self {
            current_token: (0, 0),
            input,
            gen,
            args,
            values,
            is_repl,
            pending_in: false,
            finished: false,
        }
    }

    /// The values on the queue, front first.
    pub fn values(&self) -> (r: &VecDeque<Value>)
        ensures
            r@ == self.queue_view(),
    {
        &self.values
    }

    /// Consumes this context and hands its queue back.
    pub fn into_values(self) -> (r: VecDeque<Value>)
        ensures
            r@ == self.queue_view(),
    {
        self.values
    }

    /// Whether this context is driven interactively.
    pub fn is_repl(&self) -> (r: bool)
        ensures
            r == self.repl_view(),
    {
        self.is_repl
    }

    /// The program text with the span of the token last yielded set off
    /// in quotes, for diagnostics.
    pub fn context_string(&self) -> (r: String)
        requires
            self.wf(),
        ensures
            r@ == self.program_view().take(self.span().0 as int) + seq!['\''] + self.program_view()
                .subrange(self.span().0 as int, (self.span().0 + self.span().1) as int) + seq!['\'']
                + self.program_view().skip((self.span().0 + self.span().1) as int),
    {
        let n = self.input.unicode_len();
        let start = self.current_token.0;
        let end = self.current_token.0 + self.current_token.1;
        let mut out = String::from_str(self.input.substring_char(0, start));
        out.push('\'');
        out.append(self.input.substring_char(start, end));
        out.push('\'');
        out.append(self.input.substring_char(end, n));
        proof {
            assert(out@ =~= self.program_view().take(self.span().0 as int) + seq!['\'']
                + self.program_view().subrange(
                self.span().0 as int,
                (self.span().0 + self.span().1) as int,
            ) + seq!['\''] + self.program_view().skip((self.span().0 + self.span().1) as int));
        }
        out
    }

    /// Feeds the host's input value to a waiting input token. The value
    /// is accepted — pushed on the back of the queue — exactly when one
    /// is awaited.
    pub fn feed_input(&mut self, val: String) -> (accepted: bool)
        requires
            old(self).wf(),
        ensures
            final(self).wf(),
            final(self).program_view() == old(self).program_view(),
            final(self).args_view() == old(self).args_view(),
            final(self).finished() == old(self).finished(),
            final(self).position() == old(self).position(),
            final(self).span() == old(self).span(),
            old(self).pending() ==> {
                &&& accepted
                &&& final(self).queue_view() == old(self).queue_view().push(Value::String(val))
                &&& !final(self).pending()
            },
            !old(self).pending() ==> {
                &&& !accepted
                &&& final(self).queue_view() == old(self).queue_view()
                &&& !final(self).pending()
            },
    {
        if self.pending_in {
            self.values.push_back(Value::String(val));
            self.pending_in = false;
            true
        } else {
            false
        }
    }

    /// Performs one step: resumes the token generator and dispatches the
    /// token it yields.
    ///
    /// The program's end, or a parse error, completes the run with the
    /// queue untouched. An input token takes the last pre-seeded argument
    /// when one is left and otherwise asks the host for a value. Every
    /// other token steps the queue as `token_step` states, and the first
    /// error completes the run. The span is set to the yielded token.
    pub fn resume(&mut self) -> (r: Step)
        requires
            old(self).wf(),
            !old(self).finished(),
            !old(self).pending(),
        ensures
            final(self).wf(),
            final(self).program_view() == old(self).program_view(),
            final(self).repl_view() == old(self).repl_view(),
            (match spec_next_token(
                old(self).program_view().skip(old(self).position() as int),
            ) {
                Scan::Empty => {
                    &&& r matches Step::Completed(res) && res == Ok::<(), Error>(())
                    &&& final(self).finished()
                    &&& final(self).queue_view() == old(self).queue_view()
                    &&& final(self).args_view() == old(self).args_view()
                    &&& final(self).span() == old(self).span()
                },
                Scan::Unknown(u) => {
                    &&& (r matches Step::Completed(res) && res matches Err(Error::Parse(
                        ParseError::Unknown(m),
                    )) && m@ == u)
                    &&& final(self).finished()
                    &&& final(self).queue_view() == old(self).queue_view()
                    &&& final(self).args_view() == old(self).args_view()
                    &&& final(self).span() == old(self).span()
                },
                Scan::Tok(tv, n) => {
                    &&& final(self).span() == (old(self).position(), n)
                    &&& final(self).position() == old(self).position() + n
                    &&& (match tv {
                        TokenView::In => (match old(self).args_view() {
                            Some(a) => {
                                if a.len() > 0 {
                                    &&& r matches Step::Yielded
                                    &&& final(self).queue_view() == old(self).queue_view().push(
                                        Value::String(a.last()),
                                    )
                                    &&& final(self).args_view() == Some(a.drop_last())
                                    &&& !final(self).pending()
                                    &&& !final(self).finished()
                                } else {
                                    &&& r matches Step::AwaitInput
                                    &&& final(self).queue_view() == old(self).queue_view()
                                    &&& final(self).args_view() == old(self).args_view()
                                    &&& final(self).pending()
                                    &&& !final(self).finished()
                                }
                            },
                            None => {
                                &&& r matches Step::AwaitInput
                                &&& final(self).queue_view() == old(self).queue_view()
                                &&& final(self).args_view() == old(self).args_view()
                                &&& final(self).pending()
                                &&& !final(self).finished()
                            },
                        }),
                        _ => {
                            &&& final(self).args_view() == old(self).args_view()
                            &&& !final(self).pending()
                            &&& (match r {
                                Step::Yielded => token_step(
                                    tv,
                                    old(self).queue_view(),
                                    final(self).queue_view(),
                                    None,
                                    None,
                                ) && !final(self).finished(),
                                Step::Output(s) => token_step(
                                    tv,
                                    old(self).queue_view(),
                                    final(self).queue_view(),
                                    Some(s@),
                                    None,
                                ) && !final(self).finished(),
                                Step::Completed(res) => (res matches Err(e) && token_step(
                                    tv,
                                    old(self).queue_view(),
                                    final(self).queue_view(),
                                    None,
                                    Some(e),
                                )) && final(self).finished(),
                                Step::AwaitInput => false,
                            })
                        },
                    })
                },
            }),
    {
        let ghost tail = self.input@.skip(self.gen.position() as int);
        proof {
            lemma_next_token_consumes(tail);
        }
        match self.gen.resume() {
            GenState::Completed(res) => {
                self.finished = true;
                match res {
                    Ok(()) => Step::Completed(Ok(())),
                    Err(e) => Step::Completed(Err(Error::Parse(e))),
                }
            },
            GenState::Yielded(tok, len) => {
                self.current_token = (self.current_token.0 + self.current_token.1, len);
                match tok {
                    Token::In => {
                        let took: Option<String> = match &mut self.args {
                            Some(vec) => vec.pop(),
                            None => None,
                        };
                        match took {
                            Some(val) => {
                                self.values.push_back(Value::String(val));
                                Step::Yielded
                            },
                            None => {
                                self.pending_in = true;
                                Step::AwaitInput
                            },
                        }
                    },
                    other => {
                        match dispatch(&mut self.values, other) {
                            Dispatched::Done => Step::Yielded,
                            Dispatched::Output(s) => Step::Output(s),
                            Dispatched::Failed(e) => {
                                self.finished = true;
                                Step::Completed(Err(e))
                            },
                        }
                    },
                }
            },
        }
    }
}

} // verus!
