//! The runtime-tagged value type of the language.
//!
//! A value is a string, a list of strings, or a boolean; `kind` returns the
//! discriminant, and the checked unwrap operations either return the inner
//! data or report which kinds would have been accepted.

use crate::display::join_with;
use crate::error::ArgMismatchError;
use crate::error::Error;
use vstd::prelude::*;
use vstd::string::*;

verus! {

/// The kind of a value: its discriminant.
#[derive(Debug, PartialEq, Eq, Clone, Copy, Structural)]
pub enum Kind {
    /// A string.
    String,
    /// A list of strings.
    StringVec,
    /// A boolean.
    Bool,
}

/// A value accepted or returned by the language's functions.
#[derive(Debug, PartialEq, Eq, Clone)]
pub enum Value {
    /// A string.
    String(String),
    /// A list of strings.
    StringVec(Vec<String>),
    /// A boolean.
    Bool(bool),
}

/// The characters of the rendered form of a boolean.
pub open spec fn bool_chars(b: bool) -> Seq<char> {
    if b {
        "true"@
    } else {
        "false"@
    }
}

/// The per-character expansion used when rendering a string in its quoted
/// form: quotes and backslashes get a leading backslash.
pub open spec fn escape_char(c: char) -> Seq<char> {
    if c == '"' || c == '\\' {
        seq!['\\', c]
    } else {
        seq![c]
    }
}

/// The whole escaped form of a string's characters.
pub open spec fn escape_seq(s: Seq<char>) -> Seq<char>
    decreases s.len(),
{
    if s.len() == 0 {
        Seq::<char>::empty()
    } else {
        escape_seq(s.drop_last()) + escape_char(s.last())
    }
}

/// The quoted form of a string's characters.
pub open spec fn quoted_chars(s: Seq<char>) -> Seq<char> {
    seq!['"'] + escape_seq(s) + seq!['"']
}

impl Value {
    /// The discriminant this value carries.
    pub open spec fn kind_view(&self) -> Kind {
        match *self {
            Value::String(_) => Kind::String,
            Value::StringVec(_) => Kind::StringVec,
            Value::Bool(_) => Kind::Bool,
        }
    }

    /// The characters of this value's plain rendering: a string renders
    /// raw, a list renders bracketed and comma-joined, a boolean renders as
    /// `true` or `false`.
    pub open spec fn render_view(&self) -> Seq<char> {
        match *self {
            Value::String(s) => s@,
            Value::StringVec(v) => seq!['['] + join_with(
                v@.map_values(|s: String| s@),
                ", "@,
            ) + seq![']'],
            Value::Bool(b) => bool_chars(b),
        }
    }

    /// The characters of this value's quoted rendering, as shown in queue
    /// dumps: a string renders quoted, a list renders bracketed with each
    /// element quoted, a boolean renders as `true` or `false`.
    pub open spec fn render_debug_view(&self) -> Seq<char> {
        match *self {
            Value::String(s) => quoted_chars(s@),
            Value::StringVec(v) => seq!['['] + join_with(
                v@.map_values(|s: String| quoted_chars(s@)),
                ", "@,
            ) + seq![']'],
            Value::Bool(b) => bool_chars(b),
        }
    }

    /// Returns the kind of this value.
    pub fn kind(&self) -> (r: Kind)
        ensures
            r == self.kind_view(),
    {
        match *self {
            Value::String(_) => Kind::String,
            Value::StringVec(_) => Kind::StringVec,
            Value::Bool(_) => Kind::Bool,
        }
    }

    /// Unwraps a string, or reports that a string was expected.
    pub fn unwrap_string(self) -> (r: Result<String, Error>)
        ensures
            (match self {
                Value::String(s) => r == Ok::<String, Error>(s),
                _ => {
                    &&& r matches Err(Error::ArgMismatch(e))
                    &&& e.expected@ == seq![Kind::String]
                    &&& e.given == self.kind_view()
                },
            }),
    {
        match self {
            Value::String(inner) => Ok(inner),
            x => {
                let k = x.kind();
                Err(Error::ArgMismatch(ArgMismatchError::new(vec![Kind::String], k)))
            },
        }
    }

    /// Unwraps a string list, or reports that a string list was expected.
    pub fn unwrap_string_vec(self) -> (r: Result<Vec<String>, Error>)
        ensures
            (match self {
                Value::StringVec(v) => r == Ok::<Vec<String>, Error>(v),
                _ => {
                    &&& r matches Err(Error::ArgMismatch(e))
                    &&& e.expected@ == seq![Kind::StringVec]
                    &&& e.given == self.kind_view()
                },
            }),
    {
        match self {
            Value::StringVec(inner) => Ok(inner),
            x => {
                let k = x.kind();
                Err(Error::ArgMismatch(ArgMismatchError::new(vec![Kind::StringVec], k)))
            },
        }
    }

    /// Unwraps a boolean, or reports that a boolean was expected.
    pub fn unwrap_bool(self) -> (r: Result<bool, Error>)
        ensures
            (match self {
                Value::Bool(b) => r == Ok::<bool, Error>(b),
                _ => {
                    &&& r matches Err(Error::ArgMismatch(e))
                    &&& e.expected@ == seq![Kind::Bool]
                    &&& e.given == self.kind_view()
                },
            }),
    {
        match self {
            Value::Bool(inner) => Ok(inner),
            x => {
                let k = x.kind();
                Err(Error::ArgMismatch(ArgMismatchError::new(vec![Kind::Bool], k)))
            },
        }
    }

    /// Unwraps the length of a string (its character count) or of a string
    /// list (its element count), or reports that one of the two was
    /// expected.
    pub fn unwrap_len(&self) -> (r: Result<usize, Error>)
        ensures
            (match *self {
                Value::String(s) => r matches Ok(l) && l as nat == s@.len(),
                Value::StringVec(v) => r matches Ok(l) && l as nat == v@.len(),
                _ => {
                    &&& r matches Err(Error::ArgMismatch(e))
                    &&& e.expected@ == seq![Kind::String, Kind::StringVec]
                    &&& e.given == self.kind_view()
                },
            }),
    {
        match self {
            Value::String(inner) => Ok(inner.as_str().unicode_len()),
            Value::StringVec(inner) => Ok(inner.len()),
            x => {
                let k = x.kind();
                Err(
                    Error::ArgMismatch(
                        ArgMismatchError::new(vec![Kind::String, Kind::StringVec], k),
                    ),
                )
            },
        }
    }

    /// Clones this value; the copy is of the same kind and holds the same
    /// contents.
    pub fn duplicate(&self) -> (r: Value)
        ensures
            value_like(*self, r),
    {
        match self {
            Value::String(inner) => Value::String(inner.clone()),
            Value::StringVec(inner) => {
                let copy = inner.clone();
                proof {
                    assert(copy@ =~= inner@);
                }
                Value::StringVec(copy)
            },
            Value::Bool(inner) => Value::Bool(*inner),
        }
    }

    /// Renders this value plainly: a string renders raw, a list renders
    /// bracketed and comma-joined, a boolean renders as `true` or `false`.
    pub fn render(&self) -> (r: String)
        ensures
            r@ == self.render_view(),
    {
        match self {
            Value::String(inner) => inner.clone(),
            Value::StringVec(inner) => crate::display::fmt_iter(inner),
            Value::Bool(inner) => {
                if *inner {
                    String::from_str("true")
                } else {
                    String::from_str("false")
                }
            },
        }
    }

    /// Renders this value in its quoted form, as shown in queue dumps.
    pub fn render_debug(&self) -> (r: String)
        ensures
            r@ == self.render_debug_view(),
    {
        match self {
            Value::String(inner) => quote_string(inner),
            Value::StringVec(inner) => {
                let ghost quoted = inner@.map_values(|s: String| quoted_chars(s@));
                let n = inner.len();
                let mut parts: Vec<String> = Vec::new();
                let mut i: usize = 0;
                while i < n
                    invariant
                        i <= n,
                        n == inner@.len(),
                        quoted == inner@.map_values(|s: String| quoted_chars(s@)),
                        parts@.len() == i,
                        forall|j: int| 0 <= j < i ==> #[trigger] parts@[j]@ == quoted[j],
                    decreases n - i,
                {
                    parts.push(quote_string(&inner[i]));
                    i = i + 1;
                }
                let out = crate::display::fmt_iter(&parts);
                proof {
                    assert(parts@.map_values(|s: String| s@) =~= quoted);
                }
                out
            },
            Value::Bool(inner) => {
                if *inner {
                    String::from_str("true")
                } else {
                    String::from_str("false")
                }
            },
        }
    }
}

/// The two values are alike: the same kind with the same contents.
pub open spec fn value_like(a: Value, b: Value) -> bool {
    match (a, b) {
        (Value::String(x), Value::String(y)) => x@ == y@,
        (Value::StringVec(x), Value::StringVec(y)) => x@ == y@,
        (Value::Bool(x), Value::Bool(y)) => x == y,
        _ => false,
    }
}

/// Renders a string in its quoted form: wrapped in quotes, with quotes
/// and backslashes escaped.
fn quote_string(s: &String) -> (r: String)
    ensures
        r@ == quoted_chars(s@),
{
    let n = s.as_str().unicode_len();
    let mut out = String::new();
    out.push('"');
    let mut i: usize = 0;
    proof {
        assert(out@ =~= seq!['"'] + escape_seq(s@.take(0)));
    }
    while i < n
        invariant
            i <= n,
            n == s@.len(),
            out@ == seq!['"'] + escape_seq(s@.take(i as int)),
        decreases n - i,
    {
        let c = s.as_str().get_char(i);
        proof {
            assert(s@.take(i + 1).drop_last() =~= s@.take(i as int));
            assert(s@.take(i + 1).last() == s@[i as int]);
        }
        if c == '"' || c == '\\' {
            out.push('\\');
            out.push(c);
        } else {
            out.push(c);
        }
        proof {
            assert(out@ =~= seq!['"'] + escape_seq(s@.take(i + 1)));
        }
        i = i + 1;
    }
    out.push('"');
    proof {
        assert(s@.take(n as int) =~= s@);
        assert(out@ =~= quoted_chars(s@));
    }
    out
}

} // verus!
