//! The tokenizer: it maps remaining program text to the next token and the
//! exact number of characters it consumed, or to a parse error.
//!
//! The grammar, over ASCII program text:
//! - leading ASCII whitespace is skipped, but counts towards the consumed
//!   length, so that spans stay aligned with the original text;
//! - the single characters `<`, `>`, `.`, `~`, `*`, `v`, `c`, `_`, `^` are
//!   opcodes of their own;
//! - `@` with optional decimal digits is a rotation, whose count defaults
//!   to one when the digits are absent, zero, or too large for a machine
//!   word;
//! - `//` and a lone `/` split into characters; `/"x"/` splits on the
//!   literal `x`, in which `\"` stands for a quote;
//! - `{x}` with `x` one of `_`, `^`, `%` is a map;
//! - `[x]` with `x` one of `v`, `c`, `_`, `^` is a filter;
//! - `|a.b|` with optional signed numerals `a`, `b` is a slice, and `|a|`
//!   is an index; a leading `-` counts from the back, and `-0` stays
//!   distinct from `0`;
//! - empty or whitespace-only text is reported as empty, anything else
//!   unmatched as unknown.

use crate::error::ParseError;
use crate::range::EolinaRange;
use crate::range::EolinaRangeBound;
use crate::token::CheckToken;
use crate::token::MapToken;
use crate::token::Token;
use crate::token::TokenView;
use vstd::prelude::*;
use vstd::string::*;

verus! {

/// The character is ASCII whitespace.
pub open spec fn is_ws_char(c: char) -> bool {
    c == ' ' || c == '\t' || c == '\n' || c == '\r' || c == '\u{c}'
}

/// The character is an ASCII decimal digit.
pub open spec fn is_digit_char(c: char) -> bool {
    '0' <= c && c <= '9'
}

/// The numeric value of a decimal digit.
pub open spec fn digit_val(c: char) -> nat {
    (c as int - '0' as int) as nat
}

/// The number of leading whitespace characters.
pub open spec fn ws_count(s: Seq<char>) -> nat
    decreases s.len(),
{
    if s.len() == 0 || !is_ws_char(s[0]) {
        0
    } else {
        1 + ws_count(s.skip(1))
    }
}

/// The number of leading decimal digits.
pub open spec fn digits_count(s: Seq<char>) -> nat
    decreases s.len(),
{
    if s.len() == 0 || !is_digit_char(s[0]) {
        0
    } else {
        1 + digits_count(s.skip(1))
    }
}

/// The value of a digit string, most significant digit first.
pub open spec fn digits_value(s: Seq<char>) -> nat
    decreases s.len(),
{
    if s.len() == 0 {
        0
    } else {
        digits_value(s.drop_last()) * 10 + digit_val(s.last())
    }
}

/// The rotation count a digit string stands for: the count defaults to one
/// when the digits are absent, zero, or too large for a machine word.
pub open spec fn rotate_count_of(digs: Seq<char>) -> nat {
    if digits_value(digs) == 0 || digits_value(digs) > usize::MAX as nat {
        1
    } else {
        digits_value(digs)
    }
}

/// Scans a quoted literal's tail: the text after the opening quote. When a
/// closing quote is found, yields the literal's characters (with `\"`
/// standing for a quote) and the number of characters consumed, the closing
/// quote included; without a closing quote the scan fails.
pub open spec fn lit_scan(s: Seq<char>) -> Option<(Seq<char>, nat)>
    decreases s.len(),
{
    if s.len() == 0 {
        None
    } else if s[0] == '"' {
        Some((Seq::<char>::empty(), 1 as nat))
    } else if s[0] == '\\' && s.len() >= 2 && s[1] == '"' {
        match lit_scan(s.skip(2)) {
            Some((c, n)) => Some((seq!['"'] + c, (n + 2) as nat)),
            None => None,
        }
    } else {
        match lit_scan(s.skip(1)) {
            Some((c, n)) => Some((seq![s[0]] + c, n + 1)),
            None => None,
        }
    }
}

/// Scans a signed numeral: an optional `-`, then at least one digit. Yields
/// the sign, the digit string, and the number of characters consumed.
pub open spec fn int_scan(s: Seq<char>) -> Option<(bool, Seq<char>, nat)> {
    if s.len() >= 1 && s[0] == '-' {
        let dl = digits_count(s.skip(1));
        if dl == 0 {
            None
        } else {
            Some((true, s.skip(1).take(dl as int), (1 + dl) as nat))
        }
    } else {
        let dl = digits_count(s);
        if dl == 0 {
            None
        } else {
            Some((false, s.take(dl as int), dl))
        }
    }
}

/// The numeral's value fits a signed machine word.
pub open spec fn int_fits(neg: bool, digs: Seq<char>) -> bool {
    if neg {
        digits_value(digs) <= isize::MAX as nat + 1
    } else {
        digits_value(digs) <= isize::MAX as nat
    }
}

/// The bound a numeral stands for: a negative numeral counts from the
/// back, with `-0` kept distinct from `0`.
pub open spec fn numeral_bound(neg: bool, digs: Seq<char>) -> EolinaRangeBound {
    if neg {
        EolinaRangeBound::End(digits_value(digs) as usize)
    } else {
        EolinaRangeBound::Start(digits_value(digs) as usize)
    }
}

/// The slice bound a scanned optional numeral stands for: absent when the
/// numeral is absent or does not fit a signed machine word.
pub open spec fn slice_bound(a: Option<(bool, Seq<char>, nat)>) -> Option<EolinaRangeBound> {
    match a {
        Some((neg, digs, n)) => if int_fits(neg, digs) {
            Some(numeral_bound(neg, digs))
        } else {
            None
        },
        None => None,
    }
}

/// The outcome of scanning for one token.
pub ghost enum Scan {
    /// A token was found; carries its shape and the characters consumed.
    Tok(TokenView, nat),
    /// The text was empty or whitespace only.
    Empty,
    /// Nothing matched; carries the trimmed remaining text.
    Unknown(Seq<char>),
}

/// Scans a rotation: `@` with optional digits.
pub open spec fn scan_rotate(t: Seq<char>) -> Scan {
    let dl = digits_count(t.skip(1));
    Scan::Tok(
        TokenView::Rotate(rotate_count_of(t.skip(1).take(dl as int)) as usize),
        (1 + dl) as nat,
    )
}

/// Scans a split: `//`, `/"x"/` with a quoted literal, or a lone `/`.
pub open spec fn scan_split(t: Seq<char>) -> Scan {
    if t.len() >= 2 && t[1] == '/' {
        Scan::Tok(TokenView::Split(None), 2 as nat)
    } else if t.len() >= 2 && t[1] == '"' {
        match lit_scan(t.skip(2)) {
            Some((content, n)) => if 2 + n < t.len() && t[2 + n as int] == '/' {
                Scan::Tok(TokenView::Split(Some(content)), (3 + n) as nat)
            } else {
                Scan::Tok(TokenView::Split(None), 1 as nat)
            },
            None => Scan::Tok(TokenView::Split(None), 1 as nat),
        }
    } else {
        Scan::Tok(TokenView::Split(None), 1 as nat)
    }
}

/// Scans a map: `{x}` with `x` one of `_`, `^`, `%`.
pub open spec fn scan_map(t: Seq<char>) -> Scan {
    if t.len() >= 3 && t[2] == '}' {
        if t[1] == '_' {
            Scan::Tok(TokenView::Mapping(MapToken::Lower), 3 as nat)
        } else if t[1] == '^' {
            Scan::Tok(TokenView::Mapping(MapToken::Upper), 3 as nat)
        } else if t[1] == '%' {
            Scan::Tok(TokenView::Mapping(MapToken::Swap), 3 as nat)
        } else {
            Scan::Unknown(t)
        }
    } else {
        Scan::Unknown(t)
    }
}

/// Scans a filter: `[x]` with `x` one of `v`, `c`, `_`, `^`.
pub open spec fn scan_filter(t: Seq<char>) -> Scan {
    if t.len() >= 3 && t[2] == ']' {
        if t[1] == 'v' {
            Scan::Tok(TokenView::Filter(CheckToken::Vowel), 3 as nat)
        } else if t[1] == 'c' {
            Scan::Tok(TokenView::Filter(CheckToken::Conso), 3 as nat)
        } else if t[1] == '_' {
            Scan::Tok(TokenView::Filter(CheckToken::Lower), 3 as nat)
        } else if t[1] == '^' {
            Scan::Tok(TokenView::Filter(CheckToken::Upper), 3 as nat)
        } else {
            Scan::Unknown(t)
        }
    } else {
        Scan::Unknown(t)
    }
}

/// Scans a slice `|a.b|` or an index `|a|`.
pub open spec fn scan_pipe(t: Seq<char>) -> Scan {
    let a = int_scan(t.skip(1));
    let pa = match a {
        Some((neg, digs, n)) => 1 + n,
        None => 1 as nat,
    };
    if pa < t.len() && t[pa as int] == '.' {
        let b = int_scan(t.skip(pa as int + 1));
        let pb = match b {
            Some((neg, digs, n)) => pa + 1 + n,
            None => pa + 1,
        };
        if pb < t.len() && t[pb as int] == '|' {
            Scan::Tok(
                TokenView::Slice(EolinaRange { start: slice_bound(a), end: slice_bound(b) }),
                pb + 1,
            )
        } else {
            Scan::Unknown(t)
        }
    } else {
        match a {
            Some((neg, digs, n)) => if 1 + n < t.len() && t[1 + n as int] == '|' {
                if int_fits(neg, digs) {
                    Scan::Tok(TokenView::Index(numeral_bound(neg, digs)), 2 + n)
                } else {
                    Scan::Unknown(t)
                }
            } else {
                Scan::Unknown(t)
            },
            None => Scan::Unknown(t),
        }
    }
}

/// Scans one token at the head of trimmed, nonempty text.
pub open spec fn scan_token(t: Seq<char>) -> Scan {
    if t[0] == '<' {
        Scan::Tok(TokenView::In, 1 as nat)
    } else if t[0] == '>' {
        Scan::Tok(TokenView::Out, 1 as nat)
    } else if t[0] == '.' {
        Scan::Tok(TokenView::Join, 1 as nat)
    } else if t[0] == '~' {
        Scan::Tok(TokenView::Concat, 1 as nat)
    } else if t[0] == '*' {
        Scan::Tok(TokenView::Copy, 1 as nat)
    } else if t[0] == 'v' {
        Scan::Tok(TokenView::IsVowel, 1 as nat)
    } else if t[0] == 'c' {
        Scan::Tok(TokenView::IsConso, 1 as nat)
    } else if t[0] == '_' {
        Scan::Tok(TokenView::IsLower, 1 as nat)
    } else if t[0] == '^' {
        Scan::Tok(TokenView::IsUpper, 1 as nat)
    } else if t[0] == '@' {
        scan_rotate(t)
    } else if t[0] == '/' {
        scan_split(t)
    } else if t[0] == '{' {
        scan_map(t)
    } else if t[0] == '[' {
        scan_filter(t)
    } else if t[0] == '|' {
        scan_pipe(t)
    } else {
        Scan::Unknown(t)
    }
}

/// A prefix of whitespace characters that ends at a non-whitespace
/// character (or at the end) is exactly what `ws_count` counts.
proof fn lemma_ws_count_char(s: Seq<char>, k: int)
    requires
        0 <= k <= s.len(),
        forall|j: int| 0 <= j < k ==> is_ws_char(s[j]),
        k == s.len() || !is_ws_char(s[k]),
    ensures
        ws_count(s) == k,
    decreases s.len(),
{
    if k == 0 {
    } else {
        assert(is_ws_char(s[0]));
        lemma_ws_count_char(s.skip(1), k - 1);
    }
}

/// A prefix of digits that ends at a non-digit (or at the end) is exactly
/// what `digits_count` counts.
proof fn lemma_digits_count_char(s: Seq<char>, k: int)
    requires
        0 <= k <= s.len(),
        forall|j: int| 0 <= j < k ==> is_digit_char(s[j]),
        k == s.len() || !is_digit_char(s[k]),
    ensures
        digits_count(s) == k,
    decreases s.len(),
{
    if k == 0 {
    } else {
        assert(is_digit_char(s[0]));
        lemma_digits_count_char(s.skip(1), k - 1);
    }
}

/// Counts the leading whitespace characters of the text.
fn scan_ws(s: &str) -> (r: usize)
    ensures
        r == ws_count(s@),
        r <= s@.len(),
{
    let n = s.unicode_len();
    let mut i: usize = 0;
    loop
        invariant
            i <= n,
            n == s@.len(),
            forall|j: int| 0 <= j < i ==> is_ws_char(s@[j]),
        ensures
            i <= n,
            i == n || !is_ws_char(s@[i as int]),
            forall|j: int| 0 <= j < i ==> is_ws_char(s@[j]),
        decreases n - i,
    {
        if i == n {
            break;
        }
        let c = s.get_char(i);
        if !(c == ' ' || c == '\t' || c == '\n' || c == '\r' || c == '\u{c}') {
            break;
        }
        i = i + 1;
    }
    proof {
        lemma_ws_count_char(s@, i as int);
    }
    i
}

/// Scans the digits of the text from the given position: how many there
/// are, and their value when it fits a machine word.
fn scan_digits(s: &str, from: usize) -> (r: (usize, Option<usize>))
    requires
        from <= s@.len(),
    ensures
        ({
            let tail = s@.skip(from as int);
            let dl = digits_count(tail);
            &&& r.0 == dl
            &&& from + dl <= s@.len()
            &&& (match r.1 {
                Some(v) => v == digits_value(tail.take(dl as int)),
                None => digits_value(tail.take(dl as int)) > usize::MAX,
            })
        }),
{
    let n = s.unicode_len();
    let ghost tail = s@.skip(from as int);
    let mut i: usize = from;
    let mut acc: Option<usize> = Some(0);
    loop
        invariant
            from <= i <= n,
            n == s@.len(),
            tail == s@.skip(from as int),
            forall|j: int| from <= j < i ==> is_digit_char(s@[j]),
            (match acc {
                Some(v) => v == digits_value(s@.subrange(from as int, i as int)),
                None => digits_value(s@.subrange(from as int, i as int)) > usize::MAX,
            }),
        ensures
            from <= i <= n,
            i == n || !is_digit_char(s@[i as int]),
            forall|j: int| from <= j < i ==> is_digit_char(s@[j]),
            (match acc {
                Some(v) => v == digits_value(s@.subrange(from as int, i as int)),
                None => digits_value(s@.subrange(from as int, i as int)) > usize::MAX,
            }),
        decreases n - i,
    {
        if i == n {
            break;
        }
        let c = s.get_char(i);
        if !('0' <= c && c <= '9') {
            break;
        }
        let d = (c as u8 - 48) as usize;
        let ghost prefix = s@.subrange(from as int, i as int);
        let ghost prefix1 = s@.subrange(from as int, i + 1 as int);
        proof {
            assert(prefix1.drop_last() =~= prefix);
            assert(prefix1.last() == s@[i as int]);
            assert(digits_value(prefix1) == digits_value(prefix) * 10 + digit_val(s@[i as int]));
            assert(digit_val(s@[i as int]) == d);
        }
        acc = match acc {
            Some(v) => {
                match v.checked_mul(10) {
                    Some(m) => m.checked_add(d),
                    None => None,
                }
            },
            None => {
                proof {
                    let dv = digits_value(prefix);
                    assert(dv * 10 >= dv) by (nonlinear_arith)
                        requires
                            dv >= 0,
                    ;
                }
                None
            },
        };
        i = i + 1;
    }
    proof {
        lemma_digits_count_char(tail, i - from);
        assert(tail.take(i - from) =~= s@.subrange(from as int, i as int));
    }
    (i - from, acc)
}

/// Scans a quoted literal's tail from the given position: the text after
/// the opening quote.
fn scan_literal(s: &str, from: usize) -> (r: Option<(String, usize)>)
    requires
        from <= s@.len(),
    ensures
        (match lit_scan(s@.skip(from as int)) {
            Some((content, n)) => {
                &&& r matches Some((lit, m))
                &&& lit@ == content
                &&& m == n
                &&& from + n <= s@.len()
            },
            None => r is None,
        }),
{
    let n = s.unicode_len();
    let mut j: usize = from;
    let mut lit = String::new();
    loop
        invariant
            from <= j <= n,
            n == s@.len(),
            (match lit_scan(s@.skip(j as int)) {
                Some((c2, n2)) => lit_scan(s@.skip(from as int)) == Some::<(Seq<char>, nat)>(
                    (lit@ + c2, ((j - from) + n2) as nat),
                ),
                None => lit_scan(s@.skip(from as int)) is None,
            }),
        decreases n - j,
    {
        if j == n {
            proof {
                assert(s@.skip(j as int).len() == 0);
            }
            return None;
        }
        let c = s.get_char(j);
        if c == '"' {
            proof {
                assert(lit_scan(s@.skip(j as int)) == Some::<(Seq<char>, nat)>(
                    (Seq::<char>::empty(), 1 as nat),
                ));
                assert(lit@ + Seq::<char>::empty() =~= lit@);
            }
            return Some((lit, j - from + 1));
        } else if c == '\\' && j + 1 < n && s.get_char(j + 1) == '"' {
            let ghost u = s@.skip(j as int);
            proof {
                assert(u[0] == '\\' && u.len() >= 2 && u[1] == '"');
                assert(u.skip(2) =~= s@.skip(j + 2 as int));
            }
            lit.push('"');
            proof {
                match lit_scan(s@.skip(j + 2 as int)) {
                    Some((c2, n2)) => {
                        assert(lit_scan(u) == Some::<(Seq<char>, nat)>(
                            (seq!['"'] + c2, (n2 + 2) as nat),
                        ));
                        assert(lit@ + c2 =~= (lit@.drop_last() + (seq!['"'] + c2)));
                    },
                    None => {},
                }
            }
            j = j + 2;
        } else {
            let ghost u = s@.skip(j as int);
            proof {
                assert(u[0] == c);
                assert(!(u[0] == '"'));
                assert(!(u[0] == '\\' && u.len() >= 2 && u[1] == '"'));
                assert(u.skip(1) =~= s@.skip(j + 1 as int));
            }
            lit.push(c);
            proof {
                match lit_scan(s@.skip(j + 1 as int)) {
                    Some((c2, n2)) => {
                        assert(lit_scan(u) == Some::<(Seq<char>, nat)>(
                            (seq![c] + c2, (n2 + 1) as nat),
                        ));
                        assert(lit@ + c2 =~= (lit@.drop_last() + (seq![c] + c2)));
                    },
                    None => {},
                }
            }
            j = j + 1;
        }
    }
}

/// Scans an optional signed numeral from the given position: the sign, the
/// digits' value when it fits a machine word, and the characters consumed.
fn scan_int(s: &str, from: usize) -> (r: Option<(bool, Option<usize>, usize)>)
    requires
        from <= s@.len(),
    ensures
        (match int_scan(s@.skip(from as int)) {
            Some((neg, digs, n)) => {
                &&& r matches Some((rneg, rval, rn))
                &&& rneg == neg
                &&& rn == n
                &&& from + n <= s@.len()
                &&& (match rval {
                    Some(v) => v == digits_value(digs),
                    None => digits_value(digs) > usize::MAX,
                })
            },
            None => r is None,
        }),
{
    let n = s.unicode_len();
    let ghost u = s@.skip(from as int);
    if from < n && s.get_char(from) == '-' {
        let (dl, val) = scan_digits(s, from + 1);
        proof {
            assert(u.skip(1) =~= s@.skip(from + 1 as int));
        }
        if dl == 0 {
            None
        } else {
            proof {
                assert(u.skip(1).take(digits_count(u.skip(1)) as int) =~= s@.skip(
                    from + 1 as int,
                ).take(dl as int));
            }
            Some((true, val, 1 + dl))
        }
    } else {
        let (dl, val) = scan_digits(s, from);
        proof {
            assert(u =~= s@.skip(from as int));
            if from < n {
                assert(u[0] == s@[from as int]);
            }
        }
        if dl == 0 {
            None
        } else {
            proof {
                assert(u.take(digits_count(u) as int) =~= s@.skip(from as int).take(dl as int));
            }
            Some((false, val, dl))
        }
    }
}

/// The bound a scanned numeral stands for, if its value fits a signed
/// machine word: a negative numeral may be one larger in magnitude than a
/// positive one.
fn bound_if_fits(neg: bool, val: Option<usize>) -> (r: Option<EolinaRangeBound>)
    ensures
        (match val {
            Some(v) => {
                if neg {
                    if v <= isize::MAX as usize + 1 {
                        r == Some(EolinaRangeBound::End(v))
                    } else {
                        r is None
                    }
                } else {
                    if v <= isize::MAX as usize {
                        r == Some(EolinaRangeBound::Start(v))
                    } else {
                        r is None
                    }
                }
            },
            None => r is None,
        }),
{
    match val {
        Some(v) => {
            if neg {
                if v <= (isize::MAX as usize) + 1 {
                    Some(EolinaRangeBound::End(v))
                } else {
                    None
                }
            } else {
                if v <= isize::MAX as usize {
                    Some(EolinaRangeBound::Start(v))
                } else {
                    None
                }
            }
        },
        None => None,
    }
}

/// The whole tokenizer step on remaining program text: skip leading
/// whitespace, then scan one token; the consumed count includes the
/// whitespace.
pub open spec fn spec_next_token(s: Seq<char>) -> Scan {
    let w = ws_count(s);
    if w == s.len() {
        Scan::Empty
    } else {
        match scan_token(s.skip(w as int)) {
            Scan::Tok(tv, n) => Scan::Tok(tv, n + w),
            Scan::Empty => Scan::Empty,
            Scan::Unknown(u) => Scan::Unknown(u),
        }
    }
}


/// Scans a rotation at the head of the trimmed text.
fn scan_rotate_exec(t: &str) -> (r: (Token, usize))
    requires
        t@.len() > 0,
        t@[0] == '@',
    ensures
        (scan_rotate(t@) matches Scan::Tok(tv, n) && r.0@ == tv && r.1 == n),
        r.1 <= t@.len(),
{
    let n = t.unicode_len();
    let (dl, val) = scan_digits(t, 1);
    let count: usize = match val {
        Some(v) => {
            if v == 0 {
                1
            } else {
                v
            }
        },
        None => 1,
    };
    (Token::Rotate(count), 1 + dl)
}

/// Scans a split at the head of the trimmed text.
fn scan_split_exec(t: &str) -> (r: (Token, usize))
    requires
        t@.len() > 0,
        t@[0] == '/',
    ensures
        (scan_split(t@) matches Scan::Tok(tv, n) && r.0@ == tv && r.1 == n),
        r.1 <= t@.len(),
{
    let n = t.unicode_len();
    if n >= 2 && t.get_char(1) == '/' {
        (Token::Split(None), 2)
    } else if n >= 2 && t.get_char(1) == '"' {
        match scan_literal(t, 2) {
            Some((lit, m)) => {
                let end = 2 + m;
                if end < n && t.get_char(end) == '/' {
                    (Token::Split(Some(lit)), end + 1)
                } else {
                    (Token::Split(None), 1)
                }
            },
            None => (Token::Split(None), 1),
        }
    } else {
        (Token::Split(None), 1)
    }
}

/// Scans a map at the head of the trimmed text.
fn scan_map_exec(t: &str) -> (r: Option<(Token, usize)>)
    requires
        t@.len() > 0,
        t@[0] == '{',
    ensures
        (match scan_map(t@) {
            Scan::Tok(tv, n) => {
                &&& r matches Some((tok, m))
                &&& tok@ == tv
                &&& m == n
                &&& n <= t@.len()
            },
            Scan::Unknown(u) => r is None,
            Scan::Empty => false,
        }),
{
    let n = t.unicode_len();
    if n >= 3 && t.get_char(2) == '}' {
        let c = t.get_char(1);
        if c == '_' {
            Some((Token::Mapping(MapToken::Lower), 3))
        } else if c == '^' {
            Some((Token::Mapping(MapToken::Upper), 3))
        } else if c == '%' {
            Some((Token::Mapping(MapToken::Swap), 3))
        } else {
            None
        }
    } else {
        None
    }
}

/// Scans a filter at the head of the trimmed text.
fn scan_filter_exec(t: &str) -> (r: Option<(Token, usize)>)
    requires
        t@.len() > 0,
        t@[0] == '[',
    ensures
        (match scan_filter(t@) {
            Scan::Tok(tv, n) => {
                &&& r matches Some((tok, m))
                &&& tok@ == tv
                &&& m == n
                &&& n <= t@.len()
            },
            Scan::Unknown(u) => r is None,
            Scan::Empty => false,
        }),
{
    let n = t.unicode_len();
    if n >= 3 && t.get_char(2) == ']' {
        let c = t.get_char(1);
        if c == 'v' {
            Some((Token::Filter(CheckToken::Vowel), 3))
        } else if c == 'c' {
            Some((Token::Filter(CheckToken::Conso), 3))
        } else if c == '_' {
            Some((Token::Filter(CheckToken::Lower), 3))
        } else if c == '^' {
            Some((Token::Filter(CheckToken::Upper), 3))
        } else {
            None
        }
    } else {
        None
    }
}

/// Scans a slice or an index at the head of the trimmed text.
fn scan_pipe_exec(t: &str) -> (r: Option<(Token, usize)>)
    requires
        t@.len() > 0,
        t@[0] == '|',
    ensures
        (match scan_pipe(t@) {
            Scan::Tok(tv, n) => {
                &&& r matches Some((tok, m))
                &&& tok@ == tv
                &&& m == n
                &&& n <= t@.len()
            },
            Scan::Unknown(u) => r is None,
            Scan::Empty => false,
        }),
{
    let n = t.unicode_len();
    let a = scan_int(t, 1);
    let pa: usize = match a {
        Some((_, _, m)) => 1 + m,
        None => 1,
    };
    if pa < n && t.get_char(pa) == '.' {
        let b = scan_int(t, pa + 1);
        let pb: usize = match b {
            Some((_, _, m)) => pa + 1 + m,
            None => pa + 1,
        };
        if pb < n && t.get_char(pb) == '|' {
            let sb_a = match a {
                Some((neg, val, _)) => bound_if_fits(neg, val),
                None => None,
            };
            let sb_b = match b {
                Some((neg, val, _)) => bound_if_fits(neg, val),
                None => None,
            };
            Some((Token::Slice(EolinaRange { start: sb_a, end: sb_b }), pb + 1))
        } else {
            None
        }
    } else {
        match a {
            Some((neg, val, m)) => {
                if 1 + m < n && t.get_char(1 + m) == '|' {
                    match bound_if_fits(neg, val) {
                        Some(bd) => Some((Token::Index(bd), 2 + m)),
                        None => None,
                    }
                } else {
                    None
                }
            },
            None => None,
        }
    }
}

/// Finds the next token of the given remaining program text.
///
/// On success the result holds the unparsed rest of the text, the token,
/// and exactly how many characters were consumed, leading whitespace
/// included. Empty or whitespace-only text is an empty-program error;
/// text that matches no token is an unknown-token error carrying the
/// trimmed remaining text.
pub fn next_token<'a>(input: &'a str) -> (r: Result<(&'a str, Token, usize), ParseError>)
    ensures
        (match spec_next_token(input@) {
            Scan::Tok(tv, n) => {
                &&& r matches Ok((rest, tok, len))
                &&& tok@ == tv
                &&& len == n
                &&& rest@ == input@.skip(n as int)
            },
            Scan::Empty => r == Err::<(&'a str, Token, usize), ParseError>(ParseError::Empty),
            Scan::Unknown(u) => {
                &&& r matches Err(ParseError::Unknown(msg))
                &&& msg@ == u
            },
        }),
{
    let n = input.unicode_len();
    let w = scan_ws(input);
    if w == n {
        return Err(ParseError::Empty);
    }
    let t = input.substring_char(w, n);
    proof {
        assert(t@ =~= input@.skip(w as int));
    }
    let tn = t.unicode_len();
    let c0 = t.get_char(0);
    let res: Option<(Token, usize)> = if c0 == '<' {
        Some((Token::In, 1))
    } else if c0 == '>' {
        Some((Token::Out, 1))
    } else if c0 == '.' {
        Some((Token::Join, 1))
    } else if c0 == '~' {
        Some((Token::Concat, 1))
    } else if c0 == '*' {
        Some((Token::Copy, 1))
    } else if c0 == 'v' {
        Some((Token::IsVowel, 1))
    } else if c0 == 'c' {
        Some((Token::IsConso, 1))
    } else if c0 == '_' {
        Some((Token::IsLower, 1))
    } else if c0 == '^' {
        Some((Token::IsUpper, 1))
    } else if c0 == '@' {
        Some(scan_rotate_exec(t))
    } else if c0 == '/' {
        Some(scan_split_exec(t))
    } else if c0 == '{' {
        scan_map_exec(t)
    } else if c0 == '[' {
        scan_filter_exec(t)
    } else if c0 == '|' {
        scan_pipe_exec(t)
    } else {
        None
    };
    match res {
        Some((tok, len)) => {
            let rest = t.substring_char(len, tn);
            proof {
                assert(rest@ =~= input@.skip(w + len as int));
            }
            Ok((rest, tok, w + len))
        },
        None => Err(ParseError::Unknown(String::from_str(t))),
    }
}


/// Leading whitespace never exceeds the text.
pub proof fn lemma_ws_count_le(s: Seq<char>)
    ensures
        ws_count(s) <= s.len(),
    decreases s.len(),
{
    if s.len() != 0 && is_ws_char(s[0]) {
        lemma_ws_count_le(s.skip(1));
    }
}

/// Leading digits never exceed the text.
pub proof fn lemma_digits_count_le(s: Seq<char>)
    ensures
        digits_count(s) <= s.len(),
    decreases s.len(),
{
    if s.len() != 0 && is_digit_char(s[0]) {
        lemma_digits_count_le(s.skip(1));
    }
}

/// A found token consumes at least one character and never more than the
/// remaining text.
pub proof fn lemma_next_token_consumes(s: Seq<char>)
    ensures
        (spec_next_token(s) matches Scan::Tok(tv, n) ==> 1 <= n <= s.len()),
{
    lemma_ws_count_le(s);
    let w = ws_count(s);
    if w < s.len() {
        let t = s.skip(w as int);
        if t[0] == '@' {
            lemma_digits_count_le(t.skip(1));
        }
    }
}

/// The stream of tokens from the text, up to the first error or the end of
/// the text.
pub open spec fn token_stream(s: Seq<char>) -> Seq<(TokenView, nat)>
    decreases s.len(),
{
    match spec_next_token(s) {
        Scan::Tok(tv, n) => {
            proof {
                lemma_next_token_consumes(s);
            }
            seq![(tv, n)] + token_stream(s.skip(n as int))
        },
        Scan::Empty => Seq::empty(),
        Scan::Unknown(u) => Seq::empty(),
    }
}

/// How tokenizing the text ends, past all its tokens: cleanly at its end,
/// or at an unknown token.
pub open spec fn token_stream_end(s: Seq<char>) -> Scan
    decreases s.len(),
{
    match spec_next_token(s) {
        Scan::Tok(tv, n) => {
            proof {
                lemma_next_token_consumes(s);
            }
            token_stream_end(s.skip(n as int))
        },
        Scan::Empty => Scan::Empty,
        Scan::Unknown(u) => Scan::Unknown(u),
    }
}

/// How many characters the first `k` tokens of the stream consume.
pub open spec fn stream_pos(s: Seq<char>, k: int) -> nat
    decreases s.len(), k,
{
    if k <= 0 {
        0
    } else {
        match spec_next_token(s) {
            Scan::Tok(tv, n) => {
                proof {
                    lemma_next_token_consumes(s);
                }
                n + stream_pos(s.skip(n as int), k - 1)
            },
            Scan::Empty => 0,
            Scan::Unknown(u) => 0,
        }
    }
}

/// After `k` tokens the remaining text carries exactly the rest of the
/// stream, the same terminal outcome, and the next token's length extends
/// the position; the position itself stays within the text.
#[verifier::rlimit(100)]
pub proof fn lemma_stream_suffix(s: Seq<char>, k: int)
    requires
        0 <= k <= token_stream(s).len(),
    ensures
        token_stream(s.skip(stream_pos(s, k) as int)) == token_stream(s).skip(k),
        token_stream_end(s.skip(stream_pos(s, k) as int)) == token_stream_end(s),
        stream_pos(s, k) <= s.len(),
        k < token_stream(s).len() ==> spec_next_token(s.skip(stream_pos(s, k) as int))
            == Scan::Tok(token_stream(s)[k].0, token_stream(s)[k].1) && stream_pos(s, k + 1)
            == stream_pos(s, k) + token_stream(s)[k].1,
    decreases k,
{
    if k == 0 {
        assert(s.skip(0) =~= s);
        assert(token_stream(s).skip(0) =~= token_stream(s));
        if token_stream(s).len() > 0 {
            lemma_next_token_consumes(s);
            match spec_next_token(s) {
                Scan::Tok(tv, n) => {
                    assert(token_stream(s) == seq![(tv, n)] + token_stream(s.skip(n as int)));
                    assert(token_stream(s)[0] == (tv, n));
                    assert(stream_pos(s, 1) == n + stream_pos(s.skip(n as int), 0));
                },
                Scan::Empty => {},
                Scan::Unknown(u) => {},
            }
        }
    } else {
        match spec_next_token(s) {
            Scan::Tok(tv, n) => {
                lemma_next_token_consumes(s);
                let s1 = s.skip(n as int);
                lemma_stream_suffix(s1, k - 1);
                assert(token_stream(s) == seq![(tv, n)] + token_stream(s1));
                assert(token_stream(s).skip(k) =~= token_stream(s1).skip(k - 1));
                assert(stream_pos(s, k) == n + stream_pos(s1, k - 1));
                assert(s.skip(stream_pos(s, k) as int) =~= s1.skip(stream_pos(s1, k - 1) as int));
                if k < token_stream(s).len() {
                    assert(token_stream(s)[k] == token_stream(s1)[k - 1]);
                    assert(stream_pos(s, k + 1) == n + stream_pos(s1, k));
                }
            },
            Scan::Empty => {
                assert(token_stream(s).len() == 0);
            },
            Scan::Unknown(u) => {
                assert(token_stream(s).len() == 0);
            },
        }
    }
}

} // verus!
