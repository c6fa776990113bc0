//! The function library: the pure opcode implementations.
//!
//! Each function takes values popped off the queue and returns the value
//! to push back, or the error that ends the run.

use crate::ascii::all_conso;
use crate::ascii::all_lower;
use crate::ascii::all_upper;
use crate::ascii::all_vowel;
use crate::ascii::lower_seq;
use crate::ascii::swap_seq;
use crate::ascii::upper_seq;
use crate::ascii::is_conso_char;
use crate::ascii::is_lower_char;
use crate::ascii::is_upper_char;
use crate::ascii::is_vowel_char;
use crate::ascii::AsciiExt;
use crate::error::ArgMismatchError;
use crate::error::Error;
use crate::range::EolinaRange;
use crate::range::EolinaRangeBound;
use crate::range::IndexError;
use crate::range::bound_abs;
use crate::range::valid_repr;
use crate::range::RangeError;
use crate::token::CheckToken;
use crate::token::MapToken;
use crate::value::Kind;
use crate::value::Value;
use vstd::prelude::*;
use vstd::string::*;

verus! {

/// The characters of a string, each as a fragment of its own.
pub open spec fn split_chars(s: Seq<char>) -> Seq<Seq<char>> {
    Seq::new(s.len(), |i: int| seq![s[i]])
}

/// The position of the first occurrence of the delimiter, if any.
pub open spec fn find_delim(s: Seq<char>, d: Seq<char>) -> Option<int>
    decreases s.len(),
{
    if s.len() < d.len() {
        None
    } else if s.take(d.len() as int) == d {
        Some(0)
    } else {
        proof {
            if d.len() == 0 {
                assert(s.take(d.len() as int) =~= d);
            }
        }
        match find_delim(s.skip(1), d) {
            Some(i) => Some(i + 1),
            None => None,
        }
    }
}

/// A found delimiter lies within the text, matches there, and is the first
/// match.
pub proof fn lemma_find_delim(s: Seq<char>, d: Seq<char>)
    ensures
        (find_delim(s, d) matches Some(i) ==> 0 <= i && i + d.len() <= s.len() && s.subrange(
            i,
            i + d.len() as int,
        ) == d),
    decreases s.len(),
{
    if s.len() < d.len() {
    } else if s.take(d.len() as int) == d {
        assert(s.subrange(0, d.len() as int) =~= s.take(d.len() as int));
    } else {
        if d.len() == 0 {
            assert(s.take(d.len() as int) =~= d);
        }
        lemma_find_delim(s.skip(1), d);
        match find_delim(s.skip(1), d) {
            Some(i) => {
                assert(s.subrange(i + 1, i + 1 + d.len() as int) =~= s.skip(1).subrange(
                    i,
                    i + d.len() as int,
                ));
            },
            None => {},
        }
    }
}

/// The fragments of a split on a non-empty delimiter: the text between
/// occurrences of the delimiter, empty fragments dropped.
pub open spec fn split_on(s: Seq<char>, d: Seq<char>) -> Seq<Seq<char>>
    decreases s.len(),
    when d.len() > 0
{
    match find_delim(s, d) {
        None => if s.len() > 0 {
            seq![s]
        } else {
            Seq::<Seq<char>>::empty()
        },
        Some(i) => {
            proof {
                lemma_find_delim(s, d);
            }
            let rest = split_on(s.skip(i + d.len() as int), d);
            if i > 0 {
                seq![s.take(i)] + rest
            } else {
                rest
            }
        },
    }
}

/// The fragments of a split: on a missing or empty delimiter the single
/// characters, otherwise the text between occurrences of the delimiter,
/// empty fragments dropped.
pub open spec fn split_spec(s: Seq<char>, d: Option<Seq<char>>) -> Seq<Seq<char>> {
    match d {
        None => split_chars(s),
        Some(dd) => if dd.len() == 0 {
            split_chars(s)
        } else {
            split_on(s, dd)
        },
    }
}

/// All fragments, concatenated in order.
pub open spec fn concat_all(parts: Seq<Seq<char>>) -> Seq<char>
    decreases parts.len(),
{
    if parts.len() == 0 {
        Seq::<char>::empty()
    } else {
        concat_all(parts.drop_last()) + parts.last()
    }
}

/// Whether the delimiter matches the text at the given position.
fn delim_matches_at(s: &str, d: &str, at: usize) -> (r: bool)
    requires
        at + d@.len() <= s@.len(),
    ensures
        r == matches_at(s@, d@, at as int),
{
    let n = s.unicode_len();
    let dn = d.unicode_len();
    let mut k: usize = 0;
    loop
        invariant
            k <= dn,
            n == s@.len(),
            dn == d@.len(),
            at + dn <= s@.len(),
            forall|j: int| 0 <= j < k ==> s@[at + j] == d@[j],
        ensures
            k <= dn,
            (k == dn ==> forall|j: int| 0 <= j < dn ==> s@[at + j] == d@[j]),
            (k < dn ==> s@[at + k] != d@[k as int]),
        decreases dn - k,
    {
        if k == dn {
            break;
        }
        if s.get_char(at + k) != d.get_char(k) {
            break;
        }
        k = k + 1;
    }
    if k == dn {
        proof {
            assert(s@.subrange(at as int, at + d@.len() as int) =~= d@);
        }
        true
    } else {
        proof {
            assert(s@.subrange(at as int, at + d@.len() as int)[k as int] != d@[k as int]);
        }
        false
    }
}

/// The delimiter matches the text at the given position.
pub open spec fn matches_at(s: Seq<char>, d: Seq<char>, j: int) -> bool {
    s.subrange(j, j + d.len() as int) == d
}

/// A prefix without a match, followed by a match, is exactly where
/// `find_delim` points.
proof fn lemma_find_delim_char(s: Seq<char>, d: Seq<char>, i: int)
    requires
        0 <= i,
        i + d.len() <= s.len(),
        forall|j: int| 0 <= j < i ==> !#[trigger] matches_at(s, d, j),
        matches_at(s, d, i),
    ensures
        find_delim(s, d) == Some(i),
    decreases i,
{
    if i == 0 {
        assert(s.take(d.len() as int) =~= s.subrange(0, d.len() as int));
    } else {
        assert(!matches_at(s, d, 0));
        assert(s.take(d.len() as int) =~= s.subrange(0, d.len() as int));
        assert(!(s.len() < d.len()));
        let s1 = s.skip(1);
        assert forall|j: int| 0 <= j < i - 1 implies !#[trigger] matches_at(s1, d, j) by {
            assert(s1.subrange(j, j + d.len() as int) =~= s.subrange(j + 1, j + 1 + d.len() as int));
            assert(!matches_at(s, d, j + 1));
        }
        assert(s1.subrange(i - 1, i - 1 + d.len() as int) =~= s.subrange(i, i + d.len() as int));
        assert(matches_at(s1, d, i - 1));
        lemma_find_delim_char(s1, d, i - 1);
    }
}

/// A text without any match has no delimiter to find.
proof fn lemma_find_delim_none(s: Seq<char>, d: Seq<char>)
    requires
        forall|j: int| 0 <= j && j + d.len() <= s.len() ==> !#[trigger] matches_at(s, d, j),
    ensures
        find_delim(s, d) is None,
    decreases s.len(),
{
    if s.len() < d.len() {
    } else {
        assert(!matches_at(s, d, 0));
        if d.len() == 0 {
            assert(s.subrange(0, 0 + d.len() as int) =~= d);
            assert(matches_at(s, d, 0));
        }
        assert(s.take(d.len() as int) =~= s.subrange(0, d.len() as int));
        let s1 = s.skip(1);
        assert forall|j: int| 0 <= j && j + d.len() <= s1.len() implies !#[trigger] matches_at(
            s1,
            d,
            j,
        ) by {
            assert(s1.subrange(j, j + d.len() as int) =~= s.subrange(j + 1, j + 1 + d.len() as int));
            assert(!matches_at(s, d, j + 1));
        }
        lemma_find_delim_none(s1, d);
    }
}

/// Finds the first occurrence of the delimiter in the text from the given
/// position.
fn find_delim_exec(s: &str, d: &str, from: usize) -> (r: Option<usize>)
    requires
        d@.len() > 0,
        from <= s@.len(),
    ensures
        (match r {
            Some(i) => from <= i && find_delim(s@.skip(from as int), d@) == Some(i - from),
            None => find_delim(s@.skip(from as int), d@) is None,
        }),
{
    let n = s.unicode_len();
    let dn = d.unicode_len();
    let ghost u = s@.skip(from as int);
    let mut i: usize = from;
    let mut found = false;
    loop
        invariant
            from <= i,
            n == s@.len(),
            dn == d@.len(),
            dn > 0,
            from <= s@.len(),
            u == s@.skip(from as int),
            i <= n,
            forall|j: int| 0 <= j < i - from ==> !#[trigger] matches_at(u, d@, j),
            found ==> i + dn <= n && matches_at(u, d@, i - from),
        ensures
            from <= i <= n,
            found ==> i + dn <= n && matches_at(u, d@, i - from),
            forall|j: int| 0 <= j < i - from ==> !#[trigger] matches_at(u, d@, j),
            !found ==> forall|j: int|
                0 <= j && j + dn <= u.len() ==> !#[trigger] matches_at(u, d@, j),
        decreases n - i,
    {
        if dn > n || i > n - dn {
            proof {
                assert forall|j: int| 0 <= j && j + dn <= u.len() implies !#[trigger] matches_at(
                    u,
                    d@,
                    j,
                ) by {
                    assert(j < i - from || matches_at(u, d@, j) == matches_at(u, d@, j));
                    if j >= i - from {
                        assert(j + dn <= u.len());
                        assert(i - from + dn > u.len());
                        assert(false);
                    }
                }
            }
            break;
        }
        let m = delim_matches_at(s, d, i);
        proof {
            assert(u.subrange(i - from, i - from + dn as int) =~= s@.subrange(
                i as int,
                i + dn as int,
            ));
        }
        if m {
            found = true;
            break;
        }
        i = i + 1;
    }
    if found {
        proof {
            lemma_find_delim_char(u, d@, i - from);
        }
        Some(i)
    } else {
        proof {
            lemma_find_delim_none(u, d@);
        }
        None
    }
}

/// Splits the given string input into its characters if no delimiter is
/// given, otherwise into the non-empty fragments between occurrences of
/// the delimiter. Any other kind of input is a mismatch naming the string
/// kind.
pub fn split(input: Value, delim: Option<&str>) -> (r: Result<Value, Error>)
    ensures
        (match input {
            Value::String(s) => {
                &&& r matches Ok(Value::StringVec(v))
                &&& v@.map_values(|x: String| x@) == split_spec(
                    s@,
                    (match delim {
                        Some(d) => Some(d@),
                        None => None::<Seq<char>>,
                    }),
                )
            },
            _ => {
                &&& r matches Err(Error::ArgMismatch(e))
                &&& e.expected@ == seq![Kind::String]
                &&& e.given == input.kind_view()
            },
        }),
{
    let string = match input.unwrap_string() {
        Ok(s) => s,
        Err(e) => {
            return Err(e);
        },
    };
    match delim {
        Some(d) => {
            if d.unicode_len() == 0 {
                Ok(Value::StringVec(split_into_chars(&string)))
            } else {
                Ok(Value::StringVec(split_delim(&string, d)))
            }
        },
        None => Ok(Value::StringVec(split_into_chars(&string))),
    }
}

/// Splits a string into its characters, each a string of its own.
fn split_into_chars(s: &String) -> (r: Vec<String>)
    ensures
        r@.map_values(|x: String| x@) == split_chars(s@),
{
    let n = s.as_str().unicode_len();
    let mut out: Vec<String> = Vec::new();
    let mut i: usize = 0;
    while i < n
        invariant
            i <= n,
            n == s@.len(),
            out@.len() == i,
            forall|j: int| 0 <= j < i ==> out@.map_values(|x: String| x@)[j] == seq![s@[j]],
        decreases n - i,
    {
        let c = s.as_str().get_char(i);
        let mut frag = String::new();
        frag.push(c);
        proof {
            assert(frag@ =~= seq![s@[i as int]]);
        }
        out.push(frag);
        i = i + 1;
    }
    proof {
        assert(out@.map_values(|x: String| x@) =~= split_chars(s@));
    }
    out
}

/// Splits a string on a non-empty delimiter, dropping empty fragments.
fn split_delim(s: &String, d: &str) -> (r: Vec<String>)
    requires
        d@.len() > 0,
    ensures
        r@.map_values(|x: String| x@) == split_on(s@, d@),
{
    let n = s.as_str().unicode_len();
    let dn = d.unicode_len();
    let mut out: Vec<String> = Vec::new();
    let mut p: usize = 0;
    proof {
        assert(s@.skip(0) =~= s@);
        assert(out@.map_values(|x: String| x@) =~= Seq::<Seq<char>>::empty());
        assert(Seq::<Seq<char>>::empty() + split_on(s@.skip(0), d@) =~= split_on(s@.skip(0), d@));
    }
    loop
        invariant
            p <= n,
            n == s@.len(),
            dn == d@.len(),
            dn > 0,
            split_on(s@, d@) == out@.map_values(|x: String| x@) + split_on(s@.skip(p as int), d@),
        decreases n - p,
    {
        let ghost u = s@.skip(p as int);
        match find_delim_exec(s.as_str(), d, p) {
            Some(i) => {
                proof {
                    lemma_find_delim(u, d@);
                }
                if i > p {
                    let frag = String::from_str(s.as_str().substring_char(p, i));
                    proof {
                        assert(frag@ =~= u.take(i - p));
                    }
                    out.push(frag);
                    proof {
                        let f = |x: String| x@;
                        assert(out@.map_values(f) =~= out@.drop_last().map_values(f).push(
                            u.take(i - p),
                        ));
                        assert(split_on(u, d@) == seq![u.take(i - p)] + split_on(
                            u.skip(i - p + dn as int),
                            d@,
                        ));
                        assert(u.skip(i - p + dn as int) =~= s@.skip(i + dn as int));
                        assert(split_on(s@, d@) =~= out@.map_values(f) + split_on(
                            s@.skip(i + dn as int),
                            d@,
                        ));
                    }
                } else {
                    proof {
                        assert(split_on(u, d@) == split_on(u.skip(i - p + dn as int), d@));
                        assert(u.skip(i - p + dn as int) =~= s@.skip(i + dn as int));
                    }
                }
                p = i + dn;
            },
            None => {
                if p < n {
                    let frag = String::from_str(s.as_str().substring_char(p, n));
                    proof {
                        assert(frag@ =~= u);
                        assert(split_on(u, d@) == seq![u]);
                    }
                    out.push(frag);
                    proof {
                        let f = |x: String| x@;
                        assert(out@.map_values(f) =~= out@.drop_last().map_values(f).push(u));
                        assert(split_on(s@, d@) =~= out@.map_values(f));
                    }
                } else {
                    proof {
                        assert(u.len() == 0);
                        assert(split_on(u, d@) =~= Seq::<Seq<char>>::empty());
                        assert(split_on(s@, d@) =~= out@.map_values(|x: String| x@));
                    }
                }
                return out;
            },
        }
    }
}

/// Joins the given string-list input into one string, its elements
/// concatenated in order. Any other kind of input is a mismatch naming the
/// string-list kind.
pub fn join(input: Value) -> (r: Result<Value, Error>)
    ensures
        (match input {
            Value::StringVec(v) => {
                &&& r matches Ok(Value::String(s))
                &&& s@ == concat_all(v@.map_values(|x: String| x@))
            },
            _ => {
                &&& r matches Err(Error::ArgMismatch(e))
                &&& e.expected@ == seq![Kind::StringVec]
                &&& e.given == input.kind_view()
            },
        }),
{
    let vec = match input.unwrap_string_vec() {
        Ok(v) => v,
        Err(e) => {
            return Err(e);
        },
    };
    let ghost parts = vec@.map_values(|x: String| x@);
    let mut out = String::new();
    let n = vec.len();
    let mut i: usize = 0;
    proof {
        assert(out@ =~= concat_all(parts.take(0)));
    }
    while i < n
        invariant
            i <= n,
            n == vec@.len(),
            parts == vec@.map_values(|x: String| x@),
            out@ == concat_all(parts.take(i as int)),
        decreases n - i,
    {
        out.append(vec[i].as_str());
        proof {
            assert(parts.take(i + 1).drop_last() =~= parts.take(i as int));
            assert(parts.take(i + 1).last() == parts[i as int]);
            assert(out@ =~= concat_all(parts.take(i + 1)));
        }
        i = i + 1;
    }
    proof {
        assert(parts.take(n as int) =~= parts);
    }
    Ok(Value::String(out))
}

/// Concatenates the two inputs into one value of their shared kind:
/// strings append, string lists append. A pairing that involves a boolean
/// is a mismatch naming the two accepted kinds and the other value's kind;
/// a string paired with a string list is a kind mismatch.
pub fn concat(input1: Value, input2: Value) -> (r: Result<Value, Error>)
    ensures
        (match (input1, input2) {
            (Value::String(a), Value::String(b)) => {
                &&& r matches Ok(Value::String(s))
                &&& s@ == a@ + b@
            },
            (Value::StringVec(a), Value::StringVec(b)) => {
                &&& r matches Ok(Value::StringVec(v))
                &&& v@ == a@ + b@
            },
            (x, Value::Bool(_)) => {
                &&& r matches Err(Error::ArgMismatch(e))
                &&& e.expected@ == seq![Kind::String, Kind::StringVec]
                &&& e.given == x.kind_view()
            },
            (Value::Bool(_), x) => {
                &&& r matches Err(Error::ArgMismatch(e))
                &&& e.expected@ == seq![Kind::String, Kind::StringVec]
                &&& e.given == x.kind_view()
            },
            (x, y) => r == Err::<Value, Error>(Error::Mismatch(x.kind_view(), y.kind_view())),
        }),
{
    match (input1, input2) {
        (Value::String(string1), Value::String(string2)) => {
            let mut out = string1;
            out.append(string2.as_str());
            Ok(Value::String(out))
        },
        (Value::StringVec(vec1), Value::StringVec(vec2)) => {
            let mut out = vec1;
            let mut rest = vec2;
            out.append(&mut rest);
            Ok(Value::StringVec(out))
        },
        (x, Value::Bool(_)) => {
            let k = x.kind();
            Err(Error::ArgMismatch(ArgMismatchError::new(vec![Kind::String, Kind::StringVec], k)))
        },
        (Value::Bool(_), x) => {
            let k = x.kind();
            Err(Error::ArgMismatch(ArgMismatchError::new(vec![Kind::String, Kind::StringVec], k)))
        },
        (x, y) => {
            let kx = x.kind();
            let ky = y.kind();
            Err(Error::Mismatch(kx, ky))
        },
    }
}


/// The predicate a check token stands for, on one character.
pub open spec fn check_char(check: CheckToken, c: char) -> bool {
    match check {
        CheckToken::Vowel => is_vowel_char(c),
        CheckToken::Conso => is_conso_char(c),
        CheckToken::Upper => is_upper_char(c),
        CheckToken::Lower => is_lower_char(c),
    }
}

/// The predicate a check token stands for, on a whole string: every
/// character satisfies it.
pub open spec fn check_chars(check: CheckToken, s: Seq<char>) -> bool {
    forall|i: int| 0 <= i < s.len() ==> check_char(check, #[trigger] s[i])
}

/// Whether every element of the input passes the check: a string passes
/// when each of its characters does, a string list when each element does.
pub open spec fn check_value(check: CheckToken, v: Value) -> bool {
    match v {
        Value::String(s) => check_chars(check, s@),
        Value::StringVec(vs) => forall|i: int|
            0 <= i < vs@.len() ==> check_chars(check, #[trigger] vs@[i]@),
        Value::Bool(_) => false,
    }
}

/// Whether one character passes the check.
fn check_char_exec(check: CheckToken, c: char) -> (r: bool)
    ensures
        r == check_char(check, c),
{
    match check {
        CheckToken::Vowel => matches!(
            c,
            'a' | 'e' | 'i' | 'o' | 'u' | 'A' | 'E' | 'I' | 'O' | 'U'
        ),
        CheckToken::Conso => {
            let lower = 'a' <= c && c <= 'z';
            let upper = 'A' <= c && c <= 'Z';
            let vowel = matches!(c, 'a' | 'e' | 'i' | 'o' | 'u' | 'A' | 'E' | 'I' | 'O' | 'U');
            (lower || upper) && !vowel
        },
        CheckToken::Upper => 'A' <= c && c <= 'Z',
        CheckToken::Lower => 'a' <= c && c <= 'z',
    }
}

/// Whether every character of the string passes the check.
fn check_str_exec(check: CheckToken, s: &String) -> (r: bool)
    ensures
        r == check_chars(check, s@),
{
    let n = s.as_str().unicode_len();
    let mut i: usize = 0;
    while i < n
        invariant
            i <= n,
            n == s@.len(),
            forall|j: int| 0 <= j < i ==> check_char(check, #[trigger] s@[j]),
        decreases n - i,
    {
        let c = s.as_str().get_char(i);
        if !check_char_exec(check, c) {
            return false;
        }
        i = i + 1;
    }
    true
}

/// Applies the check to the whole input: a string yields whether all its
/// characters pass, a string list whether all its elements pass. A boolean
/// input is a mismatch naming the two accepted kinds.
pub(crate) fn check_all(input: Value, check: CheckToken) -> (r: Result<Value, Error>)
    ensures
        (match input {
            Value::Bool(_) => {
                &&& r matches Err(Error::ArgMismatch(e))
                &&& e.expected@ == seq![Kind::String, Kind::StringVec]
                &&& e.given == input.kind_view()
            },
            _ => r == Ok::<Value, Error>(Value::Bool(check_value(check, input))),
        }),
{
    match input {
        Value::String(string) => Ok(Value::Bool(check_str_exec(check, &string))),
        Value::StringVec(vec) => {
            let n = vec.len();
            let mut i: usize = 0;
            let mut all = true;
            while i < n
                invariant
                    i <= n,
                    n == vec@.len(),
                    all == (forall|j: int| 0 <= j < i ==> check_chars(check, #[trigger] vec@[j]@)),
                decreases n - i,
            {
                if !check_str_exec(check, &vec[i]) {
                    all = false;
                    proof {
                        assert(!check_chars(check, vec@[i as int]@));
                    }
                }
                i = i + 1;
            }
            Ok(Value::Bool(all))
        },
        x => {
            let k = x.kind();
            Err(Error::ArgMismatch(ArgMismatchError::new(vec![Kind::String, Kind::StringVec], k)))
        },
    }
}

/// Returns whether every element of the input is a vowel, or consists only
/// of vowels.
pub fn is_vowel(input: Value) -> (r: Result<Value, Error>)
    ensures
        (match input {
            Value::Bool(_) => {
                &&& r matches Err(Error::ArgMismatch(e))
                &&& e.expected@ == seq![Kind::String, Kind::StringVec]
                &&& e.given == input.kind_view()
            },
            _ => r == Ok::<Value, Error>(Value::Bool(check_value(CheckToken::Vowel, input))),
        }),
{
    check_all(input, CheckToken::Vowel)
}

/// Returns whether every element of the input is a consonant, or consists
/// only of consonants.
pub fn is_conso(input: Value) -> (r: Result<Value, Error>)
    ensures
        (match input {
            Value::Bool(_) => {
                &&& r matches Err(Error::ArgMismatch(e))
                &&& e.expected@ == seq![Kind::String, Kind::StringVec]
                &&& e.given == input.kind_view()
            },
            _ => r == Ok::<Value, Error>(Value::Bool(check_value(CheckToken::Conso, input))),
        }),
{
    check_all(input, CheckToken::Conso)
}

/// Returns whether every element of the input is uppercase.
pub fn is_upper(input: Value) -> (r: Result<Value, Error>)
    ensures
        (match input {
            Value::Bool(_) => {
                &&& r matches Err(Error::ArgMismatch(e))
                &&& e.expected@ == seq![Kind::String, Kind::StringVec]
                &&& e.given == input.kind_view()
            },
            _ => r == Ok::<Value, Error>(Value::Bool(check_value(CheckToken::Upper, input))),
        }),
{
    check_all(input, CheckToken::Upper)
}

/// Returns whether every element of the input is lowercase.
pub fn is_lower(input: Value) -> (r: Result<Value, Error>)
    ensures
        (match input {
            Value::Bool(_) => {
                &&& r matches Err(Error::ArgMismatch(e))
                &&& e.expected@ == seq![Kind::String, Kind::StringVec]
                &&& e.given == input.kind_view()
            },
            _ => r == Ok::<Value, Error>(Value::Bool(check_value(CheckToken::Lower, input))),
        }),
{
    check_all(input, CheckToken::Lower)
}

/// The transformation a map token stands for, on a string's characters.
pub open spec fn map_chars(kind: MapToken, s: Seq<char>) -> Seq<char> {
    match kind {
        MapToken::Lower => lower_seq(s),
        MapToken::Upper => upper_seq(s),
        MapToken::Swap => swap_seq(s),
    }
}

/// Maps one string with the given map token.
fn map_str(kind: MapToken, s: String) -> (r: String)
    ensures
        r@ == map_chars(kind, s@),
{
    match kind {
        MapToken::Lower => s.into_lower(),
        MapToken::Upper => s.into_upper(),
        MapToken::Swap => s.into_swap(),
    }
}

/// Maps each character of a string input, or each element of a string
/// list input, with the given map. A boolean input is a mismatch naming
/// the two accepted kinds.
pub fn map(input: Value, kind: MapToken) -> (r: Result<Value, Error>)
    ensures
        (match input {
            Value::String(s) => {
                &&& r matches Ok(Value::String(t))
                &&& t@ == map_chars(kind, s@)
            },
            Value::StringVec(v) => {
                &&& r matches Ok(Value::StringVec(w))
                &&& w@.len() == v@.len()
                &&& (forall|i: int| 0 <= i < v@.len() ==> #[trigger] w@[i]@ == map_chars(
                    kind,
                    v@[i]@,
                ))
            },
            Value::Bool(_) => {
                &&& r matches Err(Error::ArgMismatch(e))
                &&& e.expected@ == seq![Kind::String, Kind::StringVec]
                &&& e.given == input.kind_view()
            },
        }),
{
    match input {
        Value::String(string) => Ok(Value::String(map_str(kind, string))),
        Value::StringVec(vec) => {
            let ghost orig = vec@;
            let n = vec.len();
            let mut out: Vec<String> = Vec::new();
            let mut i: usize = 0;
            while i < n
                invariant
                    i <= n,
                    n == orig.len(),
                    vec@ == orig,
                    out@.len() == i,
                    forall|j: int| 0 <= j < i ==> #[trigger] out@[j]@ == map_chars(
                        kind,
                        orig[j]@,
                    ),
                decreases n - i,
            {
                let element = vec[i].clone();
                out.push(map_str(kind, element));
                i = i + 1;
            }
            Ok(Value::StringVec(out))
        },
        x => {
            let k = x.kind();
            Err(Error::ArgMismatch(ArgMismatchError::new(vec![Kind::String, Kind::StringVec], k)))
        },
    }
}

/// Retains the characters of a string input, or the elements of a string
/// list input, that pass the check, preserving their order. A boolean
/// input is a mismatch naming the two accepted kinds.
pub fn filter(input: Value, check: CheckToken) -> (r: Result<Value, Error>)
    ensures
        (match input {
            Value::String(s) => {
                &&& r matches Ok(Value::String(t))
                &&& t@ == s@.filter(|c: char| check_char(check, c))
            },
            Value::StringVec(v) => {
                &&& r matches Ok(Value::StringVec(w))
                &&& w@ == v@.filter(|x: String| check_chars(check, x@))
            },
            Value::Bool(_) => {
                &&& r matches Err(Error::ArgMismatch(e))
                &&& e.expected@ == seq![Kind::String, Kind::StringVec]
                &&& e.given == input.kind_view()
            },
        }),
{
    match input {
        Value::String(string) => {
            let ghost pred = |c: char| check_char(check, c);
            let n = string.as_str().unicode_len();
            let mut out = String::new();
            let mut i: usize = 0;
            proof {
                reveal_with_fuel(Seq::filter, 2);
                assert(string@.take(0) =~= Seq::<char>::empty());
                assert(out@ =~= string@.take(0).filter(pred));
            }
            while i < n
                invariant
                    i <= n,
                    n == string@.len(),
                    pred == (|c: char| check_char(check, c)),
                    out@ == string@.take(i as int).filter(pred),
                decreases n - i,
            {
                let c = string.as_str().get_char(i);
                let keep = check_char_exec(check, c);
                proof {
                    reveal_with_fuel(Seq::filter, 2);
                    assert(string@.take(i + 1).drop_last() =~= string@.take(i as int));
                    assert(string@.take(i + 1).last() == string@[i as int]);
                }
                if keep {
                    out.push(c);
                }
                i = i + 1;
            }
            proof {
                assert(string@.take(n as int) =~= string@);
            }
            Ok(Value::String(out))
        },
        Value::StringVec(vec) => {
            let ghost pred = |x: String| check_chars(check, x@);
            let ghost orig = vec@;
            let n = vec.len();
            let mut out: Vec<String> = Vec::new();
            let mut i: usize = 0;
            proof {
                reveal_with_fuel(Seq::filter, 2);
                assert(orig.take(0) =~= Seq::<String>::empty());
                assert(out@ =~= orig.take(0).filter(pred));
            }
            while i < n
                invariant
                    i <= n,
                    n == orig.len(),
                    vec@ == orig,
                    pred == (|x: String| check_chars(check, x@)),
                    out@ == orig.take(i as int).filter(pred),
                decreases n - i,
            {
                let keep = check_str_exec(check, &vec[i]);
                proof {
                    reveal_with_fuel(Seq::filter, 2);
                    assert(orig.take(i + 1).drop_last() =~= orig.take(i as int));
                    assert(orig.take(i + 1).last() == orig[i as int]);
                }
                if keep {
                    let element = vec[i].clone();
                    out.push(element);
                }
                i = i + 1;
            }
            proof {
                assert(orig.take(n as int) =~= orig);
            }
            Ok(Value::StringVec(out))
        },
        x => {
            let k = x.kind();
            Err(Error::ArgMismatch(ArgMismatchError::new(vec![Kind::String, Kind::StringVec], k)))
        },
    }
}

/// Slices a string input by character positions, or a string list input
/// by element positions, after resolving the range against the input's
/// length. A boolean input is a mismatch naming the two accepted kinds.
#[verifier::rlimit(60)]
pub fn slice(input: Value, range: EolinaRange) -> (r: Result<Value, Error>)
    ensures
        (match input {
            Value::Bool(_) => {
                &&& r matches Err(Error::ArgMismatch(e))
                &&& e.expected@ == seq![Kind::String, Kind::StringVec]
                &&& e.given == input.kind_view()
            },
            _ => {
                let len = (match input {
                    Value::String(s) => s@.len(),
                    Value::StringVec(v) => v@.len(),
                    Value::Bool(_) => 0,
                });
                if !range.bounds_valid(len) {
                    r == Err::<Value, Error>(
                        Error::Range(
                            RangeError::OutOfTargetRange(
                                range,
                                range.translated(len),
                                valid_repr(len),
                            ),
                        ),
                    )
                } else if range.start_abs(len) > range.end_abs(len) {
                    r == Err::<Value, Error>(
                        Error::Range(
                            RangeError::IncompatibleBounds(range.translated(len), valid_repr(len)),
                        ),
                    )
                } else {
                    (match input {
                        Value::String(s) => r matches Ok(Value::String(t)) && t@ == s@.subrange(
                            range.start_abs(len),
                            range.end_abs(len),
                        ),
                        Value::StringVec(v) => r matches Ok(Value::StringVec(w)) && w@
                            == v@.subrange(range.start_abs(len), range.end_abs(len)),
                        Value::Bool(_) => false,
                    })
                }
            },
        }),
{
    let len = match input.unwrap_len() {
        Ok(l) => l,
        Err(e) => {
            return Err(e);
        },
    };
    let (lower, upper) = match range.as_range(len) {
        Ok(pair) => pair,
        Err(e) => {
            return Err(Error::Range(e));
        },
    };
    match input {
        Value::String(string) => {
            let out = String::from_str(string.as_str().substring_char(lower, upper));
            Ok(Value::String(out))
        },
        Value::StringVec(vec) => {
            let mut out: Vec<String> = Vec::new();
            let mut i: usize = lower;
            while i < upper
                invariant
                    lower <= i <= upper,
                    upper <= vec@.len(),
                    out@ == vec@.subrange(lower as int, i as int),
                decreases upper - i,
            {
                let element = vec[i].clone();
                out.push(element);
                proof {
                    assert(out@ =~= vec@.subrange(lower as int, i + 1));
                }
                i = i + 1;
            }
            Ok(Value::StringVec(out))
        },
        x => {
            let k = x.kind();
            Err(Error::ArgMismatch(ArgMismatchError::new(vec![Kind::String, Kind::StringVec], k)))
        },
    }
}

/// Indexes a string input by character position, or a string list input
/// by element position, after resolving the index against the input's
/// length: the result is the selected character as a string, or the
/// selected element. A boolean input is a mismatch naming the two accepted
/// kinds.
#[verifier::rlimit(60)]
pub fn index(input: Value, idx: EolinaRangeBound) -> (r: Result<Value, Error>)
    ensures
        (match input {
            Value::Bool(_) => {
                &&& r matches Err(Error::ArgMismatch(e))
                &&& e.expected@ == seq![Kind::String, Kind::StringVec]
                &&& e.given == input.kind_view()
            },
            _ => {
                let len = (match input {
                    Value::String(s) => s@.len(),
                    Value::StringVec(v) => v@.len(),
                    Value::Bool(_) => 0,
                });
                let abs = bound_abs(idx, len);
                if !(0 <= abs < len) {
                    r == Err::<Value, Error>(
                        Error::Index(IndexError::OutOfTargetRange(idx, len as usize)),
                    )
                } else {
                    (match input {
                        Value::String(s) => r matches Ok(Value::String(t)) && t@ == seq![
                            s@[abs],
                        ],
                        Value::StringVec(v) => r matches Ok(Value::String(t)) && t@ == v@[abs]@,
                        Value::Bool(_) => false,
                    })
                }
            },
        }),
{
    let len = match input.unwrap_len() {
        Ok(l) => l,
        Err(e) => {
            return Err(e);
        },
    };
    let abs = match idx.to_absolute(len) {
        Ok(a) => a,
        Err(e) => {
            return Err(Error::Index(e));
        },
    };
    if abs >= len {
        return Err(Error::Index(IndexError::OutOfTargetRange(idx, len)));
    }
    match input {
        Value::String(string) => {
            let c = string.as_str().get_char(abs);
            let mut out = String::new();
            out.push(c);
            proof {
                assert(out@ =~= seq![string@[abs as int]]);
            }
            Ok(Value::String(out))
        },
        Value::StringVec(vec) => {
            let element = vec[abs].clone();
            Ok(Value::String(element))
        },
        x => {
            let k = x.kind();
            Err(Error::ArgMismatch(ArgMismatchError::new(vec![Kind::String, Kind::StringVec], k)))
        },
    }
}

} // verus!
