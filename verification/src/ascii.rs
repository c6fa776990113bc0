//! ASCII character classes and case transformations.
//!
//! The language's predicates (`v`, `c`, `_`, `^`) and maps (`{_}`, `{^}`,
//! `{%}`) are all defined character-wise over the ASCII letters; every other
//! character is unaffected by the maps and fails the predicates.

use vstd::prelude::*;
use vstd::string::*;

verus! {

/// The character is an ASCII lowercase letter.
pub open spec fn is_lower_char(c: char) -> bool {
    'a' <= c && c <= 'z'
}

/// The character is an ASCII uppercase letter.
pub open spec fn is_upper_char(c: char) -> bool {
    'A' <= c && c <= 'Z'
}

/// The character is an ASCII vowel, in either case.
pub open spec fn is_vowel_char(c: char) -> bool {
    c == 'a' || c == 'e' || c == 'i' || c == 'o' || c == 'u' || c == 'A' || c == 'E' || c == 'I'
        || c == 'O' || c == 'U'
}

/// The character is an ASCII consonant: a letter that is not a vowel.
pub open spec fn is_conso_char(c: char) -> bool {
    (is_lower_char(c) || is_upper_char(c)) && !is_vowel_char(c)
}

/// The uppercase form of an ASCII letter; any other character is unchanged.
pub open spec fn to_upper_char(c: char) -> char {
    if is_lower_char(c) {
        ((c as u8) - 0x20) as char
    } else {
        c
    }
}

/// The lowercase form of an ASCII letter; any other character is unchanged.
pub open spec fn to_lower_char(c: char) -> char {
    if is_upper_char(c) {
        ((c as u8) + 0x20) as char
    } else {
        c
    }
}

/// Swaps the case of an ASCII letter; any other character is unchanged.
pub open spec fn to_swap_char(c: char) -> char {
    if is_upper_char(c) {
        to_lower_char(c)
    } else if is_lower_char(c) {
        to_upper_char(c)
    } else {
        c
    }
}

/// Every character of the sequence is an ASCII lowercase letter.
pub open spec fn all_lower(s: Seq<char>) -> bool {
    forall|i: int| 0 <= i < s.len() ==> is_lower_char(s[i])
}

/// Every character of the sequence is an ASCII uppercase letter.
pub open spec fn all_upper(s: Seq<char>) -> bool {
    forall|i: int| 0 <= i < s.len() ==> is_upper_char(s[i])
}

/// Every character of the sequence is an ASCII vowel.
pub open spec fn all_vowel(s: Seq<char>) -> bool {
    forall|i: int| 0 <= i < s.len() ==> is_vowel_char(s[i])
}

/// Every character of the sequence is an ASCII consonant.
pub open spec fn all_conso(s: Seq<char>) -> bool {
    forall|i: int| 0 <= i < s.len() ==> is_conso_char(s[i])
}

/// The sequence with every character mapped to its uppercase form.
pub open spec fn upper_seq(s: Seq<char>) -> Seq<char> {
    s.map_values(|c: char| to_upper_char(c))
}

/// The sequence with every character mapped to its lowercase form.
pub open spec fn lower_seq(s: Seq<char>) -> Seq<char> {
    s.map_values(|c: char| to_lower_char(c))
}

/// The sequence with every character's case swapped.
pub open spec fn swap_seq(s: Seq<char>) -> Seq<char> {
    s.map_values(|c: char| to_swap_char(c))
}

/// An extension trait for checking ASCII values for specific properties and
/// for converting them between cases.
///
/// All specifications are stated over `chars_view`, the value's characters.
pub trait AsciiExt: Sized {
    /// The characters this value consists of.
    spec fn chars_view(&self) -> Seq<char>;

    /// Converts the value to its uppercase representation.
    fn into_upper(self) -> (r: Self)
        ensures
            r.chars_view() == upper_seq(self.chars_view()),
    ;

    /// Converts the value to its lowercase representation.
    fn into_lower(self) -> (r: Self)
        ensures
            r.chars_view() == lower_seq(self.chars_view()),
    ;

    /// Converts each uppercase character to lowercase and vice versa.
    fn into_swap(self) -> (r: Self)
        ensures
            r.chars_view() == swap_seq(self.chars_view()),
    ;

    /// Returns whether the value consists only of uppercase characters.
    fn is_upper(&self) -> (r: bool)
        ensures
            r == all_upper(self.chars_view()),
    ;

    /// Returns whether the value consists only of lowercase characters.
    fn is_lower(&self) -> (r: bool)
        ensures
            r == all_lower(self.chars_view()),
    ;

    /// Returns whether the value consists only of vowels.
    fn is_vowel(&self) -> (r: bool)
        ensures
            r == all_vowel(self.chars_view()),
    ;

    /// Returns whether the value consists only of consonants.
    fn is_conso(&self) -> (r: bool)
        ensures
            r == all_conso(self.chars_view()),
    ;
}

impl AsciiExt for char {
    open spec fn chars_view(&self) -> Seq<char> {
        seq![*self]
    }

    fn into_upper(self) -> (r: char) {
        let r = if 'a' <= self && self <= 'z' {
            ((self as u8) - 0x20) as char
        } else {
            self
        };
        proof {
            assert(seq![r] =~= upper_seq(seq![self]));
        }
        r
    }

    fn into_lower(self) -> (r: char) {
        let r = if 'A' <= self && self <= 'Z' {
            ((self as u8) + 0x20) as char
        } else {
            self
        };
        proof {
            assert(seq![r] =~= lower_seq(seq![self]));
        }
        r
    }

    fn into_swap(self) -> (r: char) {
        let r = if 'A' <= self && self <= 'Z' {
            ((self as u8) + 0x20) as char
        } else if 'a' <= self && self <= 'z' {
            ((self as u8) - 0x20) as char
        } else {
            self
        };
        proof {
            assert(seq![r] =~= swap_seq(seq![self]));
        }
        r
    }

    fn is_upper(&self) -> (r: bool) {
        let r = 'A' <= *self && *self <= 'Z';
        proof {
            let s = self.chars_view();
            assert(s.len() == 1);
            assert(s[0] == *self);
            if r {
                assert(forall|i: int| 0 <= i < s.len() ==> #[trigger] s[i] == *self);
            } else {
                assert(!is_upper_char(s[0]));
            }
        }
        r
    }

    fn is_lower(&self) -> (r: bool) {
        let r = 'a' <= *self && *self <= 'z';
        proof {
            let s = self.chars_view();
            assert(s[0] == *self);
            if r {
                assert(forall|i: int| 0 <= i < s.len() ==> #[trigger] s[i] == *self);
            } else {
                assert(!is_lower_char(s[0]));
            }
        }
        r
    }

    fn is_vowel(&self) -> (r: bool) {
        let r = matches!(*self, 'a' | 'e' | 'i' | 'o' | 'u' | 'A' | 'E' | 'I' | 'O' | 'U');
        proof {
            let s = self.chars_view();
            assert(s[0] == *self);
            if r {
                assert(forall|i: int| 0 <= i < s.len() ==> #[trigger] s[i] == *self);
            } else {
                assert(!is_vowel_char(s[0]));
            }
        }
        r
    }

    fn is_conso(&self) -> (r: bool) {
        let lower = 'a' <= *self && *self <= 'z';
        let upper = 'A' <= *self && *self <= 'Z';
        let vowel = matches!(*self, 'a' | 'e' | 'i' | 'o' | 'u' | 'A' | 'E' | 'I' | 'O' | 'U');
        let r = (lower || upper) && !vowel;
        proof {
            let s = self.chars_view();
            assert(s[0] == *self);
            if r {
                assert(forall|i: int| 0 <= i < s.len() ==> #[trigger] s[i] == *self);
            } else {
                assert(!is_conso_char(s[0]));
            }
        }
        r
    }
}

impl AsciiExt for String {
    open spec fn chars_view(&self) -> Seq<char> {
        self@
    }

    fn into_upper(self) -> (r: String) {
        let n = self.as_str().unicode_len();
        let mut out = String::new();
        let mut i: usize = 0;
        while i < n
            invariant
                i <= n,
                n == self@.len(),
                out@ =~= upper_seq(self@.subrange(0, i as int)),
            decreases n - i,
        {
            let c = self.as_str().get_char(i);
            let u = c.into_upper();
            proof {
                assert(u.chars_view()[0] == u);
                assert(c.chars_view()[0] == c);
                assert(u == to_upper_char(c));
            }
            out.push(u);
            i = i + 1;
            proof {
                assert(out@ =~= upper_seq(self@.subrange(0, i as int)));
            }
        }
        proof {
            assert(self@.subrange(0, n as int) =~= self@);
        }
        out
    }

    fn into_lower(self) -> (r: String) {
        let n = self.as_str().unicode_len();
        let mut out = String::new();
        let mut i: usize = 0;
        while i < n
            invariant
                i <= n,
                n == self@.len(),
                out@ =~= lower_seq(self@.subrange(0, i as int)),
            decreases n - i,
        {
            let c = self.as_str().get_char(i);
            let u = c.into_lower();
            proof {
                assert(u.chars_view()[0] == u);
                assert(c.chars_view()[0] == c);
                assert(u == to_lower_char(c));
            }
            out.push(u);
            i = i + 1;
            proof {
                assert(out@ =~= lower_seq(self@.subrange(0, i as int)));
            }
        }
        proof {
            assert(self@.subrange(0, n as int) =~= self@);
        }
        out
    }

    fn into_swap(self) -> (r: String) {
        let n = self.as_str().unicode_len();
        let mut out = String::new();
        let mut i: usize = 0;
        while i < n
            invariant
                i <= n,
                n == self@.len(),
                out@ =~= swap_seq(self@.subrange(0, i as int)),
            decreases n - i,
        {
            let c = self.as_str().get_char(i);
            let u = c.into_swap();
            proof {
                assert(u.chars_view()[0] == u);
                assert(c.chars_view()[0] == c);
                assert(u == to_swap_char(c));
            }
            out.push(u);
            i = i + 1;
            proof {
                assert(out@ =~= swap_seq(self@.subrange(0, i as int)));
            }
        }
        proof {
            assert(self@.subrange(0, n as int) =~= self@);
        }
        out
    }

    fn is_upper(&self) -> (r: bool) {
        let n = self.as_str().unicode_len();
        let mut i: usize = 0;
        while i < n
            invariant
                i <= n,
                n == self@.len(),
                forall|j: int| 0 <= j < i ==> is_upper_char(self@[j]),
            decreases n - i,
        {
            let c = self.as_str().get_char(i);
            let ok = c.is_upper();
            proof {
                assert(c.chars_view()[0] == c);
                assert(ok == is_upper_char(c));
            }
            if !ok {
                return false;
            }
            i = i + 1;
        }
        true
    }

    fn is_lower(&self) -> (r: bool) {
        let n = self.as_str().unicode_len();
        let mut i: usize = 0;
        while i < n
            invariant
                i <= n,
                n == self@.len(),
                forall|j: int| 0 <= j < i ==> is_lower_char(self@[j]),
            decreases n - i,
        {
            let c = self.as_str().get_char(i);
            let ok = c.is_lower();
            proof {
                assert(c.chars_view()[0] == c);
                assert(ok == is_lower_char(c));
            }
            if !ok {
                return false;
            }
            i = i + 1;
        }
        true
    }

    fn is_vowel(&self) -> (r: bool) {
        let n = self.as_str().unicode_len();
        let mut i: usize = 0;
        while i < n
            invariant
                i <= n,
                n == self@.len(),
                forall|j: int| 0 <= j < i ==> is_vowel_char(self@[j]),
            decreases n - i,
        {
            let c = self.as_str().get_char(i);
            let ok = c.is_vowel();
            proof {
                assert(c.chars_view()[0] == c);
                assert(ok == is_vowel_char(c));
            }
            if !ok {
                return false;
            }
            i = i + 1;
        }
        true
    }

    fn is_conso(&self) -> (r: bool) {
        let n = self.as_str().unicode_len();
        let mut i: usize = 0;
        while i < n
            invariant
                i <= n,
                n == self@.len(),
                forall|j: int| 0 <= j < i ==> is_conso_char(self@[j]),
            decreases n - i,
        {
            let c = self.as_str().get_char(i);
            let ok = c.is_conso();
            proof {
                assert(c.chars_view()[0] == c);
                assert(ok == is_conso_char(c));
            }
            if !ok {
                return false;
            }
            i = i + 1;
        }
        true
    }
}

} // verus!
