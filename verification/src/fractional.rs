//! The grammar of decimal literals with a fraction or an exponent. A value of
//! such a type is carried as the text of its literal: this module decides
//! which texts are literals, and leaves their numeric value to the caller.
//!
//! ```text
//! Literal  ::= Sign? ( 'inf' | 'infinity' | 'nan' | Number )
//! Number   ::= ( Digit+ | Digit+ '.' Digit* | Digit* '.' Digit+ ) Exponent?
//! Exponent ::= 'e' Sign? Digit+
//! ```
//!
//! Letters are matched without regard to ASCII case.

use crate::decimal::is_digit;
use crate::text::chars_of;
use vstd::prelude::*;

verus! {

/// Where the longest run of digits that begins at `from` ends.
pub open spec fn digits_end(s: Seq<char>, from: int) -> int
    decreases s.len() - from,
{
    if 0 <= from < s.len() && is_digit(s[from]) {
        digits_end(s, from + 1)
    } else {
        from
    }
}

/// A sign character.
pub open spec fn is_sign(c: char) -> bool {
    c == '+' || c == '-'
}

/// The upper-case form of an ASCII letter; any other character unchanged.
pub open spec fn ascii_upper(c: char) -> char {
    if 'a' <= c && c <= 'z' {
        ((c as u32) - 32) as char
    } else {
        c
    }
}

/// Whether `s[from..]` spells the upper-case word `word`, in any case.
pub open spec fn is_word_from(s: Seq<char>, from: int, word: Seq<char>) -> bool {
    &&& s.len() - from == word.len()
    &&& forall|i: int| 0 <= i < word.len() ==> ascii_upper(#[trigger] s[from + i]) == word[i]
}

/// Whether `s[at..]` is an exponent: `e`, an optional sign, and digits up to
/// the end of the text.
pub open spec fn is_exponent_from(s: Seq<char>, at: int) -> bool {
    &&& 0 <= at < s.len()
    &&& (s[at] == 'e' || s[at] == 'E')
    &&& {
        let c = if at + 1 < s.len() && is_sign(s[at + 1]) {
            at + 2
        } else {
            at + 1
        };
        c < s.len() && digits_end(s, c) == s.len()
    }
}

/// Whether `s[from..]` is a number: digits with at most one point among them,
/// at least one digit in all, and an optional exponent.
pub open spec fn is_number_from(s: Seq<char>, from: int) -> bool {
    let a = digits_end(s, from);
    let b = if a < s.len() && s[a] == '.' {
        digits_end(s, a + 1)
    } else {
        a
    };
    let digits = (a - from) + (if b > a {
        b - a - 1
    } else {
        0
    });
    &&& digits > 0
    &&& (b == s.len() || is_exponent_from(s, b))
}

/// Whether `s` is a literal of the grammar at the head of this module.
pub open spec fn is_fractional_literal(s: Seq<char>) -> bool {
    let from: int = if s.len() > 0 && is_sign(s[0]) {
        1
    } else {
        0
    };
    ||| is_word_from(s, from, "INF"@)
    ||| is_word_from(s, from, "INFINITY"@)
    ||| is_word_from(s, from, "NAN"@)
    ||| is_number_from(s, from)
}

/// Where the longest run of digits of `v` that begins at `from` ends.
fn scan_digits(v: &Vec<char>, from: usize) -> (end: usize)
    requires
        from <= v.len(),
    ensures
        from <= end <= v.len(),
        end == digits_end(v@, from as int),
{
    let mut i: usize = from;
    while i < v.len() && '0' <= v[i] && v[i] <= '9'
        invariant
            from <= i <= v.len(),
            digits_end(v@, from as int) == digits_end(v@, i as int),
        decreases v.len() - i,
    {
        i += 1;
    }
    i
}

/// The upper-case form of an ASCII letter; any other character unchanged.
fn to_ascii_upper(c: char) -> (r: char)
    ensures
        r == ascii_upper(c),
{
    if 'a' <= c && c <= 'z' {
        let n: u8 = ((c as u32) - 32) as u8;
        n as char
    } else {
        c
    }
}

/// Whether `v[from..]` spells the upper-case word `word`, in any case.
fn spells(v: &Vec<char>, from: usize, word: &str) -> (r: bool)
    requires
        from <= v.len(),
    ensures
        r == is_word_from(v@, from as int, word@),
{
    let w = chars_of(word);
    if v.len() - from != w.len() {
        return false;
    }
    let mut i: usize = 0;
    while i < w.len()
        invariant
            i <= w.len(),
            from + w.len() == v.len(),
            w@ == word@,
            forall|k: int| 0 <= k < i ==> ascii_upper(#[trigger] v@[from + k]) == w@[k],
        decreases w.len() - i,
    {
        if to_ascii_upper(v[from + i]) != w[i] {
            return false;
        }
        i += 1;
    }
    true
}

/// Whether `v[at..]` is an exponent.
fn exponent_at(v: &Vec<char>, at: usize) -> (r: bool)
    requires
        at <= v.len(),
    ensures
        r == is_exponent_from(v@, at as int),
{
    if at >= v.len() || !(v[at] == 'e' || v[at] == 'E') {
        return false;
    }
    let c: usize = if at + 1 < v.len() && (v[at + 1] == '+' || v[at + 1] == '-') {
        at + 2
    } else {
        at + 1
    };
    if c >= v.len() {
        return false;
    }
    scan_digits(v, c) == v.len()
}

/// Whether `v[from..]` is a number.
fn number_at(v: &Vec<char>, from: usize) -> (r: bool)
    requires
        from <= v.len(),
    ensures
        r == is_number_from(v@, from as int),
{
    let a = scan_digits(v, from);
    let b = if a < v.len() && v[a] == '.' {
        scan_digits(v, a + 1)
    } else {
        a
    };
    let digits: usize = (a - from) + (if b > a {
        b - a - 1
    } else {
        0
    });
    digits > 0 && (b == v.len() || exponent_at(v, b))
}

/// Whether `v` is a literal of the grammar at the head of this module.
pub fn is_fractional(v: &Vec<char>) -> (r: bool)
    ensures
        r == is_fractional_literal(v@),
{
    let from: usize = if v.len() > 0 && (v[0] == '+' || v[0] == '-') {
        1
    } else {
        0
    };
    spells(v, from, "INF") || spells(v, from, "INFINITY") || spells(v, from, "NAN") || number_at(
        v,
        from,
    )
}

} // verus!
