//! Decimal integer literals: what they denote, how they are read within the
//! range of an integer type, and how an integer is written back as text.

use vstd::prelude::*;

verus! {

/// An ASCII decimal digit.
pub open spec fn is_digit(c: char) -> bool {
    '0' <= c && c <= '9'
}

/// The number that a digit stands for.
pub open spec fn digit_value(c: char) -> int {
    c as int - 48
}

/// Whether `s` holds decimal digits only.
pub open spec fn all_digits(s: Seq<char>) -> bool {
    forall|i: int| 0 <= i < s.len() ==> is_digit(#[trigger] s[i])
}

/// The number that a run of digits denotes in base ten; leading zeros count
/// for nothing.
pub open spec fn digits_value(s: Seq<char>) -> int
    decreases s.len(),
{
    if s.len() == 0 {
        0
    } else {
        digits_value(s.drop_last()) * 10 + digit_value(s.last())
    }
}

/// The number that a decimal literal denotes: an optional sign, `+` or, for a
/// signed type, `-`, followed by one or more digits and nothing else.
pub open spec fn literal_value(s: Seq<char>, signed: bool) -> Option<int> {
    if s.len() > 0 && s[0] == '+' {
        if s.len() > 1 && all_digits(s.skip(1)) {
            Some(digits_value(s.skip(1)))
        } else {
            None
        }
    } else if signed && s.len() > 0 && s[0] == '-' {
        if s.len() > 1 && all_digits(s.skip(1)) {
            Some(-digits_value(s.skip(1)))
        } else {
            None
        }
    } else if s.len() > 0 && all_digits(s) {
        Some(digits_value(s))
    } else {
        None
    }
}

/// The number that `s` denotes where it is a literal whose value lies within
/// `min ..= max`.
pub open spec fn literal_in_range(s: Seq<char>, signed: bool, min: int, max: int) -> Option<int> {
    match literal_value(s, signed) {
        Some(n) => if min <= n <= max {
            Some(n)
        } else {
            None
        },
        None => None,
    }
}

/// A run of digits never denotes a negative number.
pub proof fn lemma_digits_value_nonnegative(s: Seq<char>)
    requires
        all_digits(s),
    ensures
        0 <= digits_value(s),
    decreases s.len(),
{
    if s.len() > 0 {
        assert(is_digit(s.last()));
        lemma_digits_value_nonnegative(s.drop_last());
    }
}

/// Reads the digits `v[from..]` as a number no greater than `limit`.
fn read_digits(v: &Vec<char>, from: usize, limit: u64) -> (r: Option<u64>)
    requires
        from <= v.len(),
    ensures
        match r {
            Some(n) => {
                &&& from < v.len()
                &&& all_digits(v@.skip(from as int))
                &&& digits_value(v@.skip(from as int)) == n
                &&& n <= limit
            },
            None => {
                ||| from == v.len()
                ||| !all_digits(v@.skip(from as int))
                ||| digits_value(v@.skip(from as int)) > limit
            },
        },
{
    if from == v.len() {
        return None;
    }
    let ghost tail = v@.skip(from as int);
    let mut acc: u64 = 0;
    let mut i: usize = from;
    let mut fits = true;
    assert(tail.take(0) == Seq::<char>::empty());
    while i < v.len()
        invariant
            from <= i <= v.len(),
            tail == v@.skip(from as int),
            all_digits(tail.take(i - from)),
            fits ==> digits_value(tail.take(i - from)) == acc && acc <= limit,
            !fits ==> digits_value(tail.take(i - from)) > limit,
        decreases v.len() - i,
    {
        let c = v[i];
        if !('0' <= c && c <= '9') {
            assert(!is_digit(tail[i - from]));
            return None;
        }
        let d: u64 = (c as u64) - 48;
        proof {
            assert(tail.take(i - from + 1).drop_last() == tail.take(i - from));
            assert(tail.take(i - from + 1).last() == c);
            assert forall|k: int| 0 <= k < i - from + 1 implies is_digit(
                #[trigger] tail.take(i - from + 1)[k],
            ) by {
                if k < i - from {
                    assert(tail.take(i - from)[k] == tail.take(i - from + 1)[k]);
                }
            }
            lemma_digits_value_nonnegative(tail.take(i - from));
        }
        if fits {
            if d > limit || acc > (limit - d) / 10 {
                fits = false;
            } else {
                acc = acc * 10 + d;
            }
        }
        i += 1;
    }
    assert(tail.take(v.len() - from) == tail);
    if fits {
        Some(acc)
    } else {
        None
    }
}

/// Reads an unsigned decimal literal whose value is at most `max`.
pub fn parse_unsigned(v: &Vec<char>, max: u64) -> (r: Option<u64>)
    ensures
        match r {
            Some(n) => literal_in_range(v@, false, 0, max as int) == Some(n as int),
            None => literal_in_range(v@, false, 0, max as int) is None,
        },
{
    let from: usize = if v.len() > 0 && v[0] == '+' {
        1
    } else {
        0
    };
    proof {
        if from == 0 {
            assert(v@.skip(0) == v@);
        }
        if all_digits(v@.skip(from as int)) {
            lemma_digits_value_nonnegative(v@.skip(from as int));
        }
    }
    read_digits(v, from, max)
}

/// Reads a signed decimal literal whose value lies within `min ..= max`; no
/// literal does where `min` is greater than `max`.
pub fn parse_signed(v: &Vec<char>, min: i64, max: i64) -> (r: Option<i64>)
    ensures
        match r {
            Some(n) => literal_in_range(v@, true, min as int, max as int) == Some(n as int),
            None => literal_in_range(v@, true, min as int, max as int) is None,
        },
{
    let negative = v.len() > 0 && v[0] == '-';
    let from: usize = if v.len() > 0 && (v[0] == '+' || v[0] == '-') {
        1
    } else {
        0
    };
    // The magnitude is read within the range of 64 bits, and the number is
    // held to the range asked for afterwards.
    let limit: u64 = if negative {
        0x8000_0000_0000_0000
    } else {
        0x7fff_ffff_ffff_ffff
    };
    proof {
        if from == 0 {
            assert(v@.skip(0) == v@);
        }
        if all_digits(v@.skip(from as int)) {
            lemma_digits_value_nonnegative(v@.skip(from as int));
        }
    }
    match read_digits(v, from, limit) {
        Some(m) => {
            let n: i64 = if negative {
                if m == 0x8000_0000_0000_0000 {
                    i64::MIN
                } else {
                    -(m as i64)
                }
            } else {
                m as i64
            };
            if min <= n && n <= max {
                Some(n)
            } else {
                None
            }
        },
        None => None,
    }
}

/// The character of a digit below ten.
pub open spec fn digit_char(d: int) -> char {
    (d + 48) as char
}

/// The digits of `n` in base ten, without leading zeros.
pub open spec fn digits_of(n: nat) -> Seq<char>
    decreases n,
{
    if n < 10 {
        seq![digit_char(n as int)]
    } else {
        digits_of(n / 10).push(digit_char((n % 10) as int))
    }
}

/// The decimal text of an integer: a `-` before the digits of a negative one.
pub open spec fn decimal_text(n: int) -> Seq<char> {
    if n < 0 {
        seq!['-'] + digits_of((-n) as nat)
    } else {
        digits_of(n as nat)
    }
}

/// The digits of a number are digits, and denote that number.
pub proof fn lemma_digits_of_denote(n: nat)
    ensures
        digits_of(n).len() >= 1,
        all_digits(digits_of(n)),
        digits_value(digits_of(n)) == n,
    decreases n,
{
    if n < 10 {
        let s = digits_of(n);
        assert(s.drop_last() == Seq::<char>::empty());
        assert(digits_value(s.drop_last()) == 0);
    } else {
        lemma_digits_of_denote(n / 10);
        let s = digits_of(n);
        assert(s.drop_last() == digits_of(n / 10));
        assert forall|i: int| 0 <= i < s.len() implies is_digit(#[trigger] s[i]) by {
            if i < s.len() - 1 {
                assert(s[i] == digits_of(n / 10)[i]);
            }
        }
    }
}

/// Reading the decimal text of an integer gives that integer back.
pub proof fn lemma_decimal_text_round_trip(n: int)
    ensures
        literal_value(decimal_text(n), true) == Some(n),
        n >= 0 ==> literal_value(decimal_text(n), false) == Some(n),
{
    if n < 0 {
        let d = digits_of((-n) as nat);
        lemma_digits_of_denote((-n) as nat);
        assert(decimal_text(n).skip(1) == d);
    } else {
        lemma_digits_of_denote(n as nat);
        assert(is_digit(decimal_text(n)[0]));
    }
}

/// Appends the digits of `n` to `out`.
pub fn push_digits(out: &mut Vec<char>, n: u64)
    ensures
        final(out)@ == old(out)@ + digits_of(n as nat),
    decreases n,
{
    if n >= 10 {
        push_digits(out, n / 10);
    }
    let d: u8 = (n % 10) as u8;
    let c: char = (d + 48) as char;
    out.push(c);
    proof {
        if n < 10 {
            assert(out@ == old(out)@ + seq![c]);
        } else {
            assert(out@ == old(out)@ + digits_of((n / 10) as nat).push(c));
        }
    }
}

/// The decimal text of an unsigned integer.
pub fn unsigned_text(n: u64) -> (r: Vec<char>)
    ensures
        r@ == decimal_text(n as int),
{
    let mut out: Vec<char> = Vec::new();
    push_digits(&mut out, n);
    assert(out@ == digits_of(n as nat));
    out
}

/// The decimal text of a signed integer.
pub fn signed_text(n: i64) -> (r: Vec<char>)
    ensures
        r@ == decimal_text(n as int),
{
    let mut out: Vec<char> = Vec::new();
    if n < 0 {
        out.push('-');
        let m: u64 = if n == i64::MIN {
            0x8000_0000_0000_0000
        } else {
            (-n) as u64
        };
        push_digits(&mut out, m);
    } else {
        push_digits(&mut out, n as u64);
        assert(out@ == digits_of(n as nat));
    }
    out
}

} // verus!
