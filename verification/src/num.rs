//! Decimal integers: what a digit string denotes, and executable parsers
//! for the day magnitude (`u32`) and the year (`i32`).

use vstd::prelude::*;

verus! {

/// An ASCII decimal digit.
pub open spec fn is_digit(c: char) -> bool {
    0x30 <= c as u32 && c as u32 <= 0x39
}

/// Executable test for [`is_digit`].
pub fn char_is_digit(c: char) -> (r: bool)
    ensures
        r == is_digit(c),
{
    let u = c as u32;
    0x30 <= u && u <= 0x39
}

/// The numeric value of an ASCII decimal digit.
pub open spec fn digit_val(c: char) -> nat
    recommends
        is_digit(c),
{
    (c as u32 - 0x30) as nat
}

/// Every character of `s` is an ASCII decimal digit.
pub open spec fn all_digits(s: Seq<char>) -> bool {
    forall|i: int| 0 <= i < s.len() ==> is_digit(#[trigger] s[i])
}

/// The natural number a digit string denotes in base ten.
pub open spec fn dec_value(s: Seq<char>) -> nat
    recommends
        all_digits(s),
    decreases s.len(),
{
    if s.len() == 0 {
        0
    } else {
        10 * dec_value(s.drop_last()) + digit_val(s.last())
    }
}

/// What `str::parse::<u32>` yields on a string of digit characters only:
/// the denoted value, unless the string is empty, holds a non-digit, or the
/// value overflows `u32`.
pub open spec fn spec_parse_u32(s: Seq<char>) -> Option<u32> {
    if s.len() > 0 && all_digits(s) && dec_value(s) <= u32::MAX {
        Some(dec_value(s) as u32)
    } else {
        None
    }
}

/// What `str::parse::<i32>` yields: an optional single `+` or `-` sign,
/// then at least one digit, denoting a value in `i32` range.
pub open spec fn spec_parse_i32(s: Seq<char>) -> Option<i32> {
    if s.len() > 0 && (s[0] == '+' || s[0] == '-') {
        let mag = s.skip(1);
        if mag.len() > 0 && all_digits(mag) {
            if s[0] == '-' {
                if dec_value(mag) <= 0x8000_0000 {
                    Some((-(dec_value(mag) as int)) as i32)
                } else {
                    None
                }
            } else {
                if dec_value(mag) <= i32::MAX {
                    Some(dec_value(mag) as i32)
                } else {
                    None
                }
            }
        } else {
            None
        }
    } else if s.len() > 0 && all_digits(s) && dec_value(s) <= i32::MAX {
        Some(dec_value(s) as i32)
    } else {
        None
    }
}

/// A digit string denotes at least as much as any of its prefixes.
pub proof fn lemma_dec_value_prefix(s: Seq<char>, j: int)
    requires
        0 <= j <= s.len(),
    ensures
        dec_value(s.take(j)) <= dec_value(s),
    decreases s.len() - j,
{
    if j == s.len() {
        assert(s.take(j) =~= s);
    } else {
        assert(s.take(j + 1).drop_last() =~= s.take(j));
        assert(s.take(j + 1).last() == s[j]);
        lemma_dec_value_prefix(s, j + 1);
    }
}

/// Parses the digits of `s` from position `start` on, as `str::parse::<u32>`
/// would parse that remainder.
pub fn parse_u32_from(s: &Vec<char>, start: usize) -> (r: Option<u32>)
    requires
        start <= s@.len(),
    ensures
        r == spec_parse_u32(s@.skip(start as int)),
{
    let ghost m = s@.skip(start as int);
    let n = s.len();
    if start == n {
        return None;
    }
    let mut acc: u32 = 0;
    let mut i: usize = start;
    while i < n
        invariant
            start <= i <= n,
            n == s@.len(),
            m == s@.skip(start as int),
            forall|q: int| 0 <= q < i - start ==> is_digit(#[trigger] m[q]),
            acc == dec_value(m.take(i - start)),
        decreases n - i,
    {
        let c = s[i];
        proof {
            assert(m[i - start] == s@[i as int]);
        }
        if !char_is_digit(c) {
            return None;
        }
        let d: u32 = c as u32 - 0x30;
        proof {
            assert(m.take(i - start + 1).drop_last() =~= m.take(i - start));
            assert(m.take(i - start + 1).last() == m[i - start]);
        }
        if acc > 429_496_729 || (acc == 429_496_729 && d > 5) {
            proof {
                lemma_dec_value_prefix(m, i - start + 1);
            }
            return None;
        }
        acc = acc * 10 + d;
        i = i + 1;
    }
    proof {
        assert(m.take(n - start) =~= m);
    }
    Some(acc)
}

/// Parses a whole token as `str::parse::<i32>` would: an optional sign,
/// then at least one digit, in `i32` range.
pub fn parse_i32_chars(s: &Vec<char>) -> (r: Option<i32>)
    ensures
        r == spec_parse_i32(s@),
{
    if s.len() == 0 {
        return None;
    }
    let c0 = s[0];
    if c0 == '+' || c0 == '-' {
        let mag = parse_u32_from(s, 1);
        match mag {
            None => None,
            Some(v) => {
                if c0 == '-' {
                    if v > 0x8000_0000 {
                        None
                    } else if v == 0x8000_0000 {
                        Some(i32::MIN)
                    } else {
                        Some(-(v as i32))
                    }
                } else {
                    if v > 0x7FFF_FFFF {
                        None
                    } else {
                        Some(v as i32)
                    }
                }
            },
        }
    } else {
        let v = parse_u32_from(s, 0);
        proof {
            assert(s@.skip(0) =~= s@);
        }
        match v {
            None => None,
            Some(v) => {
                if v > 0x7FFF_FFFF {
                    None
                } else {
                    Some(v as i32)
                }
            },
        }
    }
}

} // verus!
