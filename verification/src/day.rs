//! The day token: a decimal magnitude followed by its English ordinal suffix.

use vstd::prelude::*;

use crate::error::Error;
use crate::num::{all_digits, char_is_digit, is_digit, spec_parse_u32};
use crate::num::parse_u32_from;
use crate::text::copy_range;

verus! {

/// Length of the maximal run of ASCII digits at the front of `s`.
pub open spec fn digit_run_len(s: Seq<char>) -> nat
    decreases s.len(),
{
    if s.len() == 0 || !is_digit(s[0]) {
        0
    } else {
        1 + digit_run_len(s.skip(1))
    }
}

/// `digit_run_len(s)` is the unique cut `k`: everything before it is a
/// digit, and it is either the end of `s` or a non-digit.
pub proof fn lemma_digit_run_len_is_cut(s: Seq<char>, k: int)
    requires
        0 <= k <= s.len(),
        forall|i: int| 0 <= i < k ==> is_digit(#[trigger] s[i]),
        k == s.len() || !is_digit(s[k]),
    ensures
        digit_run_len(s) == k,
    decreases s.len(),
{
    if s.len() == 0 || !is_digit(s[0]) {
        assert(k == 0);
    } else {
        assert(k >= 1);
        let t = s.skip(1);
        assert forall|i: int| 0 <= i < k - 1 implies is_digit(#[trigger] t[i]) by {
            assert(t[i] == s[i + 1]);
        }
        if k < s.len() {
            assert(t[k - 1] == s[k]);
        }
        lemma_digit_run_len_is_cut(t, k - 1);
    }
}

/// English ordinal grammar: the suffix that day magnitude `d` must carry.
/// Magnitudes outside 1..=31 carry no correct suffix at all.
pub open spec fn ordinal_ok(d: u32, suf: Seq<char>) -> bool {
    ||| ((d == 1 || d == 21 || d == 31) && suf == "st"@)
    ||| ((d == 2 || d == 22) && suf == "nd"@)
    ||| ((d == 3 || d == 23) && suf == "rd"@)
    ||| (((4 <= d && d <= 20) || (24 <= d && d <= 30)) && suf == "th"@)
}

/// What parsing the day token yields: the token is cut at the end of its
/// leading digit run; the digits must denote a `u32`, and the rest must be
/// the grammatically correct ordinal suffix for that value.
pub open spec fn spec_parse_day(t: Seq<char>) -> Result<u32, Error> {
    let k = digit_run_len(t) as int;
    match spec_parse_u32(t.take(k)) {
        None => Err(Error::ParseError),
        Some(d) => if ordinal_ok(d, t.skip(k)) {
            Ok(d)
        } else {
            Err(Error::InvalidDayError)
        },
    }
}

/// Parses a day token such as "4th": leading digits give the magnitude, the
/// remainder must be its correct English ordinal suffix.
pub fn parse_day(t: &Vec<char>) -> (r: Result<u32, Error>)
    ensures
        r == spec_parse_day(t@),
{
    let n = t.len();
    let mut k: usize = 0;
    while k < n
        invariant
            k <= n,
            n == t@.len(),
            forall|q: int| 0 <= q < k ==> is_digit(#[trigger] t@[q]),
        ensures
            k <= n,
            n == t@.len(),
            forall|q: int| 0 <= q < k ==> is_digit(#[trigger] t@[q]),
            k == n || !is_digit(t@[k as int]),
        decreases n - k,
    {
        if !char_is_digit(t[k]) {
            break ;
        }
        k = k + 1;
    }
    proof {
        lemma_digit_run_len_is_cut(t@, k as int);
    }
    let digits = copy_range(t, 0, k);
    proof {
        assert(digits@ =~= t@.take(k as int));
        assert(digits@.skip(0) =~= digits@);
    }
    let magnitude = parse_u32_from(&digits, 0);
    match magnitude {
        None => Err(Error::ParseError),
        Some(d) => {
            let suffix = copy_range(t, k, n);
            proof {
                assert(suffix@ =~= t@.skip(k as int));
            }
            let suffix_fits = if d == 1 || d == 21 || d == 31 {
                crate::text::chars_eq_str(&suffix, "st")
            } else if d == 2 || d == 22 {
                crate::text::chars_eq_str(&suffix, "nd")
            } else if d == 3 || d == 23 {
                crate::text::chars_eq_str(&suffix, "rd")
            } else if (4 <= d && d <= 20) || (24 <= d && d <= 30) {
                crate::text::chars_eq_str(&suffix, "th")
            } else {
                false
            };
            if suffix_fits {
                Ok(d)
            } else {
                Err(Error::InvalidDayError)
            }
        },
    }
}

} // verus!
