//! The month token: an exact, case-sensitive match against the twelve
//! canonical English month names.

use vstd::prelude::*;

use crate::error::Error;
use crate::text::chars_eq_str;

verus! {

/// The canonical English name of month `m` (1-based).
pub open spec fn month_name(m: u32) -> Seq<char>
    recommends
        1 <= m <= 12,
{
    if m == 1 {
        "January"@
    } else if m == 2 {
        "February"@
    } else if m == 3 {
        "March"@
    } else if m == 4 {
        "April"@
    } else if m == 5 {
        "May"@
    } else if m == 6 {
        "June"@
    } else if m == 7 {
        "July"@
    } else if m == 8 {
        "August"@
    } else if m == 9 {
        "September"@
    } else if m == 10 {
        "October"@
    } else if m == 11 {
        "November"@
    } else {
        "December"@
    }
}

/// What parsing the month token yields: the 1-based position of the token
/// in the canonical month list, or `InvalidMonthError` when it matches none.
pub open spec fn spec_parse_month(t: Seq<char>) -> Result<u32, Error> {
    if t == "January"@ {
        Ok(1u32)
    } else if t == "February"@ {
        Ok(2u32)
    } else if t == "March"@ {
        Ok(3u32)
    } else if t == "April"@ {
        Ok(4u32)
    } else if t == "May"@ {
        Ok(5u32)
    } else if t == "June"@ {
        Ok(6u32)
    } else if t == "July"@ {
        Ok(7u32)
    } else if t == "August"@ {
        Ok(8u32)
    } else if t == "September"@ {
        Ok(9u32)
    } else if t == "October"@ {
        Ok(10u32)
    } else if t == "November"@ {
        Ok(11u32)
    } else if t == "December"@ {
        Ok(12u32)
    } else {
        Err(Error::InvalidMonthError)
    }
}

/// Parses a month token by exact, case-sensitive comparison with the twelve
/// canonical English month names.
pub fn parse_month(t: &Vec<char>) -> (r: Result<u32, Error>)
    ensures
        r == spec_parse_month(t@),
{
    if chars_eq_str(t, "January") {
        Ok(1)
    } else if chars_eq_str(t, "February") {
        Ok(2)
    } else if chars_eq_str(t, "March") {
        Ok(3)
    } else if chars_eq_str(t, "April") {
        Ok(4)
    } else if chars_eq_str(t, "May") {
        Ok(5)
    } else if chars_eq_str(t, "June") {
        Ok(6)
    } else if chars_eq_str(t, "July") {
        Ok(7)
    } else if chars_eq_str(t, "August") {
        Ok(8)
    } else if chars_eq_str(t, "September") {
        Ok(9)
    } else if chars_eq_str(t, "October") {
        Ok(10)
    } else if chars_eq_str(t, "November") {
        Ok(11)
    } else if chars_eq_str(t, "December") {
        Ok(12)
    } else {
        Err(Error::InvalidMonthError)
    }
}

} // verus!
