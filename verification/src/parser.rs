//! The date parser: "<day><ordinal> of <Month> <year>" to a calendar date.

use vstd::prelude::*;

use crate::calendar::{valid_ymd, Date};
use crate::day::spec_parse_day;
use crate::error::Error;
use crate::month::spec_parse_month;
use crate::num::spec_parse_i32;
use crate::text::tokens_of;

verus! {

/// What parsing an input string yields: the input must split into exactly
/// four whitespace-separated tokens; the first is the ordinal day, the
/// third the month name, the fourth the year; the second is positionally
/// skipped and never inspected (lenient "of"). The first failure, in the
/// order structure, day, month, year, calendar validity, decides the error.
pub open spec fn spec_parse_date(s: Seq<char>) -> Result<(i32, u32, u32), Error> {
    let toks = tokens_of(s);
    if toks.len() != 4 {
        Err(Error::ParseError)
    } else {
        match spec_parse_day(toks[0]) {
            Err(e) => Err(e),
            Ok(day) => match spec_parse_month(toks[2]) {
                Err(e) => Err(e),
                Ok(month) => match spec_parse_i32(toks[3]) {
                    None => Err(Error::ParseError),
                    Some(year) => if valid_ymd(year, month, day) {
                        Ok((year, month, day))
                    } else {
                        Err(Error::InvalidDateError)
                    },
                },
            },
        }
    }
}

/// Parses a human-readable date such as "4th of September 2015".
///
/// Returns exactly what [`spec_parse_date`] describes for the input, and
/// never panics, whatever the input holds.
pub fn parse_date(human_date: &str) -> (r: Result<Date, Error>)
    ensures
        match r {
            Ok(date) => spec_parse_date(human_date@) == Ok::<(i32, u32, u32), Error>(
                (date.year, date.month, date.day),
            ) && date.valid(),
            Err(e) => spec_parse_date(human_date@) == Err::<(i32, u32, u32), Error>(e),
        },
{
    let chars = crate::text::chars_of(human_date);
    let toks = crate::text::split_whitespace_chars(&chars);
    if toks.len() != 4 {
        return Err(Error::ParseError);
    }
    proof {
        assert(toks@[0].deep_view() == tokens_of(human_date@)[0]);
        assert(toks@[2].deep_view() == tokens_of(human_date@)[2]);
        assert(toks@[3].deep_view() == tokens_of(human_date@)[3]);
        assert(toks@[0]@ =~= toks@[0].deep_view());
        assert(toks@[2]@ =~= toks@[2].deep_view());
        assert(toks@[3]@ =~= toks@[3].deep_view());
    }
    let day = match crate::day::parse_day(&toks[0]) {
        Ok(d) => d,
        Err(e) => {
            return Err(e);
        },
    };
    let month = match crate::month::parse_month(&toks[2]) {
        Ok(m) => m,
        Err(e) => {
            return Err(e);
        },
    };
    let year = match crate::num::parse_i32_chars(&toks[3]) {
        Some(y) => y,
        None => {
            return Err(Error::ParseError);
        },
    };
    match Date::from_ymd_opt(year, month, day) {
        Some(date) => Ok(date),
        None => Err(Error::InvalidDateError),
    }
}

} // verus!
