//! The error taxonomy of the date parser.

use vstd::prelude::*;

verus! {

/// The ways in which parsing a human-readable date can fail.
#[derive(Debug, PartialEq, Eq, Structural, Clone, Copy)]
pub enum Error {
    /// The input does not split into exactly four whitespace-separated
    /// tokens, or the day magnitude or year token is not a valid integer.
    ParseError,
    /// The (year, month, day) triple is not a real calendar date.
    InvalidDateError,
    /// The day token's magnitude/suffix pair breaks English ordinal grammar.
    InvalidDayError,
    /// The month token is not one of the twelve canonical English names.
    InvalidMonthError,
}

} // verus!
