//! Parsing of human-readable dates of the form "<day><ordinal> of <Month> <year>",
//! e.g. "4th of September 2015", into a structured calendar date.

pub mod calendar;
pub mod day;
pub mod error;
pub mod month;
pub mod num;
pub mod parser;
pub mod roundtrip;
pub mod text;

pub use calendar::Date;
pub use error::Error;
pub use parser::parse_date;
