use human_date::parse_date;
use human_date::Date;
use human_date::Error;

fn ymd(y: i32, m: u32, d: u32) -> Date {
    Date::from_ymd_opt(y, m, d).unwrap()
}

#[test]
fn it_works() {
    assert_eq!(parse_date("4th of September 2015"), Ok(ymd(2015, 9, 4)));

    assert_eq!(parse_date("5th of September 2015"), Ok(ymd(2015, 9, 5)));
    assert_eq!(parse_date("25th of December 2015"), Ok(ymd(2015, 12, 25)));
}

#[test]
fn exact_literal_successes() {
    assert_eq!(parse_date("4th of September 2015"), Ok(ymd(2015, 9, 4)));
    assert_eq!(parse_date("5th of September 2015"), Ok(ymd(2015, 9, 5)));
    assert_eq!(parse_date("25th of December 2015"), Ok(ymd(2015, 12, 25)));
    assert_eq!(parse_date("1st of January 2000"), Ok(ymd(2000, 1, 1)));
}

#[test]
fn exact_literal_failures() {
    assert_eq!(parse_date("30th of February 2021"), Err(Error::InvalidDateError));
    assert_eq!(parse_date("4nd of September 2015"), Err(Error::InvalidDayError));
    assert_eq!(parse_date("4th of Septembre 2015"), Err(Error::InvalidMonthError));
    assert_eq!(parse_date("4th 2015"), Err(Error::ParseError));
    assert_eq!(parse_date(""), Err(Error::ParseError));
}

#[test]
fn accessors_expose_the_triple() {
    let date = parse_date("4th of September 2015").unwrap();
    assert_eq!(date.year(), 2015);
    assert_eq!(date.month(), 9);
    assert_eq!(date.day(), 4);
}

#[test]
fn all_twelve_months_parse() {
    let months = vec![
        "January",
        "February",
        "March",
        "April",
        "May",
        "June",
        "July",
        "August",
        "September",
        "October",
        "November",
        "December",
    ];
    for (i, name) in months.iter().enumerate() {
        let input = format!("1st of {} 2000", name);
        assert_eq!(parse_date(&input), Ok(ymd(2000, i as u32 + 1, 1)));
    }
}

#[test]
fn month_match_is_case_sensitive() {
    assert_eq!(parse_date("4th of september 2015"), Err(Error::InvalidMonthError));
    assert_eq!(parse_date("4th of SEPTEMBER 2015"), Err(Error::InvalidMonthError));
    assert!(parse_date("4th of September 2015").is_ok());
}

#[test]
fn month_abbreviations_are_rejected() {
    assert_eq!(parse_date("4th of Sep 2015"), Err(Error::InvalidMonthError));
    assert_eq!(parse_date("4th of Jan 2015"), Err(Error::InvalidMonthError));
}

#[test]
fn second_token_is_positionally_skipped() {
    assert_eq!(parse_date("4th xx September 2015"), Ok(ymd(2015, 9, 4)));
    assert_eq!(parse_date("4th OF September 2015"), Ok(ymd(2015, 9, 4)));
}

#[test]
fn whitespace_runs_are_collapsed() {
    assert_eq!(parse_date("  4th   of  September   2015  "), Ok(ymd(2015, 9, 4)));
    assert_eq!(parse_date("4th\tof\nSeptember\u{00A0}2015"), Ok(ymd(2015, 9, 4)));
}

#[test]
fn wrong_token_count_is_malformed() {
    assert_eq!(parse_date("4th of September"), Err(Error::ParseError));
    assert_eq!(parse_date("4th of September 2015 extra"), Err(Error::ParseError));
    assert_eq!(parse_date("   "), Err(Error::ParseError));
}

#[test]
fn day_magnitude_overflow_is_a_parse_error() {
    assert_eq!(parse_date("99999999999999999999th of January 2000"), Err(Error::ParseError));
    assert_eq!(parse_date("4294967296th of January 2000"), Err(Error::ParseError));
}

#[test]
fn missing_day_digits_is_a_parse_error() {
    assert_eq!(parse_date("th of January 2000"), Err(Error::ParseError));
}

#[test]
fn year_conversion_failures() {
    assert_eq!(parse_date("1st of January 99999999999"), Err(Error::ParseError));
    assert_eq!(parse_date("1st of January year"), Err(Error::ParseError));
    assert_eq!(parse_date("1st of January 20x5"), Err(Error::ParseError));
    assert_eq!(parse_date("1st of January 20.5"), Err(Error::ParseError));
}

#[test]
fn signed_years_parse() {
    assert_eq!(parse_date("1st of January +2015"), Ok(ymd(2015, 1, 1)));
    assert_eq!(parse_date("1st of January -44"), Ok(ymd(-44, 1, 1)));
    assert_eq!(parse_date("1st of January -0"), Ok(ymd(0, 1, 1)));
}

#[test]
fn year_range_of_the_calendar() {
    assert_eq!(parse_date("1st of January 262142"), Ok(ymd(262142, 1, 1)));
    assert_eq!(parse_date("1st of January 262143"), Err(Error::InvalidDateError));
    assert_eq!(parse_date("1st of January -262143"), Ok(ymd(-262143, 1, 1)));
    assert_eq!(parse_date("1st of January -262144"), Err(Error::InvalidDateError));
}

#[test]
fn leap_year_rules_decide_february() {
    assert_eq!(parse_date("29th of February 2020"), Ok(ymd(2020, 2, 29)));
    assert_eq!(parse_date("29th of February 2021"), Err(Error::InvalidDateError));
    assert_eq!(parse_date("29th of February 2000"), Ok(ymd(2000, 2, 29)));
    assert_eq!(parse_date("29th of February 1900"), Err(Error::InvalidDateError));
    assert_eq!(parse_date("29th of February -4"), Ok(ymd(-4, 2, 29)));
}

#[test]
fn day_counts_per_month() {
    assert_eq!(parse_date("31st of January 2015"), Ok(ymd(2015, 1, 31)));
    assert_eq!(parse_date("31st of April 2015"), Err(Error::InvalidDateError));
    assert_eq!(parse_date("30th of April 2015"), Ok(ymd(2015, 4, 30)));
    assert_eq!(parse_date("31st of June 2015"), Err(Error::InvalidDateError));
}

#[test]
fn date_construction_matches_the_calendar() {
    assert_eq!(Date::from_ymd_opt(2021, 2, 30), None);
    assert_eq!(Date::from_ymd_opt(2000, 13, 1), None);
    assert_eq!(Date::from_ymd_opt(2000, 0, 1), None);
    assert_eq!(Date::from_ymd_opt(2000, 1, 0), None);
    let date = Date::from_ymd_opt(2000, 2, 29).unwrap();
    assert_eq!(date.year(), 2000);
    assert_eq!(date.month(), 2);
    assert_eq!(date.day(), 29);
}
