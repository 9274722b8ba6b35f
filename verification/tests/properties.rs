use human_date::parse_date;
use human_date::Date;
use human_date::Error;

fn suffix_of(d: u32) -> &'static str {
    match d {
        1 | 21 | 31 => "st",
        2 | 22 => "nd",
        3 | 23 => "rd",
        _ => "th",
    }
}

#[test]
fn boundary_days_accept_only_their_suffix() {
    let suffixes = vec!["st", "nd", "rd", "th"];
    for d in [1u32, 20, 21, 23, 24, 30, 31] {
        let correct = suffix_of(d);
        for suffix in suffixes.iter() {
            let input = format!("{}{} of January 2015", d, suffix);
            if *suffix == correct {
                assert_eq!(parse_date(&input), Ok(Date::from_ymd_opt(2015, 1, d).unwrap()));
            } else {
                assert_eq!(parse_date(&input), Err(Error::InvalidDayError));
            }
        }
    }
}

#[test]
fn out_of_range_magnitudes_fit_no_suffix() {
    for suffix in ["st", "nd", "rd", "th"] {
        assert_eq!(parse_date(&format!("0{} of January 2015", suffix)), Err(Error::InvalidDayError));
        assert_eq!(
            parse_date(&format!("32{} of January 2015", suffix)),
            Err(Error::InvalidDayError)
        );
        assert_eq!(
            parse_date(&format!("100{} of January 2015", suffix)),
            Err(Error::InvalidDayError)
        );
    }
}

#[test]
fn round_trip_over_a_range_of_dates() {
    let months = vec![
        "January",
        "February",
        "March",
        "April",
        "May",
        "June",
        "July",
        "August",
        "September",
        "October",
        "November",
        "December",
    ];
    for y in [-262143, -4, 0, 1900, 2000, 2015, 2020, 262142] {
        for m in 1u32..=12 {
            for d in 1u32..=31 {
                let rendered = format!("{}{} of {} {}", d, suffix_of(d), months[(m - 1) as usize], y);
                match Date::from_ymd_opt(y, m, d) {
                    Some(date) => {
                        assert_eq!(parse_date(&rendered), Ok(date));
                        assert_eq!(date.year(), y);
                        assert_eq!(date.month(), m);
                        assert_eq!(date.day(), d);
                    }
                    None => {
                        assert_eq!(parse_date(&rendered), Err(Error::InvalidDateError));
                    }
                }
            }
        }
    }
}

#[test]
fn arbitrary_inputs_return_an_error_value() {
    let inputs = vec![
        "",
        " ",
        "\u{0}\u{0}\u{0}\u{0}",
        "\u{2028}a\u{2028}b\u{2028}c\u{2028}d\u{2028}",
        "the quick brown fox",
        "🦀 🦀 🦀 🦀",
        "-1st of Nowhere -",
        "1st 1st 1st 1st",
        "of of of of",
        "    \t\n\r  ",
        "4th of September 2015 ok then",
        "÷ × ¿ ?",
        "𝟜th of September 2015",
    ];
    for input in inputs {
        assert!(parse_date(input).is_err());
    }
}
