//! The round-trip law: any valid calendar date, rendered in the canonical
//! "<day><suffix> of <MonthName> <year>" form, parses back to itself.

use vstd::prelude::*;

use crate::calendar::valid_ymd;
use crate::day::{lemma_digit_run_len_is_cut, ordinal_ok, spec_parse_day};
use crate::error::Error;
use crate::month::{month_name, spec_parse_month};
use crate::num::{all_digits, dec_value, digit_val, is_digit, spec_parse_i32, spec_parse_u32};
use crate::parser::spec_parse_date;
use crate::text::{is_space, lemma_word_len_is_cut, tokens_of};
use vstd::arithmetic::div_mod::lemma_fundamental_div_mod;

verus! {

/// The ASCII character of decimal digit `n`.
pub open spec fn digit_char(n: nat) -> char
    recommends
        n < 10,
{
    if n == 0 {
        '0'
    } else if n == 1 {
        '1'
    } else if n == 2 {
        '2'
    } else if n == 3 {
        '3'
    } else if n == 4 {
        '4'
    } else if n == 5 {
        '5'
    } else if n == 6 {
        '6'
    } else if n == 7 {
        '7'
    } else if n == 8 {
        '8'
    } else {
        '9'
    }
}

/// The canonical decimal rendering of `n`, without leading zeros.
pub open spec fn dec_digits(n: nat) -> Seq<char>
    decreases n,
{
    if n < 10 {
        seq![digit_char(n)]
    } else {
        dec_digits(n / 10) + seq![digit_char(n % 10)]
    }
}

/// The canonical decimal rendering of a signed number.
pub open spec fn int_digits(y: i32) -> Seq<char> {
    if y < 0 {
        seq!['-'] + dec_digits((-(y as int)) as nat)
    } else {
        dec_digits(y as nat)
    }
}

/// The ordinal suffix that day magnitude `d` carries when rendered.
pub open spec fn suffix_for(d: u32) -> Seq<char>
    recommends
        1 <= d <= 31,
{
    if d == 1 || d == 21 || d == 31 {
        "st"@
    } else if d == 2 || d == 22 {
        "nd"@
    } else if d == 3 || d == 23 {
        "rd"@
    } else {
        "th"@
    }
}

/// The canonical rendering "<day><suffix> of <MonthName> <year>".
pub open spec fn format_date(y: i32, m: u32, d: u32) -> Seq<char>
    recommends
        valid_ymd(y, m, d),
{
    dec_digits(d as nat) + suffix_for(d) + seq![' '] + "of"@ + seq![' '] + month_name(m) + seq![' ']
        + int_digits(y)
}

/// The canonical decimal rendering is non-empty, made of digits, and
/// denotes the number it was made from.
pub proof fn lemma_dec_digits(n: nat)
    ensures
        dec_digits(n).len() >= 1,
        all_digits(dec_digits(n)),
        dec_value(dec_digits(n)) == n,
    decreases n,
{
    if n < 10 {
        assert(seq![digit_char(n)].drop_last() =~= Seq::<char>::empty());
        assert(digit_val(digit_char(n)) == n);
        assert(dec_value(Seq::<char>::empty()) == 0);
        assert(seq![digit_char(n)].last() == digit_char(n));
        assert(dec_value(seq![digit_char(n)]) == digit_val(digit_char(n)));
        assert(dec_digits(n) == seq![digit_char(n)]);
    } else {
        lemma_dec_digits(n / 10);
        let a = dec_digits(n / 10);
        let c = digit_char(n % 10);
        let s = a + seq![c];
        assert(s.drop_last() =~= a);
        assert(s.last() == c);
        assert(digit_val(c) == n % 10);
        lemma_fundamental_div_mod(n as int, 10);
        assert(dec_value(s) == 10 * dec_value(a) + digit_val(c));
        assert(dec_value(s) == 10 * (n / 10) + n % 10);
        assert forall|i: int| 0 <= i < s.len() implies is_digit(#[trigger] s[i]) by {
            if i < a.len() {
                assert(s[i] == a[i]);
            } else {
                assert(s[i] == c);
            }
        }
    }
}

/// Digit characters are never whitespace.
pub proof fn lemma_digits_nonspace(s: Seq<char>)
    requires
        all_digits(s),
    ensures
        forall|i: int| 0 <= i < s.len() ==> !is_space(#[trigger] s[i]),
{
    assert forall|i: int| 0 <= i < s.len() implies !is_space(#[trigger] s[i]) by {
        assert(is_digit(s[i]));
    }
}

/// A non-space word at the front of the input is the first token; the rest
/// of the tokens are those of what follows it.
pub proof fn lemma_tokens_word(w: Seq<char>, rest: Seq<char>)
    requires
        w.len() > 0,
        forall|i: int| 0 <= i < w.len() ==> !is_space(#[trigger] w[i]),
        rest.len() == 0 || is_space(rest[0]),
    ensures
        tokens_of(w + rest) == seq![w] + tokens_of(rest),
{
    let s = w + rest;
    assert(s[0] == w[0]);
    assert forall|i: int| 0 <= i < w.len() implies !is_space(#[trigger] s[i]) by {
        assert(s[i] == w[i]);
    }
    if rest.len() > 0 {
        assert(s[w.len() as int] == rest[0]);
    }
    lemma_word_len_is_cut(s, w.len() as int);
    assert(s.take(w.len() as int) =~= w);
    assert(s.skip(w.len() as int) =~= rest);
}

/// Leading whitespace does not change the tokens.
pub proof fn lemma_tokens_space(rest: Seq<char>)
    ensures
        tokens_of(seq![' '] + rest) == tokens_of(rest),
{
    let s = seq![' '] + rest;
    assert(s[0] == ' ');
    assert(is_space(' '));
    assert(s.skip(1) =~= rest);
}

/// Rendering a day magnitude with its correct suffix and parsing the result
/// gives the magnitude back.
pub proof fn lemma_day_token_round(d: u32)
    requires
        1 <= d <= 31,
    ensures
        spec_parse_day(dec_digits(d as nat) + suffix_for(d)) == Ok::<u32, Error>(d),
{
    lemma_dec_digits(d as nat);
    reveal_strlit("st");
    reveal_strlit("nd");
    reveal_strlit("rd");
    reveal_strlit("th");
    let dg = dec_digits(d as nat);
    let suf = suffix_for(d);
    let t = dg + suf;
    assert(suf.len() == 2);
    assert(!is_digit(suf[0]));
    assert forall|i: int| 0 <= i < dg.len() implies is_digit(#[trigger] t[i]) by {
        assert(t[i] == dg[i]);
    }
    assert(t[dg.len() as int] == suf[0]);
    lemma_digit_run_len_is_cut(t, dg.len() as int);
    assert(t.take(dg.len() as int) =~= dg);
    assert(t.skip(dg.len() as int) =~= suf);
    assert(spec_parse_u32(dg) == Some(d));
    assert(ordinal_ok(d, suf));
}

/// Parsing the canonical month name gives the month number back.
pub proof fn lemma_month_token_round(m: u32)
    requires
        1 <= m <= 12,
    ensures
        spec_parse_month(month_name(m)) == Ok::<u32, Error>(m),
        month_name(m).len() > 0,
        forall|i: int| 0 <= i < month_name(m).len() ==> !is_space(#[trigger] month_name(m)[i]),
{
    reveal_strlit("January");
    reveal_strlit("February");
    reveal_strlit("March");
    reveal_strlit("April");
    reveal_strlit("May");
    reveal_strlit("June");
    reveal_strlit("July");
    reveal_strlit("August");
    reveal_strlit("September");
    reveal_strlit("October");
    reveal_strlit("November");
    reveal_strlit("December");
    assert("January"@.len() == 7);
    assert("February"@.len() == 8);
    assert("March"@.len() == 5);
    assert("April"@.len() == 5);
    assert("May"@.len() == 3);
    assert("June"@.len() == 4);
    assert("July"@.len() == 4);
    assert("August"@.len() == 6);
    assert("September"@.len() == 9);
    assert("October"@.len() == 7);
    assert("November"@.len() == 8);
    assert("December"@.len() == 8);
    assert("April"@[0] != "March"@[0]);
    assert("July"@[2] != "June"@[2]);
    assert("October"@[0] != "January"@[0]);
    assert("November"@[0] != "February"@[0]);
    assert("December"@[0] != "February"@[0]);
    assert("December"@[0] != "November"@[0]);
}

/// Rendering a year in decimal and parsing it back gives the year.
pub proof fn lemma_year_token_round(y: i32)
    ensures
        spec_parse_i32(int_digits(y)) == Some(y),
        int_digits(y).len() > 0,
        forall|i: int| 0 <= i < int_digits(y).len() ==> !is_space(#[trigger] int_digits(y)[i]),
{
    if y >= 0 {
        lemma_dec_digits(y as nat);
        let s = int_digits(y);
        assert(is_digit(s[0]));
        assert(s[0] != '+' && s[0] != '-');
        lemma_digits_nonspace(s);
    } else {
        let mag = (-(y as int)) as nat;
        lemma_dec_digits(mag);
        let dg = dec_digits(mag);
        let s = int_digits(y);
        assert(s[0] == '-');
        assert(s.skip(1) =~= dg);
        assert(mag <= 0x8000_0000);
        assert(spec_parse_i32(s) == Some(((-(mag as int)) as i32)));
        assert(((-(mag as int)) as i32) == y);
        assert forall|i: int| 0 <= i < s.len() implies !is_space(#[trigger] s[i]) by {
            if i == 0 {
                assert(s[0] == '-');
            } else {
                assert(s[i] == dg[i - 1]);
                assert(is_digit(s[i]));
            }
        }
    }
}

/// The round-trip law: for every valid calendar date (y, m, d), parsing the
/// canonical rendering "<d><suffix> of <MonthName> <y>" yields exactly
/// (y, m, d).
pub proof fn lemma_round_trip(y: i32, m: u32, d: u32)
    requires
        valid_ymd(y, m, d),
    ensures
        spec_parse_date(format_date(y, m, d)) == Ok::<(i32, u32, u32), Error>((y, m, d)),
{
    reveal_strlit("of");
    lemma_day_token_round(d);
    lemma_month_token_round(m);
    lemma_year_token_round(y);
    lemma_dec_digits(d as nat);
    reveal_strlit("st");
    reveal_strlit("nd");
    reveal_strlit("rd");
    reveal_strlit("th");
    let dt = dec_digits(d as nat) + suffix_for(d);
    let t4 = int_digits(y);
    let rest3 = month_name(m) + (seq![' '] + t4);
    let rest2 = "of"@ + (seq![' '] + rest3);
    let s = format_date(y, m, d);

    // The day token is all non-space: digits, then a two-letter suffix.
    lemma_digits_nonspace(dec_digits(d as nat));
    assert("of"@.len() == 2);
    assert(!is_space("of"@[0]) && !is_space("of"@[1]));
    assert(suffix_for(d).len() == 2);
    assert(!is_space(suffix_for(d)[0]) && !is_space(suffix_for(d)[1]));
    assert forall|i: int| 0 <= i < dt.len() implies !is_space(#[trigger] dt[i]) by {
        if i < dec_digits(d as nat).len() {
            assert(dt[i] == dec_digits(d as nat)[i]);
        } else {
            assert(dt[i] == suffix_for(d)[i - dec_digits(d as nat).len()]);
        }
    }

    assert(s =~= dt + (seq![' '] + rest2));
    lemma_tokens_word(dt, seq![' '] + rest2);
    lemma_tokens_space(rest2);
    lemma_tokens_word("of"@, seq![' '] + rest3);
    lemma_tokens_space(rest3);
    lemma_tokens_word(month_name(m), seq![' '] + t4);
    lemma_tokens_space(t4);
    lemma_tokens_word(t4, Seq::<char>::empty());
    assert(t4 + Seq::<char>::empty() =~= t4);
    assert(tokens_of(Seq::<char>::empty()) =~= Seq::<Seq<char>>::empty());

    let toks = tokens_of(s);
    assert(toks =~= seq![dt, "of"@, month_name(m), t4]);
    assert(toks.len() == 4);
    assert(toks[0] == dt);
    assert(toks[2] == month_name(m));
    assert(toks[3] == t4);
}

} // verus!
