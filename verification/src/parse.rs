//! Parsing a timestamp from any of the three accepted grammars. Each
//! grammar's parser accepts exactly the texts its shape predicate
//! describes; everything else is a parse failure.

use vstd::prelude::*;

verus! {

use vstd::string::*;
use crate::calendar::secs_of_fields;
use crate::date::{Error, HttpDate};
use crate::grammar::{
    asctime_fields, digit_val, four_digit_val, http_date_secs, imf_fields, is_asctime_date,
    is_digit, is_http_date, is_imf_fixdate, is_rfc850_date, is_two_digits, is_weekday_name,
    month_of_name, rfc850_fields, two_digit_val, weekday_full_name,
};

/// The value of a digit character.
fn digit_of(c: char) -> (r: Option<u64>)
    ensures
        r is Some <==> is_digit(c),
        r matches Some(v) ==> v as int == digit_val(c) && v <= 9,
{
    let u = c as u32;
    if 48 <= u && u <= 57 {
        Some((u - 48) as u64)
    } else {
        None
    }
}

/// The value of the two-digit number at position i.
fn two_digits_at(s: &str, i: usize) -> (r: Option<u64>)
    requires
        i + 2 <= s@.len(),
        s@.len() <= usize::MAX,
    ensures
        r is Some <==> is_two_digits(s@, i as int),
        r matches Some(v) ==> v as int == two_digit_val(s@, i as int) && v <= 99,
{
    let c0 = s.get_char(i);
    let c1 = s.get_char(i + 1);
    match (digit_of(c0), digit_of(c1)) {
        (Some(a), Some(b)) => Some(10 * a + b),
        _ => None,
    }
}

/// The value of the four-digit number at position i.
fn four_digits_at(s: &str, i: usize) -> (r: Option<u64>)
    requires
        i + 4 <= s@.len(),
        s@.len() <= usize::MAX,
    ensures
        r is Some <==> crate::grammar::is_four_digits(s@, i as int),
        r matches Some(v) ==> v as int == four_digit_val(s@, i as int) && v <= 9999,
{
    let c0 = s.get_char(i);
    let c1 = s.get_char(i + 1);
    let c2 = s.get_char(i + 2);
    let c3 = s.get_char(i + 3);
    match (digit_of(c0), digit_of(c1), digit_of(c2), digit_of(c3)) {
        (Some(a), Some(b), Some(c), Some(d)) => Some(1000 * a + 100 * b + 10 * c + d),
        _ => None,
    }
}

/// Three-character sequences are equal exactly when their characters are.
proof fn lemma_token3(c0: char, c1: char, c2: char, a: char, b: char, c: char)
    ensures
        (seq![c0, c1, c2] == seq![a, b, c]) <==> (c0 == a && c1 == b && c2 == c),
{
    if c0 == a && c1 == b && c2 == c {
        assert(seq![c0, c1, c2] =~= seq![a, b, c]);
    }
    if seq![c0, c1, c2] == seq![a, b, c] {
        assert(seq![c0, c1, c2][0] == c0);
        assert(seq![c0, c1, c2][1] == c1);
        assert(seq![c0, c1, c2][2] == c2);
        assert(seq![a, b, c][0] == a);
        assert(seq![a, b, c][1] == b);
        assert(seq![a, b, c][2] == c);
    }
}

/// The month named by the token at position i, or 0 if it names none.
fn month_at(s: &str, i: usize) -> (r: u64)
    requires
        i + 3 <= s@.len(),
        s@.len() <= usize::MAX,
    ensures
        r as int == month_of_name(s@.subrange(i as int, i as int + 3)),
        r <= 12,
{
    let c0 = s.get_char(i);
    let c1 = s.get_char(i + 1);
    let c2 = s.get_char(i + 2);
    proof {
        assert(s@.subrange(i as int, i as int + 3) =~= seq![c0, c1, c2]);
        lemma_token3(c0, c1, c2, 'J', 'a', 'n');
        lemma_token3(c0, c1, c2, 'F', 'e', 'b');
        lemma_token3(c0, c1, c2, 'M', 'a', 'r');
        lemma_token3(c0, c1, c2, 'A', 'p', 'r');
        lemma_token3(c0, c1, c2, 'M', 'a', 'y');
        lemma_token3(c0, c1, c2, 'J', 'u', 'n');
        lemma_token3(c0, c1, c2, 'J', 'u', 'l');
        lemma_token3(c0, c1, c2, 'A', 'u', 'g');
        lemma_token3(c0, c1, c2, 'S', 'e', 'p');
        lemma_token3(c0, c1, c2, 'O', 'c', 't');
        lemma_token3(c0, c1, c2, 'N', 'o', 'v');
        lemma_token3(c0, c1, c2, 'D', 'e', 'c');
    }
    if c0 == 'J' && c1 == 'a' && c2 == 'n' {
        1
    } else if c0 == 'F' && c1 == 'e' && c2 == 'b' {
        2
    } else if c0 == 'M' && c1 == 'a' && c2 == 'r' {
        3
    } else if c0 == 'A' && c1 == 'p' && c2 == 'r' {
        4
    } else if c0 == 'M' && c1 == 'a' && c2 == 'y' {
        5
    } else if c0 == 'J' && c1 == 'u' && c2 == 'n' {
        6
    } else if c0 == 'J' && c1 == 'u' && c2 == 'l' {
        7
    } else if c0 == 'A' && c1 == 'u' && c2 == 'g' {
        8
    } else if c0 == 'S' && c1 == 'e' && c2 == 'p' {
        9
    } else if c0 == 'O' && c1 == 'c' && c2 == 't' {
        10
    } else if c0 == 'N' && c1 == 'o' && c2 == 'v' {
        11
    } else if c0 == 'D' && c1 == 'e' && c2 == 'c' {
        12
    } else {
        0
    }
}

/// Whether the token at position i is a three-letter weekday name. Which
/// weekday it names is immaterial: the weekday token is never trusted.
fn weekday3_at(s: &str, i: usize) -> (r: bool)
    requires
        i + 3 <= s@.len(),
        s@.len() <= usize::MAX,
    ensures
        r == is_weekday_name(s@.subrange(i as int, i as int + 3)),
{
    let c0 = s.get_char(i);
    let c1 = s.get_char(i + 1);
    let c2 = s.get_char(i + 2);
    proof {
        assert(s@.subrange(i as int, i as int + 3) =~= seq![c0, c1, c2]);
        lemma_token3(c0, c1, c2, 'S', 'u', 'n');
        lemma_token3(c0, c1, c2, 'M', 'o', 'n');
        lemma_token3(c0, c1, c2, 'T', 'u', 'e');
        lemma_token3(c0, c1, c2, 'W', 'e', 'd');
        lemma_token3(c0, c1, c2, 'T', 'h', 'u');
        lemma_token3(c0, c1, c2, 'F', 'r', 'i');
        lemma_token3(c0, c1, c2, 'S', 'a', 't');
    }
    (c0 == 'S' && c1 == 'u' && c2 == 'n') || (c0 == 'M' && c1 == 'o' && c2 == 'n') || (c0 == 'T'
        && c1 == 'u' && c2 == 'e') || (c0 == 'W' && c1 == 'e' && c2 == 'd') || (c0 == 'T' && c1
        == 'h' && c2 == 'u') || (c0 == 'F' && c1 == 'r' && c2 == 'i') || (c0 == 'S' && c1 == 'a'
        && c2 == 't')
}

/// Whether the text starts with the given token.
fn has_prefix(s: &str, t: &str) -> (r: bool)
    requires
        t@.len() <= s@.len(),
        s@.len() <= usize::MAX,
    ensures
        r <==> s@.subrange(0, t@.len() as int) == t@,
{
    let m = t.unicode_len();
    let mut j: usize = 0;
    while j < m
        invariant
            j <= m,
            m as nat == t@.len(),
            t@.len() <= s@.len(),
            s@.len() <= usize::MAX,
            forall|k: int| 0 <= k < j ==> s@[k] == t@[k],
        decreases m - j,
    {
        if s.get_char(j) != t.get_char(j) {
            proof {
                assert(s@.subrange(0, t@.len() as int)[j as int] == s@[j as int]);
            }
            return false;
        }
        j = j + 1;
    }
    proof {
        assert(s@.subrange(0, t@.len() as int) =~= t@);
    }
    true
}

/// The preferred fixed format, for example `Sun, 06 Nov 1994 08:49:37 GMT`.
fn parse_imf(s: &str) -> (r: Option<HttpDate>)
    ensures
        r is Some <==> is_imf_fixdate(s@),
        r matches Some(d) ==> d@ == secs_of_fields(imf_fields(s@)),
{
    let n = s.unicode_len();
    if n != 29 {
        return None;
    }
    if !weekday3_at(s, 0) {
        return None;
    }
    if s.get_char(3) != ',' || s.get_char(4) != ' ' {
        return None;
    }
    let day = match two_digits_at(s, 5) {
        Some(v) => v,
        None => {
            return None;
        },
    };
    if s.get_char(7) != ' ' {
        return None;
    }
    let mon = month_at(s, 8);
    if mon == 0 {
        return None;
    }
    if s.get_char(11) != ' ' {
        return None;
    }
    let year = match four_digits_at(s, 12) {
        Some(v) => v,
        None => {
            return None;
        },
    };
    if s.get_char(16) != ' ' {
        return None;
    }
    let hour = match two_digits_at(s, 17) {
        Some(v) => v,
        None => {
            return None;
        },
    };
    if s.get_char(19) != ':' {
        return None;
    }
    let minute = match two_digits_at(s, 20) {
        Some(v) => v,
        None => {
            return None;
        },
    };
    if s.get_char(22) != ':' {
        return None;
    }
    let second = match two_digits_at(s, 23) {
        Some(v) => v,
        None => {
            return None;
        },
    };
    if s.get_char(25) != ' ' || s.get_char(26) != 'G' || s.get_char(27) != 'M' || s.get_char(28)
        != 'T' {
        return None;
    }
    HttpDate::from_fields(
        year as u16,
        mon as u8,
        day as u8,
        hour as u8,
        minute as u8,
        second as u8,
    )
}

/// The obsolete dashed format, for example `Sunday, 06-Nov-94 08:49:37 GMT`.
fn parse_rfc850(s: &str) -> (r: Option<HttpDate>)
    ensures
        r is Some <==> is_rfc850_date(s@),
        r matches Some(d) ==> d@ == secs_of_fields(rfc850_fields(s@)),
{
    let n = s.unicode_len();
    proof {
        reveal_strlit("Sunday");
        reveal_strlit("Monday");
        reveal_strlit("Tuesday");
        reveal_strlit("Wednesday");
        reveal_strlit("Thursday");
        reveal_strlit("Friday");
        reveal_strlit("Saturday");
        assert(("Sunday")@ =~= weekday_full_name(0));
        assert(("Monday")@ =~= weekday_full_name(1));
        assert(("Tuesday")@ =~= weekday_full_name(2));
        assert(("Wednesday")@ =~= weekday_full_name(3));
        assert(("Thursday")@ =~= weekday_full_name(4));
        assert(("Friday")@ =~= weekday_full_name(5));
        assert(("Saturday")@ =~= weekday_full_name(6));
    }
    if n < 30 || n > 33 {
        return None;
    }
    let pref: bool = if n == 30 {
        has_prefix(s, "Sunday") || has_prefix(s, "Monday") || has_prefix(s, "Friday")
    } else if n == 31 {
        has_prefix(s, "Tuesday")
    } else if n == 32 {
        has_prefix(s, "Thursday") || has_prefix(s, "Saturday")
    } else {
        has_prefix(s, "Wednesday")
    };
    if !pref {
        return None;
    }
    if s.get_char(n - 24) != ',' || s.get_char(n - 23) != ' ' {
        return None;
    }
    let day = match two_digits_at(s, n - 22) {
        Some(v) => v,
        None => {
            return None;
        },
    };
    if s.get_char(n - 20) != '-' {
        return None;
    }
    let mon = month_at(s, n - 19);
    if mon == 0 {
        return None;
    }
    if s.get_char(n - 16) != '-' {
        return None;
    }
    let yy = match two_digits_at(s, n - 15) {
        Some(v) => v,
        None => {
            return None;
        },
    };
    if s.get_char(n - 13) != ' ' {
        return None;
    }
    let hour = match two_digits_at(s, n - 12) {
        Some(v) => v,
        None => {
            return None;
        },
    };
    if s.get_char(n - 10) != ':' {
        return None;
    }
    let minute = match two_digits_at(s, n - 9) {
        Some(v) => v,
        None => {
            return None;
        },
    };
    if s.get_char(n - 7) != ':' {
        return None;
    }
    let second = match two_digits_at(s, n - 6) {
        Some(v) => v,
        None => {
            return None;
        },
    };
    if s.get_char(n - 4) != ' ' || s.get_char(n - 3) != 'G' || s.get_char(n - 2) != 'M'
        || s.get_char(n - 1) != 'T' {
        return None;
    }
    let year: u64 = if yy < 69 {
        2000 + yy
    } else {
        1900 + yy
    };
    HttpDate::from_fields(
        year as u16,
        mon as u8,
        day as u8,
        hour as u8,
        minute as u8,
        second as u8,
    )
}

/// The C library format, for example `Sun Nov  6 08:49:37 1994`.
fn parse_asctime(s: &str) -> (r: Option<HttpDate>)
    ensures
        r is Some <==> is_asctime_date(s@),
        r matches Some(d) ==> d@ == secs_of_fields(asctime_fields(s@)),
{
    let n = s.unicode_len();
    if n != 24 {
        return None;
    }
    if !weekday3_at(s, 0) {
        return None;
    }
    if s.get_char(3) != ' ' {
        return None;
    }
    let mon = month_at(s, 4);
    if mon == 0 {
        return None;
    }
    if s.get_char(7) != ' ' {
        return None;
    }
    let c8 = s.get_char(8);
    let day: u64 = if c8 == ' ' {
        match digit_of(s.get_char(9)) {
            Some(v) => v,
            None => {
                return None;
            },
        }
    } else {
        match two_digits_at(s, 8) {
            Some(v) => v,
            None => {
                return None;
            },
        }
    };
    if s.get_char(10) != ' ' {
        return None;
    }
    let hour = match two_digits_at(s, 11) {
        Some(v) => v,
        None => {
            return None;
        },
    };
    if s.get_char(13) != ':' {
        return None;
    }
    let minute = match two_digits_at(s, 14) {
        Some(v) => v,
        None => {
            return None;
        },
    };
    if s.get_char(16) != ':' {
        return None;
    }
    let second = match two_digits_at(s, 17) {
        Some(v) => v,
        None => {
            return None;
        },
    };
    if s.get_char(19) != ' ' {
        return None;
    }
    let year = match four_digits_at(s, 20) {
        Some(v) => v,
        None => {
            return None;
        },
    };
    HttpDate::from_fields(
        year as u16,
        mon as u8,
        day as u8,
        hour as u8,
        minute as u8,
        second as u8,
    )
}

impl HttpDate {
    /// Parse a timestamp. Exactly the texts of the three grammars whose
    /// fields form a real date and time of day are accepted — the
    /// grammars are tried in order of preference — and the accepted text
    /// denotes the instant the result wraps. The weekday token is not
    /// required to match the date. Everything else, a leap-second value
    /// (60) in the seconds field included, is the single parse error.
    pub fn parse(s: &str) -> (r: Result<HttpDate, Error>)
        ensures
            r is Ok <==> is_http_date(s@),
            r matches Ok(d) ==> d@ == http_date_secs(s@),
    {
        if let Some(d) = parse_imf(s) {
            return Ok(d);
        }
        if let Some(d) = parse_rfc850(s) {
            return Ok(d);
        }
        if let Some(d) = parse_asctime(s) {
            return Ok(d);
        }
        Err(Error::new())
    }
}

impl core::str::FromStr for HttpDate {
    type Err = Error;

    fn from_str(s: &str) -> Result<HttpDate, Error> {
        HttpDate::parse(s)
    }
}

} // verus!
