//! The three textual timestamp grammars, as predicates and field
//! extractors over sequences of characters, and the canonical fixed-length
//! rendering. These spec functions are what the parser's and renderer's
//! contracts are stated against.

use vstd::prelude::*;

verus! {

use crate::calendar::{fields_of_secs, secs_of_fields, valid_fields, weekday_of_days, Fields};

pub open spec fn is_digit(c: char) -> bool {
    48 <= c as int <= 57
}

pub open spec fn digit_val(c: char) -> int {
    c as int - 48
}

pub open spec fn digit_char(d: int) -> char {
    if d == 0 {
        '0'
    } else if d == 1 {
        '1'
    } else if d == 2 {
        '2'
    } else if d == 3 {
        '3'
    } else if d == 4 {
        '4'
    } else if d == 5 {
        '5'
    } else if d == 6 {
        '6'
    } else if d == 7 {
        '7'
    } else if d == 8 {
        '8'
    } else {
        '9'
    }
}

pub open spec fn is_two_digits(s: Seq<char>, i: int) -> bool {
    is_digit(s[i]) && is_digit(s[i + 1])
}

pub open spec fn two_digit_val(s: Seq<char>, i: int) -> int {
    10 * digit_val(s[i]) + digit_val(s[i + 1])
}

pub open spec fn is_four_digits(s: Seq<char>, i: int) -> bool {
    is_digit(s[i]) && is_digit(s[i + 1]) && is_digit(s[i + 2]) && is_digit(s[i + 3])
}

pub open spec fn four_digit_val(s: Seq<char>, i: int) -> int {
    1000 * digit_val(s[i]) + 100 * digit_val(s[i + 1]) + 10 * digit_val(s[i + 2]) + digit_val(
        s[i + 3],
    )
}

/// The three-letter month token of month m (1..=12).
pub open spec fn month_name(m: int) -> Seq<char> {
    if m == 1 {
        seq!['J', 'a', 'n']
    } else if m == 2 {
        seq!['F', 'e', 'b']
    } else if m == 3 {
        seq!['M', 'a', 'r']
    } else if m == 4 {
        seq!['A', 'p', 'r']
    } else if m == 5 {
        seq!['M', 'a', 'y']
    } else if m == 6 {
        seq!['J', 'u', 'n']
    } else if m == 7 {
        seq!['J', 'u', 'l']
    } else if m == 8 {
        seq!['A', 'u', 'g']
    } else if m == 9 {
        seq!['S', 'e', 'p']
    } else if m == 10 {
        seq!['O', 'c', 't']
    } else if m == 11 {
        seq!['N', 'o', 'v']
    } else {
        seq!['D', 'e', 'c']
    }
}

/// The month a three-letter token names, or 0 if it names none.
pub open spec fn month_of_name(t: Seq<char>) -> int {
    if t == month_name(1) {
        1
    } else if t == month_name(2) {
        2
    } else if t == month_name(3) {
        3
    } else if t == month_name(4) {
        4
    } else if t == month_name(5) {
        5
    } else if t == month_name(6) {
        6
    } else if t == month_name(7) {
        7
    } else if t == month_name(8) {
        8
    } else if t == month_name(9) {
        9
    } else if t == month_name(10) {
        10
    } else if t == month_name(11) {
        11
    } else if t == month_name(12) {
        12
    } else {
        0
    }
}

/// The three-letter weekday token of weekday w (0 = Sunday, ..., 6 = Saturday).
pub open spec fn weekday_name(w: int) -> Seq<char> {
    if w == 0 {
        seq!['S', 'u', 'n']
    } else if w == 1 {
        seq!['M', 'o', 'n']
    } else if w == 2 {
        seq!['T', 'u', 'e']
    } else if w == 3 {
        seq!['W', 'e', 'd']
    } else if w == 4 {
        seq!['T', 'h', 'u']
    } else if w == 5 {
        seq!['F', 'r', 'i']
    } else {
        seq!['S', 'a', 't']
    }
}

pub open spec fn is_weekday_name(t: Seq<char>) -> bool {
    ||| t == weekday_name(0)
    ||| t == weekday_name(1)
    ||| t == weekday_name(2)
    ||| t == weekday_name(3)
    ||| t == weekday_name(4)
    ||| t == weekday_name(5)
    ||| t == weekday_name(6)
}

/// The full weekday token of weekday w (0 = Sunday, ..., 6 = Saturday).
pub open spec fn weekday_full_name(w: int) -> Seq<char> {
    if w == 0 {
        seq!['S', 'u', 'n', 'd', 'a', 'y']
    } else if w == 1 {
        seq!['M', 'o', 'n', 'd', 'a', 'y']
    } else if w == 2 {
        seq!['T', 'u', 'e', 's', 'd', 'a', 'y']
    } else if w == 3 {
        seq!['W', 'e', 'd', 'n', 'e', 's', 'd', 'a', 'y']
    } else if w == 4 {
        seq!['T', 'h', 'u', 'r', 's', 'd', 'a', 'y']
    } else if w == 5 {
        seq!['F', 'r', 'i', 'd', 'a', 'y']
    } else {
        seq!['S', 'a', 't', 'u', 'r', 'd', 'a', 'y']
    }
}

/// Shape of the preferred fixed format, for example
/// `Sun, 06 Nov 1994 08:49:37 GMT`: 29 characters, fixed positions.
pub open spec fn imf_shape(s: Seq<char>) -> bool {
    &&& s.len() == 29
    &&& is_weekday_name(s.subrange(0, 3))
    &&& s[3] == ','
    &&& s[4] == ' '
    &&& is_two_digits(s, 5)
    &&& s[7] == ' '
    &&& month_of_name(s.subrange(8, 11)) != 0
    &&& s[11] == ' '
    &&& is_four_digits(s, 12)
    &&& s[16] == ' '
    &&& is_two_digits(s, 17)
    &&& s[19] == ':'
    &&& is_two_digits(s, 20)
    &&& s[22] == ':'
    &&& is_two_digits(s, 23)
    &&& s[25] == ' '
    &&& s[26] == 'G'
    &&& s[27] == 'M'
    &&& s[28] == 'T'
}

pub open spec fn imf_fields(s: Seq<char>) -> Fields {
    Fields {
        year: four_digit_val(s, 12),
        month: month_of_name(s.subrange(8, 11)),
        day: two_digit_val(s, 5),
        hour: two_digit_val(s, 17),
        minute: two_digit_val(s, 20),
        second: two_digit_val(s, 23),
    }
}

pub open spec fn is_imf_fixdate(s: Seq<char>) -> bool {
    imf_shape(s) && valid_fields(imf_fields(s))
}

/// The century window for a two-digit year: 00..=68 mean 2000..=2068,
/// 69..=99 mean 1969..=1999.
pub open spec fn rfc850_year(yy: int) -> int {
    if yy < 69 {
        2000 + yy
    } else {
        1900 + yy
    }
}

/// A full weekday token of length s.len() - 24 starts the text.
pub open spec fn rfc850_prefix(s: Seq<char>, w: int) -> bool {
    s.len() == weekday_full_name(w).len() + 24 && s.subrange(
        0,
        weekday_full_name(w).len() as int,
    ) == weekday_full_name(w)
}

/// Shape of the last 24 characters of the obsolete dashed format, for
/// example `, 06-Nov-94 08:49:37 GMT`.
pub open spec fn rfc850_tail_shape(s: Seq<char>) -> bool {
    let n = s.len() as int;
    &&& s[n - 24] == ','
    &&& s[n - 23] == ' '
    &&& is_two_digits(s, n - 22)
    &&& s[n - 20] == '-'
    &&& month_of_name(s.subrange(n - 19, n - 16)) != 0
    &&& s[n - 16] == '-'
    &&& is_two_digits(s, n - 15)
    &&& s[n - 13] == ' '
    &&& is_two_digits(s, n - 12)
    &&& s[n - 10] == ':'
    &&& is_two_digits(s, n - 9)
    &&& s[n - 7] == ':'
    &&& is_two_digits(s, n - 6)
    &&& s[n - 4] == ' '
    &&& s[n - 3] == 'G'
    &&& s[n - 2] == 'M'
    &&& s[n - 1] == 'T'
}

/// Shape of the obsolete dashed format, for example
/// `Sunday, 06-Nov-94 08:49:37 GMT`.
pub open spec fn rfc850_shape(s: Seq<char>) -> bool {
    &&& (rfc850_prefix(s, 0) || rfc850_prefix(s, 1) || rfc850_prefix(s, 2) || rfc850_prefix(s, 3)
        || rfc850_prefix(s, 4) || rfc850_prefix(s, 5) || rfc850_prefix(s, 6))
    &&& rfc850_tail_shape(s)
}

pub open spec fn rfc850_fields(s: Seq<char>) -> Fields {
    let n = s.len() as int;
    Fields {
        year: rfc850_year(two_digit_val(s, n - 15)),
        month: month_of_name(s.subrange(n - 19, n - 16)),
        day: two_digit_val(s, n - 22),
        hour: two_digit_val(s, n - 12),
        minute: two_digit_val(s, n - 9),
        second: two_digit_val(s, n - 6),
    }
}

pub open spec fn is_rfc850_date(s: Seq<char>) -> bool {
    rfc850_shape(s) && valid_fields(rfc850_fields(s))
}

/// Day of month in the C library format: space-padded to two characters,
/// so ` 6` as well as `16`.
pub open spec fn asctime_day_val(s: Seq<char>) -> int {
    if s[8] == ' ' {
        digit_val(s[9])
    } else {
        two_digit_val(s, 8)
    }
}

/// Shape of the C library format, for example `Sun Nov  6 08:49:37 1994`:
/// 24 characters, fixed positions.
pub open spec fn asctime_shape(s: Seq<char>) -> bool {
    &&& s.len() == 24
    &&& is_weekday_name(s.subrange(0, 3))
    &&& s[3] == ' '
    &&& month_of_name(s.subrange(4, 7)) != 0
    &&& s[7] == ' '
    &&& (s[8] == ' ' || is_digit(s[8]))
    &&& is_digit(s[9])
    &&& s[10] == ' '
    &&& is_two_digits(s, 11)
    &&& s[13] == ':'
    &&& is_two_digits(s, 14)
    &&& s[16] == ':'
    &&& is_two_digits(s, 17)
    &&& s[19] == ' '
    &&& is_four_digits(s, 20)
}

pub open spec fn asctime_fields(s: Seq<char>) -> Fields {
    Fields {
        year: four_digit_val(s, 20),
        month: month_of_name(s.subrange(4, 7)),
        day: asctime_day_val(s),
        hour: two_digit_val(s, 11),
        minute: two_digit_val(s, 14),
        second: two_digit_val(s, 17),
    }
}

pub open spec fn is_asctime_date(s: Seq<char>) -> bool {
    asctime_shape(s) && valid_fields(asctime_fields(s))
}

/// A text that any of the three grammars accepts, with in-range fields.
pub open spec fn is_http_date(s: Seq<char>) -> bool {
    is_imf_fixdate(s) || is_rfc850_date(s) || is_asctime_date(s)
}

/// The broken-down time a timestamp text denotes. The three shapes have
/// pairwise different lengths (29, 30..=33, 24), so at most one applies.
pub open spec fn http_date_fields(s: Seq<char>) -> Fields {
    if is_imf_fixdate(s) {
        imf_fields(s)
    } else if is_rfc850_date(s) {
        rfc850_fields(s)
    } else {
        asctime_fields(s)
    }
}

/// The instant a timestamp text denotes, in epoch seconds.
pub open spec fn http_date_secs(s: Seq<char>) -> int {
    secs_of_fields(http_date_fields(s))
}

pub open spec fn two_digit_str(v: int) -> Seq<char> {
    seq![digit_char(v / 10), digit_char(v % 10)]
}

pub open spec fn four_digit_str(v: int) -> Seq<char> {
    seq![
        digit_char(v / 1000),
        digit_char((v / 100) % 10),
        digit_char((v / 10) % 10),
        digit_char(v % 10),
    ]
}

/// The preferred fixed format of a broken-down time with weekday w.
pub open spec fn canonical_of_fields(f: Fields, w: int) -> Seq<char> {
    weekday_name(w) + seq![',', ' '] + two_digit_str(f.day) + seq![' '] + month_name(f.month)
        + seq![' '] + four_digit_str(f.year) + seq![' '] + two_digit_str(f.hour) + seq![':']
        + two_digit_str(f.minute) + seq![':'] + two_digit_str(f.second) + seq![' ', 'G', 'M', 'T']
}

/// The canonical text of an instant: its broken-down form with its
/// computed weekday, in the preferred fixed format.
pub open spec fn canonical_of(secs: int) -> Seq<char> {
    canonical_of_fields(fields_of_secs(secs), weekday_of_days(secs / 86400))
}

} // verus!
