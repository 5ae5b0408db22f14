//! The laws of the library, each proved once and for all: round-trip
//! canonicalization, equivalence of the three grammars, indifference to the
//! weekday token, and the fixed length of the canonical form.

use vstd::prelude::*;

verus! {

use vstd::arithmetic::div_mod::{
    lemma_div_denominator, lemma_div_is_ordered, lemma_fundamental_div_mod,
    lemma_fundamental_div_mod_converse_div, lemma_mod_division_less_than_divisor,
};
use crate::calendar::{fields_of_secs, lemma_fields_of_secs, weekday_of_days, MAX_EPOCH_SECS};
use crate::grammar::{
    canonical_of, canonical_of_fields, digit_char, digit_val, http_date_secs, imf_fields,
    is_asctime_date, is_digit, is_http_date, is_imf_fixdate, is_rfc850_date, is_weekday_name,
    month_name, month_of_name, two_digit_str, two_digit_val, weekday_full_name, weekday_name,
};

proof fn lemma_digit_char_val(d: int)
    requires
        0 <= d <= 9,
    ensures
        is_digit(digit_char(d)),
        digit_val(digit_char(d)) == d,
{
}

/// Two-digit rendering writes digits, and they read back as the value.
proof fn lemma_two_digit_round_trip(v: int)
    requires
        0 <= v <= 99,
    ensures
        is_digit(two_digit_str(v)[0]),
        is_digit(two_digit_str(v)[1]),
        10 * digit_val(two_digit_str(v)[0]) + digit_val(two_digit_str(v)[1]) == v,
{
    lemma_fundamental_div_mod(v, 10);
    lemma_mod_division_less_than_divisor(v, 10);
    lemma_div_is_ordered(v, 99, 10);
    assert(99int / 10 == 9) by {
        lemma_fundamental_div_mod_converse_div(99, 10, 9, 9);
    }
    lemma_digit_char_val(v / 10);
    lemma_digit_char_val(v % 10);
}

/// Four-digit rendering writes digits, and they read back as the value.
proof fn lemma_four_digit_round_trip(v: int)
    requires
        0 <= v <= 9999,
    ensures
        is_digit(digit_char(v / 1000)),
        is_digit(digit_char((v / 100) % 10)),
        is_digit(digit_char((v / 10) % 10)),
        is_digit(digit_char(v % 10)),
        1000 * digit_val(digit_char(v / 1000)) + 100 * digit_val(digit_char((v / 100) % 10)) + 10
            * digit_val(digit_char((v / 10) % 10)) + digit_val(digit_char(v % 10)) == v,
{
    lemma_fundamental_div_mod(v, 10);
    lemma_mod_division_less_than_divisor(v, 10);
    lemma_fundamental_div_mod(v / 10, 10);
    lemma_mod_division_less_than_divisor(v / 10, 10);
    lemma_fundamental_div_mod(v / 100, 10);
    lemma_mod_division_less_than_divisor(v / 100, 10);
    lemma_div_denominator(v, 10, 10);
    lemma_div_denominator(v, 100, 10);
    lemma_div_is_ordered(v, 9999, 1000);
    assert(9999int / 1000 == 9) by {
        lemma_fundamental_div_mod_converse_div(9999, 1000, 9, 999);
    }
    assert(v / 10 / 10 == v / 100);
    assert(v / 100 / 10 == v / 1000);
    lemma_div_is_ordered(0, v, 10);
    lemma_div_is_ordered(0, v, 100);
    lemma_digit_char_val(v / 1000);
    lemma_digit_char_val((v / 100) % 10);
    lemma_digit_char_val((v / 10) % 10);
    lemma_digit_char_val(v % 10);
}

/// A month token names the month it was made from.
proof fn lemma_month_name_value(m: int)
    requires
        1 <= m <= 12,
    ensures
        month_of_name(month_name(m)) == m,
{
}

/// The canonical text of an in-range instant is a well-formed preferred
/// fixed-format timestamp, and its fields are the instant's broken-down
/// form: nothing of the original text survives rendering.
pub proof fn lemma_canonical_is_imf(secs: int)
    requires
        0 <= secs <= MAX_EPOCH_SECS as int,
    ensures
        is_imf_fixdate(canonical_of(secs)),
        imf_fields(canonical_of(secs)) == fields_of_secs(secs),
{
    lemma_fields_of_secs(secs);
    let f = fields_of_secs(secs);
    let w = weekday_of_days(secs / 86400);
    let c = canonical_of_fields(f, w);
    assert(weekday_name(w).len() == 3);
    assert(month_name(f.month).len() == 3);
    assert(c.len() == 29);
    assert(c.subrange(0, 3) =~= weekday_name(w));
    assert(is_weekday_name(weekday_name(w)));
    assert(c[3] == ',');
    assert(c[4] == ' ');
    assert(c[5] == digit_char(f.day / 10));
    assert(c[6] == digit_char(f.day % 10));
    assert(c[7] == ' ');
    assert(c.subrange(8, 11) =~= month_name(f.month));
    lemma_month_name_value(f.month);
    assert(c[11] == ' ');
    assert(c[12] == digit_char(f.year / 1000));
    assert(c[13] == digit_char((f.year / 100) % 10));
    assert(c[14] == digit_char((f.year / 10) % 10));
    assert(c[15] == digit_char(f.year % 10));
    assert(c[16] == ' ');
    assert(c[17] == digit_char(f.hour / 10));
    assert(c[18] == digit_char(f.hour % 10));
    assert(c[19] == ':');
    assert(c[20] == digit_char(f.minute / 10));
    assert(c[21] == digit_char(f.minute % 10));
    assert(c[22] == ':');
    assert(c[23] == digit_char(f.second / 10));
    assert(c[24] == digit_char(f.second % 10));
    assert(c[25] == ' ');
    assert(c[26] == 'G');
    assert(c[27] == 'M');
    assert(c[28] == 'T');
    lemma_two_digit_round_trip(f.day);
    lemma_two_digit_round_trip(f.hour);
    lemma_two_digit_round_trip(f.minute);
    lemma_two_digit_round_trip(f.second);
    lemma_four_digit_round_trip(f.year);
    assert(two_digit_val(c, 5) == f.day);
    assert(two_digit_val(c, 17) == f.hour);
    assert(two_digit_val(c, 20) == f.minute);
    assert(two_digit_val(c, 23) == f.second);
    assert(crate::grammar::four_digit_val(c, 12) == f.year);
    assert(imf_fields(c) == f);
}

/// The three shapes have pairwise different lengths, so every accepted
/// text belongs to exactly one grammar.
pub proof fn lemma_grammars_disjoint(s: Seq<char>)
    ensures
        is_imf_fixdate(s) ==> s.len() == 29 && !is_rfc850_date(s) && !is_asctime_date(s),
        is_rfc850_date(s) ==> 30 <= s.len() <= 33 && !is_imf_fixdate(s) && !is_asctime_date(s),
        is_asctime_date(s) ==> s.len() == 24 && !is_imf_fixdate(s) && !is_rfc850_date(s),
{
    assert(weekday_full_name(0).len() == 6);
    assert(weekday_full_name(1).len() == 6);
    assert(weekday_full_name(2).len() == 7);
    assert(weekday_full_name(3).len() == 9);
    assert(weekday_full_name(4).len() == 8);
    assert(weekday_full_name(5).len() == 6);
    assert(weekday_full_name(6).len() == 8);
}

/// Round-trip canonicalization: the canonical text of any representable
/// instant parses back to exactly that instant.
pub proof fn lemma_round_trip(secs: int)
    requires
        0 <= secs <= MAX_EPOCH_SECS as int,
    ensures
        is_http_date(canonical_of(secs)),
        http_date_secs(canonical_of(secs)) == secs,
{
    lemma_canonical_is_imf(secs);
    lemma_fields_of_secs(secs);
}

/// Format equivalence: texts of the three grammars that spell the same
/// broken-down time denote the same instant.
pub proof fn lemma_format_equivalence(s1: Seq<char>, s2: Seq<char>, s3: Seq<char>)
    requires
        is_imf_fixdate(s1),
        is_rfc850_date(s2),
        is_asctime_date(s3),
        imf_fields(s1) == crate::grammar::rfc850_fields(s2),
        crate::grammar::rfc850_fields(s2) == crate::grammar::asctime_fields(s3),
    ensures
        http_date_secs(s1) == http_date_secs(s2),
        http_date_secs(s2) == http_date_secs(s3),
{
    lemma_grammars_disjoint(s1);
    lemma_grammars_disjoint(s2);
    lemma_grammars_disjoint(s3);
}

/// The weekday token of the preferred format is never validated against
/// the date: exchanging it for any other weekday token changes neither
/// acceptance nor the instant the text denotes.
pub proof fn lemma_weekday_token_immaterial(s1: Seq<char>, s2: Seq<char>)
    requires
        is_imf_fixdate(s1),
        s2.len() == 29,
        is_weekday_name(s2.subrange(0, 3)),
        s2.subrange(3, 29) == s1.subrange(3, 29),
    ensures
        is_imf_fixdate(s2),
        http_date_secs(s2) == http_date_secs(s1),
{
    assert forall|i: int| 3 <= i < 29 implies s2[i] == s1[i] by {
        assert(s1.subrange(3, 29)[i - 3] == s1[i]);
        assert(s2.subrange(3, 29)[i - 3] == s2[i]);
    }
    assert(s2.subrange(8, 11) =~= s1.subrange(8, 11));
    assert(imf_fields(s2) == imf_fields(s1));
    lemma_grammars_disjoint(s1);
    lemma_grammars_disjoint(s2);
}

/// Fixed output length: the canonical text of any instant has exactly 29
/// characters.
pub proof fn lemma_canonical_len(secs: int)
    ensures
        canonical_of(secs).len() == 29,
{
    let f = fields_of_secs(secs);
    let w = weekday_of_days(secs / 86400);
    assert(weekday_name(w).len() == 3);
    assert(month_name(f.month).len() == 3);
}

} // verus!
