//! Rendering a timestamp in the single canonical format: the fixed-length
//! preferred form, recomputed from the stored instant alone.

use vstd::prelude::*;

verus! {

use vstd::string::*;
use vstd::arithmetic::div_mod::{lemma_div_is_ordered, lemma_fundamental_div_mod_converse_div};
use crate::calendar::{
    fields_of_secs, lemma_fields_of_secs, secs_to_fields, weekday_of_days_x, MAX_EPOCH_SECS,
};
use crate::date::HttpDate;
use crate::grammar::{
    canonical_of, canonical_of_fields, digit_char, four_digit_str, month_name, two_digit_str,
    weekday_name,
};

fn digit_str(d: u64) -> (r: &'static str)
    requires
        d <= 9,
    ensures
        r@ == seq![digit_char(d as int)],
{
    proof {
        reveal_strlit("0");
        reveal_strlit("1");
        reveal_strlit("2");
        reveal_strlit("3");
        reveal_strlit("4");
        reveal_strlit("5");
        reveal_strlit("6");
        reveal_strlit("7");
        reveal_strlit("8");
        reveal_strlit("9");
        assert(("0")@ =~= seq!['0']);
        assert(("1")@ =~= seq!['1']);
        assert(("2")@ =~= seq!['2']);
        assert(("3")@ =~= seq!['3']);
        assert(("4")@ =~= seq!['4']);
        assert(("5")@ =~= seq!['5']);
        assert(("6")@ =~= seq!['6']);
        assert(("7")@ =~= seq!['7']);
        assert(("8")@ =~= seq!['8']);
        assert(("9")@ =~= seq!['9']);
    }
    if d == 0 {
        "0"
    } else if d == 1 {
        "1"
    } else if d == 2 {
        "2"
    } else if d == 3 {
        "3"
    } else if d == 4 {
        "4"
    } else if d == 5 {
        "5"
    } else if d == 6 {
        "6"
    } else if d == 7 {
        "7"
    } else if d == 8 {
        "8"
    } else {
        "9"
    }
}

fn month_str(m: u64) -> (r: &'static str)
    requires
        1 <= m <= 12,
    ensures
        r@ == month_name(m as int),
{
    proof {
        reveal_strlit("Jan");
        reveal_strlit("Feb");
        reveal_strlit("Mar");
        reveal_strlit("Apr");
        reveal_strlit("May");
        reveal_strlit("Jun");
        reveal_strlit("Jul");
        reveal_strlit("Aug");
        reveal_strlit("Sep");
        reveal_strlit("Oct");
        reveal_strlit("Nov");
        reveal_strlit("Dec");
        assert(("Jan")@ =~= seq!['J', 'a', 'n']);
        assert(("Feb")@ =~= seq!['F', 'e', 'b']);
        assert(("Mar")@ =~= seq!['M', 'a', 'r']);
        assert(("Apr")@ =~= seq!['A', 'p', 'r']);
        assert(("May")@ =~= seq!['M', 'a', 'y']);
        assert(("Jun")@ =~= seq!['J', 'u', 'n']);
        assert(("Jul")@ =~= seq!['J', 'u', 'l']);
        assert(("Aug")@ =~= seq!['A', 'u', 'g']);
        assert(("Sep")@ =~= seq!['S', 'e', 'p']);
        assert(("Oct")@ =~= seq!['O', 'c', 't']);
        assert(("Nov")@ =~= seq!['N', 'o', 'v']);
        assert(("Dec")@ =~= seq!['D', 'e', 'c']);
    }
    if m == 1 {
        "Jan"
    } else if m == 2 {
        "Feb"
    } else if m == 3 {
        "Mar"
    } else if m == 4 {
        "Apr"
    } else if m == 5 {
        "May"
    } else if m == 6 {
        "Jun"
    } else if m == 7 {
        "Jul"
    } else if m == 8 {
        "Aug"
    } else if m == 9 {
        "Sep"
    } else if m == 10 {
        "Oct"
    } else if m == 11 {
        "Nov"
    } else {
        "Dec"
    }
}

fn weekday_str(w: u64) -> (r: &'static str)
    requires
        w <= 6,
    ensures
        r@ == weekday_name(w as int),
{
    proof {
        reveal_strlit("Sun");
        reveal_strlit("Mon");
        reveal_strlit("Tue");
        reveal_strlit("Wed");
        reveal_strlit("Thu");
        reveal_strlit("Fri");
        reveal_strlit("Sat");
        assert(("Sun")@ =~= seq!['S', 'u', 'n']);
        assert(("Mon")@ =~= seq!['M', 'o', 'n']);
        assert(("Tue")@ =~= seq!['T', 'u', 'e']);
        assert(("Wed")@ =~= seq!['W', 'e', 'd']);
        assert(("Thu")@ =~= seq!['T', 'h', 'u']);
        assert(("Fri")@ =~= seq!['F', 'r', 'i']);
        assert(("Sat")@ =~= seq!['S', 'a', 't']);
    }
    if w == 0 {
        "Sun"
    } else if w == 1 {
        "Mon"
    } else if w == 2 {
        "Tue"
    } else if w == 3 {
        "Wed"
    } else if w == 4 {
        "Thu"
    } else if w == 5 {
        "Fri"
    } else {
        "Sat"
    }
}

fn push_two_digits(out: &mut String, v: u64)
    requires
        v <= 99,
    ensures
        final(out)@ == old(out)@ + two_digit_str(v as int),
{
    out.append(digit_str(v / 10));
    out.append(digit_str(v % 10));
    proof {
        assert(out@ =~= old(out)@ + two_digit_str(v as int));
    }
}

fn push_four_digits(out: &mut String, v: u64)
    requires
        v <= 9999,
    ensures
        final(out)@ == old(out)@ + four_digit_str(v as int),
{
    proof {
        lemma_div_is_ordered(v as int, 9999, 1000);
        lemma_fundamental_div_mod_converse_div(9999, 1000, 9, 999);
    }
    out.append(digit_str(v / 1000));
    out.append(digit_str((v / 100) % 10));
    out.append(digit_str((v / 10) % 10));
    out.append(digit_str(v % 10));
    proof {
        assert(out@ =~= old(out)@ + four_digit_str(v as int));
    }
}

impl HttpDate {
    /// The canonical text of this timestamp: the preferred fixed format,
    /// always exactly 29 characters, all fields (the weekday among them)
    /// computed fresh from the stored instant.
    pub fn to_canonical_string(&self) -> (r: String)
        ensures
            r@ == canonical_of(self@),
            r@.len() == 29,
    {
        let secs = self.epoch_secs();
        let (y, m, d, h, mi, s) = secs_to_fields(secs);
        let days = secs / 86400;
        proof {
            lemma_div_is_ordered(secs as int, MAX_EPOCH_SECS as int, 86400);
            lemma_fundamental_div_mod_converse_div(MAX_EPOCH_SECS as int, 86400, 2932896, 86399);
            lemma_fields_of_secs(secs as int);
        }
        let wd = weekday_of_days_x(days);
        let mut out = String::from_str(weekday_str(wd));
        out.append(", ");
        push_two_digits(&mut out, d);
        out.append(" ");
        out.append(month_str(m));
        out.append(" ");
        push_four_digits(&mut out, y);
        out.append(" ");
        push_two_digits(&mut out, h);
        out.append(":");
        push_two_digits(&mut out, mi);
        out.append(":");
        push_two_digits(&mut out, s);
        out.append(" GMT");
        proof {
            reveal_strlit(", ");
            reveal_strlit(" ");
            reveal_strlit(":");
            reveal_strlit(" GMT");
            assert((", ")@ =~= seq![',', ' ']);
            assert((" ")@ =~= seq![' ']);
            assert((":")@ =~= seq![':']);
            assert((" GMT")@ =~= seq![' ', 'G', 'M', 'T']);
            assert(out@ =~= canonical_of_fields(fields_of_secs(secs as int), wd as int));
        }
        out
    }
}

} // verus!
