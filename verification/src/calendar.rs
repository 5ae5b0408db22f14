//! The proleptic Gregorian calendar over the years 1970..=9999, in UTC:
//! the arithmetic that connects an instant counted in seconds since the
//! Unix epoch with its broken-down form (year, month, day, hour, minute,
//! second) and with its weekday.

use vstd::prelude::*;

verus! {

use vstd::arithmetic::div_mod::{
    lemma_div_is_ordered, lemma_div_pos_is_pos, lemma_fundamental_div_mod,
    lemma_fundamental_div_mod_converse_div, lemma_fundamental_div_mod_converse_mod,
    lemma_mod_division_less_than_divisor,
};

/// The greatest representable instant, 9999-12-31 23:59:59 UTC, in seconds
/// since the Unix epoch.
pub const MAX_EPOCH_SECS: u64 = 253402300799;

/// An instant in broken-down form, all components in UTC. This is the
/// mathematical model that the contracts speak of.
pub struct Fields {
    pub year: int,
    pub month: int,
    pub day: int,
    pub hour: int,
    pub minute: int,
    pub second: int,
}

pub open spec fn is_leap_year(y: int) -> bool {
    (y % 4 == 0 && y % 100 != 0) || y % 400 == 0
}

pub open spec fn days_in_year(y: int) -> int {
    if is_leap_year(y) {
        366
    } else {
        365
    }
}

pub open spec fn days_in_month(y: int, m: int) -> int {
    if m == 2 {
        if is_leap_year(y) {
            29
        } else {
            28
        }
    } else if m == 4 || m == 6 || m == 9 || m == 11 {
        30
    } else {
        31
    }
}

/// The number of leap years numbered 1..=t.
pub open spec fn leap_count(t: int) -> int {
    t / 4 - t / 100 + t / 400
}

/// Days from 1970-01-01 to y-01-01 (closed form).
pub open spec fn days_to_year(y: int) -> int {
    365 * (y - 1970) + leap_count(y - 1) - leap_count(1969)
}

/// Days from y-01-01 to the first day of month m of year y.
pub open spec fn days_to_month(y: int, m: int) -> int
    decreases m,
{
    if m <= 1 {
        0
    } else {
        days_to_month(y, m - 1) + days_in_month(y, m - 1)
    }
}

/// Days from 1970-01-01 to the date y-m-d.
pub open spec fn days_of_date(y: int, m: int, d: int) -> int {
    days_to_year(y) + days_to_month(y, m) + d - 1
}

/// The broken-down times this library can represent: a real calendar date
/// of the years 1970..=9999 with a time of day. A leap-second value (60)
/// in the seconds field is rejected.
pub open spec fn valid_fields(f: Fields) -> bool {
    &&& 1970 <= f.year <= 9999
    &&& 1 <= f.month <= 12
    &&& 1 <= f.day <= days_in_month(f.year, f.month)
    &&& 0 <= f.hour <= 23
    &&& 0 <= f.minute <= 59
    &&& 0 <= f.second <= 59
}

/// Seconds since the Unix epoch of a broken-down time.
pub open spec fn secs_of_fields(f: Fields) -> int {
    days_of_date(f.year, f.month, f.day) * 86400 + f.hour * 3600 + f.minute * 60 + f.second
}

/// Weekday of a day count since the epoch: 0 = Sunday, ..., 6 = Saturday.
/// 1970-01-01 was a Thursday (= 4).
pub open spec fn weekday_of_days(days: int) -> int {
    (days + 4) % 7
}

/// How one year's length shows up in the quotients of the closed form:
/// stepping the dividend by one raises the quotient exactly on multiples.
proof fn lemma_div_step(y: int, d: int)
    requires
        1 <= d,
        1 <= y,
    ensures
        y / d == (y - 1) / d + if y % d == 0 {
            1int
        } else {
            0int
        },
{
    let q = y / d;
    let r = y % d;
    lemma_fundamental_div_mod(y, d);
    lemma_mod_division_less_than_divisor(y, d);
    if r == 0 {
        assert(y - 1 == (q - 1) * d + (d - 1)) by (nonlinear_arith)
            requires
                y == d * q + r,
                r == 0,
        ;
        lemma_fundamental_div_mod_converse_div(y - 1, d, q - 1, d - 1);
    } else {
        assert(y - 1 == q * d + (r - 1)) by (nonlinear_arith)
            requires
                y == d * q + r,
        ;
        lemma_fundamental_div_mod_converse_div(y - 1, d, q, r - 1);
    }
}

/// If y is a multiple of d * k, it is a multiple of d.
proof fn lemma_mod_divides_factor(y: int, d: int, k: int)
    requires
        1 <= d,
        1 <= k,
        y % (d * k) == 0,
    ensures
        y % d == 0,
{
    assert(d * k >= 1) by (nonlinear_arith)
        requires
            1 <= d,
            1 <= k,
    ;
    lemma_fundamental_div_mod(y, d * k);
    let q = y / (d * k);
    assert(y == (k * q) * d + 0) by (nonlinear_arith)
        requires
            y == (d * k) * q,
    ;
    lemma_fundamental_div_mod_converse_mod(y, d, k * q, 0);
}

/// The closed form steps by exactly the length of the year.
pub proof fn lemma_days_to_year_step(y: int)
    requires
        1 <= y,
    ensures
        days_to_year(y + 1) == days_to_year(y) + days_in_year(y),
{
    lemma_div_step(y, 4);
    lemma_div_step(y, 100);
    lemma_div_step(y, 400);
    if y % 400 == 0 {
        lemma_mod_divides_factor(y, 100, 4);
        lemma_mod_divides_factor(y, 4, 100);
    } else if y % 100 == 0 {
        lemma_mod_divides_factor(y, 4, 25);
    }
}

pub proof fn lemma_days_to_year_mono(y1: int, y2: int)
    requires
        1970 <= y1 <= y2,
    ensures
        days_to_year(y1) <= days_to_year(y2),
    decreases y2 - y1,
{
    if y1 < y2 {
        lemma_days_to_year_mono(y1, y2 - 1);
        lemma_days_to_year_step(y2 - 1);
    }
}

/// Days from 1970-01-01 to 10000-01-01, the first day past the supported
/// range.
pub proof fn lemma_days_to_year_10000()
    ensures
        days_to_year(10000) == 2932897,
{
    assert(9999int / 4 == 2499) by {
        lemma_fundamental_div_mod_converse_div(9999, 4, 2499, 3);
    }
    assert(9999int / 100 == 99) by {
        lemma_fundamental_div_mod_converse_div(9999, 100, 99, 99);
    }
    assert(9999int / 400 == 24) by {
        lemma_fundamental_div_mod_converse_div(9999, 400, 24, 399);
    }
    assert(1969int / 4 == 492) by {
        lemma_fundamental_div_mod_converse_div(1969, 4, 492, 1);
    }
    assert(1969int / 100 == 19) by {
        lemma_fundamental_div_mod_converse_div(1969, 100, 19, 69);
    }
    assert(1969int / 400 == 4) by {
        lemma_fundamental_div_mod_converse_div(1969, 400, 4, 369);
    }
}

pub proof fn lemma_days_to_month_mono(y: int, m1: int, m2: int)
    requires
        1 <= m1 <= m2 <= 13,
    ensures
        days_to_month(y, m1) <= days_to_month(y, m2),
    decreases m2 - m1,
{
    if m1 < m2 {
        lemma_days_to_month_mono(y, m1, m2 - 1);
    }
}

/// The twelve month lengths of a year sum to its length.
pub proof fn lemma_days_in_months_sum(y: int)
    ensures
        days_to_month(y, 13) == days_in_year(y),
{
    reveal_with_fuel(days_to_month, 13);
}

/// A valid broken-down time maps into the supported range of epoch seconds.
pub proof fn lemma_secs_of_fields_bounds(f: Fields)
    requires
        valid_fields(f),
    ensures
        0 <= secs_of_fields(f) <= MAX_EPOCH_SECS as int,
{
    lemma_days_to_year_mono(1970, f.year);
    lemma_days_to_month_mono(f.year, 1, f.month);
    assert(days_to_month(f.year, f.month) + days_in_month(f.year, f.month) == days_to_month(
        f.year,
        f.month + 1,
    ));
    lemma_days_to_month_mono(f.year, f.month + 1, 13);
    lemma_days_in_months_sum(f.year);
    lemma_days_to_year_step(f.year);
    lemma_days_to_year_mono(f.year + 1, 10000);
    lemma_days_to_year_10000();
    assert(days_of_date(f.year, f.month, f.day) <= 2932896);
    assert(days_of_date(f.year, f.month, f.day) >= 0);
}

/// The year that a day count since the epoch falls in, counted up from a
/// starting year: the remaining day count shrinks by whole years until it
/// is less than a year.
pub open spec fn year_of_days(y: int, days: int) -> (int, int)
    decreases days,
{
    if days < days_in_year(y) {
        (y, days)
    } else {
        year_of_days(y + 1, days - days_in_year(y))
    }
}

/// The month that a day count within a year falls in, counted up from a
/// starting month.
pub open spec fn month_of_days(y: int, m: int, days: int) -> (int, int)
    decreases 12 - m,
{
    if m >= 12 || days < days_in_month(y, m) {
        (m, days)
    } else {
        month_of_days(y, m + 1, days - days_in_month(y, m))
    }
}

pub proof fn lemma_year_of_days(y: int, days: int)
    requires
        1970 <= y <= 9999,
        0 <= days,
        days_to_year(y) + days < days_to_year(10000),
    ensures
        ({
            let (ry, rd) = year_of_days(y, days);
            &&& 1970 <= ry <= 9999
            &&& 0 <= rd < days_in_year(ry)
            &&& days_to_year(ry) + rd == days_to_year(y) + days
        }),
    decreases days,
{
    if days >= days_in_year(y) {
        lemma_days_to_year_step(y);
        if y == 9999 {
            assert(false);
        }
        lemma_year_of_days(y + 1, days - days_in_year(y));
    }
}

pub proof fn lemma_month_of_days(y: int, m: int, days: int)
    requires
        1 <= m <= 12,
        0 <= days,
        days_to_month(y, m) + days < days_to_month(y, 13),
    ensures
        ({
            let (rm, rd) = month_of_days(y, m, days);
            &&& 1 <= rm <= 12
            &&& 0 <= rd < days_in_month(y, rm)
            &&& days_to_month(y, rm) + rd == days_to_month(y, m) + days
        }),
    decreases 12 - m,
{
    if m >= 12 || days < days_in_month(y, m) {
        if m >= 12 {
            assert(days_to_month(y, 13) == days_to_month(y, 12) + days_in_month(y, 12));
        }
    } else {
        lemma_month_of_days(y, m + 1, days - days_in_month(y, m));
    }
}

/// The broken-down form of an instant given in epoch seconds.
pub open spec fn fields_of_secs(secs: int) -> Fields {
    let days = secs / 86400;
    let rem = secs % 86400;
    let yp = year_of_days(1970, days);
    let mp = month_of_days(yp.0, 1, yp.1);
    Fields {
        year: yp.0,
        month: mp.0,
        day: mp.1 + 1,
        hour: rem / 3600,
        minute: (rem % 3600) / 60,
        second: (rem % 3600) % 60,
    }
}

/// Breaking an in-range instant down yields a valid date, and the two
/// conversions invert each other.
pub proof fn lemma_fields_of_secs(secs: int)
    requires
        0 <= secs <= MAX_EPOCH_SECS as int,
    ensures
        valid_fields(fields_of_secs(secs)),
        secs_of_fields(fields_of_secs(secs)) == secs,
{
    let days = secs / 86400;
    let rem = secs % 86400;
    lemma_fundamental_div_mod(secs, 86400);
    lemma_mod_division_less_than_divisor(secs, 86400);
    lemma_div_pos_is_pos(secs, 86400);
    lemma_div_is_ordered(secs, MAX_EPOCH_SECS as int, 86400);
    assert(MAX_EPOCH_SECS as int / 86400 == 2932896) by {
        lemma_fundamental_div_mod_converse_div(MAX_EPOCH_SECS as int, 86400, 2932896, 86399);
    }
    lemma_days_to_year_10000();
    lemma_year_of_days(1970, days);
    let yp = year_of_days(1970, days);
    lemma_days_in_months_sum(yp.0);
    lemma_month_of_days(yp.0, 1, yp.1);
    lemma_div_pos_is_pos(rem, 3600);
    lemma_fundamental_div_mod(rem, 3600);
    lemma_mod_division_less_than_divisor(rem, 3600);
    lemma_div_is_ordered(rem, 86399, 3600);
    assert(86399int / 3600 == 23) by {
        lemma_fundamental_div_mod_converse_div(86399, 3600, 23, 3599);
    }
    let rem2 = rem % 3600;
    lemma_div_pos_is_pos(rem2, 60);
    lemma_fundamental_div_mod(rem2, 60);
    lemma_mod_division_less_than_divisor(rem2, 60);
    lemma_div_is_ordered(rem2, 3599, 60);
    assert(3599int / 60 == 59) by {
        lemma_fundamental_div_mod_converse_div(3599, 60, 59, 59);
    }
}

fn is_leap_year_x(y: u64) -> (r: bool)
    ensures
        r == is_leap_year(y as int),
{
    (y % 4 == 0 && y % 100 != 0) || y % 400 == 0
}

/// The number of days of month m of year y.
pub fn days_in_month_x(y: u64, m: u64) -> (r: u64)
    requires
        1 <= m <= 12,
    ensures
        r as int == days_in_month(y as int, m as int),
{
    if m == 2 {
        if is_leap_year_x(y) {
            29
        } else {
            28
        }
    } else if m == 4 || m == 6 || m == 9 || m == 11 {
        30
    } else {
        31
    }
}

/// Epoch seconds of a valid broken-down time.
pub fn date_to_secs(y: u64, m: u64, d: u64, h: u64, mi: u64, s: u64) -> (r: u64)
    requires
        valid_fields(
            Fields {
                year: y as int,
                month: m as int,
                day: d as int,
                hour: h as int,
                minute: mi as int,
                second: s as int,
            },
        ),
    ensures
        r as int == secs_of_fields(
            Fields {
                year: y as int,
                month: m as int,
                day: d as int,
                hour: h as int,
                minute: mi as int,
                second: s as int,
            },
        ),
        r <= MAX_EPOCH_SECS,
{
    let ghost f = Fields {
        year: y as int,
        month: m as int,
        day: d as int,
        hour: h as int,
        minute: mi as int,
        second: s as int,
    };
    let mut ydays: u64 = 0;
    let mut i: u64 = 1970;
    while i < y
        invariant
            1970 <= i <= y <= 9999,
            ydays as int == days_to_year(i as int),
            ydays <= 2932897,
        decreases y - i,
    {
        proof {
            lemma_days_to_year_step(i as int);
            lemma_days_to_year_mono(1970, i as int + 1);
            lemma_days_to_year_mono(i as int + 1, 10000);
            lemma_days_to_year_10000();
        }
        let add: u64 = if is_leap_year_x(i) {
            366
        } else {
            365
        };
        ydays = ydays + add;
        i = i + 1;
    }
    let mut mdays: u64 = 0;
    let mut mm: u64 = 1;
    while mm < m
        invariant
            1 <= mm <= m <= 12,
            mdays as int == days_to_month(y as int, mm as int),
            mdays <= 366,
        decreases m - mm,
    {
        proof {
            lemma_days_to_month_mono(y as int, mm as int + 1, 13);
            lemma_days_in_months_sum(y as int);
        }
        mdays = mdays + days_in_month_x(y, mm);
        mm = mm + 1;
    }
    proof {
        lemma_secs_of_fields_bounds(f);
        lemma_days_to_year_mono(1970, y as int);
        lemma_days_to_month_mono(y as int, 1, m as int);
    }
    let days = ydays + mdays + d - 1;
    days * 86400 + h * 3600 + mi * 60 + s
}

/// Broken-down form of an in-range instant:
/// (year, month, day, hour, minute, second).
pub fn secs_to_fields(secs: u64) -> (r: (u64, u64, u64, u64, u64, u64))
    requires
        secs <= MAX_EPOCH_SECS,
    ensures
        ({
            let f = fields_of_secs(secs as int);
            &&& r.0 as int == f.year
            &&& r.1 as int == f.month
            &&& r.2 as int == f.day
            &&& r.3 as int == f.hour
            &&& r.4 as int == f.minute
            &&& r.5 as int == f.second
        }),
{
    let days_total = secs / 86400;
    let rem = secs % 86400;
    proof {
        lemma_days_to_year_10000();
        lemma_div_is_ordered(secs as int, MAX_EPOCH_SECS as int, 86400);
        assert(MAX_EPOCH_SECS as int / 86400 == 2932896) by {
            lemma_fundamental_div_mod_converse_div(MAX_EPOCH_SECS as int, 86400, 2932896, 86399);
        }
    }
    let mut y: u64 = 1970;
    let mut rem_days = days_total;
    let mut diy: u64 = 365;
    while rem_days >= diy
        invariant
            1970 <= y <= 9999,
            diy as int == days_in_year(y as int),
            days_to_year(y as int) + rem_days as int == days_total as int,
            year_of_days(y as int, rem_days as int) == year_of_days(1970, days_total as int),
            (days_total as int) < days_to_year(10000),
            days_to_year(10000) == 2932897,
        decreases rem_days,
    {
        proof {
            lemma_days_to_year_step(y as int);
            if y == 9999 {
                assert(false);
            }
        }
        rem_days = rem_days - diy;
        y = y + 1;
        diy = if is_leap_year_x(y) {
            366
        } else {
            365
        };
    }
    let yrem = rem_days;
    proof {
        lemma_days_in_months_sum(y as int);
    }
    let mut m: u64 = 1;
    let mut rem2 = yrem;
    let mut dim: u64 = 31;
    while rem2 >= dim && m < 12
        invariant
            1 <= m <= 12,
            dim as int == days_in_month(y as int, m as int),
            days_to_month(y as int, m as int) + rem2 as int == yrem as int,
            month_of_days(y as int, m as int, rem2 as int) == month_of_days(
                y as int,
                1,
                yrem as int,
            ),
            rem2 <= yrem,
            (yrem as int) < days_in_year(y as int),
            days_to_month(y as int, 13) == days_in_year(y as int),
        decreases 12 - m,
    {
        rem2 = rem2 - dim;
        m = m + 1;
        dim = days_in_month_x(y, m);
    }
    proof {
        if m == 12 && rem2 >= dim {
            assert(days_to_month(y as int, 13) == days_to_month(y as int, 12) + days_in_month(
                y as int,
                12,
            ));
            assert(false);
        }
    }
    let hour = rem / 3600;
    let rem3 = rem % 3600;
    let minute = rem3 / 60;
    let second = rem3 % 60;
    (y, m, rem2 + 1, hour, minute, second)
}

/// Weekday of a day count since the epoch: 0 = Sunday, ..., 6 = Saturday.
pub fn weekday_of_days_x(days: u64) -> (r: u64)
    requires
        days <= 2932896,
    ensures
        r as int == weekday_of_days(days as int),
        r <= 6,
{
    (days + 4) % 7
}

} // verus!
