//! The timestamp value type: an opaque wrapper around an instant in UTC at
//! one-second resolution. Equality, ordering and hashing all follow the
//! underlying count of seconds since the Unix epoch, never a textual form.

use vstd::prelude::*;

verus! {

use core::cmp::Ordering;
use vstd::std_specs::cmp::PartialOrdSpec;
use crate::calendar::{
    date_to_secs, days_in_month_x, lemma_secs_of_fields_bounds, secs_of_fields, valid_fields,
    Fields, MAX_EPOCH_SECS,
};

/// Parse failure: the text matches none of the three accepted timestamp
/// grammars, or a field of it is out of range. No further distinction is
/// made.
#[derive(Debug)]
pub struct Error(());

impl Error {
    pub(crate) fn new() -> Error {
        Error(())
    }
}

/// A timestamp as it appears in a protocol header field. Its view is the
/// instant it denotes, as seconds since the Unix epoch; every value lies in
/// 0..=MAX_EPOCH_SECS (1970-01-01 00:00:00 through 9999-12-31 23:59:59).
#[derive(Clone, Copy, PartialEq, Eq, Structural, Hash, Ord, Debug)]
pub struct HttpDate {
    secs: u64,
}

impl View for HttpDate {
    type V = int;

    closed spec fn view(&self) -> int {
        self.secs as int
    }
}

impl HttpDate {
    #[verifier::type_invariant]
    spec fn inv(self) -> bool {
        self.secs <= MAX_EPOCH_SECS
    }

    /// The instant `secs` seconds after the Unix epoch, for any clock
    /// reading up to the end of the year 9999.
    pub fn from_epoch_secs(secs: u64) -> (r: Option<HttpDate>)
        ensures
            r is Some <==> secs <= MAX_EPOCH_SECS,
            r matches Some(d) ==> d@ == secs as int,
    {
        if secs <= MAX_EPOCH_SECS {
            Some(HttpDate { secs })
        } else {
            None
        }
    }

    /// The instant of a broken-down UTC time; `None` exactly on times that
    /// are no real calendar date or time of day.
    pub fn from_fields(year: u16, month: u8, day: u8, hour: u8, minute: u8, second: u8) -> (r:
        Option<HttpDate>)
        ensures
            r is Some <==> valid_fields(
                Fields {
                    year: year as int,
                    month: month as int,
                    day: day as int,
                    hour: hour as int,
                    minute: minute as int,
                    second: second as int,
                },
            ),
            r matches Some(d) ==> d@ == secs_of_fields(
                Fields {
                    year: year as int,
                    month: month as int,
                    day: day as int,
                    hour: hour as int,
                    minute: minute as int,
                    second: second as int,
                },
            ),
    {
        let ghost f = Fields {
            year: year as int,
            month: month as int,
            day: day as int,
            hour: hour as int,
            minute: minute as int,
            second: second as int,
        };
        if year < 1970 || year > 9999 || month < 1 || month > 12 {
            return None;
        }
        if day < 1 || (day as u64) > days_in_month_x(year as u64, month as u64) {
            return None;
        }
        if hour > 23 || minute > 59 || second > 59 {
            return None;
        }
        let secs = date_to_secs(
            year as u64,
            month as u64,
            day as u64,
            hour as u64,
            minute as u64,
            second as u64,
        );
        proof {
            lemma_secs_of_fields_bounds(f);
        }
        Some(HttpDate { secs })
    }

    /// The instant as seconds since the Unix epoch. Every value denotes an
    /// instant of the representable range.
    pub fn epoch_secs(&self) -> (r: u64)
        ensures
            r as int == self@,
            r <= MAX_EPOCH_SECS,
    {
        proof {
            use_type_invariant(*self);
        }
        self.secs
    }
}

impl PartialOrd for HttpDate {
    fn partial_cmp(&self, other: &HttpDate) -> Option<Ordering> {
        if self.secs < other.secs {
            Some(Ordering::Less)
        } else if self.secs == other.secs {
            Some(Ordering::Equal)
        } else {
            Some(Ordering::Greater)
        }
    }
}

impl vstd::std_specs::cmp::PartialOrdSpecImpl for HttpDate {
    open spec fn obeys_partial_cmp_spec() -> bool {
        true
    }

    open spec fn partial_cmp_spec(&self, other: &HttpDate) -> Option<Ordering> {
        if self@ < other@ {
            Some(Ordering::Less)
        } else if self@ == other@ {
            Some(Ordering::Equal)
        } else {
            Some(Ordering::Greater)
        }
    }
}

/// Two timestamps are equal exactly when they denote the same instant, and
/// exactly when comparing them yields `Equal`; order follows the instants.
/// Since equal values are identical, every hash of the one is a hash of the
/// other.
pub proof fn lemma_eq_ord_consistent(x: HttpDate, y: HttpDate)
    ensures
        (x == y) <==> (x@ == y@),
        HttpDate::obeys_partial_cmp_spec(),
        (x == y) <==> (x.partial_cmp_spec(&y) == Some(Ordering::Equal)),
        (x@ < y@) <==> (x.partial_cmp_spec(&y) == Some(Ordering::Less)),
        (x@ > y@) <==> (x.partial_cmp_spec(&y) == Some(Ordering::Greater)),
{
}

} // verus!
