use std::collections::hash_map::DefaultHasher;
use std::hash::{Hash, Hasher};

use http_date::{HttpDate, MAX_EPOCH_SECS};

fn nov_07() -> HttpDate {
    // 1994-11-07 08:48:37 UTC == 784198117 seconds since the epoch
    HttpDate::from_fields(1994, 11, 7, 8, 48, 37).unwrap()
}

#[test]
fn test_display_is_imf_fixdate() {
    // it's actually a Monday
    assert_eq!("Mon, 07 Nov 1994 08:48:37 GMT", &nov_07().to_canonical_string());
}

#[test]
fn test_imf_fixdate() {
    assert_eq!(
        "Sun, 07 Nov 1994 08:48:37 GMT".parse::<HttpDate>().unwrap(),
        nov_07()
    );
    assert_eq!(
        "Mon, 07 Nov 1994 08:48:37 GMT".parse::<HttpDate>().unwrap(),
        nov_07()
    );
}

#[test]
fn test_rfc_850() {
    assert_eq!(
        "Sunday, 07-Nov-94 08:48:37 GMT".parse::<HttpDate>().unwrap(),
        nov_07()
    );
}

#[test]
fn test_asctime() {
    assert_eq!("Sun Nov  7 08:48:37 1994".parse::<HttpDate>().unwrap(), nov_07());
}

#[test]
fn test_no_date() {
    assert!("this-is-no-date".parse::<HttpDate>().is_err());
}

#[test]
fn test_epoch_secs_value() {
    assert_eq!(nov_07().epoch_secs(), 784198117);
    assert_eq!(HttpDate::from_epoch_secs(784198117).unwrap(), nov_07());
}

#[test]
fn test_round_trip_canonicalization() {
    let samples: [u64; 7] = [
        0,
        1,
        784198117,
        951827696,
        4102444800,
        MAX_EPOCH_SECS - 1,
        MAX_EPOCH_SECS,
    ];
    for &secs in samples.iter() {
        let x = HttpDate::from_epoch_secs(secs).unwrap();
        let text = x.to_canonical_string();
        let back = HttpDate::parse(&text).unwrap();
        assert_eq!(back, x);
        assert_eq!(back.epoch_secs(), secs);
    }
}

#[test]
fn test_format_equivalence() {
    let a = HttpDate::parse("Sun, 07 Nov 1994 08:48:37 GMT").unwrap();
    let b = HttpDate::parse("Sunday, 07-Nov-94 08:48:37 GMT").unwrap();
    let c = HttpDate::parse("Sun Nov  7 08:48:37 1994").unwrap();
    assert_eq!(a, b);
    assert_eq!(b, c);
    assert_eq!(a.epoch_secs(), 784198117);
}

#[test]
fn test_weekday_correction() {
    // the weekday token is not validated, and rendering recomputes it
    let wrong = HttpDate::parse("Mon, 07 Nov 1994 08:48:37 GMT").unwrap();
    assert_eq!(wrong, nov_07());
    let parsed = HttpDate::parse("Sunday, 07-Nov-94 08:48:37 GMT").unwrap();
    assert_eq!(parsed.to_canonical_string(), "Mon, 07 Nov 1994 08:48:37 GMT");
}

#[test]
fn test_ordering_and_hash_consistency() {
    let x = nov_07();
    let y = HttpDate::parse("Sun Nov  7 08:48:37 1994").unwrap();
    let z = HttpDate::from_epoch_secs(784198118).unwrap();
    assert_eq!(x.cmp(&y), std::cmp::Ordering::Equal);
    assert_eq!(x.partial_cmp(&y), Some(std::cmp::Ordering::Equal));
    assert_eq!(x.cmp(&z), std::cmp::Ordering::Less);
    assert_eq!(z.cmp(&x), std::cmp::Ordering::Greater);
    assert!(x < z);
    assert!(x == y);
    let mut h1 = DefaultHasher::new();
    let mut h2 = DefaultHasher::new();
    x.hash(&mut h1);
    y.hash(&mut h2);
    assert_eq!(h1.finish(), h2.finish());
}

#[test]
fn test_fixed_output_length() {
    let samples: [u64; 5] = [0, 784198117, 951827696, 2524608000, MAX_EPOCH_SECS];
    for &secs in samples.iter() {
        let x = HttpDate::from_epoch_secs(secs).unwrap();
        assert_eq!(x.to_canonical_string().len(), 29);
    }
}

#[test]
fn test_canonical_boundaries() {
    let first = HttpDate::from_epoch_secs(0).unwrap();
    assert_eq!(first.to_canonical_string(), "Thu, 01 Jan 1970 00:00:00 GMT");
    let last = HttpDate::from_epoch_secs(MAX_EPOCH_SECS).unwrap();
    assert_eq!(last.to_canonical_string(), "Fri, 31 Dec 9999 23:59:59 GMT");
    assert!(HttpDate::from_epoch_secs(MAX_EPOCH_SECS + 1).is_none());
}

#[test]
fn test_leap_years() {
    // 2000 is a leap year, 2100 is not
    assert!(HttpDate::from_fields(2000, 2, 29, 12, 0, 0).is_some());
    assert!(HttpDate::from_fields(2100, 2, 29, 12, 0, 0).is_none());
    assert_eq!(
        HttpDate::parse("Tue, 29 Feb 2000 12:00:00 GMT")
            .unwrap()
            .to_canonical_string(),
        "Tue, 29 Feb 2000 12:00:00 GMT"
    );
    assert!(HttpDate::parse("Mon, 29 Feb 2100 12:00:00 GMT").is_err());
}

#[test]
fn test_field_range_rejection() {
    assert!(HttpDate::from_fields(1969, 12, 31, 23, 59, 59).is_none());
    assert!(HttpDate::from_fields(1994, 4, 31, 0, 0, 0).is_none());
    assert!(HttpDate::from_fields(1994, 11, 7, 24, 0, 0).is_none());
    assert!(HttpDate::from_fields(1994, 11, 7, 8, 60, 0).is_none());
    // a leap-second value is rejected, not clamped
    assert!(HttpDate::from_fields(1994, 11, 7, 8, 48, 60).is_none());
    assert!(HttpDate::parse("Sun, 07 Nov 1994 08:48:60 GMT").is_err());
    assert!(HttpDate::parse("Sun, 31 Apr 1994 08:48:37 GMT").is_err());
    assert!(HttpDate::parse("Sun, 07 Nov 1969 08:48:37 GMT").is_err());
}

#[test]
fn test_malformed_rejection() {
    assert!(HttpDate::parse("").is_err());
    assert!(HttpDate::parse("Sun, 07 Nov 1994 08:48:37 UTC").is_err());
    assert!(HttpDate::parse("Sun, 07 Nov 1994 08:48:37 GMT ").is_err());
    assert!(HttpDate::parse(" Sun, 07 Nov 1994 08:48:37 GMT").is_err());
    assert!(HttpDate::parse("Xxx, 07 Nov 1994 08:48:37 GMT").is_err());
    assert!(HttpDate::parse("Sun, 07 Xxx 1994 08:48:37 GMT").is_err());
    assert!(HttpDate::parse("Sun, 07 Nov 1994 08-48-37 GMT").is_err());
    assert!(HttpDate::parse("Sun Nov 07 08:48:37 1994 GMT").is_err());
    let err = HttpDate::parse("not a date").unwrap_err();
    let shown = format!("{:?}", err);
    assert!(!shown.is_empty());
}

#[test]
fn test_two_digit_year_window() {
    // 00..=68 belong to the 2000s, 69..=99 to the 1900s
    let late = HttpDate::parse("Friday, 06-Nov-68 08:49:37 GMT").unwrap();
    assert_eq!(late, HttpDate::from_fields(2068, 11, 6, 8, 49, 37).unwrap());
    let early = HttpDate::parse("Thursday, 06-Nov-97 08:49:37 GMT").unwrap();
    assert_eq!(early, HttpDate::from_fields(1997, 11, 6, 8, 49, 37).unwrap());
    // 69 would mean 1969, before the representable range
    assert!(HttpDate::parse("Sunday, 06-Nov-69 08:49:37 GMT").is_err());
}

#[test]
fn test_asctime_two_digit_day() {
    let d = HttpDate::parse("Wed Nov 16 08:49:37 1994").unwrap();
    assert_eq!(d, HttpDate::from_fields(1994, 11, 16, 8, 49, 37).unwrap());
    assert_eq!(d.to_canonical_string(), "Wed, 16 Nov 1994 08:49:37 GMT");
}
