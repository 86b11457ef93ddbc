use chrono::{DateTime, Utc};

use peterlits_com_server::clock::{elapsed, Instant, EARLIEST_SECS, LATEST_SECS};

fn instant_of(t: &DateTime<Utc>) -> Instant {
    Instant { secs: t.timestamp(), nanos: t.timestamp_subsec_nanos() }
}

fn chrono_nanos(a: &DateTime<Utc>, b: &DateTime<Utc>) -> i128 {
    let d = *a - *b;
    d.num_seconds() as i128 * 1_000_000_000 + d.subsec_nanos() as i128
}

#[test]
fn range_of_instants() {
    assert_eq!(DateTime::<Utc>::MIN_UTC.timestamp(), EARLIEST_SECS);
    assert_eq!(DateTime::<Utc>::MAX_UTC.timestamp(), LATEST_SECS);
    assert!(DateTime::from_timestamp(EARLIEST_SECS, 0).is_some());
    assert!(DateTime::from_timestamp(EARLIEST_SECS - 1, 999_999_999).is_none());
    assert!(DateTime::from_timestamp(LATEST_SECS, 999_999_999).is_some());
    assert!(DateTime::from_timestamp(LATEST_SECS + 1, 0).is_none());
}

#[test]
fn elapsed_agrees_with_chrono() {
    let texts = [
        "2016-12-31T23:59:60.5+00:00",
        "2016-12-31T23:59:59.25+00:00",
        "2017-01-01T00:00:00.75+00:00",
        "2017-01-01T00:00:01Z",
        "1969-12-31T23:59:59.999999999Z",
        "1970-01-01T00:00:00Z",
        "2021-06-30T23:59:60.999999999+02:00",
        "2021-06-30T12:00:00-05:00",
        "0001-01-01T00:00:00Z",
        "9999-12-31T23:59:59.123Z",
    ];
    let times: Vec<DateTime<Utc>> = texts
        .iter()
        .map(|s| DateTime::parse_from_rfc3339(s).unwrap().with_timezone(&Utc))
        .collect();
    for a in &times {
        for b in &times {
            assert_eq!(elapsed(instant_of(a), instant_of(b)), chrono_nanos(a, b), "{} - {}", a, b);
        }
    }
}

#[test]
fn elapsed_plain_values() {
    let a = Instant { secs: 10, nanos: 0 };
    let b = Instant { secs: 7, nanos: 1 };
    assert_eq!(elapsed(a, b), 2_999_999_999);
    assert_eq!(elapsed(b, a), -2_999_999_999);
}
