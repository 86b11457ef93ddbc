//! Instants in time, as the comment store writes and reads them, and the
//! time that passes between two of them.

use vstd::prelude::*;

verus! {

/// An instant: whole seconds since 1970-01-01T00:00:00Z (leap seconds not
/// counted) and the nanoseconds past that second. During a leap second the
/// nanoseconds run from 1,000,000,000 up to 1,999,999,999.
#[derive(Clone, Copy, Debug, PartialEq, Eq, Structural)]
pub struct Instant {
    pub secs: i64,
    pub nanos: u32,
}

/// The seconds of the first instant that `chrono` represents, the start of
/// its earliest day (`DateTime::<Utc>::MIN_UTC`).
pub const EARLIEST_SECS: i64 = -8334601228800;

/// The seconds of the last instant that `chrono` represents, the last
/// second of its latest day (`DateTime::<Utc>::MAX_UTC`).
pub const LATEST_SECS: i64 = 8210266876799;

/// The seconds of 0000-01-01T00:00:00Z, the first instant whose year has
/// four digits.
pub const FOUR_DIGIT_YEARS_START: i64 = -62167219200;

/// The seconds of 9999-12-31T23:59:59Z, the last second whose year has four
/// digits.
pub const FOUR_DIGIT_YEARS_END: i64 = 253402300799;

/// Whether `t` is an instant that `chrono` represents: seconds in its
/// range, and nanoseconds past a second below 2,000,000,000, those from
/// 1,000,000,000 on only in the last second of a minute (a leap second).
pub open spec fn valid_instant(t: Instant) -> bool {
    &&& EARLIEST_SECS <= t.secs <= LATEST_SECS
    &&& t.nanos < 2_000_000_000
    &&& t.nanos >= 1_000_000_000 ==> t.secs % 60 == 59
}

/// The time from `earlier` to `later`, in nanoseconds, as `chrono` counts
/// it when it subtracts two instants: the difference of the seconds and of
/// the nanoseconds, where a leap second that lies between the two times of
/// day counts as one more second.
pub open spec fn elapsed_nanos(later: Instant, earlier: Instant) -> int {
    let day_later = later.secs % 86400;
    let day_earlier = earlier.secs % 86400;
    let leap = if day_later > day_earlier && earlier.nanos >= 1_000_000_000 {
        1int
    } else if day_later < day_earlier && later.nanos >= 1_000_000_000 {
        -1int
    } else {
        0int
    };
    (later.secs - earlier.secs + leap) * 1_000_000_000 + later.nanos - earlier.nanos
}

/// The text that `chrono` writes for an instant in RFC 3339 form, in UTC
/// (`DateTime::<Utc>::to_rfc3339`).
pub uninterp spec fn rfc3339_text(secs: i64, nanos: u32) -> Seq<char>;

/// The instant that `chrono` reads from an RFC 3339 text
/// (`DateTime::parse_from_rfc3339`), `None` where it refuses the text.
pub uninterp spec fn rfc3339_instant(text: Seq<char>) -> Option<Instant>;

/// `chrono::Utc::now()`, as an instant. It reads the system clock, so
/// nothing ties its result to anything but chrono's own guarantees: a
/// valid instant, after 1970, never inside a leap second (it converts the
/// system time, whose nanoseconds stay below one second). It panics if the
/// system clock stands before 1970.
#[verifier::external_body]
pub(crate) fn now() -> (r: Instant)
    ensures
        valid_instant(r),
        r.secs >= 0,
        r.nanos < 1_000_000_000,
{
    let t = chrono::Utc::now();
    Instant { secs: t.timestamp(), nanos: t.timestamp_subsec_nanos() }
}

/// `chrono::DateTime::parse_from_rfc3339(text)`, taken as a UTC instant.
/// The result is a function of the text alone, named `rfc3339_instant`;
/// an instant that chrono produces is always one it represents.
#[verifier::external_body]
pub(crate) fn parse_rfc3339(text: &str) -> (r: Option<Instant>)
    ensures
        r == rfc3339_instant(text@),
        r matches Some(t) ==> valid_instant(t),
{
    match chrono::DateTime::parse_from_rfc3339(text) {
        Ok(t) => Some(Instant { secs: t.timestamp(), nanos: t.timestamp_subsec_nanos() }),
        Err(_) => None,
    }
}

/// `DateTime::<Utc>::to_rfc3339` of the instant `t`, which
/// `DateTime::from_timestamp` builds (it accepts every valid instant). The
/// text is a function of the instant alone, named `rfc3339_text`. For a year
/// of four digits (0000 to 9999) the text is `YYYY-MM-DDThh:mm:ss`, the
/// nanoseconds after a dot with the trailing groups of three zeros left out
/// (a leap second written as second 60), and `+00:00`, which
/// `DateTime::parse_from_rfc3339` reads back as the same instant; other
/// years are written with a sign and more digits, which it refuses.
#[verifier::external_body]
pub(crate) fn format_rfc3339(t: Instant) -> (r: String)
    requires
        valid_instant(t),
    ensures
        r@ == rfc3339_text(t.secs, t.nanos),
        FOUR_DIGIT_YEARS_START <= t.secs <= FOUR_DIGIT_YEARS_END ==> rfc3339_instant(r@) == Some(t),
{
    chrono::DateTime::from_timestamp(t.secs, t.nanos).unwrap().to_rfc3339()
}

/// The time from `earlier` to `later` in nanoseconds, computed as `chrono`
/// does when it subtracts one `DateTime` from another.
pub fn elapsed(later: Instant, earlier: Instant) -> (r: i128)
    ensures
        r == elapsed_nanos(later, earlier),
{
    let mut day_later: i64 = later.secs % 86400;
    if day_later < 0 {
        day_later = day_later + 86400;
    }
    let mut day_earlier: i64 = earlier.secs % 86400;
    if day_earlier < 0 {
        day_earlier = day_earlier + 86400;
    }
    let leap: i128 = if day_later > day_earlier && earlier.nanos >= 1_000_000_000 {
        1
    } else if day_later < day_earlier && later.nanos >= 1_000_000_000 {
        -1
    } else {
        0
    };
    let secs: i128 = (later.secs as i128) - (earlier.secs as i128) + leap;
    secs * 1_000_000_000 + (later.nanos as i128) - (earlier.nanos as i128)
}

/// The time between two instants is measured the same way in both
/// directions: from an instant to itself no time passes, going back gives
/// the opposite of going forward, and outside leap seconds it is the plain
/// difference of seconds and nanoseconds.
pub proof fn elapsed_is_a_difference(a: Instant, b: Instant)
    ensures
        elapsed_nanos(a, a) == 0,
        elapsed_nanos(a, b) == -elapsed_nanos(b, a),
        a.nanos < 1_000_000_000 && b.nanos < 1_000_000_000 ==> elapsed_nanos(a, b) == (a.secs
            - b.secs) * 1_000_000_000 + a.nanos - b.nanos,
{
}

} // verus!
