//! Points in time, as nanoseconds since 1970-01-01T00:00:00 UTC, and the
//! calls into `chrono` that read the clock, format and parse them.
use chrono::{DateTime, NaiveDateTime, Utc};
use vstd::prelude::*;

verus! {

/// The earliest second that `chrono` can hold as a `DateTime<Utc>`: the start
/// of `NaiveDate::MIN`, 1 January of the (astronomical) year -262143, whose
/// day number from the common era is -95746129, that is 95746129 + 719163
/// days before 1970-01-01.
pub const EARLIEST_SECS: i64 = -8_334_601_228_800;

/// The latest second that `chrono` can hold as a `DateTime<Utc>`: the last
/// second of `NaiveDate::MAX`, 31 December of the year 262142.
pub const LATEST_SECS: i64 = 8_210_266_876_799;

/// The number of nanoseconds in a second.
pub const NANOS_PER_SEC: i128 = 1_000_000_000;

/// The earliest nanosecond that `chrono` can hold as a `DateTime<Utc>`.
pub const EARLIEST_NANOS: i128 = -8_334_601_228_800_000_000_000;

/// The latest nanosecond that `chrono` can hold as a `DateTime<Utc>`.
pub const LATEST_NANOS: i128 = 8_210_266_876_799_999_999_999;

/// A nanosecond count that `chrono` can turn into a `DateTime<Utc>`.
pub open spec fn representable(nanos: int) -> bool {
    EARLIEST_NANOS <= nanos <= LATEST_NANOS
}

/// The whole seconds of an instant given in nanoseconds (rounded down).
pub open spec fn instant_secs(nanos: int) -> int {
    nanos / (NANOS_PER_SEC as int)
}

/// The nanoseconds of an instant past its whole second.
pub open spec fn instant_subsec(nanos: int) -> int {
    nanos % (NANOS_PER_SEC as int)
}

/// What `DateTime::<Utc>::format(fmt)` writes for the instant `secs` seconds
/// and `nanos` nanoseconds after the Unix epoch.
pub uninterp spec fn formatted_instant(secs: i64, nanos: u32, fmt: Seq<char>) -> Seq<char>;

/// What `NaiveDateTime::parse_from_str(text, fmt)` reads, as the seconds since
/// 1970-01-01T00:00:00 and the nanoseconds past that second (`1_000_000_000`
/// or more on a leap second); `None` where chrono refuses the text.
pub uninterp spec fn parsed_naive_datetime(text: Seq<char>, fmt: Seq<char>) -> Option<(i64, u32)>;

/// The format of the `Expires` attribute of a cookie, e.g.
/// `Sun, 15 Jul 2012 00:00:01 GMT`.
pub const COOKIE_DATE_FORMAT: &'static str = "%a, %d %h %Y %H:%M:%S GMT";

/// The format in which forms submit a date and time, e.g. `2019-03-17T05:10:00`.
pub const FORM_DATETIME_FORMAT: &'static str = "%Y-%m-%dT%H:%M:%S";

/// Reads the clock through `chrono::Utc::now`, as the seconds since the Unix
/// epoch and the nanoseconds past them. Trusted: chrono builds the value from
/// the system time, whose nanoseconds lie under one second, and unwraps a
/// `DateTime` that it can represent (it panics on a clock before 1970), so the
/// seconds lie between `EARLIEST_SECS` and `LATEST_SECS`. Which instant comes
/// back is the machine's affair.
#[verifier::external_body]
fn clock_reading() -> (r: (i64, u32))
    ensures
        EARLIEST_SECS <= r.0 <= LATEST_SECS,
        r.1 < NANOS_PER_SEC,
{
    let now = Utc::now();
    (now.timestamp(), now.timestamp_subsec_nanos())
}

/// The current time, in nanoseconds since the Unix epoch.
pub fn now_nanos() -> (r: i128)
    ensures
        representable(r as int),
{
    let (secs, nanos) = clock_reading();
    assert(EARLIEST_SECS * NANOS_PER_SEC <= secs * NANOS_PER_SEC <= LATEST_SECS * NANOS_PER_SEC)
        by (nonlinear_arith)
        requires
            EARLIEST_SECS <= secs <= LATEST_SECS,
    ;
    (secs as i128) * NANOS_PER_SEC + (nanos as i128)
}

/// Splits an instant in nanoseconds into its whole seconds (rounded down) and
/// the nanoseconds past them.
pub fn split_instant(nanos: i128) -> (r: (i64, u32))
    requires
        representable(nanos as int),
    ensures
        r.0 as int == instant_secs(nanos as int),
        r.1 as int == instant_subsec(nanos as int),
        EARLIEST_SECS <= r.0 <= LATEST_SECS,
        r.1 < NANOS_PER_SEC,
{
    let offset: u128 = (nanos - EARLIEST_NANOS) as u128;
    let whole: u128 = offset / 1_000_000_000u128;
    let part: u128 = offset % 1_000_000_000u128;
    proof {
        let n = nanos as int;
        let o = offset as int;
        assert(o == n + 8_334_601_228_800 * 1_000_000_000);
        assert(o == whole * 1_000_000_000 + part);
        assert(n == (whole - 8_334_601_228_800) * 1_000_000_000 + part) by (nonlinear_arith)
            requires
                o == n + 8_334_601_228_800 * 1_000_000_000,
                o == whole * 1_000_000_000 + part,
        ;
        assert(0 <= part < 1_000_000_000);
        assert(n / 1_000_000_000 == whole - 8_334_601_228_800 && n % 1_000_000_000 == part)
            by (nonlinear_arith)
            requires
                n == (whole - 8_334_601_228_800) * 1_000_000_000 + part,
                0 <= part < 1_000_000_000,
        ;
        assert(whole <= 16_544_868_105_599) by (nonlinear_arith)
            requires
                o == whole * 1_000_000_000 + part,
                0 <= part,
                o <= 16_544_868_105_599_999_999_999,
        ;
    }
    let secs: i64 = (whole as i64) + EARLIEST_SECS;
    (secs, part as u32)
}

/// Calls `DateTime::<Utc>::format` with the cookie date format on the instant
/// `secs` seconds and `nanos` nanoseconds after the Unix epoch. Trusted: the
/// text is `formatted_instant(secs, nanos, fmt)`. The format is held to the
/// one whose items chrono accepts, since `to_string` panics on an item that
/// chrono refuses, and the instant to those that `DateTime::from_timestamp`
/// accepts, so that the `unwrap` does not panic.
#[verifier::external_body]
pub(crate) fn format_instant(secs: i64, nanos: u32, fmt: &str) -> (r: String)
    requires
        EARLIEST_SECS <= secs <= LATEST_SECS,
        nanos < NANOS_PER_SEC,
        fmt@ == COOKIE_DATE_FORMAT@,
    ensures
        r@ == formatted_instant(secs, nanos, fmt@),
{
    DateTime::<Utc>::from_timestamp(secs, nanos).unwrap().format(fmt).to_string()
}

/// Calls `NaiveDateTime::parse_from_str(text, fmt)`. Trusted: the result is
/// `parsed_naive_datetime(text, fmt)`, the parsed date-time taken as seconds
/// since 1970-01-01T00:00:00 and the nanoseconds past them, or `None` where
/// chrono reports an error.
#[verifier::external_body]
pub(crate) fn parse_naive_datetime(text: &str, fmt: &str) -> (r: Option<(i64, u32)>)
    ensures
        r == parsed_naive_datetime(text@, fmt@),
{
    match NaiveDateTime::parse_from_str(text, fmt) {
        Ok(dt) => Some((dt.and_utc().timestamp(), dt.and_utc().timestamp_subsec_nanos())),
        Err(_) => None,
    }
}

} // verus!
