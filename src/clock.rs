use vstd::prelude::*;

verus! {

/// Earliest timestamp with a calendar time: -262143-01-01 00:00:00 UTC.
pub const MIN_SECONDS: i64 = -8_334_601_228_800;

/// Latest timestamp with a calendar time: +262142-12-31 23:59:59 UTC.
pub const MAX_SECONDS: i64 = 8_210_266_876_799;

/// A UTC offset is strictly less than a day, either way.
pub const OFFSET_BOUND: i64 = 86400;

/// A timestamp that has no calendar time.
#[derive(Clone, Copy, Debug, PartialEq, Eq, Structural)]
pub enum TimeError {
    OutOfRange,
}

/// `secs` epoch seconds fall inside the calendar's range.
pub open spec fn in_calendar(secs: int) -> bool {
    MIN_SECONDS <= secs <= MAX_SECONDS
}

/// Timestamps whose local time text is available at every UTC offset: the
/// calendar's range less a day at each end.
pub open spec fn formattable(secs: i64) -> bool {
    MIN_SECONDS + OFFSET_BOUND <= secs <= MAX_SECONDS - OFFSET_BOUND
}

/// The UTC calendar time of `secs` epoch seconds, as `YYYY-MM-DD HH:MM:SS`.
pub uninterp spec fn utc_clock_text(secs: i64) -> Seq<char>;

/// `t` is the wall-clock text of `secs` at some UTC offset of less than a day.
pub open spec fn local_text_of(secs: i64, t: Seq<char>) -> bool {
    exists|o: int|
        -OFFSET_BOUND < o < OFFSET_BOUND && in_calendar(secs + o) && t
            == #[trigger] utc_clock_text((secs + o) as i64)
}

/// Relies on chrono's `DateTime::from_timestamp`, which is `None` exactly
/// outside `MIN_SECONDS..=MAX_SECONDS`, and `DateTime::with_timezone(&Local)`:
/// the offset of the machine's time zone at that instant, a `FixedOffset`,
/// which chrono keeps strictly within a day. Where the zone data cannot be
/// found chrono uses UTC; it panics, whatever `secs` is, only where the
/// machine's zone data is malformed or gives an offset of a day or more.
#[verifier::external_body]
fn local_offset_at(secs: i64) -> (r: Option<i32>)
    ensures
        r is Some <==> in_calendar(secs as int),
        r matches Some(o) ==> -OFFSET_BOUND < o < OFFSET_BOUND,
{
    match chrono::DateTime::from_timestamp(secs, 0) {
        Some(d) => Some(d.with_timezone(&chrono::Local).offset().local_minus_utc()),
        None => None,
    }
}

/// Relies on chrono's `DateTime::from_timestamp`, which is `None` exactly
/// outside `MIN_SECONDS..=MAX_SECONDS`, and its
/// `format("%Y-%m-%d %H:%M:%S")`: the UTC calendar time, which depends on
/// `secs` alone.
#[verifier::external_body]
fn utc_text(secs: i64) -> (r: Option<String>)
    ensures
        r is Some <==> in_calendar(secs as int),
        r matches Some(t) ==> t@ == utc_clock_text(secs),
{
    match chrono::DateTime::from_timestamp(secs, 0) {
        Some(d) => Some(d.format("%Y-%m-%d %H:%M:%S").to_string()),
        None => None,
    }
}

/// The wall-clock text of `secs` epoch seconds at a UTC offset of `offset`
/// seconds; `None` exactly where the shifted time has no calendar time.
pub fn format_at_offset(secs: i64, offset: i32) -> (r: Option<String>)
    ensures
        r is Some <==> in_calendar(secs + offset),
        r matches Some(t) ==> t@ == utc_clock_text((secs + offset) as i64),
{
    match secs.checked_add(offset as i64) {
        Some(shifted) => utc_text(shifted),
        None => None,
    }
}

/// The local wall-clock text of `secs` epoch seconds, `YYYY-MM-DD HH:MM:SS`
/// in the machine's time zone; an error where it has no calendar time.
pub fn time_format(secs: i64) -> (r: Result<String, TimeError>)
    ensures
        formattable(secs) ==> r is Ok,
        !in_calendar(secs as int) ==> r is Err,
        r matches Ok(t) ==> local_text_of(secs, t@),
{
    match local_offset_at(secs) {
        None => Err(TimeError::OutOfRange),
        Some(offset) => match format_at_offset(secs, offset) {
            None => Err(TimeError::OutOfRange),
            Some(t) => {
                proof {
                    assert(t@ == utc_clock_text((secs + offset) as i64));
                }
                Ok(t)
            },
        },
    }
}

} // verus!
