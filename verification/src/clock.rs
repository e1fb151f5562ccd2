//! Calendar text for instants. An instant is a count of nanoseconds since the Unix epoch, in
//! UTC; the library never reads a clock, its callers hand the present instant in.

use vstd::prelude::*;

verus! {

/// The nanoseconds of one hour.
pub const NANOS_PER_HOUR: i64 = 3_600_000_000_000;

/// The nanoseconds of one day.
pub const NANOS_PER_DAY: i64 = 86_400_000_000_000;

/// The text of an instant in UTC under a `strftime` pattern, as the `chrono` crate writes it.
pub uninterp spec fn formatted_utc(nanos: i64, pattern: Seq<char>) -> Seq<char>;

/// The RFC 3339 text of an instant in UTC, as the `chrono` crate writes it.
pub uninterp spec fn rfc3339_utc(nanos: i64) -> Seq<char>;

/// The pattern of the timestamp that is stored with a span: to the millisecond.
pub open spec fn stored_pattern() -> Seq<char> {
    "%Y-%m-%dT%H:%M:%S%.3fZ"@
}

/// The pattern of the hour that a point of a time series is labelled with.
pub open spec fn hour_label_pattern() -> Seq<char> {
    "%Y-%m-%d %H:00"@
}

/// The pattern of the hour that occurrences are counted under.
pub open spec fn hour_key_pattern() -> Seq<char> {
    "%Y-%m-%d %H"@
}

/// The pattern of the hour that an hourly rollup is stored under.
pub open spec fn rollup_hour_pattern() -> Seq<char> {
    "%Y-%m-%dT%H:00:00Z"@
}

/// The pattern of the date that a daily rollup is stored under.
pub open spec fn rollup_day_pattern() -> Seq<char> {
    "%Y-%m-%d"@
}

/// The day of the week of an instant in UTC, from 1 for Monday to 7 for Sunday. The
/// first day of 1970 was a Thursday.
pub open spec fn weekday_of(nanos: i64) -> int {
    (nanos / NANOS_PER_DAY + 3) % 7 + 1
}

/// Whether a pattern is one of those that this library formats instants with.
pub open spec fn is_known_pattern(pattern: Seq<char>) -> bool {
    ||| pattern == stored_pattern()
    ||| pattern == hour_label_pattern()
    ||| pattern == hour_key_pattern()
    ||| pattern == rollup_hour_pattern()
    ||| pattern == rollup_day_pattern()
}

/// Writes an instant under a `strftime` pattern.
///
/// Trusted: calls `DateTime::from_timestamp_nanos` of the `chrono` crate, which takes every
/// `i64`, then `DateTime::format` and `to_string`. The patterns admitted hold only
/// specifiers that `chrono` knows, so that writing cannot fail. The text depends on the
/// instant and the pattern alone; the contract gives it the name [`formatted_utc`].
#[verifier::external_body]
pub(crate) fn format_utc(nanos: i64, pattern: &str) -> (text: String)
    requires
        is_known_pattern(pattern@),
    ensures
        text@ == formatted_utc(nanos, pattern@),
{
    chrono::DateTime::from_timestamp_nanos(nanos).format(pattern).to_string()
}

/// Writes an instant as RFC 3339 text.
///
/// Trusted: calls `DateTime::from_timestamp_nanos` and `DateTime::to_rfc3339` of the
/// `chrono` crate. The text depends on the instant alone; the contract gives it the name
/// [`rfc3339_utc`].
#[verifier::external_body]
pub(crate) fn format_rfc3339(nanos: i64) -> (text: String)
    ensures
        text@ == rfc3339_utc(nanos),
{
    chrono::DateTime::from_timestamp_nanos(nanos).to_rfc3339()
}

/// The day of the week of an instant, from 1 for Monday to 7 for Sunday.
///
/// Trusted: calls `DateTime::from_timestamp_nanos`, `Datelike::weekday` and
/// `Weekday::number_from_monday` of the `chrono` crate. The day of an instant in UTC is
/// the number of whole days since the first day of 1970, which was a Thursday.
#[verifier::external_body]
pub(crate) fn weekday_number(nanos: i64) -> (day: u32)
    ensures
        day == weekday_of(nanos),
{
    chrono::Datelike::weekday(&chrono::DateTime::from_timestamp_nanos(nanos)).number_from_monday()
}

/// Whether the instant thirty days before `now` is one that 64 bits can hold: the
/// periods of the lists and of the tools reach that far back at most.
pub open spec fn has_month_before(now: i64) -> bool {
    now - 30 * NANOS_PER_DAY >= i64::MIN
}

/// Whether the instant thirty days before `now_nanos` is one that 64 bits can hold.
pub fn month_before_fits(now_nanos: i64) -> (ok: bool)
    ensures
        ok == has_month_before(now_nanos),
{
    now_nanos >= i64::MIN + 30 * NANOS_PER_DAY
}

/// The timestamp that is stored with a span that began at `start_nano`.
pub fn happened_at(start_nano: i64) -> (text: String)
    ensures
        text@ == formatted_utc(start_nano, stored_pattern()),
{
    format_utc(start_nano, "%Y-%m-%dT%H:%M:%S%.3fZ")
}

/// The label of the hour of an instant in a time series.
pub fn hour_label(nanos: i64) -> (text: String)
    ensures
        text@ == formatted_utc(nanos, hour_label_pattern()),
{
    format_utc(nanos, "%Y-%m-%d %H:00")
}

/// The hour of an instant, as occurrences are counted under it.
pub fn hour_key(nanos: i64) -> (text: String)
    ensures
        text@ == formatted_utc(nanos, hour_key_pattern()),
{
    format_utc(nanos, "%Y-%m-%d %H")
}

/// The RFC 3339 text of an instant.
pub fn rfc3339(nanos: i64) -> (text: String)
    ensures
        text@ == rfc3339_utc(nanos),
{
    format_rfc3339(nanos)
}

} // verus!
