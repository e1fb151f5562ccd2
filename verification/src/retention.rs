//! The periodic jobs: what the retention job deletes and when it compacts the store, and
//! which hour and day the rollup jobs aggregate. The jobs themselves run outside; here is
//! what they decide.

use crate::clock::{
    format_rfc3339, format_utc, formatted_utc, rfc3339_utc, rollup_day_pattern,
    rollup_hour_pattern, weekday_number, weekday_of, NANOS_PER_DAY, NANOS_PER_HOUR,
};
use crate::codec::{i64_value, parse_i64};
use crate::text::{lowercase, str_eq, str_of, to_lowercase};
use vstd::prelude::*;

verus! {

/// The days for which deploy markers are kept.
pub const DEPLOY_RETENTION_DAYS: i64 = 90;

/// The days for which spans are kept where nothing else is configured.
pub const DEFAULT_RETENTION_DAYS_SPANS: i64 = 7;

/// The days for which error occurrences are kept where nothing else is configured.
pub const DEFAULT_RETENTION_DAYS_ERRORS: i64 = 30;

/// The days for which hourly rollups are kept where nothing else is configured.
pub const DEFAULT_RETENTION_DAYS_HOURLY_ROLLUPS: i64 = 90;

/// The seconds between two runs of the hourly rollup and of the session cleanup.
pub const HOURLY_INTERVAL_SECS: u64 = 3600;

/// The seconds between two runs of the daily rollup and of the retention cleanup.
pub const DAILY_INTERVAL_SECS: u64 = 86400;

/// For how many days each kind of record is kept.
#[derive(Debug, Clone, Copy, PartialEq, Eq, Structural)]
pub struct RetentionPolicy {
    pub retention_days_spans: i64,
    pub retention_days_errors: i64,
    pub retention_days_hourly_rollups: i64,
}

/// What one run of the retention job does: it deletes the records of each kind that are
/// older than the cutoff of that kind, and compacts the store if `vacuum` is set. The
/// cutoff of the spans is given as an instant too: spans are deleted by their start.
#[derive(Debug, Clone)]
pub struct RetentionPlan {
    pub spans_before_nanos: i64,
    pub spans_before: String,
    pub occurrences_before: String,
    pub hourly_rollups_before: String,
    pub deploys_before: String,
    pub vacuum: bool,
}

/// The instant `days` days before `now`.
pub open spec fn days_before(now: i64, days: i64) -> int {
    now - days * NANOS_PER_DAY
}

/// Whether the instant `days` days before `now` is one that 64 bits can hold.
pub open spec fn cutoff_fits(now: i64, days: i64) -> bool {
    i64::MIN <= days_before(now, days) <= i64::MAX
}

/// Whether the store is compacted in a run at `now`: on Sundays.
pub open spec fn is_vacuum_day(now: i64) -> bool {
    weekday_of(now) == 7
}

/// Whether `plan` is what the retention job does at `now` under `policy`.
pub open spec fn plan_describes(plan: RetentionPlan, now: i64, policy: RetentionPolicy) -> bool {
    &&& plan.spans_before_nanos == days_before(now, policy.retention_days_spans)
    &&& plan.spans_before@ == rfc3339_utc(days_before(now, policy.retention_days_spans) as i64)
    &&& plan.occurrences_before@ == rfc3339_utc(
        days_before(now, policy.retention_days_errors) as i64,
    )
    &&& plan.hourly_rollups_before@ == rfc3339_utc(
        days_before(now, policy.retention_days_hourly_rollups) as i64,
    )
    &&& plan.deploys_before@ == rfc3339_utc(days_before(now, DEPLOY_RETENTION_DAYS) as i64)
    &&& plan.vacuum == is_vacuum_day(now)
}

/// Whether a run of the retention job under `plan` deletes a span that started at
/// `start_nano`: it deletes the spans that started before the cutoff.
pub open spec fn is_expired(start_nano: i64, plan: RetentionPlan) -> bool {
    start_nano < plan.spans_before_nanos
}

/// A span that the plan of a run does not delete started no longer before the run than
/// spans are kept: the plan deletes every span that is older.
pub proof fn lemma_retention_bound(
    plan: RetentionPlan,
    now: i64,
    policy: RetentionPolicy,
    start_nano: i64,
)
    requires
        plan_describes(plan, now, policy),
        !is_expired(start_nano, plan),
    ensures
        start_nano >= now - policy.retention_days_spans * NANOS_PER_DAY,
{
}

/// Whether a run of the retention job under `plan` deletes a span that started at
/// `start_nano`.
pub fn span_expired(start_nano: i64, plan: &RetentionPlan) -> (expired: bool)
    ensures
        expired == is_expired(start_nano, *plan),
{
    start_nano < plan.spans_before_nanos
}

/// The setting that a text of the environment gives: its number where it is a positive
/// number of 64 bits, and `default` where it is absent or anything else.
pub open spec fn setting_of(value: Option<Seq<char>>, default: i64) -> i64 {
    match value {
        Some(text) => match i64_value(text) {
            Some(v) => if v > 0 {
                v
            } else {
                default
            },
            None => default,
        },
        None => default,
    }
}

/// Whether a text of the environment switches a feature on, given its lower-case form:
/// `1` does, and `true` in any case of letters.
pub open spec fn is_enabled(value: Option<Seq<char>>, lowered: Option<Seq<char>>) -> bool {
    match (value, lowered) {
        (Some(text), Some(low)) => text == "1"@ || low == "true"@,
        _ => false,
    }
}

/// The lower-case form of an optional text.
pub open spec fn lowered_of(value: Option<&str>) -> Option<Seq<char>> {
    match value {
        Some(text) => Some(lowercase(text@)),
        None => None,
    }
}

/// Reads a number of days from the environment.
pub fn days_setting(value: Option<&str>, default: i64) -> (days: i64)
    ensures
        days == setting_of(str_of(value), default),
{
    match value {
        Some(text) => match parse_i64(text) {
            Some(v) => {
                if v > 0 {
                    v
                } else {
                    default
                }
            },
            None => default,
        },
        None => default,
    }
}

/// Whether a text of the environment switches a feature on, given its lower-case form.
pub fn flag_from(value: Option<&str>, lowered: Option<&str>) -> (on: bool)
    ensures
        on == is_enabled(str_of(value), str_of(lowered)),
{
    match (value, lowered) {
        (Some(text), Some(low)) => str_eq(text, "1") || str_eq(low, "true"),
        _ => false,
    }
}

/// Whether a text of the environment switches a feature on.
pub fn flag_setting(value: Option<&str>) -> (on: bool)
    ensures
        on == is_enabled(str_of(value), lowered_of(value)),
{
    match value {
        Some(text) => {
            let lowered = to_lowercase(text);
            flag_from(value, Some(lowered.as_str()))
        },
        None => false,
    }
}

impl RetentionPolicy {
    /// The policy that the environment configures: each text is the value of its variable,
    /// if the variable is set.
    pub fn from_settings(
        spans: Option<&str>,
        errors: Option<&str>,
        hourly_rollups: Option<&str>,
    ) -> (policy: Self)
        ensures
            policy.retention_days_spans == setting_of(
                str_of(spans),
                DEFAULT_RETENTION_DAYS_SPANS,
            ),
            policy.retention_days_errors == setting_of(
                str_of(errors),
                DEFAULT_RETENTION_DAYS_ERRORS,
            ),
            policy.retention_days_hourly_rollups == setting_of(
                str_of(hourly_rollups),
                DEFAULT_RETENTION_DAYS_HOURLY_ROLLUPS,
            ),
            policy.retention_days_spans > 0,
            policy.retention_days_errors > 0,
            policy.retention_days_hourly_rollups > 0,
    {
        RetentionPolicy {
            retention_days_spans: days_setting(spans, DEFAULT_RETENTION_DAYS_SPANS),
            retention_days_errors: days_setting(errors, DEFAULT_RETENTION_DAYS_ERRORS),
            retention_days_hourly_rollups: days_setting(
                hourly_rollups,
                DEFAULT_RETENTION_DAYS_HOURLY_ROLLUPS,
            ),
        }
    }

    /// Whether every cutoff of the policy at `now` is an instant that 64 bits can hold.
    pub open spec fn fits(self, now: i64) -> bool {
        &&& cutoff_fits(now, self.retention_days_spans)
        &&& cutoff_fits(now, self.retention_days_errors)
        &&& cutoff_fits(now, self.retention_days_hourly_rollups)
        &&& cutoff_fits(now, DEPLOY_RETENTION_DAYS)
    }

    /// Whether every cutoff of the policy at `now` is an instant that 64 bits can hold.
    pub fn check_fits(&self, now_nanos: i64) -> (ok: bool)
        ensures
            ok == self.fits(now_nanos),
    {
        cutoff_in_range(now_nanos, self.retention_days_spans) && cutoff_in_range(
            now_nanos,
            self.retention_days_errors,
        ) && cutoff_in_range(now_nanos, self.retention_days_hourly_rollups) && cutoff_in_range(
            now_nanos,
            DEPLOY_RETENTION_DAYS,
        )
    }
}

/// Whether the instant `days` days before `now_nanos` is one that 64 bits can hold.
pub fn cutoff_in_range(now_nanos: i64, days: i64) -> (ok: bool)
    ensures
        ok == cutoff_fits(now_nanos, days),
{
    assert(-0x8000_0000_0000_0000 * 86_400_000_000_000 <= days * NANOS_PER_DAY
        <= 0x8000_0000_0000_0000 * 86_400_000_000_000) by (nonlinear_arith)
        requires
            -0x8000_0000_0000_0000 <= days <= 0x8000_0000_0000_0000,
            NANOS_PER_DAY == 86_400_000_000_000,
    ;
    let instant: i128 = now_nanos as i128 - (days as i128) * (NANOS_PER_DAY as i128);
    -0x8000_0000_0000_0000 <= instant && instant <= 0x7fff_ffff_ffff_ffff
}

/// The instant before which records are deleted that are kept for `days` days.
pub fn cutoff_instant(now_nanos: i64, days: i64) -> (instant: i64)
    requires
        cutoff_fits(now_nanos, days),
    ensures
        instant == days_before(now_nanos, days),
{
    assert(-0x8000_0000_0000_0000 * 86_400_000_000_000 <= days * NANOS_PER_DAY
        <= 0x8000_0000_0000_0000 * 86_400_000_000_000) by (nonlinear_arith)
        requires
            -0x8000_0000_0000_0000 <= days <= 0x8000_0000_0000_0000,
            NANOS_PER_DAY == 86_400_000_000_000,
    ;
    (now_nanos as i128 - (days as i128) * (NANOS_PER_DAY as i128)) as i64
}

/// The time before which records are deleted that are kept for `days` days, as RFC 3339
/// text.
pub fn cutoff(now_nanos: i64, days: i64) -> (text: String)
    requires
        cutoff_fits(now_nanos, days),
    ensures
        text@ == rfc3339_utc(days_before(now_nanos, days) as i64),
{
    let instant: i128 = now_nanos as i128 - (days as i128) * (NANOS_PER_DAY as i128);
    format_rfc3339(instant as i64)
}

/// Whether a run of the retention job at `now_nanos` compacts the store.
pub fn vacuum_due(now_nanos: i64) -> (due: bool)
    ensures
        due == is_vacuum_day(now_nanos),
{
    weekday_number(now_nanos) == 7
}

/// What the retention job does in a run at `now_nanos`.
pub fn plan_cleanup(now_nanos: i64, policy: &RetentionPolicy) -> (plan: RetentionPlan)
    requires
        policy.fits(now_nanos),
    ensures
        plan_describes(plan, now_nanos, *policy),
{
    RetentionPlan {
        spans_before_nanos: cutoff_instant(now_nanos, policy.retention_days_spans),
        spans_before: cutoff(now_nanos, policy.retention_days_spans),
        occurrences_before: cutoff(now_nanos, policy.retention_days_errors),
        hourly_rollups_before: cutoff(now_nanos, policy.retention_days_hourly_rollups),
        deploys_before: cutoff(now_nanos, DEPLOY_RETENTION_DAYS),
        vacuum: vacuum_due(now_nanos),
    }
}

/// What the retention job does in a run at `now_nanos`, and `None` where a cutoff is an
/// instant that 64 bits cannot hold.
pub fn try_plan_cleanup(now_nanos: i64, policy: &RetentionPolicy) -> (plan: Option<RetentionPlan>)
    ensures
        match plan {
            Some(p) => policy.fits(now_nanos) && plan_describes(p, now_nanos, *policy),
            None => !policy.fits(now_nanos),
        },
{
    if policy.check_fits(now_nanos) {
        Some(plan_cleanup(now_nanos, policy))
    } else {
        None
    }
}

/// The hour that a run of the hourly rollup at `now_nanos` aggregates: the one before.
pub fn rollup_hour(now_nanos: i64) -> (hour: String)
    requires
        now_nanos - NANOS_PER_HOUR >= i64::MIN,
    ensures
        hour@ == formatted_utc((now_nanos - NANOS_PER_HOUR) as i64, rollup_hour_pattern()),
{
    format_utc(now_nanos - NANOS_PER_HOUR, "%Y-%m-%dT%H:00:00Z")
}

/// The day that a run of the daily rollup at `now_nanos` aggregates: the one before.
pub fn rollup_day(now_nanos: i64) -> (day: String)
    requires
        now_nanos - NANOS_PER_DAY >= i64::MIN,
    ensures
        day@ == formatted_utc((now_nanos - NANOS_PER_DAY) as i64, rollup_day_pattern()),
{
    format_utc(now_nanos - NANOS_PER_DAY, "%Y-%m-%d")
}

} // verus!
