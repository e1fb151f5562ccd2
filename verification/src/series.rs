//! Hourly series: the hours of a window that ends with the present hour, each with what
//! the store holds for it. Hours without data are kept: they count as zero.

use crate::clock::{
    format_utc, formatted_utc, hour_key_pattern, hour_label_pattern, is_known_pattern,
    NANOS_PER_HOUR,
};
use crate::errors::ErrorTrendPoint;
use crate::text::str_eq;
use vstd::prelude::*;

verus! {

/// One hour of a series: its label and, where the store holds a row for the hour, the index
/// of that row.
#[derive(Debug, Clone)]
pub struct HourSlot {
    pub hour: String,
    pub row: Option<usize>,
}

/// The instant that stands for hour `k` of a window of `hours` hours that ends now: hour 0
/// is `hours - 1` hours ago, and the last hour is the present one.
pub open spec fn slot_instant(now: i64, hours: int, k: int) -> int {
    now - (hours - 1 - k) * NANOS_PER_HOUR
}

/// The index of the row of the hour `hour`: of the last one, should several have it.
pub open spec fn find_hour(rows: Seq<String>, hour: Seq<char>) -> Option<int>
    decreases rows.len(),
{
    if rows.len() == 0 {
        None
    } else if rows.last()@ == hour {
        Some(rows.len() - 1)
    } else {
        find_hour(rows.drop_last(), hour)
    }
}

/// The plain value of an optional index.
pub open spec fn index_of(row: Option<usize>) -> Option<int> {
    match row {
        Some(i) => Some(i as int),
        None => None,
    }
}

/// Whether `slots` are the hours of a window of `hours` hours that ends at `now`, labelled
/// under `pattern`, each with its row among `rows`.
pub open spec fn slots_describe(
    slots: Seq<HourSlot>,
    now: i64,
    hours: int,
    rows: Seq<String>,
    pattern: Seq<char>,
) -> bool {
    &&& slots.len() == if hours > 0 {
        hours
    } else {
        0
    }
    &&& forall|k: int|
        0 <= k < slots.len() ==> {
            &&& (#[trigger] slots[k]).hour@ == formatted_utc(
                slot_instant(now, hours, k) as i64,
                pattern,
            )
            &&& index_of(slots[k].row) == find_hour(rows, slots[k].hour@)
        }
}

/// Whether a window of `hours` hours that ends at `now` begins at an instant that 64 bits
/// can hold.
pub open spec fn window_fits(now: i64, hours: int) -> bool {
    hours <= 0 || (now - (hours - 1) * NANOS_PER_HOUR >= i64::MIN && hours <= usize::MAX)
}

/// Whether a window of `hours` hours that ends at `now_nanos` begins at an instant that
/// 64 bits can hold.
pub fn window_in_range(now_nanos: i64, hours: i64) -> (ok: bool)
    ensures
        ok == window_fits(now_nanos, hours as int),
{
    if hours <= 0 {
        return true;
    }
    assert(0 <= (hours - 1) * NANOS_PER_HOUR <= 0x7fff_ffff_ffff_ffff * 3_600_000_000_000)
        by (nonlinear_arith)
        requires
            1 <= hours <= 0x7fff_ffff_ffff_ffff,
            NANOS_PER_HOUR == 3_600_000_000_000,
    ;
    let start: i128 = now_nanos as i128 - (hours as i128 - 1) * (NANOS_PER_HOUR as i128);
    start >= -0x8000_0000_0000_0000 && (hours as u64) as u128 <= usize::MAX as u128
}

/// The last row of an hour is the row that is found for the hour.
proof fn lemma_find_hour_last(rows: Seq<String>, hour: Seq<char>, i: int)
    requires
        0 <= i < rows.len(),
        rows[i]@ == hour,
        forall|j: int| i < j < rows.len() ==> rows[j]@ != hour,
    ensures
        find_hour(rows, hour) == Some(i),
    decreases rows.len(),
{
    if i < rows.len() - 1 {
        lemma_find_hour_last(rows.drop_last(), hour, i);
    }
}

/// An hour that no row has is not found.
proof fn lemma_find_hour_none(rows: Seq<String>, hour: Seq<char>)
    requires
        forall|j: int| 0 <= j < rows.len() ==> rows[j]@ != hour,
    ensures
        find_hour(rows, hour).is_none(),
    decreases rows.len(),
{
    if rows.len() > 0 {
        lemma_find_hour_none(rows.drop_last(), hour);
    }
}

/// The index of the row of the hour `hour` among the hours of the rows: of the last one,
/// should several have it.
pub fn find_hour_index(rows: &Vec<String>, hour: &str) -> (r: Option<usize>)
    ensures
        index_of(r) == find_hour(rows@, hour@),
{
    let mut i: usize = rows.len();
    while i > 0
        invariant
            i <= rows.len(),
            forall|j: int| i <= j < rows.len() ==> rows@[j]@ != hour@,
        decreases i,
    {
        i -= 1;
        if str_eq(rows[i].as_str(), hour) {
            proof {
                lemma_find_hour_last(rows@, hour@, i as int);
            }
            return Some(i);
        }
    }
    proof {
        lemma_find_hour_none(rows@, hour@);
    }
    None
}

/// The hours of a window under a pattern, each with its row.
fn slots_under(now_nanos: i64, hours: i64, row_hours: &Vec<String>, pattern: &str) -> (slots: Vec<
    HourSlot,
>)
    requires
        window_fits(now_nanos, hours as int),
        is_known_pattern(pattern@),
    ensures
        slots_describe(slots@, now_nanos, hours as int, row_hours@, pattern@),
{
    let mut slots: Vec<HourSlot> = Vec::new();
    if hours <= 0 {
        return slots;
    }
    let n: usize = hours as usize;
    let mut k: usize = 0;
    while k < n
        invariant
            k <= n,
            n == hours,
            hours > 0,
            window_fits(now_nanos, hours as int),
            is_known_pattern(pattern@),
            slots.len() == k,
            forall|j: int|
                0 <= j < k ==> {
                    &&& (#[trigger] slots[j]).hour@ == formatted_utc(
                        slot_instant(now_nanos, hours as int, j) as i64,
                        pattern@,
                    )
                    &&& index_of(slots[j].row) == find_hour(row_hours@, slots[j].hour@)
                },
        decreases n - k,
    {
        let back: i128 = (hours as i128 - 1 - k as i128);
        assert(0 <= back * NANOS_PER_HOUR <= (hours - 1) * NANOS_PER_HOUR) by (nonlinear_arith)
            requires
                0 <= back <= hours - 1,
                NANOS_PER_HOUR > 0,
        ;
        let instant: i64 = (now_nanos as i128 - back * (NANOS_PER_HOUR as i128)) as i64;
        let hour = format_utc(instant, pattern);
        let row = find_hour_index(row_hours, hour.as_str());
        slots.push(HourSlot { hour, row });
        k += 1;
    }
    slots
}

/// The hours of a time series of `hours` hours that ends with the hour of `now_nanos`,
/// oldest first. `row_hours` holds the hour labels of the rows that the store returned;
/// each slot names the row of its hour, if there is one.
pub fn hour_slots(now_nanos: i64, hours: i64, row_hours: &Vec<String>) -> (slots: Vec<HourSlot>)
    requires
        window_fits(now_nanos, hours as int),
    ensures
        slots_describe(slots@, now_nanos, hours as int, row_hours@, hour_label_pattern()),
{
    slots_under(now_nanos, hours, row_hours, "%Y-%m-%d %H:00")
}

/// The hours of the rows of a trend.
pub open spec fn trend_hours(rows: Seq<ErrorTrendPoint>) -> Seq<String> {
    rows.map_values(|row: ErrorTrendPoint| row.hour)
}

/// The count that the rows of a trend hold for an hour, and 0 where they hold none.
pub open spec fn count_in_hour(rows: Seq<ErrorTrendPoint>, hour: Seq<char>) -> i64 {
    match find_hour(trend_hours(rows), hour) {
        Some(i) => rows[i].count,
        None => 0,
    }
}

/// The occurrences of an error in each of the last 24 hours: index 0 is 23 hours ago,
/// index 23 the present hour. `rows` holds the counts that the store returned, each under
/// its hour in the form `%Y-%m-%d %H`.
pub fn error_trend_24h(now_nanos: i64, rows: &Vec<ErrorTrendPoint>) -> (counts: Vec<i64>)
    requires
        window_fits(now_nanos, 24),
    ensures
        counts.len() == 24,
        forall|k: int|
            0 <= k < 24 ==> #[trigger] counts[k] == count_in_hour(
                rows@,
                formatted_utc(slot_instant(now_nanos, 24, k) as i64, hour_key_pattern()),
            ),
{
    let mut hours: Vec<String> = Vec::new();
    let mut i: usize = 0;
    while i < rows.len()
        invariant
            i <= rows.len(),
            hours@ == trend_hours(rows@).take(i as int),
        decreases rows.len() - i,
    {
        hours.push(rows[i].hour.clone());
        i += 1;
    }
    let slots = slots_under(now_nanos, 24, &hours, "%Y-%m-%d %H");
    let mut counts: Vec<i64> = Vec::new();
    let mut k: usize = 0;
    while k < 24
        invariant
            k <= 24,
            slots.len() == 24,
            counts.len() == k,
            hours@ == trend_hours(rows@),
            slots_describe(slots@, now_nanos, 24, hours@, hour_key_pattern()),
            forall|j: int|
                0 <= j < k ==> #[trigger] counts[j] == count_in_hour(
                    rows@,
                    formatted_utc(slot_instant(now_nanos, 24, j) as i64, hour_key_pattern()),
                ),
        decreases 24 - k,
    {
        let ghost label = slots[k as int].hour@;
        proof {
            lemma_find_hour_bounds(hours@, label);
        }
        let count: i64 = match slots[k].row {
            Some(r) => rows[r].count,
            None => 0,
        };
        counts.push(count);
        k += 1;
    }
    counts
}

/// The row that is found for an hour is one of the rows.
proof fn lemma_find_hour_bounds(rows: Seq<String>, hour: Seq<char>)
    ensures
        match find_hour(rows, hour) {
            Some(i) => 0 <= i < rows.len(),
            None => true,
        },
    decreases rows.len(),
{
    if rows.len() > 0 && rows.last()@ != hour {
        lemma_find_hour_bounds(rows.drop_last(), hour);
    }
}

} // verus!
