//! Route summaries: the latency, the errors and the database load of the requests of one
//! route, and the order in which the routes are listed.

use crate::order::{descending_order, is_descending_order};
use crate::stats::{
    calculate_percentile, mean_in_ms, mean_ms, ns_to_ms, percentile_of, rounded, round_div,
    sum_of, to_ms,
};
use crate::text::str_eq;
use vstd::prelude::*;

verus! {

/// A request of a route: the root span of its trace.
#[derive(Debug, Clone, Copy, PartialEq, Eq, Structural)]
pub struct RootSample {
    pub duration_ns: i64,
    pub status_code: i32,
    pub http_status_code: Option<i32>,
}

/// The database load of one trace: the time of its database spans together, and their
/// number.
#[derive(Debug, Clone, Copy, PartialEq, Eq, Structural)]
pub struct DbLoad {
    pub total_ns: i64,
    pub span_count: i64,
}

/// The summary of a route. Times are in whole milliseconds.
#[derive(Debug, Clone)]
pub struct RouteSummary {
    pub path: String,
    pub method: String,
    pub request_count: usize,
    pub avg_ms: i64,
    pub p95_ms: i64,
    pub p99_ms: i64,
    pub max_ms: i64,
    pub min_ms: i64,
    pub avg_db_ms: i64,
    pub avg_db_count: i64,
    pub error_count: usize,
}

/// By what the routes are ordered.
#[derive(Debug, Clone, Copy, PartialEq, Eq, Structural)]
pub enum RouteSort {
    Requests,
    Avg,
    P95,
    P99,
    Max,
    Db,
    Errors,
}

/// Whether a request failed: its span has the status 2, or its HTTP status is 500 or
/// above.
pub open spec fn is_failed(sample: RootSample) -> bool {
    sample.status_code == 2 || match sample.http_status_code {
        Some(code) => code >= 500,
        None => false,
    }
}

/// The durations of a list of requests.
pub open spec fn durations_of(samples: Seq<RootSample>) -> Seq<i64> {
    samples.map_values(|s: RootSample| s.duration_ns)
}

/// The database times of a list of traces.
pub open spec fn db_times_of(loads: Seq<DbLoad>) -> Seq<i64> {
    loads.map_values(|l: DbLoad| l.total_ns)
}

/// The numbers of database spans of a list of traces.
pub open spec fn db_counts_of(loads: Seq<DbLoad>) -> Seq<i64> {
    loads.map_values(|l: DbLoad| l.span_count)
}

/// The number of failed requests in a list.
pub open spec fn failed_count(samples: Seq<RootSample>) -> nat
    decreases samples.len(),
{
    if samples.len() == 0 {
        0
    } else if is_failed(samples.last()) {
        failed_count(samples.drop_last()) + 1
    } else {
        failed_count(samples.drop_last())
    }
}

/// Whether `min` is the smallest and `max` the largest of a list of values.
pub open spec fn are_extremes(values: Seq<i64>, min: int, max: int) -> bool {
    &&& exists|i: int| 0 <= i < values.len() && values[i] == min
    &&& exists|i: int| 0 <= i < values.len() && values[i] == max
    &&& forall|i: int| 0 <= i < values.len() ==> min <= (#[trigger] values[i]) <= max
}

/// The mean of a list of whole numbers, rounded, and 0 for the empty list.
pub open spec fn mean_of(values: Seq<i64>) -> int {
    if values.len() == 0 {
        0
    } else {
        rounded(sum_of(values), values.len() as int)
    }
}

/// The mean of a list of durations in nanoseconds, in whole milliseconds, and 0 for the
/// empty list.
pub open spec fn mean_ms_or_zero(values: Seq<i64>) -> int {
    if values.len() == 0 {
        0
    } else {
        mean_ms(values)
    }
}

/// Whether `summary` is the summary of the route `path`, `method` with the requests
/// `samples`, sorted by duration, whose traces have the database loads `loads`. A route
/// without requests has a summary of zeros.
pub open spec fn summary_describes(
    summary: RouteSummary,
    path: Seq<char>,
    method: Seq<char>,
    samples: Seq<RootSample>,
    loads: Seq<DbLoad>,
) -> bool {
    let durations = durations_of(samples);
    &&& summary.path@ == path
    &&& summary.method@ == method
    &&& summary.request_count == samples.len()
    &&& summary.error_count == failed_count(samples)
    &&& summary.avg_ms == mean_ms_or_zero(durations)
    &&& summary.p95_ms == to_ms(percentile_of(durations, 95))
    &&& summary.p99_ms == to_ms(percentile_of(durations, 99))
    &&& if samples.len() == 0 {
        summary.min_ms == 0 && summary.max_ms == 0
    } else {
        exists|min: int, max: int|
            are_extremes(durations, min, max) && summary.min_ms == to_ms(min) && summary.max_ms
                == to_ms(max)
    }
    &&& summary.avg_db_ms == mean_ms_or_zero(db_times_of(loads))
    &&& summary.avg_db_count == mean_of(db_counts_of(loads))
}

/// The sum of a list of values.
fn sum_values(values: &Vec<i64>) -> (sum: i128)
    ensures
        sum == sum_of(values@),
        -0x8000_0000_0000_0000 * values.len() <= sum <= 0x7fff_ffff_ffff_ffff * values.len(),
{
    let mut sum: i128 = 0;
    let mut i: usize = 0;
    while i < values.len()
        invariant
            i <= values.len(),
            sum == sum_of(values@.take(i as int)),
            -0x8000_0000_0000_0000 * i <= sum <= 0x7fff_ffff_ffff_ffff * i,
        decreases values.len() - i,
    {
        proof {
            assert(values@.take(i + 1).drop_last() =~= values@.take(i as int));
        }
        sum = sum + values[i] as i128;
        i += 1;
    }
    proof {
        assert(values@.take(values.len() as int) =~= values@);
    }
    sum
}

/// The mean of a list of whole numbers, rounded, and 0 for the empty list.
pub fn mean_rounded(values: &Vec<i64>) -> (mean: i64)
    ensures
        mean == mean_of(values@),
{
    if values.len() == 0 {
        return 0;
    }
    let sum = sum_values(values);
    let n: u128 = values.len() as u128;
    let r = round_div(sum, n);
    proof {
        // The mean of values of 64 bits is a value of 64 bits, and it stays one when it
        // is rounded: where it is the largest or the smallest such value, nothing is
        // left to round.
        let m: int = if sum >= 0 {
            sum as int
        } else {
            -(sum as int)
        };
        let bound: int = if sum >= 0 {
            0x7fff_ffff_ffff_ffff
        } else {
            0x8000_0000_0000_0000
        };
        crate::stats::lemma_rounded_steps(m, n as int);
        vstd::arithmetic::div_mod::lemma_fundamental_div_mod(m, n as int);
        let q = m / (n as int);
        let rest = m % (n as int);
        assert(q <= bound && (q == bound ==> rest == 0)) by (nonlinear_arith)
            requires
                m == n * q + rest,
                rest >= 0,
                m <= bound * n,
                n >= 1,
                q >= 0,
                bound >= 0,
        ;
    }
    r as i64
}

/// The mean of a list of durations in nanoseconds, in whole milliseconds, and 0 for the
/// empty list.
fn mean_ms_of(values: &Vec<i64>) -> (mean: i64)
    ensures
        mean == mean_ms_or_zero(values@),
{
    if values.len() == 0 {
        0
    } else {
        mean_in_ms(values.as_slice())
    }
}

/// The summary of a route from its requests, sorted by duration, and the database loads
/// of their traces.
pub fn summarize_route(
    path: &str,
    method: &str,
    samples: &Vec<RootSample>,
    loads: &Vec<DbLoad>,
) -> (summary: RouteSummary)
    ensures
        summary_describes(summary, path@, method@, samples@, loads@),
{
    let mut durations: Vec<i64> = Vec::new();
    let mut error_count: usize = 0;
    let mut min: i64 = 0;
    let mut max: i64 = 0;
    let mut i: usize = 0;
    while i < samples.len()
        invariant
            i <= samples.len(),
            durations@ == durations_of(samples@).take(i as int),
            error_count == failed_count(samples@.take(i as int)),
            error_count <= i,
            i > 0 ==> are_extremes(durations@, min as int, max as int),
        decreases samples.len() - i,
    {
        let sample = samples[i];
        proof {
            assert(samples@.take(i + 1).drop_last() =~= samples@.take(i as int));
        }
        let failed = sample.status_code == 2 || match sample.http_status_code {
            Some(code) => code >= 500,
            None => false,
        };
        if failed {
            error_count += 1;
        }
        durations.push(sample.duration_ns);
        proof {
            assert(durations@ =~= durations_of(samples@).take(i + 1));
        }
        if i == 0 || sample.duration_ns < min {
            min = sample.duration_ns;
        }
        if i == 0 || sample.duration_ns > max {
            max = sample.duration_ns;
        }
        proof {
            assert(durations@[i as int] == sample.duration_ns);
        }
        i += 1;
    }
    proof {
        assert(samples@.take(samples.len() as int) =~= samples@);
        assert(durations_of(samples@).take(samples.len() as int) =~= durations_of(samples@));
    }
    let mut db_times: Vec<i64> = Vec::new();
    let mut db_counts: Vec<i64> = Vec::new();
    let mut k: usize = 0;
    while k < loads.len()
        invariant
            k <= loads.len(),
            db_times@ == db_times_of(loads@).take(k as int),
            db_counts@ == db_counts_of(loads@).take(k as int),
        decreases loads.len() - k,
    {
        db_times.push(loads[k].total_ns);
        db_counts.push(loads[k].span_count);
        k += 1;
    }
    proof {
        assert(db_times_of(loads@).take(loads.len() as int) =~= db_times_of(loads@));
        assert(db_counts_of(loads@).take(loads.len() as int) =~= db_counts_of(loads@));
    }
    let empty = samples.len() == 0;
    RouteSummary {
        path: path.to_owned(),
        method: method.to_owned(),
        request_count: samples.len(),
        avg_ms: mean_ms_of(&durations),
        p95_ms: ns_to_ms(calculate_percentile(durations.as_slice(), 95)),
        p99_ms: ns_to_ms(calculate_percentile(durations.as_slice(), 99)),
        max_ms: if empty {
            0
        } else {
            ns_to_ms(max)
        },
        min_ms: if empty {
            0
        } else {
            ns_to_ms(min)
        },
        avg_db_ms: mean_ms_of(&db_times),
        avg_db_count: mean_rounded(&db_counts),
        error_count,
    }
}

impl RouteSort {
    /// The order that a request asks for; by the number of requests where it asks for
    /// none that exists.
    pub open spec fn of_name(s: Seq<char>) -> RouteSort {
        if s == "avg"@ {
            RouteSort::Avg
        } else if s == "p95"@ {
            RouteSort::P95
        } else if s == "p99"@ {
            RouteSort::P99
        } else if s == "max"@ {
            RouteSort::Max
        } else if s == "db"@ {
            RouteSort::Db
        } else if s == "errors"@ {
            RouteSort::Errors
        } else {
            RouteSort::Requests
        }
    }

    /// The order that a request asks for.
    pub fn parse(s: &str) -> (sort: RouteSort)
        ensures
            sort == Self::of_name(s@),
    {
        if str_eq(s, "avg") {
            RouteSort::Avg
        } else if str_eq(s, "p95") {
            RouteSort::P95
        } else if str_eq(s, "p99") {
            RouteSort::P99
        } else if str_eq(s, "max") {
            RouteSort::Max
        } else if str_eq(s, "db") {
            RouteSort::Db
        } else if str_eq(s, "errors") {
            RouteSort::Errors
        } else {
            RouteSort::Requests
        }
    }
}

impl RouteSummary {
    /// The value by which the route is ordered under `sort`.
    pub open spec fn key(self, sort: RouteSort) -> i128 {
        match sort {
            RouteSort::Requests => self.request_count as i128,
            RouteSort::Avg => self.avg_ms as i128,
            RouteSort::P95 => self.p95_ms as i128,
            RouteSort::P99 => self.p99_ms as i128,
            RouteSort::Max => self.max_ms as i128,
            RouteSort::Db => self.avg_db_ms as i128,
            RouteSort::Errors => self.error_count as i128,
        }
    }

    /// The value by which the route is ordered under `sort`.
    pub fn sort_key(&self, sort: RouteSort) -> (key: i128)
        ensures
            key == self.key(sort),
    {
        match sort {
            RouteSort::Requests => self.request_count as i128,
            RouteSort::Avg => self.avg_ms as i128,
            RouteSort::P95 => self.p95_ms as i128,
            RouteSort::P99 => self.p99_ms as i128,
            RouteSort::Max => self.max_ms as i128,
            RouteSort::Db => self.avg_db_ms as i128,
            RouteSort::Errors => self.error_count as i128,
        }
    }

    /// Whether `self` holds what `other` holds.
    pub open spec fn same_as(self, other: RouteSummary) -> bool {
        &&& self.path@ == other.path@
        &&& self.method@ == other.method@
        &&& self.request_count == other.request_count
        &&& self.avg_ms == other.avg_ms
        &&& self.p95_ms == other.p95_ms
        &&& self.p99_ms == other.p99_ms
        &&& self.max_ms == other.max_ms
        &&& self.min_ms == other.min_ms
        &&& self.avg_db_ms == other.avg_db_ms
        &&& self.avg_db_count == other.avg_db_count
        &&& self.error_count == other.error_count
    }

    /// A copy of the summary.
    pub fn duplicate(&self) -> (copy: RouteSummary)
        ensures
            copy.same_as(*self),
    {
        RouteSummary {
            path: self.path.clone(),
            method: self.method.clone(),
            request_count: self.request_count,
            avg_ms: self.avg_ms,
            p95_ms: self.p95_ms,
            p99_ms: self.p99_ms,
            max_ms: self.max_ms,
            min_ms: self.min_ms,
            avg_db_ms: self.avg_db_ms,
            avg_db_count: self.avg_db_count,
            error_count: self.error_count,
        }
    }
}

/// The values by which routes are ordered under `sort`.
pub open spec fn keys_of(routes: Seq<RouteSummary>, sort: RouteSort) -> Seq<i128> {
    routes.map_values(|r: RouteSummary| r.key(sort))
}

/// Whether `sorted` lists the routes `routes` by their value under `sort`, largest first,
/// and routes with the same value in the order that they have in `routes`.
pub open spec fn is_sorted_by(
    sorted: Seq<RouteSummary>,
    routes: Seq<RouteSummary>,
    sort: RouteSort,
) -> bool {
    exists|order: Seq<usize>|
        {
            &&& is_descending_order(keys_of(routes, sort), order)
            &&& sorted.len() == routes.len()
            &&& forall|k: int|
                0 <= k < sorted.len() ==> (#[trigger] sorted[k]).same_as(routes[order[k] as int])
        }
}

/// The routes in the order that a list shows them in: by their value under `sort`, largest
/// first; routes with the same value keep their order.
pub fn sort_routes(routes: &Vec<RouteSummary>, sort: RouteSort) -> (sorted: Vec<RouteSummary>)
    ensures
        is_sorted_by(sorted@, routes@, sort),
{
    let mut keys: Vec<i128> = Vec::new();
    let mut i: usize = 0;
    while i < routes.len()
        invariant
            i <= routes.len(),
            keys@ == keys_of(routes@, sort).take(i as int),
        decreases routes.len() - i,
    {
        keys.push(routes[i].sort_key(sort));
        i += 1;
    }
    let order = descending_order(&keys);
    let mut sorted: Vec<RouteSummary> = Vec::new();
    let mut k: usize = 0;
    while k < order.len()
        invariant
            k <= order.len(),
            order.len() == routes.len(),
            keys@ == keys_of(routes@, sort),
            is_descending_order(keys@, order@),
            sorted.len() == k,
            forall|j: int|
                0 <= j < k ==> (#[trigger] sorted[j]).same_as(routes[order[j] as int]),
        decreases order.len() - k,
    {
        sorted.push(routes[order[k]].duplicate());
        k += 1;
    }
    sorted
}

} // verus!
