//! The lists of the dashboard: what a request for a list of traces, of error groups or of
//! routes asks for, with everything that it leaves out filled in.

use crate::api::{page_of, period_span, period_start, ErrorSort, TraceSort};
use crate::category::RootSpanType;
use crate::clock::{
    format_rfc3339, has_month_before, rfc3339_utc, NANOS_PER_DAY, NANOS_PER_HOUR,
};
use crate::routes::RouteSort;
use crate::text::{copy_text, str_eq, text_of};
use vstd::prelude::*;

verus! {

/// The number of routes that the list of routes shows.
pub const ROUTES_LIMIT: i64 = 100;

/// The query of a request for the list of traces.
#[derive(Debug, Clone)]
pub struct TracesQuery {
    pub root_type: Option<String>,
    pub search: Option<String>,
    pub period: Option<String>,
    pub min_duration: Option<String>,
    pub sort: Option<String>,
    pub page: Option<i64>,
}

/// The query of a request for the list of error groups.
#[derive(Debug, Clone)]
pub struct ErrorsQuery {
    pub status: Option<String>,
    pub search: Option<String>,
    pub period: Option<String>,
    pub sort: Option<String>,
    pub page: Option<i64>,
}

/// The query of a request for the list of routes.
#[derive(Debug, Clone)]
pub struct RoutesQuery {
    pub period: Option<String>,
    pub search: Option<String>,
    pub sort: Option<String>,
}

/// The list of traces that a request asks for. `since` is the RFC 3339 text of the
/// instant from which on traces are listed, absent where the period is unbounded.
#[derive(Debug, Clone)]
pub struct TraceListing {
    pub root_type: Option<RootSpanType>,
    pub search: Option<String>,
    pub period: String,
    pub min_duration: Option<String>,
    pub sort: TraceSort,
    pub page: i64,
    pub since: Option<String>,
}

/// The list of error groups that a request asks for.
#[derive(Debug, Clone)]
pub struct ErrorListing {
    pub status: Option<String>,
    pub search: Option<String>,
    pub period: String,
    pub sort: ErrorSort,
    pub page: i64,
    pub since: Option<String>,
}

/// The list of routes that a request asks for.
#[derive(Debug, Clone)]
pub struct RouteListing {
    pub search: Option<String>,
    pub period: String,
    pub sort: RouteSort,
    pub since: String,
    pub limit: i64,
}

/// A text that a query gives, where it gives one that is not empty.
pub open spec fn given(text: Option<String>) -> Option<Seq<char>> {
    match text {
        Some(t) => if t@.len() > 0 {
            Some(t@)
        } else {
            None
        },
        None => None,
    }
}

/// The text that a query gives, or else `default`.
pub open spec fn text_or(text: Option<String>, default: Seq<char>) -> Seq<char> {
    match text {
        Some(t) => t@,
        None => default,
    }
}

/// The root type that a query names, where it names one that exists.
pub open spec fn root_type_of(text: Option<String>) -> Option<RootSpanType> {
    match text {
        Some(t) => RootSpanType::of_name(t@),
        None => None,
    }
}

/// The RFC 3339 text of the instant at which a period begins that ends at `now`; an
/// unbounded period begins nowhere.
pub open spec fn since_of(period: Seq<char>, now: i64) -> Option<Seq<char>> {
    match period_span(period) {
        Some(span) => Some(rfc3339_utc((now - span) as i64)),
        None => None,
    }
}

/// How far back the list of routes reaches for a period: an hour, a week or thirty days
/// for `1h`, `7d` and `30d`, and a day for any other.
pub open spec fn routes_span(period: Seq<char>) -> int {
    if period == "1h"@ {
        NANOS_PER_HOUR as int
    } else if period == "7d"@ {
        7 * NANOS_PER_DAY
    } else if period == "30d"@ {
        30 * NANOS_PER_DAY
    } else {
        24 * NANOS_PER_HOUR
    }
}

/// A copy of the text that a query gives, where it gives one that is not empty.
fn copy_given(text: &Option<String>) -> (r: Option<String>)
    ensures
        text_of(r) == given(*text),
{
    match text {
        Some(t) => {
            if t.as_str().unicode_len() > 0 {
                Some(t.clone())
            } else {
                None
            }
        },
        None => None,
    }
}

/// A copy of the text that a query gives, or else `default`.
fn copy_or(text: &Option<String>, default: &str) -> (r: String)
    ensures
        r@ == text_or(*text, default@),
{
    match text {
        Some(t) => t.clone(),
        None => default.to_owned(),
    }
}

/// The RFC 3339 text of the instant at which a period begins that ends at `now_nanos`.
fn since_text(period: &str, now_nanos: i64) -> (r: Option<String>)
    requires
        has_month_before(now_nanos),
    ensures
        text_of(r) == since_of(period@, now_nanos),
{
    match period_start(now_nanos, period) {
        Some(instant) => Some(format_rfc3339(instant)),
        None => None,
    }
}

impl TracesQuery {
    /// The list of traces that the query asks for at `now_nanos`: over all time and the
    /// most recent first, unless the query says otherwise.
    pub fn resolve(&self, now_nanos: i64) -> (listing: TraceListing)
        requires
            has_month_before(now_nanos),
        ensures
            listing.root_type == root_type_of(self.root_type),
            text_of(listing.search) == given(self.search),
            listing.period@ == text_or(self.period, "all"@),
            text_of(listing.min_duration) == given(self.min_duration),
            listing.sort == TraceSort::of_name(text_or(self.sort, "recent"@)),
            listing.page == page_of(self.page),
            text_of(listing.since) == since_of(listing.period@, now_nanos),
    {
        let period = copy_or(&self.period, "all");
        let sort = copy_or(&self.sort, "recent");
        let since = since_text(period.as_str(), now_nanos);
        TraceListing {
            root_type: match &self.root_type {
                Some(t) => RootSpanType::parse(t.as_str()),
                None => None,
            },
            search: copy_given(&self.search),
            period,
            min_duration: copy_given(&self.min_duration),
            sort: TraceSort::parse(sort.as_str()),
            page: match self.page {
                Some(p) => {
                    if p >= 1 {
                        p
                    } else {
                        1
                    }
                },
                None => 1,
            },
            since,
        }
    }
}

impl ErrorsQuery {
    /// The list of error groups that the query asks for at `now_nanos`: over all time and
    /// the last seen first, unless the query says otherwise.
    pub fn resolve(&self, now_nanos: i64) -> (listing: ErrorListing)
        requires
            has_month_before(now_nanos),
        ensures
            text_of(listing.status) == text_of(self.status),
            text_of(listing.search) == given(self.search),
            listing.period@ == text_or(self.period, "all"@),
            listing.sort == ErrorSort::of_name(text_or(self.sort, "last_seen"@)),
            listing.page == page_of(self.page),
            text_of(listing.since) == since_of(listing.period@, now_nanos),
    {
        let period = copy_or(&self.period, "all");
        let sort = copy_or(&self.sort, "last_seen");
        let since = since_text(period.as_str(), now_nanos);
        ErrorListing {
            status: copy_text(&self.status),
            search: copy_given(&self.search),
            period,
            sort: ErrorSort::parse(sort.as_str()),
            page: match self.page {
                Some(p) => {
                    if p >= 1 {
                        p
                    } else {
                        1
                    }
                },
                None => 1,
            },
            since,
        }
    }
}

impl RoutesQuery {
    /// The list of routes that the query asks for at `now_nanos`: of the last day and the
    /// most requested first, unless the query says otherwise.
    pub fn resolve(&self, now_nanos: i64) -> (listing: RouteListing)
        requires
            has_month_before(now_nanos),
        ensures
            text_of(listing.search) == given(self.search),
            listing.period@ == text_or(self.period, "24h"@),
            listing.sort == RouteSort::of_name(text_or(self.sort, "requests"@)),
            listing.since@ == rfc3339_utc((now_nanos - routes_span(listing.period@)) as i64),
            listing.limit == ROUTES_LIMIT,
    {
        let period = copy_or(&self.period, "24h");
        let sort = copy_or(&self.sort, "requests");
        let instant: i64 = if str_eq(period.as_str(), "1h") {
            now_nanos - NANOS_PER_HOUR
        } else if str_eq(period.as_str(), "7d") {
            now_nanos - 7 * NANOS_PER_DAY
        } else if str_eq(period.as_str(), "30d") {
            now_nanos - 30 * NANOS_PER_DAY
        } else {
            now_nanos - 24 * NANOS_PER_HOUR
        };
        RouteListing {
            search: copy_given(&self.search),
            period,
            sort: RouteSort::parse(sort.as_str()),
            since: format_rfc3339(instant),
            limit: ROUTES_LIMIT,
        }
    }
}

/// The largest number of requests among the routes of a list, and 1 for an empty list:
/// the scale of the bars in the list.
pub open spec fn scale_of(counts: Seq<usize>) -> int
    decreases counts.len(),
{
    if counts.len() == 0 {
        1
    } else if counts.len() == 1 {
        counts[0] as int
    } else {
        let rest = scale_of(counts.drop_last());
        if counts.last() > rest {
            counts.last() as int
        } else {
            rest
        }
    }
}

/// The largest number of requests among the routes of a list, and 1 for an empty list.
pub fn max_requests(counts: &Vec<usize>) -> (max: usize)
    ensures
        max == scale_of(counts@),
{
    if counts.len() == 0 {
        return 1;
    }
    let mut max: usize = counts[0];
    let mut i: usize = 1;
    while i < counts.len()
        invariant
            1 <= i <= counts.len(),
            max == scale_of(counts@.take(i as int)),
        decreases counts.len() - i,
    {
        proof {
            assert(counts@.take(i + 1).drop_last() =~= counts@.take(i as int));
        }
        if counts[i] > max {
            max = counts[i];
        }
        i += 1;
    }
    proof {
        assert(counts@.take(counts.len() as int) =~= counts@);
    }
    max
}

} // verus!
