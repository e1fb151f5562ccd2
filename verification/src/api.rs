//! What the HTTP endpoints decide: who may ingest, how a request is answered, which page
//! of a list is shown and from when on.

use crate::clock::{has_month_before, NANOS_PER_DAY, NANOS_PER_HOUR};
use crate::failure::Failure;
use crate::project::ProjectContext;
use crate::text::{chars_of, has_prefix, slice_of, starts_with, str_eq, str_of, string_of};
use vstd::prelude::*;

verus! {

/// The largest body of an ingest request, in bytes.
pub const MAX_BODY_BYTES: usize = 10_485_760;

/// The number of entries on one page of a list.
pub const PAGE_SIZE: i64 = 50;

/// The HTTP status of an ingest request that was accepted.
pub const STATUS_ACCEPTED: u16 = 202;

/// The HTTP status of an ingest request that failed.
pub const STATUS_FAILED: u16 = 500;

/// What the store answered when it was asked for the project of an API key.
#[derive(Debug, Clone, Copy, PartialEq, Eq, Structural)]
pub enum KeyLookup {
    /// The key is that of the project with this id.
    Found(i64),
    /// No project has the key.
    Unknown,
    /// The store could not be asked.
    Failed,
}

/// The API key that an `Authorization` header presents: what follows `Bearer `. A header
/// that is absent or begins otherwise presents none.
pub open spec fn presented_key(header: Option<Seq<char>>) -> Option<Seq<char>> {
    match header {
        Some(h) => if starts_with(h, "Bearer "@) {
            Some(h.skip(7))
        } else {
            None
        },
        None => None,
    }
}

/// The API key that an `Authorization` header presents.
pub fn bearer_token(header: Option<&str>) -> (r: Result<String, Failure>)
    ensures
        match r {
            Ok(key) => presented_key(str_of(header)) == Some(key@),
            Err(e) => e == Failure::Unauthorized && presented_key(str_of(header)).is_none(),
        },
{
    match header {
        Some(h) => {
            let chars = chars_of(h);
            if has_prefix(&chars, "Bearer ") {
                proof {
                    reveal_strlit("Bearer ");
                }
                let key = slice_of(&chars, 7, chars.len());
                Ok(string_of(&key))
            } else {
                Err(Failure::Unauthorized)
            }
        },
        None => Err(Failure::Unauthorized),
    }
}

/// Whether the presenter of a key may ingest: only the key of a project lets in, and
/// there is no other way.
pub fn authorize(lookup: KeyLookup) -> (r: Result<ProjectContext, Failure>)
    ensures
        r == match lookup {
            KeyLookup::Found(id) => Ok::<ProjectContext, Failure>(
                ProjectContext { project_id: Some(id) },
            ),
            KeyLookup::Unknown => Err(Failure::Unauthorized),
            KeyLookup::Failed => Err(Failure::StorageFailure),
        },
{
    match lookup {
        KeyLookup::Found(id) => Ok(ProjectContext { project_id: Some(id) }),
        KeyLookup::Unknown => Err(Failure::Unauthorized),
        KeyLookup::Failed => Err(Failure::StorageFailure),
    }
}

/// The HTTP status of an ingest request.
pub fn ingest_status(stored: bool) -> (status: u16)
    ensures
        status == if stored {
            STATUS_ACCEPTED
        } else {
            STATUS_FAILED
        },
{
    if stored {
        STATUS_ACCEPTED
    } else {
        STATUS_FAILED
    }
}

/// The HTTP status of a batch of errors of which `stored` were stored and `failed` were
/// not: the batch fails only if every error of it failed.
pub fn batch_status(stored: usize, failed: usize) -> (status: u16)
    ensures
        status == if failed > 0 && stored == 0 {
            STATUS_FAILED
        } else {
            STATUS_ACCEPTED
        },
{
    if failed > 0 && stored == 0 {
        STATUS_FAILED
    } else {
        STATUS_ACCEPTED
    }
}

/// The page that a request asks for: the first one where it names none, or one before it.
pub open spec fn page_of(page: Option<i64>) -> i64 {
    match page {
        Some(p) => if p >= 1 {
            p
        } else {
            1
        },
        None => 1,
    }
}

/// The number of pages that `total_count` entries fill.
pub open spec fn pages_for(total_count: i64) -> int {
    if total_count <= 0 {
        0
    } else {
        (total_count + PAGE_SIZE - 1) / (PAGE_SIZE as int)
    }
}

/// The number of entries before the page `page`, `page` at least 1, as far as 64 bits
/// hold it.
pub open spec fn offset_for(page: i64) -> int {
    if (page - 1) * PAGE_SIZE > i64::MAX {
        i64::MAX as int
    } else {
        (page - 1) * PAGE_SIZE
    }
}

/// One page of a list.
#[derive(Debug, Clone, Copy, PartialEq, Eq, Structural)]
pub struct PageWindow {
    pub page: i64,
    pub total_pages: i64,
    pub limit: i64,
    pub offset: i64,
}

/// The page of a list of `total_count` entries that a request asks for.
pub fn page_window(page: Option<i64>, total_count: i64) -> (window: PageWindow)
    ensures
        window.page == page_of(page),
        window.total_pages == pages_for(total_count),
        window.limit == PAGE_SIZE,
        window.offset == offset_for(window.page),
{
    let page: i64 = match page {
        Some(p) => {
            if p >= 1 {
                p
            } else {
                1
            }
        },
        None => 1,
    };
    let total_pages: i64 = if total_count <= 0 {
        0
    } else {
        ((total_count as i128 + 49) / 50) as i64
    };
    let wide: i128 = (page as i128 - 1) * 50;
    let offset: i64 = if wide > 0x7fff_ffff_ffff_ffff {
        0x7fff_ffff_ffff_ffff
    } else {
        wide as i64
    };
    PageWindow { page, total_pages, limit: PAGE_SIZE, offset }
}

/// How far back a period reaches from now, in nanoseconds: `1h`, `24h`, `7d` and `30d`
/// reach an hour, a day, a week and thirty days back; any other period is unbounded.
pub open spec fn period_span(period: Seq<char>) -> Option<int> {
    if period == "1h"@ {
        Some(NANOS_PER_HOUR as int)
    } else if period == "24h"@ {
        Some(24 * NANOS_PER_HOUR)
    } else if period == "7d"@ {
        Some(7 * NANOS_PER_DAY)
    } else if period == "30d"@ {
        Some(30 * NANOS_PER_DAY)
    } else {
        None
    }
}

/// The instant from which on a list shows entries, for a period that ends at `now_nanos`.
pub fn period_start(now_nanos: i64, period: &str) -> (since: Option<i64>)
    requires
        has_month_before(now_nanos),
    ensures
        match since {
            Some(s) => period_span(period@) == Some(now_nanos - s),
            None => period_span(period@).is_none(),
        },
{
    if str_eq(period, "1h") {
        Some(now_nanos - NANOS_PER_HOUR)
    } else if str_eq(period, "24h") {
        Some(now_nanos - 24 * NANOS_PER_HOUR)
    } else if str_eq(period, "7d") {
        Some(now_nanos - 7 * NANOS_PER_DAY)
    } else if str_eq(period, "30d") {
        Some(now_nanos - 30 * NANOS_PER_DAY)
    } else {
        None
    }
}

/// By what a list of traces is ordered.
#[derive(Debug, Clone, Copy, PartialEq, Eq, Structural)]
pub enum TraceSort {
    Recent,
    Duration,
    Spans,
}

/// By what a list of error groups is ordered.
#[derive(Debug, Clone, Copy, PartialEq, Eq, Structural)]
pub enum ErrorSort {
    LastSeen,
    FirstSeen,
    Count,
}

impl TraceSort {
    /// The order that a request asks for; `recent` where it asks for none that exists.
    pub open spec fn of_name(s: Seq<char>) -> TraceSort {
        if s == "duration"@ {
            TraceSort::Duration
        } else if s == "spans"@ {
            TraceSort::Spans
        } else {
            TraceSort::Recent
        }
    }

    /// The order that a request asks for.
    pub fn parse(s: &str) -> (sort: TraceSort)
        ensures
            sort == Self::of_name(s@),
    {
        if str_eq(s, "duration") {
            TraceSort::Duration
        } else if str_eq(s, "spans") {
            TraceSort::Spans
        } else {
            TraceSort::Recent
        }
    }
}

impl ErrorSort {
    /// The order that a request asks for; `last_seen` where it asks for none that exists.
    pub open spec fn of_name(s: Seq<char>) -> ErrorSort {
        if s == "first_seen"@ {
            ErrorSort::FirstSeen
        } else if s == "count"@ {
            ErrorSort::Count
        } else {
            ErrorSort::LastSeen
        }
    }

    /// The order that a request asks for.
    pub fn parse(s: &str) -> (sort: ErrorSort)
        ensures
            sort == Self::of_name(s@),
    {
        if str_eq(s, "first_seen") {
            ErrorSort::FirstSeen
        } else if str_eq(s, "count") {
            ErrorSort::Count
        } else {
            ErrorSort::LastSeen
        }
    }
}

} // verus!
