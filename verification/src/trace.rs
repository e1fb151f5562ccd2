//! The trace reader: from the stored spans of one trace to its waterfall, with the depth of
//! each span below its root and its place on the time axis.

use crate::category::SpanCategory;
use crate::text::{chars_of, copy_text, str_eq, text_of};
use vstd::prelude::*;

verus! {

/// A stored span, as it is loaded for the waterfall of its trace.
#[derive(Debug, Clone)]
pub struct SpanRecord {
    pub id: i64,
    pub span_id: String,
    pub parent_span_id: Option<String>,
    pub name: String,
    pub category: String,
    pub start_time_unix_nano: i64,
    pub end_time_unix_nano: i64,
    pub status_code: i32,
    pub http_method: Option<String>,
    pub http_status_code: Option<i32>,
    pub db_operation: Option<String>,
    pub db_system: Option<String>,
    pub db_statement: Option<String>,
}

/// A share of the whole: `numerator / denominator`, with a positive denominator. As a
/// percentage it is `100 * numerator / denominator`.
#[derive(Debug, Clone, Copy, PartialEq, Eq, Structural)]
pub struct Share {
    pub numerator: i128,
    pub denominator: i128,
}

/// A span in the waterfall of its trace.
#[derive(Debug, Clone)]
pub struct SpanDisplay {
    pub id: i64,
    pub span_id: String,
    pub parent_span_id: Option<String>,
    pub name: String,
    pub category: SpanCategory,
    pub duration_ns: i128,
    pub offset_ns: i128,
    pub offset_share: Share,
    pub width_share: Share,
    pub depth: usize,
    pub status_code: i32,
    pub http_method: Option<String>,
    pub http_status_code: Option<i32>,
    pub db_operation: Option<String>,
    pub db_system: Option<String>,
    pub db_statement: Option<String>,
}

/// The waterfall of a trace. `root_index` is the index in `spans` of the root span.
#[derive(Debug, Clone)]
pub struct TraceDetail {
    pub trace_id: String,
    pub spans: Vec<SpanDisplay>,
    pub total_duration_ns: i128,
    pub root_index: Option<usize>,
}

/// The index of the span with the id `id`: of the last one, should several have it.
pub open spec fn find_span(records: Seq<SpanRecord>, id: Seq<char>) -> Option<int>
    decreases records.len(),
{
    if records.len() == 0 {
        None
    } else if records.last().span_id@ == id {
        Some(records.len() - 1)
    } else {
        find_span(records.drop_last(), id)
    }
}

/// The index of the parent of span `i`, where the span names a parent and the trace holds
/// it.
pub open spec fn parent_index(records: Seq<SpanRecord>, i: int) -> Option<int> {
    match records[i].parent_span_id {
        Some(parent) => find_span(records, parent@),
        None => None,
    }
}

/// The number of steps from span `i` up to a span without a parent in the trace, counted
/// up to `budget` steps.
pub open spec fn depth_within(records: Seq<SpanRecord>, i: int, budget: nat) -> nat
    decreases budget,
{
    if budget == 0 {
        0
    } else {
        match parent_index(records, i) {
            Some(parent) => 1 + depth_within(records, parent, (budget - 1) as nat),
            None => 0,
        }
    }
}

/// The depth of span `i` in its trace: 0 for a span without a parent in the trace, else one
/// more than the depth of its parent. A walk up the parents of a trace of `n` spans that has
/// not ended after `n` steps runs in a cycle; it is cut off there.
pub open spec fn depth_of(records: Seq<SpanRecord>, i: int) -> nat {
    depth_within(records, i, records.len())
}

/// The start of a trace: the earliest start of its spans.
pub open spec fn is_trace_start(records: Seq<SpanRecord>, start: int) -> bool {
    &&& exists|i: int| 0 <= i < records.len() && records[i].start_time_unix_nano == start
    &&& forall|i: int| 0 <= i < records.len() ==> start <= records[i].start_time_unix_nano
}

/// The end of a trace: the latest end of its spans.
pub open spec fn is_trace_end(records: Seq<SpanRecord>, end: int) -> bool {
    &&& exists|i: int| 0 <= i < records.len() && records[i].end_time_unix_nano == end
    &&& forall|i: int| 0 <= i < records.len() ==> records[i].end_time_unix_nano <= end
}

/// The share of the trace that lies before a span: its offset over the duration of the
/// trace, and nothing where the trace has no duration.
pub open spec fn offset_share(offset: int, total: int) -> (int, int) {
    if total > 0 {
        (offset, total)
    } else {
        (0, 1)
    }
}

/// The share of the trace that a span takes: its duration over that of the trace, and the
/// whole where the trace has no duration.
pub open spec fn width_share(duration: int, total: int) -> (int, int) {
    if total > 0 {
        (duration, total)
    } else {
        (1, 1)
    }
}

/// Whether the text `a` stands before the text `b` in the order of the dictionary, by code
/// point.
pub open spec fn text_before(a: Seq<char>, b: Seq<char>) -> bool
    decreases a.len(),
{
    if b.len() == 0 {
        false
    } else if a.len() == 0 {
        true
    } else if a[0] != b[0] {
        (a[0] as int) < (b[0] as int)
    } else {
        text_before(a.drop_first(), b.drop_first())
    }
}

/// Whether span `i` comes before span `j` as the root of the trace: the one that starts
/// earlier does, of two that start together the one with the smaller span id, and of two
/// with the same id the one that stands first.
pub open spec fn root_before(records: Seq<SpanRecord>, i: int, j: int) -> bool {
    let a = records[i];
    let b = records[j];
    if a.start_time_unix_nano != b.start_time_unix_nano {
        a.start_time_unix_nano < b.start_time_unix_nano
    } else if a.span_id@ != b.span_id@ {
        text_before(a.span_id@, b.span_id@)
    } else {
        i < j
    }
}

/// Whether `root` is the root of the trace: the span of depth 0 that comes before every
/// other span of depth 0. A trace without a span of depth 0 has no root.
pub open spec fn is_root_choice(records: Seq<SpanRecord>, root: Option<usize>) -> bool {
    match root {
        Some(r) => {
            &&& r < records.len()
            &&& depth_of(records, r as int) == 0
            &&& forall|j: int|
                0 <= j < records.len() && j != r && depth_of(records, j) == 0 ==> root_before(
                    records,
                    r as int,
                    j,
                )
        },
        None => forall|j: int| 0 <= j < records.len() ==> depth_of(records, j) != 0,
    }
}

/// Whether `display` shows span `i` of a trace that starts at `start` and lasts `total`.
pub open spec fn display_describes(
    display: SpanDisplay,
    records: Seq<SpanRecord>,
    i: int,
    start: int,
    total: int,
) -> bool {
    let record = records[i];
    let duration = record.end_time_unix_nano - record.start_time_unix_nano;
    let offset = record.start_time_unix_nano - start;
    &&& display.id == record.id
    &&& display.span_id@ == record.span_id@
    &&& text_of(display.parent_span_id) == text_of(record.parent_span_id)
    &&& display.name@ == record.name@
    &&& display.category == SpanCategory::of_name(record.category@)
    &&& display.duration_ns == duration
    &&& display.offset_ns == offset
    &&& (display.offset_share.numerator as int, display.offset_share.denominator as int)
        == offset_share(offset, total)
    &&& (display.width_share.numerator as int, display.width_share.denominator as int)
        == width_share(duration, total)
    &&& display.depth == depth_of(records, i)
    &&& display.status_code == record.status_code
    &&& text_of(display.http_method) == text_of(record.http_method)
    &&& display.http_status_code == record.http_status_code
    &&& text_of(display.db_operation) == text_of(record.db_operation)
    &&& text_of(display.db_system) == text_of(record.db_system)
    &&& text_of(display.db_statement) == text_of(record.db_statement)
}

/// Whether `detail` is the waterfall of the trace `trace_id` with the spans `records`.
pub open spec fn detail_describes(
    detail: TraceDetail,
    trace_id: Seq<char>,
    records: Seq<SpanRecord>,
) -> bool {
    &&& detail.trace_id@ == trace_id
    &&& detail.spans.len() == records.len()
    &&& exists|start: int, end: int|
        {
            &&& is_trace_start(records, start)
            &&& is_trace_end(records, end)
            &&& detail.total_duration_ns == end - start
            &&& forall|i: int|
                0 <= i < records.len() ==> display_describes(
                    #[trigger] detail.spans[i],
                    records,
                    i,
                    start,
                    end - start,
                )
        }
    &&& is_root_choice(records, detail.root_index)
}

/// The span that is found for an id is a span of the trace with that id, and an id
/// for which none is found is the id of no span.
proof fn lemma_find_span_bounds(records: Seq<SpanRecord>, id: Seq<char>)
    ensures
        match find_span(records, id) {
            Some(i) => 0 <= i < records.len() && records[i].span_id@ == id,
            None => forall|j: int| 0 <= j < records.len() ==> records[j].span_id@ != id,
        },
    decreases records.len(),
{
    if records.len() > 0 && records.last().span_id@ != id {
        let rest = records.drop_last();
        lemma_find_span_bounds(rest, id);
        match find_span(rest, id) {
            Some(i) => {
            },
            None => {
                assert forall|j: int| 0 <= j < records.len() implies records[j].span_id@
                    != id by {
                    if j < rest.len() {
                        assert(rest[j] == records[j]);
                    }
                }
            },
        }
    }
}

/// The last span with an id is the span that is found for the id.
proof fn lemma_find_span_last(records: Seq<SpanRecord>, id: Seq<char>, i: int)
    requires
        0 <= i < records.len(),
        records[i].span_id@ == id,
        forall|j: int| i < j < records.len() ==> records[j].span_id@ != id,
    ensures
        find_span(records, id) == Some(i),
    decreases records.len(),
{
    if i < records.len() - 1 {
        lemma_find_span_last(records.drop_last(), id, i);
    }
}

/// The index of the last span with the id `id`.
fn find_span_index(records: &Vec<SpanRecord>, id: &str) -> (r: Option<usize>)
    ensures
        match r {
            Some(i) => find_span(records@, id@) == Some(i as int) && i < records.len(),
            None => find_span(records@, id@).is_none(),
        },
{
    let mut i: usize = records.len();
    while i > 0
        invariant
            i <= records.len(),
            forall|j: int| i <= j < records.len() ==> records@[j].span_id@ != id@,
        decreases i,
    {
        i -= 1;
        if str_eq(records[i].span_id.as_str(), id) {
            proof {
                lemma_find_span_last(records@, id@, i as int);
            }
            return Some(i);
        }
    }
    proof {
        lemma_find_span_bounds(records@, id@);
    }
    None
}

/// For each span, the index of its parent in the trace.
fn parent_indices(records: &Vec<SpanRecord>) -> (parents: Vec<Option<usize>>)
    ensures
        parents.len() == records.len(),
        forall|i: int|
            0 <= i < records.len() ==> match #[trigger] parents[i] {
                Some(p) => parent_index(records@, i) == Some(p as int) && p < records.len(),
                None => parent_index(records@, i).is_none(),
            },
{
    let mut parents: Vec<Option<usize>> = Vec::new();
    let mut i: usize = 0;
    while i < records.len()
        invariant
            i <= records.len(),
            parents.len() == i,
            forall|k: int|
                0 <= k < i ==> match #[trigger] parents[k] {
                    Some(p) => parent_index(records@, k) == Some(p as int) && p < records.len(),
                    None => parent_index(records@, k).is_none(),
                },
        decreases records.len() - i,
    {
        let parent = match &records[i].parent_span_id {
            Some(id) => find_span_index(records, id.as_str()),
            None => None,
        };
        parents.push(parent);
        i += 1;
    }
    parents
}

/// The depth of span `i`, given the index of the parent of each span.
fn depth_at(records: &Vec<SpanRecord>, parents: &Vec<Option<usize>>, i: usize) -> (depth: usize)
    requires
        i < records.len(),
        parents.len() == records.len(),
        forall|k: int|
            0 <= k < records.len() ==> match #[trigger] parents[k] {
                Some(p) => parent_index(records@, k) == Some(p as int) && p < records.len(),
                None => parent_index(records@, k).is_none(),
            },
    ensures
        depth == depth_of(records@, i as int),
{
    let n: usize = records.len();
    let mut depth: usize = 0;
    let mut at: usize = i;
    while depth < n
        invariant
            depth <= n,
            n == records.len(),
            at < n,
            parents.len() == n,
            forall|k: int|
                0 <= k < n ==> match #[trigger] parents[k] {
                    Some(p) => parent_index(records@, k) == Some(p as int) && p < n,
                    None => parent_index(records@, k).is_none(),
                },
            depth_of(records@, i as int) == depth + depth_within(
                records@,
                at as int,
                (n - depth) as nat,
            ),
        decreases n - depth,
    {
        match parents[at] {
            Some(p) => {
                at = p;
                depth += 1;
            },
            None => {
                return depth;
            },
        }
    }
    depth
}

/// Whether the code point of `x` is smaller than that of `y`.
fn code_before(x: char, y: char) -> (r: bool)
    ensures
        r == ((x as int) < (y as int)),
{
    (x as u32) < (y as u32)
}

/// Whether the text `a` stands before the text `b` in the order of the dictionary.
fn chars_before(a: &Vec<char>, b: &Vec<char>) -> (r: bool)
    ensures
        r == text_before(a@, b@),
{
    let mut i: usize = 0;
    proof {
        assert(a@.skip(0) =~= a@);
        assert(b@.skip(0) =~= b@);
    }
    loop
        invariant
            i <= a.len(),
            i <= b.len(),
            text_before(a@, b@) == text_before(a@.skip(i as int), b@.skip(i as int)),
        decreases a.len() - i,
    {
        if i >= b.len() {
            return false;
        }
        if i >= a.len() {
            return true;
        }
        let x = a[i];
        let y = b[i];
        if x != y {
            return code_before(x, y);
        }
        proof {
            assert(a@.skip(i as int).drop_first() =~= a@.skip(i + 1));
            assert(b@.skip(i as int).drop_first() =~= b@.skip(i + 1));
        }
        i += 1;
    }
}

/// Whether span `i` comes before span `j` as the root of the trace.
fn comes_before(records: &Vec<SpanRecord>, i: usize, j: usize) -> (r: bool)
    requires
        i < records.len(),
        j < records.len(),
    ensures
        r == root_before(records@, i as int, j as int),
{
    let a = &records[i];
    let b = &records[j];
    if a.start_time_unix_nano != b.start_time_unix_nano {
        a.start_time_unix_nano < b.start_time_unix_nano
    } else if !str_eq(a.span_id.as_str(), b.span_id.as_str()) {
        let x = chars_of(a.span_id.as_str());
        let y = chars_of(b.span_id.as_str());
        chars_before(&x, &y)
    } else {
        i < j
    }
}

/// Of two different texts, one stands before the other.
proof fn lemma_text_before_total(a: Seq<char>, b: Seq<char>)
    requires
        a != b,
    ensures
        text_before(a, b) || text_before(b, a),
    decreases a.len(),
{
    if a.len() > 0 && b.len() > 0 && a[0] == b[0] {
        if a.drop_first() == b.drop_first() {
            assert(a =~= seq![a[0]] + a.drop_first());
            assert(b =~= seq![b[0]] + b.drop_first());
        }
        lemma_text_before_total(a.drop_first(), b.drop_first());
    } else if a.len() == 0 && b.len() == 0 {
        assert(a =~= b);
    }
}

/// The order of texts is transitive.
proof fn lemma_text_before_transitive(a: Seq<char>, b: Seq<char>, c: Seq<char>)
    requires
        text_before(a, b),
        text_before(b, c),
    ensures
        text_before(a, c),
    decreases a.len(),
{
    if a.len() > 0 && b.len() > 0 && c.len() > 0 && a[0] == b[0] && b[0] == c[0] {
        lemma_text_before_transitive(a.drop_first(), b.drop_first(), c.drop_first());
    }
}

/// Of two different spans, one comes before the other as the root.
proof fn lemma_root_before_total(records: Seq<SpanRecord>, i: int, j: int)
    requires
        i != j,
    ensures
        root_before(records, i, j) || root_before(records, j, i),
{
    if records[i].span_id@ != records[j].span_id@ {
        lemma_text_before_total(records[i].span_id@, records[j].span_id@);
    }
}

/// The order of roots is transitive.
proof fn lemma_root_before_transitive(records: Seq<SpanRecord>, i: int, j: int, k: int)
    requires
        root_before(records, i, j),
        root_before(records, j, k),
    ensures
        root_before(records, i, k),
{
    let a = records[i];
    let b = records[j];
    let c = records[k];
    if a.start_time_unix_nano == b.start_time_unix_nano && b.start_time_unix_nano
        == c.start_time_unix_nano {
        if a.span_id@ != b.span_id@ && b.span_id@ != c.span_id@ {
            lemma_text_before_transitive(a.span_id@, b.span_id@, c.span_id@);
            if a.span_id@ == c.span_id@ {
                lemma_text_before_irreflexive(a.span_id@);
            }
        }
    }
}

/// No text stands before itself.
proof fn lemma_text_before_irreflexive(a: Seq<char>)
    ensures
        !text_before(a, a),
    decreases a.len(),
{
    if a.len() > 0 {
        lemma_text_before_irreflexive(a.drop_first());
    }
}

/// The earliest start and the latest end of the spans of a trace.
fn trace_bounds(records: &Vec<SpanRecord>) -> (r: (i64, i64))
    requires
        records.len() > 0,
    ensures
        is_trace_start(records@, r.0 as int),
        is_trace_end(records@, r.1 as int),
{
    let mut start: i64 = records[0].start_time_unix_nano;
    let mut end: i64 = records[0].end_time_unix_nano;
    let mut i: usize = 1;
    while i < records.len()
        invariant
            1 <= i <= records.len(),
            exists|k: int| 0 <= k < i && records@[k].start_time_unix_nano == start,
            exists|k: int| 0 <= k < i && records@[k].end_time_unix_nano == end,
            forall|k: int| 0 <= k < i ==> start <= records@[k].start_time_unix_nano,
            forall|k: int| 0 <= k < i ==> records@[k].end_time_unix_nano <= end,
        decreases records.len() - i,
    {
        if records[i].start_time_unix_nano < start {
            start = records[i].start_time_unix_nano;
        }
        if records[i].end_time_unix_nano > end {
            end = records[i].end_time_unix_nano;
        }
        i += 1;
    }
    (start, end)
}

/// The root of a trace, given the depth of each span.
fn choose_root(records: &Vec<SpanRecord>, depths: &Vec<usize>) -> (root: Option<usize>)
    requires
        depths.len() == records.len(),
        forall|i: int| 0 <= i < records.len() ==> #[trigger] depths[i] == depth_of(records@, i),
    ensures
        is_root_choice(records@, root),
{
    let mut best: Option<usize> = None;
    let mut i: usize = 0;
    while i < records.len()
        invariant
            i <= records.len(),
            depths.len() == records.len(),
            forall|k: int|
                0 <= k < records.len() ==> #[trigger] depths[k] == depth_of(records@, k),
            match best {
                Some(r) => {
                    &&& r < i
                    &&& depth_of(records@, r as int) == 0
                    &&& forall|j: int|
                        0 <= j < i && j != r && depth_of(records@, j) == 0 ==> root_before(
                            records@,
                            r as int,
                            j,
                        )
                },
                None => forall|j: int| 0 <= j < i ==> depth_of(records@, j) != 0,
            },
        decreases records.len() - i,
    {
        if depths[i] == 0 {
            match best {
                Some(r) => {
                    if comes_before(records, i, r) {
                        proof {
                            assert forall|j: int|
                                0 <= j < i + 1 && j != i && depth_of(records@, j)
                                    == 0 implies root_before(records@, i as int, j) by {
                                if j != r {
                                    lemma_root_before_transitive(records@, i as int, r as int, j);
                                }
                            }
                        }
                        best = Some(i);
                    } else {
                        proof {
                            lemma_root_before_total(records@, i as int, r as int);
                        }
                    }
                },
                None => {
                    best = Some(i);
                },
            }
        }
        i += 1;
    }
    best
}

/// The waterfall of the trace `trace_id`, whose stored spans are `records`. A trace
/// without spans does not exist: there is no waterfall for it.
pub fn get_trace(trace_id: &str, records: &Vec<SpanRecord>) -> (r: Option<TraceDetail>)
    ensures
        match r {
            Some(detail) => records.len() > 0 && detail_describes(detail, trace_id@, records@),
            None => records.len() == 0,
        },
{
    if records.len() == 0 {
        return None;
    }
    let (start, end) = trace_bounds(records);
    let total: i128 = end as i128 - start as i128;
    let parents = parent_indices(records);
    let mut depths: Vec<usize> = Vec::new();
    let mut spans: Vec<SpanDisplay> = Vec::new();
    let mut i: usize = 0;
    while i < records.len()
        invariant
            i <= records.len(),
            is_trace_start(records@, start as int),
            total == end - start,
            parents.len() == records.len(),
            forall|k: int|
                0 <= k < records.len() ==> match #[trigger] parents[k] {
                    Some(p) => parent_index(records@, k) == Some(p as int) && p < records.len(),
                    None => parent_index(records@, k).is_none(),
                },
            depths.len() == i,
            spans.len() == i,
            forall|k: int| 0 <= k < i ==> #[trigger] depths[k] == depth_of(records@, k),
            forall|k: int|
                0 <= k < i ==> display_describes(
                    #[trigger] spans[k],
                    records@,
                    k,
                    start as int,
                    total as int,
                ),
        decreases records.len() - i,
    {
        let record = &records[i];
        let depth = depth_at(records, &parents, i);
        let duration: i128 = record.end_time_unix_nano as i128
            - record.start_time_unix_nano as i128;
        let offset: i128 = record.start_time_unix_nano as i128 - start as i128;
        let offset_share = if total > 0 {
            Share { numerator: offset, denominator: total }
        } else {
            Share { numerator: 0, denominator: 1 }
        };
        let width_share = if total > 0 {
            Share { numerator: duration, denominator: total }
        } else {
            Share { numerator: 1, denominator: 1 }
        };
        let display = SpanDisplay {
            id: record.id,
            span_id: record.span_id.clone(),
            parent_span_id: copy_text(&record.parent_span_id),
            name: record.name.clone(),
            category: SpanCategory::parse(record.category.as_str()),
            duration_ns: duration,
            offset_ns: offset,
            offset_share,
            width_share,
            depth,
            status_code: record.status_code,
            http_method: copy_text(&record.http_method),
            http_status_code: record.http_status_code,
            db_operation: copy_text(&record.db_operation),
            db_system: copy_text(&record.db_system),
            db_statement: copy_text(&record.db_statement),
        };
        depths.push(depth);
        spans.push(display);
        i += 1;
    }
    let root_index = choose_root(records, &depths);
    let detail = TraceDetail {
        trace_id: trace_id.to_owned(),
        spans,
        total_duration_ns: total,
        root_index,
    };
    Some(detail)
}

/// The span that stands `steps` parents above span `i`, where the trace holds that many
/// parents of it.
pub open spec fn ancestor(records: Seq<SpanRecord>, i: int, steps: nat) -> Option<int>
    decreases steps,
{
    if steps == 0 {
        Some(i)
    } else {
        match parent_index(records, i) {
            Some(parent) => ancestor(records, parent, (steps - 1) as nat),
            None => None,
        }
    }
}

/// Whether a trace is free of cycles: no span is its own ancestor.
pub open spec fn is_acyclic(records: Seq<SpanRecord>) -> bool {
    forall|i: int, steps: nat|
        0 <= i < records.len() && steps >= 1 ==> #[trigger] ancestor(records, i, steps) != Some(i)
}

/// In a trace without a cycle, a span without a parent in the trace has depth 0, and a
/// span with one is one deeper than its parent.
pub proof fn lemma_depth_steps(records: Seq<SpanRecord>, i: int)
    requires
        0 <= i < records.len(),
        is_acyclic(records),
    ensures
        match parent_index(records, i) {
            Some(parent) => depth_of(records, i) == depth_of(records, parent) + 1,
            None => depth_of(records, i) == 0,
        },
{
    lemma_acyclic_depth_is_small(records, i);
    if let Some(parent) = parent_index(records, i) {
        lemma_depth_settles(records, parent, (records.len() - 1) as nat, records.len());
    }
}

/// In a trace without a cycle, the walk up from a span ends before as many steps as the
/// trace has spans.
pub proof fn lemma_acyclic_depth_is_small(records: Seq<SpanRecord>, i: int)
    requires
        0 <= i < records.len(),
        is_acyclic(records),
    ensures
        depth_of(records, i) < records.len(),
{
    let n = records.len();
    lemma_depth_within_budget(records, i, n);
    if depth_within(records, i, n) == n {
        // The walk took all its steps: it met more spans than there are, so it met one
        // of them twice.
        let met = Seq::new((n + 1) as nat, |k: int| ancestor(records, i, k as nat).unwrap());
        assert forall|k: int| 0 <= k < met.len() implies 0 <= #[trigger] met[k] < n by {
            lemma_full_walk_has_ancestors(records, i, n, k as nat);
        }
        lemma_pigeonhole(met, n);
        let (a, b) = choose|a: int, b: int| 0 <= a < b < met.len() && met[a] == met[b];
        lemma_full_walk_has_ancestors(records, i, n, a as nat);
        lemma_full_walk_has_ancestors(records, i, n, b as nat);
        lemma_ancestor_composes(records, i, a as nat, (b - a) as nat);
    }
}

/// A walk takes no more steps than its budget allows.
proof fn lemma_depth_within_budget(records: Seq<SpanRecord>, i: int, budget: nat)
    ensures
        depth_within(records, i, budget) <= budget,
    decreases budget,
{
    if budget > 0 {
        if let Some(parent) = parent_index(records, i) {
            lemma_depth_within_budget(records, parent, (budget - 1) as nat);
        }
    }
}

/// A walk that took all the steps of its budget met a span at each of them, and each is
/// a span of the trace.
proof fn lemma_full_walk_has_ancestors(records: Seq<SpanRecord>, i: int, budget: nat, steps: nat)
    requires
        0 <= i < records.len(),
        depth_within(records, i, budget) == budget,
        steps <= budget,
    ensures
        ancestor(records, i, steps).is_some(),
        0 <= ancestor(records, i, steps).unwrap() < records.len(),
    decreases steps,
{
    if steps > 0 {
        let parent = parent_index(records, i).unwrap();
        lemma_find_span_bounds(records, records[i].parent_span_id.unwrap()@);
        lemma_full_walk_has_ancestors(
            records,
            parent,
            (budget - 1) as nat,
            (steps - 1) as nat,
        );
    }
}

/// The ancestor `more` steps above the ancestor `steps` steps above a span is the
/// ancestor `steps + more` steps above the span.
proof fn lemma_ancestor_composes(records: Seq<SpanRecord>, i: int, steps: nat, more: nat)
    requires
        ancestor(records, i, steps).is_some(),
    ensures
        ancestor(records, i, steps + more) == ancestor(
            records,
            ancestor(records, i, steps).unwrap(),
            more,
        ),
    decreases steps,
{
    if steps > 0 {
        let parent = parent_index(records, i).unwrap();
        lemma_ancestor_composes(records, parent, (steps - 1) as nat, more);
    }
}

/// More than `n` numbers below `n` hold one number twice.
proof fn lemma_pigeonhole(numbers: Seq<int>, n: nat)
    requires
        numbers.len() > n,
        forall|k: int| 0 <= k < numbers.len() ==> 0 <= #[trigger] numbers[k] < n,
    ensures
        exists|a: int, b: int| 0 <= a < b < numbers.len() && numbers[a] == numbers[b],
{
    if numbers.no_duplicates() {
        numbers.unique_seq_to_set();
        vstd::set_lib::lemma_int_range(0, n as int);
        let range = vstd::set_lib::set_int_range(0, n as int);
        vstd::set_lib::lemma_len_subset(numbers.to_set(), range);
    }
}

/// A walk that ends within its budget ends at the same depth under any larger budget.
proof fn lemma_depth_settles(records: Seq<SpanRecord>, i: int, budget: nat, larger: nat)
    requires
        depth_within(records, i, budget) < budget,
        budget <= larger,
    ensures
        depth_within(records, i, larger) == depth_within(records, i, budget),
    decreases budget,
{
    if budget > 0 {
        if let Some(parent) = parent_index(records, i) {
            lemma_depth_settles(
                records,
                parent,
                (budget - 1) as nat,
                (larger - 1) as nat,
            );
        }
    }
}

/// The spans of depth 0 are the spans without a parent in the trace.
pub proof fn lemma_depth_zero_is_root(records: Seq<SpanRecord>, i: int)
    requires
        0 <= i < records.len(),
    ensures
        depth_of(records, i) == 0 <==> parent_index(records, i).is_none(),
{
}

/// A trace in which exactly one span has no parent in the trace has exactly one span of
/// depth 0, and that span is its root.
pub proof fn lemma_one_root(records: Seq<SpanRecord>, root: int, chosen: Option<usize>)
    requires
        0 <= root < records.len(),
        forall|i: int|
            0 <= i < records.len() ==> (#[trigger] parent_index(records, i).is_none() <==> i
                == root),
        is_root_choice(records, chosen),
    ensures
        forall|i: int|
            0 <= i < records.len() ==> (#[trigger] depth_of(records, i) == 0 <==> i == root),
        chosen == Some(root as usize),
{
    assert forall|i: int| 0 <= i < records.len() implies (#[trigger] depth_of(records, i) == 0
        <==> i == root) by {
        lemma_depth_zero_is_root(records, i);
    }
    assert(depth_of(records, root) == 0);
}

} // verus!
