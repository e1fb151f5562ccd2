//! The N+1 detector: a trace that runs the same query many times, with different values
//! only, most likely loads the rows of a list one by one.

use crate::category::SpanCategory;
use crate::order::{descending_order, is_descending_order, is_place_of, lists};
use crate::sql::{normalize, normalize_sql};
use crate::text::{copy_strings, str_eq, texts};
use crate::trace::SpanDisplay;
use vstd::prelude::*;

verus! {

/// From this many runs of one query pattern in a trace on, the pattern is reported.
pub const N_PLUS_1_THRESHOLD: usize = 5;

/// A query pattern that a trace runs many times.
#[derive(Debug, Clone)]
pub struct NPlus1Issue {
    pub pattern: String,
    pub count: usize,
    pub total_duration_ns: i128,
    pub span_ids: Vec<String>,
}

/// Whether a span is a database query: its category is `db` and it holds a statement.
pub open spec fn is_db_query(span: SpanDisplay) -> bool {
    span.category == SpanCategory::Db && span.db_statement.is_some()
}

/// Whether a span is a database query with the given pattern.
pub open spec fn has_pattern(span: SpanDisplay, pattern: Seq<char>) -> bool {
    is_db_query(span) && normalize(span.db_statement->0@) == pattern
}

/// The ids of the spans that run a query with the given pattern, in the order of the trace.
pub open spec fn pattern_ids(spans: Seq<SpanDisplay>, pattern: Seq<char>) -> Seq<Seq<char>>
    decreases spans.len(),
{
    if spans.len() == 0 {
        Seq::empty()
    } else if has_pattern(spans.last(), pattern) {
        pattern_ids(spans.drop_last(), pattern).push(spans.last().span_id@)
    } else {
        pattern_ids(spans.drop_last(), pattern)
    }
}

/// How often a trace runs a query with the given pattern.
pub open spec fn pattern_count(spans: Seq<SpanDisplay>, pattern: Seq<char>) -> nat {
    pattern_ids(spans, pattern).len()
}

/// The time that the queries with the given pattern take together.
pub open spec fn pattern_total(spans: Seq<SpanDisplay>, pattern: Seq<char>) -> int
    decreases spans.len(),
{
    if spans.len() == 0 {
        0
    } else if has_pattern(spans.last(), pattern) {
        pattern_total(spans.drop_last(), pattern) + spans.last().duration_ns
    } else {
        pattern_total(spans.drop_last(), pattern)
    }
}

/// The index of the first span that runs a query with the given pattern, where there is
/// one.
pub open spec fn first_occurrence(spans: Seq<SpanDisplay>, pattern: Seq<char>) -> int
    decreases spans.len(),
{
    if spans.len() == 0 {
        0
    } else if pattern_count(spans.drop_last(), pattern) > 0 {
        first_occurrence(spans.drop_last(), pattern)
    } else {
        spans.len() - 1
    }
}

/// Whether an issue reports what the trace holds of its pattern: how many queries, which
/// spans, and how long together.
pub open spec fn issue_describes(issue: NPlus1Issue, spans: Seq<SpanDisplay>) -> bool {
    &&& issue.count == pattern_count(spans, issue.pattern@)
    &&& texts(issue.span_ids@) == pattern_ids(spans, issue.pattern@)
    &&& issue.total_duration_ns == pattern_total(spans, issue.pattern@)
}

/// Whether the duration of every span is at most 2^62 nanoseconds either way, so that the
/// durations of any number of spans add up within 128 bits.
pub open spec fn durations_fit(spans: Seq<SpanDisplay>) -> bool {
    forall|i: int|
        0 <= i < spans.len() ==> -0x4000_0000_0000_0000 <= (#[trigger] spans[i]).duration_ns
            <= 0x4000_0000_0000_0000
}

/// Whether `groups` report every pattern of `spans`, each once, in the order in which the
/// patterns first occur.
pub open spec fn groups_describe(groups: Seq<NPlus1Issue>, spans: Seq<SpanDisplay>) -> bool {
    &&& forall|g: int|
        0 <= g < groups.len() ==> issue_describes(#[trigger] groups[g], spans) && groups[g].count
            >= 1
    &&& forall|pattern: Seq<char>|
        #[trigger] pattern_count(spans, pattern) > 0 ==> has_group(groups, pattern)
    &&& forall|a: int, b: int|
        0 <= a < b < groups.len() ==> first_occurrence(spans, (#[trigger] groups[a]).pattern@)
            < first_occurrence(spans, (#[trigger] groups[b]).pattern@)
}

/// Whether one of the groups has the given pattern.
pub open spec fn has_group(groups: Seq<NPlus1Issue>, pattern: Seq<char>) -> bool {
    exists|g: int| 0 <= g < groups.len() && (#[trigger] groups[g]).pattern@ == pattern
}

/// The spans of a pattern are at most all spans, their time together is within 2^62
/// nanoseconds each, and the first of them is a span of the trace.
proof fn lemma_pattern_bounds(spans: Seq<SpanDisplay>, pattern: Seq<char>)
    requires
        durations_fit(spans),
    ensures
        pattern_count(spans, pattern) <= spans.len(),
        -0x4000_0000_0000_0000 * pattern_count(spans, pattern) <= pattern_total(spans, pattern)
            <= 0x4000_0000_0000_0000 * pattern_count(spans, pattern),
        pattern_count(spans, pattern) > 0 ==> 0 <= first_occurrence(spans, pattern)
            < spans.len(),
    decreases spans.len(),
{
    if spans.len() > 0 {
        let rest = spans.drop_last();
        lemma_pattern_bounds(rest, pattern);
    }
}

/// The index of the group with the given pattern.
fn find_group(groups: &Vec<NPlus1Issue>, pattern: &str) -> (r: Option<usize>)
    ensures
        match r {
            Some(g) => g < groups.len() && groups[g as int].pattern@ == pattern@,
            None => !has_group(groups@, pattern@),
        },
{
    let mut g: usize = 0;
    while g < groups.len()
        invariant
            g <= groups.len(),
            forall|k: int| 0 <= k < g ==> (#[trigger] groups[k]).pattern@ != pattern@,
        decreases groups.len() - g,
    {
        if str_eq(groups[g].pattern.as_str(), pattern) {
            return Some(g);
        }
        g += 1;
    }
    None
}

/// The query patterns of a trace, each with its count, its spans and its time, in the order
/// in which they first occur.
pub fn group_queries(spans: &[SpanDisplay]) -> (groups: Vec<NPlus1Issue>)
    requires
        durations_fit(spans@),
    ensures
        groups_describe(groups@, spans@),
{
    let mut groups: Vec<NPlus1Issue> = Vec::new();
    let mut i: usize = 0;
    while i < spans.len()
        invariant
            i <= spans.len(),
            durations_fit(spans@),
            groups_describe(groups@, spans@.take(i as int)),
        decreases spans.len() - i,
    {
        let ghost before = spans@.take(i as int);
        let ghost after = spans@.take(i + 1);
        let ghost old_groups = groups@;
        proof {
            assert(after.drop_last() =~= before);
        }
        let span = &spans[i];
        let query: Option<&String> = match span.category {
            SpanCategory::Db => match &span.db_statement {
                Some(statement) => Some(statement),
                None => None,
            },
            _ => None,
        };
        if let Some(statement) = query {
            let pattern = normalize_sql(statement.as_str());
            match find_group(&groups, pattern.as_str()) {
                Some(g) => {
                    let mut group = groups.remove(g);
                    proof {
                        lemma_pattern_bounds(before, pattern@);
                    }
                    let ghost old_ids = group.span_ids@;
                    group.count = group.count + 1;
                    group.total_duration_ns = group.total_duration_ns + span.duration_ns;
                    let id = span.span_id.clone();
                    group.span_ids.push(id);
                    proof {
                        assert(texts(group.span_ids@) =~= texts(old_ids).push(id@));
                    }
                    groups.insert(g, group);
                    proof {
                        assert forall|p: Seq<char>| #[trigger]
                            pattern_count(after, p) > 0 implies has_group(groups@, p) by {
                            if p == pattern@ {
                                assert(groups[g as int].pattern@ == p);
                            } else {
                                assert(pattern_count(before, p) > 0);
                                let h = choose|h: int|
                                    0 <= h < old_groups.len() && (
                                    #[trigger] old_groups[h]).pattern@ == p;
                                assert(groups[h].pattern@ == p);
                            }
                        }
                    }
                },
                None => {
                    let id = span.span_id.clone();
                    let mut span_ids: Vec<String> = Vec::new();
                    span_ids.push(id);
                    let group = NPlus1Issue {
                        pattern,
                        count: 1,
                        total_duration_ns: span.duration_ns,
                        span_ids,
                    };
                    proof {
                        assert(texts(group.span_ids@) =~= seq![id@]);
                        lemma_pattern_none(before, group.pattern@);
                    }
                    groups.push(group);
                    proof {
                        assert forall|p: Seq<char>| #[trigger]
                            pattern_count(after, p) > 0 implies has_group(groups@, p) by {
                            if p == group.pattern@ {
                                assert(groups[old_groups.len() as int].pattern@ == p);
                            } else {
                                assert(pattern_count(before, p) > 0);
                                let h = choose|h: int|
                                    0 <= h < old_groups.len() && (
                                    #[trigger] old_groups[h]).pattern@ == p;
                                assert(groups[h].pattern@ == p);
                            }
                        }
                        assert forall|a: int, b: int| 0 <= a < b < groups.len() implies
                            first_occurrence(after, (#[trigger] groups[a]).pattern@)
                            < first_occurrence(after, (#[trigger] groups[b]).pattern@) by {
                            lemma_pattern_bounds(before, old_groups[a].pattern@);
                        }
                    }
                },
            }
        } else {
            proof {
                assert forall|p: Seq<char>| #[trigger] pattern_count(after, p) > 0 implies
                    has_group(groups@, p) by {
                    assert(pattern_count(before, p) > 0);
                }
            }
        }
        i += 1;
    }
    proof {
        assert(spans@.take(spans.len() as int) =~= spans@);
    }
    groups
}

/// A pattern that no span has has no ids and takes no time.
proof fn lemma_pattern_none(spans: Seq<SpanDisplay>, pattern: Seq<char>)
    requires
        pattern_count(spans, pattern) == 0,
    ensures
        pattern_ids(spans, pattern) =~= Seq::<Seq<char>>::empty(),
        pattern_total(spans, pattern) == 0,
    decreases spans.len(),
{
    if spans.len() > 0 {
        lemma_pattern_none(spans.drop_last(), pattern);
    }
}

/// Whether `issues` are the N+1 issues of a trace with the spans `spans`: one for each
/// query pattern that the trace runs five times or more, the most frequent first, and of
/// two that are equally frequent the one that the trace runs first.
pub open spec fn issues_describe(issues: Seq<NPlus1Issue>, spans: Seq<SpanDisplay>) -> bool {
    &&& forall|k: int|
        0 <= k < issues.len() ==> issue_describes(#[trigger] issues[k], spans) && issues[k].count
            >= N_PLUS_1_THRESHOLD
    &&& forall|pattern: Seq<char>|
        #[trigger] pattern_count(spans, pattern) >= N_PLUS_1_THRESHOLD ==> has_group(
            issues,
            pattern,
        )
    &&& forall|a: int, b: int|
        0 <= a < b < issues.len() ==> (#[trigger] issues[a]).count >= (#[trigger] issues[b]).count
    &&& forall|a: int, b: int|
        0 <= a < b < issues.len() && (#[trigger] issues[a]).count == (#[trigger] issues[b]).count
            ==> first_occurrence(spans, issues[a].pattern@) < first_occurrence(
            spans,
            issues[b].pattern@,
        )
}

/// The issues among the query patterns of a trace: the patterns that occur five times or
/// more, the most frequent first.
fn issues_of_groups(groups: &Vec<NPlus1Issue>, Ghost(spans): Ghost<Seq<SpanDisplay>>) -> (issues:
    Vec<NPlus1Issue>)
    requires
        groups_describe(groups@, spans),
    ensures
        issues_describe(issues@, spans),
{
    let mut keys: Vec<i128> = Vec::new();
    let mut g: usize = 0;
    while g < groups.len()
        invariant
            g <= groups.len(),
            keys.len() == g,
            forall|k: int| 0 <= k < g ==> #[trigger] keys[k] == groups[k].count,
        decreases groups.len() - g,
    {
        keys.push(groups[g].count as i128);
        g += 1;
    }
    let order = descending_order(&keys);
    let mut issues: Vec<NPlus1Issue> = Vec::new();
    let mut m: usize = 0;
    while m < order.len() && groups[order[m]].count >= N_PLUS_1_THRESHOLD
        invariant
            m <= order.len(),
            keys.len() == groups.len(),
            forall|k: int| 0 <= k < groups.len() ==> #[trigger] keys[k] == groups[k].count,
            is_descending_order(keys@, order@),
            groups_describe(groups@, spans),
            issues.len() == m,
            forall|k: int|
                0 <= k < m ==> {
                    &&& (#[trigger] issues[k]).pattern@ == groups[order[k] as int].pattern@
                    &&& issues[k].count == groups[order[k] as int].count
                    &&& issues[k].total_duration_ns == groups[order[k] as int].total_duration_ns
                    &&& issues[k].span_ids@ == groups[order[k] as int].span_ids@
                    &&& issues[k].count >= N_PLUS_1_THRESHOLD
                },
        decreases order.len() - m,
    {
        let group = &groups[order[m]];
        issues.push(
            NPlus1Issue {
                pattern: group.pattern.clone(),
                count: group.count,
                total_duration_ns: group.total_duration_ns,
                span_ids: copy_strings(&group.span_ids),
            },
        );
        m += 1;
    }
    proof {
        assert forall|pattern: Seq<char>| #[trigger]
            pattern_count(spans, pattern) >= N_PLUS_1_THRESHOLD implies has_group(
            issues@,
            pattern,
        ) by {
            let h = choose|h: int| 0 <= h < groups.len() && (#[trigger] groups[h]).pattern@
                == pattern;
            assert(lists(order@, h));
            let a = choose|a: int| is_place_of(order@, a, h);
            assert(issues[a].pattern@ == pattern);
        }
    }
    issues
}

/// The N+1 issues of a trace.
pub fn detect_n_plus_1(spans: &[SpanDisplay]) -> (issues: Vec<NPlus1Issue>)
    requires
        durations_fit(spans@),
    ensures
        issues_describe(issues@, spans@),
{
    let groups = group_queries(spans);
    issues_of_groups(&groups, Ghost(spans@))
}

/// Whether the duration of every span is at most 2^62 nanoseconds either way.
pub fn durations_in_range(spans: &[SpanDisplay]) -> (ok: bool)
    ensures
        ok == durations_fit(spans@),
{
    let mut i: usize = 0;
    while i < spans.len()
        invariant
            i <= spans.len(),
            forall|k: int|
                0 <= k < i ==> -0x4000_0000_0000_0000 <= (#[trigger] spans@[k]).duration_ns
                    <= 0x4000_0000_0000_0000,
        decreases spans.len() - i,
    {
        let d = spans[i].duration_ns;
        if d < -0x4000_0000_0000_0000 || d > 0x4000_0000_0000_0000 {
            return false;
        }
        i += 1;
    }
    true
}

/// The N+1 issues of a trace, and `None` for a trace with a span that lasts longer than
/// 2^62 nanoseconds: the durations of such spans cannot be added up safely.
pub fn try_detect_n_plus_1(spans: &[SpanDisplay]) -> (issues: Option<Vec<NPlus1Issue>>)
    ensures
        match issues {
            Some(list) => durations_fit(spans@) && issues_describe(list@, spans@),
            None => !durations_fit(spans@),
        },
{
    if durations_in_range(spans) {
        Some(detect_n_plus_1(spans))
    } else {
        None
    }
}

/// A pattern with fewer than five occurrences in a trace is no issue, and one with five
/// or more is.
pub proof fn lemma_threshold(issues: Seq<NPlus1Issue>, spans: Seq<SpanDisplay>, pattern: Seq<char>)
    requires
        issues_describe(issues, spans),
    ensures
        has_group(issues, pattern) <==> pattern_count(spans, pattern) >= N_PLUS_1_THRESHOLD,
{
}

} // verus!
