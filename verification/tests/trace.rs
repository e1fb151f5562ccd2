use miniapm::category::SpanCategory;
use miniapm::nplus1::{detect_n_plus_1, durations_in_range, group_queries, try_detect_n_plus_1};
use miniapm::trace::{get_trace, Share, SpanDisplay, SpanRecord};

const MS: i64 = 1_000_000;

fn record(id: i64, span_id: &str, parent: Option<&str>, start_ms: i64, duration_ms: i64) -> SpanRecord {
    SpanRecord {
        id,
        span_id: span_id.to_string(),
        parent_span_id: parent.map(|p| p.to_string()),
        name: format!("span {}", span_id),
        category: "internal".to_string(),
        start_time_unix_nano: 1_700_000_000_000_000_000 + start_ms * MS,
        end_time_unix_nano: 1_700_000_000_000_000_000 + (start_ms + duration_ms) * MS,
        status_code: 0,
        http_method: None,
        http_status_code: None,
        db_operation: None,
        db_system: None,
        db_statement: None,
    }
}

fn percent(share: Share) -> f64 {
    100.0 * share.numerator as f64 / share.denominator as f64
}

fn depths(records: &Vec<SpanRecord>) -> Vec<usize> {
    get_trace("t", records).unwrap().spans.iter().map(|s| s.depth).collect()
}

#[test]
fn waterfall_of_three_nested_spans() {
    let records = vec![
        record(1, "root", None, 0, 100),
        record(2, "a", Some("root"), 10, 30),
        record(3, "b", Some("a"), 50, 20),
    ];
    let detail = get_trace("trace-1", &records).unwrap();
    assert_eq!(detail.trace_id, "trace-1");
    assert_eq!(detail.total_duration_ns, 100 * MS as i128);
    assert_eq!(detail.spans.len(), 3);
    assert_eq!(detail.spans.iter().map(|s| s.depth).collect::<Vec<_>>(), vec![0, 1, 2]);
    assert_eq!(detail.root_index, Some(0));
    let (root, a, b) = (&detail.spans[0], &detail.spans[1], &detail.spans[2]);
    assert_eq!(percent(root.offset_share), 0.0);
    assert_eq!(percent(root.width_share), 100.0);
    assert_eq!(a.offset_ns, 10 * MS as i128);
    assert_eq!(a.duration_ns, 30 * MS as i128);
    assert_eq!(percent(a.offset_share), 10.0);
    assert_eq!(percent(a.width_share), 30.0);
    assert_eq!(percent(b.offset_share), 50.0);
    assert_eq!(percent(b.width_share), 20.0);
    assert_eq!(a.span_id, "a");
    assert_eq!(a.parent_span_id, Some("root".to_string()));
    assert_eq!(a.id, 2);
    assert_eq!(a.name, "span a");
    assert_eq!(a.category, SpanCategory::Internal);
}

#[test]
fn a_trace_without_spans_does_not_exist() {
    assert!(get_trace("t", &vec![]).is_none());
}

#[test]
fn a_trace_without_duration() {
    let records = vec![record(1, "only", None, 5, 0)];
    let detail = get_trace("t", &records).unwrap();
    assert_eq!(detail.total_duration_ns, 0);
    assert_eq!(detail.spans[0].offset_share, Share { numerator: 0, denominator: 1 });
    assert_eq!(detail.spans[0].width_share, Share { numerator: 1, denominator: 1 });
    assert_eq!(percent(detail.spans[0].offset_share), 0.0);
    assert_eq!(percent(detail.spans[0].width_share), 100.0);
}

#[test]
fn the_trace_lasts_from_the_first_start_to_the_last_end() {
    let records = vec![
        record(1, "late", None, 40, 100),
        record(2, "early", None, 0, 10),
        record(3, "long", None, 5, 500),
    ];
    let detail = get_trace("t", &records).unwrap();
    assert_eq!(detail.total_duration_ns, 505 * MS as i128);
    assert_eq!(detail.spans[0].offset_ns, 40 * MS as i128);
    assert_eq!(detail.spans[1].offset_ns, 0);
    // Extreme instants do not overflow.
    let mut wide = vec![record(1, "a", None, 0, 0), record(2, "b", None, 0, 0)];
    wide[0].start_time_unix_nano = i64::MIN;
    wide[0].end_time_unix_nano = i64::MIN;
    wide[1].start_time_unix_nano = i64::MAX;
    wide[1].end_time_unix_nano = i64::MAX;
    let detail = get_trace("t", &wide).unwrap();
    assert_eq!(detail.total_duration_ns, u64::MAX as i128);
    assert_eq!(detail.spans[1].offset_ns, u64::MAX as i128);
}

#[test]
fn depth_is_one_more_than_the_depth_of_the_parent() {
    // Children may come before their parents.
    let records = vec![
        record(1, "c", Some("b"), 0, 1),
        record(2, "b", Some("a"), 0, 1),
        record(3, "a", None, 0, 1),
        record(4, "d", Some("a"), 0, 1),
        record(5, "e", Some("c"), 0, 1),
    ];
    assert_eq!(depths(&records), vec![2, 1, 0, 1, 3]);
}

#[test]
fn a_span_whose_parent_is_not_in_the_trace_has_depth_zero() {
    let records = vec![
        record(1, "orphan", Some("elsewhere"), 0, 1),
        record(2, "child", Some("orphan"), 0, 1),
        record(3, "empty-parent", Some(""), 0, 1),
    ];
    assert_eq!(depths(&records), vec![0, 1, 0]);
}

#[test]
fn a_cycle_is_cut_off() {
    let records = vec![
        record(1, "a", Some("b"), 0, 1),
        record(2, "b", Some("a"), 0, 1),
        record(3, "self", Some("self"), 0, 1),
        record(4, "root", None, 0, 1),
    ];
    let detail = get_trace("t", &records).unwrap();
    assert_eq!(detail.spans.iter().map(|s| s.depth).collect::<Vec<_>>(), vec![4, 4, 4, 0]);
    assert_eq!(detail.root_index, Some(3));
    let records = vec![record(1, "self", Some("self"), 0, 1)];
    let detail = get_trace("t", &records).unwrap();
    assert_eq!(detail.spans[0].depth, 1);
    assert_eq!(detail.root_index, None);
}

#[test]
fn the_root_is_the_earliest_span_of_depth_zero() {
    let records = vec![
        record(1, "child", Some("r2"), 0, 1),
        record(2, "r2", None, 20, 1),
        record(3, "r1", None, 10, 1),
        record(4, "r3", None, 10, 1),
        record(5, "r0", None, 10, 1),
    ];
    let detail = get_trace("t", &records).unwrap();
    // Of the roots that start together, the one with the smallest span id.
    assert_eq!(detail.root_index, Some(4));
    let records = vec![record(1, "b", None, 0, 1), record(2, "a", None, 0, 1)];
    assert_eq!(get_trace("t", &records).unwrap().root_index, Some(1));
    let records = vec![record(1, "ab", None, 0, 1), record(2, "a", None, 0, 1)];
    assert_eq!(get_trace("t", &records).unwrap().root_index, Some(1));
    let records = vec![record(1, "same", None, 0, 1), record(2, "same", None, 0, 1)];
    assert_eq!(get_trace("t", &records).unwrap().root_index, Some(0));
}

#[test]
fn stored_fields_are_shown_as_they_are() {
    let mut r = record(9, "q", None, 0, 3);
    r.category = "db".to_string();
    r.status_code = 2;
    r.http_method = Some("GET".to_string());
    r.http_status_code = Some(500);
    r.db_operation = Some("SELECT".to_string());
    r.db_system = Some("postgresql".to_string());
    r.db_statement = Some("SELECT 1".to_string());
    let detail = get_trace("t", &vec![r]).unwrap();
    let d = &detail.spans[0];
    assert_eq!(d.category, SpanCategory::Db);
    assert_eq!(d.status_code, 2);
    assert_eq!(d.http_method, Some("GET".to_string()));
    assert_eq!(d.http_status_code, Some(500));
    assert_eq!(d.db_operation, Some("SELECT".to_string()));
    assert_eq!(d.db_system, Some("postgresql".to_string()));
    assert_eq!(d.db_statement, Some("SELECT 1".to_string()));
    let mut r = record(9, "q", None, 0, 3);
    r.category = "no such category".to_string();
    assert_eq!(get_trace("t", &vec![r]).unwrap().spans[0].category, SpanCategory::Internal);
}

fn query(span_id: &str, statement: &str, duration_ms: i128) -> SpanDisplay {
    SpanDisplay {
        id: 0,
        span_id: span_id.to_string(),
        parent_span_id: None,
        name: "query".to_string(),
        category: SpanCategory::Db,
        duration_ns: duration_ms * MS as i128,
        offset_ns: 0,
        offset_share: Share { numerator: 0, denominator: 1 },
        width_share: Share { numerator: 1, denominator: 1 },
        depth: 1,
        status_code: 0,
        http_method: None,
        http_status_code: None,
        db_operation: None,
        db_system: None,
        db_statement: Some(statement.to_string()),
    }
}

#[test]
fn six_queries_that_differ_by_their_values_are_one_issue() {
    let spans: Vec<SpanDisplay> = (1..=6)
        .map(|i| query(&format!("s{}", i), &format!("SELECT * FROM users WHERE id = {}", i), i))
        .collect();
    let issues = detect_n_plus_1(&spans);
    assert_eq!(issues.len(), 1);
    assert_eq!(issues[0].count, 6);
    assert_eq!(issues[0].pattern, "SELECT * FROM users WHERE id = ?");
    assert_eq!(issues[0].total_duration_ns, 21 * MS as i128);
    assert_eq!(issues[0].span_ids, vec!["s1", "s2", "s3", "s4", "s5", "s6"]);
}

#[test]
fn the_threshold_is_five() {
    let spans: Vec<SpanDisplay> =
        (1..=4).map(|i| query(&format!("s{}", i), &format!("SELECT {}", i), 1)).collect();
    assert!(detect_n_plus_1(&spans).is_empty());
    assert_eq!(group_queries(&spans).len(), 1);
    assert_eq!(group_queries(&spans)[0].count, 4);
    let spans: Vec<SpanDisplay> =
        (1..=5).map(|i| query(&format!("s{}", i), &format!("SELECT {}", i), 1)).collect();
    let issues = detect_n_plus_1(&spans);
    assert_eq!(issues.len(), 1);
    assert_eq!(issues[0].count, 5);
    assert!(detect_n_plus_1(&[]).is_empty());
}

#[test]
fn only_database_spans_with_a_statement_count() {
    let mut spans: Vec<SpanDisplay> = (1..=6).map(|i| query(&format!("s{}", i), "SELECT 1", 1)).collect();
    spans[0].category = SpanCategory::Search;
    spans[1].db_statement = None;
    let issues = detect_n_plus_1(&spans);
    assert!(issues.is_empty());
    spans[0].category = SpanCategory::Db;
    let issues = detect_n_plus_1(&spans);
    assert_eq!(issues.len(), 1);
    assert_eq!(issues[0].span_ids, vec!["s1", "s3", "s4", "s5", "s6"]);
}

#[test]
fn issues_are_listed_by_count() {
    let mut spans: Vec<SpanDisplay> = Vec::new();
    for i in 0..5 {
        spans.push(query(&format!("a{}", i), &format!("SELECT a FROM t WHERE x = {}", i), 2));
    }
    for i in 0..7 {
        spans.push(query(&format!("b{}", i), &format!("SELECT b FROM t WHERE x = '{}'", i), 1));
    }
    for i in 0..3 {
        spans.push(query(&format!("c{}", i), &format!("SELECT c FROM t WHERE x = {}", i), 1));
    }
    for i in 0..5 {
        spans.push(query(&format!("d{}", i), &format!("SELECT d  FROM t\nWHERE x = {}", i), 1));
    }
    spans.push(query("a5", "SELECT a FROM t WHERE x = 99", -1));
    let issues = detect_n_plus_1(&spans);
    let listed: Vec<(&str, usize)> = issues.iter().map(|i| (i.pattern.as_str(), i.count)).collect();
    assert_eq!(
        listed,
        vec![
            ("SELECT b FROM t WHERE x = ?", 7),
            ("SELECT a FROM t WHERE x = ?", 6),
            ("SELECT d FROM t WHERE x = ?", 5),
        ]
    );
    assert_eq!(issues[1].total_duration_ns, 9 * MS as i128);
    assert_eq!(issues[1].span_ids.last(), Some(&"a5".to_string()));
    // Patterns of the same count are listed in the order in which they first occur.
    let mut spans: Vec<SpanDisplay> = Vec::new();
    for i in 0..5 {
        spans.push(query("x", &format!("SELECT z {}", i), 1));
        spans.push(query("y", &format!("SELECT y {}", i), 1));
    }
    let issues = detect_n_plus_1(&spans);
    let listed: Vec<&str> = issues.iter().map(|i| i.pattern.as_str()).collect();
    assert_eq!(listed, vec!["SELECT z ?", "SELECT y ?"]);
}

#[test]
fn spans_that_last_too_long_are_not_added_up() {
    let limit: i128 = 1 << 62;
    let mut spans: Vec<SpanDisplay> = (1..=5).map(|i| query(&format!("s{}", i), "SELECT 1", 1)).collect();
    assert!(durations_in_range(&spans));
    assert_eq!(try_detect_n_plus_1(&spans).unwrap().len(), 1);
    spans[2].duration_ns = limit;
    assert!(durations_in_range(&spans));
    assert_eq!(try_detect_n_plus_1(&spans).unwrap()[0].total_duration_ns, limit + 4 * MS as i128);
    spans[2].duration_ns = -limit;
    assert!(durations_in_range(&spans));
    spans[2].duration_ns = limit + 1;
    assert!(!durations_in_range(&spans));
    assert!(try_detect_n_plus_1(&spans).is_none());
    spans[2].duration_ns = -limit - 1;
    assert!(try_detect_n_plus_1(&spans).is_none());
    assert!(durations_in_range(&[]));
}
