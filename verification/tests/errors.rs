use miniapm::errors::{
    begin_insert, decide_group, find_similar_error, occurrence_for, stored_context,
    ErrorCandidate, ErrorStatus, GroupDecision, IncomingError, IncomingSourceContext,
    SourceContext,
};
use miniapm::failure::Failure;
use miniapm::order::descending_order;
use miniapm::project::{
    find_project, format_api_key, generate_api_key, hash_key, slugify, slugify_lowered, Project,
    WebProjectContext,
};
use miniapm::routes::{
    mean_rounded, sort_routes, summarize_route, DbLoad, RootSample, RouteSort, RouteSummary,
};

const SECOND: i64 = 1_000_000_000;
const NOW: i64 = 1_700_000_000 * SECOND;
const MS: i64 = 1_000_000;

fn incoming(message: &str, fingerprint: &str) -> IncomingError {
    IncomingError {
        exception_class: "ActiveRecord::RecordNotFound".to_string(),
        message: message.to_string(),
        backtrace: vec![
            "/gems/activerecord-7.0.0/lib/core.rb:1:in `find'".to_string(),
            "app/models/user.rb:42:in `load'".to_string(),
        ],
        fingerprint: fingerprint.to_string(),
        request_id: Some("req-1".to_string()),
        user_id: None,
        params: Some("{\"id\":\"123\"}".to_string()),
        timestamp: None,
        source_context: None,
    }
}

fn candidate(id: i64, message: &str) -> ErrorCandidate {
    ErrorCandidate { id, message: message.to_string() }
}

#[test]
fn the_lookup_of_an_incoming_error() {
    let error = incoming("Couldn't find User with 'id'=123", "client-made");
    let lookup = begin_insert(&error, NOW);
    assert_eq!(lookup.caller_fingerprint, "client-made");
    assert_eq!(lookup.location_fingerprint, "ActiveRecord::RecordNotFound:app/models/user.rb:42");
    assert_eq!(lookup.timestamp, "2023-11-14T22:13:20+00:00");
    let error = IncomingError { timestamp: Some("2020-02-02T02:02:02Z".to_string()), ..error };
    assert_eq!(begin_insert(&error, NOW).timestamp, "2020-02-02T02:02:02Z");
}

#[test]
fn an_error_joins_the_group_with_its_fingerprint() {
    let error = incoming("Couldn't find User with 'id'=123", "f");
    let lookup = begin_insert(&error, NOW);
    let candidates = vec![candidate(8, "Couldn't find User with 'id'=456")];
    match decide_group(&error, Some(1), &lookup, Some(5), &candidates) {
        GroupDecision::Merge { id, last_seen_at } => {
            assert_eq!(id, 5);
            assert_eq!(last_seen_at, "2023-11-14T22:13:20+00:00");
        }
        other => panic!("unexpected: {:?}", other),
    }
}

#[test]
fn an_error_joins_the_first_similar_group_at_its_location() {
    let error = incoming("Couldn't find User with 'id'=123", "f");
    let lookup = begin_insert(&error, NOW);
    let candidates = vec![
        candidate(7, "PG::ConnectionBad: connection refused"),
        candidate(8, "Couldn't find User with 'id'=456"),
        candidate(9, "Couldn't find User with 'id'=123"),
    ];
    assert_eq!(find_similar_error(&candidates, &error.message), Some(8));
    match decide_group(&error, None, &lookup, None, &candidates) {
        GroupDecision::Merge { id, .. } => assert_eq!(id, 8),
        other => panic!("unexpected: {:?}", other),
    }
    assert_eq!(find_similar_error(&candidates[..1].to_vec(), &error.message), None);
    assert_eq!(find_similar_error(&vec![], &error.message), None);
}

#[test]
fn an_error_without_a_group_founds_one() {
    let error = incoming("Couldn't find User with 'id'=123", "f");
    let lookup = begin_insert(&error, NOW);
    let candidates = vec![candidate(7, "PG::ConnectionBad: connection refused")];
    match decide_group(&error, Some(4), &lookup, None, &candidates) {
        GroupDecision::Create(group) => {
            assert_eq!(group.project_id, Some(4));
            assert_eq!(group.fingerprint, "ActiveRecord::RecordNotFound:app/models/user.rb:42");
            assert_eq!(group.exception_class, "ActiveRecord::RecordNotFound");
            assert_eq!(group.message, "Couldn't find User with 'id'=123");
            assert_eq!(group.first_seen_at, "2023-11-14T22:13:20+00:00");
            assert_eq!(group.last_seen_at, "2023-11-14T22:13:20+00:00");
            assert_eq!(group.occurrence_count, 1);
            assert_eq!(group.status, "open");
        }
        other => panic!("unexpected: {:?}", other),
    }
}

#[test]
fn the_occurrence_of_an_error() {
    let mut error = incoming("m", "f");
    error.user_id = Some("u-1".to_string());
    error.source_context = Some(IncomingSourceContext {
        file: "app/models/user.rb".to_string(),
        lineno: 42,
        pre_context: Some(vec!["def load".to_string()]),
        context_line: "  find(id)".to_string(),
        post_context: None,
    });
    let lookup = begin_insert(&error, NOW);
    let occurrence = occurrence_for(&error, 17, &lookup);
    assert_eq!(occurrence.error_id, 17);
    assert_eq!(occurrence.request_id, Some("req-1".to_string()));
    assert_eq!(occurrence.user_id, Some("u-1".to_string()));
    assert_eq!(occurrence.backtrace, error.backtrace);
    assert_eq!(occurrence.params, Some("{\"id\":\"123\"}".to_string()));
    assert_eq!(occurrence.happened_at, "2023-11-14T22:13:20+00:00");
    let context = occurrence.source_context.unwrap();
    assert_eq!(context.file, "app/models/user.rb");
    assert_eq!(context.lineno, 42);
    assert_eq!(context.pre_context, vec!["def load".to_string()]);
    assert_eq!(context.context_line, "  find(id)");
    assert!(context.post_context.is_empty());
    let plain = stored_context(&IncomingSourceContext {
        file: "f".to_string(),
        lineno: 1,
        pre_context: None,
        context_line: "l".to_string(),
        post_context: Some(vec!["a".to_string(), "b".to_string()]),
    });
    assert!(plain.pre_context.is_empty());
    assert_eq!(plain.post_context, vec!["a".to_string(), "b".to_string()]);
}

#[test]
fn source_lines_with_their_numbers() {
    let context = SourceContext {
        file: "f.rb".to_string(),
        lineno: 10,
        pre_context: vec!["a".to_string(), "b".to_string(), "c".to_string()],
        context_line: "d".to_string(),
        post_context: vec!["e".to_string(), "f".to_string()],
    };
    assert_eq!(context.pre_context_with_lines(), vec![(7, "a"), (8, "b"), (9, "c")]);
    assert_eq!(context.post_context_with_lines(), vec![(11, "e"), (12, "f")]);
    let context = SourceContext { lineno: 1, pre_context: vec![], post_context: vec![], ..context };
    assert!(context.pre_context_with_lines().is_empty());
    assert!(context.post_context_with_lines().is_empty());
    let context = SourceContext {
        lineno: -1,
        pre_context: vec!["x".to_string()],
        post_context: vec!["y".to_string()],
        ..context
    };
    assert_eq!(context.pre_context_with_lines(), vec![(-2, "x")]);
    assert_eq!(context.post_context_with_lines(), vec![(0, "y")]);
}

#[test]
fn slugs() {
    assert_eq!(slugify("My Project"), "my-project");
    assert_eq!(slugify("  Hello,   World!  "), "hello-world");
    assert_eq!(slugify("already-a-slug"), "already-a-slug");
    assert_eq!(slugify("Über Café 2"), "über-café-2");
    assert_eq!(slugify("a_b"), "a-b");
    assert_eq!(slugify("---"), "");
    assert_eq!(slugify(""), "");
    assert_eq!(slugify("X"), "x");
    // The slug of a given lower-case form keeps upper case that it is given.
    assert_eq!(slugify_lowered("My Project"), "My-Project");
}

#[test]
fn api_keys() {
    assert_eq!(format_api_key(&[0, 1, 2, 254, 255]), "proj_000102feff");
    assert_eq!(format_api_key(&[]), "proj_");
    let key = generate_api_key();
    assert_eq!(key.len(), 53);
    assert!(key.starts_with("proj_"));
    assert!(key[5..].chars().all(|c| c.is_ascii_digit() || ('a'..='f').contains(&c)));
    assert_ne!(generate_api_key(), key);
    assert_eq!(
        hash_key("mini_apm_k_abc"),
        "cafe74027bcbf23cf51b991050e9a83ceb199643ff9dce5be390bc1b03a53329"
    );
}

fn project(id: i64, slug: &str) -> Project {
    Project {
        id,
        name: slug.to_uppercase(),
        slug: slug.to_string(),
        api_key: format!("proj_{}", id),
        created_at: "2024-01-01".to_string(),
    }
}

#[test]
fn the_project_of_a_page() {
    let projects = vec![project(1, "alpha"), project(2, "beta"), project(3, "beta")];
    assert_eq!(find_project(&projects, "beta"), Some(1));
    assert_eq!(find_project(&projects, "gamma"), None);
    let context = WebProjectContext::select(projects.clone(), Some("beta"));
    assert_eq!(context.project_id(), Some(2));
    assert!(context.is_current_project(&2));
    assert!(!context.is_current_project(&3));
    assert!(context.show_selector());
    assert_eq!(context.projects.len(), 3);
    assert_eq!(context.current_project.as_ref().unwrap().api_key, "proj_2");
    let context = WebProjectContext::select(projects.clone(), None);
    assert_eq!(context.project_id(), Some(1));
    let context = WebProjectContext::select(projects.clone(), Some("gone"));
    assert_eq!(context.project_id(), None);
    assert!(!context.is_current_project(&1));
    let context = WebProjectContext::select(vec![project(1, "alpha")], None);
    assert!(!context.show_selector());
    let context = WebProjectContext::select(vec![], None);
    assert_eq!(context.project_id(), None);
    let context = WebProjectContext::disabled();
    assert_eq!(context.project_id(), None);
    assert!(!context.show_selector());
    let context = WebProjectContext { projects_enabled: false, projects, current_project: None };
    assert!(!context.show_selector());
}

#[test]
fn the_order_of_keys() {
    assert_eq!(descending_order(&vec![]), Vec::<usize>::new());
    assert_eq!(descending_order(&vec![5]), vec![0]);
    assert_eq!(descending_order(&vec![1, 3, 2]), vec![1, 2, 0]);
    // Equal keys keep their order.
    assert_eq!(descending_order(&vec![2, 9, 2, 9, 2]), vec![1, 3, 0, 2, 4]);
    assert_eq!(descending_order(&vec![i128::MIN, i128::MAX, 0]), vec![1, 2, 0]);
}

fn sample(duration_ms: i64, status_code: i32, http: Option<i32>) -> RootSample {
    RootSample { duration_ns: duration_ms * MS, status_code, http_status_code: http }
}

#[test]
fn the_summary_of_a_route() {
    let samples: Vec<RootSample> = (1..=100)
        .map(|i| sample(i, if i % 50 == 0 { 2 } else { 1 }, if i % 10 == 0 { Some(500) } else { Some(200) }))
        .collect();
    let loads = vec![
        DbLoad { total_ns: 10 * MS, span_count: 3 },
        DbLoad { total_ns: 21 * MS, span_count: 4 },
    ];
    let summary = summarize_route("GET /users", "GET", &samples, &loads);
    assert_eq!(summary.path, "GET /users");
    assert_eq!(summary.method, "GET");
    assert_eq!(summary.request_count, 100);
    assert_eq!(summary.avg_ms, 51);
    assert_eq!(summary.p95_ms, 95);
    assert_eq!(summary.p99_ms, 99);
    assert_eq!(summary.max_ms, 100);
    assert_eq!(summary.min_ms, 1);
    assert_eq!(summary.error_count, 10);
    assert_eq!(summary.avg_db_ms, 16);
    assert_eq!(summary.avg_db_count, 4);
    let summary = summarize_route("p", "m", &vec![], &vec![]);
    assert_eq!(
        (summary.request_count, summary.avg_ms, summary.p95_ms, summary.p99_ms),
        (0, 0, 0, 0)
    );
    assert_eq!((summary.max_ms, summary.min_ms, summary.error_count), (0, 0, 0));
    assert_eq!((summary.avg_db_ms, summary.avg_db_count), (0, 0));
    // A request fails by the status of its span or by an HTTP status from 500 on.
    let samples = vec![
        sample(3, 2, None),
        sample(1, 0, Some(499)),
        sample(2, 0, Some(500)),
        sample(4, 2, Some(200)),
        sample(5, 1, None),
    ];
    let summary = summarize_route("p", "m", &samples, &vec![]);
    assert_eq!(summary.error_count, 3);
    assert_eq!((summary.min_ms, summary.max_ms), (1, 5));
    assert_eq!(mean_rounded(&vec![1, 2]), 2);
    assert_eq!(mean_rounded(&vec![1, 1, 2]), 1);
    assert_eq!(mean_rounded(&vec![-1, -2]), -2);
    assert_eq!(mean_rounded(&vec![i64::MAX, i64::MAX]), i64::MAX);
    assert_eq!(mean_rounded(&vec![i64::MIN, i64::MIN, i64::MIN]), i64::MIN);
    assert_eq!(mean_rounded(&vec![]), 0);
}

fn route(path: &str, requests: usize, avg: i64, p95: i64, errors: usize) -> RouteSummary {
    RouteSummary {
        path: path.to_string(),
        method: "GET".to_string(),
        request_count: requests,
        avg_ms: avg,
        p95_ms: p95,
        p99_ms: p95 + 1,
        max_ms: p95 + 2,
        min_ms: 1,
        avg_db_ms: avg / 2,
        avg_db_count: 1,
        error_count: errors,
    }
}

#[test]
fn routes_in_the_order_of_a_list() {
    let routes = vec![
        route("/a", 100, 20, 90, 0),
        route("/b", 50, 40, 60, 5),
        route("/c", 10, 40, 95, 5),
        route("/d", 5, 10, 60, 9),
    ];
    let paths = |sort: RouteSort| -> Vec<String> {
        sort_routes(&routes, sort).iter().map(|r| r.path.clone()).collect()
    };
    assert_eq!(paths(RouteSort::Requests), vec!["/a", "/b", "/c", "/d"]);
    assert_eq!(paths(RouteSort::Avg), vec!["/b", "/c", "/a", "/d"]);
    assert_eq!(paths(RouteSort::P95), vec!["/c", "/a", "/b", "/d"]);
    assert_eq!(paths(RouteSort::P99), vec!["/c", "/a", "/b", "/d"]);
    assert_eq!(paths(RouteSort::Max), vec!["/c", "/a", "/b", "/d"]);
    assert_eq!(paths(RouteSort::Db), vec!["/b", "/c", "/a", "/d"]);
    assert_eq!(paths(RouteSort::Errors), vec!["/d", "/b", "/c", "/a"]);
    let sorted = sort_routes(&routes, RouteSort::Errors);
    assert_eq!(sorted[0].request_count, 5);
    assert_eq!(sorted[0].avg_ms, 10);
    assert!(sort_routes(&vec![], RouteSort::Avg).is_empty());
}

#[test]
fn the_status_of_an_error_group() {
    for status in [ErrorStatus::Open, ErrorStatus::Resolved, ErrorStatus::Ignored] {
        assert_eq!(ErrorStatus::parse(status.as_str()), Some(status));
        assert_eq!(ErrorStatus::checked(status.as_str()), Ok(status));
    }
    assert_eq!(ErrorStatus::Open.as_str(), "open");
    assert_eq!(ErrorStatus::Resolved.as_str(), "resolved");
    assert_eq!(ErrorStatus::Ignored.as_str(), "ignored");
    assert_eq!(ErrorStatus::parse("closed"), None);
    assert_eq!(ErrorStatus::parse("Open"), None);
    assert_eq!(ErrorStatus::checked(""), Err(Failure::InvalidInput));
    assert_eq!(ErrorStatus::checked("deleted"), Err(Failure::InvalidInput));
}
