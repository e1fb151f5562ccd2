use miniapm::category::RootSpanType;
use miniapm::summary::{path_of_url, TraceSummary};

fn make_trace_summary(
    root_span_name: &str,
    http_method: Option<&str>,
    http_url: Option<&str>,
    http_status_code: Option<i32>,
    status_code: i32,
) -> TraceSummary {
    TraceSummary {
        trace_id: "abc123".to_string(),
        root_span_name: root_span_name.to_string(),
        root_span_type: Some(RootSpanType::Web),
        duration_ns: 100_000_000,
        span_count: 5,
        status_code,
        service_name: None,
        http_method: http_method.map(|s| s.to_string()),
        http_url: http_url.map(|s| s.to_string()),
        http_status_code,
        happened_at: "2024-01-01 12:00".to_string(),
    }
}

#[test]
fn span_test_display_name_with_full_url() {
    let trace = make_trace_summary(
        "GET /users",
        Some("GET"),
        Some("https://example.com/users"),
        Some(200),
        1,
    );
    assert_eq!(trace.display_name(), "GET /users");
}

#[test]
fn span_test_display_name_with_path_only() {
    let trace = make_trace_summary("GET /orders", Some("GET"), Some("/orders"), Some(200), 1);
    assert_eq!(trace.display_name(), "GET /orders");
}

#[test]
fn span_test_display_name_extracts_from_span_name() {
    let trace = make_trace_summary("POST /api/items", Some("POST"), None, Some(201), 1);
    assert_eq!(trace.display_name(), "POST /api/items");
}

#[test]
fn span_test_display_name_job_without_http() {
    let trace = TraceSummary {
        trace_id: "abc123".to_string(),
        root_span_name: "OrderMailer.confirmation_email".to_string(),
        root_span_type: Some(RootSpanType::Job),
        duration_ns: 100_000_000,
        span_count: 5,
        status_code: 1,
        service_name: None,
        http_method: None,
        http_url: None,
        http_status_code: None,
        happened_at: "2024-01-01 12:00".to_string(),
    };
    assert_eq!(trace.display_name(), "OrderMailer.confirmation_email");
}

#[test]
fn span_test_status_class_success() {
    let trace = make_trace_summary("GET /", Some("GET"), None, Some(200), 1);
    assert_eq!(trace.status_class(), "status-ok");
}

#[test]
fn span_test_status_class_client_error() {
    let trace = make_trace_summary("GET /", Some("GET"), None, Some(404), 1);
    assert_eq!(trace.status_class(), "status-warning");
}

#[test]
fn span_test_status_class_server_error() {
    let trace = make_trace_summary("GET /", Some("GET"), None, Some(500), 2);
    assert_eq!(trace.status_class(), "status-error");
}

#[test]
fn span_test_status_class_otlp_error() {
    let trace = make_trace_summary("process", None, None, None, 2);
    assert_eq!(trace.status_class(), "status-error");
}

#[test]
fn span_test_status_class_ok_without_http() {
    let trace = make_trace_summary("process", None, None, None, 1);
    assert_eq!(trace.status_class(), "status-ok");
}

#[test]
fn span_test_status_label_http_code() {
    let trace = make_trace_summary("GET /", Some("GET"), None, Some(201), 1);
    assert_eq!(trace.status_label(), "201");
}

#[test]
fn span_test_status_label_error() {
    let trace = make_trace_summary("process", None, None, None, 2);
    assert_eq!(trace.status_label(), "Error");
}

#[test]
fn span_test_status_label_ok() {
    let trace = make_trace_summary("process", None, None, None, 1);
    assert_eq!(trace.status_label(), "OK");
}

#[test]
fn display_name_falls_back_to_the_span_name() {
    // An address without a path, or with neither scheme nor slash, gives no path.
    let trace = make_trace_summary("GET /a", Some("GET"), Some("https://example.com"), None, 0);
    assert_eq!(trace.display_name(), "GET /a");
    let trace = make_trace_summary("GET   /a  ", Some("GET"), Some("example.com/x"), None, 0);
    assert_eq!(trace.display_name(), "GET /a");
    // A name that does not begin with the method is shown whole.
    let trace = make_trace_summary("UsersController#index", Some("GET"), None, None, 0);
    assert_eq!(trace.display_name(), "GET UsersController#index");
    let trace = make_trace_summary("GET", Some("GET"), None, None, 0);
    assert_eq!(trace.display_name(), "GET ");
    let trace = make_trace_summary("x", Some(""), None, None, 0);
    assert_eq!(trace.display_name(), " x");
}

#[test]
fn paths_of_urls() {
    assert_eq!(path_of_url("https://example.com/users"), Some("/users".to_string()));
    assert_eq!(path_of_url("http://h/a/b?c=d"), Some("/a/b?c=d".to_string()));
    assert_eq!(path_of_url("http://h/"), Some("/".to_string()));
    assert_eq!(path_of_url("http://h"), None);
    assert_eq!(path_of_url("/orders"), Some("/orders".to_string()));
    assert_eq!(path_of_url("orders"), None);
    assert_eq!(path_of_url(""), None);
    assert_eq!(path_of_url("://"), None);
    // The first `://` counts, and the first slash behind it.
    assert_eq!(path_of_url("/a://b/c"), Some("/c".to_string()));
    assert_eq!(path_of_url("a://b://c/d"), Some("//c/d".to_string()));
}

#[test]
fn status_classes_and_labels_at_the_borders() {
    let class = |http: Option<i32>, status: i32| {
        make_trace_summary("x", None, None, http, status).status_class()
    };
    assert_eq!(class(Some(499), 2), "status-warning");
    assert_eq!(class(Some(400), 0), "status-warning");
    assert_eq!(class(Some(399), 2), "status-ok");
    assert_eq!(class(Some(599), 0), "status-error");
    assert_eq!(class(Some(-1), 2), "status-ok");
    assert_eq!(class(None, 0), "status-ok");
    assert_eq!(class(None, 3), "status-ok");
    let label = |http: Option<i32>, status: i32| {
        make_trace_summary("x", None, None, http, status).status_label()
    };
    assert_eq!(label(Some(0), 2), "0");
    assert_eq!(label(Some(-404), 2), "-404");
    assert_eq!(label(Some(i32::MAX), 0), "2147483647");
    assert_eq!(label(Some(i32::MIN), 0), "-2147483648");
    assert_eq!(label(None, 0), "OK");
}

#[test]
fn duration_in_whole_milliseconds() {
    let mut trace = make_trace_summary("x", None, None, None, 0);
    assert_eq!(trace.duration_ms_rounded(), 100);
    trace.duration_ns = 1_499_999;
    assert_eq!(trace.duration_ms_rounded(), 1);
    trace.duration_ns = 1_500_000;
    assert_eq!(trace.duration_ms_rounded(), 2);
}
