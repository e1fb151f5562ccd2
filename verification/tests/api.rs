use miniapm::api::{
    authorize, batch_status, bearer_token, ingest_status, page_window, period_start, ErrorSort,
    KeyLookup, PageWindow, TraceSort,
};
use miniapm::category::RootSpanType;
use miniapm::deploy::{new_deploy, IncomingDeploy};
use miniapm::failure::Failure;
use miniapm::listing::{max_requests, ErrorsQuery, RoutesQuery, TracesQuery};
use miniapm::mcp::{
    call_error, parse_failure, plan_tool_call, route_method, tool_names, McpMethod, ToolArguments,
    ToolCall,
};
use miniapm::project::ProjectContext;
use miniapm::routes::RouteSort;

const SECOND: i64 = 1_000_000_000;
const NOW: i64 = 1_700_000_000 * SECOND;

#[test]
fn bearer_tokens() {
    assert_eq!(bearer_token(Some("Bearer proj_abc")), Ok("proj_abc".to_string()));
    assert_eq!(bearer_token(Some("Bearer ")), Ok(String::new()));
    assert_eq!(bearer_token(Some("Bearer  x")), Ok(" x".to_string()));
    assert_eq!(bearer_token(None), Err(Failure::Unauthorized));
    assert_eq!(bearer_token(Some("Basic xyz")), Err(Failure::Unauthorized));
    assert_eq!(bearer_token(Some("bearer x")), Err(Failure::Unauthorized));
    assert_eq!(bearer_token(Some("Bearer")), Err(Failure::Unauthorized));
    assert_eq!(bearer_token(Some("")), Err(Failure::Unauthorized));
}

#[test]
fn only_the_key_of_a_project_lets_in() {
    assert_eq!(authorize(KeyLookup::Found(3)), Ok(ProjectContext { project_id: Some(3) }));
    assert_eq!(authorize(KeyLookup::Unknown), Err(Failure::Unauthorized));
    assert_eq!(authorize(KeyLookup::Failed), Err(Failure::StorageFailure));
    assert_eq!(Failure::Unauthorized.http_status(), Some(401));
    assert_eq!(Failure::StorageFailure.http_status(), Some(500));
    assert_eq!(Failure::InvalidBatch.http_status(), Some(500));
    assert_eq!(Failure::InvalidInput.http_status(), Some(400));
    assert_eq!(Failure::InvalidTimestamp.http_status(), Some(500));
    assert_eq!(Failure::NotFound.http_status(), None);
    assert_eq!(Failure::ExtractionFailure.http_status(), None);
}

#[test]
fn status_of_ingest_requests() {
    assert_eq!(ingest_status(true), 202);
    assert_eq!(ingest_status(false), 500);
    assert_eq!(batch_status(3, 0), 202);
    assert_eq!(batch_status(1, 2), 202);
    assert_eq!(batch_status(0, 2), 500);
    // An empty batch did not fail.
    assert_eq!(batch_status(0, 0), 202);
}

#[test]
fn pages() {
    assert_eq!(
        page_window(None, 0),
        PageWindow { page: 1, total_pages: 0, limit: 50, offset: 0 }
    );
    assert_eq!(
        page_window(Some(3), 101),
        PageWindow { page: 3, total_pages: 3, limit: 50, offset: 100 }
    );
    assert_eq!(page_window(Some(1), 50).total_pages, 1);
    assert_eq!(page_window(Some(1), 51).total_pages, 2);
    assert_eq!(page_window(Some(1), 1).total_pages, 1);
    assert_eq!(page_window(Some(0), 10).page, 1);
    assert_eq!(page_window(Some(-7), 10).page, 1);
    assert_eq!(page_window(Some(-7), 10).offset, 0);
    assert_eq!(page_window(Some(2), -10).total_pages, 0);
    assert_eq!(page_window(Some(1), i64::MAX).total_pages, 184_467_440_737_095_517);
    assert_eq!(page_window(Some(i64::MAX), 10).offset, i64::MAX);
    assert_eq!(page_window(Some(184_467_440_737_095_517), 10).offset, 9_223_372_036_854_775_800);
    assert_eq!(page_window(Some(184_467_440_737_095_518), 10).offset, i64::MAX);
}

#[test]
fn periods() {
    assert_eq!(period_start(NOW, "1h"), Some(NOW - 3600 * SECOND));
    assert_eq!(period_start(NOW, "24h"), Some(NOW - 86_400 * SECOND));
    assert_eq!(period_start(NOW, "7d"), Some(NOW - 7 * 86_400 * SECOND));
    assert_eq!(period_start(NOW, "30d"), Some(NOW - 30 * 86_400 * SECOND));
    assert_eq!(period_start(NOW, "all"), None);
    assert_eq!(period_start(NOW, ""), None);
    assert_eq!(period_start(NOW, "1H"), None);
}

#[test]
fn sort_orders() {
    assert_eq!(TraceSort::parse("duration"), TraceSort::Duration);
    assert_eq!(TraceSort::parse("spans"), TraceSort::Spans);
    assert_eq!(TraceSort::parse("recent"), TraceSort::Recent);
    assert_eq!(TraceSort::parse("anything"), TraceSort::Recent);
    assert_eq!(ErrorSort::parse("first_seen"), ErrorSort::FirstSeen);
    assert_eq!(ErrorSort::parse("count"), ErrorSort::Count);
    assert_eq!(ErrorSort::parse("last_seen"), ErrorSort::LastSeen);
    assert_eq!(ErrorSort::parse(""), ErrorSort::LastSeen);
    for (name, sort) in [
        ("avg", RouteSort::Avg),
        ("p95", RouteSort::P95),
        ("p99", RouteSort::P99),
        ("max", RouteSort::Max),
        ("db", RouteSort::Db),
        ("errors", RouteSort::Errors),
        ("requests", RouteSort::Requests),
        ("request_count", RouteSort::Requests),
        ("", RouteSort::Requests),
    ] {
        assert_eq!(RouteSort::parse(name), sort);
    }
}

#[test]
fn the_list_of_traces_that_a_query_asks_for() {
    let query = TracesQuery {
        root_type: None,
        search: None,
        period: None,
        min_duration: None,
        sort: None,
        page: None,
    };
    let listing = query.resolve(NOW);
    assert_eq!(listing.root_type, None);
    assert_eq!(listing.search, None);
    assert_eq!(listing.period, "all");
    assert_eq!(listing.min_duration, None);
    assert_eq!(listing.sort, TraceSort::Recent);
    assert_eq!(listing.page, 1);
    assert_eq!(listing.since, None);
    let query = TracesQuery {
        root_type: Some("job".to_string()),
        search: Some("".to_string()),
        period: Some("7d".to_string()),
        min_duration: Some("250".to_string()),
        sort: Some("duration".to_string()),
        page: Some(4),
    };
    let listing = query.resolve(NOW);
    assert_eq!(listing.root_type, Some(RootSpanType::Job));
    assert_eq!(listing.search, None);
    assert_eq!(listing.period, "7d");
    assert_eq!(listing.min_duration, Some("250".to_string()));
    assert_eq!(listing.sort, TraceSort::Duration);
    assert_eq!(listing.page, 4);
    assert_eq!(listing.since, Some("2023-11-07T22:13:20+00:00".to_string()));
    let query = TracesQuery { root_type: Some("nothing".to_string()), page: Some(0), ..query };
    assert_eq!(query.resolve(NOW).root_type, None);
    assert_eq!(query.resolve(NOW).page, 1);
}

#[test]
fn the_list_of_errors_and_of_routes_that_a_query_asks_for() {
    let query = ErrorsQuery {
        status: Some("open".to_string()),
        search: Some("User".to_string()),
        period: Some("1h".to_string()),
        sort: Some("count".to_string()),
        page: Some(2),
    };
    let listing = query.resolve(NOW);
    assert_eq!(listing.status, Some("open".to_string()));
    assert_eq!(listing.search, Some("User".to_string()));
    assert_eq!(listing.period, "1h");
    assert_eq!(listing.sort, ErrorSort::Count);
    assert_eq!(listing.page, 2);
    assert_eq!(listing.since, Some("2023-11-14T21:13:20+00:00".to_string()));
    let query = ErrorsQuery { status: None, search: None, period: None, sort: None, page: None };
    let listing = query.resolve(NOW);
    assert_eq!(listing.period, "all");
    assert_eq!(listing.sort, ErrorSort::LastSeen);
    assert_eq!(listing.since, None);

    let query = RoutesQuery { period: None, search: Some(String::new()), sort: None };
    let listing = query.resolve(NOW);
    assert_eq!(listing.period, "24h");
    assert_eq!(listing.search, None);
    assert_eq!(listing.sort, RouteSort::Requests);
    assert_eq!(listing.since, "2023-11-13T22:13:20+00:00");
    assert_eq!(listing.limit, 100);
    // The list of routes is never unbounded: an unknown period is a day.
    let query = RoutesQuery { period: Some("all".to_string()), search: None, sort: Some("p95".to_string()) };
    let listing = query.resolve(NOW);
    assert_eq!(listing.period, "all");
    assert_eq!(listing.sort, RouteSort::P95);
    assert_eq!(listing.since, "2023-11-13T22:13:20+00:00");
    let query = RoutesQuery { period: Some("30d".to_string()), search: None, sort: None };
    assert_eq!(query.resolve(NOW).since, "2023-10-15T22:13:20+00:00");
    assert_eq!(max_requests(&vec![]), 1);
    assert_eq!(max_requests(&vec![0]), 0);
    assert_eq!(max_requests(&vec![3, 9, 2]), 9);
}

#[test]
fn methods_of_the_tool_interface() {
    assert_eq!(route_method("initialize").ok(), Some(McpMethod::Initialize));
    assert_eq!(route_method("tools/list").ok(), Some(McpMethod::ListTools));
    assert_eq!(route_method("tools/call").ok(), Some(McpMethod::CallTool));
    let e = route_method("resources/list").err().unwrap();
    assert_eq!(e.code, -32603);
    assert_eq!(e.message, "Unknown method: resources/list");
    let e = parse_failure("expected value at line 1 column 1");
    assert_eq!(e.code, -32700);
    assert_eq!(e.message, "Parse error: expected value at line 1 column 1");
    assert_eq!(call_error("database is locked").code, -32603);
    assert_eq!(call_error("database is locked").message, "database is locked");
    assert_eq!(tool_names(), vec!["list_errors", "error_details", "slow_routes", "system_status"]);
}

fn arguments(name: Option<&str>) -> ToolArguments {
    ToolArguments {
        name: name.map(|n| n.to_string()),
        status: None,
        limit: None,
        id: None,
        period: None,
    }
}

#[test]
fn tool_calls() {
    let failure = |params: Option<ToolArguments>| {
        let e = plan_tool_call(&params, NOW).err().unwrap();
        assert_eq!(e.code, -32603);
        e.message
    };
    assert_eq!(failure(None), "Missing params");
    assert_eq!(failure(Some(arguments(None))), "Missing tool name");
    assert_eq!(failure(Some(arguments(Some("drop_tables")))), "Unknown tool: drop_tables");
    assert_eq!(failure(Some(arguments(Some("error_details")))), "Missing id");

    match plan_tool_call(&Some(arguments(Some("list_errors"))), NOW) {
        Ok(ToolCall::ListErrors { status, limit }) => {
            assert_eq!(status, None);
            assert_eq!(limit, 10);
        }
        other => panic!("unexpected: {:?}", other),
    }
    let args = ToolArguments {
        status: Some("open".to_string()),
        limit: Some(3),
        id: Some(12),
        period: Some("7d".to_string()),
        ..arguments(Some("list_errors"))
    };
    match plan_tool_call(&Some(args.clone()), NOW) {
        Ok(ToolCall::ListErrors { status, limit }) => {
            assert_eq!(status, Some("open".to_string()));
            assert_eq!(limit, 3);
        }
        other => panic!("unexpected: {:?}", other),
    }
    let args = ToolArguments { name: Some("error_details".to_string()), ..args };
    match plan_tool_call(&Some(args.clone()), NOW) {
        Ok(ToolCall::ErrorDetails { id, occurrences }) => {
            assert_eq!(id, 12);
            assert_eq!(occurrences, 5);
        }
        other => panic!("unexpected: {:?}", other),
    }
    let args = ToolArguments { name: Some("slow_routes".to_string()), ..args };
    match plan_tool_call(&Some(args.clone()), NOW) {
        Ok(ToolCall::SlowRoutes { since, limit }) => {
            assert_eq!(since, "2023-11-07T22:13:20+00:00");
            assert_eq!(limit, 3);
        }
        other => panic!("unexpected: {:?}", other),
    }
    let args = ToolArguments { period: Some("30d".to_string()), limit: None, ..args };
    match plan_tool_call(&Some(args.clone()), NOW) {
        Ok(ToolCall::SlowRoutes { since, limit }) => {
            assert_eq!(since, "2023-10-15T22:13:20+00:00");
            assert_eq!(limit, 10);
        }
        other => panic!("unexpected: {:?}", other),
    }
    for period in [None, Some("24h"), Some("1h"), Some("all")] {
        let args = ToolArguments { period: period.map(|p| p.to_string()), ..args.clone() };
        match plan_tool_call(&Some(args), NOW) {
            Ok(ToolCall::SlowRoutes { since, .. }) => assert_eq!(since, "2023-11-13T22:13:20+00:00"),
            other => panic!("unexpected: {:?}", other),
        }
    }
    match plan_tool_call(&Some(arguments(Some("system_status"))), NOW) {
        Ok(ToolCall::SystemStatus { since }) => assert_eq!(since, "2023-11-13T22:13:20+00:00"),
        other => panic!("unexpected: {:?}", other),
    }
}

#[test]
fn deploy_markers() {
    let incoming = IncomingDeploy {
        git_sha: "abc123".to_string(),
        version: Some("1.2.3".to_string()),
        env: None,
        description: Some("fix".to_string()),
        deployer: None,
        timestamp: None,
    };
    let deploy = new_deploy(&incoming, Some(2), NOW);
    assert_eq!(deploy.id, 0);
    assert_eq!(deploy.project_id, Some(2));
    assert_eq!(deploy.git_sha, "abc123");
    assert_eq!(deploy.version, Some("1.2.3".to_string()));
    assert_eq!(deploy.env, None);
    assert_eq!(deploy.description, Some("fix".to_string()));
    assert_eq!(deploy.deployer, None);
    assert_eq!(deploy.deployed_at, "2023-11-14T22:13:20+00:00");
    let incoming = IncomingDeploy { timestamp: Some("2020-01-01T00:00:00Z".to_string()), ..incoming };
    assert_eq!(new_deploy(&incoming, None, NOW).deployed_at, "2020-01-01T00:00:00Z");
}
