use miniapm::attributes::AttributeMap;
use miniapm::category::{RootSpanType, SpanCategory};

fn attrs_of(pairs: &[(&str, &str)]) -> AttributeMap {
    let mut attrs = AttributeMap::new();
    for (key, value) in pairs {
        attrs.insert(key.to_string(), value.to_string());
    }
    attrs
}

#[test]
fn span_test_span_category_db() {
    let attrs = attrs_of(&[("db.system", "postgresql")]);
    assert_eq!(
        SpanCategory::from_attributes("SELECT users", 0, &attrs),
        SpanCategory::Db
    );
}

#[test]
fn span_test_span_category_elasticsearch() {
    let attrs = attrs_of(&[("db.system", "elasticsearch")]);
    assert_eq!(
        SpanCategory::from_attributes("search", 0, &attrs),
        SpanCategory::Search
    );
}

#[test]
fn span_test_span_category_http_server() {
    let attrs = attrs_of(&[("http.method", "GET")]);
    assert_eq!(
        SpanCategory::from_attributes("GET /users", 2, &attrs),
        SpanCategory::HttpServer
    );
}

#[test]
fn span_test_span_category_http_client() {
    let attrs = attrs_of(&[("http.url", "https://api.example.com")]);
    assert_eq!(
        SpanCategory::from_attributes("HTTP GET", 3, &attrs),
        SpanCategory::HttpClient
    );
}

#[test]
fn span_test_span_category_job() {
    let attrs = attrs_of(&[("messaging.system", "sidekiq")]);
    assert_eq!(
        SpanCategory::from_attributes("MyJob.perform", 0, &attrs),
        SpanCategory::Job
    );
}

#[test]
fn span_test_span_category_command_rake() {
    let attrs = AttributeMap::new();
    assert_eq!(
        SpanCategory::from_attributes("rake db:migrate", 0, &attrs),
        SpanCategory::Command
    );
    assert_eq!(
        SpanCategory::from_attributes("rake:db:migrate", 0, &attrs),
        SpanCategory::Command
    );
}

#[test]
fn span_test_span_category_command_thor() {
    let attrs = AttributeMap::new();
    assert_eq!(
        SpanCategory::from_attributes("thor:generate:model", 0, &attrs),
        SpanCategory::Command
    );
}

#[test]
fn span_test_span_category_view() {
    let attrs = AttributeMap::new();
    assert_eq!(
        SpanCategory::from_attributes("render_template users/index.html.erb", 0, &attrs),
        SpanCategory::View
    );
    assert_eq!(
        SpanCategory::from_attributes("render_partial _header.html.erb", 0, &attrs),
        SpanCategory::View
    );
}

#[test]
fn span_test_span_category_roundtrip() {
    for category in [
        SpanCategory::HttpServer,
        SpanCategory::HttpClient,
        SpanCategory::Db,
        SpanCategory::View,
        SpanCategory::Search,
        SpanCategory::Job,
        SpanCategory::Command,
        SpanCategory::Internal,
    ] {
        assert_eq!(SpanCategory::parse(category.as_str()), category);
        assert_eq!(SpanCategory::from_str(category.as_str()), category);
    }
}

#[test]
fn span_test_root_span_type_from_category() {
    assert_eq!(
        RootSpanType::from_category(SpanCategory::HttpServer),
        Some(RootSpanType::Web)
    );
    assert_eq!(
        RootSpanType::from_category(SpanCategory::Job),
        Some(RootSpanType::Job)
    );
    assert_eq!(
        RootSpanType::from_category(SpanCategory::Command),
        Some(RootSpanType::Command)
    );
    assert_eq!(RootSpanType::from_category(SpanCategory::Db), None);
    assert_eq!(RootSpanType::from_category(SpanCategory::Internal), None);
}

#[test]
fn span_test_root_span_type_roundtrip() {
    for root_type in [RootSpanType::Web, RootSpanType::Job, RootSpanType::Command] {
        assert_eq!(RootSpanType::parse(root_type.as_str()), Some(root_type));
    }
    assert_eq!(RootSpanType::parse("invalid"), None);
}

#[test]
fn category_names_are_the_stored_names() {
    assert_eq!(SpanCategory::HttpServer.as_str(), "http_server");
    assert_eq!(SpanCategory::HttpClient.as_str(), "http_client");
    assert_eq!(SpanCategory::Db.as_str(), "db");
    assert_eq!(SpanCategory::View.as_str(), "view");
    assert_eq!(SpanCategory::Search.as_str(), "search");
    assert_eq!(SpanCategory::Job.as_str(), "job");
    assert_eq!(SpanCategory::Command.as_str(), "command");
    assert_eq!(SpanCategory::Internal.as_str(), "internal");
    assert_eq!(RootSpanType::Web.as_str(), "web");
    assert_eq!(RootSpanType::Job.as_str(), "job");
    assert_eq!(RootSpanType::Command.as_str(), "command");
}

#[test]
fn unknown_category_name_is_internal() {
    assert_eq!(SpanCategory::parse("nonsense"), SpanCategory::Internal);
    assert_eq!(SpanCategory::parse(""), SpanCategory::Internal);
    assert_eq!(SpanCategory::parse("DB"), SpanCategory::Internal);
    assert_eq!(RootSpanType::from_str("web"), Some(RootSpanType::Web));
    assert_eq!(RootSpanType::from_str("Web"), None);
}

#[test]
fn database_comes_before_http() {
    let attrs = attrs_of(&[("db.statement", "SELECT 1"), ("http.method", "GET")]);
    assert_eq!(SpanCategory::from_attributes("GET /", 2, &attrs), SpanCategory::Db);
    let attrs = attrs_of(&[("db.system", "opensearch"), ("http.method", "GET")]);
    assert_eq!(SpanCategory::from_attributes("GET /", 2, &attrs), SpanCategory::Search);
    // A statement alone, on a search engine that is not named, is a database span.
    let attrs = attrs_of(&[("db.statement", "{}")]);
    assert_eq!(SpanCategory::from_attributes("search", 0, &attrs), SpanCategory::Db);
}

#[test]
fn http_needs_a_server_or_client_kind() {
    for key in ["http.url", "http.method", "url.full", "http.request.method"] {
        let attrs = attrs_of(&[(key, "x")]);
        assert_eq!(SpanCategory::from_attributes("x", 2, &attrs), SpanCategory::HttpServer);
        assert_eq!(SpanCategory::from_attributes("x", 3, &attrs), SpanCategory::HttpClient);
        assert_eq!(SpanCategory::from_attributes("x", 0, &attrs), SpanCategory::Internal);
        assert_eq!(SpanCategory::from_attributes("x", 1, &attrs), SpanCategory::Internal);
        // Without a matching kind the later rules decide.
        assert_eq!(SpanCategory::from_attributes("x", 4, &attrs), SpanCategory::Job);
        assert_eq!(SpanCategory::from_attributes("a.haml", 1, &attrs), SpanCategory::View);
    }
}

#[test]
fn view_names() {
    let attrs = AttributeMap::new();
    for name in [
        "render_template x",
        "render_partial x",
        "render_collection x",
        "a.erb",
        "a.haml b",
        "x.slim",
        "ActionView::Base",
    ] {
        assert_eq!(SpanCategory::from_attributes(name, 0, &attrs), SpanCategory::View);
    }
    // The view rule reads the name as it is: it knows no upper case.
    assert_eq!(
        SpanCategory::from_attributes("RENDER_TEMPLATE x", 0, &attrs),
        SpanCategory::Internal
    );
    assert_eq!(SpanCategory::from_attributes("a.ERB", 0, &attrs), SpanCategory::Internal);
    // The view rule comes before the rule on kinds.
    assert_eq!(SpanCategory::from_attributes("a.erb", 5, &attrs), SpanCategory::View);
}

#[test]
fn job_and_command_names_ignore_case() {
    let attrs = AttributeMap::new();
    for name in ["Sidekiq::Worker", "ActiveJob run", "my ACTIVE_JOB", "Mailer.PERFORM"] {
        assert_eq!(SpanCategory::from_attributes(name, 0, &attrs), SpanCategory::Job);
    }
    for name in ["RAKE:db", "Rake db:migrate", "run Rake::Task now", "Thor:x", "MAKE:all"] {
        assert_eq!(SpanCategory::from_attributes(name, 0, &attrs), SpanCategory::Command);
    }
    // `rake` has to begin the name, and a job name wins over a command name.
    assert_eq!(SpanCategory::from_attributes("my rake:db", 0, &attrs), SpanCategory::Internal);
    assert_eq!(SpanCategory::from_attributes("rake:perform", 0, &attrs), SpanCategory::Job);
    assert_eq!(SpanCategory::from_attributes("", 0, &attrs), SpanCategory::Internal);
}

#[test]
fn kinds_and_messaging_make_jobs() {
    let attrs = AttributeMap::new();
    assert_eq!(SpanCategory::from_attributes("x", 4, &attrs), SpanCategory::Job);
    assert_eq!(SpanCategory::from_attributes("x", 5, &attrs), SpanCategory::Job);
    assert_eq!(SpanCategory::from_attributes("x", 6, &attrs), SpanCategory::Internal);
    assert_eq!(SpanCategory::from_attributes("x", -1, &attrs), SpanCategory::Internal);
    let attrs = attrs_of(&[("messaging.destination.name", "mail")]);
    assert_eq!(SpanCategory::from_attributes("x", 0, &attrs), SpanCategory::Job);
}

#[test]
fn classify_lowered_takes_the_lower_case_name_as_given() {
    let attrs = AttributeMap::new();
    assert_eq!(
        SpanCategory::classify_lowered("RAKE:db", "rake:db", 0, &attrs),
        SpanCategory::Command
    );
    assert_eq!(
        SpanCategory::classify_lowered("RAKE:db", "RAKE:db", 0, &attrs),
        SpanCategory::Internal
    );
    assert_eq!(
        SpanCategory::classify_lowered("a.erb", "perform", 0, &attrs),
        SpanCategory::View
    );
}

#[test]
fn test_span_category_command_rake() {
    let attrs = AttributeMap::new();
    assert_eq!(
        SpanCategory::from_attributes("rake db:migrate", 0, &attrs),
        SpanCategory::Command
    );
    assert_eq!(
        SpanCategory::from_attributes("rake:db:migrate", 0, &attrs),
        SpanCategory::Command
    );
}

#[test]
fn test_span_category_command_thor() {
    let attrs = AttributeMap::new();
    assert_eq!(
        SpanCategory::from_attributes("thor:generate:model", 0, &attrs),
        SpanCategory::Command
    );
}

#[test]
fn test_span_category_view() {
    let attrs = AttributeMap::new();
    assert_eq!(
        SpanCategory::from_attributes("render_template users/index.html.erb", 0, &attrs),
        SpanCategory::View
    );
    assert_eq!(
        SpanCategory::from_attributes("render_partial _header.html.erb", 0, &attrs),
        SpanCategory::View
    );
}
