//! The span classifier: from a span's name, kind and attributes to its category, and from the
//! category of a root span to the type of its trace.

use crate::attributes::AttributeMap;
use crate::text::{
    chars_of, contains, has_infix, has_prefix, lowercase, starts_with, str_eq, to_lowercase,
};
use vstd::prelude::*;

verus! {

/// The OTLP span kind of a server span.
pub const KIND_SERVER: i32 = 2;

/// The OTLP span kind of a client span.
pub const KIND_CLIENT: i32 = 3;

/// The OTLP span kind of a producer span.
pub const KIND_PRODUCER: i32 = 4;

/// The OTLP span kind of a consumer span.
pub const KIND_CONSUMER: i32 = 5;

/// The coarse classification of a span.
#[derive(Debug, Clone, Copy, PartialEq, Eq, Structural)]
pub enum SpanCategory {
    HttpServer,
    HttpClient,
    Db,
    View,
    Search,
    Job,
    Command,
    Internal,
}

/// The type of a trace, taken from the category of its root span.
#[derive(Debug, Clone, Copy, PartialEq, Eq, Structural)]
pub enum RootSpanType {
    Web,
    Job,
    Command,
}

/// Whether the attributes mark a database span.
pub open spec fn has_db(attrs: Map<Seq<char>, Seq<char>>) -> bool {
    attrs.contains_key("db.system"@) || attrs.contains_key("db.statement"@)
}

/// Whether the attributes name a search engine as the database system.
pub open spec fn is_search_system(attrs: Map<Seq<char>, Seq<char>>) -> bool {
    attrs.contains_key("db.system"@) && (attrs["db.system"@] == "elasticsearch"@
        || attrs["db.system"@] == "opensearch"@)
}

/// Whether the attributes mark an HTTP span.
pub open spec fn has_http(attrs: Map<Seq<char>, Seq<char>>) -> bool {
    ||| attrs.contains_key("http.url"@)
    ||| attrs.contains_key("http.method"@)
    ||| attrs.contains_key("url.full"@)
    ||| attrs.contains_key("http.request.method"@)
}

/// Whether the attributes mark a messaging span.
pub open spec fn has_messaging(attrs: Map<Seq<char>, Seq<char>>) -> bool {
    attrs.contains_key("messaging.system"@) || attrs.contains_key("messaging.destination.name"@)
}

/// Whether a span name is that of a view rendering.
pub open spec fn is_view_name(name: Seq<char>) -> bool {
    ||| starts_with(name, "render_template"@)
    ||| starts_with(name, "render_partial"@)
    ||| starts_with(name, "render_collection"@)
    ||| contains(name, ".erb"@)
    ||| contains(name, ".haml"@)
    ||| contains(name, ".slim"@)
    ||| contains(name, "ActionView"@)
}

/// Whether a lower-cased span name is that of a background job.
pub open spec fn is_job_name(lowered: Seq<char>) -> bool {
    ||| contains(lowered, "sidekiq"@)
    ||| contains(lowered, "activejob"@)
    ||| contains(lowered, "active_job"@)
    ||| contains(lowered, "perform"@)
}

/// Whether a lower-cased span name is that of a command runner.
pub open spec fn is_command_name(lowered: Seq<char>) -> bool {
    ||| starts_with(lowered, "rake:"@)
    ||| starts_with(lowered, "rake "@)
    ||| contains(lowered, "rake::task"@)
    ||| starts_with(lowered, "thor:"@)
    ||| starts_with(lowered, "make:"@)
}

/// The category of a span with the given name, lower-cased name, kind and attributes. The
/// rules are tried in this order, and the first that applies decides.
pub open spec fn classify(
    name: Seq<char>,
    lowered: Seq<char>,
    kind: i32,
    attrs: Map<Seq<char>, Seq<char>>,
) -> SpanCategory {
    if has_db(attrs) {
        if is_search_system(attrs) {
            SpanCategory::Search
        } else {
            SpanCategory::Db
        }
    } else if has_http(attrs) && kind == KIND_CLIENT {
        SpanCategory::HttpClient
    } else if has_http(attrs) && kind == KIND_SERVER {
        SpanCategory::HttpServer
    } else if is_view_name(name) {
        SpanCategory::View
    } else if kind == KIND_PRODUCER || kind == KIND_CONSUMER || has_messaging(attrs) {
        SpanCategory::Job
    } else if is_job_name(lowered) {
        SpanCategory::Job
    } else if is_command_name(lowered) {
        SpanCategory::Command
    } else {
        SpanCategory::Internal
    }
}

impl SpanCategory {
    /// The name under which the category is stored.
    pub open spec fn name(self) -> Seq<char> {
        match self {
            SpanCategory::HttpServer => "http_server"@,
            SpanCategory::HttpClient => "http_client"@,
            SpanCategory::Db => "db"@,
            SpanCategory::View => "view"@,
            SpanCategory::Search => "search"@,
            SpanCategory::Job => "job"@,
            SpanCategory::Command => "command"@,
            SpanCategory::Internal => "internal"@,
        }
    }

    /// The category that a stored name stands for; an unknown name stands for `Internal`.
    pub open spec fn of_name(s: Seq<char>) -> SpanCategory {
        if s == "http_server"@ {
            SpanCategory::HttpServer
        } else if s == "http_client"@ {
            SpanCategory::HttpClient
        } else if s == "db"@ {
            SpanCategory::Db
        } else if s == "view"@ {
            SpanCategory::View
        } else if s == "search"@ {
            SpanCategory::Search
        } else if s == "job"@ {
            SpanCategory::Job
        } else if s == "command"@ {
            SpanCategory::Command
        } else {
            SpanCategory::Internal
        }
    }

    /// Classifies a span. `kind` is the OTLP span kind, `attributes` the flattened attributes
    /// of the span.
    pub fn from_attributes(name: &str, kind: i32, attributes: &AttributeMap) -> (c: Self)
        ensures
            c == classify(name@, lowercase(name@), kind, attributes@),
    {
        let lowered = to_lowercase(name);
        Self::classify_lowered(name, lowered.as_str(), kind, attributes)
    }

    /// Classifies a span whose lower-cased name is `lowered`.
    pub fn classify_lowered(name: &str, lowered: &str, kind: i32, attributes: &AttributeMap) -> (c:
        Self)
        ensures
            c == classify(name@, lowered@, kind, attributes@),
    {
        let db_system = attributes.get("db.system");
        if db_system.is_some() || attributes.contains_key("db.statement") {
            if let Some(system) = db_system {
                if str_eq(system.as_str(), "elasticsearch") || str_eq(
                    system.as_str(),
                    "opensearch",
                ) {
                    return SpanCategory::Search;
                }
            }
            return SpanCategory::Db;
        }
        let http = attributes.contains_key("http.url") || attributes.contains_key("http.method")
            || attributes.contains_key("url.full") || attributes.contains_key(
            "http.request.method",
        );
        if http {
            if kind == KIND_CLIENT {
                return SpanCategory::HttpClient;
            }
            if kind == KIND_SERVER {
                return SpanCategory::HttpServer;
            }
        }
        let n = chars_of(name);
        if has_prefix(&n, "render_template") || has_prefix(&n, "render_partial") || has_prefix(
            &n,
            "render_collection",
        ) || has_infix(&n, ".erb") || has_infix(&n, ".haml") || has_infix(&n, ".slim")
            || has_infix(&n, "ActionView") {
            return SpanCategory::View;
        }
        if kind == KIND_PRODUCER || kind == KIND_CONSUMER {
            return SpanCategory::Job;
        }
        if attributes.contains_key("messaging.system") || attributes.contains_key(
            "messaging.destination.name",
        ) {
            return SpanCategory::Job;
        }
        let l = chars_of(lowered);
        if has_infix(&l, "sidekiq") || has_infix(&l, "activejob") || has_infix(&l, "active_job")
            || has_infix(&l, "perform") {
            return SpanCategory::Job;
        }
        if has_prefix(&l, "rake:") || has_prefix(&l, "rake ") || has_infix(&l, "rake::task")
            || has_prefix(&l, "thor:") || has_prefix(&l, "make:") {
            return SpanCategory::Command;
        }
        SpanCategory::Internal
    }

    /// The name under which the category is stored.
    pub fn as_str(&self) -> (s: &'static str)
        ensures
            s@ == self.name(),
    {
        match self {
            SpanCategory::HttpServer => "http_server",
            SpanCategory::HttpClient => "http_client",
            SpanCategory::Db => "db",
            SpanCategory::View => "view",
            SpanCategory::Search => "search",
            SpanCategory::Job => "job",
            SpanCategory::Command => "command",
            SpanCategory::Internal => "internal",
        }
    }

    /// Reads a stored category name; an unknown name gives `Internal`.
    pub fn parse(s: &str) -> (c: Self)
        ensures
            c == Self::of_name(s@),
    {
        if str_eq(s, "http_server") {
            SpanCategory::HttpServer
        } else if str_eq(s, "http_client") {
            SpanCategory::HttpClient
        } else if str_eq(s, "db") {
            SpanCategory::Db
        } else if str_eq(s, "view") {
            SpanCategory::View
        } else if str_eq(s, "search") {
            SpanCategory::Search
        } else if str_eq(s, "job") {
            SpanCategory::Job
        } else if str_eq(s, "command") {
            SpanCategory::Command
        } else {
            SpanCategory::Internal
        }
    }

    /// Reads a stored category name; an unknown name gives `Internal`.
    pub fn from_str(s: &str) -> (c: Self)
        ensures
            c == Self::of_name(s@),
    {
        Self::parse(s)
    }
}

impl RootSpanType {
    /// The name under which the root type is stored.
    pub open spec fn name(self) -> Seq<char> {
        match self {
            RootSpanType::Web => "web"@,
            RootSpanType::Job => "job"@,
            RootSpanType::Command => "command"@,
        }
    }

    /// The root type that a stored name stands for, if it stands for one.
    pub open spec fn of_name(s: Seq<char>) -> Option<RootSpanType> {
        if s == "web"@ {
            Some(RootSpanType::Web)
        } else if s == "job"@ {
            Some(RootSpanType::Job)
        } else if s == "command"@ {
            Some(RootSpanType::Command)
        } else {
            None
        }
    }

    /// The root type that a root span of the given category gives its trace.
    pub open spec fn of_category(category: SpanCategory) -> Option<RootSpanType> {
        match category {
            SpanCategory::HttpServer => Some(RootSpanType::Web),
            SpanCategory::Job => Some(RootSpanType::Job),
            SpanCategory::Command => Some(RootSpanType::Command),
            _ => None,
        }
    }

    /// The root type that a root span of the given category gives its trace.
    pub fn from_category(category: SpanCategory) -> (r: Option<Self>)
        ensures
            r == Self::of_category(category),
    {
        match category {
            SpanCategory::HttpServer => Some(RootSpanType::Web),
            SpanCategory::Job => Some(RootSpanType::Job),
            SpanCategory::Command => Some(RootSpanType::Command),
            _ => None,
        }
    }

    /// The name under which the root type is stored.
    pub fn as_str(&self) -> (s: &'static str)
        ensures
            s@ == self.name(),
    {
        match self {
            RootSpanType::Web => "web",
            RootSpanType::Job => "job",
            RootSpanType::Command => "command",
        }
    }

    /// Reads a stored root type name.
    pub fn parse(s: &str) -> (r: Option<Self>)
        ensures
            r == Self::of_name(s@),
    {
        if str_eq(s, "web") {
            Some(RootSpanType::Web)
        } else if str_eq(s, "job") {
            Some(RootSpanType::Job)
        } else if str_eq(s, "command") {
            Some(RootSpanType::Command)
        } else {
            None
        }
    }

    /// Reads a stored root type name.
    pub fn from_str(s: &str) -> (r: Option<Self>)
        ensures
            r == Self::of_name(s@),
    {
        Self::parse(s)
    }
}

/// Reading back the stored name of a category gives the category.
pub proof fn lemma_category_round_trip(c: SpanCategory)
    ensures
        SpanCategory::of_name(c.name()) == c,
{
    reveal_strlit("http_server");
    reveal_strlit("http_client");
    reveal_strlit("db");
    reveal_strlit("view");
    reveal_strlit("search");
    reveal_strlit("job");
    reveal_strlit("command");
    reveal_strlit("internal");
    assert("http_server"@[5] != "http_client"@[5]);
    assert("db"@.len() == 2);
    assert("view"@.len() == 4);
    assert("search"@.len() == 6);
    assert("job"@.len() == 3);
    assert("command"@.len() == 7);
}

/// Reading back the stored name of a root type gives the root type.
pub proof fn lemma_root_type_round_trip(r: RootSpanType)
    ensures
        RootSpanType::of_name(r.name()) == Some(r),
{
    reveal_strlit("web");
    reveal_strlit("job");
    reveal_strlit("command");
    assert("web"@[0] != "job"@[0]);
}

} // verus!
