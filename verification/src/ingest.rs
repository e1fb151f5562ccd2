//! The ingestion writer: from an OTLP trace request to the rows that are stored for its
//! spans. Nothing is written here; the caller stores what the translation returns.

use crate::attributes::{flatten_opt, lookup, lookup_or, parse_attributes, AttributeMap, KeyValue};
use crate::category::{classify, RootSpanType, SpanCategory};
use crate::clock::{formatted_utc, happened_at, stored_pattern};
use crate::codec::{
    decode_id, decoded_id, hex_encode, hex_lower, i32_value, i64_value, parse_i32, parse_i64,
    sha256, sha256_digest,
};
use crate::errors::IncomingError;
use crate::failure::Failure;
use crate::text::{
    chars_of, extend_chars, lines, lowercase, split_lines, str_eq, string_of, text_of, texts,
};
use vstd::prelude::*;
use vstd::utf8::encode_utf8;

verus! {

/// An OTLP trace request: spans in groups by resource and, below that, by scope.
#[derive(Debug)]
pub struct OtlpTraceRequest {
    pub resource_spans: Vec<ResourceSpans>,
}

/// The spans of one resource.
#[derive(Debug)]
pub struct ResourceSpans {
    pub resource: Option<Resource>,
    pub scope_spans: Option<Vec<ScopeSpans>>,
}

/// What emitted a group of spans.
#[derive(Debug)]
pub struct Resource {
    pub attributes: Option<Vec<KeyValue>>,
}

/// The spans of one instrumentation scope.
#[derive(Debug)]
pub struct ScopeSpans {
    pub scope: Option<InstrumentationScope>,
    pub spans: Vec<OtlpSpan>,
}

/// The library that recorded a group of spans.
#[derive(Debug, Clone)]
pub struct InstrumentationScope {
    pub name: Option<String>,
    pub version: Option<String>,
}

/// A span of the wire format.
#[derive(Debug)]
pub struct OtlpSpan {
    pub trace_id: String,
    pub span_id: String,
    pub parent_span_id: Option<String>,
    pub name: String,
    pub kind: Option<i32>,
    pub start_time_unix_nano: String,
    pub end_time_unix_nano: String,
    pub attributes: Option<Vec<KeyValue>>,
    pub events: Option<Vec<SpanEvent>>,
    pub status: Option<SpanStatus>,
}

/// An event of a span.
#[derive(Debug)]
pub struct SpanEvent {
    pub name: String,
    pub time_unix_nano: Option<String>,
    pub attributes: Option<Vec<KeyValue>>,
}

/// The status of a span.
#[derive(Debug, Clone)]
pub struct SpanStatus {
    pub code: Option<i32>,
    pub message: Option<String>,
}

/// Where a span stands in its request: the index of its resource group, of its scope group
/// in that, and of the span in that.
#[derive(Debug, Clone, Copy, PartialEq, Eq, Structural)]
pub struct SpanSource {
    pub resource: usize,
    pub scope: usize,
    pub span: usize,
}

/// A span as it is stored.
#[derive(Debug)]
pub struct SpanRow {
    pub source: SpanSource,
    pub project_id: Option<i64>,
    pub trace_id: String,
    pub span_id: String,
    pub parent_span_id: Option<String>,
    pub start_time_unix_nano: i64,
    pub end_time_unix_nano: i64,
    pub duration_ns: u64,
    pub name: String,
    pub kind: i32,
    pub status_code: i32,
    pub status_message: Option<String>,
    pub category: SpanCategory,
    pub root_span_type: Option<RootSpanType>,
    pub service_name: Option<String>,
    pub http_method: Option<String>,
    pub http_url: Option<String>,
    pub http_status_code: Option<i32>,
    pub db_system: Option<String>,
    pub db_statement: Option<String>,
    pub db_operation: Option<String>,
    pub messaging_system: Option<String>,
    pub messaging_operation: Option<String>,
    pub request_id: Option<String>,
    pub attributes: AttributeMap,
    pub resource_attributes: AttributeMap,
    pub happened_at: String,
}

/// Whether a span is a root: it names no parent, or an empty one.
pub open spec fn is_root(span: OtlpSpan) -> bool {
    match span.parent_span_id {
        Some(parent) => parent@.len() == 0,
        None => true,
    }
}

/// The kind of a span as OTLP numbers it; a span that names none is of the unspecified
/// kind, which is zero.
pub open spec fn kind_of(span: OtlpSpan) -> i32 {
    match span.kind {
        Some(kind) => kind,
        None => 0,
    }
}

/// The status code of a span; a span without one has code 0, unset.
pub open spec fn status_code_of(span: OtlpSpan) -> i32 {
    match span.status {
        Some(status) => match status.code {
            Some(code) => code,
            None => 0,
        },
        None => 0,
    }
}

/// The status message of a span, if it has one.
pub open spec fn status_message_of(span: OtlpSpan) -> Option<Seq<char>> {
    match span.status {
        Some(status) => text_of(status.message),
        None => None,
    }
}

/// The category of a span.
pub open spec fn category_of(span: OtlpSpan) -> SpanCategory {
    classify(span.name@, lowercase(span.name@), kind_of(span), flatten_opt(span.attributes))
}

/// Whether a span can be stored: both of its timestamps are numbers of 64 bits, and it does
/// not end before it starts.
pub open spec fn span_is_valid(span: OtlpSpan) -> bool {
    match (i64_value(span.start_time_unix_nano@), i64_value(span.end_time_unix_nano@)) {
        (Some(start), Some(end)) => start <= end,
        _ => false,
    }
}

/// The HTTP status among the attributes: the value of `http.status_code`, or else of
/// `http.response.status_code`, where that value is a number of 32 bits.
pub open spec fn http_status_of(attrs: Map<Seq<char>, Seq<char>>) -> Option<i32> {
    match lookup_or(attrs, "http.status_code"@, "http.response.status_code"@) {
        Some(text) => i32_value(text),
        None => None,
    }
}

/// The address among the attributes: the value of `http.url`, or else of `url.full`, or
/// else of `http.target`.
pub open spec fn http_url_of(attrs: Map<Seq<char>, Seq<char>>) -> Option<Seq<char>> {
    match lookup(attrs, "http.url"@) {
        Some(v) => Some(v),
        None => lookup_or(attrs, "url.full"@, "http.target"@),
    }
}

/// Whether `row` is the stored form of `span`, ingested for `project_id` from a group with
/// the resource attributes `resource`.
pub open spec fn row_describes(
    row: SpanRow,
    span: OtlpSpan,
    project_id: Option<i64>,
    resource: Map<Seq<char>, Seq<char>>,
) -> bool {
    let attrs = flatten_opt(span.attributes);
    &&& row.project_id == project_id
    &&& row.trace_id@ == decoded_id(span.trace_id@)
    &&& row.span_id@ == decoded_id(span.span_id@)
    &&& text_of(row.parent_span_id) == if is_root(span) {
        None
    } else {
        Some(decoded_id(span.parent_span_id->0@))
    }
    &&& Some(row.start_time_unix_nano) == i64_value(span.start_time_unix_nano@)
    &&& Some(row.end_time_unix_nano) == i64_value(span.end_time_unix_nano@)
    &&& row.duration_ns == row.end_time_unix_nano - row.start_time_unix_nano
    &&& row.name@ == span.name@
    &&& row.kind == kind_of(span)
    &&& row.status_code == status_code_of(span)
    &&& text_of(row.status_message) == status_message_of(span)
    &&& row.category == category_of(span)
    &&& row.root_span_type == if is_root(span) {
        RootSpanType::of_category(category_of(span))
    } else {
        None
    }
    &&& text_of(row.service_name) == lookup(resource, "service.name"@)
    &&& text_of(row.http_method) == lookup_or(attrs, "http.method"@, "http.request.method"@)
    &&& text_of(row.http_url) == http_url_of(attrs)
    &&& row.http_status_code == http_status_of(attrs)
    &&& text_of(row.db_system) == lookup(attrs, "db.system"@)
    &&& text_of(row.db_statement) == lookup(attrs, "db.statement"@)
    &&& text_of(row.db_operation) == lookup(attrs, "db.operation"@)
    &&& text_of(row.messaging_system) == lookup(attrs, "messaging.system"@)
    &&& text_of(row.messaging_operation) == lookup_or(
        attrs,
        "messaging.operation"@,
        "messaging.destination.name"@,
    )
    &&& text_of(row.request_id) == lookup_or(attrs, "http.request_id"@, "request_id"@)
    &&& row.attributes@ == attrs
    &&& row.resource_attributes@ == resource
    &&& row.happened_at@ == formatted_utc(row.start_time_unix_nano, stored_pattern())
}

impl SpanRow {
    /// Whether the row's root type fits its parent and category: a row has a root type
    /// exactly if it has no parent and its category is that of a web request, a job or a
    /// command, and the root type is then the one of that category.
    pub open spec fn is_consistent(self) -> bool {
        &&& self.root_span_type.is_some() <==> self.parent_span_id.is_none() && (self.category
            == SpanCategory::HttpServer || self.category == SpanCategory::Job || self.category
            == SpanCategory::Command)
        &&& self.root_span_type.is_some() ==> self.root_span_type == RootSpanType::of_category(
            self.category,
        )
        &&& self.start_time_unix_nano <= self.end_time_unix_nano
    }
}

/// Every row that describes a span is consistent.
pub proof fn lemma_described_row_is_consistent(
    row: SpanRow,
    span: OtlpSpan,
    project_id: Option<i64>,
    resource: Map<Seq<char>, Seq<char>>,
)
    requires
        row_describes(row, span, project_id, resource),
        span_is_valid(span),
    ensures
        row.is_consistent(),
        row.parent_span_id.is_none() <==> is_root(span),
{
}

/// Translates one span into the row that is stored for it.
pub fn translate_span(
    span: &OtlpSpan,
    project_id: Option<i64>,
    resource_attrs: &AttributeMap,
    source: SpanSource,
) -> (r: Result<SpanRow, Failure>)
    ensures
        match r {
            Ok(row) => span_is_valid(*span) && row.source == source && row_describes(
                row,
                *span,
                project_id,
                resource_attrs@,
            ) && row.is_consistent(),
            Err(e) => e == Failure::InvalidBatch && !span_is_valid(*span),
        },
{
    let start = match parse_i64(span.start_time_unix_nano.as_str()) {
        Some(v) => v,
        None => {
            return Err(Failure::InvalidBatch);
        },
    };
    let end = match parse_i64(span.end_time_unix_nano.as_str()) {
        Some(v) => v,
        None => {
            return Err(Failure::InvalidBatch);
        },
    };
    if end < start {
        return Err(Failure::InvalidBatch);
    }
    let duration_ns: u64 = (end as i128 - start as i128) as u64;
    let attrs = parse_attributes(&span.attributes);
    let kind: i32 = match span.kind {
        Some(k) => k,
        None => 0,
    };
    let category = SpanCategory::from_attributes(span.name.as_str(), kind, &attrs);
    let parent_span_id = match &span.parent_span_id {
        Some(parent) => {
            if parent.as_str().unicode_len() == 0 {
                None
            } else {
                Some(decode_id(parent.as_str()))
            }
        },
        None => None,
    };
    let root_span_type = if parent_span_id.is_none() {
        RootSpanType::from_category(category)
    } else {
        None
    };
    let (status_code, status_message) = match &span.status {
        Some(status) => {
            let code: i32 = match status.code {
                Some(c) => c,
                None => 0,
            };
            (code, status.message.clone())
        },
        None => (0, None),
    };
    let http_status_code = match attrs.get_either("http.status_code", "http.response.status_code") {
        Some(text) => parse_i32(text.as_str()),
        None => None,
    };
    let http_url = match attrs.get_cloned("http.url") {
        Some(v) => Some(v),
        None => attrs.get_either("url.full", "http.target"),
    };
    let row = SpanRow {
        source,
        project_id,
        trace_id: decode_id(span.trace_id.as_str()),
        span_id: decode_id(span.span_id.as_str()),
        parent_span_id,
        start_time_unix_nano: start,
        end_time_unix_nano: end,
        duration_ns,
        name: span.name.clone(),
        kind,
        status_code,
        status_message,
        category,
        root_span_type,
        service_name: resource_attrs.get_cloned("service.name"),
        http_method: attrs.get_either("http.method", "http.request.method"),
        http_url,
        http_status_code,
        db_system: attrs.get_cloned("db.system"),
        db_statement: attrs.get_cloned("db.statement"),
        db_operation: attrs.get_cloned("db.operation"),
        messaging_system: attrs.get_cloned("messaging.system"),
        messaging_operation: attrs.get_either("messaging.operation", "messaging.destination.name"),
        request_id: attrs.get_either("http.request_id", "request_id"),
        attributes: attrs,
        resource_attributes: resource_attrs.duplicate(),
        happened_at: happened_at(start),
    };
    Ok(row)
}

/// The scope groups of a resource group; a group without the list has none.
pub open spec fn scopes_of(group: ResourceSpans) -> Seq<ScopeSpans> {
    match group.scope_spans {
        Some(scopes) => scopes@,
        None => Seq::empty(),
    }
}

/// The flattened resource attributes of a resource group.
pub open spec fn resource_of(group: ResourceSpans) -> Map<Seq<char>, Seq<char>> {
    match group.resource {
        Some(resource) => flatten_opt(resource.attributes),
        None => Map::empty(),
    }
}

/// The places of the first `n` spans of scope group `scope` of resource group `resource`.
pub open spec fn span_paths(resource: int, scope: int, n: int) -> Seq<SpanSource> {
    Seq::new(
        n as nat,
        |k: int|
            SpanSource { resource: resource as usize, scope: scope as usize, span: k as usize },
    )
}

/// The places of the spans of the given scope groups of resource group `resource`, in order.
pub open spec fn scope_paths(resource: int, scopes: Seq<ScopeSpans>) -> Seq<SpanSource>
    decreases scopes.len(),
{
    if scopes.len() == 0 {
        Seq::empty()
    } else {
        scope_paths(resource, scopes.drop_last()) + span_paths(
            resource,
            scopes.len() - 1,
            scopes.last().spans.len() as int,
        )
    }
}

/// The places of the spans of the given resource groups, in the order of the request.
pub open spec fn batch_paths(groups: Seq<ResourceSpans>) -> Seq<SpanSource>
    decreases groups.len(),
{
    if groups.len() == 0 {
        Seq::empty()
    } else {
        batch_paths(groups.drop_last()) + scope_paths(
            groups.len() - 1,
            scopes_of(groups.last()),
        )
    }
}

/// Whether a place is that of a span of the request.
pub open spec fn holds_path(request: OtlpTraceRequest, path: SpanSource) -> bool {
    &&& path.resource < request.resource_spans.len()
    &&& path.scope < scopes_of(request.resource_spans[path.resource as int]).len()
    &&& path.span < scopes_of(
        request.resource_spans[path.resource as int],
    )[path.scope as int].spans.len()
}

/// The span at a place of the request.
pub open spec fn span_at(request: OtlpTraceRequest, path: SpanSource) -> OtlpSpan {
    let scopes = scopes_of(request.resource_spans[path.resource as int]);
    scopes[path.scope as int].spans[path.span as int]
}

/// Whether `row` is the stored form of the span at its own place in `request`.
pub open spec fn row_matches_request(
    row: SpanRow,
    request: OtlpTraceRequest,
    project_id: Option<i64>,
) -> bool {
    &&& holds_path(request, row.source)
    &&& span_is_valid(span_at(request, row.source))
    &&& row_describes(
        row,
        span_at(request, row.source),
        project_id,
        resource_of(request.resource_spans[row.source.resource as int]),
    )
    &&& row.is_consistent()
}

/// The places of a sequence of rows.
pub open spec fn sources(rows: Seq<SpanRow>) -> Seq<SpanSource> {
    rows.map_values(|row: SpanRow| row.source)
}

/// Translates a trace request into the rows to store, one for each span, in the order of
/// the request. One span that cannot be stored fails the whole batch.
pub fn translate_batch(request: &OtlpTraceRequest, project_id: Option<i64>) -> (r: Result<
    Vec<SpanRow>,
    Failure,
>)
    ensures
        match r {
            Ok(rows) => {
                &&& sources(rows@) == batch_paths(request.resource_spans@)
                &&& forall|k: int|
                    0 <= k < rows.len() ==> row_matches_request(
                        #[trigger] rows[k],
                        *request,
                        project_id,
                    )
            },
            Err(e) => e == Failure::InvalidBatch && exists|path: SpanSource|
                holds_path(*request, path) && !span_is_valid(span_at(*request, path)),
        },
{
    let mut rows: Vec<SpanRow> = Vec::new();
    let groups = &request.resource_spans;
    let mut g: usize = 0;
    while g < groups.len()
        invariant
            g <= groups.len(),
            groups == &request.resource_spans,
            sources(rows@) == batch_paths(groups@.take(g as int)),
            forall|k: int|
                0 <= k < rows.len() ==> row_matches_request(
                    #[trigger] rows[k],
                    *request,
                    project_id,
                ),
        decreases groups.len() - g,
    {
        let group = &groups[g];
        let resource_attrs = match &group.resource {
            Some(resource) => parse_attributes(&resource.attributes),
            None => AttributeMap::new(),
        };
        proof {
            assert(groups@.take(g + 1).drop_last() =~= groups@.take(g as int));
        }
        if let Some(scopes) = &group.scope_spans {
            let mut s: usize = 0;
            while s < scopes.len()
                invariant
                    s <= scopes.len(),
                    g < groups.len(),
                    groups == &request.resource_spans,
                    *group == groups@[g as int],
                    group.scope_spans == Some(*scopes),
                    resource_attrs@ == resource_of(*group),
                    sources(rows@) == batch_paths(groups@.take(g as int)) + scope_paths(
                        g as int,
                        scopes@.take(s as int),
                    ),
                    forall|k: int|
                        0 <= k < rows.len() ==> row_matches_request(
                            #[trigger] rows[k],
                            *request,
                            project_id,
                        ),
                decreases scopes.len() - s,
            {
                let spans = &scopes[s].spans;
                let mut k: usize = 0;
                proof {
                    assert(scopes@.take(s + 1).drop_last() =~= scopes@.take(s as int));
                }
                while k < spans.len()
                    invariant
                        k <= spans.len(),
                        g < groups.len(),
                        s < scopes.len(),
                        groups == &request.resource_spans,
                        *group == groups@[g as int],
                        group.scope_spans == Some(*scopes),
                        *spans == scopes@[s as int].spans,
                        resource_attrs@ == resource_of(*group),
                        sources(rows@) == batch_paths(groups@.take(g as int)) + scope_paths(
                            g as int,
                            scopes@.take(s as int),
                        ) + span_paths(g as int, s as int, k as int),
                        forall|j: int|
                            0 <= j < rows.len() ==> row_matches_request(
                                #[trigger] rows[j],
                                *request,
                                project_id,
                            ),
                    decreases spans.len() - k,
                {
                    let source = SpanSource { resource: g, scope: s, span: k };
                    assert(holds_path(*request, source));
                    match translate_span(&spans[k], project_id, &resource_attrs, source) {
                        Ok(row) => {
                            let ghost before = rows@;
                            rows.push(row);
                            proof {
                                assert(sources(rows@) =~= sources(before).push(source));
                            }
                        },
                        Err(_) => {
                            return Err(Failure::InvalidBatch);
                        },
                    }
                    k += 1;
                }
                s += 1;
            }
            proof {
                assert(scopes@.take(scopes.len() as int) =~= scopes@);
            }
        }
        g += 1;
    }
    proof {
        assert(groups@.take(groups.len() as int) =~= groups@);
    }
    Ok(rows)
}

impl OtlpTraceRequest {
    /// The span at a place of the request, if the request has a span there.
    pub fn span(&self, source: SpanSource) -> (r: Option<&OtlpSpan>)
        ensures
            match r {
                Some(span) => holds_path(*self, source) && *span == span_at(*self, source),
                None => !holds_path(*self, source),
            },
    {
        if source.resource >= self.resource_spans.len() {
            return None;
        }
        match &self.resource_spans[source.resource].scope_spans {
            Some(scopes) => {
                if source.scope >= scopes.len() {
                    return None;
                }
                let spans = &scopes[source.scope].spans;
                if source.span >= spans.len() {
                    return None;
                }
                Some(&spans[source.span])
            },
            None => None,
        }
    }
}

/// Every span of a request has its place among the places of the request.
pub proof fn lemma_batch_paths_complete(request: OtlpTraceRequest, path: SpanSource)
    requires
        holds_path(request, path),
    ensures
        batch_paths(request.resource_spans@).contains(path),
{
    lemma_group_paths_complete(request.resource_spans@, path);
}

/// Every span of a list of resource groups has its place among the places of the list.
proof fn lemma_group_paths_complete(groups: Seq<ResourceSpans>, path: SpanSource)
    requires
        path.resource < groups.len(),
        path.scope < scopes_of(groups[path.resource as int]).len(),
        path.span < scopes_of(groups[path.resource as int])[path.scope as int].spans.len(),
    ensures
        batch_paths(groups).contains(path),
    decreases groups.len(),
{
    let head = batch_paths(groups.drop_last());
    let tail = scope_paths(groups.len() - 1, scopes_of(groups.last()));
    if path.resource == groups.len() - 1 {
        lemma_scope_paths_complete(groups.len() - 1, scopes_of(groups.last()), path);
        let i = choose|i: int| 0 <= i < tail.len() && tail[i] == path;
        assert((head + tail)[head.len() + i] == path);
    } else {
        lemma_group_paths_complete(groups.drop_last(), path);
        let i = choose|i: int| 0 <= i < head.len() && head[i] == path;
        assert((head + tail)[i] == path);
    }
}

/// Every span of a list of scope groups has its place among the places of the list.
proof fn lemma_scope_paths_complete(resource: int, scopes: Seq<ScopeSpans>, path: SpanSource)
    requires
        path.resource == resource,
        path.scope < scopes.len(),
        path.span < scopes[path.scope as int].spans.len(),
    ensures
        scope_paths(resource, scopes).contains(path),
    decreases scopes.len(),
{
    let head = scope_paths(resource, scopes.drop_last());
    let tail = span_paths(resource, scopes.len() - 1, scopes.last().spans.len() as int);
    if path.scope == scopes.len() - 1 {
        assert((head + tail)[head.len() + path.span] == path);
    } else {
        lemma_scope_paths_complete(resource, scopes.drop_last(), path);
        let i = choose|i: int| 0 <= i < head.len() && head[i] == path;
        assert((head + tail)[i] == path);
    }
}

/// The text of an optional value, empty where there is none.
pub open spec fn text_or_empty(text: Option<Seq<char>>) -> Seq<char> {
    match text {
        Some(t) => t,
        None => Seq::empty(),
    }
}

/// The first line of a backtrace, empty where the backtrace is.
pub open spec fn first_line(backtrace: Seq<Seq<char>>) -> Seq<char> {
    if backtrace.len() > 0 {
        backtrace[0]
    } else {
        Seq::empty()
    }
}

/// The fingerprint of an exception that a span event reports: the SHA-256 digest, in
/// lower-case hexadecimal text, of the exception type, a colon and the first line of the
/// backtrace.
pub open spec fn event_fingerprint(exception_type: Seq<char>, first: Seq<char>) -> Seq<char> {
    hex_lower(sha256_digest(encode_utf8(exception_type + seq![':'] + first)))
}

/// Whether a span event reports an exception: its name is `exception` and it names the type.
pub open spec fn is_exception(event: SpanEvent) -> bool {
    event.name@ == "exception"@ && flatten_opt(event.attributes).contains_key("exception.type"@)
}

/// The events of a list that report an exception, in order.
pub open spec fn exception_events(events: Seq<SpanEvent>) -> Seq<SpanEvent>
    decreases events.len(),
{
    if events.len() == 0 {
        Seq::empty()
    } else if is_exception(events.last()) {
        exception_events(events.drop_last()).push(events.last())
    } else {
        exception_events(events.drop_last())
    }
}

/// The events of a span; a span without the list has none.
pub open spec fn events_of(events: Option<Vec<SpanEvent>>) -> Seq<SpanEvent> {
    match events {
        Some(list) => list@,
        None => Seq::empty(),
    }
}

/// Whether `error` is the error that the exception event `event` reports, on a span of the
/// trace `trace_id` that happened at `happened_at`.
pub open spec fn error_describes(
    error: IncomingError,
    event: SpanEvent,
    trace_id: Seq<char>,
    happened_at: Seq<char>,
) -> bool {
    let attrs = flatten_opt(event.attributes);
    let backtrace = lines(text_or_empty(lookup(attrs, "exception.stacktrace"@)));
    &&& error.exception_class@ == attrs["exception.type"@]
    &&& error.message@ == text_or_empty(lookup(attrs, "exception.message"@))
    &&& texts(error.backtrace@) == backtrace
    &&& error.fingerprint@ == event_fingerprint(attrs["exception.type"@], first_line(backtrace))
    &&& text_of(error.request_id) == Some(trace_id)
    &&& error.user_id.is_none()
    &&& error.params.is_none()
    &&& text_of(error.timestamp) == Some(happened_at)
    &&& error.source_context.is_none()
}

/// The fingerprint of an exception of the given type whose backtrace begins with `first`.
pub fn fingerprint_event(exception_type: &str, first: &str) -> (fingerprint: String)
    ensures
        fingerprint@ == event_fingerprint(exception_type@, first@),
{
    let mut text = chars_of(exception_type);
    text.push(':');
    let tail = chars_of(first);
    extend_chars(&mut text, &tail);
    assert(text@ =~= exception_type@ + seq![':'] + first@);
    let joined = string_of(&text);
    let digest = sha256(joined.as_str().as_bytes());
    hex_encode(digest.as_slice())
}

/// The error that a span event reports, if it reports an exception.
pub fn error_from_event(event: &SpanEvent, trace_id: &str, happened_at: &str) -> (r: Option<
    IncomingError,
>)
    ensures
        match r {
            Some(error) => is_exception(*event) && error_describes(
                error,
                *event,
                trace_id@,
                happened_at@,
            ),
            None => !is_exception(*event),
        },
{
    if !str_eq(event.name.as_str(), "exception") {
        return None;
    }
    let attrs = parse_attributes(&event.attributes);
    let exception_class = match attrs.get_cloned("exception.type") {
        Some(t) => t,
        None => {
            return None;
        },
    };
    let message = match attrs.get_cloned("exception.message") {
        Some(m) => m,
        None => String::new(),
    };
    let stacktrace = match attrs.get_cloned("exception.stacktrace") {
        Some(t) => t,
        None => String::new(),
    };
    let backtrace = split_lines(stacktrace.as_str());
    let fingerprint = if backtrace.len() > 0 {
        fingerprint_event(exception_class.as_str(), backtrace[0].as_str())
    } else {
        fingerprint_event(exception_class.as_str(), "")
    };
    proof {
        reveal_strlit("");
    }
    Some(
        IncomingError {
            exception_class,
            message,
            backtrace,
            fingerprint,
            request_id: Some(trace_id.to_owned()),
            user_id: None,
            params: None,
            timestamp: Some(happened_at.to_owned()),
            source_context: None,
        },
    )
}

/// The errors that the exception events of a span report, in the order of the events. The
/// trace id of the span becomes the request id of each, and the span's own timestamp the
/// time of the occurrence.
pub fn extract_errors(events: &Option<Vec<SpanEvent>>, trace_id: &str, happened_at: &str) -> (r:
    Vec<IncomingError>)
    ensures
        r.len() == exception_events(events_of(*events)).len(),
        forall|k: int|
            0 <= k < r.len() ==> error_describes(
                #[trigger] r[k],
                exception_events(events_of(*events))[k],
                trace_id@,
                happened_at@,
            ),
{
    let mut out: Vec<IncomingError> = Vec::new();
    if let Some(list) = events {
        let mut i: usize = 0;
        while i < list.len()
            invariant
                i <= list.len(),
                out.len() == exception_events(list@.take(i as int)).len(),
                forall|k: int|
                    0 <= k < out.len() ==> error_describes(
                        #[trigger] out[k],
                        exception_events(list@.take(i as int))[k],
                        trace_id@,
                        happened_at@,
                    ),
            decreases list.len() - i,
        {
            proof {
                assert(list@.take(i + 1).drop_last() =~= list@.take(i as int));
            }
            if let Some(error) = error_from_event(&list[i], trace_id, happened_at) {
                out.push(error);
            }
            i += 1;
        }
        proof {
            assert(list@.take(list.len() as int) =~= list@);
        }
    }
    out
}

} // verus!
