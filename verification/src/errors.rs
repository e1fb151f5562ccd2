//! Error groups and their occurrences: the records, and the rule by which an incoming error
//! joins a group.

use crate::clock::{format_rfc3339, rfc3339_utc};
use crate::fingerprint::{generate_location_fingerprint, location_fingerprint};
use crate::similarity::{message_similarity, messages_match, reaches_threshold};
use crate::failure::Failure;
use crate::text::{copy_strings, copy_text, str_eq, text_of, texts};
use vstd::prelude::*;

verus! {

/// An error group: the errors of one project that share a fingerprint.
#[derive(Debug, Clone)]
pub struct AppError {
    pub id: i64,
    pub fingerprint: String,
    pub exception_class: String,
    pub message: String,
    pub first_seen_at: String,
    pub last_seen_at: String,
    pub occurrence_count: i64,
    pub status: String,
}

/// What has become of an error group.
#[derive(Debug, Clone, Copy, PartialEq, Eq, Structural)]
pub enum ErrorStatus {
    Open,
    Resolved,
    Ignored,
}

/// One sighting of an error. `params` holds the request parameters as JSON text.
#[derive(Debug, Clone)]
pub struct ErrorOccurrence {
    pub id: i64,
    pub error_id: i64,
    pub request_id: Option<String>,
    pub user_id: Option<String>,
    pub backtrace: Vec<String>,
    pub params: Option<String>,
    pub happened_at: String,
    pub source_context: Option<SourceContext>,
}

/// The source lines around the line that raised an error.
#[derive(Debug, Clone)]
pub struct SourceContext {
    pub file: String,
    pub lineno: i64,
    pub pre_context: Vec<String>,
    pub context_line: String,
    pub post_context: Vec<String>,
}

/// An error as a client reports it. `params` holds the request parameters as JSON text.
#[derive(Debug, Clone)]
pub struct IncomingError {
    pub exception_class: String,
    pub message: String,
    pub backtrace: Vec<String>,
    pub fingerprint: String,
    pub request_id: Option<String>,
    pub user_id: Option<String>,
    pub params: Option<String>,
    pub timestamp: Option<String>,
    pub source_context: Option<IncomingSourceContext>,
}

/// The source context of an error as a client reports it.
#[derive(Debug, Clone)]
pub struct IncomingSourceContext {
    pub file: String,
    pub lineno: i64,
    pub pre_context: Option<Vec<String>>,
    pub context_line: String,
    pub post_context: Option<Vec<String>>,
}

/// A batch of errors as a client reports it.
#[derive(Debug, Clone)]
pub struct ErrorBatch {
    pub errors: Vec<IncomingError>,
}

/// One page of error groups together with the number of groups that the filter admits.
#[derive(Debug, Clone)]
pub struct ErrorListResult {
    pub errors: Vec<AppError>,
    pub total_count: i64,
}

/// The number of occurrences in one hour.
#[derive(Debug, Clone)]
pub struct ErrorTrendPoint {
    pub hour: String,
    pub count: i64,
}

impl ErrorStatus {
    /// The name under which the status is stored.
    pub open spec fn name(self) -> Seq<char> {
        match self {
            ErrorStatus::Open => "open"@,
            ErrorStatus::Resolved => "resolved"@,
            ErrorStatus::Ignored => "ignored"@,
        }
    }

    /// The status that a name stands for, if it stands for one.
    pub open spec fn of_name(s: Seq<char>) -> Option<ErrorStatus> {
        if s == "open"@ {
            Some(ErrorStatus::Open)
        } else if s == "resolved"@ {
            Some(ErrorStatus::Resolved)
        } else if s == "ignored"@ {
            Some(ErrorStatus::Ignored)
        } else {
            None
        }
    }

    /// The name under which the status is stored.
    pub fn as_str(&self) -> (s: &'static str)
        ensures
            s@ == self.name(),
    {
        match self {
            ErrorStatus::Open => "open",
            ErrorStatus::Resolved => "resolved",
            ErrorStatus::Ignored => "ignored",
        }
    }

    /// Reads the name of a status.
    pub fn parse(s: &str) -> (r: Option<Self>)
        ensures
            r == Self::of_name(s@),
    {
        if str_eq(s, "open") {
            Some(ErrorStatus::Open)
        } else if str_eq(s, "resolved") {
            Some(ErrorStatus::Resolved)
        } else if str_eq(s, "ignored") {
            Some(ErrorStatus::Ignored)
        } else {
            None
        }
    }

    /// The status that a request gives to an error group. A name that is no status is
    /// refused.
    pub fn checked(s: &str) -> (r: Result<Self, Failure>)
        ensures
            r == match Self::of_name(s@) {
                Some(status) => Ok::<ErrorStatus, Failure>(status),
                None => Err(Failure::InvalidInput),
            },
    {
        match Self::parse(s) {
            Some(status) => Ok(status),
            None => Err(Failure::InvalidInput),
        }
    }
}

/// Reading back the stored name of a status gives the status.
pub proof fn lemma_status_round_trip(status: ErrorStatus)
    ensures
        ErrorStatus::of_name(status.name()) == Some(status),
{
    reveal_strlit("open");
    reveal_strlit("resolved");
    reveal_strlit("ignored");
    assert("open"@.len() == 4);
    assert("resolved"@.len() == 8);
}

impl SourceContext {
    /// The lines before the context line, each with its line number.
    pub fn pre_context_with_lines(&self) -> (lines: Vec<(i64, &str)>)
        requires
            self.lineno - self.pre_context.len() >= i64::MIN,
        ensures
            lines.len() == self.pre_context.len(),
            forall|i: int|
                0 <= i < lines.len() ==> (#[trigger] lines[i]).0 == self.lineno
                    - self.pre_context.len() + i && lines[i].1@ == self.pre_context[i]@,
    {
        let n: usize = self.pre_context.len();
        let mut lines: Vec<(i64, &str)> = Vec::new();
        let mut i: usize = 0;
        while i < n
            invariant
                i <= n,
                n == self.pre_context.len(),
                self.lineno - n >= i64::MIN,
                lines.len() == i,
                forall|j: int|
                    0 <= j < i ==> (#[trigger] lines[j]).0 == self.lineno - n + j && lines[j].1@
                        == self.pre_context[j]@,
            decreases n - i,
        {
            let number: i64 = (self.lineno as i128 - n as i128 + i as i128) as i64;
            lines.push((number, self.pre_context[i].as_str()));
            i += 1;
        }
        lines
    }

    /// The lines after the context line, each with its line number.
    pub fn post_context_with_lines(&self) -> (lines: Vec<(i64, &str)>)
        requires
            self.lineno + self.post_context.len() <= i64::MAX,
        ensures
            lines.len() == self.post_context.len(),
            forall|i: int|
                0 <= i < lines.len() ==> (#[trigger] lines[i]).0 == self.lineno + 1 + i
                    && lines[i].1@ == self.post_context[i]@,
    {
        let n: usize = self.post_context.len();
        let mut lines: Vec<(i64, &str)> = Vec::new();
        let mut i: usize = 0;
        while i < n
            invariant
                i <= n,
                n == self.post_context.len(),
                self.lineno + n <= i64::MAX,
                lines.len() == i,
                forall|j: int|
                    0 <= j < i ==> (#[trigger] lines[j]).0 == self.lineno + 1 + j
                        && lines[j].1@ == self.post_context[j]@,
            decreases n - i,
        {
            let number: i64 = (self.lineno as i128 + 1 + i as i128) as i64;
            lines.push((number, self.post_context[i].as_str()));
            i += 1;
        }
        lines
    }
}

/// An error group that an incoming error may join: its id and its message.
#[derive(Debug, Clone)]
pub struct ErrorCandidate {
    pub id: i64,
    pub message: String,
}

/// The two fingerprints under which the store is asked for the group of an incoming
/// error, and the time of the occurrence.
#[derive(Debug, Clone)]
pub struct GroupLookup {
    pub caller_fingerprint: String,
    pub location_fingerprint: String,
    pub timestamp: String,
}

/// A new error group, as it is stored: open, with one occurrence.
#[derive(Debug, Clone)]
pub struct NewErrorGroup {
    pub project_id: Option<i64>,
    pub fingerprint: String,
    pub exception_class: String,
    pub message: String,
    pub first_seen_at: String,
    pub last_seen_at: String,
    pub occurrence_count: i64,
    pub status: String,
}

/// What becomes of an incoming error: it joins a group, which then counts one more
/// occurrence and was last seen at the time of this one, or it founds a group.
#[derive(Debug, Clone)]
pub enum GroupDecision {
    Merge { id: i64, last_seen_at: String },
    Create(NewErrorGroup),
}

/// An occurrence, as it is stored.
#[derive(Debug, Clone)]
pub struct NewOccurrence {
    pub error_id: i64,
    pub request_id: Option<String>,
    pub user_id: Option<String>,
    pub backtrace: Vec<String>,
    pub params: Option<String>,
    pub happened_at: String,
    pub source_context: Option<SourceContext>,
}

/// Whether two messages are similar enough to be the same error: at least half of their
/// words are shared.
pub open spec fn is_similar(a: Seq<char>, b: Seq<char>) -> bool {
    reaches_threshold(message_similarity(a, b).0, message_similarity(a, b).1)
}

/// The id of the first candidate whose message is similar to `message`.
pub open spec fn first_similar(candidates: Seq<ErrorCandidate>, message: Seq<char>) -> Option<i64>
    decreases candidates.len(),
{
    if candidates.len() == 0 {
        None
    } else if is_similar(message, candidates[0].message@) {
        Some(candidates[0].id)
    } else {
        first_similar(candidates.drop_first(), message)
    }
}

/// The group that an incoming error joins: the one with the fingerprint of the caller, if
/// there is one, or else the first one at the same location with a similar message.
pub open spec fn group_for(
    exact: Option<i64>,
    candidates: Seq<ErrorCandidate>,
    message: Seq<char>,
) -> Option<i64> {
    match exact {
        Some(id) => Some(id),
        None => first_similar(candidates, message),
    }
}

/// The time of an occurrence: the one that the client reports, or else the present.
pub open spec fn occurrence_time(error: IncomingError, now: i64) -> Seq<char> {
    match error.timestamp {
        Some(t) => t@,
        None => rfc3339_utc(now),
    }
}

/// The lines of an optional list; a list that is absent has none.
pub open spec fn lines_or_none(list: Option<Vec<String>>) -> Seq<Seq<char>> {
    match list {
        Some(l) => texts(l@),
        None => Seq::empty(),
    }
}

/// Whether `stored` is the stored form of the source context `incoming`.
pub open spec fn context_describes(stored: SourceContext, incoming: IncomingSourceContext) -> bool {
    &&& stored.file@ == incoming.file@
    &&& stored.lineno == incoming.lineno
    &&& texts(stored.pre_context@) == lines_or_none(incoming.pre_context)
    &&& stored.context_line@ == incoming.context_line@
    &&& texts(stored.post_context@) == lines_or_none(incoming.post_context)
}

/// Whether `group` is the group that `error` founds in `project_id`: its fingerprint is
/// the location fingerprint of the lookup, and it was first and last seen at the time of
/// the lookup.
pub open spec fn founds(
    group: NewErrorGroup,
    error: IncomingError,
    project_id: Option<i64>,
    lookup: GroupLookup,
) -> bool {
    &&& group.project_id == project_id
    &&& group.fingerprint@ == lookup.location_fingerprint@
    &&& group.exception_class@ == error.exception_class@
    &&& group.message@ == error.message@
    &&& group.first_seen_at@ == lookup.timestamp@
    &&& group.last_seen_at@ == lookup.timestamp@
    &&& group.occurrence_count == 1
    &&& group.status@ == ErrorStatus::Open.name()
}

/// Whether `occurrence` is the occurrence of `error` in the group `error_id` at
/// `timestamp`.
pub open spec fn occurrence_describes(
    occurrence: NewOccurrence,
    error: IncomingError,
    error_id: i64,
    timestamp: Seq<char>,
) -> bool {
    &&& occurrence.error_id == error_id
    &&& text_of(occurrence.request_id) == text_of(error.request_id)
    &&& text_of(occurrence.user_id) == text_of(error.user_id)
    &&& texts(occurrence.backtrace@) == texts(error.backtrace@)
    &&& text_of(occurrence.params) == text_of(error.params)
    &&& occurrence.happened_at@ == timestamp
    &&& match (occurrence.source_context, error.source_context) {
        (Some(stored), Some(incoming)) => context_describes(stored, incoming),
        (None, None) => true,
        _ => false,
    }
}

/// The first step of storing an error: the fingerprints under which to look for its
/// group, and the time of the occurrence.
pub fn begin_insert(error: &IncomingError, now_nanos: i64) -> (lookup: GroupLookup)
    ensures
        lookup.caller_fingerprint@ == error.fingerprint@,
        lookup.location_fingerprint@ == location_fingerprint(
            error.exception_class@,
            error.backtrace@,
        ),
        lookup.timestamp@ == occurrence_time(*error, now_nanos),
{
    let timestamp = match &error.timestamp {
        Some(t) => t.clone(),
        None => format_rfc3339(now_nanos),
    };
    GroupLookup {
        caller_fingerprint: error.fingerprint.clone(),
        location_fingerprint: generate_location_fingerprint(
            error.exception_class.as_str(),
            error.backtrace.as_slice(),
        ),
        timestamp,
    }
}

/// The first candidate whose message is similar to `message`.
pub fn find_similar_error(candidates: &Vec<ErrorCandidate>, message: &str) -> (id: Option<i64>)
    ensures
        id == first_similar(candidates@, message@),
{
    let mut i: usize = 0;
    proof {
        assert(candidates@.skip(0) =~= candidates@);
    }
    while i < candidates.len()
        invariant
            i <= candidates.len(),
            first_similar(candidates@, message@) == first_similar(
                candidates@.skip(i as int),
                message@,
            ),
        decreases candidates.len() - i,
    {
        proof {
            assert(candidates@.skip(i as int).drop_first() =~= candidates@.skip(i + 1));
        }
        if messages_match(message, candidates[i].message.as_str()) {
            return Some(candidates[i].id);
        }
        i += 1;
    }
    None
}

/// The second step of storing an error: which group it joins or founds. `exact` is the
/// group of the project with the fingerprint of the caller, `candidates` are the groups
/// of the project with the location fingerprint.
pub fn decide_group(
    error: &IncomingError,
    project_id: Option<i64>,
    lookup: &GroupLookup,
    exact: Option<i64>,
    candidates: &Vec<ErrorCandidate>,
) -> (decision: GroupDecision)
    ensures
        match decision {
            GroupDecision::Merge { id, last_seen_at } => group_for(
                exact,
                candidates@,
                error.message@,
            ) == Some(id) && last_seen_at@ == lookup.timestamp@,
            GroupDecision::Create(group) => group_for(exact, candidates@, error.message@).is_none()
                && founds(group, *error, project_id, *lookup),
        },
{
    let joined = match exact {
        Some(id) => Some(id),
        None => find_similar_error(candidates, error.message.as_str()),
    };
    match joined {
        Some(id) => GroupDecision::Merge { id, last_seen_at: lookup.timestamp.clone() },
        None => GroupDecision::Create(
            NewErrorGroup {
                project_id,
                fingerprint: lookup.location_fingerprint.clone(),
                exception_class: error.exception_class.clone(),
                message: error.message.clone(),
                first_seen_at: lookup.timestamp.clone(),
                last_seen_at: lookup.timestamp.clone(),
                occurrence_count: 1,
                status: ErrorStatus::Open.as_str().to_owned(),
            },
        ),
    }
}

/// The stored form of a source context; a list that the client left out is empty.
pub fn stored_context(incoming: &IncomingSourceContext) -> (stored: SourceContext)
    ensures
        context_describes(stored, *incoming),
{
    let pre_context = match &incoming.pre_context {
        Some(lines) => copy_strings(lines),
        None => Vec::new(),
    };
    let post_context = match &incoming.post_context {
        Some(lines) => copy_strings(lines),
        None => Vec::new(),
    };
    proof {
        assert(texts(Seq::<String>::empty()) =~= Seq::<Seq<char>>::empty());
    }
    SourceContext {
        file: incoming.file.clone(),
        lineno: incoming.lineno,
        pre_context,
        context_line: incoming.context_line.clone(),
        post_context,
    }
}

/// The last step of storing an error: the occurrence to append to the group `error_id`.
pub fn occurrence_for(error: &IncomingError, error_id: i64, lookup: &GroupLookup) -> (occurrence:
    NewOccurrence)
    ensures
        occurrence_describes(occurrence, *error, error_id, lookup.timestamp@),
{
    let source_context = match &error.source_context {
        Some(incoming) => Some(stored_context(incoming)),
        None => None,
    };
    NewOccurrence {
        error_id,
        request_id: copy_text(&error.request_id),
        user_id: copy_text(&error.user_id),
        backtrace: copy_strings(&error.backtrace),
        params: copy_text(&error.params),
        happened_at: lookup.timestamp.clone(),
        source_context,
    }
}

} // verus!
