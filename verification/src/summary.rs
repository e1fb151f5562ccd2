//! Trace summaries: one line for a trace in a list, with the name and the status that the
//! list shows for it.

use crate::category::RootSpanType;
use crate::stats::{ns_to_ms, to_ms};
use crate::text::{
    append_str, chars_of, contains, decimal_string, decimal_text, extend_chars, find, has_prefix,
    is_first_occurrence, matches_at, occurs_at, slice_of, starts_with, string_of, trim, trimmed,
};
use vstd::prelude::*;

verus! {

/// A trace in a list: its root span and the number of its spans.
#[derive(Debug, Clone)]
pub struct TraceSummary {
    pub trace_id: String,
    pub root_span_name: String,
    pub root_span_type: Option<RootSpanType>,
    pub duration_ns: i64,
    pub span_count: i64,
    pub status_code: i32,
    pub service_name: Option<String>,
    pub http_method: Option<String>,
    pub http_url: Option<String>,
    pub http_status_code: Option<i32>,
    pub happened_at: String,
}

/// The path of an address: of one with a scheme, what stands from the first slash behind
/// `://` on, and of one that begins with a slash, the whole. Any other address has no
/// path.
pub open spec fn url_path(url: Seq<char>) -> Option<Seq<char>> {
    if contains(url, "://"@) {
        let at = choose|i: int| is_first_occurrence(url, "://"@, i);
        let rest = url.skip(at + 3);
        if contains(rest, "/"@) {
            Some(rest.skip(choose|i: int| is_first_occurrence(rest, "/"@, i)))
        } else {
            None
        }
    } else if starts_with(url, "/"@) {
        Some(url)
    } else {
        None
    }
}

/// The path in the name of a span: of a name that begins with the method, what follows
/// the method, without the white space around it, and else the whole name.
pub open spec fn name_path(name: Seq<char>, method: Seq<char>) -> Seq<char> {
    if starts_with(name, method) {
        trimmed(name.skip(method.len() as int))
    } else {
        name
    }
}

/// The path of an optional address.
pub open spec fn path_of(url: Option<String>) -> Option<Seq<char>> {
    match url {
        Some(u) => url_path(u@),
        None => None,
    }
}

/// The HTTP status of a code at or above 500 is an error, of one at or above 400 a
/// warning, of any other fine. Without an HTTP status, the status of the span decides: 2
/// is an error.
pub open spec fn status_class_of(http_status_code: Option<i32>, status_code: i32) -> Seq<char> {
    match http_status_code {
        Some(code) => if code >= 500 {
            "status-error"@
        } else if code >= 400 {
            "status-warning"@
        } else {
            "status-ok"@
        },
        None => if status_code == 2 {
            "status-error"@
        } else {
            "status-ok"@
        },
    }
}

/// The label of a status: the HTTP status as a number, or else `Error` or `OK`.
pub open spec fn status_label_of(http_status_code: Option<i32>, status_code: i32) -> Seq<char> {
    match http_status_code {
        Some(code) => decimal_text(code as int),
        None => if status_code == 2 {
            "Error"@
        } else {
            "OK"@
        },
    }
}

/// The path of an address.
pub fn path_of_url(url: &str) -> (r: Option<String>)
    ensures
        match r {
            Some(p) => url_path(url@) == Some(p@),
            None => url_path(url@).is_none(),
        },
{
    let chars = chars_of(url);
    let scheme_end = chars_of("://");
    let slash = chars_of("/");
    proof {
        reveal_strlit("://");
        assert("://"@.len() == 3);
    }
    match find(&chars, &scheme_end) {
        Some(at) => {
            proof {
                assert(is_first_occurrence(url@, "://"@, at as int));
                assert(at + 3 <= chars.len());
            }
            let rest = slice_of(&chars, at + 3, chars.len());
            match find(&rest, &slash) {
                Some(p) => {
                    let path = slice_of(&rest, p, rest.len());
                    Some(string_of(&path))
                },
                None => None,
            }
        },
        None => {
            if matches_at(&chars, &slash, 0) {
                Some(url.to_owned())
            } else {
                None
            }
        },
    }
}

impl TraceSummary {
    /// The name that a list shows for the trace: for a web request the method and the
    /// path, for anything else the name of the root span.
    pub open spec fn shown_name(self) -> Seq<char> {
        match self.http_method {
            Some(method) => method@ + " "@ + match path_of(self.http_url) {
                Some(path) => path,
                None => name_path(self.root_span_name@, method@),
            },
            None => self.root_span_name@,
        }
    }

    /// The name that a list shows for the trace.
    pub fn display_name(&self) -> (name: String)
        ensures
            name@ == self.shown_name(),
    {
        match &self.http_method {
            Some(method) => {
                let from_url = match &self.http_url {
                    Some(url) => path_of_url(url.as_str()),
                    None => None,
                };
                let path: Vec<char> = match from_url {
                    Some(p) => chars_of(p.as_str()),
                    None => {
                        let name = chars_of(self.root_span_name.as_str());
                        if has_prefix(&name, method.as_str()) {
                            let m = chars_of(method.as_str());
                            let rest = slice_of(&name, m.len(), name.len());
                            trim(&rest)
                        } else {
                            name
                        }
                    },
                };
                let mut out = chars_of(method.as_str());
                let space = chars_of(" ");
                extend_chars(&mut out, &space);
                extend_chars(&mut out, &path);
                string_of(&out)
            },
            None => self.root_span_name.clone(),
        }
    }

    /// The style class of the status of the trace.
    pub fn status_class(&self) -> (class: &'static str)
        ensures
            class@ == status_class_of(self.http_status_code, self.status_code),
    {
        match self.http_status_code {
            Some(code) => {
                if code >= 500 {
                    "status-error"
                } else if code >= 400 {
                    "status-warning"
                } else {
                    "status-ok"
                }
            },
            None => {
                if self.status_code == 2 {
                    "status-error"
                } else {
                    "status-ok"
                }
            },
        }
    }

    /// The label of the status of the trace.
    pub fn status_label(&self) -> (label: String)
        ensures
            label@ == status_label_of(self.http_status_code, self.status_code),
    {
        match self.http_status_code {
            Some(code) => decimal_string(code as i64),
            None => {
                if self.status_code == 2 {
                    "Error".to_owned()
                } else {
                    "OK".to_owned()
                }
            },
        }
    }

    /// The duration of the trace in whole milliseconds.
    pub fn duration_ms_rounded(&self) -> (ms: i64)
        ensures
            ms == to_ms(self.duration_ns as int),
    {
        ns_to_ms(self.duration_ns)
    }
}

} // verus!
