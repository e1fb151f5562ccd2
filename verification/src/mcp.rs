//! The JSON-RPC tool interface: which method a request names, which tool a call runs and
//! with which arguments. Reading and writing JSON, and running the tool against the store,
//! happen outside.

use crate::clock::{
    format_rfc3339, has_month_before, rfc3339_utc, NANOS_PER_DAY, NANOS_PER_HOUR,
};
use crate::text::{append_str, copy_text, str_eq, text_of};
use vstd::prelude::*;

verus! {

/// The JSON-RPC error code of a request that is no JSON.
pub const PARSE_ERROR: i32 = -32700;

/// The JSON-RPC error code of every other failure.
pub const INTERNAL_ERROR: i32 = -32603;

/// The number of error groups or routes that a tool lists where the call names none.
pub const DEFAULT_LIMIT: i64 = 10;

/// The number of occurrences that the details of an error show.
pub const DETAIL_OCCURRENCES: i64 = 5;

/// The error of a JSON-RPC response.
#[derive(Debug, Clone)]
pub struct McpError {
    pub code: i32,
    pub message: String,
}

/// A method of the interface.
#[derive(Debug, Clone, Copy, PartialEq, Eq, Structural)]
pub enum McpMethod {
    Initialize,
    ListTools,
    CallTool,
}

/// The arguments of a tool call, as far as any tool reads them. Each is absent where the
/// call does not give it, or gives it with another type.
#[derive(Debug, Clone)]
pub struct ToolArguments {
    pub name: Option<String>,
    pub status: Option<String>,
    pub limit: Option<i64>,
    pub id: Option<i64>,
    pub period: Option<String>,
}

/// What a tool call asks of the store.
#[derive(Debug, Clone)]
pub enum ToolCall {
    /// The most recent error groups of all projects, `limit` at most, with the given
    /// status if one is given.
    ListErrors { status: Option<String>, limit: i64 },
    /// The error group `id` with its latest occurrences, `occurrences` at most.
    ErrorDetails { id: i64, occurrences: i64 },
    /// The slowest routes since `since` by average latency, `limit` at most.
    SlowRoutes { since: String, limit: i64 },
    /// The number of requests and errors and the latency since `since`.
    SystemStatus { since: String },
}

/// The method that a name stands for.
pub open spec fn method_of(name: Seq<char>) -> Option<McpMethod> {
    if name == "initialize"@ {
        Some(McpMethod::Initialize)
    } else if name == "tools/list"@ {
        Some(McpMethod::ListTools)
    } else if name == "tools/call"@ {
        Some(McpMethod::CallTool)
    } else {
        None
    }
}

/// Whether a name is that of a tool.
pub open spec fn is_tool(name: Seq<char>) -> bool {
    ||| name == "list_errors"@
    ||| name == "error_details"@
    ||| name == "slow_routes"@
    ||| name == "system_status"@
}

/// Why a tool call cannot be run, if it cannot: it has no parameters, it names no tool or
/// none that exists, or it asks for the details of an error without its id.
pub open spec fn call_failure(params: Option<ToolArguments>) -> Option<Seq<char>> {
    match params {
        None => Some("Missing params"@),
        Some(args) => match args.name {
            None => Some("Missing tool name"@),
            Some(name) => if !is_tool(name@) {
                Some("Unknown tool: "@ + name@)
            } else if name@ == "error_details"@ && args.id.is_none() {
                Some("Missing id"@)
            } else {
                None
            },
        },
    }
}

/// The limit of a call: the one it names, or else ten.
pub open spec fn limit_of(args: ToolArguments) -> i64 {
    match args.limit {
        Some(l) => l,
        None => DEFAULT_LIMIT,
    }
}

/// The instant from which on the slow routes are taken: a week or thirty days back for
/// the periods `7d` and `30d`, and a day back for any other period or none.
pub open spec fn routes_since(args: ToolArguments, now: i64) -> int {
    match args.period {
        Some(p) => if p@ == "7d"@ {
            now - 7 * NANOS_PER_DAY
        } else if p@ == "30d"@ {
            now - 30 * NANOS_PER_DAY
        } else {
            now - 24 * NANOS_PER_HOUR
        },
        None => now - 24 * NANOS_PER_HOUR,
    }
}

/// Whether `call` is what the arguments `args` ask for at `now`.
pub open spec fn call_describes(call: ToolCall, args: ToolArguments, now: i64) -> bool {
    let name = args.name.unwrap()@;
    match call {
        ToolCall::ListErrors { status, limit } => name == "list_errors"@ && text_of(status)
            == text_of(args.status) && limit == limit_of(args),
        ToolCall::ErrorDetails { id, occurrences } => name == "error_details"@ && args.id == Some(
            id,
        ) && occurrences == DETAIL_OCCURRENCES,
        ToolCall::SlowRoutes { since, limit } => name == "slow_routes"@ && since@ == rfc3339_utc(
            routes_since(args, now) as i64,
        ) && limit == limit_of(args),
        ToolCall::SystemStatus { since } => name == "system_status"@ && since@ == rfc3339_utc(
            (now - 24 * NANOS_PER_HOUR) as i64,
        ),
    }
}

/// The method that a request names. A name that is none of the interface is an error.
pub fn route_method(name: &str) -> (r: Result<McpMethod, McpError>)
    ensures
        match r {
            Ok(method) => method_of(name@) == Some(method),
            Err(e) => method_of(name@).is_none() && e.code == INTERNAL_ERROR && e.message@
                == "Unknown method: "@ + name@,
        },
{
    if str_eq(name, "initialize") {
        Ok(McpMethod::Initialize)
    } else if str_eq(name, "tools/list") {
        Ok(McpMethod::ListTools)
    } else if str_eq(name, "tools/call") {
        Ok(McpMethod::CallTool)
    } else {
        Err(McpError { code: INTERNAL_ERROR, message: append_str("Unknown method: ", name) })
    }
}

/// The error of a request that is no JSON; `reason` is what the parser said.
pub fn parse_failure(reason: &str) -> (e: McpError)
    ensures
        e.code == PARSE_ERROR,
        e.message@ == "Parse error: "@ + reason@,
{
    McpError { code: PARSE_ERROR, message: append_str("Parse error: ", reason) }
}

/// The error of a call that failed with `message`.
pub fn call_error(message: &str) -> (e: McpError)
    ensures
        e.code == INTERNAL_ERROR,
        e.message@ == message@,
{
    McpError { code: INTERNAL_ERROR, message: message.to_owned() }
}

/// What a tool call asks of the store. `params` are the parameters of the request, absent
/// where the request has none.
pub fn plan_tool_call(params: &Option<ToolArguments>, now_nanos: i64) -> (r: Result<
    ToolCall,
    McpError,
>)
    requires
        has_month_before(now_nanos),
    ensures
        match r {
            Ok(call) => call_failure(*params).is_none() && call_describes(
                call,
                params.unwrap(),
                now_nanos,
            ),
            Err(e) => e.code == INTERNAL_ERROR && call_failure(*params) == Some(e.message@),
        },
{
    let args = match params {
        Some(a) => a,
        None => {
            return Err(call_error("Missing params"));
        },
    };
    let name = match &args.name {
        Some(n) => n.as_str(),
        None => {
            return Err(call_error("Missing tool name"));
        },
    };
    let limit: i64 = match args.limit {
        Some(l) => l,
        None => DEFAULT_LIMIT,
    };
    proof {
        reveal_strlit("list_errors");
        reveal_strlit("error_details");
        reveal_strlit("slow_routes");
        assert("list_errors"@.len() == 11 && "slow_routes"@.len() == 11);
    }
    if str_eq(name, "list_errors") {
        Ok(ToolCall::ListErrors { status: copy_text(&args.status), limit })
    } else if str_eq(name, "error_details") {
        match args.id {
            Some(id) => Ok(ToolCall::ErrorDetails { id, occurrences: DETAIL_OCCURRENCES }),
            None => Err(call_error("Missing id")),
        }
    } else if str_eq(name, "slow_routes") {
        let day_back: i64 = now_nanos - 24 * NANOS_PER_HOUR;
        let since: i64 = match &args.period {
            Some(p) => {
                if str_eq(p.as_str(), "7d") {
                    now_nanos - 7 * NANOS_PER_DAY
                } else if str_eq(p.as_str(), "30d") {
                    now_nanos - 30 * NANOS_PER_DAY
                } else {
                    day_back
                }
            },
            None => day_back,
        };
        Ok(ToolCall::SlowRoutes { since: format_rfc3339(since), limit })
    } else if str_eq(name, "system_status") {
        Ok(ToolCall::SystemStatus { since: format_rfc3339(now_nanos - 24 * NANOS_PER_HOUR) })
    } else {
        Err(McpError { code: INTERNAL_ERROR, message: append_str("Unknown tool: ", name) })
    }
}

/// The names of the tools, in the order in which the interface lists them.
pub fn tool_names() -> (names: Vec<&'static str>)
    ensures
        names.len() == 4,
        names[0]@ == "list_errors"@,
        names[1]@ == "error_details"@,
        names[2]@ == "slow_routes"@,
        names[3]@ == "system_status"@,
        forall|i: int| 0 <= i < 4 ==> is_tool(#[trigger] names[i]@),
{
    let mut names: Vec<&'static str> = Vec::new();
    names.push("list_errors");
    names.push("error_details");
    names.push("slow_routes");
    names.push("system_status");
    names
}

} // verus!
