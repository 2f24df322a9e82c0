//! Requests to the AI workstation gateway: which URL each call goes to, with
//! which method and timeout, and what each outcome of the exchange yields.
use vstd::prelude::*;
use crate::text::{chars_of, decimal, push_str, string_of, sub_chars};

verus! {

/// Where the gateway listens when no URL is given.
pub const GATEWAY_DEFAULT_URL: &'static str = "http://localhost:8000";

/// Timeout of the health check and of the tool listing, in seconds.
pub const HEALTH_TIMEOUT_SECS: u64 = 5;

/// Timeout of the memory calls, in seconds.
pub const MEMORY_TIMEOUT_SECS: u64 = 10;

/// Timeout of a tool execution, in seconds.
pub const TOOL_TIMEOUT_SECS: u64 = 30;

/// The memory scope used when the caller names none.
pub const DEFAULT_SCOPE: &'static str = "project";

/// What a health check of the gateway found.
#[derive(Debug, Clone)]
pub struct GatewayHealth {
    pub url: String,
    pub healthy: bool,
    pub latency_ms: u64,
    pub error: Option<String>,
}

/// One remembered item of the gateway's semantic memory.
#[derive(Debug, Clone)]
pub struct MemoryEntry {
    pub id: String,
    pub content: String,
    pub scope: String,
    pub timestamp: String,
}

/// The memories that a recall returned.
#[derive(Debug, Clone)]
pub struct RecallResult {
    pub memories: Vec<MemoryEntry>,
}

/// A memory to be stored by the gateway.
#[derive(Debug, Clone)]
pub struct RememberRequest {
    pub content: String,
    pub scope: String,
}

/// A query of the gateway's semantic memory.
#[derive(Debug, Clone)]
pub struct RecallRequest {
    pub query: String,
    pub scope: String,
}

/// A tool that the gateway offers.
#[derive(Debug, Clone)]
pub struct McpToolInfo {
    pub name: String,
    pub description: String,
}

/// The tools that the gateway offers.
#[derive(Debug, Clone)]
pub struct McpToolList {
    pub tools: Vec<McpToolInfo>,
}

/// `s` without the slashes at its end.
pub open spec fn trim_end_slashes(s: Seq<char>) -> Seq<char>
    decreases s.len(),
{
    if s.len() > 0 && s.last() == '/' {
        trim_end_slashes(s.drop_last())
    } else {
        s
    }
}

/// The default gateway URL.
pub fn gateway_default_url() -> (r: String)
    ensures
        r@ == GATEWAY_DEFAULT_URL@,
{
    String::from_str(GATEWAY_DEFAULT_URL)
}

/// The gateway URL to use: the one given, else the default.
pub fn resolve_gateway_url(url: Option<String>) -> (r: String)
    ensures
        r@ == match url {
            Some(u) => u@,
            None => GATEWAY_DEFAULT_URL@,
        },
{
    match url {
        Some(u) => u,
        None => gateway_default_url(),
    }
}

/// The memory scope to use: the one given, else `project`.
pub fn resolve_scope(scope: Option<String>) -> (r: String)
    ensures
        r@ == match scope {
            Some(s) => s@,
            None => DEFAULT_SCOPE@,
        },
{
    match scope {
        Some(s) => s,
        None => String::from_str(DEFAULT_SCOPE),
    }
}

/// The body of a memory recall: the query, in the given scope or else in
/// `project`.
pub fn recall_request(query: String, scope: Option<String>) -> (r: RecallRequest)
    ensures
        r.query@ == query@,
        r.scope@ == match scope {
            Some(s) => s@,
            None => DEFAULT_SCOPE@,
        },
{
    RecallRequest { query, scope: resolve_scope(scope) }
}

/// The body of a memory store: the content, in the given scope or else in
/// `project`.
pub fn remember_request(content: String, scope: Option<String>) -> (r: RememberRequest)
    ensures
        r.content@ == content@,
        r.scope@ == match scope {
            Some(s) => s@,
            None => DEFAULT_SCOPE@,
        },
{
    RememberRequest { content, scope: resolve_scope(scope) }
}

/// The URL of the endpoint `path` of the gateway at `base`: the slashes at the
/// end of `base` are dropped and `path` is appended.
pub fn endpoint_url(base: &str, path: &str) -> (r: String)
    ensures
        r@ == trim_end_slashes(base@) + path@,
{
    let b = chars_of(base);
    let mut end: usize = b.len();
    assert(b@.take(b.len() as int) =~= b@);
    while end > 0 && b[end - 1] == '/'
        invariant
            end <= b.len(),
            trim_end_slashes(b@) == trim_end_slashes(b@.take(end as int)),
        decreases end,
    {
        assert(b@.take(end as int).drop_last() =~= b@.take(end - 1));
        end = end - 1;
    }
    let kept = sub_chars(&b, 0, end);
    let mut r = string_of(&kept);
    push_str(&mut r, path);
    r
}

/// Proof that slashes at the end of a gateway URL make no difference to the
/// endpoint URLs built from it.
pub proof fn lemma_trailing_slashes_ignored(base: Seq<char>, n: nat)
    ensures
        trim_end_slashes(base + Seq::new(n, |i: int| '/')) == trim_end_slashes(base),
    decreases n,
{
    let s = base + Seq::new(n, |i: int| '/');
    if n > 0 {
        assert(s.drop_last() =~= base + Seq::new((n - 1) as nat, |i: int| '/'));
        lemma_trailing_slashes_ignored(base, (n - 1) as nat);
    } else {
        assert(s =~= base);
    }
}

/// Proof that trimming leaves no slash at the end, so trimming twice is the
/// same as trimming once.
pub proof fn lemma_trim_end_slashes_idempotent(s: Seq<char>)
    ensures
        trim_end_slashes(s).len() == 0 || trim_end_slashes(s).last() != '/',
        trim_end_slashes(trim_end_slashes(s)) == trim_end_slashes(s),
        trim_end_slashes(s).is_prefix_of(s),
    decreases s.len(),
{
    if s.len() > 0 && s.last() == '/' {
        lemma_trim_end_slashes_idempotent(s.drop_last());
    }
}

/// The calls that the backend makes to the gateway.
#[derive(Debug, Clone, Copy, PartialEq, Eq, Structural)]
pub enum GatewayCall {
    Health,
    Recall,
    Remember,
    ListTools,
    ExecuteTool,
}

/// The HTTP method of a call.
#[derive(Debug, Clone, Copy, PartialEq, Eq, Structural)]
pub enum HttpMethod {
    Get,
    Post,
}

/// How a call is sent: method, URL and timeout.
#[derive(Debug)]
pub struct RequestPlan {
    pub method: HttpMethod,
    pub url: String,
    pub timeout_secs: u64,
}

/// The path of a call's endpoint below the gateway URL.
pub open spec fn call_path(call: GatewayCall, tool_name: Seq<char>) -> Seq<char> {
    match call {
        GatewayCall::Health => "/health"@,
        GatewayCall::Recall => "/memory/recall"@,
        GatewayCall::Remember => "/memory/remember"@,
        GatewayCall::ListTools => "/tools"@,
        GatewayCall::ExecuteTool => "/tools/"@ + tool_name + "/execute"@,
    }
}

/// Proof that the path of a tool execution carries the tool name verbatim:
/// it is `/tools/`, then exactly the given name, then `/execute`.
pub proof fn lemma_execute_path_carries_tool_name(tool_name: Seq<char>)
    ensures
        call_path(GatewayCall::ExecuteTool, tool_name) == "/tools/"@ + tool_name + "/execute"@,
        call_path(GatewayCall::ExecuteTool, tool_name).len() == tool_name.len() + 15,
        call_path(GatewayCall::ExecuteTool, tool_name).take(7) == "/tools/"@,
        call_path(GatewayCall::ExecuteTool, tool_name).subrange(7, tool_name.len() + 7int) == tool_name,
        call_path(GatewayCall::ExecuteTool, tool_name).skip(tool_name.len() + 7int) == "/execute"@,
{
    reveal_strlit("/tools/");
    reveal_strlit("/execute");
    let p = call_path(GatewayCall::ExecuteTool, tool_name);
    assert(p.take(7) =~= "/tools/"@);
    assert(p.subrange(7, tool_name.len() + 7int) =~= tool_name);
    assert(p.skip(tool_name.len() + 7int) =~= "/execute"@);
}

/// The method of a call.
pub open spec fn call_method(call: GatewayCall) -> HttpMethod {
    match call {
        GatewayCall::Health | GatewayCall::ListTools => HttpMethod::Get,
        _ => HttpMethod::Post,
    }
}

/// The timeout of a call, in seconds.
pub open spec fn call_timeout(call: GatewayCall) -> u64 {
    match call {
        GatewayCall::Health | GatewayCall::ListTools => HEALTH_TIMEOUT_SECS,
        GatewayCall::Recall | GatewayCall::Remember => MEMORY_TIMEOUT_SECS,
        GatewayCall::ExecuteTool => TOOL_TIMEOUT_SECS,
    }
}

/// How to send `call` to the gateway at `url` (the default one when `None`);
/// `tool_name` names the tool of an execution and is ignored otherwise.
pub fn plan_request(call: GatewayCall, url: Option<String>, tool_name: &str) -> (p: RequestPlan)
    ensures
        p.method == call_method(call),
        p.timeout_secs == call_timeout(call),
        p.url@ == trim_end_slashes(
            match url {
                Some(u) => u@,
                None => GATEWAY_DEFAULT_URL@,
            },
        ) + call_path(call, tool_name@),
        call == GatewayCall::ExecuteTool ==> p.url@ == trim_end_slashes(
            match url {
                Some(u) => u@,
                None => GATEWAY_DEFAULT_URL@,
            },
        ) + "/tools/"@ + tool_name@ + "/execute"@,
{
    proof {
        lemma_execute_path_carries_tool_name(tool_name@);
    }
    let base = resolve_gateway_url(url);
    let (method, timeout_secs) = match call {
        GatewayCall::Health => (HttpMethod::Get, HEALTH_TIMEOUT_SECS),
        GatewayCall::Recall => (HttpMethod::Post, MEMORY_TIMEOUT_SECS),
        GatewayCall::Remember => (HttpMethod::Post, MEMORY_TIMEOUT_SECS),
        GatewayCall::ListTools => (HttpMethod::Get, HEALTH_TIMEOUT_SECS),
        GatewayCall::ExecuteTool => (HttpMethod::Post, TOOL_TIMEOUT_SECS),
    };
    let path = match call {
        GatewayCall::Health => String::from_str("/health"),
        GatewayCall::Recall => String::from_str("/memory/recall"),
        GatewayCall::Remember => String::from_str("/memory/remember"),
        GatewayCall::ListTools => String::from_str("/tools"),
        GatewayCall::ExecuteTool => {
            let mut p = String::from_str("/tools/");
            push_str(&mut p, tool_name);
            push_str(&mut p, "/execute");
            p
        },
    };
    let url = endpoint_url(base.as_str(), path.as_str());
    RequestPlan { method, url, timeout_secs }
}

/// The reason phrase that the HTTP crate knows for a status code, if any.
pub uninterp spec fn canonical_reason(code: u16) -> Option<Seq<char>>;

/// How a status code is displayed: its number, a space, and its reason phrase
/// (or `<unknown status code>`).
pub open spec fn status_display(code: u16) -> Seq<char> {
    decimal(code as nat) + seq![' '] + match canonical_reason(code) {
        Some(r) => r,
        None => "<unknown status code>"@,
    }
}

/// The text of a status code, as `reqwest::StatusCode` displays it.
///
/// Trusted: builds the `reqwest::StatusCode` (the `http` crate's type) of
/// `code` and formats it with its `Display` impl, which writes the number, a
/// space and the canonical reason phrase or `<unknown status code>`; the
/// phrase itself is named by `canonical_reason`.
#[verifier::external_body]
pub fn status_text(code: u16) -> (s: String)
    requires
        100 <= code <= 999,
    ensures
        s@ == decimal(code as nat) + seq![' '] + match canonical_reason(code) {
            Some(r) => r,
            None => "<unknown status code>"@,
        },
{
    match reqwest::StatusCode::from_u16(code) {
        Ok(status) => status.to_string(),
        Err(_) => String::new(),
    }
}

/// Whether a status code reports success (200 through 299).
pub fn is_success(code: u16) -> (b: bool)
    ensures
        b == (200 <= code < 300),
{
    200 <= code && code < 300
}

/// What happened while a call was under way.
#[derive(Debug)]
pub enum CallEvent {
    /// The HTTP client could not be built; the error's text.
    ClientFailed(String),
    /// The request could not be sent; the error's text and the time taken.
    SendFailed { error: String, latency_ms: u64 },
    /// The gateway answered with this status after this time.
    Responded { status: u16, latency_ms: u64 },
    /// The answer's body could not be decoded; the error's text.
    BodyUnreadable(String),
}

/// What the call does next.
#[derive(Debug)]
pub enum CallStep {
    /// The call ends with this error.
    Fail(String),
    /// The health check ends with this report.
    Report(GatewayHealth),
    /// The call ends with this flag of acceptance.
    Accepted(bool),
    /// The body of the answer is to be decoded as the call's result.
    ReadBody,
}

/// Whether a call decodes the body of a successful answer.
pub open spec fn reads_body(call: GatewayCall) -> bool {
    call == GatewayCall::Recall || call == GatewayCall::ListTools || call == GatewayCall::ExecuteTool
}

/// The text that precedes the error of a request that could not be sent.
pub open spec fn send_context(call: GatewayCall) -> Seq<char> {
    match call {
        GatewayCall::Recall => "memory recall request failed"@,
        GatewayCall::Remember => "memory remember request failed"@,
        GatewayCall::ListTools => "failed to list MCP tools"@,
        _ => "failed to execute MCP tool"@,
    }
}

/// The text that precedes the status of an unsuccessful answer.
pub open spec fn status_context(call: GatewayCall) -> Seq<char> {
    match call {
        GatewayCall::Recall => "memory recall returned status"@,
        GatewayCall::ListTools => "tools endpoint returned status"@,
        GatewayCall::ExecuteTool => "tool execution returned status"@,
        _ => "gateway returned status"@,
    }
}

/// The text that precedes the error of an undecodable body.
pub open spec fn body_context(call: GatewayCall) -> Seq<char> {
    match call {
        GatewayCall::Recall => "failed to parse recall response"@,
        GatewayCall::ListTools => "failed to parse tools response"@,
        _ => "failed to parse tool response"@,
    }
}

/// The text of a failed client construction.
pub open spec fn client_failure(error: Seq<char>) -> Seq<char> {
    "failed to build http client: "@ + error
}

/// The message of an unsuccessful answer to `call`, given the text of its
/// status (as `status_text` gives it).
pub fn status_message(call: GatewayCall, status_text: &str) -> (r: String)
    ensures
        r@ == status_context(call) + " "@ + status_text@,
{
    let mut m = match call {
        GatewayCall::Recall => String::from_str("memory recall returned status"),
        GatewayCall::ListTools => String::from_str("tools endpoint returned status"),
        GatewayCall::ExecuteTool => String::from_str("tool execution returned status"),
        _ => String::from_str("gateway returned status"),
    };
    push_str(&mut m, " ");
    push_str(&mut m, status_text);
    m
}

/// What a call to the gateway at `gateway_url` does after `event`.
///
/// A health check never fails once its client is built: it reports the
/// gateway unhealthy instead. A memory store answers whether the gateway
/// accepted it. The other calls fail on an unsuccessful status and otherwise
/// go on to decode the body.
pub fn gateway_step(call: GatewayCall, gateway_url: &str, event: CallEvent) -> (s: CallStep)
    requires
        event matches CallEvent::Responded { status, .. } ==> 100 <= status <= 999,
        event is BodyUnreadable ==> reads_body(call),
    ensures
        match event {
            CallEvent::ClientFailed(e) => s matches CallStep::Fail(m) && m@ == client_failure(e@),
            CallEvent::SendFailed { error, latency_ms } => if call == GatewayCall::Health {
                &&& s matches CallStep::Report(h)
                &&& h.url@ == gateway_url@
                &&& !h.healthy
                &&& h.latency_ms == latency_ms
                &&& h.error matches Some(m) && m@ == error@
            } else {
                s matches CallStep::Fail(m) && m@ == send_context(call) + ": "@ + error@
            },
            CallEvent::Responded { status, latency_ms } => {
                let ok = 200 <= status < 300;
                if call == GatewayCall::Health {
                    &&& s matches CallStep::Report(h)
                    &&& h.url@ == gateway_url@
                    &&& h.healthy == ok
                    &&& h.latency_ms == latency_ms
                    &&& ok ==> h.error is None
                    &&& !ok ==> (h.error matches Some(m) && m@ == status_context(call) + " "@
                        + status_display(status))
                } else if call == GatewayCall::Remember {
                    s matches CallStep::Accepted(b) && b == ok
                } else if ok {
                    s is ReadBody
                } else {
                    s matches CallStep::Fail(m) && m@ == status_context(call) + " "@ + status_display(status)
                }
            },
            CallEvent::BodyUnreadable(e) => s matches CallStep::Fail(m) && m@ == body_context(call) + ": "@ + e@,
        },
{
    match event {
        CallEvent::ClientFailed(e) => {
            let mut m = String::from_str("failed to build http client: ");
            push_str(&mut m, e.as_str());
            CallStep::Fail(m)
        },
        CallEvent::SendFailed { error, latency_ms } => {
            if call == GatewayCall::Health {
                CallStep::Report(GatewayHealth {
                    url: String::from_str(gateway_url),
                    healthy: false,
                    latency_ms,
                    error: Some(error),
                })
            } else {
                let mut m = match call {
                    GatewayCall::Recall => String::from_str("memory recall request failed"),
                    GatewayCall::Remember => String::from_str("memory remember request failed"),
                    GatewayCall::ListTools => String::from_str("failed to list MCP tools"),
                    _ => String::from_str("failed to execute MCP tool"),
                };
                push_str(&mut m, ": ");
                push_str(&mut m, error.as_str());
                CallStep::Fail(m)
            }
        },
        CallEvent::Responded { status, latency_ms } => {
            let ok = is_success(status);
            if call == GatewayCall::Remember {
                return CallStep::Accepted(ok);
            }
            if ok && call != GatewayCall::Health {
                return CallStep::ReadBody;
            }
            let error = if ok {
                None
            } else {
                let text = status_text(status);
                Some(status_message(call, text.as_str()))
            };
            if call == GatewayCall::Health {
                CallStep::Report(GatewayHealth {
                    url: String::from_str(gateway_url),
                    healthy: ok,
                    latency_ms,
                    error,
                })
            } else {
                match error {
                    Some(m) => CallStep::Fail(m),
                    None => CallStep::ReadBody,
                }
            }
        },
        CallEvent::BodyUnreadable(e) => {
            let mut m = match call {
                GatewayCall::Recall => String::from_str("failed to parse recall response"),
                GatewayCall::ListTools => String::from_str("failed to parse tools response"),
                _ => String::from_str("failed to parse tool response"),
            };
            push_str(&mut m, ": ");
            push_str(&mut m, e.as_str());
            CallStep::Fail(m)
        },
    }
}

} // verus!
