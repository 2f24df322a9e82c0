use terax::gateway::{
    endpoint_url, gateway_default_url, gateway_step, is_success, plan_request, resolve_gateway_url,
    resolve_scope, status_text, CallEvent, CallStep, GatewayCall, HttpMethod,
};

#[test]
fn default_url() {
    assert_eq!(gateway_default_url(), "http://localhost:8000");
    assert_eq!(resolve_gateway_url(None), "http://localhost:8000");
    assert_eq!(resolve_gateway_url(Some("http://gw:9".to_string())), "http://gw:9");
}

#[test]
fn default_scope() {
    assert_eq!(resolve_scope(None), "project");
    assert_eq!(resolve_scope(Some("global".to_string())), "global");
}

#[test]
fn trailing_slashes_are_ignored() {
    assert_eq!(endpoint_url("http://h:1", "/health"), "http://h:1/health");
    assert_eq!(endpoint_url("http://h:1/", "/health"), "http://h:1/health");
    assert_eq!(endpoint_url("http://h:1///", "/health"), "http://h:1/health");
    assert_eq!(endpoint_url("///", "/tools"), "/tools");
    assert_eq!(endpoint_url("", "/tools"), "/tools");
}

#[test]
fn plans_of_each_call() {
    let p = plan_request(GatewayCall::Health, None, "");
    assert_eq!(p.url, "http://localhost:8000/health");
    assert_eq!(p.method, HttpMethod::Get);
    assert_eq!(p.timeout_secs, 5);

    let p = plan_request(GatewayCall::Recall, Some("http://gw/".to_string()), "");
    assert_eq!(p.url, "http://gw/memory/recall");
    assert_eq!(p.method, HttpMethod::Post);
    assert_eq!(p.timeout_secs, 10);

    let p = plan_request(GatewayCall::Remember, None, "");
    assert_eq!(p.url, "http://localhost:8000/memory/remember");
    assert_eq!(p.method, HttpMethod::Post);
    assert_eq!(p.timeout_secs, 10);

    let p = plan_request(GatewayCall::ListTools, None, "");
    assert_eq!(p.url, "http://localhost:8000/tools");
    assert_eq!(p.method, HttpMethod::Get);
    assert_eq!(p.timeout_secs, 5);

    let p = plan_request(GatewayCall::ExecuteTool, Some("http://gw//".to_string()), "grep");
    assert_eq!(p.url, "http://gw/tools/grep/execute");
    assert_eq!(p.method, HttpMethod::Post);
    assert_eq!(p.timeout_secs, 30);
}

#[test]
fn success_statuses() {
    assert!(!is_success(199));
    assert!(is_success(200));
    assert!(is_success(299));
    assert!(!is_success(300));
    assert!(!is_success(404));
}

#[test]
fn status_texts() {
    assert_eq!(status_text(200), "200 OK");
    assert_eq!(status_text(404), "404 Not Found");
    assert_eq!(status_text(503), "503 Service Unavailable");
    assert_eq!(status_text(299), "299 <unknown status code>");
}

fn fail_text(step: CallStep) -> String {
    match step {
        CallStep::Fail(m) => m,
        other => panic!("expected a failure, got {:?}", other),
    }
}

#[test]
fn client_failure_message() {
    let m = fail_text(gateway_step(GatewayCall::Recall, "u", CallEvent::ClientFailed("boom".to_string())));
    assert_eq!(m, "failed to build http client: boom");
    let m = fail_text(gateway_step(GatewayCall::Health, "u", CallEvent::ClientFailed("x".to_string())));
    assert_eq!(m, "failed to build http client: x");
}

#[test]
fn send_failure_messages() {
    let ev = |e: &str| CallEvent::SendFailed { error: e.to_string(), latency_ms: 3 };
    assert_eq!(fail_text(gateway_step(GatewayCall::Recall, "u", ev("down"))), "memory recall request failed: down");
    assert_eq!(fail_text(gateway_step(GatewayCall::Remember, "u", ev("down"))), "memory remember request failed: down");
    assert_eq!(fail_text(gateway_step(GatewayCall::ListTools, "u", ev("down"))), "failed to list MCP tools: down");
    assert_eq!(fail_text(gateway_step(GatewayCall::ExecuteTool, "u", ev("down"))), "failed to execute MCP tool: down");
}

#[test]
fn health_reports_send_failure() {
    match gateway_step(GatewayCall::Health, "http://gw", CallEvent::SendFailed { error: "refused".to_string(), latency_ms: 12 }) {
        CallStep::Report(h) => {
            assert_eq!(h.url, "http://gw");
            assert!(!h.healthy);
            assert_eq!(h.latency_ms, 12);
            assert_eq!(h.error, Some("refused".to_string()));
        }
        other => panic!("unexpected {:?}", other),
    }
}

#[test]
fn health_reports_status() {
    match gateway_step(GatewayCall::Health, "http://gw", CallEvent::Responded { status: 200, latency_ms: 4 }) {
        CallStep::Report(h) => {
            assert!(h.healthy);
            assert_eq!(h.latency_ms, 4);
            assert_eq!(h.error, None);
        }
        other => panic!("unexpected {:?}", other),
    }
    match gateway_step(GatewayCall::Health, "http://gw", CallEvent::Responded { status: 502, latency_ms: 9 }) {
        CallStep::Report(h) => {
            assert!(!h.healthy);
            assert_eq!(h.error, Some("gateway returned status 502 Bad Gateway".to_string()));
        }
        other => panic!("unexpected {:?}", other),
    }
}

#[test]
fn remember_answers_acceptance() {
    let ok = gateway_step(GatewayCall::Remember, "u", CallEvent::Responded { status: 201, latency_ms: 1 });
    assert!(matches!(ok, CallStep::Accepted(true)));
    let no = gateway_step(GatewayCall::Remember, "u", CallEvent::Responded { status: 500, latency_ms: 1 });
    assert!(matches!(no, CallStep::Accepted(false)));
}

#[test]
fn body_is_read_only_after_success() {
    for call in [GatewayCall::Recall, GatewayCall::ListTools, GatewayCall::ExecuteTool] {
        let s = gateway_step(call, "u", CallEvent::Responded { status: 200, latency_ms: 1 });
        assert!(matches!(s, CallStep::ReadBody));
    }
    let m = fail_text(gateway_step(GatewayCall::Recall, "u", CallEvent::Responded { status: 404, latency_ms: 1 }));
    assert_eq!(m, "memory recall returned status 404 Not Found");
    let m = fail_text(gateway_step(GatewayCall::ListTools, "u", CallEvent::Responded { status: 500, latency_ms: 1 }));
    assert_eq!(m, "tools endpoint returned status 500 Internal Server Error");
    let m = fail_text(gateway_step(GatewayCall::ExecuteTool, "u", CallEvent::Responded { status: 302, latency_ms: 1 }));
    assert_eq!(m, "tool execution returned status 302 Found");
}

#[test]
fn body_failure_messages() {
    let ev = || CallEvent::BodyUnreadable("bad json".to_string());
    assert_eq!(fail_text(gateway_step(GatewayCall::Recall, "u", ev())), "failed to parse recall response: bad json");
    assert_eq!(fail_text(gateway_step(GatewayCall::ListTools, "u", ev())), "failed to parse tools response: bad json");
    assert_eq!(fail_text(gateway_step(GatewayCall::ExecuteTool, "u", ev())), "failed to parse tool response: bad json");
}

#[test]
fn memory_store_bodies() {
    let r = terax::gateway::remember_request("note".to_string(), None);
    assert_eq!(r.content, "note");
    assert_eq!(r.scope, "project");
    let r = terax::gateway::remember_request("n".to_string(), Some("team".to_string()));
    assert_eq!(r.scope, "team");
}

#[test]
fn status_messages() {
    assert_eq!(terax::gateway::status_message(GatewayCall::Health, "418 I'm a teapot"), "gateway returned status 418 I'm a teapot");
    assert_eq!(terax::gateway::status_message(GatewayCall::Recall, "500 X"), "memory recall returned status 500 X");
}

#[test]
fn memory_recall_bodies() {
    let r = terax::gateway::recall_request("git".to_string(), None);
    assert_eq!(r.query, "git");
    assert_eq!(r.scope, "project");
    let r = terax::gateway::recall_request("q".to_string(), Some("team".to_string()));
    assert_eq!(r.scope, "team");
}
