use grimoire::server::auth::{
    extract_request_token, http_auth_middleware, http_login_get, http_login_post, http_logout,
    unauthorized_response, AuthToken, AUTH_COOKIE_NAME, LOGIN_PAGE_HTML,
};
use grimoire::server::handlers::{
    bridge, http_inscribe_scroll, http_invoke_agent, http_rpc_bridge, http_webhook,
    inscribe_request, mail_fault_status, require_message, Bridged,
};
use grimoire::server::uds::{
    bind_event, check_uds_auth, Connection, Line, LineStep, UdsAuthDecision,
};
use grimoire::types::AgentState;
use grimoire::webhook::WebhookConfig;

fn tok(s: &str) -> AuthToken {
    AuthToken::new(s)
}

#[test]
fn uds_peercred_trusted_bypasses_token() {
    assert_eq!(
        check_uds_auth(true, None, &tok("secret")),
        UdsAuthDecision::Pass
    );
    assert_eq!(
        check_uds_auth(true, Some("wrong"), &tok("secret")),
        UdsAuthDecision::Pass
    );
}

#[test]
fn uds_untrusted_with_matching_token_passes() {
    assert_eq!(
        check_uds_auth(false, Some("secret"), &tok("secret")),
        UdsAuthDecision::Pass
    );
}

#[test]
fn uds_untrusted_with_wrong_token_rejects() {
    assert_eq!(
        check_uds_auth(false, Some("nope"), &tok("secret")),
        UdsAuthDecision::Reject
    );
}

#[test]
fn uds_untrusted_with_missing_token_rejects() {
    assert_eq!(
        check_uds_auth(false, None, &tok("secret")),
        UdsAuthDecision::Reject
    );
}

#[test]
fn uds_untrusted_with_empty_token_rejects() {
    assert_eq!(
        check_uds_auth(false, Some(""), &tok("secret")),
        UdsAuthDecision::Reject
    );
}

#[test]
fn server_peercred_trusted_bypasses_token() {
    assert_eq!(
        check_uds_auth(true, None, &tok("secret")),
        UdsAuthDecision::Pass
    );
    assert_eq!(
        check_uds_auth(true, Some("wrong"), &tok("secret")),
        UdsAuthDecision::Pass
    );
}

#[test]
fn server_untrusted_with_matching_token_passes() {
    assert_eq!(
        check_uds_auth(false, Some("secret"), &tok("secret")),
        UdsAuthDecision::Pass
    );
}

#[test]
fn server_untrusted_with_wrong_token_rejects() {
    assert_eq!(
        check_uds_auth(false, Some("nope"), &tok("secret")),
        UdsAuthDecision::Reject
    );
}

#[test]
fn server_untrusted_with_missing_token_rejects() {
    assert_eq!(
        check_uds_auth(false, None, &tok("secret")),
        UdsAuthDecision::Reject
    );
}

#[test]
fn server_untrusted_with_empty_token_rejects() {
    assert_eq!(
        check_uds_auth(false, Some(""), &tok("secret")),
        UdsAuthDecision::Reject
    );
}

fn bearer(t: &str) -> String {
    format!("Bearer {t}")
}

#[test]
fn auth_extract_bearer_header() {
    let h = bearer("xyz");
    assert_eq!(extract_request_token(Some(&h), None).as_deref(), Some("xyz"));
}

#[test]
fn auth_extract_bearer_ignores_other_schemes() {
    assert_eq!(extract_request_token(Some("Basic dXNlcjpwYXNz"), None), None);
}

#[test]
fn auth_extract_cookie_alone() {
    let c = format!("{AUTH_COOKIE_NAME}=tok1");
    assert_eq!(extract_request_token(None, Some(&c)).as_deref(), Some("tok1"));
}

#[test]
fn auth_extract_cookie_among_others() {
    let c = format!("other=foo; {AUTH_COOKIE_NAME}=tok2; trailing=bar");
    assert_eq!(extract_request_token(None, Some(&c)).as_deref(), Some("tok2"));
}

#[test]
fn auth_extract_bearer_beats_cookie() {
    let h = bearer("from-header");
    let c = format!("{AUTH_COOKIE_NAME}=from-cookie");
    assert_eq!(
        extract_request_token(Some(&h), Some(&c)).as_deref(),
        Some("from-header")
    );
}

#[test]
fn auth_extract_no_credentials() {
    assert_eq!(extract_request_token(None, None), None);
}

#[test]
fn server_extract_bearer_header() {
    let h = bearer("xyz");
    assert_eq!(extract_request_token(Some(&h), None).as_deref(), Some("xyz"));
}

#[test]
fn server_extract_bearer_ignores_other_schemes() {
    assert_eq!(extract_request_token(Some("Basic dXNlcjpwYXNz"), None), None);
}

#[test]
fn server_extract_cookie_alone() {
    let c = format!("{AUTH_COOKIE_NAME}=tok1");
    assert_eq!(extract_request_token(None, Some(&c)).as_deref(), Some("tok1"));
}

#[test]
fn server_extract_cookie_among_others() {
    let c = format!("other=foo; {AUTH_COOKIE_NAME}=tok2; trailing=bar");
    assert_eq!(extract_request_token(None, Some(&c)).as_deref(), Some("tok2"));
}

#[test]
fn server_extract_bearer_beats_cookie() {
    let h = bearer("from-header");
    let c = format!("{AUTH_COOKIE_NAME}=from-cookie");
    assert_eq!(
        extract_request_token(Some(&h), Some(&c)).as_deref(),
        Some("from-header")
    );
}

#[test]
fn server_extract_no_credentials() {
    assert_eq!(extract_request_token(None, None), None);
}

#[test]
fn other_schemes_fall_back_to_the_cookie() {
    let c = format!("{AUTH_COOKIE_NAME}=c");
    assert_eq!(
        extract_request_token(Some("Basic x"), Some(&c)).as_deref(),
        Some("c")
    );
    assert_eq!(
        extract_request_token(Some("Bearer   padded "), Some(&c)).as_deref(),
        Some("padded")
    );
}

#[test]
fn protected_routes_need_the_token() {
    let t = tok("secret");
    let wrong = format!("{AUTH_COOKIE_NAME}=wrong");
    let right = format!("{AUTH_COOKIE_NAME}=secret");
    assert!(!http_auth_middleware(&t, None, None));
    assert!(!http_auth_middleware(&t, Some("Bearer nope"), None));
    assert!(http_auth_middleware(&t, Some("Bearer secret"), None));
    assert!(http_auth_middleware(&t, None, Some(&right)));
    assert!(!http_auth_middleware(&t, None, Some(&wrong)));
    assert!(!http_auth_middleware(&t, Some("Bearer nope"), Some(&right)));
}

#[test]
fn refusals_fit_the_path() {
    let r = unauthorized_response("/api/ping");
    assert_eq!(r.status, 401);
    assert_eq!(r.content_type.as_deref(), Some("application/json"));
    assert_eq!(r.body, r#"{"error":"unauthenticated"}"#);
    let r = unauthorized_response("/");
    assert_eq!(r.status, 401);
    assert_eq!(r.content_type.as_deref(), Some("text/html; charset=utf-8"));
    assert_eq!(r.body, LOGIN_PAGE_HTML);
}

#[test]
fn login_flow() {
    let t = tok("secret");
    let r = http_login_get(&t, Some("secret"));
    assert_eq!(r.status, 303);
    assert_eq!(r.location.as_deref(), Some("/"));
    assert_eq!(
        r.set_cookie.as_deref(),
        Some("grim_auth=secret; Path=/; HttpOnly; SameSite=Strict; Max-Age=86400")
    );
    assert_eq!(http_login_get(&t, Some("nope")).status, 200);
    assert_eq!(http_login_get(&t, None).status, 200);
    assert_eq!(http_login_post(&t, "secret").status, 303);
    assert_eq!(http_login_post(&t, "").status, 401);
    let r = http_logout();
    assert_eq!(r.status, 200);
    assert_eq!(r.body, "logged out");
    assert_eq!(
        r.set_cookie.as_deref(),
        Some("grim_auth=; Max-Age=0; Path=/; HttpOnly; SameSite=Strict")
    );
}

fn request(method: &str, token: Option<&str>) -> Line {
    Line::Request {
        id: 7,
        method: method.to_string(),
        auth_token: token.map(str::to_string),
    }
}

#[test]
fn connections_of_the_owner_are_trusted() {
    assert!(Connection::open(Some(5), 5).authed);
    assert!(!Connection::open(Some(6), 5).authed);
    assert!(!Connection::open(None, 5).authed);
}

#[test]
fn a_connection_authenticates_once() {
    let t = tok("secret");
    let mut c = Connection::open(None, 5);
    assert!(matches!(c.take(&request("x", Some("secret")), &t), LineStep::Dispatch));
    assert!(c.authed);
    assert!(matches!(c.take(&request("x", None), &t), LineStep::Dispatch));
    assert!(matches!(c.take(&request("agent.bind", None), &t), LineStep::Bind));
}

#[test]
fn a_failed_attempt_closes_the_connection() {
    let t = tok("secret");
    let mut c = Connection::open(None, 5);
    match c.take(&request("x", Some("guess")), &t) {
        LineStep::Close { id, fault } => {
            assert_eq!(id, 7);
            assert_eq!(fault.code, -32000);
            assert_eq!(fault.message, "unauthenticated");
        }
        _ => panic!("expected a close"),
    }
    assert!(!c.authed);
}

#[test]
fn garbled_lines_are_answered() {
    let t = tok("secret");
    let mut c = Connection::open(None, 5);
    match c.take(&Line::Garbled("eof".to_string()), &t) {
        LineStep::Answer { id, fault } => {
            assert_eq!(id, 0);
            assert_eq!(fault.code, -32700);
            assert_eq!(fault.message, "Parse error: eof");
        }
        _ => panic!("expected an answer"),
    }
}

#[test]
fn bound_streams_forward_and_end() {
    let s = bind_event("a", Some("a"), Some(AgentState::Active));
    assert!(s.forward && !s.end);
    let s = bind_event("a", Some("b"), Some(AgentState::Failed));
    assert!(!s.forward && s.end);
    let s = bind_event("a", None, None);
    assert!(!s.forward && !s.end);
}

fn hook(topic: Option<&str>, recipient: Option<&str>, secret: Option<&str>) -> WebhookConfig {
    WebhookConfig {
        topic: topic.map(str::to_string),
        recipient: recipient.map(str::to_string),
        secret: secret.map(str::to_string),
    }
}

fn refused(cfg: Option<&WebhookConfig>, token: Option<&str>, body: Vec<u8>) -> (u16, String) {
    let e = http_webhook(cfg, token, body).unwrap_err();
    (e.status, e.code)
}

#[test]
fn webhooks_turn_into_mail() {
    let open = hook(Some("pr"), None, None);
    let m = http_webhook(Some(&open), None, "h\u{e9}".as_bytes().to_vec()).unwrap();
    assert_eq!(m.to, "topic://pr");
    assert_eq!(m.body, "h\u{e9}");
    let closed = hook(None, Some("a1"), Some("s"));
    let m = http_webhook(Some(&closed), Some("s"), vec![]).unwrap();
    assert_eq!(m.to, "agent://a1");
    assert_eq!(m.body, "");
}

#[test]
fn webhooks_refuse() {
    let closed = hook(None, Some("a1"), Some("s"));
    assert_eq!(refused(None, None, vec![]), (404, "unknown_webhook".to_string()));
    assert_eq!(refused(Some(&closed), None, vec![]), (401, "missing_token".to_string()));
    assert_eq!(refused(Some(&closed), Some("t"), vec![]), (401, "bad_token".to_string()));
    let both = hook(Some("a"), Some("b"), None);
    assert_eq!(
        refused(Some(&both), None, vec![]),
        (500, "webhook_config_ambiguous".to_string())
    );
    let open = hook(Some("pr"), None, None);
    assert_eq!(
        refused(Some(&open), None, vec![b'x'; 65_537]),
        (413, "body_too_large".to_string())
    );
    assert_eq!(
        refused(Some(&open), None, vec![0xff, 0xfe]),
        (400, "body_not_utf8".to_string())
    );
    assert!(http_webhook(Some(&open), None, vec![b'x'; 65_536]).is_ok());
}

#[test]
fn mail_faults_have_statuses() {
    assert_eq!(mail_fault_status("body_too_large"), 413);
    assert_eq!(mail_fault_status("unknown_recipient"), 404);
    assert_eq!(mail_fault_status("unknown_topic"), 404);
    assert_eq!(mail_fault_status("db error: x"), 500);
}

#[test]
fn invoke_needs_a_message() {
    assert_eq!(http_invoke_agent(r#"{"message":"hi"}"#).unwrap(), "hi");
    assert_eq!(http_invoke_agent(r#"{"message":""}"#), Err("message is required"));
    assert_eq!(http_invoke_agent("{}"), Err("message is required"));
    assert_eq!(require_message(Some("m".to_string())).unwrap(), "m");
    assert_eq!(require_message(None), Err("message is required"));
}

#[test]
fn inscribe_needs_a_path() {
    let r = http_inscribe_scroll(r#"{"spec_path":"a.md","max_concurrency":3}"#).unwrap();
    assert_eq!(r.spec_path, "a.md");
    assert_eq!(r.max_concurrency, Some(3));
    assert_eq!(http_inscribe_scroll("{}").unwrap_err(), "spec_path is required");
    let r = inscribe_request(Some("p".to_string()), Some(4_294_967_298)).unwrap();
    assert_eq!(r.max_concurrency, Some(2));
}

#[test]
fn bridged_requests() {
    match http_rpc_bridge(r#"{"method":"mail.list","id":9}"#).unwrap() {
        Bridged::Forward { method, id } => {
            assert_eq!(method, "mail.list");
            assert_eq!(id, 9);
        }
        Bridged::ListWebhooks { .. } => panic!("unexpected"),
    }
    assert!(matches!(
        http_rpc_bridge(r#"{"method":"webhook.list"}"#),
        Ok(Bridged::ListWebhooks { id: 0 })
    ));
    assert_eq!(http_rpc_bridge("{}").unwrap_err(), "method is required");
    assert!(matches!(
        bridge(Some("webhook.list".to_string()), Some(2)),
        Ok(Bridged::ListWebhooks { id: 2 })
    ));
}
