//! What the HTTP handlers decide: the checks on a request's body, and what an
//! inbound webhook turns into.

use crate::json::{json_number_at, json_text_at, number_at, text_at};
use crate::rpc::mail::MAX_MAIL_BODY_BYTES;
use crate::text::{opt_str, opt_text, own, same};
use crate::webhook::{check_token, resolve_target, target_of, WebhookAuth, WebhookConfig};
use vstd::prelude::*;
use vstd::string::*;
use vstd::utf8::*;

verus! {

/// The text that bytes encode. Calls `String::from_utf8`: the text, where the
/// bytes are valid UTF-8, and otherwise nothing.
#[verifier::external_body]
fn text_of_bytes(bytes: Vec<u8>) -> (r: Option<String>)
    ensures
        opt_text(r) == (if valid_utf8(bytes@) {
            Some(decode_utf8(bytes@))
        } else {
            None
        }),
{
    String::from_utf8(bytes).ok()
}

/// A refusal: a status, and a code in words.
#[derive(Debug)]
pub struct HttpRefusal {
    pub status: u16,
    pub code: String,
}

/// Whether a refusal says that.
pub open spec fn refuses(r: HttpRefusal, status: u16, code: Seq<char>) -> bool {
    r.status == status && r.code@ == code
}

/// Mail that a webhook sends. It has no sender, and may wake its recipient.
#[derive(Debug)]
pub struct WebhookMail {
    pub to: String,
    pub body: String,
}

/// What a webhook turns a request into: a status and a code, or an address and
/// a body.
pub open spec fn webhook_outcome(
    cfg: Option<&WebhookConfig>,
    presented: Option<Seq<char>>,
    body: Seq<u8>,
) -> Result<(Seq<char>, Seq<char>), (u16, Seq<char>)> {
    match cfg {
        None => Err((404, "unknown_webhook"@)),
        Some(cfg) => {
            let secret = opt_text(cfg.secret);
            if secret is Some && presented is None {
                Err((401, "missing_token"@))
            } else if secret is Some && presented != secret {
                Err((401, "bad_token"@))
            } else {
                match target_of(opt_text(cfg.topic), opt_text(cfg.recipient)) {
                    Err(code) => Err((500, code)),
                    Ok(to) => if body.len() > MAX_MAIL_BODY_BYTES {
                        Err((413, "body_too_large"@))
                    } else if !valid_utf8(body) {
                        Err((400, "body_not_utf8"@))
                    } else {
                        Ok((to, decode_utf8(body)))
                    },
                }
            }
        },
    }
}

fn webhook_err(status: u16, code: &str) -> (r: HttpRefusal)
    ensures
        refuses(r, status, code@),
{
    HttpRefusal { status, code: own(code) }
}

/// Takes a request to a webhook: `cfg` is what is configured under its name,
/// `presented` the token header, and `body` is passed through verbatim.
pub fn http_webhook(cfg: Option<&WebhookConfig>, presented: Option<&str>, body: Vec<u8>) -> (r:
    Result<WebhookMail, HttpRefusal>)
    ensures
        match webhook_outcome(cfg, opt_str(presented), body@) {
            Ok((to, text)) => r matches Ok(m) && m.to@ == to && m.body@ == text,
            Err((status, code)) => r matches Err(e) && refuses(e, status, code),
        },
{
    let cfg = match cfg {
        None => return Err(webhook_err(404, "unknown_webhook")),
        Some(c) => c,
    };
    let secret: Option<&str> = match &cfg.secret {
        Some(s) => Some(s.as_str()),
        None => None,
    };
    match check_token(presented, secret) {
        WebhookAuth::Open => {},
        WebhookAuth::Match => {},
        WebhookAuth::Missing => return Err(webhook_err(401, "missing_token")),
        WebhookAuth::Mismatch => return Err(webhook_err(401, "bad_token")),
    }
    let to = match resolve_target(cfg) {
        Ok(to) => to,
        Err(code) => return Err(webhook_err(500, code)),
    };
    if body.len() > MAX_MAIL_BODY_BYTES {
        return Err(webhook_err(413, "body_too_large"));
    }
    match text_of_bytes(body) {
        Some(text) => Ok(WebhookMail { to, body: text }),
        None => Err(webhook_err(400, "body_not_utf8")),
    }
}

/// The status under which a webhook reports that its mail was not sent.
pub fn mail_fault_status(message: &str) -> (status: u16)
    ensures
        status == (if message@ == "body_too_large"@ {
            413u16
        } else if message@ == "unknown_recipient"@ || message@ == "unknown_topic"@ {
            404u16
        } else {
            500u16
        }),
{
    if same(message, "body_too_large") {
        413
    } else if same(message, "unknown_recipient") || same(message, "unknown_topic") {
        404
    } else {
        500
    }
}

/// The message of a request to invoke an agent.
pub fn http_invoke_agent(body: &str) -> (r: Result<String, &'static str>)
    ensures
        match json_text_at(body@, "/message"@) {
            Some(m) => if m.len() > 0 {
                r matches Ok(s) && s@ == m
            } else {
                r matches Err(e) && e@ == "message is required"@
            },
            None => r matches Err(e) && e@ == "message is required"@,
        },
{
    require_message(text_at(body, "/message"))
}

/// The message, where there is one that says something.
pub fn require_message(message: Option<String>) -> (r: Result<String, &'static str>)
    ensures
        match opt_text(message) {
            Some(m) => if m.len() > 0 {
                r matches Ok(s) && s@ == m
            } else {
                r matches Err(e) && e@ == "message is required"@
            },
            None => r matches Err(e) && e@ == "message is required"@,
        },
{
    match message {
        Some(m) => if m.as_str().is_empty() {
            Err("message is required")
        } else {
            Ok(m)
        },
        None => Err("message is required"),
    }
}

/// A request to inscribe a scroll.
#[derive(Debug)]
pub struct InscribeRequest {
    pub spec_path: String,
    pub max_concurrency: Option<u32>,
}

/// The low bits of a count.
pub open spec fn narrowed(n: Option<u64>) -> Option<u32> {
    match n {
        Some(n) => Some(n as u32),
        None => None,
    }
}

/// What a request to inscribe a scroll asks for.
pub fn http_inscribe_scroll(body: &str) -> (r: Result<InscribeRequest, &'static str>)
    ensures
        match json_text_at(body@, "/spec_path"@) {
            Some(p) => r matches Ok(q) && q.spec_path@ == p && q.max_concurrency == narrowed(
                json_number_at(body@, "/max_concurrency"@),
            ),
            None => r matches Err(e) && e@ == "spec_path is required"@,
        },
{
    inscribe_request(text_at(body, "/spec_path"), number_at(body, "/max_concurrency"))
}

/// What a request to inscribe a scroll asks for, from its members.
pub fn inscribe_request(spec_path: Option<String>, max_concurrency: Option<u64>) -> (r: Result<
    InscribeRequest,
    &'static str,
>)
    ensures
        match spec_path {
            Some(p) => r matches Ok(q) && q.spec_path@ == p@ && q.max_concurrency == narrowed(
                max_concurrency,
            ),
            None => r matches Err(e) && e@ == "spec_path is required"@,
        },
{
    let spec_path = match spec_path {
        None => return Err("spec_path is required"),
        Some(p) => p,
    };
    let max_concurrency: Option<u32> = match max_concurrency {
        Some(n) => Some(
            #[verifier::truncate]
            (n as u32),
        ),
        None => None,
    };
    Ok(InscribeRequest { spec_path, max_concurrency })
}

/// What a bridged request leads to.
#[derive(Debug)]
pub enum Bridged {
    /// List the webhooks, under the id. Their configuration is the server's
    /// own, so the dispatcher does not know it.
    ListWebhooks { id: u64 },
    /// Hand the request to the dispatcher.
    Forward { method: String, id: u64 },
}

/// Takes a request that a browser sends in place of a socket client.
pub fn http_rpc_bridge(body: &str) -> (r: Result<Bridged, &'static str>)
    ensures
        bridges(r, json_text_at(body@, "/method"@), json_number_at(body@, "/id"@)),
{
    bridge(text_at(body, "/method"), number_at(body, "/id"))
}

/// Whether a bridged request with those members leads to that.
pub open spec fn bridges(
    r: Result<Bridged, &'static str>,
    method: Option<Seq<char>>,
    id: Option<u64>,
) -> bool {
    let reply_id: u64 = match id {
        Some(n) => n,
        None => 0,
    };
    match method {
        None => r matches Err(e) && e@ == "method is required"@,
        Some(m) => if m == "webhook.list"@ {
            r matches Ok(Bridged::ListWebhooks { id }) && id == reply_id
        } else {
            r matches Ok(Bridged::Forward { method, id }) && method@ == m && id == reply_id
        },
    }
}

/// Takes a bridged request, from its members.
pub fn bridge(method: Option<String>, id: Option<u64>) -> (r: Result<Bridged, &'static str>)
    ensures
        bridges(r, opt_text(method), id),
{
    let method = match method {
        None => return Err("method is required"),
        Some(m) => m,
    };
    let id: u64 = match id {
        Some(n) => n,
        None => 0,
    };
    if same(method.as_str(), "webhook.list") {
        Ok(Bridged::ListWebhooks { id })
    } else {
        Ok(Bridged::Forward { method, id })
    }
}

// ---------------------------------------------------------------------------
// Laws
// ---------------------------------------------------------------------------

/// A webhook with a secret sends no mail for a request that does not present
/// it.
pub proof fn secret_guards_webhook(
    cfg: &WebhookConfig,
    presented: Option<Seq<char>>,
    body: Seq<u8>,
)
    requires
        cfg.secret is Some,
        presented != opt_text(cfg.secret),
    ensures
        webhook_outcome(Some(cfg), presented, body) is Err,
        webhook_outcome(Some(cfg), presented, body)->Err_0.0 == 401,
{
}

/// A request that the webhook lets in becomes mail with its body, as it is,
/// to the webhook's address.
pub proof fn webhooks_pass_the_body_on(
    cfg: WebhookConfig,
    presented: Option<&str>,
    body: Vec<u8>,
    r: Result<WebhookMail, HttpRefusal>,
)
    requires
        call_ensures(http_webhook, (Some(&cfg), presented, body), r),
        cfg.topic is Some,
        cfg.recipient is None,
    ensures
        ({
            let let_in = cfg.secret is None || (presented is Some && presented->0@
                == cfg.secret->0@);
            &&& r is Ok <==> let_in && body@.len() <= MAX_MAIL_BODY_BYTES && valid_utf8(body@)
            &&& r matches Ok(m) ==> m.to@ == "topic://"@ + cfg.topic->0@ && m.body@ == decode_utf8(
                body@,
            )
            &&& !let_in ==> r->Err_0.status == 401
            &&& let_in && body@.len() > MAX_MAIL_BODY_BYTES ==> r->Err_0.status == 413
                && r->Err_0.code@ == "body_too_large"@
            &&& let_in && body@.len() <= MAX_MAIL_BODY_BYTES && !valid_utf8(body@)
                ==> r->Err_0.status == 400 && r->Err_0.code@ == "body_not_utf8"@
        }),
{
}

/// A webhook that is not configured is not found, and one without a single
/// target is the server's fault.
pub proof fn unsound_webhooks_are_refused(
    cfg: WebhookConfig,
    presented: Option<&str>,
    body: Vec<u8>,
    none: Result<WebhookMail, HttpRefusal>,
    r: Result<WebhookMail, HttpRefusal>,
)
    requires
        call_ensures(http_webhook, (None::<&WebhookConfig>, presented, body), none),
        call_ensures(http_webhook, (Some(&cfg), presented, body), r),
        cfg.secret is None,
        cfg.topic is Some <==> cfg.recipient is Some,
    ensures
        none is Err,
        none->Err_0.status == 404,
        none->Err_0.code@ == "unknown_webhook"@,
        r is Err,
        r->Err_0.status == 500,
{
}

/// A missing token and a wrong one are told apart.
pub proof fn missing_and_wrong_tokens_differ(
    cfg: WebhookConfig,
    presented: Option<&str>,
    body: Vec<u8>,
    r: Result<WebhookMail, HttpRefusal>,
)
    requires
        call_ensures(http_webhook, (Some(&cfg), presented, body), r),
        cfg.secret is Some,
    ensures
        presented is None ==> r is Err && r->Err_0.code@ == "missing_token"@,
        presented is Some && presented->0@ != cfg.secret->0@ ==> r is Err && r->Err_0.code@
            == "bad_token"@,
{
}

/// Mail that was not sent is reported by what went wrong.
pub proof fn mail_faults_have_statuses(message: &str, status: u16)
    requires
        call_ensures(mail_fault_status, (message,), status),
    ensures
        message@ == "body_too_large"@ ==> status == 413,
        message@ == "unknown_recipient"@ || message@ == "unknown_topic"@ ==> status == 404,
        message@ != "body_too_large"@ && message@ != "unknown_recipient"@ && message@
            != "unknown_topic"@ ==> status == 500,
{
    reveal_strlit("body_too_large");
    reveal_strlit("unknown_recipient");
    reveal_strlit("unknown_topic");
    assert("body_too_large"@[0] == 'b');
    assert("unknown_recipient"@[0] == 'u');
    assert("unknown_topic"@[0] == 'u');
}

/// An agent is invoked with a message that says something, and a scroll is
/// inscribed from a path.
pub proof fn requests_need_their_members(
    message: Option<String>,
    said: Result<String, &'static str>,
    path: Option<String>,
    max: Option<u64>,
    asked: Result<InscribeRequest, &'static str>,
)
    requires
        call_ensures(require_message, (message,), said),
        call_ensures(inscribe_request, (path, max), asked),
        max matches Some(n) ==> n <= u32::MAX,
    ensures
        said is Ok <==> message is Some && message->0@.len() > 0,
        said matches Ok(s) ==> s@ == message->0@,
        said matches Err(e) ==> e@ == "message is required"@,
        asked is Ok <==> path is Some,
        asked matches Ok(q) ==> q.spec_path@ == path->0@ && (max is None <==> q.max_concurrency
            is None) && (max matches Some(n) ==> q.max_concurrency->0 == n),
        asked matches Err(e) ==> e@ == "spec_path is required"@,
{
}

/// A bridged request goes to the dispatcher under its id and method, but for
/// the one that the server answers itself.
pub proof fn bridged_requests_are_forwarded(
    method: Option<String>,
    id: Option<u64>,
    r: Result<Bridged, &'static str>,
)
    requires
        call_ensures(bridge, (method, id), r),
    ensures
        method is None <==> r is Err,
        method matches Some(m) ==> m@ == "webhook.list"@ ==> (r matches Ok(Bridged::ListWebhooks {
            id: n,
        }) && (id is None ==> n == 0) && (id matches Some(k) ==> n == k)),
        method matches Some(m) ==> m@ != "webhook.list"@ ==> (r matches Ok(Bridged::Forward {
            method: to,
            id: n,
        }) && to@ == m@ && (id is None ==> n == 0) && (id matches Some(k) ==> n == k)),
{
}

} // verus!
