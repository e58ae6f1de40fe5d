//! Inbound webhook → mail bridge.
//!
//! Each configured webhook turns a request body into mail on a topic, or to
//! one recipient.

use crate::bytes::lemma_same_bytes;
use crate::text::{cat, opt_str, opt_text};
use subtle::ConstantTimeEq;
use vstd::prelude::*;
use vstd::string::*;

verus! {

/// Header carrying the per-webhook secret.
pub const WEBHOOK_TOKEN_HEADER: &'static str = "x-grimoire-webhook-token";

/// A webhook: where its mail goes, and the secret that it asks for.
#[derive(Debug)]
pub struct WebhookConfig {
    pub topic: Option<String>,
    pub recipient: Option<String>,
    pub secret: Option<String>,
}

/// Webhook auth outcome.
#[derive(Clone, Copy, Debug, PartialEq, Eq, Structural)]
pub enum WebhookAuth {
    /// No secret is configured; the endpoint is open by the operator's choice.
    Open,
    Match,
    /// A secret is required but was not presented.
    Missing,
    /// The secret that was presented is wrong.
    Mismatch,
}

/// Calls `subtle`'s `ConstantTimeEq::ct_eq` on two byte slices: whether they
/// hold the same bytes. That it takes the same time whatever they hold is not
/// said.
#[verifier::external_body]
fn same_bytes(a: &[u8], b: &[u8]) -> (r: bool)
    ensures
        r == (a@ == b@),
{
    a.ct_eq(b).into()
}

/// Whether two texts are the same, compared in constant time.
pub fn same_secret(a: &str, b: &str) -> (r: bool)
    ensures
        r == (a@ == b@),
{
    let r = same_bytes(a.as_bytes(), b.as_bytes());
    proof {
        if r {
            lemma_same_bytes(a@, b@);
        }
    }
    r
}

/// Checks the presented token against the configured secret, in constant
/// time.
pub fn check_token(presented: Option<&str>, expected: Option<&str>) -> (r: WebhookAuth)
    ensures
        r == (match (opt_str(presented), opt_str(expected)) {
            (_, None) => WebhookAuth::Open,
            (None, Some(_)) => WebhookAuth::Missing,
            (Some(got), Some(want)) => if got == want {
                WebhookAuth::Match
            } else {
                WebhookAuth::Mismatch
            },
        }),
{
    match expected {
        None => WebhookAuth::Open,
        Some(want) => match presented {
            None => WebhookAuth::Missing,
            Some(got) => if same_secret(got, want) {
                WebhookAuth::Match
            } else {
                WebhookAuth::Mismatch
            },
        },
    }
}

/// The address that a webhook's mail goes to: exactly one of topic and
/// recipient must be configured.
pub open spec fn target_of(topic: Option<Seq<char>>, recipient: Option<Seq<char>>) -> Result<
    Seq<char>,
    Seq<char>,
> {
    match (topic, recipient) {
        (Some(t), None) => Ok("topic://"@ + t),
        (None, Some(r)) => Ok("agent://"@ + r),
        (Some(_), Some(_)) => Err("webhook_config_ambiguous"@),
        (None, None) => Err("webhook_config_missing_target"@),
    }
}

/// The address that a webhook's mail goes to, or an error code.
pub fn resolve_target(cfg: &WebhookConfig) -> (r: Result<String, &'static str>)
    ensures
        match r {
            Ok(to) => target_of(opt_text(cfg.topic), opt_text(cfg.recipient)) == Ok::<
                Seq<char>,
                Seq<char>,
            >(to@),
            Err(code) => target_of(opt_text(cfg.topic), opt_text(cfg.recipient)) == Err::<
                Seq<char>,
                Seq<char>,
            >(code@),
        },
{
    match (&cfg.topic, &cfg.recipient) {
        (Some(t), None) => Ok(cat("topic://", t.as_str())),
        (None, Some(r)) => Ok(cat("agent://", r.as_str())),
        (Some(_), Some(_)) => Err("webhook_config_ambiguous"),
        (None, None) => Err("webhook_config_missing_target"),
    }
}

// ---------------------------------------------------------------------------
// Laws
// ---------------------------------------------------------------------------

/// A webhook with a secret lets in who presents it, and nobody else; one
/// without is open.
pub proof fn secrets_let_in(presented: Option<&str>, expected: Option<&str>, r: WebhookAuth)
    requires
        call_ensures(check_token, (presented, expected), r),
    ensures
        r == WebhookAuth::Open <==> expected is None,
        r == WebhookAuth::Match <==> expected is Some && presented is Some && presented->0@
            == expected->0@,
        r == WebhookAuth::Missing <==> expected is Some && presented is None,
        r == WebhookAuth::Mismatch <==> expected is Some && presented is Some && presented->0@
            != expected->0@,
{
}

/// A webhook's mail goes to its topic or to its recipient, of which it has
/// exactly one.
pub proof fn webhooks_have_one_target(cfg: WebhookConfig, r: Result<String, &'static str>)
    requires
        call_ensures(resolve_target, (&cfg,), r),
    ensures
        cfg.topic is Some && cfg.recipient is None ==> (r matches Ok(to) && to@ == "topic://"@
            + cfg.topic->0@),
        cfg.topic is None && cfg.recipient is Some ==> (r matches Ok(to) && to@ == "agent://"@
            + cfg.recipient->0@),
        cfg.topic is Some && cfg.recipient is Some ==> (r matches Err(e) && e@
            == "webhook_config_ambiguous"@),
        cfg.topic is None && cfg.recipient is None ==> (r matches Err(e) && e@
            == "webhook_config_missing_target"@),
{
}

} // verus!
