use grimoire::webhook::{check_token, resolve_target, same_secret, WebhookAuth, WebhookConfig};

fn cfg(topic: Option<&str>, recipient: Option<&str>, secret: Option<&str>) -> WebhookConfig {
    WebhookConfig {
        topic: topic.map(str::to_string),
        recipient: recipient.map(str::to_string),
        secret: secret.map(str::to_string),
    }
}

#[test]
fn open_when_no_secret_configured() {
    assert_eq!(check_token(None, None), WebhookAuth::Open);
    assert_eq!(check_token(Some("anything"), None), WebhookAuth::Open);
}

#[test]
fn matches_correct_secret() {
    assert_eq!(check_token(Some("shhh"), Some("shhh")), WebhookAuth::Match);
}

#[test]
fn rejects_missing_and_wrong_secrets() {
    assert_eq!(check_token(None, Some("shhh")), WebhookAuth::Missing);
    assert_eq!(
        check_token(Some("nope"), Some("shhh")),
        WebhookAuth::Mismatch
    );
}

#[test]
fn resolve_target_topic_form() {
    assert_eq!(
        resolve_target(&cfg(Some("pr-opened"), None, None)).unwrap(),
        "topic://pr-opened"
    );
}

#[test]
fn resolve_target_recipient_form() {
    assert_eq!(
        resolve_target(&cfg(None, Some("4a8c1b2f"), None)).unwrap(),
        "agent://4a8c1b2f"
    );
}

#[test]
fn resolve_target_rejects_ambiguous_or_empty() {
    assert_eq!(
        resolve_target(&cfg(Some("a"), Some("b"), None)),
        Err("webhook_config_ambiguous")
    );
    assert_eq!(
        resolve_target(&cfg(None, None, None)),
        Err("webhook_config_missing_target")
    );
}

#[test]
fn secrets_are_compared_whole() {
    assert!(same_secret("", ""));
    assert!(same_secret("h\u{e9}", "h\u{e9}"));
    assert!(!same_secret("secret", "secre"));
    assert!(!same_secret("secret", "secreT"));
}
