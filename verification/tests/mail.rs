use grimoire::rpc::mail::{
    ack_fault, ask_outcome, ask_posted, ask_timeout_ms, compute_mail_state, emit_mail_events,
    fan_out, federated_send_event, handle_direct_send, handle_federated_direct_send,
    handle_mail_ack, handle_mail_send, handle_mail_subscribe, handle_mail_unsubscribe,
    handle_topic_send, mail_list_limit, post_request, sent_ids, topic_send_events, Ack,
    FederatedPeer, MailSendParams, ReplyCollector, SendRoute, Subscriber, TargetPeer, TopicSend,
    MAX_MAIL_BODY_BYTES, PEER_OUTBOX_MAX_DEPTH_DEFAULT,
};
use grimoire::types::{Address, AgentState, Mail, MailState, StreamEvent};

fn params(body: &str, sender: Option<&str>) -> MailSendParams {
    MailSendParams {
        to: "agent://b".to_string(),
        body: body.to_string(),
        sender: sender.map(|s| s.to_string()),
        wake_eligible: None,
        in_reply_to: Some("m0".to_string()),
    }
}

fn agent(id: &str) -> Result<Address, &'static str> {
    Ok(Address::Agent(id.to_string()))
}

fn sub(id: &str, state: Option<AgentState>, mail_id: &str) -> Subscriber {
    Subscriber { id: id.to_string(), agent: Ok(state), mail_id: mail_id.to_string() }
}

fn direct(state: Option<AgentState>) -> Mail {
    handle_direct_send(&params("hi", Some("a")), "b", true, state, "m1", 5).mails.remove(0)
}

#[test]
fn unknown_and_banished_recipients_fail_mail() {
    assert_eq!(compute_mail_state(None), (MailState::Failed, Some("unknown_recipient")));
    assert_eq!(
        compute_mail_state(Some(AgentState::Banished)),
        (MailState::Failed, Some("recipient_banished"))
    );
    assert_eq!(compute_mail_state(Some(AgentState::Failed)), (MailState::Pending, None));
}

#[test]
fn sends_are_checked_before_they_are_routed() {
    let s = handle_mail_send(&params("hi", Some("a")), agent("b"), "d1").unwrap();
    assert!(matches!(s.route, SendRoute::Direct(ref id) if id == "b"));
    assert!(s.wake_eligible);
    let mut quiet = params("hi", None);
    quiet.wake_eligible = Some(false);
    let s = handle_mail_send(&quiet, Ok(Address::Topic("t".to_string())), "d1").unwrap();
    assert!(matches!(s.route, SendRoute::Topic(ref t) if t == "t"));
    assert!(!s.wake_eligible);

    let far = |d: &str| {
        Ok(Address::FederatedAgent { daemon_id: d.to_string(), agent_id: "b".to_string() })
    };
    let s = handle_mail_send(&params("hi", None), far("d1"), "d1").unwrap();
    assert!(matches!(s.route, SendRoute::Direct(ref id) if id == "b"));
    let s = handle_mail_send(&params("hi", None), far("d2"), "d1").unwrap();
    assert!(matches!(s.route, SendRoute::Federated { ref daemon_id, .. } if daemon_id == "d2"));

    let e = handle_mail_send(&params("hi", None), Err("invalid_address"), "d1").unwrap_err();
    assert_eq!(e.message, "invalid_address");
    let big = "x".repeat(MAX_MAIL_BODY_BYTES + 1);
    let e = handle_mail_send(&params(&big, Some("peer://x")), Err("bad"), "d1").unwrap_err();
    assert_eq!(e.message, "body_too_large");
    assert!(handle_mail_send(&params(&big[1..], None), agent("b"), "d1").is_ok());
    for sender in ["supervisor://x", "wake://x", "workspace://x", "peer://x"] {
        let e = handle_mail_send(&params("hi", Some(sender)), agent("b"), "d1").unwrap_err();
        assert_eq!(e.message, "reserved_sender_prefix");
    }
}

#[test]
fn direct_mail_is_one_row() {
    let plan = handle_direct_send(
        &params("hi", Some("a")),
        "b",
        true,
        Some(AgentState::Dormant),
        "m1",
        5,
    );
    assert_eq!(plan.delivered, 1);
    let m = &plan.mails[0];
    assert_eq!((m.id.as_str(), m.recipient_id.as_str(), m.body.as_str()), ("m1", "b", "hi"));
    assert_eq!(m.in_reply_to.as_deref(), Some("m0"));
    assert_eq!(m.delivered_at, None);
    let events = emit_mail_events(m, "pre");
    assert_eq!(events.len(), 2);
    assert!(matches!(events[0], StreamEvent::MailSent { .. }));
    assert!(matches!(events[1], StreamEvent::MailReceived { ref body_preview, .. } if body_preview == "pre"));

    let plan = handle_direct_send(&params("hi", None), "b", true, None, "m1", 5);
    assert_eq!(plan.delivered, 0);
    let m = &plan.mails[0];
    assert_eq!(m.state, MailState::Failed);
    assert_eq!(m.fail_reason.as_deref(), Some("unknown_recipient"));
    assert_eq!(m.delivered_at, Some(5));
    let events = emit_mail_events(m, "pre");
    assert_eq!(events.len(), 1);
    assert!(matches!(events[0], StreamEvent::MailFailed { ref reason, .. } if reason == "unknown_recipient"));
}

#[test]
fn topics_reach_every_subscriber() {
    let subs = vec![
        sub("x", Some(AgentState::Active), "m1"),
        sub("y", Some(AgentState::Banished), "m2"),
        sub("z", Some(AgentState::Dormant), "m3"),
    ];
    let plan = match handle_topic_send(&params("hi", None), "t", true, &subs, 5) {
        Ok(TopicSend::Rows(plan)) => plan,
        other => panic!("{:?}", other),
    };
    assert_eq!(sent_ids(&plan), vec!["m1", "m2", "m3"]);
    assert_eq!(plan.delivered, 2);
    assert_eq!(plan.mails.len(), 3);
    assert_eq!(plan.mails[1].fail_reason.as_deref(), Some("recipient_banished"));
    assert!(plan.mails.iter().all(|m| m.topic.as_deref() == Some("t")));
    let events = topic_send_events(&plan.mails, &vec!["p1".to_string()], "pm", "pre");
    assert_eq!(events.len(), 6);
    assert!(matches!(
        events[0],
        StreamEvent::PeerMailForwardFailed { ref peer_id, ref mail_id, ref reason }
            if peer_id == "p1" && mail_id == "pm" && reason == "peer_outbox_full"
    ));
    assert!(matches!(events[3], StreamEvent::MailFailed { .. }));

    let mut broken = subs;
    broken[1].agent = Err("locked".to_string());
    let e = handle_topic_send(&params("hi", None), "t", true, &broken, 5).unwrap_err();
    assert_eq!(e.message, "db error: locked");
    match handle_topic_send(&params("hi", Some("a")), "t", true, &vec![], 5) {
        Ok(TopicSend::Unheard(StreamEvent::MailSent { mail_id, sender_id, recipient_id, topic })) => {
            assert_eq!(mail_id, "");
            assert_eq!(sender_id.as_deref(), Some("a"));
            assert_eq!(recipient_id, None);
            assert_eq!(topic.as_deref(), Some("t"));
        }
        other => panic!("{:?}", other),
    }
}

#[test]
fn peers_with_room_get_topic_mail() {
    let peer = |id: &str, depth| FederatedPeer {
        peer_id: id.to_string(),
        depth,
        outbox_id: format!("o-{}", id),
    };
    let peers = vec![
        peer("p1", Some(PEER_OUTBOX_MAX_DEPTH_DEFAULT - 1)),
        peer("p2", Some(PEER_OUTBOX_MAX_DEPTH_DEFAULT)),
        peer("p3", None),
    ];
    let f = fan_out(&params("hi", None), "t", &vec![], "pm", &peers, 5);
    assert_eq!(f.full_peers, vec!["p2"]);
    let ids: Vec<&str> = f.rows.iter().map(|r| r.outbox_id.as_str()).collect();
    assert_eq!(ids, vec!["o-p1", "o-p3"]);
    assert_eq!(f.rows[0].recipient, "topic://t");
    assert_eq!(f.rows[0].mail_id, "pm");
    let f = fan_out(&params("hi", None), "t", &vec![direct(None)], "pm", &peers, 5);
    assert_eq!(f.rows[1].mail_id, "m1");
}

#[test]
fn agents_of_peers_get_mail_through_the_outbox() {
    let peer = |removing, depth| Ok(Some(TargetPeer { id: "p".to_string(), removing, depth }));
    let send = |peer| handle_federated_direct_send(&params("hi", None), true, peer, "d2", "b", "m1", 5);
    let s = send(peer(false, Ok(0))).unwrap();
    assert_eq!(s.peer_id, "p");
    assert_eq!(s.mail.recipient_id, "agent://grimd-d2/b");
    assert_eq!(s.mail.state, MailState::Pending);
    assert!(matches!(
        federated_send_event(&s.mail),
        StreamEvent::MailSent { ref mail_id, .. } if mail_id == "m1"
    ));
    assert_eq!(send(Ok(None)).unwrap_err().message, "peer_unknown_for_recipient");
    assert_eq!(send(Err("locked".to_string())).unwrap_err().message, "db: locked");
    assert_eq!(send(peer(true, Ok(0))).unwrap_err().message, "peer_removing");
    assert_eq!(
        send(peer(false, Err("locked".to_string()))).unwrap_err().message,
        "outbox_depth: locked"
    );
    assert_eq!(
        send(peer(false, Ok(PEER_OUTBOX_MAX_DEPTH_DEFAULT))).unwrap_err().message,
        "peer_outbox_full"
    );
}

#[test]
fn replies_are_collected_once() {
    let reply = |id: &str, to: Option<&str>| {
        let mut m = direct(Some(AgentState::Active));
        m.id = id.to_string();
        m.in_reply_to = to.map(|s| s.to_string());
        m
    };
    let received = |id: &str| StreamEvent::MailDelivered {
        mail_id: id.to_string(),
        recipient_id: "a".to_string(),
        origin_daemon_id: None,
    };
    let mut c = ReplyCollector::new(vec!["r1".to_string(), "r2".to_string()], 2);
    assert!(!c.done());
    assert_eq!(c.wants(&StreamEvent::AgentQueued { agent_id: "a".to_string() }), None);
    assert_eq!(c.wants(&received("m1")).as_deref(), Some("m1"));
    c.observe(&received("m1"), None);
    assert_eq!(c.wants(&received("m1")), None);
    c.observe(&received("m1"), Some(reply("m1", Some("r1"))));
    assert_eq!(c.replies.len(), 0);
    c.observe(&received("m2"), Some(reply("m2", None)));
    c.observe(&received("m3"), Some(reply("m3", Some("other"))));
    assert_eq!(c.replies.len(), 0);
    c.observe(&received("m4"), Some(reply("m4", Some("r2"))));
    c.observe(&received("m4"), Some(reply("m4", Some("r2"))));
    assert_eq!(c.replies.len(), 1);
    assert!(!c.done());
    c.observe(&received("m5"), Some(reply("m5", Some("r1"))));
    assert!(c.done());
    assert_eq!(ask_outcome(&c.replies).unwrap().in_reply_to.as_deref(), Some("r2"));
    assert_eq!(ask_outcome(&vec![]).unwrap_err().message, "ask_timeout");
    assert!(ask_posted(&vec!["r1".to_string()]).is_ok());
    assert_eq!(ask_posted(&vec![]).unwrap_err().message, "ask_no_recipients");
    assert_eq!(ask_timeout_ms(None), 30_000);
    assert_eq!(ask_timeout_ms(Some(5)), 5);
    let p = post_request("agent://b", "q", None);
    assert_eq!(p.wake_eligible, Some(true));
    assert_eq!(p.in_reply_to, None);
}

#[test]
fn acknowledgements_deliver_pending_mail() {
    let m = direct(Some(AgentState::Active));
    match handle_mail_ack(Some(&m)).unwrap() {
        Ack::Deliver { mail_id, .. } => assert_eq!(mail_id, "m1"),
        other => panic!("{:?}", other),
    }
    let mut m = m;
    m.state = MailState::Delivered;
    assert!(matches!(handle_mail_ack(Some(&m)).unwrap(), Ack::Already));
    assert_eq!(
        handle_mail_ack(Some(&direct(None))).unwrap_err().message,
        "cannot_ack_failed"
    );
    assert_eq!(handle_mail_ack(None).unwrap_err().message, "mail_not_found");
    assert_eq!(
        ack_fault("Ambiguous mail prefix: m").message,
        "ambiguous_mail_prefix"
    );
    assert_eq!(ack_fault("locked").message, "set_state: locked");
    assert_eq!(mail_list_limit(None).unwrap(), 100);
    assert_eq!(mail_list_limit(Some(1000)).unwrap(), 1000);
    assert_eq!(mail_list_limit(Some(1001)).unwrap_err().message, "limit_too_large");
}

#[test]
fn subscriptions_need_a_topic_and_an_agent() {
    let s = handle_mail_subscribe("a", "t", true, true, "s1", 5).unwrap();
    assert_eq!((s.id.as_str(), s.subscriber_id.as_str(), s.topic.as_str()), ("s1", "a", "t"));
    assert_eq!(
        handle_mail_subscribe("a", "t", false, false, "s1", 5).unwrap_err().message,
        "invalid_topic_name"
    );
    assert_eq!(
        handle_mail_subscribe("a", "t", true, false, "s1", 5).unwrap_err().message,
        "unknown_agent"
    );
    assert!(handle_mail_unsubscribe(Ok(true)).is_ok());
    assert_eq!(
        handle_mail_unsubscribe(Ok(false)).unwrap_err().message,
        "subscription_not_found"
    );
    assert_eq!(
        handle_mail_unsubscribe(Err("locked")).unwrap_err().message,
        "delete_subscription: locked"
    );
}
