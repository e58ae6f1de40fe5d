//! What the requests on mail come to.

use super::mail::{
    ack_fault, ask_outcome, ask_posted, ask_timeout_ms, handle_direct_send,
    handle_federated_direct_send, handle_mail_ack, handle_mail_send, handle_mail_subscribe,
    handle_mail_unsubscribe, handle_topic_send, lookup_error, mail_list_limit, new_outbound_mail,
    post_request, send_refused, topic_send_events, Ack, FederatedSend,
    MailDraft, MailSendParams, ReplyCollector, SendPlan, SendStart, Subscriber, Subscription,
    TargetPeer, TopicSend,
};
use super::{fails, RpcFault};
use crate::text::{opt_text, texts};
use crate::types::{
    events_view, mails_view, Address, AgentState, EventView, Mail, MailState, StreamEvent,
};
use vstd::prelude::*;

verus! {

/// A draft becomes mail with all that it holds; what is pending has not been
/// dealt with yet.
pub proof fn drafts_become_mail(draft: MailDraft, mail_id: String, now: i64, m: Mail)
    requires
        call_ensures(new_outbound_mail, (draft, mail_id, now), m),
    ensures
        m.id@ == mail_id@,
        m.recipient_id@ == draft.recipient_id@,
        opt_text(m.sender_id) == opt_text(draft.sender),
        opt_text(m.topic) == opt_text(draft.topic),
        m.body@ == draft.body@,
        opt_text(m.in_reply_to) == opt_text(draft.in_reply_to),
        m.state == draft.state,
        m.wake_eligible == draft.wake_eligible,
        m.created_at == now,
        draft.state == MailState::Pending ==> m.delivered_at is None,
        draft.state != MailState::Pending ==> m.delivered_at == Some(now),
{
}

/// A send that is sound goes where its address says; its mail wakes unless
/// the sender says otherwise.
pub proof fn sends_wake_unless_told(
    params: MailSendParams,
    address: Result<Address, &str>,
    daemon: &str,
    r: Result<SendStart, RpcFault>,
)
    requires
        call_ensures(handle_mail_send, (&params, address, daemon), r),
    ensures
        r is Ok <==> send_refused(params) is None && address is Ok,
        r matches Ok(s) ==> {
            &&& params.wake_eligible is None ==> s.wake_eligible
            &&& params.wake_eligible matches Some(w) ==> s.wake_eligible == w
        },
        send_refused(params) is None && address is Err ==> fails(r->Err_0, address->Err_0@),
{
}

/// Mail to an agent is one row for it, with what was sent.
pub proof fn direct_sends_make_one_row(
    params: MailSendParams,
    recipient: &str,
    wake: bool,
    agent: Option<AgentState>,
    mail_id: &str,
    now: i64,
    plan: SendPlan,
)
    requires
        call_ensures(
            handle_direct_send,
            (&params, recipient, wake, agent, mail_id, now),
            plan,
        ),
    ensures
        plan.mails@.len() == 1,
        plan.mails@[0].id@ == mail_id@,
        plan.mails@[0].recipient_id@ == recipient@,
        plan.mails@[0].body@ == params.body@,
        opt_text(plan.mails@[0].sender_id) == opt_text(params.sender),
        opt_text(plan.mails@[0].in_reply_to) == opt_text(params.in_reply_to),
        plan.mails@[0].wake_eligible == wake,
        plan.mails@[0].topic is None,
        plan.mails@[0].created_at == now,
{
    let rows = mails_view(plan.mails@);
    assert(rows.len() == plan.mails@.len());
    assert(rows[0] == plan.mails@[0]@);
}

/// Mail to a topic is one row for each subscriber; to a topic without
/// subscribers it is only told. A lookup that failed ends the send.
pub proof fn topic_sends_make_a_row_each(
    params: MailSendParams,
    topic: &str,
    wake: bool,
    subs: Vec<Subscriber>,
    now: i64,
    r: Result<TopicSend, RpcFault>,
    i: int,
)
    requires
        subs@.len() <= u32::MAX,
        call_ensures(handle_topic_send, (&params, topic, wake, &subs, now), r),
        lookup_error(subs@) is None,
    ensures
        r is Ok,
        subs@.len() == 0 <==> r->Ok_0 is Unheard,
        r matches Ok(TopicSend::Rows(plan)) ==> plan.mails@.len() == subs@.len() && (0 <= i
            < subs@.len() ==> plan.mails@[i].recipient_id@ == subs@[i].id@ && plan.mails@[i].id@
            == subs@[i].mail_id@ && plan.mails@[i].body@ == params.body@ && opt_text(
            plan.mails@[i].topic,
        ) == Some(topic@) && plan.mails@[i].wake_eligible == wake),
        r matches Ok(TopicSend::Unheard(e)) ==> (e@ matches EventView::MailSent {
            mail_id,
            sender_id,
            recipient_id,
            topic: t,
        } && mail_id == ""@ && sender_id == opt_text(params.sender) && recipient_id is None && t
            == Some(topic@)),
{
    if let Ok(TopicSend::Rows(plan)) = r {
        let rows = mails_view(plan.mails@);
        assert(rows.len() == plan.mails@.len());
        if 0 <= i < subs@.len() {
            assert(rows[i] == plan.mails@[i]@);
        }
    }
}

/// A lookup that failed is what a send to a topic is refused for; the first
/// counts.
pub proof fn failed_lookups_end_sends(subs: Seq<Subscriber>, s: Subscriber)
    ensures
        lookup_error(Seq::<Subscriber>::empty()) is None,
        lookup_error(subs) is Some ==> lookup_error(subs.push(s)) == lookup_error(subs),
        lookup_error(subs) is None ==> (s.agent is Ok <==> lookup_error(subs.push(s)) is None),
        lookup_error(subs) is None && s.agent is Err ==> lookup_error(subs.push(s)) == Some(
            s.agent->Err_0@,
        ),
{
    assert(subs.push(s).drop_last() =~= subs);
}

/// Mail to an agent of a peer is handed to that peer with what was sent.
pub proof fn federated_sends_are_handed_over(
    params: MailSendParams,
    wake: bool,
    peer: TargetPeer,
    daemon: &str,
    agent: &str,
    mail_id: &str,
    now: i64,
    r: Result<FederatedSend, RpcFault>,
)
    requires
        call_ensures(
            handle_federated_direct_send,
            (&params, wake, Ok::<Option<TargetPeer>, String>(Some(peer)), daemon, agent, mail_id, now),
            r,
        ),
    ensures
        peer.removing ==> (r matches Err(e) && fails(e, "peer_removing"@)),
        r matches Ok(s) ==> s.peer_id@ == peer.id@ && s.mail.body@ == params.body@
            && s.mail.recipient_id@ == "agent://grimd-"@ + daemon@ + "/"@ + agent@ && s.mail.id@
            == mail_id@ && opt_text(s.mail.sender_id) == opt_text(params.sender)
            && s.mail.wake_eligible == wake && s.mail.state == MailState::Pending,
{
}

/// Pending mail is delivered by an acknowledgement, which is told; delivered
/// mail stays so, and failed mail cannot be acknowledged.
pub proof fn acknowledgements_deliver(m: Mail, r: Result<Ack, RpcFault>, none: Result<Ack, RpcFault>)
    requires
        call_ensures(handle_mail_ack, (Some(&m),), r),
        call_ensures(handle_mail_ack, (None::<&Mail>,), none),
    ensures
        m.state == MailState::Pending ==> (r matches Ok(Ack::Deliver { mail_id, event }) && mail_id@
            == m.id@ && (event@ matches EventView::MailDelivered { mail_id: id, recipient_id, .. }
            && id == m.id@ && recipient_id == m.recipient_id@)),
        m.state == MailState::Delivered ==> r matches Ok(Ack::Already),
        m.state == MailState::Failed ==> (r matches Err(e) && fails(e, "cannot_ack_failed"@)),
        none matches Err(e) && fails(e, "mail_not_found"@),
{
}

/// An agent subscribes to a topic that is one, if the agent is there.
pub proof fn agents_subscribe(
    agent: &str,
    topic: &str,
    valid: bool,
    there: bool,
    id: &str,
    now: i64,
    r: Result<Subscription, RpcFault>,
    deleted: Result<bool, &str>,
    gone: Result<(), RpcFault>,
)
    requires
        call_ensures(handle_mail_subscribe, (agent, topic, valid, there, id, now), r),
        call_ensures(handle_mail_unsubscribe, (deleted,), gone),
    ensures
        r is Ok <==> valid && there,
        r matches Ok(s) ==> s.id@ == id@ && s.subscriber_id@ == agent@ && s.topic@ == topic@
            && s.created_at == now,
        !valid ==> fails(r->Err_0, "invalid_topic_name"@),
        valid && !there ==> fails(r->Err_0, "unknown_agent"@),
        gone is Ok <==> (deleted matches Ok(done) && done),
        deleted matches Ok(done) ==> !done ==> fails(gone->Err_0, "subscription_not_found"@),
{
}

/// A listing shows a hundred messages, or as many as are asked for, up to a
/// thousand.
pub proof fn listings_are_limited(asked: Option<u32>, r: Result<u32, RpcFault>)
    requires
        call_ensures(mail_list_limit, (asked,), r),
    ensures
        asked is None ==> r == Ok::<u32, RpcFault>(100),
        asked matches Some(n) ==> n <= 1000 ==> r == Ok::<u32, RpcFault>(n),
        asked matches Some(n) ==> n > 1000 ==> (r matches Err(e) && fails(e, "limit_too_large"@)),
{
}

/// A question is mail that wakes; it needs someone to reach, and its first
/// answer is its reply. Without one in time it fails.
pub proof fn questions_get_their_first_answer(
    to: &str,
    body: &str,
    sender: Option<String>,
    p: MailSendParams,
    ids: Vec<String>,
    posted: Result<(), RpcFault>,
    replies: Vec<Mail>,
    r: Result<Mail, RpcFault>,
    asked: Option<u64>,
    ms: u64,
)
    requires
        call_ensures(post_request, (to, body, sender), p),
        call_ensures(ask_posted, (&ids,), posted),
        call_ensures(ask_outcome, (&replies,), r),
        call_ensures(ask_timeout_ms, (asked,), ms),
    ensures
        p.to@ == to@,
        p.body@ == body@,
        p.sender == sender,
        p.wake_eligible == Some(true),
        p.in_reply_to is None,
        posted is Ok <==> ids@.len() > 0,
        posted matches Err(e) ==> fails(e, "ask_no_recipients"@),
        replies@.len() > 0 ==> (r matches Ok(m) && m.id@ == replies@[0].id@ && m.body@
            == replies@[0].body@),
        replies@.len() == 0 ==> (r matches Err(e) && fails(e, "ask_timeout"@)),
        asked matches Some(n) ==> ms == n,
        asked is None ==> ms == 30_000,
{
}

/// A collector keeps mail that answers one of its requests, once, and nothing
/// else.
pub proof fn answers_are_collected(
    c: &mut ReplyCollector,
    event: StreamEvent,
    m: Mail,
    id: Seq<char>,
)
    requires
        old(c).wf(),
        old(c).replies@.len() < old(c).stop_after,
        event@ matches EventView::MailReceived { mail_id, .. } && mail_id == id,
        m.id@ == id,
        call_ensures(ReplyCollector::observe, (c, &event, Some(m)), ()),
    ensures
        texts(old(c).seen@).contains(id) ==> *final(c) == *old(c),
        !texts(old(c).seen@).contains(id) ==> {
            &&& texts(final(c).seen@).contains(id)
            &&& m.in_reply_to is None ==> final(c).replies@ == old(c).replies@
            &&& m.in_reply_to matches Some(q) ==> texts(old(c).request_ids@).contains(q@)
                ==> final(c).replies@ == old(c).replies@.push(m)
            &&& m.in_reply_to matches Some(q) ==> !texts(old(c).request_ids@).contains(q@)
                ==> final(c).replies@ == old(c).replies@
        },
{
    let seen = texts(old(c).seen@);
    if !seen.contains(id) {
        assert(seen.push(id)[seen.len() as int] == id);
    }
}

/// What an acknowledgement fails for is told: a prefix that is ambiguous by
/// its own code, anything else as it is.
pub proof fn ambiguous_prefixes_are_told(error: &str, f: RpcFault)
    requires
        call_ensures(ack_fault, (error,), f),
    ensures
        "Ambiguous mail prefix"@.is_prefix_of(error@) ==> fails(f, "ambiguous_mail_prefix"@),
        !"Ambiguous mail prefix"@.is_prefix_of(error@) ==> fails(f, "set_state: "@ + error@),
{
}

/// Of a send to a topic the peers that had no room are told first, each once.
pub proof fn full_peers_are_told(
    mails: Vec<Mail>,
    full: Vec<String>,
    peer_mail_id: &str,
    preview: &str,
    events: Vec<StreamEvent>,
    i: int,
)
    requires
        call_ensures(topic_send_events, (&mails, &full, peer_mail_id, preview), events),
        0 <= i < full@.len(),
    ensures
        i < events@.len(),
        events@[i]@ matches EventView::PeerMailForwardFailed { peer_id, mail_id, reason }
            && peer_id == full@[i]@ && mail_id == peer_mail_id@ && reason == "peer_outbox_full"@,
{
    let told = events_view(events@);
    assert(told.len() == events@.len());
    assert(texts(full@).len() == full@.len());
    assert(told[i] == events@[i]@);
    assert(texts(full@)[i] == full@[i]@);
}

} // verus!
