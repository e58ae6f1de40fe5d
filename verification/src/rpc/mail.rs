//! Mail requests: direct, topic and federated sends, request and reply,
//! acknowledgement, and topic subscriptions.

use super::{fails, rpc_err, RpcFault};
use crate::bytes::byte_len;
use crate::text::{cat, copy_opt, has_prefix, holds, opt_text, own, same, texts, utf8_len};
use crate::types::{
    events_view, mails_view, Address, AddressView, AgentState, EventView, Mail, MailState, MailView,
    StreamEvent,
};
use vstd::prelude::*;
use vstd::string::*;

verus! {

/// Byte cap on the body of a piece of mail.
pub const MAX_MAIL_BODY_BYTES: usize = 65_536;

/// Characters of a body that an event previews.
pub const PREVIEW_CHARS: usize = 200;

/// How much mail may wait for a peer.
pub const PEER_OUTBOX_MAX_DEPTH_DEFAULT: u64 = 10_000;

/// How long a request waits for its reply, unless it says so, in milliseconds.
pub const ASK_TIMEOUT_MS: u64 = 30_000;

// ---------------------------------------------------------------------------
// Mail rows
// ---------------------------------------------------------------------------

/// The state in which mail to an agent starts: it fails where there is no such
/// agent, or it was banished.
pub open spec fn first_state(agent: Option<AgentState>) -> (MailState, Option<Seq<char>>) {
    match agent {
        None => (MailState::Failed, Some("unknown_recipient"@)),
        Some(s) => if s == AgentState::Banished {
            (MailState::Failed, Some("recipient_banished"@))
        } else {
            (MailState::Pending, None)
        },
    }
}

/// The state in which mail to an agent starts, and why it failed.
pub fn compute_mail_state(agent: Option<AgentState>) -> (r: (MailState, Option<&'static str>))
    ensures
        r.0 == first_state(agent).0,
        crate::text::opt_str(r.1) == first_state(agent).1,
        r.1 is Some <==> r.0 == MailState::Failed,
{
    match agent {
        None => (MailState::Failed, Some("unknown_recipient")),
        Some(s) => if s == AgentState::Banished {
            (MailState::Failed, Some("recipient_banished"))
        } else {
            (MailState::Pending, None)
        },
    }
}

/// What a sender asks for.
#[derive(Debug)]
pub struct MailSendParams {
    pub to: String,
    pub body: String,
    pub sender: Option<String>,
    pub wake_eligible: Option<bool>,
    pub in_reply_to: Option<String>,
}

/// A mail row before it has its id and its times.
#[derive(Debug)]
pub struct MailDraft {
    pub recipient_id: String,
    pub sender: Option<String>,
    pub topic: Option<String>,
    pub body: String,
    pub state: MailState,
    pub fail_reason: Option<&'static str>,
    pub wake_eligible: bool,
    pub in_reply_to: Option<String>,
}

/// Gives a draft its id and times. Mail that is not pending has been dealt
/// with now.
pub fn new_outbound_mail(draft: MailDraft, mail_id: String, now: i64) -> (m: Mail)
    ensures
        m@ == (MailView {
            id: mail_id@,
            recipient_id: draft.recipient_id@,
            sender_id: opt_text(draft.sender),
            topic: opt_text(draft.topic),
            body: draft.body@,
            in_reply_to: opt_text(draft.in_reply_to),
            state: draft.state,
            fail_reason: crate::text::opt_str(draft.fail_reason),
            created_at: now,
            delivered_at: if draft.state == MailState::Pending {
                None
            } else {
                Some(now)
            },
            seq: 0,
            wake_eligible: draft.wake_eligible,
        }),
{
    let delivered_at: Option<i64> = if draft.state == MailState::Pending {
        None
    } else {
        Some(now)
    };
    let fail_reason: Option<String> = match draft.fail_reason {
        Some(r) => Some(own(r)),
        None => None,
    };
    Mail {
        id: mail_id,
        recipient_id: draft.recipient_id,
        sender_id: draft.sender,
        topic: draft.topic,
        body: draft.body,
        in_reply_to: draft.in_reply_to,
        state: draft.state,
        fail_reason,
        created_at: now,
        delivered_at,
        seq: 0,
        wake_eligible: draft.wake_eligible,
    }
}

/// A row that a send makes for an agent.
pub open spec fn sent_row(
    params: MailSendParams,
    wake_eligible: bool,
    topic: Option<Seq<char>>,
    recipient: Seq<char>,
    agent: Option<AgentState>,
    mail_id: Seq<char>,
    now: i64,
) -> MailView {
    let (state, fail_reason) = first_state(agent);
    MailView {
        id: mail_id,
        recipient_id: recipient,
        sender_id: opt_text(params.sender),
        topic,
        body: params.body@,
        in_reply_to: opt_text(params.in_reply_to),
        state,
        fail_reason,
        created_at: now,
        delivered_at: if state == MailState::Pending {
            None
        } else {
            Some(now)
        },
        seq: 0,
        wake_eligible,
    }
}

fn send_row(
    params: &MailSendParams,
    wake_eligible: bool,
    topic: Option<String>,
    recipient: &str,
    agent: Option<AgentState>,
    mail_id: &str,
    now: i64,
) -> (m: Mail)
    ensures
        m@ == sent_row(*params, wake_eligible, opt_text(topic), recipient@, agent, mail_id@, now),
{
    let (state, fail_reason) = compute_mail_state(agent);
    let draft = MailDraft {
        recipient_id: own(recipient),
        sender: copy_opt(&params.sender),
        topic,
        body: params.body.clone(),
        state,
        fail_reason,
        wake_eligible,
        in_reply_to: copy_opt(&params.in_reply_to),
    };
    new_outbound_mail(draft, own(mail_id), now)
}

/// What is told of a row that was just stored: pending mail was sent and
/// received, failed mail failed.
pub open spec fn row_events(m: MailView, preview: Seq<char>) -> Seq<EventView> {
    match m.state {
        MailState::Pending => seq![
            EventView::MailSent {
                mail_id: m.id,
                sender_id: m.sender_id,
                recipient_id: Some(m.recipient_id),
                topic: m.topic,
            },
            EventView::MailReceived {
                mail_id: m.id,
                recipient_id: m.recipient_id,
                sender_id: m.sender_id,
                topic: m.topic,
                body_preview: preview,
                wake_eligible: m.wake_eligible,
                origin_daemon_id: None,
            },
        ],
        MailState::Failed => seq![
            EventView::MailFailed {
                mail_id: m.id,
                recipient_id: m.recipient_id,
                sender_id: m.sender_id,
                reason: match m.fail_reason {
                    Some(r) => r,
                    None => "unknown"@,
                },
            },
        ],
        MailState::Delivered => seq![],
    }
}

/// Adds what is told of a row to a list.
fn tell_row(m: &Mail, preview: &str, out: &mut Vec<StreamEvent>)
    ensures
        events_view(final(out)@) == events_view(old(out)@) + row_events(m@, preview@),
{
    let ghost before = events_view(out@);
    match m.state {
        MailState::Pending => {
            out.push(
                StreamEvent::MailSent {
                    mail_id: m.id.clone(),
                    sender_id: copy_opt(&m.sender_id),
                    recipient_id: Some(m.recipient_id.clone()),
                    topic: copy_opt(&m.topic),
                },
            );
            out.push(
                StreamEvent::MailReceived {
                    mail_id: m.id.clone(),
                    recipient_id: m.recipient_id.clone(),
                    sender_id: copy_opt(&m.sender_id),
                    topic: copy_opt(&m.topic),
                    body_preview: own(preview),
                    wake_eligible: m.wake_eligible,
                    origin_daemon_id: None,
                },
            );
        },
        MailState::Failed => {
            let reason = match &m.fail_reason {
                Some(r) => r.clone(),
                None => own("unknown"),
            };
            out.push(
                StreamEvent::MailFailed {
                    mail_id: m.id.clone(),
                    recipient_id: m.recipient_id.clone(),
                    sender_id: copy_opt(&m.sender_id),
                    reason,
                },
            );
        },
        MailState::Delivered => {},
    }
    assert(events_view(out@) =~= before + row_events(m@, preview@));
}

/// What is told of a row that was just stored.
pub fn emit_mail_events(m: &Mail, preview: &str) -> (events: Vec<StreamEvent>)
    ensures
        events_view(events@) == row_events(m@, preview@),
{
    let mut events: Vec<StreamEvent> = Vec::new();
    tell_row(m, preview, &mut events);
    assert(events_view(events@) =~= row_events(m@, preview@));
    events
}

// ---------------------------------------------------------------------------
// Sending
// ---------------------------------------------------------------------------

/// Where a send goes.
#[derive(Debug)]
pub enum SendRoute {
    Direct(String),
    Topic(String),
    Federated { daemon_id: String, agent_id: String },
}

/// What a [`SendRoute`] says.
pub ghost enum RouteView {
    Direct(Seq<char>),
    Topic(Seq<char>),
    Federated { daemon_id: Seq<char>, agent_id: Seq<char> },
}

impl View for SendRoute {
    type V = RouteView;

    open spec fn view(&self) -> RouteView {
        match self {
            SendRoute::Direct(a) => RouteView::Direct(a@),
            SendRoute::Topic(t) => RouteView::Topic(t@),
            SendRoute::Federated { daemon_id, agent_id } => RouteView::Federated {
                daemon_id: daemon_id@,
                agent_id: agent_id@,
            },
        }
    }
}

/// Senders that only the daemon itself may claim to be.
pub open spec fn reserved_sender(s: Seq<char>) -> bool {
    "supervisor://"@.is_prefix_of(s) || "wake://"@.is_prefix_of(s) || "workspace://"@.is_prefix_of(
        s,
    ) || "peer://"@.is_prefix_of(s)
}

/// Where an address leads from a daemon. The federated form of the daemon's
/// own agent is that agent.
pub open spec fn routed(a: AddressView, own_id: Seq<char>) -> RouteView {
    match a {
        AddressView::Agent(id) => RouteView::Direct(id),
        AddressView::Topic(t) => RouteView::Topic(t),
        AddressView::FederatedAgent { daemon_id, agent_id } => if daemon_id == own_id {
            RouteView::Direct(agent_id)
        } else {
            RouteView::Federated { daemon_id, agent_id }
        },
    }
}

/// Why a send is refused before its address is looked at.
pub open spec fn send_refused(params: MailSendParams) -> Option<Seq<char>> {
    if utf8_len(params.body@) > MAX_MAIL_BODY_BYTES {
        Some("body_too_large"@)
    } else if params.sender is Some && reserved_sender(params.sender->0@) {
        Some("reserved_sender_prefix"@)
    } else {
        None
    }
}

/// A send that goes ahead.
#[derive(Debug)]
pub struct SendStart {
    pub route: SendRoute,
    pub wake_eligible: bool,
}

/// Checks a send, of which `address` is what its address parses to, or a code.
/// Mail may wake its recipient unless the sender says otherwise.
pub fn handle_mail_send(params: &MailSendParams, address: Result<Address, &str>, daemon_id: &str) -> (r:
    Result<SendStart, RpcFault>)
    ensures
        match send_refused(*params) {
            Some(code) => r matches Err(e) && fails(e, code),
            None => match address {
                Err(code) => r matches Err(e) && fails(e, code@),
                Ok(a) => {
                    &&& r matches Ok(s)
                    &&& s.route@ == routed(a@, daemon_id@)
                    &&& s.wake_eligible == (match params.wake_eligible {
                        Some(w) => w,
                        None => true,
                    })
                },
            },
        },
{
    if byte_len(params.body.as_str()) > MAX_MAIL_BODY_BYTES {
        return Err(rpc_err("body_too_large"));
    }
    if let Some(s) = &params.sender {
        let s = s.as_str();
        if has_prefix(s, "supervisor://") || has_prefix(s, "wake://") || has_prefix(
            s,
            "workspace://",
        ) || has_prefix(s, "peer://") {
            return Err(rpc_err("reserved_sender_prefix"));
        }
    }
    let wake_eligible = match params.wake_eligible {
        Some(w) => w,
        None => true,
    };
    let route = match address {
        Err(code) => return Err(rpc_err(code)),
        Ok(Address::Agent(id)) => SendRoute::Direct(id),
        Ok(Address::Topic(t)) => SendRoute::Topic(t),
        Ok(Address::FederatedAgent { daemon_id: target, agent_id }) => if same(
            target.as_str(),
            daemon_id,
        ) {
            SendRoute::Direct(agent_id)
        } else {
            SendRoute::Federated { daemon_id: target, agent_id }
        },
    };
    Ok(SendStart { route, wake_eligible })
}

/// Rows that a send stores, and how many of them will be delivered.
#[derive(Debug)]
pub struct SendPlan {
    pub mails: Vec<Mail>,
    pub delivered: u32,
}

/// Mail to one agent, whose state is `agent` where it is known.
pub fn handle_direct_send(
    params: &MailSendParams,
    recipient_id: &str,
    wake_eligible: bool,
    agent: Option<AgentState>,
    mail_id: &str,
    now: i64,
) -> (plan: SendPlan)
    ensures
        mails_view(plan.mails@) == seq![
            sent_row(*params, wake_eligible, None, recipient_id@, agent, mail_id@, now),
        ],
        plan.delivered == pending_rows(mails_view(plan.mails@)),
{
    let m = send_row(params, wake_eligible, None, recipient_id, agent, mail_id, now);
    let delivered: u32 = if m.state == MailState::Pending {
        1
    } else {
        0
    };
    let ghost row = m@;
    let mut mails: Vec<Mail> = Vec::new();
    mails.push(m);
    proof {
        assert(mails_view(mails@) =~= seq![row]);
        assert(seq![row].drop_last() =~= Seq::<MailView>::empty());
        reveal_with_fuel(pending_rows, 2);
    }
    SendPlan { mails, delivered }
}

/// How many rows are pending.
pub open spec fn pending_rows(rows: Seq<MailView>) -> nat
    decreases rows.len(),
{
    if rows.len() == 0 {
        0
    } else {
        pending_rows(rows.drop_last()) + (if rows.last().state == MailState::Pending {
            1nat
        } else {
            0nat
        })
    }
}

/// The ids of the rows of a send, in order: what the sender is told.
pub fn sent_ids(plan: &SendPlan) -> (ids: Vec<String>)
    ensures
        texts(ids@) == mails_view(plan.mails@).map_values(|m: MailView| m.id),
{
    let mut ids: Vec<String> = Vec::new();
    for i in 0..plan.mails.len()
        invariant
            ids@.len() == i,
            forall|k: int| 0 <= k < i ==> (#[trigger] ids@[k])@ == plan.mails@[k].id@,
    {
        ids.push(plan.mails[i].id.clone());
    }
    assert(texts(ids@) =~= mails_view(plan.mails@).map_values(|m: MailView| m.id));
    ids
}

/// A subscriber of a topic: its state, where it is known, or what kept it from
/// being looked up; and the id that its mail gets.
#[derive(Debug)]
pub struct Subscriber {
    pub id: String,
    pub agent: Result<Option<AgentState>, String>,
    pub mail_id: String,
}

/// The first lookup that failed.
pub open spec fn lookup_error(subs: Seq<Subscriber>) -> Option<Seq<char>>
    decreases subs.len(),
{
    if subs.len() == 0 {
        None
    } else {
        match lookup_error(subs.drop_last()) {
            Some(e) => Some(e),
            None => match subs.last().agent {
                Err(e) => Some(e@),
                Ok(_) => None,
            },
        }
    }
}

/// A row for each subscriber, in order.
pub open spec fn topic_rows(
    params: MailSendParams,
    topic: Seq<char>,
    wake_eligible: bool,
    subs: Seq<Subscriber>,
    now: i64,
) -> Seq<MailView> {
    subs.map_values(
        |s: Subscriber|
            sent_row(
                params,
                wake_eligible,
                Some(topic),
                s.id@,
                s.agent->Ok_0,
                s.mail_id@,
                now,
            ),
    )
}

/// What a send to a topic comes to.
#[derive(Debug)]
pub enum TopicSend {
    /// The topic has no subscribers: nothing is stored, here or for a peer,
    /// and the event says that it was sent.
    Unheard(StreamEvent),
    /// The rows to store.
    Rows(SendPlan),
}

/// The rows of a send to a topic: one for each subscriber. A lookup that
/// failed ends the send before anything is stored.
pub fn handle_topic_send(
    params: &MailSendParams,
    topic: &str,
    wake_eligible: bool,
    subs: &Vec<Subscriber>,
    now: i64,
) -> (r: Result<TopicSend, RpcFault>)
    requires
        subs@.len() <= u32::MAX,
    ensures
        match lookup_error(subs@) {
            Some(e) => r matches Err(f) && fails(f, "db error: "@ + e),
            None => if subs@.len() == 0 {
                r matches Ok(TopicSend::Unheard(e)) && e@ == (EventView::MailSent {
                    mail_id: ""@,
                    sender_id: opt_text(params.sender),
                    recipient_id: None,
                    topic: Some(topic@),
                })
            } else {
                &&& r matches Ok(TopicSend::Rows(plan))
                &&& mails_view(plan.mails@) == topic_rows(
                    *params,
                    topic@,
                    wake_eligible,
                    subs@,
                    now,
                )
                &&& plan.delivered == pending_rows(mails_view(plan.mails@))
            },
        },
{
    if subs.len() == 0 {
        return Ok(TopicSend::Unheard(unheard_event(params, topic)));
    }
    let mut mails: Vec<Mail> = Vec::new();
    let mut delivered: u32 = 0;
    let ghost rows = topic_rows(*params, topic@, wake_eligible, subs@, now);
    assert(mails_view(mails@) =~= rows.take(0));
    for i in 0..subs.len()
        invariant
            subs@.len() <= u32::MAX,
            rows == topic_rows(*params, topic@, wake_eligible, subs@, now),
            lookup_error(subs@.take(i as int)) is None,
            mails_view(mails@) == rows.take(i as int),
            delivered == pending_rows(rows.take(i as int)),
            delivered <= i,
    {
        let sub = &subs[i];
        proof {
            let now_subs = subs@.take(i + 1);
            assert(now_subs.drop_last() =~= subs@.take(i as int));
            assert(now_subs.last() == subs@[i as int]);
            assert(rows.take(i + 1).drop_last() =~= rows.take(i as int));
            assert(rows.take(i + 1).last() == rows[i as int]);
        }
        let agent: Option<AgentState> = match &sub.agent {
            Err(e) => {
                proof {
                    lemma_lookup_error_stays(subs@, i + 1);
                }
                return Err(rpc_err(cat("db error: ", e.as_str()).as_str()));
            },
            Ok(a) => *a,
        };
        let m = send_row(
            params,
            wake_eligible,
            Some(own(topic)),
            sub.id.as_str(),
            agent,
            sub.mail_id.as_str(),
            now,
        );
        if m.state == MailState::Pending {
            delivered = delivered + 1;
        }
        let ghost before = mails_view(mails@);
        let ghost row = m@;
        mails.push(m);
        proof {
            assert(mails_view(mails@) =~= before.push(row));
            assert(rows.take(i + 1) =~= rows.take(i as int).push(row));
        }
    }
    assert(subs@.take(subs@.len() as int) =~= subs@);
    assert(rows.take(rows.len() as int) =~= rows);
    Ok(TopicSend::Rows(SendPlan { mails, delivered }))
}

proof fn lemma_lookup_error_stays(subs: Seq<Subscriber>, n: int)
    requires
        0 <= n <= subs.len(),
        lookup_error(subs.take(n)) is Some,
    ensures
        lookup_error(subs) == lookup_error(subs.take(n)),
    decreases subs.len(),
{
    if n == subs.len() {
        assert(subs.take(n) =~= subs);
    } else {
        assert(subs.drop_last().take(n) =~= subs.take(n));
        lemma_lookup_error_stays(subs.drop_last(), n);
    }
}

/// A send to a topic without subscribers: nobody gets it, and one event says
/// that it was sent.
fn unheard_event(params: &MailSendParams, topic: &str) -> (e: StreamEvent)
    ensures
        e@ == (EventView::MailSent {
            mail_id: ""@,
            sender_id: opt_text(params.sender),
            recipient_id: None,
            topic: Some(topic@),
        }),
{
    StreamEvent::MailSent {
        mail_id: own(""),
        sender_id: copy_opt(&params.sender),
        recipient_id: None,
        topic: Some(own(topic)),
    }
}

/// A peer that a topic is federated to: how much mail waits for it, where that
/// can be read, and the id that its outbox row gets.
#[derive(Debug)]
pub struct FederatedPeer {
    pub peer_id: String,
    pub depth: Option<u64>,
    pub outbox_id: String,
}

/// Mail that waits for a peer.
#[derive(Debug)]
pub struct OutboxFanoutRow {
    pub peer_id: String,
    pub outbox_id: String,
    pub mail_id: String,
    pub recipient: String,
    pub body: String,
    pub sender: Option<String>,
    pub created_at: i64,
}

/// What an [`OutboxFanoutRow`] holds.
#[verifier::ext_equal]
pub ghost struct OutboxView {
    pub peer_id: Seq<char>,
    pub outbox_id: Seq<char>,
    pub mail_id: Seq<char>,
    pub recipient: Seq<char>,
    pub body: Seq<char>,
    pub sender: Option<Seq<char>>,
    pub created_at: i64,
}

impl View for OutboxFanoutRow {
    type V = OutboxView;

    open spec fn view(&self) -> OutboxView {
        OutboxView {
            peer_id: self.peer_id@,
            outbox_id: self.outbox_id@,
            mail_id: self.mail_id@,
            recipient: self.recipient@,
            body: self.body@,
            sender: opt_text(self.sender),
            created_at: self.created_at,
        }
    }
}

/// What each row of a list holds.
pub open spec fn outbox_view(rows: Seq<OutboxFanoutRow>) -> Seq<OutboxView> {
    rows.map_values(|r: OutboxFanoutRow| r@)
}

/// Whether so much mail waits for a peer that no more is taken.
pub open spec fn outbox_full(p: FederatedPeer) -> bool {
    p.depth is Some && p.depth->0 >= PEER_OUTBOX_MAX_DEPTH_DEFAULT
}

/// The peers whose outbox is full.
pub open spec fn full_peers(peers: Seq<FederatedPeer>) -> Seq<Seq<char>>
    decreases peers.len(),
{
    if peers.len() == 0 {
        seq![]
    } else {
        let before = full_peers(peers.drop_last());
        if outbox_full(peers.last()) {
            before.push(peers.last().peer_id@)
        } else {
            before
        }
    }
}

/// The outbox rows of the peers that have room.
pub open spec fn fanout_rows(
    params: MailSendParams,
    topic: Seq<char>,
    mail_id: Seq<char>,
    peers: Seq<FederatedPeer>,
    now: i64,
) -> Seq<OutboxView>
    decreases peers.len(),
{
    if peers.len() == 0 {
        seq![]
    } else {
        let before = fanout_rows(params, topic, mail_id, peers.drop_last(), now);
        if outbox_full(peers.last()) {
            before
        } else {
            before.push(
                OutboxView {
                    peer_id: peers.last().peer_id@,
                    outbox_id: peers.last().outbox_id@,
                    mail_id,
                    recipient: "topic://"@ + topic,
                    body: params.body@,
                    sender: opt_text(params.sender),
                    created_at: now,
                },
            )
        }
    }
}

/// What goes to the peers of a topic.
#[derive(Debug)]
pub struct Fanout {
    pub rows: Vec<OutboxFanoutRow>,
    pub full_peers: Vec<String>,
}

/// What goes to the peers of a topic, under the id of the first mail that the
/// send stored, or under `peer_mail_id` where it stored none.
pub fn fan_out(
    params: &MailSendParams,
    topic: &str,
    mails: &Vec<Mail>,
    peer_mail_id: &str,
    peers: &Vec<FederatedPeer>,
    now: i64,
) -> (r: Fanout)
    ensures
        ({
            let id = if mails@.len() > 0 {
                mails@[0].id@
            } else {
                peer_mail_id@
            };
            &&& outbox_view(r.rows@) == fanout_rows(*params, topic@, id, peers@, now)
            &&& texts(r.full_peers@) == full_peers(peers@)
        }),
{
    let pick_id = if mails.len() > 0 {
        mails[0].id.clone()
    } else {
        own(peer_mail_id)
    };
    let recipient = cat("topic://", topic);
    let mut rows: Vec<OutboxFanoutRow> = Vec::new();
    let mut full: Vec<String> = Vec::new();
    assert(outbox_view(rows@) =~= Seq::<OutboxView>::empty());
    assert(texts(full@) =~= Seq::<Seq<char>>::empty());
    for i in 0..peers.len()
        invariant
            recipient@ == "topic://"@ + topic@,
            outbox_view(rows@) == fanout_rows(
                *params,
                topic@,
                pick_id@,
                peers@.take(i as int),
                now,
            ),
            texts(full@) == full_peers(peers@.take(i as int)),
    {
        let p = &peers[i];
        let ghost rows_before = outbox_view(rows@);
        let ghost full_before = texts(full@);
        proof {
            let some = peers@.take(i + 1);
            assert(some.drop_last() =~= peers@.take(i as int));
            assert(some.last() == peers@[i as int]);
        }
        let is_full = match p.depth {
            Some(d) => d >= PEER_OUTBOX_MAX_DEPTH_DEFAULT,
            None => false,
        };
        if is_full {
            full.push(p.peer_id.clone());
            assert(texts(full@) =~= full_before.push(p.peer_id@));
        } else {
            let row = OutboxFanoutRow {
                peer_id: p.peer_id.clone(),
                outbox_id: p.outbox_id.clone(),
                mail_id: pick_id.clone(),
                recipient: recipient.clone(),
                body: params.body.clone(),
                sender: copy_opt(&params.sender),
                created_at: now,
            };
            let ghost rv = row@;
            rows.push(row);
            assert(outbox_view(rows@) =~= rows_before.push(rv));
        }
    }
    assert(peers@.take(peers@.len() as int) =~= peers@);
    Fanout { rows, full_peers: full }
}

/// What is told of each row.
pub open spec fn rows_events(rows: Seq<MailView>, preview: Seq<char>) -> Seq<EventView>
    decreases rows.len(),
{
    if rows.len() == 0 {
        seq![]
    } else {
        rows_events(rows.drop_last(), preview) + row_events(rows.last(), preview)
    }
}

/// What is told of each peer whose outbox is full.
pub open spec fn full_events(peers: Seq<Seq<char>>, mail_id: Seq<char>) -> Seq<EventView> {
    peers.map_values(
        |p: Seq<char>|
            EventView::PeerMailForwardFailed {
                peer_id: p,
                mail_id,
                reason: "peer_outbox_full"@,
            },
    )
}

/// What is told of a send to a topic: first the peers that could not take it,
/// then each row.
pub fn topic_send_events(
    mails: &Vec<Mail>,
    full: &Vec<String>,
    peer_mail_id: &str,
    preview: &str,
) -> (events: Vec<StreamEvent>)
    ensures
        events_view(events@) == full_events(texts(full@), peer_mail_id@) + rows_events(
            mails_view(mails@),
            preview@,
        ),
{
    let mut events: Vec<StreamEvent> = Vec::new();
    for i in 0..full.len()
        invariant
            events@.len() == i,
            forall|k: int|
                0 <= k < i ==> (#[trigger] events@[k])@ == (EventView::PeerMailForwardFailed {
                    peer_id: full@[k]@,
                    mail_id: peer_mail_id@,
                    reason: "peer_outbox_full"@,
                }),
    {
        events.push(
            StreamEvent::PeerMailForwardFailed {
                peer_id: full[i].clone(),
                mail_id: own(peer_mail_id),
                reason: own("peer_outbox_full"),
            },
        );
    }
    let ghost head = full_events(texts(full@), peer_mail_id@);
    let ghost rows = mails_view(mails@);
    assert(events_view(events@) =~= head);
    assert(rows.take(0) =~= Seq::<MailView>::empty());
    assert(head + rows_events(rows.take(0), preview@) =~= head);
    for i in 0..mails.len()
        invariant
            rows == mails_view(mails@),
            events_view(events@) == head + rows_events(rows.take(i as int), preview@),
    {
        proof {
            assert(rows.take(i + 1).drop_last() =~= rows.take(i as int));
            assert(rows.take(i + 1).last() == mails@[i as int]@);
        }
        tell_row(&mails[i], preview, &mut events);
        assert(events_view(events@) =~= head + rows_events(rows.take(i + 1), preview@));
    }
    assert(rows.take(rows.len() as int) =~= rows);
    events
}

/// A peer, as far as a send to one of its agents looks at it.
#[derive(Debug)]
pub struct TargetPeer {
    pub id: String,
    pub removing: bool,
    /// How much mail waits for it, or what kept that from being read.
    pub depth: Result<u64, String>,
}

/// Mail to an agent of a peer.
#[derive(Debug)]
pub struct FederatedSend {
    pub mail: Mail,
    pub peer_id: String,
}

/// Why mail to an agent of a peer is refused. `peer` is the peer of the
/// agent's daemon, if there is one, or what kept it from being looked up.
pub open spec fn federated_refused(peer: Result<Option<TargetPeer>, String>) -> Option<Seq<char>> {
    match peer {
        Err(why) => Some("db: "@ + why@),
        Ok(None) => Some("peer_unknown_for_recipient"@),
        Ok(Some(p)) => if p.removing {
            Some("peer_removing"@)
        } else {
            match p.depth {
                Err(e) => Some("outbox_depth: "@ + e@),
                Ok(d) => if d >= PEER_OUTBOX_MAX_DEPTH_DEFAULT {
                    Some("peer_outbox_full"@)
                } else {
                    None
                },
            }
        },
    }
}

/// The address of a peer's agent.
pub open spec fn federated_address(daemon_id: Seq<char>, agent_id: Seq<char>) -> Seq<char> {
    "agent://grimd-"@ + daemon_id + "/"@ + agent_id
}

/// Mail to an agent of a peer: the row to store, and for whom it waits.
pub fn handle_federated_direct_send(
    params: &MailSendParams,
    wake_eligible: bool,
    peer: Result<Option<TargetPeer>, String>,
    target_daemon: &str,
    agent_id: &str,
    mail_id: &str,
    now: i64,
) -> (r: Result<FederatedSend, RpcFault>)
    ensures
        match federated_refused(peer) {
            Some(code) => r matches Err(e) && fails(e, code),
            None => {
                &&& r matches Ok(s)
                &&& s.peer_id@ == peer->Ok_0->0.id@
                &&& s.mail@ == (MailView {
                    id: mail_id@,
                    recipient_id: federated_address(target_daemon@, agent_id@),
                    sender_id: opt_text(params.sender),
                    topic: None,
                    body: params.body@,
                    in_reply_to: opt_text(params.in_reply_to),
                    state: MailState::Pending,
                    fail_reason: None,
                    created_at: now,
                    delivered_at: None,
                    seq: 0,
                    wake_eligible,
                })
            },
        },
{
    let peer = match peer {
        Err(why) => return Err(rpc_err(cat("db: ", why.as_str()).as_str())),
        Ok(None) => return Err(rpc_err("peer_unknown_for_recipient")),
        Ok(Some(p)) => p,
    };
    if peer.removing {
        return Err(rpc_err("peer_removing"));
    }
    let depth: u64 = match &peer.depth {
        Err(e) => return Err(rpc_err(cat("outbox_depth: ", e.as_str()).as_str())),
        Ok(d) => *d,
    };
    if depth >= PEER_OUTBOX_MAX_DEPTH_DEFAULT {
        return Err(rpc_err("peer_outbox_full"));
    }
    let mut recipient = cat("agent://grimd-", target_daemon);
    recipient.append("/");
    recipient.append(agent_id);
    let draft = MailDraft {
        recipient_id: recipient,
        sender: copy_opt(&params.sender),
        topic: None,
        body: params.body.clone(),
        state: MailState::Pending,
        fail_reason: None,
        wake_eligible,
        in_reply_to: copy_opt(&params.in_reply_to),
    };
    let mail = new_outbound_mail(draft, own(mail_id), now);
    Ok(FederatedSend { mail, peer_id: peer.id })
}

/// What is told of mail to an agent of a peer, once it is stored. Only the
/// peer will know when it is received.
pub fn federated_send_event(m: &Mail) -> (e: StreamEvent)
    ensures
        e@ == (EventView::MailSent {
            mail_id: m.id@,
            sender_id: opt_text(m.sender_id),
            recipient_id: Some(m.recipient_id@),
            topic: None,
        }),
{
    StreamEvent::MailSent {
        mail_id: m.id.clone(),
        sender_id: copy_opt(&m.sender_id),
        recipient_id: Some(m.recipient_id.clone()),
        topic: None,
    }
}

// ---------------------------------------------------------------------------
// Request and reply
// ---------------------------------------------------------------------------

/// Collects the replies to requests, from what is received until it stops.
#[derive(Debug)]
pub struct ReplyCollector {
    pub request_ids: Vec<String>,
    pub stop_after: usize,
    pub seen: Vec<String>,
    pub replies: Vec<Mail>,
}

/// Whether mail answers one of the requests.
pub open spec fn answers(m: MailView, request_ids: Seq<Seq<char>>) -> bool {
    m.in_reply_to is Some && request_ids.contains(m.in_reply_to->0)
}

/// The mail that an event says was received or delivered.
pub open spec fn arrived(e: EventView) -> Option<Seq<char>> {
    match e {
        EventView::MailReceived { mail_id, .. } => Some(mail_id),
        EventView::MailDelivered { mail_id, .. } => Some(mail_id),
        _ => None,
    }
}

/// The ids of mail, in order.
pub open spec fn mail_ids(mails: Seq<Mail>) -> Seq<Seq<char>> {
    mails.map_values(|m: Mail| m.id@)
}

impl ReplyCollector {
    /// Whether the collector holds together: it has no more replies than it
    /// waits for, each answers a request and was seen, and no two are the
    /// same.
    pub open spec fn wf(self) -> bool {
        &&& self.replies@.len() <= self.stop_after
        &&& forall|i: int|
            0 <= i < self.replies@.len() ==> answers(
                (#[trigger] self.replies@[i])@,
                texts(self.request_ids@),
            )
        &&& forall|i: int|
            0 <= i < self.replies@.len() ==> texts(self.seen@).contains(
                (#[trigger] self.replies@[i]).id@,
            )
        &&& mail_ids(self.replies@).no_duplicates()
    }

    /// A collector that stops after a number of replies.
    pub fn new(request_ids: Vec<String>, stop_after: usize) -> (c: ReplyCollector)
        ensures
            c.wf(),
            c.request_ids == request_ids,
            c.stop_after == stop_after,
            c.seen@.len() == 0,
            c.replies@.len() == 0,
    {
        ReplyCollector { request_ids, stop_after, seen: Vec::new(), replies: Vec::new() }
    }

    /// Whether there are as many replies as it waits for.
    pub fn done(&self) -> (r: bool)
        requires
            self.wf(),
        ensures
            r == (self.replies@.len() == self.stop_after),
    {
        self.replies.len() >= self.stop_after
    }

    /// The mail that is to be looked up for an event: each piece of mail is
    /// looked at once.
    pub fn wants(&self, event: &StreamEvent) -> (r: Option<String>)
        ensures
            opt_text(r) == (match arrived(event@) {
                Some(id) => if texts(self.seen@).contains(id) {
                    None
                } else {
                    Some(id)
                },
                None => None,
            }),
    {
        let id = match event {
            StreamEvent::MailReceived { mail_id, .. } => mail_id,
            StreamEvent::MailDelivered { mail_id, .. } => mail_id,
            _ => return None,
        };
        if holds(&self.seen, id.as_str()) {
            None
        } else {
            Some(id.clone())
        }
    }

    /// Takes in an event. Mail that it wants is looked at, and kept where it
    /// answers a request. `found` is that mail, where it can be read.
    pub fn observe(&mut self, event: &StreamEvent, found: Option<Mail>)
        requires
            old(self).wf(),
            old(self).replies@.len() < old(self).stop_after,
            found is Some ==> arrived(event@) == Some(found->0.id@),
        ensures
            final(self).wf(),
            final(self).request_ids == old(self).request_ids,
            final(self).stop_after == old(self).stop_after,
            match arrived(event@) {
                Some(id) if !texts(old(self).seen@).contains(id) => {
                    &&& texts(final(self).seen@) == texts(old(self).seen@).push(id)
                    &&& final(self).replies@ == (if found is Some && answers(
                        found->0@,
                        texts(old(self).request_ids@),
                    ) {
                        old(self).replies@.push(found->0)
                    } else {
                        old(self).replies@
                    })
                },
                _ => *final(self) == *old(self),
            },
    {
        let id = match self.wants(event) {
            Some(id) => id,
            None => return,
        };
        let ghost before = texts(self.seen@);
        self.seen.push(id);
        proof {
            let now = texts(self.seen@);
            assert(now =~= before.push(id@));
            assert forall|x: Seq<char>| before.contains(x) implies now.contains(x) by {
                let k = before.index_of(x);
                assert(now[k] == x);
            }
            assert(now[before.len() as int] == id@);
        }
        let m = match found {
            Some(m) => m,
            None => return,
        };
        let is_answer = match &m.in_reply_to {
            Some(rt) => holds(&self.request_ids, rt.as_str()),
            None => false,
        };
        if is_answer {
            let ghost kept = self.replies@;
            self.replies.push(m);
            proof {
                assert(mail_ids(self.replies@) =~= mail_ids(kept).push(m.id@));
                assert forall|k: int| 0 <= k < kept.len() implies mail_ids(kept)[k] != m.id@ by {
                    assert(before.contains(kept[k].id@));
                }
            }
        }
    }
}

/// What is sent for a request that waits for replies: it may wake its
/// recipients, and is no reply itself.
pub fn post_request(to: &str, body: &str, sender: Option<String>) -> (p: MailSendParams)
    ensures
        p.to@ == to@,
        p.body@ == body@,
        p.sender == sender,
        p.wake_eligible == Some(true),
        p.in_reply_to is None,
{
    MailSendParams {
        to: own(to),
        body: own(body),
        sender,
        wake_eligible: Some(true),
        in_reply_to: None,
    }
}

/// Whether a request was sent to anybody who could answer it.
pub fn ask_posted(request_ids: &Vec<String>) -> (r: Result<(), RpcFault>)
    ensures
        r is Ok <==> request_ids@.len() > 0,
        r matches Err(e) ==> fails(e, "ask_no_recipients"@),
{
    if request_ids.len() == 0 {
        Err(rpc_err("ask_no_recipients"))
    } else {
        Ok(())
    }
}

/// What a request that waits for one reply comes to.
pub fn ask_outcome(replies: &Vec<Mail>) -> (r: Result<Mail, RpcFault>)
    ensures
        if replies@.len() > 0 {
            r matches Ok(m) && m@ == replies@[0]@
        } else {
            r matches Err(e) && fails(e, "ask_timeout"@)
        },
{
    if replies.len() > 0 {
        Ok(replies[0].copy())
    } else {
        Err(rpc_err("ask_timeout"))
    }
}

/// How long a request waits.
pub fn ask_timeout_ms(asked: Option<u64>) -> (ms: u64)
    ensures
        ms == (match asked {
            Some(n) => n,
            None => ASK_TIMEOUT_MS,
        }),
{
    match asked {
        Some(n) => n,
        None => ASK_TIMEOUT_MS,
    }
}

// ---------------------------------------------------------------------------
// Reading and acknowledging
// ---------------------------------------------------------------------------

/// How many pieces of mail a listing shows.
pub fn mail_list_limit(asked: Option<u32>) -> (r: Result<u32, RpcFault>)
    ensures
        ({
            let limit = match asked {
                Some(n) => n,
                None => 100u32,
            };
            if limit > 1000 {
                r matches Err(e) && fails(e, "limit_too_large"@)
            } else {
                r == Ok::<u32, RpcFault>(limit)
            }
        }),
{
    let limit: u32 = match asked {
        Some(n) => n,
        None => 100,
    };
    if limit > 1000 {
        return Err(rpc_err("limit_too_large"));
    }
    Ok(limit)
}

/// What an acknowledgement does.
#[derive(Debug)]
pub enum Ack {
    /// The mail was delivered before: nothing.
    Already,
    /// Mark the mail as delivered, and tell of it.
    Deliver { mail_id: String, event: StreamEvent },
}

/// The fault of an acknowledgement whose mail could not be looked up, or not
/// be marked.
pub fn ack_fault(error: &str) -> (f: RpcFault)
    ensures
        fails(
            f,
            if "Ambiguous mail prefix"@.is_prefix_of(error@) {
                "ambiguous_mail_prefix"@
            } else {
                "set_state: "@ + error@
            },
        ),
{
    if has_prefix(error, "Ambiguous mail prefix") {
        rpc_err("ambiguous_mail_prefix")
    } else {
        rpc_err(cat("set_state: ", error).as_str())
    }
}

/// What an acknowledgement of mail comes to, where `found` is the mail that it
/// names.
pub fn handle_mail_ack(found: Option<&Mail>) -> (r: Result<Ack, RpcFault>)
    ensures
        match found {
            None => r matches Err(e) && fails(e, "mail_not_found"@),
            Some(m) => match m.state {
                MailState::Delivered => r == Ok::<Ack, RpcFault>(Ack::Already),
                MailState::Failed => r matches Err(e) && fails(e, "cannot_ack_failed"@),
                MailState::Pending => r matches Ok(Ack::Deliver { mail_id, event }) && mail_id@
                    == m.id@ && event@ == (EventView::MailDelivered {
                    mail_id: m.id@,
                    recipient_id: m.recipient_id@,
                    origin_daemon_id: None,
                }),
            },
        },
{
    match found {
        None => Err(rpc_err("mail_not_found")),
        Some(m) => match m.state {
            MailState::Delivered => Ok(Ack::Already),
            MailState::Failed => Err(rpc_err("cannot_ack_failed")),
            MailState::Pending => Ok(
                Ack::Deliver {
                    mail_id: m.id.clone(),
                    event: StreamEvent::MailDelivered {
                        mail_id: m.id.clone(),
                        recipient_id: m.recipient_id.clone(),
                        origin_daemon_id: None,
                    },
                },
            ),
        },
    }
}

// ---------------------------------------------------------------------------
// Subscriptions
// ---------------------------------------------------------------------------

/// A subscription to a topic.
#[derive(Debug)]
pub struct Subscription {
    pub id: String,
    pub subscriber_id: String,
    pub topic: String,
    pub created_at: i64,
}

/// A subscription of an agent: the row to store.
pub fn handle_mail_subscribe(
    agent_id: &str,
    topic: &str,
    topic_is_valid: bool,
    agent_exists: bool,
    new_id: &str,
    now: i64,
) -> (r: Result<Subscription, RpcFault>)
    ensures
        if !topic_is_valid {
            r matches Err(e) && fails(e, "invalid_topic_name"@)
        } else if !agent_exists {
            r matches Err(e) && fails(e, "unknown_agent"@)
        } else {
            r matches Ok(s) && s.id@ == new_id@ && s.subscriber_id@ == agent_id@ && s.topic@
                == topic@ && s.created_at == now
        },
{
    if !topic_is_valid {
        return Err(rpc_err("invalid_topic_name"));
    }
    if !agent_exists {
        return Err(rpc_err("unknown_agent"));
    }
    Ok(
        Subscription {
            id: own(new_id),
            subscriber_id: own(agent_id),
            topic: own(topic),
            created_at: now,
        },
    )
}

/// What the end of a subscription comes to.
pub fn handle_mail_unsubscribe(deleted: Result<bool, &str>) -> (r: Result<(), RpcFault>)
    ensures
        match deleted {
            Ok(true) => r is Ok,
            Ok(false) => r matches Err(e) && fails(e, "subscription_not_found"@),
            Err(why) => r matches Err(e) && fails(e, "delete_subscription: "@ + why@),
        },
{
    match deleted {
        Ok(true) => Ok(()),
        Ok(false) => Err(rpc_err("subscription_not_found")),
        Err(why) => Err(rpc_err(cat("delete_subscription: ", why).as_str())),
    }
}

// ---------------------------------------------------------------------------
// Laws
// ---------------------------------------------------------------------------

/// Mail fails at once exactly where it cannot be delivered, and it then says
/// why and when.
pub proof fn failed_rows_say_why(
    params: MailSendParams,
    wake_eligible: bool,
    topic: Option<Seq<char>>,
    recipient: Seq<char>,
    agent: Option<AgentState>,
    mail_id: Seq<char>,
    now: i64,
)
    ensures
        ({
            let m = sent_row(params, wake_eligible, topic, recipient, agent, mail_id, now);
            &&& m.state == MailState::Failed <==> agent is None || agent == Some(
                AgentState::Banished,
            )
            &&& m.state == MailState::Failed <==> m.fail_reason is Some
            &&& m.state == MailState::Failed <==> m.delivered_at is Some
            &&& m.state != MailState::Delivered
        }),
{
}

/// A peer either gets a row of a send to a topic, or is reported as full.
pub proof fn every_peer_is_accounted_for(
    params: MailSendParams,
    topic: Seq<char>,
    mail_id: Seq<char>,
    peers: Seq<FederatedPeer>,
    now: i64,
)
    ensures
        fanout_rows(params, topic, mail_id, peers, now).len() + full_peers(peers).len()
            == peers.len(),
    decreases peers.len(),
{
    if peers.len() > 0 {
        every_peer_is_accounted_for(params, topic, mail_id, peers.drop_last(), now);
    }
}

/// Nobody can send mail in the name of one of the daemon's own parts.
pub proof fn system_senders_cannot_be_forged(params: MailSendParams)
    requires
        params.sender is Some,
        reserved_sender(params.sender->0@),
    ensures
        send_refused(params) is Some,
{
}

/// Every row of a send tells its recipient, or that it failed: never nothing.
pub proof fn every_row_is_told(
    params: MailSendParams,
    wake_eligible: bool,
    topic: Option<Seq<char>>,
    recipient: Seq<char>,
    agent: Option<AgentState>,
    mail_id: Seq<char>,
    now: i64,
    preview: Seq<char>,
)
    ensures
        row_events(
            sent_row(params, wake_eligible, topic, recipient, agent, mail_id, now),
            preview,
        ).len() > 0,
{
}

/// Every row that a send stores carries what was sent: the body, the sender,
/// what it answers, and whether it may wake, to the agent that is addressed.
/// It waits for that agent unless there is none, or it was banished.
pub proof fn rows_carry_what_was_sent(
    params: MailSendParams,
    wake_eligible: bool,
    topic: Option<Seq<char>>,
    recipient: Seq<char>,
    agent: Option<AgentState>,
    mail_id: Seq<char>,
    now: i64,
)
    ensures
        ({
            let m = sent_row(params, wake_eligible, topic, recipient, agent, mail_id, now);
            let reached = agent is Some && agent->0 != AgentState::Banished;
            &&& m.id == mail_id
            &&& m.recipient_id == recipient
            &&& m.topic == topic
            &&& m.body == params.body@
            &&& m.sender_id == opt_text(params.sender)
            &&& m.in_reply_to == opt_text(params.in_reply_to)
            &&& m.wake_eligible == wake_eligible
            &&& m.created_at == now
            &&& m.state == (if reached {
                MailState::Pending
            } else {
                MailState::Failed
            })
            &&& m.fail_reason == (if reached {
                None
            } else if agent is None {
                Some("unknown_recipient"@)
            } else {
                Some("recipient_banished"@)
            })
            &&& m.delivered_at == (if reached {
                None
            } else {
                Some(now)
            })
        }),
{
}

/// A send to a topic makes one row for each subscriber, in order, and each
/// carries what was sent.
pub proof fn topics_reach_every_subscriber(
    params: MailSendParams,
    topic: Seq<char>,
    wake_eligible: bool,
    subs: Seq<Subscriber>,
    now: i64,
    i: int,
)
    requires
        0 <= i < subs.len(),
        subs[i].agent is Ok,
    ensures
        ({
            let rows = topic_rows(params, topic, wake_eligible, subs, now);
            &&& rows.len() == subs.len()
            &&& rows[i].recipient_id == subs[i].id@
            &&& rows[i].id == subs[i].mail_id@
            &&& rows[i].topic == Some(topic)
            &&& rows[i].body == params.body@
            &&& rows[i].sender_id == opt_text(params.sender)
            &&& rows[i].in_reply_to == opt_text(params.in_reply_to)
            &&& rows[i].wake_eligible == wake_eligible
            &&& rows[i].state == MailState::Pending <==> subs[i].agent->Ok_0 is Some
                && subs[i].agent->Ok_0->0 != AgentState::Banished
        }),
{
}

/// Pending mail is told as sent and as received, under its own id, with the
/// preview and with whether it may wake; failed mail as failed, with why.
pub proof fn rows_are_told_as_they_are(m: MailView, preview: Seq<char>)
    ensures
        m.state == MailState::Pending ==> {
            let told = row_events(m, preview);
            &&& told.len() == 2
            &&& told[0] matches EventView::MailSent { mail_id, sender_id, recipient_id, topic }
                && mail_id == m.id && sender_id == m.sender_id && recipient_id == Some(
                m.recipient_id,
            ) && topic == m.topic
            &&& told[1] matches EventView::MailReceived {
                mail_id,
                recipient_id,
                sender_id,
                topic,
                body_preview,
                wake_eligible,
                origin_daemon_id,
            } && mail_id == m.id && recipient_id == m.recipient_id && sender_id == m.sender_id
                && topic == m.topic && body_preview == preview && wake_eligible == m.wake_eligible
                && origin_daemon_id is None
        },
        m.state == MailState::Failed && m.fail_reason is Some ==> row_events(m, preview) == seq![
            EventView::MailFailed {
                mail_id: m.id,
                recipient_id: m.recipient_id,
                sender_id: m.sender_id,
                reason: m.fail_reason->0,
            },
        ],
{
}

/// A send goes where its address says: to the agent or the topic that it
/// names. The federated form of an agent of this daemon is that agent, and of
/// any other goes to that daemon.
pub proof fn sends_go_where_addressed(
    agent_id: Seq<char>,
    topic: Seq<char>,
    daemon_id: Seq<char>,
    own_id: Seq<char>,
)
    ensures
        routed(AddressView::Agent(agent_id), own_id) == RouteView::Direct(agent_id),
        routed(AddressView::Topic(topic), own_id) == RouteView::Topic(topic),
        routed(AddressView::FederatedAgent { daemon_id: own_id, agent_id }, own_id)
            == RouteView::Direct(agent_id),
        daemon_id != own_id ==> routed(
            AddressView::FederatedAgent { daemon_id, agent_id },
            own_id,
        ) == (RouteView::Federated { daemon_id, agent_id }),
{
}

/// A send is refused for its body where that has more than 65536 bytes, and
/// for its sender where that starts like one of the daemon's own parts; any
/// other goes ahead.
pub proof fn sends_are_refused_for_size_or_sender(params: MailSendParams)
    ensures
        ({
            let large = utf8_len(params.body@) > 65_536;
            let forged = params.sender is Some && ("supervisor://"@.is_prefix_of(
                params.sender->0@,
            ) || "wake://"@.is_prefix_of(params.sender->0@) || "workspace://"@.is_prefix_of(
                params.sender->0@,
            ) || "peer://"@.is_prefix_of(params.sender->0@));
            &&& large ==> send_refused(params) == Some("body_too_large"@)
            &&& !large && forged ==> send_refused(params) == Some("reserved_sender_prefix"@)
            &&& !large && !forged ==> send_refused(params) is None
        }),
{
}

/// A peer with room gets the body of a send to a topic, under the topic's
/// address, and one whose outbox is full is reported; each in the order of the
/// peers.
pub proof fn peers_get_the_body(
    params: MailSendParams,
    topic: Seq<char>,
    mail_id: Seq<char>,
    peers: Seq<FederatedPeer>,
    now: i64,
    p: FederatedPeer,
)
    ensures
        ({
            let full = p.depth is Some && p.depth->0 >= PEER_OUTBOX_MAX_DEPTH_DEFAULT;
            let rows = fanout_rows(params, topic, mail_id, peers, now);
            let more = fanout_rows(params, topic, mail_id, peers.push(p), now);
            &&& more.len() == rows.len() + (if full {
                0int
            } else {
                1
            })
            &&& rows.is_prefix_of(more)
            &&& !full ==> more.last().peer_id == p.peer_id@ && more.last().outbox_id
                == p.outbox_id@ && more.last().mail_id == mail_id && more.last().body
                == params.body@ && more.last().sender == opt_text(params.sender)
                && more.last().recipient == "topic://"@ + topic && more.last().created_at == now
            &&& full_peers(peers.push(p)) == (if full {
                full_peers(peers).push(p.peer_id@)
            } else {
                full_peers(peers)
            })
            &&& fanout_rows(params, topic, mail_id, seq![], now).len() == 0
            &&& full_peers(seq![]).len() == 0
        }),
{
    assert(peers.push(p).drop_last() =~= peers);
    let rows = fanout_rows(params, topic, mail_id, peers, now);
    let more = fanout_rows(params, topic, mail_id, peers.push(p), now);
    assert(rows =~= more.subrange(0, rows.len() as int));
}

/// Mail to an agent of a peer is refused exactly where the peer could not be
/// looked up, is unknown or is being removed, or its outbox could not be read
/// or is full.
pub proof fn federated_sends_need_a_peer_with_room(peer: Result<Option<TargetPeer>, String>)
    ensures
        federated_refused(peer) is None <==> peer is Ok && peer->Ok_0 is Some
            && !peer->Ok_0->0.removing && peer->Ok_0->0.depth is Ok && peer->Ok_0->0.depth->Ok_0
            < PEER_OUTBOX_MAX_DEPTH_DEFAULT,
        peer == Ok::<Option<TargetPeer>, String>(None) ==> federated_refused(peer) == Some(
            "peer_unknown_for_recipient"@,
        ),
{
}

/// The rows that will be delivered are counted one by one: those that wait.
pub proof fn delivered_rows_are_counted(rows: Seq<MailView>, m: MailView)
    ensures
        pending_rows(rows.push(m)) == pending_rows(rows) + (if m.state == MailState::Pending {
            1int
        } else {
            0
        }),
        pending_rows(seq![]) == 0,
{
    assert(rows.push(m).drop_last() =~= rows);
}

/// What answers a request is mail that names its id, and nothing else does.
pub proof fn replies_name_their_request(m: MailView, request_ids: Seq<Seq<char>>, id: Seq<char>)
    ensures
        m.in_reply_to is None ==> !answers(m, request_ids),
        m.in_reply_to == Some(id) ==> (answers(m, request_ids) <==> request_ids.contains(id)),
        arrived(
            EventView::MailReceived {
                mail_id: id,
                recipient_id: m.recipient_id,
                sender_id: m.sender_id,
                topic: m.topic,
                body_preview: m.body,
                wake_eligible: m.wake_eligible,
                origin_daemon_id: None,
            },
        ) == Some(id),
        arrived(EventView::AgentQueued { agent_id: id }) is None,
{
}

} // verus!
