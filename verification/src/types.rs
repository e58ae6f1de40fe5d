//! Types that the daemon's parts share.

use crate::scroll_keeper::TaskState;
use crate::text::{copy_opt, opt_text, texts};
use vstd::prelude::*;

verus! {

/// Lifecycle state of an agent.
#[derive(Clone, Copy, Debug, PartialEq, Eq, Structural)]
pub enum AgentState {
    Queued,
    Summoning,
    Active,
    Dormant,
    Restarting,
    Complete,
    Failed,
    Banished,
}

/// Whether an agent in this state has ended.
pub open spec fn terminal(s: AgentState) -> bool {
    s == AgentState::Complete || s == AgentState::Failed || s == AgentState::Banished
}

/// The name of an agent's state.
pub open spec fn agent_state_name(s: AgentState) -> Seq<char> {
    match s {
        AgentState::Queued => "queued"@,
        AgentState::Summoning => "summoning"@,
        AgentState::Active => "active"@,
        AgentState::Dormant => "dormant"@,
        AgentState::Restarting => "restarting"@,
        AgentState::Complete => "complete"@,
        AgentState::Failed => "failed"@,
        AgentState::Banished => "banished"@,
    }
}

impl AgentState {
    /// The name of the state.
    pub fn as_str(self) -> (r: &'static str)
        ensures
            r@ == agent_state_name(self),
    {
        match self {
            AgentState::Queued => "queued",
            AgentState::Summoning => "summoning",
            AgentState::Active => "active",
            AgentState::Dormant => "dormant",
            AgentState::Restarting => "restarting",
            AgentState::Complete => "complete",
            AgentState::Failed => "failed",
            AgentState::Banished => "banished",
        }
    }

    /// Whether an agent in this state has ended.
    pub fn is_terminal(self) -> (r: bool)
        ensures
            r == terminal(self),
    {
        match self {
            AgentState::Complete => true,
            AgentState::Failed => true,
            AgentState::Banished => true,
            _ => false,
        }
    }

    /// Whether the supervisor acts on an agent that enters this state.
    pub fn is_supervisable(self) -> (r: bool)
        ensures
            r == (self == AgentState::Failed),
    {
        match self {
            AgentState::Failed => true,
            _ => false,
        }
    }
}

/// Delivery state of a piece of mail.
#[derive(Clone, Copy, Debug, PartialEq, Eq, Structural)]
pub enum MailState {
    Pending,
    Delivered,
    Failed,
}

/// A mail row.
#[derive(Debug)]
pub struct Mail {
    pub id: String,
    pub recipient_id: String,
    pub sender_id: Option<String>,
    pub topic: Option<String>,
    pub body: String,
    pub in_reply_to: Option<String>,
    pub state: MailState,
    pub fail_reason: Option<String>,
    pub created_at: i64,
    pub delivered_at: Option<i64>,
    pub seq: u64,
    pub wake_eligible: bool,
}

/// What a [`Mail`] holds.
#[verifier::ext_equal]
pub ghost struct MailView {
    pub id: Seq<char>,
    pub recipient_id: Seq<char>,
    pub sender_id: Option<Seq<char>>,
    pub topic: Option<Seq<char>>,
    pub body: Seq<char>,
    pub in_reply_to: Option<Seq<char>>,
    pub state: MailState,
    pub fail_reason: Option<Seq<char>>,
    pub created_at: i64,
    pub delivered_at: Option<i64>,
    pub seq: u64,
    pub wake_eligible: bool,
}

impl View for Mail {
    type V = MailView;

    open spec fn view(&self) -> MailView {
        MailView {
            id: self.id@,
            recipient_id: self.recipient_id@,
            sender_id: opt_text(self.sender_id),
            topic: opt_text(self.topic),
            body: self.body@,
            in_reply_to: opt_text(self.in_reply_to),
            state: self.state,
            fail_reason: opt_text(self.fail_reason),
            created_at: self.created_at,
            delivered_at: self.delivered_at,
            seq: self.seq,
            wake_eligible: self.wake_eligible,
        }
    }
}

/// What each mail of a list holds.
pub open spec fn mails_view(mails: Seq<Mail>) -> Seq<MailView> {
    mails.map_values(|m: Mail| m@)
}

/// Where mail goes.
#[derive(Debug)]
pub enum Address {
    Agent(String),
    Topic(String),
    FederatedAgent { daemon_id: String, agent_id: String },
}

/// What an [`Address`] says.
pub ghost enum AddressView {
    Agent(Seq<char>),
    Topic(Seq<char>),
    FederatedAgent { daemon_id: Seq<char>, agent_id: Seq<char> },
}

impl View for Address {
    type V = AddressView;

    open spec fn view(&self) -> AddressView {
        match self {
            Address::Agent(id) => AddressView::Agent(id@),
            Address::Topic(t) => AddressView::Topic(t@),
            Address::FederatedAgent { daemon_id, agent_id } => AddressView::FederatedAgent {
                daemon_id: daemon_id@,
                agent_id: agent_id@,
            },
        }
    }
}

/// The lane of the queue that an agent waits in.
#[derive(Clone, Copy, Debug, PartialEq, Eq, Structural)]
pub enum Lane {
    /// Agents that were asked for one by one.
    Adhoc,
    /// Agents that work on the tasks of a scroll.
    Scroll,
}

/// When a failed agent is restarted.
#[derive(Clone, Copy, Debug, PartialEq, Eq, Structural)]
pub enum RestartPolicy {
    Never,
    OnFailure,
}

/// How an agent is supervised.
#[derive(Debug)]
pub struct SupervisionConfig {
    pub policy: RestartPolicy,
    pub max_restarts: Option<u32>,
    pub window_secs: Option<u32>,
    pub escalate_to: Option<String>,
}

/// What an entry of the restart history records.
#[derive(Clone, Copy, Debug, PartialEq, Eq, Structural)]
pub enum RestartHistoryOutcome {
    Scheduled,
    BudgetExhausted,
}

/// What the daemon tells its listeners.
#[allow(inconsistent_fields)]
#[derive(Debug)]
pub enum StreamEvent {
    StateChange { agent_id: String, old_state: AgentState, new_state: AgentState },
    AgentQueued { agent_id: String },
    WorkerRegistered { worker_id: String },
    RemoteAgentStateChanged { sender_daemon_id: String, agent_id: String, new_state: AgentState },
    RestartScheduled { agent_id: String, attempt: u32, max: u32, fire_at_unix: i64, rate_limited: bool },
    RestartBudgetExhausted { agent_id: String, reason: String },
    Escalated { agent_id: String, target: String, fanout_count: u32 },
    MailSent { mail_id: String, sender_id: Option<String>, recipient_id: Option<String>, topic: Option<String> },
    MailReceived {
        mail_id: String,
        recipient_id: String,
        sender_id: Option<String>,
        topic: Option<String>,
        body_preview: String,
        wake_eligible: bool,
        /// The daemon that the mail came from, where it is another one.
        origin_daemon_id: Option<String>,
    },
    MailDelivered { mail_id: String, recipient_id: String, origin_daemon_id: Option<String> },
    MailFailed { mail_id: String, recipient_id: String, sender_id: Option<String>, reason: String },
    PeerMailForwardFailed { peer_id: String, mail_id: String, reason: String },
    MemoryWritten { workspace_id: String, key: String, version: u64, agent_id: Option<String> },
    MemoryDeleted { workspace_id: String, key: String, agent_id: Option<String> },
    Notification { agent_id: Option<String>, message: String, level: String, source: String },
    TaskStateChange {
        scroll_id: String,
        task_id: String,
        task_name: String,
        old_state: TaskState,
        new_state: TaskState,
    },
    WakeSourceRegistered { wake_id: String, agent_id: String, kind: String },
    WakeSourceFired { wake_id: String, agent_id: String, mail_id: String, via: Option<String> },
    WakeSourceFailed { wake_id: String, agent_id: String, reason: String },
    WakeSourceRetired { wake_id: String, agent_id: String, reason: String },
    TopicFederationAdded { peer_id: String, topic: String, direction: String },
    TopicFederationRemoved { peer_id: String, topic: String },
    WorkspaceCreated { workspace_id: String, path: String, branch: String },
    WorkspaceDestroyed { workspace_id: String },
    WorkspaceOrphanDirDetected { path: String },
    WorkspaceFileChanged {
        workspace_id: String,
        paths: Vec<String>,
        kinds: Vec<String>,
        truncated_count: u32,
    },
}

/// What a [`StreamEvent`] says.
#[allow(inconsistent_fields)]
pub ghost enum EventView {
    StateChange { agent_id: Seq<char>, old_state: AgentState, new_state: AgentState },
    AgentQueued { agent_id: Seq<char> },
    WorkerRegistered { worker_id: Seq<char> },
    RemoteAgentStateChanged {
        sender_daemon_id: Seq<char>,
        agent_id: Seq<char>,
        new_state: AgentState,
    },
    RestartScheduled {
        agent_id: Seq<char>,
        attempt: u32,
        max: u32,
        fire_at_unix: i64,
        rate_limited: bool,
    },
    RestartBudgetExhausted { agent_id: Seq<char>, reason: Seq<char> },
    Escalated { agent_id: Seq<char>, target: Seq<char>, fanout_count: u32 },
    MailSent {
        mail_id: Seq<char>,
        sender_id: Option<Seq<char>>,
        recipient_id: Option<Seq<char>>,
        topic: Option<Seq<char>>,
    },
    MailReceived {
        mail_id: Seq<char>,
        recipient_id: Seq<char>,
        sender_id: Option<Seq<char>>,
        topic: Option<Seq<char>>,
        body_preview: Seq<char>,
        wake_eligible: bool,
        origin_daemon_id: Option<Seq<char>>,
    },
    MailDelivered {
        mail_id: Seq<char>,
        recipient_id: Seq<char>,
        origin_daemon_id: Option<Seq<char>>,
    },
    MailFailed {
        mail_id: Seq<char>,
        recipient_id: Seq<char>,
        sender_id: Option<Seq<char>>,
        reason: Seq<char>,
    },
    PeerMailForwardFailed { peer_id: Seq<char>, mail_id: Seq<char>, reason: Seq<char> },
    MemoryWritten {
        workspace_id: Seq<char>,
        key: Seq<char>,
        version: u64,
        agent_id: Option<Seq<char>>,
    },
    MemoryDeleted { workspace_id: Seq<char>, key: Seq<char>, agent_id: Option<Seq<char>> },
    Notification {
        agent_id: Option<Seq<char>>,
        message: Seq<char>,
        level: Seq<char>,
        source: Seq<char>,
    },
    TaskStateChange {
        scroll_id: Seq<char>,
        task_id: Seq<char>,
        task_name: Seq<char>,
        old_state: TaskState,
        new_state: TaskState,
    },
    WakeSourceRegistered { wake_id: Seq<char>, agent_id: Seq<char>, kind: Seq<char> },
    WakeSourceFired {
        wake_id: Seq<char>,
        agent_id: Seq<char>,
        mail_id: Seq<char>,
        via: Option<Seq<char>>,
    },
    WakeSourceFailed { wake_id: Seq<char>, agent_id: Seq<char>, reason: Seq<char> },
    WakeSourceRetired { wake_id: Seq<char>, agent_id: Seq<char>, reason: Seq<char> },
    TopicFederationAdded { peer_id: Seq<char>, topic: Seq<char>, direction: Seq<char> },
    TopicFederationRemoved { peer_id: Seq<char>, topic: Seq<char> },
    WorkspaceCreated { workspace_id: Seq<char>, path: Seq<char>, branch: Seq<char> },
    WorkspaceDestroyed { workspace_id: Seq<char> },
    WorkspaceOrphanDirDetected { path: Seq<char> },
    WorkspaceFileChanged {
        workspace_id: Seq<char>,
        paths: Seq<Seq<char>>,
        kinds: Seq<Seq<char>>,
        truncated_count: u32,
    },
}

impl View for StreamEvent {
    type V = EventView;

    open spec fn view(&self) -> EventView {
        match *self {
            StreamEvent::StateChange { agent_id, old_state, new_state } => EventView::StateChange {
                agent_id: agent_id@,
                old_state,
                new_state,
            },
            StreamEvent::AgentQueued { agent_id } => EventView::AgentQueued {
                agent_id: agent_id@,
            },
            StreamEvent::WorkerRegistered { worker_id } => EventView::WorkerRegistered {
                worker_id: worker_id@,
            },
            StreamEvent::RemoteAgentStateChanged { sender_daemon_id, agent_id, new_state } => {
                EventView::RemoteAgentStateChanged {
                    sender_daemon_id: sender_daemon_id@,
                    agent_id: agent_id@,
                    new_state,
                }
            },
            StreamEvent::RestartScheduled { agent_id, attempt, max, fire_at_unix, rate_limited } => {
                EventView::RestartScheduled {
                    agent_id: agent_id@,
                    attempt,
                    max,
                    fire_at_unix,
                    rate_limited,
                }
            },
            StreamEvent::RestartBudgetExhausted { agent_id, reason } => {
                EventView::RestartBudgetExhausted { agent_id: agent_id@, reason: reason@ }
            },
            StreamEvent::Escalated { agent_id, target, fanout_count } => EventView::Escalated {
                agent_id: agent_id@,
                target: target@,
                fanout_count,
            },
            StreamEvent::MailSent { mail_id, sender_id, recipient_id, topic } => {
                EventView::MailSent {
                    mail_id: mail_id@,
                    sender_id: opt_text(sender_id),
                    recipient_id: opt_text(recipient_id),
                    topic: opt_text(topic),
                }
            },
            StreamEvent::MailReceived {
                mail_id,
                recipient_id,
                sender_id,
                topic,
                body_preview,
                wake_eligible,
                origin_daemon_id,
            } => EventView::MailReceived {
                mail_id: mail_id@,
                recipient_id: recipient_id@,
                sender_id: opt_text(sender_id),
                topic: opt_text(topic),
                body_preview: body_preview@,
                wake_eligible,
                origin_daemon_id: opt_text(origin_daemon_id),
            },
            StreamEvent::MailDelivered { mail_id, recipient_id, origin_daemon_id } => {
                EventView::MailDelivered {
                    mail_id: mail_id@,
                    recipient_id: recipient_id@,
                    origin_daemon_id: opt_text(origin_daemon_id),
                }
            },
            StreamEvent::MailFailed { mail_id, recipient_id, sender_id, reason } => {
                EventView::MailFailed {
                    mail_id: mail_id@,
                    recipient_id: recipient_id@,
                    sender_id: opt_text(sender_id),
                    reason: reason@,
                }
            },
            StreamEvent::PeerMailForwardFailed { peer_id, mail_id, reason } => {
                EventView::PeerMailForwardFailed {
                    peer_id: peer_id@,
                    mail_id: mail_id@,
                    reason: reason@,
                }
            },
            StreamEvent::MemoryWritten { workspace_id, key, version, agent_id } => {
                EventView::MemoryWritten {
                    workspace_id: workspace_id@,
                    key: key@,
                    version,
                    agent_id: opt_text(agent_id),
                }
            },
            StreamEvent::MemoryDeleted { workspace_id, key, agent_id } => {
                EventView::MemoryDeleted {
                    workspace_id: workspace_id@,
                    key: key@,
                    agent_id: opt_text(agent_id),
                }
            },
            StreamEvent::Notification { agent_id, message, level, source } => {
                EventView::Notification {
                    agent_id: opt_text(agent_id),
                    message: message@,
                    level: level@,
                    source: source@,
                }
            },
            StreamEvent::TaskStateChange { scroll_id, task_id, task_name, old_state, new_state } => {
                EventView::TaskStateChange {
                    scroll_id: scroll_id@,
                    task_id: task_id@,
                    task_name: task_name@,
                    old_state,
                    new_state,
                }
            },
            StreamEvent::WakeSourceRegistered { wake_id, agent_id, kind } => {
                EventView::WakeSourceRegistered {
                    wake_id: wake_id@,
                    agent_id: agent_id@,
                    kind: kind@,
                }
            },
            StreamEvent::WakeSourceFired { wake_id, agent_id, mail_id, via } => {
                EventView::WakeSourceFired {
                    wake_id: wake_id@,
                    agent_id: agent_id@,
                    mail_id: mail_id@,
                    via: opt_text(via),
                }
            },
            StreamEvent::WakeSourceFailed { wake_id, agent_id, reason } => {
                EventView::WakeSourceFailed {
                    wake_id: wake_id@,
                    agent_id: agent_id@,
                    reason: reason@,
                }
            },
            StreamEvent::WakeSourceRetired { wake_id, agent_id, reason } => {
                EventView::WakeSourceRetired {
                    wake_id: wake_id@,
                    agent_id: agent_id@,
                    reason: reason@,
                }
            },
            StreamEvent::TopicFederationAdded { peer_id, topic, direction } => {
                EventView::TopicFederationAdded {
                    peer_id: peer_id@,
                    topic: topic@,
                    direction: direction@,
                }
            },
            StreamEvent::TopicFederationRemoved { peer_id, topic } => {
                EventView::TopicFederationRemoved { peer_id: peer_id@, topic: topic@ }
            },
            StreamEvent::WorkspaceCreated { workspace_id, path, branch } => {
                EventView::WorkspaceCreated {
                    workspace_id: workspace_id@,
                    path: path@,
                    branch: branch@,
                }
            },
            StreamEvent::WorkspaceDestroyed { workspace_id } => EventView::WorkspaceDestroyed {
                workspace_id: workspace_id@,
            },
            StreamEvent::WorkspaceOrphanDirDetected { path } => {
                EventView::WorkspaceOrphanDirDetected { path: path@ }
            },
            StreamEvent::WorkspaceFileChanged { workspace_id, paths, kinds, truncated_count } => {
                EventView::WorkspaceFileChanged {
                    workspace_id: workspace_id@,
                    paths: texts(paths@),
                    kinds: texts(kinds@),
                    truncated_count,
                }
            },
        }
    }
}

/// What each event of a list says.
pub open spec fn events_view(events: Seq<StreamEvent>) -> Seq<EventView> {
    events.map_values(|e: StreamEvent| e@)
}

impl Mail {
    /// A copy of the row.
    pub fn copy(&self) -> (r: Mail)
        ensures
            r@ == self@,
    {
        Mail {
            id: self.id.clone(),
            recipient_id: self.recipient_id.clone(),
            sender_id: copy_opt(&self.sender_id),
            topic: copy_opt(&self.topic),
            body: self.body.clone(),
            in_reply_to: copy_opt(&self.in_reply_to),
            state: self.state,
            fail_reason: copy_opt(&self.fail_reason),
            created_at: self.created_at,
            delivered_at: self.delivered_at,
            seq: self.seq,
            wake_eligible: self.wake_eligible,
        }
    }
}

// ---------------------------------------------------------------------------
// Laws
// ---------------------------------------------------------------------------

/// An agent that is complete, failed or banished does nothing more; in every
/// other state it may.
pub proof fn three_states_are_final(s: AgentState)
    ensures
        terminal(AgentState::Complete),
        terminal(AgentState::Failed),
        terminal(AgentState::Banished),
        s == AgentState::Queued || s == AgentState::Summoning || s == AgentState::Active || s
            == AgentState::Dormant || s == AgentState::Restarting ==> !terminal(s),
{
}

/// Each state has a name of its own.
pub proof fn states_are_told_apart(a: AgentState, b: AgentState)
    requires
        agent_state_name(a) == agent_state_name(b),
    ensures
        a == b,
        agent_state_name(AgentState::Failed) == "failed"@,
        agent_state_name(AgentState::Complete) == "complete"@,
        agent_state_name(AgentState::Active) == "active"@,
        agent_state_name(AgentState::Queued) == "queued"@,
{
    reveal_strlit("queued");
    reveal_strlit("summoning");
    reveal_strlit("active");
    reveal_strlit("dormant");
    reveal_strlit("restarting");
    reveal_strlit("complete");
    reveal_strlit("failed");
    reveal_strlit("banished");
    assert("queued"@[0] == 'q');
    assert("summoning"@[0] == 's');
    assert("active"@[0] == 'a');
    assert("dormant"@[0] == 'd');
    assert("restarting"@[0] == 'r');
    assert("complete"@[0] == 'c');
    assert("failed"@[0] == 'f');
    assert("banished"@[0] == 'b');
}

/// What a message holds is what its fields say.
pub proof fn mail_holds_its_fields(m: Mail)
    ensures
        m@.id == m.id@,
        m@.recipient_id == m.recipient_id@,
        m@.sender_id == opt_text(m.sender_id),
        m@.topic == opt_text(m.topic),
        m@.body == m.body@,
        m@.in_reply_to == opt_text(m.in_reply_to),
        m@.state == m.state,
        m@.fail_reason == opt_text(m.fail_reason),
        m@.created_at == m.created_at,
        m@.delivered_at == m.delivered_at,
        m@.seq == m.seq,
        m@.wake_eligible == m.wake_eligible,
{
}

} // verus!
