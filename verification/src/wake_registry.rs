//! The wake registry's decisions: which sources are armed, what each fire
//! writes and tells, and what is caught up with at boot.
//!
//! The caller reads and writes the rows, watches files, and asks the rate
//! limiter. Instants are seconds since the Unix epoch.

use crate::bytes::cut_to_chars;
use crate::calendar::{MAX_INSTANT, MIN_INSTANT};
use crate::decimal::{signed_decimal, to_signed_decimal};
use crate::supervisor::{build_system_mail, build_system_mail_event, system_mail, system_mail_event};
use crate::text::{cat, opt_str, opt_text, own, texts};
use crate::types::{agent_state_name, AgentState, EventView, Mail, StreamEvent};
use crate::wake_sources::cron::{
    due, fault_message, schedule_fault, schedule_of, CronConfig, CronSource,
};
use crate::wake_sources::file_watch::{
    debounced_body, watch_body, watch_fault, FileWatchConfig, FileWatchSource,
};
use crate::wake_sources::parent_completion::{targets, ParentCompletionConfig, ParentCompletionSource};
use chrono::DateTime;
use vstd::prelude::*;
use vstd::string::*;

verus! {

/// Kinds of wake sources.
#[derive(Clone, Copy, Debug, PartialEq, Eq, Structural)]
pub enum WakeSourceKind {
    Cron,
    FileWatch,
    ParentCompletion,
}

/// State of a wake source.
#[derive(Clone, Copy, Debug, PartialEq, Eq, Structural)]
pub enum WakeSourceState {
    Armed,
    Failed,
}

/// A wake source's row.
#[derive(Debug)]
pub struct WakeSource {
    pub id: String,
    pub agent_id: String,
    pub kind: WakeSourceKind,
    pub config_json: String,
    pub state: WakeSourceState,
    pub fail_reason: Option<String>,
    pub last_fired_at: Option<i64>,
    pub fire_count: u64,
    pub created_at: i64,
}

/// A request to fire a source.
#[derive(Debug)]
pub struct FireMsg {
    pub wake_id: String,
    pub body: String,
    pub via: Option<String>,
}

/// A source's configuration, read from its row.
#[derive(Debug)]
pub enum WakeConfig {
    Cron(CronConfig),
    /// With the canonical form of the root, where it is a directory.
    FileWatch(FileWatchConfig, Option<String>),
    ParentCompletion(ParentCompletionConfig),
}

/// A source that can fire.
pub enum ArmedSource {
    Cron(CronSource),
    FileWatch(FileWatchSource),
    ParentCompletion(ParentCompletionSource),
}

/// The name of a kind.
pub open spec fn kind_name(k: WakeSourceKind) -> Seq<char> {
    match k {
        WakeSourceKind::Cron => "cron"@,
        WakeSourceKind::FileWatch => "file_watch"@,
        WakeSourceKind::ParentCompletion => "parent_completion"@,
    }
}

impl WakeSourceKind {
    /// The name of the kind.
    pub fn as_str(self) -> (r: &'static str)
        ensures
            r@ == kind_name(self),
    {
        match self {
            WakeSourceKind::Cron => "cron",
            WakeSourceKind::FileWatch => "file_watch",
            WakeSourceKind::ParentCompletion => "parent_completion",
        }
    }
}

// ---------------------------------------------------------------------------
// Arming
// ---------------------------------------------------------------------------

/// The reason for which a configuration that could not be read is refused.
pub open spec fn unreadable(kind: WakeSourceKind, error: Seq<char>) -> Seq<char> {
    match kind {
        WakeSourceKind::Cron => "invalid_cron_config_json: "@ + error,
        WakeSourceKind::FileWatch => "invalid_file_watch_config_json: "@ + error,
        WakeSourceKind::ParentCompletion => "invalid_parent_completion_config_json: "@ + error,
    }
}

/// Why a configuration arms nothing, if it arms nothing.
pub open spec fn config_fault(cfg: WakeConfig) -> Option<Seq<char>> {
    match cfg {
        WakeConfig::Cron(c) => match schedule_fault(c.expr@) {
            Some(f) => Some(fault_message(f)),
            None => None,
        },
        WakeConfig::FileWatch(c, root) => watch_fault(root, texts(c.globs@), texts(c.ignore@)),
        WakeConfig::ParentCompletion(_) => None,
    }
}

/// Whether a source is the one that a configuration arms.
pub open spec fn armed_from(a: ArmedSource, cfg: WakeConfig) -> bool {
    match cfg {
        WakeConfig::Cron(c) => a matches ArmedSource::Cron(s) && s.expr@ == c.expr@ && s.schedule@
            == schedule_of(c.expr@),
        WakeConfig::FileWatch(c, root) => a matches ArmedSource::FileWatch(s) && s.wf() && s.config
            == c && Some(s.root_canonical) == root,
        WakeConfig::ParentCompletion(c) => a matches ArmedSource::ParentCompletion(s) && s.config
            == c,
    }
}

/// Arms a source from its configuration, or says why not. `config` is the
/// error's text where the row could not be read.
pub fn arm_one(kind: WakeSourceKind, config: Result<WakeConfig, String>) -> (r: Result<
    ArmedSource,
    String,
>)
    ensures
        match config {
            Err(e) => r matches Err(reason) && reason@ == unreadable(kind, e@),
            Ok(cfg) => match r {
                Ok(a) => config_fault(cfg) is None && armed_from(a, cfg),
                Err(reason) => config_fault(cfg) == Some(reason@),
            },
        },
{
    match config {
        Err(e) => match kind {
            WakeSourceKind::Cron => Err(cat("invalid_cron_config_json: ", e.as_str())),
            WakeSourceKind::FileWatch => Err(cat("invalid_file_watch_config_json: ", e.as_str())),
            WakeSourceKind::ParentCompletion => Err(
                cat("invalid_parent_completion_config_json: ", e.as_str()),
            ),
        },
        Ok(WakeConfig::Cron(c)) => match CronSource::new(c.expr.as_str()) {
            Ok(s) => Ok(ArmedSource::Cron(s)),
            Err(e) => Err(e.to_text()),
        },
        Ok(WakeConfig::FileWatch(c, root)) => match FileWatchSource::new(c, root) {
            Ok(s) => Ok(ArmedSource::FileWatch(s)),
            Err(e) => Err(e),
        },
        Ok(WakeConfig::ParentCompletion(c)) => match ParentCompletionSource::new(c) {
            Ok(s) => Ok(ArmedSource::ParentCompletion(s)),
            Err(e) => Err(e),
        },
    }
}

/// Checks a configuration before a row is written for it. It is refused for
/// the reasons for which it would not be armed.
pub fn validate_config(kind: WakeSourceKind, config: Result<WakeConfig, String>) -> (r: Result<
    (),
    String,
>)
    ensures
        match config {
            Err(e) => r matches Err(reason) && reason@ == unreadable(kind, e@),
            Ok(cfg) => match r {
                Ok(()) => config_fault(cfg) is None,
                Err(reason) => config_fault(cfg) == Some(reason@),
            },
        },
{
    match arm_one(kind, config) {
        Ok(_) => Ok(()),
        Err(e) => Err(e),
    }
}

/// The row of a new source. `short_id` is freshly drawn.
pub fn register(
    agent_id: &str,
    kind: WakeSourceKind,
    config_json: &str,
    short_id: &str,
    now: i64,
) -> (row: WakeSource)
    requires
        short_id@.len() >= 8,
    ensures
        row.id@ == "wake_"@ + short_id@.take(8),
        row.agent_id@ == agent_id@,
        row.kind == kind,
        row.config_json@ == config_json@,
        row.state == WakeSourceState::Armed,
        row.fail_reason is None,
        row.last_fired_at is None,
        row.fire_count == 0,
        row.created_at == now,
{
    let id = cat("wake_", cut_to_chars(short_id, 8).as_str());
    assert(id@ =~= "wake_"@ + short_id@.take(8));
    WakeSource {
        id,
        agent_id: own(agent_id),
        kind,
        config_json: own(config_json),
        state: WakeSourceState::Armed,
        fail_reason: None,
        last_fired_at: None,
        fire_count: 0,
        created_at: now,
    }
}

/// The event of a row that was armed, or was not: `failure` is why. In the
/// second case the row is marked as failed with that reason.
pub fn armed_event(row: &WakeSource, failure: Option<&str>) -> (e: StreamEvent)
    ensures
        e@ == (match opt_str(failure) {
            None => EventView::WakeSourceRegistered {
                wake_id: row.id@,
                agent_id: row.agent_id@,
                kind: kind_name(row.kind),
            },
            Some(reason) => EventView::WakeSourceFailed {
                wake_id: row.id@,
                agent_id: row.agent_id@,
                reason,
            },
        }),
{
    match failure {
        None => StreamEvent::WakeSourceRegistered {
            wake_id: row.id.clone(),
            agent_id: row.agent_id.clone(),
            kind: own(row.kind.as_str()),
        },
        Some(reason) => StreamEvent::WakeSourceFailed {
            wake_id: row.id.clone(),
            agent_id: row.agent_id.clone(),
            reason: own(reason),
        },
    }
}

/// The event of a source that is retired: by its user, or with its agent.
pub fn retired_event(wake_id: &str, agent_id: &str, agent_banished: bool) -> (e: StreamEvent)
    ensures
        e@ == (EventView::WakeSourceRetired {
            wake_id: wake_id@,
            agent_id: agent_id@,
            reason: if agent_banished {
                "agent_banished"@
            } else {
                "user_removed"@
            },
        }),
{
    StreamEvent::WakeSourceRetired {
        wake_id: own(wake_id),
        agent_id: own(agent_id),
        reason: if agent_banished {
            own("agent_banished")
        } else {
            own("user_removed")
        },
    }
}

// ---------------------------------------------------------------------------
// Firing
// ---------------------------------------------------------------------------

/// What a fire does.
#[derive(Debug)]
pub enum FireAction {
    /// There is no such source.
    NotFound,
    /// The rate limiter denies it: it is counted, and told of.
    Denied { event: StreamEvent },
    /// The mail is sent, with the event that follows it.
    Send { mail: Mail, received: StreamEvent, fired: StreamEvent },
}

/// The mail that wakes an agent.
pub open spec fn wake_mail(
    wake_id: Seq<char>,
    agent_id: Seq<char>,
    body: Seq<char>,
    short_id: Seq<char>,
    now: i64,
) -> crate::types::MailView {
    system_mail("wm"@ + short_id.take(6), agent_id, "wake://"@ + wake_id, None, body, now)
}

/// Builds the mail that wakes an agent, and the event that tells of it.
/// `short_id` is freshly drawn.
pub fn send_wake_mail(wake_id: &str, agent_id: &str, body: &str, short_id: &str, now: i64) -> (r: (
    Mail,
    StreamEvent,
))
    requires
        short_id@.len() >= 6,
    ensures
        r.0@ == wake_mail(wake_id@, agent_id@, body@, short_id@, now),
        r.1@ == system_mail_event(r.0@),
{
    let id = cat("wm", cut_to_chars(short_id, 6).as_str());
    assert(id@ =~= "wm"@ + short_id@.take(6));
    let sender = cat("wake://", wake_id);
    let mail = build_system_mail(id, agent_id, sender.as_str(), &None, body, now);
    let event = build_system_mail_event(&mail);
    (mail, event)
}

/// Decides on a fire. `source` is the row, where there is one; `allowed` is
/// what the rate limiter said of its agent.
pub fn fire(
    source: Option<&WakeSource>,
    body: &str,
    via: Option<&str>,
    allowed: bool,
    short_id: &str,
    now: i64,
) -> (r: FireAction)
    requires
        short_id@.len() >= 6,
    ensures
        match source {
            None => r is NotFound,
            Some(src) => if !allowed {
                r matches FireAction::Denied { event } && event@ == (EventView::WakeSourceFailed {
                    wake_id: src.id@,
                    agent_id: src.agent_id@,
                    reason: "rate_limited"@,
                })
            } else {
                r matches FireAction::Send { mail, received, fired } && mail@ == wake_mail(
                    src.id@,
                    src.agent_id@,
                    body@,
                    short_id@,
                    now,
                ) && received@ == system_mail_event(mail@) && fired@ == (
                EventView::WakeSourceFired {
                    wake_id: src.id@,
                    agent_id: src.agent_id@,
                    mail_id: mail@.id,
                    via: opt_str(via),
                })
            },
        },
{
    match source {
        None => FireAction::NotFound,
        Some(src) => {
            if !allowed {
                return FireAction::Denied {
                    event: StreamEvent::WakeSourceFailed {
                        wake_id: src.id.clone(),
                        agent_id: src.agent_id.clone(),
                        reason: own("rate_limited"),
                    },
                };
            }
            let (mail, received) = send_wake_mail(
                src.id.as_str(),
                src.agent_id.as_str(),
                body,
                short_id,
                now,
            );
            let fired = StreamEvent::WakeSourceFired {
                wake_id: src.id.clone(),
                agent_id: src.agent_id.clone(),
                mail_id: mail.id.clone(),
                via: match via {
                    Some(v) => Some(own(v)),
                    None => None,
                },
            };
            FireAction::Send { mail, received, fired }
        },
    }
}

/// The body of a fire that an operator asked for.
pub open spec fn test_body(wake_id: Seq<char>) -> Seq<char> {
    "[wake_test] manual fire of "@ + wake_id
}

/// Fires a source for an operator, past the rate limiter.
pub fn test_fire(source: Option<&WakeSource>, short_id: &str, now: i64) -> (r: FireAction)
    requires
        short_id@.len() >= 6,
    ensures
        match source {
            None => r is NotFound,
            Some(src) => r matches FireAction::Send { mail, received, fired } && mail@ == wake_mail(
                src.id@,
                src.agent_id@,
                test_body(src.id@),
                short_id@,
                now,
            ) && received@ == system_mail_event(mail@) && fired@ == (EventView::WakeSourceFired {
                wake_id: src.id@,
                agent_id: src.agent_id@,
                mail_id: mail@.id,
                via: Some("test"@),
            }),
        },
{
    match source {
        None => FireAction::NotFound,
        Some(src) => {
            let body = cat("[wake_test] manual fire of ", src.id.as_str());
            fire(source, body.as_str(), Some("test"), true, short_id, now)
        },
    }
}

/// The changes that a file-watch source has gathered since it last fired.
#[derive(Debug)]
pub struct Gathered {
    pub first: Option<String>,
    pub count: usize,
}

impl Gathered {
    /// Whether there is a first change exactly where there are changes.
    pub open spec fn wf(self) -> bool {
        self.first is Some <==> self.count > 0
    }

    /// Nothing gathered.
    pub fn new() -> (g: Gathered)
        ensures
            g.wf(),
            g.first is None,
    {
        Gathered { first: None, count: 0 }
    }

    /// Takes in a change. Says whether it is the first, from which the window
    /// in which changes are gathered runs.
    pub fn change(&mut self, path: &str) -> (opens: bool)
        requires
            old(self).wf(),
            old(self).count < usize::MAX,
        ensures
            final(self).wf(),
            opens == (old(self).first is None),
            final(self).count == old(self).count + 1,
            opt_text(final(self).first) == (match opt_text(old(self).first) {
                Some(p) => Some(p),
                None => Some(path@),
            }),
    {
        self.count = self.count + 1;
        if self.first.is_none() {
            self.first = Some(own(path));
            return true;
        }
        false
    }

    /// The window closed: what was gathered fires as one.
    pub fn close(&mut self, wake_id: &str) -> (r: Option<FireMsg>)
        requires
            old(self).wf(),
        ensures
            final(self).wf(),
            final(self).first is None,
            match old(self).first {
                Some(p) => r matches Some(m) && m.wake_id@ == wake_id@ && m.body@ == watch_body(
                    old(self).count as nat,
                    p@,
                ) && m.via is None,
                None => r is None,
            },
    {
        let count: usize = self.count;
        let r = match &self.first {
            Some(p) => Some(
                FireMsg {
                    wake_id: own(wake_id),
                    body: debounced_body(count, p.as_str()),
                    via: None,
                },
            ),
            None => None,
        };
        self.first = None;
        self.count = 0;
        r
    }
}

/// The body of the mail about an agent that reached a state.
pub open spec fn parent_body(agent_id: Seq<char>, state: AgentState) -> Seq<char> {
    "[parent "@ + agent_id + " -> "@ + agent_state_name(state) + "]"@
}

/// The fire of a parent-completion source on a change of state, if it fires.
pub fn parent_fire(
    source: &ParentCompletionSource,
    wake_id: &str,
    agent_id: &str,
    new_state: AgentState,
) -> (r: Option<FireMsg>)
    ensures
        match r {
            Some(m) => agent_id@ == source.config.parent_id@ && targets(
                source.config.states@,
            ).contains(new_state) && m.wake_id@ == wake_id@ && m.body@ == parent_body(
                agent_id@,
                new_state,
            ) && m.via is None,
            None => !(agent_id@ == source.config.parent_id@ && targets(
                source.config.states@,
            ).contains(new_state)),
        },
{
    if !source.should_fire(agent_id, &new_state) {
        return None;
    }
    let mut body = own("[parent ");
    body.append(agent_id);
    body.append(" -> ");
    body.append(new_state.as_str());
    body.append("]");
    Some(FireMsg { wake_id: own(wake_id), body, via: None })
}

// ---------------------------------------------------------------------------
// Cron
// ---------------------------------------------------------------------------

/// An instant, in seconds and nanoseconds of a second, as RFC 3339 text.
pub uninterp spec fn rfc3339(secs: int, nanos: int) -> Seq<char>;

/// Calls `chrono::DateTime::to_rfc3339` on an instant. The text is a function
/// of the instant alone, and is not said further.
#[verifier::external_body]
fn to_rfc3339(secs: i64, nanos: u32) -> (r: String)
    requires
        MIN_INSTANT <= secs <= MAX_INSTANT,
        nanos < 1_000_000_000,
    ensures
        r@ == rfc3339(secs as int, nanos as int),
{
    DateTime::from_timestamp(secs, nanos).expect("instant in calendar range").to_rfc3339()
}

/// An instant that the calendar knows.
pub open spec fn in_calendar(t: Option<i64>) -> Option<i64> {
    match t {
        Some(t) => if MIN_INSTANT <= t <= MAX_INSTANT {
            Some(t)
        } else {
            None
        },
        None => None,
    }
}

fn known_instant(t: Option<i64>) -> (r: Option<i64>)
    ensures
        r == in_calendar(t),
{
    match t {
        Some(t) => if MIN_INSTANT <= t && t <= MAX_INSTANT {
            Some(t)
        } else {
            None
        },
        None => None,
    }
}

/// Whether a cron source's row is due.
pub open spec fn row_due(row: WakeSource, expr: Seq<char>, now: i64) -> bool {
    due(
        schedule_of(expr),
        now as int,
        in_calendar(row.last_fired_at),
        match in_calendar(Some(row.created_at)) {
            Some(t) => t,
            None => now,
        },
    )
}

/// Whether a cron source's row is due.
pub fn is_due(cron: &CronSource, row: &WakeSource, now: i64) -> (r: bool)
    requires
        MIN_INSTANT <= now <= MAX_INSTANT,
        cron.schedule@ == schedule_of(cron.expr@),
    ensures
        r == row_due(*row, cron.expr@, now),
{
    let registered: i64 = match known_instant(Some(row.created_at)) {
        Some(t) => t,
        None => now,
    };
    cron.evaluate(now, known_instant(row.last_fired_at), registered).is_some()
}

/// The body of the mail about a tick.
pub open spec fn cron_body(expr: Seq<char>, secs: int, nanos: int) -> Seq<char> {
    "[cron] "@ + expr + " fired at "@ + rfc3339(secs, nanos)
}

/// Evaluates one row: the body to fire with, where the row is a cron source
/// that can be read and is due. `config` is its configuration, where that
/// could be read.
pub fn tick_cron(row: &WakeSource, config: Option<&CronConfig>, now: i64, nanos: u32) -> (r: Option<
    String,
>)
    requires
        MIN_INSTANT <= now <= MAX_INSTANT,
        nanos < 1_000_000_000,
    ensures
        opt_text(r) == (match config {
            Some(c) => if row.kind == WakeSourceKind::Cron && schedule_fault(c.expr@) is None
                && row_due(*row, c.expr@, now) {
                Some(cron_body(c.expr@, now as int, nanos as int))
            } else {
                None
            },
            None => None,
        }),
{
    if row.kind != WakeSourceKind::Cron {
        return None;
    }
    match config {
        None => None,
        Some(c) => match CronSource::new(c.expr.as_str()) {
            Err(_) => None,
            Ok(cron) => {
                if !is_due(&cron, row, now) {
                    return None;
                }
                let mut body = own("[cron] ");
                body.append(c.expr.as_str());
                body.append(" fired at ");
                body.append(to_rfc3339(now, nanos).as_str());
                Some(body)
            },
        },
    }
}

/// An optional number as `{:?}` writes it.
pub open spec fn debug_number(n: Option<i64>) -> Seq<char> {
    match n {
        Some(n) => "Some("@ + signed_decimal(n as int) + ")"@,
        None => "None"@,
    }
}

/// The body of the mail about ticks that were missed.
pub open spec fn catch_up_body(expr: Seq<char>, last_fired_at: Option<i64>) -> Seq<char> {
    "[catch-up] cron "@ + expr + " (last fired: "@ + debug_number(last_fired_at) + ")"@
}

/// What a boot does about a row that was armed again: the body to fire with,
/// where the row is a cron source that missed a tick. However many it missed,
/// it fires once.
pub fn replay_on_boot(row: &WakeSource, config: Option<&CronConfig>, now: i64) -> (r: Option<String>)
    requires
        MIN_INSTANT <= now <= MAX_INSTANT,
    ensures
        opt_text(r) == (match config {
            Some(c) => if row.kind == WakeSourceKind::Cron && schedule_fault(c.expr@) is None
                && row_due(*row, c.expr@, now) {
                Some(catch_up_body(c.expr@, row.last_fired_at))
            } else {
                None
            },
            None => None,
        }),
{
    if row.kind != WakeSourceKind::Cron {
        return None;
    }
    match config {
        None => None,
        Some(c) => match CronSource::new(c.expr.as_str()) {
            Err(_) => None,
            Ok(cron) => {
                if !is_due(&cron, row, now) {
                    return None;
                }
                let mut body = own("[catch-up] cron ");
                body.append(c.expr.as_str());
                body.append(" (last fired: ");
                match row.last_fired_at {
                    Some(n) => {
                        body.append("Some(");
                        body.append(to_signed_decimal(n).as_str());
                        body.append(")");
                        body.append(")");
                        assert(body@ =~= catch_up_body(c.expr@, row.last_fired_at));
                    },
                    None => {
                        body.append("None");
                        body.append(")");
                    },
                }
                Some(body)
            },
        },
    }
}

// ---------------------------------------------------------------------------
// Laws
// ---------------------------------------------------------------------------

/// A configuration that is not refused has what its source is armed from: an
/// expression that is a schedule, or a root that is there.
pub proof fn sound_configurations_are_whole(cfg: WakeConfig)
    requires
        config_fault(cfg) is None,
    ensures
        match cfg {
            WakeConfig::Cron(c) => schedule_fault(c.expr@) is None,
            WakeConfig::FileWatch(_, root) => root is Some,
            WakeConfig::ParentCompletion(_) => true,
        },
{
}

/// Each kind of source has a name of its own.
pub proof fn kinds_are_told_apart(a: WakeSourceKind, b: WakeSourceKind)
    ensures
        kind_name(WakeSourceKind::Cron) == "cron"@,
        kind_name(WakeSourceKind::FileWatch) == "file_watch"@,
        kind_name(WakeSourceKind::ParentCompletion) == "parent_completion"@,
        kind_name(a) == kind_name(b) ==> a == b,
{
    reveal_strlit("cron");
    reveal_strlit("file_watch");
    reveal_strlit("parent_completion");
    assert("cron"@[0] == 'c');
    assert("file_watch"@[0] == 'f');
    assert("parent_completion"@[0] == 'p');
}

/// A configuration that cannot be read is refused under its kind; one that
/// can is armed or refused for what is wrong with it, and a parent to wait
/// for is never wrong.
pub proof fn sources_are_armed_as_configured(
    kind: WakeSourceKind,
    config: Result<WakeConfig, String>,
    r: Result<ArmedSource, String>,
)
    requires
        call_ensures(arm_one, (kind, config), r),
    ensures
        config matches Err(e) ==> {
            &&& r is Err
            &&& kind == WakeSourceKind::Cron ==> r->Err_0@ == "invalid_cron_config_json: "@ + e@
            &&& kind == WakeSourceKind::FileWatch ==> r->Err_0@
                == "invalid_file_watch_config_json: "@ + e@
            &&& kind == WakeSourceKind::ParentCompletion ==> r->Err_0@
                == "invalid_parent_completion_config_json: "@ + e@
        },
        config matches Ok(WakeConfig::Cron(c)) ==> {
            &&& r is Ok <==> schedule_fault(c.expr@) is None
            &&& r matches Ok(a) ==> (a matches ArmedSource::Cron(s) && s.expr@ == c.expr@)
        },
        config matches Ok(WakeConfig::FileWatch(c, root)) ==> {
            &&& r is Ok ==> root is Some
            &&& r matches Ok(a) ==> (a matches ArmedSource::FileWatch(s) && s.config == c
                && s.root_canonical == root->0)
        },
        config matches Ok(WakeConfig::ParentCompletion(c)) ==> (r matches Ok(
            ArmedSource::ParentCompletion(s),
        ) && s.config == c),
{
}

/// A source that fires sends its agent mail with the body given, from the
/// source, and tells of the mail and of the fire; the mail wakes the agent.
pub proof fn fires_reach_the_agent(
    src: WakeSource,
    body: &str,
    via: Option<&str>,
    allowed: bool,
    short_id: &str,
    now: i64,
    r: FireAction,
)
    requires
        short_id@.len() >= 6,
        call_ensures(fire, (Some(&src), body, via, allowed, short_id, now), r),
    ensures
        r is Send <==> allowed,
        !allowed ==> (r matches FireAction::Denied { event } && (event@ matches
            EventView::WakeSourceFailed { wake_id, agent_id, reason } && wake_id == src.id@
            && agent_id == src.agent_id@ && reason == "rate_limited"@)),
        r matches FireAction::Send { mail, received, fired } ==> {
            &&& mail.recipient_id@ == src.agent_id@
            &&& mail.body@ == body@
            &&& opt_text(mail.sender_id) == Some("wake://"@ + src.id@)
            &&& mail.id@ == "wm"@ + short_id@.take(6)
            &&& mail.wake_eligible
            &&& mail.created_at == now
            &&& mail.state == crate::types::MailState::Pending
            &&& fired@ matches EventView::WakeSourceFired { wake_id, agent_id, mail_id, via: told }
                && wake_id == src.id@ && agent_id == src.agent_id@ && mail_id == mail.id@ && told
                == opt_str(via)
            &&& received@ matches EventView::MailReceived { mail_id, recipient_id, .. } && mail_id
                == mail.id@ && recipient_id == src.agent_id@
        },
{
}

/// A source that is not there is not fired. An operator's fire goes past the
/// rate limiter.
pub proof fn operators_fire_at_will(
    source: Option<&WakeSource>,
    short_id: &str,
    now: i64,
    r: FireAction,
)
    requires
        short_id@.len() >= 6,
        call_ensures(test_fire, (source, short_id, now), r),
    ensures
        source is None <==> r is NotFound,
        source matches Some(src) ==> (r matches FireAction::Send { mail, received, fired }
            && mail.recipient_id@ == src.agent_id@ && mail.body@ == "[wake_test] manual fire of "@
            + src.id@),
{
}

/// A new source is armed, has never fired, and is its agent's.
pub proof fn new_sources_are_armed(
    agent_id: &str,
    kind: WakeSourceKind,
    config_json: &str,
    short_id: &str,
    now: i64,
    row: WakeSource,
)
    requires
        short_id@.len() >= 8,
        call_ensures(register, (agent_id, kind, config_json, short_id, now), row),
    ensures
        row.id@ == "wake_"@ + short_id@.take(8),
        row.agent_id@ == agent_id@,
        row.kind == kind,
        row.config_json@ == config_json@,
        row.state == WakeSourceState::Armed,
        row.fail_reason is None,
        row.last_fired_at is None,
        row.fire_count == 0,
        row.created_at == now,
{
}

/// What is told of a source names it and its agent, and why it failed or
/// ended.
pub proof fn sources_are_told_of(
    row: WakeSource,
    failure: Option<&str>,
    banished: bool,
    armed: StreamEvent,
    retired: StreamEvent,
    wake_id: &str,
    agent_id: &str,
)
    requires
        call_ensures(armed_event, (&row, failure), armed),
        call_ensures(retired_event, (wake_id, agent_id, banished), retired),
    ensures
        failure is None ==> (armed@ matches EventView::WakeSourceRegistered {
            wake_id,
            agent_id,
            kind,
        } && wake_id == row.id@ && agent_id == row.agent_id@ && kind == kind_name(row.kind)),
        failure matches Some(why) ==> (armed@ matches EventView::WakeSourceFailed {
            wake_id,
            agent_id,
            reason,
        } && wake_id == row.id@ && agent_id == row.agent_id@ && reason == why@),
        retired@ matches EventView::WakeSourceRetired { wake_id: w, agent_id: a, reason } && w
            == wake_id@ && a == agent_id@ && (banished ==> reason == "agent_banished"@) && (
        !banished ==> reason == "user_removed"@),
{
}

/// A parent's source fires when its parent reaches a state that it waits for,
/// and says which.
pub proof fn parents_are_reported(
    source: ParentCompletionSource,
    wake_id: &str,
    agent_id: &str,
    state: AgentState,
    r: Option<FireMsg>,
)
    requires
        call_ensures(parent_fire, (&source, wake_id, agent_id, state), r),
    ensures
        agent_id@ != source.config.parent_id@ ==> r is None,
        agent_id@ == source.config.parent_id@ && source.config.states@.contains(state) ==> r
            is Some,
        source.config.states@.len() > 0 && !source.config.states@.contains(state) ==> r is None,
        r matches Some(m) ==> m.wake_id@ == wake_id@ && m.body@ == "[parent "@ + agent_id@ + " -> "@
            + agent_state_name(state) + "]"@,
{
}

/// Changes are gathered from the first on, which is the one that is named;
/// when the window closes they fire as one, with their number, and nothing is
/// gathered any more.
pub proof fn changes_fire_as_one(
    g: &mut Gathered,
    path: &str,
    opens: bool,
    closing: &mut Gathered,
    wake_id: &str,
    r: Option<FireMsg>,
)
    requires
        old(g).wf(),
        old(g).count < usize::MAX,
        call_ensures(Gathered::change, (g, path), opens),
        old(closing).wf(),
        call_ensures(Gathered::close, (closing, wake_id), r),
    ensures
        opens <==> old(g).count == 0,
        final(g).count == old(g).count + 1,
        opens ==> opt_text(final(g).first) == Some(path@),
        !opens ==> opt_text(final(g).first) == opt_text(old(g).first),
        r is Some <==> old(closing).count > 0,
        r matches Some(m) ==> m.wake_id@ == wake_id@ && m.body@ == "[file-watch] "@
            + crate::decimal::decimal(old(closing).count as nat) + " changes; first: "@
            + old(closing).first->0@,
        final(closing).count == 0,
{
}

/// A cron source whose tick has come fires with its expression and the time;
/// one of another kind, one that cannot be read and one that is not due do
/// not.
pub proof fn due_ticks_fire(
    row: WakeSource,
    c: CronConfig,
    now: i64,
    nanos: u32,
    ticked: Option<String>,
    replayed: Option<String>,
)
    requires
        MIN_INSTANT <= now <= MAX_INSTANT,
        nanos < 1_000_000_000,
        call_ensures(tick_cron, (&row, Some(&c), now, nanos), ticked),
        call_ensures(replay_on_boot, (&row, Some(&c), now), replayed),
    ensures
        row.kind != WakeSourceKind::Cron ==> ticked is None && replayed is None,
        schedule_fault(c.expr@) is Some ==> ticked is None && replayed is None,
        ticked is Some <==> replayed is Some,
        row.kind == WakeSourceKind::Cron && schedule_fault(c.expr@) is None ==> (ticked is Some
            <==> row_due(row, c.expr@, now)),
        ticked matches Some(body) ==> body@ == "[cron] "@ + c.expr@ + " fired at "@ + rfc3339(
            now as int,
            nanos as int,
        ),
        replayed matches Some(body) ==> {
            &&& row.last_fired_at is None ==> body@ == "[catch-up] cron "@ + c.expr@
                + " (last fired: "@ + "None"@ + ")"@
            &&& row.last_fired_at matches Some(n) ==> body@ == "[catch-up] cron "@ + c.expr@
                + " (last fired: "@ + ("Some("@ + signed_decimal(n as int) + ")"@) + ")"@
        },
{
}

/// A source is due by when it last fired, or else by when it was made.
pub proof fn ticks_count_from_the_last_fire(row: WakeSource, expr: Seq<char>, now: i64)
    requires
        MIN_INSTANT <= row.created_at <= MAX_INSTANT,
    ensures
        row.last_fired_at is None ==> row_due(row, expr, now) == due(
            schedule_of(expr),
            now as int,
            None,
            row.created_at,
        ),
        row.last_fired_at matches Some(t) ==> MIN_INSTANT <= t <= MAX_INSTANT ==> row_due(
            row,
            expr,
            now,
        ) == due(schedule_of(expr), now as int, Some(t), row.created_at),
{
}

} // verus!
