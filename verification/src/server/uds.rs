//! The request loop of a connection on the daemon's socket: the auth gate,
//! and what each line leads to.

use super::auth::AuthToken;
use crate::rpc::{faults, RpcFault, PARSE_ERROR, SERVER_ERROR};
use crate::text::{cat, opt_str, opt_text, own, same};
use crate::types::{terminal, AgentState};
use vstd::prelude::*;
use vstd::string::*;

verus! {

/// Outcome of evaluating a single request's auth state. A pass holds for the
/// requests that follow on the same connection.
#[derive(Clone, Copy, Debug, PartialEq, Eq, Structural)]
pub enum UdsAuthDecision {
    Pass,
    Reject,
}

/// Whether a request goes through: the connection is trusted or has passed
/// before, or the request presents the daemon's token.
pub open spec fn goes_through(authed: bool, presented: Option<Seq<char>>, secret: Seq<char>) -> bool {
    authed || presented == Some(secret)
}

/// Decides on a request.
pub fn check_uds_auth(already_authed: bool, presented: Option<&str>, daemon_token: &AuthToken) -> (r:
    UdsAuthDecision)
    ensures
        r == (if goes_through(already_authed, opt_str(presented), daemon_token.secret@) {
            UdsAuthDecision::Pass
        } else {
            UdsAuthDecision::Reject
        }),
{
    if already_authed {
        return UdsAuthDecision::Pass;
    }
    match presented {
        Some(tok) => if daemon_token.verify(tok) {
            UdsAuthDecision::Pass
        } else {
            UdsAuthDecision::Reject
        },
        None => UdsAuthDecision::Reject,
    }
}

/// What a line of the connection parses to.
#[derive(Debug)]
pub enum Line {
    /// No request, and why.
    Garbled(String),
    Request { id: u64, method: String, auth_token: Option<String> },
}

/// What a line leads to.
#[derive(Debug)]
pub enum LineStep {
    /// Write the fault under the id, and read on.
    Answer { id: u64, fault: RpcFault },
    /// Write the fault under the id, and close.
    Close { id: u64, fault: RpcFault },
    /// Stream the events of an agent.
    Bind,
    /// Carry the request out.
    Dispatch,
}

/// A connection. One of the daemon's own user is trusted from the start;
/// another has to present the token once.
#[derive(Debug)]
pub struct Connection {
    pub authed: bool,
}

impl Connection {
    /// A connection of the user `peer_uid`, where the kernel names one.
    pub fn open(peer_uid: Option<u32>, owner_uid: u32) -> (c: Connection)
        ensures
            c.authed == (peer_uid == Some(owner_uid)),
    {
        Connection {
            authed: match peer_uid {
                Some(uid) => uid == owner_uid,
                None => false,
            },
        }
    }

    /// Takes a line. After a failed attempt the connection is closed, so that
    /// it is of no use for guessing.
    pub fn take(&mut self, line: &Line, token: &AuthToken) -> (step: LineStep)
        ensures
            match *line {
                Line::Garbled(e) => {
                    &&& final(self).authed == old(self).authed
                    &&& step matches LineStep::Answer { id, fault } && id == 0 && faults(
                        fault,
                        PARSE_ERROR,
                        "Parse error: "@ + e@,
                    )
                },
                Line::Request { id, method, auth_token } => if goes_through(
                    old(self).authed,
                    opt_text(auth_token),
                    token.secret@,
                ) {
                    &&& final(self).authed
                    &&& step == (if method@ == "agent.bind"@ {
                        LineStep::Bind
                    } else {
                        LineStep::Dispatch
                    })
                } else {
                    &&& !final(self).authed
                    &&& step matches LineStep::Close { id: rid, fault } && rid == id && faults(
                        fault,
                        SERVER_ERROR,
                        "unauthenticated"@,
                    )
                },
            },
    {
        match line {
            Line::Garbled(e) => LineStep::Answer {
                id: 0,
                fault: RpcFault {
                    code: PARSE_ERROR,
                    message: cat("Parse error: ", e.as_str()),
                },
            },
            Line::Request { id, method, auth_token } => {
                let presented: Option<&str> = match auth_token {
                    Some(t) => Some(t.as_str()),
                    None => None,
                };
                match check_uds_auth(self.authed, presented, token) {
                    UdsAuthDecision::Pass => {
                        self.authed = true;
                        if same(method.as_str(), "agent.bind") {
                            LineStep::Bind
                        } else {
                            LineStep::Dispatch
                        }
                    },
                    UdsAuthDecision::Reject => LineStep::Close {
                        id: *id,
                        fault: RpcFault { code: SERVER_ERROR, message: own("unauthenticated") },
                    },
                }
            },
        }
    }
}

/// What an event leads to on a connection that streams an agent's events.
#[derive(Clone, Copy, Debug, PartialEq, Eq, Structural)]
pub struct BindStep {
    /// Write the event.
    pub forward: bool,
    /// End the stream.
    pub end: bool,
}

/// Takes an event, of which `agent` says whom it is about, and `new_state` the
/// state that it announces, where it is a change of state. The agent's own
/// events are written; the end of any agent ends the stream.
pub fn bind_event(bound: &str, agent: Option<&str>, new_state: Option<AgentState>) -> (r: BindStep)
    ensures
        r.forward == (opt_str(agent) == Some(bound@)),
        r.end == (new_state is Some && terminal(new_state->0)),
{
    let forward = match agent {
        Some(a) => same(a, bound),
        None => false,
    };
    let end = match new_state {
        Some(s) => s.is_terminal(),
        None => false,
    };
    BindStep { forward, end }
}

// ---------------------------------------------------------------------------
// Laws
// ---------------------------------------------------------------------------

/// Once a connection has passed, it passes whatever later requests present.
pub proof fn authentication_is_sticky(
    authed: bool,
    presented: Option<Seq<char>>,
    later: Option<Seq<char>>,
    secret: Seq<char>,
)
    requires
        goes_through(authed, presented, secret),
    ensures
        goes_through(true, later, secret),
{
}

/// A connection of the daemon's own user is trusted; any other is not until
/// it presents the token.
pub proof fn strangers_must_present_the_token(
    peer: Option<u32>,
    owner: u32,
    c: Connection,
    authed: bool,
    presented: Option<&str>,
    token: AuthToken,
    r: UdsAuthDecision,
)
    requires
        call_ensures(Connection::open, (peer, owner), c),
        call_ensures(check_uds_auth, (authed, presented, &token), r),
    ensures
        c.authed <==> peer is Some && peer->0 == owner,
        authed ==> r == UdsAuthDecision::Pass,
        !authed ==> (r == UdsAuthDecision::Pass <==> presented is Some && presented->0@
            == token.secret@),
{
}

/// A request that may not go through is answered and the connection closed;
/// one that may is carried out, and the connection is trusted from then on. A
/// line that is no request is answered and does not change that.
pub proof fn lines_lead_to_steps(c: &mut Connection, line: Line, token: AuthToken, step: LineStep)
    requires
        call_ensures(Connection::take, (c, &line, &token), step),
    ensures
        line matches Line::Garbled(e) ==> final(c).authed == old(c).authed && (step matches
            LineStep::Answer { id, fault } && id == 0 && fault.code == -32700 && fault.message@
            == "Parse error: "@ + e@),
        line matches Line::Request { id, method, auth_token } ==> {
            let passes = old(c).authed || (auth_token matches Some(t) && t@ == token.secret@);
            &&& final(c).authed == passes
            &&& passes && method@ == "agent.bind"@ ==> step is Bind
            &&& passes && method@ != "agent.bind"@ ==> step is Dispatch
            &&& !passes ==> (step matches LineStep::Close { id: rid, fault } && rid == id
                && fault.message@ == "unauthenticated"@)
        },
{
}

/// A bound connection gets its agent's events and no others, and ends with
/// the end of an agent.
pub proof fn bound_connections_get_their_agents_events(
    bound: &str,
    agent: Option<&str>,
    state: Option<AgentState>,
    r: BindStep,
)
    requires
        call_ensures(bind_event, (bound, agent, state), r),
    ensures
        r.forward <==> agent is Some && agent->0@ == bound@,
        r.end <==> (state == Some(AgentState::Complete) || state == Some(AgentState::Failed)
            || state == Some(AgentState::Banished)),
{
}

} // verus!
