//! The daemon's side of a worker's channel: whom it lets register, and where
//! each later message goes.

use crate::decimal::{decimal, to_decimal};
use crate::text::{copy_texts, own, same, texts};
use crate::versions::{is_version, version_valid};
use crate::worker_registry::{worker_version_meets_minimum, RegisterError, RegisterParams};
use vstd::prelude::*;
use vstd::string::*;

verus! {

/// The first message of a worker.
#[derive(Debug)]
pub struct Register {
    pub worker_id: String,
    pub bearer_token: String,
    pub worker_version: String,
    pub max_concurrent: u32,
    /// Name and version of each provider.
    pub providers: Vec<(String, String)>,
    pub tags: Vec<String>,
    pub protocol_version: u32,
}

/// Status codes with which a channel is refused.
#[derive(Clone, Copy, Debug, PartialEq, Eq, Structural)]
pub enum StatusCode {
    InvalidArgument,
    FailedPrecondition,
    Unauthenticated,
    AlreadyExists,
}

/// Why a channel is refused.
#[derive(Debug)]
pub struct Refusal {
    pub code: StatusCode,
    pub message: String,
}

/// What a [`Refusal`] says.
pub open spec fn refusal_says(r: Refusal, code: StatusCode, message: Seq<char>) -> bool {
    r.code == code && r.message@ == message
}

/// The providers whose version parses, in order.
pub open spec fn parsed_providers(list: Seq<(String, String)>) -> Seq<(Seq<char>, Seq<char>)>
    decreases list.len(),
{
    if list.len() == 0 {
        seq![]
    } else {
        let before = parsed_providers(list.drop_last());
        if version_valid(list.last().1@) {
            before.push((list.last().0@, list.last().1@))
        } else {
            before
        }
    }
}

/// The characters of each pair of a list.
pub open spec fn pairs(list: Seq<(String, String)>) -> Seq<(Seq<char>, Seq<char>)> {
    list.map_values(|p: (String, String)| (p.0@, p.1@))
}

fn keep_parsed(list: &Vec<(String, String)>) -> (r: Vec<(String, String)>)
    ensures
        pairs(r@) == parsed_providers(list@),
{
    let mut r: Vec<(String, String)> = Vec::new();
    assert(pairs(r@) =~= Seq::<(Seq<char>, Seq<char>)>::empty());
    for i in 0..list.len()
        invariant
            pairs(r@) == parsed_providers(list@.take(i as int)),
    {
        let ghost before = pairs(r@);
        proof {
            let now = list@.take(i + 1);
            assert(now.drop_last() =~= list@.take(i as int));
            assert(now.last() == list@[i as int]);
        }
        let (name, version) = &list[i];
        if is_version(version.as_str()) {
            let p = (name.clone(), version.clone());
            r.push(p);
            assert(pairs(r@) =~= before.push((p.0@, p.1@)));
        }
    }
    assert(list@.take(list@.len() as int) =~= list@);
    r
}

/// The message about a protocol that the daemon does not speak.
pub open spec fn protocol_message(sent: u32, supported: u32) -> Seq<char> {
    "unsupported_protocol_version: worker sent "@ + decimal(sent as nat) + ", daemon supports "@
        + decimal(supported as nat)
}

/// Decides whether a worker may register, from its first message. `first` is
/// `None` where that message was no registration. The protocol is checked
/// before the token, and the token before the version; `recent` says whether
/// the version is recent enough.
pub fn admission_check(
    first: Option<&Register>,
    protocol_version: u32,
    bearer_secret: &str,
    recent: bool,
) -> (r: Result<(), Refusal>)
    ensures
        match first {
            None => r matches Err(e) && refusal_says(
                e,
                StatusCode::InvalidArgument,
                "first message must be Register"@,
            ),
            Some(reg) => if reg.protocol_version != protocol_version {
                r matches Err(e) && refusal_says(
                    e,
                    StatusCode::FailedPrecondition,
                    protocol_message(reg.protocol_version, protocol_version),
                )
            } else if reg.bearer_token@ != bearer_secret@ {
                r matches Err(e) && refusal_says(
                    e,
                    StatusCode::Unauthenticated,
                    "invalid bearer token"@,
                )
            } else if !recent {
                r matches Err(e) && refusal_says(
                    e,
                    StatusCode::FailedPrecondition,
                    "worker version "@ + reg.worker_version@ + " below minimum"@,
                )
            } else {
                r is Ok
            },
        },
{
    let reg = match first {
        None => {
            return Err(
                Refusal {
                    code: StatusCode::InvalidArgument,
                    message: own("first message must be Register"),
                },
            );
        },
        Some(reg) => reg,
    };
    if reg.protocol_version != protocol_version {
        let mut message = own("unsupported_protocol_version: worker sent ");
        message.append(to_decimal(reg.protocol_version as u64).as_str());
        message.append(", daemon supports ");
        message.append(to_decimal(protocol_version as u64).as_str());
        return Err(Refusal { code: StatusCode::FailedPrecondition, message });
    }
    if !same(reg.bearer_token.as_str(), bearer_secret) {
        return Err(
            Refusal { code: StatusCode::Unauthenticated, message: own("invalid bearer token") },
        );
    }
    if !recent {
        let mut message = own("worker version ");
        message.append(reg.worker_version.as_str());
        message.append(" below minimum");
        return Err(Refusal { code: StatusCode::FailedPrecondition, message });
    }
    Ok(())
}

/// Whether a registration carries on what a worker's first message said.
pub open spec fn params_of(p: RegisterParams, reg: Register) -> bool {
    &&& p.worker_id@ == reg.worker_id@
    &&& p.bearer_ok
    &&& p.worker_version@ == reg.worker_version@
    &&& p.max_concurrent == reg.max_concurrent
    &&& pairs(p.providers@) == parsed_providers(reg.providers@)
    &&& texts(p.tags@) == texts(reg.tags@)
}

/// Whether a version is recent enough for the daemon.
pub open spec fn recent_enough(version: Seq<char>) -> bool {
    version_valid(version) && version_valid("0.1.0"@) && crate::versions::version_reaches(
        version,
        "0.1.0"@,
    )
}

/// Opens a worker's channel: what to register it with, or why not.
pub fn channel(first: Option<&Register>, protocol_version: u32, bearer_secret: &str) -> (r: Result<
    RegisterParams,
    Refusal,
>)
    ensures
        match r {
            Ok(p) => first matches Some(reg) && reg.protocol_version == protocol_version
                && reg.bearer_token@ == bearer_secret@ && recent_enough(reg.worker_version@)
                && params_of(p, *reg),
            Err(e) => match first {
                None => refusal_says(
                    e,
                    StatusCode::InvalidArgument,
                    "first message must be Register"@,
                ),
                Some(reg) => if reg.protocol_version != protocol_version {
                    refusal_says(
                        e,
                        StatusCode::FailedPrecondition,
                        protocol_message(reg.protocol_version, protocol_version),
                    )
                } else if reg.bearer_token@ != bearer_secret@ {
                    refusal_says(e, StatusCode::Unauthenticated, "invalid bearer token"@)
                } else {
                    !recent_enough(reg.worker_version@) && refusal_says(
                        e,
                        StatusCode::FailedPrecondition,
                        "worker version "@ + reg.worker_version@ + " below minimum"@,
                    )
                },
            },
        },
{
    let recent = match first {
        Some(reg) => worker_version_meets_minimum(reg.worker_version.as_str()),
        None => false,
    };
    match admission_check(first, protocol_version, bearer_secret, recent) {
        Err(e) => return Err(e),
        Ok(()) => {},
    }
    match first {
        Some(reg) => Ok(
            RegisterParams {
                worker_id: reg.worker_id.clone(),
                bearer_ok: true,
                worker_version: reg.worker_version.clone(),
                max_concurrent: reg.max_concurrent,
                providers: keep_parsed(&reg.providers),
                tags: copy_texts(&reg.tags),
            },
        ),
        None => Err(
            Refusal {
                code: StatusCode::InvalidArgument,
                message: own("first message must be Register"),
            },
        ),
    }
}

/// The refusal of a registration that the registry did not take.
pub fn registration_refusal(e: &RegisterError) -> (r: Refusal)
    ensures
        refusal_says(
            r,
            StatusCode::AlreadyExists,
            match e {
                RegisterError::BadBearer => "bad bearer token"@,
                RegisterError::AlreadyRegistered { worker_id } => "worker already registered: "@
                    + worker_id@,
            },
        ),
{
    Refusal { code: StatusCode::AlreadyExists, message: e.to_text() }
}

/// A later message of a worker.
#[derive(Debug)]
pub enum WorkerMessage {
    Heartbeat { in_flight: u32 },
    TaskAccepted { agent_id: String },
    TaskRejected { agent_id: String },
    TaskEvent { agent_id: String },
    TaskFinished { agent_id: String },
    Other,
}

/// Where a message goes.
#[derive(Debug)]
pub enum Route {
    /// The registry notes that the worker is alive.
    Heartbeat { in_flight: u32 },
    /// The agent whose task the message is about gets it.
    Agent { agent_id: String },
    /// Nobody waits for it.
    Drop,
}

/// Where a worker's message goes.
pub fn route(msg: &WorkerMessage) -> (r: Route)
    ensures
        match *msg {
            WorkerMessage::Heartbeat { in_flight: n } => r == (Route::Heartbeat { in_flight: n }),
            WorkerMessage::TaskAccepted { agent_id: a } => r matches Route::Agent { agent_id }
                && agent_id@ == a@,
            WorkerMessage::TaskRejected { agent_id: a } => r matches Route::Agent { agent_id }
                && agent_id@ == a@,
            WorkerMessage::TaskEvent { agent_id: a } => r matches Route::Agent { agent_id }
                && agent_id@ == a@,
            WorkerMessage::TaskFinished { agent_id: a } => r matches Route::Agent { agent_id }
                && agent_id@ == a@,
            WorkerMessage::Other => r is Drop,
        },
{
    match msg {
        WorkerMessage::Heartbeat { in_flight } => Route::Heartbeat { in_flight: *in_flight },
        WorkerMessage::TaskAccepted { agent_id } => Route::Agent { agent_id: agent_id.clone() },
        WorkerMessage::TaskRejected { agent_id } => Route::Agent { agent_id: agent_id.clone() },
        WorkerMessage::TaskEvent { agent_id } => Route::Agent { agent_id: agent_id.clone() },
        WorkerMessage::TaskFinished { agent_id } => Route::Agent { agent_id: agent_id.clone() },
        WorkerMessage::Other => Route::Drop,
    }
}

// ---------------------------------------------------------------------------
// Laws
// ---------------------------------------------------------------------------

/// A channel opens for a first message that registers a worker, speaks the
/// daemon's protocol, carries its token and comes from a version that is
/// recent enough, and for no other.
pub proof fn channels_open_for_registered_workers(
    first: Option<&Register>,
    protocol_version: u32,
    bearer_secret: &str,
    r: Result<RegisterParams, Refusal>,
)
    requires
        call_ensures(channel, (first, protocol_version, bearer_secret), r),
    ensures
        r is Ok <==> (first matches Some(reg) && reg.protocol_version == protocol_version
            && reg.bearer_token@ == bearer_secret@ && version_valid(reg.worker_version@)
            && version_valid("0.1.0"@) && crate::versions::version_reaches(
            reg.worker_version@,
            "0.1.0"@,
        )),
        r matches Err(e) ==> {
            &&& first is None ==> e.code == StatusCode::InvalidArgument && e.message@
                == "first message must be Register"@
            &&& first matches Some(reg) ==> reg.protocol_version != protocol_version ==> e.code
                == StatusCode::FailedPrecondition && e.message@
                == "unsupported_protocol_version: worker sent "@ + decimal(
                reg.protocol_version as nat,
            ) + ", daemon supports "@ + decimal(protocol_version as nat)
            &&& first matches Some(reg) ==> reg.protocol_version == protocol_version
                && reg.bearer_token@ != bearer_secret@ ==> e.code == StatusCode::Unauthenticated
        },
{
}

/// What a worker is registered with is what it said of itself.
pub proof fn registrations_carry_the_first_message(
    reg: Register,
    protocol_version: u32,
    bearer_secret: &str,
    p: RegisterParams,
)
    requires
        call_ensures(channel, (Some(&reg), protocol_version, bearer_secret), Ok(p)),
    ensures
        p.worker_id@ == reg.worker_id@,
        p.worker_version@ == reg.worker_version@,
        p.max_concurrent == reg.max_concurrent,
        p.bearer_ok,
        p.tags@.len() == reg.tags@.len(),
        forall|i: int| 0 <= i < reg.tags@.len() ==> (#[trigger] p.tags@[i])@ == reg.tags@[i]@,
{
    assert(texts(p.tags@).len() == p.tags@.len());
    assert(texts(reg.tags@).len() == reg.tags@.len());
    assert forall|i: int| 0 <= i < reg.tags@.len() implies (#[trigger] p.tags@[i])@
        == reg.tags@[i]@ by {
        assert(texts(p.tags@)[i] == p.tags@[i]@);
        assert(texts(reg.tags@)[i] == reg.tags@[i]@);
    }
}

/// A provider is kept exactly where its version parses, behind those before
/// it.
pub proof fn sound_providers_are_kept(list: Seq<(String, String)>, p: (String, String))
    ensures
        parsed_providers(Seq::<(String, String)>::empty()).len() == 0,
        version_valid(p.1@) ==> parsed_providers(list.push(p)) == parsed_providers(list).push(
            (p.0@, p.1@),
        ),
        !version_valid(p.1@) ==> parsed_providers(list.push(p)) == parsed_providers(list),
{
    assert(list.push(p).drop_last() =~= list);
}

/// News of a task go to the agent whose task it is, and a heartbeat to the
/// registry.
pub proof fn news_reach_their_agent(msg: WorkerMessage, r: Route)
    requires
        call_ensures(route, (&msg,), r),
    ensures
        msg matches WorkerMessage::Heartbeat { in_flight } ==> r == (Route::Heartbeat { in_flight }),
        msg matches WorkerMessage::TaskAccepted { agent_id } ==> (r matches Route::Agent {
            agent_id: to,
        } && to@ == agent_id@),
        msg matches WorkerMessage::TaskRejected { agent_id } ==> (r matches Route::Agent {
            agent_id: to,
        } && to@ == agent_id@),
        msg matches WorkerMessage::TaskEvent { agent_id } ==> (r matches Route::Agent {
            agent_id: to,
        } && to@ == agent_id@),
        msg matches WorkerMessage::TaskFinished { agent_id } ==> (r matches Route::Agent {
            agent_id: to,
        } && to@ == agent_id@),
{
}

} // verus!
