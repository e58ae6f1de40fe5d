//! Requests on supervision: restarts by hand, and the restart history.

use super::{fails, rpc_err, RpcFault};
use crate::supervisor::{ManualRestartOutcome, ManualView};
use crate::text::{cat, opt_str};
use vstd::prelude::*;
use vstd::string::*;

verus! {

/// The reply to a restart by hand.
#[derive(Debug)]
pub struct RestartNow {
    pub outcome: &'static str,
    pub reason: Option<&'static str>,
    pub attempt: Option<u32>,
}

/// What a restart by hand is answered with, where `outcome` is what the
/// supervisor said, or what kept it from saying so; there is none while it
/// starts up.
pub fn handle_supervisor_restart_now(outcome: Option<Result<ManualRestartOutcome, &str>>) -> (r: Result<
    RestartNow,
    RpcFault,
>)
    ensures
        match outcome {
            None => r matches Err(e) && fails(e, "supervisor_not_ready"@),
            Some(Err(why)) => r matches Err(e) && fails(e, "supervisor.restart-now: "@ + why@),
            Some(Ok(o)) => match o@ {
                ManualView::Scheduled { attempt } => r matches Ok(a) && a.outcome@ == "scheduled"@
                    && a.reason is None && a.attempt is Some && a.attempt->0 == attempt,
                ManualView::Rejected { reason } => r matches Ok(a) && a.outcome@ == "rejected"@
                    && opt_str(a.reason) == Some(reason) && a.attempt is None,
            },
        },
{
    match outcome {
        None => Err(rpc_err("supervisor_not_ready")),
        Some(Err(why)) => Err(rpc_err(cat("supervisor.restart-now: ", why).as_str())),
        Some(Ok(ManualRestartOutcome::Scheduled { attempt })) => Ok(
            RestartNow { outcome: "scheduled", reason: None, attempt: Some(attempt) },
        ),
        Some(Ok(ManualRestartOutcome::Rejected { reason })) => Ok(
            RestartNow { outcome: "rejected", reason: Some(reason), attempt: None },
        ),
    }
}

/// How many entries of a restart history are shown.
pub fn history_limit(asked: Option<u32>) -> (limit: u32)
    ensures
        limit == (match asked {
            Some(n) => n,
            None => 50u32,
        }),
{
    match asked {
        Some(n) => n,
        None => 50,
    }
}

// ---------------------------------------------------------------------------
// Laws
// ---------------------------------------------------------------------------

/// A restart that was granted is answered with its attempt, and one that was
/// not with the reason.
pub proof fn restarts_are_answered(
    attempt: u32,
    reason: &'static str,
    granted: Result<RestartNow, RpcFault>,
    refused: Result<RestartNow, RpcFault>,
    early: Result<RestartNow, RpcFault>,
)
    requires
        call_ensures(
            handle_supervisor_restart_now,
            (Some(Ok::<ManualRestartOutcome, &str>(ManualRestartOutcome::Scheduled { attempt })),),
            granted,
        ),
        call_ensures(
            handle_supervisor_restart_now,
            (Some(Ok::<ManualRestartOutcome, &str>(ManualRestartOutcome::Rejected { reason })),),
            refused,
        ),
        call_ensures(
            handle_supervisor_restart_now,
            (None::<Result<ManualRestartOutcome, &str>>,),
            early,
        ),
    ensures
        granted matches Ok(a) && a.outcome@ == "scheduled"@ && a.attempt == Some(attempt)
            && a.reason is None,
        refused matches Ok(a) && a.outcome@ == "rejected"@ && a.attempt is None && opt_str(a.reason)
            == Some(reason@),
        early matches Err(e) && fails(e, "supervisor_not_ready"@),
{
}

/// A history shows as many entries as are asked for, or fifty.
pub proof fn histories_show_fifty_entries(asked: Option<u32>, limit: u32)
    requires
        call_ensures(history_limit, (asked,), limit),
    ensures
        asked is None ==> limit == 50,
        asked matches Some(n) ==> limit == n,
{
}

} // verus!
