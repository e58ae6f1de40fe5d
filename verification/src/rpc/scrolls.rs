//! Requests on pacts and scrolls.

use super::{fails, rpc_err, RpcFault};
use crate::text::own;
use vstd::prelude::*;
use vstd::string::*;

verus! {

/// State of a pact.
#[derive(Clone, Copy, Debug, PartialEq, Eq, Structural)]
pub enum PactState {
    Pending,
    Fired,
}

/// A pact: when its source ends, a task made from the template is started.
#[derive(Debug)]
pub struct Pact {
    pub id: String,
    pub source_id: String,
    pub task_tpl: String,
    pub name: Option<String>,
    pub state: PactState,
    pub target_id: Option<String>,
    pub created_at: i64,
    pub fired_at: Option<i64>,
}

/// A pact that waits for its source.
pub fn handle_pact_create(id: &str, source_id: String, task_tpl: String, name: Option<String>, now: i64) -> (p:
    Pact)
    ensures
        p.id@ == id@,
        p.source_id == source_id,
        p.task_tpl == task_tpl,
        p.name == name,
        p.state == PactState::Pending,
        p.target_id is None,
        p.created_at == now,
        p.fired_at is None,
{
    Pact {
        id: own(id),
        source_id,
        task_tpl,
        name,
        state: PactState::Pending,
        target_id: None,
        created_at: now,
        fired_at: None,
    }
}

/// The fault of a scroll whose file cannot be read.
pub fn spec_unreadable(path: &str, error: &str) -> (f: RpcFault)
    ensures
        fails(f, "Failed to read spec file '"@ + path@ + "': "@ + error@),
{
    let mut m = own("Failed to read spec file '");
    m.append(path);
    m.append("': ");
    m.append(error);
    rpc_err(m.as_str())
}

// ---------------------------------------------------------------------------
// Laws
// ---------------------------------------------------------------------------

/// A new pact waits for its source, with the template of its task.
pub proof fn pacts_wait_for_their_source(
    id: &str,
    source_id: String,
    task_tpl: String,
    name: Option<String>,
    now: i64,
    p: Pact,
)
    requires
        call_ensures(handle_pact_create, (id, source_id, task_tpl, name, now), p),
    ensures
        p.id@ == id@,
        p.source_id@ == source_id@,
        p.task_tpl@ == task_tpl@,
        p.name == name,
        p.state == PactState::Pending,
        p.target_id is None,
        p.fired_at is None,
        p.created_at == now,
{
}

} // verus!
