//! Notifications to the operator, evaluations, and the order in which budgets
//! are shown.

use super::{fails, faults, rpc_err, RpcFault, INVALID_PARAMS};
use crate::order::{text_before, text_le, text_le_total, text_le_transitive};
use crate::text::{cat, opt_text, own, trim, trimmed};
use crate::types::{EventView, StreamEvent};
use vstd::prelude::*;
use vstd::string::*;

verus! {

/// A notification to the operator. It has to say something.
pub fn handle_notify(agent_id: Option<String>, message: String, level: Option<String>) -> (r: Result<
    StreamEvent,
    RpcFault,
>)
    ensures
        if trimmed(message@).len() == 0 {
            r matches Err(e) && faults(e, INVALID_PARAMS, "notify: message must not be empty"@)
        } else {
            r matches Ok(e) && e@ == (EventView::Notification {
                agent_id: opt_text(agent_id),
                message: message@,
                level: match opt_text(level) {
                    Some(l) => l,
                    None => "info"@,
                },
                source: "agent"@,
            })
        },
{
    if trim(message.as_str()).as_str().is_empty() {
        return Err(
            RpcFault {
                code: INVALID_PARAMS,
                message: own("notify: message must not be empty"),
            },
        );
    }
    let level = match level {
        Some(l) => l,
        None => own("info"),
    };
    Ok(StreamEvent::Notification { agent_id, message, level, source: own("agent") })
}

/// What the record of an evaluation comes to: `stored` is the new row's id, or
/// what kept it from being stored.
pub fn handle_eval_record(target_exists: bool, stored: Result<String, &str>) -> (r: Result<
    String,
    RpcFault,
>)
    ensures
        if !target_exists {
            r matches Err(e) && fails(e, "target_not_found"@)
        } else {
            match stored {
                Ok(id) => r == Ok::<String, RpcFault>(id),
                Err(why) => r matches Err(e) && fails(e, "insert_eval_result: "@ + why@),
            }
        },
{
    if !target_exists {
        return Err(rpc_err("target_not_found"));
    }
    match stored {
        Ok(id) => Ok(id),
        Err(why) => Err(rpc_err(cat("insert_eval_result: ", why).as_str())),
    }
}

/// Whether an order shows names one after the other.
pub open spec fn in_name_order(order: Seq<usize>, names: Seq<String>) -> bool {
    forall|i: int, j: int|
        0 <= i < j < order.len() ==> text_le(
            names[#[trigger] order[i] as int]@,
            names[#[trigger] order[j] as int]@,
        )
}

/// The order in which budgets are shown: by name.
pub fn name_order(names: &Vec<String>) -> (order: Vec<usize>)
    ensures
        order@.to_multiset() == Seq::new(names@.len(), |i: int| i as usize).to_multiset(),
        in_name_order(order@, names@),
{
    let ghost all = Seq::new(names@.len(), |i: int| i as usize);
    let mut order: Vec<usize> = Vec::new();
    assert(order@ =~= all.take(0));
    for i in 0..names.len()
        invariant
            all == Seq::new(names@.len(), |i: int| i as usize),
            order@.to_multiset() == all.take(i as int).to_multiset(),
            forall|k: int| 0 <= k < order@.len() ==> (#[trigger] order@[k]) < names@.len(),
            in_name_order(order@, names@),
    {
        let ghost before = order@;
        let mut k: usize = 0;
        while k < order.len() && text_before(names[order[k]].as_str(), names[i].as_str())
            invariant
                order@ == before,
                k <= before.len(),
                i < names@.len(),
                forall|j: int| 0 <= j < before.len() ==> (#[trigger] before[j]) < names@.len(),
                forall|j: int|
                    0 <= j < k ==> text_le(
                        names@[#[trigger] before[j] as int]@,
                        names@[i as int]@,
                    ),
            decreases before.len() - k,
        {
            k = k + 1;
        }
        proof {
            assert forall|j: int| k <= j < before.len() implies text_le(
                names@[i as int]@,
                names@[#[trigger] before[j] as int]@,
            ) by {
                text_le_total(names@[i as int]@, names@[before[k as int] as int]@);
                if j > k {
                    text_le_transitive(
                        names@[i as int]@,
                        names@[before[k as int] as int]@,
                        names@[before[j] as int]@,
                    );
                }
            }
        }
        order.insert(k, i);
        proof {
            let after = order@;
            assert(after =~= before.insert(k as int, i));
            assert forall|a: int, b: int| 0 <= a < b < after.len() implies text_le(
                names@[#[trigger] after[a] as int]@,
                names@[#[trigger] after[b] as int]@,
            ) by {
                if b < k {
                    assert(after[a] == before[a] && after[b] == before[b]);
                } else if b == k {
                    assert(after[a] == before[a]);
                } else if a < k {
                    assert(after[a] == before[a] && after[b] == before[b - 1]);
                } else if a == k {
                    assert(after[b] == before[b - 1]);
                } else {
                    assert(after[a] == before[a - 1] && after[b] == before[b - 1]);
                }
            }
            assert forall|a: int| 0 <= a < after.len() implies (#[trigger] after[a])
                < names@.len() by {
                if a < k {
                    assert(after[a] == before[a]);
                } else if a > k {
                    assert(after[a] == before[a - 1]);
                }
            }
            vstd::seq_lib::to_multiset_insert(before, k as int, i);
            assert(all.take(i + 1) =~= all.take(i as int).push(i));
            all.take(i as int).to_multiset_ensures();
        }
    }
    assert(all.take(all.len() as int) =~= all);
    order
}

// ---------------------------------------------------------------------------
// Laws
// ---------------------------------------------------------------------------

/// A notification that says something reaches the operator as it was sent, at
/// the level that it names or as mere information; a blank one is refused.
pub proof fn notifications_must_say_something(
    agent_id: Option<String>,
    message: String,
    level: Option<String>,
    r: Result<StreamEvent, RpcFault>,
)
    requires
        call_ensures(handle_notify, (agent_id, message, level), r),
    ensures
        r is Err <==> trimmed(message@).len() == 0,
        r matches Err(e) ==> e.code == -32602 && e.message@ == "notify: message must not be empty"@,
        r matches Ok(e) ==> (e@ matches EventView::Notification {
            agent_id: a,
            message: m,
            level: l,
            source,
        } && a == opt_text(agent_id) && m == message@ && source == "agent"@ && (level is None ==> l
            == "info"@) && (level matches Some(t) ==> l == t@)),
{
}

/// An evaluation of what is not there is refused; of what is there its id is
/// told once it is stored.
pub proof fn evaluations_need_a_target(
    exists_here: bool,
    stored: Result<String, &str>,
    r: Result<String, RpcFault>,
)
    requires
        call_ensures(handle_eval_record, (exists_here, stored), r),
    ensures
        r is Ok <==> exists_here && stored is Ok,
        r matches Ok(id) ==> id == stored->Ok_0,
        !exists_here ==> fails(r->Err_0, "target_not_found"@),
        exists_here && stored is Err ==> fails(
            r->Err_0,
            "insert_eval_result: "@ + stored->Err_0@,
        ),
{
}

} // verus!
