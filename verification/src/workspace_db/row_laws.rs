//! What the operations on the tables do to their rows.

use super::events::{outbox_rows, without_row, OutboxRowView, OutboxState, WsEventOutboxRow};
use super::federation::{federations_view, WorkspaceFederation};
use super::memory::{lists, stored, under_prefix, MemoryListItem};
use super::{
    entries_view, workspace_at, workspaces_view, Database, Workspace, WorkspaceKind,
    WorkspaceListEntry, WorkspaceState,
};
use crate::text::opt_text;
use vstd::prelude::*;

verus! {

/// An event that was shipped is in flight, and nothing else changes.
pub proof fn shipping_puts_in_flight(db: &mut Database, id: &str, i: int)
    requires
        call_ensures(Database::workspace_event_mark_in_flight, (db, id), ()),
        0 <= i < old(db).outbox@.len(),
    ensures
        final(db).outbox@.len() == old(db).outbox@.len(),
        old(db).outbox@[i].id@ == id@ ==> final(db).outbox@[i].state == OutboxState::InFlight,
        old(db).outbox@[i].id@ != id@ ==> final(db).outbox@[i].state == old(db).outbox@[i].state,
        final(db).outbox@[i].id@ == old(db).outbox@[i].id@,
        final(db).outbox@[i].payload@ == old(db).outbox@[i].payload@,
        final(db).outbox@[i].attempts == old(db).outbox@[i].attempts,
        final(db).counters == old(db).counters,
{
    let after = outbox_rows(final(db).outbox@);
    let before = outbox_rows(old(db).outbox@);
    assert(after.len() == final(db).outbox@.len());
    assert(before.len() == old(db).outbox@.len());
    assert(after[i] == final(db).outbox@[i]@);
    assert(before[i] == old(db).outbox@[i]@);
}

/// An event that did not arrive is pending again, one attempt later.
pub proof fn failed_shipping_is_tried_again(db: &mut Database, id: &str, at: i64, i: int)
    requires
        forall|k: int|
            0 <= k < old(db).outbox@.len() && (#[trigger] old(db).outbox@[k]).id@ == id@
                ==> old(db).outbox@[k].attempts < u32::MAX,
        call_ensures(Database::workspace_event_mark_failed_retry, (db, id, at), ()),
        0 <= i < old(db).outbox@.len(),
    ensures
        final(db).outbox@.len() == old(db).outbox@.len(),
        old(db).outbox@[i].id@ == id@ ==> final(db).outbox@[i].state == OutboxState::Pending
            && final(db).outbox@[i].attempts == old(db).outbox@[i].attempts + 1
            && final(db).outbox@[i].next_attempt_at == at,
        old(db).outbox@[i].id@ != id@ ==> final(db).outbox@[i]@ == old(db).outbox@[i]@,
        final(db).outbox@[i].payload@ == old(db).outbox@[i].payload@,
{
    let after = outbox_rows(final(db).outbox@);
    let before = outbox_rows(old(db).outbox@);
    assert(after.len() == final(db).outbox@.len());
    assert(before.len() == old(db).outbox@.len());
    assert(after[i] == final(db).outbox@[i]@);
    assert(before[i] == old(db).outbox@[i]@);
}

/// After a restart every event waits to be shipped.
pub proof fn restarts_ship_again(db: &mut Database, n: usize, i: int)
    requires
        call_ensures(Database::workspace_event_reset_in_flight, (db,), n),
        0 <= i < old(db).outbox@.len(),
    ensures
        final(db).outbox@.len() == old(db).outbox@.len(),
        final(db).outbox@[i].state == OutboxState::Pending,
        final(db).outbox@[i].id@ == old(db).outbox@[i].id@,
        final(db).outbox@[i].attempts == old(db).outbox@[i].attempts,
{
    let after = outbox_rows(final(db).outbox@);
    let before = outbox_rows(old(db).outbox@);
    assert(after.len() == final(db).outbox@.len());
    assert(before.len() == old(db).outbox@.len());
    assert(after[i] == final(db).outbox@[i]@);
    assert(before[i] == old(db).outbox@[i]@);
}

/// Where nothing is ready for a peer nothing is shipped to it, and what is
/// shipped is as its row has it.
pub proof fn rows_are_shipped_as_they_are(
    db: Database,
    peer: &str,
    now: i64,
    r: Option<WsEventOutboxRow>,
)
    requires
        call_ensures(Database::workspace_event_next_outbox, (&db, peer, now), r),
    ensures
        r matches Some(e) ==> exists|i: int|
            0 <= i < db.outbox@.len() && (#[trigger] db.outbox@[i]).id@ == e.id@
                && db.outbox@[i].peer_id@ == peer@ && db.outbox@[i].state == OutboxState::Pending
                && db.outbox@[i].next_attempt_at <= now && db.outbox@[i].payload@ == e.payload@
                && db.outbox@[i].sender_seq == e.sender_seq && db.outbox@[i].workspace_id@
                == e.workspace_id@,
{
}

/// A workspace's new state is its own alone.
pub proof fn states_are_set_by_id(db: &mut Database, id: &str, state: WorkspaceState, i: int)
    requires
        old(db).workspaces_wf(),
        call_ensures(Database::update_workspace_state, (db, id, state), ()),
        0 <= i < old(db).workspaces@.len(),
    ensures
        final(db).workspaces@.len() == old(db).workspaces@.len(),
        old(db).workspaces@[i].id@ == id@ ==> final(db).workspaces@[i].state == state,
        old(db).workspaces@[i].id@ != id@ ==> final(db).workspaces@[i].state
            == old(db).workspaces@[i].state,
        final(db).workspaces@[i].id@ == old(db).workspaces@[i].id@,
        final(db).workspaces@[i].path@ == old(db).workspaces@[i].path@,
        final(db).memory == old(db).memory,
{
    let after = workspaces_view(final(db).workspaces@);
    let before = workspaces_view(old(db).workspaces@);
    assert(after.len() == final(db).workspaces@.len());
    assert(before.len() == old(db).workspaces@.len());
    assert(after[i] == final(db).workspaces@[i]@);
    assert(before[i] == old(db).workspaces@[i]@);
}

/// A deleted workspace leaves nothing behind, and takes nothing of others.
pub proof fn deleted_workspaces_leave_nothing(
    db: &mut Database,
    id: &str,
    ws: Seq<char>,
    key: Seq<char>,
    i: int,
)
    requires
        old(db).workspaces_wf(),
        call_ensures(Database::delete_workspace_row, (db, id), ()),
    ensures
        0 <= i < final(db).workspaces@.len() ==> final(db).workspaces@[i].id@ != id@,
        0 <= i < final(db).assignments@.len() ==> final(db).assignments@[i].workspace_id@ != id@,
        stored(final(db).memory@, id@, key) is None,
        ws != id@ ==> stored(final(db).memory@, ws, key) == stored(old(db).memory@, ws, key),
        final(db).agents == old(db).agents,
{
    super::nothing_outlives_its_workspace(old(db).owned(), id@);
    let left = final(db).owned();
    if 0 <= i < final(db).workspaces@.len() {
        assert(left.workspaces[i] == final(db).workspaces@[i]@);
    }
    assert(stored(left.memory, id@, key) is None);
}

/// A shadow is added as an active workspace that stands for its home.
pub proof fn shadows_are_added(
    db: &mut Database,
    id: &str,
    daemon: &str,
    home: &str,
    branch: &str,
    now: i64,
    r: Result<(), &'static str>,
)
    requires
        old(db).workspaces_wf(),
        call_ensures(
            Database::insert_shadow_workspace,
            (db, id, daemon, home, branch, now),
            r,
        ),
    ensures
        r is Ok ==> ({
            let w = final(db).workspaces@.last();
            &&& final(db).workspaces@.len() == old(db).workspaces@.len() + 1
            &&& w.id@ == id@
            &&& w.path@ == "shadow://"@ + daemon@ + "/"@ + home@
            &&& w.branch@ == branch@
            &&& w.kind == WorkspaceKind::Shadow
            &&& w.state == WorkspaceState::Active
            &&& opt_text(w.home_daemon_id) == Some(daemon@)
            &&& opt_text(w.home_workspace_id) == Some(home@)
        }),
        r is Err ==> final(db).workspaces@ == old(db).workspaces@,
{
    if r is Ok {
        let after = workspaces_view(final(db).workspaces@);
        assert(after.len() == final(db).workspaces@.len());
        assert(workspaces_view(old(db).workspaces@).len() == old(db).workspaces@.len());
        assert(after.last() == final(db).workspaces@.last()@);
    }
}

/// A listing of workspaces is the oldest first, all of them, each once.
pub proof fn workspaces_are_listed_by_age(
    db: Database,
    r: Vec<WorkspaceListEntry>,
    i: int,
    j: int,
)
    requires
        call_ensures(Database::list_workspaces_with_counts, (&db,), r),
        0 <= i < j < r@.len(),
    ensures
        r@.len() == db.workspaces@.len(),
        r@[i].workspace.created_at <= r@[j].workspace.created_at,
{
    let list = entries_view(r@);
    assert(list.len() == r@.len());
    assert(list[i].0 == r@[i].workspace@);
    assert(list[j].0 == r@[j].workspace@);
    list.to_multiset_ensures();
    super::counted(db.workspaces@, db.assignments@).to_multiset_ensures();
}

/// A listing of a workspace's memory is in the order of its keys and shows
/// only what lies under the prefix.
pub proof fn memory_is_listed_by_key(
    db: Database,
    ws: &str,
    prefix: &str,
    r: Vec<MemoryListItem>,
    i: int,
    j: int,
)
    requires
        db.memory_holds(),
        call_ensures(Database::memory_list_prefix, (&db, ws, Some(prefix)), r),
        0 <= i < j < r@.len(),
    ensures
        crate::order::text_le(r@[i].key@, r@[j].key@),
        r@[i].key@ != r@[j].key@,
        under_prefix(r@[i].key@, Some(prefix@)),
        stored(db.memory@, ws@, r@[i].key@) matches Some(e) && e.version == r@[i].version
            && e.value.len() == r@[i].value_size,
{
    assert(lists(r@[i], db.memory@, ws@));
}

/// The size and version of an entry are those of what is stored.
pub proof fn entries_are_measured(db: Database, ws: &str, key: &str, r: (u64, usize))
    requires
        db.memory_holds(),
        call_ensures(Database::memory_current_version_and_size, (&db, ws, key), r),
    ensures
        stored(db.memory@, ws@, key@) is None ==> r.0 == 0 && r.1 == 0,
        stored(db.memory@, ws@, key@) matches Some(e) ==> r.0 == e.version && r.1 == e.value.len(),
{
}

/// The federations of a workspace are listed the oldest first, and all of
/// them by workspace and peer.
pub proof fn federations_are_listed_in_order(
    db: Database,
    ws: &str,
    of_one: Vec<WorkspaceFederation>,
    all: Vec<WorkspaceFederation>,
    i: int,
    j: int,
)
    requires
        call_ensures(Database::list_workspace_federations_for, (&db, ws), of_one),
        call_ensures(Database::list_workspace_federations, (&db,), all),
        0 <= i < j,
    ensures
        j < of_one@.len() ==> of_one@[i].created_at <= of_one@[j].created_at,
        j < all@.len() ==> crate::order::text_le(all@[i].workspace_id@, all@[j].workspace_id@),
        j < all@.len() && all@[i].workspace_id@ == all@[j].workspace_id@ ==> crate::order::text_le(
            all@[i].peer_id@,
            all@[j].peer_id@,
        ),
{
    let one = federations_view(of_one@);
    let every = federations_view(all@);
    if j < of_one@.len() {
        assert(one[i] == of_one@[i]@);
        assert(one[j] == of_one@[j]@);
    }
    if j < all@.len() {
        assert(every[i] == all@[i]@);
        assert(every[j] == all@[j]@);
        crate::order::text_le_reflexive(all@[i].workspace_id@);
    }
}

/// A workspace is found by its id, as it is stored.
pub proof fn workspaces_are_found_by_id(db: Database, id: &str, r: Option<Workspace>, i: int)
    requires
        db.workspaces_wf(),
        call_ensures(Database::get_workspace, (&db, id), r),
        0 <= i < db.workspaces@.len(),
    ensures
        db.workspaces@[i].id@ == id@ ==> (r matches Some(w) && w@ == db.workspaces@[i]@),
        db.workspaces@[i].id@ != id@ ==> (r matches Some(w) ==> w@ != db.workspaces@[i]@),
        r matches Some(w) ==> w.id@ == id@,
{
    let rows = db.workspaces@;
    if rows[i].id@ == id@ {
        assert forall|j: int| i < j < rows.len() implies (#[trigger] rows[j]).id@ != id@ by {
            assert(super::distinct(rows[i]@, rows[j]@));
        }
        super::lemma_workspace_at(rows, i, id@);
    }
    lemma_found_has_id(rows, id@);
}

proof fn lemma_found_has_id(rows: Seq<Workspace>, id: Seq<char>)
    ensures
        workspace_at(rows, id) matches Some(w) ==> w.id == id,
    decreases rows.len(),
{
    if rows.len() > 0 && rows.last().id@ != id {
        lemma_found_has_id(rows.drop_last(), id);
    }
}

/// A shadow is found by its home, and what is not its shadow is not.
pub proof fn shadows_are_found_by_home(
    db: Database,
    daemon: &str,
    home: &str,
    r: Option<String>,
    i: int,
)
    requires
        call_ensures(Database::find_shadow_workspace, (&db, daemon, home), r),
        0 <= i < db.workspaces@.len(),
    ensures
        db.workspaces@[i].kind == WorkspaceKind::Shadow && opt_text(
            db.workspaces@[i].home_daemon_id,
        ) == Some(daemon@) && opt_text(db.workspaces@[i].home_workspace_id) == Some(home@)
            ==> r is Some,
        r matches Some(id) ==> exists|k: int|
            0 <= k < db.workspaces@.len() && (#[trigger] db.workspaces@[k]).id@ == id@
                && db.workspaces@[k].kind == WorkspaceKind::Shadow && opt_text(
                db.workspaces@[k].home_daemon_id,
            ) == Some(daemon@) && opt_text(db.workspaces@[k].home_workspace_id) == Some(home@),
{
    let w = db.workspaces@[i];
    assert(w@.kind == w.kind);
}

/// A delivered event is shipped no more, and every other one stays.
pub proof fn delivered_events_are_gone(db: &mut Database, id: &str, i: int)
    requires
        call_ensures(Database::workspace_event_mark_delivered, (db, id), ()),
    ensures
        0 <= i < final(db).outbox@.len() ==> final(db).outbox@[i].id@ != id@,
        0 <= i < old(db).outbox@.len() && old(db).outbox@[i].id@ != id@ ==> outbox_rows(
            final(db).outbox@,
        ).contains(old(db).outbox@[i]@),
        final(db).counters == old(db).counters,
{
    let after = outbox_rows(final(db).outbox@);
    let before = outbox_rows(old(db).outbox@);
    assert(after.len() == final(db).outbox@.len());
    lemma_row_is_gone(before, id@);
    if 0 <= i < final(db).outbox@.len() {
        assert(after[i] == final(db).outbox@[i]@);
    }
    if 0 <= i < old(db).outbox@.len() {
        assert(before[i] == old(db).outbox@[i]@);
    }
}

proof fn lemma_row_is_gone(rows: Seq<OutboxRowView>, id: Seq<char>)
    ensures
        forall|i: int|
            0 <= i < without_row(rows, id).len() ==> (#[trigger] without_row(rows, id)[i]).id != id,
        forall|i: int|
            0 <= i < rows.len() && (#[trigger] rows[i]).id != id ==> without_row(rows, id).contains(
                rows[i],
            ),
    decreases rows.len(),
{
    if rows.len() > 0 {
        let init = rows.drop_last();
        let kept = without_row(init, id);
        lemma_row_is_gone(init, id);
        assert forall|i: int| 0 <= i < rows.len() && (#[trigger] rows[i]).id != id implies
            without_row(rows, id).contains(rows[i]) by {
            if i < init.len() {
                assert(init[i] == rows[i]);
                let k = choose|k: int| 0 <= k < kept.len() && kept[k] == rows[i];
                assert(without_row(rows, id)[k] == rows[i]);
            } else {
                assert(without_row(rows, id)[kept.len() as int] == rows[i]);
            }
        }
    }
}

/// A copy of a workspace's memory holds what the first one held, as new, and
/// overwrites nothing.
pub proof fn copies_hold_what_was_held(
    db: &mut Database,
    from: &str,
    to: &str,
    now: i64,
    n: usize,
    ws: Seq<char>,
    key: Seq<char>,
)
    requires
        old(db).memory_holds(),
        call_ensures(Database::memory_copy_workspace, (db, from, to, now), n),
    ensures
        stored(old(db).memory@, to@, key) is None ==> match stored(old(db).memory@, from@, key) {
            Some(e) => stored(final(db).memory@, to@, key) matches Some(c) && c.value == e.value
                && c.updated_by == e.updated_by && c.version == 1 && c.updated_at == now,
            None => stored(final(db).memory@, to@, key) is None,
        },
        stored(old(db).memory@, to@, key) is Some ==> stored(final(db).memory@, to@, key) == stored(
            old(db).memory@,
            to@,
            key,
        ),
        ws != to@ ==> stored(final(db).memory@, ws, key) == stored(old(db).memory@, ws, key),
        final(db).workspaces == old(db).workspaces,
{
}

} // verus!
