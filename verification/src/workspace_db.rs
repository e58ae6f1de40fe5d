//! The tables behind workspaces: the workspaces themselves, who is assigned to
//! them, their shared memory, and what goes to and comes from other daemons.

use crate::text::{copy_opt, opt_text, own, same};
use crate::types::AgentState;
use vstd::prelude::*;
use vstd::string::*;

pub mod events;
pub mod federation;
pub mod memory;
pub mod row_laws;

verus! {

/// Lifecycle state of a workspace.
#[derive(Clone, Copy, Debug, PartialEq, Eq, Structural)]
pub enum WorkspaceState {
    Active,
    Destroying,
}

/// Whether a workspace has its worktree here, or mirrors one of another
/// daemon.
#[derive(Clone, Copy, Debug, PartialEq, Eq, Structural)]
pub enum WorkspaceKind {
    Local,
    Shadow,
}

/// A workspace.
#[derive(Debug)]
pub struct Workspace {
    pub id: String,
    pub path: String,
    pub repo_path: String,
    pub branch: String,
    pub state: WorkspaceState,
    pub created_at: i64,
    pub kind: WorkspaceKind,
    pub home_daemon_id: Option<String>,
    pub home_workspace_id: Option<String>,
}

/// What a [`Workspace`] holds.
#[verifier::ext_equal]
pub ghost struct WorkspaceView {
    pub id: Seq<char>,
    pub path: Seq<char>,
    pub repo_path: Seq<char>,
    pub branch: Seq<char>,
    pub state: WorkspaceState,
    pub created_at: i64,
    pub kind: WorkspaceKind,
    pub home_daemon_id: Option<Seq<char>>,
    pub home_workspace_id: Option<Seq<char>>,
}

impl View for Workspace {
    type V = WorkspaceView;

    open spec fn view(&self) -> WorkspaceView {
        WorkspaceView {
            id: self.id@,
            path: self.path@,
            repo_path: self.repo_path@,
            branch: self.branch@,
            state: self.state,
            created_at: self.created_at,
            kind: self.kind,
            home_daemon_id: opt_text(self.home_daemon_id),
            home_workspace_id: opt_text(self.home_workspace_id),
        }
    }
}

impl Workspace {
    /// A copy of the row.
    pub fn copy(&self) -> (r: Workspace)
        ensures
            r@ == self@,
    {
        Workspace {
            id: self.id.clone(),
            path: self.path.clone(),
            repo_path: self.repo_path.clone(),
            branch: self.branch.clone(),
            state: self.state,
            created_at: self.created_at,
            kind: self.kind,
            home_daemon_id: copy_opt(&self.home_daemon_id),
            home_workspace_id: copy_opt(&self.home_workspace_id),
        }
    }
}

/// What each workspace of a list holds.
pub open spec fn workspaces_view(rows: Seq<Workspace>) -> Seq<WorkspaceView> {
    rows.map_values(|w: Workspace| w@)
}

/// An agent, as far as workspaces look at it.
#[derive(Debug)]
pub struct AgentRow {
    pub id: String,
    pub state: AgentState,
    pub workspace_id: Option<String>,
}

/// An agent's assignment to a workspace.
#[derive(Debug)]
pub struct Assignment {
    pub workspace_id: String,
    pub agent_id: String,
    pub assigned_at: i64,
}

/// A kind as a row names it. What is not known to be a shadow is local.
pub fn kind_of_row(s: &str) -> (k: WorkspaceKind)
    ensures
        k == (if s@ == "Shadow"@ {
            WorkspaceKind::Shadow
        } else {
            WorkspaceKind::Local
        }),
{
    if same(s, "Shadow") {
        WorkspaceKind::Shadow
    } else {
        WorkspaceKind::Local
    }
}

/// A version or a size as a row holds it. None is below 0.
pub fn count_of_row(n: i64) -> (r: u64)
    ensures
        r == (if n > 0 {
            n as int
        } else {
            0
        }),
{
    if n > 0 {
        n as u64
    } else {
        0
    }
}

/// The tables.
#[derive(Debug)]
pub struct Database {
    pub workspaces: Vec<Workspace>,
    pub agents: Vec<AgentRow>,
    pub assignments: Vec<Assignment>,
    pub memory: Vec<memory::MemoryRow>,
    pub federations: Vec<federation::WorkspaceFederation>,
    pub outbox: Vec<events::OutboxRow>,
    pub inbox: Vec<events::InboxRow>,
    pub counters: Vec<events::CounterRow>,
}

/// Workspaces, and the rows that belong to one of them.
#[verifier::ext_equal]
pub ghost struct Owned {
    pub workspaces: Seq<WorkspaceView>,
    pub assignments: Seq<Assignment>,
    pub memory: Seq<memory::MemoryRow>,
    pub federations: Seq<federation::WorkspaceFederation>,
}

/// The rows but for a workspace and what belongs to it.
pub open spec fn owned_but(rows: Owned, id: Seq<char>) -> Owned {
    Owned {
        workspaces: without_workspace(rows.workspaces, id),
        assignments: assignments_but(rows.assignments, id),
        memory: memory::memory_but(rows.memory, id),
        federations: federation::federations_but(rows.federations, id),
    }
}

/// Whether two workspaces could stand in one table: neither their ids nor
/// their paths are the same.
pub open spec fn distinct(a: WorkspaceView, b: WorkspaceView) -> bool {
    a.id != b.id && a.path != b.path
}

impl Database {
    /// Whether no two workspaces have the same id or path.
    pub open spec fn workspaces_wf(self) -> bool {
        forall|i: int, j: int|
            0 <= i < j < self.workspaces@.len() ==> distinct(
                (#[trigger] self.workspaces@[i])@,
                (#[trigger] self.workspaces@[j])@,
            )
    }

    /// Whether two databases differ at most in their workspaces.
    pub open spec fn same_but_workspaces(self, other: Database) -> bool {
        &&& self.agents == other.agents
        &&& self.assignments == other.assignments
        &&& self.memory == other.memory
        &&& self.federations == other.federations
        &&& self.outbox == other.outbox
        &&& self.inbox == other.inbox
        &&& self.counters == other.counters
    }

    /// The workspaces and what belongs to them.
    pub open spec fn owned(self) -> Owned {
        Owned {
            workspaces: workspaces_view(self.workspaces@),
            assignments: self.assignments@,
            memory: self.memory@,
            federations: self.federations@,
        }
    }

    /// Whether two databases differ at most in their workspaces and in what
    /// belongs to them.
    pub open spec fn same_but_owned(self, other: Database) -> bool {
        &&& self.agents == other.agents
        &&& self.outbox == other.outbox
        &&& self.inbox == other.inbox
        &&& self.counters == other.counters
    }

    /// Tables without rows.
    pub fn new() -> (d: Database)
        ensures
            d.workspaces@.len() == 0,
            d.agents@.len() == 0,
            d.assignments@.len() == 0,
            d.memory@.len() == 0,
            d.federations@.len() == 0,
            d.outbox@.len() == 0,
            d.inbox@.len() == 0,
            d.counters@.len() == 0,
            d.workspaces_wf(),
    {
        Database {
            workspaces: Vec::new(),
            agents: Vec::new(),
            assignments: Vec::new(),
            memory: Vec::new(),
            federations: Vec::new(),
            outbox: Vec::new(),
            inbox: Vec::new(),
            counters: Vec::new(),
        }
    }
}

/// The workspace with an id.
pub open spec fn workspace_at(rows: Seq<Workspace>, id: Seq<char>) -> Option<WorkspaceView>
    decreases rows.len(),
{
    if rows.len() == 0 {
        None
    } else if rows.last().id@ == id {
        Some(rows.last()@)
    } else {
        workspace_at(rows.drop_last(), id)
    }
}

proof fn lemma_workspace_at(rows: Seq<Workspace>, i: int, id: Seq<char>)
    requires
        0 <= i < rows.len(),
        rows[i].id@ == id,
        forall|j: int| i < j < rows.len() ==> (#[trigger] rows[j]).id@ != id,
    ensures
        workspace_at(rows, id) == Some(rows[i]@),
    decreases rows.len(),
{
    if i < rows.len() - 1 {
        assert(rows.last() == rows[rows.len() - 1]);
        lemma_workspace_at(rows.drop_last(), i, id);
    }
}

proof fn lemma_no_workspace(rows: Seq<Workspace>, id: Seq<char>)
    requires
        forall|j: int| 0 <= j < rows.len() ==> (#[trigger] rows[j]).id@ != id,
    ensures
        workspace_at(rows, id) is None,
    decreases rows.len(),
{
    if rows.len() > 0 {
        assert(rows.last() == rows[rows.len() - 1]);
        lemma_no_workspace(rows.drop_last(), id);
    }
}

/// The rows with the state of one workspace changed.
pub open spec fn with_state(rows: Seq<WorkspaceView>, id: Seq<char>, state: WorkspaceState) -> Seq<
    WorkspaceView,
> {
    rows.map_values(
        |w: WorkspaceView|
            if w.id == id {
                WorkspaceView { state, ..w }
            } else {
                w
            },
    )
}

/// Whether an assignment is not to a workspace.
pub open spec fn not_of(ws: Seq<char>) -> spec_fn(Assignment) -> bool {
    |a: Assignment| a.workspace_id@ != ws
}

/// The assignments but for one workspace's.
pub open spec fn assignments_but(rows: Seq<Assignment>, ws: Seq<char>) -> Seq<Assignment> {
    rows.filter(not_of(ws))
}

/// How one more row changes what a filter keeps.
pub(crate) proof fn lemma_filter_step<A>(s: Seq<A>, keep: spec_fn(A) -> bool, k: int)
    requires
        0 <= k < s.len(),
    ensures
        s.take(k + 1).filter(keep) == (if keep(s[k]) {
            s.take(k).filter(keep).push(s[k])
        } else {
            s.take(k).filter(keep)
        }),
{
    reveal(Seq::filter);
    assert(s.take(k + 1).drop_last() =~= s.take(k));
    assert(s.take(k + 1).last() == s[k]);
}

fn drop_assignments(rows: &mut Vec<Assignment>, ws: &str)
    ensures
        final(rows)@ == assignments_but(old(rows)@, ws@),
{
    let ghost before = rows@;
    let ghost keep = not_of(ws@);
    let ghost mut k: int = 0;
    let mut i: usize = 0;
    proof {
        reveal(Seq::filter);
        assert(before.take(0) =~= Seq::<Assignment>::empty());
        assert(before.take(0).filter(keep) + before.skip(0) =~= before);
    }
    while i < rows.len()
        invariant
            keep == not_of(ws@),
            0 <= k <= before.len(),
            i == before.take(k).filter(keep).len(),
            rows@ == before.take(k).filter(keep) + before.skip(k),
        decreases rows.len() - i,
    {
        proof {
            lemma_filter_step(before, keep, k);
            assert(rows@[i as int] == before[k]);
        }
        if same(rows[i].workspace_id.as_str(), ws) {
            rows.remove(i);
        } else {
            i = i + 1;
        }
        proof {
            k = k + 1;
            assert(rows@ =~= before.take(k).filter(keep) + before.skip(k));
        }
    }
    proof {
        assert(before.take(k) =~= before);
        assert(rows@ =~= before.filter(keep));
    }
}

/// The rows but for one workspace's.
pub open spec fn without_workspace(rows: Seq<WorkspaceView>, id: Seq<char>) -> Seq<WorkspaceView>
    decreases rows.len(),
{
    if rows.len() == 0 {
        seq![]
    } else {
        let before = without_workspace(rows.drop_last(), id);
        if rows.last().id == id {
            before
        } else {
            before.push(rows.last())
        }
    }
}

proof fn lemma_without_is_without(rows: Seq<WorkspaceView>, id: Seq<char>)
    ensures
        forall|i: int|
            0 <= i < without_workspace(rows, id).len() ==> (#[trigger] without_workspace(
                rows,
                id,
            )[i]).id != id,
    decreases rows.len(),
{
    if rows.len() > 0 {
        lemma_without_is_without(rows.drop_last(), id);
    }
}

proof fn lemma_without_workspace(rows: Seq<WorkspaceView>, id: Seq<char>)
    requires
        forall|i: int, j: int|
            0 <= i < j < rows.len() ==> distinct(#[trigger] rows[i], #[trigger] rows[j]),
    ensures
        ({
            let kept = without_workspace(rows, id);
            &&& forall|i: int, j: int|
                0 <= i < j < kept.len() ==> distinct(#[trigger] kept[i], #[trigger] kept[j])
            &&& forall|i: int|
                0 <= i < kept.len() ==> exists|j: int|
                    0 <= j < rows.len() && #[trigger] rows[j] == #[trigger] kept[i]
        }),
    decreases rows.len(),
{
    if rows.len() > 0 {
        let init = rows.drop_last();
        lemma_without_workspace(init, id);
        let before = without_workspace(init, id);
        let kept = without_workspace(rows, id);
        assert forall|i: int| 0 <= i < kept.len() implies exists|j: int|
            0 <= j < rows.len() && #[trigger] rows[j] == #[trigger] kept[i] by {
            if i < before.len() {
                let j = choose|j: int| 0 <= j < init.len() && #[trigger] init[j] == before[i];
                assert(rows[j] == kept[i]);
            } else {
                assert(rows[rows.len() - 1] == kept[i]);
            }
        }
        assert forall|i: int, j: int| 0 <= i < j < kept.len() implies distinct(
            #[trigger] kept[i],
            #[trigger] kept[j],
        ) by {
            let a = choose|a: int| 0 <= a < init.len() && #[trigger] init[a] == before[i];
            assert(rows[a] == kept[i]);
            if j >= before.len() {
                assert(kept[j] == rows[rows.len() - 1]);
            }
        }
    }
}

/// What a listing says of a workspace on disk.
#[derive(Debug)]
pub struct WorkspacePath {
    pub id: String,
    pub path: String,
    pub state: WorkspaceState,
}

/// The workspaces with a worktree here.
pub open spec fn local_paths(rows: Seq<Workspace>) -> Seq<(Seq<char>, Seq<char>, WorkspaceState)>
    decreases rows.len(),
{
    if rows.len() == 0 {
        seq![]
    } else {
        let before = local_paths(rows.drop_last());
        if rows.last().kind == WorkspaceKind::Local {
            before.push((rows.last().id@, rows.last().path@, rows.last().state))
        } else {
            before
        }
    }
}

/// What each entry of a listing says.
pub open spec fn paths_view(list: Seq<WorkspacePath>) -> Seq<
    (Seq<char>, Seq<char>, WorkspaceState),
> {
    list.map_values(|p: WorkspacePath| (p.id@, p.path@, p.state))
}

/// How many agents are assigned to a workspace.
pub open spec fn assigned_count(rows: Seq<Assignment>, workspace_id: Seq<char>) -> nat
    decreases rows.len(),
{
    if rows.len() == 0 {
        0
    } else {
        assigned_count(rows.drop_last(), workspace_id) + (if rows.last().workspace_id@
            == workspace_id {
            1nat
        } else {
            0nat
        })
    }
}

/// What a listing says of a workspace.
#[derive(Debug)]
pub struct WorkspaceListEntry {
    pub workspace: Workspace,
    pub agent_count: usize,
}

/// What a [`WorkspaceListEntry`] says.
pub open spec fn entry_view(e: WorkspaceListEntry) -> (WorkspaceView, nat) {
    (e.workspace@, e.agent_count as nat)
}

/// What each entry of a listing says.
pub open spec fn entries_view(list: Seq<WorkspaceListEntry>) -> Seq<(WorkspaceView, nat)> {
    list.map_values(|e: WorkspaceListEntry| entry_view(e))
}

/// Whether a listing shows the oldest first.
pub open spec fn oldest_first(list: Seq<(WorkspaceView, nat)>) -> bool {
    forall|i: int, j: int|
        0 <= i < j < list.len() ==> (#[trigger] list[i]).0.created_at <= (
        #[trigger] list[j]).0.created_at
}

/// Each workspace with the number of agents assigned to it.
pub open spec fn counted(rows: Seq<Workspace>, assignments: Seq<Assignment>) -> Seq<
    (WorkspaceView, nat),
> {
    rows.map_values(|w: Workspace| (w@, assigned_count(assignments, w.id@)))
}

/// Puts an entry where it belongs.
fn place_entry(list: &mut Vec<WorkspaceListEntry>, entry: WorkspaceListEntry)
    requires
        oldest_first(entries_view(old(list)@)),
    ensures
        oldest_first(entries_view(final(list)@)),
        entries_view(final(list)@).to_multiset() == entries_view(old(list)@).to_multiset().insert(
            entry_view(entry),
        ),
{
    let ghost before = entries_view(list@);
    let ghost x = entry_view(entry);
    let mut k: usize = 0;
    while k < list.len() && list[k].workspace.created_at <= entry.workspace.created_at
        invariant
            before == entries_view(list@),
            x == entry_view(entry),
            k <= before.len(),
            forall|i: int| 0 <= i < k ==> (#[trigger] before[i]).0.created_at <= x.0.created_at,
        decreases before.len() - k,
    {
        assert(before[k as int] == entry_view(list@[k as int]));
        k = k + 1;
    }
    proof {
        if k < before.len() {
            assert(before[k as int] == entry_view(list@[k as int]));
        }
    }
    list.insert(k, entry);
    proof {
        let after = entries_view(list@);
        assert(after =~= before.insert(k as int, x));
        vstd::seq_lib::to_multiset_insert(before, k as int, x);
    }
}

/// The path of a shadow, which has no directory of its own.
pub open spec fn shadow_path(home_daemon_id: Seq<char>, home_workspace_id: Seq<char>) -> Seq<char> {
    "shadow://"@ + home_daemon_id + "/"@ + home_workspace_id
}

impl Database {
    /// Adds a workspace. It is refused where its id or its path is taken.
    pub fn insert_workspace(&mut self, ws: Workspace) -> (r: Result<(), &'static str>)
        requires
            old(self).workspaces_wf(),
        ensures
            final(self).workspaces_wf(),
            final(self).same_but_workspaces(*old(self)),
            r is Ok <==> forall|i: int|
                0 <= i < old(self).workspaces@.len() ==> distinct(
                    (#[trigger] old(self).workspaces@[i])@,
                    ws@,
                ),
            r is Ok ==> final(self).workspaces@ == old(self).workspaces@.push(ws),
            r is Err ==> final(self).workspaces == old(self).workspaces,
    {
        let mut i: usize = 0;
        while i < self.workspaces.len()
            invariant
                i <= self.workspaces@.len(),
                *self == *old(self),
                self.workspaces_wf(),
                forall|j: int|
                    0 <= j < i ==> distinct((#[trigger] self.workspaces@[j])@, ws@),
            decreases self.workspaces@.len() - i,
        {
            let w = &self.workspaces[i];
            if same(w.id.as_str(), ws.id.as_str()) || same(w.path.as_str(), ws.path.as_str()) {
                assert(!distinct(self.workspaces@[i as int]@, ws@));
                return Err("workspace_taken");
            }
            i = i + 1;
        }
        self.workspaces.push(ws);
        Ok(())
    }

    /// Adds a workspace that mirrors one of another daemon.
    pub fn insert_shadow_workspace(
        &mut self,
        local_id: &str,
        home_daemon_id: &str,
        home_workspace_id: &str,
        branch: &str,
        now: i64,
    ) -> (r: Result<(), &'static str>)
        requires
            old(self).workspaces_wf(),
        ensures
            final(self).workspaces_wf(),
            final(self).same_but_workspaces(*old(self)),
            ({
                let row = WorkspaceView {
                    id: local_id@,
                    path: shadow_path(home_daemon_id@, home_workspace_id@),
                    repo_path: ""@,
                    branch: branch@,
                    state: WorkspaceState::Active,
                    created_at: now,
                    kind: WorkspaceKind::Shadow,
                    home_daemon_id: Some(home_daemon_id@),
                    home_workspace_id: Some(home_workspace_id@),
                };
                let before = workspaces_view(old(self).workspaces@);
                &&& r is Ok <==> forall|i: int|
                    0 <= i < old(self).workspaces@.len() ==> distinct(
                        (#[trigger] old(self).workspaces@[i])@,
                        row,
                    )
                &&& r is Ok ==> workspaces_view(final(self).workspaces@) == before.push(row)
                &&& r is Err ==> final(self).workspaces == old(self).workspaces
            }),
    {
        let mut path = own("shadow://");
        path.append(home_daemon_id);
        path.append("/");
        path.append(home_workspace_id);
        let ws = Workspace {
            id: own(local_id),
            path,
            repo_path: own(""),
            branch: own(branch),
            state: WorkspaceState::Active,
            created_at: now,
            kind: WorkspaceKind::Shadow,
            home_daemon_id: Some(own(home_daemon_id)),
            home_workspace_id: Some(own(home_workspace_id)),
        };
        let ghost before = workspaces_view(self.workspaces@);
        let ghost row = ws@;
        let r = self.insert_workspace(ws);
        proof {
            if r is Ok {
                assert(workspaces_view(self.workspaces@) =~= before.push(row));
            }
        }
        r
    }

    /// The workspace with an id.
    pub fn get_workspace(&self, id: &str) -> (r: Option<Workspace>)
        requires
            self.workspaces_wf(),
        ensures
            match r {
                Some(w) => workspace_at(self.workspaces@, id@) == Some(w@),
                None => workspace_at(self.workspaces@, id@) is None,
            },
    {
        let mut i: usize = 0;
        while i < self.workspaces.len()
            invariant
                self.workspaces_wf(),
                i <= self.workspaces@.len(),
                forall|j: int| 0 <= j < i ==> (#[trigger] self.workspaces@[j]).id@ != id@,
            decreases self.workspaces@.len() - i,
        {
            if same(self.workspaces[i].id.as_str(), id) {
                proof {
                    assert forall|j: int| i < j < self.workspaces@.len() implies (
                    #[trigger] self.workspaces@[j]).id@ != id@ by {
                        assert(distinct(self.workspaces@[i as int]@, self.workspaces@[j]@));
                    }
                    lemma_workspace_at(self.workspaces@, i as int, id@);
                }
                return Some(self.workspaces[i].copy());
            }
            i = i + 1;
        }
        proof {
            lemma_no_workspace(self.workspaces@, id@);
        }
        None
    }

    /// Changes the state of a workspace.
    pub fn update_workspace_state(&mut self, id: &str, state: WorkspaceState)
        requires
            old(self).workspaces_wf(),
        ensures
            final(self).workspaces_wf(),
            final(self).same_but_workspaces(*old(self)),
            workspaces_view(final(self).workspaces@) == with_state(
                workspaces_view(old(self).workspaces@),
                id@,
                state,
            ),
    {
        let ghost before = self.workspaces@;
        let mut i: usize = 0;
        while i < self.workspaces.len()
            invariant
                i <= self.workspaces@.len(),
                self.workspaces@.len() == before.len(),
                self.same_but_workspaces(*old(self)),
                forall|j: int|
                    0 <= j < i ==> (#[trigger] self.workspaces@[j])@ == (if before[j].id@ == id@ {
                        WorkspaceView { state, ..before[j]@ }
                    } else {
                        before[j]@
                    }),
                forall|j: int| i <= j < before.len() ==> #[trigger] self.workspaces@[j] == before[j],
            decreases self.workspaces@.len() - i,
        {
            if same(self.workspaces[i].id.as_str(), id) {
                let mut w = self.workspaces[i].copy();
                w.state = state;
                self.workspaces.set(i, w);
            }
            i = i + 1;
        }
        proof {
            assert(workspaces_view(self.workspaces@) =~= with_state(
                workspaces_view(before),
                id@,
                state,
            ));
            assert forall|i: int, j: int| 0 <= i < j < self.workspaces@.len() implies distinct(
                (#[trigger] self.workspaces@[i])@,
                (#[trigger] self.workspaces@[j])@,
            ) by {
                assert(distinct(before[i]@, before[j]@));
            }
        }
    }

    /// Removes a workspace, and with it who is assigned to it, what it
    /// remembers and whom it is federated with.
    pub fn delete_workspace_row(&mut self, id: &str)
        requires
            old(self).workspaces_wf(),
        ensures
            final(self).workspaces_wf(),
            final(self).same_but_owned(*old(self)),
            final(self).owned() == owned_but(old(self).owned(), id@),
            old(self).memory_holds() ==> final(self).memory_holds(),
            old(self).federations_hold() ==> final(self).federations_hold(),
    {
        let ghost rows = workspaces_view(self.workspaces@);
        let mut kept: Vec<Workspace> = Vec::new();
        assert(workspaces_view(kept@) =~= Seq::<WorkspaceView>::empty());
        for i in 0..self.workspaces.len()
            invariant
                self.workspaces == old(self).workspaces,
                rows == workspaces_view(self.workspaces@),
                self.same_but_workspaces(*old(self)),
                workspaces_view(kept@) == without_workspace(rows.take(i as int), id@),
        {
            let ghost before = workspaces_view(kept@);
            proof {
                assert(rows.take(i + 1).drop_last() =~= rows.take(i as int));
                assert(rows.take(i + 1).last() == self.workspaces@[i as int]@);
            }
            if !same(self.workspaces[i].id.as_str(), id) {
                let w = self.workspaces[i].copy();
                let ghost wv = w@;
                kept.push(w);
                assert(workspaces_view(kept@) =~= before.push(wv));
            }
        }
        proof {
            assert(rows.take(rows.len() as int) =~= rows);
            assert forall|i: int, j: int| 0 <= i < j < rows.len() implies distinct(
                #[trigger] rows[i],
                #[trigger] rows[j],
            ) by {
                assert(distinct(self.workspaces@[i]@, self.workspaces@[j]@));
            }
            lemma_without_workspace(rows, id@);
        }
        self.workspaces = kept;
        drop_assignments(&mut self.assignments, id);
        memory::drop_memory(&mut self.memory, id);
        federation::drop_federations(&mut self.federations, id);
        proof {
            let now = workspaces_view(self.workspaces@);
            assert forall|i: int, j: int| 0 <= i < j < self.workspaces@.len() implies distinct(
                (#[trigger] self.workspaces@[i])@,
                (#[trigger] self.workspaces@[j])@,
            ) by {
                assert(distinct(now[i], now[j]));
            }
        }
    }

    /// The workspaces with a worktree here. A shadow has none, and must not be
    /// taken for one whose worktree is gone.
    pub fn list_workspace_paths(&self) -> (r: Vec<WorkspacePath>)
        ensures
            paths_view(r@) == local_paths(self.workspaces@),
    {
        let ghost rows = self.workspaces@;
        let mut r: Vec<WorkspacePath> = Vec::new();
        assert(paths_view(r@) =~= local_paths(rows.take(0)));
        for i in 0..self.workspaces.len()
            invariant
                rows == self.workspaces@,
                paths_view(r@) == local_paths(rows.take(i as int)),
        {
            let w = &self.workspaces[i];
            let ghost before = paths_view(r@);
            proof {
                assert(rows.take(i + 1).drop_last() =~= rows.take(i as int));
                assert(rows.take(i + 1).last() == rows[i as int]);
            }
            if w.kind == WorkspaceKind::Local {
                r.push(WorkspacePath { id: w.id.clone(), path: w.path.clone(), state: w.state });
                assert(paths_view(r@) =~= before.push((w.id@, w.path@, w.state)));
            }
        }
        assert(rows.take(rows.len() as int) =~= rows);
        r
    }

    /// How many agents are assigned to a workspace.
    pub fn assigned_agents(&self, workspace_id: &str) -> (n: usize)
        ensures
            n == assigned_count(self.assignments@, workspace_id@),
    {
        let ghost rows = self.assignments@;
        let mut n: usize = 0;
        for i in 0..self.assignments.len()
            invariant
                rows == self.assignments@,
                n == assigned_count(rows.take(i as int), workspace_id@),
                n <= i,
        {
            proof {
                assert(rows.take(i + 1).drop_last() =~= rows.take(i as int));
                assert(rows.take(i + 1).last() == rows[i as int]);
            }
            if same(self.assignments[i].workspace_id.as_str(), workspace_id) {
                n = n + 1;
            }
        }
        assert(rows.take(rows.len() as int) =~= rows);
        n
    }

    /// Every workspace with the number of agents assigned to it, the oldest
    /// first.
    pub fn list_workspaces_with_counts(&self) -> (r: Vec<WorkspaceListEntry>)
        ensures
            oldest_first(entries_view(r@)),
            entries_view(r@).to_multiset() == counted(
                self.workspaces@,
                self.assignments@,
            ).to_multiset(),
    {
        let ghost all = counted(self.workspaces@, self.assignments@);
        let mut r: Vec<WorkspaceListEntry> = Vec::new();
        assert(entries_view(r@) =~= all.take(0));
        for i in 0..self.workspaces.len()
            invariant
                all == counted(self.workspaces@, self.assignments@),
                oldest_first(entries_view(r@)),
                entries_view(r@).to_multiset() == all.take(i as int).to_multiset(),
        {
            let w = &self.workspaces[i];
            let entry = WorkspaceListEntry {
                workspace: w.copy(),
                agent_count: self.assigned_agents(w.id.as_str()),
            };
            proof {
                assert(all.take(i + 1) =~= all.take(i as int).push(entry_view(entry)));
                all.take(i as int).to_multiset_ensures();
            }
            place_entry(&mut r, entry);
        }
        assert(all.take(all.len() as int) =~= all);
        r
    }

    /// The local workspace that mirrors another daemon's.
    pub fn find_shadow_workspace(&self, home_daemon_id: &str, home_workspace_id: &str) -> (r: Option<
        String,
    >)
        ensures
            match r {
                Some(id) => exists|i: int|
                    0 <= i < self.workspaces@.len() && mirrors(
                        (#[trigger] self.workspaces@[i])@,
                        home_daemon_id@,
                        home_workspace_id@,
                    ) && id@ == self.workspaces@[i].id@,
                None => forall|i: int|
                    0 <= i < self.workspaces@.len() ==> !mirrors(
                        (#[trigger] self.workspaces@[i])@,
                        home_daemon_id@,
                        home_workspace_id@,
                    ),
            },
    {
        for i in 0..self.workspaces.len()
            invariant
                forall|j: int|
                    0 <= j < i ==> !mirrors(
                        (#[trigger] self.workspaces@[j])@,
                        home_daemon_id@,
                        home_workspace_id@,
                    ),
        {
            let w = &self.workspaces[i];
            let daemon_fits = match &w.home_daemon_id {
                Some(d) => same(d.as_str(), home_daemon_id),
                None => false,
            };
            let workspace_fits = match &w.home_workspace_id {
                Some(d) => same(d.as_str(), home_workspace_id),
                None => false,
            };
            if w.kind == WorkspaceKind::Shadow && daemon_fits && workspace_fits {
                assert(mirrors(
                    self.workspaces@[i as int]@,
                    home_daemon_id@,
                    home_workspace_id@,
                ));
                return Some(w.id.clone());
            }
        }
        None
    }
}

/// Whether a workspace mirrors another daemon's.
pub open spec fn mirrors(w: WorkspaceView, home_daemon_id: Seq<char>, home_workspace_id: Seq<char>) -> bool {
    w.kind == WorkspaceKind::Shadow && w.home_daemon_id == Some(home_daemon_id)
        && w.home_workspace_id == Some(home_workspace_id)
}

// ---------------------------------------------------------------------------
// Assignments
// ---------------------------------------------------------------------------

/// Whether an agent is assigned to a workspace.
pub open spec fn assigned(rows: Seq<Assignment>, workspace_id: Seq<char>, agent_id: Seq<char>) -> bool {
    exists|i: int|
        0 <= i < rows.len() && (#[trigger] rows[i]).workspace_id@ == workspace_id
            && rows[i].agent_id@ == agent_id
}

/// The agents with one agent's workspace set.
pub open spec fn moved_agent(before: AgentRow, after: AgentRow, workspace_id: Seq<char>, agent_id: Seq<char>) -> bool {
    &&& after.id@ == before.id@
    &&& after.state == before.state
    &&& opt_text(after.workspace_id) == (if before.id@ == agent_id {
        Some(workspace_id)
    } else {
        opt_text(before.workspace_id)
    })
}

/// The workspace of an agent, where it has one: that of the first row with its
/// id.
pub open spec fn workspace_of(rows: Seq<AgentRow>, agent_id: Seq<char>) -> Option<Seq<char>>
    decreases rows.len(),
{
    if rows.len() == 0 {
        None
    } else if rows[0].id@ == agent_id {
        opt_text(rows[0].workspace_id)
    } else {
        workspace_of(rows.skip(1), agent_id)
    }
}

/// The agents assigned to a workspace, each with its state.
pub open spec fn members(assignments: Seq<Assignment>, agents: Seq<AgentRow>, workspace_id: Seq<char>) -> Seq<
    (Seq<char>, AgentState),
>
    decreases assignments.len(),
{
    if assignments.len() == 0 {
        seq![]
    } else {
        let before = members(assignments.drop_last(), agents, workspace_id);
        if assignments.last().workspace_id@ == workspace_id {
            before + agents_with_id(agents, assignments.last().agent_id@)
        } else {
            before
        }
    }
}

/// The agents with an id, each with its state.
pub open spec fn agents_with_id(agents: Seq<AgentRow>, id: Seq<char>) -> Seq<
    (Seq<char>, AgentState),
>
    decreases agents.len(),
{
    if agents.len() == 0 {
        seq![]
    } else {
        let before = agents_with_id(agents.drop_last(), id);
        if agents.last().id@ == id {
            before.push((agents.last().id@, agents.last().state))
        } else {
            before
        }
    }
}

/// The characters and state of each member.
pub open spec fn members_view(list: Seq<(String, AgentState)>) -> Seq<(Seq<char>, AgentState)> {
    list.map_values(|m: (String, AgentState)| (m.0@, m.1))
}

impl Database {
    /// Assigns an agent to a workspace. To do so again changes nothing.
    pub fn insert_workspace_assignment(&mut self, workspace_id: &str, agent_id: &str, now: i64)
        ensures
            final(self).workspaces == old(self).workspaces,
            final(self).memory == old(self).memory,
            final(self).federations == old(self).federations,
            final(self).outbox == old(self).outbox,
            final(self).inbox == old(self).inbox,
            final(self).counters == old(self).counters,
            assigned(old(self).assignments@, workspace_id@, agent_id@) ==> final(self).assignments
                == old(self).assignments,
            !assigned(old(self).assignments@, workspace_id@, agent_id@) ==> {
                &&& final(self).assignments@.len() == old(self).assignments@.len() + 1
                &&& final(self).assignments@.drop_last() == old(self).assignments@
                &&& final(self).assignments@.last().workspace_id@ == workspace_id@
                &&& final(self).assignments@.last().agent_id@ == agent_id@
                &&& final(self).assignments@.last().assigned_at == now
            },
            final(self).agents@.len() == old(self).agents@.len(),
            forall|i: int|
                0 <= i < old(self).agents@.len() ==> moved_agent(
                    #[trigger] old(self).agents@[i],
                    final(self).agents@[i],
                    workspace_id@,
                    agent_id@,
                ),
    {
        let mut known = false;
        let mut i: usize = 0;
        while i < self.assignments.len()
            invariant
                i <= self.assignments@.len(),
                *self == *old(self),
                known ==> assigned(self.assignments@, workspace_id@, agent_id@),
                !known ==> forall|j: int|
                    0 <= j < i ==> !((#[trigger] self.assignments@[j]).workspace_id@
                        == workspace_id@ && self.assignments@[j].agent_id@ == agent_id@),
            decreases self.assignments@.len() - i,
        {
            let a = &self.assignments[i];
            if same(a.workspace_id.as_str(), workspace_id) && same(a.agent_id.as_str(), agent_id) {
                assert(self.assignments@[i as int].workspace_id@ == workspace_id@);
                known = true;
            }
            i = i + 1;
        }
        if !known {
            self.assignments.push(
                Assignment {
                    workspace_id: own(workspace_id),
                    agent_id: own(agent_id),
                    assigned_at: now,
                },
            );
            assert(self.assignments@.drop_last() =~= old(self).assignments@);
        }
        let ghost before = old(self).agents@;
        let mut k: usize = 0;
        while k < self.agents.len()
            invariant
                k <= self.agents@.len(),
                before == old(self).agents@,
                self.agents@.len() == before.len(),
                self.workspaces == old(self).workspaces,
                self.memory == old(self).memory,
                self.federations == old(self).federations,
                self.outbox == old(self).outbox,
                self.inbox == old(self).inbox,
                self.counters == old(self).counters,
                assigned(old(self).assignments@, workspace_id@, agent_id@) ==> self.assignments
                    == old(self).assignments,
                !assigned(old(self).assignments@, workspace_id@, agent_id@) ==> {
                    &&& self.assignments@.len() == old(self).assignments@.len() + 1
                    &&& self.assignments@.drop_last() == old(self).assignments@
                    &&& self.assignments@.last().workspace_id@ == workspace_id@
                    &&& self.assignments@.last().agent_id@ == agent_id@
                    &&& self.assignments@.last().assigned_at == now
                },
                forall|j: int|
                    0 <= j < k ==> moved_agent(
                        #[trigger] before[j],
                        self.agents@[j],
                        workspace_id@,
                        agent_id@,
                    ),
                forall|j: int| k <= j < before.len() ==> #[trigger] self.agents@[j] == before[j],
            decreases self.agents@.len() - k,
        {
            if same(self.agents[k].id.as_str(), agent_id) {
                let row = AgentRow {
                    id: self.agents[k].id.clone(),
                    state: self.agents[k].state,
                    workspace_id: Some(own(workspace_id)),
                };
                self.agents.set(k, row);
            }
            k = k + 1;
        }
    }

    /// The workspace that an agent is assigned to.
    pub fn agent_workspace_id(&self, agent_id: &str) -> (r: Option<String>)
        ensures
            opt_text(r) == workspace_of(self.agents@, agent_id@),
    {
        let ghost rows = self.agents@;
        assert(rows.skip(0) =~= rows);
        let mut i: usize = 0;
        while i < self.agents.len()
            invariant
                rows == self.agents@,
                i <= rows.len(),
                workspace_of(rows, agent_id@) == workspace_of(rows.skip(i as int), agent_id@),
            decreases rows.len() - i,
        {
            proof {
                assert(rows.skip(i as int)[0] == rows[i as int]);
                assert(rows.skip(i as int).skip(1) =~= rows.skip(i + 1));
            }
            if same(self.agents[i].id.as_str(), agent_id) {
                return copy_opt(&self.agents[i].workspace_id);
            }
            i = i + 1;
        }
        None
    }

    /// The agents assigned to a workspace, each with its state.
    pub fn list_active_assigned_agents(&self, workspace_id: &str) -> (r: Vec<(String, AgentState)>)
        ensures
            members_view(r@) == members(self.assignments@, self.agents@, workspace_id@),
    {
        let ghost rows = self.assignments@;
        let mut r: Vec<(String, AgentState)> = Vec::new();
        assert(members_view(r@) =~= members(rows.take(0), self.agents@, workspace_id@));
        for i in 0..self.assignments.len()
            invariant
                rows == self.assignments@,
                members_view(r@) == members(rows.take(i as int), self.agents@, workspace_id@),
        {
            let ghost before = members_view(r@);
            proof {
                assert(rows.take(i + 1).drop_last() =~= rows.take(i as int));
                assert(rows.take(i + 1).last() == rows[i as int]);
            }
            let a = &self.assignments[i];
            if same(a.workspace_id.as_str(), workspace_id) {
                let ghost agents = self.agents@;
                assert(before + agents_with_id(agents.take(0), a.agent_id@) =~= before);
                for k in 0..self.agents.len()
                    invariant
                        agents == self.agents@,
                        members_view(r@) == before + agents_with_id(
                            agents.take(k as int),
                            a.agent_id@,
                        ),
                {
                    let ghost so_far = members_view(r@);
                    proof {
                        assert(agents.take(k + 1).drop_last() =~= agents.take(k as int));
                        assert(agents.take(k + 1).last() == agents[k as int]);
                    }
                    if same(self.agents[k].id.as_str(), a.agent_id.as_str()) {
                        r.push((self.agents[k].id.clone(), self.agents[k].state));
                        assert(members_view(r@) =~= so_far.push(
                            (agents[k as int].id@, agents[k as int].state),
                        ));
                    }
                    assert(members_view(r@) =~= before + agents_with_id(
                        agents.take(k + 1),
                        a.agent_id@,
                    ));
                }
                assert(agents.take(agents.len() as int) =~= agents);
            }
        }
        assert(rows.take(rows.len() as int) =~= rows);
        r
    }
}

// ---------------------------------------------------------------------------
// Laws
// ---------------------------------------------------------------------------

/// A shadow never counts as a workspace on disk.
pub proof fn shadows_are_not_on_disk(rows: Seq<Workspace>)
    ensures
        forall|i: int|
            0 <= i < local_paths(rows).len() ==> exists|j: int|
                0 <= j < rows.len() && rows[j].kind == WorkspaceKind::Local && (
                #[trigger] rows[j]).id@ == (#[trigger] local_paths(rows)[i]).0,
    decreases rows.len(),
{
    if rows.len() > 0 {
        let init = rows.drop_last();
        shadows_are_not_on_disk(init);
        assert forall|i: int| 0 <= i < local_paths(rows).len() implies exists|j: int|
            0 <= j < rows.len() && rows[j].kind == WorkspaceKind::Local && (
            #[trigger] rows[j]).id@ == (#[trigger] local_paths(rows)[i]).0 by {
            if i < local_paths(init).len() {
                let j = choose|j: int|
                    0 <= j < init.len() && init[j].kind == WorkspaceKind::Local && (
                    #[trigger] init[j]).id@ == local_paths(init)[i].0;
                assert(rows[j].id@ == local_paths(rows)[i].0);
            } else {
                assert(rows[rows.len() - 1].id@ == local_paths(rows)[i].0);
            }
        }
    }
}

/// At most one workspace mirrors any one of another daemon's, where each
/// shadow has its shadow path.
pub proof fn one_shadow_per_home(db: Database, i: int, j: int, daemon: Seq<char>, home: Seq<char>)
    requires
        db.workspaces_wf(),
        0 <= i < db.workspaces@.len(),
        0 <= j < db.workspaces@.len(),
        mirrors(db.workspaces@[i]@, daemon, home),
        mirrors(db.workspaces@[j]@, daemon, home),
        db.workspaces@[i].path@ == shadow_path(daemon, home),
        db.workspaces@[j].path@ == shadow_path(daemon, home),
    ensures
        i == j,
{
    if i < j {
        assert(distinct(db.workspaces@[i]@, db.workspaces@[j]@));
    } else if j < i {
        assert(distinct(db.workspaces@[j]@, db.workspaces@[i]@));
    }
}

/// Nothing that belongs to a workspace outlives it, and what belongs to
/// others stays as it was.
pub proof fn nothing_outlives_its_workspace(rows: Owned, id: Seq<char>)
    ensures
        ({
            let left = owned_but(rows, id);
            &&& forall|i: int| 0 <= i < left.workspaces.len() ==> (#[trigger] left.workspaces[i]).id != id
            &&& forall|i: int|
                0 <= i < left.assignments.len() ==> (#[trigger] left.assignments[i]).workspace_id@ != id
            &&& forall|ws: Seq<char>, key: Seq<char>| #[trigger]
                memory::stored(left.memory, ws, key) == (if ws == id {
                    None
                } else {
                    memory::stored(rows.memory, ws, key)
                })
            &&& forall|peer: Seq<char>, ws: Seq<char>| #[trigger]
                federation::direction_of(left.federations, peer, ws) == (if ws == id {
                    None
                } else {
                    federation::direction_of(rows.federations, peer, ws)
                })
        }),
{
    let left = owned_but(rows, id);
    lemma_without_is_without(rows.workspaces, id);
    assert forall|i: int| 0 <= i < left.assignments.len() implies (
    #[trigger] left.assignments[i]).workspace_id@ != id by {
        rows.assignments.lemma_filter_pred(not_of(id), i);
    }
    assert forall|ws: Seq<char>, key: Seq<char>| #[trigger]
        memory::stored(left.memory, ws, key) == (if ws == id {
            None
        } else {
            memory::stored(rows.memory, ws, key)
        }) by {
        memory::lemma_memory_but(rows.memory, id, ws, key);
    }
    assert forall|peer: Seq<char>, ws: Seq<char>| #[trigger]
        federation::direction_of(left.federations, peer, ws) == (if ws == id {
            None
        } else {
            federation::direction_of(rows.federations, peer, ws)
        }) by {
        federation::lemma_federations_but(rows.federations, id, peer, ws);
    }
}

/// A row is the workspace of its id, and the last of them with that id.
pub proof fn rows_are_workspaces(rows: Seq<Workspace>, row: Workspace, id: Seq<char>)
    ensures
        workspace_at(Seq::<Workspace>::empty(), id) is None,
        workspace_at(rows.push(row), row.id@) == Some(row@),
        id != row.id@ ==> workspace_at(rows.push(row), id) == workspace_at(rows, id),
{
    assert(rows.push(row).drop_last() =~= rows);
}

/// A new state is that of the workspace with the id, and of no other; nothing
/// else of a workspace changes with it.
pub proof fn states_change_by_id(
    rows: Seq<WorkspaceView>,
    id: Seq<char>,
    state: WorkspaceState,
    i: int,
)
    requires
        0 <= i < rows.len(),
    ensures
        with_state(rows, id, state).len() == rows.len(),
        rows[i].id == id ==> with_state(rows, id, state)[i].state == state,
        rows[i].id != id ==> with_state(rows, id, state)[i] == rows[i],
        with_state(rows, id, state)[i].id == rows[i].id,
        with_state(rows, id, state)[i].path == rows[i].path,
        with_state(rows, id, state)[i].branch == rows[i].branch,
        with_state(rows, id, state)[i].kind == rows[i].kind,
{
}

/// Dropping a workspace drops the rows of its id and keeps the others in
/// their order.
pub proof fn others_are_kept(rows: Seq<WorkspaceView>, row: WorkspaceView, id: Seq<char>)
    ensures
        row.id == id ==> without_workspace(rows.push(row), id) == without_workspace(rows, id),
        row.id != id ==> without_workspace(rows.push(row), id) == without_workspace(rows, id).push(
            row,
        ),
        without_workspace(Seq::<WorkspaceView>::empty(), id).len() == 0,
{
    assert(rows.push(row).drop_last() =~= rows);
}

/// A local workspace is on disk at its path, and a shadow is nowhere.
pub proof fn local_workspaces_are_on_disk(rows: Seq<Workspace>, row: Workspace)
    ensures
        row.kind == WorkspaceKind::Local ==> local_paths(rows.push(row)) == local_paths(rows).push(
            (row.id@, row.path@, row.state),
        ),
        row.kind == WorkspaceKind::Shadow ==> local_paths(rows.push(row)) == local_paths(rows),
        local_paths(Seq::<Workspace>::empty()).len() == 0,
{
    assert(rows.push(row).drop_last() =~= rows);
}

/// An assignment counts for its workspace alone, and its agent is a member
/// with the state that its row has.
pub proof fn assignments_make_members(
    rows: Seq<Assignment>,
    a: Assignment,
    agents: Seq<AgentRow>,
    agent: AgentRow,
    ws: Seq<char>,
)
    ensures
        assigned_count(Seq::<Assignment>::empty(), ws) == 0,
        a.workspace_id@ == ws ==> assigned_count(rows.push(a), ws) == assigned_count(rows, ws) + 1,
        a.workspace_id@ != ws ==> assigned_count(rows.push(a), ws) == assigned_count(rows, ws),
        a.workspace_id@ != ws ==> members(rows.push(a), agents, ws) == members(rows, agents, ws),
        a.workspace_id@ == ws && a.agent_id@ == agent.id@ ==> members(
            rows.push(a),
            seq![agent],
            ws,
        ) == members(rows, seq![agent], ws).push((agent.id@, agent.state)),
        agents_with_id(agents.push(agent), agent.id@) == agents_with_id(agents, agent.id@).push(
            (agent.id@, agent.state),
        ),
        forall|other: Seq<char>|
            other != agent.id@ ==> #[trigger] agents_with_id(agents.push(agent), other)
                == agents_with_id(agents, other),
        agents_with_id(Seq::<AgentRow>::empty(), agent.id@).len() == 0,
{
    assert(rows.push(a).drop_last() =~= rows);
    assert(agents.push(agent).drop_last() =~= agents);
    let one = seq![agent];
    assert(one.drop_last() =~= Seq::<AgentRow>::empty());
    assert(one.last() == agent);
    assert(agents_with_id(one, agent.id@) =~= seq![(agent.id@, agent.state)]) by {
        assert(agents_with_id(one.drop_last(), agent.id@) =~= Seq::<
            (Seq<char>, AgentState),
        >::empty());
    }
    assert(members(rows, one, ws) + seq![(agent.id@, agent.state)] =~= members(rows, one, ws).push(
        (agent.id@, agent.state),
    ));
}

/// An agent's workspace is what the first row with its id says.
pub proof fn first_row_says_the_workspace(rows: Seq<AgentRow>, row: AgentRow, agent: Seq<char>)
    ensures
        workspace_of(Seq::<AgentRow>::empty(), agent) is None,
        row.id@ == agent ==> workspace_of(seq![row] + rows, agent) == opt_text(row.workspace_id),
        row.id@ != agent ==> workspace_of(seq![row] + rows, agent) == workspace_of(rows, agent),
{
    let all = seq![row] + rows;
    assert(all[0] == row);
    assert(all.skip(1) =~= rows);
}

/// A shadow stands for one workspace of one daemon, under a path that names
/// both; no local workspace stands for another.
pub proof fn shadows_name_their_home(w: WorkspaceView, daemon: Seq<char>, home: Seq<char>)
    ensures
        shadow_path(daemon, home) == "shadow://"@ + daemon + "/"@ + home,
        w.kind == WorkspaceKind::Shadow && w.home_daemon_id == Some(daemon) && w.home_workspace_id
            == Some(home) ==> mirrors(w, daemon, home),
        w.kind == WorkspaceKind::Local ==> !mirrors(w, daemon, home),
        w.home_daemon_id != Some(daemon) ==> !mirrors(w, daemon, home),
        w.home_workspace_id != Some(home) ==> !mirrors(w, daemon, home),
{
}

/// A workspace is refused where its id or its path is taken, and takes its
/// place behind the others elsewhere.
pub proof fn ids_and_paths_are_taken_once(
    db: &mut Database,
    ws: Workspace,
    r: Result<(), &'static str>,
    i: int,
)
    requires
        old(db).workspaces_wf(),
        call_ensures(Database::insert_workspace, (db, ws), r),
        0 <= i < old(db).workspaces@.len(),
    ensures
        old(db).workspaces@[i].id@ == ws.id@ ==> r is Err,
        old(db).workspaces@[i].path@ == ws.path@ ==> r is Err,
        r is Ok ==> final(db).workspaces@.last() == ws && final(db).workspaces@.drop_last()
            == old(db).workspaces@,
        r is Err ==> final(db).workspaces@ == old(db).workspaces@,
{
    if r is Ok {
        assert(distinct(old(db).workspaces@[i]@, ws@));
        assert(old(db).workspaces@.push(ws).drop_last() =~= old(db).workspaces@);
    }
}

/// An assigned agent is one of the workspace's, and its row names the
/// workspace; the other agents stay where they are.
pub proof fn assigned_agents_move(
    db: &mut Database,
    ws: &str,
    agent: &str,
    now: i64,
    i: int,
)
    requires
        call_ensures(Database::insert_workspace_assignment, (db, ws, agent, now), ()),
        0 <= i < old(db).agents@.len(),
    ensures
        final(db).agents@.len() == old(db).agents@.len(),
        final(db).agents@[i].id@ == old(db).agents@[i].id@,
        final(db).agents@[i].state == old(db).agents@[i].state,
        old(db).agents@[i].id@ == agent@ ==> opt_text(final(db).agents@[i].workspace_id) == Some(
            ws@,
        ),
        old(db).agents@[i].id@ != agent@ ==> opt_text(final(db).agents@[i].workspace_id)
            == opt_text(old(db).agents@[i].workspace_id),
        final(db).assignments@.len() <= old(db).assignments@.len() + 1,
        final(db).assignments@.len() > old(db).assignments@.len()
            ==> final(db).assignments@.last().workspace_id@ == ws@
            && final(db).assignments@.last().agent_id@ == agent@,
{
    assert(moved_agent(old(db).agents@[i], final(db).agents@[i], ws@, agent@));
}

} // verus!
