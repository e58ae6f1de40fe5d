//! The lifecycle of workspaces, and the mail that tells of changes to their
//! memory.

use crate::bytes::{cut_to_chars, first_chars};
use crate::decimal::{decimal, signed_decimal, to_decimal, to_signed_decimal};
use crate::json::{json_quoted, quote};
use crate::pieces::{join, joined, split, split_at_char};
use crate::sandbox::{CommandView, SpawnCommand};
use crate::text::{cat, cat3, own, same, texts};
use crate::types::{
    events_view, mails_view, terminal, AgentState, EventView, Mail, MailState, MailView,
    StreamEvent,
};
use crate::workspace_db::{
    assigned, distinct, members, members_view, moved_agent, owned_but, with_state, workspace_at,
    workspace_of, workspaces_view, Database, Owned, Workspace, WorkspaceKind, WorkspacePath,
    WorkspaceState, WorkspaceView,
};
use vstd::prelude::*;
use vstd::string::*;

verus! {

/// An error, as the code by which clients know it.
#[derive(Debug)]
pub struct WorkspaceError(pub String);

/// Whether an error says that.
pub open spec fn says(e: WorkspaceError, text: Seq<char>) -> bool {
    e.0@ == text
}

impl WorkspaceError {
    /// The error in words.
    pub fn to_text(&self) -> (r: String)
        ensures
            r@ == self.0@,
    {
        self.0.clone()
    }
}

fn fail(text: &str) -> (e: WorkspaceError)
    ensures
        says(e, text@),
{
    WorkspaceError(own(text))
}

fn fail_with(code: &str, detail: &str) -> (e: WorkspaceError)
    ensures
        says(e, code@ + detail@),
{
    WorkspaceError(cat(code, detail))
}

// ---------------------------------------------------------------------------
// Git
// ---------------------------------------------------------------------------

/// A `git` command that failed.
#[derive(Debug)]
pub struct GitError {
    pub stderr: String,
    pub exit_code: Option<i32>,
}

/// How an exit code is written.
pub open spec fn exit_text(code: Option<i32>) -> Seq<char> {
    match code {
        Some(c) => "Some("@ + signed_decimal(c as int) + ")"@,
        None => "None"@,
    }
}

/// Characters of an error output that are kept.
pub const GIT_STDERR_CHARS: usize = 4096;

impl GitError {
    /// The failure of a command that ran: as much of its error output as is
    /// kept.
    pub fn failed(stderr: &str, exit_code: Option<i32>) -> (e: GitError)
        ensures
            e.stderr@ == first_chars(stderr@, GIT_STDERR_CHARS as nat),
            e.exit_code == exit_code,
    {
        GitError { stderr: cut_to_chars(stderr, GIT_STDERR_CHARS), exit_code }
    }

    /// The failure of a command that could not be run.
    pub fn not_run(error: &str) -> (e: GitError)
        ensures
            e.stderr@ == error@,
            e.exit_code is None,
    {
        GitError { stderr: own(error), exit_code: None }
    }

    /// The error in words.
    pub fn to_text(&self) -> (r: String)
        ensures
            r@ == "git failed (exit "@ + exit_text(self.exit_code) + "): "@ + self.stderr@,
    {
        let mut r = own("git failed (exit ");
        match self.exit_code {
            Some(c) => {
                let code = cat3("Some(", to_signed_decimal(c as i64).as_str(), ")");
                r.append(code.as_str());
            },
            None => {
                r.append("None");
            },
        }
        r.append("): ");
        r.append(self.stderr.as_str());
        r
    }
}

/// The command that adds a worktree.
pub fn worktree_add(repo: &str, target: &str, branch: &str) -> (c: SpawnCommand)
    ensures
        c@ == (CommandView {
            program: "git"@,
            args: seq!["-C"@, repo@, "worktree"@, "add"@, target@, branch@],
            env: seq![],
            cwd: None,
        }),
{
    let mut c = SpawnCommand::new("git");
    c.arg("-C");
    c.arg(repo);
    c.arg("worktree");
    c.arg("add");
    c.arg(target);
    c.arg(branch);
    assert(c@.args =~= seq!["-C"@, repo@, "worktree"@, "add"@, target@, branch@]);
    c
}

/// The command that removes a worktree, whatever is in it.
pub fn worktree_remove(repo: &str, target: &str) -> (c: SpawnCommand)
    ensures
        c@ == (CommandView {
            program: "git"@,
            args: seq!["-C"@, repo@, "worktree"@, "remove"@, "--force"@, target@],
            env: seq![],
            cwd: None,
        }),
{
    let mut c = SpawnCommand::new("git");
    c.arg("-C");
    c.arg(repo);
    c.arg("worktree");
    c.arg("remove");
    c.arg("--force");
    c.arg(target);
    assert(c@.args =~= seq!["-C"@, repo@, "worktree"@, "remove"@, "--force"@, target@]);
    c
}

// ---------------------------------------------------------------------------
// Creating
// ---------------------------------------------------------------------------

/// What is known of the disk when a workspace is to be created.
#[derive(Debug)]
pub struct CreateFacts {
    /// Why the name is no good, if it is not.
    pub name_error: Option<String>,
    /// The repository's canonical path, if it has one.
    pub repo_canonical: Option<String>,
    pub repo_is_dir: bool,
    pub repo_has_git: bool,
    pub target_exists: bool,
}

/// Why a workspace is not created.
pub open spec fn create_refused(db: Database, name: Seq<char>, facts: CreateFacts) -> Option<
    Seq<char>,
> {
    if facts.name_error is Some {
        Some("invalid_workspace_name:"@ + facts.name_error->0@)
    } else if facts.repo_canonical is None || !facts.repo_is_dir {
        Some("invalid_repo_path"@)
    } else if !facts.repo_has_git {
        Some("not_a_git_repo"@)
    } else if workspace_at(db.workspaces@, name) is Some {
        Some("workspace_already_exists"@)
    } else if facts.target_exists {
        Some("workspace_path_occupied"@)
    } else {
        None
    }
}

/// Checks whether a workspace can be created, before anything is done.
pub fn create(db: &Database, name: &str, facts: &CreateFacts) -> (r: Result<(), WorkspaceError>)
    requires
        db.workspaces_wf(),
    ensures
        match create_refused(*db, name@, *facts) {
            Some(text) => r matches Err(e) && says(e, text),
            None => r is Ok,
        },
{
    if let Some(e) = &facts.name_error {
        return Err(fail_with("invalid_workspace_name:", e.as_str()));
    }
    if facts.repo_canonical.is_none() || !facts.repo_is_dir {
        return Err(fail("invalid_repo_path"));
    }
    if !facts.repo_has_git {
        return Err(fail("not_a_git_repo"));
    }
    if db.get_workspace(name).is_some() {
        return Err(fail("workspace_already_exists"));
    }
    if facts.target_exists {
        return Err(fail("workspace_path_occupied"));
    }
    Ok(())
}

/// What follows the attempt to add the worktree: the row to store.
pub fn worktree_added(
    outcome: &Result<(), GitError>,
    name: &str,
    target: &str,
    repo: &str,
    branch: &str,
    now: i64,
) -> (r: Result<Workspace, WorkspaceError>)
    ensures
        match outcome {
            Err(g) => r matches Err(e) && says(e, "git_worktree_add_failed:"@ + g.stderr@),
            Ok(_) => r matches Ok(w) && w@ == (WorkspaceView {
                id: name@,
                path: target@,
                repo_path: repo@,
                branch: branch@,
                state: WorkspaceState::Active,
                created_at: now,
                kind: WorkspaceKind::Local,
                home_daemon_id: None,
                home_workspace_id: None,
            }),
        },
{
    match outcome {
        Err(g) => Err(fail_with("git_worktree_add_failed:", g.stderr.as_str())),
        Ok(_) => Ok(
            Workspace {
                id: own(name),
                path: own(target),
                repo_path: own(repo),
                branch: own(branch),
                state: WorkspaceState::Active,
                created_at: now,
                kind: WorkspaceKind::Local,
                home_daemon_id: None,
                home_workspace_id: None,
            },
        ),
    }
}

/// Stores a workspace whose worktree was added. On an error the worktree has
/// to be removed again.
pub fn store_created(db: &mut Database, ws: Workspace) -> (r: Result<StreamEvent, WorkspaceError>)
    requires
        old(db).workspaces_wf(),
    ensures
        final(db).workspaces_wf(),
        final(db).same_but_workspaces(*old(db)),
        r is Ok <==> forall|i: int|
            0 <= i < old(db).workspaces@.len() ==> distinct(
                (#[trigger] old(db).workspaces@[i])@,
                ws@,
            ),
        match r {
            Ok(event) => {
                &&& final(db).workspaces@ == old(db).workspaces@.push(ws)
                &&& event@ == (EventView::WorkspaceCreated {
                    workspace_id: ws.id@,
                    path: ws.path@,
                    branch: ws.branch@,
                })
            },
            Err(e) => {
                &&& final(db).workspaces == old(db).workspaces
                &&& says(e, "db_insert_failed:"@ + "workspace_taken"@)
            },
        },
{
    let event = StreamEvent::WorkspaceCreated {
        workspace_id: ws.id.clone(),
        path: ws.path.clone(),
        branch: ws.branch.clone(),
    };
    match db.insert_workspace(ws) {
        Ok(_) => Ok(event),
        Err(_) => Err(fail_with("db_insert_failed:", "workspace_taken")),
    }
}

// ---------------------------------------------------------------------------
// Destroying
// ---------------------------------------------------------------------------

/// The members that have not ended.
pub open spec fn busy_members(list: Seq<(Seq<char>, AgentState)>) -> Seq<Seq<char>>
    decreases list.len(),
{
    if list.len() == 0 {
        seq![]
    } else {
        let before = busy_members(list.drop_last());
        if terminal(list.last().1) {
            before
        } else {
            before.push(list.last().0)
        }
    }
}

/// The members of a workspace that have not ended.
pub open spec fn busy(db: Database, id: Seq<char>) -> Seq<Seq<char>> {
    busy_members(members(db.assignments@, db.agents@, id))
}

/// Why a workspace is not destroyed.
pub open spec fn destroy_refused(db: Database, id: Seq<char>) -> Option<Seq<char>> {
    match workspace_at(db.workspaces@, id) {
        None => Some("workspace_not_found"@),
        Some(w) => if busy(db, id).len() > 0 {
            Some("workspace_in_use:"@ + joined(busy(db, id), ","@))
        } else if w.state == WorkspaceState::Destroying {
            Some("workspace_destroying"@)
        } else {
            None
        },
    }
}

fn list_busy(list: &Vec<(String, AgentState)>) -> (r: Vec<String>)
    ensures
        texts(r@) == busy_members(members_view(list@)),
{
    let ghost all = members_view(list@);
    let mut r: Vec<String> = Vec::new();
    assert(texts(r@) =~= busy_members(all.take(0)));
    for i in 0..list.len()
        invariant
            all == members_view(list@),
            texts(r@) == busy_members(all.take(i as int)),
    {
        let ghost before = texts(r@);
        proof {
            assert(all.take(i + 1).drop_last() =~= all.take(i as int));
            assert(all.take(i + 1).last() == (list@[i as int].0@, list@[i as int].1));
        }
        if !list[i].1.is_terminal() {
            r.push(list[i].0.clone());
            assert(texts(r@) =~= before.push(list@[i as int].0@));
        }
    }
    assert(all.take(all.len() as int) =~= all);
    r
}

/// Starts to destroy a workspace, unless an agent still works in it. What is
/// left to do is to stop its watcher, to remove its worktree, and to
/// [`finish_destroy`].
pub fn destroy(db: &mut Database, id: &str) -> (r: Result<Workspace, WorkspaceError>)
    requires
        old(db).workspaces_wf(),
    ensures
        final(db).workspaces_wf(),
        final(db).same_but_workspaces(*old(db)),
        match destroy_refused(*old(db), id@) {
            Some(text) => {
                &&& r matches Err(e)
                &&& says(e, text)
                &&& final(db).workspaces == old(db).workspaces
            },
            None => {
                &&& r matches Ok(w)
                &&& workspace_at(old(db).workspaces@, id@) == Some(w@)
                &&& workspaces_view(final(db).workspaces@) == with_state(
                    workspaces_view(old(db).workspaces@),
                    id@,
                    WorkspaceState::Destroying,
                )
            },
        },
{
    let ws = match db.get_workspace(id) {
        None => return Err(fail("workspace_not_found")),
        Some(w) => w,
    };
    let assigned_agents = db.list_active_assigned_agents(id);
    let still_busy = list_busy(&assigned_agents);
    assert(texts(still_busy@).len() == still_busy@.len());
    if still_busy.len() > 0 {
        return Err(fail_with("workspace_in_use:", join(&still_busy, ",").as_str()));
    }
    if ws.state == WorkspaceState::Destroying {
        return Err(fail("workspace_destroying"));
    }
    db.update_workspace_state(id, WorkspaceState::Destroying);
    Ok(ws)
}

/// Ends the destruction of a workspace: it goes, with all that belongs to it.
pub fn finish_destroy(db: &mut Database, id: &str) -> (event: StreamEvent)
    requires
        old(db).workspaces_wf(),
    ensures
        final(db).workspaces_wf(),
        final(db).same_but_owned(*old(db)),
        final(db).owned() == owned_but(old(db).owned(), id@),
        old(db).memory_holds() ==> final(db).memory_holds(),
        old(db).federations_hold() ==> final(db).federations_hold(),
        event@ == (EventView::WorkspaceDestroyed { workspace_id: id@ }),
{
    db.delete_workspace_row(id);
    StreamEvent::WorkspaceDestroyed { workspace_id: own(id) }
}

// ---------------------------------------------------------------------------
// Assigning
// ---------------------------------------------------------------------------

/// Why an agent is not assigned to a workspace.
pub open spec fn assign_refused(db: Database, ws: Seq<char>, agent: Seq<char>) -> Option<Seq<char>> {
    match workspace_at(db.workspaces@, ws) {
        None => Some("workspace_not_found"@),
        Some(w) => if w.state != WorkspaceState::Active {
            Some("workspace_destroying"@)
        } else {
            match workspace_of(db.agents@, agent) {
                Some(other) => if other != ws {
                    Some("agent_already_assigned"@)
                } else {
                    None
                },
                None => None,
            }
        },
    }
}

/// Assigns an agent to a workspace. To do so again changes nothing; an agent
/// of another workspace stays there.
pub fn assign(db: &mut Database, workspace_id: &str, agent_id: &str, now: i64) -> (r: Result<
    (),
    WorkspaceError,
>)
    requires
        old(db).workspaces_wf(),
    ensures
        match assign_refused(*old(db), workspace_id@, agent_id@) {
            Some(text) => r matches Err(e) && says(e, text) && *final(db) == *old(db),
            None => {
                &&& r is Ok
                &&& final(db).workspaces == old(db).workspaces
                &&& final(db).memory == old(db).memory
                &&& final(db).federations == old(db).federations
                &&& final(db).outbox == old(db).outbox
                &&& final(db).inbox == old(db).inbox
                &&& final(db).counters == old(db).counters
                &&& assigned(final(db).assignments@, workspace_id@, agent_id@)
                &&& assigned(old(db).assignments@, workspace_id@, agent_id@)
                    ==> final(db).assignments == old(db).assignments
                &&& !assigned(old(db).assignments@, workspace_id@, agent_id@)
                    ==> final(db).assignments@.len() == old(db).assignments@.len() + 1
                    && final(db).assignments@.drop_last() == old(db).assignments@
                    && final(db).assignments@.last().assigned_at == now
                &&& final(db).agents@.len() == old(db).agents@.len()
                &&& forall|i: int|
                    0 <= i < old(db).agents@.len() ==> moved_agent(
                        #[trigger] old(db).agents@[i],
                        final(db).agents@[i],
                        workspace_id@,
                        agent_id@,
                    )
            },
        },
{
    let ws = match db.get_workspace(workspace_id) {
        None => return Err(fail("workspace_not_found")),
        Some(w) => w,
    };
    if ws.state != WorkspaceState::Active {
        return Err(fail("workspace_destroying"));
    }
    if let Some(existing) = db.agent_workspace_id(agent_id) {
        if !same(existing.as_str(), workspace_id) {
            return Err(fail("agent_already_assigned"));
        }
    }
    db.insert_workspace_assignment(workspace_id, agent_id, now);
    proof {
        if !assigned(old(db).assignments@, workspace_id@, agent_id@) {
            let last = db.assignments@.len() - 1;
            assert(db.assignments@[last].workspace_id@ == workspace_id@);
        }
    }
    Ok(())
}

// ---------------------------------------------------------------------------
// Reconciling with the disk
// ---------------------------------------------------------------------------

/// Whether a directory is that of a workspace.
pub open spec fn has_row(rows: Seq<WorkspacePath>, path: Seq<char>) -> bool {
    exists|i: int| 0 <= i < rows.len() && (#[trigger] rows[i]).path@ == path
}

/// The directories that no workspace has.
pub open spec fn orphan_dirs(dirs: Seq<String>, rows: Seq<WorkspacePath>) -> Seq<EventView>
    decreases dirs.len(),
{
    if dirs.len() == 0 {
        seq![]
    } else {
        let before = orphan_dirs(dirs.drop_last(), rows);
        if has_row(rows, dirs.last()@) {
            before
        } else {
            before.push(EventView::WorkspaceOrphanDirDetected { path: dirs.last()@ })
        }
    }
}

/// Tells of the directories that no workspace has. They are left in place.
pub fn report_orphan_dirs(dirs: &Vec<String>, rows: &Vec<WorkspacePath>) -> (r: Vec<StreamEvent>)
    ensures
        events_view(r@) == orphan_dirs(dirs@, rows@),
{
    let mut r: Vec<StreamEvent> = Vec::new();
    assert(events_view(r@) =~= orphan_dirs(dirs@.take(0), rows@));
    for i in 0..dirs.len()
        invariant
            events_view(r@) == orphan_dirs(dirs@.take(i as int), rows@),
    {
        let ghost before = events_view(r@);
        proof {
            assert(dirs@.take(i + 1).drop_last() =~= dirs@.take(i as int));
            assert(dirs@.take(i + 1).last() == dirs@[i as int]);
        }
        let mut found = false;
        let mut k: usize = 0;
        while k < rows.len()
            invariant
                k <= rows@.len(),
                i < dirs@.len(),
                found ==> has_row(rows@, dirs@[i as int]@),
                !found ==> forall|j: int|
                    0 <= j < k ==> (#[trigger] rows@[j]).path@ != dirs@[i as int]@,
            decreases rows@.len() - k,
        {
            if same(rows[k].path.as_str(), dirs[i].as_str()) {
                assert(rows@[k as int].path@ == dirs@[i as int]@);
                found = true;
            }
            k = k + 1;
        }
        if !found {
            r.push(StreamEvent::WorkspaceOrphanDirDetected { path: dirs[i].clone() });
            assert(events_view(r@) =~= before.push(
                EventView::WorkspaceOrphanDirDetected { path: dirs@[i as int]@ },
            ));
        }
    }
    assert(dirs@.take(dirs@.len() as int) =~= dirs@);
    r
}

/// What is told of the rows whose directory is gone, and the tables without
/// them and what belongs to them.
pub open spec fn drop_orphans(rows: Owned, paths: Seq<WorkspacePath>, exists_here: Seq<bool>) -> (
    Owned,
    Seq<EventView>,
)
    decreases paths.len(),
{
    if paths.len() == 0 {
        (rows, seq![])
    } else {
        let (left, told) = drop_orphans(rows, paths.drop_last(), exists_here);
        let id = paths.last().id@;
        if exists_here[paths.len() - 1] {
            (left, told)
        } else {
            (
                owned_but(
                    Owned {
                        workspaces: with_state(left.workspaces, id, WorkspaceState::Destroying),
                        ..left
                    },
                    id,
                ),
                told.push(EventView::WorkspaceDestroyed { workspace_id: id }),
            )
        }
    }
}

/// Removes the workspaces whose directory is gone, and tells of them.
/// `exists_here` says of each of `paths` whether it is there.
pub fn remove_orphan_rows(db: &mut Database, paths: &Vec<WorkspacePath>, exists_here: &Vec<bool>) -> (r:
    Vec<StreamEvent>)
    requires
        old(db).workspaces_wf(),
        exists_here@.len() == paths@.len(),
    ensures
        final(db).workspaces_wf(),
        final(db).same_but_owned(*old(db)),
        (final(db).owned(), events_view(r@)) == drop_orphans(old(db).owned(), paths@, exists_here@),
        old(db).memory_holds() ==> final(db).memory_holds(),
        old(db).federations_hold() ==> final(db).federations_hold(),
{
    let mut r: Vec<StreamEvent> = Vec::new();
    let ghost start = db.owned();
    proof {
        assert(paths@.take(0) =~= Seq::<WorkspacePath>::empty());
        assert(events_view(r@) =~= Seq::<EventView>::empty());
    }
    for i in 0..paths.len()
        invariant
            exists_here@.len() == paths@.len(),
            start == old(db).owned(),
            db.workspaces_wf(),
            db.same_but_owned(*old(db)),
            old(db).memory_holds() ==> db.memory_holds(),
            old(db).federations_hold() ==> db.federations_hold(),
            db.owned() == drop_orphans(start, paths@.take(i as int), exists_here@).0,
            events_view(r@) == drop_orphans(start, paths@.take(i as int), exists_here@).1,
    {
        let ghost before = events_view(r@);
        let ghost left = db.owned();
        proof {
            assert(paths@.take(i + 1).drop_last() =~= paths@.take(i as int));
            assert(paths@.take(i + 1).last() == paths@[i as int]);
        }
        if !exists_here[i] {
            let id = paths[i].id.as_str();
            db.update_workspace_state(id, WorkspaceState::Destroying);
            assert(db.owned() == (Owned {
                workspaces: with_state(left.workspaces, id@, WorkspaceState::Destroying),
                ..left
            }));
            let event = finish_destroy(db, id);
            let ghost ev = event@;
            r.push(event);
            assert(events_view(r@) =~= before.push(ev));
        }
    }
    assert(paths@.take(paths@.len() as int) =~= paths@);
    r
}

// ---------------------------------------------------------------------------
// Mail on changes to the memory
// ---------------------------------------------------------------------------

/// The topic of a path in a workspace's memory.
pub open spec fn memory_topic(ws: Seq<char>, path: Seq<char>) -> Seq<char> {
    "workspace/"@ + ws + "/memory/"@ + path
}

/// The prefixes of a key that end at a segment, from the shortest. An empty
/// prefix is not followed by a slash.
pub open spec fn key_prefixes(segments: Seq<Seq<char>>) -> Seq<Seq<char>>
    decreases segments.len(),
{
    if segments.len() == 0 {
        seq![]
    } else {
        let before = key_prefixes(segments.drop_last());
        before.push(longer_prefix(last_prefix(before), segments.last()))
    }
}

/// The last of the prefixes, empty where there is none.
pub open spec fn last_prefix(prefixes: Seq<Seq<char>>) -> Seq<char> {
    if prefixes.len() == 0 {
        seq![]
    } else {
        prefixes.last()
    }
}

/// A prefix with one more segment.
pub open spec fn longer_prefix(prefix: Seq<char>, segment: Seq<char>) -> Seq<char> {
    if prefix.len() == 0 {
        segment
    } else {
        prefix + "/"@ + segment
    }
}

/// The topics on which a change to a key is told: one for each of its
/// prefixes, and one for the whole memory.
pub open spec fn memory_topics(ws: Seq<char>, key: Seq<char>) -> Seq<Seq<char>> {
    key_prefixes(split(key, '/')).map_values(|p: Seq<char>| memory_topic(ws, p)).push(
        memory_topic(ws, "*"@),
    )
}

fn topic_of(ws: &str, path: &str) -> (r: String)
    ensures
        r@ == memory_topic(ws@, path@),
{
    let mut r = cat3("workspace/", ws, "/memory/");
    r.append(path);
    r
}

/// The topics on which a change to a key is told.
pub fn list_memory_topics(ws: &str, key: &str) -> (r: Vec<String>)
    ensures
        texts(r@) == memory_topics(ws@, key@),
{
    let segments = split_at_char(key, '/');
    let ghost all = texts(segments@);
    let ghost topics = |ps: Seq<Seq<char>>| ps.map_values(|p: Seq<char>| memory_topic(ws@, p));
    let mut r: Vec<String> = Vec::new();
    let mut prefix = String::new();
    proof {
        assert(all.take(0) =~= Seq::<Seq<char>>::empty());
        assert(texts(r@) =~= topics(key_prefixes(all.take(0))));
        assert(prefix@ =~= last_prefix(key_prefixes(all.take(0))));
    }
    for i in 0..segments.len()
        invariant
            all == texts(segments@),
            topics == (|ps: Seq<Seq<char>>|
                ps.map_values(|p: Seq<char>| memory_topic(ws@, p))),
            prefix@ == last_prefix(key_prefixes(all.take(i as int))),
            texts(r@) == topics(key_prefixes(all.take(i as int))),
    {
        let ghost before = texts(r@);
        let ghost old_prefix = prefix@;
        proof {
            assert(all.take(i + 1).drop_last() =~= all.take(i as int));
            assert(all.take(i + 1).last() == segments@[i as int]@);
        }
        if !prefix.as_str().is_empty() {
            prefix.append("/");
        }
        prefix.append(segments[i].as_str());
        assert(prefix@ =~= longer_prefix(old_prefix, segments@[i as int]@));
        let topic = topic_of(ws, prefix.as_str());
        r.push(topic);
        proof {
            assert(texts(r@) =~= before.push(topic@));
            let ps = key_prefixes(all.take(i as int));
            assert(key_prefixes(all.take(i + 1)) == ps.push(prefix@));
            assert(topics(ps.push(prefix@)) =~= topics(ps).push(topic@));
        }
    }
    assert(all.take(all.len() as int) =~= all);
    let ghost before = texts(r@);
    let last = topic_of(ws, "*");
    r.push(last);
    assert(texts(r@) =~= before.push(last@));
    r
}

/// The body of the mail that tells of a change.
pub open spec fn change_body(key: Seq<char>, version: u64, op: Seq<char>) -> Seq<char> {
    "{\"key\":"@ + json_quoted(key) + ",\"op\":"@ + json_quoted(op) + ",\"version\":"@ + decimal(
        version as nat,
    ) + "}"@
}

/// The body of the mail that tells of a change.
pub fn write_change_body(key: &str, version: u64, op: &str) -> (r: String)
    ensures
        r@ == change_body(key@, version, op@),
{
    let mut r = own("{\"key\":");
    r.append(quote(key).as_str());
    r.append(",\"op\":");
    r.append(quote(op).as_str());
    r.append(",\"version\":");
    r.append(to_decimal(version).as_str());
    r.append("}");
    r
}

/// A subscriber of a topic, and the id that its mail gets.
#[derive(Debug)]
pub struct TopicReader {
    pub agent_id: String,
    pub mail_id: String,
}

/// Mail of a workspace on a topic.
pub open spec fn workspace_mail(
    ws: Seq<char>,
    topic: Seq<char>,
    body: Seq<char>,
    reader: TopicReader,
    now: i64,
) -> MailView {
    MailView {
        id: reader.mail_id@,
        recipient_id: reader.agent_id@,
        sender_id: Some("workspace://"@ + ws),
        topic: Some(topic),
        body,
        in_reply_to: None,
        state: MailState::Pending,
        fail_reason: None,
        created_at: now,
        delivered_at: None,
        seq: 0,
        wake_eligible: true,
    }
}

/// What is told of mail of a workspace.
pub open spec fn received_event(m: MailView) -> EventView {
    EventView::MailReceived {
        mail_id: m.id,
        recipient_id: m.recipient_id,
        sender_id: m.sender_id,
        topic: m.topic,
        body_preview: first_chars(m.body, 200),
        wake_eligible: true,
        origin_daemon_id: None,
    }
}

/// Mail for each reader of a topic.
pub open spec fn topic_mail(
    ws: Seq<char>,
    topic: Seq<char>,
    body: Seq<char>,
    readers: Seq<TopicReader>,
    now: i64,
) -> Seq<MailView> {
    readers.map_values(|r: TopicReader| workspace_mail(ws, topic, body, r, now))
}

/// Mail for each reader of a topic of a workspace.
pub fn mail_to_readers(
    ws: &str,
    topic: &str,
    body: &str,
    readers: &Vec<TopicReader>,
    now: i64,
) -> (r: Vec<Mail>)
    ensures
        mails_view(r@) == topic_mail(ws@, topic@, body@, readers@, now),
{
    let sender = cat("workspace://", ws);
    let mut r: Vec<Mail> = Vec::new();
    for i in 0..readers.len()
        invariant
            sender@ == "workspace://"@ + ws@,
            r@.len() == i,
            forall|k: int|
                0 <= k < i ==> (#[trigger] r@[k])@ == workspace_mail(
                    ws@,
                    topic@,
                    body@,
                    readers@[k],
                    now,
                ),
    {
        let m = Mail {
            id: readers[i].mail_id.clone(),
            recipient_id: readers[i].agent_id.clone(),
            sender_id: Some(sender.clone()),
            topic: Some(own(topic)),
            body: own(body),
            in_reply_to: None,
            state: MailState::Pending,
            fail_reason: None,
            created_at: now,
            delivered_at: None,
            seq: 0,
            wake_eligible: true,
        };
        assert(m@ == workspace_mail(ws@, topic@, body@, readers@[i as int], now));
        r.push(m);
    }
    assert(mails_view(r@) =~= topic_mail(ws@, topic@, body@, readers@, now));
    r
}

/// What is told of mail of a workspace, once it is stored.
pub fn tell_readers(mails: &Vec<Mail>) -> (r: Vec<StreamEvent>)
    ensures
        events_view(r@) == mails_view(mails@).map_values(|m: MailView| received_event(m)),
{
    let mut r: Vec<StreamEvent> = Vec::new();
    for i in 0..mails.len()
        invariant
            r@.len() == i,
            forall|k: int| 0 <= k < i ==> (#[trigger] r@[k])@ == received_event(mails@[k]@),
    {
        let m = &mails[i];
        let e = StreamEvent::MailReceived {
            mail_id: m.id.clone(),
            recipient_id: m.recipient_id.clone(),
            sender_id: crate::text::copy_opt(&m.sender_id),
            topic: crate::text::copy_opt(&m.topic),
            body_preview: cut_to_chars(m.body.as_str(), 200),
            wake_eligible: true,
            origin_daemon_id: None,
        };
        assert(e@ == received_event(mails@[i as int]@));
        r.push(e);
    }
    assert(events_view(r@) =~= mails_view(mails@).map_values(|m: MailView| received_event(m)));
    r
}

/// Whether `mails` tell of a change to a workspace's memory: for each of its
/// topics, mail to the readers of that topic.
pub open spec fn tells_of_change(
    mails: Seq<Vec<Mail>>,
    ws: Seq<char>,
    key: Seq<char>,
    version: u64,
    op: Seq<char>,
    readers: Seq<Vec<TopicReader>>,
    now: i64,
) -> bool {
    &&& mails.len() == memory_topics(ws, key).len()
    &&& forall|i: int|
        0 <= i < mails.len() ==> mails_view((#[trigger] mails[i])@) == topic_mail(
            ws,
            memory_topics(ws, key)[i],
            change_body(key, version, op),
            readers[i]@,
            now,
        )
}

/// The mail that tells of a change to a workspace's memory: for each of
/// [`list_memory_topics`], mail to its readers, who are given in that order.
pub fn publish_memory_topic_mail(
    ws: &str,
    key: &str,
    version: u64,
    op: &str,
    readers: &Vec<Vec<TopicReader>>,
    now: i64,
) -> (r: Vec<Vec<Mail>>)
    requires
        readers@.len() == memory_topics(ws@, key@).len(),
    ensures
        tells_of_change(r@, ws@, key@, version, op@, readers@, now),
{
    let topics = list_memory_topics(ws, key);
    let body = write_change_body(key, version, op);
    let mut r: Vec<Vec<Mail>> = Vec::new();
    assert(texts(topics@).len() == topics@.len());
    for i in 0..topics.len()
        invariant
            texts(topics@) == memory_topics(ws@, key@),
            topics@.len() == readers@.len(),
            body@ == change_body(key@, version, op@),
            r@.len() == i,
            forall|k: int|
                0 <= k < i ==> mails_view((#[trigger] r@[k])@) == topic_mail(
                    ws@,
                    memory_topics(ws@, key@)[k],
                    change_body(key@, version, op@),
                    readers@[k]@,
                    now,
                ),
    {
        assert(texts(topics@)[i as int] == topics@[i as int]@);
        r.push(mail_to_readers(ws, topics[i].as_str(), body.as_str(), &readers[i], now));
    }
    r
}

// ---------------------------------------------------------------------------
// Laws
// ---------------------------------------------------------------------------

/// A workspace in which an agent still works is not destroyed.
pub proof fn no_destruction_in_use(db: Database, id: Seq<char>)
    requires
        busy(db, id).len() > 0,
    ensures
        destroy_refused(db, id) is Some,
{
}

/// An agent of one workspace is never assigned to another.
pub proof fn one_workspace_per_agent(db: Database, ws: Seq<char>, agent: Seq<char>)
    requires
        workspace_of(db.agents@, agent) is Some,
        workspace_of(db.agents@, agent)->0 != ws,
    ensures
        assign_refused(db, ws, agent) is Some,
{
}

/// The last prefix of a key whose segments all say something is the key.
pub proof fn last_topic_names_the_key(segments: Seq<Seq<char>>)
    requires
        segments.len() > 0,
        forall|i: int| 0 <= i < segments.len() ==> (#[trigger] segments[i]).len() > 0,
    ensures
        key_prefixes(segments).len() == segments.len(),
        key_prefixes(segments).last() == joined(segments, "/"@),
        key_prefixes(segments).last().len() > 0,
    decreases segments.len(),
{
    let init = segments.drop_last();
    assert(segments.last() == segments[segments.len() - 1]);
    if init.len() > 0 {
        assert forall|i: int| 0 <= i < init.len() implies (#[trigger] init[i]).len() > 0 by {
            assert(init[i] == segments[i]);
        }
        last_topic_names_the_key(init);
    } else {
        assert(key_prefixes(init) =~= Seq::<Seq<char>>::empty());
    }
    reveal_with_fuel(joined, 2);
}

/// A workspace is created from a good name, a directory that is a repository,
/// an id that is free and a place that is free; the first of these that fails
/// is what is told.
pub proof fn workspaces_need_a_repository_and_a_place(
    db: Database,
    name: &str,
    facts: CreateFacts,
    r: Result<(), WorkspaceError>,
)
    requires
        db.workspaces_wf(),
        call_ensures(create, (&db, name, &facts), r),
    ensures
        r is Ok <==> facts.name_error is None && facts.repo_canonical is Some && facts.repo_is_dir
            && facts.repo_has_git && workspace_at(db.workspaces@, name@) is None
            && !facts.target_exists,
        r matches Err(e) ==> {
            let repo = facts.repo_canonical is Some && facts.repo_is_dir;
            &&& facts.name_error matches Some(t) ==> e.0@ == "invalid_workspace_name:"@ + t@
            &&& facts.name_error is None && !repo ==> e.0@ == "invalid_repo_path"@
            &&& facts.name_error is None && repo && !facts.repo_has_git ==> e.0@
                == "not_a_git_repo"@
            &&& facts.name_error is None && repo && facts.repo_has_git && workspace_at(
                db.workspaces@,
                name@,
            ) is Some ==> e.0@ == "workspace_already_exists"@
            &&& facts.name_error is None && repo && facts.repo_has_git && workspace_at(
                db.workspaces@,
                name@,
            ) is None ==> e.0@ == "workspace_path_occupied"@
        },
{
}

/// A workspace whose worktree was added is active, local and where it was
/// put; where git failed, its output is told.
pub proof fn added_worktrees_are_workspaces(
    outcome: Result<(), GitError>,
    name: &str,
    target: &str,
    repo: &str,
    branch: &str,
    now: i64,
    r: Result<Workspace, WorkspaceError>,
)
    requires
        call_ensures(worktree_added, (&outcome, name, target, repo, branch, now), r),
    ensures
        outcome is Ok <==> r is Ok,
        r matches Ok(w) ==> w.id@ == name@ && w.path@ == target@ && w.repo_path@ == repo@
            && w.branch@ == branch@ && w.state == WorkspaceState::Active && w.kind
            == WorkspaceKind::Local && w.created_at == now,
        r matches Err(e) ==> e.0@ == "git_worktree_add_failed:"@ + outcome->Err_0.stderr@,
{
}

/// The commands name the repository, the worktree and, to add one, its
/// branch.
pub proof fn worktree_commands_name_their_target(
    repo: &str,
    target: &str,
    branch: &str,
    added: SpawnCommand,
    removed: SpawnCommand,
)
    requires
        call_ensures(worktree_add, (repo, target, branch), added),
        call_ensures(worktree_remove, (repo, target), removed),
    ensures
        added@.program == "git"@,
        added@.args.len() == 6,
        added@.args[0] == "-C"@,
        added@.args[1] == repo@,
        added@.args[2] == "worktree"@,
        added@.args[3] == "add"@,
        added@.args[4] == target@,
        added@.args[5] == branch@,
        removed@.program == "git"@,
        removed@.args.len() == 6,
        removed@.args[1] == repo@,
        removed@.args[3] == "remove"@,
        removed@.args[4] == "--force"@,
        removed@.args[5] == target@,
{
}

/// A member that has not ended keeps its workspace busy, and one that has
/// does not.
pub proof fn ended_members_do_not_count(
    list: Seq<(Seq<char>, AgentState)>,
    m: (Seq<char>, AgentState),
)
    ensures
        busy_members(Seq::<(Seq<char>, AgentState)>::empty()).len() == 0,
        m.1 == AgentState::Complete || m.1 == AgentState::Failed || m.1 == AgentState::Banished
            ==> busy_members(list.push(m)) == busy_members(list),
        m.1 == AgentState::Queued || m.1 == AgentState::Summoning || m.1 == AgentState::Active
            || m.1 == AgentState::Dormant || m.1 == AgentState::Restarting ==> busy_members(
            list.push(m),
        ) == busy_members(list).push(m.0),
{
    assert(list.push(m).drop_last() =~= list);
}

/// A workspace that is there, is not busy and is not being destroyed yet is
/// destroyed; of a busy one the agents are told.
pub proof fn idle_workspaces_are_destroyed(
    db: &mut Database,
    id: &str,
    r: Result<Workspace, WorkspaceError>,
)
    requires
        old(db).workspaces_wf(),
        call_ensures(destroy, (db, id), r),
    ensures
        ({
            let there = workspace_at(old(db).workspaces@, id@);
            let at_work = busy_members(members(old(db).assignments@, old(db).agents@, id@));
            &&& r is Ok <==> (there matches Some(w) && at_work.len() == 0 && w.state
                == WorkspaceState::Active)
            &&& r matches Ok(w) ==> there == Some(w@)
            &&& r matches Err(e) ==> {
                &&& there is None ==> e.0@ == "workspace_not_found"@
                &&& there is Some && at_work.len() > 0 ==> e.0@ == "workspace_in_use:"@ + joined(
                    at_work,
                    ","@,
                )
                &&& there is Some && at_work.len() == 0 ==> e.0@ == "workspace_destroying"@
                &&& final(db).workspaces@ == old(db).workspaces@
            }
        }),
{
}

/// An agent that has no workspace, or has that one, is assigned to an active
/// workspace. What stands in the way of another is told in this order: the
/// workspace is not there, it is being destroyed, the agent has another.
pub proof fn free_agents_are_assigned(
    db: &mut Database,
    ws: &str,
    agent: &str,
    now: i64,
    r: Result<(), WorkspaceError>,
)
    requires
        old(db).workspaces_wf(),
        call_ensures(assign, (db, ws, agent, now), r),
    ensures
        ({
            let there = workspace_at(old(db).workspaces@, ws@);
            let has = workspace_of(old(db).agents@, agent@);
            &&& r is Ok <==> (there matches Some(w) && w.state == WorkspaceState::Active && (has
                is None || has == Some(ws@)))
            &&& r is Ok ==> assigned(final(db).assignments@, ws@, agent@)
            &&& r matches Err(e) ==> {
                &&& there is None ==> e.0@ == "workspace_not_found"@
                &&& there matches Some(w) ==> w.state != WorkspaceState::Active ==> e.0@
                    == "workspace_destroying"@
                &&& there matches Some(w) ==> w.state == WorkspaceState::Active ==> e.0@
                    == "agent_already_assigned"@
                &&& *final(db) == *old(db)
            }
        }),
{
}

/// A directory is told as an orphan exactly where no workspace has its path.
pub proof fn unknown_directories_are_told(
    dirs: Seq<String>,
    dir: String,
    rows: Seq<WorkspacePath>,
)
    ensures
        orphan_dirs(Seq::<String>::empty(), rows).len() == 0,
        (exists|i: int| 0 <= i < rows.len() && (#[trigger] rows[i]).path@ == dir@) ==> orphan_dirs(
            dirs.push(dir),
            rows,
        ) == orphan_dirs(dirs, rows),
        (forall|i: int| 0 <= i < rows.len() ==> (#[trigger] rows[i]).path@ != dir@) ==> orphan_dirs(
            dirs.push(dir),
            rows,
        ) == orphan_dirs(dirs, rows).push(EventView::WorkspaceOrphanDirDetected { path: dir@ }),
{
    assert(dirs.push(dir).drop_last() =~= dirs);
}

/// A workspace whose directory is gone is told as destroyed and is there no
/// more; one whose directory is there stays.
pub proof fn missing_directories_end_workspaces(
    rows: Owned,
    paths: Seq<WorkspacePath>,
    p: WorkspacePath,
    here: Seq<bool>,
)
    requires
        here.len() > paths.len(),
    ensures
        ({
            let before = drop_orphans(rows, paths, here);
            let after = drop_orphans(rows, paths.push(p), here);
            if here[paths.len() as int] {
                after == before
            } else {
                &&& after.1 == before.1.push(EventView::WorkspaceDestroyed { workspace_id: p.id@ })
                &&& forall|i: int|
                    0 <= i < after.0.workspaces.len() ==> (#[trigger] after.0.workspaces[i]).id
                        != p.id@
                &&& forall|i: int|
                    0 <= i < after.0.assignments.len() ==> (
                    #[trigger] after.0.assignments[i]).workspace_id@ != p.id@
            }
        }),
        drop_orphans(rows, Seq::<WorkspacePath>::empty(), here) == (rows, Seq::<EventView>::empty()),
{
    assert(paths.push(p).drop_last() =~= paths);
    let left = drop_orphans(rows, paths, here).0;
    let marked = Owned {
        workspaces: with_state(left.workspaces, p.id@, WorkspaceState::Destroying),
        ..left
    };
    crate::workspace_db::nothing_outlives_its_workspace(marked, p.id@);
}

/// A change to a key is told on the topic of each of its prefixes, the key
/// itself among them, and on the topic of the whole memory, which comes last.
pub proof fn changes_are_told_on_every_level(ws: Seq<char>, key: Seq<char>, i: int)
    requires
        0 <= i < split(key, '/').len(),
    ensures
        memory_topics(ws, key).len() == split(key, '/').len() + 1,
        memory_topics(ws, key).last() == "workspace/"@ + ws + "/memory/"@ + "*"@,
        memory_topics(ws, key)[0] == "workspace/"@ + ws + "/memory/"@ + split(key, '/')[0],
        (forall|k: int| 0 <= k <= i ==> (#[trigger] split(key, '/')[k]).len() > 0)
            ==> memory_topics(ws, key)[i] == "workspace/"@ + ws + "/memory/"@ + joined(
            split(key, '/').take(i + 1),
            "/"@,
        ),
{
    let segments = split(key, '/');
    lemma_prefix_count(segments);
    lemma_prefix_at(segments, 0);
    lemma_prefix_at(segments, i);
    let first = segments.take(1);
    assert(first.drop_last() =~= Seq::<Seq<char>>::empty());
    assert(first.last() == segments[0]);
    assert(key_prefixes(first.drop_last()) =~= Seq::<Seq<char>>::empty());
    assert(key_prefixes(first).last() == segments[0]);
    if forall|k: int| 0 <= k <= i ==> (#[trigger] segments[k]).len() > 0 {
        let some = segments.take(i + 1);
        assert forall|k: int| 0 <= k < some.len() implies (#[trigger] some[k]).len() > 0 by {
            assert(some[k] == segments[k]);
        }
        last_topic_names_the_key(some);
    }
}

proof fn lemma_prefix_count(segments: Seq<Seq<char>>)
    ensures
        key_prefixes(segments).len() == segments.len(),
    decreases segments.len(),
{
    if segments.len() > 0 {
        lemma_prefix_count(segments.drop_last());
    }
}

proof fn lemma_prefix_at(segments: Seq<Seq<char>>, i: int)
    requires
        0 <= i < segments.len(),
    ensures
        key_prefixes(segments).len() == segments.len(),
        key_prefixes(segments)[i] == key_prefixes(segments.take(i + 1)).last(),
    decreases segments.len(),
{
    lemma_prefix_count(segments);
    if i == segments.len() - 1 {
        assert(segments.take(i + 1) =~= segments);
    } else {
        lemma_prefix_at(segments.drop_last(), i);
        assert(segments.drop_last().take(i + 1) =~= segments.take(i + 1));
    }
}

/// Mail about a change goes to each reader of its topic, from the workspace,
/// and wakes them. It says which key changed, how, and to which version.
pub proof fn readers_get_the_change(
    ws: Seq<char>,
    key: Seq<char>,
    version: u64,
    op: Seq<char>,
    topic: Seq<char>,
    readers: Seq<TopicReader>,
    now: i64,
    i: int,
)
    requires
        0 <= i < readers.len(),
    ensures
        topic_mail(ws, topic, change_body(key, version, op), readers, now).len() == readers.len(),
        ({
            let m = topic_mail(ws, topic, change_body(key, version, op), readers, now)[i];
            &&& m.id == readers[i].mail_id@
            &&& m.recipient_id == readers[i].agent_id@
            &&& m.sender_id == Some("workspace://"@ + ws)
            &&& m.topic == Some(topic)
            &&& m.body == "{\"key\":"@ + json_quoted(key) + ",\"op\":"@ + json_quoted(op)
                + ",\"version\":"@ + decimal(version as nat) + "}"@
            &&& m.state == MailState::Pending
            &&& m.wake_eligible
            &&& m.created_at == now
        }),
{
}

/// What is told of such mail names it and its reader, and shows the start of
/// it.
pub proof fn mail_of_workspaces_is_told(m: MailView)
    ensures
        received_event(m) matches EventView::MailReceived {
            mail_id,
            recipient_id,
            sender_id,
            topic,
            body_preview,
            wake_eligible,
            origin_daemon_id,
        } && mail_id == m.id && recipient_id == m.recipient_id && sender_id == m.sender_id && topic
            == m.topic && wake_eligible && origin_daemon_id is None && body_preview.is_prefix_of(
            m.body,
        ) && body_preview.len() == (if m.body.len() < 200 {
            m.body.len() as int
        } else {
            200
        }),
{
}

/// A failed command tells how it ended and what it wrote.
pub proof fn failures_tell_how_git_ended(g: GitError, r: String)
    requires
        call_ensures(GitError::to_text, (&g,), r),
    ensures
        g.exit_code is None ==> r@ == "git failed (exit "@ + "None"@ + "): "@ + g.stderr@,
        g.exit_code matches Some(c) ==> r@ == "git failed (exit "@ + ("Some("@ + signed_decimal(
            c as int,
        ) + ")"@) + "): "@ + g.stderr@,
{
}

} // verus!
