//! Requests on the memory that the agents of a workspace share.

use super::{fails, rpc_err, RpcFault};
use crate::decimal::{decimal, to_decimal};
use crate::text::{cat, opt_str, own};
use crate::types::{EventView, Mail, StreamEvent};
use crate::workspace_db::memory::{
    changed, copied, size_at, stored, total_size, version_at, EntryView, MemoryWriteOutcome,
};
use crate::workspace_db::{distinct, workspace_at, Database, Workspace, WorkspaceState};
use crate::workspace_registry::{
    memory_topics, publish_memory_topic_mail, says, store_created, tells_of_change, TopicReader,
    WorkspaceError,
};
use vstd::prelude::*;
use vstd::string::*;

verus! {

/// Checks the name of a workspace that is to be created.
pub fn handle_workspace_create(name_is_valid: bool) -> (r: Result<(), RpcFault>)
    ensures
        r is Ok <==> name_is_valid,
        r matches Err(e) ==> fails(e, "invalid_workspace_name"@),
{
    if name_is_valid {
        Ok(())
    } else {
        Err(rpc_err("invalid_workspace_name"))
    }
}

/// Ends the creation of a workspace whose worktree was added: it is stored,
/// and takes over the memory of another where that was asked for. On an error
/// the worktree has to be removed again.
pub fn finish_workspace_create(
    db: &mut Database,
    ws: Workspace,
    copy_memory_from: Option<&str>,
    now: i64,
) -> (r: Result<StreamEvent, WorkspaceError>)
    requires
        old(db).workspaces_wf(),
        old(db).memory_holds(),
    ensures
        final(db).workspaces_wf(),
        final(db).memory_holds(),
        final(db).agents == old(db).agents,
        final(db).assignments == old(db).assignments,
        final(db).federations == old(db).federations,
        final(db).outbox == old(db).outbox,
        final(db).inbox == old(db).inbox,
        final(db).counters == old(db).counters,
        r is Ok <==> forall|i: int|
            0 <= i < old(db).workspaces@.len() ==> distinct(
                (#[trigger] old(db).workspaces@[i])@,
                ws@,
            ),
        match r {
            Ok(event) => {
                &&& final(db).workspaces@ == old(db).workspaces@.push(ws)
                &&& event@ == (EventView::WorkspaceCreated {
                    workspace_id: ws.id@,
                    path: ws.path@,
                    branch: ws.branch@,
                })
                &&& match copy_memory_from {
                    Some(src) => forall|w: Seq<char>, k: Seq<char>| #[trigger]
                        stored(final(db).memory@, w, k) == copied(
                            old(db).memory@,
                            old(db).memory@,
                            src@,
                            ws.id@,
                            now,
                            w,
                            k,
                        ),
                    None => final(db).memory == old(db).memory,
                }
            },
            Err(e) => {
                &&& *final(db) == *old(db)
                &&& says(e, "db_insert_failed:"@ + "workspace_taken"@)
            },
        },
{
    let id = ws.id.clone();
    let event = match store_created(db, ws) {
        Ok(event) => event,
        Err(e) => return Err(e),
    };
    if let Some(src) = copy_memory_from {
        let _ = db.memory_copy_workspace(src, id.as_str(), now);
    }
    Ok(event)
}

/// A write to a workspace's memory.
#[derive(Debug)]
pub struct MemoryPut {
    pub workspace_id: String,
    pub key: String,
    pub value: Vec<u8>,
    pub expected_version: Option<u64>,
    pub sender: Option<String>,
}

/// How much memory a workspace may use.
#[derive(Clone, Copy, Debug)]
pub struct MemoryCaps {
    pub value_bytes: u64,
    pub total_bytes: u64,
}

/// A change to the memory: the version that it is known by, what is told of
/// it, and the mail on each of its topics.
#[derive(Debug)]
pub struct MemoryChanged {
    pub version: u64,
    pub event: StreamEvent,
    pub mails: Vec<Vec<Mail>>,
}

/// The size of a workspace's memory after a write of `len` bytes, as it is
/// held against the cap.
pub open spec fn size_after(total: nat, had: nat, len: nat) -> nat {
    let rest = if total >= had {
        (total - had) as nat
    } else {
        0
    };
    if rest + len <= u64::MAX {
        rest + len
    } else {
        u64::MAX as nat
    }
}

/// Why a write is refused before the version is looked at.
pub open spec fn put_refused(db: Database, p: MemoryPut, key_is_valid: bool, caps: MemoryCaps) -> Option<
    Seq<char>,
> {
    let ws = workspace_at(db.workspaces@, p.workspace_id@);
    if !key_is_valid {
        Some("invalid_memory_key"@)
    } else if ws is None {
        Some("workspace_not_found"@)
    } else if ws->0.state != WorkspaceState::Active {
        Some("workspace_destroying"@)
    } else if p.value@.len() > caps.value_bytes {
        Some("memory_value_too_large"@)
    } else if size_after(
        total_size(db.memory@, p.workspace_id@),
        size_at(db.memory@, p.workspace_id@, p.key@),
        p.value@.len(),
    ) > caps.total_bytes {
        Some("memory_total_cap_exceeded"@)
    } else {
        None
    }
}

/// The code that tells a writer of the current version.
pub open spec fn conflict_code(version: u64) -> Seq<char> {
    "cas_conflict:current_version="@ + decimal(version as nat)
}

fn conflict(version: u64) -> (f: RpcFault)
    ensures
        fails(f, conflict_code(version)),
{
    rpc_err(cat("cas_conflict:current_version=", to_decimal(version).as_str()).as_str())
}

/// In whose name a change is stored.
pub open spec fn writer(sender: Option<String>) -> Seq<char> {
    match sender {
        Some(s) => s@,
        None => "system"@,
    }
}

/// Writes to a workspace's memory, and mails the readers of the key's topics.
/// `readers` are those of each of
/// [`list_memory_topics`](crate::workspace_registry::list_memory_topics).
pub fn handle_memory_put(
    db: &mut Database,
    p: MemoryPut,
    key_is_valid: bool,
    caps: MemoryCaps,
    readers: &Vec<Vec<TopicReader>>,
    now: i64,
) -> (r: Result<MemoryChanged, RpcFault>)
    requires
        readers@.len() == memory_topics(p.workspace_id@, p.key@).len(),
        old(db).workspaces_wf(),
        old(db).memory_holds(),
        total_size(old(db).memory@, p.workspace_id@) <= u64::MAX,
        version_at(old(db).memory@, p.workspace_id@, p.key@) < i64::MAX,
    ensures
        final(db).memory_holds(),
        final(db).same_but_memory(*old(db)),
        ({
            let version = version_at(old(db).memory@, p.workspace_id@, p.key@);
            match put_refused(*old(db), p, key_is_valid, caps) {
                Some(code) => r matches Err(e) && fails(e, code) && final(db).memory
                    == old(db).memory,
                None => if p.expected_version is Some && p.expected_version->0 != version {
                    &&& r matches Err(e)
                    &&& fails(e, conflict_code(version))
                    &&& final(db).memory == old(db).memory
                } else {
                    &&& r matches Ok(c)
                    &&& c.version == version + 1
                    &&& c.event@ == (EventView::MemoryWritten {
                        workspace_id: p.workspace_id@,
                        key: p.key@,
                        version: c.version,
                        agent_id: crate::text::opt_text(p.sender),
                    })
                    &&& tells_of_change(
                        c.mails@,
                        p.workspace_id@,
                        p.key@,
                        c.version,
                        "put"@,
                        readers@,
                        now,
                    )
                    &&& changed(
                        old(db).memory@,
                        final(db).memory@,
                        p.workspace_id@,
                        p.key@,
                        Some(
                            EntryView {
                                value: p.value@,
                                version: c.version,
                                updated_at: now,
                                updated_by: writer(p.sender),
                            },
                        ),
                    )
                    &&& total_size(final(db).memory@, p.workspace_id@) + size_at(
                        old(db).memory@,
                        p.workspace_id@,
                        p.key@,
                    ) == total_size(old(db).memory@, p.workspace_id@) + p.value@.len()
                },
            }
        }),
{
    if !key_is_valid {
        return Err(rpc_err("invalid_memory_key"));
    }
    let ws = match db.get_workspace(p.workspace_id.as_str()) {
        None => return Err(rpc_err("workspace_not_found")),
        Some(w) => w,
    };
    if ws.state != WorkspaceState::Active {
        return Err(rpc_err("workspace_destroying"));
    }
    let len: u64 = p.value.len() as u64;
    if len > caps.value_bytes {
        return Err(rpc_err("memory_value_too_large"));
    }
    let total: u64 = db.memory_total_size_for_workspace(p.workspace_id.as_str());
    let (_, had) = db.memory_current_version_and_size(p.workspace_id.as_str(), p.key.as_str());
    let new_total: u64 = total.saturating_sub(had as u64).saturating_add(len);
    if new_total > caps.total_bytes {
        return Err(rpc_err("memory_total_cap_exceeded"));
    }
    let updated_by = match &p.sender {
        Some(s) => s.clone(),
        None => own("system"),
    };
    match db.memory_put_cas(
        p.workspace_id.as_str(),
        p.key.as_str(),
        p.value,
        p.expected_version,
        updated_by.as_str(),
        now,
    ) {
        MemoryWriteOutcome::Conflict { current_version } => Err(conflict(current_version)),
        MemoryWriteOutcome::Written { version } => {
            let mails = publish_memory_topic_mail(
                p.workspace_id.as_str(),
                p.key.as_str(),
                version,
                "put",
                readers,
                now,
            );
            Ok(
                MemoryChanged {
                    version,
                    event: StreamEvent::MemoryWritten {
                        workspace_id: p.workspace_id,
                        key: p.key,
                        version,
                        agent_id: p.sender,
                    },
                    mails,
                },
            )
        },
    }
}

/// Reads from a workspace's memory: the value and its version.
pub fn handle_memory_get(db: &Database, workspace_id: &str, key: &str, key_is_valid: bool) -> (r: Result<
    (Vec<u8>, u64),
    RpcFault,
>)
    requires
        db.memory_holds(),
    ensures
        if !key_is_valid {
            r matches Err(e) && fails(e, "invalid_memory_key"@)
        } else {
            match stored(db.memory@, workspace_id@, key@) {
                Some(e) => r matches Ok((value, version)) && value@ == e.value && version
                    == e.version,
                None => r matches Err(e) && fails(e, "memory_not_found"@),
            }
        },
{
    if !key_is_valid {
        return Err(rpc_err("invalid_memory_key"));
    }
    match db.memory_get(workspace_id, key) {
        Some(entry) => Ok(entry),
        None => Err(rpc_err("memory_not_found")),
    }
}

/// Deletes from a workspace's memory, and mails the readers of the key's
/// topics. Where there was nothing, nothing is told.
pub fn handle_memory_delete(
    db: &mut Database,
    workspace_id: &str,
    key: &str,
    key_is_valid: bool,
    expected_version: Option<u64>,
    sender: Option<&str>,
    readers: &Vec<Vec<TopicReader>>,
    now: i64,
) -> (r: Result<Option<MemoryChanged>, RpcFault>)
    requires
        readers@.len() == memory_topics(workspace_id@, key@).len(),
        old(db).memory_holds(),
    ensures
        final(db).memory_holds(),
        final(db).same_but_memory(*old(db)),
        ({
            let version = version_at(old(db).memory@, workspace_id@, key@);
            if !key_is_valid {
                &&& r matches Err(e)
                &&& fails(e, "invalid_memory_key"@)
                &&& final(db).memory == old(db).memory
            } else if version == 0 {
                r == Ok::<Option<MemoryChanged>, RpcFault>(None) && final(db).memory
                    == old(db).memory
            } else if expected_version is Some && expected_version->0 != version {
                &&& r matches Err(e)
                &&& fails(e, conflict_code(version))
                &&& final(db).memory == old(db).memory
            } else {
                &&& r matches Ok(Some(c))
                &&& c.version == version
                &&& c.event@ == (EventView::MemoryDeleted {
                    workspace_id: workspace_id@,
                    key: key@,
                    agent_id: opt_str(sender),
                })
                &&& tells_of_change(
                    c.mails@,
                    workspace_id@,
                    key@,
                    version,
                    "delete"@,
                    readers@,
                    now,
                )
                &&& changed(old(db).memory@, final(db).memory@, workspace_id@, key@, None)
            }
        }),
{
    if !key_is_valid {
        return Err(rpc_err("invalid_memory_key"));
    }
    match db.memory_delete_cas(workspace_id, key, expected_version) {
        MemoryWriteOutcome::Conflict { current_version } => Err(conflict(current_version)),
        MemoryWriteOutcome::Written { version } => {
            if version == 0 {
                return Ok(None);
            }
            let agent_id: Option<String> = match sender {
                Some(s) => Some(own(s)),
                None => None,
            };
            let mails = publish_memory_topic_mail(workspace_id, key, version, "delete", readers, now);
            Ok(
                Some(
                    MemoryChanged {
                        version,
                        mails,
                        event: StreamEvent::MemoryDeleted {
                            workspace_id: own(workspace_id),
                            key: own(key),
                            agent_id,
                        },
                    },
                ),
            )
        },
    }
}

// ---------------------------------------------------------------------------
// Laws
// ---------------------------------------------------------------------------

/// A write that goes through leaves the workspace's memory within its cap.
pub proof fn writes_stay_within_cap(
    db: Database,
    after: Database,
    p: MemoryPut,
    key_is_valid: bool,
    caps: MemoryCaps,
)
    requires
        put_refused(db, p, key_is_valid, caps) is None,
        total_size(after.memory@, p.workspace_id@) + size_at(
            db.memory@,
            p.workspace_id@,
            p.key@,
        ) == total_size(db.memory@, p.workspace_id@) + p.value@.len(),
        caps.total_bytes < u64::MAX,
    ensures
        total_size(after.memory@, p.workspace_id@) <= caps.total_bytes,
{
}

/// A write goes through where its key is sound, its workspace is active, the
/// value is within its cap, the memory stays within its own, and the version
/// is the one that was expected. The first of these that fails is told, and
/// then nothing changes.
pub proof fn sound_writes_go_through(
    db: &mut Database,
    p: MemoryPut,
    key_is_valid: bool,
    caps: MemoryCaps,
    readers: Vec<Vec<TopicReader>>,
    now: i64,
    r: Result<MemoryChanged, RpcFault>,
)
    requires
        readers@.len() == memory_topics(p.workspace_id@, p.key@).len(),
        old(db).workspaces_wf(),
        old(db).memory_holds(),
        total_size(old(db).memory@, p.workspace_id@) <= u64::MAX,
        size_at(old(db).memory@, p.workspace_id@, p.key@) <= total_size(
            old(db).memory@,
            p.workspace_id@,
        ),
        version_at(old(db).memory@, p.workspace_id@, p.key@) < i64::MAX,
        caps.total_bytes < u64::MAX,
        call_ensures(handle_memory_put, (db, p, key_is_valid, caps, &readers, now), r),
    ensures
        ({
            let ws = workspace_at(old(db).workspaces@, p.workspace_id@);
            let active = ws matches Some(w) && w.state == WorkspaceState::Active;
            let version = version_at(old(db).memory@, p.workspace_id@, p.key@);
            let size = total_size(old(db).memory@, p.workspace_id@) - size_at(
                old(db).memory@,
                p.workspace_id@,
                p.key@,
            ) + p.value@.len();
            let fits = p.value@.len() <= caps.value_bytes;
            let current = p.expected_version matches Some(v) ==> v == version;
            &&& r is Ok <==> key_is_valid && active && fits && size <= caps.total_bytes && current
            &&& r is Err ==> final(db).memory == old(db).memory
            &&& !key_is_valid ==> fails(r->Err_0, "invalid_memory_key"@)
            &&& key_is_valid && ws is None ==> fails(r->Err_0, "workspace_not_found"@)
            &&& key_is_valid && ws is Some && !active ==> fails(
                r->Err_0,
                "workspace_destroying"@,
            )
            &&& key_is_valid && active && !fits ==> fails(r->Err_0, "memory_value_too_large"@)
            &&& key_is_valid && active && fits && size > caps.total_bytes ==> fails(
                r->Err_0,
                "memory_total_cap_exceeded"@,
            )
            &&& key_is_valid && active && fits && size <= caps.total_bytes && !current ==> fails(
                r->Err_0,
                "cas_conflict:current_version="@ + decimal(version as nat),
            )
        }),
{
}

/// What was written is stored under the next version, in the name of its
/// writer, or of the system where there is none; the change is told and every
/// topic of the key gets its mail.
pub proof fn writes_are_stored_and_told(
    db: &mut Database,
    p: MemoryPut,
    key_is_valid: bool,
    caps: MemoryCaps,
    readers: Vec<Vec<TopicReader>>,
    now: i64,
    r: Result<MemoryChanged, RpcFault>,
)
    requires
        readers@.len() == memory_topics(p.workspace_id@, p.key@).len(),
        old(db).workspaces_wf(),
        old(db).memory_holds(),
        total_size(old(db).memory@, p.workspace_id@) <= u64::MAX,
        version_at(old(db).memory@, p.workspace_id@, p.key@) < i64::MAX,
        call_ensures(handle_memory_put, (db, p, key_is_valid, caps, &readers, now), r),
    ensures
        r matches Ok(c) ==> {
            &&& c.version == version_at(old(db).memory@, p.workspace_id@, p.key@) + 1
            &&& stored(final(db).memory@, p.workspace_id@, p.key@) matches Some(e) && e.value
                == p.value@ && e.version == c.version && e.updated_at == now && (p.sender
                is None ==> e.updated_by == "system"@) && (p.sender matches Some(s)
                ==> e.updated_by == s@)
            &&& c.event@ matches EventView::MemoryWritten { workspace_id, key, version, agent_id }
                && workspace_id == p.workspace_id@ && key == p.key@ && version == c.version
                && agent_id == crate::text::opt_text(p.sender)
            &&& c.mails@.len() == readers@.len()
        },
{
}

/// A read gives the value and its version, and an entry that is not there is
/// told.
pub proof fn reads_give_entries(
    db: Database,
    ws: &str,
    key: &str,
    key_is_valid: bool,
    r: Result<(Vec<u8>, u64), RpcFault>,
)
    requires
        db.memory_holds(),
        call_ensures(handle_memory_get, (&db, ws, key, key_is_valid), r),
    ensures
        r is Ok <==> key_is_valid && stored(db.memory@, ws@, key@) is Some,
        r matches Ok((value, version)) ==> value@ == stored(db.memory@, ws@, key@)->0.value
            && version == version_at(db.memory@, ws@, key@),
        !key_is_valid ==> fails(r->Err_0, "invalid_memory_key"@),
        key_is_valid && r is Err ==> fails(r->Err_0, "memory_not_found"@),
{
}

/// A deletion takes the entry away and tells of it; where there is none
/// nothing is told, and where the version is another nothing is done.
pub proof fn deletions_are_told(
    db: &mut Database,
    ws: &str,
    key: &str,
    key_is_valid: bool,
    expected: Option<u64>,
    sender: Option<&str>,
    readers: Vec<Vec<TopicReader>>,
    now: i64,
    r: Result<Option<MemoryChanged>, RpcFault>,
)
    requires
        readers@.len() == memory_topics(ws@, key@).len(),
        old(db).memory_holds(),
        call_ensures(
            handle_memory_delete,
            (db, ws, key, key_is_valid, expected, sender, &readers, now),
            r,
        ),
    ensures
        ({
            let version = version_at(old(db).memory@, ws@, key@);
            let current = expected matches Some(v) ==> v == version;
            &&& r matches Ok(Some(c)) ==> key_is_valid && version > 0 && current && c.version
                == version && stored(final(db).memory@, ws@, key@) is None && (c.event@ matches
                EventView::MemoryDeleted { workspace_id, key: k, agent_id } && workspace_id == ws@
                && k == key@ && agent_id == opt_str(sender))
            &&& key_is_valid && version > 0 && current ==> (r matches Ok(Some(_)))
            &&& key_is_valid && version == 0 ==> (r matches Ok(None))
            &&& key_is_valid && version > 0 && !current ==> r is Err && fails(
                r->Err_0,
                "cas_conflict:current_version="@ + decimal(version as nat),
            )
            &&& !key_is_valid ==> r is Err
            &&& r is Err ==> final(db).memory == old(db).memory
        }),
{
}

/// A new workspace is stored with its worktree, and told; the memory that it
/// takes over is copied into it.
pub proof fn new_workspaces_are_stored(
    db: &mut Database,
    ws: Workspace,
    from: &str,
    now: i64,
    r: Result<StreamEvent, WorkspaceError>,
    key: Seq<char>,
)
    requires
        old(db).workspaces_wf(),
        old(db).memory_holds(),
        call_ensures(finish_workspace_create, (db, ws, Some(from), now), r),
        from@ != ws.id@,
    ensures
        r is Ok ==> final(db).workspaces@.last() == ws,
        r is Ok && stored(old(db).memory@, ws.id@, key) is None && stored(
            old(db).memory@,
            from@,
            key,
        ) is Some ==> (stored(final(db).memory@, ws.id@, key) matches Some(e) && e.value == stored(
            old(db).memory@,
            from@,
            key,
        )->0.value && e.version == 1),
        r matches Ok(e) ==> (e@ matches EventView::WorkspaceCreated { workspace_id, path, branch }
            && workspace_id == ws.id@ && path == ws.path@ && branch == ws.branch@),
        r is Err ==> *final(db) == *old(db),
{
}

} // verus!
