//! Requests on federation: what may be shared with peers, and what a peer is
//! told when it is.

use super::{fails, rpc_err, RpcFault};
use crate::bytes::byte_len;
use crate::pieces::{cut_once, split_once};
use crate::text::{cat, has_prefix, opt_text, own, to_chars, utf8_len};
use crate::types::{AgentState, EventView, StreamEvent};
use crate::workspace_db::federation::{
    direction_name, direction_of, federations_view, goes_out, merged, upserted, FederationDirection,
    FederationView,
};
use crate::workspace_db::{
    distinct, shadow_path, workspace_at, workspaces_view, Database, WorkspaceKind, WorkspaceState,
    WorkspaceView,
};
use vstd::prelude::*;
use vstd::string::*;

verus! {

/// Bytes that a namespace or a key may have.
pub const NS_NAME_MAX: usize = 128;

/// Whether a text is a name for a namespace or a key: it says something, is
/// not too long, and each of its characters is printable ASCII, without space.
pub open spec fn ns_name(s: Seq<char>) -> bool {
    0 < s.len() && utf8_len(s) <= NS_NAME_MAX && forall|i: int|
        0 <= i < s.len() ==> '!' <= #[trigger] s[i] <= '~'
}

/// Whether a text is a name for a namespace or a key.
pub fn valid_ns_name(s: &str) -> (r: bool)
    ensures
        r == ns_name(s@),
{
    let v = to_chars(s);
    if v.len() == 0 || byte_len(s) > NS_NAME_MAX {
        return false;
    }
    for i in 0..v.len()
        invariant
            v@ == s@,
            forall|j: int| 0 <= j < i ==> '!' <= #[trigger] s@[j] <= '~',
    {
        if v[i] < '!' || v[i] > '~' {
            assert(!('!' <= s@[i as int] <= '~'));
            return false;
        }
    }
    true
}

/// Checks a write to a namespace, or a deletion from one.
pub fn check_ns_entry(namespace: &str, key: &str) -> (r: Result<(), RpcFault>)
    ensures
        r is Ok <==> ns_name(namespace@) && ns_name(key@),
        r matches Err(e) ==> fails(e, "invalid_namespace_or_key"@),
{
    if valid_ns_name(namespace) && valid_ns_name(key) {
        Ok(())
    } else {
        Err(rpc_err("invalid_namespace_or_key"))
    }
}

/// The direction with a name.
pub fn parse_direction(s: &str) -> (r: Result<FederationDirection, RpcFault>)
    ensures
        match r {
            Ok(d) => s@ == direction_name(d),
            Err(e) => {
                &&& forall|d: FederationDirection| s@ != #[trigger] direction_name(d)
                &&& fails(e, "invalid_direction"@)
            },
        },
{
    match FederationDirection::parse(s) {
        Some(d) => Ok(d),
        None => Err(rpc_err("invalid_direction")),
    }
}

/// Checks the federation of a namespace.
pub fn handle_ns_federate(namespace: &str, direction: &str) -> (r: Result<
    FederationDirection,
    RpcFault,
>)
    ensures
        if !ns_name(namespace@) {
            r matches Err(e) && fails(e, "invalid_namespace"@)
        } else {
            match r {
                Ok(d) => direction@ == direction_name(d),
                Err(e) => {
                    &&& forall|d: FederationDirection| direction@ != #[trigger] direction_name(d)
                    &&& fails(e, "invalid_direction"@)
                },
            }
        },
{
    if !valid_ns_name(namespace) {
        return Err(rpc_err("invalid_namespace"));
    }
    parse_direction(direction)
}

/// Topics that only the daemon itself writes to.
pub open spec fn reserved_topic(topic: Seq<char>) -> bool {
    "workspace/"@.is_prefix_of(topic) || "supervisor/"@.is_prefix_of(topic)
        || "wake/"@.is_prefix_of(topic)
}

/// Checks the federation of a topic.
pub fn handle_topic_federate(topic: &str, topic_is_valid: bool, direction: &str) -> (r: Result<
    FederationDirection,
    RpcFault,
>)
    ensures
        if !topic_is_valid {
            r matches Err(e) && fails(e, "invalid_topic_name"@)
        } else if reserved_topic(topic@) {
            r matches Err(e) && fails(e, "topic_federation_reserved"@)
        } else {
            match r {
                Ok(d) => direction@ == direction_name(d),
                Err(e) => {
                    &&& forall|d: FederationDirection| direction@ != #[trigger] direction_name(d)
                    &&& fails(e, "invalid_direction"@)
                },
            }
        },
{
    if !topic_is_valid {
        return Err(rpc_err("invalid_topic_name"));
    }
    if has_prefix(topic, "workspace/") || has_prefix(topic, "supervisor/") || has_prefix(
        topic,
        "wake/",
    ) {
        return Err(rpc_err("topic_federation_reserved"));
    }
    parse_direction(direction)
}

/// What is told of a topic that was federated.
pub fn topic_federated(peer_id: &str, topic: &str, direction: FederationDirection) -> (e: StreamEvent)
    ensures
        e@ == (EventView::TopicFederationAdded {
            peer_id: peer_id@,
            topic: topic@,
            direction: direction_name(direction),
        }),
{
    StreamEvent::TopicFederationAdded {
        peer_id: own(peer_id),
        topic: own(topic),
        direction: own(direction.as_str()),
    }
}

/// What is told of a topic whose federation was to end: something only where
/// there was one.
pub fn topic_unfederated(peer_id: &str, topic: &str, removed: bool) -> (r: Option<StreamEvent>)
    ensures
        if removed {
            r matches Some(e) && e@ == (EventView::TopicFederationRemoved {
                peer_id: peer_id@,
                topic: topic@,
            })
        } else {
            r is None
        },
{
    if removed {
        Some(StreamEvent::TopicFederationRemoved { peer_id: own(peer_id), topic: own(topic) })
    } else {
        None
    }
}

/// Federates a workspace with a peer. Only the home of a workspace can: a
/// shadow would send on events that are not its own.
pub fn handle_workspace_federate(
    db: &mut Database,
    workspace: &str,
    direction: &str,
    peer: Option<&str>,
    fed_id: &str,
    now: i64,
) -> (r: Result<FederationDirection, RpcFault>)
    requires
        old(db).workspaces_wf(),
        old(db).federations_hold(),
    ensures
        final(db).federations_hold(),
        final(db).same_but_federations(*old(db)),
        ({
            let found = workspace_at(old(db).workspaces@, workspace@);
            let unknown = forall|d: FederationDirection|
                direction@ != #[trigger] direction_name(d);
            let refused: Option<Seq<char>> = if unknown {
                Some("invalid_direction"@)
            } else if found is None {
                Some("workspace_not_found"@)
            } else if found->0.kind == WorkspaceKind::Shadow {
                Some("workspace_is_shadow_cannot_federate"@)
            } else if peer is None {
                Some("peer_not_found"@)
            } else {
                None
            };
            match refused {
                Some(code) => r matches Err(e) && fails(e, code) && final(db).federations
                    == old(db).federations,
                None => {
                    &&& r matches Ok(d)
                    &&& exists|asked: FederationDirection|
                        direction@ == #[trigger] direction_name(asked) && d == (
                        match direction_of(old(db).federations@, peer->0@, workspace@) {
                            Some(had) => merged(had, asked),
                            None => asked,
                        }) && federations_view(final(db).federations@) == upserted(
                            federations_view(old(db).federations@),
                            FederationView {
                                id: fed_id@,
                                peer_id: peer->0@,
                                workspace_id: workspace@,
                                direction: asked,
                                created_at: now,
                            },
                        )
                    &&& direction_of(final(db).federations@, peer->0@, workspace@) == Some(d)
                    &&& forall|p: Seq<char>, w: Seq<char>|
                        !(p == peer->0@ && w == workspace@) ==> #[trigger] direction_of(
                            final(db).federations@,
                            p,
                            w,
                        ) == direction_of(old(db).federations@, p, w)
                },
            }
        }),
{
    let asked = match parse_direction(direction) {
        Ok(d) => d,
        Err(e) => return Err(e),
    };
    assert(direction@ == direction_name(asked));
    let ws = match db.get_workspace(workspace) {
        None => return Err(rpc_err("workspace_not_found")),
        Some(w) => w,
    };
    if ws.kind == WorkspaceKind::Shadow {
        return Err(rpc_err("workspace_is_shadow_cannot_federate"));
    }
    let peer_id = match peer {
        None => return Err(rpc_err("peer_not_found")),
        Some(p) => p,
    };
    Ok(db.upsert_workspace_federation(fed_id, peer_id, workspace, asked, now))
}

/// Ends a workspace's federation with a peer, and says whether there was one.
/// A shadow stays where it is.
pub fn handle_workspace_unfederate(db: &mut Database, workspace: &str, peer: Option<&str>) -> (r:
    Result<bool, RpcFault>)
    requires
        old(db).federations_hold(),
    ensures
        final(db).federations_hold(),
        final(db).same_but_federations(*old(db)),
        match peer {
            None => r matches Err(e) && fails(e, "peer_not_found"@) && final(db).federations
                == old(db).federations,
            Some(p) => {
                &&& r == Ok::<bool, RpcFault>(
                    direction_of(old(db).federations@, p@, workspace@) is Some,
                )
                &&& direction_of(final(db).federations@, p@, workspace@) is None
                &&& r == Ok::<bool, RpcFault>(false) ==> final(db).federations
                    == old(db).federations
                &&& forall|i: int|
                    0 <= i < old(db).federations@.len() && (
                    #[trigger] old(db).federations@[i]).is_of(p@, workspace@)
                        ==> final(db).federations@ == old(db).federations@.remove(i)
            },
        },
{
    match peer {
        None => Err(rpc_err("peer_not_found")),
        Some(p) => Ok(db.delete_workspace_federation(p, workspace) > 0),
    }
}

/// A shadow workspace that was made.
#[derive(Debug)]
pub struct ShadowMade {
    pub local_workspace_id: String,
    pub home_daemon_id: String,
    pub home_workspace_id: String,
}

/// What is wrong with the address of a workspace at its home.
pub open spec fn home_fault(home: Seq<char>, daemon_is_valid: bool) -> Option<Seq<char>> {
    match split_once(home, '/') {
        None => Some("invalid_home_address_expected_daemon/workspace"@),
        Some((_, ws)) => if !daemon_is_valid {
            Some("invalid_home_daemon_id"@)
        } else if ws.len() == 0 {
            Some("invalid_home_workspace_id"@)
        } else {
            None
        },
    }
}

/// The local id of a shadow: the alias, or one that is made of its home's.
pub open spec fn shadow_id(alias: Option<Seq<char>>, home_ws: Seq<char>) -> Seq<char> {
    match alias {
        Some(a) => a,
        None => home_ws + "-shadow"@,
    }
}

/// The address of a workspace at its home, taken apart. `daemon_is_valid` says
/// whether what stands before the slash is the id of a daemon.
pub fn parse_home(home: &str, daemon_is_valid: bool) -> (r: Result<(String, String), RpcFault>)
    ensures
        match home_fault(home@, daemon_is_valid) {
            Some(code) => r matches Err(e) && fails(e, code),
            None => r matches Ok((d, w)) && split_once(home@, '/') == Some((d@, w@)),
        },
{
    match cut_once(home, '/') {
        None => Err(rpc_err("invalid_home_address_expected_daemon/workspace")),
        Some((d, w)) => {
            if !daemon_is_valid {
                return Err(rpc_err("invalid_home_daemon_id"));
            }
            if w.as_str().is_empty() {
                return Err(rpc_err("invalid_home_workspace_id"));
            }
            Ok((d, w))
        },
    }
}

/// Makes a shadow of another daemon's workspace, and lets the peer send its
/// events.
pub fn handle_workspace_federate_subscribe(
    db: &mut Database,
    home_daemon_id: &str,
    home_workspace_id: &str,
    alias: Option<&str>,
    branch: &str,
    peer_id: &str,
    fed_id: &str,
    now: i64,
) -> (r: Result<ShadowMade, RpcFault>)
    requires
        old(db).workspaces_wf(),
        old(db).federations_hold(),
    ensures
        final(db).workspaces_wf(),
        final(db).federations_hold(),
        ({
            let id = shadow_id(crate::text::opt_str(alias), home_workspace_id@);
            let row = WorkspaceView {
                id,
                path: shadow_path(home_daemon_id@, home_workspace_id@),
                repo_path: ""@,
                branch: branch@,
                state: WorkspaceState::Active,
                created_at: now,
                kind: WorkspaceKind::Shadow,
                home_daemon_id: Some(home_daemon_id@),
                home_workspace_id: Some(home_workspace_id@),
            };
            let free = forall|i: int|
                0 <= i < old(db).workspaces@.len() ==> distinct(
                    (#[trigger] old(db).workspaces@[i])@,
                    row,
                );
            if free {
                &&& r matches Ok(m)
                &&& m.local_workspace_id@ == id
                &&& m.home_daemon_id@ == home_daemon_id@
                &&& m.home_workspace_id@ == home_workspace_id@
                &&& workspaces_view(final(db).workspaces@) == workspaces_view(
                    old(db).workspaces@,
                ).push(row)
                &&& final(db).agents == old(db).agents
                &&& final(db).assignments == old(db).assignments
                &&& final(db).memory == old(db).memory
                &&& final(db).outbox == old(db).outbox
                &&& final(db).inbox == old(db).inbox
                &&& final(db).counters == old(db).counters
                &&& federations_view(final(db).federations@) == upserted(
                    federations_view(old(db).federations@),
                    FederationView {
                        id: fed_id@,
                        peer_id: peer_id@,
                        workspace_id: id,
                        direction: FederationDirection::Inbound,
                        created_at: now,
                    },
                )
                &&& forall|p: Seq<char>, w: Seq<char>| #[trigger]
                    direction_of(final(db).federations@, p, w) == (if p == peer_id@ && w == id {
                        match direction_of(old(db).federations@, p, w) {
                            Some(had) => Some(merged(had, FederationDirection::Inbound)),
                            None => Some(FederationDirection::Inbound),
                        }
                    } else {
                        direction_of(old(db).federations@, p, w)
                    })
            } else {
                &&& r matches Err(e)
                &&& fails(e, "insert_shadow: "@ + "workspace_taken"@)
                &&& *final(db) == *old(db)
            }
        }),
{
    let local_id = match alias {
        Some(a) => own(a),
        None => cat(home_workspace_id, "-shadow"),
    };
    let ghost before = *db;
    match db.insert_shadow_workspace(
        local_id.as_str(),
        home_daemon_id,
        home_workspace_id,
        branch,
        now,
    ) {
        Ok(_) => {},
        Err(_) => {
            assert(*db == before);
            return Err(rpc_err(cat("insert_shadow: ", "workspace_taken").as_str()));
        },
    }
    let _ = db.upsert_workspace_federation(
        fed_id,
        peer_id,
        local_id.as_str(),
        FederationDirection::Inbound,
        now,
    );
    Ok(
        ShadowMade {
            local_workspace_id: local_id,
            home_daemon_id: own(home_daemon_id),
            home_workspace_id: own(home_workspace_id),
        },
    )
}

/// An agent, as far as a peer is told of it.
#[derive(Debug)]
pub struct LifecycleRow {
    pub agent_id: String,
    pub state: AgentState,
    pub name: Option<String>,
    pub task: String,
    pub exit_code: Option<i32>,
}

/// What a peer is told of an agent. A snapshot has the same state before and
/// after.
#[derive(Debug)]
pub struct AgentLifecyclePayload {
    pub agent_id: String,
    pub old_state: AgentState,
    pub new_state: AgentState,
    pub name: Option<String>,
    pub task: String,
    pub exit_code: Option<i32>,
}

/// What an [`AgentLifecyclePayload`] says.
pub ghost struct LifecycleView {
    pub agent_id: Seq<char>,
    pub old_state: AgentState,
    pub new_state: AgentState,
    pub name: Option<Seq<char>>,
    pub task: Seq<char>,
    pub exit_code: Option<i32>,
}

/// What each payload of a list says.
pub open spec fn lifecycles_view(list: Seq<AgentLifecyclePayload>) -> Seq<LifecycleView> {
    list.map_values(
        |p: AgentLifecyclePayload|
            LifecycleView {
                agent_id: p.agent_id@,
                old_state: p.old_state,
                new_state: p.new_state,
                name: opt_text(p.name),
                task: p.task@,
                exit_code: p.exit_code,
            },
    )
}

/// A snapshot of the agents that are past the queue.
pub open spec fn snapshot(rows: Seq<LifecycleRow>) -> Seq<LifecycleView>
    decreases rows.len(),
{
    if rows.len() == 0 {
        seq![]
    } else {
        let before = snapshot(rows.drop_last());
        let row = rows.last();
        if row.state == AgentState::Queued {
            before
        } else {
            before.push(
                LifecycleView {
                    agent_id: row.agent_id@,
                    old_state: row.state,
                    new_state: row.state,
                    name: opt_text(row.name),
                    task: row.task@,
                    exit_code: row.exit_code,
                },
            )
        }
    }
}

/// What a peer is told at once when lifecycles are federated with it: where
/// they go out, every agent that is past the queue.
pub fn handle_agent_lifecycle_federate(direction: FederationDirection, agents: &Vec<LifecycleRow>) -> (r:
    Vec<AgentLifecyclePayload>)
    ensures
        lifecycles_view(r@) == (if goes_out(direction) {
            snapshot(agents@)
        } else {
            seq![]
        }),
{
    let mut r: Vec<AgentLifecyclePayload> = Vec::new();
    assert(lifecycles_view(r@) =~= Seq::<LifecycleView>::empty());
    if !direction.is_outbound() {
        return r;
    }
    assert(agents@.take(0) =~= Seq::<LifecycleRow>::empty());
    for i in 0..agents.len()
        invariant
            lifecycles_view(r@) == snapshot(agents@.take(i as int)),
    {
        let row = &agents[i];
        proof {
            assert(agents@.take(i + 1).drop_last() =~= agents@.take(i as int));
            assert(agents@.take(i + 1).last() == agents@[i as int]);
        }
        if row.state != AgentState::Queued {
            r.push(
                AgentLifecyclePayload {
                    agent_id: row.agent_id.clone(),
                    old_state: row.state,
                    new_state: row.state,
                    name: crate::text::copy_opt(&row.name),
                    task: row.task.clone(),
                    exit_code: row.exit_code,
                },
            );
            assert(lifecycles_view(r@) =~= snapshot(agents@.take(i + 1)));
        }
    }
    assert(agents@.take(agents@.len() as int) =~= agents@);
    r
}

// ---------------------------------------------------------------------------
// Laws
// ---------------------------------------------------------------------------

/// A snapshot tells of no agent that still waits in the queue.
pub proof fn queued_agents_stay_private(rows: Seq<LifecycleRow>)
    ensures
        forall|i: int|
            0 <= i < snapshot(rows).len() ==> (#[trigger] snapshot(rows)[i]).new_state
                != AgentState::Queued,
        snapshot(rows).len() <= rows.len(),
    decreases rows.len(),
{
    if rows.len() > 0 {
        queued_agents_stay_private(rows.drop_last());
    }
}

/// A name of 128 bytes or fewer that is printable without space is one;
/// nothing empty, longer, or with a space or a control or other character is.
pub proof fn names_are_short_and_printable(s: Seq<char>, i: int)
    ensures
        s.len() == 0 ==> !ns_name(s),
        utf8_len(s) > 128 ==> !ns_name(s),
        0 <= i < s.len() && (s[i] <= ' ' || s[i] > '~') ==> !ns_name(s),
        0 < s.len() && utf8_len(s) <= 128 && (forall|k: int|
            0 <= k < s.len() ==> ' ' < #[trigger] s[k] <= '~') ==> ns_name(s),
{
}

/// An entry of a namespace needs two names.
pub proof fn entries_need_names(namespace: &str, key: &str, r: Result<(), RpcFault>)
    requires
        call_ensures(check_ns_entry, (namespace, key), r),
    ensures
        r is Ok <==> ns_name(namespace@) && ns_name(key@),
        r matches Err(e) ==> fails(e, "invalid_namespace_or_key"@),
{
}

/// The topics of workspaces, of the supervisor and of wakes are the daemon's
/// own; any other is not.
pub proof fn daemon_topics_are_reserved(rest: Seq<char>, topic: Seq<char>)
    ensures
        reserved_topic("workspace/"@ + rest),
        reserved_topic("supervisor/"@ + rest),
        reserved_topic("wake/"@ + rest),
        reserved_topic(topic) ==> topic.len() > 0 && (topic[0] == 'w' || topic[0] == 's'),
        topic.len() < 5 ==> !reserved_topic(topic),
{
    reveal_strlit("workspace/");
    reveal_strlit("supervisor/");
    reveal_strlit("wake/");
    assert("workspace/"@ =~= ("workspace/"@ + rest).subrange(0, "workspace/"@.len() as int));
    assert("supervisor/"@ =~= ("supervisor/"@ + rest).subrange(0, "supervisor/"@.len() as int));
    assert("wake/"@ =~= ("wake/"@ + rest).subrange(0, "wake/"@.len() as int));
    if reserved_topic(topic) {
        if "workspace/"@.is_prefix_of(topic) {
            assert("workspace/"@[0] == topic.subrange(0, "workspace/"@.len() as int)[0]);
        } else if "supervisor/"@.is_prefix_of(topic) {
            assert("supervisor/"@[0] == topic.subrange(0, "supervisor/"@.len() as int)[0]);
        } else {
            assert("wake/"@[0] == topic.subrange(0, "wake/"@.len() as int)[0]);
        }
    }
}

/// The address of a workspace at its home is a daemon and a workspace with a
/// slash between them.
pub proof fn homes_are_daemon_and_workspace(
    home: &str,
    daemon_is_valid: bool,
    r: Result<(String, String), RpcFault>,
)
    requires
        call_ensures(parse_home, (home, daemon_is_valid), r),
    ensures
        r matches Ok((d, w)) ==> home@ == d@ + seq!['/'] + w@ && w@.len() > 0 && !d@.contains('/')
            && daemon_is_valid,
        split_once(home@, '/') is None ==> (r matches Err(e) && fails(
            e,
            "invalid_home_address_expected_daemon/workspace"@,
        )),
        split_once(home@, '/') is Some && !daemon_is_valid ==> (r matches Err(e) && fails(
            e,
            "invalid_home_daemon_id"@,
        )),
        split_once(home@, '/') matches Some((_, w)) ==> daemon_is_valid && w.len() == 0 ==> (r
            matches Err(e) && fails(e, "invalid_home_workspace_id"@)),
        split_once(home@, '/') matches Some((_, w)) ==> daemon_is_valid && w.len() > 0 ==> r is Ok,
{
    crate::pieces::lemma_find_bounds(home@, '/');
    if r is Ok {
        let i = crate::pieces::find(home@, '/');
        assert(home@ =~= home@.take(i) + seq!['/'] + home@.skip(i + 1));
    }
}

/// A shadow goes by its alias, or by its home's name and a suffix.
pub proof fn shadows_have_names(alias: Seq<char>, home_ws: Seq<char>)
    ensures
        shadow_id(Some(alias), home_ws) == alias,
        shadow_id(None, home_ws) == home_ws + "-shadow"@,
{
}

/// A subscription makes an active shadow of the workspace and lets the peer's
/// events in.
pub proof fn subscriptions_make_shadows(
    db: &mut Database,
    home_daemon_id: &str,
    home_workspace_id: &str,
    alias: &str,
    branch: &str,
    peer_id: &str,
    fed_id: &str,
    now: i64,
    r: Result<ShadowMade, RpcFault>,
)
    requires
        old(db).workspaces_wf(),
        old(db).federations_hold(),
        call_ensures(
            handle_workspace_federate_subscribe,
            (db, home_daemon_id, home_workspace_id, Some(alias), branch, peer_id, fed_id, now),
            r,
        ),
    ensures
        r matches Ok(m) ==> {
            let w = final(db).workspaces@.last();
            &&& m.local_workspace_id@ == alias@
            &&& m.home_daemon_id@ == home_daemon_id@
            &&& m.home_workspace_id@ == home_workspace_id@
            &&& final(db).workspaces@.len() == old(db).workspaces@.len() + 1
            &&& w.id@ == alias@
            &&& w.branch@ == branch@
            &&& w.kind == WorkspaceKind::Shadow
            &&& w.state == WorkspaceState::Active
            &&& opt_text(w.home_daemon_id) == Some(home_daemon_id@)
            &&& opt_text(w.home_workspace_id) == Some(home_workspace_id@)
            &&& direction_of(final(db).federations@, peer_id@, alias@) matches Some(d)
                && crate::workspace_db::federation::comes_in(d)
        },
        r is Err ==> *final(db) == *old(db),
{
    if r is Ok {
        let after = workspaces_view(final(db).workspaces@);
        assert(after.len() == final(db).workspaces@.len());
        assert(workspaces_view(old(db).workspaces@).len() == old(db).workspaces@.len());
        assert(after.last() == final(db).workspaces@.last()@);
        assert(direction_of(final(db).federations@, peer_id@, alias@) is Some);
    }
}

/// A peer is told of each agent that is past the queue, in the state that it
/// is in, before and after.
pub proof fn snapshots_tell_of_agents(rows: Seq<LifecycleRow>, row: LifecycleRow)
    ensures
        snapshot(Seq::<LifecycleRow>::empty()).len() == 0,
        row.state == AgentState::Queued ==> snapshot(rows.push(row)) == snapshot(rows),
        row.state != AgentState::Queued ==> ({
            let after = snapshot(rows.push(row));
            &&& after.len() == snapshot(rows).len() + 1
            &&& after.drop_last() == snapshot(rows)
            &&& after.last().agent_id == row.agent_id@
            &&& after.last().old_state == row.state
            &&& after.last().new_state == row.state
            &&& after.last().name == opt_text(row.name)
            &&& after.last().task == row.task@
            &&& after.last().exit_code == row.exit_code
        }),
{
    assert(rows.push(row).drop_last() =~= rows);
    if row.state != AgentState::Queued {
        assert(snapshot(rows.push(row)).drop_last() =~= snapshot(rows));
    }
}

/// Nothing is told to a peer that only sends.
pub proof fn senders_are_told_nothing(
    agents: Vec<LifecycleRow>,
    r: Vec<AgentLifecyclePayload>,
    out: Vec<AgentLifecyclePayload>,
)
    requires
        call_ensures(handle_agent_lifecycle_federate, (FederationDirection::Inbound, &agents), r),
        call_ensures(handle_agent_lifecycle_federate, (FederationDirection::Both, &agents), out),
    ensures
        r@.len() == 0,
        lifecycles_view(out@) == snapshot(agents@),
{
    assert(lifecycles_view(r@).len() == r@.len());
}

/// What is told of a topic names the peer, the topic and the direction; the
/// end of what was not federated is not told.
pub proof fn federated_topics_are_told(
    peer_id: &str,
    topic: &str,
    direction: FederationDirection,
    e: StreamEvent,
    removed: bool,
    r: Option<StreamEvent>,
)
    requires
        call_ensures(topic_federated, (peer_id, topic, direction), e),
        call_ensures(topic_unfederated, (peer_id, topic, removed), r),
    ensures
        e@ matches EventView::TopicFederationAdded { peer_id: p, topic: t, direction: d } && p
            == peer_id@ && t == topic@ && d == direction_name(direction),
        r is Some <==> removed,
        r matches Some(e) ==> (e@ matches EventView::TopicFederationRemoved { peer_id: p, topic: t }
            && p == peer_id@ && t == topic@),
{
}

} // verus!
