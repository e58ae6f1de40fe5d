//! What a workspace's watcher makes of changes to its files: which count, how
//! they are batched, and who is told.

use crate::decimal::{decimal, to_decimal};
use crate::globs::{any_glob, build_globset, globs_fault, set_globs, set_matches};
use crate::json::{json_list, quote_list};
use crate::paths::{path_below, strip_base};
use crate::text::{cat3, copy_texts, own, same, texts};
use crate::types::{mails_view, EventView, Mail, StreamEvent};
use crate::workspace_db::events::{
    counted, last_seq, outbox_rows, CounterRow, OutboxRowView, OutboxState,
};
use crate::workspace_db::federation::{each_peer_once, outbound_peers};
use crate::workspace_db::Database;
use crate::workspace_registry::{mail_to_readers, topic_mail, TopicReader};
use globset::GlobSet;
use vstd::prelude::*;
use vstd::string::*;
use vstd::utf8::*;

verus! {

/// A change to a file of a workspace.
#[derive(Debug)]
pub struct ChangeRecord {
    pub rel_path: String,
    pub kind: String,
}

/// What happened to a path on disk, as far as a watcher tells it apart.
#[derive(Clone, Copy, Debug, PartialEq, Eq, Structural)]
pub enum DiskEvent {
    Create,
    Modify,
    Remove,
    Other,
}

/// The name of what happened, where it counts.
pub open spec fn change_kind(e: DiskEvent) -> Option<Seq<char>> {
    match e {
        DiskEvent::Create => Some("create"@),
        DiskEvent::Modify => Some("modify"@),
        DiskEvent::Remove => Some("remove"@),
        DiskEvent::Other => None,
    }
}

/// What each record says.
pub open spec fn changes_view(list: Seq<ChangeRecord>) -> Seq<(Seq<char>, Seq<char>)> {
    list.map_values(|c: ChangeRecord| (c.rel_path@, c.kind@))
}

/// The path of a change below the root, where it counts: it is below the root,
/// not the root itself, and not ignored.
pub open spec fn counted_path(root: Seq<char>, ignores: Seq<Seq<char>>, path: Seq<char>) -> Option<
    Seq<char>,
> {
    match path_below(path, root) {
        Some(rel) => if any_glob(ignores, rel) || rel.len() == 0 {
            None
        } else {
            Some(rel)
        },
        None => None,
    }
}

/// The changes that count, of those to `paths`.
pub open spec fn counted_changes(
    root: Seq<char>,
    ignores: Seq<Seq<char>>,
    kind: Seq<char>,
    paths: Seq<Seq<char>>,
) -> Seq<(Seq<char>, Seq<char>)>
    decreases paths.len(),
{
    if paths.len() == 0 {
        seq![]
    } else {
        let before = counted_changes(root, ignores, kind, paths.drop_last());
        match counted_path(root, ignores, paths.last()) {
            Some(rel) => before.push((rel, kind)),
            None => before,
        }
    }
}

/// A workspace's watcher: the root that it watches, and what it ignores.
pub struct WorkspaceWatcher {
    pub root: String,
    pub ignores: GlobSet,
}

impl WorkspaceWatcher {
    /// A watcher of a root, of which `root_canonical` is the canonical path or
    /// what kept it from being found.
    pub fn start(root_canonical: Result<String, String>, ignores: &Vec<String>) -> (r: Result<
        WorkspaceWatcher,
        String,
    >)
        ensures
            match root_canonical {
                Err(e) => r matches Err(msg) && msg@ == "workspace_root_missing: "@ + e@,
                Ok(root) => match globs_fault(texts(ignores@)) {
                    Some(fault) => r matches Err(msg) && msg@ == fault,
                    None => r matches Ok(w) && w.root@ == root@ && set_globs(w.ignores) == texts(
                        ignores@,
                    ),
                },
            },
    {
        let root = match root_canonical {
            Err(e) => return Err(crate::text::cat("workspace_root_missing: ", e.as_str())),
            Ok(root) => root,
        };
        match build_globset(ignores) {
            Ok(set) => Ok(WorkspaceWatcher { root, ignores: set }),
            Err(e) => Err(e),
        }
    }

    /// The changes that count, of what happened to paths.
    pub fn changes(&self, event: DiskEvent, paths: &Vec<String>) -> (r: Vec<ChangeRecord>)
        ensures
            changes_view(r@) == (match change_kind(event) {
                Some(kind) => counted_changes(
                    self.root@,
                    set_globs(self.ignores),
                    kind,
                    texts(paths@),
                ),
                None => seq![],
            }),
    {
        let mut r: Vec<ChangeRecord> = Vec::new();
        assert(changes_view(r@) =~= Seq::<(Seq<char>, Seq<char>)>::empty());
        let kind: &str = match event {
            DiskEvent::Create => "create",
            DiskEvent::Modify => "modify",
            DiskEvent::Remove => "remove",
            DiskEvent::Other => return r,
        };
        let ghost all = texts(paths@);
        assert(all.take(0) =~= Seq::<Seq<char>>::empty());
        for i in 0..paths.len()
            invariant
                all == texts(paths@),
                changes_view(r@) == counted_changes(
                    self.root@,
                    set_globs(self.ignores),
                    kind@,
                    all.take(i as int),
                ),
        {
            let ghost before = changes_view(r@);
            proof {
                assert(all.take(i + 1).drop_last() =~= all.take(i as int));
                assert(all.take(i + 1).last() == paths@[i as int]@);
            }
            if let Some(rel) = strip_base(paths[i].as_str(), self.root.as_str()) {
                if !set_matches(&self.ignores, rel.as_str()) && !rel.as_str().is_empty() {
                    let ghost rv = rel@;
                    r.push(ChangeRecord { rel_path: rel, kind: own(kind) });
                    assert(changes_view(r@) =~= before.push((rv, kind@)));
                }
            }
        }
        assert(all.take(all.len() as int) =~= all);
        r
    }
}

// ---------------------------------------------------------------------------
// Batching
// ---------------------------------------------------------------------------

/// The changes, each run of the same one as one.
pub open spec fn deduped(list: Seq<(Seq<char>, Seq<char>)>) -> Seq<(Seq<char>, Seq<char>)>
    decreases list.len(),
{
    if list.len() == 0 {
        seq![]
    } else {
        let before = deduped(list.drop_last());
        if before.len() > 0 && before.last() == list.last() {
            before
        } else {
            before.push(list.last())
        }
    }
}

/// Changes that are told together.
#[derive(Debug)]
pub struct Batch {
    pub paths: Vec<String>,
    pub kinds: Vec<String>,
    /// How many more there were than are told.
    pub truncated_count: u32,
}

/// At most the first `max` of a list.
pub open spec fn at_most(list: Seq<(Seq<char>, Seq<char>)>, max: nat) -> Seq<
    (Seq<char>, Seq<char>),
> {
    if list.len() > max {
        list.take(max as int)
    } else {
        list
    }
}

/// The batch of what was buffered: at most `max` changes.
pub fn make_batch(buffer: &Vec<ChangeRecord>, max: usize) -> (b: Batch)
    ensures
        ({
            let all = deduped(changes_view(buffer@));
            let told = at_most(all, max as nat);
            &&& texts(b.paths@) == told.map_values(|c: (Seq<char>, Seq<char>)| c.0)
            &&& texts(b.kinds@) == told.map_values(|c: (Seq<char>, Seq<char>)| c.1)
            &&& b.truncated_count == (if all.len() > max {
                (all.len() - max) as u32
            } else {
                0u32
            })
        }),
{
    let ghost list = changes_view(buffer@);
    let mut kept: Vec<usize> = Vec::new();
    let ghost pick = |k: Seq<usize>| k.map_values(|i: usize| list[i as int]);
    assert(pick(kept@) =~= deduped(list.take(0)));
    for i in 0..buffer.len()
        invariant
            list == changes_view(buffer@),
            pick == (|k: Seq<usize>| k.map_values(|i: usize| list[i as int])),
            forall|k: int| 0 <= k < kept@.len() ==> (#[trigger] kept@[k]) < buffer@.len(),
            pick(kept@) == deduped(list.take(i as int)),
    {
        let ghost before = pick(kept@);
        proof {
            assert(list.take(i + 1).drop_last() =~= list.take(i as int));
            assert(list.take(i + 1).last() == list[i as int]);
            assert(before.len() == kept@.len());
        }
        let n: usize = kept.len();
        let repeated = if n > 0 {
            let last: usize = kept[n - 1];
            assert(before.last() == list[last as int]);
            same(buffer[last].rel_path.as_str(), buffer[i].rel_path.as_str()) && same(
                buffer[last].kind.as_str(),
                buffer[i].kind.as_str(),
            )
        } else {
            false
        };
        if !repeated {
            kept.push(i);
            assert(pick(kept@) =~= before.push(list[i as int]));
        }
    }
    assert(list.take(list.len() as int) =~= list);
    let ghost all = deduped(list);
    assert(all == pick(kept@));
    let total: usize = kept.len();
    let truncated_count: u32 = if total > max {
        #[verifier::truncate]
        ((total - max) as u32)
    } else {
        0
    };
    let take: usize = if total > max {
        max
    } else {
        total
    };
    let ghost told = at_most(all, max as nat);
    let mut paths: Vec<String> = Vec::new();
    let mut kinds: Vec<String> = Vec::new();
    for i in 0..take
        invariant
            list == changes_view(buffer@),
            take <= kept@.len(),
            take == told.len(),
            forall|k: int| 0 <= k < kept@.len() ==> (#[trigger] kept@[k]) < buffer@.len(),
            forall|k: int| 0 <= k < take ==> #[trigger] told[k] == list[kept@[k] as int],
            paths@.len() == i,
            kinds@.len() == i,
            forall|k: int| 0 <= k < i ==> (#[trigger] paths@[k])@ == told[k].0,
            forall|k: int| 0 <= k < i ==> (#[trigger] kinds@[k])@ == told[k].1,
    {
        let at: usize = kept[i];
        assert(told[i as int] == list[at as int]);
        paths.push(buffer[at].rel_path.clone());
        kinds.push(buffer[at].kind.clone());
    }
    proof {
        assert(texts(paths@) =~= told.map_values(|c: (Seq<char>, Seq<char>)| c.0));
        assert(texts(kinds@) =~= told.map_values(|c: (Seq<char>, Seq<char>)| c.1));
    }
    Batch { paths, kinds, truncated_count }
}

/// What a watcher's loop hears.
#[derive(Debug)]
pub enum WatchInput {
    Change(ChangeRecord),
    /// Nothing happened for as long as it waits.
    Quiet,
    Shutdown,
    /// Nothing more will come.
    Closed,
}

/// What a watcher's loop does next.
#[derive(Debug)]
pub enum WatchStep {
    /// Wait for the next input; where changes are buffered, only for as long
    /// as changes are given to follow each other.
    Wait,
    Emit(Batch),
    Stop,
}

/// A watcher's loop: it buffers changes until it is quiet.
#[derive(Debug)]
pub struct WatchLoop {
    pub buffer: Vec<ChangeRecord>,
    pub batch_max: usize,
}

impl WatchLoop {
    /// A loop without changes.
    pub fn new(batch_max: usize) -> (l: WatchLoop)
        ensures
            l.buffer@.len() == 0,
            l.batch_max == batch_max,
    {
        WatchLoop { buffer: Vec::new(), batch_max }
    }

    /// Takes an input.
    pub fn take(&mut self, input: WatchInput) -> (step: WatchStep)
        ensures
            final(self).batch_max == old(self).batch_max,
            match input {
                WatchInput::Change(c) => {
                    &&& step is Wait
                    &&& final(self).buffer@ == old(self).buffer@.push(c)
                },
                WatchInput::Quiet => {
                    &&& final(self).buffer@.len() == 0
                    &&& old(self).buffer@.len() == 0 ==> step is Wait
                    &&& old(self).buffer@.len() > 0 ==> (step matches WatchStep::Emit(b) && ({
                        let all = deduped(changes_view(old(self).buffer@));
                        let told = at_most(all, old(self).batch_max as nat);
                        &&& texts(b.paths@) == told.map_values(|c: (Seq<char>, Seq<char>)| c.0)
                        &&& texts(b.kinds@) == told.map_values(|c: (Seq<char>, Seq<char>)| c.1)
                        &&& b.truncated_count == (if all.len() > old(self).batch_max {
                            (all.len() - old(self).batch_max) as u32
                        } else {
                            0u32
                        })
                    }))
                },
                WatchInput::Shutdown => step is Stop && final(self).buffer == old(self).buffer,
                WatchInput::Closed => step is Stop && final(self).buffer == old(self).buffer,
            },
    {
        match input {
            WatchInput::Change(c) => {
                self.buffer.push(c);
                WatchStep::Wait
            },
            WatchInput::Quiet => {
                if self.buffer.len() == 0 {
                    return WatchStep::Wait;
                }
                let b = make_batch(&self.buffer, self.batch_max);
                self.buffer = Vec::new();
                WatchStep::Emit(b)
            },
            WatchInput::Shutdown => WatchStep::Stop,
            WatchInput::Closed => WatchStep::Stop,
        }
    }
}

// ---------------------------------------------------------------------------
// Telling
// ---------------------------------------------------------------------------

/// The topic of a workspace's files.
pub open spec fn files_topic(ws: Seq<char>) -> Seq<char> {
    "workspace/"@ + ws + "/files"@
}

/// The body of the mail that tells of a batch, which is also what peers get.
pub open spec fn files_body(paths: Seq<Seq<char>>, kinds: Seq<Seq<char>>, truncated: u32) -> Seq<
    char,
> {
    "{\"kinds\":"@ + json_list(kinds) + ",\"paths\":"@ + json_list(paths) + ",\"truncated\":"@
        + decimal(truncated as nat) + "}"@
}

/// What is told of changed files, whether they are here or a peer's: an event,
/// and mail on the workspace's topic.
#[derive(Debug)]
pub struct FileNews {
    pub event: StreamEvent,
    pub topic: String,
    pub body: String,
}

/// What is told of changed files.
pub fn publish_workspace_file_change(
    workspace_id: &str,
    paths: &Vec<String>,
    kinds: &Vec<String>,
    truncated_count: u32,
) -> (r: FileNews)
    ensures
        r.event@ == (EventView::WorkspaceFileChanged {
            workspace_id: workspace_id@,
            paths: texts(paths@),
            kinds: texts(kinds@),
            truncated_count,
        }),
        r.topic@ == files_topic(workspace_id@),
        r.body@ == files_body(texts(paths@), texts(kinds@), truncated_count),
{
    let event = StreamEvent::WorkspaceFileChanged {
        workspace_id: own(workspace_id),
        paths: copy_texts(paths),
        kinds: copy_texts(kinds),
        truncated_count,
    };
    let mut body = own("{\"kinds\":");
    body.append(quote_list(kinds).as_str());
    body.append(",\"paths\":");
    body.append(quote_list(paths).as_str());
    body.append(",\"truncated\":");
    body.append(to_decimal(truncated_count as u64).as_str());
    body.append("}");
    FileNews { event, topic: cat3("workspace/", workspace_id, "/files"), body }
}

/// The mail that tells the readers of a workspace's files of a batch.
pub fn publish_files_topic(workspace_id: &str, news: &FileNews, readers: &Vec<TopicReader>, now: i64) -> (r:
    Vec<Mail>)
    ensures
        mails_view(r@) == topic_mail(workspace_id@, news.topic@, news.body@, readers@, now),
{
    mail_to_readers(workspace_id, news.topic.as_str(), news.body.as_str(), readers, now)
}

fn bytes_of(s: &str) -> (r: Vec<u8>)
    ensures
        r@ == encode_utf8(s@),
{
    let bytes = s.as_bytes();
    let mut r: Vec<u8> = Vec::new();
    for i in 0..bytes.len()
        invariant
            r@ == bytes@.take(i as int),
    {
        r.push(bytes[i]);
        assert(bytes@.take(i + 1) =~= bytes@.take(i as int).push(bytes@[i as int]));
    }
    assert(bytes@.take(bytes@.len() as int) =~= bytes@);
    r
}

/// What waits for a peer after a batch.
pub open spec fn fanned_row(
    counters: Seq<CounterRow>,
    peer: Seq<char>,
    ws: Seq<char>,
    id: Seq<char>,
    body: Seq<char>,
    now: i64,
) -> OutboxRowView {
    OutboxRowView {
        id,
        peer_id: peer,
        workspace_id: ws,
        sender_seq: (last_seq(counters, peer, ws) + 1) as u64,
        payload: encode_utf8(body),
        created_at: now,
        attempts: 0,
        next_attempt_at: now,
        state: OutboxState::Pending,
    }
}

/// Queues a batch for each peer that the workspace's events go out to, and
/// says who they are. `ids` gives each row its id.
pub fn fanout_to_federated_peers(
    db: &mut Database,
    workspace_id: &str,
    body: &str,
    ids: &Vec<String>,
    now: i64,
) -> (woke: Vec<String>)
    requires
        old(db).federations_hold(),
        ids@.len() >= outbound_peers(old(db).federations@, workspace_id@).len(),
        forall|p: Seq<char>| #[trigger]
            last_seq(old(db).counters@, p, workspace_id@) < i64::MAX,
    ensures
        final(db).same_but_queue(*old(db)),
        texts(woke@) == outbound_peers(old(db).federations@, workspace_id@),
        outbox_rows(final(db).outbox@) == outbox_rows(old(db).outbox@) + Seq::new(
            woke@.len(),
            |i: int|
                fanned_row(
                    old(db).counters@,
                    woke@[i]@,
                    workspace_id@,
                    ids@[i]@,
                    body@,
                    now,
                ),
        ),
        forall|p: Seq<char>, w: Seq<char>| #[trigger]
            last_seq(final(db).counters@, p, w) == last_seq(old(db).counters@, p, w) + (if w
                == workspace_id@ && texts(woke@).contains(p) {
                1int
            } else {
                0
            }),
        old(db).events_hold() ==> final(db).events_hold(),
{
    let peers = db.workspace_outbound_peers(workspace_id);
    let ghost before = db.counters@;
    let ghost start = outbox_rows(db.outbox@);
    let ghost want = Seq::new(
        peers@.len(),
        |i: int| fanned_row(before, peers@[i]@, workspace_id@, ids@[i]@, body@, now),
    );
    proof {
        each_peer_once(db.federations@, workspace_id@);
        assert(texts(peers@).len() == peers@.len());
        assert(start + want.take(0) =~= start);
    }
    for i in 0..peers.len()
        invariant
            peers@.len() <= ids@.len(),
            texts(peers@).no_duplicates(),
            db.same_but_queue(*old(db)),
            before == old(db).counters@,
            start == outbox_rows(old(db).outbox@),
            forall|p: Seq<char>| #[trigger] last_seq(before, p, workspace_id@) < i64::MAX,
            want == Seq::new(
                peers@.len(),
                |i: int| fanned_row(before, peers@[i]@, workspace_id@, ids@[i]@, body@, now),
            ),
            outbox_rows(db.outbox@) == start + want.take(i as int),
            old(db).events_hold() ==> db.events_hold(),
            forall|p: Seq<char>, w: Seq<char>| #[trigger]
                last_seq(db.counters@, p, w) == last_seq(before, p, w) + (if w == workspace_id@
                    && texts(peers@).take(i as int).contains(p) {
                    1int
                } else {
                    0
                }),
    {
        let ghost mid = db.counters@;
        let ghost told = texts(peers@).take(i as int);
        proof {
            assert(last_seq(before, peers@[i as int]@, workspace_id@) < i64::MAX);
            assert(texts(peers@)[i as int] == peers@[i as int]@);
            assert(!told.contains(peers@[i as int]@));
        }
        let _ = db.workspace_event_enqueue(
            ids[i].as_str(),
            peers[i].as_str(),
            workspace_id,
            bytes_of(body),
            now,
        );
        proof {
            assert(outbox_rows(db.outbox@) =~= start + want.take(i + 1));
            let next = texts(peers@).take(i + 1);
            assert(next =~= told.push(peers@[i as int]@));
            assert(counted(mid, db.counters@, peers@[i as int]@, workspace_id@));
            assert forall|p: Seq<char>, w: Seq<char>| #[trigger]
                last_seq(db.counters@, p, w) == last_seq(before, p, w) + (if w == workspace_id@
                    && next.contains(p) {
                    1int
                } else {
                    0
                }) by {
                assert(last_seq(mid, p, w) == last_seq(before, p, w) + (if w == workspace_id@
                    && told.contains(p) {
                    1int
                } else {
                    0
                }));
                if told.contains(p) {
                    let k = told.index_of(p);
                    assert(next[k] == p);
                }
                if p == peers@[i as int]@ {
                    assert(next[i as int] == p);
                }
            }
        }
    }
    proof {
        assert(want.take(want.len() as int) =~= want);
        assert(texts(peers@).take(peers@.len() as int) =~= texts(peers@));
    }
    peers
}

// ---------------------------------------------------------------------------
// Laws
// ---------------------------------------------------------------------------

/// A batch never tells more than its maximum, and what it leaves out it
/// counts, as far as the count can hold it.
pub proof fn batches_are_bounded(list: Seq<(Seq<char>, Seq<char>)>, max: nat)
    ensures
        at_most(deduped(list), max).len() <= max,
        at_most(deduped(list), max).is_prefix_of(deduped(list)),
{
    let all = deduped(list);
    assert(at_most(all, max) =~= all.subrange(0, at_most(all, max).len() as int));
}

/// No two neighbours of a batch say the same.
pub proof fn neighbours_differ(list: Seq<(Seq<char>, Seq<char>)>)
    ensures
        forall|i: int|
            0 < i < deduped(list).len() ==> #[trigger] deduped(list)[i] != deduped(list)[i - 1],
    decreases list.len(),
{
    if list.len() > 0 {
        let before = deduped(list.drop_last());
        let after = deduped(list);
        neighbours_differ(list.drop_last());
        assert forall|i: int| 0 < i < after.len() implies #[trigger] after[i] != after[i - 1] by {
            if i < before.len() {
                assert(after[i] == before[i] && after[i - 1] == before[i - 1]);
            } else {
                assert(after[i - 1] == before.last());
            }
        }
    }
}

/// A path below the root that is not ignored is told relative to it. The root
/// itself, what lies elsewhere and what is ignored are not told.
pub proof fn paths_below_the_root_count(
    root: Seq<char>,
    ignores: Seq<Seq<char>>,
    kind: Seq<char>,
    paths: Seq<Seq<char>>,
    path: Seq<char>,
)
    ensures
        ({
            let before = counted_changes(root, ignores, kind, paths);
            let after = counted_changes(root, ignores, kind, paths.push(path));
            &&& path_below(path, root) is None ==> after == before
            &&& path_below(path, root) matches Some(rel) ==> {
                let ignored = exists|i: int|
                    0 <= i < ignores.len() && crate::globs::glob_matches(
                        #[trigger] ignores[i],
                        rel,
                    );
                &&& rel.len() == 0 || ignored ==> after == before
                &&& rel.len() > 0 && !ignored ==> after == before.push((rel, kind))
            }
        }),
        counted_changes(root, ignores, kind, Seq::<Seq<char>>::empty()).len() == 0,
{
    assert(paths.push(path).drop_last() =~= paths);
}

/// Creations, modifications and removals are told by their names, and nothing
/// else is.
pub proof fn changes_have_names(watcher: WorkspaceWatcher, paths: Vec<String>, r: Vec<ChangeRecord>)
    requires
        call_ensures(WorkspaceWatcher::changes, (&watcher, DiskEvent::Other, &paths), r),
    ensures
        r@.len() == 0,
        change_kind(DiskEvent::Create) == Some("create"@),
        change_kind(DiskEvent::Modify) == Some("modify"@),
        change_kind(DiskEvent::Remove) == Some("remove"@),
{
    assert(changes_view(r@).len() == r@.len());
}

/// A change that is the last one over again adds nothing; any other comes
/// behind.
pub proof fn repeated_changes_are_told_once(
    list: Seq<(Seq<char>, Seq<char>)>,
    c: (Seq<char>, Seq<char>),
)
    ensures
        deduped(Seq::<(Seq<char>, Seq<char>)>::empty()).len() == 0,
        list.len() > 0 && list.last() == c ==> deduped(list.push(c)) == deduped(list),
        list.len() == 0 || list.last() != c ==> deduped(list.push(c)) == deduped(list).push(c),
{
    assert(list.push(c).drop_last() =~= list);
    lemma_last_deduped(list);
}

proof fn lemma_last_deduped(list: Seq<(Seq<char>, Seq<char>)>)
    ensures
        list.len() > 0 ==> deduped(list).len() > 0 && deduped(list).last() == list.last(),
        list.len() == 0 ==> deduped(list).len() == 0,
{
}

/// A batch tells the first changes, each path with its kind, as many as it
/// may, and says how many more there were.
pub proof fn batches_tell_the_first_changes(buffer: Vec<ChangeRecord>, max: usize, b: Batch, i: int)
    requires
        call_ensures(make_batch, (&buffer, max), b),
        deduped(changes_view(buffer@)).len() <= u32::MAX,
        0 <= i < max,
        i < deduped(changes_view(buffer@)).len(),
    ensures
        ({
            let all = deduped(changes_view(buffer@));
            &&& i < b.paths@.len()
            &&& b.paths@.len() == b.kinds@.len()
            &&& b.paths@[i]@ == all[i].0
            &&& b.kinds@[i]@ == all[i].1
            &&& b.paths@.len() + b.truncated_count == all.len()
            &&& b.paths@.len() <= max
        }),
{
    let all = deduped(changes_view(buffer@));
    let told = at_most(all, max as nat);
    assert(texts(b.paths@).len() == b.paths@.len());
    assert(texts(b.kinds@).len() == b.kinds@.len());
    assert(told.map_values(|c: (Seq<char>, Seq<char>)| c.0)[i] == told[i].0);
    assert(told.map_values(|c: (Seq<char>, Seq<char>)| c.1)[i] == told[i].1);
    assert(texts(b.paths@)[i] == b.paths@[i]@);
    assert(texts(b.kinds@)[i] == b.kinds@[i]@);
}

/// Changes wait until it is quiet; then they are told and forgotten. A
/// shutdown stops the loop.
pub proof fn quiet_ends_a_batch(l: &mut WatchLoop, input: WatchInput, step: WatchStep)
    requires
        call_ensures(WatchLoop::take, (l, input), step),
    ensures
        input matches WatchInput::Change(c) ==> step is Wait && final(l).buffer@.len()
            == old(l).buffer@.len() + 1 && final(l).buffer@.last() == c,
        input is Quiet ==> (step is Emit <==> old(l).buffer@.len() > 0) && final(l).buffer@.len()
            == 0,
        input is Shutdown || input is Closed ==> step is Stop,
{
}

/// What is told of changed files names the workspace and carries the paths
/// and kinds of the batch, on the topic of its files.
pub proof fn changed_files_are_told(
    ws: &str,
    paths: Vec<String>,
    kinds: Vec<String>,
    truncated: u32,
    news: FileNews,
)
    requires
        call_ensures(publish_workspace_file_change, (ws, &paths, &kinds, truncated), news),
    ensures
        news.topic@ == "workspace/"@ + ws@ + "/files"@,
        news.event@ matches EventView::WorkspaceFileChanged {
            workspace_id,
            paths: p,
            kinds: k,
            truncated_count,
        } && workspace_id == ws@ && p == texts(paths@) && k == texts(kinds@) && truncated_count
            == truncated,
        news.body@ == "{\"kinds\":"@ + json_list(texts(kinds@)) + ",\"paths\":"@ + json_list(
            texts(paths@),
        ) + ",\"truncated\":"@ + decimal(truncated as nat) + "}"@,
{
}

/// What waits for a peer after a batch is the batch, at once and untried,
/// with the number after the last that the peer was given.
pub proof fn peers_are_sent_the_batch(
    counters: Seq<CounterRow>,
    peer: Seq<char>,
    ws: Seq<char>,
    id: Seq<char>,
    body: Seq<char>,
    now: i64,
)
    requires
        last_seq(counters, peer, ws) < i64::MAX,
    ensures
        ({
            let row = fanned_row(counters, peer, ws, id, body, now);
            &&& row.id == id
            &&& row.peer_id == peer
            &&& row.workspace_id == ws
            &&& row.sender_seq == last_seq(counters, peer, ws) + 1
            &&& row.payload == encode_utf8(body)
            &&& row.attempts == 0
            &&& row.next_attempt_at == now
            &&& row.state == OutboxState::Pending
        }),
{
}

} // verus!
