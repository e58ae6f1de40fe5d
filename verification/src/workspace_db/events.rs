//! Events of workspaces on their way between daemons: what waits for each
//! peer, and what was seen from each.

use super::Database;
use crate::text::{own, same};
use vstd::prelude::*;
use vstd::string::*;

verus! {

/// Where an event that waits for a peer stands.
#[derive(Clone, Copy, Debug, PartialEq, Eq, Structural)]
pub enum OutboxState {
    Pending,
    InFlight,
}

/// An event that waits for a peer.
#[derive(Debug)]
pub struct OutboxRow {
    pub id: String,
    pub peer_id: String,
    pub workspace_id: String,
    pub sender_seq: u64,
    pub payload: Vec<u8>,
    pub created_at: i64,
    pub attempts: u32,
    pub next_attempt_at: i64,
    pub state: OutboxState,
}

/// One pending event, ready to ship.
#[derive(Debug)]
pub struct WsEventOutboxRow {
    pub id: String,
    pub workspace_id: String,
    pub sender_seq: u64,
    pub payload: Vec<u8>,
    pub attempts: u32,
}

/// An event that was seen from another daemon.
#[derive(Debug)]
pub struct InboxRow {
    pub sender_daemon_id: String,
    pub sender_seq: u64,
    pub workspace_id: String,
    pub received_at: i64,
}

/// The highest number that an event of a workspace was given for a peer. It
/// stays when the event is delivered.
#[derive(Debug)]
pub struct CounterRow {
    pub peer_id: String,
    pub workspace_id: String,
    pub last_seq: u64,
}

impl CounterRow {
    /// Whether the row counts the events of a workspace for a peer.
    pub open spec fn counts(self, peer: Seq<char>, ws: Seq<char>) -> bool {
        self.peer_id@ == peer && self.workspace_id@ == ws
    }
}

/// What an [`OutboxRow`] holds.
#[verifier::ext_equal]
pub ghost struct OutboxRowView {
    pub id: Seq<char>,
    pub peer_id: Seq<char>,
    pub workspace_id: Seq<char>,
    pub sender_seq: u64,
    pub payload: Seq<u8>,
    pub created_at: i64,
    pub attempts: u32,
    pub next_attempt_at: i64,
    pub state: OutboxState,
}

impl View for OutboxRow {
    type V = OutboxRowView;

    open spec fn view(&self) -> OutboxRowView {
        OutboxRowView {
            id: self.id@,
            peer_id: self.peer_id@,
            workspace_id: self.workspace_id@,
            sender_seq: self.sender_seq,
            payload: self.payload@,
            created_at: self.created_at,
            attempts: self.attempts,
            next_attempt_at: self.next_attempt_at,
            state: self.state,
        }
    }
}

/// What each row of a list holds.
pub open spec fn outbox_rows(rows: Seq<OutboxRow>) -> Seq<OutboxRowView> {
    rows.map_values(|r: OutboxRow| r@)
}

/// The highest number that an event of a workspace was ever given for a peer,
/// 0 where there was none.
pub open spec fn last_seq(rows: Seq<CounterRow>, peer: Seq<char>, ws: Seq<char>) -> u64
    decreases rows.len(),
{
    if rows.len() == 0 {
        0
    } else if rows.last().counts(peer, ws) {
        rows.last().last_seq
    } else {
        last_seq(rows.drop_last(), peer, ws)
    }
}

/// Whether `after` counts one event more than `before`: one of a workspace for
/// a peer, which gets the next number.
pub open spec fn counted(
    before: Seq<CounterRow>,
    after: Seq<CounterRow>,
    peer: Seq<char>,
    ws: Seq<char>,
) -> bool {
    forall|p: Seq<char>, w: Seq<char>| #[trigger]
        last_seq(after, p, w) == (if p == peer && w == ws {
            last_seq(before, p, w) + 1
        } else {
            last_seq(before, p, w) as int
        })
}

/// Whether the number of every event that waits is counted.
pub open spec fn numbered(rows: Seq<OutboxRowView>, counters: Seq<CounterRow>) -> bool {
    forall|i: int|
        0 <= i < rows.len() ==> (#[trigger] rows[i]).sender_seq <= last_seq(
            counters,
            rows[i].peer_id,
            rows[i].workspace_id,
        )
}

proof fn lemma_last_seq_set(rows: Seq<CounterRow>, i: int, row: CounterRow)
    requires
        0 <= i < rows.len(),
        rows[i].counts(row.peer_id@, row.workspace_id@),
        forall|j: int|
            i < j < rows.len() ==> !(#[trigger] rows[j]).counts(row.peer_id@, row.workspace_id@),
    ensures
        last_seq(rows, row.peer_id@, row.workspace_id@) == rows[i].last_seq,
        forall|p: Seq<char>, w: Seq<char>| #[trigger]
            last_seq(rows.update(i, row), p, w) == (if row.counts(p, w) {
                row.last_seq
            } else {
                last_seq(rows, p, w)
            }),
    decreases rows.len(),
{
    let last = rows.len() - 1;
    let after = rows.update(i, row);
    assert(rows.last() == rows[last]);
    if i < last {
        assert(!rows[last].counts(row.peer_id@, row.workspace_id@));
        lemma_last_seq_set(rows.drop_last(), i, row);
        assert(after.drop_last() =~= rows.drop_last().update(i, row));
        assert(after.last() == rows[last]);
    } else {
        assert(after.drop_last() =~= rows.drop_last());
        assert(after.last() == row);
    }
    assert forall|p: Seq<char>, w: Seq<char>| #[trigger]
        last_seq(after, p, w) == (if row.counts(p, w) {
            row.last_seq
        } else {
            last_seq(rows, p, w)
        }) by {
        if i < last && !rows[last].counts(p, w) {
            assert(last_seq(after, p, w) == last_seq(rows.drop_last().update(i, row), p, w));
        }
    }
}

proof fn lemma_last_seq_none(rows: Seq<CounterRow>, peer: Seq<char>, ws: Seq<char>)
    requires
        forall|j: int| 0 <= j < rows.len() ==> !(#[trigger] rows[j]).counts(peer, ws),
    ensures
        last_seq(rows, peer, ws) == 0,
    decreases rows.len(),
{
    if rows.len() > 0 {
        assert(rows.last() == rows[rows.len() - 1]);
        lemma_last_seq_none(rows.drop_last(), peer, ws);
    }
}

/// Counts one event more of a workspace for a peer, and gives its number.
fn count_event(rows: &mut Vec<CounterRow>, peer: &str, ws: &str) -> (seq: u64)
    requires
        last_seq(old(rows)@, peer@, ws@) < i64::MAX,
    ensures
        seq == last_seq(old(rows)@, peer@, ws@) + 1,
        counted(old(rows)@, final(rows)@, peer@, ws@),
{
    let ghost before = rows@;
    let mut i: usize = rows.len();
    while i > 0
        invariant
            rows@ == before,
            before == old(rows)@,
            last_seq(before, peer@, ws@) < i64::MAX,
            i <= before.len(),
            forall|j: int| i <= j < before.len() ==> !(#[trigger] before[j]).counts(peer@, ws@),
        decreases i,
    {
        i = i - 1;
        if same(rows[i].peer_id.as_str(), peer) && same(rows[i].workspace_id.as_str(), ws) {
            proof {
                let row = CounterRow { last_seq: 0, ..before[i as int] };
                lemma_last_seq_set(before, i as int, row);
            }
            let seq: u64 = rows[i].last_seq + 1;
            let row = CounterRow { peer_id: own(peer), workspace_id: own(ws), last_seq: seq };
            proof {
                lemma_last_seq_set(before, i as int, row);
            }
            rows.set(i, row);
            return seq;
        }
    }
    proof {
        lemma_last_seq_none(before, peer@, ws@);
    }
    let row = CounterRow { peer_id: own(peer), workspace_id: own(ws), last_seq: 1 };
    let ghost r = row;
    rows.push(row);
    assert(before.push(r).drop_last() =~= before);
    1
}

/// Whether an event can be shipped to a peer now.
pub open spec fn ready(r: OutboxRowView, peer: Seq<char>, now: i64) -> bool {
    r.peer_id == peer && r.state == OutboxState::Pending && r.next_attempt_at <= now
}

/// Whether an event from a daemon was seen.
pub open spec fn seen(rows: Seq<InboxRow>, sender: Seq<char>, seq: u64) -> bool {
    exists|i: int|
        0 <= i < rows.len() && (#[trigger] rows[i]).sender_daemon_id@ == sender
            && rows[i].sender_seq == seq
}

/// A number as the table keeps it.
pub open spec fn kept_seq(seq: u64) -> u64 {
    if seq <= i64::MAX {
        seq
    } else {
        i64::MAX as u64
    }
}

fn copy_payload(v: &Vec<u8>) -> (r: Vec<u8>)
    ensures
        r@ == v@,
{
    let mut r: Vec<u8> = Vec::new();
    for i in 0..v.len()
        invariant
            r@ == v@.take(i as int),
    {
        r.push(v[i]);
        assert(v@.take(i + 1) =~= v@.take(i as int).push(v@[i as int]));
    }
    assert(v@.take(v@.len() as int) =~= v@);
    r
}

impl OutboxRow {
    /// The row in another state.
    fn restate(&self, state: OutboxState, attempts: u32, next_attempt_at: i64) -> (r: OutboxRow)
        ensures
            r@ == (OutboxRowView { state, attempts, next_attempt_at, ..self@ }),
    {
        OutboxRow {
            id: self.id.clone(),
            peer_id: self.peer_id.clone(),
            workspace_id: self.workspace_id.clone(),
            sender_seq: self.sender_seq,
            payload: copy_payload(&self.payload),
            created_at: self.created_at,
            attempts,
            next_attempt_at,
            state,
        }
    }
}

/// The rows with that of an id shipped.
pub open spec fn in_flight(rows: Seq<OutboxRowView>, id: Seq<char>) -> Seq<OutboxRowView> {
    rows.map_values(
        |r: OutboxRowView|
            if r.id == id {
                OutboxRowView { state: OutboxState::InFlight, ..r }
            } else {
                r
            },
    )
}

/// The rows with that of an id to be tried again.
pub open spec fn to_retry(rows: Seq<OutboxRowView>, id: Seq<char>, at: i64) -> Seq<OutboxRowView> {
    rows.map_values(
        |r: OutboxRowView|
            if r.id == id {
                OutboxRowView {
                    state: OutboxState::Pending,
                    attempts: (r.attempts + 1) as u32,
                    next_attempt_at: at,
                    ..r
                }
            } else {
                r
            },
    )
}

/// The rows, with those in flight to be shipped again.
pub open spec fn recovered(rows: Seq<OutboxRowView>) -> Seq<OutboxRowView> {
    rows.map_values(|r: OutboxRowView| OutboxRowView { state: OutboxState::Pending, ..r })
}

/// How many rows are in flight.
pub open spec fn flying(rows: Seq<OutboxRowView>) -> nat
    decreases rows.len(),
{
    if rows.len() == 0 {
        0
    } else {
        flying(rows.drop_last()) + (if rows.last().state == OutboxState::InFlight {
            1nat
        } else {
            0nat
        })
    }
}

/// The rows but for that of an id.
pub open spec fn without_row(rows: Seq<OutboxRowView>, id: Seq<char>) -> Seq<OutboxRowView>
    decreases rows.len(),
{
    if rows.len() == 0 {
        seq![]
    } else {
        let before = without_row(rows.drop_last(), id);
        if rows.last().id == id {
            before
        } else {
            before.push(rows.last())
        }
    }
}

proof fn lemma_without_row_numbered(
    rows: Seq<OutboxRowView>,
    id: Seq<char>,
    counters: Seq<CounterRow>,
)
    requires
        numbered(rows, counters),
    ensures
        numbered(without_row(rows, id), counters),
    decreases rows.len(),
{
    if rows.len() > 0 {
        let init = rows.drop_last();
        assert forall|i: int| 0 <= i < init.len() implies (#[trigger] init[i]).sender_seq
            <= last_seq(counters, init[i].peer_id, init[i].workspace_id) by {
            assert(rows[i] == init[i]);
        }
        lemma_without_row_numbered(init, id, counters);
        assert(rows.last() == rows[rows.len() - 1]);
        let before = without_row(init, id);
        let kept = without_row(rows, id);
        assert forall|i: int| 0 <= i < kept.len() implies (#[trigger] kept[i]).sender_seq
            <= last_seq(counters, kept[i].peer_id, kept[i].workspace_id) by {
            if i < before.len() {
                assert(kept[i] == before[i]);
            }
        }
    }
}

impl Database {
    /// Whether two databases differ at most in their outbox.
    pub open spec fn same_but_outbox(self, other: Database) -> bool {
        &&& self.workspaces == other.workspaces
        &&& self.agents == other.agents
        &&& self.assignments == other.assignments
        &&& self.memory == other.memory
        &&& self.federations == other.federations
        &&& self.inbox == other.inbox
        &&& self.counters == other.counters
    }

    /// Whether two databases differ at most in their outbox and in how its
    /// events are numbered.
    pub open spec fn same_but_queue(self, other: Database) -> bool {
        &&& self.workspaces == other.workspaces
        &&& self.agents == other.agents
        &&& self.assignments == other.assignments
        &&& self.memory == other.memory
        &&& self.federations == other.federations
        &&& self.inbox == other.inbox
    }

    /// Whether the number of every event that waits is counted.
    pub open spec fn events_hold(self) -> bool {
        numbered(outbox_rows(self.outbox@), self.counters@)
    }

    /// Whether two databases differ at most in their inbox.
    pub open spec fn same_but_inbox(self, other: Database) -> bool {
        &&& self.workspaces == other.workspaces
        &&& self.agents == other.agents
        &&& self.assignments == other.assignments
        &&& self.memory == other.memory
        &&& self.federations == other.federations
        &&& self.outbox == other.outbox
        &&& self.counters == other.counters
    }

    /// Adds an event for a peer. It gets the number after the highest that an
    /// event of the workspace was ever given for that peer, so that the peer
    /// does not take it for one that it has seen.
    pub fn workspace_event_enqueue(
        &mut self,
        id: &str,
        peer: &str,
        ws: &str,
        payload: Vec<u8>,
        now: i64,
    ) -> (seq: u64)
        requires
            last_seq(old(self).counters@, peer@, ws@) < i64::MAX,
        ensures
            final(self).same_but_queue(*old(self)),
            seq == last_seq(old(self).counters@, peer@, ws@) + 1,
            counted(old(self).counters@, final(self).counters@, peer@, ws@),
            outbox_rows(final(self).outbox@) == outbox_rows(old(self).outbox@).push(
                OutboxRowView {
                    id: id@,
                    peer_id: peer@,
                    workspace_id: ws@,
                    sender_seq: seq,
                    payload: payload@,
                    created_at: now,
                    attempts: 0,
                    next_attempt_at: now,
                    state: OutboxState::Pending,
                },
            ),
            old(self).events_hold() ==> final(self).events_hold(),
    {
        let ghost rows = self.outbox@;
        let seq: u64 = count_event(&mut self.counters, peer, ws);
        let row = OutboxRow {
            id: own(id),
            peer_id: own(peer),
            workspace_id: own(ws),
            sender_seq: seq,
            payload,
            created_at: now,
            attempts: 0,
            next_attempt_at: now,
            state: OutboxState::Pending,
        };
        let ghost rv = row@;
        self.outbox.push(row);
        proof {
            assert(outbox_rows(self.outbox@) =~= outbox_rows(rows).push(rv));
            if old(self).events_hold() {
                let now = outbox_rows(self.outbox@);
                assert forall|i: int| 0 <= i < now.len() implies (#[trigger] now[i]).sender_seq
                    <= last_seq(self.counters@, now[i].peer_id, now[i].workspace_id) by {
                    if i < rows.len() {
                        assert(now[i] == outbox_rows(rows)[i]);
                    }
                }
            }
        }
        seq
    }

    /// The event that is shipped to a peer next: the oldest that is ready.
    pub fn workspace_event_next_outbox(&self, peer: &str, now: i64) -> (r: Option<WsEventOutboxRow>)
        ensures
            match r {
                Some(e) => exists|i: int|
                    0 <= i < self.outbox@.len() && ready(
                        (#[trigger] self.outbox@[i])@,
                        peer@,
                        now,
                    ) && (forall|j: int|
                        0 <= j < self.outbox@.len() && ready(
                            (#[trigger] self.outbox@[j])@,
                            peer@,
                            now,
                        ) ==> self.outbox@[i].created_at <= self.outbox@[j].created_at) && e.id@
                        == self.outbox@[i].id@ && e.workspace_id@ == self.outbox@[i].workspace_id@
                        && e.sender_seq == self.outbox@[i].sender_seq && e.payload@
                        == self.outbox@[i].payload@ && e.attempts == self.outbox@[i].attempts,
                None => forall|i: int|
                    0 <= i < self.outbox@.len() ==> !ready(
                        (#[trigger] self.outbox@[i])@,
                        peer@,
                        now,
                    ),
            },
    {
        let mut best: Option<usize> = None;
        for i in 0..self.outbox.len()
            invariant
                match best {
                    Some(b) => b < i && ready(self.outbox@[b as int]@, peer@, now) && forall|j: int|
                        0 <= j < i && ready((#[trigger] self.outbox@[j])@, peer@, now)
                            ==> self.outbox@[b as int].created_at <= self.outbox@[j].created_at,
                    None => forall|j: int|
                        0 <= j < i ==> !ready((#[trigger] self.outbox@[j])@, peer@, now),
                },
        {
            let row = &self.outbox[i];
            let is_ready = same(row.peer_id.as_str(), peer) && row.state == OutboxState::Pending
                && row.next_attempt_at <= now;
            if is_ready {
                let better = match best {
                    Some(b) => row.created_at < self.outbox[b].created_at,
                    None => true,
                };
                if better {
                    best = Some(i);
                }
            }
        }
        match best {
            None => None,
            Some(b) => {
                let row = &self.outbox[b];
                assert(ready(self.outbox@[b as int]@, peer@, now));
                Some(
                    WsEventOutboxRow {
                        id: row.id.clone(),
                        workspace_id: row.workspace_id.clone(),
                        sender_seq: row.sender_seq,
                        payload: copy_payload(&row.payload),
                        attempts: row.attempts,
                    },
                )
            },
        }
    }

    /// Notes that an event was shipped.
    pub fn workspace_event_mark_in_flight(&mut self, id: &str)
        ensures
            final(self).same_but_outbox(*old(self)),
            outbox_rows(final(self).outbox@) == in_flight(outbox_rows(old(self).outbox@), id@),
            old(self).events_hold() ==> final(self).events_hold(),
    {
        let ghost before = self.outbox@;
        let mut i: usize = 0;
        while i < self.outbox.len()
            invariant
                i <= self.outbox@.len(),
                self.outbox@.len() == before.len(),
                self.same_but_outbox(*old(self)),
                forall|j: int|
                    0 <= j < i ==> (#[trigger] self.outbox@[j])@ == (if before[j].id@ == id@ {
                        OutboxRowView { state: OutboxState::InFlight, ..before[j]@ }
                    } else {
                        before[j]@
                    }),
                forall|j: int| i <= j < before.len() ==> #[trigger] self.outbox@[j] == before[j],
            decreases self.outbox@.len() - i,
        {
            if same(self.outbox[i].id.as_str(), id) {
                let row = self.outbox[i].restate(
                    OutboxState::InFlight,
                    self.outbox[i].attempts,
                    self.outbox[i].next_attempt_at,
                );
                self.outbox.set(i, row);
            }
            i = i + 1;
        }
        proof {
            let now = in_flight(outbox_rows(before), id@);
            assert(outbox_rows(self.outbox@) =~= now);
            if old(self).events_hold() {
                assert forall|i: int| 0 <= i < now.len() implies (#[trigger] now[i]).sender_seq
                    <= last_seq(self.counters@, now[i].peer_id, now[i].workspace_id) by {
                    assert(outbox_rows(before)[i].sender_seq == now[i].sender_seq);
                }
            }
        }
    }

    /// Notes that an event arrived: its row is dropped.
    pub fn workspace_event_mark_delivered(&mut self, id: &str)
        ensures
            final(self).same_but_outbox(*old(self)),
            outbox_rows(final(self).outbox@) == without_row(outbox_rows(old(self).outbox@), id@),
            old(self).events_hold() ==> final(self).events_hold(),
    {
        let ghost rows = outbox_rows(self.outbox@);
        let mut kept: Vec<OutboxRow> = Vec::new();
        assert(outbox_rows(kept@) =~= Seq::<OutboxRowView>::empty());
        for i in 0..self.outbox.len()
            invariant
                self.outbox == old(self).outbox,
                rows == outbox_rows(self.outbox@),
                self.same_but_outbox(*old(self)),
                outbox_rows(kept@) == without_row(rows.take(i as int), id@),
        {
            let ghost before = outbox_rows(kept@);
            proof {
                assert(rows.take(i + 1).drop_last() =~= rows.take(i as int));
                assert(rows.take(i + 1).last() == self.outbox@[i as int]@);
            }
            let row = &self.outbox[i];
            if !same(row.id.as_str(), id) {
                let copy = row.restate(row.state, row.attempts, row.next_attempt_at);
                let ghost cv = copy@;
                kept.push(copy);
                assert(outbox_rows(kept@) =~= before.push(cv));
            }
        }
        assert(rows.take(rows.len() as int) =~= rows);
        self.outbox = kept;
        proof {
            if old(self).events_hold() {
                lemma_without_row_numbered(rows, id@, self.counters@);
            }
        }
    }

    /// Notes that an event did not arrive: it is tried again later.
    pub fn workspace_event_mark_failed_retry(&mut self, id: &str, next_attempt_at: i64)
        requires
            forall|i: int|
                0 <= i < old(self).outbox@.len() && (#[trigger] old(self).outbox@[i]).id@ == id@
                    ==> old(self).outbox@[i].attempts < u32::MAX,
        ensures
            final(self).same_but_outbox(*old(self)),
            outbox_rows(final(self).outbox@) == to_retry(
                outbox_rows(old(self).outbox@),
                id@,
                next_attempt_at,
            ),
            old(self).events_hold() ==> final(self).events_hold(),
    {
        let ghost before = self.outbox@;
        let mut i: usize = 0;
        while i < self.outbox.len()
            invariant
                i <= self.outbox@.len(),
                self.outbox@.len() == before.len(),
                self.same_but_outbox(*old(self)),
                forall|j: int|
                    0 <= j < before.len() && (#[trigger] before[j]).id@ == id@
                        ==> before[j].attempts < u32::MAX,
                forall|j: int|
                    0 <= j < i ==> (#[trigger] self.outbox@[j])@ == (if before[j].id@ == id@ {
                        OutboxRowView {
                            state: OutboxState::Pending,
                            attempts: (before[j].attempts + 1) as u32,
                            next_attempt_at,
                            ..before[j]@
                        }
                    } else {
                        before[j]@
                    }),
                forall|j: int| i <= j < before.len() ==> #[trigger] self.outbox@[j] == before[j],
            decreases self.outbox@.len() - i,
        {
            if same(self.outbox[i].id.as_str(), id) {
                assert(before[i as int].attempts < u32::MAX);
                let row = self.outbox[i].restate(
                    OutboxState::Pending,
                    self.outbox[i].attempts + 1,
                    next_attempt_at,
                );
                self.outbox.set(i, row);
            }
            i = i + 1;
        }
        proof {
            let now = to_retry(outbox_rows(before), id@, next_attempt_at);
            assert(outbox_rows(self.outbox@) =~= now);
            if old(self).events_hold() {
                assert forall|i: int| 0 <= i < now.len() implies (#[trigger] now[i]).sender_seq
                    <= last_seq(self.counters@, now[i].peer_id, now[i].workspace_id) by {
                    assert(outbox_rows(before)[i].sender_seq == now[i].sender_seq);
                }
            }
        }
    }

    /// After a restart: every event in flight is shipped again. The receiver
    /// knows what it has seen. Says how many there were.
    pub fn workspace_event_reset_in_flight(&mut self) -> (n: usize)
        ensures
            final(self).same_but_outbox(*old(self)),
            outbox_rows(final(self).outbox@) == recovered(outbox_rows(old(self).outbox@)),
            old(self).events_hold() ==> final(self).events_hold(),
            n == flying(outbox_rows(old(self).outbox@)),
    {
        let ghost before = self.outbox@;
        let ghost rows = outbox_rows(before);
        let mut n: usize = 0;
        let mut i: usize = 0;
        while i < self.outbox.len()
            invariant
                i <= self.outbox@.len(),
                rows == outbox_rows(before),
                self.outbox@.len() == before.len(),
                self.same_but_outbox(*old(self)),
                n == flying(rows.take(i as int)),
                n <= i,
                forall|j: int|
                    0 <= j < i ==> (#[trigger] self.outbox@[j])@ == (OutboxRowView {
                        state: OutboxState::Pending,
                        ..before[j]@
                    }),
                forall|j: int| i <= j < before.len() ==> #[trigger] self.outbox@[j] == before[j],
            decreases self.outbox@.len() - i,
        {
            proof {
                assert(rows.take(i + 1).drop_last() =~= rows.take(i as int));
                assert(rows.take(i + 1).last() == before[i as int]@);
            }
            if self.outbox[i].state == OutboxState::InFlight {
                n = n + 1;
                let row = self.outbox[i].restate(
                    OutboxState::Pending,
                    self.outbox[i].attempts,
                    self.outbox[i].next_attempt_at,
                );
                self.outbox.set(i, row);
            }
            i = i + 1;
        }
        assert(rows.take(rows.len() as int) =~= rows);
        proof {
            let now = recovered(rows);
            assert(outbox_rows(self.outbox@) =~= now);
            if old(self).events_hold() {
                assert forall|i: int| 0 <= i < now.len() implies (#[trigger] now[i]).sender_seq
                    <= last_seq(self.counters@, now[i].peer_id, now[i].workspace_id) by {
                    assert(rows[i].sender_seq == now[i].sender_seq);
                }
            }
        }
        n
    }

    /// Notes an event from another daemon, and says whether it is news.
    pub fn workspace_event_inbox_record(&mut self, sender: &str, sender_seq: u64, ws: &str, now: i64) -> (fresh:
        bool)
        ensures
            final(self).same_but_inbox(*old(self)),
            fresh == !seen(old(self).inbox@, sender@, kept_seq(sender_seq)),
            seen(final(self).inbox@, sender@, kept_seq(sender_seq)),
            !fresh ==> final(self).inbox == old(self).inbox,
            fresh ==> {
                &&& final(self).inbox@.len() == old(self).inbox@.len() + 1
                &&& final(self).inbox@.drop_last() == old(self).inbox@
                &&& final(self).inbox@.last().sender_daemon_id@ == sender@
                &&& final(self).inbox@.last().sender_seq == kept_seq(sender_seq)
                &&& final(self).inbox@.last().workspace_id@ == ws@
                &&& final(self).inbox@.last().received_at == now
            },
    {
        let seq: u64 = if sender_seq <= i64::MAX as u64 {
            sender_seq
        } else {
            i64::MAX as u64
        };
        let mut i: usize = 0;
        while i < self.inbox.len()
            invariant
                i <= self.inbox@.len(),
                *self == *old(self),
                seq == kept_seq(sender_seq),
                forall|j: int|
                    0 <= j < i ==> !((#[trigger] self.inbox@[j]).sender_daemon_id@ == sender@
                        && self.inbox@[j].sender_seq == seq),
            decreases self.inbox@.len() - i,
        {
            let row = &self.inbox[i];
            if row.sender_seq == seq && same(row.sender_daemon_id.as_str(), sender) {
                assert(self.inbox@[i as int].sender_daemon_id@ == sender@);
                return false;
            }
            i = i + 1;
        }
        self.inbox.push(
            InboxRow {
                sender_daemon_id: own(sender),
                sender_seq: seq,
                workspace_id: own(ws),
                received_at: now,
            },
        );
        proof {
            assert(self.inbox@.drop_last() =~= old(self).inbox@);
            let last = self.inbox@.len() - 1;
            assert(self.inbox@[last].sender_daemon_id@ == sender@);
        }
        true
    }
}

// ---------------------------------------------------------------------------
// Laws
// ---------------------------------------------------------------------------

/// After a restart nothing is in flight.
pub proof fn recovery_leaves_nothing_in_flight(rows: Seq<OutboxRowView>)
    ensures
        flying(recovered(rows)) == 0,
    decreases rows.len(),
{
    if rows.len() > 0 {
        assert(recovered(rows).drop_last() =~= recovered(rows.drop_last()));
        recovery_leaves_nothing_in_flight(rows.drop_last());
    }
}

/// An event that was noted once is news no more, whatever is noted after it.
pub proof fn news_are_news_once(
    noted: Seq<InboxRow>,
    later: Seq<InboxRow>,
    sender: Seq<char>,
    seq: u64,
)
    requires
        seen(noted, sender, seq),
        noted.is_prefix_of(later),
    ensures
        seen(later, sender, seq),
{
    let i = choose|i: int|
        0 <= i < noted.len() && (#[trigger] noted[i]).sender_daemon_id@ == sender
            && noted[i].sender_seq == seq;
    assert(later[i] == noted[i]);
}

/// Whether `after` follows from `before` by an operation on the outbox: it
/// counts one event more of some workspace for some peer, or it counts as
/// before, whatever became of the rows.
pub open spec fn queue_step(before: Seq<CounterRow>, after: Seq<CounterRow>) -> bool {
    after == before || exists|peer: Seq<char>, ws: Seq<char>| #[trigger]
        counted(before, after, peer, ws)
}

/// Counters never go down, over any run of operations.
pub proof fn counters_never_fall(
    run: Seq<Seq<CounterRow>>,
    i: int,
    j: int,
    peer: Seq<char>,
    ws: Seq<char>,
)
    requires
        0 <= i <= j < run.len(),
        forall|k: int| 0 <= k < run.len() - 1 ==> queue_step(#[trigger] run[k], run[k + 1]),
    ensures
        last_seq(run[i], peer, ws) <= last_seq(run[j], peer, ws),
    decreases j - i,
{
    if i < j {
        counters_never_fall(run, i, j - 1, peer, ws);
        assert(queue_step(run[j - 1], run[j - 1 + 1]));
    }
}

/// Two events of one workspace for one peer never get the same number, and
/// the later one gets the higher, whatever is shipped, delivered, tried again
/// or reset between them. The events are added at the `i`th and the `j`th
/// operation of a run.
pub proof fn numbers_grow(
    run: Seq<Seq<CounterRow>>,
    i: int,
    j: int,
    peer: Seq<char>,
    ws: Seq<char>,
    first: int,
    second: int,
)
    requires
        0 <= i < j < run.len() - 1,
        forall|k: int| 0 <= k < run.len() - 1 ==> queue_step(#[trigger] run[k], run[k + 1]),
        counted(run[i], run[i + 1], peer, ws),
        counted(run[j], run[j + 1], peer, ws),
        first == last_seq(run[i], peer, ws) + 1,
        second == last_seq(run[j], peer, ws) + 1,
    ensures
        first < second,
{
    counters_never_fall(run, i + 1, j, peer, ws);
    assert(last_seq(run[i + 1], peer, ws) == first);
}

/// An event that is added gets a higher number than all that wait for the
/// peer with the workspace's events.
pub proof fn added_events_come_last(
    rows: Seq<OutboxRowView>,
    counters: Seq<CounterRow>,
    i: int,
    peer: Seq<char>,
    ws: Seq<char>,
)
    requires
        numbered(rows, counters),
        0 <= i < rows.len(),
        rows[i].peer_id == peer,
        rows[i].workspace_id == ws,
    ensures
        rows[i].sender_seq < last_seq(counters, peer, ws) + 1,
{
}

/// A counter that is added is what its peer and workspace have reached, and
/// changes no other; without one the count stands at 0.
pub proof fn counters_are_per_peer_and_workspace(
    rows: Seq<CounterRow>,
    row: CounterRow,
    peer: Seq<char>,
    ws: Seq<char>,
)
    ensures
        last_seq(Seq::<CounterRow>::empty(), peer, ws) == 0,
        last_seq(rows.push(row), row.peer_id@, row.workspace_id@) == row.last_seq,
        peer != row.peer_id@ || ws != row.workspace_id@ ==> last_seq(rows.push(row), peer, ws)
            == last_seq(rows, peer, ws),
{
    assert(rows.push(row).drop_last() =~= rows);
}

/// An event that is added waits for its peer, at once and untried, with the
/// number after the last, behind what waits already.
pub proof fn added_events_wait_for_their_peer(
    db: &mut Database,
    id: &str,
    peer: &str,
    ws: &str,
    payload: Vec<u8>,
    now: i64,
    seq: u64,
)
    requires
        last_seq(old(db).counters@, peer@, ws@) < i64::MAX,
        call_ensures(Database::workspace_event_enqueue, (db, id, peer, ws, payload, now), seq),
    ensures
        seq == last_seq(old(db).counters@, peer@, ws@) + 1,
        final(db).outbox@.len() == old(db).outbox@.len() + 1,
        ({
            let row = final(db).outbox@.last();
            &&& row.id@ == id@
            &&& row.peer_id@ == peer@
            &&& row.workspace_id@ == ws@
            &&& row.sender_seq == seq
            &&& row.payload@ == payload@
            &&& row.attempts == 0
            &&& row.next_attempt_at == now
            &&& row.created_at == now
            &&& row.state == OutboxState::Pending
        }),
{
    let rows = outbox_rows(final(db).outbox@);
    assert(rows.len() == final(db).outbox@.len());
    assert(outbox_rows(old(db).outbox@).len() == old(db).outbox@.len());
    assert(rows.last() == final(db).outbox@.last()@);
}

/// An event is shipped to its own peer, while it is pending and once its time
/// has come, and not otherwise.
pub proof fn events_ship_when_their_time_has_come(r: OutboxRowView, peer: Seq<char>, now: i64)
    ensures
        r.peer_id != peer ==> !ready(r, peer, now),
        r.state == OutboxState::InFlight ==> !ready(r, peer, now),
        r.next_attempt_at > now ==> !ready(r, peer, now),
        r.peer_id == peer && r.state == OutboxState::Pending && r.next_attempt_at <= now ==> ready(
            r,
            peer,
            now,
        ),
{
}

/// An event that was shipped is in flight, and the others are as they were.
pub proof fn shipped_events_are_in_flight(rows: Seq<OutboxRowView>, id: Seq<char>, i: int)
    requires
        0 <= i < rows.len(),
    ensures
        in_flight(rows, id).len() == rows.len(),
        rows[i].id != id ==> in_flight(rows, id)[i] == rows[i],
        rows[i].id == id ==> ({
            let row = in_flight(rows, id)[i];
            row.state == OutboxState::InFlight && row.attempts == rows[i].attempts
                && row.sender_seq == rows[i].sender_seq && row.payload == rows[i].payload
        }),
{
}

/// An event that did not arrive is pending again, with one attempt more
/// behind it and its next one at the time given.
pub proof fn failed_events_are_tried_again(
    rows: Seq<OutboxRowView>,
    id: Seq<char>,
    at: i64,
    i: int,
)
    requires
        0 <= i < rows.len(),
        rows[i].attempts < u32::MAX,
    ensures
        to_retry(rows, id, at).len() == rows.len(),
        rows[i].id != id ==> to_retry(rows, id, at)[i] == rows[i],
        rows[i].id == id ==> ({
            let row = to_retry(rows, id, at)[i];
            row.state == OutboxState::Pending && row.attempts == rows[i].attempts + 1
                && row.next_attempt_at == at && row.sender_seq == rows[i].sender_seq && row.payload
                == rows[i].payload
        }),
{
}

/// An event that arrived waits no more; the others do, in their order.
pub proof fn delivered_events_are_dropped(
    rows: Seq<OutboxRowView>,
    row: OutboxRowView,
    id: Seq<char>,
)
    ensures
        without_row(Seq::<OutboxRowView>::empty(), id).len() == 0,
        row.id == id ==> without_row(rows.push(row), id) == without_row(rows, id),
        row.id != id ==> without_row(rows.push(row), id) == without_row(rows, id).push(row),
{
    assert(rows.push(row).drop_last() =~= rows);
}

/// After a restart each event is pending as it was, but for its state, and
/// those that were in flight are counted.
pub proof fn restarts_recover_events(rows: Seq<OutboxRowView>, row: OutboxRowView, i: int)
    requires
        0 <= i < rows.len(),
    ensures
        recovered(rows).len() == rows.len(),
        recovered(rows)[i].state == OutboxState::Pending,
        recovered(rows)[i].id == rows[i].id,
        recovered(rows)[i].attempts == rows[i].attempts,
        recovered(rows)[i].next_attempt_at == rows[i].next_attempt_at,
        flying(rows.push(row)) == flying(rows) + (if row.state == OutboxState::InFlight {
            1nat
        } else {
            0nat
        }),
{
    assert(rows.push(row).drop_last() =~= rows);
}

/// An event is news exactly where none with its number has come from its
/// daemon, whatever workspace it is of.
pub proof fn numbers_tell_news(
    db: &mut Database,
    sender: &str,
    sender_seq: u64,
    ws: &str,
    now: i64,
    fresh: bool,
)
    requires
        sender_seq <= i64::MAX,
        call_ensures(
            Database::workspace_event_inbox_record,
            (db, sender, sender_seq, ws, now),
            fresh,
        ),
    ensures
        !fresh ==> exists|i: int|
            0 <= i < old(db).inbox@.len() && (#[trigger] old(db).inbox@[i]).sender_daemon_id@
                == sender@ && old(db).inbox@[i].sender_seq == sender_seq,
        forall|i: int|
            0 <= i < old(db).inbox@.len() && (#[trigger] old(db).inbox@[i]).sender_daemon_id@
                == sender@ && old(db).inbox@[i].sender_seq == sender_seq ==> !fresh,
        fresh ==> final(db).inbox@.len() == old(db).inbox@.len() + 1
            && final(db).inbox@.last().sender_daemon_id@ == sender@
            && final(db).inbox@.last().sender_seq == sender_seq,
        !fresh ==> final(db).inbox@ == old(db).inbox@,
{
    assert(kept_seq(sender_seq) == sender_seq);
    assert(fresh == !seen(old(db).inbox@, sender@, sender_seq));
}

} // verus!
