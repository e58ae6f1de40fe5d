//! Which peers a workspace's events go to and come from.

use super::{lemma_filter_step, Database};
use crate::order::{
    text_before, text_le, text_le_antisymmetric, text_le_reflexive, text_le_total,
    text_le_transitive,
};
use crate::text::{own, same, texts};
use vstd::prelude::*;
use vstd::string::*;

verus! {

/// Which way events flow.
#[derive(Clone, Copy, Debug, PartialEq, Eq, Structural)]
pub enum FederationDirection {
    Outbound,
    Inbound,
    Both,
}

/// The name of a direction.
pub open spec fn direction_name(d: FederationDirection) -> Seq<char> {
    match d {
        FederationDirection::Outbound => "outbound"@,
        FederationDirection::Inbound => "inbound"@,
        FederationDirection::Both => "both"@,
    }
}

/// Both directions together.
pub open spec fn merged(a: FederationDirection, b: FederationDirection) -> FederationDirection {
    if a == b {
        a
    } else {
        FederationDirection::Both
    }
}

/// Whether events go out.
pub open spec fn goes_out(d: FederationDirection) -> bool {
    d == FederationDirection::Outbound || d == FederationDirection::Both
}

/// Whether events may come in.
pub open spec fn comes_in(d: FederationDirection) -> bool {
    d == FederationDirection::Inbound || d == FederationDirection::Both
}

impl FederationDirection {
    /// The direction with a name.
    pub fn parse(s: &str) -> (r: Option<FederationDirection>)
        ensures
            match r {
                Some(d) => s@ == direction_name(d),
                None => forall|d: FederationDirection| s@ != #[trigger] direction_name(d),
            },
    {
        if same(s, "outbound") {
            Some(FederationDirection::Outbound)
        } else if same(s, "inbound") {
            Some(FederationDirection::Inbound)
        } else if same(s, "both") {
            Some(FederationDirection::Both)
        } else {
            None
        }
    }

    /// A direction as a row names it. What is not known goes both ways.
    pub fn of_row(s: &str) -> (d: FederationDirection)
        ensures
            s@ == direction_name(d) || (d == FederationDirection::Both && forall|k:
                FederationDirection| s@ != #[trigger] direction_name(k)),
    {
        match FederationDirection::parse(s) {
            Some(d) => d,
            None => FederationDirection::Both,
        }
    }

    /// The direction's name.
    pub fn as_str(self) -> (r: &'static str)
        ensures
            r@ == direction_name(self),
    {
        match self {
            FederationDirection::Outbound => "outbound",
            FederationDirection::Inbound => "inbound",
            FederationDirection::Both => "both",
        }
    }

    /// Both directions together.
    pub fn merge(self, other: FederationDirection) -> (r: FederationDirection)
        ensures
            r == merged(self, other),
    {
        if self == other {
            self
        } else {
            FederationDirection::Both
        }
    }

    /// Whether events go out.
    pub fn is_outbound(self) -> (r: bool)
        ensures
            r == goes_out(self),
    {
        match self {
            FederationDirection::Inbound => false,
            _ => true,
        }
    }

    /// Whether events may come in.
    pub fn is_inbound(self) -> (r: bool)
        ensures
            r == comes_in(self),
    {
        match self {
            FederationDirection::Outbound => false,
            _ => true,
        }
    }
}

/// A workspace's federation with a peer.
#[derive(Debug)]
pub struct WorkspaceFederation {
    pub id: String,
    pub peer_id: String,
    pub workspace_id: String,
    pub direction: FederationDirection,
    pub created_at: i64,
}

impl WorkspaceFederation {
    /// Whether the row is that of a peer and a workspace.
    pub open spec fn is_of(self, peer: Seq<char>, ws: Seq<char>) -> bool {
        self.peer_id@ == peer && self.workspace_id@ == ws
    }
}

/// The direction of a workspace's federation with a peer.
pub open spec fn direction_of(rows: Seq<WorkspaceFederation>, peer: Seq<char>, ws: Seq<char>) -> Option<
    FederationDirection,
>
    decreases rows.len(),
{
    if rows.len() == 0 {
        None
    } else if rows.last().is_of(peer, ws) {
        Some(rows.last().direction)
    } else {
        direction_of(rows.drop_last(), peer, ws)
    }
}

/// Whether no peer and workspace are federated twice.
pub open spec fn federations_wf(rows: Seq<WorkspaceFederation>) -> bool {
    forall|i: int, j: int|
        0 <= i < j < rows.len() ==> !(#[trigger] rows[i]).is_of(
            (#[trigger] rows[j]).peer_id@,
            rows[j].workspace_id@,
        )
}

proof fn lemma_direction_at(rows: Seq<WorkspaceFederation>, i: int, peer: Seq<char>, ws: Seq<char>)
    requires
        federations_wf(rows),
        0 <= i < rows.len(),
        rows[i].is_of(peer, ws),
    ensures
        direction_of(rows, peer, ws) == Some(rows[i].direction),
    decreases rows.len(),
{
    let last = rows.len() - 1;
    if i < last {
        assert(!rows[i].is_of(rows[last].peer_id@, rows[last].workspace_id@));
        lemma_direction_at(rows.drop_last(), i, peer, ws);
    }
}

proof fn lemma_no_direction(rows: Seq<WorkspaceFederation>, peer: Seq<char>, ws: Seq<char>)
    requires
        forall|i: int| 0 <= i < rows.len() ==> !(#[trigger] rows[i]).is_of(peer, ws),
    ensures
        direction_of(rows, peer, ws) is None,
    decreases rows.len(),
{
    if rows.len() > 0 {
        assert(rows.last() == rows[rows.len() - 1]);
        lemma_no_direction(rows.drop_last(), peer, ws);
    }
}

proof fn lemma_direction_update(
    rows: Seq<WorkspaceFederation>,
    i: int,
    row: WorkspaceFederation,
    peer: Seq<char>,
    ws: Seq<char>,
)
    requires
        federations_wf(rows),
        0 <= i < rows.len(),
        rows[i].is_of(row.peer_id@, row.workspace_id@),
    ensures
        direction_of(rows.update(i, row), peer, ws) == (if row.is_of(peer, ws) {
            Some(row.direction)
        } else {
            direction_of(rows, peer, ws)
        }),
    decreases rows.len(),
{
    let after = rows.update(i, row);
    let last = rows.len() - 1;
    if i == last {
        assert(after.drop_last() =~= rows.drop_last());
    } else {
        assert(after.drop_last() =~= rows.drop_last().update(i, row));
        assert(!rows[i].is_of(rows[last].peer_id@, rows[last].workspace_id@));
        lemma_direction_update(rows.drop_last(), i, row, peer, ws);
    }
}

proof fn lemma_direction_remove(rows: Seq<WorkspaceFederation>, i: int, peer: Seq<char>, ws: Seq<char>)
    requires
        federations_wf(rows),
        0 <= i < rows.len(),
    ensures
        direction_of(rows.remove(i), peer, ws) == (if rows[i].is_of(peer, ws) {
            None
        } else {
            direction_of(rows, peer, ws)
        }),
    decreases rows.len(),
{
    let last = rows.len() - 1;
    if i == last {
        assert(rows.remove(i) =~= rows.drop_last());
        if rows[i].is_of(peer, ws) {
            assert forall|j: int| 0 <= j < last implies !(#[trigger] rows.drop_last()[j]).is_of(
                peer,
                ws,
            ) by {
                assert(!rows[j].is_of(rows[last].peer_id@, rows[last].workspace_id@));
            }
            lemma_no_direction(rows.drop_last(), peer, ws);
        }
    } else {
        assert(rows.remove(i).drop_last() =~= rows.drop_last().remove(i));
        assert(rows.remove(i).last() == rows.last());
        assert(!rows[i].is_of(rows[last].peer_id@, rows[last].workspace_id@));
        lemma_direction_remove(rows.drop_last(), i, peer, ws);
    }
}

/// The peers that a workspace's events go out to.
pub open spec fn outbound_peers(rows: Seq<WorkspaceFederation>, ws: Seq<char>) -> Seq<Seq<char>>
    decreases rows.len(),
{
    if rows.len() == 0 {
        seq![]
    } else {
        let before = outbound_peers(rows.drop_last(), ws);
        if rows.last().workspace_id@ == ws && goes_out(rows.last().direction) {
            before.push(rows.last().peer_id@)
        } else {
            before
        }
    }
}

/// What a [`WorkspaceFederation`] holds.
pub ghost struct FederationView {
    pub id: Seq<char>,
    pub peer_id: Seq<char>,
    pub workspace_id: Seq<char>,
    pub direction: FederationDirection,
    pub created_at: i64,
}

impl View for WorkspaceFederation {
    type V = FederationView;

    open spec fn view(&self) -> FederationView {
        FederationView {
            id: self.id@,
            peer_id: self.peer_id@,
            workspace_id: self.workspace_id@,
            direction: self.direction,
            created_at: self.created_at,
        }
    }
}

/// What each row of a list holds.
pub open spec fn federations_view(rows: Seq<WorkspaceFederation>) -> Seq<FederationView> {
    rows.map_values(|r: WorkspaceFederation| r@)
}

/// The rows with one more federation. Where the peer and the workspace are
/// federated already, that row is kept and its direction is added to.
pub open spec fn upserted(rows: Seq<FederationView>, row: FederationView) -> Seq<FederationView> {
    if exists|i: int| 0 <= i < rows.len() && same_pair(#[trigger] rows[i], row) {
        rows.map_values(
            |r: FederationView|
                if same_pair(r, row) {
                    FederationView { direction: merged(r.direction, row.direction), ..r }
                } else {
                    r
                },
        )
    } else {
        rows.push(row)
    }
}

/// Whether two rows are of one peer and one workspace.
pub open spec fn same_pair(a: FederationView, b: FederationView) -> bool {
    a.peer_id == b.peer_id && a.workspace_id == b.workspace_id
}

/// Whether a row is not of a workspace.
pub open spec fn not_of(ws: Seq<char>) -> spec_fn(WorkspaceFederation) -> bool {
    |r: WorkspaceFederation| r.workspace_id@ != ws
}

/// The federations but for one workspace's.
pub open spec fn federations_but(rows: Seq<WorkspaceFederation>, ws: Seq<char>) -> Seq<WorkspaceFederation> {
    rows.filter(not_of(ws))
}

/// Removing a workspace's rows removes its federations and no others.
pub(crate) proof fn lemma_federations_but(
    rows: Seq<WorkspaceFederation>,
    gone: Seq<char>,
    peer: Seq<char>,
    ws: Seq<char>,
)
    ensures
        direction_of(federations_but(rows, gone), peer, ws) == (if ws == gone {
            None
        } else {
            direction_of(rows, peer, ws)
        }),
    decreases rows.len(),
{
    reveal(Seq::filter);
    if rows.len() > 0 {
        lemma_federations_but(rows.drop_last(), gone, peer, ws);
        let kept = federations_but(rows.drop_last(), gone);
        assert(kept.push(rows.last()).drop_last() =~= kept);
    }
}

proof fn lemma_federations_but_wf(rows: Seq<WorkspaceFederation>, ws: Seq<char>)
    requires
        federations_wf(rows),
    ensures
        federations_wf(federations_but(rows, ws)),
    decreases rows.len(),
{
    reveal(Seq::filter);
    if rows.len() > 0 {
        let init = rows.drop_last();
        let last = rows.len() - 1;
        lemma_federations_but_wf(init, ws);
        let kept = federations_but(init, ws);
        assert forall|i: int| 0 <= i < kept.len() implies exists|j: int|
            0 <= j < last && #[trigger] rows[j] == #[trigger] kept[i] by {
            assert(kept.contains(kept[i]));
            init.lemma_filter_contains_rev(not_of(ws), kept[i]);
            let j = init.index_of(kept[i]);
            assert(rows[j] == kept[i]);
        }
        assert(rows.last() == rows[last]);
    }
}

/// Removes the rows of a workspace.
pub(crate) fn drop_federations(rows: &mut Vec<WorkspaceFederation>, ws: &str)
    ensures
        final(rows)@ == federations_but(old(rows)@, ws@),
        federations_wf(old(rows)@) ==> federations_wf(final(rows)@),
{
    let ghost before = rows@;
    let ghost keep = not_of(ws@);
    let ghost mut k: int = 0;
    let mut i: usize = 0;
    proof {
        reveal(Seq::filter);
        assert(before.take(0) =~= Seq::<WorkspaceFederation>::empty());
        assert(before.take(0).filter(keep) + before.skip(0) =~= before);
    }
    while i < rows.len()
        invariant
            keep == not_of(ws@),
            0 <= k <= before.len(),
            i == before.take(k).filter(keep).len(),
            rows@ == before.take(k).filter(keep) + before.skip(k),
        decreases rows.len() - i,
    {
        proof {
            lemma_filter_step(before, keep, k);
            assert(rows@[i as int] == before[k]);
        }
        if same(rows[i].workspace_id.as_str(), ws) {
            rows.remove(i);
        } else {
            i = i + 1;
        }
        proof {
            k = k + 1;
            assert(rows@ =~= before.take(k).filter(keep) + before.skip(k));
        }
    }
    proof {
        assert(before.take(k) =~= before);
        assert(rows@ =~= before.filter(keep));
        if federations_wf(before) {
            lemma_federations_but_wf(before, ws@);
        }
    }
}

impl Database {
    /// Whether the federations hold together.
    pub open spec fn federations_hold(self) -> bool {
        federations_wf(self.federations@)
    }

    /// Whether two databases differ at most in their federations.
    pub open spec fn same_but_federations(self, other: Database) -> bool {
        &&& self.workspaces == other.workspaces
        &&& self.agents == other.agents
        &&& self.assignments == other.assignments
        &&& self.memory == other.memory
        &&& self.outbox == other.outbox
        &&& self.inbox == other.inbox
        &&& self.counters == other.counters
    }

    fn find_federation(&self, peer: &str, ws: &str) -> (r: Option<usize>)
        requires
            self.federations_hold(),
        ensures
            match r {
                Some(i) => i < self.federations@.len() && self.federations@[i as int].is_of(
                    peer@,
                    ws@,
                ) && direction_of(self.federations@, peer@, ws@) == Some(
                    self.federations@[i as int].direction,
                ),
                None => direction_of(self.federations@, peer@, ws@) is None && forall|i: int|
                    0 <= i < self.federations@.len() ==> !(#[trigger] self.federations@[i]).is_of(
                        peer@,
                        ws@,
                    ),
            },
    {
        let mut i: usize = 0;
        while i < self.federations.len()
            invariant
                self.federations_hold(),
                i <= self.federations@.len(),
                forall|j: int| 0 <= j < i ==> !(#[trigger] self.federations@[j]).is_of(peer@, ws@),
            decreases self.federations@.len() - i,
        {
            let row = &self.federations[i];
            if same(row.peer_id.as_str(), peer) && same(row.workspace_id.as_str(), ws) {
                proof {
                    lemma_direction_at(self.federations@, i as int, peer@, ws@);
                }
                return Some(i);
            }
            i = i + 1;
        }
        proof {
            lemma_no_direction(self.federations@, peer@, ws@);
        }
        None
    }

    /// Federates a workspace with a peer. A direction that it has already is
    /// kept, and the new one is added to it.
    pub fn upsert_workspace_federation(
        &mut self,
        id: &str,
        peer: &str,
        ws: &str,
        direction: FederationDirection,
        created_at: i64,
    ) -> (r: FederationDirection)
        requires
            old(self).federations_hold(),
        ensures
            final(self).federations_hold(),
            final(self).same_but_federations(*old(self)),
            federations_view(final(self).federations@) == upserted(
                federations_view(old(self).federations@),
                FederationView { id: id@, peer_id: peer@, workspace_id: ws@, direction, created_at },
            ),
            r == (match direction_of(old(self).federations@, peer@, ws@) {
                Some(d) => merged(d, direction),
                None => direction,
            }),
            forall|p: Seq<char>, w: Seq<char>| #[trigger]
                direction_of(final(self).federations@, p, w) == (if p == peer@ && w == ws@ {
                    Some(r)
                } else {
                    direction_of(old(self).federations@, p, w)
                }),
    {
        let ghost before = self.federations@;
        let ghost asked = FederationView {
            id: id@,
            peer_id: peer@,
            workspace_id: ws@,
            direction,
            created_at,
        };
        match self.find_federation(peer, ws) {
            Some(i) => {
                let d = self.federations[i].direction.merge(direction);
                let row = WorkspaceFederation {
                    id: self.federations[i].id.clone(),
                    peer_id: own(peer),
                    workspace_id: own(ws),
                    direction: d,
                    created_at: self.federations[i].created_at,
                };
                let ghost r = row;
                self.federations.set(i, row);
                proof {
                    assert(self.federations@ == before.update(i as int, r));
                    let all = federations_view(before);
                    assert(same_pair(all[i as int], asked));
                    assert forall|j: int| 0 <= j < all.len() && j != i implies !same_pair(
                        #[trigger] all[j],
                        asked,
                    ) by {
                        let (a, b) = if j < i {
                            (j, i as int)
                        } else {
                            (i as int, j)
                        };
                        assert(!before[a].is_of(before[b].peer_id@, before[b].workspace_id@));
                    }
                    assert(federations_view(self.federations@) =~= upserted(all, asked));
                    assert forall|p: Seq<char>, w: Seq<char>| #[trigger]
                        direction_of(self.federations@, p, w) == (if p == peer@ && w == ws@ {
                            Some(d)
                        } else {
                            direction_of(before, p, w)
                        }) by {
                        lemma_direction_update(before, i as int, r, p, w);
                    }
                    assert forall|a: int, b: int| 0 <= a < b < self.federations@.len() implies !(
                    #[trigger] self.federations@[a]).is_of(
                        (#[trigger] self.federations@[b]).peer_id@,
                        self.federations@[b].workspace_id@,
                    ) by {
                        assert(!before[a].is_of(before[b].peer_id@, before[b].workspace_id@));
                    }
                }
                d
            },
            None => {
                let row = WorkspaceFederation {
                    id: own(id),
                    peer_id: own(peer),
                    workspace_id: own(ws),
                    direction,
                    created_at,
                };
                let ghost r = row;
                self.federations.push(row);
                proof {
                    assert(self.federations@ == before.push(r));
                    assert(before.push(r).drop_last() =~= before);
                    let all = federations_view(before);
                    assert forall|j: int| 0 <= j < all.len() implies !same_pair(
                        #[trigger] all[j],
                        asked,
                    ) by {
                        assert(!before[j].is_of(peer@, ws@));
                    }
                    assert(federations_view(self.federations@) =~= upserted(all, asked));
                }
                direction
            },
        }
    }

    /// Ends a workspace's federation with a peer, and says how many rows went.
    pub fn delete_workspace_federation(&mut self, peer: &str, ws: &str) -> (n: usize)
        requires
            old(self).federations_hold(),
        ensures
            final(self).federations_hold(),
            final(self).same_but_federations(*old(self)),
            n == (if direction_of(old(self).federations@, peer@, ws@) is Some {
                1int
            } else {
                0
            }),
            n == 0 ==> final(self).federations == old(self).federations,
            forall|i: int|
                0 <= i < old(self).federations@.len() && (
                #[trigger] old(self).federations@[i]).is_of(peer@, ws@)
                    ==> final(self).federations@ == old(self).federations@.remove(i),
            forall|p: Seq<char>, w: Seq<char>| #[trigger]
                direction_of(final(self).federations@, p, w) == (if p == peer@ && w == ws@ {
                    None
                } else {
                    direction_of(old(self).federations@, p, w)
                }),
    {
        let ghost before = self.federations@;
        let i: usize = match self.find_federation(peer, ws) {
            None => return 0,
            Some(i) => i,
        };
        self.federations.remove(i);
        proof {
            assert(self.federations@ == before.remove(i as int));
            assert forall|j: int|
                0 <= j < before.len() && (#[trigger] before[j]).is_of(peer@, ws@) implies j == i by {
                let (a, b) = if j < i {
                    (j, i as int)
                } else {
                    (i as int, j)
                };
                assert(a < b ==> !before[a].is_of(before[b].peer_id@, before[b].workspace_id@));
            }
            assert forall|p: Seq<char>, w: Seq<char>| #[trigger]
                direction_of(self.federations@, p, w) == (if p == peer@ && w == ws@ {
                    None
                } else {
                    direction_of(before, p, w)
                }) by {
                lemma_direction_remove(before, i as int, p, w);
            }
            assert forall|a: int, b: int| 0 <= a < b < self.federations@.len() implies !(
            #[trigger] self.federations@[a]).is_of(
                (#[trigger] self.federations@[b]).peer_id@,
                self.federations@[b].workspace_id@,
            ) by {
                let x = if a < i {
                    a
                } else {
                    a + 1
                };
                let y = if b < i {
                    b
                } else {
                    b + 1
                };
                assert(self.federations@[a] == before[x]);
                assert(self.federations@[b] == before[y]);
                assert(!before[x].is_of(before[y].peer_id@, before[y].workspace_id@));
            }
        }
        1
    }

    /// The peers that a workspace's events go out to.
    pub fn workspace_outbound_peers(&self, ws: &str) -> (r: Vec<String>)
        ensures
            texts(r@) == outbound_peers(self.federations@, ws@),
    {
        let ghost rows = self.federations@;
        let mut r: Vec<String> = Vec::new();
        assert(texts(r@) =~= outbound_peers(rows.take(0), ws@));
        for i in 0..self.federations.len()
            invariant
                rows == self.federations@,
                texts(r@) == outbound_peers(rows.take(i as int), ws@),
        {
            let row = &self.federations[i];
            let ghost before = texts(r@);
            proof {
                assert(rows.take(i + 1).drop_last() =~= rows.take(i as int));
                assert(rows.take(i + 1).last() == rows[i as int]);
            }
            if same(row.workspace_id.as_str(), ws) && row.direction.is_outbound() {
                r.push(row.peer_id.clone());
                assert(texts(r@) =~= before.push(row.peer_id@));
            }
        }
        assert(rows.take(rows.len() as int) =~= rows);
        r
    }

    /// Whether a peer may send events to a workspace.
    pub fn workspace_federation_inbound_authorized(&self, peer: &str, ws: &str) -> (r: bool)
        requires
            self.federations_hold(),
        ensures
            r == (match direction_of(self.federations@, peer@, ws@) {
                Some(d) => comes_in(d),
                None => false,
            }),
    {
        match self.find_federation(peer, ws) {
            Some(i) => self.federations[i].direction.is_inbound(),
            None => false,
        }
    }
}

/// A workspace's events go out to no peer twice.
pub proof fn each_peer_once(rows: Seq<WorkspaceFederation>, ws: Seq<char>)
    requires
        federations_wf(rows),
    ensures
        outbound_peers(rows, ws).no_duplicates(),
        forall|p: Seq<char>| #[trigger]
            outbound_peers(rows, ws).contains(p) ==> exists|i: int|
                0 <= i < rows.len() && (#[trigger] rows[i]).is_of(p, ws),
    decreases rows.len(),
{
    if rows.len() > 0 {
        let init = rows.drop_last();
        let last = rows.last();
        let before = outbound_peers(init, ws);
        let after = outbound_peers(rows, ws);
        assert(federations_wf(init)) by {
            assert forall|i: int, j: int| 0 <= i < j < init.len() implies !(
            #[trigger] init[i]).is_of((#[trigger] init[j]).peer_id@, init[j].workspace_id@) by {
                assert(!rows[i].is_of(rows[j].peer_id@, rows[j].workspace_id@));
            }
        }
        each_peer_once(init, ws);
        if last.workspace_id@ == ws && goes_out(last.direction) {
            assert(after == before.push(last.peer_id@));
            if before.contains(last.peer_id@) {
                let i = choose|i: int|
                    0 <= i < init.len() && (#[trigger] init[i]).is_of(last.peer_id@, ws);
                assert(!rows[i].is_of(
                    rows[rows.len() - 1].peer_id@,
                    rows[rows.len() - 1].workspace_id@,
                ));
            }
        }
        assert forall|p: Seq<char>| #[trigger] after.contains(p) implies exists|i: int|
            0 <= i < rows.len() && (#[trigger] rows[i]).is_of(p, ws) by {
            let k = choose|k: int| 0 <= k < after.len() && after[k] == p;
            if k < before.len() {
                assert(before[k] == p);
                assert(before.contains(p));
                let i = choose|i: int| 0 <= i < init.len() && (#[trigger] init[i]).is_of(p, ws);
                assert(rows[i].is_of(p, ws));
            } else {
                assert(rows[rows.len() - 1].is_of(p, ws));
            }
        }
    }
}

// ---------------------------------------------------------------------------
// Listings
// ---------------------------------------------------------------------------

/// By what a listing is ordered.
#[derive(Clone, Copy, Debug, PartialEq, Eq, Structural)]
pub enum ListOrder {
    /// By workspace, then by peer.
    Names,
    /// By age, the oldest first.
    Age,
}

/// Whether a row comes no later than another in a listing.
pub open spec fn listed_before(a: FederationView, b: FederationView, order: ListOrder) -> bool {
    match order {
        ListOrder::Age => a.created_at <= b.created_at,
        ListOrder::Names => if a.workspace_id == b.workspace_id {
            text_le(a.peer_id, b.peer_id)
        } else {
            text_le(a.workspace_id, b.workspace_id)
        },
    }
}

/// Whether a listing is in order.
pub open spec fn in_list_order(rows: Seq<FederationView>, order: ListOrder) -> bool {
    forall|i: int, j: int|
        0 <= i < j < rows.len() ==> listed_before(#[trigger] rows[i], #[trigger] rows[j], order)
}

proof fn lemma_listed_total(a: FederationView, b: FederationView, order: ListOrder)
    ensures
        listed_before(a, b, order) || listed_before(b, a, order),
{
    text_le_total(a.peer_id, b.peer_id);
    text_le_total(a.workspace_id, b.workspace_id);
}

proof fn lemma_listed_transitive(
    a: FederationView,
    b: FederationView,
    c: FederationView,
    order: ListOrder,
)
    requires
        listed_before(a, b, order),
        listed_before(b, c, order),
    ensures
        listed_before(a, c, order),
{
    if order == ListOrder::Names {
        if a.workspace_id == b.workspace_id && b.workspace_id == c.workspace_id {
            text_le_transitive(a.peer_id, b.peer_id, c.peer_id);
        } else {
            text_le_reflexive(a.workspace_id);
            text_le_reflexive(b.workspace_id);
            text_le_transitive(a.workspace_id, b.workspace_id, c.workspace_id);
            if a.workspace_id == c.workspace_id {
                text_le_antisymmetric(a.workspace_id, b.workspace_id);
            }
        }
    }
}

impl WorkspaceFederation {
    fn copy(&self) -> (r: WorkspaceFederation)
        ensures
            r@ == self@,
    {
        WorkspaceFederation {
            id: self.id.clone(),
            peer_id: self.peer_id.clone(),
            workspace_id: self.workspace_id.clone(),
            direction: self.direction,
            created_at: self.created_at,
        }
    }

    fn comes_before(&self, other: &WorkspaceFederation, order: ListOrder) -> (r: bool)
        ensures
            r == listed_before(self@, other@, order),
    {
        match order {
            ListOrder::Age => self.created_at <= other.created_at,
            ListOrder::Names => if same(
                self.workspace_id.as_str(),
                other.workspace_id.as_str(),
            ) {
                text_before(self.peer_id.as_str(), other.peer_id.as_str())
            } else {
                text_before(self.workspace_id.as_str(), other.workspace_id.as_str())
            },
        }
    }
}

/// Puts a row where it belongs in a listing.
fn place(list: &mut Vec<WorkspaceFederation>, row: WorkspaceFederation, order: ListOrder)
    requires
        in_list_order(federations_view(old(list)@), order),
    ensures
        in_list_order(federations_view(final(list)@), order),
        federations_view(final(list)@).to_multiset() == federations_view(
            old(list)@,
        ).to_multiset().insert(row@),
{
    let ghost before = federations_view(list@);
    let ghost x = row@;
    let mut k: usize = 0;
    while k < list.len() && list[k].comes_before(&row, order)
        invariant
            before == federations_view(list@),
            x == row@,
            k <= before.len(),
            forall|i: int| 0 <= i < k ==> listed_before(#[trigger] before[i], x, order),
        decreases before.len() - k,
    {
        assert(before[k as int] == list@[k as int]@);
        k = k + 1;
    }
    proof {
        assert forall|i: int| k <= i < before.len() implies listed_before(
            x,
            #[trigger] before[i],
            order,
        ) by {
            assert(before[k as int] == list@[k as int]@);
            lemma_listed_total(x, before[k as int], order);
            if i > k {
                lemma_listed_transitive(x, before[k as int], before[i], order);
            }
        }
    }
    list.insert(k, row);
    proof {
        let after = federations_view(list@);
        assert(after =~= before.insert(k as int, x));
        assert forall|i: int, j: int| 0 <= i < j < after.len() implies listed_before(
            #[trigger] after[i],
            #[trigger] after[j],
            order,
        ) by {
            if j < k {
                assert(after[i] == before[i] && after[j] == before[j]);
            } else if j == k {
                assert(after[i] == before[i]);
            } else if i < k {
                assert(after[i] == before[i] && after[j] == before[j - 1]);
            } else if i == k {
                assert(after[j] == before[j - 1]);
            } else {
                assert(after[i] == before[i - 1] && after[j] == before[j - 1]);
            }
        }
        vstd::seq_lib::to_multiset_insert(before, k as int, x);
    }
}

/// The rows of a workspace, or all of them.
pub open spec fn rows_of(rows: Seq<FederationView>, ws: Option<Seq<char>>) -> Seq<FederationView> {
    rows.filter(|r: FederationView| ws is None || ws == Some(r.workspace_id))
}

impl Database {
    fn list_federations(&self, ws: Option<&str>, order: ListOrder) -> (r: Vec<WorkspaceFederation>)
        ensures
            in_list_order(federations_view(r@), order),
            federations_view(r@).to_multiset() == rows_of(
                federations_view(self.federations@),
                crate::text::opt_str(ws),
            ).to_multiset(),
    {
        let ghost rows = federations_view(self.federations@);
        let ghost want = crate::text::opt_str(ws);
        let ghost keep = |r: FederationView| want is None || want == Some(r.workspace_id);
        let mut r: Vec<WorkspaceFederation> = Vec::new();
        proof {
            assert(rows.take(0) =~= Seq::<FederationView>::empty());
            reveal(Seq::filter);
            assert(rows.take(0).filter(keep) =~= Seq::<FederationView>::empty());
            assert(federations_view(r@) =~= Seq::<FederationView>::empty());
        }
        for i in 0..self.federations.len()
            invariant
                rows == federations_view(self.federations@),
                want == crate::text::opt_str(ws),
                keep == (|r: FederationView| want is None || want == Some(r.workspace_id)),
                in_list_order(federations_view(r@), order),
                federations_view(r@).to_multiset() == rows.take(i as int).filter(
                    keep,
                ).to_multiset(),
        {
            let row = &self.federations[i];
            let ghost x = row@;
            proof {
                assert(rows.take(i + 1) =~= rows.take(i as int).push(x));
                rows.take(i as int).lemma_filter_push(x, keep);
                rows.take(i as int).filter(keep).to_multiset_ensures();
            }
            let wanted = match ws {
                None => true,
                Some(w) => same(row.workspace_id.as_str(), w),
            };
            if wanted {
                place(&mut r, row.copy(), order);
            }
        }
        assert(rows.take(rows.len() as int) =~= rows);
        r
    }

    /// Every federation, by workspace and peer.
    pub fn list_workspace_federations(&self) -> (r: Vec<WorkspaceFederation>)
        ensures
            in_list_order(federations_view(r@), ListOrder::Names),
            federations_view(r@).to_multiset() == rows_of(
                federations_view(self.federations@),
                None,
            ).to_multiset(),
    {
        self.list_federations(None, ListOrder::Names)
    }

    /// The federations of a workspace, the oldest first.
    pub fn list_workspace_federations_for(&self, ws: &str) -> (r: Vec<WorkspaceFederation>)
        ensures
            in_list_order(federations_view(r@), ListOrder::Age),
            federations_view(r@).to_multiset() == rows_of(
                federations_view(self.federations@),
                Some(ws@),
            ).to_multiset(),
    {
        self.list_federations(Some(ws), ListOrder::Age)
    }
}

// ---------------------------------------------------------------------------
// Laws
// ---------------------------------------------------------------------------

/// Federating again never takes a direction away, and the order does not
/// matter.
pub proof fn federating_only_adds(a: FederationDirection, b: FederationDirection)
    ensures
        goes_out(merged(a, b)) == (goes_out(a) || goes_out(b)),
        comes_in(merged(a, b)) == (comes_in(a) || comes_in(b)),
        merged(a, b) == merged(b, a),
        merged(a, a) == a,
{
}

/// A direction says whether events go out, come in, or both, and each has a
/// name of its own.
pub proof fn directions_are_told_apart(d: FederationDirection, other: FederationDirection)
    ensures
        goes_out(d) <==> d != FederationDirection::Inbound,
        comes_in(d) <==> d != FederationDirection::Outbound,
        direction_name(FederationDirection::Outbound) == "outbound"@,
        direction_name(FederationDirection::Inbound) == "inbound"@,
        direction_name(FederationDirection::Both) == "both"@,
        direction_name(d) == direction_name(other) ==> d == other,
{
    reveal_strlit("outbound");
    reveal_strlit("inbound");
    reveal_strlit("both");
    assert("outbound"@[0] == 'o');
    assert("inbound"@[0] == 'i');
    assert("both"@[0] == 'b');
}

/// A workspace that is federated anew has the direction that was asked for;
/// one that is federated the other way already goes both ways. No other
/// federation changes.
pub proof fn federating_takes_effect(
    db: &mut Database,
    id: &str,
    peer: &str,
    ws: &str,
    direction: FederationDirection,
    created_at: i64,
    r: FederationDirection,
    other_peer: Seq<char>,
    other_ws: Seq<char>,
)
    requires
        old(db).federations_hold(),
        call_ensures(
            Database::upsert_workspace_federation,
            (db, id, peer, ws, direction, created_at),
            r,
        ),
    ensures
        direction_of(final(db).federations@, peer@, ws@) == Some(r),
        direction_of(old(db).federations@, peer@, ws@) is None ==> r == direction,
        direction_of(old(db).federations@, peer@, ws@) == Some(direction) ==> r == direction,
        direction_of(old(db).federations@, peer@, ws@) matches Some(d) ==> d != direction ==> r
            == FederationDirection::Both,
        other_peer != peer@ || other_ws != ws@ ==> direction_of(
            final(db).federations@,
            other_peer,
            other_ws,
        ) == direction_of(old(db).federations@, other_peer, other_ws),
{
}

/// A row that is added is the federation of its peer and workspace, and its
/// peer gets the workspace's events where they go out.
pub proof fn rows_are_federations(
    rows: Seq<WorkspaceFederation>,
    row: WorkspaceFederation,
    peer: Seq<char>,
    ws: Seq<char>,
)
    ensures
        direction_of(Seq::<WorkspaceFederation>::empty(), peer, ws) is None,
        direction_of(rows.push(row), row.peer_id@, row.workspace_id@) == Some(row.direction),
        peer != row.peer_id@ || ws != row.workspace_id@ ==> direction_of(rows.push(row), peer, ws)
            == direction_of(rows, peer, ws),
        outbound_peers(Seq::<WorkspaceFederation>::empty(), ws).len() == 0,
        row.workspace_id@ == ws && row.direction != FederationDirection::Inbound
            ==> outbound_peers(rows.push(row), ws) == outbound_peers(rows, ws).push(row.peer_id@),
        row.workspace_id@ != ws || row.direction == FederationDirection::Inbound
            ==> outbound_peers(rows.push(row), ws) == outbound_peers(rows, ws),
{
    assert(rows.push(row).drop_last() =~= rows);
}

/// A peer may send events of a workspace exactly where its federation lets
/// them in.
pub proof fn inbound_peers_may_send(db: Database, peer: &str, ws: &str, r: bool)
    requires
        db.federations_hold(),
        call_ensures(
            Database::workspace_federation_inbound_authorized,
            (&db, peer, ws),
            r,
        ),
    ensures
        r <==> (direction_of(db.federations@, peer@, ws@) == Some(FederationDirection::Inbound)
            || direction_of(db.federations@, peer@, ws@) == Some(FederationDirection::Both)),
{
}

/// An ended federation is gone, and the others stay.
pub proof fn ended_federations_are_gone(
    db: &mut Database,
    peer: &str,
    ws: &str,
    n: usize,
    other_peer: Seq<char>,
    other_ws: Seq<char>,
)
    requires
        old(db).federations_hold(),
        call_ensures(Database::delete_workspace_federation, (db, peer, ws), n),
    ensures
        direction_of(final(db).federations@, peer@, ws@) is None,
        n == 1 <==> direction_of(old(db).federations@, peer@, ws@) is Some,
        n <= 1,
        other_peer != peer@ || other_ws != ws@ ==> direction_of(
            final(db).federations@,
            other_peer,
            other_ws,
        ) == direction_of(old(db).federations@, other_peer, other_ws),
{
}

/// By age the older comes first; by name the workspace counts before the
/// peer.
pub proof fn listings_are_ordered(a: FederationView, b: FederationView)
    ensures
        a.created_at < b.created_at ==> !listed_before(b, a, ListOrder::Age),
        a.workspace_id != b.workspace_id && text_le(a.workspace_id, b.workspace_id)
            ==> !listed_before(b, a, ListOrder::Names),
        a.workspace_id == b.workspace_id && a.peer_id != b.peer_id && text_le(a.peer_id, b.peer_id)
            ==> !listed_before(b, a, ListOrder::Names),
{
    if text_le(b.workspace_id, a.workspace_id) && text_le(a.workspace_id, b.workspace_id) {
        crate::order::text_le_antisymmetric(a.workspace_id, b.workspace_id);
    }
    if text_le(b.peer_id, a.peer_id) && text_le(a.peer_id, b.peer_id) {
        crate::order::text_le_antisymmetric(a.peer_id, b.peer_id);
    }
}

/// A listing of one workspace shows its federations and no others; one
/// without shows all.
pub proof fn listings_are_of_one_workspace(
    rows: Seq<FederationView>,
    row: FederationView,
    ws: Seq<char>,
)
    ensures
        rows_of(rows, None).contains(row) <==> rows.contains(row),
        rows_of(rows, Some(ws)).contains(row) <==> rows.contains(row) && row.workspace_id == ws,
{
    let none = None::<Seq<char>>;
    let some = Some(ws);
    lemma_kept_rows(rows, |r: FederationView| none is None || none == Some(r.workspace_id), row);
    lemma_kept_rows(rows, |r: FederationView| some is None || some == Some(r.workspace_id), row);
}

proof fn lemma_kept_rows(
    rows: Seq<FederationView>,
    keep: spec_fn(FederationView) -> bool,
    row: FederationView,
)
    ensures
        rows.filter(keep).contains(row) <==> rows.contains(row) && keep(row),
{
    let kept = rows.filter(keep);
    if rows.contains(row) && keep(row) {
        let i = choose|i: int| 0 <= i < rows.len() && rows[i] == row;
        rows.lemma_filter_contains(keep, i);
    }
    if kept.contains(row) {
        rows.lemma_filter_contains_rev(keep, row);
        rows.lemma_filter_pred(keep, choose|i: int| 0 <= i < kept.len() && kept[i] == row);
    }
}

} // verus!
