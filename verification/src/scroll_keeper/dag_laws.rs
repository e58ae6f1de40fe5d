//! What cycles, dependents and conflicts of a scroll's tasks are.

use super::dag::{
    detect_all_conflicts, downstream, downstream_in, edge, graph_wf, has_cycle, path, square,
    validate_dag,
};
use vstd::prelude::*;

verus! {

/// A task that depends on itself makes a cycle, and so do two that depend on
/// each other.
pub proof fn mutual_dependencies_are_cycles(adj: Seq<Vec<usize>>, u: int, v: int)
    requires
        edge(adj, u, v),
        edge(adj, v, u),
    ensures
        has_cycle(adj),
{
    let p = seq![u, v, u];
    assert forall|k: int| 0 <= k < p.len() - 1 implies edge(adj, #[trigger] p[k], p[k + 1]) by {
    }
    assert(path(adj, p) && p.len() >= 2 && p[0] == p.last());
}

/// Tasks of which each depends only on earlier ones make no cycle.
pub proof fn ordered_dependencies_are_no_cycle(adj: Seq<Vec<usize>>)
    requires
        forall|u: int, k: int|
            0 <= u < adj.len() && 0 <= k < adj[u]@.len() ==> (#[trigger] adj[u]@[k]) < u,
    ensures
        !has_cycle(adj),
{
    if has_cycle(adj) {
        let p = choose|p: Seq<int>| #[trigger] path(adj, p) && p.len() >= 2 && p[0] == p.last();
        lemma_descending(adj, p, p.len() - 1);
    }
}

proof fn lemma_descending(adj: Seq<Vec<usize>>, p: Seq<int>, i: int)
    requires
        path(adj, p),
        0 < i < p.len(),
        forall|u: int, k: int|
            0 <= u < adj.len() && 0 <= k < adj[u]@.len() ==> (#[trigger] adj[u]@[k]) < u,
    ensures
        p[i] < p[0],
    decreases i,
{
    assert(edge(adj, p[i - 1], p[i - 1 + 1]));
    if i > 1 {
        lemma_descending(adj, p, i - 1);
    }
}

/// A task's dependencies are the tasks that its list names.
pub proof fn listed_tasks_are_dependencies(adj: Seq<Vec<usize>>, u: int, k: int)
    requires
        0 <= u < adj.len(),
        0 <= k < adj[u]@.len(),
        adj[u]@[k] < adj.len(),
    ensures
        edge(adj, u, adj[u]@[k] as int),
        forall|v: int|
            #[trigger] edge(adj, u, v) ==> exists|i: int|
                0 <= i < adj[u]@.len() && #[trigger] adj[u]@[i] == v,
{
}

/// What depends on a task lies downstream of it, and so does what depends on
/// that; a task that depends on nothing does not.
pub proof fn dependents_lie_downstream(adj: Seq<Vec<usize>>, src: int, i: int, j: int)
    ensures
        edge(adj, i, src) ==> downstream(adj, src, i),
        downstream(adj, src, i) && edge(adj, j, i) ==> downstream(adj, src, j),
        (forall|v: int| !#[trigger] edge(adj, i, v)) ==> !downstream(adj, src, i),
{
    if edge(adj, i, src) {
        assert(downstream_in(adj, src, i, 1));
    }
    if downstream(adj, src, i) && edge(adj, j, i) {
        let n = choose|n: nat| #[trigger] downstream_in(adj, src, i, n);
        assert(downstream_in(adj, src, j, n + 1));
    }
    if downstream(adj, src, i) {
        let n = choose|n: nat| #[trigger] downstream_in(adj, src, i, n);
        assert(n > 0);
        assert(edge(adj, i, src) || exists|d: int| #[trigger]
            edge(adj, i, d) && downstream_in(adj, src, d, (n - 1) as nat));
    }
}

/// Every pair that conflicts is told once, the earlier task first, and no
/// other is.
pub proof fn conflicts_are_told_once(
    table: Vec<Vec<bool>>,
    r: Vec<(usize, usize)>,
    i: usize,
    j: usize,
)
    requires
        square(table@, table@.len() as int),
        call_ensures(detect_all_conflicts, (&table,), r),
        i < j < table@.len(),
    ensures
        r@.contains((i, j)) <==> table@[i as int]@[j as int],
        !r@.contains((j, i)),
{
    assert(table@[i as int]@[j as int] <==> r@.contains(
        ((i as int) as usize, (j as int) as usize),
    ));
    if r@.contains((j, i)) {
        let k = choose|k: int| 0 <= k < r@.len() && r@[k] == (j, i);
        assert(r@[k].0 < r@[k].1);
    }
}

/// A graph is sound exactly where no task depends on itself, directly or
/// through others.
pub proof fn graphs_without_cycles_are_sound(adj: Vec<Vec<usize>>, ok: bool)
    requires
        graph_wf(adj@),
        call_ensures(validate_dag, (&adj,), ok),
    ensures
        ok ==> forall|p: Seq<int>|
            p.len() >= 2 && #[trigger] path(adj@, p) ==> p[0] != p.last(),
        !ok ==> exists|p: Seq<int>|
            p.len() >= 2 && #[trigger] path(adj@, p) && p[0] == p.last(),
{
}

} // verus!
