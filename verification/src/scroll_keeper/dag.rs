//! The graph of a scroll's dependencies: cycles, what lies downstream of a
//! task, and conflicts between tasks.
//!
//! Tasks are numbered by their place in the scroll; `adj[i]` holds the
//! numbers of the tasks that task `i` depends on.

use vstd::prelude::*;

verus! {

/// Whether task `u` depends on task `v`.
pub open spec fn edge(adj: Seq<Vec<usize>>, u: int, v: int) -> bool {
    0 <= u < adj.len() && 0 <= v < adj.len() && exists|k: int|
        0 <= k < adj[u]@.len() && #[trigger] adj[u]@[k] == v
}

/// Whether every dependency is one of the tasks.
pub open spec fn graph_wf(adj: Seq<Vec<usize>>) -> bool {
    forall|u: int, k: int|
        0 <= u < adj.len() && 0 <= k < adj[u]@.len() ==> (#[trigger] adj[u]@[k]) < adj.len()
}

/// Whether each task of `p` depends on the next.
pub open spec fn path(adj: Seq<Vec<usize>>, p: Seq<int>) -> bool {
    forall|k: int| 0 <= k < p.len() - 1 ==> edge(adj, #[trigger] p[k], p[k + 1])
}

/// Whether some task depends on itself, directly or through others.
pub open spec fn has_cycle(adj: Seq<Vec<usize>>) -> bool {
    exists|p: Seq<int>| #[trigger] path(adj, p) && p.len() >= 2 && p[0] == p.last()
}

/// Whether task `v` is `u`, or `u` depends on it, directly or through others.
pub open spec fn reaches(adj: Seq<Vec<usize>>, u: int, v: int) -> bool {
    exists|p: Seq<int>| #[trigger] path(adj, p) && p.len() > 0 && p[0] == u && p.last() == v
}

/// Whether a path from task `u` comes back to where it was.
pub open spec fn cycle_from(adj: Seq<Vec<usize>>, u: int) -> bool {
    exists|p: Seq<int>, i: int| #[trigger]
        path(adj, p) && 0 <= i < p.len() - 1 && p[0] == u && #[trigger] p[i] == p.last()
}

// ---------------------------------------------------------------------------
// Cycles
// ---------------------------------------------------------------------------

proof fn lemma_prepend(adj: Seq<Vec<usize>>, u: int, p: Seq<int>)
    requires
        path(adj, p),
        p.len() > 0,
        edge(adj, u, p[0]),
    ensures
        path(adj, seq![u] + p),
{
    let q = seq![u] + p;
    assert forall|k: int| 0 <= k < q.len() - 1 implies edge(adj, #[trigger] q[k], q[k + 1]) by {
        if k > 0 {
            assert(edge(adj, p[k - 1], p[k - 1 + 1]));
        }
    }
}

proof fn lemma_reaches_step(adj: Seq<Vec<usize>>, u: int, v: int, w: int)
    requires
        edge(adj, u, v),
        reaches(adj, v, w),
    ensures
        reaches(adj, u, w),
{
    let p = choose|p: Seq<int>| #[trigger]
        path(adj, p) && p.len() > 0 && p[0] == v && p.last() == w;
    lemma_prepend(adj, u, p);
    let q = seq![u] + p;
    assert(path(adj, q) && q[0] == u && q.last() == w);
}

proof fn lemma_reaches_self(adj: Seq<Vec<usize>>, u: int)
    ensures
        reaches(adj, u, u),
{
    let p = seq![u];
    assert(path(adj, p) && p[0] == u && p.last() == u);
}

proof fn lemma_cycle_step(adj: Seq<Vec<usize>>, u: int, v: int)
    requires
        edge(adj, u, v),
        cycle_from(adj, v),
    ensures
        cycle_from(adj, u),
{
    let (p, i) = choose|p: Seq<int>, i: int| #[trigger]
        path(adj, p) && 0 <= i < p.len() - 1 && p[0] == v && #[trigger] p[i] == p.last();
    lemma_prepend(adj, u, p);
    let q = seq![u] + p;
    assert(q[i + 1] == q.last());
    assert(path(adj, q) && 0 <= i + 1 < q.len() - 1 && q[0] == u);
}

proof fn lemma_cycle_is_one(adj: Seq<Vec<usize>>, u: int)
    requires
        cycle_from(adj, u),
    ensures
        has_cycle(adj),
{
    let (p, i) = choose|p: Seq<int>, i: int| #[trigger]
        path(adj, p) && 0 <= i < p.len() - 1 && p[0] == u && #[trigger] p[i] == p.last();
    let q = p.skip(i);
    lemma_path_skip(adj, p, i);
    assert(path(adj, q) && q.len() >= 2 && q[0] == q.last());
}

proof fn lemma_path_skip(adj: Seq<Vec<usize>>, p: Seq<int>, i: int)
    requires
        path(adj, p),
        0 <= i < p.len(),
    ensures
        path(adj, p.skip(i)),
{
    let q = p.skip(i);
    assert forall|k: int| 0 <= k < q.len() - 1 implies edge(adj, #[trigger] q[k], q[k + 1]) by {
        assert(edge(adj, p[i + k], p[i + k + 1]));
    }
}

/// Number of tasks that the search has not reached.
spec fn unseen(color: Seq<u8>) -> nat
    decreases color.len(),
{
    if color.len() == 0 {
        0
    } else {
        unseen(color.drop_last()) + if color.last() == 0 {
            1nat
        } else {
            0nat
        }
    }
}

proof fn lemma_unseen_update(color: Seq<u8>, i: int, c: u8)
    requires
        0 <= i < color.len(),
    ensures
        color[i] == 0 && c != 0 ==> unseen(color.update(i, c)) + 1 == unseen(color),
        color[i] != 0 && c != 0 ==> unseen(color.update(i, c)) == unseen(color),
    decreases color.len(),
{
    let next = color.update(i, c);
    if i == color.len() - 1 {
        assert(next.drop_last() =~= color.drop_last());
    } else {
        lemma_unseen_update(color.drop_last(), i, c);
        assert(next.drop_last() =~= color.drop_last().update(i, c));
    }
}

/// What holds throughout the search: the tasks on the stack are those being
/// searched, each depending on the next, and every task that is done depends
/// only on tasks that were done before it.
spec fn searching(
    adj: Seq<Vec<usize>>,
    color: Seq<u8>,
    stack: Seq<int>,
    done: Seq<int>,
) -> bool {
    &&& color.len() == adj.len()
    &&& forall|i: int| 0 <= i < color.len() ==> #[trigger] color[i] <= 2
    &&& forall|i: int| 0 <= i < color.len() ==> (#[trigger] color[i] == 1 <==> stack.contains(i))
    &&& forall|k: int| 0 <= k < stack.len() ==> 0 <= #[trigger] stack[k] < adj.len()
    &&& path(adj, stack)
    &&& forall|i: int| 0 <= i < color.len() ==> (#[trigger] color[i] == 2 <==> done.contains(i))
    &&& done.no_duplicates()
    &&& forall|a: int, v: int|
        0 <= a < done.len() && #[trigger] edge(adj, done[a], v) ==> done.take(a).contains(v)
}

/// Searches from `node`: `true` exactly where a path from it comes back to
/// where it was. Otherwise what it has newly seen is what `node` reaches, and
/// the stack is as it was.
#[verifier::spinoff_prover]
#[verifier::rlimit(60)]
fn dag_has_cycle(
    node: usize,
    adj: &Vec<Vec<usize>>,
    color: &mut Vec<u8>,
    Ghost(stack): Ghost<Seq<int>>,
    Ghost(done): Ghost<Seq<int>>,
) -> (r: (bool, Ghost<Seq<int>>))
    requires
        graph_wf(adj@),
        node < adj@.len(),
        searching(adj@, old(color)@, stack, done),
        stack.len() > 0 ==> edge(adj@, stack.last(), node as int),
    ensures
        r.0 <==> cycle_from(adj@, node as int),
        !r.0 ==> searching(adj@, final(color)@, stack, r.1@),
        !r.0 ==> unseen(final(color)@) <= unseen(old(color)@),
        !r.0 ==> forall|i: int|
            0 <= i < adj@.len() ==> (#[trigger] final(color)@[i] == 2 <==> old(color)@[i] == 2
                || reaches(adj@, node as int, i)),
    decreases unseen(old(color)@),
{
    if color[node] == 1 {
        proof {
            let k = choose|k: int| 0 <= k < stack.len() && stack[k] == node as int;
            let p = stack.skip(k).push(node as int);
            assert forall|m: int| 0 <= m < p.len() - 1 implies edge(
                adj@,
                #[trigger] p[m],
                p[m + 1],
            ) by {
                assert(p[m] == stack[k + m]);
                if m + 1 < p.len() - 1 {
                    assert(p[m + 1] == stack[k + m + 1]);
                    assert(edge(adj@, stack[k + m], stack[k + m + 1]));
                }
            }
            assert(path(adj@, p) && 0 <= 0 < p.len() - 1 && p[0] == p.last());
        }
        return (true, Ghost(done));
    }
    if color[node] == 2 {
        proof {
            lemma_done_is_closed(adj@, color@, stack, done, node as int);
        }
        return (false, Ghost(done));
    }
    let ghost before = color@;
    color[node] = 1;
    let ghost inner = stack.push(node as int);
    let ghost mut so_far = done;
    proof {
        lemma_unseen_update(before, node as int, 1);
        assert(color@ =~= before.update(node as int, 1));
        assert forall|i: int| 0 <= i < color@.len() implies (#[trigger] color@[i] == 1
            <==> inner.contains(i)) by {
            if inner.contains(i) && i != node {
                let k = choose|k: int| 0 <= k < inner.len() && inner[k] == i;
                assert(stack[k] == i);
            }
            if stack.contains(i) {
                let k = choose|k: int| 0 <= k < stack.len() && stack[k] == i;
                assert(inner[k] == i);
            }
            if i == node {
                assert(inner[stack.len() as int] == i);
            }
        }
        assert forall|k: int| 0 <= k < inner.len() - 1 implies edge(
            adj@,
            #[trigger] inner[k],
            inner[k + 1],
        ) by {
            if k + 1 < stack.len() {
                assert(edge(adj@, stack[k], stack[k + 1]));
            }
        }
    }
    let mut j: usize = 0;
    while j < adj[node as usize].len()
        invariant
            graph_wf(adj@),
            node < adj@.len(),
            inner == stack.push(node as int),
            j <= adj@[node as int]@.len(),
            searching(adj@, color@, inner, so_far),
            unseen(color@) < unseen(before),
            forall|k: int| 0 <= k < j ==> so_far.contains((#[trigger] adj@[node as int]@[k]) as int),
            forall|i: int|
                0 <= i < adj@.len() && before[i] == 2 ==> #[trigger] color@[i] == 2,
            forall|i: int|
                0 <= i < adj@.len() && #[trigger] color@[i] == 2 ==> before[i] == 2 || reaches(
                    adj@,
                    node as int,
                    i,
                ),
            before.len() == adj@.len(),
            before == old(color)@,
        decreases adj@[node as int]@.len() - j,
    {
        let next: usize = adj[node][j];
        assert(adj@[node as int]@[j as int] == next);
        assert(edge(adj@, node as int, next as int));
        assert(inner.last() == node as int);
        let ghost held = color@;
        let ghost held_done = so_far;
        let (found, Ghost(after)) = dag_has_cycle(
            next,
            adj,
            color,
            Ghost(inner),
            Ghost(so_far),
        );
        if found {
            proof {
                lemma_cycle_step(adj@, node as int, next as int);
            }
            return (true, Ghost(done));
        }
        proof {
            so_far = after;
            lemma_reaches_self(adj@, next as int);
            assert(color@[next as int] == 2);
            assert forall|i: int| 0 <= i < adj@.len() && #[trigger] color@[i] == 2 implies before[i]
                == 2 || reaches(adj@, node as int, i) by {
                if held[i] != 2 {
                    lemma_reaches_step(adj@, node as int, next as int, i);
                }
            }
            assert forall|i: int| 0 <= i < adj@.len() && before[i] == 2 implies
                #[trigger] color@[i] == 2 by {
                assert(held[i] == 2);
            }
            assert(so_far.contains(next as int));
            assert forall|k: int| 0 <= k < j + 1 implies so_far.contains(
                (#[trigger] adj@[node as int]@[k]) as int,
            ) by {
                if k < j {
                    let w = adj@[node as int]@[k] as int;
                    assert(held_done.contains(w));
                    assert(held[w] == 2);
                    assert(color@[w] == 2);
                }
            }
        }
        j = j + 1;
    }
    let ghost last = color@;
    color[node] = 2;
    let ghost finished = so_far.push(node as int);
    proof {
        lemma_unseen_update(last, node as int, 2);
        assert(last[node as int] == 1) by {
            assert(inner[stack.len() as int] == node as int);
        }
        assert(!so_far.contains(node as int));
        assert(!stack.contains(node as int)) by {
            if stack.contains(node as int) {
                assert(before[node as int] == 1);
            }
        }
        assert forall|i: int| 0 <= i < color@.len() implies (#[trigger] color@[i] == 1
            <==> stack.contains(i)) by {
            if i != node {
                assert(color@[i] == last[i]);
                if stack.contains(i) {
                    let k = choose|k: int| 0 <= k < stack.len() && stack[k] == i;
                    assert(inner[k] == i);
                }
                if inner.contains(i) {
                    let k = choose|k: int| 0 <= k < inner.len() && inner[k] == i;
                    assert(stack[k] == i);
                }
            }
        }
        assert forall|i: int| 0 <= i < color@.len() implies (#[trigger] color@[i] == 2
            <==> finished.contains(i)) by {
            if i != node {
                assert(color@[i] == last[i]);
                if finished.contains(i) {
                    let k = choose|k: int| 0 <= k < finished.len() && finished[k] == i;
                    assert(so_far[k] == i);
                }
                if so_far.contains(i) {
                    let k = choose|k: int| 0 <= k < so_far.len() && so_far[k] == i;
                    assert(finished[k] == i);
                }
            } else {
                assert(finished[so_far.len() as int] == i);
            }
        }
        assert forall|a: int, v: int|
            0 <= a < finished.len() && #[trigger] edge(adj@, finished[a], v) implies finished.take(
            a,
        ).contains(v) by {
            if a < so_far.len() {
                assert(finished[a] == so_far[a]);
                assert(edge(adj@, so_far[a], v));
                assert(finished.take(a) =~= so_far.take(a));
            } else {
                assert(finished.take(a) =~= so_far);
                let k = choose|k: int|
                    0 <= k < adj@[node as int]@.len() && #[trigger] adj@[node as int]@[k] == v;
                assert(so_far.contains(adj@[node as int]@[k] as int));
            }
        }
        assert(path(adj@, stack)) by {
            assert forall|k: int| 0 <= k < stack.len() - 1 implies edge(
                adj@,
                #[trigger] stack[k],
                stack[k + 1],
            ) by {
                assert(edge(adj@, inner[k], inner[k + 1]));
            }
        }
        assert forall|k: int| 0 <= k < stack.len() implies 0 <= #[trigger] stack[k]
            < adj@.len() by {
            assert(inner[k] == stack[k]);
        }
        lemma_reaches_self(adj@, node as int);
        lemma_done_is_closed(adj@, color@, stack, finished, node as int);
        assert forall|i: int| 0 <= i < adj@.len() implies (#[trigger] color@[i] == 2
            <==> before[i] == 2 || reaches(adj@, node as int, i)) by {
            if i != node {
                assert(color@[i] == last[i]);
            }
        }
    }
    (false, Ghost(finished))
}

/// Along a path, tasks were done ever earlier.
proof fn lemma_descends(adj: Seq<Vec<usize>>, done: Seq<int>, p: Seq<int>, a: int, k: int) -> (b:
    int)
    requires
        path(adj, p),
        0 <= a < done.len(),
        0 <= k < p.len(),
        done[a] == p[0],
        forall|a: int, v: int|
            0 <= a < done.len() && #[trigger] edge(adj, done[a], v) ==> done.take(a).contains(v),
    ensures
        0 <= b <= a - k,
        done[b] == p[k],
    decreases k,
{
    if k == 0 {
        a
    } else {
        let c = lemma_descends(adj, done, p, a, k - 1);
        assert(edge(adj, p[k - 1], p[k - 1 + 1]));
        assert(edge(adj, done[c], p[k]));
        let d = done.take(c);
        let b = choose|b: int| 0 <= b < d.len() && d[b] == p[k];
        assert(done[b] == p[k]);
        b
    }
}

/// What a task that is done reaches is done too, and no path from it comes
/// back to where it was.
#[verifier::spinoff_prover]
#[verifier::rlimit(60)]
proof fn lemma_done_is_closed(
    adj: Seq<Vec<usize>>,
    color: Seq<u8>,
    stack: Seq<int>,
    done: Seq<int>,
    node: int,
)
    requires
        searching(adj, color, stack, done),
        0 <= node < adj.len(),
        color[node] == 2,
    ensures
        !cycle_from(adj, node),
        forall|i: int|
            0 <= i < adj.len() && #[trigger] reaches(adj, node, i) ==> color[i] == 2,
{
    let a = choose|a: int| 0 <= a < done.len() && done[a] == node;
    if cycle_from(adj, node) {
        let (p, i) = choose|p: Seq<int>, i: int| #[trigger]
            path(adj, p) && 0 <= i < p.len() - 1 && p[0] == node && #[trigger] p[i] == p.last();
        let b = lemma_descends(adj, done, p, a, i);
        let q = p.skip(i);
        lemma_path_skip(adj, p, i);
        let c = lemma_descends(adj, done, q, b, q.len() - 1);
        assert(done[c] == done[b] && c < b);
    }
    assert forall|i: int| 0 <= i < adj.len() && #[trigger] reaches(adj, node, i) implies color[i]
        == 2 by {
        let p = choose|p: Seq<int>| #[trigger]
            path(adj, p) && p.len() > 0 && p[0] == node && p.last() == i;
        let b = lemma_descends(adj, done, p, a, p.len() - 1);
        assert(done.contains(i));
    }
}

proof fn lemma_done_has_no_cycle(adj: Seq<Vec<usize>>, color: Seq<u8>, done: Seq<int>)
    requires
        searching(adj, color, seq![], done),
        forall|i: int| 0 <= i < adj.len() ==> #[trigger] color[i] == 2,
    ensures
        !has_cycle(adj),
{
    if has_cycle(adj) {
        let p = choose|p: Seq<int>| #[trigger]
            path(adj, p) && p.len() >= 2 && p[0] == p.last();
        assert(edge(adj, p[0], p[0int + 1]));
        assert(color[p[0]] == 2);
        let a = choose|a: int| 0 <= a < done.len() && done[a] == p[0];
        let b = lemma_descends(adj, done, p, a, p.len() - 1);
        assert(done[b] == done[a] && b < a);
    }
}

/// Whether no task depends on itself, directly or through others.
pub fn validate_dag(adj: &Vec<Vec<usize>>) -> (ok: bool)
    requires
        graph_wf(adj@),
    ensures
        ok == !has_cycle(adj@),
{
    let n: usize = adj.len();
    let mut color: Vec<u8> = Vec::new();
    let mut i: usize = 0;
    while i < n
        invariant
            i <= n,
            color@.len() == i,
            forall|k: int| 0 <= k < i ==> color@[k] == 0,
        decreases n - i,
    {
        color.push(0);
        i = i + 1;
    }
    let ghost mut done: Seq<int> = seq![];
    let mut node: usize = 0;
    while node < n
        invariant
            n == adj@.len(),
            graph_wf(adj@),
            node <= n,
            searching(adj@, color@, seq![], done),
            forall|k: int| 0 <= k < node ==> #[trigger] color@[k] == 2,
        decreases n - node,
    {
        let ghost held = color@;
        let (found, Ghost(after)) = dag_has_cycle(
            node,
            adj,
            &mut color,
            Ghost(Seq::<int>::empty()),
            Ghost(done),
        );
        if found {
            proof {
                lemma_cycle_is_one(adj@, node as int);
            }
            return false;
        }
        proof {
            done = after;
            lemma_reaches_self(adj@, node as int);
            assert forall|k: int| 0 <= k < node + 1 implies #[trigger] color@[k] == 2 by {
                if k < node {
                    assert(held[k] == 2);
                }
            }
        }
        node = node + 1;
    }
    proof {
        lemma_done_has_no_cycle(adj@, color@, done);
    }
    true
}

// ---------------------------------------------------------------------------
// Downstream
// ---------------------------------------------------------------------------

/// Whether task `i` depends on `src` through a chain of at most `n` steps.
pub open spec fn downstream_in(adj: Seq<Vec<usize>>, src: int, i: int, n: nat) -> bool
    decreases n,
{
    n > 0 && (edge(adj, i, src) || exists|d: int| #[trigger]
        edge(adj, i, d) && downstream_in(adj, src, d, (n - 1) as nat))
}

/// Whether task `i` depends on `src`, directly or through others.
pub open spec fn downstream(adj: Seq<Vec<usize>>, src: int, i: int) -> bool {
    exists|n: nat| #[trigger] downstream_in(adj, src, i, n)
}

proof fn lemma_downstream_closed(
    adj: Seq<Vec<usize>>,
    src: int,
    marked: Seq<bool>,
    i: int,
    n: nat,
)
    requires
        marked.len() == adj.len(),
        forall|u: int, v: int| #[trigger]
            edge(adj, u, v) && (v == src || marked[v]) ==> marked[u],
        downstream_in(adj, src, i, n),
    ensures
        0 <= i < adj.len(),
        marked[i],
    decreases n,
{
    if !edge(adj, i, src) {
        let d = choose|d: int| #[trigger]
            edge(adj, i, d) && downstream_in(adj, src, d, (n - 1) as nat);
        lemma_downstream_closed(adj, src, marked, d, (n - 1) as nat);
    }
}

proof fn lemma_downstream_step(adj: Seq<Vec<usize>>, src: int, i: int, d: int)
    requires
        edge(adj, i, d),
        d == src || downstream(adj, src, d),
    ensures
        downstream(adj, src, i),
{
    if d == src {
        assert(downstream_in(adj, src, i, 1));
    } else {
        let n = choose|n: nat| #[trigger] downstream_in(adj, src, d, n);
        assert(downstream_in(adj, src, i, (n + 1) as nat));
    }
}

spec fn marks(marked: Seq<bool>) -> nat
    decreases marked.len(),
{
    if marked.len() == 0 {
        0
    } else {
        marks(marked.drop_last()) + if marked.last() {
            1nat
        } else {
            0nat
        }
    }
}

proof fn lemma_marks_update(marked: Seq<bool>, i: int)
    requires
        0 <= i < marked.len(),
        !marked[i],
    ensures
        marks(marked.update(i, true)) == marks(marked) + 1,
    decreases marked.len(),
{
    let next = marked.update(i, true);
    if i == marked.len() - 1 {
        assert(next.drop_last() =~= marked.drop_last());
    } else {
        lemma_marks_update(marked.drop_last(), i);
        assert(next.drop_last() =~= marked.drop_last().update(i, true));
    }
}

proof fn lemma_marks_bound(marked: Seq<bool>)
    ensures
        marks(marked) <= marked.len(),
    decreases marked.len(),
{
    if marked.len() > 0 {
        lemma_marks_bound(marked.drop_last());
    }
}

/// Whether task `i` depends directly on `src` or on a marked task.
fn touches(adj: &Vec<Vec<usize>>, src: usize, marked: &Vec<bool>, i: usize) -> (r: bool)
    requires
        graph_wf(adj@),
        i < adj@.len(),
        src < adj@.len(),
        marked@.len() == adj@.len(),
    ensures
        r == exists|d: int| #[trigger] edge(adj@, i as int, d) && (d == src || marked@[d]),
{
    let mut k: usize = 0;
    while k < adj[i].len()
        invariant
            graph_wf(adj@),
            i < adj@.len(),
            marked@.len() == adj@.len(),
            k <= adj@[i as int]@.len(),
            forall|m: int|
                0 <= m < k ==> ({
                    let d = #[trigger] adj@[i as int]@[m];
                    d != src && !marked@[d as int]
                }),
        decreases adj@[i as int]@.len() - k,
    {
        let d: usize = adj[i][k];
        assert(adj@[i as int]@[k as int] == d);
        if d == src || marked[d] {
            assert(edge(adj@, i as int, d as int));
            return true;
        }
        k = k + 1;
    }
    assert forall|d: int| #[trigger] edge(adj@, i as int, d) implies d != src && !marked@[d] by {
        let m = choose|m: int| 0 <= m < adj@[i as int]@.len() && #[trigger] adj@[i as int]@[m] == d;
        assert(adj@[i as int]@[m] == d);
    }
    false
}

/// Marks every task that depends on `src`, directly or through others.
pub fn mark_downstream(adj: &Vec<Vec<usize>>, src: usize) -> (marked: Vec<bool>)
    requires
        graph_wf(adj@),
        src < adj@.len(),
    ensures
        marked@.len() == adj@.len(),
        forall|i: int|
            0 <= i < adj@.len() ==> (#[trigger] marked@[i] <==> downstream(adj@, src as int, i)),
{
    let n: usize = adj.len();
    let mut marked: Vec<bool> = Vec::new();
    let mut i: usize = 0;
    while i < n
        invariant
            i <= n,
            marked@.len() == i,
            forall|k: int| 0 <= k < i ==> !#[trigger] marked@[k],
        decreases n - i,
    {
        marked.push(false);
        i = i + 1;
    }
    let mut changed = true;
    while changed
        invariant
            n == adj@.len(),
            graph_wf(adj@),
            src < n,
            marked@.len() == n,
            forall|k: int|
                0 <= k < n && #[trigger] marked@[k] ==> downstream(adj@, src as int, k),
            !changed ==> forall|u: int, v: int| #[trigger]
                edge(adj@, u, v) && (v == src || marked@[v]) ==> marked@[u],
        decreases
            n - marks(marked@) + if changed {
                1int
            } else {
                0int
            },
    {
        changed = false;
        let ghost start = marked@;
        let mut u: usize = 0;
        while u < n
            invariant
                n == adj@.len(),
                graph_wf(adj@),
                src < n,
                u <= n,
                marked@.len() == n,
                forall|k: int|
                    0 <= k < n && #[trigger] marked@[k] ==> downstream(adj@, src as int, k),
                changed ==> marks(marked@) > marks(start),
                !changed ==> marked@ == start,
                !changed ==> forall|w: int, v: int|
                    w < u && #[trigger] edge(adj@, w, v) && (v == src || marked@[v]) ==> marked@[w],
            decreases n - u,
        {
            let hit = touches(adj, src, &marked, u);
            if !marked[u] && hit {
                proof {
                    let d = choose|d: int| #[trigger]
                        edge(adj@, u as int, d) && (d == src || marked@[d]);
                    lemma_downstream_step(adj@, src as int, u as int, d);
                    lemma_marks_update(marked@, u as int);
                }
                marked[u] = true;
                changed = true;
            }
            u = u + 1;
        }
        proof {
            lemma_marks_bound(start);
            lemma_marks_bound(marked@);
        }
    }
    assert forall|k: int| 0 <= k < n implies (#[trigger] marked@[k] <==> downstream(
        adj@,
        src as int,
        k,
    )) by {
        if downstream(adj@, src as int, k) {
            let m = choose|m: nat| #[trigger] downstream_in(adj@, src as int, k, m);
            lemma_downstream_closed(adj@, src as int, marked@, k, m);
        }
    }
    marked
}

// ---------------------------------------------------------------------------
// Conflicts
// ---------------------------------------------------------------------------

/// Whether a square table of bits has `n` rows of length `n`.
pub open spec fn square(table: Seq<Vec<bool>>, n: int) -> bool {
    table.len() == n && forall|i: int| 0 <= i < n ==> (#[trigger] table[i])@.len() == n
}

/// Whether `pairs` are the pairs of tasks that conflict, each with the earlier
/// first, in order.
pub open spec fn lists_conflicts(pairs: Seq<(usize, usize)>, table: Seq<Vec<bool>>) -> bool {
    &&& forall|i: int, j: int|
        0 <= i < j < table.len() ==> (#[trigger] table[i]@[j] <==> pairs.contains(
            (i as usize, j as usize),
        ))
    &&& forall|k: int| 0 <= k < pairs.len() ==> (#[trigger] pairs[k]).0 < pairs[k].1 < table.len()
    &&& forall|a: int, b: int|
        0 <= a < b < pairs.len() ==> (#[trigger] pairs[a]).0 < (#[trigger] pairs[b]).0 || (pairs[a].0
            == pairs[b].0 && pairs[a].1 < pairs[b].1)
}

/// Every pair of tasks that conflict, the earlier first. `table[i][j]` says
/// whether tasks `i` and `j` conflict.
pub fn detect_all_conflicts(table: &Vec<Vec<bool>>) -> (r: Vec<(usize, usize)>)
    requires
        square(table@, table@.len() as int),
    ensures
        lists_conflicts(r@, table@),
{
    let n: usize = table.len();
    let mut r: Vec<(usize, usize)> = Vec::new();
    let mut i: usize = 0;
    while i < n
        invariant
            n == table@.len(),
            square(table@, n as int),
            i <= n,
            forall|a: int, b: int|
                0 <= a < i && a < b < n ==> (#[trigger] table@[a]@[b] <==> r@.contains(
                    (a as usize, b as usize),
                )),
            forall|k: int|
                0 <= k < r@.len() ==> (#[trigger] r@[k]).0 < r@[k].1 < n && r@[k].0 < i,
            forall|a: int, b: int|
                0 <= a < b < r@.len() ==> (#[trigger] r@[a]).0 < (#[trigger] r@[b]).0 || (r@[a].0
                    == r@[b].0 && r@[a].1 < r@[b].1),
        decreases n - i,
    {
        let mut j: usize = i + 1;
        while j < n
            invariant
                n == table@.len(),
                square(table@, n as int),
                i < n,
                i < j <= n,
                forall|a: int, b: int|
                    0 <= a <= i && a < b < n && (a < i || b < j) ==> (#[trigger] table@[a]@[b]
                        <==> r@.contains((a as usize, b as usize))),
                forall|k: int|
                    0 <= k < r@.len() ==> (#[trigger] r@[k]).0 < r@[k].1 < n && r@[k].0 <= i && (
                    r@[k].0 == i ==> r@[k].1 < j),
                forall|a: int, b: int|
                    0 <= a < b < r@.len() ==> (#[trigger] r@[a]).0 < (#[trigger] r@[b]).0 || (
                    r@[a].0 == r@[b].0 && r@[a].1 < r@[b].1),
            decreases n - j,
        {
            let ghost before = r@;
            assert(table@[i as int]@.len() == n);
            if table[i][j] {
                r.push((i, j));
                proof {
                    assert(r@[before.len() as int] == (i, j));
                    assert forall|a: int, b: int|
                        0 <= a <= i && a < b < n && (a < i || b < j + 1) implies (
                    #[trigger] table@[a]@[b] <==> r@.contains((a as usize, b as usize))) by {
                        if before.contains((a as usize, b as usize)) {
                            let k = choose|k: int|
                                0 <= k < before.len() && before[k] == (a as usize, b as usize);
                            assert(r@[k] == (a as usize, b as usize));
                        }
                        if r@.contains((a as usize, b as usize)) && !(a == i && b == j) {
                            let k = choose|k: int|
                                0 <= k < r@.len() && r@[k] == (a as usize, b as usize);
                            assert(before[k] == (a as usize, b as usize));
                        }
                    }
                }
            } else {
                proof {
                    assert(!r@.contains((i, j))) by {
                        if r@.contains((i, j)) {
                            let k = choose|k: int| 0 <= k < r@.len() && r@[k] == (i, j);
                            assert(r@[k].1 < j);
                        }
                    }
                }
            }
            j = j + 1;
        }
        i = i + 1;
    }
    r
}

} // verus!
