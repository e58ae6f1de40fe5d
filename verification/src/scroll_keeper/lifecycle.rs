//! Scroll lifecycle: inscribe, activate, abandon, and status snapshots.

use super::dag::{
    detect_all_conflicts, edge, graph_wf, has_cycle, lists_conflicts, path, square, validate_dag,
};
use super::scheduling::{payload_tells, ScrollDispatchPayload};
use super::transitions::all_settled;
use super::{scroll_state_name, settled, task_rows, Board, Scroll, ScrollState, Task, TaskRow, TaskState};
use crate::scroll_parser::{names, sound_dependencies, tasks_view, ScrollSpec, TaskSpec, TaskView};
use crate::text::{cat, copy_opt, copy_texts, opt_text, own, same, texts};
use vstd::prelude::*;
use vstd::string::*;

verus! {

/// Tasks that run at once where nothing else was asked for.
pub const DEFAULT_MAX_CONCURRENCY: u32 = 4;

// ---------------------------------------------------------------------------
// Inscribing
// ---------------------------------------------------------------------------

/// The last place at which `name` stands among the first `n` names, or -1.
pub open spec fn last_place(list: Seq<Seq<char>>, name: Seq<char>, n: int) -> int
    decreases n,
{
    if n <= 0 {
        -1
    } else if list[n - 1] == name {
        n - 1
    } else {
        last_place(list, name, n - 1)
    }
}

/// The task that a name stands for: the last of that name.
pub open spec fn task_of(list: Seq<Seq<char>>, name: Seq<char>) -> int {
    last_place(list, name, list.len() as int)
}

proof fn lemma_last_place(list: Seq<Seq<char>>, name: Seq<char>, n: int)
    requires
        0 <= n <= list.len(),
    ensures
        -1 <= last_place(list, name, n) < n,
        last_place(list, name, n) >= 0 ==> list[last_place(list, name, n)] == name,
        (exists|i: int| 0 <= i < n && #[trigger] list[i] == name) ==> last_place(list, name, n) >= 0,
    decreases n,
{
    if n > 0 {
        lemma_last_place(list, name, n - 1);
        if list[n - 1] != name && exists|i: int| 0 <= i < n && #[trigger] list[i] == name {
            let i = choose|i: int| 0 <= i < n && #[trigger] list[i] == name;
            assert(0 <= i < n - 1 && list[i] == name);
        }
    }
}

/// The task that a section becomes. One with dependencies starts blocked.
pub open spec fn task_row(
    spec: TaskView,
    id: Seq<char>,
    scroll_id: Seq<char>,
    order_index: int,
    now: i64,
) -> TaskRow {
    TaskRow {
        id,
        scroll_id,
        name: spec.name,
        prompt: spec.prompt,
        state: if spec.depends_on.len() > 0 {
            TaskState::Blocked
        } else {
            TaskState::Ready
        },
        agent_id: None,
        provider: spec.provider,
        model: spec.model,
        cwd: spec.cwd,
        file_patterns: spec.file_patterns,
        order_index: order_index as u32,
        created_at: now,
        updated_at: now,
        peer_name: spec.peer,
        verify_rubric: spec.verify,
        verify_threshold: spec.verify_threshold,
        verifier_agent_id: None,
    }
}

/// Whether some section named like task `u` names task `v` as a dependency.
pub open spec fn depends(specs: Seq<TaskView>, u: int, v: int) -> bool {
    exists|i: int, j: int|
        0 <= i < specs.len() && 0 <= j < specs[i].depends_on.len() && task_of(
            names(specs),
            #[trigger] specs[i].name,
        ) == u && task_of(names(specs), #[trigger] specs[i].depends_on[j]) == v
}

/// What an inscription is answered.
#[derive(Debug)]
pub struct InscribeResult {
    pub scroll: Scroll,
    pub task_count: usize,
    /// The pairs of tasks that conflict.
    pub conflicts: Vec<(usize, usize)>,
}

/// What an inscription writes, and what it is answered.
#[derive(Debug)]
pub struct Inscription {
    pub answer: InscribeResult,
    pub tasks: Vec<Task>,
    /// `deps[i]` holds the tasks that task `i` depends on.
    pub deps: Vec<Vec<usize>>,
}

fn place_of(list: &Vec<String>, name: &str) -> (r: usize)
    requires
        texts(list@).contains(name@),
    ensures
        r == task_of(texts(list@), name@),
        r < list@.len(),
{
    let ghost all = texts(list@);
    let mut n: usize = list.len();
    proof {
        lemma_last_place(all, name@, all.len() as int);
        let i = choose|i: int| 0 <= i < all.len() && all[i] == name@;
        assert(all[i] == name@);
    }
    while n > 0
        invariant
            n <= list@.len(),
            all == texts(list@),
            task_of(all, name@) == last_place(all, name@, n as int),
            task_of(all, name@) >= 0,
        decreases n,
    {
        assert(all[n - 1] == list@[n - 1]@);
        if same(list[n - 1].as_str(), name) {
            return n - 1;
        }
        n = n - 1;
    }
    assert(false);
    0
}

fn task_list(specs: &Vec<TaskSpec>) -> (r: Vec<String>)
    ensures
        texts(r@) == names(tasks_view(specs@)),
{
    let mut r: Vec<String> = Vec::new();
    for i in 0..specs.len()
        invariant
            r@.len() == i,
            forall|j: int| 0 <= j < i ==> (#[trigger] r@[j])@ == specs@[j].name@,
    {
        r.push(specs[i].name.clone());
    }
    assert(texts(r@) =~= names(tasks_view(specs@)));
    r
}

fn build_task(spec: &TaskSpec, id: &str, scroll_id: &str, order_index: u32, now: i64) -> (t: Task)
    ensures
        t@ == task_row(spec@, id@, scroll_id@, order_index as int, now),
{
    let t = Task {
        id: own(id),
        scroll_id: own(scroll_id),
        name: spec.name.clone(),
        prompt: spec.prompt.clone(),
        state: if spec.depends_on.len() > 0 {
            TaskState::Blocked
        } else {
            TaskState::Ready
        },
        agent_id: None,
        provider: copy_opt(&spec.provider),
        model: copy_opt(&spec.model),
        cwd: copy_opt(&spec.cwd),
        file_patterns: copy_texts(&spec.file_patterns),
        order_index,
        created_at: now,
        updated_at: now,
        peer_name: copy_opt(&spec.peer),
        verify_rubric: copy_opt(&spec.verify),
        verify_threshold: copy_opt(&spec.verify_threshold),
        verifier_agent_id: None,
    };
    assert(t@ =~= task_row(spec@, id@, scroll_id@, order_index as int, now));
    t
}

/// The dependencies that the sections up to the `i`th, and the first `j` of
/// the `i`th, have asked for.
spec fn depends_by(specs: Seq<TaskView>, u: int, v: int, i: int, j: int) -> bool {
    exists|a: int, b: int|
        0 <= a < specs.len() && 0 <= b < specs[a].depends_on.len() && (a < i || (a == i && b < j))
            && task_of(names(specs), #[trigger] specs[a].name) == u && task_of(
            names(specs),
            #[trigger] specs[a].depends_on[b],
        ) == v
}

/// Adds an edge to a graph.
fn add_edge(deps: &mut Vec<Vec<usize>>, u: usize, v: usize)
    requires
        u < old(deps)@.len(),
        v < old(deps)@.len(),
        graph_wf(old(deps)@),
    ensures
        final(deps)@.len() == old(deps)@.len(),
        graph_wf(final(deps)@),
        forall|a: int, b: int|
            #[trigger] edge(final(deps)@, a, b) <==> (edge(old(deps)@, a, b) || (a == u && b == v)),
{
    let ghost before = deps@;
    let mut row: Vec<usize> = Vec::new();
    let mut k: usize = 0;
    while k < deps[u].len()
        invariant
            u < deps@.len(),
            k <= deps@[u as int]@.len(),
            row@ == deps@[u as int]@.take(k as int),
        decreases deps@[u as int]@.len() - k,
    {
        row.push(deps[u][k]);
        assert(deps@[u as int]@.take(k + 1) =~= deps@[u as int]@.take(k as int).push(
            deps@[u as int]@[k as int],
        ));
        k = k + 1;
    }
    assert(row@ =~= before[u as int]@);
    row.push(v);
    deps.set(u, row);
    proof {
        let n = before[u as int]@.len() as int;
        assert forall|a: int, b: int|
            #[trigger] edge(deps@, a, b) <==> (edge(before, a, b) || (a == u && b == v)) by {
            if edge(deps@, a, b) {
                let m = choose|m: int|
                    0 <= m < deps@[a]@.len() && #[trigger] deps@[a]@[m] == b;
                if a == u && m < n {
                    assert(before[a]@[m] == b);
                } else if a != u {
                    assert(before[a]@[m] == b);
                }
            }
            if edge(before, a, b) {
                let m = choose|m: int|
                    0 <= m < before[a]@.len() && #[trigger] before[a]@[m] == b;
                assert(deps@[a]@[m] == b);
            }
            if a == u && b == v {
                assert(deps@[a]@[n] == b);
            }
        }
        assert forall|a: int, m: int|
            0 <= a < deps@.len() && 0 <= m < deps@[a]@.len() implies (#[trigger] deps@[a]@[m])
            < deps@.len() by {
            if a == u && m < n {
                assert(before[a]@[m] < before.len());
            } else if a != u {
                assert(before[a]@[m] < before.len());
            }
        }
    }
}

/// The graph of what the sections ask for.
fn build_deps(specs: &Vec<TaskSpec>) -> (deps: Vec<Vec<usize>>)
    requires
        forall|i: int|
            0 <= i < specs@.len() ==> sound_dependencies(
                #[trigger] tasks_view(specs@)[i],
                names(tasks_view(specs@)),
            ),
    ensures
        deps@.len() == specs@.len(),
        graph_wf(deps@),
        forall|u: int, v: int| #[trigger] edge(deps@, u, v) <==> depends(tasks_view(specs@), u, v),
{
    let ghost views = tasks_view(specs@);
    let ghost all = names(views);
    let list = task_list(specs);
    let n: usize = specs.len();
    let mut deps: Vec<Vec<usize>> = Vec::new();
    let mut k: usize = 0;
    while k < n
        invariant
            k <= n,
            deps@.len() == k,
            forall|a: int| 0 <= a < k ==> (#[trigger] deps@[a])@.len() == 0,
        decreases n - k,
    {
        deps.push(Vec::new());
        k = k + 1;
    }
    assert(list@.len() == texts(list@).len());
    assert(all.len() == n);
    let mut i: usize = 0;
    while i < n
        invariant
            n == specs@.len(),
            n == list@.len(),
            i <= n,
            views == tasks_view(specs@),
            all == names(views),
            all.len() == n,
            texts(list@) == all,
            deps@.len() == n,
            graph_wf(deps@),
            forall|a: int|
                0 <= a < n ==> sound_dependencies(#[trigger] views[a], all),
            forall|u: int, v: int| #[trigger] edge(deps@, u, v) <==> depends_by(views, u, v, i as int, 0),
        decreases n - i,
    {
        let spec = &specs[i];
        assert(views[i as int] == spec@);
        assert(all[i as int] == spec.name@);
        assert(all.contains(spec.name@));
        let u: usize = place_of(&list, spec.name.as_str());
        let mut j: usize = 0;
        while j < spec.depends_on.len()
            invariant
                n == specs@.len(),
                n == list@.len(),
                i < n,
                views == tasks_view(specs@),
                all == names(views),
                texts(list@) == all,
                deps@.len() == n,
                graph_wf(deps@),
                views[i as int] == spec@,
                sound_dependencies(views[i as int], all),
                j <= spec.depends_on@.len(),
                u < n,
                u == task_of(all, spec.name@),
                forall|a: int, b: int|
                    #[trigger] edge(deps@, a, b) <==> depends_by(views, a, b, i as int, j as int),
            decreases spec.depends_on@.len() - j,
        {
            let dep = &spec.depends_on[j];
            assert(views[i as int].depends_on[j as int] == dep@);
            assert(all.contains(dep@));
            let v: usize = place_of(&list, dep.as_str());
            let ghost before = deps@;
            add_edge(&mut deps, u, v);
            proof {
                assert forall|a: int, b: int|
                    #[trigger] edge(deps@, a, b) <==> depends_by(views, a, b, i as int, j + 1) by {
                    if depends_by(views, a, b, i as int, j + 1) {
                        let (x, y) = choose|x: int, y: int|
                            0 <= x < views.len() && 0 <= y < views[x].depends_on.len() && (x < i
                                || (x == i && y < j + 1)) && task_of(
                                names(views),
                                #[trigger] views[x].name,
                            ) == a && task_of(
                                names(views),
                                #[trigger] views[x].depends_on[y],
                            ) == b;
                        if !(x == i && y == j) {
                            assert(views[x].name == views[x].name);
                            assert(views[x].depends_on[y] == views[x].depends_on[y]);
                            assert(depends_by(views, a, b, i as int, j as int));
                        }
                    }
                    if depends_by(views, a, b, i as int, j as int) {
                        let (x, y) = choose|x: int, y: int|
                            0 <= x < views.len() && 0 <= y < views[x].depends_on.len() && (x < i
                                || (x == i && y < j)) && task_of(
                                names(views),
                                #[trigger] views[x].name,
                            ) == a && task_of(
                                names(views),
                                #[trigger] views[x].depends_on[y],
                            ) == b;
                        assert(views[x].depends_on[y] == views[x].depends_on[y]);
                    }
                    if a == u && b == v {
                        assert(views[i as int].name == spec.name@);
                        assert(views[i as int].depends_on[j as int] == dep@);
                    }
                }
            }
            j = j + 1;
        }
        proof {
            assert forall|a: int, b: int|
                #[trigger] edge(deps@, a, b) <==> depends_by(views, a, b, i + 1, 0) by {
                if depends_by(views, a, b, i + 1, 0) {
                    let (x, y) = choose|x: int, y: int|
                        0 <= x < views.len() && 0 <= y < views[x].depends_on.len() && (x < i + 1
                            || (x == i + 1 && y < 0)) && task_of(
                            names(views),
                            #[trigger] views[x].name,
                        ) == a && task_of(names(views), #[trigger] views[x].depends_on[y]) == b;
                    assert(views[x].depends_on[y] == views[x].depends_on[y]);
                    assert(depends_by(views, a, b, i as int, j as int));
                }
                if depends_by(views, a, b, i as int, j as int) {
                    let (x, y) = choose|x: int, y: int|
                        0 <= x < views.len() && 0 <= y < views[x].depends_on.len() && (x < i || (x
                            == i && y < j)) && task_of(
                            names(views),
                            #[trigger] views[x].name,
                        ) == a && task_of(names(views), #[trigger] views[x].depends_on[y]) == b;
                    assert(views[x].depends_on[y] == views[x].depends_on[y]);
                }
            }
        }
        i = i + 1;
    }
    assert forall|u: int, v: int| #[trigger] edge(deps@, u, v) <==> depends(views, u, v) by {
        if depends(views, u, v) {
            let (x, y) = choose|x: int, y: int|
                0 <= x < views.len() && 0 <= y < views[x].depends_on.len() && task_of(
                    names(views),
                    #[trigger] views[x].name,
                ) == u && task_of(names(views), #[trigger] views[x].depends_on[y]) == v;
            assert(views[x].depends_on[y] == views[x].depends_on[y]);
            assert(depends_by(views, u, v, n as int, 0));
        }
        if depends_by(views, u, v, n as int, 0) {
            let (x, y) = choose|x: int, y: int|
                0 <= x < views.len() && 0 <= y < views[x].depends_on.len() && (x < n || (x == n && y
                    < 0)) && task_of(names(views), #[trigger] views[x].name) == u && task_of(
                    names(views),
                    #[trigger] views[x].depends_on[y],
                ) == v;
            assert(views[x].depends_on[y] == views[x].depends_on[y]);
        }
    }
    deps
}

/// Whether `made` is a spec as scroll, tasks and dependencies.
pub open spec fn inscribes(
    made: Inscription,
    spec: ScrollSpec,
    scroll_id: Seq<char>,
    ids: Seq<Seq<char>>,
    now: i64,
) -> bool {
    let views = tasks_view(spec.tasks@);
    &&& made.answer.scroll.id@ == scroll_id
    &&& made.answer.scroll.name@ == spec.name@
    &&& made.answer.scroll.state == ScrollState::Inscribed
    &&& made.answer.scroll.created_at == now
    &&& made.answer.scroll.updated_at == now
    &&& task_rows(made.tasks@) == Seq::new(
        views.len(),
        |i: int| task_row(views[i], ids[i], scroll_id, i, now),
    )
    &&& made.deps@.len() == views.len()
    &&& graph_wf(made.deps@)
    &&& forall|u: int, v: int| #[trigger] edge(made.deps@, u, v) <==> depends(views, u, v)
}

/// Whether a section depends on itself, directly or through others.
pub open spec fn has_cyclic_sections(specs: Seq<TaskView>) -> bool {
    exists|p: Seq<int>| #[trigger] section_path(specs, p) && p.len() >= 2 && p[0] == p.last()
}

/// Whether each section of `p` depends on the next.
pub open spec fn section_path(specs: Seq<TaskView>, p: Seq<int>) -> bool {
    forall|k: int| 0 <= k < p.len() - 1 ==> depends(specs, #[trigger] p[k], p[k + 1])
}

proof fn lemma_cyclic_sections(specs: Seq<TaskView>, deps: Seq<Vec<usize>>)
    requires
        forall|u: int, v: int| #[trigger] edge(deps, u, v) <==> depends(specs, u, v),
    ensures
        has_cycle(deps) <==> has_cyclic_sections(specs),
{
    if has_cycle(deps) {
        let p = choose|p: Seq<int>| #[trigger]
            path(deps, p) && p.len() >= 2 && p[0] == p.last();
        assert forall|k: int| 0 <= k < p.len() - 1 implies depends(specs, #[trigger] p[k], p[k + 1]) by {
            assert(edge(deps, p[k], p[k + 1]));
        }
        assert(section_path(specs, p));
    }
    if has_cyclic_sections(specs) {
        let p = choose|p: Seq<int>| #[trigger]
            section_path(specs, p) && p.len() >= 2 && p[0] == p.last();
        assert forall|k: int| 0 <= k < p.len() - 1 implies edge(deps, #[trigger] p[k], p[k + 1]) by {
            assert(depends(specs, p[k], p[k + 1]));
        }
        assert(path(deps, p));
    }
}

/// Inscribes a scroll from a parsed spec: the scroll, a task per section, and
/// the dependencies between them. Where two sections have one name, that name
/// stands for the later, and so do the dependencies of both. One whose
/// dependencies have a cycle is refused. `task_ids` are freshly drawn, one per
/// task, and `table[i][j]` says whether tasks `i` and `j` conflict.
pub fn inscribe(
    spec: &ScrollSpec,
    scroll_id: &str,
    task_ids: &Vec<String>,
    max_concurrency: Option<u32>,
    source_path: Option<String>,
    now: i64,
    table: &Vec<Vec<bool>>,
) -> (r: Result<Inscription, String>)
    requires
        square(table@, spec.tasks@.len() as int),
        task_ids@.len() == spec.tasks@.len(),
        spec.tasks@.len() <= u32::MAX,
        forall|i: int|
            0 <= i < spec.tasks@.len() ==> sound_dependencies(
                #[trigger] tasks_view(spec.tasks@)[i],
                names(tasks_view(spec.tasks@)),
            ),
    ensures
        match r {
            Ok(made) => {
                &&& inscribes(made, *spec, scroll_id@, texts(task_ids@), now)
                &&& !has_cycle(made.deps@)
                &&& opt_text(made.answer.scroll.source_path) == opt_text(source_path)
                &&& made.answer.scroll.max_concurrency == (match max_concurrency {
                    Some(n) => n,
                    None => DEFAULT_MAX_CONCURRENCY,
                })
                &&& made.answer.task_count == spec.tasks@.len()
                &&& lists_conflicts(made.answer.conflicts@, table@)
            },
            Err(e) => has_cyclic_sections(tasks_view(spec.tasks@)) && e@
                == "Dependency cycle detected in scroll "@ + scroll_id@,
        },
        r is Ok <==> !has_cyclic_sections(tasks_view(spec.tasks@)),
{
    let scroll = Scroll {
        id: own(scroll_id),
        name: spec.name.clone(),
        state: ScrollState::Inscribed,
        source_path,
        max_concurrency: match max_concurrency {
            Some(n) => n,
            None => DEFAULT_MAX_CONCURRENCY,
        },
        created_at: now,
        updated_at: now,
    };
    let mut tasks: Vec<Task> = Vec::new();
    for i in 0..spec.tasks.len()
        invariant
            task_ids@.len() == spec.tasks@.len(),
            spec.tasks@.len() <= u32::MAX,
            tasks@.len() == i,
            forall|k: int|
                0 <= k < i ==> (#[trigger] tasks@[k])@ == task_row(
                    spec.tasks@[k]@,
                    task_ids@[k]@,
                    scroll_id@,
                    k,
                    now,
                ),
    {
        tasks.push(
            build_task(&spec.tasks[i], task_ids[i].as_str(), scroll_id, i as u32, now),
        );
    }
    assert(task_rows(tasks@) =~= Seq::new(
        spec.tasks@.len(),
        |i: int|
            task_row(tasks_view(spec.tasks@)[i], texts(task_ids@)[i], scroll_id@, i, now),
    ));
    let deps = build_deps(&spec.tasks);
    proof {
        lemma_cyclic_sections(tasks_view(spec.tasks@), deps@);
    }
    if !validate_dag(&deps) {
        return Err(cat("Dependency cycle detected in scroll ", scroll_id));
    }
    let task_count: usize = tasks.len();
    let conflicts = detect_all_conflicts(table);
    Ok(Inscription { answer: InscribeResult { scroll, task_count, conflicts }, tasks, deps })
}

// ---------------------------------------------------------------------------
// Activating and abandoning
// ---------------------------------------------------------------------------

/// The message of a refused activation.
pub open spec fn activate_message(scroll_id: Seq<char>, state: ScrollState) -> Seq<char> {
    "Scroll "@ + scroll_id + " is in state '"@ + scroll_state_name(state)
        + "', can only activate from 'inscribed'"@
}

/// Whether abandoning a scroll skips a task in this state.
pub open spec fn abandonable(s: TaskState) -> bool {
    !settled(s)
}

impl Board {
    /// Activates the scroll, which must be inscribed. Scheduling follows.
    pub fn activate(&mut self, scroll_id: &str) -> (r: Result<(), String>)
        ensures
            final(self).states == old(self).states,
            final(self).deps == old(self).deps,
            final(self).max_concurrency == old(self).max_concurrency,
            final(self).gates == old(self).gates,
            match r {
                Ok(()) => old(self).scroll == ScrollState::Inscribed && final(self).scroll
                    == ScrollState::Active,
                Err(e) => old(self).scroll != ScrollState::Inscribed && final(self).scroll
                    == old(self).scroll && e@ == activate_message(scroll_id@, old(self).scroll),
            },
    {
        if self.scroll != ScrollState::Inscribed {
            let mut e = own("Scroll ");
            e.append(scroll_id);
            e.append(" is in state '");
            e.append(self.scroll.as_str());
            e.append("', can only activate from 'inscribed'");
            return Err(e);
        }
        self.scroll = ScrollState::Active;
        Ok(())
    }

    /// Abandons the scroll: skips every task that has not ended, and returns
    /// those that were active, whose agents are to be banished.
    pub fn abandon(&mut self) -> (active: Vec<usize>)
        requires
            old(self).wf(),
        ensures
            final(self).wf(),
            final(self).scroll == ScrollState::Abandoned,
            final(self).deps == old(self).deps,
            final(self).max_concurrency == old(self).max_concurrency,
            final(self).gates == old(self).gates,
            final(self).states@ == old(self).states@.map_values(
                |s: TaskState|
                    if abandonable(s) {
                        TaskState::Skipped
                    } else {
                        s
                    },
            ),
            all_settled(final(self).states@),
            forall|i: int|
                0 <= i < old(self).states@.len() ==> (active@.contains(i as usize) <==>
                    #[trigger] old(self).states@[i] == TaskState::Active),
            forall|a: int, b: int| 0 <= a < b < active@.len() ==> active@[a] < active@[b],
            forall|a: int| 0 <= a < active@.len() ==> (#[trigger] active@[a]) < old(self).states@.len(),
    {
        let ghost before = self.states@;
        let mut active: Vec<usize> = Vec::new();
        let mut i: usize = 0;
        while i < self.states.len()
            invariant
                self.states@.len() == before.len(),
                i <= before.len(),
                self.deps == old(self).deps,
                self.max_concurrency == old(self).max_concurrency,
                self.gates == old(self).gates,
                before == old(self).states@,
                forall|k: int|
                    0 <= k < before.len() ==> #[trigger] self.states@[k] == (if k < i
                        && abandonable(before[k]) {
                        TaskState::Skipped
                    } else {
                        before[k]
                    }),
                forall|a: int| 0 <= a < active@.len() ==> (#[trigger] active@[a]) < i,
                forall|a: int, b: int| 0 <= a < b < active@.len() ==> active@[a] < active@[b],
                forall|k: int|
                    0 <= k < i ==> (active@.contains(k as usize) <==> #[trigger] before[k]
                        == TaskState::Active),
            decreases before.len() - i,
        {
            let ghost so_far = active@;
            if self.states[i] == TaskState::Active {
                active.push(i);
                assert(active@[so_far.len() as int] == i);
            }
            proof {
                assert forall|k: int| 0 <= k < i + 1 implies (active@.contains(k as usize) <==>
                    #[trigger] before[k] == TaskState::Active) by {
                    if k < i {
                        if so_far.contains(k as usize) {
                            let a = choose|a: int| 0 <= a < so_far.len() && so_far[a] == k as usize;
                            assert(active@[a] == k as usize);
                        }
                        if active@.contains(k as usize) {
                            let a = choose|a: int|
                                0 <= a < active@.len() && active@[a] == k as usize;
                            assert(active@[a] == k as usize);
                            assert(a < so_far.len());
                            assert(so_far[a] == k as usize);
                        }
                    } else {
                        if active@.contains(k as usize) && before[k] != TaskState::Active {
                            let a = choose|a: int|
                                0 <= a < active@.len() && active@[a] == k as usize;
                            assert(so_far[a] == k as usize);
                            assert(so_far[a] < i);
                        }
                    }
                }
            }
            if !self.states[i].is_settled() {
                self.states.set(i, TaskState::Skipped);
            }
            i = i + 1;
        }
        self.scroll = ScrollState::Abandoned;
        assert(self.states@ =~= before.map_values(
            |s: TaskState|
                if abandonable(s) {
                    TaskState::Skipped
                } else {
                    s
                },
        ));
        active
    }
}

// ---------------------------------------------------------------------------
// Laws
// ---------------------------------------------------------------------------

/// An inscription keeps every section: its task has the section's name,
/// prompt, provider, model, directory, files, peer, rubric and threshold, field
/// by field, and stands at the section's place. It belongs to the scroll, runs
/// nowhere yet, and is ready exactly where the section names no dependency.
pub proof fn sections_are_kept(
    made: Inscription,
    spec: ScrollSpec,
    scroll_id: Seq<char>,
    ids: Seq<Seq<char>>,
    now: i64,
    i: int,
)
    requires
        inscribes(made, spec, scroll_id, ids, now),
        spec.tasks@.len() <= u32::MAX,
        0 <= i < spec.tasks@.len(),
    ensures
        made.tasks@.len() == spec.tasks@.len(),
        made.deps@.len() == spec.tasks@.len(),
        ({
            let t = made.tasks@[i];
            let s = spec.tasks@[i];
            &&& t.name@ == s.name@
            &&& t.prompt@ == s.prompt@
            &&& opt_text(t.provider) == opt_text(s.provider)
            &&& opt_text(t.model) == opt_text(s.model)
            &&& opt_text(t.cwd) == opt_text(s.cwd)
            &&& texts(t.file_patterns@) == texts(s.file_patterns@)
            &&& opt_text(t.peer_name) == opt_text(s.peer)
            &&& opt_text(t.verify_rubric) == opt_text(s.verify)
            &&& opt_text(t.verify_threshold) == opt_text(s.verify_threshold)
            &&& t.id@ == ids[i]
            &&& t.scroll_id@ == scroll_id
            &&& t.order_index == i
            &&& t.agent_id is None
            &&& t.verifier_agent_id is None
            &&& t.created_at == now
            &&& t.updated_at == now
            &&& t.state == TaskState::Ready <==> s.depends_on@.len() == 0
            &&& t.state == TaskState::Blocked <==> s.depends_on@.len() > 0
        }),
        made.answer.scroll.name@ == spec.name@,
        made.answer.scroll.id@ == scroll_id,
        made.answer.scroll.state == ScrollState::Inscribed,
{
    let views = tasks_view(spec.tasks@);
    assert(task_rows(made.tasks@).len() == views.len());
    assert(task_rows(made.tasks@)[i] == made.tasks@[i]@);
    assert(views[i] == spec.tasks@[i]@);
    let t = made.tasks@[i];
    let s = spec.tasks@[i];
    assert(made.tasks@[i]@ == task_row(views[i], ids[i], scroll_id, i, now));
    assert(s@.depends_on.len() == s.depends_on@.len());
}

/// What a peer is told of an inscribed task is what its section says: the
/// prompt and the name, the files, and provider, model and directory, empty
/// where the section names none.
pub proof fn dispatched_sections_are_kept(
    made: Inscription,
    spec: ScrollSpec,
    scroll_id: Seq<char>,
    ids: Seq<Seq<char>>,
    now: i64,
    i: int,
    p: ScrollDispatchPayload,
)
    requires
        inscribes(made, spec, scroll_id, ids, now),
        spec.tasks@.len() <= u32::MAX,
        0 <= i < spec.tasks@.len(),
        payload_tells(p, made.tasks@[i]@),
    ensures
        p.prompt@ == spec.tasks@[i].prompt@,
        p.task_name@ == spec.tasks@[i].name@,
        p.scroll_id@ == scroll_id,
        p.task_id@ == ids[i],
        texts(p.file_patterns@) == texts(spec.tasks@[i].file_patterns@),
        spec.tasks@[i].provider is Some ==> p.provider@ == spec.tasks@[i].provider->0@,
        spec.tasks@[i].provider is None ==> p.provider@.len() == 0,
        spec.tasks@[i].model is Some ==> p.model@ == spec.tasks@[i].model->0@,
        spec.tasks@[i].model is None ==> p.model@.len() == 0,
        spec.tasks@[i].cwd is Some ==> p.cwd@ == spec.tasks@[i].cwd->0@,
        spec.tasks@[i].cwd is None ==> p.cwd@.len() == 0,
{
    sections_are_kept(made, spec, scroll_id, ids, now, i);
}

/// Where names differ, the graph of an inscription has an edge between two
/// tasks exactly where the section of the one names the other.
pub proof fn dependencies_are_kept(
    made: Inscription,
    spec: ScrollSpec,
    scroll_id: Seq<char>,
    ids: Seq<Seq<char>>,
    now: i64,
    u: int,
    v: int,
)
    requires
        inscribes(made, spec, scroll_id, ids, now),
        forall|a: int, b: int|
            0 <= a < b < spec.tasks@.len() ==> (#[trigger] spec.tasks@[a]).name@ != (
            #[trigger] spec.tasks@[b]).name@,
        0 <= u < spec.tasks@.len(),
        0 <= v < spec.tasks@.len(),
    ensures
        (exists|k: int| 0 <= k < made.deps@[u]@.len() && #[trigger] made.deps@[u]@[k] == v)
            <==> texts(spec.tasks@[u].depends_on@).contains(spec.tasks@[v].name@),
{
    let views = tasks_view(spec.tasks@);
    let all = names(views);
    assert(forall|a: int| 0 <= a < views.len() ==> #[trigger] all[a] == spec.tasks@[a].name@);
    assert forall|name: Seq<char>| task_of(all, name) >= 0 implies all[#[trigger] task_of(all, name)]
        == name && task_of(all, name) < all.len() by {
        lemma_last_place(all, name, all.len() as int);
    }
    assert(views[u] == spec.tasks@[u]@ && views[v] == spec.tasks@[v]@);
    assert(edge(made.deps@, u, v) <==> exists|k: int|
        0 <= k < made.deps@[u]@.len() && #[trigger] made.deps@[u]@[k] == v);
    if edge(made.deps@, u, v) {
        assert(depends(views, u, v));
        let (i, j) = choose|i: int, j: int|
            0 <= i < views.len() && 0 <= j < views[i].depends_on.len() && task_of(
                names(views),
                #[trigger] views[i].name,
            ) == u && task_of(names(views), #[trigger] views[i].depends_on[j]) == v;
        assert(all[u] == views[i].name);
        assert(all[i] == views[i].name);
        assert(spec.tasks@[u].name@ == spec.tasks@[i].name@);
        assert(i == u);
        assert(all[v] == views[u].depends_on[j]);
        assert(views[u].depends_on == texts(spec.tasks@[u].depends_on@));
    }
    if texts(spec.tasks@[u].depends_on@).contains(spec.tasks@[v].name@) {
        let list = texts(spec.tasks@[u].depends_on@);
        let j = choose|j: int| 0 <= j < list.len() && list[j] == spec.tasks@[v].name@;
        assert(views[u].depends_on[j] == all[v]);
        lemma_last_place(all, all[u], all.len() as int);
        lemma_last_place(all, all[v], all.len() as int);
        assert(task_of(all, all[u]) == u) by {
            let t = task_of(all, all[u]);
            assert(all[u] == all[u]);
            assert(spec.tasks@[t].name@ == spec.tasks@[u].name@);
        }
        assert(task_of(all, all[v]) == v) by {
            let t = task_of(all, all[v]);
            assert(all[v] == all[v]);
            assert(spec.tasks@[t].name@ == spec.tasks@[v].name@);
        }
        assert(task_of(names(views), views[u].name) == u);
        assert(task_of(names(views), views[u].depends_on[j]) == v);
        assert(depends(views, u, v));
    }
}

/// Abandoning skips exactly the tasks that have not ended: those that are
/// complete, failed or skipped stay.
pub proof fn ended_tasks_survive_abandoning(s: TaskState)
    ensures
        abandonable(s) <==> s == TaskState::Blocked || s == TaskState::Ready || s
            == TaskState::AwaitingApproval || s == TaskState::Active,
{
}

} // verus!
