//! Status snapshots of a scroll.

use super::dag::{detect_all_conflicts, square};
use super::{task_rows, Scroll, Task, TaskRow, TaskState};
use crate::text::{opt_text, same, texts};
use vstd::prelude::*;

verus! {

/// Status snapshot of a scroll.
#[derive(Debug)]
pub struct ScrollStatus {
    pub scroll: Scroll,
    pub tasks: Vec<TaskStatus>,
    pub total: usize,
    pub complete: usize,
    pub active: usize,
    pub blocked: usize,
    pub ready: usize,
    pub failed: usize,
    pub skipped: usize,
    pub awaiting_approval: usize,
    /// The pairs of active or ready tasks that conflict.
    pub conflicts: Vec<(usize, usize)>,
}

/// A task and the names of those that it depends on.
#[derive(Debug)]
pub struct TaskStatus {
    pub task: Task,
    pub depends_on_names: Vec<String>,
}

/// Number of tasks in a state.
pub open spec fn count(rows: Seq<TaskRow>, s: TaskState) -> nat
    decreases rows.len(),
{
    if rows.len() == 0 {
        0
    } else {
        count(rows.drop_last(), s) + if rows.last().state == s {
            1nat
        } else {
            0nat
        }
    }
}

/// The name of the last of the first `n` tasks that has the id.
pub open spec fn name_of(rows: Seq<TaskRow>, id: Seq<char>, n: int) -> Option<Seq<char>>
    decreases n,
{
    if n <= 0 {
        None
    } else if rows[n - 1].id == id {
        Some(rows[n - 1].name)
    } else {
        name_of(rows, id, n - 1)
    }
}

/// The names that a list of ids stands for; ids of no task are left out.
pub open spec fn names_of(rows: Seq<TaskRow>, ids: Seq<Seq<char>>) -> Seq<Seq<char>>
    decreases ids.len(),
{
    if ids.len() == 0 {
        seq![]
    } else {
        let before = names_of(rows, ids.drop_last());
        match name_of(rows, ids.last(), rows.len() as int) {
            Some(name) => before.push(name),
            None => before,
        }
    }
}

/// Whether a task can be in conflict: it runs or may run at once.
pub open spec fn live(s: TaskState) -> bool {
    s == TaskState::Active || s == TaskState::Ready
}

/// Whether two tasks conflict and both run or may run at once.
pub open spec fn live_conflict(
    tasks: Seq<Task>,
    table: Seq<Vec<bool>>,
    i: int,
    j: int,
) -> bool {
    table[i]@[j] && live(tasks[i].state) && live(tasks[j].state)
}

fn count_state(tasks: &Vec<Task>, s: TaskState) -> (n: usize)
    ensures
        n == count(task_rows(tasks@), s),
        n <= tasks@.len(),
{
    let mut n: usize = 0;
    for i in 0..tasks.len()
        invariant
            n == count(task_rows(tasks@).take(i as int), s),
            n <= i,
    {
        proof {
            let now = task_rows(tasks@).take(i + 1);
            assert(now.drop_last() =~= task_rows(tasks@).take(i as int));
            assert(now.last() == tasks@[i as int]@);
        }
        if tasks[i].state == s {
            n = n + 1;
        }
    }
    assert(task_rows(tasks@).take(tasks@.len() as int) =~= task_rows(tasks@));
    n
}

fn find_name(tasks: &Vec<Task>, id: &str) -> (r: Option<String>)
    ensures
        opt_text(r) == name_of(task_rows(tasks@), id@, tasks@.len() as int),
{
    let mut n: usize = tasks.len();
    while n > 0
        invariant
            n <= tasks@.len(),
            name_of(task_rows(tasks@), id@, tasks@.len() as int) == name_of(
                task_rows(tasks@),
                id@,
                n as int,
            ),
        decreases n,
    {
        assert(task_rows(tasks@)[n - 1] == tasks@[n - 1]@);
        if same(tasks[n - 1].id.as_str(), id) {
            return Some(tasks[n - 1].name.clone());
        }
        n = n - 1;
    }
    None
}

fn find_names(tasks: &Vec<Task>, ids: &Vec<String>) -> (r: Vec<String>)
    ensures
        texts(r@) == names_of(task_rows(tasks@), texts(ids@)),
{
    let mut r: Vec<String> = Vec::new();
    assert(texts(ids@).take(0) =~= Seq::<Seq<char>>::empty());
    assert(texts(r@) =~= Seq::<Seq<char>>::empty());
    for i in 0..ids.len()
        invariant
            texts(r@) == names_of(task_rows(tasks@), texts(ids@).take(i as int)),
    {
        let ghost before = texts(r@);
        proof {
            let now = texts(ids@).take(i + 1);
            assert(now.drop_last() =~= texts(ids@).take(i as int));
            assert(now.last() == ids@[i as int]@);
            assert(task_rows(tasks@).len() == tasks@.len());
        }
        if let Some(name) = find_name(tasks, ids[i].as_str()) {
            r.push(name);
            assert(texts(r@) =~= before.push(name@));
        }
    }
    assert(texts(ids@).take(ids@.len() as int) =~= texts(ids@));
    r
}

fn mask_live(tasks: &Vec<Task>, table: &Vec<Vec<bool>>) -> (r: Vec<Vec<bool>>)
    requires
        square(table@, tasks@.len() as int),
    ensures
        square(r@, tasks@.len() as int),
        forall|i: int, j: int|
            0 <= i < tasks@.len() && 0 <= j < tasks@.len() ==> #[trigger] r@[i]@[j] == (
            table@[i]@[j] && live(tasks@[i].state) && live(tasks@[j].state)),
{
    let n: usize = tasks.len();
    let mut r: Vec<Vec<bool>> = Vec::new();
    let mut i: usize = 0;
    while i < n
        invariant
            n == tasks@.len(),
            square(table@, n as int),
            i <= n,
            r@.len() == i,
            forall|a: int| 0 <= a < i ==> (#[trigger] r@[a])@.len() == n,
            forall|a: int, b: int|
                0 <= a < i && 0 <= b < n ==> #[trigger] r@[a]@[b] == (table@[a]@[b] && live(
                    tasks@[a].state,
                ) && live(tasks@[b].state)),
        decreases n - i,
    {
        let mut row: Vec<bool> = Vec::new();
        let i_live = tasks[i].state == TaskState::Active || tasks[i].state == TaskState::Ready;
        let mut j: usize = 0;
        assert(table@[i as int]@.len() == n);
        while j < n
            invariant
                n == tasks@.len(),
                square(table@, n as int),
                i < n,
                table@[i as int]@.len() == n,
                i_live == live(tasks@[i as int].state),
                j <= n,
                row@.len() == j,
                forall|b: int|
                    0 <= b < j ==> #[trigger] row@[b] == (table@[i as int]@[b] && live(
                        tasks@[i as int].state,
                    ) && live(tasks@[b].state)),
            decreases n - j,
        {
            let j_live = tasks[j].state == TaskState::Active || tasks[j].state
                == TaskState::Ready;
            row.push(table[i][j] && i_live && j_live);
            j = j + 1;
        }
        r.push(row);
        i = i + 1;
    }
    r
}

/// Full status snapshot of a scroll. `dep_ids[i]` are the ids of the tasks
/// that task `i` depends on, `conflict_table[i][j]` says whether tasks `i`
/// and `j` conflict.
pub fn status(
    scroll: Scroll,
    tasks: &Vec<Task>,
    dep_ids: &Vec<Vec<String>>,
    conflict_table: &Vec<Vec<bool>>,
) -> (r: ScrollStatus)
    requires
        dep_ids@.len() == tasks@.len(),
        square(conflict_table@, tasks@.len() as int),
    ensures
        r.scroll == scroll,
        r.tasks@.len() == tasks@.len(),
        forall|i: int|
            0 <= i < tasks@.len() ==> (#[trigger] r.tasks@[i]).task@ == tasks@[i]@ && texts(
                r.tasks@[i].depends_on_names@,
            ) == names_of(task_rows(tasks@), texts(dep_ids@[i]@)),
        r.total == tasks@.len(),
        r.complete == count(task_rows(tasks@), TaskState::Complete),
        r.active == count(task_rows(tasks@), TaskState::Active),
        r.blocked == count(task_rows(tasks@), TaskState::Blocked),
        r.ready == count(task_rows(tasks@), TaskState::Ready),
        r.failed == count(task_rows(tasks@), TaskState::Failed),
        r.skipped == count(task_rows(tasks@), TaskState::Skipped),
        r.awaiting_approval == count(task_rows(tasks@), TaskState::AwaitingApproval),
        forall|i: int, j: int|
            0 <= i < j < tasks@.len() ==> (#[trigger] live_conflict(
                tasks@,
                conflict_table@,
                i,
                j,
            ) <==> r.conflicts@.contains((i as usize, j as usize))),
        forall|k: int|
            0 <= k < r.conflicts@.len() ==> (#[trigger] r.conflicts@[k]).0 < r.conflicts@[k].1
                < tasks@.len(),
        forall|a: int, b: int|
            0 <= a < b < r.conflicts@.len() ==> (#[trigger] r.conflicts@[a]).0 < (
            #[trigger] r.conflicts@[b]).0 || (r.conflicts@[a].0 == r.conflicts@[b].0
                && r.conflicts@[a].1 < r.conflicts@[b].1),
{
    let mut list: Vec<TaskStatus> = Vec::new();
    for i in 0..tasks.len()
        invariant
            dep_ids@.len() == tasks@.len(),
            list@.len() == i,
            forall|k: int|
                0 <= k < i ==> (#[trigger] list@[k]).task@ == tasks@[k]@ && texts(
                    list@[k].depends_on_names@,
                ) == names_of(task_rows(tasks@), texts(dep_ids@[k]@)),
    {
        list.push(
            TaskStatus {
                task: tasks[i].copy(),
                depends_on_names: find_names(tasks, &dep_ids[i]),
            },
        );
    }
    let masked = mask_live(tasks, conflict_table);
    let conflicts = detect_all_conflicts(&masked);
    assert forall|i: int, j: int|
        0 <= i < j < tasks@.len() implies (#[trigger] live_conflict(
        tasks@,
        conflict_table@,
        i,
        j,
    ) <==> conflicts@.contains((i as usize, j as usize))) by {
        assert(masked@[i]@[j] == live_conflict(tasks@, conflict_table@, i, j));
    }
    let r = ScrollStatus {
        scroll,
        tasks: list,
        total: tasks.len(),
        complete: count_state(tasks, TaskState::Complete),
        active: count_state(tasks, TaskState::Active),
        blocked: count_state(tasks, TaskState::Blocked),
        ready: count_state(tasks, TaskState::Ready),
        failed: count_state(tasks, TaskState::Failed),
        skipped: count_state(tasks, TaskState::Skipped),
        awaiting_approval: count_state(tasks, TaskState::AwaitingApproval),
        conflicts,
    };
    assert(r.conflicts@ == conflicts@);
    r
}

/// The counts of a snapshot add up: every task is in one state.
pub proof fn counts_add_up(rows: Seq<TaskRow>)
    ensures
        count(rows, TaskState::Complete) + count(rows, TaskState::Active) + count(
            rows,
            TaskState::Blocked,
        ) + count(rows, TaskState::Ready) + count(rows, TaskState::Failed) + count(
            rows,
            TaskState::Skipped,
        ) + count(rows, TaskState::AwaitingApproval) == rows.len(),
    decreases rows.len(),
{
    if rows.len() > 0 {
        counts_add_up(rows.drop_last());
    }
}

/// A snapshot counts tasks one by one, each under its own state.
pub proof fn snapshots_count_each_task(rows: Seq<TaskRow>, t: TaskRow, s: TaskState)
    ensures
        count(seq![], s) == 0,
        count(rows.push(t), s) == count(rows, s) + (if t.state == s {
            1int
        } else {
            0
        }),
{
    assert(rows.push(t).drop_last() =~= rows);
}

/// Where ids differ, a dependency is shown under the name of the task whose id
/// it is, in order; an id of no task is left out.
pub proof fn dependencies_are_shown_by_name(
    rows: Seq<TaskRow>,
    ids: Seq<Seq<char>>,
    id: Seq<char>,
    i: int,
)
    requires
        forall|a: int, b: int|
            0 <= a < b < rows.len() ==> (#[trigger] rows[a]).id != (#[trigger] rows[b]).id,
    ensures
        names_of(rows, seq![]).len() == 0,
        0 <= i < rows.len() && rows[i].id == id ==> names_of(rows, ids.push(id)) == names_of(
            rows,
            ids,
        ).push(rows[i].name),
        (forall|k: int| 0 <= k < rows.len() ==> (#[trigger] rows[k]).id != id) ==> names_of(
            rows,
            ids.push(id),
        ) == names_of(rows, ids),
{
    assert(ids.push(id).drop_last() =~= ids);
    lemma_name_of(rows, id, rows.len() as int);
}

proof fn lemma_name_of(rows: Seq<TaskRow>, id: Seq<char>, n: int)
    requires
        0 <= n <= rows.len(),
    ensures
        match name_of(rows, id, n) {
            Some(name) => exists|k: int| 0 <= k < n && (#[trigger] rows[k]).id == id && rows[k].name == name,
            None => forall|k: int| 0 <= k < n ==> (#[trigger] rows[k]).id != id,
        },
    decreases n,
{
    if n > 0 {
        if rows[n - 1].id != id {
            lemma_name_of(rows, id, n - 1);
        }
    }
}

/// Conflicts are shown between tasks that run or may run, and between no
/// others.
pub proof fn only_live_tasks_conflict(s: TaskState)
    ensures
        live(s) <==> s == TaskState::Active || s == TaskState::Ready,
{
}

} // verus!
