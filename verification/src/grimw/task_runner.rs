//! How a worker takes, runs and ends the tasks that the daemon assigns.
//!
//! The caller starts and watches the processes, and reports what they did.

use super::config::ProviderConfig;
use crate::order::{
    text_before, text_le, text_le_antisymmetric, text_le_total, text_le_transitive,
};
use crate::pieces::{replace, replaced};
use crate::text::{cat, holds, own, same, texts};
use crate::versions::{meets_requirement, requirement_met, requirement_valid, version_valid};
use crate::worker_rpc_server::pairs;
use vstd::prelude::*;
use vstd::string::*;

verus! {

/// A task that the daemon assigns.
#[derive(Debug)]
pub struct AssignTask {
    pub agent_id: String,
    pub provider_name: String,
    pub provider_constraint: String,
    pub task: String,
    pub cwd: String,
    pub env: Vec<(String, String)>,
}

/// What the worker tells the daemon about a task.
#[derive(Debug)]
pub enum Report {
    Rejected { agent_id: String, reason: String },
    Accepted { agent_id: String, pid: u32 },
    Finished { agent_id: String, complete: bool, exit_code: Option<i32> },
}

/// The process to start for a task.
#[derive(Debug)]
pub struct Launch {
    pub program: String,
    pub args: Vec<String>,
    /// Variables to set, in order; a later one overrides an earlier.
    pub env: Vec<(String, String)>,
    pub cwd: String,
}

/// The worker's own state.
#[derive(Debug)]
pub struct TaskDispatcher {
    pub providers: Vec<(String, ProviderConfig)>,
    pub in_flight: u32,
    pub max_concurrent: u32,
    /// Agents whose task runs.
    pub running: Vec<String>,
    pub draining: bool,
}

/// Whether no name occurs twice.
pub open spec fn names_differ(env: Seq<(Seq<char>, Seq<char>)>) -> bool {
    forall|i: int, j: int| 0 <= i < j < env.len() ==> (#[trigger] env[i]).0 != (#[trigger] env[j]).0
}

impl AssignTask {
    /// What holds of every assignment: no variable is set twice.
    pub open spec fn wf(self) -> bool {
        names_differ(pairs(self.env@))
    }
}

/// Whether variables come in the order of their names, none of them twice.
pub open spec fn names_ascend(env: Seq<(Seq<char>, Seq<char>)>) -> bool {
    forall|i: int, j: int|
        0 <= i < j < env.len() ==> text_le((#[trigger] env[i]).0, (#[trigger] env[j]).0)
            && env[i].0 != env[j].0
}

/// Whether `env` is the environment that the daemon owns: the agent's id
/// first, then exactly what the daemon sent, in the order of the names.
pub open spec fn agent_env(
    env: Seq<(Seq<char>, Seq<char>)>,
    agent_id: Seq<char>,
    extra: Seq<(Seq<char>, Seq<char>)>,
) -> bool {
    &&& env.len() == extra.len() + 1
    &&& env[0] == ("GRIMOIRE_AGENT_ID"@, agent_id)
    &&& names_ascend(env.drop_first())
    &&& env.drop_first().to_set() == extra.to_set()
}

/// Puts a variable where its name belongs.
fn insert_variable(env: &mut Vec<(String, String)>, name: String, value: String)
    requires
        names_ascend(pairs(old(env)@)),
        forall|i: int| 0 <= i < old(env)@.len() ==> (#[trigger] old(env)@[i]).0@ != name@,
    ensures
        names_ascend(pairs(final(env)@)),
        final(env)@.len() == old(env)@.len() + 1,
        pairs(final(env)@).to_set() == pairs(old(env)@).to_set().insert((name@, value@)),
{
    let ghost before = pairs(env@);
    let ghost x = (name@, value@);
    let mut k: usize = 0;
    while k < env.len() && text_before(env[k].0.as_str(), name.as_str())
        invariant
            before == pairs(env@),
            k <= before.len(),
            x == (name@, value@),
            forall|i: int| 0 <= i < k ==> text_le((#[trigger] before[i]).0, x.0),
        decreases before.len() - k,
    {
        assert(before[k as int] == (env@[k as int].0@, env@[k as int].1@));
        k = k + 1;
    }
    proof {
        assert forall|i: int| k <= i < before.len() implies text_le(
            x.0,
            (#[trigger] before[i]).0,
        ) by {
            assert(before[k as int] == (env@[k as int].0@, env@[k as int].1@));
            text_le_total(x.0, before[k as int].0);
            if i > k {
                text_le_transitive(x.0, before[k as int].0, before[i].0);
            }
        }
        assert forall|i: int| 0 <= i < before.len() implies (#[trigger] before[i]).0 != x.0 by {
            assert(before[i] == (env@[i].0@, env@[i].1@));
        }
    }
    env.insert(k, (name, value));
    proof {
        let after = pairs(env@);
        assert(after =~= before.insert(k as int, x));
        assert forall|i: int, j: int| 0 <= i < j < after.len() implies text_le(
            (#[trigger] after[i]).0,
            (#[trigger] after[j]).0,
        ) && after[i].0 != after[j].0 by {
            if j < k {
                assert(after[i] == before[i] && after[j] == before[j]);
            } else if j == k {
                assert(after[i] == before[i]);
            } else if i < k {
                assert(after[i] == before[i] && after[j] == before[j - 1]);
            } else if i == k {
                assert(after[j] == before[j - 1]);
            } else {
                assert(after[i] == before[i - 1] && after[j] == before[j - 1]);
            }
        }
        assert forall|y: (Seq<char>, Seq<char>)| before.to_set().insert(x).contains(
            y,
        ) implies after.to_set().contains(y) by {
            if y == x {
                assert(after[k as int] == y);
            } else {
                let i = choose|i: int| 0 <= i < before.len() && before[i] == y;
                if i < k {
                    assert(after[i] == y);
                } else {
                    assert(after[i + 1] == y);
                }
            }
        }
        assert forall|y: (Seq<char>, Seq<char>)| after.to_set().contains(
            y,
        ) implies before.to_set().insert(x).contains(y) by {
            let i = choose|i: int| 0 <= i < after.len() && after[i] == y;
            if i < k {
                assert(before[i] == y);
            } else if i > k {
                assert(before[i - 1] == y);
            }
        }
        assert(after.to_set() =~= before.to_set().insert(x));
    }
}

/// Builds the environment that the daemon owns. It always holds
/// `GRIMOIRE_AGENT_ID`; one that the daemon sent comes later, and so
/// overrides it. In what order the variables were sent makes no difference.
pub fn build_agent_env(agent_id: &str, extra: &Vec<(String, String)>) -> (r: Vec<(String, String)>)
    requires
        names_differ(pairs(extra@)),
    ensures
        agent_env(pairs(r@), agent_id@, pairs(extra@)),
{
    let ghost all = pairs(extra@);
    let mut rest: Vec<(String, String)> = Vec::new();
    assert(pairs(rest@).to_set() =~= all.take(0).to_set());
    for i in 0..extra.len()
        invariant
            all == pairs(extra@),
            names_differ(all),
            rest@.len() == i,
            names_ascend(pairs(rest@)),
            pairs(rest@).to_set() == all.take(i as int).to_set(),
    {
        let (k, v) = &extra[i];
        let ghost x = (k@, v@);
        proof {
            assert(all[i as int] == x);
            assert forall|m: int| 0 <= m < rest@.len() implies (#[trigger] rest@[m]).0@ != k@ by {
                let y = pairs(rest@)[m];
                assert(pairs(rest@).to_set().contains(y));
                let n = choose|n: int| 0 <= n < all.take(i as int).len() && all.take(i as int)[n] == y;
                assert(all[n].0 != all[i as int].0);
            }
            assert(all.take(i + 1) =~= all.take(i as int).push(x));
            assert(all.take(i + 1).to_set() =~= all.take(i as int).to_set().insert(x)) by {
                let t = all.take(i as int);
                assert forall|y: (Seq<char>, Seq<char>)| t.to_set().insert(x).contains(
                    y,
                ) implies t.push(x).to_set().contains(y) by {
                    if y == x {
                        assert(t.push(x)[t.len() as int] == y);
                    } else {
                        let n = choose|n: int| 0 <= n < t.len() && t[n] == y;
                        assert(t.push(x)[n] == y);
                    }
                }
            }
        }
        insert_variable(&mut rest, k.clone(), v.clone());
    }
    assert(all.take(all.len() as int) =~= all);
    let mut r: Vec<(String, String)> = Vec::new();
    r.push((own("GRIMOIRE_AGENT_ID"), own(agent_id)));
    let ghost tail = pairs(rest@);
    r.append(&mut rest);
    assert(pairs(r@).drop_first() =~= tail);
    r
}

/// Whether an assignment asks for a version of its provider.
pub open spec fn constrained(constraint: Seq<char>) -> bool {
    constraint.len() > 0 && constraint != "*"@
}

/// Why an assignment is rejected, if it is. `version_ok` says whether the
/// provider's version meets the constraint, where both parse.
pub open spec fn rejection(
    draining: bool,
    full: bool,
    provider_known: bool,
    cwd_is_dir: bool,
    asks_version: bool,
    version_ok: Option<bool>,
) -> Option<Seq<char>> {
    if draining {
        Some("draining"@)
    } else if full {
        Some("at_capacity"@)
    } else if !provider_known {
        Some("provider_missing"@)
    } else if !cwd_is_dir {
        Some("cwd_unreachable"@)
    } else if asks_version && version_ok != Some(true) {
        Some("version_mismatch"@)
    } else {
        None
    }
}

/// Decides whether an assignment is rejected, and why.
pub fn reject_reason(
    draining: bool,
    full: bool,
    provider_known: bool,
    cwd_is_dir: bool,
    asks_version: bool,
    version_ok: Option<bool>,
) -> (r: Option<&'static str>)
    ensures
        match r {
            Some(reason) => rejection(
                draining,
                full,
                provider_known,
                cwd_is_dir,
                asks_version,
                version_ok,
            ) == Some(reason@),
            None => rejection(
                draining,
                full,
                provider_known,
                cwd_is_dir,
                asks_version,
                version_ok,
            ) is None,
        },
{
    if draining {
        return Some("draining");
    }
    if full {
        return Some("at_capacity");
    }
    if !provider_known {
        return Some("provider_missing");
    }
    if !cwd_is_dir {
        return Some("cwd_unreachable");
    }
    if asks_version {
        match version_ok {
            Some(true) => {},
            _ => return Some("version_mismatch"),
        }
    }
    None
}

/// The first provider of that name at or after `i`.
pub open spec fn provider_from(list: Seq<(String, ProviderConfig)>, name: Seq<char>, i: int) -> Option<
    int,
>
    decreases list.len() - i,
{
    if i < 0 || i >= list.len() {
        None
    } else if list[i].0@ == name {
        Some(i)
    } else {
        provider_from(list, name, i + 1)
    }
}

/// Whether the version of a provider meets an assignment's constraint, where
/// both parse.
pub open spec fn version_verdict(constraint: Seq<char>, version: Seq<char>) -> Option<bool> {
    if requirement_valid(constraint) && version_valid(version) {
        Some(requirement_met(constraint, version))
    } else {
        None
    }
}

/// Each template with the task in place of `{task}`.
pub open spec fn filled(templates: Seq<Seq<char>>, task: Seq<char>) -> Seq<Seq<char>> {
    templates.map_values(|t: Seq<char>| replaced(t, "{task}"@, task))
}

/// Fills the task into each template, in place of `{task}`.
pub fn fill_templates(templates: &Vec<String>, task: &str) -> (r: Vec<String>)
    ensures
        texts(r@) == filled(texts(templates@), task@),
{
    proof {
        reveal_strlit("{task}");
    }
    let mut r: Vec<String> = Vec::new();
    for i in 0..templates.len()
        invariant
            "{task}"@.len() > 0,
            r@.len() == i,
            forall|k: int|
                0 <= k < i ==> (#[trigger] r@[k])@ == replaced(
                    templates@[k]@,
                    "{task}"@,
                    task@,
                ),
    {
        r.push(replace(templates[i].as_str(), "{task}", task));
    }
    assert(texts(r@) =~= filled(texts(templates@), task@));
    r
}

fn copy_pairs(list: &Vec<(String, String)>) -> (r: Vec<(String, String)>)
    ensures
        pairs(r@) == pairs(list@),
{
    let mut r: Vec<(String, String)> = Vec::new();
    for i in 0..list.len()
        invariant
            r@.len() == i,
            forall|k: int|
                0 <= k < i ==> (#[trigger] r@[k]).0@ == list@[k].0@ && r@[k].1@ == list@[k].1@,
    {
        let (k, v) = &list[i];
        r.push((k.clone(), v.clone()));
    }
    assert(pairs(r@) =~= pairs(list@));
    r
}

/// Whether `l` is the process of an assignment under a provider: the
/// provider's variables come first, then those that the daemon owns.
pub open spec fn launches(l: Launch, p: ProviderConfig, a: AssignTask) -> bool {
    &&& l.program@ == p.binary@
    &&& texts(l.args@) == filled(texts(p.args_template@), a.task@)
    &&& pairs(p.env@).is_prefix_of(pairs(l.env@))
    &&& agent_env(
        pairs(l.env@).skip(p.env@.len() as int),
        a.agent_id@,
        pairs(a.env@),
    )
    &&& l.cwd@ == a.cwd@
}

impl TaskDispatcher {
    /// A worker that runs nothing.
    pub fn new(providers: Vec<(String, ProviderConfig)>, max_concurrent: u32) -> (r: TaskDispatcher)
        ensures
            r.providers == providers,
            r.in_flight == 0,
            r.max_concurrent == max_concurrent,
            r.running@.len() == 0,
            !r.draining,
    {
        TaskDispatcher {
            providers,
            in_flight: 0,
            max_concurrent,
            running: Vec::new(),
            draining: false,
        }
    }

    fn provider(&self, name: &str) -> (r: Option<usize>)
        ensures
            match r {
                Some(i) => i < self.providers@.len() && provider_from(self.providers@, name@, 0)
                    == Some(i as int),
                None => provider_from(self.providers@, name@, 0) is None,
            },
    {
        let mut i: usize = 0;
        while i < self.providers.len()
            invariant
                i <= self.providers@.len(),
                provider_from(self.providers@, name@, 0) == provider_from(
                    self.providers@,
                    name@,
                    i as int,
                ),
            decreases self.providers@.len() - i,
        {
            if same(self.providers[i].0.as_str(), name) {
                return Some(i);
            }
            i = i + 1;
        }
        None
    }

    /// Why an assignment cannot be accepted, or the number of its provider.
    pub fn validate(&self, assign: &AssignTask, cwd_is_dir: bool) -> (r: Result<
        usize,
        &'static str,
    >)
        ensures
            ({
                let found = provider_from(self.providers@, assign.provider_name@, 0);
                let verdict = match found {
                    Some(i) => version_verdict(
                        assign.provider_constraint@,
                        self.providers@[i].1.version@,
                    ),
                    None => None,
                };
                let refused = rejection(
                    self.draining,
                    self.in_flight >= self.max_concurrent,
                    found is Some,
                    cwd_is_dir,
                    constrained(assign.provider_constraint@),
                    verdict,
                );
                match r {
                    Ok(i) => refused is None && found == Some(i as int) && i
                        < self.providers@.len(),
                    Err(reason) => refused == Some(reason@),
                }
            }),
    {
        let found = self.provider(assign.provider_name.as_str());
        let asks_version = !assign.provider_constraint.as_str().is_empty() && !same(
            assign.provider_constraint.as_str(),
            "*",
        );
        let verdict: Option<bool> = match found {
            Some(i) => meets_requirement(
                assign.provider_constraint.as_str(),
                self.providers[i].1.version.as_str(),
            ),
            None => None,
        };
        let reason = reject_reason(
            self.draining,
            self.in_flight >= self.max_concurrent,
            found.is_some(),
            cwd_is_dir,
            asks_version,
            verdict,
        );
        match reason {
            Some(reason) => Err(reason),
            None => Ok(found.unwrap()),
        }
    }

    /// Takes an assignment: the process to start, or the rejection to send.
    pub fn handle_assign(&self, assign: &AssignTask, cwd_is_dir: bool) -> (r: Result<
        Launch,
        Report,
    >)
        requires
            assign.wf(),
        ensures
            ({
                let found = provider_from(self.providers@, assign.provider_name@, 0);
                let verdict = match found {
                    Some(i) => version_verdict(
                        assign.provider_constraint@,
                        self.providers@[i].1.version@,
                    ),
                    None => None,
                };
                let refused = rejection(
                    self.draining,
                    self.in_flight >= self.max_concurrent,
                    found is Some,
                    cwd_is_dir,
                    constrained(assign.provider_constraint@),
                    verdict,
                );
                match r {
                    Ok(l) => refused is None && launches(
                        l,
                        self.providers@[found->0].1,
                        *assign,
                    ),
                    Err(Report::Rejected { agent_id, reason }) => refused == Some(reason@)
                        && agent_id@ == assign.agent_id@,
                    Err(_) => false,
                }
            }),
    {
        match self.validate(assign, cwd_is_dir) {
            Err(reason) => Err(
                Report::Rejected { agent_id: assign.agent_id.clone(), reason: own(reason) },
            ),
            Ok(i) => {
                let p = &self.providers[i].1;
                let mut env = copy_pairs(&p.env);
                let mut owned = build_agent_env(assign.agent_id.as_str(), &assign.env);
                let ghost first = env@;
                let ghost second = owned@;
                env.append(&mut owned);
                proof {
                    assert(pairs(env@) =~= pairs(first) + pairs(second));
                    assert(pairs(env@).skip(first.len() as int) =~= pairs(second));
                    assert(pairs(first) =~= pairs(env@).subrange(0, first.len() as int));
                }
                Ok(
                    Launch {
                        program: p.binary.clone(),
                        args: fill_templates(&p.args_template, assign.task.as_str()),
                        env,
                        cwd: assign.cwd.clone(),
                    },
                )
            },
        }
    }

    /// The rejection of a task whose process could not be started.
    pub fn spawn_failed(&self, agent_id: &str, error: &str) -> (r: Report)
        ensures
            r matches Report::Rejected { agent_id: a, reason } && a@ == agent_id@ && reason@
                == "spawn_failed: "@ + error@,
    {
        Report::Rejected { agent_id: own(agent_id), reason: cat("spawn_failed: ", error) }
    }

    /// Takes in that the process of a task was started.
    pub fn started(&mut self, agent_id: &str, pid: Option<u32>) -> (r: Report)
        requires
            old(self).in_flight < u32::MAX,
        ensures
            final(self).in_flight == old(self).in_flight + 1,
            final(self).providers == old(self).providers,
            final(self).max_concurrent == old(self).max_concurrent,
            final(self).draining == old(self).draining,
            texts(final(self).running@) == (if texts(old(self).running@).contains(agent_id@) {
                texts(old(self).running@)
            } else {
                texts(old(self).running@).push(agent_id@)
            }),
            r matches Report::Accepted { agent_id: a, pid: p } && a@ == agent_id@ && p == (
            match pid {
                Some(p) => p,
                None => 0,
            }),
    {
        self.in_flight = self.in_flight + 1;
        let ghost before = texts(self.running@);
        if !holds(&self.running, agent_id) {
            let id = own(agent_id);
            self.running.push(id);
            assert(texts(self.running@) =~= before.push(id@));
        }
        Report::Accepted {
            agent_id: own(agent_id),
            pid: match pid {
                Some(p) => p,
                None => 0,
            },
        }
    }

    /// Takes in that the process of a task ended. `exit` is how, where it
    /// could be learnt: whether it succeeded, and its code.
    pub fn finished(&mut self, agent_id: &str, exit: Option<(bool, Option<i32>)>) -> (r: Report)
        requires
            old(self).in_flight > 0,
        ensures
            final(self).in_flight == old(self).in_flight - 1,
            final(self).providers == old(self).providers,
            final(self).max_concurrent == old(self).max_concurrent,
            final(self).draining == old(self).draining,
            texts(final(self).running@) == texts(old(self).running@).filter(
                |a: Seq<char>| a != agent_id@,
            ),
            r matches Report::Finished { agent_id: a, complete, exit_code } && a@ == agent_id@
                && complete == (exit matches Some((true, _))) && exit_code == (match exit {
                Some((_, code)) => code,
                None => None,
            }),
    {
        self.in_flight = self.in_flight - 1;
        let ghost before = texts(self.running@);
        let ghost keep = |a: Seq<char>| a != agent_id@;
        let mut kept: Vec<String> = Vec::new();
        assert(texts(kept@) =~= before.take(0).filter(keep)) by {
            assert(before.take(0) =~= Seq::<Seq<char>>::empty());
            reveal(Seq::filter);
        }
        let mut i: usize = 0;
        while i < self.running.len()
            invariant
                i <= self.running@.len(),
                before == texts(self.running@),
                keep == (|a: Seq<char>| a != agent_id@),
                texts(kept@) == before.take(i as int).filter(keep),
            decreases self.running@.len() - i,
        {
            let ghost so_far = texts(kept@);
            proof {
                assert(before[i as int] == self.running@[i as int]@);
                assert(before.take(i + 1) =~= before.take(i as int).push(before[i as int]));
                before.take(i as int).lemma_filter_push(before[i as int], keep);
            }
            if !same(self.running[i].as_str(), agent_id) {
                let id = self.running[i].clone();
                kept.push(id);
                assert(texts(kept@) =~= so_far.push(id@));
            }
            i = i + 1;
        }
        assert(before.take(before.len() as int) =~= before);
        self.running = kept;
        let (complete, exit_code): (bool, Option<i32>) = match exit {
            Some((ok, code)) => (ok, code),
            None => (false, None),
        };
        Report::Finished { agent_id: own(agent_id), complete, exit_code }
    }

    /// Whether there is a process to kill when a task is cancelled.
    pub fn cancel(&self, agent_id: &str) -> (r: bool)
        ensures
            r == texts(self.running@).contains(agent_id@),
    {
        holds(&self.running, agent_id)
    }

    /// From now on no assignment is accepted.
    pub fn drain(&mut self)
        ensures
            final(self).draining,
            final(self).providers == old(self).providers,
            final(self).in_flight == old(self).in_flight,
            final(self).max_concurrent == old(self).max_concurrent,
            final(self).running == old(self).running,
    {
        self.draining = true;
    }
}

// ---------------------------------------------------------------------------
// Laws
// ---------------------------------------------------------------------------

/// The agent's id is always among the variables of its process, and so is
/// whatever the daemon sent.
pub proof fn agent_id_is_always_set(
    env: Seq<(Seq<char>, Seq<char>)>,
    agent_id: Seq<char>,
    extra: Seq<(Seq<char>, Seq<char>)>,
)
    requires
        agent_env(env, agent_id, extra),
    ensures
        env.contains(("GRIMOIRE_AGENT_ID"@, agent_id)),
        forall|k: int| 0 <= k < extra.len() ==> env.contains(#[trigger] extra[k]),
{
    assert(env[0] == ("GRIMOIRE_AGENT_ID"@, agent_id));
    assert forall|k: int| 0 <= k < extra.len() implies env.contains(#[trigger] extra[k]) by {
        assert(extra.to_set().contains(extra[k]));
        assert(env.drop_first().contains(extra[k]));
        let n = choose|n: int| 0 <= n < env.drop_first().len() && env.drop_first()[n] == extra[k];
        assert(env[n + 1] == extra[k]);
    }
}

proof fn lemma_ascending_unique(a: Seq<(Seq<char>, Seq<char>)>, b: Seq<(Seq<char>, Seq<char>)>)
    requires
        names_ascend(a),
        names_ascend(b),
        a.to_set() == b.to_set(),
    ensures
        a == b,
    decreases a.len(),
{
    if a.len() == 0 || b.len() == 0 {
        if a.len() > 0 {
            assert(a.to_set().contains(a[0]));
            assert(b.contains(a[0]));
        }
        if b.len() > 0 {
            assert(b.to_set().contains(b[0]));
            assert(a.contains(b[0]));
        }
        assert(a =~= b);
    } else {
        let p = a.last();
        let q = b.last();
        assert(a.to_set().contains(p) && b.to_set().contains(q));
        assert(b.contains(p) && a.contains(q));
        let j = choose|j: int| 0 <= j < b.len() && b[j] == p;
        let i = choose|i: int| 0 <= i < a.len() && a[i] == q;
        assert(p == q) by {
            if j < b.len() - 1 {
                assert(text_le(b[j].0, b[b.len() - 1].0) && b[j].0 != b[b.len() - 1].0);
                if i < a.len() - 1 {
                    assert(text_le(a[i].0, a[a.len() - 1].0));
                    text_le_antisymmetric(p.0, q.0);
                }
            }
        }
        lemma_shorter(a, b);
        lemma_shorter(b, a);
        assert(a.drop_last().to_set() =~= b.drop_last().to_set());
        assert(names_ascend(a.drop_last())) by {
            assert forall|x: int, y: int| 0 <= x < y < a.len() - 1 implies text_le(
                (#[trigger] a.drop_last()[x]).0,
                (#[trigger] a.drop_last()[y]).0,
            ) && a.drop_last()[x].0 != a.drop_last()[y].0 by {
                assert(a.drop_last()[x] == a[x] && a.drop_last()[y] == a[y]);
            }
        }
        assert(names_ascend(b.drop_last())) by {
            assert forall|x: int, y: int| 0 <= x < y < b.len() - 1 implies text_le(
                (#[trigger] b.drop_last()[x]).0,
                (#[trigger] b.drop_last()[y]).0,
            ) && b.drop_last()[x].0 != b.drop_last()[y].0 by {
                assert(b.drop_last()[x] == b[x] && b.drop_last()[y] == b[y]);
            }
        }
        lemma_ascending_unique(a.drop_last(), b.drop_last());
        assert(a =~= a.drop_last().push(p));
        assert(b =~= b.drop_last().push(q));
    }
}

proof fn lemma_shorter(a: Seq<(Seq<char>, Seq<char>)>, b: Seq<(Seq<char>, Seq<char>)>)
    requires
        names_ascend(a),
        a.len() > 0,
        b.len() > 0,
        a.last() == b.last(),
        a.to_set() == b.to_set(),
    ensures
        forall|y: (Seq<char>, Seq<char>)|
            a.drop_last().to_set().contains(y) ==> b.drop_last().to_set().contains(y),
{
    assert forall|y: (Seq<char>, Seq<char>)| a.drop_last().to_set().contains(
        y,
    ) implies b.drop_last().to_set().contains(y) by {
        let n = choose|n: int| 0 <= n < a.drop_last().len() && a.drop_last()[n] == y;
        assert(a[n] == y);
        assert(a[n].0 != a[a.len() - 1].0);
        assert(a.to_set().contains(y));
        assert(b.contains(y));
        let m = choose|m: int| 0 <= m < b.len() && b[m] == y;
        assert(m < b.len() - 1);
        assert(b.drop_last()[m] == y);
    }
}

/// The environment that the daemon owns is determined by the agent and by
/// which variables were sent: two lists of the same variables, in whatever
/// order, give the same environment, element by element.
pub proof fn env_order_is_determined(
    agent_id: Seq<char>,
    e1: Seq<(Seq<char>, Seq<char>)>,
    e2: Seq<(Seq<char>, Seq<char>)>,
    v1: Seq<(Seq<char>, Seq<char>)>,
    v2: Seq<(Seq<char>, Seq<char>)>,
)
    requires
        e1.to_set() == e2.to_set(),
        agent_env(v1, agent_id, e1),
        agent_env(v2, agent_id, e2),
    ensures
        v1 == v2,
{
    lemma_ascending_unique(v1.drop_first(), v2.drop_first());
    assert(v1 =~= seq![v1[0]] + v1.drop_first());
    assert(v2 =~= seq![v2[0]] + v2.drop_first());
}

/// A worker that drains, or that is full, accepts nothing.
pub proof fn no_task_beyond_capacity(
    draining: bool,
    full: bool,
    provider_known: bool,
    cwd_is_dir: bool,
    asks_version: bool,
    version_ok: Option<bool>,
)
    requires
        draining || full,
    ensures
        rejection(draining, full, provider_known, cwd_is_dir, asks_version, version_ok) is Some,
{
}

/// An assignment is accepted where the worker takes tasks, has room, knows
/// the provider, reaches the directory and has the version that is asked for.
/// What stands in the way first is told.
pub proof fn fit_tasks_are_accepted(
    draining: bool,
    full: bool,
    provider_known: bool,
    cwd_is_dir: bool,
    asks_version: bool,
    version_ok: Option<bool>,
    r: Option<&'static str>,
)
    requires
        call_ensures(
            reject_reason,
            (draining, full, provider_known, cwd_is_dir, asks_version, version_ok),
            r,
        ),
    ensures
        r is None <==> !draining && !full && provider_known && cwd_is_dir && (asks_version
            ==> version_ok == Some(true)),
        draining ==> r is Some && r->0@ == "draining"@,
        !draining && full ==> r is Some && r->0@ == "at_capacity"@,
        !draining && !full && !provider_known ==> r is Some && r->0@ == "provider_missing"@,
        !draining && !full && provider_known && !cwd_is_dir ==> r is Some && r->0@
            == "cwd_unreachable"@,
        !draining && !full && provider_known && cwd_is_dir && r is Some ==> r->0@
            == "version_mismatch"@,
{
}

/// A version is asked for unless the constraint is empty or a star.
pub proof fn stars_ask_for_no_version(constraint: Seq<char>)
    ensures
        !constrained(Seq::<char>::empty()),
        !constrained("*"@),
        constraint.len() > 0 && constraint != "*"@ ==> constrained(constraint),
{
}

proof fn lemma_provider_from(list: Seq<(String, ProviderConfig)>, name: Seq<char>, i: int, k: int)
    requires
        0 <= i <= k < list.len(),
        list[k].0@ == name,
        forall|j: int| 0 <= j < k ==> (#[trigger] list[j]).0@ != name,
    ensures
        provider_from(list, name, i) == Some(k),
    decreases k - i,
{
    if i < k {
        lemma_provider_from(list, name, i + 1, k);
    }
}

proof fn lemma_no_provider(list: Seq<(String, ProviderConfig)>, name: Seq<char>, i: int)
    requires
        0 <= i <= list.len(),
        forall|j: int| 0 <= j < list.len() ==> (#[trigger] list[j]).0@ != name,
    ensures
        provider_from(list, name, i) is None,
    decreases list.len() - i,
{
    if i < list.len() {
        lemma_no_provider(list, name, i + 1);
    }
}

/// A provider that is not configured is missing, whatever the task.
pub proof fn unknown_providers_are_missing(
    d: TaskDispatcher,
    a: AssignTask,
    r: Result<Launch, Report>,
)
    requires
        a.wf(),
        !d.draining,
        d.in_flight < d.max_concurrent,
        forall|j: int|
            0 <= j < d.providers@.len() ==> (#[trigger] d.providers@[j]).0@ != a.provider_name@,
        call_ensures(TaskDispatcher::handle_assign, (&d, &a, true), r),
    ensures
        r matches Err(Report::Rejected { agent_id, reason }) && agent_id@ == a.agent_id@ && reason@
            == "provider_missing"@,
{
    lemma_no_provider(d.providers@, a.provider_name@, 0);
}

/// An accepted task runs the binary of the provider that it names, in the
/// directory that it names, with its task in the arguments and its agent's id
/// in the environment.
pub proof fn accepted_tasks_are_launched(
    d: TaskDispatcher,
    a: AssignTask,
    k: int,
    r: Result<Launch, Report>,
)
    requires
        a.wf(),
        !d.draining,
        d.in_flight < d.max_concurrent,
        0 <= k < d.providers@.len(),
        d.providers@[k].0@ == a.provider_name@,
        forall|j: int| 0 <= j < k ==> (#[trigger] d.providers@[j]).0@ != a.provider_name@,
        a.provider_constraint@ == "*"@,
        call_ensures(TaskDispatcher::handle_assign, (&d, &a, true), r),
    ensures
        r matches Ok(l) && l.program@ == d.providers@[k].1.binary@ && l.cwd@ == a.cwd@ && texts(
            l.args@,
        ) == filled(texts(d.providers@[k].1.args_template@), a.task@) && pairs(l.env@).contains(
            ("GRIMOIRE_AGENT_ID"@, a.agent_id@),
        ),
{
    lemma_provider_from(d.providers@, a.provider_name@, 0, k);
    if r is Ok {
        let env = pairs(r->Ok_0.env@);
        let n = d.providers@[k].1.env@.len() as int;
        assert(env.skip(n)[0] == ("GRIMOIRE_AGENT_ID"@, a.agent_id@));
        assert(env[n] == ("GRIMOIRE_AGENT_ID"@, a.agent_id@));
    }
}

/// A version that does not meet the constraint is a mismatch, and so is one
/// that cannot be read; one that meets it is accepted.
pub proof fn versions_must_match(
    d: TaskDispatcher,
    a: AssignTask,
    k: int,
    r: Result<Launch, Report>,
)
    requires
        a.wf(),
        !d.draining,
        d.in_flight < d.max_concurrent,
        0 <= k < d.providers@.len(),
        d.providers@[k].0@ == a.provider_name@,
        forall|j: int| 0 <= j < k ==> (#[trigger] d.providers@[j]).0@ != a.provider_name@,
        a.provider_constraint@.len() > 0,
        a.provider_constraint@ != "*"@,
        call_ensures(TaskDispatcher::handle_assign, (&d, &a, true), r),
    ensures
        r is Ok <==> requirement_valid(a.provider_constraint@) && version_valid(
            d.providers@[k].1.version@,
        ) && requirement_met(a.provider_constraint@, d.providers@[k].1.version@),
        r matches Err(e) ==> (e matches Report::Rejected { agent_id, reason } && agent_id@
            == a.agent_id@ && reason@ == "version_mismatch"@),
{
    lemma_provider_from(d.providers@, a.provider_name@, 0, k);
}

/// Each argument of a process is its template, with the task wherever the
/// template has a place for it.
pub proof fn templates_are_filled_one_by_one(templates: Seq<Seq<char>>, task: Seq<char>, i: int)
    requires
        0 <= i < templates.len(),
    ensures
        filled(templates, task).len() == templates.len(),
        templates[i] == "{task}"@ ==> filled(templates, task)[i] == task,
        filled(templates, task)[i] == replaced(templates[i], "{task}"@, task),
{
    if templates[i] == "{task}"@ {
        reveal_strlit("{task}");
        let t = "{task}"@;
        let nothing = Seq::<char>::empty();
        assert(nothing + t + nothing =~= t);
        crate::pieces::patterns_are_replaced(nothing, t, nothing, task);
        assert(nothing + task + replaced(nothing, t, task) =~= task);
    }
}

/// A started task is in flight and is reported as accepted; a finished one is
/// in flight no more and is reported with how it ended.
pub proof fn tasks_are_counted_and_reported(
    d: &mut TaskDispatcher,
    e: &mut TaskDispatcher,
    agent_id: &str,
    pid: Option<u32>,
    exit: Option<(bool, Option<i32>)>,
    accepted: Report,
    ended: Report,
)
    requires
        old(d).in_flight < u32::MAX,
        call_ensures(TaskDispatcher::started, (d, agent_id, pid), accepted),
        old(e).in_flight > 0,
        call_ensures(TaskDispatcher::finished, (e, agent_id, exit), ended),
    ensures
        final(d).in_flight == old(d).in_flight + 1,
        texts(final(d).running@).contains(agent_id@),
        accepted matches Report::Accepted { agent_id: a, pid: p } && a@ == agent_id@ && (pid
            matches Some(n) ==> p == n),
        final(e).in_flight == old(e).in_flight - 1,
        !texts(final(e).running@).contains(agent_id@),
        ended matches Report::Finished { agent_id: a, complete, exit_code } && a@ == agent_id@ && (
        exit is None ==> !complete && exit_code is None) && (exit matches Some((ok, code))
            ==> complete == ok && exit_code == code),
{
    let before = texts(old(d).running@);
    if !before.contains(agent_id@) {
        assert(before.push(agent_id@)[before.len() as int] == agent_id@);
    }
    let keep = |a: Seq<char>| a != agent_id@;
    let all = texts(old(e).running@);
    let left = all.filter(keep);
    if left.contains(agent_id@) {
        let i = choose|i: int| 0 <= i < left.len() && left[i] == agent_id@;
        all.lemma_filter_pred(keep, i);
    }
}

} // verus!
