//! The workers that have registered with the daemon: who they are, what they
//! offer, how loaded they are, and when they were last heard of.
//!
//! Instants are nanoseconds of a monotonic clock.

use crate::order::{text_before, text_le, text_le_reflexive, text_le_total, text_le_transitive};
use crate::text::{cat, own, same};
use crate::versions::{at_least, meets_requirement, requirement_met, requirement_valid, version_reaches, version_valid};
use vstd::prelude::*;
use vstd::string::*;

verus! {

/// The oldest worker that the daemon talks to.
pub const MIN_WORKER_VERSION: &'static str = "0.1.0";

/// A registered worker.
#[derive(Debug)]
pub struct Worker {
    pub worker_id: String,
    /// Name and version of each provider that it offers.
    pub providers: Vec<(String, String)>,
    pub tags: Vec<String>,
    pub max_concurrent: u32,
    pub in_flight: u32,
    pub last_heartbeat: u64,
}

/// What a worker registers with.
#[derive(Debug)]
pub struct RegisterParams {
    pub worker_id: String,
    pub bearer_ok: bool,
    pub worker_version: String,
    pub max_concurrent: u32,
    pub providers: Vec<(String, String)>,
    pub tags: Vec<String>,
}

/// The registry of workers.
#[derive(Debug)]
pub struct WorkerRegistry {
    pub workers: Vec<Worker>,
    pub eviction_after: u64,
}

/// Why a registration is refused.
#[derive(Debug)]
pub enum RegisterError {
    BadBearer,
    AlreadyRegistered { worker_id: String },
}

/// Whether a worker of that id is registered.
pub open spec fn known(workers: Seq<Worker>, id: Seq<char>) -> bool {
    exists|i: int| 0 <= i < workers.len() && (#[trigger] workers[i]).worker_id@ == id
}

/// Whether no two workers have one id.
pub open spec fn distinct(workers: Seq<Worker>) -> bool {
    forall|i: int, j: int|
        0 <= i < j < workers.len() ==> (#[trigger] workers[i]).worker_id@ != (
        #[trigger] workers[j]).worker_id@
}

/// Whether a worker has not been heard of for longer than allowed.
pub open spec fn stale(w: Worker, now: u64, eviction_after: u64) -> bool {
    now - w.last_heartbeat > eviction_after
}

/// Whether a requirement is met by a version.
pub open spec fn satisfies(requirement: Seq<char>, version: Seq<char>) -> bool {
    requirement_valid(requirement) && version_valid(version) && requirement_met(
        requirement,
        version,
    )
}

/// Whether a worker offers a provider in a version that meets a requirement.
pub open spec fn offers(w: Worker, provider: Seq<char>, requirement: Seq<char>) -> bool {
    exists|i: int|
        0 <= i < w.providers@.len() && (#[trigger] w.providers@[i]).0@ == provider && satisfies(
            requirement,
            w.providers@[i].1@,
        )
}

/// Whether a worker has room.
pub open spec fn has_room(w: Worker) -> bool {
    w.in_flight < w.max_concurrent
}

/// Whether `a` is picked before `b`: it is less loaded, or as loaded and its
/// id comes first.
pub open spec fn no_worse(a: Worker, b: Worker) -> bool {
    a.in_flight < b.in_flight || (a.in_flight == b.in_flight && text_le(
        a.worker_id@,
        b.worker_id@,
    ))
}

impl RegisterError {
    /// The error as a message for people.
    pub fn to_text(&self) -> (r: String)
        ensures
            r@ == (match self {
                RegisterError::BadBearer => "bad bearer token"@,
                RegisterError::AlreadyRegistered { worker_id } => "worker already registered: "@
                    + worker_id@,
            }),
    {
        match self {
            RegisterError::BadBearer => own("bad bearer token"),
            RegisterError::AlreadyRegistered { worker_id } => cat(
                "worker already registered: ",
                worker_id.as_str(),
            ),
        }
    }
}

/// Whether a worker offers a provider in a version that meets a requirement.
fn does_offer(w: &Worker, provider: &str, requirement: &str) -> (r: bool)
    ensures
        r == offers(*w, provider@, requirement@),
{
    let mut i: usize = 0;
    while i < w.providers.len()
        invariant
            i <= w.providers@.len(),
            forall|k: int|
                0 <= k < i ==> !((#[trigger] w.providers@[k]).0@ == provider@ && satisfies(
                    requirement@,
                    w.providers@[k].1@,
                )),
        decreases w.providers@.len() - i,
    {
        let (name, version) = &w.providers[i];
        if same(name.as_str(), provider) {
            match meets_requirement(requirement, version.as_str()) {
                Some(met) => {
                    if met {
                        assert(w.providers@[i as int].0@ == provider@);
                        return true;
                    }
                },
                None => {},
            }
        }
        i = i + 1;
    }
    false
}

/// The worker to pick among those that are wanted: the least loaded one that
/// has room, the first id among equals. `wanted[i]` says whether worker `i`
/// will do.
pub fn least_loaded(workers: &Vec<Worker>, wanted: &Vec<bool>) -> (r: Option<usize>)
    requires
        wanted@.len() == workers@.len(),
    ensures
        match r {
            Some(i) => {
                &&& i < workers@.len()
                &&& wanted@[i as int] && has_room(workers@[i as int])
                &&& forall|j: int|
                    0 <= j < workers@.len() && wanted@[j] && has_room(#[trigger] workers@[j])
                        ==> no_worse(workers@[i as int], workers@[j])
            },
            None => forall|j: int|
                0 <= j < workers@.len() && wanted@[j] ==> !has_room(#[trigger] workers@[j]),
        },
{
    let mut best: Option<usize> = None;
    let mut i: usize = 0;
    while i < workers.len()
        invariant
            i <= workers@.len(),
            wanted@.len() == workers@.len(),
            match best {
                Some(b) => {
                    &&& b < i
                    &&& wanted@[b as int] && has_room(workers@[b as int])
                    &&& forall|j: int|
                        0 <= j < i && wanted@[j] && has_room(#[trigger] workers@[j]) ==> no_worse(
                            workers@[b as int],
                            workers@[j],
                        )
                },
                None => forall|j: int|
                    0 <= j < i && wanted@[j] ==> !has_room(#[trigger] workers@[j]),
            },
        decreases workers@.len() - i,
    {
        let w = &workers[i];
        if wanted[i] && w.in_flight < w.max_concurrent {
            proof {
                text_le_reflexive(w.worker_id@);
            }
            match best {
                None => {
                    best = Some(i);
                },
                Some(b) => {
                    let held = &workers[b];
                    let keep = held.in_flight < w.in_flight || (held.in_flight == w.in_flight
                        && text_before(held.worker_id.as_str(), w.worker_id.as_str()));
                    if !keep {
                        proof {
                            text_le_total(held.worker_id@, w.worker_id@);
                            assert forall|j: int|
                                0 <= j < i + 1 && wanted@[j] && has_room(
                                    #[trigger] workers@[j],
                                ) implies no_worse(*w, workers@[j]) by {
                                if j < i {
                                    assert(no_worse(*held, workers@[j]));
                                    if held.in_flight == w.in_flight && held.in_flight
                                        == workers@[j].in_flight {
                                        text_le_transitive(
                                            w.worker_id@,
                                            held.worker_id@,
                                            workers@[j].worker_id@,
                                        );
                                    }
                                }
                            }
                        }
                        best = Some(i);
                    }
                },
            }
        }
        i = i + 1;
    }
    best
}

impl WorkerRegistry {
    /// What holds of every registry: each id is registered once.
    pub open spec fn wf(&self) -> bool {
        distinct(self.workers@)
    }

    /// A registry without workers.
    pub fn new(eviction_after: u64) -> (r: WorkerRegistry)
        ensures
            r.wf(),
            r.workers@.len() == 0,
            r.eviction_after == eviction_after,
    {
        WorkerRegistry { workers: Vec::new(), eviction_after }
    }

    fn find(&self, worker_id: &str) -> (r: Option<usize>)
        ensures
            match r {
                Some(i) => i < self.workers@.len() && self.workers@[i as int].worker_id@
                    == worker_id@,
                None => !known(self.workers@, worker_id@),
            },
    {
        let mut i: usize = 0;
        while i < self.workers.len()
            invariant
                i <= self.workers@.len(),
                forall|k: int|
                    0 <= k < i ==> (#[trigger] self.workers@[k]).worker_id@ != worker_id@,
            decreases self.workers@.len() - i,
        {
            if same(self.workers[i].worker_id.as_str(), worker_id) {
                return Some(i);
            }
            i = i + 1;
        }
        None
    }

    /// Registers a worker that has nothing in flight. A bad bearer token is
    /// refused, and so is an id that is taken.
    pub fn register(&mut self, params: RegisterParams, now: u64) -> (r: Result<(), RegisterError>)
        requires
            old(self).wf(),
        ensures
            final(self).wf(),
            final(self).eviction_after == old(self).eviction_after,
            match r {
                Ok(()) => {
                    &&& params.bearer_ok
                    &&& !known(old(self).workers@, params.worker_id@)
                    &&& final(self).workers@ == old(self).workers@.push(
                        final(self).workers@.last(),
                    )
                    &&& final(self).workers@.last() == (Worker {
                        worker_id: params.worker_id,
                        providers: params.providers,
                        tags: params.tags,
                        max_concurrent: params.max_concurrent,
                        in_flight: 0,
                        last_heartbeat: now,
                    })
                },
                Err(RegisterError::BadBearer) => !params.bearer_ok && final(self).workers
                    == old(self).workers,
                Err(RegisterError::AlreadyRegistered { worker_id }) => params.bearer_ok && known(
                    old(self).workers@,
                    params.worker_id@,
                ) && worker_id@ == params.worker_id@ && final(self).workers == old(self).workers,
            },
    {
        if !params.bearer_ok {
            return Err(RegisterError::BadBearer);
        }
        if let Some(i) = self.find(params.worker_id.as_str()) {
            assert(self.workers@[i as int].worker_id@ == params.worker_id@);
            return Err(RegisterError::AlreadyRegistered { worker_id: params.worker_id });
        }
        let worker = Worker {
            worker_id: params.worker_id,
            providers: params.providers,
            tags: params.tags,
            max_concurrent: params.max_concurrent,
            in_flight: 0,
            last_heartbeat: now,
        };
        let ghost before = self.workers@;
        self.workers.push(worker);
        assert(self.workers@ =~= before.push(self.workers@.last()));
        Ok(())
    }

    /// Takes a worker out, if it is there.
    pub fn evict(&mut self, worker_id: &str)
        requires
            old(self).wf(),
        ensures
            final(self).wf(),
            final(self).eviction_after == old(self).eviction_after,
            !known(final(self).workers@, worker_id@),
            !known(old(self).workers@, worker_id@) ==> final(self).workers == old(self).workers,
            forall|i: int|
                0 <= i < old(self).workers@.len() && (
                #[trigger] old(self).workers@[i]).worker_id@ == worker_id@ ==> final(self).workers@
                    == old(self).workers@.remove(i),
    {
        match self.find(worker_id) {
            Some(i) => {
                let ghost before = self.workers@;
                self.workers.remove(i);
                proof {
                    let after = self.workers@;
                    assert(after =~= before.remove(i as int));
                    assert forall|a: int, b: int| 0 <= a < b < after.len() implies (
                    #[trigger] after[a]).worker_id@ != (#[trigger] after[b]).worker_id@ by {
                        let x = if a < i {
                            a
                        } else {
                            a + 1
                        };
                        let y = if b < i {
                            b
                        } else {
                            b + 1
                        };
                        assert(after[a] == before[x]);
                        assert(after[b] == before[y]);
                    }
                    assert forall|a: int| 0 <= a < after.len() implies (
                    #[trigger] after[a]).worker_id@ != worker_id@ by {
                        let x = if a < i {
                            a
                        } else {
                            a + 1
                        };
                        assert(after[a] == before[x]);
                        assert(before[i as int].worker_id@ == worker_id@);
                    }
                }
            },
            None => {},
        }
    }

    /// Takes in that a worker is alive and how much it has in flight.
    pub fn record_heartbeat(&mut self, worker_id: &str, in_flight: u32, now: u64)
        requires
            old(self).wf(),
        ensures
            final(self).wf(),
            final(self).eviction_after == old(self).eviction_after,
            final(self).workers@.len() == old(self).workers@.len(),
            forall|i: int|
                0 <= i < old(self).workers@.len() ==> #[trigger] final(self).workers@[i] == (if old(self).workers@[i].worker_id@ == worker_id@ {
                    Worker { in_flight, last_heartbeat: now, ..old(self).workers@[i] }
                } else {
                    old(self).workers@[i]
                }),
    {
        match self.find(worker_id) {
            Some(i) => {
                let ghost before = self.workers@;
                let mut w = self.workers.remove(i);
                w.in_flight = in_flight;
                w.last_heartbeat = now;
                self.workers.insert(i, w);
                proof {
                    let after = self.workers@;
                    assert(after =~= before.update(i as int, w));
                    assert forall|k: int| 0 <= k < before.len() implies #[trigger] after[k] == (
                    if before[k].worker_id@ == worker_id@ {
                        Worker { in_flight, last_heartbeat: now, ..before[k] }
                    } else {
                        before[k]
                    }) by {
                        if k != i {
                            assert(before[i as int].worker_id@ == worker_id@);
                            if k < i {
                                assert(before[k].worker_id@ != before[i as int].worker_id@);
                            } else {
                                assert(before[i as int].worker_id@ != before[k].worker_id@);
                            }
                        }
                    }
                    assert forall|a: int, b: int| 0 <= a < b < after.len() implies (
                    #[trigger] after[a]).worker_id@ != (#[trigger] after[b]).worker_id@ by {
                        assert(after[a].worker_id@ == before[a].worker_id@);
                        assert(after[b].worker_id@ == before[b].worker_id@);
                    }
                }
            },
            None => {
                assert forall|k: int| 0 <= k < self.workers@.len() implies (
                #[trigger] self.workers@[k]).worker_id@ != worker_id@ by {
                    if self.workers@[k].worker_id@ == worker_id@ {
                        assert(known(self.workers@, worker_id@));
                    }
                }
            },
        }
    }

    /// Number of workers.
    pub fn count(&self) -> (r: usize)
        ensures
            r == self.workers@.len(),
    {
        self.workers.len()
    }

    /// Whether some worker offers a provider in a version that meets a
    /// requirement, loaded or not.
    pub fn has_eligible_worker(&self, provider_name: &str, constraint: &str) -> (r: bool)
        ensures
            r == exists|i: int|
                0 <= i < self.workers@.len() && offers(
                    #[trigger] self.workers@[i],
                    provider_name@,
                    constraint@,
                ),
    {
        let mut i: usize = 0;
        while i < self.workers.len()
            invariant
                i <= self.workers@.len(),
                forall|k: int|
                    0 <= k < i ==> !offers(
                        #[trigger] self.workers@[k],
                        provider_name@,
                        constraint@,
                    ),
            decreases self.workers@.len() - i,
        {
            if does_offer(&self.workers[i], provider_name, constraint) {
                assert(offers(self.workers@[i as int], provider_name@, constraint@));
                return true;
            }
            i = i + 1;
        }
        false
    }

    /// The id of the least loaded worker that has room and offers a provider
    /// in a version that meets a requirement; the first id among equals.
    pub fn pick_least_loaded(&self, provider_name: &str, constraint: &str) -> (r: Option<String>)
        ensures
            match r {
                Some(id) => exists|i: int|
                    0 <= i < self.workers@.len() && (#[trigger] self.workers@[i]).worker_id@ == id@
                        && has_room(self.workers@[i]) && offers(
                        self.workers@[i],
                        provider_name@,
                        constraint@,
                    ) && forall|j: int|
                        0 <= j < self.workers@.len() && has_room(#[trigger] self.workers@[j])
                            && offers(self.workers@[j], provider_name@, constraint@) ==> no_worse(
                            self.workers@[i],
                            self.workers@[j],
                        ),
                None => forall|j: int|
                    0 <= j < self.workers@.len() && offers(
                        #[trigger] self.workers@[j],
                        provider_name@,
                        constraint@,
                    ) ==> !has_room(self.workers@[j]),
            },
    {
        let mut wanted: Vec<bool> = Vec::new();
        for i in 0..self.workers.len()
            invariant
                wanted@.len() == i,
                forall|k: int|
                    0 <= k < i ==> #[trigger] wanted@[k] == offers(
                        self.workers@[k],
                        provider_name@,
                        constraint@,
                    ),
        {
            wanted.push(does_offer(&self.workers[i], provider_name, constraint));
        }
        match least_loaded(&self.workers, &wanted) {
            Some(i) => {
                assert(wanted@[i as int]);
                proof {
                    let w = self.workers@[i as int];
                    assert forall|j: int|
                        0 <= j < self.workers@.len() && has_room(#[trigger] self.workers@[j])
                            && offers(
                            self.workers@[j],
                            provider_name@,
                            constraint@,
                        ) implies no_worse(w, self.workers@[j]) by {
                        assert(wanted@[j]);
                    }
                    assert(w.worker_id@ == self.workers@[i as int].worker_id@);
                }
                Some(self.workers[i].worker_id.clone())
            },
            None => {
                assert forall|j: int|
                    0 <= j < self.workers@.len() && offers(
                        #[trigger] self.workers@[j],
                        provider_name@,
                        constraint@,
                    ) implies !has_room(self.workers@[j]) by {
                    assert(wanted@[j]);
                }
                None
            },
        }
    }

    /// Takes out every worker that has not been heard of for longer than
    /// allowed.
    pub fn run_eviction_pass(&mut self, now: u64)
        requires
            old(self).wf(),
        ensures
            final(self).wf(),
            final(self).eviction_after == old(self).eviction_after,
            final(self).workers@ == old(self).workers@.filter(
                |w: Worker| !stale(w, now, old(self).eviction_after),
            ),
    {
        let ghost before = self.workers@;
        let ghost keep = |w: Worker| !stale(w, now, self.eviction_after);
        let mut kept: Vec<Worker> = Vec::new();
        let mut rest: Vec<Worker> = Vec::new();
        std::mem::swap(&mut rest, &mut self.workers);
        assert(kept@ =~= before.take(0).filter(keep)) by {
            assert(before.take(0) =~= Seq::<Worker>::empty());
            reveal(Seq::filter);
        }
        let ghost mut done: int = 0;
        while rest.len() > 0
            invariant
                0 <= done <= before.len(),
                rest@ == before.skip(done),
                kept@ == before.take(done).filter(keep),
                keep == (|w: Worker| !stale(w, now, self.eviction_after)),
                self.eviction_after == old(self).eviction_after,
            decreases rest@.len(),
        {
            let w = rest.remove(0);
            proof {
                assert(before.skip(done)[0] == before[done]);
                assert(before.take(done + 1) =~= before.take(done).push(before[done]));
                before.take(done).lemma_filter_push(before[done], keep);
                assert(before.skip(done).remove(0) =~= before.skip(done + 1));
                done = done + 1;
            }
            let old_enough = now > w.last_heartbeat && now - w.last_heartbeat > self.eviction_after;
            if !old_enough {
                kept.push(w);
            }
        }
        proof {
            assert(before.take(done) =~= before);
            lemma_filter_distinct(before, keep);
        }
        self.workers = kept;
    }
}

proof fn lemma_filter_distinct(s: Seq<Worker>, keep: spec_fn(Worker) -> bool)
    requires
        distinct(s),
    ensures
        distinct(s.filter(keep)),
        forall|i: int| 0 <= i < s.filter(keep).len() ==> s.contains(#[trigger] s.filter(keep)[i]),
    decreases s.len(),
{
    reveal(Seq::filter);
    if s.len() > 0 {
        let init = s.drop_last();
        assert(distinct(init)) by {
            assert forall|i: int, j: int| 0 <= i < j < init.len() implies (
            #[trigger] init[i]).worker_id@ != (#[trigger] init[j]).worker_id@ by {
                assert(s[i].worker_id@ != s[j].worker_id@);
            }
        }
        lemma_filter_distinct(init, keep);
        let f = init.filter(keep);
        let g = s.filter(keep);
        assert forall|i: int| 0 <= i < f.len() implies s.contains(#[trigger] f[i]) by {
            let k = choose|k: int| 0 <= k < init.len() && init[k] == f[i];
            assert(s[k] == f[i]);
        }
        if keep(s.last()) {
            assert(g == f.push(s.last()));
            assert(s[s.len() - 1] == s.last());
            assert forall|i: int, j: int| 0 <= i < j < g.len() implies (
            #[trigger] g[i]).worker_id@ != (#[trigger] g[j]).worker_id@ by {
                if j == f.len() {
                    let k = choose|k: int| 0 <= k < init.len() && init[k] == f[i];
                    assert(s[k].worker_id@ != s[s.len() - 1].worker_id@);
                } else {
                    assert(f[i].worker_id@ != f[j].worker_id@);
                }
            }
        }
    }
}

/// Whether a worker's version is no older than [`MIN_WORKER_VERSION`]. A text
/// that is no version is too old.
pub fn worker_version_meets_minimum(version_str: &str) -> (r: bool)
    ensures
        r == (version_valid(version_str@) && version_valid("0.1.0"@) && version_reaches(
            version_str@,
            "0.1.0"@,
        )),
{
    match at_least(version_str, MIN_WORKER_VERSION) {
        Some(r) => r,
        None => false,
    }
}

// ---------------------------------------------------------------------------
// Laws
// ---------------------------------------------------------------------------

/// A worker is preferred to another with more in flight. Among workers with as
/// much, one whose id comes later is not, and of two that are told apart one
/// is.
pub proof fn lighter_workers_are_preferred(a: Worker, b: Worker)
    ensures
        a.in_flight < b.in_flight ==> no_worse(a, b) && !no_worse(b, a),
        a.in_flight == b.in_flight && a.worker_id@ != b.worker_id@ && text_le(
            a.worker_id@,
            b.worker_id@,
        ) ==> no_worse(a, b) && !no_worse(b, a),
        no_worse(a, b) || no_worse(b, a),
        a.max_concurrent == a.in_flight ==> !has_room(a),
        a.max_concurrent > a.in_flight ==> has_room(a),
{
    text_le_total(a.worker_id@, b.worker_id@);
    if text_le(a.worker_id@, b.worker_id@) && text_le(b.worker_id@, a.worker_id@) {
        crate::order::text_le_antisymmetric(a.worker_id@, b.worker_id@);
    }
}

/// A worker offers what it registered, in a version that meets the
/// requirement, wherever that stands in its list.
pub proof fn registered_providers_are_offered(
    w: Worker,
    provider: Seq<char>,
    requirement: Seq<char>,
    k: int,
)
    requires
        0 <= k < w.providers@.len(),
        w.providers@[k].0@ == provider,
        requirement_valid(requirement),
        version_valid(w.providers@[k].1@),
    ensures
        requirement_met(requirement, w.providers@[k].1@) ==> offers(w, provider, requirement),
        w.providers@.len() == 1 && !requirement_met(requirement, w.providers@[k].1@) ==> !offers(
            w,
            provider,
            requirement,
        ),
{
}

/// A provider that no worker offers is not picked for, loaded or not.
pub proof fn only_offered_providers_are_picked(
    registry: WorkerRegistry,
    provider: &str,
    constraint: &str,
    r: Option<String>,
    eligible: bool,
)
    requires
        call_ensures(WorkerRegistry::pick_least_loaded, (&registry, provider, constraint), r),
        call_ensures(
            WorkerRegistry::has_eligible_worker,
            (&registry, provider, constraint),
            eligible,
        ),
        forall|i: int, k: int|
            0 <= i < registry.workers@.len() && 0 <= k < registry.workers@[i].providers@.len()
                ==> (#[trigger] registry.workers@[i].providers@[k]).0@ != provider@
                || !requirement_met(constraint@, registry.workers@[i].providers@[k].1@),
    ensures
        r is None,
        !eligible,
{
    assert forall|i: int| 0 <= i < registry.workers@.len() implies !offers(
        #[trigger] registry.workers@[i],
        provider@,
        constraint@,
    ) by {
    }
}

/// A worker is given up exactly when more time than is allowed has passed
/// since it was last heard of.
pub proof fn silent_workers_are_given_up(w: Worker, now: u64, eviction_after: u64)
    ensures
        now > w.last_heartbeat + eviction_after <==> stale(w, now, eviction_after),
{
}

/// A worker with a good token and an id that is free is registered, with
/// nothing in flight and heard of now; any other is turned away and nothing
/// changes.
pub proof fn new_workers_are_registered(
    registry: &mut WorkerRegistry,
    params: RegisterParams,
    now: u64,
    r: Result<(), RegisterError>,
)
    requires
        old(registry).wf(),
        call_ensures(WorkerRegistry::register, (registry, params, now), r),
    ensures
        r is Ok <==> params.bearer_ok && !known(old(registry).workers@, params.worker_id@),
        r is Ok ==> final(registry).workers@.len() == old(registry).workers@.len() + 1
            && final(registry).workers@.drop_last() == old(registry).workers@,
        r is Ok ==> ({
            let w = final(registry).workers@.last();
            &&& w.worker_id@ == params.worker_id@
            &&& w.providers == params.providers
            &&& w.tags == params.tags
            &&& w.max_concurrent == params.max_concurrent
            &&& w.in_flight == 0
            &&& w.last_heartbeat == now
        }),
        r is Err ==> final(registry).workers@ == old(registry).workers@,
{
    if r is Ok {
        let after = final(registry).workers@;
        assert(after.len() == old(registry).workers@.len() + 1);
        assert(after.drop_last() =~= old(registry).workers@);
    }
}

/// A worker that beats is heard of now, with what it says is in flight; the
/// others are left as they are.
pub proof fn heartbeats_are_taken_in(
    registry: &mut WorkerRegistry,
    worker_id: &str,
    in_flight: u32,
    now: u64,
    i: int,
)
    requires
        old(registry).wf(),
        call_ensures(WorkerRegistry::record_heartbeat, (registry, worker_id, in_flight, now), ()),
        0 <= i < old(registry).workers@.len(),
    ensures
        final(registry).workers@.len() == old(registry).workers@.len(),
        ({
            let before = old(registry).workers@[i];
            let after = final(registry).workers@[i];
            &&& after.worker_id == before.worker_id
            &&& after.providers == before.providers
            &&& after.max_concurrent == before.max_concurrent
            &&& before.worker_id@ == worker_id@ ==> after.in_flight == in_flight
                && after.last_heartbeat == now
            &&& before.worker_id@ != worker_id@ ==> after == before
        }),
{
}

/// A worker that is taken out is known no more, and the others stay.
pub proof fn evicted_workers_are_gone(
    registry: &mut WorkerRegistry,
    worker_id: &str,
    other: Seq<char>,
)
    requires
        old(registry).wf(),
        call_ensures(WorkerRegistry::evict, (registry, worker_id), ()),
        other != worker_id@,
    ensures
        !known(final(registry).workers@, worker_id@),
        known(old(registry).workers@, other) ==> known(final(registry).workers@, other),
{
    let before = old(registry).workers@;
    let after = final(registry).workers@;
    if known(before, other) && known(before, worker_id@) {
        let i = choose|i: int| 0 <= i < before.len() && (#[trigger] before[i]).worker_id@
            == worker_id@;
        let k = choose|k: int| 0 <= k < before.len() && (#[trigger] before[k]).worker_id@ == other;
        assert(after == before.remove(i));
        if k < i {
            assert(after[k] == before[k]);
        } else {
            assert(after[k - 1] == before[k]);
        }
    }
}

/// After a pass the workers that were heard of in time are still there, in
/// their order, and no other is.
pub proof fn eviction_keeps_live_workers(registry: &mut WorkerRegistry, now: u64, w: Worker)
    requires
        old(registry).wf(),
        call_ensures(WorkerRegistry::run_eviction_pass, (registry, now), ()),
    ensures
        final(registry).workers@.contains(w) <==> old(registry).workers@.contains(w) && now
            <= w.last_heartbeat + old(registry).eviction_after,
{
    let keep = |w: Worker| !stale(w, now, old(registry).eviction_after);
    let before = old(registry).workers@;
    assert(final(registry).workers@ == before.filter(keep));
    if before.contains(w) && keep(w) {
        let i = choose|i: int| 0 <= i < before.len() && before[i] == w;
        before.lemma_filter_contains(keep, i);
    }
    if before.filter(keep).contains(w) {
        before.lemma_filter_contains_rev(keep, w);
        before.lemma_filter_pred(keep, choose|i: int|
            0 <= i < before.filter(keep).len() && before.filter(keep)[i] == w);
    }
}

} // verus!
