//! Restart supervision: policy evaluation, a windowed budget per agent, a
//! tree-depth cap, and the queue of restarts that are due later.
//!
//! - An agent that fails under an active policy is restarted, or its failure
//!   is escalated once its budget is spent.
//! - Restarts that wait are held in the order in which they fall due, so that
//!   the scheduler can take those that are.
//!
//! Instants are nanoseconds since the Unix epoch, except where a name says
//! seconds. Every decision is made from what the caller read: configuration,
//! depth, count of restarts, the word of the rate limiter.

use crate::bytes::{cut_to_bytes, cut_to_chars, first_chars, fitting};
use crate::decimal::{decimal, to_decimal};
use crate::order::{text_before, text_le, text_le_antisymmetric, text_le_reflexive, text_le_total, text_le_transitive};
use crate::text::{cat, copy_opt, copy_texts, opt_text, own, same, texts};
use crate::types::{events_view, mails_view, Address, AddressView, AgentState, EventView, Mail, MailState, MailView, RestartHistoryOutcome, RestartPolicy, StreamEvent, SupervisionConfig};
use vstd::prelude::*;
use vstd::string::*;

verus! {

/// Body cap for escalation mail, in bytes.
pub const ESCALATION_BODY_MAX_BYTES: usize = 16_384;

/// Nanoseconds of one second.
pub const SECOND: i64 = 1_000_000_000;

/// Delay between the decision to restart and the restart.
pub const RESTART_DELAY: i64 = 2_000_000_000;

/// Delay applied when the global rate cap denies a restart.
pub const RATE_LIMITED_DELAY: i64 = 60_000_000_000;

// ---------------------------------------------------------------------------
// Pending restarts
// ---------------------------------------------------------------------------

/// A restart that waits.
#[derive(Debug)]
pub struct PendingRestart {
    pub fire_at: i64,
    pub agent_id: String,
    pub attempt: u32,
}

/// What a [`PendingRestart`] holds.
#[verifier::ext_equal]
pub ghost struct PendingView {
    pub fire_at: i64,
    pub agent_id: Seq<char>,
    pub attempt: u32,
}

impl View for PendingRestart {
    type V = PendingView;

    open spec fn view(&self) -> PendingView {
        PendingView { fire_at: self.fire_at, agent_id: self.agent_id@, attempt: self.attempt }
    }
}

/// What each entry of a list holds.
pub open spec fn pending_view(entries: Seq<PendingRestart>) -> Seq<PendingView> {
    entries.map_values(|p: PendingRestart| p@)
}

/// Whether `a` comes no later than `b`: by instant, then by agent, then by
/// attempt.
pub open spec fn pending_le(a: PendingView, b: PendingView) -> bool {
    if a.fire_at != b.fire_at {
        a.fire_at < b.fire_at
    } else if a.agent_id != b.agent_id {
        text_le(a.agent_id, b.agent_id)
    } else {
        a.attempt <= b.attempt
    }
}

/// Whether the entries are in order.
pub open spec fn sorted(s: Seq<PendingView>) -> bool {
    forall|i: int, j: int| 0 <= i <= j < s.len() ==> pending_le(#[trigger] s[i], #[trigger] s[j])
}

proof fn lemma_pending_order(a: PendingView, b: PendingView, c: PendingView)
    ensures
        pending_le(a, a),
        pending_le(a, b) || pending_le(b, a),
        pending_le(a, b) && pending_le(b, c) ==> pending_le(a, c),
{
    text_le_reflexive(a.agent_id);
    text_le_total(a.agent_id, b.agent_id);
    if pending_le(a, b) && pending_le(b, c) {
        if a.fire_at == b.fire_at && b.fire_at == c.fire_at {
            if a.agent_id != b.agent_id && b.agent_id != c.agent_id {
                text_le_transitive(a.agent_id, b.agent_id, c.agent_id);
                if a.agent_id == c.agent_id {
                    text_le_antisymmetric(a.agent_id, b.agent_id);
                }
            }
        }
    }
}

/// Two entries of which each comes no later than the other are the same.
pub proof fn pending_le_antisymmetric(a: PendingView, b: PendingView)
    requires
        pending_le(a, b),
        pending_le(b, a),
    ensures
        a == b,
{
    if a.agent_id != b.agent_id {
        text_le_antisymmetric(a.agent_id, b.agent_id);
    }
}

impl PendingRestart {
    /// Whether `self` comes no later than `other`.
    pub fn no_later_than(&self, other: &PendingRestart) -> (r: bool)
        ensures
            r == pending_le(self@, other@),
    {
        if self.fire_at != other.fire_at {
            self.fire_at < other.fire_at
        } else if !same(self.agent_id.as_str(), other.agent_id.as_str()) {
            text_before(self.agent_id.as_str(), other.agent_id.as_str())
        } else {
            self.attempt <= other.attempt
        }
    }

    /// A copy of the entry.
    pub fn copy(&self) -> (r: PendingRestart)
        ensures
            r@ == self@,
    {
        PendingRestart {
            fire_at: self.fire_at,
            agent_id: self.agent_id.clone(),
            attempt: self.attempt,
        }
    }
}

/// The supervisor's own state.
pub struct Supervisor {
    pending: Vec<PendingRestart>,
    tree_depth_cap: u32,
}

/// What a [`Supervisor`] holds.
pub ghost struct SupervisorView {
    /// The restarts that wait, the earliest first.
    pub pending: Seq<PendingView>,
    pub tree_depth_cap: u32,
}

impl View for Supervisor {
    type V = SupervisorView;

    closed spec fn view(&self) -> SupervisorView {
        SupervisorView {
            pending: pending_view(self.pending@),
            tree_depth_cap: self.tree_depth_cap,
        }
    }
}

/// Whether a restart of the agent waits.
pub open spec fn awaits(s: Seq<PendingView>, agent_id: Seq<char>) -> bool {
    exists|i: int| 0 <= i < s.len() && (#[trigger] s[i]).agent_id == agent_id
}

/// The entries of other agents, in order.
pub open spec fn without_agent(s: Seq<PendingView>, agent_id: Seq<char>) -> Seq<PendingView> {
    s.filter(|p: PendingView| p.agent_id != agent_id)
}

impl Supervisor {
    /// What holds of every supervisor: its entries are in order.
    pub open spec fn wf(&self) -> bool {
        sorted(self@.pending)
    }

    /// A supervisor with nothing pending.
    pub fn new(tree_depth_cap: u32) -> (s: Supervisor)
        ensures
            s.wf(),
            s@.pending == Seq::<PendingView>::empty(),
            s@.tree_depth_cap == tree_depth_cap,
    {
        let s = Supervisor { pending: Vec::new(), tree_depth_cap };
        assert(s@.pending =~= Seq::<PendingView>::empty());
        s
    }

    /// Whether a restart of `agent_id` waits.
    pub fn is_pending(&self, agent_id: &str) -> (r: bool)
        ensures
            r == awaits(self@.pending, agent_id@),
    {
        let mut i: usize = 0;
        while i < self.pending.len()
            invariant
                i <= self.pending@.len(),
                forall|j: int| 0 <= j < i ==> (#[trigger] self.pending@[j]).agent_id@ != agent_id@,
            decreases self.pending@.len() - i,
        {
            if same(self.pending[i].agent_id.as_str(), agent_id) {
                assert(self@.pending[i as int].agent_id == agent_id@);
                return true;
            }
            i = i + 1;
        }
        assert forall|j: int| 0 <= j < self@.pending.len() implies (
        #[trigger] self@.pending[j]).agent_id != agent_id@ by {
            assert(self@.pending[j] == self.pending@[j]@);
        }
        false
    }

    /// Adds an entry, keeping the order.
    pub fn requeue(&mut self, entry: PendingRestart)
        requires
            old(self).wf(),
        ensures
            final(self).wf(),
            final(self)@.pending.to_multiset() == old(self)@.pending.to_multiset().insert(entry@),
            final(self)@.tree_depth_cap == old(self)@.tree_depth_cap,
    {
        let ghost before = self@.pending;
        let ghost x = entry@;
        let mut k: usize = 0;
        while k < self.pending.len() && self.pending[k].no_later_than(&entry)
            invariant
                k <= self.pending@.len(),
                before == pending_view(self.pending@),
                x == entry@,
                forall|i: int| 0 <= i < k ==> pending_le(#[trigger] before[i], x),
            decreases self.pending@.len() - k,
        {
            assert(before[k as int] == self.pending@[k as int]@);
            k = k + 1;
        }
        proof {
            if k < self.pending@.len() {
                assert(before[k as int] == self.pending@[k as int]@);
                lemma_pending_order(before[k as int], x, x);
            }
        }
        self.pending.insert(k, entry);
        proof {
            let after = self@.pending;
            assert(after =~= before.insert(k as int, x));
            assert forall|i: int, j: int| 0 <= i <= j < after.len() implies pending_le(
                #[trigger] after[i],
                #[trigger] after[j],
            ) by {
                lemma_pending_order(after[i], after[j], x);
                if i < k {
                    if j > k {
                        assert(after[j] == before[j - 1]);
                        assert(after[i] == before[i]);
                    } else if j < k {
                        assert(after[j] == before[j]);
                    }
                } else if i == k {
                    if j > k {
                        assert(after[j] == before[j - 1]);
                        lemma_pending_order(x, before[k as int], before[j - 1]);
                    }
                } else {
                    assert(after[i] == before[i - 1]);
                    assert(after[j] == before[j - 1]);
                }
            }
            vstd::seq_lib::to_multiset_insert(before, k as int, x);
        }
    }

    /// Takes out every entry of `agent_id`, and says how many there were.
    pub fn cancel_pending(&mut self, agent_id: &str) -> (removed: usize)
        requires
            old(self).wf(),
        ensures
            final(self).wf(),
            final(self)@.pending == without_agent(old(self)@.pending, agent_id@),
            final(self)@.tree_depth_cap == old(self)@.tree_depth_cap,
            removed == old(self)@.pending.len() - final(self)@.pending.len(),
            !awaits(final(self)@.pending, agent_id@),
    {
        let total: usize = self.pending.len();
        let ghost all = self@.pending;
        let ghost keep = |p: PendingView| p.agent_id != agent_id@;
        let mut kept: Vec<PendingRestart> = Vec::new();
        let mut i: usize = 0;
        assert(pending_view(kept@) =~= all.take(0).filter(keep)) by {
            assert(all.take(0) =~= Seq::<PendingView>::empty());
            reveal(Seq::filter);
        }
        while i < self.pending.len()
            invariant
                i <= self.pending@.len(),
                all == pending_view(self.pending@),
                keep == (|p: PendingView| p.agent_id != agent_id@),
                pending_view(kept@) == all.take(i as int).filter(keep),
            decreases self.pending@.len() - i,
        {
            proof {
                assert(all.take(i + 1) =~= all.take(i as int).push(all[i as int]));
                all.take(i as int).lemma_filter_push(all[i as int], keep);
                assert(all[i as int] == self.pending@[i as int]@);
            }
            if !same(self.pending[i].agent_id.as_str(), agent_id) {
                let ghost so_far = kept@;
                kept.push(self.pending[i].copy());
                assert(pending_view(kept@) =~= pending_view(so_far).push(all[i as int]));
            }
            i = i + 1;
        }
        proof {
            assert(all.take(all.len() as int) =~= all);
            all.lemma_filter_len(keep);
            assert(pending_view(kept@).len() == kept@.len());
        }
        let removed: usize = total - kept.len();
        self.pending = kept;
        proof {
            let now = self@.pending;
            assert(now == without_agent(all, agent_id@));
            lemma_filter_sorted(all, keep);
            assert forall|j: int| 0 <= j < now.len() implies (#[trigger] now[j]).agent_id
                != agent_id@ by {
                all.lemma_filter_pred(keep, j);
            }
        }
        removed
    }

    /// Takes out every entry that is due at `now`, the earliest first.
    pub fn drain_due(&mut self, now: i64) -> (out: Vec<PendingRestart>)
        requires
            old(self).wf(),
        ensures
            final(self).wf(),
            final(self)@.tree_depth_cap == old(self)@.tree_depth_cap,
            pending_view(out@) + final(self)@.pending == old(self)@.pending,
            forall|i: int| 0 <= i < out@.len() ==> (#[trigger] out@[i]).fire_at <= now,
            forall|i: int|
                0 <= i < final(self)@.pending.len() ==> (
                #[trigger] final(self)@.pending[i]).fire_at > now,
    {
        let ghost all = self@.pending;
        let mut k: usize = 0;
        while k < self.pending.len() && self.pending[k].fire_at <= now
            invariant
                k <= self.pending@.len(),
                forall|i: int| 0 <= i < k ==> (#[trigger] self.pending@[i]).fire_at <= now,
            decreases self.pending@.len() - k,
        {
            k = k + 1;
        }
        let ghost before = self.pending@;
        let rest = self.pending.split_off(k);
        let mut out = rest;
        std::mem::swap(&mut self.pending, &mut out);
        proof {
            assert(pending_view(out@) =~= all.take(k as int));
            assert(self@.pending =~= all.skip(k as int));
            assert(all.take(k as int) + all.skip(k as int) =~= all);
            assert forall|i: int| 0 <= i < self@.pending.len() implies (
            #[trigger] self@.pending[i]).fire_at > now by {
                assert(all[k as int] == before[k as int]@);
                assert(self@.pending[i] == all[k + i]);
                assert(pending_le(all[k as int], all[k + i]));
            }
            assert forall|i: int, j: int| 0 <= i <= j < self@.pending.len() implies pending_le(
                #[trigger] self@.pending[i],
                #[trigger] self@.pending[j],
            ) by {
                assert(pending_le(all[k + i], all[k + j]));
            }
        }
        out
    }

    /// The entries that wait, the earliest first.
    pub fn pending_snapshot(&self) -> (r: Vec<PendingRestart>)
        ensures
            pending_view(r@) == self@.pending,
    {
        let mut r: Vec<PendingRestart> = Vec::new();
        for i in 0..self.pending.len()
            invariant
                r@.len() == i,
                forall|j: int| 0 <= j < i ==> (#[trigger] r@[j])@ == self.pending@[j]@,
        {
            r.push(self.pending[i].copy());
        }
        assert(pending_view(r@) =~= self@.pending);
        r
    }
}

proof fn lemma_filter_sorted(s: Seq<PendingView>, keep: spec_fn(PendingView) -> bool)
    requires
        sorted(s),
    ensures
        sorted(s.filter(keep)),
        forall|i: int|
            0 <= i < s.filter(keep).len() ==> s.contains(#[trigger] s.filter(keep)[i]),
    decreases s.len(),
{
    reveal(Seq::filter);
    if s.len() > 0 {
        let init = s.drop_last();
        assert(sorted(init)) by {
            assert forall|i: int, j: int| 0 <= i <= j < init.len() implies pending_le(
                #[trigger] init[i],
                #[trigger] init[j],
            ) by {
                assert(pending_le(s[i], s[j]));
            }
        }
        lemma_filter_sorted(init, keep);
        let f = init.filter(keep);
        let g = s.filter(keep);
        assert forall|i: int| 0 <= i < f.len() implies s.contains(#[trigger] f[i]) by {
            let k = choose|k: int| 0 <= k < init.len() && init[k] == f[i];
            assert(s[k] == f[i]);
        }
        if keep(s.last()) {
            assert(g == f.push(s.last()));
            assert(s[s.len() - 1] == s.last());
            assert forall|i: int, j: int| 0 <= i <= j < g.len() implies pending_le(
                #[trigger] g[i],
                #[trigger] g[j],
            ) by {
                if j == f.len() {
                    if i < f.len() {
                        let k = choose|k: int| 0 <= k < init.len() && init[k] == f[i];
                        assert(pending_le(s[k], s[s.len() - 1]));
                    } else {
                        lemma_pending_order(g[i], g[j], g[j]);
                    }
                } else {
                    assert(pending_le(f[i], f[j]));
                }
            }
        }
    }
}

// ---------------------------------------------------------------------------
// Policy
// ---------------------------------------------------------------------------

/// Output of policy evaluation.
#[derive(Clone, Copy, Debug)]
pub enum RestartDecision {
    Restart { attempt: u32, fire_at: i64, rate_limited: bool },
    /// `reason` is `budget_spent` or `tree_depth_exceeded`.
    BudgetExhausted { reason: &'static str },
    NotSupervised,
}

/// Policy evaluation before the rate limiter is asked.
#[derive(Clone, Copy, Debug)]
pub enum Admission {
    /// A restart is owed; the rate limiter says when.
    Attempt { attempt: u32 },
    BudgetExhausted { reason: &'static str },
    NotSupervised,
}

/// Result of a restart that an operator asked for: either it was queued, or
/// it was declined with one of the codes `not_supervised`,
/// `tree_depth_exceeded`, `already_pending`, `bad_state`.
#[derive(Clone, Copy, Debug)]
pub enum ManualRestartOutcome {
    Scheduled { attempt: u32 },
    Rejected { reason: &'static str },
}

/// What a [`RestartDecision`] says.
pub ghost enum DecisionView {
    Restart { attempt: int, fire_at: int, rate_limited: bool },
    BudgetExhausted { reason: Seq<char> },
    NotSupervised,
}

/// What an [`Admission`] says.
pub ghost enum AdmissionView {
    Attempt { attempt: int },
    BudgetExhausted { reason: Seq<char> },
    NotSupervised,
}

/// What a [`ManualRestartOutcome`] says.
pub ghost enum ManualView {
    Scheduled { attempt: int },
    Rejected { reason: Seq<char> },
}

impl View for RestartDecision {
    type V = DecisionView;

    open spec fn view(&self) -> DecisionView {
        match *self {
            RestartDecision::Restart { attempt, fire_at, rate_limited } => DecisionView::Restart {
                attempt: attempt as int,
                fire_at: fire_at as int,
                rate_limited,
            },
            RestartDecision::BudgetExhausted { reason } => DecisionView::BudgetExhausted {
                reason: reason@,
            },
            RestartDecision::NotSupervised => DecisionView::NotSupervised,
        }
    }
}

impl View for Admission {
    type V = AdmissionView;

    open spec fn view(&self) -> AdmissionView {
        match *self {
            Admission::Attempt { attempt } => AdmissionView::Attempt { attempt: attempt as int },
            Admission::BudgetExhausted { reason } => AdmissionView::BudgetExhausted {
                reason: reason@,
            },
            Admission::NotSupervised => AdmissionView::NotSupervised,
        }
    }
}

impl View for ManualRestartOutcome {
    type V = ManualView;

    open spec fn view(&self) -> ManualView {
        match *self {
            ManualRestartOutcome::Scheduled { attempt } => ManualView::Scheduled {
                attempt: attempt as int,
            },
            ManualRestartOutcome::Rejected { reason } => ManualView::Rejected { reason: reason@ },
        }
    }
}

/// Whether the agent has a policy under which it is restarted.
pub open spec fn supervised(cfg: Option<SupervisionConfig>) -> bool {
    cfg matches Some(c) && c.policy != RestartPolicy::Never
}

/// The restarts that a configuration allows in one window.
pub open spec fn allowance(cfg: Option<SupervisionConfig>) -> u32 {
    match cfg {
        Some(c) => match c.max_restarts {
            Some(n) => n,
            None => 0,
        },
        None => 0,
    }
}

/// Start of the window in which restarts count, in seconds.
pub open spec fn window_start_of(cfg: Option<SupervisionConfig>, now_secs: int) -> int {
    now_secs - match cfg {
        Some(c) => match c.window_secs {
            Some(n) => n as int,
            None => 0,
        },
        None => 0,
    }
}

/// Whether one more step down the escalation tree would pass the cap.
pub open spec fn too_deep(depth: u32, cap: u32) -> bool {
    depth + 1 > cap
}

/// What the policy says of an agent that failed: `depth` is its depth in the
/// escalation tree, `count` its restarts in the window.
pub open spec fn admission(
    cfg: Option<SupervisionConfig>,
    depth: u32,
    cap: u32,
    count: u32,
) -> AdmissionView {
    if !supervised(cfg) {
        AdmissionView::NotSupervised
    } else if too_deep(depth, cap) {
        AdmissionView::BudgetExhausted { reason: "tree_depth_exceeded"@ }
    } else if count >= allowance(cfg) {
        AdmissionView::BudgetExhausted { reason: "budget_spent"@ }
    } else {
        AdmissionView::Attempt { attempt: count + 1 }
    }
}

/// When a restart that is owed fires.
pub open spec fn timed(attempt: int, now: int, allowed: bool) -> DecisionView {
    if allowed {
        DecisionView::Restart { attempt, fire_at: now + RESTART_DELAY, rate_limited: false }
    } else {
        DecisionView::Restart { attempt, fire_at: now + RATE_LIMITED_DELAY, rate_limited: true }
    }
}

/// The whole decision: the policy, then the word of the rate limiter.
pub open spec fn decision(
    cfg: Option<SupervisionConfig>,
    depth: u32,
    cap: u32,
    count: u32,
    now: int,
    allowed: bool,
) -> DecisionView {
    match admission(cfg, depth, cap, count) {
        AdmissionView::NotSupervised => DecisionView::NotSupervised,
        AdmissionView::BudgetExhausted { reason } => DecisionView::BudgetExhausted { reason },
        AdmissionView::Attempt { attempt } => timed(attempt, now, allowed),
    }
}

/// The restarts that a configuration allows in one window.
pub fn max_restarts(cfg: &Option<SupervisionConfig>) -> (r: u32)
    ensures
        r == allowance(*cfg),
{
    match cfg {
        Some(c) => match c.max_restarts {
            Some(n) => n,
            None => 0,
        },
        None => 0,
    }
}

/// Start of the window in which restarts count, in seconds.
pub fn window_start(cfg: &Option<SupervisionConfig>, now_secs: i64) -> (r: i64)
    requires
        now_secs >= i64::MIN + u32::MAX,
    ensures
        r == window_start_of(*cfg, now_secs as int),
{
    match cfg {
        Some(c) => match c.window_secs {
            Some(n) => now_secs - n as i64,
            None => now_secs,
        },
        None => now_secs,
    }
}

fn is_supervised(cfg: &Option<SupervisionConfig>) -> (r: bool)
    ensures
        r == supervised(*cfg),
{
    match cfg {
        Some(c) => match c.policy {
            RestartPolicy::Never => false,
            RestartPolicy::OnFailure => true,
        },
        None => false,
    }
}

impl Supervisor {
    /// Whether a state change is for the supervisor to evaluate: the agent
    /// failed, and no restart of it waits already.
    pub fn on_state_change(&self, agent_id: &str, new_state: AgentState) -> (r: bool)
        ensures
            r == (new_state == AgentState::Failed && !awaits(self@.pending, agent_id@)),
    {
        new_state.is_supervisable() && !self.is_pending(agent_id)
    }

    /// Evaluates the policy, up to the question to the rate limiter. The cap
    /// on the depth comes before the budget.
    pub fn weigh(&self, cfg: &Option<SupervisionConfig>, depth: u32, count: u32) -> (r: Admission)
        ensures
            r@ == admission(*cfg, depth, self@.tree_depth_cap, count),
    {
        if !is_supervised(cfg) {
            return Admission::NotSupervised;
        }
        if depth >= self.tree_depth_cap {
            return Admission::BudgetExhausted { reason: "tree_depth_exceeded" };
        }
        if count >= max_restarts(cfg) {
            return Admission::BudgetExhausted { reason: "budget_spent" };
        }
        Admission::Attempt { attempt: count + 1 }
    }

    /// Evaluates the restart policy of an agent. `allowed` is what the rate
    /// limiter said; it counts only where a restart is owed.
    pub fn evaluate(
        &self,
        cfg: &Option<SupervisionConfig>,
        depth: u32,
        count: u32,
        now: i64,
        allowed: bool,
    ) -> (r: RestartDecision)
        requires
            now <= i64::MAX - RATE_LIMITED_DELAY,
        ensures
            r@ == decision(*cfg, depth, self@.tree_depth_cap, count, now as int, allowed),
    {
        match self.weigh(cfg, depth, count) {
            Admission::NotSupervised => RestartDecision::NotSupervised,
            Admission::BudgetExhausted { reason } => RestartDecision::BudgetExhausted { reason },
            Admission::Attempt { attempt } => if allowed {
                RestartDecision::Restart {
                    attempt,
                    fire_at: now + RESTART_DELAY,
                    rate_limited: false,
                }
            } else {
                RestartDecision::Restart {
                    attempt,
                    fire_at: now + RATE_LIMITED_DELAY,
                    rate_limited: true,
                }
            },
        }
    }
}

// ---------------------------------------------------------------------------
// Restarts
// ---------------------------------------------------------------------------

/// A row of the restart history.
#[derive(Debug)]
pub struct HistoryRow {
    pub agent_id: String,
    pub at_secs: i64,
    pub outcome: RestartHistoryOutcome,
    pub error_summary: Option<String>,
}

/// What a [`HistoryRow`] holds.
pub ghost struct HistoryView {
    pub agent_id: Seq<char>,
    pub at_secs: i64,
    pub outcome: RestartHistoryOutcome,
    pub error_summary: Option<Seq<char>>,
}

impl View for HistoryRow {
    type V = HistoryView;

    open spec fn view(&self) -> HistoryView {
        HistoryView {
            agent_id: self.agent_id@,
            at_secs: self.at_secs,
            outcome: self.outcome,
            error_summary: opt_text(self.error_summary),
        }
    }
}

/// The events of a restart that was queued.
pub open spec fn restart_events(
    agent_id: Seq<char>,
    old_state: AgentState,
    attempt: u32,
    max: u32,
    fire_at: int,
    rate_limited: bool,
) -> Seq<EventView> {
    seq![
        EventView::StateChange { agent_id, old_state, new_state: AgentState::Restarting },
        EventView::RestartScheduled {
            agent_id,
            attempt,
            max,
            fire_at_unix: (fire_at / SECOND as int) as i64,
            rate_limited,
        },
    ]
}

/// The states from which an operator may restart an agent.
pub open spec fn restartable(state: Option<AgentState>) -> bool {
    state == Some(AgentState::Failed) || state == Some(AgentState::Dormant) || state == Some(
        AgentState::Complete,
    )
}

/// What an operator's request for a restart is answered. `state` is the
/// agent's, where it is known.
pub open spec fn manual_outcome(
    pending: bool,
    cfg: Option<SupervisionConfig>,
    depth: u32,
    cap: u32,
    state: Option<AgentState>,
    count: u32,
) -> ManualView {
    if pending {
        ManualView::Rejected { reason: "already_pending"@ }
    } else if !supervised(cfg) {
        ManualView::Rejected { reason: "not_supervised"@ }
    } else if too_deep(depth, cap) {
        ManualView::Rejected { reason: "tree_depth_exceeded"@ }
    } else if !restartable(state) {
        ManualView::Rejected { reason: "bad_state"@ }
    } else {
        ManualView::Scheduled { attempt: count + 1 }
    }
}

/// How the history marks a restart that an operator asked for.
pub open spec fn manual_summary(count: u32, max: u32) -> Seq<char> {
    "manual: operator override (budget was "@ + decimal(count as nat) + "/"@ + decimal(max as nat)
        + ")"@
}

impl Supervisor {
    /// Queues a restart whose row and state change have been written, and
    /// returns the events that tell of it.
    pub fn enqueue_restart_core(
        &mut self,
        agent_id: &str,
        attempt: u32,
        max: u32,
        fire_at: i64,
        old_state: AgentState,
        rate_limited: bool,
    ) -> (events: Vec<StreamEvent>)
        requires
            old(self).wf(),
        ensures
            final(self).wf(),
            final(self)@.tree_depth_cap == old(self)@.tree_depth_cap,
            final(self)@.pending.to_multiset() == old(self)@.pending.to_multiset().insert(
                PendingView { fire_at, agent_id: agent_id@, attempt },
            ),
            events_view(events@) == restart_events(
                agent_id@,
                old_state,
                attempt,
                max,
                fire_at as int,
                rate_limited,
            ),
    {
        self.requeue(PendingRestart { fire_at, agent_id: own(agent_id), attempt });
        let change = StreamEvent::StateChange {
            agent_id: own(agent_id),
            old_state,
            new_state: AgentState::Restarting,
        };
        let scheduled = StreamEvent::RestartScheduled {
            agent_id: own(agent_id),
            attempt,
            max,
            fire_at_unix: fire_at.checked_div_euclid(SECOND).unwrap(),
            rate_limited,
        };
        let events = vec![change, scheduled];
        assert(events_view(events@) =~= restart_events(
            agent_id@,
            old_state,
            attempt,
            max,
            fire_at as int,
            rate_limited,
        ));
        events
    }

    /// The row that records a restart under the policy.
    pub fn schedule_restart(&self, agent_id: &str, now_secs: i64, summary: &Option<String>) -> (row:
        HistoryRow)
        ensures
            row@ == (HistoryView {
                agent_id: agent_id@,
                at_secs: now_secs,
                outcome: RestartHistoryOutcome::Scheduled,
                error_summary: opt_text(*summary),
            }),
    {
        HistoryRow {
            agent_id: own(agent_id),
            at_secs: now_secs,
            outcome: RestartHistoryOutcome::Scheduled,
            error_summary: copy_opt(summary),
        }
    }

    /// Decides on a restart that an operator asked for. It passes over the
    /// windowed budget but respects the cap on the depth. Where it is granted
    /// the row that records it comes with it, marked as manual.
    pub fn manual_restart(
        &self,
        agent_id: &str,
        cfg: &Option<SupervisionConfig>,
        depth: u32,
        state: Option<AgentState>,
        count: u32,
        now_secs: i64,
    ) -> (r: (ManualRestartOutcome, Option<HistoryRow>))
        requires
            count < u32::MAX,
        ensures
            r.0@ == manual_outcome(
                awaits(self@.pending, agent_id@),
                *cfg,
                depth,
                self@.tree_depth_cap,
                state,
                count,
            ),
            r.1 is Some <==> r.0 is Scheduled,
            r.1 matches Some(row) ==> row@ == (HistoryView {
                agent_id: agent_id@,
                at_secs: now_secs,
                outcome: RestartHistoryOutcome::Scheduled,
                error_summary: Some(manual_summary(count, allowance(*cfg))),
            }),
    {
        if self.is_pending(agent_id) {
            return (ManualRestartOutcome::Rejected { reason: "already_pending" }, None);
        }
        if !is_supervised(cfg) {
            return (ManualRestartOutcome::Rejected { reason: "not_supervised" }, None);
        }
        if depth >= self.tree_depth_cap {
            return (ManualRestartOutcome::Rejected { reason: "tree_depth_exceeded" }, None);
        }
        let from_here = match state {
            Some(AgentState::Failed) => true,
            Some(AgentState::Dormant) => true,
            Some(AgentState::Complete) => true,
            _ => false,
        };
        if !from_here {
            return (ManualRestartOutcome::Rejected { reason: "bad_state" }, None);
        }
        let mut summary = own("manual: operator override (budget was ");
        summary.append(to_decimal(count as u64).as_str());
        summary.append("/");
        summary.append(to_decimal(max_restarts(cfg) as u64).as_str());
        summary.append(")");
        let row = HistoryRow {
            agent_id: own(agent_id),
            at_secs: now_secs,
            outcome: RestartHistoryOutcome::Scheduled,
            error_summary: Some(summary),
        };
        (ManualRestartOutcome::Scheduled { attempt: count + 1 }, Some(row))
    }
}

// ---------------------------------------------------------------------------
// Escalation
// ---------------------------------------------------------------------------

/// Number of characters of a body that an event shows.
pub const PREVIEW_CHARS: usize = 200;

/// Result of an escalation: how many rows were written, and to whom.
#[derive(Debug)]
pub struct EscalationOutcome {
    pub fanout_count: u32,
    pub recipient_ids: Vec<String>,
}

/// What an escalation writes and tells.
#[derive(Debug)]
pub struct EscalationPlan {
    pub mails: Vec<Mail>,
    pub events: Vec<StreamEvent>,
    pub outcome: EscalationOutcome,
}

/// The agents that an escalation reaches: one, or the topic's subscribers.
pub open spec fn escalation_recipients(to: AddressView, subscribers: Seq<Seq<char>>) -> Seq<
    Seq<char>,
> {
    match to {
        AddressView::Agent(id) => seq![id],
        AddressView::Topic(_) => subscribers,
        AddressView::FederatedAgent { .. } => seq![],
    }
}

/// The topic of an escalation, where it goes to one.
pub open spec fn escalation_topic(to: AddressView) -> Option<Seq<char>> {
    match to {
        AddressView::Topic(t) => Some(t),
        _ => None,
    }
}

/// The id of an escalation mail, from a freshly drawn short id.
pub open spec fn escalation_mail_id(short_id: Seq<char>) -> Seq<char> {
    "em"@ + short_id.take(6)
}

/// A system mail row: pending, and able to wake its recipient.
pub open spec fn system_mail(
    id: Seq<char>,
    recipient_id: Seq<char>,
    sender_id: Seq<char>,
    topic: Option<Seq<char>>,
    body: Seq<char>,
    now: i64,
) -> MailView {
    MailView {
        id,
        recipient_id,
        sender_id: Some(sender_id),
        topic,
        body,
        in_reply_to: None,
        state: MailState::Pending,
        fail_reason: None,
        created_at: now,
        delivered_at: None,
        seq: 0,
        wake_eligible: true,
    }
}

/// The event of a system mail row.
pub open spec fn system_mail_event(m: MailView) -> EventView {
    EventView::MailReceived {
        mail_id: m.id,
        recipient_id: m.recipient_id,
        sender_id: m.sender_id,
        topic: m.topic,
        body_preview: first_chars(m.body, PREVIEW_CHARS as nat),
        wake_eligible: true,
        origin_daemon_id: None,
    }
}

/// The rows of an escalation: one per recipient, in order.
pub open spec fn escalation_mails(
    sender_id: Seq<char>,
    to: AddressView,
    body: Seq<char>,
    subscribers: Seq<Seq<char>>,
    short_ids: Seq<Seq<char>>,
    now: i64,
) -> Seq<MailView> {
    let recipients = escalation_recipients(to, subscribers);
    Seq::new(
        recipients.len(),
        |i: int|
            system_mail(
                escalation_mail_id(short_ids[i]),
                recipients[i],
                sender_id,
                escalation_topic(to),
                body,
                now,
            ),
    )
}

/// A system mail row.
pub fn build_system_mail(
    id: String,
    recipient_id: &str,
    sender_id: &str,
    topic: &Option<String>,
    body: &str,
    now: i64,
) -> (m: Mail)
    ensures
        m@ == system_mail(id@, recipient_id@, sender_id@, opt_text(*topic), body@, now),
{
    Mail {
        id,
        recipient_id: own(recipient_id),
        sender_id: Some(own(sender_id)),
        topic: copy_opt(topic),
        body: own(body),
        in_reply_to: None,
        state: MailState::Pending,
        fail_reason: None,
        created_at: now,
        delivered_at: None,
        seq: 0,
        wake_eligible: true,
    }
}

/// The event of a system mail row.
pub fn build_system_mail_event(m: &Mail) -> (e: StreamEvent)
    ensures
        e@ == system_mail_event(m@),
{
    StreamEvent::MailReceived {
        mail_id: m.id.clone(),
        recipient_id: m.recipient_id.clone(),
        sender_id: copy_opt(&m.sender_id),
        topic: copy_opt(&m.topic),
        body_preview: cut_to_chars(m.body.as_str(), PREVIEW_CHARS),
        wake_eligible: true,
        origin_daemon_id: None,
    }
}

/// Why an escalation is not sent: its target is no address, or an agent of
/// another daemon, which cannot be reached.
pub open spec fn escalation_refused(to: Result<Address, String>) -> Option<Seq<char>> {
    match to {
        Err(why) => Some("invalid escalate_to: "@ + why@),
        Ok(a) => if a@ is FederatedAgent {
            Some("escalate_to_federated_unsupported"@)
        } else {
            None
        },
    }
}

/// Plans the mail of an escalation: one row per recipient, from
/// `sender_id`. `to` is the address that the target parses to, or why it is
/// none; `subscribers` are those of the topic, `short_ids` freshly drawn, one
/// per recipient.
pub fn send_escalation(
    sender_id: &str,
    to: &Result<Address, String>,
    body: &str,
    subscribers: &Vec<String>,
    short_ids: &Vec<String>,
    now: i64,
) -> (r: Result<EscalationPlan, String>)
    requires
        subscribers@.len() <= u32::MAX,
        to matches Ok(a) ==> short_ids@.len() >= escalation_recipients(
            a@,
            texts(subscribers@),
        ).len(),
        forall|i: int| 0 <= i < short_ids@.len() ==> (#[trigger] short_ids@[i])@.len() >= 6,
    ensures
        match r {
            Ok(plan) => {
                let mails = escalation_mails(
                    sender_id@,
                    to->Ok_0@,
                    body@,
                    texts(subscribers@),
                    texts(short_ids@),
                    now,
                );
                let recipients = escalation_recipients(to->Ok_0@, texts(subscribers@));
                &&& escalation_refused(*to) is None
                &&& mails_view(plan.mails@) == mails
                &&& events_view(plan.events@) == mails.map_values(|m: MailView| system_mail_event(m))
                &&& plan.outcome.fanout_count == recipients.len()
                &&& texts(plan.outcome.recipient_ids@) == recipients
            },
            Err(e) => escalation_refused(*to) == Some(e@),
        },
{
    let to = match to {
        Ok(a) => a,
        Err(why) => return Err(cat("invalid escalate_to: ", why.as_str())),
    };
    let topic: Option<String> = match to {
        Address::Topic(t) => Some(t.clone()),
        _ => None,
    };
    let recipients: Vec<String> = match to {
        Address::Agent(id) => vec![id.clone()],
        Address::Topic(_) => copy_texts(subscribers),
        Address::FederatedAgent { .. } => return Err(own("escalate_to_federated_unsupported")),
    };
    let ghost want = escalation_recipients(to@, texts(subscribers@));
    assert(texts(recipients@) =~= want);
    let ghost rows = escalation_mails(
        sender_id@,
        to@,
        body@,
        texts(subscribers@),
        texts(short_ids@),
        now,
    );
    let ghost tell = rows.map_values(|m: MailView| system_mail_event(m));
    let mut mails: Vec<Mail> = Vec::new();
    let mut events: Vec<StreamEvent> = Vec::new();
    assert(recipients@.len() == texts(recipients@).len());
    for i in 0..recipients.len()
        invariant
            texts(recipients@) == want,
            recipients@.len() == want.len(),
            rows.len() == want.len(),
            tell == rows.map_values(|m: MailView| system_mail_event(m)),
            want == escalation_recipients(to@, texts(subscribers@)),
            rows == escalation_mails(
                sender_id@,
                to@,
                body@,
                texts(subscribers@),
                texts(short_ids@),
                now,
            ),
            opt_text(topic) == escalation_topic(to@),
            short_ids@.len() >= want.len(),
            forall|k: int| 0 <= k < short_ids@.len() ==> (#[trigger] short_ids@[k])@.len() >= 6,
            mails@.len() == i,
            events@.len() == i,
            forall|k: int| 0 <= k < i ==> (#[trigger] mails@[k])@ == rows[k],
            forall|k: int| 0 <= k < i ==> (#[trigger] events@[k])@ == tell[k],
    {
        assert(short_ids@[i as int]@.len() >= 6);
        let id = cat("em", cut_to_chars(short_ids[i].as_str(), 6).as_str());
        proof {
            assert(texts(short_ids@)[i as int] == short_ids@[i as int]@);
            assert(want[i as int] == recipients@[i as int]@);
            assert(id@ =~= escalation_mail_id(short_ids@[i as int]@));
        }
        let m = build_system_mail(id, recipients[i].as_str(), sender_id, &topic, body, now);
        events.push(build_system_mail_event(&m));
        mails.push(m);
    }
    assert(mails_view(mails@) =~= rows);
    assert(events_view(events@) =~= tell);
    Ok(
        EscalationPlan {
            mails,
            events,
            outcome: EscalationOutcome {
                fanout_count: recipients.len() as u32,
                recipient_ids: recipients,
            },
        },
    )
}

/// Mail that an exhausted budget asks for.
#[derive(Debug)]
pub struct EscalationRequest {
    pub sender_id: String,
    pub target: String,
    pub body: String,
}

/// What an exhausted budget writes, tells and asks for.
#[derive(Debug)]
pub struct Exhaustion {
    pub row: HistoryRow,
    pub event: StreamEvent,
    pub escalation: Option<EscalationRequest>,
}

/// The whole text of an escalation.
pub open spec fn escalation_text(agent_id: Seq<char>, summary: Option<Seq<char>>) -> Seq<char> {
    "[supervisor] agent "@ + agent_id + " failed (budget exhausted): "@ + match summary {
        Some(s) => s,
        None => "unknown"@,
    }
}

/// The target of an escalation: none where the depth is exceeded, for the
/// point then is to stop.
pub open spec fn escalation_target(reason: Seq<char>, cfg: Option<SupervisionConfig>) -> Option<
    Seq<char>,
> {
    if reason == "tree_depth_exceeded"@ {
        None
    } else {
        match cfg {
            Some(c) => opt_text(c.escalate_to),
            None => None,
        }
    }
}

/// Plans what follows an exhausted budget. `summary` is the agent's last
/// error, where there is one.
pub fn handle_budget_exhausted(
    agent_id: &str,
    reason: &str,
    cfg: &Option<SupervisionConfig>,
    summary: &Option<String>,
    now_secs: i64,
) -> (r: Exhaustion)
    ensures
        r.row@ == (HistoryView {
            agent_id: agent_id@,
            at_secs: now_secs,
            outcome: RestartHistoryOutcome::BudgetExhausted,
            error_summary: opt_text(*summary),
        }),
        r.event@ == (EventView::RestartBudgetExhausted { agent_id: agent_id@, reason: reason@ }),
        match r.escalation {
            Some(e) => {
                &&& escalation_target(reason@, *cfg) == Some(e.target@)
                &&& e.sender_id@ == "supervisor://"@ + agent_id@
                &&& e.body@ == fitting(
                    escalation_text(agent_id@, opt_text(*summary)),
                    ESCALATION_BODY_MAX_BYTES as nat,
                )
            },
            None => escalation_target(reason@, *cfg) is None,
        },
{
    let row = HistoryRow {
        agent_id: own(agent_id),
        at_secs: now_secs,
        outcome: RestartHistoryOutcome::BudgetExhausted,
        error_summary: copy_opt(summary),
    };
    let event = StreamEvent::RestartBudgetExhausted { agent_id: own(agent_id), reason: own(reason) };
    let target: Option<String> = if same(reason, "tree_depth_exceeded") {
        None
    } else {
        match cfg {
            Some(c) => copy_opt(&c.escalate_to),
            None => None,
        }
    };
    let escalation = match target {
        Some(target) => {
            let mut text = own("[supervisor] agent ");
            text.append(agent_id);
            text.append(" failed (budget exhausted): ");
            match summary {
                Some(s) => text.append(s.as_str()),
                None => text.append("unknown"),
            }
            Some(
                EscalationRequest {
                    sender_id: cat("supervisor://", agent_id),
                    target,
                    body: cut_to_bytes(text.as_str(), ESCALATION_BODY_MAX_BYTES),
                },
            )
        },
        None => None,
    };
    Exhaustion { row, event, escalation }
}

/// The depth of a recipient after it was escalated to.
pub open spec fn propagated(current: u32, depth: u32) -> int {
    if current >= depth + 1 {
        current as int
    } else {
        depth + 1
    }
}

/// The depth of a recipient that stood at `current`, after an agent at
/// `depth` escalated to it.
pub fn propagated_depth(current: u32, depth: u32) -> (r: u32)
    requires
        depth < u32::MAX,
    ensures
        r == propagated(current, depth),
{
    if current >= depth + 1 {
        current
    } else {
        depth + 1
    }
}

/// One recorded event of an agent.
#[derive(Debug)]
pub struct AgentEventRow {
    pub event_type: String,
    pub payload: String,
}

/// Whether a recorded event tells of an error.
pub open spec fn error_event(e: AgentEventRow) -> bool {
    e.event_type@ == "stderr"@ && e.payload@.len() > 0
}

/// The last error among recorded events, the latest last: its first
/// characters.
pub open spec fn error_summary(events: Seq<AgentEventRow>) -> Option<Seq<char>>
    decreases events.len(),
{
    if events.len() == 0 {
        None
    } else if error_event(events.last()) {
        Some(first_chars(events.last().payload@, 200))
    } else {
        error_summary(events.drop_last())
    }
}

/// Best-effort summary of an agent's last error.
pub fn last_error_summary(events: &Vec<AgentEventRow>) -> (r: Option<String>)
    ensures
        opt_text(r) == error_summary(events@),
{
    let mut n: usize = events.len();
    assert(events@.take(events@.len() as int) =~= events@);
    while n > 0
        invariant
            n <= events@.len(),
            error_summary(events@) == error_summary(events@.take(n as int)),
        decreases n,
    {
        let e = &events[n - 1];
        assert(events@.take(n as int).last() == *e);
        assert(events@.take(n as int).drop_last() =~= events@.take(n - 1));
        if same(e.event_type.as_str(), "stderr") && !e.payload.as_str().is_empty() {
            return Some(cut_to_chars(e.payload.as_str(), 200));
        }
        n = n - 1;
    }
    None
}

/// What a boot does about an agent that is found failed: nothing where it
/// was escalated already; otherwise what the policy says, with a restart
/// that is owed fired at once.
pub fn replay_pending_on_boot(already_escalated: bool, decided: RestartDecision, now: i64) -> (r:
    RestartDecision)
    ensures
        r@ == if already_escalated {
            DecisionView::NotSupervised
        } else {
            match decided@ {
                DecisionView::Restart { attempt, .. } => DecisionView::Restart {
                    attempt,
                    fire_at: now as int,
                    rate_limited: false,
                },
                other => other,
            }
        },
{
    if already_escalated {
        return RestartDecision::NotSupervised;
    }
    match decided {
        RestartDecision::Restart { attempt, .. } => RestartDecision::Restart {
            attempt,
            fire_at: now,
            rate_limited: false,
        },
        RestartDecision::BudgetExhausted { reason } => RestartDecision::BudgetExhausted { reason },
        RestartDecision::NotSupervised => RestartDecision::NotSupervised,
    }
}

// ---------------------------------------------------------------------------
// Laws
// ---------------------------------------------------------------------------

/// The cap on the depth overrides the budget: an agent whose next step would
/// pass it is restarted neither by policy nor by an operator.
pub proof fn depth_cap_is_final(
    pending: bool,
    cfg: Option<SupervisionConfig>,
    depth: u32,
    cap: u32,
    state: Option<AgentState>,
    count: u32,
    now: int,
    allowed: bool,
)
    requires
        too_deep(depth, cap),
    ensures
        !(decision(cfg, depth, cap, count, now, allowed) is Restart),
        manual_outcome(pending, cfg, depth, cap, state, count) is Rejected,
{
}

/// A restart under the policy stays within the budget, and fires no sooner
/// than the fixed delay.
pub proof fn policy_restarts_within_budget(
    cfg: Option<SupervisionConfig>,
    depth: u32,
    cap: u32,
    count: u32,
    now: int,
    allowed: bool,
)
    ensures
        decision(cfg, depth, cap, count, now, allowed) matches DecisionView::Restart {
            attempt,
            fire_at,
            ..
        } ==> 1 <= attempt <= allowance(cfg) && fire_at >= now + RESTART_DELAY,
{
}

/// What waits and is due is taken out: however a queue in order is split into
/// what is due and what is not, every due entry is in the first part.
pub proof fn due_entries_are_drained(
    queue: Seq<PendingView>,
    out: Seq<PendingView>,
    rest: Seq<PendingView>,
    now: i64,
    e: PendingView,
)
    requires
        out + rest == queue,
        forall|i: int| 0 <= i < rest.len() ==> (#[trigger] rest[i]).fire_at > now,
        queue.contains(e),
        e.fire_at <= now,
    ensures
        out.contains(e),
{
    let k = choose|k: int| 0 <= k < queue.len() && queue[k] == e;
    if k >= out.len() {
        assert(rest[k - out.len()] == e);
    } else {
        assert(out[k] == e);
    }
}

/// Queues in order with the same entries are the same, so the queue's
/// contents say in which order restarts fire.
pub proof fn queue_order_is_determined(a: Seq<PendingView>, b: Seq<PendingView>)
    requires
        sorted(a),
        sorted(b),
        a.to_multiset() == b.to_multiset(),
    ensures
        a == b,
{
    let leq = |x: PendingView, y: PendingView| pending_le(x, y);
    assert(vstd::relations::total_ordering(leq)) by {
        assert forall|x: PendingView, y: PendingView| #[trigger] leq(x, y) && #[trigger] leq(
            y,
            x,
        ) implies x == y by {
            pending_le_antisymmetric(x, y);
        }
        assert forall|x: PendingView| #[trigger] leq(x, x) by {
            lemma_pending_order(x, x, x);
        }
        assert forall|x: PendingView, y: PendingView, z: PendingView|
            #[trigger] leq(x, y) && #[trigger] leq(y, z) implies leq(x, z) by {
            lemma_pending_order(x, y, z);
        }
        assert forall|x: PendingView, y: PendingView| #[trigger] leq(x, y) || #[trigger] leq(
            y,
            x,
        ) by {
            lemma_pending_order(x, y, y);
        }
    }
    vstd::seq_lib::lemma_sorted_unique(a, b, leq);
}

/// Each escalation goes at least one step deeper than the agent that it is
/// about, and never makes a recipient shallower: after as many as the cap
/// allows, nothing restarts.
pub proof fn escalation_deepens(current: u32, depth: u32)
    ensures
        propagated(current, depth) >= depth + 1,
        propagated(current, depth) >= current,
{
}

/// An escalation's body never exceeds its cap in bytes.
pub proof fn escalation_body_within_cap(agent_id: Seq<char>, summary: Option<Seq<char>>)
    ensures
        crate::text::utf8_len(
            fitting(escalation_text(agent_id, summary), ESCALATION_BODY_MAX_BYTES as nat),
        ) <= ESCALATION_BODY_MAX_BYTES,
{
    crate::bytes::fitting_is_longest_prefix(
        escalation_text(agent_id, summary),
        ESCALATION_BODY_MAX_BYTES as nat,
    );
}

/// An operator's restart is granted exactly when none of the agent waits, its
/// policy is to restart on failure, one more step stays within the cap on the
/// depth, and the agent has failed, sleeps or is complete. The budget plays no
/// part, and the attempt is one more than the restarts so far.
pub proof fn operator_restarts_are_granted(
    pending: bool,
    cfg: Option<SupervisionConfig>,
    depth: u32,
    cap: u32,
    state: Option<AgentState>,
    count: u32,
)
    ensures
        ({
            let outcome = manual_outcome(pending, cfg, depth, cap, state, count);
            let on_failure = cfg is Some && cfg->0.policy == RestartPolicy::OnFailure;
            let at_rest = state == Some(AgentState::Failed) || state == Some(AgentState::Dormant)
                || state == Some(AgentState::Complete);
            &&& outcome is Scheduled <==> !pending && on_failure && depth < cap && at_rest
            &&& outcome matches ManualView::Scheduled { attempt } ==> attempt == count + 1
            &&& pending ==> outcome == (ManualView::Rejected { reason: "already_pending"@ })
            &&& !pending && !on_failure ==> outcome == (ManualView::Rejected {
                reason: "not_supervised"@,
            })
            &&& !pending && on_failure && depth >= cap ==> outcome == (ManualView::Rejected {
                reason: "tree_depth_exceeded"@,
            })
            &&& !pending && on_failure && depth < cap && !at_rest ==> outcome == (
            ManualView::Rejected { reason: "bad_state"@ })
        }),
{
}

/// A failed agent is restarted by its policy exactly when that is to restart
/// on failure, the depth allows one more step, and fewer restarts were made in
/// the window than its budget names. It then waits two seconds, or a minute
/// where too many agents restart at once.
pub proof fn policy_restarts_are_owed(
    cfg: Option<SupervisionConfig>,
    depth: u32,
    cap: u32,
    count: u32,
    now: int,
    allowed: bool,
)
    ensures
        ({
            let d = decision(cfg, depth, cap, count, now, allowed);
            let on_failure = cfg is Some && cfg->0.policy == RestartPolicy::OnFailure;
            let room = cfg is Some && cfg->0.max_restarts is Some && count < cfg->0.max_restarts->0;
            &&& d is Restart <==> on_failure && depth < cap && room
            &&& d is NotSupervised <==> !on_failure
            &&& on_failure && depth >= cap ==> d == (DecisionView::BudgetExhausted {
                reason: "tree_depth_exceeded"@,
            })
            &&& on_failure && depth < cap && !room ==> d == (DecisionView::BudgetExhausted {
                reason: "budget_spent"@,
            })
            &&& d matches DecisionView::Restart { attempt, fire_at, rate_limited } ==> {
                &&& attempt == count + 1
                &&& rate_limited == !allowed
                &&& fire_at - now == (if allowed {
                    2_000_000_000int
                } else {
                    60_000_000_000int
                })
            }
        }),
{
}

/// The window in which restarts count reaches back from now by as many seconds
/// as it is long.
pub proof fn windows_reach_back(cfg: SupervisionConfig, secs: u32, now_secs: int)
    requires
        cfg.window_secs == Some(secs),
    ensures
        now_secs - window_start_of(Some(cfg), now_secs) == secs,
{
}

/// What is told of a restart: the agent goes from its state to waiting for the
/// restart, then when that comes, in whole seconds, and which of how many it
/// is.
pub proof fn restarts_are_told(
    agent_id: Seq<char>,
    old_state: AgentState,
    attempt: u32,
    max: u32,
    fire_at: i64,
    rate_limited: bool,
)
    ensures
        ({
            let told = restart_events(agent_id, old_state, attempt, max, fire_at as int, rate_limited);
            &&& told.len() == 2
            &&& told[0] == (EventView::StateChange {
                agent_id,
                old_state,
                new_state: AgentState::Restarting,
            })
            &&& told[1] matches EventView::RestartScheduled {
                agent_id: who,
                attempt: a,
                max: m,
                fire_at_unix,
                rate_limited: late,
            } && who == agent_id && a == attempt && m == max && late == rate_limited && 0
                <= fire_at - fire_at_unix * 1_000_000_000 < 1_000_000_000
        }),
{
}

/// An escalation reaches each of its recipients once, in order: pending mail
/// with the whole body, from the supervisor, able to wake, whose id starts
/// with "em".
pub proof fn escalations_reach_everyone(
    sender_id: Seq<char>,
    to: AddressView,
    body: Seq<char>,
    subscribers: Seq<Seq<char>>,
    short_ids: Seq<Seq<char>>,
    now: i64,
    i: int,
)
    requires
        !(to is FederatedAgent),
        to is Topic ==> 0 <= i < subscribers.len(),
        to is Agent ==> i == 0,
        short_ids[i].len() >= 6,
    ensures
        ({
            let mails = escalation_mails(sender_id, to, body, subscribers, short_ids, now);
            let m = mails[i];
            &&& mails.len() == (if to is Topic {
                subscribers.len()
            } else {
                1
            })
            &&& m.recipient_id == (match to {
                AddressView::Topic(_) => subscribers[i],
                AddressView::Agent(id) => id,
                AddressView::FederatedAgent { agent_id, .. } => agent_id,
            })
            &&& m.topic == (match to {
                AddressView::Topic(t) => Some(t),
                _ => None,
            })
            &&& m.body == body
            &&& m.sender_id == Some(sender_id)
            &&& m.in_reply_to is None
            &&& m.state == MailState::Pending
            &&& m.fail_reason is None
            &&& m.created_at == now
            &&& m.delivered_at is None
            &&& m.wake_eligible
            &&& m.id.len() == 8
            &&& "em"@.is_prefix_of(m.id)
            &&& short_ids[i].take(6) == m.id.skip(2)
            &&& system_mail_event(m) matches EventView::MailReceived {
                mail_id,
                recipient_id,
                sender_id: from,
                topic,
                body_preview,
                wake_eligible,
                origin_daemon_id,
            } && mail_id == m.id && recipient_id == m.recipient_id && from == m.sender_id && topic
                == m.topic && body_preview.is_prefix_of(body) && wake_eligible
                && origin_daemon_id is None
        }),
{
    reveal_strlit("em");
    let id = escalation_mail_id(short_ids[i]);
    assert(id.skip(2) =~= short_ids[i].take(6));
    assert("em"@ =~= id.subrange(0, 2));
    let shown = first_chars(body, PREVIEW_CHARS as nat);
    assert(shown =~= body.subrange(0, shown.len() as int));
}

/// A spent budget is escalated to whom the configuration names, and one that
/// the depth ended to nobody. The text names the agent and its last error.
pub proof fn spent_budgets_are_escalated(
    agent_id: Seq<char>,
    summary: Option<Seq<char>>,
    cfg: SupervisionConfig,
)
    ensures
        escalation_target("budget_spent"@, Some(cfg)) == opt_text(cfg.escalate_to),
        escalation_target("tree_depth_exceeded"@, Some(cfg)) is None,
        escalation_target("budget_spent"@, None) is None,
        ("[supervisor] agent "@ + agent_id).is_prefix_of(escalation_text(agent_id, summary)),
        escalation_text(agent_id, summary).skip(
            ("[supervisor] agent "@ + agent_id + " failed (budget exhausted): "@).len() as int,
        ) == (match summary {
            Some(s) => s,
            None => "unknown"@,
        }),
{
    reveal_strlit("budget_spent");
    reveal_strlit("tree_depth_exceeded");
    let head = "[supervisor] agent "@ + agent_id;
    let all = escalation_text(agent_id, summary);
    let lead = head + " failed (budget exhausted): "@;
    let tail = match summary {
        Some(s) => s,
        None => "unknown"@,
    };
    assert("budget_spent"@.len() != "tree_depth_exceeded"@.len());
    assert(head =~= all.subrange(0, head.len() as int));
    assert(all.skip(lead.len() as int) =~= tail);
}

/// The summary of an agent's errors is the start of the last one that says
/// something: no later event is such an error.
pub proof fn last_error_is_summarised(events: Seq<AgentEventRow>, k: int)
    requires
        0 <= k < events.len(),
        events[k].event_type@ == "stderr"@,
        events[k].payload@.len() > 0,
        forall|j: int|
            k < j < events.len() ==> (#[trigger] events[j]).event_type@ != "stderr"@
                || events[j].payload@.len() == 0,
    ensures
        error_summary(events) is Some,
        error_summary(events)->0.is_prefix_of(events[k].payload@),
        error_summary(events)->0.len() == (if events[k].payload@.len() < 200 {
            events[k].payload@.len()
        } else {
            200
        }),
    decreases events.len(),
{
    if k == events.len() - 1 {
        let shown = first_chars(events[k].payload@, 200);
        assert(shown =~= events[k].payload@.subrange(0, shown.len() as int));
    } else {
        assert(events.last() == events[events.len() - 1]);
        assert(events.drop_last()[k] == events[k]);
        last_error_is_summarised(events.drop_last(), k);
    }
}

/// Restarts that wait fire by their instants: of two, the earlier is first.
pub proof fn earlier_restarts_come_first(queue: Seq<PendingView>, i: int, j: int)
    requires
        sorted(queue),
        0 <= i < queue.len(),
        0 <= j < queue.len(),
        queue[i].fire_at < queue[j].fire_at,
    ensures
        i < j,
{
    if j <= i {
        assert(pending_le(queue[j], queue[i]));
    }
}

} // verus!
