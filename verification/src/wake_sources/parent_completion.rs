//! Parent-completion wake source: fires when a configured parent agent
//! transitions into one of the configured target states.

use crate::text::same;
use crate::types::AgentState;
use vstd::prelude::*;

verus! {

/// Which agent is watched, and for which states.
#[derive(Debug)]
pub struct ParentCompletionConfig {
    pub parent_id: String,
    /// Target states. If empty, only completion counts.
    pub states: Vec<AgentState>,
}

/// The states that count: completion where none is given.
pub open spec fn targets(states: Seq<AgentState>) -> Seq<AgentState> {
    if states.len() == 0 {
        seq![AgentState::Complete]
    } else {
        states
    }
}

/// The states that count, as a list of its own.
pub fn list_targets(states: &Vec<AgentState>) -> (r: Vec<AgentState>)
    ensures
        r@ == targets(states@),
{
    let mut r: Vec<AgentState> = Vec::new();
    if states.len() == 0 {
        r.push(AgentState::Complete);
        assert(r@ =~= targets(states@));
        return r;
    }
    for i in 0..states.len()
        invariant
            r@ == states@.take(i as int),
    {
        r.push(states[i]);
        assert(states@.take(i + 1) =~= states@.take(i as int).push(states@[i as int]));
    }
    assert(states@.take(states@.len() as int) =~= states@);
    r
}

/// Whether a list holds a state.
pub fn lists_state(states: &Vec<AgentState>, s: AgentState) -> (r: bool)
    ensures
        r == states@.contains(s),
{
    let mut i: usize = 0;
    while i < states.len()
        invariant
            i <= states@.len(),
            forall|k: int| 0 <= k < i ==> states@[k] != s,
        decreases states@.len() - i,
    {
        if states[i] == s {
            return true;
        }
        i = i + 1;
    }
    false
}

impl ParentCompletionConfig {
    /// The states that count.
    pub fn target_states(&self) -> (r: Vec<AgentState>)
        ensures
            r@ == targets(self.states@),
    {
        list_targets(&self.states)
    }
}

/// A parent-completion source.
#[derive(Debug)]
pub struct ParentCompletionSource {
    pub config: ParentCompletionConfig,
}

impl ParentCompletionSource {
    /// A source for a configuration. Every configuration makes one.
    pub fn new(config: ParentCompletionConfig) -> (r: Result<ParentCompletionSource, String>)
        ensures
            r matches Ok(s) && s.config == config,
    {
        Ok(ParentCompletionSource { config })
    }

    /// Whether a state change fires this source.
    pub fn should_fire(&self, agent_id: &str, new_state: &AgentState) -> (r: bool)
        ensures
            r == (agent_id@ == self.config.parent_id@ && targets(self.config.states@).contains(
                *new_state,
            )),
    {
        if !same(agent_id, self.config.parent_id.as_str()) {
            return false;
        }
        lists_state(&self.config.target_states(), *new_state)
    }
}

/// A source fires for its parent alone, on each state that it lists; where it
/// lists none, on completion.
pub proof fn parents_fire_on_listed_states(
    source: ParentCompletionSource,
    agent_id: &str,
    state: AgentState,
    r: bool,
)
    requires
        call_ensures(ParentCompletionSource::should_fire, (&source, agent_id, &state), r),
    ensures
        agent_id@ != source.config.parent_id@ ==> !r,
        agent_id@ == source.config.parent_id@ && source.config.states@.len() > 0 ==> r
            == source.config.states@.contains(state),
        agent_id@ == source.config.parent_id@ && source.config.states@.len() == 0 ==> r == (state
            == AgentState::Complete),
{
    assert(seq![AgentState::Complete].contains(state) <==> state == AgentState::Complete) by {
        assert(seq![AgentState::Complete][0] == AgentState::Complete);
    }
}

} // verus!
