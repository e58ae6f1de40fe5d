//! Remote agent-completion wake source: fires when an agent of another daemon
//! transitions into one of the configured target states. Where no states are
//! given, only completion counts.

use super::parent_completion::{list_targets, lists_state, targets};
use crate::text::same;
use crate::types::AgentState;
use vstd::prelude::*;

verus! {

/// Which agent of which daemon is watched, and for which states.
#[derive(Debug)]
pub struct RemoteAgentCompletionConfig {
    pub sender_daemon_id: String,
    pub remote_agent_id: String,
    pub states: Vec<AgentState>,
}

/// A remote agent-completion source.
#[derive(Debug)]
pub struct RemoteAgentCompletionSource {
    pub config: RemoteAgentCompletionConfig,
    pub target_states: Vec<AgentState>,
}

impl RemoteAgentCompletionSource {
    /// What holds of every source: its states are those that count.
    pub open spec fn wf(&self) -> bool {
        self.target_states@ == targets(self.config.states@)
    }

    /// A source for a configuration, which must name a daemon and an agent.
    pub fn new(config: RemoteAgentCompletionConfig) -> (r: Result<
        RemoteAgentCompletionSource,
        &'static str,
    >)
        ensures
            match r {
                Ok(s) => config.sender_daemon_id@.len() > 0 && config.remote_agent_id@.len() > 0
                    && s.config == config && s.wf(),
                Err(e) => if config.sender_daemon_id@.len() == 0 {
                    e@ == "sender_daemon_id_required"@
                } else {
                    config.remote_agent_id@.len() == 0 && e@ == "remote_agent_id_required"@
                },
            },
    {
        if config.sender_daemon_id.as_str().is_empty() {
            return Err("sender_daemon_id_required");
        }
        if config.remote_agent_id.as_str().is_empty() {
            return Err("remote_agent_id_required");
        }
        let target_states = list_targets(&config.states);
        Ok(RemoteAgentCompletionSource { config, target_states })
    }

    /// Whether the news of a remote agent fires this source.
    pub fn should_fire(&self, sender_daemon_id: &str, agent_id: &str, new_state: &AgentState) -> (r:
        bool)
        requires
            self.wf(),
        ensures
            r == (sender_daemon_id@ == self.config.sender_daemon_id@ && agent_id@
                == self.config.remote_agent_id@ && targets(self.config.states@).contains(
                *new_state,
            )),
    {
        if !same(sender_daemon_id, self.config.sender_daemon_id.as_str()) {
            return false;
        }
        if !same(agent_id, self.config.remote_agent_id.as_str()) {
            return false;
        }
        lists_state(&self.target_states, *new_state)
    }
}

/// A source fires for one agent of one daemon, on each state that it lists;
/// where it lists none, on completion.
pub proof fn remote_agents_fire_on_listed_states(
    source: RemoteAgentCompletionSource,
    daemon: &str,
    agent_id: &str,
    state: AgentState,
    r: bool,
)
    requires
        source.wf(),
        call_ensures(
            RemoteAgentCompletionSource::should_fire,
            (&source, daemon, agent_id, &state),
            r,
        ),
    ensures
        daemon@ != source.config.sender_daemon_id@ ==> !r,
        agent_id@ != source.config.remote_agent_id@ ==> !r,
        daemon@ == source.config.sender_daemon_id@ && agent_id@ == source.config.remote_agent_id@
            && source.config.states@.len() > 0 ==> r == source.config.states@.contains(state),
        daemon@ == source.config.sender_daemon_id@ && agent_id@ == source.config.remote_agent_id@
            && source.config.states@.len() == 0 ==> r == (state == AgentState::Complete),
{
    assert(seq![AgentState::Complete].contains(state) <==> state == AgentState::Complete) by {
        assert(seq![AgentState::Complete][0] == AgentState::Complete);
    }
}

} // verus!
