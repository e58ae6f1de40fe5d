//! A worker's session with its daemon: what each message leads to, the
//! heartbeats, and how it drains when it is told to stop.

use super::task_runner::{AssignTask, TaskDispatcher};
use vstd::prelude::*;

verus! {

/// Seconds between two heartbeats.
pub const HEARTBEAT_INTERVAL_SECS: u64 = 5;

/// Milliseconds that a worker waits for its tasks when it stops.
pub const DRAIN_MS: u64 = 5_000;

/// What a session hears.
#[derive(Debug)]
pub enum SessionInput {
    /// The worker is told to stop.
    Shutdown,
    Assign(AssignTask),
    Cancel { agent_id: String },
    /// A message that asks for nothing.
    Idle,
    /// The daemon closed the channel.
    Closed,
    /// The channel broke.
    Broken,
}

/// What a session does next.
#[derive(Debug)]
pub enum SessionStep {
    /// Run the task, beside reading on.
    Run(AssignTask),
    /// Cancel the agent's task, and read on.
    Cancel { agent_id: String },
    /// Read on.
    Continue,
    /// Take no more tasks, wait for those that run, and end.
    Drain,
    /// End.
    End,
}

/// A heartbeat.
#[derive(Clone, Copy, Debug, PartialEq, Eq, Structural)]
pub struct Heartbeat {
    pub in_flight: u32,
    pub seq: u64,
}

/// A worker's session.
#[derive(Debug)]
pub struct Session {
    pub dispatcher: TaskDispatcher,
    /// How many heartbeats were sent.
    pub beats: u64,
}

impl Session {
    /// A session that has sent no heartbeat.
    pub fn new(dispatcher: TaskDispatcher) -> (s: Session)
        ensures
            s.dispatcher == dispatcher,
            s.beats == 0,
    {
        Session { dispatcher, beats: 0 }
    }

    /// Takes an input.
    pub fn take(&mut self, input: SessionInput) -> (step: SessionStep)
        ensures
            final(self).beats == old(self).beats,
            final(self).dispatcher == (if input is Shutdown {
                TaskDispatcher { draining: true, ..old(self).dispatcher }
            } else {
                old(self).dispatcher
            }),
            match input {
                SessionInput::Shutdown => step is Drain,
                SessionInput::Assign(a) => step == SessionStep::Run(a),
                SessionInput::Cancel { agent_id } => step == (SessionStep::Cancel { agent_id }),
                SessionInput::Idle => step is Continue,
                SessionInput::Closed => step is End,
                SessionInput::Broken => step is End,
            },
    {
        match input {
            SessionInput::Shutdown => {
                self.dispatcher.drain();
                SessionStep::Drain
            },
            SessionInput::Assign(a) => SessionStep::Run(a),
            SessionInput::Cancel { agent_id } => SessionStep::Cancel { agent_id },
            SessionInput::Idle => SessionStep::Continue,
            SessionInput::Closed => SessionStep::End,
            SessionInput::Broken => SessionStep::End,
        }
    }

    /// The next heartbeat. Each has the number after that of the one before.
    pub fn beat(&mut self) -> (h: Heartbeat)
        requires
            old(self).beats < u64::MAX,
        ensures
            h.seq == old(self).beats + 1,
            h.in_flight == old(self).dispatcher.in_flight,
            final(self).beats == h.seq,
            final(self).dispatcher == old(self).dispatcher,
    {
        self.beats = self.beats + 1;
        Heartbeat { in_flight: self.dispatcher.in_flight, seq: self.beats }
    }

    /// Whether a worker that stops waits longer.
    pub fn keeps_draining(&self, waited_ms: u64) -> (r: bool)
        ensures
            r == (self.dispatcher.in_flight > 0 && waited_ms < DRAIN_MS),
    {
        self.dispatcher.in_flight > 0 && waited_ms < DRAIN_MS
    }
}

// ---------------------------------------------------------------------------
// Laws
// ---------------------------------------------------------------------------

/// Each message leads to what it asks for; only a shutdown stops a worker
/// from taking tasks.
pub proof fn messages_lead_to_steps(s: &mut Session, input: SessionInput, step: SessionStep)
    requires
        call_ensures(Session::take, (s, input), step),
    ensures
        input matches SessionInput::Assign(a) ==> step == SessionStep::Run(a),
        input matches SessionInput::Cancel { agent_id } ==> (step matches SessionStep::Cancel {
            agent_id: to,
        } && to == agent_id),
        input is Idle ==> step is Continue,
        input is Closed || input is Broken ==> step is End,
        input is Shutdown ==> step is Drain && final(s).dispatcher.draining,
        !(input is Shutdown) ==> final(s).dispatcher.draining == old(s).dispatcher.draining,
        final(s).dispatcher.in_flight == old(s).dispatcher.in_flight,
        final(s).dispatcher.running == old(s).dispatcher.running,
{
}

/// Heartbeats are numbered from one on and tell how many tasks run.
pub proof fn heartbeats_are_numbered(s: &mut Session, h: Heartbeat, begun: Session)
    requires
        old(s).beats < u64::MAX,
        call_ensures(Session::beat, (s,), h),
        call_ensures(Session::new, (old(s).dispatcher,), begun),
    ensures
        h.seq == old(s).beats + 1,
        final(s).beats == h.seq,
        h.in_flight == old(s).dispatcher.in_flight,
        begun.beats == 0,
{
}

/// A worker that stops waits five seconds at most, and no longer than its
/// tasks run.
pub proof fn draining_ends(s: Session, waited_ms: u64, r: bool)
    requires
        call_ensures(Session::keeps_draining, (&s, waited_ms), r),
    ensures
        waited_ms >= 5_000 ==> !r,
        s.dispatcher.in_flight == 0 ==> !r,
        waited_ms < 5_000 && s.dispatcher.in_flight > 0 ==> r,
{
}

} // verus!
