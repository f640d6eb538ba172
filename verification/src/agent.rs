//! The injected agent's state machine.
//!
//! Once loaded into the target process the agent reads its configuration
//! from the environment, resolves the old and new addresses, and asks the
//! instrumentation engine for one redirect. The machine here is that
//! lifecycle: `Loaded` to `Configured` to `Redirected` on success, to
//! `Failed` when any step fails, both terminal. Per load of the reload
//! library the redirect is installed at most once, and exactly once when
//! the agent ends up redirected.

use vstd::prelude::*;

verus! {

/// The agent's lifecycle state.
#[derive(Clone, Copy, Debug, PartialEq, Eq, Structural)]
pub enum AgentState {
    /// The loader has mapped the agent; nothing read yet.
    Loaded,
    /// Configuration read and both addresses resolved.
    Configured,
    /// The redirect is installed. Terminal.
    Redirected,
    /// A step failed; the target keeps its original code. Terminal.
    Failed,
}

/// What happens to the agent.
#[derive(Clone, Copy, Debug, PartialEq, Eq, Structural)]
pub enum AgentEvent {
    /// The environment was read and both symbol addresses resolved.
    Configure,
    /// The instrumentation engine installed the redirect.
    InstallOk,
    /// Opening the library, a lookup or the hook installation failed.
    InstallFail,
}

/// The agent's transition function. Events that do not apply to the current
/// state — anything after a terminal state, an install before
/// configuration — change nothing.
pub open spec fn agent_step(st: AgentState, ev: AgentEvent) -> AgentState {
    match (st, ev) {
        (AgentState::Loaded, AgentEvent::Configure) => AgentState::Configured,
        (AgentState::Configured, AgentEvent::InstallOk) => AgentState::Redirected,
        (AgentState::Configured, AgentEvent::InstallFail) => AgentState::Failed,
        _ => st,
    }
}

/// Whether an event installs the redirect: only the successful install out
/// of the configured state does.
pub open spec fn installs(st: AgentState, ev: AgentEvent) -> int {
    if st is Configured && ev is InstallOk {
        1
    } else {
        0
    }
}

/// The state after a whole sequence of events.
pub open spec fn run_events(st: AgentState, evs: Seq<AgentEvent>) -> AgentState
    decreases evs.len(),
{
    if evs.len() == 0 {
        st
    } else {
        run_events(agent_step(st, evs.first()), evs.drop_first())
    }
}

/// How many times a whole sequence of events installs the redirect.
pub open spec fn installs_in(st: AgentState, evs: Seq<AgentEvent>) -> int
    decreases evs.len(),
{
    if evs.len() == 0 {
        0
    } else {
        installs(st, evs.first()) + installs_in(agent_step(st, evs.first()), evs.drop_first())
    }
}

/// The terminal states are terminal: from `Redirected` or `Failed` no event
/// sequence moves the agent or installs anything.
pub proof fn lemma_agent_terminal(st: AgentState, evs: Seq<AgentEvent>)
    requires
        st is Redirected || st is Failed,
    ensures
        run_events(st, evs) == st,
        installs_in(st, evs) == 0,
    decreases evs.len(),
{
    if evs.len() > 0 {
        lemma_agent_terminal(st, evs.drop_first());
    }
}

/// Per load of the agent, the redirect is installed exactly once when the
/// agent ends up redirected and never otherwise — however the events fall.
pub proof fn lemma_agent_single_redirect(st: AgentState, evs: Seq<AgentEvent>)
    requires
        st is Loaded || st is Configured,
    ensures
        installs_in(st, evs) == (if run_events(st, evs) is Redirected {
            1int
        } else {
            0int
        }),
    decreases evs.len(),
{
    if evs.len() > 0 {
        let next = agent_step(st, evs.first());
        if next is Redirected || next is Failed {
            lemma_agent_terminal(next, evs.drop_first());
        } else {
            lemma_agent_single_redirect(next, evs.drop_first());
        }
    }
}

/// One agent load, stepped by the events as they happen.
pub struct AgentSession {
    /// The current lifecycle state.
    pub state: AgentState,
    /// How many redirects this load has installed.
    pub redirects: u64,
}

impl AgentSession {
    /// A session never installs more than one redirect, and exactly one
    /// when and only when it is redirected.
    pub open spec fn wf(&self) -> bool {
        self.redirects == (if self.state is Redirected {
            1int
        } else {
            0int
        })
    }

    /// A freshly loaded agent.
    pub fn new() -> (r: Self)
        ensures
            r.wf(),
            r.state is Loaded,
            r.redirects == 0,
    {
        AgentSession { state: AgentState::Loaded, redirects: 0 }
    }

    /// Applies one event, exactly as `agent_step` states.
    pub fn step(&mut self, ev: AgentEvent)
        requires
            old(self).wf(),
        ensures
            final(self).wf(),
            final(self).state == agent_step(old(self).state, ev),
            final(self).redirects == old(self).redirects + installs(old(self).state, ev),
    {
        let install = matches!(
            (self.state, ev),
            (AgentState::Configured, AgentEvent::InstallOk)
        );
        self.state = match (self.state, ev) {
            (AgentState::Loaded, AgentEvent::Configure) => AgentState::Configured,
            (AgentState::Configured, AgentEvent::InstallOk) => AgentState::Redirected,
            (AgentState::Configured, AgentEvent::InstallFail) => AgentState::Failed,
            (s, _) => s,
        };
        if install {
            self.redirects = self.redirects + 1;
        }
    }
}

} // verus!
