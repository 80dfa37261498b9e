//! The state machine: events in, phase changes out.

use crate::classifier::{classified, classify, ClassifierConfig};
use crate::clock::Timestamp;
use crate::paths::{paths_equal, same_path};
use crate::state::{applied, initial_state, AgentState, StateView};
use crate::text::{same_text, views};
use crate::types::{AgentEvent, AgentPhase, PhaseView};
use vstd::prelude::*;

verus! {

/// Whether two phases are equal. Paths are compared as paths.
pub open spec fn same_phase(a: PhaseView, b: PhaseView) -> bool {
    match (a, b) {
        (PhaseView::Initializing, PhaseView::Initializing) => true,
        (PhaseView::Working, PhaseView::Working) => true,
        (PhaseView::Thinking, PhaseView::Thinking) => true,
        (PhaseView::ApiHang(x), PhaseView::ApiHang(y)) => x.nanos == y.nanos,
        (
            PhaseView::ToolLoop { file: f, count: c, since: s },
            PhaseView::ToolLoop { file: g, count: d, since: t },
        ) => same_path(f, g) && c == d && s == t,
        (
            PhaseView::TestLoop { command: c, failure_count: n },
            PhaseView::TestLoop { command: d, failure_count: m },
        ) => c == d && n == m,
        (
            PhaseView::TaskBlocked { task_id: i, blocked_by: p },
            PhaseView::TaskBlocked { task_id: j, blocked_by: q },
        ) => i == j && p == q,
        (PhaseView::ContextReset, PhaseView::ContextReset) => true,
        (
            PhaseView::ScopeLeaking { violating_file: f, guard_path: p },
            PhaseView::ScopeLeaking { violating_file: g, guard_path: q },
        ) => same_path(f, g) && same_path(p, q),
        (PhaseView::Idle(x), PhaseView::Idle(y)) => x.nanos == y.nanos,
        (PhaseView::Dead, PhaseView::Dead) => true,
        _ => false,
    }
}

fn texts_equal(a: &Vec<String>, b: &Vec<String>) -> (r: bool)
    ensures
        r == (views(a@) == views(b@)),
{
    if a.len() != b.len() {
        assert(views(a@).len() != views(b@).len());
        return false;
    }
    let mut i: usize = 0;
    while i < a.len()
        invariant
            i <= a@.len() == b@.len(),
            forall|k: int| 0 <= k < i ==> views(a@)[k] == #[trigger] views(b@)[k],
        decreases a@.len() - i,
    {
        if !same_text(a[i].as_str(), b[i].as_str()) {
            assert(views(a@)[i as int] != views(b@)[i as int]);
            return false;
        }
        i = i + 1;
    }
    assert(views(a@) =~= views(b@));
    true
}

/// Decides whether two phases are equal.
pub fn phases_equal(a: &AgentPhase, b: &AgentPhase) -> (r: bool)
    ensures
        r == same_phase(a@, b@),
{
    match (a, b) {
        (AgentPhase::Initializing, AgentPhase::Initializing) => true,
        (AgentPhase::Working, AgentPhase::Working) => true,
        (AgentPhase::Thinking, AgentPhase::Thinking) => true,
        (AgentPhase::ApiHang(x), AgentPhase::ApiHang(y)) => x.nanos == y.nanos,
        (
            AgentPhase::ToolLoop { file: f, count: c, since: s },
            AgentPhase::ToolLoop { file: g, count: d, since: t },
        ) => paths_equal(f.as_str(), g.as_str()) && *c == *d && !s.after(*t) && !t.after(*s),
        (
            AgentPhase::TestLoop { command: c, failure_count: n },
            AgentPhase::TestLoop { command: d, failure_count: m },
        ) => same_text(c.as_str(), d.as_str()) && *n == *m,
        (
            AgentPhase::TaskBlocked { task_id: i, blocked_by: p },
            AgentPhase::TaskBlocked { task_id: j, blocked_by: q },
        ) => same_text(i.as_str(), j.as_str()) && texts_equal(p, q),
        (AgentPhase::ContextReset, AgentPhase::ContextReset) => true,
        (
            AgentPhase::ScopeLeaking { violating_file: f, guard_path: p },
            AgentPhase::ScopeLeaking { violating_file: g, guard_path: q },
        ) => paths_equal(f.as_str(), g.as_str()) && paths_equal(p.as_str(), q.as_str()),
        (AgentPhase::Idle(x), AgentPhase::Idle(y)) => x.nanos == y.nanos,
        (AgentPhase::Dead, AgentPhase::Dead) => true,
        _ => false,
    }
}

/// Applies events to state and keeps the latest classifier result in sync.
#[derive(Debug)]
pub struct StateMachine {
    pub state: AgentState,
    pub config: ClassifierConfig,
}

/// A state with a phase.
pub open spec fn with_phase(s: StateView, phase: PhaseView) -> StateView {
    StateView { phase, ..s }
}

/// The phase that is reported: the new one where it differs from the old one.
pub open spec fn reported(old_phase: PhaseView, new_phase: PhaseView) -> Option<PhaseView> {
    if same_phase(new_phase, old_phase) {
        None
    } else {
        Some(new_phase)
    }
}

/// The state after a new classification.
pub open spec fn reclassified(
    s: StateView,
    cfg: ClassifierConfig,
    now: Timestamp,
) -> StateView {
    with_phase(s, classified(s, now, cfg))
}

/// The state after an event and the classification at the event's time.
pub open spec fn stepped(
    s: StateView,
    cfg: ClassifierConfig,
    event: AgentEvent,
) -> StateView {
    reclassified(applied(s, event), cfg, event.time())
}

/// The value of an owned phase that may be missing.
pub open spec fn reported_view(phase: Option<AgentPhase>) -> Option<PhaseView> {
    match phase {
        Some(p) => Some(p@),
        None => None,
    }
}

impl Default for StateMachine {
    fn default() -> (r: Self)
        ensures
            r.state@ == initial_state(),
            r.config.thinking_after.nanos == 30_000_000_000,
            r.config.api_hang_after.nanos == 120_000_000_000,
            r.config.dead_after.nanos == 300_000_000_000,
            r.config.idle_after.nanos == 600_000_000_000,
            r.config.io_inactive_after.nanos == 60_000_000_000,
            r.config.tool_loop_rewrites == 3,
            r.config.test_loop_failures == 3,
    {
        StateMachine::new(ClassifierConfig::default())
    }
}

impl StateMachine {
    /// A machine without observations.
    pub fn new(classifier_config: ClassifierConfig) -> (r: Self)
        ensures
            r.state@ == initial_state(),
            r.config == classifier_config,
    {
        StateMachine::with_state(AgentState::default(), classifier_config)
    }

    /// A machine that goes on from a state.
    pub fn with_state(state: AgentState, classifier_config: ClassifierConfig) -> (r: Self)
        ensures
            r.state == state,
            r.config == classifier_config,
    {
        StateMachine { state, config: classifier_config }
    }

    /// The current state.
    pub fn state(&self) -> (r: &AgentState)
        ensures
            *r == self.state,
    {
        &self.state
    }

    /// The current state, to be changed.
    pub fn state_mut(&mut self) -> (r: &mut AgentState)
        ensures
            *r == old(self).state,
            final(self).state == *final(r),
            final(self).config == old(self).config,
    {
        &mut self.state
    }

    /// Takes the state out of the machine.
    pub fn into_state(self) -> (r: AgentState)
        ensures
            r == self.state,
    {
        self.state
    }

    /// The thresholds in use.
    pub fn classifier_config(&self) -> (r: ClassifierConfig)
        ensures
            r == self.config,
    {
        self.config
    }

    /// Replaces the thresholds.
    pub fn set_classifier_config(&mut self, classifier_config: ClassifierConfig)
        ensures
            final(self).config == classifier_config,
            final(self).state == old(self).state,
    {
        self.config = classifier_config;
    }

    /// Classifies the state at a time.
    pub fn classify_at(&self, now: Timestamp) -> (r: AgentPhase)
        requires
            self.state@.recent_tool_calls.len() <= u32::MAX,
        ensures
            r@ == classified(self.state@, now, self.config),
    {
        classify(&self.state, now, self.config)
    }

    /// Classifies the state at a time and returns the phase where it changed.
    pub fn reclassify_at(&mut self, now: Timestamp) -> (r: Option<AgentPhase>)
        requires
            old(self).state@.recent_tool_calls.len() <= u32::MAX,
        ensures
            final(self).config == old(self).config,
            final(self).state@ == reclassified(old(self).state@, old(self).config, now),
            reported_view(r) == reported(old(self).state@.phase, final(self).state@.phase),
    {
        let phase = self.classify_at(now);
        let changed = !phases_equal(&phase, &self.state.phase);
        self.state.phase = phase.clone();
        if changed {
            Some(phase)
        } else {
            None
        }
    }

    /// Applies a single event and returns the new phase where it changed.
    ///
    /// Classification runs at the event timestamp and every window goes by event
    /// timestamps, so replaying a persisted stream of events is deterministic and
    /// produces the same phase changes as processing it live.
    pub fn apply(&mut self, event: AgentEvent) -> (r: Option<AgentPhase>)
        requires
            old(self).state@.recent_tool_calls.len() <= u32::MAX,
        ensures
            final(self).config == old(self).config,
            final(self).state@ == stepped(old(self).state@, old(self).config, event),
            reported_view(r) == reported(old(self).state@.phase, final(self).state@.phase),
    {
        let now = event.timestamp();
        proof {
            crate::laws::recent_history_is_bounded(self.state@, event);
            crate::laws::events_keep_the_phase(self.state@, event);
        }
        self.state.apply(&event);
        self.reclassify_at(now)
    }
}

} // verus!
