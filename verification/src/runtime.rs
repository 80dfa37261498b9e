//! The watcher runtime: which session is watched, and what each event does to
//! its state.

use crate::alerter::slice_view;
use crate::agent::Agent;
use crate::classifier::{classify, ClassifierConfig};
use crate::clock::Timestamp;
use crate::common::{
    complain_of_no_session, list_sessions, log_events, no_session, ranked, replay_lines, replayed, requested_session,
    resolve_session_selection, selection_part, selection_views, slug, slug_of, RankedView,
    SessionCandidate, SessionSelection, SlugStyle,
};
use crate::jsonl_tail::{event_views, JsonlTailerOptions};
use crate::snapshot::sampled;
use crate::state::{applied, initial_state, AgentState, StateView};
use crate::state_machine::{phases_equal, reclassified, same_phase, StateMachine};
use crate::text::{decimal, push_decimal, views};
use crate::types::{copy_texts, text_view, AgentEvent, AgentPhase, ProcessMetrics};
use vstd::prelude::*;

verus! {

/// What to watch. The working directory is given without symbolic links; `agent_dir` is
/// the directory in which the agent keeps its records.
#[derive(Debug)]
pub struct WatcherRuntimeOptions {
    pub agent_dir: String,
    pub agent: Agent,
    pub cwd: String,
    pub file: Option<String>,
    pub pid: Option<u32>,
    pub session_id: Option<String>,
    pub guard_paths: Vec<String>,
    pub force_poll: bool,
    pub classifier_config: ClassifierConfig,
}

/// The session that is watched.
#[derive(Debug, PartialEq, Eq)]
pub struct WatcherRuntimeTarget {
    pub cwd: String,
    pub pid: Option<u32>,
    pub jsonl_path: String,
    pub session_id: Option<String>,
}

impl Clone for WatcherRuntimeTarget {
    fn clone(&self) -> (r: Self)
        ensures
            r == *self,
    {
        WatcherRuntimeTarget {
            cwd: self.cwd.clone(),
            pid: self.pid,
            jsonl_path: self.jsonl_path.clone(),
            session_id: self.session_id.clone(),
        }
    }
}

/// What happened in the watched session.
#[derive(Debug)]
pub struct RuntimeUpdate {
    pub timestamp: Timestamp,
    pub event: Option<AgentEvent>,
    pub previous_phase: Option<AgentPhase>,
    pub phase: AgentPhase,
    pub state: AgentState,
    pub target: WatcherRuntimeTarget,
}

impl RuntimeUpdate {
    /// Whether the update moved the session to another phase.
    pub fn phase_changed(&self) -> (r: bool)
        ensures
            r == match self.previous_phase {
                Some(previous) => !same_phase(previous@, self.phase@),
                None => false,
            },
    {
        match &self.previous_phase {
            Some(previous) => !phases_equal(previous, &self.phase),
            None => false,
        }
    }
}

/// Adds to the state of a session what its events do not say.
pub trait RuntimeStateRefresher {
    fn refresh(&self, state: &mut AgentState, cwd: &str) -> Result<(), String>;
}

/// Adds nothing.
#[derive(Debug)]
pub struct NoopRuntimeStateRefresher;

impl Default for NoopRuntimeStateRefresher {
    fn default() -> Self {
        NoopRuntimeStateRefresher
    }
}

impl RuntimeStateRefresher for NoopRuntimeStateRefresher {
    fn refresh(&self, state: &mut AgentState, cwd: &str) -> (r: Result<(), String>)
        ensures
            r is Ok,
            *final(state) == *old(state),
    {
        Ok(())
    }
}

/// Replaces the slashes, backslashes and colons of a path by dashes.
pub fn path_to_slug(path: &str) -> (r: String)
    ensures
        r@ == slug(path@, SlugStyle::Separators),
{
    slug_of(path, SlugStyle::Separators)
}

/// Lists the sessions that run and have a log, most recent first.
pub fn list_alive_session_selections(agent_dir: &str, candidates: &Vec<SessionCandidate>) -> (r: Vec<
    SessionSelection,
>)
    ensures
        selection_views(r@) == ranked(agent_dir@, candidates@, SlugStyle::Separators).map_values(
            |x: RankedView| selection_part(x),
        ),
{
    list_sessions(agent_dir, candidates, SlugStyle::Separators)
}

/// The complaint that the requested session does not run.
pub open spec fn no_such_session(
    agent: Agent,
    cwd: Seq<char>,
    pid: Option<u32>,
    session_id: Option<Seq<char>>,
) -> Seq<char> {
    match pid {
        Some(p) => "no running "@ + agent.name@ + " session found for pid "@ + decimal(p as nat),
        None => match session_id {
            Some(id) => "no running "@ + agent.name@ + " session found for session "@ + id,
            None => no_session(agent, Some(cwd)),
        },
    }
}

/// Finds the session with a process, else the one with an identifier, else the
/// most recent one of a working directory.
pub fn find_session_for_pid_or_cwd(
    sessions: &Vec<SessionSelection>,
    cwd: &str,
    pid: Option<u32>,
    session_id: Option<&str>,
    agent: &Agent,
) -> (r: Result<SessionSelection, String>)
    ensures
        match requested_session(sessions@, Some(cwd@), pid, slice_view(session_id)) {
            Some(s) => r == Ok::<SessionSelection, String>(s),
            None => r is Err && r->Err_0@ == no_such_session(
                *agent,
                cwd@,
                pid,
                slice_view(session_id),
            ),
        },
{
    match resolve_session_selection(sessions, Some(cwd), pid, session_id) {
        Some(selection) => Ok(selection),
        None => {
            let mut message: String = "no running ".to_owned();
            message.append(agent.name.as_str());
            match pid {
                Some(p) => {
                    message.append(" session found for pid ");
                    push_decimal(&mut message, p as u128);
                    Err(message)
                },
                None => match session_id {
                    Some(id) => {
                        message.append(" session found for session ");
                        message.append(id);
                        Err(message)
                    },
                    None => Err(complain_of_no_session(agent, Some(cwd))),
                },
            }
        },
    }
}

/// Whether a target is the one that options ask for, given the sessions that
/// run: the named log, or the session that was found.
pub open spec fn is_target(
    target: WatcherRuntimeTarget,
    options: WatcherRuntimeOptions,
    session: Option<SessionSelection>,
) -> bool {
    match options.file {
        Some(file) => {
            &&& target.cwd == options.cwd
            &&& target.pid == options.pid
            &&& target.jsonl_path == file
            &&& target.session_id == options.session_id
        },
        None => {
            &&& session is Some
            &&& target.cwd@ == session->0.session.directory()
            &&& target.pid == Some(session->0.pid)
            &&& target.jsonl_path == session->0.jsonl_path
            &&& target.session_id == Some(session->0.session.session_id)
        },
    }
}

/// Decides which session is watched. A log that is named needs no session that
/// runs.
pub fn resolve_watch_target(options: &WatcherRuntimeOptions, sessions: &Vec<SessionSelection>) -> (r:
    Result<WatcherRuntimeTarget, String>)
    ensures
        ({
            let session = requested_session(
                sessions@,
                Some(options.cwd@),
                options.pid,
                text_view(options.session_id),
            );
            match r {
                Ok(target) => is_target(target, *options, session),
                Err(message) => options.file is None && session is None && message@
                    == no_such_session(
                    options.agent,
                    options.cwd@,
                    options.pid,
                    text_view(options.session_id),
                ),
            }
        }),
{
    if let Some(file) = &options.file {
        return Ok(
            WatcherRuntimeTarget {
                cwd: options.cwd.clone(),
                pid: options.pid,
                jsonl_path: file.clone(),
                session_id: options.session_id.clone(),
            },
        );
    }
    let session_id = match &options.session_id {
        Some(id) => Some(id.as_str()),
        None => None,
    };
    match find_session_for_pid_or_cwd(
        sessions,
        options.cwd.as_str(),
        options.pid,
        session_id,
        &options.agent,
    ) {
        Ok(selection) => Ok(
            WatcherRuntimeTarget {
                cwd: selection.session.cwd_path(),
                pid: Some(selection.pid),
                jsonl_path: selection.jsonl_path,
                session_id: Some(selection.session.session_id),
            },
        ),
        Err(message) => Err(message),
    }
}

/// How the log of a target is followed: it stays the same log.
pub fn tailer_options(options: &WatcherRuntimeOptions, process_pid: Option<u32>) -> (r:
    JsonlTailerOptions)
    ensures
        !r.follow_newest,
        r.force_poll == options.force_poll,
        r.process_pid == process_pid,
{
    JsonlTailerOptions { follow_newest: false, force_poll: options.force_poll, process_pid }
}

/// The state of a target before its first event: what the log says, with the
/// guards, the log's place, the identifier and the readings of the process.
pub open spec fn attached(
    s: StateView,
    target: WatcherRuntimeTarget,
    guards: Seq<String>,
    metrics: Option<ProcessMetrics>,
) -> StateView {
    let known = StateView {
        guard_paths: guards,
        session_jsonl_path: Some(target.jsonl_path),
        session_id: match s.session_id {
            Some(id) => Some(id),
            None => target.session_id,
        },
        ..s
    };
    if target.pid is Some {
        sampled(known, metrics)
    } else {
        known
    }
}

/// Builds the state of a target from the lines of its log. The readings are
/// those of its process, when it has one.
pub fn load_initial_state(
    list: &Vec<String>,
    target: &WatcherRuntimeTarget,
    guards: &Vec<String>,
    metrics: Option<ProcessMetrics>,
) -> (r: AgentState)
    ensures
        exists|events: Seq<AgentEvent>|
            event_views(events) == log_events(views(list@)) && r@ == attached(
                #[trigger] replayed(initial_state(), events),
                *target,
                guards@,
                metrics,
            ),
{
    let mut state = AgentState::default();
    replay_lines(&mut state, list);
    state.guard_paths = copy_texts(guards);
    state.session_jsonl_path = Some(target.jsonl_path.clone());
    if state.session_id.is_none() {
        state.session_id = target.session_id.clone();
    }
    if target.pid.is_some() {
        match metrics {
            Some(metrics) => {
                state.apply(&AgentEvent::ProcessMetrics(metrics));
            },
            None => {
                state.process_alive = false;
            },
        }
    }
    state
}

/// The runtime of a watched session.
#[derive(Debug)]
pub struct WatcherRuntime {
    pub target: WatcherRuntimeTarget,
    pub state_machine: StateMachine,
    pub last_timestamp: Timestamp,
    pub shutdown: bool,
}

impl WatcherRuntime {
    /// Starts to watch a target from a state.
    pub fn attach(
        target: WatcherRuntimeTarget,
        state: AgentState,
        classifier_config: ClassifierConfig,
        now: Timestamp,
    ) -> (r: Self)
        requires
            state@.recent_tool_calls.len() <= u32::MAX,
        ensures
            r.target == target,
            r.state_machine.config == classifier_config,
            r.state_machine.state@ == reclassified(state@, classifier_config, now),
            r.last_timestamp == now,
            !r.shutdown,
    {
        let mut state = state;
        let phase = classify(&state, now, classifier_config);
        state.phase = phase;
        WatcherRuntime {
            target,
            state_machine: StateMachine::with_state(state, classifier_config),
            last_timestamp: now,
            shutdown: false,
        }
    }

    /// The session that is watched.
    pub fn target(&self) -> (r: &WatcherRuntimeTarget)
        ensures
            *r == self.target,
    {
        &self.target
    }

    /// The update that describes the session as it is.
    pub fn initial_update(&self) -> (r: RuntimeUpdate)
        ensures
            r.timestamp == self.last_timestamp,
            r.event is None,
            r.previous_phase is None,
            r.phase@ == self.state_machine.state@.phase,
            r.state@ == self.state_machine.state@,
            r.target == self.target,
    {
        RuntimeUpdate {
            timestamp: self.last_timestamp,
            event: None,
            previous_phase: None,
            phase: self.state_machine.state.phase.clone(),
            state: self.state_machine.state.clone(),
            target: self.target.clone(),
        }
    }

    /// Whether the runtime has been shut down.
    pub fn is_shutdown(&self) -> (r: bool)
        ensures
            r == self.shutdown,
    {
        self.shutdown
    }

    /// Stops the runtime, and says whether it was running.
    pub fn stop(&mut self) -> (r: bool)
        ensures
            r == !old(self).shutdown,
            final(self).shutdown,
            final(self).target == old(self).target,
            final(self).state_machine == old(self).state_machine,
            final(self).last_timestamp == old(self).last_timestamp,
    {
        let was_running = !self.shutdown;
        self.shutdown = true;
        was_running
    }

    /// Takes an event in and returns the phase before it. The state can be
    /// refreshed before the update is completed.
    pub fn apply_event(&mut self, event: &AgentEvent) -> (r: AgentPhase)
        ensures
            r@ == old(self).state_machine.state@.phase,
            final(self).state_machine.state@ == applied(
                old(self).state_machine.state@,
                *event,
            ),
            final(self).state_machine.config == old(self).state_machine.config,
            final(self).target == old(self).target,
            final(self).last_timestamp == old(self).last_timestamp,
            final(self).shutdown == old(self).shutdown,
    {
        let previous = self.state_machine.state.phase.clone();
        self.state_machine.state.apply(event);
        previous
    }

    /// Completes the update for an event: classifies the state at the event's
    /// time. There is none after a shutdown.
    pub fn next_update(&mut self, event: AgentEvent, previous_phase: AgentPhase) -> (r:
        Option<RuntimeUpdate>)
        requires
            old(self).state_machine.state@.recent_tool_calls.len() <= u32::MAX,
        ensures
            final(self).target == old(self).target,
            final(self).shutdown == old(self).shutdown,
            final(self).state_machine.config == old(self).state_machine.config,
            old(self).shutdown ==> r is None && *final(self) == *old(self),
            !old(self).shutdown ==> {
                &&& final(self).state_machine.state@ == reclassified(
                    old(self).state_machine.state@,
                    old(self).state_machine.config,
                    event.time(),
                )
                &&& final(self).last_timestamp == event.time()
                &&& r is Some
                &&& r->0.timestamp == event.time()
                &&& r->0.event == Some(event)
                &&& r->0.previous_phase == Some(previous_phase)
                &&& r->0.phase@ == final(self).state_machine.state@.phase
                &&& r->0.state@ == final(self).state_machine.state@
                &&& r->0.target == old(self).target
            },
    {
        if self.shutdown {
            return None;
        }
        let timestamp = event.timestamp();
        let _ = self.state_machine.reclassify_at(timestamp);
        self.last_timestamp = timestamp;
        Some(
            RuntimeUpdate {
                timestamp,
                event: Some(event),
                previous_phase: Some(previous_phase),
                phase: self.state_machine.state.phase.clone(),
                state: self.state_machine.state.clone(),
                target: self.target.clone(),
            },
        )
    }
}

/// Whether the state is refreshed after an event: after each but the readings
/// of the process.
pub fn needs_refresh(event: &AgentEvent) -> (r: bool)
    ensures
        r == !(event is ProcessMetrics),
{
    match event {
        AgentEvent::ProcessMetrics(_) => false,
        _ => true,
    }
}

} // verus!
