//! The run supervisor's decisions: what a kernel event does to its run, and
//! the legal moves that bring a run to a target state.

use vstd::prelude::*;

use crate::number::Real;
use crate::state::{
    can_step, find_state_path, is_walk, is_walk_between, legal_seq, reachable, terminal, RunState,
};

verus! {

/// An engine or kernel event (binary64 values carried as [`Real`]).
#[derive(Debug, Clone)]
pub enum Event {
    /// Kernel handshake.
    Hello { run_id: String, backend: String, version: String },
    /// Training progress.
    Progress { run_id: String, step: u64, epoch: Real, loss: Real, lr: Real, eta_s: Option<u64> },
    /// A log line.
    Log { run_id: String, level: String, msg: String },
    /// A sample image.
    Sample { run_id: String, path: String },
    /// A metric point.
    Metric { run_id: String, step: u64, loss: Option<Real>, lr: Option<Real> },
    /// A run moved.
    RunStateChanged { run_id: String, from: RunState, to: RunState },
    /// The run finished.
    Done { run_id: String, code: u32 },
    /// The run failed (with the tail of its log).
    Fail { run_id: String, code: u32, tail: String },
}

/// The run an event belongs to.
pub open spec fn event_run(e: Event) -> Seq<char> {
    match e {
        Event::Hello { run_id, .. } => run_id@,
        Event::Progress { run_id, .. } => run_id@,
        Event::Log { run_id, .. } => run_id@,
        Event::Sample { run_id, .. } => run_id@,
        Event::Metric { run_id, .. } => run_id@,
        Event::RunStateChanged { run_id, .. } => run_id@,
        Event::Done { run_id, .. } => run_id@,
        Event::Fail { run_id, .. } => run_id@,
    }
}

/// The run an event belongs to (every event has one).
pub fn event_run_id(e: &Event) -> (r: Option<&str>)
    ensures
        r matches Some(id) && id@ == event_run(*e),
{
    let id = match e {
        Event::Hello { run_id, .. } => run_id.as_str(),
        Event::Progress { run_id, .. } => run_id.as_str(),
        Event::Log { run_id, .. } => run_id.as_str(),
        Event::Sample { run_id, .. } => run_id.as_str(),
        Event::Metric { run_id, .. } => run_id.as_str(),
        Event::RunStateChanged { run_id, .. } => run_id.as_str(),
        Event::Done { run_id, .. } => run_id.as_str(),
        Event::Fail { run_id, .. } => run_id.as_str(),
    };
    Some(id)
}

/// Whether a subscriber to the event stream of `filter` sees `e`: the filter
/// `all` sees every event, any other only the events of that run.
pub fn event_visible(filter: &str, e: &Event) -> (r: bool)
    ensures
        r == (filter@ == "all"@ || event_run(*e) == filter@),
{
    if String::from_str(filter) == String::from_str("all") {
        return true;
    }
    match event_run_id(e) {
        Some(id) => String::from_str(id) == String::from_str(filter),
        None => false,
    }
}

/// What the supervisor does with an event of a known run.
#[derive(Debug, Clone, Copy, PartialEq, Eq, Structural)]
pub enum SupervisorAction {
    /// Bring the run to this state along legal moves.
    Advance(RunState),
    /// Store the metric point.
    RecordMetric,
    /// Store the sample image as a checkpoint of kind `sample`.
    RecordSample,
    /// Append the line to the run's training log.
    AppendLog,
    /// Record the LoRA files the run produced, then bring it to `Done`.
    Finish,
    /// Nothing.
    Ignore,
}

/// The supervisor's rule: the handshake means preparing; the first progress
/// of a queued or preparing run means running; metrics, samples and logs are
/// recorded; done and fail end a run that has not ended.
pub open spec fn action_for(state: RunState, e: Event) -> SupervisorAction {
    match e {
        Event::Hello { .. } => SupervisorAction::Advance(RunState::Preparing),
        Event::Progress { .. } => if state == RunState::Preparing || state == RunState::Queued {
            SupervisorAction::Advance(RunState::Running)
        } else {
            SupervisorAction::Ignore
        },
        Event::Metric { .. } => SupervisorAction::RecordMetric,
        Event::Sample { .. } => SupervisorAction::RecordSample,
        Event::Log { .. } => SupervisorAction::AppendLog,
        Event::Done { .. } => if !terminal(state) {
            SupervisorAction::Finish
        } else {
            SupervisorAction::Ignore
        },
        Event::Fail { .. } => if !terminal(state) {
            SupervisorAction::Advance(RunState::Failed)
        } else {
            SupervisorAction::Ignore
        },
        Event::RunStateChanged { .. } => SupervisorAction::Ignore,
    }
}

/// What to do with an event of a run in `state`.
pub fn handle_event(state: RunState, e: &Event) -> (a: SupervisorAction)
    ensures
        a == action_for(state, *e),
{
    match e {
        Event::Hello { .. } => SupervisorAction::Advance(RunState::Preparing),
        Event::Progress { .. } => if state == RunState::Preparing || state == RunState::Queued {
            SupervisorAction::Advance(RunState::Running)
        } else {
            SupervisorAction::Ignore
        },
        Event::Metric { .. } => SupervisorAction::RecordMetric,
        Event::Sample { .. } => SupervisorAction::RecordSample,
        Event::Log { .. } => SupervisorAction::AppendLog,
        Event::Done { .. } => if !state.is_terminal() {
            SupervisorAction::Finish
        } else {
            SupervisorAction::Ignore
        },
        Event::Fail { .. } => if !state.is_terminal() {
            SupervisorAction::Advance(RunState::Failed)
        } else {
            SupervisorAction::Ignore
        },
        Event::RunStateChanged { .. } => SupervisorAction::Ignore,
    }
}

/// The fewest moves that bring a run from `from` to `to`, in order (each a
/// legal move from the state before it); none when `to` is `from` or cannot
/// be reached.
pub fn advance(from: RunState, to: RunState) -> (steps: Vec<RunState>)
    ensures
        steps@.len() > 0 <==> (from != to && reachable(from, to)),
        steps@.len() > 0 ==> is_walk_between(seq![from] + steps@, from, to),
        steps@.len() > 0 ==> forall|p: Seq<RunState>| #[trigger] is_walk_between(p, from, to) ==> steps@.len() + 1
            <= p.len(),
{
    let path = find_state_path(from, to);
    let mut steps: Vec<RunState> = Vec::new();
    if path.len() == 0 {
        return steps;
    }
    let mut i: usize = 1;
    while i < path.len()
        invariant
            1 <= i <= path@.len(),
            steps@ =~= path@.subrange(1, i as int),
        decreases path@.len() - i,
    {
        steps.push(path[i]);
        i = i + 1;
    }
    proof {
        assert(seq![from] + steps@ =~= path@);
    }
    steps
}

/// A run that has ended can reach no state: no event moves it again.
pub proof fn lemma_terminal_is_final(s: RunState, to: RunState)
    requires
        terminal(s),
    ensures
        !reachable(s, to),
        legal_seq(s).len() == 0,
{
    if reachable(s, to) {
        let p = choose|p: Seq<RunState>| is_walk_between(p, s, to);
        assert(can_step(p[0], p[1]));
    }
}

/// A state accepts a move exactly when it is not terminal.
pub proof fn lemma_terminal_iff_no_moves(s: RunState)
    ensures
        terminal(s) <==> legal_seq(s).len() == 0,
{
}

/// Events never move a run that has ended: the supervisor's action on a
/// terminal run brings it nowhere.
pub proof fn lemma_ended_runs_stay(state: RunState, e: Event)
    requires
        terminal(state),
    ensures
        match action_for(state, e) {
            SupervisorAction::Advance(to) => !reachable(state, to),
            SupervisorAction::Finish => false,
            _ => true,
        },
{
    match action_for(state, e) {
        SupervisorAction::Advance(to) => lemma_terminal_is_final(state, to),
        _ => {},
    }
}

/// One legal move makes its target reachable.
proof fn lemma_step_reaches(a: RunState, b: RunState)
    requires
        can_step(a, b),
    ensures
        reachable(a, b),
{
    let p = seq![a, b];
    assert(is_walk_between(p, a, b));
}

/// Two legal moves make their target reachable.
proof fn lemma_two_steps_reach(a: RunState, b: RunState, c: RunState)
    requires
        can_step(a, b),
        can_step(b, c),
    ensures
        reachable(a, c),
{
    let p = seq![a, b, c];
    assert(p[0] == a && p[1] == b && p[2] == c);
    assert(is_walk_between(p, a, c));
}

/// Progress starts training: the first progress of a queued or preparing run
/// brings it to `Running`, which legal moves reach; progress of any other run
/// changes nothing.
pub proof fn lemma_progress_starts_training(state: RunState, e: Event)
    requires
        e is Progress,
    ensures
        (state == RunState::Queued || state == RunState::Preparing) ==> action_for(state, e)
            == SupervisorAction::Advance(RunState::Running) && reachable(state, RunState::Running),
        !(state == RunState::Queued || state == RunState::Preparing) ==> action_for(state, e)
            == SupervisorAction::Ignore,
{
    if state == RunState::Queued {
        assert(legal_seq(RunState::Queued)[0] == RunState::Preparing);
        assert(legal_seq(RunState::Preparing)[0] == RunState::Running);
        lemma_two_steps_reach(RunState::Queued, RunState::Preparing, RunState::Running);
    } else if state == RunState::Preparing {
        assert(legal_seq(RunState::Preparing)[0] == RunState::Running);
        lemma_step_reaches(RunState::Preparing, RunState::Running);
    }
}

/// A failure report ends every run that has not ended, in `Failed`, which
/// legal moves reach from wherever the run is.
pub proof fn lemma_failure_ends_live_runs(state: RunState, e: Event)
    requires
        e is Fail,
        !terminal(state),
    ensures
        action_for(state, e) == SupervisorAction::Advance(RunState::Failed),
        reachable(state, RunState::Failed),
{
    let l = legal_seq(state);
    if state == RunState::Queued {
        assert(l[0] == RunState::Preparing);
        assert(legal_seq(RunState::Preparing)[1] == RunState::Failed);
        lemma_two_steps_reach(state, RunState::Preparing, RunState::Failed);
    } else if state == RunState::Paused {
        assert(l[0] == RunState::Running);
        assert(legal_seq(RunState::Running)[4] == RunState::Failed);
        lemma_two_steps_reach(state, RunState::Running, RunState::Failed);
    } else {
        assert(l[l.len() - 2] == RunState::Failed);
        lemma_step_reaches(state, RunState::Failed);
    }
}

/// Every event keeps its own record whatever state the run is in: metric
/// points, sample images and log lines are stored; a handshake asks for
/// `Preparing`; a live run that reports done is finished, and a state change
/// reported back is not acted on again.
pub proof fn lemma_events_are_recorded(state: RunState, e: Event)
    ensures
        e is Metric ==> action_for(state, e) == SupervisorAction::RecordMetric,
        e is Sample ==> action_for(state, e) == SupervisorAction::RecordSample,
        e is Log ==> action_for(state, e) == SupervisorAction::AppendLog,
        e is Hello ==> action_for(state, e) == SupervisorAction::Advance(RunState::Preparing),
        e is Done ==> (action_for(state, e) == SupervisorAction::Finish <==> !terminal(state)),
        e is RunStateChanged ==> action_for(state, e) == SupervisorAction::Ignore,
{
}

/// Every run that has not ended can still finish: `Done` is reachable from
/// each live state.
pub proof fn lemma_live_runs_can_finish(s: RunState)
    requires
        !terminal(s),
    ensures
        reachable(s, RunState::Done),
{
    let run = RunState::Running;
    let done = RunState::Done;
    assert(legal_seq(run)[3] == done);
    if s == RunState::Running || s == RunState::Sampling || s == RunState::Saving {
        assert(legal_seq(RunState::Sampling)[2] == done);
        assert(legal_seq(RunState::Saving)[1] == done);
        lemma_step_reaches(s, done);
    } else if s == RunState::Paused || s == RunState::Preparing {
        assert(legal_seq(s)[0] == run);
        lemma_two_steps_reach(s, run, done);
    } else {
        let q = RunState::Queued;
        let pr = RunState::Preparing;
        assert(legal_seq(q)[0] == pr);
        assert(legal_seq(pr)[0] == run);
        assert(legal_seq(RunState::Created)[0] == q);
        let w = if s == q {
            seq![q, pr, run, done]
        } else {
            seq![RunState::Created, q, pr, run, done]
        };
        assert(is_walk_between(w, s, done));
    }
}

} // verus!
