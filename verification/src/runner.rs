//! The control loop of one session, as a state machine.
//!
//! A session's runner waits for whichever comes first of the redraw timer,
//! the session's event queue and the shutdown signal. It hands the event to
//! the embedded application, redraws if the application says that something
//! changed, and stops when it is told to, when the user backs out, or when a
//! redraw fails.
//!
//! Waiting, dispatching and drawing are the embedding program's work. The
//! decisions are here: `AppRunner::step` takes what just happened and answers
//! with what to do next. The program performs that and reports back.

use vstd::prelude::*;
use crate::input::{Event, KeyboardEvent};

verus! {

/// Where within its loop a runner stands.
#[derive(Clone, Copy, Debug, PartialEq, Eq, Structural)]
pub enum Phase {
    /// Between two iterations: racing timer, queue and shutdown signal.
    Waiting,
    /// This event is with the application, whose verdict is awaited.
    Dispatching(Event),
    /// A draw pass is under way.
    Drawing,
    /// The loop has ended.
    Terminated,
}

/// The two states of a runner as the rest of the system sees them.
#[derive(Clone, Copy, Debug, PartialEq, Eq, Structural)]
pub enum RunnerState {
    Running,
    Terminated,
}

/// What the embedding program reports to the runner.
#[derive(Clone, Copy, Debug, PartialEq, Eq, Structural)]
pub enum Input {
    /// The redraw timer won the race.
    Tick,
    /// The event queue won the race with this event.
    Queued(Event),
    /// The shutdown signal won the race.
    Shutdown,
    /// The application took the dispatched event; `true` if what it presents
    /// has changed.
    Handled(bool),
    /// The draw pass ended; `true` if it succeeded.
    Drawn(bool),
}

/// What the runner asks the embedding program to do next.
#[derive(Clone, Copy, Debug, PartialEq, Eq, Structural)]
pub enum Action {
    /// Release the session lock if it is held, then race the three sources.
    Await,
    /// Take the session lock and hand this event to the application.
    Dispatch(Event),
    /// Perform one draw pass, still under the session lock.
    Draw,
    /// Release the session lock if it is held, ask for the channel to be
    /// closed and give up the session's registry entry. Nothing follows.
    Close,
    /// The report did not fit the phase: carry on as before.
    Ignore,
}

/// The runner's transition function.
///
/// Only a report that fits the phase moves the runner. The back key ends the
/// session only if the application let it pass: a screen that uses it for
/// its own navigation reports a change, and the session goes on.
pub open spec fn spec_step(phase: Phase, input: Input) -> (Phase, Action) {
    match (phase, input) {
        (Phase::Waiting, Input::Tick) => (
            Phase::Dispatching(Event::Tick),
            Action::Dispatch(Event::Tick),
        ),
        (Phase::Waiting, Input::Queued(event)) => (
            Phase::Dispatching(event),
            Action::Dispatch(event),
        ),
        (Phase::Waiting, Input::Shutdown) => (Phase::Terminated, Action::Close),
        (Phase::Dispatching(_), Input::Handled(true)) => (Phase::Drawing, Action::Draw),
        (Phase::Dispatching(event), Input::Handled(false)) => {
            if event == Event::Keyboard(KeyboardEvent::Back) {
                (Phase::Terminated, Action::Close)
            } else {
                (Phase::Waiting, Action::Await)
            }
        },
        (Phase::Drawing, Input::Drawn(true)) => (Phase::Waiting, Action::Await),
        (Phase::Drawing, Input::Drawn(false)) => (Phase::Terminated, Action::Close),
        _ => (phase, Action::Ignore),
    }
}

/// The state that a phase belongs to.
pub open spec fn state_of(phase: Phase) -> RunnerState {
    if phase is Terminated {
        RunnerState::Terminated
    } else {
        RunnerState::Running
    }
}

/// The phase of a runner that started in `start`, before it takes the report
/// at position `k` of `inputs`.
pub open spec fn phase_at(start: Phase, inputs: Seq<Input>, k: nat) -> Phase
    decreases k,
{
    if k == 0 {
        start
    } else {
        spec_step(phase_at(start, inputs, (k - 1) as nat), inputs[k - 1]).0
    }
}

/// The runner's answer to the report at position `k` of `inputs`.
pub open spec fn action_at(start: Phase, inputs: Seq<Input>, k: nat) -> Action {
    spec_step(phase_at(start, inputs, k), inputs[k as int]).1
}

/// The control loop's decisions for the session on one channel.
pub struct AppRunner {
    channel: u32,
    phase: Phase,
}

impl AppRunner {
    /// The channel whose session this runner drives.
    pub closed spec fn spec_channel(&self) -> u32 {
        self.channel
    }

    /// Where the runner stands.
    pub closed spec fn spec_phase(&self) -> Phase {
        self.phase
    }

    /// A runner for the session on `channel`, about to wait for the first time.
    pub fn new(channel: u32) -> (runner: Self)
        ensures
            runner.spec_channel() == channel,
            runner.spec_phase() == Phase::Waiting,
    {
        AppRunner { channel, phase: Phase::Waiting }
    }

    #[verifier::when_used_as_spec(spec_channel)]
    pub fn channel(&self) -> (channel: u32)
        ensures
            channel == self.spec_channel(),
    {
        self.channel
    }

    #[verifier::when_used_as_spec(spec_phase)]
    pub fn phase(&self) -> (phase: Phase)
        ensures
            phase == self.spec_phase(),
    {
        self.phase
    }

    /// Whether the runner is still running.
    pub fn state(&self) -> (state: RunnerState)
        ensures
            state == state_of(self.phase()),
    {
        match self.phase {
            Phase::Terminated => RunnerState::Terminated,
            _ => RunnerState::Running,
        }
    }

    /// Takes one report and answers with what to do next.
    pub fn step(&mut self, input: Input) -> (action: Action)
        ensures
            (final(self).phase(), action) == spec_step(old(self).phase(), input),
            final(self).channel() == old(self).channel(),
    {
        let (next, action) = match (self.phase, input) {
            (Phase::Waiting, Input::Tick) => (
                Phase::Dispatching(Event::Tick),
                Action::Dispatch(Event::Tick),
            ),
            (Phase::Waiting, Input::Queued(event)) => (
                Phase::Dispatching(event),
                Action::Dispatch(event),
            ),
            (Phase::Waiting, Input::Shutdown) => (Phase::Terminated, Action::Close),
            (Phase::Dispatching(_), Input::Handled(true)) => (Phase::Drawing, Action::Draw),
            (Phase::Dispatching(event), Input::Handled(false)) => {
                match event {
                    Event::Keyboard(KeyboardEvent::Back) => (Phase::Terminated, Action::Close),
                    _ => (Phase::Waiting, Action::Await),
                }
            },
            (Phase::Drawing, Input::Drawn(true)) => (Phase::Waiting, Action::Await),
            (Phase::Drawing, Input::Drawn(false)) => (Phase::Terminated, Action::Close),
            (phase, _) => (phase, Action::Ignore),
        };
        self.phase = next;
        action
    }
}

/// A runner enters `Terminated` only with the request to close its channel,
/// and makes that request on no other step.
pub proof fn lemma_close_marks_termination(phase: Phase, input: Input)
    ensures
        spec_step(phase, input).1 == Action::Close <==> !(phase is Terminated) && spec_step(
            phase,
            input,
        ).0 is Terminated,
{
}

/// A terminated runner stays terminated whatever it is told, and asks for
/// nothing more: no dispatch, no draw, no second close.
pub proof fn lemma_terminated_is_final(start: Phase, inputs: Seq<Input>, i: nat, j: nat)
    requires
        phase_at(start, inputs, i) is Terminated,
        i <= j,
    ensures
        phase_at(start, inputs, j) is Terminated,
        action_at(start, inputs, j) == Action::Ignore,
    decreases j,
{
    if i < j {
        lemma_terminated_is_final(start, inputs, i, (j - 1) as nat);
    }
}

/// A waiting runner that sees the shutdown signal stops with that very step,
/// on which it asks for its channel to be closed. After it, no report makes
/// the runner dispatch an event or draw again.
pub proof fn lemma_nothing_after_shutdown(start: Phase, inputs: Seq<Input>, i: nat, j: nat)
    requires
        i < j,
        phase_at(start, inputs, i) is Waiting,
        inputs[i as int] is Shutdown,
    ensures
        action_at(start, inputs, i) == Action::Close,
        phase_at(start, inputs, j) is Terminated,
        action_at(start, inputs, j) == Action::Ignore,
{
    assert(phase_at(start, inputs, i + 1) is Terminated);
    lemma_terminated_is_final(start, inputs, i + 1, j);
}

/// A runner asks at most once for its channel to be closed, and so gives up
/// its registry entry at most once.
pub proof fn lemma_close_at_most_once(start: Phase, inputs: Seq<Input>, i: nat, j: nat)
    requires
        i < j,
        action_at(start, inputs, i) == Action::Close,
    ensures
        action_at(start, inputs, j) != Action::Close,
{
    assert(phase_at(start, inputs, i + 1) is Terminated);
    lemma_terminated_is_final(start, inputs, i + 1, j);
}

/// A draw pass is asked for exactly when the application reports that the
/// event it was handed has changed what it presents.
pub proof fn lemma_draw_follows_change(phase: Phase, input: Input)
    ensures
        spec_step(phase, input).1 == Action::Draw <==> phase is Dispatching && input
            == Input::Handled(true),
{
}

/// Once a draw pass has been asked for, the runner stays in `Drawing` until
/// the pass is reported to have ended.
pub proof fn lemma_drawing_until_drawn(start: Phase, inputs: Seq<Input>, i: nat, j: nat)
    requires
        i < j,
        action_at(start, inputs, i) == Action::Draw,
        forall|k: int| i < k < j ==> !(#[trigger] inputs[k] is Drawn),
    ensures
        phase_at(start, inputs, j) is Drawing,
    decreases j,
{
    if i + 1 < j {
        lemma_drawing_until_drawn(start, inputs, i, (j - 1) as nat);
    }
}

/// The runner never has two draw passes under way: between any two requests
/// to draw, the end of the first pass was reported.
pub proof fn lemma_one_draw_at_a_time(start: Phase, inputs: Seq<Input>, i: nat, j: nat)
    requires
        i < j,
        action_at(start, inputs, i) == Action::Draw,
        action_at(start, inputs, j) == Action::Draw,
    ensures
        exists|k: int| i < k < j && #[trigger] inputs[k] is Drawn,
{
    if forall|k: int| i < k < j ==> !(#[trigger] inputs[k] is Drawn) {
        lemma_drawing_until_drawn(start, inputs, i, j);
    }
}

/// The event that a report brings to a runner in `phase`, if it brings one:
/// a tick or a queued event, and only to a runner that waits.
pub open spec fn event_taken(phase: Phase, input: Input) -> Option<Event> {
    match (phase, input) {
        (Phase::Waiting, Input::Tick) => Some(Event::Tick),
        (Phase::Waiting, Input::Queued(event)) => Some(event),
        _ => None,
    }
}

/// The events that the first `k` of `inputs` brought to the runner, in the
/// order in which they came.
pub open spec fn events_taken(start: Phase, inputs: Seq<Input>, k: nat) -> Seq<Event>
    decreases k,
{
    if k == 0 {
        Seq::empty()
    } else {
        let earlier = events_taken(start, inputs, (k - 1) as nat);
        match event_taken(phase_at(start, inputs, (k - 1) as nat), inputs[k - 1]) {
            Some(event) => earlier.push(event),
            None => earlier,
        }
    }
}

/// The events that the runner asked to have dispatched in answer to the
/// first `k` of `inputs`, in the order of asking.
pub open spec fn events_dispatched(start: Phase, inputs: Seq<Input>, k: nat) -> Seq<Event>
    decreases k,
{
    if k == 0 {
        Seq::empty()
    } else {
        let earlier = events_dispatched(start, inputs, (k - 1) as nat);
        match action_at(start, inputs, (k - 1) as nat) {
            Action::Dispatch(event) => earlier.push(event),
            _ => earlier,
        }
    }
}

/// The application gets every event that the runner took, once, and in the
/// order in which the runner took them.
pub proof fn lemma_dispatched_as_taken(start: Phase, inputs: Seq<Input>, k: nat)
    ensures
        events_dispatched(start, inputs, k) == events_taken(start, inputs, k),
    decreases k,
{
    if k > 0 {
        lemma_dispatched_as_taken(start, inputs, (k - 1) as nat);
    }
}

} // verus!
