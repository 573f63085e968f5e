//! The frame loop: what the host does next, given what has just happened.
//!
//! One iteration of the loop polls the pending input, enqueues the kernel,
//! reads the frame back, presents it and reports the frame rate. The loop
//! itself runs outside this library, which cannot poll a window or wait for a
//! device. Here is its state machine: the host reports each event, and is
//! told the next state and the action to perform.

use vstd::prelude::*;
use crate::error::PipelineError;

verus! {

/// An input event, as far as the loop tells events apart.
#[derive(Clone, Copy, Debug, PartialEq, Eq, Structural)]
pub enum InputEvent {
    /// The user asked to quit.
    Quit,
    /// Any other event.
    Other,
}

/// The stage of an iteration that is due.
#[derive(Clone, Copy, Debug, PartialEq, Eq, Structural)]
pub enum Stage {
    Poll,
    Dispatch,
    Readback,
    Present,
    Report,
}

/// How the loop ended.
#[derive(Clone, Copy, Debug, PartialEq, Eq, Structural)]
pub enum Exit {
    /// The user asked to quit.
    Clean,
    /// A component failed.
    Fault(PipelineError),
}

/// The state of the loop.
#[derive(Clone, Copy, Debug, PartialEq, Eq, Structural)]
pub enum LoopState {
    Running(Stage),
    Terminated(Exit),
}

/// What the host reports to the loop.
#[derive(Clone, Copy, Debug, PartialEq, Eq, Structural)]
pub enum Event {
    /// An input event was polled.
    Input(InputEvent),
    /// No input event is pending.
    QueueEmpty,
    /// The stage that was due has been performed.
    StageDone,
    /// A component failed.
    StageFailed(PipelineError),
}

/// What the host is to do next.
#[derive(Clone, Copy, Debug, PartialEq, Eq, Structural)]
pub enum Action {
    /// Poll one pending input event.
    Poll,
    /// Bind the kernel's arguments and enqueue it.
    Dispatch,
    /// Wait for the kernel and read the frame back.
    Readback,
    /// Write the frame to the display surface and show it.
    Present,
    /// Report the frame rate.
    Report,
    /// Leave the loop and end the process with success.
    Exit,
    /// Leave the loop and end the process with this failure.
    Abort(PipelineError),
}

/// The stage that follows a stage within the loop.
pub open spec fn stage_after(stage: Stage) -> Stage {
    match stage {
        Stage::Poll => Stage::Dispatch,
        Stage::Dispatch => Stage::Readback,
        Stage::Readback => Stage::Present,
        Stage::Present => Stage::Report,
        Stage::Report => Stage::Poll,
    }
}

/// The state that follows a state on an event.
///
/// A loop that has ended stays as it is. In a running loop a quit event ends
/// it, whatever stage is due; a fatal failure ends it with that failure; an
/// empty queue ends the polling; the completion of a stage other than the
/// polling makes the next stage due; and everything else is skipped.
pub open spec fn next_state(state: LoopState, event: Event) -> LoopState {
    match state {
        LoopState::Terminated(_) => state,
        LoopState::Running(stage) => match event {
            Event::Input(InputEvent::Quit) => LoopState::Terminated(Exit::Clean),
            Event::Input(InputEvent::Other) => state,
            Event::QueueEmpty => if stage == Stage::Poll {
                LoopState::Running(Stage::Dispatch)
            } else {
                state
            },
            Event::StageDone => if stage == Stage::Poll {
                state
            } else {
                LoopState::Running(stage_after(stage))
            },
            Event::StageFailed(e) => if e.is_fatal_spec() {
                LoopState::Terminated(Exit::Fault(e))
            } else {
                state
            },
        },
    }
}

/// The action that a state asks for.
pub open spec fn action_of(state: LoopState) -> Action {
    match state {
        LoopState::Running(Stage::Poll) => Action::Poll,
        LoopState::Running(Stage::Dispatch) => Action::Dispatch,
        LoopState::Running(Stage::Readback) => Action::Readback,
        LoopState::Running(Stage::Present) => Action::Present,
        LoopState::Running(Stage::Report) => Action::Report,
        LoopState::Terminated(Exit::Clean) => Action::Exit,
        LoopState::Terminated(Exit::Fault(e)) => Action::Abort(e),
    }
}

/// Whether an action leaves the loop.
pub open spec fn leaves_loop(action: Action) -> bool {
    action is Exit || action is Abort
}

/// The state after a sequence of events.
pub open spec fn run(state: LoopState, events: Seq<Event>) -> LoopState
    decreases events.len(),
{
    if events.len() == 0 {
        state
    } else {
        next_state(run(state, events.drop_last()), events.last())
    }
}

impl LoopState {
    /// The state in which the loop starts: running, with the polling due.
    pub fn start() -> (state: LoopState)
        ensures
            state == LoopState::Running(Stage::Poll),
    {
        LoopState::Running(Stage::Poll)
    }

    /// Whether the loop is running.
    pub fn is_running(self) -> (running: bool)
        ensures
            running == (self is Running),
    {
        match self {
            LoopState::Running(_) => true,
            LoopState::Terminated(_) => false,
        }
    }

    /// The action that this state asks for.
    pub fn action(self) -> (action: Action)
        ensures
            action == action_of(self),
    {
        match self {
            LoopState::Running(Stage::Poll) => Action::Poll,
            LoopState::Running(Stage::Dispatch) => Action::Dispatch,
            LoopState::Running(Stage::Readback) => Action::Readback,
            LoopState::Running(Stage::Present) => Action::Present,
            LoopState::Running(Stage::Report) => Action::Report,
            LoopState::Terminated(Exit::Clean) => Action::Exit,
            LoopState::Terminated(Exit::Fault(e)) => Action::Abort(e),
        }
    }

    /// Takes one event: the state that follows, and the action that it asks
    /// for.
    pub fn step(self, event: Event) -> (r: (LoopState, Action))
        ensures
            r.0 == next_state(self, event),
            r.1 == action_of(r.0),
    {
        let next = match self {
            LoopState::Terminated(_) => self,
            LoopState::Running(stage) => match event {
                Event::Input(InputEvent::Quit) => LoopState::Terminated(Exit::Clean),
                Event::Input(InputEvent::Other) => self,
                Event::QueueEmpty => match stage {
                    Stage::Poll => LoopState::Running(Stage::Dispatch),
                    _ => self,
                },
                Event::StageDone => match stage {
                    Stage::Poll => self,
                    Stage::Dispatch => LoopState::Running(Stage::Readback),
                    Stage::Readback => LoopState::Running(Stage::Present),
                    Stage::Present => LoopState::Running(Stage::Report),
                    Stage::Report => LoopState::Running(Stage::Poll),
                },
                Event::StageFailed(e) => if e.is_fatal() {
                    LoopState::Terminated(Exit::Fault(e))
                } else {
                    self
                },
            },
        };
        (next, next.action())
    }
}

/// The frame rate that is reported for an iteration that took `elapsed_ms`
/// milliseconds: `1000 / (elapsed_ms + 1)` frames per second, rounded down.
pub fn fps_estimate(elapsed_ms: u128) -> (fps: u128)
    ensures
        fps == 1000int / (elapsed_ms + 1),
{
    if elapsed_ms >= 1000 {
        assert(1000int / (elapsed_ms + 1) == 0) by (nonlinear_arith)
            requires
                elapsed_ms >= 1000,
        ;
        0
    } else {
        1000 / (elapsed_ms + 1)
    }
}

/// A quit event ends a running loop at once, whatever stage is due, and the
/// host is told to leave.
pub proof fn lemma_quit_terminates(stage: Stage)
    ensures
        next_state(LoopState::Running(stage), Event::Input(InputEvent::Quit)) == LoopState::Terminated(
            Exit::Clean,
        ),
        action_of(next_state(LoopState::Running(stage), Event::Input(InputEvent::Quit))) == Action::Exit,
{
}

/// A fatal failure ends a running loop at once, whatever stage is due, and
/// the host is told to leave with that failure; an input error changes
/// nothing.
pub proof fn lemma_failure_aborts(stage: Stage, e: PipelineError)
    ensures
        e.is_fatal_spec() ==> next_state(LoopState::Running(stage), Event::StageFailed(e))
            == LoopState::Terminated(Exit::Fault(e)),
        e.is_fatal_spec() ==> action_of(next_state(LoopState::Running(stage), Event::StageFailed(e)))
            == Action::Abort(e),
        !e.is_fatal_spec() ==> next_state(LoopState::Running(stage), Event::StageFailed(e))
            == LoopState::Running(stage),
{
}

/// A loop that has ended stays ended, in the same way, whatever is reported
/// to it.
pub proof fn lemma_terminated_absorbs(exit: Exit, events: Seq<Event>)
    ensures
        run(LoopState::Terminated(exit), events) == LoopState::Terminated(exit),
    decreases events.len(),
{
    if events.len() > 0 {
        lemma_terminated_absorbs(exit, events.drop_last());
    }
}

/// Once a quit event has been reported, the loop has ended: after that event
/// and after every later one, the state is terminated and the host is told to
/// leave, never to poll, dispatch, read back, present or report.
pub proof fn lemma_no_work_after_quit(state: LoopState, events: Seq<Event>, i: int, j: int)
    requires
        0 <= i < j <= events.len(),
        events[i] == Event::Input(InputEvent::Quit),
    ensures
        run(state, events.take(j)) is Terminated,
        leaves_loop(action_of(run(state, events.take(j)))),
        state is Running ==> run(state, events.take(i)) is Running ==> run(state, events.take(j))
            == LoopState::Terminated(Exit::Clean),
    decreases j,
{
    assert(events.take(j).drop_last() =~= events.take(j - 1));
    assert(events.take(j).last() == events[j - 1]);
    if j == i + 1 {
    } else {
        lemma_no_work_after_quit(state, events, i, j - 1);
    }
}

/// An iteration in which nothing fails and no one quits performs each stage
/// once, in order, and comes back to the polling.
pub proof fn lemma_iteration()
    ensures
        ({
            let polled = next_state(LoopState::Running(Stage::Poll), Event::QueueEmpty);
            let dispatched = next_state(polled, Event::StageDone);
            let read = next_state(dispatched, Event::StageDone);
            let presented = next_state(read, Event::StageDone);
            let reported = next_state(presented, Event::StageDone);
            &&& action_of(polled) == Action::Dispatch
            &&& action_of(dispatched) == Action::Readback
            &&& action_of(read) == Action::Present
            &&& action_of(presented) == Action::Report
            &&& reported == LoopState::Running(Stage::Poll)
        }),
{
}

} // verus!
