use raytracer::error::{ErrorCategory, PipelineError};
use raytracer::frame_loop::{fps_estimate, Action, Event, Exit, InputEvent, LoopState, Stage};

fn all_stages() -> [Stage; 5] {
    [Stage::Poll, Stage::Dispatch, Stage::Readback, Stage::Present, Stage::Report]
}

fn all_errors() -> [PipelineError; 8] {
    [
        PipelineError::DeviceAllocation,
        PipelineError::Compile,
        PipelineError::Bind,
        PipelineError::Dispatch,
        PipelineError::Transfer,
        PipelineError::SurfaceLock,
        PipelineError::Present,
        PipelineError::Input,
    ]
}

fn all_events() -> Vec<Event> {
    let mut events = vec![
        Event::Input(InputEvent::Quit),
        Event::Input(InputEvent::Other),
        Event::QueueEmpty,
        Event::StageDone,
    ];
    for e in all_errors() {
        events.push(Event::StageFailed(e));
    }
    events
}

#[test]
fn the_loop_starts_with_the_polling() {
    let state = LoopState::start();
    assert_eq!(state, LoopState::Running(Stage::Poll));
    assert!(state.is_running());
    assert_eq!(state.action(), Action::Poll);
}

#[test]
fn one_iteration_performs_each_stage_once() {
    let state = LoopState::start();
    let (state, action) = state.step(Event::Input(InputEvent::Other));
    assert_eq!((state, action), (LoopState::Running(Stage::Poll), Action::Poll));
    let (state, action) = state.step(Event::QueueEmpty);
    assert_eq!((state, action), (LoopState::Running(Stage::Dispatch), Action::Dispatch));
    let (state, action) = state.step(Event::StageDone);
    assert_eq!((state, action), (LoopState::Running(Stage::Readback), Action::Readback));
    let (state, action) = state.step(Event::StageDone);
    assert_eq!((state, action), (LoopState::Running(Stage::Present), Action::Present));
    let (state, action) = state.step(Event::StageDone);
    assert_eq!((state, action), (LoopState::Running(Stage::Report), Action::Report));
    let (state, action) = state.step(Event::StageDone);
    assert_eq!((state, action), (LoopState::Running(Stage::Poll), Action::Poll));
}

#[test]
fn a_quit_event_ends_the_loop_at_every_stage() {
    for stage in all_stages() {
        let (state, action) = LoopState::Running(stage).step(Event::Input(InputEvent::Quit));
        assert_eq!(state, LoopState::Terminated(Exit::Clean));
        assert_eq!(action, Action::Exit);
        assert!(!state.is_running());
    }
}

#[test]
fn no_work_is_asked_for_after_a_quit() {
    let (mut state, action) = LoopState::start().step(Event::Input(InputEvent::Quit));
    assert_eq!(action, Action::Exit);
    for _ in 0..3 {
        for event in all_events() {
            let (next, action) = state.step(event);
            assert_eq!(next, LoopState::Terminated(Exit::Clean));
            assert_eq!(action, Action::Exit);
            state = next;
        }
    }
}

#[test]
fn a_quit_in_the_middle_of_polling_skips_the_frame() {
    let events = [
        Event::Input(InputEvent::Other),
        Event::Input(InputEvent::Other),
        Event::Input(InputEvent::Quit),
        Event::QueueEmpty,
        Event::StageDone,
        Event::StageDone,
    ];
    let mut state = LoopState::start();
    let mut actions = Vec::new();
    for event in events {
        let (next, action) = state.step(event);
        state = next;
        actions.push(action);
    }
    assert_eq!(
        actions,
        vec![Action::Poll, Action::Poll, Action::Exit, Action::Exit, Action::Exit, Action::Exit]
    );
    assert_eq!(state, LoopState::Terminated(Exit::Clean));
}

#[test]
fn a_fatal_failure_aborts_the_loop_at_every_stage() {
    for stage in all_stages() {
        for e in all_errors() {
            let (state, action) = LoopState::Running(stage).step(Event::StageFailed(e));
            if e == PipelineError::Input {
                assert_eq!(state, LoopState::Running(stage));
                assert_eq!(action, LoopState::Running(stage).action());
            } else {
                assert_eq!(state, LoopState::Terminated(Exit::Fault(e)));
                assert_eq!(action, Action::Abort(e));
            }
        }
    }
}

#[test]
fn a_failed_loop_stays_failed() {
    let (mut state, _) = LoopState::Running(Stage::Readback).step(Event::StageFailed(PipelineError::Transfer));
    for event in all_events() {
        let (next, action) = state.step(event);
        assert_eq!(next, LoopState::Terminated(Exit::Fault(PipelineError::Transfer)));
        assert_eq!(action, Action::Abort(PipelineError::Transfer));
        state = next;
    }
}

#[test]
fn events_that_do_not_fit_the_stage_are_skipped() {
    assert_eq!(
        LoopState::Running(Stage::Poll).step(Event::StageDone),
        (LoopState::Running(Stage::Poll), Action::Poll)
    );
    for stage in [Stage::Dispatch, Stage::Readback, Stage::Present, Stage::Report] {
        let state = LoopState::Running(stage);
        assert_eq!(state.step(Event::QueueEmpty), (state, state.action()));
        assert_eq!(state.step(Event::Input(InputEvent::Other)), (state, state.action()));
    }
}

#[test]
fn each_state_asks_for_its_action() {
    assert_eq!(LoopState::Running(Stage::Poll).action(), Action::Poll);
    assert_eq!(LoopState::Running(Stage::Dispatch).action(), Action::Dispatch);
    assert_eq!(LoopState::Running(Stage::Readback).action(), Action::Readback);
    assert_eq!(LoopState::Running(Stage::Present).action(), Action::Present);
    assert_eq!(LoopState::Running(Stage::Report).action(), Action::Report);
    assert_eq!(LoopState::Terminated(Exit::Clean).action(), Action::Exit);
    assert_eq!(
        LoopState::Terminated(Exit::Fault(PipelineError::Dispatch)).action(),
        Action::Abort(PipelineError::Dispatch)
    );
}

#[test]
fn fps_estimate_is_a_thousand_over_elapsed_plus_one() {
    assert_eq!(fps_estimate(0), 1000);
    assert_eq!(fps_estimate(1), 500);
    assert_eq!(fps_estimate(2), 333);
    assert_eq!(fps_estimate(15), 62);
    assert_eq!(fps_estimate(16), 58);
    assert_eq!(fps_estimate(499), 2);
    assert_eq!(fps_estimate(500), 1);
    assert_eq!(fps_estimate(998), 1);
    assert_eq!(fps_estimate(999), 1);
    assert_eq!(fps_estimate(1000), 0);
    assert_eq!(fps_estimate(123_456_789), 0);
    assert_eq!(fps_estimate(u128::MAX), 0);
}

#[test]
fn failures_fall_under_their_categories() {
    assert_eq!(PipelineError::DeviceAllocation.category(), ErrorCategory::Initialization);
    assert_eq!(PipelineError::Compile.category(), ErrorCategory::Initialization);
    assert_eq!(PipelineError::Bind.category(), ErrorCategory::Initialization);
    assert_eq!(PipelineError::Dispatch.category(), ErrorCategory::Dispatch);
    assert_eq!(PipelineError::Transfer.category(), ErrorCategory::Transfer);
    assert_eq!(PipelineError::SurfaceLock.category(), ErrorCategory::Surface);
    assert_eq!(PipelineError::Present.category(), ErrorCategory::Surface);
    assert_eq!(PipelineError::Input.category(), ErrorCategory::Input);
}

#[test]
fn every_failure_is_fatal_but_an_input_error() {
    for e in all_errors() {
        assert_eq!(e.is_fatal(), e != PipelineError::Input);
        assert_eq!(e.is_fatal(), e.category() != ErrorCategory::Input);
    }
}
