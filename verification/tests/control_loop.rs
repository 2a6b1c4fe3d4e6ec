use session_runtime::input::{decode, Event, KeyboardEvent};
use session_runtime::runner::{Action, AppRunner, Input, Phase, RunnerState};

#[test]
fn a_new_runner_waits() {
    let runner = AppRunner::new(7);
    assert_eq!(runner.channel(), 7);
    assert_eq!(runner.phase(), Phase::Waiting);
    assert_eq!(runner.state(), RunnerState::Running);
}

#[test]
fn a_tick_is_dispatched_as_a_tick() {
    let mut runner = AppRunner::new(1);
    assert_eq!(runner.step(Input::Tick), Action::Dispatch(Event::Tick));
    assert_eq!(runner.phase(), Phase::Dispatching(Event::Tick));
}

#[test]
fn a_queued_event_is_dispatched_as_it_is() {
    let mut runner = AppRunner::new(1);
    let event = Event::Keyboard(KeyboardEvent::Enter);
    assert_eq!(runner.step(Input::Queued(event)), Action::Dispatch(event));
    let mut runner = AppRunner::new(1);
    assert_eq!(runner.step(Input::Queued(Event::Application)), Action::Dispatch(Event::Application));
}

#[test]
fn a_change_is_drawn_and_a_good_draw_goes_on() {
    let mut runner = AppRunner::new(1);
    runner.step(Input::Tick);
    assert_eq!(runner.step(Input::Handled(true)), Action::Draw);
    assert_eq!(runner.phase(), Phase::Drawing);
    assert_eq!(runner.step(Input::Drawn(true)), Action::Await);
    assert_eq!(runner.phase(), Phase::Waiting);
    assert_eq!(runner.state(), RunnerState::Running);
}

#[test]
fn no_change_means_no_draw() {
    let mut runner = AppRunner::new(1);
    runner.step(Input::Tick);
    assert_eq!(runner.step(Input::Handled(false)), Action::Await);
    assert_eq!(runner.phase(), Phase::Waiting);
}

#[test]
fn a_failed_draw_ends_the_session() {
    let mut runner = AppRunner::new(1);
    runner.step(Input::Queued(Event::Application));
    runner.step(Input::Handled(true));
    assert_eq!(runner.step(Input::Drawn(false)), Action::Close);
    assert_eq!(runner.phase(), Phase::Terminated);
    assert_eq!(runner.state(), RunnerState::Terminated);
}

#[test]
fn shutdown_ends_a_waiting_runner_at_once() {
    let mut runner = AppRunner::new(4);
    assert_eq!(runner.step(Input::Shutdown), Action::Close);
    assert_eq!(runner.state(), RunnerState::Terminated);
    assert_eq!(runner.channel(), 4);
}

#[test]
fn an_unconsumed_back_key_ends_the_session() {
    let mut runner = AppRunner::new(1);
    runner.step(Input::Queued(Event::Keyboard(KeyboardEvent::Back)));
    assert_eq!(runner.step(Input::Handled(false)), Action::Close);
    assert_eq!(runner.state(), RunnerState::Terminated);
}

#[test]
fn a_consumed_back_key_keeps_the_session() {
    let mut runner = AppRunner::new(1);
    runner.step(Input::Queued(Event::Keyboard(KeyboardEvent::Back)));
    assert_eq!(runner.step(Input::Handled(true)), Action::Draw);
    assert_eq!(runner.step(Input::Drawn(true)), Action::Await);
    assert_eq!(runner.state(), RunnerState::Running);
}

#[test]
fn other_unconsumed_keys_keep_the_session() {
    let keys = [
        KeyboardEvent::Left,
        KeyboardEvent::Right,
        KeyboardEvent::Up,
        KeyboardEvent::Down,
        KeyboardEvent::Enter,
        KeyboardEvent::Space,
        KeyboardEvent::Open,
        KeyboardEvent::Help,
    ];
    for key in keys {
        let mut runner = AppRunner::new(1);
        runner.step(Input::Queued(Event::Keyboard(key)));
        assert_eq!(runner.step(Input::Handled(false)), Action::Await);
        assert_eq!(runner.state(), RunnerState::Running);
    }
}

#[test]
fn a_terminated_runner_asks_for_nothing_more() {
    let mut runner = AppRunner::new(1);
    runner.step(Input::Shutdown);
    let inputs = [
        Input::Tick,
        Input::Queued(Event::Keyboard(KeyboardEvent::Up)),
        Input::Shutdown,
        Input::Handled(true),
        Input::Handled(false),
        Input::Drawn(true),
        Input::Drawn(false),
    ];
    for input in inputs {
        assert_eq!(runner.step(input), Action::Ignore);
        assert_eq!(runner.phase(), Phase::Terminated);
    }
}

#[test]
fn reports_that_do_not_fit_the_phase_change_nothing() {
    let mut runner = AppRunner::new(1);
    assert_eq!(runner.step(Input::Handled(true)), Action::Ignore);
    assert_eq!(runner.step(Input::Drawn(false)), Action::Ignore);
    assert_eq!(runner.phase(), Phase::Waiting);
    runner.step(Input::Tick);
    assert_eq!(runner.step(Input::Tick), Action::Ignore);
    assert_eq!(runner.step(Input::Shutdown), Action::Ignore);
    assert_eq!(runner.step(Input::Drawn(true)), Action::Ignore);
    assert_eq!(runner.phase(), Phase::Dispatching(Event::Tick));
    runner.step(Input::Handled(true));
    assert_eq!(runner.step(Input::Handled(true)), Action::Ignore);
    assert_eq!(runner.step(Input::Shutdown), Action::Ignore);
    assert_eq!(runner.step(Input::Queued(Event::Tick)), Action::Ignore);
    assert_eq!(runner.phase(), Phase::Drawing);
}

/// Runs `inputs` through a runner whose application reports a change for
/// the events in `changing`. Returns the events dispatched and the number
/// of draw passes.
fn drive(inputs: &[Input], changing: &[Event]) -> (Vec<Event>, usize, RunnerState) {
    let mut runner = AppRunner::new(1);
    let mut dispatched = Vec::new();
    let mut draws = 0;
    for input in inputs {
        let mut action = runner.step(*input);
        loop {
            action = match action {
                Action::Dispatch(event) => {
                    dispatched.push(event);
                    runner.step(Input::Handled(changing.contains(&event)))
                }
                Action::Draw => {
                    draws += 1;
                    runner.step(Input::Drawn(true))
                }
                Action::Await | Action::Close | Action::Ignore => break,
            };
        }
    }
    (dispatched, draws, runner.state())
}

#[test]
fn tick_key_tick_reaches_the_application_in_that_order() {
    let key = Event::Keyboard(decode(b"k").unwrap());
    let inputs = [Input::Tick, Input::Queued(key), Input::Tick];
    let (dispatched, draws, state) = drive(&inputs, &[]);
    assert_eq!(dispatched, vec![Event::Tick, Event::Keyboard(KeyboardEvent::Up), Event::Tick]);
    assert_eq!(draws, 0);
    assert_eq!(state, RunnerState::Running);
}

#[test]
fn tick_key_tick_draws_once_for_each_event_that_changed_something() {
    let key = Event::Keyboard(decode(b"k").unwrap());
    let inputs = [Input::Tick, Input::Queued(key), Input::Tick];
    let (dispatched, draws, _) = drive(&inputs, &[key]);
    assert_eq!(dispatched.len(), 3);
    assert_eq!(draws, 1);
    let (dispatched, draws, _) = drive(&inputs, &[Event::Tick]);
    assert_eq!(dispatched.len(), 3);
    assert_eq!(draws, 2);
    let (dispatched, draws, _) = drive(&inputs, &[Event::Tick, key]);
    assert_eq!(dispatched.len(), 3);
    assert_eq!(draws, 3);
}

#[test]
fn nothing_is_dispatched_or_drawn_after_shutdown() {
    let inputs = [Input::Tick, Input::Shutdown, Input::Tick, Input::Queued(Event::Application)];
    let (dispatched, draws, state) = drive(&inputs, &[Event::Tick, Event::Application]);
    assert_eq!(dispatched, vec![Event::Tick]);
    assert_eq!(draws, 1);
    assert_eq!(state, RunnerState::Terminated);
}

/// Feeds `inputs` to a fresh runner and returns its answers.
fn answers(inputs: &[Input]) -> Vec<Action> {
    let mut runner = AppRunner::new(1);
    inputs.iter().map(|input| runner.step(*input)).collect()
}

#[test]
fn a_second_draw_is_asked_for_only_after_the_first_has_ended() {
    let inputs = [
        Input::Tick,
        Input::Handled(true),
        Input::Tick,
        Input::Handled(true),
        Input::Queued(Event::Application),
        Input::Drawn(true),
        Input::Handled(true),
        Input::Tick,
        Input::Handled(true),
        Input::Drawn(true),
    ];
    let actions = answers(&inputs);
    let draws: Vec<usize> =
        (0..actions.len()).filter(|index| actions[*index] == Action::Draw).collect();
    assert_eq!(draws, vec![1, 8]);
    for pair in draws.windows(2) {
        let between = &inputs[pair[0] + 1..pair[1]];
        assert!(between.iter().any(|input| matches!(input, Input::Drawn(_))));
    }
}

#[test]
fn close_is_asked_for_at_most_once() {
    let endings: [&[Input]; 3] = [
        &[Input::Shutdown],
        &[Input::Queued(Event::Keyboard(KeyboardEvent::Back)), Input::Handled(false)],
        &[Input::Tick, Input::Handled(true), Input::Drawn(false)],
    ];
    let afterwards = [
        Input::Shutdown,
        Input::Queued(Event::Keyboard(KeyboardEvent::Back)),
        Input::Handled(false),
        Input::Drawn(false),
        Input::Tick,
    ];
    for ending in endings {
        let mut inputs = ending.to_vec();
        inputs.extend_from_slice(&afterwards);
        let actions = answers(&inputs);
        let closes = actions.iter().filter(|action| **action == Action::Close).count();
        assert_eq!(closes, 1);
        assert_eq!(actions[ending.len() - 1], Action::Close);
    }
}
