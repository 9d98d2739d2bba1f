use esp32serial::config::MyConfig;
use esp32serial::reset::{
    factory_reset, poll_reset, reset_button, ResetAction, ResetState, CONFIG_RESET_COUNT, COUNTDOWN_TICK_MS,
    IDLE_TICK_MS, RESET_GRACE_MS,
};

/// Runs the monitor over the ticks `(restart_requested, pressed)` and returns
/// the state reached and the actions asked for, stopping at the first action
/// that ends the monitor.
fn run(mut state: ResetState, ticks: &[(bool, bool)]) -> (ResetState, Vec<ResetAction>) {
    let mut actions = Vec::new();
    for &(restart, pressed) in ticks {
        let (next, action) = state.tick(restart, pressed);
        state = next;
        actions.push(action);
        if matches!(action, ResetAction::FactoryReset | ResetAction::Restart) {
            break;
        }
    }
    (state, actions)
}

#[test]
fn reset_constants() {
    assert_eq!(CONFIG_RESET_COUNT, 9);
    assert_eq!(IDLE_TICK_MS, 2000);
    assert_eq!(COUNTDOWN_TICK_MS, 500);
    assert_eq!(RESET_GRACE_MS, 2000);
}

#[test]
fn idle_monitor_waits() {
    let (state, actions) = run(ResetState::Idle, &[(false, false); 5]);
    assert_eq!(state, ResetState::Idle);
    assert_eq!(actions, vec![ResetAction::Wait; 5]);
}

#[test]
fn tick_interval_follows_the_state() {
    assert_eq!(ResetState::Idle.tick_ms(), 2000);
    assert_eq!(ResetState::Counting(9).tick_ms(), 500);
    assert_eq!(ResetState::Counting(0).tick_ms(), 500);
}

#[test]
fn press_starts_the_countdown() {
    assert_eq!(
        ResetState::Idle.tick(false, true),
        (ResetState::Counting(9), ResetAction::Warn(9))
    );
    assert_eq!(poll_reset(false, true), (ResetState::Counting(9), ResetAction::Warn(9)));
    assert_eq!(poll_reset(false, false), (ResetState::Idle, ResetAction::Wait));
    assert_eq!(poll_reset(true, false), (ResetState::Idle, ResetAction::Restart));
    assert_eq!(poll_reset(true, true), (ResetState::Idle, ResetAction::Restart));
}

#[test]
fn countdown_steps() {
    assert_eq!(reset_button(9, false, true), (ResetState::Counting(8), ResetAction::Warn(8)));
    assert_eq!(reset_button(2, false, true), (ResetState::Counting(1), ResetAction::Warn(1)));
    assert_eq!(reset_button(1, false, true), (ResetState::Counting(0), ResetAction::FactoryReset));
    assert_eq!(reset_button(0, false, true), (ResetState::Counting(0), ResetAction::FactoryReset));
    assert_eq!(reset_button(5, false, false), (ResetState::Idle, ResetAction::Wait));
    assert_eq!(reset_button(1, false, false), (ResetState::Idle, ResetAction::Wait));
    assert_eq!(reset_button(5, true, true), (ResetState::Counting(5), ResetAction::Restart));
    assert_eq!(reset_button(5, true, false), (ResetState::Counting(5), ResetAction::Restart));
}

#[test]
fn short_press_returns_to_idle_without_reset() {
    for held in 1..=9usize {
        let mut ticks = vec![(false, true); held];
        ticks.push((false, false));
        let (state, actions) = run(ResetState::Idle, &ticks);
        assert_eq!(state, ResetState::Idle, "held for {held} ticks");
        assert_eq!(actions.len(), held + 1);
        for (i, action) in actions[..held].iter().enumerate() {
            assert_eq!(*action, ResetAction::Warn(9 - i as u32));
        }
        assert_eq!(actions[held], ResetAction::Wait);
    }
}

#[test]
fn full_press_resets_exactly_once() {
    let ticks = vec![(false, true); 30];
    let (_, actions) = run(ResetState::Idle, &ticks);
    let mut expected: Vec<ResetAction> = (1..=9u32).rev().map(ResetAction::Warn).collect();
    expected.push(ResetAction::FactoryReset);
    assert_eq!(actions, expected);
    let resets = actions.iter().filter(|a| **a == ResetAction::FactoryReset).count();
    assert_eq!(resets, 1);
}

#[test]
fn interrupted_press_starts_over() {
    let mut ticks = vec![(false, true); 9];
    ticks.push((false, false));
    ticks.extend(vec![(false, true); 9]);
    ticks.push((false, false));
    let (state, actions) = run(ResetState::Idle, &ticks);
    assert_eq!(state, ResetState::Idle);
    assert_eq!(actions.len(), 20);
    assert!(!actions.contains(&ResetAction::FactoryReset));
    assert_eq!(actions[10], ResetAction::Warn(9));
}

#[test]
fn restart_request_is_served_at_the_next_tick() {
    let (_, actions) =
        run(ResetState::Idle, &[(false, false), (false, false), (true, false), (false, false)]);
    assert_eq!(actions, vec![ResetAction::Wait, ResetAction::Wait, ResetAction::Restart]);
}

#[test]
fn restart_request_wins_in_every_state() {
    for state in [ResetState::Idle, ResetState::Counting(9), ResetState::Counting(1)] {
        for pressed in [false, true] {
            assert_eq!(state.tick(true, pressed), (state, ResetAction::Restart));
        }
    }
}

#[test]
fn restart_request_during_a_countdown() {
    let (_, actions) = run(ResetState::Idle, &[(false, true), (false, true), (true, true)]);
    assert_eq!(actions, vec![ResetAction::Warn(9), ResetAction::Warn(8), ResetAction::Restart]);
}

#[test]
fn factory_reset_stores_the_defaults_and_waits() {
    assert_eq!(factory_reset(), (MyConfig::default(), 2000));
}
