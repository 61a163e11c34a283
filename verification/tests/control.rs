use lgaircon::control::{check_loop_step, set_state, LoopAction};
use lgaircon::lg_ac::{FanMode, Mode, State};

fn state(mode: Mode, updated: bool) -> State {
    State {
        updated,
        mode,
        min_temp: 18,
        max_temp: 30,
        target_temp: "21".to_string(),
        fan_speed: 0,
        fan_mode: FanMode::High,
    }
}

#[test]
fn unchanged_state_does_nothing() {
    let mut last = state(Mode::AC, true);
    let mut current = state(Mode::Heat, false);
    let acts = check_loop_step(&mut last, &mut current);
    assert!(acts.is_empty());
    assert_eq!(last.mode, Mode::AC);
    assert!(!current.updated);
}

#[test]
fn posted_state_is_saved_and_sent_once() {
    let mut last = State::default();
    let mut current = State::default();
    current.updated = false;
    set_state(&mut current, state(Mode::AC, false));
    assert!(current.updated);
    let acts = check_loop_step(&mut last, &mut current);
    assert_eq!(acts.len(), 3);
    assert!(matches!(acts[0], LoopAction::PowerOn));
    assert!(matches!(&acts[1], LoopAction::Save(s) if s.mode == Mode::AC && s.updated));
    assert!(matches!(&acts[2], LoopAction::Send(s) if s.mode == Mode::AC));
    assert_eq!(last.mode, Mode::AC);
    assert!(!current.updated);
    let again = check_loop_step(&mut last, &mut current);
    assert!(again.is_empty());
}

#[test]
fn no_power_on_when_already_on() {
    let mut last = state(Mode::Fan, false);
    let mut current = state(Mode::Heat, true);
    let acts = check_loop_step(&mut last, &mut current);
    assert_eq!(acts.len(), 2);
    assert!(matches!(&acts[0], LoopAction::Save(s) if s.mode == Mode::Heat));
    assert!(matches!(&acts[1], LoopAction::Send(s) if s.mode == Mode::Heat));
    assert_eq!(last.mode, Mode::Heat);
}
