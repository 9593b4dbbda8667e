use life::controls::{
    action_button_update, debug_text_update, keyboard_input, state_button_update, ButtonLabel, ButtonLook,
    ButtonResponse, GameState, Interaction, KeysPressed, TickDelay,
};

const NO_KEYS: KeysPressed = KeysPressed { space: false, minus: false, equal: false };

#[test]
fn defaults() {
    assert_eq!(TickDelay::default().0, 500);
    assert_eq!(GameState::default(), GameState::Starting);
}

#[test]
fn space_pauses_and_resumes() {
    let mut delay = TickDelay(300);
    let space = KeysPressed { space: true, ..NO_KEYS };
    assert_eq!(
        keyboard_input(space, GameState::Running, &mut delay),
        Some((GameState::Paused, ButtonLabel::Run))
    );
    assert_eq!(
        keyboard_input(space, GameState::Paused, &mut delay),
        Some((GameState::Running, ButtonLabel::Pause))
    );
    assert_eq!(keyboard_input(space, GameState::Starting, &mut delay), None);
    // space wins over the delay keys
    let all = KeysPressed { space: true, minus: true, equal: true };
    assert_eq!(
        keyboard_input(all, GameState::Running, &mut delay),
        Some((GameState::Paused, ButtonLabel::Run))
    );
    assert_eq!(delay.0, 300);
}

#[test]
fn minus_speeds_up_down_to_zero() {
    let mut delay = TickDelay::default();
    let minus = KeysPressed { minus: true, equal: true, ..NO_KEYS };
    let mut seen = Vec::new();
    for _ in 0..7 {
        assert_eq!(keyboard_input(minus, GameState::Running, &mut delay), None);
        seen.push(delay.0);
    }
    assert_eq!(seen, vec![400, 300, 200, 100, 0, 0, 0]);
}

#[test]
fn equal_slows_down_up_to_five_hundred() {
    let mut delay = TickDelay(0);
    let equal = KeysPressed { equal: true, ..NO_KEYS };
    let mut seen = Vec::new();
    for _ in 0..7 {
        assert_eq!(keyboard_input(equal, GameState::Paused, &mut delay), None);
        seen.push(delay.0);
    }
    assert_eq!(seen, vec![100, 200, 300, 400, 500, 500, 500]);
}

#[test]
fn odd_delays_step_by_one_hundred() {
    let mut delay = TickDelay(50);
    delay.speed_up();
    assert_eq!(delay.0, 50);
    delay.slow_down();
    assert_eq!(delay.0, 150);
    let mut delay = TickDelay(450);
    delay.slow_down();
    assert_eq!(delay.0, 450);
}

#[test]
fn speed_round_trip() {
    let mut delay = TickDelay(300);
    delay.speed_up();
    delay.slow_down();
    assert_eq!(delay.0, 300);
    delay.slow_down();
    delay.speed_up();
    assert_eq!(delay.0, 300);
}

#[test]
fn no_key_changes_nothing() {
    let mut delay = TickDelay(200);
    assert_eq!(keyboard_input(NO_KEYS, GameState::Running, &mut delay), None);
    assert_eq!(delay.0, 200);
}

#[test]
fn state_button_press() {
    assert_eq!(
        state_button_update(Interaction::Pressed, GameState::Running),
        ButtonResponse {
            next_state: Some(GameState::Paused),
            label: Some(ButtonLabel::Run),
            look: None,
            activate: true,
        }
    );
    assert_eq!(
        state_button_update(Interaction::Pressed, GameState::Paused),
        ButtonResponse {
            next_state: Some(GameState::Running),
            label: Some(ButtonLabel::Pause),
            look: None,
            activate: true,
        }
    );
    assert_eq!(
        state_button_update(Interaction::Pressed, GameState::Starting),
        ButtonResponse {
            next_state: None,
            label: Some(ButtonLabel::Loading),
            look: None,
            activate: true,
        }
    );
}

#[test]
fn state_button_hover_and_leave() {
    assert_eq!(
        state_button_update(Interaction::Hovered, GameState::Running),
        ButtonResponse { next_state: None, label: None, look: Some(ButtonLook::Hovered), activate: false }
    );
    assert_eq!(
        state_button_update(Interaction::Idle, GameState::Running).label,
        Some(ButtonLabel::Pause)
    );
    assert_eq!(
        state_button_update(Interaction::Idle, GameState::Paused).label,
        Some(ButtonLabel::Run)
    );
    assert_eq!(
        state_button_update(Interaction::Idle, GameState::Starting),
        ButtonResponse {
            next_state: None,
            label: Some(ButtonLabel::Loading),
            look: Some(ButtonLook::Normal),
            activate: false,
        }
    );
}

#[test]
fn state_button_twice_returns() {
    let first = state_button_update(Interaction::Pressed, GameState::Running);
    let next = first.next_state.unwrap();
    let second = state_button_update(Interaction::Pressed, next);
    assert_eq!(second.next_state, Some(GameState::Running));
    assert_eq!(first.label, state_button_update(Interaction::Idle, next).label);
}

#[test]
fn action_buttons() {
    assert!(action_button_update(Interaction::Pressed).activate);
    assert_eq!(action_button_update(Interaction::Pressed).look, None);
    assert_eq!(
        action_button_update(Interaction::Hovered),
        ButtonResponse { next_state: None, label: None, look: Some(ButtonLook::Hovered), activate: false }
    );
    assert_eq!(
        action_button_update(Interaction::Idle),
        ButtonResponse { next_state: None, label: None, look: Some(ButtonLook::Normal), activate: false }
    );
}

#[test]
fn labels_read() {
    assert_eq!(ButtonLabel::Run.text(), "Run");
    assert_eq!(ButtonLabel::Pause.text(), "Pause");
    assert_eq!(ButtonLabel::Loading.text(), "Loading...");
}

#[test]
fn f11_flips_the_overlay() {
    assert_eq!(debug_text_update(true, false), Some(true));
    assert_eq!(debug_text_update(true, true), Some(false));
    assert_eq!(debug_text_update(false, true), None);
    assert_eq!(debug_text_update(false, false), None);
}
