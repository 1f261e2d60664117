use textspace::color::Rgba;
use textspace::flight::{
    mark_place, Cursor, Heading, Memory, Mode, BASE_SPEED, DASH_SPEED, KEY_SPEED, MIDDLE_SPEED,
    ROLL_RATE, SHIFT_SPEED,
};
use textspace::keys::{KeyCode, Keys, Mouse};
use textspace::state::InteractionState;

fn keys(held: &[KeyCode], fresh: &[KeyCode]) -> Keys {
    Keys { held: held.to_vec(), fresh: fresh.to_vec() }
}

fn mouse(left: bool, middle: bool, right: bool) -> Mouse {
    Mouse { left, middle, right, right_pressed: false, right_released: false }
}

#[test]
fn speeds_are_these() {
    assert_eq!(f32::from_bits(BASE_SPEED), 33.333);
    assert_eq!(f32::from_bits(DASH_SPEED), 27.0);
    assert_eq!(f32::from_bits(MIDDLE_SPEED), 24.20);
    assert_eq!(f32::from_bits(KEY_SPEED), 40.484);
    assert_eq!(f32::from_bits(SHIFT_SPEED), 25.0);
    assert_eq!(f32::from_bits(ROLL_RATE), 1.5);
}

#[test]
fn keys_are_typed_with_the_mouse_at_rest() {
    let mut state = InteractionState::default();
    let r = state.begin_frame(&keys(&[], &[]), mouse(false, false, false), false);
    assert_eq!(r, (Cursor::Kept, Mode::Typing));
    state.is_focused = true;
    let r = state.begin_frame(&keys(&[], &[]), mouse(false, false, false), false);
    assert_eq!(r, (Cursor::Kept, Mode::Typing));
    assert!(state.is_focused);
}

#[test]
fn right_button_locks_and_flies() {
    let mut state = InteractionState::default();
    let down = Mouse { right_pressed: true, ..mouse(false, false, true) };
    assert_eq!(state.begin_frame(&keys(&[], &[]), down, false), (Cursor::Locked, Mode::Flying));
    let still = mouse(false, false, true);
    assert_eq!(state.begin_frame(&keys(&[], &[]), still, true), (Cursor::Kept, Mode::Flying));
    state.is_focused = true;
    assert_eq!(state.begin_frame(&keys(&[], &[]), still, true), (Cursor::Kept, Mode::Held));
}

#[test]
fn freeing_the_cursor_lets_go() {
    let mut state = InteractionState::default();
    state.is_focused = true;
    let up = Mouse { right_released: true, ..mouse(false, false, false) };
    assert_eq!(state.begin_frame(&keys(&[], &[]), up, true), (Cursor::Freed, Mode::Typing));
    assert!(!state.is_focused);
    state.is_focused = true;
    let escape = keys(&[KeyCode::Escape], &[KeyCode::Escape]);
    let both = Mouse { right_pressed: true, ..mouse(false, false, true) };
    assert_eq!(state.begin_frame(&escape, both, false), (Cursor::Freed, Mode::Flying));
    assert!(!state.is_focused);
}

#[test]
fn headings_follow_keys_and_buttons() {
    let mut state = InteractionState::default();
    let flight = state.fly(&keys(&[], &[]), mouse(false, false, true));
    assert_eq!(flight.headings, vec![]);
    assert_eq!(flight.roll, 0);
    let all = keys(
        &[
            KeyCode::ControlLeft,
            KeyCode::Space,
            KeyCode::KeyD,
            KeyCode::KeyA,
            KeyCode::KeyS,
            KeyCode::KeyW,
            KeyCode::KeyE,
        ],
        &[],
    );
    let flight = state.fly(&all, mouse(false, false, true));
    assert_eq!(
        flight.headings,
        vec![
            Heading::Forward,
            Heading::Back,
            Heading::Left,
            Heading::Right,
            Heading::Up,
            Heading::Down
        ]
    );
    assert_eq!(flight.roll, -1);
    let flight = state.fly(&keys(&[KeyCode::KeyQ], &[]), mouse(false, true, true));
    assert_eq!(flight.headings, vec![Heading::Forward]);
    assert_eq!(flight.roll, 1);
    let flight = state.fly(&keys(&[KeyCode::KeyQ, KeyCode::KeyE], &[]), mouse(true, true, true));
    assert_eq!(flight.headings, vec![Heading::Forward]);
    assert_eq!(flight.roll, 0);
}

#[test]
fn dashing_adds_speed() {
    let mut state = InteractionState::default();
    let bits = |flight: textspace::flight::Flight| {
        flight.speeds.iter().map(|s| s.bits).collect::<Vec<u32>>()
    };
    let w = keys(&[KeyCode::KeyW], &[]);
    assert_eq!(bits(state.fly(&w, mouse(false, true, true))), vec![BASE_SPEED]);
    assert_eq!(
        bits(state.fly(&w, mouse(true, false, true))),
        vec![BASE_SPEED, DASH_SPEED, KEY_SPEED]
    );
    let shifted = keys(&[KeyCode::KeyW, KeyCode::ShiftLeft], &[]);
    assert_eq!(
        bits(state.fly(&shifted, mouse(true, true, true))),
        vec![BASE_SPEED, DASH_SPEED, MIDDLE_SPEED, KEY_SPEED, SHIFT_SPEED]
    );
}

#[test]
fn places_are_saved_and_recalled() {
    let mut state = InteractionState::default();
    let still = mouse(false, false, true);
    let save = keys(&[KeyCode::ShiftLeft, KeyCode::KeyT], &[KeyCode::KeyT]);
    assert_eq!(state.fly(&save, still).memory, Memory::Save);
    let recall = keys(&[KeyCode::ShiftLeft, KeyCode::KeyR], &[KeyCode::KeyR]);
    assert_eq!(state.fly(&recall, still).memory, Memory::Recall);
    let both = keys(&[KeyCode::ShiftLeft], &[KeyCode::KeyR, KeyCode::KeyT]);
    assert_eq!(state.fly(&both, still).memory, Memory::Save);
    let bare = keys(&[KeyCode::KeyT], &[KeyCode::KeyT]);
    assert_eq!(state.fly(&bare, still).memory, Memory::Nothing);
    let old = keys(&[KeyCode::ShiftLeft, KeyCode::KeyT], &[]);
    assert_eq!(state.fly(&old, still).memory, Memory::Nothing);
}

#[test]
fn saving_is_given_up_once_after_placing() {
    let mut state = InteractionState::default();
    state.placed_already = true;
    state.accumulated_input = "3".to_string();
    let still = mouse(false, false, true);
    let save = keys(&[KeyCode::ShiftLeft, KeyCode::Backspace], &[KeyCode::KeyT]);
    let flight = state.fly(&save, still);
    assert!(flight.given_up);
    assert_eq!(flight.memory, Memory::Nothing);
    assert_eq!(flight.jump, None);
    assert!(state.placed_already);
    assert_eq!(state.accumulated_input, "3");
    assert!(!state.fly(&keys(&[], &[]), still).given_up);
    assert!(!state.placed_already);
    let flight = state.fly(&save, still);
    assert!(!flight.given_up);
    assert_eq!(flight.memory, Memory::Save);
    assert_eq!(flight.jump, Some(3));
    assert_eq!(state.accumulated_input, "");
}

#[test]
fn backspace_jumps_to_the_typed_number() {
    let still = mouse(false, false, true);
    let back = keys(&[KeyCode::Backspace], &[]);
    for (typed, number) in [
        ("0", Some(0)),
        ("12", Some(12)),
        ("+7", Some(7)),
        ("", None),
        ("x1", None),
        ("99999999999999999999999", None),
    ] {
        let mut state = InteractionState::default();
        state.accumulated_input = typed.to_string();
        assert_eq!(state.fly(&back, still).jump, number);
        assert_eq!(state.accumulated_input, "");
    }
    let mut state = InteractionState::default();
    state.accumulated_input = "5".to_string();
    assert_eq!(state.fly(&keys(&[], &[]), still).jump, None);
    assert_eq!(state.accumulated_input, "5");
}

#[test]
fn recalled_place_is_marked() {
    let text = mark_place(1700000000);
    assert_eq!(text.text, "1700000000");
    assert!(text.billboard && !text.save && !text.editing);
    assert_eq!(text.color, Rgba { r: 255, g: 0, b: 30, a: 255 });
    assert_eq!(text.bg_color, None);
    assert_eq!(f32::from_bits(text.size.bits), 1.0);
}
