use textspace::keys::{KeyCode, Keys, PointerButton};
use textspace::press::{can_press_text, Interactable, Press, Sky};
use textspace::state::InteractionState;

fn held(keys: &[KeyCode]) -> Keys {
    Keys { held: keys.to_vec(), fresh: vec![] }
}

#[test]
fn secondary_button_is_not_heard() {
    let mut state = InteractionState::default();
    let r = state.press_text(true, PointerButton::Secondary, &held(&[KeyCode::Delete]), Some("hi"));
    assert_eq!(r, Press::Nothing);
    assert!(!state.is_focused);
    let solid = Interactable::new();
    assert_eq!(
        state.press_solid(PointerButton::Secondary, Some(solid)),
        (Press::Nothing, Some(solid))
    );
    assert!(!state.is_focused);
}

#[test]
fn texts_are_dragged_and_turned() {
    let mut state = InteractionState::default();
    let r = state.press_text(true, PointerButton::Primary, &held(&[]), Some("hi"));
    assert_eq!(r, Press::Drag);
    assert!(state.is_focused);
    let control = held(&[KeyCode::ControlLeft]);
    let r = state.press_text(false, PointerButton::Middle, &control, Some("hi"));
    assert_eq!(r, Press::Rotate);
    state.release_text();
    assert!(!state.is_focused);
}

#[test]
fn control_begins_an_edit_at_the_last_byte() {
    let mut state = InteractionState::default();
    let control = held(&[KeyCode::ControlLeft]);
    let r = state.press_text(true, PointerButton::Primary, &control, Some("h\u{e9}"));
    assert_eq!(r, Press::Edit { idx: 2 });
    assert!(state.is_focused);
}

#[test]
fn delete_removes_and_wins_over_copying() {
    let both = held(&[KeyCode::Delete, KeyCode::KeyC, KeyCode::ControlLeft]);
    let mut state = InteractionState::default();
    state.accumulated_input = "mine".to_string();
    let r = state.press_text(true, PointerButton::Primary, &both, Some("hi"));
    assert_eq!(r, Press::Remove);
    assert!(!state.is_focused);
    let r = state.press_text(false, PointerButton::Middle, &both, Some("hi"));
    assert_eq!(r, Press::Remove);
    assert!(state.is_focused);
    assert_eq!(state.accumulated_input, "mine");
}

#[test]
fn copy_key_takes_the_text() {
    let mut state = InteractionState::default();
    state.accumulated_input = "mine".to_string();
    let copy = held(&[KeyCode::KeyC, KeyCode::ControlLeft]);
    let r = state.press_text(true, PointerButton::Primary, &copy, Some("hi there"));
    assert_eq!(r, Press::Nothing);
    assert_eq!(state.accumulated_input, "hi there");
    assert!(state.is_focused);
}

#[test]
fn text_that_is_gone_is_only_heard() {
    let mut state = InteractionState::default();
    let r = state.press_text(true, PointerButton::Primary, &held(&[KeyCode::Delete]), None);
    assert_eq!(r, Press::Nothing);
    assert!(state.is_focused);
}

#[test]
fn solids_are_held_and_let_go() {
    let mut state = InteractionState::default();
    let mut solid = Interactable::new();
    assert!(!solid.observing && !solid.interacting);
    assert!(solid.begin_observing());
    assert!(!solid.begin_observing());
    let (press, after) = state.press_solid(PointerButton::Primary, Some(solid));
    assert_eq!(press, Press::Drag);
    assert_eq!(after, Some(Interactable { observing: true, interacting: true }));
    assert!(state.is_focused);
    let after = state.release_solid(after);
    assert_eq!(after, Some(solid));
    assert!(!state.is_focused);
    assert_eq!(state.press_solid(PointerButton::Middle, Some(solid)).0, Press::Rotate);
    assert_eq!(state.press_solid(PointerButton::Middle, None), (Press::Nothing, None));
    assert_eq!(state.release_solid(None), None);
}

#[test]
fn room_change_takes_the_path() {
    let mut state = InteractionState::default();
    state.accumulated_input = "./other".to_string();
    assert_eq!(state.take_room_change(), None);
    assert_eq!(state.accumulated_input, "./other");
    state.despawn_all = true;
    assert_eq!(state.take_room_change(), Some("./other".to_string()));
    assert_eq!(state.accumulated_input, "");
    assert!(!state.despawn_all);
    assert_eq!(state.take_room_change(), None);
}

#[test]
fn global_keys_free_and_shade() {
    let mut state = InteractionState::default();
    state.is_focused = true;
    assert_eq!(state.hear_global_keys(&held(&[KeyCode::Escape])), (false, Sky::Kept));
    assert!(state.is_focused);
    let escape = Keys { held: vec![KeyCode::PageDown], fresh: vec![KeyCode::Escape] };
    assert_eq!(state.hear_global_keys(&escape), (true, Sky::Lighter));
    assert!(!state.is_focused);
    let both = held(&[KeyCode::PageDown, KeyCode::PageUp]);
    assert_eq!(state.hear_global_keys(&both), (false, Sky::Darker));
}

#[test]
fn empty_text_cannot_be_pressed_to_edit() {
    let control = held(&[KeyCode::ControlLeft]);
    assert!(!can_press_text(PointerButton::Primary, &control, Some("")));
    assert!(can_press_text(PointerButton::Primary, &control, Some("a")));
    assert!(can_press_text(PointerButton::Primary, &control, None));
    assert!(can_press_text(PointerButton::Middle, &control, Some("")));
    assert!(can_press_text(PointerButton::Secondary, &control, Some("")));
    let copy = held(&[KeyCode::ControlLeft, KeyCode::KeyC]);
    assert!(can_press_text(PointerButton::Primary, &copy, Some("")));
    let delete = held(&[KeyCode::ControlLeft, KeyCode::Delete]);
    assert!(can_press_text(PointerButton::Primary, &delete, Some("")));
    assert!(can_press_text(PointerButton::Primary, &held(&[]), Some("")));
}
