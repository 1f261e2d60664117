use textspace::edit::{can_edit, text_len, Editing};
use textspace::keys::{KeyCode, Keys};
use textspace::state::InteractionState;

fn fresh(keys: &[KeyCode]) -> Keys {
    Keys { held: keys.to_vec(), fresh: keys.to_vec() }
}

fn frame(keys: &[KeyCode], text: &str, idx: usize, input: &str) -> (String, usize, bool) {
    let mut state = InteractionState::default();
    state.accumulated_input = input.to_string();
    state.is_focused = true;
    let mut text = text.to_string();
    let mut editing = Editing { idx };
    let keys = fresh(keys);
    assert!(can_edit(&keys, &text, &editing));
    let done = state.edit(&keys, &mut text, &mut editing);
    assert_eq!(state.accumulated_input, "");
    assert_eq!(state.is_focused, !done);
    (text, editing.idx, done)
}

#[test]
fn input_goes_behind_the_last_byte() {
    assert_eq!(frame(&[], "abc", 2, "de"), ("abcde".to_string(), 2, false));
    assert_eq!(frame(&[], "abc", 2, ""), ("abc".to_string(), 2, false));
}

#[test]
fn input_goes_in_at_the_index() {
    assert_eq!(frame(&[], "abc", 1, "XY"), ("aXYbc".to_string(), 4, false));
    assert_eq!(frame(&[], "abc", 0, "-"), ("-abc".to_string(), 3, false));
    assert_eq!(frame(&[], "abc", 3, "d"), ("abcd".to_string(), 3, false));
}

#[test]
fn arrows_move_the_index() {
    assert_eq!(frame(&[KeyCode::ArrowLeft], "abc", 2, "+"), ("a+bc".to_string(), 3, false));
    assert_eq!(frame(&[KeyCode::ArrowLeft], "abc", 0, "+"), ("+abc".to_string(), 3, false));
    assert_eq!(frame(&[KeyCode::ArrowRight], "abc", 2, "+"), ("abc+".to_string(), 3, false));
    assert_eq!(frame(&[KeyCode::ArrowRight], "abc", 3, "+"), ("abc+".to_string(), 3, false));
}

#[test]
fn backspace_shortens_the_text() {
    assert_eq!(frame(&[KeyCode::Backspace], "abc", 2, "d"), ("abd".to_string(), 2, false));
    assert_eq!(frame(&[KeyCode::Backspace], "abc", 1, "d"), ("abd".to_string(), 1, false));
}

#[test]
fn tab_ends_the_edit() {
    assert_eq!(frame(&[KeyCode::Tab], "abc", 2, "d"), ("abcd".to_string(), 2, true));
}

#[test]
fn some_frames_cannot_be_edited() {
    let text = "a".to_string();
    assert!(!can_edit(&fresh(&[KeyCode::Backspace]), &text, &Editing { idx: 0 }));
    assert!(!can_edit(&fresh(&[]), &String::new(), &Editing { idx: 0 }));
    let wide = "\u{e9}\u{e9}x".to_string();
    assert!(!can_edit(&fresh(&[]), &wide, &Editing { idx: 1 }));
    assert!(can_edit(&fresh(&[]), &wide, &Editing { idx: 2 }));
    assert!(can_edit(&fresh(&[]), &wide, &Editing { idx: 4 }));
    assert!(!can_edit(&fresh(&[]), &text, &Editing { idx: 7 }));
}

#[test]
fn wide_characters_stay_whole() {
    assert_eq!(frame(&[], "\u{e9}\u{e9}x", 2, "y"), ("\u{e9}y\u{e9}x".to_string(), 5, false));
}

#[test]
fn ascii_text_is_edited_frame_after_frame() {
    let mut state = InteractionState::default();
    let mut text = "seed".to_string();
    let mut editing = Editing { idx: 3 };
    for (input, keys) in [("x", vec![KeyCode::ArrowLeft]), ("yz", vec![]), ("", vec![KeyCode::Backspace])] {
        let keys = fresh(&keys);
        assert!(can_edit(&keys, &text, &editing));
        state.accumulated_input = input.to_string();
        state.edit(&keys, &mut text, &mut editing);
        assert!(editing.idx < text.len());
    }
    assert_eq!(text, "sexedy");
    assert_eq!(text_len(&text), 6);
}
