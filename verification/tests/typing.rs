use textspace::color::Rgba;
use textspace::keys::{key_text, KeyCode};
use textspace::space::{HALF, ONE};
use textspace::state::InteractionState;
use textspace::text::{color_command, decimal, join_lines, parse_color, parse_number};
use textspace::typing::{drop_last_char, Anchor, Typed};

fn typed_in(text: &str) -> InteractionState {
    let mut state = InteractionState::default();
    state.accumulated_input = text.to_string();
    state
}

#[test]
fn session_starts_blank() {
    let state = InteractionState::default();
    assert!(!state.is_focused && !state.caps && !state.despawn_all && !state.placed_already);
    assert_eq!(state.accumulated_input, "");
    assert_eq!(state.txt_color, Rgba { r: 255, g: 255, b: 255, a: 255 });
}

#[test]
fn letters_are_typed() {
    let mut state = InteractionState::default();
    let r = state.type_key(KeyCode::KeyA, false);
    assert!(matches!(r, Typed::Nothing));
    state.type_key(KeyCode::KeyB, true);
    assert_eq!(state.accumulated_input, "aB");
}

#[test]
fn every_key_types_its_character() {
    let plain = [
        (KeyCode::KeyA, "a", "A"),
        (KeyCode::KeyB, "b", "B"),
        (KeyCode::KeyC, "c", "C"),
        (KeyCode::KeyD, "d", "D"),
        (KeyCode::KeyE, "e", "E"),
        (KeyCode::KeyF, "f", "F"),
        (KeyCode::KeyG, "g", "G"),
        (KeyCode::KeyH, "h", "H"),
        (KeyCode::KeyI, "i", "I"),
        (KeyCode::KeyJ, "j", "J"),
        (KeyCode::KeyK, "k", "K"),
        (KeyCode::KeyL, "l", "L"),
        (KeyCode::KeyM, "m", "M"),
        (KeyCode::KeyN, "n", "N"),
        (KeyCode::KeyO, "o", "O"),
        (KeyCode::KeyP, "p", "P"),
        (KeyCode::KeyQ, "q", "Q"),
        (KeyCode::KeyR, "r", "R"),
        (KeyCode::KeyS, "s", "S"),
        (KeyCode::KeyT, "t", "T"),
        (KeyCode::KeyU, "u", "U"),
        (KeyCode::KeyV, "v", "V"),
        (KeyCode::KeyW, "w", "W"),
        (KeyCode::KeyX, "x", "X"),
        (KeyCode::KeyY, "y", "Y"),
        (KeyCode::KeyZ, "z", "Z"),
        (KeyCode::Space, " ", " "),
        (KeyCode::Period, ".", ">"),
        (KeyCode::Comma, ",", "<"),
        (KeyCode::Quote, "'", "\""),
        (KeyCode::Digit1, "1", "!"),
        (KeyCode::Digit2, "2", "@"),
        (KeyCode::Digit3, "3", "#"),
        (KeyCode::Digit4, "4", "$"),
        (KeyCode::Digit5, "5", "^"),
        (KeyCode::Digit6, "6", "&"),
        (KeyCode::Digit7, "7", "&"),
        (KeyCode::Digit8, "8", "*"),
        (KeyCode::Digit9, "9", "("),
        (KeyCode::Digit0, "0", ")"),
        (KeyCode::Semicolon, ";", ":"),
        (KeyCode::BracketLeft, "{", "["),
        (KeyCode::BracketRight, "}", "]"),
        (KeyCode::Slash, "/", "?"),
        (KeyCode::Backslash, "\\", "|"),
        (KeyCode::Enter, "~", "`"),
        (KeyCode::Minus, "-", "_"),
        (KeyCode::Equal, "=", "+"),
    ];
    for (key, low, high) in plain {
        assert_eq!(key_text(key, false), Some(low));
        assert_eq!(key_text(key, true), Some(high));
    }
    for key in [KeyCode::Tab, KeyCode::ArrowLeft, KeyCode::PageUp, KeyCode::Other] {
        assert_eq!(key_text(key, false), None);
        assert_eq!(key_text(key, true), None);
    }
}

#[test]
fn caps_lock_shifts_until_pressed_again() {
    let mut state = InteractionState::default();
    state.type_key(KeyCode::CapsLock, false);
    assert!(state.caps);
    state.type_key(KeyCode::Digit1, false);
    state.type_key(KeyCode::KeyX, true);
    state.type_key(KeyCode::CapsLock, false);
    assert!(!state.caps);
    state.type_key(KeyCode::KeyX, false);
    assert_eq!(state.accumulated_input, "!Xx");
}

#[test]
fn backspace_undoes_a_key() {
    let mut state = typed_in("h\u{e9}");
    state.type_key(KeyCode::Slash, true);
    assert_eq!(state.accumulated_input, "h\u{e9}?");
    state.type_key(KeyCode::Backspace, false);
    assert_eq!(state.accumulated_input, "h\u{e9}");
    state.type_key(KeyCode::Backspace, false);
    assert_eq!(state.accumulated_input, "h");
    state.type_key(KeyCode::Backspace, false);
    state.type_key(KeyCode::Backspace, false);
    assert_eq!(state.accumulated_input, "");
}

#[test]
fn last_character_is_dropped_whole() {
    assert_eq!(drop_last_char(&"ab\u{1f600}".to_string()), "ab");
    assert_eq!(drop_last_char(&String::new()), "");
}

#[test]
fn delete_clears_the_buffer() {
    let mut state = typed_in("some words");
    assert!(matches!(state.type_key(KeyCode::Delete, false), Typed::Nothing));
    assert_eq!(state.accumulated_input, "");
}

#[test]
fn shift_escape_leaves_the_room() {
    let mut state = typed_in("./other");
    assert!(matches!(state.type_key(KeyCode::Escape, false), Typed::Nothing));
    assert!(!state.despawn_all);
    assert!(matches!(state.type_key(KeyCode::Escape, true), Typed::ViewReset));
    assert!(state.despawn_all);
    assert_eq!(state.accumulated_input, "./other");
}

#[test]
fn text_is_placed_facing_the_camera() {
    let mut state = typed_in("hello");
    state.is_focused = true;
    state.txt_color = Rgba { r: 1, g: 2, b: 3, a: 255 };
    match state.type_key(KeyCode::Backquote, false) {
        Typed::Placed { text, anchor } => {
            assert_eq!(text.text, "hello");
            assert!(text.billboard && text.save && !text.editing);
            assert_eq!(text.size.bits, HALF);
            assert_eq!(text.size.bits, 0.5f32.to_bits());
            assert_eq!(text.color, Rgba { r: 1, g: 2, b: 3, a: 255 });
            assert_eq!(text.bg_color, None);
            assert_eq!(anchor, Anchor::Beside);
        }
        _ => panic!("no text"),
    }
    assert_eq!(state.accumulated_input, "");
    assert!(!state.is_focused);
    assert!(state.placed_already);
}

#[test]
fn text_is_placed_fixed_with_shift() {
    let mut state = typed_in("hello");
    match state.type_key(KeyCode::Backquote, true) {
        Typed::Placed { text, anchor } => {
            assert!(!text.billboard && text.save);
            assert_eq!(text.size.bits, ONE);
            assert_eq!(text.size.bits, 1.0f32.to_bits());
            assert_eq!(anchor, Anchor::Ahead);
        }
        _ => panic!("no text"),
    }
}

#[test]
fn color_command_sets_the_color() {
    let mut state = typed_in("rgb: 10  20   30 40");
    state.is_focused = true;
    assert!(matches!(state.type_key(KeyCode::Backquote, false), Typed::Recolored));
    assert_eq!(state.txt_color, Rgba { r: 10, g: 20, b: 30, a: 255 });
    assert_eq!(state.accumulated_input, "rgb:");
    assert!(state.is_focused);
    assert!(!state.placed_already);
}

#[test]
fn bad_color_command_is_answered() {
    let mut state = typed_in("rgb:1 2 256");
    match state.type_key(KeyCode::Backquote, false) {
        Typed::Placed { text, anchor } => {
            assert_eq!(text.text, "basically shite, can't interpret that, oof sawi");
            assert!(!text.billboard && !text.save);
            assert_eq!(text.color, Rgba { r: 250, g: 10, b: 10, a: 255 });
            assert_eq!(text.size.bits, ONE);
            assert_eq!(anchor, Anchor::Ahead);
        }
        _ => panic!("no answer"),
    }
    assert_eq!(state.accumulated_input, "rgb:1 2 256");
    assert_eq!(state.txt_color, Rgba { r: 255, g: 255, b: 255, a: 255 });
}

#[test]
fn short_text_cannot_be_sent() {
    assert!(!typed_in("abc").can_submit());
    assert!(typed_in("abcd").can_submit());
    assert!(!typed_in("abc\u{e9}").can_submit());
    assert!(typed_in("ab\u{e9}").can_submit());
}

#[test]
fn color_components_are_read() {
    assert!(color_command("rgb:"));
    assert!(!color_command("rgb"));
    assert!(!color_command(" rgb:1"));
    assert_eq!(parse_color("rgb:1 2 3"), vec![1, 2, 3]);
    assert_eq!(parse_color("rgb:rgb: 7 +8 9\t"), vec![7, 8, 9]);
    assert_eq!(parse_color("rgb:1 x 2 -3 4 999 5"), vec![1, 2, 4, 5]);
    assert_eq!(parse_color("rgb:"), Vec::<u8>::new());
    assert_eq!(parse_color("rgb:1\t2 3"), vec![3]);
}

#[test]
fn written_color_reads_back_here() {
    for (r, g, b) in [(0u8, 0u8, 0u8), (255, 254, 100), (9, 10, 99)] {
        let line = format!("rgb:{} {} {}", decimal(r as u64), decimal(g as u64), decimal(b as u64));
        assert_eq!(parse_color(&line), vec![r, g, b]);
    }
}

#[test]
fn numbers_are_read() {
    let read = |s: &str, max: u64| {
        let chars: Vec<char> = s.chars().collect();
        let len = chars.len();
        parse_number(&chars, 0, len, max)
    };
    assert_eq!(read("0", 255), Some(0));
    assert_eq!(read("+42", 255), Some(42));
    assert_eq!(read("00042", 255), Some(42));
    assert_eq!(read("255", 255), Some(255));
    assert_eq!(read("256", 255), None);
    assert_eq!(read("", 255), None);
    assert_eq!(read("+", 255), None);
    assert_eq!(read("-1", 255), None);
    assert_eq!(read("4 2", 255), None);
    assert_eq!(read("18446744073709551615", u64::MAX), Some(u64::MAX));
    assert_eq!(read("18446744073709551616", u64::MAX), None);
}

#[test]
fn numbers_are_written() {
    assert_eq!(decimal(0), "0");
    assert_eq!(decimal(1700000000), "1700000000");
    assert_eq!(decimal(u64::MAX), "18446744073709551615");
}

#[test]
fn lines_are_joined() {
    assert_eq!(join_lines(&vec![]), "");
    assert_eq!(join_lines(&vec!["one".to_string()]), "one");
    let three = vec!["a".to_string(), String::new(), "b\nc".to_string()];
    assert_eq!(join_lines(&three), "a\n\nb\nc");
}
