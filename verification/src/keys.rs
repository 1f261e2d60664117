//! What the keyboard and the mouse report, and what a key types.

use vstd::prelude::*;

verus! {

/// A key, by the place it has on the keyboard.
#[derive(Clone, Copy, Debug, PartialEq, Eq, Structural)]
pub enum KeyCode {
    KeyA,
    KeyB,
    KeyC,
    KeyD,
    KeyE,
    KeyF,
    KeyG,
    KeyH,
    KeyI,
    KeyJ,
    KeyK,
    KeyL,
    KeyM,
    KeyN,
    KeyO,
    KeyP,
    KeyQ,
    KeyR,
    KeyS,
    KeyT,
    KeyU,
    KeyV,
    KeyW,
    KeyX,
    KeyY,
    KeyZ,
    Space,
    Period,
    Comma,
    Quote,
    Digit1,
    Digit2,
    Digit3,
    Digit4,
    Digit5,
    Digit6,
    Digit7,
    Digit8,
    Digit9,
    Digit0,
    Semicolon,
    BracketLeft,
    BracketRight,
    Slash,
    Backslash,
    Enter,
    Minus,
    Equal,
    CapsLock,
    Escape,
    Backquote,
    Backspace,
    Delete,
    Tab,
    ArrowLeft,
    ArrowRight,
    ShiftLeft,
    ControlLeft,
    PageUp,
    PageDown,
    /// Any key that nothing listens to.
    Other,
}

/// The characters that `key` types: alone, and with shift.
pub open spec fn key_chars(key: KeyCode) -> Option<(char, char)> {
    match key {
        KeyCode::KeyA => Some(('a', 'A')),
        KeyCode::KeyB => Some(('b', 'B')),
        KeyCode::KeyC => Some(('c', 'C')),
        KeyCode::KeyD => Some(('d', 'D')),
        KeyCode::KeyE => Some(('e', 'E')),
        KeyCode::KeyF => Some(('f', 'F')),
        KeyCode::KeyG => Some(('g', 'G')),
        KeyCode::KeyH => Some(('h', 'H')),
        KeyCode::KeyI => Some(('i', 'I')),
        KeyCode::KeyJ => Some(('j', 'J')),
        KeyCode::KeyK => Some(('k', 'K')),
        KeyCode::KeyL => Some(('l', 'L')),
        KeyCode::KeyM => Some(('m', 'M')),
        KeyCode::KeyN => Some(('n', 'N')),
        KeyCode::KeyO => Some(('o', 'O')),
        KeyCode::KeyP => Some(('p', 'P')),
        KeyCode::KeyQ => Some(('q', 'Q')),
        KeyCode::KeyR => Some(('r', 'R')),
        KeyCode::KeyS => Some(('s', 'S')),
        KeyCode::KeyT => Some(('t', 'T')),
        KeyCode::KeyU => Some(('u', 'U')),
        KeyCode::KeyV => Some(('v', 'V')),
        KeyCode::KeyW => Some(('w', 'W')),
        KeyCode::KeyX => Some(('x', 'X')),
        KeyCode::KeyY => Some(('y', 'Y')),
        KeyCode::KeyZ => Some(('z', 'Z')),
        KeyCode::Space => Some((' ', ' ')),
        KeyCode::Period => Some(('.', '>')),
        KeyCode::Comma => Some((',', '<')),
        KeyCode::Quote => Some(('\'', '"')),
        KeyCode::Digit1 => Some(('1', '!')),
        KeyCode::Digit2 => Some(('2', '@')),
        KeyCode::Digit3 => Some(('3', '#')),
        KeyCode::Digit4 => Some(('4', '$')),
        KeyCode::Digit5 => Some(('5', '^')),
        KeyCode::Digit6 => Some(('6', '&')),
        KeyCode::Digit7 => Some(('7', '&')),
        KeyCode::Digit8 => Some(('8', '*')),
        KeyCode::Digit9 => Some(('9', '(')),
        KeyCode::Digit0 => Some(('0', ')')),
        KeyCode::Semicolon => Some((';', ':')),
        KeyCode::BracketLeft => Some(('{', '[')),
        KeyCode::BracketRight => Some(('}', ']')),
        KeyCode::Slash => Some(('/', '?')),
        KeyCode::Backslash => Some(('\\', '|')),
        KeyCode::Enter => Some(('~', '`')),
        KeyCode::Minus => Some(('-', '_')),
        KeyCode::Equal => Some(('=', '+')),
        _ => None,
    }
}

/// The character that `key` types, with or without shift.
pub open spec fn key_char(key: KeyCode, shifted: bool) -> Option<char> {
    match key_chars(key) {
        Some(chars) => Some(if shifted { chars.1 } else { chars.0 }),
        None => None,
    }
}

/// The texts of the characters that `key` types: alone, and with shift.
fn key_texts(key: KeyCode) -> (r: Option<(&'static str, &'static str)>)
    ensures
        (match key_chars(key) {
            Some(chars) => r matches Some(texts) && texts.0@ == seq![chars.0] && texts.1@ == seq![
                chars.1,
            ],
            None => r is None,
        }),
{
    proof {
        reveal_strlit("a");
        reveal_strlit("A");
        reveal_strlit("b");
        reveal_strlit("B");
        reveal_strlit("c");
        reveal_strlit("C");
        reveal_strlit("d");
        reveal_strlit("D");
        reveal_strlit("e");
        reveal_strlit("E");
        reveal_strlit("f");
        reveal_strlit("F");
        reveal_strlit("g");
        reveal_strlit("G");
        reveal_strlit("h");
        reveal_strlit("H");
        reveal_strlit("i");
        reveal_strlit("I");
        reveal_strlit("j");
        reveal_strlit("J");
        reveal_strlit("k");
        reveal_strlit("K");
        reveal_strlit("l");
        reveal_strlit("L");
        reveal_strlit("m");
        reveal_strlit("M");
        reveal_strlit("n");
        reveal_strlit("N");
        reveal_strlit("o");
        reveal_strlit("O");
        reveal_strlit("p");
        reveal_strlit("P");
        reveal_strlit("q");
        reveal_strlit("Q");
        reveal_strlit("r");
        reveal_strlit("R");
        reveal_strlit("s");
        reveal_strlit("S");
        reveal_strlit("t");
        reveal_strlit("T");
        reveal_strlit("u");
        reveal_strlit("U");
        reveal_strlit("v");
        reveal_strlit("V");
        reveal_strlit("w");
        reveal_strlit("W");
        reveal_strlit("x");
        reveal_strlit("X");
        reveal_strlit("y");
        reveal_strlit("Y");
        reveal_strlit("z");
        reveal_strlit("Z");
        reveal_strlit(" ");
        reveal_strlit(".");
        reveal_strlit(">");
        reveal_strlit(",");
        reveal_strlit("<");
        reveal_strlit("'");
        reveal_strlit("\"");
        reveal_strlit("1");
        reveal_strlit("!");
        reveal_strlit("2");
        reveal_strlit("@");
        reveal_strlit("3");
        reveal_strlit("#");
        reveal_strlit("4");
        reveal_strlit("$");
        reveal_strlit("5");
        reveal_strlit("^");
        reveal_strlit("6");
        reveal_strlit("&");
        reveal_strlit("7");
        reveal_strlit("8");
        reveal_strlit("*");
        reveal_strlit("9");
        reveal_strlit("(");
        reveal_strlit("0");
        reveal_strlit(")");
        reveal_strlit(";");
        reveal_strlit(":");
        reveal_strlit("{");
        reveal_strlit("[");
        reveal_strlit("}");
        reveal_strlit("]");
        reveal_strlit("/");
        reveal_strlit("?");
        reveal_strlit("\\");
        reveal_strlit("|");
        reveal_strlit("~");
        reveal_strlit("`");
        reveal_strlit("-");
        reveal_strlit("_");
        reveal_strlit("=");
        reveal_strlit("+");
    }
    match key {
        KeyCode::KeyA => Some(("a", "A")),
        KeyCode::KeyB => Some(("b", "B")),
        KeyCode::KeyC => Some(("c", "C")),
        KeyCode::KeyD => Some(("d", "D")),
        KeyCode::KeyE => Some(("e", "E")),
        KeyCode::KeyF => Some(("f", "F")),
        KeyCode::KeyG => Some(("g", "G")),
        KeyCode::KeyH => Some(("h", "H")),
        KeyCode::KeyI => Some(("i", "I")),
        KeyCode::KeyJ => Some(("j", "J")),
        KeyCode::KeyK => Some(("k", "K")),
        KeyCode::KeyL => Some(("l", "L")),
        KeyCode::KeyM => Some(("m", "M")),
        KeyCode::KeyN => Some(("n", "N")),
        KeyCode::KeyO => Some(("o", "O")),
        KeyCode::KeyP => Some(("p", "P")),
        KeyCode::KeyQ => Some(("q", "Q")),
        KeyCode::KeyR => Some(("r", "R")),
        KeyCode::KeyS => Some(("s", "S")),
        KeyCode::KeyT => Some(("t", "T")),
        KeyCode::KeyU => Some(("u", "U")),
        KeyCode::KeyV => Some(("v", "V")),
        KeyCode::KeyW => Some(("w", "W")),
        KeyCode::KeyX => Some(("x", "X")),
        KeyCode::KeyY => Some(("y", "Y")),
        KeyCode::KeyZ => Some(("z", "Z")),
        KeyCode::Space => Some((" ", " ")),
        KeyCode::Period => Some((".", ">")),
        KeyCode::Comma => Some((",", "<")),
        KeyCode::Quote => Some(("'", "\"")),
        KeyCode::Digit1 => Some(("1", "!")),
        KeyCode::Digit2 => Some(("2", "@")),
        KeyCode::Digit3 => Some(("3", "#")),
        KeyCode::Digit4 => Some(("4", "$")),
        KeyCode::Digit5 => Some(("5", "^")),
        KeyCode::Digit6 => Some(("6", "&")),
        KeyCode::Digit7 => Some(("7", "&")),
        KeyCode::Digit8 => Some(("8", "*")),
        KeyCode::Digit9 => Some(("9", "(")),
        KeyCode::Digit0 => Some(("0", ")")),
        KeyCode::Semicolon => Some((";", ":")),
        KeyCode::BracketLeft => Some(("{", "[")),
        KeyCode::BracketRight => Some(("}", "]")),
        KeyCode::Slash => Some(("/", "?")),
        KeyCode::Backslash => Some(("\\", "|")),
        KeyCode::Enter => Some(("~", "`")),
        KeyCode::Minus => Some(("-", "_")),
        KeyCode::Equal => Some(("=", "+")),
        _ => None,
    }
}

/// The text that `key` types, with or without shift: one character, or nothing for a key that
/// types none.
pub fn key_text(key: KeyCode, shifted: bool) -> (r: Option<&'static str>)
    ensures
        (match key_char(key, shifted) {
            Some(c) => r matches Some(text) && text@ == seq![c],
            None => r is None,
        }),
{
    match key_texts(key) {
        Some(texts) => Some(if shifted { texts.1 } else { texts.0 }),
        None => None,
    }
}

/// The keys of one frame.
pub struct Keys {
    /// Those that are down.
    pub held: Vec<KeyCode>,
    /// Those that went down in this frame.
    pub fresh: Vec<KeyCode>,
}

fn lists_key(list: &Vec<KeyCode>, key: KeyCode) -> (r: bool)
    ensures
        r == list@.contains(key),
{
    let mut i: usize = 0;
    while i < list.len()
        invariant
            i <= list@.len(),
            forall|j: int| 0 <= j < i ==> list@[j] != key,
        decreases list@.len() - i,
    {
        if list[i] == key {
            return true;
        }
        i = i + 1;
    }
    false
}

impl Keys {
    /// Whether `key` is down.
    pub open spec fn holds(self, key: KeyCode) -> bool {
        self.held@.contains(key)
    }

    /// Whether `key` went down in this frame.
    pub open spec fn starts(self, key: KeyCode) -> bool {
        self.fresh@.contains(key)
    }

    /// Tests whether `key` is down.
    pub fn pressed(&self, key: KeyCode) -> (r: bool)
        ensures
            r == self.holds(key),
    {
        lists_key(&self.held, key)
    }

    /// Tests whether `key` went down in this frame.
    pub fn just_pressed(&self, key: KeyCode) -> (r: bool)
        ensures
            r == self.starts(key),
    {
        lists_key(&self.fresh, key)
    }
}

/// What the three mouse buttons did up to this frame.
#[derive(Clone, Copy, Debug, PartialEq, Eq, Structural)]
pub struct Mouse {
    /// The left button is down.
    pub left: bool,
    /// The middle button is down.
    pub middle: bool,
    /// The right button is down.
    pub right: bool,
    /// The right button went down in this frame.
    pub right_pressed: bool,
    /// The right button went up in this frame.
    pub right_released: bool,
}

impl Mouse {
    /// Whether any of the three buttons is down.
    pub open spec fn any(self) -> bool {
        self.left || self.middle || self.right
    }
}

/// The button of a pointer's press.
#[derive(Clone, Copy, Debug, PartialEq, Eq, Structural)]
pub enum PointerButton {
    Primary,
    Secondary,
    Middle,
}

/// Whether `key` is that of a letter.
pub open spec fn is_letter_key(key: KeyCode) -> bool {
    key_chars(key) matches Some(chars) && 'a' <= chars.0 <= 'z'
}

/// A letter's key types the small letter alone, and the same letter's capital with shift; there is no
/// letter typed in any other way.
pub proof fn shift_makes_capitals(key: KeyCode)
    ensures
        is_letter_key(key) ==> (match (key_char(key, true), key_char(key, false)) {
            (Some(high), Some(low)) => high as int == low as int - 32,
            _ => false,
        }),
        !is_letter_key(key) ==> (key_char(key, true) matches Some(c) ==> !('a' <= c <= 'z') && !('A'
            <= c <= 'Z')),
        key_char(key, true) is Some <==> key_char(key, false) is Some,
        key_char(key, true) is Some <==> key_chars(key) is Some,
{
}

/// No two keys type the same character without shift.
pub proof fn keys_are_told_apart(a: KeyCode, b: KeyCode)
    requires
        key_char(a, false) is Some,
        key_char(a, false) == key_char(b, false),
    ensures
        a == b,
{
}

} // verus!
