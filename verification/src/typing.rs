//! Typing into the buffer, and what is done with what was typed.

use vstd::prelude::*;
use vstd::string::*;
use vstd::utf8::{encode_utf8, is_char_boundary};
use crate::color::{opaque, Rgba};
use crate::keys::{key_char, key_chars, key_text, KeyCode};
use crate::scene::{FloatingText, FloatingTextModel};
use crate::space::{scalar, Scalar, HALF, ONE};
use crate::state::{InteractionState, StateModel};
use crate::text::{color_command, color_components, is_color_command, parse_color, rgb_mark};

verus! {

/// Where a new text is put.
#[derive(Clone, Copy, Debug, PartialEq, Eq, Structural)]
pub enum Anchor {
    /// Straight ahead, turned as the camera is.
    Ahead,
    /// Ahead and to the right, facing the camera.
    Beside,
}

/// What a typed key asks for, beyond the change to the state.
pub enum Typed {
    Nothing,
    /// Put the camera back to the origin.
    ViewReset,
    /// Show what is typed in the new text color.
    Recolored,
    /// Put up a text.
    Placed { text: FloatingText, anchor: Anchor },
}

/// The value of a [`Typed`].
pub enum TypedModel {
    Nothing,
    ViewReset,
    Recolored,
    Placed { text: FloatingTextModel, anchor: Anchor },
}

impl View for Typed {
    type V = TypedModel;

    open spec fn view(&self) -> TypedModel {
        match *self {
            Typed::Nothing => TypedModel::Nothing,
            Typed::ViewReset => TypedModel::ViewReset,
            Typed::Recolored => TypedModel::Recolored,
            Typed::Placed { text, anchor } => TypedModel::Placed { text: text@, anchor },
        }
    }
}

/// The answer to a color command that names fewer than three components.
pub open spec fn complaint() -> Seq<char> {
    "basically shite, can't interpret that, oof sawi"@
}

/// What becomes of the typed text when it is sent off, with or without shift.
///
/// A color command sets the text color, or is answered with a complaint and left as it is.
/// Anything else becomes a text of the room: fixed with shift, else facing the camera.
pub open spec fn submitted(s: StateModel, shift: bool) -> (StateModel, TypedModel) {
    if is_color_command(s.input) {
        let components = color_components(s.input);
        if components.len() >= 3 {
            (
                StateModel {
                    txt_color: opaque(components[0], components[1], components[2]),
                    input: rgb_mark(),
                    ..s
                },
                TypedModel::Recolored,
            )
        } else {
            (
                s,
                TypedModel::Placed {
                    text: FloatingTextModel {
                        billboard: false,
                        text: complaint(),
                        size: scalar(ONE),
                        color: opaque(250, 10, 10),
                        bg_color: None,
                        save: false,
                        editing: false,
                    },
                    anchor: Anchor::Ahead,
                },
            )
        }
    } else {
        (
            StateModel { input: Seq::empty(), is_focused: false, placed_already: true, ..s },
            TypedModel::Placed {
                text: FloatingTextModel {
                    billboard: !shift,
                    text: s.input,
                    size: if shift {
                        scalar(ONE)
                    } else {
                        scalar(HALF)
                    },
                    color: s.txt_color,
                    bg_color: None,
                    save: true,
                    editing: false,
                },
                anchor: if shift {
                    Anchor::Ahead
                } else {
                    Anchor::Beside
                },
            },
        )
    }
}

/// `s` without its last character.
pub open spec fn without_last(s: Seq<char>) -> Seq<char> {
    if s.len() > 0 {
        s.drop_last()
    } else {
        s
    }
}

/// What the key `key` does to the state `s`, and what it asks for; `shift` says whether the
/// left shift key is down.
pub open spec fn typed(s: StateModel, key: KeyCode, shift: bool) -> (StateModel, TypedModel) {
    match key {
        KeyCode::CapsLock => (StateModel { caps: !s.caps, ..s }, TypedModel::Nothing),
        KeyCode::Escape => if shift {
            (StateModel { despawn_all: true, ..s }, TypedModel::ViewReset)
        } else {
            (s, TypedModel::Nothing)
        },
        KeyCode::Backquote => submitted(s, shift),
        KeyCode::Backspace => (
            StateModel { input: without_last(s.input), ..s },
            TypedModel::Nothing,
        ),
        KeyCode::Delete => (StateModel { input: Seq::empty(), ..s }, TypedModel::Nothing),
        _ => match key_char(key, s.caps || shift) {
            Some(c) => (StateModel { input: s.input.push(c), ..s }, TypedModel::Nothing),
            None => (s, TypedModel::Nothing),
        },
    }
}

/// Whether the typed text can be looked at for a color mark: its fourth byte ends a character.
pub open spec fn submittable(input: Seq<char>) -> bool {
    is_char_boundary(encode_utf8(input), 4)
}

/// `text` without its last character.
pub fn drop_last_char(text: &String) -> (r: String)
    ensures
        r@ == without_last(text@),
{
    let n: usize = text.as_str().unicode_len();
    if n == 0 {
        String::new()
    } else {
        assert(text@.subrange(0, n - 1) =~= text@.drop_last());
        text.as_str().substring_char(0, n - 1).to_owned()
    }
}

impl InteractionState {
    /// Tests whether the typed text can be sent off.
    pub fn can_submit(&self) -> (r: bool)
        ensures
            r == submittable(self@.input),
    {
        self.accumulated_input.as_str().is_char_boundary(4)
    }

    /// Takes in one key that went down; `shift` says whether the left shift key is down.
    ///
    /// Sending off needs a text whose fourth byte ends a character.
    pub fn type_key(&mut self, key: KeyCode, shift: bool) -> (r: Typed)
        requires
            key == KeyCode::Backquote ==> submittable(old(self)@.input),
        ensures
            (final(self)@, r@) == typed(old(self)@, key, shift),
    {
        match key {
            KeyCode::CapsLock => {
                self.caps = !self.caps;
                Typed::Nothing
            },
            KeyCode::Escape => {
                if shift {
                    self.despawn_all = true;
                    Typed::ViewReset
                } else {
                    Typed::Nothing
                }
            },
            KeyCode::Backquote => self.submit(shift),
            KeyCode::Backspace => {
                self.accumulated_input = drop_last_char(&self.accumulated_input);
                Typed::Nothing
            },
            KeyCode::Delete => {
                self.accumulated_input = String::new();
                Typed::Nothing
            },
            _ => {
                if let Some(text) = key_text(key, self.caps || shift) {
                    self.accumulated_input.append(text);
                    assert(self@.input =~= old(self)@.input.push(
                        key_char(key, old(self)@.caps || shift)->0,
                    ));
                }
                Typed::Nothing
            },
        }
    }

    /// Sends off the typed text.
    fn submit(&mut self, shift: bool) -> (r: Typed)
        ensures
            (final(self)@, r@) == submitted(old(self)@, shift),
    {
        if color_command(self.accumulated_input.as_str()) {
            let components = parse_color(self.accumulated_input.as_str());
            if components.len() >= 3 {
                self.txt_color =
                Rgba { r: components[0], g: components[1], b: components[2], a: 255 };
                self.accumulated_input = "rgb:".to_owned();
                proof {
                    reveal_strlit("rgb:");
                    assert(self@.input =~= rgb_mark());
                }
                Typed::Recolored
            } else {
                Typed::Placed {
                    text: FloatingText {
                        billboard: false,
                        text: "basically shite, can't interpret that, oof sawi".to_owned(),
                        size: Scalar { bits: ONE },
                        color: Rgba { r: 250, g: 10, b: 10, a: 255 },
                        bg_color: None,
                        save: false,
                        editing: false,
                    },
                    anchor: Anchor::Ahead,
                }
            }
        } else {
            let color = self.txt_color;
            let text = self.take_input();
            self.is_focused = false;
            self.placed_already = true;
            let size: u32 = if shift { ONE } else { HALF };
            Typed::Placed {
                text: FloatingText {
                    billboard: !shift,
                    text,
                    size: Scalar { bits: size },
                    color,
                    bg_color: None,
                    save: true,
                    editing: false,
                },
                anchor: if shift { Anchor::Ahead } else { Anchor::Beside },
            }
        }
    }
}

/// Deleting takes back the key before it: whatever a key typed, with the shift key or caps lock
/// or without, one step back leaves the state as it was.
pub proof fn backspace_takes_back(s: StateModel, key: KeyCode, shift: bool, later_shift: bool)
    requires
        key_char(key, s.caps || shift) is Some,
    ensures
        typed(typed(s, key, shift).0, KeyCode::Backspace, later_shift).0 == s,
{
    let c = key_char(key, s.caps || shift)->0;
    assert(s.input.push(c).drop_last() =~= s.input);
}

/// Caps lock twice is no caps lock.
pub proof fn caps_lock_takes_itself_back(s: StateModel, shift: bool, later_shift: bool)
    ensures
        typed(typed(s, KeyCode::CapsLock, shift).0, KeyCode::CapsLock, later_shift).0 == s,
{
}

/// Caps lock types what shift does.
pub proof fn caps_lock_types_as_shift(s: StateModel, key: KeyCode)
    requires
        key_char(key, true) is Some,
    ensures
        typed(StateModel { caps: true, ..s }, key, false).0.input == typed(s, key, true).0.input,
{
}

/// Only sending off asks for a text, and only shift with escape for a reset; no other key asks
/// for anything.
pub proof fn few_keys_ask(s: StateModel, key: KeyCode, shift: bool)
    ensures
        typed(s, key, shift).1 is Placed ==> key == KeyCode::Backquote,
        typed(s, key, shift).1 is Recolored ==> key == KeyCode::Backquote,
        typed(s, key, shift).1 is ViewReset <==> key == KeyCode::Escape && shift,
{
}

/// A written color sets the text color to just that color, and leaves the mark for the next one.
pub proof fn written_color_is_taken(s: StateModel, r: u8, g: u8, b: u8, shift: bool)
    requires
        s.input == crate::text::written_color(r, g, b),
    ensures
        submitted(s, shift).0 == (StateModel {
            txt_color: opaque(r, g, b),
            input: rgb_mark(),
            ..s
        }),
        submitted(s, shift).1 == TypedModel::Recolored,
{
    crate::text::written_color_reads_back(r, g, b);
}

/// Whether `input` starts with the four characters of the color mark.
pub open spec fn starts_with_mark(input: Seq<char>) -> bool {
    input.len() >= 4 && input[0] == 'r' && input[1] == 'g' && input[2] == 'b' && input[3] == ':'
}

/// A text starts with the mark just if it is a color command.
proof fn mark_makes_the_command(input: Seq<char>)
    ensures
        is_color_command(input) <==> starts_with_mark(input),
{
    if input.len() >= 4 {
        let four = input.take(4);
        if starts_with_mark(input) {
            assert(four =~= rgb_mark());
        }
        if four == rgb_mark() {
            assert(four[0] == 'r' && four[1] == 'g' && four[2] == 'b' && four[3] == ':');
        }
    }
}

/// A text that is no color command is put up with its own words and in the current text color, with
/// or without shift, and is remembered. With shift it stands as it is put, straight ahead and in
/// full size; without, it faces the camera, beside and in half the size. The buffer is used up, what
/// was held is let go, and something placed counts; nothing else changes.
pub proof fn words_are_put_up_in_the_color(s: StateModel, shift: bool)
    requires
        !starts_with_mark(s.input),
    ensures
        (match submitted(s, shift).1 {
            TypedModel::Placed { text, anchor } => {
                &&& text.text == s.input
                &&& text.color == s.txt_color
                &&& text.bg_color is None
                &&& text.save
                &&& !text.editing
                &&& text.billboard <==> !shift
                &&& text.size.bits == (if shift {
                    0x3f80_0000u32
                } else {
                    0x3f00_0000u32
                })
                &&& anchor == Anchor::Ahead <==> shift
            },
            _ => false,
        }),
        submitted(s, shift).0.input.len() == 0,
        !submitted(s, shift).0.is_focused,
        submitted(s, shift).0.placed_already,
        submitted(s, shift).0.caps == s.caps,
        submitted(s, shift).0.despawn_all == s.despawn_all,
        submitted(s, shift).0.txt_color == s.txt_color,
{
    mark_makes_the_command(s.input);
}

/// After a written color, the next text that is sent off has just that color, whichever way each of
/// the two is sent.
pub proof fn written_color_colors_the_next_text(
    s: StateModel,
    r: u8,
    g: u8,
    b: u8,
    shift: bool,
    words: Seq<char>,
    later_shift: bool,
)
    requires
        s.input == crate::text::written_color(r, g, b),
        !starts_with_mark(words),
    ensures
        submitted(StateModel { input: words, ..submitted(s, shift).0 }, later_shift).1 matches
            TypedModel::Placed { text, .. } && text.color == (Rgba { r, g, b, a: 255 })
            && text.text == words,
{
    written_color_is_taken(s, r, g, b, shift);
    words_are_put_up_in_the_color(
        StateModel { input: words, ..submitted(s, shift).0 },
        later_shift,
    );
}

/// A color command with three components or more takes the first three as the opaque text color, and
/// leaves the mark in the buffer; nothing is put up, and nothing else changes. With shift or without
/// is the same.
pub proof fn command_takes_three_components(s: StateModel, shift: bool)
    requires
        starts_with_mark(s.input),
        color_components(s.input).len() >= 3,
    ensures
        submitted(s, shift).1 is Recolored,
        submitted(s, shift).0.txt_color == (Rgba {
            r: color_components(s.input)[0],
            g: color_components(s.input)[1],
            b: color_components(s.input)[2],
            a: 255,
        }),
        submitted(s, shift).0.input == seq!['r', 'g', 'b', ':'],
        submitted(s, shift).0.is_focused == s.is_focused,
        submitted(s, shift).0.placed_already == s.placed_already,
        submitted(s, shift).0.caps == s.caps,
        submitted(s, shift).0.despawn_all == s.despawn_all,
{
    mark_makes_the_command(s.input);
}

/// A color command with fewer components changes nothing, the buffer included: it is answered by a
/// text in red that is not remembered, straight ahead, in full size and never the typed words.
pub proof fn short_command_is_answered(s: StateModel, shift: bool)
    requires
        starts_with_mark(s.input),
        color_components(s.input).len() < 3,
    ensures
        submitted(s, shift).0 == s,
        (match submitted(s, shift).1 {
            TypedModel::Placed { text, anchor } => {
                &&& text.text == "basically shite, can't interpret that, oof sawi"@
                &&& !starts_with_mark(text.text)
                &&& text.color == (Rgba { r: 250, g: 10, b: 10, a: 255 })
                &&& text.bg_color is None
                &&& !text.save
                &&& !text.editing
                &&& !text.billboard
                &&& text.size.bits == 0x3f80_0000
                &&& anchor == Anchor::Ahead
            },
            _ => false,
        }),
{
    mark_makes_the_command(s.input);
    reveal_strlit("basically shite, can't interpret that, oof sawi");
    assert("basically shite, can't interpret that, oof sawi"@[0] == 'b');
}

/// A key that has a character appends it to the buffer: the shifted one with shift or caps lock, the
/// plain one without both. Nothing else changes, and nothing is asked for.
pub proof fn keys_append_their_character(s: StateModel, key: KeyCode, shift: bool)
    requires
        key_chars(key) is Some,
    ensures
        s.caps || shift ==> typed(s, key, shift).0.input == s.input.push((key_chars(key)->0).1),
        !s.caps && !shift ==> typed(s, key, shift).0.input == s.input.push((key_chars(key)->0).0),
        same_but_input(typed(s, key, shift).0, s),
        typed(s, key, shift).1 is Nothing,
{
}

/// Whether two states differ in the buffer at most.
pub open spec fn same_but_input(a: StateModel, b: StateModel) -> bool {
    &&& a.is_focused == b.is_focused
    &&& a.caps == b.caps
    &&& a.despawn_all == b.despawn_all
    &&& a.placed_already == b.placed_already
    &&& a.txt_color == b.txt_color
}

/// Backspace takes the last character away, and leaves an empty buffer empty; delete takes them all.
/// Neither changes anything else or asks for anything.
pub proof fn erasing_keys_only_erase(s: StateModel, shift: bool)
    ensures
        s.input.len() > 0 ==> typed(s, KeyCode::Backspace, shift).0.input == s.input.take(
            s.input.len() - 1,
        ),
        s.input.len() == 0 ==> typed(s, KeyCode::Backspace, shift).0.input.len() == 0,
        typed(s, KeyCode::Delete, shift).0.input.len() == 0,
        same_but_input(typed(s, KeyCode::Backspace, shift).0, s),
        same_but_input(typed(s, KeyCode::Delete, shift).0, s),
        typed(s, KeyCode::Backspace, shift).1 is Nothing,
        typed(s, KeyCode::Delete, shift).1 is Nothing,
{
    if s.input.len() > 0 {
        assert(s.input.drop_last() =~= s.input.take(s.input.len() - 1));
    }
}

/// Caps lock turns its own mark over, shift with escape asks to leave the room, and escape alone
/// does nothing: none of them touches anything else.
pub proof fn other_keys_do_one_thing(s: StateModel, shift: bool)
    ensures
        typed(s, KeyCode::CapsLock, shift).0.caps == !s.caps,
        typed(s, KeyCode::CapsLock, shift).0.input == s.input,
        same_but_input(StateModel { caps: s.caps, ..typed(s, KeyCode::CapsLock, shift).0 }, s),
        typed(s, KeyCode::CapsLock, shift).1 is Nothing,
        typed(s, KeyCode::Escape, true).0.despawn_all,
        typed(s, KeyCode::Escape, true).0.input == s.input,
        same_but_input(
            StateModel { despawn_all: s.despawn_all, ..typed(s, KeyCode::Escape, true).0 },
            s,
        ),
        typed(s, KeyCode::Escape, false).0 == s,
        typed(s, KeyCode::Escape, false).1 is Nothing,
        typed(s, KeyCode::Backquote, shift) == submitted(s, shift),
{
}

/// A key without a character that is none of these leaves everything as it is.
pub proof fn silent_keys_do_nothing(s: StateModel, key: KeyCode, shift: bool)
    requires
        key_chars(key) is None,
        key != KeyCode::CapsLock,
        key != KeyCode::Escape,
        key != KeyCode::Backquote,
        key != KeyCode::Backspace,
        key != KeyCode::Delete,
    ensures
        typed(s, key, shift).0 == s,
        typed(s, key, shift).1 is Nothing,
{
}

/// A text of ASCII characters can be sent off just if it has four characters or more.
pub proof fn four_characters_can_be_sent(input: Seq<char>)
    requires
        vstd::utf8::is_ascii_chars(input),
    ensures
        submittable(input) <==> input.len() >= 4,
{
    let bytes = encode_utf8(input);
    vstd::utf8::is_ascii_chars_encode_utf8(input);
    vstd::utf8::encode_utf8_valid_utf8(input);
    if input.len() == 4 {
        vstd::utf8::is_char_boundary_start_end_of_seq(bytes);
    } else if input.len() > 4 {
        vstd::utf8::is_char_boundary_iff_is_leading_byte(bytes, 4);
        assert('\0' <= input[4] <= '\u{7f}');
        assert(bytes[4] == input[4] as u8);
    }
}

} // verus!
