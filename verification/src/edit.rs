//! Editing a text that stands in the room.

use vstd::prelude::*;
use vstd::string::*;
use vstd::utf8::*;
use crate::keys::{KeyCode, Keys};
use crate::state::{InteractionState, StateModel};
use crate::typing::{drop_last_char, without_last};

verus! {

/// The mark of a text that is being edited.
#[derive(Clone, Copy, Debug, PartialEq, Eq, Structural)]
pub struct Editing {
    /// The byte of the text before which the next input goes.
    pub idx: usize,
}

/// How many bytes `s` takes.
pub open spec fn byte_len(s: Seq<char>) -> nat {
    encode_utf8(s).len()
}

/// `s` with `t` put in before its byte `at`.
pub open spec fn inserted(s: Seq<char>, at: int, t: Seq<char>) -> Seq<char> {
    let bytes = encode_utf8(s);
    decode_utf8(bytes.subrange(0, at)) + t + decode_utf8(bytes.subrange(at, bytes.len() as int))
}

/// The text of an edit once the backspace key has been heard.
pub open spec fn text_heard(keys: Keys, text: Seq<char>) -> Seq<char> {
    if keys.starts(KeyCode::Backspace) {
        without_last(text)
    } else {
        text
    }
}

/// The index of an edit once the arrow keys have been heard, on a text of `len` bytes: back by
/// one, but not below zero, then on by one, but not past the end.
pub open spec fn index_heard(keys: Keys, idx: int, len: nat) -> int {
    let back = if keys.starts(KeyCode::ArrowLeft) && idx > 0 {
        idx - 1
    } else {
        idx
    };
    if keys.starts(KeyCode::ArrowRight) && back < len {
        back + 1
    } else {
        back
    }
}

/// Whether input can go into `text` at `idx`: the text is not empty, and `idx` is that of its
/// last byte or ends a character.
pub open spec fn takes_input(text: Seq<char>, idx: int) -> bool {
    text.len() > 0 && (idx == byte_len(text) - 1 || is_char_boundary(encode_utf8(text), idx))
}

/// The text and the index after `input` has gone into `text` at `idx`.
///
/// With the index at the last byte the input is put behind the text and the index stays; else
/// it goes in before the index, which then moves to the last byte.
pub open spec fn fed(text: Seq<char>, idx: int, input: Seq<char>) -> (Seq<char>, int) {
    if idx == byte_len(text) - 1 {
        (text + input, idx)
    } else {
        let grown = inserted(text, idx, input);
        (grown, byte_len(grown) - 1)
    }
}

/// Whether a frame with these keys can be edited: what is left of the text takes input.
pub open spec fn editable(keys: Keys, text: Seq<char>, idx: int) -> bool {
    let heard = text_heard(keys, text);
    takes_input(heard, index_heard(keys, idx, byte_len(heard)))
}

/// The text and the index after a frame with these keys and this input.
pub open spec fn edited(keys: Keys, text: Seq<char>, idx: int, input: Seq<char>) -> (
    Seq<char>,
    int,
) {
    let heard = text_heard(keys, text);
    fed(heard, index_heard(keys, idx, byte_len(heard)), input)
}

fn hear_text(keys: &Keys, text: &String) -> (r: String)
    ensures
        r@ == text_heard(*keys, text@),
{
    if keys.just_pressed(KeyCode::Backspace) {
        drop_last_char(text)
    } else {
        text.clone()
    }
}

fn hear_index(keys: &Keys, idx: usize, len: usize) -> (r: usize)
    ensures
        r == index_heard(*keys, idx as int, len as nat),
{
    let mut at: usize = idx;
    if keys.just_pressed(KeyCode::ArrowLeft) && at > 0 {
        at = at - 1;
    }
    if keys.just_pressed(KeyCode::ArrowRight) && at < len {
        at = at + 1;
    }
    at
}

/// The number of bytes of `text`.
pub fn text_len(text: &str) -> (n: usize)
    ensures
        n == byte_len(text@),
{
    text.as_bytes().len()
}

/// A text without characters is the one without bytes.
pub proof fn bytes_of_something(s: Seq<char>)
    ensures
        byte_len(s) == 0 <==> s.len() == 0,
        byte_len(s) >= s.len(),
    decreases s.len(),
{
    if s.len() > 0 {
        bytes_of_something(s.drop_first());
    }
}

/// Tests whether this frame can be edited.
pub fn can_edit(keys: &Keys, text: &String, editing: &Editing) -> (r: bool)
    ensures
        r == editable(*keys, text@, editing.idx as int),
{
    let heard = hear_text(keys, text);
    let len: usize = text_len(heard.as_str());
    let at: usize = hear_index(keys, editing.idx, len);
    proof {
        bytes_of_something(heard@);
    }
    len > 0 && (at == len - 1 || heard.as_str().is_char_boundary(at))
}

/// The text left of byte `at`, `input`, and the text right of it.
fn insert_text(text: &String, at: usize, input: &str) -> (r: String)
    requires
        is_char_boundary(encode_utf8(text@), at as int),
    ensures
        r@ == inserted(text@, at as int, input@),
{
    let (left, right) = text.as_str().split_at(at);
    let mut r = left.to_owned();
    r.append(input);
    r.append(right);
    proof {
        encode_utf8_decode_utf8(left@);
        encode_utf8_decode_utf8(right@);
    }
    r
}

/// The insertion keeps both parts of the text, in order, around what was put in.
pub proof fn insertion_keeps_text(s: Seq<char>, at: int, t: Seq<char>)
    requires
        is_char_boundary(encode_utf8(s), at),
    ensures
        exists|k: int|
            0 <= k <= s.len() && #[trigger] s.take(k) + t + s.skip(k) == inserted(s, at, t),
        inserted(s, at, t).len() == s.len() + t.len(),
{
    let bytes = encode_utf8(s);
    encode_utf8_valid_utf8(s);
    encode_utf8_decode_utf8(s);
    decode_utf8_split(bytes, at);
    let left = decode_utf8(bytes.subrange(0, at));
    let right = decode_utf8(bytes.subrange(at, bytes.len() as int));
    let k = left.len() as int;
    assert(s == left + right);
    assert(s.take(k) =~= left);
    assert(s.skip(k) =~= right);
}

/// The state after a frame of editing, where `done` says whether it was the last.
pub open spec fn state_edited(s: StateModel, done: bool) -> StateModel {
    StateModel { input: Seq::empty(), is_focused: s.is_focused && !done, ..s }
}

impl InteractionState {
    /// One frame of editing `text`: the keys move and shorten, and what has been typed goes in.
    /// Says whether the edit is finished.
    ///
    /// The text must not have lost its last character, and the index must end a character.
    pub fn edit(&mut self, keys: &Keys, text: &mut String, editing: &mut Editing) -> (done: bool)
        requires
            editable(*keys, old(text)@, old(editing).idx as int),
        ensures
            (final(text)@, final(editing).idx as int) == edited(
                *keys,
                old(text)@,
                old(editing).idx as int,
                old(self)@.input,
            ),
            done == keys.starts(KeyCode::Tab),
            final(self)@ == state_edited(old(self)@, done),
    {
        let mut grown = hear_text(keys, text);
        let len: usize = text_len(grown.as_str());
        let at: usize = hear_index(keys, editing.idx, len);
        proof {
            bytes_of_something(grown@);
        }
        let input = self.take_input();
        if at == len - 1 {
            grown.append(input.as_str());
            editing.idx = at;
        } else {
            let ghost heard = grown@;
            grown = insert_text(&grown, at, input.as_str());
            proof {
                insertion_keeps_text(heard, at as int, input@);
                bytes_of_something(grown@);
            }
            editing.idx = text_len(grown.as_str()) - 1;
        }
        *text = grown;
        if keys.just_pressed(KeyCode::Tab) {
            self.is_focused = false;
            true
        } else {
            false
        }
    }
}

/// Nothing typed is lost and nothing else is added: an edit makes the text longer by just the
/// input.
pub proof fn edit_adds_the_input(keys: Keys, text: Seq<char>, idx: int, input: Seq<char>)
    requires
        editable(keys, text, idx),
    ensures
        edited(keys, text, idx, input).0.len() == text_heard(keys, text).len() + input.len(),
{
    let heard = text_heard(keys, text);
    let at = index_heard(keys, idx, byte_len(heard));
    if at != byte_len(heard) - 1 {
        insertion_keeps_text(heard, at, input);
    }
}

/// An edit leaves the index on a byte of the text.
pub proof fn edit_keeps_index_inside(keys: Keys, text: Seq<char>, idx: int, input: Seq<char>)
    requires
        editable(keys, text, idx),
        0 <= idx,
    ensures
        0 <= edited(keys, text, idx, input).1 < byte_len(edited(keys, text, idx, input).0),
{
    let heard = text_heard(keys, text);
    let at = index_heard(keys, idx, byte_len(heard));
    bytes_of_something(heard);
    if at == byte_len(heard) - 1 {
        bytes_of_joined(heard, input);
    } else {
        insertion_keeps_text(heard, at, input);
        bytes_of_something(inserted(heard, at, input));
    }
}

/// The bytes of two texts in a row are those of the one and those of the other.
proof fn bytes_of_joined(s: Seq<char>, t: Seq<char>)
    ensures
        encode_utf8(s + t) == encode_utf8(s) + encode_utf8(t),
    decreases s.len(),
{
    if s.len() == 0 {
        assert(s + t =~= t);
        assert(encode_utf8(s) + encode_utf8(t) =~= encode_utf8(t));
    } else {
        assert((s + t).drop_first() =~= s.drop_first() + t);
        bytes_of_joined(s.drop_first(), t);
        assert(encode_utf8(s + t) =~= encode_utf8(s) + encode_utf8(t));
    }
}

/// A text of ASCII characters with its index inside can be edited frame after frame, as long as
/// the backspace key does not take its last character.
pub proof fn ascii_stays_editable(keys: Keys, text: Seq<char>, idx: int)
    requires
        is_ascii_chars(text),
        0 <= idx < byte_len(text),
        text_heard(keys, text).len() > 0,
    ensures
        editable(keys, text, idx),
{
    let heard = text_heard(keys, text);
    let bytes = encode_utf8(heard);
    assert(is_ascii_chars(heard)) by {
        assert forall|i: int| 0 <= i < heard.len() implies '\0' <= #[trigger] heard[i]
            <= '\u{7f}' by {
            assert('\0' <= text[i] <= '\u{7f}');
        }
    }
    is_ascii_chars_encode_utf8(text);
    is_ascii_chars_encode_utf8(heard);
    encode_utf8_valid_utf8(heard);
    let at = index_heard(keys, idx, byte_len(heard));
    if at == bytes.len() {
        is_char_boundary_start_end_of_seq(bytes);
    } else {
        is_char_boundary_iff_is_leading_byte(bytes, at);
        assert('\0' <= heard[at] <= '\u{7f}');
        assert(bytes[at] == heard[at] as u8);
    }
}

/// Backspace shortens a text by its last character, and an empty one stays empty; without it the
/// text is heard as it is.
pub proof fn backspace_shortens_by_one(keys: Keys, text: Seq<char>)
    ensures
        !keys.starts(KeyCode::Backspace) ==> text_heard(keys, text) == text,
        keys.starts(KeyCode::Backspace) && text.len() > 0 ==> text_heard(keys, text) == text.take(
            text.len() - 1,
        ),
        keys.starts(KeyCode::Backspace) && text.len() == 0 ==> text_heard(keys, text).len() == 0,
{
    if text.len() > 0 {
        assert(text.drop_last() =~= text.take(text.len() - 1));
    }
}

/// The left arrow moves the index back by one, unless it is at the start, and the right one on by
/// one, unless it is at the end or past it; without an arrow it stays, and with both, from the
/// middle of a text, too.
pub proof fn arrows_move_by_one(keys: Keys, idx: int, len: nat)
    requires
        0 <= idx,
    ensures
        !keys.starts(KeyCode::ArrowLeft) && !keys.starts(KeyCode::ArrowRight) ==> index_heard(
            keys,
            idx,
            len,
        ) == idx,
        keys.starts(KeyCode::ArrowLeft) && !keys.starts(KeyCode::ArrowRight) ==> index_heard(
            keys,
            idx,
            len,
        ) == (if idx == 0 {
            0
        } else {
            idx - 1
        }),
        !keys.starts(KeyCode::ArrowLeft) && keys.starts(KeyCode::ArrowRight) ==> index_heard(
            keys,
            idx,
            len,
        ) == (if idx < len {
            idx + 1
        } else {
            idx
        }),
        keys.starts(KeyCode::ArrowLeft) && keys.starts(KeyCode::ArrowRight) && 0 < idx <= len
            ==> index_heard(keys, idx, len) == idx,
        keys.starts(KeyCode::ArrowLeft) && keys.starts(KeyCode::ArrowRight) && idx == 0 && len > 0
            ==> index_heard(keys, idx, len) == 1,
{
}

/// An index on the last byte, once the keys are heard, stays there, and the input goes behind the
/// text. Any other index ends on the last byte of the new text, whatever the input, an empty one
/// too; the input goes in before the byte it was on, and every other byte stays, in order.
pub proof fn index_ends_on_the_last_byte(keys: Keys, text: Seq<char>, idx: int, input: Seq<char>)
    requires
        editable(keys, text, idx),
    ensures
        ({
            let heard = text_heard(keys, text);
            let bytes = encode_utf8(heard);
            let at = index_heard(keys, idx, bytes.len());
            let (after, next) = edited(keys, text, idx, input);
            &&& at == bytes.len() - 1 ==> after == heard + input && next == at
            &&& at != bytes.len() - 1 ==> next == encode_utf8(after).len() - 1
            &&& at != bytes.len() - 1 ==> encode_utf8(after) == bytes.take(at) + encode_utf8(input)
                + bytes.skip(at)
        }),
{
    let heard = text_heard(keys, text);
    let bytes = encode_utf8(heard);
    let at = index_heard(keys, idx, bytes.len());
    if at != bytes.len() - 1 {
        let left = decode_utf8(bytes.subrange(0, at));
        let right = decode_utf8(bytes.subrange(at, bytes.len() as int));
        encode_utf8_valid_utf8(heard);
        decode_utf8_split(bytes, at);
        valid_utf8_split(bytes, at);
        decode_utf8_encode_utf8(bytes.subrange(0, at));
        decode_utf8_encode_utf8(bytes.subrange(at, bytes.len() as int));
        bytes_of_joined(left + input, right);
        bytes_of_joined(left, input);
        assert(bytes.take(at) =~= bytes.subrange(0, at));
        assert(bytes.skip(at) =~= bytes.subrange(at, bytes.len() as int));
    }
}

/// Whether none of the keys of an edit went down.
pub open spec fn no_edit_keys(keys: Keys) -> bool {
    &&& !keys.starts(KeyCode::Backspace)
    &&& !keys.starts(KeyCode::ArrowLeft)
    &&& !keys.starts(KeyCode::ArrowRight)
}

/// An idle frame leaves the text as it is and its index on the last byte.
pub proof fn idle_frame_goes_to_the_end(keys: Keys, text: Seq<char>, idx: int)
    requires
        no_edit_keys(keys),
        editable(keys, text, idx),
    ensures
        edited(keys, text, idx, Seq::empty()) == (text, encode_utf8(text).len() - 1),
{
    let none = Seq::<char>::empty();
    let bytes = encode_utf8(text);
    if idx == bytes.len() - 1 {
        assert(text + none =~= text);
    } else {
        encode_utf8_valid_utf8(text);
        encode_utf8_decode_utf8(text);
        decode_utf8_split(bytes, idx);
        let left = decode_utf8(bytes.subrange(0, idx));
        let right = decode_utf8(bytes.subrange(idx, bytes.len() as int));
        assert(left + none + right =~= text);
    }
}

/// The text and the index after each of `inputs` was typed in a frame of its own, with an idle frame
/// behind it.
pub open spec fn typed_with_pauses(
    keys: Keys,
    text: Seq<char>,
    idx: int,
    inputs: Seq<Seq<char>>,
) -> (Seq<char>, int)
    decreases inputs.len(),
{
    if inputs.len() == 0 {
        (text, idx)
    } else {
        let (t, i) = typed_with_pauses(keys, text, idx, inputs.drop_last());
        let (t, i) = edited(keys, t, i, inputs.last());
        edited(keys, t, i, Seq::empty())
    }
}

/// All of `inputs` in a row.
pub open spec fn in_a_row(inputs: Seq<Seq<char>>) -> Seq<char>
    decreases inputs.len(),
{
    if inputs.len() == 0 {
        Seq::empty()
    } else {
        in_a_row(inputs.drop_last()) + inputs.last()
    }
}

/// What is typed in frame after frame, with an idle frame behind each, ends up behind a text that
/// was edited from its last byte, in the order typed; and the index is on the last byte again. Each
/// idle frame can be edited.
pub proof fn typing_goes_on_behind_the_text(
    keys: Keys,
    text: Seq<char>,
    inputs: Seq<Seq<char>>,
)
    requires
        no_edit_keys(keys),
        text.len() > 0,
        forall|n: int|
            0 <= n < inputs.len() ==> editable(
                keys,
                text + in_a_row(inputs.take(n)) + #[trigger] inputs[n],
                encode_utf8(text + in_a_row(inputs.take(n))).len() - 1,
            ),
    ensures
        typed_with_pauses(keys, text, encode_utf8(text).len() - 1, inputs) == (
            text + in_a_row(inputs),
            encode_utf8(text + in_a_row(inputs)).len() - 1,
        ),
    decreases inputs.len(),
{
    if inputs.len() == 0 {
        assert(text + in_a_row(inputs) =~= text);
    } else {
        let front = inputs.drop_last();
        let last = inputs.len() - 1;
        assert forall|n: int| 0 <= n < front.len() implies editable(
            keys,
            text + in_a_row(front.take(n)) + #[trigger] front[n],
            encode_utf8(text + in_a_row(front.take(n))).len() - 1,
        ) by {
            assert(front.take(n) =~= inputs.take(n));
            assert(front[n] == inputs[n]);
        }
        typing_goes_on_behind_the_text(keys, text, front);
        assert(inputs.take(last) =~= front);
        let before = text + in_a_row(front);
        let grown = before + inputs[last];
        let at = encode_utf8(before).len() - 1;
        bytes_of_something(before);
        assert(editable(keys, grown, at));
        idle_frame_goes_to_the_end(keys, grown, at);
        assert(grown =~= text + in_a_row(inputs));
    }
}

/// A text of ASCII characters takes whatever ASCII is typed in frame after frame, behind it and in
/// the order typed, without any further condition.
pub proof fn ascii_typing_goes_on(keys: Keys, text: Seq<char>, inputs: Seq<Seq<char>>)
    requires
        no_edit_keys(keys),
        text.len() > 0,
        is_ascii_chars(text),
        forall|n: int| 0 <= n < inputs.len() ==> is_ascii_chars(#[trigger] inputs[n]),
    ensures
        typed_with_pauses(keys, text, encode_utf8(text).len() - 1, inputs).0 == text + in_a_row(
            inputs,
        ),
{
    assert forall|n: int| 0 <= n < inputs.len() implies editable(
        keys,
        text + in_a_row(inputs.take(n)) + #[trigger] inputs[n],
        encode_utf8(text + in_a_row(inputs.take(n))).len() - 1,
    ) by {
        let row = in_a_row(inputs.take(n));
        ascii_in_a_row(inputs.take(n));
        let before = text + row;
        let grown = before + inputs[n];
        ascii_joined(text, row);
        ascii_joined(before, inputs[n]);
        bytes_of_joined(before, inputs[n]);
        bytes_of_something(before);
        ascii_stays_editable(keys, grown, encode_utf8(before).len() - 1);
    }
    typing_goes_on_behind_the_text(keys, text, inputs);
}

proof fn ascii_joined(a: Seq<char>, b: Seq<char>)
    requires
        is_ascii_chars(a),
        is_ascii_chars(b),
    ensures
        is_ascii_chars(a + b),
{
    assert forall|i: int| 0 <= i < (a + b).len() implies '\0' <= #[trigger] (a + b)[i]
        <= '\u{7f}' by {
        if i < a.len() {
            assert('\0' <= a[i] <= '\u{7f}');
        } else {
            assert('\0' <= b[i - a.len()] <= '\u{7f}');
        }
    }
}

proof fn ascii_in_a_row(inputs: Seq<Seq<char>>)
    requires
        forall|n: int| 0 <= n < inputs.len() ==> is_ascii_chars(#[trigger] inputs[n]),
    ensures
        is_ascii_chars(in_a_row(inputs)),
    decreases inputs.len(),
{
    if inputs.len() > 0 {
        let front = inputs.drop_last();
        assert forall|n: int| 0 <= n < front.len() implies is_ascii_chars(#[trigger] front[n]) by {
            assert(front[n] == inputs[n]);
        }
        ascii_in_a_row(front);
        assert(is_ascii_chars(inputs[inputs.len() - 1]));
        ascii_joined(in_a_row(front), inputs.last());
    }
}

/// A frame of editing uses up what was typed. It lets go just if it is the last one, and what was not
/// held is not held afterwards either; nothing else changes.
pub proof fn editing_uses_the_input(s: StateModel, done: bool)
    ensures
        state_edited(s, done).input.len() == 0,
        state_edited(s, done).is_focused <==> s.is_focused && !done,
        state_edited(s, done).caps == s.caps,
        state_edited(s, done).despawn_all == s.despawn_all,
        state_edited(s, done).placed_already == s.placed_already,
        state_edited(s, done).txt_color == s.txt_color,
{
}

} // verus!
