//! Pressing, dragging and letting go of what stands in the room.

use vstd::prelude::*;
use crate::edit::{byte_len, bytes_of_something, text_len};
use crate::keys::{KeyCode, Keys, PointerButton};
use crate::state::{InteractionState, StateModel};

verus! {

/// What a press on a text asks for, beyond the change to the state.
#[derive(Clone, Copy, Debug, PartialEq, Eq, Structural)]
pub enum Press {
    Nothing,
    /// Forget the text and take it out of the room.
    Remove,
    /// Begin to edit the text, at this byte.
    Edit { idx: usize },
    /// Begin to drag what was pressed.
    Drag,
    /// Begin to turn what was pressed.
    Rotate,
}

/// Whether a press of `button` is heard at all.
pub open spec fn heard(button: PointerButton) -> bool {
    button == PointerButton::Primary || button == PointerButton::Middle
}

/// What a heard press takes hold of a thing for.
pub open spec fn grip(button: PointerButton) -> Press {
    if button == PointerButton::Primary {
        Press::Drag
    } else {
        Press::Rotate
    }
}

/// What a heard press on the text `text` asks for.
///
/// Delete wins over the copy key, which asks for nothing more; then control edits with the
/// primary button, from the last byte on.
pub open spec fn text_press(button: PointerButton, keys: Keys, text: Seq<char>) -> Press {
    if keys.holds(KeyCode::Delete) {
        Press::Remove
    } else if keys.holds(KeyCode::KeyC) {
        Press::Nothing
    } else if button == PointerButton::Primary && keys.holds(KeyCode::ControlLeft) {
        Press::Edit { idx: (byte_len(text) - 1) as usize }
    } else {
        grip(button)
    }
}

/// The state after a heard press on the text `text`, or on one that is gone.
///
/// A press takes hold, but for the removal of a text that faces the camera. The copy key puts
/// the text into the buffer.
pub open spec fn after_text_press(
    s: StateModel,
    billboard: bool,
    keys: Keys,
    text: Option<Seq<char>>,
) -> StateModel {
    match text {
        None => StateModel { is_focused: true, ..s },
        Some(t) => if keys.holds(KeyCode::Delete) {
            StateModel { is_focused: !billboard, ..s }
        } else if keys.holds(KeyCode::KeyC) {
            StateModel { is_focused: true, input: t, ..s }
        } else {
            StateModel { is_focused: true, ..s }
        },
    }
}

/// The characters of a text, if there is one.
pub open spec fn text_of(text: Option<&str>) -> Option<Seq<char>> {
    match text {
        Some(t) => Some(t@),
        None => None,
    }
}

/// The state once what was held has been let go.
pub open spec fn let_go(s: StateModel) -> StateModel {
    StateModel { is_focused: false, ..s }
}

/// A thing of the room that can be taken hold of.
#[derive(Clone, Copy, Debug, PartialEq, Eq, Structural)]
pub struct Interactable {
    /// Presses on it are listened to.
    pub observing: bool,
    /// It is held.
    pub interacting: bool,
}

impl Interactable {
    /// A thing that nothing listens to yet.
    pub fn new() -> (r: Self)
        ensures
            !r.observing,
            !r.interacting,
    {
        Interactable { observing: false, interacting: false }
    }

    /// Says whether listeners are still to be put on the thing, and counts them as put there.
    pub fn begin_observing(&mut self) -> (first: bool)
        ensures
            first == !old(self).observing,
            *final(self) == (Interactable { observing: true, ..*old(self) }),
    {
        let first = !self.observing;
        self.observing = true;
        first
    }
}

/// What becomes of the colors of the sky.
#[derive(Clone, Copy, Debug, PartialEq, Eq, Structural)]
pub enum Sky {
    Kept,
    Darker,
    Lighter,
}

/// Whether a press can be heard: a text that is pressed to be edited is not empty.
pub open spec fn pressable(button: PointerButton, keys: Keys, text: Option<Seq<char>>) -> bool {
    heard(button) ==> (text matches Some(t) ==> (text_press(button, keys, t) is Edit ==> t.len()
        > 0))
}

/// Tests whether a press can be heard.
pub fn can_press_text(button: PointerButton, keys: &Keys, text: Option<&str>) -> (r: bool)
    ensures
        r == pressable(button, *keys, text_of(text)),
{
    match text {
        Some(t) => {
            proof {
                bytes_of_something(t@);
            }
            button != PointerButton::Primary || keys.pressed(KeyCode::Delete) || keys.pressed(
                KeyCode::KeyC,
            ) || !keys.pressed(KeyCode::ControlLeft) || text_len(t) > 0
        },
        None => true,
    }
}

/// What a heard press on a solid thing asks for, and what becomes of the thing.
pub open spec fn solid_pressed(button: PointerButton, solid: Option<Interactable>) -> (
    Press,
    Option<Interactable>,
) {
    match solid {
        Some(i) => (grip(button), Some(Interactable { interacting: true, ..i })),
        None => (Press::Nothing, None),
    }
}

/// What becomes of a solid thing that is let go.
pub open spec fn solid_released(solid: Option<Interactable>) -> Option<Interactable> {
    match solid {
        Some(i) => Some(Interactable { interacting: false, ..i }),
        None => None,
    }
}

/// The state once the room was changed.
pub open spec fn room_changed(s: StateModel) -> StateModel {
    StateModel { despawn_all: false, input: Seq::empty(), ..s }
}

/// What becomes of the sky: page up wins over page down.
pub open spec fn sky_after(keys: Keys) -> Sky {
    if keys.holds(KeyCode::PageUp) {
        Sky::Darker
    } else if keys.holds(KeyCode::PageDown) {
        Sky::Lighter
    } else {
        Sky::Kept
    }
}

impl InteractionState {
    /// Hears a press on a text; `text` is what it says, if it is still there. `billboard` says
    /// whether it faces the camera.
    ///
    /// A text that is pressed to be edited must not be empty.
    pub fn press_text(
        &mut self,
        billboard: bool,
        button: PointerButton,
        keys: &Keys,
        text: Option<&str>,
    ) -> (r: Press)
        requires
            pressable(button, *keys, text_of(text)),
        ensures
            !heard(button) ==> final(self)@ == old(self)@ && r == Press::Nothing,
            heard(button) ==> final(self)@ == after_text_press(
                old(self)@,
                billboard,
                *keys,
                text_of(text),
            ),
            heard(button) ==> r == (match text {
                Some(t) => text_press(button, *keys, t@),
                None => Press::Nothing,
            }),
    {
        if button != PointerButton::Primary && button != PointerButton::Middle {
            return Press::Nothing;
        }
        self.is_focused = true;
        if let Some(t) = text {
            if keys.pressed(KeyCode::Delete) {
                if billboard {
                    self.is_focused = false;
                }
                Press::Remove
            } else if keys.pressed(KeyCode::KeyC) {
                self.accumulated_input = t.to_owned();
                Press::Nothing
            } else if button == PointerButton::Primary {
                if keys.pressed(KeyCode::ControlLeft) {
                    proof {
                        bytes_of_something(t@);
                    }
                    Press::Edit { idx: text_len(t) - 1 }
                } else {
                    Press::Drag
                }
            } else {
                Press::Rotate
            }
        } else {
            Press::Nothing
        }
    }

    /// Hears a press on a solid thing, if it is still there.
    pub fn press_solid(&mut self, button: PointerButton, solid: Option<Interactable>) -> (r: (
        Press,
        Option<Interactable>,
    ))
        ensures
            !heard(button) ==> final(self)@ == old(self)@ && r == (Press::Nothing, solid),
            heard(button) ==> final(self)@ == (StateModel { is_focused: true, ..old(self)@ }),
            heard(button) ==> r == solid_pressed(button, solid),
    {
        if button != PointerButton::Primary && button != PointerButton::Middle {
            return (Press::Nothing, solid);
        }
        self.is_focused = true;
        match solid {
            Some(i) => {
                let held = Interactable { observing: i.observing, interacting: true };
                if button == PointerButton::Primary {
                    (Press::Drag, Some(held))
                } else {
                    (Press::Rotate, Some(held))
                }
            },
            None => (Press::Nothing, None),
        }
    }

    /// Hears that a text was let go.
    pub fn release_text(&mut self)
        ensures
            final(self)@ == let_go(old(self)@),
    {
        self.is_focused = false;
    }

    /// Hears that a solid thing was let go, if it is still there.
    pub fn release_solid(&mut self, solid: Option<Interactable>) -> (r: Option<Interactable>)
        ensures
            final(self)@ == let_go(old(self)@),
            r == solid_released(solid),
    {
        self.is_focused = false;
        match solid {
            Some(i) => Some(Interactable { observing: i.observing, interacting: false }),
            None => None,
        }
    }

    /// The room to change to, if that was asked for: the typed text names it, and is used up.
    pub fn take_room_change(&mut self) -> (path: Option<String>)
        ensures
            (match path {
                Some(p) => old(self)@.despawn_all && p@ == old(self)@.input && final(self)@
                    == room_changed(old(self)@),
                None => !old(self)@.despawn_all && final(self)@ == old(self)@,
            }),
    {
        if self.despawn_all {
            let path = self.take_input();
            self.despawn_all = false;
            Some(path)
        } else {
            None
        }
    }

    /// Hears the keys that count whoever the others belong to. Says whether everything that is
    /// dragged or turned is to be let go, and what becomes of the sky.
    pub fn hear_global_keys(&mut self, keys: &Keys) -> (r: (bool, Sky))
        ensures
            r.0 == keys.starts(KeyCode::Escape),
            r.1 == sky_after(*keys),
            final(self)@ == (if r.0 {
                let_go(old(self)@)
            } else {
                old(self)@
            }),
    {
        let freed = keys.just_pressed(KeyCode::Escape);
        if freed {
            self.is_focused = false;
        }
        let sky = if keys.pressed(KeyCode::PageUp) {
            Sky::Darker
        } else if keys.pressed(KeyCode::PageDown) {
            Sky::Lighter
        } else {
            Sky::Kept
        };
        (freed, sky)
    }
}

/// Taking hold and letting go again leaves the state as it was before, but for a text that was
/// copied and for what was held at first.
pub proof fn letting_go_undoes_holding(
    s: StateModel,
    billboard: bool,
    keys: Keys,
    text: Option<Seq<char>>,
)
    requires
        !keys.holds(KeyCode::KeyC),
        !s.is_focused,
    ensures
        let_go(after_text_press(s, billboard, keys, text)) == s,
{
}

/// Whatever is dragged, turned or edited is held: the camera stands still until it is let go.
pub proof fn gripped_is_held(
    s: StateModel,
    billboard: bool,
    button: PointerButton,
    keys: Keys,
    text: Seq<char>,
)
    requires
        text_press(button, keys, text) is Edit || text_press(button, keys, text) is Drag
            || text_press(button, keys, text) is Rotate,
    ensures
        after_text_press(s, billboard, keys, Some(text)).is_focused,
{
}

/// A heard press with the copy key held, and delete not, leaves just the text's words in the buffer,
/// whether or not the text faces the camera; any other press leaves the buffer as it was.
pub proof fn copying_takes_the_words(
    s: StateModel,
    billboard: bool,
    keys: Keys,
    text: Option<Seq<char>>,
)
    ensures
        (match text {
            Some(words) => keys.holds(KeyCode::KeyC) && !keys.holds(KeyCode::Delete)
                ==> after_text_press(s, billboard, keys, text).input == words,
            None => true,
        }),
        text is None || !keys.holds(KeyCode::KeyC) || keys.holds(KeyCode::Delete)
            ==> after_text_press(s, billboard, keys, text).input == s.input,
{
}

/// A heard press holds, in every case but that of a text facing the camera that is removed; it
/// changes nothing else but the buffer.
pub proof fn pressing_holds(s: StateModel, billboard: bool, keys: Keys, text: Option<Seq<char>>)
    ensures
        after_text_press(s, billboard, keys, text).is_focused <==> !(text is Some && billboard
            && keys.holds(KeyCode::Delete)),
        after_text_press(s, billboard, keys, text).caps == s.caps,
        after_text_press(s, billboard, keys, text).despawn_all == s.despawn_all,
        after_text_press(s, billboard, keys, text).placed_already == s.placed_already,
        after_text_press(s, billboard, keys, text).txt_color == s.txt_color,
{
}

/// What a heard press on a text asks for is settled by the keys first: delete removes, the copy key
/// asks for nothing more. Without them the middle button turns; the primary button edits with
/// control, from the text's last byte on, and drags without.
pub proof fn keys_settle_the_press(button: PointerButton, keys: Keys, text: Seq<char>)
    requires
        button == PointerButton::Primary || button == PointerButton::Middle,
    ensures
        text_press(button, keys, text) is Remove <==> keys.holds(KeyCode::Delete),
        text_press(button, keys, text) is Nothing <==> keys.holds(KeyCode::KeyC) && !keys.holds(
            KeyCode::Delete,
        ),
        text_press(button, keys, text) is Rotate <==> button == PointerButton::Middle
            && !keys.holds(KeyCode::Delete) && !keys.holds(KeyCode::KeyC),
        text_press(button, keys, text) is Edit <==> button == PointerButton::Primary && keys.holds(
            KeyCode::ControlLeft,
        ) && !keys.holds(KeyCode::Delete) && !keys.holds(KeyCode::KeyC),
        text_press(button, keys, text) is Drag <==> button == PointerButton::Primary && !keys.holds(
            KeyCode::ControlLeft,
        ) && !keys.holds(KeyCode::Delete) && !keys.holds(KeyCode::KeyC),
        text_press(button, keys, text) matches Press::Edit { idx } ==> idx == (byte_len(text)
            - 1) as usize,
{
}

/// The two outer uses of a pointer are told apart: the secondary button is never heard, the primary
/// one drags and the middle one turns.
pub proof fn buttons_have_their_uses()
    ensures
        heard(PointerButton::Primary),
        heard(PointerButton::Middle),
        !heard(PointerButton::Secondary),
        grip(PointerButton::Primary) == Press::Drag,
        grip(PointerButton::Middle) == Press::Rotate,
{
}

/// Letting go frees the camera and changes nothing else.
pub proof fn letting_go_only_frees(s: StateModel)
    ensures
        !let_go(s).is_focused,
        let_go(s).input == s.input,
        let_go(s).caps == s.caps,
        let_go(s).despawn_all == s.despawn_all,
        let_go(s).placed_already == s.placed_already,
        let_go(s).txt_color == s.txt_color,
{
}

/// The sky darkens just with page up, and lightens just with page down alone.
pub proof fn pages_shade_the_sky(keys: Keys)
    ensures
        sky_after(keys) == Sky::Darker <==> keys.holds(KeyCode::PageUp),
        sky_after(keys) == Sky::Lighter <==> keys.holds(KeyCode::PageDown) && !keys.holds(
            KeyCode::PageUp,
        ),
{
}

/// A solid thing is held from a heard press on until it is let go, and is listened to as before; the
/// primary button drags it and the middle one turns it. For a thing that is gone nothing is asked.
pub proof fn solids_are_held_until_let_go(button: PointerButton, i: Interactable)
    requires
        button == PointerButton::Primary || button == PointerButton::Middle,
    ensures
        solid_pressed(button, None) == (Press::Nothing, None::<Interactable>),
        solid_pressed(button, Some(i)).0 is Drag <==> button == PointerButton::Primary,
        solid_pressed(button, Some(i)).0 is Rotate <==> button == PointerButton::Middle,
        solid_pressed(button, Some(i)).1 matches Some(held) && held.interacting && held.observing
            == i.observing,
        solid_released(Some(i)) matches Some(free) && !free.interacting && free.observing
            == i.observing,
        solid_released(None) is None,
        !i.interacting ==> solid_released(solid_pressed(button, Some(i)).1) == Some(i),
{
}

/// Changing the room uses up its name and the wish for it, and changes nothing else.
pub proof fn room_changes_once(s: StateModel)
    ensures
        !room_changed(s).despawn_all,
        room_changed(s).input.len() == 0,
        room_changed(s).is_focused == s.is_focused,
        room_changed(s).caps == s.caps,
        room_changed(s).placed_already == s.placed_already,
        room_changed(s).txt_color == s.txt_color,
{
}

} // verus!
