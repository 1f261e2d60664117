//! What the room remembers between frames.

use vstd::prelude::*;
use crate::color::{white, Rgba};

verus! {

/// The state of the talk between the room and whoever stands in it.
pub struct InteractionState {
    /// Something is being held or edited, so the camera stands still.
    pub is_focused: bool,
    /// What has been typed and not been used yet.
    pub accumulated_input: String,
    pub caps: bool,
    /// The room is to be emptied and another one opened.
    pub despawn_all: bool,
    /// Something was placed since the camera last moved.
    pub placed_already: bool,
    /// The color of the next text.
    pub txt_color: Rgba,
}

/// The value of an [`InteractionState`].
pub struct StateModel {
    pub is_focused: bool,
    pub input: Seq<char>,
    pub caps: bool,
    pub despawn_all: bool,
    pub placed_already: bool,
    pub txt_color: Rgba,
}

impl View for InteractionState {
    type V = StateModel;

    open spec fn view(&self) -> StateModel {
        StateModel {
            is_focused: self.is_focused,
            input: self.accumulated_input@,
            caps: self.caps,
            despawn_all: self.despawn_all,
            placed_already: self.placed_already,
            txt_color: self.txt_color,
        }
    }
}

/// The state that a session starts in: nothing typed, nothing held, white letters.
pub open spec fn first_state() -> StateModel {
    StateModel {
        is_focused: false,
        input: Seq::empty(),
        caps: false,
        despawn_all: false,
        placed_already: false,
        txt_color: white(),
    }
}

impl Default for InteractionState {
    fn default() -> (state: Self)
        ensures
            state@ == first_state(),
    {
        InteractionState {
            is_focused: false,
            accumulated_input: String::new(),
            caps: false,
            despawn_all: false,
            placed_already: false,
            txt_color: Rgba { r: 255, g: 255, b: 255, a: 255 },
        }
    }
}

impl InteractionState {
    /// Hands the typed text over and forgets it.
    pub fn take_input(&mut self) -> (text: String)
        ensures
            text@ == old(self)@.input,
            final(self)@ == (StateModel { input: Seq::empty(), ..old(self)@ }),
    {
        let text = self.accumulated_input.clone();
        self.accumulated_input = String::new();
        text
    }
}

} // verus!
