//! A frame of the camera: who gets the keys, and where they take it.

use vstd::prelude::*;
use crate::color::Rgba;
use crate::keys::{KeyCode, Keys, Mouse};
use crate::scene::{FloatingText, FloatingTextModel};
use crate::space::{scalar, Scalar, ONE};
use crate::state::{InteractionState, StateModel};
use crate::text::{chars_of, decimal, digits, number, parse_number};

verus! {

/// What becomes of the cursor.
#[derive(Clone, Copy, Debug, PartialEq, Eq, Structural)]
pub enum Cursor {
    /// It stays as it is.
    Kept,
    /// It is locked and hidden.
    Locked,
    /// It is free and shown.
    Freed,
}

/// Who a frame's keys belong to.
#[derive(Clone, Copy, Debug, PartialEq, Eq, Structural)]
pub enum Mode {
    /// They are typed.
    Typing,
    /// They belong to what is held or edited; the camera stands still.
    Held,
    /// They move the camera.
    Flying,
}

/// What becomes of the cursor: the right button locks it, its release or escape frees it, and
/// freeing comes last.
pub open spec fn cursor_after(keys: Keys, mouse: Mouse) -> Cursor {
    if keys.starts(KeyCode::Escape) || mouse.right_released {
        Cursor::Freed
    } else if mouse.right_pressed {
        Cursor::Locked
    } else {
        Cursor::Kept
    }
}

/// Whether the cursor is locked afterwards.
pub open spec fn locked_after(cursor: Cursor, locked: bool) -> bool {
    match cursor {
        Cursor::Kept => locked,
        Cursor::Locked => true,
        Cursor::Freed => false,
    }
}

/// The state once the frame has begun: freeing the cursor lets go of what was held.
pub open spec fn begun(s: StateModel, cursor: Cursor) -> StateModel {
    StateModel { is_focused: s.is_focused && cursor != Cursor::Freed, ..s }
}

/// Who the keys belong to. Typing wants a cursor that is not locked and a mouse at rest.
pub open spec fn mode_of(s: StateModel, locked: bool, mouse: Mouse) -> Mode {
    if !locked && !mouse.any() {
        Mode::Typing
    } else if s.is_focused {
        Mode::Held
    } else {
        Mode::Flying
    }
}

/// A direction of flight, as the camera sees it.
#[derive(Clone, Copy, Debug, PartialEq, Eq, Structural)]
pub enum Heading {
    Forward,
    Back,
    Left,
    Right,
    Up,
    Down,
}

/// The bits of 33.333, the speed without haste.
pub const BASE_SPEED: u32 = 0x4205_54fe;

/// The bits of 27.0, what both buttons add.
pub const DASH_SPEED: u32 = 0x41d8_0000;

/// The bits of 24.2, what the middle button adds to both.
pub const MIDDLE_SPEED: u32 = 0x41c1_999a;

/// The bits of 40.484, what the forward key adds to both.
pub const KEY_SPEED: u32 = 0x4221_ef9e;

/// The bits of 25.0, what shift adds.
pub const SHIFT_SPEED: u32 = 0x41c8_0000;

/// The bits of 1.5, the turns per second about the line of sight, in radians.
pub const ROLL_RATE: u32 = 0x3fc0_0000;

/// `s` followed by `x` if `when` holds.
pub open spec fn pushed_if<A>(s: Seq<A>, when: bool, x: A) -> Seq<A> {
    if when {
        s.push(x)
    } else {
        s
    }
}

/// Whether both outer mouse buttons are down, which is a dash.
pub open spec fn dashing(mouse: Mouse) -> bool {
    mouse.left && mouse.right
}

/// The directions that are flown in, in the order in which they are added up.
pub open spec fn headings(keys: Keys, mouse: Mouse) -> Seq<Heading> {
    let s = pushed_if(
        Seq::empty(),
        dashing(mouse) || keys.holds(KeyCode::KeyW) || mouse.middle,
        Heading::Forward,
    );
    let s = pushed_if(s, keys.holds(KeyCode::KeyS), Heading::Back);
    let s = pushed_if(s, keys.holds(KeyCode::KeyA), Heading::Left);
    let s = pushed_if(s, keys.holds(KeyCode::KeyD), Heading::Right);
    let s = pushed_if(s, keys.holds(KeyCode::Space), Heading::Up);
    pushed_if(s, keys.holds(KeyCode::ControlLeft), Heading::Down)
}

/// The speeds that add up to that of the flight, in the order in which they are added.
pub open spec fn speeds(keys: Keys, mouse: Mouse) -> Seq<Scalar> {
    let s = seq![scalar(BASE_SPEED)];
    let s = pushed_if(s, dashing(mouse), scalar(DASH_SPEED));
    let s = pushed_if(s, dashing(mouse) && mouse.middle, scalar(MIDDLE_SPEED));
    let s = pushed_if(s, dashing(mouse) && keys.holds(KeyCode::KeyW), scalar(KEY_SPEED));
    pushed_if(s, keys.holds(KeyCode::ShiftLeft), scalar(SHIFT_SPEED))
}

/// The roll: one way, the other way, or none.
pub open spec fn roll_of(keys: Keys) -> int {
    (if keys.holds(KeyCode::KeyQ) {
        1int
    } else {
        0
    }) - (if keys.holds(KeyCode::KeyE) {
        1int
    } else {
        0
    })
}

/// What is to be done about looking places.
#[derive(Clone, Copy, Debug, PartialEq, Eq, Structural)]
pub enum Memory {
    Nothing,
    /// Remember where the camera is.
    Save,
    /// Go to the place remembered last.
    Recall,
}

/// Whether shift and T ask for a place to be saved.
pub open spec fn asks_save(keys: Keys) -> bool {
    keys.holds(KeyCode::ShiftLeft) && keys.starts(KeyCode::KeyT)
}

/// Whether shift and R ask for the last place, and T does not come first.
pub open spec fn asks_recall(keys: Keys) -> bool {
    keys.holds(KeyCode::ShiftLeft) && keys.starts(KeyCode::KeyR) && !asks_save(keys)
}

/// Whether the frame is given up: a place is to be saved where something was just placed.
pub open spec fn gives_up(s: StateModel, keys: Keys) -> bool {
    asks_save(keys) && s.placed_already
}

/// What is to be done about looking places: saving comes before recalling, and neither is done in
/// a frame that is given up.
pub open spec fn memory_of(s: StateModel, keys: Keys) -> Memory {
    if gives_up(s, keys) {
        Memory::Nothing
    } else if asks_save(keys) {
        Memory::Save
    } else if asks_recall(keys) {
        Memory::Recall
    } else {
        Memory::Nothing
    }
}

/// A frame of flight.
pub struct Flight {
    /// The direction of the roll, of [`ROLL_RATE`]: 1, 0 or -1.
    pub roll: i8,
    pub headings: Vec<Heading>,
    pub speeds: Vec<Scalar>,
    pub memory: Memory,
    /// The looking place to go to, counted from the oldest.
    pub jump: Option<usize>,
    /// The frame ends once the camera has moved: no place is looked up, and nothing turns to the
    /// camera.
    pub given_up: bool,
}

/// The number of the place that the typed text asks for, if the backspace key is down.
pub open spec fn jump_of(s: StateModel, keys: Keys) -> Option<nat> {
    if keys.holds(KeyCode::Backspace) {
        number(s.input, usize::MAX as nat)
    } else {
        None
    }
}

/// The state after a frame of flight: the backspace key uses the typed text up, and whatever was
/// placed no longer counts. A frame that is given up changes nothing.
pub open spec fn flown(s: StateModel, keys: Keys) -> StateModel {
    if gives_up(s, keys) {
        s
    } else {
        StateModel {
            input: if keys.holds(KeyCode::Backspace) {
                Seq::empty()
            } else {
                s.input
            },
            placed_already: false,
            ..s
        }
    }
}

fn heading_list(keys: &Keys, mouse: Mouse) -> (v: Vec<Heading>)
    ensures
        v@ == headings(*keys, mouse),
{
    let mut v: Vec<Heading> = Vec::new();
    if (mouse.left && mouse.right) || keys.pressed(KeyCode::KeyW) || mouse.middle {
        v.push(Heading::Forward);
    }
    if keys.pressed(KeyCode::KeyS) {
        v.push(Heading::Back);
    }
    if keys.pressed(KeyCode::KeyA) {
        v.push(Heading::Left);
    }
    if keys.pressed(KeyCode::KeyD) {
        v.push(Heading::Right);
    }
    if keys.pressed(KeyCode::Space) {
        v.push(Heading::Up);
    }
    if keys.pressed(KeyCode::ControlLeft) {
        v.push(Heading::Down);
    }
    v
}

fn speed_list(keys: &Keys, mouse: Mouse) -> (v: Vec<Scalar>)
    ensures
        v@ == speeds(*keys, mouse),
{
    let mut v: Vec<Scalar> = Vec::new();
    v.push(Scalar { bits: BASE_SPEED });
    assert(v@ =~= seq![scalar(BASE_SPEED)]);
    if mouse.left && mouse.right {
        v.push(Scalar { bits: DASH_SPEED });
        if mouse.middle {
            v.push(Scalar { bits: MIDDLE_SPEED });
        }
        if keys.pressed(KeyCode::KeyW) {
            v.push(Scalar { bits: KEY_SPEED });
        }
    }
    if keys.pressed(KeyCode::ShiftLeft) {
        v.push(Scalar { bits: SHIFT_SPEED });
    }
    v
}

/// Reads `text` as the number of a place.
fn place_number(text: &str) -> (r: Option<usize>)
    ensures
        (match number(text@, usize::MAX as nat) {
            Some(n) => r == Some(n as usize),
            None => r is None,
        }),
{
    let chars = chars_of(text);
    assert(chars@.subrange(0, chars@.len() as int) =~= text@);
    match parse_number(&chars, 0, chars.len(), usize::MAX as u64) {
        Some(n) => Some(n as usize),
        None => None,
    }
}

impl InteractionState {
    /// Begins a frame of the camera: settles the cursor, and says who the keys belong to.
    /// `locked` says whether the cursor is locked.
    pub fn begin_frame(&mut self, keys: &Keys, mouse: Mouse, locked: bool) -> (r: (Cursor, Mode))
        ensures
            r.0 == cursor_after(*keys, mouse),
            final(self)@ == begun(old(self)@, r.0),
            r.1 == mode_of(final(self)@, locked_after(r.0, locked), mouse),
    {
        let mut cursor = Cursor::Kept;
        let mut locked = locked;
        if mouse.right_pressed {
            cursor = Cursor::Locked;
            locked = true;
        }
        if keys.just_pressed(KeyCode::Escape) || mouse.right_released {
            cursor = Cursor::Freed;
            locked = false;
            self.is_focused = false;
        }
        let mode = if !locked && !(mouse.left || mouse.middle || mouse.right) {
            Mode::Typing
        } else if self.is_focused {
            Mode::Held
        } else {
            Mode::Flying
        };
        (cursor, mode)
    }

    /// Plans a frame of flight.
    pub fn fly(&mut self, keys: &Keys, mouse: Mouse) -> (flight: Flight)
        ensures
            flight.roll == roll_of(*keys),
            flight.headings@ == headings(*keys, mouse),
            flight.speeds@ == speeds(*keys, mouse),
            flight.given_up == gives_up(old(self)@, *keys),
            flight.memory == memory_of(old(self)@, *keys),
            (match jump_of(old(self)@, *keys) {
                Some(n) if !flight.given_up => flight.jump == Some(n as usize),
                _ => flight.jump is None,
            }),
            final(self)@ == flown(old(self)@, *keys),
    {
        let mut roll: i8 = 0;
        if keys.pressed(KeyCode::KeyQ) {
            roll = roll + 1;
        }
        if keys.pressed(KeyCode::KeyE) {
            roll = roll - 1;
        }
        let mut flight = Flight {
            roll,
            headings: heading_list(keys, mouse),
            speeds: speed_list(keys, mouse),
            memory: Memory::Nothing,
            jump: None,
            given_up: false,
        };
        let shift = keys.pressed(KeyCode::ShiftLeft);
        if shift && keys.just_pressed(KeyCode::KeyT) {
            if self.placed_already {
                flight.given_up = true;
                return flight;
            }
            flight.memory = Memory::Save;
        } else if shift && keys.just_pressed(KeyCode::KeyR) {
            flight.memory = Memory::Recall;
        }
        if keys.pressed(KeyCode::Backspace) {
            let text = self.take_input();
            flight.jump = place_number(text.as_str());
        }
        self.placed_already = false;
        flight
    }
}

/// The text that a recalled place is marked with: the time it was saved at.
pub open spec fn place_mark(ts: u64) -> FloatingTextModel {
    FloatingTextModel {
        billboard: true,
        text: digits(ts as nat),
        size: scalar(ONE),
        color: Rgba { r: 255, g: 0, b: 30, a: 255 },
        bg_color: None,
        save: false,
        editing: false,
    }
}

/// The text to put up at a recalled place.
pub fn mark_place(ts: u64) -> (text: FloatingText)
    ensures
        text@ == place_mark(ts),
{
    FloatingText {
        billboard: true,
        text: decimal(ts),
        size: Scalar { bits: ONE },
        color: Rgba { r: 255, g: 0, b: 30, a: 255 },
        bg_color: None,
        save: false,
        editing: false,
    }
}

/// The keys go to one party only, and to the camera only while nothing is held.
pub proof fn flying_is_not_held(s: StateModel, locked: bool, mouse: Mouse)
    ensures
        mode_of(s, locked, mouse) == Mode::Flying ==> !s.is_focused,
        mode_of(s, locked, mouse) == Mode::Typing ==> !locked && !mouse.any(),
        mouse.any() ==> mode_of(s, locked, mouse) != Mode::Typing,
{
}

/// Freeing the cursor with the mouse at rest always leads back to typing, with nothing held.
pub proof fn freeing_leads_to_typing(s: StateModel, keys: Keys, mouse: Mouse, locked: bool)
    requires
        keys.starts(KeyCode::Escape) || mouse.right_released,
        !mouse.any(),
    ensures
        !begun(s, cursor_after(keys, mouse)).is_focused,
        mode_of(
            begun(s, cursor_after(keys, mouse)),
            locked_after(cursor_after(keys, mouse), locked),
            mouse,
        ) == Mode::Typing,
{
}

/// While something placed still counts, saving is given up and changes nothing; any other frame
/// of flight clears that, so that the next save goes through.
pub proof fn saving_waits_for_flight(s: StateModel, keys: Keys, later: Keys)
    ensures
        gives_up(s, keys) ==> flown(s, keys) == s && memory_of(s, keys) == Memory::Nothing,
        asks_save(keys) && !s.placed_already ==> memory_of(s, keys) == Memory::Save,
        !gives_up(s, keys) ==> !gives_up(flown(s, keys), later),
{
}

/// A number typed in full leads to the place of that number.
pub proof fn typed_number_leads_there(s: StateModel, keys: Keys, n: usize)
    requires
        keys.holds(KeyCode::Backspace),
        s.input == digits(n as nat),
    ensures
        jump_of(s, keys) == Some(n as nat),
{
    crate::text::decimal_reads_back(n as nat, usize::MAX as nat);
}

/// Each direction has keys of its own: it is flown in just if one of them is held, and counts once.
/// Forward are W, the middle button and both outer buttons; back is S, left A, right D, up space and
/// down the left control key.
pub proof fn each_direction_has_its_key(keys: Keys, mouse: Mouse)
    ensures
        headings(keys, mouse).no_duplicates(),
        headings(keys, mouse).contains(Heading::Forward) <==> keys.holds(KeyCode::KeyW)
            || mouse.middle || (mouse.left && mouse.right),
        headings(keys, mouse).contains(Heading::Back) <==> keys.holds(KeyCode::KeyS),
        headings(keys, mouse).contains(Heading::Left) <==> keys.holds(KeyCode::KeyA),
        headings(keys, mouse).contains(Heading::Right) <==> keys.holds(KeyCode::KeyD),
        headings(keys, mouse).contains(Heading::Up) <==> keys.holds(KeyCode::Space),
        headings(keys, mouse).contains(Heading::Down) <==> keys.holds(KeyCode::ControlLeft),
{
    let none = Seq::<Heading>::empty();
    let forward = dashing(mouse) || keys.holds(KeyCode::KeyW) || mouse.middle;
    let a = pushed_if(none, forward, Heading::Forward);
    let b = pushed_if(a, keys.holds(KeyCode::KeyS), Heading::Back);
    let c = pushed_if(b, keys.holds(KeyCode::KeyA), Heading::Left);
    let d = pushed_if(c, keys.holds(KeyCode::KeyD), Heading::Right);
    let e = pushed_if(d, keys.holds(KeyCode::Space), Heading::Up);
    let f = pushed_if(e, keys.holds(KeyCode::ControlLeft), Heading::Down);
    assert(f == headings(keys, mouse));
    assert(none.no_duplicates());
    assert(forall|h: Heading| !none.contains(h));
    pushed_once(none, forward, Heading::Forward);
    pushed_once(a, keys.holds(KeyCode::KeyS), Heading::Back);
    pushed_once(b, keys.holds(KeyCode::KeyA), Heading::Left);
    pushed_once(c, keys.holds(KeyCode::KeyD), Heading::Right);
    pushed_once(d, keys.holds(KeyCode::Space), Heading::Up);
    pushed_once(e, keys.holds(KeyCode::ControlLeft), Heading::Down);
}

/// What is pushed on condition is in the list just if the condition holds, and nothing else comes
/// or goes.
proof fn pushed_once<A>(s: Seq<A>, when: bool, x: A)
    requires
        s.no_duplicates(),
        !s.contains(x),
    ensures
        pushed_if(s, when, x).no_duplicates(),
        forall|y: A| #[trigger]
            pushed_if(s, when, x).contains(y) <==> s.contains(y) || (when && y == x),
{
    let t = pushed_if(s, when, x);
    assert forall|y: A| #[trigger] t.contains(y) <==> s.contains(y) || (when && y == x) by {
        if s.contains(y) {
            let i = choose|i: int| 0 <= i < s.len() && s[i] == y;
            assert(t[i] == y);
        }
        if when && y == x {
            assert(t[s.len() as int] == y);
        }
        if t.contains(y) {
            let i = choose|i: int| 0 <= i < t.len() && t[i] == y;
            if i < s.len() {
                assert(s[i] == y);
            }
        }
    }
    if when {
        assert forall|i: int, j: int| 0 <= i < j < t.len() implies t[i] != t[j] by {
            if j == s.len() {
                assert(s.contains(s[i]));
            }
        }
    }
}

/// With W as the only key and no button but the right one, the flight leads forward and nowhere
/// else; with S it leads back and nowhere else.
pub proof fn one_key_leads_one_way(keys: Keys, mouse: Mouse)
    requires
        !mouse.left,
        !mouse.middle,
        !keys.holds(KeyCode::KeyA),
        !keys.holds(KeyCode::KeyD),
        !keys.holds(KeyCode::Space),
        !keys.holds(KeyCode::ControlLeft),
    ensures
        keys.holds(KeyCode::KeyW) && !keys.holds(KeyCode::KeyS) ==> headings(keys, mouse) == seq![
            Heading::Forward,
        ],
        keys.holds(KeyCode::KeyS) && !keys.holds(KeyCode::KeyW) ==> headings(keys, mouse) == seq![
            Heading::Back,
        ],
{
    if keys.holds(KeyCode::KeyW) && !keys.holds(KeyCode::KeyS) {
        assert(headings(keys, mouse) =~= seq![Heading::Forward]);
    }
    if keys.holds(KeyCode::KeyS) && !keys.holds(KeyCode::KeyW) {
        assert(headings(keys, mouse) =~= seq![Heading::Back]);
    }
}

/// What adds to the speed adds once, and just if it is asked for: 33.333 always, 27.0 for both outer
/// buttons, with them 24.2 for the middle one and 40.484 for W, and 25.0 for shift.
pub proof fn each_haste_has_its_cause(keys: Keys, mouse: Mouse)
    ensures
        speeds(keys, mouse).no_duplicates(),
        speeds(keys, mouse).contains(Scalar { bits: 0x4205_54fe }),
        speeds(keys, mouse).contains(Scalar { bits: 0x41d8_0000 }) <==> mouse.left && mouse.right,
        speeds(keys, mouse).contains(Scalar { bits: 0x41c1_999a }) <==> mouse.left && mouse.right
            && mouse.middle,
        speeds(keys, mouse).contains(Scalar { bits: 0x4221_ef9e }) <==> mouse.left && mouse.right
            && keys.holds(KeyCode::KeyW),
        speeds(keys, mouse).contains(Scalar { bits: 0x41c8_0000 }) <==> keys.holds(
            KeyCode::ShiftLeft,
        ),
        forall|x: Scalar| #[trigger]
            speeds(keys, mouse).contains(x) ==> x.bits == 0x4205_54fe || x.bits == 0x41d8_0000
                || x.bits == 0x41c1_999a || x.bits == 0x4221_ef9e || x.bits == 0x41c8_0000,
{
    let base = seq![scalar(BASE_SPEED)];
    let dash = dashing(mouse);
    let a = pushed_if(base, dash, scalar(DASH_SPEED));
    let b = pushed_if(a, dash && mouse.middle, scalar(MIDDLE_SPEED));
    let c = pushed_if(b, dash && keys.holds(KeyCode::KeyW), scalar(KEY_SPEED));
    let d = pushed_if(c, keys.holds(KeyCode::ShiftLeft), scalar(SHIFT_SPEED));
    assert(d == speeds(keys, mouse));
    assert(base[0] == scalar(BASE_SPEED));
    assert(forall|x: Scalar| #[trigger] base.contains(x) <==> x == scalar(BASE_SPEED));
    assert(base.no_duplicates());
    pushed_once(base, dash, scalar(DASH_SPEED));
    pushed_once(a, dash && mouse.middle, scalar(MIDDLE_SPEED));
    pushed_once(b, dash && keys.holds(KeyCode::KeyW), scalar(KEY_SPEED));
    pushed_once(c, keys.holds(KeyCode::ShiftLeft), scalar(SHIFT_SPEED));
}

/// Q rolls one way and E the other; both together undo each other.
pub proof fn roll_keys_oppose(keys: Keys)
    ensures
        roll_of(keys) > 0 <==> keys.holds(KeyCode::KeyQ) && !keys.holds(KeyCode::KeyE),
        roll_of(keys) < 0 <==> keys.holds(KeyCode::KeyE) && !keys.holds(KeyCode::KeyQ),
        -1 <= roll_of(keys) <= 1,
{
}

/// The keys are typed just if the cursor is not locked and no button is down. Else they belong to
/// what is held just if something is, and to the flight just if nothing is.
pub proof fn keys_have_one_owner(s: StateModel, locked: bool, mouse: Mouse)
    ensures
        mode_of(s, locked, mouse) == Mode::Typing <==> !locked && !mouse.left && !mouse.middle
            && !mouse.right,
        mode_of(s, locked, mouse) == Mode::Held <==> (locked || mouse.left || mouse.middle
            || mouse.right) && s.is_focused,
        mode_of(s, locked, mouse) == Mode::Flying <==> (locked || mouse.left || mouse.middle
            || mouse.right) && !s.is_focused,
{
}

/// The middle button alone flies forward, with nothing held and the cursor free.
pub proof fn middle_button_flies(s: StateModel, keys: Keys, mouse: Mouse)
    requires
        mouse.middle,
        !begun(s, cursor_after(keys, mouse)).is_focused,
    ensures
        mode_of(
            begun(s, cursor_after(keys, mouse)),
            locked_after(cursor_after(keys, mouse), false),
            mouse,
        ) == Mode::Flying,
        headings(keys, mouse).contains(Heading::Forward),
{
    each_direction_has_its_key(keys, mouse);
}

/// The cursor is freed just by escape or the release of the right button, and locked just by the
/// press of that button without either; else it stays as it is. Freeing it is all that lets go of
/// what is held, and a frame begins with no other change.
pub proof fn cursor_follows_the_right_button(s: StateModel, keys: Keys, mouse: Mouse, locked: bool)
    ensures
        cursor_after(keys, mouse) == Cursor::Freed <==> keys.starts(KeyCode::Escape)
            || mouse.right_released,
        cursor_after(keys, mouse) == Cursor::Locked <==> mouse.right_pressed && !keys.starts(
            KeyCode::Escape,
        ) && !mouse.right_released,
        locked_after(Cursor::Kept, locked) == locked,
        locked_after(Cursor::Locked, locked),
        !locked_after(Cursor::Freed, locked),
        begun(s, cursor_after(keys, mouse)).is_focused <==> s.is_focused && !keys.starts(
            KeyCode::Escape,
        ) && !mouse.right_released,
        begun(s, cursor_after(keys, mouse)).input == s.input,
        begun(s, cursor_after(keys, mouse)).caps == s.caps,
        begun(s, cursor_after(keys, mouse)).despawn_all == s.despawn_all,
        begun(s, cursor_after(keys, mouse)).placed_already == s.placed_already,
        begun(s, cursor_after(keys, mouse)).txt_color == s.txt_color,
{
}

/// Shift and T save a place, unless something was just placed; shift and R recall one, unless T
/// comes with it; nothing else does either.
pub proof fn places_need_shift(s: StateModel, keys: Keys)
    ensures
        memory_of(s, keys) == Memory::Save <==> keys.holds(KeyCode::ShiftLeft) && keys.starts(
            KeyCode::KeyT,
        ) && !s.placed_already,
        memory_of(s, keys) == Memory::Recall <==> keys.holds(KeyCode::ShiftLeft) && keys.starts(
            KeyCode::KeyR,
        ) && !keys.starts(KeyCode::KeyT),
        gives_up(s, keys) <==> keys.holds(KeyCode::ShiftLeft) && keys.starts(KeyCode::KeyT)
            && s.placed_already,
{
}

/// The backspace key uses up what was typed, whatever it was, and leads on only where that is a
/// number; without the key nothing is used and nothing leads on.
pub proof fn backspace_uses_the_number(s: StateModel, keys: Keys)
    ensures
        jump_of(s, keys) is Some ==> keys.holds(KeyCode::Backspace),
        keys.holds(KeyCode::Backspace) ==> jump_of(s, keys) == number(
            s.input,
            usize::MAX as nat,
        ),
        !gives_up(s, keys) && keys.holds(KeyCode::Backspace) ==> flown(s, keys).input.len() == 0,
        !keys.holds(KeyCode::Backspace) ==> flown(s, keys).input == s.input,
        flown(s, keys).placed_already <==> gives_up(s, keys),
        flown(s, keys).is_focused == s.is_focused,
        flown(s, keys).caps == s.caps,
        flown(s, keys).despawn_all == s.despawn_all,
        flown(s, keys).txt_color == s.txt_color,
{
}

/// The mark of a recalled place shows the second it was saved at, readable as that number, in its
/// own red and in full size; it faces the camera, and is neither remembered nor edited.
pub proof fn mark_shows_the_second(ts: u64)
    ensures
        number(place_mark(ts).text, u64::MAX as nat) == Some(ts as nat),
        place_mark(ts).color == (Rgba { r: 255, g: 0, b: 30, a: 255 }),
        place_mark(ts).size.bits == 0x3f80_0000,
        place_mark(ts).bg_color is None,
        place_mark(ts).billboard,
        !place_mark(ts).save,
        !place_mark(ts).editing,
{
    crate::text::decimal_reads_back(ts as nat, u64::MAX as nat);
}

} // verus!
