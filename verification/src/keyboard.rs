use std::time::Instant;

use vstd::prelude::*;

use crate::util::Direction8;

verus! {

/// A moment in time, as `std::time::Instant` gives it.
#[verifier::external_type_specification]
#[verifier::external_body]
pub struct ExInstant(Instant);

/// Calls `std::time::Instant::now`. The result rests on the clock, so nothing
/// is stated of it.
#[verifier::external_body]
fn instant_now() -> Instant {
    Instant::now()
}

/// The keys of the keyboard that the game reacts to; every other key is `Other`.
#[derive(PartialEq, Eq, Structural, Debug, Clone, Copy)]
pub enum KeyInput {
    Left,
    Right,
    Up,
    Down,
    A,
    D,
    W,
    S,
    Space,
    P,
    R,
    X,
    Other,
}

/// Which of the five remembered keys a key press drives.
#[derive(PartialEq, Eq, Structural, Debug, Clone, Copy)]
pub enum KeySlot {
    Left,
    Right,
    Up,
    Down,
    Space,
}

/// The remembered key that `keycode` drives: the arrow keys and WASD move,
/// space slows down, and every other key is ignored.
pub open spec fn spec_key_slot(keycode: KeyInput) -> Option<KeySlot> {
    match keycode {
        KeyInput::Left | KeyInput::A => Some(KeySlot::Left),
        KeyInput::Right | KeyInput::D => Some(KeySlot::Right),
        KeyInput::Up | KeyInput::W => Some(KeySlot::Up),
        KeyInput::Down | KeyInput::S => Some(KeySlot::Down),
        KeyInput::Space => Some(KeySlot::Space),
        _ => None,
    }
}

/// Whether a key is one that play reacts to: the arrow keys, WASD and space.
pub open spec fn is_key_of_play(keycode: KeyInput) -> bool {
    keycode is Left || keycode is A || keycode is Right || keycode is D || keycode is Up || keycode is W
        || keycode is Down || keycode is S || keycode is Space
}

/// The direction that the four movement keys give, if any: `left`, `right`,
/// `up` and `down` say which of them are held. Two opposite keys cancel out,
/// and a third key held with them wins.
pub open spec fn spec_direction(left: bool, right: bool, up: bool, down: bool) -> Option<Direction8> {
    match (left, right, up, down) {
        (true, false, false, false) => Some(Direction8::Left),
        (false, true, false, false) => Some(Direction8::Right),
        (false, false, true, false) => Some(Direction8::Up),
        (false, false, false, true) => Some(Direction8::Down),
        (true, false, true, false) => Some(Direction8::LeftUp),
        (true, false, false, true) => Some(Direction8::LeftDown),
        (false, true, true, false) => Some(Direction8::RightUp),
        (false, true, false, true) => Some(Direction8::RightDown),
        (true, false, true, true) => Some(Direction8::Left),
        (false, true, true, true) => Some(Direction8::Right),
        (true, true, true, false) => Some(Direction8::Up),
        (true, true, false, true) => Some(Direction8::Down),
        _ => None,
    }
}

/// How a key changes when a key event arrives: when the event drives it
/// (`driven`), it is held exactly when the event says so and a release keeps
/// the moment of its last press; otherwise it stays as it was.
pub open spec fn key_after(before: Key, after: Key, driven: bool, is_down: bool) -> bool {
    if driven {
        &&& after.held() == is_down
        &&& !is_down ==> after.pressed_at() == before.pressed_at()
    } else {
        after == before
    }
}

/// How a key changes when a key event arrives at the moment `now`: as
/// `key_after` says, and a press records `now` as the moment of the press.
pub open spec fn key_after_at(before: Key, after: Key, driven: bool, is_down: bool, now: Instant) -> bool {
    &&& key_after(before, after, driven, is_down)
    &&& driven && is_down ==> after.pressed_at() == now
}

/// The press state of one key, and when it was last pressed.
#[derive(Debug)]
pub struct Key {
    pub is_down: bool,
    last_pressed: Instant,
}

impl Key {
    /// Whether the key is held down.
    pub closed spec fn held(&self) -> bool {
        self.is_down
    }

    /// When the key was last pressed (or, if never, when it was made).
    pub closed spec fn pressed_at(&self) -> Instant {
        self.last_pressed
    }

    /// A key that is up.
    pub fn new() -> (key: Key)
        ensures
            !key.held(),
    {
        Key { is_down: false, last_pressed: instant_now() }
    }

    /// Record that the key went down (`is_down`) or up at the moment `now`. A
    /// press records `now` as the moment of the press; a release leaves the
    /// moment of the last press as it was.
    pub fn update_at(&mut self, is_down: bool, now: Instant)
        ensures
            final(self).held() == is_down,
            is_down ==> final(self).pressed_at() == now,
            !is_down ==> final(self).pressed_at() == old(self).pressed_at(),
    {
        self.is_down = is_down;
        if is_down {
            self.last_pressed = now;
        }
    }

    /// Record that the key went down (`is_down`) or up. A press also records
    /// the moment of the press, as the clock reads it during the call (see
    /// `update_at`); a release leaves it as it was.
    pub fn update(&mut self, is_down: bool)
        ensures
            final(self).held() == is_down,
            !is_down ==> final(self).pressed_at() == old(self).pressed_at(),
    {
        if is_down {
            let now = instant_now();
            self.update_at(true, now);
        } else {
            self.is_down = false;
        }
    }
}

impl Default for Key {
    fn default() -> (key: Key)
        ensures
            !key.held(),
    {
        Key::new()
    }
}

/// Remembers the press state of the keys that the game reacts to.
#[derive(Debug)]
pub struct KeyboardState {
    pub left: Key,
    pub right: Key,
    pub up: Key,
    pub down: Key,
    pub space: Key,
}

impl KeyboardState {
    /// A keyboard with every key up.
    pub fn new() -> (state: KeyboardState)
        ensures
            !state.left.held(),
            !state.right.held(),
            !state.up.held(),
            !state.down.held(),
            !state.space.held(),
    {
        KeyboardState {
            left: Key::new(),
            right: Key::new(),
            up: Key::new(),
            down: Key::new(),
            space: Key::new(),
        }
    }

    /// Record that `keycode` went down (`is_down`) or up at the moment `now`.
    /// Only the key that `keycode` drives changes, as `Key::update_at` changes
    /// it: a press records `now` as its moment.
    pub fn update_at(&mut self, keycode: KeyInput, is_down: bool, now: Instant)
        ensures
            key_after_at(old(self).left, final(self).left, spec_key_slot(keycode) == Some(KeySlot::Left), is_down, now),
            key_after_at(old(self).right, final(self).right, spec_key_slot(keycode) == Some(KeySlot::Right), is_down, now),
            key_after_at(old(self).up, final(self).up, spec_key_slot(keycode) == Some(KeySlot::Up), is_down, now),
            key_after_at(old(self).down, final(self).down, spec_key_slot(keycode) == Some(KeySlot::Down), is_down, now),
            key_after_at(old(self).space, final(self).space, spec_key_slot(keycode) == Some(KeySlot::Space), is_down, now),
            !is_key_of_play(keycode) ==> *final(self) == *old(self),
    {
        match keycode {
            KeyInput::Left | KeyInput::A => self.left.update_at(is_down, now),
            KeyInput::Right | KeyInput::D => self.right.update_at(is_down, now),
            KeyInput::Up | KeyInput::W => self.up.update_at(is_down, now),
            KeyInput::Down | KeyInput::S => self.down.update_at(is_down, now),
            KeyInput::Space => self.space.update_at(is_down, now),
            _ => (),
        }
    }

    /// Record that `keycode` went down (`is_down`) or up. Only the key that
    /// `keycode` drives changes, as `Key::update` changes it: a press records
    /// the moment that the clock reads during the call (see `update_at`).
    pub fn update(&mut self, keycode: KeyInput, is_down: bool)
        ensures
            key_after(old(self).left, final(self).left, spec_key_slot(keycode) == Some(KeySlot::Left), is_down),
            key_after(old(self).right, final(self).right, spec_key_slot(keycode) == Some(KeySlot::Right), is_down),
            key_after(old(self).up, final(self).up, spec_key_slot(keycode) == Some(KeySlot::Up), is_down),
            key_after(old(self).down, final(self).down, spec_key_slot(keycode) == Some(KeySlot::Down), is_down),
            key_after(old(self).space, final(self).space, spec_key_slot(keycode) == Some(KeySlot::Space), is_down),
            !is_key_of_play(keycode) ==> *final(self) == *old(self),
    {
        // The clock is read on a press only; a release records no moment, so
        // the moment handed on then is never stored.
        let now = if is_down { instant_now() } else { self.space.last_pressed };
        self.update_at(keycode, is_down, now);
    }

    /// The direction that the held movement keys give. Diagonals are supported;
    /// when no direction results the error is "Not a direction!".
    pub fn direction(&self) -> (res: Result<Direction8, &'static str>)
        ensures
            match spec_direction(self.left.held(), self.right.held(), self.up.held(), self.down.held()) {
                Some(d) => res == Ok::<Direction8, &'static str>(d),
                None => res == Err::<Direction8, &'static str>("Not a direction!"),
            },
    {
        let left = self.left.is_down;
        let right = self.right.is_down;
        let up = self.up.is_down;
        let down = self.down.is_down;
        match (left, right, up, down) {
            (true, false, false, false) => Ok(Direction8::Left),
            (false, true, false, false) => Ok(Direction8::Right),
            (false, false, true, false) => Ok(Direction8::Up),
            (false, false, false, true) => Ok(Direction8::Down),
            (true, false, true, false) => Ok(Direction8::LeftUp),
            (true, false, false, true) => Ok(Direction8::LeftDown),
            (false, true, true, false) => Ok(Direction8::RightUp),
            (false, true, false, true) => Ok(Direction8::RightDown),
            (true, false, true, true) => Ok(Direction8::Left),
            (false, true, true, true) => Ok(Direction8::Right),
            (true, true, true, false) => Ok(Direction8::Up),
            (true, true, false, true) => Ok(Direction8::Down),
            _ => Err("Not a direction!"),
        }
    }
}

impl Default for KeyboardState {
    fn default() -> (state: KeyboardState)
        ensures
            !state.left.held(),
            !state.right.held(),
            !state.up.held(),
            !state.down.held(),
            !state.space.held(),
    {
        KeyboardState::new()
    }
}

} // verus!

verus! {

/// Only the arrow keys, WASD and space drive a remembered key: left and A
/// drive left, right and D drive right, up and W drive up, down and S drive
/// down, space drives space, and every other key (R, P, X, ...) drives none.
pub proof fn lemma_only_keys_of_play_drive(keycode: KeyInput)
    ensures
        spec_key_slot(keycode) is Some <==> is_key_of_play(keycode),
        spec_key_slot(keycode) == Some(KeySlot::Left) <==> (keycode is Left || keycode is A),
        spec_key_slot(keycode) == Some(KeySlot::Right) <==> (keycode is Right || keycode is D),
        spec_key_slot(keycode) == Some(KeySlot::Up) <==> (keycode is Up || keycode is W),
        spec_key_slot(keycode) == Some(KeySlot::Down) <==> (keycode is Down || keycode is S),
        spec_key_slot(keycode) == Some(KeySlot::Space) <==> keycode is Space,
{
}

/// A key that play does not react to leaves the keyboard, and so the
/// direction, as it was.
pub proof fn lemma_other_keys_keep_direction(before: KeyboardState, after: KeyboardState, keycode: KeyInput, is_down: bool)
    requires
        !is_key_of_play(keycode),
        key_after(before.left, after.left, spec_key_slot(keycode) == Some(KeySlot::Left), is_down),
        key_after(before.right, after.right, spec_key_slot(keycode) == Some(KeySlot::Right), is_down),
        key_after(before.up, after.up, spec_key_slot(keycode) == Some(KeySlot::Up), is_down),
        key_after(before.down, after.down, spec_key_slot(keycode) == Some(KeySlot::Down), is_down),
        key_after(before.space, after.space, spec_key_slot(keycode) == Some(KeySlot::Space), is_down),
    ensures
        after == before,
        spec_direction(after.left.held(), after.right.held(), after.up.held(), after.down.held())
            == spec_direction(before.left.held(), before.right.held(), before.up.held(), before.down.held()),
{
    lemma_only_keys_of_play_drive(keycode);
}

/// 1 if `b` holds, else 0.
pub open spec fn held_count(b: bool) -> int {
    if b { 1 } else { 0 }
}

/// The movement keys give a direction exactly when they do not cancel out, and
/// the player then moves by the net of the held keys: right minus left along x,
/// up minus down along y.
pub proof fn lemma_direction_is_net_movement(left: bool, right: bool, up: bool, down: bool)
    ensures
        spec_direction(left, right, up, down) is Some <==> (
            held_count(right) - held_count(left) != 0 || held_count(up) - held_count(down) != 0
        ),
        spec_direction(left, right, up, down) matches Some(d) ==> crate::util::spec_delta(d) == (
            held_count(right) - held_count(left),
            held_count(up) - held_count(down),
        ),
{
}

/// The direction of a mirrored key press is mirrored: swapping left and right
/// swaps the horizontal part of the direction, and swapping up and down swaps
/// the vertical part.
pub proof fn lemma_direction_mirrors(left: bool, right: bool, up: bool, down: bool)
    ensures
        spec_direction(right, left, up, down) == mirror_x(spec_direction(left, right, up, down)),
        spec_direction(left, right, down, up) == mirror_y(spec_direction(left, right, up, down)),
{
}

/// A direction reflected left to right.
pub open spec fn mirror_x(d: Option<Direction8>) -> Option<Direction8> {
    match d {
        Some(Direction8::Left) => Some(Direction8::Right),
        Some(Direction8::Right) => Some(Direction8::Left),
        Some(Direction8::LeftUp) => Some(Direction8::RightUp),
        Some(Direction8::RightUp) => Some(Direction8::LeftUp),
        Some(Direction8::LeftDown) => Some(Direction8::RightDown),
        Some(Direction8::RightDown) => Some(Direction8::LeftDown),
        other => other,
    }
}

/// A direction reflected top to bottom.
pub open spec fn mirror_y(d: Option<Direction8>) -> Option<Direction8> {
    match d {
        Some(Direction8::Up) => Some(Direction8::Down),
        Some(Direction8::Down) => Some(Direction8::Up),
        Some(Direction8::LeftUp) => Some(Direction8::LeftDown),
        Some(Direction8::LeftDown) => Some(Direction8::LeftUp),
        Some(Direction8::RightUp) => Some(Direction8::RightDown),
        Some(Direction8::RightDown) => Some(Direction8::RightUp),
        other => other,
    }
}

} // verus!
