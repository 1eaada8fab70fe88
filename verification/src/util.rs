use vstd::prelude::*;

verus! {

/// The eight directions that the player can move in.
#[derive(PartialEq, Eq, Structural, Debug, Clone, Copy)]
pub enum Direction8 {
    Left,
    Right,
    Up,
    Down,
    LeftUp,
    LeftDown,
    RightUp,
    RightDown,
}

/// The unit step (x, y) that a direction moves the player by, with x growing
/// to the right and y growing upwards.
pub open spec fn spec_delta(direction: Direction8) -> (int, int) {
    match direction {
        Direction8::Left => (-1, 0),
        Direction8::Right => (1, 0),
        Direction8::Up => (0, 1),
        Direction8::Down => (0, -1),
        Direction8::LeftUp => (-1, 1),
        Direction8::LeftDown => (-1, -1),
        Direction8::RightUp => (1, 1),
        Direction8::RightDown => (1, -1),
    }
}

/// The unit step (x, y) that the player takes when moving in `direction`: left
/// is negative x, up is positive y.
pub fn movement_delta(direction: Direction8) -> (delta: (i8, i8))
    ensures
        delta.0 as int == spec_delta(direction).0,
        delta.1 as int == spec_delta(direction).1,
{
    let delta_x: i8 = match direction {
        Direction8::Left | Direction8::LeftDown | Direction8::LeftUp => -1,
        Direction8::Right | Direction8::RightDown | Direction8::RightUp => 1,
        Direction8::Up | Direction8::Down => 0,
    };
    let delta_y: i8 = match direction {
        Direction8::Up | Direction8::LeftUp | Direction8::RightUp => 1,
        Direction8::Down | Direction8::LeftDown | Direction8::RightDown => -1,
        Direction8::Left | Direction8::Right => 0,
    };
    (delta_x, delta_y)
}

/// Distinct directions move the player differently.
pub proof fn lemma_delta_injective(a: Direction8, b: Direction8)
    ensures
        spec_delta(a) == spec_delta(b) <==> a == b,
{
}

} // verus!
