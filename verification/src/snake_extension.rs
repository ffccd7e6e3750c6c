//! From pressed keys to the inputs of one tick.

use crate::snake_model::SnakeMoveDirection;
use vstd::prelude::*;

verus! {

/// How the head is turned.
#[derive(Clone, Copy, Debug, PartialEq, Eq, Structural)]
pub enum SnakeTurnDirection {
    Right,
    Left,
    Straight,
}

/// The factor that a turn puts on the angular speed.
pub open spec fn turn_ratio(input: SnakeTurnDirection) -> int {
    match input {
        SnakeTurnDirection::Right => 1,
        SnakeTurnDirection::Left => -1,
        SnakeTurnDirection::Straight => 0,
    }
}

/// The factor that a turn puts on the angular speed: a right turn raises the
/// heading, a left turn lowers it.
pub fn rotation_ratio(input: SnakeTurnDirection) -> (r: i8)
    ensures
        r == turn_ratio(input),
{
    match input {
        SnakeTurnDirection::Right => 1,
        SnakeTurnDirection::Left => -1,
        SnakeTurnDirection::Straight => 0,
    }
}

/// The drive that the up and down keys ask for. Up wins over down.
pub fn keyboard_movement_up_down(up_pressed: bool, down_pressed: bool) -> (input:
    SnakeMoveDirection)
    ensures
        up_pressed ==> input == SnakeMoveDirection::Forward,
        !up_pressed && down_pressed ==> input == SnakeMoveDirection::Backward,
        !up_pressed && !down_pressed ==> input == SnakeMoveDirection::Stop,
{
    if up_pressed {
        SnakeMoveDirection::Forward
    } else if down_pressed {
        SnakeMoveDirection::Backward
    } else {
        SnakeMoveDirection::Stop
    }
}

/// The turn that the right and left keys ask for. Right wins over left.
pub fn keyboard_rotation(right_pressed: bool, left_pressed: bool) -> (input: SnakeTurnDirection)
    ensures
        right_pressed ==> input == SnakeTurnDirection::Right,
        !right_pressed && left_pressed ==> input == SnakeTurnDirection::Left,
        !right_pressed && !left_pressed ==> input == SnakeTurnDirection::Straight,
{
    if right_pressed {
        SnakeTurnDirection::Right
    } else if left_pressed {
        SnakeTurnDirection::Left
    } else {
        SnakeTurnDirection::Straight
    }
}

} // verus!
