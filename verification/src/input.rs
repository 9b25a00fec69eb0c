//! The directional input that the host feeds before a tick.
use vstd::prelude::*;

verus! {

/// What the player asks of the paddle for one tick.
#[derive(Clone, Copy, Debug, PartialEq, Eq, Structural)]
pub enum Direction {
    Left,
    Right,
    Neither,
}

/// The direction that two keys ask for: the one that is held alone, and none
/// where both are held or neither is.
pub open spec fn resolved(left_pressed: bool, right_pressed: bool) -> Direction {
    if left_pressed && !right_pressed {
        Direction::Left
    } else if right_pressed && !left_pressed {
        Direction::Right
    } else {
        Direction::Neither
    }
}

/// Turns the state of the two direction keys into one direction.
pub fn resolve_input(left_pressed: bool, right_pressed: bool) -> (direction: Direction)
    ensures
        direction == resolved(left_pressed, right_pressed),
{
    if left_pressed && !right_pressed {
        Direction::Left
    } else if right_pressed && !left_pressed {
        Direction::Right
    } else {
        Direction::Neither
    }
}

/// The scan code of the left arrow key.
pub const SCAN_CODE_LEFT: u32 = 123;

/// The scan code of the right arrow key.
pub const SCAN_CODE_RIGHT: u32 = 124;

/// The scan code with which a key event is handed to the engine on behalf
/// of a shell that has no keyboard: that of the left arrow key for the key
/// that steers left, and that of the right arrow key for any other.
pub fn scan_code(steers_left: bool) -> (code: u32)
    ensures
        code == if steers_left {
            SCAN_CODE_LEFT
        } else {
            SCAN_CODE_RIGHT
        },
{
    if steers_left {
        SCAN_CODE_LEFT
    } else {
        SCAN_CODE_RIGHT
    }
}

} // verus!
