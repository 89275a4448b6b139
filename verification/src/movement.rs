//! Which way the movement keys take the player.
//!
//! A key that is held alone moves the player one step along its axis. Two
//! keys of different axes held together move it one step along the diagonal
//! between them. Every pair of keys that forms a diagonal counts, so opposite
//! keys held together cancel.

use vstd::prelude::*;

verus! {

/// The steps that the player takes in one tick, counted per axis: steps
/// along the axes, and steps along the diagonals. A step along a diagonal is
/// as long as a step along an axis, so it covers less of each axis.
#[derive(Clone, Copy, Debug, PartialEq, Eq, Structural)]
pub struct Heading {
    pub straight_x: i8,
    pub straight_y: i8,
    pub diagonal_x: i8,
    pub diagonal_y: i8,
}

/// One for a pair of keys that is held, zero for one that is not.
pub open spec fn held(pressed: bool) -> int {
    if pressed {
        1
    } else {
        0
    }
}

/// The steps along the x axis that are taken along an axis: right or left,
/// where neither up nor down is held.
pub open spec fn straight_x(up: bool, left: bool, down: bool, right: bool) -> int {
    held(right && !(up || down)) - held(left && !(up || down))
}

/// The steps along the y axis that are taken along an axis: up or down, where
/// neither left nor right is held.
pub open spec fn straight_y(up: bool, left: bool, down: bool, right: bool) -> int {
    held(up && !(left || right)) - held(down && !(left || right))
}

/// The steps along the x axis that are taken along a diagonal.
pub open spec fn diagonal_x(up: bool, left: bool, down: bool, right: bool) -> int {
    held(up && right) + held(down && right) - held(up && left) - held(down && left)
}

/// The steps along the y axis that are taken along a diagonal.
pub open spec fn diagonal_y(up: bool, left: bool, down: bool, right: bool) -> int {
    held(up && left) + held(up && right) - held(down && left) - held(down && right)
}

/// The heading for the movement keys that are held.
pub fn player_movement(up: bool, left: bool, down: bool, right: bool) -> (heading: Heading)
    ensures
        heading.straight_x == straight_x(up, left, down, right),
        heading.straight_y == straight_y(up, left, down, right),
        heading.diagonal_x == diagonal_x(up, left, down, right),
        heading.diagonal_y == diagonal_y(up, left, down, right),
{
    let mut heading = Heading { straight_x: 0, straight_y: 0, diagonal_x: 0, diagonal_y: 0 };
    if up && left {
        heading.diagonal_y = heading.diagonal_y + 1;
        heading.diagonal_x = heading.diagonal_x - 1;
    }
    if up && right {
        heading.diagonal_y = heading.diagonal_y + 1;
        heading.diagonal_x = heading.diagonal_x + 1;
    }
    if down && left {
        heading.diagonal_y = heading.diagonal_y - 1;
        heading.diagonal_x = heading.diagonal_x - 1;
    }
    if down && right {
        heading.diagonal_y = heading.diagonal_y - 1;
        heading.diagonal_x = heading.diagonal_x + 1;
    }
    if up && !(left || right) {
        heading.straight_y = heading.straight_y + 1;
    }
    if left && !(up || down) {
        heading.straight_x = heading.straight_x - 1;
    }
    if down && !(left || right) {
        heading.straight_y = heading.straight_y - 1;
    }
    if right && !(up || down) {
        heading.straight_x = heading.straight_x + 1;
    }
    heading
}

} // verus!
