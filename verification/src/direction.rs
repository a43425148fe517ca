//! The directional abstraction the engine consumes. Exactly one direction is
//! honored per tick, in the fixed priority order up, down, left, right.

use vstd::prelude::*;
use crate::input::Buttons;

verus! {

#[derive(Debug, Eq, PartialEq, Copy, Clone, Structural)]
pub enum Direction {
    Up,
    Down,
    Left,
    Right,
}

/// The direction the held buttons select, highest priority first.
pub open spec fn dir_from_held(b: Buttons) -> Option<Direction> {
    if b.up {
        Some(Direction::Up)
    } else if b.down {
        Some(Direction::Down)
    } else if b.left {
        Some(Direction::Left)
    } else if b.right {
        Some(Direction::Right)
    } else {
        None
    }
}

/// The direction the just-pressed buttons select, highest priority first.
pub open spec fn dir_from_just(b: Buttons) -> Option<Direction> {
    if b.up_just {
        Some(Direction::Up)
    } else if b.down_just {
        Some(Direction::Down)
    } else if b.left_just {
        Some(Direction::Left)
    } else if b.right_just {
        Some(Direction::Right)
    } else {
        None
    }
}

impl Direction {
    /// The held direction this tick honors, if any.
    pub fn from_input(buttons: &Buttons) -> (r: Option<Direction>)
        ensures
            r == dir_from_held(*buttons),
    {
        if buttons.up {
            Some(Direction::Up)
        } else if buttons.down {
            Some(Direction::Down)
        } else if buttons.left {
            Some(Direction::Left)
        } else if buttons.right {
            Some(Direction::Right)
        } else {
            None
        }
    }

    /// The freshly pressed direction this tick honors, if any.
    pub fn from_recent_input(buttons: &Buttons) -> (r: Option<Direction>)
        ensures
            r == dir_from_just(*buttons),
    {
        if buttons.up_just {
            Some(Direction::Up)
        } else if buttons.down_just {
            Some(Direction::Down)
        } else if buttons.left_just {
            Some(Direction::Left)
        } else if buttons.right_just {
            Some(Direction::Right)
        } else {
            None
        }
    }
}

} // verus!
