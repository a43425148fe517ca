//! The per-tick input snapshot the engine consumes, and cursor movement over
//! a bounded board.

use vstd::prelude::*;
use crate::direction::Direction;

verus! {

/// One tick's worth of input state: held and freshly pressed directions, the
/// action buttons, and the release signal the gameplay mode waits for before
/// it starts accepting input.
#[derive(Debug, Copy, Clone, PartialEq, Eq, Structural, Default)]
pub struct Buttons {
    pub up: bool,
    pub down: bool,
    pub left: bool,
    pub right: bool,
    pub up_just: bool,
    pub down_just: bool,
    pub left_just: bool,
    pub right_just: bool,
    pub a: bool,
    pub b: bool,
    pub a_just: bool,
    pub b_just: bool,
    pub select_just: bool,
    pub start_just: bool,
    /// Whether the confirm/secondary buttons were released this tick.
    pub released_ab: bool,
}

/// Where the cursor lands when nudged one cell in `dir` on a `size.0` by
/// `size.1` board: clamped at the edge, or wrapped to the opposite edge when
/// wrapping is allowed.
pub open spec fn move_cursor_spec(
    cursor: (usize, usize),
    dir: Direction,
    size: (usize, usize),
    wrap: bool,
) -> (usize, usize) {
    match dir {
        Direction::Up => {
            if cursor.1 > 0 {
                (cursor.0, (cursor.1 - 1) as usize)
            } else if wrap {
                (cursor.0, (size.1 - 1) as usize)
            } else {
                cursor
            }
        },
        Direction::Down => {
            if cursor.1 < size.1 - 1 {
                (cursor.0, (cursor.1 + 1) as usize)
            } else if wrap {
                (cursor.0, 0usize)
            } else {
                cursor
            }
        },
        Direction::Left => {
            if cursor.0 > 0 {
                ((cursor.0 - 1) as usize, cursor.1)
            } else if wrap {
                ((size.0 - 1) as usize, cursor.1)
            } else {
                cursor
            }
        },
        Direction::Right => {
            if cursor.0 < size.0 - 1 {
                ((cursor.0 + 1) as usize, cursor.1)
            } else if wrap {
                (0usize, cursor.1)
            } else {
                cursor
            }
        },
    }
}

/// Nudge the cursor one cell in the requested direction, clamping at the
/// board's edge unless wrapping is allowed, in which case it wraps to the
/// opposite edge. Reports whether the cursor actually moved.
pub fn calc_cursor_position(
    dir: Option<Direction>,
    cursor: &mut (usize, usize),
    size: (usize, usize),
    allow_wrapping: bool,
) -> (moved: bool)
    requires
        1 <= size.0,
        1 <= size.1,
        old(cursor).0 < size.0,
        old(cursor).1 < size.1,
    ensures
        *final(cursor) == match dir {
            Some(d) => move_cursor_spec(*old(cursor), d, size, allow_wrapping),
            None => *old(cursor),
        },
        moved == (*final(cursor) != *old(cursor)),
        final(cursor).0 < size.0,
        final(cursor).1 < size.1,
{
    if let Some(dir) = dir {
        let before = *cursor;
        match dir {
            Direction::Up => {
                if cursor.1 > 0 {
                    cursor.1 = cursor.1 - 1;
                } else if allow_wrapping {
                    cursor.1 = size.1 - 1;
                }
            },
            Direction::Down => {
                if cursor.1 < size.1 - 1 {
                    cursor.1 = cursor.1 + 1;
                } else if allow_wrapping {
                    cursor.1 = 0;
                }
            },
            Direction::Left => {
                if cursor.0 > 0 {
                    cursor.0 = cursor.0 - 1;
                } else if allow_wrapping {
                    cursor.0 = size.0 - 1;
                }
            },
            Direction::Right => {
                if cursor.0 < size.0 - 1 {
                    cursor.0 = cursor.0 + 1;
                } else if allow_wrapping {
                    cursor.0 = 0;
                }
            },
        }
        cursor.0 != before.0 || cursor.1 != before.1
    } else {
        false
    }
}

} // verus!
