//! The main menu: a 3-by-2 grid of board-size buttons.

use vstd::prelude::*;
use crate::direction::dir_from_just;
use crate::direction::Direction;
use crate::input::Buttons;
use crate::input::calc_cursor_position;
use crate::input::move_cursor_spec;
use crate::puzzle_size::PuzzleSize;
use crate::scene::SceneAction;
use crate::scene::Sfx;

verus! {

/// The board size each menu button selects, by button position.
pub open spec fn board_at(cursor: (usize, usize)) -> PuzzleSize {
    if cursor.1 == 0 {
        if cursor.0 == 0 {
            PuzzleSize::_6x6
        } else if cursor.0 == 1 {
            PuzzleSize::_8x8
        } else {
            PuzzleSize::_10x10
        }
    } else {
        if cursor.0 == 0 {
            PuzzleSize::_12x12
        } else if cursor.0 == 1 {
            PuzzleSize::_20x10
        } else {
            PuzzleSize::_22x12
        }
    }
}

pub struct MainMenuScene {
    pub cursor: (usize, usize),
    pub sfx_enabled: bool,
    pub music_enabled: bool,
}

impl MainMenuScene {
    pub open spec fn wf(&self) -> bool {
        self.cursor.0 < 3 && self.cursor.1 < 2
    }

    pub fn new(music_enabled: bool, sfx_enabled: bool) -> (r: MainMenuScene)
        ensures
            r.wf(),
            r.cursor == (0usize, 0usize),
            r.music_enabled == music_enabled,
            r.sfx_enabled == sfx_enabled,
    {
        MainMenuScene { cursor: (0, 0), sfx_enabled, music_enabled }
    }

    /// One tick: a freshly pressed direction moves the highlight with
    /// wrapping; otherwise confirm opens the selected size's puzzle menu and
    /// the toggle button opens the settings.
    pub fn update(&mut self, buttons: &Buttons) -> (r: (Option<SceneAction>, Option<Sfx>))
        requires
            old(self).wf(),
        ensures
            final(self).wf(),
            final(self).sfx_enabled == old(self).sfx_enabled,
            final(self).music_enabled == old(self).music_enabled,
            ({
                let mv = match dir_from_just(*buttons) {
                    Some(d) => move_cursor_spec(old(self).cursor, d, (3usize, 2usize), true),
                    None => old(self).cursor,
                };
                let moved = mv != old(self).cursor;
                &&& final(self).cursor == mv
                &&& if moved {
                    r.0 is None && r.1 == (if old(self).sfx_enabled {
                        Some(Sfx::Cursor)
                    } else {
                        None::<Sfx>
                    })
                } else if buttons.a_just {
                    r.0 == Some(SceneAction::PuzzleMenu(board_at(mv))) && r.1 == (
                    if old(self).sfx_enabled {
                        Some(Sfx::Positive)
                    } else {
                        None::<Sfx>
                    })
                } else if buttons.select_just {
                    r.0 == Some(SceneAction::Settings) && r.1 == (if old(self).sfx_enabled {
                        Some(Sfx::Positive)
                    } else {
                        None::<Sfx>
                    })
                } else {
                    r.0 is None && r.1 is None
                }
            }),
    {
        let dir = Direction::from_recent_input(buttons);
        let moved = calc_cursor_position(dir, &mut self.cursor, (3, 2), true);
        if moved {
            let sfx = if self.sfx_enabled {
                Some(Sfx::Cursor)
            } else {
                None
            };
            (None, sfx)
        } else if buttons.a_just {
            let board = self.board_under_cursor();
            let sfx = if self.sfx_enabled {
                Some(Sfx::Positive)
            } else {
                None
            };
            (Some(SceneAction::PuzzleMenu(board)), sfx)
        } else if buttons.select_just {
            let sfx = if self.sfx_enabled {
                Some(Sfx::Positive)
            } else {
                None
            };
            (Some(SceneAction::Settings), sfx)
        } else {
            (None, None)
        }
    }

    /// The board size the highlight currently sits on.
    pub fn board_under_cursor(&self) -> (r: PuzzleSize)
        requires
            self.wf(),
        ensures
            r == board_at(self.cursor),
    {
        if self.cursor.1 == 0 {
            if self.cursor.0 == 0 {
                PuzzleSize::_6x6
            } else if self.cursor.0 == 1 {
                PuzzleSize::_8x8
            } else {
                PuzzleSize::_10x10
            }
        } else {
            if self.cursor.0 == 0 {
                PuzzleSize::_12x12
            } else if self.cursor.0 == 1 {
                PuzzleSize::_20x10
            } else {
                PuzzleSize::_22x12
            }
        }
    }
}

} // verus!
