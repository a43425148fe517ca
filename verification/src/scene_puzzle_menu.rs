//! The per-size puzzle menu: a grid of level buttons, one per shipped
//! puzzle, with the highlight starting on the first unsolved one.

use vstd::prelude::*;
use crate::direction::dir_from_just;
use crate::direction::Direction;
use crate::input::Buttons;
use crate::input::calc_cursor_position;
use crate::input::move_cursor_spec;
use crate::puzzle_size::PuzzleSize;
use crate::scene::SceneAction;
use crate::scene::Sfx;

verus! {

/// How many buttons one menu row of this size holds.
pub open spec fn spec_menu_cols(size: PuzzleSize) -> usize {
    if size is _20x10 || size is _22x12 {
        4usize
    } else {
        7usize
    }
}

/// The index of the first `false` entry, or the length when all are `true`.
pub open spec fn first_incomplete(s: Seq<bool>) -> int
    decreases s.len(),
{
    if s.len() == 0 {
        0
    } else if !s[0] {
        0
    } else {
        1 + first_incomplete(s.drop_first())
    }
}

proof fn lemma_first_incomplete(s: Seq<bool>)
    ensures
        0 <= first_incomplete(s) <= s.len(),
        forall|i: int| 0 <= i < first_incomplete(s) ==> s[i],
        first_incomplete(s) < s.len() ==> !s[first_incomplete(s)],
    decreases s.len(),
{
    if s.len() > 0 && s[0] {
        lemma_first_incomplete(s.drop_first());
        assert(forall|i: int| 1 <= i < s.len() ==> s[i] == s.drop_first()[i - 1]);
    }
}

pub struct PuzzleMenuScene {
    pub cursor: (usize, usize),
    pub size: PuzzleSize,
    pub is_completed: Vec<bool>,
    pub sfx_enabled: bool,
    pub music_enabled: bool,
}

impl PuzzleMenuScene {
    pub open spec fn wf(&self) -> bool {
        &&& self.cursor.0 < spec_menu_cols(self.size)
        &&& self.cursor.1 < 3
        &&& self.is_completed@.len() == self.size.spec_game_count()
    }

    /// How many buttons one menu row holds.
    pub fn menu_cols(&self) -> (r: usize)
        ensures
            r == spec_menu_cols(self.size),
    {
        match self.size {
            PuzzleSize::_20x10 | PuzzleSize::_22x12 => 4,
            _ => 7,
        }
    }

    /// Build the menu from the completion bytes of this size's puzzles. The
    /// highlight starts on the first puzzle not yet completed, or the first
    /// button when everything is solved.
    pub fn new(
        size: PuzzleSize,
        completed_games: &Vec<u8>,
        music_enabled: bool,
        sfx_enabled: bool,
    ) -> (r: PuzzleMenuScene)
        requires
            completed_games@.len() == size.spec_game_count(),
        ensures
            r.wf(),
            r.size == size,
            r.music_enabled == music_enabled,
            r.sfx_enabled == sfx_enabled,
            r.is_completed@.len() == completed_games@.len(),
            forall|i: int|
                0 <= i < completed_games@.len() ==> #[trigger] r.is_completed@[i] == (
                completed_games@[i] > 0),
            ({
                let ff = first_incomplete(r.is_completed@);
                let cols = spec_menu_cols(size) as int;
                r.cursor == if ff < r.is_completed@.len() {
                    (((ff % cols) as usize), ((ff / cols) as usize))
                } else {
                    (0usize, 0usize)
                }
            }),
    {
        let mut is_completed: Vec<bool> = Vec::new();
        let mut i: usize = 0;
        #[verifier::loop_isolation(false)]
        while i < completed_games.len()
            invariant
                is_completed@.len() == i,
                i <= completed_games@.len(),
                forall|j: int|
                    0 <= j < i ==> #[trigger] is_completed@[j] == (completed_games@[j] > 0),
            decreases completed_games@.len() - i,
        {
            is_completed.push(completed_games[i] > 0);
            i = i + 1;
        }
        proof {
            lemma_first_incomplete(is_completed@);
        }
        let cols: usize = match size {
            PuzzleSize::_20x10 | PuzzleSize::_22x12 => 4,
            _ => 7,
        };
        let mut pos: usize = 0;
        #[verifier::loop_isolation(false)]
        while pos < is_completed.len() && is_completed[pos]
            invariant
                0 <= pos <= is_completed@.len(),
                pos <= first_incomplete(is_completed@),
                forall|j: int| 0 <= j < pos ==> is_completed@[j],
            decreases is_completed@.len() - pos,
        {
            proof {
                if pos + 1 > first_incomplete(is_completed@) {
                    assert(!is_completed@[first_incomplete(is_completed@)]);
                    assert(false);
                }
            }
            pos = pos + 1;
        }
        proof {
            assert(pos == first_incomplete(is_completed@)) by {
                if pos < first_incomplete(is_completed@) {
                    assert(is_completed@[pos as int]);
                    assert(false);
                }
            }
        }
        let cursor: (usize, usize) = if pos < is_completed.len() {
            proof {
                assert(is_completed@.len() <= 21);
                assert(pos % cols < cols) by (nonlinear_arith)
                    requires cols > 0;
                assert(pos / cols < 3) by (nonlinear_arith)
                    requires
                        cols > 0,
                        pos < is_completed@.len(),
                        is_completed@.len() <= 21,
                        (cols == 7 && is_completed@.len() == 21) || (cols == 4
                            && is_completed@.len() == 12),
                ;
            }
            (pos % cols, pos / cols)
        } else {
            (0, 0)
        };
        PuzzleMenuScene { cursor, size, is_completed, sfx_enabled, music_enabled }
    }

    /// One tick: confirm starts the highlighted puzzle, cancel returns to the
    /// main menu, and a freshly pressed direction moves the highlight with
    /// wrapping.
    pub fn update(&mut self, buttons: &Buttons) -> (r: (Option<SceneAction>, Option<Sfx>))
        requires
            old(self).wf(),
        ensures
            final(self).wf(),
            final(self).size == old(self).size,
            final(self).is_completed == old(self).is_completed,
            final(self).sfx_enabled == old(self).sfx_enabled,
            final(self).music_enabled == old(self).music_enabled,
            ({
                let cols = spec_menu_cols(old(self).size);
                if buttons.a_just {
                    &&& r.0 == Some(
                        SceneAction::Game(
                            old(self).size,
                            (old(self).cursor.1 * cols + old(self).cursor.0) as usize,
                        ),
                    )
                    &&& r.1 == (if old(self).sfx_enabled {
                        Some(Sfx::Positive)
                    } else {
                        None::<Sfx>
                    })
                    &&& final(self).cursor == old(self).cursor
                } else if buttons.b_just {
                    &&& r.0 == Some(SceneAction::MainMenu)
                    &&& r.1 == (if old(self).sfx_enabled {
                        Some(Sfx::Negative)
                    } else {
                        None::<Sfx>
                    })
                    &&& final(self).cursor == old(self).cursor
                } else {
                    let mv = match dir_from_just(*buttons) {
                        Some(d) => move_cursor_spec(old(self).cursor, d, (cols, 3usize), true),
                        None => old(self).cursor,
                    };
                    &&& final(self).cursor == mv
                    &&& r.0 is None
                    &&& r.1 == (if mv != old(self).cursor && old(self).sfx_enabled {
                        Some(Sfx::Cursor)
                    } else {
                        None::<Sfx>
                    })
                }
            }),
    {
        let cols = self.menu_cols();
        if buttons.a_just {
            proof {
                assert(self.cursor.1 * cols + self.cursor.0 <= 20) by (nonlinear_arith)
                    requires
                        self.cursor.1 < 3,
                        cols <= 7,
                        self.cursor.0 < cols,
                ;
            }
            let idx = self.cursor.1 * cols + self.cursor.0;
            let sfx = if self.sfx_enabled {
                Some(Sfx::Positive)
            } else {
                None
            };
            return (Some(SceneAction::Game(self.size, idx)), sfx);
        }
        if buttons.b_just {
            let sfx = if self.sfx_enabled {
                Some(Sfx::Negative)
            } else {
                None
            };
            return (Some(SceneAction::MainMenu), sfx);
        }
        let dir = Direction::from_recent_input(buttons);
        let moved = calc_cursor_position(dir, &mut self.cursor, (cols, 3), true);
        let sfx = if moved && self.sfx_enabled {
            Some(Sfx::Cursor)
        } else {
            None
        };
        (None, sfx)
    }
}

} // verus!
