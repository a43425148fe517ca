//! The win celebration: a short animation timer; once it has run, confirm
//! or cancel returns to the puzzle menu.

use vstd::prelude::*;
use crate::input::Buttons;
use crate::puzzle_size::PuzzleSize;
use crate::scene::SceneAction;
use crate::scene::Sfx;

verus! {

/// Frames the celebration runs before input is accepted.
pub const WIN_DURATION: u16 = 50;

pub struct GameWinScene {
    pub anim_timer: u16,
    pub puzzle_size: PuzzleSize,
    pub game_idx: usize,
    pub music_enabled: bool,
}

impl GameWinScene {
    pub fn new(puzzle_size: PuzzleSize, game_idx: usize, music_enabled: bool) -> (r: GameWinScene)
        ensures
            r.anim_timer == 0,
            r.puzzle_size == puzzle_size,
            r.game_idx == game_idx,
            r.music_enabled == music_enabled,
    {
        GameWinScene { anim_timer: 0, puzzle_size, game_idx, music_enabled }
    }

    /// One tick: the animation timer advances and saturates; the celebration
    /// jingle fires once, a few frames in, when music is on; after the
    /// animation has run, confirm or cancel yields the puzzle-menu
    /// transition.
    pub fn update(&mut self, buttons: &Buttons) -> (r: (Option<SceneAction>, Option<Sfx>))
        ensures
            final(self).anim_timer == (if old(self).anim_timer == u16::MAX {
                u16::MAX as int
            } else {
                old(self).anim_timer + 1
            }),
            final(self).puzzle_size == old(self).puzzle_size,
            final(self).game_idx == old(self).game_idx,
            final(self).music_enabled == old(self).music_enabled,
            r.1 == (if old(self).music_enabled && final(self).anim_timer == 4 {
                Some(Sfx::Congrats)
            } else {
                None::<Sfx>
            }),
            r.0 == (if final(self).anim_timer > WIN_DURATION && (buttons.a_just || buttons.b_just) {
                Some(SceneAction::PuzzleMenu(old(self).puzzle_size))
            } else {
                None::<SceneAction>
            }),
    {
        if self.anim_timer < u16::MAX {
            self.anim_timer = self.anim_timer + 1;
        }
        let sfx = if self.music_enabled && self.anim_timer == 4 {
            Some(Sfx::Congrats)
        } else {
            None
        };
        if self.anim_timer > WIN_DURATION && (buttons.a_just || buttons.b_just) {
            (Some(SceneAction::PuzzleMenu(self.puzzle_size)), sfx)
        } else {
            (None, sfx)
        }
    }
}

} // verus!
