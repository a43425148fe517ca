//! The pause menu: resume, or leave through a yes/no confirmation, handing
//! the paused guess grid forward so the game can be reconstructed exactly.

use vstd::prelude::*;
use crate::calc::grid_view;
use crate::direction::dir_from_just;
use crate::direction::Direction;
use crate::input::Buttons;
use crate::puzzle_size::PuzzleSize;
use crate::scene::SceneAction;
use crate::scene::Sfx;
use crate::scene_game_puzzle::Guess;

verus! {

pub struct GamePauseScene {
    pub button_idx: usize,
    pub puzzle_size: PuzzleSize,
    pub game_idx: usize,
    pub grid_enabled: bool,
    pub game_data: Vec<Vec<Guess>>,
    pub sfx_enabled: bool,
}

impl GamePauseScene {
    pub open spec fn wf(&self) -> bool {
        self.button_idx <= 1
    }

    pub fn new(
        puzzle_size: PuzzleSize,
        game_idx: usize,
        grid_enabled: bool,
        game_data: Vec<Vec<Guess>>,
        sfx_enabled: bool,
    ) -> (r: GamePauseScene)
        ensures
            r.wf(),
            r.button_idx == 0,
            r.puzzle_size == puzzle_size,
            r.game_idx == game_idx,
            r.grid_enabled == grid_enabled,
            r.game_data == game_data,
            r.sfx_enabled == sfx_enabled,
    {
        GamePauseScene { button_idx: 0, puzzle_size, game_idx, grid_enabled, game_data, sfx_enabled }
    }

    /// One tick: up and down move between the two buttons; confirm asks for
    /// a yes/no confirmation whose yes restarts or leaves and whose no
    /// resumes with the saved grid; the pause button resumes directly. The
    /// saved grid is moved out when a transition carries it.
    pub fn update(&mut self, buttons: &Buttons) -> (r: (Option<SceneAction>, Option<Sfx>))
        requires
            old(self).wf(),
        ensures
            final(self).wf(),
            final(self).puzzle_size == old(self).puzzle_size,
            final(self).game_idx == old(self).game_idx,
            final(self).grid_enabled == old(self).grid_enabled,
            final(self).sfx_enabled == old(self).sfx_enabled,
            ({
                let sfx_on = old(self).sfx_enabled;
                match dir_from_just(*buttons) {
                    Some(Direction::Up) => {
                        &&& final(self).button_idx == (if old(self).button_idx > 0 {
                            0int
                        } else {
                            old(self).button_idx as int
                        })
                        &&& r.0 is None
                        &&& r.1 == (if sfx_on {
                            Some(Sfx::Cursor)
                        } else {
                            None::<Sfx>
                        })
                        &&& final(self).game_data == old(self).game_data
                    },
                    Some(Direction::Down) => {
                        &&& final(self).button_idx == (if old(self).button_idx < 1 {
                            1int
                        } else {
                            old(self).button_idx as int
                        })
                        &&& r.0 is None
                        &&& r.1 == (if sfx_on {
                            Some(Sfx::Cursor)
                        } else {
                            None::<Sfx>
                        })
                        &&& final(self).game_data == old(self).game_data
                    },
                    Some(_) => {
                        &&& final(self).button_idx == old(self).button_idx
                        &&& r.0 is None
                        &&& r.1 is None
                        &&& final(self).game_data == old(self).game_data
                    },
                    None => if buttons.a_just {
                        &&& match r.0 {
                            Some(SceneAction::Confirm(pos, neg)) => {
                                &&& *pos == (if old(self).button_idx == 0 {
                                    SceneAction::Game(old(self).puzzle_size, old(self).game_idx)
                                } else {
                                    SceneAction::PuzzleMenu(old(self).puzzle_size)
                                })
                                &&& match *neg {
                                    SceneAction::RestoreGame(sz, ix, ge, data) => {
                                        &&& sz == old(self).puzzle_size
                                        &&& ix == old(self).game_idx
                                        &&& ge == old(self).grid_enabled
                                        &&& grid_view(data@) == grid_view(old(self).game_data@)
                                    },
                                    _ => false,
                                }
                            },
                            _ => false,
                        }
                        &&& r.1 == (if sfx_on {
                            Some(Sfx::Positive)
                        } else {
                            None::<Sfx>
                        })
                        &&& grid_view(final(self).game_data@) == seq![Seq::<Guess>::empty()]
                    } else if buttons.start_just {
                        &&& match r.0 {
                            Some(SceneAction::RestoreGame(sz, ix, ge, data)) => {
                                &&& sz == old(self).puzzle_size
                                &&& ix == old(self).game_idx
                                &&& ge == old(self).grid_enabled
                                &&& grid_view(data@) == grid_view(old(self).game_data@)
                            },
                            _ => false,
                        }
                        &&& r.1 == (if sfx_on {
                            Some(Sfx::Negative)
                        } else {
                            None::<Sfx>
                        })
                        &&& grid_view(final(self).game_data@) == seq![Seq::<Guess>::empty()]
                    } else {
                        &&& r.0 is None
                        &&& r.1 is None
                        &&& final(self).game_data == old(self).game_data
                        &&& final(self).button_idx == old(self).button_idx
                    },
                }
            }),
    {
        let dir = Direction::from_recent_input(buttons);
        match dir {
            Some(Direction::Up) => {
                if self.button_idx > 0 {
                    self.button_idx = self.button_idx - 1;
                }
                let sfx = if self.sfx_enabled {
                    Some(Sfx::Cursor)
                } else {
                    None
                };
                (None, sfx)
            },
            Some(Direction::Down) => {
                if self.button_idx < 1 {
                    self.button_idx = self.button_idx + 1;
                }
                let sfx = if self.sfx_enabled {
                    Some(Sfx::Cursor)
                } else {
                    None
                };
                (None, sfx)
            },
            Some(_) => (None, None),
            None => {
                if buttons.a_just {
                    let mut taken: Vec<Vec<Guess>> = Vec::new();
                    taken.push(Vec::new());
                    core::mem::swap(&mut taken, &mut self.game_data);
                    proof {
                        assert(grid_view(self.game_data@) =~= seq![Seq::<Guess>::empty()]);
                    }
                    let negative = Box::new(
                        SceneAction::RestoreGame(
                            self.puzzle_size,
                            self.game_idx,
                            self.grid_enabled,
                            taken,
                        ),
                    );
                    let positive = if self.button_idx == 0 {
                        SceneAction::Game(self.puzzle_size, self.game_idx)
                    } else {
                        SceneAction::PuzzleMenu(self.puzzle_size)
                    };
                    let sfx = if self.sfx_enabled {
                        Some(Sfx::Positive)
                    } else {
                        None
                    };
                    (Some(SceneAction::Confirm(Box::new(positive), negative)), sfx)
                } else if buttons.start_just {
                    let mut taken: Vec<Vec<Guess>> = Vec::new();
                    taken.push(Vec::new());
                    core::mem::swap(&mut taken, &mut self.game_data);
                    proof {
                        assert(grid_view(self.game_data@) =~= seq![Seq::<Guess>::empty()]);
                    }
                    let sfx = if self.sfx_enabled {
                        Some(Sfx::Negative)
                    } else {
                        None
                    };
                    (
                        Some(
                            SceneAction::RestoreGame(
                                self.puzzle_size,
                                self.game_idx,
                                self.grid_enabled,
                                taken,
                            ),
                        ),
                        sfx,
                    )
                } else {
                    (None, None)
                }
            },
        }
    }
}

} // verus!
