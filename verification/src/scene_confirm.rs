//! The yes/no confirmation: two buttons, each holding the transition to
//! yield when chosen. The chosen action is consumed exactly once.

use vstd::prelude::*;
use crate::direction::dir_from_just;
use crate::direction::Direction;
use crate::input::Buttons;
use crate::scene::SceneAction;
use crate::scene::Sfx;

verus! {

pub struct ConfirmScene {
    pub button_idx: usize,
    pub on_positive: Box<SceneAction>,
    pub on_negative: Box<SceneAction>,
    pub sfx_enabled: bool,
}

impl ConfirmScene {
    pub open spec fn wf(&self) -> bool {
        self.button_idx <= 1
    }

    pub fn new(positive: Box<SceneAction>, negative: Box<SceneAction>, sfx_enabled: bool) -> (r:
        ConfirmScene)
        ensures
            r.wf(),
            r.button_idx == 0,
            r.on_positive == positive,
            r.on_negative == negative,
            r.sfx_enabled == sfx_enabled,
    {
        ConfirmScene { button_idx: 0, on_positive: positive, on_negative: negative, sfx_enabled }
    }

    /// One tick: left and right move between yes and no; confirm yields the
    /// chosen action, moved out of the scene; only a confirmed yes plays the
    /// positive effect.
    pub fn update(&mut self, buttons: &Buttons) -> (r: (Option<SceneAction>, Option<Sfx>))
        requires
            old(self).wf(),
        ensures
            final(self).wf(),
            final(self).sfx_enabled == old(self).sfx_enabled,
            ({
                let sfx_on = old(self).sfx_enabled;
                match dir_from_just(*buttons) {
                    Some(Direction::Left) => {
                        &&& final(self).button_idx == 0
                        &&& r.0 is None
                        &&& r.1 == (if sfx_on {
                            Some(Sfx::Cursor)
                        } else {
                            None::<Sfx>
                        })
                    },
                    Some(Direction::Right) => {
                        &&& final(self).button_idx == 1
                        &&& r.0 is None
                        &&& r.1 == (if sfx_on {
                            Some(Sfx::Cursor)
                        } else {
                            None::<Sfx>
                        })
                    },
                    Some(_) => {
                        &&& final(self).button_idx == old(self).button_idx
                        &&& r.0 is None
                        &&& r.1 is None
                    },
                    None => if buttons.a_just && old(self).button_idx == 0 {
                        &&& r.0 == Some(*old(self).on_positive)
                        &&& r.1 == (if sfx_on {
                            Some(Sfx::Positive)
                        } else {
                            None::<Sfx>
                        })
                    } else if buttons.a_just && old(self).button_idx == 1 {
                        &&& r.0 == Some(*old(self).on_negative)
                        &&& r.1 is None
                    } else {
                        &&& r.0 is None
                        &&& r.1 is None
                        &&& final(self).button_idx == old(self).button_idx
                    },
                }
            }),
    {
        let dir = Direction::from_recent_input(buttons);
        match dir {
            Some(Direction::Left) => {
                self.button_idx = 0;
                let sfx = if self.sfx_enabled {
                    Some(Sfx::Cursor)
                } else {
                    None
                };
                (None, sfx)
            },
            Some(Direction::Right) => {
                self.button_idx = 1;
                let sfx = if self.sfx_enabled {
                    Some(Sfx::Cursor)
                } else {
                    None
                };
                (None, sfx)
            },
            Some(_) => (None, None),
            None => {
                if buttons.a_just {
                    if self.button_idx == 0 {
                        let mut taken = Box::new(SceneAction::MainMenu);
                        core::mem::swap(&mut taken, &mut self.on_positive);
                        let sfx = if self.sfx_enabled {
                            Some(Sfx::Positive)
                        } else {
                            None
                        };
                        (Some(*taken), sfx)
                    } else {
                        let mut taken = Box::new(SceneAction::MainMenu);
                        core::mem::swap(&mut taken, &mut self.on_negative);
                        (Some(*taken), None)
                    }
                } else {
                    (None, None)
                }
            },
        }
    }
}

} // verus!
