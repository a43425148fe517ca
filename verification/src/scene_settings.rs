//! The settings screen: sound-effect and music toggles and the assist level,
//! yielded back to the orchestrator when the screen closes.

use vstd::prelude::*;
use crate::direction::dir_from_just;
use crate::direction::Direction;
use crate::input::Buttons;
use crate::scene::SceneAction;
use crate::scene::SceneMusic;
use crate::scene::Sfx;
use crate::settings_data::HelpLevel;
use crate::sfx::BgmChange;

verus! {

/// The row the settings cursor can sit on: the sfx toggle, the music toggle,
/// or the assist-level picker.
pub const IDX_SETTINGS: usize = 2;

pub struct SettingsScene {
    pub button_idx: usize,
    pub music_enabled: bool,
    pub sfx_enabled: bool,
    pub bgm: Option<SceneMusic>,
    pub help_level: HelpLevel,
}

impl SettingsScene {
    pub open spec fn wf(&self) -> bool {
        self.button_idx <= IDX_SETTINGS
    }

    pub fn new(music_enabled: bool, sfx_enabled: bool, help_level: HelpLevel) -> (r: SettingsScene)
        ensures
            r.wf(),
            r.button_idx == 0,
            r.music_enabled == music_enabled,
            r.sfx_enabled == sfx_enabled,
            r.bgm is None,
            r.help_level == help_level,
    {
        SettingsScene { button_idx: 0, music_enabled, sfx_enabled, bgm: None, help_level }
    }

    /// Take over the background music as the screen comes up: with music on
    /// the scene adopts the playing track or starts the menu track; with
    /// music off whatever plays is stopped. The orchestrator keeps no track
    /// while the settings screen owns it.
    pub fn init(&mut self, bgm: Option<SceneMusic>) -> (r: (Option<SceneMusic>, BgmChange))
        ensures
            r.0 is None,
            final(self).button_idx == old(self).button_idx,
            final(self).music_enabled == old(self).music_enabled,
            final(self).sfx_enabled == old(self).sfx_enabled,
            final(self).help_level == old(self).help_level,
            old(self).music_enabled ==> {
                &&& final(self).bgm == (if bgm is Some {
                    bgm
                } else {
                    Some(SceneMusic::Menu)
                })
                &&& r.1 == (if bgm is Some {
                    BgmChange::Keep
                } else {
                    BgmChange::Start
                })
            },
            !old(self).music_enabled ==> {
                &&& final(self).bgm == old(self).bgm
                &&& r.1 == (if bgm is Some {
                    BgmChange::Stop
                } else {
                    BgmChange::Nothing
                })
            },
    {
        if self.music_enabled {
            if bgm.is_some() {
                self.bgm = bgm;
                (None, BgmChange::Keep)
            } else {
                self.bgm = Some(SceneMusic::Menu);
                (None, BgmChange::Start)
            }
        } else {
            if bgm.is_some() {
                (None, BgmChange::Stop)
            } else {
                (None, BgmChange::Nothing)
            }
        }
    }

    /// One tick. Up and down move between the rows; on the assist row, left
    /// and right step the level. Confirm toggles sound effects or music; the
    /// music toggle starts or stops the menu track. The pause button closes
    /// the screen, stops the owned track, and yields the chosen settings.
    pub fn update(&mut self, buttons: &Buttons) -> (r: (
        Option<SceneAction>,
        Option<Sfx>,
        BgmChange,
    ))
        requires
            old(self).wf(),
        ensures
            final(self).wf(),
            ({
                let s = *old(self);
                match dir_from_just(*buttons) {
                    Some(Direction::Up) => {
                        &&& final(self).button_idx == (if s.button_idx > 0 {
                            s.button_idx - 1
                        } else {
                            s.button_idx as int
                        })
                        &&& r.0 is None
                        &&& r.1 == (if s.button_idx > 0 && s.sfx_enabled {
                            Some(Sfx::Cursor)
                        } else {
                            None::<Sfx>
                        })
                        &&& r.2 == BgmChange::Keep
                        &&& final(self).help_level == s.help_level
                        &&& final(self).music_enabled == s.music_enabled
                        &&& final(self).sfx_enabled == s.sfx_enabled
                        &&& final(self).bgm == s.bgm
                    },
                    Some(Direction::Down) => {
                        &&& final(self).button_idx == (if s.button_idx < IDX_SETTINGS {
                            s.button_idx + 1
                        } else {
                            s.button_idx as int
                        })
                        &&& r.0 is None
                        &&& r.1 == (if s.button_idx < IDX_SETTINGS && s.sfx_enabled {
                            Some(Sfx::Cursor)
                        } else {
                            None::<Sfx>
                        })
                        &&& r.2 == BgmChange::Keep
                        &&& final(self).help_level == s.help_level
                        &&& final(self).music_enabled == s.music_enabled
                        &&& final(self).sfx_enabled == s.sfx_enabled
                        &&& final(self).bgm == s.bgm
                    },
                    Some(Direction::Left) => {
                        &&& final(self).help_level == (if s.button_idx == IDX_SETTINGS && !(
                        s.help_level is NoHelp) {
                            match s.help_level {
                                HelpLevel::NoHelp => HelpLevel::NoHelp,
                                HelpLevel::Zeros => HelpLevel::NoHelp,
                                HelpLevel::Full => HelpLevel::Zeros,
                                HelpLevel::Solvable => HelpLevel::Full,
                            }
                        } else {
                            s.help_level
                        })
                        &&& r.0 is None
                        &&& r.1 == (if s.button_idx == IDX_SETTINGS && !(s.help_level is NoHelp)
                            && s.sfx_enabled {
                            Some(Sfx::Cursor)
                        } else {
                            None::<Sfx>
                        })
                        &&& r.2 == BgmChange::Keep
                        &&& final(self).button_idx == s.button_idx
                        &&& final(self).music_enabled == s.music_enabled
                        &&& final(self).sfx_enabled == s.sfx_enabled
                        &&& final(self).bgm == s.bgm
                    },
                    Some(Direction::Right) => {
                        &&& final(self).help_level == (if s.button_idx == IDX_SETTINGS && !(
                        s.help_level is Solvable) {
                            match s.help_level {
                                HelpLevel::NoHelp => HelpLevel::Zeros,
                                HelpLevel::Zeros => HelpLevel::Full,
                                HelpLevel::Full => HelpLevel::Solvable,
                                HelpLevel::Solvable => HelpLevel::Solvable,
                            }
                        } else {
                            s.help_level
                        })
                        &&& r.0 is None
                        &&& r.1 == (if s.button_idx == IDX_SETTINGS && !(s.help_level is Solvable)
                            && s.sfx_enabled {
                            Some(Sfx::Cursor)
                        } else {
                            None::<Sfx>
                        })
                        &&& r.2 == BgmChange::Keep
                        &&& final(self).button_idx == s.button_idx
                        &&& final(self).music_enabled == s.music_enabled
                        &&& final(self).sfx_enabled == s.sfx_enabled
                        &&& final(self).bgm == s.bgm
                    },
                    None => if buttons.a_just && s.button_idx == 0 {
                        &&& final(self).sfx_enabled == !s.sfx_enabled
                        &&& r.0 is None
                        &&& r.1 == (if !s.sfx_enabled {
                            Some(Sfx::Positive)
                        } else {
                            None::<Sfx>
                        })
                        &&& r.2 == BgmChange::Keep
                        &&& final(self).music_enabled == s.music_enabled
                        &&& final(self).bgm == s.bgm
                    } else if buttons.a_just && s.button_idx == 1 {
                        &&& final(self).music_enabled == !s.music_enabled
                        &&& r.0 is None
                        &&& r.1 == (if s.sfx_enabled {
                            Some(Sfx::Positive)
                        } else {
                            None::<Sfx>
                        })
                        &&& if !s.music_enabled {
                            &&& final(self).bgm == Some(SceneMusic::Menu)
                            &&& r.2 == (if s.bgm == Some(SceneMusic::Menu) {
                                BgmChange::Keep
                            } else if s.bgm is Some {
                                BgmChange::Replace
                            } else {
                                BgmChange::Start
                            })
                        } else {
                            &&& final(self).bgm is None
                            &&& r.2 == (if s.bgm is Some {
                                BgmChange::Stop
                            } else {
                                BgmChange::Nothing
                            })
                        }
                    } else if buttons.start_just {
                        &&& r.0 == Some(
                            SceneAction::SettingsClose(
                                s.music_enabled,
                                s.sfx_enabled,
                                s.help_level,
                            ),
                        )
                        &&& r.1 == (if s.sfx_enabled {
                            Some(Sfx::Positive)
                        } else {
                            None::<Sfx>
                        })
                        &&& r.2 == (if s.bgm is Some {
                            BgmChange::Stop
                        } else {
                            BgmChange::Nothing
                        })
                        &&& final(self).bgm is None
                    } else {
                        &&& r.0 is None
                        &&& r.1 is None
                        &&& r.2 == BgmChange::Keep
                        &&& final(self).button_idx == s.button_idx
                        &&& final(self).help_level == s.help_level
                        &&& final(self).music_enabled == s.music_enabled
                        &&& final(self).sfx_enabled == s.sfx_enabled
                        &&& final(self).bgm == s.bgm
                    },
                }
            }),
    {
        let dir = Direction::from_recent_input(buttons);
        match dir {
            Some(Direction::Up) => {
                if self.button_idx > 0 {
                    self.button_idx = self.button_idx - 1;
                    let sfx = if self.sfx_enabled {
                        Some(Sfx::Cursor)
                    } else {
                        None
                    };
                    (None, sfx, BgmChange::Keep)
                } else {
                    (None, None, BgmChange::Keep)
                }
            },
            Some(Direction::Down) => {
                if self.button_idx < IDX_SETTINGS {
                    self.button_idx = self.button_idx + 1;
                    let sfx = if self.sfx_enabled {
                        Some(Sfx::Cursor)
                    } else {
                        None
                    };
                    (None, sfx, BgmChange::Keep)
                } else {
                    (None, None, BgmChange::Keep)
                }
            },
            Some(Direction::Left) => {
                if self.button_idx == IDX_SETTINGS && !matches!(self.help_level, HelpLevel::NoHelp)
                {
                    self.help_level = self.help_level.prev();
                    let sfx = if self.sfx_enabled {
                        Some(Sfx::Cursor)
                    } else {
                        None
                    };
                    (None, sfx, BgmChange::Keep)
                } else {
                    (None, None, BgmChange::Keep)
                }
            },
            Some(Direction::Right) => {
                if self.button_idx == IDX_SETTINGS && !matches!(
                    self.help_level,
                    HelpLevel::Solvable,
                ) {
                    self.help_level = self.help_level.next();
                    let sfx = if self.sfx_enabled {
                        Some(Sfx::Cursor)
                    } else {
                        None
                    };
                    (None, sfx, BgmChange::Keep)
                } else {
                    (None, None, BgmChange::Keep)
                }
            },
            None => {
                if buttons.a_just && self.button_idx == 0 {
                    self.sfx_enabled = !self.sfx_enabled;
                    let sfx = if self.sfx_enabled {
                        Some(Sfx::Positive)
                    } else {
                        None
                    };
                    (None, sfx, BgmChange::Keep)
                } else if buttons.a_just && self.button_idx == 1 {
                    self.music_enabled = !self.music_enabled;
                    let sfx = if self.sfx_enabled {
                        Some(Sfx::Positive)
                    } else {
                        None
                    };
                    if self.music_enabled {
                        let change = match self.bgm {
                            Some(SceneMusic::Menu) => BgmChange::Keep,
                            Some(_) => BgmChange::Replace,
                            None => BgmChange::Start,
                        };
                        self.bgm = Some(SceneMusic::Menu);
                        (None, sfx, change)
                    } else {
                        let change = if self.bgm.is_some() {
                            BgmChange::Stop
                        } else {
                            BgmChange::Nothing
                        };
                        self.bgm = None;
                        (None, sfx, change)
                    }
                } else if buttons.start_just {
                    let sfx = if self.sfx_enabled {
                        Some(Sfx::Positive)
                    } else {
                        None
                    };
                    let change = if self.bgm.is_some() {
                        BgmChange::Stop
                    } else {
                        BgmChange::Nothing
                    };
                    self.bgm = None;
                    (
                        Some(
                            SceneAction::SettingsClose(
                                self.music_enabled,
                                self.sfx_enabled,
                                self.help_level,
                            ),
                        ),
                        sfx,
                        change,
                    )
                } else {
                    (None, None, BgmChange::Keep)
                }
            },
        }
    }
}

} // verus!
