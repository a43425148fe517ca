//! Decisions about the looping background track. The engine treats playing
//! channels opaquely: it tracks only which track is up and tells the
//! embedding program what to do with the real channel.

use vstd::prelude::*;
use crate::scene::SceneMusic;

verus! {

/// What the embedding program must do with the background-music channel.
#[derive(Debug, Eq, PartialEq, Clone, Copy, Structural)]
pub enum BgmChange {
    /// The wanted track is already playing: leave it alone.
    Keep,
    /// Nothing plays: start the wanted track.
    Start,
    /// Another track plays: stop it, then start the wanted one.
    Replace,
    /// Music is off: stop whatever plays.
    Stop,
    /// Music is off and nothing plays.
    Nothing,
}

/// Keep the current track if it is the wanted one, otherwise replace or start
/// it. Returns the track that is up afterwards and what to do to get there.
pub fn update_bgm(kind: SceneMusic, current: Option<SceneMusic>) -> (r: (SceneMusic, BgmChange))
    ensures
        r.0 == kind,
        r.1 == match current {
            Some(c) => if c == kind {
                BgmChange::Keep
            } else {
                BgmChange::Replace
            },
            None => BgmChange::Start,
        },
{
    match current {
        Some(c) => {
            if matches!((c, kind), (SceneMusic::Menu, SceneMusic::Menu) | (SceneMusic::Game, SceneMusic::Game)) {
                (kind, BgmChange::Keep)
            } else {
                (kind, BgmChange::Replace)
            }
        },
        None => (kind, BgmChange::Start),
    }
}

/// The music decision a scene makes as it comes up: with music enabled the
/// wanted track is kept, started or swapped in; with music disabled whatever
/// plays is stopped.
pub fn init_bgm(kind: SceneMusic, bgm: Option<SceneMusic>, music_enabled: bool) -> (r: (
    Option<SceneMusic>,
    BgmChange,
))
    ensures
        music_enabled ==> {
            &&& r.0 == Some(kind)
            &&& r.1 == match bgm {
                Some(c) => if c == kind {
                    BgmChange::Keep
                } else {
                    BgmChange::Replace
                },
                None => BgmChange::Start,
            }
        },
        !music_enabled ==> {
            &&& r.0 is None
            &&& r.1 == if bgm is Some {
                BgmChange::Stop
            } else {
                BgmChange::Nothing
            }
        },
{
    if music_enabled {
        let (k, change) = update_bgm(kind, bgm);
        (Some(k), change)
    } else {
        if bgm.is_some() {
            (None, BgmChange::Stop)
        } else {
            (None, BgmChange::Nothing)
        }
    }
}

} // verus!
