//! The values that pass between the scene orchestrator and the scenes: the
//! transition requests a scene may yield, the music tracks, and the one-shot
//! sound effects a tick may ask for.

use vstd::prelude::*;
use crate::puzzle_size::PuzzleSize;
use crate::scene_game_puzzle::Guess;
use crate::settings_data::HelpLevel;

verus! {

/// The looping background tracks.
#[derive(Debug, Eq, PartialEq, Clone, Copy, Structural)]
pub enum SceneMusic {
    Menu,
    Game,
}

/// The one-shot sound effects a scene can request; a request is only made
/// when sound effects are enabled.
#[derive(Debug, Eq, PartialEq, Clone, Copy, Structural)]
pub enum Sfx {
    Cursor,
    Positive,
    Negative,
    Congrats,
}

/// A requested mode transition, carrying only what the next mode needs.
/// Produced by a scene's update step, consumed exactly once by the
/// orchestrator.
#[derive(Debug, PartialEq, Eq)]
pub enum SceneAction {
    /// The puzzle was solved: size, puzzle index, grid-overlay flag.
    Win(PuzzleSize, usize, bool),
    MainMenu,
    PuzzleMenu(PuzzleSize),
    /// Start a fresh puzzle: size, puzzle index.
    Game(PuzzleSize, usize),
    /// Resume a paused puzzle: size, index, grid-overlay flag, the saved grid.
    RestoreGame(PuzzleSize, usize, bool, Vec<Vec<Guess>>),
    /// Pause: size, index, grid-overlay flag, the grid moved out of the mode.
    PauseMenu(PuzzleSize, usize, bool, Vec<Vec<Guess>>),
    /// A yes/no confirmation: the action on yes, the action on no.
    Confirm(Box<SceneAction>, Box<SceneAction>),
    Settings,
    /// Leave settings: music enabled, sfx enabled, assist level.
    SettingsClose(bool, bool, HelpLevel),
}

} // verus!
