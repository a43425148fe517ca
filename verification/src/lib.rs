//! A nonogram (picture-logic) puzzle engine.
//!
//! The library covers the game's algorithmic core: deriving run-length clues
//! from solution grids, mutating a guess grid through cursor movement and
//! drag-painting, detecting line completion and puzzle wins, the tiered
//! auto-solve assist, the persisted settings record, and the scene state
//! machine that governs which game mode is active.  Rendering, audio playback
//! and save-file I/O are left to the embedding program, which talks to the
//! library through plain values.

pub mod assist;
pub mod calc;
pub mod direction;
pub mod input;
pub mod puzzle_size;
pub mod scene;
pub mod scene_confirm;
pub mod scene_game_pause;
pub mod scene_game_win;
pub mod scene_menu;
pub mod scene_puzzle_menu;
pub mod sfx;
pub mod scene_settings;
pub mod settings_data;
pub mod scene_game_puzzle;
