use nonogram::input::{calc_cursor_position, Buttons};
use nonogram::direction::Direction;
use nonogram::puzzle_size::{ConfigError, PuzzleSet, PuzzleSize};
use nonogram::scene::{SceneAction, SceneMusic, Sfx};
use nonogram::scene_confirm::ConfirmScene;
use nonogram::scene_game_pause::GamePauseScene;
use nonogram::scene_game_puzzle::{GamePuzzleScene, Guess};
use nonogram::scene_game_win::GameWinScene;
use nonogram::scene_menu::MainMenuScene;
use nonogram::scene_puzzle_menu::PuzzleMenuScene;
use nonogram::scene_settings::SettingsScene;
use nonogram::settings_data::HelpLevel;
use nonogram::sfx::{init_bgm, update_bgm, BgmChange};

fn six_by_six() -> PuzzleSet {
    // solution row 0 = [1,0,0,0,0,1], everything else empty
    let mut s = String::from("#____#");
    for _ in 0..30 {
        s.push('_');
    }
    PuzzleSet::new(&s.as_bytes().to_vec(), 6, 6, 1).unwrap()
}

fn game_scene(set: &PuzzleSet) -> GamePuzzleScene {
    // fresh game, overlay on, audio off, no assist
    GamePuzzleScene::new(
        set.game(0),
        PuzzleSize::_6x6,
        0,
        None,
        true,
        false,
        false,
        HelpLevel::NoHelp,
    )
    .unwrap()
}

fn released() -> Buttons {
    Buttons {
        released_ab: true,
        ..Buttons::default()
    }
}

#[test]
fn cursor_wraps_right_when_allowed_and_clamps_otherwise() {
    let mut cursor = (5usize, 2usize);
    let moved = calc_cursor_position(Some(Direction::Right), &mut cursor, (6, 6), true);
    assert!(moved);
    assert_eq!(cursor, (0, 2));
    let mut cursor = (5usize, 2usize);
    let moved = calc_cursor_position(Some(Direction::Right), &mut cursor, (6, 6), false);
    assert!(!moved);
    assert_eq!(cursor, (5, 2));
}

fn six_by_six_bigger() -> PuzzleSet {
    // solution row 0 = [1,0,0,0,0,1]; row 1 filled too, so completing row 0
    // alone does not win the puzzle
    let mut s = String::from("#____####___");
    for _ in 0..24 {
        s.push('_');
    }
    PuzzleSet::new(&s.as_bytes().to_vec(), 6, 6, 1).unwrap()
}

#[test]
fn end_to_end_row_completion_follows_cell_edits() {
    let set = six_by_six_bigger();
    let p = set.game(0);
    assert_eq!(p.row_clues[0], vec![1, 1, 0, 0, 0, 0, 0, 0]);
    let mut scene = game_scene(&set);
    scene.update(&released()); // waiting -> playing
    // fill (0,0)
    let mut b = Buttons::default();
    b.a = true;
    scene.update(&b);
    assert!(!scene.row_complete[0]);
    // release, move to (5,0) one step at a time, then fill
    scene.update(&Buttons::default());
    for _ in 0..5 {
        let mut mv = Buttons::default();
        mv.right = true;
        scene.update(&mv);
        scene.update(&Buttons::default()); // reset repeat delay
    }
    assert_eq!(scene.cursor, (5, 0));
    let mut b = Buttons::default();
    b.a = true;
    scene.update(&b);
    assert!(scene.row_complete[0]);
    // clearing (5,0) makes the row incomplete again
    scene.update(&Buttons::default());
    let mut b = Buttons::default();
    b.a = true;
    scene.update(&b);
    assert!(!scene.row_complete[0]);
}

#[test]
fn set_cell_twice_with_same_value_is_idempotent() {
    let set = six_by_six();
    let mut scene = game_scene(&set);
    scene.update(&released());
    scene.set_piece(Guess::Marked);
    let grid_once = scene.guesses.clone();
    let drag_once = scene.drag_mode;
    scene.set_piece(Guess::Marked);
    assert_eq!(scene.guesses, grid_once);
    assert_eq!(scene.drag_mode, drag_once);
}

#[test]
fn drag_paint_converts_only_cells_with_the_original_value() {
    let set = six_by_six();
    let mut scene = game_scene(&set);
    scene.update(&released());
    // pre-mark (1,0) so the drag must skip it
    scene.set_piece(Guess::Marked);
    scene.drag_mode = None;
    scene.cursor = (1, 0);
    scene.set_piece(Guess::Marked);
    scene.drag_mode = None;
    scene.cursor = (0, 0);
    scene.set_piece(Guess::Empty); // clear (0,0) again
    scene.drag_mode = None;
    // start a drag on Empty (0,0) targeting Filled, then paint across
    scene.set_piece(Guess::Filled);
    assert_eq!(scene.drag_mode, Some((Guess::Empty, Guess::Filled)));
    scene.cursor = (1, 0);
    scene.set_piece(Guess::Filled); // cell holds Marked: untouched
    assert_eq!(scene.guesses[0][1], Guess::Marked);
    scene.cursor = (2, 0);
    scene.set_piece(Guess::Filled); // cell holds Empty: converted
    assert_eq!(scene.guesses[0][2], Guess::Filled);
}

#[test]
fn win_is_monotone_under_extra_fills() {
    let set = six_by_six();
    let mut scene = game_scene(&set);
    scene.update(&released());
    scene.set_piece(Guess::Filled);
    scene.drag_mode = None;
    scene.cursor = (5, 0);
    scene.set_piece(Guess::Filled);
    scene.drag_mode = None;
    scene.validate();
    assert!(matches!(
        scene.state,
        nonogram::scene_game_puzzle::GameState::Win
    ));
    // fill a cell the solution does not require: still a win
    scene.cursor = (3, 3);
    scene.set_piece(Guess::Filled);
    scene.drag_mode = None;
    scene.validate();
    assert!(matches!(
        scene.state,
        nonogram::scene_game_puzzle::GameState::Win
    ));
}

#[test]
fn won_game_yields_the_win_transition() {
    let set = six_by_six();
    let mut scene = game_scene(&set);
    scene.update(&released());
    scene.set_piece(Guess::Filled);
    scene.drag_mode = None;
    scene.cursor = (5, 0);
    scene.set_piece(Guess::Filled);
    scene.drag_mode = None;
    let (action, _) = scene.update(&Buttons::default()); // validates, moves to Win
    assert!(action.is_none());
    let (action, _) = scene.update(&Buttons::default());
    assert_eq!(action, Some(SceneAction::Win(PuzzleSize::_6x6, 0, true)));
}

#[test]
fn pause_carries_the_grid_out_and_restore_rebuilds_it() {
    let set = six_by_six();
    let mut scene = game_scene(&set);
    scene.update(&released());
    scene.set_piece(Guess::Filled);
    scene.drag_mode = None;
    let mut b = Buttons::default();
    b.start_just = true;
    let (action, _) = scene.update(&b);
    let data = match action {
        Some(SceneAction::PauseMenu(sz, ix, grid_on, data)) => {
            assert_eq!(sz, PuzzleSize::_6x6);
            assert_eq!(ix, 0);
            assert!(grid_on);
            data
        }
        other => panic!("unexpected action: {:?}", other),
    };
    assert_eq!(data[0][0], Guess::Filled);
    // restoring with the saved grid keeps it verbatim
    let restored = GamePuzzleScene::new(
        set.game(0),
        PuzzleSize::_6x6,
        0,
        Some(data),
        true,
        false,
        false,
        HelpLevel::NoHelp,
    )
    .unwrap();
    assert_eq!(restored.guesses[0][0], Guess::Filled);
}

#[test]
fn restore_with_wrong_dimensions_is_a_config_error() {
    let set = six_by_six();
    let bad = vec![vec![Guess::Empty; 5]; 6];
    let r = GamePuzzleScene::new(
        set.game(0),
        PuzzleSize::_6x6,
        0,
        Some(bad),
        true,
        false,
        false,
        HelpLevel::NoHelp,
    );
    assert_eq!(r.unwrap_err(), ConfigError::DimensionMismatch);
}

#[test]
fn main_menu_moves_and_opens_menus() {
    let mut m = MainMenuScene::new(true, true);
    let mut b = Buttons::default();
    b.right_just = true;
    let (action, sfx) = m.update(&b);
    assert!(action.is_none());
    assert_eq!(sfx, Some(Sfx::Cursor));
    assert_eq!(m.cursor, (1, 0));
    let mut b = Buttons::default();
    b.a_just = true;
    let (action, _) = m.update(&b);
    assert_eq!(action, Some(SceneAction::PuzzleMenu(PuzzleSize::_8x8)));
    let mut b = Buttons::default();
    b.select_just = true;
    let (action, _) = m.update(&b);
    assert_eq!(action, Some(SceneAction::Settings));
}

#[test]
fn puzzle_menu_starts_on_first_unsolved_and_launches_games() {
    let mut completed = vec![0u8; 21];
    completed[0] = 1;
    completed[1] = 1;
    let mut m = PuzzleMenuScene::new(PuzzleSize::_6x6, &completed, false, false);
    assert_eq!(m.cursor, (2, 0));
    let mut b = Buttons::default();
    b.a_just = true;
    let (action, _) = m.update(&b);
    assert_eq!(action, Some(SceneAction::Game(PuzzleSize::_6x6, 2)));
    let mut b = Buttons::default();
    b.b_just = true;
    let (action, _) = m.update(&b);
    assert_eq!(action, Some(SceneAction::MainMenu));
}

#[test]
fn pause_menu_confirms_and_resumes() {
    let grid = vec![vec![Guess::Filled; 2]; 2];
    let mut p = GamePauseScene::new(PuzzleSize::_6x6, 3, false, grid.clone(), false);
    let mut b = Buttons::default();
    b.down_just = true;
    p.update(&b);
    assert_eq!(p.button_idx, 1);
    let mut b = Buttons::default();
    b.a_just = true;
    let (action, _) = p.update(&b);
    match action {
        Some(SceneAction::Confirm(pos, neg)) => {
            assert_eq!(*pos, SceneAction::PuzzleMenu(PuzzleSize::_6x6));
            match *neg {
                SceneAction::RestoreGame(sz, ix, ge, data) => {
                    assert_eq!((sz, ix, ge), (PuzzleSize::_6x6, 3, false));
                    assert_eq!(data, grid);
                }
                other => panic!("unexpected negative action: {:?}", other),
            }
        }
        other => panic!("unexpected action: {:?}", other),
    }
}

#[test]
fn confirm_scene_yields_the_chosen_action() {
    let mut c = ConfirmScene::new(
        Box::new(SceneAction::Settings),
        Box::new(SceneAction::MainMenu),
        true,
    );
    let mut b = Buttons::default();
    b.right_just = true;
    c.update(&b);
    assert_eq!(c.button_idx, 1);
    let mut b = Buttons::default();
    b.a_just = true;
    let (action, sfx) = c.update(&b);
    assert_eq!(action, Some(SceneAction::MainMenu));
    assert!(sfx.is_none());
}

#[test]
fn settings_scene_toggles_and_closes() {
    let mut s = SettingsScene::new(false, true, HelpLevel::Zeros);
    let (owned, change) = s.init(Some(SceneMusic::Menu));
    assert!(owned.is_none());
    assert_eq!(change, BgmChange::Stop); // music off: stop what plays
    let mut b = Buttons::default();
    b.a_just = true;
    s.update(&b); // toggle sfx off
    assert!(!s.sfx_enabled);
    let mut b = Buttons::default();
    b.down_just = true;
    s.update(&b);
    s.update(&b);
    assert_eq!(s.button_idx, 2);
    let mut b = Buttons::default();
    b.right_just = true;
    s.update(&b);
    assert_eq!(s.help_level, HelpLevel::Full);
    let mut b = Buttons::default();
    b.start_just = true;
    let (action, _, change) = s.update(&b);
    assert_eq!(
        action,
        Some(SceneAction::SettingsClose(false, false, HelpLevel::Full))
    );
    assert_eq!(change, BgmChange::Nothing);
}

#[test]
fn win_scene_waits_out_the_animation() {
    let mut w = GameWinScene::new(PuzzleSize::_8x8, 1, true);
    let mut b = Buttons::default();
    b.a_just = true;
    let (action, _) = w.update(&b);
    assert!(action.is_none()); // too early
    let mut congrats_fired = false;
    for _ in 0..60 {
        let (_, sfx) = w.update(&Buttons::default());
        if sfx == Some(Sfx::Congrats) {
            congrats_fired = true;
        }
    }
    assert!(congrats_fired);
    let (action, _) = w.update(&b);
    assert_eq!(action, Some(SceneAction::PuzzleMenu(PuzzleSize::_8x8)));
}

#[test]
fn bgm_decisions_keep_replace_start_and_stop() {
    assert_eq!(
        update_bgm(SceneMusic::Menu, Some(SceneMusic::Menu)),
        (SceneMusic::Menu, BgmChange::Keep)
    );
    assert_eq!(
        update_bgm(SceneMusic::Game, Some(SceneMusic::Menu)),
        (SceneMusic::Game, BgmChange::Replace)
    );
    assert_eq!(
        update_bgm(SceneMusic::Game, None),
        (SceneMusic::Game, BgmChange::Start)
    );
    assert_eq!(
        init_bgm(SceneMusic::Menu, Some(SceneMusic::Game), true),
        (Some(SceneMusic::Menu), BgmChange::Replace)
    );
    assert_eq!(
        init_bgm(SceneMusic::Menu, Some(SceneMusic::Game), false),
        (None, BgmChange::Stop)
    );
    assert_eq!(
        init_bgm(SceneMusic::Menu, None, false),
        (None, BgmChange::Nothing)
    );
}

#[test]
fn assist_prefills_a_fresh_game() {
    // a puzzle whose first row is fully filled: Full assist fills it
    let src: Vec<u8> = "######______________________________"
        .bytes()
        .collect();
    let set = PuzzleSet::new(&src, 6, 6, 1).unwrap();
    let scene = GamePuzzleScene::new(
        set.game(0),
        PuzzleSize::_6x6,
        0,
        None,
        false,
        false,
        false,
        HelpLevel::Full,
    )
    .unwrap();
    assert!(scene.guesses[0].iter().all(|&g| g == Guess::Filled));
}
