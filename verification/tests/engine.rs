use nonogram::assist::{hint_calc, pre_solve, solve_row};
use nonogram::calc::{
    compute_clues, expected_hints, line_complete, line_matches_hints, line_runs, parse_grids,
};
use nonogram::puzzle_size::{ConfigError, PuzzleSet, PuzzleSize};
use nonogram::scene_game_puzzle::{Clock, Guess};
use nonogram::settings_data::{HelpLevel, SettingsData, SAVE_DATA_SIZE};

fn bytes(s: &str) -> Vec<u8> {
    s.as_bytes().to_vec()
}

#[test]
fn parse_grids_reads_sentinels_and_skips_noise() {
    let src = bytes("#_\n_# junk");
    let grids = parse_grids(&src, 2, 2, 1);
    assert_eq!(grids.len(), 1);
    assert_eq!(grids[0][0], vec![1, 0]);
    assert_eq!(grids[0][1], vec![0, 1]);
}

#[test]
fn parse_grids_pads_missing_cells_with_empty() {
    let src = bytes("##");
    let grids = parse_grids(&src, 2, 2, 2);
    assert_eq!(grids[0][0], vec![1, 1]);
    assert_eq!(grids[0][1], vec![0, 0]);
    assert_eq!(grids[1][0], vec![0, 0]);
    assert_eq!(grids[1][1], vec![0, 0]);
}

#[test]
fn compute_clues_derives_padded_run_lengths() {
    // row 0 of the end-to-end scenario: [1,0,0,0,0,1]
    let grid = vec![
        vec![1u8, 0, 0, 0, 0, 1],
        vec![0u8, 0, 0, 0, 0, 0],
        vec![1u8, 1, 1, 0, 1, 1],
        vec![0u8, 0, 0, 0, 0, 0],
        vec![0u8, 0, 0, 0, 0, 0],
        vec![0u8, 0, 0, 0, 0, 0],
    ];
    let clues = compute_clues(&grid, 6, 6);
    assert_eq!(clues.rows[0], vec![1, 1, 0, 0, 0, 0, 0, 0]);
    assert_eq!(clues.rows[1], vec![0, 0, 0, 0, 0, 0, 0, 0]);
    assert_eq!(clues.rows[2], vec![3, 2, 0, 0, 0, 0, 0, 0]);
    assert_eq!(clues.cols[0], vec![1, 1, 0, 0, 0, 0, 0, 0]);
    assert_eq!(clues.cols[1], vec![1, 0, 0, 0, 0, 0, 0, 0]);
}

#[test]
fn line_runs_of_all_empty_line_is_empty() {
    let line = vec![Guess::Empty; 8];
    assert_eq!(line_runs(&line), Vec::<usize>::new());
}

#[test]
fn line_runs_finds_maximal_filled_segments() {
    let line = vec![
        Guess::Filled,
        Guess::Filled,
        Guess::Marked,
        Guess::Empty,
        Guess::Filled,
    ];
    assert_eq!(line_runs(&line), vec![2, 1]);
}

#[test]
fn expected_hints_takes_nonzero_prefix() {
    let hints = vec![3u8, 1, 0, 2, 0, 0, 0, 0];
    assert_eq!(expected_hints(&hints), vec![3, 1]);
}

#[test]
fn zero_clue_line_is_always_complete() {
    let hints = vec![0u8; 8];
    let messy = vec![Guess::Filled, Guess::Marked, Guess::Empty];
    assert!(line_complete(&messy, &hints));
    assert!(line_complete(&vec![], &hints));
}

#[test]
fn line_matches_hints_requires_exact_runs() {
    let hints = vec![1u8, 1, 0, 0, 0, 0, 0, 0];
    let good = vec![
        Guess::Filled,
        Guess::Empty,
        Guess::Empty,
        Guess::Empty,
        Guess::Empty,
        Guess::Filled,
    ];
    let bad = vec![
        Guess::Filled,
        Guess::Filled,
        Guess::Empty,
        Guess::Empty,
        Guess::Empty,
        Guess::Filled,
    ];
    assert!(line_matches_hints(&good, &hints));
    assert!(!line_matches_hints(&bad, &hints));
}

#[test]
fn solution_read_back_as_guesses_matches_every_derived_clue() {
    let grid = vec![
        vec![1u8, 0, 1, 0],
        vec![1u8, 1, 0, 0],
        vec![0u8, 0, 0, 0],
        vec![1u8, 1, 1, 1],
    ];
    let clues = compute_clues(&grid, 4, 4);
    for y in 0..4 {
        let line: Vec<Guess> = grid[y]
            .iter()
            .map(|&c| if c != 0 { Guess::Filled } else { Guess::Empty })
            .collect();
        assert!(line_complete(&line, &clues.rows[y]));
    }
    for x in 0..4 {
        let line: Vec<Guess> = (0..4)
            .map(|y| {
                if grid[y][x] != 0 {
                    Guess::Filled
                } else {
                    Guess::Empty
                }
            })
            .collect();
        assert!(line_complete(&line, &clues.cols[x]));
    }
}

#[test]
fn hint_calc_sums_runs_and_separators() {
    let hints = vec![2u8, 2, 0, 0, 0, 0, 0, 0];
    assert_eq!(hint_calc(&hints), 5);
    let single = vec![3u8, 0, 0, 0, 0, 0, 0, 0];
    assert_eq!(hint_calc(&single), 3);
}

#[test]
fn solve_row_lays_out_forced_line() {
    let hints = vec![2u8, 2, 0, 0, 0, 0, 0, 0];
    let mut row = vec![Guess::Empty; 5];
    solve_row(&hints, &mut row, 5);
    assert_eq!(
        row,
        vec![
            Guess::Filled,
            Guess::Filled,
            Guess::Marked,
            Guess::Filled,
            Guess::Filled,
        ]
    );
}

#[test]
fn full_level_assist_ignores_slack_and_fills_full_lines() {
    // clue [3] on a line of 6: slack remains, Full level leaves it alone
    let data = vec![vec![Guess::Empty; 6]; 6];
    let mut rows_hints = vec![vec![1u8, 0, 0, 0, 0, 0, 0, 0]; 6];
    rows_hints[0] = vec![3u8, 0, 0, 0, 0, 0, 0, 0];
    let cols_hints = vec![vec![1u8, 0, 0, 0, 0, 0, 0, 0]; 6];
    let out = pre_solve(data, HelpLevel::Full, &rows_hints, &cols_hints);
    assert!(out[0].iter().all(|&g| g == Guess::Empty));
    // clue [3] on a line of 3: the single run spans the line, Full fills it
    let data3 = vec![vec![Guess::Empty; 3]; 3];
    let mut rows3 = vec![vec![1u8, 0, 0, 0, 0, 0, 0, 0]; 3];
    rows3[0] = vec![3u8, 0, 0, 0, 0, 0, 0, 0];
    let cols3 = vec![vec![1u8, 0, 0, 0, 0, 0, 0, 0]; 3];
    let out3 = pre_solve(data3, HelpLevel::Full, &rows3, &cols3);
    assert_eq!(out3[0], vec![Guess::Filled; 3]);
}

#[test]
fn solvable_level_assist_lays_out_forced_rows() {
    let data = vec![vec![Guess::Empty; 5]; 5];
    let mut rows = vec![vec![1u8, 0, 0, 0, 0, 0, 0, 0]; 5];
    rows[0] = vec![2u8, 2, 0, 0, 0, 0, 0, 0];
    let cols = vec![vec![1u8, 0, 0, 0, 0, 0, 0, 0]; 5];
    let out = pre_solve(data, HelpLevel::Solvable, &rows, &cols);
    assert_eq!(
        out[0],
        vec![
            Guess::Filled,
            Guess::Filled,
            Guess::Marked,
            Guess::Filled,
            Guess::Filled,
        ]
    );
}

#[test]
fn zeros_level_assist_marks_clueless_lines() {
    let data = vec![vec![Guess::Empty; 2]; 2];
    let rows = vec![vec![0u8; 8], vec![1u8, 0, 0, 0, 0, 0, 0, 0]];
    let cols = vec![
        vec![1u8, 0, 0, 0, 0, 0, 0, 0],
        vec![1u8, 0, 0, 0, 0, 0, 0, 0],
    ];
    let out = pre_solve(data, HelpLevel::Zeros, &rows, &cols);
    assert_eq!(out[0], vec![Guess::Marked, Guess::Marked]);
    assert_eq!(out[1], vec![Guess::Empty, Guess::Empty]);
}

#[test]
fn puzzle_set_parses_and_serves_games() {
    let src = bytes("#__#");
    let set = PuzzleSet::new(&src, 2, 2, 1).unwrap();
    assert_eq!(set.game_count(), 1);
    let p = set.game(0);
    assert_eq!(p.width, 2);
    assert_eq!(p.height, 2);
    assert_eq!(p.data[0], vec![1, 0]);
    assert_eq!(p.data[1], vec![0, 1]);
    assert_eq!(p.row_clues[0], vec![1, 0, 0, 0, 0, 0, 0, 0]);
}

#[test]
fn puzzle_set_rejects_clue_overflow() {
    // a 22-wide row alternating filled/empty has 11 runs, more than a clue
    // line's eight entries
    let mut row = String::new();
    for _ in 0..11 {
        row.push('#');
        row.push('_');
    }
    let mut all = String::new();
    for _ in 0..12 {
        all.push_str(&row);
    }
    let set = PuzzleSet::new(&bytes(&all), 22, 12, 1);
    assert_eq!(set.unwrap_err(), ConfigError::ClueOverflow);
}

#[test]
fn clock_rolls_over_frames_and_seconds() {
    let mut c = Clock::new();
    for _ in 0..60 {
        c.inc();
    }
    assert_eq!((c.frames, c.seconds, c.minutes), (0, 1, 0));
    for _ in 0..(59 * 60 - 1) {
        c.inc();
    }
    c.inc();
    assert_eq!((c.frames, c.seconds, c.minutes), (0, 0, 1));
}

#[test]
fn guess_index_maps_to_tiles() {
    assert_eq!(Guess::Empty.index(), 0);
    assert_eq!(Guess::Filled.index(), 1);
    assert_eq!(Guess::Marked.index(), 2);
}

#[test]
fn help_level_bytes_round_trip() {
    for (lvl, b) in [
        (HelpLevel::NoHelp, 0u8),
        (HelpLevel::Zeros, 1),
        (HelpLevel::Full, 2),
        (HelpLevel::Solvable, 3),
    ] {
        assert_eq!(lvl.to_byte(), b);
        assert_eq!(HelpLevel::from_byte(b), lvl);
    }
    assert_eq!(HelpLevel::from_byte(200), HelpLevel::NoHelp);
    assert_eq!(HelpLevel::Solvable.prev(), HelpLevel::Full);
    assert_eq!(HelpLevel::NoHelp.next(), HelpLevel::Zeros);
    assert!(HelpLevel::Zeros.zeros());
    assert!(!HelpLevel::Zeros.full());
    assert!(HelpLevel::Solvable.solvable());
}

#[test]
fn settings_fall_back_to_defaults_on_unknown_version() {
    let raw = vec![9u8; SAVE_DATA_SIZE];
    let s = SettingsData::from_bytes(&raw);
    assert!(s.music_enabled);
    assert!(s.sfx_enabled);
    assert_eq!(s.help_level, HelpLevel::Full);
    assert_eq!(s.grid_enabled, vec![true; 6]);
}

#[test]
fn settings_round_trip_through_bytes() {
    let mut raw = vec![0u8; SAVE_DATA_SIZE];
    raw[0] = 3; // current version
    raw[1] = 1; // 6x6 overlay on
    raw[7] = 1; // music on
    raw[9] = 3; // solvable assist
    raw[12] = 1; // first 6x6 puzzle completed
    let mut s = SettingsData::from_bytes(&raw);
    assert!(s.music_enabled);
    assert!(!s.sfx_enabled);
    assert_eq!(s.help_level, HelpLevel::Solvable);
    assert_eq!(s.is_completed_by_size(PuzzleSize::_6x6)[0], 1);
    s.set_completed(PuzzleSize::_8x8, 2);
    let out = s.as_bytes();
    assert_eq!(out[0], 3);
    assert_eq!(out[12], 1);
    assert_eq!(out[12 + 21 + 2], 1);
    let back = SettingsData::from_bytes(&out);
    assert_eq!(back.is_completed_by_size(PuzzleSize::_8x8)[2], 1);
    s.reset();
    assert!(s.is_completed_by_size(PuzzleSize::_8x8).iter().all(|&b| b == 0));
}

#[test]
fn save_offsets_by_size() {
    assert_eq!(PuzzleSize::_6x6.save_idx(), 0);
    assert_eq!(PuzzleSize::_22x12.save_idx(), 96);
    assert_eq!(PuzzleSize::_6x6.game_count(), 21);
    assert_eq!(PuzzleSize::_20x10.game_count(), 12);
    assert_eq!(PuzzleSize::_20x10.dimensions(), (20, 10));
    assert!(PuzzleSize::_6x6.scale_in_menu());
    assert!(!PuzzleSize::_22x12.scale_in_menu());
    assert_eq!(PuzzleSize::_6x6.button_size(), (3, 3));
    assert_eq!(PuzzleSize::_22x12.button_size(), (5, 3));
    assert_eq!(PuzzleSize::_6x6.buttons().len(), 3);
    assert_eq!(PuzzleSize::_6x6.buttons()[0].len(), 7);
    assert_eq!(PuzzleSize::_20x10.buttons()[0].len(), 4);
    assert_eq!(PuzzleSize::_6x6.buttons()[0][0], (1, 5));
}
