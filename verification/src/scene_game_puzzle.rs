//! The active-gameplay mode: the guess grid, its sole mutator, drag-painting,
//! per-line completion memoization, win detection and the play clock.

use vstd::prelude::*;
use vstd::pervasive::VecAdditionalExecFns;
use crate::calc::grid_view;
use crate::calc::grid_wf;
use crate::calc::line_complete;
use crate::calc::line_complete_spec;
use crate::puzzle_size::ConfigError;
use crate::settings_data::HelpLevel;
use crate::puzzle_size::Puzzle;
use crate::puzzle_size::PuzzleSize;
use crate::direction::Direction;
use crate::direction::dir_from_held;
use crate::input::Buttons;
use crate::input::calc_cursor_position;
use crate::input::move_cursor_spec;
use crate::scene::SceneAction;
use crate::scene::Sfx;

verus! {

/// Frames a held direction waits before it repeats.
pub const INPUT_DELAY: u8 = 6;

/// The state a single guess-grid cell can take.
#[derive(Debug, Copy, Clone, PartialEq, Eq, Structural)]
pub enum Guess {
    Empty,
    Filled,
    Marked,
}

impl Guess {
    /// The tile-sheet index the renderer uses for this cell state.
    pub fn index(self) -> (r: u16)
        ensures
            r == match self {
                Guess::Empty => 0u16,
                Guess::Filled => 1u16,
                Guess::Marked => 2u16,
            },
    {
        match self {
            Guess::Empty => 0,
            Guess::Filled => 1,
            Guess::Marked => 2,
        }
    }
}

/// Column `x` of a guess grid, read top to bottom.
pub open spec fn guess_col(grid: Seq<Seq<Guess>>, x: int) -> Seq<Guess> {
    Seq::new(grid.len(), |y: int| grid[y][x])
}

/// Copy a guess line.
pub fn clone_guess_row(v: &Vec<Guess>) -> (r: Vec<Guess>)
    ensures
        r@ == v@,
{
    let r = v.clone();
    proof {
        assert(r@ =~= v@);
    }
    r
}

/// Write one cell of a guess grid, leaving every other row untouched.
pub fn guess_grid_set(grid: &mut Vec<Vec<Guess>>, y: usize, x: usize, v: Guess)
    requires
        y < old(grid)@.len(),
        x < old(grid)@[y as int]@.len(),
    ensures
        final(grid)@.len() == old(grid)@.len(),
        forall|i: int|
            0 <= i < old(grid)@.len() && i != y ==> final(grid)@[i] == old(grid)@[i],
        final(grid)@[y as int]@ == old(grid)@[y as int]@.update(x as int, v),
{
    let mut row = clone_guess_row(&grid[y]);
    row.set(x, v);
    grid.set(y, row);
}

/// Column `x` of a guess grid, extracted as a line.
pub fn guess_col_cells(grid: &Vec<Vec<Guess>>, x: usize, height: usize) -> (r: Vec<Guess>)
    requires
        grid@.len() == height,
        forall|y: int| 0 <= y < height ==> x < (#[trigger] grid@[y])@.len(),
    ensures
        r@ == guess_col(grid@.map_values(|row: Vec<Guess>| row@), x as int),
{
    let mut r: Vec<Guess> = Vec::new();
    let mut y: usize = 0;
    #[verifier::loop_isolation(false)]
    while y < height
        invariant
            0 <= y <= height,
            r@.len() == y,
            forall|j: int| 0 <= j < y ==> r@[j] == grid@[j]@[x as int],
        decreases height - y,
    {
        r.push(grid[y][x]);
        y = y + 1;
    }
    proof {
        assert(r@ =~= guess_col(grid@.map_values(|row: Vec<Guess>| row@), x as int));
    }
    r
}

/// Overwrite column `x` of a guess grid with the given line.
pub fn set_col(grid: &mut Vec<Vec<Guess>>, x: usize, col: &Vec<Guess>)
    requires
        col@.len() == old(grid)@.len(),
        forall|y: int| 0 <= y < old(grid)@.len() ==> x < (#[trigger] old(grid)@[y])@.len(),
    ensures
        final(grid)@.len() == old(grid)@.len(),
        forall|y: int|
            0 <= y < old(grid)@.len() ==> (#[trigger] final(grid)@[y])@ == old(
                grid,
            )@[y]@.update(x as int, col@[y]),
{
    let mut y: usize = 0;
    #[verifier::loop_isolation(false)]
    while y < grid.len()
        invariant
            0 <= y <= grid@.len(),
            grid@.len() == old(grid)@.len(),
            forall|j: int| 0 <= j < grid@.len() ==> x < (#[trigger] grid@[j])@.len(),
            forall|j: int|
                0 <= j < y ==> (#[trigger] grid@[j])@ == old(grid)@[j]@.update(
                    x as int,
                    col@[j],
                ),
            forall|j: int| y <= j < grid@.len() ==> #[trigger] grid@[j] == old(grid)@[j],
        decreases grid@.len() - y,
    {
        guess_grid_set(grid, y, x, col[y]);
        y = y + 1;
    }
}

/// Elapsed-play clock, advanced once per display frame; purely cosmetic.
#[derive(Debug, Copy, Clone, PartialEq, Eq, Structural)]
pub struct Clock {
    pub frames: u8,
    pub seconds: u8,
    pub minutes: u8,
}

/// The clock value one tick after `c`: 60 frames to a second, 60 seconds to a
/// minute; the minute counter wraps at its type bound rather than overflow.
pub open spec fn clock_inc_spec(c: Clock) -> Clock {
    if c.frames >= 59 {
        if c.seconds >= 59 {
            Clock {
                frames: 0,
                seconds: 0,
                minutes: if c.minutes == 255 { 0u8 } else { (c.minutes + 1) as u8 },
            }
        } else {
            Clock { frames: 0, seconds: (c.seconds + 1) as u8, minutes: c.minutes }
        }
    } else {
        Clock { frames: (c.frames + 1) as u8, seconds: c.seconds, minutes: c.minutes }
    }
}

impl Clock {
    pub fn new() -> (r: Clock)
        ensures
            r == (Clock { frames: 0u8, seconds: 0u8, minutes: 0u8 }),
    {
        Clock { frames: 0, seconds: 0, minutes: 0 }
    }

    /// Advance the clock by one frame.
    pub fn inc(&mut self)
        ensures
            *final(self) == clock_inc_spec(*old(self)),
    {
        if self.frames >= 59 {
            self.frames = 0;
            if self.seconds >= 59 {
                self.seconds = 0;
                if self.minutes == 255 {
                    self.minutes = 0;
                } else {
                    self.minutes = self.minutes + 1;
                }
            } else {
                self.seconds = self.seconds + 1;
            }
        } else {
            self.frames = self.frames + 1;
        }
    }
}

/// The direction bits held this tick, one bit per direction; the repeat
/// delay resets whenever this changes.
pub open spec fn dpad_bits(b: Buttons) -> u8 {
    (((if b.up {
        1u8
    } else {
        0u8
    }) + (if b.down {
        2u8
    } else {
        0u8
    }) + (if b.left {
        4u8
    } else {
        0u8
    }) + (if b.right {
        8u8
    } else {
        0u8
    })) as u8)
}

/// What the confirm button (fill) or the secondary button (mark) writes over
/// a cell outside a drag: its own value, or Empty when the cell already
/// holds that value.
pub open spec fn toggle_target(cell: Guess, a: bool, b: bool) -> Option<Guess> {
    if a {
        Some(
            if cell is Filled {
                Guess::Empty
            } else {
                Guess::Filled
            },
        )
    } else if b {
        Some(
            if cell is Marked {
                Guess::Empty
            } else {
                Guess::Marked
            },
        )
    } else {
        None
    }
}

/// The gameplay mode's internal state machine: it waits for the confirm
/// buttons to be released, then plays until the win check succeeds.
#[derive(Debug, Copy, Clone, Eq, PartialEq, Structural)]
pub enum GameState {
    WaitingForNoInput,
    Playing,
    Win,
}

/// Whether the guess grid wins against the solution: every cell the solution
/// requires Filled is guessed Filled. Cells filled beyond the solution are
/// not checked and never block a win.
pub open spec fn win_spec(
    solution: Seq<Seq<u8>>,
    guesses: Seq<Seq<Guess>>,
    width: int,
    height: int,
) -> bool {
    forall|y: int, x: int|
        0 <= y < height && 0 <= x < width && solution[y][x] != 0 ==> #[trigger] guesses[y][x]
            is Filled
}

/// The sole cell mutation. With no drag active it begins one, recording the
/// overwritten value and the value painted, and writes. With a drag active
/// the write lands only on cells that still hold the value the drag started
/// on; any other cell is left untouched.
pub open spec fn set_cell_spec(
    grid: Seq<Seq<Guess>>,
    drag: Option<(Guess, Guess)>,
    x: int,
    y: int,
    guess: Guess,
) -> (Seq<Seq<Guess>>, Option<(Guess, Guess)>) {
    let cell = grid[y][x];
    if drag is None || drag == Some((cell, guess)) {
        (grid.update(y, grid[y].update(x, guess)), Some((cell, guess)))
    } else {
        (grid, drag)
    }
}

/// A `height` by `width` grid of Empty cells.
pub open spec fn empty_grid(width: int, height: int) -> Seq<Seq<Guess>> {
    Seq::new(height as nat, |y: int| Seq::new(width as nat, |x: int| Guess::Empty))
}

/// What the input phase of one Playing tick makes of the mode: the grid and
/// drag after painting, the cursor after movement, the repeat counter, and
/// whether the cursor moved. A paint happens under the cursor outside a
/// drag; a held direction moves the cursor when the repeat delay has run
/// out; an active drag then paints the cell moved onto.
pub open spec fn playing_mid(s: GamePuzzleScene, b: Buttons) -> (
    Seq<Seq<Guess>>,
    Option<(Guess, Guess)>,
    (usize, usize),
    u8,
    bool,
) {
    let dpad = dpad_bits(b);
    let nif0: u8 = if dpad != s.last_dpad {
        0u8
    } else {
        s.next_input_frame
    };
    let g0 = grid_view(s.guesses@);
    let cx = s.cursor.0 as int;
    let cy = s.cursor.1 as int;
    let cell = g0[cy][cx];
    let tgt = toggle_target(cell, b.a, b.b);
    let p1 = if s.drag_mode is None && tgt is Some {
        set_cell_spec(g0, Option::<(Guess, Guess)>::None, cx, cy, tgt->0)
    } else {
        (g0, s.drag_mode)
    };
    let can = dpad != 0 && nif0 == 0;
    let mv = if can {
        match dir_from_held(b) {
            Some(d) => move_cursor_spec(s.cursor, d, (s.puzzle.width, s.puzzle.height), p1.1 is None),
            None => s.cursor,
        }
    } else {
        s.cursor
    };
    let moved = can && mv != s.cursor;
    let nif1: u8 = if dpad == 0 {
        0u8
    } else if nif0 == 0 {
        if moved {
            INPUT_DELAY
        } else {
            0u8
        }
    } else {
        (nif0 - 1) as u8
    };
    let p2 = match p1.1 {
        Some((o, t)) => if moved {
            set_cell_spec(p1.0, p1.1, mv.0 as int, mv.1 as int, t)
        } else {
            p1
        },
        None => p1,
    };
    (p2.0, p2.1, mv, nif1, moved)
}

/// Everything one Playing tick changes, phrased over the pre-state `s`, the
/// post-state `post`, the input snapshot and the tick's result. The clock is
/// not constrained here; it advances in every state alike.
#[verifier::opaque]
pub open spec fn playing_post(
    s: GamePuzzleScene,
    post: GamePuzzleScene,
    b: Buttons,
    r: (Option<SceneAction>, Option<Sfx>),
) -> bool {
    let m = playing_mid(s, b);
    let grid2 = m.0;
    let drag2 = m.1;
    let mv = m.2;
    let nif1 = m.3;
    let moved = m.4;
    let show1 = if b.select_just {
        !s.show_grid
    } else {
        s.show_grid
    };
    &&& r.1 == (if moved && s.sfx_enabled {
        Some(Sfx::Cursor)
    } else {
        None::<Sfx>
    })
    &&& post.cursor == mv
    &&& post.last_dpad == dpad_bits(b)
    &&& post.next_input_frame == nif1
    &&& post.show_grid == show1
    &&& if b.start_just {
        &&& post.state is Playing
        &&& match r.0 {
            Some(SceneAction::PauseMenu(sz, ix, sg, data)) => {
                &&& sz == s.puzzle_size
                &&& ix == s.game_idx
                &&& sg == show1
                &&& grid_view(data@) == grid2
            },
            _ => false,
        }
        &&& grid_view(post.guesses@) == seq![Seq::<Guess>::empty()]
    } else {
        &&& r.0 is None
        &&& grid_view(post.guesses@) == grid2
        &&& post.drag_mode == (if !b.a && !b.b {
            Option::<(Guess, Guess)>::None
        } else {
            drag2
        })
        &&& post.state == (if win_spec(
            grid_view(s.puzzle.data@),
            grid2,
            s.puzzle.width as int,
            s.puzzle.height as int,
        ) {
            GameState::Win
        } else {
            GameState::Playing
        })
        &&& post.wf()
    }
}

/// Setting a cell twice in a row with the same value, with no drag reset in
/// between, produces the same grid and drag state as setting it once.
pub proof fn lemma_set_cell_idempotent(
    grid: Seq<Seq<Guess>>,
    drag: Option<(Guess, Guess)>,
    x: int,
    y: int,
    guess: Guess,
)
    requires
        0 <= y < grid.len(),
        0 <= x < grid[y].len(),
    ensures
        set_cell_spec(
            set_cell_spec(grid, drag, x, y, guess).0,
            set_cell_spec(grid, drag, x, y, guess).1,
            x,
            y,
            guess,
        ) == set_cell_spec(grid, drag, x, y, guess),
{
    let cell = grid[y][x];
    let once = set_cell_spec(grid, drag, x, y, guess);
    if drag is None || drag == Some((cell, guess)) {
        assert(once.0[y][x] == guess);
        if cell == guess {
            assert(once.0.update(y, once.0[y].update(x, guess)) =~~= once.0);
        }
    }
    assert(set_cell_spec(once.0, once.1, x, y, guess) =~~= once);
}

/// During a drag that started on `orig` painting `target`, a write converts
/// the cell only if it still holds `orig`; every other cell of the grid is
/// untouched, and the drag pair survives.
pub proof fn lemma_drag_paint(
    grid: Seq<Seq<Guess>>,
    orig: Guess,
    target: Guess,
    x: int,
    y: int,
)
    requires
        0 <= y < grid.len(),
        0 <= x < grid[y].len(),
    ensures
        ({
            let r = set_cell_spec(grid, Some((orig, target)), x, y, target);
            &&& grid[y][x] == orig ==> r.0[y][x] == target
            &&& grid[y][x] != orig ==> r.0 == grid
            &&& forall|j: int, i: int|
                0 <= j < grid.len() && 0 <= i < grid[j].len() && !(j == y && i == x)
                    ==> #[trigger] r.0[j][i] == grid[j][i]
            &&& r.1 == Some((orig, target))
        }),
{
}

/// Win detection is monotone: once a grid wins, filling any further
/// previously-Empty cell keeps it winning. An Empty cell of a winning grid
/// is never required by the solution, so the extra fill is tolerated
/// over-filling.
pub proof fn lemma_win_monotonic(
    solution: Seq<Seq<u8>>,
    guesses: Seq<Seq<Guess>>,
    width: int,
    height: int,
    x: int,
    y: int,
)
    requires
        win_spec(solution, guesses, width, height),
        grid_wf(guesses, width, height),
        0 <= y < height,
        0 <= x < width,
        guesses[y][x] is Empty,
    ensures
        win_spec(
            solution,
            guesses.update(y, guesses[y].update(x, Guess::Filled)),
            width,
            height,
        ),
{
    let after = guesses.update(y, guesses[y].update(x, Guess::Filled));
    assert forall|j: int, i: int|
        0 <= j < height && 0 <= i < width && solution[j][i] != 0 implies #[trigger] after[j][i]
        is Filled by {
        if !(j == y && i == x) {
            assert(after[j][i] == guesses[j][i]);
        }
    }
}

/// The Playing tick's outcome does not depend on the clock: the clock
/// advances in every state alike, before the tick's decisions run.
proof fn lemma_playing_post_clock(
    s1: GamePuzzleScene,
    s2: GamePuzzleScene,
    post: GamePuzzleScene,
    b: Buttons,
    r: (Option<SceneAction>, Option<Sfx>),
)
    requires
        playing_post(s1, post, b, r),
        s2 == (GamePuzzleScene { clock: s2.clock, ..s1 }),
    ensures
        playing_post(s2, post, b, r),
{
    reveal(playing_post);
    assert(playing_mid(s1, b) == playing_mid(s2, b));
}

/// Per-line completion memos that hold the truth about a guess grid.
#[verifier::opaque]
pub open spec fn memo_matches(
    grid: Seq<Seq<Guess>>,
    row_clues: Seq<Seq<u8>>,
    col_clues: Seq<Seq<u8>>,
    rowc: Seq<bool>,
    colc: Seq<bool>,
    width: int,
    height: int,
) -> bool {
    &&& forall|y: int|
        0 <= y < height ==> #[trigger] rowc[y] == line_complete_spec(grid[y], row_clues[y])
    &&& forall|x: int|
        0 <= x < width ==> #[trigger] colc[x] == line_complete_spec(guess_col(grid, x), col_clues[x])
}

/// The active gameplay mode: the puzzle being played, the mutable guess
/// grid, cursor, drag state, per-line completion memos, and the play clock.
/// Rendering state lives with the embedding program, which reads the fields
/// it draws from.
#[derive(Debug)]
pub struct GamePuzzleScene {
    pub cursor: (usize, usize),
    pub puzzle_size: PuzzleSize,
    pub next_input_frame: u8,
    pub puzzle: Puzzle,
    pub guesses: Vec<Vec<Guess>>,
    pub drag_mode: Option<(Guess, Guess)>,
    pub state: GameState,
    pub game_idx: usize,
    pub show_grid: bool,
    pub music_enabled: bool,
    pub sfx_enabled: bool,
    pub clock: Clock,
    pub last_dpad: u8,
    pub row_complete: Vec<bool>,
    pub col_complete: Vec<bool>,
}

impl GamePuzzleScene {
    /// The memoized completion flags always equal the completion check run
    /// on the live grid.
    pub open spec fn memo_ok(&self) -> bool {
        memo_matches(
            grid_view(self.guesses@),
            grid_view(self.puzzle.row_clues@),
            grid_view(self.puzzle.col_clues@),
            self.row_complete@,
            self.col_complete@,
            self.puzzle.width as int,
            self.puzzle.height as int,
        )
    }

    /// A well-formed puzzle, a guess grid of the puzzle's dimensions, the
    /// cursor inside it, and memo arrays of the right lengths.
    pub open spec fn shape_ok(&self) -> bool {
        &&& self.puzzle.wf()
        &&& self.puzzle_size.spec_dimensions() == (self.puzzle.width, self.puzzle.height)
        &&& grid_wf(grid_view(self.guesses@), self.puzzle.width as int, self.puzzle.height as int)
        &&& self.cursor.0 < self.puzzle.width
        &&& self.cursor.1 < self.puzzle.height
        &&& self.row_complete@.len() == self.puzzle.height
        &&& self.col_complete@.len() == self.puzzle.width
    }

    /// A well-shaped mode whose completion memos hold the truth.
    pub open spec fn wf(&self) -> bool {
        &&& self.shape_ok()
        &&& self.memo_ok()
    }

    /// Whether row `y` currently satisfies its clue.
    pub fn is_row_complete(&self, y: usize) -> (r: bool)
        requires
            self.shape_ok(),
            y < self.puzzle.height,
        ensures
            r == line_complete_spec(grid_view(self.guesses@)[y as int], self.puzzle.row_clues@[y as int]@),
    {
        proof {
            reveal(Puzzle::wf);
            assert(grid_view(self.guesses@)[y as int] == self.guesses@[y as int]@);
        }
        line_complete(&self.guesses[y], &self.puzzle.row_clues[y])
    }

    /// Whether column `x` currently satisfies its clue.
    pub fn is_col_complete(&self, x: usize) -> (r: bool)
        requires
            self.shape_ok(),
            x < self.puzzle.width,
        ensures
            r == line_complete_spec(
                guess_col(grid_view(self.guesses@), x as int),
                self.puzzle.col_clues@[x as int]@,
            ),
    {
        proof {
            reveal(Puzzle::wf);
            assert forall|y: int| 0 <= y < self.puzzle.height implies x < (
            #[trigger] self.guesses@[y])@.len() by {
                assert(grid_view(self.guesses@)[y] == self.guesses@[y]@);
            }
        }
        let col = guess_col_cells(&self.guesses, x, self.puzzle.height);
        line_complete(&col, &self.puzzle.col_clues[x])
    }

    /// Recompute the completion memo of row `y`; reports whether it changed,
    /// so a renderer needs to redraw the row's clue glyphs only then.
    pub fn refresh_row_clue(&mut self, y: usize) -> (changed: bool)
        requires
            old(self).shape_ok(),
            y < old(self).puzzle.height,
        ensures
            final(self).row_complete@ == old(self).row_complete@.update(
                y as int,
                line_complete_spec(
                    grid_view(old(self).guesses@)[y as int],
                    old(self).puzzle.row_clues@[y as int]@,
                ),
            ),
            changed == (final(self).row_complete@[y as int] != old(self).row_complete@[y as int]),
            final(self).cursor == old(self).cursor,
            final(self).puzzle == old(self).puzzle,
            final(self).guesses == old(self).guesses,
            final(self).col_complete == old(self).col_complete,
            final(self).drag_mode == old(self).drag_mode,
            final(self).state == old(self).state,
            final(self).puzzle_size == old(self).puzzle_size,
            final(self).next_input_frame == old(self).next_input_frame,
            final(self).game_idx == old(self).game_idx,
            final(self).show_grid == old(self).show_grid,
            final(self).music_enabled == old(self).music_enabled,
            final(self).sfx_enabled == old(self).sfx_enabled,
            final(self).clock == old(self).clock,
            final(self).last_dpad == old(self).last_dpad,
    {
        let complete = self.is_row_complete(y);
        let changed = self.row_complete[y] != complete;
        if changed {
            self.row_complete.set(y, complete);
        } else {
            proof {
                assert(self.row_complete@ =~= self.row_complete@.update(
                    y as int,
                    complete,
                ));
            }
        }
        changed
    }

    /// Recompute the completion memo of column `x`; reports whether it
    /// changed.
    pub fn refresh_col_clue(&mut self, x: usize) -> (changed: bool)
        requires
            old(self).shape_ok(),
            x < old(self).puzzle.width,
        ensures
            final(self).col_complete@ == old(self).col_complete@.update(
                x as int,
                line_complete_spec(
                    guess_col(grid_view(old(self).guesses@), x as int),
                    old(self).puzzle.col_clues@[x as int]@,
                ),
            ),
            changed == (final(self).col_complete@[x as int] != old(self).col_complete@[x as int]),
            final(self).cursor == old(self).cursor,
            final(self).puzzle == old(self).puzzle,
            final(self).guesses == old(self).guesses,
            final(self).row_complete == old(self).row_complete,
            final(self).drag_mode == old(self).drag_mode,
            final(self).state == old(self).state,
            final(self).puzzle_size == old(self).puzzle_size,
            final(self).next_input_frame == old(self).next_input_frame,
            final(self).game_idx == old(self).game_idx,
            final(self).show_grid == old(self).show_grid,
            final(self).music_enabled == old(self).music_enabled,
            final(self).sfx_enabled == old(self).sfx_enabled,
            final(self).clock == old(self).clock,
            final(self).last_dpad == old(self).last_dpad,
    {
        let complete = self.is_col_complete(x);
        let changed = self.col_complete[x] != complete;
        if changed {
            self.col_complete.set(x, complete);
        } else {
            proof {
                assert(self.col_complete@ =~= self.col_complete@.update(
                    x as int,
                    complete,
                ));
            }
        }
        changed
    }

    /// The sole mutator of the guess grid. Outside a drag it begins one and
    /// writes; during a drag it writes only where the cell still holds the
    /// drag's original value. After a write the completion memos of the
    /// touched row and column are recomputed.
    pub fn set_piece(&mut self, guess: Guess)
        requires
            old(self).wf(),
        ensures
            final(self).wf(),
            (grid_view(final(self).guesses@), final(self).drag_mode) == set_cell_spec(
                grid_view(old(self).guesses@),
                old(self).drag_mode,
                old(self).cursor.0 as int,
                old(self).cursor.1 as int,
                guess,
            ),
            final(self).cursor == old(self).cursor,
            final(self).puzzle == old(self).puzzle,
            final(self).state == old(self).state,
            final(self).puzzle_size == old(self).puzzle_size,
            final(self).next_input_frame == old(self).next_input_frame,
            final(self).game_idx == old(self).game_idx,
            final(self).show_grid == old(self).show_grid,
            final(self).music_enabled == old(self).music_enabled,
            final(self).sfx_enabled == old(self).sfx_enabled,
            final(self).clock == old(self).clock,
            final(self).last_dpad == old(self).last_dpad,
    {
        let x = self.cursor.0;
        let y = self.cursor.1;
        proof {
            reveal(memo_matches);
            assert(grid_view(self.guesses@)[y as int] == self.guesses@[y as int]@);
        }
        let cell = self.guesses[y][x];
        let allowed = match self.drag_mode {
            None => true,
            Some((o, t)) => o == cell && t == guess,
        };
        if allowed {
            self.drag_mode = Some((cell, guess));
            guess_grid_set(&mut self.guesses, y, x, guess);
            proof {
                assert(grid_view(self.guesses@) =~= grid_view(old(self).guesses@).update(
                    y as int,
                    grid_view(old(self).guesses@)[y as int].update(x as int, guess),
                ));
                assert forall|j: int| 0 <= j < self.puzzle.height implies #[trigger] grid_view(
                    self.guesses@,
                )[j].len() == self.puzzle.width by {
                    assert(grid_view(self.guesses@)[j] == self.guesses@[j]@);
                }
                assert forall|j: int|
                    0 <= j < self.puzzle.height && j != y implies #[trigger] grid_view(
                    self.guesses@,
                )[j] == grid_view(old(self).guesses@)[j] by {}
                assert forall|i: int| 0 <= i < self.puzzle.width && i != x implies guess_col(
                    grid_view(self.guesses@),
                    i,
                ) =~= guess_col(grid_view(old(self).guesses@), i) by {}
            }
            let rc = self.refresh_row_clue(y);
            let cc = self.refresh_col_clue(x);
            proof {
                reveal(memo_matches);
                reveal(Puzzle::wf);
                assert forall|j: int| 0 <= j < self.puzzle.height implies grid_view(
                    self.puzzle.row_clues@,
                )[j] == (#[trigger] self.puzzle.row_clues@[j])@ by {}
                assert forall|i: int| 0 <= i < self.puzzle.width implies grid_view(
                    self.puzzle.col_clues@,
                )[i] == (#[trigger] self.puzzle.col_clues@[i])@ by {}
                assert forall|j: int| 0 <= j < self.puzzle.height implies #[trigger] self
                    .row_complete@[j] == line_complete_spec(
                    grid_view(self.guesses@)[j],
                    self.puzzle.row_clues@[j]@,
                ) by {
                    if j != y {
                        assert(self.row_complete@[j] == old(self).row_complete@[j]);
                        assert(grid_view(self.guesses@)[j] == grid_view(old(self).guesses@)[j]);
                    }
                }
                assert forall|i: int| 0 <= i < self.puzzle.width implies #[trigger] self
                    .col_complete@[i] == line_complete_spec(
                    guess_col(grid_view(self.guesses@), i),
                    self.puzzle.col_clues@[i]@,
                ) by {
                    if i != x {
                        assert(self.col_complete@[i] == old(self).col_complete@[i]);
                        assert(guess_col(grid_view(self.guesses@), i) =~= guess_col(
                            grid_view(old(self).guesses@),
                            i,
                        ));
                    }
                }
            }
        }
    }

    /// Check the grid against the solution and move to the Win state when
    /// every required cell is Filled; otherwise the state is left alone.
    #[verifier::loop_isolation(false)]
    pub fn validate(&mut self)
        requires
            old(self).wf(),
        ensures
            final(self).state == if win_spec(
                grid_view(old(self).puzzle.data@),
                grid_view(old(self).guesses@),
                old(self).puzzle.width as int,
                old(self).puzzle.height as int,
            ) {
                GameState::Win
            } else {
                old(self).state
            },
            final(self).wf(),
            final(self).cursor == old(self).cursor,
            final(self).puzzle == old(self).puzzle,
            final(self).guesses == old(self).guesses,
            final(self).drag_mode == old(self).drag_mode,
            final(self).row_complete == old(self).row_complete,
            final(self).col_complete == old(self).col_complete,
            final(self).puzzle_size == old(self).puzzle_size,
            final(self).next_input_frame == old(self).next_input_frame,
            final(self).game_idx == old(self).game_idx,
            final(self).show_grid == old(self).show_grid,
            final(self).music_enabled == old(self).music_enabled,
            final(self).sfx_enabled == old(self).sfx_enabled,
            final(self).clock == old(self).clock,
            final(self).last_dpad == old(self).last_dpad,
    {
        proof {
            reveal(Puzzle::wf);
        }
        let ghost sol = grid_view(self.puzzle.data@);
        let ghost gv = grid_view(self.guesses@);
        let width = self.puzzle.width;
        let height = self.puzzle.height;
        let mut x: usize = 0;
        while x < width
            invariant
                0 <= x <= width,
                forall|j: int, i: int|
                    0 <= j < height && 0 <= i < x && sol[j][i] != 0 ==> #[trigger] gv[j][i]
                        is Filled,
            decreases width - x,
        {
            let mut y: usize = 0;
            while y < height
                invariant
                    0 <= y <= height,
                    forall|j: int|
                        0 <= j < y && sol[j][x as int] != 0 ==> #[trigger] gv[j][x as int]
                            is Filled,
                decreases height - y,
            {
                proof {
                    assert(grid_view(self.puzzle.data@)[y as int] == self.puzzle.data@[y as int]@);
                    assert(grid_view(self.guesses@)[y as int] == self.guesses@[y as int]@);
                }
                if self.puzzle.data[y][x] > 0 && !matches!(self.guesses[y][x], Guess::Filled) {
                    return ;
                }
                y = y + 1;
            }
            x = x + 1;
        }
        self.state = GameState::Win;
    }

    /// Build the gameplay mode for one puzzle. A fresh game starts from an
    /// all-Empty grid pre-populated by the assist at the given level; a
    /// resumed game restores the saved grid verbatim. A saved grid whose
    /// dimensions do not match the puzzle marks corrupted transition data and
    /// is refused.
    #[verifier::loop_isolation(false)]
    pub fn new(
        puzzle: Puzzle,
        puzzle_size: PuzzleSize,
        game_idx: usize,
        init_game_data: Option<Vec<Vec<Guess>>>,
        grid_enabled: bool,
        music_enabled: bool,
        sfx_enabled: bool,
        help_level: HelpLevel,
    ) -> (r: Result<GamePuzzleScene, ConfigError>)
        requires
            puzzle.wf(),
            puzzle_size.spec_dimensions() == (puzzle.width, puzzle.height),
        ensures
            match r {
                Ok(s) => {
                    &&& s.wf()
                    &&& s.state is WaitingForNoInput
                    &&& s.cursor == (0usize, 0usize)
                    &&& s.drag_mode is None
                    &&& s.clock == (Clock { frames: 0u8, seconds: 0u8, minutes: 0u8 })
                    &&& s.next_input_frame == 0
                    &&& s.last_dpad == 0
                    &&& s.show_grid == grid_enabled
                    &&& s.music_enabled == music_enabled
                    &&& s.sfx_enabled == sfx_enabled
                    &&& s.game_idx == game_idx
                    &&& s.puzzle_size == puzzle_size
                    &&& s.puzzle == puzzle
                    &&& match init_game_data {
                        Some(data) => grid_view(s.guesses@) == grid_view(data@),
                        None => grid_view(s.guesses@) == crate::assist::assist_grid(
                            empty_grid(puzzle.width as int, puzzle.height as int),
                            grid_view(puzzle.row_clues@),
                            grid_view(puzzle.col_clues@),
                            help_level,
                            puzzle.width as int,
                            puzzle.height as int,
                        ),
                    }
                },
                Err(e) => {
                    &&& e == ConfigError::DimensionMismatch
                    &&& init_game_data is Some
                    &&& !grid_wf(
                        grid_view(init_game_data->Some_0@),
                        puzzle.width as int,
                        puzzle.height as int,
                    )
                },
            },
    {
        proof {
            reveal(Puzzle::wf);
        }
        let width = puzzle.width;
        let height = puzzle.height;
        let guesses: Vec<Vec<Guess>> = match init_game_data {
            Some(data) => {
                if data.len() != height {
                    proof {
                        assert(grid_view(data@).len() == data@.len());
                    }
                    return Err(ConfigError::DimensionMismatch);
                }
                let mut y: usize = 0;
                while y < height
                    invariant
                        0 <= y <= height,
                        data@.len() == height,
                        forall|j: int| 0 <= j < y ==> (#[trigger] data@[j])@.len() == width,
                    decreases height - y,
                {
                    if data[y].len() != width {
                        proof {
                            assert(grid_view(data@)[y as int] == data@[y as int]@);
                        }
                        return Err(ConfigError::DimensionMismatch);
                    }
                    y = y + 1;
                }
                proof {
                    assert forall|j: int| 0 <= j < height implies #[trigger] grid_view(
                        data@,
                    )[j].len() == width by {
                        assert(grid_view(data@)[j] == data@[j]@);
                    }
                }
                data
            },
            None => {
                let mut fresh: Vec<Vec<Guess>> = Vec::new();
                let mut y: usize = 0;
                while y < height
                    invariant
                        0 <= y <= height,
                        fresh@.len() == y,
                        forall|j: int| 0 <= j < y ==> (#[trigger] fresh@[j])@ == empty_grid(
                            width as int,
                            height as int,
                        )[j],
                    decreases height - y,
                {
                    let mut row: Vec<Guess> = Vec::new();
                    let mut x: usize = 0;
                    while x < width
                        invariant
                            0 <= x <= width,
                            row@.len() == x,
                            forall|i: int| 0 <= i < x ==> row@[i] == Guess::Empty,
                        decreases width - x,
                    {
                        row.push(Guess::Empty);
                        x = x + 1;
                    }
                    proof {
                        assert(row@ =~= empty_grid(width as int, height as int)[y as int]);
                    }
                    fresh.push(row);
                    y = y + 1;
                }
                proof {
                    assert(grid_view(fresh@) =~= empty_grid(width as int, height as int));
                    assert forall|j: int| 0 <= j < height implies (#[trigger] fresh@[j])@.len()
                        == width by {
                        assert(fresh@[j]@ == empty_grid(width as int, height as int)[j]);
                    }
                    assert(grid_wf(
                        grid_view(fresh@),
                        fresh@[0]@.len() as int,
                        fresh@.len() as int,
                    )) by {
                        assert(fresh@[0]@.len() == width);
                        assert forall|j: int| 0 <= j < height implies #[trigger] grid_view(
                            fresh@,
                        )[j].len() == width by {
                            assert(grid_view(fresh@)[j] == fresh@[j]@);
                        }
                    }
                }
                crate::assist::pre_solve(fresh, help_level, &puzzle.row_clues, &puzzle.col_clues)
            },
        };
        proof {
            assert(grid_view(guesses@).len() == guesses@.len());
            assert(guesses@.len() == height);
            assert forall|j: int| 0 <= j < height implies #[trigger] grid_view(guesses@)[j].len()
                == width by {
                assert(grid_view(guesses@)[j] == guesses@[j]@);
            }
            assert(grid_wf(grid_view(guesses@), width as int, height as int));
        }
        let mut row_complete: Vec<bool> = Vec::new();
        let mut y: usize = 0;
        while y < height
            invariant
                0 <= y <= height,
                row_complete@.len() == y,
                forall|j: int|
                    0 <= j < y ==> #[trigger] row_complete@[j] == line_complete_spec(
                        grid_view(guesses@)[j],
                        puzzle.row_clues@[j]@,
                    ),
            decreases height - y,
        {
            proof {
                assert(grid_view(guesses@)[y as int] == guesses@[y as int]@);
            }
            let c = line_complete(&guesses[y], &puzzle.row_clues[y]);
            row_complete.push(c);
            y = y + 1;
        }
        let mut col_complete: Vec<bool> = Vec::new();
        let mut x: usize = 0;
        while x < width
            invariant
                0 <= x <= width,
                col_complete@.len() == x,
                forall|i: int|
                    0 <= i < x ==> #[trigger] col_complete@[i] == line_complete_spec(
                        guess_col(grid_view(guesses@), i),
                        puzzle.col_clues@[i]@,
                    ),
            decreases width - x,
        {
            proof {
                assert forall|j: int| 0 <= j < height implies x < (
                #[trigger] guesses@[j])@.len() by {
                    assert(grid_view(guesses@)[j] == guesses@[j]@);
                }
            }
            let col = guess_col_cells(&guesses, x, height);
            let c = line_complete(&col, &puzzle.col_clues[x]);
            col_complete.push(c);
            x = x + 1;
        }
        proof {
            reveal(memo_matches);
        }
        let s = GamePuzzleScene {
            cursor: (0, 0),
            puzzle_size,
            next_input_frame: 0,
            puzzle,
            guesses,
            drag_mode: None,
            state: GameState::WaitingForNoInput,
            game_idx,
            show_grid: grid_enabled,
            music_enabled,
            sfx_enabled,
            clock: Clock::new(),
            last_dpad: 0,
            row_complete,
            col_complete,
        };
        Ok(s)
    }

    /// One tick of the gameplay mode. The clock always advances. Waiting for
    /// release moves to Playing once the confirm buttons are seen released.
    /// A won game immediately yields the Win transition. While playing, the
    /// tick paints under the cursor, honors one held direction with the fixed
    /// repeat delay, continues an active drag over the cell moved onto,
    /// toggles the grid overlay, yields the pause transition carrying the
    /// grid, clears a released drag, and runs the win check.
    /// The input phase of one Playing tick: repeat-delay bookkeeping, the
    /// paint under the cursor, cursor movement, and drag painting.
    #[verifier::rlimit(100)]
    fn playing_input(&mut self, buttons: &Buttons) -> (moved: bool)
        requires
            old(self).wf(),
            old(self).state is Playing,
        ensures
            ({
                let m = playing_mid(*old(self), *buttons);
                &&& grid_view(final(self).guesses@) == m.0
                &&& final(self).drag_mode == m.1
                &&& final(self).cursor == m.2
                &&& final(self).next_input_frame == m.3
                &&& moved == m.4
            }),
            final(self).last_dpad == dpad_bits(*buttons),
            final(self).wf(),
            final(self).state == old(self).state,
            final(self).show_grid == old(self).show_grid,
            final(self).clock == old(self).clock,
            final(self).puzzle == old(self).puzzle,
            final(self).puzzle_size == old(self).puzzle_size,
            final(self).game_idx == old(self).game_idx,
            final(self).music_enabled == old(self).music_enabled,
            final(self).sfx_enabled == old(self).sfx_enabled,
    {
        let ghost s = *old(self);
        let ghost g0 = grid_view(s.guesses@);
        let dpad: u8 = (if buttons.up {
            1u8
        } else {
            0u8
        }) + (if buttons.down {
            2u8
        } else {
            0u8
        }) + (if buttons.left {
            4u8
        } else {
            0u8
        }) + (if buttons.right {
            8u8
        } else {
            0u8
        });
        proof {
            assert(dpad == dpad_bits(*buttons));
        }
        let ghost nif0: u8 = if dpad_bits(*buttons) != s.last_dpad {
            0u8
        } else {
            s.next_input_frame
        };
        if dpad != self.last_dpad {
            self.next_input_frame = 0;
            self.last_dpad = dpad;
        }
        proof {
            assert(self.next_input_frame == nif0);
            assert(self.last_dpad == dpad_bits(*buttons));
        }
        let a_down = buttons.a;
        let b_down = buttons.b;
        let ghost cx = s.cursor.0 as int;
        let ghost cy = s.cursor.1 as int;
        let ghost tgt = toggle_target(g0[cy][cx], buttons.a, buttons.b);
        let ghost p1 = if s.drag_mode is None && tgt is Some {
            set_cell_spec(g0, Option::<(Guess, Guess)>::None, cx, cy, tgt->0)
        } else {
            (g0, s.drag_mode)
        };
        if matches!(self.drag_mode, None) {
            proof {
                assert(grid_view(self.guesses@)[self.cursor.1 as int]
                    == self.guesses@[self.cursor.1 as int]@);
            }
            if a_down {
                let cell = self.guesses[self.cursor.1][self.cursor.0];
                proof {
                    assert(cell == g0[cy][cx]);
                }
                if matches!(cell, Guess::Filled) {
                    self.set_piece(Guess::Empty);
                } else {
                    self.set_piece(Guess::Filled);
                }
            } else if b_down {
                let cell = self.guesses[self.cursor.1][self.cursor.0];
                proof {
                    assert(cell == g0[cy][cx]);
                }
                if matches!(cell, Guess::Marked) {
                    self.set_piece(Guess::Empty);
                } else {
                    self.set_piece(Guess::Marked);
                }
            }
        }
        proof {
            assert(grid_view(self.guesses@) == p1.0);
            assert(self.drag_mode == p1.1);
            assert(self.wf());
            assert(self.cursor == s.cursor);
        }
        let ghost can = dpad_bits(*buttons) != 0 && nif0 == 0;
        let ghost mv = if can {
            match dir_from_held(*buttons) {
                Some(d) => move_cursor_spec(
                    s.cursor,
                    d,
                    (s.puzzle.width, s.puzzle.height),
                    p1.1 is None,
                ),
                None => s.cursor,
            }
        } else {
            s.cursor
        };
        let ghost nif1: u8 = if dpad_bits(*buttons) == 0 {
            0u8
        } else if nif0 == 0 {
            if can && mv != s.cursor {
                INPUT_DELAY
            } else {
                0u8
            }
        } else {
            (nif0 - 1) as u8
        };
        let mut moved = false;
        if dpad != 0 {
            if self.next_input_frame == 0 {
                let dir = Direction::from_input(buttons);
                let wrap = matches!(self.drag_mode, None);
                moved = calc_cursor_position(
                    dir,
                    &mut self.cursor,
                    (self.puzzle.width, self.puzzle.height),
                    wrap,
                );
                if moved {
                    self.next_input_frame = INPUT_DELAY;
                }
            } else {
                self.next_input_frame = self.next_input_frame - 1;
            }
        } else {
            self.next_input_frame = 0;
        }
        proof {
            assert(self.cursor == mv);
            assert(moved == (can && mv != s.cursor));
            assert(self.next_input_frame == nif1);
        }
        let ghost p2 = match p1.1 {
            Some((o, t)) => if can && mv != s.cursor {
                set_cell_spec(p1.0, p1.1, mv.0 as int, mv.1 as int, t)
            } else {
                p1
            },
            None => p1,
        };
        if moved {
            if let Some((_, target)) = self.drag_mode {
                self.set_piece(target);
            }
        }
        proof {
            assert(grid_view(self.guesses@) == p2.0);
            assert(self.drag_mode == p2.1);
            assert(self.wf());
            assert((p2.0, p2.1, mv, nif1, moved) == playing_mid(s, *buttons));
        }
        moved
    }

    /// One Playing tick; the clock has already advanced.
    #[verifier::rlimit(100)]
    #[verifier::spinoff_prover]
    fn playing_update(&mut self, buttons: &Buttons) -> (r: (Option<SceneAction>, Option<Sfx>))
        requires
            old(self).wf(),
            old(self).state is Playing,
        ensures
            playing_post(*old(self), *final(self), *buttons, r),
            final(self).clock == old(self).clock,
            final(self).puzzle == old(self).puzzle,
            final(self).puzzle_size == old(self).puzzle_size,
            final(self).game_idx == old(self).game_idx,
            final(self).music_enabled == old(self).music_enabled,
            final(self).sfx_enabled == old(self).sfx_enabled,
    {
        let ghost s = *old(self);
        let moved = self.playing_input(buttons);
        let a_down = buttons.a;
        let b_down = buttons.b;
        if buttons.select_just {
            self.show_grid = !self.show_grid;
        }
        let sfx = if moved && self.sfx_enabled {
            Some(Sfx::Cursor)
        } else {
            None
        };
        if buttons.start_just {
            let mut taken: Vec<Vec<Guess>> = Vec::new();
            taken.push(Vec::new());
            core::mem::swap(&mut taken, &mut self.guesses);
            proof {
                assert(grid_view(taken@) == playing_mid(s, *buttons).0);
                assert(grid_view(self.guesses@) =~= seq![Seq::<Guess>::empty()]);
            }
            let r = (
                Some(
                    SceneAction::PauseMenu(
                        self.puzzle_size,
                        self.game_idx,
                        self.show_grid,
                        taken,
                    ),
                ),
                sfx,
            );
            proof {
                assert(playing_post(s, *self, *buttons, r)) by {
                    reveal(playing_post);
                }
            }
            return r;
        }
        if !a_down && !b_down {
            self.drag_mode = None;
        }
        self.validate();
        let r = (None, sfx);
        proof {
            assert(playing_post(s, *self, *buttons, r)) by {
                reveal(playing_post);
            }
        }
        r
    }

    pub fn update(&mut self, buttons: &Buttons) -> (r: (Option<SceneAction>, Option<Sfx>))
        requires
            old(self).wf(),
        ensures
            final(self).clock == clock_inc_spec(old(self).clock),
            final(self).puzzle == old(self).puzzle,
            final(self).puzzle_size == old(self).puzzle_size,
            final(self).game_idx == old(self).game_idx,
            final(self).music_enabled == old(self).music_enabled,
            final(self).sfx_enabled == old(self).sfx_enabled,
            old(self).state is WaitingForNoInput ==> {
                &&& final(self).state == (if buttons.released_ab {
                    GameState::Playing
                } else {
                    GameState::WaitingForNoInput
                })
                &&& r.0 is None
                &&& r.1 is None
                &&& final(self).guesses == old(self).guesses
                &&& final(self).cursor == old(self).cursor
                &&& final(self).drag_mode == old(self).drag_mode
                &&& final(self).wf()
            },
            old(self).state is Win ==> {
                &&& r.0 == Some(
                    SceneAction::Win(old(self).puzzle_size, old(self).game_idx, old(self).show_grid),
                )
                &&& r.1 is None
                &&& final(self).state is Win
                &&& final(self).guesses == old(self).guesses
                &&& final(self).wf()
            },
            old(self).state is Playing ==> playing_post(
                *old(self),
                *final(self),
                *buttons,
                r,
            ),
    {
        self.clock.inc();
        match self.state {
            GameState::WaitingForNoInput => {
                if buttons.released_ab {
                    self.state = GameState::Playing;
                }
                (None, None)
            },
            GameState::Win => {
                (Some(SceneAction::Win(self.puzzle_size, self.game_idx, self.show_grid)), None)
            },
            GameState::Playing => {
                let ghost ticked = *self;
                let r = self.playing_update(buttons);
                proof {
                    lemma_playing_post_clock(ticked, *old(self), *self, *buttons, r);
                }
                r
            },
        }
    }
}

} // verus!
