//! The supported board shapes, the immutable puzzle definition, and the
//! batches of puzzles parsed from packed source data.

use vstd::prelude::*;
use crate::calc::{
    Clues, cell_seq, clue_runs_fit, clues_of, col_cells, col_seq, compute_all_clues, grid_view,
    grid_wf, pad_clue, parse_grids, parsed_grids, row_cells, runs_of, bool_runs,
};

verus! {

/// The largest board height any supported size uses.
pub const MAX_ROWS: usize = 12;
/// The largest board width any supported size uses.
pub const MAX_COLS: usize = 22;

/// The fixed set of supported board shapes.
#[derive(Debug, Copy, Clone, Eq, PartialEq, Hash, Structural)]
pub enum PuzzleSize {
    _6x6,
    _8x8,
    _10x10,
    _12x12,
    _20x10,
    _22x12,
}

/// A configuration fault in supplied puzzle or save data; these are fatal for
/// the embedding program, never recoverable mid-game.
#[derive(Debug, Copy, Clone, Eq, PartialEq, Structural)]
pub enum ConfigError {
    /// A solution line decomposes into more runs than a clue line can hold.
    ClueOverflow,
    /// A resumed guess grid does not match the puzzle's dimensions.
    DimensionMismatch,
}

impl PuzzleSize {
    /// The position of this size in fixed per-size tables.
    pub open spec fn spec_size_index(self) -> usize {
        match self {
            PuzzleSize::_6x6 => 0usize,
            PuzzleSize::_8x8 => 1usize,
            PuzzleSize::_10x10 => 2usize,
            PuzzleSize::_12x12 => 3usize,
            PuzzleSize::_20x10 => 4usize,
            PuzzleSize::_22x12 => 5usize,
        }
    }

    /// The position of this size in fixed per-size tables.
    #[verifier::when_used_as_spec(spec_size_index)]
    pub fn size_index(self) -> (r: usize)
        ensures
            r == self.spec_size_index(),
            r < 6,
    {
        match self {
            PuzzleSize::_6x6 => 0,
            PuzzleSize::_8x8 => 1,
            PuzzleSize::_10x10 => 2,
            PuzzleSize::_12x12 => 3,
            PuzzleSize::_20x10 => 4,
            PuzzleSize::_22x12 => 5,
        }
    }

    /// Where this size's per-puzzle completion flags begin in the save record.
    pub open spec fn spec_save_idx(self) -> usize {
        match self {
            PuzzleSize::_6x6 => 0usize,
            PuzzleSize::_8x8 => 21usize,
            PuzzleSize::_10x10 => 42usize,
            PuzzleSize::_12x12 => 63usize,
            PuzzleSize::_20x10 => 84usize,
            PuzzleSize::_22x12 => 96usize,
        }
    }

    /// Where this size's per-puzzle completion flags begin in the save record.
    #[verifier::when_used_as_spec(spec_save_idx)]
    pub fn save_idx(self) -> (r: usize)
        ensures
            r == self.spec_save_idx(),
    {
        match self {
            PuzzleSize::_6x6 => 0,
            PuzzleSize::_8x8 => 21,
            PuzzleSize::_10x10 => 42,
            PuzzleSize::_12x12 => 63,
            PuzzleSize::_20x10 => 84,
            PuzzleSize::_22x12 => 96,
        }
    }

    /// Whether this size's preview image is scaled down in the menu.
    pub fn scale_in_menu(self) -> (r: bool)
        ensures
            r == (self is _6x6 || self is _8x8),
    {
        matches!(self, PuzzleSize::_6x6 | PuzzleSize::_8x8)
    }

    /// How many puzzles ship for this size.
    pub open spec fn spec_game_count(self) -> usize {
        if self is _20x10 || self is _22x12 {
            12usize
        } else {
            21usize
        }
    }

    /// How many puzzles ship for this size.
    #[verifier::when_used_as_spec(spec_game_count)]
    pub fn game_count(self) -> (r: usize)
        ensures
            r == self.spec_game_count(),
    {
        match self {
            PuzzleSize::_12x12 | PuzzleSize::_10x10 | PuzzleSize::_8x8 | PuzzleSize::_6x6 => 21,
            PuzzleSize::_20x10 | PuzzleSize::_22x12 => 12,
        }
    }

    /// The board's `(width, height)` in cells.
    pub open spec fn spec_dimensions(self) -> (usize, usize) {
        match self {
            PuzzleSize::_6x6 => (6usize, 6usize),
            PuzzleSize::_8x8 => (8usize, 8usize),
            PuzzleSize::_10x10 => (10usize, 10usize),
            PuzzleSize::_12x12 => (12usize, 12usize),
            PuzzleSize::_20x10 => (20usize, 10usize),
            PuzzleSize::_22x12 => (22usize, 12usize),
        }
    }

    /// The board's `(width, height)` in cells.
    #[verifier::when_used_as_spec(spec_dimensions)]
    pub fn dimensions(self) -> (r: (usize, usize))
        ensures
            r == self.spec_dimensions(),
            1 <= r.0 <= MAX_COLS,
            1 <= r.1 <= MAX_ROWS,
    {
        match self {
            PuzzleSize::_6x6 => (6, 6),
            PuzzleSize::_8x8 => (8, 8),
            PuzzleSize::_10x10 => (10, 10),
            PuzzleSize::_12x12 => (12, 12),
            PuzzleSize::_20x10 => (20, 10),
            PuzzleSize::_22x12 => (22, 12),
        }
    }

    /// The tile positions of this size's puzzle-menu buttons, one row of the
    /// table per menu row.
    pub fn buttons(self) -> (r: Vec<Vec<(u8, u8)>>)
        ensures
            r@.map_values(|row: Vec<(u8, u8)>| row@) == buttons_spec(self),
    {
        let mut r: Vec<Vec<(u8, u8)>> = Vec::new();
        if matches!(self, PuzzleSize::_20x10 | PuzzleSize::_22x12) {
            let mut row0: Vec<(u8, u8)> = Vec::new();
            row0.push((1, 5));
            row0.push((8, 5));
            row0.push((16, 5));
            row0.push((23, 5));
            let mut row1: Vec<(u8, u8)> = Vec::new();
            row1.push((1, 10));
            row1.push((8, 10));
            row1.push((16, 10));
            row1.push((23, 10));
            let mut row2: Vec<(u8, u8)> = Vec::new();
            row2.push((1, 15));
            row2.push((8, 15));
            row2.push((16, 15));
            row2.push((23, 15));
            proof {
                assert(row0@ =~= buttons_spec(self)[0]);
                assert(row1@ =~= buttons_spec(self)[1]);
                assert(row2@ =~= buttons_spec(self)[2]);
            }
            r.push(row0);
            r.push(row1);
            r.push(row2);
        } else {
            let mut row0: Vec<(u8, u8)> = Vec::new();
            row0.push((1, 5));
            row0.push((5, 5));
            row0.push((9, 5));
            row0.push((13, 5));
            row0.push((17, 5));
            row0.push((21, 5));
            row0.push((25, 5));
            let mut row1: Vec<(u8, u8)> = Vec::new();
            row1.push((1, 10));
            row1.push((5, 10));
            row1.push((9, 10));
            row1.push((13, 10));
            row1.push((17, 10));
            row1.push((21, 10));
            row1.push((25, 10));
            let mut row2: Vec<(u8, u8)> = Vec::new();
            row2.push((1, 15));
            row2.push((5, 15));
            row2.push((9, 15));
            row2.push((13, 15));
            row2.push((17, 15));
            row2.push((21, 15));
            row2.push((25, 15));
            proof {
                assert(row0@ =~= buttons_spec(self)[0]);
                assert(row1@ =~= buttons_spec(self)[1]);
                assert(row2@ =~= buttons_spec(self)[2]);
            }
            r.push(row0);
            r.push(row1);
            r.push(row2);
        }
        proof {
            assert(r@.map_values(|row: Vec<(u8, u8)>| row@) =~= buttons_spec(self));
        }
        r
    }

    /// The tile size of one puzzle-menu button.
    pub fn button_size(self) -> (r: (u8, u8))
        ensures
            r == if self is _20x10 || self is _22x12 {
                (5u8, 3u8)
            } else {
                (3u8, 3u8)
            },
    {
        match self {
            PuzzleSize::_12x12 | PuzzleSize::_10x10 | PuzzleSize::_8x8 | PuzzleSize::_6x6 => (3, 3),
            PuzzleSize::_20x10 | PuzzleSize::_22x12 => (5, 3),
        }
    }
}

/// The menu-button layout of a size: three rows of seven buttons for the
/// square boards, three rows of four for the wide ones.
pub open spec fn buttons_spec(size: PuzzleSize) -> Seq<Seq<(u8, u8)>> {
    if size is _20x10 || size is _22x12 {
        seq![
            seq![(1u8, 5u8), (8u8, 5u8), (16u8, 5u8), (23u8, 5u8)],
            seq![(1u8, 10u8), (8u8, 10u8), (16u8, 10u8), (23u8, 10u8)],
            seq![(1u8, 15u8), (8u8, 15u8), (16u8, 15u8), (23u8, 15u8)],
        ]
    } else {
        seq![
            seq![
                (1u8, 5u8),
                (5u8, 5u8),
                (9u8, 5u8),
                (13u8, 5u8),
                (17u8, 5u8),
                (21u8, 5u8),
                (25u8, 5u8),
            ],
            seq![
                (1u8, 10u8),
                (5u8, 10u8),
                (9u8, 10u8),
                (13u8, 10u8),
                (17u8, 10u8),
                (21u8, 10u8),
                (25u8, 10u8),
            ],
            seq![
                (1u8, 15u8),
                (5u8, 15u8),
                (9u8, 15u8),
                (13u8, 15u8),
                (17u8, 15u8),
                (21u8, 15u8),
                (25u8, 15u8),
            ],
        ]
    }
}

/// One concrete puzzle: its solution grid, both precomputed clue tables, and
/// its dimensions. Immutable once created.
#[derive(Debug)]
pub struct Puzzle {
    pub data: Vec<Vec<u8>>,
    pub row_clues: Vec<Vec<u8>>,
    pub col_clues: Vec<Vec<u8>>,
    pub width: usize,
    pub height: usize,
}

impl Puzzle {
    /// Dimensions within bounds, a rectangular solution grid, and clue tables
    /// that are exactly the zero-padded run decompositions of the solution.
    #[verifier::opaque]
    pub open spec fn wf(&self) -> bool {
        &&& 1 <= self.width <= MAX_COLS
        &&& 1 <= self.height <= MAX_ROWS
        &&& grid_wf(grid_view(self.data@), self.width as int, self.height as int)
        &&& clue_runs_fit(grid_view(self.data@), self.width as int, self.height as int)
        &&& self.row_clues@.len() == self.height
        &&& forall|y: int|
            0 <= y < self.height ==> (#[trigger] self.row_clues@[y])@ == pad_clue(
                runs_of(cell_seq(grid_view(self.data@)[y])),
                8,
            )
        &&& self.col_clues@.len() == self.width
        &&& forall|x: int|
            0 <= x < self.width ==> (#[trigger] self.col_clues@[x])@ == pad_clue(
                runs_of(col_seq(grid_view(self.data@), x, self.height as int)),
                8,
            )
    }
}

/// Copy a byte row.
fn clone_bytes(v: &Vec<u8>) -> (r: Vec<u8>)
    ensures
        r@ == v@,
{
    let r = v.clone();
    proof {
        assert(r@ =~= v@);
    }
    r
}

/// Copy a byte grid.
fn clone_byte_grid(g: &Vec<Vec<u8>>) -> (r: Vec<Vec<u8>>)
    ensures
        grid_view(r@) == grid_view(g@),
        r@.len() == g@.len(),
{
    let mut r: Vec<Vec<u8>> = Vec::new();
    let mut i: usize = 0;
    while i < g.len()
        invariant
            0 <= i <= g@.len(),
            r@.len() == i,
            forall|j: int| 0 <= j < i ==> (#[trigger] r@[j])@ == g@[j]@,
        decreases g@.len() - i,
    {
        let row = clone_bytes(&g[i]);
        r.push(row);
        i = i + 1;
    }
    proof {
        assert(grid_view(r@) =~= grid_view(g@));
    }
    r
}

/// A batch of puzzles of one size, parsed from packed source data, with every
/// clue table derived up front.
#[derive(Debug)]
pub struct PuzzleSet {
    pub grids: Vec<Vec<Vec<u8>>>,
    pub clues: Vec<Clues>,
    pub width: usize,
    pub height: usize,
}

impl PuzzleSet {
    /// Every grid is rectangular with in-bound dimensions and every clue
    /// table matches its grid.
    pub open spec fn wf(&self) -> bool {
        &&& 1 <= self.width <= MAX_COLS
        &&& 1 <= self.height <= MAX_ROWS
        &&& self.clues@.len() == self.grids@.len()
        &&& forall|p: int|
            0 <= p < self.grids@.len() ==> grid_wf(
                grid_view((#[trigger] self.grids@[p])@),
                self.width as int,
                self.height as int,
            )
        &&& forall|p: int|
            0 <= p < self.grids@.len() ==> clue_runs_fit(
                grid_view((#[trigger] self.grids@[p])@),
                self.width as int,
                self.height as int,
            )
        &&& forall|p: int|
            0 <= p < self.grids@.len() ==> clues_of(
                #[trigger] self.clues@[p],
                grid_view(self.grids@[p]@),
                self.width as int,
                self.height as int,
            )
    }

    /// Parse `n` puzzles from a packed byte stream and derive their clues.
    /// Fails iff some line of some parsed grid decomposes into more runs than
    /// a clue line can carry, which marks the supplied data as malformed.
    pub fn new(bytes: &Vec<u8>, width: usize, height: usize, n: usize) -> (r: Result<
        PuzzleSet,
        ConfigError,
    >)
        requires
            1 <= width <= MAX_COLS,
            1 <= height <= MAX_ROWS,
        ensures
            match r {
                Ok(set) => {
                    &&& set.wf()
                    &&& set.width == width
                    &&& set.height == height
                    &&& set.grids@.len() == n
                    &&& parsed_grids(set.grids@, bytes@, width as int, height as int, n as int)
                },
                Err(e) => {
                    &&& e == ConfigError::ClueOverflow
                    &&& exists|p: int|
                        0 <= p < n && !clue_runs_fit(
                            grid_view(
                                (#[trigger] choose_parsed(bytes@, width, height, n)[p])@,
                            ),
                            width as int,
                            height as int,
                        )
                },
            },
    {
        let grids = parse_grids(bytes, width, height, n);
        let mut p: usize = 0;
        while p < n
            invariant
                0 <= p <= n,
                grids@.len() == n,
                1 <= width <= MAX_COLS,
                1 <= height <= MAX_ROWS,
                parsed_grids(grids@, bytes@, width as int, height as int, n as int),
                forall|q: int|
                    0 <= q < p ==> clue_runs_fit(
                        grid_view((#[trigger] grids@[q])@),
                        width as int,
                        height as int,
                    ),
            decreases n - p,
        {
            if !grid_runs_fit(&grids[p], width, height) {
                proof {
                    lemma_choose_parsed(grids@, bytes@, width, height, n);
                    let c = choose_parsed(bytes@, width, height, n);
                    assert(grid_view(c[p as int]@) =~~= grid_view(grids@[p as int]@));
                    assert(!clue_runs_fit(
                        grid_view(c[p as int]@),
                        width as int,
                        height as int,
                    ));
                }
                return Err(ConfigError::ClueOverflow);
            }
            p = p + 1;
        }
        let clues = compute_all_clues(&grids, width, height);
        Ok(PuzzleSet { grids, clues, width, height })
    }

    /// How many puzzles the set holds.
    pub fn game_count(&self) -> (r: usize)
        ensures
            r == self.grids@.len(),
    {
        self.grids.len()
    }

    /// The puzzle at `idx`, as an owned immutable definition.
    pub fn game(&self, idx: usize) -> (r: Puzzle)
        requires
            self.wf(),
            idx < self.grids@.len(),
        ensures
            r.wf(),
            r.width == self.width,
            r.height == self.height,
            grid_view(r.data@) == grid_view(self.grids@[idx as int]@),
    {
        let data = clone_byte_grid(&self.grids[idx]);
        let row_clues = clone_byte_grid(&self.clues[idx].rows);
        let col_clues = clone_byte_grid(&self.clues[idx].cols);
        proof {
            reveal(Puzzle::wf);
            assert forall|y: int| 0 <= y < self.height implies (#[trigger] row_clues@[y])@
                == pad_clue(runs_of(cell_seq(grid_view(data@)[y])), 8) by {
                assert(row_clues@[y]@ == grid_view(row_clues@)[y]);
                assert(grid_view(row_clues@)[y] == grid_view(self.clues@[idx as int].rows@)[y]);
                assert(self.clues@[idx as int].rows@[y]@ == pad_clue(
                    runs_of(cell_seq(grid_view(self.grids@[idx as int]@)[y])),
                    8,
                ));
            }
            assert forall|x: int| 0 <= x < self.width implies (#[trigger] col_clues@[x])@
                == pad_clue(runs_of(col_seq(grid_view(data@), x, self.height as int)), 8) by {
                assert(col_clues@[x]@ == grid_view(col_clues@)[x]);
                assert(grid_view(col_clues@)[x] == grid_view(self.clues@[idx as int].cols@)[x]);
                assert(self.clues@[idx as int].cols@[x]@ == pad_clue(
                    runs_of(col_seq(grid_view(self.grids@[idx as int]@), x, self.height as int)),
                    8,
                ));
            }
        }
        Puzzle { data, row_clues, col_clues, width: self.width, height: self.height }
    }
}

/// The grids that `parse_grids` yields for these arguments; parsing is
/// deterministic, so any parse of the same bytes gives the same grids.
pub open spec fn choose_parsed(bytes: Seq<u8>, width: usize, height: usize, n: usize) -> Seq<
    Vec<Vec<u8>>,
> {
    choose|g: Seq<Vec<Vec<u8>>>|
        parsed_grids(g, bytes, width as int, height as int, n as int)
}

/// Any two parses of the same bytes agree cell for cell, so a run overflow in
/// one parse is a run overflow in the chosen one.
proof fn lemma_choose_parsed(g: Seq<Vec<Vec<u8>>>, bytes: Seq<u8>, width: usize, height: usize, n: usize)
    requires
        parsed_grids(g, bytes, width as int, height as int, n as int),
    ensures
        forall|p: int|
            0 <= p < n ==> grid_view((#[trigger] choose_parsed(bytes, width, height, n)[p])@)
                =~~= grid_view(g[p]@),
{
    let c = choose_parsed(bytes, width, height, n);
    assert(parsed_grids(c, bytes, width as int, height as int, n as int));
    assert forall|p: int| 0 <= p < n implies grid_view((#[trigger] c[p])@) =~~= grid_view(g[p]@)
        by {
        assert(grid_wf(grid_view(c[p]@), width as int, height as int));
        assert(grid_wf(grid_view(g[p]@), width as int, height as int));
        assert forall|y: int, x: int|
            0 <= y < height && 0 <= x < width implies grid_view(c[p]@)[y][x] == grid_view(
            g[p]@,
        )[y][x] by {
            assert(grid_view(c[p]@)[y][x] == crate::calc::parsed_cell(
                bytes,
                p,
                y,
                x,
                width as int,
                height as int,
            ));
            assert(grid_view(g[p]@)[y][x] == crate::calc::parsed_cell(
                bytes,
                p,
                y,
                x,
                width as int,
                height as int,
            ));
        }
    }
}

/// Whether every row and column of one grid fits in a clue line.
fn grid_runs_fit(grid: &Vec<Vec<u8>>, width: usize, height: usize) -> (r: bool)
    requires
        grid_wf(grid_view(grid@), width as int, height as int),
    ensures
        r == clue_runs_fit(grid_view(grid@), width as int, height as int),
{
    let ghost gv = grid_view(grid@);
    let mut y: usize = 0;
    while y < height
        invariant
            0 <= y <= height,
            gv == grid_view(grid@),
            grid_wf(gv, width as int, height as int),
            forall|j: int| 0 <= j < y ==> (#[trigger] runs_of(cell_seq(gv[j]))).len() <= 8,
        decreases height - y,
    {
        let cells = row_cells(grid, y, width);
        let runs = bool_runs(&cells);
        if runs.len() > 8 {
            proof {
                let m = runs@.map_values(|v: usize| v as int);
                assert(m.len() == runs@.len());
            }
            return false;
        }
        proof {
            let m = runs@.map_values(|v: usize| v as int);
            assert(m.len() == runs@.len());
        }
        y = y + 1;
    }
    let mut x: usize = 0;
    while x < width
        invariant
            0 <= x <= width,
            gv == grid_view(grid@),
            grid_wf(gv, width as int, height as int),
            forall|j: int| 0 <= j < height ==> (#[trigger] runs_of(cell_seq(gv[j]))).len() <= 8,
            forall|j: int| 0 <= j < x ==> (#[trigger] runs_of(col_seq(gv, j, height as int))).len()
                <= 8,
        decreases width - x,
    {
        proof {
            assert forall|yy: int| 0 <= yy < height implies x < (#[trigger] grid@[yy])@.len() by {
                assert(gv[yy] == grid@[yy]@);
                assert(gv[yy].len() == width);
            }
        }
        let cells = col_cells(grid, x, height);
        let runs = bool_runs(&cells);
        if runs.len() > 8 {
            proof {
                let m = runs@.map_values(|v: usize| v as int);
                assert(m.len() == runs@.len());
            }
            return false;
        }
        proof {
            let m = runs@.map_values(|v: usize| v as int);
            assert(m.len() == runs@.len());
        }
        x = x + 1;
    }
    true
}

} // verus!
