//! The clue engine: run-length decomposition of a line, derivation of the
//! row/column clue tables from a solution grid, and the completion check that
//! compares a guess line against its clue.

use vstd::prelude::*;
use crate::scene_game_puzzle::Guess;

verus! {

/// Clue lines are zero-padded to this many entries.
pub const CLUES_PER_ROW: usize = 8;
/// Clue lines are zero-padded to this many entries.
pub const CLUES_PER_COL: usize = 8;

/// Which cells of a guess line count as filled.
pub open spec fn filled_seq(line: Seq<Guess>) -> Seq<bool> {
    line.map_values(|g: Guess| g is Filled)
}

/// Which cells of a solution line (nonzero = filled) count as filled.
pub open spec fn cell_seq(row: Seq<u8>) -> Seq<bool> {
    row.map_values(|b: u8| b != 0)
}

/// The left-to-right run scan, carried out from position `i` with `current`
/// filled cells accumulated and the runs `acc` already emitted.
pub open spec fn runs_rec(line: Seq<bool>, i: int, current: int, acc: Seq<int>) -> Seq<int>
    decreases line.len() - i,
{
    if i < 0 || i >= line.len() {
        if current > 0 {
            acc.push(current)
        } else {
            acc
        }
    } else if line[i] {
        runs_rec(line, i + 1, current + 1, acc)
    } else if current > 0 {
        runs_rec(line, i + 1, 0, acc.push(current))
    } else {
        runs_rec(line, i + 1, 0, acc)
    }
}

/// The maximal runs of consecutive filled cells in `line`, left to right.
pub open spec fn runs_of(line: Seq<bool>) -> Seq<int> {
    runs_rec(line, 0, 0, Seq::empty())
}

/// The scan only ever appends to the runs already emitted.
proof fn lemma_runs_rec_acc(line: Seq<bool>, i: int, current: int, acc: Seq<int>)
    ensures
        runs_rec(line, i, current, acc) == acc + runs_rec(line, i, current, Seq::empty()),
    decreases line.len() - i,
{
    let empty = Seq::<int>::empty();
    if i < 0 || i >= line.len() {
        if current > 0 {
            assert(acc.push(current) =~= acc + empty.push(current));
        } else {
            assert(acc =~= acc + empty);
        }
    } else if line[i] {
        lemma_runs_rec_acc(line, i + 1, current + 1, acc);
    } else if current > 0 {
        lemma_runs_rec_acc(line, i + 1, 0, acc.push(current));
        lemma_runs_rec_acc(line, i + 1, 0, empty.push(current));
        assert(acc.push(current) + runs_rec(line, i + 1, 0, empty) =~= acc + (empty.push(current)
            + runs_rec(line, i + 1, 0, empty)));
    } else {
        lemma_runs_rec_acc(line, i + 1, 0, acc);
    }
}

/// Every run the scan emits is at least 1 and at most `current` plus the
/// number of cells not yet scanned.
proof fn lemma_runs_rec_bounds(line: Seq<bool>, i: int, current: int)
    requires
        0 <= i <= line.len(),
        0 <= current,
    ensures
        forall|k: int|
            0 <= k < runs_rec(line, i, current, Seq::empty()).len() ==> 1 <= #[trigger] runs_rec(
                line,
                i,
                current,
                Seq::empty(),
            )[k] <= current + line.len() - i,
    decreases line.len() - i,
{
    let empty = Seq::<int>::empty();
    let r = runs_rec(line, i, current, empty);
    if i >= line.len() {
        if current > 0 {
            assert(r == empty.push(current));
            assert(r[0] == current);
        }
    } else if line[i] {
        lemma_runs_rec_bounds(line, i + 1, current + 1);
        assert(r == runs_rec(line, i + 1, current + 1, empty));
        assert forall|k: int| 0 <= k < r.len() implies 1 <= #[trigger] r[k] <= current + line.len()
            - i by {
            assert(r[k] == runs_rec(line, i + 1, current + 1, empty)[k]);
        }
    } else if current > 0 {
        lemma_runs_rec_bounds(line, i + 1, 0);
        lemma_runs_rec_acc(line, i + 1, 0, empty.push(current));
        let r0 = runs_rec(line, i + 1, 0, empty);
        let r = runs_rec(line, i, current, empty);
        assert(r == empty.push(current) + r0);
        assert forall|k: int| 0 <= k < r.len() implies 1 <= #[trigger] r[k] <= current + line.len()
            - i by {
            if k == 0 {
                assert(r[0] == current);
            } else {
                assert(r[k] == r0[k - 1]);
            }
        }
    } else {
        lemma_runs_rec_bounds(line, i + 1, 0);
        assert(r == runs_rec(line, i + 1, 0, empty));
        assert forall|k: int| 0 <= k < r.len() implies 1 <= #[trigger] r[k] <= current + line.len()
            - i by {
            assert(r[k] == runs_rec(line, i + 1, 0, empty)[k]);
        }
    }
}

/// Every run of a line is at least 1 and at most the line's length.
pub proof fn lemma_runs_of_bounds(line: Seq<bool>)
    ensures
        forall|k: int|
            0 <= k < runs_of(line).len() ==> 1 <= #[trigger] runs_of(line)[k] <= line.len(),
{
    lemma_runs_rec_bounds(line, 0, 0);
}

/// The number of leading nonzero entries of a clue line.
pub open spec fn clue_len(h: Seq<u8>) -> int
    decreases h.len(),
{
    if h.len() == 0 || h[0] == 0 {
        0
    } else {
        1 + clue_len(h.drop_first())
    }
}

pub proof fn lemma_clue_len(h: Seq<u8>)
    ensures
        0 <= clue_len(h) <= h.len(),
        forall|i: int| 0 <= i < clue_len(h) ==> h[i] != 0,
        clue_len(h) < h.len() ==> h[clue_len(h)] == 0,
    decreases h.len(),
{
    if h.len() == 0 || h[0] == 0 {
    } else {
        lemma_clue_len(h.drop_first());
        assert(forall|i: int| 1 <= i < h.len() ==> h[i] == h.drop_first()[i - 1]);
    }
}

/// The run lengths a clue line demands: its nonzero prefix, in order.
pub open spec fn expected_spec(h: Seq<u8>) -> Seq<int>
    decreases h.len(),
{
    if h.len() == 0 || h[0] == 0 {
        Seq::empty()
    } else {
        seq![h[0] as int] + expected_spec(h.drop_first())
    }
}

pub proof fn lemma_expected_spec(h: Seq<u8>)
    ensures
        expected_spec(h).len() == clue_len(h),
        forall|i: int| 0 <= i < clue_len(h) ==> expected_spec(h)[i] == h[i] as int,
    decreases h.len(),
{
    if h.len() == 0 || h[0] == 0 {
    } else {
        lemma_expected_spec(h.drop_first());
        lemma_clue_len(h.drop_first());
        assert(forall|i: int| 1 <= i < h.len() ==> h[i] == h.drop_first()[i - 1]);
    }
}

/// A guess line satisfies a clue line iff its filled runs equal the clue's
/// nonzero prefix, position for position, including count.
pub open spec fn line_matches_spec(line: Seq<Guess>, hints: Seq<u8>) -> bool {
    runs_of(filled_seq(line)) == expected_spec(hints)
}

/// The run lengths of the maximal `true` segments of `line`, left to right.
pub fn bool_runs(line: &Vec<bool>) -> (r: Vec<usize>)
    ensures
        r@.map_values(|v: usize| v as int) == runs_of(line@),
{
    let ghost fl = line@;
    let mut runs: Vec<usize> = Vec::new();
    let mut current: usize = 0;
    let mut i: usize = 0;
    proof {
        assert(runs@.map_values(|v: usize| v as int) =~= Seq::<int>::empty());
    }
    while i < line.len()
        invariant
            0 <= i <= line.len(),
            current <= i,
            fl == line@,
            runs_of(fl) == runs@.map_values(|v: usize| v as int) + runs_rec(
                fl,
                i as int,
                current as int,
                Seq::empty(),
            ),
        decreases line.len() - i,
    {
        let g = line[i];
        if g {
            current = current + 1;
        } else if current > 0 {
            proof {
                lemma_runs_rec_acc(fl, i as int + 1, 0, Seq::<int>::empty().push(current as int));
                assert((runs@.push(current)).map_values(|v: usize| v as int) =~= runs@.map_values(
                    |v: usize| v as int,
                ).push(current as int));
                assert(runs@.map_values(|v: usize| v as int).push(current as int) + runs_rec(
                    fl,
                    i as int + 1,
                    0,
                    Seq::empty(),
                ) =~= runs@.map_values(|v: usize| v as int) + (Seq::<int>::empty().push(
                    current as int,
                ) + runs_rec(fl, i as int + 1, 0, Seq::empty())));
            }
            runs.push(current);
            current = 0;
        }
        i = i + 1;
    }
    if current > 0 {
        proof {
            assert((runs@.push(current)).map_values(|v: usize| v as int) =~= runs@.map_values(
                |v: usize| v as int,
            ).push(current as int));
            assert(runs@.map_values(|v: usize| v as int).push(current as int) =~= runs@.map_values(
                |v: usize| v as int,
            ) + Seq::<int>::empty().push(current as int));
        }
        runs.push(current);
    }
    runs
}

/// The run lengths of the maximal filled segments of a guess line.
pub fn line_runs(line: &Vec<Guess>) -> (r: Vec<usize>)
    ensures
        r@.map_values(|v: usize| v as int) == runs_of(filled_seq(line@)),
{
    let mut cells: Vec<bool> = Vec::new();
    let mut i: usize = 0;
    while i < line.len()
        invariant
            0 <= i <= line.len(),
            cells@.len() == i,
            forall|j: int| 0 <= j < i ==> cells@[j] == (line@[j] is Filled),
        decreases line.len() - i,
    {
        cells.push(matches!(line[i], Guess::Filled));
        i = i + 1;
    }
    proof {
        assert(cells@ =~= filled_seq(line@));
    }
    bool_runs(&cells)
}

/// The nonzero prefix of a clue line, as plain lengths.
pub fn expected_hints(hints: &Vec<u8>) -> (r: Vec<usize>)
    ensures
        r@.map_values(|v: usize| v as int) == expected_spec(hints@),
{
    let mut r: Vec<usize> = Vec::new();
    let mut i: usize = 0;
    proof {
        assert(r@.map_values(|v: usize| v as int) =~= Seq::<int>::empty());
        lemma_clue_len(hints@);
        lemma_expected_spec(hints@);
    }
    while i < hints.len() && hints[i] != 0
        invariant
            0 <= i <= hints@.len(),
            forall|j: int| 0 <= j < i ==> hints@[j] != 0,
            i <= clue_len(hints@),
            r@.len() == i,
            forall|j: int| 0 <= j < i ==> r@[j] == hints@[j] as usize,
            0 <= clue_len(hints@) <= hints@.len(),
            forall|j: int| 0 <= j < clue_len(hints@) ==> hints@[j] != 0,
            clue_len(hints@) < hints@.len() ==> hints@[clue_len(hints@)] == 0,
        decreases hints@.len() - i,
    {
        r.push(hints[i] as usize);
        i = i + 1;
        proof {
            if i > clue_len(hints@) {
                assert(hints@[clue_len(hints@)] != 0);
                assert(false);
            }
        }
    }
    proof {
        assert(i == clue_len(hints@)) by {
            if i < clue_len(hints@) {
                assert(hints@[i as int] != 0);
                assert(false);
            }
        }
        lemma_expected_spec(hints@);
        assert(r@.map_values(|v: usize| v as int) =~= expected_spec(hints@));
    }
    r
}

/// The per-row views of a vector of vectors.
pub open spec fn grid_view<T>(g: Seq<Vec<T>>) -> Seq<Seq<T>> {
    g.map_values(|r: Vec<T>| r@)
}

/// A rectangular grid of the given dimensions.
pub open spec fn grid_wf<T>(grid: Seq<Seq<T>>, width: int, height: int) -> bool {
    grid.len() == height && (forall|y: int| 0 <= y < height ==> (#[trigger] grid[y]).len() == width)
}

/// Column `x` of a solution grid, read top to bottom, as filled flags.
pub open spec fn col_seq(grid: Seq<Seq<u8>>, x: int, height: int) -> Seq<bool> {
    Seq::new(height as nat, |y: int| grid[y][x] != 0)
}

/// The run lengths `runs`, zero-padded on the right to `n` entries.
pub open spec fn pad_clue(runs: Seq<int>, n: int) -> Seq<u8> {
    Seq::new(n as nat, |i: int| if i < runs.len() { runs[i] as u8 } else { 0u8 })
}

/// Every row and column of the grid decomposes into at most eight runs; more
/// runs than a clue line can carry is a configuration error of the supplied
/// puzzle data.
pub open spec fn clue_runs_fit(grid: Seq<Seq<u8>>, width: int, height: int) -> bool {
    &&& forall|y: int| 0 <= y < height ==> (#[trigger] runs_of(cell_seq(grid[y]))).len() <= 8
    &&& forall|x: int|
        0 <= x < width ==> (#[trigger] runs_of(col_seq(grid, x, height))).len() <= 8
}

/// `c` holds exactly the zero-padded clue tables derived from `grid`.
pub open spec fn clues_of(c: Clues, grid: Seq<Seq<u8>>, width: int, height: int) -> bool {
    &&& c.rows@.len() == height
    &&& forall|y: int|
        0 <= y < height ==> (#[trigger] c.rows@[y])@ == pad_clue(runs_of(cell_seq(grid[y])), 8)
    &&& c.cols@.len() == width
    &&& forall|x: int|
        0 <= x < width ==> (#[trigger] c.cols@[x])@ == pad_clue(
            runs_of(col_seq(grid, x, height)),
            8,
        )
}

/// The row-clue and column-clue tables of one puzzle.
#[derive(Debug)]
pub struct Clues {
    pub rows: Vec<Vec<u8>>,
    pub cols: Vec<Vec<u8>>,
}

/// One clue line: the given run lengths, zero-padded to eight entries.
fn runs_to_clue(runs: &Vec<usize>) -> (r: Vec<u8>)
    requires
        runs@.len() <= 8,
        forall|i: int| 0 <= i < runs@.len() ==> #[trigger] runs@[i] <= 255,
    ensures
        r@ == pad_clue(runs@.map_values(|v: usize| v as int), 8),
{
    let mut r: Vec<u8> = Vec::new();
    let mut i: usize = 0;
    while i < runs.len()
        invariant
            0 <= i <= runs@.len(),
            runs@.len() <= 8,
            forall|j: int| 0 <= j < runs@.len() ==> #[trigger] runs@[j] <= 255,
            r@.len() == i,
            forall|j: int| 0 <= j < i ==> r@[j] == runs@[j] as u8,
        decreases runs@.len() - i,
    {
        r.push(runs[i] as u8);
        i = i + 1;
    }
    while r.len() < 8
        invariant
            runs@.len() <= r@.len() <= 8,
            forall|j: int| 0 <= j < runs@.len() ==> r@[j] == runs@[j] as u8,
            forall|j: int| runs@.len() <= j < r@.len() ==> r@[j] == 0u8,
        decreases 8 - r@.len(),
    {
        r.push(0u8);
    }
    proof {
        assert(r@ =~= pad_clue(runs@.map_values(|v: usize| v as int), 8));
    }
    r
}

/// Row `y` of the grid as filled flags.
pub(crate) fn row_cells(grid: &Vec<Vec<u8>>, y: usize, width: usize) -> (r: Vec<bool>)
    requires
        y < grid@.len(),
        grid@[y as int]@.len() == width,
    ensures
        r@ == cell_seq(grid_view(grid@)[y as int]),
{
    let mut cells: Vec<bool> = Vec::new();
    let mut x: usize = 0;
    while x < width
        invariant
            0 <= x <= width,
            y < grid@.len(),
            grid@[y as int]@.len() == width,
            cells@.len() == x,
            forall|j: int| 0 <= j < x ==> cells@[j] == (grid@[y as int]@[j] != 0),
        decreases width - x,
    {
        cells.push(grid[y][x] != 0);
        x = x + 1;
    }
    proof {
        assert(cells@ =~= cell_seq(grid_view(grid@)[y as int]));
    }
    cells
}

/// Column `x` of the grid as filled flags.
pub(crate) fn col_cells(grid: &Vec<Vec<u8>>, x: usize, height: usize) -> (r: Vec<bool>)
    requires
        grid@.len() == height,
        forall|y: int| 0 <= y < height ==> x < (#[trigger] grid@[y])@.len(),
    ensures
        r@ == col_seq(grid_view(grid@), x as int, height as int),
{
    let mut cells: Vec<bool> = Vec::new();
    let mut y: usize = 0;
    while y < height
        invariant
            0 <= y <= height,
            grid@.len() == height,
            forall|j: int| 0 <= j < height ==> x < (#[trigger] grid@[j])@.len(),
            cells@.len() == y,
            forall|j: int| 0 <= j < y ==> cells@[j] == (grid@[j]@[x as int] != 0),
        decreases height - y,
    {
        cells.push(grid[y][x] != 0);
        y = y + 1;
    }
    proof {
        assert(cells@ =~= col_seq(grid_view(grid@), x as int, height as int));
    }
    cells
}

/// Derive the row and column clue tables from a solution grid: scan each
/// line for maximal filled runs and zero-pad the result to eight entries.
pub fn compute_clues(grid: &Vec<Vec<u8>>, width: usize, height: usize) -> (r: Clues)
    requires
        grid_wf(grid_view(grid@), width as int, height as int),
        width <= 255,
        height <= 255,
        clue_runs_fit(grid_view(grid@), width as int, height as int),
    ensures
        clues_of(r, grid_view(grid@), width as int, height as int),
{
    let ghost gv = grid_view(grid@);
    let mut rows: Vec<Vec<u8>> = Vec::new();
    let mut y: usize = 0;
    while y < height
        invariant
            0 <= y <= height,
            gv == grid_view(grid@),
            grid_wf(gv, width as int, height as int),
            width <= 255,
            clue_runs_fit(gv, width as int, height as int),
            rows@.len() == y,
            forall|j: int|
                0 <= j < y ==> (#[trigger] rows@[j])@ == pad_clue(runs_of(cell_seq(gv[j])), 8),
        decreases height - y,
    {
        let cells = row_cells(grid, y, width);
        let runs = bool_runs(&cells);
        proof {
            lemma_runs_of_bounds(cells@);
            let m = runs@.map_values(|v: usize| v as int);
            assert forall|i: int| 0 <= i < runs@.len() implies #[trigger] runs@[i] <= 255 by {
                assert(m[i] == runs@[i] as int);
                assert(1 <= m[i] <= cells@.len());
            }
        }
        let clue = runs_to_clue(&runs);
        rows.push(clue);
        y = y + 1;
    }
    let mut cols: Vec<Vec<u8>> = Vec::new();
    let mut x: usize = 0;
    while x < width
        invariant
            0 <= x <= width,
            gv == grid_view(grid@),
            grid_wf(gv, width as int, height as int),
            height <= 255,
            clue_runs_fit(gv, width as int, height as int),
            cols@.len() == x,
            forall|j: int|
                0 <= j < x ==> (#[trigger] cols@[j])@ == pad_clue(
                    runs_of(col_seq(gv, j, height as int)),
                    8,
                ),
        decreases width - x,
    {
        proof {
            assert forall|yy: int| 0 <= yy < height implies x < (#[trigger] grid@[yy])@.len() by {
                assert(gv[yy] == grid@[yy]@);
                assert(gv[yy].len() == width);
            }
        }
        let cells = col_cells(grid, x, height);
        let runs = bool_runs(&cells);
        proof {
            lemma_runs_of_bounds(cells@);
            let m = runs@.map_values(|v: usize| v as int);
            assert forall|i: int| 0 <= i < runs@.len() implies #[trigger] runs@[i] <= 255 by {
                assert(m[i] == runs@[i] as int);
                assert(1 <= m[i] <= cells@.len());
            }
        }
        let clue = runs_to_clue(&runs);
        cols.push(clue);
        x = x + 1;
    }
    Clues { rows, cols }
}

/// The cell values carried by a packed puzzle byte stream: `#` is a filled
/// cell, `_` an empty cell, and every other byte is ignored.
pub open spec fn cell_stream(bytes: Seq<u8>) -> Seq<u8>
    decreases bytes.len(),
{
    if bytes.len() == 0 {
        Seq::empty()
    } else {
        let prefix = cell_stream(bytes.drop_last());
        if bytes.last() == 35 {
            prefix.push(1u8)
        } else if bytes.last() == 95 {
            prefix.push(0u8)
        } else {
            prefix
        }
    }
}

/// Reading one more byte either keeps the cell stream or appends one cell.
proof fn lemma_cell_stream_step(b: Seq<u8>, i: int)
    requires
        0 <= i < b.len(),
    ensures
        cell_stream(b.take(i + 1)) == if b[i] == 35 {
            cell_stream(b.take(i)).push(1u8)
        } else if b[i] == 95 {
            cell_stream(b.take(i)).push(0u8)
        } else {
            cell_stream(b.take(i))
        },
{
    assert(b.take(i + 1).drop_last() =~= b.take(i));
    assert(b.take(i + 1).last() == b[i]);
}

/// The cell stream of a prefix of the bytes is a prefix of the cell stream.
proof fn lemma_cell_stream_prefix(b: Seq<u8>, i: int)
    requires
        0 <= i <= b.len(),
    ensures
        cell_stream(b.take(i)).len() <= cell_stream(b).len(),
        cell_stream(b.take(i)) == cell_stream(b).take(cell_stream(b.take(i)).len() as int),
    decreases b.len() - i,
{
    if i == b.len() {
        assert(b.take(i) =~= b);
        assert(cell_stream(b) =~= cell_stream(b).take(cell_stream(b).len() as int));
    } else {
        lemma_cell_stream_prefix(b, i + 1);
        lemma_cell_stream_step(b, i);
        let s = cell_stream(b);
        let si = cell_stream(b.take(i));
        let sj = cell_stream(b.take(i + 1));
        if b[i] == 35 || b[i] == 95 {
            assert(sj == si.push(if b[i] == 35 { 1u8 } else { 0u8 }));
            assert(sj == s.take(sj.len() as int));
            assert(si =~= sj.take(sj.len() - 1));
            assert(si =~= s.take(si.len() as int));
        }
    }
}

/// The flat, row-major position of cell `(x, y)` of puzzle `p` in the stream.
pub open spec fn flat_idx(p: int, y: int, x: int, width: int, height: int) -> int {
    p * (width * height) + y * width + x
}

/// The value cell `(x, y)` of puzzle `p` takes when `n` puzzles of the given
/// dimensions are read from `bytes`: the next cell of the stream, in row-major
/// order across puzzles, or 0 once the stream is exhausted.
pub open spec fn parsed_cell(
    bytes: Seq<u8>,
    p: int,
    y: int,
    x: int,
    width: int,
    height: int,
) -> u8 {
    let s = cell_stream(bytes);
    let i = flat_idx(p, y, x, width, height);
    if i < s.len() {
        s[i]
    } else {
        0u8
    }
}

/// A batch of `n` parsed solution grids matches the packed byte stream.
pub open spec fn parsed_grids(
    r: Seq<Vec<Vec<u8>>>,
    bytes: Seq<u8>,
    width: int,
    height: int,
    n: int,
) -> bool {
    &&& r.len() == n
    &&& forall|p: int| 0 <= p < n ==> grid_wf(grid_view((#[trigger] r[p])@), width, height)
    &&& forall|p: int, y: int, x: int|
        0 <= p < n && 0 <= y < height && 0 <= x < width ==> grid_view(r[p]@)[y][x] == parsed_cell(
            bytes,
            p,
            y,
            x,
            width,
            height,
        )
}

/// A row of `width` zero cells.
fn zero_row(width: usize) -> (r: Vec<u8>)
    ensures
        r@.len() == width,
        forall|j: int| 0 <= j < width ==> r@[j] == 0u8,
{
    let mut r: Vec<u8> = Vec::new();
    let mut i: usize = 0;
    while i < width
        invariant
            r@.len() == i,
            i <= width,
            forall|j: int| 0 <= j < i ==> r@[j] == 0u8,
        decreases width - i,
    {
        r.push(0u8);
        i = i + 1;
    }
    r
}

/// Read `n` solution grids of `width * height` cells each from a packed byte
/// stream: `#` marks a filled cell, `_` an empty one, any other byte is
/// skipped; cells are taken in row-major order, puzzle after puzzle, and any
/// cells the stream does not supply are left empty.
#[verifier::loop_isolation(false)]
pub fn parse_grids(bytes: &Vec<u8>, width: usize, height: usize, n: usize) -> (r: Vec<
    Vec<Vec<u8>>,
>)
    requires
        1 <= width,
        1 <= height,
    ensures
        parsed_grids(r@, bytes@, width as int, height as int, n as int),
{
    let ghost s = cell_stream(bytes@);
    let ghost w = width as int;
    let ghost h = height as int;
    let mut grids: Vec<Vec<Vec<u8>>> = Vec::new();
    let mut cur_grid: Vec<Vec<u8>> = Vec::new();
    let mut cur_row: Vec<u8> = Vec::new();
    let mut i: usize = 0;
    let ghost mut m: int = 0;
    while i < bytes.len() && grids.len() < n
        invariant
            0 <= i <= bytes@.len(),
            grids@.len() <= n,
            cur_grid@.len() < height,
            cur_row@.len() < width,
            grids@.len() < n || (cur_grid@.len() == 0 && cur_row@.len() == 0),
            m == flat_idx(
                grids@.len() as int,
                cur_grid@.len() as int,
                cur_row@.len() as int,
                w,
                h,
            ),
            m == cell_stream(bytes@.take(i as int)).len(),
            cell_stream(bytes@.take(i as int)) == s.take(m),
            s == cell_stream(bytes@),
            forall|p: int|
                0 <= p < grids@.len() ==> grid_wf(grid_view((#[trigger] grids@[p])@), w, h),
            forall|p: int, y: int, x: int|
                0 <= p < grids@.len() && 0 <= y < h && 0 <= x < w ==> flat_idx(p, y, x, w, h)
                    < s.len() && grid_view(grids@[p]@)[y][x] == s[flat_idx(p, y, x, w, h)],
            forall|y: int|
                0 <= y < cur_grid@.len() ==> (#[trigger] cur_grid@[y])@.len() == width,
            forall|y: int, x: int|
                0 <= y < cur_grid@.len() && 0 <= x < w ==> flat_idx(
                    grids@.len() as int,
                    y,
                    x,
                    w,
                    h,
                ) < s.len() && cur_grid@[y]@[x] == s[flat_idx(grids@.len() as int, y, x, w, h)],
            forall|x: int|
                0 <= x < cur_row@.len() ==> flat_idx(
                    grids@.len() as int,
                    cur_grid@.len() as int,
                    x,
                    w,
                    h,
                ) < s.len() && cur_row@[x] == s[flat_idx(
                    grids@.len() as int,
                    cur_grid@.len() as int,
                    x,
                    w,
                    h,
                )],
        decreases bytes@.len() - i,
    {
        let b = bytes[i];
        proof {
            lemma_cell_stream_step(bytes@, i as int);
            lemma_cell_stream_prefix(bytes@, i as int + 1);
        }
        if b == 35 || b == 95 {
            let v: u8 = if b == 35 {
                1
            } else {
                0
            };
            proof {
                assert(cell_stream(bytes@.take(i as int + 1)) == s.take(m).push(v));
                assert(s.take(m).push(v) == s.take(m + 1)) by {
                    assert(s.take(m).push(v) == cell_stream(bytes@.take(i as int + 1)));
                    assert(cell_stream(bytes@.take(i as int + 1)) == s.take(
                        cell_stream(bytes@.take(i as int + 1)).len() as int,
                    ));
                }
                assert(m < s.len());
                assert(s.take(m + 1)[m] == s[m]);
                assert(s.take(m).push(v)[m] == v);
                assert(s[m] == v);
            }
            cur_row.push(v);
            proof {
                m = m + 1;
            }
            if cur_row.len() == width {
                let finished_row = cur_row;
                cur_row = Vec::new();
                cur_grid.push(finished_row);
                proof {
                    let p = grids@.len() as int;
                    let y = cur_grid@.len() - 1;
                    assert(flat_idx(p, y, width as int, w, h) == flat_idx(p, y + 1, 0, w, h)) by {
                        assert(y * w + w == (y + 1) * w) by (nonlinear_arith);
                    }
                }
                if cur_grid.len() == height {
                    let finished_grid = cur_grid;
                    cur_grid = Vec::new();
                    grids.push(finished_grid);
                    proof {
                        let p = grids@.len() - 1;
                        assert(flat_idx(p, h, 0, w, h) == flat_idx(p + 1, 0, 0, w, h)) by {
                            assert(p * (w * h) + h * w == (p + 1) * (w * h)) by (nonlinear_arith);
                        }
                        assert(grid_wf(grid_view(grids@[p]@), w, h));
                    }
                }
            }
        }
        i = i + 1;
    }
    proof {
        if i == bytes@.len() {
            assert(bytes@.take(i as int) =~= bytes@);
            assert(m == s.len());
        }
    }
    if cur_row.len() > 0 || cur_grid.len() > 0 || grids.len() < n {
        proof {
            assert(m >= s.len() || grids@.len() == n);
        }
        while cur_row.len() < width && grids.len() < n
            invariant
                cur_row@.len() <= width,
                m >= s.len() || grids@.len() == n,
                grids@.len() <= n,
                m == flat_idx(
                    grids@.len() as int,
                    cur_grid@.len() as int,
                    cur_row@.len() as int,
                    w,
                    h,
                ),
                cur_grid@.len() < height,
                grids@.len() < n || (cur_grid@.len() == 0 && cur_row@.len() == 0),
                forall|x: int|
                    0 <= x < cur_row@.len() && flat_idx(
                        grids@.len() as int,
                        cur_grid@.len() as int,
                        x,
                        w,
                        h,
                    ) < s.len() ==> cur_row@[x] == s[flat_idx(
                        grids@.len() as int,
                        cur_grid@.len() as int,
                        x,
                        w,
                        h,
                    )],
                forall|x: int|
                    0 <= x < cur_row@.len() && flat_idx(
                        grids@.len() as int,
                        cur_grid@.len() as int,
                        x,
                        w,
                        h,
                    ) >= s.len() ==> cur_row@[x] == 0u8,
            decreases width - cur_row@.len(),
        {
            cur_row.push(0u8);
            proof {
                m = m + 1;
            }
        }
        if grids.len() < n {
            let finished_row = cur_row;
            cur_row = Vec::new();
            cur_grid.push(finished_row);
            proof {
                let p = grids@.len() as int;
                let y = cur_grid@.len() - 1;
                assert(flat_idx(p, y, width as int, w, h) == flat_idx(p, y + 1, 0, w, h)) by {
                    assert(y * w + w == (y + 1) * w) by (nonlinear_arith);
                }
            }
            while cur_grid.len() < height
                invariant
                    cur_grid@.len() <= height,
                    m >= s.len(),
                    grids@.len() < n,
                    m == flat_idx(grids@.len() as int, cur_grid@.len() as int, 0, w, h),
                    1 <= width,
                    forall|y: int|
                        0 <= y < cur_grid@.len() ==> (#[trigger] cur_grid@[y])@.len() == width,
                    forall|y: int, x: int|
                        0 <= y < cur_grid@.len() && 0 <= x < w && flat_idx(
                            grids@.len() as int,
                            y,
                            x,
                            w,
                            h,
                        ) < s.len() ==> cur_grid@[y]@[x] == s[flat_idx(
                            grids@.len() as int,
                            y,
                            x,
                            w,
                            h,
                        )],
                    forall|y: int, x: int|
                        0 <= y < cur_grid@.len() && 0 <= x < w && flat_idx(
                            grids@.len() as int,
                            y,
                            x,
                            w,
                            h,
                        ) >= s.len() ==> cur_grid@[y]@[x] == 0u8,
                decreases height - cur_grid@.len(),
            {
                let row = zero_row(width);
                cur_grid.push(row);
                proof {
                    let p = grids@.len() as int;
                    let y = cur_grid@.len() - 1;
                    assert(flat_idx(p, y, width as int, w, h) == flat_idx(p, y + 1, 0, w, h)) by {
                        assert(y * w + w == (y + 1) * w) by (nonlinear_arith);
                    }
                    m = m + w;
                }
            }
            let finished_grid = cur_grid;
            grids.push(finished_grid);
            proof {
                let p = grids@.len() - 1;
                assert(flat_idx(p, h, 0, w, h) == flat_idx(p + 1, 0, 0, w, h)) by {
                    assert(p * (w * h) + h * w == (p + 1) * (w * h)) by (nonlinear_arith);
                }
                m = flat_idx(p + 1, 0, 0, w, h);
            }
            while grids.len() < n
                invariant
                    grids@.len() <= n,
                    1 <= width,
                    1 <= height,
                    m >= s.len(),
                    m == flat_idx(grids@.len() as int, 0, 0, w, h),
                    forall|p: int|
                        0 <= p < grids@.len() ==> grid_wf(grid_view((#[trigger] grids@[p])@), w, h),
                    forall|p: int, y: int, x: int|
                        0 <= p < grids@.len() && 0 <= y < h && 0 <= x < w && flat_idx(p, y, x, w, h)
                            < s.len() ==> grid_view(grids@[p]@)[y][x] == s[flat_idx(p, y, x, w, h)],
                    forall|p: int, y: int, x: int|
                        0 <= p < grids@.len() && 0 <= y < h && 0 <= x < w && flat_idx(p, y, x, w, h)
                            >= s.len() ==> grid_view(grids@[p]@)[y][x] == 0u8,
                decreases n - grids@.len(),
            {
                let mut g: Vec<Vec<u8>> = Vec::new();
                let mut y: usize = 0;
                while y < height
                    invariant
                        g@.len() == y,
                        y <= height,
                        forall|j: int| 0 <= j < y ==> (#[trigger] g@[j])@.len() == width,
                        forall|j: int, x: int|
                            0 <= j < y && 0 <= x < width ==> g@[j]@[x] == 0u8,
                    decreases height - y,
                {
                    let row = zero_row(width);
                    g.push(row);
                    y = y + 1;
                }
                grids.push(g);
                proof {
                    let p = grids@.len() - 1;
                    assert(flat_idx(p, h, 0, w, h) == flat_idx(p + 1, 0, 0, w, h)) by {
                        assert(p * (w * h) + h * w == (p + 1) * (w * h)) by (nonlinear_arith);
                    }
                    assert(flat_idx(p, h, 0, w, h) == flat_idx(p, 0, 0, w, h) + h * w) by {
                        assert(p * (w * h) + h * w == p * (w * h) + h * w) by (nonlinear_arith);
                    }
                    m = flat_idx(p + 1, 0, 0, w, h);
                    assert(m >= flat_idx(p, 0, 0, w, h)) by {
                        assert(0 <= h * w) by (nonlinear_arith)
                            requires 0 < h && 0 < w;
                    }
                    assert forall|y: int, x: int|
                        0 <= y < h && 0 <= x < w implies flat_idx(p, y, x, w, h) >= s.len() by {
                        assert(flat_idx(p, 0, 0, w, h) <= flat_idx(p, y, x, w, h)) by {
                            assert(0 <= y * w) by (nonlinear_arith)
                                requires 0 <= y && 0 < w;
                        }
                    }
                }
            }
        }
    }
    proof {
        assert forall|p: int, y: int, x: int|
            0 <= p < n && 0 <= y < h && 0 <= x < w implies grid_view(grids@[p]@)[y][x]
            == parsed_cell(bytes@, p, y, x, w, h) by {
            if flat_idx(p, y, x, w, h) >= s.len() {
            }
        }
    }
    grids
}

/// Derive the clue tables of every puzzle in a parsed batch.
pub fn compute_all_clues(grids: &Vec<Vec<Vec<u8>>>, width: usize, height: usize) -> (r: Vec<Clues>)
    requires
        width <= 255,
        height <= 255,
        forall|p: int|
            0 <= p < grids@.len() ==> grid_wf(
                grid_view((#[trigger] grids@[p])@),
                width as int,
                height as int,
            ),
        forall|p: int|
            0 <= p < grids@.len() ==> clue_runs_fit(
                grid_view((#[trigger] grids@[p])@),
                width as int,
                height as int,
            ),
    ensures
        r@.len() == grids@.len(),
        forall|p: int|
            0 <= p < grids@.len() ==> clues_of(
                #[trigger] r@[p],
                grid_view(grids@[p]@),
                width as int,
                height as int,
            ),
{
    let mut out: Vec<Clues> = Vec::new();
    let mut i: usize = 0;
    while i < grids.len()
        invariant
            0 <= i <= grids@.len(),
            width <= 255,
            height <= 255,
            forall|p: int|
                0 <= p < grids@.len() ==> grid_wf(
                    grid_view((#[trigger] grids@[p])@),
                    width as int,
                    height as int,
                ),
            forall|p: int|
                0 <= p < grids@.len() ==> clue_runs_fit(
                    grid_view((#[trigger] grids@[p])@),
                    width as int,
                    height as int,
                ),
            out@.len() == i,
            forall|p: int|
                0 <= p < i ==> clues_of(
                    #[trigger] out@[p],
                    grid_view(grids@[p]@),
                    width as int,
                    height as int,
                ),
        decreases grids@.len() - i,
    {
        let c = compute_clues(&grids[i], width, height);
        out.push(c);
        i = i + 1;
    }
    out
}

/// A clue line that demands no filled cells at all.
pub open spec fn clue_is_empty(hints: Seq<u8>) -> bool {
    hints.len() == 0 || hints[0] == 0
}

/// Whether a guess line is reported complete: a clue whose first entry is
/// zero marks an inert line, complete unconditionally by design; any other
/// line is complete iff its filled runs equal the clue's nonzero prefix.
#[verifier::opaque]
pub open spec fn line_complete_spec(line: Seq<Guess>, hints: Seq<u8>) -> bool {
    clue_is_empty(hints) || line_matches_spec(line, hints)
}

/// Whether a guess line's filled runs equal a clue line's nonzero prefix.
pub fn line_matches_hints(line: &Vec<Guess>, hints: &Vec<u8>) -> (r: bool)
    ensures
        r == line_matches_spec(line@, hints@),
{
    let runs = line_runs(line);
    let exp = expected_hints(hints);
    let r = runs == exp;
    proof {
        let mr = runs@.map_values(|v: usize| v as int);
        let me = exp@.map_values(|v: usize| v as int);
        assert(mr.len() == runs@.len());
        assert(me.len() == exp@.len());
        if r {
            assert(runs@.len() == exp@.len());
            assert forall|j: int| 0 <= j < mr.len() implies mr[j] == me[j] by {
                assert(runs@[j] == exp@[j]);
                assert(mr[j] == runs@[j] as int);
                assert(me[j] == exp@[j] as int);
            }
            assert(mr =~= me);
        } else {
            if mr == me {
                assert(runs@.len() == exp@.len());
                assert forall|j: int| 0 <= j < runs@.len() implies runs@[j] == exp@[j] by {
                    assert(mr[j] == runs@[j] as int);
                    assert(me[j] == exp@[j] as int);
                }
                assert(runs@ =~= exp@);
                assert(false);
            }
        }
    }
    r
}

/// The completion check on one guess line.
pub fn line_complete(line: &Vec<Guess>, hints: &Vec<u8>) -> (r: bool)
    ensures
        r == line_complete_spec(line@, hints@),
{
    proof {
        reveal(line_complete_spec);
    }
    if hints.len() == 0 || hints[0] == 0 {
        true
    } else {
        line_matches_hints(line, hints)
    }
}

/// A bool line read back as guesses: filled cells become Filled, the rest
/// stay Empty.
pub open spec fn guesses_of_bools(line: Seq<bool>) -> Seq<Guess> {
    line.map_values(
        |b: bool|
            if b {
                Guess::Filled
            } else {
                Guess::Empty
            },
    )
}

/// `clue_len` is pinned down by a nonzero prefix followed by a zero.
proof fn lemma_clue_len_eq(h: Seq<u8>, k: int)
    requires
        0 <= k <= h.len(),
        forall|i: int| 0 <= i < k ==> h[i] != 0,
        k < h.len() ==> h[k] == 0,
    ensures
        clue_len(h) == k,
    decreases h.len(),
{
    if h.len() == 0 || h[0] == 0 {
        assert(k == 0) by {
            if k > 0 {
                assert(h[0] != 0);
            }
        }
    } else {
        assert(forall|i: int| 1 <= i < h.len() ==> h[i] == h.drop_first()[i - 1]);
        lemma_clue_len_eq(h.drop_first(), k - 1);
    }
}

/// Padding run lengths to a clue line and reading its nonzero prefix back
/// gives the same run lengths.
pub proof fn lemma_pad_roundtrip(runs: Seq<int>)
    requires
        runs.len() <= 8,
        forall|k: int| 0 <= k < runs.len() ==> 1 <= #[trigger] runs[k] <= 255,
    ensures
        expected_spec(pad_clue(runs, 8)) == runs,
{
    let pad = pad_clue(runs, 8);
    assert forall|i: int| 0 <= i < runs.len() implies pad[i] != 0 by {
        assert(pad[i] == runs[i] as u8);
    }
    lemma_clue_len_eq(pad, runs.len() as int);
    lemma_expected_spec(pad);
    assert forall|i: int| 0 <= i < runs.len() implies expected_spec(pad)[i] == runs[i] by {
        assert(expected_spec(pad)[i] == pad[i] as int);
        assert(pad[i] == runs[i] as u8);
        assert((runs[i] as u8) as int == runs[i]);
    }
    assert(expected_spec(pad) =~= runs);
}

/// Against the clue tables derived from a solution grid, the solution itself,
/// read back as a guess grid, reports every row and every column complete.
pub proof fn lemma_solution_matches_clues(grid: Seq<Seq<u8>>, c: Clues, width: int, height: int)
    requires
        grid_wf(grid, width, height),
        width <= 255,
        height <= 255,
        clue_runs_fit(grid, width, height),
        clues_of(c, grid, width, height),
    ensures
        forall|y: int|
            0 <= y < height ==> line_matches_spec(
                guesses_of_bools(cell_seq(#[trigger] grid[y])),
                c.rows@[y]@,
            ),
        forall|x: int|
            0 <= x < width ==> line_matches_spec(
                guesses_of_bools(#[trigger] col_seq(grid, x, height)),
                c.cols@[x]@,
            ),
{
    assert forall|y: int| 0 <= y < height implies line_matches_spec(
        guesses_of_bools(cell_seq(#[trigger] grid[y])),
        c.rows@[y]@,
    ) by {
        let cells = cell_seq(grid[y]);
        assert(filled_seq(guesses_of_bools(cells)) =~= cells);
        lemma_runs_of_bounds(cells);
        lemma_pad_roundtrip(runs_of(cells));
    }
    assert forall|x: int| 0 <= x < width implies line_matches_spec(
        guesses_of_bools(#[trigger] col_seq(grid, x, height)),
        c.cols@[x]@,
    ) by {
        let cells = col_seq(grid, x, height);
        assert(filled_seq(guesses_of_bools(cells)) =~= cells);
        lemma_runs_of_bounds(cells);
        lemma_pad_roundtrip(runs_of(cells));
    }
}

/// The run scan finds nothing in a line with no filled cells.
proof fn lemma_runs_rec_none(line: Seq<bool>, i: int)
    requires
        0 <= i <= line.len(),
        forall|j: int| i <= j < line.len() ==> !line[j],
    ensures
        runs_of(line) == runs_of(line) && runs_rec(line, i, 0, Seq::empty())
            == Seq::<int>::empty(),
    decreases line.len() - i,
{
    if i < line.len() {
        lemma_runs_rec_none(line, i + 1);
    }
}

/// An all-Empty guess line decomposes into no runs at all.
pub proof fn lemma_runs_all_empty(line: Seq<Guess>)
    requires
        forall|i: int| 0 <= i < line.len() ==> line[i] is Empty,
    ensures
        runs_of(filled_seq(line)) == Seq::<int>::empty(),
{
    let fl = filled_seq(line);
    assert(forall|j: int| 0 <= j < fl.len() ==> !fl[j]);
    lemma_runs_rec_none(fl, 0);
}

/// Against a clue whose first entry is zero, every guess line whatever is
/// reported complete: such a line is inert by design.
pub proof fn lemma_zero_clue_always_complete(line: Seq<Guess>, hints: Seq<u8>)
    requires
        clue_is_empty(hints),
    ensures
        line_complete_spec(line, hints),
{
    reveal(line_complete_spec);
}

} // verus!
