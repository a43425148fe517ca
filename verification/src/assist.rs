//! The tiered auto-solve assist: pre-populating a fresh guess grid with the
//! deductions that a single line's clue already forces.

use vstd::prelude::*;
use vstd::pervasive::VecAdditionalExecFns;
use crate::calc::expected_spec;
use crate::calc::grid_view;
use crate::calc::grid_wf;
use crate::calc::lemma_clue_len;
use crate::calc::lemma_expected_spec;
use crate::calc::clue_len;
use crate::scene_game_puzzle::Guess;
use crate::scene_game_puzzle::clone_guess_row;
use crate::scene_game_puzzle::guess_col;
use crate::scene_game_puzzle::guess_col_cells;
use crate::scene_game_puzzle::guess_grid_set;
use crate::scene_game_puzzle::set_col;
use crate::settings_data::HelpLevel;

verus! {

/// The sum of the first `k` run lengths.
pub open spec fn sum_runs(runs: Seq<int>, k: int) -> int
    decreases k,
{
    if k <= 0 {
        0
    } else {
        sum_runs(runs, k - 1) + runs[k - 1]
    }
}

/// Where run `k` begins when the runs are packed left with one separator
/// between each pair.
pub open spec fn run_start(runs: Seq<int>, k: int) -> int {
    sum_runs(runs, k) + k
}

/// The minimum space a clue needs: all runs plus one separator between each
/// pair. A line is fully forced exactly when this equals the line's length.
pub open spec fn min_space(runs: Seq<int>) -> int {
    sum_runs(runs, runs.len() as int) + runs.len() - 1
}

/// Whether cell `j` lies inside some packed run.
pub open spec fn forced_filled(runs: Seq<int>, j: int) -> bool {
    exists|k: int|
        0 <= k < runs.len() && #[trigger] run_start(runs, k) <= j < run_start(runs, k) + runs[k]
}

/// The unique layout of a fully forced line: each run in order, one Marked
/// separator between consecutive runs.
pub open spec fn forced_line(runs: Seq<int>, len: int) -> Seq<Guess> {
    Seq::new(
        len as nat,
        |j: int|
            if forced_filled(runs, j) {
                Guess::Filled
            } else {
                Guess::Marked
            },
    )
}

/// All run lengths are at least one.
pub open spec fn runs_positive(runs: Seq<int>) -> bool {
    forall|k: int| 0 <= k < runs.len() ==> #[trigger] runs[k] >= 1
}

/// Partial sums of positive runs grow at least one per run.
proof fn lemma_sum_runs_range(runs: Seq<int>, a: int, b: int)
    requires
        0 <= a <= b <= runs.len(),
        runs_positive(runs),
    ensures
        sum_runs(runs, b) - sum_runs(runs, a) >= b - a,
    decreases b - a,
{
    if a < b {
        lemma_sum_runs_range(runs, a, b - 1);
    }
}

/// Run starts are strictly ordered: each run ends before the next begins.
proof fn lemma_run_order(runs: Seq<int>, k1: int, k2: int)
    requires
        0 <= k1 < k2 < runs.len(),
        runs_positive(runs),
    ensures
        run_start(runs, k1) + runs[k1] < run_start(runs, k2) + 1,
        run_start(runs, k1) <= run_start(runs, k2),
{
    lemma_sum_runs_range(runs, k1 + 1, k2);
}

/// Every run of a forced line ends within the line's minimum space.
proof fn lemma_run_end_le(runs: Seq<int>, k: int)
    requires
        0 <= k < runs.len(),
        runs_positive(runs),
    ensures
        run_start(runs, k) + runs[k] <= min_space(runs),
        run_start(runs, k) >= k,
{
    lemma_sum_runs_range(runs, k + 1, runs.len() as int);
    lemma_sum_runs_range(runs, 0, k);
}

/// The separator cell after run `k` lies inside no run.
proof fn lemma_separator_not_filled(runs: Seq<int>, k: int)
    requires
        0 <= k < runs.len(),
        runs_positive(runs),
    ensures
        !forced_filled(runs, run_start(runs, k) + runs[k]),
{
    let j = run_start(runs, k) + runs[k];
    assert forall|l: int|
        0 <= l < runs.len() implies !(#[trigger] run_start(runs, l) <= j < run_start(runs, l)
        + runs[l]) by {
        if l < k {
            lemma_run_order(runs, l, k);
        } else if l > k {
            assert(run_start(runs, k + 1) == j + 1);
            if l > k + 1 {
                lemma_run_order(runs, k + 1, l);
            }
        }
    }
}

/// The space the whole clue needs: the sum of the nonzero prefix of the
/// clue line plus one separator per gap between runs.
pub fn hint_calc(hints: &Vec<u8>) -> (r: usize)
    requires
        hints@.len() >= 1,
        hints@.len() <= 8,
        hints@[0] != 0,
    ensures
        r == min_space(expected_spec(hints@)),
{
    let ghost runs = expected_spec(hints@);
    proof {
        lemma_clue_len(hints@);
        lemma_expected_spec(hints@);
    }
    let mut sum: usize = 0;
    let mut blocks: usize = 0;
    let mut i: usize = 0;
    #[verifier::loop_isolation(false)]
    while i < hints.len() && hints[i] != 0
        invariant
            0 <= i <= hints@.len(),
            i <= clue_len(hints@),
            blocks == i,
            sum == sum_runs(runs, i as int),
            sum <= 255 * i,
        decreases hints@.len() - i,
    {
        proof {
            if i + 1 > clue_len(hints@) {
                assert(hints@[clue_len(hints@)] == 0);
                assert(false);
            }
            assert(runs[i as int] == hints@[i as int] as int);
        }
        sum = sum + hints[i] as usize;
        blocks = blocks + 1;
        i = i + 1;
    }
    proof {
        assert(i == clue_len(hints@)) by {
            if i < clue_len(hints@) {
                assert(hints@[i as int] != 0);
                assert(false);
            }
        }
        assert(runs.len() == clue_len(hints@));
    }
    sum + blocks - 1
}

/// Lay a fully forced line out in place: each run of Filled cells in order,
/// exactly one Marked separator after every run but the last. When the clue's
/// minimum space equals the line's length this writes every cell and yields
/// the line's unique solution.
#[verifier::loop_isolation(false)]
pub fn solve_row(hints: &Vec<u8>, row: &mut Vec<Guess>, width: usize)
    requires
        old(row)@.len() == width,
        hints@.len() <= 8,
        expected_spec(hints@).len() >= 1,
        min_space(expected_spec(hints@)) == width,
    ensures
        final(row)@ == forced_line(expected_spec(hints@), width as int),
{
    let ghost runs = expected_spec(hints@);
    let ghost count = runs.len() as int;
    proof {
        lemma_clue_len(hints@);
        lemma_expected_spec(hints@);
        assert(runs_positive(runs)) by {
            assert forall|k: int| 0 <= k < runs.len() implies #[trigger] runs[k] >= 1 by {
                assert(runs[k] == hints@[k] as int);
                assert(hints@[k] != 0);
            }
        }
    }
    let mut i: usize = 0;
    let mut offset: usize = 0;
    while i < hints.len() && hints[i] != 0
        invariant
            0 <= i <= count,
            i < count ==> offset == run_start(runs, i as int),
            i == count ==> offset == width,
            offset <= width,
            row@.len() == width,
            forall|j: int|
                0 <= j < offset ==> row@[j] == (if forced_filled(runs, j) {
                    Guess::Filled
                } else {
                    Guess::Marked
                }),
        decreases hints@.len() - i,
    {
        proof {
            if i >= count {
                assert(i == count);
                assert(count < hints@.len() ==> hints@[count] == 0);
                assert(false);
            }
            lemma_run_end_le(runs, i as int);
            assert(runs[i as int] == hints@[i as int] as int);
        }
        let n = hints[i] as usize;
        let mut t: usize = 0;
        while t < n
            invariant
                0 <= t <= n,
                i < count,
                n == runs[i as int],
                offset == run_start(runs, i as int),
                offset + n <= width,
                row@.len() == width,
                forall|j: int|
                    0 <= j < offset + t ==> row@[j] == (if forced_filled(runs, j) {
                        Guess::Filled
                    } else {
                        Guess::Marked
                    }),
            decreases n - t,
        {
            row.set(offset + t, Guess::Filled);
            proof {
                assert(forced_filled(runs, offset + t as int)) by {
                    assert(run_start(runs, i as int) <= offset + t < run_start(runs, i as int)
                        + runs[i as int]);
                }
            }
            t = t + 1;
        }
        offset = offset + n;
        proof {
            assert(offset == run_start(runs, i as int) + runs[i as int]);
            assert(run_start(runs, i as int + 1) == offset + 1);
        }
        if offset < width {
            proof {
                lemma_separator_not_filled(runs, i as int);
                if i as int == count - 1 {
                    assert(offset == min_space(runs));
                    assert(false);
                }
            }
            row.set(offset, Guess::Marked);
            offset = offset + 1;
        } else {
            proof {
                if (i as int) < count - 1 {
                    lemma_run_end_le(runs, count - 1);
                    lemma_run_order(runs, i as int, count - 1);
                    assert(run_start(runs, count - 1) + runs[count - 1] == width);
                    assert(false);
                }
            }
        }
        i = i + 1;
    }
    proof {
        assert(i == count) by {
            if (i as int) < count {
                assert(hints@[i as int] != 0);
                assert(false);
            }
        }
        assert(row@ =~= forced_line(runs, width as int));
    }
}

/// Lay a fully forced column out in place, top to bottom, exactly as
/// `solve_row` does for a row.
#[verifier::loop_isolation(false)]
pub fn solve_col(data: &mut Vec<Vec<Guess>>, x: usize, hints: &Vec<u8>, height: usize)
    requires
        old(data)@.len() == height,
        forall|y: int| 0 <= y < height ==> x < (#[trigger] old(data)@[y])@.len(),
        hints@.len() <= 8,
        expected_spec(hints@).len() >= 1,
        min_space(expected_spec(hints@)) == height,
    ensures
        final(data)@.len() == height,
        forall|y: int|
            0 <= y < height ==> (#[trigger] final(data)@[y])@ == old(data)@[y]@.update(
                x as int,
                forced_line(expected_spec(hints@), height as int)[y],
            ),
{
    let mut col = guess_col_cells(data, x, height);
    solve_row(hints, &mut col, height);
    set_col(data, x, &col);
}

/// What one assist pass makes of a line of length `len` with clue `hints`:
/// a clue-less line is all Marked from the Zeros level up, a single run that
/// spans the whole line is all Filled from the Full level up, a fully forced
/// line is laid out at the Solvable level, and anything else is untouched.
pub open spec fn assist_line(line: Seq<Guess>, hints: Seq<u8>, level: HelpLevel, len: int) -> Seq<
    Guess,
> {
    if !(level is NoHelp) && hints[0] == 0 {
        Seq::new(len as nat, |j: int| Guess::Marked)
    } else if (level is Full || level is Solvable) && hints[0] as int == len {
        Seq::new(len as nat, |j: int| Guess::Filled)
    } else if level is Solvable && min_space(expected_spec(hints)) == len {
        forced_line(expected_spec(hints), len)
    } else {
        line
    }
}

/// The row pass of the assist: every row rewritten by `assist_line`.
pub open spec fn assist_rows(
    data: Seq<Seq<Guess>>,
    rows_hints: Seq<Seq<u8>>,
    level: HelpLevel,
    width: int,
) -> Seq<Seq<Guess>> {
    Seq::new(data.len(), |y: int| assist_line(data[y], rows_hints[y], level, width))
}

/// The whole assist: rows first, then columns over the row pass's result;
/// a later column write may overwrite an earlier row write for the same cell.
pub open spec fn assist_grid(
    data: Seq<Seq<Guess>>,
    rows_hints: Seq<Seq<u8>>,
    cols_hints: Seq<Seq<u8>>,
    level: HelpLevel,
    width: int,
    height: int,
) -> Seq<Seq<Guess>> {
    let mid = assist_rows(data, rows_hints, level, width);
    Seq::new(
        height as nat,
        |y: int|
            Seq::new(
                width as nat,
                |x: int| assist_line(guess_col(mid, x), cols_hints[x], level, height)[y],
            ),
    )
}

/// A line of `len` equal cells.
fn uniform_row(len: usize, v: Guess) -> (r: Vec<Guess>)
    ensures
        r@ == Seq::new(len as nat, |j: int| v),
{
    let mut r: Vec<Guess> = Vec::new();
    let mut i: usize = 0;
    #[verifier::loop_isolation(false)]
    while i < len
        invariant
            r@.len() == i,
            i <= len,
            forall|j: int| 0 <= j < i ==> r@[j] == v,
        decreases len - i,
    {
        r.push(v);
        i = i + 1;
    }
    proof {
        assert(r@ =~= Seq::new(len as nat, |j: int| v));
    }
    r
}

/// Overwrite column `x` of the grid with one value in every row.
pub fn fill_col(data: &mut Vec<Vec<Guess>>, x: usize, guess: Guess)
    requires
        forall|y: int| 0 <= y < old(data)@.len() ==> x < (#[trigger] old(data)@[y])@.len(),
    ensures
        final(data)@.len() == old(data)@.len(),
        forall|y: int|
            0 <= y < old(data)@.len() ==> (#[trigger] final(data)@[y])@ == old(
                data,
            )@[y]@.update(x as int, guess),
{
    let mut y: usize = 0;
    #[verifier::loop_isolation(false)]
    while y < data.len()
        invariant
            0 <= y <= data@.len(),
            data@.len() == old(data)@.len(),
            forall|j: int| 0 <= j < data@.len() ==> x < (#[trigger] data@[j])@.len(),
            forall|j: int|
                0 <= j < y ==> (#[trigger] data@[j])@ == old(data)@[j]@.update(x as int, guess),
            forall|j: int| y <= j < data@.len() ==> #[trigger] data@[j] == old(data)@[j],
        decreases data@.len() - y,
    {
        guess_grid_set(data, y, x, guess);
        y = y + 1;
    }
}

/// Apply the tiered assist to a freshly created guess grid: the rows first,
/// then the columns of the row pass's result, each line rewritten exactly as
/// `assist_line` says for the given level.
#[verifier::loop_isolation(false)]
pub fn pre_solve(
    data: Vec<Vec<Guess>>,
    help_level: HelpLevel,
    rows_hints: &Vec<Vec<u8>>,
    cols_hints: &Vec<Vec<u8>>,
) -> (r: Vec<Vec<Guess>>)
    requires
        1 <= data@.len() <= 255,
        grid_wf(
            grid_view(data@),
            data@[0]@.len() as int,
            data@.len() as int,
        ),
        1 <= data@[0]@.len() <= 255,
        rows_hints@.len() == data@.len(),
        forall|y: int| 0 <= y < rows_hints@.len() ==> (#[trigger] rows_hints@[y])@.len() == 8,
        cols_hints@.len() == data@[0]@.len(),
        forall|x: int| 0 <= x < cols_hints@.len() ==> (#[trigger] cols_hints@[x])@.len() == 8,
    ensures
        grid_view(r@) == assist_grid(
            grid_view(data@),
            grid_view(rows_hints@),
            grid_view(cols_hints@),
            help_level,
            data@[0]@.len() as int,
            data@.len() as int,
        ),
{
    let ghost orig = grid_view(data@);
    let ghost rh = grid_view(rows_hints@);
    let ghost ch = grid_view(cols_hints@);
    let height = data.len();
    let width = data[0].len();
    let ghost w = width as int;
    let ghost h = height as int;
    let ghost mid = assist_rows(orig, rh, help_level, w);
    let ghost fin = assist_grid(orig, rh, ch, help_level, w, h);
    let mut data = data;
    if matches!(help_level, HelpLevel::NoHelp) {
        proof {
            assert(mid =~= orig);
            assert forall|y: int| 0 <= y < h implies fin[y] =~= orig[y] by {
                assert forall|x: int| 0 <= x < w implies fin[y][x] == orig[y][x] by {
                    assert(assist_line(guess_col(mid, x), ch[x], help_level, h) == guess_col(
                        mid,
                        x,
                    ));
                    assert(guess_col(mid, x)[y] == mid[y][x]);
                }
            }
            assert(fin =~= orig);
        }
        return data;
    }
    proof {
        assert forall|j: int| 0 <= j < h implies (#[trigger] data@[j])@.len() == width by {
            assert(grid_view(data@)[j] == data@[j]@);
        }
    }
    let mut y: usize = 0;
    while y < height
        invariant
            0 <= y <= height,
            data@.len() == height,
            forall|j: int| 0 <= j < h ==> (#[trigger] data@[j])@.len() == width,
            forall|j: int| 0 <= j < y ==> (#[trigger] data@[j])@ == mid[j],
            forall|j: int| y <= j < h ==> (#[trigger] data@[j])@ == orig[j],
        decreases height - y,
    {
        let first = rows_hints[y][0];
        if help_level.zeros() && first == 0 {
            let row = uniform_row(width, Guess::Marked);
            data.set(y, row);
        } else if help_level.full() && first == width as u8 {
            let row = uniform_row(width, Guess::Filled);
            data.set(y, row);
        } else if help_level.solvable() && hint_calc(&rows_hints[y]) == width {
            let mut row = clone_guess_row(&data[y]);
            proof {
                lemma_clue_len(rh[y as int]);
                assert(clue_len(rh[y as int]) >= 1);
                lemma_expected_spec(rh[y as int]);
            }
            solve_row(&rows_hints[y], &mut row, width);
            data.set(y, row);
        }
        proof {
            assert(data@[y as int]@ == mid[y as int]) by {
                assert(mid[y as int] == assist_line(orig[y as int], rh[y as int], help_level, w));
            }
        }
        y = y + 1;
    }
    let mut x: usize = 0;
    while x < width
        invariant
            0 <= x <= width,
            data@.len() == height,
            forall|j: int| 0 <= j < h ==> (#[trigger] data@[j])@.len() == width,
            forall|j: int, i: int|
                0 <= j < h && 0 <= i < x ==> #[trigger] data@[j]@[i] == fin[j][i],
            forall|j: int, i: int|
                0 <= j < h && x <= i < w ==> #[trigger] data@[j]@[i] == mid[j][i],
        decreases width - x,
    {
        let ghost colspec = assist_line(guess_col(mid, x as int), ch[x as int], help_level, h);
        proof {
            assert(guess_col(grid_view(data@), x as int) =~= guess_col(mid, x as int));
            assert forall|j: int| 0 <= j < h implies fin[j][x as int] == colspec[j] by {
                assert(fin[j] == Seq::new(
                    w as nat,
                    |i: int| assist_line(guess_col(mid, i), ch[i], help_level, h)[j],
                ));
            }
        }
        let first = cols_hints[x][0];
        if help_level.zeros() && first == 0 {
            fill_col(&mut data, x, Guess::Marked);
        } else if help_level.full() && first == height as u8 {
            fill_col(&mut data, x, Guess::Filled);
        } else if help_level.solvable() && hint_calc(&cols_hints[x]) == height {
            proof {
                assert forall|yy: int| 0 <= yy < h implies x < (#[trigger] data@[yy])@.len() by {}
                lemma_clue_len(ch[x as int]);
                assert(clue_len(ch[x as int]) >= 1);
                lemma_expected_spec(ch[x as int]);
            }
            solve_col(&mut data, x, &cols_hints[x], height);
        }
        proof {
            assert forall|j: int| 0 <= j < h implies (#[trigger] data@[j])@[x as int] == colspec[j]
                by {
                assert(guess_col(mid, x as int)[j] == mid[j][x as int]);
            }
        }
        x = x + 1;
    }
    proof {
        assert forall|j: int| 0 <= j < h implies (#[trigger] grid_view(data@)[j]) =~= fin[j] by {
            assert(grid_view(data@)[j] == data@[j]@);
            assert(fin[j].len() == w);
        }
        assert(grid_view(data@) =~= fin);
    }
    data
}

} // verus!
