//! Histogram accumulation over binned samples.
//!
//! A sample is binned by first mapping it to a *raw* position index
//! `floor(t * bins)` (with `t` its relative position inside the data range);
//! that floating-point step happens at the caller. A sample outside the data
//! range carries no position (`None`). This module clamps the raw positions
//! (a sample on the upper edge of the range lands in the last bin) and
//! accumulates the counts, shape `[bins_y][bins_x]` for grids (outer index
//! is the row `y`, inner index the column `x`).

use vstd::prelude::*;
use crate::counting::{
    weight_sum, seq_total, grid_total, sum_below, lemma_grid_total_new, lemma_sum_below_ext, lemma_weight_sum_push, lemma_weight_sum_prefix, lemma_take_succ,
    lemma_sum_below_add, lemma_sum_below_indicator, lemma_sum_below_point, lemma_sum_below_zero, lemma_seq_total_new,
};

verus! {

/// Bin of a raw position index: positions at or past the upper edge land in
/// the last bin.
pub open spec fn clamped_bin(raw: int, bins: int) -> int {
    if raw >= bins {
        bins - 1
    } else {
        raw
    }
}

/// Law: a raw position inside the bins is its own bin, and a position at or
/// past the upper edge is the last bin; either way the result is a bin.
pub proof fn law_clamped_bin(raw: int, bins: int)
    requires
        0 <= raw,
        0 < bins,
    ensures
        raw < bins ==> clamped_bin(raw, bins) == raw,
        raw >= bins ==> clamped_bin(raw, bins) == bins - 1,
        0 <= clamped_bin(raw, bins) < bins,
{
}

/// Clamps a raw position index to the last bin.
pub fn clamp_bin(raw: usize, bins: usize) -> (b: usize)
    requires
        bins > 0,
    ensures
        b == clamped_bin(raw as int, bins as int),
        b < bins,
        raw < bins ==> b == raw,
        raw >= bins ==> b == bins - 1,
{
    if raw >= bins {
        bins - 1
    } else {
        raw
    }
}

// ---------------------------------------------------------------- 1D

/// Whether a 1D sample lands in bin `b`.
pub open spec fn lands_in_bin(sample: Option<usize>, bins: int, b: int) -> bool {
    match sample {
        Some(raw) => clamped_bin(raw as int, bins) == b,
        None => false,
    }
}

/// Number of samples that land in bin `b`.
pub open spec fn bin_count(samples: Seq<Option<usize>>, bins: int, b: int) -> nat {
    weight_sum(samples, |s: Option<usize>| if lands_in_bin(s, bins, b) { 1nat } else { 0nat })
}

/// Number of samples that carry a position (lie inside the data range).
pub open spec fn placed_count<A>(samples: Seq<Option<A>>) -> nat {
    weight_sum(samples, |s: Option<A>| if s is Some { 1nat } else { 0nat })
}

/// The 1D histogram: empty for zero bins, all zeros for a degenerate data
/// range, otherwise the number of samples in each bin.
pub open spec fn histogram_1d(bins: nat, range_ok: bool, samples: Seq<Option<usize>>) -> Seq<u32> {
    if bins == 0 {
        Seq::empty()
    } else if !range_ok {
        Seq::new(bins, |b: int| 0u32)
    } else {
        Seq::new(bins, |b: int| bin_count(samples, bins as int, b) as u32)
    }
}

/// No bin receives more samples than a `u32` counter holds.
pub open spec fn counts_fit_1d(samples: Seq<Option<usize>>, bins: int) -> bool {
    forall|b: int| 0 <= b < bins ==> #[trigger] bin_count(samples, bins, b) <= u32::MAX
}

/// A vector of `n` zeros.
pub fn zeros(n: usize) -> (v: Vec<u32>)
    ensures
        v@ == Seq::new(n as nat, |i: int| 0u32),
{
    let mut v: Vec<u32> = Vec::new();
    let mut i: usize = 0;
    while i < n
        invariant
            i <= n,
            v@ == Seq::new(i as nat, |k: int| 0u32),
        decreases n - i,
    {
        v.push(0);
        i = i + 1;
    }
    v
}

/// Counts samples per bin. `range_ok` tells whether the data range has a
/// finite, positive width; for a degenerate range every bin stays zero.
/// Returns `None` when a bin would receive more samples than a `u32`
/// counter holds.
pub fn count_bins_1d(bins: usize, range_ok: bool, samples: &Vec<Option<usize>>) -> (counts: Option<Vec<u32>>)
    ensures
        counts is None <==> (bins > 0 && range_ok && !counts_fit_1d(samples@, bins as int)),
        counts matches Some(c) ==> c@ == histogram_1d(bins as nat, range_ok, samples@),
{
    if bins == 0 {
        return Some(Vec::new());
    }
    let mut out = zeros(bins);
    if !range_ok {
        return Some(out);
    }
    let n = samples.len();
    let mut i: usize = 0;
    while i < n
        invariant
            n == samples@.len(),
            i <= n,
            bins > 0,
            range_ok,
            out@.len() == bins,
            forall|b: int| 0 <= b < bins ==> out@[b] == bin_count(samples@.take(i as int), bins as int, b),
        decreases n - i,
    {
        proof {
            lemma_take_succ(samples@, i as int);
            assert forall|b: int| 0 <= b < bins implies #[trigger] bin_count(samples@.take(i + 1), bins as int, b)
                == bin_count(samples@.take(i as int), bins as int, b)
                    + (if lands_in_bin(samples@[i as int], bins as int, b) { 1nat } else { 0nat }) by {
                lemma_weight_sum_push(samples@.take(i as int), samples@[i as int],
                    |s: Option<usize>| if lands_in_bin(s, bins as int, b) { 1nat } else { 0nat });
            }
        }
        match samples[i] {
            Some(raw) => {
                let b = clamp_bin(raw, bins);
                proof {
                    assert(lands_in_bin(samples@[i as int], bins as int, b as int));
                    assert(bin_count(samples@.take(i + 1), bins as int, b as int) == out@[b as int] + 1);
                }
                let c = out[b];
                if c == u32::MAX {
                    proof {
                        lemma_weight_sum_prefix(samples@, i + 1,
                            |s: Option<usize>| if lands_in_bin(s, bins as int, b as int) { 1nat } else { 0nat });
                        assert(bin_count(samples@, bins as int, b as int) > u32::MAX);
                    }
                    return None;
                }
                out.set(b, c + 1);
            }
            None => {}
        }
        i = i + 1;
    }
    proof {
        assert(samples@.take(n as int) =~= samples@);
        assert forall|b: int| 0 <= b < bins implies #[trigger] bin_count(samples@, bins as int, b) <= u32::MAX by {
            assert(out@[b] == bin_count(samples@, bins as int, b));
        }
    }
    assert(out@ =~= histogram_1d(bins as nat, range_ok, samples@));
    Some(out)
}

// ---------------------------------------------------------------- 2D

/// Whether a 2D sample (raw column and row positions) lands in cell `(x, y)`.
pub open spec fn lands_in_cell(sample: Option<(usize, usize)>, bins_x: int, bins_y: int, x: int, y: int) -> bool {
    match sample {
        Some((rx, ry)) => clamped_bin(rx as int, bins_x) == x && clamped_bin(ry as int, bins_y) == y,
        None => false,
    }
}

/// Number of samples that land in cell `(x, y)`.
pub open spec fn cell_count(samples: Seq<Option<(usize, usize)>>, bins_x: int, bins_y: int, x: int, y: int) -> nat {
    weight_sum(
        samples,
        |s: Option<(usize, usize)>| if lands_in_cell(s, bins_x, bins_y, x, y) { 1nat } else { 0nat },
    )
}

/// The rows of a grid, each seen as a sequence.
pub open spec fn grid_view(g: Seq<Vec<u32>>) -> Seq<Seq<u32>> {
    Seq::new(g.len(), |y: int| g[y]@)
}

/// A `rows` by `cols` grid of zeros.
pub open spec fn zero_grid(rows: nat, cols: nat) -> Seq<Seq<u32>> {
    Seq::new(rows, |y: int| Seq::new(cols, |x: int| 0u32))
}

/// The 2D histogram, shape `[bins_y][bins_x]`: empty when either bin count is
/// zero, all zeros for a degenerate data range, otherwise the number of
/// samples in each cell.
pub open spec fn histogram_2d(
    bins_x: nat,
    bins_y: nat,
    range_ok: bool,
    samples: Seq<Option<(usize, usize)>>,
) -> Seq<Seq<u32>> {
    if bins_x == 0 || bins_y == 0 {
        Seq::empty()
    } else if !range_ok {
        zero_grid(bins_y, bins_x)
    } else {
        Seq::new(
            bins_y,
            |y: int| Seq::new(bins_x, |x: int| cell_count(samples, bins_x as int, bins_y as int, x, y) as u32),
        )
    }
}

/// No cell receives more samples than a `u32` counter holds.
pub open spec fn counts_fit_2d(samples: Seq<Option<(usize, usize)>>, bins_x: int, bins_y: int) -> bool {
    forall|x: int, y: int|
        0 <= x < bins_x && 0 <= y < bins_y ==> #[trigger] cell_count(samples, bins_x, bins_y, x, y) <= u32::MAX
}

/// Allocates a `rows` by `cols` grid of zeros.
pub fn zero_rows(rows: usize, cols: usize) -> (grid: Vec<Vec<u32>>)
    ensures
        grid@.len() == rows,
        forall|y: int| 0 <= y < rows ==> #[trigger] grid@[y]@ == Seq::new(cols as nat, |x: int| 0u32),
        grid_view(grid@) == zero_grid(rows as nat, cols as nat),
{
    let mut grid: Vec<Vec<u32>> = Vec::new();
    let mut y: usize = 0;
    while y < rows
        invariant
            y <= rows,
            grid@.len() == y,
            forall|k: int| 0 <= k < y ==> #[trigger] grid@[k]@ == Seq::new(cols as nat, |x: int| 0u32),
        decreases rows - y,
    {
        let row = zeros(cols);
        grid.push(row);
        y = y + 1;
    }
    assert(grid_view(grid@) =~~= zero_grid(rows as nat, cols as nat));
    grid
}

/// Counts samples per grid cell, shape `[bins_y][bins_x]`. `range_ok` tells
/// whether both axes of the data range have a finite, positive width; for a
/// degenerate range every cell stays zero. Returns `None` when a cell would
/// receive more samples than a `u32` counter holds.
pub fn count_bins_2d(
    bins_x: usize,
    bins_y: usize,
    range_ok: bool,
    samples: &Vec<Option<(usize, usize)>>,
) -> (grid: Option<Vec<Vec<u32>>>)
    ensures
        grid is None <==> (bins_x > 0 && bins_y > 0 && range_ok && !counts_fit_2d(samples@, bins_x as int, bins_y as int)),
        grid matches Some(g) ==> grid_view(g@) == histogram_2d(bins_x as nat, bins_y as nat, range_ok, samples@),
{
    if bins_x == 0 || bins_y == 0 {
        let empty: Vec<Vec<u32>> = Vec::new();
        assert(grid_view(empty@) =~= histogram_2d(bins_x as nat, bins_y as nat, range_ok, samples@));
        return Some(empty);
    }
    let mut grid = zero_rows(bins_y, bins_x);
    if !range_ok {
        return Some(grid);
    }
    let n = samples.len();
    let mut i: usize = 0;
    while i < n
        invariant
            n == samples@.len(),
            i <= n,
            bins_x > 0,
            bins_y > 0,
            range_ok,
            grid@.len() == bins_y,
            forall|y: int| 0 <= y < bins_y ==> #[trigger] grid@[y]@.len() == bins_x,
            forall|x: int, y: int|
                0 <= x < bins_x && 0 <= y < bins_y ==> #[trigger] grid@[y]@[x]
                    == cell_count(samples@.take(i as int), bins_x as int, bins_y as int, x, y),
        decreases n - i,
    {
        proof {
            lemma_take_succ(samples@, i as int);
            assert forall|x: int, y: int| 0 <= x < bins_x && 0 <= y < bins_y implies
                #[trigger] cell_count(samples@.take(i + 1), bins_x as int, bins_y as int, x, y)
                == cell_count(samples@.take(i as int), bins_x as int, bins_y as int, x, y)
                    + (if lands_in_cell(samples@[i as int], bins_x as int, bins_y as int, x, y) { 1nat } else { 0nat }) by {
                lemma_weight_sum_push(samples@.take(i as int), samples@[i as int],
                    |s: Option<(usize, usize)>| if lands_in_cell(s, bins_x as int, bins_y as int, x, y) { 1nat } else { 0nat });
            }
        }
        match samples[i] {
            Some((rx, ry)) => {
                let bx = clamp_bin(rx, bins_x);
                let by = clamp_bin(ry, bins_y);
                proof {
                    assert(lands_in_cell(samples@[i as int], bins_x as int, bins_y as int, bx as int, by as int));
                    assert(cell_count(samples@.take(i + 1), bins_x as int, bins_y as int, bx as int, by as int)
                        == grid@[by as int]@[bx as int] + 1);
                }
                let c = grid[by][bx];
                if c == u32::MAX {
                    proof {
                        lemma_weight_sum_prefix(samples@, i + 1,
                            |s: Option<(usize, usize)>| if lands_in_cell(s, bins_x as int, bins_y as int, bx as int, by as int) { 1nat } else { 0nat });
                        assert(cell_count(samples@, bins_x as int, bins_y as int, bx as int, by as int) > u32::MAX);
                    }
                    return None;
                }
                grid[by].set(bx, c + 1);
            }
            None => {}
        }
        i = i + 1;
    }
    proof {
        assert(samples@.take(n as int) =~= samples@);
        assert forall|x: int, y: int| 0 <= x < bins_x && 0 <= y < bins_y implies
            #[trigger] cell_count(samples@, bins_x as int, bins_y as int, x, y) <= u32::MAX by {
            assert(grid@[y]@[x] == cell_count(samples@, bins_x as int, bins_y as int, x, y));
        }
    }
    assert(grid_view(grid@) =~~= histogram_2d(bins_x as nat, bins_y as nat, range_ok, samples@));
    Some(grid)
}

// ---------------------------------------------------------------- weighted 2D

/// Contribution of a weighted sample to cell `(x, y)`: its fixed-point weight
/// when it lands there, zero otherwise.
pub open spec fn weight_in_cell(sample: Option<(usize, usize, u32)>, bins_x: int, bins_y: int, x: int, y: int) -> nat {
    match sample {
        Some((rx, ry, c)) => if clamped_bin(rx as int, bins_x) == x && clamped_bin(ry as int, bins_y) == y {
            c as nat
        } else {
            0nat
        },
        None => 0nat,
    }
}

/// Total fixed-point weight that lands in cell `(x, y)`.
pub open spec fn cell_weight(samples: Seq<Option<(usize, usize, u32)>>, bins_x: int, bins_y: int, x: int, y: int) -> nat {
    weight_sum(samples, |s: Option<(usize, usize, u32)>| weight_in_cell(s, bins_x, bins_y, x, y))
}

/// A weight total held in a `u32` counter that saturates at `u32::MAX`.
pub open spec fn saturated(total: nat) -> u32 {
    if total > u32::MAX {
        u32::MAX
    } else {
        total as u32
    }
}

/// The weighted 2D grid, shape `[bins_y][bins_x]`: empty when either bin count
/// is zero, all zeros for a degenerate data range, otherwise the saturated
/// total weight of each cell.
pub open spec fn weighted_histogram_2d(
    bins_x: nat,
    bins_y: nat,
    range_ok: bool,
    samples: Seq<Option<(usize, usize, u32)>>,
) -> Seq<Seq<u32>> {
    if bins_x == 0 || bins_y == 0 {
        Seq::empty()
    } else if !range_ok {
        zero_grid(bins_y, bins_x)
    } else {
        Seq::new(
            bins_y,
            |y: int| Seq::new(bins_x, |x: int| saturated(cell_weight(samples, bins_x as int, bins_y as int, x, y))),
        )
    }
}

/// Accumulates fixed-point weights per grid cell, shape `[bins_y][bins_x]`,
/// saturating each cell at `u32::MAX`. Each sample is its raw column and row
/// positions and its weight contribution; `range_ok` tells whether both axes
/// of the data range have a finite, positive width.
pub fn weighted_bins_2d(
    bins_x: usize,
    bins_y: usize,
    range_ok: bool,
    samples: &Vec<Option<(usize, usize, u32)>>,
) -> (grid: Vec<Vec<u32>>)
    ensures
        grid_view(grid@) == weighted_histogram_2d(bins_x as nat, bins_y as nat, range_ok, samples@),
{
    if bins_x == 0 || bins_y == 0 {
        let empty: Vec<Vec<u32>> = Vec::new();
        assert(grid_view(empty@) =~= weighted_histogram_2d(bins_x as nat, bins_y as nat, range_ok, samples@));
        return empty;
    }
    let mut grid = zero_rows(bins_y, bins_x);
    if !range_ok {
        return grid;
    }
    let n = samples.len();
    let mut i: usize = 0;
    while i < n
        invariant
            n == samples@.len(),
            i <= n,
            bins_x > 0,
            bins_y > 0,
            grid@.len() == bins_y,
            forall|y: int| 0 <= y < bins_y ==> #[trigger] grid@[y]@.len() == bins_x,
            forall|x: int, y: int|
                0 <= x < bins_x && 0 <= y < bins_y ==> #[trigger] grid@[y]@[x]
                    == saturated(cell_weight(samples@.take(i as int), bins_x as int, bins_y as int, x, y)),
        decreases n - i,
    {
        proof {
            lemma_take_succ(samples@, i as int);
            assert forall|x: int, y: int| 0 <= x < bins_x && 0 <= y < bins_y implies
                #[trigger] cell_weight(samples@.take(i + 1), bins_x as int, bins_y as int, x, y)
                == cell_weight(samples@.take(i as int), bins_x as int, bins_y as int, x, y)
                    + weight_in_cell(samples@[i as int], bins_x as int, bins_y as int, x, y) by {
                lemma_weight_sum_push(samples@.take(i as int), samples@[i as int],
                    |s: Option<(usize, usize, u32)>| weight_in_cell(s, bins_x as int, bins_y as int, x, y));
            }
        }
        match samples[i] {
            Some((rx, ry, c)) => {
                let bx = clamp_bin(rx, bins_x);
                let by = clamp_bin(ry, bins_y);
                let cur = grid[by][bx];
                grid[by].set(bx, cur.saturating_add(c));
            }
            None => {}
        }
        i = i + 1;
    }
    proof {
        assert(samples@.take(n as int) =~= samples@);
    }
    assert(grid_view(grid@) =~~= weighted_histogram_2d(bins_x as nat, bins_y as nat, range_ok, samples@));
    grid
}

/// Largest counter of a grid, or zero for a grid without cells.
pub open spec fn is_grid_max(grid: Seq<Seq<u32>>, m: u32) -> bool {
    &&& forall|y: int, x: int| 0 <= y < grid.len() && 0 <= x < grid[y].len() ==> #[trigger] grid[y][x] <= m
    &&& (m == 0 || exists|y: int, x: int| 0 <= y < grid.len() && 0 <= x < grid[y].len() && #[trigger] grid[y][x] == m)
}

/// Largest counter of a grid (zero when the grid has no cells); the colormap
/// of a heatmap is normalised by it.
pub fn grid_max(grid: &Vec<Vec<u32>>) -> (m: u32)
    ensures
        is_grid_max(grid_view(grid@), m),
{
    let mut m: u32 = 0;
    let mut y: usize = 0;
    while y < grid.len()
        invariant
            y <= grid@.len(),
            forall|yy: int, x: int| 0 <= yy < y && 0 <= x < grid@[yy]@.len() ==> #[trigger] grid@[yy]@[x] <= m,
            m == 0 || exists|yy: int, x: int| 0 <= yy < y && 0 <= x < grid@[yy]@.len() && #[trigger] grid@[yy]@[x] == m,
        decreases grid@.len() - y,
    {
        let row = &grid[y];
        let mut x: usize = 0;
        while x < row.len()
            invariant
                y < grid@.len(),
                row@ == grid@[y as int]@,
                x <= row@.len(),
                forall|yy: int, xx: int| 0 <= yy < y && 0 <= xx < grid@[yy]@.len() ==> #[trigger] grid@[yy]@[xx] <= m,
                forall|xx: int| 0 <= xx < x ==> #[trigger] row@[xx] <= m,
                m == 0 || exists|yy: int, xx: int| 0 <= yy <= y && 0 <= xx < grid@[yy]@.len() && #[trigger] grid@[yy]@[xx] == m,
            decreases row@.len() - x,
        {
            if row[x] > m {
                m = row[x];
                assert(grid@[y as int]@[x as int] == m);
            }
            x = x + 1;
        }
        y = y + 1;
    }
    let ghost gv = grid_view(grid@);
    assert forall|yy: int, x: int| 0 <= yy < gv.len() && 0 <= x < gv[yy].len() implies #[trigger] gv[yy][x] <= m by {
        assert(gv[yy] == grid@[yy]@);
        assert(grid@[yy]@[x] <= m);
    }
    if m != 0 {
        let ghost (wy, wx) = choose|yy: int, xx: int| 0 <= yy < grid@.len() && 0 <= xx < grid@[yy]@.len() && #[trigger] grid@[yy]@[xx] == m;
        assert(gv[wy][wx] == m);
    }
    m
}

/// Every placed sample is counted in exactly one bin.
proof fn lemma_bin_counts_sum(samples: Seq<Option<usize>>, bins: int)
    requires
        bins > 0,
    ensures
        sum_below(bins, |b: int| bin_count(samples, bins, b)) == placed_count(samples),
    decreases samples.len(),
{
    let cnt = |b: int| bin_count(samples, bins, b);
    if samples.len() == 0 {
        lemma_sum_below_zero(bins, cnt);
    } else {
        let prev = samples.drop_last();
        let x = samples.last();
        assert(prev.push(x) =~= samples);
        lemma_bin_counts_sum(prev, bins);
        let cnt_prev = |b: int| bin_count(prev, bins, b);
        let ind = |b: int| if lands_in_bin(x, bins, b) { 1nat } else { 0nat };
        assert forall|b: int| 0 <= b < bins implies #[trigger] cnt(b) == cnt_prev(b) + ind(b) by {
            lemma_weight_sum_push(prev, x, |s: Option<usize>| if lands_in_bin(s, bins, b) { 1nat } else { 0nat });
        }
        lemma_sum_below_add(bins, cnt_prev, ind, cnt);
        lemma_weight_sum_push(prev, x, |s: Option<usize>| if s is Some { 1nat } else { 0nat });
        match x {
            Some(raw) => {
                let j = clamped_bin(raw as int, bins);
                assert forall|k: int| #[trigger] ind(k) == if k == j { 1nat } else { 0nat } by {}
                lemma_sum_below_indicator(bins, j, ind);
            },
            None => {
                lemma_sum_below_zero(bins, ind);
            },
        }
    }
}

/// Law: with a valid data range and at least one bin, the counts of a 1D
/// histogram add up to the number of samples inside the data range.
pub proof fn law_histogram_1d_total(bins: nat, samples: Seq<Option<usize>>)
    requires
        bins > 0,
        counts_fit_1d(samples, bins as int),
    ensures
        seq_total(histogram_1d(bins, true, samples)) == placed_count(samples),
{
    let cnt = |b: int| bin_count(samples, bins as int, b);
    lemma_seq_total_new(bins, cnt);
    assert(histogram_1d(bins, true, samples) =~= Seq::new(bins, |b: int| cnt(b) as u32));
    lemma_bin_counts_sum(samples, bins as int);
}

/// Every placed sample is counted in exactly one cell.
proof fn lemma_cell_counts_sum(samples: Seq<Option<(usize, usize)>>, bins_x: int, bins_y: int)
    requires
        bins_x > 0,
        bins_y > 0,
    ensures
        sum_below(bins_y, |y: int| sum_below(bins_x, |x: int| cell_count(samples, bins_x, bins_y, x, y)))
            == placed_count(samples),
    decreases samples.len(),
{
    let row = |y: int| sum_below(bins_x, |x: int| cell_count(samples, bins_x, bins_y, x, y));
    if samples.len() == 0 {
        assert forall|y: int| 0 <= y < bins_y implies #[trigger] row(y) == 0 by {
            lemma_sum_below_zero(bins_x, |x: int| cell_count(samples, bins_x, bins_y, x, y));
        }
        lemma_sum_below_zero(bins_y, row);
    } else {
        let prev = samples.drop_last();
        let s = samples.last();
        assert(prev.push(s) =~= samples);
        lemma_cell_counts_sum(prev, bins_x, bins_y);
        let row_prev = |y: int| sum_below(bins_x, |x: int| cell_count(prev, bins_x, bins_y, x, y));
        let hit = |y: int| sum_below(bins_x, |x: int| if lands_in_cell(s, bins_x, bins_y, x, y) { 1nat } else { 0nat });
        assert forall|y: int| 0 <= y < bins_y implies #[trigger] row(y) == row_prev(y) + hit(y) by {
            let ind = |x: int| if lands_in_cell(s, bins_x, bins_y, x, y) { 1nat } else { 0nat };
            assert forall|x: int| 0 <= x < bins_x implies
                #[trigger] cell_count(samples, bins_x, bins_y, x, y) == cell_count(prev, bins_x, bins_y, x, y) + ind(x) by {
                lemma_weight_sum_push(prev, s,
                    |t: Option<(usize, usize)>| if lands_in_cell(t, bins_x, bins_y, x, y) { 1nat } else { 0nat });
            }
            lemma_sum_below_add(bins_x, |x: int| cell_count(prev, bins_x, bins_y, x, y), ind,
                |x: int| cell_count(samples, bins_x, bins_y, x, y));
        }
        lemma_sum_below_add(bins_y, row_prev, hit, row);
        lemma_weight_sum_push(prev, s, |t: Option<(usize, usize)>| if t is Some { 1nat } else { 0nat });
        match s {
            Some((rx, ry)) => {
                let jx = clamped_bin(rx as int, bins_x);
                let jy = clamped_bin(ry as int, bins_y);
                let ind_y = |y: int| if y == jy { 1nat } else { 0nat };
                assert forall|y: int| 0 <= y < bins_y implies #[trigger] hit(y) == ind_y(y) by {
                    let ind = |x: int| if lands_in_cell(s, bins_x, bins_y, x, y) { 1nat } else { 0nat };
                    if y == jy {
                        assert forall|k: int| #[trigger] ind(k) == if k == jx { 1nat } else { 0nat } by {}
                        lemma_sum_below_indicator(bins_x, jx, ind);
                    } else {
                        lemma_sum_below_zero(bins_x, ind);
                    }
                }
                lemma_sum_below_ext(bins_y, hit, ind_y);
                assert forall|k: int| #[trigger] ind_y(k) == if k == jy { 1nat } else { 0nat } by {}
                lemma_sum_below_indicator(bins_y, jy, ind_y);
            },
            None => {
                assert forall|y: int| 0 <= y < bins_y implies #[trigger] hit(y) == 0 by {
                    lemma_sum_below_zero(bins_x, |x: int| if lands_in_cell(s, bins_x, bins_y, x, y) { 1nat } else { 0nat });
                }
                lemma_sum_below_zero(bins_y, hit);
            },
        }
    }
}

/// Law: with a valid data range and a non-empty grid, the cells of a 2D
/// histogram add up to the number of samples inside the data range.
pub proof fn law_histogram_2d_total(bins_x: nat, bins_y: nat, samples: Seq<Option<(usize, usize)>>)
    requires
        bins_x > 0,
        bins_y > 0,
        counts_fit_2d(samples, bins_x as int, bins_y as int),
    ensures
        grid_total(histogram_2d(bins_x, bins_y, true, samples)) == placed_count(samples),
{
    let rows = |y: int| Seq::new(bins_x, |x: int| cell_count(samples, bins_x as int, bins_y as int, x, y) as u32);
    let row_totals = |y: int| sum_below(bins_x as int, |x: int| cell_count(samples, bins_x as int, bins_y as int, x, y));
    assert forall|y: int| 0 <= y < bins_y implies seq_total(#[trigger] rows(y)) == row_totals(y) by {
        let f = |x: int| cell_count(samples, bins_x as int, bins_y as int, x, y);
        assert forall|x: int| 0 <= x < bins_x implies #[trigger] f(x) <= u32::MAX by {
            assert(cell_count(samples, bins_x as int, bins_y as int, x, y) <= u32::MAX);
        }
        lemma_seq_total_new(bins_x, f);
        assert(rows(y) =~= Seq::new(bins_x, |k: int| f(k) as u32));
        lemma_sum_below_ext(bins_x as int, f, |x: int| cell_count(samples, bins_x as int, bins_y as int, x, y));
    }
    lemma_grid_total_new(bins_y, rows, row_totals);
    assert(histogram_2d(bins_x, bins_y, true, samples) =~= Seq::new(bins_y, |y: int| rows(y)));
    lemma_cell_counts_sum(samples, bins_x as int, bins_y as int);
}

/// Total fixed-point weight of the samples inside the data range.
pub open spec fn placed_weight(samples: Seq<Option<(usize, usize, u32)>>) -> nat {
    weight_sum(samples, |s: Option<(usize, usize, u32)>| match s {
        Some((rx, ry, c)) => c as nat,
        None => 0nat,
    })
}

/// Every placed sample adds its weight to exactly one cell.
proof fn lemma_cell_weights_sum(samples: Seq<Option<(usize, usize, u32)>>, bins_x: int, bins_y: int)
    requires
        bins_x > 0,
        bins_y > 0,
    ensures
        sum_below(bins_y, |y: int| sum_below(bins_x, |x: int| cell_weight(samples, bins_x, bins_y, x, y)))
            == placed_weight(samples),
    decreases samples.len(),
{
    let row = |y: int| sum_below(bins_x, |x: int| cell_weight(samples, bins_x, bins_y, x, y));
    if samples.len() == 0 {
        assert forall|y: int| 0 <= y < bins_y implies #[trigger] row(y) == 0 by {
            lemma_sum_below_zero(bins_x, |x: int| cell_weight(samples, bins_x, bins_y, x, y));
        }
        lemma_sum_below_zero(bins_y, row);
    } else {
        let prev = samples.drop_last();
        let s = samples.last();
        assert(prev.push(s) =~= samples);
        lemma_cell_weights_sum(prev, bins_x, bins_y);
        let row_prev = |y: int| sum_below(bins_x, |x: int| cell_weight(prev, bins_x, bins_y, x, y));
        let hit = |y: int| sum_below(bins_x, |x: int| weight_in_cell(s, bins_x, bins_y, x, y));
        assert forall|y: int| 0 <= y < bins_y implies #[trigger] row(y) == row_prev(y) + hit(y) by {
            let w = |x: int| weight_in_cell(s, bins_x, bins_y, x, y);
            assert forall|x: int| 0 <= x < bins_x implies
                #[trigger] cell_weight(samples, bins_x, bins_y, x, y) == cell_weight(prev, bins_x, bins_y, x, y) + w(x) by {
                lemma_weight_sum_push(prev, s,
                    |t: Option<(usize, usize, u32)>| weight_in_cell(t, bins_x, bins_y, x, y));
            }
            lemma_sum_below_add(bins_x, |x: int| cell_weight(prev, bins_x, bins_y, x, y), w,
                |x: int| cell_weight(samples, bins_x, bins_y, x, y));
        }
        lemma_sum_below_add(bins_y, row_prev, hit, row);
        lemma_weight_sum_push(prev, s, |t: Option<(usize, usize, u32)>| match t {
            Some((rx, ry, c)) => c as nat,
            None => 0nat,
        });
        match s {
            Some((rx, ry, c)) => {
                let jx = clamped_bin(rx as int, bins_x);
                let jy = clamped_bin(ry as int, bins_y);
                let at_y = |y: int| if y == jy { c as nat } else { 0nat };
                assert forall|y: int| 0 <= y < bins_y implies #[trigger] hit(y) == at_y(y) by {
                    let w = |x: int| weight_in_cell(s, bins_x, bins_y, x, y);
                    if y == jy {
                        assert forall|k: int| #[trigger] w(k) == if k == jx { c as nat } else { 0nat } by {}
                        lemma_sum_below_point(bins_x, jx, c as nat, w);
                    } else {
                        lemma_sum_below_zero(bins_x, w);
                    }
                }
                lemma_sum_below_ext(bins_y, hit, at_y);
                assert forall|k: int| #[trigger] at_y(k) == if k == jy { c as nat } else { 0nat } by {}
                lemma_sum_below_point(bins_y, jy, c as nat, at_y);
            },
            None => {
                assert forall|y: int| 0 <= y < bins_y implies #[trigger] hit(y) == 0 by {
                    lemma_sum_below_zero(bins_x, |x: int| weight_in_cell(s, bins_x, bins_y, x, y));
                }
                lemma_sum_below_zero(bins_y, hit);
            },
        }
    }
}

/// Law: with a valid data range, a non-empty grid and no cell past the
/// `u32` limit, the cells of a weighted grid add up to the total weight of
/// the samples inside the data range.
pub proof fn law_weighted_histogram_2d_total(bins_x: nat, bins_y: nat, samples: Seq<Option<(usize, usize, u32)>>)
    requires
        bins_x > 0,
        bins_y > 0,
        forall|x: int, y: int| 0 <= x < bins_x && 0 <= y < bins_y ==>
            #[trigger] cell_weight(samples, bins_x as int, bins_y as int, x, y) <= u32::MAX,
    ensures
        grid_total(weighted_histogram_2d(bins_x, bins_y, true, samples)) == placed_weight(samples),
{
    let rows = |y: int| Seq::new(bins_x, |x: int| saturated(cell_weight(samples, bins_x as int, bins_y as int, x, y)));
    let row_totals = |y: int| sum_below(bins_x as int, |x: int| cell_weight(samples, bins_x as int, bins_y as int, x, y));
    assert forall|y: int| 0 <= y < bins_y implies seq_total(#[trigger] rows(y)) == row_totals(y) by {
        let f = |x: int| cell_weight(samples, bins_x as int, bins_y as int, x, y);
        assert forall|x: int| 0 <= x < bins_x implies #[trigger] f(x) <= u32::MAX by {
            assert(cell_weight(samples, bins_x as int, bins_y as int, x, y) <= u32::MAX);
        }
        lemma_seq_total_new(bins_x, f);
        assert(rows(y) =~= Seq::new(bins_x, |k: int| f(k) as u32));
        lemma_sum_below_ext(bins_x as int, f, |x: int| cell_weight(samples, bins_x as int, bins_y as int, x, y));
    }
    lemma_grid_total_new(bins_y, rows, row_totals);
    assert(weighted_histogram_2d(bins_x, bins_y, true, samples) =~= Seq::new(bins_y, |y: int| rows(y)));
    lemma_cell_weights_sum(samples, bins_x as int, bins_y as int);
}

/// Samples that all carry the same fixed-point weight `c`.
pub open spec fn with_weight(samples: Seq<Option<(usize, usize)>>, c: u32) -> Seq<Option<(usize, usize, u32)>> {
    samples.map_values(|s: Option<(usize, usize)>| match s {
        Some((rx, ry)) => Some((rx, ry, c)),
        None => None,
    })
}

/// With a constant weight `c`, a cell's weight is `c` times its count.
proof fn lemma_constant_weight_cell(samples: Seq<Option<(usize, usize)>>, c: u32, bins_x: int, bins_y: int, x: int, y: int)
    ensures
        cell_weight(with_weight(samples, c), bins_x, bins_y, x, y) == c * cell_count(samples, bins_x, bins_y, x, y),
    decreases samples.len(),
{
    let ws = with_weight(samples, c);
    if samples.len() == 0 {
        assert(c * 0 == 0) by (nonlinear_arith);
    } else {
        let prev = samples.drop_last();
        assert(ws.drop_last() =~= with_weight(prev, c));
        lemma_constant_weight_cell(prev, c, bins_x, bins_y, x, y);
        let k = cell_count(prev, bins_x, bins_y, x, y);
        let lands = lands_in_cell(samples.last(), bins_x, bins_y, x, y);
        assert(ws.last() == match samples.last() {
            Some((rx, ry)) => Some((rx, ry, c)),
            None => None::<(usize, usize, u32)>,
        });
        assert(weight_in_cell(ws.last(), bins_x, bins_y, x, y) == if lands { c as nat } else { 0nat });
        assert(cell_weight(ws, bins_x, bins_y, x, y)
            == cell_weight(with_weight(prev, c), bins_x, bins_y, x, y) + weight_in_cell(ws.last(), bins_x, bins_y, x, y));
        assert(cell_count(samples, bins_x, bins_y, x, y) == k + if lands { 1nat } else { 0nat });
        assert(c * (k + 1) == c * k + c) by (nonlinear_arith);
    }
}

/// Law: a weighted grid whose samples all carry the weight `c` holds, in
/// every cell, `c` times the count of the unweighted grid (saturated at
/// `u32::MAX`); both grids have the same shape.
pub proof fn law_constant_weight_grid(
    bins_x: nat,
    bins_y: nat,
    range_ok: bool,
    samples: Seq<Option<(usize, usize)>>,
    c: u32,
)
    requires
        range_ok ==> counts_fit_2d(samples, bins_x as int, bins_y as int),
    ensures
        ({
            let w = weighted_histogram_2d(bins_x, bins_y, range_ok, with_weight(samples, c));
            let h = histogram_2d(bins_x, bins_y, range_ok, samples);
            &&& w.len() == h.len()
            &&& forall|y: int| 0 <= y < h.len() ==> (#[trigger] w[y]).len() == h[y].len()
            &&& forall|y: int, x: int| 0 <= y < h.len() && 0 <= x < h[y].len() ==>
                #[trigger] w[y][x] == saturated((c * h[y][x]) as nat)
        }),
{
    let w = weighted_histogram_2d(bins_x, bins_y, range_ok, with_weight(samples, c));
    let h = histogram_2d(bins_x, bins_y, range_ok, samples);
    assert forall|y: int, x: int| 0 <= y < h.len() && 0 <= x < h[y].len() implies
        #[trigger] w[y][x] == saturated((c * h[y][x]) as nat) by {
        assert(bins_x > 0 && bins_y > 0);
        assert(0 <= x < bins_x && 0 <= y < bins_y);
        if range_ok {
            lemma_constant_weight_cell(samples, c, bins_x as int, bins_y as int, x, y);
            assert(cell_count(samples, bins_x as int, bins_y as int, x, y) <= u32::MAX);
            assert(h[y][x] == cell_count(samples, bins_x as int, bins_y as int, x, y));
            assert(w[y][x] == saturated(cell_weight(with_weight(samples, c), bins_x as int, bins_y as int, x, y)));
        } else {
            assert(h[y][x] == 0);
            assert(w[y][x] == 0);
            assert(c * 0 == 0) by (nonlinear_arith);
        }
    }
}

} // verus!
