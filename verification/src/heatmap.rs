//! Heatmap layer planning: point records and dispatch sizes.
//!
//! A heatmap accumulates fixed-point point weights into a grid of at least
//! one bin per axis with a compute pass over the points, flattens the grid
//! with a second pass over the bins, then draws it through a colormap.

use vstd::prelude::*;
use crate::compute::div_ceil;
use crate::histogram::{grid_view, weighted_bins_2d, weighted_histogram_2d, grid_max, is_grid_max};

verus! {

/// The record of one heatmap point: position, weight and one padding word.
pub open spec fn point_record(position: [u32; 2], weight: u32) -> Seq<u32> {
    seq![position[0], position[1], weight, 0u32]
}

/// The records of all points, in order.
pub open spec fn point_records(positions: Seq<[u32; 2]>, weights: Seq<u32>) -> Seq<Seq<u32>> {
    Seq::new(positions.len(), |i: int| point_record(positions[i], weights[i]))
}

/// The point buffer contents: one record per point, back to back.
pub fn point_words(positions: &[[u32; 2]], weights: &[u32]) -> (words: Vec<u32>)
    requires
        weights@.len() == positions@.len(),
    ensures
        words@ == point_records(positions@, weights@).flatten_alt(),
{
    let n = positions.len();
    let mut words: Vec<u32> = Vec::new();
    let mut i: usize = 0;
    while i < n
        invariant
            n == positions@.len(),
            weights@.len() == n,
            i <= n,
            words@ == point_records(positions@, weights@).take(i as int).flatten_alt(),
        decreases n - i,
    {
        let p = positions[i];
        let w = weights[i];
        let ghost before = words@;
        words.push(p[0]);
        words.push(p[1]);
        words.push(w);
        words.push(0);
        proof {
            let recs = point_records(positions@, weights@);
            assert(recs.take(i + 1).drop_last() =~= recs.take(i as int));
            assert(words@ =~= before + point_record(p, w));
        }
        i = i + 1;
    }
    assert(point_records(positions@, weights@).take(n as int) =~= point_records(positions@, weights@));
    words
}

/// The CPU path of a heatmap: the weighted grid of the points over
/// `bins_x` by `bins_y` bins and its largest cell, by which the colormap is
/// normalised.
pub fn cpu_grid(
    bins_x: usize,
    bins_y: usize,
    range_ok: bool,
    samples: &Vec<Option<(usize, usize, u32)>>,
) -> (r: (Vec<Vec<u32>>, u32))
    ensures
        grid_view(r.0@) == weighted_histogram_2d(bins_x as nat, bins_y as nat, range_ok, samples@),
        is_grid_max(grid_view(r.0@), r.1),
{
    let grid = weighted_bins_2d(bins_x, bins_y, range_ok, samples);
    let m = grid_max(&grid);
    (grid, m)
}

/// Sizes of one heatmap frame.
pub struct HeatmapDispatch {
    /// Columns of the grid (at least one).
    pub bins_x: u32,
    /// Rows of the grid (at least one).
    pub bins_y: u32,
    /// Number of bins.
    pub n_bins: u32,
    /// Size of a bin buffer in bytes.
    pub bin_bytes: u64,
    /// Workgroups of 64 invocations covering the points.
    pub point_groups: u32,
    /// Workgroups of 64 invocations covering the bins.
    pub bin_groups: u32,
}

/// At least one.
pub open spec fn at_least_one(n: u32) -> u32 {
    if n == 0 {
        1
    } else {
        n
    }
}

/// Law: an axis with at least one requested bin keeps exactly that many
/// bins, and an axis with none gets one.
pub proof fn law_at_least_one(n: u32)
    ensures
        n >= 1 ==> at_least_one(n) == n,
        n == 0 ==> at_least_one(n) == 1,
        at_least_one(n) >= 1,
{
}

/// Sizes of a heatmap frame over `n_points` points with `bins` requested
/// bins per axis; an axis with zero bins gets one.
pub fn plan_heatmap(bins: (u32, u32), n_points: usize) -> (d: HeatmapDispatch)
    requires
        at_least_one(bins.0) * at_least_one(bins.1) <= u32::MAX,
    ensures
        d.bins_x == at_least_one(bins.0),
        d.bins_y == at_least_one(bins.1),
        d.n_bins == d.bins_x * d.bins_y,
        d.bin_bytes == 4 * d.n_bins,
        d.point_groups == div_ceil(n_points as u32 as int, 64),
        d.bin_groups == div_ceil(d.n_bins as int, 64),
        bins.0 >= 1 ==> d.bins_x == bins.0,
        bins.0 == 0 ==> d.bins_x == 1,
        bins.1 >= 1 ==> d.bins_y == bins.1,
        bins.1 == 0 ==> d.bins_y == 1,
        d.point_groups * 64 >= n_points as u32,
        n_points as u32 > 0 ==> (d.point_groups - 1) * 64 < n_points as u32,
        d.bin_groups * 64 >= d.n_bins,
        (d.bin_groups - 1) * 64 < d.n_bins,
{
    let bx = if bins.0 == 0 { 1 } else { bins.0 };
    let by = if bins.1 == 0 { 1 } else { bins.1 };
    let n_bins = bx * by;
    let n = #[verifier::truncate] (n_points as u32);
    proof {
        crate::compute::law_div_ceil_covers(n as int, 64);
        crate::compute::law_div_ceil_covers(n_bins as int, 64);
    }
    HeatmapDispatch {
        bins_x: bx,
        bins_y: by,
        n_bins,
        bin_bytes: n_bins as u64 * 4,
        point_groups: ((n as u64 + 63) / 64) as u32,
        bin_groups: ((n_bins as u64 + 63) / 64) as u32,
    }
}

} // verus!
