//! GPU histogram aggregation: argument handling and result readback.
//!
//! The compute pass counts points per cell with atomic `u32` counters in a
//! flat row-major buffer of `bins_x * bins_y` cells; the readback is split
//! into rows, giving the same `[bins_y][bins_x]` layout as the CPU histogram.

use vstd::prelude::*;
use crate::histogram::{grid_view, zero_grid, zero_rows};
use crate::layout::{strided_rows, rows_from_flat};

verus! {

/// Errors of the GPU histogram.
#[derive(Debug)]
pub enum ComputeError {
    /// The compute aggregation path is not built in.
    Disabled,
    /// The arguments cannot be aggregated.
    InvalidInput(String),
    /// A GPU pipeline or submission error.
    Gpu(String),
}

/// Parameters of one histogram dispatch.
pub struct HistogramDispatch {
    /// Number of points uploaded (as the shader's `u32`).
    pub n_inputs: u32,
    /// Columns of the grid (as the shader's `u32`).
    pub bins_x: u32,
    /// Rows of the grid (as the shader's `u32`).
    pub bins_y: u32,
    /// Number of points read from the input columns.
    pub n_points: usize,
    /// Number of counters in the grid.
    pub bin_count: usize,
    /// Size of the counter buffer in bytes.
    pub bin_bytes: u64,
    /// Workgroups of 64 invocations that cover all points.
    pub workgroups: u32,
}

/// What a GPU histogram request amounts to: a result known without the GPU,
/// or a dispatch.
pub enum HistogramPlan {
    /// The grid is known without running the compute pass.
    Done(Vec<Vec<u32>>),
    /// The compute pass must run with these parameters.
    Dispatch(HistogramDispatch),
}

/// `n` divided by `d`, rounded up.
pub open spec fn div_ceil(n: int, d: int) -> int {
    (n + d - 1) / d
}

/// Law: `div_ceil(n, d)` groups of `d` cover `n` items, and one group fewer
/// does not (when there is an item at all); no items need no group.
pub proof fn law_div_ceil_covers(n: int, d: int)
    requires
        0 <= n,
        0 < d,
    ensures
        div_ceil(n, d) * d >= n,
        n > 0 ==> (div_ceil(n, d) - 1) * d < n,
        n == 0 ==> div_ceil(n, d) == 0,
        div_ceil(n, d) >= 0,
{
    let q = div_ceil(n, d);
    assert(q * d >= n && (n > 0 ==> (q - 1) * d < n) && q >= 0) by (nonlinear_arith)
        requires
            q == (n + d - 1) / d,
            0 <= n,
            0 < d,
    ;
    if n == 0 {
        assert((d - 1) / d == 0) by (nonlinear_arith)
            requires
                0 < d,
        ;
    }
}

/// Plans a GPU histogram over `min(xs_len, ys_len)` points into a
/// `bins_y` by `bins_x` grid. Zero bins give an empty grid, zero points a
/// grid of zeros (whatever the range), and a degenerate data range an error;
/// otherwise the compute pass runs.
pub fn plan_histogram_2d_gpu(
    xs_len: usize,
    ys_len: usize,
    bins_x: usize,
    bins_y: usize,
    range_ok: bool,
) -> (r: Result<HistogramPlan, ComputeError>)
    requires
        bins_x > 0 && bins_y > 0 && xs_len > 0 && ys_len > 0 && range_ok ==> 4 * bins_x * bins_y <= usize::MAX,
    ensures
        ({
            let n = if xs_len <= ys_len { xs_len } else { ys_len };
            if bins_x == 0 || bins_y == 0 {
                r matches Ok(HistogramPlan::Done(g)) && g@.len() == 0
            } else if n == 0 {
                r matches Ok(HistogramPlan::Done(g)) && grid_view(g@) == zero_grid(bins_y as nat, bins_x as nat)
            } else if !range_ok {
                r matches Err(ComputeError::InvalidInput(msg)) && msg@ == "degenerate range"@
            } else {
                r matches Ok(HistogramPlan::Dispatch(d)) && {
                    &&& d.n_points == n
                    &&& d.n_inputs == n as u32
                    &&& d.bins_x == bins_x as u32
                    &&& d.bins_y == bins_y as u32
                    &&& d.bin_count == bins_x * bins_y
                    &&& d.bin_bytes == 4 * bins_x * bins_y
                    &&& d.workgroups == div_ceil(n as u32 as int, 64)
                    &&& d.workgroups * 64 >= d.n_inputs
                    &&& (d.n_inputs > 0 ==> (d.workgroups - 1) * 64 < d.n_inputs)
                }
            }
        }),
{
    if bins_x == 0 || bins_y == 0 {
        return Ok(HistogramPlan::Done(Vec::new()));
    }
    let n = if xs_len <= ys_len { xs_len } else { ys_len };
    if n == 0 {
        return Ok(HistogramPlan::Done(zero_rows(bins_y, bins_x)));
    }
    if !range_ok {
        return Err(ComputeError::InvalidInput("degenerate range".to_owned()));
    }
    assert(bins_x * bins_y <= 4 * bins_x * bins_y) by (nonlinear_arith)
        requires
            bins_x >= 0,
            bins_y >= 0,
    ;
    assert(bins_x * bins_y * 4 == 4 * bins_x * bins_y) by (nonlinear_arith);
    let bin_count = bins_x * bins_y;
    let bin_bytes = (bin_count * 4) as u64;
    let n_inputs = #[verifier::truncate] (n as u32);
    let workgroups = ((n_inputs as u64 + 63) / 64) as u32;
    proof {
        law_div_ceil_covers(n_inputs as int, 64);
    }
    Ok(HistogramPlan::Dispatch(HistogramDispatch {
        n_inputs,
        bins_x: #[verifier::truncate] (bins_x as u32),
        bins_y: #[verifier::truncate] (bins_y as u32),
        n_points: n,
        bin_count,
        bin_bytes,
        workgroups,
    }))
}

/// Splits the counters read back from the GPU into the `[bins_y][bins_x]`
/// grid.
pub fn grid_from_readback(raw: &[u32], bins_x: usize, bins_y: usize) -> (grid: Vec<Vec<u32>>)
    requires
        bins_y * bins_x <= raw@.len(),
    ensures
        grid_view(grid@) == strided_rows(raw@, bins_y as nat, bins_x as nat, bins_x as nat),
{
    rows_from_flat(raw, bins_y, bins_x)
}

} // verus!
