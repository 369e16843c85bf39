//! Row-major layouts shared by the CPU and GPU paths.
//!
//! GPU buffers hold a 2D grid as one flat row-major array (cell `(x, y)` of a
//! grid with `cols` columns at `y * cols + x`); texture readbacks hold each
//! image row at a padded stride. These functions move between the flat and
//! the row forms.

use vstd::prelude::*;
use crate::histogram::grid_view;

verus! {

/// The `rows` rows of length `len` that start every `stride` elements of `raw`.
pub open spec fn strided_rows<A>(raw: Seq<A>, rows: nat, len: nat, stride: nat) -> Seq<Seq<A>> {
    Seq::new(rows, |r: int| raw.subrange(r * stride, r * stride + len))
}

/// Whether `raw` holds `rows` rows of length `len` at the given stride.
pub open spec fn holds_strided_rows(raw_len: nat, rows: nat, len: nat, stride: nat) -> bool {
    rows == 0 || (rows - 1) * stride + len <= raw_len
}

/// Whether every row of a grid has `cols` entries.
pub open spec fn uniform_width<A>(g: Seq<Seq<A>>, cols: nat) -> bool {
    forall|r: int| 0 <= r < g.len() ==> (#[trigger] g[r]).len() == cols
}

proof fn lemma_row_start_bound(r: int, rows: int, stride: int, len: int)
    requires
        0 <= r < rows,
        0 <= stride,
        0 <= len,
    ensures
        r * stride + len <= (rows - 1) * stride + len,
        0 <= r * stride,
{
    assert(r * stride <= (rows - 1) * stride) by (nonlinear_arith)
        requires
            0 <= r <= rows - 1,
            0 <= stride,
    ;
    assert(0 <= r * stride) by (nonlinear_arith)
        requires
            0 <= r,
            0 <= stride,
    ;
}

/// Appends `raw[start..start + len]` to `out`.
fn append_run<T: Copy>(out: &mut Vec<T>, raw: &[T], start: usize, len: usize)
    requires
        start + len <= raw@.len(),
    ensures
        final(out)@ == old(out)@ + raw@.subrange(start as int, start + len),
{
    let n = raw.len();
    let mut k: usize = 0;
    while k < len
        invariant
            n == raw@.len(),
            start + len <= raw@.len(),
            k <= len,
            out@ == old(out)@ + raw@.subrange(start as int, start + k),
        decreases len - k,
    {
        out.push(raw[start + k]);
        assert(raw@.subrange(start as int, start + k + 1) =~= raw@.subrange(start as int, start + k).push(raw@[start + k]));
        assert(out@ =~= old(out)@ + raw@.subrange(start as int, start + k + 1));
        k = k + 1;
    }
}

/// Gathers `rows` rows of length `len` found every `stride` elements of `raw`
/// into one contiguous sequence: strips the per-row padding of a readback.
pub fn unpad_rows<T: Copy>(raw: &[T], rows: usize, len: usize, stride: usize) -> (out: Vec<T>)
    requires
        holds_strided_rows(raw@.len(), rows as nat, len as nat, stride as nat),
    ensures
        out@ == strided_rows(raw@, rows as nat, len as nat, stride as nat).flatten_alt(),
{
    let n = raw.len();
    let mut out: Vec<T> = Vec::new();
    let mut r: usize = 0;
    while r < rows
        invariant
            n == raw@.len(),
            r <= rows,
            holds_strided_rows(raw@.len(), rows as nat, len as nat, stride as nat),
            out@ == strided_rows(raw@, r as nat, len as nat, stride as nat).flatten_alt(),
        decreases rows - r,
    {
        proof {
            lemma_row_start_bound(r as int, rows as int, stride as int, len as int);
        }
        let start = r * stride;
        append_run(&mut out, raw, start, len);
        proof {
            let next = strided_rows(raw@, (r + 1) as nat, len as nat, stride as nat);
            assert(next.drop_last() =~= strided_rows(raw@, r as nat, len as nat, stride as nat));
        }
        r = r + 1;
    }
    out
}

/// Splits a flat row-major buffer into `rows` rows of `cols` counters.
pub fn rows_from_flat(raw: &[u32], rows: usize, cols: usize) -> (grid: Vec<Vec<u32>>)
    requires
        rows * cols <= raw@.len(),
    ensures
        grid_view(grid@) == strided_rows(raw@, rows as nat, cols as nat, cols as nat),
{
    let n = raw.len();
    let mut grid: Vec<Vec<u32>> = Vec::new();
    let mut r: usize = 0;
    while r < rows
        invariant
            n == raw@.len(),
            r <= rows,
            rows * cols <= raw@.len(),
            grid@.len() == r,
            forall|k: int| 0 <= k < r ==> #[trigger] grid@[k]@ == raw@.subrange(k * cols, k * cols + cols),
        decreases rows - r,
    {
        proof {
            lemma_row_start_bound(r as int, rows as int, cols as int, cols as int);
            assert((rows - 1) * cols + cols == rows * cols) by (nonlinear_arith);
        }
        let start = r * cols;
        let mut row: Vec<u32> = Vec::new();
        append_run(&mut row, raw, start, cols);
        assert(row@ =~= raw@.subrange(start as int, start + cols));
        grid.push(row);
        r = r + 1;
    }
    assert(grid_view(grid@) =~~= strided_rows(raw@, rows as nat, cols as nat, cols as nat));
    grid
}

/// Concatenates the rows of a grid into one flat row-major buffer.
pub fn flatten_rows(grid: &Vec<Vec<u32>>) -> (flat: Vec<u32>)
    ensures
        flat@ == grid_view(grid@).flatten_alt(),
{
    let mut flat: Vec<u32> = Vec::new();
    let mut r: usize = 0;
    while r < grid.len()
        invariant
            r <= grid@.len(),
            flat@ == grid_view(grid@.take(r as int)).flatten_alt(),
        decreases grid@.len() - r,
    {
        let row = &grid[r];
        append_run(&mut flat, row.as_slice(), 0, row.len());
        proof {
            let next = grid_view(grid@.take(r + 1));
            assert(next.drop_last() =~= grid_view(grid@.take(r as int)));
            assert(row@.subrange(0, row@.len() as int) =~= row@);
        }
        r = r + 1;
    }
    assert(grid@.take(grid@.len() as int) =~= grid@);
    flat
}

/// Entry `(r, c)` of a grid whose rows all have `cols` entries sits at
/// `r * cols + c` of its row-major flattening.
pub proof fn lemma_flatten_uniform<A>(g: Seq<Seq<A>>, cols: nat)
    requires
        uniform_width(g, cols),
    ensures
        g.flatten_alt().len() == g.len() * cols,
        forall|r: int, c: int| 0 <= r < g.len() && 0 <= c < cols ==>
            #[trigger] g.flatten_alt()[r * cols + c] == g[r][c],
    decreases g.len(),
{
    if g.len() > 0 {
        let prev = g.drop_last();
        assert(uniform_width(prev, cols));
        lemma_flatten_uniform(prev, cols);
        let n = g.len() as int;
        assert((n - 1) * cols + cols == n * cols) by (nonlinear_arith);
        assert forall|r: int, c: int| 0 <= r < g.len() && 0 <= c < cols implies
            #[trigger] g.flatten_alt()[r * cols + c] == g[r][c] by {
            if r < n - 1 {
                assert(r * cols + c < (n - 1) * cols) by (nonlinear_arith)
                    requires
                        0 <= r < n - 1,
                        0 <= c < cols,
                ;
                assert(prev[r] == g[r]);
            } else {
                assert(r * cols + c - prev.flatten_alt().len() == c);
            }
        }
    }
}

/// Law: splitting the row-major flattening of a grid with `cols` columns
/// into rows of `cols` gives back the grid (a CPU-flattened grid reads back
/// unchanged).
pub proof fn law_rows_of_flattened_grid<A>(g: Seq<Seq<A>>, cols: nat)
    requires
        uniform_width(g, cols),
    ensures
        strided_rows(g.flatten_alt(), g.len(), cols, cols) == g,
{
    lemma_flatten_uniform(g, cols);
    let f = g.flatten_alt();
    let h = strided_rows(f, g.len(), cols, cols);
    assert forall|r: int| 0 <= r < g.len() implies #[trigger] h[r] == g[r] by {
        lemma_row_start_bound(r, g.len() as int, cols as int, cols as int);
        assert((g.len() - 1) * cols + cols == g.len() * cols) by (nonlinear_arith);
        assert forall|c: int| 0 <= c < cols implies #[trigger] h[r][c] == g[r][c] by {
            assert(h[r][c] == f[r * cols + c]);
        }
        assert(h[r] =~= g[r]);
    }
    assert(h =~= g);
}

/// Law: flattening the rows split out of a flat buffer gives back the first
/// `rows * cols` entries of the buffer.
pub proof fn law_flattened_rows_of_buffer<A>(raw: Seq<A>, rows: nat, cols: nat)
    requires
        rows * cols <= raw.len(),
    ensures
        strided_rows(raw, rows, cols, cols).flatten_alt() == raw.take((rows * cols) as int),
{
    let h = strided_rows(raw, rows, cols, cols);
    assert forall|r: int| 0 <= r < h.len() implies (#[trigger] h[r]).len() == cols by {
        lemma_row_start_bound(r, rows as int, cols as int, cols as int);
        assert((rows - 1) * cols + cols == rows * cols) by (nonlinear_arith)
            requires
                rows > 0,
        ;
    }
    lemma_flatten_uniform(h, cols);
    let f = h.flatten_alt();
    let t = raw.take((rows * cols) as int);
    assert forall|i: int| 0 <= i < rows * cols implies #[trigger] f[i] == t[i] by {
        let r = i / cols as int;
        let c = i % cols as int;
        assert(cols > 0) by (nonlinear_arith)
            requires
                0 <= i < rows * cols,
        ;
        vstd::arithmetic::div_mod::lemma_fundamental_div_mod(i, cols as int);
        assert(0 <= c < cols);
        assert(0 <= r < rows) by (nonlinear_arith)
            requires
                i == cols * r + c,
                0 <= c < cols,
                0 <= i < rows * cols,
        ;
        assert(i == r * cols + c) by (nonlinear_arith)
            requires
                i == cols * r + c,
        ;
        lemma_row_start_bound(r, rows as int, cols as int, cols as int);
        assert((rows - 1) * cols + cols == rows * cols) by (nonlinear_arith)
            requires
                rows > 0,
        ;
        assert(f[r * cols + c] == h[r][c]);
    }
    assert(f =~= t);
}

} // verus!
