//! Weighted counting over sequences: the mathematical model of histograms.

use vstd::prelude::*;

verus! {

/// Sum of `w(a)` over all elements `a` of `s`.
pub open spec fn weight_sum<A>(s: Seq<A>, w: spec_fn(A) -> nat) -> nat
    decreases s.len(),
{
    if s.len() == 0 {
        0
    } else {
        weight_sum(s.drop_last(), w) + w(s.last())
    }
}

/// Appending one element adds its weight.
pub proof fn lemma_weight_sum_push<A>(s: Seq<A>, a: A, w: spec_fn(A) -> nat)
    ensures
        weight_sum(s.push(a), w) == weight_sum(s, w) + w(a),
{
    assert(s.push(a).drop_last() =~= s);
}

/// The weight of a prefix never exceeds the weight of the whole sequence.
pub proof fn lemma_weight_sum_prefix<A>(s: Seq<A>, i: int, w: spec_fn(A) -> nat)
    requires
        0 <= i <= s.len(),
    ensures
        weight_sum(s.take(i), w) <= weight_sum(s, w),
    decreases s.len(),
{
    if i < s.len() {
        lemma_weight_sum_prefix(s.drop_last(), i, w);
        assert(s.drop_last().take(i) =~= s.take(i));
    } else {
        assert(s.take(i) =~= s);
    }
}

/// The prefix of length `i + 1` is the prefix of length `i` followed by `s[i]`.
pub proof fn lemma_take_succ<A>(s: Seq<A>, i: int)
    requires
        0 <= i < s.len(),
    ensures
        s.take(i + 1) == s.take(i).push(s[i]),
{
    assert(s.take(i + 1) =~= s.take(i).push(s[i]));
}

/// Sum of the entries of a sequence of counters.
pub open spec fn seq_total(s: Seq<u32>) -> int
    decreases s.len(),
{
    if s.len() == 0 {
        0
    } else {
        seq_total(s.drop_last()) + s.last()
    }
}

/// Sum of `f(k)` for `k` in `0..n`.
pub open spec fn sum_below(n: int, f: spec_fn(int) -> nat) -> nat
    decreases n,
{
    if n <= 0 {
        0
    } else {
        sum_below(n - 1, f) + f(n - 1)
    }
}

/// Summing two functions pointwise sums their sums.
pub proof fn lemma_sum_below_add(n: int, f: spec_fn(int) -> nat, g: spec_fn(int) -> nat, h: spec_fn(int) -> nat)
    requires
        forall|k: int| 0 <= k < n ==> #[trigger] h(k) == f(k) + g(k),
    ensures
        sum_below(n, h) == sum_below(n, f) + sum_below(n, g),
    decreases n,
{
    if n > 0 {
        lemma_sum_below_add(n - 1, f, g, h);
    }
}

/// Functions that agree below `n` have the same sum below `n`.
pub proof fn lemma_sum_below_ext(n: int, f: spec_fn(int) -> nat, g: spec_fn(int) -> nat)
    requires
        forall|k: int| 0 <= k < n ==> #[trigger] f(k) == g(k),
    ensures
        sum_below(n, f) == sum_below(n, g),
    decreases n,
{
    if n > 0 {
        lemma_sum_below_ext(n - 1, f, g);
    }
}

/// The indicator of a single index `j` sums to one below `n` exactly when `j < n`.
pub proof fn lemma_sum_below_indicator(n: int, j: int, f: spec_fn(int) -> nat)
    requires
        0 <= j,
        forall|k: int| #[trigger] f(k) == if k == j { 1nat } else { 0nat },
    ensures
        sum_below(n, f) == if j < n { 1nat } else { 0nat },
    decreases n,
{
    if n > 0 {
        lemma_sum_below_indicator(n - 1, j, f);
    }
}

/// A function that is `c` at index `j` and zero elsewhere sums to `c`
/// below `n` exactly when `j < n`.
pub proof fn lemma_sum_below_point(n: int, j: int, c: nat, f: spec_fn(int) -> nat)
    requires
        0 <= j,
        forall|k: int| #[trigger] f(k) == if k == j { c } else { 0nat },
    ensures
        sum_below(n, f) == if j < n { c } else { 0nat },
    decreases n,
{
    if n > 0 {
        lemma_sum_below_point(n - 1, j, c, f);
    }
}

/// A function that is zero below `n` sums to zero.
pub proof fn lemma_sum_below_zero(n: int, f: spec_fn(int) -> nat)
    requires
        forall|k: int| 0 <= k < n ==> #[trigger] f(k) == 0,
    ensures
        sum_below(n, f) == 0,
    decreases n,
{
    if n > 0 {
        lemma_sum_below_zero(n - 1, f);
    }
}

/// The total of a sequence of counters built from `f` is the sum of `f`.
pub proof fn lemma_seq_total_new(n: nat, f: spec_fn(int) -> nat)
    requires
        forall|k: int| 0 <= k < n ==> #[trigger] f(k) <= u32::MAX,
    ensures
        seq_total(Seq::new(n, |k: int| f(k) as u32)) == sum_below(n as int, f),
    decreases n,
{
    if n > 0 {
        let s = Seq::new(n, |k: int| f(k) as u32);
        let t = Seq::new((n - 1) as nat, |k: int| f(k) as u32);
        assert(s.drop_last() =~= t);
        lemma_seq_total_new((n - 1) as nat, f);
    }
}

/// Sum of all counters of a grid, row by row.
pub open spec fn grid_total(g: Seq<Seq<u32>>) -> int
    decreases g.len(),
{
    if g.len() == 0 {
        0
    } else {
        grid_total(g.drop_last()) + seq_total(g.last())
    }
}

/// The total of a grid built row by row is the sum of its row totals.
pub proof fn lemma_grid_total_new(n: nat, rows: spec_fn(int) -> Seq<u32>, row_totals: spec_fn(int) -> nat)
    requires
        forall|y: int| 0 <= y < n ==> seq_total(#[trigger] rows(y)) == row_totals(y),
    ensures
        grid_total(Seq::new(n, |y: int| rows(y))) == sum_below(n as int, row_totals),
    decreases n,
{
    if n > 0 {
        let g = Seq::new(n, |y: int| rows(y));
        assert(g.drop_last() =~= Seq::new((n - 1) as nat, |y: int| rows(y)));
        lemma_grid_total_new((n - 1) as nat, rows, row_totals);
        assert(seq_total(rows(n - 1)) == row_totals(n - 1));
    }
}

} // verus!
