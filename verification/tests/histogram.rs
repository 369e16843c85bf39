//! CPU histograms: floating-point binning done here, accumulation by the library.

use phantomat::histogram::{clamp_bin, count_bins_1d, count_bins_2d, grid_max, weighted_bins_2d};

/// Raw position index of `v` in `[min, max]` split into `bins` bins
/// (`None` outside the range or for non-finite input).
fn raw_bin(v: f64, min: f64, max: f64, bins: usize) -> Option<usize> {
    if !v.is_finite() || !min.is_finite() || !max.is_finite() || bins == 0 {
        return None;
    }
    if v < min || v > max {
        return None;
    }
    let t = (v - min) / (max - min);
    if !t.is_finite() {
        return None;
    }
    Some((t * bins as f64).floor() as usize)
}

fn histogram_1d_cpu(values: &[f64], bins: usize, range: (f64, f64)) -> Vec<u32> {
    let (min, max) = range;
    let w = max - min;
    let range_ok = w.is_finite() && w > 0.0;
    let samples: Vec<Option<usize>> = values.iter().map(|&v| raw_bin(v, min, max, bins)).collect();
    count_bins_1d(bins, range_ok, &samples).expect("counts fit in u32")
}

fn histogram_2d_cpu(
    xs: &[f64],
    ys: &[f64],
    bins_x: usize,
    bins_y: usize,
    range: ((f64, f64), (f64, f64)),
) -> Vec<Vec<u32>> {
    let ((xmin, xmax), (ymin, ymax)) = range;
    let wx = xmax - xmin;
    let wy = ymax - ymin;
    let range_ok = wx.is_finite() && wy.is_finite() && wx > 0.0 && wy > 0.0;
    let n = xs.len().min(ys.len());
    let samples: Vec<Option<(usize, usize)>> = (0..n)
        .map(|i| match (raw_bin(xs[i], xmin, xmax, bins_x), raw_bin(ys[i], ymin, ymax, bins_y)) {
            (Some(bx), Some(by)) => Some((bx, by)),
            _ => None,
        })
        .collect();
    count_bins_2d(bins_x, bins_y, range_ok, &samples).expect("counts fit in u32")
}

#[test]
fn one_d_manual_uniform_bins() {
    let v = [0.0, 0.25, 0.5, 0.75, 1.0];
    let h = histogram_1d_cpu(&v, 4, (0.0, 1.0));
    assert_eq!(h, vec![1, 1, 1, 2]);
}

#[test]
fn one_d_out_of_range_ignored() {
    let v = [-1.0, 0.5, 2.0];
    let h = histogram_1d_cpu(&v, 2, (0.0, 1.0));
    assert_eq!(h, vec![0, 1]);
}

#[test]
fn two_d_single_bin_corner() {
    let xs = [0.0];
    let ys = [0.0];
    let g = histogram_2d_cpu(&xs, &ys, 1, 1, ((-1.0, 1.0), (-1.0, 1.0)));
    assert_eq!(g, vec![vec![1u32]]);
}

#[test]
fn two_d_quadrants() {
    let xs = [-0.5, 0.5, -0.5, 0.5];
    let ys = [-0.5, -0.5, 0.5, 0.5];
    let g = histogram_2d_cpu(&xs, &ys, 2, 2, ((-1.0, 1.0), (-1.0, 1.0)));
    assert_eq!(g, vec![vec![1, 1], vec![1, 1]]);
}

#[test]
fn degenerate_range_returns_zeros_but_sized() {
    let h = histogram_1d_cpu(&[1.0, 2.0], 3, (0.0, 0.0));
    assert_eq!(h, vec![0, 0, 0]);
}

#[test]
fn clamp_bin_keeps_inner_positions_and_clamps_the_upper_edge() {
    assert_eq!(clamp_bin(0, 4), 0);
    assert_eq!(clamp_bin(3, 4), 3);
    assert_eq!(clamp_bin(4, 4), 3);
    assert_eq!(clamp_bin(usize::MAX, 4), 3);
}

#[test]
fn zero_bins_give_empty_histograms() {
    assert_eq!(count_bins_1d(0, true, &vec![Some(0)]), Some(Vec::<u32>::new()));
    assert_eq!(count_bins_2d(0, 3, true, &vec![Some((0, 0))]), Some(Vec::<Vec<u32>>::new()));
    assert_eq!(count_bins_2d(3, 0, true, &vec![Some((0, 0))]), Some(Vec::<Vec<u32>>::new()));
    assert_eq!(weighted_bins_2d(0, 0, true, &vec![Some((0, 0, 5))]), Vec::<Vec<u32>>::new());
}

#[test]
fn degenerate_range_gives_zero_grid_of_full_shape() {
    let g = count_bins_2d(3, 2, false, &vec![Some((0, 0)), Some((1, 1))]).unwrap();
    assert_eq!(g, vec![vec![0, 0, 0], vec![0, 0, 0]]);
}

#[test]
fn one_d_total_equals_samples_in_range() {
    // law: the counts add up to the number of samples inside the range
    let values: Vec<f64> = (0..200).map(|i| -1.0 + (i as f64) * 0.0173).collect();
    let h = histogram_1d_cpu(&values, 7, (-0.5, 1.25));
    let in_range = values.iter().filter(|&&v| v >= -0.5 && v <= 1.25).count() as u32;
    assert_eq!(h.iter().sum::<u32>(), in_range);
}

#[test]
fn two_d_total_equals_samples_in_range() {
    let samples = vec![Some((0, 0)), None, Some((5, 1)), Some((2, 9)), None, Some((1, 1))];
    let g = count_bins_2d(3, 2, true, &samples).unwrap();
    assert_eq!(g, vec![vec![1, 0, 0], vec![0, 1, 2]]);
    let total: u32 = g.iter().flatten().sum();
    assert_eq!(total, 4);
}

#[test]
fn weighted_grid_sums_and_saturates() {
    let samples = vec![
        Some((0, 0, 5)),
        Some((0, 0, 7)),
        Some((1, 0, u32::MAX - 1)),
        Some((7, 0, 3)),
        None,
        Some((0, 1, 0)),
    ];
    let g = weighted_bins_2d(2, 2, true, &samples);
    assert_eq!(g, vec![vec![12, u32::MAX], vec![0, 0]]);
    let g = weighted_bins_2d(2, 2, false, &samples);
    assert_eq!(g, vec![vec![0, 0], vec![0, 0]]);
}

#[test]
fn grid_max_finds_the_largest_cell() {
    assert_eq!(grid_max(&vec![vec![1, 9, 3], vec![4, 2, 8]]), 9);
    assert_eq!(grid_max(&vec![vec![0, 0], vec![0, 0]]), 0);
    assert_eq!(grid_max(&Vec::new()), 0);
    assert_eq!(grid_max(&vec![vec![], vec![6]]), 6);
}

#[test]
fn weighted_total_equals_placed_weight_without_saturation() {
    let samples = vec![Some((0, 0, 3)), Some((9, 9, 4)), None, Some((1, 0, 5)), Some((0, 1, 0))];
    let g = weighted_bins_2d(2, 2, true, &samples);
    let total: u32 = g.iter().flatten().sum();
    assert_eq!(total, 12);
}

#[test]
fn constant_weight_grid_is_scaled_count_grid() {
    // law: every sample weighted c gives c times the count of each cell
    let cells = vec![Some((0, 0)), Some((1, 0)), None, Some((1, 0)), Some((2, 1)), Some((9, 9))];
    let counts = count_bins_2d(3, 2, true, &cells).unwrap();
    for c in [0u32, 1, 7] {
        let weighted: Vec<Option<(usize, usize, u32)>> =
            cells.iter().map(|s| s.map(|(x, y)| (x, y, c))).collect();
        let g = weighted_bins_2d(3, 2, true, &weighted);
        let expected: Vec<Vec<u32>> =
            counts.iter().map(|row| row.iter().map(|&n| n * c).collect()).collect();
        assert_eq!(g, expected);
    }
    let big: Vec<Option<(usize, usize, u32)>> =
        cells.iter().map(|s| s.map(|(x, y)| (x, y, u32::MAX / 2 + 1))).collect();
    let g = weighted_bins_2d(3, 2, true, &big);
    assert_eq!(g[0][1], u32::MAX);
    assert_eq!(g[0][0], u32::MAX / 2 + 1);
}

#[test]
fn repeated_bin_counts_accumulate() {
    assert_eq!(count_bins_1d(0, true, &vec![Some(0); 3]), Some(vec![]));
    assert_eq!(count_bins_1d(2, true, &vec![Some(1); 3]), Some(vec![0, 3]));
}
