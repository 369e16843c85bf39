use phantomat::compute::{grid_from_readback, plan_histogram_2d_gpu, ComputeError, HistogramPlan};
use phantomat::layout::{flatten_rows, rows_from_flat, unpad_rows};

#[test]
fn flatten_is_row_major() {
    let g = vec![vec![1, 2, 3], vec![4, 5, 6]];
    assert_eq!(flatten_rows(&g), vec![1, 2, 3, 4, 5, 6]);
    assert_eq!(flatten_rows(&vec![vec![1], vec![], vec![2, 3]]), vec![1, 2, 3]);
}

#[test]
fn rows_from_flat_reads_row_major() {
    let raw = [1u32, 2, 3, 4, 5, 6, 7];
    assert_eq!(rows_from_flat(&raw, 2, 3), vec![vec![1, 2, 3], vec![4, 5, 6]]);
    assert_eq!(rows_from_flat(&raw, 0, 3), Vec::<Vec<u32>>::new());
    assert_eq!(rows_from_flat(&raw, 2, 0), vec![Vec::<u32>::new(), Vec::new()]);
}

#[test]
fn flatten_then_split_round_trips() {
    // law: splitting the flattening of a grid gives back the grid
    let g = vec![vec![9, 8], vec![7, 6], vec![5, 4]];
    let flat = flatten_rows(&g);
    assert_eq!(rows_from_flat(&flat, 3, 2), g);
    // law: flattening the split rows gives back the buffer prefix
    let raw = [1u32, 2, 3, 4, 5, 6, 7, 8];
    assert_eq!(flatten_rows(&rows_from_flat(&raw, 2, 3)), raw[..6].to_vec());
}

#[test]
fn unpad_rows_drops_row_padding() {
    let padded: Vec<u8> = vec![1, 2, 0, 0, 3, 4, 0, 0, 5, 6];
    assert_eq!(unpad_rows(&padded, 3, 2, 4), vec![1, 2, 3, 4, 5, 6]);
    assert_eq!(unpad_rows(&padded, 0, 2, 4), Vec::<u8>::new());
}

#[test]
fn gpu_plan_zero_bins_is_empty() {
    match plan_histogram_2d_gpu(10, 10, 0, 4, true) {
        Ok(HistogramPlan::Done(g)) => assert!(g.is_empty()),
        _ => panic!("expected an empty grid"),
    }
}

#[test]
fn gpu_plan_no_points_is_zero_grid_even_for_degenerate_range() {
    match plan_histogram_2d_gpu(0, 5, 3, 2, false) {
        Ok(HistogramPlan::Done(g)) => assert_eq!(g, vec![vec![0, 0, 0], vec![0, 0, 0]]),
        _ => panic!("expected a zero grid"),
    }
}

#[test]
fn gpu_plan_degenerate_range_is_invalid_input() {
    match plan_histogram_2d_gpu(3, 4, 2, 2, false) {
        Err(ComputeError::InvalidInput(msg)) => assert_eq!(msg, "degenerate range"),
        _ => panic!("expected InvalidInput"),
    }
}

#[test]
fn gpu_plan_dispatch_sizes() {
    match plan_histogram_2d_gpu(130, 200, 32, 16, true) {
        Ok(HistogramPlan::Dispatch(d)) => {
            assert_eq!(d.n_points, 130);
            assert_eq!(d.n_inputs, 130);
            assert_eq!(d.bins_x, 32);
            assert_eq!(d.bins_y, 16);
            assert_eq!(d.bin_count, 512);
            assert_eq!(d.bin_bytes, 2048);
            assert_eq!(d.workgroups, 3);
        }
        _ => panic!("expected a dispatch"),
    }
}

#[test]
fn gpu_readback_is_split_into_rows() {
    let raw = [0u32, 1, 2, 3, 4, 5];
    assert_eq!(grid_from_readback(&raw, 2, 3), vec![vec![0, 1], vec![2, 3], vec![4, 5]]);
}
