use phantomat::bindings::{check_scatter_shapes, BackendPref, ShapeError};
use phantomat::heatmap::{plan_heatmap, point_words};
use phantomat::scale::{check_log_scale, ScaleError};
use phantomat::scatter::{LayerStack, LayoutError, ScatterLayer, INSTANCE_WORDS};

fn bits(v: &[f32]) -> Vec<u32> {
    v.iter().map(|f| f.to_bits()).collect()
}

fn red_point() -> ScatterLayer {
    ScatterLayer::new(
        vec![[0.0f32.to_bits(), 0.0f32.to_bits()]],
        vec![[1.0f32.to_bits(), 0.0f32.to_bits(), 0.0f32.to_bits(), 1.0f32.to_bits()]],
        vec![32.0f32.to_bits()],
        (256, 256),
    )
}

#[test]
fn log_scale_checks_base_before_domain() {
    assert_eq!(check_log_scale(false, false), Err(ScaleError::InvalidLogBase));
    assert_eq!(check_log_scale(false, true), Err(ScaleError::InvalidLogBase));
    assert_eq!(check_log_scale(true, false), Err(ScaleError::NonPositiveDomain));
    assert_eq!(check_log_scale(true, true), Ok(()));
    assert_eq!(ScaleError::NonPositiveDomain.message(), "log scale domain must be strictly positive");
    assert_eq!(ScaleError::InvalidLogBase.message(), "log scale base must be finite, positive, and not 1");
}

#[test]
fn new_layer_defaults() {
    let l = red_point();
    assert_eq!(l.len(), 1);
    assert!(!l.is_empty());
    assert_eq!(l.canvas_px(), (256, 256));
    assert!(l.clear_before_draw());
}

#[test]
fn instance_records_are_48_bytes_with_padding() {
    let l = red_point();
    let w = l.instance_words();
    assert_eq!(INSTANCE_WORDS, 12);
    assert_eq!(w, bits(&[0.0, 0.0, 0.0, 0.0, 1.0, 0.0, 0.0, 1.0, 32.0, 0.0, 0.0, 0.0]));
    let two = ScatterLayer::new(vec![[1, 2], [3, 4]], vec![[5, 6, 7, 8], [9, 10, 11, 12]], vec![13, 14], (1, 1));
    assert_eq!(
        two.instance_words(),
        vec![1, 2, 0, 0, 5, 6, 7, 8, 13, 0, 0, 0, 3, 4, 0, 0, 9, 10, 11, 12, 14, 0, 0, 0]
    );
}

#[test]
fn set_points_and_settings() {
    let mut l = red_point();
    l.set_points(Vec::new(), Vec::new(), Vec::new());
    assert!(l.is_empty());
    assert_eq!(l.instance_words(), Vec::<u32>::new());
    l.set_canvas_px((10, 20));
    assert_eq!(l.canvas_px(), (10, 20));
    l.set_clear_before_draw(false);
    assert!(!l.clear_before_draw());
}

#[test]
fn columns_make_the_same_layer_as_rows() {
    let l = ScatterLayer::from_columns(&[1], &[2], &[3], &[4], &[5], &[6], &[7], (8, 9)).unwrap();
    assert_eq!(l.positions, vec![[1, 2]]);
    assert_eq!(l.colors, vec![[3, 4, 5, 6]]);
    assert_eq!(l.sizes, vec![7]);
    assert_eq!(l.canvas_px, (8, 9));
    let e = ScatterLayer::from_columns(&[1, 2], &[2], &[3], &[4], &[5], &[6], &[7], (8, 9));
    assert_eq!(e.err(), Some(LayoutError::ColumnLengths));
    assert_eq!(LayoutError::ColumnLengths.message(), "all Arrow columns must have the same length");
}

#[test]
fn column_block_is_split_into_seven_columns() {
    let block: Vec<u32> = (0..14).collect();
    let l = ScatterLayer::from_arrow_block(&block, 2, (4, 4));
    assert_eq!(l.positions, vec![[0, 2], [1, 3]]);
    assert_eq!(l.colors, vec![[4, 6, 8, 10], [5, 7, 9, 11]]);
    assert_eq!(l.sizes, vec![12, 13]);
}

#[test]
fn interleaved_arrays_are_checked() {
    let l = ScatterLayer::from_interleaved(&[1, 2, 3, 4], &[5, 6, 7, 8, 9, 10, 11, 12], &[13, 14]).unwrap();
    assert_eq!(l.positions, vec![[1, 2], [3, 4]]);
    assert_eq!(l.colors, vec![[5, 6, 7, 8], [9, 10, 11, 12]]);
    assert_eq!(l.sizes, vec![13, 14]);
    assert_eq!(l.canvas_px, (1, 1));
    assert_eq!(ScatterLayer::from_interleaved(&[1, 2, 3], &[], &[]).err(), Some(LayoutError::PositionsNotPairs));
    assert_eq!(ScatterLayer::from_interleaved(&[1, 2], &[1, 2, 3], &[1]).err(), Some(LayoutError::ColorsLength));
    assert_eq!(ScatterLayer::from_interleaved(&[1, 2], &[1, 2, 3, 4], &[]).err(), Some(LayoutError::SizesLength));
    assert_eq!(LayoutError::PositionsNotPairs.message(), "positions length must be a multiple of 2");
}

#[test]
fn only_the_first_stacked_layer_clears() {
    let mut s = LayerStack::new((64, 32));
    assert!(s.is_empty());
    s.add_layer(red_point());
    s.add_layer(red_point());
    s.add_layer(red_point());
    assert_eq!(s.len(), 3);
    let ls = s.layers();
    assert!(ls[0].clear_before_draw());
    assert!(!ls[1].clear_before_draw());
    assert!(!ls[2].clear_before_draw());
    assert!(ls.iter().all(|l| l.canvas_px() == (64, 32)));
    s.clear();
    assert_eq!(s.len(), 0);
    assert_eq!(s.canvas_px(), (64, 32));
}

#[test]
fn scatter_shapes() {
    assert_eq!(check_scatter_shapes(&[3, 2], &[3, 4], &[3]), Ok(3));
    assert_eq!(check_scatter_shapes(&[3, 3], &[3, 4], &[3]), Err(ShapeError::Positions));
    assert_eq!(check_scatter_shapes(&[3], &[3, 4], &[3]), Err(ShapeError::Positions));
    assert_eq!(check_scatter_shapes(&[3, 2], &[2, 4], &[3]), Err(ShapeError::Colors));
    assert_eq!(check_scatter_shapes(&[3, 2], &[3, 4], &[2]), Err(ShapeError::Sizes));
    assert_eq!(ShapeError::Colors.message(), "colors must have shape (N, 4) matching positions");
}

#[test]
fn backend_preferences() {
    assert_eq!(BackendPref::parse("webgpu"), Ok(BackendPref::WebGpuOnly));
    assert_eq!(BackendPref::parse("webgl"), Ok(BackendPref::GlOnly));
    assert_eq!(BackendPref::parse("all"), Ok(BackendPref::All));
    assert_eq!(BackendPref::parse("auto"), Ok(BackendPref::All));
    assert_eq!(BackendPref::parse(""), Ok(BackendPref::All));
    assert_eq!(
        BackendPref::parse("vulkan"),
        Err("backend_preference must be 'webgpu', 'webgl', or 'all' / 'auto'".to_string())
    );
}

#[test]
fn heatmap_point_records() {
    assert_eq!(point_words(&[[1, 2], [3, 4]], &[5, 6]), vec![1, 2, 5, 0, 3, 4, 6, 0]);
}

#[test]
fn heatmap_plan_sizes() {
    let d = plan_heatmap((0, 8), 100);
    assert_eq!(d.bins_x, 1);
    assert_eq!(d.bins_y, 8);
    assert_eq!(d.n_bins, 8);
    assert_eq!(d.bin_bytes, 32);
    assert_eq!(d.point_groups, 2);
    assert_eq!(d.bin_groups, 1);
    let d = plan_heatmap((32, 32), 0);
    assert_eq!(d.n_bins, 1024);
    assert_eq!(d.point_groups, 0);
    assert_eq!(d.bin_groups, 16);
}
