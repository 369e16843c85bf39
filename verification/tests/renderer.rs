use phantomat::capacity::{grown_capacity, next_power_of_two};
use phantomat::renderer::{check_target_size, encode_readback, layer_pass, readback_layout, LayerPass, RendererError};

#[test]
fn target_size_must_be_non_zero() {
    assert!(check_target_size(256, 256).is_ok());
    match check_target_size(0, 10) {
        Err(RendererError::Scene(msg)) => assert_eq!(msg, "width and height must be non-zero"),
        _ => panic!("expected a Scene error"),
    }
    assert!(check_target_size(10, 0).is_err());
}

#[test]
fn readback_rows_are_padded_to_the_alignment() {
    let l = readback_layout(10, 3, 256);
    assert_eq!(l.unpadded_bytes_per_row, 40);
    assert_eq!(l.padded_bytes_per_row, 256);
    assert_eq!(l.buffer_size, 768);
    let l = readback_layout(64, 2, 256);
    assert_eq!(l.padded_bytes_per_row, 256);
    let l = readback_layout(65, 2, 256);
    assert_eq!(l.padded_bytes_per_row, 512);
    assert_eq!(l.buffer_size, 1024);
}

#[test]
fn encode_readback_writes_the_unpadded_pixels_as_png() {
    // 2 x 2 image, rows padded to 12 bytes
    let padded: Vec<u8> = vec![
        255, 0, 0, 255, 0, 255, 0, 255, 9, 9, 9, 9, //
        0, 0, 255, 255, 255, 255, 255, 255,
    ];
    let png = encode_readback(&padded, 2, 2, 12).expect("png");
    assert_eq!(&png[..8], &[0x89, b'P', b'N', b'G', 0x0D, 0x0A, 0x1A, 0x0A]);
    let img = image::load_from_memory(&png).expect("decode").into_rgba8();
    assert_eq!(img.dimensions(), (2, 2));
    assert_eq!(
        img.into_raw(),
        vec![255, 0, 0, 255, 0, 255, 0, 255, 0, 0, 255, 255, 255, 255, 255, 255]
    );
}

#[test]
fn layer_pass_decisions() {
    assert_eq!(layer_pass(0, false), LayerPass::Skip);
    assert_eq!(layer_pass(0, true), LayerPass::ClearOnly);
    assert_eq!(layer_pass(5, true), LayerPass::Draw { clear: true });
    assert_eq!(layer_pass(5, false), LayerPass::Draw { clear: false });
}

#[test]
fn next_power_of_two_values() {
    assert_eq!(next_power_of_two(0), 1);
    assert_eq!(next_power_of_two(1), 1);
    assert_eq!(next_power_of_two(2), 2);
    assert_eq!(next_power_of_two(3), 4);
    assert_eq!(next_power_of_two(1000), 1024);
    assert_eq!(next_power_of_two(0x8000_0000), 0x8000_0000);
}

#[test]
fn capacity_grows_only_when_needed() {
    assert_eq!(grown_capacity(256, 100), None);
    assert_eq!(grown_capacity(256, 256), None);
    assert_eq!(grown_capacity(256, 257), Some(512));
    assert_eq!(grown_capacity(1, 3), Some(4));
    // law: after growing, the same demand needs no further growth
    let c = grown_capacity(4, 1000).unwrap();
    assert_eq!(grown_capacity(c, 1000), None);
}

#[test]
fn png_encoder_refuses_an_empty_raster() {
    match encode_readback(&[], 0, 0, 0) {
        Err(RendererError::ImageEncode(_)) => {}
        other => panic!("expected an encoder error, got {other:?}"),
    }
}
