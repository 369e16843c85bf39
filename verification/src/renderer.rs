//! Offscreen rendering: target validation, readback layout and PNG export.
//!
//! A rendered texture is copied into a buffer whose rows are padded to the
//! copy alignment of the GPU API; the rows are unpadded here and encoded as
//! an RGBA8 PNG with the `image` crate.

use vstd::prelude::*;
use image::{ImageBuffer, ImageError, ImageFormat, Rgba};
use std::io::Cursor;
use crate::layout::{strided_rows, holds_strided_rows, unpad_rows};

verus! {

#[verifier::external_type_specification]
#[verifier::external_body]
pub struct ExImageError(ImageError);

/// Errors from adapter/device setup and PNG export.
#[derive(Debug)]
pub enum RendererError {
    /// No suitable GPU adapter was found.
    NoAdapter,
    /// The GPU device request failed.
    DeviceRequest(String),
    /// Mapping the readback buffer failed.
    BufferMap(String),
    /// PNG encoding failed.
    ImageEncode(ImageError),
    /// Invalid scene or target parameters.
    Scene(String),
}

/// Checks the size of an offscreen target: both sides must be non-zero.
pub fn check_target_size(width: u32, height: u32) -> (r: Result<(), RendererError>)
    ensures
        r is Ok <==> (width > 0 && height > 0),
        r matches Err(e) ==> e matches RendererError::Scene(msg) && msg@ == "width and height must be non-zero"@,
{
    if width == 0 || height == 0 {
        return Err(RendererError::Scene("width and height must be non-zero".to_owned()));
    }
    Ok(())
}

/// What drawing a layer does to the render target.
#[derive(Debug, Clone, Copy, PartialEq, Eq, Structural)]
pub enum LayerPass {
    /// Nothing: an empty layer that keeps the target contents.
    Skip,
    /// Only clear the target to black: an empty layer that clears.
    ClearOnly,
    /// Draw the points, after clearing the target when `clear` holds.
    Draw { clear: bool },
}

/// The pass that draws a layer of `points` points.
pub fn layer_pass(points: usize, clear_before_draw: bool) -> (p: LayerPass)
    ensures
        points == 0 && !clear_before_draw ==> p == LayerPass::Skip,
        points == 0 && clear_before_draw ==> p == LayerPass::ClearOnly,
        points > 0 ==> p == (LayerPass::Draw { clear: clear_before_draw }),
{
    if points == 0 {
        if clear_before_draw {
            LayerPass::ClearOnly
        } else {
            LayerPass::Skip
        }
    } else {
        LayerPass::Draw { clear: clear_before_draw }
    }
}

/// `n` rounded up to a multiple of `align`.
pub open spec fn round_up(n: int, align: int) -> int {
    ((n + align - 1) / align) * align
}

/// Byte layout of a texture readback: each row of `4 * width` bytes is
/// padded to a multiple of the copy alignment.
pub struct ReadbackLayout {
    /// Bytes of pixel data per row (`4 * width`).
    pub unpadded_bytes_per_row: u32,
    /// Bytes per row in the readback buffer.
    pub padded_bytes_per_row: u32,
    /// Size of the readback buffer (`padded_bytes_per_row * height`).
    pub buffer_size: u64,
}

/// Readback layout of a `width` by `height` RGBA8 texture for a copy
/// alignment of `align` bytes per row.
pub fn readback_layout(width: u32, height: u32, align: u32) -> (l: ReadbackLayout)
    requires
        align > 0,
        4 * width <= u32::MAX,
        round_up(4 * width, align as int) <= u32::MAX,
    ensures
        l.unpadded_bytes_per_row == 4 * width,
        l.padded_bytes_per_row == round_up(4 * width, align as int),
        l.buffer_size == l.padded_bytes_per_row * height,
        holds_strided_rows(l.buffer_size as nat, height as nat, (4 * width) as nat, l.padded_bytes_per_row as nat),
{
    let unpadded = width * 4;
    assert((unpadded as int + align - 1) / (align as int) * (align as int) <= u32::MAX);
    let q = (unpadded as u64 + align as u64 - 1) / (align as u64);
    assert(q * align <= u32::MAX);
    let padded = (q * align as u64) as u32;
    assert(padded as u64 * height as u64 <= u32::MAX * u32::MAX) by (nonlinear_arith)
        requires
            padded <= u32::MAX,
            height <= u32::MAX,
    ;
    let size = padded as u64 * height as u64;
    assert(padded >= unpadded) by {
        let n = unpadded as int;
        let a = align as int;
        vstd::arithmetic::div_mod::lemma_fundamental_div_mod(n + a - 1, a);
        assert(((n + a - 1) / a) * a == (n + a - 1) - (n + a - 1) % a) by (nonlinear_arith)
            requires
                n + a - 1 == a * ((n + a - 1) / a) + (n + a - 1) % a,
        ;
    }
    assert(height == 0 || (height - 1) * padded + unpadded <= padded * height) by (nonlinear_arith)
        requires
            padded >= unpadded,
    ;
    ReadbackLayout { unpadded_bytes_per_row: unpadded, padded_bytes_per_row: padded, buffer_size: size }
}

/// The big-endian `u32` in the four bytes of `s` from index `i` on.
pub open spec fn be_u32_at(s: Seq<u8>, i: int) -> int {
    s[i] * 0x100_0000 + s[i + 1] * 0x1_0000 + s[i + 2] * 0x100 + s[i + 3]
}

/// Width recorded in the header chunk of a PNG file.
pub open spec fn png_width(png: Seq<u8>) -> int {
    be_u32_at(png, 16)
}

/// Height recorded in the header chunk of a PNG file.
pub open spec fn png_height(png: Seq<u8>) -> int {
    be_u32_at(png, 20)
}

/// `png` opens with the PNG signature and an `IHDR` chunk that declares a
/// `width` by `height` image of 8-bit RGBA samples, without interlacing.
pub open spec fn is_rgba8_png_header(png: Seq<u8>, width: u32, height: u32) -> bool {
    &&& png.len() >= 33
    &&& png.subrange(0, 8) == seq![137u8, 80, 78, 71, 13, 10, 26, 10]
    &&& png.subrange(8, 16) == seq![0u8, 0, 0, 13, 73, 72, 68, 82]
    &&& png_width(png) == width
    &&& png_height(png) == height
    &&& png.subrange(24, 29) == seq![8u8, 6, 0, 0, 0]
}

/// The PNG file that the `image` crate writes for a `width` by `height` RGBA8
/// raster with the given pixel bytes (rows top to bottom, 4 bytes per pixel).
pub uninterp spec fn png_rgba8(width: u32, height: u32, rgba: Seq<u8>) -> Seq<u8>;

/// Encodes an RGBA8 raster as PNG with `image::ImageBuffer::write_to` and
/// `ImageFormat::Png`; `ImageBuffer::from_raw` only wraps the pixel vector
/// into the buffer type that `write_to` takes, which always succeeds for a
/// vector of exactly `4 * width * height` bytes. The contract claims that the
/// encoding succeeds exactly when both sides are non-zero (the PNG encoder
/// refuses a zero width or height, and writing into memory does not fail),
/// and that it is then the fixed PNG file of those arguments, which starts
/// with the signature and the header chunk that the `png` crate writes first
/// (`Writer::init`, `Info::encode`): width and height big-endian, bit depth
/// 8, color type RGBA, default compression and filter, no interlacing. What
/// the image data chunks hold is not stated.
#[verifier::external_body]
fn encode_png_rgba8(width: u32, height: u32, rgba: Vec<u8>) -> (r: Result<Vec<u8>, ImageError>)
    requires
        rgba@.len() == 4 * width * height,
    ensures
        r is Ok <==> (width > 0 && height > 0),
        r matches Ok(png) ==> png@ == png_rgba8(width, height, rgba@),
        r matches Ok(png) ==> is_rgba8_png_header(png@, width, height),
{
    let img = ImageBuffer::<Rgba<u8>, Vec<u8>>::from_raw(width, height, rgba).expect("raster size");
    let mut bytes: Vec<u8> = Vec::new();
    img.write_to(&mut Cursor::new(&mut bytes), ImageFormat::Png).map(|()| bytes)
}

/// The pixel bytes of a readback: the first `4 * width` bytes of each of the
/// `height` rows, rows `padded_bytes_per_row` apart.
pub open spec fn readback_pixels(padded: Seq<u8>, width: u32, height: u32, padded_bytes_per_row: u32) -> Seq<u8> {
    strided_rows(padded, height as nat, (4 * width) as nat, padded_bytes_per_row as nat).flatten_alt()
}

/// Unpads a texture readback and encodes it as PNG. The encoding succeeds
/// for every non-empty image; an empty one is refused by the PNG encoder.
pub fn encode_readback(
    padded: &[u8],
    width: u32,
    height: u32,
    padded_bytes_per_row: u32,
) -> (r: Result<Vec<u8>, RendererError>)
    requires
        4 * width <= u32::MAX,
        4 * width * height <= u32::MAX,
        holds_strided_rows(padded@.len(), height as nat, (4 * width) as nat, padded_bytes_per_row as nat),
    ensures
        r matches Ok(png) ==> png@ == png_rgba8(width, height, readback_pixels(padded@, width, height, padded_bytes_per_row)),
        r is Ok <==> (width > 0 && height > 0),
        r matches Err(e) ==> e is ImageEncode,
        r matches Ok(png) ==> is_rgba8_png_header(png@, width, height),
        r matches Ok(png) ==> png_width(png@) == width && png_height(png@) == height,
{
    let unpadded = width * 4;
    let rgba = unpad_rows(padded, height as usize, unpadded as usize, padded_bytes_per_row as usize);
    proof {
        let rows = strided_rows(padded@, height as nat, (4 * width) as nat, padded_bytes_per_row as nat);
        assert forall|k: int| 0 <= k < rows.len() implies (#[trigger] rows[k]).len() == 4 * width by {
            assert(k * padded_bytes_per_row + 4 * width <= padded@.len()) by (nonlinear_arith)
                requires
                    0 <= k < height,
                    (height - 1) * padded_bytes_per_row + 4 * width <= padded@.len(),
                    0 <= padded_bytes_per_row,
            ;
            assert(0 <= k * padded_bytes_per_row) by (nonlinear_arith)
                requires
                    0 <= k,
                    0 <= padded_bytes_per_row,
            ;
        }
        crate::layout::lemma_flatten_uniform(rows, (4 * width) as nat);
        assert(height * (4 * width) == 4 * width * height) by (nonlinear_arith);
    }
    match encode_png_rgba8(width, height, rgba) {
        Ok(png) => Ok(png),
        Err(e) => Err(RendererError::ImageEncode(e)),
    }
}

} // verus!
