//! Scaling a bitmap to an exact size.
//!
//! The resampling itself is the work of the `image` crate; what is proved
//! here is what surrounds it: that the call is only made on sizes it can
//! take, and what the bitmap handed back looks like.

use crate::bitmap::{rgba_at, Bitmap};
use crate::color::Rgba;
use vstd::prelude::*;

verus! {

/// The largest width or height that is scaled from or to: 2^24, up to which
/// a 32-bit float holds every coordinate exactly.
pub const RESIZE_LIMIT: u32 = 0x100_0000;

/// Why a bitmap was not scaled.
#[derive(Clone, Copy, Debug, PartialEq, Eq, Structural)]
pub enum ResizeError {
    /// A side is beyond [`RESIZE_LIMIT`], or one of the buffers of the
    /// scaling would be larger than an allocation may be.
    TooLarge,
}

/// Whether a bitmap of `width` by `height` can be scaled to `new_width` by
/// `new_height`: no side is beyond [`RESIZE_LIMIT`], and the source, the
/// intermediate buffer of four 32-bit floats per pixel and the result each
/// fit an allocation.
pub open spec fn resize_in_reach(width: nat, height: nat, new_width: nat, new_height: nat) -> bool {
    &&& width <= RESIZE_LIMIT
    &&& height <= RESIZE_LIMIT
    &&& new_width <= RESIZE_LIMIT
    &&& new_height <= RESIZE_LIMIT
    &&& 4 * (width * height) <= isize::MAX
    &&& 16 * (width * new_height) <= isize::MAX
    &&& 4 * (new_width * new_height) <= isize::MAX
}

/// `image::imageops::resize` with the filter `FilterType::Lanczos3`, on an
/// image of four 8-bit channels per pixel given and taken as its raw bytes.
///
/// Claimed of it: the result has the size asked for; where that is the
/// source's own size, the result is a copy of the source; where the source
/// has no pixel, every byte of the result is zero.
#[verifier::external_body]
fn lanczos3_resize(
    width: u32,
    height: u32,
    bytes: Vec<u8>,
    new_width: u32,
    new_height: u32,
) -> (out: Vec<u8>)
    requires
        bytes@.len() == 4 * (width * height),
        resize_in_reach(width as nat, height as nat, new_width as nat, new_height as nat),
    ensures
        out@.len() == 4 * (new_width * new_height),
        new_width == width && new_height == height ==> out@ == bytes@,
        width == 0 || height == 0 ==> forall|i: int| 0 <= i < out@.len() ==> out@[i] == 0,
{
    let source = image::RgbaImage::from_raw(width, height, bytes).unwrap();
    let filter = image::imageops::FilterType::Lanczos3;
    image::imageops::resize(&source, new_width, new_height, filter).into_raw()
}

/// Whether a bitmap of `width` by `height` can be scaled to `new_width` by
/// `new_height`.
pub fn can_resize(width: usize, height: usize, new_width: u32, new_height: u32) -> (r: bool)
    ensures
        r == resize_in_reach(width as nat, height as nat, new_width as nat, new_height as nat),
{
    if width > RESIZE_LIMIT as usize || height > RESIZE_LIMIT as usize || new_width > RESIZE_LIMIT
        || new_height > RESIZE_LIMIT {
        return false;
    }
    let w: u128 = width as u128;
    let h: u128 = height as u128;
    let nw: u128 = new_width as u128;
    let nh: u128 = new_height as u128;
    let cap: u128 = isize::MAX as u128;
    assert(w * h <= 0x1_0000_0000_0000 && w * nh <= 0x1_0000_0000_0000 && nw * nh
        <= 0x1_0000_0000_0000) by (nonlinear_arith)
        requires
            0 <= w <= 0x100_0000,
            0 <= h <= 0x100_0000,
            0 <= nw <= 0x100_0000,
            0 <= nh <= 0x100_0000,
    ;
    4 * (w * h) <= cap && 16 * (w * nh) <= cap && 4 * (nw * nh) <= cap
}

/// Scales a bitmap to exactly `new_width` by `new_height`, by Lanczos
/// resampling with a window of three.
///
/// The bitmap handed back has the size asked for. Scaling to the bitmap's
/// own size hands back its pixels unchanged; scaling a bitmap without
/// pixels hands back transparent black.
pub fn resize_exact(bitmap: &Bitmap, new_width: u32, new_height: u32) -> (result: Result<
    Bitmap,
    ResizeError,
>)
    ensures
        resize_in_reach(bitmap.cols(), bitmap.rows(), new_width as nat, new_height as nat)
            <==> result is Ok,
        result matches Err(e) ==> e == ResizeError::TooLarge,
        result matches Ok(scaled) ==> {
            &&& scaled.wf()
            &&& scaled.cols() == new_width
            &&& scaled.rows() == new_height
            &&& bitmap.cols() == new_width && bitmap.rows() == new_height ==> scaled.pixels()
                == bitmap.pixels()
            &&& bitmap.cols() == 0 || bitmap.rows() == 0 ==> forall|i: int|
                0 <= i < scaled.pixels().len() ==> scaled.pixels()[i] == (Rgba {
                    r: 0,
                    g: 0,
                    b: 0,
                    a: 0,
                })
        },
{
    let width: usize = bitmap.width();
    let height: usize = bitmap.height();
    if !can_resize(width, height, new_width, new_height) {
        return Err(ResizeError::TooLarge);
    }
    let bytes: Vec<u8> = match bitmap.to_rgba_bytes() {
        Some(bytes) => bytes,
        None => {
            return Err(ResizeError::TooLarge);
        },
    };
    let ghost source = bytes@;
    let out: Vec<u8> = lanczos3_resize(width as u32, height as u32, bytes, new_width, new_height);
    match Bitmap::from_rgba_bytes(new_width as usize, new_height as usize, out.as_slice()) {
        Some(scaled) => {
            proof {
                if bitmap.cols() == new_width && bitmap.rows() == new_height {
                    assert(scaled.pixels() =~= bitmap.pixels());
                }
            }
            Ok(scaled)
        },
        None => Err(ResizeError::TooLarge),
    }
}

} // verus!
