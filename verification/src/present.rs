//! From a decoded picture to the frame that is shown: scale to the
//! terminal, then render.

use crate::bitmap::Bitmap;
use crate::frame::AsciiFrame;
use crate::layout::{target_cols, target_rows, target_size};
use crate::quantize::Quantizer;
use crate::ramp::GlyphRamp;
use crate::render::{render, rendered};
use crate::resize::{resize_exact, resize_in_reach};
use vstd::prelude::*;

verus! {

/// Why a picture was not shown.
#[derive(Clone, Copy, Debug, PartialEq, Eq, Structural)]
pub enum PresentError {
    /// The picture or its target is too large to scale.
    TooLarge,
    /// The target has no columns or no rows.
    InvalidBitmap,
}

/// Scales a picture to the terminal and renders it.
///
/// The target has [`target_rows`] rows and [`target_cols`] columns. The
/// frame is the rendering of a bitmap of exactly that size, which is the
/// picture itself where the picture has that size already.
pub fn fit_and_render(
    picture: &Bitmap,
    terminal_rows: Option<u16>,
    max_rows: u32,
    ramp: &GlyphRamp,
    quantizer: &Quantizer,
) -> (result: Result<AsciiFrame, PresentError>)
    ensures
        ({
            let rows = target_rows(terminal_rows, max_rows);
            let cols = target_cols(rows);
            let in_reach = resize_in_reach(picture.cols(), picture.rows(), cols, rows);
            &&& result is Ok <==> in_reach && rows >= 1 && cols >= 1
            &&& result matches Err(e) ==> (e == PresentError::TooLarge <==> !in_reach)
            &&& result matches Ok(frame) ==> {
                &&& frame@.len() == rows
                &&& forall|y: int| 0 <= y < rows ==> (#[trigger] frame@[y]).len() == cols
                &&& exists|scaled: Bitmap|
                    {
                        &&& scaled.cols() == cols
                        &&& scaled.rows() == rows
                        &&& picture.cols() == cols && picture.rows() == rows ==> scaled.pixels()
                            == picture.pixels()
                        &&& #[trigger] rendered(*quantizer, *ramp, scaled) == frame@
                    }
            }
        }),
{
    let size: (u32, u32) = target_size(terminal_rows, max_rows);
    match resize_exact(picture, size.0, size.1) {
        Ok(scaled) => match render(&scaled, ramp, quantizer) {
            Ok(frame) => Ok(frame),
            Err(_) => Err(PresentError::InvalidBitmap),
        },
        Err(_) => Err(PresentError::TooLarge),
    }
}

} // verus!
