//! Rendering: one glyph and one colour for every pixel of a bitmap.

use crate::bitmap::Bitmap;
use crate::color::Rgba;
use crate::frame::{rows_of, AsciiFrame, Cell};
use crate::quantize::{
    lemma_full_level, lemma_level_index_in_range, lemma_level_index_monotone, lemma_zero_level,
    level_index, luma_scale, luma_weight, LuminanceFormula, Quantizer,
};
use crate::ramp::{standard_glyphs, GlyphRamp, RampOrder};
use vstd::prelude::*;

verus! {

/// Why a bitmap was not rendered.
#[derive(Clone, Copy, Debug, PartialEq, Eq, Structural)]
pub enum RenderError {
    /// The bitmap has no columns or no rows.
    InvalidBitmap,
}

/// The cell a pixel is rendered as: the glyph at the pixel's ramp position,
/// in the pixel's own colour.
pub open spec fn rendered_cell(quantizer: Quantizer, ramp: GlyphRamp, c: Rgba) -> Cell {
    Cell {
        glyph: ramp.glyphs()[quantizer.index_of(c, ramp.order(), ramp.glyphs().len()) as int],
        color: c,
    }
}

/// Row `y` of the rendering of a bitmap.
pub open spec fn rendered_row(quantizer: Quantizer, ramp: GlyphRamp, bitmap: Bitmap, y: int) -> Seq<
    Cell,
> {
    Seq::new(bitmap.cols(), |x: int| rendered_cell(quantizer, ramp, bitmap.at(x, y)))
}

/// The rendering of a bitmap: row for row and column for column, the cell
/// of each pixel.
pub open spec fn rendered(quantizer: Quantizer, ramp: GlyphRamp, bitmap: Bitmap) -> Seq<Seq<Cell>> {
    Seq::new(bitmap.rows(), |y: int| rendered_row(quantizer, ramp, bitmap, y))
}

/// The glyph a pixel is drawn with.
pub fn glyph_for(quantizer: &Quantizer, ramp: &GlyphRamp, c: Rgba) -> (glyph: char)
    ensures
        glyph == rendered_cell(*quantizer, *ramp, c).glyph,
{
    let index: usize = quantizer.ramp_index(c, ramp.direction(), ramp.len());
    ramp.glyph(index)
}

/// Renders a bitmap: the frame holds, for every pixel, the glyph of its
/// luminance and its colour unchanged, rows and columns in the bitmap's
/// order. A bitmap without columns or without rows is refused.
pub fn render(bitmap: &Bitmap, ramp: &GlyphRamp, quantizer: &Quantizer) -> (result: Result<
    AsciiFrame,
    RenderError,
>)
    ensures
        (bitmap.cols() == 0 || bitmap.rows() == 0) <==> result is Err,
        result matches Err(e) ==> e == RenderError::InvalidBitmap,
        result matches Ok(frame) ==> {
            &&& frame@ == rendered(*quantizer, *ramp, *bitmap)
            &&& frame@.len() == bitmap.rows()
            &&& forall|y: int|
                0 <= y < bitmap.rows() ==> (#[trigger] frame@[y]).len() == bitmap.cols()
            &&& forall|x: int, y: int|
                0 <= x < bitmap.cols() && 0 <= y < bitmap.rows() ==> (#[trigger] frame@[y][x]).color
                    == bitmap.at(x, y)
        },
{
    let width: usize = bitmap.width();
    let height: usize = bitmap.height();
    if width == 0 || height == 0 {
        return Err(RenderError::InvalidBitmap);
    }
    let mut rows: Vec<Vec<Cell>> = Vec::new();
    let mut y: usize = 0;
    while y < height
        invariant
            width == bitmap.cols(),
            height == bitmap.rows(),
            y <= height,
            rows@.len() == y,
            forall|j: int|
                0 <= j < y ==> (#[trigger] rows@[j])@ == rendered_row(
                    *quantizer,
                    *ramp,
                    *bitmap,
                    j,
                ),
        decreases height - y,
    {
        let mut row: Vec<Cell> = Vec::new();
        let mut x: usize = 0;
        while x < width
            invariant
                width == bitmap.cols(),
                height == bitmap.rows(),
                y < height,
                x <= width,
                row@.len() == x,
                forall|i: int|
                    0 <= i < x ==> (#[trigger] row@[i]) == rendered_cell(
                        *quantizer,
                        *ramp,
                        bitmap.at(i, y as int),
                    ),
            decreases width - x,
        {
            let c: Rgba = bitmap.pixel(x, y);
            row.push(Cell { glyph: glyph_for(quantizer, ramp, c), color: c });
            x += 1;
        }
        assert(row@ =~= rendered_row(*quantizer, *ramp, *bitmap, y as int));
        rows.push(row);
        y += 1;
    }
    assert(rows_of(rows@) =~= rendered(*quantizer, *ramp, *bitmap));
    Ok(AsciiFrame::assemble(rows))
}

/// The glyph of a pixel under the standard set-up: BT.709 luminance, the
/// gamma exponent 1.2 and the standard ramp, lightest glyph first.
pub open spec fn standard_glyph(c: Rgba) -> char {
    standard_glyphs()[level_index(
        luma_weight(c, LuminanceFormula::Bt709),
        luma_scale(LuminanceFormula::Bt709),
        6,
        5,
        RampOrder::LightFirst,
        11,
    ) as int]
}

/// Renders a bitmap under the standard set-up and hands out the glyphs as
/// one string per row and the colours as one vector per row.
pub fn image_to_ascii_with_color(img: &Bitmap) -> (result: Result<
    (Vec<String>, Vec<Vec<Rgba>>),
    RenderError,
>)
    ensures
        (img.cols() == 0 || img.rows() == 0) <==> result is Err,
        result matches Err(e) ==> e == RenderError::InvalidBitmap,
        result matches Ok(grids) ==> {
            &&& grids.0@.len() == img.rows()
            &&& grids.1@.len() == img.rows()
            &&& forall|y: int|
                0 <= y < img.rows() ==> (#[trigger] grids.0@[y])@.len() == img.cols()
                    && grids.1@[y]@.len() == img.cols()
            &&& forall|x: int, y: int|
                0 <= x < img.cols() && 0 <= y < img.rows() ==> (#[trigger] grids.0@[y]@[x])
                    == standard_glyph(img.at(x, y))
            &&& forall|x: int, y: int|
                0 <= x < img.cols() && 0 <= y < img.rows() ==> (#[trigger] grids.1@[y]@[x])
                    == img.at(x, y)
        },
{
    let ramp: GlyphRamp = GlyphRamp::standard();
    let quantizer: Quantizer = Quantizer::perceptual();
    match render(img, &ramp, &quantizer) {
        Ok(frame) => {
            let lines: Vec<String> = frame.lines();
            let colors: Vec<Vec<Rgba>> = frame.color_rows();
            proof {
                assert(standard_glyphs().len() == 11);
                assert forall|x: int, y: int|
                    0 <= x < img.cols() && 0 <= y < img.rows() implies (#[trigger] lines@[y]@[x])
                    == standard_glyph(img.at(x, y)) by {
                    assert(frame@[y][x] == rendered_cell(quantizer, ramp, img.at(x, y)));
                }
                assert forall|x: int, y: int|
                    0 <= x < img.cols() && 0 <= y < img.rows() implies (#[trigger] colors@[y]@[x])
                    == img.at(x, y) by {
                    assert(frame@[y][x].color == img.at(x, y));
                }
            }
            Ok((lines, colors))
        },
        Err(e) => Err(e),
    }
}

/// Every pixel's glyph is one of the ramp's glyphs: its position lies on
/// the ramp.
pub proof fn lemma_index_on_ramp(quantizer: Quantizer, ramp: GlyphRamp, c: Rgba)
    requires
        ramp.wf(),
    ensures
        quantizer.index_of(c, ramp.order(), ramp.glyphs().len()) < ramp.glyphs().len(),
{
    lemma_level_index_in_range(
        luma_weight(c, quantizer.formula),
        luma_scale(quantizer.formula),
        quantizer.gamma.numerator(),
        quantizer.gamma.denominator(),
        ramp.order(),
        ramp.glyphs().len(),
    );
}

/// A black pixel takes the densest glyph of the ramp: the last glyph where
/// the ramp starts with its lightest, the first where it starts with its
/// densest.
pub proof fn lemma_black_takes_densest(quantizer: Quantizer, ramp: GlyphRamp, c: Rgba)
    requires
        quantizer.gamma.wf(),
        ramp.wf(),
        c.r == 0 && c.g == 0 && c.b == 0,
    ensures
        ramp.order() == RampOrder::LightFirst ==> rendered_cell(quantizer, ramp, c).glyph
            == ramp.glyphs().last(),
        ramp.order() == RampOrder::DenseFirst ==> rendered_cell(quantizer, ramp, c).glyph
            == ramp.glyphs().first(),
{
    lemma_zero_level(
        luma_scale(quantizer.formula),
        quantizer.gamma.numerator(),
        quantizer.gamma.denominator(),
        ramp.order(),
        ramp.glyphs().len(),
    );
}

/// A white pixel takes the lightest glyph of the ramp: the first glyph
/// where the ramp starts with its lightest, the last where it starts with
/// its densest.
pub proof fn lemma_white_takes_lightest(quantizer: Quantizer, ramp: GlyphRamp, c: Rgba)
    requires
        quantizer.gamma.wf(),
        ramp.wf(),
        c.r == 255 && c.g == 255 && c.b == 255,
    ensures
        ramp.order() == RampOrder::LightFirst ==> rendered_cell(quantizer, ramp, c).glyph
            == ramp.glyphs().first(),
        ramp.order() == RampOrder::DenseFirst ==> rendered_cell(quantizer, ramp, c).glyph
            == ramp.glyphs().last(),
{
    lemma_full_level(
        luma_scale(quantizer.formula),
        quantizer.gamma.numerator(),
        quantizer.gamma.denominator(),
        ramp.order(),
        ramp.glyphs().len(),
    );
}

/// Of two pixels, the one of lower luminance takes the denser glyph or the
/// same one: its position is at least the other's on a light-first ramp and
/// at most the other's on a dense-first ramp.
pub proof fn lemma_darker_is_denser(
    quantizer: Quantizer,
    order: RampOrder,
    n: nat,
    dark: Rgba,
    bright: Rgba,
)
    requires
        luma_weight(dark, quantizer.formula) <= luma_weight(bright, quantizer.formula),
    ensures
        order == RampOrder::LightFirst ==> quantizer.index_of(dark, order, n)
            >= quantizer.index_of(bright, order, n),
        order == RampOrder::DenseFirst ==> quantizer.index_of(dark, order, n)
            <= quantizer.index_of(bright, order, n),
{
    lemma_level_index_monotone(
        luma_weight(dark, quantizer.formula),
        luma_weight(bright, quantizer.formula),
        luma_scale(quantizer.formula),
        quantizer.gamma.numerator(),
        quantizer.gamma.denominator(),
        order,
        n,
    );
}

/// The glyph of a pixel is a function of the quantiser, the ramp and the
/// pixel's three colour channels: two pixels that agree on them take the
/// same glyph, whatever their alpha.
pub proof fn lemma_glyph_is_function_of_rgb(
    quantizer: Quantizer,
    ramp: GlyphRamp,
    first: Rgba,
    second: Rgba,
)
    requires
        first.r == second.r,
        first.g == second.g,
        first.b == second.b,
    ensures
        rendered_cell(quantizer, ramp, first).glyph == rendered_cell(quantizer, ramp, second).glyph,
{
}

} // verus!
