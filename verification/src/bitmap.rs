//! Bitmaps: grids of pixels in row-major order.

use crate::color::Rgba;
use vstd::prelude::*;

verus! {

/// The pixel that four consecutive bytes of an RGBA buffer spell.
pub open spec fn rgba_at(bytes: Seq<u8>, i: int) -> Rgba {
    Rgba { r: bytes[4 * i], g: bytes[4 * i + 1], b: bytes[4 * i + 2], a: bytes[4 * i + 3] }
}

/// The opaque pixel that three consecutive bytes of an RGB buffer spell.
pub open spec fn rgb_at(bytes: Seq<u8>, i: int) -> Rgba {
    Rgba { r: bytes[3 * i], g: bytes[3 * i + 1], b: bytes[3 * i + 2], a: 255 }
}

/// A position inside a grid lies inside its row-major buffer.
pub proof fn lemma_cell_in_buffer(x: int, y: int, width: int, height: int)
    requires
        0 <= x < width,
        0 <= y < height,
    ensures
        0 <= y * width + x < width * height,
        0 <= y * width,
{
    assert(0 <= y * width && y * width + width <= height * width && height * width == width
        * height) by (nonlinear_arith)
        requires
            0 <= y,
            y + 1 <= height,
            0 < width,
    ;
}

/// A grid of `cols` by `rows` pixels. Either dimension may be zero.
pub struct Bitmap {
    width: usize,
    height: usize,
    pixels: Vec<Rgba>,
}

impl Bitmap {
    /// There is one pixel per position of the grid.
    #[verifier::type_invariant]
    pub open spec fn wf(self) -> bool {
        self.pixels().len() == self.cols() * self.rows()
    }

    /// The number of columns: the width.
    pub closed spec fn cols(self) -> nat {
        self.width as nat
    }

    /// The number of rows: the height.
    pub closed spec fn rows(self) -> nat {
        self.height as nat
    }

    /// The pixels, row after row, the top row first and each row from the
    /// left.
    pub closed spec fn pixels(self) -> Seq<Rgba> {
        self.pixels@
    }

    /// The pixel in column `x` of row `y`.
    pub open spec fn at(self, x: int, y: int) -> Rgba {
        self.pixels()[y * self.cols() + x]
    }

    /// A bitmap over the given pixels; none unless there are exactly
    /// `width * height` of them.
    pub fn new(width: usize, height: usize, pixels: Vec<Rgba>) -> (bitmap: Option<Bitmap>)
        ensures
            pixels@.len() == width * height <==> bitmap is Some,
            bitmap matches Some(b) ==> b.wf() && b.cols() == width && b.rows() == height
                && b.pixels() == pixels@,
    {
        let len: usize = pixels.len();
        match width.checked_mul(height) {
            Some(count) => {
                if len == count {
                    Some(Bitmap { width, height, pixels })
                } else {
                    None
                }
            },
            None => None,
        }
    }

    /// A bitmap of one colour; none when `width * height` pixels cannot be
    /// counted in a `usize`.
    pub fn filled(width: usize, height: usize, color: Rgba) -> (bitmap: Option<Bitmap>)
        ensures
            width * height <= usize::MAX <==> bitmap is Some,
            bitmap matches Some(b) ==> b.wf() && b.cols() == width && b.rows() == height
                && forall|i: int| 0 <= i < width * height ==> b.pixels()[i] == color,
    {
        match width.checked_mul(height) {
            Some(count) => {
                let mut pixels: Vec<Rgba> = Vec::new();
                let mut i: usize = 0;
                while i < count
                    invariant
                        i <= count,
                        pixels@.len() == i,
                        forall|j: int| 0 <= j < i ==> pixels@[j] == color,
                    decreases count - i,
                {
                    pixels.push(color);
                    i += 1;
                }
                Some(Bitmap { width, height, pixels })
            },
            None => None,
        }
    }

    /// A bitmap from a buffer of red, green, blue and alpha bytes, pixel
    /// after pixel; none unless the buffer holds exactly
    /// `4 * width * height` bytes.
    pub fn from_rgba_bytes(width: usize, height: usize, bytes: &[u8]) -> (bitmap: Option<Bitmap>)
        ensures
            bytes@.len() == 4 * (width * height) <==> bitmap is Some,
            bitmap matches Some(b) ==> b.wf() && b.cols() == width && b.rows() == height
                && b.pixels() == Seq::new((width * height) as nat, |i: int| rgba_at(bytes@, i)),
    {
        let len: usize = bytes.len();
        let count: usize = match width.checked_mul(height) {
            Some(count) => count,
            None => {
                return None;
            },
        };
        if len / 4 != count || len % 4 != 0 {
            return None;
        }
        let mut pixels: Vec<Rgba> = Vec::new();
        let mut i: usize = 0;
        while i < count
            invariant
                i <= count,
                len == bytes@.len(),
                len == 4 * count,
                pixels@.len() == i,
                forall|j: int| 0 <= j < i ==> pixels@[j] == rgba_at(bytes@, j),
            decreases count - i,
        {
            let base: usize = 4 * i;
            pixels.push(
                Rgba { r: bytes[base], g: bytes[base + 1], b: bytes[base + 2], a: bytes[base + 3] },
            );
            i += 1;
        }
        assert(pixels@ =~= Seq::new((width * height) as nat, |i: int| rgba_at(bytes@, i)));
        Some(Bitmap { width, height, pixels })
    }

    /// A bitmap of opaque pixels from a buffer of red, green and blue bytes,
    /// pixel after pixel; none unless the buffer holds exactly
    /// `3 * width * height` bytes.
    pub fn from_rgb_bytes(width: usize, height: usize, bytes: &[u8]) -> (bitmap: Option<Bitmap>)
        ensures
            bytes@.len() == 3 * (width * height) <==> bitmap is Some,
            bitmap matches Some(b) ==> b.wf() && b.cols() == width && b.rows() == height
                && b.pixels() == Seq::new((width * height) as nat, |i: int| rgb_at(bytes@, i)),
    {
        let len: usize = bytes.len();
        let count: usize = match width.checked_mul(height) {
            Some(count) => count,
            None => {
                return None;
            },
        };
        if len / 3 != count || len % 3 != 0 {
            return None;
        }
        let mut pixels: Vec<Rgba> = Vec::new();
        let mut i: usize = 0;
        while i < count
            invariant
                i <= count,
                len == bytes@.len(),
                len == 3 * count,
                pixels@.len() == i,
                forall|j: int| 0 <= j < i ==> pixels@[j] == rgb_at(bytes@, j),
            decreases count - i,
        {
            let base: usize = 3 * i;
            pixels.push(Rgba { r: bytes[base], g: bytes[base + 1], b: bytes[base + 2], a: 255 });
            i += 1;
        }
        assert(pixels@ =~= Seq::new((width * height) as nat, |i: int| rgb_at(bytes@, i)));
        Some(Bitmap { width, height, pixels })
    }

    /// The pixels as a buffer of red, green, blue and alpha bytes, pixel
    /// after pixel; none when `4 * width * height` bytes cannot be counted
    /// in a `usize`.
    pub fn to_rgba_bytes(&self) -> (bytes: Option<Vec<u8>>)
        ensures
            4 * (self.cols() * self.rows()) <= usize::MAX <==> bytes is Some,
            bytes matches Some(v) ==> v@.len() == 4 * (self.cols() * self.rows())
                && self.pixels() == Seq::new(self.cols() * self.rows(), |i: int| rgba_at(v@, i)),
    {
        proof {
            use_type_invariant(self);
        }
        let count: usize = self.pixels.len();
        if count > usize::MAX / 4 {
            return None;
        }
        let mut bytes: Vec<u8> = Vec::new();
        let mut i: usize = 0;
        while i < count
            invariant
                i <= count,
                count == self.pixels@.len(),
                bytes@.len() == 4 * i,
                forall|j: int| 0 <= j < i ==> self.pixels@[j] == rgba_at(bytes@, j),
            decreases count - i,
        {
            let p: Rgba = self.pixels[i];
            let ghost before = bytes@;
            bytes.push(p.r);
            bytes.push(p.g);
            bytes.push(p.b);
            bytes.push(p.a);
            assert forall|j: int| 0 <= j < i implies self.pixels@[j] == rgba_at(bytes@, j) by {
                assert(rgba_at(bytes@, j) == rgba_at(before, j));
            }
            i += 1;
        }
        assert(self.pixels() =~= Seq::new(self.cols() * self.rows(), |i: int| rgba_at(bytes@, i)));
        Some(bytes)
    }

    /// The number of columns.
    pub fn width(&self) -> (w: usize)
        ensures
            w == self.cols(),
    {
        self.width
    }

    /// The number of rows.
    pub fn height(&self) -> (h: usize)
        ensures
            h == self.rows(),
    {
        self.height
    }

    /// The pixel in column `x` of row `y`.
    pub fn pixel(&self, x: usize, y: usize) -> (c: Rgba)
        requires
            x < self.cols(),
            y < self.rows(),
        ensures
            c == self.at(x as int, y as int),
    {
        let len: usize = self.pixels.len();
        proof {
            use_type_invariant(self);
            lemma_cell_in_buffer(x as int, y as int, self.width as int, self.height as int);
        }
        self.pixels[y * self.width + x]
    }
}

} // verus!
