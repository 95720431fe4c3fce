//! Glyph ramps: the characters a frame is drawn with, ordered by density.

use vstd::prelude::*;

verus! {

/// Which end of a ramp holds the lightest glyph.
#[derive(Clone, Copy, Debug, PartialEq, Eq, Structural)]
pub enum RampOrder {
    /// Glyph 0 is the lightest and the last glyph the densest: a bright
    /// pixel takes a low index.
    LightFirst,
    /// Glyph 0 is the densest and the last glyph the lightest: a bright
    /// pixel takes a high index.
    DenseFirst,
}

/// The glyphs of the standard ramp: eleven, from blank to `@`.
pub open spec fn standard_glyphs() -> Seq<char> {
    seq![' ', '.', '\u{b7}', ':', '!', '~', '*', '=', '$', '#', '@']
}

/// The glyphs of the dense-first ramp: eleven, from `@` to `.`.
pub open spec fn dense_first_glyphs() -> Seq<char> {
    seq!['@', '#', 'S', '%', '?', '*', '+', ';', ':', ',', '.']
}

/// A non-empty sequence of glyphs ordered by visual density, with the
/// direction of that order.
pub struct GlyphRamp {
    glyphs: Vec<char>,
    order: RampOrder,
}

impl GlyphRamp {
    /// A ramp holds at least one glyph.
    #[verifier::type_invariant]
    pub open spec fn wf(self) -> bool {
        self.glyphs().len() >= 1
    }

    /// The glyphs, index 0 first.
    pub closed spec fn glyphs(self) -> Seq<char> {
        self.glyphs@
    }

    /// The direction in which density grows along the ramp.
    pub closed spec fn order(self) -> RampOrder {
        self.order
    }

    /// A ramp of the given glyphs; none when there is no glyph.
    pub fn new(glyphs: Vec<char>, order: RampOrder) -> (ramp: Option<GlyphRamp>)
        ensures
            glyphs@.len() == 0 <==> ramp is None,
            ramp matches Some(r) ==> r.wf() && r.glyphs() == glyphs@ && r.order() == order,
    {
        if glyphs.len() == 0 {
            None
        } else {
            Some(GlyphRamp { glyphs, order })
        }
    }

    /// A ramp of the characters of `text`; none when `text` is empty.
    pub fn from_text(text: &str, order: RampOrder) -> (ramp: Option<GlyphRamp>)
        ensures
            text@.len() == 0 <==> ramp is None,
            ramp matches Some(r) ==> r.wf() && r.glyphs() == text@ && r.order() == order,
    {
        let n: usize = text.unicode_len();
        let mut glyphs: Vec<char> = Vec::new();
        let mut i: usize = 0;
        while i < n
            invariant
                n == text@.len(),
                i <= n,
                glyphs@ == text@.subrange(0, i as int),
            decreases n - i,
        {
            glyphs.push(text.get_char(i));
            i += 1;
        }
        assert(text@.subrange(0, n as int) == text@);
        GlyphRamp::new(glyphs, order)
    }

    /// The eleven-glyph ramp from blank to `@`, lightest glyph first.
    pub fn standard() -> (ramp: GlyphRamp)
        ensures
            ramp.wf(),
            ramp.order() == RampOrder::LightFirst,
            ramp.glyphs() == standard_glyphs(),
    {
        let glyphs: Vec<char> = vec![' ', '.', '\u{b7}', ':', '!', '~', '*', '=', '$', '#', '@'];
        GlyphRamp { glyphs, order: RampOrder::LightFirst }
    }

    /// The eleven-glyph ramp from `@` to `.`, densest glyph first.
    pub fn dense_first() -> (ramp: GlyphRamp)
        ensures
            ramp.wf(),
            ramp.order() == RampOrder::DenseFirst,
            ramp.glyphs() == dense_first_glyphs(),
    {
        let glyphs: Vec<char> = vec!['@', '#', 'S', '%', '?', '*', '+', ';', ':', ',', '.'];
        GlyphRamp { glyphs, order: RampOrder::DenseFirst }
    }

    /// The number of glyphs, at least one.
    pub fn len(&self) -> (n: usize)
        ensures
            n == self.glyphs().len(),
            n >= 1,
    {
        proof {
            use_type_invariant(self);
        }
        self.glyphs.len()
    }

    /// The direction in which density grows along the ramp.
    pub fn direction(&self) -> (order: RampOrder)
        ensures
            order == self.order(),
    {
        self.order
    }

    /// The glyph at `index`.
    pub fn glyph(&self, index: usize) -> (c: char)
        requires
            index < self.glyphs().len(),
        ensures
            c == self.glyphs()[index as int],
    {
        self.glyphs[index]
    }
}

} // verus!
