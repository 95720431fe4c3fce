//! ASCII frames: the glyph and the colour of every pixel of a bitmap.

use crate::color::Rgba;
use vstd::prelude::*;

verus! {

/// One position of a frame: a glyph and the colour it is painted in.
#[derive(Clone, Copy, Debug, PartialEq, Eq, Structural)]
pub struct Cell {
    pub glyph: char,
    pub color: Rgba,
}

/// Whether all rows are as long as the first.
pub open spec fn is_rectangular(rows: Seq<Seq<Cell>>) -> bool {
    forall|y: int| 0 <= y < rows.len() ==> (#[trigger] rows[y]).len() == rows[0].len()
}

/// The glyphs of a row, left to right.
pub open spec fn glyphs_of(row: Seq<Cell>) -> Seq<char> {
    Seq::new(row.len(), |x: int| row[x].glyph)
}

/// The colours of a row, left to right.
pub open spec fn colors_of(row: Seq<Cell>) -> Seq<Rgba> {
    Seq::new(row.len(), |x: int| row[x].color)
}

/// The text of a frame: the glyphs of each row, top row first, each row
/// ended by a line feed.
pub open spec fn text_of(rows: Seq<Seq<Cell>>) -> Seq<char>
    decreases rows.len(),
{
    if rows.len() == 0 {
        Seq::empty()
    } else {
        text_of(rows.drop_last()) + glyphs_of(rows.last()).push('\n')
    }
}

/// The rows of a vector of rows, each as a sequence.
pub open spec fn rows_of(rows: Seq<Vec<Cell>>) -> Seq<Seq<Cell>> {
    Seq::new(rows.len(), |y: int| rows[y]@)
}

/// A rectangular grid of cells: rows from the top, each row from the left.
pub struct AsciiFrame {
    rows: Vec<Vec<Cell>>,
}

impl View for AsciiFrame {
    type V = Seq<Seq<Cell>>;

    closed spec fn view(&self) -> Seq<Seq<Cell>> {
        rows_of(self.rows@)
    }
}

impl AsciiFrame {
    /// All rows of a frame have one length.
    #[verifier::type_invariant]
    pub open spec fn wf(self) -> bool {
        is_rectangular(self@)
    }

    /// A frame of the given rows, which all have one length.
    pub(crate) fn assemble(rows: Vec<Vec<Cell>>) -> (frame: AsciiFrame)
        requires
            is_rectangular(rows_of(rows@)),
        ensures
            frame.wf(),
            frame@ == rows_of(rows@),
    {
        AsciiFrame { rows }
    }

    /// A frame of the given rows; none unless all rows have one length.
    pub fn from_rows(rows: Vec<Vec<Cell>>) -> (frame: Option<AsciiFrame>)
        ensures
            is_rectangular(rows_of(rows@)) <==> frame is Some,
            frame matches Some(f) ==> f.wf() && f@ == rows_of(rows@),
    {
        let n: usize = rows.len();
        let mut y: usize = 1;
        while y < n
            invariant
                n == rows@.len(),
                1 <= y,
                forall|j: int|
                    0 <= j < y && j < n ==> (#[trigger] rows@[j])@.len() == rows@[0]@.len(),
            decreases n - y,
        {
            if rows[y].len() != rows[0].len() {
                assert(rows_of(rows@)[y as int].len() != rows_of(rows@)[0].len());
                return None;
            }
            y += 1;
        }
        assert forall|j: int| 0 <= j < rows_of(rows@).len() implies (#[trigger] rows_of(
            rows@,
        )[j]).len() == rows_of(rows@)[0].len() by {
            assert(rows@[j]@.len() == rows@[0]@.len());
        }
        Some(AsciiFrame { rows })
    }

    /// The number of rows.
    pub fn height(&self) -> (h: usize)
        ensures
            h == self@.len(),
    {
        self.rows.len()
    }

    /// The number of cells in every row; zero for a frame without rows.
    pub fn width(&self) -> (w: usize)
        ensures
            self@.len() == 0 ==> w == 0,
            forall|y: int| 0 <= y < self@.len() ==> (#[trigger] self@[y]).len() == w,
    {
        proof {
            use_type_invariant(self);
        }
        if self.rows.len() == 0 {
            0
        } else {
            assert(self@[0] == self.rows@[0]@);
            self.rows[0].len()
        }
    }

    /// The cell in column `x` of row `y`.
    pub fn cell(&self, x: usize, y: usize) -> (c: Cell)
        requires
            y < self@.len(),
            x < self@[y as int].len(),
        ensures
            c == self@[y as int][x as int],
    {
        self.rows[y][x]
    }

    /// The glyphs of row `y` as a string.
    pub fn line(&self, y: usize) -> (s: String)
        requires
            y < self@.len(),
        ensures
            s@ == glyphs_of(self@[y as int]),
    {
        let row: &Vec<Cell> = &self.rows[y];
        let n: usize = row.len();
        let mut s: String = String::new();
        let mut x: usize = 0;
        while x < n
            invariant
                n == row@.len(),
                x <= n,
                s@ == glyphs_of(row@).subrange(0, x as int),
            decreases n - x,
        {
            s.push(row[x].glyph);
            x += 1;
        }
        assert(glyphs_of(row@).subrange(0, n as int) == glyphs_of(row@));
        s
    }

    /// The colours of row `y`.
    pub fn colors(&self, y: usize) -> (v: Vec<Rgba>)
        requires
            y < self@.len(),
        ensures
            v@ == colors_of(self@[y as int]),
    {
        let row: &Vec<Cell> = &self.rows[y];
        let n: usize = row.len();
        let mut v: Vec<Rgba> = Vec::new();
        let mut x: usize = 0;
        while x < n
            invariant
                n == row@.len(),
                x <= n,
                v@ == colors_of(row@).subrange(0, x as int),
            decreases n - x,
        {
            v.push(row[x].color);
            x += 1;
        }
        assert(colors_of(row@).subrange(0, n as int) == colors_of(row@));
        v
    }

    /// The glyphs of every row, top row first, one string per row.
    pub fn lines(&self) -> (v: Vec<String>)
        ensures
            v@.len() == self@.len(),
            forall|y: int| 0 <= y < self@.len() ==> (#[trigger] v@[y])@ == glyphs_of(self@[y]),
    {
        let n: usize = self.rows.len();
        let mut v: Vec<String> = Vec::new();
        let mut y: usize = 0;
        while y < n
            invariant
                n == self@.len(),
                y <= n,
                v@.len() == y,
                forall|j: int| 0 <= j < y ==> (#[trigger] v@[j])@ == glyphs_of(self@[j]),
            decreases n - y,
        {
            v.push(self.line(y));
            y += 1;
        }
        v
    }

    /// The colours of every row, top row first, one vector per row.
    pub fn color_rows(&self) -> (v: Vec<Vec<Rgba>>)
        ensures
            v@.len() == self@.len(),
            forall|y: int| 0 <= y < self@.len() ==> (#[trigger] v@[y])@ == colors_of(self@[y]),
    {
        let n: usize = self.rows.len();
        let mut v: Vec<Vec<Rgba>> = Vec::new();
        let mut y: usize = 0;
        while y < n
            invariant
                n == self@.len(),
                y <= n,
                v@.len() == y,
                forall|j: int| 0 <= j < y ==> (#[trigger] v@[j])@ == colors_of(self@[j]),
            decreases n - y,
        {
            v.push(self.colors(y));
            y += 1;
        }
        v
    }

    /// The frame as the text of a file: every row's glyphs followed by a
    /// line feed. Colours are not part of the text.
    pub fn text(&self) -> (s: String)
        ensures
            s@ == text_of(self@),
    {
        let n: usize = self.rows.len();
        let mut s: String = String::new();
        let mut y: usize = 0;
        while y < n
            invariant
                n == self@.len(),
                y <= n,
                s@ == text_of(self@.subrange(0, y as int)),
            decreases n - y,
        {
            let row: &Vec<Cell> = &self.rows[y];
            let m: usize = row.len();
            let ghost head = s@;
            let mut x: usize = 0;
            while x < m
                invariant
                    m == row@.len(),
                    x <= m,
                    s@ == head + glyphs_of(row@).subrange(0, x as int),
                decreases m - x,
            {
                s.push(row[x].glyph);
                x += 1;
            }
            s.push('\n');
            proof {
                let upto = self@.subrange(0, y + 1);
                assert(glyphs_of(row@).subrange(0, m as int) == glyphs_of(row@));
                assert(upto.drop_last() == self@.subrange(0, y as int));
                assert(upto.last() == row@);
                assert(s@ == head + glyphs_of(row@).push('\n'));
            }
            y += 1;
        }
        assert(self@.subrange(0, n as int) == self@);
        s
    }
}

} // verus!
