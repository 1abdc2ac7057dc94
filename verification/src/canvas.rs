//! The canvas: a dense, row-major pixel store owned by the presentation
//! side. It starts fully transparent and accumulates paint instructions
//! over time; entry `(x, y)` lives at index `y * width + x`.

use vstd::prelude::*;

use crate::pixel::Color;
use crate::pixel::Paint;

verus! {

/// Index arithmetic: a coordinate inside the target maps to an index inside
/// the row-major pixel array.
pub proof fn lemma_index_in_range(x: int, y: int, width: int, height: int)
    by (nonlinear_arith)
    requires
        0 <= x < width,
        0 <= y < height,
    ensures
        0 <= y * width + x < width * height,
{
}

/// Index arithmetic: distinct coordinates of the target map to distinct
/// row-major indices.
pub proof fn lemma_index_injective(x1: int, y1: int, x2: int, y2: int, width: int)
    by (nonlinear_arith)
    requires
        0 <= x1 < width,
        0 <= x2 < width,
        0 <= y1,
        0 <= y2,
        y1 * width + x1 == y2 * width + x2,
    ensures
        x1 == x2,
        y1 == y2,
{
}

/// The pixels after folding a sequence of paint instructions into `init`,
/// in delivery order: each instruction overwrites the entry at its
/// row-major index.
pub open spec fn apply_paints(init: Seq<Color>, ps: Seq<Paint>, width: int) -> Seq<Color>
    decreases ps.len(),
{
    if ps.len() == 0 {
        init
    } else {
        apply_paints(init, ps.drop_last(), width).update(
            ps.last().index_spec(width),
            ps.last().color_spec(),
        )
    }
}

/// The row-major RGBA wire format handed to the display backend: four bytes
/// per entry, in entry order.
pub open spec fn rgba_bytes(s: Seq<Color>) -> Seq<u8> {
    Seq::new(
        4 * s.len(),
        |i: int|
            if i % 4 == 0 {
                s[i / 4].r
            } else if i % 4 == 1 {
                s[i / 4].g
            } else if i % 4 == 2 {
                s[i / 4].b
            } else {
                s[i / 4].a
            },
    )
}

/// A dense mapping from coordinate to color, sized `width` by `height`.
/// Its sole writer is the presentation side; the display backend reads it
/// as a row-major RGBA byte buffer.
pub struct Canvas {
    width: usize,
    height: usize,
    pixels: Vec<Color>,
}

impl View for Canvas {
    type V = Seq<Color>;

    closed spec fn view(&self) -> Seq<Color> {
        self.pixels@
    }
}

impl Canvas {
    /// The width the canvas was created with.
    pub closed spec fn width_spec(&self) -> int {
        self.width as int
    }

    /// The height the canvas was created with.
    pub closed spec fn height_spec(&self) -> int {
        self.height as int
    }

    /// Well-formedness: the pixel store covers the whole target, one entry
    /// per coordinate.
    pub open spec fn wf(&self) -> bool {
        self@.len() == self.width_spec() * self.height_spec()
    }

    /// The width the canvas was created with.
    pub fn width(&self) -> (w: usize)
        ensures
            w == self.width_spec(),
    {
        self.width
    }

    /// The height the canvas was created with.
    pub fn height(&self) -> (h: usize)
        ensures
            h == self.height_spec(),
    {
        self.height
    }

    /// Creates a canvas with every entry fully transparent.
    pub fn new(width: usize, height: usize) -> (c: Canvas)
        requires
            width * height <= usize::MAX,
        ensures
            c.wf(),
            c.width_spec() == width,
            c.height_spec() == height,
            forall|i: int| 0 <= i < c@.len() ==> c@[i] == Color::transparent_spec(),
    {
        let n: usize = width * height;
        let mut pixels: Vec<Color> = Vec::new();
        let mut i: usize = 0;
        while i < n
            invariant
                i <= n,
                pixels@.len() == i,
                forall|j: int| 0 <= j < i ==> pixels@[j] == Color::transparent_spec(),
            decreases n - i,
        {
            pixels.push(Color::transparent());
            i = i + 1;
        }
        Canvas { width, height, pixels }
    }

    /// The color currently stored for coordinate `(x, y)`.
    pub fn get(&self, x: usize, y: usize) -> (c: Color)
        requires
            self.wf(),
            x < self.width_spec(),
            y < self.height_spec(),
        ensures
            c == self@[y * self.width_spec() + x],
    {
        proof {
            lemma_index_in_range(x as int, y as int, self.width_spec(), self.height_spec());
        }
        // the store's length, and with it every index below it, fits in usize
        let _store_len: usize = self.pixels.len();
        let i: usize = y * self.width + x;
        self.pixels[i]
    }

    /// Writes one paint instruction into the canvas, overwriting whatever
    /// was stored at its coordinate.
    pub fn apply(&mut self, p: Paint)
        requires
            old(self).wf(),
            p.in_bounds(old(self).width_spec(), old(self).height_spec()),
        ensures
            final(self).wf(),
            final(self).width_spec() == old(self).width_spec(),
            final(self).height_spec() == old(self).height_spec(),
            final(self)@ == old(self)@.update(p.index_spec(old(self).width_spec()), p.color_spec()),
    {
        proof {
            lemma_index_in_range(p.x as int, p.y as int, self.width_spec(), self.height_spec());
        }
        // the store's length, and with it every index below it, fits in usize
        let _store_len: usize = self.pixels.len();
        let i: usize = p.y * self.width + p.x;
        self.pixels.set(i, p.color());
    }

    /// Writes a batch of paint instructions into the canvas, in order.
    pub fn apply_batch(&mut self, ps: &Vec<Paint>)
        requires
            old(self).wf(),
            forall|i: int|
                0 <= i < ps@.len() ==> (#[trigger] ps@[i]).in_bounds(
                    old(self).width_spec(),
                    old(self).height_spec(),
                ),
        ensures
            final(self).wf(),
            final(self).width_spec() == old(self).width_spec(),
            final(self).height_spec() == old(self).height_spec(),
            final(self)@ == apply_paints(old(self)@, ps@, old(self).width_spec()),
    {
        let mut i: usize = 0;
        while i < ps.len()
            invariant
                i <= ps@.len(),
                self.wf(),
                self.width_spec() == old(self).width_spec(),
                self.height_spec() == old(self).height_spec(),
                forall|j: int|
                    0 <= j < ps@.len() ==> (#[trigger] ps@[j]).in_bounds(
                        old(self).width_spec(),
                        old(self).height_spec(),
                    ),
                self@ == apply_paints(old(self)@, ps@.take(i as int), old(self).width_spec()),
            decreases ps@.len() - i,
        {
            proof {
                assert(ps@.take(i + 1).drop_last() =~= ps@.take(i as int));
                assert(ps@.take(i + 1).last() == ps@[i as int]);
            }
            self.apply(ps[i]);
            i = i + 1;
        }
        proof {
            assert(ps@.take(ps@.len() as int) =~= ps@);
        }
    }

    /// The canvas contents in the backend's wire format: a row-major array
    /// of four-byte RGBA entries, entry `(x, y)` at index `y * width + x`.
    pub fn to_rgba_bytes(&self) -> (b: Vec<u8>)
        ensures
            b@ == rgba_bytes(self@),
    {
        let n: usize = self.pixels.len();
        let mut b: Vec<u8> = Vec::new();
        let mut i: usize = 0;
        while i < n
            invariant
                i <= n,
                n == self@.len(),
                b@.len() == 4 * i,
                forall|j: int| 0 <= j < 4 * i ==> b@[j] == rgba_bytes(self@)[j],
            decreases n - i,
        {
            let c: Color = self.pixels[i];
            b.push(c.r);
            b.push(c.g);
            b.push(c.b);
            b.push(c.a);
            i = i + 1;
        }
        proof {
            assert(b@ =~= rgba_bytes(self@));
        }
        b
    }
}

} // verus!
