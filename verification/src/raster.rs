use vstd::prelude::*;

verus! {

use crate::pixel::Pixel;
use vstd::pervasive::VecAdditionalExecFns;

/// A rectangular RGB pixel buffer, stored row-major.  It serves as the QR
/// canvas, as the prepared icon and as the final composited image.
#[derive(Debug)]
pub struct Raster {
    pub width: usize,
    pub height: usize,
    pub pixels: Vec<Pixel>,
}

/// The flat buffer holds exactly one pixel per coordinate.
pub proof fn lemma_index_bound(x: int, y: int, w: int, h: int)
    by (nonlinear_arith)
    requires
        0 <= x < w,
        0 <= y < h,
    ensures
        0 <= y * w + x < w * h,
{
}

/// Distinct coordinates occupy distinct flat indices.
pub proof fn lemma_index_injective(x1: int, y1: int, x2: int, y2: int, w: int)
    by (nonlinear_arith)
    requires
        0 <= x1 < w,
        0 <= x2 < w,
        0 <= y1,
        0 <= y2,
        y1 * w + x1 == y2 * w + x2,
    ensures
        x1 == x2,
        y1 == y2,
{
}

impl Raster {
    /// The buffer holds exactly `width * height` pixels.
    pub closed spec fn wf(self) -> bool {
        self.pixels@.len() == self.width * self.height
    }

    /// The pixel at column `x` of row `y`.
    pub closed spec fn at(self, x: int, y: int) -> Pixel {
        self.pixels@[y * self.width + x]
    }

    /// The rows of the image, top to bottom, as the mathematical model of
    /// its contents.
    pub open spec fn rows(self) -> Seq<Seq<Pixel>> {
        Seq::new(
            self.height as nat,
            |y: int| Seq::new(self.width as nat, |x: int| self.at(x, y)),
        )
    }

    /// A `width` by `height` raster with every pixel set to `fill`.
    pub fn solid(width: usize, height: usize, fill: Pixel) -> (r: Raster)
        requires
            width * height <= usize::MAX,
        ensures
            r.wf(),
            r.width == width,
            r.height == height,
            forall|x: int, y: int|
                0 <= x < width && 0 <= y < height ==> r.at(x, y) == fill,
    {
        let total = width * height;
        let mut pixels: Vec<Pixel> = Vec::new();
        let mut i: usize = 0;
        while i < total
            invariant
                i <= total,
                pixels@.len() == i,
                forall|j: int| 0 <= j < i ==> pixels@[j] == fill,
            decreases total - i,
        {
            pixels.push(fill);
            i += 1;
        }
        let r = Raster { width, height, pixels };
        proof {
            assert forall|x: int, y: int|
                0 <= x < width && 0 <= y < height implies r.at(x, y) == fill by {
                lemma_index_bound(x, y, width as int, height as int);
            }
        }
        r
    }

    /// Read the pixel at `(x, y)`.
    pub fn get(&self, x: usize, y: usize) -> (p: Pixel)
        requires
            self.wf(),
            x < self.width,
            y < self.height,
        ensures
            p == self.at(x as int, y as int),
    {
        let _len: usize = self.pixels.len();
        proof {
            lemma_index_bound(x as int, y as int, self.width as int, self.height as int);
        }
        self.pixels[y * self.width + x]
    }

    /// Overwrite the pixel at `(x, y)`; every other pixel keeps its value.
    pub fn set(&mut self, x: usize, y: usize, p: Pixel)
        requires
            old(self).wf(),
            x < old(self).width,
            y < old(self).height,
        ensures
            final(self).wf(),
            final(self).width == old(self).width,
            final(self).height == old(self).height,
            final(self).at(x as int, y as int) == p,
            forall|a: int, b: int|
                0 <= a < old(self).width && 0 <= b < old(self).height
                    && !(a == x && b == y) ==> final(self).at(a, b) == old(self).at(a, b),
    {
        let _len: usize = self.pixels.len();
        proof {
            lemma_index_bound(x as int, y as int, self.width as int, self.height as int);
        }
        self.pixels.set(y * self.width + x, p);
        proof {
            assert forall|a: int, b: int|
                0 <= a < self.width && 0 <= b < self.height && !(a == x && b == y)
                    implies self.at(a, b) == old(self).at(a, b) by {
                lemma_index_bound(a, b, self.width as int, self.height as int);
                if b * self.width + a == y * self.width + x {
                    lemma_index_injective(a, b, x as int, y as int, self.width as int);
                }
            }
        }
    }

    /// A non-empty model pins the dimensions and every pixel down.
    pub proof fn lemma_rows_determine_pixels(a: Raster, b: Raster)
        requires
            a.rows() == b.rows(),
            1 <= a.height,
        ensures
            a.width == b.width,
            a.height == b.height,
            forall|x: int, y: int|
                0 <= x < a.width && 0 <= y < a.height ==> a.at(x, y) == b.at(x, y),
    {
        assert(a.rows().len() == a.height as nat);
        assert(b.rows().len() == b.height as nat);
        assert(a.rows()[0].len() == a.width as nat);
        assert(b.rows()[0].len() == b.width as nat);
        assert forall|x: int, y: int|
            0 <= x < a.width && 0 <= y < a.height implies a.at(x, y) == b.at(x, y) by {
            assert(a.rows()[y] == Seq::new(a.width as nat, |i: int| a.at(i, y)));
            assert(b.rows()[y] == Seq::new(b.width as nat, |i: int| b.at(i, y)));
            assert(a.rows()[y][x] == a.at(x, y));
            assert(b.rows()[y][x] == b.at(x, y));
        }
    }

    /// Two well-formed rasters of the same dimensions that agree on every
    /// pixel have the same model.
    pub proof fn lemma_pointwise_eq(a: Raster, b: Raster)
        requires
            a.wf(),
            b.wf(),
            a.width == b.width,
            a.height == b.height,
            forall|x: int, y: int|
                0 <= x < a.width && 0 <= y < a.height ==> a.at(x, y) == b.at(x, y),
        ensures
            a.rows() == b.rows(),
    {
        assert forall|y: int| 0 <= y < a.height implies a.rows()[y] == b.rows()[y] by {
            assert(a.rows()[y] =~= b.rows()[y]);
        }
        assert(a.rows() =~= b.rows());
    }
}

} // verus!
