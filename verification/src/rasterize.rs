use vstd::prelude::*;

verus! {

use crate::pixel::{Pixel, white, black, white_pixel, black_pixel};
use crate::raster::Raster;
use crate::matrix::ModuleMatrix;
use crate::error::Error;
use vstd::arithmetic::div_mod::lemma_fundamental_div_mod;
use vstd::arithmetic::div_mod::lemma_div_non_zero;
use vstd::arithmetic::div_mod::lemma_multiply_divide_lt;
use vstd::arithmetic::div_mod::lemma_mod_bound;
use vstd::arithmetic::div_mod::lemma_div_pos_is_pos;

/// Pixels per module when a grid of `n` modules is drawn on a canvas
/// requested at `target` pixels: the largest whole scale that fits.
pub open spec fn module_pixels(n: int, target: int) -> int {
    target / n
}

/// The side of the snapped canvas: the largest multiple of `n` not above
/// `target`, so that no module is drawn at a fractional width.
pub open spec fn snapped_size(n: int, target: int) -> int {
    module_pixels(n, target) * n
}

/// The inputs on which `rasterize` succeeds.
pub open spec fn rasterize_ok(n: int, target: int) -> bool {
    1 <= n && n <= target
}

/// The colour `rasterize` owes the pixel at `(px, py)`: black over a dark
/// module, white elsewhere.
pub open spec fn module_color(m: ModuleMatrix, mp: int, px: int, py: int) -> Pixel {
    if m.cell(px / mp, py / mp) {
        black()
    } else {
        white()
    }
}

/// `r` is the rasterization of `m` at requested size `target`: a square
/// canvas of a whole number of pixels per module, each pixel coloured
/// after the module it falls in.
pub open spec fn rasterized(m: ModuleMatrix, target: int, r: Raster) -> bool {
    let mp = module_pixels(m.side as int, target);
    &&& r.wf()
    &&& r.width == snapped_size(m.side as int, target)
    &&& r.height == r.width
    &&& forall|px: int, py: int|
        0 <= px < r.width && 0 <= py < r.height ==> r.at(px, py) == module_color(m, mp, px, py)
}

/// Squaring keeps order on the non-negatives.
proof fn lemma_square_le(a: int, b: int)
    by (nonlinear_arith)
    requires
        0 <= a <= b,
    ensures
        a * a <= b * b,
{
}

/// Module alignment: the canvas side is an exact multiple of the grid
/// side, and every module maps to a contiguous, uniform block of
/// `module_pixels` by `module_pixels` pixels of that module's colour —
/// here stated of the pixel at offset `(dx, dy)` inside the block of the
/// module at `(cx, cy)`.
pub proof fn lemma_module_alignment(
    m: ModuleMatrix,
    target: int,
    r: Raster,
    cx: int,
    cy: int,
    dx: int,
    dy: int,
)
    requires
        rasterized(m, target, r),
        rasterize_ok(m.side as int, target),
        0 <= cx < m.side,
        0 <= cy < m.side,
        0 <= dx < module_pixels(m.side as int, target),
        0 <= dy < module_pixels(m.side as int, target),
    ensures
        r.width == module_pixels(m.side as int, target) * m.side,
        r.at(
            cx * module_pixels(m.side as int, target) + dx,
            cy * module_pixels(m.side as int, target) + dy,
        ) == (if m.cell(cx, cy) {
            black()
        } else {
            white()
        }),
{
    let mp = module_pixels(m.side as int, target);
    lemma_div_non_zero(target, m.side as int);
    let px = cx * mp + dx;
    let py = cy * mp + dy;
    assert(0 <= px < mp * m.side && 0 <= py < mp * m.side) by (nonlinear_arith)
        requires
            0 <= cx < m.side,
            0 <= cy < m.side,
            0 <= dx < mp,
            0 <= dy < mp,
            px == cx * mp + dx,
            py == cy * mp + dy,
    ;
    vstd::arithmetic::div_mod::lemma_fundamental_div_mod_converse(px, mp, cx, dx);
    vstd::arithmetic::div_mod::lemma_fundamental_div_mod_converse(py, mp, cy, dy);
    assert(r.at(px, py) == module_color(m, mp, px, py));
}

/// Draw the module matrix `m` on a white square canvas of the largest size
/// not above `target_size` at which every module is a whole block of
/// pixels.  Fails exactly when the grid is empty or wider than the
/// requested canvas.
#[verifier::loop_isolation(false)]
pub fn rasterize(m: &ModuleMatrix, target_size: usize) -> (r: Result<Raster, Error>)
    requires
        m.wf(),
        target_size * target_size <= usize::MAX,
    ensures
        r is Ok <==> rasterize_ok(m.side as int, target_size as int),
        r matches Ok(c) ==> rasterized(*m, target_size as int, c),
        r matches Err(e) ==> e == Error::InvalidDimension,
{
    let n = m.side;
    if n == 0 || target_size < n {
        return Err(Error::InvalidDimension);
    }
    proof {
        lemma_div_non_zero(target_size as int, n as int);
        lemma_fundamental_div_mod(target_size as int, n as int);
        lemma_mod_bound(target_size as int, n as int);
    }
    let mp = target_size / n;
    proof {
        vstd::arithmetic::mul::lemma_mul_is_commutative(mp as int, n as int);
        assert(mp as int * n as int <= target_size as int);
    }
    let actual = mp * n;
    proof {
        lemma_square_le(actual as int, target_size as int);
    }
    let mut canvas = Raster::solid(actual, actual, white_pixel());
    let mut py: usize = 0;
    while py < actual
        invariant
            py <= actual,
            canvas.wf(),
            canvas.width == actual,
            canvas.height == actual,
            forall|x: int, y: int|
                0 <= x < actual && 0 <= y < py
                    ==> canvas.at(x, y) == module_color(*m, mp as int, x, y),
            forall|x: int, y: int|
                0 <= x < actual && py <= y < actual ==> canvas.at(x, y) == white(),
        decreases actual - py,
    {
        let mut px: usize = 0;
        while px < actual
            invariant
                px <= actual,
                py < actual,
                canvas.wf(),
                canvas.width == actual,
                canvas.height == actual,
                forall|x: int, y: int|
                    0 <= x < actual && 0 <= y < py
                        ==> canvas.at(x, y) == module_color(*m, mp as int, x, y),
                forall|x: int|
                    0 <= x < px ==> canvas.at(x, py as int) == module_color(*m, mp as int, x, py as int),
                forall|x: int|
                    px <= x < actual ==> canvas.at(x, py as int) == white(),
                forall|x: int, y: int|
                    0 <= x < actual && py < y < actual ==> canvas.at(x, y) == white(),
            decreases actual - px,
        {
            proof {
                lemma_multiply_divide_lt(px as int, mp as int, n as int);
                lemma_multiply_divide_lt(py as int, mp as int, n as int);
                lemma_div_pos_is_pos(px as int, mp as int);
                lemma_div_pos_is_pos(py as int, mp as int);
            }
            let cx = px / mp;
            let cy = py / mp;
            if m.module(cx, cy) {
                canvas.set(px, py, black_pixel());
            }
            px += 1;
        }
        py += 1;
    }
    Ok(canvas)
}

} // verus!
