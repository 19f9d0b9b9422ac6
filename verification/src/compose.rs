use vstd::prelude::*;

verus! {

use crate::pixel::{Pixel, white, white_pixel};
use crate::raster::Raster;
use crate::error::Error;
use vstd::arithmetic::div_mod::lemma_fundamental_div_mod;
use vstd::arithmetic::div_mod::lemma_mod_bound;

/// Where an edge of length `icon_dim` starts when centred on an edge of
/// length `canvas_dim`: exact centre, biased to the top-left on an odd
/// remainder.
pub open spec fn center_offset(canvas_dim: int, icon_dim: int) -> int {
    (canvas_dim - icon_dim) / 2
}

/// The larger of two values.
pub open spec fn larger(a: int, b: int) -> int {
    if a >= b {
        a
    } else {
        b
    }
}

/// The side of the square safe area: the icon's larger dimension plus a
/// margin on either side.
pub open spec fn safe_side(iw: int, ih: int, margin: int) -> int {
    larger(iw, ih) + 2 * margin
}

/// Where the safe area starts on one axis: `margin` pixels before the
/// icon, clamped to the canvas edge.
pub open spec fn safe_anchor(offset: int, margin: int) -> int {
    if offset >= margin {
        offset - margin
    } else {
        0
    }
}

/// Whether `(px, py)` falls on the centred icon.
pub open spec fn in_icon(canvas: Raster, icon: Raster, px: int, py: int) -> bool {
    let xo = center_offset(canvas.width as int, icon.width as int);
    let yo = center_offset(canvas.height as int, icon.height as int);
    &&& xo <= px < xo + icon.width
    &&& yo <= py < yo + icon.height
}

/// Whether `(px, py)` falls in the (unclipped) safe-area square.
pub open spec fn in_safe_area(canvas: Raster, icon: Raster, margin: int, px: int, py: int) -> bool {
    let ax = safe_anchor(center_offset(canvas.width as int, icon.width as int), margin);
    let ay = safe_anchor(center_offset(canvas.height as int, icon.height as int), margin);
    let s = safe_side(icon.width as int, icon.height as int, margin);
    &&& ax <= px < ax + s
    &&& ay <= py < ay + s
}

/// The inputs on which `composite` succeeds.
pub open spec fn composite_ok(canvas: Raster, icon: Raster) -> bool {
    icon.width <= canvas.width && icon.height <= canvas.height
}

/// The colour `composite` owes the pixel at `(px, py)`: an icon pixel on
/// the icon, white on the rest of the safe area, the canvas pixel
/// elsewhere — never a blend.
pub open spec fn composite_color(canvas: Raster, icon: Raster, margin: int, px: int, py: int) -> Pixel {
    if in_icon(canvas, icon, px, py) {
        icon.at(
            px - center_offset(canvas.width as int, icon.width as int),
            py - center_offset(canvas.height as int, icon.height as int),
        )
    } else if in_safe_area(canvas, icon, margin, px, py) {
        white()
    } else {
        canvas.at(px, py)
    }
}

/// `r` is `canvas` with the safe area painted white and `icon` blitted
/// over its centre.
pub open spec fn composited(canvas: Raster, icon: Raster, margin: int, r: Raster) -> bool {
    &&& r.wf()
    &&& r.width == canvas.width
    &&& r.height == canvas.height
    &&& forall|px: int, py: int|
        0 <= px < r.width && 0 <= py < r.height
            ==> r.at(px, py) == composite_color(canvas, icon, margin, px, py)
}

/// The canvas after the safe-area pass alone: white inside the clipped
/// patch, untouched outside it.
spec fn painted_color(canvas: Raster, ax: int, ay: int, ex: int, ey: int, x: int, y: int) -> Pixel {
    if ax <= x < ex && ay <= y < ey {
        white()
    } else {
        canvas.at(x, y)
    }
}

/// Halving keeps a non-negative value non-negative and does not grow it.
proof fn lemma_half_bounds(a: int)
    requires
        0 <= a,
    ensures
        0 <= a / 2 <= a,
{
    lemma_fundamental_div_mod(a, 2);
    lemma_mod_bound(a, 2);
}

/// Centring is exact: on each axis the icon's midpoint sits within one
/// pixel of the canvas's midpoint.
pub proof fn lemma_centering(canvas_dim: int, icon_dim: int)
    requires
        0 <= icon_dim <= canvas_dim,
    ensures
        2 * center_offset(canvas_dim, icon_dim) <= canvas_dim - icon_dim,
        canvas_dim - icon_dim <= 2 * center_offset(canvas_dim, icon_dim) + 1,
        canvas_dim / 2 - 1 <= center_offset(canvas_dim, icon_dim) + icon_dim / 2 <= canvas_dim / 2,
{
    lemma_fundamental_div_mod(canvas_dim - icon_dim, 2);
    lemma_mod_bound(canvas_dim - icon_dim, 2);
    lemma_fundamental_div_mod(canvas_dim, 2);
    lemma_mod_bound(canvas_dim, 2);
    lemma_fundamental_div_mod(icon_dim, 2);
    lemma_mod_bound(icon_dim, 2);
}

/// Safe-area coverage: every pixel of the centred icon lies on the
/// canvas and strictly inside the safe-area square.
pub proof fn lemma_safe_area_covers_icon(canvas: Raster, icon: Raster, margin: int, px: int, py: int)
    requires
        composite_ok(canvas, icon),
        0 <= margin,
        in_icon(canvas, icon, px, py),
    ensures
        in_safe_area(canvas, icon, margin, px, py),
        0 <= px < canvas.width,
        0 <= py < canvas.height,
{
    lemma_half_bounds(canvas.width - icon.width);
    lemma_half_bounds(canvas.height - icon.height);
}

/// Centre `icon` on `canvas`, paint the safe area white behind it and
/// copy the icon pixels over it, opaquely.  Fails exactly when the icon
/// is wider or taller than the canvas.
#[verifier::loop_isolation(false)]
pub fn composite(canvas: Raster, icon: &Raster, margin: usize) -> (r: Result<Raster, Error>)
    requires
        canvas.wf(),
        icon.wf(),
        safe_side(icon.width as int, icon.height as int, margin as int) <= usize::MAX,
    ensures
        r is Ok <==> composite_ok(canvas, *icon),
        r matches Ok(out) ==> composited(canvas, *icon, margin as int, out),
        r matches Err(e) ==> e == Error::IconTooLarge,
{
    if icon.width > canvas.width || icon.height > canvas.height {
        return Err(Error::IconTooLarge);
    }
    let cw = canvas.width;
    let ch = canvas.height;
    let iw = icon.width;
    let ih = icon.height;
    proof {
        lemma_half_bounds(cw - iw);
        lemma_half_bounds(ch - ih);
    }
    let xo = (cw - iw) / 2;
    let yo = (ch - ih) / 2;
    let maxdim = if iw >= ih { iw } else { ih };
    let side = maxdim + 2 * margin;
    let ax = if xo >= margin { xo - margin } else { 0 };
    let ay = if yo >= margin { yo - margin } else { 0 };
    let ex = if side >= cw - ax { cw } else { ax + side };
    let ey = if side >= ch - ay { ch } else { ay + side };
    let mut out = canvas;
    let mut py = ay;
    while py < ey
        invariant
            ay <= py <= ey,
            out.wf(),
            out.width == cw,
            out.height == ch,
            forall|x: int, y: int|
                0 <= x < cw && 0 <= y < ch
                    ==> out.at(x, y) == painted_color(canvas, ax as int, ay as int, ex as int, py as int, x, y),
        decreases ey - py,
    {
        let mut px = ax;
        while px < ex
            invariant
                ax <= px <= ex,
                py < ey,
                out.wf(),
                out.width == cw,
                out.height == ch,
                forall|x: int, y: int|
                    0 <= x < cw && 0 <= y < ch
                        ==> out.at(x, y) == (if (ax <= x < ex && ay <= y < py)
                            || (y == py && ax <= x < px) {
                            white()
                        } else {
                            canvas.at(x, y)
                        }),
            decreases ex - px,
        {
            out.set(px, py, white_pixel());
            px += 1;
        }
        py += 1;
    }
    proof {
        assert forall|x: int, y: int| 0 <= x < cw && 0 <= y < ch
            implies out.at(x, y) == painted_color(canvas, ax as int, ay as int, ex as int, ey as int, x, y) by {
        }
    }
    let mut iy: usize = 0;
    while iy < ih
        invariant
            iy <= ih,
            out.wf(),
            out.width == cw,
            out.height == ch,
            forall|x: int, y: int|
                0 <= x < cw && 0 <= y < ch
                    ==> out.at(x, y) == (if xo <= x < xo + iw && yo <= y < yo + iy {
                        icon.at(x - xo, y - yo)
                    } else {
                        painted_color(canvas, ax as int, ay as int, ex as int, ey as int, x, y)
                    }),
        decreases ih - iy,
    {
        let mut ix: usize = 0;
        while ix < iw
            invariant
                ix <= iw,
                iy < ih,
                out.wf(),
                out.width == cw,
                out.height == ch,
                forall|x: int, y: int|
                    0 <= x < cw && 0 <= y < ch
                        ==> out.at(x, y) == (if (xo <= x < xo + iw && yo <= y < yo + iy)
                            || (y == yo + iy && xo <= x < xo + ix) {
                            icon.at(x - xo, y - yo)
                        } else {
                            painted_color(canvas, ax as int, ay as int, ex as int, ey as int, x, y)
                        }),
            decreases iw - ix,
        {
            let p = icon.get(ix, iy);
            out.set(xo + ix, yo + iy, p);
            ix += 1;
        }
        iy += 1;
    }
    proof {
        assert forall|px: int, py: int| 0 <= px < cw && 0 <= py < ch
            implies out.at(px, py) == composite_color(canvas, *icon, margin as int, px, py) by {
            if in_icon(canvas, *icon, px, py) {
            } else if in_safe_area(canvas, *icon, margin as int, px, py) {
                assert(ax <= px < ex && ay <= py < ey);
            } else {
                assert(!(ax as int <= px < ax + side && ay as int <= py < ay + side));
            }
        }
    }
    Ok(out)
}

} // verus!
