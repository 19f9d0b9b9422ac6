use vstd::prelude::*;

verus! {

use crate::raster::Raster;
use crate::matrix::ModuleMatrix;
use crate::error::Error;
use crate::rasterize::{rasterize, rasterized, rasterize_ok, snapped_size, module_pixels, module_color};
use crate::encode::{encode_payload, qr_symbol};
use crate::resize::{prepare, lanczos_resized};
use crate::compose::{
    composite, composited, composite_color, safe_side, in_icon, in_safe_area, center_offset,
};
use vstd::arithmetic::div_mod::lemma_fundamental_div_mod;
use vstd::arithmetic::div_mod::lemma_mod_bound;
use vstd::arithmetic::div_mod::lemma_div_pos_is_pos;
use vstd::arithmetic::div_mod::lemma_div_non_zero;
use vstd::arithmetic::div_mod::lemma_multiply_divide_lt;
use vstd::pervasive::unreached;

/// The requested canvas side before snapping, in pixels.
pub const TARGET_SIZE: usize = 400;

/// The icon is bounded by this fraction of the snapped canvas side.
pub const ICON_RATIO: usize = 5;

/// The safe-area margin around the icon, in pixels.
pub const SAFE_MARGIN: usize = 5;

/// The side of the module grid the encoder returns for `payload`;
/// meaningful only when encoding succeeds.
pub open spec fn symbol_side(payload: Seq<char>) -> int {
    qr_symbol(payload)->0.len() as int
}

/// The icon bound that goes with a snapped canvas side `s`.
pub open spec fn icon_bound(s: int) -> int {
    s / ICON_RATIO as int
}

/// Whether the canvas and icon dimensions work out for `payload` at the
/// requested size `target`.
pub open spec fn dimensions_ok(payload: Seq<char>, target: int) -> bool {
    let n = symbol_side(payload);
    &&& rasterize_ok(n, target)
    &&& icon_bound(snapped_size(n, target)) >= 1
}

/// The three stages a successful run passes through: `m` is the encoded
/// symbol, `canvas` its rasterization, `icon` the rescaled source icon,
/// and `out` the composition of the last two.
pub open spec fn pipeline_stages(
    payload: Seq<char>,
    source_icon: Raster,
    target: int,
    margin: int,
    m: ModuleMatrix,
    canvas: Raster,
    icon: Raster,
    out: Raster,
) -> bool {
    let bound = icon_bound(snapped_size(m.side as int, target));
    &&& m.wf()
    &&& qr_symbol(payload) == Some(m.rows())
    &&& rasterized(m, target, canvas)
    &&& icon.wf()
    &&& 1 <= icon.width <= bound
    &&& 1 <= icon.height <= bound
    &&& icon.rows() == lanczos_resized(source_icon.rows(), bound as nat, bound as nat)
    &&& composited(canvas, icon, margin, out)
}

/// `out` is a possible successful output for these inputs.
pub open spec fn generated(
    payload: Seq<char>,
    source_icon: Raster,
    target: int,
    margin: int,
    out: Raster,
) -> bool {
    exists|m: ModuleMatrix, canvas: Raster, icon: Raster|
        #[trigger] pipeline_stages(payload, source_icon, target, margin, m, canvas, icon, out)
}

/// Everything `generate` promises: which inputs succeed, which error
/// each failing input reports, and the content of a successful output.
pub open spec fn pipeline_post(
    payload: Seq<char>,
    source_icon: Raster,
    target: int,
    margin: int,
    r: Result<Raster, Error>,
) -> bool {
    if qr_symbol(payload) is None {
        r == Result::<Raster, Error>::Err(Error::EncodingError)
    } else if !dimensions_ok(payload, target) {
        r == Result::<Raster, Error>::Err(Error::InvalidDimension)
    } else {
        &&& r is Ok
        &&& generated(payload, source_icon, target, margin, r->Ok_0)
    }
}

/// Dividing a non-negative value by a positive one does not grow it.
proof fn lemma_div_le_self(a: int, d: int)
    requires
        0 <= a,
        1 <= d,
    ensures
        0 <= a / d <= a,
{
    lemma_fundamental_div_mod(a, d);
    lemma_mod_bound(a, d);
    lemma_div_pos_is_pos(a, d);
    assert(d * (a / d) >= a / d) by (nonlinear_arith)
        requires
            1 <= d,
            0 <= a / d,
    ;
}

/// Run the whole pipeline: encode `payload`, draw the symbol on a canvas
/// snapped to `target_size`, rescale `source_icon` to the canvas's icon
/// bound and composite it over the centre with `margin` pixels of safe
/// area.
pub fn generate(payload: &str, source_icon: &Raster, target_size: usize, margin: usize) -> (r:
    Result<Raster, Error>)
    requires
        source_icon.wf(),
        1 <= source_icon.width <= u32::MAX,
        1 <= source_icon.height <= u32::MAX,
        target_size * target_size <= usize::MAX,
        target_size <= u32::MAX,
        target_size + 2 * margin <= usize::MAX,
    ensures
        pipeline_post(payload@, *source_icon, target_size as int, margin as int, r),
{
    let m = match encode_payload(payload) {
        Ok(m) => m,
        Err(e) => {
            return Err(e);
        },
    };
    proof {
        assert(m.rows().len() == m.side as nat);
    }
    let canvas = match rasterize(&m, target_size) {
        Ok(c) => c,
        Err(e) => {
            return Err(e);
        },
    };
    proof {
        lemma_fundamental_div_mod(target_size as int, m.side as int);
        lemma_mod_bound(target_size as int, m.side as int);
        vstd::arithmetic::mul::lemma_mul_is_commutative(
            module_pixels(m.side as int, target_size as int), m.side as int,
        );
        assert(canvas.width <= target_size);
        lemma_div_le_self(canvas.width as int, ICON_RATIO as int);
    }
    let bound = canvas.width / ICON_RATIO;
    if bound == 0 {
        return Err(Error::InvalidDimension);
    }
    let icon = prepare(source_icon, bound);
    proof {
        assert(safe_side(icon.width as int, icon.height as int, margin as int) <= usize::MAX);
    }
    match composite(canvas, &icon, margin) {
        Ok(out) => {
            proof {
                assert(pipeline_stages(
                    payload@, *source_icon, target_size as int, margin as int, m, canvas, icon, out,
                ));
            }
            Ok(out)
        },
        Err(_) => unreached(),
    }
}

/// Render `payload` as a QR symbol with `source_icon` centred on it,
/// using the fixed defaults: a canvas requested at 400 pixels, an icon
/// bounded by a fifth of the snapped canvas, and a five-pixel margin.
pub fn generate_qr_with_icon(payload: &str, source_icon: &Raster) -> (r: Result<Raster, Error>)
    requires
        source_icon.wf(),
        1 <= source_icon.width <= u32::MAX,
        1 <= source_icon.height <= u32::MAX,
    ensures
        pipeline_post(payload@, *source_icon, TARGET_SIZE as int, SAFE_MARGIN as int, r),
{
    generate(payload, source_icon, TARGET_SIZE, SAFE_MARGIN)
}

/// Determinism: one payload, one source icon and one parameter set admit
/// only one outcome — the same error, or outputs of the same dimensions
/// that agree pixel for pixel.
pub proof fn lemma_pipeline_deterministic(
    payload: Seq<char>,
    source_icon: Raster,
    target: int,
    margin: int,
    r1: Result<Raster, Error>,
    r2: Result<Raster, Error>,
)
    requires
        pipeline_post(payload, source_icon, target, margin, r1),
        pipeline_post(payload, source_icon, target, margin, r2),
    ensures
        r1 is Ok <==> r2 is Ok,
        r1 matches Err(e1) ==> r2 matches Err(e2) && e1 == e2,
        r1 matches Ok(a) ==> r2 matches Ok(b) && {
            &&& a.width == b.width
            &&& a.height == b.height
            &&& forall|x: int, y: int|
                0 <= x < a.width && 0 <= y < a.height ==> a.at(x, y) == b.at(x, y)
            &&& a.rows() == b.rows()
        },
{
    if qr_symbol(payload) is Some && dimensions_ok(payload, target) {
        let a = r1->Ok_0;
        let b = r2->Ok_0;
        let (m1, c1, i1) = choose|m: ModuleMatrix, c: Raster, i: Raster|
            #[trigger] pipeline_stages(payload, source_icon, target, margin, m, c, i, a);
        let (m2, c2, i2) = choose|m: ModuleMatrix, c: Raster, i: Raster|
            #[trigger] pipeline_stages(payload, source_icon, target, margin, m, c, i, b);
        assert(m1.rows() == m2.rows());
        ModuleMatrix::lemma_rows_determine_cells(m1, m2);
        assert(m1.rows().len() == m1.side as nat);
        lemma_div_non_zero(target, m1.side as int);
        let mp = module_pixels(m1.side as int, target);
        assert(c1.width == c2.width && c1.height == c2.height);
        assert forall|x: int, y: int|
            0 <= x < c1.width && 0 <= y < c1.height implies c1.at(x, y) == c2.at(x, y) by {
            assert(c1.at(x, y) == module_color(m1, mp, x, y));
            assert(c2.at(x, y) == module_color(m2, mp, x, y));
            lemma_div_pos_is_pos(x, mp);
            lemma_div_pos_is_pos(y, mp);
            lemma_multiply_divide_lt(x, mp, m1.side as int);
            lemma_multiply_divide_lt(y, mp, m1.side as int);
        }
        assert(i1.rows() == i2.rows());
        Raster::lemma_rows_determine_pixels(i1, i2);
        assert(a.width == b.width && a.height == b.height);
        let xo = center_offset(c1.width as int, i1.width as int);
        let yo = center_offset(c1.height as int, i1.height as int);
        assert forall|x: int, y: int|
            0 <= x < a.width && 0 <= y < a.height implies a.at(x, y) == b.at(x, y) by {
            assert(a.at(x, y) == composite_color(c1, i1, margin, x, y));
            assert(b.at(x, y) == composite_color(c2, i2, margin, x, y));
            assert(in_icon(c1, i1, x, y) == in_icon(c2, i2, x, y));
            assert(in_safe_area(c1, i1, margin, x, y) == in_safe_area(c2, i2, margin, x, y));
            if in_icon(c1, i1, x, y) {
                assert(i1.at(x - xo, y - yo) == i2.at(x - xo, y - yo));
            } else if !in_safe_area(c1, i1, margin, x, y) {
                assert(c1.at(x, y) == c2.at(x, y));
            }
        }
        Raster::lemma_pointwise_eq(a, b);
    }
}

} // verus!
