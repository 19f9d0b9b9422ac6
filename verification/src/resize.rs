use vstd::prelude::*;

verus! {

use crate::pixel::Pixel;
use crate::raster::Raster;

/// What the resampling capability returns for a source raster and a
/// bounding box: the rows of the rescaled raster.
pub uninterp spec fn lanczos_resized(src: Seq<Seq<Pixel>>, bound_w: nat, bound_h: nat) -> Seq<Seq<Pixel>>;

/// Relies on image::DynamicImage::resize with the Lanczos3 filter — a
/// pure resampling that keeps the aspect ratio and scales the image to
/// the largest size that fits the bounds, never empty — with
/// RgbImage::from_raw and DynamicImage::to_rgb8 carrying the pixels in
/// and out.
#[verifier::external_body]
fn lanczos_resize(icon: &Raster, bound_w: usize, bound_h: usize) -> (r: Raster)
    requires
        icon.wf(),
        1 <= icon.width <= u32::MAX,
        1 <= icon.height <= u32::MAX,
        1 <= bound_w <= u32::MAX,
        1 <= bound_h <= u32::MAX,
    ensures
        r.wf(),
        1 <= r.width <= bound_w,
        1 <= r.height <= bound_h,
        r.rows() == lanczos_resized(icon.rows(), bound_w as nat, bound_h as nat),
{
    let data: Vec<u8> = icon.pixels.iter().flat_map(|p| [p.r, p.g, p.b]).collect();
    let img = image::RgbImage::from_raw(icon.width as u32, icon.height as u32, data).unwrap();
    let resized = image::DynamicImage::ImageRgb8(img)
        .resize(bound_w as u32, bound_h as u32, image::imageops::FilterType::Lanczos3);
    let rgb = resized.to_rgb8();
    let (w, h) = (rgb.width() as usize, rgb.height() as usize);
    let pixels: Vec<Pixel> = rgb.into_raw().chunks_exact(3)
        .map(|c| Pixel { r: c[0], g: c[1], b: c[2] })
        .collect();
    Raster { width: w, height: h, pixels }
}

/// Rescale `icon` to fit within `max_size` on both axes, aspect ratio
/// preserved, via the external resampling capability.  Neither output
/// dimension ever exceeds `max_size`.
pub fn prepare(icon: &Raster, max_size: usize) -> (r: Raster)
    requires
        icon.wf(),
        1 <= icon.width <= u32::MAX,
        1 <= icon.height <= u32::MAX,
        1 <= max_size <= u32::MAX,
    ensures
        r.wf(),
        1 <= r.width <= max_size,
        1 <= r.height <= max_size,
        r.rows() == lanczos_resized(icon.rows(), max_size as nat, max_size as nat),
{
    lanczos_resize(icon, max_size, max_size)
}

} // verus!
