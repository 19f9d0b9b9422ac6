//! Rendering pipeline for QR symbols with a centered logo.
//!
//! The pipeline turns a square boolean module matrix into a pixel canvas,
//! shrinks a logo raster to fit a bound, paints an opaque safe area behind
//! the logo and blits it onto the centre of the canvas.  The geometric and
//! numeric steps are verified; QR symbol encoding and resampling are done
//! by outside crates behind trusted wrappers.

pub mod pixel;
pub mod raster;
pub mod matrix;
pub mod error;
pub mod rasterize;
pub mod compose;
pub mod encode;
pub mod resize;
pub mod pipeline;
