use vstd::prelude::*;

verus! {

/// The failures the rendering pipeline itself can report.  Failures of the
/// surrounding I/O (a missing icon file, an unwritable output path) belong
/// to the caller that does that I/O.
#[derive(Clone, Copy, Debug, PartialEq, Eq, Structural)]
pub enum Error {
    /// The payload cannot be encoded as a QR symbol, e.g. it exceeds the
    /// symbol capacity.
    EncodingError,
    /// The requested canvas size is too small for the module grid, or
    /// leaves no room for an icon.
    InvalidDimension,
    /// The icon does not fit on the canvas.
    IconTooLarge,
}

impl Error {
    /// A single-line description, for reporting at the pipeline boundary.
    pub fn describe(&self) -> (s: &'static str)
    {
        match self {
            Error::EncodingError => "payload cannot be encoded as a QR symbol",
            Error::InvalidDimension => "target size is too small for the QR symbol",
            Error::IconTooLarge => "icon does not fit on the canvas",
        }
    }
}

} // verus!
