use vstd::prelude::*;

verus! {

use crate::matrix::ModuleMatrix;
use crate::error::Error;

/// What the symbol encoder returns for a payload: the rows of a square
/// module grid, or nothing when the payload cannot be encoded (e.g. it
/// exceeds the symbol capacity).
pub uninterp spec fn qr_symbol(payload: Seq<char>) -> Option<Seq<Seq<bool>>>;

/// Relies on qrcode::QrCode::new — deterministic encoding of the data
/// into a square module grid at the medium error-correction level,
/// failing exactly when the data cannot be encoded — with QrCode::width
/// and QrCode::to_colors reading the row-major modules out.
#[verifier::external_body]
fn qr_encode(payload: &str) -> (r: Option<ModuleMatrix>)
    ensures
        r is Some <==> qr_symbol(payload@) is Some,
        r matches Some(m) ==> {
            &&& m.wf()
            &&& m.side >= 1
            &&& m.rows() == qr_symbol(payload@)->0
        },
{
    match qrcode::QrCode::new(payload) {
        Ok(code) => {
            let side = code.width();
            let cells: Vec<bool> =
                code.to_colors().into_iter().map(|c| matches!(c, qrcode::Color::Dark)).collect();
            Some(ModuleMatrix { side, cells })
        },
        Err(_) => None,
    }
}

/// Encode `payload` as a QR symbol; fails with `EncodingError` exactly
/// when the symbol encoder cannot encode it.
pub fn encode_payload(payload: &str) -> (r: Result<ModuleMatrix, Error>)
    ensures
        r is Ok <==> qr_symbol(payload@) is Some,
        r matches Ok(m) ==> {
            &&& m.wf()
            &&& m.side >= 1
            &&& m.rows() == qr_symbol(payload@)->0
        },
        r matches Err(e) ==> e == Error::EncodingError,
{
    match qr_encode(payload) {
        Some(m) => Ok(m),
        None => Err(Error::EncodingError),
    }
}

} // verus!
