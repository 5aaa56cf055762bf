//! Error taxonomy shared by the composition pipeline, the codec boundary and
//! the task pool.

use vstd::prelude::*;

verus! {

/// Errors reported by this crate.
///
/// `ArgumentError` covers bad API input (an empty layer list, a zero-sized
/// pool, an unknown algorithm name), `UnsupportedImageTypeError` a decoded
/// image that is not 8-bit RGBA, `IOError` a filesystem failure surfaced by a
/// caller, and `ImageLibError` a decode or encode failure reported by the PNG
/// codec.
#[derive(Clone, Debug)]
pub enum PConvertError {
    ArgumentError(String),
    UnsupportedImageTypeError,
    IOError(String),
    ImageLibError(String),
}

impl PConvertError {
    /// Human-readable description of the error.
    pub fn message(&self) -> (r: String)
        ensures
            self matches PConvertError::ArgumentError(m) ==> r@ == m@,
            self matches PConvertError::IOError(m) ==> r@ == m@,
            self matches PConvertError::ImageLibError(m) ==> r@ == m@,
            self matches PConvertError::UnsupportedImageTypeError ==> r@
                == "UnsupportedImageTypeError: images should be PNGs encoded as RGBA8"@,
    {
        match self {
            PConvertError::ArgumentError(m) => m.clone(),
            PConvertError::UnsupportedImageTypeError => String::from_str(
                "UnsupportedImageTypeError: images should be PNGs encoded as RGBA8",
            ),
            PConvertError::IOError(m) => m.clone(),
            PConvertError::ImageLibError(m) => m.clone(),
        }
    }
}

} // verus!
