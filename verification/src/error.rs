//! Error kinds shared by container loading and pixel decoding.

use vstd::prelude::*;

verus! {

/// Everything that can go wrong while loading a container or decoding one
/// image.
///
/// Container loading fails fast and atomically: no partial table is ever
/// returned.  Pixel-decode failures are scoped to the one image being decoded.
#[derive(Debug, Clone, Copy, PartialEq, Eq, Structural)]
pub enum SgImageError {
    /// The declared file size is inconsistent with the format version.
    InvalidHeader,
    /// A decoder's byte-accounting invariant was violated.
    ImageDataLengthMismatch,
    /// The image-type code is outside the supported set; carries the code.
    UnknownImageType(u16),
    /// The underlying byte source failed: a short read or a bad seek target.
    IoError,
    /// A fixed-length text field does not decode as UTF-8.
    Utf8Error,
}

impl SgImageError {
    /// A short human-readable description of the error.
    pub fn message(&self) -> (r: &'static str)
        ensures
            r@ == self.spec_message(),
    {
        proof {
            reveal_strlit("invalid header encountered");
            reveal_strlit("data length mismatch detected");
            reveal_strlit("unknown image type encountered");
            reveal_strlit("IO error encountered");
            reveal_strlit("error encountered when reading UTF8 string");
        }
        match self {
            SgImageError::InvalidHeader => "invalid header encountered",
            SgImageError::ImageDataLengthMismatch => "data length mismatch detected",
            SgImageError::UnknownImageType(_) => "unknown image type encountered",
            SgImageError::IoError => "IO error encountered",
            SgImageError::Utf8Error => "error encountered when reading UTF8 string",
        }
    }

    /// What [`Self::message`] returns, as a sequence of characters.
    pub open spec fn spec_message(&self) -> Seq<char> {
        match self {
            SgImageError::InvalidHeader => "invalid header encountered"@,
            SgImageError::ImageDataLengthMismatch => "data length mismatch detected"@,
            SgImageError::UnknownImageType(_) => "unknown image type encountered"@,
            SgImageError::IoError => "IO error encountered"@,
            SgImageError::Utf8Error => "error encountered when reading UTF8 string"@,
        }
    }
}

} // verus!
