//! The error taxonomy of decoding: a structural error invalidates the
//! whole stream, a decode error only the submessage it came from.

use crate::jpeg2000::Jpeg2000CodeStreamDecodeError;
use crate::parser::ParseError;
use crate::simple_packing::SimplePackingDecodeError;
use vstd::prelude::*;

verus! {

/// An error while decoding the packed data of one submessage.
#[derive(Debug, Clone, PartialEq, Eq, Hash)]
pub enum DecodeError {
    /// The bitmap indicator is not 255 (no bitmap present); explicit
    /// bitmaps are not supported.
    BitMapIndicatorUnsupported,
    SimplePackingDecodeError(SimplePackingDecodeError),
    Jpeg2000CodeStreamDecodeError(Jpeg2000CodeStreamDecodeError),
}

/// A top-level error of the library.
#[derive(Debug, Clone, PartialEq, Eq, Hash)]
pub enum GribError {
    /// A section known by number is missing the body the decoder expects.
    InternalDataError,
    ParseError(ParseError),
    DecodeError(DecodeError),
}

} // verus!
