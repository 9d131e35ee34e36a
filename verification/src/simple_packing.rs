//! Simple packing: the dequantization parameters shared by all data
//! representations.
//!
//! A packed unsigned integer X maps to the physical value
//! (R + X * 2^E) * 10^(-D), where R is the reference value (an IEEE-754
//! 32-bit float), E the binary scale factor and D the decimal scale factor,
//! both stored as 16-bit sign-magnitude integers.

use crate::bytes::{as_grib_int, read_be_u16, read_be_u32, spec_be_u16, spec_be_u32, spec_grib_int16};
use crate::parser::{read_error, result_matches, ParseError, ParseErrorKind};
use vstd::prelude::*;

verus! {

/// An error in the simple-packing parameters or the unpacked values.
#[derive(Debug, Clone, PartialEq, Eq, Hash)]
pub enum SimplePackingDecodeError {
    /// The original field value type is not 0 (floating point).
    OriginalFieldValueTypeNotSupported,
    /// The number of unpacked values differs from the number of points
    /// section 5 declares.
    LengthMismatch,
}

/// The dequantization parameters of the simple packing representation,
/// read from the tail of a section 5 body.  The reference value is carried
/// as the raw bits of an IEEE-754 32-bit float.
#[derive(Debug, Clone, PartialEq, Eq, Hash)]
pub struct SimplePackingParam {
    /// The raw bits of the reference value R.
    pub ref_val_bits: u32,
    /// The binary scale factor E, decoded from sign-magnitude.
    pub binary_exp: i16,
    /// The decimal scale factor D, decoded from sign-magnitude.
    pub decimal_exp: i16,
    /// Bits per packed value.  The JPEG 2000 representation does not need
    /// it (the codec recovers the sample width itself); other packing
    /// schemes do, so it stays in the data model.
    pub nbit: u8,
    /// The original field value type; 0 means floating point.
    pub value_type: u8,
}

/// What reading the simple-packing parameters from the section 5 spanning
/// `size` bytes at `off` yields.  The five fields sit at octets 12 to 21 of
/// the section: the reference value bits, two sign-magnitude scale
/// factors, the bits-per-value count, and the original field value type.
pub open spec fn spec_simple_packing_param(data: Seq<u8>, off: int, size: int) -> Result<
    SimplePackingParam,
    ParseErrorKind,
> {
    if size < 21 || off + size > data.len() {
        Err(ParseErrorKind::ReadError)
    } else {
        Ok(
            SimplePackingParam {
                ref_val_bits: spec_be_u32(data, off + 11) as u32,
                binary_exp: spec_grib_int16(spec_be_u16(data, off + 15) as u16) as i16,
                decimal_exp: spec_grib_int16(spec_be_u16(data, off + 17) as u16) as i16,
                nbit: data[off + 19],
                value_type: data[off + 20],
            },
        )
    }
}

/// Reads the simple-packing parameters from the section 5 spanning `size`
/// bytes at `off`.
pub fn read_simple_packing_param(data: &Vec<u8>, off: usize, size: usize) -> (r: Result<
    SimplePackingParam,
    ParseError,
>)
    ensures
        result_matches(r, spec_simple_packing_param(data@, off as int, size as int)),
{
    if size < 21 || off > data.len() || size > data.len() - off {
        return Err(read_error());
    }
    Ok(
        SimplePackingParam {
            ref_val_bits: read_be_u32(data, off + 11),
            binary_exp: as_grib_int(read_be_u16(data, off + 15)),
            decimal_exp: as_grib_int(read_be_u16(data, off + 17)),
            nbit: data[off + 19],
            value_type: data[off + 20],
        },
    )
}

} // verus!
