//! Big-endian integer decoding and the GRIB2 sign-magnitude convention.

use vstd::prelude::*;

verus! {

/// The big-endian 16-bit unsigned value of the two bytes at `off`.
pub open spec fn spec_be_u16(s: Seq<u8>, off: int) -> int {
    (s[off] as int) * 0x100 + (s[off + 1] as int)
}

/// The big-endian 32-bit unsigned value of the four bytes at `off`.
pub open spec fn spec_be_u32(s: Seq<u8>, off: int) -> int {
    spec_be_u16(s, off) * 0x10000 + spec_be_u16(s, off + 2)
}

/// The big-endian 64-bit unsigned value of the eight bytes at `off`.
pub open spec fn spec_be_u64(s: Seq<u8>, off: int) -> int {
    spec_be_u32(s, off) * 0x1_0000_0000 + spec_be_u32(s, off + 4)
}

/// Reads a big-endian 16-bit unsigned integer at `off`.
pub fn read_be_u16(data: &Vec<u8>, off: usize) -> (r: u16)
    requires
        off + 2 <= data.len(),
    ensures
        r as int == spec_be_u16(data@, off as int),
{
    (data[off] as u16) * 0x100 + (data[off + 1] as u16)
}

/// Reads a big-endian 32-bit unsigned integer at `off`.
pub fn read_be_u32(data: &Vec<u8>, off: usize) -> (r: u32)
    requires
        off + 4 <= data.len(),
    ensures
        r as int == spec_be_u32(data@, off as int),
{
    (read_be_u16(data, off) as u32) * 0x10000 + (read_be_u16(data, off + 2) as u32)
}

/// Reads a big-endian 64-bit unsigned integer at `off`.
pub fn read_be_u64(data: &Vec<u8>, off: usize) -> (r: u64)
    requires
        off + 8 <= data.len(),
    ensures
        r as int == spec_be_u64(data@, off as int),
{
    (read_be_u32(data, off) as u64) * 0x1_0000_0000 + (read_be_u32(data, off + 4) as u64)
}

/// The signed value of a 16-bit sign-magnitude field: the high bit is the
/// sign, the remaining bits are the magnitude.  Both `0x0000` and `0x8000`
/// map to zero.
pub open spec fn spec_grib_int16(v: u16) -> int {
    if v < 0x8000 {
        v as int
    } else {
        -((v - 0x8000) as int)
    }
}

/// Converts a 16-bit unsigned field to its sign-magnitude signed equivalent.
///
/// The GRIB2 manual stores several signed fields this way rather than in
/// two's complement, so native signed decoding must not be used for them.
pub fn as_grib_int(v: u16) -> (r: i16)
    ensures
        r as int == spec_grib_int16(v),
{
    if v < 0x8000 {
        v as i16
    } else {
        let m: u16 = v - 0x8000;
        -(m as i16)
    }
}

} // verus!
