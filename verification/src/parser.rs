//! The GRIB2 stream scanner: envelope framing, section headers, and the
//! fixed body prefix of every numbered section.
//!
//! A message begins with the 4-byte magic `GRIB`, carries its edition at
//! octet 7 and its total length as a big-endian 64-bit integer at octet 8,
//! holds sections 1 to 7 (each prefixed by a 4-byte size and a 1-byte
//! section number), and ends with the 4-byte sentinel `7777` exactly where
//! the declared length points.

use crate::bytes::{read_be_u16, read_be_u32, read_be_u64, spec_be_u16, spec_be_u32, spec_be_u64};
use vstd::prelude::*;

verus! {

/// Size in bytes of the envelope header (section 0).
pub const SECT0_IS_SIZE: usize = 16;

/// Size in bytes of the common header (size and number) of sections 1 to 7.
pub const SECT_HEADER_SIZE: usize = 5;

/// Size in bytes of the end section (section 8), the sentinel `7777`.
pub const SECT8_ES_SIZE: usize = 4;

/// An error found while framing or ordering the sections of a message.
#[derive(Debug, Clone, PartialEq, Eq, Hash)]
pub enum ParseError {
    /// A read ran past the end of the input; the payload is a
    /// human-readable description.
    ReadError(String),
    /// The envelope does not begin with the magic `GRIB`.
    NotGRIB,
    /// The envelope's edition octet is not 2.
    GRIBVersionMismatch(u8),
    /// A section header carries a number outside 1..=7.
    UnknownSectionNumber(u8),
    /// The sentinel `7777` is missing where the message length points.
    EndSectionMismatch,
    /// The section sequence ended in the middle of a submessage.
    GRIB2IterationSuddenlyFinished,
    /// A submessage was opened before any grid definition (section 3) was
    /// seen; the payload is the index of the offending descriptor.
    NoGridDefinition(usize),
    /// A section is out of order; the payload is the index of the offending
    /// descriptor.
    GRIB2WrongIteration(usize),
}

/// The kind of a [`ParseError`], with the message text of a read failure
/// abstracted away.  Specifications are stated over kinds, which pin every
/// error down except the wording of [`ParseError::ReadError`].
#[derive(Debug, Clone, Copy, PartialEq, Eq, Hash)]
pub enum ParseErrorKind {
    ReadError,
    NotGRIB,
    GRIBVersionMismatch(u8),
    UnknownSectionNumber(u8),
    EndSectionMismatch,
    GRIB2IterationSuddenlyFinished,
    NoGridDefinition(usize),
    GRIB2WrongIteration(usize),
}

/// The kind of a parse error.
pub open spec fn parse_error_kind(e: ParseError) -> ParseErrorKind {
    match e {
        ParseError::ReadError(_) => ParseErrorKind::ReadError,
        ParseError::NotGRIB => ParseErrorKind::NotGRIB,
        ParseError::GRIBVersionMismatch(v) => ParseErrorKind::GRIBVersionMismatch(v),
        ParseError::UnknownSectionNumber(n) => ParseErrorKind::UnknownSectionNumber(n),
        ParseError::EndSectionMismatch => ParseErrorKind::EndSectionMismatch,
        ParseError::GRIB2IterationSuddenlyFinished => {
            ParseErrorKind::GRIB2IterationSuddenlyFinished
        },
        ParseError::NoGridDefinition(i) => ParseErrorKind::NoGridDefinition(i),
        ParseError::GRIB2WrongIteration(i) => ParseErrorKind::GRIB2WrongIteration(i),
    }
}

/// An executable result agrees with a specified one: equal values on
/// success, equal error kinds on failure.
pub open spec fn result_matches<T>(r: Result<T, ParseError>, s: Result<T, ParseErrorKind>) -> bool {
    match (r, s) {
        (Ok(a), Ok(b)) => a == b,
        (Err(e), Err(k)) => parse_error_kind(e) == k,
        _ => false,
    }
}

/// The error used when a read would run past the end of the input.
pub(crate) fn read_error() -> (e: ParseError)
    ensures
        parse_error_kind(e) == ParseErrorKind::ReadError,
{
    ParseError::ReadError("unexpected end of input".to_owned())
}

/// Reference time of the data: year, month, day and time of day.
#[derive(Debug, Clone, PartialEq, Eq, Hash)]
pub struct RefTime {
    pub year: u16,
    pub month: u8,
    pub date: u8,
    pub hour: u8,
    pub minute: u8,
    pub second: u8,
}

/// The decoded body of section 1: identification of the message.
#[derive(Debug, Clone, PartialEq, Eq, Hash)]
pub struct Identification {
    /// Identification of originating/generating centre.
    pub centre_id: u16,
    /// Identification of originating/generating sub-centre.
    pub subcentre_id: u16,
    /// GRIB master tables version number.
    pub master_table_version: u8,
    /// GRIB local tables version number.
    pub local_table_version: u8,
    /// Significance of the reference time.
    pub ref_time_significance: u8,
    /// Reference time of the data.
    pub ref_time: RefTime,
    /// Production status of the processed data.
    pub prod_status: u8,
    /// Type of the processed data.
    pub data_type: u8,
}

/// The decoded fixed prefix of a section body.
#[derive(Debug, Clone, PartialEq, Eq, Hash)]
pub enum SectionBody {
    Section1(Identification),
    /// Local use; the body is consumed as opaque.
    Section2,
    Section3 {
        /// Number of data points.
        num_points: u32,
        /// Grid definition template number.
        grid_tmpl_num: u16,
    },
    Section4 {
        /// Number of coordinate values after the template.
        num_coordinates: u16,
        /// Product definition template number.
        prod_tmpl_num: u16,
    },
    Section5 {
        /// Number of data points represented in section 7.
        num_points: u32,
        /// Data representation template number.
        repr_tmpl_num: u16,
    },
    Section6 {
        /// Bitmap indicator; 255 means no bitmap is present.
        bitmap_indicator: u8,
    },
    /// Packed data; the payload stays in place and is addressed through the
    /// descriptor's offset and size.
    Section7,
}

/// A section descriptor: section number, byte offset from the start of the
/// message, total size in bytes (header and body), and the decoded body if
/// one was read.
#[derive(Debug, Clone, PartialEq, Eq, Hash)]
pub struct SectionInfo {
    pub num: u8,
    pub offset: usize,
    pub size: usize,
    pub body: Option<SectionBody>,
}

/// What decoding the section 1 body at `off` (spanning `body_size` bytes)
/// yields: the 16-byte identification prefix, with the tail skipped.
pub open spec fn spec_sect1_body(data: Seq<u8>, off: int, body_size: int) -> Result<
    SectionBody,
    ParseErrorKind,
> {
    if body_size < 16 || off + body_size > data.len() {
        Err(ParseErrorKind::ReadError)
    } else {
        Ok(
            SectionBody::Section1(
                Identification {
                    centre_id: spec_be_u16(data, off) as u16,
                    subcentre_id: spec_be_u16(data, off + 2) as u16,
                    master_table_version: data[off + 4],
                    local_table_version: data[off + 5],
                    ref_time_significance: data[off + 6],
                    ref_time: RefTime {
                        year: spec_be_u16(data, off + 7) as u16,
                        month: data[off + 9],
                        date: data[off + 10],
                        hour: data[off + 11],
                        minute: data[off + 12],
                        second: data[off + 13],
                    },
                    prod_status: data[off + 14],
                    data_type: data[off + 15],
                },
            ),
        )
    }
}

/// What decoding the section 2 body yields: no fields; the body is consumed
/// as opaque.
pub open spec fn spec_sect2_body(data: Seq<u8>, off: int, body_size: int) -> Result<
    SectionBody,
    ParseErrorKind,
> {
    if body_size > 0 && off + body_size > data.len() {
        Err(ParseErrorKind::ReadError)
    } else {
        Ok(SectionBody::Section2)
    }
}

/// What decoding the section 3 body yields: the 9-byte grid definition
/// prefix, with the template tail skipped.
pub open spec fn spec_sect3_body(data: Seq<u8>, off: int, body_size: int) -> Result<
    SectionBody,
    ParseErrorKind,
> {
    if body_size < 9 || off + body_size > data.len() {
        Err(ParseErrorKind::ReadError)
    } else {
        Ok(
            SectionBody::Section3 {
                num_points: spec_be_u32(data, off + 1) as u32,
                grid_tmpl_num: spec_be_u16(data, off + 7) as u16,
            },
        )
    }
}

/// What decoding the section 4 body yields: the 4-byte product definition
/// prefix, with the template tail skipped.
pub open spec fn spec_sect4_body(data: Seq<u8>, off: int, body_size: int) -> Result<
    SectionBody,
    ParseErrorKind,
> {
    if body_size < 4 || off + body_size > data.len() {
        Err(ParseErrorKind::ReadError)
    } else {
        Ok(
            SectionBody::Section4 {
                num_coordinates: spec_be_u16(data, off) as u16,
                prod_tmpl_num: spec_be_u16(data, off + 2) as u16,
            },
        )
    }
}

/// What decoding the section 5 body yields: the 6-byte data representation
/// prefix, with the template tail skipped.
pub open spec fn spec_sect5_body(data: Seq<u8>, off: int, body_size: int) -> Result<
    SectionBody,
    ParseErrorKind,
> {
    if body_size < 6 || off + body_size > data.len() {
        Err(ParseErrorKind::ReadError)
    } else {
        Ok(
            SectionBody::Section5 {
                num_points: spec_be_u32(data, off) as u32,
                repr_tmpl_num: spec_be_u16(data, off + 4) as u16,
            },
        )
    }
}

/// What decoding the section 6 body yields: the bitmap indicator octet,
/// with the bitmap itself skipped.
pub open spec fn spec_sect6_body(data: Seq<u8>, off: int, body_size: int) -> Result<
    SectionBody,
    ParseErrorKind,
> {
    if body_size < 1 || off + body_size > data.len() {
        Err(ParseErrorKind::ReadError)
    } else {
        Ok(SectionBody::Section6 { bitmap_indicator: data[off] })
    }
}

/// What decoding the section 7 body yields: no fields; the packed payload
/// is consumed as opaque and addressed later by offset and size.
pub open spec fn spec_sect7_body(data: Seq<u8>, off: int, body_size: int) -> Result<
    SectionBody,
    ParseErrorKind,
> {
    if body_size > 0 && off + body_size > data.len() {
        Err(ParseErrorKind::ReadError)
    } else {
        Ok(SectionBody::Section7)
    }
}

/// What decoding the body of a section with number `num`, starting (header
/// included) at `off` and spanning `size` bytes, yields.
pub open spec fn spec_read_body(data: Seq<u8>, num: u8, off: int, size: int) -> Result<
    SectionBody,
    ParseErrorKind,
> {
    if size < SECT_HEADER_SIZE {
        Err(ParseErrorKind::ReadError)
    } else if num < 1 || num > 7 {
        Err(ParseErrorKind::UnknownSectionNumber(num))
    } else if off + size > data.len() {
        Err(ParseErrorKind::ReadError)
    } else {
        let boff = off + SECT_HEADER_SIZE;
        let bsize = size - SECT_HEADER_SIZE;
        if num == 1 {
            spec_sect1_body(data, boff, bsize)
        } else if num == 2 {
            spec_sect2_body(data, boff, bsize)
        } else if num == 3 {
            spec_sect3_body(data, boff, bsize)
        } else if num == 4 {
            spec_sect4_body(data, boff, bsize)
        } else if num == 5 {
            spec_sect5_body(data, boff, bsize)
        } else if num == 6 {
            spec_sect6_body(data, boff, bsize)
        } else {
            spec_sect7_body(data, boff, bsize)
        }
    }
}

/// Decodes the identification prefix of a section 1 body at `off`.
pub fn unpack_sect1_body(data: &Vec<u8>, off: usize, body_size: usize) -> (r: Result<
    SectionBody,
    ParseError,
>)
    ensures
        result_matches(r, spec_sect1_body(data@, off as int, body_size as int)),
{
    if body_size < 16 || off > data.len() || body_size > data.len() - off {
        return Err(read_error());
    }
    Ok(
        SectionBody::Section1(
            Identification {
                centre_id: read_be_u16(data, off),
                subcentre_id: read_be_u16(data, off + 2),
                master_table_version: data[off + 4],
                local_table_version: data[off + 5],
                ref_time_significance: data[off + 6],
                ref_time: RefTime {
                    year: read_be_u16(data, off + 7),
                    month: data[off + 9],
                    date: data[off + 10],
                    hour: data[off + 11],
                    minute: data[off + 12],
                    second: data[off + 13],
                },
                prod_status: data[off + 14],
                data_type: data[off + 15],
            },
        ),
    )
}

/// Consumes a section 2 body at `off` as opaque local-use data.
pub fn unpack_sect2_body(data: &Vec<u8>, off: usize, body_size: usize) -> (r: Result<
    SectionBody,
    ParseError,
>)
    ensures
        result_matches(r, spec_sect2_body(data@, off as int, body_size as int)),
{
    if body_size > 0 && (off > data.len() || body_size > data.len() - off) {
        return Err(read_error());
    }
    Ok(SectionBody::Section2)
}

/// Decodes the grid definition prefix of a section 3 body at `off`.
pub fn unpack_sect3_body(data: &Vec<u8>, off: usize, body_size: usize) -> (r: Result<
    SectionBody,
    ParseError,
>)
    ensures
        result_matches(r, spec_sect3_body(data@, off as int, body_size as int)),
{
    if body_size < 9 || off > data.len() || body_size > data.len() - off {
        return Err(read_error());
    }
    Ok(
        SectionBody::Section3 {
            num_points: read_be_u32(data, off + 1),
            grid_tmpl_num: read_be_u16(data, off + 7),
        },
    )
}

/// Decodes the product definition prefix of a section 4 body at `off`.
pub fn unpack_sect4_body(data: &Vec<u8>, off: usize, body_size: usize) -> (r: Result<
    SectionBody,
    ParseError,
>)
    ensures
        result_matches(r, spec_sect4_body(data@, off as int, body_size as int)),
{
    if body_size < 4 || off > data.len() || body_size > data.len() - off {
        return Err(read_error());
    }
    Ok(
        SectionBody::Section4 {
            num_coordinates: read_be_u16(data, off),
            prod_tmpl_num: read_be_u16(data, off + 2),
        },
    )
}

/// Decodes the data representation prefix of a section 5 body at `off`.
pub fn unpack_sect5_body(data: &Vec<u8>, off: usize, body_size: usize) -> (r: Result<
    SectionBody,
    ParseError,
>)
    ensures
        result_matches(r, spec_sect5_body(data@, off as int, body_size as int)),
{
    if body_size < 6 || off > data.len() || body_size > data.len() - off {
        return Err(read_error());
    }
    Ok(
        SectionBody::Section5 {
            num_points: read_be_u32(data, off),
            repr_tmpl_num: read_be_u16(data, off + 4),
        },
    )
}

/// Decodes the bitmap indicator of a section 6 body at `off`.
pub fn unpack_sect6_body(data: &Vec<u8>, off: usize, body_size: usize) -> (r: Result<
    SectionBody,
    ParseError,
>)
    ensures
        result_matches(r, spec_sect6_body(data@, off as int, body_size as int)),
{
    if body_size < 1 || off > data.len() || body_size > data.len() - off {
        return Err(read_error());
    }
    Ok(SectionBody::Section6 { bitmap_indicator: data[off] })
}

/// Consumes a section 7 body at `off` as the opaque packed payload.
pub fn unpack_sect7_body(data: &Vec<u8>, off: usize, body_size: usize) -> (r: Result<
    SectionBody,
    ParseError,
>)
    ensures
        result_matches(r, spec_sect7_body(data@, off as int, body_size as int)),
{
    if body_size > 0 && (off > data.len() || body_size > data.len() - off) {
        return Err(read_error());
    }
    Ok(SectionBody::Section7)
}

impl SectionInfo {
    /// Reads and decodes this section's body from `data`.  The body starts
    /// right after the 5-byte section header at `self.offset`.
    pub fn read_body(&self, data: &Vec<u8>) -> (r: Result<SectionBody, ParseError>)
        ensures
            result_matches(r, spec_read_body(data@, self.num, self.offset as int, self.size as int)),
    {
        if self.size < SECT_HEADER_SIZE {
            return Err(read_error());
        }
        if self.num < 1 || self.num > 7 {
            return Err(ParseError::UnknownSectionNumber(self.num));
        }
        if self.offset > data.len() || self.size > data.len() - self.offset {
            return Err(read_error());
        }
        let boff = self.offset + SECT_HEADER_SIZE;
        let bsize = self.size - SECT_HEADER_SIZE;
        if self.num == 1 {
            unpack_sect1_body(data, boff, bsize)
        } else if self.num == 2 {
            unpack_sect2_body(data, boff, bsize)
        } else if self.num == 3 {
            unpack_sect3_body(data, boff, bsize)
        } else if self.num == 4 {
            unpack_sect4_body(data, boff, bsize)
        } else if self.num == 5 {
            unpack_sect5_body(data, boff, bsize)
        } else if self.num == 6 {
            unpack_sect6_body(data, boff, bsize)
        } else {
            unpack_sect7_body(data, boff, bsize)
        }
    }
}

/// What decoding the 16-byte envelope header yields: the total message
/// size, envelope and sentinel included.
pub open spec fn spec_sect0(data: Seq<u8>) -> Result<usize, ParseErrorKind> {
    if data.len() < 16 {
        Err(ParseErrorKind::ReadError)
    } else if !(data[0] == 0x47 && data[1] == 0x52 && data[2] == 0x49 && data[3] == 0x42) {
        Err(ParseErrorKind::NotGRIB)
    } else if data[7] != 2 {
        Err(ParseErrorKind::GRIBVersionMismatch(data[7]))
    } else if spec_be_u64(data, 8) > usize::MAX {
        Err(ParseErrorKind::ReadError)
    } else {
        Ok(spec_be_u64(data, 8) as usize)
    }
}

/// Decodes the envelope header (section 0) at the start of `data`: checks
/// the magic `GRIB` (octets 0x47 0x52 0x49 0x42) and edition 2, and returns
/// the total message size declared at octet 8.
pub fn unpack_sect0(data: &Vec<u8>) -> (r: Result<usize, ParseError>)
    ensures
        result_matches(r, spec_sect0(data@)),
{
    if data.len() < SECT0_IS_SIZE {
        return Err(read_error());
    }
    if !(data[0] == 0x47 && data[1] == 0x52 && data[2] == 0x49 && data[3] == 0x42) {
        return Err(ParseError::NotGRIB);
    }
    let version = data[7];
    if version != 2 {
        return Err(ParseError::GRIBVersionMismatch(version));
    }
    let fsize = read_be_u64(data, 8);
    if fsize > usize::MAX as u64 {
        return Err(read_error());
    }
    Ok(fsize as usize)
}

/// What checking the end section at `off` yields: the four sentinel octets
/// `7777` (0x37 each) must be present.
pub open spec fn spec_sect8(data: Seq<u8>, off: int) -> Result<(), ParseErrorKind> {
    if off + 4 > data.len() {
        Err(ParseErrorKind::ReadError)
    } else if !(data[off] == 0x37 && data[off + 1] == 0x37 && data[off + 2] == 0x37 && data[off + 3]
        == 0x37) {
        Err(ParseErrorKind::EndSectionMismatch)
    } else {
        Ok(())
    }
}

/// Checks the end section (section 8) at `off`: the sentinel `7777`.
pub fn unpack_sect8(data: &Vec<u8>, off: usize) -> (r: Result<(), ParseError>)
    ensures
        result_matches(r, spec_sect8(data@, off as int)),
{
    if off > data.len() || SECT8_ES_SIZE > data.len() - off {
        return Err(read_error());
    }
    if !(data[off] == 0x37 && data[off + 1] == 0x37 && data[off + 2] == 0x37 && data[off + 3]
        == 0x37) {
        return Err(ParseError::EndSectionMismatch);
    }
    Ok(())
}

/// What decoding the 5-byte common header at `off` yields: the section size
/// and number, with `offset` and `body` left at their defaults.
pub open spec fn spec_sect_header(data: Seq<u8>, off: int) -> Result<SectionInfo, ParseErrorKind> {
    if off + 5 > data.len() {
        Err(ParseErrorKind::ReadError)
    } else {
        Ok(
            SectionInfo {
                num: data[off + 4],
                offset: 0,
                size: spec_be_u32(data, off) as usize,
                body: None,
            },
        )
    }
}

/// Reads the common header of sections 1 to 7 at `off` and returns the
/// section size and number.  The offset is assigned by the scanner, so the
/// `offset` and `body` fields of the returned descriptor are `0` and `None`.
pub fn unpack_sect_header(data: &Vec<u8>, off: usize) -> (r: Result<SectionInfo, ParseError>)
    ensures
        result_matches(r, spec_sect_header(data@, off as int)),
{
    if off > data.len() || SECT_HEADER_SIZE > data.len() - off {
        return Err(read_error());
    }
    let sect_size = read_be_u32(data, off) as usize;
    let sect_num = data[off + 4];
    Ok(SectionInfo { num: sect_num, offset: 0, size: sect_size, body: None })
}

/// What scanning the sections from `off` to the end of a message of total
/// size `whole` yields.  While more than 4 bytes of the message budget are
/// left, a section header and body are decoded; when exactly 4 are left,
/// the sentinel concludes the message.
pub open spec fn spec_scan_sections(data: Seq<u8>, whole: int, off: int) -> Result<
    Seq<SectionInfo>,
    ParseErrorKind,
>
    decreases whole - off,
{
    let rest = whole - off;
    if rest == 4 {
        match spec_sect8(data, off) {
            Err(k) => Err(k),
            Ok(u) => Ok(seq![SectionInfo { num: 8, offset: off as usize, size: 4, body: None }]),
        }
    } else if rest < 5 {
        Err(ParseErrorKind::ReadError)
    } else {
        match spec_sect_header(data, off) {
            Err(k) => Err(k),
            Ok(h) => match spec_read_body(data, h.num, off, h.size as int) {
                Err(k) => Err(k),
                Ok(body) => {
                    if h.size > rest {
                        Err(ParseErrorKind::ReadError)
                    } else {
                        match spec_scan_sections(data, whole, off + h.size) {
                            Err(k) => Err(k),
                            Ok(tail) => Ok(
                                seq![
                                    SectionInfo {
                                        num: h.num,
                                        offset: off as usize,
                                        size: h.size,
                                        body: Some(body),
                                    },
                                ] + tail,
                            ),
                        }
                    }
                },
            },
        }
    }
}

/// What scanning a whole message yields: the envelope header followed by
/// every section descriptor, the end section included.
pub open spec fn spec_scan(data: Seq<u8>) -> Result<Seq<SectionInfo>, ParseErrorKind> {
    match spec_sect0(data) {
        Err(k) => Err(k),
        Ok(whole) => spec_scan_sections(data, whole as int, 16),
    }
}

/// A scan result agrees with a specified one: equal descriptor sequences on
/// success, equal error kinds on failure.
pub open spec fn scan_result_matches(
    r: Result<Vec<SectionInfo>, ParseError>,
    s: Result<Seq<SectionInfo>, ParseErrorKind>,
) -> bool {
    match (r, s) {
        (Ok(v), Ok(sv)) => v@ == sv,
        (Err(e), Err(k)) => parse_error_kind(e) == k,
        _ => false,
    }
}

/// Prefixing a scanned tail with already-scanned descriptors.
pub open spec fn prepend_sections(
    acc: Seq<SectionInfo>,
    r: Result<Seq<SectionInfo>, ParseErrorKind>,
) -> Result<Seq<SectionInfo>, ParseErrorKind> {
    match r {
        Ok(tail) => Ok(acc + tail),
        Err(k) => Err(k),
    }
}

/// Walks one message from the start of `data`: decodes the envelope, then
/// every section header and body in order, and finally the end sentinel.
pub fn scan(data: &Vec<u8>) -> (r: Result<Vec<SectionInfo>, ParseError>)
    ensures
        scan_result_matches(r, spec_scan(data@)),
{
    let whole = match unpack_sect0(data) {
        Ok(n) => n,
        Err(e) => {
            return Err(e);
        },
    };
    if whole < SECT0_IS_SIZE + SECT8_ES_SIZE {
        return Err(read_error());
    }
    let mut sects: Vec<SectionInfo> = Vec::new();
    let mut pos: usize = SECT0_IS_SIZE;
    proof {
        assert(spec_scan(data@) == spec_scan_sections(data@, whole as int, 16));
    }
    loop
        invariant
            SECT0_IS_SIZE <= pos <= whole,
            spec_scan(data@) == prepend_sections(
                sects@,
                spec_scan_sections(data@, whole as int, pos as int),
            ),
        decreases whole - pos,
    {
        let ghost spec_rest = spec_scan_sections(data@, whole as int, pos as int);
        let rest = whole - pos;
        if rest == SECT8_ES_SIZE {
            match unpack_sect8(data, pos) {
                Err(e) => {
                    return Err(e);
                },
                Ok(u) => {},
            }
            let sect = SectionInfo { num: 8, offset: pos, size: SECT8_ES_SIZE, body: None };
            sects.push(sect);
            proof {
                assert(spec_rest is Ok);
                assert(sects@ =~= spec_scan(data@)->Ok_0);
            }
            return Ok(sects);
        }
        if rest < SECT_HEADER_SIZE {
            return Err(read_error());
        }
        let header = match unpack_sect_header(data, pos) {
            Err(e) => {
                return Err(e);
            },
            Ok(h) => h,
        };
        let probe = SectionInfo { num: header.num, offset: pos, size: header.size, body: None };
        let body = match probe.read_body(data) {
            Err(e) => {
                return Err(e);
            },
            Ok(b) => b,
        };
        if header.size > rest {
            return Err(read_error());
        }
        proof {
            // A decoded body implies the section is at least header-sized,
            // so the budget strictly shrinks.
            assert(spec_read_body(data@, header.num, pos as int, header.size as int) is Ok);
            assert(header.size >= SECT_HEADER_SIZE);
        }
        let sect = SectionInfo {
            num: header.num,
            offset: pos,
            size: header.size,
            body: Some(body),
        };
        let ghost old_sects = sects@;
        sects.push(sect);
        pos = pos + header.size;
        proof {
            let spec_tail = spec_scan_sections(data@, whole as int, pos as int);
            if spec_tail is Ok {
                assert(old_sects + (seq![sect] + spec_tail->Ok_0) =~= sects@ + spec_tail->Ok_0);
            }
        }
    }
}

/// The sum of the sizes of a sequence of section descriptors.
pub open spec fn sum_section_sizes(s: Seq<SectionInfo>) -> int
    decreases s.len(),
{
    if s.len() == 0 {
        0
    } else {
        s[0].size + sum_section_sizes(s.drop_first())
    }
}

proof fn lemma_scan_sections_sizes(data: Seq<u8>, whole: int, off: int)
    requires
        spec_scan_sections(data, whole, off) is Ok,
    ensures
        off + sum_section_sizes(spec_scan_sections(data, whole, off)->Ok_0) == whole,
    decreases whole - off,
{
    let s = spec_scan_sections(data, whole, off)->Ok_0;
    let rest = whole - off;
    if rest == 4 {
        assert(sum_section_sizes(s.drop_first()) == 0);
    } else {
        let h = spec_sect_header(data, off)->Ok_0;
        lemma_scan_sections_sizes(data, whole, off + h.size);
        let tail = spec_scan_sections(data, whole, off + h.size)->Ok_0;
        assert(s.drop_first() =~= tail);
    }
}

/// A scanned tail holds at most one descriptor per remaining byte.
proof fn lemma_scan_sections_len(data: Seq<u8>, whole: int, off: int)
    requires
        spec_scan_sections(data, whole, off) is Ok,
    ensures
        spec_scan_sections(data, whole, off)->Ok_0.len() <= whole - off,
    decreases whole - off,
{
    let rest = whole - off;
    if rest == 4 {
    } else {
        let h = spec_sect_header(data, off)->Ok_0;
        assert(spec_read_body(data, h.num, off, h.size as int) is Ok);
        lemma_scan_sections_len(data, whole, off + h.size);
    }
}

/// Law: a scanned message has fewer descriptors than its declared length
/// has bytes, so their count fits in `usize`.
pub proof fn lemma_scan_len(data: Seq<u8>)
    requires
        spec_scan(data) is Ok,
    ensures
        spec_scan(data)->Ok_0.len() <= usize::MAX,
{
    let whole = spec_sect0(data)->Ok_0;
    lemma_scan_sections_len(data, whole as int, 16);
}

/// Law: for every message the scanner accepts, the sum of the section
/// sizes plus the 16-byte envelope equals the length the envelope declares.
pub proof fn lemma_message_sizes(data: Seq<u8>)
    requires
        spec_scan(data) is Ok,
    ensures
        16 + sum_section_sizes(spec_scan(data)->Ok_0) == spec_be_u64(data, 8),
{
    let whole = spec_sect0(data)->Ok_0;
    lemma_scan_sections_sizes(data, whole as int, 16);
}

/// Every descriptor the scanner yields lies at or after `off`, and their
/// offsets strictly increase.
proof fn lemma_scan_sections_offsets(data: Seq<u8>, whole: int, off: int)
    requires
        spec_scan_sections(data, whole, off) is Ok,
        0 <= off,
        whole <= usize::MAX,
    ensures
        forall|i: int, j: int|
            0 <= i < j < spec_scan_sections(data, whole, off)->Ok_0.len()
                ==> #[trigger] spec_scan_sections(data, whole, off)->Ok_0[i].offset
                < #[trigger] spec_scan_sections(data, whole, off)->Ok_0[j].offset,
        forall|i: int|
            0 <= i < spec_scan_sections(data, whole, off)->Ok_0.len()
                ==> #[trigger] spec_scan_sections(data, whole, off)->Ok_0[i].offset >= off,
    decreases whole - off,
{
    let s = spec_scan_sections(data, whole, off)->Ok_0;
    let rest = whole - off;
    if rest == 4 {
    } else {
        let h = spec_sect_header(data, off)->Ok_0;
        lemma_scan_sections_offsets(data, whole, off + h.size);
        let tail = spec_scan_sections(data, whole, off + h.size)->Ok_0;
        assert(spec_read_body(data, h.num, off, h.size as int) is Ok);
        assert(h.size >= 5);
        assert forall|i: int|
            0 <= i < s.len() implies #[trigger] s[i].offset >= off by {
            if i > 0 {
                assert(s[i] == tail[i - 1]);
                assert(spec_scan_sections(data, whole, off + h.size)->Ok_0[i - 1].offset >= off
                    + h.size);
            }
        }
        assert forall|i: int, j: int| 0 <= i < j < s.len() implies #[trigger] s[i].offset
            < #[trigger] s[j].offset by {
            assert(s[j] == tail[j - 1]);
            assert(spec_scan_sections(data, whole, off + h.size)->Ok_0[j - 1].offset >= off
                + h.size);
            if i == 0 {
                assert(s[0].offset == off as usize);
            } else {
                assert(s[i] == tail[i - 1]);
                assert(spec_scan_sections(data, whole, off + h.size)->Ok_0[i - 1].offset
                    < spec_scan_sections(data, whole, off + h.size)->Ok_0[j - 1].offset);
            }
        }
    }
}

/// Law: the offsets of the descriptors of a scanned message strictly
/// increase with their position in the sequence.
pub proof fn lemma_scan_offsets_increase(data: Seq<u8>)
    requires
        spec_scan(data) is Ok,
    ensures
        forall|i: int, j: int|
            0 <= i < j < spec_scan(data)->Ok_0.len() ==> #[trigger] spec_scan(data)->Ok_0[i].offset
                < #[trigger] spec_scan(data)->Ok_0[j].offset,
{
    let whole = spec_sect0(data)->Ok_0;
    lemma_scan_sections_offsets(data, whole as int, 16);
}

} // verus!
