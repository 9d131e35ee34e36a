//! Reading of meteorological data in the WMO GRIB2 binary format.
//!
//! A GRIB2 message is a magic-framed container of numbered sections.  This
//! crate frames and decodes the fixed headers of every section of a message,
//! validates the legal section ordering, groups the sections into logical
//! submessages with inherited sections carried forward, and prepares the
//! dequantization parameters for the packed data payloads.

pub mod bytes;
pub mod errors;
pub mod jpeg2000;
pub mod parser;
pub mod reader;
pub mod simple_packing;
pub mod submessage;
