//! The message reader: owns the message bytes and the descriptors the
//! scanner produced, and lists the submessages of the message.

use crate::parser::{
    parse_error_kind, scan, spec_scan, ParseError, ParseErrorKind, SectionInfo,
};
use crate::submessage::{
    get_submessages, section_nums, spec_resolve, submessages_result_matches, SubMessage,
};
use vstd::prelude::*;

verus! {

/// A reader of one GRIB2 message; construction scans the whole message.
pub trait GribReader where Self: Sized {
    /// Reads one message from its bytes.
    fn new(data: Vec<u8>) -> Result<Self, ParseError>;
}

/// A message held in memory: its bytes and the scanned section
/// descriptors.  The bytes stay available so that the packed payloads,
/// addressed by the descriptors' offsets and sizes, can be decoded after
/// the scan.
pub struct Grib2FileReader {
    data: Vec<u8>,
    sections: Vec<SectionInfo>,
}

impl Grib2FileReader {
    /// The bytes of the message.
    pub closed spec fn spec_data(&self) -> Seq<u8> {
        self.data@
    }

    /// The scanned section descriptors, in order.
    pub closed spec fn spec_sections(&self) -> Seq<SectionInfo> {
        self.sections@
    }

    /// The reader is well-formed: its descriptors are exactly what
    /// scanning its bytes yields.
    pub open spec fn wf(&self) -> bool {
        spec_scan(self.spec_data()) == Ok::<Seq<SectionInfo>, ParseErrorKind>(
            self.spec_sections(),
        )
    }

    /// The bytes the reader was built from.
    pub fn data(&self) -> (r: &Vec<u8>)
        ensures
            r@ == self.spec_data(),
    {
        &self.data
    }

    /// The scanned section descriptors, in order.
    pub fn sections(&self) -> (r: &Vec<SectionInfo>)
        ensures
            r@ == self.spec_sections(),
    {
        &self.sections
    }

    /// Validates the section order of the message and lists its
    /// submessages.
    pub fn list_submessages(&self) -> (r: Result<Vec<SubMessage>, ParseError>)
        ensures
            submessages_result_matches(r, spec_resolve(section_nums(self.spec_sections()))),
    {
        get_submessages(&self.sections)
    }
}

impl GribReader for Grib2FileReader {
    /// Scans `data` as one whole message and keeps both the bytes and the
    /// descriptors.
    fn new(data: Vec<u8>) -> (r: Result<Self, ParseError>)
        ensures
            spec_scan(data@) is Ok <==> r is Ok,
            r is Ok ==> r->Ok_0.wf() && r->Ok_0.spec_data() == data@,
            r is Err ==> parse_error_kind(r->Err_0) == spec_scan(data@)->Err_0,
    {
        let sects = match scan(&data) {
            Ok(s) => s,
            Err(e) => {
                return Err(e);
            },
        };
        Ok(Grib2FileReader { data, sections: sects })
    }
}

} // verus!
