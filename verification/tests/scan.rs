use grib2::parser::{
    scan, unpack_sect0, unpack_sect_header, Identification, ParseError, RefTime, SectionBody,
    SectionInfo,
};
use grib2::reader::{Grib2FileReader, GribReader};

fn push_u16(out: &mut Vec<u8>, v: u16) {
    out.extend_from_slice(&v.to_be_bytes());
}

fn push_u32(out: &mut Vec<u8>, v: u32) {
    out.extend_from_slice(&v.to_be_bytes());
}

fn push_u64(out: &mut Vec<u8>, v: u64) {
    out.extend_from_slice(&v.to_be_bytes());
}

/// The envelope: magic, reserved, discipline, edition 2, total length.
fn push_envelope(out: &mut Vec<u8>, total: u64) {
    out.extend_from_slice(b"GRIB");
    out.extend_from_slice(&[0, 0]);
    out.push(0);
    out.push(2);
    push_u64(out, total);
}

fn push_header(out: &mut Vec<u8>, size: u32, num: u8) {
    push_u32(out, size);
    out.push(num);
}

fn push_sect1(out: &mut Vec<u8>, size: u32) {
    push_header(out, size, 1);
    push_u16(out, 34); // centre
    push_u16(out, 0); // sub-centre
    out.push(5); // master table version
    out.push(1); // local table version
    out.push(0); // reference time significance
    push_u16(out, 2016);
    out.extend_from_slice(&[8, 22, 2, 0, 0]); // month day hour minute second
    out.push(0); // production status
    out.push(2); // data type
    out.resize(out.len() + (size as usize - 5 - 16), 0);
}

fn push_sect3(out: &mut Vec<u8>, size: u32, num_points: u32, grid_tmpl: u16) {
    push_header(out, size, 3);
    out.push(0);
    push_u32(out, num_points);
    out.extend_from_slice(&[0, 0]);
    push_u16(out, grid_tmpl);
    out.resize(out.len() + (size as usize - 5 - 9), 0);
}

fn push_sect4(out: &mut Vec<u8>, size: u32, num_coordinates: u16, prod_tmpl: u16) {
    push_header(out, size, 4);
    push_u16(out, num_coordinates);
    push_u16(out, prod_tmpl);
    out.resize(out.len() + (size as usize - 5 - 4), 0);
}

fn push_sect5(out: &mut Vec<u8>, size: u32, num_points: u32, repr_tmpl: u16) {
    push_header(out, size, 5);
    push_u32(out, num_points);
    push_u16(out, repr_tmpl);
    out.resize(out.len() + (size as usize - 5 - 6), 0);
}

fn push_sect6(out: &mut Vec<u8>, size: u32, bitmap_indicator: u8) {
    push_header(out, size, 6);
    out.push(bitmap_indicator);
    out.resize(out.len() + (size as usize - 5 - 1), 0);
}

fn push_sect7(out: &mut Vec<u8>, size: u32) {
    push_header(out, size, 7);
    out.resize(out.len() + (size as usize - 5), 0);
}

/// A message laid out like the sample file: one identification, one grid
/// definition of 86016 points, and seven (4,5,6,7) bodies.
fn sample_message() -> Vec<u8> {
    let data_sizes: [u32; 7] = [1391, 1399, 1404, 1395, 1395, 1397, 1386];
    let mut out = Vec::new();
    push_envelope(&mut out, 10321);
    push_sect1(&mut out, 21);
    push_sect3(&mut out, 72, 86016, 0);
    for size in data_sizes {
        push_sect4(&mut out, 34, 0, 0);
        push_sect5(&mut out, 23, 86016, 200);
        push_sect6(&mut out, 6, 255);
        push_sect7(&mut out, size);
    }
    out.extend_from_slice(b"7777");
    assert_eq!(out.len(), 10321);
    out
}

fn sect(num: u8, offset: usize, size: usize, body: Option<SectionBody>) -> SectionInfo {
    SectionInfo {
        num,
        offset,
        size,
        body,
    }
}

#[test]
fn scan_sample_message() {
    let data = sample_message();
    let sects = scan(&data).unwrap();

    let ident = Identification {
        centre_id: 34,
        subcentre_id: 0,
        master_table_version: 5,
        local_table_version: 1,
        ref_time_significance: 0,
        ref_time: RefTime {
            year: 2016,
            month: 8,
            date: 22,
            hour: 2,
            minute: 0,
            second: 0,
        },
        prod_status: 0,
        data_type: 2,
    };
    let s4 = SectionBody::Section4 {
        num_coordinates: 0,
        prod_tmpl_num: 0,
    };
    let s5 = SectionBody::Section5 {
        num_points: 86016,
        repr_tmpl_num: 200,
    };
    let s6 = SectionBody::Section6 {
        bitmap_indicator: 255,
    };

    let expected = vec![
        sect(1, 16, 21, Some(SectionBody::Section1(ident))),
        sect(
            3,
            37,
            72,
            Some(SectionBody::Section3 {
                num_points: 86016,
                grid_tmpl_num: 0,
            }),
        ),
        sect(4, 109, 34, Some(s4.clone())),
        sect(5, 143, 23, Some(s5.clone())),
        sect(6, 166, 6, Some(s6.clone())),
        sect(7, 172, 1391, Some(SectionBody::Section7)),
        sect(4, 1563, 34, Some(s4.clone())),
        sect(5, 1597, 23, Some(s5.clone())),
        sect(6, 1620, 6, Some(s6.clone())),
        sect(7, 1626, 1399, Some(SectionBody::Section7)),
        sect(4, 3025, 34, Some(s4.clone())),
        sect(5, 3059, 23, Some(s5.clone())),
        sect(6, 3082, 6, Some(s6.clone())),
        sect(7, 3088, 1404, Some(SectionBody::Section7)),
        sect(4, 4492, 34, Some(s4.clone())),
        sect(5, 4526, 23, Some(s5.clone())),
        sect(6, 4549, 6, Some(s6.clone())),
        sect(7, 4555, 1395, Some(SectionBody::Section7)),
        sect(4, 5950, 34, Some(s4.clone())),
        sect(5, 5984, 23, Some(s5.clone())),
        sect(6, 6007, 6, Some(s6.clone())),
        sect(7, 6013, 1395, Some(SectionBody::Section7)),
        sect(4, 7408, 34, Some(s4.clone())),
        sect(5, 7442, 23, Some(s5.clone())),
        sect(6, 7465, 6, Some(s6.clone())),
        sect(7, 7471, 1397, Some(SectionBody::Section7)),
        sect(4, 8868, 34, Some(s4.clone())),
        sect(5, 8902, 23, Some(s5.clone())),
        sect(6, 8925, 6, Some(s6.clone())),
        sect(7, 8931, 1386, Some(SectionBody::Section7)),
        sect(8, 10317, 4, None),
    ];
    assert_eq!(sects, expected);

    // The section sizes sum to the declared message length.
    let total: usize = 16 + sects.iter().map(|s| s.size).sum::<usize>();
    assert_eq!(total, 10321);

    // Offsets strictly increase.
    for w in sects.windows(2) {
        assert!(w[0].offset < w[1].offset);
    }
}

#[test]
fn sample_message_submessages() {
    let data = sample_message();
    let reader = Grib2FileReader::new(data).unwrap();
    let subs = reader.list_submessages().unwrap();
    assert_eq!(subs.len(), 7);
    // Every body inherits the single grid definition at index 1; none has a
    // local use section.
    for (k, sub) in subs.iter().enumerate() {
        assert_eq!(sub.section2, None);
        assert_eq!(sub.section3, Some(1));
        assert_eq!(sub.section4, Some(2 + 4 * k));
        assert_eq!(sub.section5, Some(3 + 4 * k));
        assert_eq!(sub.section6, Some(4 + 4 * k));
        assert_eq!(sub.section7, Some(5 + 4 * k));
    }
}

#[test]
fn envelope_wrong_magic() {
    let mut data = sample_message();
    data[0..4].copy_from_slice(b"GRIP");
    assert_eq!(scan(&data), Err(ParseError::NotGRIB));
    assert_eq!(unpack_sect0(&data), Err(ParseError::NotGRIB));
}

#[test]
fn envelope_wrong_version() {
    let mut data = sample_message();
    data[7] = 1;
    assert_eq!(scan(&data), Err(ParseError::GRIBVersionMismatch(1)));
}

#[test]
fn envelope_missing_end_sentinel() {
    let mut data = sample_message();
    let n = data.len();
    data[n - 4..n].copy_from_slice(b"7776");
    assert_eq!(scan(&data), Err(ParseError::EndSectionMismatch));
}

#[test]
fn unknown_section_number_is_rejected() {
    let mut data = vec![0u8; 30];
    data[0..4].copy_from_slice(&10u32.to_be_bytes());
    data[4] = 9;
    let header = unpack_sect_header(&data, 0).unwrap();
    assert_eq!(
        header,
        SectionInfo {
            num: 9,
            offset: 0,
            size: 10,
            body: None,
        }
    );
    assert_eq!(
        header.read_body(&data),
        Err(ParseError::UnknownSectionNumber(9))
    );

    // The same header inside a message stops the scan.
    let mut data = sample_message();
    data[20] = 9; // the number octet of the first section
    assert_eq!(scan(&data), Err(ParseError::UnknownSectionNumber(9)));
}

#[test]
fn truncated_input_is_a_read_error() {
    let data = b"GRI".to_vec();
    assert!(matches!(scan(&data), Err(ParseError::ReadError(_))));
    let mut data = sample_message();
    data.truncate(100);
    assert!(matches!(scan(&data), Err(ParseError::ReadError(_))));
}
