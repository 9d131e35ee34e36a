use grib2::parser::{ParseError, SectionBody, SectionInfo};
use grib2::submessage::{get_submessages, SubMessage};

fn sect_list(nums: &[u8]) -> Vec<SectionInfo> {
    nums.iter()
        .map(|&num| SectionInfo {
            num,
            offset: 0,
            size: 0,
            body: None,
        })
        .collect()
}

fn sub(
    s2: Option<usize>,
    s3: usize,
    s4: usize,
    s5: usize,
    s6: usize,
    s7: usize,
) -> SubMessage {
    SubMessage {
        section2: s2,
        section3: Some(s3),
        section4: Some(s4),
        section5: Some(s5),
        section6: Some(s6),
        section7: Some(s7),
    }
}

#[test]
fn get_submessages_simple() {
    let sects = sect_list(&[1, 2, 3, 4, 5, 6, 7, 8]);
    assert_eq!(
        get_submessages(&sects),
        Ok(vec![sub(Some(1), 2, 3, 4, 5, 6)])
    );
}

#[test]
fn get_submessages_sect2_loop() {
    let sects = sect_list(&[1, 2, 3, 4, 5, 6, 7, 2, 3, 4, 5, 6, 7, 8]);
    assert_eq!(
        get_submessages(&sects),
        Ok(vec![
            sub(Some(1), 2, 3, 4, 5, 6),
            sub(Some(7), 8, 9, 10, 11, 12),
        ])
    );
}

#[test]
fn get_submessages_sect3_loop() {
    let sects = sect_list(&[1, 2, 3, 4, 5, 6, 7, 3, 4, 5, 6, 7, 8]);
    assert_eq!(
        get_submessages(&sects),
        Ok(vec![
            sub(Some(1), 2, 3, 4, 5, 6),
            sub(Some(1), 7, 8, 9, 10, 11),
        ])
    );
}

#[test]
fn get_submessages_sect3_loop_no_sect2() {
    let sects = sect_list(&[1, 3, 4, 5, 6, 7, 3, 4, 5, 6, 7, 8]);
    assert_eq!(
        get_submessages(&sects),
        Ok(vec![sub(None, 1, 2, 3, 4, 5), sub(None, 6, 7, 8, 9, 10)])
    );
}

#[test]
fn get_submessages_sect4_loop() {
    let sects = sect_list(&[1, 2, 3, 4, 5, 6, 7, 4, 5, 6, 7, 8]);
    assert_eq!(
        get_submessages(&sects),
        Ok(vec![
            sub(Some(1), 2, 3, 4, 5, 6),
            sub(Some(1), 2, 7, 8, 9, 10),
        ])
    );
}

#[test]
fn get_submessages_sect4_loop_no_sect2() {
    let sects = sect_list(&[1, 3, 4, 5, 6, 7, 4, 5, 6, 7, 8]);
    assert_eq!(
        get_submessages(&sects),
        Ok(vec![sub(None, 1, 2, 3, 4, 5), sub(None, 1, 6, 7, 8, 9)])
    );
}

#[test]
fn get_submessages_end_after_sect1() {
    let sects = sect_list(&[1]);
    assert_eq!(
        get_submessages(&sects),
        Err(ParseError::GRIB2IterationSuddenlyFinished)
    );
}

#[test]
fn get_submessages_end_in_sect2_loop_1() {
    let sects = sect_list(&[1, 2]);
    assert_eq!(
        get_submessages(&sects),
        Err(ParseError::GRIB2IterationSuddenlyFinished)
    );
}

#[test]
fn get_submessages_end_in_sect2_loop_2() {
    let sects = sect_list(&[1, 2, 3]);
    assert_eq!(
        get_submessages(&sects),
        Err(ParseError::GRIB2IterationSuddenlyFinished)
    );
}

#[test]
fn get_submessages_end_in_sect3_loop_1() {
    let sects = sect_list(&[1, 3]);
    assert_eq!(
        get_submessages(&sects),
        Err(ParseError::GRIB2IterationSuddenlyFinished)
    );
}

#[test]
fn get_submessages_end_in_sect3_loop_2() {
    let sects = sect_list(&[1, 3, 4]);
    assert_eq!(
        get_submessages(&sects),
        Err(ParseError::GRIB2IterationSuddenlyFinished)
    );
}

#[test]
fn get_submessages_end_in_sect4_loop_1() {
    let sects = sect_list(&[1, 2, 3, 4, 5, 6, 7, 4]);
    assert_eq!(
        get_submessages(&sects),
        Err(ParseError::GRIB2IterationSuddenlyFinished)
    );
}

#[test]
fn get_submessages_end_in_sect4_loop_2() {
    let sects = sect_list(&[1, 2, 3, 4, 5, 6, 7, 4, 5]);
    assert_eq!(
        get_submessages(&sects),
        Err(ParseError::GRIB2IterationSuddenlyFinished)
    );
}

#[test]
fn get_submessages_no_grid_in_sect4() {
    let sects = sect_list(&[1, 4, 5, 6, 7, 8]);
    assert_eq!(get_submessages(&sects), Err(ParseError::NoGridDefinition(1)));
}

#[test]
fn get_submessages_no_grid_in_sect8() {
    let sects = sect_list(&[1, 8]);
    assert_eq!(get_submessages(&sects), Err(ParseError::NoGridDefinition(1)));
}

#[test]
fn get_submessages_wrong_order_in_sect2() {
    let sects = sect_list(&[1, 2, 4, 3, 5, 6, 7, 8]);
    assert_eq!(
        get_submessages(&sects),
        Err(ParseError::GRIB2WrongIteration(2))
    );
}

#[test]
fn get_submessages_wrong_order_in_sect3() {
    let sects = sect_list(&[1, 3, 5, 4, 6, 7, 8]);
    assert_eq!(
        get_submessages(&sects),
        Err(ParseError::GRIB2WrongIteration(2))
    );
}

#[test]
fn get_submessages_wrong_order_in_sect4() {
    let sects = sect_list(&[1, 3, 4, 5, 6, 7, 4, 6, 5, 7, 8]);
    assert_eq!(
        get_submessages(&sects),
        Err(ParseError::GRIB2WrongIteration(7))
    );
}

#[test]
fn resolver_reads_section_numbers_only() {
    // Same section numbers, very different offsets, sizes and bodies: the
    // resolver's verdict and indices must not change.
    let nums: [u8; 13] = [1, 2, 3, 4, 5, 6, 7, 3, 4, 5, 6, 7, 8];
    let plain = sect_list(&nums);
    let dressed: Vec<SectionInfo> = nums
        .iter()
        .enumerate()
        .map(|(k, &num)| SectionInfo {
            num,
            offset: 1000 + 13 * k,
            size: 17 + k,
            body: Some(SectionBody::Section2),
        })
        .collect();
    assert_eq!(get_submessages(&plain), get_submessages(&dressed));
    assert_eq!(
        get_submessages(&dressed),
        Ok(vec![
            sub(Some(1), 2, 3, 4, 5, 6),
            sub(Some(1), 7, 8, 9, 10, 11),
        ])
    );
}
