//! The submessage resolver: validates the section-number grammar of a
//! scanned message and groups the sections into logical submessages.
//!
//! The grammar over section numbers is `1 group+ 8`, where a group is an
//! optional section 2 followed by a section 3 and one or more bodies of
//! sections 4 5 6 7.  A submessage that opens with a section 3 inherits the
//! most recent section 2; one that opens with a section 4 inherits both the
//! most recent section 2 and the most recent section 3.

use crate::parser::{
    lemma_scan_len, lemma_scan_offsets_increase, parse_error_kind, spec_scan, ParseError,
    ParseErrorKind, SectionInfo,
};
use vstd::prelude::*;

verus! {

/// One logical field of a message: indices into the scanned descriptor
/// sequence for the sections it uses.  Sections 3 to 7 are present in every
/// resolved submessage; section 2 may be absent.
#[derive(Debug, Clone, PartialEq, Eq, Hash)]
pub struct SubMessage {
    pub section2: Option<usize>,
    pub section3: Option<usize>,
    pub section4: Option<usize>,
    pub section5: Option<usize>,
    pub section6: Option<usize>,
    pub section7: Option<usize>,
}

/// The section numbers of a descriptor sequence, in order.
pub open spec fn section_nums(sects: Seq<SectionInfo>) -> Seq<u8> {
    sects.map_values(|s: SectionInfo| s.num)
}

/// Checking that the numbers at positions `i`, `i + 1`, ... are exactly
/// `expected`: the first missing position ends the iteration, the first
/// mismatch is reported with its index.
pub open spec fn spec_expect_run(nums: Seq<u8>, i: int, expected: Seq<u8>) -> Result<
    (),
    ParseErrorKind,
>
    decreases expected.len(),
{
    if expected.len() == 0 {
        Ok(())
    } else if i >= nums.len() {
        Err(ParseErrorKind::GRIB2IterationSuddenlyFinished)
    } else if nums[i] != expected[0] {
        Err(ParseErrorKind::GRIB2WrongIteration(i as usize))
    } else {
        spec_expect_run(nums, i + 1, expected.drop_first())
    }
}

/// What resolving the section numbers from position `i` onward yields,
/// with `s2` and `s3` the defaults carried from earlier submessages.
pub open spec fn spec_resolve_from(
    nums: Seq<u8>,
    i: int,
    s2: Option<usize>,
    s3: Option<usize>,
) -> Result<Seq<SubMessage>, ParseErrorKind>
    decreases nums.len() - i,
    via spec_resolve_from_decreases
{
    if i >= nums.len() {
        Err(ParseErrorKind::GRIB2IterationSuddenlyFinished)
    } else if nums[i] == 2 {
        match spec_expect_run(nums, i + 1, seq![3u8, 4u8, 5u8, 6u8, 7u8]) {
            Err(k) => Err(k),
            Ok(u) => {
                let sub = SubMessage {
                    section2: Some(i as usize),
                    section3: Some((i + 1) as usize),
                    section4: Some((i + 2) as usize),
                    section5: Some((i + 3) as usize),
                    section6: Some((i + 4) as usize),
                    section7: Some((i + 5) as usize),
                };
                match spec_resolve_from(nums, i + 6, sub.section2, sub.section3) {
                    Err(k) => Err(k),
                    Ok(rest) => Ok(seq![sub] + rest),
                }
            },
        }
    } else if nums[i] == 3 {
        match spec_expect_run(nums, i + 1, seq![4u8, 5u8, 6u8, 7u8]) {
            Err(k) => Err(k),
            Ok(u) => {
                let sub = SubMessage {
                    section2: s2,
                    section3: Some(i as usize),
                    section4: Some((i + 1) as usize),
                    section5: Some((i + 2) as usize),
                    section6: Some((i + 3) as usize),
                    section7: Some((i + 4) as usize),
                };
                match spec_resolve_from(nums, i + 5, sub.section2, sub.section3) {
                    Err(k) => Err(k),
                    Ok(rest) => Ok(seq![sub] + rest),
                }
            },
        }
    } else if nums[i] == 4 {
        if s3 is None {
            Err(ParseErrorKind::NoGridDefinition(i as usize))
        } else {
            match spec_expect_run(nums, i + 1, seq![5u8, 6u8, 7u8]) {
                Err(k) => Err(k),
                Ok(u) => {
                    let sub = SubMessage {
                        section2: s2,
                        section3: s3,
                        section4: Some(i as usize),
                        section5: Some((i + 1) as usize),
                        section6: Some((i + 2) as usize),
                        section7: Some((i + 3) as usize),
                    };
                    match spec_resolve_from(nums, i + 4, sub.section2, sub.section3) {
                        Err(k) => Err(k),
                        Ok(rest) => Ok(seq![sub] + rest),
                    }
                },
            }
        }
    } else if nums[i] == 8 {
        if s3 is None {
            Err(ParseErrorKind::NoGridDefinition(i as usize))
        } else if i < nums.len() - 1 {
            Err(ParseErrorKind::GRIB2WrongIteration(i as usize))
        } else {
            Ok(Seq::empty())
        }
    } else {
        Err(ParseErrorKind::GRIB2WrongIteration(i as usize))
    }
}

/// A run of expected numbers found in full means the positions it covered
/// all lie within the sequence.
proof fn lemma_expect_run_ok_bound(nums: Seq<u8>, i: int, expected: Seq<u8>)
    requires
        spec_expect_run(nums, i, expected) is Ok,
    ensures
        expected.len() > 0 ==> i + expected.len() <= nums.len(),
    decreases expected.len(),
{
    if expected.len() > 0 {
        lemma_expect_run_ok_bound(nums, i + 1, expected.drop_first());
    }
}

#[via_fn]
proof fn spec_resolve_from_decreases(nums: Seq<u8>, i: int, s2: Option<usize>, s3: Option<usize>) {
    if i < nums.len() {
        if nums[i] == 2 && spec_expect_run(nums, i + 1, seq![3u8, 4u8, 5u8, 6u8, 7u8]) is Ok {
            lemma_expect_run_ok_bound(nums, i + 1, seq![3u8, 4u8, 5u8, 6u8, 7u8]);
        }
        if nums[i] == 3 && spec_expect_run(nums, i + 1, seq![4u8, 5u8, 6u8, 7u8]) is Ok {
            lemma_expect_run_ok_bound(nums, i + 1, seq![4u8, 5u8, 6u8, 7u8]);
        }
        if nums[i] == 4 && spec_expect_run(nums, i + 1, seq![5u8, 6u8, 7u8]) is Ok {
            lemma_expect_run_ok_bound(nums, i + 1, seq![5u8, 6u8, 7u8]);
        }
    }
}

/// What resolving a descriptor sequence yields: a section 1 must come
/// first, then the groups of submessages, then the end section last.
pub open spec fn spec_resolve(nums: Seq<u8>) -> Result<Seq<SubMessage>, ParseErrorKind> {
    if nums.len() == 0 {
        Err(ParseErrorKind::GRIB2IterationSuddenlyFinished)
    } else if nums[0] != 1 {
        Err(ParseErrorKind::GRIB2WrongIteration(0))
    } else {
        spec_resolve_from(nums, 1, None, None)
    }
}

/// A resolver result agrees with a specified one: equal submessage
/// sequences on success, equal error kinds on failure.
pub open spec fn submessages_result_matches(
    r: Result<Vec<SubMessage>, ParseError>,
    s: Result<Seq<SubMessage>, ParseErrorKind>,
) -> bool {
    match (r, s) {
        (Ok(v), Ok(sv)) => v@ == sv,
        (Err(e), Err(k)) => parse_error_kind(e) == k,
        _ => false,
    }
}

/// Prefixing resolved submessages with already-resolved ones.
pub open spec fn prepend_submessages(
    acc: Seq<SubMessage>,
    r: Result<Seq<SubMessage>, ParseErrorKind>,
) -> Result<Seq<SubMessage>, ParseErrorKind> {
    match r {
        Ok(rest) => Ok(acc + rest),
        Err(k) => Err(k),
    }
}

/// Requires the descriptor at `i` to exist and to carry section number
/// `num`; reports a missing one as a sudden end of the iteration and a
/// mismatched one with its index.
fn expect_at(sects: &Vec<SectionInfo>, i: usize, num: u8) -> (r: Result<(), ParseError>)
    ensures
        r is Ok <==> (i < sects@.len() && sects@[i as int].num == num),
        i >= sects@.len() ==> r is Err && parse_error_kind(r->Err_0)
            == ParseErrorKind::GRIB2IterationSuddenlyFinished,
        i < sects@.len() && sects@[i as int].num != num ==> r is Err && parse_error_kind(r->Err_0)
            == ParseErrorKind::GRIB2WrongIteration(i),
{
    if i >= sects.len() {
        Err(ParseError::GRIB2IterationSuddenlyFinished)
    } else if sects[i].num != num {
        Err(ParseError::GRIB2WrongIteration(i))
    } else {
        Ok(())
    }
}

/// Validates the section order of a scanned message and groups the
/// descriptors into submessages, carrying the most recent sections 2 and 3
/// forward into submessages that do not repeat them.
pub fn get_submessages(sects: &Vec<SectionInfo>) -> (r: Result<Vec<SubMessage>, ParseError>)
    ensures
        submessages_result_matches(r, spec_resolve(section_nums(sects@))),
{
    let ghost nums = section_nums(sects@);
    if sects.len() == 0 {
        return Err(ParseError::GRIB2IterationSuddenlyFinished);
    }
    proof {
        assert(nums[0] == sects@[0].num);
    }
    if sects[0].num != 1 {
        return Err(ParseError::GRIB2WrongIteration(0));
    }
    let mut subs: Vec<SubMessage> = Vec::new();
    let mut i: usize = 1;
    let mut sect2_default: Option<usize> = None;
    let mut sect3_default: Option<usize> = None;
    loop
        invariant
            1 <= i <= sects@.len(),
            nums == section_nums(sects@),
            spec_resolve(nums) == prepend_submessages(
                subs@,
                spec_resolve_from(nums, i as int, sect2_default, sect3_default),
            ),
        decreases sects@.len() - i,
    {
        let ghost spec_rest = spec_resolve_from(nums, i as int, sect2_default, sect3_default);
        if i >= sects.len() {
            return Err(ParseError::GRIB2IterationSuddenlyFinished);
        }
        let num = sects[i].num;
        proof {
            assert(nums[i as int] == num);
            assert(forall|k: int|
                0 <= k < sects@.len() ==> #[trigger] nums[k] == sects@[k].num);
            reveal_with_fuel(spec_expect_run, 6);
        }
        if num == 2 {
            match expect_at(sects, i + 1, 3) {
                Err(e) => {
                    return Err(e);
                },
                Ok(u) => {},
            }
            match expect_at(sects, i + 2, 4) {
                Err(e) => {
                    return Err(e);
                },
                Ok(u) => {},
            }
            match expect_at(sects, i + 3, 5) {
                Err(e) => {
                    return Err(e);
                },
                Ok(u) => {},
            }
            match expect_at(sects, i + 4, 6) {
                Err(e) => {
                    return Err(e);
                },
                Ok(u) => {},
            }
            match expect_at(sects, i + 5, 7) {
                Err(e) => {
                    return Err(e);
                },
                Ok(u) => {},
            }
            let sub = SubMessage {
                section2: Some(i),
                section3: Some(i + 1),
                section4: Some(i + 2),
                section5: Some(i + 3),
                section6: Some(i + 4),
                section7: Some(i + 5),
            };
            sect2_default = sub.section2;
            sect3_default = sub.section3;
            let ghost old_subs = subs@;
            subs.push(sub);
            i = i + 6;
            proof {
                let rest = spec_resolve_from(nums, i as int, sect2_default, sect3_default);
                if rest is Ok {
                    assert(old_subs + (seq![sub] + rest->Ok_0) =~= subs@ + rest->Ok_0);
                }
            }
        } else if num == 3 {
            match expect_at(sects, i + 1, 4) {
                Err(e) => {
                    return Err(e);
                },
                Ok(u) => {},
            }
            match expect_at(sects, i + 2, 5) {
                Err(e) => {
                    return Err(e);
                },
                Ok(u) => {},
            }
            match expect_at(sects, i + 3, 6) {
                Err(e) => {
                    return Err(e);
                },
                Ok(u) => {},
            }
            match expect_at(sects, i + 4, 7) {
                Err(e) => {
                    return Err(e);
                },
                Ok(u) => {},
            }
            let sub = SubMessage {
                section2: sect2_default,
                section3: Some(i),
                section4: Some(i + 1),
                section5: Some(i + 2),
                section6: Some(i + 3),
                section7: Some(i + 4),
            };
            sect2_default = sub.section2;
            sect3_default = sub.section3;
            let ghost old_subs = subs@;
            subs.push(sub);
            i = i + 5;
            proof {
                let rest = spec_resolve_from(nums, i as int, sect2_default, sect3_default);
                if rest is Ok {
                    assert(old_subs + (seq![sub] + rest->Ok_0) =~= subs@ + rest->Ok_0);
                }
            }
        } else if num == 4 {
            if sect3_default.is_none() {
                return Err(ParseError::NoGridDefinition(i));
            }
            match expect_at(sects, i + 1, 5) {
                Err(e) => {
                    return Err(e);
                },
                Ok(u) => {},
            }
            match expect_at(sects, i + 2, 6) {
                Err(e) => {
                    return Err(e);
                },
                Ok(u) => {},
            }
            match expect_at(sects, i + 3, 7) {
                Err(e) => {
                    return Err(e);
                },
                Ok(u) => {},
            }
            let sub = SubMessage {
                section2: sect2_default,
                section3: sect3_default,
                section4: Some(i),
                section5: Some(i + 1),
                section6: Some(i + 2),
                section7: Some(i + 3),
            };
            sect2_default = sub.section2;
            sect3_default = sub.section3;
            let ghost old_subs = subs@;
            subs.push(sub);
            i = i + 4;
            proof {
                let rest = spec_resolve_from(nums, i as int, sect2_default, sect3_default);
                if rest is Ok {
                    assert(old_subs + (seq![sub] + rest->Ok_0) =~= subs@ + rest->Ok_0);
                }
            }
        } else if num == 8 {
            if sect3_default.is_none() {
                return Err(ParseError::NoGridDefinition(i));
            }
            if i < sects.len() - 1 {
                return Err(ParseError::GRIB2WrongIteration(i));
            }
            proof {
                assert(spec_rest == Ok::<Seq<SubMessage>, ParseErrorKind>(Seq::empty()));
                assert(subs@ + Seq::<SubMessage>::empty() =~= subs@);
            }
            return Ok(subs);
        } else {
            return Err(ParseError::GRIB2WrongIteration(i));
        }
    }
}

/// A submessage is well-shaped over the section numbers: sections 3 to 7
/// are present, their indices strictly increase and lie in range, each
/// points at a descriptor with that number, and section 2, when present,
/// precedes them and points at a section 2 descriptor.
pub open spec fn submessage_shape(nums: Seq<u8>, sub: SubMessage) -> bool {
    &&& sub.section3 is Some
    &&& sub.section4 is Some
    &&& sub.section5 is Some
    &&& sub.section6 is Some
    &&& sub.section7 is Some
    &&& (sub.section7->0 as int) < nums.len()
    &&& sub.section3->0 < sub.section4->0 < sub.section5->0 < sub.section6->0 < sub.section7->0
    &&& nums[sub.section3->0 as int] == 3
    &&& nums[sub.section4->0 as int] == 4
    &&& nums[sub.section5->0 as int] == 5
    &&& nums[sub.section6->0 as int] == 6
    &&& nums[sub.section7->0 as int] == 7
    &&& match sub.section2 {
        Some(a) => a < sub.section3->0 && nums[a as int] == 2,
        None => true,
    }
}

/// The carried defaults point backwards at descriptors of their own kind,
/// the section 2 default before the section 3 default.
spec fn defaults_wf(nums: Seq<u8>, i: int, s2: Option<usize>, s3: Option<usize>) -> bool {
    &&& (s2 is Some ==> (s2->0 as int) < i && nums[s2->0 as int] == 2)
    &&& (s3 is Some ==> (s3->0 as int) < i && nums[s3->0 as int] == 3)
    &&& (s2 is Some ==> s3 is Some && s2->0 < s3->0)
}

proof fn lemma_resolve_from_shape(nums: Seq<u8>, i: int, s2: Option<usize>, s3: Option<usize>)
    requires
        0 <= i,
        nums.len() <= usize::MAX,
        spec_resolve_from(nums, i, s2, s3) is Ok,
        defaults_wf(nums, i, s2, s3),
    ensures
        forall|k: int|
            0 <= k < spec_resolve_from(nums, i, s2, s3)->Ok_0.len()
                ==> submessage_shape(nums, #[trigger] spec_resolve_from(nums, i, s2, s3)->Ok_0[k]),
    decreases nums.len() - i,
{
    reveal_with_fuel(spec_expect_run, 6);
    let subs = spec_resolve_from(nums, i, s2, s3)->Ok_0;
    if nums[i] == 2 {
        let sub = SubMessage {
            section2: Some(i as usize),
            section3: Some((i + 1) as usize),
            section4: Some((i + 2) as usize),
            section5: Some((i + 3) as usize),
            section6: Some((i + 4) as usize),
            section7: Some((i + 5) as usize),
        };
        lemma_resolve_from_shape(nums, i + 6, sub.section2, sub.section3);
        let rest = spec_resolve_from(nums, i + 6, sub.section2, sub.section3)->Ok_0;
        assert(submessage_shape(nums, sub));
        assert forall|k: int| 0 <= k < subs.len() implies submessage_shape(
            nums,
            #[trigger] subs[k],
        ) by {
            if k > 0 {
                assert(subs[k] == rest[k - 1]);
                assert(submessage_shape(nums, spec_resolve_from(nums, i + 6, sub.section2, sub.section3)->Ok_0[k - 1]));
            }
        }
    } else if nums[i] == 3 {
        let sub = SubMessage {
            section2: s2,
            section3: Some(i as usize),
            section4: Some((i + 1) as usize),
            section5: Some((i + 2) as usize),
            section6: Some((i + 3) as usize),
            section7: Some((i + 4) as usize),
        };
        lemma_resolve_from_shape(nums, i + 5, sub.section2, sub.section3);
        let rest = spec_resolve_from(nums, i + 5, sub.section2, sub.section3)->Ok_0;
        assert(submessage_shape(nums, sub));
        assert forall|k: int| 0 <= k < subs.len() implies submessage_shape(
            nums,
            #[trigger] subs[k],
        ) by {
            if k > 0 {
                assert(subs[k] == rest[k - 1]);
                assert(submessage_shape(nums, spec_resolve_from(nums, i + 5, sub.section2, sub.section3)->Ok_0[k - 1]));
            }
        }
    } else if nums[i] == 4 {
        let sub = SubMessage {
            section2: s2,
            section3: s3,
            section4: Some(i as usize),
            section5: Some((i + 1) as usize),
            section6: Some((i + 2) as usize),
            section7: Some((i + 3) as usize),
        };
        lemma_resolve_from_shape(nums, i + 4, sub.section2, sub.section3);
        let rest = spec_resolve_from(nums, i + 4, sub.section2, sub.section3)->Ok_0;
        assert(submessage_shape(nums, sub));
        assert forall|k: int| 0 <= k < subs.len() implies submessage_shape(
            nums,
            #[trigger] subs[k],
        ) by {
            if k > 0 {
                assert(subs[k] == rest[k - 1]);
                assert(submessage_shape(nums, spec_resolve_from(nums, i + 4, sub.section2, sub.section3)->Ok_0[k - 1]));
            }
        }
    } else {
        assert(nums[i] == 8);
    }
}

/// Law: every submessage the resolver yields consists of exactly the
/// sections (2?, 3, 4, 5, 6, 7): sections 3 to 7 are always present,
/// section 2 may be absent, and the indices point, in increasing order, at
/// descriptors carrying exactly those numbers.
pub proof fn lemma_submessages_shape(sects: Seq<SectionInfo>)
    requires
        sects.len() <= usize::MAX,
        spec_resolve(section_nums(sects)) is Ok,
    ensures
        forall|k: int|
            0 <= k < spec_resolve(section_nums(sects))->Ok_0.len() ==> submessage_shape(
                section_nums(sects),
                #[trigger] spec_resolve(section_nums(sects))->Ok_0[k],
            ),
{
    lemma_resolve_from_shape(section_nums(sects), 1, None, None);
}

/// The byte offsets of the sections of `sub` strictly increase in the
/// order (2?, 3, 4, 5, 6, 7).
pub open spec fn submessage_offsets_increase(sects: Seq<SectionInfo>, sub: SubMessage) -> bool {
    &&& (sub.section2 is Some && sub.section3 is Some ==> sects[sub.section2->0 as int].offset
        < sects[sub.section3->0 as int].offset)
    &&& (sub.section3 is Some && sub.section4 is Some ==> sects[sub.section3->0 as int].offset
        < sects[sub.section4->0 as int].offset)
    &&& (sub.section4 is Some && sub.section5 is Some ==> sects[sub.section4->0 as int].offset
        < sects[sub.section5->0 as int].offset)
    &&& (sub.section5 is Some && sub.section6 is Some ==> sects[sub.section5->0 as int].offset
        < sects[sub.section6->0 as int].offset)
    &&& (sub.section6 is Some && sub.section7 is Some ==> sects[sub.section6->0 as int].offset
        < sects[sub.section7->0 as int].offset)
}

/// Law: for a scanned message whose sections resolve, every submessage has
/// exactly the sections (2?, 3, 4, 5, 6, 7) and their byte offsets strictly
/// increase in that order.
pub proof fn lemma_submessage_sections_and_offsets(data: Seq<u8>)
    requires
        spec_scan(data) is Ok,
        spec_resolve(section_nums(spec_scan(data)->Ok_0)) is Ok,
    ensures
        forall|k: int|
            0 <= k < spec_resolve(section_nums(spec_scan(data)->Ok_0))->Ok_0.len()
                ==> submessage_shape(
                section_nums(spec_scan(data)->Ok_0),
                #[trigger] spec_resolve(section_nums(spec_scan(data)->Ok_0))->Ok_0[k],
            ) && submessage_offsets_increase(
                spec_scan(data)->Ok_0,
                spec_resolve(section_nums(spec_scan(data)->Ok_0))->Ok_0[k],
            ),
{
    let sects = spec_scan(data)->Ok_0;
    let nums = section_nums(sects);
    let subs = spec_resolve(nums)->Ok_0;
    lemma_scan_len(data);
    lemma_submessages_shape(sects);
    lemma_scan_offsets_increase(data);
    assert forall|k: int| 0 <= k < subs.len() implies submessage_shape(
        nums,
        #[trigger] subs[k],
    ) && submessage_offsets_increase(sects, subs[k]) by {
        let sub = subs[k];
        assert(submessage_shape(nums, sub));
        assert(nums.len() == sects.len());
        if sub.section2 is Some {
            assert(sects[sub.section2->0 as int].offset < sects[sub.section3->0 as int].offset);
        }
        assert(sects[sub.section3->0 as int].offset < sects[sub.section4->0 as int].offset);
        assert(sects[sub.section4->0 as int].offset < sects[sub.section5->0 as int].offset);
        assert(sects[sub.section5->0 as int].offset < sects[sub.section6->0 as int].offset);
        assert(sects[sub.section6->0 as int].offset < sects[sub.section7->0 as int].offset);
    }
}

/// Law: the resolver is a function of the section numbers alone; two
/// descriptor sequences with equal numbers resolve alike, whatever their
/// bodies, offsets and sizes.
pub proof fn lemma_resolver_reads_numbers_only(a: Seq<SectionInfo>, b: Seq<SectionInfo>)
    requires
        section_nums(a) == section_nums(b),
    ensures
        spec_resolve(section_nums(a)) == spec_resolve(section_nums(b)),
{
}

} // verus!
