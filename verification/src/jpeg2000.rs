//! The JPEG 2000 codestream representation: the validation and
//! dequantization decisions around an external image codec.
//!
//! The packed payload of section 7 is a raw J2K codestream.  Handing it to
//! the codec, which is unverified foreign code, happens outside this
//! library; the functions here make every decision around that call: which
//! submessages are decodable at all, how many samples a decoded image must
//! yield, and whether the sample count matches what section 5 declares.

use crate::errors::{DecodeError, GribError};
use crate::parser::{parse_error_kind, ParseErrorKind, SectionBody, SectionInfo};
use crate::simple_packing::{
    read_simple_packing_param, spec_simple_packing_param, SimplePackingDecodeError,
    SimplePackingParam,
};
use vstd::arithmetic::div_mod::{
    lemma_div_is_ordered_by_denominator, lemma_fundamental_div_mod, lemma_fundamental_div_mod_converse,
};
use vstd::arithmetic::power2::{lemma2_to64, lemma_pow2_pos, lemma_pow2_strictly_increases, pow2};
use vstd::bits::{lemma_u32_pow2_no_overflow, lemma_u32_shl_is_mul, lemma_u32_shr_is_div};
use vstd::prelude::*;

verus! {

/// An error from handing the section 7 payload to the JPEG 2000 codec.
#[derive(Debug, Clone, PartialEq, Eq, Hash)]
pub enum Jpeg2000CodeStreamDecodeError {
    /// The decoded image does not hold exactly one (grayscale) component.
    NotSupported,
    /// The codec could not be set up.
    DecoderSetupError,
    /// The codec could not read the codestream's main header.
    MainHeaderReadError,
    /// The codec could not decode the codestream body.
    BodyReadError,
    /// The decoded sample count differs from what was expected.
    LengthMismatch,
}

/// A grib error is the given kind of parse error.
pub open spec fn grib_error_is_parse(e: GribError, k: ParseErrorKind) -> bool {
    match e {
        GribError::ParseError(pe) => parse_error_kind(pe) == k,
        _ => false,
    }
}

/// Validates a submessage for JPEG 2000 decoding and reads its
/// dequantization parameters: sections 5 and 6 must carry their decoded
/// bodies, the bitmap indicator must be 255 (no bitmap), and the original
/// field value type must be 0 (floating point).  Returns the parameters
/// and the number of points section 5 declares.
pub fn prepare_jpeg2000_decode(data: &Vec<u8>, sect5: &SectionInfo, sect6: &SectionInfo) -> (r:
    Result<(SimplePackingParam, u32), GribError>)
    ensures
        match (sect5.body, sect6.body) {
            (
                Some(SectionBody::Section5 { num_points, .. }),
                Some(SectionBody::Section6 { bitmap_indicator }),
            ) => {
                if bitmap_indicator != 255 {
                    r == Err::<(SimplePackingParam, u32), GribError>(
                        GribError::DecodeError(DecodeError::BitMapIndicatorUnsupported),
                    )
                } else {
                    match spec_simple_packing_param(
                        data@,
                        sect5.offset as int,
                        sect5.size as int,
                    ) {
                        Err(k) => r is Err && grib_error_is_parse(r->Err_0, k),
                        Ok(param) => {
                            if param.value_type != 0 {
                                r == Err::<(SimplePackingParam, u32), GribError>(
                                    GribError::DecodeError(
                                        DecodeError::SimplePackingDecodeError(
                                            SimplePackingDecodeError::OriginalFieldValueTypeNotSupported,
                                        ),
                                    ),
                                )
                            } else {
                                r == Ok::<(SimplePackingParam, u32), GribError>(
                                    (param, num_points),
                                )
                            }
                        },
                    }
                }
            },
            _ => r == Err::<(SimplePackingParam, u32), GribError>(GribError::InternalDataError),
        },
{
    let num_points: u32;
    let bitmap_indicator: u8;
    match (&sect5.body, &sect6.body) {
        (
            Some(SectionBody::Section5 { num_points: np, .. }),
            Some(SectionBody::Section6 { bitmap_indicator: bi }),
        ) => {
            num_points = *np;
            bitmap_indicator = *bi;
        },
        _ => {
            return Err(GribError::InternalDataError);
        },
    }
    if bitmap_indicator != 255 {
        return Err(GribError::DecodeError(DecodeError::BitMapIndicatorUnsupported));
    }
    let param = match read_simple_packing_param(data, sect5.offset, sect5.size) {
        Ok(p) => p,
        Err(e) => {
            return Err(GribError::ParseError(e));
        },
    };
    if param.value_type != 0 {
        return Err(
            GribError::DecodeError(
                DecodeError::SimplePackingDecodeError(
                    SimplePackingDecodeError::OriginalFieldValueTypeNotSupported,
                ),
            ),
        );
    }
    Ok((param, num_points))
}

/// ceil(v / 2^factor): the effective length of an image dimension at
/// discard level `factor`.
pub open spec fn spec_discard_scaled(v: u32, factor: u32) -> int {
    (v as int + pow2(factor as nat) as int - 1) / pow2(factor as nat) as int
}

/// Scales an image dimension down by the discard level: each level halves
/// it, rounding up.
pub fn value_for_discard_level(v: u32, factor: u32) -> (r: u32)
    ensures
        r as int == spec_discard_scaled(v, factor),
{
    proof {
        lemma_pow2_pos(factor as nat);
    }
    let ghost p = pow2(factor as nat) as int;
    if factor >= 32 {
        proof {
            lemma2_to64();
            if factor > 32 {
                lemma_pow2_strictly_increases(32, factor as nat);
            }
            assert((v as int) < p);
            if v == 0 {
                lemma_fundamental_div_mod_converse(p - 1, p, 0, p - 1);
            } else {
                lemma_fundamental_div_mod_converse(v as int + p - 1, p, 1, v as int - 1);
            }
        }
        if v == 0 {
            0
        } else {
            1
        }
    } else {
        proof {
            lemma_u32_pow2_no_overflow(factor as nat);
            lemma_u32_shl_is_mul(1u32, factor);
            lemma_u32_shr_is_div(v, factor);
        }
        let m = 1u32 << factor;
        let q = v >> factor;
        proof {
            assert(m == p);
            assert(q == v as int / p);
            lemma_fundamental_div_mod(v as int, p);
        }
        if v % m != 0 {
            proof {
                // p == 1 would make the remainder zero, so p is at least 2
                // and the quotient leaves room for the rounding increment.
                assert(p >= 2);
                lemma_div_is_ordered_by_denominator(v as int, 2, p);
                assert(v as int / 2 <= u32::MAX as int / 2);
                assert((q as int + 1) * p == q as int * p + p) by (nonlinear_arith);
                assert(v as int + p - 1 == (q as int + 1) * p + ((v as int % p) - 1));
                lemma_fundamental_div_mod_converse(
                    v as int + p - 1,
                    p,
                    q as int + 1,
                    (v as int % p) - 1,
                );
            }
            q + 1
        } else {
            proof {
                lemma_fundamental_div_mod_converse(v as int + p - 1, p, q as int, p - 1);
            }
            q
        }
    }
}

/// Resolves what the codec reported of a decoded image: it is usable only
/// when it holds exactly one (grayscale) component, and it must then yield
/// effective-width times effective-height samples at the reported discard
/// level.
pub fn decoded_image_len(n_components: usize, width: u32, height: u32, factor: u32) -> (r: Result<
    u64,
    Jpeg2000CodeStreamDecodeError,
>)
    ensures
        n_components == 1 ==> r is Ok && r->Ok_0 as int == spec_discard_scaled(width, factor)
            * spec_discard_scaled(height, factor),
        n_components != 1 ==> r == Err::<u64, Jpeg2000CodeStreamDecodeError>(
            Jpeg2000CodeStreamDecodeError::NotSupported,
        ),
{
    if n_components != 1 {
        return Err(Jpeg2000CodeStreamDecodeError::NotSupported);
    }
    let w = value_for_discard_level(width, factor);
    let h = value_for_discard_level(height, factor);
    proof {
        assert((w as u64) * (h as u64) <= 0xffff_ffffu64 * 0xffff_ffffu64) by (nonlinear_arith)
            requires
                w <= 0xffff_ffffu64 && h <= 0xffff_ffffu64,
        ;
    }
    Ok((w as u64) * (h as u64))
}

/// Concludes a decode: the unpacked sample count must equal the number of
/// points section 5 declares; the samples are handed back unchanged.
pub fn finish_jpeg2000_decode(samples: Vec<i32>, num_points: u32) -> (r: Result<
    Vec<i32>,
    GribError,
>)
    ensures
        samples@.len() == num_points ==> r is Ok && r->Ok_0@ == samples@,
        samples@.len() != num_points ==> r == Err::<Vec<i32>, GribError>(
            GribError::DecodeError(
                DecodeError::SimplePackingDecodeError(SimplePackingDecodeError::LengthMismatch),
            ),
        ),
{
    if samples.len() == num_points as usize {
        Ok(samples)
    } else {
        Err(
            GribError::DecodeError(
                DecodeError::SimplePackingDecodeError(SimplePackingDecodeError::LengthMismatch),
            ),
        )
    }
}

} // verus!
