//! Color management: source ICC profiles, the linear-light companion profile, and the lookup
//! tables that the YUV conversion reads.
use vstd::arithmetic::power2::pow2;
use vstd::prelude::*;

use bytemuck::cast_slice_mut;
use lcms2::{
    ColorSpaceSignature, Flags, GlobalContext, Intent, PixelFormat, Profile, Tag, TagSignature,
    ToneCurve, Transform,
};

use crate::decode::{SampleView, WorkingColorSpace, WorkingData, WorkingImage};
use crate::error::Error;
use crate::simpleyuv::SimpleYuvTables;

verus! {

#[verifier::external_type_specification]
#[verifier::external_body]
pub struct ExGlobalContext(GlobalContext);

#[verifier::external_type_specification]
#[verifier::external_body]
#[verifier::reject_recursive_types(C)]
pub struct ExProfile<C>(lcms2::Profile<C>);

#[verifier::external_type_specification]
#[verifier::external_body]
pub struct ExToneCurve(ToneCurve);

// ---------------------------------------------------------------------------------------------
// What lcms2 computes
//
// Profiles and tone curves are lcms2 objects that this library creates and then only reads, so
// the names below treat each one as the value that it was built from: the profile parsed from
// given bytes, the curve copied from a given tag, the inverse of a given curve.
// ---------------------------------------------------------------------------------------------

/// The profile that `Profile::new_icc` parses from the bytes, or `None` where it refuses them.
pub uninterp spec fn parsed_icc_profile(bytes: Seq<u8>) -> Option<Profile>;

/// Whether `Profile::color_space` reports `RgbData` for the profile.
pub uninterp spec fn is_rgb_profile(profile: Profile) -> bool;

/// What `Profile::is_matrix_shaper` reports for the profile.
pub uninterp spec fn is_matrix_shaper_profile(profile: Profile) -> bool;

/// The tone curve stored under the profile's red (0), green (1) or blue (2) TRC tag, if the tag
/// holds one.
pub uninterp spec fn profile_tone_curve(profile: Profile, channel: usize) -> Option<ToneCurve>;

/// What `ToneCurveRef::eval` gives for a 16-bit input.
pub uninterp spec fn tone_curve_value(curve: ToneCurve, v: u16) -> u16;

/// The curve that `ToneCurveRef::reversed_samples` builds.
pub uninterp spec fn reversed_tone_curve(curve: ToneCurve, samples: usize) -> ToneCurve;

/// One 8-bit RGB pixel as a perceptual lcms2 transform from `input` to `output` maps it.
pub uninterp spec fn lcms_rgb8(input: Profile, output: Profile, r: u8, g: u8, b: u8) -> (u8, u8, u8);

/// The color channels of one 8-bit RGBA pixel as a perceptual lcms2 transform with
/// `Flags::COPY_ALPHA` maps them.
pub uninterp spec fn lcms_rgba8(input: Profile, output: Profile, r: u8, g: u8, b: u8, a: u8) -> (
    u8,
    u8,
    u8,
);

/// One 16-bit RGB pixel as a perceptual lcms2 transform from `input` to `output` maps it.
pub uninterp spec fn lcms_rgb16(input: Profile, output: Profile, r: u16, g: u16, b: u16) -> (
    u16,
    u16,
    u16,
);

/// The color channels of one 16-bit RGBA pixel as a perceptual lcms2 transform with
/// `Flags::COPY_ALPHA` maps them.
pub uninterp spec fn lcms_rgba16(input: Profile, output: Profile, r: u16, g: u16, b: u16, a: u16) -> (
    u16,
    u16,
    u16,
);

/// Whether `Transform::new_flags` builds a perceptual transform from `input` to `output` for
/// interleaved samples of `channels` channels (RGB, or RGBA with alpha copied) of `bits` bits.
pub uninterp spec fn lcms_transform_builds(input: Profile, output: Profile, channels: nat, bits: nat) -> bool;

/// lcms2 transforms at most `u32::MAX` pixels in one call.
pub open spec fn transformed_pixel(p: int) -> bool {
    p < u32::MAX as int
}

/// Interleaved three-channel samples with each pixel below `u32::MAX` replaced by `f` of it.
pub open spec fn mapped3<T>(data: Seq<T>, f: spec_fn(T, T, T) -> (T, T, T)) -> Seq<T> {
    Seq::new(
        data.len(),
        |i: int|
            {
                let p = i / 3;
                let c = i % 3;
                if transformed_pixel(p) {
                    let m = f(data[3 * p], data[3 * p + 1], data[3 * p + 2]);
                    if c == 0 {
                        m.0
                    } else if c == 1 {
                        m.1
                    } else {
                        m.2
                    }
                } else {
                    data[i]
                }
            },
    )
}

/// Interleaved four-channel samples with the color channels of each pixel below `u32::MAX`
/// replaced by `f` of the pixel; the fourth channel is kept.
pub open spec fn mapped4<T>(data: Seq<T>, f: spec_fn(T, T, T, T) -> (T, T, T)) -> Seq<T> {
    Seq::new(
        data.len(),
        |i: int|
            {
                let p = i / 4;
                let c = i % 4;
                if transformed_pixel(p) && c < 3 {
                    let m = f(data[4 * p], data[4 * p + 1], data[4 * p + 2], data[4 * p + 3]);
                    if c == 0 {
                        m.0
                    } else if c == 1 {
                        m.1
                    } else {
                        m.2
                    }
                } else {
                    data[i]
                }
            },
    )
}

/// The 8-bit RGB pixel map from `input` to `output`.
pub open spec fn rgb8_map(input: Profile, output: Profile) -> spec_fn(u8, u8, u8) -> (u8, u8, u8) {
    |x: u8, y: u8, z: u8| lcms_rgb8(input, output, x, y, z)
}

/// The 8-bit RGBA color map from `input` to `output`.
pub open spec fn rgba8_map(input: Profile, output: Profile) -> spec_fn(u8, u8, u8, u8) -> (u8, u8, u8) {
    |x: u8, y: u8, z: u8, w: u8| lcms_rgba8(input, output, x, y, z, w)
}

/// The 16-bit RGB pixel map from `input` to `output`.
pub open spec fn rgb16_map(input: Profile, output: Profile) -> spec_fn(u16, u16, u16) -> (u16, u16, u16) {
    |x: u16, y: u16, z: u16| lcms_rgb16(input, output, x, y, z)
}

/// The 16-bit RGBA color map from `input` to `output`.
pub open spec fn rgba16_map(input: Profile, output: Profile) -> spec_fn(u16, u16, u16, u16) -> (u16, u16, u16) {
    |x: u16, y: u16, z: u16, w: u16| lcms_rgba16(input, output, x, y, z, w)
}

// ---------------------------------------------------------------------------------------------
// Calls into lcms2
// ---------------------------------------------------------------------------------------------

/// Parses an in-memory ICC profile with `Profile::new_icc`; a failure is rendered as
/// "failed to parse ICC profile: {err}". The contract names the parsed profile as a function of
/// the bytes; which bytes parse is not stated.
#[verifier::external_body]
fn parse_icc(bytes: &[u8]) -> (r: Result<Profile, String>)
    ensures
        match r {
            Ok(p) => parsed_icc_profile(bytes@) == Some(p),
            Err(_) => parsed_icc_profile(bytes@) is None,
        },
{
    match Profile::new_icc(bytes) {
        Ok(profile) => Ok(profile),
        Err(err) => Err(format!("failed to parse ICC profile: {err}")),
    }
}

/// lcms2's built-in sRGB profile (`Profile::new_srgb`, `cmsCreate_sRGBProfile`), which lcms2
/// builds as an RGB profile with colorant and TRC tags on all three channels, so its color space
/// is RGB and `cmsIsMatrixShaper` holds of it.
#[verifier::external_body]
fn srgb_profile() -> (p: Profile)
    ensures
        is_rgb_profile(p),
        is_matrix_shaper_profile(p),
{
    Profile::new_srgb()
}

/// Whether `Profile::color_space` is `ColorSpaceSignature::RgbData`.
#[verifier::external_body]
fn profile_is_rgb(profile: &Profile) -> (b: bool)
    ensures
        b == is_rgb_profile(*profile),
{
    matches!(profile.color_space(), ColorSpaceSignature::RgbData)
}

/// `Profile::is_matrix_shaper`.
#[verifier::external_body]
fn profile_is_matrix_shaper(profile: &Profile) -> (b: bool)
    ensures
        b == is_matrix_shaper_profile(*profile),
{
    profile.is_matrix_shaper()
}

/// Reads the red, green or blue TRC tag with `Profile::read_tag` and, where it holds a tone
/// curve, returns an owned copy of it (`ToOwned::to_owned`).
#[verifier::external_body]
fn read_tone_curve(profile: &Profile, channel: usize) -> (r: Option<ToneCurve>)
    requires
        channel < 3,
    ensures
        r == profile_tone_curve(*profile, channel),
{
    let tag = match channel {
        0 => TagSignature::RedTRCTag,
        1 => TagSignature::GreenTRCTag,
        _ => TagSignature::BlueTRCTag,
    };
    match profile.read_tag(tag) {
        Tag::ToneCurve(curve) => Some(curve.to_owned()),
        _ => None,
    }
}

/// `ToneCurveRef::eval` on a 16-bit value.
#[verifier::external_body]
fn eval_tone_curve(curve: &ToneCurve, v: u16) -> (r: u16)
    ensures
        r == tone_curve_value(*curve, v),
{
    curve.eval(v)
}

/// `ToneCurveRef::reversed_samples` (`cmsReverseToneCurveEx`): a single-segment parametric
/// curve is inverted in closed form, any other one is tabulated with `samples` entries. lcms2
/// builds tables of one to 65530 entries only (it returns no curve beyond that, which the
/// binding does not check), so `samples` is held to that range.
#[verifier::external_body]
fn reverse_tone_curve(curve: &ToneCurve, samples: usize) -> (r: ToneCurve)
    requires
        1 <= samples <= REVERSED_CURVE_SAMPLES,
    ensures
        r == reversed_tone_curve(*curve, samples),
{
    curve.reversed_samples(samples)
}

/// Builds a perceptual `Transform` for interleaved 8-bit RGB (`PixelFormat::RGB_8`) from `input`
/// to `output` and applies it in place with `transform_in_place`. Whether it builds is named as a
/// function of the two profiles and the pixel layout. When the transform cannot be built, the
/// buffer is left as it is and the error reads "failed to build {what}: {err}".
#[verifier::external_body]
fn transform_rgb8(input: &Profile, output: &Profile, data: &mut Vec<u8>, what: &str) -> (r: Result<(), String>)
    requires
        old(data)@.len() % 3 == 0,
    ensures
        r is Ok <==> lcms_transform_builds(*input, *output, 3, 8),
        r is Ok ==> final(data)@ == mapped3(old(data)@, |x: u8, y: u8, z: u8| lcms_rgb8(*input, *output, x, y, z)),
        r is Err ==> final(data)@ == old(data)@,
{
    match Transform::<[u8; 3], [u8; 3]>::new(input, PixelFormat::RGB_8, output, PixelFormat::RGB_8, Intent::Perceptual) {
        Ok(transform) => Ok(transform.transform_in_place(cast_slice_mut::<u8, [u8; 3]>(data))),
        Err(err) => Err(format!("failed to build {what}: {err}")),
    }
}

/// As `transform_rgb8`, for interleaved 8-bit RGBA (`PixelFormat::RGBA_8`) with
/// `Flags::COPY_ALPHA`, which copies alpha unchanged.
#[verifier::external_body]
fn transform_rgba8(input: &Profile, output: &Profile, data: &mut Vec<u8>, what: &str) -> (r: Result<(), String>)
    requires
        old(data)@.len() % 4 == 0,
    ensures
        r is Ok <==> lcms_transform_builds(*input, *output, 4, 8),
        r is Ok ==> final(data)@ == mapped4(old(data)@, |x: u8, y: u8, z: u8, w: u8| lcms_rgba8(*input, *output, x, y, z, w)),
        r is Err ==> final(data)@ == old(data)@,
{
    match Transform::<[u8; 4], [u8; 4]>::new_flags(input, PixelFormat::RGBA_8, output, PixelFormat::RGBA_8, Intent::Perceptual, Flags::COPY_ALPHA) {
        Ok(transform) => Ok(transform.transform_in_place(cast_slice_mut::<u8, [u8; 4]>(data))),
        Err(err) => Err(format!("failed to build {what}: {err}")),
    }
}

/// As `transform_rgb8`, for interleaved 16-bit RGB (`PixelFormat::RGB_16`).
#[verifier::external_body]
fn transform_rgb16(input: &Profile, output: &Profile, data: &mut Vec<u16>, what: &str) -> (r: Result<(), String>)
    requires
        old(data)@.len() % 3 == 0,
    ensures
        r is Ok <==> lcms_transform_builds(*input, *output, 3, 16),
        r is Ok ==> final(data)@ == mapped3(old(data)@, |x: u16, y: u16, z: u16| lcms_rgb16(*input, *output, x, y, z)),
        r is Err ==> final(data)@ == old(data)@,
{
    match Transform::<[u16; 3], [u16; 3]>::new(input, PixelFormat::RGB_16, output, PixelFormat::RGB_16, Intent::Perceptual) {
        Ok(transform) => Ok(transform.transform_in_place(cast_slice_mut::<u16, [u16; 3]>(data))),
        Err(err) => Err(format!("failed to build {what}: {err}")),
    }
}

/// As `transform_rgb8`, for interleaved 16-bit RGBA (`PixelFormat::RGBA_16`) with
/// `Flags::COPY_ALPHA`.
#[verifier::external_body]
fn transform_rgba16(input: &Profile, output: &Profile, data: &mut Vec<u16>, what: &str) -> (r: Result<(), String>)
    requires
        old(data)@.len() % 4 == 0,
    ensures
        r is Ok <==> lcms_transform_builds(*input, *output, 4, 16),
        r is Ok ==> final(data)@ == mapped4(old(data)@, |x: u16, y: u16, z: u16, w: u16| lcms_rgba16(*input, *output, x, y, z, w)),
        r is Err ==> final(data)@ == old(data)@,
{
    match Transform::<[u16; 4], [u16; 4]>::new_flags(input, PixelFormat::RGBA_16, output, PixelFormat::RGBA_16, Intent::Perceptual, Flags::COPY_ALPHA) {
        Ok(transform) => Ok(transform.transform_in_place(cast_slice_mut::<u16, [u16; 4]>(data))),
        Err(err) => Err(format!("failed to build {what}: {err}")),
    }
}

/// The largest table that lcms2 builds for an inverted tone curve, and the size used here.
pub const REVERSED_CURVE_SAMPLES: usize = 65530;

// ---------------------------------------------------------------------------------------------
// Source profiles
// ---------------------------------------------------------------------------------------------

/// The message for a profile that does not describe RGB data.
pub open spec fn rgb_only_message() -> Seq<char> {
    "only RGB ICC profiles are supported in v1"@
}

/// Parses the embedded ICC profile, if there is one, and accepts it only for RGB data.
pub fn load_source_profile(icc: Option<&[u8]>) -> (r: Result<Option<Profile>, Error>)
    ensures
        match icc {
            None => r matches Ok(None),
            Some(bytes) => match parsed_icc_profile(bytes@) {
                None => r matches Err(e) && e is Color,
                Some(p) => if is_rgb_profile(p) {
                    r == Ok::<Option<Profile>, Error>(Some(p))
                } else {
                    r matches Err(e) && e is Unsupported && e.message_view() == rgb_only_message()
                },
            },
        },
{
    let bytes = match icc {
        None => return Ok(None),
        Some(bytes) => bytes,
    };
    let profile = match parse_icc(bytes) {
        Ok(p) => p,
        Err(message) => return Err(Error::Color(message)),
    };
    if !profile_is_rgb(&profile) {
        return Err(Error::unsupported("only RGB ICC profiles are supported in v1"));
    }
    Ok(Some(profile))
}

/// Checks the embedded ICC profile without building a pipeline: it must parse and describe RGB
/// data, and, where asked, be a matrix-shaper profile.
pub fn validate_source_profile(icc: Option<&[u8]>, require_matrix_shaper: bool) -> (r: Result<(), Error>)
    ensures
        match icc {
            None => r is Ok,
            Some(bytes) => match parsed_icc_profile(bytes@) {
                None => r matches Err(e) && e is Color,
                Some(p) => if !is_rgb_profile(p) {
                    r matches Err(e) && e is Unsupported && e.message_view() == rgb_only_message()
                } else if require_matrix_shaper && !is_matrix_shaper_profile(p) {
                    r matches Err(e) && e is Unsupported && e.message_view() == matrix_shaper_message()
                } else {
                    r is Ok
                },
            },
        },
{
    let profile = match load_source_profile(icc) {
        Ok(Some(p)) => p,
        Ok(None) => return Ok(()),
        Err(e) => return Err(e),
    };
    if require_matrix_shaper && !profile_is_matrix_shaper(&profile) {
        return Err(Error::unsupported(
            "only matrix-shaper RGB ICC profiles are supported for the linear RGB pipeline in v1",
        ));
    }
    Ok(())
}

/// The error for a profile that the linear pipeline cannot invert.
pub open spec fn matrix_shaper_message() -> Seq<char> {
    "only matrix-shaper RGB ICC profiles are supported for the linear RGB pipeline in v1"@
}

/// The source profile of a color pipeline: the embedded profile, or sRGB where there is none;
/// either way it must be a matrix-shaper RGB profile.
pub fn pipeline_source_profile(icc: Option<&[u8]>) -> (r: Result<Profile, Error>)
    ensures
        match icc {
            None => r matches Ok(p) && is_rgb_profile(p) && is_matrix_shaper_profile(p),
            Some(bytes) => match parsed_icc_profile(bytes@) {
                None => r matches Err(e) && e is Color,
                Some(p) => if !is_rgb_profile(p) {
                    r matches Err(e) && e is Unsupported && e.message_view() == rgb_only_message()
                } else if !is_matrix_shaper_profile(p) {
                    r matches Err(e) && e is Unsupported && e.message_view() == matrix_shaper_message()
                } else {
                    r == Ok::<Profile, Error>(p)
                },
            },
        },
{
    let profile = match load_source_profile(icc) {
        Ok(Some(p)) => p,
        Ok(None) => srgb_profile(),
        Err(e) => return Err(e),
    };
    if !profile_is_matrix_shaper(&profile) {
        return Err(Error::unsupported(
            "only matrix-shaper RGB ICC profiles are supported for the linear RGB pipeline in v1",
        ));
    }
    Ok(profile)
}

// ---------------------------------------------------------------------------------------------
// Tone-curve lookup tables
// ---------------------------------------------------------------------------------------------

/// A code of the range `0..=max` scaled to `0..=65535`, rounded to nearest.
pub open spec fn scale_code_to_u16_spec(value: int, max: int) -> int {
    (value * 65535 + max / 2) / max
}

/// A 16-bit value scaled to the code range `0..=max`, rounded to nearest.
pub open spec fn scale_code_from_u16_spec(value: int, max: int) -> int {
    (value * max + 32767) / 65535
}

/// The largest code of a `bits`-bit range.
pub open spec fn code_max(bits: nat) -> int {
    pow2(bits) - 1
}

/// Source code to linear light: the curve sampled at each code of `0..=max`.
pub open spec fn source_to_linear_table(curve: ToneCurve, max: int) -> Seq<u16> {
    Seq::new((max + 1) as nat, |code: int| tone_curve_value(curve, scale_code_to_u16_spec(code, max) as u16))
}

/// Linear light to source code: the inverse curve at each 16-bit value, scaled to `0..=max`.
pub open spec fn linear_to_source_table(inverse: ToneCurve, max: int) -> Seq<u16> {
    Seq::new(65536, |l: int| scale_code_from_u16_spec(tone_curve_value(inverse, l as u16) as int, max) as u16)
}

fn scale_code_to_u16(value: u32, max: u32) -> (r: u16)
    requires
        1 <= max <= 65535,
        value <= max,
    ensures
        r == scale_code_to_u16_spec(value as int, max as int),
{
    proof {
        assert(value * 65535 <= max * 65535) by (nonlinear_arith)
            requires
                value <= max,
        ;
        vstd::arithmetic::div_mod::lemma_multiply_divide_lt(value * 65535 + max / 2, max as int, 65536);
    }
    ((value * 65535 + max / 2) / max) as u16
}

fn scale_code_from_u16(value: u16, max: u32) -> (r: u16)
    requires
        1 <= max <= 65535,
    ensures
        r == scale_code_from_u16_spec(value as int, max as int),
        r <= max,
{
    proof {
        assert(value * max <= 65535 * max) by (nonlinear_arith)
            requires
                value <= 65535,
        ;
        vstd::arithmetic::div_mod::lemma_multiply_divide_lt(value * max + 32767, 65535, max + 1);
    }
    ((value as u32 * max + 32767) / 65535) as u16
}

fn code_range_max(bits: u8) -> (max: u32)
    requires
        1 <= bits <= 16,
    ensures
        max == code_max(bits as nat),
        1 <= max <= 65535,
{
    proof {
        vstd::arithmetic::power2::lemma2_to64();
        vstd::bits::lemma_u32_shl_is_mul(1, bits as u32);
        vstd::arithmetic::power2::lemma_pow2_strictly_increases(bits as nat, 17);
        vstd::arithmetic::power2::lemma_pow2_strictly_increases(0, bits as nat);
    }
    (1u32 << bits as u32) - 1
}

/// Samples `curve` at every code of a `bits`-bit range.
fn build_source_to_linear_lut(curve: &ToneCurve, internal_bit_depth: u8) -> (lut: Vec<u16>)
    requires
        1 <= internal_bit_depth <= 16,
    ensures
        lut@ == source_to_linear_table(*curve, code_max(internal_bit_depth as nat)),
{
    let max = code_range_max(internal_bit_depth);
    let mut lut: Vec<u16> = Vec::new();
    let mut code: u32 = 0;
    while code <= max
        invariant
            1 <= max <= 65535,
            code <= max + 1,
            lut@.len() == code,
            forall|i: int| 0 <= i < code ==> #[trigger] lut@[i] == source_to_linear_table(*curve, max as int)[i],
        decreases max + 1 - code,
    {
        let linear = eval_tone_curve(curve, scale_code_to_u16(code, max));
        lut.push(linear);
        code += 1;
    }
    assert(lut@ =~= source_to_linear_table(*curve, max as int));
    lut
}

/// Evaluates the inverse curve at every 16-bit value and scales it to a `bits`-bit range.
fn build_linear_to_source_lut(inverse: &ToneCurve, internal_bit_depth: u8) -> (lut: Vec<u16>)
    requires
        1 <= internal_bit_depth <= 16,
    ensures
        lut@ == linear_to_source_table(*inverse, code_max(internal_bit_depth as nat)),
        forall|i: int| 0 <= i < 65536 ==> #[trigger] lut@[i] <= code_max(internal_bit_depth as nat),
{
    let max = code_range_max(internal_bit_depth);
    let mut lut: Vec<u16> = Vec::new();
    let mut linear: u32 = 0;
    while linear <= 65535
        invariant
            1 <= max <= 65535,
            linear <= 65536,
            lut@.len() == linear,
            forall|i: int| 0 <= i < linear ==> #[trigger] lut@[i] == linear_to_source_table(*inverse, max as int)[i],
            forall|i: int| 0 <= i < linear ==> #[trigger] lut@[i] <= max,
        decreases 65536 - linear,
    {
        let code = scale_code_from_u16(eval_tone_curve(inverse, linear as u16), max);
        lut.push(code);
        linear += 1;
    }
    assert(lut@ =~= linear_to_source_table(*inverse, max as int));
    lut
}

/// The four tables of one channel for SimpleYUV.
struct SimpleYuvChannelTables {
    source_u8_to_linear: Vec<u16>,
    linear_to_source_u8: Vec<u16>,
    source_u16_to_linear: Vec<u16>,
    linear_to_source_u16: Vec<u16>,
}

/// The linear-light tables of a channel with transfer curve `curve` at `bits` of precision.
pub open spec fn channel_tables_match(s2l: Seq<u16>, l2s: Seq<u16>, curve: ToneCurve, bits: nat) -> bool {
    &&& s2l == source_to_linear_table(curve, code_max(bits))
    &&& l2s == linear_to_source_table(reversed_tone_curve(curve, REVERSED_CURVE_SAMPLES), code_max(bits))
}

fn build_simpleyuv_channel_tables(curve: &ToneCurve) -> (t: SimpleYuvChannelTables)
    ensures
        channel_tables_match(t.source_u8_to_linear@, t.linear_to_source_u8@, *curve, 10),
        channel_tables_match(t.source_u16_to_linear@, t.linear_to_source_u16@, *curve, 14),
{
    let inverse = reverse_tone_curve(curve, REVERSED_CURVE_SAMPLES);
    SimpleYuvChannelTables {
        source_u8_to_linear: build_source_to_linear_lut(curve, 10),
        linear_to_source_u8: build_linear_to_source_lut(&inverse, 10),
        source_u16_to_linear: build_source_to_linear_lut(curve, 14),
        linear_to_source_u16: build_linear_to_source_lut(&inverse, 14),
    }
}

/// The error for a profile without a tone curve on `channel`.
pub open spec fn missing_trc_message(channel: int) -> Seq<char> {
    if channel == 0 {
        "ICC profile is missing RedTRCTag"@
    } else if channel == 1 {
        "ICC profile is missing GreenTRCTag"@
    } else {
        "ICC profile is missing BlueTRCTag"@
    }
}

/// Whether the profile has a tone curve on every channel.
pub open spec fn has_all_tone_curves(profile: Profile) -> bool {
    forall|c: usize| c < 3 ==> (#[trigger] profile_tone_curve(profile, c)) is Some
}

/// The first channel, in red, green, blue order, whose tone curve is missing.
pub open spec fn first_missing_channel(profile: Profile) -> int {
    if profile_tone_curve(profile, 0) is None {
        0
    } else if profile_tone_curve(profile, 1) is None {
        1
    } else {
        2
    }
}

/// The tone curve of a channel of a profile that has all three.
pub open spec fn trc(profile: Profile, channel: usize) -> ToneCurve {
    profile_tone_curve(profile, channel)->0
}

/// The SimpleYUV tables of a profile: 10-bit tables for 8-bit samples and 14-bit tables for
/// 16-bit samples, from each channel's tone curve and its inverse.
pub open spec fn simpleyuv_tables_of(t: SimpleYuvTables, profile: Profile) -> bool {
    forall|c: usize|
        c < 3 ==> {
            &&& channel_tables_match(
                #[trigger] t.source_u8_to_linear[c as int]@,
                t.linear_to_source_u8[c as int]@,
                trc(profile, c),
                10,
            )
            &&& channel_tables_match(
                t.source_u16_to_linear[c as int]@,
                t.linear_to_source_u16[c as int]@,
                trc(profile, c),
                14,
            )
        }
}

fn missing_trc_error(channel: usize) -> (e: Error)
    requires
        channel < 3,
    ensures
        e is Color,
        e.message_view() == missing_trc_message(channel as int),
{
    if channel == 0 {
        Error::color("ICC profile is missing RedTRCTag")
    } else if channel == 1 {
        Error::color("ICC profile is missing GreenTRCTag")
    } else {
        Error::color("ICC profile is missing BlueTRCTag")
    }
}

fn channel_tone_curve(profile: &Profile, channel: usize) -> (r: Result<ToneCurve, Error>)
    requires
        channel < 3,
    ensures
        match r {
            Ok(c) => profile_tone_curve(*profile, channel) == Some(c),
            Err(e) => profile_tone_curve(*profile, channel) is None && e is Color && e.message_view()
                == missing_trc_message(channel as int),
        },
{
    match read_tone_curve(profile, channel) {
        Some(curve) => Ok(curve),
        None => Err(missing_trc_error(channel)),
    }
}

/// Whether lcms2 builds the transform from `input` to `output` for the layout of `view`.
pub open spec fn view_transform_builds(view: SampleView, input: Profile, output: Profile) -> bool {
    match view {
        SampleView::Rgb8(_) => lcms_transform_builds(input, output, 3, 8),
        SampleView::Rgba8(_) => lcms_transform_builds(input, output, 4, 8),
        SampleView::Rgb16(_) => lcms_transform_builds(input, output, 3, 16),
        SampleView::Rgba16(_) => lcms_transform_builds(input, output, 4, 16),
    }
}

/// Samples after a perceptual lcms2 transform from `input` to `output` (alpha copied).
pub open spec fn transformed_view(view: SampleView, input: Profile, output: Profile) -> SampleView {
    match view {
        SampleView::Rgb8(d) => SampleView::Rgb8(mapped3(d, rgb8_map(input, output))),
        SampleView::Rgba8(d) => SampleView::Rgba8(mapped4(d, rgba8_map(input, output))),
        SampleView::Rgb16(d) => SampleView::Rgb16(mapped3(d, rgb16_map(input, output))),
        SampleView::Rgba16(d) => SampleView::Rgba16(mapped4(d, rgba16_map(input, output))),
    }
}

fn transform_working_data(data: &mut WorkingData, input: &Profile, output: &Profile, what: &str) -> (r: Result<(), Error>)
    requires
        old(data).spec_len() % old(data).spec_channels() == 0,
    ensures
        r is Ok <==> view_transform_builds(old(data)@, *input, *output),
        r is Ok ==> final(data)@ == transformed_view(old(data)@, *input, *output),
        r matches Err(e) ==> e is Color && final(data)@ == old(data)@,
{
    let result = match data {
        WorkingData::Rgb8(samples) => transform_rgb8(input, output, samples, what),
        WorkingData::Rgba8(samples) => transform_rgba8(input, output, samples, what),
        WorkingData::Rgb16(samples) => transform_rgb16(input, output, samples, what),
        WorkingData::Rgba16(samples) => transform_rgba16(input, output, samples, what),
    };
    match result {
        Ok(()) => Ok(()),
        Err(message) => Err(Error::Color(message)),
    }
}

/// Two images with the same size, color space and samples.
pub open spec fn same_samples(a: WorkingImage, b: WorkingImage) -> bool {
    a.width == b.width && a.height == b.height && a.color_space == b.color_space && a.data@ == b.data@
}

/// A source profile together with its linear-light companion: the same primaries and white
/// point with an identity transfer curve on every channel.
pub struct ColorPipeline {
    source_profile: Profile,
    linear_profile: Profile,
}

impl ColorPipeline {
    /// The profile that source-coded samples are in.
    pub closed spec fn source(&self) -> Profile {
        self.source_profile
    }

    /// The linear-light profile that resizing works in.
    pub closed spec fn linear(&self) -> Profile {
        self.linear_profile
    }

    /// Pairs a source profile with its linear-light companion.
    pub fn from_profiles(source_profile: Profile, linear_profile: Profile) -> (p: Self)
        ensures
            p.source() == source_profile,
            p.linear() == linear_profile,
    {
        ColorPipeline { source_profile, linear_profile }
    }

    /// The SimpleYUV lookup tables of the source profile's tone curves.
    pub fn simpleyuv_tables(&self) -> (r: Result<SimpleYuvTables, Error>)
        ensures
            r is Ok <==> has_all_tone_curves(self.source()),
            r matches Ok(t) ==> t.wf() && simpleyuv_tables_of(t, self.source()),
            r matches Err(e) ==> e is Color && e.message_view() == missing_trc_message(
                first_missing_channel(self.source()),
            ),
    {
        let red_curve = channel_tone_curve(&self.source_profile, 0)?;
        let red = build_simpleyuv_channel_tables(&red_curve);
        let green_curve = channel_tone_curve(&self.source_profile, 1)?;
        let green = build_simpleyuv_channel_tables(&green_curve);
        let blue_curve = channel_tone_curve(&self.source_profile, 2)?;
        let blue = build_simpleyuv_channel_tables(&blue_curve);
        let t = SimpleYuvTables {
            source_u8_to_linear: [red.source_u8_to_linear, green.source_u8_to_linear, blue.source_u8_to_linear],
            linear_to_source_u8: [red.linear_to_source_u8, green.linear_to_source_u8, blue.linear_to_source_u8],
            source_u16_to_linear: [red.source_u16_to_linear, green.source_u16_to_linear, blue.source_u16_to_linear],
            linear_to_source_u16: [red.linear_to_source_u16, green.linear_to_source_u16, blue.linear_to_source_u16],
        };
        proof {
            vstd::arithmetic::power2::lemma2_to64();
            assert forall|c: usize| c < 3 implies (#[trigger] profile_tone_curve(self.source(), c)) is Some by {
                if c == 0 {} else if c == 1 {} else { assert(c == 2); }
            }
            assert forall|c: usize| c < 3 implies channel_tables_match(
                #[trigger] t.source_u8_to_linear[c as int]@,
                t.linear_to_source_u8[c as int]@,
                trc(self.source(), c),
                10,
            ) && channel_tables_match(
                t.source_u16_to_linear[c as int]@,
                t.linear_to_source_u16[c as int]@,
                trc(self.source(), c),
                14,
            ) by {
                if c == 0 {} else if c == 1 {} else { assert(c == 2); }
            }
        }
        Ok(t)
    }

    /// Takes source-coded samples to linear light; samples that are already linear are left
    /// as they are.
    pub fn to_linear_in_place(&self, image: &mut WorkingImage) -> (r: Result<(), Error>)
        requires
            old(image).data.spec_len() % old(image).data.spec_channels() == 0,
        ensures
            old(image).color_space is LinearRgb ==> r is Ok && *final(image) == *old(image),
            old(image).color_space is Source ==> (r is Ok <==> view_transform_builds(
                old(image).data@,
                self.source(),
                self.linear(),
            )),
            old(image).color_space is Source ==> match r {
                Ok(()) => final(image).width == old(image).width && final(image).height
                    == old(image).height && final(image).color_space is LinearRgb
                    && final(image).data@ == transformed_view(old(image).data@, self.source(), self.linear()),
                Err(e) => e is Color && same_samples(*final(image), *old(image)),
            },
    {
        if image.color_space == WorkingColorSpace::LinearRgb {
            return Ok(());
        }
        transform_working_data(&mut image.data, &self.source_profile, &self.linear_profile, "source->linear transform")?;
        image.color_space = WorkingColorSpace::LinearRgb;
        Ok(())
    }

    /// Takes linear-light samples back to the source encoding; source-coded samples are left
    /// as they are.
    pub fn convert_from_linear_in_place(&self, image: &mut WorkingImage) -> (r: Result<(), Error>)
        requires
            old(image).data.spec_len() % old(image).data.spec_channels() == 0,
        ensures
            old(image).color_space is Source ==> r is Ok && *final(image) == *old(image),
            old(image).color_space is LinearRgb ==> (r is Ok <==> view_transform_builds(
                old(image).data@,
                self.linear(),
                self.source(),
            )),
            old(image).color_space is LinearRgb ==> match r {
                Ok(()) => final(image).width == old(image).width && final(image).height
                    == old(image).height && final(image).color_space is Source
                    && final(image).data@ == transformed_view(old(image).data@, self.linear(), self.source()),
                Err(e) => e is Color && same_samples(*final(image), *old(image)),
            },
    {
        if image.color_space == WorkingColorSpace::Source {
            return Ok(());
        }
        transform_working_data(&mut image.data, &self.linear_profile, &self.source_profile, "linear->source transform")?;
        image.color_space = WorkingColorSpace::Source;
        Ok(())
    }

    /// Same result as `to_linear_in_place`; the transform runs on the calling thread.
    pub fn to_linear_parallel_in_place(&self, image: &mut WorkingImage) -> (r: Result<(), Error>)
        requires
            old(image).data.spec_len() % old(image).data.spec_channels() == 0,
        ensures
            old(image).color_space is LinearRgb ==> r is Ok && *final(image) == *old(image),
            old(image).color_space is Source ==> (r is Ok <==> view_transform_builds(
                old(image).data@,
                self.source(),
                self.linear(),
            )),
            old(image).color_space is Source ==> match r {
                Ok(()) => final(image).width == old(image).width && final(image).height
                    == old(image).height && final(image).color_space is LinearRgb
                    && final(image).data@ == transformed_view(old(image).data@, self.source(), self.linear()),
                Err(e) => e is Color && same_samples(*final(image), *old(image)),
            },
    {
        self.to_linear_in_place(image)
    }

    /// Same result as `convert_from_linear_in_place`; the transform runs on the calling thread.
    pub fn convert_from_linear_parallel_in_place(&self, image: &mut WorkingImage) -> (r: Result<(), Error>)
        requires
            old(image).data.spec_len() % old(image).data.spec_channels() == 0,
        ensures
            old(image).color_space is Source ==> r is Ok && *final(image) == *old(image),
            old(image).color_space is LinearRgb ==> (r is Ok <==> view_transform_builds(
                old(image).data@,
                self.linear(),
                self.source(),
            )),
            old(image).color_space is LinearRgb ==> match r {
                Ok(()) => final(image).width == old(image).width && final(image).height
                    == old(image).height && final(image).color_space is Source
                    && final(image).data@ == transformed_view(old(image).data@, self.linear(), self.source()),
                Err(e) => e is Color && same_samples(*final(image), *old(image)),
            },
    {
        self.convert_from_linear_in_place(image)
    }
}

// ---------------------------------------------------------------------------------------------
// 16-bit lookup tables for the linear pipeline
// ---------------------------------------------------------------------------------------------

/// The pixel with `v` on channel `c` and zero on the other two.
pub open spec fn unit_pixel(c: int, v: u16) -> (u16, u16, u16) {
    if c == 0 {
        (v, 0, 0)
    } else if c == 1 {
        (0, v, 0)
    } else {
        (0, 0, v)
    }
}

/// Channel `c` of a pixel.
pub open spec fn pick(p: (u16, u16, u16), c: int) -> u16 {
    if c == 0 {
        p.0
    } else if c == 1 {
        p.1
    } else {
        p.2
    }
}

/// What the 16-bit RGB transform from `input` to `output` does to channel `c` of a pixel whose
/// other channels are zero.
pub open spec fn transform_channel_lut(input: Profile, output: Profile, c: int) -> Seq<u16> {
    Seq::new(
        65536,
        |v: int|
            {
                let p = unit_pixel(c, v as u16);
                pick(lcms_rgb16(input, output, p.0, p.1, p.2), c)
            },
    )
}

/// Sample `3 * p + k` of the buffer of unit pixels, pixel `p` being `unit_pixel(p / 65536, p % 65536)`.
pub open spec fn unit_sample(p: int, k: int) -> u16 {
    pick(unit_pixel(p / 65536, (p % 65536) as u16), k)
}

proof fn lemma_unit_index(c: int, v: int)
    requires
        0 <= c < 3,
        0 <= v < 65536,
    ensures
        (65536 * c + v) / 65536 == c,
        (65536 * c + v) % 65536 == v,
        (3 * (65536 * c + v) + c) / 3 == 65536 * c + v,
        (3 * (65536 * c + v) + c) % 3 == c,
{
    vstd::arithmetic::div_mod::lemma_fundamental_div_mod_converse(65536 * c + v, 65536, c, v);
    vstd::arithmetic::div_mod::lemma_fundamental_div_mod_converse(3 * (65536 * c + v) + c, 3, 65536 * c + v, c);
}

/// Every pixel value on each channel alone, one after another: `3 * 65536` pixels.
fn unit_pixel_samples() -> (s: Vec<u16>)
    ensures
        s@.len() == 3 * 3 * 65536,
        forall|p: int, k: int| 0 <= p < 3 * 65536 && 0 <= k < 3 ==> #[trigger] s@[3 * p + k] == unit_sample(p, k),
{
    let mut s: Vec<u16> = Vec::new();
    let mut channel: usize = 0;
    while channel < 3
        invariant
            channel <= 3,
            s@.len() == 196608 * channel,
            forall|p: int, k: int| 0 <= p < 65536 * channel && 0 <= k < 3 ==> #[trigger] s@[3 * p + k] == unit_sample(p, k),
        decreases 3 - channel,
    {
        let mut value: u32 = 0;
        while value <= 65535
            invariant
                channel < 3,
                value <= 65536,
                s@.len() == 196608 * channel + 3 * value,
                forall|p: int, k: int| 0 <= p < 65536 * channel + value && 0 <= k < 3 ==> #[trigger] s@[3 * p + k] == unit_sample(p, k),
            decreases 65536 - value,
        {
            let v = value as u16;
            let (r, g, b) = if channel == 0 {
                (v, 0u16, 0u16)
            } else if channel == 1 {
                (0u16, v, 0u16)
            } else {
                (0u16, 0u16, v)
            };
            proof {
                lemma_unit_index(channel as int, value as int);
            }
            let ghost before = s@;
            s.push(r);
            s.push(g);
            s.push(b);
            proof {
                let p = 65536 * channel + value;
                assert forall|q: int, k: int| 0 <= q < p + 1 && 0 <= k < 3 implies #[trigger] s@[3 * q + k] == unit_sample(q, k) by {
                    if q < p {
                        assert(s@[3 * q + k] == before[3 * q + k]);
                    } else {
                        assert(q == p);
                    }
                }
            }
            value += 1;
        }
        channel += 1;
    }
    s
}

/// Channel `c` of pixels `65536 * c ..` of a buffer of interleaved RGB samples.
fn extract_channel(samples: &Vec<u16>, c: usize) -> (t: Vec<u16>)
    requires
        c < 3,
        samples@.len() == 3 * 3 * 65536,
    ensures
        t@ == Seq::new(65536, |v: int| samples@[3 * (65536 * c + v) + c]),
{
    let mut t: Vec<u16> = Vec::new();
    let mut v: usize = 0;
    while v < 65536
        invariant
            c < 3,
            samples@.len() == 3 * 3 * 65536,
            v <= 65536,
            t@.len() == v,
            forall|i: int| 0 <= i < v ==> #[trigger] t@[i] == samples@[3 * (65536 * c + i) + c],
        decreases 65536 - v,
    {
        t.push(samples[3 * (65536 * c + v) + c]);
        v += 1;
    }
    assert(t@ =~= Seq::new(65536, |i: int| samples@[3 * (65536 * c + i) + c]));
    t
}

/// Per-channel 16-bit tables of the RGB transform from `input` to `output`, built by running
/// every value of each channel through it.
fn build_rgb16_transform_luts(input: &Profile, output: &Profile, what: &str) -> (r: Result<[Vec<u16>; 3], Error>)
    ensures
        r is Ok <==> lcms_transform_builds(*input, *output, 3, 16),
        r matches Ok(t) ==> forall|c: int| 0 <= c < 3 ==> #[trigger] t[c]@ == transform_channel_lut(*input, *output, c),
        r matches Err(e) ==> e is Color,
{
    let mut samples = unit_pixel_samples();
    let ghost before = samples@;
    match transform_rgb16(input, output, &mut samples, what) {
        Ok(()) => {},
        Err(message) => return Err(Error::Color(message)),
    }
    let red = extract_channel(&samples, 0);
    let green = extract_channel(&samples, 1);
    let blue = extract_channel(&samples, 2);
    let t = [red, green, blue];
    proof {
        let f = |x: u16, y: u16, z: u16| lcms_rgb16(*input, *output, x, y, z);
        assert forall|c: int| 0 <= c < 3 implies #[trigger] t[c]@ == transform_channel_lut(*input, *output, c) by {
            assert forall|v: int| 0 <= v < 65536 implies t[c]@[v] == transform_channel_lut(*input, *output, c)[v] by {
                lemma_unit_index(c, v);
                let p = 65536 * c + v;
                assert(before[3 * p + 0] == unit_sample(p, 0));
                assert(before[3 * p + 1] == unit_sample(p, 1));
                assert(before[3 * p + 2] == unit_sample(p, 2));
                assert(samples@[3 * p + c] == mapped3(before, f)[3 * p + c]);
            }
            assert(t[c]@ =~= transform_channel_lut(*input, *output, c));
        }
    }
    Ok(t)
}

/// The 16-bit RGB transform from `input` to `output` acts on each channel separately.
pub open spec fn channelwise(input: Profile, output: Profile) -> bool {
    forall|r: u16, g: u16, b: u16|
        #[trigger] lcms_rgb16(input, output, r, g, b) == (
            lcms_rgb16(input, output, r, 0, 0).0,
            lcms_rgb16(input, output, 0, g, 0).1,
            lcms_rgb16(input, output, 0, 0, b).2,
        )
}

/// Where the transform acts on each channel separately, the per-channel tables built from it
/// reproduce it exactly on every interleaved 16-bit RGB buffer that one transform call covers.
pub proof fn lemma_transform_tables_reproduce_transform(
    input: Profile,
    output: Profile,
    luts: [Vec<u16>; 3],
    data: Seq<u16>,
)
    requires
        channelwise(input, output),
        forall|c: int| 0 <= c < 3 ==> #[trigger] luts[c]@ == transform_channel_lut(input, output, c),
        data.len() % 3 == 0,
        data.len() / 3 <= u32::MAX,
    ensures
        lut_mapped(data, 3, luts) == mapped3(data, rgb16_map(input, output)),
{
    let lhs = lut_mapped(data, 3, luts);
    let rhs = mapped3(data, rgb16_map(input, output));
    assert forall|i: int| 0 <= i < data.len() implies lhs[i] == rhs[i] by {
        let p = i / 3;
        let c = i % 3;
        assert(3 * p + c == i);
        assert(0 <= p < data.len() / 3);
        let (r, g, b) = (data[3 * p], data[3 * p + 1], data[3 * p + 2]);
        let m = lcms_rgb16(input, output, r, g, b);
        assert(m == (
            lcms_rgb16(input, output, r, 0, 0).0,
            lcms_rgb16(input, output, 0, g, 0).1,
            lcms_rgb16(input, output, 0, 0, b).2,
        ));
        assert(luts[c]@ == transform_channel_lut(input, output, c));
        if c == 0 {
            assert(lhs[i] == transform_channel_lut(input, output, 0)[r as int]);
        } else if c == 1 {
            assert(lhs[i] == transform_channel_lut(input, output, 1)[g as int]);
        } else {
            assert(lhs[i] == transform_channel_lut(input, output, 2)[b as int]);
        }
    }
    assert(lhs =~= rhs);
}

/// Lookup tables for the 16-bit linear pipeline: whole-transform tables for luma and the
/// 14-bit tone-curve tables for chroma.
pub struct LinearU16Tables {
    pub source_to_linear: [Vec<u16>; 3],
    pub linear_to_source: [Vec<u16>; 3],
    pub chroma_source_to_linear: [Vec<u16>; 3],
    pub chroma_linear_to_source: [Vec<u16>; 3],
}

impl LinearU16Tables {
    /// Every table covers the codes that are looked up in it.
    pub open spec fn wf(&self) -> bool {
        &&& forall|c: int| 0 <= c < 3 ==> (#[trigger] self.source_to_linear[c])@.len() == 65536
        &&& forall|c: int| 0 <= c < 3 ==> (#[trigger] self.linear_to_source[c])@.len() == 65536
        &&& forall|c: int| 0 <= c < 3 ==> (#[trigger] self.chroma_source_to_linear[c])@.len() == 16384
        &&& forall|c: int| 0 <= c < 3 ==> (#[trigger] self.chroma_linear_to_source[c])@.len() == 65536
    }
}

/// Applies a lookup table to each of the first three channels of every pixel.
pub open spec fn lut_mapped(data: Seq<u16>, channels: int, luts: [Vec<u16>; 3]) -> Seq<u16> {
    Seq::new(
        data.len(),
        |i: int|
            {
                let c = i % channels;
                if c < 3 {
                    luts[c]@[data[i] as int]
                } else {
                    data[i]
                }
            },
    )
}

/// Taking four-channel samples through the per-channel tables changes only the colour channels:
/// every alpha sample (index `4k + 3`) is kept, and a colour sample is its channel's table at
/// the sample's value.
pub proof fn lemma_lut_path_keeps_alpha(data: Seq<u16>, luts: [Vec<u16>; 3], k: int)
    requires
        0 <= k,
        4 * k + 3 < data.len(),
    ensures
        lut_mapped(data, 4, luts).len() == data.len(),
        lut_mapped(data, 4, luts)[4 * k + 3] == data[4 * k + 3],
        lut_mapped(data, 4, luts)[4 * k] == luts[0]@[data[4 * k] as int],
        lut_mapped(data, 4, luts)[4 * k + 1] == luts[1]@[data[4 * k + 1] as int],
        lut_mapped(data, 4, luts)[4 * k + 2] == luts[2]@[data[4 * k + 2] as int],
{
    assert((4 * k + 3) % 4 == 3);
    assert((4 * k) % 4 == 0);
    assert((4 * k + 1) % 4 == 1);
    assert((4 * k + 2) % 4 == 2);
}

pub(crate) fn apply_luts(data: &mut Vec<u16>, channels: usize, luts: &[Vec<u16>; 3])
    requires
        3 <= channels <= 4,
        forall|c: int| 0 <= c < 3 ==> (#[trigger] luts[c])@.len() == 65536,
    ensures
        final(data)@ == lut_mapped(old(data)@, channels as int, *luts),
{
    let ghost before = data@;
    let len = data.len();
    let mut i: usize = 0;
    while i < len
        invariant
            3 <= channels <= 4,
            forall|c: int| 0 <= c < 3 ==> (#[trigger] luts[c])@.len() == 65536,
            len == before.len(),
            data@.len() == len,
            i <= len,
            forall|j: int| 0 <= j < i ==> #[trigger] data@[j] == lut_mapped(before, channels as int, *luts)[j],
            forall|j: int| i <= j < len ==> #[trigger] data@[j] == before[j],
        decreases len - i,
    {
        let c = i % channels;
        if c < 3 {
            let value = luts[c][data[i] as usize];
            data.set(i, value);
        }
        i += 1;
    }
    assert(data@ =~= lut_mapped(before, channels as int, *luts));
}

/// The 16-bit linear-pipeline tables of a pipeline's two profiles.
pub open spec fn linear_u16_tables_of(t: LinearU16Tables, source: Profile, linear: Profile) -> bool {
    forall|c: int|
        0 <= c < 3 ==> {
            &&& (#[trigger] t.source_to_linear[c])@ == transform_channel_lut(source, linear, c)
            &&& t.linear_to_source[c]@ == transform_channel_lut(linear, source, c)
            &&& t.chroma_source_to_linear[c]@ == source_to_linear_table(trc(source, c as usize), code_max(14))
            &&& t.chroma_linear_to_source[c]@ == linear_to_source_table(
                reversed_tone_curve(trc(source, c as usize), REVERSED_CURVE_SAMPLES),
                code_max(14),
            )
        }
}

fn build_u16_subsampling_channel_tables(curve: &ToneCurve) -> (r: (Vec<u16>, Vec<u16>))
    ensures
        channel_tables_match(r.0@, r.1@, *curve, 14),
{
    let inverse = reverse_tone_curve(curve, REVERSED_CURVE_SAMPLES);
    (build_source_to_linear_lut(curve, 14), build_linear_to_source_lut(&inverse, 14))
}

impl ColorPipeline {
    /// The lookup tables of the 16-bit linear pipeline.
    pub fn linear_u16_tables(&self) -> (r: Result<LinearU16Tables, Error>)
        ensures
            r is Ok <==> has_all_tone_curves(self.source()) && lcms_transform_builds(
                self.source(),
                self.linear(),
                3,
                16,
            ) && lcms_transform_builds(self.linear(), self.source(), 3, 16),
            !has_all_tone_curves(self.source()) ==> (r matches Err(e) && e is Color && e.message_view()
                == missing_trc_message(first_missing_channel(self.source()))),
            r matches Ok(t) ==> t.wf() && linear_u16_tables_of(t, self.source(), self.linear()),
            r matches Err(e) ==> e is Color,
    {
        let red_curve = channel_tone_curve(&self.source_profile, 0)?;
        let red = build_u16_subsampling_channel_tables(&red_curve);
        let green_curve = channel_tone_curve(&self.source_profile, 1)?;
        let green = build_u16_subsampling_channel_tables(&green_curve);
        let blue_curve = channel_tone_curve(&self.source_profile, 2)?;
        let blue = build_u16_subsampling_channel_tables(&blue_curve);
        proof {
            assert forall|c: usize| c < 3 implies (#[trigger] profile_tone_curve(self.source(), c)) is Some by {
                if c == 0 {} else if c == 1 {} else { assert(c == 2); }
            }
        }
        let source_to_linear = build_rgb16_transform_luts(&self.source_profile, &self.linear_profile, "source->linear LUT transform")?;
        let linear_to_source = build_rgb16_transform_luts(&self.linear_profile, &self.source_profile, "linear->source LUT transform")?;
        let t = LinearU16Tables {
            source_to_linear,
            linear_to_source,
            chroma_source_to_linear: [red.0, green.0, blue.0],
            chroma_linear_to_source: [red.1, green.1, blue.1],
        };
        proof {
            vstd::arithmetic::power2::lemma2_to64();
            assert forall|c: int| 0 <= c < 3 implies {
                &&& (#[trigger] t.source_to_linear[c])@ == transform_channel_lut(self.source(), self.linear(), c)
                &&& t.linear_to_source[c]@ == transform_channel_lut(self.linear(), self.source(), c)
                &&& t.chroma_source_to_linear[c]@ == source_to_linear_table(trc(self.source(), c as usize), code_max(14))
                &&& t.chroma_linear_to_source[c]@ == linear_to_source_table(
                    reversed_tone_curve(trc(self.source(), c as usize), REVERSED_CURVE_SAMPLES),
                    code_max(14),
                )
            } by {
                if c == 0 {} else if c == 1 {} else { assert(c == 2); }
            }
        }
        Ok(t)
    }

    /// Takes 16-bit source-coded samples to linear light through the tables; samples that are
    /// already linear are left as they are, and 8-bit samples are refused.
    pub fn to_linear_u16_lut_in_place(&self, image: &mut WorkingImage, tables: &LinearU16Tables) -> (r: Result<(), Error>)
        requires
            tables.wf(),
        ensures
            old(image).color_space is LinearRgb ==> r is Ok && *final(image) == *old(image),
            old(image).color_space is Source && old(image).data.spec_is_u8() ==> (r matches Err(e)
                && e is Color && e.message_view() == "--fasthq requires the high-bit-depth decode path"@
                && *final(image) == *old(image)),
            old(image).color_space is Source && !old(image).data.spec_is_u8() ==> r is Ok
                && final(image).width == old(image).width && final(image).height == old(image).height
                && final(image).color_space is LinearRgb && match old(image).data@ {
                    SampleView::Rgb16(d) => final(image).data@ == SampleView::Rgb16(lut_mapped(d, 3, tables.source_to_linear)),
                    SampleView::Rgba16(d) => final(image).data@ == SampleView::Rgba16(lut_mapped(d, 4, tables.source_to_linear)),
                    _ => false,
                },
    {
        if image.color_space == WorkingColorSpace::LinearRgb {
            return Ok(());
        }
        proof {
            assert forall|c: int| 0 <= c < 3 implies (#[trigger] tables.source_to_linear[c])@.len() == 65536 by {}
        }
        match &mut image.data {
            WorkingData::Rgb16(data) => apply_luts(data, 3, &tables.source_to_linear),
            WorkingData::Rgba16(data) => apply_luts(data, 4, &tables.source_to_linear),
            WorkingData::Rgb8(_) | WorkingData::Rgba8(_) => {
                return Err(Error::color("--fasthq requires the high-bit-depth decode path"));
            },
        }
        image.color_space = WorkingColorSpace::LinearRgb;
        Ok(())
    }
}

} // verus!
