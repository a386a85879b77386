//! RGB to 8-bit YUV 4:2:0 with gamma-aware chroma subsampling ("SimpleYUV").
//!
//! Luma comes from each pixel directly; chroma is averaged over 2x2 blocks in linear light,
//! then taken back to the source transfer curve before the RGB to YUV matrix is applied.
use vstd::arithmetic::power2::pow2;
use vstd::prelude::*;

use crate::decode::{down16, down16_spec, WorkingColorSpace, WorkingData, WorkingImage};
use crate::cms::{
    apply_luts, first_missing_channel, has_all_tone_curves, lut_mapped, missing_trc_message,
    simpleyuv_tables_of, ColorPipeline, LinearU16Tables,
};
use crate::error::Error;

verus! {

/// Fixed-point precision of the RGB to YUV matrices.
pub const YUV_FIX: i32 = 16;

/// libwebp's RGB to Y matrix at 8-bit precision (the last entry is the offset).
pub const WEBP_RGB_TO_Y: [i32; 4] = [16839, 33059, 6420, 1048576];

/// libwebp's RGB to U matrix at 8-bit precision.
pub const WEBP_RGB_TO_U: [i32; 4] = [-9719, -19081, 28800, 8388608];

/// libwebp's RGB to V matrix at 8-bit precision.
pub const WEBP_RGB_TO_V: [i32; 4] = [28800, -24116, -4684, 8388608];

/// Planar 8-bit YUV 4:2:0 data with an optional full-resolution alpha plane.
#[derive(Debug, Clone)]
pub struct YuvPlanes {
    pub y: Vec<u8>,
    pub y_stride: usize,
    pub u: Vec<u8>,
    pub u_stride: usize,
    pub v: Vec<u8>,
    pub v_stride: usize,
    pub a: Option<Vec<u8>>,
    pub a_stride: usize,
    pub width: u32,
    pub height: u32,
}

/// Per-channel lookup tables between source-coded sample codes and 16-bit linear light.
pub struct SimpleYuvTables {
    /// 10-bit source code to linear light.
    pub source_u8_to_linear: [Vec<u16>; 3],
    /// Linear light to 10-bit source code.
    pub linear_to_source_u8: [Vec<u16>; 3],
    /// 14-bit source code to linear light.
    pub source_u16_to_linear: [Vec<u16>; 3],
    /// Linear light to 14-bit source code.
    pub linear_to_source_u16: [Vec<u16>; 3],
}

impl SimpleYuvTables {
    /// Every table covers the codes that the conversion looks up.
    pub open spec fn wf(&self) -> bool {
        &&& self.source_u8_to_linear[0]@.len() >= 1024
        &&& self.source_u8_to_linear[1]@.len() >= 1024
        &&& self.source_u8_to_linear[2]@.len() >= 1024
        &&& self.linear_to_source_u8[0]@.len() == 65536
        &&& self.linear_to_source_u8[1]@.len() == 65536
        &&& self.linear_to_source_u8[2]@.len() == 65536
        &&& self.source_u16_to_linear[0]@.len() >= 16384
        &&& self.source_u16_to_linear[1]@.len() >= 16384
        &&& self.source_u16_to_linear[2]@.len() >= 16384
        &&& self.linear_to_source_u16[0]@.len() == 65536
        &&& self.linear_to_source_u16[1]@.len() == 65536
        &&& self.linear_to_source_u16[2]@.len() == 65536
    }

}

/// 14-bit source-to-linear tables and linear-to-14-bit-source tables for the three channels.
pub open spec fn u16_tables_wf(s2l: [Vec<u16>; 3], l2s: [Vec<u16>; 3]) -> bool {
    &&& s2l[0]@.len() >= 16384
    &&& s2l[1]@.len() >= 16384
    &&& s2l[2]@.len() >= 16384
    &&& l2s[0]@.len() == 65536
    &&& l2s[1]@.len() == 65536
    &&& l2s[2]@.len() == 65536
}

// ---------------------------------------------------------------------------------------------
// Fixed-point arithmetic
// ---------------------------------------------------------------------------------------------

/// Extra fractional bits carried for RGB samples of the given bit depth.
pub open spec fn precision_shift_spec(rgb_bit_depth: int) -> int {
    if rgb_bit_depth + 2 <= 14 {
        2
    } else {
        14 - rgb_bit_depth
    }
}

/// Integer division rounding toward zero, as Rust's `/` does.
pub open spec fn trunc_div(a: int, b: int) -> int {
    if a >= 0 {
        a / b
    } else {
        -((-a) / b)
    }
}

/// A matrix coefficient rescaled from 8-bit to `rgb_bit_depth`-bit RGB.
pub open spec fn scale_coeff(c: int, rgb_bit_depth: nat) -> int {
    trunc_div(c * 255 + pow2((rgb_bit_depth - 1) as nat), pow2(rgb_bit_depth) - 1)
}

/// One output component: the fixed-point dot product, rounded and clamped to `0..=255`.
pub open spec fn component_spec(r: int, g: int, b: int, c0: int, c1: int, c2: int, c3: int, sfix: int) -> u8 {
    let shift = (YUV_FIX + sfix) as nat;
    let value = c0 * r + c1 * g + c2 * b + c3 + pow2((shift - 1) as nat);
    let q = value / (pow2(shift) as int);
    if q < 0 {
        0
    } else if q > 255 {
        255
    } else {
        q as u8
    }
}

/// One component of libwebp's 8-bit matrix `m` applied to `rgb_bit_depth`-bit RGB.
pub open spec fn matrix_component(r: int, g: int, b: int, m: [i32; 4], rgb_bit_depth: nat) -> u8 {
    let ps = precision_shift_spec(rgb_bit_depth as int);
    component_spec(
        r,
        g,
        b,
        scale_coeff(m[0] as int, rgb_bit_depth),
        scale_coeff(m[1] as int, rgb_bit_depth),
        scale_coeff(m[2] as int, rgb_bit_depth),
        m[3] * pow2(ps as nat),
        ps,
    )
}

pub open spec fn import_u8_spec(value: u8) -> u16 {
    ((value as nat) * 4) as u16
}

pub open spec fn import_u16_spec(value: u16) -> u16 {
    ((value as nat) / 4) as u16
}

pub open spec fn average_linear_spec(sum: u32) -> u16 {
    (((sum as nat) + 2) / 4) as u16
}

pub fn precision_shift(rgb_bit_depth: u8) -> (s: i32)
    ensures
        s == precision_shift_spec(rgb_bit_depth as int),
{
    if rgb_bit_depth as i32 + 2 <= 14 {
        2
    } else {
        14 - rgb_bit_depth as i32
    }
}

/// The bit depth that 16-bit samples are brought to before the matrix is applied.
pub fn effective_u16_bit_depth() -> (d: u8)
    ensures
        d == 14,
{
    (16i32 + precision_shift(16)) as u8
}

/// `value << shift` for a non-negative shift.
fn shift_i32(value: i32, shift: i32) -> (r: i32)
    requires
        0 <= shift <= 2,
        0 <= value <= 0x0100_0000,
    ensures
        r == value * pow2(shift as nat),
        0 <= r <= value * 4,
{
    proof {
        vstd::arithmetic::power2::lemma2_to64();
    }
    if shift == 0 {
        assert(pow2(shift as nat) == 1);
        value
    } else if shift == 1 {
        assert(pow2(shift as nat) == 2);
        value * 2
    } else {
        assert(shift as nat == 2);
        assert(pow2(shift as nat) == 4);
        value * 4
    }
}

/// Rescales a matrix given for 8-bit RGB to `rgb_bit_depth`-bit RGB.
pub fn scale_matrix(coeffs: &[i32; 4], rgb_bit_depth: u8) -> (m: [i32; 4])
    requires
        8 <= rgb_bit_depth <= 14,
        forall|i: int| 0 <= i < 3 ==> -0x10000 <= #[trigger] coeffs[i] <= 0x10000,
        0 <= coeffs[3] <= 0x0100_0000,
    ensures
        forall|i: int| 0 <= i < 3 ==> #[trigger] m[i] == scale_coeff(coeffs[i] as int, rgb_bit_depth as nat),
        m[3] == coeffs[3] * pow2(precision_shift_spec(rgb_bit_depth as int) as nat),
        forall|i: int| 0 <= i < 3 ==> -0x20000 <= #[trigger] m[i] <= 0x20000,
        0 <= m[3] <= 0x0400_0000,
{
    proof {
        vstd::arithmetic::power2::lemma2_to64();
        vstd::arithmetic::power2::lemma_pow2_pos(rgb_bit_depth as nat);
        vstd::arithmetic::power2::lemma_pow2_strictly_increases(rgb_bit_depth as nat, 16);
        vstd::bits::lemma_u32_shl_is_mul(1, rgb_bit_depth as u32);
    }
    let rgb_max: i64 = ((1u32 << rgb_bit_depth as u32) - 1) as i64;
    let rgb_round: i64 = (1u32 << (rgb_bit_depth - 1) as u32) as i64;
    proof {
        vstd::bits::lemma_u32_shl_is_mul(1, rgb_bit_depth as u32);
        vstd::bits::lemma_u32_shl_is_mul(1, (rgb_bit_depth - 1) as u32);
        vstd::arithmetic::power2::lemma_pow2_pos((rgb_bit_depth - 1) as nat);
        vstd::arithmetic::power2::lemma_pow2_adds((rgb_bit_depth - 1) as nat, 1);
        assert(rgb_max == pow2(rgb_bit_depth as nat) - 1);
        assert(rgb_round == pow2((rgb_bit_depth - 1) as nat));
        assert(rgb_max == 2 * rgb_round - 1);
    }
    let m0 = scale_one(coeffs[0], rgb_max, rgb_round);
    let m1 = scale_one(coeffs[1], rgb_max, rgb_round);
    let m2 = scale_one(coeffs[2], rgb_max, rgb_round);
    let m3 = shift_i32(coeffs[3], precision_shift(rgb_bit_depth));
    [m0, m1, m2, m3]
}

/// Applies one row of a fixed-point RGB to YUV matrix and clamps to an 8-bit code.
pub fn rgb_to_component_8bit(r: i32, g: i32, b: i32, coeffs: &[i32; 4], sfix: i32) -> (out: u8)
    requires
        0 <= sfix <= 2,
        -0x10000 <= r <= 0x10000,
        -0x10000 <= g <= 0x10000,
        -0x10000 <= b <= 0x10000,
        forall|i: int| 0 <= i < 3 ==> -0x20000 <= #[trigger] coeffs[i] <= 0x20000,
        0 <= coeffs[3] <= 0x0400_0000,
    ensures
        out == component_spec(
            r as int,
            g as int,
            b as int,
            coeffs[0] as int,
            coeffs[1] as int,
            coeffs[2] as int,
            coeffs[3] as int,
            sfix as int,
        ),
{
    let shift: i32 = YUV_FIX + sfix;
    proof {
        vstd::arithmetic::power2::lemma2_to64();
        vstd::bits::lemma_u64_shl_is_mul(1, shift as u64);
        vstd::bits::lemma_u64_shl_is_mul(1, (shift - 1) as u64);
        assert(pow2(shift as nat) <= 0x40000) by {
            vstd::arithmetic::power2::lemma_pow2_strictly_increases(shift as nat, 19);
        }
        assert(pow2((shift - 1) as nat) <= 0x20000) by {
            vstd::arithmetic::power2::lemma_pow2_strictly_increases((shift - 1) as nat, 18);
        }
        assert(-0x20000 * 0x10000 <= (coeffs[0] as int) * (r as int) <= 0x20000 * 0x10000) by (nonlinear_arith)
            requires
                -0x20000 <= coeffs[0] <= 0x20000,
                -0x10000 <= r <= 0x10000,
        ;
        assert(-0x20000 * 0x10000 <= (coeffs[1] as int) * (g as int) <= 0x20000 * 0x10000) by (nonlinear_arith)
            requires
                -0x20000 <= coeffs[1] <= 0x20000,
                -0x10000 <= g <= 0x10000,
        ;
        assert(-0x20000 * 0x10000 <= (coeffs[2] as int) * (b as int) <= 0x20000 * 0x10000) by (nonlinear_arith)
            requires
                -0x20000 <= coeffs[2] <= 0x20000,
                -0x10000 <= b <= 0x10000,
        ;
    }
    let rounder: i64 = (1u64 << (shift - 1) as u64) as i64;
    let divisor: i64 = (1u64 << shift as u64) as i64;
    let value: i64 = coeffs[0] as i64 * r as i64 + coeffs[1] as i64 * g as i64 + coeffs[2] as i64
        * b as i64 + coeffs[3] as i64 + rounder;
    if value < 0 {
        proof {
            let q = (value as int) / (divisor as int);
            vstd::arithmetic::div_mod::lemma_fundamental_div_mod(value as int, divisor as int);
            if q >= 0 {
                vstd::arithmetic::mul::lemma_mul_nonnegative(divisor as int, q);
            }
        }
        0
    } else {
        let q: i64 = value / divisor;
        if q > 255 {
            255
        } else {
            q as u8
        }
    }
}

/// `(c * 255 + rgb_round) / rgb_max`, rounding toward zero.
fn scale_one(c: i32, rgb_max: i64, rgb_round: i64) -> (r: i32)
    requires
        -0x10000 <= c <= 0x10000,
        128 <= rgb_round <= 8192,
        rgb_max == 2 * rgb_round - 1,
    ensures
        r == trunc_div(c * 255 + rgb_round, rgb_max as int),
        -0x20000 <= r <= 0x20000,
{
    let numer: i64 = c as i64 * 255 + rgb_round;
    if numer >= 0 {
        let q = numer / rgb_max;
        proof {
            vstd::arithmetic::div_mod::lemma_div_is_ordered_by_denominator(numer as int, 255, rgb_max as int);
            vstd::arithmetic::div_mod::lemma_div_is_ordered(numer as int, (0x10000 * 255 + 8192) as int, 255);
        }
        q as i32
    } else {
        let q = (-numer) / rgb_max;
        proof {
            vstd::arithmetic::div_mod::lemma_div_is_ordered_by_denominator(-numer as int, 255, rgb_max as int);
            vstd::arithmetic::div_mod::lemma_div_is_ordered(-numer as int, (0x10000 * 255) as int, 255);
        }
        -(q as i32)
    }
}

/// An 8-bit sample brought to 10-bit precision.
pub fn import_u8(value: u8) -> (r: u16)
    ensures
        r == import_u8_spec(value),
        r <= 1020,
{
    (value as u16) * 4
}

/// A 16-bit sample brought down to 14-bit precision.
pub fn import_u16(value: u16) -> (r: u16)
    ensures
        r == import_u16_spec(value),
        r <= 16383,
{
    value / 4
}

/// The rounded mean of four samples given their sum.
pub fn average_linear(sum: u32) -> (r: u16)
    requires
        sum <= 4 * 65535,
    ensures
        r == average_linear_spec(sum),
{
    ((sum + 2) / 4) as u16
}

/// `min(v, limit)`.
pub open spec fn clamp_to(v: int, limit: int) -> int {
    if v > limit {
        limit
    } else {
        v
    }
}

/// Sample offset of pixel `(dx, dy)` of the 2x2 block at `(bx, by)`, clamped to the image.
pub open spec fn block_index(w: int, h: int, ch: int, bx: int, by: int, dx: int, dy: int) -> int {
    (clamp_to(by + dy, h - 1) * w + clamp_to(bx + dx, w - 1)) * ch
}

/// The pixel of a 2x2 block, clamped to the image edge.
pub fn block_pixel(width: u32, height: u32, block_x: u32, block_y: u32, dx: u32, dy: u32) -> (r: (
    u32,
    u32,
))
    requires
        width >= 1,
        height >= 1,
        block_x < width,
        block_y < height,
        dx <= 1,
        dy <= 1,
    ensures
        r.0 == clamp_to(block_x + dx, width - 1),
        r.1 == clamp_to(block_y + dy, height - 1),
{
    let x = block_x.saturating_add(dx);
    let y = block_y.saturating_add(dy);
    (if x > width - 1 { width - 1 } else { x }, if y > height - 1 { height - 1 } else { y })
}

/// Geometry of an interleaved sample buffer.
#[derive(Clone, Copy)]
struct SampleLayout {
    width: u32,
    height: u32,
    channels: usize,
    color_space: WorkingColorSpace,
}

/// The buffer holds `width * height` pixels of `channels >= 3` samples, within WebP's limits.
pub open spec fn layout_ok(len: nat, width: u32, height: u32, channels: usize) -> bool {
    &&& 1 <= width <= 16383
    &&& 1 <= height <= 16383
    &&& 3 <= channels <= 4
    &&& len >= (width as nat) * (height as nat) * (channels as nat)
}

proof fn lemma_block_index_in_bounds(w: int, h: int, ch: int, len: int, bx: int, by: int, dx: int, dy: int)
    requires
        1 <= w <= 16383,
        1 <= h <= 16383,
        3 <= ch <= 4,
        len >= w * h * ch,
        0 <= bx < w,
        0 <= by < h,
        0 <= dx <= 1,
        0 <= dy <= 1,
    ensures
        0 <= block_index(w, h, ch, bx, by, dx, dy),
        block_index(w, h, ch, bx, by, dx, dy) + ch <= len,
        block_index(w, h, ch, bx, by, dx, dy) + ch <= 16383 * 16383 * 4,
{
    let px = clamp_to(bx + dx, w - 1);
    let py = clamp_to(by + dy, h - 1);
    assert(0 <= py * w + px < w * h) by (nonlinear_arith)
        requires
            0 <= px < w,
            0 <= py < h,
    ;
    assert(0 <= (py * w + px) * ch) by (nonlinear_arith)
        requires
            0 <= py * w + px,
            ch >= 0,
    ;
    assert((py * w + px) * ch + ch <= w * h * ch) by (nonlinear_arith)
        requires
            py * w + px < w * h,
            ch >= 0,
    ;
    assert(w * h * ch <= 16383 * 16383 * 4) by (nonlinear_arith)
        requires
            1 <= w <= 16383,
            1 <= h <= 16383,
            3 <= ch <= 4,
    ;
}

/// Exec form of `block_index`.
fn block_sample_index(layout: SampleLayout, block_x: u32, block_y: u32, dx: u32, dy: u32) -> (r: usize)
    requires
        1 <= layout.width <= 16383,
        1 <= layout.height <= 16383,
        3 <= layout.channels <= 4,
        block_x < layout.width,
        block_y < layout.height,
        dx <= 1,
        dy <= 1,
    ensures
        r == block_index(
            layout.width as int,
            layout.height as int,
            layout.channels as int,
            block_x as int,
            block_y as int,
            dx as int,
            dy as int,
        ),
{
    let (px, py) = block_pixel(layout.width, layout.height, block_x, block_y, dx, dy);
    proof {
        let w = layout.width as int;
        let h = layout.height as int;
        let ch = layout.channels as int;
        lemma_block_index_in_bounds(w, h, ch, w * h * ch, block_x as int, block_y as int, dx as int, dy as int);
        assert(0 <= py * w + px < w * h) by (nonlinear_arith)
            requires
                0 <= px < w,
                0 <= py < h,
        ;
        assert(w * h <= 16383 * 16383) by (nonlinear_arith)
            requires
                1 <= w <= 16383,
                1 <= h <= 16383,
        ;
    }
    let pixel = (py * layout.width + px) as usize;
    pixel * layout.channels
}

/// Linear-light value of channel `c` at sample `at` of an 8-bit source-coded buffer.
pub open spec fn source8_to_linear(image: Seq<u8>, at: int, s2l: Seq<u16>) -> int {
    s2l[import_u8_spec(image[at]) as int] as int
}

/// Linear-light value at sample `at` of a 16-bit source-coded buffer.
pub open spec fn source16_to_linear(image: Seq<u16>, at: int, s2l: Seq<u16>) -> int {
    s2l[import_u16_spec(image[at]) as int] as int
}

/// Sum of `f` over the four pixels of a 2x2 block (channel offset `c`).
pub open spec fn block_sum(w: int, h: int, ch: int, bx: int, by: int, c: int, f: spec_fn(int) -> int) -> int {
    f(block_index(w, h, ch, bx, by, 0, 0) + c) + f(block_index(w, h, ch, bx, by, 1, 0) + c) + f(
        block_index(w, h, ch, bx, by, 0, 1) + c,
    ) + f(block_index(w, h, ch, bx, by, 1, 1) + c)
}

/// Channel `c` of the chroma sample of the 2x2 block at `(bx, by)` of an 8-bit buffer.
pub open spec fn block_rgb8_spec(
    image: Seq<u8>,
    w: int,
    h: int,
    ch: int,
    color_space: WorkingColorSpace,
    bx: int,
    by: int,
    s2l: Seq<u16>,
    l2s: Seq<u16>,
    c: int,
) -> int {
    match color_space {
        WorkingColorSpace::Source => l2s[average_linear_spec(
            block_sum(w, h, ch, bx, by, c, |at: int| source8_to_linear(image, at, s2l)) as u32,
        ) as int] as int,
        WorkingColorSpace::LinearRgb => average_linear_spec(
            block_sum(w, h, ch, bx, by, c, |at: int| import_u8_spec(image[at]) as int) as u32,
        ) as int,
    }
}

/// Channel `c` of the chroma sample of the 2x2 block at `(bx, by)` of a 16-bit buffer.
pub open spec fn block_rgb16_spec(
    image: Seq<u16>,
    w: int,
    h: int,
    ch: int,
    color_space: WorkingColorSpace,
    bx: int,
    by: int,
    s2l: Seq<u16>,
    l2s: Seq<u16>,
    c: int,
) -> int {
    match color_space {
        WorkingColorSpace::Source => l2s[average_linear_spec(
            block_sum(w, h, ch, bx, by, c, |at: int| source16_to_linear(image, at, s2l)) as u32,
        ) as int] as int,
        WorkingColorSpace::LinearRgb => average_linear_spec(
            block_sum(w, h, ch, bx, by, c, |at: int| import_u16_spec(image[at]) as int) as u32,
        ) as int,
    }
}

/// Averages one channel of a 2x2 block of an 8-bit buffer in linear light.
fn block_channel_u8(
    image: &[u8],
    layout: SampleLayout,
    block_x: u32,
    block_y: u32,
    c: usize,
    s2l: &Vec<u16>,
    l2s: &Vec<u16>,
) -> (r: u16)
    requires
        layout_ok(image@.len(), layout.width, layout.height, layout.channels),
        block_x < layout.width,
        block_y < layout.height,
        c < 3,
        s2l@.len() >= 1024,
        l2s@.len() == 65536,
    ensures
        r == block_rgb8_spec(
            image@,
            layout.width as int,
            layout.height as int,
            layout.channels as int,
            layout.color_space,
            block_x as int,
            block_y as int,
            s2l@,
            l2s@,
            c as int,
        ),
{
    let ghost w = layout.width as int;
    let ghost h = layout.height as int;
    let ghost ch = layout.channels as int;
    proof {
        lemma_block_index_in_bounds(w, h, ch, image@.len() as int, block_x as int, block_y as int, 0, 0);
        lemma_block_index_in_bounds(w, h, ch, image@.len() as int, block_x as int, block_y as int, 1, 0);
        lemma_block_index_in_bounds(w, h, ch, image@.len() as int, block_x as int, block_y as int, 0, 1);
        lemma_block_index_in_bounds(w, h, ch, image@.len() as int, block_x as int, block_y as int, 1, 1);
    }
    let i00 = block_sample_index(layout, block_x, block_y, 0, 0) + c;
    let i10 = block_sample_index(layout, block_x, block_y, 1, 0) + c;
    let i01 = block_sample_index(layout, block_x, block_y, 0, 1) + c;
    let i11 = block_sample_index(layout, block_x, block_y, 1, 1) + c;
    match layout.color_space {
        WorkingColorSpace::Source => {
            let sum: u32 = s2l[import_u8(image[i00]) as usize] as u32 + s2l[import_u8(image[i10]) as usize] as u32
                + s2l[import_u8(image[i01]) as usize] as u32 + s2l[import_u8(image[i11]) as usize] as u32;
            let avg = average_linear(sum);
            l2s[avg as usize]
        },
        WorkingColorSpace::LinearRgb => {
            let sum: u32 = import_u8(image[i00]) as u32 + import_u8(image[i10]) as u32 + import_u8(
                image[i01],
            ) as u32 + import_u8(image[i11]) as u32;
            average_linear(sum)
        },
    }
}

/// Averages one channel of a 2x2 block of a 16-bit buffer in linear light.
fn block_channel_u16(
    image: &[u16],
    layout: SampleLayout,
    block_x: u32,
    block_y: u32,
    c: usize,
    s2l: &Vec<u16>,
    l2s: &Vec<u16>,
) -> (r: u16)
    requires
        layout_ok(image@.len(), layout.width, layout.height, layout.channels),
        block_x < layout.width,
        block_y < layout.height,
        c < 3,
        s2l@.len() >= 16384,
        l2s@.len() == 65536,
    ensures
        r == block_rgb16_spec(
            image@,
            layout.width as int,
            layout.height as int,
            layout.channels as int,
            layout.color_space,
            block_x as int,
            block_y as int,
            s2l@,
            l2s@,
            c as int,
        ),
{
    let ghost w = layout.width as int;
    let ghost h = layout.height as int;
    let ghost ch = layout.channels as int;
    proof {
        lemma_block_index_in_bounds(w, h, ch, image@.len() as int, block_x as int, block_y as int, 0, 0);
        lemma_block_index_in_bounds(w, h, ch, image@.len() as int, block_x as int, block_y as int, 1, 0);
        lemma_block_index_in_bounds(w, h, ch, image@.len() as int, block_x as int, block_y as int, 0, 1);
        lemma_block_index_in_bounds(w, h, ch, image@.len() as int, block_x as int, block_y as int, 1, 1);
    }
    let i00 = block_sample_index(layout, block_x, block_y, 0, 0) + c;
    let i10 = block_sample_index(layout, block_x, block_y, 1, 0) + c;
    let i01 = block_sample_index(layout, block_x, block_y, 0, 1) + c;
    let i11 = block_sample_index(layout, block_x, block_y, 1, 1) + c;
    match layout.color_space {
        WorkingColorSpace::Source => {
            let sum: u32 = s2l[import_u16(image[i00]) as usize] as u32 + s2l[import_u16(image[i10]) as usize] as u32
                + s2l[import_u16(image[i01]) as usize] as u32 + s2l[import_u16(image[i11]) as usize] as u32;
            let avg = average_linear(sum);
            l2s[avg as usize]
        },
        WorkingColorSpace::LinearRgb => {
            let sum: u32 = import_u16(image[i00]) as u32 + import_u16(image[i10]) as u32 + import_u16(
                image[i01],
            ) as u32 + import_u16(image[i11]) as u32;
            average_linear(sum)
        },
    }
}

/// Luma of pixel `i` of an 8-bit buffer.
pub open spec fn luma8_spec(image: Seq<u8>, ch: int, i: int) -> u8 {
    matrix_component(
        import_u8_spec(image[i * ch]) as int,
        import_u8_spec(image[i * ch + 1]) as int,
        import_u8_spec(image[i * ch + 2]) as int,
        WEBP_RGB_TO_Y,
        8,
    )
}

/// Luma of pixel `i` of a 16-bit buffer.
pub open spec fn luma16_spec(image: Seq<u16>, ch: int, i: int) -> u8 {
    matrix_component(
        import_u16_spec(image[i * ch]) as int,
        import_u16_spec(image[i * ch + 1]) as int,
        import_u16_spec(image[i * ch + 2]) as int,
        WEBP_RGB_TO_Y,
        14,
    )
}

/// Width of the chroma planes.
pub open spec fn uv_width_spec(width: u32) -> int {
    (width as int + 1) / 2
}

/// Height of the chroma planes.
pub open spec fn uv_height_spec(height: u32) -> int {
    (height as int + 1) / 2
}

/// Chroma component (matrix `m`) of chroma sample `i` of an 8-bit buffer.
pub open spec fn chroma8_spec(
    image: Seq<u8>,
    width: u32,
    height: u32,
    ch: int,
    color_space: WorkingColorSpace,
    tables: SimpleYuvTables,
    m: [i32; 4],
    i: int,
) -> u8 {
    let uvw = uv_width_spec(width);
    let bx = (i % uvw) * 2;
    let by = (i / uvw) * 2;
    matrix_component(
        block_rgb8_spec(image, width as int, height as int, ch, color_space, bx, by, tables.source_u8_to_linear[0]@, tables.linear_to_source_u8[0]@, 0),
        block_rgb8_spec(image, width as int, height as int, ch, color_space, bx, by, tables.source_u8_to_linear[1]@, tables.linear_to_source_u8[1]@, 1),
        block_rgb8_spec(image, width as int, height as int, ch, color_space, bx, by, tables.source_u8_to_linear[2]@, tables.linear_to_source_u8[2]@, 2),
        m,
        8,
    )
}

/// Chroma component (matrix `m`) of chroma sample `i` of a 16-bit buffer.
pub open spec fn chroma16_spec(
    image: Seq<u16>,
    width: u32,
    height: u32,
    ch: int,
    color_space: WorkingColorSpace,
    s2l: [Vec<u16>; 3],
    l2s: [Vec<u16>; 3],
    m: [i32; 4],
    i: int,
) -> u8 {
    let uvw = uv_width_spec(width);
    let bx = (i % uvw) * 2;
    let by = (i / uvw) * 2;
    matrix_component(
        block_rgb16_spec(image, width as int, height as int, ch, color_space, bx, by, s2l[0]@, l2s[0]@, 0),
        block_rgb16_spec(image, width as int, height as int, ch, color_space, bx, by, s2l[1]@, l2s[1]@, 1),
        block_rgb16_spec(image, width as int, height as int, ch, color_space, bx, by, s2l[2]@, l2s[2]@, 2),
        m,
        14,
    )
}

proof fn lemma_pixel_sample_in_bounds(i: int, n: int, ch: int, len: int)
    requires
        0 <= i < n,
        3 <= ch <= 4,
        len >= n * ch,
    ensures
        0 <= i * ch,
        i * ch + ch <= len,
{
    assert(i * ch + ch <= n * ch) by (nonlinear_arith)
        requires
            i < n,
            ch >= 0,
    ;
    assert(0 <= i * ch) by (nonlinear_arith)
        requires
            i >= 0,
            ch >= 0,
    ;
}

/// The alpha plane of an 8-bit buffer of `n` pixels: the last channel of each pixel.
pub fn alpha_plane_u8(image: &[u8], channels: usize, n: usize) -> (alpha: Vec<u8>)
    requires
        3 <= channels <= 4,
        image@.len() >= n * channels,
    ensures
        alpha@.len() == n,
        forall|j: int| 0 <= j < n ==> #[trigger] alpha@[j] == image@[j * channels + channels - 1],
{
    let len = image.len();
    let mut alpha: Vec<u8> = Vec::new();
    let mut i: usize = 0;
    while i < n
        invariant
            len == image@.len(),
            3 <= channels <= 4,
            image@.len() >= n * channels,
            0 <= i <= n,
            alpha@.len() == i,
            forall|j: int| 0 <= j < i ==> #[trigger] alpha@[j] == image@[j * channels + channels - 1],
        decreases n - i,
    {
        proof {
            lemma_pixel_sample_in_bounds(i as int, n as int, channels as int, image@.len() as int);
        }
        let at = i * channels + channels - 1;
        alpha.push(image[at]);
        i += 1;
    }
    alpha
}

/// The alpha plane of a 16-bit buffer of `n` pixels, narrowed to 8 bits.
pub fn alpha_plane_u16(image: &[u16], channels: usize, n: usize) -> (alpha: Vec<u8>)
    requires
        3 <= channels <= 4,
        image@.len() >= n * channels,
    ensures
        alpha@.len() == n,
        forall|j: int| 0 <= j < n ==> #[trigger] alpha@[j] == down16_spec(image@[j * channels + channels - 1]),
{
    let len = image.len();
    let mut alpha: Vec<u8> = Vec::new();
    let mut i: usize = 0;
    while i < n
        invariant
            len == image@.len(),
            3 <= channels <= 4,
            image@.len() >= n * channels,
            0 <= i <= n,
            alpha@.len() == i,
            forall|j: int| 0 <= j < i ==> #[trigger] alpha@[j] == down16_spec(image@[j * channels + channels - 1]),
        decreases n - i,
    {
        proof {
            lemma_pixel_sample_in_bounds(i as int, n as int, channels as int, image@.len() as int);
        }
        let at = i * channels + channels - 1;
        alpha.push(down16(image[at]));
        i += 1;
    }
    alpha
}

/// Luma plane of an 8-bit buffer of `n` pixels.
fn fill_y_plane_u8(image: &[u8], channels: usize, n: usize) -> (y: Vec<u8>)
    requires
        3 <= channels <= 4,
        image@.len() >= n * channels,
    ensures
        y@.len() == n,
        forall|i: int| 0 <= i < n ==> #[trigger] y@[i] == luma8_spec(image@, channels as int, i),
{
    let sfix = precision_shift(8);
    let coeffs = scale_matrix(&WEBP_RGB_TO_Y, 8);
    let len = image.len();
    let mut y: Vec<u8> = Vec::new();
    let mut i: usize = 0;
    while i < n
        invariant
            len == image@.len(),
            3 <= channels <= 4,
            image@.len() >= n * channels,
            sfix == precision_shift_spec(8),
            forall|k: int| 0 <= k < 3 ==> #[trigger] coeffs[k] == scale_coeff(WEBP_RGB_TO_Y[k] as int, 8),
            forall|k: int| 0 <= k < 3 ==> -0x20000 <= #[trigger] coeffs[k] <= 0x20000,
            coeffs[3] == WEBP_RGB_TO_Y[3] * pow2(precision_shift_spec(8) as nat),
            0 <= coeffs[3] <= 0x0400_0000,
            0 <= i <= n,
            y@.len() == i,
            forall|j: int| 0 <= j < i ==> #[trigger] y@[j] == luma8_spec(image@, channels as int, j),
        decreases n - i,
    {
        proof {
            lemma_pixel_sample_in_bounds(i as int, n as int, channels as int, image@.len() as int);
        }
        let at = i * channels;
        let value = rgb_to_component_8bit(
            import_u8(image[at]) as i32,
            import_u8(image[at + 1]) as i32,
            import_u8(image[at + 2]) as i32,
            &coeffs,
            sfix,
        );
        y.push(value);
        i += 1;
    }
    y
}

/// Luma plane of a 16-bit buffer of `n` pixels.
fn fill_y_plane_u16(image: &[u16], channels: usize, n: usize) -> (y: Vec<u8>)
    requires
        3 <= channels <= 4,
        image@.len() >= n * channels,
    ensures
        y@.len() == n,
        forall|i: int| 0 <= i < n ==> #[trigger] y@[i] == luma16_spec(image@, channels as int, i),
{
    let bit_depth = effective_u16_bit_depth();
    let sfix = precision_shift(bit_depth);
    let coeffs = scale_matrix(&WEBP_RGB_TO_Y, bit_depth);
    let len = image.len();
    let mut y: Vec<u8> = Vec::new();
    let mut i: usize = 0;
    while i < n
        invariant
            len == image@.len(),
            3 <= channels <= 4,
            image@.len() >= n * channels,
            bit_depth == 14,
            sfix == precision_shift_spec(14),
            forall|k: int| 0 <= k < 3 ==> #[trigger] coeffs[k] == scale_coeff(WEBP_RGB_TO_Y[k] as int, 14),
            forall|k: int| 0 <= k < 3 ==> -0x20000 <= #[trigger] coeffs[k] <= 0x20000,
            coeffs[3] == WEBP_RGB_TO_Y[3] * pow2(precision_shift_spec(14) as nat),
            0 <= coeffs[3] <= 0x0400_0000,
            0 <= i <= n,
            y@.len() == i,
            forall|j: int| 0 <= j < i ==> #[trigger] y@[j] == luma16_spec(image@, channels as int, j),
        decreases n - i,
    {
        proof {
            lemma_pixel_sample_in_bounds(i as int, n as int, channels as int, image@.len() as int);
        }
        let at = i * channels;
        let value = rgb_to_component_8bit(
            import_u16(image[at]) as i32,
            import_u16(image[at + 1]) as i32,
            import_u16(image[at + 2]) as i32,
            &coeffs,
            sfix,
        );
        y.push(value);
        i += 1;
    }
    y
}

proof fn lemma_block_origin_in_image(i: int, uvw: int, uvh: int, w: int, h: int)
    requires
        1 <= w,
        1 <= h,
        uvw == (w + 1) / 2,
        uvh == (h + 1) / 2,
        0 <= i < uvw * uvh,
    ensures
        0 <= (i % uvw) * 2 < w,
        0 <= (i / uvw) * 2 < h,
        i / uvw < uvh,
{
    assert(uvw >= 1);
    let q = i / uvw;
    vstd::arithmetic::div_mod::lemma_fundamental_div_mod(i, uvw);
    vstd::arithmetic::div_mod::lemma_div_pos_is_pos(i, uvw);
    if q >= uvh {
        vstd::arithmetic::mul::lemma_mul_inequality(uvh, q, uvw);
        vstd::arithmetic::mul::lemma_mul_is_commutative(uvh, uvw);
        vstd::arithmetic::mul::lemma_mul_is_commutative(q, uvw);
    }
}

/// Chroma planes of a 8-bit buffer.
fn fill_uv_plane_u8(image: &[u8], layout: SampleLayout, tables: &SimpleYuvTables) -> (r: (Vec<u8>, Vec<u8>))
    requires
        layout_ok(image@.len(), layout.width, layout.height, layout.channels),
        tables.wf(),
    ensures
        r.0@.len() == uv_width_spec(layout.width) * uv_height_spec(layout.height),
        r.1@.len() == uv_width_spec(layout.width) * uv_height_spec(layout.height),
        forall|i: int|
            0 <= i < r.0@.len() ==> #[trigger] r.0@[i] == chroma8_spec(
                image@,
                layout.width,
                layout.height,
                layout.channels as int,
                layout.color_space,
                *tables,
                WEBP_RGB_TO_U,
                i,
            ),
        forall|i: int|
            0 <= i < r.1@.len() ==> #[trigger] r.1@[i] == chroma8_spec(
                image@,
                layout.width,
                layout.height,
                layout.channels as int,
                layout.color_space,
                *tables,
                WEBP_RGB_TO_V,
                i,
            ),
{
    let bit_depth: u8 = 8;
    let sfix = precision_shift(bit_depth);
    let uv_width = ((layout.width as usize) + 1) / 2;
    let uv_height = ((layout.height as usize) + 1) / 2;
    proof {
        assert(uv_width * uv_height <= 8192 * 8192) by (nonlinear_arith)
            requires
                uv_width <= 8192,
                uv_height <= 8192,
        ;
    }
    let n = uv_width * uv_height;
    let u_coeffs = scale_matrix(&WEBP_RGB_TO_U, bit_depth);
    let v_coeffs = scale_matrix(&WEBP_RGB_TO_V, bit_depth);
    let mut u: Vec<u8> = Vec::new();
    let mut v: Vec<u8> = Vec::new();
    let mut idx: usize = 0;
    proof {
        assert(tables.source_u8_to_linear[0]@.len() >= 1024);
        assert(tables.source_u8_to_linear[1]@.len() >= 1024);
        assert(tables.source_u8_to_linear[2]@.len() >= 1024);
    }
    while idx < n
        invariant
            layout_ok(image@.len(), layout.width, layout.height, layout.channels),
            tables.wf(),
            bit_depth == 8,
            sfix == precision_shift_spec(8),
            uv_width == uv_width_spec(layout.width),
            uv_height == uv_height_spec(layout.height),
            n == uv_width * uv_height,
            forall|k: int| 0 <= k < 3 ==> #[trigger] u_coeffs[k] == scale_coeff(WEBP_RGB_TO_U[k] as int, 8),
            forall|k: int| 0 <= k < 3 ==> -0x20000 <= #[trigger] u_coeffs[k] <= 0x20000,
            u_coeffs[3] == WEBP_RGB_TO_U[3] * pow2(precision_shift_spec(8) as nat),
            0 <= u_coeffs[3] <= 0x0400_0000,
            forall|k: int| 0 <= k < 3 ==> #[trigger] v_coeffs[k] == scale_coeff(WEBP_RGB_TO_V[k] as int, 8),
            forall|k: int| 0 <= k < 3 ==> -0x20000 <= #[trigger] v_coeffs[k] <= 0x20000,
            v_coeffs[3] == WEBP_RGB_TO_V[3] * pow2(precision_shift_spec(8) as nat),
            0 <= v_coeffs[3] <= 0x0400_0000,
            tables.source_u8_to_linear[0]@.len() >= 1024,
            tables.source_u8_to_linear[1]@.len() >= 1024,
            tables.source_u8_to_linear[2]@.len() >= 1024,
            tables.linear_to_source_u8[0]@.len() == 65536,
            tables.linear_to_source_u8[1]@.len() == 65536,
            tables.linear_to_source_u8[2]@.len() == 65536,
            0 <= idx <= n,
            u@.len() == idx,
            v@.len() == idx,
            forall|i: int|
                0 <= i < idx ==> #[trigger] u@[i] == chroma8_spec(
                    image@,
                    layout.width,
                    layout.height,
                    layout.channels as int,
                    layout.color_space,
                    *tables,
                    WEBP_RGB_TO_U,
                    i,
                ),
            forall|i: int|
                0 <= i < idx ==> #[trigger] v@[i] == chroma8_spec(
                    image@,
                    layout.width,
                    layout.height,
                    layout.channels as int,
                    layout.color_space,
                    *tables,
                    WEBP_RGB_TO_V,
                    i,
                ),
        decreases n - idx,
    {
        proof {
            lemma_block_origin_in_image(idx as int, uv_width as int, uv_height as int, layout.width as int, layout.height as int);
        }
        let block_x = ((idx % uv_width) * 2) as u32;
        let block_y = ((idx / uv_width) * 2) as u32;
        let r = block_channel_u8(image, layout, block_x, block_y, 0, &tables.source_u8_to_linear[0], &tables.linear_to_source_u8[0]);
        let g = block_channel_u8(image, layout, block_x, block_y, 1, &tables.source_u8_to_linear[1], &tables.linear_to_source_u8[1]);
        let b = block_channel_u8(image, layout, block_x, block_y, 2, &tables.source_u8_to_linear[2], &tables.linear_to_source_u8[2]);
        u.push(rgb_to_component_8bit(r as i32, g as i32, b as i32, &u_coeffs, sfix));
        v.push(rgb_to_component_8bit(r as i32, g as i32, b as i32, &v_coeffs, sfix));
        idx += 1;
    }
    (u, v)
}

/// Chroma planes of a 16-bit buffer.
fn fill_uv_plane_u16(
    image: &[u16],
    layout: SampleLayout,
    s2l: &[Vec<u16>; 3],
    l2s: &[Vec<u16>; 3],
) -> (r: (Vec<u8>, Vec<u8>))
    requires
        layout_ok(image@.len(), layout.width, layout.height, layout.channels),
        u16_tables_wf(*s2l, *l2s),
    ensures
        r.0@.len() == uv_width_spec(layout.width) * uv_height_spec(layout.height),
        r.1@.len() == uv_width_spec(layout.width) * uv_height_spec(layout.height),
        forall|i: int|
            0 <= i < r.0@.len() ==> #[trigger] r.0@[i] == chroma16_spec(
                image@,
                layout.width,
                layout.height,
                layout.channels as int,
                layout.color_space,
                *s2l,
                    *l2s,
                WEBP_RGB_TO_U,
                i,
            ),
        forall|i: int|
            0 <= i < r.1@.len() ==> #[trigger] r.1@[i] == chroma16_spec(
                image@,
                layout.width,
                layout.height,
                layout.channels as int,
                layout.color_space,
                *s2l,
                    *l2s,
                WEBP_RGB_TO_V,
                i,
            ),
{
    let bit_depth: u8 = 14;
    let sfix = precision_shift(bit_depth);
    let uv_width = ((layout.width as usize) + 1) / 2;
    let uv_height = ((layout.height as usize) + 1) / 2;
    proof {
        assert(uv_width * uv_height <= 8192 * 8192) by (nonlinear_arith)
            requires
                uv_width <= 8192,
                uv_height <= 8192,
        ;
    }
    let n = uv_width * uv_height;
    let u_coeffs = scale_matrix(&WEBP_RGB_TO_U, bit_depth);
    let v_coeffs = scale_matrix(&WEBP_RGB_TO_V, bit_depth);
    let mut u: Vec<u8> = Vec::new();
    let mut v: Vec<u8> = Vec::new();
    let mut idx: usize = 0;
    proof {
        assert(s2l[0]@.len() >= 16384);
        assert(s2l[1]@.len() >= 16384);
        assert(s2l[2]@.len() >= 16384);
    }
    while idx < n
        invariant
            layout_ok(image@.len(), layout.width, layout.height, layout.channels),
            u16_tables_wf(*s2l, *l2s),
            bit_depth == 14,
            sfix == precision_shift_spec(14),
            uv_width == uv_width_spec(layout.width),
            uv_height == uv_height_spec(layout.height),
            n == uv_width * uv_height,
            forall|k: int| 0 <= k < 3 ==> #[trigger] u_coeffs[k] == scale_coeff(WEBP_RGB_TO_U[k] as int, 14),
            forall|k: int| 0 <= k < 3 ==> -0x20000 <= #[trigger] u_coeffs[k] <= 0x20000,
            u_coeffs[3] == WEBP_RGB_TO_U[3] * pow2(precision_shift_spec(14) as nat),
            0 <= u_coeffs[3] <= 0x0400_0000,
            forall|k: int| 0 <= k < 3 ==> #[trigger] v_coeffs[k] == scale_coeff(WEBP_RGB_TO_V[k] as int, 14),
            forall|k: int| 0 <= k < 3 ==> -0x20000 <= #[trigger] v_coeffs[k] <= 0x20000,
            v_coeffs[3] == WEBP_RGB_TO_V[3] * pow2(precision_shift_spec(14) as nat),
            0 <= v_coeffs[3] <= 0x0400_0000,
            s2l[0]@.len() >= 16384,
            s2l[1]@.len() >= 16384,
            s2l[2]@.len() >= 16384,
            l2s[0]@.len() == 65536,
            l2s[1]@.len() == 65536,
            l2s[2]@.len() == 65536,
            0 <= idx <= n,
            u@.len() == idx,
            v@.len() == idx,
            forall|i: int|
                0 <= i < idx ==> #[trigger] u@[i] == chroma16_spec(
                    image@,
                    layout.width,
                    layout.height,
                    layout.channels as int,
                    layout.color_space,
                    *s2l,
                    *l2s,
                    WEBP_RGB_TO_U,
                    i,
                ),
            forall|i: int|
                0 <= i < idx ==> #[trigger] v@[i] == chroma16_spec(
                    image@,
                    layout.width,
                    layout.height,
                    layout.channels as int,
                    layout.color_space,
                    *s2l,
                    *l2s,
                    WEBP_RGB_TO_V,
                    i,
                ),
        decreases n - idx,
    {
        proof {
            lemma_block_origin_in_image(idx as int, uv_width as int, uv_height as int, layout.width as int, layout.height as int);
        }
        let block_x = ((idx % uv_width) * 2) as u32;
        let block_y = ((idx / uv_width) * 2) as u32;
        let r = block_channel_u16(image, layout, block_x, block_y, 0, &s2l[0], &l2s[0]);
        let g = block_channel_u16(image, layout, block_x, block_y, 1, &s2l[1], &l2s[1]);
        let b = block_channel_u16(image, layout, block_x, block_y, 2, &s2l[2], &l2s[2]);
        u.push(rgb_to_component_8bit(r as i32, g as i32, b as i32, &u_coeffs, sfix));
        v.push(rgb_to_component_8bit(r as i32, g as i32, b as i32, &v_coeffs, sfix));
        idx += 1;
    }
    (u, v)
}

/// The planes that SimpleYUV produces for a 8-bit buffer.
pub open spec fn yuv_planes8_spec(
    p: YuvPlanes,
    image: Seq<u8>,
    width: u32,
    height: u32,
    color_space: WorkingColorSpace,
    tables: SimpleYuvTables,
    channels: usize,
    with_alpha: bool,
) -> bool {
    let n = (width as int) * (height as int);
    let ch = channels as int;
    &&& p.width == width
    &&& p.height == height
    &&& p.y_stride == width
    &&& p.u_stride == uv_width_spec(width)
    &&& p.v_stride == uv_width_spec(width)
    &&& p.a_stride == width
    &&& p.y@.len() == n
    &&& forall|i: int| 0 <= i < n ==> #[trigger] p.y@[i] == luma8_spec(image, ch, i)
    &&& p.u@.len() == uv_width_spec(width) * uv_height_spec(height)
    &&& p.v@.len() == uv_width_spec(width) * uv_height_spec(height)
    &&& forall|i: int|
        0 <= i < p.u@.len() ==> #[trigger] p.u@[i] == chroma8_spec(
            image,
            width,
            height,
            ch,
            color_space,
            tables,
            WEBP_RGB_TO_U,
            i,
        )
    &&& forall|i: int|
        0 <= i < p.v@.len() ==> #[trigger] p.v@[i] == chroma8_spec(
            image,
            width,
            height,
            ch,
            color_space,
            tables,
            WEBP_RGB_TO_V,
            i,
        )
    &&& with_alpha ==> (p.a matches Some(a) && a@.len() == n && forall|i: int|
        0 <= i < n ==> #[trigger] a@[i] == (image[i * ch + ch - 1]))
    &&& !with_alpha ==> p.a is None
}

/// Converts 8-bit RGB(A) samples to YUV 4:2:0 with linear-light chroma averaging.
pub fn samples8_to_yuv420(
    image: &[u8],
    width: u32,
    height: u32,
    color_space: WorkingColorSpace,
    tables: &SimpleYuvTables,
    channels: usize,
    with_alpha: bool,
) -> (r: Result<YuvPlanes, Error>)
    requires
        layout_ok(image@.len(), width, height, channels),
        tables.wf(),
    ensures
        r matches Ok(p) && yuv_planes8_spec(p, image@, width, height, color_space, *tables, channels, with_alpha),
{
    let layout = SampleLayout { width, height, channels, color_space };
    proof {
        assert((width as int) * (height as int) <= 16383 * 16383) by (nonlinear_arith)
            requires
                1 <= width <= 16383,
                1 <= height <= 16383,
        ;
        assert((width as int) * (height as int) * (channels as int) <= image@.len());
    }
    let n = (width as usize) * (height as usize);
    let y = fill_y_plane_u8(image, channels, n);
    let (u, v) = fill_uv_plane_u8(image, layout, tables);
    let a = if with_alpha {
        Some(alpha_plane_u8(image, channels, n))
    } else {
        None
    };
    let uv_width = ((width as usize) + 1) / 2;
    Ok(YuvPlanes {
        y,
        y_stride: width as usize,
        u,
        u_stride: uv_width,
        v,
        v_stride: uv_width,
        a,
        a_stride: width as usize,
        width,
        height,
    })
}

/// The planes that SimpleYUV produces for a 16-bit buffer.
pub open spec fn yuv_planes16_spec(
    p: YuvPlanes,
    image: Seq<u16>,
    width: u32,
    height: u32,
    color_space: WorkingColorSpace,
    s2l: [Vec<u16>; 3],
    l2s: [Vec<u16>; 3],
    channels: usize,
    with_alpha: bool,
) -> bool {
    let n = (width as int) * (height as int);
    let ch = channels as int;
    &&& p.width == width
    &&& p.height == height
    &&& p.y_stride == width
    &&& p.u_stride == uv_width_spec(width)
    &&& p.v_stride == uv_width_spec(width)
    &&& p.a_stride == width
    &&& p.y@.len() == n
    &&& forall|i: int| 0 <= i < n ==> #[trigger] p.y@[i] == luma16_spec(image, ch, i)
    &&& p.u@.len() == uv_width_spec(width) * uv_height_spec(height)
    &&& p.v@.len() == uv_width_spec(width) * uv_height_spec(height)
    &&& forall|i: int|
        0 <= i < p.u@.len() ==> #[trigger] p.u@[i] == chroma16_spec(
            image,
            width,
            height,
            ch,
            color_space,
            s2l,
            l2s,
            WEBP_RGB_TO_U,
            i,
        )
    &&& forall|i: int|
        0 <= i < p.v@.len() ==> #[trigger] p.v@[i] == chroma16_spec(
            image,
            width,
            height,
            ch,
            color_space,
            s2l,
            l2s,
            WEBP_RGB_TO_V,
            i,
        )
    &&& with_alpha ==> (p.a matches Some(a) && a@.len() == n && forall|i: int|
        0 <= i < n ==> #[trigger] a@[i] == down16_spec(image[i * ch + ch - 1]))
    &&& !with_alpha ==> p.a is None
}

/// Converts 16-bit RGB(A) samples to YUV 4:2:0 with linear-light chroma averaging.
pub fn samples16_to_yuv420(
    image: &[u16],
    width: u32,
    height: u32,
    color_space: WorkingColorSpace,
    s2l: &[Vec<u16>; 3],
    l2s: &[Vec<u16>; 3],
    channels: usize,
    with_alpha: bool,
) -> (r: Result<YuvPlanes, Error>)
    requires
        layout_ok(image@.len(), width, height, channels),
        u16_tables_wf(*s2l, *l2s),
    ensures
        r matches Ok(p) && yuv_planes16_spec(p, image@, width, height, color_space, *s2l, *l2s, channels, with_alpha),
{
    let layout = SampleLayout { width, height, channels, color_space };
    proof {
        assert((width as int) * (height as int) <= 16383 * 16383) by (nonlinear_arith)
            requires
                1 <= width <= 16383,
                1 <= height <= 16383,
        ;
        assert((width as int) * (height as int) * (channels as int) <= image@.len());
    }
    let n = (width as usize) * (height as usize);
    let y = fill_y_plane_u16(image, channels, n);
    let (u, v) = fill_uv_plane_u16(image, layout, s2l, l2s);
    let a = if with_alpha {
        Some(alpha_plane_u16(image, channels, n))
    } else {
        None
    };
    let uv_width = ((width as usize) + 1) / 2;
    Ok(YuvPlanes {
        y,
        y_stride: width as usize,
        u,
        u_stride: uv_width,
        v,
        v_stride: uv_width,
        a,
        a_stride: width as usize,
        width,
        height,
    })
}

/// The planes that SimpleYUV produces for a working image.
pub open spec fn working_image_yuv_spec(p: YuvPlanes, image: WorkingImage, tables: SimpleYuvTables) -> bool {
    match image.data@ {
        crate::decode::SampleView::Rgb8(d) => yuv_planes8_spec(p, d, image.width, image.height, image.color_space, tables, 3, false),
        crate::decode::SampleView::Rgba8(d) => yuv_planes8_spec(p, d, image.width, image.height, image.color_space, tables, 4, true),
        crate::decode::SampleView::Rgb16(d) => yuv_planes16_spec(p, d, image.width, image.height, image.color_space, tables.source_u16_to_linear, tables.linear_to_source_u16, 3, false),
        crate::decode::SampleView::Rgba16(d) => yuv_planes16_spec(p, d, image.width, image.height, image.color_space, tables.source_u16_to_linear, tables.linear_to_source_u16, 4, true),
    }
}

/// Converts a working image to YUV 4:2:0 with the SimpleYUV method and the given tables.
pub fn working_image_to_yuv420_with_tables(image: &WorkingImage, tables: &SimpleYuvTables) -> (r: Result<YuvPlanes, Error>)
    requires
        image.covers_pixels(),
        1 <= image.width <= 16383,
        1 <= image.height <= 16383,
        tables.wf(),
    ensures
        r matches Ok(p) && working_image_yuv_spec(p, *image, *tables),
{
    match &image.data {
        WorkingData::Rgb8(data) => samples8_to_yuv420(data.as_slice(), image.width, image.height, image.color_space, tables, 3, false),
        WorkingData::Rgba8(data) => samples8_to_yuv420(data.as_slice(), image.width, image.height, image.color_space, tables, 4, true),
        WorkingData::Rgb16(data) => samples16_to_yuv420(data.as_slice(), image.width, image.height, image.color_space, &tables.source_u16_to_linear, &tables.linear_to_source_u16, 3, false),
        WorkingData::Rgba16(data) => samples16_to_yuv420(data.as_slice(), image.width, image.height, image.color_space, &tables.source_u16_to_linear, &tables.linear_to_source_u16, 4, true),
    }
}

/// Converts a working image to YUV 4:2:0 with the SimpleYUV method, with lookup tables built
/// from the pipeline's source profile.
pub fn working_image_to_yuv420(image: &WorkingImage, cms: &ColorPipeline) -> (r: Result<YuvPlanes, Error>)
    requires
        image.covers_pixels(),
        1 <= image.width <= 16383,
        1 <= image.height <= 16383,
    ensures
        r is Ok <==> has_all_tone_curves(cms.source()),
        r matches Ok(p) ==> exists|t: SimpleYuvTables|
            #![trigger simpleyuv_tables_of(t, cms.source())]
            t.wf() && simpleyuv_tables_of(t, cms.source()) && working_image_yuv_spec(p, *image, t),
        r matches Err(e) ==> e is Color && e.message_view() == missing_trc_message(
            first_missing_channel(cms.source()),
        ),
{
    let tables = cms.simpleyuv_tables()?;
    let planes = working_image_to_yuv420_with_tables(image, &tables);
    proof {
        if planes is Ok {
            assert(simpleyuv_tables_of(tables, cms.source()));
        }
    }
    planes
}

// ---------------------------------------------------------------------------------------------
// The 16-bit linear pipeline
// ---------------------------------------------------------------------------------------------

/// Converts 16-bit linear-light samples to YUV 4:2:0 through the tables of the 16-bit linear
/// pipeline: every sample is taken back to its source code through the whole-transform tables,
/// and SimpleYUV runs on those codes with the 14-bit tone-curve tables.
fn linear_samples_u16_to_yuv420(
    image: &[u16],
    width: u32,
    height: u32,
    channels: usize,
    with_alpha: bool,
    tables: &LinearU16Tables,
) -> (r: Result<YuvPlanes, Error>)
    requires
        layout_ok(image@.len(), width, height, channels),
        tables.wf(),
    ensures
        r matches Ok(p) && yuv_planes16_spec(
            p,
            lut_mapped(image@, channels as int, tables.linear_to_source),
            width,
            height,
            WorkingColorSpace::Source,
            tables.chroma_source_to_linear,
            tables.chroma_linear_to_source,
            channels,
            with_alpha,
        ),
{
    proof {
        assert forall|c: int| 0 <= c < 3 implies (#[trigger] tables.linear_to_source[c])@.len() == 65536 by {}
        assert(tables.chroma_source_to_linear[0]@.len() == 16384);
        assert(tables.chroma_source_to_linear[1]@.len() == 16384);
        assert(tables.chroma_source_to_linear[2]@.len() == 16384);
        assert(tables.chroma_linear_to_source[0]@.len() == 65536);
        assert(tables.chroma_linear_to_source[1]@.len() == 65536);
        assert(tables.chroma_linear_to_source[2]@.len() == 65536);
    }
    let mut source = vstd::slice::slice_to_vec(image);
    apply_luts(&mut source, channels, &tables.linear_to_source);
    samples16_to_yuv420(
        source.as_slice(),
        width,
        height,
        WorkingColorSpace::Source,
        &tables.chroma_source_to_linear,
        &tables.chroma_linear_to_source,
        channels,
        with_alpha,
    )
}

/// Converts a linear-light 16-bit working image to YUV 4:2:0 through the tables of the 16-bit
/// linear pipeline.
pub fn linear_u16_to_yuv420(image: &WorkingImage, tables: &LinearU16Tables) -> (r: Result<YuvPlanes, Error>)
    requires
        image.covers_pixels(),
        1 <= image.width <= 16383,
        1 <= image.height <= 16383,
        tables.wf(),
    ensures
        image.color_space is Source ==> (r matches Err(e) && e is Color && e.message_view()
            == "--fasthq expected linear RGB input"@),
        image.color_space is LinearRgb && image.data.spec_is_u8() ==> (r matches Err(e) && e is Color
            && e.message_view() == "--fasthq requires 16-bit working data"@),
        image.color_space is LinearRgb ==> match image.data@ {
            crate::decode::SampleView::Rgb16(d) => r matches Ok(p) && yuv_planes16_spec(
                p,
                lut_mapped(d, 3, tables.linear_to_source),
                image.width,
                image.height,
                WorkingColorSpace::Source,
                tables.chroma_source_to_linear,
                tables.chroma_linear_to_source,
                3,
                false,
            ),
            crate::decode::SampleView::Rgba16(d) => r matches Ok(p) && yuv_planes16_spec(
                p,
                lut_mapped(d, 4, tables.linear_to_source),
                image.width,
                image.height,
                WorkingColorSpace::Source,
                tables.chroma_source_to_linear,
                tables.chroma_linear_to_source,
                4,
                true,
            ),
            _ => r is Err,
        },
{
    if image.color_space != WorkingColorSpace::LinearRgb {
        return Err(Error::color("--fasthq expected linear RGB input"));
    }
    match &image.data {
        WorkingData::Rgb16(data) => linear_samples_u16_to_yuv420(data.as_slice(), image.width, image.height, 3, false, tables),
        WorkingData::Rgba16(data) => linear_samples_u16_to_yuv420(data.as_slice(), image.width, image.height, 4, true, tables),
        WorkingData::Rgb8(_) | WorkingData::Rgba8(_) => Err(Error::color("--fasthq requires 16-bit working data")),
    }
}

// ---------------------------------------------------------------------------------------------
// Luma-preserving chroma for linear 16-bit samples
// ---------------------------------------------------------------------------------------------

/// Rec. 709 luminance of linear RGB in 16.16 fixed point, rounded.
pub open spec fn rgb_to_gray_spec(r: int, g: int, b: int) -> int {
    (13933 * r + 46871 * g + 4732 * b + 32768) / 65536
}

/// Rec. 709 luminance of linear RGB, rounded.
pub fn rgb_to_gray(r: i32, g: i32, b: i32) -> (out: u16)
    requires
        0 <= r <= 16383,
        0 <= g <= 16383,
        0 <= b <= 16383,
    ensures
        out == rgb_to_gray_spec(r as int, g as int, b as int),
        out <= 16383,
{
    let sum: u64 = 13933u64 * r as u64 + 46871u64 * g as u64 + 4732u64 * b as u64 + 32768;
    proof {
        vstd::bits::lemma_u64_shr_is_div(sum, 16);
        vstd::arithmetic::power2::lemma2_to64();
        vstd::arithmetic::div_mod::lemma_multiply_divide_lt(sum as int, 65536, 16384);
    }
    (sum >> 16u64) as u16
}

/// Mean of channel `c` over the 2x2 block at `(bx, by)` of a 16-bit linear buffer, at 14 bits.
pub open spec fn linear_avg16(image: Seq<u16>, w: int, h: int, ch: int, bx: int, by: int, c: int) -> int {
    average_linear_spec(block_sum(w, h, ch, bx, by, c, |at: int| import_u16_spec(image[at]) as int) as u32) as int
}

/// Channel `c` minus luminance of the block average of chroma sample `uv`.
pub open spec fn sharpish_residual(image: Seq<u16>, width: u32, height: u32, ch: int, uv: int, c: int) -> int {
    let uvw = uv_width_spec(width);
    let bx = (uv % uvw) * 2;
    let by = (uv / uvw) * 2;
    let ar = linear_avg16(image, width as int, height as int, ch, bx, by, 0);
    let ag = linear_avg16(image, width as int, height as int, ch, bx, by, 1);
    let ab = linear_avg16(image, width as int, height as int, ch, bx, by, 2);
    let aw = rgb_to_gray_spec(ar, ag, ab);
    if c == 0 {
        ar - aw
    } else if c == 1 {
        ag - aw
    } else {
        ab - aw
    }
}

/// The chroma sample that pixel `i` (row-major) falls in.
pub open spec fn uv_index_of(width: u32, i: int) -> int {
    ((i / (width as int)) / 2) * uv_width_spec(width) + (i % (width as int)) / 2
}

/// Luminance of pixel `i` of a 16-bit linear buffer, at 14 bits.
pub open spec fn pixel_gray16(image: Seq<u16>, ch: int, i: int) -> int {
    rgb_to_gray_spec(
        import_u16_spec(image[i * ch]) as int,
        import_u16_spec(image[i * ch + 1]) as int,
        import_u16_spec(image[i * ch + 2]) as int,
    )
}

/// Luma of pixel `i`: its own luminance plus the chroma residual of its block.
pub open spec fn sharpish_luma(image: Seq<u16>, width: u32, height: u32, ch: int, i: int) -> u8 {
    let base = pixel_gray16(image, ch, i);
    let uv = uv_index_of(width, i);
    matrix_component(
        base + sharpish_residual(image, width, height, ch, uv, 0),
        base + sharpish_residual(image, width, height, ch, uv, 1),
        base + sharpish_residual(image, width, height, ch, uv, 2),
        WEBP_RGB_TO_Y,
        14,
    )
}

/// Chroma component (matrix `m`) of chroma sample `uv`: the matrix applied to the residual.
pub open spec fn sharpish_chroma(image: Seq<u16>, width: u32, height: u32, ch: int, m: [i32; 4], uv: int) -> u8 {
    matrix_component(
        sharpish_residual(image, width, height, ch, uv, 0),
        sharpish_residual(image, width, height, ch, uv, 1),
        sharpish_residual(image, width, height, ch, uv, 2),
        m,
        14,
    )
}

/// The planes of the luma-preserving conversion of a 16-bit linear buffer.
pub open spec fn sharpish_planes_spec(
    p: YuvPlanes,
    image: Seq<u16>,
    width: u32,
    height: u32,
    channels: usize,
    with_alpha: bool,
) -> bool {
    let n = (width as int) * (height as int);
    let ch = channels as int;
    let nuv = uv_width_spec(width) * uv_height_spec(height);
    &&& p.width == width
    &&& p.height == height
    &&& p.y_stride == width
    &&& p.u_stride == uv_width_spec(width)
    &&& p.v_stride == uv_width_spec(width)
    &&& p.a_stride == width
    &&& p.y@.len() == n
    &&& forall|i: int| 0 <= i < n ==> #[trigger] p.y@[i] == sharpish_luma(image, width, height, ch, i)
    &&& p.u@.len() == nuv
    &&& p.v@.len() == nuv
    &&& forall|i: int| 0 <= i < nuv ==> #[trigger] p.u@[i] == sharpish_chroma(image, width, height, ch, WEBP_RGB_TO_U, i)
    &&& forall|i: int| 0 <= i < nuv ==> #[trigger] p.v@[i] == sharpish_chroma(image, width, height, ch, WEBP_RGB_TO_V, i)
    &&& with_alpha ==> (p.a matches Some(a) && a@.len() == n && forall|i: int|
        0 <= i < n ==> #[trigger] a@[i] == down16_spec(image[i * ch + ch - 1]))
    &&& !with_alpha ==> p.a is None
}

/// Mean of one channel over a 2x2 block of a 16-bit linear buffer, at 14 bits.
fn linear_block_average_u16(image: &[u16], layout: SampleLayout, block_x: u32, block_y: u32, c: usize) -> (r: u16)
    requires
        layout_ok(image@.len(), layout.width, layout.height, layout.channels),
        block_x < layout.width,
        block_y < layout.height,
        c < 3,
    ensures
        r == linear_avg16(
            image@,
            layout.width as int,
            layout.height as int,
            layout.channels as int,
            block_x as int,
            block_y as int,
            c as int,
        ),
        r <= 16383,
{
    let ghost w = layout.width as int;
    let ghost h = layout.height as int;
    let ghost ch = layout.channels as int;
    proof {
        lemma_block_index_in_bounds(w, h, ch, image@.len() as int, block_x as int, block_y as int, 0, 0);
        lemma_block_index_in_bounds(w, h, ch, image@.len() as int, block_x as int, block_y as int, 1, 0);
        lemma_block_index_in_bounds(w, h, ch, image@.len() as int, block_x as int, block_y as int, 0, 1);
        lemma_block_index_in_bounds(w, h, ch, image@.len() as int, block_x as int, block_y as int, 1, 1);
    }
    let i00 = block_sample_index(layout, block_x, block_y, 0, 0) + c;
    let i10 = block_sample_index(layout, block_x, block_y, 1, 0) + c;
    let i01 = block_sample_index(layout, block_x, block_y, 0, 1) + c;
    let i11 = block_sample_index(layout, block_x, block_y, 1, 1) + c;
    let sum: u32 = import_u16(image[i00]) as u32 + import_u16(image[i10]) as u32 + import_u16(image[i01]) as u32
        + import_u16(image[i11]) as u32;
    average_linear(sum)
}

proof fn lemma_pixel_position(i: int, w: int, h: int, uvw: int, uvh: int)
    requires
        1 <= w,
        1 <= h,
        0 <= i < w * h,
        uvw == (w + 1) / 2,
        uvh == (h + 1) / 2,
    ensures
        0 <= i / w < h,
        0 <= i % w < w,
        0 <= ((i / w) / 2) * uvw + (i % w) / 2 < uvw * uvh,
{
    vstd::arithmetic::div_mod::lemma_fundamental_div_mod(i, w);
    vstd::arithmetic::div_mod::lemma_div_pos_is_pos(i, w);
    vstd::arithmetic::div_mod::lemma_mod_pos_bound(i, w);
    vstd::arithmetic::div_mod::lemma_multiply_divide_lt(i, w, h);
    let y = i / w;
    let x = i % w;
    assert(y / 2 < uvh);
    assert(x / 2 < uvw);
    assert((y / 2) * uvw + x / 2 < uvw * uvh) by (nonlinear_arith)
        requires
            0 <= y / 2 < uvh,
            0 <= x / 2 < uvw,
    ;
    assert(0 <= (y / 2) * uvw) by (nonlinear_arith)
        requires
            0 <= y / 2,
            0 <= uvw,
    ;
}

/// Converts 16-bit linear RGB(A) to YUV 4:2:0, keeping each pixel's luminance: chroma is the
/// matrix applied to the block average minus its luminance, and luma adds that residual back to
/// each pixel's own luminance.
pub fn rgba16_to_yuv420_sharpish_linear(
    image: &[u16],
    width: u32,
    height: u32,
    channels: usize,
    with_alpha: bool,
) -> (r: Result<YuvPlanes, Error>)
    requires
        layout_ok(image@.len(), width, height, channels),
    ensures
        r matches Ok(p) && sharpish_planes_spec(p, image@, width, height, channels, with_alpha),
{
    let layout = SampleLayout { width, height, channels, color_space: WorkingColorSpace::LinearRgb };
    proof {
        assert((width as int) * (height as int) <= 16383 * 16383) by (nonlinear_arith)
            requires
                1 <= width <= 16383,
                1 <= height <= 16383,
        ;
    }
    let n = (width as usize) * (height as usize);
    let w = width as usize;
    let uv_width = ((width as usize) + 1) / 2;
    let uv_height = ((height as usize) + 1) / 2;
    proof {
        assert(uv_width * uv_height <= 8192 * 8192) by (nonlinear_arith)
            requires
                uv_width <= 8192,
                uv_height <= 8192,
        ;
    }
    let nuv = uv_width * uv_height;
    let bit_depth = effective_u16_bit_depth();
    let sfix = precision_shift(bit_depth);
    let y_coeffs = scale_matrix(&WEBP_RGB_TO_Y, bit_depth);
    let u_coeffs = scale_matrix(&WEBP_RGB_TO_U, bit_depth);
    let v_coeffs = scale_matrix(&WEBP_RGB_TO_V, bit_depth);
    let ghost img = image@;
    let ghost ch = channels as int;

    // Luminance of every pixel.
    let len = image.len();
    let mut luma: Vec<u16> = Vec::new();
    let mut i: usize = 0;
    while i < n
        invariant
            len == image@.len(),
            img == image@,
            ch == channels,
            layout_ok(image@.len(), width, height, channels),
            n == (width as int) * (height as int),
            0 <= i <= n,
            luma@.len() == i,
            forall|j: int| 0 <= j < i ==> #[trigger] luma@[j] == pixel_gray16(img, ch, j),
            forall|j: int| 0 <= j < i ==> #[trigger] luma@[j] <= 16383,
        decreases n - i,
    {
        proof {
            lemma_pixel_sample_in_bounds(i as int, n as int, channels as int, image@.len() as int);
        }
        let at = i * channels;
        let g = rgb_to_gray(
            import_u16(image[at]) as i32,
            import_u16(image[at + 1]) as i32,
            import_u16(image[at + 2]) as i32,
        );
        luma.push(g);
        i += 1;
    }

    // Residuals and chroma of every block.
    let mut res_r: Vec<i32> = Vec::new();
    let mut res_g: Vec<i32> = Vec::new();
    let mut res_b: Vec<i32> = Vec::new();
    let mut u: Vec<u8> = Vec::new();
    let mut v: Vec<u8> = Vec::new();
    let mut idx: usize = 0;
    while idx < nuv
        invariant
            img == image@,
            ch == channels,
            layout == (SampleLayout { width, height, channels, color_space: WorkingColorSpace::LinearRgb }),
            layout_ok(image@.len(), width, height, channels),
            uv_width == uv_width_spec(width),
            uv_height == uv_height_spec(height),
            nuv == uv_width * uv_height,
            sfix == precision_shift_spec(14),
            forall|k: int| 0 <= k < 3 ==> #[trigger] u_coeffs[k] == scale_coeff(WEBP_RGB_TO_U[k] as int, 14),
            forall|k: int| 0 <= k < 3 ==> -0x20000 <= #[trigger] u_coeffs[k] <= 0x20000,
            u_coeffs[3] == WEBP_RGB_TO_U[3] * pow2(precision_shift_spec(14) as nat),
            0 <= u_coeffs[3] <= 0x0400_0000,
            forall|k: int| 0 <= k < 3 ==> #[trigger] v_coeffs[k] == scale_coeff(WEBP_RGB_TO_V[k] as int, 14),
            forall|k: int| 0 <= k < 3 ==> -0x20000 <= #[trigger] v_coeffs[k] <= 0x20000,
            v_coeffs[3] == WEBP_RGB_TO_V[3] * pow2(precision_shift_spec(14) as nat),
            0 <= v_coeffs[3] <= 0x0400_0000,
            0 <= idx <= nuv,
            res_r@.len() == idx,
            res_g@.len() == idx,
            res_b@.len() == idx,
            u@.len() == idx,
            v@.len() == idx,
            forall|j: int| 0 <= j < idx ==> #[trigger] res_r@[j] == sharpish_residual(img, width, height, ch, j, 0),
            forall|j: int| 0 <= j < idx ==> #[trigger] res_g@[j] == sharpish_residual(img, width, height, ch, j, 1),
            forall|j: int| 0 <= j < idx ==> #[trigger] res_b@[j] == sharpish_residual(img, width, height, ch, j, 2),
            forall|j: int| 0 <= j < idx ==> -16383 <= #[trigger] res_r@[j] <= 16383,
            forall|j: int| 0 <= j < idx ==> -16383 <= #[trigger] res_g@[j] <= 16383,
            forall|j: int| 0 <= j < idx ==> -16383 <= #[trigger] res_b@[j] <= 16383,
            forall|j: int| 0 <= j < idx ==> #[trigger] u@[j] == sharpish_chroma(img, width, height, ch, WEBP_RGB_TO_U, j),
            forall|j: int| 0 <= j < idx ==> #[trigger] v@[j] == sharpish_chroma(img, width, height, ch, WEBP_RGB_TO_V, j),
        decreases nuv - idx,
    {
        proof {
            lemma_block_origin_in_image(idx as int, uv_width as int, uv_height as int, width as int, height as int);
        }
        let block_x = ((idx % uv_width) * 2) as u32;
        let block_y = ((idx / uv_width) * 2) as u32;
        let avg_r = linear_block_average_u16(image, layout, block_x, block_y, 0) as i32;
        let avg_g = linear_block_average_u16(image, layout, block_x, block_y, 1) as i32;
        let avg_b = linear_block_average_u16(image, layout, block_x, block_y, 2) as i32;
        let avg_w = rgb_to_gray(avg_r, avg_g, avg_b) as i32;
        let rr = avg_r - avg_w;
        let rg = avg_g - avg_w;
        let rb = avg_b - avg_w;
        res_r.push(rr);
        res_g.push(rg);
        res_b.push(rb);
        u.push(rgb_to_component_8bit(rr, rg, rb, &u_coeffs, sfix));
        v.push(rgb_to_component_8bit(rr, rg, rb, &v_coeffs, sfix));
        idx += 1;
    }

    // Luma of every pixel.
    let mut y: Vec<u8> = Vec::new();
    let mut i: usize = 0;
    while i < n
        invariant
            img == image@,
            ch == channels,
            layout_ok(image@.len(), width, height, channels),
            n == (width as int) * (height as int),
            w == width,
            uv_width == uv_width_spec(width),
            uv_height == uv_height_spec(height),
            nuv == uv_width * uv_height,
            sfix == precision_shift_spec(14),
            forall|k: int| 0 <= k < 3 ==> #[trigger] y_coeffs[k] == scale_coeff(WEBP_RGB_TO_Y[k] as int, 14),
            forall|k: int| 0 <= k < 3 ==> -0x20000 <= #[trigger] y_coeffs[k] <= 0x20000,
            y_coeffs[3] == WEBP_RGB_TO_Y[3] * pow2(precision_shift_spec(14) as nat),
            0 <= y_coeffs[3] <= 0x0400_0000,
            luma@.len() == n,
            forall|j: int| 0 <= j < n ==> #[trigger] luma@[j] == pixel_gray16(img, ch, j),
            forall|j: int| 0 <= j < n ==> #[trigger] luma@[j] <= 16383,
            res_r@.len() == nuv,
            res_g@.len() == nuv,
            res_b@.len() == nuv,
            forall|j: int| 0 <= j < nuv ==> #[trigger] res_r@[j] == sharpish_residual(img, width, height, ch, j, 0),
            forall|j: int| 0 <= j < nuv ==> #[trigger] res_g@[j] == sharpish_residual(img, width, height, ch, j, 1),
            forall|j: int| 0 <= j < nuv ==> #[trigger] res_b@[j] == sharpish_residual(img, width, height, ch, j, 2),
            forall|j: int| 0 <= j < nuv ==> -16383 <= #[trigger] res_r@[j] <= 16383,
            forall|j: int| 0 <= j < nuv ==> -16383 <= #[trigger] res_g@[j] <= 16383,
            forall|j: int| 0 <= j < nuv ==> -16383 <= #[trigger] res_b@[j] <= 16383,
            0 <= i <= n,
            y@.len() == i,
            forall|j: int| 0 <= j < i ==> #[trigger] y@[j] == sharpish_luma(img, width, height, ch, j),
        decreases n - i,
    {
        proof {
            lemma_pixel_position(i as int, width as int, height as int, uv_width as int, uv_height as int);
        }
        let uv = ((i / w) / 2) * uv_width + (i % w) / 2;
        let base = luma[i] as i32;
        let value = rgb_to_component_8bit(base + res_r[uv], base + res_g[uv], base + res_b[uv], &y_coeffs, sfix);
        y.push(value);
        i += 1;
    }

    let a = if with_alpha {
        Some(alpha_plane_u16(image, channels, n))
    } else {
        None
    };
    Ok(YuvPlanes {
        y,
        y_stride: width as usize,
        u,
        u_stride: uv_width,
        v,
        v_stride: uv_width,
        a,
        a_stride: width as usize,
        width,
        height,
    })
}

/// The luma-preserving conversion of a linear 16-bit working image; `None` for any other image.
pub fn rgba_to_yuv420_sharpish_linear_u16(image: &WorkingImage) -> (r: Option<Result<YuvPlanes, Error>>)
    requires
        image.covers_pixels(),
        1 <= image.width <= 16383,
        1 <= image.height <= 16383,
    ensures
        image.color_space is Source || image.data.spec_is_u8() ==> r is None,
        image.color_space is LinearRgb ==> match image.data@ {
            crate::decode::SampleView::Rgb16(d) => r matches Some(Ok(p)) && sharpish_planes_spec(
                p,
                d,
                image.width,
                image.height,
                3,
                false,
            ),
            crate::decode::SampleView::Rgba16(d) => r matches Some(Ok(p)) && sharpish_planes_spec(
                p,
                d,
                image.width,
                image.height,
                4,
                true,
            ),
            _ => r is None,
        },
{
    if image.color_space != WorkingColorSpace::LinearRgb {
        return None;
    }
    match &image.data {
        WorkingData::Rgb16(data) => Some(rgba16_to_yuv420_sharpish_linear(data.as_slice(), image.width, image.height, 3, false)),
        WorkingData::Rgba16(data) => Some(rgba16_to_yuv420_sharpish_linear(data.as_slice(), image.width, image.height, 4, true)),
        WorkingData::Rgb8(_) | WorkingData::Rgba8(_) => None,
    }
}

// ---------------------------------------------------------------------------------------------
// 8-bit and 16-bit luma agree
// ---------------------------------------------------------------------------------------------

/// Luma of an 8-bit pixel and luma of the same pixel widened to 16 bits (`v * 257`) differ by
/// at most one code.
pub proof fn lemma_widened_pixel_luma_within_one(r: u8, g: u8, b: u8)
    ensures
        -1 <= matrix_component(
            import_u8_spec(r) as int,
            import_u8_spec(g) as int,
            import_u8_spec(b) as int,
            WEBP_RGB_TO_Y,
            8,
        ) - matrix_component(
            import_u16_spec(crate::decode::up8_spec(r)) as int,
            import_u16_spec(crate::decode::up8_spec(g)) as int,
            import_u16_spec(crate::decode::up8_spec(b)) as int,
            WEBP_RGB_TO_Y,
            14,
        ) <= 1,
{
    vstd::arithmetic::power2::lemma2_to64();
    assert(pow2(7) == 128 && pow2(8) == 256 && pow2(13) == 8192 && pow2(14) == 16384);
    assert(pow2(15) == 32768 && pow2(16) == 65536 && pow2(17) == 131072 && pow2(18) == 262144);
    assert(precision_shift_spec(8) == 2);
    assert(precision_shift_spec(14) == 0);
    assert(scale_coeff(16839, 8) == 16839);
    assert(scale_coeff(33059, 8) == 33059);
    assert(scale_coeff(6420, 8) == 6420);
    assert(scale_coeff(16839, 14) == 262);
    assert(scale_coeff(33059, 14) == 515);
    assert(scale_coeff(6420, 14) == 100);
    let (x0, x1, x2) = (r as int, g as int, b as int);
    let (y0, y1, y2) = ((x0 * 257) / 4, (x1 * 257) / 4, (x2 * 257) / 4);
    assert(import_u16_spec(crate::decode::up8_spec(r)) == y0);
    assert(import_u16_spec(crate::decode::up8_spec(g)) == y1);
    assert(import_u16_spec(crate::decode::up8_spec(b)) == y2);
    let a = 16839 * (4 * x0) + 33059 * (4 * x1) + 6420 * (4 * x2) + 1048576 * 4 + 131072;
    let c = 262 * y0 + 515 * y1 + 100 * y2 + 1048576 + 32768;
    assert(-262144 < a - 4 * c < 262144);
    let q8 = a / 262144;
    let q16 = c / 65536;
    assert(-1 <= q8 - q16 <= 1);
}

/// The Y plane of an 8-bit buffer and that of its exact 16-bit widening differ by at most one
/// code at every pixel.
pub proof fn lemma_widened_luma_within_one(image: Seq<u8>, ch: int, i: int)
    requires
        3 <= ch <= 4,
        0 <= i,
        i * ch + 2 < image.len(),
    ensures
        -1 <= luma8_spec(image, ch, i) - luma16_spec(crate::decode::rgb8_to_rgb16_spec(image), ch, i) <= 1,
{
    let wide = crate::decode::rgb8_to_rgb16_spec(image);
    assert(wide[i * ch] == crate::decode::up8_spec(image[i * ch]));
    assert(wide[i * ch + 1] == crate::decode::up8_spec(image[i * ch + 1]));
    assert(wide[i * ch + 2] == crate::decode::up8_spec(image[i * ch + 2]));
    lemma_widened_pixel_luma_within_one(image[i * ch], image[i * ch + 1], image[i * ch + 2]);
}


// ---------------------------------------------------------------------------------------------
// Chroma is averaged in linear light
// ---------------------------------------------------------------------------------------------

/// Sample `c` of pixel `(dx, dy)` of the 2x2 block of chroma sample `i`.
pub open spec fn chroma_block_sample(width: u32, height: u32, ch: int, i: int, dx: int, dy: int, c: int) -> int {
    let uvw = uv_width_spec(width);
    block_index(width as int, height as int, ch, (i % uvw) * 2, (i / uvw) * 2, dx, dy) + c
}

/// For source-coded 16-bit samples, a 2x2 block whose pixels all hold `v[c]` on channel `c`
/// gives the chroma of `l2s[c][s2l[c][v[c] / 4]]`: the value goes to linear light through the
/// tone curve and comes back through its inverse, rather than being used as coded.
pub proof fn lemma_flat_block16_chroma_goes_through_linear_light(
    image: Seq<u16>,
    width: u32,
    height: u32,
    ch: int,
    s2l: [Vec<u16>; 3],
    l2s: [Vec<u16>; 3],
    m: [i32; 4],
    i: int,
    v: [u16; 3],
)
    requires
        forall|dx: int, dy: int, c: int|
            0 <= dx < 2 && 0 <= dy < 2 && 0 <= c < 3 ==> image[#[trigger] chroma_block_sample(width, height, ch, i, dx, dy, c)] == v[c],
    ensures
        chroma16_spec(image, width, height, ch, WorkingColorSpace::Source, s2l, l2s, m, i) == matrix_component(
            l2s[0]@[s2l[0]@[(v[0] / 4) as int] as int] as int,
            l2s[1]@[s2l[1]@[(v[1] / 4) as int] as int] as int,
            l2s[2]@[s2l[2]@[(v[2] / 4) as int] as int] as int,
            m,
            14,
        ),
{
    assert forall|c: int| 0 <= c < 3 implies block_rgb16_spec(
        image,
        width as int,
        height as int,
        ch,
        WorkingColorSpace::Source,
        (i % uv_width_spec(width)) * 2,
        (i / uv_width_spec(width)) * 2,
        s2l[c]@,
        l2s[c]@,
        c,
    ) == l2s[c]@[s2l[c]@[(v[c] / 4) as int] as int] by {
        assert(image[chroma_block_sample(width, height, ch, i, 0, 0, c)] == v[c]);
        assert(image[chroma_block_sample(width, height, ch, i, 1, 0, c)] == v[c]);
        assert(image[chroma_block_sample(width, height, ch, i, 0, 1, c)] == v[c]);
        assert(image[chroma_block_sample(width, height, ch, i, 1, 1, c)] == v[c]);
        let lin = s2l[c]@[(v[c] / 4) as int] as int;
        assert((4 * lin + 2) / 4 == lin);
    }
}

/// For source-coded 16-bit samples, chroma depends on a block only through the linear-light
/// values of its samples: two images whose block samples map to the same linear values get
/// the same chroma sample.
pub proof fn lemma_chroma16_depends_on_linear_light(
    a: Seq<u16>,
    b: Seq<u16>,
    width: u32,
    height: u32,
    ch: int,
    s2l: [Vec<u16>; 3],
    l2s: [Vec<u16>; 3],
    m: [i32; 4],
    i: int,
)
    requires
        forall|dx: int, dy: int, c: int|
            0 <= dx < 2 && 0 <= dy < 2 && 0 <= c < 3 ==> s2l[c]@[(a[#[trigger] chroma_block_sample(width, height, ch, i, dx, dy, c)] / 4) as int]
                == s2l[c]@[(b[chroma_block_sample(width, height, ch, i, dx, dy, c)] / 4) as int],
    ensures
        chroma16_spec(a, width, height, ch, WorkingColorSpace::Source, s2l, l2s, m, i) == chroma16_spec(
            b,
            width,
            height,
            ch,
            WorkingColorSpace::Source,
            s2l,
            l2s,
            m,
            i,
        ),
{
    assert forall|c: int| 0 <= c < 3 implies block_rgb16_spec(
        a,
        width as int,
        height as int,
        ch,
        WorkingColorSpace::Source,
        (i % uv_width_spec(width)) * 2,
        (i / uv_width_spec(width)) * 2,
        s2l[c]@,
        l2s[c]@,
        c,
    ) == block_rgb16_spec(
        b,
        width as int,
        height as int,
        ch,
        WorkingColorSpace::Source,
        (i % uv_width_spec(width)) * 2,
        (i / uv_width_spec(width)) * 2,
        s2l[c]@,
        l2s[c]@,
        c,
    ) by {
        let _ = chroma_block_sample(width, height, ch, i, 0, 0, c);
        let _ = chroma_block_sample(width, height, ch, i, 1, 0, c);
        let _ = chroma_block_sample(width, height, ch, i, 0, 1, c);
        let _ = chroma_block_sample(width, height, ch, i, 1, 1, c);
    }
}

/// For source-coded 8-bit samples, a 2x2 block whose pixels all hold `v[c]` on channel `c`
/// gives the chroma of `l2s[c][s2l[c][4 * v[c]]]`: through the tone curve and back.
pub proof fn lemma_flat_block8_chroma_goes_through_linear_light(
    image: Seq<u8>,
    width: u32,
    height: u32,
    ch: int,
    tables: SimpleYuvTables,
    m: [i32; 4],
    i: int,
    v: [u8; 3],
)
    requires
        forall|dx: int, dy: int, c: int|
            0 <= dx < 2 && 0 <= dy < 2 && 0 <= c < 3 ==> image[#[trigger] chroma_block_sample(width, height, ch, i, dx, dy, c)] == v[c],
    ensures
        chroma8_spec(image, width, height, ch, WorkingColorSpace::Source, tables, m, i) == matrix_component(
            tables.linear_to_source_u8[0]@[tables.source_u8_to_linear[0]@[4 * v[0]] as int] as int,
            tables.linear_to_source_u8[1]@[tables.source_u8_to_linear[1]@[4 * v[1]] as int] as int,
            tables.linear_to_source_u8[2]@[tables.source_u8_to_linear[2]@[4 * v[2]] as int] as int,
            m,
            8,
        ),
{
    assert forall|c: int| 0 <= c < 3 implies block_rgb8_spec(
        image,
        width as int,
        height as int,
        ch,
        WorkingColorSpace::Source,
        (i % uv_width_spec(width)) * 2,
        (i / uv_width_spec(width)) * 2,
        tables.source_u8_to_linear[c]@,
        tables.linear_to_source_u8[c]@,
        c,
    ) == tables.linear_to_source_u8[c]@[tables.source_u8_to_linear[c]@[4 * v[c]] as int] by {
        assert(image[chroma_block_sample(width, height, ch, i, 0, 0, c)] == v[c]);
        assert(image[chroma_block_sample(width, height, ch, i, 1, 0, c)] == v[c]);
        assert(image[chroma_block_sample(width, height, ch, i, 0, 1, c)] == v[c]);
        assert(image[chroma_block_sample(width, height, ch, i, 1, 1, c)] == v[c]);
        let lin = tables.source_u8_to_linear[c]@[4 * v[c]] as int;
        assert((4 * lin + 2) / 4 == lin);
    }
}

/// For source-coded 8-bit samples, chroma depends on a block only through the linear-light
/// values of its samples.
pub proof fn lemma_chroma8_depends_on_linear_light(
    a: Seq<u8>,
    b: Seq<u8>,
    width: u32,
    height: u32,
    ch: int,
    tables: SimpleYuvTables,
    m: [i32; 4],
    i: int,
)
    requires
        forall|dx: int, dy: int, c: int|
            0 <= dx < 2 && 0 <= dy < 2 && 0 <= c < 3 ==> tables.source_u8_to_linear[c]@[4 * a[#[trigger] chroma_block_sample(width, height, ch, i, dx, dy, c)]]
                == tables.source_u8_to_linear[c]@[4 * b[chroma_block_sample(width, height, ch, i, dx, dy, c)]],
    ensures
        chroma8_spec(a, width, height, ch, WorkingColorSpace::Source, tables, m, i) == chroma8_spec(
            b,
            width,
            height,
            ch,
            WorkingColorSpace::Source,
            tables,
            m,
            i,
        ),
{
    assert forall|c: int| 0 <= c < 3 implies block_rgb8_spec(
        a,
        width as int,
        height as int,
        ch,
        WorkingColorSpace::Source,
        (i % uv_width_spec(width)) * 2,
        (i / uv_width_spec(width)) * 2,
        tables.source_u8_to_linear[c]@,
        tables.linear_to_source_u8[c]@,
        c,
    ) == block_rgb8_spec(
        b,
        width as int,
        height as int,
        ch,
        WorkingColorSpace::Source,
        (i % uv_width_spec(width)) * 2,
        (i / uv_width_spec(width)) * 2,
        tables.source_u8_to_linear[c]@,
        tables.linear_to_source_u8[c]@,
        c,
    ) by {
        let _ = chroma_block_sample(width, height, ch, i, 0, 0, c);
        let _ = chroma_block_sample(width, height, ch, i, 1, 0, c);
        let _ = chroma_block_sample(width, height, ch, i, 0, 1, c);
        let _ = chroma_block_sample(width, height, ch, i, 1, 1, c);
    }
}

} // verus!
