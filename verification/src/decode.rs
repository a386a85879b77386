//! Decoded images: sample layouts, bit-depth conversion, format detection and orientation.
use vstd::prelude::*;

use crate::error::{decimal_text, push_decimal, Error};
use crate::metadata::{Orientation, SourceMetadata};
use image::ImageError;

verus! {

/// Pixel samples of a working image, interleaved per pixel.
#[derive(Debug, Clone)]
pub enum WorkingData {
    Rgb8(Vec<u8>),
    Rgba8(Vec<u8>),
    Rgb16(Vec<u16>),
    Rgba16(Vec<u16>),
}

/// Whether the samples are gamma-coded in the source color space or linear light.
#[derive(Debug, Clone, Copy, PartialEq, Eq, Structural)]
pub enum WorkingColorSpace {
    Source,
    LinearRgb,
}

/// A decoded image in the layout that the pipeline works on.
#[derive(Debug, Clone)]
pub struct WorkingImage {
    pub width: u32,
    pub height: u32,
    pub data: WorkingData,
    pub color_space: WorkingColorSpace,
}

/// The samples of a working image as mathematical sequences.
pub enum SampleView {
    Rgb8(Seq<u8>),
    Rgba8(Seq<u8>),
    Rgb16(Seq<u16>),
    Rgba16(Seq<u16>),
}

impl SampleView {
    /// The 8-bit samples, if any.
    pub open spec fn samples8(self) -> Seq<u8> {
        match self {
            SampleView::Rgb8(d) => d,
            SampleView::Rgba8(d) => d,
            _ => Seq::empty(),
        }
    }

    /// The 16-bit samples, if any.
    pub open spec fn samples16(self) -> Seq<u16> {
        match self {
            SampleView::Rgb16(d) => d,
            SampleView::Rgba16(d) => d,
            _ => Seq::empty(),
        }
    }
}

impl View for WorkingData {
    type V = SampleView;

    open spec fn view(&self) -> SampleView {
        match self {
            WorkingData::Rgb8(d) => SampleView::Rgb8(d@),
            WorkingData::Rgba8(d) => SampleView::Rgba8(d@),
            WorkingData::Rgb16(d) => SampleView::Rgb16(d@),
            WorkingData::Rgba16(d) => SampleView::Rgba16(d@),
        }
    }
}

impl WorkingData {
    /// Number of interleaved channels per pixel.
    pub open spec fn spec_channels(&self) -> nat {
        match self {
            WorkingData::Rgb8(_) | WorkingData::Rgb16(_) => 3,
            WorkingData::Rgba8(_) | WorkingData::Rgba16(_) => 4,
        }
    }

    /// Number of samples held.
    pub open spec fn spec_len(&self) -> nat {
        match self {
            WorkingData::Rgb8(d) => d@.len(),
            WorkingData::Rgba8(d) => d@.len(),
            WorkingData::Rgb16(d) => d@.len(),
            WorkingData::Rgba16(d) => d@.len(),
        }
    }

    pub open spec fn spec_has_alpha(&self) -> bool {
        self is Rgba8 || self is Rgba16
    }

    pub open spec fn spec_is_u8(&self) -> bool {
        self is Rgb8 || self is Rgba8
    }

    pub fn channels(&self) -> (c: usize)
        ensures
            c == self.spec_channels(),
    {
        match self {
            WorkingData::Rgb8(_) | WorkingData::Rgb16(_) => 3,
            WorkingData::Rgba8(_) | WorkingData::Rgba16(_) => 4,
        }
    }

    pub fn len(&self) -> (n: usize)
        ensures
            n == self.spec_len(),
    {
        match self {
            WorkingData::Rgb8(d) => d.len(),
            WorkingData::Rgba8(d) => d.len(),
            WorkingData::Rgb16(d) => d.len(),
            WorkingData::Rgba16(d) => d.len(),
        }
    }

    pub fn has_alpha(&self) -> (b: bool)
        ensures
            b == self.spec_has_alpha(),
    {
        matches!(self, WorkingData::Rgba8(_) | WorkingData::Rgba16(_))
    }

    pub fn is_u8(&self) -> (b: bool)
        ensures
            b == self.spec_is_u8(),
    {
        matches!(self, WorkingData::Rgb8(_) | WorkingData::Rgba8(_))
    }
}

impl WorkingImage {
    /// The buffer holds exactly `width * height` pixels.
    pub open spec fn wf(&self) -> bool {
        self.data.spec_len() == (self.width as nat) * (self.height as nat) * self.data.spec_channels()
    }

    /// The buffer holds at least `width * height` pixels.
    pub open spec fn covers_pixels(&self) -> bool {
        self.data.spec_len() >= (self.width as nat) * (self.height as nat) * self.data.spec_channels()
    }

    /// Builds a working image after checking that the buffer matches its dimensions.
    pub fn new(width: u32, height: u32, data: WorkingData, color_space: WorkingColorSpace) -> (r:
        Result<Self, Error>)
        ensures
            ((width as nat) * (height as nat) * data.spec_channels() > usize::MAX) ==> (r matches Err(
                e,
            ) && e is Decode && e.message_view()
                == "working image dimensions overflow address space"@),
            ((width as nat) * (height as nat) * data.spec_channels() <= usize::MAX) ==> (r is Ok
                <==> data.spec_len() == (width as nat) * (height as nat) * data.spec_channels()),
            r matches Err(e) ==> e is Decode,
            r matches Ok(img) ==> img.width == width && img.height == height && img.data == data
                && img.color_space == color_space && img.wf(),
    {
        let channels = data.channels();
        let pixels = (width as usize).checked_mul(height as usize);
        let expected_len = match pixels {
            Some(p) => p.checked_mul(channels),
            None => None,
        };
        proof {
            let w = width as nat;
            let h = height as nat;
            let c = channels as nat;
            assert(w * h * c >= w * h) by (nonlinear_arith)
                requires
                    c >= 3,
            ;
        }
        let expected_len = match expected_len {
            Some(n) => n,
            None => {
                return Err(Error::decode("working image dimensions overflow address space"));
            },
        };
        if data.len() != expected_len {
            return Err(Error::Decode(sample_count_message(expected_len, data.len())));
        }
        Ok(WorkingImage { width, height, data, color_space })
    }

    pub fn has_alpha(&self) -> (b: bool)
        ensures
            b == self.data.spec_has_alpha(),
    {
        self.data.has_alpha()
    }

    pub fn is_u8(&self) -> (b: bool)
        ensures
            b == self.data.spec_is_u8(),
    {
        self.data.is_u8()
    }
}

/// A well-formed image holds whole pixels.
pub(crate) proof fn lemma_wf_whole_pixels(image: WorkingImage)
    requires
        image.wf(),
    ensures
        image.data.spec_len() % image.data.spec_channels() == 0,
{
    vstd::arithmetic::div_mod::lemma_mod_multiples_basic(
        (image.width as nat * image.height as nat) as int,
        image.data.spec_channels() as int,
    );
}

/// The message for a buffer of the wrong size.
pub open spec fn sample_count_message_text(expected: usize, got: usize) -> Seq<char> {
    "invalid working image buffer: expected "@ + decimal_text(expected as nat) + " samples, got "@
        + decimal_text(got as nat)
}

/// "invalid working image buffer: expected {expected} samples, got {got}".
fn sample_count_message(expected: usize, got: usize) -> (s: String)
    ensures
        s@ == sample_count_message_text(expected, got),
{
    let mut s = String::from_str("invalid working image buffer: expected ");
    push_decimal(&mut s, expected);
    s.append(" samples, got ");
    push_decimal(&mut s, got);
    s
}

// ---------------------------------------------------------------------------------------------
// Sample conversions
// ---------------------------------------------------------------------------------------------

/// An 8-bit sample widened to 16 bits so that 255 maps to 65535.
pub open spec fn up8_spec(value: u8) -> u16 {
    ((value as nat) * 257) as u16
}

/// A 16-bit sample narrowed to 8 bits with rounding.
pub open spec fn down16_spec(value: u16) -> u8 {
    (((value as nat) * 255 + 32767) / 65535) as u8
}

/// A 16-bit sample stored as two bytes in the machine's byte order.
pub open spec fn u16_from_bytes(b0: u8, b1: u8, little_endian: bool) -> u16 {
    if little_endian {
        ((b0 as nat) + 256 * (b1 as nat)) as u16
    } else {
        ((b1 as nat) + 256 * (b0 as nat)) as u16
    }
}

/// The 16-bit sample at byte offset `at` of `raw`.
pub open spec fn sample16(raw: Seq<u8>, at: int, little_endian: bool) -> u16 {
    u16_from_bytes(raw[at], raw[at + 1], little_endian)
}

pub fn up8(value: u8) -> (r: u16)
    ensures
        r == up8_spec(value),
        r as nat == (value as nat) * 257,
{
    (value as u16) * 257
}

pub fn down16(value: u16) -> (r: u8)
    ensures
        r == down16_spec(value),
        r as nat == ((value as nat) * 255 + 32767) / 65535,
{
    proof {
        assert(((value as nat) * 255 + 32767) / 65535 <= 255) by (nonlinear_arith)
            requires
                value <= 65535,
        ;
    }
    ((value as u32 * 255 + 32767) / 65535) as u8
}

/// Reads a 16-bit sample from the first two bytes of `raw` in the given byte order.
pub fn read_u16(raw: &[u8], little_endian: bool) -> (r: u16)
    requires
        raw@.len() >= 2,
    ensures
        r == sample16(raw@, 0, little_endian),
        r as nat == if little_endian {
            (raw@[0] as nat) + 256 * (raw@[1] as nat)
        } else {
            (raw@[1] as nat) + 256 * (raw@[0] as nat)
        },
{
    if little_endian {
        (raw[0] as u16) + (raw[1] as u16) * 256
    } else {
        (raw[1] as u16) + (raw[0] as u16) * 256
    }
}

/// Reads the 16-bit sample at byte offset `at`.
fn read_u16_at(raw: &[u8], at: usize, little_endian: bool) -> (r: u16)
    requires
        at + 2 <= raw@.len(),
    ensures
        r == sample16(raw@, at as int, little_endian),
{
    let len = raw.len();
    let next = at + 1;
    if little_endian {
        (raw[at] as u16) + (raw[next] as u16) * 256
    } else {
        (raw[next] as u16) + (raw[at] as u16) * 256
    }
}

/// Each gray sample becomes a neutral RGB pixel.
pub fn gray8_to_rgb8(raw: &[u8]) -> (out: Vec<u8>)
    requires
        raw@.len() * 3 <= usize::MAX,
    ensures
        out@ == gray8_to_rgb8_spec(raw@),
        out@.len() == raw@.len() * 3,
        forall|p: int| 0 <= p < out@.len() ==> #[trigger] out@[p] == raw@[p / 3],
{
    let mut out: Vec<u8> = Vec::new();
    let mut i: usize = 0;
    while i < raw.len()
        invariant
            0 <= i <= raw@.len(),
            raw@.len() * 3 <= usize::MAX,
            out@.len() == i * 3,
            forall|p: int| 0 <= p < out@.len() ==> #[trigger] out@[p] == raw@[p / 3],
        decreases raw@.len() - i,
    {
        let l = raw[i];
        out.push(l);
        out.push(l);
        out.push(l);
        i += 1;
    }
    assert(out@ =~= gray8_to_rgb8_spec(raw@));
    out
}

/// Each gray sample becomes a neutral 16-bit RGB pixel.
pub fn gray8_to_rgb16(raw: &[u8]) -> (out: Vec<u16>)
    requires
        raw@.len() * 3 <= usize::MAX,
    ensures
        out@ == gray8_to_rgb16_spec(raw@),
        out@.len() == raw@.len() * 3,
        forall|p: int| 0 <= p < out@.len() ==> #[trigger] out@[p] == up8_spec(raw@[p / 3]),
{
    let mut out: Vec<u16> = Vec::new();
    let mut i: usize = 0;
    while i < raw.len()
        invariant
            0 <= i <= raw@.len(),
            raw@.len() * 3 <= usize::MAX,
            out@.len() == i * 3,
            forall|p: int| 0 <= p < out@.len() ==> #[trigger] out@[p] == up8_spec(raw@[p / 3]),
        decreases raw@.len() - i,
    {
        let value = up8(raw[i]);
        out.push(value);
        out.push(value);
        out.push(value);
        i += 1;
    }
    assert(out@ =~= gray8_to_rgb16_spec(raw@));
    out
}

/// Each 16-bit gray sample becomes a neutral RGB pixel.
pub fn gray16_to_rgb16(raw: &[u16]) -> (out: Vec<u16>)
    requires
        raw@.len() * 3 <= usize::MAX,
    ensures
        out@ == gray16_to_rgb16_spec(raw@),
        out@.len() == raw@.len() * 3,
        forall|p: int| 0 <= p < out@.len() ==> #[trigger] out@[p] == raw@[p / 3],
{
    let mut out: Vec<u16> = Vec::new();
    let mut i: usize = 0;
    while i < raw.len()
        invariant
            0 <= i <= raw@.len(),
            raw@.len() * 3 <= usize::MAX,
            out@.len() == i * 3,
            forall|p: int| 0 <= p < out@.len() ==> #[trigger] out@[p] == raw@[p / 3],
        decreases raw@.len() - i,
    {
        let l = raw[i];
        out.push(l);
        out.push(l);
        out.push(l);
        i += 1;
    }
    assert(out@ =~= gray16_to_rgb16_spec(raw@));
    out
}

/// Every sample widened to 16 bits.
pub fn rgb8_to_rgb16(raw: &[u8]) -> (out: Vec<u16>)
    ensures
        out@ == rgb8_to_rgb16_spec(raw@),
        out@.len() == raw@.len(),
        forall|p: int| 0 <= p < out@.len() ==> #[trigger] out@[p] == up8_spec(raw@[p]),
{
    let mut out: Vec<u16> = Vec::new();
    let mut i: usize = 0;
    while i < raw.len()
        invariant
            0 <= i <= raw@.len(),
            out@.len() == i,
            forall|p: int| 0 <= p < out@.len() ==> #[trigger] out@[p] == up8_spec(raw@[p]),
        decreases raw@.len() - i,
    {
        out.push(up8(raw[i]));
        i += 1;
    }
    assert(out@ =~= rgb8_to_rgb16_spec(raw@));
    out
}

// ----- opacity tests -----

/// Every complete `stride`-byte pixel of `raw` has the 8-bit alpha value 255 at offset `at`.
pub open spec fn all_opaque8(raw: Seq<u8>, stride: int, at: int) -> bool {
    forall|i: int| 0 <= i < (raw.len() as int) / stride ==> #[trigger] raw[i * stride + at] == 255
}

/// Every complete `stride`-sample pixel of `raw` has the 16-bit alpha value 65535 at `at`.
pub open spec fn all_opaque16(raw: Seq<u16>, stride: int, at: int) -> bool {
    forall|i: int| 0 <= i < (raw.len() as int) / stride ==> #[trigger] raw[i * stride + at] == 65535
}

/// Every complete `stride`-byte pixel of `raw` holds a 16-bit alpha of 65535 at byte offset `at`.
pub open spec fn all_opaque16_bytes(raw: Seq<u8>, stride: int, at: int, little_endian: bool) -> bool {
    forall|i: int|
        0 <= i < (raw.len() as int) / stride ==> #[trigger] sample16(raw, i * stride + at, little_endian)
            == 65535
}

/// Sample `at` of pixel `i` lies inside a buffer of `len` samples holding `len / stride` pixels.
proof fn lemma_pixel_in_bounds(i: int, n: int, len: int, stride: int, at: int, width: int)
    requires
        0 <= i < n,
        n == len / stride,
        stride >= 1,
        0 <= at,
        1 <= width,
        at + width <= stride,
    ensures
        0 <= i * stride,
        i * stride + at + width <= len,
        i * stride + at + width <= n * stride,
{
    vstd::arithmetic::div_mod::lemma_fundamental_div_mod(len, stride);
    vstd::arithmetic::mul::lemma_mul_inequality(i + 1, n, stride);
    vstd::arithmetic::mul::lemma_mul_is_distributive_add_other_way(stride, i, 1);
    vstd::arithmetic::mul::lemma_mul_nonnegative(i, stride);
    assert(n * stride <= len) by {
        vstd::arithmetic::mul::lemma_mul_is_commutative(n, stride);
    }
}

fn is_opaque8(raw: &[u8], stride: usize, at: usize) -> (b: bool)
    requires
        1 <= stride,
        at < stride,
    ensures
        b == all_opaque8(raw@, stride as int, at as int),
{
    let len = raw.len();
    let n = len / stride;
    let mut i: usize = 0;
    while i < n
        invariant
            len == raw@.len(),
            1 <= stride,
            at < stride,
            n == (raw@.len() as int) / (stride as int),
            0 <= i <= n,
            forall|j: int| 0 <= j < i ==> #[trigger] raw@[j * stride + at] == 255,
        decreases n - i,
    {
        proof {
            lemma_pixel_in_bounds(i as int, n as int, len as int, stride as int, at as int, 1);
        }
        if raw[i * stride + at] != 255 {
            return false;
        }
        i += 1;
    }
    true
}

fn is_opaque16(raw: &[u16], stride: usize, at: usize) -> (b: bool)
    requires
        1 <= stride,
        at < stride,
    ensures
        b == all_opaque16(raw@, stride as int, at as int),
{
    let len = raw.len();
    let n = len / stride;
    let mut i: usize = 0;
    while i < n
        invariant
            len == raw@.len(),
            1 <= stride,
            at < stride,
            n == (raw@.len() as int) / (stride as int),
            0 <= i <= n,
            forall|j: int| 0 <= j < i ==> #[trigger] raw@[j * stride + at] == 65535,
        decreases n - i,
    {
        proof {
            lemma_pixel_in_bounds(i as int, n as int, len as int, stride as int, at as int, 1);
        }
        if raw[i * stride + at] != 65535 {
            return false;
        }
        i += 1;
    }
    true
}

fn is_opaque16_bytes(raw: &[u8], stride: usize, at: usize, little_endian: bool) -> (b: bool)
    requires
        2 <= stride,
        at + 2 <= stride,
    ensures
        b == all_opaque16_bytes(raw@, stride as int, at as int, little_endian),
{
    let len = raw.len();
    let n = len / stride;
    let mut i: usize = 0;
    while i < n
        invariant
            len == raw@.len(),
            2 <= stride,
            at + 2 <= stride,
            n == (raw@.len() as int) / (stride as int),
            0 <= i <= n,
            forall|j: int|
                0 <= j < i ==> #[trigger] sample16(raw@, j * stride + at, little_endian) == 65535,
        decreases n - i,
    {
        proof {
            lemma_pixel_in_bounds(i as int, n as int, len as int, stride as int, at as int, 2);
        }
        if read_u16_at(raw, i * stride + at, little_endian) != 65535 {
            return false;
        }
        i += 1;
    }
    true
}

} // verus!

verus! {

/// Gray+alpha 8-bit pixels: neutral RGB when every pixel is opaque, else RGBA.
pub fn gray_alpha8_to_working_data(raw: &[u8]) -> (out: WorkingData)
    requires
        raw@.len() * 2 <= usize::MAX,
    ensures
        out@ == gray_alpha8_spec(raw@),
        all_opaque8(raw@, 2, 1) ==> (out matches WorkingData::Rgb8(d) && d@.len() == (raw@.len()
            / 2) * 3 && forall|p: int| 0 <= p < d@.len() ==> #[trigger] d@[p] == raw@[2 * (p / 3)]),
        !all_opaque8(raw@, 2, 1) ==> (out matches WorkingData::Rgba8(d) && d@.len() == (raw@.len()
            / 2) * 4 && forall|p: int|
            0 <= p < d@.len() ==> #[trigger] d@[p] == raw@[2 * (p / 4) + if p % 4 == 3 {
                1int
            } else {
                0int
            }]),
{
    let n = raw.len() / 2;
    let opaque = is_opaque8(raw, 2, 1);
    let mut out: Vec<u8> = Vec::new();
    let mut i: usize = 0;
    while i < n
        invariant
            n == raw@.len() / 2,
            raw@.len() * 2 <= usize::MAX,
            0 <= i <= n,
            opaque ==> out@.len() == i * 3,
            !opaque ==> out@.len() == i * 4,
            opaque ==> forall|p: int| 0 <= p < out@.len() ==> #[trigger] out@[p] == raw@[2 * (p / 3)],
            !opaque ==> forall|p: int|
                0 <= p < out@.len() ==> #[trigger] out@[p] == raw@[2 * (p / 4) + if p % 4 == 3 {
                    1int
                } else {
                    0int
                }],
        decreases n - i,
    {
        let g = raw[2 * i];
        out.push(g);
        out.push(g);
        out.push(g);
        if !opaque {
            out.push(raw[2 * i + 1]);
        }
        i += 1;
    }
    proof {
        if opaque {
            assert(out@ =~= gray_alpha8_spec(raw@).samples8());
        } else {
            assert(out@ =~= gray_alpha8_spec(raw@).samples8());
        }
    }
    if opaque {
        WorkingData::Rgb8(out)
    } else {
        WorkingData::Rgba8(out)
    }
}

/// Gray+alpha 8-bit pixels widened to 16 bits: neutral RGB when every pixel is opaque, else RGBA.
pub fn gray_alpha8_to_working_data16(raw: &[u8]) -> (out: WorkingData)
    requires
        raw@.len() * 2 <= usize::MAX,
    ensures
        out@ == gray_alpha8_16_spec(raw@),
        all_opaque8(raw@, 2, 1) ==> (out matches WorkingData::Rgb16(d) && d@.len() == (raw@.len()
            / 2) * 3 && forall|p: int|
            0 <= p < d@.len() ==> #[trigger] d@[p] == up8_spec(raw@[2 * (p / 3)])),
        !all_opaque8(raw@, 2, 1) ==> (out matches WorkingData::Rgba16(d) && d@.len() == (raw@.len()
            / 2) * 4 && forall|p: int|
            0 <= p < d@.len() ==> #[trigger] d@[p] == up8_spec(
                raw@[2 * (p / 4) + if p % 4 == 3 {
                    1int
                } else {
                    0int
                }],
            )),
{
    let n = raw.len() / 2;
    let opaque = is_opaque8(raw, 2, 1);
    let mut out: Vec<u16> = Vec::new();
    let mut i: usize = 0;
    while i < n
        invariant
            n == raw@.len() / 2,
            raw@.len() * 2 <= usize::MAX,
            0 <= i <= n,
            opaque ==> out@.len() == i * 3,
            !opaque ==> out@.len() == i * 4,
            opaque ==> forall|p: int|
                0 <= p < out@.len() ==> #[trigger] out@[p] == up8_spec(raw@[2 * (p / 3)]),
            !opaque ==> forall|p: int|
                0 <= p < out@.len() ==> #[trigger] out@[p] == up8_spec(
                    raw@[2 * (p / 4) + if p % 4 == 3 {
                        1int
                    } else {
                        0int
                    }],
                ),
        decreases n - i,
    {
        let g = up8(raw[2 * i]);
        out.push(g);
        out.push(g);
        out.push(g);
        if !opaque {
            out.push(up8(raw[2 * i + 1]));
        }
        i += 1;
    }
    proof {
        if opaque {
            assert(out@ =~= gray_alpha8_16_spec(raw@).samples16());
        } else {
            assert(out@ =~= gray_alpha8_16_spec(raw@).samples16());
        }
    }
    if opaque {
        WorkingData::Rgb16(out)
    } else {
        WorkingData::Rgba16(out)
    }
}

/// RGBA 8-bit pixels: the alpha channel is dropped when every pixel is opaque.
pub fn rgba8_to_working_data(raw: Vec<u8>) -> (out: WorkingData)
    ensures
        out@ == rgba8_spec(raw@),
        all_opaque8(raw@, 4, 3) ==> (out matches WorkingData::Rgb8(d) && d@.len() == (raw@.len()
            / 4) * 3 && forall|p: int|
            0 <= p < d@.len() ==> #[trigger] d@[p] == raw@[4 * (p / 3) + p % 3]),
        !all_opaque8(raw@, 4, 3) ==> out == WorkingData::Rgba8(raw),
{
    if is_opaque8(&raw, 4, 3) {
        let len = raw.len();
        let n = len / 4;
        let mut rgb: Vec<u8> = Vec::new();
        let mut i: usize = 0;
        while i < n
            invariant
                len == raw@.len(),
                n == raw@.len() / 4,
                0 <= i <= n,
                rgb@.len() == i * 3,
                forall|p: int| 0 <= p < rgb@.len() ==> #[trigger] rgb@[p] == raw@[4 * (p / 3) + p % 3],
            decreases n - i,
        {
            rgb.push(raw[4 * i]);
            rgb.push(raw[4 * i + 1]);
            rgb.push(raw[4 * i + 2]);
            i += 1;
        }
        assert(rgb@ =~= rgba8_spec(raw@).samples8());
        WorkingData::Rgb8(rgb)
    } else {
        WorkingData::Rgba8(raw)
    }
}

/// RGBA 8-bit pixels widened to 16 bits; the alpha channel is dropped when every pixel is opaque.
pub fn rgba8_to_working_data16(raw: &[u8]) -> (out: WorkingData)
    ensures
        out@ == rgba8_16_spec(raw@),
        all_opaque8(raw@, 4, 3) ==> (out matches WorkingData::Rgb16(d) && d@.len() == (raw@.len()
            / 4) * 3 && forall|p: int|
            0 <= p < d@.len() ==> #[trigger] d@[p] == up8_spec(raw@[4 * (p / 3) + p % 3])),
        !all_opaque8(raw@, 4, 3) ==> (out matches WorkingData::Rgba16(d) && d@.len() == raw@.len()
            && forall|p: int| 0 <= p < d@.len() ==> #[trigger] d@[p] == up8_spec(raw@[p])),
{
    if is_opaque8(raw, 4, 3) {
        let len = raw.len();
        let n = len / 4;
        let mut rgb: Vec<u16> = Vec::new();
        let mut i: usize = 0;
        while i < n
            invariant
                len == raw@.len(),
                n == raw@.len() / 4,
                0 <= i <= n,
                rgb@.len() == i * 3,
                forall|p: int|
                    0 <= p < rgb@.len() ==> #[trigger] rgb@[p] == up8_spec(raw@[4 * (p / 3) + p % 3]),
            decreases n - i,
        {
            rgb.push(up8(raw[4 * i]));
            rgb.push(up8(raw[4 * i + 1]));
            rgb.push(up8(raw[4 * i + 2]));
            i += 1;
        }
        assert(rgb@ =~= rgba8_16_spec(raw@).samples16());
        WorkingData::Rgb16(rgb)
    } else {
        let all = rgb8_to_rgb16(raw);
        WorkingData::Rgba16(all)
    }
}

/// RGBA 16-bit pixels: the alpha channel is dropped when every pixel is opaque.
pub fn rgba16_to_working_data(raw: Vec<u16>) -> (out: WorkingData)
    ensures
        out@ == rgba16_spec(raw@),
        all_opaque16(raw@, 4, 3) ==> (out matches WorkingData::Rgb16(d) && d@.len() == (raw@.len()
            / 4) * 3 && forall|p: int|
            0 <= p < d@.len() ==> #[trigger] d@[p] == raw@[4 * (p / 3) + p % 3]),
        !all_opaque16(raw@, 4, 3) ==> out == WorkingData::Rgba16(raw),
{
    if is_opaque16(&raw, 4, 3) {
        let len = raw.len();
        let n = len / 4;
        let mut rgb: Vec<u16> = Vec::new();
        let mut i: usize = 0;
        while i < n
            invariant
                len == raw@.len(),
                n == raw@.len() / 4,
                0 <= i <= n,
                rgb@.len() == i * 3,
                forall|p: int| 0 <= p < rgb@.len() ==> #[trigger] rgb@[p] == raw@[4 * (p / 3) + p % 3],
            decreases n - i,
        {
            rgb.push(raw[4 * i]);
            rgb.push(raw[4 * i + 1]);
            rgb.push(raw[4 * i + 2]);
            i += 1;
        }
        assert(rgb@ =~= rgba16_spec(raw@).samples16());
        WorkingData::Rgb16(rgb)
    } else {
        WorkingData::Rgba16(raw)
    }
}

} // verus!

verus! {

/// 16-bit gray samples (machine byte order) narrowed to 8-bit neutral RGB pixels.
pub fn gray16_bytes_to_rgb8(raw: &[u8], little_endian: bool) -> (out: Vec<u8>)
    requires
        raw@.len() * 2 <= usize::MAX,
    ensures
        out@ == gray16_bytes_to_rgb8_spec(raw@, little_endian),
        out@.len() == (raw@.len() / 2) * 3,
        forall|p: int|
            0 <= p < out@.len() ==> #[trigger] out@[p] == down16_spec(
                sample16(raw@, 2 * (p / 3), little_endian),
            ),
{
    let len = raw.len();
    let n = len / 2;
    let mut out: Vec<u8> = Vec::new();
    let mut i: usize = 0;
    while i < n
        invariant
            len == raw@.len(),
            n == raw@.len() / 2,
            raw@.len() * 2 <= usize::MAX,
            0 <= i <= n,
            out@.len() == i * 3,
            forall|p: int|
                0 <= p < out@.len() ==> #[trigger] out@[p] == down16_spec(
                    sample16(raw@, 2 * (p / 3), little_endian),
                ),
        decreases n - i,
    {
        let value = down16(read_u16_at(raw, 2 * i, little_endian));
        out.push(value);
        out.push(value);
        out.push(value);
        i += 1;
    }
    assert(out@ =~= gray16_bytes_to_rgb8_spec(raw@, little_endian));
    out
}

/// 16-bit gray samples (machine byte order) as 16-bit neutral RGB pixels.
pub fn gray16_bytes_to_rgb16(raw: &[u8], little_endian: bool) -> (out: Vec<u16>)
    requires
        raw@.len() * 2 <= usize::MAX,
    ensures
        out@ == gray16_bytes_to_rgb16_spec(raw@, little_endian),
        out@.len() == (raw@.len() / 2) * 3,
        forall|p: int|
            0 <= p < out@.len() ==> #[trigger] out@[p] == sample16(raw@, 2 * (p / 3), little_endian),
{
    let len = raw.len();
    let n = len / 2;
    let mut out: Vec<u16> = Vec::new();
    let mut i: usize = 0;
    while i < n
        invariant
            len == raw@.len(),
            n == raw@.len() / 2,
            raw@.len() * 2 <= usize::MAX,
            0 <= i <= n,
            out@.len() == i * 3,
            forall|p: int|
                0 <= p < out@.len() ==> #[trigger] out@[p] == sample16(
                    raw@,
                    2 * (p / 3),
                    little_endian,
                ),
        decreases n - i,
    {
        let value = read_u16_at(raw, 2 * i, little_endian);
        out.push(value);
        out.push(value);
        out.push(value);
        i += 1;
    }
    assert(out@ =~= gray16_bytes_to_rgb16_spec(raw@, little_endian));
    out
}

/// 16-bit samples (machine byte order) narrowed to 8 bits, one for one.
pub fn rgb16_bytes_to_rgb8(raw: &[u8], little_endian: bool) -> (out: Vec<u8>)
    ensures
        out@ == rgb16_bytes_to_rgb8_spec(raw@, little_endian),
        out@.len() == raw@.len() / 2,
        forall|p: int|
            0 <= p < out@.len() ==> #[trigger] out@[p] == down16_spec(
                sample16(raw@, 2 * p, little_endian),
            ),
{
    let len = raw.len();
    let n = len / 2;
    let mut out: Vec<u8> = Vec::new();
    let mut i: usize = 0;
    while i < n
        invariant
            len == raw@.len(),
            n == raw@.len() / 2,
            0 <= i <= n,
            out@.len() == i,
            forall|p: int|
                0 <= p < out@.len() ==> #[trigger] out@[p] == down16_spec(
                    sample16(raw@, 2 * p, little_endian),
                ),
        decreases n - i,
    {
        out.push(down16(read_u16_at(raw, 2 * i, little_endian)));
        i += 1;
    }
    assert(out@ =~= rgb16_bytes_to_rgb8_spec(raw@, little_endian));
    out
}

/// 16-bit samples (machine byte order), one for one.
pub fn rgb16_bytes_to_rgb16(raw: &[u8], little_endian: bool) -> (out: Vec<u16>)
    ensures
        out@ == rgb16_bytes_to_rgb16_spec(raw@, little_endian),
        out@.len() == raw@.len() / 2,
        forall|p: int|
            0 <= p < out@.len() ==> #[trigger] out@[p] == sample16(raw@, 2 * p, little_endian),
{
    let len = raw.len();
    let n = len / 2;
    let mut out: Vec<u16> = Vec::new();
    let mut i: usize = 0;
    while i < n
        invariant
            len == raw@.len(),
            n == raw@.len() / 2,
            0 <= i <= n,
            out@.len() == i,
            forall|p: int|
                0 <= p < out@.len() ==> #[trigger] out@[p] == sample16(raw@, 2 * p, little_endian),
        decreases n - i,
    {
        out.push(read_u16_at(raw, 2 * i, little_endian));
        i += 1;
    }
    assert(out@ =~= rgb16_bytes_to_rgb16_spec(raw@, little_endian));
    out
}

/// Byte offset, inside a 4-byte gray+alpha pixel, of the sample that output channel `c` takes.
pub open spec fn gray_alpha_offset(c: int) -> int {
    if c == 3 {
        2
    } else {
        0
    }
}

// ----- what each conversion produces -----

pub open spec fn gray8_to_rgb8_spec(raw: Seq<u8>) -> Seq<u8> {
    Seq::new(raw.len() * 3, |p: int| raw[p / 3])
}

pub open spec fn gray8_to_rgb16_spec(raw: Seq<u8>) -> Seq<u16> {
    Seq::new(raw.len() * 3, |p: int| up8_spec(raw[p / 3]))
}

pub open spec fn gray16_to_rgb16_spec(raw: Seq<u16>) -> Seq<u16> {
    Seq::new(raw.len() * 3, |p: int| raw[p / 3])
}

pub open spec fn rgb8_to_rgb16_spec(raw: Seq<u8>) -> Seq<u16> {
    Seq::new(raw.len(), |p: int| up8_spec(raw[p]))
}

/// Offset, inside a two-sample gray+alpha pixel, of the sample that output channel `c` takes.
pub open spec fn gray_alpha_index(c: int) -> int {
    if c == 3 {
        1
    } else {
        0
    }
}

pub open spec fn gray_alpha8_spec(raw: Seq<u8>) -> SampleView {
    if all_opaque8(raw, 2, 1) {
        SampleView::Rgb8(Seq::new((raw.len() / 2) * 3, |p: int| raw[2 * (p / 3)]))
    } else {
        SampleView::Rgba8(
            Seq::new((raw.len() / 2) * 4, |p: int| raw[2 * (p / 4) + gray_alpha_index(p % 4)]),
        )
    }
}

pub open spec fn gray_alpha8_16_spec(raw: Seq<u8>) -> SampleView {
    if all_opaque8(raw, 2, 1) {
        SampleView::Rgb16(Seq::new((raw.len() / 2) * 3, |p: int| up8_spec(raw[2 * (p / 3)])))
    } else {
        SampleView::Rgba16(
            Seq::new(
                (raw.len() / 2) * 4,
                |p: int| up8_spec(raw[2 * (p / 4) + gray_alpha_index(p % 4)]),
            ),
        )
    }
}

pub open spec fn rgba8_spec(raw: Seq<u8>) -> SampleView {
    if all_opaque8(raw, 4, 3) {
        SampleView::Rgb8(Seq::new((raw.len() / 4) * 3, |p: int| raw[4 * (p / 3) + p % 3]))
    } else {
        SampleView::Rgba8(raw)
    }
}

pub open spec fn rgba8_16_spec(raw: Seq<u8>) -> SampleView {
    if all_opaque8(raw, 4, 3) {
        SampleView::Rgb16(Seq::new((raw.len() / 4) * 3, |p: int| up8_spec(raw[4 * (p / 3) + p % 3])))
    } else {
        SampleView::Rgba16(rgb8_to_rgb16_spec(raw))
    }
}

pub open spec fn rgba16_spec(raw: Seq<u16>) -> SampleView {
    if all_opaque16(raw, 4, 3) {
        SampleView::Rgb16(Seq::new((raw.len() / 4) * 3, |p: int| raw[4 * (p / 3) + p % 3]))
    } else {
        SampleView::Rgba16(raw)
    }
}

pub open spec fn gray16_bytes_to_rgb8_spec(raw: Seq<u8>, le: bool) -> Seq<u8> {
    Seq::new((raw.len() / 2) * 3, |p: int| down16_spec(sample16(raw, 2 * (p / 3), le)))
}

pub open spec fn gray16_bytes_to_rgb16_spec(raw: Seq<u8>, le: bool) -> Seq<u16> {
    Seq::new((raw.len() / 2) * 3, |p: int| sample16(raw, 2 * (p / 3), le))
}

pub open spec fn rgb16_bytes_to_rgb8_spec(raw: Seq<u8>, le: bool) -> Seq<u8> {
    Seq::new(raw.len() / 2, |p: int| down16_spec(sample16(raw, 2 * p, le)))
}

pub open spec fn rgb16_bytes_to_rgb16_spec(raw: Seq<u8>, le: bool) -> Seq<u16> {
    Seq::new(raw.len() / 2, |p: int| sample16(raw, 2 * p, le))
}

pub open spec fn gray_alpha16_bytes_8_spec(raw: Seq<u8>, le: bool) -> SampleView {
    if all_opaque16_bytes(raw, 4, 2, le) {
        SampleView::Rgb8(Seq::new((raw.len() / 4) * 3, |p: int| down16_spec(sample16(raw, 4 * (p / 3), le))))
    } else {
        SampleView::Rgba8(
            Seq::new(
                (raw.len() / 4) * 4,
                |p: int| down16_spec(sample16(raw, 4 * (p / 4) + gray_alpha_offset(p % 4), le)),
            ),
        )
    }
}

pub open spec fn gray_alpha16_bytes_16_spec(raw: Seq<u8>, le: bool) -> SampleView {
    if all_opaque16_bytes(raw, 4, 2, le) {
        SampleView::Rgb16(Seq::new((raw.len() / 4) * 3, |p: int| sample16(raw, 4 * (p / 3), le)))
    } else {
        SampleView::Rgba16(
            Seq::new(
                (raw.len() / 4) * 4,
                |p: int| sample16(raw, 4 * (p / 4) + gray_alpha_offset(p % 4), le),
            ),
        )
    }
}

pub open spec fn rgba16_bytes_8_spec(raw: Seq<u8>, le: bool) -> SampleView {
    if all_opaque16_bytes(raw, 8, 6, le) {
        SampleView::Rgb8(
            Seq::new((raw.len() / 8) * 3, |p: int| down16_spec(sample16(raw, 8 * (p / 3) + 2 * (p % 3), le))),
        )
    } else {
        SampleView::Rgba8(
            Seq::new((raw.len() / 8) * 4, |p: int| down16_spec(sample16(raw, 8 * (p / 4) + 2 * (p % 4), le))),
        )
    }
}

pub open spec fn rgba16_bytes_16_spec(raw: Seq<u8>, le: bool) -> SampleView {
    if all_opaque16_bytes(raw, 8, 6, le) {
        SampleView::Rgb16(Seq::new((raw.len() / 8) * 3, |p: int| sample16(raw, 8 * (p / 3) + 2 * (p % 3), le)))
    } else {
        SampleView::Rgba16(Seq::new((raw.len() / 8) * 4, |p: int| sample16(raw, 8 * (p / 4) + 2 * (p % 4), le)))
    }
}


/// 16-bit gray+alpha pixels narrowed to 8 bits: neutral RGB when every pixel is opaque, else RGBA.
pub fn gray_alpha16_bytes_to_working_data8(raw: &[u8], little_endian: bool) -> (out: WorkingData)
    ensures
        out@ == gray_alpha16_bytes_8_spec(raw@, little_endian),
        all_opaque16_bytes(raw@, 4, 2, little_endian) ==> (out matches WorkingData::Rgb8(d)
            && d@.len() == (raw@.len() / 4) * 3 && forall|p: int|
            0 <= p < d@.len() ==> #[trigger] d@[p] == down16_spec(
                sample16(raw@, 4 * (p / 3), little_endian),
            )),
        !all_opaque16_bytes(raw@, 4, 2, little_endian) ==> (out matches WorkingData::Rgba8(d)
            && d@.len() == (raw@.len() / 4) * 4 && forall|p: int|
            0 <= p < d@.len() ==> #[trigger] d@[p] == down16_spec(
                sample16(raw@, 4 * (p / 4) + gray_alpha_offset(p % 4), little_endian),
            )),
{
    let len = raw.len();
    let n = len / 4;
    let opaque = is_opaque16_bytes(raw, 4, 2, little_endian);
    let mut out: Vec<u8> = Vec::new();
    let mut i: usize = 0;
    while i < n
        invariant
            len == raw@.len(),
            n == raw@.len() / 4,
            0 <= i <= n,
            opaque ==> out@.len() == i * 3,
            !opaque ==> out@.len() == i * 4,
            opaque ==> forall|p: int|
                0 <= p < out@.len() ==> #[trigger] out@[p] == down16_spec(
                    sample16(raw@, 4 * (p / 3), little_endian),
                ),
            !opaque ==> forall|p: int|
                0 <= p < out@.len() ==> #[trigger] out@[p] == down16_spec(
                    sample16(raw@, 4 * (p / 4) + gray_alpha_offset(p % 4), little_endian),
                ),
        decreases n - i,
    {
        let value = down16(read_u16_at(raw, 4 * i, little_endian));
        out.push(value);
        out.push(value);
        out.push(value);
        if !opaque {
            out.push(down16(read_u16_at(raw, 4 * i + 2, little_endian)));
        }
        i += 1;
    }
    proof {
        if opaque {
            assert(out@ =~= gray_alpha16_bytes_8_spec(raw@, little_endian).samples8());
        } else {
            assert(out@ =~= gray_alpha16_bytes_8_spec(raw@, little_endian).samples8());
        }
    }
    if opaque {
        WorkingData::Rgb8(out)
    } else {
        WorkingData::Rgba8(out)
    }
}

/// 16-bit gray+alpha pixels: neutral RGB when every pixel is opaque, else RGBA.
pub fn gray_alpha16_bytes_to_working_data16(raw: &[u8], little_endian: bool) -> (out: WorkingData)
    ensures
        out@ == gray_alpha16_bytes_16_spec(raw@, little_endian),
        all_opaque16_bytes(raw@, 4, 2, little_endian) ==> (out matches WorkingData::Rgb16(d)
            && d@.len() == (raw@.len() / 4) * 3 && forall|p: int|
            0 <= p < d@.len() ==> #[trigger] d@[p] == sample16(raw@, 4 * (p / 3), little_endian)),
        !all_opaque16_bytes(raw@, 4, 2, little_endian) ==> (out matches WorkingData::Rgba16(d)
            && d@.len() == (raw@.len() / 4) * 4 && forall|p: int|
            0 <= p < d@.len() ==> #[trigger] d@[p] == sample16(
                raw@,
                4 * (p / 4) + gray_alpha_offset(p % 4),
                little_endian,
            )),
{
    let len = raw.len();
    let n = len / 4;
    let opaque = is_opaque16_bytes(raw, 4, 2, little_endian);
    let mut out: Vec<u16> = Vec::new();
    let mut i: usize = 0;
    while i < n
        invariant
            len == raw@.len(),
            n == raw@.len() / 4,
            0 <= i <= n,
            opaque ==> out@.len() == i * 3,
            !opaque ==> out@.len() == i * 4,
            opaque ==> forall|p: int|
                0 <= p < out@.len() ==> #[trigger] out@[p] == sample16(
                    raw@,
                    4 * (p / 3),
                    little_endian,
                ),
            !opaque ==> forall|p: int|
                0 <= p < out@.len() ==> #[trigger] out@[p] == sample16(
                    raw@,
                    4 * (p / 4) + gray_alpha_offset(p % 4),
                    little_endian,
                ),
        decreases n - i,
    {
        let value = read_u16_at(raw, 4 * i, little_endian);
        out.push(value);
        out.push(value);
        out.push(value);
        if !opaque {
            out.push(read_u16_at(raw, 4 * i + 2, little_endian));
        }
        i += 1;
    }
    proof {
        if opaque {
            assert(out@ =~= gray_alpha16_bytes_16_spec(raw@, little_endian).samples16());
        } else {
            assert(out@ =~= gray_alpha16_bytes_16_spec(raw@, little_endian).samples16());
        }
    }
    if opaque {
        WorkingData::Rgb16(out)
    } else {
        WorkingData::Rgba16(out)
    }
}

/// 16-bit RGBA pixels narrowed to 8 bits; the alpha channel is dropped when every pixel is opaque.
pub fn rgba16_bytes_to_working_data8(raw: &[u8], little_endian: bool) -> (out: WorkingData)
    ensures
        out@ == rgba16_bytes_8_spec(raw@, little_endian),
        all_opaque16_bytes(raw@, 8, 6, little_endian) ==> (out matches WorkingData::Rgb8(d)
            && d@.len() == (raw@.len() / 8) * 3 && forall|p: int|
            0 <= p < d@.len() ==> #[trigger] d@[p] == down16_spec(
                sample16(raw@, 8 * (p / 3) + 2 * (p % 3), little_endian),
            )),
        !all_opaque16_bytes(raw@, 8, 6, little_endian) ==> (out matches WorkingData::Rgba8(d)
            && d@.len() == (raw@.len() / 8) * 4 && forall|p: int|
            0 <= p < d@.len() ==> #[trigger] d@[p] == down16_spec(
                sample16(raw@, 8 * (p / 4) + 2 * (p % 4), little_endian),
            )),
{
    let len = raw.len();
    let n = len / 8;
    let opaque = is_opaque16_bytes(raw, 8, 6, little_endian);
    let mut out: Vec<u8> = Vec::new();
    let mut i: usize = 0;
    while i < n
        invariant
            len == raw@.len(),
            n == raw@.len() / 8,
            0 <= i <= n,
            opaque ==> out@.len() == i * 3,
            !opaque ==> out@.len() == i * 4,
            opaque ==> forall|p: int|
                0 <= p < out@.len() ==> #[trigger] out@[p] == down16_spec(
                    sample16(raw@, 8 * (p / 3) + 2 * (p % 3), little_endian),
                ),
            !opaque ==> forall|p: int|
                0 <= p < out@.len() ==> #[trigger] out@[p] == down16_spec(
                    sample16(raw@, 8 * (p / 4) + 2 * (p % 4), little_endian),
                ),
        decreases n - i,
    {
        out.push(down16(read_u16_at(raw, 8 * i, little_endian)));
        out.push(down16(read_u16_at(raw, 8 * i + 2, little_endian)));
        out.push(down16(read_u16_at(raw, 8 * i + 4, little_endian)));
        if !opaque {
            out.push(down16(read_u16_at(raw, 8 * i + 6, little_endian)));
        }
        i += 1;
    }
    proof {
        if opaque {
            assert(out@ =~= rgba16_bytes_8_spec(raw@, little_endian).samples8());
        } else {
            assert(out@ =~= rgba16_bytes_8_spec(raw@, little_endian).samples8());
        }
    }
    if opaque {
        WorkingData::Rgb8(out)
    } else {
        WorkingData::Rgba8(out)
    }
}

/// 16-bit RGBA pixels; the alpha channel is dropped when every pixel is opaque.
pub fn rgba16_bytes_to_working_data16(raw: &[u8], little_endian: bool) -> (out: WorkingData)
    ensures
        out@ == rgba16_bytes_16_spec(raw@, little_endian),
        all_opaque16_bytes(raw@, 8, 6, little_endian) ==> (out matches WorkingData::Rgb16(d)
            && d@.len() == (raw@.len() / 8) * 3 && forall|p: int|
            0 <= p < d@.len() ==> #[trigger] d@[p] == sample16(
                raw@,
                8 * (p / 3) + 2 * (p % 3),
                little_endian,
            )),
        !all_opaque16_bytes(raw@, 8, 6, little_endian) ==> (out matches WorkingData::Rgba16(d)
            && d@.len() == (raw@.len() / 8) * 4 && forall|p: int|
            0 <= p < d@.len() ==> #[trigger] d@[p] == sample16(
                raw@,
                8 * (p / 4) + 2 * (p % 4),
                little_endian,
            )),
{
    let len = raw.len();
    let n = len / 8;
    let opaque = is_opaque16_bytes(raw, 8, 6, little_endian);
    let mut out: Vec<u16> = Vec::new();
    let mut i: usize = 0;
    while i < n
        invariant
            len == raw@.len(),
            n == raw@.len() / 8,
            0 <= i <= n,
            opaque ==> out@.len() == i * 3,
            !opaque ==> out@.len() == i * 4,
            opaque ==> forall|p: int|
                0 <= p < out@.len() ==> #[trigger] out@[p] == sample16(
                    raw@,
                    8 * (p / 3) + 2 * (p % 3),
                    little_endian,
                ),
            !opaque ==> forall|p: int|
                0 <= p < out@.len() ==> #[trigger] out@[p] == sample16(
                    raw@,
                    8 * (p / 4) + 2 * (p % 4),
                    little_endian,
                ),
        decreases n - i,
    {
        out.push(read_u16_at(raw, 8 * i, little_endian));
        out.push(read_u16_at(raw, 8 * i + 2, little_endian));
        out.push(read_u16_at(raw, 8 * i + 4, little_endian));
        if !opaque {
            out.push(read_u16_at(raw, 8 * i + 6, little_endian));
        }
        i += 1;
    }
    proof {
        if opaque {
            assert(out@ =~= rgba16_bytes_16_spec(raw@, little_endian).samples16());
        } else {
            assert(out@ =~= rgba16_bytes_16_spec(raw@, little_endian).samples16());
        }
    }
    if opaque {
        WorkingData::Rgb16(out)
    } else {
        WorkingData::Rgba16(out)
    }
}

} // verus!

verus! {

/// The pixel layout reported by a decoder.
#[derive(Debug, Clone, PartialEq, Eq)]
pub enum DecodedColorType {
    L8,
    La8,
    Rgb8,
    Rgba8,
    L16,
    La16,
    Rgb16,
    Rgba16,
    /// A layout the pipeline does not handle, with the decoder's own name for it.
    Other(String),
}

/// The working samples for a decoded 8-bit or 16-bit buffer, taken down to 8 bits.
pub open spec fn decoded_to_8bit_spec(color_type: DecodedColorType, raw: Seq<u8>, le: bool) -> Option<
    SampleView,
> {
    match color_type {
        DecodedColorType::L8 => Some(SampleView::Rgb8(gray8_to_rgb8_spec(raw))),
        DecodedColorType::La8 => Some(gray_alpha8_spec(raw)),
        DecodedColorType::Rgb8 => Some(SampleView::Rgb8(raw)),
        DecodedColorType::Rgba8 => Some(rgba8_spec(raw)),
        DecodedColorType::L16 => Some(SampleView::Rgb8(gray16_bytes_to_rgb8_spec(raw, le))),
        DecodedColorType::La16 => Some(gray_alpha16_bytes_8_spec(raw, le)),
        DecodedColorType::Rgb16 => Some(SampleView::Rgb8(rgb16_bytes_to_rgb8_spec(raw, le))),
        DecodedColorType::Rgba16 => Some(rgba16_bytes_8_spec(raw, le)),
        DecodedColorType::Other(_) => None,
    }
}

/// The working samples for a decoded 8-bit or 16-bit buffer, kept at (or widened to) 16 bits.
pub open spec fn decoded_to_16bit_spec(color_type: DecodedColorType, raw: Seq<u8>, le: bool) -> Option<
    SampleView,
> {
    match color_type {
        DecodedColorType::L8 => Some(SampleView::Rgb16(gray8_to_rgb16_spec(raw))),
        DecodedColorType::La8 => Some(gray_alpha8_16_spec(raw)),
        DecodedColorType::Rgb8 => Some(SampleView::Rgb16(rgb8_to_rgb16_spec(raw))),
        DecodedColorType::Rgba8 => Some(rgba8_16_spec(raw)),
        DecodedColorType::L16 => Some(SampleView::Rgb16(gray16_bytes_to_rgb16_spec(raw, le))),
        DecodedColorType::La16 => Some(gray_alpha16_bytes_16_spec(raw, le)),
        DecodedColorType::Rgb16 => Some(SampleView::Rgb16(rgb16_bytes_to_rgb16_spec(raw, le))),
        DecodedColorType::Rgba16 => Some(rgba16_bytes_16_spec(raw, le)),
        DecodedColorType::Other(_) => None,
    }
}

/// Samples narrowed to 8 bits; 8-bit samples are kept.
pub open spec fn narrowed(v: SampleView) -> SampleView {
    match v {
        SampleView::Rgb16(d) => SampleView::Rgb8(d.map_values(|x: u16| down16_spec(x))),
        SampleView::Rgba16(d) => SampleView::Rgba8(d.map_values(|x: u16| down16_spec(x))),
        other => other,
    }
}

/// Widening a byte to 16 bits and narrowing it back gives the byte.
pub proof fn lemma_down16_up8(value: u8)
    ensures
        down16_spec(up8_spec(value)) == value,
{
    assert((value as int) * 257 * 255 + 32767 == (value as int) * 65535 + 32767) by (nonlinear_arith);
    vstd::arithmetic::div_mod::lemma_fundamental_div_mod_converse(
        (value as int) * 65535 + 32767,
        65535,
        value as int,
        32767,
    );
}

/// The high-bit-depth decode narrowed to 8 bits is the fast decode: both paths start from the
/// same pixels, and drop or keep alpha alike.
pub proof fn lemma_narrowed_16bit_decode_is_8bit_decode(color_type: DecodedColorType, raw: Seq<u8>, le: bool)
    ensures
        decoded_to_16bit_spec(color_type, raw, le) is None <==> decoded_to_8bit_spec(color_type, raw, le) is None,
        decoded_to_16bit_spec(color_type, raw, le) matches Some(v) ==> decoded_to_8bit_spec(color_type, raw, le)
            == Some(narrowed(v)),
{
    assert forall|x: u8| #[trigger] down16_spec(up8_spec(x)) == x by {
        lemma_down16_up8(x);
    }
    match color_type {
        DecodedColorType::L8 => {
            assert(gray8_to_rgb16_spec(raw).map_values(|x: u16| down16_spec(x)) =~= gray8_to_rgb8_spec(raw));
        },
        DecodedColorType::La8 => {
            if all_opaque8(raw, 2, 1) {
                assert(Seq::new((raw.len() / 2) * 3, |p: int| up8_spec(raw[2 * (p / 3)])).map_values(
                    |x: u16| down16_spec(x),
                ) =~= Seq::new((raw.len() / 2) * 3, |p: int| raw[2 * (p / 3)]));
            } else {
                assert(Seq::new(
                    (raw.len() / 2) * 4,
                    |p: int| up8_spec(raw[2 * (p / 4) + gray_alpha_index(p % 4)]),
                ).map_values(|x: u16| down16_spec(x)) =~= Seq::new(
                    (raw.len() / 2) * 4,
                    |p: int| raw[2 * (p / 4) + gray_alpha_index(p % 4)],
                ));
            }
        },
        DecodedColorType::Rgb8 => {
            assert(rgb8_to_rgb16_spec(raw).map_values(|x: u16| down16_spec(x)) =~= raw);
        },
        DecodedColorType::Rgba8 => {
            if all_opaque8(raw, 4, 3) {
                assert(Seq::new((raw.len() / 4) * 3, |p: int| up8_spec(raw[4 * (p / 3) + p % 3])).map_values(
                    |x: u16| down16_spec(x),
                ) =~= Seq::new((raw.len() / 4) * 3, |p: int| raw[4 * (p / 3) + p % 3]));
            } else {
                assert(rgb8_to_rgb16_spec(raw).map_values(|x: u16| down16_spec(x)) =~= raw);
            }
        },
        DecodedColorType::L16 => {
            assert(gray16_bytes_to_rgb16_spec(raw, le).map_values(|x: u16| down16_spec(x))
                =~= gray16_bytes_to_rgb8_spec(raw, le));
        },
        DecodedColorType::La16 => {
            if all_opaque16_bytes(raw, 4, 2, le) {
                assert(Seq::new((raw.len() / 4) * 3, |p: int| sample16(raw, 4 * (p / 3), le)).map_values(
                    |x: u16| down16_spec(x),
                ) =~= Seq::new((raw.len() / 4) * 3, |p: int| down16_spec(sample16(raw, 4 * (p / 3), le))));
            } else {
                assert(Seq::new(
                    (raw.len() / 4) * 4,
                    |p: int| sample16(raw, 4 * (p / 4) + gray_alpha_offset(p % 4), le),
                ).map_values(|x: u16| down16_spec(x)) =~= Seq::new(
                    (raw.len() / 4) * 4,
                    |p: int| down16_spec(sample16(raw, 4 * (p / 4) + gray_alpha_offset(p % 4), le)),
                ));
            }
        },
        DecodedColorType::Rgb16 => {
            assert(rgb16_bytes_to_rgb16_spec(raw, le).map_values(|x: u16| down16_spec(x))
                =~= rgb16_bytes_to_rgb8_spec(raw, le));
        },
        DecodedColorType::Rgba16 => {
            if all_opaque16_bytes(raw, 8, 6, le) {
                assert(Seq::new(
                    (raw.len() / 8) * 3,
                    |p: int| sample16(raw, 8 * (p / 3) + 2 * (p % 3), le),
                ).map_values(|x: u16| down16_spec(x)) =~= Seq::new(
                    (raw.len() / 8) * 3,
                    |p: int| down16_spec(sample16(raw, 8 * (p / 3) + 2 * (p % 3), le)),
                ));
            } else {
                assert(Seq::new(
                    (raw.len() / 8) * 4,
                    |p: int| sample16(raw, 8 * (p / 4) + 2 * (p % 4), le),
                ).map_values(|x: u16| down16_spec(x)) =~= Seq::new(
                    (raw.len() / 8) * 4,
                    |p: int| down16_spec(sample16(raw, 8 * (p / 4) + 2 * (p % 4), le)),
                ));
            }
        },
        DecodedColorType::Other(_) => {},
    }
}

/// The message for an unsupported decoder layout.
pub open spec fn unsupported_color_type_text(name: Seq<char>) -> Seq<char> {
    "unsupported decoded color type: "@ + name
}

/// "unsupported decoded color type: {name}".
fn unsupported_color_type_message(name: &str) -> (s: String)
    ensures
        s@ == unsupported_color_type_text(name@),
{
    String::from_str("unsupported decoded color type: ").concat(name)
}

/// Converts a decoder buffer to 8-bit working samples.
pub fn convert_decoded_to_8bit(color_type: &DecodedColorType, raw: Vec<u8>, little_endian: bool) -> (r:
    Result<WorkingData, Error>)
    requires
        raw@.len() * 3 <= usize::MAX,
    ensures
        match decoded_to_8bit_spec(*color_type, raw@, little_endian) {
            Some(v) => r matches Ok(d) && d@ == v,
            None => r matches Err(e) && e is Unsupported && (color_type matches DecodedColorType::Other(
                name,
            ) && e.message_view() == unsupported_color_type_text(name@)),
        },
{
    match color_type {
        DecodedColorType::L8 => Ok(WorkingData::Rgb8(gray8_to_rgb8(&raw))),
        DecodedColorType::La8 => Ok(gray_alpha8_to_working_data(&raw)),
        DecodedColorType::Rgb8 => Ok(WorkingData::Rgb8(raw)),
        DecodedColorType::Rgba8 => Ok(rgba8_to_working_data(raw)),
        DecodedColorType::L16 => Ok(WorkingData::Rgb8(gray16_bytes_to_rgb8(&raw, little_endian))),
        DecodedColorType::La16 => Ok(gray_alpha16_bytes_to_working_data8(&raw, little_endian)),
        DecodedColorType::Rgb16 => Ok(WorkingData::Rgb8(rgb16_bytes_to_rgb8(&raw, little_endian))),
        DecodedColorType::Rgba16 => Ok(rgba16_bytes_to_working_data8(&raw, little_endian)),
        DecodedColorType::Other(name) => Err(
            Error::Unsupported(unsupported_color_type_message(name.as_str())),
        ),
    }
}

/// Converts a decoder buffer to 16-bit working samples.
pub fn convert_decoded_to_16bit(color_type: &DecodedColorType, raw: Vec<u8>, little_endian: bool) -> (r:
    Result<WorkingData, Error>)
    requires
        raw@.len() * 3 <= usize::MAX,
    ensures
        match decoded_to_16bit_spec(*color_type, raw@, little_endian) {
            Some(v) => r matches Ok(d) && d@ == v,
            None => r matches Err(e) && e is Unsupported && (color_type matches DecodedColorType::Other(
                name,
            ) && e.message_view() == unsupported_color_type_text(name@)),
        },
{
    match color_type {
        DecodedColorType::L8 => Ok(WorkingData::Rgb16(gray8_to_rgb16(&raw))),
        DecodedColorType::La8 => Ok(gray_alpha8_to_working_data16(&raw)),
        DecodedColorType::Rgb8 => Ok(WorkingData::Rgb16(rgb8_to_rgb16(&raw))),
        DecodedColorType::Rgba8 => Ok(rgba8_to_working_data16(&raw)),
        DecodedColorType::L16 => Ok(WorkingData::Rgb16(gray16_bytes_to_rgb16(&raw, little_endian))),
        DecodedColorType::La16 => Ok(gray_alpha16_bytes_to_working_data16(&raw, little_endian)),
        DecodedColorType::Rgb16 => Ok(WorkingData::Rgb16(rgb16_bytes_to_rgb16(&raw, little_endian))),
        DecodedColorType::Rgba16 => Ok(rgba16_bytes_to_working_data16(&raw, little_endian)),
        DecodedColorType::Other(name) => Err(
            Error::Unsupported(unsupported_color_type_message(name.as_str())),
        ),
    }
}

/// The packed samples of an image whose rows start every `stride` samples.
pub open spec fn packed_rows_spec<T>(data: Seq<T>, row_len: nat, height: nat, stride: nat) -> Seq<T> {
    Seq::new(row_len * height, |p: int| data[(p / (row_len as int)) * (stride as int) + p % (row_len as int)])
}

/// What `normalize_rows` returns: the packed samples, or the message of its error.
pub open spec fn normalize_rows_spec<T>(
    data: Seq<T>,
    width: u32,
    height: u32,
    channels: usize,
    stride: usize,
) -> Result<Seq<T>, Seq<char>> {
    let row_len = (width as nat) * (channels as nat);
    if row_len > usize::MAX {
        Err("decoded row length is too large"@)
    } else if row_len * (height as nat) > usize::MAX {
        Err("decoded image buffer is too large"@)
    } else if (stride as nat) * (height as nat) > usize::MAX {
        Err("decoded row layout is too large"@)
    } else if stride < row_len || data.len() < (stride as nat) * (height as nat) {
        Err("decoder returned an invalid row layout"@)
    } else {
        Ok(packed_rows_spec(data, row_len, height as nat, stride as nat))
    }
}

/// Drops the padding at the end of each row of a decoder buffer.
pub fn normalize_rows<T: Copy>(
    data: Vec<T>,
    width: u32,
    height: u32,
    channels: usize,
    stride: usize,
) -> (r: Result<Vec<T>, Error>)
    ensures
        match normalize_rows_spec(data@, width, height, channels, stride) {
            Ok(packed) => r matches Ok(v) && v@ == packed,
            Err(m) => r matches Err(e) && e is Decode && e.message_view() == m,
        },
{
    let row_len = match (width as usize).checked_mul(channels) {
        Some(v) => v,
        None => return Err(Error::decode("decoded row length is too large")),
    };
    let packed_len = match row_len.checked_mul(height as usize) {
        Some(v) => v,
        None => return Err(Error::decode("decoded image buffer is too large")),
    };
    let required = match stride.checked_mul(height as usize) {
        Some(v) => v,
        None => return Err(Error::decode("decoded row layout is too large")),
    };
    if stride < row_len || data.len() < required {
        return Err(Error::decode("decoder returned an invalid row layout"));
    }
    let ghost rl = row_len as int;
    let ghost st = stride as int;
    let data_len = data.len();
    let mut packed: Vec<T> = Vec::new();
    let mut row: usize = 0;
    while row < height as usize
        invariant
            rl == row_len,
            st == stride,
            data_len == data@.len(),
            row_len == (width as nat) * (channels as nat),
            packed_len == row_len * (height as nat),
            required == stride * (height as nat),
            stride >= row_len,
            data@.len() >= required,
            0 <= row <= height,
            packed@.len() == row * row_len,
            forall|p: int|
                0 <= p < packed@.len() ==> #[trigger] packed@[p] == data@[(p / rl) * st + p % rl],
        decreases height - row,
    {
        proof {
            vstd::arithmetic::mul::lemma_mul_inequality(row as int + 1, height as int, st);
            vstd::arithmetic::mul::lemma_mul_is_distributive_add_other_way(st, row as int, 1);
            vstd::arithmetic::mul::lemma_mul_is_commutative(st, height as int);
            vstd::arithmetic::mul::lemma_mul_inequality(row as int + 1, height as int, rl);
            vstd::arithmetic::mul::lemma_mul_is_distributive_add_other_way(rl, row as int, 1);
            vstd::arithmetic::mul::lemma_mul_nonnegative(row as int, st);
        }
        let start = row * stride;
        let mut col: usize = 0;
        while col < row_len
            invariant
                row_len == rl,
                stride == st,
                row_len <= stride,
                0 <= row < height,
                start == row * stride,
                start + stride <= data@.len(),
                data_len == data@.len(),
                0 <= col <= row_len,
                packed@.len() == row * row_len + col,
                forall|p: int|
                    0 <= p < packed@.len() ==> #[trigger] packed@[p] == data@[(p / rl) * st + p % rl],
            decreases row_len - col,
        {
            let ghost p = packed@.len() as int;
            proof {
                vstd::arithmetic::div_mod::lemma_fundamental_div_mod_converse(p, rl, row as int, col as int);
            }
            packed.push(data[start + col]);
            col += 1;
        }
        row += 1;
    }
    proof {
        vstd::arithmetic::mul::lemma_mul_is_commutative(row_len as int, height as int);
        assert(packed@ =~= packed_rows_spec(data@, row_len as nat, height as nat, stride as nat));
    }
    Ok(packed)
}

} // verus!

verus! {

/// Whether the orientation swaps width and height.
pub open spec fn swaps_axes(o: Orientation) -> bool {
    o is Rotate90 || o is Rotate270 || o is Rotate90FlipH || o is Rotate270FlipH
}

/// Whether the transformation is carried out in place, keeping any samples past the image.
pub open spec fn in_place(o: Orientation) -> bool {
    o is Rotate180 || o is FlipHorizontal || o is FlipVertical
}

/// The source pixel `(x, y)` that lands at `(ox, oy)` of the oriented image, for a
/// `w` x `h` source.
pub open spec fn source_pixel(o: Orientation, w: int, h: int, ox: int, oy: int) -> (int, int) {
    match o {
        Orientation::NoTransforms => (ox, oy),
        Orientation::Rotate90 => (oy, h - 1 - ox),
        Orientation::Rotate180 => (w - 1 - ox, h - 1 - oy),
        Orientation::Rotate270 => (w - 1 - oy, ox),
        Orientation::FlipHorizontal => (w - 1 - ox, oy),
        Orientation::FlipVertical => (ox, h - 1 - oy),
        Orientation::Rotate90FlipH => (oy, ox),
        Orientation::Rotate270FlipH => (w - 1 - oy, h - 1 - ox),
    }
}

/// Index in the source buffer of output sample `p` of the oriented image.
pub open spec fn oriented_source_index(o: Orientation, w: int, h: int, ch: int, p: int) -> int {
    let ow = if swaps_axes(o) {
        h
    } else {
        w
    };
    let q = p / ch;
    let (sx, sy) = source_pixel(o, w, h, q % ow, q / ow);
    (sy * w + sx) * ch + p % ch
}

/// The samples of the oriented image: every output sample taken from its source sample; the
/// in-place transformations keep whatever follows the image in the buffer.
pub open spec fn oriented_samples<T>(data: Seq<T>, o: Orientation, w: int, h: int, ch: int) -> Seq<T> {
    let n = w * h * ch;
    let moved = Seq::new(n as nat, |p: int| data[oriented_source_index(o, w, h, ch, p)]);
    if in_place(o) {
        moved + data.subrange(n, data.len() as int)
    } else {
        moved
    }
}

proof fn lemma_source_pixel_in_image(o: Orientation, w: int, h: int, ox: int, oy: int)
    requires
        w >= 1,
        h >= 1,
        0 <= ox < (if swaps_axes(o) { h } else { w }),
        0 <= oy < (if swaps_axes(o) { w } else { h }),
    ensures
        0 <= source_pixel(o, w, h, ox, oy).0 < w,
        0 <= source_pixel(o, w, h, ox, oy).1 < h,
{
}

/// The index of sample `k` of pixel `(x, y)` of a `width`-wide image splits back into its parts.
proof fn lemma_pixel_index_parts(x: int, y: int, width: int, ch: int, k: int)
    requires
        0 <= x < width,
        0 <= y,
        0 <= k < ch,
    ensures
        ((y * width + x) * ch + k) / ch == y * width + x,
        ((y * width + x) * ch + k) % ch == k,
        (y * width + x) % width == x,
        (y * width + x) / width == y,
{
    assert(0 <= y * width) by (nonlinear_arith)
        requires
            0 <= y,
            0 <= width,
    ;
    vstd::arithmetic::div_mod::lemma_fundamental_div_mod_converse((y * width + x) * ch + k, ch, y * width + x, k);
    vstd::arithmetic::div_mod::lemma_fundamental_div_mod_converse(y * width + x, width, y, x);
}

/// Output sample `k` of pixel `(ox, oy)` of an oriented image is the same sample of its source
/// pixel.
proof fn lemma_oriented_pixel<T>(data: Seq<T>, o: Orientation, w: int, h: int, ch: int, ox: int, oy: int, k: int)
    requires
        1 <= w,
        1 <= h,
        1 <= ch,
        w * h * ch <= data.len(),
        0 <= ox < (if swaps_axes(o) { h } else { w }),
        0 <= oy < (if swaps_axes(o) { w } else { h }),
        0 <= k < ch,
    ensures
        ({
            let ow = if swaps_axes(o) { h } else { w };
            let (sx, sy) = source_pixel(o, w, h, ox, oy);
            &&& (oy * ow + ox) * ch + k < w * h * ch
            &&& oriented_samples(data, o, w, h, ch)[(oy * ow + ox) * ch + k] == data[(sy * w + sx) * ch + k]
        }),
{
    let ow = if swaps_axes(o) { h } else { w };
    let oh = if swaps_axes(o) { w } else { h };
    lemma_pixel_index_parts(ox, oy, ow, ch, k);
    vstd::arithmetic::mul::lemma_mul_is_commutative(w, h);
    assert(ow * oh == w * h);
    assert((oy * ow + ox) * ch + k < w * h * ch) by (nonlinear_arith)
        requires
            0 <= ox < ow,
            0 <= oy < oh,
            0 <= k < ch,
            ow * oh == w * h,
    {
        assert(oy * ow + ox <= (oh - 1) * ow + ow - 1);
        assert((oy * ow + ox) * ch + k <= ((oh - 1) * ow + ow - 1) * ch + ch - 1);
    }
}

/// `Rotate90` is a clockwise quarter turn: in the `h` x `w` result, pixel `(ox, oy)` is source
/// pixel `(oy, h - 1 - ox)`, so the left column of the source becomes the top row, read from the
/// bottom up.
pub proof fn lemma_rotate90_is_clockwise<T>(data: Seq<T>, w: int, h: int, ch: int, ox: int, oy: int, k: int)
    requires
        1 <= w,
        1 <= h,
        1 <= ch,
        w * h * ch <= data.len(),
        0 <= ox < h,
        0 <= oy < w,
        0 <= k < ch,
    ensures
        oriented_samples(data, Orientation::Rotate90, w, h, ch).len() == w * h * ch,
        oriented_samples(data, Orientation::Rotate90, w, h, ch)[(oy * h + ox) * ch + k] == data[((h - 1 - ox)
            * w + oy) * ch + k],
{
    lemma_oriented_pixel(data, Orientation::Rotate90, w, h, ch, ox, oy, k);
}

/// `Rotate270` is a counter-clockwise quarter turn: in the `h` x `w` result, pixel `(ox, oy)` is
/// source pixel `(w - 1 - oy, ox)`.
pub proof fn lemma_rotate270_is_counter_clockwise<T>(data: Seq<T>, w: int, h: int, ch: int, ox: int, oy: int, k: int)
    requires
        1 <= w,
        1 <= h,
        1 <= ch,
        w * h * ch <= data.len(),
        0 <= ox < h,
        0 <= oy < w,
        0 <= k < ch,
    ensures
        oriented_samples(data, Orientation::Rotate270, w, h, ch).len() == w * h * ch,
        oriented_samples(data, Orientation::Rotate270, w, h, ch)[(oy * h + ox) * ch + k] == data[(ox * w + (w
            - 1 - oy)) * ch + k],
{
    lemma_oriented_pixel(data, Orientation::Rotate270, w, h, ch, ox, oy, k);
}

/// The mirrorings and the half turn keep the size and move pixels within it: `FlipHorizontal`
/// reverses each row, `FlipVertical` reverses the order of the rows, and `Rotate180` does both.
pub proof fn lemma_flips_and_half_turn<T>(data: Seq<T>, w: int, h: int, ch: int, x: int, y: int, k: int)
    requires
        1 <= w,
        1 <= h,
        1 <= ch,
        w * h * ch <= data.len(),
        0 <= x < w,
        0 <= y < h,
        0 <= k < ch,
    ensures
        oriented_samples(data, Orientation::FlipHorizontal, w, h, ch)[(y * w + x) * ch + k] == data[(y * w + (w - 1
            - x)) * ch + k],
        oriented_samples(data, Orientation::FlipVertical, w, h, ch)[(y * w + x) * ch + k] == data[((h - 1 - y) * w
            + x) * ch + k],
        oriented_samples(data, Orientation::Rotate180, w, h, ch)[(y * w + x) * ch + k] == data[((h - 1 - y) * w + (w
            - 1 - x)) * ch + k],
        oriented_samples(data, Orientation::FlipHorizontal, w, h, ch).len() == data.len(),
        oriented_samples(data, Orientation::FlipVertical, w, h, ch).len() == data.len(),
        oriented_samples(data, Orientation::Rotate180, w, h, ch).len() == data.len(),
{
    lemma_oriented_pixel(data, Orientation::FlipHorizontal, w, h, ch, x, y, k);
    lemma_oriented_pixel(data, Orientation::FlipVertical, w, h, ch, x, y, k);
    lemma_oriented_pixel(data, Orientation::Rotate180, w, h, ch, x, y, k);
    assert(0 <= w * h * ch) by (nonlinear_arith)
        requires
            w >= 1,
            h >= 1,
            ch >= 1,
    ;
}

/// The two quarter turns combined with a mirror swap the axes: `Rotate90FlipH` transposes the
/// image (pixel `(ox, oy)` of the `h` x `w` result is source pixel `(oy, ox)`), and
/// `Rotate270FlipH` transposes it across the other diagonal (source pixel
/// `(w - 1 - oy, h - 1 - ox)`).
pub proof fn lemma_transposes<T>(data: Seq<T>, w: int, h: int, ch: int, ox: int, oy: int, k: int)
    requires
        1 <= w,
        1 <= h,
        1 <= ch,
        w * h * ch <= data.len(),
        0 <= ox < h,
        0 <= oy < w,
        0 <= k < ch,
    ensures
        oriented_samples(data, Orientation::Rotate90FlipH, w, h, ch)[(oy * h + ox) * ch + k] == data[(ox * w + oy)
            * ch + k],
        oriented_samples(data, Orientation::Rotate270FlipH, w, h, ch)[(oy * h + ox) * ch + k] == data[((h - 1 - ox)
            * w + (w - 1 - oy)) * ch + k],
        oriented_samples(data, Orientation::Rotate90FlipH, w, h, ch).len() == w * h * ch,
        oriented_samples(data, Orientation::Rotate270FlipH, w, h, ch).len() == w * h * ch,
{
    lemma_oriented_pixel(data, Orientation::Rotate90FlipH, w, h, ch, ox, oy, k);
    lemma_oriented_pixel(data, Orientation::Rotate270FlipH, w, h, ch, ox, oy, k);
}

/// Turning an image a quarter clockwise and then a quarter counter-clockwise gives back its
/// samples.
pub proof fn lemma_rotate90_then_270_is_identity<T>(data: Seq<T>, w: int, h: int, ch: int)
    requires
        1 <= w,
        1 <= h,
        1 <= ch,
        w * h * ch <= data.len(),
    ensures
        ({
            let back = oriented_samples(
                oriented_samples(data, Orientation::Rotate90, w, h, ch),
                Orientation::Rotate270,
                h,
                w,
                ch,
            );
            &&& back.len() == w * h * ch
            &&& forall|p: int| 0 <= p < w * h * ch ==> #[trigger] back[p] == data[p]
        }),
{
    let turned = oriented_samples(data, Orientation::Rotate90, w, h, ch);
    let back = oriented_samples(turned, Orientation::Rotate270, h, w, ch);
    assert(h * w * ch == w * h * ch) by (nonlinear_arith);
    assert forall|p: int| 0 <= p < w * h * ch implies #[trigger] back[p] == data[p] by {
        let q = p / ch;
        let k = p % ch;
        let x = q % w;
        let y = q / w;
        assert(0 <= q < w * h) by (nonlinear_arith)
            requires
                0 <= p < w * h * ch,
                q == p / ch,
                ch >= 1,
        {
            vstd::arithmetic::div_mod::lemma_div_is_ordered(p, w * h * ch - 1, ch);
            vstd::arithmetic::div_mod::lemma_div_by_multiple(w * h, ch);
            vstd::arithmetic::div_mod::lemma_div_plus_one(w * h * ch - 1, ch);
        }
        assert(0 <= y < h) by (nonlinear_arith)
            requires
                0 <= q < w * h,
                y == q / w,
                w >= 1,
        {
            vstd::arithmetic::div_mod::lemma_div_is_ordered(q, w * h - 1, w);
            vstd::arithmetic::div_mod::lemma_div_by_multiple(h, w);
        }
        assert(p == (y * w + x) * ch + k) by {
            vstd::arithmetic::div_mod::lemma_fundamental_div_mod(p, ch);
            vstd::arithmetic::div_mod::lemma_fundamental_div_mod(q, w);
            vstd::arithmetic::mul::lemma_mul_is_commutative(ch, q);
            vstd::arithmetic::mul::lemma_mul_is_commutative(w, y);
        }
        // the counter-clockwise turn of the h x w image reads pixel (h - 1 - y, x) of `turned`
        lemma_rotate270_is_counter_clockwise(turned, h, w, ch, x, y, k);
        // which the clockwise turn took from pixel (x, y) of the source
        lemma_rotate90_is_clockwise(data, w, h, ch, h - 1 - y, x, k);
    }
}

/// Re-lays out the first `w * h` pixels of `data` for the given orientation.
fn reorient<T: Copy>(data: &Vec<T>, o: Orientation, w: u32, h: u32, ch: usize) -> (out: Vec<T>)
    requires
        1 <= ch <= 4,
        (w as int) * (h as int) * (ch as int) <= data@.len(),
    ensures
        out@ =~= oriented_samples(data@, o, w as int, h as int, ch as int),
{
    let ghost wi = w as int;
    let ghost hi = h as int;
    let ghost chi = ch as int;
    let (ow, oh) = match o {
        Orientation::Rotate90 | Orientation::Rotate270 | Orientation::Rotate90FlipH
        | Orientation::Rotate270FlipH => (h, w),
        _ => (w, h),
    };
    let data_len = data.len();
    proof {
        if ow == h {
            vstd::arithmetic::mul::lemma_mul_is_commutative(wi, hi);
        }
        assert(wi * hi <= wi * hi * chi) by (nonlinear_arith)
            requires
                wi >= 0,
                hi >= 0,
                chi >= 1,
        ;
        assert(0 <= wi * hi) by (nonlinear_arith)
            requires
                wi >= 0,
                hi >= 0,
        ;
    }
    let n: usize = (w as usize) * (h as usize) * ch;
    assert(0 * (ow as int) * chi == 0) by (nonlinear_arith);
    let mut out: Vec<T> = Vec::new();
    let mut oy: u32 = 0;
    while oy < oh
        invariant
            data_len == data@.len(),
            1 <= ch <= 4,
            chi == ch,
            wi == w,
            hi == h,
            n == wi * hi * chi,
            n <= data@.len(),
            ow == (if swaps_axes(o) { h } else { w }),
            oh == (if swaps_axes(o) { w } else { h }),
            (ow as int) * (oh as int) == wi * hi,
            0 <= oy <= oh,
            out@.len() == (oy as int) * (ow as int) * chi,
            forall|p: int|
                0 <= p < out@.len() ==> #[trigger] out@[p] == data@[oriented_source_index(
                    o,
                    wi,
                    hi,
                    chi,
                    p,
                )],
        decreases oh - oy,
    {
        let mut ox: u32 = 0;
        while ox < ow
            invariant
                data_len == data@.len(),
                1 <= ch <= 4,
                chi == ch,
                wi == w,
                hi == h,
                n == wi * hi * chi,
                n <= data@.len(),
                ow == (if swaps_axes(o) { h } else { w }),
                oh == (if swaps_axes(o) { w } else { h }),
                (ow as int) * (oh as int) == wi * hi,
                0 <= oy < oh,
                0 <= ox <= ow,
                out@.len() == ((oy as int) * (ow as int) + ox) * chi,
                forall|p: int|
                    0 <= p < out@.len() ==> #[trigger] out@[p] == data@[oriented_source_index(
                        o,
                        wi,
                        hi,
                        chi,
                        p,
                    )],
            decreases ow - ox,
        {
            proof {
                lemma_source_pixel_in_image(o, wi, hi, ox as int, oy as int);
            }
            let (sx, sy): (u32, u32) = match o {
                Orientation::NoTransforms => (ox, oy),
                Orientation::Rotate90 => (oy, h - 1 - ox),
                Orientation::Rotate180 => (w - 1 - ox, h - 1 - oy),
                Orientation::Rotate270 => (w - 1 - oy, ox),
                Orientation::FlipHorizontal => (w - 1 - ox, oy),
                Orientation::FlipVertical => (ox, h - 1 - oy),
                Orientation::Rotate90FlipH => (oy, ox),
                Orientation::Rotate270FlipH => (w - 1 - oy, h - 1 - ox),
            };
            proof {
                assert(0 <= (sy as int) * wi + (sx as int) < wi * hi) by (nonlinear_arith)
                    requires
                        0 <= sx < wi,
                        0 <= sy < hi,
                ;
                assert(((sy as int) * wi + (sx as int)) * chi + chi <= wi * hi * chi) by (nonlinear_arith)
                    requires
                        (sy as int) * wi + (sx as int) < wi * hi,
                        chi >= 0,
                ;
                assert(0 <= ((sy as int) * wi + (sx as int)) * chi) by (nonlinear_arith)
                    requires
                        (sy as int) * wi + (sx as int) >= 0,
                        chi >= 0,
                ;
                assert(((sy as int) * wi + (sx as int)) <= ((sy as int) * wi + (sx as int)) * chi) by (nonlinear_arith)
                    requires
                        (sy as int) * wi + (sx as int) >= 0,
                        chi >= 1,
                ;
                assert(0 <= (sy as int) * wi) by (nonlinear_arith)
                    requires
                        sy >= 0,
                        wi >= 0,
                ;
            }
            let base: usize = ((sy as usize) * (w as usize) + (sx as usize)) * ch;
            let mut c: usize = 0;
            while c < ch
                invariant
                    data_len == data@.len(),
                    1 <= ch <= 4,
                    chi == ch,
                    wi == w,
                    hi == h,
                    n <= data@.len(),
                    ow == (if swaps_axes(o) { h } else { w }),
                    0 <= oy < oh,
                    0 <= ox < ow,
                    (sx as int, sy as int) == source_pixel(o, wi, hi, ox as int, oy as int),
                    base == ((sy as int) * wi + (sx as int)) * chi,
                    base + chi <= n,
                    0 <= c <= ch,
                    out@.len() == ((oy as int) * (ow as int) + ox) * chi + c,
                    forall|p: int|
                        0 <= p < out@.len() ==> #[trigger] out@[p] == data@[oriented_source_index(
                            o,
                            wi,
                            hi,
                            chi,
                            p,
                        )],
                decreases ch - c,
            {
                let ghost p = out@.len() as int;
                let ghost q = (oy as int) * (ow as int) + ox;
                proof {
                    vstd::arithmetic::div_mod::lemma_fundamental_div_mod_converse(p, chi, q, c as int);
                    vstd::arithmetic::div_mod::lemma_fundamental_div_mod_converse(q, ow as int, oy as int, ox as int);
                }
                out.push(data[base + c]);
                c += 1;
            }
            proof {
                assert(((oy as int) * (ow as int) + ox) * chi + chi == ((oy as int) * (ow as int) + ox + 1) * chi) by (nonlinear_arith);
            }
            ox += 1;
        }
        proof {
            assert((oy as int) * (ow as int) + (ow as int) == ((oy as int) + 1) * (ow as int)) by (nonlinear_arith);
        }
        oy += 1;
    }
    proof {
        assert(out@.len() == n) by (nonlinear_arith)
            requires
                out@.len() == (oh as int) * (ow as int) * chi,
                (ow as int) * (oh as int) == wi * hi,
                n == wi * hi * chi,
        ;
    }
    let ghost moved = out@;
    if o == Orientation::Rotate180 || o == Orientation::FlipHorizontal || o == Orientation::FlipVertical {
        let mut i: usize = n;
        while i < data_len
            invariant
                data_len == data@.len(),
                n <= i <= data_len,
                out@.len() == i,
                moved.len() == n,
                out@.subrange(0, n as int) == moved,
                forall|k: int| n <= k < i ==> #[trigger] out@[k] == data@[k],
            decreases data_len - i,
        {
            out.push(data[i]);
            i += 1;
        }
    }
    proof {
        assert(moved =~= Seq::new(n as nat, |p: int| data@[oriented_source_index(o, wi, hi, chi, p)]));
    }
    out
}

/// The error message for a buffer that cannot hold the image being oriented.
pub open spec fn orientation_buffer_message(data: WorkingData) -> Seq<char> {
    match data {
        WorkingData::Rgb8(_) => "failed to build RGB8 image for orientation"@,
        WorkingData::Rgba8(_) => "failed to build RGBA8 image for orientation"@,
        WorkingData::Rgb16(_) => "failed to build RGB16 image for orientation"@,
        WorkingData::Rgba16(_) => "failed to build RGBA16 image for orientation"@,
    }
}

/// The samples of `data` re-laid out for orientation `o` of a `w` x `h` image.
pub open spec fn oriented_view(data: WorkingData, o: Orientation, w: int, h: int) -> SampleView {
    let ch = data.spec_channels() as int;
    match data@ {
        SampleView::Rgb8(d) => SampleView::Rgb8(oriented_samples(d, o, w, h, ch)),
        SampleView::Rgba8(d) => SampleView::Rgba8(oriented_samples(d, o, w, h, ch)),
        SampleView::Rgb16(d) => SampleView::Rgb16(oriented_samples(d, o, w, h, ch)),
        SampleView::Rgba16(d) => SampleView::Rgba16(oriented_samples(d, o, w, h, ch)),
    }
}

/// Samples of a `w` x `h` image after the transformation of orientation `o`.
pub open spec fn oriented_samples_view(view: SampleView, o: Orientation, w: int, h: int) -> SampleView {
    match view {
        SampleView::Rgb8(d) => SampleView::Rgb8(oriented_samples(d, o, w, h, 3)),
        SampleView::Rgba8(d) => SampleView::Rgba8(oriented_samples(d, o, w, h, 4)),
        SampleView::Rgb16(d) => SampleView::Rgb16(oriented_samples(d, o, w, h, 3)),
        SampleView::Rgba16(d) => SampleView::Rgba16(oriented_samples(d, o, w, h, 4)),
    }
}

/// The number of samples in a view.
pub open spec fn view_len(view: SampleView) -> nat {
    match view {
        SampleView::Rgb8(d) => d.len(),
        SampleView::Rgba8(d) => d.len(),
        SampleView::Rgb16(d) => d.len(),
        SampleView::Rgba16(d) => d.len(),
    }
}

/// The number of interleaved channels of a view.
pub open spec fn view_channels(view: SampleView) -> nat {
    match view {
        SampleView::Rgb8(_) | SampleView::Rgb16(_) => 3,
        SampleView::Rgba8(_) | SampleView::Rgba16(_) => 4,
    }
}

impl WorkingImage {
    /// Transforms the pixels so that the image is shown upright without any EXIF orientation.
    pub fn apply_orientation(self, orientation: Orientation) -> (r: Result<Self, Error>)
        ensures
            orientation is NoTransforms ==> r == Ok::<WorkingImage, Error>(self),
            ({
                let w = self.width as int;
                let h = self.height as int;
                let n = w * h * (self.data.spec_channels() as int);
                let (ow, oh) = if swaps_axes(orientation) {
                    (self.height, self.width)
                } else {
                    (self.width, self.height)
                };
                !(orientation is NoTransforms) ==> {
                    &&& (n > usize::MAX || self.data.spec_len() < n) ==> (r matches Err(e) && e is Decode
                        && e.message_view() == orientation_buffer_message(self.data))
                    &&& (n <= usize::MAX && self.data.spec_len() >= n && in_place(orientation)
                        && self.data.spec_len() > n) ==> (r matches Err(e) && e is Decode)
                    &&& (n <= usize::MAX && self.data.spec_len() >= n && (!in_place(orientation)
                        || self.data.spec_len() == n)) ==> (r matches Ok(img) && img.width == ow
                        && img.height == oh && img.color_space == self.color_space && img.data@
                        == oriented_view(self.data, orientation, w, h) && img.wf())
                }
            }),
    {
        if orientation == Orientation::NoTransforms {
            return Ok(self);
        }
        let width = self.width;
        let height = self.height;
        let color_space = self.color_space;
        let channels = self.data.channels();
        let (ow, oh) = match orientation {
            Orientation::Rotate90 | Orientation::Rotate270 | Orientation::Rotate90FlipH
            | Orientation::Rotate270FlipH => (height, width),
            _ => (width, height),
        };
        let needed = match (width as usize).checked_mul(height as usize) {
            Some(p) => p.checked_mul(channels),
            None => None,
        };
        proof {
            let w = width as int;
            let h = height as int;
            let c = channels as int;
            assert(w * h * c >= w * h) by (nonlinear_arith)
                requires
                    c >= 3,
                    w >= 0,
                    h >= 0,
            ;
            assert(ow as int * oh as int * c == w * h * c) by (nonlinear_arith)
                requires
                    (ow == width && oh == height) || (ow == height && oh == width),
                    w == width,
                    h == height,
            ;
        }
        let fits = match needed {
            Some(n) => self.data.len() >= n,
            None => false,
        };
        match self.data {
            WorkingData::Rgb8(data) => {
                if !fits {
                    return Err(Error::decode("failed to build RGB8 image for orientation"));
                }
                let rotated = reorient(&data, orientation, width, height, channels);
                WorkingImage::new(ow, oh, WorkingData::Rgb8(rotated), color_space)
            },
            WorkingData::Rgba8(data) => {
                if !fits {
                    return Err(Error::decode("failed to build RGBA8 image for orientation"));
                }
                let rotated = reorient(&data, orientation, width, height, channels);
                WorkingImage::new(ow, oh, WorkingData::Rgba8(rotated), color_space)
            },
            WorkingData::Rgb16(data) => {
                if !fits {
                    return Err(Error::decode("failed to build RGB16 image for orientation"));
                }
                let rotated = reorient(&data, orientation, width, height, channels);
                WorkingImage::new(ow, oh, WorkingData::Rgb16(rotated), color_space)
            },
            WorkingData::Rgba16(data) => {
                if !fits {
                    return Err(Error::decode("failed to build RGBA16 image for orientation"));
                }
                let rotated = reorient(&data, orientation, width, height, channels);
                WorkingImage::new(ow, oh, WorkingData::Rgba16(rotated), color_space)
            },
        }
    }
}

/// The container formats that `image` recognizes, as far as the pipeline tells them apart.
#[derive(Debug, Clone, PartialEq, Eq)]
pub enum InputFormat {
    Jpeg,
    Png,
    WebP,
    /// Any other format, with `image`'s name for it.
    Other(String),
}

/// A recognized format as a mathematical value.
pub enum InputFormatView {
    Jpeg,
    Png,
    WebP,
    Other(Seq<char>),
}

impl View for InputFormat {
    type V = InputFormatView;

    open spec fn view(&self) -> InputFormatView {
        match self {
            InputFormat::Jpeg => InputFormatView::Jpeg,
            InputFormat::Png => InputFormatView::Png,
            InputFormat::WebP => InputFormatView::WebP,
            InputFormat::Other(name) => InputFormatView::Other(name@),
        }
    }
}

/// The format that `image::guess_format` reads from the leading magic bytes, or `None`.
pub uninterp spec fn guessed_format(bytes: Seq<u8>) -> Option<InputFormatView>;

/// Calls `image::guess_format`, which matches the leading bytes against each format's magic
/// number; the variant is copied over, and any other format carries its `Debug` name. The
/// contract names the result as a function of the bytes.
#[verifier::external_body]
fn guess_format(bytes: &[u8]) -> (r: Result<InputFormat, ImageError>)
    ensures
        match r {
            Ok(f) => guessed_format(bytes@) == Some(f@),
            Err(_) => guessed_format(bytes@) is None,
        },
{
    match image::guess_format(bytes) {
        Ok(image::ImageFormat::Jpeg) => Ok(InputFormat::Jpeg),
        Ok(image::ImageFormat::Png) => Ok(InputFormat::Png),
        Ok(image::ImageFormat::WebP) => Ok(InputFormat::WebP),
        Ok(other) => Ok(InputFormat::Other(format!("{other:?}"))),
        Err(err) => Err(err),
    }
}

/// The message for an unsupported input format.
pub open spec fn unsupported_format_text(name: Seq<char>) -> Seq<char> {
    "unsupported input format: "@ + name
}

/// "unsupported input format: {name}".
fn unsupported_format_message(name: &str) -> (s: String)
    ensures
        s@ == unsupported_format_text(name@),
{
    String::from_str("unsupported input format: ").concat(name)
}

/// Finds which decoder handles the input: JPEG, PNG and WebP are accepted.
pub fn detect_format(bytes: &[u8]) -> (r: Result<InputFormat, Error>)
    ensures
        match guessed_format(bytes@) {
            None => r matches Err(e) && e is Image,
            Some(InputFormatView::Other(name)) => r matches Err(e) && e is Unsupported
                && e.message_view() == unsupported_format_text(name),
            Some(f) => r matches Ok(g) && g@ == f,
        },
{
    match guess_format(bytes) {
        Err(err) => Err(Error::Image(err)),
        Ok(InputFormat::Other(name)) => Err(Error::Unsupported(unsupported_format_message(name.as_str()))),
        Ok(format) => Ok(format),
    }
}

/// Animated inputs are refused.
pub fn check_not_animated(format: &InputFormat, animated: bool) -> (r: Result<(), Error>)
    ensures
        !animated ==> r is Ok,
        animated && *format == InputFormat::Png ==> (r matches Err(e) && e is Unsupported
            && e.message_view() == "animated PNG input is not supported in v1"@),
        animated && !(*format == InputFormat::Png) ==> (r matches Err(e) && e is Unsupported
            && e.message_view() == "animated WebP input is not supported in v1"@),
{
    if !animated {
        return Ok(());
    }
    match format {
        InputFormat::Png => Err(Error::unsupported("animated PNG input is not supported in v1")),
        _ => Err(Error::unsupported("animated WebP input is not supported in v1")),
    }
}

/// The pixels that a decoder of the `image` crate read, in its own layout.
pub struct RawImage {
    pub width: u32,
    pub height: u32,
    pub color_type: DecodedColorType,
    /// Samples as the decoder wrote them; 16-bit samples in the machine's byte order.
    pub data: Vec<u8>,
}

/// Turns a decoder's buffer into a source-space working image, at 8 bits in fast mode and at
/// 16 bits otherwise.
pub fn working_image_from_decoder(raw: RawImage, fast: bool, little_endian: bool) -> (r: Result<
    WorkingImage,
    Error,
>)
    requires
        raw.data@.len() * 3 <= usize::MAX,
    ensures
        ({
            let conv = if fast {
                decoded_to_8bit_spec(raw.color_type, raw.data@, little_endian)
            } else {
                decoded_to_16bit_spec(raw.color_type, raw.data@, little_endian)
            };
            &&& conv is None ==> (r matches Err(e) && e is Unsupported)
            &&& (conv matches Some(v) && view_len(v) == (raw.width as nat) * (raw.height as nat)
                * view_channels(v)) ==> r is Ok
            &&& r matches Ok(img) ==> conv matches Some(v) && img.data@ == v && img.width == raw.width
                && img.height == raw.height && img.color_space == WorkingColorSpace::Source
                && img.wf()
            &&& r matches Err(e) ==> (e is Unsupported || e is Decode)
        }),
{
    let data = if fast {
        convert_decoded_to_8bit(&raw.color_type, raw.data, little_endian)
    } else {
        convert_decoded_to_16bit(&raw.color_type, raw.data, little_endian)
    };
    match data {
        Ok(data) => WorkingImage::new(raw.width, raw.height, data, WorkingColorSpace::Source),
        Err(e) => Err(e),
    }
}

/// Pixel layouts produced by the JPEG decoder.
#[derive(Debug, Clone, Copy, PartialEq, Eq, Structural)]
pub enum JpegLayout {
    Gray,
    Rgb,
    Rgba,
}

pub open spec fn jpeg_channels(layout: JpegLayout) -> usize {
    match layout {
        JpegLayout::Gray => 1,
        JpegLayout::Rgb => 3,
        JpegLayout::Rgba => 4,
    }
}

/// Turns the rows of an 8-bit JPEG decode (each `stride` samples apart) into a working image.
pub fn working_image_from_jpeg_u8(layout: JpegLayout, data: Vec<u8>, width: u32, height: u32, stride: usize) -> (r: Result<WorkingImage, Error>)
    requires
        (width as nat) * (height as nat) * 3 <= usize::MAX,
    ensures
        ({
            let ch = jpeg_channels(layout);
            match normalize_rows_spec(data@, width, height, ch, stride) {
                Err(m) => r matches Err(e) && e is Decode && e.message_view() == m,
                Ok(samples) => {
                    let v = match layout {
                        JpegLayout::Gray => SampleView::Rgb8(gray8_to_rgb8_spec(samples)),
                        JpegLayout::Rgb => SampleView::Rgb8(samples),
                        JpegLayout::Rgba => rgba8_spec(samples),
                    };
                    &&& r matches Ok(img) ==> img.data@ == v && img.width == width && img.height == height
                        && img.color_space == WorkingColorSpace::Source && img.wf()
                    &&& r matches Err(e) ==> e is Decode
                    &&& (v is Rgb8 && v->Rgb8_0.len() == (width as int) * (height as int) * 3) ==> r is Ok
                },
            }
        }),
{
    let channels: usize = match layout {
        JpegLayout::Gray => 1,
        JpegLayout::Rgb => 3,
        JpegLayout::Rgba => 4,
    };
    let samples = match normalize_rows(data, width, height, channels, stride) {
        Ok(s) => s,
        Err(e) => return Err(e),
    };
    let data = match layout {
        JpegLayout::Gray => {
            proof {
                assert(samples@.len() == (width as nat) * (channels as nat) * (height as nat));
                assert((width as nat) * 1 * (height as nat) == (width as nat) * (height as nat)) by (nonlinear_arith);
            }
            WorkingData::Rgb8(gray8_to_rgb8(&samples))
        },
        JpegLayout::Rgb => WorkingData::Rgb8(samples),
        JpegLayout::Rgba => rgba8_to_working_data(samples),
    };
    WorkingImage::new(width, height, data, WorkingColorSpace::Source)
}

/// Turns the rows of a 16-bit JPEG decode (each `stride` samples apart) into a working image.
pub fn working_image_from_jpeg_u16(layout: JpegLayout, data: Vec<u16>, width: u32, height: u32, stride: usize) -> (r: Result<WorkingImage, Error>)
    requires
        (width as nat) * (height as nat) * 3 <= usize::MAX,
    ensures
        ({
            let ch = jpeg_channels(layout);
            match normalize_rows_spec(data@, width, height, ch, stride) {
                Err(m) => r matches Err(e) && e is Decode && e.message_view() == m,
                Ok(samples) => {
                    let v = match layout {
                        JpegLayout::Gray => SampleView::Rgb16(gray16_to_rgb16_spec(samples)),
                        JpegLayout::Rgb => SampleView::Rgb16(samples),
                        JpegLayout::Rgba => rgba16_spec(samples),
                    };
                    &&& r matches Ok(img) ==> img.data@ == v && img.width == width && img.height == height
                        && img.color_space == WorkingColorSpace::Source && img.wf()
                    &&& r matches Err(e) ==> e is Decode
                    &&& (v is Rgb16 && v->Rgb16_0.len() == (width as int) * (height as int) * 3) ==> r is Ok
                },
            }
        }),
{
    let channels: usize = match layout {
        JpegLayout::Gray => 1,
        JpegLayout::Rgb => 3,
        JpegLayout::Rgba => 4,
    };
    let samples = match normalize_rows(data, width, height, channels, stride) {
        Ok(s) => s,
        Err(e) => return Err(e),
    };
    let data = match layout {
        JpegLayout::Gray => {
            proof {
                assert(samples@.len() == (width as nat) * (channels as nat) * (height as nat));
                assert((width as nat) * 1 * (height as nat) == (width as nat) * (height as nat)) by (nonlinear_arith);
            }
            WorkingData::Rgb16(gray16_to_rgb16(&samples))
        },
        JpegLayout::Rgb => WorkingData::Rgb16(samples),
        JpegLayout::Rgba => rgba16_to_working_data(samples),
    };
    WorkingImage::new(width, height, data, WorkingColorSpace::Source)
}

/// A decoded image with its metadata.
#[derive(Debug, Clone)]
pub struct DecodedInput {
    pub image: WorkingImage,
    pub metadata: SourceMetadata,
}

/// Applies the EXIF orientation to the pixels and resets it in the EXIF chunk, so that the
/// image is never rotated twice.
pub fn finish_decoded(image: WorkingImage, metadata: SourceMetadata) -> (r: Result<DecodedInput, Error>)
    ensures
        r matches Ok(d) ==> d.metadata.icc == metadata.icc && d.metadata.xmp == metadata.xmp
            && d.metadata.orientation == metadata.orientation && match metadata.exif {
            Some(e) => d.metadata.exif matches Some(f) && f@ == crate::metadata::exif_orientation_cleared(e@),
            None => d.metadata.exif is None,
        },
        ({
            let w = image.width as int;
            let h = image.height as int;
            let n = w * h * (image.data.spec_channels() as int);
            let o = metadata.orientation;
            &&& o is NoTransforms ==> (r matches Ok(d) && d.image == image)
            &&& (!(o is NoTransforms) && n <= usize::MAX && image.data.spec_len() == n) ==> (r matches Ok(d)
                && d.image.data@ == oriented_view(image.data, o, w, h) && d.image.wf()
                && d.image.color_space == image.color_space && d.image.width == (if swaps_axes(o) {
                image.height
            } else {
                image.width
            }) && d.image.height == (if swaps_axes(o) {
                image.width
            } else {
                image.height
            }))
        }),
{
    let mut metadata = metadata;
    let orientation = metadata.orientation;
    metadata.normalize_orientation();
    match image.apply_orientation(orientation) {
        Ok(image) => Ok(DecodedInput { image, metadata }),
        Err(e) => Err(e),
    }
}

} // verus!


