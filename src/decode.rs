//! Turning one arrived buffer into a packed RGB image of fixed size.
use crate::format::CaptureError;
use vstd::prelude::*;
use vstd::slice::slice_to_vec;

verus! {

/// How the bytes of an arrived buffer are laid out.
#[derive(Clone, Copy, Debug, PartialEq, Eq, Structural)]
pub enum SourceLayout {
    /// Packed YUV 4:2:2, four bytes for each pair of pixels.
    Yuy2,
    /// A compressed JPEG bitstream.
    Encoded,
    /// Packed RGB, or RGBA where the source carries alpha.
    Rgb,
    /// Any layout this pipeline cannot decode.
    Unsupported,
}

/// A decoded frame: `width * height` pixels, three bytes (R, G, B) each, row-major.
#[derive(Clone, Debug)]
pub struct DecodedImage {
    pub width: u32,
    pub height: u32,
    pub data: Vec<u8>,
}

impl DecodedImage {
    pub open spec fn wf(&self) -> bool {
        self.data@.len() == frame_len(self.width, self.height)
    }

    pub fn width(&self) -> (r: u32)
        ensures
            r == self.width,
    {
        self.width
    }

    pub fn height(&self) -> (r: u32)
        ensures
            r == self.height,
    {
        self.height
    }

    pub fn into_raw(self) -> (r: Vec<u8>)
        ensures
            r@ == self.data@,
    {
        self.data
    }
}

/// Number of bytes of a decoded frame.
pub open spec fn frame_len(width: u32, height: u32) -> int {
    3 * width * height
}

/// One colour channel: the fixed-point value divided by 256, clamped to a byte.
pub open spec fn clamp_channel(x: int) -> u8 {
    let q = x / 256;
    if q < 0 {
        0
    } else if q > 255 {
        255
    } else {
        q as u8
    }
}

/// The BT.601 integer conversion of one pixel; `c` picks red (0), green (1) or blue (2).
pub open spec fn yuv_channel(y: u8, u: u8, v: u8, c: int) -> u8 {
    let l = (y - 16) * 298;
    let d = u - 128;
    let e = v - 128;
    if c == 0 {
        clamp_channel(l + 409 * e + 128)
    } else if c == 1 {
        clamp_channel(l - 100 * d - 208 * e + 128)
    } else {
        clamp_channel(l + 516 * d + 128)
    }
}

/// One pixel converted from YUV to its three RGB bytes.
#[verifier::opaque]
pub open spec fn yuv_pixel(y: u8, u: u8, v: u8) -> Seq<u8> {
    seq![yuv_channel(y, u, v, 0), yuv_channel(y, u, v, 1), yuv_channel(y, u, v, 2)]
}

/// The two RGB pixels encoded by the four bytes `Y0 U Y1 V` that start at `at`.
pub open spec fn yuyv_pair(d: Seq<u8>, at: int) -> Seq<u8> {
    yuv_pixel(d[at], d[at + 1], d[at + 3]) + yuv_pixel(d[at + 2], d[at + 1], d[at + 3])
}

/// RGB bytes of the first `n` pixel pairs of a YUYV buffer.
pub open spec fn yuyv_pairs(d: Seq<u8>, n: nat) -> Seq<u8>
    decreases n,
{
    if n == 0 {
        Seq::empty()
    } else {
        yuyv_pairs(d, (n - 1) as nat) + yuyv_pair(d, 4 * (n - 1))
    }
}

/// A YUYV buffer converted to RGB; only whole four-byte groups are accepted.
pub open spec fn yuyv_to_rgb(d: Seq<u8>) -> Option<Seq<u8>> {
    if d.len() % 4 == 0 {
        Some(yuyv_pairs(d, d.len() / 4))
    } else {
        None
    }
}

/// The first three bytes of each of the first `n` four-byte pixels.
pub open spec fn rgb_of_rgba(d: Seq<u8>, n: nat) -> Seq<u8>
    decreases n,
{
    if n == 0 {
        Seq::empty()
    } else {
        rgb_of_rgba(d, (n - 1) as nat) + d.subrange(4 * (n - 1), 4 * (n - 1) + 3)
    }
}

/// `s` cut or padded with zero bytes to exactly `n` bytes.
pub open spec fn fit(s: Seq<u8>, n: nat) -> Seq<u8> {
    Seq::new(n, |i: int| if i < s.len() { s[i] } else { 0u8 })
}

/// The packed RGB pixels of a JPEG bitstream, or `None` where it does not decode.
pub uninterp spec fn jpeg_rgb_of(data: Seq<u8>) -> Option<Seq<u8>>;

/// The bytes a decoder produces for a buffer, before they are fitted to the frame.
pub open spec fn decoded_pixels(data: Seq<u8>, layout: SourceLayout, has_alpha: bool) -> Option<
    Seq<u8>,
> {
    match layout {
        SourceLayout::Yuy2 => yuyv_to_rgb(data),
        SourceLayout::Encoded => jpeg_rgb_of(data),
        SourceLayout::Rgb => if has_alpha {
            Some(rgb_of_rgba(data, data.len() / 4))
        } else {
            Some(data)
        },
        SourceLayout::Unsupported => None,
    }
}

/// The frame that decoding yields: the decoder's bytes fitted to `3 * width * height`.
pub open spec fn decoded_frame(
    data: Seq<u8>,
    width: u32,
    height: u32,
    layout: SourceLayout,
    has_alpha: bool,
) -> Result<Seq<u8>, CaptureError> {
    match decoded_pixels(data, layout, has_alpha) {
        Some(p) => Ok(fit(p, frame_len(width, height) as nat)),
        None => Err(CaptureError::DecodeFailed),
    }
}

/// Relies on image::load_from_memory_with_format with the JPEG format and on
/// DynamicImage::into_rgb8: the bitstream decoded to 8-bit RGB, or an error on a
/// corrupt or truncated stream. jpeg-decoder is built with `platform_independent`,
/// so the bytes depend on the bitstream alone and not on the processor.
#[verifier::external_body]
fn decode_jpeg(data: &[u8]) -> (r: Option<Vec<u8>>)
    ensures
        r is None <==> jpeg_rgb_of(data@) is None,
        r is Some ==> jpeg_rgb_of(data@) == Some(r->Some_0@),
{
    image::load_from_memory_with_format(data, image::ImageFormat::Jpeg).ok().map(
        |img| img.into_rgb8().into_raw(),
    )
}

/// Converts one channel from its fixed-point value.
fn channel_byte(x: i32) -> (r: u8)
    ensures
        r == clamp_channel(x as int),
{
    if x < 0 {
        0
    } else if x >= 65536 {
        255
    } else {
        (x / 256) as u8
    }
}

/// Converts one pixel from YUV to RGB, appending its three bytes.
fn push_yuv_pixel(out: &mut Vec<u8>, y: u8, u: u8, v: u8)
    ensures
        final(out)@ == old(out)@ + yuv_pixel(y, u, v),
{
    reveal(yuv_pixel);
    let l: i32 = (y as i32 - 16) * 298;
    let d: i32 = u as i32 - 128;
    let e: i32 = v as i32 - 128;
    out.push(channel_byte(l + 409 * e + 128));
    out.push(channel_byte(l - 100 * d - 208 * e + 128));
    out.push(channel_byte(l + 516 * d + 128));
}

/// Converts a packed YUV 4:2:2 buffer to RGB, two pixels for each four bytes.
pub fn yuyv422_to_rgb888(data: &[u8]) -> (r: Result<Vec<u8>, CaptureError>)
    ensures
        data@.len() % 4 == 0 ==> r is Ok && Some(r->Ok_0@) == yuyv_to_rgb(data@),
        data@.len() % 4 != 0 ==> r == Err::<Vec<u8>, CaptureError>(CaptureError::DecodeFailed),
{
    if data.len() % 4 != 0 {
        return Err(CaptureError::DecodeFailed);
    }
    let n: usize = data.len();
    let pairs: usize = n / 4;
    let mut out: Vec<u8> = Vec::new();
    let mut k: usize = 0;
    while k < pairs
        invariant
            n == data@.len(),
            pairs == data@.len() / 4,
            4 * pairs <= data@.len(),
            k <= pairs,
            out@ == yuyv_pairs(data@, k as nat),
        decreases pairs - k,
    {
        let at: usize = 4 * k;
        let u = data[at + 1];
        let v = data[at + 3];
        push_yuv_pixel(&mut out, data[at], u, v);
        push_yuv_pixel(&mut out, data[at + 2], u, v);
        k = k + 1;
        assert(yuyv_pairs(data@, k as nat) == yuyv_pairs(data@, (k - 1) as nat) + yuyv_pair(
            data@,
            4 * (k - 1),
        ));
        assert(out@ =~= yuyv_pairs(data@, k as nat));
    }
    Ok(out)
}

/// Keeps the first three bytes of every whole four-byte pixel.
fn drop_alpha(data: &[u8]) -> (r: Vec<u8>)
    ensures
        r@ == rgb_of_rgba(data@, data@.len() / 4),
{
    let n: usize = data.len();
    let pixels: usize = n / 4;
    let mut out: Vec<u8> = Vec::new();
    let mut k: usize = 0;
    while k < pixels
        invariant
            n == data@.len(),
            pixels == data@.len() / 4,
            4 * pixels <= data@.len(),
            k <= pixels,
            out@ == rgb_of_rgba(data@, k as nat),
        decreases pixels - k,
    {
        let at: usize = 4 * k;
        out.push(data[at]);
        out.push(data[at + 1]);
        out.push(data[at + 2]);
        k = k + 1;
        assert(out@ =~= rgb_of_rgba(data@, k as nat));
    }
    out
}

/// Cuts `buf` or pads it with zero bytes so that it holds exactly `len` bytes.
fn fit_to_len(buf: Vec<u8>, len: usize) -> (r: Vec<u8>)
    ensures
        r@ == fit(buf@, len as nat),
{
    let ghost src = buf@;
    let mut out = buf;
    out.truncate(len);
    while out.len() < len
        invariant
            out@.len() <= len,
            out@.len() == len || out@.len() >= src.len(),
            forall|i: int| 0 <= i < out@.len() ==> out@[i] == fit(src, len as nat)[i],
        decreases len - out@.len(),
    {
        out.push(0u8);
    }
    assert(out@ =~= fit(src, len as nat));
    out
}

/// Decodes one arrived buffer into a frame of `width * height` RGB pixels.
///
/// A decoder that yields fewer bytes than the frame holds is padded with zero
/// bytes; an unsupported layout, a YUYV buffer that is not made of whole
/// four-byte groups, or a JPEG stream that does not decode fails this frame only.
pub fn decode_frame(data: &[u8], width: u32, height: u32, layout: SourceLayout, has_alpha: bool) -> (r:
    Result<DecodedImage, CaptureError>)
    requires
        frame_len(width, height) <= usize::MAX,
    ensures
        match decoded_frame(data@, width, height, layout, has_alpha) {
            Ok(bytes) => r is Ok && r->Ok_0.data@ == bytes && r->Ok_0.width == width
                && r->Ok_0.height == height,
            Err(e) => r == Err::<DecodedImage, CaptureError>(e),
        },
        r is Ok ==> r->Ok_0.wf(),
{
    proof {
        assert((width as int) * (height as int) <= 3 * width * height) by (nonlinear_arith);
        assert(3 * ((width as int) * (height as int)) == 3 * width * height) by (nonlinear_arith);
    }
    let len: usize = 3 * ((width as usize) * (height as usize));
    let pixels = match layout {
        SourceLayout::Yuy2 => yuyv422_to_rgb888(data),
        SourceLayout::Encoded => match decode_jpeg(data) {
            Some(p) => Ok(p),
            None => Err(CaptureError::DecodeFailed),
        },
        SourceLayout::Rgb => if has_alpha {
            Ok(drop_alpha(data))
        } else {
            Ok(slice_to_vec(data))
        },
        SourceLayout::Unsupported => Err(CaptureError::DecodeFailed),
    };
    assert(len as int == frame_len(width, height));
    match pixels {
        Ok(p) => Ok(DecodedImage { width, height, data: fit_to_len(p, len) }),
        Err(e) => Err(e),
    }
}

/// Decoding depends on the buffer, its layout and the frame size alone: the
/// same buffer decoded twice gives byte-identical frames, or the same error.
pub proof fn lemma_decode_repeatable(
    data: Seq<u8>,
    width: u32,
    height: u32,
    layout: SourceLayout,
    has_alpha: bool,
    first: Result<Seq<u8>, CaptureError>,
    second: Result<Seq<u8>, CaptureError>,
)
    requires
        first == decoded_frame(data, width, height, layout, has_alpha),
        second == decoded_frame(data, width, height, layout, has_alpha),
    ensures
        first == second,
{
}

/// Every frame that decoding yields, padded or not, holds exactly
/// `3 * width * height` bytes.
pub proof fn lemma_decoded_size(
    data: Seq<u8>,
    width: u32,
    height: u32,
    layout: SourceLayout,
    has_alpha: bool,
)
    ensures
        decoded_frame(data, width, height, layout, has_alpha) is Ok ==> decoded_frame(
            data,
            width,
            height,
            layout,
            has_alpha,
        )->Ok_0.len() == 3 * width * height,
{
    assert(3 * width * height >= 0) by (nonlinear_arith);
}

/// A buffer of an unsupported layout fails on its own: decoding keeps no state,
/// so a later RGB buffer still decodes.
pub proof fn lemma_unsupported_frame_is_isolated(
    bad: Seq<u8>,
    next: Seq<u8>,
    width: u32,
    height: u32,
    has_alpha: bool,
)
    ensures
        decoded_frame(bad, width, height, SourceLayout::Unsupported, has_alpha) == Err::<
            Seq<u8>,
            CaptureError,
        >(CaptureError::DecodeFailed),
        decoded_frame(next, width, height, SourceLayout::Rgb, has_alpha) is Ok,
{
}

} // verus!
