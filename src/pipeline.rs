//! The declarative description from which the media engine builds a capture pipeline.
use crate::format::{CameraFormat, FrameFormat};
use vstd::prelude::*;

verus! {

/// The host platform, which decides the source element of a pipeline.
#[derive(Clone, Copy, Debug, PartialEq, Eq, Structural)]
pub enum Platform {
    Linux,
    MacOs,
    Windows,
}

pub open spec fn digit_char(d: nat) -> char {
    if d == 0 {
        '0'
    } else if d == 1 {
        '1'
    } else if d == 2 {
        '2'
    } else if d == 3 {
        '3'
    } else if d == 4 {
        '4'
    } else if d == 5 {
        '5'
    } else if d == 6 {
        '6'
    } else if d == 7 {
        '7'
    } else if d == 8 {
        '8'
    } else {
        '9'
    }
}

/// A number in decimal, without leading zeros.
pub open spec fn decimal_text(n: nat) -> Seq<char>
    decreases n,
{
    if n < 10 {
        seq![digit_char(n)]
    } else {
        decimal_text(n / 10) + seq![digit_char(n % 10)]
    }
}

/// The source element of a platform, up to the device selector's value.
pub open spec fn source_prefix(p: Platform) -> Seq<char> {
    match p {
        Platform::Linux => "v4l2src device=/dev/video"@,
        Platform::MacOs => "autovideosrc location=/dev/video"@,
        Platform::Windows => "ksvideosrc device_index="@,
    }
}

/// The media constraint of an encoding, up to its width.
pub open spec fn media_prefix(p: Platform, f: FrameFormat) -> Seq<char> {
    match (f, p) {
        (FrameFormat::MJPEG, Platform::MacOs) => "image/jpeg,"@,
        (FrameFormat::MJPEG, _) => "image/jpeg, "@,
        (FrameFormat::YUYV, _) => "video/x-raw,format=YUY2,"@,
    }
}

/// The full pipeline: source, media constraints, and the sink named `appsink`.
pub open spec fn pipeline_text(p: Platform, device: Seq<char>, fmt: CameraFormat) -> Seq<char> {
    source_prefix(p) + device + " ! "@ + media_prefix(p, fmt.format) + "width="@ + decimal_text(
        fmt.resolution.width as nat,
    ) + ",height="@ + decimal_text(fmt.resolution.height as nat) + ",framerate="@ + decimal_text(
        fmt.frame_rate as nat,
    ) + "/1 ! appsink name=appsink async=false sync=false"@
}

fn source_text(p: Platform) -> (r: &'static str)
    ensures
        r@ == source_prefix(p),
{
    match p {
        Platform::Linux => "v4l2src device=/dev/video",
        Platform::MacOs => "autovideosrc location=/dev/video",
        Platform::Windows => "ksvideosrc device_index=",
    }
}

fn media_text(p: Platform, f: FrameFormat) -> (r: &'static str)
    ensures
        r@ == media_prefix(p, f),
{
    match (f, p) {
        (FrameFormat::MJPEG, Platform::MacOs) => "image/jpeg,",
        (FrameFormat::MJPEG, _) => "image/jpeg, ",
        (FrameFormat::YUYV, _) => "video/x-raw,format=YUY2,",
    }
}

fn digit_text(d: u64) -> (r: &'static str)
    requires
        d < 10,
    ensures
        r@ == seq![digit_char(d as nat)],
{
    proof {
        reveal_strlit("0");
        reveal_strlit("1");
        reveal_strlit("2");
        reveal_strlit("3");
        reveal_strlit("4");
        reveal_strlit("5");
        reveal_strlit("6");
        reveal_strlit("7");
        reveal_strlit("8");
        reveal_strlit("9");
    }
    let r = if d == 0 {
        "0"
    } else if d == 1 {
        "1"
    } else if d == 2 {
        "2"
    } else if d == 3 {
        "3"
    } else if d == 4 {
        "4"
    } else if d == 5 {
        "5"
    } else if d == 6 {
        "6"
    } else if d == 7 {
        "7"
    } else if d == 8 {
        "8"
    } else {
        "9"
    };
    assert(r@ =~= seq![digit_char(d as nat)]);
    r
}

/// Appends `n` in decimal.
fn push_decimal(s: &mut String, n: u64)
    ensures
        final(s)@ == old(s)@ + decimal_text(n as nat),
    decreases n,
{
    if n >= 10 {
        push_decimal(s, n / 10);
    }
    s.append(digit_text(n % 10));
    assert(final(s)@ =~= old(s)@ + decimal_text(n as nat));
}

/// The pipeline description for the device `device` on platform `p`, asking
/// for the encoding, resolution and whole frame rate of `fmt`.
pub fn webcam_pipeline(p: Platform, device: &str, fmt: CameraFormat) -> (r: String)
    ensures
        r@ == pipeline_text(p, device@, fmt),
{
    let mut s = String::from_str(source_text(p));
    s.append(device);
    s.append(" ! ");
    s.append(media_text(p, fmt.format));
    s.append("width=");
    push_decimal(&mut s, fmt.resolution.width as u64);
    s.append(",height=");
    push_decimal(&mut s, fmt.resolution.height as u64);
    s.append(",framerate=");
    push_decimal(&mut s, fmt.frame_rate as u64);
    s.append("/1 ! appsink name=appsink async=false sync=false");
    s
}

/// A device index in decimal, as the pipeline's device selector takes it.
pub fn device_text(index: usize) -> (r: String)
    ensures
        r@ == decimal_text(index as nat),
{
    let mut s = String::new();
    push_decimal(&mut s, index as u64);
    assert(s@ =~= decimal_text(index as nat));
    s
}

} // verus!
