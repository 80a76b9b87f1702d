//! Value types that describe what a capture pipeline produces.
use vstd::prelude::*;

verus! {

/// A frame size in pixels.
#[derive(Clone, Copy, Debug, PartialEq, Eq, Hash, Structural)]
pub struct Resolution {
    pub width: u32,
    pub height: u32,
}

impl Resolution {
    pub fn new(width: u32, height: u32) -> (r: Resolution)
        ensures
            r.width == width,
            r.height == height,
    {
        Resolution { width, height }
    }

    pub fn width(&self) -> (r: u32)
        ensures
            r == self.width,
    {
        self.width
    }

    pub fn height(&self) -> (r: u32)
        ensures
            r == self.height,
    {
        self.height
    }
}

/// Source pixel encodings a device can be asked to deliver.
#[derive(Clone, Copy, Debug, PartialEq, Eq, Hash, PartialOrd, Ord, Structural)]
pub enum FrameFormat {
    /// Motion-JPEG: every frame is a compressed JPEG bitstream.
    MJPEG,
    /// Packed YUV 4:2:2 (Y0 U Y1 V per pixel pair).
    YUYV,
}

/// Resolution, encoding and frame rate of a stream.
#[derive(Clone, Copy, Debug, PartialEq, Eq, Hash, Structural)]
pub struct CameraFormat {
    pub resolution: Resolution,
    pub format: FrameFormat,
    pub frame_rate: u32,
}

pub const DEFAULT_WIDTH: u32 = 640;

pub const DEFAULT_HEIGHT: u32 = 480;

pub const DEFAULT_FRAME_RATE: u32 = 15;

impl CameraFormat {
    /// A usable format has a non-empty frame and a positive frame rate.
    pub open spec fn wf(&self) -> bool {
        &&& self.resolution.width > 0
        &&& self.resolution.height > 0
        &&& self.frame_rate > 0
    }

    pub fn new(resolution: Resolution, format: FrameFormat, frame_rate: u32) -> (r: CameraFormat)
        requires
            resolution.width > 0,
            resolution.height > 0,
            frame_rate > 0,
        ensures
            r.resolution == resolution,
            r.format == format,
            r.frame_rate == frame_rate,
            r.wf(),
    {
        CameraFormat { resolution, format, frame_rate }
    }

    pub fn resolution(&self) -> (r: Resolution)
        ensures
            r == self.resolution,
    {
        self.resolution
    }

    pub fn width(&self) -> (r: u32)
        ensures
            r == self.resolution.width,
    {
        self.resolution.width
    }

    pub fn height(&self) -> (r: u32)
        ensures
            r == self.resolution.height,
    {
        self.resolution.height
    }

    pub fn format(&self) -> (r: FrameFormat)
        ensures
            r == self.format,
    {
        self.format
    }

    pub fn framerate(&self) -> (r: u32)
        ensures
            r == self.frame_rate,
    {
        self.frame_rate
    }

    pub fn set_resolution(&mut self, resolution: Resolution)
        requires
            resolution.width > 0,
            resolution.height > 0,
        ensures
            *final(self) == (CameraFormat { resolution, ..*old(self) }),
    {
        self.resolution = resolution;
    }

    pub fn set_framerate(&mut self, frame_rate: u32)
        requires
            frame_rate > 0,
        ensures
            *final(self) == (CameraFormat { frame_rate, ..*old(self) }),
    {
        self.frame_rate = frame_rate;
    }
}

impl Default for CameraFormat {
    /// 640x480 at 15 frames per second, Motion-JPEG.
    fn default() -> (r: CameraFormat)
        ensures
            r.resolution.width == DEFAULT_WIDTH,
            r.resolution.height == DEFAULT_HEIGHT,
            r.format == FrameFormat::MJPEG,
            r.frame_rate == DEFAULT_FRAME_RATE,
            r.wf(),
    {
        CameraFormat {
            resolution: Resolution { width: DEFAULT_WIDTH, height: DEFAULT_HEIGHT },
            format: FrameFormat::MJPEG,
            frame_rate: DEFAULT_FRAME_RATE,
        }
    }
}

/// What is known of a device when it is opened.
#[derive(Clone, Debug)]
pub struct CameraInfo {
    pub display_name: String,
    pub device_class: String,
    pub description: String,
    pub index: usize,
}

impl CameraInfo {
    pub fn new(display_name: String, device_class: String, description: String, index: usize) -> (r:
        CameraInfo)
        ensures
            r.display_name@ == display_name@,
            r.device_class@ == device_class@,
            r.description@ == description@,
            r.index == index,
    {
        CameraInfo { display_name, device_class, description, index }
    }

    pub fn index(&self) -> (r: usize)
        ensures
            r == self.index,
    {
        self.index
    }
}

/// Why an operation on a capture device failed.
#[derive(Clone, Copy, Debug, PartialEq, Eq, Structural)]
pub enum CaptureError {
    /// No device at the requested index, or its pipeline could not be built.
    DeviceNotFound,
    /// The device's capability descriptor is incomplete or malformed.
    DeviceQueryFailed,
    /// The pipeline could not enter its running state.
    StreamOpenFailed,
    /// The pipeline could not be halted.
    StreamStopFailed,
    /// The operation is not offered by this backend.
    UnsupportedOperation,
    /// The stream ended, reported an error, or its frame channel is closed.
    CaptureFailed,
    /// A frame buffer could not be decoded.
    DecodeFailed,
}

} // verus!
