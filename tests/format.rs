use nokhwa::format::{CameraFormat, FrameFormat, Resolution};
use nokhwa::pipeline::{device_text, webcam_pipeline, Platform};

#[test]
fn default_format_is_vga_mjpeg_at_15() {
    let f = CameraFormat::default();
    assert_eq!(f.resolution(), Resolution::new(640, 480));
    assert_eq!(f.format(), FrameFormat::MJPEG);
    assert_eq!(f.framerate(), 15);
    assert_eq!((f.width(), f.height()), (640, 480));
}

#[test]
fn setters_replace_one_field() {
    let mut f = CameraFormat::new(Resolution::new(640, 480), FrameFormat::YUYV, 30);
    f.set_resolution(Resolution::new(1280, 720));
    f.set_framerate(10);
    assert_eq!(f, CameraFormat::new(Resolution::new(1280, 720), FrameFormat::YUYV, 10));
}

#[test]
fn encodings_sort_jpeg_first() {
    assert!(FrameFormat::MJPEG < FrameFormat::YUYV);
}

#[test]
fn linux_pipelines() {
    let mjpeg = CameraFormat::new(Resolution::new(640, 480), FrameFormat::MJPEG, 30);
    assert_eq!(
        webcam_pipeline(Platform::Linux, "0", mjpeg),
        "v4l2src device=/dev/video0 ! image/jpeg, width=640,height=480,framerate=30/1 ! appsink name=appsink async=false sync=false"
    );
    let yuyv = CameraFormat::new(Resolution::new(1920, 1080), FrameFormat::YUYV, 5);
    assert_eq!(
        webcam_pipeline(Platform::Linux, "12", yuyv),
        "v4l2src device=/dev/video12 ! video/x-raw,format=YUY2,width=1920,height=1080,framerate=5/1 ! appsink name=appsink async=false sync=false"
    );
}

#[test]
fn other_platform_pipelines() {
    let mjpeg = CameraFormat::new(Resolution::new(320, 240), FrameFormat::MJPEG, 60);
    assert_eq!(
        webcam_pipeline(Platform::MacOs, "1", mjpeg),
        "autovideosrc location=/dev/video1 ! image/jpeg,width=320,height=240,framerate=60/1 ! appsink name=appsink async=false sync=false"
    );
    assert_eq!(
        webcam_pipeline(Platform::Windows, "2", mjpeg),
        "ksvideosrc device_index=2 ! image/jpeg, width=320,height=240,framerate=60/1 ! appsink name=appsink async=false sync=false"
    );
}

#[test]
fn device_index_in_decimal() {
    assert_eq!(device_text(0), "0");
    assert_eq!(device_text(9), "9");
    assert_eq!(device_text(10), "10");
    assert_eq!(device_text(4096), "4096");
}
