use nokhwa::decode::SourceLayout;
use nokhwa::format::{CameraFormat, CameraInfo, CaptureError, FrameFormat, Resolution};
use nokhwa::negotiate::CapabilityRecord;
use nokhwa::session::{
    check_bus, deliver_frame, probe_is_open, BusSignal, CaptureSession, PipelineState, StreamState,
};

fn session(w: u32, h: u32) -> CaptureSession {
    let fmt = CameraFormat::new(Resolution::new(w, h), FrameFormat::MJPEG, 30);
    let info = CameraInfo::new("cam".to_string(), "Video/Source".to_string(), String::new(), 0);
    CaptureSession::new(fmt, info)
}

#[test]
fn new_session_is_closed_and_pull_fails() {
    let s = session(2, 1);
    assert_eq!(s.state(), StreamState::Closed);
    assert_eq!(s.camera_info().index(), 0);
    assert!(matches!(s.pull_frame(&[]), Err(CaptureError::CaptureFailed)));
}

#[test]
fn open_stop_open_ends_playing() {
    let mut s = session(2, 1);
    let first = s.open_stream(true).unwrap();
    assert_eq!(s.stop_stream(true), Ok(()));
    assert_eq!(s.state(), StreamState::Stopped);
    let second = s.open_stream(true).unwrap();
    assert_eq!(s.state(), StreamState::Playing);
    assert!(second.epoch() > first.epoch());
}

#[test]
fn stop_when_stopped_is_a_no_op() {
    let mut s = session(2, 1);
    let _tx = s.open_stream(true).unwrap();
    assert_eq!(s.stop_stream(true), Ok(()));
    assert_eq!(s.stop_stream(false), Ok(()));
    assert_eq!(s.state(), StreamState::Stopped);
}

#[test]
fn failed_engine_transitions_report_errors() {
    let mut s = session(2, 1);
    assert!(matches!(s.open_stream(false), Err(CaptureError::StreamOpenFailed)));
    assert_eq!(s.state(), StreamState::Closed);
    let _tx = s.open_stream(true).unwrap();
    assert_eq!(s.stop_stream(false), Err(CaptureError::StreamStopFailed));
    assert_eq!(s.state(), StreamState::Playing);
    let fmt = s.camera_format();
    assert_eq!(s.install_pipeline(fmt, false), Err(CaptureError::DeviceNotFound));
    assert_eq!(s.set_frame_format(FrameFormat::YUYV), Err(CaptureError::UnsupportedOperation));
}

#[test]
fn frames_arrive_in_order() {
    let mut s = session(1, 1);
    let tx = s.open_stream(true).unwrap();
    assert_eq!(deliver_frame(&tx, &[1, 2, 3], 1, 1, SourceLayout::Rgb, false), Ok(()));
    assert_eq!(deliver_frame(&tx, &[4, 5, 6], 1, 1, SourceLayout::Rgb, false), Ok(()));
    assert_eq!(s.frame_raw(&[]), Ok(vec![1, 2, 3]));
    assert_eq!(s.frame_raw(&[BusSignal::Other]), Ok(vec![4, 5, 6]));
}

#[test]
fn bad_frame_does_not_stop_the_stream() {
    let mut s = session(1, 1);
    let tx = s.open_stream(true).unwrap();
    assert_eq!(
        deliver_frame(&tx, &[1, 2, 3], 1, 1, SourceLayout::Unsupported, false),
        Err(CaptureError::DecodeFailed)
    );
    assert_eq!(deliver_frame(&tx, &[7, 8, 9], 1, 1, SourceLayout::Rgb, false), Ok(()));
    assert_eq!(s.frame_raw(&[]), Ok(vec![7, 8, 9]));
}

#[test]
fn oversized_frame_is_refused() {
    let mut s = session(1, 1);
    let tx = s.open_stream(true).unwrap();
    let r = deliver_frame(&tx, &[], u32::MAX, u32::MAX, SourceLayout::Rgb, false);
    if (usize::MAX as u128) < 3 * (u32::MAX as u128) * (u32::MAX as u128) {
        assert_eq!(r, Err(CaptureError::DecodeFailed));
    }
}

#[test]
fn pull_after_stop_fails_instead_of_blocking() {
    let mut s = session(1, 1);
    let tx = s.open_stream(true).unwrap();
    assert_eq!(deliver_frame(&tx, &[1, 2, 3], 1, 1, SourceLayout::Rgb, false), Ok(()));
    assert_eq!(s.stop_stream(true), Ok(()));
    assert!(matches!(s.pull_frame(&[]), Err(CaptureError::CaptureFailed)));
    // The producer learns that nobody listens any more.
    assert_eq!(
        deliver_frame(&tx, &[1, 2, 3], 1, 1, SourceLayout::Rgb, false),
        Err(CaptureError::CaptureFailed)
    );
}

#[test]
fn no_op_stop_of_a_closed_session_leaves_pulls_failing() {
    let mut s = session(1, 1);
    assert_eq!(s.stop_stream(false), Ok(()));
    assert_eq!(s.state(), StreamState::Closed);
    assert!(matches!(s.frame_raw(&[]), Err(CaptureError::CaptureFailed)));
}

#[test]
fn closed_producer_fails_a_pull() {
    let mut s = session(1, 1);
    let tx = s.open_stream(true).unwrap();
    drop(tx);
    assert!(matches!(s.pull_frame(&[]), Err(CaptureError::CaptureFailed)));
}

#[test]
fn stream_end_and_errors_surface_before_waiting() {
    let mut s = session(1, 1);
    let _tx = s.open_stream(true).unwrap();
    assert!(matches!(s.pull_frame(&[BusSignal::EndOfStream]), Err(CaptureError::CaptureFailed)));
    assert!(matches!(s.pull_frame(&[BusSignal::Other, BusSignal::Error]), Err(CaptureError::CaptureFailed)));
    assert_eq!(check_bus(&[]), Ok(()));
    assert_eq!(check_bus(&[BusSignal::Other, BusSignal::Other]), Ok(()));
    assert_eq!(check_bus(&[BusSignal::EndOfStream]), Err(CaptureError::CaptureFailed));
    // A signal queued behind another message is not missed.
    assert_eq!(
        check_bus(&[BusSignal::Other, BusSignal::EndOfStream]),
        Err(CaptureError::CaptureFailed)
    );
}

#[test]
fn reconfigure_while_playing_resumes_with_new_format() {
    let mut s = session(1, 1);
    let old_tx = s.open_stream(true).unwrap();
    let new_fmt = CameraFormat::new(Resolution::new(2, 1), FrameFormat::YUYV, 15);
    let plan = s.plan_reconfigure(new_fmt);
    assert!(plan.resume);
    assert_eq!(s.stop_stream(true), Ok(()));
    assert_eq!(s.install_pipeline(plan.format, true), Ok(()));
    assert_eq!(s.state(), StreamState::Stopped);
    let tx = s.open_stream(true).unwrap();
    assert_eq!(s.state(), StreamState::Playing);
    assert_eq!(s.camera_format(), new_fmt);
    // The old pipeline's channel is gone.
    assert_eq!(
        deliver_frame(&old_tx, &[1, 2, 3], 1, 1, SourceLayout::Rgb, false),
        Err(CaptureError::CaptureFailed)
    );
    // A frame of the old size is refused, one of the new size is handed on.
    assert_eq!(deliver_frame(&tx, &[1, 2, 3], 1, 1, SourceLayout::Rgb, false), Ok(()));
    assert!(matches!(s.pull_frame(&[]), Err(CaptureError::CaptureFailed)));
    assert_eq!(deliver_frame(&tx, &[16, 128, 235, 128], 2, 1, SourceLayout::Yuy2, false), Ok(()));
    let img = s.pull_frame(&[]).unwrap();
    assert_eq!((img.width(), img.height()), (2, 1));
    assert_eq!(img.into_raw(), vec![0, 0, 0, 255, 255, 255]);
}

#[test]
fn reconfigure_while_stopped_stays_stopped() {
    let mut s = session(1, 1);
    let new_fmt = CameraFormat::new(Resolution::new(4, 3), FrameFormat::MJPEG, 5);
    let plan = s.plan_reconfigure(new_fmt);
    assert!(!plan.resume);
    assert_eq!(s.install_pipeline(plan.format, true), Ok(()));
    assert_eq!(s.state(), StreamState::Stopped);
    assert_eq!(s.resolution(), Resolution::new(4, 3));
    assert_eq!(s.frame_rate(), 5);
    assert_eq!(s.frame_format(), FrameFormat::MJPEG);
}

fn jpeg_caps() -> Option<Vec<CapabilityRecord>> {
    Some(vec![
        CapabilityRecord {
            media_type: "image/jpeg".to_string(),
            format_tag: None,
            width: Some(640),
            height: Some(480),
            frame_rates: Some("30/1, 15/2, 60/1".to_string()),
        },
        CapabilityRecord {
            media_type: "video/x-raw".to_string(),
            format_tag: Some("YUY2".to_string()),
            width: Some(320),
            height: Some(240),
            frame_rates: Some("10/1".to_string()),
        },
    ])
}

#[test]
fn listed_formats_can_be_requested() {
    let mut s = session(1, 1);
    let _tx = s.open_stream(true).unwrap();
    let caps = jpeg_caps();
    for (fourcc, w, h, rate) in [
        (FrameFormat::MJPEG, 640, 480, 30),
        (FrameFormat::MJPEG, 640, 480, 60),
        (FrameFormat::YUYV, 320, 240, 10),
    ] {
        let fmt = CameraFormat::new(Resolution::new(w, h), fourcc, rate);
        let plan = s.request_format(&caps, fmt).unwrap();
        assert_eq!(plan.format, fmt);
        assert!(plan.resume);
    }
}

#[test]
fn unlisted_formats_are_refused() {
    let s = session(1, 1);
    let caps = jpeg_caps();
    let fractional = CameraFormat::new(Resolution::new(640, 480), FrameFormat::MJPEG, 15);
    assert_eq!(s.request_format(&caps, fractional), Err(CaptureError::UnsupportedOperation));
    let zero_width = CameraFormat {
        resolution: Resolution { width: 0, height: 480 },
        format: FrameFormat::MJPEG,
        frame_rate: 30,
    };
    let zero_caps = Some(vec![CapabilityRecord {
        media_type: "image/jpeg".to_string(),
        format_tag: None,
        width: Some(0),
        height: Some(480),
        frame_rates: Some("30/1".to_string()),
    }]);
    assert_eq!(s.request_format(&zero_caps, zero_width), Err(CaptureError::UnsupportedOperation));
    let zero_rate = CameraFormat {
        resolution: Resolution { width: 640, height: 480 },
        format: FrameFormat::MJPEG,
        frame_rate: 0,
    };
    assert_eq!(s.request_format(&caps, zero_rate), Err(CaptureError::UnsupportedOperation));
    let wrong_encoding = CameraFormat::new(Resolution::new(640, 480), FrameFormat::YUYV, 30);
    assert_eq!(s.request_format(&caps, wrong_encoding), Err(CaptureError::UnsupportedOperation));
    assert_eq!(s.request_format(&None, fractional), Err(CaptureError::DeviceQueryFailed));
}

#[test]
fn probe_counts_either_end_playing() {
    assert!(probe_is_open(PipelineState::Playing, PipelineState::VoidPending));
    assert!(probe_is_open(PipelineState::Paused, PipelineState::Playing));
    assert!(!probe_is_open(PipelineState::Paused, PipelineState::VoidPending));
    assert!(!probe_is_open(PipelineState::Null, PipelineState::Ready));
}
