//! The streaming state machine of one device and the channel that hands its
//! decoded frames to the application.
//!
//! The media engine runs outside this module: the caller performs each engine
//! action that a method asks for and hands its outcome back.
use crate::decode::{decode_frame, decoded_frame, frame_len, DecodedImage, SourceLayout};
use crate::format::{CameraFormat, CameraInfo, CaptureError, FrameFormat, Resolution};
use crate::negotiate::{
    catalog_of, catalog_offers, check_format, compatible_list_by_resolution,
    CapabilityRecord,
};
use flume::{Receiver, Sender};
use vstd::prelude::*;

verus! {

#[verifier::external_type_specification]
#[verifier::external_body]
#[verifier::reject_recursive_types(T)]
pub struct ExSender<T>(Sender<T>);

#[verifier::external_type_specification]
#[verifier::external_body]
#[verifier::reject_recursive_types(T)]
pub struct ExReceiver<T>(Receiver<T>);

/// A decoded frame with the number of the channel it was sent on.
pub type Tagged = (u64, DecodedImage);

/// Relies on flume::unbounded: a new channel with no bound on how many frames wait in it.
#[verifier::external_body]
fn unbounded_channel() -> (Sender<Tagged>, Receiver<Tagged>) {
    flume::unbounded()
}

/// Relies on flume::Receiver::recv: waits for the oldest frame sent, and fails
/// only once every sender is gone and no frame waits.
#[verifier::external_body]
fn receive(rx: &Receiver<Tagged>) -> Option<Tagged> {
    rx.recv().ok()
}

/// Relies on flume::Sender::send: queues the frame, and fails only when the
/// receiver is gone.
#[verifier::external_body]
fn send(tx: &Sender<Tagged>, frame: Tagged) -> bool {
    tx.send(frame).is_ok()
}

/// The sending end of one frame channel, for the engine's arrival callback.
/// Each frame it sends carries the number of its channel.
pub struct FrameSender {
    tx: Sender<Tagged>,
    epoch: u64,
}

impl FrameSender {
    pub closed spec fn spec_epoch(&self) -> u64 {
        self.epoch
    }

    /// The number of the channel this sender feeds.
    pub fn epoch(&self) -> (r: u64)
        ensures
            r == self.spec_epoch(),
    {
        self.epoch
    }
}

/// Where the stream of a device stands.
#[derive(Clone, Copy, Debug, PartialEq, Eq, Structural)]
pub enum StreamState {
    /// No pipeline has been built.
    Closed,
    /// The pipeline runs and frames arrive.
    Playing,
    /// A pipeline for the current format is built but does not run.
    Stopped,
}

/// A pipeline state as the media engine reports it.
#[derive(Clone, Copy, Debug, PartialEq, Eq, Structural)]
pub enum PipelineState {
    VoidPending,
    Null,
    Ready,
    Paused,
    Playing,
}

/// One message drained from the engine's event channel when a frame was asked for.
#[derive(Clone, Copy, Debug, PartialEq, Eq, Structural)]
pub enum BusSignal {
    /// The stream has ended.
    EndOfStream,
    /// The pipeline reported an error.
    Error,
    /// A message of no concern to capture.
    Other,
}

/// The abstract state of a session: the stream's state, its format, and the
/// number of the frame channel opened last.
pub struct SessionView {
    pub state: StreamState,
    pub format: CameraFormat,
    pub epoch: u64,
}

impl SessionView {
    /// A session holds an open frame channel exactly while its stream runs.
    pub open spec fn channel_open(&self) -> bool {
        self.state == StreamState::Playing
    }
}

/// One device's stream: its format, its state, and the receiving end of its frame channel.
pub struct CaptureSession {
    format: CameraFormat,
    info: CameraInfo,
    stream: Stream,
    epoch: u64,
}

/// The stream's state; a running stream holds the receiving end of its frame channel.
enum Stream {
    Closed,
    Playing(Receiver<Tagged>),
    Stopped,
}

impl Stream {
    spec fn spec_state(&self) -> StreamState {
        match self {
            Stream::Closed => StreamState::Closed,
            Stream::Playing(_) => StreamState::Playing,
            Stream::Stopped => StreamState::Stopped,
        }
    }

    fn state(&self) -> (r: StreamState)
        ensures
            r == self.spec_state(),
    {
        match self {
            Stream::Closed => StreamState::Closed,
            Stream::Playing(_) => StreamState::Playing,
            Stream::Stopped => StreamState::Stopped,
        }
    }
}

/// A format change as planned: the new format, and whether the stream must run again after it.
#[derive(Clone, Copy, Debug, PartialEq, Eq, Structural)]
pub struct Reconfigure {
    pub format: CameraFormat,
    pub resume: bool,
}

/// Whether a state probe shows a running pipeline. A probe that timed out may
/// still be in transition, so either end of it being `Playing` counts.
pub open spec fn probe_open(current: PipelineState, pending: PipelineState) -> bool {
    current == PipelineState::Playing || pending == PipelineState::Playing
}

/// The session after the engine was asked to run the pipeline.
/// Opening gives a new channel, numbered after every earlier one; the last number
/// is never given, so a session can be opened `u64::MAX` times.
pub open spec fn open_view(v: SessionView, started: bool) -> SessionView {
    if started && v.epoch < u64::MAX {
        SessionView { state: StreamState::Playing, format: v.format, epoch: (v.epoch + 1) as u64 }
    } else {
        v
    }
}

/// The session after a stop; only a running stream needs the engine to halt.
pub open spec fn stop_view(v: SessionView, halted: bool) -> SessionView {
    if v.state == StreamState::Playing && halted {
        SessionView { state: StreamState::Stopped, format: v.format, epoch: v.epoch }
    } else {
        v
    }
}

pub open spec fn stop_result(v: SessionView, halted: bool) -> Result<(), CaptureError> {
    if v.state == StreamState::Playing && !halted {
        Err(CaptureError::StreamStopFailed)
    } else {
        Ok(())
    }
}

/// The session after a pipeline for `fmt` was built, or failed to build.
pub open spec fn install_view(v: SessionView, fmt: CameraFormat, built: bool) -> SessionView {
    if built {
        SessionView { state: StreamState::Stopped, format: fmt, epoch: v.epoch }
    } else {
        v
    }
}

pub open spec fn is_failure(signal: BusSignal) -> bool {
    signal == BusSignal::EndOfStream || signal == BusSignal::Error
}

/// What a pull makes of the messages drained from the event channel: any
/// end-of-stream or error among them fails it.
pub open spec fn bus_result(signals: Seq<BusSignal>) -> Result<(), CaptureError> {
    if exists|i: int| 0 <= i < signals.len() && is_failure(#[trigger] signals[i]) {
        Err(CaptureError::CaptureFailed)
    } else {
        Ok(())
    }
}

/// Whether a received frame is one of the current format: its size and its length.
pub open spec fn frame_fits(img: DecodedImage, fmt: CameraFormat) -> bool {
    &&& img.width == fmt.resolution.width
    &&& img.height == fmt.resolution.height
    &&& img.wf()
}

/// The byte length of a frame, computed wide enough that it cannot overflow.
fn frame_len_wide(width: u32, height: u32) -> (r: u128)
    ensures
        r == frame_len(width, height),
{
    proof {
        assert(3 * (width as int) * (height as int) <= 3 * 0xffff_ffff * 0xffff_ffff) by (nonlinear_arith)
            requires
                width <= 0xffff_ffff,
                height <= 0xffff_ffff,
        ;
    }
    3u128 * (width as u128) * (height as u128)
}

/// Whether a state probe of the engine shows a running pipeline.
pub fn probe_is_open(current: PipelineState, pending: PipelineState) -> (r: bool)
    ensures
        r == probe_open(current, pending),
{
    current == PipelineState::Playing || pending == PipelineState::Playing
}

/// Turns every message drained from the engine's event channel into the error a
/// pull reports, if any.
pub fn check_bus(signals: &[BusSignal]) -> (r: Result<(), CaptureError>)
    ensures
        r == bus_result(signals@),
{
    let mut i: usize = 0;
    while i < signals.len()
        invariant
            0 <= i <= signals@.len(),
            forall|j: int| 0 <= j < i ==> !is_failure(#[trigger] signals@[j]),
        decreases signals@.len() - i,
    {
        if signals[i] == BusSignal::EndOfStream || signals[i] == BusSignal::Error {
            assert(is_failure(signals@[i as int]));
            return Err(CaptureError::CaptureFailed);
        }
        i = i + 1;
    }
    Ok(())
}

/// Decodes an arrived buffer and queues the frame for the application.
///
/// A frame too large to hold, or one that does not decode, fails alone with
/// `DecodeFailed` and is not sent; a frame that cannot be queued because the
/// receiver is gone fails with `CaptureFailed`.
pub fn deliver_frame(
    tx: &FrameSender,
    data: &[u8],
    width: u32,
    height: u32,
    layout: SourceLayout,
    has_alpha: bool,
) -> (r: Result<(), CaptureError>)
    ensures
        frame_len(width, height) > usize::MAX ==> r == Err::<(), CaptureError>(
            CaptureError::DecodeFailed,
        ),
        frame_len(width, height) <= usize::MAX ==> match decoded_frame(
            data@,
            width,
            height,
            layout,
            has_alpha,
        ) {
            Ok(_) => r is Ok || r == Err::<(), CaptureError>(CaptureError::CaptureFailed),
            Err(e) => r == Err::<(), CaptureError>(e),
        },
{
    if frame_len_wide(width, height) > usize::MAX as u128 {
        return Err(CaptureError::DecodeFailed);
    }
    match decode_frame(data, width, height, layout, has_alpha) {
        Ok(img) => if send(&tx.tx, (tx.epoch, img)) {
            Ok(())
        } else {
            Err(CaptureError::CaptureFailed)
        },
        Err(e) => Err(e),
    }
}

impl View for CaptureSession {
    type V = SessionView;

    closed spec fn view(&self) -> SessionView {
        SessionView { state: self.stream.spec_state(), format: self.format, epoch: self.epoch }
    }
}

impl CaptureSession {

    /// A session for a device that has no pipeline yet.
    pub fn new(format: CameraFormat, info: CameraInfo) -> (r: CaptureSession)
        ensures
            r@ == (SessionView { state: StreamState::Closed, format, epoch: 0 }),
            r.info_view() == info,
    {
        CaptureSession { format, info, stream: Stream::Closed, epoch: 0 }
    }

    pub closed spec fn info_view(&self) -> CameraInfo {
        self.info
    }

    pub fn camera_format(&self) -> (r: CameraFormat)
        ensures
            r == self@.format,
    {
        self.format
    }

    pub fn camera_info(&self) -> (r: &CameraInfo)
        ensures
            *r == self.info_view(),
    {
        &self.info
    }

    pub fn resolution(&self) -> (r: Resolution)
        ensures
            r == self@.format.resolution,
    {
        self.format.resolution
    }

    pub fn frame_rate(&self) -> (r: u32)
        ensures
            r == self@.format.frame_rate,
    {
        self.format.frame_rate
    }

    pub fn frame_format(&self) -> (r: FrameFormat)
        ensures
            r == self@.format.format,
    {
        self.format.format
    }

    pub fn state(&self) -> (r: StreamState)
        ensures
            r == self@.state,
    {
        self.stream.state()
    }

    /// Whether stopping must ask the engine to halt the pipeline.
    pub fn is_playing(&self) -> (r: bool)
        ensures
            r == (self@.state == StreamState::Playing),
    {
        self.stream.state() == StreamState::Playing
    }

    /// Records the outcome of asking the engine to run the pipeline. On success a
    /// new frame channel, numbered after every earlier one, replaces the old one,
    /// and its sending end is returned for the engine's arrival callback.
    pub fn open_stream(&mut self, started: bool) -> (r: Result<FrameSender, CaptureError>)
        ensures
            final(self)@ == open_view(old(self)@, started),
            final(self).info_view() == old(self).info_view(),
            started && old(self)@.epoch < u64::MAX ==> r is Ok && r->Ok_0.spec_epoch()
                == final(self)@.epoch,
            !(started && old(self)@.epoch < u64::MAX) ==> r is Err && r->Err_0
                == CaptureError::StreamOpenFailed,
    {
        if !started || self.epoch == u64::MAX {
            return Err(CaptureError::StreamOpenFailed);
        }
        let (tx, rx) = unbounded_channel();
        let epoch = self.epoch + 1;
        self.stream = Stream::Playing(rx);
        self.epoch = epoch;
        Ok(FrameSender { tx, epoch })
    }

    /// Records the outcome of asking the engine to halt a running pipeline, and
    /// closes the frame channel. A stream that does not run stops at once,
    /// whatever `halted` says.
    pub fn stop_stream(&mut self, halted: bool) -> (r: Result<(), CaptureError>)
        ensures
            final(self)@ == stop_view(old(self)@, halted),
            final(self).info_view() == old(self).info_view(),
            r == stop_result(old(self)@, halted),
    {
        if self.stream.state() != StreamState::Playing {
            return Ok(());
        }
        if !halted {
            return Err(CaptureError::StreamStopFailed);
        }
        self.stream = Stream::Stopped;
        Ok(())
    }

    /// Plans a change to `new_fmt`: the stream resumes afterwards only if it runs now.
    pub fn plan_reconfigure(&self, new_fmt: CameraFormat) -> (r: Reconfigure)
        ensures
            r.format == new_fmt,
            r.resume == (self@.state == StreamState::Playing),
    {
        Reconfigure { format: new_fmt, resume: self.is_playing() }
    }

    /// Asks for `new_fmt` on a device with capabilities `caps`: the format must
    /// be usable (a non-empty frame, a positive rate) and listed in the catalog of
    /// its encoding. The plan resumes the stream afterwards only if it runs now.
    pub fn request_format(&self, caps: &Option<Vec<CapabilityRecord>>, new_fmt: CameraFormat) -> (r:
        Result<Reconfigure, CaptureError>)
        ensures
            !new_fmt.wf() ==> r == Err::<Reconfigure, CaptureError>(
                CaptureError::UnsupportedOperation,
            ),
            new_fmt.wf() && caps is None ==> r == Err::<Reconfigure, CaptureError>(
                CaptureError::DeviceQueryFailed,
            ),
            new_fmt.wf() && caps is Some ==> match catalog_of(caps->Some_0@, new_fmt.format) {
                None => r == Err::<Reconfigure, CaptureError>(CaptureError::DeviceQueryFailed),
                Some(c) => if catalog_offers(c, new_fmt) {
                    r == Ok::<Reconfigure, CaptureError>(
                        Reconfigure {
                            format: new_fmt,
                            resume: self@.state == StreamState::Playing,
                        },
                    )
                } else {
                    r == Err::<Reconfigure, CaptureError>(CaptureError::UnsupportedOperation)
                },
            },
    {
        if new_fmt.resolution.width == 0 || new_fmt.resolution.height == 0 || new_fmt.frame_rate
            == 0 {
            return Err(CaptureError::UnsupportedOperation);
        }
        let catalog = match compatible_list_by_resolution(caps, new_fmt.format) {
            Ok(c) => c,
            Err(e) => {
                return Err(e);
            },
        };
        match check_format(&catalog, &new_fmt) {
            Ok(()) => Ok(self.plan_reconfigure(new_fmt)),
            Err(e) => Err(e),
        }
    }

    /// Records the outcome of building a pipeline for `fmt`. A new pipeline
    /// replaces the old one whole: the session adopts `fmt`, stands stopped, and
    /// its old frame channel is closed.
    pub fn install_pipeline(&mut self, fmt: CameraFormat, built: bool) -> (r: Result<(), CaptureError>)
        ensures
            final(self)@ == install_view(old(self)@, fmt, built),
            final(self).info_view() == old(self).info_view(),
            built ==> r is Ok,
            !built ==> r == Err::<(), CaptureError>(CaptureError::DeviceNotFound),
    {
        if !built {
            return Err(CaptureError::DeviceNotFound);
        }
        self.stream = Stream::Stopped;
        self.format = fmt;
        Ok(())
    }

    /// The encoding of a running pipeline cannot be forced here.
    pub fn set_frame_format(&mut self, _fourcc: FrameFormat) -> (r: Result<(), CaptureError>)
        ensures
            final(self)@ == old(self)@,
            r == Err::<(), CaptureError>(CaptureError::UnsupportedOperation),
    {
        Err(CaptureError::UnsupportedOperation)
    }

    /// What a pull makes of the frame the channel gave, or of its closure: a
    /// frame of the channel opened last and of the current size is handed on; a
    /// closed channel, a frame of an earlier channel, or one of another size
    /// fails the pull.
    pub fn accept_frame(&self, received: Option<Tagged>) -> (r: Result<DecodedImage, CaptureError>)
        ensures
            match received {
                Some((epoch, img)) => if epoch == self@.epoch && frame_fits(img, self@.format) {
                    r is Ok && r->Ok_0 == img
                } else {
                    r is Err && r->Err_0 == CaptureError::CaptureFailed
                },
                None => r is Err && r->Err_0 == CaptureError::CaptureFailed,
            },
    {
        match received {
            Some((epoch, img)) => {
                if epoch != self.epoch {
                    return Err(CaptureError::CaptureFailed);
                }
                let w = img.width;
                let h = img.height;
                if w != self.format.resolution.width || h != self.format.resolution.height {
                    return Err(CaptureError::CaptureFailed);
                }
                let n: u128 = frame_len_wide(w, h);
                if img.data.len() as u128 != n {
                    return Err(CaptureError::CaptureFailed);
                }
                Ok(img)
            },
            None => Err(CaptureError::CaptureFailed),
        }
    }

    /// Pulls the next frame: an end-of-stream or error among the drained event
    /// messages, or a stream that does not run, fails at once; otherwise it waits
    /// for the oldest frame queued on the channel opened last.
    pub fn pull_frame(&self, signals: &[BusSignal]) -> (r: Result<DecodedImage, CaptureError>)
        ensures
            bus_result(signals@) is Err ==> r is Err && r->Err_0 == CaptureError::CaptureFailed,
            !self@.channel_open() ==> r is Err && r->Err_0 == CaptureError::CaptureFailed,
            r is Ok ==> frame_fits(r->Ok_0, self@.format),
    {
        if let Err(e) = check_bus(signals) {
            return Err(e);
        }
        match &self.stream {
            Stream::Playing(rx) => self.accept_frame(receive(rx)),
            _ => Err(CaptureError::CaptureFailed),
        }
    }

    /// Pulls the next frame as its raw RGB bytes.
    pub fn frame_raw(&self, signals: &[BusSignal]) -> (r: Result<Vec<u8>, CaptureError>)
        ensures
            bus_result(signals@) is Err ==> r is Err && r->Err_0 == CaptureError::CaptureFailed,
            !self@.channel_open() ==> r is Err && r->Err_0 == CaptureError::CaptureFailed,
            r is Ok ==> r->Ok_0@.len() == frame_len(
                self@.format.resolution.width,
                self@.format.resolution.height,
            ),
    {
        match self.pull_frame(signals) {
            Ok(img) => Ok(img.into_raw()),
            Err(e) => Err(e),
        }
    }
}

/// Opening, stopping and opening again leaves the stream running.
pub proof fn lemma_open_stop_open(v: SessionView)
    requires
        v.epoch < u64::MAX - 1,
    ensures
        open_view(stop_view(open_view(v, true), true), true).state == StreamState::Playing,
{
}

/// Stopping a stream that is already stopped succeeds and changes nothing.
pub proof fn lemma_stop_when_stopped(v: SessionView, halted: bool)
    requires
        v.state == StreamState::Stopped,
    ensures
        stop_result(v, halted) is Ok,
        stop_view(v, halted) == v,
{
}

/// A format change made while the stream runs (stop, build, start again) leaves
/// it running with the new format.
pub proof fn lemma_reconfigure_while_playing(v: SessionView, fmt: CameraFormat)
    requires
        v.state == StreamState::Playing,
        v.epoch < u64::MAX,
    ensures
        stop_result(v, true) is Ok,
        open_view(install_view(stop_view(v, true), fmt, true), true).state == StreamState::Playing,
        open_view(install_view(stop_view(v, true), fmt, true), true).format == fmt,
{
}

/// Every resolution and frame rate that a device's catalog lists for an
/// encoding can be requested: the check against that catalog lets it through.
pub proof fn lemma_listed_format_requestable(caps: Seq<CapabilityRecord>, f: FrameFormat, k: int, j: int)
    requires
        catalog_of(caps, f) is Some,
        0 <= k < catalog_of(caps, f)->Some_0.len(),
        0 <= j < catalog_of(caps, f)->Some_0[k].1.len(),
    ensures
        ({
            let c = catalog_of(caps, f)->Some_0;
            catalog_offers(c, CameraFormat { resolution: c[k].0, format: f, frame_rate: c[k].1[j] })
        }),
{
    let c = catalog_of(caps, f)->Some_0;
    crate::negotiate::lemma_listed_formats_accepted(c, f, k, j);
}

/// After a stop, whatever state it began from, and after a new pipeline is
/// installed, no frame channel is open, so that a pull fails rather than wait.
pub proof fn lemma_stop_closes_channel(v: SessionView, fmt: CameraFormat)
    ensures
        stop_result(v, true) is Ok,
        !stop_view(v, true).channel_open(),
        !install_view(v, fmt, true).channel_open(),
{
}

/// A reopened stream reads from a channel numbered after the one before it, so
/// a frame of the earlier channel is never handed on.
pub proof fn lemma_reopen_uses_new_channel(v: SessionView, fmt: CameraFormat)
    requires
        v.state == StreamState::Playing,
        v.epoch < u64::MAX,
    ensures
        open_view(install_view(stop_view(v, true), fmt, true), true).epoch > v.epoch,
{
}

} // verus!
