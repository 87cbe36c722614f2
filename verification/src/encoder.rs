//! The encoder pipeline: I420 frames -> H.264 frames for the peers.
use bytes::Bytes;
use crossbeam_channel::Receiver;
use tokio::sync::broadcast;
use vstd::prelude::*;
use vstd::string::StringExecFns;

use crate::capture::{presentation_time, pts_or_zero, Pulled, PulledView};
use crate::channels::{broadcast_frame, broadcasts, polls, try_recv};
use crate::metrics::{metric_total, record_frame_encoded, Change, Metric, MetricUpdate};
use crate::text::{
    append_decimal, decimal, decimal_reads_back, lemma_decimal_lacks, lemma_split_word, split,
    split_nowhere_else, split_of_two_texts, unsigned_value,
};
use crate::types::{bytes_held, EncodedFrame, RawFrame};

verus! {

/// The GStreamer description of the encoder pipeline:
/// appsrc -> x264enc -> appsink (byte-stream H.264 NAL units).
pub open spec fn encoder_description(
    bitrate: u32,
    threads: u32,
    width: u32,
    height: u32,
    fps: u32,
) -> Seq<char> {
    "appsrc name=src format=time is-live=true ! video/x-raw,format=I420,width="@ + decimal(
        width as nat,
    ) + ",height="@ + decimal(height as nat) + ",framerate="@ + decimal(fps as nat)
        + "/1 ! x264enc tune=zerolatency bitrate="@ + decimal(bitrate as nat)
        + " key-int-max=60 threads="@ + decimal(threads as nat)
        + " ! video/x-h264,profile=baseline,stream-format=byte-stream ! appsink name=enc_sink emit-signals=true max-buffers=4 drop=true sync=false"@
}

/// The GStreamer description of the encoder pipeline.
pub fn pipeline_description(bitrate: u32, threads: u32, width: u32, height: u32, fps: u32) -> (text:
    String)
    ensures
        text@ == encoder_description(bitrate, threads, width, height, fps),
{
    let mut text =
        "appsrc name=src format=time is-live=true ! video/x-raw,format=I420,width=".to_owned();
    append_decimal(&mut text, width as u64);
    text.append(",height=");
    append_decimal(&mut text, height as u64);
    text.append(",framerate=");
    append_decimal(&mut text, fps as u64);
    text.append("/1 ! x264enc tune=zerolatency bitrate=");
    append_decimal(&mut text, bitrate as u64);
    text.append(" key-int-max=60 threads=");
    append_decimal(&mut text, threads as u64);
    text.append(
        " ! video/x-h264,profile=baseline,stream-format=byte-stream ! appsink name=enc_sink emit-signals=true max-buffers=4 drop=true sync=false",
    );
    text
}

/// The time between frames in nanoseconds.
pub open spec fn frame_interval(fps: u32) -> u64 {
    (1_000_000_000u64 / (fps as u64)) as u64
}

/// The time between frames in nanoseconds.
pub fn frame_duration_ns(fps: u32) -> (ns: u64)
    requires
        fps > 0,
    ensures
        ns == frame_interval(fps),
        ns * fps <= 1_000_000_000,
        (ns + 1) * fps > 1_000_000_000,
{
    proof {
        frames_fill_a_second(fps);
    }
    1_000_000_000u64 / (fps as u64)
}

/// The interval is as long as it can be for all the frames of a second to fit
/// into it.
pub proof fn frames_fill_a_second(fps: u32)
    requires
        fps > 0,
    ensures
        frame_interval(fps) * fps <= 1_000_000_000,
        (frame_interval(fps) + 1) * fps > 1_000_000_000,
{
    let f = fps as u64;
    let ns = 1_000_000_000u64 / f;
    assert(ns * f <= 1_000_000_000 && (ns + 1) * f > 1_000_000_000) by (nonlinear_arith)
        requires
            f > 0,
            ns == 1_000_000_000u64 / f,
    ;
}

/// How long an encoded frame is shown: since the frame before it, or one frame
/// interval where there is none or time did not advance.
pub open spec fn shown_for(last_pts: Option<u64>, pts: u64, interval: u64) -> u64 {
    match last_pts {
        Some(previous) => if pts > previous {
            (pts - previous) as u64
        } else {
            interval
        },
        None => interval,
    }
}

/// The encoder's output side: stamps each H.264 frame with its duration.
pub struct EncoderSink {
    last_pts: Option<u64>,
    frame_duration: u64,
}

/// What the output side does after a pull.
#[derive(Clone, Copy, Debug, PartialEq, Eq, Structural)]
pub enum SinkStep {
    /// A frame went out to the peers.
    Published(MetricUpdate),
    /// There was nothing to publish.
    Skipped,
    /// The pipeline has stopped.
    Stop,
}

/// The bytes and the duration of each frame.
pub open spec fn frames_view(frames: Seq<EncodedFrame>) -> Seq<(Seq<u8>, u64)> {
    frames.map_values(|f: EncodedFrame| (bytes_held(f.data), f.duration))
}

/// What the output side answers a pull with.
pub open spec fn sink_step(pulled: PulledView) -> SinkStep {
    match pulled {
        PulledView::Ended => SinkStep::Stop,
        PulledView::NoBuffer => SinkStep::Skipped,
        PulledView::Unreadable => SinkStep::Skipped,
        PulledView::Buffer { .. } => SinkStep::Published(
            MetricUpdate { metric: Metric::FramesEncoded, change: Change::CountBy(1) },
        ),
    }
}

/// The presentation time of the frame before and the frames broadcast, after a
/// pull: a readable buffer goes out as one more frame, and nothing else does.
pub open spec fn sink_after(
    last_pts: Option<u64>,
    sent: Seq<(Seq<u8>, u64)>,
    interval: u64,
    pulled: PulledView,
) -> (Option<u64>, Seq<(Seq<u8>, u64)>) {
    match pulled {
        PulledView::Buffer { data, pts } => (
            Some(pts_or_zero(pts)),
            sent.push((data, shown_for(last_pts, pts_or_zero(pts), interval))),
        ),
        _ => (last_pts, sent),
    }
}

impl EncoderSink {
    /// Presentation time of the frame before.
    pub closed spec fn previous(&self) -> Option<u64> {
        self.last_pts
    }

    /// The time between frames in nanoseconds.
    pub closed spec fn interval(&self) -> u64 {
        self.frame_duration
    }

    /// The output side before its first frame.
    pub fn new(fps: u32) -> (sink: EncoderSink)
        requires
            fps > 0,
        ensures
            sink.previous() is None,
            sink.interval() == frame_interval(fps),
    {
        EncoderSink { last_pts: None, frame_duration: frame_duration_ns(fps) }
    }

    /// The frame for one encoded buffer.
    pub fn stamp(&mut self, data: &[u8], pts: Option<u64>) -> (frame: EncodedFrame)
        ensures
            bytes_held(frame.data) == data@,
            frame.duration == shown_for(
                old(self).previous(),
                pts_or_zero(pts),
                old(self).interval(),
            ),
            final(self).previous() == Some(pts_or_zero(pts)),
            final(self).interval() == old(self).interval(),
            final(self).previous() is Some,
            pts matches Some(t) ==> final(self).previous() == Some(t),
            pts is None ==> final(self).previous() == Some(0u64),
            (match (old(self).previous(), pts) {
                (Some(b), Some(t)) if b < t => b + frame.duration == t,
                _ => frame.duration == old(self).interval(),
            }),
    {
        let now = presentation_time(pts);
        let duration: u64 = match self.last_pts {
            Some(previous) => if now > previous {
                now - previous
            } else {
                self.frame_duration
            },
            None => self.frame_duration,
        };
        self.last_pts = Some(now);
        EncodedFrame::copied(data, duration)
    }

    /// Handles one pull from the encoder: a readable buffer is stamped and
    /// broadcast, once, to whatever peers there are, even none. Nothing else
    /// is broadcast.
    pub fn on_sample(
        &mut self,
        tx: &mut broadcast::Sender<EncodedFrame>,
        pulled: Pulled,
    ) -> (step: SinkStep)
        ensures
            step == sink_step(pulled@),
            final(self).interval() == old(self).interval(),
            (final(self).previous(), frames_view(broadcasts(*final(tx)))) == sink_after(
                old(self).previous(),
                frames_view(broadcasts(*old(tx))),
                old(self).interval(),
                pulled@,
            ),
            broadcasts(*final(tx)).take(broadcasts(*old(tx)).len() as int) == broadcasts(*old(tx)),
            step is Stop <==> pulled is Ended,
            step is Skipped <==> pulled is NoBuffer || pulled is Unreadable,
            !(pulled is Buffer) ==> *final(tx) == *old(tx) && final(self).previous() == old(
                self,
            ).previous(),
            pulled matches Pulled::Buffer { data, pts } ==> {
                let frame = broadcasts(*final(tx)).last();
                let before = old(self).previous();
                &&& broadcasts(*final(tx)) == broadcasts(*old(tx)).push(frame)
                &&& bytes_held(frame.data) == data@
                &&& match (before, pts) {
                    (Some(b), Some(t)) if b < t => b + frame.duration == t,
                    _ => frame.duration == old(self).interval(),
                }
                &&& pts matches Some(t) ==> final(self).previous() == Some(t)
                &&& pts is None ==> final(self).previous() == Some(0u64)
                &&& step == SinkStep::Published(
                    MetricUpdate { metric: Metric::FramesEncoded, change: Change::CountBy(1) },
                )
            },
    {
        assert(broadcasts(*tx).take(broadcasts(*tx).len() as int) == broadcasts(*tx));
        match pulled {
            Pulled::Ended => SinkStep::Stop,
            Pulled::NoBuffer => SinkStep::Skipped,
            Pulled::Unreadable => SinkStep::Skipped,
            Pulled::Buffer { data, pts } => {
                let frame = self.stamp(data, pts);
                let ghost parts = (bytes_held(frame.data), frame.duration);
                let _ = broadcast_frame(tx, frame);
                assert(frames_view(broadcasts(*tx)) == frames_view(broadcasts(*old(tx))).push(
                    parts,
                ));
                SinkStep::Published(record_frame_encoded())
            },
        }
    }
}

/// A buffer for the encoder's input.
pub struct FeedBuffer {
    pub data: Bytes,
    pub pts: u64,
    pub dts: u64,
    pub duration: u64,
}

/// What a [`FeedBuffer`] holds.
pub struct FeedBufferView {
    pub data: Seq<u8>,
    pub pts: u64,
    pub dts: u64,
    pub duration: u64,
}

impl View for FeedBuffer {
    type V = FeedBufferView;

    open spec fn view(&self) -> FeedBufferView {
        FeedBufferView {
            data: bytes_held(self.data),
            pts: self.pts,
            dts: self.dts,
            duration: self.duration,
        }
    }
}

/// The buffer that carries a raw frame into the encoder.
pub open spec fn buffer_for(frame: RawFrame, frame_duration: u64) -> FeedBufferView {
    FeedBufferView {
        data: bytes_held(frame.data),
        pts: frame.pts,
        dts: frame.pts,
        duration: frame_duration,
    }
}

/// The buffer that carries a raw frame into the encoder.
pub fn feed_buffer(frame: &RawFrame, frame_duration: u64) -> (buffer: FeedBuffer)
    ensures
        buffer@ == buffer_for(*frame, frame_duration),
        bytes_held(buffer.data) == bytes_held(frame.data),
        buffer.pts == frame.pts,
        buffer.dts == frame.pts,
        buffer.duration == frame_duration,
{
    FeedBuffer {
        data: frame.data.clone(),
        pts: frame.pts,
        dts: frame.pts,
        duration: frame_duration,
    }
}

/// The keyframe requests that were waiting.
#[derive(Clone, Copy, Debug, PartialEq, Eq, Structural)]
pub struct KeyframeRequests {
    pub taken: u64,
    /// Whether the next frame is to be a keyframe.
    pub force: bool,
}

/// The polls of one drain: as many finds as requests were taken, then the poll
/// that found none.
pub open spec fn drain_polls(taken: u64) -> Seq<bool> {
    let finds = Seq::new(taken as nat, |i: int| true);
    if taken < u64::MAX {
        finds.push(false)
    } else {
        finds
    }
}

/// Takes every waiting keyframe request: the channel is polled until it is
/// empty. One forced keyframe serves all requests.
pub fn drain_keyframe_requests(rx: &mut Receiver<()>) -> (requests: KeyframeRequests)
    ensures
        requests.force == (requests.taken > 0),
        polls(*final(rx)) == polls(*old(rx)) + drain_polls(requests.taken),
        forall|i: int|
            0 <= i < requests.taken ==> #[trigger] polls(*final(rx))[polls(*old(rx)).len() + i],
        requests.taken < u64::MAX ==> polls(*final(rx)).len() == polls(*old(rx)).len()
            + requests.taken + 1 && !polls(*final(rx)).last(),
{
    let ghost before = polls(*rx);
    let mut taken: u64 = 0;
    assert(before + Seq::new(0, |i: int| true) == before);
    while taken < u64::MAX
        invariant_except_break
            polls(*rx) == before + Seq::new(taken as nat, |i: int| true),
        ensures
            polls(*rx) == before + drain_polls(taken),
        decreases u64::MAX - taken,
    {
        if try_recv(rx).is_none() {
            assert(polls(*rx) == before + drain_polls(taken));
            break;
        }
        taken = taken + 1;
        assert(polls(*rx) == before + Seq::new(taken as nat, |i: int| true));
    }
    KeyframeRequests { taken, force: taken > 0 }
}

/// What is done at the encoder's input.
pub enum FeedAction {
    /// Send a custom downstream event with a structure of this name, whose field
    /// `all-headers` has this value.
    SendEvent { structure: &'static str, all_headers: bool },
    /// Push this buffer.
    Push(FeedBuffer),
}

/// What a [`FeedAction`] holds.
pub enum FeedActionView {
    SendEvent { structure: Seq<char>, all_headers: bool },
    Push(FeedBufferView),
}

impl View for FeedAction {
    type V = FeedActionView;

    open spec fn view(&self) -> FeedActionView {
        match self {
            FeedAction::SendEvent { structure, all_headers } => FeedActionView::SendEvent {
                structure: structure@,
                all_headers: *all_headers,
            },
            FeedAction::Push(buffer) => FeedActionView::Push(buffer@),
        }
    }
}

/// What a list of actions holds.
pub open spec fn feed_view(actions: Seq<FeedAction>) -> Seq<FeedActionView> {
    actions.map_values(|a: FeedAction| a@)
}

/// The event that makes the next frame a keyframe with all headers.
pub open spec fn force_keyframe() -> FeedActionView {
    FeedActionView::SendEvent { structure: "GstForceKeyUnit"@, all_headers: true }
}

/// What is done about a raw frame: where a keyframe is to be forced, the event
/// is sent once, first; then the frame's buffer is pushed, once.
pub open spec fn feeding(frame: RawFrame, frame_duration: u64, force: bool) -> Seq<FeedActionView> {
    let push = FeedActionView::Push(buffer_for(frame, frame_duration));
    if force {
        seq![force_keyframe(), push]
    } else {
        seq![push]
    }
}

/// What is done about a raw frame, given the keyframe requests that were
/// waiting.
pub fn feed_actions(frame: &RawFrame, frame_duration: u64, requests: KeyframeRequests) -> (actions:
    Vec<FeedAction>)
    ensures
        feed_view(actions@) == feeding(*frame, frame_duration, requests.force),
        actions.len() == if requests.force {
            2
        } else {
            1nat
        },
        requests.force ==> (actions@[0] matches FeedAction::SendEvent { structure, all_headers }
            && structure@ == "GstForceKeyUnit"@ && all_headers),
        actions@.last() matches FeedAction::Push(buffer) && bytes_held(buffer.data) == bytes_held(
            frame.data,
        ) && buffer.pts == frame.pts && buffer.dts == frame.pts && buffer.duration
            == frame_duration,
{
    let mut actions: Vec<FeedAction> = Vec::new();
    if requests.force {
        actions.push(FeedAction::SendEvent { structure: "GstForceKeyUnit", all_headers: true });
    }
    actions.push(FeedAction::Push(feed_buffer(frame, frame_duration)));
    assert(feed_view(actions@) =~= feeding(*frame, frame_duration, requests.force));
    actions
}

/// Takes every waiting keyframe request and decides what is done about a raw
/// frame: with any request waiting, one forced keyframe before the frame is
/// pushed; with none, the push alone.
pub fn feed(frame: &RawFrame, frame_duration: u64, rx: &mut Receiver<()>) -> (actions: Vec<
    FeedAction,
>)
    ensures
        exists|taken: u64|
            polls(*final(rx)) == polls(*old(rx)) + #[trigger] drain_polls(taken) && feed_view(
                actions@,
            ) == feeding(*frame, frame_duration, taken > 0),
        polls(*final(rx)).len() > polls(*old(rx)).len(),
        actions.len() == if polls(*final(rx))[polls(*old(rx)).len() as int] {
            2
        } else {
            1nat
        },
        actions.len() == 2 ==> (actions@[0] matches FeedAction::SendEvent { structure, all_headers }
            && structure@ == "GstForceKeyUnit"@ && all_headers),
        actions@.last() matches FeedAction::Push(buffer) && bytes_held(buffer.data) == bytes_held(
            frame.data,
        ) && buffer.pts == frame.pts && buffer.dts == frame.pts && buffer.duration
            == frame_duration,
{
    let requests = drain_keyframe_requests(rx);
    feed_actions(frame, frame_duration, requests)
}

/// A frame that comes after the one before it in time is shown for the time
/// between them; any other frame for one interval.
pub proof fn frames_are_shown_until_the_next(before: Option<u64>, pts: u64, interval: u64)
    ensures
        (match before {
            Some(b) if b < pts => b + shown_for(before, pts, interval) == pts,
            _ => shown_for(before, pts, interval) == interval,
        }),
{
}

/// One forced keyframe, before the frame, where any request was waiting; none
/// otherwise. The frame itself goes in once, last, whole and at its time.
pub proof fn forced_keyframe_comes_first(frame: RawFrame, interval: u64, force: bool)
    ensures
        ({
            let actions = feeding(frame, interval, force);
            &&& actions.len() == if force {
                2
            } else {
                1nat
            }
            &&& force ==> actions[0] == (FeedActionView::SendEvent {
                structure: "GstForceKeyUnit"@,
                all_headers: true,
            })
            &&& actions.last() == FeedActionView::Push(
                FeedBufferView {
                    data: bytes_held(frame.data),
                    pts: frame.pts,
                    dts: frame.pts,
                    duration: interval,
                },
            )
        }),
{
}

/// A drain ends at the first poll that finds nothing: every poll before it found
/// a request.
pub proof fn drains_end_at_the_first_empty_poll(taken: u64)
    requires
        taken < u64::MAX,
    ensures
        drain_polls(taken).len() == taken + 1,
        !drain_polls(taken).last(),
        forall|i: int| 0 <= i < taken ==> #[trigger] drain_polls(taken)[i],
{
}

/// Where a run of the encoder stands.
#[derive(Clone, Copy, Debug, PartialEq, Eq, Structural)]
pub enum EncoderPhase {
    /// The pipeline has been asked to play.
    Starting,
    /// Raw frames are pushed in.
    Feeding,
    /// The input has ended and the encoder flushes.
    Flushing,
    /// The output side has ended and the pipeline is shut down.
    Stopped,
    /// The run broke off.
    Failed,
}

/// What happens to a run.
#[derive(Clone, Copy, Debug, PartialEq, Eq, Structural)]
pub enum EncoderEvent {
    Playing,
    PlayRefused,
    /// No buffer could be had for a raw frame.
    AllocationFailed,
    /// The pipeline took a buffer.
    Pushed,
    /// The pipeline refused a buffer.
    PushRefused,
    /// The capture side is gone.
    InputClosed,
    /// The output side has ended.
    SinkEnded,
}

/// What the encoder's thread is to do.
#[derive(Clone, Copy, Debug, PartialEq, Eq, Structural)]
pub enum EncoderAction {
    /// Start the thread of the output side.
    StartSink,
    /// Signal the end of the stream at the input.
    EndStream,
    /// Wait until the output side has ended.
    AwaitSink,
    /// Set the pipeline to its null state.
    ShutDown,
}

/// The phase after an event, and what is to be done. A refused buffer does not
/// end the run; when the input ends, the encoder is flushed before it is shut
/// down.
pub open spec fn encoder_after(phase: EncoderPhase, event: EncoderEvent) -> (
    EncoderPhase,
    Seq<EncoderAction>,
) {
    match (phase, event) {
        (EncoderPhase::Starting, EncoderEvent::Playing) => (
            EncoderPhase::Feeding,
            seq![EncoderAction::StartSink],
        ),
        (EncoderPhase::Starting, EncoderEvent::PlayRefused) => (
            EncoderPhase::Failed,
            Seq::empty(),
        ),
        (EncoderPhase::Feeding, EncoderEvent::AllocationFailed) => (
            EncoderPhase::Failed,
            Seq::empty(),
        ),
        (EncoderPhase::Feeding, EncoderEvent::InputClosed) => (
            EncoderPhase::Flushing,
            seq![EncoderAction::EndStream, EncoderAction::AwaitSink],
        ),
        (EncoderPhase::Flushing, EncoderEvent::SinkEnded) => (
            EncoderPhase::Stopped,
            seq![EncoderAction::ShutDown],
        ),
        _ => (phase, Seq::empty()),
    }
}

impl EncoderPhase {
    /// Takes an event in; returns what is to be done, in order.
    pub fn step(&mut self, event: EncoderEvent) -> (actions: Vec<EncoderAction>)
        ensures
            (*final(self), actions@) == encoder_after(*old(self), event),
    {
        let mut actions: Vec<EncoderAction> = Vec::new();
        match (*self, event) {
            (EncoderPhase::Starting, EncoderEvent::Playing) => {
                *self = EncoderPhase::Feeding;
                actions.push(EncoderAction::StartSink);
            },
            (EncoderPhase::Starting, EncoderEvent::PlayRefused) => {
                *self = EncoderPhase::Failed;
            },
            (EncoderPhase::Feeding, EncoderEvent::AllocationFailed) => {
                *self = EncoderPhase::Failed;
            },
            (EncoderPhase::Feeding, EncoderEvent::InputClosed) => {
                *self = EncoderPhase::Flushing;
                actions.push(EncoderAction::EndStream);
                actions.push(EncoderAction::AwaitSink);
            },
            (EncoderPhase::Flushing, EncoderEvent::SinkEnded) => {
                *self = EncoderPhase::Stopped;
                actions.push(EncoderAction::ShutDown);
            },
            _ => {},
        }
        assert(actions@ =~= encoder_after(*old(self), event).1);
        actions
    }
}

/// The phase after these events, and everything done on the way.
pub open spec fn encoder_run(events: Seq<EncoderEvent>) -> (EncoderPhase, Seq<EncoderAction>)
    decreases events.len(),
{
    if events.len() == 0 {
        (EncoderPhase::Starting, Seq::empty())
    } else {
        let before = encoder_run(events.drop_last());
        let after = encoder_after(before.0, events.last());
        (after.0, before.1 + after.1)
    }
}

/// A run plays or is refused; once it is fed, no buffer that the pipeline takes
/// or refuses ends it, only the end of the input or a buffer that cannot be had;
/// the input's end flushes it, and the end of the output stops it.
pub proof fn encoder_goes_on_until_its_input_ends(event: EncoderEvent)
    ensures
        encoder_after(EncoderPhase::Starting, event) == (match event {
            EncoderEvent::Playing => (EncoderPhase::Feeding, seq![EncoderAction::StartSink]),
            EncoderEvent::PlayRefused => (EncoderPhase::Failed, Seq::empty()),
            _ => (EncoderPhase::Starting, Seq::empty()),
        }),
        encoder_after(EncoderPhase::Feeding, event).0 is Feeding <==> !(
        event is InputClosed) && !(event is AllocationFailed),
        encoder_after(EncoderPhase::Feeding, event).0 is Flushing <==> event is InputClosed,
        encoder_after(EncoderPhase::Feeding, event).0 is Failed <==> event is AllocationFailed,
        encoder_after(EncoderPhase::Feeding, event).1 == (if event is InputClosed {
            seq![EncoderAction::EndStream, EncoderAction::AwaitSink]
        } else {
            Seq::empty()
        }),
        encoder_after(EncoderPhase::Flushing, event) == (if event is SinkEnded {
            (EncoderPhase::Stopped, seq![EncoderAction::ShutDown])
        } else {
            (EncoderPhase::Flushing, Seq::empty())
        }),
{
}

/// A run that has stopped or broken off stays so, and nothing more is done.
pub proof fn ended_encoder_rests(phase: EncoderPhase, event: EncoderEvent)
    requires
        phase is Stopped || phase is Failed,
    ensures
        encoder_after(phase, event) == (phase, Seq::<EncoderAction>::empty()),
{
}

/// Whatever happens, the encoder is wound down in order: the stream is ended
/// and the output side awaited before the pipeline is shut down, each once.
pub proof fn encoder_winds_down_in_order(events: Seq<EncoderEvent>)
    ensures
        ({
            let (phase, done) = encoder_run(events);
            let flushed = seq![
                EncoderAction::StartSink,
                EncoderAction::EndStream,
                EncoderAction::AwaitSink,
            ];
            match phase {
                EncoderPhase::Starting => done.len() == 0,
                EncoderPhase::Feeding => done == seq![EncoderAction::StartSink],
                EncoderPhase::Flushing => done == flushed,
                EncoderPhase::Stopped => done == flushed.push(EncoderAction::ShutDown),
                EncoderPhase::Failed => done.len() == 0 || done == seq![EncoderAction::StartSink],
            }
        }),
    decreases events.len(),
{
    if events.len() > 0 {
        encoder_winds_down_in_order(events.drop_last());
        let (before, done) = encoder_run(events.drop_last());
        let (phase, more) = encoder_after(before, events.last());
        let flushed = seq![
            EncoderAction::StartSink,
            EncoderAction::EndStream,
            EncoderAction::AwaitSink,
        ];
        if more.len() == 0 {
            assert(done + more =~= done);
        } else {
            assert(before is Starting ==> done + more =~= seq![EncoderAction::StartSink]);
            assert(before is Feeding ==> done + more =~= flushed);
            assert(before is Flushing ==> done + more =~= flushed.push(EncoderAction::ShutDown));
        }
    }
}

/// The durations of frames with these presentation times.
pub open spec fn durations(times: Seq<u64>, interval: u64) -> Seq<u64> {
    Seq::new(
        times.len(),
        |i: int|
            shown_for(
                if i == 0 {
                    None
                } else {
                    Some(times[i - 1])
                },
                times[i],
                interval,
            ),
    )
}

/// The sum of a sequence.
pub open spec fn sum(values: Seq<u64>) -> int
    decreases values.len(),
{
    if values.len() == 0 {
        0
    } else {
        sum(values.drop_last()) + values.last()
    }
}

/// At any frame rate from one frame per second to one per nanosecond, no frame
/// has a zero duration, whatever the presentation times.
pub proof fn durations_are_positive(times: Seq<u64>, fps: u32)
    requires
        0 < fps <= 1_000_000_000,
    ensures
        forall|i: int|
            0 <= i < times.len() ==> #[trigger] durations(times, frame_interval(fps))[i] > 0,
{
    assert(1_000_000_000u64 / (fps as u64) >= 1) by (nonlinear_arith)
        requires
            0 < fps <= 1_000_000_000,
    ;
}

/// While time advances, the durations after the first frame add up to the time
/// from the first frame to the last: the stream neither drifts nor jumps.
pub proof fn durations_add_up(times: Seq<u64>, interval: u64)
    requires
        times.len() > 0,
        forall|i: int| 0 < i < times.len() ==> #[trigger] times[i - 1] < times[i],
    ensures
        sum(durations(times, interval).drop_first()) == times.last() - times[0],
        durations(times, interval)[0] == interval,
    decreases times.len(),
{
    let all = durations(times, interval);
    if times.len() == 1 {
        assert(all.drop_first().len() == 0);
    } else {
        let shorter = times.drop_last();
        assert forall|i: int| 0 < i < shorter.len() implies #[trigger] shorter[i - 1]
            < shorter[i] by {
            assert(times[i - 1] < times[i]);
        }
        durations_add_up(shorter, interval);
        assert(all.drop_first().drop_last() == durations(shorter, interval).drop_first());
        assert(times[times.len() - 1 - 1] < times[times.len() - 1]);
    }
}

/// The readable buffers among these pulls, in order: bytes and presentation
/// time.
pub open spec fn buffers(pulls: Seq<PulledView>) -> Seq<(Seq<u8>, u64)>
    decreases pulls.len(),
{
    if pulls.len() == 0 {
        Seq::empty()
    } else {
        let before = buffers(pulls.drop_last());
        match pulls.last() {
            PulledView::Buffer { data, pts } => before.push((data, pts_or_zero(pts))),
            _ => before,
        }
    }
}

/// The output side after these pulls: the presentation time of the frame before
/// and the frames broadcast.
pub open spec fn sink_run(pulls: Seq<PulledView>, interval: u64) -> (
    Option<u64>,
    Seq<(Seq<u8>, u64)>,
)
    decreases pulls.len(),
{
    if pulls.len() == 0 {
        (None, Seq::empty())
    } else {
        let before = sink_run(pulls.drop_last(), interval);
        sink_after(before.0, before.1, interval, pulls.last())
    }
}

/// The metric updates for these pulls.
pub open spec fn sink_updates(pulls: Seq<PulledView>) -> Seq<MetricUpdate>
    decreases pulls.len(),
{
    if pulls.len() == 0 {
        Seq::empty()
    } else {
        let before = sink_updates(pulls.drop_last());
        match sink_step(pulls.last()) {
            SinkStep::Published(update) => before.push(update),
            _ => before,
        }
    }
}

/// Every readable buffer that the encoder yields, and nothing else, is broadcast
/// as one frame, in order, with its bytes and with the duration that the
/// presentation times give it. The frame counter shows how many.
pub proof fn every_encoded_buffer_is_broadcast(pulls: Seq<PulledView>, interval: u64)
    ensures
        ({
            let yielded = buffers(pulls);
            let times = yielded.map_values(|b: (Seq<u8>, u64)| b.1);
            let sent = sink_run(pulls, interval).1;
            &&& sent.len() == yielded.len()
            &&& forall|i: int|
                0 <= i < sent.len() ==> #[trigger] sent[i] == (
                    yielded[i].0,
                    durations(times, interval)[i],
                )
            &&& metric_total(sink_updates(pulls), Metric::FramesEncoded) == yielded.len()
        }),
        sink_run(pulls, interval).0 == (if buffers(pulls).len() == 0 {
            None
        } else {
            Some(buffers(pulls).last().1)
        }),
    decreases pulls.len(),
{
    if pulls.len() > 0 {
        let shorter = pulls.drop_last();
        every_encoded_buffer_is_broadcast(shorter, interval);
        if let PulledView::Buffer { data, pts } = pulls.last() {
            let times = buffers(shorter).map_values(|b: (Seq<u8>, u64)| b.1);
            let longer = buffers(pulls).map_values(|b: (Seq<u8>, u64)| b.1);
            assert(longer == times.push(pts_or_zero(pts)));
            assert forall|i: int| 0 <= i < times.len() implies durations(longer, interval)[i]
                == #[trigger] durations(times, interval)[i] by {}
            assert(sink_updates(pulls).drop_last() == sink_updates(shorter));
        }
    }
}

/// The words of the text in front of the width.
proof fn lemma_source_words()
    ensures
        split("appsrc name=src format=time is-live=true ! video/x-raw,format=I420,width="@, ' ') == seq![
            "appsrc"@,
            "name=src"@,
            "format=time"@,
            "is-live=true"@,
            "!"@,
            "video/x-raw,format=I420,width="@,
        ],
{
    reveal_strlit("appsrc name=src format=time is-live=true ! video/x-raw,format=I420,width=");
    reveal_strlit("appsrc");
    reveal_strlit("name=src");
    reveal_strlit("format=time");
    reveal_strlit("is-live=true");
    reveal_strlit("!");
    reveal_strlit("video/x-raw,format=I420,width=");
    let rest4 = "!"@.push(' ') + "video/x-raw,format=I420,width="@;
    let rest3 = "is-live=true"@.push(' ') + rest4;
    let rest2 = "format=time"@.push(' ') + rest3;
    let rest1 = "name=src"@.push(' ') + rest2;
    split_nowhere_else("video/x-raw,format=I420,width="@, ' ');
    lemma_split_word("!"@, "video/x-raw,format=I420,width="@, ' ');
    lemma_split_word("is-live=true"@, rest4, ' ');
    lemma_split_word("format=time"@, rest3, ' ');
    lemma_split_word("name=src"@, rest2, ' ');
    lemma_split_word("appsrc"@, rest1, ' ');
    assert("appsrc name=src format=time is-live=true ! video/x-raw,format=I420,width="@ =~= "appsrc"@.push(' ') + rest1);
    assert(split("appsrc name=src format=time is-live=true ! video/x-raw,format=I420,width="@, ' ') =~= seq![
        "appsrc"@,
        "name=src"@,
        "format=time"@,
        "is-live=true"@,
        "!"@,
        "video/x-raw,format=I420,width="@,
    ]);
}

/// The words of the text in front of the height.
proof fn lemma_height_words()
    ensures
        split(",height="@, ' ') == seq![
            ",height="@,
        ],
{
    reveal_strlit(",height=");
    split_nowhere_else(",height="@, ' ');
    assert(split(",height="@, ' ') =~= seq![
        ",height="@,
    ]);
}

/// The words of the text in front of the frame rate.
proof fn lemma_rate_words()
    ensures
        split(",framerate="@, ' ') == seq![
            ",framerate="@,
        ],
{
    reveal_strlit(",framerate=");
    split_nowhere_else(",framerate="@, ' ');
    assert(split(",framerate="@, ' ') =~= seq![
        ",framerate="@,
    ]);
}

/// The words of the text in front of the bitrate.
proof fn lemma_bitrate_words()
    ensures
        split("/1 ! x264enc tune=zerolatency bitrate="@, ' ') == seq![
            "/1"@,
            "!"@,
            "x264enc"@,
            "tune=zerolatency"@,
            "bitrate="@,
        ],
{
    reveal_strlit("/1 ! x264enc tune=zerolatency bitrate=");
    reveal_strlit("/1");
    reveal_strlit("!");
    reveal_strlit("x264enc");
    reveal_strlit("tune=zerolatency");
    reveal_strlit("bitrate=");
    let rest3 = "tune=zerolatency"@.push(' ') + "bitrate="@;
    let rest2 = "x264enc"@.push(' ') + rest3;
    let rest1 = "!"@.push(' ') + rest2;
    split_nowhere_else("bitrate="@, ' ');
    lemma_split_word("tune=zerolatency"@, "bitrate="@, ' ');
    lemma_split_word("x264enc"@, rest3, ' ');
    lemma_split_word("!"@, rest2, ' ');
    lemma_split_word("/1"@, rest1, ' ');
    assert("/1 ! x264enc tune=zerolatency bitrate="@ =~= "/1"@.push(' ') + rest1);
    assert(split("/1 ! x264enc tune=zerolatency bitrate="@, ' ') =~= seq![
        "/1"@,
        "!"@,
        "x264enc"@,
        "tune=zerolatency"@,
        "bitrate="@,
    ]);
}

/// The words of the text in front of the threads.
proof fn lemma_threads_words()
    ensures
        split(" key-int-max=60 threads="@, ' ') == seq![
            Seq::<char>::empty(),
            "key-int-max=60"@,
            "threads="@,
        ],
{
    reveal_strlit(" key-int-max=60 threads=");
    reveal_strlit("key-int-max=60");
    reveal_strlit("threads=");
    let rest1 = "key-int-max=60"@.push(' ') + "threads="@;
    split_nowhere_else("threads="@, ' ');
    lemma_split_word("key-int-max=60"@, "threads="@, ' ');
    lemma_split_word(Seq::<char>::empty(), rest1, ' ');
    assert(" key-int-max=60 threads="@ =~= Seq::<char>::empty().push(' ') + rest1);
    assert(split(" key-int-max=60 threads="@, ' ') =~= seq![
        Seq::<char>::empty(),
        "key-int-max=60"@,
        "threads="@,
    ]);
}

/// The words of the text behind the threads.
proof fn lemma_tail_words()
    ensures
        split(" ! video/x-h264,profile=baseline,stream-format=byte-stream ! appsink name=enc_sink emit-signals=true max-buffers=4 drop=true sync=false"@, ' ') == seq![
            Seq::<char>::empty(),
            "!"@,
            "video/x-h264,profile=baseline,stream-format=byte-stream"@,
            "!"@,
            "appsink"@,
            "name=enc_sink"@,
            "emit-signals=true"@,
            "max-buffers=4"@,
            "drop=true"@,
            "sync=false"@,
        ],
{
    reveal_strlit(" ! video/x-h264,profile=baseline,stream-format=byte-stream ! appsink name=enc_sink emit-signals=true max-buffers=4 drop=true sync=false");
    reveal_strlit("!");
    reveal_strlit("video/x-h264,profile=baseline,stream-format=byte-stream");
    reveal_strlit("appsink");
    reveal_strlit("name=enc_sink");
    reveal_strlit("emit-signals=true");
    reveal_strlit("max-buffers=4");
    reveal_strlit("drop=true");
    reveal_strlit("sync=false");
    let rest8 = "drop=true"@.push(' ') + "sync=false"@;
    let rest7 = "max-buffers=4"@.push(' ') + rest8;
    let rest6 = "emit-signals=true"@.push(' ') + rest7;
    let rest5 = "name=enc_sink"@.push(' ') + rest6;
    let rest4 = "appsink"@.push(' ') + rest5;
    let rest3 = "!"@.push(' ') + rest4;
    let rest2 = "video/x-h264,profile=baseline,stream-format=byte-stream"@.push(' ') + rest3;
    let rest1 = "!"@.push(' ') + rest2;
    split_nowhere_else("sync=false"@, ' ');
    lemma_split_word("drop=true"@, "sync=false"@, ' ');
    lemma_split_word("max-buffers=4"@, rest8, ' ');
    lemma_split_word("emit-signals=true"@, rest7, ' ');
    lemma_split_word("name=enc_sink"@, rest6, ' ');
    lemma_split_word("appsink"@, rest5, ' ');
    lemma_split_word("!"@, rest4, ' ');
    lemma_split_word("video/x-h264,profile=baseline,stream-format=byte-stream"@, rest3, ' ');
    lemma_split_word("!"@, rest2, ' ');
    lemma_split_word(Seq::<char>::empty(), rest1, ' ');
    assert(" ! video/x-h264,profile=baseline,stream-format=byte-stream ! appsink name=enc_sink emit-signals=true max-buffers=4 drop=true sync=false"@ =~= Seq::<char>::empty().push(' ') + rest1);
    assert(split(" ! video/x-h264,profile=baseline,stream-format=byte-stream ! appsink name=enc_sink emit-signals=true max-buffers=4 drop=true sync=false"@, ' ') =~= seq![
        Seq::<char>::empty(),
        "!"@,
        "video/x-h264,profile=baseline,stream-format=byte-stream"@,
        "!"@,
        "appsink"@,
        "name=enc_sink"@,
        "emit-signals=true"@,
        "max-buffers=4"@,
        "drop=true"@,
        "sync=false"@,
    ]);
}

/// The encoder pipeline's text, word by word: the size and the frame rate of the
/// input, the bitrate and the threads stand where GStreamer reads them, and every
/// element and property around them is fixed.
pub proof fn encoder_pipeline_words(bitrate: u32, threads: u32, width: u32, height: u32, fps: u32)
    ensures
        split(encoder_description(bitrate, threads, width, height, fps), ' ') == seq![
            "appsrc"@,
            "name=src"@,
            "format=time"@,
            "is-live=true"@,
            "!"@,
            "video/x-raw,format=I420,width="@ + decimal(width as nat) + ",height="@ + decimal(height as nat) + ",framerate="@ + decimal(fps as nat) + "/1"@,
            "!"@,
            "x264enc"@,
            "tune=zerolatency"@,
            "bitrate="@ + decimal(bitrate as nat),
            "key-int-max=60"@,
            "threads="@ + decimal(threads as nat),
            "!"@,
            "video/x-h264,profile=baseline,stream-format=byte-stream"@,
            "!"@,
            "appsink"@,
            "name=enc_sink"@,
            "emit-signals=true"@,
            "max-buffers=4"@,
            "drop=true"@,
            "sync=false"@,
        ],
{
    lemma_source_words();
    lemma_decimal_lacks(width as nat, ' ');
    split_nowhere_else(decimal(width as nat), ' ');
    let t0 = "appsrc name=src format=time is-live=true ! video/x-raw,format=I420,width="@;
    split_of_two_texts(t0, decimal(width as nat), ' ');
    let t1 = t0 + decimal(width as nat);
    assert(split(t1, ' ') =~= seq![
        "appsrc"@,
        "name=src"@,
        "format=time"@,
        "is-live=true"@,
        "!"@,
        "video/x-raw,format=I420,width="@ + decimal(width as nat),
    ]);
    lemma_height_words();
    split_of_two_texts(t1, ",height="@, ' ');
    let t2 = t1 + ",height="@;
    assert(split(t2, ' ') =~= seq![
        "appsrc"@,
        "name=src"@,
        "format=time"@,
        "is-live=true"@,
        "!"@,
        "video/x-raw,format=I420,width="@ + decimal(width as nat) + ",height="@,
    ]);
    lemma_decimal_lacks(height as nat, ' ');
    split_nowhere_else(decimal(height as nat), ' ');
    split_of_two_texts(t2, decimal(height as nat), ' ');
    let t3 = t2 + decimal(height as nat);
    assert(split(t3, ' ') =~= seq![
        "appsrc"@,
        "name=src"@,
        "format=time"@,
        "is-live=true"@,
        "!"@,
        "video/x-raw,format=I420,width="@ + decimal(width as nat) + ",height="@ + decimal(height as nat),
    ]);
    lemma_rate_words();
    split_of_two_texts(t3, ",framerate="@, ' ');
    let t4 = t3 + ",framerate="@;
    assert(split(t4, ' ') =~= seq![
        "appsrc"@,
        "name=src"@,
        "format=time"@,
        "is-live=true"@,
        "!"@,
        "video/x-raw,format=I420,width="@ + decimal(width as nat) + ",height="@ + decimal(height as nat) + ",framerate="@,
    ]);
    lemma_decimal_lacks(fps as nat, ' ');
    split_nowhere_else(decimal(fps as nat), ' ');
    split_of_two_texts(t4, decimal(fps as nat), ' ');
    let t5 = t4 + decimal(fps as nat);
    assert(split(t5, ' ') =~= seq![
        "appsrc"@,
        "name=src"@,
        "format=time"@,
        "is-live=true"@,
        "!"@,
        "video/x-raw,format=I420,width="@ + decimal(width as nat) + ",height="@ + decimal(height as nat) + ",framerate="@ + decimal(fps as nat),
    ]);
    lemma_bitrate_words();
    split_of_two_texts(t5, "/1 ! x264enc tune=zerolatency bitrate="@, ' ');
    let t6 = t5 + "/1 ! x264enc tune=zerolatency bitrate="@;
    assert(split(t6, ' ') =~= seq![
        "appsrc"@,
        "name=src"@,
        "format=time"@,
        "is-live=true"@,
        "!"@,
        "video/x-raw,format=I420,width="@ + decimal(width as nat) + ",height="@ + decimal(height as nat) + ",framerate="@ + decimal(fps as nat) + "/1"@,
        "!"@,
        "x264enc"@,
        "tune=zerolatency"@,
        "bitrate="@,
    ]);
    lemma_decimal_lacks(bitrate as nat, ' ');
    split_nowhere_else(decimal(bitrate as nat), ' ');
    split_of_two_texts(t6, decimal(bitrate as nat), ' ');
    let t7 = t6 + decimal(bitrate as nat);
    assert(split(t7, ' ') =~= seq![
        "appsrc"@,
        "name=src"@,
        "format=time"@,
        "is-live=true"@,
        "!"@,
        "video/x-raw,format=I420,width="@ + decimal(width as nat) + ",height="@ + decimal(height as nat) + ",framerate="@ + decimal(fps as nat) + "/1"@,
        "!"@,
        "x264enc"@,
        "tune=zerolatency"@,
        "bitrate="@ + decimal(bitrate as nat),
    ]);
    lemma_threads_words();
    split_of_two_texts(t7, " key-int-max=60 threads="@, ' ');
    let t8 = t7 + " key-int-max=60 threads="@;
    assert(("bitrate="@ + decimal(bitrate as nat)) + Seq::<char>::empty() =~= "bitrate="@ + decimal(bitrate as nat));
    assert(split(t8, ' ') =~= seq![
        "appsrc"@,
        "name=src"@,
        "format=time"@,
        "is-live=true"@,
        "!"@,
        "video/x-raw,format=I420,width="@ + decimal(width as nat) + ",height="@ + decimal(height as nat) + ",framerate="@ + decimal(fps as nat) + "/1"@,
        "!"@,
        "x264enc"@,
        "tune=zerolatency"@,
        "bitrate="@ + decimal(bitrate as nat),
        "key-int-max=60"@,
        "threads="@,
    ]);
    lemma_decimal_lacks(threads as nat, ' ');
    split_nowhere_else(decimal(threads as nat), ' ');
    split_of_two_texts(t8, decimal(threads as nat), ' ');
    let t9 = t8 + decimal(threads as nat);
    assert(split(t9, ' ') =~= seq![
        "appsrc"@,
        "name=src"@,
        "format=time"@,
        "is-live=true"@,
        "!"@,
        "video/x-raw,format=I420,width="@ + decimal(width as nat) + ",height="@ + decimal(height as nat) + ",framerate="@ + decimal(fps as nat) + "/1"@,
        "!"@,
        "x264enc"@,
        "tune=zerolatency"@,
        "bitrate="@ + decimal(bitrate as nat),
        "key-int-max=60"@,
        "threads="@ + decimal(threads as nat),
    ]);
    lemma_tail_words();
    split_of_two_texts(t9, " ! video/x-h264,profile=baseline,stream-format=byte-stream ! appsink name=enc_sink emit-signals=true max-buffers=4 drop=true sync=false"@, ' ');
    let t10 = t9 + " ! video/x-h264,profile=baseline,stream-format=byte-stream ! appsink name=enc_sink emit-signals=true max-buffers=4 drop=true sync=false"@;
    assert(("threads="@ + decimal(threads as nat)) + Seq::<char>::empty() =~= "threads="@ + decimal(threads as nat));
    assert(split(t10, ' ') =~= seq![
        "appsrc"@,
        "name=src"@,
        "format=time"@,
        "is-live=true"@,
        "!"@,
        "video/x-raw,format=I420,width="@ + decimal(width as nat) + ",height="@ + decimal(height as nat) + ",framerate="@ + decimal(fps as nat) + "/1"@,
        "!"@,
        "x264enc"@,
        "tune=zerolatency"@,
        "bitrate="@ + decimal(bitrate as nat),
        "key-int-max=60"@,
        "threads="@ + decimal(threads as nat),
        "!"@,
        "video/x-h264,profile=baseline,stream-format=byte-stream"@,
        "!"@,
        "appsink"@,
        "name=enc_sink"@,
        "emit-signals=true"@,
        "max-buffers=4"@,
        "drop=true"@,
        "sync=false"@,
    ]);
}

/// The fields of the caps in front of the width.
proof fn lemma_caps_fields()
    ensures
        split("video/x-raw,format=I420,width="@, ',') == seq![
            "video/x-raw"@,
            "format=I420"@,
            "width="@,
        ],
{
    reveal_strlit("video/x-raw,format=I420,width=");
    reveal_strlit("video/x-raw");
    reveal_strlit("format=I420");
    reveal_strlit("width=");
    let rest1 = "format=I420"@.push(',') + "width="@;
    split_nowhere_else("width="@, ',');
    lemma_split_word("format=I420"@, "width="@, ',');
    lemma_split_word("video/x-raw"@, rest1, ',');
    assert("video/x-raw,format=I420,width="@ =~= "video/x-raw"@.push(',') + rest1);
    assert(split("video/x-raw,format=I420,width="@, ',') =~= seq![
        "video/x-raw"@,
        "format=I420"@,
        "width="@,
    ]);
}

/// The fields of the caps in front of the height.
proof fn lemma_height_fields()
    ensures
        split(",height="@, ',') == seq![
            Seq::<char>::empty(),
            "height="@,
        ],
{
    reveal_strlit(",height=");
    reveal_strlit("height=");
    split_nowhere_else("height="@, ',');
    lemma_split_word(Seq::<char>::empty(), "height="@, ',');
    assert(",height="@ =~= Seq::<char>::empty().push(',') + "height="@);
    assert(split(",height="@, ',') =~= seq![
        Seq::<char>::empty(),
        "height="@,
    ]);
}

/// The fields of the caps in front of the frame rate.
proof fn lemma_rate_fields()
    ensures
        split(",framerate="@, ',') == seq![
            Seq::<char>::empty(),
            "framerate="@,
        ],
{
    reveal_strlit(",framerate=");
    reveal_strlit("framerate=");
    split_nowhere_else("framerate="@, ',');
    lemma_split_word(Seq::<char>::empty(), "framerate="@, ',');
    assert(",framerate="@ =~= Seq::<char>::empty().push(',') + "framerate="@);
    assert(split(",framerate="@, ',') =~= seq![
        Seq::<char>::empty(),
        "framerate="@,
    ]);
}

/// The end of the caps.
proof fn lemma_per_second()
    ensures
        split("/1"@, ',') == seq![
            "/1"@,
        ],
{
    reveal_strlit("/1");
    split_nowhere_else("/1"@, ',');
    assert(split("/1"@, ',') =~= seq![
        "/1"@,
    ]);
}

/// What the encoder is told reads back from its text: the bitrate and the threads
/// from the properties of x264enc, the size and the frame rate from the fields of
/// the input's caps.
pub proof fn encoder_settings_read_back(
    bitrate: u32,
    threads: u32,
    width: u32,
    height: u32,
    fps: u32,
)
    ensures
        ({
            let words = split(encoder_description(bitrate, threads, width, height, fps), ' ');
            let caps = split(words[5], ',');
            &&& words[7] == "x264enc"@
            &&& words[9].take(8) == "bitrate="@
            &&& unsigned_value(words[9].skip(8), u32::MAX as nat) == Some(bitrate as nat)
            &&& words[11].take(8) == "threads="@
            &&& unsigned_value(words[11].skip(8), u32::MAX as nat) == Some(threads as nat)
            &&& caps.len() == 5
            &&& caps[0] == "video/x-raw"@
            &&& caps[1] == "format=I420"@
            &&& caps[2].take(6) == "width="@
            &&& unsigned_value(caps[2].skip(6), u32::MAX as nat) == Some(width as nat)
            &&& caps[3].take(7) == "height="@
            &&& unsigned_value(caps[3].skip(7), u32::MAX as nat) == Some(height as nat)
            &&& caps[4].take(10) == "framerate="@
            &&& caps[4].skip(caps[4].len() - 2) == "/1"@
            &&& unsigned_value(caps[4].subrange(10, caps[4].len() - 2), u32::MAX as nat) == Some(
                fps as nat,
            )
        }),
{
    encoder_pipeline_words(bitrate, threads, width, height, fps);
    lemma_caps_fields();
    lemma_decimal_lacks(width as nat, ',');
    split_nowhere_else(decimal(width as nat), ',');
    let t0 = "video/x-raw,format=I420,width="@;
    split_of_two_texts(t0, decimal(width as nat), ',');
    let t1 = t0 + decimal(width as nat);
    assert(split(t1, ',') =~= seq![
        "video/x-raw"@,
        "format=I420"@,
        "width="@ + decimal(width as nat),
    ]);
    lemma_height_fields();
    split_of_two_texts(t1, ",height="@, ',');
    let t2 = t1 + ",height="@;
    assert(("width="@ + decimal(width as nat)) + Seq::<char>::empty() =~= "width="@ + decimal(width as nat));
    assert(split(t2, ',') =~= seq![
        "video/x-raw"@,
        "format=I420"@,
        "width="@ + decimal(width as nat),
        "height="@,
    ]);
    lemma_decimal_lacks(height as nat, ',');
    split_nowhere_else(decimal(height as nat), ',');
    split_of_two_texts(t2, decimal(height as nat), ',');
    let t3 = t2 + decimal(height as nat);
    assert(split(t3, ',') =~= seq![
        "video/x-raw"@,
        "format=I420"@,
        "width="@ + decimal(width as nat),
        "height="@ + decimal(height as nat),
    ]);
    lemma_rate_fields();
    split_of_two_texts(t3, ",framerate="@, ',');
    let t4 = t3 + ",framerate="@;
    assert(("height="@ + decimal(height as nat)) + Seq::<char>::empty() =~= "height="@ + decimal(height as nat));
    assert(split(t4, ',') =~= seq![
        "video/x-raw"@,
        "format=I420"@,
        "width="@ + decimal(width as nat),
        "height="@ + decimal(height as nat),
        "framerate="@,
    ]);
    lemma_decimal_lacks(fps as nat, ',');
    split_nowhere_else(decimal(fps as nat), ',');
    split_of_two_texts(t4, decimal(fps as nat), ',');
    let t5 = t4 + decimal(fps as nat);
    assert(split(t5, ',') =~= seq![
        "video/x-raw"@,
        "format=I420"@,
        "width="@ + decimal(width as nat),
        "height="@ + decimal(height as nat),
        "framerate="@ + decimal(fps as nat),
    ]);
    lemma_per_second();
    split_of_two_texts(t5, "/1"@, ',');
    let t6 = t5 + "/1"@;
    assert(split(t6, ',') =~= seq![
        "video/x-raw"@,
        "format=I420"@,
        "width="@ + decimal(width as nat),
        "height="@ + decimal(height as nat),
        "framerate="@ + decimal(fps as nat) + "/1"@,
    ]);
    reveal_strlit("bitrate=");
    reveal_strlit("threads=");
    reveal_strlit("width=");
    reveal_strlit("height=");
    reveal_strlit("framerate=");
    reveal_strlit("/1");
    let max = u32::MAX as nat;
    decimal_reads_back(bitrate as nat, max);
    decimal_reads_back(threads as nat, max);
    decimal_reads_back(width as nat, max);
    decimal_reads_back(height as nat, max);
    decimal_reads_back(fps as nat, max);
    assert(("bitrate="@ + decimal(bitrate as nat)).take(8) =~= "bitrate="@);
    assert(("bitrate="@ + decimal(bitrate as nat)).skip(8) =~= decimal(bitrate as nat));
    assert(("threads="@ + decimal(threads as nat)).take(8) =~= "threads="@);
    assert(("threads="@ + decimal(threads as nat)).skip(8) =~= decimal(threads as nat));
    assert(("width="@ + decimal(width as nat)).take(6) =~= "width="@);
    assert(("width="@ + decimal(width as nat)).skip(6) =~= decimal(width as nat));
    assert(("height="@ + decimal(height as nat)).take(7) =~= "height="@);
    assert(("height="@ + decimal(height as nat)).skip(7) =~= decimal(height as nat));
    let rate = "framerate="@ + decimal(fps as nat) + "/1"@;
    assert(rate.take(10) =~= "framerate="@);
    assert(rate.skip(rate.len() - 2) =~= "/1"@);
    assert(rate.subrange(10, rate.len() - 2) =~= decimal(fps as nat));
}

/// Two bitrates, thread counts, sizes or frame rates never give the same text.
pub proof fn encoder_texts_tell_settings_apart(
    a: (u32, u32, u32, u32, u32),
    b: (u32, u32, u32, u32, u32),
)
    requires
        encoder_description(a.0, a.1, a.2, a.3, a.4) == encoder_description(
            b.0,
            b.1,
            b.2,
            b.3,
            b.4,
        ),
    ensures
        a == b,
{
    encoder_settings_read_back(a.0, a.1, a.2, a.3, a.4);
    encoder_settings_read_back(b.0, b.1, b.2, b.3, b.4);
}

} // verus!
