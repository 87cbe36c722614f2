//! The capture pipeline: camera -> I420 frames for the encoder.
use crossbeam_channel::Sender;
use vstd::prelude::*;
use vstd::string::StringExecFns;

use crate::channels::{offers, try_send, Offered};
use crate::metrics::{metric_total, record_encoder_drop, Change, Metric, MetricUpdate};
use crate::text::{
    append_decimal, decimal, decimal_reads_back, lemma_decimal_lacks, lemma_split_word, split,
    split_nowhere_else, split_of_two_texts, unsigned_value,
};
use crate::types::{bytes_held, RawFrame};

verus! {

/// The GStreamer description of the capture pipeline:
/// mfvideosrc (NV12) -> videoconvert -> I420 -> appsink.
pub open spec fn capture_description(device: u32, width: u32, height: u32, fps: u32) -> Seq<char> {
    "mfvideosrc device-index="@ + decimal(device as nat) + " ! video/x-raw,format=NV12,width="@
        + decimal(width as nat) + ",height="@ + decimal(height as nat) + ",framerate="@ + decimal(
        fps as nat,
    )
        + "/1 ! videoconvert ! video/x-raw,format=I420 ! appsink name=sink emit-signals=true max-buffers=2 drop=true sync=false"@
}

/// The GStreamer description of the capture pipeline.
pub fn pipeline_description(device: u32, width: u32, height: u32, fps: u32) -> (text: String)
    ensures
        text@ == capture_description(device, width, height, fps),
{
    let mut text = "mfvideosrc device-index=".to_owned();
    append_decimal(&mut text, device as u64);
    text.append(" ! video/x-raw,format=NV12,width=");
    append_decimal(&mut text, width as u64);
    text.append(",height=");
    append_decimal(&mut text, height as u64);
    text.append(",framerate=");
    append_decimal(&mut text, fps as u64);
    text.append(
        "/1 ! videoconvert ! video/x-raw,format=I420 ! appsink name=sink emit-signals=true max-buffers=2 drop=true sync=false",
    );
    text
}

/// What the appsink had when a sample was announced.
pub enum Pulled<'a> {
    /// No sample could be pulled.
    Ended,
    /// The sample has no buffer.
    NoBuffer,
    /// The buffer cannot be mapped for reading.
    Unreadable,
    /// The buffer's bytes and its presentation time in nanoseconds, if any.
    Buffer { data: &'a [u8], pts: Option<u64> },
}

/// What a [`Pulled`] holds.
pub enum PulledView {
    Ended,
    NoBuffer,
    Unreadable,
    Buffer { data: Seq<u8>, pts: Option<u64> },
}

impl<'a> View for Pulled<'a> {
    type V = PulledView;

    open spec fn view(&self) -> PulledView {
        match self {
            Pulled::Ended => PulledView::Ended,
            Pulled::NoBuffer => PulledView::NoBuffer,
            Pulled::Unreadable => PulledView::Unreadable,
            Pulled::Buffer { data, pts } => PulledView::Buffer { data: data@, pts: *pts },
        }
    }
}

/// What the appsink callback answers the pipeline.
#[derive(Clone, Copy, Debug, PartialEq, Eq, Structural)]
pub enum Flow {
    Continue,
    Eos,
    Error,
}

/// The outcome of one announced sample.
#[derive(Clone, Copy, Debug, PartialEq, Eq, Structural)]
pub struct SampleOutcome {
    pub flow: Flow,
    pub update: Option<MetricUpdate>,
}

/// The presentation time, zero where the buffer has none.
pub open spec fn pts_or_zero(pts: Option<u64>) -> u64 {
    match pts {
        Some(t) => t,
        None => 0,
    }
}

/// The outcome for a frame that was offered to the encoder: a frame that finds
/// the queue full is dropped and counted, and with no encoder left the stream
/// ends.
pub open spec fn outcome_of(offered: Offered) -> SampleOutcome {
    match offered {
        Offered::Accepted => SampleOutcome { flow: Flow::Continue, update: None },
        Offered::Full => SampleOutcome {
            flow: Flow::Continue,
            update: Some(
                MetricUpdate { metric: Metric::EncoderDrops, change: Change::CountBy(1) },
            ),
        },
        Offered::Disconnected => SampleOutcome { flow: Flow::Eos, update: None },
    }
}

/// The presentation time, zero where the buffer has none.
pub fn presentation_time(pts: Option<u64>) -> (t: u64)
    ensures
        t == pts_or_zero(pts),
        pts matches Some(given) ==> t == given,
        pts is None ==> t == 0,
{
    match pts {
        Some(t) => t,
        None => 0,
    }
}

/// The raw frame for a buffer.
pub fn raw_frame(data: &[u8], pts: Option<u64>) -> (frame: RawFrame)
    ensures
        bytes_held(frame.data) == data@,
        frame.pts == pts_or_zero(pts),
        pts matches Some(given) ==> frame.pts == given,
        pts is None ==> frame.pts == 0,
{
    RawFrame::copied(data, presentation_time(pts))
}

/// The outcome for a frame that was offered to the encoder.
pub fn offered_outcome(offered: Offered) -> (outcome: SampleOutcome)
    ensures
        outcome == outcome_of(offered),
        outcome.flow is Eos <==> offered is Disconnected,
        outcome.flow is Continue <==> !(offered is Disconnected),
        outcome.update == (if offered is Full {
            Some(MetricUpdate { metric: Metric::EncoderDrops, change: Change::CountBy(1) })
        } else {
            None
        }),
{
    match offered {
        Offered::Accepted => SampleOutcome { flow: Flow::Continue, update: None },
        Offered::Full => SampleOutcome {
            flow: Flow::Continue,
            update: Some(record_encoder_drop()),
        },
        Offered::Disconnected => SampleOutcome { flow: Flow::Eos, update: None },
    }
}

/// A frame with these bytes and this presentation time.
pub open spec fn is_frame_of(frame: RawFrame, data: Seq<u8>, pts: Option<u64>) -> bool {
    bytes_held(frame.data) == data && frame.pts == pts_or_zero(pts)
}

/// Handles one announced sample: a readable buffer is offered to the encoder,
/// once, without blocking the streaming thread, and what became of the offer
/// decides the outcome. Nothing else is offered.
pub fn on_sample(tx: &mut Sender<RawFrame>, pulled: Pulled) -> (outcome: SampleOutcome)
    ensures
        pulled is Ended ==> outcome == (SampleOutcome { flow: Flow::Eos, update: None }),
        pulled is NoBuffer || pulled is Unreadable ==> outcome == (SampleOutcome {
            flow: Flow::Error,
            update: None,
        }),
        !(pulled is Buffer) ==> *final(tx) == *old(tx),
        pulled matches Pulled::Buffer { data, pts } ==> {
            let made = offers(*final(tx));
            &&& made.len() > 0
            &&& made.drop_last() == offers(*old(tx))
            &&& is_frame_of(made.last().0, data@, pts)
            &&& outcome == outcome_of(made.last().1)
        },
        pulled matches Pulled::Buffer { data, pts } ==> {
            let (frame, offered) = offers(*final(tx)).last();
            &&& offers(*final(tx)) == offers(*old(tx)).push((frame, offered))
            &&& bytes_held(frame.data) == data@
            &&& pts matches Some(given) ==> frame.pts == given
            &&& pts is None ==> frame.pts == 0
            &&& outcome.flow is Eos <==> offered is Disconnected
            &&& outcome.flow is Continue <==> !(offered is Disconnected)
            &&& outcome.update == (if offered is Full {
                Some(MetricUpdate { metric: Metric::EncoderDrops, change: Change::CountBy(1) })
            } else {
                None
            })
        },
{
    match pulled {
        Pulled::Ended => SampleOutcome { flow: Flow::Eos, update: None },
        Pulled::NoBuffer => SampleOutcome { flow: Flow::Error, update: None },
        Pulled::Unreadable => SampleOutcome { flow: Flow::Error, update: None },
        Pulled::Buffer { data, pts } => {
            let offered = try_send(tx, raw_frame(data, pts));
            assert(offers(*tx).drop_last() == offers(*old(tx)));
            offered_outcome(offered)
        },
    }
}

/// The presentation time of a frame is its buffer's own, whatever it is; a
/// buffer without one is at zero.
pub proof fn frames_keep_their_buffers_time(t: u64)
    ensures
        pts_or_zero(Some(t)) == t,
        pts_or_zero(None) == 0,
{
}

/// Times that advance in the buffers advance by the same amount in the frames.
pub proof fn time_advances_as_in_the_buffers(earlier: u64, later: u64)
    ensures
        pts_or_zero(Some(later)) - pts_or_zero(Some(earlier)) == later - earlier,
{
}

/// A frame of a buffer has the buffer's bytes and time, and only such a frame
/// is one.
pub proof fn frames_are_their_buffers(frame: RawFrame, data: Seq<u8>, t: u64)
    ensures
        is_frame_of(frame, data, Some(t)) <==> bytes_held(frame.data) == data && frame.pts == t,
        is_frame_of(frame, data, None) <==> bytes_held(frame.data) == data && frame.pts == 0,
{
}

/// A frame that the encoder takes goes on without a word; one that finds it
/// behind is dropped and counted, once, and the camera goes on; with no encoder
/// left the stream ends and nothing is counted.
pub proof fn only_a_lost_encoder_ends_the_stream(offered: Offered)
    ensures
        outcome_of(offered).flow == (if offered is Disconnected {
            Flow::Eos
        } else {
            Flow::Continue
        }),
        outcome_of(offered).update is Some <==> offered is Full,
        outcome_of(offered).update matches Some(update) ==> update.metric == Metric::EncoderDrops
            && update.change == Change::CountBy(1),
{
}

/// The metric updates for frames that met with these outcomes.
pub open spec fn offer_updates(outcomes: Seq<Offered>) -> Seq<MetricUpdate>
    decreases outcomes.len(),
{
    if outcomes.len() == 0 {
        Seq::empty()
    } else {
        let before = offer_updates(outcomes.drop_last());
        match outcome_of(outcomes.last()).update {
            Some(update) => before.push(update),
            None => before,
        }
    }
}

/// The frames that found the channel full.
pub open spec fn frames_dropped(outcomes: Seq<Offered>) -> nat
    decreases outcomes.len(),
{
    if outcomes.len() == 0 {
        0
    } else {
        frames_dropped(outcomes.drop_last()) + (if outcomes.last() is Full {
            1nat
        } else {
            0nat
        })
    }
}

/// Each frame that finds the channel full is one more frame dropped, and no
/// other frame is.
pub proof fn only_full_channels_drop_frames(outcomes: Seq<Offered>, next: Offered)
    ensures
        frames_dropped(Seq::empty()) == 0,
        frames_dropped(outcomes.push(next)) == frames_dropped(outcomes) + (if next is Full {
            1nat
        } else {
            0nat
        }),
{
    assert(outcomes.push(next).drop_last() =~= outcomes);
}

/// The drop counter shows exactly the frames that found the channel full.
pub proof fn every_dropped_frame_is_counted(outcomes: Seq<Offered>)
    ensures
        metric_total(offer_updates(outcomes), Metric::EncoderDrops) == frames_dropped(outcomes),
    decreases outcomes.len(),
{
    if outcomes.len() > 0 {
        every_dropped_frame_is_counted(outcomes.drop_last());
        let before = offer_updates(outcomes.drop_last());
        if let Some(update) = outcome_of(outcomes.last()).update {
            assert(before.push(update).drop_last() == before);
        }
    }
}

/// A message on the pipeline's bus.
#[derive(Clone, Copy, Debug, PartialEq, Eq, Structural)]
pub enum BusMessage {
    Eos,
    Error,
    Warning,
    StateChanged,
    Other,
}

/// Where a run of the capture pipeline stands.
#[derive(Clone, Copy, Debug, PartialEq, Eq, Structural)]
pub enum CapturePhase {
    /// The pipeline has been asked to play.
    Starting,
    /// The bus is being watched.
    Watching,
    /// The run is over and the pipeline is shut down.
    Stopped,
    /// The pipeline did not start.
    Failed,
}

/// What happens to a run.
#[derive(Clone, Copy, Debug, PartialEq, Eq, Structural)]
pub enum CaptureEvent {
    Playing,
    PlayRefused,
    Bus(BusMessage),
}

/// What the capture thread is to do.
#[derive(Clone, Copy, Debug, PartialEq, Eq, Structural)]
pub enum CaptureAction {
    /// Report the errors that the bus holds.
    ReportErrors,
    /// Set the pipeline to its null state.
    ShutDown,
}

/// The phase after an event, and what is to be done: the run starts or fails,
/// and ends at the first end-of-stream or error on the bus. Nothing else ends
/// it.
pub open spec fn capture_after(phase: CapturePhase, event: CaptureEvent) -> (
    CapturePhase,
    Seq<CaptureAction>,
) {
    match (phase, event) {
        (CapturePhase::Starting, CaptureEvent::Playing) => (CapturePhase::Watching, Seq::empty()),
        (CapturePhase::Starting, CaptureEvent::PlayRefused) => (
            CapturePhase::Failed,
            seq![CaptureAction::ReportErrors],
        ),
        (CapturePhase::Watching, CaptureEvent::Bus(BusMessage::Eos)) => (
            CapturePhase::Stopped,
            seq![CaptureAction::ShutDown],
        ),
        (CapturePhase::Watching, CaptureEvent::Bus(BusMessage::Error)) => (
            CapturePhase::Stopped,
            seq![CaptureAction::ShutDown],
        ),
        _ => (phase, Seq::empty()),
    }
}

impl CapturePhase {
    /// Takes an event in; returns what is to be done, in order.
    pub fn step(&mut self, event: CaptureEvent) -> (actions: Vec<CaptureAction>)
        ensures
            (*final(self), actions@) == capture_after(*old(self), event),
    {
        let mut actions: Vec<CaptureAction> = Vec::new();
        match (*self, event) {
            (CapturePhase::Starting, CaptureEvent::Playing) => {
                *self = CapturePhase::Watching;
            },
            (CapturePhase::Starting, CaptureEvent::PlayRefused) => {
                *self = CapturePhase::Failed;
                actions.push(CaptureAction::ReportErrors);
            },
            (CapturePhase::Watching, CaptureEvent::Bus(BusMessage::Eos)) => {
                *self = CapturePhase::Stopped;
                actions.push(CaptureAction::ShutDown);
            },
            (CapturePhase::Watching, CaptureEvent::Bus(BusMessage::Error)) => {
                *self = CapturePhase::Stopped;
                actions.push(CaptureAction::ShutDown);
            },
            _ => {},
        }
        assert(actions@ =~= capture_after(*old(self), event).1);
        actions
    }
}

/// The phase that a run has reached after these events.
pub open spec fn capture_run(events: Seq<CaptureEvent>) -> CapturePhase
    decreases events.len(),
{
    if events.len() == 0 {
        CapturePhase::Starting
    } else {
        capture_after(capture_run(events.drop_last()), events.last()).0
    }
}

/// A run that is asked to play is watched once it plays; where it is refused, it
/// fails and its errors are reported. Nothing that the bus says before that
/// counts.
pub proof fn capture_plays_or_fails(message: BusMessage)
    ensures
        capture_after(CapturePhase::Starting, CaptureEvent::Playing) == (
            CapturePhase::Watching,
            Seq::<CaptureAction>::empty(),
        ),
        capture_after(CapturePhase::Starting, CaptureEvent::PlayRefused) == (
            CapturePhase::Failed,
            seq![CaptureAction::ReportErrors],
        ),
        capture_after(CapturePhase::Starting, CaptureEvent::Bus(message)) == (
            CapturePhase::Starting,
            Seq::<CaptureAction>::empty(),
        ),
{
}

/// A watched run stops, and its pipeline is shut down, at an end-of-stream or an
/// error on the bus, and at nothing else.
pub proof fn capture_stops_at_eos_or_error(event: CaptureEvent)
    ensures
        ({
            let ends = event == CaptureEvent::Bus(BusMessage::Eos) || event == CaptureEvent::Bus(
                BusMessage::Error,
            );
            let (phase, actions) = capture_after(CapturePhase::Watching, event);
            &&& phase == if ends {
                CapturePhase::Stopped
            } else {
                CapturePhase::Watching
            }
            &&& actions == if ends {
                seq![CaptureAction::ShutDown]
            } else {
                Seq::empty()
            }
        }),
{
}

/// A run that has stopped or failed stays so, and nothing more is done.
pub proof fn ended_capture_rests(phase: CapturePhase, event: CaptureEvent)
    requires
        phase is Stopped || phase is Failed,
    ensures
        capture_after(phase, event) == (phase, Seq::<CaptureAction>::empty()),
{
}

/// A run that plays goes on through any bus messages that are neither
/// end-of-stream nor error.
pub proof fn capture_survives_warnings(events: Seq<CaptureEvent>)
    requires
        events.len() > 0,
        events[0] == CaptureEvent::Playing,
        forall|i: int|
            0 < i < events.len() ==> (#[trigger] events[i]) != CaptureEvent::Bus(BusMessage::Eos)
                && events[i] != CaptureEvent::Bus(BusMessage::Error),
    ensures
        capture_run(events) == CapturePhase::Watching,
    decreases events.len(),
{
    if events.len() > 1 {
        capture_survives_warnings(events.drop_last());
    } else {
        assert(capture_run(events.drop_last()) == CapturePhase::Starting);
    }
}

/// The words of the text in front of the device.
proof fn lemma_source_words()
    ensures
        split("mfvideosrc device-index="@, ' ') == seq![
            "mfvideosrc"@,
            "device-index="@,
        ],
{
    reveal_strlit("mfvideosrc device-index=");
    reveal_strlit("mfvideosrc");
    reveal_strlit("device-index=");
    split_nowhere_else("device-index="@, ' ');
    lemma_split_word("mfvideosrc"@, "device-index="@, ' ');
    assert("mfvideosrc device-index="@ =~= "mfvideosrc"@.push(' ') + "device-index="@);
    assert(split("mfvideosrc device-index="@, ' ') =~= seq![
        "mfvideosrc"@,
        "device-index="@,
    ]);
}

/// The words of the text in front of the width.
proof fn lemma_size_words()
    ensures
        split(" ! video/x-raw,format=NV12,width="@, ' ') == seq![
            Seq::<char>::empty(),
            "!"@,
            "video/x-raw,format=NV12,width="@,
        ],
{
    reveal_strlit(" ! video/x-raw,format=NV12,width=");
    reveal_strlit("!");
    reveal_strlit("video/x-raw,format=NV12,width=");
    let rest1 = "!"@.push(' ') + "video/x-raw,format=NV12,width="@;
    split_nowhere_else("video/x-raw,format=NV12,width="@, ' ');
    lemma_split_word("!"@, "video/x-raw,format=NV12,width="@, ' ');
    lemma_split_word(Seq::<char>::empty(), rest1, ' ');
    assert(" ! video/x-raw,format=NV12,width="@ =~= Seq::<char>::empty().push(' ') + rest1);
    assert(split(" ! video/x-raw,format=NV12,width="@, ' ') =~= seq![
        Seq::<char>::empty(),
        "!"@,
        "video/x-raw,format=NV12,width="@,
    ]);
}

/// The words of the text in front of the height.
proof fn lemma_height_words()
    ensures
        split(",height="@, ' ') == seq![
            ",height="@,
        ],
{
    reveal_strlit(",height=");
    split_nowhere_else(",height="@, ' ');
    assert(split(",height="@, ' ') =~= seq![
        ",height="@,
    ]);
}

/// The words of the text in front of the frame rate.
proof fn lemma_rate_words()
    ensures
        split(",framerate="@, ' ') == seq![
            ",framerate="@,
        ],
{
    reveal_strlit(",framerate=");
    split_nowhere_else(",framerate="@, ' ');
    assert(split(",framerate="@, ' ') =~= seq![
        ",framerate="@,
    ]);
}

/// The words of the text behind the frame rate.
proof fn lemma_tail_words()
    ensures
        split("/1 ! videoconvert ! video/x-raw,format=I420 ! appsink name=sink emit-signals=true max-buffers=2 drop=true sync=false"@, ' ') == seq![
            "/1"@,
            "!"@,
            "videoconvert"@,
            "!"@,
            "video/x-raw,format=I420"@,
            "!"@,
            "appsink"@,
            "name=sink"@,
            "emit-signals=true"@,
            "max-buffers=2"@,
            "drop=true"@,
            "sync=false"@,
        ],
{
    reveal_strlit("/1 ! videoconvert ! video/x-raw,format=I420 ! appsink name=sink emit-signals=true max-buffers=2 drop=true sync=false");
    reveal_strlit("/1");
    reveal_strlit("!");
    reveal_strlit("videoconvert");
    reveal_strlit("video/x-raw,format=I420");
    reveal_strlit("appsink");
    reveal_strlit("name=sink");
    reveal_strlit("emit-signals=true");
    reveal_strlit("max-buffers=2");
    reveal_strlit("drop=true");
    reveal_strlit("sync=false");
    let rest10 = "drop=true"@.push(' ') + "sync=false"@;
    let rest9 = "max-buffers=2"@.push(' ') + rest10;
    let rest8 = "emit-signals=true"@.push(' ') + rest9;
    let rest7 = "name=sink"@.push(' ') + rest8;
    let rest6 = "appsink"@.push(' ') + rest7;
    let rest5 = "!"@.push(' ') + rest6;
    let rest4 = "video/x-raw,format=I420"@.push(' ') + rest5;
    let rest3 = "!"@.push(' ') + rest4;
    let rest2 = "videoconvert"@.push(' ') + rest3;
    let rest1 = "!"@.push(' ') + rest2;
    split_nowhere_else("sync=false"@, ' ');
    lemma_split_word("drop=true"@, "sync=false"@, ' ');
    lemma_split_word("max-buffers=2"@, rest10, ' ');
    lemma_split_word("emit-signals=true"@, rest9, ' ');
    lemma_split_word("name=sink"@, rest8, ' ');
    lemma_split_word("appsink"@, rest7, ' ');
    lemma_split_word("!"@, rest6, ' ');
    lemma_split_word("video/x-raw,format=I420"@, rest5, ' ');
    lemma_split_word("!"@, rest4, ' ');
    lemma_split_word("videoconvert"@, rest3, ' ');
    lemma_split_word("!"@, rest2, ' ');
    lemma_split_word("/1"@, rest1, ' ');
    assert("/1 ! videoconvert ! video/x-raw,format=I420 ! appsink name=sink emit-signals=true max-buffers=2 drop=true sync=false"@ =~= "/1"@.push(' ') + rest1);
    assert(split("/1 ! videoconvert ! video/x-raw,format=I420 ! appsink name=sink emit-signals=true max-buffers=2 drop=true sync=false"@, ' ') =~= seq![
        "/1"@,
        "!"@,
        "videoconvert"@,
        "!"@,
        "video/x-raw,format=I420"@,
        "!"@,
        "appsink"@,
        "name=sink"@,
        "emit-signals=true"@,
        "max-buffers=2"@,
        "drop=true"@,
        "sync=false"@,
    ]);
}

/// The capture pipeline's text, word by word: the device, the size and the frame
/// rate of the camera stand where GStreamer reads them, and every element and
/// property around them is fixed.
pub proof fn capture_pipeline_words(device: u32, width: u32, height: u32, fps: u32)
    ensures
        split(capture_description(device, width, height, fps), ' ') == seq![
            "mfvideosrc"@,
            "device-index="@ + decimal(device as nat),
            "!"@,
            "video/x-raw,format=NV12,width="@ + decimal(width as nat) + ",height="@ + decimal(height as nat) + ",framerate="@ + decimal(fps as nat) + "/1"@,
            "!"@,
            "videoconvert"@,
            "!"@,
            "video/x-raw,format=I420"@,
            "!"@,
            "appsink"@,
            "name=sink"@,
            "emit-signals=true"@,
            "max-buffers=2"@,
            "drop=true"@,
            "sync=false"@,
        ],
{
    lemma_source_words();
    lemma_decimal_lacks(device as nat, ' ');
    split_nowhere_else(decimal(device as nat), ' ');
    let t0 = "mfvideosrc device-index="@;
    split_of_two_texts(t0, decimal(device as nat), ' ');
    let t1 = t0 + decimal(device as nat);
    assert(split(t1, ' ') =~= seq![
        "mfvideosrc"@,
        "device-index="@ + decimal(device as nat),
    ]);
    lemma_size_words();
    split_of_two_texts(t1, " ! video/x-raw,format=NV12,width="@, ' ');
    let t2 = t1 + " ! video/x-raw,format=NV12,width="@;
    assert(("device-index="@ + decimal(device as nat)) + Seq::<char>::empty() =~= "device-index="@ + decimal(device as nat));
    assert(split(t2, ' ') =~= seq![
        "mfvideosrc"@,
        "device-index="@ + decimal(device as nat),
        "!"@,
        "video/x-raw,format=NV12,width="@,
    ]);
    lemma_decimal_lacks(width as nat, ' ');
    split_nowhere_else(decimal(width as nat), ' ');
    split_of_two_texts(t2, decimal(width as nat), ' ');
    let t3 = t2 + decimal(width as nat);
    assert(split(t3, ' ') =~= seq![
        "mfvideosrc"@,
        "device-index="@ + decimal(device as nat),
        "!"@,
        "video/x-raw,format=NV12,width="@ + decimal(width as nat),
    ]);
    lemma_height_words();
    split_of_two_texts(t3, ",height="@, ' ');
    let t4 = t3 + ",height="@;
    assert(split(t4, ' ') =~= seq![
        "mfvideosrc"@,
        "device-index="@ + decimal(device as nat),
        "!"@,
        "video/x-raw,format=NV12,width="@ + decimal(width as nat) + ",height="@,
    ]);
    lemma_decimal_lacks(height as nat, ' ');
    split_nowhere_else(decimal(height as nat), ' ');
    split_of_two_texts(t4, decimal(height as nat), ' ');
    let t5 = t4 + decimal(height as nat);
    assert(split(t5, ' ') =~= seq![
        "mfvideosrc"@,
        "device-index="@ + decimal(device as nat),
        "!"@,
        "video/x-raw,format=NV12,width="@ + decimal(width as nat) + ",height="@ + decimal(height as nat),
    ]);
    lemma_rate_words();
    split_of_two_texts(t5, ",framerate="@, ' ');
    let t6 = t5 + ",framerate="@;
    assert(split(t6, ' ') =~= seq![
        "mfvideosrc"@,
        "device-index="@ + decimal(device as nat),
        "!"@,
        "video/x-raw,format=NV12,width="@ + decimal(width as nat) + ",height="@ + decimal(height as nat) + ",framerate="@,
    ]);
    lemma_decimal_lacks(fps as nat, ' ');
    split_nowhere_else(decimal(fps as nat), ' ');
    split_of_two_texts(t6, decimal(fps as nat), ' ');
    let t7 = t6 + decimal(fps as nat);
    assert(split(t7, ' ') =~= seq![
        "mfvideosrc"@,
        "device-index="@ + decimal(device as nat),
        "!"@,
        "video/x-raw,format=NV12,width="@ + decimal(width as nat) + ",height="@ + decimal(height as nat) + ",framerate="@ + decimal(fps as nat),
    ]);
    lemma_tail_words();
    split_of_two_texts(t7, "/1 ! videoconvert ! video/x-raw,format=I420 ! appsink name=sink emit-signals=true max-buffers=2 drop=true sync=false"@, ' ');
    let t8 = t7 + "/1 ! videoconvert ! video/x-raw,format=I420 ! appsink name=sink emit-signals=true max-buffers=2 drop=true sync=false"@;
    assert(split(t8, ' ') =~= seq![
        "mfvideosrc"@,
        "device-index="@ + decimal(device as nat),
        "!"@,
        "video/x-raw,format=NV12,width="@ + decimal(width as nat) + ",height="@ + decimal(height as nat) + ",framerate="@ + decimal(fps as nat) + "/1"@,
        "!"@,
        "videoconvert"@,
        "!"@,
        "video/x-raw,format=I420"@,
        "!"@,
        "appsink"@,
        "name=sink"@,
        "emit-signals=true"@,
        "max-buffers=2"@,
        "drop=true"@,
        "sync=false"@,
    ]);
}

/// The fields of the caps in front of the width.
proof fn lemma_caps_fields()
    ensures
        split("video/x-raw,format=NV12,width="@, ',') == seq![
            "video/x-raw"@,
            "format=NV12"@,
            "width="@,
        ],
{
    reveal_strlit("video/x-raw,format=NV12,width=");
    reveal_strlit("video/x-raw");
    reveal_strlit("format=NV12");
    reveal_strlit("width=");
    let rest1 = "format=NV12"@.push(',') + "width="@;
    split_nowhere_else("width="@, ',');
    lemma_split_word("format=NV12"@, "width="@, ',');
    lemma_split_word("video/x-raw"@, rest1, ',');
    assert("video/x-raw,format=NV12,width="@ =~= "video/x-raw"@.push(',') + rest1);
    assert(split("video/x-raw,format=NV12,width="@, ',') =~= seq![
        "video/x-raw"@,
        "format=NV12"@,
        "width="@,
    ]);
}

/// The fields of the caps in front of the height.
proof fn lemma_height_fields()
    ensures
        split(",height="@, ',') == seq![
            Seq::<char>::empty(),
            "height="@,
        ],
{
    reveal_strlit(",height=");
    reveal_strlit("height=");
    split_nowhere_else("height="@, ',');
    lemma_split_word(Seq::<char>::empty(), "height="@, ',');
    assert(",height="@ =~= Seq::<char>::empty().push(',') + "height="@);
    assert(split(",height="@, ',') =~= seq![
        Seq::<char>::empty(),
        "height="@,
    ]);
}

/// The fields of the caps in front of the frame rate.
proof fn lemma_rate_fields()
    ensures
        split(",framerate="@, ',') == seq![
            Seq::<char>::empty(),
            "framerate="@,
        ],
{
    reveal_strlit(",framerate=");
    reveal_strlit("framerate=");
    split_nowhere_else("framerate="@, ',');
    lemma_split_word(Seq::<char>::empty(), "framerate="@, ',');
    assert(",framerate="@ =~= Seq::<char>::empty().push(',') + "framerate="@);
    assert(split(",framerate="@, ',') =~= seq![
        Seq::<char>::empty(),
        "framerate="@,
    ]);
}

/// The end of the caps.
proof fn lemma_per_second()
    ensures
        split("/1"@, ',') == seq![
            "/1"@,
        ],
{
    reveal_strlit("/1");
    split_nowhere_else("/1"@, ',');
    assert(split("/1"@, ',') =~= seq![
        "/1"@,
    ]);
}

/// What the capture pipeline is told reads back from its text: the device from
/// its property, the size and the frame rate from the fields of the camera's
/// caps.
pub proof fn capture_settings_read_back(device: u32, width: u32, height: u32, fps: u32)
    ensures
        ({
            let words = split(capture_description(device, width, height, fps), ' ');
            let caps = split(words[3], ',');
            &&& words[1].take(13) == "device-index="@
            &&& unsigned_value(words[1].skip(13), u32::MAX as nat) == Some(device as nat)
            &&& caps.len() == 5
            &&& caps[0] == "video/x-raw"@
            &&& caps[1] == "format=NV12"@
            &&& caps[2].take(6) == "width="@
            &&& unsigned_value(caps[2].skip(6), u32::MAX as nat) == Some(width as nat)
            &&& caps[3].take(7) == "height="@
            &&& unsigned_value(caps[3].skip(7), u32::MAX as nat) == Some(height as nat)
            &&& caps[4].take(10) == "framerate="@
            &&& caps[4].skip(caps[4].len() - 2) == "/1"@
            &&& unsigned_value(caps[4].subrange(10, caps[4].len() - 2), u32::MAX as nat) == Some(
                fps as nat,
            )
        }),
{
    capture_pipeline_words(device, width, height, fps);
    lemma_caps_fields();
    lemma_decimal_lacks(width as nat, ',');
    split_nowhere_else(decimal(width as nat), ',');
    let t0 = "video/x-raw,format=NV12,width="@;
    split_of_two_texts(t0, decimal(width as nat), ',');
    let t1 = t0 + decimal(width as nat);
    assert(split(t1, ',') =~= seq![
        "video/x-raw"@,
        "format=NV12"@,
        "width="@ + decimal(width as nat),
    ]);
    lemma_height_fields();
    split_of_two_texts(t1, ",height="@, ',');
    let t2 = t1 + ",height="@;
    assert(("width="@ + decimal(width as nat)) + Seq::<char>::empty() =~= "width="@ + decimal(width as nat));
    assert(split(t2, ',') =~= seq![
        "video/x-raw"@,
        "format=NV12"@,
        "width="@ + decimal(width as nat),
        "height="@,
    ]);
    lemma_decimal_lacks(height as nat, ',');
    split_nowhere_else(decimal(height as nat), ',');
    split_of_two_texts(t2, decimal(height as nat), ',');
    let t3 = t2 + decimal(height as nat);
    assert(split(t3, ',') =~= seq![
        "video/x-raw"@,
        "format=NV12"@,
        "width="@ + decimal(width as nat),
        "height="@ + decimal(height as nat),
    ]);
    lemma_rate_fields();
    split_of_two_texts(t3, ",framerate="@, ',');
    let t4 = t3 + ",framerate="@;
    assert(("height="@ + decimal(height as nat)) + Seq::<char>::empty() =~= "height="@ + decimal(height as nat));
    assert(split(t4, ',') =~= seq![
        "video/x-raw"@,
        "format=NV12"@,
        "width="@ + decimal(width as nat),
        "height="@ + decimal(height as nat),
        "framerate="@,
    ]);
    lemma_decimal_lacks(fps as nat, ',');
    split_nowhere_else(decimal(fps as nat), ',');
    split_of_two_texts(t4, decimal(fps as nat), ',');
    let t5 = t4 + decimal(fps as nat);
    assert(split(t5, ',') =~= seq![
        "video/x-raw"@,
        "format=NV12"@,
        "width="@ + decimal(width as nat),
        "height="@ + decimal(height as nat),
        "framerate="@ + decimal(fps as nat),
    ]);
    lemma_per_second();
    split_of_two_texts(t5, "/1"@, ',');
    let t6 = t5 + "/1"@;
    assert(split(t6, ',') =~= seq![
        "video/x-raw"@,
        "format=NV12"@,
        "width="@ + decimal(width as nat),
        "height="@ + decimal(height as nat),
        "framerate="@ + decimal(fps as nat) + "/1"@,
    ]);
    reveal_strlit("device-index=");
    reveal_strlit("width=");
    reveal_strlit("height=");
    reveal_strlit("framerate=");
    reveal_strlit("/1");
    let max = u32::MAX as nat;
    decimal_reads_back(device as nat, max);
    decimal_reads_back(width as nat, max);
    decimal_reads_back(height as nat, max);
    decimal_reads_back(fps as nat, max);
    assert(("device-index="@ + decimal(device as nat)).take(13) =~= "device-index="@);
    assert(("device-index="@ + decimal(device as nat)).skip(13) =~= decimal(device as nat));
    assert(("width="@ + decimal(width as nat)).take(6) =~= "width="@);
    assert(("width="@ + decimal(width as nat)).skip(6) =~= decimal(width as nat));
    assert(("height="@ + decimal(height as nat)).take(7) =~= "height="@);
    assert(("height="@ + decimal(height as nat)).skip(7) =~= decimal(height as nat));
    let rate = "framerate="@ + decimal(fps as nat) + "/1"@;
    assert(rate.take(10) =~= "framerate="@);
    assert(rate.skip(rate.len() - 2) =~= "/1"@);
    assert(rate.subrange(10, rate.len() - 2) =~= decimal(fps as nat));
}

/// Two cameras, sizes or frame rates never give the same text.
pub proof fn capture_texts_tell_settings_apart(
    a: (u32, u32, u32, u32),
    b: (u32, u32, u32, u32),
)
    requires
        capture_description(a.0, a.1, a.2, a.3) == capture_description(b.0, b.1, b.2, b.3),
    ensures
        a == b,
{
    capture_settings_read_back(a.0, a.1, a.2, a.3);
    capture_settings_read_back(b.0, b.1, b.2, b.3);
}

} // verus!
