//! The writer of one peer: encoded frames from the broadcast channel onto the
//! peer's RTP track.
//!
//! [`Writer`] decides; the peer's writer task receives, writes and reports.
use vstd::prelude::*;

use crate::metrics::{metric_total, record_peer_lag, Change, Metric, MetricUpdate};
use crate::types::EncodedFrame;

verus! {

/// What happens to a writer.
pub enum WriterEvent {
    /// A frame was received.
    Frame(EncodedFrame),
    /// The peer was too slow: this many frames are gone.
    Lagged(u64),
    /// The encoder is gone.
    Closed,
    /// A frame was written to the track.
    Written,
    /// A frame could not be written to the track.
    WriteFailed,
}

/// What the writer task is to do.
pub enum WriterAction {
    /// Receive the next frame.
    Receive,
    /// Write this frame to the track, for its duration.
    Write(EncodedFrame),
    /// Count the frames that are gone, and receive the next one.
    CountLag(MetricUpdate),
    /// Nothing more.
    Stop,
}

/// Whether a writer has stopped after an event, and what it does. It stops
/// when the channel closes or a write fails; a lag is counted and passed over.
pub open spec fn writer_after(stopped: bool, event: WriterEvent) -> (bool, WriterAction) {
    if stopped {
        (true, WriterAction::Stop)
    } else {
        match event {
            WriterEvent::Frame(frame) => (false, WriterAction::Write(frame)),
            WriterEvent::Lagged(n) => (
                false,
                WriterAction::CountLag(
                    MetricUpdate { metric: Metric::PeerLagFrames, change: Change::CountBy(n) },
                ),
            ),
            WriterEvent::Closed => (true, WriterAction::Stop),
            WriterEvent::Written => (false, WriterAction::Receive),
            WriterEvent::WriteFailed => (true, WriterAction::Stop),
        }
    }
}

/// The writer of one peer.
pub struct Writer {
    stopped: bool,
}

impl Writer {
    /// Whether the writer has stopped.
    pub closed spec fn is_stopped(&self) -> bool {
        self.stopped
    }

    /// Whether the writer has stopped.
    pub fn stopped(&self) -> (stopped: bool)
        ensures
            stopped == self.is_stopped(),
    {
        self.stopped
    }

    /// A writer that has yet to receive.
    pub fn new() -> (writer: Writer)
        ensures
            !writer.is_stopped(),
    {
        Writer { stopped: false }
    }

    /// Takes an event in; returns what is to be done.
    pub fn step(&mut self, event: WriterEvent) -> (action: WriterAction)
        ensures
            (final(self).is_stopped(), action) == writer_after(old(self).is_stopped(), event),
            final(self).is_stopped() <==> old(self).is_stopped() || event is Closed
                || event is WriteFailed,
            action is Stop <==> final(self).is_stopped(),
            !old(self).is_stopped() ==> (match event {
                WriterEvent::Frame(frame) => action == WriterAction::Write(frame),
                WriterEvent::Lagged(n) => action == WriterAction::CountLag(
                    MetricUpdate { metric: Metric::PeerLagFrames, change: Change::CountBy(n) },
                ),
                WriterEvent::Written => action is Receive,
                _ => action is Stop,
            }),
    {
        if self.stopped {
            return WriterAction::Stop;
        }
        match event {
            WriterEvent::Frame(frame) => WriterAction::Write(frame),
            WriterEvent::Lagged(n) => WriterAction::CountLag(record_peer_lag(n)),
            WriterEvent::Closed => {
                self.stopped = true;
                WriterAction::Stop
            },
            WriterEvent::Written => WriterAction::Receive,
            WriterEvent::WriteFailed => {
                self.stopped = true;
                WriterAction::Stop
            },
        }
    }
}

/// Whether a writer has stopped after these events, and what it did.
pub open spec fn writer_run(events: Seq<WriterEvent>) -> (bool, Seq<WriterAction>)
    decreases events.len(),
{
    if events.len() == 0 {
        (false, Seq::empty())
    } else {
        let before = writer_run(events.drop_last());
        let after = writer_after(before.0, events.last());
        (after.0, before.1.push(after.1))
    }
}

/// Neither the channel closed nor a write failed.
pub open spec fn is_running(events: Seq<WriterEvent>) -> bool {
    forall|i: int|
        0 <= i < events.len() ==> !((#[trigger] events[i]) is Closed) && !(
        events[i] is WriteFailed)
}

/// A slow peer stays connected: however often and however far it lags, its
/// writer goes on, and each frame that it receives is written as it is.
pub proof fn lag_is_survived(events: Seq<WriterEvent>)
    requires
        is_running(events),
    ensures
        !writer_run(events).0,
        writer_run(events).1.len() == events.len(),
        forall|i: int|
            0 <= i < events.len() ==> ((#[trigger] events[i]) matches WriterEvent::Frame(frame)
                ==> writer_run(events).1[i] == WriterAction::Write(frame)),
    decreases events.len(),
{
    if events.len() > 0 {
        let shorter = events.drop_last();
        assert forall|i: int| 0 <= i < shorter.len() implies !((#[trigger] shorter[i]) is Closed)
            && !(shorter[i] is WriteFailed) by {
            assert(shorter[i] == events[i]);
        }
        lag_is_survived(shorter);
        assert forall|i: int| 0 <= i < events.len() implies ((
        #[trigger] events[i]) matches WriterEvent::Frame(frame) ==> writer_run(events).1[i]
            == WriterAction::Write(frame)) by {
            if i < shorter.len() {
                assert(shorter[i] == events[i]);
            }
        }
    }
}

/// The frames that were lost to lag.
pub open spec fn frames_lost(events: Seq<WriterEvent>) -> int
    decreases events.len(),
{
    if events.len() == 0 {
        0
    } else {
        frames_lost(events.drop_last()) + (match events.last() {
            WriterEvent::Lagged(n) => n as int,
            _ => 0,
        })
    }
}

/// The metric updates among a writer's actions.
pub open spec fn lag_updates(actions: Seq<WriterAction>) -> Seq<MetricUpdate>
    decreases actions.len(),
{
    if actions.len() == 0 {
        Seq::empty()
    } else {
        match actions.last() {
            WriterAction::CountLag(update) => lag_updates(actions.drop_last()).push(update),
            _ => lag_updates(actions.drop_last()),
        }
    }
}

/// The lag counter shows every frame that a running writer lost.
pub proof fn every_lost_frame_is_counted(events: Seq<WriterEvent>)
    requires
        is_running(events),
    ensures
        metric_total(lag_updates(writer_run(events).1), Metric::PeerLagFrames) == frames_lost(
            events,
        ),
    decreases events.len(),
{
    if events.len() > 0 {
        let shorter = events.drop_last();
        assert forall|i: int| 0 <= i < shorter.len() implies !((#[trigger] shorter[i]) is Closed)
            && !(shorter[i] is WriteFailed) by {
            assert(shorter[i] == events[i]);
        }
        every_lost_frame_is_counted(shorter);
        lag_is_survived(shorter);
        let before = writer_run(shorter).1;
        assert(writer_run(events).1.drop_last() == before);
        if events.last() is Lagged {
            let updates = lag_updates(writer_run(events).1);
            assert(updates.drop_last() == lag_updates(before));
        }
    }
}

/// A writer stops when the channel closes or a write fails, at once and for good,
/// and at nothing else.
pub proof fn writer_stops_only_when_it_must(events: Seq<WriterEvent>, next: WriterEvent)
    ensures
        !writer_run(Seq::empty()).0,
        writer_run(events.push(next)).0 <==> writer_run(events).0 || next is Closed
            || next is WriteFailed,
        writer_run(events.push(next)).1.len() == writer_run(events).1.len() + 1,
        writer_run(events.push(next)).1.last() is Stop <==> writer_run(events.push(next)).0,
{
    assert(events.push(next).drop_last() =~= events);
}

/// A running writer writes each frame as it comes, counts each lag by its own
/// size, and receives again after each write.
pub proof fn running_writer_serves_every_event(events: Seq<WriterEvent>, next: WriterEvent)
    requires
        !writer_run(events).0,
    ensures
        ({
            let action = writer_run(events.push(next)).1.last();
            match next {
                WriterEvent::Frame(frame) => action == WriterAction::Write(frame),
                WriterEvent::Lagged(n) => action == WriterAction::CountLag(
                    MetricUpdate { metric: Metric::PeerLagFrames, change: Change::CountBy(n) },
                ),
                WriterEvent::Written => action is Receive,
                WriterEvent::Closed => action is Stop,
                WriterEvent::WriteFailed => action is Stop,
            }
        }),
{
    assert(events.push(next).drop_last() =~= events);
}

} // verus!
