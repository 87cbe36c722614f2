use bytes::Bytes;
use camera_stream::capture::{
    self, offered_outcome, presentation_time, raw_frame, BusMessage, CaptureAction, CaptureEvent,
    CapturePhase,
    Flow, Pulled, SampleOutcome,
};
use camera_stream::channels::Offered;
use camera_stream::encoder::{
    self, drain_keyframe_requests, feed, feed_actions, feed_buffer, frame_duration_ns,
    EncoderAction, EncoderEvent, EncoderPhase, EncoderSink, FeedAction, KeyframeRequests, SinkStep,
};
use camera_stream::metrics::{
    decrement_active_peers, increment_active_peers, record_encoder_drop, record_frame_encoded,
    record_peer_lag, Change, Metric,
};
use camera_stream::types::{EncodedFrame, RawFrame};
use camera_stream::writer::{Writer, WriterAction, WriterEvent};

#[test]
fn capture_pipeline_text() {
    assert_eq!(
        capture::pipeline_description(1, 1920, 1080, 30),
        "mfvideosrc device-index=1 ! video/x-raw,format=NV12,width=1920,height=1080,framerate=30/1 \
         ! videoconvert ! video/x-raw,format=I420 \
         ! appsink name=sink emit-signals=true max-buffers=2 drop=true sync=false"
    );
}

#[test]
fn encoder_pipeline_text() {
    assert_eq!(
        encoder::pipeline_description(5000, 4, 1920, 1080, 30),
        "appsrc name=src format=time is-live=true \
         ! video/x-raw,format=I420,width=1920,height=1080,framerate=30/1 \
         ! x264enc tune=zerolatency bitrate=5000 key-int-max=60 threads=4 \
         ! video/x-h264,profile=baseline,stream-format=byte-stream \
         ! appsink name=enc_sink emit-signals=true max-buffers=4 drop=true sync=false"
    );
}

#[test]
fn samples_reach_the_encoder_until_it_is_behind() {
    let (mut tx, rx) = crossbeam_channel::bounded::<RawFrame>(2);
    let sample = || Pulled::Buffer { data: &[1, 2, 3], pts: Some(40) };
    let passed = SampleOutcome { flow: Flow::Continue, update: None };
    assert_eq!(capture::on_sample(&mut tx, sample()), passed);
    assert_eq!(capture::on_sample(&mut tx, Pulled::Buffer { data: &[], pts: None }), passed);
    let dropped = SampleOutcome { flow: Flow::Continue, update: Some(record_encoder_drop()) };
    assert_eq!(capture::on_sample(&mut tx, sample()), dropped);
    let frame = rx.recv().unwrap();
    assert_eq!((frame.data.as_ref(), frame.pts), (&[1u8, 2, 3][..], 40));
    let frame = rx.recv().unwrap();
    assert_eq!((frame.data.len(), frame.pts), (0, 0));
    drop(rx);
    let over = SampleOutcome { flow: Flow::Eos, update: None };
    assert_eq!(capture::on_sample(&mut tx, sample()), over);
}

#[test]
fn unusable_samples_stop_the_stream() {
    let (mut tx, rx) = crossbeam_channel::bounded::<RawFrame>(2);
    assert_eq!(capture::on_sample(&mut tx, Pulled::Ended).flow, Flow::Eos);
    assert_eq!(capture::on_sample(&mut tx, Pulled::NoBuffer).flow, Flow::Error);
    assert_eq!(capture::on_sample(&mut tx, Pulled::Unreadable).flow, Flow::Error);
    assert!(rx.try_recv().is_err());
    assert_eq!(offered_outcome(Offered::Full).update, Some(record_encoder_drop()));
    assert_eq!(presentation_time(None), 0);
    assert_eq!(raw_frame(&[9], Some(3)).data, Bytes::from_static(&[9]));
}

#[test]
fn capture_runs_until_eos_or_error() {
    for last in [BusMessage::Eos, BusMessage::Error] {
        let mut phase = CapturePhase::Starting;
        assert!(phase.step(CaptureEvent::Playing).is_empty());
        for message in [BusMessage::Warning, BusMessage::StateChanged, BusMessage::Other] {
            assert!(phase.step(CaptureEvent::Bus(message)).is_empty());
            assert_eq!(phase, CapturePhase::Watching);
        }
        assert_eq!(phase.step(CaptureEvent::Bus(last)), vec![CaptureAction::ShutDown]);
        assert_eq!(phase, CapturePhase::Stopped);
    }
    let mut phase = CapturePhase::Starting;
    assert_eq!(phase.step(CaptureEvent::PlayRefused), vec![CaptureAction::ReportErrors]);
    assert_eq!(phase, CapturePhase::Failed);
}

#[test]
fn frame_interval_follows_the_rate() {
    assert_eq!(frame_duration_ns(30), 33_333_333);
    assert_eq!(frame_duration_ns(1), 1_000_000_000);
    assert_eq!(frame_duration_ns(u32::MAX), 0);
}

#[test]
fn durations_span_the_presentation_times() {
    let mut sink = EncoderSink::new(30);
    let times = [1_000u64, 34_000, 70_000, 70_000, 50_000, 90_000];
    let durations: Vec<u64> = times.iter().map(|t| sink.stamp(&[0], Some(*t)).duration).collect();
    assert_eq!(durations, vec![33_333_333, 33_000, 36_000, 33_333_333, 33_333_333, 40_000]);
    assert_eq!(durations[1] + durations[2], times[2] - times[0]);
}

#[test]
fn encoded_frames_are_broadcast() {
    let (mut tx, mut rx) = tokio::sync::broadcast::channel::<EncodedFrame>(4);
    let mut sink = EncoderSink::new(50);
    let published = SinkStep::Published(record_frame_encoded());
    assert_eq!(sink.on_sample(&mut tx, Pulled::Buffer { data: &[7, 8], pts: Some(5) }), published);
    assert_eq!(sink.on_sample(&mut tx, Pulled::NoBuffer), SinkStep::Skipped);
    assert_eq!(sink.on_sample(&mut tx, Pulled::Unreadable), SinkStep::Skipped);
    assert_eq!(sink.on_sample(&mut tx, Pulled::Buffer { data: &[9], pts: Some(11) }), published);
    assert_eq!(sink.on_sample(&mut tx, Pulled::Ended), SinkStep::Stop);
    let first = rx.try_recv().unwrap();
    assert_eq!((first.data.as_ref(), first.duration), (&[7u8, 8][..], 20_000_000));
    let second = rx.try_recv().unwrap().clone();
    assert_eq!((second.data.as_ref(), second.duration), (&[9u8][..], 6));
    drop(rx);
    assert_eq!(sink.on_sample(&mut tx, Pulled::Buffer { data: &[1], pts: None }), published);
}

#[test]
fn one_keyframe_serves_all_requests() {
    let (tx, mut rx) = crossbeam_channel::bounded::<()>(4);
    for _ in 0..3 {
        tx.try_send(()).unwrap();
    }
    assert_eq!(drain_keyframe_requests(&mut rx), KeyframeRequests { taken: 3, force: true });
    assert!(rx.is_empty());
    assert_eq!(drain_keyframe_requests(&mut rx), KeyframeRequests { taken: 0, force: false });
}

#[test]
fn raw_frames_enter_the_encoder_whole() {
    let frame = raw_frame(&[1, 2, 3, 4, 5, 6], Some(77)).clone();
    let buffer = feed_buffer(&frame, 33);
    assert_eq!(buffer.data.as_ref(), &[1u8, 2, 3, 4, 5, 6][..]);
    assert_eq!((buffer.pts, buffer.dts, buffer.duration), (77, 77, 33));
}

#[test]
fn a_forced_keyframe_comes_before_its_frame() {
    let (tx, mut rx) = crossbeam_channel::bounded::<()>(4);
    let frame = raw_frame(&[8, 9], Some(5));
    tx.try_send(()).unwrap();
    tx.try_send(()).unwrap();
    let actions = feed(&frame, 40, &mut rx);
    assert!(rx.is_empty());
    assert_eq!(actions.len(), 2);
    assert!(matches!(
        actions[0],
        FeedAction::SendEvent { structure: "GstForceKeyUnit", all_headers: true }
    ));
    for actions in [actions, feed(&frame, 40, &mut rx)] {
        match actions.last() {
            Some(FeedAction::Push(buffer)) => {
                assert_eq!(buffer.data.as_ref(), &[8u8, 9][..]);
                assert_eq!((buffer.pts, buffer.dts, buffer.duration), (5, 5, 40));
            }
            _ => panic!("no push"),
        }
    }
    let none = KeyframeRequests { taken: 0, force: false };
    assert_eq!(feed_actions(&frame, 40, none).len(), 1);
}

#[test]
fn the_encoder_outlives_refused_buffers() {
    let mut phase = EncoderPhase::Starting;
    assert_eq!(phase.step(EncoderEvent::Playing), vec![EncoderAction::StartSink]);
    assert_eq!(phase, EncoderPhase::Feeding);
    assert!(phase.step(EncoderEvent::Pushed).is_empty());
    assert!(phase.step(EncoderEvent::PushRefused).is_empty());
    assert_eq!(phase, EncoderPhase::Feeding);
    let mut broken = phase;
    assert!(broken.step(EncoderEvent::AllocationFailed).is_empty());
    assert_eq!(broken, EncoderPhase::Failed);
    assert_eq!(
        phase.step(EncoderEvent::InputClosed),
        vec![EncoderAction::EndStream, EncoderAction::AwaitSink]
    );
    assert_eq!(phase, EncoderPhase::Flushing);
    assert_eq!(phase.step(EncoderEvent::SinkEnded), vec![EncoderAction::ShutDown]);
    assert_eq!(phase, EncoderPhase::Stopped);
    let mut phase = EncoderPhase::Starting;
    assert!(phase.step(EncoderEvent::PlayRefused).is_empty());
    assert_eq!(phase, EncoderPhase::Failed);
}

#[test]
fn metrics_have_their_names() {
    assert_eq!(record_encoder_drop().metric.name(), "stream_encoder_drops_total");
    assert_eq!(record_frame_encoded().metric.name(), "stream_frames_encoded_total");
    assert_eq!(record_peer_lag(3).metric.name(), "stream_peer_lag_frames_total");
    assert_eq!(record_peer_lag(3).change, Change::CountBy(3));
    assert_eq!(increment_active_peers().metric, Metric::PeersActive);
    assert_eq!(increment_active_peers().change, Change::Rise);
    assert_eq!(decrement_active_peers().change, Change::Fall);
    assert_eq!(Metric::PeersActive.name(), "stream_peers_active");
}

#[test]
fn a_slow_peer_stays_connected() {
    let mut writer = Writer::new();
    let frame = EncodedFrame::copied(&[5], 10);
    match writer.step(WriterEvent::Frame(frame)) {
        WriterAction::Write(frame) => {
            assert_eq!((frame.data.as_ref(), frame.duration), (&[5u8][..], 10))
        }
        _ => panic!("frame lost"),
    }
    assert!(matches!(writer.step(WriterEvent::Written), WriterAction::Receive));
    for n in [1u64, 40] {
        match writer.step(WriterEvent::Lagged(n)) {
            WriterAction::CountLag(update) => assert_eq!(update, record_peer_lag(n)),
            _ => panic!("lag not counted"),
        }
    }
    assert!(!writer.stopped());
    assert!(matches!(writer.step(WriterEvent::WriteFailed), WriterAction::Stop));
    assert!(writer.stopped());
    assert!(matches!(writer.step(WriterEvent::Written), WriterAction::Stop));
    let mut writer = Writer::new();
    assert!(matches!(writer.step(WriterEvent::Closed), WriterAction::Stop));
    assert!(writer.stopped());
}
