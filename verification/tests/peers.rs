use camera_stream::config::{Config, EnvVars};
use camera_stream::metrics::{decrement_active_peers, increment_active_peers};
use camera_stream::peer::{Session, SessionAction, SessionEvent, SessionPhase};
use camera_stream::registry::{ConnectionState, PeerRegistry};
use camera_stream::routes::{
    allowed_methods, allowed_origins, health, upgrade_reply, ws_handler, OriginError, SERVICE_UNAVAILABLE,
};
use camera_stream::rtc::api::{build_api, h264_codec};
use camera_stream::signal::IceCandidateInit;
use camera_stream::slots::{next_peer_count, PeerSlot};
use std::sync::atomic::{AtomicUsize, Ordering};
use std::sync::Arc;
use webrtc::peer_connection::configuration::RTCConfiguration;
use webrtc::peer_connection::RTCPeerConnection;
use webrtc::rtp_transceiver::rtp_codec::RTPCodecType;

fn runtime() -> tokio::runtime::Runtime {
    tokio::runtime::Builder::new_current_thread().enable_all().build().unwrap()
}

async fn connection() -> Arc<RTCPeerConnection> {
    let api = build_api().unwrap();
    Arc::new(api.new_peer_connection(RTCConfiguration::default()).await.unwrap())
}

/// A counter with one slot taken, and that slot.
fn slot() -> (Arc<AtomicUsize>, PeerSlot) {
    let count = Arc::new(AtomicUsize::new(0));
    let slot = PeerSlot::reserve(Arc::clone(&count), 1).ok().unwrap();
    (count, slot)
}

fn names(actions: &Vec<SessionAction>) -> Vec<String> {
    actions.iter().map(|a| format!("{:?}", a)).collect()
}

fn config(origins: &str) -> Config {
    let vars =
        EnvVars { vars: vec![("ALLOWED_ORIGINS".to_owned(), origins.to_owned())] };
    Config::resolve(&vars, 4)
}

#[test]
fn slots_are_limited_and_given_back() {
    let count = Arc::new(AtomicUsize::new(0));
    let first = PeerSlot::reserve(Arc::clone(&count), 2);
    let second = PeerSlot::reserve(Arc::clone(&count), 2);
    assert!(first.is_ok() && second.is_ok());
    assert_eq!(count.load(Ordering::SeqCst), 2);
    match PeerSlot::reserve(Arc::clone(&count), 2) {
        Ok(_) => panic!("over the limit"),
        Err(refusal) => assert_eq!(refusal.found(), 2),
    }
    drop(first);
    assert_eq!(count.load(Ordering::SeqCst), 1);
    assert!(PeerSlot::reserve(Arc::clone(&count), 2).is_ok());
    drop(second);
    assert_eq!(count.load(Ordering::SeqCst), 0);
}

#[test]
fn concurrent_arrivals_respect_the_limit() {
    let count = Arc::new(AtomicUsize::new(0));
    let workers = tokio::runtime::Builder::new_multi_thread().worker_threads(4).build().unwrap();
    let slots: Vec<PeerSlot> = workers.block_on(async {
        let tasks: Vec<tokio::task::JoinHandle<Option<PeerSlot>>> = (0..16)
            .map(|_| {
                let count = Arc::clone(&count);
                tokio::spawn(async move { PeerSlot::reserve(count, 5).ok() })
            })
            .collect();
        let mut slots = vec![];
        for task in tasks {
            slots.extend(task.await.unwrap());
        }
        slots
    });
    assert_eq!(slots.len(), 5);
    drop(slots);
    assert_eq!(count.load(Ordering::SeqCst), 0);
}

#[test]
fn arrivals_fill_the_room_and_no_more() {
    for (count, arrivals, granted) in [(0usize, 3, 3), (3, 4, 2), (5, 2, 0)] {
        let count = Arc::new(AtomicUsize::new(count));
        let slots: Vec<PeerSlot> =
            (0..arrivals).filter_map(|_| PeerSlot::reserve(Arc::clone(&count), 5).ok()).collect();
        assert_eq!(slots.len(), granted);
    }
}

#[test]
fn counting_stops_at_the_limit() {
    assert_eq!(next_peer_count(0, 1), Some(1));
    assert_eq!(next_peer_count(1, 1), None);
    assert_eq!(next_peer_count(0, 0), None);
    assert_eq!(next_peer_count(usize::MAX, usize::MAX), None);
}

#[test]
fn upgrades_get_an_id_or_a_503() {
    let count = Arc::new(AtomicUsize::new(0));
    let peer = ws_handler(Arc::clone(&count), 1).ok().unwrap();
    let parsed = uuid::Uuid::parse_str(&peer.peer_id).unwrap();
    assert_eq!(parsed.get_version_num(), 4);
    assert_eq!(peer.peer_id.len(), 36);
    assert_eq!(parsed.to_string(), peer.peer_id);
    let refused = ws_handler(Arc::clone(&count), 1).err().unwrap();
    assert_eq!((refused.status, refused.refusal.found()), (SERVICE_UNAVAILABLE, 1));
    assert_eq!(count.load(Ordering::SeqCst), 1);
    let again = peer.peer_id.clone();
    drop(peer);
    let next = ws_handler(Arc::clone(&count), 1).ok().unwrap();
    assert_ne!(next.peer_id, again);
    let full = PeerSlot::reserve(Arc::new(AtomicUsize::new(7)), 7);
    let reply = upgrade_reply(full).err().unwrap();
    assert_eq!((reply.status, reply.refusal.found()), (503, 7));
    assert_eq!(ws_handler(Arc::new(AtomicUsize::new(0)), 0).err().unwrap().status, 503);
}

#[test]
fn health_is_ok() {
    assert_eq!(health(), "ok");
}

#[test]
fn origins_are_listed_in_order() {
    let list = allowed_origins(&config("https://a.example , https://b.example:8443")).unwrap();
    assert_eq!(format!("{:?}", list), r#"List(["https://a.example", "https://b.example:8443"])"#);
    assert!(allowed_origins(&config("https://é.example")).is_ok());
}

#[test]
fn a_lone_wildcard_allows_every_origin() {
    let any = allowed_origins(&config(" * ")).unwrap();
    assert_eq!(format!("{:?}", any), r#"Const("*")"#);
}

#[test]
fn only_get_is_allowed() {
    assert_eq!(allowed_methods(), vec!["GET"]);
}

#[test]
fn slots_dropped_in_any_order_are_free_again() {
    let count = Arc::new(AtomicUsize::new(0));
    let mut slots: Vec<PeerSlot> =
        (0..5).filter_map(|_| PeerSlot::reserve(Arc::clone(&count), 5).ok()).collect();
    for i in [3, 0, 1] {
        drop(slots.remove(i));
    }
    assert_eq!(count.load(Ordering::SeqCst), 2);
}

#[test]
fn bad_origins_are_refused() {
    assert_eq!(allowed_origins(&config("https://a,b\u{7f},*")).err(), Some(OriginError::Invalid(1)));
    assert_eq!(allowed_origins(&config("a\nb")).err(), Some(OriginError::Invalid(0)));
    assert_eq!(allowed_origins(&config("https://a,*")).err(), Some(OriginError::Wildcard(1)));
    assert_eq!(allowed_origins(&config("*,https://a")).err(), Some(OriginError::Wildcard(0)));
    assert_eq!(allowed_origins(&config("*,*")).err(), Some(OriginError::Wildcard(0)));
    assert!(allowed_origins(&config("a\tb,**,")).is_ok());
}

#[test]
fn the_gauge_counts_registered_peers() {
    runtime().block_on(async {
        let mut registry = PeerRegistry::new();
        assert!(registry.connections().is_empty());
        let a = connection().await;
        let b = connection().await;
        assert_eq!(registry.register("a".to_owned(), Arc::clone(&a)), increment_active_peers());
        assert_eq!(registry.register("b".to_owned(), Arc::clone(&b)), increment_active_peers());
        let held = registry.connections();
        assert_eq!(held.len(), 2);
        assert!(held.iter().any(|pc| Arc::ptr_eq(pc, &a)));
        assert!(held.iter().any(|pc| Arc::ptr_eq(pc, &b)));
        assert_eq!(registry.on_state_change("a", ConnectionState::Connected), None);
        assert_eq!(registry.connections().len(), 2);
        let left = Some(decrement_active_peers());
        assert_eq!(registry.on_state_change("a", ConnectionState::Disconnected), left);
        assert_eq!(registry.on_state_change("a", ConnectionState::Closed), None);
        assert_eq!(registry.on_state_change("nobody", ConnectionState::Failed), None);
        let held = registry.connections();
        assert_eq!(held.len(), 1);
        assert!(Arc::ptr_eq(&held[0], &b));
        assert_eq!(registry.on_state_change("b", ConnectionState::Failed), left);
        assert!(registry.connections().is_empty());
        let _ = a.close().await;
        let _ = b.close().await;
    });
}

#[test]
fn only_terminal_states_end_a_peer() {
    assert!(ConnectionState::Failed.ends_peer());
    assert!(ConnectionState::Disconnected.ends_peer());
    assert!(ConnectionState::Closed.ends_peer());
    assert!(!ConnectionState::Unspecified.ends_peer());
    assert!(!ConnectionState::New.ends_peer());
    assert!(!ConnectionState::Connecting.ends_peer());
    assert!(!ConnectionState::Connected.ends_peer());
}

#[test]
fn the_api_offers_h264_level_4() {
    let codec = h264_codec();
    assert_eq!(codec.mime_type, webrtc::api::media_engine::MIME_TYPE_H264);
    assert_eq!(codec.payload_type, 102);
    runtime().block_on(async {
        let pc = connection().await;
        pc.add_transceiver_from_kind(RTPCodecType::Video, None).await.unwrap();
        let offer = pc.create_offer(None).await.unwrap();
        assert!(offer.sdp.contains("a=rtpmap:102 H264/90000"), "{}", offer.sdp);
        assert!(offer.sdp.contains(
            "a=fmtp:102 level-asymmetry-allowed=1;packetization-mode=1;profile-level-id=42e028"
        ));
        assert_eq!(offer.sdp.matches("a=rtpmap:").count(), 1);
        for feedback in ["nack", "nack pli", "transport-cc"] {
            let line = format!("a=rtcp-fb:102 {}", feedback);
            assert!(offer.sdp.lines().any(|l| l.trim_end() == line), "{}", offer.sdp);
        }
        assert!(offer.sdp.contains("draft-holmer-rmcat-transport-wide-cc-extensions-01"));
        assert!(!offer.sdp.contains("m=audio"));
        let _ = pc.close().await;
    });
}

#[test]
fn a_session_from_start_to_end() {
    let (count, slot) = slot();
    let (mut session, actions) = Session::start(slot);
    assert_eq!(names(&actions), vec!["OpenConnection"]);
    assert_eq!(names(&session.step(SessionEvent::Connected)), vec!["AddTrack"]);
    assert_eq!(
        names(&session.step(SessionEvent::TrackAdded)),
        vec![
            "Subscribe", "Register", "RequestKeyframe", "StartWriter", "WatchConnection",
            "WatchCandidates"
        ]
    );
    assert_eq!(
        names(&session.step(SessionEvent::Text("hi".to_owned()))),
        vec!["HandleMessage(\"hi\")"]
    );
    assert!(session.step(SessionEvent::OtherMessage).is_empty());
    let candidate = IceCandidateInit {
        candidate: "c".to_owned(),
        sdp_mid: Some(String::new()),
        sdp_mline_index: Some(0),
        username_fragment: None,
    };
    let actions = session.step(SessionEvent::LocalCandidate(candidate));
    match &actions[0] {
        SessionAction::Send(text) => assert_eq!(
            text,
            r#"{"type":"candidate","candidate":"c","sdpMid":"","sdpMLineIndex":0}"#
        ),
        other => panic!("{:?}", other),
    }
    assert_eq!(names(&session.step(SessionEvent::SocketClosed)), vec!["AbortWriter"]);
    assert!(session.step(SessionEvent::ConnectionClosed).is_empty());
    assert_eq!(names(&session.step(SessionEvent::WriterStopped)), vec!["CloseConnection"]);
    assert_eq!(count.load(Ordering::SeqCst), 1);
    assert!(session.step(SessionEvent::ConnectionClosed).is_empty());
    assert_eq!(session.phase(), SessionPhase::Finished);
    assert_eq!(count.load(Ordering::SeqCst), 0);
    assert!(session.step(SessionEvent::ConnectionClosed).is_empty());
}

#[test]
fn sessions_that_never_go_live_release_their_slot() {
    let (count, guard) = slot();
    let (mut session, _) = Session::start(guard);
    assert!(session.step(SessionEvent::ConnectFailed).is_empty());
    assert_eq!((session.phase(), count.load(Ordering::SeqCst)), (SessionPhase::Finished, 0));
    drop(session);
    assert_eq!(count.load(Ordering::SeqCst), 0);

    let (count, guard) = slot();
    let (mut session, _) = Session::start(guard);
    session.step(SessionEvent::Connected);
    assert_eq!(names(&session.step(SessionEvent::TrackRefused)), vec!["CloseConnection"]);
    assert_eq!(count.load(Ordering::SeqCst), 1);
    assert!(session.step(SessionEvent::ConnectionClosed).is_empty());
    assert_eq!(count.load(Ordering::SeqCst), 0);
}

#[test]
fn a_cancelled_session_releases_its_slot() {
    let (count, guard) = slot();
    let (mut session, _) = Session::start(guard);
    session.step(SessionEvent::Connected);
    session.step(SessionEvent::TrackAdded);
    assert_eq!(names(&session.step(SessionEvent::SendFailed)), vec!["AbortWriter"]);
    assert_eq!(count.load(Ordering::SeqCst), 1);
    drop(session);
    assert_eq!(count.load(Ordering::SeqCst), 0);
}
