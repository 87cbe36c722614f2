//! The life of one browser peer, from the WebSocket upgrade to the end of its
//! connection.
//!
//! [`Session`] decides; the task that owns the socket and the connection
//! performs each [`SessionAction`] in order and reports what happened as a
//! [`SessionEvent`]. The session holds the peer's slot: it drops the slot when
//! it finishes, and a session that is itself dropped before that, because its
//! task is cancelled, takes the slot with it.
use vstd::prelude::*;

use crate::json::{json_text, object_json, Json};
use crate::signal::{
    messages_on_the_wire, signal_fields, signal_of, IceCandidateInit, IceCandidateView, Signal,
    SignalError, SignalView,
};
use crate::slots::{
    count_held, dropped_slot_is_free_again, holders, is_history, CountStep, PeerSlot,
};

verus! {

/// Where a session stands.
#[derive(Clone, Copy, Debug, PartialEq, Eq, Structural)]
pub enum SessionPhase {
    /// The peer connection is being set up.
    Connecting,
    /// The video track is being added.
    AddingTrack,
    /// Messages and candidates go back and forth.
    Signaling,
    /// The writer has been aborted and is winding down.
    StoppingWriter,
    /// The peer connection is being closed.
    Closing,
    /// Nothing is left to do.
    Finished,
}

/// What happens to a session.
#[derive(Debug)]
pub enum SessionEvent {
    Connected,
    ConnectFailed,
    TrackAdded,
    TrackRefused,
    /// A text message came from the browser.
    Text(String),
    /// The browser closed the socket, or it is gone.
    SocketClosed,
    /// Anything else came over the socket.
    OtherMessage,
    /// ICE gathering found a candidate of ours.
    LocalCandidate(IceCandidateInit),
    /// A candidate could not be sent to the browser.
    SendFailed,
    WriterStopped,
    ConnectionClosed,
}

/// What a [`SessionEvent`] holds.
pub enum SessionEventView {
    Connected,
    ConnectFailed,
    TrackAdded,
    TrackRefused,
    Text(Seq<char>),
    SocketClosed,
    OtherMessage,
    LocalCandidate(IceCandidateView),
    SendFailed,
    WriterStopped,
    ConnectionClosed,
}

/// What the peer's task is to do.
#[derive(Debug)]
pub enum SessionAction {
    /// Set up the peer connection.
    OpenConnection,
    /// Add the video track, send-only.
    AddTrack,
    /// Subscribe to the encoded frames.
    Subscribe,
    /// Enter the connection into the registry.
    Register,
    /// Ask the encoder for a keyframe.
    RequestKeyframe,
    /// Start the task that writes frames to the track.
    StartWriter,
    /// Report the connection's state changes to the registry.
    WatchConnection,
    /// Collect our ICE candidates.
    WatchCandidates,
    /// Handle a signaling message.
    HandleMessage(String),
    /// Send a text to the browser.
    Send(String),
    /// Abort the writer and wait until it has stopped.
    AbortWriter,
    /// Close the peer connection.
    CloseConnection,
}

/// What a [`SessionAction`] holds.
pub enum SessionActionView {
    OpenConnection,
    AddTrack,
    Subscribe,
    Register,
    RequestKeyframe,
    StartWriter,
    WatchConnection,
    WatchCandidates,
    HandleMessage(Seq<char>),
    Send(Seq<char>),
    AbortWriter,
    CloseConnection,
}

impl View for SessionEvent {
    type V = SessionEventView;

    open spec fn view(&self) -> SessionEventView {
        match self {
            SessionEvent::Connected => SessionEventView::Connected,
            SessionEvent::ConnectFailed => SessionEventView::ConnectFailed,
            SessionEvent::TrackAdded => SessionEventView::TrackAdded,
            SessionEvent::TrackRefused => SessionEventView::TrackRefused,
            SessionEvent::Text(text) => SessionEventView::Text(text@),
            SessionEvent::SocketClosed => SessionEventView::SocketClosed,
            SessionEvent::OtherMessage => SessionEventView::OtherMessage,
            SessionEvent::LocalCandidate(c) => SessionEventView::LocalCandidate(c@),
            SessionEvent::SendFailed => SessionEventView::SendFailed,
            SessionEvent::WriterStopped => SessionEventView::WriterStopped,
            SessionEvent::ConnectionClosed => SessionEventView::ConnectionClosed,
        }
    }
}

impl View for SessionAction {
    type V = SessionActionView;

    open spec fn view(&self) -> SessionActionView {
        match self {
            SessionAction::OpenConnection => SessionActionView::OpenConnection,
            SessionAction::AddTrack => SessionActionView::AddTrack,
            SessionAction::Subscribe => SessionActionView::Subscribe,
            SessionAction::Register => SessionActionView::Register,
            SessionAction::RequestKeyframe => SessionActionView::RequestKeyframe,
            SessionAction::StartWriter => SessionActionView::StartWriter,
            SessionAction::WatchConnection => SessionActionView::WatchConnection,
            SessionAction::WatchCandidates => SessionActionView::WatchCandidates,
            SessionAction::HandleMessage(text) => SessionActionView::HandleMessage(text@),
            SessionAction::Send(text) => SessionActionView::Send(text@),
            SessionAction::AbortWriter => SessionActionView::AbortWriter,
            SessionAction::CloseConnection => SessionActionView::CloseConnection,
        }
    }
}

/// What a list of actions holds.
pub open spec fn actions_view(actions: Seq<SessionAction>) -> Seq<SessionActionView> {
    actions.map_values(|a: SessionAction| a@)
}

/// What is done once the track is there: the frames are subscribed to before
/// any signaling, so that the first keyframe is not missed.
pub open spec fn go_live() -> Seq<SessionActionView> {
    seq![
        SessionActionView::Subscribe,
        SessionActionView::Register,
        SessionActionView::RequestKeyframe,
        SessionActionView::StartWriter,
        SessionActionView::WatchConnection,
        SessionActionView::WatchCandidates,
    ]
}

/// The phase after an event, and what is to be done. An event that does not
/// belong to the phase changes nothing.
pub open spec fn session_after(phase: SessionPhase, event: SessionEventView) -> (
    SessionPhase,
    Seq<SessionActionView>,
) {
    match (phase, event) {
        (SessionPhase::Connecting, SessionEventView::Connected) => (
            SessionPhase::AddingTrack,
            seq![SessionActionView::AddTrack],
        ),
        (SessionPhase::Connecting, SessionEventView::ConnectFailed) => (
            SessionPhase::Finished,
            Seq::empty(),
        ),
        (SessionPhase::AddingTrack, SessionEventView::TrackAdded) => (
            SessionPhase::Signaling,
            go_live(),
        ),
        (SessionPhase::AddingTrack, SessionEventView::TrackRefused) => (
            SessionPhase::Closing,
            seq![SessionActionView::CloseConnection],
        ),
        (SessionPhase::Signaling, SessionEventView::Text(text)) => (
            phase,
            seq![SessionActionView::HandleMessage(text)],
        ),
        (SessionPhase::Signaling, SessionEventView::LocalCandidate(candidate)) => (
            phase,
            seq![
                SessionActionView::Send(
                    json_text(signal_fields(SignalView::Candidate { candidate })),
                ),
            ],
        ),
        (SessionPhase::Signaling, SessionEventView::SocketClosed) => (
            SessionPhase::StoppingWriter,
            seq![SessionActionView::AbortWriter],
        ),
        (SessionPhase::Signaling, SessionEventView::SendFailed) => (
            SessionPhase::StoppingWriter,
            seq![SessionActionView::AbortWriter],
        ),
        (SessionPhase::StoppingWriter, SessionEventView::WriterStopped) => (
            SessionPhase::Closing,
            seq![SessionActionView::CloseConnection],
        ),
        (SessionPhase::Closing, SessionEventView::ConnectionClosed) => (
            SessionPhase::Finished,
            Seq::empty(),
        ),
        _ => (phase, Seq::empty()),
    }
}

/// The phase after these events, and everything done on the way.
pub open spec fn session_run(events: Seq<SessionEventView>) -> (
    SessionPhase,
    Seq<SessionActionView>,
)
    decreases events.len(),
{
    if events.len() == 0 {
        (SessionPhase::Connecting, seq![SessionActionView::OpenConnection])
    } else {
        let before = session_run(events.drop_last());
        let after = session_after(before.0, events.last());
        (after.0, before.1 + after.1)
    }
}

/// One action, as a list.
fn only(action: SessionAction) -> (actions: Vec<SessionAction>)
    ensures
        actions_view(actions@) == seq![action@],
        actions@ == seq![action],
{
    let mut actions: Vec<SessionAction> = Vec::new();
    actions.push(action);
    assert(actions@ =~= seq![action]);
    actions
}

/// No action.
fn nothing() -> (actions: Vec<SessionAction>)
    ensures
        actions_view(actions@) == Seq::<SessionActionView>::empty(),
{
    let actions: Vec<SessionAction> = Vec::new();
    assert(actions_view(actions@) == Seq::<SessionActionView>::empty());
    actions
}

/// The session of one peer.
pub struct Session {
    phase: SessionPhase,
    /// The peer's slot, until the session is finished.
    slot: Option<PeerSlot>,
}

impl Session {
    /// The slot is held in every phase but the last.
    #[verifier::type_invariant]
    spec fn wf(&self) -> bool {
        self.slot is Some <==> holds_slot(self.phase)
    }

    /// Where the session stands.
    pub closed spec fn at(&self) -> SessionPhase {
        self.phase
    }

    /// The slot that the session holds.
    pub closed spec fn held(&self) -> Option<PeerSlot> {
        self.slot
    }

    /// Where the session stands.
    pub fn phase(&self) -> (phase: SessionPhase)
        ensures
            phase == self.at(),
            self.held() is Some <==> holds_slot(phase),
    {
        proof {
            use_type_invariant(self);
        }
        self.phase
    }

    /// A new session with its slot, and its first action.
    pub fn start(slot: PeerSlot) -> (started: (Session, Vec<SessionAction>))
        ensures
            (started.0.at(), actions_view(started.1@)) == session_run(Seq::empty()),
            started.0.held() == Some(slot),
            started.0.at() is Connecting,
            started.1.len() == 1,
            started.1@[0] is OpenConnection,
    {
        (
            Session { phase: SessionPhase::Connecting, slot: Some(slot) },
            only(SessionAction::OpenConnection),
        )
    }

    /// Takes an event in; returns what is to be done, in order. A session that
    /// finishes drops its slot.
    pub fn step(&mut self, event: SessionEvent) -> (actions: Vec<SessionAction>)
        ensures
            (final(self).at(), actions_view(actions@)) == session_after(old(self).at(), event@),
            final(self).held() == (if holds_slot(final(self).at()) {
                old(self).held()
            } else {
                None
            }),
            final(self).held() == (if final(self).at() is Finished {
                None
            } else {
                old(self).held()
            }),
            (match (old(self).at(), event) {
                (SessionPhase::Connecting, SessionEvent::Connected) => {
                    &&& final(self).at() is AddingTrack
                    &&& actions.len() == 1
                    &&& actions@[0] is AddTrack
                },
                (SessionPhase::Connecting, SessionEvent::ConnectFailed) => {
                    &&& final(self).at() is Finished
                    &&& actions.len() == 0
                },
                (SessionPhase::AddingTrack, SessionEvent::TrackAdded) => {
                    &&& final(self).at() is Signaling
                    &&& actions.len() == 6
                    &&& actions@[0] is Subscribe
                    &&& actions@[1] is Register
                    &&& actions@[2] is RequestKeyframe
                    &&& actions@[3] is StartWriter
                    &&& actions@[4] is WatchConnection
                    &&& actions@[5] is WatchCandidates
                },
                (SessionPhase::AddingTrack, SessionEvent::TrackRefused) => {
                    &&& final(self).at() is Closing
                    &&& actions.len() == 1
                    &&& actions@[0] is CloseConnection
                },
                (SessionPhase::Signaling, SessionEvent::Text(text)) => {
                    &&& final(self).at() is Signaling
                    &&& actions.len() == 1
                    &&& actions@[0] matches SessionAction::HandleMessage(handled) && handled@
                        == text@
                },
                (SessionPhase::Signaling, SessionEvent::LocalCandidate(candidate)) => {
                    &&& final(self).at() is Signaling
                    &&& actions.len() == 1
                    &&& actions@[0] matches SessionAction::Send(sent) && signal_of(sent@) == Ok::<
                        SignalView,
                        SignalError,
                    >((SignalView::Candidate { candidate: candidate@ }))
                },
                (SessionPhase::Signaling, SessionEvent::SocketClosed) => {
                    &&& final(self).at() is StoppingWriter
                    &&& actions.len() == 1
                    &&& actions@[0] is AbortWriter
                },
                (SessionPhase::Signaling, SessionEvent::SendFailed) => {
                    &&& final(self).at() is StoppingWriter
                    &&& actions.len() == 1
                    &&& actions@[0] is AbortWriter
                },
                (SessionPhase::StoppingWriter, SessionEvent::WriterStopped) => {
                    &&& final(self).at() is Closing
                    &&& actions.len() == 1
                    &&& actions@[0] is CloseConnection
                },
                (SessionPhase::Closing, SessionEvent::ConnectionClosed) => {
                    &&& final(self).at() is Finished
                    &&& actions.len() == 0
                },
                (phase, _) => {
                    &&& final(self).at() == phase
                    &&& actions.len() == 0
                },
            }),
    {
        proof {
            use_type_invariant(&*self);
        }
        let (next, actions) = decide(self.phase, event);
        proof {
            assert(actions_view(actions@).len() == actions@.len());
            assert forall|i: int| 0 <= i < actions@.len() implies actions_view(actions@)[i] == (
            #[trigger] actions@[i])@ by {}
        }
        if let SessionPhase::Finished = next {
            *self = Session { phase: next, slot: None };
        } else {
            self.phase = next;
        }
        actions
    }
}

/// The phase after an event, and what is to be done.
fn decide(phase: SessionPhase, event: SessionEvent) -> (decided: (SessionPhase, Vec<SessionAction>))
    ensures
        (decided.0, actions_view(decided.1@)) == session_after(phase, event@),
        phase is Signaling ==> (event matches SessionEvent::LocalCandidate(candidate) ==> (
        decided.1@[0] matches SessionAction::Send(sent) && signal_of(sent@) == Ok::<
            SignalView,
            SignalError,
        >((SignalView::Candidate { candidate: candidate@ })))),
{
    match (phase, event) {
        (SessionPhase::Connecting, SessionEvent::Connected) => (
            SessionPhase::AddingTrack,
            only(SessionAction::AddTrack),
        ),
        (SessionPhase::Connecting, SessionEvent::ConnectFailed) => (
            SessionPhase::Finished,
            nothing(),
        ),
        (SessionPhase::AddingTrack, SessionEvent::TrackAdded) => {
            let mut actions: Vec<SessionAction> = Vec::new();
            actions.push(SessionAction::Subscribe);
            actions.push(SessionAction::Register);
            actions.push(SessionAction::RequestKeyframe);
            actions.push(SessionAction::StartWriter);
            actions.push(SessionAction::WatchConnection);
            actions.push(SessionAction::WatchCandidates);
            assert(actions_view(actions@) == go_live());
            (SessionPhase::Signaling, actions)
        },
        (SessionPhase::AddingTrack, SessionEvent::TrackRefused) => (
            SessionPhase::Closing,
            only(SessionAction::CloseConnection),
        ),
        (SessionPhase::Signaling, SessionEvent::Text(text)) => (
            phase,
            only(SessionAction::HandleMessage(text)),
        ),
        (SessionPhase::Signaling, SessionEvent::LocalCandidate(candidate)) => {
            let signal = Signal::Candidate { candidate };
            (phase, only(SessionAction::Send(signal.to_json())))
        },
        (SessionPhase::Signaling, SessionEvent::SocketClosed) => (
            SessionPhase::StoppingWriter,
            only(SessionAction::AbortWriter),
        ),
        (SessionPhase::Signaling, SessionEvent::SendFailed) => (
            SessionPhase::StoppingWriter,
            only(SessionAction::AbortWriter),
        ),
        (SessionPhase::StoppingWriter, SessionEvent::WriterStopped) => (
            SessionPhase::Closing,
            only(SessionAction::CloseConnection),
        ),
        (SessionPhase::Closing, SessionEvent::ConnectionClosed) => (
            SessionPhase::Finished,
            nothing(),
        ),
        _ => (phase, nothing()),
    }
}

/// Nothing but messages handled and candidates sent.
pub open spec fn is_talk(actions: Seq<SessionActionView>) -> bool {
    forall|i: int|
        0 <= i < actions.len() ==> (#[trigger] actions[i]) is HandleMessage || actions[i] is Send
}

/// What a session has done once its track is being added.
pub open spec fn opening() -> Seq<SessionActionView> {
    seq![SessionActionView::OpenConnection, SessionActionView::AddTrack]
}

/// What a session has done that went live and then talked.
pub open spec fn lived(talk: Seq<SessionActionView>) -> Seq<SessionActionView> {
    opening() + go_live() + talk
}

/// What a session has done that went live, talked and stopped its writer.
pub open spec fn ended(talk: Seq<SessionActionView>) -> Seq<SessionActionView> {
    lived(talk).push(SessionActionView::AbortWriter)
}

/// What a session has done that went live, talked and was closed.
pub open spec fn closed_after(talk: Seq<SessionActionView>) -> Seq<SessionActionView> {
    ended(talk).push(SessionActionView::CloseConnection)
}

/// Everything that a session in this phase can have done.
pub open spec fn session_shape(phase: SessionPhase, actions: Seq<SessionActionView>) -> bool {
    match phase {
        SessionPhase::Connecting => actions == seq![SessionActionView::OpenConnection],
        SessionPhase::AddingTrack => actions == opening(),
        SessionPhase::Signaling => exists|talk: Seq<SessionActionView>|
            is_talk(talk) && actions == #[trigger] lived(talk),
        SessionPhase::StoppingWriter => exists|talk: Seq<SessionActionView>|
            is_talk(talk) && actions == #[trigger] ended(talk),
        SessionPhase::Closing => {
            ||| actions == opening().push(SessionActionView::CloseConnection)
            ||| exists|talk: Seq<SessionActionView>|
                is_talk(talk) && actions == #[trigger] closed_after(talk)
        },
        SessionPhase::Finished => {
            ||| actions == seq![SessionActionView::OpenConnection]
            ||| actions == opening().push(SessionActionView::CloseConnection)
            ||| exists|talk: Seq<SessionActionView>|
                is_talk(talk) && actions == #[trigger] closed_after(talk)
        },
    }
}

/// Whatever happens to a session, what it does has one of a few shapes: it
/// opens, may go live and talk, and is then wound down in order.
pub proof fn sessions_have_shape(events: Seq<SessionEventView>)
    ensures
        session_shape(session_run(events).0, session_run(events).1),
    decreases events.len(),
{
    if events.len() > 0 {
        sessions_have_shape(events.drop_last());
        let (phase, done) = session_run(events.drop_last());
        let (next, more) = session_after(phase, events.last());
        if more.len() == 0 {
            assert(done + more == done);
        } else {
            match phase {
                SessionPhase::Connecting => {
                    assert(done + more == opening());
                },
                SessionPhase::AddingTrack => {
                    let quiet = Seq::<SessionActionView>::empty();
                    assert(is_talk(quiet));
                    assert(next is Signaling ==> done + more == lived(quiet));
                    assert(next is Closing ==> done + more == opening().push(
                        SessionActionView::CloseConnection,
                    ));
                },
                SessionPhase::Signaling => {
                    let talk = choose|talk: Seq<SessionActionView>|
                        is_talk(talk) && done == #[trigger] lived(talk);
                    if next is Signaling {
                        let longer = talk.push(more[0]);
                        assert(is_talk(longer));
                        assert(done + more == lived(longer));
                    } else {
                        assert(done + more == ended(talk));
                    }
                },
                SessionPhase::StoppingWriter => {
                    let talk = choose|talk: Seq<SessionActionView>|
                        is_talk(talk) && done == #[trigger] ended(talk);
                    assert(done + more == closed_after(talk));
                },
                SessionPhase::Closing => {},
                SessionPhase::Finished => {},
            }
        }
    }
}

/// The positions at which an action is done.
pub open spec fn done_at(actions: Seq<SessionActionView>, action: SessionActionView, i: int) -> bool {
    0 <= i < actions.len() && actions[i] == action
}

/// The phases in which a session holds its slot.
pub open spec fn holds_slot(phase: SessionPhase) -> bool {
    !(phase is Finished)
}

/// How often a session drops a slot in the course of these events.
pub open spec fn slots_let_go(events: Seq<SessionEventView>) -> nat
    decreases events.len(),
{
    if events.len() == 0 {
        0
    } else {
        let held = holds_slot(session_run(events.drop_last()).0);
        let still = holds_slot(session_run(events).0);
        slots_let_go(events.drop_last()) + (if held && !still {
            1nat
        } else {
            0nat
        })
    }
}

/// How often the slot is dropped in all where a session is dropped, finished or
/// cancelled, after these events: in the course of the events, and with the
/// session where it holds the slot still.
pub open spec fn slot_drops(events: Seq<SessionEventView>) -> nat {
    slots_let_go(events) + (if holds_slot(session_run(events).0) {
        1nat
    } else {
        0nat
    })
}

/// Wherever a session ends, finished or cut off after any event, its slot is
/// dropped exactly once.
pub proof fn slot_is_dropped_once(events: Seq<SessionEventView>)
    ensures
        slot_drops(events) == 1,
    decreases events.len(),
{
    if events.len() > 0 {
        slot_is_dropped_once(events.drop_last());
    }
}

/// A slot given back this many times.
pub open spec fn given_back(peer: int, times: nat) -> Seq<(int, CountStep)> {
    Seq::new(times, |i: int| (peer, CountStep::GivenBack))
}

/// A peer whose session ends, in whatever way and after whatever events, takes
/// exactly one off the peer count, and holds no slot after that.
pub proof fn every_exit_frees_the_slot(
    events: Seq<SessionEventView>,
    history: Seq<(int, CountStep)>,
    peer: int,
    limit: usize,
)
    requires
        is_history(history, limit),
        holders(history).contains(peer),
    ensures
        ({
            let after = history + given_back(peer, slot_drops(events));
            &&& is_history(after, limit)
            &&& count_held(after) == count_held(history) - 1
            &&& !holders(after).contains(peer)
        }),
{
    slot_is_dropped_once(events);
    dropped_slot_is_free_again(history, peer, limit);
    assert(history + given_back(peer, 1) == history.push((peer, CountStep::GivenBack)));
}

/// The connection of a peer with a running writer is closed only after the
/// writer was aborted.
pub proof fn writer_stops_before_close(events: Seq<SessionEventView>, start: int, close: int)
    requires
        done_at(session_run(events).1, SessionActionView::StartWriter, start),
        done_at(session_run(events).1, SessionActionView::CloseConnection, close),
    ensures
        start < close - 1,
        done_at(session_run(events).1, SessionActionView::AbortWriter, close - 1),
{
    sessions_have_shape(events);
}

/// Before a peer's first message is handled or candidate sent, its track is
/// there, the frames are subscribed to and the connection is registered.
pub proof fn signaling_comes_after_subscribing(events: Seq<SessionEventView>, i: int)
    requires
        0 <= i < session_run(events).1.len(),
        session_run(events).1[i] is HandleMessage || session_run(events).1[i] is Send,
    ensures
        i >= 8,
        session_run(events).1.take(8) == opening() + go_live(),
{
    sessions_have_shape(events);
    assert(session_run(events).1.take(8) == opening() + go_live());
}

/// A peer is registered at most once and asks for at most one keyframe, and
/// one that is signaling has done both.
pub proof fn peer_registers_once(events: Seq<SessionEventView>, i: int)
    ensures
        session_run(events).0 is Signaling ==> done_at(
            session_run(events).1,
            SessionActionView::Register,
            3,
        ) && done_at(session_run(events).1, SessionActionView::RequestKeyframe, 4),
        done_at(session_run(events).1, SessionActionView::Register, i) ==> i == 3,
        done_at(session_run(events).1, SessionActionView::RequestKeyframe, i) ==> i == 4,
{
    sessions_have_shape(events);
}

/// What a session does about each event while it is being set up: a connection
/// gets its track, and a track makes it go live, in this order; a failure ends it,
/// with the connection closed where there is one.
pub proof fn setup_goes_live_or_ends(event: SessionEventView)
    ensures
        session_after(SessionPhase::Connecting, event).0 == (match event {
            SessionEventView::Connected => SessionPhase::AddingTrack,
            SessionEventView::ConnectFailed => SessionPhase::Finished,
            _ => SessionPhase::Connecting,
        }),
        session_after(SessionPhase::Connecting, event).1 == (if event is Connected {
            seq![SessionActionView::AddTrack]
        } else {
            seq![]
        }),
        session_after(SessionPhase::AddingTrack, event).0 == (match event {
            SessionEventView::TrackAdded => SessionPhase::Signaling,
            SessionEventView::TrackRefused => SessionPhase::Closing,
            _ => SessionPhase::AddingTrack,
        }),
        session_after(SessionPhase::AddingTrack, event).1 == (match event {
            SessionEventView::TrackAdded => seq![
                SessionActionView::Subscribe,
                SessionActionView::Register,
                SessionActionView::RequestKeyframe,
                SessionActionView::StartWriter,
                SessionActionView::WatchConnection,
                SessionActionView::WatchCandidates,
            ],
            SessionEventView::TrackRefused => seq![SessionActionView::CloseConnection],
            _ => seq![],
        }),
{
}

/// Every text that comes while signaling is handled, once and as it is, and the
/// session goes on.
pub proof fn every_text_is_handled(text: Seq<char>)
    ensures
        session_after(SessionPhase::Signaling, SessionEventView::Text(text)) == (
            SessionPhase::Signaling,
            seq![SessionActionView::HandleMessage(text)],
        ),
{
}

/// Every candidate of ours that is found while signaling is sent to the browser,
/// once, as a candidate message with all its parts, and the session goes on.
pub proof fn every_candidate_is_sent(c: IceCandidateView)
    ensures
        ({
            let (phase, actions) = session_after(
                SessionPhase::Signaling,
                SessionEventView::LocalCandidate(c),
            );
            &&& phase is Signaling
            &&& actions.len() == 1
            &&& exists|items: Seq<(Seq<char>, crate::json::ItemView)>|
                actions[0] == SessionActionView::Send(#[trigger] json_text(items)) && object_json(
                    items,
                ) == Json::Object(
                    seq![
                        (Json::Text("type"@), Json::Text("candidate"@)),
                        (Json::Text("candidate"@), Json::Text(c.candidate)),
                        (
                            Json::Text("sdpMid"@),
                            match c.sdp_mid {
                                Some(s) => Json::Text(s),
                                None => Json::Null,
                            },
                        ),
                        (
                            Json::Text("sdpMLineIndex"@),
                            match c.sdp_mline_index {
                                Some(n) => Json::Natural(n as u64),
                                None => Json::Null,
                            },
                        ),
                    ] + (match c.username_fragment {
                        Some(s) => seq![(Json::Text("usernameFragment"@), Json::Text(s))],
                        None => seq![],
                    }),
                )
        }),
{
    messages_on_the_wire(SignalView::Candidate { candidate: c });
}

/// Signaling ends when the socket is closed or a send fails, and at nothing else;
/// then, and only then, the writer is aborted. What is neither a text nor a
/// candidate is passed over.
pub proof fn signaling_ends_with_the_socket(event: SessionEventView)
    ensures
        ({
            let (phase, actions) = session_after(SessionPhase::Signaling, event);
            let ends = event is SocketClosed || event is SendFailed;
            &&& phase == if ends {
                SessionPhase::StoppingWriter
            } else {
                SessionPhase::Signaling
            }
            &&& ends ==> actions == seq![SessionActionView::AbortWriter]
            &&& !ends && !(event is Text) && !(event is LocalCandidate) ==> actions.len() == 0
        }),
{
}

/// A session winds down in order, each step once the one before it is done: the
/// writer has stopped, then the connection is closed, then it is finished for
/// good.
pub proof fn sessions_wind_down_step_by_step(event: SessionEventView)
    ensures
        session_after(SessionPhase::StoppingWriter, event) == (if event is WriterStopped {
            (SessionPhase::Closing, seq![SessionActionView::CloseConnection])
        } else {
            (SessionPhase::StoppingWriter, seq![])
        }),
        session_after(SessionPhase::Closing, event) == (if event is ConnectionClosed {
            (SessionPhase::Finished, Seq::<SessionActionView>::empty())
        } else {
            (SessionPhase::Closing, seq![])
        }),
        session_after(SessionPhase::Finished, event) == (
            SessionPhase::Finished,
            Seq::<SessionActionView>::empty(),
        ),
{
}

/// The slot is held until the session is finished, through every phase before.
pub proof fn slot_is_held_until_finished(phase: SessionPhase)
    ensures
        holds_slot(phase) <==> phase != SessionPhase::Finished,
{
}

/// The texts that came while signaling, in order.
pub open spec fn texts_received(events: Seq<SessionEventView>) -> Seq<Seq<char>>
    decreases events.len(),
{
    if events.len() == 0 {
        Seq::empty()
    } else {
        let before = texts_received(events.drop_last());
        match events.last() {
            SessionEventView::Text(text) => if session_run(events.drop_last()).0 is Signaling {
                before.push(text)
            } else {
                before
            },
            _ => before,
        }
    }
}

/// The texts that were handled, in order.
pub open spec fn texts_handled(actions: Seq<SessionActionView>) -> Seq<Seq<char>>
    decreases actions.len(),
{
    if actions.len() == 0 {
        Seq::empty()
    } else {
        let before = texts_handled(actions.drop_last());
        match actions.last() {
            SessionActionView::HandleMessage(text) => before.push(text),
            _ => before,
        }
    }
}

proof fn lemma_texts_handled_in_parts(a: Seq<SessionActionView>, b: Seq<SessionActionView>)
    ensures
        texts_handled(a + b) == texts_handled(a) + texts_handled(b),
    decreases b.len(),
{
    if b.len() == 0 {
        assert(a + b =~= a);
        assert(texts_handled(a + b) =~= texts_handled(a) + texts_handled(b));
    } else {
        assert((a + b).drop_last() =~= a + b.drop_last());
        lemma_texts_handled_in_parts(a, b.drop_last());
        assert(texts_handled(a + b) =~= texts_handled(a) + texts_handled(b));
    }
}

proof fn lemma_no_texts_handled(actions: Seq<SessionActionView>)
    requires
        forall|i: int| 0 <= i < actions.len() ==> !((#[trigger] actions[i]) is HandleMessage),
    ensures
        texts_handled(actions).len() == 0,
    decreases actions.len(),
{
    if actions.len() > 0 {
        let shorter = actions.drop_last();
        assert forall|i: int| 0 <= i < shorter.len() implies !((
        #[trigger] shorter[i]) is HandleMessage) by {
            assert(shorter[i] == actions[i]);
        }
        lemma_no_texts_handled(shorter);
        assert(!(actions[actions.len() - 1] is HandleMessage));
    }
}

/// Over any run, the texts that are handled are exactly those that came while
/// signaling, in order, none left out and none made up.
pub proof fn texts_are_handled_as_they_come(events: Seq<SessionEventView>)
    ensures
        texts_handled(session_run(events).1) == texts_received(events),
    decreases events.len(),
{
    if events.len() == 0 {
        lemma_no_texts_handled(session_run(events).1);
        assert(texts_handled(session_run(events).1) =~= texts_received(events));
    } else {
        let shorter = events.drop_last();
        texts_are_handled_as_they_come(shorter);
        let (phase, done) = session_run(shorter);
        let (_, more) = session_after(phase, events.last());
        lemma_texts_handled_in_parts(done, more);
        if let SessionEventView::Text(text) = events.last() {
            if phase is Signaling {
                assert(more =~= seq![SessionActionView::HandleMessage(text)]);
                assert(more.drop_last() =~= Seq::<SessionActionView>::empty());
                assert(texts_handled(Seq::<SessionActionView>::empty()).len() == 0);
                assert(texts_handled(more) =~= seq![text]);
            } else {
                lemma_no_texts_handled(more);
            }
        } else {
            lemma_no_texts_handled(more);
        }
        assert(texts_handled(session_run(events).1) =~= texts_received(events));
    }
}

} // verus!
