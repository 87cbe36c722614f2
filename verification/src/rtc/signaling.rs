//! What is done about a signaling message.
//!
//! An [`Exchange`] decides; the task that owns the peer connection performs
//! each [`Step`] and reports its [`Outcome`].
use vstd::prelude::*;
use webrtc::peer_connection::sdp::session_description::RTCSessionDescription;

use crate::json::{json_text, ItemView};
use crate::signal::{
    signal_fields, signal_of, signal_read, IceCandidateInit, IceCandidateView, Signal, SignalError,
    SignalView,
};

verus! {

#[verifier::external_type_specification]
#[verifier::external_body]
pub struct ExSessionDescription(RTCSessionDescription);

/// The session description that `webrtc` makes of an offer's SDP, or `None`
/// where it is no SDP.
pub uninterp spec fn offer_described(sdp: Seq<char>) -> Option<RTCSessionDescription>;

/// Calls `RTCSessionDescription::offer`. The claim is only that the outcome is
/// a function of the SDP.
#[verifier::external_body]
fn describe_offer(sdp: String) -> (described: Result<RTCSessionDescription, webrtc::Error>)
    ensures
        described matches Ok(offer) ==> offer_described(sdp@) == Some(offer),
        described is Err ==> offer_described(sdp@) is None,
{
    RTCSessionDescription::offer(sdp)
}

/// What an exchange is waiting for.
#[derive(Debug)]
pub enum Exchange {
    /// The remote description is being set.
    AwaitRemote,
    /// The answer is being created.
    AwaitAnswer,
    /// The local description is being set to the answer with this SDP.
    AwaitLocal { sdp: String },
    /// The answer is being sent.
    AwaitSend,
    /// The candidate is being added.
    AwaitCandidate,
    /// Nothing is left to do.
    Finished,
}

/// What an [`Exchange`] holds.
pub enum ExchangeView {
    AwaitRemote,
    AwaitAnswer,
    AwaitLocal { sdp: Seq<char> },
    AwaitSend,
    AwaitCandidate,
    Finished,
}

/// How an exchange ended.
#[derive(Clone, Copy, Debug, PartialEq, Eq, Structural)]
pub enum Ending {
    /// The text was no signaling message.
    BadMessage(SignalError),
    /// The offer's SDP could not be parsed.
    BadOffer,
    /// The remote description was refused.
    RemoteRefused,
    /// No answer could be created.
    NoAnswer,
    /// The local description was refused.
    LocalRefused,
    /// The answer went out.
    Answered,
    /// The candidate was taken.
    CandidateAdded,
    /// The candidate was refused.
    CandidateRefused,
    /// The browser sent an answer. The server is always the answerer: ignored.
    UnexpectedAnswer,
    /// The exchange was over before.
    Over,
}

/// What is to be done next.
pub enum Step {
    /// Set the remote description to this offer.
    SetRemote { offer: RTCSessionDescription },
    /// Create an answer.
    CreateAnswer,
    /// Set the local description to the answer.
    SetLocal,
    /// Send this text to the browser.
    Send { text: String },
    /// Add this ICE candidate.
    AddCandidate { candidate: IceCandidateInit },
    /// Nothing more.
    Done(Ending),
}

/// What a [`Step`] holds.
pub enum StepView {
    SetRemote { offer: RTCSessionDescription },
    CreateAnswer,
    SetLocal,
    Send { text: Seq<char> },
    AddCandidate { candidate: IceCandidateView },
    Done(Ending),
}

/// What became of a step.
#[derive(Debug)]
pub enum Outcome {
    Succeeded,
    Failed,
    /// An answer with this SDP was created.
    Answer { sdp: String },
}

/// What an [`Outcome`] holds.
pub enum OutcomeView {
    Succeeded,
    Failed,
    Answer { sdp: Seq<char> },
}

impl View for Exchange {
    type V = ExchangeView;

    open spec fn view(&self) -> ExchangeView {
        match self {
            Exchange::AwaitRemote => ExchangeView::AwaitRemote,
            Exchange::AwaitAnswer => ExchangeView::AwaitAnswer,
            Exchange::AwaitLocal { sdp } => ExchangeView::AwaitLocal { sdp: sdp@ },
            Exchange::AwaitSend => ExchangeView::AwaitSend,
            Exchange::AwaitCandidate => ExchangeView::AwaitCandidate,
            Exchange::Finished => ExchangeView::Finished,
        }
    }
}

impl View for Step {
    type V = StepView;

    open spec fn view(&self) -> StepView {
        match self {
            Step::SetRemote { offer } => StepView::SetRemote { offer: *offer },
            Step::CreateAnswer => StepView::CreateAnswer,
            Step::SetLocal => StepView::SetLocal,
            Step::Send { text } => StepView::Send { text: text@ },
            Step::AddCandidate { candidate } => StepView::AddCandidate { candidate: candidate@ },
            Step::Done(ending) => StepView::Done(*ending),
        }
    }
}

impl View for Outcome {
    type V = OutcomeView;

    open spec fn view(&self) -> OutcomeView {
        match self {
            Outcome::Succeeded => OutcomeView::Succeeded,
            Outcome::Failed => OutcomeView::Failed,
            Outcome::Answer { sdp } => OutcomeView::Answer { sdp: sdp@ },
        }
    }
}

/// The end of an exchange.
pub open spec fn over(ending: Ending) -> (ExchangeView, StepView) {
    (ExchangeView::Finished, StepView::Done(ending))
}

/// The first step for an offer that was parsed, or could not be.
pub open spec fn offer_start(offer: Option<RTCSessionDescription>) -> (ExchangeView, StepView) {
    match offer {
        Some(offer) => (ExchangeView::AwaitRemote, StepView::SetRemote { offer }),
        None => over(Ending::BadOffer),
    }
}

/// The first step for what was read from the browser.
pub open spec fn exchange_start(read: Result<SignalView, SignalError>) -> (
    ExchangeView,
    StepView,
) {
    match read {
        Err(e) => over(Ending::BadMessage(e)),
        Ok(SignalView::Offer { sdp }) => offer_start(offer_described(sdp)),
        Ok(SignalView::Candidate { candidate }) => (
            ExchangeView::AwaitCandidate,
            StepView::AddCandidate { candidate },
        ),
        Ok(SignalView::Answer { .. }) => over(Ending::UnexpectedAnswer),
    }
}

/// The text of an answer on the wire.
pub open spec fn answer_text(sdp: Seq<char>) -> Seq<char> {
    json_text(signal_fields(SignalView::Answer { sdp }))
}

/// The next step after the outcome of one. A failure ends the exchange; only
/// that of sending the answer is passed over.
pub open spec fn exchange_after(exchange: ExchangeView, outcome: OutcomeView) -> (
    ExchangeView,
    StepView,
) {
    match exchange {
        ExchangeView::AwaitRemote => if outcome is Failed {
            over(Ending::RemoteRefused)
        } else {
            (ExchangeView::AwaitAnswer, StepView::CreateAnswer)
        },
        ExchangeView::AwaitAnswer => match outcome {
            OutcomeView::Answer { sdp } => (ExchangeView::AwaitLocal { sdp }, StepView::SetLocal),
            _ => over(Ending::NoAnswer),
        },
        ExchangeView::AwaitLocal { sdp } => if outcome is Failed {
            over(Ending::LocalRefused)
        } else {
            (ExchangeView::AwaitSend, StepView::Send { text: answer_text(sdp) })
        },
        ExchangeView::AwaitSend => over(Ending::Answered),
        ExchangeView::AwaitCandidate => if outcome is Failed {
            over(Ending::CandidateRefused)
        } else {
            over(Ending::CandidateAdded)
        },
        ExchangeView::Finished => over(Ending::Over),
    }
}

/// The first step for an offer that was parsed, or could not be.
pub fn begin_with_offer(offer: Option<RTCSessionDescription>) -> (begun: (Exchange, Step))
    ensures
        (begun.0@, begun.1@) == offer_start(offer),
        offer matches Some(o) ==> begun.0 is AwaitRemote && (
        begun.1 matches Step::SetRemote { offer: set } && set == o),
        offer is None ==> begun.0 is Finished && begun.1 == Step::Done(Ending::BadOffer),
{
    match offer {
        Some(offer) => (Exchange::AwaitRemote, Step::SetRemote { offer }),
        None => (Exchange::Finished, Step::Done(Ending::BadOffer)),
    }
}

/// The first step for what was read from the browser.
pub fn begin(read: Result<Signal, SignalError>) -> (begun: (Exchange, Step))
    ensures
        (begun.0@, begun.1@) == exchange_start(signal_read(read)),
        (match read {
            Err(e) => begun.0 is Finished && begun.1 == Step::Done(Ending::BadMessage(e)),
            Ok(Signal::Offer { sdp }) => match offer_described(sdp@) {
                Some(offer) => begun.0 is AwaitRemote && begun.1 == (Step::SetRemote { offer }),
                None => begun.0 is Finished && begun.1 == Step::Done(Ending::BadOffer),
            },
            Ok(Signal::Candidate { candidate }) => begun.0 is AwaitCandidate && begun.1 == (
            Step::AddCandidate { candidate }),
            Ok(Signal::Answer { sdp }) => begun.0 is Finished && begun.1 == Step::Done(
                Ending::UnexpectedAnswer,
            ),
        }),
{
    match read {
        Err(e) => (Exchange::Finished, Step::Done(Ending::BadMessage(e))),
        Ok(Signal::Offer { sdp }) => match describe_offer(sdp) {
            Ok(offer) => begin_with_offer(Some(offer)),
            Err(_) => begin_with_offer(None),
        },
        Ok(Signal::Candidate { candidate }) => (
            Exchange::AwaitCandidate,
            Step::AddCandidate { candidate },
        ),
        Ok(Signal::Answer { sdp: _ }) => (
            Exchange::Finished,
            Step::Done(Ending::UnexpectedAnswer),
        ),
    }
}

/// Takes in an inbound signaling message (SDP offer or ICE candidate); returns
/// the exchange that it starts and its first step.
pub fn handle_message(raw: &str) -> (begun: (Exchange, Step))
    ensures
        (begun.0@, begun.1@) == exchange_start(signal_of(raw@)),
        (match signal_of(raw@) {
            Err(e) => begun.0 is Finished && begun.1 == Step::Done(Ending::BadMessage(e)),
            Ok(SignalView::Offer { sdp }) => match offer_described(sdp) {
                Some(offer) => begun.0 is AwaitRemote && begun.1 == (Step::SetRemote { offer }),
                None => begun.0 is Finished && begun.1 == Step::Done(Ending::BadOffer),
            },
            Ok(SignalView::Candidate { candidate }) => begun.0 is AwaitCandidate && (
            begun.1 matches Step::AddCandidate { candidate: added } && added@ == candidate),
            Ok(SignalView::Answer { .. }) => begun.0 is Finished && begun.1 == Step::Done(
                Ending::UnexpectedAnswer,
            ),
        }),
{
    begin(Signal::from_json(raw))
}

impl Exchange {
    /// The next step after the outcome of one.
    pub fn step(self, outcome: Outcome) -> (next: (Exchange, Step))
        ensures
            (next.0@, next.1@) == exchange_after(self@, outcome@),
            (match self {
                Exchange::AwaitRemote => if outcome is Failed {
                    next.0 is Finished && next.1 == Step::Done(Ending::RemoteRefused)
                } else {
                    next.0 is AwaitAnswer && next.1 is CreateAnswer
                },
                Exchange::AwaitAnswer => match outcome {
                    Outcome::Answer { sdp } => next.0 == (Exchange::AwaitLocal { sdp })
                        && next.1 is SetLocal,
                    _ => next.0 is Finished && next.1 == Step::Done(Ending::NoAnswer),
                },
                Exchange::AwaitLocal { sdp } => if outcome is Failed {
                    next.0 is Finished && next.1 == Step::Done(Ending::LocalRefused)
                } else {
                    next.0 is AwaitSend && (next.1 matches Step::Send { text } && text@ == json_text(
                        seq![
                            ("type"@, ItemView::Text("answer"@)),
                            ("sdp"@, ItemView::Text(sdp@)),
                        ],
                    ) && signal_of(text@) == Ok::<SignalView, SignalError>(
                        (SignalView::Answer { sdp: sdp@ }),
                    ))
                },
                Exchange::AwaitSend => next.0 is Finished && next.1 == Step::Done(
                    Ending::Answered,
                ),
                Exchange::AwaitCandidate => next.0 is Finished && next.1 == Step::Done(
                    if outcome is Failed {
                        Ending::CandidateRefused
                    } else {
                        Ending::CandidateAdded
                    },
                ),
                Exchange::Finished => next.0 is Finished && next.1 == Step::Done(Ending::Over),
            }),
    {
        match self {
            Exchange::AwaitRemote => match outcome {
                Outcome::Failed => (Exchange::Finished, Step::Done(Ending::RemoteRefused)),
                _ => (Exchange::AwaitAnswer, Step::CreateAnswer),
            },
            Exchange::AwaitAnswer => match outcome {
                Outcome::Answer { sdp } => (Exchange::AwaitLocal { sdp }, Step::SetLocal),
                _ => (Exchange::Finished, Step::Done(Ending::NoAnswer)),
            },
            Exchange::AwaitLocal { sdp } => match outcome {
                Outcome::Failed => (Exchange::Finished, Step::Done(Ending::LocalRefused)),
                _ => {
                    let answer = Signal::Answer { sdp };
                    (Exchange::AwaitSend, Step::Send { text: answer.to_json() })
                },
            },
            Exchange::AwaitSend => (Exchange::Finished, Step::Done(Ending::Answered)),
            Exchange::AwaitCandidate => match outcome {
                Outcome::Failed => (Exchange::Finished, Step::Done(Ending::CandidateRefused)),
                _ => (Exchange::Finished, Step::Done(Ending::CandidateAdded)),
            },
            Exchange::Finished => (Exchange::Finished, Step::Done(Ending::Over)),
        }
    }
}

/// What an exchange waits for after these outcomes, and its last step.
pub open spec fn exchange_run(read: Result<SignalView, SignalError>, outcomes: Seq<OutcomeView>) -> (
    ExchangeView,
    StepView,
)
    decreases outcomes.len(),
{
    if outcomes.len() == 0 {
        exchange_start(read)
    } else {
        exchange_after(exchange_run(read, outcomes.drop_last()).0, outcomes.last())
    }
}

/// An offer that `webrtc` accepts is answered with the SDP that `webrtc`
/// creates for it.
pub proof fn offer_is_answered(sdp: Seq<char>, answer: Seq<char>)
    ensures
        offer_described(sdp) is Some ==> exchange_run(
            Ok(SignalView::Offer { sdp }),
            seq![
                OutcomeView::Succeeded,
                OutcomeView::Answer { sdp: answer },
                OutcomeView::Succeeded,
            ],
        ).1 == (StepView::Send { text: answer_text(answer) }),
{
    let read = Ok(SignalView::Offer { sdp });
    let none = Seq::<OutcomeView>::empty();
    let one = none.push(OutcomeView::Succeeded);
    let two = one.push(OutcomeView::Answer { sdp: answer });
    let three = two.push(OutcomeView::Succeeded);
    assert(one.drop_last() == none);
    assert(two.drop_last() == one);
    assert(three.drop_last() == two);
    if offer_described(sdp) is Some {
        assert(exchange_run(read, none).0 == ExchangeView::AwaitRemote);
        assert(exchange_run(read, one).0 == ExchangeView::AwaitAnswer);
        assert(exchange_run(read, two).0 == (ExchangeView::AwaitLocal { sdp: answer }));
    }
    assert(three == seq![
        OutcomeView::Succeeded,
        OutcomeView::Answer { sdp: answer },
        OutcomeView::Succeeded,
    ]);
}

/// The outcomes after which an exchange waits for this.
pub open spec fn outcomes_fit(
    read: Result<SignalView, SignalError>,
    outcomes: Seq<OutcomeView>,
    exchange: ExchangeView,
) -> bool {
    let offered = read matches Ok(SignalView::Offer { sdp }) && offer_described(sdp) is Some;
    match exchange {
        ExchangeView::AwaitRemote => offered && outcomes.len() == 0,
        ExchangeView::AwaitAnswer => offered && outcomes.len() == 1 && !(outcomes[0] is Failed),
        ExchangeView::AwaitLocal { sdp } => offered && outcomes.len() == 2 && !(
        outcomes[0] is Failed) && outcomes[1] == (OutcomeView::Answer { sdp }),
        ExchangeView::AwaitSend => offered && outcomes.len() == 3 && !(outcomes[0] is Failed)
            && outcomes[1] is Answer && !(outcomes[2] is Failed),
        ExchangeView::AwaitCandidate => read matches Ok(SignalView::Candidate { .. })
            && outcomes.len() == 0,
        ExchangeView::Finished => true,
    }
}

proof fn lemma_outcomes_fit(read: Result<SignalView, SignalError>, outcomes: Seq<OutcomeView>)
    ensures
        outcomes_fit(read, outcomes, exchange_run(read, outcomes).0),
    decreases outcomes.len(),
{
    if outcomes.len() > 0 {
        lemma_outcomes_fit(read, outcomes.drop_last());
    }
}

/// Nothing is ever sent to the browser but the answer to an offer: the offer
/// was accepted, every step before succeeded, and the text carries the SDP of
/// the answer that was created.
pub proof fn only_answers_are_sent(
    read: Result<SignalView, SignalError>,
    outcomes: Seq<OutcomeView>,
    text: Seq<char>,
)
    requires
        exchange_run(read, outcomes).1 == (StepView::Send { text }),
    ensures
        read matches Ok(SignalView::Offer { sdp }) && offer_described(sdp) is Some,
        outcomes.len() == 3,
        !(outcomes[0] is Failed),
        !(outcomes[2] is Failed),
        outcomes[1] matches OutcomeView::Answer { sdp } && text == answer_text(sdp),
{
    if outcomes.len() > 0 {
        lemma_outcomes_fit(read, outcomes.drop_last());
        assert(outcomes.drop_last()[0] == outcomes[0]);
    }
}

/// An exchange that has ended stays ended and asks for nothing more.
pub proof fn ended_exchange_rests(
    read: Result<SignalView, SignalError>,
    outcomes: Seq<OutcomeView>,
    outcome: OutcomeView,
)
    requires
        exchange_run(read, outcomes).1 is Done,
    ensures
        exchange_run(read, outcomes.push(outcome)) == over(Ending::Over),
{
    assert(outcomes.push(outcome).drop_last() == outcomes);
}

/// An exchange starts by what was read: an offer that `webrtc` accepts is set as
/// the remote description, a candidate is added as it is, and a bad message, an
/// offer that is no SDP and an answer are passed over, each for its own reason.
pub proof fn exchanges_start_by_what_was_read(
    sdp: Seq<char>,
    candidate: IceCandidateView,
    error: SignalError,
)
    ensures
        offer_described(sdp) matches Some(offer) ==> exchange_start(Ok(SignalView::Offer { sdp }))
            == (ExchangeView::AwaitRemote, StepView::SetRemote { offer }),
        offer_described(sdp) is None ==> exchange_start(Ok(SignalView::Offer { sdp })) == (
            ExchangeView::Finished,
            StepView::Done(Ending::BadOffer),
        ),
        exchange_start(Ok(SignalView::Candidate { candidate })) == (
            ExchangeView::AwaitCandidate,
            StepView::AddCandidate { candidate },
        ),
        exchange_start(Ok(SignalView::Answer { sdp })) == (
            ExchangeView::Finished,
            StepView::Done(Ending::UnexpectedAnswer),
        ),
        exchange_start(Err(error)) == (
            ExchangeView::Finished,
            StepView::Done(Ending::BadMessage(error)),
        ),
{
}

/// An answer goes out as a message of that type with the SDP, and nothing else.
pub proof fn answers_carry_their_sdp(sdp: Seq<char>)
    ensures
        answer_text(sdp) == json_text(
            seq![
                ("type"@, ItemView::Text("answer"@)),
                ("sdp"@, ItemView::Text(sdp)),
            ],
        ),
{
}

/// Each step waits for the one before: a description that is set leads to an
/// answer, an answer to the local description, that to the sending of the very
/// answer, and a candidate to nothing more.
pub proof fn exchanges_go_on_step_by_step(outcome: OutcomeView, sdp: Seq<char>)
    requires
        !(outcome is Failed),
    ensures
        exchange_after(ExchangeView::AwaitRemote, outcome) == (
            ExchangeView::AwaitAnswer,
            StepView::CreateAnswer,
        ),
        exchange_after(ExchangeView::AwaitAnswer, OutcomeView::Answer { sdp }) == (
            ExchangeView::AwaitLocal { sdp },
            StepView::SetLocal,
        ),
        exchange_after(ExchangeView::AwaitLocal { sdp }, outcome) == (
            ExchangeView::AwaitSend,
            StepView::Send { text: answer_text(sdp) },
        ),
        exchange_after(ExchangeView::AwaitSend, outcome) == (
            ExchangeView::Finished,
            StepView::Done(Ending::Answered),
        ),
        exchange_after(ExchangeView::AwaitCandidate, outcome) == (
            ExchangeView::Finished,
            StepView::Done(Ending::CandidateAdded),
        ),
{
}

/// A step that fails ends the exchange, each with its own ending, and nothing is
/// sent; only a failure to send the answer is passed over.
pub proof fn failures_end_the_exchange(sdp: Seq<char>)
    ensures
        exchange_after(ExchangeView::AwaitRemote, OutcomeView::Failed) == (
            ExchangeView::Finished,
            StepView::Done(Ending::RemoteRefused),
        ),
        exchange_after(ExchangeView::AwaitAnswer, OutcomeView::Failed) == (
            ExchangeView::Finished,
            StepView::Done(Ending::NoAnswer),
        ),
        exchange_after(ExchangeView::AwaitLocal { sdp }, OutcomeView::Failed) == (
            ExchangeView::Finished,
            StepView::Done(Ending::LocalRefused),
        ),
        exchange_after(ExchangeView::AwaitSend, OutcomeView::Failed) == (
            ExchangeView::Finished,
            StepView::Done(Ending::Answered),
        ),
        exchange_after(ExchangeView::AwaitCandidate, OutcomeView::Failed) == (
            ExchangeView::Finished,
            StepView::Done(Ending::CandidateRefused),
        ),
{
}

} // verus!
