//! The channels between the capture thread, the encoder and the peers.
//!
//! Whether a send or a receive goes through depends on the threads at the
//! other end; the callers handle every outcome. What is on record is the calls
//! themselves: which message each one was given, and what came of it. An end is
//! borrowed mutably for a call because the call adds to that record.
use vstd::prelude::*;

use crate::types::{EncodedFrame, RawFrame};

verus! {

#[verifier::external_type_specification]
#[verifier::external_body]
#[verifier::reject_recursive_types(T)]
pub struct ExSender<T>(crossbeam_channel::Sender<T>);

#[verifier::external_type_specification]
#[verifier::external_body]
#[verifier::reject_recursive_types(T)]
pub struct ExReceiver<T>(crossbeam_channel::Receiver<T>);

#[verifier::external_type_specification]
#[verifier::external_body]
#[verifier::reject_recursive_types(T)]
pub struct ExBroadcastSender<T>(tokio::sync::broadcast::Sender<T>);

#[verifier::external_type_specification]
#[verifier::external_body]
#[verifier::reject_recursive_types(T)]
pub struct ExBroadcastSendError<T>(tokio::sync::broadcast::error::SendError<T>);

/// What became of a frame offered to the bounded channel.
#[derive(Clone, Copy, Debug, PartialEq, Eq, Structural)]
pub enum Offered {
    /// It was appended to the channel.
    Accepted,
    /// The channel had no room for it.
    Full,
    /// No receiver is left.
    Disconnected,
}

/// The frames that were offered to the encoder through this end of the channel,
/// in order, each with what became of it.
pub uninterp spec fn offers(tx: crossbeam_channel::Sender<RawFrame>) -> Seq<(RawFrame, Offered)>;

/// The frames that were broadcast to the peers through this end of the channel,
/// in order.
pub uninterp spec fn broadcasts(tx: tokio::sync::broadcast::Sender<EncodedFrame>) -> Seq<
    EncodedFrame,
>;

/// What each poll for a keyframe request through this end of the channel found,
/// in order: whether a request was waiting, which was then taken.
pub uninterp spec fn polls(rx: crossbeam_channel::Receiver<()>) -> Seq<bool>;

/// Calls `crossbeam_channel::Sender::try_send`, which never blocks. The call
/// goes on the end's record. Which of the three outcomes it has depends on the
/// receivers.
#[verifier::external_body]
pub(crate) fn try_send(tx: &mut crossbeam_channel::Sender<RawFrame>, frame: RawFrame) -> (offered:
    Offered)
    ensures
        offers(*final(tx)) == offers(*old(tx)).push((frame, offered)),
{
    match tx.try_send(frame) {
        Ok(()) => Offered::Accepted,
        Err(crossbeam_channel::TrySendError::Full(_)) => Offered::Full,
        Err(crossbeam_channel::TrySendError::Disconnected(_)) => Offered::Disconnected,
    }
}

/// Calls `crossbeam_channel::Receiver::try_recv`, which never blocks and takes
/// the message that it returns. The call goes on the end's record. Whether
/// there is a message depends on the senders.
#[verifier::external_body]
pub(crate) fn try_recv(rx: &mut crossbeam_channel::Receiver<()>) -> (request: Option<()>)
    ensures
        polls(*final(rx)) == polls(*old(rx)).push(request is Some),
{
    rx.try_recv().ok()
}

/// Calls `tokio::sync::broadcast::Sender::send`. The call goes on the end's
/// record. It succeeds with the number of receivers, never zero; with no
/// receiver it fails and the frame is discarded. Which it is depends on the
/// receivers.
#[verifier::external_body]
pub(crate) fn broadcast_frame(
    tx: &mut tokio::sync::broadcast::Sender<EncodedFrame>,
    frame: EncodedFrame,
) -> (sent: Result<usize, tokio::sync::broadcast::error::SendError<EncodedFrame>>)
    ensures
        broadcasts(*final(tx)) == broadcasts(*old(tx)).push(frame),
        sent matches Ok(receivers) ==> receivers > 0,
{
    tx.send(frame)
}

} // verus!
