//! The channel fabric: bounded tokio channels carry decoded messages between
//! connection tasks and the dispatch loop. Only the non-blocking send stands
//! here; what blocks belongs to the runtime around the library.

use vstd::prelude::*;
use crate::messages::ProtoType;

verus! {

/// One decoded message in flight: connection identity, message type id, and
/// the message itself.
pub type ProtoMsgType = (u64, u32, ProtoType);

#[verifier::external_type_specification]
#[verifier::external_body]
#[verifier::reject_recursive_types(T)]
pub struct ExSender<T>(tokio::sync::mpsc::Sender<T>);

/// The sending end of a connection's bounded message channel.
pub type ProtoSender = tokio::sync::mpsc::Sender<ProtoMsgType>;

/// What one non-blocking send can come to.
#[derive(Debug)]
pub enum SendOutcome {
    /// The channel took the message.
    Sent,
    /// The channel was full; the message comes back untouched.
    Full(ProtoMsgType),
    /// The receiving end is gone; the message comes back untouched.
    Closed(ProtoMsgType),
}

/// Relies on tokio's mpsc::Sender::try_send: it either delivers the message,
/// or hands it back whole in `Full` when the channel has no free slot, or in
/// `Closed` when the receiver has been dropped.
#[verifier::external_body]
pub fn channel_try_send(sender: &ProtoSender, msg: ProtoMsgType) -> (r: SendOutcome)
    ensures
        match r {
            SendOutcome::Sent => true,
            SendOutcome::Full(m) => m == msg,
            SendOutcome::Closed(m) => m == msg,
        },
{
    match sender.try_send(msg) {
        Ok(()) => SendOutcome::Sent,
        Err(tokio::sync::mpsc::error::TrySendError::Full(m)) => SendOutcome::Full(m),
        Err(tokio::sync::mpsc::error::TrySendError::Closed(m)) => SendOutcome::Closed(m),
    }
}

/// The logged code of one send outcome: nothing when the channel took the
/// message, 1 with the payload back on a full channel, 2 on a closed one.
pub fn code_of_outcome(o: SendOutcome) -> (r: Option<(i32, ProtoType)>)
    ensures
        r is None <==> o is Sent,
        o matches SendOutcome::Full(m) ==> (r matches Some(t) && t.0 == 1 && t.1 == m.2),
        o matches SendOutcome::Closed(m) ==> (r matches Some(t) && t.0 == 2 && t.1 == m.2),
{
    match o {
        SendOutcome::Sent => None,
        SendOutcome::Full(m) => Some((1, m.2)),
        SendOutcome::Closed(m) => Some((2, m.2)),
    }
}

/// What a connection's reader does with one send outcome: carry on when the
/// message was taken, drop the message and carry on when the channel was
/// full, stop the whole read loop when it was closed.
#[derive(Debug, PartialEq, Eq, Structural)]
pub enum ReadForward {
    Delivered,
    DroppedFull,
    Stop,
}

/// The reader's forwarding policy over one outcome: never block, tolerate a
/// full downstream queue by dropping, end the connection on a closed one.
pub fn reader_forward_decision(o: &SendOutcome) -> (r: ReadForward)
    ensures
        r == ReadForward::Delivered <==> o is Sent,
        r == ReadForward::DroppedFull <==> o is Full,
        r == ReadForward::Stop <==> o is Closed,
{
    match o {
        SendOutcome::Sent => ReadForward::Delivered,
        SendOutcome::Full(_) => ReadForward::DroppedFull,
        SendOutcome::Closed(_) => ReadForward::Stop,
    }
}

/// The non-blocking send every forwarding path uses: a code for what
/// happened, and the message back when it was not delivered. The codes are
/// those the callers log, mapped from the outcome by `code_of_outcome`:
/// 1 a full channel, 2 a closed one.
pub fn try_send(sender: &ProtoSender, vfd: u64, proto_id: u32, pto: ProtoType) -> (r: Option<
    (i32, ProtoType),
>)
    ensures
        r matches Some(t) ==> (t.0 == 1 || t.0 == 2) && t.1 == pto,
{
    let outcome = channel_try_send(sender, (vfd, proto_id, pto));
    code_of_outcome(outcome)
}

/// Builds the error-feedback message for a connection and sends it with the
/// same non-blocking, drop-on-full policy as ordinary traffic.
pub fn feekback(sender: &ProtoSender, vfd: u64, feedback_id: u32, params: String)
    requires
        vstd::utf8::encode_utf8(params@).len() < 0x10000000,
{
    let sendptoid = crate::messages::c_errors::id();
    let body = crate::messages::c_errors { id: feedback_id, param: params };
    let sendpto = ProtoType::c_errors(body);
    let _ = try_send(sender, vfd, sendptoid, sendpto);
}

} // verus!
