//! Decision rules of the bounded request/reply primitive.
//!
//! A roundtrip enqueues a request onto a bounded queue together with a
//! single-use reply slot, then waits for the reply.  Both waits are
//! bounded: the enqueue by the send timeout, the reply by the larger
//! reply timeout.  The waiting itself is the runtime's business; the
//! rules below fix what each observed outcome must turn into.

use vstd::prelude::*;

verus! {

/// Why a roundtrip failed.
#[derive(Debug, Clone, Copy, PartialEq, Eq, Structural)]
pub enum RoundtripError {
    /// The request could not be enqueued: the queue stayed full past
    /// the send timeout, or no reader of the queue remains.
    SendFailed,
    /// No reply arrived: the reply timeout elapsed, or the serving
    /// task dropped the reply slot without writing into it.
    ReplyFailed,
}

/// What became of enqueuing a request onto the bounded queue.
#[derive(Debug, Clone, Copy, PartialEq, Eq, Structural)]
pub enum SendOutcome {
    /// The queue accepted the request before the send timeout.
    Sent,
    /// The queue was still full when the send timeout elapsed.
    TimedOut,
    /// The receiving side of the queue is gone.
    Closed,
}

/// What became of waiting on the reply slot.
#[derive(Debug)]
pub enum ReplyOutcome<R> {
    /// The serving task wrote this reply before the reply timeout.
    Replied(R),
    /// The reply timeout elapsed with the slot still empty.
    TimedOut,
    /// The serving task dropped the slot without replying.
    WriterDropped,
}

/// What an enqueue outcome turns into.
pub open spec fn spec_send_result(send: SendOutcome) -> Result<(), RoundtripError> {
    if send is Sent {
        Ok(())
    } else {
        Err(RoundtripError::SendFailed)
    }
}

/// What a reply-wait outcome turns into.
pub open spec fn spec_reply_result<R>(reply: ReplyOutcome<R>) -> Result<R, RoundtripError> {
    match reply {
        ReplyOutcome::Replied(v) => Ok(v),
        ReplyOutcome::TimedOut => Err(RoundtripError::ReplyFailed),
        ReplyOutcome::WriterDropped => Err(RoundtripError::ReplyFailed),
    }
}

/// The result of a whole roundtrip: a failed enqueue fails with the
/// send error before any reply is awaited; otherwise the reply's
/// outcome decides.
pub open spec fn spec_roundtrip_result<R>(send: SendOutcome, reply: ReplyOutcome<R>) -> Result<
    R,
    RoundtripError,
> {
    if send is Sent {
        spec_reply_result(reply)
    } else {
        Err(RoundtripError::SendFailed)
    }
}

/// Decision taken right after the enqueue attempt.
pub fn send_result(send: SendOutcome) -> (r: Result<(), RoundtripError>)
    ensures
        r == spec_send_result(send),
{
    match send {
        SendOutcome::Sent => Ok(()),
        SendOutcome::TimedOut => Err(RoundtripError::SendFailed),
        SendOutcome::Closed => Err(RoundtripError::SendFailed),
    }
}

/// Decision taken once the reply wait has resolved.
pub fn reply_result<R>(reply: ReplyOutcome<R>) -> (r: Result<R, RoundtripError>)
    ensures
        r == spec_reply_result(reply),
{
    match reply {
        ReplyOutcome::Replied(v) => Ok(v),
        ReplyOutcome::TimedOut => Err(RoundtripError::ReplyFailed),
        ReplyOutcome::WriterDropped => Err(RoundtripError::ReplyFailed),
    }
}

/// Law: when the request is enqueued and the receiver replies before
/// the reply timeout, the roundtrip returns exactly the delivered
/// reply; when the receiver is dropped without replying, it fails with
/// the reply error instead of hanging on.
pub proof fn lemma_roundtrip_reply<R>(send: SendOutcome, reply: ReplyOutcome<R>)
    requires
        send is Sent,
    ensures
        reply matches ReplyOutcome::Replied(v) ==> spec_roundtrip_result(send, reply) == Ok::<
            R,
            RoundtripError,
        >(v),
        reply is WriterDropped ==> spec_roundtrip_result(send, reply) == Err::<
            R,
            RoundtripError,
        >(RoundtripError::ReplyFailed),
        reply is TimedOut ==> spec_roundtrip_result(send, reply) == Err::<
            R,
            RoundtripError,
        >(RoundtripError::ReplyFailed),
{
}

/// Law: when the queue is still full past the send timeout, or has no
/// reader left, the roundtrip fails fast with the send error; no reply
/// outcome can change that.
pub proof fn lemma_roundtrip_send_failure<R>(send: SendOutcome, reply: ReplyOutcome<R>)
    requires
        !(send is Sent),
    ensures
        spec_roundtrip_result(send, reply) == Err::<R, RoundtripError>(RoundtripError::SendFailed),
{
}

} // verus!
