//! The channels that commands reach the connection task on and messages leave it on, as the
//! `tokio` crate provides them.
//!
//! The halves of a channel are opaque. [`offers`] and [`queued`] name what was handed to a channel
//! through a sending half and what became of it, [`received`] and [`polls`] what a receiving half
//! took out and how often it was asked, [`answered`] what a channel for one value was given.
//! [`depth`] names how much a channel holds, and [`linked`] says which halves belong together. The
//! functions below say how each operation changes that.
use tokio::sync::{mpsc, oneshot};
use vstd::prelude::*;

use crate::client::Request;
use crate::command::{ConnCmd, Reply};
use crate::message::{Message, MessageModel};

verus! {

/// `tokio::sync::mpsc::Sender`: the sending half of a bounded channel.
#[verifier::external_type_specification]
#[verifier::external_body]
#[verifier::reject_recursive_types(T)]
pub struct ExSender<T>(mpsc::Sender<T>);

/// `tokio::sync::mpsc::Receiver`: the receiving half of a bounded channel.
#[verifier::external_type_specification]
#[verifier::external_body]
#[verifier::reject_recursive_types(T)]
pub struct ExReceiver<T>(mpsc::Receiver<T>);

/// `tokio::sync::oneshot::Sender`: the sending half of a channel for one value.
#[verifier::external_type_specification]
#[verifier::external_body]
#[verifier::reject_recursive_types(T)]
pub struct ExOneshotSender<T>(oneshot::Sender<T>);

/// What became of a message that was offered to a channel.
#[derive(Clone, Copy, Debug, PartialEq, Eq, Structural)]
pub enum Offer {
    /// The channel took it.
    Accepted,
    /// The channel is full; the message is dropped.
    Full,
    /// The receiving half is gone; the message is dropped.
    Closed,
}

/// The messages that were handed to a channel through this sending half, oldest first, each with
/// what became of it. Those that the channel took are the ones its receiver gets.
pub uninterp spec fn offers(tx: mpsc::Sender<Message>) -> Seq<(MessageModel, Offer)>;

/// How many messages the channel of this sending half holds at most.
pub uninterp spec fn depth(tx: mpsc::Sender<Message>) -> nat;

/// The commands that were handed to the connection task's channel through this sending half,
/// oldest first, each with whether the channel took it.
pub uninterp spec fn queued(tx: mpsc::Sender<Request>) -> Seq<(ConnCmd, bool)>;

/// The messages that were taken out of a channel through this receiving half, oldest first.
pub uninterp spec fn received(rx: mpsc::Receiver<Message>) -> Seq<MessageModel>;

/// How often a channel was asked for a message through this receiving half, whether it had one or
/// not.
pub uninterp spec fn polls(rx: mpsc::Receiver<Message>) -> nat;

/// A receiving half that has not been used.
pub open spec fn untouched(rx: mpsc::Receiver<Message>) -> bool {
    received(rx) == Seq::<MessageModel>::empty() && polls(rx) == 0
}

/// `after` is the receiving half `before` once it was asked for a message, with this outcome. A
/// message that comes out went in through a sending half of the same channel, which took it.
pub open spec fn polled(
    before: mpsc::Receiver<Message>,
    after: mpsc::Receiver<Message>,
    outcome: Option<Message>,
) -> bool {
    &&& polls(after) == polls(before) + 1
    &&& received(after) == match outcome {
        Some(msg) => received(before).push(msg@),
        None => received(before),
    }
    &&& outcome matches Some(msg) ==> exists|tx: mpsc::Sender<Message>| #[trigger]
        linked(tx, before) && offers(tx).contains((msg@, Offer::Accepted))
    &&& forall|tx: mpsc::Sender<Message>| #[trigger] linked(tx, after) == linked(tx, before)
}

/// The message that a oneshot channel was given through this sending half, and whether anyone
/// still waited for it. The half is used up by that, so there is one message at most.
pub uninterp spec fn answered(tx: oneshot::Sender<Message>) -> (MessageModel, bool);

/// Whether messages that are handed in through `tx` come out at `rx`: both are halves of one
/// channel.
pub uninterp spec fn linked(tx: mpsc::Sender<Message>, rx: mpsc::Receiver<Message>) -> bool;

/// `after` is the sending half `before` once `msg` was handed in through it, with this outcome.
pub open spec fn handed_in(
    before: mpsc::Sender<Message>,
    after: mpsc::Sender<Message>,
    msg: MessageModel,
    outcome: Offer,
) -> bool {
    &&& offers(after) == offers(before).push((msg, outcome))
    &&& depth(after) == depth(before)
    &&& forall|rx: mpsc::Receiver<Message>| #[trigger] linked(after, rx) == linked(before, rx)
}

/// The largest capacity that a channel can be made with.
pub open spec fn max_capacity() -> int {
    usize::MAX as int / 8
}

/// `mpsc::channel`: a fresh bounded channel. The crate panics when the capacity is 0 or above
/// its semaphore's limit, so the capacity has to be within that range. The channel holds as many
/// messages as asked for, the two halves belong together, and nothing has gone in or come out
/// yet.
#[verifier::external_body]
pub(crate) fn message_channel(capacity: usize) -> (r: (
    mpsc::Sender<Message>,
    mpsc::Receiver<Message>,
))
    requires
        0 < capacity <= max_capacity(),
    ensures
        offers(r.0) == Seq::<(MessageModel, Offer)>::empty(),
        depth(r.0) == capacity,
        linked(r.0, r.1),
        received(r.1) == Seq::<MessageModel>::empty(),
        polls(r.1) == 0,
{
    mpsc::channel(capacity)
}

/// `mpsc::Sender::try_send`: hands the message to the channel if there is room, without
/// waiting. Whether there is room, and whether anyone still listens, is up to the receiving half.
#[verifier::external_body]
pub(crate) fn offer(tx: &mut mpsc::Sender<Message>, msg: Message) -> (r: Offer)
    ensures
        offers(*final(tx)) == offers(*old(tx)).push((msg@, r)),
        depth(*final(tx)) == depth(*old(tx)),
        forall|rx: mpsc::Receiver<Message>| #[trigger]
            linked(*final(tx), rx) == linked(*old(tx), rx),
{
    match tx.try_send(msg) {
        Ok(()) => Offer::Accepted,
        Err(mpsc::error::TrySendError::Full(_)) => Offer::Full,
        Err(mpsc::error::TrySendError::Closed(_)) => Offer::Closed,
    }
}

/// `mpsc::Sender::try_send`, for commands: hands the request to the connection task if there is
/// room, without waiting. Whether there is room, and whether the task is still there, is up to the
/// task.
#[verifier::external_body]
pub(crate) fn enqueue(tx: &mut mpsc::Sender<Request>, request: Request) -> (taken: bool)
    ensures
        queued(*final(tx)) == queued(*old(tx)).push((request.cmd, taken)),
{
    tx.try_send(request).is_ok()
}

/// `oneshot::channel`: the sending half of a fresh channel for the answer to one command. Its
/// receiving half is dropped, so that nobody hears the answer. Nothing is stated of the result.
#[verifier::external_body]
pub(crate) fn unheard_reply() -> oneshot::Sender<Reply> {
    oneshot::channel().0
}

/// `oneshot::Sender::send`: hands the message to the one waiting for it, and uses the sending half
/// up. Where nobody waits any more the message comes back.
#[verifier::external_body]
pub(crate) fn answer(tx: oneshot::Sender<Message>, msg: Message) -> (r: Result<(), Message>)
    ensures
        answered(tx) == (msg@, r is Ok),
        r matches Err(m) ==> m@ == msg@,
{
    tx.send(msg)
}

/// `mpsc::Receiver::try_recv`: takes the next buffered message out of the channel, if there is
/// one; without a result nothing is taken. A message that comes out is one that the channel took
/// from a sending half. Whether there is one, and which of them it is, is up to the sending halves
/// and not stated; the half stays with its channel.
#[verifier::external_body]
pub(crate) fn poll(rx: &mut mpsc::Receiver<Message>) -> (r: Option<Message>)
    ensures
        polls(*final(rx)) == polls(*old(rx)) + 1,
        received(*final(rx)) == match r {
            Some(msg) => received(*old(rx)).push(msg@),
            None => received(*old(rx)),
        },
        r matches Some(msg) ==> exists|tx: mpsc::Sender<Message>| #[trigger]
            linked(tx, *old(rx)) && offers(tx).contains((msg@, Offer::Accepted)),
        forall|tx: mpsc::Sender<Message>| #[trigger]
            linked(tx, *final(rx)) == linked(tx, *old(rx)),
{
    rx.try_recv().ok()
}

} // verus!
