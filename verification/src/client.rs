//! What a client handle asks of the connection task, and what it makes of the answers.
use tokio::sync::{mpsc, oneshot};
use vstd::prelude::*;
use vstd::string::*;

use crate::buf;
use crate::buf::bytes_view;
use crate::channel;
use crate::channel::queued;
use crate::command::{ConnCmd, Reply, StreamSel};
use crate::error::{ConnectError, GroupError, PublishError, RpcError, StreamError, SubscribeError};
use crate::message::{Message, Payload, Qos};
use crate::stream::{GroupSubscription, StreamHandle, Subscription};
use crate::time::Duration;
use crate::wire;
use crate::wire::rpc_payload;

verus! {

/// Source of correlation ids. They start at 1, so that 0 never occurs as one.
pub struct RpcCids {
    /// The next one.
    pub next: u64,
}

impl RpcCids {
    /// The first id is 1.
    pub fn new() -> (r: Self)
        ensures
            r.next == 1,
    {
        RpcCids { next: 1 }
    }

    /// The next correlation id. The counter fills the low 64 bits.
    pub fn next_rpc_cid(&mut self) -> (r: u128)
        ensures
            r == old(self).next,
            final(self).next == old(self).next.wrapping_add(1),
    {
        let n: u64 = self.next;
        self.next = n.wrapping_add(1);
        n as u128
    }
}

/// Where the counter stands after `n` ids have been drawn.
pub open spec fn after_draws(next: u64, n: nat) -> u64
    decreases n,
{
    if n == 0 {
        next
    } else {
        after_draws(next, (n - 1) as nat).wrapping_add(1)
    }
}

/// Short of its end the counter counts draws.
proof fn lemma_draws_are_counted(n: nat)
    requires
        n < 0xFFFF_FFFF_FFFF_FFFF,
    ensures
        after_draws(1, n) == 1 + n,
    decreases n,
{
    if n > 0 {
        lemma_draws_are_counted((n - 1) as nat);
    }
}

/// Correlation ids increase strictly, and are never 0, for the first 2^64 - 1 calls.
pub proof fn law_cids_increase(earlier: nat, later: nat)
    requires
        earlier < later < 0xFFFF_FFFF_FFFF_FFFF,
    ensures
        0 < after_draws(1, earlier) < after_draws(1, later),
{
    lemma_draws_are_counted(earlier);
    lemma_draws_are_counted(later);
}

/// A command, and where its answer goes.
pub struct Request {
    /// The command.
    pub cmd: ConnCmd,
    /// The answer goes here, if anyone still waits for it.
    pub resp: oneshot::Sender<Reply>,
}

/// A handle that queues commands for the connection task.
pub struct Client {
    /// Commands leave here.
    pub tx: mpsc::Sender<Request>,
}

/// The command publishes `payload` to `topic` on this stream.
pub open spec fn publishes(
    cmd: ConnCmd,
    topic: Seq<char>,
    payload: Seq<u8>,
    stream: StreamSel,
) -> bool {
    &&& cmd matches ConnCmd::Publish { topic: t, payload: p, stream: s }
    &&& t@ == topic
    &&& bytes_view(p) == payload
    &&& s == stream
}

/// `after` is the handle `before` once a publish on the default channel was handed in, and taken
/// or not.
pub open spec fn publish_queued(
    before: Client,
    after: Client,
    topic: Seq<char>,
    payload: Seq<u8>,
    taken: bool,
) -> bool {
    let cmd = queued(after.tx).last().0;
    &&& queued(after.tx) == queued(before.tx).push((cmd, taken))
    &&& publishes(cmd, topic, payload, StreamSel::Default)
}

impl Client {
    /// Queues a command without waiting, and without a way for its answer: whether there was
    /// room.
    pub fn try_send(&mut self, cmd: ConnCmd) -> (taken: bool)
        ensures
            queued(final(self).tx) == queued(old(self).tx).push((cmd, taken)),
    {
        let resp = channel::unheard_reply();
        channel::enqueue(&mut self.tx, Request { cmd, resp })
    }

    /// Fire-and-forget publish on the default channel: queued, or refused where the task is gone
    /// or has no room.
    pub fn try_publish<P: Payload>(&mut self, topic: &str, payload: P) -> (r: Result<
        (),
        PublishError,
    >)
        ensures
            publish_queued(
                *old(self),
                *final(self),
                topic@,
                payload.payload_bytes(),
                r is Ok,
            ),
            r matches Err(e) ==> e == PublishError::NotConnected,
    {
        let taken = self.try_send(publish_cmd(topic, payload, StreamSel::Default));
        try_publish_result(taken)
    }
}

/// A publish of `payload` to `topic`.
pub fn publish_cmd<P: Payload>(topic: &str, payload: P, stream: StreamSel) -> (r: ConnCmd)
    ensures
        publishes(r, topic@, payload.payload_bytes(), stream),
{
    ConnCmd::Publish { topic: topic.to_owned(), payload: payload.into_bytes(), stream }
}

/// A subscription to `pattern`.
pub fn subscribe_cmd(pattern: &str, qos: Qos) -> (r: ConnCmd)
    ensures
        r matches ConnCmd::Subscribe { pattern: p, qos: q } && p@ == pattern@ && q == match qos {
            Qos::AtMostOnce => 0u8,
            Qos::AtLeastOnce => 1u8,
        },
{
    ConnCmd::Subscribe { pattern: pattern.to_owned(), qos: qos.as_byte() }
}

/// The end of the first subscription to `pattern`.
pub fn unsubscribe_cmd(pattern: &str) -> (r: ConnCmd)
    ensures
        r matches ConnCmd::Unsubscribe { pattern: p } && p@ == pattern@,
{
    ConnCmd::Unsubscribe { pattern: pattern.to_owned() }
}

/// The membership of `consumer` in `group`. The server rejects a partition count of zero, so at
/// least one is asked for.
pub fn group_join_cmd(topic: &str, group: &str, consumer: &str, partitions: u32) -> (r: ConnCmd)
    ensures
        r matches ConnCmd::GroupJoin { topic: t, group: g, consumer: c, partitions: n } && t@
            == topic@ && g@ == group@ && c@ == consumer@ && n == if partitions < 1 {
            1u32
        } else {
            partitions
        },
{
    let partitions: u32 = if partitions < 1 {
        1
    } else {
        partitions
    };
    ConnCmd::GroupJoin {
        topic: topic.to_owned(),
        group: group.to_owned(),
        consumer: consumer.to_owned(),
        partitions,
    }
}

/// The end of a membership.
pub fn group_leave_cmd(topic: &str, group: &str, consumer: &str) -> (r: ConnCmd)
    ensures
        r matches ConnCmd::GroupLeave { topic: t, group: g, consumer: c } && t@ == topic@ && g@
            == group@ && c@ == consumer@,
{
    ConnCmd::GroupLeave {
        topic: topic.to_owned(),
        group: group.to_owned(),
        consumer: consumer.to_owned(),
    }
}

/// What a publish returns, given the task's answer. Without one the connection is gone.
pub fn publish_result(reply: Option<Reply>) -> (r: Result<(), PublishError>)
    ensures
        r == match reply {
            Some(Reply::Publish(answer)) => answer,
            _ => Err(PublishError::NotConnected),
        },
{
    match reply {
        Some(Reply::Publish(answer)) => answer,
        _ => Err(PublishError::NotConnected),
    }
}

/// What a fire-and-forget publish returns: whether the command was queued.
pub fn try_publish_result(queued: bool) -> (r: Result<(), PublishError>)
    ensures
        queued ==> r is Ok,
        !queued ==> r == Err::<(), PublishError>(PublishError::NotConnected),
{
    if queued {
        Ok(())
    } else {
        Err(PublishError::NotConnected)
    }
}

/// What a subscribe returns, given the task's answer.
pub fn subscribe_result(reply: Option<Reply>) -> (r: Result<Subscription, SubscribeError>)
    ensures
        r == match reply {
            Some(Reply::Subscribe(answer)) => answer,
            _ => Err(SubscribeError::NotConnected),
        },
{
    match reply {
        Some(Reply::Subscribe(answer)) => answer,
        _ => Err(SubscribeError::NotConnected),
    }
}

/// What an unsubscribe returns, given the task's answer.
pub fn unsubscribe_result(reply: Option<Reply>) -> (r: Result<(), SubscribeError>)
    ensures
        r == match reply {
            Some(Reply::Unsubscribe(answer)) => answer,
            _ => Err(SubscribeError::NotConnected),
        },
{
    match reply {
        Some(Reply::Unsubscribe(answer)) => answer,
        _ => Err(SubscribeError::NotConnected),
    }
}

/// What opening a stream returns, given the task's answer.
pub fn open_stream_result(reply: Option<Reply>) -> (r: Result<StreamHandle, StreamError>)
    ensures
        r == match reply {
            Some(Reply::OpenStream(answer)) => answer,
            _ => Err(StreamError::NotConnected),
        },
{
    match reply {
        Some(Reply::OpenStream(answer)) => answer,
        _ => Err(StreamError::NotConnected),
    }
}

/// What joining a group returns, given the task's answer.
pub fn group_join_result(reply: Option<Reply>) -> (r: Result<GroupSubscription, GroupError>)
    ensures
        r == match reply {
            Some(Reply::GroupJoin(answer)) => answer,
            _ => Err(GroupError::NotConnected),
        },
{
    match reply {
        Some(Reply::GroupJoin(answer)) => answer,
        _ => Err(GroupError::NotConnected),
    }
}

/// What leaving a group returns, given the task's answer.
pub fn group_leave_result(reply: Option<Reply>) -> (r: Result<(), GroupError>)
    ensures
        r == match reply {
            Some(Reply::GroupLeave(answer)) => answer,
            _ => Err(GroupError::NotConnected),
        },
{
    match reply {
        Some(Reply::GroupLeave(answer)) => answer,
        _ => Err(GroupError::NotConnected),
    }
}

/// The connection task went away without an answer.
pub open spec fn task_exited(e: ConnectError) -> bool {
    e matches ConnectError::Closed(why) && why@ == "connection task exited"@
}

/// What a close returns: whether the command could be queued, and the task's answer.
pub fn close_result(queued: bool, reply: Option<Reply>) -> (r: Result<(), ConnectError>)
    ensures
        !queued ==> r == Err::<(), ConnectError>(ConnectError::ClientClosed),
        queued ==> match reply {
            Some(Reply::Close(answer)) => r == answer,
            _ => r is Err && task_exited(r->Err_0),
        },
{
    if !queued {
        return Err(ConnectError::ClientClosed);
    }
    match reply {
        Some(Reply::Close(answer)) => answer,
        _ => Err(ConnectError::Closed("connection task exited".to_owned())),
    }
}

/// What a migration returns: whether the command could be queued, and the task's answer.
pub fn migrate_result(queued: bool, reply: Option<Reply>) -> (r: Result<(), ConnectError>)
    ensures
        !queued ==> r is Err && r->Err_0 is Closed && r->Err_0->Closed_0@
            == "client already closed"@,
        queued ==> match reply {
            Some(Reply::Migrate(answer)) => r == answer,
            _ => r is Err && task_exited(r->Err_0),
        },
{
    if !queued {
        return Err(ConnectError::Closed("client already closed".to_owned()));
    }
    match reply {
        Some(Reply::Migrate(answer)) => answer,
        _ => Err(ConnectError::Closed("connection task exited".to_owned())),
    }
}

/// The outcome of establishing a connection: what the task reported, if anything.
pub fn connect_result(report: Option<Result<(), ConnectError>>) -> (r: Result<(), ConnectError>)
    ensures
        match report {
            Some(answer) => r == answer,
            None => r is Err && r->Err_0 is Closed && r->Err_0->Closed_0@
                == "connect task exited before the handshake completed"@,
        },
{
    match report {
        Some(answer) => answer,
        None => Err(
            ConnectError::Closed("connect task exited before the handshake completed".to_owned()),
        ),
    }
}

/// What waiting for the reply to a remote call brought.
pub enum RpcWait {
    /// The reply.
    Replied(Message),
    /// Nobody will reply: the connection is gone.
    Dropped,
    /// The deadline.
    Elapsed,
}

/// How a remote call goes on.
pub enum RpcNext {
    /// Publish the request.
    Publish,
    /// Wait for the reply.
    Await,
    /// Return this.
    Return(Result<Message, RpcError>),
}

/// A remote call.
pub struct RpcCall {
    /// Its correlation id.
    pub cid: u128,
    /// How long it waits for the reply.
    pub timeout: Duration,
}

/// `after` is the handle `before` once the end of call `cid` was handed in, and taken or not.
pub open spec fn cancel_queued(before: Client, after: Client, cid: u128) -> bool {
    exists|taken: bool| #[trigger]
        queued(before.tx).push((ConnCmd::CancelRpc { cid }, taken)) == queued(after.tx)
}

impl RpcCall {
    /// A call under the next correlation id.
    pub fn new(cids: &mut RpcCids, timeout: Duration) -> (r: Self)
        ensures
            r == (RpcCall { cid: old(cids).next as u128, timeout }),
            final(cids).next == old(cids).next.wrapping_add(1),
    {
        let cid: u128 = cids.next_rpc_cid();
        RpcCall { cid, timeout }
    }

    /// The command that makes the task look out for the reply, which `resp` is given then. It
    /// comes before the request, so that no reply can be missed.
    pub fn register(&self, reply_topic: &str, resp: oneshot::Sender<Message>) -> (r: ConnCmd)
        ensures
            r matches ConnCmd::RegisterRpcReply { cid, reply_topic: t, resp: s } && cid == self.cid
                && t@ == reply_topic@ && s == resp,
    {
        ConnCmd::RegisterRpcReply { cid: self.cid, reply_topic: reply_topic.to_owned(), resp }
    }

    /// The command that publishes the request: the payload behind the correlation id, on the
    /// default channel.
    pub fn request<P: Payload>(&self, request_topic: &str, payload: P) -> (r: ConnCmd)
        ensures
            publishes(
                r,
                request_topic@,
                rpc_payload(self.cid, payload.payload_bytes()),
                StreamSel::Default,
            ),
    {
        let body = payload.into_bytes();
        let framed = wire::encode_rpc(self.cid, buf::as_slice(&body));
        publish_cmd(request_topic, framed, StreamSel::Default)
    }

    /// How the call goes on once the task was asked to look out for the reply, given the task's
    /// answer. The call ends where the reply topic cannot be subscribed to, and where the task is
    /// gone or has no connection.
    pub fn registered(&self, answer: Option<Reply>) -> (r: RpcNext)
        ensures
            r == match answer {
                Some(Reply::RegisterRpc(Ok(_))) => RpcNext::Publish,
                Some(Reply::RegisterRpc(Err(e))) => RpcNext::Return(
                    Err(RpcError::SubscribeFailed(e)),
                ),
                _ => RpcNext::Return(Err(RpcError::NotConnected)),
            },
    {
        match answer {
            Some(Reply::RegisterRpc(Ok(_))) => RpcNext::Publish,
            Some(Reply::RegisterRpc(Err(e))) => RpcNext::Return(Err(RpcError::SubscribeFailed(e))),
            _ => RpcNext::Return(Err(RpcError::NotConnected)),
        }
    }

    /// Ends the call early: the task is told to stop looking out for the reply.
    fn give_up(&self, client: &mut Client, error: RpcError) -> (r: Result<Message, RpcError>)
        ensures
            r == Err::<Message, RpcError>(error),
            cancel_queued(*old(client), *final(client), self.cid),
    {
        let taken: bool = client.try_send(ConnCmd::CancelRpc { cid: self.cid });
        assert(queued(old(client).tx).push((ConnCmd::CancelRpc { cid: self.cid }, taken)) == queued(
            client.tx,
        ));
        Err(error)
    }

    /// How the call goes on once its request was published, or not. A call whose request did not
    /// get out is cancelled.
    pub fn published(&self, client: &mut Client, result: Result<(), PublishError>) -> (r: RpcNext)
        ensures
            match result {
                Ok(_) => r == RpcNext::Await && *final(client) == *old(client),
                Err(e) => r == RpcNext::Return(Err(RpcError::PublishFailed(e))) && cancel_queued(
                    *old(client),
                    *final(client),
                    self.cid,
                ),
            },
    {
        match result {
            Ok(_) => RpcNext::Await,
            Err(e) => RpcNext::Return(self.give_up(client, RpcError::PublishFailed(e))),
        }
    }

    /// How the call ends. A call that has waited long enough is cancelled.
    pub fn waited(&self, client: &mut Client, wait: RpcWait) -> (r: Result<Message, RpcError>)
        ensures
            match wait {
                RpcWait::Replied(msg) => r == Ok::<Message, RpcError>(msg) && *final(client)
                    == *old(client),
                RpcWait::Dropped => r == Err::<Message, RpcError>(RpcError::NotConnected)
                    && *final(client) == *old(client),
                RpcWait::Elapsed => r == Err::<Message, RpcError>(RpcError::Timeout(self.timeout))
                    && cancel_queued(*old(client), *final(client), self.cid),
            },
    {
        match wait {
            RpcWait::Replied(msg) => Ok(msg),
            RpcWait::Dropped => Err(RpcError::NotConnected),
            RpcWait::Elapsed => self.give_up(client, RpcError::Timeout(self.timeout)),
        }
    }
}

} // verus!
