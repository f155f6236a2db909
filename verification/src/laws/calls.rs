//! Client handles: the commands they queue, and what they make of the answers.
use tokio::sync::oneshot;
use vstd::prelude::*;
use vstd::utf8::encode_utf8;

use bytes::Bytes;

use crate::buf::bytes_view;
use crate::channel::queued;
use crate::client::{close_result, connect_result, group_join_cmd, group_join_result, group_leave_cmd, group_leave_result, migrate_result, open_stream_result, publish_cmd, publish_result, subscribe_cmd, subscribe_result, try_publish_result, unsubscribe_cmd, unsubscribe_result};
use crate::client::{Client, RpcCall, RpcCids, RpcNext, RpcWait};
use crate::command::{ConnCmd, Reply, StreamSel};
use crate::error::{ConnectError, GroupError, PublishError, RpcError, StreamError, SubscribeError};
use crate::message::{Message, Payload, Qos};
use crate::stream::{GroupSubscription, StreamHandle, Subscription};
use crate::time::Duration;
use crate::wire::{be, from_be, law_big_endian_roundtrip, lemma_be_len, lemma_capacities};

verus! {

/// A publish command names its topic, its stream and the whole payload.
pub proof fn law_publish_commands<P: Payload>(
    topic: &str,
    payload: P,
    stream: StreamSel,
    r: ConnCmd,
)
    requires
        call_ensures(publish_cmd::<P>, (topic, payload, stream), r),
    ensures
        r matches ConnCmd::Publish { topic: t, payload: p, stream: s } && {
            &&& t@ == topic@
            &&& bytes_view(p) == payload.payload_bytes()
            &&& s == stream
        },
{
}

/// What payloads stand for: texts for their UTF-8 bytes, byte containers for their bytes.
pub proof fn law_payload_bytes<const N: usize>(
    array: &[u8; N],
    text: String,
    slice: &[u8],
    vec: Vec<u8>,
    shared: Bytes,
    literal: &str,
)
    ensures
        text.payload_bytes() == encode_utf8(text@),
        literal.payload_bytes() == encode_utf8(literal@),
        slice.payload_bytes() == slice@,
        array.payload_bytes() == array@,
        vec.payload_bytes() == vec@,
        shared.payload_bytes() == bytes_view(shared),
{
}

/// The other commands name what they are about. Quality of service is 0 for at most once and 1 for
/// at least once; at least one partition is asked for.
pub proof fn law_commands_name_what_they_are_about(
    pattern: &str,
    qos: Qos,
    subscribe: ConnCmd,
    unsubscribe: ConnCmd,
    topic: &str,
    group: &str,
    consumer: &str,
    partitions: u32,
    join: ConnCmd,
    leave: ConnCmd,
)
    requires
        call_ensures(subscribe_cmd, (pattern, qos), subscribe),
        call_ensures(unsubscribe_cmd, (pattern,), unsubscribe),
        call_ensures(group_join_cmd, (topic, group, consumer, partitions), join),
        call_ensures(group_leave_cmd, (topic, group, consumer), leave),
    ensures
        subscribe matches ConnCmd::Subscribe { pattern: p, qos: q } && {
            &&& p@ == pattern@
            &&& q == 0 <==> qos == Qos::AtMostOnce
            &&& q == 1 <==> qos == Qos::AtLeastOnce
        },
        unsubscribe matches ConnCmd::Unsubscribe { pattern: p } && p@ == pattern@,
        join matches ConnCmd::GroupJoin { topic: t, group: g, consumer: c, partitions: n } && {
            &&& t@ == topic@
            &&& g@ == group@
            &&& c@ == consumer@
            &&& n >= 1
            &&& partitions >= 1 ==> n == partitions
            &&& partitions == 0 ==> n == 1
        },
        leave matches ConnCmd::GroupLeave { topic: t, group: g, consumer: c } && {
            &&& t@ == topic@
            &&& g@ == group@
            &&& c@ == consumer@
        },
{
}

/// Quality of service survives its wire byte; every byte but 0 is at least once.
pub proof fn law_qos_bytes_read_back(q: Qos, b: u8, c: u8, back: Qos)
    requires
        call_ensures(Qos::as_byte, (q,), b),
        call_ensures(Qos::from_byte, (c,), back),
    ensures
        b == c ==> back == q,
        back == Qos::AtMostOnce <==> c == 0,
{
}

/// An answer is handed on as it is; without one, or with one to something else, there is no
/// connection.
pub proof fn law_answers_are_handed_on(
    reply: Option<Reply>,
    publish: Result<(), PublishError>,
    subscribe: Result<Subscription, SubscribeError>,
    unsubscribe: Result<(), SubscribeError>,
    open: Result<StreamHandle, StreamError>,
    join: Result<GroupSubscription, GroupError>,
    leave: Result<(), GroupError>,
)
    requires
        call_ensures(publish_result, (reply,), publish),
        call_ensures(subscribe_result, (reply,), subscribe),
        call_ensures(unsubscribe_result, (reply,), unsubscribe),
        call_ensures(open_stream_result, (reply,), open),
        call_ensures(group_join_result, (reply,), join),
        call_ensures(group_leave_result, (reply,), leave),
    ensures
        reply matches Some(Reply::Publish(a)) ==> publish == a,
        reply matches Some(Reply::Subscribe(a)) ==> subscribe == a,
        reply matches Some(Reply::Unsubscribe(a)) ==> unsubscribe == a,
        reply matches Some(Reply::OpenStream(a)) ==> open == a,
        reply matches Some(Reply::GroupJoin(a)) ==> join == a,
        reply matches Some(Reply::GroupLeave(a)) ==> leave == a,
        !(reply is Some && reply->0 is Publish) ==> publish matches Err(
            PublishError::NotConnected,
        ),
        !(reply is Some && reply->0 is Subscribe) ==> subscribe matches Err(
            SubscribeError::NotConnected,
        ),
        !(reply is Some && reply->0 is Unsubscribe) ==> unsubscribe matches Err(
            SubscribeError::NotConnected,
        ),
        !(reply is Some && reply->0 is OpenStream) ==> open matches Err(
            StreamError::NotConnected,
        ),
        !(reply is Some && reply->0 is GroupJoin) ==> join matches Err(GroupError::NotConnected),
        !(reply is Some && reply->0 is GroupLeave) ==> leave matches Err(
            GroupError::NotConnected,
        ),
{
}

/// Closing, migrating and connecting succeed only where the task says so.
pub proof fn law_the_task_has_the_last_word(
    queued: bool,
    reply: Option<Reply>,
    close: Result<(), ConnectError>,
    migrate: Result<(), ConnectError>,
    report: Option<Result<(), ConnectError>>,
    connect: Result<(), ConnectError>,
    fired: Result<(), PublishError>,
)
    requires
        call_ensures(close_result, (queued, reply), close),
        call_ensures(migrate_result, (queued, reply), migrate),
        call_ensures(connect_result, (report,), connect),
        call_ensures(try_publish_result, (queued,), fired),
    ensures
        close is Ok <==> queued && (reply matches Some(Reply::Close(a)) && a is Ok),
        migrate is Ok <==> queued && (reply matches Some(Reply::Migrate(a)) && a is Ok),
        connect is Ok <==> (report matches Some(a) && a is Ok),
        queued ==> (reply matches Some(Reply::Close(a)) ==> close == a),
        queued ==> (reply matches Some(Reply::Migrate(a)) ==> migrate == a),
        report matches Some(a) ==> connect == a,
        !queued ==> close matches Err(ConnectError::ClientClosed),
        fired is Ok <==> queued,
        fired is Err ==> fired matches Err(PublishError::NotConnected),
{
}

/// A fire-and-forget publish is queued once, on the default channel, with its topic and the whole
/// payload; it succeeds exactly where it was taken.
pub proof fn law_fired_publishes_are_queued_once<P: Payload>(
    client: &mut Client,
    topic: &str,
    payload: P,
    r: Result<(), PublishError>,
)
    requires
        call_ensures(Client::try_publish::<P>, (client, topic, payload), r),
    ensures
        ({
            let before = queued(old(client).tx);
            let after = queued(final(client).tx);
            let n = before.len() as int;
            &&& after.len() == n + 1
            &&& after.take(n) == before
            &&& after[n].1 == r is Ok
            &&& after[n].0 matches ConnCmd::Publish { topic: t, payload: p, stream: s }
            &&& t@ == topic@
            &&& bytes_view(p) == payload.payload_bytes()
            &&& s == StreamSel::Default
        }),
        r is Err ==> r matches Err(PublishError::NotConnected),
{
    let before = queued(old(client).tx);
    let after = queued(final(client).tx);
    assert(after.take(before.len() as int) =~= before);
}

/// A queued command is that command, behind those queued before.
pub proof fn law_commands_are_queued_in_order(client: &mut Client, cmd: ConnCmd, taken: bool)
    requires
        call_ensures(Client::try_send, (client, cmd), taken),
    ensures
        queued(final(client).tx) == queued(old(client).tx) + seq![(cmd, taken)],
{
    assert(queued(old(client).tx).push((cmd, taken)) =~= queued(old(client).tx) + seq![
        (cmd, taken),
    ]);
}

/// A copy of a message says the same.
pub proof fn law_copies_say_the_same(msg: &Message, r: Message)
    requires
        call_ensures(<Message as Clone>::clone, (msg,), r),
    ensures
        bytes_view(r.topic) == bytes_view(msg.topic),
        bytes_view(r.payload) == bytes_view(msg.payload),
        r.seq == msg.seq,
        r.stream_id == msg.stream_id,
{
    assert(r@ == msg@);
}

/// Calls draw their ids one after the other, and register and publish under them: the registration
/// names the id and the reply topic, and the request carries the id in its first sixteen bytes and
/// the whole payload behind it.
pub proof fn law_calls_go_by_their_id<P: Payload>(
    cids: &mut RpcCids,
    timeout: Duration,
    call: RpcCall,
    reply_topic: &str,
    resp: oneshot::Sender<Message>,
    register: ConnCmd,
    request_topic: &str,
    payload: P,
    request: ConnCmd,
)
    requires
        call_ensures(RpcCall::new, (cids, timeout), call),
        call_ensures(RpcCall::register, (&call, reply_topic, resp), register),
        call_ensures(RpcCall::request::<P>, (&call, request_topic, payload), request),
    ensures
        call.cid == old(cids).next,
        call.timeout == timeout,
        final(cids).next == (old(cids).next + 1) % 0x1_0000_0000_0000_0000,
        register matches ConnCmd::RegisterRpcReply { cid, reply_topic: t, resp: s } && {
            &&& cid == call.cid
            &&& t@ == reply_topic@
            &&& s == resp
        },
        request matches ConnCmd::Publish { topic: t, payload: p, stream: s } && {
            &&& t@ == request_topic@
            &&& bytes_view(p).len() == 16 + payload.payload_bytes().len()
            &&& from_be(bytes_view(p).take(16)) == call.cid
            &&& bytes_view(p).skip(16) == payload.payload_bytes()
            &&& s == StreamSel::Default
        },
{
    crate::wire::law_rpc_roundtrip(call.cid, payload.payload_bytes());
    lemma_capacities();
    lemma_be_len(call.cid as nat, 16);
    law_big_endian_roundtrip(call.cid as nat, 16);
    let p = crate::wire::rpc_payload(call.cid, payload.payload_bytes());
    assert(p.take(16) =~= be(call.cid as nat, 16));
}

/// `after` is the handle `before` once the cancellation of a call was handed in, and nothing else.
pub open spec fn cancelled(before: Client, after: Client, cid: u128) -> bool {
    let n = queued(before.tx).len() as int;
    &&& queued(after.tx).len() == n + 1
    &&& queued(after.tx).take(n) == queued(before.tx)
    &&& queued(after.tx)[n].0 == (ConnCmd::CancelRpc { cid })
}

/// A call is published once it is registered, waits once it is published, and returns its reply. It
/// ends early where one of these fails, with the reason; where the task may still look out for the
/// reply, it is told to stop.
pub proof fn law_calls_take_their_course(
    call: &RpcCall,
    answer: Option<Reply>,
    next: RpcNext,
    first: &mut Client,
    result: Result<(), PublishError>,
    then: RpcNext,
    second: &mut Client,
    wait: RpcWait,
    end: Result<Message, RpcError>,
)
    requires
        call_ensures(RpcCall::registered, (call, answer), next),
        call_ensures(RpcCall::published, (call, first, result), then),
        call_ensures(RpcCall::waited, (call, second, wait), end),
    ensures
        next is Publish <==> (answer matches Some(Reply::RegisterRpc(a)) && a is Ok),
        answer matches Some(Reply::RegisterRpc(Err(e))) ==> next == RpcNext::Return(
            Err(RpcError::SubscribeFailed(e)),
        ),
        !(answer is Some && answer->0 is RegisterRpc) ==> next == RpcNext::Return(
            Err(RpcError::NotConnected),
        ),
        result is Ok ==> then is Await && *final(first) == *old(first),
        result matches Err(e) ==> then == RpcNext::Return(Err(RpcError::PublishFailed(e)))
            && cancelled(*old(first), *final(first), call.cid),
        wait matches RpcWait::Replied(msg) ==> end == Ok::<Message, RpcError>(msg) && *final(second)
            == *old(second),
        wait is Dropped ==> end == Err::<Message, RpcError>(RpcError::NotConnected) && *final(
            second) == *old(second),
        wait is Elapsed ==> end == Err::<Message, RpcError>(RpcError::Timeout(call.timeout))
            && cancelled(*old(second), *final(second), call.cid),
{
    if result is Err {
        assert(queued(final(first).tx).take(queued(old(first).tx).len() as int) =~= queued(
            old(first).tx,
        ));
    }
    if wait is Elapsed {
        assert(queued(final(second).tx).take(queued(old(second).tx).len() as int) =~= queued(
            old(second).tx,
        ));
    }
}

} // verus!
