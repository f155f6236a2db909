use bytes::Bytes;
use tokio::sync::{mpsc, oneshot};
use vireon::client::{
    close_result, connect_result, group_join_result, group_leave_result, migrate_result,
    open_stream_result, publish_result, subscribe_result, try_publish_result, unsubscribe_result,
    Client, Request, RpcCall, RpcCids, RpcNext, RpcWait,
};
use vireon::command::{ConnCmd, Reply, StreamSel};
use vireon::config::{ClientBuilder, ClientIdentity, FilePath, ReconnectPolicy, TlsVerify};
use vireon::error::{
    ConnectError, GroupError, PublishError, RpcError, StreamError, SubscribeError,
};
use vireon::message::Message;
use vireon::pool::{check_size, pending_bytes, ClientPool, CloseAll, PoolConnect, PoolNext};
use vireon::time::Duration;

fn closed(r: Result<(), ConnectError>) -> String {
    match r {
        Err(ConnectError::Closed(why)) => why,
        _ => panic!("not closed"),
    }
}

#[test]
fn answers_and_their_absence() {
    assert!(publish_result(Some(Reply::Publish(Ok(())))).is_ok());
    assert!(matches!(publish_result(None), Err(PublishError::NotConnected)));
    assert!(try_publish_result(true).is_ok());
    assert!(matches!(try_publish_result(false), Err(PublishError::NotConnected)));
    assert!(matches!(subscribe_result(None), Err(SubscribeError::NotConnected)));
    assert!(unsubscribe_result(Some(Reply::Unsubscribe(Ok(())))).is_ok());
    assert!(matches!(unsubscribe_result(None), Err(SubscribeError::NotConnected)));
    assert!(matches!(open_stream_result(None), Err(StreamError::NotConnected)));
    assert!(matches!(
        open_stream_result(Some(Reply::OpenStream(Err(StreamError::NoCapacity)))),
        Err(StreamError::NoCapacity)
    ));
    assert!(matches!(group_join_result(None), Err(GroupError::NotConnected)));
    assert!(group_leave_result(Some(Reply::GroupLeave(Ok(())))).is_ok());
    assert!(matches!(group_leave_result(None), Err(GroupError::NotConnected)));
}

#[test]
fn closing_and_migrating() {
    assert!(close_result(true, Some(Reply::Close(Ok(())))).is_ok());
    assert!(matches!(close_result(false, None), Err(ConnectError::ClientClosed)));
    assert_eq!(closed(close_result(true, None)), "connection task exited");
    assert!(migrate_result(true, Some(Reply::Migrate(Ok(())))).is_ok());
    assert_eq!(closed(migrate_result(false, None)), "client already closed");
    assert_eq!(closed(migrate_result(true, None)), "connection task exited");
    assert!(connect_result(Some(Ok(()))).is_ok());
    assert_eq!(
        closed(connect_result(None)),
        "connect task exited before the handshake completed"
    );
}

#[test]
fn remote_calls() {
    let timeout = Duration::from_secs(2);
    let mut cids = RpcCids { next: 258 };
    let call = RpcCall::new(&mut cids, timeout);
    assert_eq!((call.cid, cids.next), (258, 259));
    let (resp, _reply) = oneshot::channel();
    match call.register("svc.reply", resp) {
        ConnCmd::RegisterRpcReply { cid, reply_topic, .. } => {
            assert_eq!((cid, reply_topic.as_str()), (258, "svc.reply"));
        }
        _ => panic!("not a registration"),
    }
    match call.request("svc.call", "hi") {
        ConnCmd::Publish { topic, payload, stream } => {
            assert_eq!(topic, "svc.call");
            assert_eq!(&payload[14..16], &[1, 2]);
            assert_eq!(&payload[16..], b"hi");
            assert_eq!(stream, StreamSel::Default);
        }
        _ => panic!("not a publish"),
    }
    assert!(matches!(call.registered(Some(Reply::RegisterRpc(Ok(())))), RpcNext::Publish));
    assert!(matches!(
        call.registered(Some(Reply::RegisterRpc(Err(SubscribeError::NotConnected)))),
        RpcNext::Return(Err(RpcError::SubscribeFailed(SubscribeError::NotConnected)))
    ));
    assert!(matches!(
        call.registered(Some(Reply::Nothing)),
        RpcNext::Return(Err(RpcError::NotConnected))
    ));
    assert!(matches!(call.registered(None), RpcNext::Return(Err(RpcError::NotConnected))));

    let (tx, mut rx) = mpsc::channel(4);
    let mut client = Client { tx };
    assert!(matches!(call.published(&mut client, Ok(())), RpcNext::Await));
    let msg = Message {
        topic: Bytes::from_static(b"r"),
        payload: Bytes::from_static(b"x"),
        seq: 1,
        stream_id: 0,
    };
    let r = call.waited(&mut client, RpcWait::Replied(msg));
    assert_eq!(r.unwrap().payload.as_ref(), b"x");
    assert!(matches!(
        call.waited(&mut client, RpcWait::Dropped),
        Err(RpcError::NotConnected)
    ));
    assert!(rx.try_recv().is_err());
    // A call that fails on the way, or takes too long, is cancelled.
    assert!(matches!(
        call.published(&mut client, Err(PublishError::TooLarge(4))),
        RpcNext::Return(Err(RpcError::PublishFailed(PublishError::TooLarge(4))))
    ));
    assert!(matches!(rx.try_recv().unwrap().cmd, ConnCmd::CancelRpc { cid: 258 }));
    match call.waited(&mut client, RpcWait::Elapsed) {
        Err(RpcError::Timeout(d)) => assert_eq!(d, timeout),
        _ => panic!("no timeout"),
    }
    assert!(matches!(rx.try_recv().unwrap().cmd, ConnCmd::CancelRpc { cid: 258 }));
    assert!(rx.try_recv().is_err());
}

#[test]
fn builder_defaults_and_setters() {
    let b = ClientBuilder::new("example.com:8443");
    assert_eq!((b.cfg.host.as_str(), b.cfg.port), ("example.com", 8443));
    assert_eq!(b.cfg.sni, "example.com");
    assert!(matches!(b.cfg.tls, TlsVerify::Tofu));
    assert!(b.cfg.client_identity.is_none());
    assert_eq!(b.cfg.max_message_size, 1024 * 1024);
    assert_eq!(b.cfg.subscriber_buffer, 8192);
    assert_eq!(b.cfg.cmd_channel_cap, 4096);
    assert_eq!(b.cfg.idle_timeout, Duration::from_secs(60));
    assert_eq!(b.cfg.reconnect.max_attempts, 0);

    let path = |p: &str| FilePath { display: p.into(), is_utf8: true };
    let b = b
        .sni("localhost")
        .tls_verify(TlsVerify::DangerAcceptInvalid)
        .client_identity(ClientIdentity { cert: path("c"), key: path("k") })
        .reconnect(ReconnectPolicy { max_attempts: 3, ..ReconnectPolicy::default() })
        .max_message_size(9)
        .subscriber_buffer(2)
        .cmd_channel_cap(0)
        .max_idle_timeout(Duration::from_secs(15))
        .reliable(true)
        .ack_interval(1)
        .logical_session_id(7);
    let c = b.clone().cfg;
    assert_eq!(c.sni, "localhost");
    assert_eq!(c.host, "example.com");
    assert!(matches!(c.tls, TlsVerify::DangerAcceptInvalid));
    assert_eq!(c.client_identity.as_ref().unwrap().key.display, "k");
    assert_eq!(c.reconnect.max_attempts, 3);
    assert_eq!((c.max_message_size, c.subscriber_buffer), (9, 2));
    assert_eq!(c.command_depth(), 1);
    assert_eq!(c.idle_timeout, Duration::from_secs(15));
    assert!(c.reliable);
    assert_eq!((c.ack_interval, c.session_id(5)), (1, 7));
    let free = ClientBuilder::new("h").cfg;
    assert_eq!(free.session_id(1), 0x9E37_79B9_7F4A_7C15);
    assert_eq!(free.session_id((1u128 << 64) + 1), 0x9E37_79B9_7F4A_7C15);
}

#[test]
fn pools_need_members() {
    assert!(check_size(1).is_ok());
    match check_size(0) {
        Err(ConnectError::Config(why)) => assert_eq!(why, "pool size must be greater than zero"),
        _ => panic!("an empty pool"),
    }
    let mut c: PoolConnect<u8> = PoolConnect::new();
    assert!(c.joined(Ok(Ok(1))).is_ok());
    assert!(matches!(
        c.joined(Ok(Err(ConnectError::AlpnNegotiation))),
        Err(ConnectError::AlpnNegotiation)
    ));
    assert_eq!(
        closed(c.joined(Err("task 3".into()))),
        "pool member connect task panicked: task 3"
    );
    assert_eq!(c.members, &[1]);
}

#[test]
fn failover_walks_the_pool() {
    let mut pool = ClientPool::from_clients(vec!['a', 'b', 'c']);
    assert_eq!((pool.len(), pool.is_empty(), *pool.member(1)), (3, false, 'b'));
    assert_eq!(pool.next_idx(), 0);
    let mut walk = pool.publish();
    let mut seen = Vec::new();
    let mut next = walk.next_member();
    loop {
        match next {
            PoolNext::Try(i) => {
                seen.push(i);
                next = walk.after_publish(Err(PublishError::NotConnected));
            }
            PoolNext::Return(r) => {
                assert!(matches!(r, Err(PublishError::NotConnected)));
                break;
            }
        }
    }
    assert_eq!(seen, [1, 2, 0]);
    let mut walk = pool.publish();
    assert!(matches!(walk.next_member(), PoolNext::Try(2)));
    assert!(matches!(
        walk.after_publish(Err(PublishError::NotConnected)),
        PoolNext::Try(0)
    ));
    assert!(matches!(
        walk.after_publish(Err(PublishError::TooLarge(1))),
        PoolNext::Return(Err(PublishError::TooLarge(1)))
    ));
    assert!(matches!(walk.after_publish(Ok(())), PoolNext::Return(Ok(()))));
    pool.next = usize::MAX;
    let _ = pool.next_idx();
    assert_eq!(pool.next, 0);
}

#[test]
fn pool_totals_and_errors() {
    assert_eq!(pending_bytes(&vec![1, 2, 3]), 6);
    assert_eq!(pending_bytes(&vec![]), 0);
    assert_eq!(pending_bytes(&vec![usize::MAX, 1]), usize::MAX);
    let all = CloseAll::new().closed(Ok(()));
    assert!(all.result().is_ok());
    let all = CloseAll::new()
        .closed(Ok(()))
        .closed(Err(ConnectError::ClientClosed))
        .closed(Err(ConnectError::TransportFull));
    assert!(matches!(all.result(), Err(ConnectError::ClientClosed)));
}

fn queued_publish(rx: &mut mpsc::Receiver<Request>) -> (String, Bytes, StreamSel) {
    match rx.try_recv().unwrap().cmd {
        ConnCmd::Publish { topic, payload, stream } => (topic, payload, stream),
        _ => panic!("not a publish"),
    }
}

#[test]
fn fire_and_forget_publishes() {
    let (tx, mut rx) = mpsc::channel(1);
    let mut client = Client { tx };
    assert!(client.try_publish("a.b", "x").is_ok());
    assert!(matches!(client.try_publish("a.b", "y"), Err(PublishError::NotConnected)));
    let (topic, payload, stream) = queued_publish(&mut rx);
    assert_eq!((topic.as_str(), payload.as_ref()), ("a.b", b"x".as_slice()));
    assert_eq!(stream, StreamSel::Default);
    assert!(client.try_send(ConnCmd::CancelRpc { cid: 7 }));
    let request = rx.try_recv().unwrap();
    assert!(matches!(request.cmd, ConnCmd::CancelRpc { cid: 7 }));
    assert!(request.resp.send(Reply::Nothing).is_err());
    drop(rx);
    assert!(!client.try_send(ConnCmd::Close));
}

#[test]
fn pool_publishes_fail_over_to_members_with_room() {
    let (tx0, mut rx0) = mpsc::channel(1);
    let (tx1, rx1) = mpsc::channel(1);
    let (tx2, mut rx2) = mpsc::channel(1);
    let members = vec![Client { tx: tx0 }, Client { tx: tx1 }, Client { tx: tx2 }];
    let mut pool = ClientPool::from_clients(members);
    drop(rx1);
    assert!(pool.try_publish("t", "first").is_ok());
    assert!(pool.try_publish("t", "second").is_ok());
    assert_eq!(queued_publish(&mut rx0).1.as_ref(), b"first");
    assert_eq!(queued_publish(&mut rx2).1.as_ref(), b"second");
    assert!(pool.try_publish("t", "third").is_ok());
    assert!(pool.try_publish("t", "fourth").is_ok());
    assert_eq!(pool.next, 4);
    assert!(matches!(pool.try_publish("t", "fifth"), Err(PublishError::NotConnected)));
    assert_eq!(queued_publish(&mut rx2).1.as_ref(), b"third");
    assert_eq!(queued_publish(&mut rx0).1.as_ref(), b"fourth");
    assert!(rx0.try_recv().is_err());
}
