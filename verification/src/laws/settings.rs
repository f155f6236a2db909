//! Settings: what a connection and a stream start from, and what each choice changes.
use vstd::prelude::*;
use vstd::std_specs::convert::FromSpec;

use crate::config::{ClientBuilder, ClientConfig, ClientIdentity, ReconnectPolicy, TlsVerify};
use crate::stream::{DeliveryPolicy, StreamPriority, StreamSpec, StreamType};
use crate::task::TaskState;
use crate::time::Duration;

verus! {

/// A new connection trusts on first use, has no identity, is not reliable and does not reconnect.
pub proof fn law_connections_start_plain(
    addr: &str,
    b: ClientBuilder,
    disabled: ReconnectPolicy,
)
    requires
        call_ensures(ClientBuilder::new, (addr,), b),
        call_ensures(ReconnectPolicy::disabled, (), disabled),
    ensures
        b.cfg.tls == TlsVerify::Tofu,
        b.cfg.client_identity is None,
        !b.cfg.reliable,
        b.cfg.reconnect.max_attempts == 0,
        b.cfg.reconnect.resubscribe,
        b.cfg.logical_session_id == 0,
        b.cfg.subscriber_buffer == 8192,
        b.cfg.cmd_channel_cap == 4096,
        b.cfg.max_message_size == 1_048_576,
        b.cfg.ack_interval == 32,
        b.cfg.idle_timeout@ == 60_000_000_000,
        disabled.max_attempts == 0,
        disabled.initial_backoff@ == 500_000_000,
        disabled.max_backoff@ == 10_000_000_000,
{
}

/// Each choice sets what it names to what was chosen, and leaves everything else alone.
pub proof fn law_choices_set_what_they_name(
    b: ClientBuilder,
    sni: &str,
    b1: ClientBuilder,
    tls: TlsVerify,
    b2: ClientBuilder,
    id: ClientIdentity,
    b3: ClientBuilder,
    policy: ReconnectPolicy,
    b4: ClientBuilder,
    n: usize,
    b5: ClientBuilder,
    b6: ClientBuilder,
    b7: ClientBuilder,
    idle: Duration,
    b8: ClientBuilder,
    on: bool,
    b9: ClientBuilder,
    every: u8,
    b10: ClientBuilder,
    session: u64,
    b11: ClientBuilder,
)
    requires
        call_ensures(ClientBuilder::sni, (b, sni), b1),
        call_ensures(ClientBuilder::tls_verify, (b, tls), b2),
        call_ensures(ClientBuilder::client_identity, (b, id), b3),
        call_ensures(ClientBuilder::reconnect, (b, policy), b4),
        call_ensures(ClientBuilder::max_message_size, (b, n), b5),
        call_ensures(ClientBuilder::subscriber_buffer, (b, n), b6),
        call_ensures(ClientBuilder::cmd_channel_cap, (b, n), b7),
        call_ensures(ClientBuilder::max_idle_timeout, (b, idle), b8),
        call_ensures(ClientBuilder::reliable, (b, on), b9),
        call_ensures(ClientBuilder::ack_interval, (b, every), b10),
        call_ensures(ClientBuilder::logical_session_id, (b, session), b11),
    ensures
        b1.cfg.sni@ == sni@,
        b1.cfg == (ClientConfig { sni: b1.cfg.sni, ..b.cfg }),
        b2.cfg == (ClientConfig { tls, ..b.cfg }),
        b3.cfg == (ClientConfig { client_identity: Some(id), ..b.cfg }),
        b4.cfg == (ClientConfig { reconnect: policy, ..b.cfg }),
        b5.cfg == (ClientConfig { max_message_size: n, ..b.cfg }),
        b6.cfg == (ClientConfig { subscriber_buffer: n, ..b.cfg }),
        b7.cfg == (ClientConfig { cmd_channel_cap: n, ..b.cfg }),
        b8.cfg == (ClientConfig { idle_timeout: idle, ..b.cfg }),
        b9.cfg == (ClientConfig { reliable: on, ..b.cfg }),
        b10.cfg == (ClientConfig { ack_interval: every, ..b.cfg }),
        b11.cfg == (ClientConfig { logical_session_id: session, ..b.cfg }),
{
}

/// A copied configuration is the same: host, port, server name, verification, identity and all the
/// rest.
pub proof fn law_copied_settings_are_the_same(
    b: &ClientBuilder,
    copy: ClientBuilder,
    spec: &StreamSpec,
    other: StreamSpec,
    t: StreamType,
)
    requires
        call_ensures(<ClientBuilder as Clone>::clone, (b,), copy),
        call_ensures(<StreamSpec as Clone>::clone, (spec,), other),
    ensures
        copy.cfg == (ClientConfig { tls: copy.cfg.tls, ..b.cfg }),
        b.cfg.tls matches TlsVerify::Strict { ca } ==> copy.cfg.tls == (TlsVerify::Strict { ca }),
        b.cfg.tls matches TlsVerify::Pinned { cert_der } ==> {
            &&& copy.cfg.tls is Pinned
            &&& copy.cfg.tls->cert_der@ == cert_der@
        },
        b.cfg.tls is Tofu ==> copy.cfg.tls is Tofu,
        b.cfg.tls is DangerAcceptInvalid ==> copy.cfg.tls is DangerAcceptInvalid,
        other == *spec,
        <StreamSpec as FromSpec<StreamType>>::from_spec(t).policy == t.policy(),
        <StreamSpec as FromSpec<StreamType>>::from_spec(t).priority == t.priority(),
        <StreamSpec as FromSpec<StreamType>>::from_spec(t).topic is None,
        <StreamSpec as FromSpec<StreamType>>::from_spec(t).stream_type == t,
{
}

/// The command channel holds at least one command. A chosen session id is kept.
pub proof fn law_derived_settings(
    cfg: &ClientConfig,
    depth: usize,
    now: u128,
    session: u64,
)
    requires
        call_ensures(ClientConfig::command_depth, (cfg,), depth),
        call_ensures(ClientConfig::session_id, (cfg, now), session),
    ensures
        depth >= 1,
        cfg.cmd_channel_cap >= 1 ==> depth == cfg.cmd_channel_cap,
        cfg.cmd_channel_cap == 0 ==> depth == 1,
        cfg.logical_session_id != 0 ==> session == cfg.logical_session_id,
        cfg.logical_session_id == 0 ==> session == ((now % 0x1_0000_0000_0000_0000)
            * 0x9E37_79B9_7F4A_7C15) % 0x1_0000_0000_0000_0000,
{
}

/// Spans of time keep what they were made of, and the longer of two exceeds the other.
pub proof fn law_spans_keep_their_length(
    secs: u64,
    nanos: u32,
    d: Duration,
    s: u64,
    n: u32,
    ms: u128,
    millis: u64,
    e: Duration,
    whole: Duration,
    longer: bool,
)
    requires
        nanos < 1_000_000_000,
        call_ensures(Duration::new, (secs, nanos), d),
        call_ensures(Duration::as_secs, (&d,), s),
        call_ensures(Duration::subsec_nanos, (&d,), n),
        call_ensures(Duration::as_millis, (&d,), ms),
        call_ensures(Duration::from_millis, (millis,), e),
        call_ensures(Duration::from_secs, (secs,), whole),
        call_ensures(Duration::exceeds, (&d, &e), longer),
    ensures
        s == secs,
        n == nanos,
        ms == secs * 1000 + nanos / 1_000_000,
        e@ == millis * 1_000_000,
        whole@ == secs * 1_000_000_000,
        longer <==> secs * 1_000_000_000 + nanos > millis * 1_000_000,
{
}

/// Realtime media drop what is stale, files arrive in any order, and everything else in order.
/// Sound comes first, pictures and events next, files last. A stream of a type starts from these,
/// and one without a type from its policy, at normal priority; both hear everything unless a topic
/// is chosen.
pub proof fn law_stream_types_choose_their_delivery(
    t: StreamType,
    policy: DeliveryPolicy,
    priority: StreamPriority,
    typed: StreamSpec,
    given: DeliveryPolicy,
    plain: StreamSpec,
    topic: &str,
    scoped: StreamSpec,
    urgent: StreamSpec,
)
    requires
        call_ensures(StreamType::default_policy, (t,), policy),
        call_ensures(StreamType::default_priority, (t,), priority),
        call_ensures(StreamSpec::typed, (t,), typed),
        call_ensures(StreamSpec::new, (given,), plain),
        call_ensures(StreamSpec::with_topic, (typed, topic), scoped),
        call_ensures(StreamSpec::with_priority, (typed, StreamPriority::Critical), urgent),
    ensures
        policy == DeliveryPolicy::RealtimeDropOld <==> t == StreamType::Audio || t
            == StreamType::Video,
        policy == DeliveryPolicy::ReliableUnordered <==> t == StreamType::File,
        policy != DeliveryPolicy::LatestOnly,
        priority == StreamPriority::Critical <==> t == StreamType::Audio,
        priority == StreamPriority::High <==> t == StreamType::Video || t == StreamType::Event,
        priority == StreamPriority::Low <==> t == StreamType::File,
        typed.policy == policy,
        typed.priority == priority,
        typed.topic is None,
        typed.stream_type == t,
        plain.policy == given,
        plain.priority == StreamPriority::Normal,
        plain.topic is None,
        scoped.topic matches Some(s) && s@ == topic@,
        scoped.policy == policy,
        scoped.priority == priority,
        urgent.priority == StreamPriority::Critical,
        urgent.policy == policy,
{
}

/// A new task knows no one and nothing: no subscriptions, no streams, no calls and no numbers. Its
/// first dedicated stream will have the id 4.
pub proof fn law_tasks_start_empty(
    subscriber_buffer: usize,
    max_message_size: usize,
    reliable: bool,
    interval: u8,
    session: u64,
    st: TaskState,
)
    requires
        call_ensures(
            TaskState::new,
            (subscriber_buffer, max_message_size, reliable, interval, session),
            st,
        ),
    ensures
        st.routing.subs@.len() == 0,
        forall|sid: u64| !#[trigger] st.routing.streams@.contains_key(sid),
        forall|cid: u128| !#[trigger] st.routing.pending_rpcs@.contains_key(cid),
        st.routing.rpc_reply_topics@.len() == 0,
        st.group_subs@.len() == 0,
        st.pending_fetches@.len() == 0,
        forall|sid: u64| !#[trigger] st.seqs@.contains_key(sid),
        forall|sid: u64| !#[trigger] st.reliability.highest_accepted@.contains_key(sid),
        forall|sid: u64| !#[trigger] st.reliability.pending_acks@.contains_key(sid),
        st.reliability.enabled == reliable,
        st.reliability.ack_interval == interval,
        st.reliability.logical_session_id == session,
        st.next_bidi == 4,
        st.subscriber_buffer == subscriber_buffer,
        st.max_message_size == max_message_size,
        !st.close_requested,
{
    assert(st.reliability@.highest == st.reliability.highest_accepted@);
    assert(st.reliability@.acks == st.reliability.pending_acks@);
    assert forall|cid: u128| !#[trigger] st.routing.pending_rpcs@.contains_key(cid) by {
        assert(!st.routing.pending_rpcs@.dom().contains(cid));
    }
}

} // verus!
