use bytes::Bytes;
use vireon::error::DecodeError;
use vireon::message::{Message, Payload, Qos};
use vireon::stream::{DeliveryPolicy, StreamPriority, StreamSpec, StreamType};

#[test]
fn qos_bytes() {
    assert_eq!(Qos::AtMostOnce.as_byte(), 0);
    assert_eq!(Qos::AtLeastOnce.as_byte(), 1);
    assert_eq!(Qos::from_byte(0), Qos::AtMostOnce);
    assert_eq!(Qos::from_byte(1), Qos::AtLeastOnce);
    assert_eq!(Qos::from_byte(255), Qos::AtLeastOnce);
    assert_eq!(Qos::default(), Qos::AtMostOnce);
}

#[test]
fn payloads_of_every_kind() {
    assert_eq!(Bytes::from_static(b"ab").into_bytes().as_ref(), b"ab");
    assert_eq!(vec![1u8, 2, 3].into_bytes().as_ref(), &[1, 2, 3]);
    let slice: &[u8] = &[4, 5];
    assert_eq!(slice.into_bytes().as_ref(), &[4, 5]);
    assert_eq!((b"xyz").into_bytes().as_ref(), b"xyz");
    assert_eq!("grün".into_bytes().as_ref(), "grün".as_bytes());
    assert_eq!(String::from("hé").into_bytes(), "hé".as_bytes());
    assert_eq!(Payload::into_bytes(String::from("hé")).as_ref(), "hé".as_bytes());
}

#[test]
fn cloned_messages_say_the_same() {
    let m = Message {
        topic: Bytes::from_static(b"a.b"),
        payload: Bytes::from_static(b"body"),
        seq: 9,
        stream_id: 4,
    };
    let c = m.clone();
    assert_eq!(c.topic, m.topic);
    assert_eq!(c.payload, m.payload);
    assert_eq!((c.seq, c.stream_id), (9, 4));
}

#[test]
fn stream_type_defaults() {
    assert_eq!(StreamType::Audio.default_policy(), DeliveryPolicy::RealtimeDropOld);
    assert_eq!(StreamType::Video.default_policy(), DeliveryPolicy::RealtimeDropOld);
    assert_eq!(StreamType::Text.default_policy(), DeliveryPolicy::ReliableOrdered);
    assert_eq!(StreamType::Event.default_policy(), DeliveryPolicy::ReliableOrdered);
    assert_eq!(StreamType::Ai.default_policy(), DeliveryPolicy::ReliableOrdered);
    assert_eq!(StreamType::Custom.default_policy(), DeliveryPolicy::ReliableOrdered);
    assert_eq!(StreamType::File.default_policy(), DeliveryPolicy::ReliableUnordered);
    assert_eq!(StreamType::Audio.default_priority(), StreamPriority::Critical);
    assert_eq!(StreamType::Video.default_priority(), StreamPriority::High);
    assert_eq!(StreamType::Event.default_priority(), StreamPriority::High);
    assert_eq!(StreamType::Text.default_priority(), StreamPriority::Normal);
    assert_eq!(StreamType::Ai.default_priority(), StreamPriority::Normal);
    assert_eq!(StreamType::Custom.default_priority(), StreamPriority::Normal);
    assert_eq!(StreamType::File.default_priority(), StreamPriority::Low);
}

#[test]
fn stream_specs() {
    let s = StreamSpec::new(DeliveryPolicy::LatestOnly);
    assert_eq!(s.policy, DeliveryPolicy::LatestOnly);
    assert_eq!(s.priority, StreamPriority::Normal);
    assert_eq!(s.topic, None);
    assert_eq!(s.stream_type, StreamType::Custom);

    let s = StreamSpec::typed(StreamType::File)
        .with_topic("files.sync")
        .with_priority(StreamPriority::High);
    assert_eq!(s.policy, DeliveryPolicy::ReliableUnordered);
    assert_eq!(s.priority, StreamPriority::High);
    assert_eq!(s.topic.as_deref(), Some("files.sync"));
    assert_eq!(s.stream_type, StreamType::File);
    let c = s.clone();
    assert_eq!(c.topic, s.topic);

    let s: StreamSpec = StreamType::Audio.into();
    assert_eq!(s.policy, DeliveryPolicy::RealtimeDropOld);
    assert_eq!(s.priority, StreamPriority::Critical);
}

#[test]
fn decode_errors_keep_their_description() {
    assert_eq!(DecodeError::from_frame("bad magic".into()).0, "bad magic");
}
