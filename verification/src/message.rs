//! Received messages, quality of service and publishable payloads.
use bytes::Bytes;
use vstd::prelude::*;
use vstd::utf8::encode_utf8;

use crate::buf;
use crate::buf::bytes_view;

verus! {

/// A message delivered to a subscription or to a dedicated stream.
///
/// `topic` and `payload` are reference-counted, so that handing a message to several consumers
/// never copies the body.
#[derive(Debug)]
pub struct Message {
    /// The destination topic the publisher addressed.
    pub topic: Bytes,
    /// Opaque application bytes.
    pub payload: Bytes,
    /// Per-stream sequence number assigned by the sender.
    pub seq: u64,
    /// The stream this message travelled on; 0 is the default channel.
    pub stream_id: u64,
}

/// What a message says.
pub struct MessageModel {
    pub topic: Seq<u8>,
    pub payload: Seq<u8>,
    pub seq: u64,
    pub stream_id: u64,
}

impl View for Message {
    type V = MessageModel;

    open spec fn view(&self) -> MessageModel {
        MessageModel {
            topic: bytes_view(self.topic),
            payload: bytes_view(self.payload),
            seq: self.seq,
            stream_id: self.stream_id,
        }
    }
}

impl Clone for Message {
    /// Another handle to the same topic and payload.
    fn clone(&self) -> (r: Self)
        ensures
            r@ == self@,
    {
        Message {
            topic: buf::share(&self.topic),
            payload: buf::share(&self.payload),
            seq: self.seq,
            stream_id: self.stream_id,
        }
    }
}

/// Quality-of-service hint attached to a subscription.
#[derive(Clone, Copy, Debug, PartialEq, Eq, Structural)]
pub enum Qos {
    /// At-most-once delivery (default).
    AtMostOnce,
    /// At-least-once delivery.
    AtLeastOnce,
}

impl Qos {
    /// Wire byte of this quality of service.
    pub fn as_byte(self) -> (r: u8)
        ensures
            r == match self {
                Qos::AtMostOnce => 0u8,
                Qos::AtLeastOnce => 1u8,
            },
    {
        match self {
            Qos::AtMostOnce => 0,
            Qos::AtLeastOnce => 1,
        }
    }

    /// The quality of service of a wire byte. Any non-zero value is [`Qos::AtLeastOnce`].
    pub fn from_byte(b: u8) -> (r: Self)
        ensures
            r == if b >= 1 {
                Qos::AtLeastOnce
            } else {
                Qos::AtMostOnce
            },
    {
        if b >= 1 {
            Qos::AtLeastOnce
        } else {
            Qos::AtMostOnce
        }
    }
}

impl Default for Qos {
    fn default() -> (r: Self)
        ensures
            r == Qos::AtMostOnce,
    {
        Qos::AtMostOnce
    }
}

/// Anything that can be converted into a message payload: the common byte containers.
pub trait Payload: Sized {
    /// The bytes that a value stands for.
    spec fn payload_bytes(self) -> Seq<u8>;

    /// Consume into [`Bytes`].
    fn into_bytes(self) -> (r: Bytes)
        ensures
            bytes_view(r) == self.payload_bytes(),
    ;
}

impl Payload for Bytes {
    open spec fn payload_bytes(self) -> Seq<u8> {
        bytes_view(self)
    }

    fn into_bytes(self) -> Bytes {
        self
    }
}

impl Payload for Vec<u8> {
    open spec fn payload_bytes(self) -> Seq<u8> {
        self@
    }

    fn into_bytes(self) -> Bytes {
        buf::from_vec(self)
    }
}

impl Payload for &[u8] {
    open spec fn payload_bytes(self) -> Seq<u8> {
        self@
    }

    fn into_bytes(self) -> Bytes {
        buf::copy_from_slice(self)
    }
}

impl<const N: usize> Payload for &[u8; N] {
    open spec fn payload_bytes(self) -> Seq<u8> {
        self@
    }

    fn into_bytes(self) -> Bytes {
        buf::copy_from_slice(self.as_slice())
    }
}

impl Payload for &str {
    open spec fn payload_bytes(self) -> Seq<u8> {
        encode_utf8(self@)
    }

    fn into_bytes(self) -> Bytes {
        buf::copy_from_slice(self.as_bytes())
    }
}

impl Payload for String {
    open spec fn payload_bytes(self) -> Seq<u8> {
        encode_utf8(self@)
    }

    fn into_bytes(self) -> Bytes {
        buf::from_string(self)
    }
}

} // verus!
