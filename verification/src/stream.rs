//! Dedicated logical streams with per-stream delivery semantics.
use tokio::sync::mpsc;
use vstd::prelude::*;

use crate::channel;
use crate::channel::polled;
use crate::message::Message;

verus! {

/// How the server sends on a stream.
#[derive(Clone, Copy, Debug, PartialEq, Eq, Structural)]
pub enum DeliveryPolicy {
    /// Everything arrives, in order.
    ReliableOrdered,
    /// Everything arrives, in any order.
    ReliableUnordered,
    /// Stale frames are dropped in favour of fresh ones.
    RealtimeDropOld,
    /// Only the newest frame matters.
    LatestOnly,
}

/// How urgent a stream is.
#[derive(Clone, Copy, Debug, PartialEq, Eq, Structural)]
pub enum StreamPriority {
    /// Before everything else.
    Critical,
    /// Before ordinary traffic.
    High,
    /// Ordinary traffic.
    Normal,
    /// After everything else.
    Low,
}

/// Content category of a dedicated stream, each with a sensible default policy and priority.
#[derive(Clone, Copy, Debug, PartialEq, Eq, Structural)]
pub enum StreamType {
    /// Realtime audio: stale samples are useless.
    Audio,
    /// Realtime video: the same.
    Video,
    /// Chat or text: in order and complete.
    Text,
    /// State mutations, presence, configuration: must not be lost.
    Event,
    /// Token streams: ordered, lossless.
    Ai,
    /// Bulk file transfer: lossless, order not required.
    File,
    /// The caller sets the policy.
    Custom,
}

impl StreamType {
    /// The default policy of a stream type.
    pub open spec fn policy(self) -> DeliveryPolicy {
        match self {
            StreamType::Audio | StreamType::Video => DeliveryPolicy::RealtimeDropOld,
            StreamType::File => DeliveryPolicy::ReliableUnordered,
            _ => DeliveryPolicy::ReliableOrdered,
        }
    }

    /// The default priority of a stream type.
    pub open spec fn priority(self) -> StreamPriority {
        match self {
            StreamType::Audio => StreamPriority::Critical,
            StreamType::Video | StreamType::Event => StreamPriority::High,
            StreamType::File => StreamPriority::Low,
            _ => StreamPriority::Normal,
        }
    }

    /// The default [`DeliveryPolicy`] of this stream type.
    pub fn default_policy(self) -> (r: DeliveryPolicy)
        ensures
            r == self.policy(),
    {
        match self {
            StreamType::Audio | StreamType::Video => DeliveryPolicy::RealtimeDropOld,
            StreamType::Text | StreamType::Event | StreamType::Ai | StreamType::Custom =>
                DeliveryPolicy::ReliableOrdered,
            StreamType::File => DeliveryPolicy::ReliableUnordered,
        }
    }

    /// The default [`StreamPriority`] of this stream type, independent of its policy.
    pub fn default_priority(self) -> (r: StreamPriority)
        ensures
            r == self.priority(),
    {
        match self {
            StreamType::Audio => StreamPriority::Critical,
            StreamType::Video | StreamType::Event => StreamPriority::High,
            StreamType::Text | StreamType::Ai | StreamType::Custom => StreamPriority::Normal,
            StreamType::File => StreamPriority::Low,
        }
    }
}

/// Specification of a dedicated stream.
#[derive(Debug)]
pub struct StreamSpec {
    /// Egress policy declared to the server when the stream opens.
    pub policy: DeliveryPolicy,
    /// Egress priority, independent of `policy`.
    pub priority: StreamPriority,
    /// The single topic to subscribe on this stream; `None` is the pattern `"*"`.
    pub topic: Option<String>,
    /// Content category; informational only.
    pub stream_type: StreamType,
}

impl Clone for StreamSpec {
    fn clone(&self) -> (r: Self)
        ensures
            r == *self,
    {
        let topic = match &self.topic {
            Some(t) => Some(t.clone()),
            None => None,
        };
        StreamSpec {
            policy: self.policy,
            priority: self.priority,
            topic,
            stream_type: self.stream_type,
        }
    }
}

impl From<StreamType> for StreamSpec {
    /// The type's default policy and priority.
    fn from(t: StreamType) -> (r: Self) {
        StreamSpec::typed(t)
    }
}

impl vstd::std_specs::convert::FromSpecImpl<StreamType> for StreamSpec {
    open spec fn obeys_from_spec() -> bool {
        true
    }

    open spec fn from_spec(t: StreamType) -> Self {
        StreamSpec { policy: t.policy(), priority: t.priority(), topic: None, stream_type: t }
    }
}

impl StreamSpec {
    /// The given policy, a catch-all subscription and the priority [`StreamPriority::Normal`].
    pub fn new(policy: DeliveryPolicy) -> (r: Self)
        ensures
            r == (StreamSpec {
                policy,
                priority: StreamPriority::Normal,
                topic: None,
                stream_type: StreamType::Custom,
            }),
    {
        StreamSpec {
            policy,
            priority: StreamPriority::Normal,
            topic: None,
            stream_type: StreamType::Custom,
        }
    }

    /// The default policy and priority of a [`StreamType`].
    pub fn typed(stream_type: StreamType) -> (r: Self)
        ensures
            r == (StreamSpec {
                policy: stream_type.policy(),
                priority: stream_type.priority(),
                topic: None,
                stream_type,
            }),
    {
        StreamSpec {
            policy: stream_type.default_policy(),
            priority: stream_type.default_priority(),
            topic: None,
            stream_type,
        }
    }

    /// Scope this stream's subscription to a single topic.
    pub fn with_topic(self, topic: &str) -> (r: Self)
        ensures
            r.topic is Some,
            r.topic->0@ == topic@,
            r == (StreamSpec { topic: r.topic, ..self }),
    {
        StreamSpec { topic: Some(topic.to_owned()), ..self }
    }

    /// Override the egress priority.
    pub fn with_priority(self, priority: StreamPriority) -> (r: Self)
        ensures
            r == (StreamSpec { priority, ..self }),
    {
        StreamSpec { priority, ..self }
    }
}

/// Receiver for messages matching a subscription pattern.
pub struct Subscription {
    /// Messages arrive here.
    pub rx: mpsc::Receiver<Message>,
}

/// Receiver for the messages of a consumer-group membership.
pub struct GroupSubscription {
    /// Messages arrive here.
    pub rx: mpsc::Receiver<Message>,
}

/// Handle to a dedicated stream with its own delivery policy.
pub struct StreamHandle {
    /// Stream id of this dedicated stream.
    pub stream_id: u64,
    /// Messages delivered on the stream arrive here.
    pub rx: mpsc::Receiver<Message>,
}

impl StreamHandle {
    /// The stream id backing this handle.
    pub fn stream_id(&self) -> (r: u64)
        ensures
            r == self.stream_id,
    {
        self.stream_id
    }

    /// Non-blocking receive: asks the stream's channel for a buffered message, takes it out and
    /// returns it, or `None`, with nothing taken, where none is buffered; see [`polled`]. Whether there is one, and which,
    /// depends on what has been delivered meanwhile.
    pub fn try_recv(&mut self) -> (r: Option<Message>)
        ensures
            polled(old(self).rx, final(self).rx, r),
            final(self).stream_id == old(self).stream_id,
    {
        channel::poll(&mut self.rx)
    }
}

} // verus!
