//! Typed errors: every failure is actionable, so that a caller can decide whether to retry, to
//! reconnect or to report it.
use vstd::prelude::*;

use crate::time::Duration;

verus! {

/// Failure to establish or maintain the connection.
#[derive(Debug)]
pub enum ConnectError {
    /// TLS handshake or certificate validation failed.
    Tls(String),
    /// The handshake did not complete within the deadline.
    HandshakeTimeout(Duration),
    /// The server did not select a protocol that the client offers.
    AlpnNegotiation,
    /// The peer closed the connection, with a reason phrase.
    Closed(String),
    /// The handle was already closed.
    ClientClosed,
    /// A configuration value was invalid.
    Config(String),
    /// The QUIC library returned an error: its description.
    Quiche(String),
    /// An I/O error on the socket: its description.
    Io(String),
    /// The local pending-sends buffer has reached its configured cap.
    TransportFull,
}

/// Failure to publish a message.
#[derive(Debug)]
pub enum PublishError {
    /// The connection is no longer usable (closed or reconnecting).
    NotConnected,
    /// The payload could not be encoded for the wire.
    EncodingFailed(String),
    /// The payload exceeded the configured maximum message size.
    TooLarge(usize),
    /// Flow control refused the write; retry after the peer credits window.
    FlowControlBlocked,
    /// The local transport pending buffer has hit its cap.
    Backpressure,
}

/// Failure to subscribe or unsubscribe.
#[derive(Debug)]
pub enum SubscribeError {
    /// The subscription pattern was rejected (malformed or denied).
    InvalidPattern(String),
    /// The connection is no longer usable.
    NotConnected,
}

/// Failure to open or use a dedicated logical stream.
#[derive(Debug)]
pub enum StreamError {
    /// The declared delivery policy was rejected by the server.
    PolicyRejected(String),
    /// No stream id capacity remains.
    NoCapacity,
    /// The connection is no longer usable.
    NotConnected,
}

/// Failure to join or leave a consumer group.
#[derive(Debug)]
pub enum GroupError {
    /// The topic, group or consumer id was rejected.
    Rejected(String),
    /// The connection is no longer usable.
    NotConnected,
}

/// Failure of a request/reply call.
///
/// The caller publishes a request whose payload is prefixed with a 16-byte correlation id, and
/// awaits a reply that carries the same prefix on a reply topic.
#[derive(Debug)]
pub enum RpcError {
    /// The connection dropped before a reply arrived.
    NotConnected,
    /// Could not subscribe to the reply topic.
    SubscribeFailed(SubscribeError),
    /// Could not send the request frame.
    PublishFailed(PublishError),
    /// No reply arrived within the requested deadline.
    Timeout(Duration),
}

/// A frame that could not be decoded: the decoder's description.
///
/// It is deliberately not a connection error: a malformed frame on one stream must not tear
/// down the whole connection.
#[derive(Debug)]
pub struct DecodeError(pub String);

impl DecodeError {
    /// Wraps the decoder's description.
    pub fn from_frame(e: String) -> (r: Self)
        ensures
            r.0 == e,
    {
        DecodeError(e)
    }
}

} // verus!
