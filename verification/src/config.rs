//! Configuration, builder and TLS verification policy.
use vstd::prelude::*;
use vstd::string::*;

use crate::text;
use crate::text::number_upto;
use crate::time;
use crate::time::{backoff_ms, Duration};

verus! {

/// Port used where an address names none.
pub const DEFAULT_PORT: u16 = 4433;

/// A path in the file system: how it is displayed, and whether that is exactly the path. Paths
/// need not be UTF-8; one that is not is displayed with replacement characters.
#[derive(Debug)]
pub struct FilePath {
    /// The path as it is displayed.
    pub display: String,
    /// Whether the path is UTF-8, so that `display` is the path itself.
    pub is_utf8: bool,
}

impl Clone for FilePath {
    fn clone(&self) -> (r: Self)
        ensures
            r == *self,
    {
        FilePath { display: self.display.clone(), is_utf8: self.is_utf8 }
    }
}

/// How the client validates the server's TLS certificate.
#[derive(Debug)]
pub enum TlsVerify {
    /// Validate against a CA bundle on disk.
    Strict {
        /// Path to a PEM-encoded CA bundle.
        ca: FilePath,
    },
    /// Accept only this certificate.
    Pinned {
        /// DER bytes of the pinned leaf certificate.
        cert_der: Vec<u8>,
    },
    /// Trust-on-first-use: accept whatever certificate the server presents.
    Tofu,
    /// Disable certificate validation. Development only.
    DangerAcceptInvalid,
}

/// Two policies that say the same.
pub open spec fn same_policy(a: TlsVerify, b: TlsVerify) -> bool {
    match (a, b) {
        (TlsVerify::Strict { ca: x }, TlsVerify::Strict { ca: y }) => x == y,
        (TlsVerify::Pinned { cert_der: x }, TlsVerify::Pinned { cert_der: y }) => x@ == y@,
        (TlsVerify::Tofu, TlsVerify::Tofu) => true,
        (TlsVerify::DangerAcceptInvalid, TlsVerify::DangerAcceptInvalid) => true,
        _ => false,
    }
}

impl Clone for TlsVerify {
    fn clone(&self) -> (r: Self)
        ensures
            same_policy(*self, r),
    {
        match self {
            TlsVerify::Strict { ca } => TlsVerify::Strict { ca: ca.clone() },
            TlsVerify::Pinned { cert_der } => TlsVerify::Pinned { cert_der: cert_der.clone() },
            TlsVerify::Tofu => TlsVerify::Tofu,
            TlsVerify::DangerAcceptInvalid => TlsVerify::DangerAcceptInvalid,
        }
    }
}

impl Default for TlsVerify {
    fn default() -> (r: Self)
        ensures
            r == TlsVerify::Tofu,
    {
        TlsVerify::Tofu
    }
}

/// Client identity for mutual TLS, independent of [`TlsVerify`].
#[derive(Debug)]
pub struct ClientIdentity {
    /// PEM-encoded certificate chain path.
    pub cert: FilePath,
    /// PEM-encoded private key path.
    pub key: FilePath,
}

impl Clone for ClientIdentity {
    fn clone(&self) -> (r: Self)
        ensures
            r == *self,
    {
        ClientIdentity { cert: self.cert.clone(), key: self.key.clone() }
    }
}

/// Reconnect behaviour after the connection drops.
#[derive(Clone, Copy, Debug)]
pub struct ReconnectPolicy {
    /// Maximum reconnect attempts before giving up; 0 disables reconnect.
    pub max_attempts: u32,
    /// Backoff before the first retry.
    pub initial_backoff: Duration,
    /// Cap on the backoff between retries.
    pub max_backoff: Duration,
    /// Whether every active subscription is re-established, and every dedicated stream reopened,
    /// after a successful reconnect.
    pub resubscribe: bool,
}

impl ReconnectPolicy {
    /// Reconnect disabled; half a second, ten seconds and resubscribing otherwise.
    pub open spec fn is_default(self) -> bool {
        &&& self.max_attempts == 0
        &&& self.initial_backoff@ == 500_000_000
        &&& self.max_backoff@ == 10_000_000_000
        &&& self.resubscribe
    }

    /// Fully disable automatic reconnection.
    pub fn disabled() -> (r: Self)
        ensures
            r.is_default(),
    {
        ReconnectPolicy::default()
    }

    /// Backoff for the `attempt`-th retry (counted from 0), exponential up to the cap.
    pub fn backoff_for(&self, attempt: u32) -> (r: Duration)
        ensures
            r@ == backoff_ms(attempt, self.initial_backoff@, self.max_backoff@) * 1_000_000,
    {
        time::backoff_for(attempt, self.initial_backoff, self.max_backoff)
    }
}

impl Default for ReconnectPolicy {
    fn default() -> (r: Self)
        ensures
            r.is_default(),
    {
        ReconnectPolicy {
            max_attempts: 0,
            initial_backoff: Duration::from_millis(500),
            max_backoff: Duration::from_secs(10),
            resubscribe: true,
        }
    }
}

/// Resolved configuration of a connection.
#[derive(Debug)]
pub struct ClientConfig {
    /// Server hostname (no port).
    pub host: String,
    /// Server port.
    pub port: u16,
    /// TLS server name.
    pub sni: String,
    /// Certificate validation policy.
    pub tls: TlsVerify,
    /// Client certificate for mutual TLS.
    pub client_identity: Option<ClientIdentity>,
    /// Reconnect policy.
    pub reconnect: ReconnectPolicy,
    /// Largest payload accepted for a single message.
    pub max_message_size: usize,
    /// Depth of each subscriber's channel.
    pub subscriber_buffer: usize,
    /// Depth of the command channel.
    pub cmd_channel_cap: usize,
    /// Idle timeout; the effective one is the smaller of the client's and the server's.
    pub idle_timeout: Duration,
    /// Whether publishes ask for acknowledgements and inbound duplicates are suppressed.
    pub reliable: bool,
    /// An acknowledgement is sent every so many reliable deliveries.
    pub ack_interval: u8,
    /// Logical session id; 0 picks one at random.
    pub logical_session_id: u64,
}

impl Clone for ClientConfig {
    fn clone(&self) -> (r: Self)
        ensures
            same_policy(self.tls, r.tls),
            r == (ClientConfig { tls: r.tls, ..*self }),
    {
        let client_identity = match &self.client_identity {
            Some(id) => Some(id.clone()),
            None => None,
        };
        ClientConfig {
            host: self.host.clone(),
            port: self.port,
            sni: self.sni.clone(),
            tls: self.tls.clone(),
            client_identity,
            reconnect: self.reconnect,
            max_message_size: self.max_message_size,
            subscriber_buffer: self.subscriber_buffer,
            cmd_channel_cap: self.cmd_channel_cap,
            idle_timeout: self.idle_timeout,
            reliable: self.reliable,
            ack_interval: self.ack_interval,
            logical_session_id: self.logical_session_id,
        }
    }
}

impl ClientConfig {
    /// Everything but the address, the TLS settings and the client identity is left at its
    /// default.
    pub open spec fn has_defaults(self) -> bool {
        &&& self.reconnect.is_default()
        &&& self.max_message_size == 1024 * 1024
        &&& self.subscriber_buffer == 8192
        &&& self.cmd_channel_cap == 4096
        &&& self.idle_timeout@ == 60_000_000_000
        &&& !self.reliable
        &&& self.ack_interval == 32
        &&& self.logical_session_id == 0
    }
}

/// The port behind a colon, or the default port.
pub open spec fn port_or_default(s: Seq<char>) -> u16 {
    match number_upto(s, 65535) {
        Some(p) => p as u16,
        None => DEFAULT_PORT,
    }
}

/// Host and port that an address names. `[host]` and `[host]:port` keep their brackets; else the
/// last colon separates host and port. What is no port leaves the default port: behind brackets
/// it is dropped, else it belongs to the host.
pub open spec fn address(raw: Seq<char>) -> (Seq<char>, u16) {
    if raw.len() == 0 {
        ("127.0.0.1"@, DEFAULT_PORT)
    } else if raw[0] == '[' && raw.index_of_first(']') is Some {
        let end = raw.index_of_first(']')->0;
        let tail = raw.skip(end + 1);
        if tail.len() > 0 && tail[0] == ':' {
            (raw.take(end + 1), port_or_default(tail.skip(1)))
        } else {
            (raw.take(end + 1), DEFAULT_PORT)
        }
    } else {
        match raw.index_of_last(':') {
            None => (raw, DEFAULT_PORT),
            Some(i) => match number_upto(raw.skip(i + 1), 65535) {
                Some(p) => (raw.take(i), p as u16),
                None => (raw, DEFAULT_PORT),
            },
        }
    }
}

/// Splits `"host:port"` (or `"host"`) into host and port; see [`address`].
pub fn parse_addr(raw: &str) -> (r: (String, u16))
    ensures
        (r.0@, r.1) == address(raw@),
{
    let chars = text::chars_of(raw);
    let n: usize = chars.len();
    if n == 0 {
        return ("127.0.0.1".to_owned(), DEFAULT_PORT);
    }
    if chars[0] == '[' {
        match text::find_first(&chars, ']') {
            Some(end) => {
                let host = text::string_of(&chars, 0, end + 1);
                assert(host@ =~= raw@.take(end + 1));
                if end + 1 < n && chars[end + 1] == ':' {
                    assert(raw@.skip(end + 1).skip(1) =~= raw@.skip(end + 2));
                    return match text::parse_number(&chars, end + 2, 65535) {
                        Some(p) => (host, p as u16),
                        None => (host, DEFAULT_PORT),
                    };
                }
                return (host, DEFAULT_PORT);
            },
            None => {},
        }
    }
    match text::find_last(&chars, ':') {
        None => (raw.to_owned(), DEFAULT_PORT),
        Some(i) => {
            match text::parse_number(&chars, i + 1, 65535) {
                Some(p) => {
                    let host = text::string_of(&chars, 0, i);
                    assert(host@ =~= raw@.take(i as int));
                    (host, p as u16)
                },
                None => (raw.to_owned(), DEFAULT_PORT),
            }
        },
    }
}

/// Builder for a connection.
#[derive(Debug)]
pub struct ClientBuilder {
    /// The configuration so far.
    pub cfg: ClientConfig,
}

impl Clone for ClientBuilder {
    fn clone(&self) -> (r: Self)
        ensures
            same_policy(self.cfg.tls, r.cfg.tls),
            r.cfg == (ClientConfig { tls: r.cfg.tls, ..self.cfg }),
    {
        ClientBuilder { cfg: self.cfg.clone() }
    }
}

impl ClientBuilder {
    /// A builder targeting `addr`: `"host:port"` or a bare `"host"`. The TLS server name
    /// defaults to the host.
    pub fn new(addr: &str) -> (r: Self)
        ensures
            (r.cfg.host@, r.cfg.port) == address(addr@),
            r.cfg.sni@ == r.cfg.host@,
            r.cfg.tls == TlsVerify::Tofu,
            r.cfg.client_identity is None,
            r.cfg.has_defaults(),
    {
        let (host, port) = parse_addr(addr);
        let sni = host.clone();
        ClientBuilder {
            cfg: ClientConfig {
                host,
                port,
                sni,
                tls: TlsVerify::default(),
                client_identity: None,
                reconnect: ReconnectPolicy::default(),
                max_message_size: 1024 * 1024,
                subscriber_buffer: 8192,
                cmd_channel_cap: 4096,
                idle_timeout: Duration::from_secs(60),
                reliable: false,
                ack_interval: 32,
                logical_session_id: 0,
            },
        }
    }

    /// Override the TLS server name.
    pub fn sni(self, sni: &str) -> (r: Self)
        ensures
            r.cfg.sni@ == sni@,
            r.cfg == (ClientConfig { sni: r.cfg.sni, ..self.cfg }),
    {
        ClientBuilder { cfg: ClientConfig { sni: sni.to_owned(), ..self.cfg } }
    }

    /// Set the certificate validation policy (default [`TlsVerify::Tofu`]).
    pub fn tls_verify(self, v: TlsVerify) -> (r: Self)
        ensures
            r.cfg == (ClientConfig { tls: v, ..self.cfg }),
    {
        ClientBuilder { cfg: ClientConfig { tls: v, ..self.cfg } }
    }

    /// Set the client identity for mutual TLS (default: none).
    pub fn client_identity(self, id: ClientIdentity) -> (r: Self)
        ensures
            r.cfg == (ClientConfig { client_identity: Some(id), ..self.cfg }),
    {
        ClientBuilder { cfg: ClientConfig { client_identity: Some(id), ..self.cfg } }
    }

    /// Set the reconnect policy (default: reconnect disabled).
    pub fn reconnect(self, p: ReconnectPolicy) -> (r: Self)
        ensures
            r.cfg == (ClientConfig { reconnect: p, ..self.cfg }),
    {
        ClientBuilder { cfg: ClientConfig { reconnect: p, ..self.cfg } }
    }

    /// Cap the payload size accepted for a single publish.
    pub fn max_message_size(self, n: usize) -> (r: Self)
        ensures
            r.cfg == (ClientConfig { max_message_size: n, ..self.cfg }),
    {
        ClientBuilder { cfg: ClientConfig { max_message_size: n, ..self.cfg } }
    }

    /// Depth of each subscriber's channel.
    pub fn subscriber_buffer(self, n: usize) -> (r: Self)
        ensures
            r.cfg == (ClientConfig { subscriber_buffer: n, ..self.cfg }),
    {
        ClientBuilder { cfg: ClientConfig { subscriber_buffer: n, ..self.cfg } }
    }

    /// Depth of the command channel (default 4096).
    pub fn cmd_channel_cap(self, n: usize) -> (r: Self)
        ensures
            r.cfg == (ClientConfig { cmd_channel_cap: n, ..self.cfg }),
    {
        ClientBuilder { cfg: ClientConfig { cmd_channel_cap: n, ..self.cfg } }
    }

    /// Idle timeout (default 60 s).
    pub fn max_idle_timeout(self, d: Duration) -> (r: Self)
        ensures
            r.cfg == (ClientConfig { idle_timeout: d, ..self.cfg }),
    {
        ClientBuilder { cfg: ClientConfig { idle_timeout: d, ..self.cfg } }
    }

    /// Turn reliable delivery on or off (default off).
    pub fn reliable(self, on: bool) -> (r: Self)
        ensures
            r.cfg == (ClientConfig { reliable: on, ..self.cfg }),
    {
        ClientBuilder { cfg: ClientConfig { reliable: on, ..self.cfg } }
    }

    /// Acknowledge every `n` reliable deliveries.
    pub fn ack_interval(self, n: u8) -> (r: Self)
        ensures
            r.cfg == (ClientConfig { ack_interval: n, ..self.cfg }),
    {
        ClientBuilder { cfg: ClientConfig { ack_interval: n, ..self.cfg } }
    }

    /// Fix the logical session id, so that a session can be resumed by another process.
    pub fn logical_session_id(self, id: u64) -> (r: Self)
        ensures
            r.cfg == (ClientConfig { logical_session_id: id, ..self.cfg }),
    {
        ClientBuilder { cfg: ClientConfig { logical_session_id: id, ..self.cfg } }
    }
}

impl ClientConfig {
    /// Depth that the command channel is made with: the configured one, but at least 1.
    pub fn command_depth(&self) -> (r: usize)
        ensures
            r == if self.cmd_channel_cap < 1 {
                1
            } else {
                self.cmd_channel_cap as int
            },
    {
        if self.cmd_channel_cap < 1 {
            1
        } else {
            self.cmd_channel_cap
        }
    }

    /// The logical session id: the configured one, unless that is 0. Then it is made from the
    /// time, in nanoseconds since 1970, of which the low 64 bits are scattered.
    pub fn session_id(&self, now_nanos: u128) -> (r: u64)
        ensures
            r == if self.logical_session_id != 0 {
                self.logical_session_id
            } else {
                ((now_nanos % 0x1_0000_0000_0000_0000) as u64).wrapping_mul(0x9E37_79B9_7F4A_7C15)
            },
    {
        if self.logical_session_id != 0 {
            self.logical_session_id
        } else {
            ((now_nanos % 0x1_0000_0000_0000_0000) as u64).wrapping_mul(0x9E37_79B9_7F4A_7C15)
        }
    }
}

/// An address that names host and port is taken apart and can be put together again, where the
/// host has no bracket in front.
pub proof fn law_address_names_host_and_port(host: Seq<char>, port: Seq<char>)
    requires
        host.len() == 0 || host[0] != '[',
        number_upto(port, 65535) is Some,
    ensures
        address(host + seq![':'] + port) == (host, (number_upto(port, 65535)->0) as u16),
{
    let raw = host + seq![':'] + port;
    raw.index_of_last_ensures(':');
    assert(raw[host.len() as int] == ':');
    assert(raw.contains(':'));
    let i = raw.index_of_last(':')->0;
    let digits = text::unsigned_part(port);
    assert forall|j: int| host.len() < j < raw.len() implies raw[j] != ':' by {
        let k = j - host.len() - 1;
        assert(raw[j] == port[k]);
        if port.len() > 1 && port[0] == '+' {
            if k > 0 {
                assert(digits[k - 1] == port[k]);
            }
        } else {
            assert(digits[k] == port[k]);
        }
    }
    assert(i == host.len());
    assert(raw.skip(i + 1) =~= port);
    assert(raw.take(i) =~= host);
}

} // verus!
