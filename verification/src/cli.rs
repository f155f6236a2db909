//! The command line: options, commands and how they are turned into a configuration.
use bytes::Bytes;
use vstd::prelude::*;
use vstd::string::*;
use vstd::utf8::encode_utf8;

use crate::buf;
use crate::buf::bytes_view;
use crate::config::{address, ClientBuilder, ClientIdentity, FilePath};
use crate::error::{ConnectError, GroupError, PublishError, StreamError, SubscribeError};
use crate::parse::{parse_tls_verify, tls_policy, TlsPolicy};

verus! {

/// Why a command failed.
#[derive(Debug)]
pub enum CliError {
    /// An argument was invalid.
    BadArg(String),
    /// The connection could not be established.
    Connect(ConnectError),
    /// A publish failed.
    Publish(PublishError),
    /// A subscribe failed.
    Subscribe(SubscribeError),
    /// Opening a dedicated stream failed.
    StreamOpen(StreamError),
    /// Joining a consumer group failed.
    GroupJoin(GroupError),
    /// Local input or output failed: the description.
    Io(String),
}

/// The whole command line.
#[derive(Debug)]
pub struct Cli {
    /// Server address: `host:port` or a bare `host`.
    pub addr: String,
    /// TLS verification mode.
    pub tls_verify: String,
    /// TLS server name, if not the host.
    pub sni: Option<String>,
    /// Client certificate for mutual TLS; used together with the key.
    pub client_cert: Option<FilePath>,
    /// Client key for mutual TLS.
    pub client_key: Option<FilePath>,
    /// What to do.
    pub command: Command,
}

/// What to do.
#[derive(Debug)]
#[allow(inconsistent_fields)]
pub enum Command {
    /// Health check: connect and report the round-trip time.
    Ping,
    /// Publish a single message.
    Pub { topic: String, payload: Option<String>, file: Option<FilePath>, stdin: bool },
    /// Subscribe to a topic pattern and print messages.
    Sub { pattern: String, format: String, count: Option<u64> },
    /// Dedicated-stream operations.
    Stream { op: StreamOp },
    /// Consumer-group operations.
    Group { op: GroupOp },
    /// Many dedicated streams over a single connection.
    Mux { op: MuxOp },
}

/// Dedicated-stream operations.
#[derive(Debug)]
pub enum StreamOp {
    /// Publish on a dedicated stream.
    Pub {
        topic: String,
        payload: Option<String>,
        file: Option<FilePath>,
        stdin: bool,
        policy: String,
    },
    /// Receive on a dedicated stream.
    Sub { topic: String, policy: String, format: String, count: Option<u64> },
}

/// Consumer-group operations.
#[derive(Debug)]
pub enum GroupOp {
    /// Join a consumer group and print messages.
    Sub { topic: String, group: String, consumer: String, format: String, count: Option<u64> },
}

/// Operations on many streams.
#[derive(Debug)]
pub enum MuxOp {
    /// Open the declared streams and print their messages, each tagged with its stream's label.
    Sub { streams: Vec<String>, format: String, count: Option<u64> },
    /// Open the declared streams, then publish each item to its labelled stream.
    Pub { streams: Vec<String>, sends: Vec<String>, delay: u64 },
}

/// The client identity: certificate and key, where both are given.
pub open spec fn identity(cli: Cli) -> Option<ClientIdentity> {
    match (cli.client_cert, cli.client_key) {
        (Some(cert), Some(key)) => Some(ClientIdentity { cert, key }),
        _ => None,
    }
}

/// Translates the global options into a configured builder. `exists` and `contents` say what
/// there is in the file that the TLS mode names, if it names one.
pub fn build_builder(cli: &Cli, exists: bool, contents: Result<Vec<u8>, String>) -> (r: Result<
    ClientBuilder,
    CliError,
>)
    ensures
        match tls_policy(cli.tls_verify@, exists, contents) {
            TlsPolicy::Refused(why) => r is Err && r->Err_0 is BadArg && r->Err_0->BadArg_0@
                == why,
            accepted => {
                &&& r is Ok
                &&& accepted.describes(r->Ok_0.cfg.tls)
                &&& (r->Ok_0.cfg.host@, r->Ok_0.cfg.port) == address(cli.addr@)
                &&& r->Ok_0.cfg.sni@ == match cli.sni {
                    Some(sni) => sni@,
                    None => address(cli.addr@).0,
                }
                &&& r->Ok_0.cfg.client_identity == identity(*cli)
                &&& r->Ok_0.cfg.has_defaults()
            },
        },
{
    let tls = match parse_tls_verify(cli.tls_verify.as_str(), exists, contents) {
        Ok(tls) => tls,
        Err(e) => return Err(e),
    };
    let builder = ClientBuilder::new(cli.addr.as_str());
    let builder = match &cli.sni {
        Some(sni) => builder.sni(sni.as_str()),
        None => builder,
    };
    let builder = builder.tls_verify(tls);
    match (&cli.client_cert, &cli.client_key) {
        (Some(cert), Some(key)) => Ok(
            builder.client_identity(ClientIdentity { cert: cert.clone(), key: key.clone() }),
        ),
        _ => Ok(builder),
    }
}

/// Where a payload comes from.
pub enum PayloadSource {
    /// Standard input.
    Stdin,
    /// This file.
    File(FilePath),
    /// It was given inline.
    Inline(Bytes),
}

/// Picks the source of a payload. Standard input comes before a file, and a file before the
/// inline argument.
pub fn read_payload(inline: Option<String>, file: Option<FilePath>, stdin: bool) -> (r: Result<
    PayloadSource,
    CliError,
>)
    ensures
        stdin ==> r == Ok::<PayloadSource, CliError>(PayloadSource::Stdin),
        !stdin && file is Some ==> r == Ok::<PayloadSource, CliError>(
            PayloadSource::File(file->0),
        ),
        !stdin && file is None && inline is Some ==> {
            &&& r matches Ok(PayloadSource::Inline(b))
            &&& bytes_view(b) == encode_utf8((inline->0)@)
        },
        !stdin && file is None && inline is None ==> {
            &&& r matches Err(CliError::BadArg(why))
            &&& why@ == "no payload provided (pass an inline arg, --file, or --stdin)"@
        },
{
    if stdin {
        return Ok(PayloadSource::Stdin);
    }
    match file {
        Some(path) => return Ok(PayloadSource::File(path)),
        None => {},
    }
    match inline {
        Some(s) => Ok(PayloadSource::Inline(buf::from_string(s))),
        None => Err(
            CliError::BadArg(
                "no payload provided (pass an inline arg, --file, or --stdin)".to_owned(),
            ),
        ),
    }
}

/// The payload read from standard input.
pub fn stdin_payload(read: Result<Vec<u8>, String>) -> (r: Result<Bytes, CliError>)
    ensures
        match read {
            Ok(bytes) => r is Ok && bytes_view(r->Ok_0) == bytes@,
            Err(e) => r == Err::<Bytes, CliError>(CliError::Io(e)),
        },
{
    match read {
        Ok(bytes) => Ok(buf::from_vec(bytes)),
        Err(e) => Err(CliError::Io(e)),
    }
}

/// The payload read from a file. One that cannot be read is a bad argument.
pub fn file_payload(path: &FilePath, read: Result<Vec<u8>, String>) -> (r: Result<Bytes, CliError>)
    ensures
        match read {
            Ok(bytes) => r is Ok && bytes_view(r->Ok_0) == bytes@,
            Err(e) => r is Err && r->Err_0 is BadArg && r->Err_0->BadArg_0@ == "read "@
                + path.display@ + ": "@ + e@,
        },
{
    match read {
        Ok(bytes) => Ok(buf::from_vec(bytes)),
        Err(e) => Err(crate::parse::unreadable(path.display.as_str(), e.as_str())),
    }
}

/// What to do about a message, given how many there were.
#[derive(Clone, Copy, Debug, PartialEq, Eq, Structural)]
pub enum Turn {
    /// Show it.
    Show,
    /// Show it, and stop after it.
    ShowLast,
    /// Do not show it: the limit was reached before.
    Over,
}

/// Counts messages towards a limit.
pub struct Countdown {
    /// How many end it, if any number does. One message is shown in any case.
    pub limit: Option<u64>,
    /// How many have been shown.
    pub seen: u64,
}

/// What to do about the next message, where `seen` have been shown.
pub open spec fn turn_of(limit: Option<u64>, seen: int) -> Turn {
    match limit {
        None => Turn::Show,
        Some(c) => if seen + 1 < c {
            Turn::Show
        } else if seen == 0 || seen + 1 == c {
            Turn::ShowLast
        } else {
            Turn::Over
        },
    }
}

/// How many of `n` messages are shown.
pub open spec fn shown(limit: Option<u64>, n: nat) -> nat
    decreases n,
{
    if n == 0 {
        0
    } else {
        let before = shown(limit, (n - 1) as nat);
        if turn_of(limit, before as int) == Turn::Over {
            before
        } else {
            before + 1
        }
    }
}

impl Countdown {
    /// No message yet.
    pub fn new(limit: Option<u64>) -> (r: Self)
        ensures
            r == (Countdown { limit, seen: 0 }),
    {
        Countdown { limit, seen: 0 }
    }

    /// Decides about a message before it is shown, and counts it if it is to be.
    pub fn next_turn(&mut self) -> (r: Turn)
        ensures
            r == turn_of(old(self).limit, old(self).seen as int),
            final(self).limit == old(self).limit,
            final(self).seen == if r == Turn::Over || old(self).seen == u64::MAX {
                old(self).seen as int
            } else {
                old(self).seen + 1
            },
    {
        let turn = match self.limit {
            None => Turn::Show,
            Some(c) => {
                if c > 0 && self.seen < c - 1 {
                    Turn::Show
                } else if self.seen == 0 || (c > 0 && self.seen == c - 1) {
                    Turn::ShowLast
                } else {
                    Turn::Over
                }
            },
        };
        if turn != Turn::Over {
            self.seen = self.seen.saturating_add(1);
        }
        turn
    }
}

/// With a limit of one or more, exactly that many messages are shown, as far as there are so many,
/// and the last of them ends it.
pub proof fn law_limits_are_kept(c: u64, n: nat)
    requires
        c >= 1,
    ensures
        shown(Some(c), n) == if n < c {
            n
        } else {
            c as nat
        },
        turn_of(Some(c), shown(Some(c), n) as int) == if n + 1 < c {
            Turn::Show
        } else if n + 1 == c {
            Turn::ShowLast
        } else {
            Turn::Over
        },
    decreases n,
{
    if n > 0 {
        law_limits_are_kept(c, (n - 1) as nat);
    }
}

} // verus!
