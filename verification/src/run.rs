//! The connection task as a state machine.
//!
//! The task alternates outside work and decisions. [`Phase`] is where it stands, [`duty`] what
//! it has to do there, and [`next`] where the outcome takes it.
use vstd::prelude::*;

use crate::config::ReconnectPolicy;
use crate::error::PublishError;
use crate::time::{backoff_for, backoff_ms, law_backoff_bounded, Duration};

verus! {

/// Most commands handled in one round. Without a cap a flood of commands would keep the task
/// from its socket.
pub const MAX_CMD_BATCH: u8 = 64;

/// Silence after which the peer counts as dead, in seconds. A live server answers every
/// heartbeat, so several have gone unanswered by then.
pub const HEARTBEAT_TIMEOUT_SECS: u64 = 3;

/// Time between heartbeats, in seconds.
pub const HEARTBEAT_PERIOD_SECS: u64 = 1;

/// How long a closing connection waits for pending writes to drain, in seconds.
pub const DRAIN_TIMEOUT_SECS: u64 = 10;

/// Where the task stands.
#[derive(Clone, Copy, Debug, PartialEq, Eq, Structural)]
pub enum Phase {
    /// The first connection is being established.
    Connecting,
    /// The connection is up; the session introduces itself.
    Greeting,
    /// A round of input and output.
    Pumping,
    /// The peer is presumed dead and the connection was closed.
    ClosingDead,
    /// The connection is gone; a new one is being established.
    Reconnecting,
    /// A new connection is up; registrations are replayed.
    Replaying,
    /// Nothing to do until something happens.
    Waiting,
    /// A heartbeat is due.
    Beating,
    /// So many commands of this round have been handled; more may be queued.
    Serving(u8),
    /// A close was requested; commands queued before it are still handled.
    Emptying,
    /// Pending writes are drained.
    Draining,
    /// The connection is closed.
    Closing,
    /// The task is over.
    Stopped,
}

/// What the task does.
#[derive(Clone, Copy, Debug, PartialEq, Eq, Structural)]
pub enum Action {
    /// Establish the first connection, and report to the one who asked for it.
    Connect,
    /// Send the session hello.
    Greet,
    /// Receive, route, send.
    Pump,
    /// Close a connection whose peer is presumed dead.
    ForceClose,
    /// Run the reconnect schedule.
    Reconnect,
    /// Replay registrations.
    Replay,
    /// Wait for a heartbeat, a command, the socket or a timer, in this order of preference.
    Wait,
    /// Send the heartbeat.
    Beat,
    /// Take another command if one is queued.
    NextCommand,
    /// Drain pending writes.
    Drain,
    /// Close the connection, and then answer a requested close.
    Close,
    /// Nothing: the task is over.
    Stop,
}

/// What happened.
#[derive(Clone, Copy, Debug)]
pub enum Event {
    /// The first connection is up.
    Connected,
    /// The first connection could not be established.
    ConnectFailed,
    /// The round is over: whether the connection is closed, and how long nothing has arrived.
    Pumped { closed: bool, idle: Duration },
    /// The dead peer's connection was closed: whether it is closed for good.
    ForceClosed { closed: bool },
    /// A new connection is up.
    Reestablished,
    /// No new connection could be established.
    GaveUp,
    /// It is time for a heartbeat.
    Tick,
    /// The socket or a timer is ready.
    Ready,
    /// A command was handled: whether it asked to close.
    Handled { exit: bool },
    /// No command is queued.
    NoCommand,
    /// No client handle is left, nor any command.
    HandlesGone,
    /// The phase's work is done.
    Done,
}

/// What the task does in a phase.
pub open spec fn duty(phase: Phase) -> Action {
    match phase {
        Phase::Connecting => Action::Connect,
        Phase::Greeting => Action::Greet,
        Phase::Pumping => Action::Pump,
        Phase::ClosingDead => Action::ForceClose,
        Phase::Reconnecting => Action::Reconnect,
        Phase::Replaying => Action::Replay,
        Phase::Waiting => Action::Wait,
        Phase::Beating => Action::Beat,
        Phase::Serving(_) | Phase::Emptying => Action::NextCommand,
        Phase::Draining => Action::Drain,
        Phase::Closing => Action::Close,
        Phase::Stopped => Action::Stop,
    }
}

/// Where the `n`-th command of a round leads: a close request is final, and the round ends at
/// the cap.
pub open spec fn after_command(n: int, exit: bool) -> Phase {
    if exit {
        Phase::Emptying
    } else if n < MAX_CMD_BATCH {
        Phase::Serving(n as u8)
    } else {
        Phase::Pumping
    }
}

/// Where a connection leads that is closed, or not.
pub open spec fn after_check(closed: bool) -> Phase {
    if closed {
        Phase::Reconnecting
    } else {
        Phase::Waiting
    }
}

/// Where the task goes from a phase. An event that cannot happen in a phase changes nothing.
pub open spec fn next(phase: Phase, event: Event) -> Phase {
    match (phase, event) {
        (Phase::Connecting, Event::Connected) => Phase::Greeting,
        (Phase::Connecting, Event::ConnectFailed) => Phase::Stopped,
        (Phase::Greeting, Event::Done) => Phase::Pumping,
        (Phase::Pumping, Event::Pumped { closed, idle }) => if !closed && idle@
            > HEARTBEAT_TIMEOUT_SECS * 1_000_000_000 {
            Phase::ClosingDead
        } else {
            after_check(closed)
        },
        (Phase::ClosingDead, Event::ForceClosed { closed }) => after_check(closed),
        (Phase::Reconnecting, Event::Reestablished) => Phase::Replaying,
        (Phase::Reconnecting, Event::GaveUp) => Phase::Stopped,
        (Phase::Replaying, Event::Done) => Phase::Pumping,
        (Phase::Waiting, Event::Tick) => Phase::Beating,
        (Phase::Waiting, Event::Ready) => Phase::Pumping,
        (Phase::Waiting, Event::Handled { exit }) => after_command(1, exit),
        (Phase::Waiting, Event::HandlesGone) => Phase::Draining,
        (Phase::Beating, Event::Done) => Phase::Pumping,
        (Phase::Serving(n), Event::Handled { exit }) => after_command(n + 1, exit),
        (Phase::Serving(_), Event::NoCommand) => Phase::Pumping,
        (Phase::Serving(_), Event::HandlesGone) => Phase::Closing,
        (Phase::Emptying, Event::NoCommand) => Phase::Draining,
        (Phase::Emptying, Event::HandlesGone) => Phase::Draining,
        (Phase::Draining, Event::Done) => Phase::Closing,
        (Phase::Closing, Event::Done) => Phase::Stopped,
        _ => phase,
    }
}

/// The first phase.
pub fn start() -> (r: Phase)
    ensures
        r == Phase::Connecting,
{
    Phase::Connecting
}

/// What the task does in `phase`; see [`duty`].
pub fn action(phase: Phase) -> (r: Action)
    ensures
        r == duty(phase),
{
    match phase {
        Phase::Connecting => Action::Connect,
        Phase::Greeting => Action::Greet,
        Phase::Pumping => Action::Pump,
        Phase::ClosingDead => Action::ForceClose,
        Phase::Reconnecting => Action::Reconnect,
        Phase::Replaying => Action::Replay,
        Phase::Waiting => Action::Wait,
        Phase::Beating => Action::Beat,
        Phase::Serving(_) => Action::NextCommand,
        Phase::Emptying => Action::NextCommand,
        Phase::Draining => Action::Drain,
        Phase::Closing => Action::Close,
        Phase::Stopped => Action::Stop,
    }
}

/// Where the `n`-th command of a round leads.
fn served(n: u8, exit: bool) -> (r: Phase)
    ensures
        r == after_command(n as int, exit),
{
    if exit {
        Phase::Emptying
    } else if n < MAX_CMD_BATCH {
        Phase::Serving(n)
    } else {
        Phase::Pumping
    }
}

/// Where a connection leads that is closed, or not.
fn checked(closed: bool) -> (r: Phase)
    ensures
        r == after_check(closed),
{
    if closed {
        Phase::Reconnecting
    } else {
        Phase::Waiting
    }
}

/// Where the task goes from `phase`; see [`next`].
pub fn step(phase: Phase, event: Event) -> (r: Phase)
    ensures
        r == next(phase, event),
{
    match (phase, event) {
        (Phase::Connecting, Event::Connected) => Phase::Greeting,
        (Phase::Connecting, Event::ConnectFailed) => Phase::Stopped,
        (Phase::Greeting, Event::Done) => Phase::Pumping,
        (Phase::Pumping, Event::Pumped { closed, idle }) => {
            if !closed && idle.exceeds(&Duration::from_secs(HEARTBEAT_TIMEOUT_SECS)) {
                Phase::ClosingDead
            } else {
                checked(closed)
            }
        },
        (Phase::ClosingDead, Event::ForceClosed { closed }) => checked(closed),
        (Phase::Reconnecting, Event::Reestablished) => Phase::Replaying,
        (Phase::Reconnecting, Event::GaveUp) => Phase::Stopped,
        (Phase::Replaying, Event::Done) => Phase::Pumping,
        (Phase::Waiting, Event::Tick) => Phase::Beating,
        (Phase::Waiting, Event::Ready) => Phase::Pumping,
        (Phase::Waiting, Event::Handled { exit }) => served(1, exit),
        (Phase::Waiting, Event::HandlesGone) => Phase::Draining,
        (Phase::Beating, Event::Done) => Phase::Pumping,
        (Phase::Serving(n), Event::Handled { exit }) => {
            if n < MAX_CMD_BATCH {
                served(n + 1, exit)
            } else {
                served(MAX_CMD_BATCH, exit)
            }
        },
        (Phase::Serving(_), Event::NoCommand) => Phase::Pumping,
        (Phase::Serving(_), Event::HandlesGone) => Phase::Closing,
        (Phase::Emptying, Event::NoCommand) => Phase::Draining,
        (Phase::Emptying, Event::HandlesGone) => Phase::Draining,
        (Phase::Draining, Event::Done) => Phase::Closing,
        (Phase::Closing, Event::Done) => Phase::Stopped,
        _ => phase,
    }
}

/// Where a series of events takes the task.
pub open spec fn after_events(phase: Phase, events: Seq<Event>) -> Phase
    decreases events.len(),
{
    if events.len() == 0 {
        phase
    } else {
        next(after_events(phase, events.drop_last()), events.last())
    }
}

/// This many commands in a row, none of which asks to close.
pub open spec fn commands_in_a_row(n: nat) -> Seq<Event> {
    Seq::new(n, |i: int| Event::Handled { exit: false })
}

/// A flood of commands does not keep the task from its socket: however many are queued, after
/// 64 of them a round of input and output follows, unless one asks to close.
pub proof fn law_command_batches_are_bounded(n: nat)
    requires
        1 <= n <= 64,
    ensures
        after_events(Phase::Waiting, commands_in_a_row(n)) == if n < 64 {
            Phase::Serving(n as u8)
        } else {
            Phase::Pumping
        },
    decreases n,
{
    let events = commands_in_a_row(n);
    let fewer = (n - 1) as nat;
    assert(events.drop_last() =~= commands_in_a_row(fewer));
    assert(events.last() == Event::Handled { exit: false });
    if n > 1 {
        law_command_batches_are_bounded(fewer);
    } else {
        assert(after_events(Phase::Waiting, commands_in_a_row(0)) == Phase::Waiting);
    }
}

/// A close request is answered only after the writes before it have drained: the connection is
/// closed after draining, or where no client handle is left to lose anything; and draining
/// starts only once no command is queued.
pub proof fn law_close_waits_for_the_drain(phase: Phase, event: Event)
    ensures
        next(phase, event) == Phase::Closing && phase != Phase::Closing ==> (phase
            == Phase::Draining && event is Done) || (phase is Serving && event is HandlesGone),
        next(phase, event) == Phase::Draining && phase != Phase::Draining ==> (event is NoCommand
            || event is HandlesGone) && (phase == Phase::Emptying || phase == Phase::Waiting),
        phase == Phase::Emptying && event is Handled ==> next(phase, event) == Phase::Emptying,
{
}

/// A task that is over stays over.
pub proof fn law_stopped_is_final(events: Seq<Event>)
    ensures
        after_events(Phase::Stopped, events) == Phase::Stopped,
    decreases events.len(),
{
    if events.len() > 0 {
        law_stopped_is_final(events.drop_last());
    }
}

/// A dead peer is noticed: once nothing has arrived for more than three seconds, the round ends
/// with the connection being closed, and a closed connection is reconnected.
pub proof fn law_dead_peers_are_noticed(idle: Duration)
    requires
        idle@ > 3_000_000_000,
    ensures
        next(Phase::Pumping, Event::Pumped { closed: false, idle }) == Phase::ClosingDead,
        next(Phase::ClosingDead, Event::ForceClosed { closed: true }) == Phase::Reconnecting,
        next(Phase::Pumping, Event::Pumped { closed: true, idle }) == Phase::Reconnecting,
{
}

/// A new connection always replays before anything else is sent or received.
pub proof fn law_reconnects_replay(phase: Phase, event: Event)
    ensures
        phase == Phase::Reconnecting && next(phase, event) != phase ==> next(phase, event)
            == Phase::Replaying || next(phase, event) == Phase::Stopped,
{
}

/// Where a reconnect stands.
#[derive(Clone, Copy, Debug, PartialEq, Eq, Structural)]
pub enum Redial {
    /// Waiting before this attempt, counted from 0.
    Sleeping(u32),
    /// Making this attempt.
    Dialing(u32),
    /// A connection is up.
    Established,
    /// There will be none.
    GivenUp,
}

/// What happened during a reconnect.
#[derive(Clone, Copy, Debug, PartialEq, Eq, Structural)]
pub enum RedialEvent {
    /// The wait is over.
    Slept,
    /// A command arrived and was answered that there is no connection. The wait goes on.
    CommandFailed,
    /// No client handle is left.
    HandlesGone,
    /// The attempt succeeded.
    Connected,
    /// The attempt failed.
    ConnectFailed,
}

/// Where a reconnect with so many attempts begins.
pub open spec fn redial_start(max_attempts: u32) -> Redial {
    if max_attempts == 0 {
        Redial::GivenUp
    } else {
        Redial::Sleeping(0)
    }
}

/// Where a reconnect goes. An event that cannot happen changes nothing.
pub open spec fn redial_next(max_attempts: u32, at: Redial, event: RedialEvent) -> Redial {
    match (at, event) {
        (Redial::Sleeping(k), RedialEvent::Slept) => Redial::Dialing(k),
        (Redial::Sleeping(k), RedialEvent::CommandFailed) => Redial::Sleeping(k),
        (Redial::Sleeping(_), RedialEvent::HandlesGone) => Redial::GivenUp,
        (Redial::Dialing(_), RedialEvent::Connected) => Redial::Established,
        (Redial::Dialing(k), RedialEvent::ConnectFailed) => if k + 1 < max_attempts {
            Redial::Sleeping((k + 1) as u32)
        } else {
            Redial::GivenUp
        },
        _ => at,
    }
}

/// Where a reconnect begins; see [`redial_start`].
pub fn start_redial(policy: &ReconnectPolicy) -> (r: Redial)
    ensures
        r == redial_start(policy.max_attempts),
{
    if policy.max_attempts == 0 {
        Redial::GivenUp
    } else {
        Redial::Sleeping(0)
    }
}

/// Where a reconnect goes; see [`redial_next`].
pub fn step_redial(policy: &ReconnectPolicy, at: Redial, event: RedialEvent) -> (r: Redial)
    ensures
        r == redial_next(policy.max_attempts, at, event),
{
    match (at, event) {
        (Redial::Sleeping(k), RedialEvent::Slept) => Redial::Dialing(k),
        (Redial::Sleeping(k), RedialEvent::CommandFailed) => Redial::Sleeping(k),
        (Redial::Sleeping(_), RedialEvent::HandlesGone) => Redial::GivenUp,
        (Redial::Dialing(_), RedialEvent::Connected) => Redial::Established,
        (Redial::Dialing(k), RedialEvent::ConnectFailed) => {
            if policy.max_attempts > 0 && k < policy.max_attempts - 1 {
                Redial::Sleeping(k + 1)
            } else {
                Redial::GivenUp
            }
        },
        _ => at,
    }
}

/// How long a reconnect waits where it stands: the backoff of the attempt that comes next, or not
/// at all. [`RedialEvent::Slept`] says that this long has passed since the wait began.
pub fn redial_wait(policy: &ReconnectPolicy, at: Redial) -> (r: Option<Duration>)
    ensures
        match at {
            Redial::Sleeping(k) => r is Some && r->0@ == backoff_ms(
                k,
                policy.initial_backoff@,
                policy.max_backoff@,
            ) * 1_000_000,
            _ => r is None,
        },
{
    match at {
        Redial::Sleeping(k) => Some(policy.backoff_for(k)),
        _ => None,
    }
}

/// Where a series of events takes a reconnect.
pub open spec fn redial_after(max_attempts: u32, events: Seq<RedialEvent>) -> Redial
    decreases events.len(),
{
    if events.len() == 0 {
        redial_start(max_attempts)
    } else {
        redial_next(max_attempts, redial_after(max_attempts, events.drop_last()), events.last())
    }
}

/// How many attempts have been made.
pub open spec fn attempts_made(max_attempts: u32, events: Seq<RedialEvent>) -> nat
    decreases events.len(),
{
    if events.len() == 0 {
        0
    } else {
        let before = redial_after(max_attempts, events.drop_last());
        let after = redial_after(max_attempts, events);
        attempts_made(max_attempts, events.drop_last()) + if before !is Dialing && after is Dialing {
            1nat
        } else {
            0nat
        }
    }
}

/// A reconnect makes no more attempts than the policy allows, and none when it is disabled.
pub proof fn law_reconnect_attempts_are_bounded(max_attempts: u32, events: Seq<RedialEvent>)
    ensures
        attempts_made(max_attempts, events) <= max_attempts,
        match redial_after(max_attempts, events) {
            Redial::Sleeping(k) => k < max_attempts && attempts_made(max_attempts, events) == k,
            Redial::Dialing(k) => k < max_attempts && attempts_made(max_attempts, events) == k + 1,
            _ => true,
        },
    decreases events.len(),
{
    if events.len() > 0 {
        law_reconnect_attempts_are_bounded(max_attempts, events.drop_last());
    }
}

/// An attempt is made only after a full wait: nothing but the end of the wait before it leads to
/// it, whatever commands arrive meanwhile.
pub proof fn law_attempts_wait_for_their_backoff(max_attempts: u32, at: Redial, event: RedialEvent)
    ensures
        at !is Dialing ==> (redial_next(max_attempts, at, event) matches Redial::Dialing(k) ==> at
            == Redial::Sleeping(k) && event == RedialEvent::Slept),
        event == RedialEvent::CommandFailed ==> redial_next(max_attempts, at, event) == at,
{
}

/// Dropping every client handle during a wait ends the reconnect at once.
pub proof fn law_abandoned_reconnects_end(max_attempts: u32, k: u32)
    ensures
        redial_next(max_attempts, Redial::Sleeping(k), RedialEvent::HandlesGone)
            == Redial::GivenUp,
{
}

/// A publish that is retried while there is no connection: so many waits are behind it.
pub struct RetriedPublish {
    /// Retries made so far.
    pub attempt: u32,
    /// Most retries.
    pub max_attempts: u32,
    /// Wait before the first retry.
    pub initial_backoff: Duration,
    /// Longest wait.
    pub max_backoff: Duration,
}

/// What to do after a publish attempt.
pub enum Retry {
    /// Wait this long, then publish again.
    After(Duration),
    /// Return this.
    Return(Result<(), PublishError>),
}

impl RetriedPublish {
    /// A publish that is tried once and then retried up to `max_attempts` times.
    pub fn new(max_attempts: u32, initial_backoff: Duration, max_backoff: Duration) -> (r: Self)
        ensures
            r == (RetriedPublish { attempt: 0, max_attempts, initial_backoff, max_backoff }),
    {
        RetriedPublish { attempt: 0, max_attempts, initial_backoff, max_backoff }
    }

    /// Decides what to do about the outcome of an attempt. Only a missing connection is worth a
    /// retry, and only while retries are left.
    pub fn outcome(&mut self, result: Result<(), PublishError>) -> (r: Retry)
        ensures
            old(self).attempt <= old(self).max_attempts ==> final(self).attempt
                <= final(self).max_attempts,
            if result == Err::<(), PublishError>(PublishError::NotConnected) && old(self).attempt
                < old(self).max_attempts {
                &&& r matches Retry::After(d)
                &&& d@ == backoff_ms(
                    old(self).attempt,
                    old(self).initial_backoff@,
                    old(self).max_backoff@,
                ) * 1_000_000
                &&& *final(self) == (RetriedPublish {
                    attempt: (old(self).attempt + 1) as u32,
                    ..*old(self)
                })
            } else {
                &&& r == Retry::Return(result)
                &&& *final(self) == *old(self)
            },
    {
        let again = match &result {
            Err(PublishError::NotConnected) => self.attempt < self.max_attempts,
            _ => false,
        };
        if again {
            let wait = backoff_for(self.attempt, self.initial_backoff, self.max_backoff);
            self.attempt = self.attempt + 1;
            Retry::After(wait)
        } else {
            Retry::Return(result)
        }
    }
}

/// The waits before the first `n` retries together, in nanoseconds.
pub open spec fn total_wait(n: nat, initial: nat, max: nat) -> nat
    decreases n,
{
    if n == 0 {
        0
    } else {
        total_wait((n - 1) as nat, initial, max) + backoff_ms((n - 1) as u32, initial, max)
            * 1_000_000
    }
}

/// The waits of a retried publish, or of a reconnect, are bounded: together at most
/// `attempts * max_backoff`, where the cap is at least a millisecond.
pub proof fn law_total_wait_is_bounded(attempts: nat, initial: nat, max: nat)
    requires
        max >= 1_000_000,
    ensures
        total_wait(attempts, initial, max) <= attempts * max,
    decreases attempts,
{
    if attempts > 0 {
        let fewer = (attempts - 1) as nat;
        law_total_wait_is_bounded(fewer, initial, max);
        law_backoff_bounded(fewer as u32, initial, max);
        assert(fewer * max + max == attempts * max) by (nonlinear_arith)
            requires
                attempts == fewer + 1,
        ;
    }
}

} // verus!
