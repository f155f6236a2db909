//! Waiting and retrying: how long, how often, and what comes next.
use vstd::arithmetic::power2::{lemma2_to64, lemma_pow2_unfold, pow2};
use vstd::prelude::*;

use crate::config::ReconnectPolicy;
use crate::error::PublishError;
use crate::run::{DRAIN_TIMEOUT_SECS, HEARTBEAT_PERIOD_SECS, HEARTBEAT_TIMEOUT_SECS};
use crate::run::{action, redial_after, redial_wait, start, start_redial, step, step_redial, Action, Event, Phase, Redial, RedialEvent, Retry, RetriedPublish};
use crate::time::{backoff_for, Duration};
use crate::transport::{HANDSHAKE_DEADLINE_SECS, KEEPALIVE_MS};

verus! {

/// The smaller of two numbers.
pub open spec fn least(a: int, b: int) -> int {
    if a < b {
        a
    } else {
        b
    }
}

/// The longest wait in milliseconds: whole ones, and at least one.
pub open spec fn cap_of(max: Duration) -> int {
    if max@ < 1_000_000 {
        1
    } else {
        max@ as int / 1_000_000
    }
}

/// Waits in milliseconds fit in 64 bits.
pub open spec fn countable(d: Duration) -> bool {
    d@ / 1_000_000 < 0x1_0000_0000_0000_0000
}

/// The wait before a retry, in nanoseconds: the initial wait, doubled with every retry before it
/// up to 31 times, but no more than the cap.
pub open spec fn waits(attempt: u32, initial: Duration, max: Duration) -> int {
    let base = (initial@ as int / 1_000_000) * pow2(
        if attempt < 31 {
            attempt as nat
        } else {
            31
        },
    );
    least(base, cap_of(max)) * 1_000_000
}

/// The backoff in other words.
proof fn lemma_waits(attempt: u32, initial: Duration, max: Duration)
    requires
        countable(initial),
        countable(max),
    ensures
        crate::time::backoff_ms(attempt, initial@, max@) * 1_000_000 == waits(
            attempt,
            initial,
            max,
        ),
{
}

/// Retries wait: first as long as configured, then twice as long each time, never longer than the
/// cap, and from the thirty-second on no longer than before. Reconnects wait by the same schedule.
pub proof fn law_waits_double_up_to_the_cap(
    attempt: u32,
    initial: Duration,
    max: Duration,
    r: Duration,
    later: u32,
    longer: Duration,
    policy: &ReconnectPolicy,
    configured: Duration,
    slept: Option<Duration>,
)
    requires
        countable(initial),
        countable(max),
        call_ensures(backoff_for, (attempt, initial, max), r),
        later == attempt + 1,
        call_ensures(backoff_for, (later, initial, max), longer),
        policy.initial_backoff == initial,
        policy.max_backoff == max,
        call_ensures(ReconnectPolicy::backoff_for, (policy, attempt), configured),
        call_ensures(redial_wait, (policy, Redial::Sleeping(attempt)), slept),
    ensures
        r@ == waits(attempt, initial, max),
        attempt == 0 ==> r@ == least(initial@ as int / 1_000_000, cap_of(max)) * 1_000_000,
        attempt < 31 ==> longer@ == least(2 * (r@ as int), cap_of(max) * 1_000_000),
        attempt >= 31 ==> longer@ == r@,
        configured@ == r@,
        slept matches Some(d) && d@ == r@,
{
    lemma_waits(attempt, initial, max);
    lemma_waits(later, initial, max);
    lemma2_to64();
    let ms = initial@ as int / 1_000_000;
    if attempt < 31 {
        lemma_pow2_unfold(later as nat);
        let p = pow2(attempt as nat) as int;
        assert(ms * (2 * p) == 2 * (ms * p)) by (nonlinear_arith);
    }
    assert(ms * 1 == ms) by (nonlinear_arith);
}

/// A publish is retried only where there is no connection and while retries are left, one of which
/// it then uses up; the wait is that of the schedule. Every other outcome is returned as it is.
pub proof fn law_publishes_are_retried_within_limits(
    p: &mut RetriedPublish,
    result: Result<(), PublishError>,
    r: Retry,
)
    requires
        call_ensures(RetriedPublish::outcome, (p, result), r),
        countable(old(p).initial_backoff),
        countable(old(p).max_backoff),
    ensures
        r is After <==> (result matches Err(e) && e is NotConnected) && old(p).attempt < old(
            p).max_attempts,
        r matches Retry::Return(out) ==> out == result && *final(p) == *old(p),
        r matches Retry::After(d) ==> {
            &&& d@ == waits(old(p).attempt, old(p).initial_backoff, old(p).max_backoff)
            &&& final(p).attempt == old(p).attempt + 1
            &&& final(p).max_attempts == old(p).max_attempts
            &&& final(p).initial_backoff == old(p).initial_backoff
            &&& final(p).max_backoff == old(p).max_backoff
        },
{
    lemma_waits(old(p).attempt, old(p).initial_backoff, old(p).max_backoff);
}

/// A reconnect with no attempts allowed gives up at once; any other waits before its first attempt,
/// makes it when the wait is over, and after a failed one waits for the next, as long as one is
/// left. Success ends it, and so does the loss of every client handle during a wait. Nothing else
/// moves it.
pub proof fn law_reconnects_go_attempt_by_attempt(
    policy: &ReconnectPolicy,
    first: Redial,
    at: Redial,
    event: RedialEvent,
    next: Redial,
)
    requires
        call_ensures(start_redial, (policy,), first),
        call_ensures(step_redial, (policy, at, event), next),
    ensures
        policy.max_attempts == 0 ==> first is GivenUp,
        policy.max_attempts > 0 ==> first == Redial::Sleeping(0),
        at matches Redial::Sleeping(k) ==> match event {
            RedialEvent::Slept => next == Redial::Dialing(k),
            RedialEvent::HandlesGone => next is GivenUp,
            _ => next == at,
        },
        at matches Redial::Dialing(k) ==> match event {
            RedialEvent::Connected => next is Established,
            RedialEvent::ConnectFailed => if k + 1 < policy.max_attempts {
                next matches Redial::Sleeping(j) && j == k + 1
            } else {
                next is GivenUp
            },
            _ => next == at,
        },
        at is Established || at is GivenUp ==> next == at,
{
}

/// So many failed attempts, each after its wait.
pub open spec fn failures(n: nat) -> Seq<RedialEvent> {
    Seq::new(
        2 * n,
        |i: int|
            if i % 2 == 0 {
                RedialEvent::Slept
            } else {
                RedialEvent::ConnectFailed
            },
    )
}

/// A reconnect uses all of its attempts before it gives up: after fewer failures it waits for the
/// next attempt, and after as many as are allowed it is over.
pub proof fn law_all_attempts_are_used(max_attempts: u32, n: nat)
    requires
        n <= max_attempts,
    ensures
        redial_after(max_attempts, failures(n)) == if n < max_attempts {
            Redial::Sleeping(n as u32)
        } else {
            Redial::GivenUp
        },
    decreases n,
{
    let events = failures(n);
    if n == 0 {
        assert(events =~= Seq::empty());
    } else {
        let fewer = (n - 1) as nat;
        law_all_attempts_are_used(max_attempts, fewer);
        assert(events.drop_last().drop_last() =~= failures(fewer));
        assert(events.drop_last().last() == RedialEvent::Slept);
        assert(events.last() == RedialEvent::ConnectFailed);
        assert(redial_after(max_attempts, events.drop_last()) == Redial::Dialing(fewer as u32));
    }
}

/// The task first connects; then it says hello, and after every hello, replay and heartbeat it goes
/// to its socket.
pub proof fn law_the_task_comes_back_to_its_socket(first: Phase, phase: Phase, next: Phase)
    requires
        call_ensures(start, (), first),
        call_ensures(step, (phase, Event::Done), next),
    ensures
        first is Connecting,
        phase is Greeting || phase is Replaying || phase is Beating ==> next is Pumping,
        phase is Draining ==> next is Closing,
        phase is Closing ==> next is Stopped,
        phase is Connecting || phase is Pumping || phase is ClosingDead || phase is Reconnecting
            || phase is Waiting || phase is Serving || phase is Emptying || phase is Stopped ==> next
            == phase,
{
}

/// After a round of input and output, a closed connection is reconnected, one that has been silent
/// for more than three seconds is closed, and any other waits for something to happen. Closing a
/// silent one leads to the reconnect, where it is closed for good.
pub proof fn law_rounds_end_where_the_connection_stands(
    closed: bool,
    idle: Duration,
    next: Phase,
    then: Phase,
)
    requires
        call_ensures(step, (Phase::Pumping, Event::Pumped { closed, idle }), next),
        call_ensures(step, (Phase::ClosingDead, Event::ForceClosed { closed }), then),
    ensures
        closed ==> next is Reconnecting,
        !closed && idle@ > 3_000_000_000 ==> next is ClosingDead,
        !closed && idle@ <= 3_000_000_000 ==> next is Waiting,
        closed ==> then is Reconnecting,
        !closed ==> then is Waiting,
{
}

/// Connecting leads to the hello, or ends the task; reconnecting leads to the replay, or ends it.
pub proof fn law_connections_are_introduced(
    connected: Phase,
    failed: Phase,
    again: Phase,
    gave_up: Phase,
)
    requires
        call_ensures(step, (Phase::Connecting, Event::Connected), connected),
        call_ensures(step, (Phase::Connecting, Event::ConnectFailed), failed),
        call_ensures(step, (Phase::Reconnecting, Event::Reestablished), again),
        call_ensures(step, (Phase::Reconnecting, Event::GaveUp), gave_up),
    ensures
        connected is Greeting,
        failed is Stopped,
        again is Replaying,
        gave_up is Stopped,
{
}

/// A waiting task beats when it is time, goes to its socket when that is ready, and drains when no
/// handle is left. Commands are served one after the other, up to 64 before the socket has its
/// turn; a request to close lets the queued ones through, drains, and closes.
pub proof fn law_waiting_tasks_react(
    beat: Phase,
    ready: Phase,
    gone: Phase,
    exit: bool,
    served: Phase,
    n: u8,
    more: Phase,
    none: Phase,
    lost: Phase,
    late: Phase,
    empty: Phase,
    left: Phase,
)
    requires
        call_ensures(step, (Phase::Waiting, Event::Tick), beat),
        call_ensures(step, (Phase::Waiting, Event::Ready), ready),
        call_ensures(step, (Phase::Waiting, Event::HandlesGone), gone),
        call_ensures(step, (Phase::Waiting, Event::Handled { exit }), served),
        call_ensures(step, (Phase::Serving(n), Event::Handled { exit }), more),
        call_ensures(step, (Phase::Serving(n), Event::NoCommand), none),
        call_ensures(step, (Phase::Serving(n), Event::HandlesGone), lost),
        call_ensures(step, (Phase::Emptying, Event::Handled { exit }), late),
        call_ensures(step, (Phase::Emptying, Event::NoCommand), empty),
        call_ensures(step, (Phase::Emptying, Event::HandlesGone), left),
    ensures
        beat is Beating,
        ready is Pumping,
        gone is Draining,
        exit ==> served is Emptying && more is Emptying,
        !exit ==> served == Phase::Serving(1),
        !exit && n < 63 ==> (more matches Phase::Serving(k) && k == n + 1),
        !exit && n >= 63 ==> more is Pumping,
        none is Pumping,
        lost is Closing,
        late is Emptying,
        empty is Draining,
        left is Draining,
{
}

/// Several heartbeats go unanswered before a peer counts as dead, and a handshake, a drain and a
/// sleep each have their time.
pub proof fn law_times_fit_together()
    ensures
        3 * HEARTBEAT_PERIOD_SECS <= HEARTBEAT_TIMEOUT_SECS,
        HEARTBEAT_PERIOD_SECS == 1,
        DRAIN_TIMEOUT_SECS == 10,
        HANDSHAKE_DEADLINE_SECS == 10,
        KEEPALIVE_MS < 1000 * HEARTBEAT_PERIOD_SECS,
{
}

/// What the task does is what its phase is for.
pub proof fn law_every_phase_has_its_work(phase: Phase, a: Action)
    requires
        call_ensures(action, (phase,), a),
    ensures
        phase is Connecting <==> a == Action::Connect,
        phase is Greeting <==> a == Action::Greet,
        phase is Pumping <==> a == Action::Pump,
        phase is ClosingDead <==> a == Action::ForceClose,
        phase is Reconnecting <==> a == Action::Reconnect,
        phase is Replaying <==> a == Action::Replay,
        phase is Waiting <==> a == Action::Wait,
        phase is Beating <==> a == Action::Beat,
        phase is Serving || phase is Emptying <==> a == Action::NextCommand,
        phase is Draining <==> a == Action::Drain,
        phase is Closing <==> a == Action::Close,
        phase is Stopped <==> a == Action::Stop,
{
}

} // verus!
