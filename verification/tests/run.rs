use vireon::config::ReconnectPolicy;
use vireon::error::PublishError;
use vireon::run::{
    action, redial_wait, start, start_redial, step, step_redial, Action, Event, Phase, Redial,
    RedialEvent, RetriedPublish, Retry, HEARTBEAT_PERIOD_SECS, HEARTBEAT_TIMEOUT_SECS,
};
use vireon::time::{backoff_for, Duration};

fn idle(ms: u64) -> Event {
    Event::Pumped { closed: false, idle: Duration::from_millis(ms) }
}

#[test]
fn a_task_from_start_to_close() {
    let mut p = start();
    assert_eq!(action(p), Action::Connect);
    p = step(p, Event::Connected);
    assert_eq!(action(p), Action::Greet);
    p = step(p, Event::Done);
    assert_eq!(action(p), Action::Pump);
    p = step(p, idle(10));
    assert_eq!(action(p), Action::Wait);
    p = step(p, Event::Tick);
    assert_eq!(action(p), Action::Beat);
    p = step(p, Event::Done);
    p = step(p, idle(10));
    p = step(p, Event::Ready);
    assert_eq!(action(p), Action::Pump);
    p = step(p, idle(10));
    p = step(p, Event::Handled { exit: false });
    assert_eq!(action(p), Action::NextCommand);
    p = step(p, Event::Handled { exit: true });
    assert_eq!(p, Phase::Emptying);
    p = step(p, Event::Handled { exit: true });
    assert_eq!(p, Phase::Emptying);
    p = step(p, Event::NoCommand);
    assert_eq!(action(p), Action::Drain);
    p = step(p, Event::Done);
    assert_eq!(action(p), Action::Close);
    p = step(p, Event::Done);
    assert_eq!(action(p), Action::Stop);
    assert_eq!(step(p, Event::Connected), Phase::Stopped);
}

#[test]
fn a_task_that_never_connects() {
    assert_eq!(step(start(), Event::ConnectFailed), Phase::Stopped);
}

#[test]
fn rounds_end_after_sixty_four_commands() {
    let mut p = Phase::Waiting;
    for i in 1..64 {
        p = step(p, Event::Handled { exit: false });
        assert_eq!(p, Phase::Serving(i));
    }
    p = step(p, Event::Handled { exit: false });
    assert_eq!(p, Phase::Pumping);
    assert_eq!(step(Phase::Serving(3), Event::NoCommand), Phase::Pumping);
    assert_eq!(step(Phase::Serving(255), Event::Handled { exit: false }), Phase::Pumping);
}

#[test]
fn handles_that_are_all_dropped() {
    assert_eq!(step(Phase::Waiting, Event::HandlesGone), Phase::Draining);
    assert_eq!(step(Phase::Serving(1), Event::HandlesGone), Phase::Closing);
    assert_eq!(step(Phase::Emptying, Event::HandlesGone), Phase::Draining);
}

#[test]
fn silence_closes_the_connection() {
    assert_eq!(step(Phase::Pumping, idle(3000)), Phase::Waiting);
    let p = step(Phase::Pumping, idle(3001));
    assert_eq!(action(p), Action::ForceClose);
    assert_eq!(step(p, Event::ForceClosed { closed: false }), Phase::Waiting);
    let p = step(p, Event::ForceClosed { closed: true });
    assert_eq!(action(p), Action::Reconnect);
    assert_eq!(step(p, Event::GaveUp), Phase::Stopped);
    let p = step(p, Event::Reestablished);
    assert_eq!(action(p), Action::Replay);
    assert_eq!(step(p, Event::Done), Phase::Pumping);
    let closed = Event::Pumped { closed: true, idle: Duration::from_secs(9) };
    assert_eq!(step(Phase::Pumping, closed), Phase::Reconnecting);
}

#[test]
fn reconnecting() {
    let mut policy = ReconnectPolicy::default();
    assert_eq!(start_redial(&policy), Redial::GivenUp);
    policy.max_attempts = 2;
    let mut at = start_redial(&policy);
    assert_eq!(at, Redial::Sleeping(0));
    at = step_redial(&policy, at, RedialEvent::Slept);
    assert_eq!(at, Redial::Dialing(0));
    at = step_redial(&policy, at, RedialEvent::ConnectFailed);
    assert_eq!(at, Redial::Sleeping(1));
    assert_eq!(step_redial(&policy, at, RedialEvent::HandlesGone), Redial::GivenUp);
    // Commands do not cut the wait short.
    for _ in 0..5 {
        at = step_redial(&policy, at, RedialEvent::CommandFailed);
        assert_eq!(at, Redial::Sleeping(1));
    }
    assert_eq!(redial_wait(&policy, at), Some(Duration::from_secs(1)));
    assert_eq!(redial_wait(&policy, Redial::Sleeping(0)), Some(Duration::from_millis(500)));
    assert_eq!(redial_wait(&policy, Redial::Sleeping(20)), Some(Duration::from_secs(10)));
    at = step_redial(&policy, at, RedialEvent::Slept);
    assert_eq!(at, Redial::Dialing(1));
    assert_eq!(redial_wait(&policy, at), None);
    assert_eq!(step_redial(&policy, at, RedialEvent::Connected), Redial::Established);
    assert_eq!(step_redial(&policy, at, RedialEvent::ConnectFailed), Redial::GivenUp);
    assert_eq!(ReconnectPolicy::disabled().max_attempts, 0);
    assert!(ReconnectPolicy::disabled().resubscribe);
    assert_eq!((HEARTBEAT_PERIOD_SECS, HEARTBEAT_TIMEOUT_SECS), (1, 3));
}

#[test]
fn retried_publishes() {
    let ms = Duration::from_millis;
    let mut p = RetriedPublish::new(2, ms(100), ms(150));
    match p.outcome(Err(PublishError::NotConnected)) {
        Retry::After(d) => assert_eq!(d, ms(100)),
        Retry::Return(_) => panic!("gave up"),
    }
    match p.outcome(Err(PublishError::NotConnected)) {
        Retry::After(d) => assert_eq!(d, ms(150)),
        Retry::Return(_) => panic!("gave up"),
    }
    assert!(matches!(
        p.outcome(Err(PublishError::NotConnected)),
        Retry::Return(Err(PublishError::NotConnected))
    ));
    let mut p = RetriedPublish::new(5, ms(1), ms(1));
    assert!(matches!(
        p.outcome(Err(PublishError::TooLarge(9))),
        Retry::Return(Err(PublishError::TooLarge(9)))
    ));
    assert!(matches!(p.outcome(Ok(())), Retry::Return(Ok(()))));
    // No retries at all.
    let mut once = RetriedPublish::new(0, ms(1), ms(1));
    assert!(matches!(
        once.outcome(Err(PublishError::NotConnected)),
        Retry::Return(Err(PublishError::NotConnected))
    ));
}

#[test]
fn backoff_values() {
    let ms = Duration::from_millis;
    for (attempt, expected) in [(0, 10), (1, 20), (2, 40), (5, 320), (6, 500), (40, 500)] {
        assert_eq!(backoff_for(attempt, ms(10), ms(500)), ms(expected));
    }
    // The doubling stops after 31 times.
    let long = Duration::from_secs(u64::MAX);
    assert_eq!(backoff_for(31, ms(1), long), ms(1 << 31));
    assert_eq!(backoff_for(32, ms(1), long), ms(1 << 31));
    // Fractions of a millisecond are cut off.
    let odd = Duration::new(0, 1_999_999);
    assert_eq!(backoff_for(0, odd, ms(500)), ms(1));
    assert_eq!(odd.as_millis(), 1);
    assert_eq!((odd.as_secs(), odd.subsec_nanos()), (0, 1_999_999));
    assert!(odd.exceeds(&ms(1)));
    assert!(!ms(2).exceeds(&ms(2)));
}
