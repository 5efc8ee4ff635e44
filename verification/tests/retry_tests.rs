use keeper::retry::{
    is_recoverable_error, retry_delay, RetryDecision, RetryState, TransportFailure, MAX_RETRIES, RETRY_DELAY_SECS,
};

fn connect_refused() -> TransportFailure {
    TransportFailure { timeout: false, connect: true, request: true }
}

fn terminal() -> TransportFailure {
    TransportFailure { timeout: false, connect: false, request: false }
}

#[test]
fn which_failures_are_recoverable() {
    assert!(is_recoverable_error(&TransportFailure { timeout: true, connect: false, request: false }));
    assert!(is_recoverable_error(&TransportFailure { timeout: false, connect: true, request: false }));
    assert!(is_recoverable_error(&TransportFailure { timeout: false, connect: false, request: true }));
    assert!(is_recoverable_error(&connect_refused()));
    assert!(!is_recoverable_error(&terminal()));
}

#[test]
fn delays_double() {
    assert_eq!(retry_delay(2, 0), 2);
    assert_eq!(retry_delay(2, 1), 4);
    assert_eq!(retry_delay(2, 2), 8);
    assert_eq!(retry_delay(3, 4), 48);
    assert_eq!(retry_delay(0, 70), 0);
    assert_eq!(retry_delay(1, 63), 1u64 << 63);
}

#[test]
fn delays_stop_at_the_ceiling() {
    assert_eq!(retry_delay(1, 64), u64::MAX);
    assert_eq!(retry_delay(2, 63), u64::MAX);
    assert_eq!(retry_delay(u64::MAX, 1), u64::MAX);
    assert_eq!(retry_delay(u64::MAX, 0), u64::MAX);
    assert_eq!(retry_delay(5, 4_000_000), u64::MAX);
}

#[test]
fn network_flap_on_head() {
    assert_eq!(MAX_RETRIES, 3);
    assert_eq!(RETRY_DELAY_SECS, 2);
    let mut state = RetryState::standard();
    let mut sleeps = Vec::new();
    for _ in 0..2 {
        match state.on_failure(&connect_refused()) {
            RetryDecision::RetryAfter { delay_secs } => sleeps.push(delay_secs),
            RetryDecision::GiveUp => panic!("gave up too early"),
        }
    }
    assert_eq!(sleeps, vec![2, 4]);
    assert_eq!(state.failed, 2);
}

#[test]
fn third_failure_ends_the_run() {
    let mut state = RetryState::standard();
    assert_eq!(state.on_failure(&connect_refused()), RetryDecision::RetryAfter { delay_secs: 2 });
    assert_eq!(state.on_failure(&connect_refused()), RetryDecision::RetryAfter { delay_secs: 4 });
    assert_eq!(state.on_failure(&connect_refused()), RetryDecision::GiveUp);
    assert_eq!(state.failed, 2);
    assert_eq!(state.on_failure(&connect_refused()), RetryDecision::GiveUp);
}

#[test]
fn terminal_failure_is_not_retried() {
    let mut state = RetryState::standard();
    assert_eq!(state.on_failure(&terminal()), RetryDecision::GiveUp);
    assert_eq!(state, RetryState::new(3, 2));
}

#[test]
fn one_attempt_with_no_retries_allowed() {
    let mut none = RetryState::new(0, 2);
    assert_eq!(none.on_failure(&connect_refused()), RetryDecision::GiveUp);
    let mut one = RetryState::new(1, 2);
    assert_eq!(one.on_failure(&connect_refused()), RetryDecision::GiveUp);
    let mut two = RetryState::new(2, 5);
    assert_eq!(two.on_failure(&connect_refused()), RetryDecision::RetryAfter { delay_secs: 5 });
    assert_eq!(two.on_failure(&connect_refused()), RetryDecision::GiveUp);
}
