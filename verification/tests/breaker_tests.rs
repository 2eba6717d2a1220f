use rapidgate::gateway_core::breaker::{Breaker, BreakerState};
use rapidgate::gateway_core::error::CoreError;

#[test]
fn opens_after_threshold() {
    let mut b = Breaker::new("test", 2, 1000);
    for _ in 0..2 {
        assert!(b.before_call(0).is_ok());
        b.record(false, 0);
    }
    assert_eq!(b.state(), BreakerState::Open);
    let r = b.before_call(10);
    assert!(matches!(r, Err(CoreError::BreakerOpen(_))));
}

#[test]
fn closes_on_success() {
    let mut b = Breaker::new("test", 1, 10);
    assert!(b.before_call(0).is_ok());
    b.record(false, 0);
    assert_eq!(b.state(), BreakerState::Open);
    // After the open period the breaker lets a probe through.
    assert!(b.before_call(20).is_ok());
    assert_eq!(b.state(), BreakerState::HalfOpen);
    b.record(true, 20);
    assert_eq!(b.state(), BreakerState::Closed);
}

#[test]
fn half_open_failure_reopens() {
    let mut b = Breaker::new("svc", 3, 100);
    for t in 0..3 {
        b.on_failure(t);
    }
    assert_eq!(b.state(), BreakerState::Open);
    assert!(b.before_call(50).is_err());
    assert!(b.before_call(102).is_ok());
    assert_eq!(b.state(), BreakerState::HalfOpen);
    b.on_failure(103);
    assert_eq!(b.state(), BreakerState::Open);
    assert!(b.before_call(150).is_err());
    assert!(b.before_call(203).is_ok());
}

#[test]
fn breaker_open_error_names_breaker() {
    let mut b = Breaker::new("upstream-a", 1, 1000);
    b.on_failure(0);
    let e = b.before_call(1).unwrap_err();
    assert_eq!(e.message(), "circuit breaker open: upstream-a");
    assert_eq!(b.name(), "upstream-a");
}

#[test]
fn success_resets_failures() {
    let mut b = Breaker::new("x", 3, 10);
    b.on_failure(0);
    b.on_failure(0);
    assert_eq!(b.consecutive_failures(), 2);
    b.on_success();
    assert_eq!(b.consecutive_failures(), 0);
    b.on_failure(0);
    b.on_failure(0);
    assert_eq!(b.state(), BreakerState::Closed);
}

#[test]
fn clock_going_back_does_not_half_open() {
    let mut b = Breaker::new("x", 1, 10);
    b.on_failure(100);
    b.try_half_open(50);
    assert_eq!(b.state(), BreakerState::Open);
    b.try_half_open(110);
    assert_eq!(b.state(), BreakerState::HalfOpen);
}
