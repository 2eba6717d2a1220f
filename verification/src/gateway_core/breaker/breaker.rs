//! The circuit breaker state machine.
//!
//! Reaching the failure threshold opens the breaker; once it has been open
//! for `open_duration_ms` it turns half-open; in half-open one success closes
//! it and one failure opens it again.
//!
//! Time is given by the caller as milliseconds of a monotonic clock.

use vstd::prelude::*;

use crate::gateway_core::breaker::state::BreakerState;
use crate::gateway_core::error::CoreError;

verus! {

/// The part of a breaker that changes with every call.
struct Status {
    state: BreakerState,
    consecutive_failures: u32,
    opened_at_ms: Option<u64>,
}

/// A circuit breaker guarding one upstream.
pub struct Breaker {
    name: String,
    failure_threshold: u32,
    open_duration_ms: u64,
    status: Status,
}

/// Whether the breaker, opened at `opened_at`, may turn half-open at `now`.
pub open spec fn open_elapsed(opened_at: Option<u64>, now: u64, open_duration: u64) -> bool {
    match opened_at {
        Some(t) => (if now >= t { now - t } else { 0 }) >= open_duration,
        None => false,
    }
}

impl Breaker {
    /// The breaker's name.
    pub closed spec fn spec_name(&self) -> Seq<char> {
        self.name@
    }

    /// The number of failures that opens the breaker.
    pub closed spec fn threshold(&self) -> u32 {
        self.failure_threshold
    }

    /// How long the breaker stays open before turning half-open, in milliseconds.
    pub closed spec fn open_duration(&self) -> u64 {
        self.open_duration_ms
    }

    /// The current state.
    pub closed spec fn spec_state(&self) -> BreakerState {
        self.status.state
    }

    /// Failures since the last success.
    pub closed spec fn failures(&self) -> u32 {
        self.status.consecutive_failures
    }

    /// When the breaker last opened.
    pub closed spec fn opened_at(&self) -> Option<u64> {
        self.status.opened_at_ms
    }

    /// A closed breaker has had fewer failures than the threshold (or none);
    /// an open or half-open one has reached the threshold and records when it opened.
    #[verifier::type_invariant]
    pub closed spec fn inv(&self) -> bool {
        &&& self.status.state == BreakerState::Closed ==> (self.status.consecutive_failures
            < self.failure_threshold || self.status.consecutive_failures == 0)
        &&& self.status.state != BreakerState::Closed ==> {
            &&& self.status.opened_at_ms is Some
            &&& self.status.consecutive_failures >= self.failure_threshold
            &&& self.status.consecutive_failures >= 1
        }
    }

    /// A closed breaker with no failures.
    pub fn new(name: &str, failure_threshold: u32, open_duration_ms: u64) -> (b: Self)
        ensures
            b.spec_name() == name@,
            b.threshold() == failure_threshold,
            b.open_duration() == open_duration_ms,
            b.spec_state() == BreakerState::Closed,
            b.failures() == 0,
            b.opened_at() is None,
            b.inv(),
    {
        Breaker {
            name: name.to_owned(),
            failure_threshold,
            open_duration_ms,
            status: Status { state: BreakerState::Closed, consecutive_failures: 0, opened_at_ms: None },
        }
    }

    /// The breaker's name.
    pub fn name(&self) -> (s: &str)
        ensures
            s@ == self.spec_name(),
    {
        self.name.as_str()
    }

    /// The current state.
    pub fn state(&self) -> (s: BreakerState)
        ensures
            s == self.spec_state(),
    {
        self.status.state
    }

    /// Failures since the last success.
    pub fn consecutive_failures(&self) -> (n: u32)
        ensures
            n == self.failures(),
    {
        self.status.consecutive_failures
    }

    /// Records a success: the breaker closes and forgets its failures.
    pub fn on_success(&mut self)
        ensures
            final(self).spec_state() == BreakerState::Closed,
            final(self).failures() == 0,
            final(self).opened_at() is None,
            final(self).spec_name() == old(self).spec_name(),
            final(self).threshold() == old(self).threshold(),
            final(self).open_duration() == old(self).open_duration(),
            final(self).inv(),
    {
        self.status = Status { state: BreakerState::Closed, consecutive_failures: 0, opened_at_ms: None };
        proof {
            use_type_invariant(&*self);
        }
    }

    /// Records a failure at `now_ms`: reaching the threshold opens the breaker.
    pub fn on_failure(&mut self, now_ms: u64)
        requires
            old(self).failures() < u32::MAX,
        ensures
            final(self).failures() == old(self).failures() + 1,
            final(self).failures() >= final(self).threshold() ==> final(self).spec_state()
                == BreakerState::Open && final(self).opened_at() == Some(now_ms),
            final(self).failures() < final(self).threshold() ==> final(self).spec_state() == old(self).spec_state() && final(self).opened_at() == old(self).opened_at(),
            old(self).spec_state() == BreakerState::HalfOpen ==> final(self).spec_state()
                == BreakerState::Open,
            final(self).spec_name() == old(self).spec_name(),
            final(self).threshold() == old(self).threshold(),
            final(self).open_duration() == old(self).open_duration(),
            final(self).inv(),
    {
        proof {
            use_type_invariant(&*self);
        }
        let fails = self.status.consecutive_failures + 1;
        if fails >= self.failure_threshold {
            self.status = Status {
                state: BreakerState::Open,
                consecutive_failures: fails,
                opened_at_ms: Some(now_ms),
            };
        } else {
            self.status = Status {
                state: self.status.state,
                consecutive_failures: fails,
                opened_at_ms: self.status.opened_at_ms,
            };
        }
        proof {
            use_type_invariant(&*self);
        }
    }

    /// An open breaker whose open period has passed at `now_ms` turns half-open.
    pub fn try_half_open(&mut self, now_ms: u64)
        ensures
            final(self).spec_state() == (if old(self).spec_state() == BreakerState::Open
                && open_elapsed(old(self).opened_at(), now_ms, old(self).open_duration()) {
                BreakerState::HalfOpen
            } else {
                old(self).spec_state()
            }),
            final(self).failures() == old(self).failures(),
            final(self).opened_at() == old(self).opened_at(),
            final(self).spec_name() == old(self).spec_name(),
            final(self).threshold() == old(self).threshold(),
            final(self).open_duration() == old(self).open_duration(),
            final(self).inv(),
    {
        proof {
            use_type_invariant(&*self);
        }
        if self.status.state == BreakerState::Open {
            if let Some(t) = self.status.opened_at_ms {
                let elapsed = if now_ms >= t {
                    now_ms - t
                } else {
                    0
                };
                if elapsed >= self.open_duration_ms {
                    self.status = Status {
                        state: BreakerState::HalfOpen,
                        consecutive_failures: self.status.consecutive_failures,
                        opened_at_ms: self.status.opened_at_ms,
                    };
                }
            }
        }
        proof {
            use_type_invariant(&*self);
        }
    }

    /// Decides whether a call may go through at `now_ms`: the breaker first
    /// turns half-open if its open period has passed, then refuses the call
    /// with `CoreError::BreakerOpen(name)` if it is still open.
    pub fn before_call(&mut self, now_ms: u64) -> (r: Result<(), CoreError>)
        ensures
            final(self).spec_state() == (if old(self).spec_state() == BreakerState::Open
                && open_elapsed(old(self).opened_at(), now_ms, old(self).open_duration()) {
                BreakerState::HalfOpen
            } else {
                old(self).spec_state()
            }),
            final(self).failures() == old(self).failures(),
            final(self).opened_at() == old(self).opened_at(),
            final(self).spec_name() == old(self).spec_name(),
            final(self).threshold() == old(self).threshold(),
            final(self).open_duration() == old(self).open_duration(),
            r is Err <==> final(self).spec_state() == BreakerState::Open,
            r matches Err(e) ==> (e matches CoreError::BreakerOpen(n) && n@ == old(self).spec_name()),
            final(self).inv(),
    {
        self.try_half_open(now_ms);
        proof {
            use_type_invariant(&*self);
        }
        if self.status.state == BreakerState::Open {
            return Err(CoreError::BreakerOpen(self.name.clone()));
        }
        Ok(())
    }

    /// Records the outcome of a call made at `now_ms`.
    pub fn record(&mut self, success: bool, now_ms: u64)
        requires
            !success ==> old(self).failures() < u32::MAX,
        ensures
            success ==> final(self).spec_state() == BreakerState::Closed && final(self).failures()
                == 0 && final(self).opened_at() is None,
            !success ==> final(self).failures() == old(self).failures() + 1,
            !success && final(self).failures() >= final(self).threshold() ==> final(self).spec_state() == BreakerState::Open && final(self).opened_at() == Some(now_ms),
            !success && final(self).failures() < final(self).threshold() ==> final(self).spec_state() == old(self).spec_state() && final(self).opened_at() == old(self).opened_at(),
            !success && old(self).spec_state() == BreakerState::HalfOpen ==> final(self).spec_state()
                == BreakerState::Open,
            final(self).spec_name() == old(self).spec_name(),
            final(self).threshold() == old(self).threshold(),
            final(self).open_duration() == old(self).open_duration(),
            final(self).inv(),
    {
        if success {
            self.on_success();
        } else {
            self.on_failure(now_ms);
        }
        proof {
            use_type_invariant(&*self);
        }
    }
}

} // verus!
