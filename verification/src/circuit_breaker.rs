//! A circuit breaker: after enough failures it opens and refuses attempts; once
//! the reset timeout has passed it lets a limited number of trial attempts
//! through, and closes again once as many of them have succeeded as it allows.
//!
//! Times are milliseconds of `crate::time::clock_millis`. Each operation that
//! reads the clock has a form ending in `_at` that takes the time instead; the
//! reading forms call the clock and then that form.
use vstd::prelude::*;
use crate::time::clock_millis;

verus! {

/// The three states of a breaker.
#[derive(Debug, Clone, Copy, PartialEq, Eq, Structural)]
pub enum CircuitState {
    Closed,
    Open,
    HalfOpen,
}

/// How a breaker is configured.
#[derive(Debug, Clone, PartialEq, Eq, Structural)]
pub struct CircuitBreakerConfig {
    /// Failures that open the breaker.
    pub max_failures: usize,
    /// Seconds the breaker stays open before it lets trial attempts through.
    pub reset_timeout_seconds: u64,
    /// Trial attempts let through while half open.
    pub half_open_attempts: usize,
}

impl Default for CircuitBreakerConfig {
    /// Three failures, thirty seconds, one trial attempt.
    fn default() -> (c: Self)
        ensures
            c.max_failures == 3,
            c.reset_timeout_seconds == 30,
            c.half_open_attempts == 1,
    {
        CircuitBreakerConfig { max_failures: 3, reset_timeout_seconds: 30, half_open_attempts: 1 }
    }
}

/// Milliseconds in `secs` seconds, held at `u64::MAX` when they do not fit.
pub open spec fn timeout_millis(secs: u64) -> u64 {
    if secs * 1000 <= u64::MAX {
        (secs * 1000) as u64
    } else {
        u64::MAX
    }
}

/// `t + d`, held at `u64::MAX` when it does not fit.
pub open spec fn add_capped(t: u64, d: u64) -> u64 {
    if t + d <= u64::MAX {
        (t + d) as u64
    } else {
        u64::MAX
    }
}

#[derive(Debug)]
pub struct CircuitBreaker {
    state: CircuitState,
    failure_count: usize,
    last_attempt: u64,
    open_until: u64,
    reset_timeout_ms: u64,
    max_failures: usize,
    half_open_attempts: usize,
    half_open_max_attempts: usize,
    half_open_successes: usize,
}

impl CircuitBreaker {
    /// The trial attempts used while half open never exceed the allowance,
    /// the successes counted while half open stay below it, and neither is
    /// counted in the other states.
    #[verifier::type_invariant]
    pub closed spec fn inv(self) -> bool {
        &&& self.half_open_attempts <= self.half_open_max_attempts
        &&& self.state != CircuitState::HalfOpen ==> self.half_open_attempts == 0
        &&& self.state != CircuitState::HalfOpen ==> self.half_open_successes == 0
        &&& self.half_open_successes == 0 || self.half_open_successes < self.half_open_max_attempts
    }

    pub closed spec fn spec_state(self) -> CircuitState {
        self.state
    }

    pub closed spec fn spec_failure_count(self) -> usize {
        self.failure_count
    }

    /// When the last failure was recorded.
    pub closed spec fn spec_last_attempt(self) -> u64 {
        self.last_attempt
    }

    /// Until when an open breaker refuses attempts.
    pub closed spec fn spec_open_until(self) -> u64 {
        self.open_until
    }

    pub closed spec fn spec_reset_timeout_ms(self) -> u64 {
        self.reset_timeout_ms
    }

    pub closed spec fn spec_max_failures(self) -> usize {
        self.max_failures
    }

    /// Trial attempts let through since the breaker became half open.
    pub closed spec fn spec_half_open_attempts(self) -> usize {
        self.half_open_attempts
    }

    pub closed spec fn spec_half_open_max_attempts(self) -> usize {
        self.half_open_max_attempts
    }

    /// Successful trial attempts counted since the breaker became half open.
    pub closed spec fn spec_half_open_successes(self) -> usize {
        self.half_open_successes
    }

    /// The breaker after it closes: no failures, trial attempts or successes
    /// counted.
    pub closed spec fn after_close(self) -> Self {
        CircuitBreaker {
            state: CircuitState::Closed,
            failure_count: 0,
            half_open_attempts: 0,
            half_open_successes: 0,
            ..self
        }
    }

    /// The breaker after a success: while half open the success is counted,
    /// and the breaker closes once `half_open_attempts` successes have been
    /// counted; in the other states it closes at once.
    pub closed spec fn after_success(self) -> Self {
        if self.state == CircuitState::HalfOpen && self.half_open_successes + 1
            < self.half_open_max_attempts {
            CircuitBreaker { half_open_successes: (self.half_open_successes + 1) as usize, ..self }
        } else {
            self.after_close()
        }
    }

    /// The breaker after opening at time `now`.
    pub closed spec fn after_open(self, now: u64) -> Self {
        CircuitBreaker {
            state: CircuitState::Open,
            open_until: add_capped(now, self.reset_timeout_ms),
            half_open_attempts: 0,
            half_open_successes: 0,
            ..self
        }
    }

    /// The breaker after becoming half open.
    pub closed spec fn after_half_open(self) -> Self {
        CircuitBreaker {
            state: CircuitState::HalfOpen,
            half_open_attempts: 0,
            half_open_successes: 0,
            ..self
        }
    }

    /// The breaker after a failure at time `now`: the failure is counted, and
    /// the breaker opens once the count reaches the maximum.
    pub closed spec fn after_failure(self, now: u64) -> Self {
        let counted = CircuitBreaker {
            failure_count: (self.failure_count + 1) as usize,
            last_attempt: now,
            ..self
        };
        if counted.failure_count >= counted.max_failures {
            counted.after_open(now)
        } else {
            counted
        }
    }

    /// The breaker and the answer after asking at time `now` whether an
    /// attempt may go ahead.
    pub closed spec fn after_can_attempt(self, now: u64) -> (Self, bool) {
        match self.state {
            CircuitState::Closed => (self, true),
            CircuitState::Open => {
                if now >= self.open_until {
                    (self.after_half_open(), true)
                } else {
                    (self, false)
                }
            },
            CircuitState::HalfOpen => {
                if self.half_open_attempts < self.half_open_max_attempts {
                    (
                        CircuitBreaker {
                            half_open_attempts: (self.half_open_attempts + 1) as usize,
                            ..self
                        },
                        true,
                    )
                } else {
                    (self, false)
                }
            },
        }
    }

    /// A closed breaker with no failures, created at time `now`.
    pub fn new_at(config: &CircuitBreakerConfig, now: u64) -> (b: Self)
        ensures
            b.spec_state() == CircuitState::Closed,
            b.spec_failure_count() == 0,
            b.spec_last_attempt() == now,
            b.spec_open_until() == now,
            b.spec_reset_timeout_ms() == timeout_millis(config.reset_timeout_seconds),
            b.spec_max_failures() == config.max_failures,
            b.spec_half_open_attempts() == 0,
            b.spec_half_open_max_attempts() == config.half_open_attempts,
            b.spec_half_open_successes() == 0,
    {
        let reset_timeout_ms = config.reset_timeout_seconds.checked_mul(1000).unwrap_or(u64::MAX);
        CircuitBreaker {
            state: CircuitState::Closed,
            failure_count: 0,
            last_attempt: now,
            open_until: now,
            reset_timeout_ms,
            max_failures: config.max_failures,
            half_open_attempts: 0,
            half_open_max_attempts: config.half_open_attempts,
            half_open_successes: 0,
        }
    }

    /// A closed breaker with no failures, created now.
    pub fn new(config: &CircuitBreakerConfig) -> (b: Self)
        ensures
            b.spec_state() == CircuitState::Closed,
            b.spec_failure_count() == 0,
            b.spec_open_until() == b.spec_last_attempt(),
            b.spec_reset_timeout_ms() == timeout_millis(config.reset_timeout_seconds),
            b.spec_max_failures() == config.max_failures,
            b.spec_half_open_attempts() == 0,
            b.spec_half_open_max_attempts() == config.half_open_attempts,
            b.spec_half_open_successes() == 0,
    {
        Self::new_at(config, clock_millis())
    }

    /// Records a success. A half-open breaker counts it and closes once it
    /// has counted `half_open_attempts` successes; otherwise the breaker
    /// closes and forgets its failures.
    pub fn record_success(&mut self)
        ensures
            *final(self) == old(self).after_success(),
    {
        proof {
            use_type_invariant(&*self);
        }
        if self.state == CircuitState::HalfOpen && self.half_open_successes + 1
            < self.half_open_max_attempts {
            self.half_open_successes = self.half_open_successes + 1;
        } else {
            self.half_open_attempts = 0;
            self.half_open_successes = 0;
            self.failure_count = 0;
            self.state = CircuitState::Closed;
        }
    }

    /// Records a failure at time `now`.
    pub fn record_failure_at(&mut self, now: u64)
        requires
            old(self).spec_failure_count() < usize::MAX,
        ensures
            *final(self) == old(self).after_failure(now),
    {
        proof {
            use_type_invariant(&*self);
        }
        self.failure_count = self.failure_count + 1;
        self.last_attempt = now;
        if self.failure_count >= self.max_failures {
            self.transition_to_open_at(now);
        }
    }

    /// Records a failure now.
    pub fn record_failure(&mut self)
        requires
            old(self).spec_failure_count() < usize::MAX,
        ensures
            exists|now: u64| *final(self) == old(self).after_failure(now),
    {
        let now = clock_millis();
        self.record_failure_at(now);
    }

    /// Whether an attempt may go ahead at time `now`. An open breaker whose
    /// timeout has passed becomes half open and lets this attempt through; a
    /// half-open breaker lets attempts through until its allowance is used.
    pub fn can_attempt_at(&mut self, now: u64) -> (r: bool)
        ensures
            (*final(self), r) == old(self).after_can_attempt(now),
            old(self).spec_state() == CircuitState::Closed ==> r && *final(self) == *old(self),
    {
        proof {
            use_type_invariant(&*self);
        }
        match self.state {
            CircuitState::Closed => true,
            CircuitState::Open => {
                if now >= self.open_until {
                    self.transition_to_half_open();
                    true
                } else {
                    false
                }
            },
            CircuitState::HalfOpen => {
                if self.half_open_attempts < self.half_open_max_attempts {
                    self.half_open_attempts = self.half_open_attempts + 1;
                    true
                } else {
                    false
                }
            },
        }
    }

    /// Whether an attempt may go ahead now.
    pub fn can_attempt(&mut self) -> (r: bool)
        ensures
            exists|now: u64| (*final(self), r) == old(self).after_can_attempt(now),
            old(self).spec_state() == CircuitState::Closed ==> r && *final(self) == *old(self),
    {
        let now = clock_millis();
        self.can_attempt_at(now)
    }

    /// Closes the breaker and forgets its failures.
    pub fn transition_to_closed(&mut self)
        ensures
            *final(self) == old(self).after_close(),
    {
        proof {
            use_type_invariant(&*self);
        }
        self.half_open_attempts = 0;
        self.half_open_successes = 0;
        self.state = CircuitState::Closed;
        self.failure_count = 0;
    }

    /// Opens the breaker at time `now` until the reset timeout has passed.
    pub fn transition_to_open_at(&mut self, now: u64)
        ensures
            *final(self) == old(self).after_open(now),
    {
        proof {
            use_type_invariant(&*self);
        }
        self.half_open_attempts = 0;
        self.half_open_successes = 0;
        self.state = CircuitState::Open;
        self.open_until = now.checked_add(self.reset_timeout_ms).unwrap_or(u64::MAX);
    }

    /// Opens the breaker now until the reset timeout has passed.
    pub fn transition_to_open(&mut self)
        ensures
            exists|now: u64| *final(self) == old(self).after_open(now),
    {
        let now = clock_millis();
        self.transition_to_open_at(now);
    }

    /// Makes the breaker half open with its whole allowance of trial attempts.
    pub fn transition_to_half_open(&mut self)
        ensures
            *final(self) == old(self).after_half_open(),
    {
        proof {
            use_type_invariant(&*self);
        }
        self.half_open_attempts = 0;
        self.half_open_successes = 0;
        self.state = CircuitState::HalfOpen;
    }

    pub fn get_state(&self) -> (s: CircuitState)
        ensures
            s == self.spec_state(),
    {
        self.state
    }

    /// The failures counted since the breaker last closed.
    pub fn failure_count(&self) -> (n: usize)
        ensures
            n == self.spec_failure_count(),
    {
        self.failure_count
    }
}

impl CircuitBreaker {
    /// The breaker after failures recorded at the given times, in order.
    pub open spec fn after_failures(self, times: Seq<u64>) -> Self
        decreases times.len(),
    {
        if times.len() == 0 {
            self
        } else {
            self.after_failures(times.drop_last()).after_failure(times.last())
        }
    }

    /// The breaker, and how many attempts it let through, after asking whether
    /// an attempt may go ahead at each of the given times, in order.
    pub open spec fn after_asking(self, times: Seq<u64>) -> (Self, nat)
        decreases times.len(),
    {
        if times.len() == 0 {
            (self, 0)
        } else {
            let (before, granted) = self.after_asking(times.drop_last());
            let (after, ok) = before.after_can_attempt(times.last());
            (after, if ok { granted + 1 } else { granted })
        }
    }

    /// The breaker after `n` successes in a row.
    pub open spec fn after_successes(self, n: nat) -> Self
        decreases n,
    {
        if n == 0 {
            self
        } else {
            self.after_successes((n - 1) as nat).after_success()
        }
    }

    /// Outside the half-open state a success leaves the breaker closed with
    /// no failures counted.
    pub proof fn law_success_closes(self)
        requires
            self.spec_state() != CircuitState::HalfOpen,
        ensures
            self.after_success().spec_state() == CircuitState::Closed,
            self.after_success().spec_failure_count() == 0,
            self.after_success().spec_half_open_attempts() == 0,
            self.after_success().spec_half_open_successes() == 0,
    {
    }

    /// A breaker that has just become half open stays half open through its
    /// first `half_open_attempts - 1` successes, counting each, and the
    /// `half_open_attempts`-th success closes it with no failures counted.
    pub proof fn law_half_open_closes_after_successes(self, k: nat)
        requires
            self.spec_state() == CircuitState::HalfOpen,
            self.spec_half_open_successes() == 0,
            1 <= k <= self.spec_half_open_max_attempts(),
        ensures
            k < self.spec_half_open_max_attempts() ==> self.after_successes(k).spec_state()
                == CircuitState::HalfOpen,
            k < self.spec_half_open_max_attempts() ==> self.after_successes(
                k,
            ).spec_half_open_successes() == k,
            k == self.spec_half_open_max_attempts() ==> self.after_successes(k).spec_state()
                == CircuitState::Closed,
            k == self.spec_half_open_max_attempts() ==> self.after_successes(
                k,
            ).spec_failure_count() == 0,
            self.after_successes(k).spec_half_open_max_attempts()
                == self.spec_half_open_max_attempts(),
        decreases k,
    {
        if k > 1 {
            self.law_half_open_closes_after_successes((k - 1) as nat);
        } else {
            assert(self.after_successes(0) == self);
        }
        assert(self.after_successes(k) == self.after_successes((k - 1) as nat).after_success());
    }

    /// A closed breaker lets every attempt through and stays as it is.
    pub proof fn law_closed_admits(self, now: u64)
        requires
            self.spec_state() == CircuitState::Closed,
        ensures
            self.after_can_attempt(now) == (self, true),
    {
    }

    /// Each ask to a half-open breaker is granted exactly when trial attempts
    /// of its allowance are left; a granted one uses one of them, a refused
    /// one changes nothing, and the breaker stays half open.
    pub proof fn law_half_open_step(self, now: u64)
        requires
            self.spec_state() == CircuitState::HalfOpen,
        ensures
            self.after_can_attempt(now).1 == (self.spec_half_open_attempts()
                < self.spec_half_open_max_attempts()),
            self.after_can_attempt(now).1 ==> self.after_can_attempt(
                now,
            ).0.spec_half_open_attempts() == self.spec_half_open_attempts() + 1,
            !self.after_can_attempt(now).1 ==> self.after_can_attempt(now).0 == self,
            self.after_can_attempt(now).0.spec_state() == CircuitState::HalfOpen,
            self.after_can_attempt(now).0.spec_half_open_successes()
                == self.spec_half_open_successes(),
            self.after_can_attempt(now).0.spec_half_open_max_attempts()
                == self.spec_half_open_max_attempts(),
    {
    }

    /// A breaker configured with no allowed failures opens at the first
    /// failure, until the reset timeout after it.
    pub proof fn law_no_allowed_failures_opens_at_once(self, now: u64)
        requires
            self.spec_max_failures() == 0,
            self.spec_failure_count() < usize::MAX,
        ensures
            self.after_failure(now).spec_state() == CircuitState::Open,
            self.after_failure(now).spec_open_until() == add_capped(now, self.spec_reset_timeout_ms()),
    {
    }

    /// From a closed breaker with no failures counted, fewer than
    /// `max_failures` failures keep it closed, and the `max_failures`-th one
    /// opens it until the reset timeout after that failure.
    pub proof fn law_failures_open_at_threshold(self, times: Seq<u64>)
        requires
            self.spec_state() == CircuitState::Closed,
            self.spec_failure_count() == 0,
            self.spec_half_open_attempts() == 0,
            1 <= self.spec_max_failures(),
            times.len() <= self.spec_max_failures(),
        ensures
            times.len() < self.spec_max_failures() ==> self.after_failures(times).spec_state()
                == CircuitState::Closed,
            times.len() < self.spec_max_failures() ==> self.after_failures(times).spec_failure_count()
                == times.len(),
            times.len() == self.spec_max_failures() ==> self.after_failures(times).spec_state()
                == CircuitState::Open,
            times.len() == self.spec_max_failures() ==> self.after_failures(times).spec_open_until()
                == add_capped(times.last(), self.spec_reset_timeout_ms()),
            times.len() == self.spec_max_failures() ==> self.after_failures(
                times,
            ).spec_failure_count() == times.len(),
            self.after_failures(times).spec_max_failures() == self.spec_max_failures(),
            self.after_failures(times).spec_reset_timeout_ms() == self.spec_reset_timeout_ms(),
        decreases times.len(),
    {
        if times.len() > 0 {
            self.law_failures_open_at_threshold(times.drop_last());
        }
    }

    /// An open breaker refuses every attempt, unchanged, until its timeout.
    pub proof fn law_open_refuses_until_timeout(self, now: u64)
        requires
            self.spec_state() == CircuitState::Open,
            now < self.spec_open_until(),
        ensures
            self.after_can_attempt(now) == (self, false),
    {
    }

    /// Once the reset timeout has passed since the breaker opened, the next
    /// attempt goes ahead and the breaker becomes half open.
    pub proof fn law_open_recovers_after_timeout(self, opened_at: u64, now: u64)
        requires
            opened_at + self.spec_reset_timeout_ms() <= now,
        ensures
            self.after_open(opened_at).after_can_attempt(now).1,
            self.after_open(opened_at).after_can_attempt(now).0.spec_state()
                == CircuitState::HalfOpen,
            self.after_open(opened_at).after_can_attempt(now).0.spec_half_open_attempts() == 0,
            self.after_open(opened_at).after_can_attempt(now).0.spec_half_open_successes() == 0,
            self.after_open(opened_at).after_can_attempt(now).0.spec_failure_count()
                == self.spec_failure_count(),
    {
    }

    /// From a closed breaker with no failures counted, `max_failures` failures
    /// open it; once its timeout has passed the next ask makes it half open,
    /// and one failure there opens it again until the reset timeout after
    /// that failure.
    pub proof fn law_half_open_failure_reopens(self, times: Seq<u64>, now: u64, t: u64)
        requires
            self.spec_state() == CircuitState::Closed,
            self.spec_failure_count() == 0,
            self.spec_half_open_attempts() == 0,
            1 <= self.spec_max_failures() < usize::MAX,
            times.len() == self.spec_max_failures(),
            add_capped(times.last(), self.spec_reset_timeout_ms()) <= now,
        ensures
            self.after_failures(times).after_can_attempt(now).1,
            self.after_failures(times).after_can_attempt(now).0.spec_state()
                == CircuitState::HalfOpen,
            self.after_failures(times).after_can_attempt(now).0.after_failure(t).spec_state()
                == CircuitState::Open,
            self.after_failures(times).after_can_attempt(now).0.after_failure(
                t,
            ).spec_open_until() == add_capped(t, self.spec_reset_timeout_ms()),
    {
        self.law_failures_open_at_threshold(times);
    }

    /// A breaker that has just become half open lets exactly
    /// `min(n, half_open_attempts)` of `n` successive attempts through, and
    /// stays half open.
    pub proof fn law_half_open_allowance(self, times: Seq<u64>)
        requires
            self.spec_state() == CircuitState::HalfOpen,
            self.spec_half_open_attempts() == 0,
        ensures
            self.after_asking(times).0.spec_state() == CircuitState::HalfOpen,
            self.after_asking(times).1 == if times.len() <= self.spec_half_open_max_attempts() {
                times.len()
            } else {
                self.spec_half_open_max_attempts() as nat
            },
            self.after_asking(times).0.spec_half_open_attempts() == self.after_asking(times).1,
            self.after_asking(times).0.spec_half_open_max_attempts()
                == self.spec_half_open_max_attempts(),
        decreases times.len(),
    {
        if times.len() > 0 {
            self.law_half_open_allowance(times.drop_last());
        }
    }
}

} // verus!
