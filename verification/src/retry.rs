//! Retry strategies: how long to wait before each further attempt, and how many
//! attempts to make. The strategies whose delays are computed in floating point
//! (exponential, geometric, jitter) are built by the application around this
//! module; `choose_strategy` decides which strategy a configuration names.
use vstd::prelude::*;
use crate::time::{Duration, NANOS_PER_SEC, max_total_nanos};
use crate::text::{chars_of, chars_eq};
use vstd::string::*;
use rand::Rng;

verus! {

/// A policy for the delays between attempts.
pub trait RetryStrategy {
    /// Whether the next call of `delay` can compute its value.
    spec fn next_delay_defined(&self) -> bool;

    /// The delay before the next attempt.
    fn delay(&mut self) -> (d: Duration)
        requires
            old(self).next_delay_defined(),
    ;

    /// How many attempts the strategy allows.
    fn max_attempts(&self) -> usize;
}

/// The multiplier that an attempt counter gives when narrowed to 32 bits.
pub open spec fn attempt_factor(attempt: nat) -> nat {
    attempt % 0x1_0000_0000
}

/// Narrows an attempt counter to 32 bits.
fn narrow_attempt(attempt: usize) -> (f: u32)
    ensures
        f as nat == attempt_factor(attempt as nat),
{
    (attempt as u64 % 0x1_0000_0000u64) as u32
}

/// The largest number of nanoseconds that a span can hold.
fn max_span_nanos() -> (n: u128)
    ensures
        n == max_total_nanos(),
{
    u64::MAX as u128 * NANOS_PER_SEC as u128 + (NANOS_PER_SEC as u128 - 1)
}

/// Whether `base + step * attempt` nanoseconds, with the attempt counter
/// narrowed to 32 bits, is a span that fits.
fn stepped_delay_fits(base: &Duration, step: &Duration, attempt: usize) -> (r: bool)
    ensures
        r == (base.total() + step.total() * attempt_factor(attempt as nat) <= max_total_nanos()),
{
    let factor = narrow_attempt(attempt) as u128;
    let b = base.as_nanos();
    let t = step.as_nanos();
    let limit = max_span_nanos();
    proof {
        use_type_invariant(base);
        use_type_invariant(step);
        base.lemma_parts();
        step.lemma_parts();
    }
    assert(t as int * factor <= limit as int * 0xffff_ffff) by (nonlinear_arith)
        requires
            t <= limit,
            factor <= 0xffff_ffff,
    ;
    b + t * factor <= limit
}

// ---------------------------------------------------------------------------
// Fixed interval
// ---------------------------------------------------------------------------

/// Waits the same delay before every attempt.
pub struct FixedIntervalBackoffStrategy {
    base_delay: Duration,
    max_attempts: usize,
}

impl FixedIntervalBackoffStrategy {
    /// The delay returned by every call.
    pub closed spec fn spec_base_delay(&self) -> Duration {
        self.base_delay
    }

    /// The allowed number of attempts.
    pub closed spec fn spec_max_attempts(&self) -> usize {
        self.max_attempts
    }

    pub fn new(base_delay: Duration, max_attempts: usize) -> (s: Self)
        ensures
            s.spec_base_delay() == base_delay,
            s.spec_max_attempts() == max_attempts,
    {
        Self { base_delay, max_attempts }
    }

    /// Whether the next delay can be computed: always.
    pub fn can_delay(&self) -> (r: bool)
        ensures
            r == self.next_delay_defined(),
    {
        true
    }
}

impl RetryStrategy for FixedIntervalBackoffStrategy {
    open spec fn next_delay_defined(&self) -> bool {
        true
    }

    fn delay(&mut self) -> (d: Duration)
        ensures
            d == old(self).spec_base_delay(),
            *final(self) == *old(self),
    {
        self.base_delay
    }

    fn max_attempts(&self) -> (n: usize)
        ensures
            n == self.spec_max_attempts(),
    {
        self.max_attempts
    }
}

// ---------------------------------------------------------------------------
// Linear backoff
// ---------------------------------------------------------------------------

/// Waits `base_delay + step * n` before the n-th attempt.
pub struct LinearBackoffStrategy {
    base_delay: Duration,
    step: Duration,
    current_attempt: usize,
    max_attempts: usize,
}

impl LinearBackoffStrategy {
    pub closed spec fn spec_base_delay(&self) -> Duration {
        self.base_delay
    }

    pub closed spec fn spec_step(&self) -> Duration {
        self.step
    }

    /// The number of the attempt that the next delay precedes.
    pub closed spec fn spec_current_attempt(&self) -> usize {
        self.current_attempt
    }

    pub closed spec fn spec_max_attempts(&self) -> usize {
        self.max_attempts
    }

    /// The nanoseconds of the delay before attempt `attempt`.
    pub open spec fn delay_nanos_at(&self, attempt: nat) -> int {
        self.spec_base_delay().total() + self.spec_step().total() * attempt_factor(attempt)
    }

    pub fn new(base_delay: Duration, step: Duration, max_attempts: usize) -> (s: Self)
        ensures
            s.spec_base_delay() == base_delay,
            s.spec_step() == step,
            s.spec_current_attempt() == 1,
            s.spec_max_attempts() == max_attempts,
    {
        Self { base_delay, step, current_attempt: 1, max_attempts }
    }

    /// Whether the next delay can be computed: the counter can move on and
    /// the delay fits in a span.
    pub fn can_delay(&self) -> (r: bool)
        ensures
            r == self.next_delay_defined(),
    {
        self.current_attempt < usize::MAX && stepped_delay_fits(
            &self.base_delay,
            &self.step,
            self.current_attempt,
        )
    }
}

impl RetryStrategy for LinearBackoffStrategy {
    open spec fn next_delay_defined(&self) -> bool {
        &&& self.spec_current_attempt() < usize::MAX
        &&& self.delay_nanos_at(self.spec_current_attempt() as nat) <= max_total_nanos()
    }

    fn delay(&mut self) -> (d: Duration)
        ensures
            d.total() == old(self).delay_nanos_at(old(self).spec_current_attempt() as nat),
            final(self).spec_current_attempt() == old(self).spec_current_attempt() + 1,
            final(self).spec_base_delay() == old(self).spec_base_delay(),
            final(self).spec_step() == old(self).spec_step(),
            final(self).spec_max_attempts() == old(self).spec_max_attempts(),
    {
        let factor = narrow_attempt(self.current_attempt);
        proof {
            use_type_invariant(self.base_delay);
            use_type_invariant(self.step);
            self.base_delay.lemma_parts();
            self.step.lemma_parts();
        }
        assert(self.step.total() * factor <= max_total_nanos()) by (nonlinear_arith)
            requires
                self.base_delay.total() >= 0,
                self.step.total() >= 0,
                self.base_delay.total() + self.step.total() * factor <= max_total_nanos(),
        ;
        let scaled = self.step.mul_u32(factor);
        let d = self.base_delay.add_duration(scaled);
        self.current_attempt = self.current_attempt + 1;
        d
    }

    fn max_attempts(&self) -> (n: usize)
        ensures
            n == self.spec_max_attempts(),
    {
        self.max_attempts
    }
}

// ---------------------------------------------------------------------------
// Random delay
// ---------------------------------------------------------------------------

/// A number drawn from `lo..hi`.
///
/// This calls `rand::Rng::gen_range` on `rand::thread_rng()`, which returns a
/// value of the half-open range and panics when the range is empty; which value
/// comes back is chance, so nothing more is stated.
#[verifier::external_body]
fn random_in_range(lo: u64, hi: u64) -> (r: u64)
    requires
        lo < hi,
    ensures
        lo <= r < hi,
{
    rand::thread_rng().gen_range(lo..hi)
}

/// Waits a random delay between two bounds.
pub struct RandomDelayStrategy {
    min_delay: Duration,
    max_delay: Duration,
    max_attempts: usize,
}

impl RandomDelayStrategy {
    pub closed spec fn spec_min_delay(&self) -> Duration {
        self.min_delay
    }

    pub closed spec fn spec_max_delay(&self) -> Duration {
        self.max_delay
    }

    pub closed spec fn spec_max_attempts(&self) -> usize {
        self.max_attempts
    }

    pub fn new(min_delay: Duration, max_delay: Duration, max_attempts: usize) -> (s: Self)
        ensures
            s.spec_min_delay() == min_delay,
            s.spec_max_delay() == max_delay,
            s.spec_max_attempts() == max_attempts,
    {
        Self { min_delay, max_delay, max_attempts }
    }

    /// Whether the next delay can be drawn: the bounds' whole seconds leave
    /// a non-empty range.
    pub fn can_delay(&self) -> (r: bool)
        ensures
            r == self.next_delay_defined(),
    {
        self.min_delay.as_secs() < self.max_delay.as_secs()
    }
}

impl RetryStrategy for RandomDelayStrategy {
    /// The whole seconds of the bounds must leave a non-empty range.
    open spec fn next_delay_defined(&self) -> bool {
        self.spec_min_delay().spec_secs() < self.spec_max_delay().spec_secs()
    }

    /// Whole seconds drawn from the range of the bounds' whole seconds (the
    /// upper one excluded), plus a random fraction of a second.
    fn delay(&mut self) -> (d: Duration)
        ensures
            old(self).spec_min_delay().spec_secs() <= d.spec_secs(),
            d.spec_secs() < old(self).spec_max_delay().spec_secs(),
            d.total() < old(self).spec_max_delay().spec_secs() as int * NANOS_PER_SEC as int,
            old(self).spec_min_delay().spec_secs() as int * NANOS_PER_SEC as int <= d.total(),
            *final(self) == *old(self),
    {
        let secs = random_in_range(self.min_delay.as_secs(), self.max_delay.as_secs());
        let nanos = random_in_range(0, NANOS_PER_SEC as u64) as u32;
        let d = Duration::new(secs, nanos);
        proof {
            use_type_invariant(d);
            d.lemma_parts();
        }
        d
    }

    fn max_attempts(&self) -> (n: usize)
        ensures
            n == self.spec_max_attempts(),
    {
        self.max_attempts
    }
}

// ---------------------------------------------------------------------------
// Incremental backoff
// ---------------------------------------------------------------------------

/// Waits `initial_delay + increment * n` before the n-th attempt.
pub struct IncrementalBackoffStrategy {
    initial_delay: Duration,
    increment: Duration,
    current_attempt: usize,
    max_attempts: usize,
}

impl IncrementalBackoffStrategy {
    pub closed spec fn spec_initial_delay(&self) -> Duration {
        self.initial_delay
    }

    pub closed spec fn spec_increment(&self) -> Duration {
        self.increment
    }

    pub closed spec fn spec_current_attempt(&self) -> usize {
        self.current_attempt
    }

    pub closed spec fn spec_max_attempts(&self) -> usize {
        self.max_attempts
    }

    /// The nanoseconds of the delay before attempt `attempt`.
    pub open spec fn delay_nanos_at(&self, attempt: nat) -> int {
        self.spec_initial_delay().total() + self.spec_increment().total() * attempt_factor(attempt)
    }

    pub fn new(initial_delay: Duration, increment: Duration, max_attempts: usize) -> (s: Self)
        ensures
            s.spec_initial_delay() == initial_delay,
            s.spec_increment() == increment,
            s.spec_current_attempt() == 1,
            s.spec_max_attempts() == max_attempts,
    {
        Self { initial_delay, increment, current_attempt: 1, max_attempts }
    }

    /// Whether the next delay can be computed: the counter can move on and
    /// the delay fits in a span.
    pub fn can_delay(&self) -> (r: bool)
        ensures
            r == self.next_delay_defined(),
    {
        self.current_attempt < usize::MAX && stepped_delay_fits(
            &self.initial_delay,
            &self.increment,
            self.current_attempt,
        )
    }
}

impl RetryStrategy for IncrementalBackoffStrategy {
    open spec fn next_delay_defined(&self) -> bool {
        &&& self.spec_current_attempt() < usize::MAX
        &&& self.delay_nanos_at(self.spec_current_attempt() as nat) <= max_total_nanos()
    }

    fn delay(&mut self) -> (d: Duration)
        ensures
            d.total() == old(self).delay_nanos_at(old(self).spec_current_attempt() as nat),
            final(self).spec_current_attempt() == old(self).spec_current_attempt() + 1,
            final(self).spec_initial_delay() == old(self).spec_initial_delay(),
            final(self).spec_increment() == old(self).spec_increment(),
            final(self).spec_max_attempts() == old(self).spec_max_attempts(),
    {
        let factor = narrow_attempt(self.current_attempt);
        proof {
            use_type_invariant(self.initial_delay);
            use_type_invariant(self.increment);
            self.initial_delay.lemma_parts();
            self.increment.lemma_parts();
        }
        assert(self.increment.total() * factor <= max_total_nanos()) by (nonlinear_arith)
            requires
                self.initial_delay.total() >= 0,
                self.increment.total() >= 0,
                self.initial_delay.total() + self.increment.total() * factor <= max_total_nanos(),
        ;
        let scaled = self.increment.mul_u32(factor);
        let d = self.initial_delay.add_duration(scaled);
        self.current_attempt = self.current_attempt + 1;
        d
    }

    fn max_attempts(&self) -> (n: usize)
        ensures
            n == self.spec_max_attempts(),
    {
        self.max_attempts
    }
}

// ---------------------------------------------------------------------------
// Fibonacci backoff
// ---------------------------------------------------------------------------

/// The Fibonacci numbers, starting 1, 1, 2, 3, 5.
pub open spec fn fib(n: nat) -> nat
    decreases n,
{
    if n <= 1 {
        1
    } else {
        fib((n - 1) as nat) + fib((n - 2) as nat)
    }
}

/// Waits the base delay's whole seconds times successive Fibonacci numbers.
pub struct FibonacciBackoffStrategy {
    base_delay: Duration,
    current: u64,
    next: u64,
    max_attempts: usize,
}

impl FibonacciBackoffStrategy {
    pub closed spec fn spec_base_delay(&self) -> Duration {
        self.base_delay
    }

    /// The multiplier of the next delay.
    pub closed spec fn spec_current(&self) -> u64 {
        self.current
    }

    /// The multiplier of the delay after that.
    pub closed spec fn spec_next(&self) -> u64 {
        self.next
    }

    pub closed spec fn spec_max_attempts(&self) -> usize {
        self.max_attempts
    }

    pub fn new(base_delay: Duration, max_attempts: usize) -> (s: Self)
        ensures
            s.spec_base_delay() == base_delay,
            s.spec_current() == 1,
            s.spec_next() == 1,
            s.spec_max_attempts() == max_attempts,
    {
        Self { base_delay, current: 1, next: 1, max_attempts }
    }

    /// Whether the next delay can be computed: the delay's seconds and the
    /// next multiplier fit in 64 bits.
    pub fn can_delay(&self) -> (r: bool)
        ensures
            r == self.next_delay_defined(),
    {
        self.base_delay.as_secs().checked_mul(self.current).is_some() && self.current.checked_add(
            self.next,
        ).is_some()
    }
}

impl RetryStrategy for FibonacciBackoffStrategy {
    open spec fn next_delay_defined(&self) -> bool {
        &&& self.spec_base_delay().spec_secs() * self.spec_current() <= u64::MAX
        &&& self.spec_current() + self.spec_next() <= u64::MAX
    }

    fn delay(&mut self) -> (d: Duration)
        ensures
            d.total() == old(self).spec_base_delay().spec_secs() * old(self).spec_current()
                * NANOS_PER_SEC as int,
            d.spec_secs() == old(self).spec_base_delay().spec_secs() * old(self).spec_current(),
            final(self).spec_current() == old(self).spec_next(),
            final(self).spec_next() == old(self).spec_current() + old(self).spec_next(),
            final(self).spec_base_delay() == old(self).spec_base_delay(),
            final(self).spec_max_attempts() == old(self).spec_max_attempts(),
    {
        let delay_seconds = self.base_delay.as_secs() * self.current;
        let new_next = self.current + self.next;
        self.current = self.next;
        self.next = new_next;
        Duration::from_secs(delay_seconds)
    }

    fn max_attempts(&self) -> (n: usize)
        ensures
            n == self.spec_max_attempts(),
    {
        self.max_attempts
    }
}

// ---------------------------------------------------------------------------
// Harmonic backoff
// ---------------------------------------------------------------------------

/// Waits the base delay divided by the attempt number.
pub struct HarmonicBackoffStrategy {
    base_delay: Duration,
    current_attempt: usize,
    max_attempts: usize,
}

impl HarmonicBackoffStrategy {
    pub closed spec fn spec_base_delay(&self) -> Duration {
        self.base_delay
    }

    pub closed spec fn spec_current_attempt(&self) -> usize {
        self.current_attempt
    }

    pub closed spec fn spec_max_attempts(&self) -> usize {
        self.max_attempts
    }

    pub fn new(base_delay: Duration, max_attempts: usize) -> (s: Self)
        ensures
            s.spec_base_delay() == base_delay,
            s.spec_current_attempt() == 1,
            s.spec_max_attempts() == max_attempts,
    {
        Self { base_delay, current_attempt: 1, max_attempts }
    }

    /// Whether the next delay can be computed: the counter can move on, the
    /// divisor is not zero and the base delay fits in 64 bits of nanoseconds.
    pub fn can_delay(&self) -> (r: bool)
        ensures
            r == self.next_delay_defined(),
    {
        self.current_attempt < usize::MAX && narrow_attempt(self.current_attempt) != 0
            && self.base_delay.as_nanos() <= u64::MAX as u128
    }
}

impl RetryStrategy for HarmonicBackoffStrategy {
    /// The base delay must fit in 64 bits of nanoseconds, and the attempt
    /// counter narrowed to 32 bits must not be zero.
    open spec fn next_delay_defined(&self) -> bool {
        &&& self.spec_current_attempt() < usize::MAX
        &&& attempt_factor(self.spec_current_attempt() as nat) != 0
        &&& self.spec_base_delay().total() <= u64::MAX
    }

    fn delay(&mut self) -> (d: Duration)
        ensures
            d.total() == old(self).spec_base_delay().total() / attempt_factor(
                old(self).spec_current_attempt() as nat,
            ) as int,
            final(self).spec_current_attempt() == old(self).spec_current_attempt() + 1,
            final(self).spec_base_delay() == old(self).spec_base_delay(),
            final(self).spec_max_attempts() == old(self).spec_max_attempts(),
    {
        proof {
            use_type_invariant(self.base_delay);
            self.base_delay.lemma_parts();
        }
        let divisor = narrow_attempt(self.current_attempt);
        let total_nanos = self.base_delay.as_secs() * (NANOS_PER_SEC as u64)
            + self.base_delay.subsec_nanos() as u64;
        let nanos_per_attempt = total_nanos / (divisor as u64);
        let d = Duration::from_nanos(nanos_per_attempt);
        self.current_attempt = self.current_attempt + 1;
        d
    }

    fn max_attempts(&self) -> (n: usize)
        ensures
            n == self.spec_max_attempts(),
    {
        self.max_attempts
    }
}

// ---------------------------------------------------------------------------
// Choosing a strategy from configuration
// ---------------------------------------------------------------------------

/// The strategy that a retry configuration names, with its whole-second
/// parameters resolved. The floating-point factor of the exponential,
/// geometric and jitter strategies stays with the configuration.
#[derive(Clone, Copy, Debug, PartialEq, Eq, Structural)]
pub enum StrategyChoice {
    Exponential { base_delay_seconds: u64, max_attempts: usize },
    Linear { base_delay_seconds: u64, step_seconds: u64, max_attempts: usize },
    FixedInterval { base_delay_seconds: u64, max_attempts: usize },
    RandomDelay { min_seconds: u64, max_seconds: u64, max_attempts: usize },
    Incremental { initial_seconds: u64, increment_seconds: u64, max_attempts: usize },
    Fibonacci { base_delay_seconds: u64, max_attempts: usize },
    Geometric { base_delay_seconds: u64, max_attempts: usize },
    Harmonic { base_delay_seconds: u64, max_attempts: usize },
    /// Jitter over an exponential strategy with the same base and attempts.
    Jitter { base_delay_seconds: u64, max_attempts: usize },
}

/// The strategy that `name` selects; an unknown name selects a fixed interval.
pub open spec fn spec_choose_strategy(
    name: Seq<char>,
    base: u64,
    max_attempts: usize,
    step: Option<u64>,
) -> StrategyChoice {
    if name == "ExponentialBackoff"@ {
        StrategyChoice::Exponential { base_delay_seconds: base, max_attempts }
    } else if name == "LinearBackoff"@ {
        StrategyChoice::Linear {
            base_delay_seconds: base,
            step_seconds: match step { Some(s) => s, None => base },
            max_attempts,
        }
    } else if name == "FixedInterval"@ {
        StrategyChoice::FixedInterval { base_delay_seconds: base, max_attempts }
    } else if name == "RandomDelay"@ {
        StrategyChoice::RandomDelay {
            min_seconds: base,
            max_seconds: match step { Some(s) => s, None => (base * 2) as u64 },
            max_attempts,
        }
    } else if name == "IncrementalBackoff"@ {
        StrategyChoice::Incremental {
            initial_seconds: base,
            increment_seconds: match step { Some(s) => s, None => 1 },
            max_attempts,
        }
    } else if name == "FibonacciBackoff"@ {
        StrategyChoice::Fibonacci { base_delay_seconds: base, max_attempts }
    } else if name == "GeometricBackoff"@ {
        StrategyChoice::Geometric { base_delay_seconds: base, max_attempts }
    } else if name == "HarmonicBackoff"@ {
        StrategyChoice::Harmonic { base_delay_seconds: base, max_attempts }
    } else if name == "JitterBackoff"@ {
        StrategyChoice::Jitter { base_delay_seconds: base, max_attempts }
    } else {
        StrategyChoice::FixedInterval { base_delay_seconds: base, max_attempts }
    }
}

/// Whether `name` is compared against `lit` and they are equal.
fn name_is(name: &[char], lit: &str) -> (r: bool)
    ensures
        r == (name@ == lit@),
{
    let l = chars_of(lit);
    chars_eq(name, l.as_slice())
}

/// Resolves a retry configuration's strategy name and whole-second parameters.
///
/// The random-delay default doubles the base delay; that product is computed
/// for the random-delay strategy whether or not a step is given, so it must fit.
pub fn choose_strategy(
    strategy: &str,
    base_delay_seconds: u64,
    max_attempts: usize,
    step_delay_seconds: Option<u64>,
) -> (c: StrategyChoice)
    requires
        strategy@ == "RandomDelay"@ ==> base_delay_seconds * 2 <= u64::MAX,
    ensures
        c == spec_choose_strategy(strategy@, base_delay_seconds, max_attempts, step_delay_seconds),
{
    let name = chars_of(strategy);
    let n = name.as_slice();
    let base = base_delay_seconds;
    if name_is(n, "ExponentialBackoff") {
        StrategyChoice::Exponential { base_delay_seconds: base, max_attempts }
    } else if name_is(n, "LinearBackoff") {
        let step = match step_delay_seconds {
            Some(s) => s,
            None => base,
        };
        StrategyChoice::Linear { base_delay_seconds: base, step_seconds: step, max_attempts }
    } else if name_is(n, "FixedInterval") {
        StrategyChoice::FixedInterval { base_delay_seconds: base, max_attempts }
    } else if name_is(n, "RandomDelay") {
        let doubled = base * 2;
        let max = match step_delay_seconds {
            Some(s) => s,
            None => doubled,
        };
        StrategyChoice::RandomDelay { min_seconds: base, max_seconds: max, max_attempts }
    } else if name_is(n, "IncrementalBackoff") {
        let inc = match step_delay_seconds {
            Some(s) => s,
            None => 1,
        };
        StrategyChoice::Incremental { initial_seconds: base, increment_seconds: inc, max_attempts }
    } else if name_is(n, "FibonacciBackoff") {
        StrategyChoice::Fibonacci { base_delay_seconds: base, max_attempts }
    } else if name_is(n, "GeometricBackoff") {
        StrategyChoice::Geometric { base_delay_seconds: base, max_attempts }
    } else if name_is(n, "HarmonicBackoff") {
        StrategyChoice::Harmonic { base_delay_seconds: base, max_attempts }
    } else if name_is(n, "JitterBackoff") {
        StrategyChoice::Jitter { base_delay_seconds: base, max_attempts }
    } else {
        StrategyChoice::FixedInterval { base_delay_seconds: base, max_attempts }
    }
}

// ---------------------------------------------------------------------------
// Laws
// ---------------------------------------------------------------------------

/// The number of attempts a chosen strategy allows.
pub open spec fn attempts_of(c: StrategyChoice) -> usize {
    match c {
        StrategyChoice::Exponential { max_attempts, .. } => max_attempts,
        StrategyChoice::Linear { max_attempts, .. } => max_attempts,
        StrategyChoice::FixedInterval { max_attempts, .. } => max_attempts,
        StrategyChoice::RandomDelay { max_attempts, .. } => max_attempts,
        StrategyChoice::Incremental { max_attempts, .. } => max_attempts,
        StrategyChoice::Fibonacci { max_attempts, .. } => max_attempts,
        StrategyChoice::Geometric { max_attempts, .. } => max_attempts,
        StrategyChoice::Harmonic { max_attempts, .. } => max_attempts,
        StrategyChoice::Jitter { max_attempts, .. } => max_attempts,
    }
}

/// Whatever the name, the chosen strategy allows the configured number of
/// attempts.
pub proof fn law_strategy_keeps_attempts(name: Seq<char>, base: u64, max_attempts: usize, step: Option<u64>)
    ensures
        attempts_of(spec_choose_strategy(name, base, max_attempts, step)) == max_attempts,
{
}

/// Each known name chooses its strategy with the configured base delay and
/// attempts; a configured step `s` is the linear step, the incremental
/// increment and the random delay's upper bound, and without a step these
/// are the base delay, one second and twice the base delay.
pub proof fn law_named_strategies(base: u64, max_attempts: usize, s: u64)
    ensures
        spec_choose_strategy("ExponentialBackoff"@, base, max_attempts, Some(s)) == (StrategyChoice::Exponential {
            base_delay_seconds: base,
            max_attempts,
        }),
        spec_choose_strategy("LinearBackoff"@, base, max_attempts, Some(s)) == (StrategyChoice::Linear {
            base_delay_seconds: base,
            step_seconds: s,
            max_attempts,
        }),
        spec_choose_strategy("LinearBackoff"@, base, max_attempts, None) == (StrategyChoice::Linear {
            base_delay_seconds: base,
            step_seconds: base,
            max_attempts,
        }),
        spec_choose_strategy("FixedInterval"@, base, max_attempts, Some(s)) == (StrategyChoice::FixedInterval {
            base_delay_seconds: base,
            max_attempts,
        }),
        spec_choose_strategy("RandomDelay"@, base, max_attempts, Some(s)) == (StrategyChoice::RandomDelay {
            min_seconds: base,
            max_seconds: s,
            max_attempts,
        }),
        base * 2 <= u64::MAX ==> spec_choose_strategy("RandomDelay"@, base, max_attempts, None) == (
        StrategyChoice::RandomDelay { min_seconds: base, max_seconds: (base * 2) as u64, max_attempts }),
        spec_choose_strategy("IncrementalBackoff"@, base, max_attempts, Some(s)) == (
        StrategyChoice::Incremental { initial_seconds: base, increment_seconds: s, max_attempts }),
        spec_choose_strategy("IncrementalBackoff"@, base, max_attempts, None) == (
        StrategyChoice::Incremental { initial_seconds: base, increment_seconds: 1, max_attempts }),
        spec_choose_strategy("FibonacciBackoff"@, base, max_attempts, Some(s)) == (StrategyChoice::Fibonacci {
            base_delay_seconds: base,
            max_attempts,
        }),
        spec_choose_strategy("GeometricBackoff"@, base, max_attempts, Some(s)) == (StrategyChoice::Geometric {
            base_delay_seconds: base,
            max_attempts,
        }),
        spec_choose_strategy("HarmonicBackoff"@, base, max_attempts, Some(s)) == (StrategyChoice::Harmonic {
            base_delay_seconds: base,
            max_attempts,
        }),
        spec_choose_strategy("JitterBackoff"@, base, max_attempts, Some(s)) == (StrategyChoice::Jitter {
            base_delay_seconds: base,
            max_attempts,
        }),
{
    reveal_strlit("ExponentialBackoff");
    reveal_strlit("LinearBackoff");
    reveal_strlit("FixedInterval");
    reveal_strlit("RandomDelay");
    reveal_strlit("IncrementalBackoff");
    reveal_strlit("FibonacciBackoff");
    reveal_strlit("GeometricBackoff");
    reveal_strlit("HarmonicBackoff");
    reveal_strlit("JitterBackoff");
    assert("LinearBackoff"@ != "ExponentialBackoff"@) by {
        assert("LinearBackoff"@.len() != "ExponentialBackoff"@.len());
    }
    assert("FixedInterval"@ != "ExponentialBackoff"@) by {
        assert("FixedInterval"@.len() != "ExponentialBackoff"@.len());
    }
    assert("FixedInterval"@ != "LinearBackoff"@) by {
        assert("FixedInterval"@[0] != "LinearBackoff"@[0]);
    }
    assert("RandomDelay"@ != "ExponentialBackoff"@) by {
        assert("RandomDelay"@.len() != "ExponentialBackoff"@.len());
    }
    assert("RandomDelay"@ != "LinearBackoff"@) by {
        assert("RandomDelay"@.len() != "LinearBackoff"@.len());
    }
    assert("RandomDelay"@ != "FixedInterval"@) by {
        assert("RandomDelay"@.len() != "FixedInterval"@.len());
    }
    assert("IncrementalBackoff"@ != "ExponentialBackoff"@) by {
        assert("IncrementalBackoff"@[0] != "ExponentialBackoff"@[0]);
    }
    assert("IncrementalBackoff"@ != "LinearBackoff"@) by {
        assert("IncrementalBackoff"@.len() != "LinearBackoff"@.len());
    }
    assert("IncrementalBackoff"@ != "FixedInterval"@) by {
        assert("IncrementalBackoff"@.len() != "FixedInterval"@.len());
    }
    assert("IncrementalBackoff"@ != "RandomDelay"@) by {
        assert("IncrementalBackoff"@.len() != "RandomDelay"@.len());
    }
    assert("FibonacciBackoff"@ != "ExponentialBackoff"@) by {
        assert("FibonacciBackoff"@.len() != "ExponentialBackoff"@.len());
    }
    assert("FibonacciBackoff"@ != "LinearBackoff"@) by {
        assert("FibonacciBackoff"@.len() != "LinearBackoff"@.len());
    }
    assert("FibonacciBackoff"@ != "FixedInterval"@) by {
        assert("FibonacciBackoff"@.len() != "FixedInterval"@.len());
    }
    assert("FibonacciBackoff"@ != "RandomDelay"@) by {
        assert("FibonacciBackoff"@.len() != "RandomDelay"@.len());
    }
    assert("FibonacciBackoff"@ != "IncrementalBackoff"@) by {
        assert("FibonacciBackoff"@.len() != "IncrementalBackoff"@.len());
    }
    assert("GeometricBackoff"@ != "ExponentialBackoff"@) by {
        assert("GeometricBackoff"@.len() != "ExponentialBackoff"@.len());
    }
    assert("GeometricBackoff"@ != "LinearBackoff"@) by {
        assert("GeometricBackoff"@.len() != "LinearBackoff"@.len());
    }
    assert("GeometricBackoff"@ != "FixedInterval"@) by {
        assert("GeometricBackoff"@.len() != "FixedInterval"@.len());
    }
    assert("GeometricBackoff"@ != "RandomDelay"@) by {
        assert("GeometricBackoff"@.len() != "RandomDelay"@.len());
    }
    assert("GeometricBackoff"@ != "IncrementalBackoff"@) by {
        assert("GeometricBackoff"@.len() != "IncrementalBackoff"@.len());
    }
    assert("GeometricBackoff"@ != "FibonacciBackoff"@) by {
        assert("GeometricBackoff"@[0] != "FibonacciBackoff"@[0]);
    }
    assert("HarmonicBackoff"@ != "ExponentialBackoff"@) by {
        assert("HarmonicBackoff"@.len() != "ExponentialBackoff"@.len());
    }
    assert("HarmonicBackoff"@ != "LinearBackoff"@) by {
        assert("HarmonicBackoff"@.len() != "LinearBackoff"@.len());
    }
    assert("HarmonicBackoff"@ != "FixedInterval"@) by {
        assert("HarmonicBackoff"@.len() != "FixedInterval"@.len());
    }
    assert("HarmonicBackoff"@ != "RandomDelay"@) by {
        assert("HarmonicBackoff"@.len() != "RandomDelay"@.len());
    }
    assert("HarmonicBackoff"@ != "IncrementalBackoff"@) by {
        assert("HarmonicBackoff"@.len() != "IncrementalBackoff"@.len());
    }
    assert("HarmonicBackoff"@ != "FibonacciBackoff"@) by {
        assert("HarmonicBackoff"@.len() != "FibonacciBackoff"@.len());
    }
    assert("HarmonicBackoff"@ != "GeometricBackoff"@) by {
        assert("HarmonicBackoff"@.len() != "GeometricBackoff"@.len());
    }
    assert("JitterBackoff"@ != "ExponentialBackoff"@) by {
        assert("JitterBackoff"@.len() != "ExponentialBackoff"@.len());
    }
    assert("JitterBackoff"@ != "LinearBackoff"@) by {
        assert("JitterBackoff"@[0] != "LinearBackoff"@[0]);
    }
    assert("JitterBackoff"@ != "FixedInterval"@) by {
        assert("JitterBackoff"@[0] != "FixedInterval"@[0]);
    }
    assert("JitterBackoff"@ != "RandomDelay"@) by {
        assert("JitterBackoff"@.len() != "RandomDelay"@.len());
    }
    assert("JitterBackoff"@ != "IncrementalBackoff"@) by {
        assert("JitterBackoff"@.len() != "IncrementalBackoff"@.len());
    }
    assert("JitterBackoff"@ != "FibonacciBackoff"@) by {
        assert("JitterBackoff"@.len() != "FibonacciBackoff"@.len());
    }
    assert("JitterBackoff"@ != "GeometricBackoff"@) by {
        assert("JitterBackoff"@.len() != "GeometricBackoff"@.len());
    }
    assert("JitterBackoff"@ != "HarmonicBackoff"@) by {
        assert("JitterBackoff"@.len() != "HarmonicBackoff"@.len());
    }
}

/// A name that is none of the known ones chooses a fixed interval of the
/// base delay.
pub proof fn law_unknown_name_is_fixed_interval(name: Seq<char>, base: u64, max_attempts: usize, step: Option<u64>)
    requires
        name != "ExponentialBackoff"@,
        name != "LinearBackoff"@,
        name != "FixedInterval"@,
        name != "RandomDelay"@,
        name != "IncrementalBackoff"@,
        name != "FibonacciBackoff"@,
        name != "GeometricBackoff"@,
        name != "HarmonicBackoff"@,
        name != "JitterBackoff"@,
    ensures
        spec_choose_strategy(name, base, max_attempts, step) == (StrategyChoice::FixedInterval {
            base_delay_seconds: base,
            max_attempts,
        }),
{
}


/// The multipliers of a Fibonacci strategy after `k` delays, starting from
/// the multipliers `current` and `next`: each delay moves `next` into
/// `current` and their sum into `next`.
pub open spec fn fib_multipliers(current: nat, next: nat, k: nat) -> (nat, nat)
    decreases k,
{
    if k == 0 {
        (current, next)
    } else {
        fib_multipliers(next, current + next, (k - 1) as nat)
    }
}

/// A new Fibonacci strategy waits the base delay times the Fibonacci
/// numbers 1, 1, 2, 3, 5, ...: after `k` delays its multipliers are the
/// `k`-th and the next Fibonacci number.
pub proof fn law_fibonacci_multipliers(k: nat)
    ensures
        fib_multipliers(1, 1, k) == (fib(k), fib(k + 1)),
{
    lemma_fib_multipliers(k, 0);
}

proof fn lemma_fib_multipliers(k: nat, j: nat)
    ensures
        fib_multipliers(fib(j), fib(j + 1), k) == (fib(j + k), fib(j + k + 1)),
    decreases k,
{
    if k > 0 {
        assert(fib(j + 2) == fib(j + 1) + fib(j));
        lemma_fib_multipliers((k - 1) as nat, j + 1);
        assert(j + 1 + (k - 1) == j + k);
    }
}

/// Each delay of a linear strategy is one step longer than the delay before
/// it, while the attempt counter stays below 2^32.
pub proof fn law_linear_delays_grow_by_step(s: LinearBackoffStrategy, attempt: nat)
    requires
        attempt + 1 < 0x1_0000_0000,
    ensures
        s.delay_nanos_at(attempt + 1) == s.delay_nanos_at(attempt) + s.spec_step().total(),
{
    let t = s.spec_step().total();
    assert(t * (attempt + 1) == t * attempt + t) by (nonlinear_arith);
}

/// Each delay of an incremental strategy is one increment longer than the
/// delay before it, while the attempt counter stays below 2^32.
pub proof fn law_incremental_delays_grow_by_increment(s: IncrementalBackoffStrategy, attempt: nat)
    requires
        attempt + 1 < 0x1_0000_0000,
    ensures
        s.delay_nanos_at(attempt + 1) == s.delay_nanos_at(attempt) + s.spec_increment().total(),
{
    let t = s.spec_increment().total();
    assert(t * (attempt + 1) == t * attempt + t) by (nonlinear_arith);
}

/// A harmonic strategy's delays never grow: the base delay divided by a
/// larger attempt number is no longer, while the attempt counter stays below
/// 2^32.
pub proof fn law_harmonic_delays_shrink(s: HarmonicBackoffStrategy, attempt: nat)
    requires
        1 <= attempt,
        attempt + 1 < 0x1_0000_0000,
    ensures
        s.spec_base_delay().total() / attempt_factor(attempt + 1) as int <= s.spec_base_delay().total()
            / attempt_factor(attempt) as int,
{
    s.spec_base_delay().lemma_total_nonnegative();
    let t = s.spec_base_delay().total();
    let a = attempt as int;
    assert(t / (a + 1) <= t / a) by {
        vstd::arithmetic::div_mod::lemma_div_is_ordered_by_denominator(t, a, a + 1);
    }
}

} // verus!
