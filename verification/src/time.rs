//! A span of time, kept as whole seconds plus the nanoseconds below one second,
//! and the clock that the stateful components read.
use vstd::prelude::*;

verus! {

/// Nanoseconds in one second.
pub const NANOS_PER_SEC: u32 = 1_000_000_000;

/// A span of time with nanosecond precision.
///
/// The seconds field may take any `u64`; the nanoseconds field always stays
/// below one second, so each span has exactly one representation.
#[derive(Clone, Copy, Debug, PartialEq, Eq, Structural, PartialOrd, Ord, Hash)]
pub struct Duration {
    secs: u64,
    nanos: u32,
}

/// The largest number of nanoseconds that a `Duration` can hold.
pub open spec fn max_total_nanos() -> int {
    u64::MAX as int * NANOS_PER_SEC as int + (NANOS_PER_SEC as int - 1)
}

impl Duration {
    #[verifier::type_invariant]
    pub closed spec fn inv(self) -> bool {
        self.nanos < NANOS_PER_SEC
    }

    /// The span in nanoseconds.
    pub closed spec fn total(self) -> int {
        self.secs as int * NANOS_PER_SEC as int + self.nanos as int
    }

    /// The whole seconds of the span.
    pub closed spec fn spec_secs(self) -> u64 {
        self.secs
    }

    /// The whole span in nanoseconds.
    pub fn as_nanos(&self) -> (n: u128)
        ensures
            n == self.total(),
    {
        proof {
            use_type_invariant(self);
            assert(self.secs as int * NANOS_PER_SEC as int <= u64::MAX as int * NANOS_PER_SEC as int)
                by (nonlinear_arith)
                requires
                    self.secs <= u64::MAX,
            ;
        }
        self.secs as u128 * NANOS_PER_SEC as u128 + self.nanos as u128
    }

    /// The nanoseconds below one whole second.
    pub closed spec fn spec_subsec_nanos(self) -> u32 {
        self.nanos
    }

    /// A span's nanoseconds determine its parts and lie in range.
    pub proof fn lemma_parts(self)
        requires
            self.inv(),
        ensures
            self.spec_subsec_nanos() < NANOS_PER_SEC,
            0 <= self.total() <= max_total_nanos(),
            self.total() == self.spec_secs() as int * NANOS_PER_SEC as int
                + self.spec_subsec_nanos() as int,
            self.spec_secs() as int == self.total() / NANOS_PER_SEC as int,
            self.spec_subsec_nanos() as int == self.total() % NANOS_PER_SEC as int,
    {
    }

    /// No span is negative.
    pub proof fn lemma_total_nonnegative(self)
        ensures
            self.total() >= 0,
    {
    }

    /// A span of whole seconds.
    pub fn from_secs(secs: u64) -> (d: Duration)
        ensures
            d.total() == secs as int * NANOS_PER_SEC as int,
            d.spec_secs() == secs,
            d.spec_subsec_nanos() == 0,
    {
        Duration { secs, nanos: 0 }
    }

    /// A span from seconds and nanoseconds; nanoseconds of a whole second
    /// or more carry into the seconds.
    pub fn new(secs: u64, nanos: u32) -> (d: Duration)
        requires
            secs as int + nanos as int / NANOS_PER_SEC as int <= u64::MAX,
        ensures
            d.total() == secs as int * NANOS_PER_SEC as int + nanos as int,
    {
        let extra = (nanos / NANOS_PER_SEC) as u64;
        Duration { secs: secs + extra, nanos: nanos % NANOS_PER_SEC }
    }

    /// The span divided by `divisor`, rounded down to whole nanoseconds.
    pub fn div_u32(self, divisor: u32) -> (d: Duration)
        requires
            divisor > 0,
        ensures
            d.total() == self.total() / divisor as int,
    {
        proof {
            use_type_invariant(self);
        }
        let rhs = divisor as u64;
        let secs = self.secs / rhs;
        let extra_secs = self.secs % rhs;
        let nanos = self.nanos / divisor;
        let extra_nanos = self.nanos % divisor;
        assert(extra_nanos <= self.nanos) by (nonlinear_arith)
            requires
                extra_nanos == self.nanos % divisor,
                divisor > 0,
        ;
        assert(extra_secs * 1_000_000_000 + extra_nanos < rhs * 1_000_000_000) by (nonlinear_arith)
            requires
                extra_secs < rhs,
                extra_nanos < 1_000_000_000,
        ;
        assert(extra_secs * 1_000_000_000 < 0x1_0000_0000 * 1_000_000_000) by (nonlinear_arith)
            requires
                extra_secs < rhs,
                rhs <= 0xffff_ffff,
        ;
        let numerator: u64 = extra_secs * (NANOS_PER_SEC as u64) + extra_nanos as u64;
        assert((numerator as int) / (rhs as int) < 1_000_000_000) by (nonlinear_arith)
            requires
                numerator < rhs * 1_000_000_000,
                rhs > 0,
        ;
        let carried = (numerator / rhs) as u32;
        assert(nanos <= self.nanos);
        proof {
            let t = self.total();
            let q = secs as int * NANOS_PER_SEC as int + nanos as int + carried as int;
            assert(self.secs as int == secs as int * rhs + extra_secs as int) by (nonlinear_arith)
                requires
                    secs as int == self.secs as int / rhs as int,
                    extra_secs as int == self.secs as int % rhs as int,
                    rhs > 0,
            ;
            assert(self.nanos as int == nanos as int * rhs + extra_nanos as int) by (nonlinear_arith)
                requires
                    nanos as int == self.nanos as int / rhs as int,
                    extra_nanos as int == self.nanos as int % rhs as int,
                    rhs > 0,
            ;
            assert(q == t / rhs as int) by (nonlinear_arith)
                requires
                    t == self.secs as int * 1_000_000_000 + self.nanos as int,
                    self.secs as int == secs as int * rhs + extra_secs as int,
                    self.nanos as int == nanos as int * rhs + extra_nanos as int,
                    carried as int == numerator as int / rhs as int,
                    numerator as int == extra_secs as int * 1_000_000_000 + extra_nanos as int,
                    q == secs as int * 1_000_000_000 + nanos as int + carried as int,
                    rhs > 0,
            ;
            assert(nanos as int + carried as int <= 1_000_000_000 + 1_000_000_000);
        }
        Duration::new(secs, nanos + carried)
    }

    /// A span given in nanoseconds.
    pub fn from_nanos(nanos: u64) -> (d: Duration)
        ensures
            d.total() == nanos as int,
    {
        let secs = nanos / (NANOS_PER_SEC as u64);
        let rest = (nanos % (NANOS_PER_SEC as u64)) as u32;
        assert(secs as int * NANOS_PER_SEC as int + rest as int == nanos as int) by (nonlinear_arith)
            requires
                secs as int == nanos as int / 1_000_000_000int,
                rest as int == nanos as int % 1_000_000_000int,
                NANOS_PER_SEC == 1_000_000_000,
        ;
        Duration { secs, nanos: rest }
    }

    /// The whole seconds of the span.
    pub fn as_secs(&self) -> (s: u64)
        ensures
            s == self.spec_secs(),
            s as int == self.total() / NANOS_PER_SEC as int,
    {
        proof {
            use_type_invariant(self);
            self.lemma_parts();
        }
        self.secs
    }

    /// The nanoseconds below one whole second.
    pub fn subsec_nanos(&self) -> (n: u32)
        ensures
            n == self.spec_subsec_nanos(),
            n as int == self.total() % NANOS_PER_SEC as int,
    {
        proof {
            use_type_invariant(self);
            self.lemma_parts();
        }
        self.nanos
    }

    /// The sum of two spans; it must fit.
    pub fn add_duration(self, other: Duration) -> (d: Duration)
        requires
            self.total() + other.total() <= max_total_nanos(),
        ensures
            d.total() == self.total() + other.total(),
    {
        proof {
            use_type_invariant(self);
            use_type_invariant(other);
        }
        let n = self.nanos + other.nanos;
        if n >= NANOS_PER_SEC {
            Duration { secs: self.secs + other.secs + 1, nanos: n - NANOS_PER_SEC }
        } else {
            Duration { secs: self.secs + other.secs, nanos: n }
        }
    }

    /// The span repeated `factor` times; the product must fit.
    pub fn mul_u32(self, factor: u32) -> (d: Duration)
        requires
            self.total() * factor <= max_total_nanos(),
        ensures
            d.total() == self.total() * factor,
    {
        proof {
            use_type_invariant(self);
            assert(self.nanos as int * factor as int <= 999_999_999 * 4_294_967_295) by (nonlinear_arith)
                requires
                    self.nanos < 1_000_000_000,
                    factor <= 4_294_967_295,
            ;
        }
        let total_nanos: u64 = self.nanos as u64 * factor as u64;
        let extra_secs: u64 = total_nanos / (NANOS_PER_SEC as u64);
        let nanos: u32 = (total_nanos % (NANOS_PER_SEC as u64)) as u32;
        assert(self.total() * factor == (self.secs as int * factor) * NANOS_PER_SEC as int
            + self.nanos as int * factor) by (nonlinear_arith);
        assert(self.secs as int * factor + extra_secs <= u64::MAX) by (nonlinear_arith)
            requires
                self.total() * factor <= max_total_nanos(),
                self.total() * factor == (self.secs as int * factor) * NANOS_PER_SEC as int
                    + self.nanos as int * factor,
                extra_secs as int == (self.nanos as int * factor) / NANOS_PER_SEC as int,
                NANOS_PER_SEC == 1_000_000_000,
        ;
        let secs = self.secs * (factor as u64) + extra_secs;
        Duration { secs, nanos }
    }
}

/// Milliseconds on the wall clock: the reading that the circuit breaker, the
/// rate limiter and the cache keep their times in.
///
/// This calls `SystemTime::elapsed` on `UNIX_EPOCH`, the time since the Unix
/// epoch; a clock set before the epoch reads zero. Nothing is promised of the
/// reading, since it depends on the machine's clock.
#[verifier::external_body]
pub(crate) fn clock_millis() -> u64 {
    match std::time::UNIX_EPOCH.elapsed() {
        Ok(d) => d.as_millis() as u64,
        Err(_) => 0,
    }
}

} // verus!
