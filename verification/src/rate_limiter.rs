//! Token-bucket rate limiting.
//!
//! A limiter starts with `capacity + burst_capacity` tokens; each request takes
//! one, and a refill adds one, up to that limit. Refills happen once per
//! `period / max_rate`; the application runs the timer and calls `refill`.
//! Times are milliseconds of `crate::time::clock_millis`.
use vstd::prelude::*;
use crate::time::{Duration, clock_millis};
use crate::text::{chars_of, chars_starts_with, is_prefix, str_eq};

verus! {

#[derive(Debug, Clone, Copy)]
pub struct RateLimiterConfig {
    pub capacity: usize,
    pub burst_capacity: usize,
    pub max_rate: usize,
    pub period: Duration,
}

/// Whether a limiter can be created with this configuration: capacity and
/// rate are positive and the token limit fits.
pub open spec fn config_valid(c: RateLimiterConfig) -> bool {
    &&& c.capacity > 0
    &&& c.max_rate > 0
    &&& c.capacity + c.burst_capacity <= usize::MAX
}

/// The most tokens a limiter with this configuration holds.
pub open spec fn token_limit(c: RateLimiterConfig) -> nat {
    (c.capacity + c.burst_capacity) as nat
}

#[derive(Debug, Clone, Copy, PartialEq, Eq, Structural)]
pub enum RateLimitError {
    Exhausted,
}

/// A snapshot of a limiter.
#[derive(Debug, Clone, Copy)]
pub struct RateLimiterStatus {
    pub capacity: usize,
    pub burst_capacity: usize,
    pub tokens: usize,
    pub max_rate: usize,
    pub period: Duration,
    /// When the last refill happened.
    pub last_refill: u64,
    /// When a token was last taken.
    pub last_acquire: u64,
}

pub struct RateLimiter {
    config: RateLimiterConfig,
    tokens: usize,
    last_refill: u64,
    last_acquire: u64,
    shut_down: bool,
}

impl RateLimiter {
    /// A limiter never holds more tokens than its limit.
    pub closed spec fn wf(self) -> bool {
        &&& config_valid(self.config)
        &&& self.tokens <= token_limit(self.config)
    }

    pub closed spec fn spec_config(self) -> RateLimiterConfig {
        self.config
    }

    pub closed spec fn spec_tokens(self) -> usize {
        self.tokens
    }

    pub closed spec fn spec_last_refill(self) -> u64 {
        self.last_refill
    }

    pub closed spec fn spec_last_acquire(self) -> u64 {
        self.last_acquire
    }

    pub closed spec fn spec_shut_down(self) -> bool {
        self.shut_down
    }

    /// The limiter after taking a token at time `now` if there is one, and
    /// whether it had one.
    pub closed spec fn after_acquire(self, now: u64) -> (Self, bool) {
        if self.tokens > 0 {
            (RateLimiter { tokens: (self.tokens - 1) as usize, last_acquire: now, ..self }, true)
        } else {
            (self, false)
        }
    }

    /// The limiter after one refill at time `now`.
    pub closed spec fn after_refill(self, now: u64) -> Self {
        let limit = self.config.capacity + self.config.burst_capacity;
        RateLimiter {
            tokens: if self.tokens + 1 < limit { (self.tokens + 1) as usize } else { limit as usize },
            last_refill: now,
            ..self
        }
    }

    /// A full limiter created at time `now`.
    pub fn new_at(config: RateLimiterConfig, now: u64) -> (l: Self)
        requires
            config_valid(config),
        ensures
            l.wf(),
            l.spec_tokens() <= token_limit(l.spec_config()),
            l.spec_config() == config,
            l.spec_tokens() == token_limit(config),
            l.spec_last_refill() == now,
            l.spec_last_acquire() == now,
            !l.spec_shut_down(),
    {
        RateLimiter {
            tokens: config.capacity + config.burst_capacity,
            last_refill: now,
            last_acquire: now,
            config,
            shut_down: false,
        }
    }

    /// A full limiter created now. Capacity and rate must be positive.
    pub fn new(config: RateLimiterConfig) -> (l: Self)
        requires
            config_valid(config),
        ensures
            l.wf(),
            l.spec_tokens() <= token_limit(l.spec_config()),
            l.spec_config() == config,
            l.spec_tokens() == token_limit(config),
            l.spec_last_refill() == l.spec_last_acquire(),
            !l.spec_shut_down(),
    {
        Self::new_at(config, clock_millis())
    }

    /// How often a token comes back: the period divided by the rate. The
    /// rate is narrowed to 32 bits for the division and must not become zero.
    pub fn refill_interval(&self) -> (d: Duration)
        requires
            self.spec_config().max_rate as nat % 0x1_0000_0000 != 0,
        ensures
            d.total() == self.spec_config().period.total() / (self.spec_config().max_rate as nat
                % 0x1_0000_0000) as int,
    {
        let rate = (self.config.max_rate as u64 % 0x1_0000_0000u64) as u32;
        self.config.period.div_u32(rate)
    }

    /// One refill at time `now`: a token comes back unless the limiter is full.
    pub fn refill_at(&mut self, now: u64)
        requires
            old(self).wf(),
            old(self).spec_tokens() < usize::MAX,
        ensures
            final(self).wf(),
            final(self).spec_tokens() <= token_limit(final(self).spec_config()),
            final(self).spec_tokens() == if old(self).spec_tokens() + 1 <= token_limit(
                old(self).spec_config(),
            ) {
                old(self).spec_tokens() + 1
            } else {
                token_limit(old(self).spec_config()) as int
            },
            final(self).spec_last_refill() == now,
            final(self).spec_config() == old(self).spec_config(),
            final(self).spec_last_acquire() == old(self).spec_last_acquire(),
            final(self).spec_shut_down() == old(self).spec_shut_down(),
            *final(self) == old(self).after_refill(now),
    {
        let limit = self.config.capacity + self.config.burst_capacity;
        let more = self.tokens + 1;
        self.tokens = if more < limit {
            more
        } else {
            limit
        };
        self.last_refill = now;
    }

    /// One refill now.
    pub fn refill(&mut self)
        requires
            old(self).wf(),
            old(self).spec_tokens() < usize::MAX,
        ensures
            final(self).wf(),
            final(self).spec_tokens() <= token_limit(final(self).spec_config()),
            final(self).spec_tokens() == if old(self).spec_tokens() + 1 <= token_limit(
                old(self).spec_config(),
            ) {
                old(self).spec_tokens() + 1
            } else {
                token_limit(old(self).spec_config()) as int
            },
            final(self).spec_config() == old(self).spec_config(),
            final(self).spec_last_acquire() == old(self).spec_last_acquire(),
            final(self).spec_shut_down() == old(self).spec_shut_down(),
    {
        let now = clock_millis();
        self.refill_at(now);
    }

    /// The limiter's configuration, tokens and times.
    pub fn status(&self) -> (s: RateLimiterStatus)
        ensures
            s.capacity == self.spec_config().capacity,
            s.burst_capacity == self.spec_config().burst_capacity,
            s.tokens == self.spec_tokens(),
            s.max_rate == self.spec_config().max_rate,
            s.period == self.spec_config().period,
            s.last_refill == self.spec_last_refill(),
            s.last_acquire == self.spec_last_acquire(),
    {
        RateLimiterStatus {
            capacity: self.config.capacity,
            burst_capacity: self.config.burst_capacity,
            tokens: self.tokens,
            max_rate: self.config.max_rate,
            period: self.config.period,
            last_refill: self.last_refill,
            last_acquire: self.last_acquire,
        }
    }

    /// Takes a token at time `now` if there is one.
    pub fn acquire_at(&mut self, now: u64) -> (r: Result<(), RateLimitError>)
        requires
            old(self).wf(),
        ensures
            final(self).wf(),
            final(self).spec_tokens() <= token_limit(final(self).spec_config()),
            r is Ok <==> old(self).spec_tokens() > 0,
            r is Ok ==> final(self).spec_tokens() == old(self).spec_tokens() - 1
                && final(self).spec_last_acquire() == now,
            r is Err ==> *final(self) == *old(self) && r == Err::<(), RateLimitError>(
                RateLimitError::Exhausted,
            ),
            final(self).spec_config() == old(self).spec_config(),
            final(self).spec_last_refill() == old(self).spec_last_refill(),
            final(self).spec_shut_down() == old(self).spec_shut_down(),
            (*final(self), r is Ok) == old(self).after_acquire(now),
    {
        if self.tokens > 0 {
            self.tokens = self.tokens - 1;
            self.last_acquire = now;
            Ok(())
        } else {
            Err(RateLimitError::Exhausted)
        }
    }

    /// Takes a token now if there is one.
    pub fn acquire(&mut self) -> (r: Result<(), RateLimitError>)
        requires
            old(self).wf(),
        ensures
            final(self).wf(),
            final(self).spec_tokens() <= token_limit(final(self).spec_config()),
            r is Ok <==> old(self).spec_tokens() > 0,
            r is Ok ==> final(self).spec_tokens() == old(self).spec_tokens() - 1,
            r is Ok ==> exists|now: u64|
                #![trigger old(self).after_acquire(now)]
                final(self).spec_last_acquire() == now && (*final(self), true)
                    == old(self).after_acquire(now),
            r is Err ==> *final(self) == *old(self) && r == Err::<(), RateLimitError>(
                RateLimitError::Exhausted,
            ),
            final(self).spec_config() == old(self).spec_config(),
            final(self).spec_last_refill() == old(self).spec_last_refill(),
            final(self).spec_shut_down() == old(self).spec_shut_down(),
    {
        let now = clock_millis();
        self.acquire_at(now)
    }

    /// A well-formed limiter holds no more tokens than its limit.
    pub proof fn law_tokens_within_limit(self)
        requires
            self.wf(),
        ensures
            self.spec_tokens() <= token_limit(self.spec_config()),
            config_valid(self.spec_config()),
    {
    }

    /// Taking a token at time `now` succeeds exactly when one is held; it
    /// then takes one and sets the time of the last acquire to `now`, and
    /// otherwise leaves the limiter as it was.
    pub proof fn law_acquire_step(self, now: u64)
        ensures
            self.after_acquire(now).1 == (self.spec_tokens() > 0),
            self.after_acquire(now).1 ==> self.after_acquire(now).0.spec_tokens()
                == self.spec_tokens() - 1,
            self.after_acquire(now).1 ==> self.after_acquire(now).0.spec_last_acquire() == now,
            !self.after_acquire(now).1 ==> self.after_acquire(now).0 == self,
            self.after_acquire(now).0.spec_config() == self.spec_config(),
            self.after_acquire(now).0.spec_last_refill() == self.spec_last_refill(),
    {
    }

    /// Stops the refills.
    pub fn shutdown(&mut self)
        ensures
            final(self).spec_shut_down(),
            final(self).spec_tokens() == old(self).spec_tokens(),
            final(self).spec_config() == old(self).spec_config(),
            old(self).wf() ==> final(self).wf(),
    {
        self.shut_down = true;
    }

    /// Whether the refills have been stopped.
    pub fn is_shut_down(&self) -> (b: bool)
        ensures
            b == self.spec_shut_down(),
    {
        self.shut_down
    }

    /// The tokens held now.
    pub fn tokens(&self) -> (n: usize)
        ensures
            n == self.spec_tokens(),
    {
        self.tokens
    }
}

/// The position of the limiter whose key is the longest prefix of `target`.
#[verifier::opaque]
pub open spec fn longest_prefix(keys: Seq<Seq<char>>, target: Seq<char>) -> Option<int> {
    if exists|i: int| 0 <= i < keys.len() && is_prefix(keys[i], target) {
        Some(
            choose|i: int|
                0 <= i < keys.len() && is_prefix(keys[i], target) && forall|j: int|
                    0 <= j < keys.len() && is_prefix(keys[j], target) ==> keys[j].len()
                        <= keys[i].len(),
        )
    } else {
        None
    }
}

/// Limiters by path; a request path is governed by the limiter of the longest
/// registered path that it starts with (an exact match being the longest).
pub struct RateLimiterManager {
    limiters: Vec<(String, RateLimiter)>,
}

impl RateLimiterManager {
    /// Each path is registered once and every limiter is well formed.
    pub closed spec fn wf(self) -> bool {
        &&& forall|i: int, j: int|
            0 <= i < j < self.limiters@.len() ==> self.limiters@[i].0@ != self.limiters@[j].0@
        &&& forall|i: int| 0 <= i < self.limiters@.len() ==> (#[trigger] self.limiters@[i]).1.wf()
    }

    /// The registered paths, in the order of registration.
    pub closed spec fn keys(self) -> Seq<Seq<char>> {
        Seq::new(self.limiters@.len(), |i: int| self.limiters@[i].0@)
    }

    /// The limiters, in the same order.
    pub closed spec fn limiters(self) -> Seq<RateLimiter> {
        Seq::new(self.limiters@.len(), |i: int| self.limiters@[i].1)
    }

    pub fn new() -> (m: Self)
        ensures
            m.wf(),
            m.keys() == Seq::<Seq<char>>::empty(),
    {
        RateLimiterManager { limiters: Vec::new() }
    }

    /// The position of the limiter that governs `target`.
    fn find(&self, target: &str) -> (r: Option<usize>)
        requires
            self.wf(),
        ensures
            match r {
                Some(i) => longest_prefix(self.keys(), target@) == Some(i as int) && i < self.limiters@.len(),
                None => longest_prefix(self.keys(), target@) is None,
            },
    {
        let t = chars_of(target);
        let ghost keys = self.keys();
        let mut best: Option<usize> = None;
        let mut best_len: usize = 0;
        let mut i: usize = 0;
        while i < self.limiters.len()
            invariant
                self.wf(),
                keys == self.keys(),
                t@ == target@,
                i <= keys.len(),
                match best {
                    Some(b) => b < i && is_prefix(keys[b as int], target@) && best_len == keys[b as int].len()
                        && forall|j: int| 0 <= j < i && is_prefix(keys[j], target@) ==> keys[j].len() <= best_len,
                    None => forall|j: int| 0 <= j < i ==> !is_prefix(keys[j], target@),
                },
            decreases keys.len() - i,
        {
            let k = chars_of(self.limiters[i].0.as_str());
            if chars_starts_with(t.as_slice(), k.as_slice()) {
                let better = match best {
                    None => true,
                    Some(_) => k.len() > best_len,
                };
                if better {
                    best = Some(i);
                    best_len = k.len();
                }
            }
            i = i + 1;
        }
        proof {
            reveal(longest_prefix);
            match best {
                Some(b) => {
                    let c = choose|c: int|
                        0 <= c < keys.len() && is_prefix(keys[c], target@) && forall|j: int|
                            0 <= j < keys.len() && is_prefix(keys[j], target@) ==> keys[j].len()
                                <= keys[c].len();
                    assert(0 <= b < keys.len() && is_prefix(keys[b as int], target@));
                    assert(c == b) by {
                        assert(keys[c].len() == keys[b as int].len());
                        assert(keys[c] =~= target@.subrange(0, keys[c].len() as int));
                        assert(keys[b as int] =~= target@.subrange(0, keys[b as int].len() as int));
                        if c != b {
                            assert(self.limiters@[c].0@ != self.limiters@[b as int].0@);
                        }
                    }
                },
                None => {},
            }
        }
        best
    }

    /// The limiter that governs `target`.
    pub fn get_limiter(&self, target: &str) -> (r: Option<&RateLimiter>)
        requires
            self.wf(),
        ensures
            match longest_prefix(self.keys(), target@) {
                Some(i) => r == Some(&self.limiters()[i]),
                None => r is None,
            },
    {
        match self.find(target) {
            Some(i) => Some(&self.limiters[i].1),
            None => None,
        }
    }

    /// Whether `next` is this manager after registering a full limiter with
    /// `config` for `target`: it is well formed; `target` is registered
    /// with such a limiter; the paths registered are those of before and
    /// `target`; and the limiter of every other path is kept.
    pub open spec fn added(self, next: Self, target: Seq<char>, config: RateLimiterConfig) -> bool {
        &&& next.wf()
        &&& exists|i: int|
            0 <= i < next.keys().len() && next.keys()[i] == target && next.limiters()[i].spec_config()
                == config && next.limiters()[i].spec_tokens() == token_limit(config)
                && !next.limiters()[i].spec_shut_down()
        &&& next.keys().to_set() == self.keys().to_set().insert(target)
        &&& forall|i: int|
            0 <= i < self.keys().len() && self.keys()[i] != target ==> exists|j: int|
                0 <= j < next.keys().len() && next.keys()[j] == self.keys()[i] && next.limiters()[j]
                    == self.limiters()[i]
    }

    /// A well-formed manager registers each path once, with one limiter.
    pub proof fn law_keys_distinct(self)
        requires
            self.wf(),
        ensures
            self.keys().no_duplicates(),
            self.limiters().len() == self.keys().len(),
            self.keys().to_set().len() == self.keys().len(),
            forall|i: int| 0 <= i < self.limiters().len() ==> (#[trigger] self.limiters()[i]).wf(),
    {
        assert(self.keys().no_duplicates());
        self.keys().unique_seq_to_set();
    }

    /// Registers a new, full limiter for `target`, replacing any limiter that
    /// was registered for it before.
    pub fn add_limiter(&mut self, target: String, config: RateLimiterConfig)
        requires
            old(self).wf(),
            config_valid(config),
        ensures
            old(self).added(*final(self), target@, config),
    {
        let limiter = RateLimiter::new(config);
        let ghost old_l = self.limiters@;
        let mut pos: Option<usize> = None;
        let mut i: usize = 0;
        while i < self.limiters.len()
            invariant
                self.limiters@ == old_l,
                i <= old_l.len(),
                pos is None ==> forall|j: int| 0 <= j < i ==> old_l[j].0@ != target@,
                pos matches Some(p) ==> p < old_l.len() && old_l[p as int].0@ == target@,
            decreases old_l.len() - i,
        {
            if pos.is_none() && str_eq(self.limiters[i].0.as_str(), target.as_str()) {
                pos = Some(i);
            }
            i = i + 1;
        }
        match pos {
            Some(p) => {
                let key = self.limiters[p].0.clone();
                self.limiters.set(p, (key, limiter));
                proof {
                    let l = self.limiters@;
                    assert(self.keys() =~= old(self).keys());
                    assert(self.keys()[p as int] == target@);
                    assert forall|a: int| 0 <= a < old(self).keys().len() && old(self).keys()[a] != target@
                        implies exists|j: int|
                        0 <= j < self.keys().len() && self.keys()[j] == old(self).keys()[a]
                            && self.limiters()[j] == old(self).limiters()[a] by {
                        assert(self.keys()[a] == old(self).keys()[a]);
                        assert(self.limiters()[a] == old(self).limiters()[a]);
                    }
                    assert(old(self).keys().to_set().insert(target@) =~= old(self).keys().to_set()) by {
                        assert(old(self).keys()[p as int] == target@);
                    }
                }
            },
            None => {
                self.limiters.push((target, limiter));
                proof {
                    let n = old_l.len() as int;
                    assert(self.keys() =~= old(self).keys().push(self.limiters@[n].0@));
                    assert(self.keys()[n] == target@);
                    assert forall|a: int| 0 <= a < old(self).keys().len() && old(self).keys()[a] != target@
                        implies exists|j: int|
                        0 <= j < self.keys().len() && self.keys()[j] == old(self).keys()[a]
                            && self.limiters()[j] == old(self).limiters()[a] by {
                        assert(self.keys()[a] == old(self).keys()[a]);
                        assert(self.limiters()[a] == old(self).limiters()[a]);
                    }
                    assert(self.keys().to_set() =~= old(self).keys().to_set().insert(target@)) by {
                        assert forall|x: Seq<char>| self.keys().to_set().contains(x) implies old(
                            self,
                        ).keys().to_set().insert(target@).contains(x) by {
                            let j = choose|j: int| 0 <= j < self.keys().len() && self.keys()[j] == x;
                            if j < n {
                                assert(old(self).keys()[j] == x);
                            }
                        }
                        assert forall|x: Seq<char>| old(self).keys().to_set().insert(target@).contains(x)
                            implies self.keys().to_set().contains(x) by {
                            if x == target@ {
                                assert(self.keys()[n] == x);
                            } else {
                                let j = choose|j: int| 0 <= j < old(self).keys().len() && old(self).keys()[j] == x;
                                assert(self.keys()[j] == x);
                            }
                        }
                    }
                }
            },
        }
    }

    /// Takes a token from the limiter that governs `target`, if there is one.
    pub fn acquire(&mut self, target: &str) -> (r: Option<Result<(), RateLimitError>>)
        requires
            old(self).wf(),
        ensures
            final(self).wf(),
            final(self).keys() == old(self).keys(),
            match longest_prefix(old(self).keys(), target@) {
                None => r is None && final(self).limiters() == old(self).limiters(),
                Some(i) => r matches Some(res) && (res is Ok <==> old(self).limiters()[i].spec_tokens()
                    > 0) && (res is Ok ==> final(self).limiters()[i].spec_tokens() == old(
                    self,
                ).limiters()[i].spec_tokens() - 1) && (res is Err ==> final(self).limiters()[i]
                    == old(self).limiters()[i]) && forall|j: int|
                    0 <= j < old(self).limiters().len() && j != i ==> final(self).limiters()[j]
                        == old(self).limiters()[j],
            },
    {
        match self.find(target) {
            None => None,
            Some(i) => {
                let mut entries: Vec<(String, RateLimiter)> = Vec::new();
                std::mem::swap(&mut entries, &mut self.limiters);
                let (key, mut limiter) = entries.remove(i);
                let res = limiter.acquire();
                entries.insert(i, (key, limiter));
                std::mem::swap(&mut entries, &mut self.limiters);
                proof {
                    assert(self.keys() =~= old(self).keys());
                    assert forall|j: int| 0 <= j < self.limiters@.len() implies (#[trigger] self.limiters@[j]).1.wf() by {
                        if j != i {
                            assert(self.limiters@[j] == old(self).limiters@[j]);
                        }
                    }
                    assert forall|a: int, b: int| 0 <= a < b < self.limiters@.len() implies self.limiters@[a].0@ != self.limiters@[b].0@ by {
                        assert(self.keys()[a] == old(self).keys()[a]);
                        assert(self.keys()[b] == old(self).keys()[b]);
                    }
                    assert forall|j: int| 0 <= j < old(self).limiters().len() && j != i implies self.limiters()[j]
                        == old(self).limiters()[j] by {
                        assert(self.limiters@[j] == old(self).limiters@[j]);
                    }
                }
                Some(res)
            },
        }
    }

    /// A snapshot of every limiter, with its path.
    pub fn get_all_statuses(&self) -> (v: Vec<(String, RateLimiterStatus)>)
        ensures
            v@.len() == self.keys().len(),
            forall|i: int|
                0 <= i < v@.len() ==> (#[trigger] v@[i]).0@ == self.keys()[i] && v@[i].1.tokens
                    == self.limiters()[i].spec_tokens() && v@[i].1.capacity
                    == self.limiters()[i].spec_config().capacity,
    {
        let mut v: Vec<(String, RateLimiterStatus)> = Vec::new();
        let mut i: usize = 0;
        while i < self.limiters.len()
            invariant
                i <= self.limiters@.len(),
                v@.len() == i,
                forall|j: int|
                    0 <= j < i ==> (#[trigger] v@[j]).0@ == self.keys()[j] && v@[j].1.tokens
                        == self.limiters()[j].spec_tokens() && v@[j].1.capacity
                        == self.limiters()[j].spec_config().capacity,
            decreases self.limiters@.len() - i,
        {
            v.push((self.limiters[i].0.clone(), self.limiters[i].1.status()));
            i = i + 1;
        }
        v
    }

    /// Stops the refills of every limiter.
    pub fn shutdown(&mut self)
        requires
            old(self).wf(),
        ensures
            final(self).wf(),
            final(self).keys() == old(self).keys(),
            forall|i: int|
                0 <= i < final(self).limiters().len() ==> (#[trigger] final(self).limiters()[i]).spec_shut_down()
                    && final(self).limiters()[i].spec_tokens() == old(self).limiters()[i].spec_tokens(),
    {
        let ghost old_l = self.limiters@;
        let mut entries: Vec<(String, RateLimiter)> = Vec::new();
        std::mem::swap(&mut entries, &mut self.limiters);
        let mut out: Vec<(String, RateLimiter)> = Vec::new();
        let n = entries.len();
        let mut i: usize = 0;
        while i < n
            invariant
                entries@ == old_l,
                n == old_l.len(),
                i <= n,
                out@.len() == i,
                forall|j: int| 0 <= j < i ==> (#[trigger] out@[j]).0@ == old_l[j].0@ && out@[j].1.spec_shut_down()
                    && out@[j].1.spec_tokens() == old_l[j].1.spec_tokens()
                    && out@[j].1.spec_config() == old_l[j].1.spec_config()
                    && (old_l[j].1.wf() ==> out@[j].1.wf()),
            decreases n - i,
        {
            let mut l = RateLimiter {
                config: entries[i].1.config,
                tokens: entries[i].1.tokens,
                last_refill: entries[i].1.last_refill,
                last_acquire: entries[i].1.last_acquire,
                shut_down: entries[i].1.shut_down,
            };
            l.shutdown();
            out.push((entries[i].0.clone(), l));
            i = i + 1;
        }
        self.limiters = out;
        proof {
            assert(self.keys() =~= old(self).keys());
            assert forall|a: int, b: int| 0 <= a < b < self.limiters@.len() implies self.limiters@[a].0@ != self.limiters@[b].0@ by {
                assert(self.keys()[a] == old(self).keys()[a]);
                assert(self.keys()[b] == old(self).keys()[b]);
            }
        }
    }
}

impl RateLimiter {
    /// The limiter, and how many tokens it gave, after requests at the given
    /// times, in order, with no refill between them.
    pub open spec fn after_acquires(self, times: Seq<u64>) -> (Self, nat)
        decreases times.len(),
    {
        if times.len() == 0 {
            (self, 0)
        } else {
            let (before, granted) = self.after_acquires(times.drop_last());
            let (after, ok) = before.after_acquire(times.last());
            (after, if ok { granted + 1 } else { granted })
        }
    }

    /// Without refills, a limiter holding `t` tokens grants exactly `min(n, t)`
    /// of `n` requests; a fresh limiter therefore grants its capacity plus its
    /// burst capacity and then refuses.
    pub proof fn law_tokens_bound_grants(self, times: Seq<u64>)
        ensures
            self.after_acquires(times).1 == if times.len() <= self.spec_tokens() {
                times.len()
            } else {
                self.spec_tokens() as nat
            },
            self.after_acquires(times).0.spec_tokens() == self.spec_tokens() - self.after_acquires(
                times,
            ).1,
            self.after_acquires(times).0.spec_config() == self.spec_config(),
        decreases times.len(),
    {
        if times.len() > 0 {
            self.law_tokens_bound_grants(times.drop_last());
        }
    }

    /// A refill of a well-formed limiter never takes it past its limit, and an
    /// empty limiter grants exactly one request after one refill.
    pub proof fn law_refill_gives_one_token(self, t_refill: u64, times: Seq<u64>)
        requires
            self.wf(),
            self.spec_tokens() == 0,
        ensures
            self.after_refill(t_refill).spec_tokens() <= token_limit(self.spec_config()),
            self.after_refill(t_refill).after_acquires(times).1 == if times.len() == 0 {
                0nat
            } else {
                1nat
            },
    {
        self.after_refill(t_refill).law_tokens_bound_grants(times);
    }
}

impl RateLimiterManager {
    /// A registered path is governed by its own limiter: no other registered
    /// path is a longer prefix of it.
    pub proof fn law_registered_path_governs_itself(self, i: int)
        requires
            self.wf(),
            0 <= i < self.keys().len(),
        ensures
            longest_prefix(self.keys(), self.keys()[i]) == Some(i),
    {
        reveal(longest_prefix);
        let keys = self.keys();
        let t = keys[i];
        assert(is_prefix(keys[i], t)) by {
            assert(t.subrange(0, t.len() as int) =~= t);
        }
        let c = choose|c: int|
            0 <= c < keys.len() && is_prefix(keys[c], t) && forall|j: int|
                0 <= j < keys.len() && is_prefix(keys[j], t) ==> keys[j].len() <= keys[c].len();
        assert(c == i) by {
            assert(keys[c] =~= t.subrange(0, keys[c].len() as int));
            assert(keys[c].len() >= t.len());
            assert(keys[c] =~= t);
            if c != i {
                assert(self.limiters@[c].0@ != self.limiters@[i].0@);
            }
        }
    }
}

/// The paths named by a run of registrations.
pub open spec fn targets_of(adds: Seq<(Seq<char>, RateLimiterConfig)>) -> Set<Seq<char>>
    decreases adds.len(),
{
    if adds.len() == 0 {
        Set::empty()
    } else {
        targets_of(adds.drop_last()).insert(adds.last().0)
    }
}

/// The configuration of the last registration of `t` in a run, if any.
pub open spec fn last_config(adds: Seq<(Seq<char>, RateLimiterConfig)>, t: Seq<char>) -> Option<RateLimiterConfig>
    decreases adds.len(),
{
    if adds.len() == 0 {
        None
    } else if adds.last().0 == t {
        Some(adds.last().1)
    } else {
        last_config(adds.drop_last(), t)
    }
}

/// After a run of registrations on an empty manager, the manager holds one
/// limiter per distinct path registered, so its statuses number as many;
/// each is a full limiter with the configuration of its path's last
/// registration.
pub proof fn law_statuses_after_adds(ms: Seq<RateLimiterManager>, adds: Seq<(Seq<char>, RateLimiterConfig)>)
    requires
        ms.len() == adds.len() + 1,
        ms[0].wf(),
        ms[0].keys().len() == 0,
        forall|j: int| 0 <= j < adds.len() ==> (#[trigger] ms[j]).added(ms[j + 1], adds[j].0, adds[j].1),
    ensures
        ms.last().keys().to_set() == targets_of(adds),
        ms.last().keys().len() == targets_of(adds).len(),
        forall|i: int|
            0 <= i < ms.last().keys().len() ==> last_config(adds, #[trigger] ms.last().keys()[i]) == Some(
                ms.last().limiters()[i].spec_config(),
            ) && ms.last().limiters()[i].spec_tokens() == token_limit(ms.last().limiters()[i].spec_config())
                && !ms.last().limiters()[i].spec_shut_down(),
{
    lemma_adds_run(ms, adds, adds.len() as int);
    assert(adds.take(adds.len() as int) =~= adds);
    ms.last().law_keys_distinct();
}

proof fn lemma_adds_run(ms: Seq<RateLimiterManager>, adds: Seq<(Seq<char>, RateLimiterConfig)>, n: int)
    requires
        0 <= n <= adds.len(),
        ms.len() == adds.len() + 1,
        ms[0].wf(),
        ms[0].keys().len() == 0,
        forall|j: int| 0 <= j < adds.len() ==> (#[trigger] ms[j]).added(ms[j + 1], adds[j].0, adds[j].1),
    ensures
        ms[n].wf(),
        ms[n].keys().to_set() == targets_of(adds.take(n)),
        forall|i: int|
            0 <= i < ms[n].keys().len() ==> last_config(adds.take(n), #[trigger] ms[n].keys()[i]) == Some(
                ms[n].limiters()[i].spec_config(),
            ) && ms[n].limiters()[i].spec_tokens() == token_limit(ms[n].limiters()[i].spec_config())
                && !ms[n].limiters()[i].spec_shut_down(),
    decreases n,
{
    if n == 0 {
        assert(ms[0].keys().to_set() =~= Set::<Seq<char>>::empty());
        assert(adds.take(0).len() == 0);
    } else {
        lemma_adds_run(ms, adds, n - 1);
        let prev = ms[n - 1];
        let next = ms[n];
        let target = adds[n - 1].0;
        let config = adds[n - 1].1;
        assert(prev.added(next, target, config));
        let before = adds.take(n - 1);
        let now = adds.take(n);
        assert(now.drop_last() =~= before);
        assert(now.last() == adds[n - 1]);
        next.law_keys_distinct();
        let i0 = choose|i: int|
            0 <= i < next.keys().len() && next.keys()[i] == target && next.limiters()[i].spec_config()
                == config && next.limiters()[i].spec_tokens() == token_limit(config)
                && !next.limiters()[i].spec_shut_down();
        assert forall|q: int| 0 <= q < next.keys().len() implies last_config(now, #[trigger] next.keys()[q]) == Some(
            next.limiters()[q].spec_config(),
        ) && next.limiters()[q].spec_tokens() == token_limit(next.limiters()[q].spec_config())
            && !next.limiters()[q].spec_shut_down() by {
            let k = next.keys()[q];
            if k == target {
                assert(q == i0);
            } else {
                assert(next.keys().to_set().contains(k));
                assert(prev.keys().to_set().contains(k));
                let a = choose|a: int| 0 <= a < prev.keys().len() && prev.keys()[a] == k;
                let j = choose|j: int|
                    0 <= j < next.keys().len() && next.keys()[j] == prev.keys()[a] && next.limiters()[j]
                        == prev.limiters()[a];
                assert(j == q);
                assert(last_config(now, k) == last_config(before, k));
            }
        }
    }
}

} // verus!
