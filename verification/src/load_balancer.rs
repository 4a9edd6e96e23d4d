//! Load balancing: choosing, for a request path, one of the backend URLs of the
//! first configured path prefix that the path starts with.
//!
//! Prefixes are tried in the order in which they were given. Each algorithm
//! either picks a URL of the prefix, ends the search with no URL, or passes on
//! to the next matching prefix (least connections when every count is at its
//! maximum, weighted round robin when no weight covers the counter, the hash
//! algorithms when no client address is known).
use vstd::prelude::*;
use crate::counts::Counts;
use crate::text::{chars_of, chars_starts_with, is_prefix, str_eq, hash_str, spec_hash_str};
use rand::seq::SliceRandom;

verus! {

#[derive(Debug, Clone, Copy, PartialEq, Eq, Structural)]
pub enum LoadBalancingAlgorithm {
    RoundRobin,
    Random,
    LeastConnections,
    WeightedRoundRobin,
    IPHash,
    ConsistentHashing,
    WeightedLeastConnections,
}

/// The algorithm and, per path prefix, the weights of its URLs.
#[derive(Debug)]
pub struct LoadBalancerConfig {
    pub algorithm: LoadBalancingAlgorithm,
    pub weights: Option<Vec<(String, Vec<usize>)>>,
}

// ---------------------------------------------------------------------------
// Outside computations: digests and random choice
// ---------------------------------------------------------------------------

/// The SHA-256 digest of a byte string.
pub uninterp spec fn spec_sha256(data: Seq<u8>) -> Seq<u8>;

/// The SHA-256 digest of `data`.
///
/// This calls `ring::digest::digest` with `ring::digest::SHA256`; the digest of
/// SHA-256 is 32 bytes long.
#[verifier::external_body]
fn sha256(data: &[u8]) -> (d: Vec<u8>)
    ensures
        d@ == spec_sha256(data@),
        d@.len() == 32,
{
    ring::digest::digest(&ring::digest::SHA256, data).as_ref().to_vec()
}

/// A random position in a list of `len` items.
///
/// This calls `rand::seq::SliceRandom::choose` on a list of `len` positions with
/// `rand::thread_rng()`; for a non-empty list it returns one of its items.
/// Which one is chance.
#[verifier::external_body]
fn choose_index(len: usize) -> (i: usize)
    requires
        len > 0,
    ensures
        i < len,
{
    let positions: Vec<usize> = (0..len).collect();
    *positions.choose(&mut rand::thread_rng()).unwrap_or(&0)
}

// ---------------------------------------------------------------------------
// The rules of each algorithm over plain values
// ---------------------------------------------------------------------------

/// The sum of a list of weights.
pub open spec fn seq_sum(s: Seq<usize>) -> nat
    decreases s.len(),
{
    if s.len() == 0 {
        0
    } else {
        seq_sum(s.drop_last()) + s.last() as nat
    }
}

/// Weighted round robin: the first position, from `i` on, whose running sum
/// of weights exceeds the counter.
pub open spec fn wrr_scan(w: Seq<usize>, counter: nat, i: nat) -> Option<int>
    decreases w.len() - i,
{
    if i >= w.len() {
        None
    } else if counter < seq_sum(w.take(i as int + 1)) {
        Some(i as int)
    } else {
        wrr_scan(w, counter, i + 1)
    }
}

/// Least connections among the first `n` counts: the first position with
/// the smallest count, counts of `usize::MAX` never being taken.
pub open spec fn lc_scan(cs: Seq<usize>, n: nat) -> Option<int>
    decreases n,
{
    if n == 0 {
        None
    } else {
        let prev = lc_scan(cs, (n - 1) as nat);
        let bound: usize = match prev {
            Some(b) => cs[b],
            None => usize::MAX,
        };
        if cs[n - 1] < bound {
            Some(n - 1)
        } else {
            prev
        }
    }
}

/// Weighted least connections among the first `n` positions: the first
/// position with the smallest ratio of connections to weight, positions of
/// weight zero never being taken. Ratios are compared exactly.
pub open spec fn wlc_scan(cs: Seq<usize>, ws: Seq<usize>, n: nat) -> Option<int>
    decreases n,
{
    if n == 0 {
        None
    } else {
        let prev = wlc_scan(cs, ws, (n - 1) as nat);
        let better = ws[n - 1] > 0 && match prev {
            None => true,
            Some(b) => cs[n - 1] * ws[b] < cs[b] * ws[n - 1],
        };
        if better {
            Some(n - 1)
        } else {
            prev
        }
    }
}

/// The little-endian number in the first eight bytes of `b`.
pub open spec fn le_u64(b: Seq<u8>) -> nat
    decreases b.len(),
{
    if b.len() == 0 {
        0
    } else {
        b[0] as nat + 256 * le_u64(b.drop_first())
    }
}

/// The bytes of a string in UTF-8.
pub open spec fn utf8_bytes(s: Seq<char>) -> Seq<u8> {
    vstd::utf8::encode_utf8(s)
}

/// The position that the consistent-hashing algorithm gives a client address
/// in a list of `len` URLs.
pub open spec fn consistent_hash_index(ip: Seq<char>, len: nat) -> int {
    (le_u64(spec_sha256(utf8_bytes(ip)).take(8)) % len) as int
}

/// The position that the IP-hash algorithm gives a client address in a list of
/// `len` URLs.
pub open spec fn ip_hash_index(ip: Seq<char>, len: nat) -> int {
    (spec_hash_str(ip) % len as u64) as int
}

/// The result of trying one matching prefix.
pub enum Step {
    /// The URL at this position of the prefix's list.
    Pick(int),
    /// The search ends with no URL.
    Stop,
    /// The search goes on to the next matching prefix.
    Pass,
    /// The search cannot be carried out (an empty list, a missing
    /// weight, an exhausted counter).
    Fail,
}

/// The result of a whole search.
pub enum Outcome {
    /// The URL at position `index` of the prefix at position `entry`.
    Target { entry: int, index: int },
    NoTarget,
    Fail,
}

pub struct LoadBalancer {
    targets: Vec<(String, Vec<String>)>,
    counters: Counts,
    connections: Counts,
    weights: Vec<(String, Vec<usize>)>,
    weights_sum: Vec<usize>,
    algorithm: LoadBalancingAlgorithm,
}

impl LoadBalancer {
    /// The per-prefix sums match the weights, and every counter can be
    /// incremented.
    pub closed spec fn wf(self) -> bool {
        &&& self.weights_sum@.len() == self.weights@.len()
        &&& forall|j: int|
            0 <= j < self.weights@.len() ==> #[trigger] self.weights_sum@[j] as nat == seq_sum(
                self.weights@[j].1@,
            )
        &&& forall|k: Seq<char>| #[trigger] self.counters.get_spec(k) < usize::MAX
    }

    pub closed spec fn spec_targets(self) -> Seq<(String, Vec<String>)> {
        self.targets@
    }

    pub closed spec fn spec_weights(self) -> Seq<(String, Vec<usize>)> {
        self.weights@
    }

    pub closed spec fn spec_algorithm(self) -> LoadBalancingAlgorithm {
        self.algorithm
    }

    /// The rotation counter of a path prefix.
    pub closed spec fn counter(self, key: Seq<char>) -> usize {
        self.counters.get_spec(key)
    }

    /// The connections handed to a URL.
    pub closed spec fn connections_of(self, url: Seq<char>) -> usize {
        self.connections.get_spec(url)
    }

    /// The key of the prefix at position `e`.
    pub open spec fn key(self, e: int) -> Seq<char> {
        self.spec_targets()[e].0@
    }

    /// The URLs of the prefix at position `e`.
    pub open spec fn urls(self, e: int) -> Seq<String> {
        self.spec_targets()[e].1@
    }

    /// The connection counts of the URLs of the prefix at position `e`.
    pub open spec fn conn_seq(self, e: int) -> Seq<usize> {
        Seq::new(self.urls(e).len(), |i: int| self.connections_of(self.urls(e)[i]@))
    }

    /// The position of the first weight list given for `key`.
    pub open spec fn weights_index(self, key: Seq<char>) -> Option<int> {
        if exists|j: int| 0 <= j < self.spec_weights().len() && self.spec_weights()[j].0@ == key {
            Some(
                choose|j: int|
                    0 <= j < self.spec_weights().len() && self.spec_weights()[j].0@ == key && (
                    forall|k: int| 0 <= k < j ==> self.spec_weights()[k].0@ != key),
            )
        } else {
            None
        }
    }

    /// What trying the prefix at position `e` gives; `r` is the random draw
    /// of the random algorithm.
    pub open spec fn step(self, e: int, ip: Option<Seq<char>>, r: nat) -> Step {
        let len = self.urls(e).len();
        match self.spec_algorithm() {
            LoadBalancingAlgorithm::RoundRobin => {
                if len == 0 {
                    Step::Fail
                } else {
                    Step::Pick((self.counter(self.key(e)) as nat % len) as int)
                }
            },
            LoadBalancingAlgorithm::Random => {
                if len == 0 {
                    Step::Stop
                } else {
                    Step::Pick((r % len) as int)
                }
            },
            LoadBalancingAlgorithm::LeastConnections => {
                match lc_scan(self.conn_seq(e), len) {
                    Some(i) => Step::Pick(i),
                    None => Step::Pass,
                }
            },
            LoadBalancingAlgorithm::WeightedRoundRobin => {
                match self.weights_index(self.key(e)) {
                    None => Step::Stop,
                    Some(j) => match wrr_scan(
                        self.spec_weights()[j].1@,
                        self.counter(self.key(e)) as nat,
                        0,
                    ) {
                        Some(i) => if i < len {
                            Step::Pick(i)
                        } else {
                            Step::Fail
                        },
                        None => Step::Pass,
                    },
                }
            },
            LoadBalancingAlgorithm::IPHash => {
                match ip {
                    None => Step::Pass,
                    Some(a) => if len == 0 {
                        Step::Fail
                    } else {
                        Step::Pick(ip_hash_index(a, len))
                    },
                }
            },
            LoadBalancingAlgorithm::ConsistentHashing => {
                match ip {
                    None => Step::Pass,
                    Some(a) => if len == 0 {
                        Step::Fail
                    } else {
                        Step::Pick(consistent_hash_index(a, len))
                    },
                }
            },
            LoadBalancingAlgorithm::WeightedLeastConnections => {
                match self.weights_index(self.key(e)) {
                    None => Step::Stop,
                    Some(j) => {
                        let ws = self.spec_weights()[j].1@;
                        if ws.len() < len {
                            Step::Fail
                        } else {
                            match wlc_scan(self.conn_seq(e), ws, len) {
                                None => Step::Pass,
                                Some(i) => if self.conn_seq(e)[i] == usize::MAX {
                                    Step::Fail
                                } else {
                                    Step::Pick(i)
                                },
                            }
                        }
                    },
                }
            },
        }
    }

    /// The search from the prefix at position `e` on.
    pub open spec fn search(self, path: Seq<char>, ip: Option<Seq<char>>, r: nat, e: nat) -> Outcome
        decreases self.spec_targets().len() - e,
    {
        if e >= self.spec_targets().len() {
            Outcome::NoTarget
        } else if is_prefix(self.key(e as int), path) {
            match self.step(e as int, ip, r) {
                Step::Pick(i) => Outcome::Target { entry: e as int, index: i },
                Step::Stop => Outcome::NoTarget,
                Step::Fail => Outcome::Fail,
                Step::Pass => self.search(path, ip, r, e + 1),
            }
        } else {
            self.search(path, ip, r, e + 1)
        }
    }

    /// The whole search for `path`.
    pub open spec fn outcome(self, path: Seq<char>, ip: Option<Seq<char>>, r: nat) -> Outcome {
        self.search(path, ip, r, 0)
    }

    /// The URL that an outcome names.
    pub open spec fn chosen_url(self, o: Outcome) -> Option<Seq<char>> {
        match o {
            Outcome::Target { entry, index } => Some(self.urls(entry)[index]@),
            _ => None,
        }
    }

    /// The rotation counter of `k` after an outcome.
    pub open spec fn counter_after(self, o: Outcome, k: Seq<char>) -> usize {
        match o {
            Outcome::Target { entry, index } => {
                if k == self.key(entry) && self.spec_algorithm()
                    == LoadBalancingAlgorithm::RoundRobin {
                    ((self.counter(k) + 1) % self.urls(entry).len() as int) as usize
                } else if k == self.key(entry) && self.spec_algorithm()
                    == LoadBalancingAlgorithm::WeightedRoundRobin {
                    ((self.counter(k) + 1) % seq_sum(
                        self.spec_weights()[self.weights_index(k).unwrap()].1@,
                    ) as int) as usize
                } else {
                    self.counter(k)
                }
            },
            _ => self.counter(k),
        }
    }

    /// The connections of `u` after an outcome.
    pub open spec fn connections_after(self, o: Outcome, u: Seq<char>) -> usize {
        match o {
            Outcome::Target { entry, index } => {
                if u == self.urls(entry)[index]@ && (self.spec_algorithm()
                    == LoadBalancingAlgorithm::LeastConnections || self.spec_algorithm()
                    == LoadBalancingAlgorithm::WeightedLeastConnections) {
                    (self.connections_of(u) + 1) as usize
                } else {
                    self.connections_of(u)
                }
            },
            _ => self.connections_of(u),
        }
    }

    /// Whether the search for `path` can be carried out.
    pub open spec fn serves(self, path: Seq<char>, ip: Option<Seq<char>>) -> bool {
        forall|r: nat| !(#[trigger] self.outcome(path, ip, r) is Fail)
    }

    /// How the balancer stands after a search with outcome `o`, and what the
    /// search returned.
    pub open spec fn selected(
        self,
        after: Self,
        o: Outcome,
        res: Option<String>,
    ) -> bool {
        &&& after.wf()
        &&& after.spec_targets() == self.spec_targets()
        &&& after.spec_weights() == self.spec_weights()
        &&& after.spec_algorithm() == self.spec_algorithm()
        &&& (forall|k: Seq<char>| #[trigger] after.counter(k) == self.counter_after(o, k))
        &&& (forall|u: Seq<char>| #[trigger] after.connections_of(u) == self.connections_after(o, u))
        &&& match res {
            Some(s) => self.chosen_url(o) == Some(s@),
            None => self.chosen_url(o) is None,
        }
    }
}

/// The sum of a list of weights; it must fit.
fn sum_weights(w: &Vec<usize>) -> (s: usize)
    requires
        seq_sum(w@) <= usize::MAX,
    ensures
        s as nat == seq_sum(w@),
{
    let mut total: usize = 0;
    let mut i: usize = 0;
    while i < w.len()
        invariant
            i <= w@.len(),
            total as nat == seq_sum(w@.take(i as int)),
            seq_sum(w@) <= usize::MAX,
        decreases w@.len() - i,
    {
        proof {
            lemma_sum_take(w@, i as nat);
            lemma_sum_prefix_le(w@, (i + 1) as nat);
        }
        total = total + w[i];
        i = i + 1;
    }
    proof {
        assert(w@.take(w@.len() as int) == w@);
    }
    total
}

/// Taking one more weight adds it to the sum.
proof fn lemma_sum_take(w: Seq<usize>, i: nat)
    requires
        i < w.len(),
    ensures
        seq_sum(w.take(i as int + 1)) == seq_sum(w.take(i as int)) + w[i as int],
{
    assert(w.take(i as int + 1).drop_last() == w.take(i as int));
}

/// A prefix of the weights sums to no more than all of them.
proof fn lemma_sum_prefix_le(w: Seq<usize>, i: nat)
    requires
        i <= w.len(),
    ensures
        seq_sum(w.take(i as int)) <= seq_sum(w),
    decreases w.len() - i,
{
    if i < w.len() {
        lemma_sum_prefix_le(w, i + 1);
        lemma_sum_take(w, i);
    } else {
        assert(w.take(i as int) == w);
    }
}

impl LoadBalancer {
    /// A balancer over the given prefixes. Without weights, every URL weighs
    /// one. The weights of each prefix must sum to a `usize`.
    pub fn new(
        targets: Vec<(String, Vec<String>)>,
        algorithm: LoadBalancingAlgorithm,
        weights: Option<Vec<(String, Vec<usize>)>>,
    ) -> (lb: Self)
        requires
            weights matches Some(ws) ==> forall|j: int|
                0 <= j < ws@.len() ==> seq_sum(#[trigger] ws@[j].1@) <= usize::MAX,
        ensures
            lb.wf(),
            lb.spec_targets() == targets@,
            lb.spec_algorithm() == algorithm,
            lb.spec_weights().len() == match weights {
                Some(ws) => ws@.len(),
                None => targets@.len(),
            },
            forall|j: int|
                0 <= j < lb.spec_weights().len() ==> (#[trigger] lb.spec_weights()[j]).0@
                    == match weights {
                    Some(ws) => ws@[j].0@,
                    None => targets@[j].0@,
                } && lb.spec_weights()[j].1@ == match weights {
                    Some(ws) => ws@[j].1@,
                    None => Seq::new(targets@[j].1@.len(), |i: int| 1usize),
                },
            forall|k: Seq<char>| lb.counter(k) == 0,
            forall|u: Seq<char>| lb.connections_of(u) == 0,
    {
        let weights = match weights {
            Some(ws) => ws,
            None => default_weights(&targets),
        };
        let mut weights_sum: Vec<usize> = Vec::new();
        let mut j: usize = 0;
        while j < weights.len()
            invariant
                j <= weights@.len(),
                weights_sum@.len() == j,
                forall|i: int| 0 <= i < j ==> #[trigger] weights_sum@[i] as nat == seq_sum(weights@[i].1@),
                forall|i: int| 0 <= i < weights@.len() ==> seq_sum(#[trigger] weights@[i].1@) <= usize::MAX,
            decreases weights@.len() - j,
        {
            let s = sum_weights(&weights[j].1);
            weights_sum.push(s);
            j = j + 1;
        }
        LoadBalancer {
            targets,
            counters: Counts::new(),
            connections: Counts::new(),
            weights,
            weights_sum,
            algorithm,
        }
    }
}

/// Weight one for every URL of every prefix.
fn default_weights(targets: &Vec<(String, Vec<String>)>) -> (ws: Vec<(String, Vec<usize>)>)
    ensures
        ws@.len() == targets@.len(),
        forall|j: int|
            0 <= j < ws@.len() ==> (#[trigger] ws@[j]).0@ == targets@[j].0@ && ws@[j].1@ == Seq::new(
                targets@[j].1@.len(),
                |i: int| 1usize,
            ),
        forall|j: int| 0 <= j < ws@.len() ==> seq_sum(#[trigger] ws@[j].1@) <= usize::MAX,
{
    let mut ws: Vec<(String, Vec<usize>)> = Vec::new();
    let mut j: usize = 0;
    while j < targets.len()
        invariant
            j <= targets@.len(),
            ws@.len() == j,
            forall|i: int|
                0 <= i < j ==> (#[trigger] ws@[i]).0@ == targets@[i].0@ && ws@[i].1@ == Seq::new(
                    targets@[i].1@.len(),
                    |k: int| 1usize,
                ),
            forall|i: int| 0 <= i < j ==> seq_sum(#[trigger] ws@[i].1@) <= usize::MAX,
        decreases targets@.len() - j,
    {
        let n = targets[j].1.len();
        let ones = ones_vec(n);
        ws.push((targets[j].0.clone(), ones));
        j = j + 1;
    }
    ws
}

/// A list of `n` ones; it sums to `n`.
fn ones_vec(n: usize) -> (v: Vec<usize>)
    ensures
        v@ == Seq::new(n as nat, |i: int| 1usize),
        seq_sum(v@) == n,
{
    let mut v: Vec<usize> = Vec::new();
    let mut i: usize = 0;
    while i < n
        invariant
            i <= n,
            v@ == Seq::new(i as nat, |k: int| 1usize),
            seq_sum(v@) == i,
        decreases n - i,
    {
        proof {
            assert(v@.push(1usize).drop_last() == v@);
        }
        v.push(1);
        i = i + 1;
        proof {
            assert(v@ =~= Seq::new(i as nat, |k: int| 1usize));
        }
    }
    v
}

/// A string's view, when there is a string.
pub open spec fn opt_view(o: Option<&str>) -> Option<Seq<char>> {
    match o {
        Some(s) => Some(s@),
        None => None,
    }
}

/// The powers of 256.
pub open spec fn pow256(n: nat) -> nat
    decreases n,
{
    if n == 0 {
        1
    } else {
        256 * pow256((n - 1) as nat)
    }
}

/// The little-endian number of the first eight bytes of a digest.
fn first_eight_le(d: &Vec<u8>) -> (v: u64)
    requires
        d@.len() >= 8,
    ensures
        v as nat == le_u64(d@.take(8)),
{
    let mut v: u64 = 0;
    let mut i: usize = 8;
    proof {
        assert(d@.subrange(8, 8) =~= Seq::<u8>::empty());
    }
    while i > 0
        invariant
            i <= 8,
            d@.len() >= 8,
            v as nat == le_u64(d@.subrange(i as int, 8)),
            (v as nat) < pow256((8 - i) as nat),
        decreases i,
    {
        let b = d[i - 1];
        proof {
            let tail = d@.subrange(i - 1, 8);
            assert(tail.drop_first() =~= d@.subrange(i as int, 8));
            assert(tail[0] == b);
            assert(pow256((8 - i + 1) as nat) == 256 * pow256((8 - i) as nat));
            assert(pow256(0) == 1);
            assert(pow256(1) == 256);
            assert(pow256(2) == 65536);
            assert(pow256(3) == 16777216);
            assert(pow256(4) == 4294967296);
            assert(pow256(5) == 1099511627776);
            assert(pow256(6) == 281474976710656);
            assert(pow256(7) == 72057594037927936);
            assert(pow256(8) == 18446744073709551616);
            assert(b as nat + 256 * (v as nat) < 256 * pow256((8 - i) as nat)) by (nonlinear_arith)
                requires
                    (v as nat) < pow256((8 - i) as nat),
                    b < 256,
            ;
        }
        v = b as u64 + 256 * v;
        i = i - 1;
    }
    proof {
        assert(d@.subrange(0, 8) =~= d@.take(8));
    }
    v
}

impl LoadBalancer {
    /// What trying the prefix at position `e` gives, as an outcome of the whole
    /// search, when the prefix ends it.
    pub open spec fn entry_outcome(self, e: int, ip: Option<Seq<char>>, r: nat) -> Outcome {
        match self.step(e, ip, r) {
            Step::Pick(i) => Outcome::Target { entry: e, index: i },
            Step::Fail => Outcome::Fail,
            _ => Outcome::NoTarget,
        }
    }

    /// The position of the first weight list given for `key`.
    fn find_weights(&self, key: &str) -> (r: Option<usize>)
        ensures
            match r {
                Some(j) => self.weights_index(key@) == Some(j as int) && j < self.spec_weights().len(),
                None => self.weights_index(key@) is None,
            },
    {
        let mut j: usize = 0;
        while j < self.weights.len()
            invariant
                j <= self.weights@.len(),
                forall|k: int| 0 <= k < j ==> self.weights@[k].0@ != key@,
            decreases self.weights@.len() - j,
        {
            if str_eq(self.weights[j].0.as_str(), key) {
                proof {
                    let ws = self.spec_weights();
                    assert(0 <= j < ws.len() && ws[j as int].0@ == key@ && (forall|k: int|
                        0 <= k < j ==> ws[k].0@ != key@));
                    let c = choose|c: int|
                        0 <= c < ws.len() && ws[c].0@ == key@ && (forall|k: int|
                            0 <= k < c ==> ws[k].0@ != key@);
                    assert(c == j) by {
                        if c < j {
                        } else if c > j {
                            assert(ws[j as int].0@ != key@);
                        }
                    }
                }
                return Some(j);
            }
            j = j + 1;
        }
        None
    }

    /// Least connections over the URLs of the prefix at position `e`.
    fn lc_pick(&self, e: usize) -> (r: Option<usize>)
        requires
            e < self.spec_targets().len(),
        ensures
            match r {
                Some(i) => lc_scan(self.conn_seq(e as int), self.urls(e as int).len()) == Some(i as int),
                None => lc_scan(self.conn_seq(e as int), self.urls(e as int).len()) is None,
            },
    {
        let urls = &self.targets[e].1;
        let ghost cs = self.conn_seq(e as int);
        let mut best: Option<usize> = None;
        let mut min: usize = usize::MAX;
        let mut i: usize = 0;
        while i < urls.len()
            invariant
                urls@ == self.urls(e as int),
                cs == self.conn_seq(e as int),
                i <= urls@.len(),
                match best {
                    Some(b) => lc_scan(cs, i as nat) == Some(b as int) && min == cs[b as int] && b < i,
                    None => lc_scan(cs, i as nat) is None && min == usize::MAX,
                },
            decreases urls@.len() - i,
        {
            let c = self.connections.get(urls[i].as_str());
            if c < min {
                min = c;
                best = Some(i);
            }
            i = i + 1;
        }
        best
    }

    /// Weighted round robin over the weights `w` with counter `counter`.
    fn wrr_pick(w: &Vec<usize>, counter: usize) -> (r: Option<usize>)
        requires
            seq_sum(w@) <= usize::MAX,
        ensures
            match r {
                Some(i) => wrr_scan(w@, counter as nat, 0) == Some(i as int) && i < w@.len(),
                None => wrr_scan(w@, counter as nat, 0) is None,
            },
    {
        let mut cumulative: usize = 0;
        let mut i: usize = 0;
        while i < w.len()
            invariant
                i <= w@.len(),
                cumulative as nat == seq_sum(w@.take(i as int)),
                seq_sum(w@) <= usize::MAX,
                wrr_scan(w@, counter as nat, 0) == wrr_scan(w@, counter as nat, i as nat),
            decreases w@.len() - i,
        {
            proof {
                lemma_sum_take(w@, i as nat);
                lemma_sum_prefix_le(w@, (i + 1) as nat);
            }
            cumulative = cumulative + w[i];
            if counter < cumulative {
                return Some(i);
            }
            i = i + 1;
        }
        None
    }

    /// Weighted least connections over the prefix at position `e` with
    /// weights `ws`, which must cover its URLs.
    fn wlc_pick(&self, e: usize, ws: &Vec<usize>) -> (r: Option<usize>)
        requires
            e < self.spec_targets().len(),
            ws@.len() >= self.urls(e as int).len(),
        ensures
            match r {
                Some(i) => wlc_scan(self.conn_seq(e as int), ws@, self.urls(e as int).len())
                    == Some(i as int) && i < self.urls(e as int).len(),
                None => wlc_scan(self.conn_seq(e as int), ws@, self.urls(e as int).len()) is None,
            },
    {
        let urls = &self.targets[e].1;
        let ghost cs = self.conn_seq(e as int);
        let mut best: Option<usize> = None;
        let mut best_count: usize = 0;
        let mut best_weight: usize = 0;
        let mut i: usize = 0;
        while i < urls.len()
            invariant
                urls@ == self.urls(e as int),
                cs == self.conn_seq(e as int),
                ws@.len() >= urls@.len(),
                i <= urls@.len(),
                match best {
                    Some(b) => wlc_scan(cs, ws@, i as nat) == Some(b as int) && b < i
                        && best_count == cs[b as int] && best_weight == ws@[b as int],
                    None => wlc_scan(cs, ws@, i as nat) is None,
                },
            decreases urls@.len() - i,
        {
            let c = self.connections.get(urls[i].as_str());
            let w = ws[i];
            if w > 0 {
                let better = match best {
                    None => true,
                    Some(_) => {
                        proof {
                            lemma_product_fits(c as nat, best_weight as nat);
                            lemma_product_fits(best_count as nat, w as nat);
                        }
                        (c as u128) * (best_weight as u128) < (best_count as u128) * (w as u128)
                    },
                };
                if better {
                    best = Some(i);
                    best_count = c;
                    best_weight = w;
                }
            }
            i = i + 1;
        }
        best
    }
}

/// The product of two `usize` values fits in a `u128`.
proof fn lemma_product_fits(a: nat, b: nat)
    requires
        a <= usize::MAX,
        b <= usize::MAX,
    ensures
        a * b <= u128::MAX,
{
    assert(a * b <= 0xffff_ffff_ffff_ffff * 0xffff_ffff_ffff_ffff) by (nonlinear_arith)
        requires
            a <= 0xffff_ffff_ffff_ffff,
            b <= 0xffff_ffff_ffff_ffff,
    ;
}

impl LoadBalancer {
    /// Tries the prefix at position `e`, which the path starts with: `None`
    /// when the search passes on, else what the search returns.
    fn try_entry(&mut self, e: usize, client_ip: Option<&str>, pick: Option<usize>) -> (r: Option<
        Option<String>,
    >)
        requires
            old(self).wf(),
            e < old(self).spec_targets().len(),
            forall|rr: nat| !(#[trigger] old(self).step(e as int, opt_view(client_ip), rr) is Fail),
        ensures
            match r {
                None => *final(self) == *old(self) && forall|rr: nat|
                    #[trigger] old(self).step(e as int, opt_view(client_ip), rr) is Pass,
                Some(res) => exists|rr: nat|
                    {
                        &&& (pick matches Some(p) ==> rr == p)
                        &&& !(old(self).step(e as int, opt_view(client_ip), rr) is Pass)
                        &&& old(self).selected(
                            *final(self),
                            old(self).entry_outcome(e as int, opt_view(client_ip), rr),
                            res,
                        )
                    },
            },
    {
        let ghost ip = opt_view(client_ip);
        let ghost old_self = *self;
        let ghost rw: nat = match pick {
            Some(p) => p as nat,
            None => 0,
        };
        let len = self.targets[e].1.len();
        match self.algorithm {
            LoadBalancingAlgorithm::RoundRobin => {
                assert(!(old_self.step(e as int, ip, 0) is Fail));
                let c = self.counters.get(self.targets[e].0.as_str());
                let idx = c % len;
                let target = self.targets[e].1[idx].clone();
                let key = self.targets[e].0.clone();
                self.counters.set(key.as_str(), (c + 1) % len);
                proof {
                    let o = old_self.entry_outcome(e as int, ip, rw);
                    assert(old_self.selected(*self, o, Some(target)));
                }
                Some(Some(target))
            },
            LoadBalancingAlgorithm::Random => {
                if len == 0 {
                    proof {
                        let o = old_self.entry_outcome(e as int, ip, rw);
                        assert(old_self.selected(*self, o, None));
                    }
                    Some(None)
                } else {
                    let r = match pick {
                        Some(p) => p,
                        None => choose_index(len),
                    };
                    let target = self.targets[e].1[r % len].clone();
                    proof {
                        let o = old_self.entry_outcome(e as int, ip, r as nat);
                        assert(old_self.selected(*self, o, Some(target)));
                    }
                    Some(Some(target))
                }
            },
            LoadBalancingAlgorithm::LeastConnections => {
                match self.lc_pick(e) {
                    Some(i) => {
                        proof {
                            lemma_lc_below_max(old_self.conn_seq(e as int), len as nat);
                        }
                        let url = self.targets[e].1[i].clone();
                        let c = self.connections.get(url.as_str());
                        self.connections.set(url.as_str(), c + 1);
                        proof {
                            let o = old_self.entry_outcome(e as int, ip, rw);
                            assert(old_self.selected(*self, o, Some(url)));
                        }
                        Some(Some(url))
                    },
                    None => None,
                }
            },
            LoadBalancingAlgorithm::WeightedRoundRobin => {
                match self.find_weights(self.targets[e].0.as_str()) {
                    None => {
                        proof {
                            let o = old_self.entry_outcome(e as int, ip, rw);
                            assert(old_self.selected(*self, o, None));
                        }
                        Some(None)
                    },
                    Some(j) => {
                        let c = self.counters.get(self.targets[e].0.as_str());
                        let ghost wl = self.weights@[j as int].1@;
                        assert(self.weights_sum@[j as int] as nat == seq_sum(wl));
                        match Self::wrr_pick(&self.weights[j].1, c) {
                            Some(i) => {
                                assert(!(old_self.step(e as int, ip, 0) is Fail));
                                proof {
                                    lemma_wrr_scan_below_sum(wl, c as nat, 0);
                                }
                                let sum = self.weights_sum[j];
                                let target = self.targets[e].1[i].clone();
                                let key = self.targets[e].0.clone();
                                self.counters.set(key.as_str(), (c + 1) % sum);
                                proof {
                                    let o = old_self.entry_outcome(e as int, ip, rw);
                                    assert(old_self.selected(*self, o, Some(target)));
                                }
                                Some(Some(target))
                            },
                            None => None,
                        }
                    },
                }
            },
            LoadBalancingAlgorithm::IPHash => {
                match client_ip {
                    None => None,
                    Some(a) => {
                        assert(!(old_self.step(e as int, ip, 0) is Fail));
                        let h = hash_str(a);
                        let idx = (h % (len as u64)) as usize;
                        let target = self.targets[e].1[idx].clone();
                        proof {
                            let o = old_self.entry_outcome(e as int, ip, rw);
                            assert(old_self.selected(*self, o, Some(target)));
                        }
                        Some(Some(target))
                    },
                }
            },
            LoadBalancingAlgorithm::ConsistentHashing => {
                match client_ip {
                    None => None,
                    Some(a) => {
                        assert(!(old_self.step(e as int, ip, 0) is Fail));
                        let digest = sha256(a.as_bytes());
                        let v = first_eight_le(&digest);
                        let idx = (v % (len as u64)) as usize;
                        let target = self.targets[e].1[idx].clone();
                        proof {
                            let o = old_self.entry_outcome(e as int, ip, rw);
                            assert(old_self.selected(*self, o, Some(target)));
                        }
                        Some(Some(target))
                    },
                }
            },
            LoadBalancingAlgorithm::WeightedLeastConnections => {
                match self.find_weights(self.targets[e].0.as_str()) {
                    None => {
                        proof {
                            let o = old_self.entry_outcome(e as int, ip, rw);
                            assert(old_self.selected(*self, o, None));
                        }
                        Some(None)
                    },
                    Some(j) => {
                        assert(!(old_self.step(e as int, ip, 0) is Fail));
                        match self.wlc_pick(e, &self.weights[j].1) {
                            Some(i) => {
                                let url = self.targets[e].1[i].clone();
                                let c = self.connections.get(url.as_str());
                                self.connections.set(url.as_str(), c + 1);
                                proof {
                                    let o = old_self.entry_outcome(e as int, ip, rw);
                                    assert(old_self.selected(*self, o, Some(url)));
                                }
                                Some(Some(url))
                            },
                            None => None,
                        }
                    },
                }
            },
        }
    }

    fn get_target_impl(&mut self, path: &str, client_ip: Option<&str>, pick: Option<usize>) -> (res:
        Option<String>)
        requires
            old(self).wf(),
            old(self).serves(path@, opt_view(client_ip)),
        ensures
            exists|rr: nat|
                {
                    &&& (pick matches Some(p) ==> rr == p)
                    &&& old(self).selected(
                        *final(self),
                        old(self).outcome(path@, opt_view(client_ip), rr),
                        res,
                    )
                },
    {
        let ghost ip = opt_view(client_ip);
        let ghost old_self = *self;
        let path_chars = chars_of(path);
        let mut e: usize = 0;
        while e < self.targets.len()
            invariant
                *self == old_self,
                old_self == *old(self),
                ip == opt_view(client_ip),
                old_self.wf(),
                old_self.serves(path@, ip),
                path_chars@ == path@,
                e <= old_self.spec_targets().len(),
                forall|rr: nat| #[trigger] old_self.outcome(path@, ip, rr) == old_self.search(path@, ip, rr, e as nat),
            decreases old_self.spec_targets().len() - e,
        {
            let key_chars = chars_of(self.targets[e].0.as_str());
            if chars_starts_with(path_chars.as_slice(), key_chars.as_slice()) {
                proof {
                    assert(is_prefix(old_self.key(e as int), path@));
                    assert forall|rr: nat| !(#[trigger] old_self.step(e as int, ip, rr) is Fail) by {
                        assert(old_self.outcome(path@, ip, rr) == old_self.search(path@, ip, rr, e as nat));
                        assert(!(old_self.outcome(path@, ip, rr) is Fail));
                    }
                }
                match self.try_entry(e, client_ip, pick) {
                    Some(res) => {
                        proof {
                            let rr = choose|rr: nat|
                                {
                                    &&& (pick matches Some(p) ==> rr == p)
                                    &&& !(old_self.step(e as int, ip, rr) is Pass)
                                    &&& old_self.selected(
                                        *self,
                                        old_self.entry_outcome(e as int, ip, rr),
                                        res,
                                    )
                                };
                            assert(old_self.outcome(path@, ip, rr) == old_self.search(path@, ip, rr, e as nat));
                            assert(old_self.outcome(path@, ip, rr) == old_self.entry_outcome(e as int, ip, rr));
                            assert(old_self.selected(*self, old_self.outcome(path@, ip, rr), res));
                            assert(pick matches Some(p) ==> rr == p);
                            assert(exists|r2: nat|
                                {
                                    &&& (pick matches Some(p) ==> r2 == p)
                                    &&& old_self.selected(
                                        *self,
                                        old_self.outcome(path@, opt_view(client_ip), r2),
                                        res,
                                    )
                                });
                        }
                        return res;
                    },
                    None => {
                        proof {
                            assert forall|rr: nat| #[trigger] old_self.outcome(path@, ip, rr) == old_self.search(path@, ip, rr, (e + 1) as nat) by {
                                assert(old_self.outcome(path@, ip, rr) == old_self.search(path@, ip, rr, e as nat));
                                assert(old_self.step(e as int, ip, rr) is Pass);
                            }
                        }
                    },
                }
            } else {
                proof {
                    assert forall|rr: nat| #[trigger] old_self.outcome(path@, ip, rr) == old_self.search(path@, ip, rr, (e + 1) as nat) by {
                        assert(old_self.outcome(path@, ip, rr) == old_self.search(path@, ip, rr, e as nat));
                    }
                }
            }
            e = e + 1;
        }
        proof {
            let rr: nat = match pick {
                Some(p) => p as nat,
                None => 0,
            };
            assert(old_self.outcome(path@, ip, rr) == old_self.search(path@, ip, rr, e as nat));
            assert(old_self.selected(*self, old_self.outcome(path@, ip, rr), None));
        }
        None
    }

    /// The URL for a request path, and the client's address when it is known.
    ///
    /// The prefixes that the path starts with are tried in order (see the
    /// module's description); the random algorithm draws its URL at random.
    pub fn get_target(&mut self, path: &str, client_ip: Option<&str>) -> (res: Option<String>)
        requires
            old(self).wf(),
            old(self).serves(path@, opt_view(client_ip)),
        ensures
            exists|rr: nat|
                old(self).selected(*final(self), old(self).outcome(path@, opt_view(client_ip), rr), res),
    {
        self.get_target_impl(path, client_ip, None)
    }

    /// As `get_target`, with `pick` standing for the random draw: the random
    /// algorithm takes the URL at position `pick` modulo the number of URLs.
    pub fn get_target_with_pick(&mut self, path: &str, client_ip: Option<&str>, pick: usize) -> (res:
        Option<String>)
        requires
            old(self).wf(),
            old(self).serves(path@, opt_view(client_ip)),
        ensures
            old(self).selected(*final(self), old(self).outcome(path@, opt_view(client_ip), pick as nat), res),
    {
        self.get_target_impl(path, client_ip, Some(pick))
    }
}

/// The count that least connections picks is below the maximum.
proof fn lemma_lc_below_max(cs: Seq<usize>, n: nat)
    requires
        n <= cs.len(),
    ensures
        lc_scan(cs, n) matches Some(i) ==> 0 <= i < n && cs[i] < usize::MAX,
    decreases n,
{
    if n > 0 {
        lemma_lc_below_max(cs, (n - 1) as nat);
    }
}

/// Weighted round robin picks a position only when the counter is below the
/// sum of all weights.
proof fn lemma_wrr_scan_below_sum(w: Seq<usize>, c: nat, i: nat)
    ensures
        wrr_scan(w, c, i) matches Some(k) ==> c < seq_sum(w) && i <= k < w.len(),
    decreases w.len() - i,
{
    if i < w.len() {
        lemma_wrr_scan_below_sum(w, c, i + 1);
        if c < seq_sum(w.take(i as int + 1)) {
            lemma_sum_prefix_le(w, i + 1);
        }
    }
}

/// How trying a prefix ends, whatever the random draw.
enum StepKind {
    Ends,
    Passes,
    Fails,
}

impl LoadBalancer {
    /// How trying the prefix at position `e` ends.
    fn step_kind(&self, e: usize, client_ip: Option<&str>) -> (k: StepKind)
        requires
            self.wf(),
            e < self.spec_targets().len(),
        ensures
            match k {
                StepKind::Ends => forall|rr: nat|
                    !(#[trigger] self.step(e as int, opt_view(client_ip), rr) is Pass) && !(self.step(
                        e as int,
                        opt_view(client_ip),
                        rr,
                    ) is Fail),
                StepKind::Passes => forall|rr: nat|
                    #[trigger] self.step(e as int, opt_view(client_ip), rr) is Pass,
                StepKind::Fails => forall|rr: nat|
                    #[trigger] self.step(e as int, opt_view(client_ip), rr) is Fail,
            },
    {
        let len = self.targets[e].1.len();
        match self.algorithm {
            LoadBalancingAlgorithm::RoundRobin => {
                if len == 0 {
                    StepKind::Fails
                } else {
                    StepKind::Ends
                }
            },
            LoadBalancingAlgorithm::Random => StepKind::Ends,
            LoadBalancingAlgorithm::LeastConnections => {
                match self.lc_pick(e) {
                    Some(_) => StepKind::Ends,
                    None => StepKind::Passes,
                }
            },
            LoadBalancingAlgorithm::WeightedRoundRobin => {
                match self.find_weights(self.targets[e].0.as_str()) {
                    None => StepKind::Ends,
                    Some(j) => {
                        let c = self.counters.get(self.targets[e].0.as_str());
                        assert(self.weights_sum@[j as int] as nat == seq_sum(self.weights@[j as int].1@));
                        match Self::wrr_pick(&self.weights[j].1, c) {
                            Some(i) => if i < len {
                                StepKind::Ends
                            } else {
                                StepKind::Fails
                            },
                            None => StepKind::Passes,
                        }
                    },
                }
            },
            LoadBalancingAlgorithm::IPHash | LoadBalancingAlgorithm::ConsistentHashing => {
                match client_ip {
                    None => StepKind::Passes,
                    Some(_) => if len == 0 {
                        StepKind::Fails
                    } else {
                        StepKind::Ends
                    },
                }
            },
            LoadBalancingAlgorithm::WeightedLeastConnections => {
                match self.find_weights(self.targets[e].0.as_str()) {
                    None => StepKind::Ends,
                    Some(j) => {
                        if self.weights[j].1.len() < len {
                            StepKind::Fails
                        } else {
                            match self.wlc_pick(e, &self.weights[j].1) {
                                None => StepKind::Passes,
                                Some(i) => {
                                    let c = self.connections.get(self.targets[e].1[i].as_str());
                                    if c == usize::MAX {
                                        StepKind::Fails
                                    } else {
                                        StepKind::Ends
                                    }
                                },
                            }
                        }
                    },
                }
            },
        }
    }

    /// Whether `get_target` can be called for `path` and `client_ip`: the
    /// search it makes reaches no empty URL list of the round-robin or hash
    /// algorithms, no position beyond the URLs in weighted round robin, no
    /// weight list shorter than the URLs and no exhausted connection count in
    /// weighted least connections.
    pub fn can_serve(&self, path: &str, client_ip: Option<&str>) -> (r: bool)
        requires
            self.wf(),
        ensures
            r == self.serves(path@, opt_view(client_ip)),
    {
        let ghost ip = opt_view(client_ip);
        let path_chars = chars_of(path);
        let mut e: usize = 0;
        while e < self.targets.len()
            invariant
                self.wf(),
                ip == opt_view(client_ip),
                path_chars@ == path@,
                e <= self.spec_targets().len(),
                forall|rr: nat| #[trigger] self.outcome(path@, ip, rr) == self.search(path@, ip, rr, e as nat),
            decreases self.spec_targets().len() - e,
        {
            let key_chars = chars_of(self.targets[e].0.as_str());
            if chars_starts_with(path_chars.as_slice(), key_chars.as_slice()) {
                proof {
                    assert(is_prefix(self.key(e as int), path@));
                }
                match self.step_kind(e, client_ip) {
                    StepKind::Ends => {
                        proof {
                            assert forall|rr: nat| !(#[trigger] self.outcome(path@, ip, rr) is Fail) by {
                                assert(self.outcome(path@, ip, rr) == self.search(path@, ip, rr, e as nat));
                                assert(!(self.step(e as int, ip, rr) is Pass));
                            }
                        }
                        return true;
                    },
                    StepKind::Fails => {
                        proof {
                            assert(self.outcome(path@, ip, 0) == self.search(path@, ip, 0, e as nat));
                            assert(self.step(e as int, ip, 0) is Fail);
                            assert(self.outcome(path@, ip, 0) is Fail);
                        }
                        return false;
                    },
                    StepKind::Passes => {
                        proof {
                            assert forall|rr: nat| #[trigger] self.outcome(path@, ip, rr) == self.search(path@, ip, rr, (e + 1) as nat) by {
                                assert(self.outcome(path@, ip, rr) == self.search(path@, ip, rr, e as nat));
                                assert(self.step(e as int, ip, rr) is Pass);
                            }
                        }
                    },
                }
            } else {
                proof {
                    assert forall|rr: nat| #[trigger] self.outcome(path@, ip, rr) == self.search(path@, ip, rr, (e + 1) as nat) by {
                        assert(self.outcome(path@, ip, rr) == self.search(path@, ip, rr, e as nat));
                    }
                }
            }
            e = e + 1;
        }
        proof {
            assert forall|rr: nat| !(#[trigger] self.outcome(path@, ip, rr) is Fail) by {
                assert(self.outcome(path@, ip, rr) == self.search(path@, ip, rr, e as nat));
            }
        }
        true
    }
}

/// Least connections picks the first URL with the fewest connections, unless
/// every count is at its maximum.
pub proof fn law_least_connections_picks_minimum(cs: Seq<usize>, n: nat)
    requires
        n <= cs.len(),
    ensures
        match lc_scan(cs, n) {
            Some(i) => 0 <= i < n && cs[i] < usize::MAX && (forall|j: int|
                0 <= j < n ==> cs[i] <= #[trigger] cs[j]) && (forall|j: int|
                0 <= j < i ==> cs[i] < #[trigger] cs[j]),
            None => forall|j: int| 0 <= j < n ==> #[trigger] cs[j] == usize::MAX,
        },
    decreases n,
{
    if n > 0 {
        law_least_connections_picks_minimum(cs, (n - 1) as nat);
    }
}

/// Weighted least connections picks the first URL of positive weight whose
/// ratio of connections to weight is smallest, unless every weight is zero.
pub proof fn law_weighted_least_connections_picks_minimum(cs: Seq<usize>, ws: Seq<usize>, n: nat)
    requires
        n <= cs.len(),
        n <= ws.len(),
    ensures
        match wlc_scan(cs, ws, n) {
            Some(i) => 0 <= i < n && ws[i] > 0 && (forall|j: int|
                0 <= j < n && #[trigger] ws[j] > 0 ==> cs[i] * ws[j] <= cs[j] * ws[i]),
            None => forall|j: int| 0 <= j < n ==> #[trigger] ws[j] == 0,
        },
    decreases n,
{
    if n > 0 {
        law_weighted_least_connections_picks_minimum(cs, ws, (n - 1) as nat);
        let k = n - 1;
        match wlc_scan(cs, ws, (n - 1) as nat) {
            Some(b) => {
                if ws[k] > 0 && cs[k] * ws[b] < cs[b] * ws[k] {
                    assert forall|j: int| 0 <= j < n && #[trigger] ws[j] > 0 implies cs[k] * ws[j]
                        <= cs[j] * ws[k] by {
                        if j < k {
                            assert(cs[b] * ws[j] <= cs[j] * ws[b]);
                            lemma_ratio_transitive(
                                cs[k] as int,
                                ws[k] as int,
                                cs[b] as int,
                                ws[b] as int,
                                cs[j] as int,
                                ws[j] as int,
                            );
                        }
                    }
                } else {
                    assert forall|j: int| 0 <= j < n && #[trigger] ws[j] > 0 implies cs[b] * ws[j]
                        <= cs[j] * ws[b] by {
                        if j == k {
                            assert(!(cs[k] * ws[b] < cs[b] * ws[k]));
                        }
                    }
                }
            },
            None => {},
        }
    }
}

/// Ratios compare transitively: `a/p < b/q` and `b/q <= c/r` give `a/p <= c/r`
/// for positive weights.
proof fn lemma_ratio_transitive(a: int, p: int, b: int, q: int, c: int, r: int)
    requires
        p > 0,
        q > 0,
        r > 0,
        a >= 0,
        b >= 0,
        c >= 0,
        a * q < b * p,
        b * r <= c * q,
    ensures
        a * r <= c * p,
{
    assert(a * q * r <= b * p * r) by (nonlinear_arith)
        requires
            a * q < b * p,
            r > 0,
    ;
    assert(b * r * p <= c * q * p) by (nonlinear_arith)
        requires
            b * r <= c * q,
            p > 0,
    ;
    assert(a * r * q <= c * p * q) by (nonlinear_arith)
        requires
            a * q * r <= b * p * r,
            b * r * p <= c * q * p,
    ;
    assert(a * r <= c * p) by (nonlinear_arith)
        requires
            a * r * q <= c * p * q,
            q > 0,
    ;
}

/// Weighted round robin picks position `i` exactly when the counter lies
/// between the sum of the weights before it and the sum up to it.
pub proof fn law_weighted_round_robin_interval(w: Seq<usize>, c: nat, i: int)
    requires
        0 <= i < w.len(),
    ensures
        wrr_scan(w, c, 0) == Some(i) <==> seq_sum(w.take(i)) <= c < seq_sum(w.take(i + 1)),
{
    lemma_wrr_scan_from(w, c, 0);
    assert(w.take(0) =~= Seq::<usize>::empty());
    if seq_sum(w.take(i)) <= c < seq_sum(w.take(i + 1)) {
        lemma_wrr_scan_from(w, c, 0);
    }
}

/// The scan from `k` picks the first position at or after `k` whose running
/// sum exceeds the counter, when the running sum before `k` does not.
proof fn lemma_wrr_scan_from(w: Seq<usize>, c: nat, k: nat)
    requires
        k <= w.len(),
    ensures
        forall|i: int|
            k <= i < w.len() && seq_sum(w.take(k as int)) <= c ==> (wrr_scan(w, c, k) == Some(i)
                <==> seq_sum(#[trigger] w.take(i)) <= c < seq_sum(w.take(i + 1))),
    decreases w.len() - k,
{
    if k < w.len() {
        lemma_wrr_scan_from(w, c, k + 1);
        lemma_sum_take(w, k);
        assert forall|i: int|
            k <= i < w.len() && seq_sum(w.take(k as int)) <= c implies (wrr_scan(w, c, k) == Some(i)
                <==> seq_sum(#[trigger] w.take(i)) <= c < seq_sum(w.take(i + 1))) by {
            lemma_wrr_scan_below_sum(w, c, k + 1);
            if i > k {
                lemma_sum_monotone(w, (k + 1) as nat, i as nat);
            }
            if c < seq_sum(w.take(k as int + 1)) {
                assert(wrr_scan(w, c, k) == Some(k as int));
            } else {
                assert(wrr_scan(w, c, k) == wrr_scan(w, c, k + 1));
            }
        }
    }
}

/// Running sums of weights never decrease.
proof fn lemma_sum_monotone(w: Seq<usize>, a: nat, b: nat)
    requires
        a <= b <= w.len(),
    ensures
        seq_sum(w.take(a as int)) <= seq_sum(w.take(b as int)),
    decreases b - a,
{
    if a < b {
        lemma_sum_monotone(w, a, (b - 1) as nat);
        lemma_sum_take(w, (b - 1) as nat);
    }
}

impl LoadBalancer {
    /// With the hash algorithms, the URL chosen for a path and client address
    /// does not depend on the rotation counters or connection counts, nor on
    /// chance, and choosing it changes neither: the same client keeps being
    /// sent to the same URL.
    pub proof fn law_hash_algorithms_are_sticky(
        self,
        other: Self,
        path: Seq<char>,
        ip: Option<Seq<char>>,
        r1: nat,
        r2: nat,
    )
        requires
            self.spec_algorithm() == LoadBalancingAlgorithm::IPHash || self.spec_algorithm()
                == LoadBalancingAlgorithm::ConsistentHashing,
            other.spec_targets() == self.spec_targets(),
            other.spec_algorithm() == self.spec_algorithm(),
        ensures
            self.outcome(path, ip, r1) == other.outcome(path, ip, r2),
            forall|k: Seq<char>| self.counter_after(self.outcome(path, ip, r1), k) == self.counter(k),
            forall|u: Seq<char>|
                self.connections_after(self.outcome(path, ip, r1), u) == self.connections_of(u),
    {
        self.lemma_hash_search(other, path, ip, r1, r2, 0);
    }

    proof fn lemma_hash_search(
        self,
        other: Self,
        path: Seq<char>,
        ip: Option<Seq<char>>,
        r1: nat,
        r2: nat,
        e: nat,
    )
        requires
            self.spec_algorithm() == LoadBalancingAlgorithm::IPHash || self.spec_algorithm()
                == LoadBalancingAlgorithm::ConsistentHashing,
            other.spec_targets() == self.spec_targets(),
            other.spec_algorithm() == self.spec_algorithm(),
        ensures
            self.search(path, ip, r1, e) == other.search(path, ip, r2, e),
        decreases self.spec_targets().len() - e,
    {
        if e < self.spec_targets().len() {
            self.lemma_hash_search(other, path, ip, r1, r2, e + 1);
        }
    }
    /// Round robin hands the URLs of a prefix out in turn: after a request is
    /// sent to the URL at position `i` of its prefix, the next request for the
    /// same path goes to position `i + 1`, wrapping around at the end.
    pub proof fn law_round_robin_rotates(
        self,
        after: Self,
        path: Seq<char>,
        ip: Option<Seq<char>>,
        r1: nat,
        r2: nat,
    )
        requires
            self.spec_algorithm() == LoadBalancingAlgorithm::RoundRobin,
            after.spec_algorithm() == LoadBalancingAlgorithm::RoundRobin,
            after.spec_targets() == self.spec_targets(),
            forall|k: Seq<char>| #[trigger] after.counter(k) == self.counter_after(self.outcome(path, ip, r1), k),
            (self.outcome(path, ip, r1) is Target),
            forall|e: int| 0 <= e < self.spec_targets().len() ==> #[trigger] self.urls(e).len() <= usize::MAX,
        ensures
            ({
                let entry = self.outcome(path, ip, r1)->entry;
                let index = self.outcome(path, ip, r1)->index;
                after.outcome(path, ip, r2) == Outcome::Target {
                    entry,
                    index: (index + 1) % self.urls(entry).len() as int,
                }
            }),
    {
        self.lemma_round_robin_search(after, path, ip, r1, r2, 0);
        let entry = self.outcome(path, ip, r1)->entry;
        let len = self.urls(entry).len() as int;
        let c = self.counter(self.key(entry)) as int;
        assert(((c % len) + 1) % len == (c + 1) % len) by {
            if len == 1 {
                assert(((c % len) + 1) % len == 0);
                assert((c + 1) % len == 0);
            } else {
                vstd::arithmetic::div_mod::lemma_small_mod(1, len as nat);
                vstd::arithmetic::div_mod::lemma_add_mod_noop(c, 1, len);
            }
        }
        assert(((c + 1) % len) % len == (c + 1) % len) by {
            vstd::arithmetic::div_mod::lemma_mod_twice(c + 1, len);
        }
        assert(self.urls(entry).len() <= usize::MAX);
        assert(after.counter(self.key(entry)) as int == (c + 1) % len);
    }

    /// With round robin, a search stops at the first prefix that the path
    /// starts with, whatever the counters, and picks by that prefix's counter.
    proof fn lemma_round_robin_search(
        self,
        other: Self,
        path: Seq<char>,
        ip: Option<Seq<char>>,
        r1: nat,
        r2: nat,
        e: nat,
    )
        requires
            self.spec_algorithm() == LoadBalancingAlgorithm::RoundRobin,
            other.spec_algorithm() == LoadBalancingAlgorithm::RoundRobin,
            other.spec_targets() == self.spec_targets(),
        ensures
            (self.search(path, ip, r1, e) matches Outcome::Target { entry, index } ==> other.search(
                path,
                ip,
                r2,
                e,
            ) == Outcome::Target {
                entry,
                index: (other.counter(self.key(entry)) as nat % self.urls(entry).len()) as int,
            } && index == (self.counter(self.key(entry)) as nat % self.urls(entry).len()) as int
                && self.urls(entry).len() > 0 && e <= entry < self.spec_targets().len()),
        decreases self.spec_targets().len() - e,
    {
        if e < self.spec_targets().len() {
            self.lemma_round_robin_search(other, path, ip, r1, r2, e + 1);
        }
    }
}

impl LoadBalancer {
    /// A URL that a search picks belongs to a prefix that the path starts
    /// with; a path that starts with no prefix gets no URL; and the hash
    /// algorithms give no URL without a client address.
    pub proof fn law_target_serves_path(self, path: Seq<char>, ip: Option<Seq<char>>, r: nat)
        requires
            forall|e: int| 0 <= e < self.spec_targets().len() ==> #[trigger] self.urls(e).len() <= usize::MAX,
        ensures
            self.outcome(path, ip, r) matches Outcome::Target { entry, index } ==> 0 <= entry
                < self.spec_targets().len() && is_prefix(self.key(entry), path) && 0 <= index
                < self.urls(entry).len(),
            (forall|e: int| 0 <= e < self.spec_targets().len() ==> !is_prefix(#[trigger] self.key(e), path))
                ==> self.outcome(path, ip, r) == Outcome::NoTarget,
            (self.spec_algorithm() == LoadBalancingAlgorithm::IPHash || self.spec_algorithm()
                == LoadBalancingAlgorithm::ConsistentHashing) && ip is None ==> !(self.outcome(
                path,
                ip,
                r,
            ) is Target),
    {
        self.lemma_search_serves_path(path, ip, r, 0);
    }

    proof fn lemma_search_serves_path(self, path: Seq<char>, ip: Option<Seq<char>>, r: nat, e: nat)
        requires
            forall|e: int| 0 <= e < self.spec_targets().len() ==> #[trigger] self.urls(e).len() <= usize::MAX,
        ensures
            self.search(path, ip, r, e) matches Outcome::Target { entry, index } ==> e <= entry
                < self.spec_targets().len() && is_prefix(self.key(entry), path) && 0 <= index
                < self.urls(entry).len(),
            (forall|k: int| e <= k < self.spec_targets().len() ==> !is_prefix(#[trigger] self.key(k), path))
                ==> self.search(path, ip, r, e) == Outcome::NoTarget,
            (self.spec_algorithm() == LoadBalancingAlgorithm::IPHash || self.spec_algorithm()
                == LoadBalancingAlgorithm::ConsistentHashing) && ip is None ==> !(self.search(
                path,
                ip,
                r,
                e,
            ) is Target),
        decreases self.spec_targets().len() - e,
    {
        if e < self.spec_targets().len() {
            self.lemma_search_serves_path(path, ip, r, e + 1);
            self.lemma_step_in_range(e as int, ip, r);
        }
    }

    /// A URL position that trying one prefix gives lies within its list, and
    /// the hash algorithms pass over a prefix when no client address is known.
    proof fn lemma_step_in_range(self, e: int, ip: Option<Seq<char>>, r: nat)
        requires
            0 <= e < self.spec_targets().len(),
            self.urls(e).len() <= usize::MAX,
        ensures
            self.step(e, ip, r) matches Step::Pick(i) ==> 0 <= i < self.urls(e).len(),
            (self.spec_algorithm() == LoadBalancingAlgorithm::IPHash || self.spec_algorithm()
                == LoadBalancingAlgorithm::ConsistentHashing) && ip is None ==> self.step(e, ip, r)
                is Pass,
    {
        let len = self.urls(e).len();
        match self.spec_algorithm() {
            LoadBalancingAlgorithm::LeastConnections => {
                law_least_connections_picks_minimum(self.conn_seq(e), len);
            },
            LoadBalancingAlgorithm::WeightedLeastConnections => {
                match self.weights_index(self.key(e)) {
                    Some(j) => {
                        let ws = self.spec_weights()[j].1@;
                        if ws.len() >= len {
                            law_weighted_least_connections_picks_minimum(self.conn_seq(e), ws, len);
                        }
                    },
                    None => {},
                }
            },
            LoadBalancingAlgorithm::IPHash => {
                match ip {
                    Some(a) => {
                        if len > 0 {
                            assert((spec_hash_str(a) % len as u64) < len);
                        }
                    },
                    None => {},
                }
            },
            LoadBalancingAlgorithm::WeightedRoundRobin => {
                match self.weights_index(self.key(e)) {
                    Some(j) => {
                        lemma_wrr_scan_below_sum(self.spec_weights()[j].1@, self.counter(self.key(e)) as nat, 0);
                    },
                    None => {},
                }
            },
            _ => {},
        }
    }
}

/// A counter below the sum of the weights always finds its position.
proof fn lemma_wrr_scan_some(w: Seq<usize>, c: nat, k: nat)
    requires
        k <= w.len(),
        seq_sum(w.take(k as int)) <= c < seq_sum(w),
    ensures
        wrr_scan(w, c, k) is Some,
    decreases w.len() - k,
{
    assert(w.take(w.len() as int) =~= w);
    if k < w.len() {
        if c >= seq_sum(w.take(k as int + 1)) {
            lemma_wrr_scan_some(w, c, k + 1);
        }
    }
}

/// The outcome of trying one prefix, as the whole search's outcome.
pub open spec fn step_outcome(s: Step, e: int) -> Outcome {
    match s {
        Step::Pick(i) => Outcome::Target { entry: e, index: i },
        Step::Stop => Outcome::NoTarget,
        Step::Fail => Outcome::Fail,
        Step::Pass => Outcome::NoTarget,
    }
}

impl LoadBalancer {
    /// Whether the prefix at position `e` is the only one that `path` starts
    /// with.
    pub open spec fn only_prefix(self, path: Seq<char>, e: int) -> bool {
        &&& 0 <= e < self.spec_targets().len()
        &&& is_prefix(self.key(e), path)
        &&& forall|k: int|
            0 <= k < self.spec_targets().len() && k != e ==> !is_prefix(#[trigger] self.key(k), path)
    }

    /// Whether `next` is how the balancer stands after a search for `path`
    /// in `self`: the same prefixes, weights and algorithm, and the counters
    /// and connections that the search's outcome leaves.
    pub open spec fn handed_out(self, next: Self, path: Seq<char>, ip: Option<Seq<char>>, r: nat) -> bool {
        &&& next.spec_targets() == self.spec_targets()
        &&& next.spec_weights() == self.spec_weights()
        &&& next.spec_algorithm() == self.spec_algorithm()
        &&& forall|k: Seq<char>| #[trigger] next.counter(k) == self.counter_after(self.outcome(path, ip, r), k)
        &&& forall|u: Seq<char>|
            #[trigger] next.connections_of(u) == self.connections_after(self.outcome(path, ip, r), u)
    }

    /// With one prefix that the path starts with, the search is the step
    /// at that prefix.
    proof fn lemma_only_prefix_search(self, path: Seq<char>, ip: Option<Seq<char>>, r: nat, e0: int, e: nat)
        requires
            self.only_prefix(path, e0),
            e <= e0,
        ensures
            self.search(path, ip, r, e) == step_outcome(self.step(e0, ip, r), e0),
        decreases e0 - e,
    {
        if (e as int) < e0 {
            self.lemma_only_prefix_search(path, ip, r, e0, e + 1);
        } else {
            self.lemma_search_past(path, ip, r, e0, e + 1);
        }
    }

    proof fn lemma_search_past(self, path: Seq<char>, ip: Option<Seq<char>>, r: nat, e0: int, e: nat)
        requires
            self.only_prefix(path, e0),
            e > e0,
        ensures
            self.search(path, ip, r, e) == Outcome::NoTarget,
        decreases self.spec_targets().len() - e,
    {
        if e < self.spec_targets().len() {
            self.lemma_search_past(path, ip, r, e0, e + 1);
        }
    }
}

/// The URL position `j` places after the one that the counter of the
/// prefix at position `e0` names.
pub open spec fn rotated(b: LoadBalancer, e0: int, j: int) -> Outcome {
    Outcome::Target { entry: e0, index: (b.counter(b.key(e0)) + j) % b.urls(e0).len() as int }
}

/// Round robin over a run of requests for a path that starts with one
/// prefix only: the `j`-th request after the first gets the URL `j` places
/// further on, wrapping around; from a new balancer, whose counters are zero,
/// the `j`-th request gets the URL at position `j` modulo the number of URLs.
pub proof fn law_round_robin_over_calls(states: Seq<LoadBalancer>, path: Seq<char>, ip: Option<Seq<char>>, r: nat, e0: int)
    requires
        states.len() > 0,
        states[0].spec_algorithm() == LoadBalancingAlgorithm::RoundRobin,
        states[0].only_prefix(path, e0),
        0 < states[0].urls(e0).len() <= usize::MAX,
        forall|j: int| 0 <= j < states.len() - 1 ==> (#[trigger] states[j]).handed_out(states[j + 1], path, ip, r),
    ensures
        forall|j: int|
            0 <= j < states.len() ==> (#[trigger] states[j]).outcome(path, ip, r) == rotated(states[0], e0, j),
{
    let n = states.len() as int;
    lemma_round_robin_run(states, path, ip, r, e0, n - 1);
    assert forall|j: int| 0 <= j < states.len() implies (#[trigger] states[j]).outcome(path, ip, r)
        == rotated(states[0], e0, j) by {
        lemma_round_robin_run(states, path, ip, r, e0, j);
    }
}

proof fn lemma_round_robin_run(states: Seq<LoadBalancer>, path: Seq<char>, ip: Option<Seq<char>>, r: nat, e0: int, j: int)
    requires
        0 <= j < states.len(),
        states[0].spec_algorithm() == LoadBalancingAlgorithm::RoundRobin,
        states[0].only_prefix(path, e0),
        0 < states[0].urls(e0).len() <= usize::MAX,
        forall|j: int| 0 <= j < states.len() - 1 ==> (#[trigger] states[j]).handed_out(states[j + 1], path, ip, r),
    ensures
        states[j].spec_targets() == states[0].spec_targets(),
        states[j].spec_algorithm() == LoadBalancingAlgorithm::RoundRobin,
        states[j].counter(states[0].key(e0)) as int % states[0].urls(e0).len() as int == (states[0].counter(
            states[0].key(e0),
        ) + j) % states[0].urls(e0).len() as int,
        states[j].outcome(path, ip, r) == rotated(states[0], e0, j),
    decreases j,
{
    let len = states[0].urls(e0).len() as int;
    let k = states[0].key(e0);
    let c0 = states[0].counter(k) as int;
    if j > 0 {
        lemma_round_robin_run(states, path, ip, r, e0, j - 1);
        let prev = states[j - 1];
        assert(prev.handed_out(states[j], path, ip, r));
        assert(prev.only_prefix(path, e0)) by {
            assert forall|q: int| 0 <= q < prev.spec_targets().len() implies prev.key(q) == states[0].key(q) by {}
        }
        prev.lemma_only_prefix_search(path, ip, r, e0, 0);
        let cp = prev.counter(k) as int;
        assert(states[j].counter(k) as int == (cp + 1) % len);
        if len == 1 {
            assert(((cp + 1) % len) % len == 0);
            assert((c0 + j) % len == 0);
        } else {
            assert(((cp + 1) % len) % len == (cp + 1) % len) by {
                vstd::arithmetic::div_mod::lemma_mod_twice(cp + 1, len);
            }
            assert((cp + 1) % len == ((cp % len) + 1) % len) by {
                vstd::arithmetic::div_mod::lemma_add_mod_noop(cp, 1, len);
                vstd::arithmetic::div_mod::lemma_small_mod(1, len as nat);
            }
            assert((((c0 + j - 1) % len) + 1) % len == (c0 + j) % len) by {
                vstd::arithmetic::div_mod::lemma_add_mod_noop(c0 + j - 1, 1, len);
                vstd::arithmetic::div_mod::lemma_small_mod(1, len as nat);
                vstd::arithmetic::div_mod::lemma_mod_twice(c0 + j - 1, len);
            }
        }
    }
    assert(states[j].only_prefix(path, e0)) by {
        assert forall|q: int| 0 <= q < states[j].spec_targets().len() implies states[j].key(q) == states[0].key(q) by {}
    }
    states[j].lemma_only_prefix_search(path, ip, r, e0, 0);
}

/// Whether `o` names the URL at a position of the prefix at `e0` whose band
/// of running weight sums in `w` holds `c`.
pub open spec fn in_band(o: Outcome, e0: int, w: Seq<usize>, c: nat) -> bool {
    &&& o matches Outcome::Target { entry, index }
    &&& o->entry == e0
    &&& 0 <= o->index < w.len()
    &&& seq_sum(w.take(o->index)) <= c < seq_sum(w.take(o->index + 1))
}

/// Weighted round robin over a run of requests for a path that starts with
/// one prefix only, with weights `w` whose sum `S` is positive: the `j`-th
/// request after the first gets the URL at the position whose band of the
/// running weight sums holds `(c + j) % S`, where `c` is the first counter;
/// so every `S` requests in a row hand each URL out as often as its weight.
pub proof fn law_weighted_round_robin_over_calls(
    states: Seq<LoadBalancer>,
    path: Seq<char>,
    ip: Option<Seq<char>>,
    r: nat,
    e0: int,
    wi: int,
)
    requires
        states.len() > 0,
        states[0].spec_algorithm() == LoadBalancingAlgorithm::WeightedRoundRobin,
        states[0].only_prefix(path, e0),
        states[0].weights_index(states[0].key(e0)) == Some(wi),
        states[0].spec_weights()[wi].1@.len() == states[0].urls(e0).len(),
        seq_sum(states[0].spec_weights()[wi].1@) > 0,
        states[0].counter(states[0].key(e0)) < seq_sum(states[0].spec_weights()[wi].1@) <= usize::MAX,
        forall|j: int| 0 <= j < states.len() - 1 ==> (#[trigger] states[j]).handed_out(states[j + 1], path, ip, r),
    ensures
        forall|j: int|
            0 <= j < states.len() ==> in_band(
                (#[trigger] states[j]).outcome(path, ip, r),
                e0,
                states[0].spec_weights()[wi].1@,
                ((states[0].counter(states[0].key(e0)) + j) % (seq_sum(states[0].spec_weights()[wi].1@) as int)) as nat,
            ),
{
    assert forall|j: int| 0 <= j < states.len() implies in_band(
        (#[trigger] states[j]).outcome(path, ip, r),
        e0,
        states[0].spec_weights()[wi].1@,
        ((states[0].counter(states[0].key(e0)) + j) % (seq_sum(states[0].spec_weights()[wi].1@) as int)) as nat,
    ) by {
        lemma_weighted_round_robin_run(states, path, ip, r, e0, wi, j);
        let w = states[0].spec_weights()[wi].1@;
        vstd::arithmetic::div_mod::lemma_mod_bound(
            states[0].counter(states[0].key(e0)) + j,
            seq_sum(w) as int,
        );
        lemma_weighted_round_robin_once(states[j], path, ip, r, e0, wi);
        let c = (states[0].counter(states[0].key(e0)) + j) % (seq_sum(w) as int);
        let i = wrr_scan(w, c as nat, 0)->0;
        law_weighted_round_robin_interval(w, c as nat, i);
    }
}

/// Counting on by one modulo `m` from a remainder is counting on by one.
proof fn lemma_mod_step(a: int, m: int)
    requires
        m > 0,
        a >= 0,
    ensures
        ((a % m) + 1) % m == (a + 1) % m,
{
    if m == 1 {
        assert((a + 1) % m == 0);
        assert(((a % m) + 1) % m == 0);
    } else {
        vstd::arithmetic::div_mod::lemma_add_mod_noop(a, 1, m);
        vstd::arithmetic::div_mod::lemma_small_mod(1, m as nat);
        vstd::arithmetic::div_mod::lemma_mod_twice(a, m);
    }
}

/// One weighted round robin request for a path that starts with one prefix
/// only: the URL in the band of the counter, and the counter moves on by one.
proof fn lemma_weighted_round_robin_once(
    b: LoadBalancer,
    path: Seq<char>,
    ip: Option<Seq<char>>,
    r: nat,
    e0: int,
    wi: int,
)
    requires
        b.spec_algorithm() == LoadBalancingAlgorithm::WeightedRoundRobin,
        b.only_prefix(path, e0),
        b.weights_index(b.key(e0)) == Some(wi),
        b.spec_weights()[wi].1@.len() == b.urls(e0).len(),
        b.counter(b.key(e0)) < seq_sum(b.spec_weights()[wi].1@) <= usize::MAX,
    ensures
        wrr_scan(b.spec_weights()[wi].1@, b.counter(b.key(e0)) as nat, 0) matches Some(i) && 0 <= i
            < b.urls(e0).len() && b.outcome(path, ip, r) == (Outcome::Target { entry: e0, index: i }),
        b.counter_after(b.outcome(path, ip, r), b.key(e0)) as int == (b.counter(b.key(e0)) + 1) % (
        seq_sum(b.spec_weights()[wi].1@) as int),
{
    let w = b.spec_weights()[wi].1@;
    let c = b.counter(b.key(e0)) as nat;
    assert(w.take(0) =~= Seq::<usize>::empty());
    lemma_wrr_scan_some(w, c, 0);
    lemma_wrr_scan_below_sum(w, c, 0);
    b.lemma_only_prefix_search(path, ip, r, e0, 0);
}

/// One weighted round robin request moves the counter of the prefix on by
/// one, modulo the sum of its weights.
proof fn lemma_weighted_round_robin_transition(
    first: LoadBalancer,
    prev: LoadBalancer,
    next: LoadBalancer,
    path: Seq<char>,
    ip: Option<Seq<char>>,
    r: nat,
    e0: int,
    wi: int,
)
    requires
        first.spec_algorithm() == LoadBalancingAlgorithm::WeightedRoundRobin,
        first.only_prefix(path, e0),
        first.weights_index(first.key(e0)) == Some(wi),
        first.spec_weights()[wi].1@.len() == first.urls(e0).len(),
        prev.spec_targets() == first.spec_targets(),
        prev.spec_weights() == first.spec_weights(),
        prev.spec_algorithm() == first.spec_algorithm(),
        prev.counter(first.key(e0)) < seq_sum(first.spec_weights()[wi].1@) <= usize::MAX,
        prev.handed_out(next, path, ip, r),
    ensures
        next.spec_targets() == first.spec_targets(),
        next.spec_weights() == first.spec_weights(),
        next.spec_algorithm() == first.spec_algorithm(),
        next.counter(first.key(e0)) as int == (prev.counter(first.key(e0)) + 1) % (seq_sum(
            first.spec_weights()[wi].1@,
        ) as int),
{
    assert(prev.only_prefix(path, e0)) by {
        assert forall|q: int| 0 <= q < prev.spec_targets().len() implies prev.key(q) == first.key(q) by {}
    }
    assert(prev.key(e0) == first.key(e0));
    assert(prev.weights_index(prev.key(e0)) == Some(wi));
    lemma_weighted_round_robin_once(prev, path, ip, r, e0, wi);
    assert(next.counter(first.key(e0)) == prev.counter_after(prev.outcome(path, ip, r), first.key(e0)));
}

proof fn lemma_weighted_round_robin_run(
    states: Seq<LoadBalancer>,
    path: Seq<char>,
    ip: Option<Seq<char>>,
    r: nat,
    e0: int,
    wi: int,
    j: int,
)
    requires
        0 <= j < states.len(),
        states[0].spec_algorithm() == LoadBalancingAlgorithm::WeightedRoundRobin,
        states[0].only_prefix(path, e0),
        states[0].weights_index(states[0].key(e0)) == Some(wi),
        states[0].spec_weights()[wi].1@.len() == states[0].urls(e0).len(),
        seq_sum(states[0].spec_weights()[wi].1@) > 0,
        states[0].counter(states[0].key(e0)) < seq_sum(states[0].spec_weights()[wi].1@) <= usize::MAX,
        forall|j: int| 0 <= j < states.len() - 1 ==> (#[trigger] states[j]).handed_out(states[j + 1], path, ip, r),
    ensures
        states[j].spec_targets() == states[0].spec_targets(),
        states[j].spec_weights() == states[0].spec_weights(),
        states[j].spec_algorithm() == LoadBalancingAlgorithm::WeightedRoundRobin,
        states[j].counter(states[0].key(e0)) as int == (states[0].counter(states[0].key(e0)) + j)
            % (seq_sum(states[0].spec_weights()[wi].1@) as int),
        states[j].only_prefix(path, e0),
    decreases j,
{
    let w = states[0].spec_weights()[wi].1@;
    let total = seq_sum(w) as int;
    let k = states[0].key(e0);
    let c0 = states[0].counter(k) as int;
    if j > 0 {
        lemma_weighted_round_robin_run(states, path, ip, r, e0, wi, j - 1);
        vstd::arithmetic::div_mod::lemma_mod_bound(c0 + j - 1, total);
        assert(states[j - 1].handed_out(states[j], path, ip, r));
        lemma_weighted_round_robin_transition(states[0], states[j - 1], states[j], path, ip, r, e0, wi);
        lemma_mod_step(c0 + j - 1, total);
    } else {
        vstd::arithmetic::div_mod::lemma_small_mod(c0 as nat, total as nat);
    }
    assert(states[j].only_prefix(path, e0)) by {
        assert forall|q: int| 0 <= q < states[j].spec_targets().len() implies states[j].key(q) == states[0].key(q) by {}
    }
}

/// How many of the first `j` searches of a run returned the URL `u`.
pub open spec fn times_returned(
    states: Seq<LoadBalancer>,
    path: Seq<char>,
    ip: Option<Seq<char>>,
    r: nat,
    j: int,
    u: Seq<char>,
) -> nat
    decreases j,
{
    if j <= 0 {
        0
    } else {
        times_returned(states, path, ip, r, j - 1, u) + if states[j - 1].chosen_url(
            states[j - 1].outcome(path, ip, r),
        ) == Some(u) {
            1nat
        } else {
            0nat
        }
    }
}

/// Whether `o` is what least connections gives for the prefix at `e0`: the
/// first of its URLs with the fewest connections, or no URL when every count
/// is at its maximum.
pub open spec fn least_loaded(b: LoadBalancer, o: Outcome, e0: int) -> bool {
    let urls = b.urls(e0);
    match o {
        Outcome::Target { entry, index } => entry == e0 && 0 <= index < urls.len() && (forall|k: int|
            0 <= k < urls.len() ==> b.connections_of(urls[index]@) <= b.connections_of(
                (#[trigger] urls[k])@,
            )) && (forall|k: int|
            0 <= k < index ==> b.connections_of(urls[index]@) < b.connections_of(
                (#[trigger] urls[k])@,
            )),
        Outcome::NoTarget => forall|k: int|
            0 <= k < urls.len() ==> b.connections_of((#[trigger] urls[k])@) == usize::MAX,
        Outcome::Fail => false,
    }
}

/// Least connections over a run of requests for a path that starts with one
/// prefix only: each URL's count is its first count plus the number of
/// earlier requests that were sent to it, and each request goes to the first
/// URL of the prefix with the fewest connections so counted.
pub proof fn law_least_connections_over_calls(
    states: Seq<LoadBalancer>,
    path: Seq<char>,
    ip: Option<Seq<char>>,
    r: nat,
    e0: int,
)
    requires
        states.len() > 0,
        states[0].spec_algorithm() == LoadBalancingAlgorithm::LeastConnections,
        states[0].only_prefix(path, e0),
        forall|j: int| 0 <= j < states.len() - 1 ==> (#[trigger] states[j]).handed_out(states[j + 1], path, ip, r),
    ensures
        forall|j: int, u: Seq<char>|
            0 <= j < states.len() ==> #[trigger] states[j].connections_of(u) == states[0].connections_of(u)
                + times_returned(states, path, ip, r, j, u),
        forall|j: int| 0 <= j < states.len() ==> least_loaded(states[j], (#[trigger] states[j]).outcome(path, ip, r), e0),
{
    assert forall|j: int, u: Seq<char>| 0 <= j < states.len() implies #[trigger] states[j].connections_of(u)
        == states[0].connections_of(u) + times_returned(states, path, ip, r, j, u) by {
        lemma_least_connections_run(states, path, ip, r, e0, j);
    }
    assert forall|j: int| 0 <= j < states.len() implies least_loaded(states[j], (#[trigger] states[j]).outcome(path, ip, r), e0) by {
        lemma_least_connections_run(states, path, ip, r, e0, j);
        lemma_least_connections_once(states[j], path, ip, r, e0);
    }
}

/// One least-connections request for a path that starts with one prefix
/// only.
proof fn lemma_least_connections_once(b: LoadBalancer, path: Seq<char>, ip: Option<Seq<char>>, r: nat, e0: int)
    requires
        b.spec_algorithm() == LoadBalancingAlgorithm::LeastConnections,
        b.only_prefix(path, e0),
    ensures
        least_loaded(b, b.outcome(path, ip, r), e0),
{
    b.lemma_only_prefix_search(path, ip, r, e0, 0);
    let cs = b.conn_seq(e0);
    let urls = b.urls(e0);
    let n = urls.len();
    law_least_connections_picks_minimum(cs, n);
    match lc_scan(cs, n) {
        Some(i) => {
            assert forall|k: int| 0 <= k < n implies b.connections_of(urls[i]@) <= b.connections_of(
                (#[trigger] urls[k])@,
            ) by {
                assert(cs[k] == b.connections_of(urls[k]@));
            }
            assert forall|k: int| 0 <= k < i implies b.connections_of(urls[i]@) < b.connections_of(
                (#[trigger] urls[k])@,
            ) by {
                assert(cs[k] == b.connections_of(urls[k]@));
            }
        },
        None => {
            assert forall|k: int| 0 <= k < n implies b.connections_of((#[trigger] urls[k])@) == usize::MAX by {
                assert(cs[k] == b.connections_of(urls[k]@));
            }
        },
    }
}

proof fn lemma_least_connections_run(
    states: Seq<LoadBalancer>,
    path: Seq<char>,
    ip: Option<Seq<char>>,
    r: nat,
    e0: int,
    j: int,
)
    requires
        0 <= j < states.len(),
        counts_connections(states[0].spec_algorithm()),
        states[0].only_prefix(path, e0),
        forall|j: int| 0 <= j < states.len() - 1 ==> (#[trigger] states[j]).handed_out(states[j + 1], path, ip, r),
    ensures
        states[j].spec_targets() == states[0].spec_targets(),
        states[j].spec_weights() == states[0].spec_weights(),
        states[j].spec_algorithm() == states[0].spec_algorithm(),
        states[j].only_prefix(path, e0),
        forall|u: Seq<char>|
            #[trigger] states[j].connections_of(u) == states[0].connections_of(u) + times_returned(
                states,
                path,
                ip,
                r,
                j,
                u,
            ),
    decreases j,
{
    if j > 0 {
        lemma_least_connections_run(states, path, ip, r, e0, j - 1);
        let prev = states[j - 1];
        assert(prev.handed_out(states[j], path, ip, r));
        lemma_connections_once(prev, path, ip, r, e0);
        assert forall|u: Seq<char>| #[trigger] states[j].connections_of(u) == states[0].connections_of(u)
            + times_returned(states, path, ip, r, j, u) by {
            assert(states[j].connections_of(u) == prev.connections_after(prev.outcome(path, ip, r), u));
        }
    }
    assert(states[j].only_prefix(path, e0)) by {
        assert forall|q: int| 0 <= q < states[j].spec_targets().len() implies states[j].key(q) == states[0].key(q) by {}
    }
}

/// Whether the algorithm counts the connections it hands out.
pub open spec fn counts_connections(a: LoadBalancingAlgorithm) -> bool {
    a == LoadBalancingAlgorithm::LeastConnections || a == LoadBalancingAlgorithm::WeightedLeastConnections
}

/// One request with an algorithm that counts connections, for a path that
/// starts with one prefix only: the URL it returns gains one connection.
proof fn lemma_connections_once(b: LoadBalancer, path: Seq<char>, ip: Option<Seq<char>>, r: nat, e0: int)
    requires
        counts_connections(b.spec_algorithm()),
        b.only_prefix(path, e0),
    ensures
        forall|u: Seq<char>|
            #[trigger] b.connections_after(b.outcome(path, ip, r), u) == b.connections_of(u) + if b.chosen_url(
                b.outcome(path, ip, r),
            ) == Some(u) {
                1int
            } else {
                0int
            },
{
    b.lemma_only_prefix_search(path, ip, r, e0, 0);
    let cs = b.conn_seq(e0);
    let n = b.urls(e0).len();
    if b.spec_algorithm() == LoadBalancingAlgorithm::LeastConnections {
        law_least_connections_picks_minimum(cs, n);
        match lc_scan(cs, n) {
            Some(i) => assert(cs[i] == b.connections_of(b.urls(e0)[i]@)),
            None => {},
        }
    } else {
        match b.weights_index(b.key(e0)) {
            Some(j) => {
                let ws = b.spec_weights()[j].1@;
                if ws.len() >= n {
                    law_weighted_least_connections_picks_minimum(cs, ws, n);
                    match wlc_scan(cs, ws, n) {
                        Some(i) => assert(cs[i] == b.connections_of(b.urls(e0)[i]@)),
                        None => {},
                    }
                }
            },
            None => {},
        }
    }
}

/// Whether `o` is what weighted least connections gives for the prefix at
/// `e0` with weights `ws`: a URL of positive weight whose ratio of
/// connections to weight is smallest among the URLs of positive weight.
pub open spec fn least_weighted_load(b: LoadBalancer, o: Outcome, e0: int, ws: Seq<usize>) -> bool {
    let urls = b.urls(e0);
    match o {
        Outcome::Target { entry, index } => entry == e0 && 0 <= index < urls.len() && ws[index] > 0
            && forall|k: int|
            0 <= k < urls.len() && #[trigger] ws[k] > 0 ==> b.connections_of(urls[index]@) * ws[k]
                <= b.connections_of(urls[k]@) * ws[index],
        Outcome::NoTarget => forall|k: int| 0 <= k < urls.len() ==> #[trigger] ws[k] == 0,
        Outcome::Fail => true,
    }
}

/// Weighted least connections over a run of requests for a path that starts
/// with one prefix only, with weights `ws` for its URLs: each URL's count is
/// its first count plus the number of earlier requests sent to it, and each
/// request goes to a URL of positive weight whose ratio of connections so
/// counted to weight is smallest, or to none when every weight is zero (a
/// search that cannot be carried out is left open).
pub proof fn law_weighted_least_connections_over_calls(
    states: Seq<LoadBalancer>,
    path: Seq<char>,
    ip: Option<Seq<char>>,
    r: nat,
    e0: int,
    wi: int,
)
    requires
        states.len() > 0,
        states[0].spec_algorithm() == LoadBalancingAlgorithm::WeightedLeastConnections,
        states[0].only_prefix(path, e0),
        states[0].weights_index(states[0].key(e0)) == Some(wi),
        states[0].spec_weights()[wi].1@.len() >= states[0].urls(e0).len(),
        forall|j: int| 0 <= j < states.len() - 1 ==> (#[trigger] states[j]).handed_out(states[j + 1], path, ip, r),
    ensures
        forall|j: int, u: Seq<char>|
            0 <= j < states.len() ==> #[trigger] states[j].connections_of(u) == states[0].connections_of(u)
                + times_returned(states, path, ip, r, j, u),
        forall|j: int|
            0 <= j < states.len() ==> least_weighted_load(
                states[j],
                (#[trigger] states[j]).outcome(path, ip, r),
                e0,
                states[0].spec_weights()[wi].1@,
            ),
{
    assert forall|j: int, u: Seq<char>| 0 <= j < states.len() implies #[trigger] states[j].connections_of(u)
        == states[0].connections_of(u) + times_returned(states, path, ip, r, j, u) by {
        lemma_least_connections_run(states, path, ip, r, e0, j);
    }
    assert forall|j: int| 0 <= j < states.len() implies least_weighted_load(
        states[j],
        (#[trigger] states[j]).outcome(path, ip, r),
        e0,
        states[0].spec_weights()[wi].1@,
    ) by {
        lemma_least_connections_run(states, path, ip, r, e0, j);
        lemma_weighted_least_connections_once(states[j], path, ip, r, e0, wi);
    }
}

/// One weighted least-connections request for a path that starts with one
/// prefix only.
proof fn lemma_weighted_least_connections_once(
    b: LoadBalancer,
    path: Seq<char>,
    ip: Option<Seq<char>>,
    r: nat,
    e0: int,
    wi: int,
)
    requires
        b.spec_algorithm() == LoadBalancingAlgorithm::WeightedLeastConnections,
        b.only_prefix(path, e0),
        b.weights_index(b.key(e0)) == Some(wi),
        b.spec_weights()[wi].1@.len() >= b.urls(e0).len(),
    ensures
        least_weighted_load(b, b.outcome(path, ip, r), e0, b.spec_weights()[wi].1@),
{
    b.lemma_only_prefix_search(path, ip, r, e0, 0);
    let cs = b.conn_seq(e0);
    let ws = b.spec_weights()[wi].1@;
    let urls = b.urls(e0);
    let n = urls.len();
    law_weighted_least_connections_picks_minimum(cs, ws, n);
    match wlc_scan(cs, ws, n) {
        Some(i) => {
            assert forall|k: int| 0 <= k < n && #[trigger] ws[k] > 0 implies b.connections_of(urls[i]@)
                * ws[k] <= b.connections_of(urls[k]@) * ws[i] by {
                assert(cs[k] == b.connections_of(urls[k]@));
                assert(cs[i] == b.connections_of(urls[i]@));
            }
        },
        None => {},
    }
}

} // verus!
