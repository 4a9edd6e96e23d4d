//! Counters keyed by strings; a key that was never set counts zero.
use vstd::prelude::*;
use crate::text::str_eq;

verus! {

/// Counters keyed by strings, each key held once.
#[derive(Debug)]
pub struct Counts {
    entries: Vec<(String, usize)>,
}

/// Whether no key occurs twice.
pub open spec fn keys_distinct(s: Seq<(String, usize)>) -> bool {
    forall|i: int, j: int| 0 <= i < j < s.len() ==> s[i].0@ != s[j].0@
}

/// The count held for `k`: the entry with that key, or zero.
pub open spec fn count_in(s: Seq<(String, usize)>, k: Seq<char>) -> usize {
    if exists|i: int| 0 <= i < s.len() && s[i].0@ == k {
        s[choose|i: int| 0 <= i < s.len() && s[i].0@ == k].1
    } else {
        0
    }
}

impl Counts {
    #[verifier::type_invariant]
    pub closed spec fn inv(self) -> bool {
        keys_distinct(self.entries@)
    }

    /// The count of each key.
    pub closed spec fn get_spec(self, k: Seq<char>) -> usize {
        count_in(self.entries@, k)
    }

    /// No key counts anything.
    pub fn new() -> (c: Counts)
        ensures
            forall|k: Seq<char>| c.get_spec(k) == 0,
    {
        Counts { entries: Vec::new() }
    }

    /// The position of the entry for `k`, if there is one.
    fn find(&self, k: &str) -> (r: Option<usize>)
        ensures
            match r {
                Some(i) => i < self.entries@.len() && self.entries@[i as int].0@ == k@,
                None => forall|i: int| 0 <= i < self.entries@.len() ==> self.entries@[i].0@ != k@,
            },
    {
        let mut i: usize = 0;
        while i < self.entries.len()
            invariant
                i <= self.entries@.len(),
                forall|j: int| 0 <= j < i ==> self.entries@[j].0@ != k@,
            decreases self.entries@.len() - i,
        {
            if str_eq(self.entries[i].0.as_str(), k) {
                return Some(i);
            }
            i = i + 1;
        }
        None
    }

    /// The count of `k`.
    pub fn get(&self, k: &str) -> (n: usize)
        ensures
            n == self.get_spec(k@),
    {
        proof {
            use_type_invariant(self);
        }
        match self.find(k) {
            Some(i) => {
                proof {
                    let c = choose|j: int| 0 <= j < self.entries@.len() && self.entries@[j].0@ == k@;
                    assert(c == i);
                }
                self.entries[i].1
            },
            None => 0,
        }
    }

    /// Sets the count of `k` to `n`, leaving every other count as it was.
    pub fn set(&mut self, k: &str, n: usize)
        ensures
            final(self).get_spec(k@) == n,
            forall|k2: Seq<char>| k2 != k@ ==> final(self).get_spec(k2) == old(self).get_spec(k2),
    {
        proof {
            use_type_invariant(&*self);
        }
        let ghost old_entries = self.entries@;
        let found = self.find(k);
        let ghost idx: int = match found {
            Some(i) => i as int,
            None => old_entries.len() as int,
        };
        let mut entries: Vec<(String, usize)> = Vec::new();
        std::mem::swap(&mut entries, &mut self.entries);
        match found {
            Some(i) => {
                let key = entries[i].0.clone();
                proof {
                    let e = old_entries.update(i as int, (key, n));
                    assert(keys_distinct(e)) by {
                        assert forall|a: int, b: int| 0 <= a < b < e.len() implies e[a].0@ != e[b].0@ by {
                            assert(old_entries[a].0@ != old_entries[b].0@);
                        }
                    }
                }
                entries.set(i, (key, n));
            },
            None => {
                let key = k.to_owned();
                proof {
                    let e = old_entries.push((key, n));
                    assert(keys_distinct(e)) by {
                        assert forall|a: int, b: int| 0 <= a < b < e.len() implies e[a].0@ != e[b].0@ by {
                            if b == old_entries.len() {
                                assert(old_entries[a].0@ != k@);
                            } else {
                                assert(old_entries[a].0@ != old_entries[b].0@);
                            }
                        }
                    }
                }
                entries.push((key, n));
            },
        }
        self.entries = entries;
        proof {
            let e = self.entries@;
            assert(e[idx].0@ == k@);
            assert(exists|j: int| 0 <= j < e.len() && e[j].0@ == k@);
            let c = choose|j: int| 0 <= j < e.len() && e[j].0@ == k@;
            assert(count_in(e, k@) == n) by {
                assert(e[c].1 == n);
            }
            assert forall|k2: Seq<char>| k2 != k@ implies count_in(e, k2) == count_in(
                old_entries,
                k2,
            ) by {
                if exists|j: int| 0 <= j < old_entries.len() && old_entries[j].0@ == k2 {
                    let j = choose|j: int| 0 <= j < old_entries.len() && old_entries[j].0@ == k2;
                    assert(e[j].0@ == k2);
                    let j2 = choose|j: int| 0 <= j < e.len() && e[j].0@ == k2;
                    assert(j2 == j);
                } else {
                    assert forall|j: int| 0 <= j < e.len() implies e[j].0@ != k2 by {
                        if j < old_entries.len() {
                        }
                    }
                }
            }
        }
    }
}

} // verus!
