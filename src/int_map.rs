//! A map from integers to integers, kept as a list sorted by key.
use vstd::prelude::*;

verus! {

/// Keys strictly increase along the list.
pub open spec fn sorted_keys(s: Seq<(i32, i32)>) -> bool {
    forall|i: int, j: int| 0 <= i < j < s.len() ==> s[i].0 < s[j].0
}

/// The value under `k`, if any.
pub open spec fn lookup(s: Seq<(i32, i32)>, k: i32) -> Option<i32> {
    if exists|i: int| 0 <= i < s.len() && s[i].0 == k {
        Some(s[choose|i: int| 0 <= i < s.len() && s[i].0 == k].1)
    } else {
        None
    }
}

pub proof fn lemma_lookup_at(s: Seq<(i32, i32)>, i: int)
    requires
        sorted_keys(s),
        0 <= i < s.len(),
    ensures
        lookup(s, s[i].0) == Some(s[i].1),
{
    let k = s[i].0;
    assert(exists|j: int| 0 <= j < s.len() && s[j].0 == k);
    let c = choose|j: int| 0 <= j < s.len() && s[j].0 == k;
    if c < i {
        assert(s[c].0 < s[i].0);
    } else if c > i {
        assert(s[i].0 < s[c].0);
    }
}

/// A map from integers to integers whose entries are listed in key order.
#[derive(Debug)]
pub struct IntMap {
    entries: Vec<(i32, i32)>,
}

impl View for IntMap {
    type V = Seq<(i32, i32)>;

    closed spec fn view(&self) -> Seq<(i32, i32)> {
        self.entries@
    }
}

impl IntMap {
    pub open spec fn wf(&self) -> bool {
        sorted_keys(self@)
    }

    /// An empty map.
    pub fn new() -> (r: IntMap)
        ensures
            r.wf(),
            r@ == Seq::<(i32, i32)>::empty(),
    {
        IntMap { entries: Vec::new() }
    }

    /// Number of keys.
    pub fn len(&self) -> (r: usize)
        ensures
            r == self@.len(),
    {
        self.entries.len()
    }

    /// The entries, in key order.
    pub fn entries(&self) -> (r: &Vec<(i32, i32)>)
        ensures
            r@ == self@,
    {
        &self.entries
    }

    /// The value under `k`, if any.
    pub fn get(&self, k: i32) -> (r: Option<i32>)
        requires
            self.wf(),
        ensures
            r == lookup(self@, k),
    {
        let n = self.entries.len();
        for i in 0..n
            invariant
                n == self@.len(),
                self.wf(),
                forall|j: int| 0 <= j < i ==> self@[j].0 != k,
        {
            if self.entries[i].0 == k {
                proof {
                    lemma_lookup_at(self@, i as int);
                }
                return Some(self.entries[i].1);
            }
        }
        None
    }

    /// Sets the value under `k` to `v`, keeping the keys in order.
    pub fn insert(&mut self, k: i32, v: i32)
        requires
            old(self).wf(),
        ensures
            final(self).wf(),
            lookup(final(self)@, k) == Some(v),
            forall|kk: i32| kk != k ==> lookup(final(self)@, kk) == lookup(old(self)@, kk),
    {
        let n = self.entries.len();
        let mut p: usize = 0;
        while p < n && self.entries[p].0 < k
            invariant
                n == self@.len(),
                p <= n,
                forall|j: int| 0 <= j < p ==> self@[j].0 < k,
            decreases n - p,
        {
            p = p + 1;
        }
        let ghost before = self@;
        if p < n && self.entries[p].0 == k {
            self.entries.set(p, (k, v));
            proof {
                assert(sorted_keys(self@));
                lemma_lookup_at(self@, p as int);
                assert forall|kk: i32| kk != k implies lookup(self@, kk) == lookup(before, kk) by {
                    if exists|i: int| 0 <= i < before.len() && before[i].0 == kk {
                        let i = choose|i: int| 0 <= i < before.len() && before[i].0 == kk;
                        lemma_lookup_at(before, i);
                        lemma_lookup_at(self@, i);
                    } else {
                        assert(!exists|i: int| 0 <= i < self@.len() && self@[i].0 == kk) by {
                            if exists|i: int| 0 <= i < self@.len() && self@[i].0 == kk {
                                let i = choose|i: int| 0 <= i < self@.len() && self@[i].0 == kk;
                                assert(before[i].0 == kk);
                            }
                        }
                    }
                }
            }
        } else {
            self.entries.insert(p, (k, v));
            proof {
                assert(self@ =~= before.insert(p as int, (k, v)));
                assert forall|i: int, j: int| 0 <= i < j < self@.len() implies self@[i].0 < self@[j].0 by {
                    if j < p {
                    } else if i > p {
                        assert(self@[i] == before[i - 1] && self@[j] == before[j - 1]);
                    } else if i == p {
                        assert(self@[j] == before[j - 1]);
                        assert(before[p as int].0 >= k);
                    } else if j == p {
                    } else {
                        assert(self@[j] == before[j - 1]);
                    }
                }
                lemma_lookup_at(self@, p as int);
                assert forall|kk: i32| kk != k implies lookup(self@, kk) == lookup(before, kk) by {
                    if exists|i: int| 0 <= i < before.len() && before[i].0 == kk {
                        let i = choose|i: int| 0 <= i < before.len() && before[i].0 == kk;
                        lemma_lookup_at(before, i);
                        if i < p {
                            lemma_lookup_at(self@, i);
                        } else {
                            assert(self@[i + 1] == before[i]);
                            lemma_lookup_at(self@, i + 1);
                        }
                    } else {
                        assert(!exists|i: int| 0 <= i < self@.len() && self@[i].0 == kk) by {
                            if exists|i: int| 0 <= i < self@.len() && self@[i].0 == kk {
                                let i = choose|i: int| 0 <= i < self@.len() && self@[i].0 == kk;
                                if i < p {
                                    assert(before[i].0 == kk);
                                } else if i > p {
                                    assert(before[i - 1].0 == kk);
                                }
                            }
                        }
                    }
                }
            }
        }
    }
}

} // verus!
