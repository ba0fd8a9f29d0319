//! An ordered map from `u64` keys to values, kept as a vector of entries
//! sorted by strictly increasing key.  It stands in for the tree maps and
//! hash maps of the heap data model, and additionally proves the ordering
//! queries (first, last, pop-first) that the engine's scheduler relies on.

use vstd::prelude::*;

verus! {

/// The value bound to `k` in the entry sequence `s`, if any.
pub open spec fn assoc_get<V>(s: Seq<(u64, V)>, k: u64) -> Option<V>
    decreases s.len(),
{
    if s.len() == 0 {
        None
    } else if s[0].0 == k {
        Some(s[0].1)
    } else {
        assoc_get(s.drop_first(), k)
    }
}

/// Entry keys strictly increase along the sequence.
pub open spec fn entries_sorted<V>(s: Seq<(u64, V)>) -> bool {
    forall|i: int, j: int| 0 <= i < j < s.len() ==> s[i].0 < s[j].0
}

/// If some entry holds key `k`, `assoc_get` finds one.
proof fn lemma_assoc_get_present<V>(s: Seq<(u64, V)>, i: int)
    requires
        0 <= i < s.len(),
        entries_sorted(s),
    ensures
        assoc_get(s, s[i].0) is Some,
        i == 0 ==> assoc_get(s, s[i].0) == Some(s[i].1),
    decreases s.len(),
{
    if i > 0 {
        assert(s[0].0 < s[i].0);
        assert(s.drop_first()[i - 1] == s[i]);
        lemma_assoc_get_present(s.drop_first(), i - 1);
    }
}

/// With distinct keys the entry found is exactly the one at `i`.
proof fn lemma_assoc_get_at<V>(s: Seq<(u64, V)>, i: int)
    requires
        0 <= i < s.len(),
        entries_sorted(s),
    ensures
        assoc_get(s, s[i].0) == Some(s[i].1),
    decreases s.len(),
{
    if i > 0 {
        assert(s[0].0 < s[i].0);
        assert(s.drop_first()[i - 1] == s[i]);
        lemma_assoc_get_at(s.drop_first(), i - 1);
    }
}

/// If no entry holds key `k`, `assoc_get` reports `None`.
proof fn lemma_assoc_get_absent<V>(s: Seq<(u64, V)>, k: u64)
    requires
        forall|i: int| 0 <= i < s.len() ==> s[i].0 != k,
    ensures
        assoc_get(s, k) is None,
    decreases s.len(),
{
    if s.len() > 0 {
        assert(forall|i: int|
            0 <= i < s.drop_first().len() ==> #[trigger] s.drop_first()[i].0 == s[i + 1].0);
        lemma_assoc_get_absent(s.drop_first(), k);
    }
}

/// A found binding is witnessed by an index.
proof fn lemma_assoc_get_witness<V>(s: Seq<(u64, V)>, k: u64) -> (i: int)
    requires
        assoc_get(s, k) is Some,
    ensures
        0 <= i < s.len(),
        s[i].0 == k,
        s[i].1 == assoc_get(s, k)->Some_0,
    decreases s.len(),
{
    if s[0].0 == k {
        0
    } else {
        let j = lemma_assoc_get_witness(s.drop_first(), k);
        assert(s.drop_first()[j] == s[j + 1]);
        j + 1
    }
}

/// Ordered map from `u64` keys to `V`, with a `Map` view.
pub struct OrdMap<V> {
    entries: Vec<(u64, V)>,
}

impl<V> View for OrdMap<V> {
    type V = Map<u64, V>;

    closed spec fn view(&self) -> Map<u64, V> {
        Map::new(
            |k: u64| assoc_get(self.entries@, k) is Some,
            |k: u64| assoc_get(self.entries@, k)->Some_0,
        )
    }
}

impl<V> OrdMap<V> {
    /// Well-formedness: the entry keys strictly increase.
    pub closed spec fn wf(self) -> bool {
        entries_sorted(self.entries@)
    }

    /// Number of entries held.
    pub closed spec fn spec_len(self) -> nat {
        self.entries@.len()
    }

    /// The smallest key (meaningful only when the map is not empty).
    pub closed spec fn spec_first_key(self) -> u64 {
        self.entries@[0].0
    }

    /// The largest key (meaningful only when the map is not empty).
    pub closed spec fn spec_last_key(self) -> u64 {
        self.entries@.last().0
    }

    proof fn lemma_view_char(self)
        requires
            self.wf(),
        ensures
            forall|i: int|
                0 <= i < self.entries@.len() ==> self@.contains_key(#[trigger] self.entries@[i].0)
                    && self@[self.entries@[i].0] == self.entries@[i].1,
            forall|k: u64|
                self@.contains_key(k) ==> exists|i: int|
                    0 <= i < self.entries@.len() && #[trigger] self.entries@[i].0 == k,
    {
        assert forall|i: int| 0 <= i < self.entries@.len() implies self@.contains_key(
            #[trigger] self.entries@[i].0,
        ) && self@[self.entries@[i].0] == self.entries@[i].1 by {
            lemma_assoc_get_at(self.entries@, i);
        }
        assert forall|k: u64| self@.contains_key(k) implies exists|i: int|
            0 <= i < self.entries@.len() && #[trigger] self.entries@[i].0 == k by {
            let i = lemma_assoc_get_witness(self.entries@, k);
        }
    }

    pub fn new() -> (r: Self)
        ensures
            r.wf(),
            r@ == Map::<u64, V>::empty(),
            r.spec_len() == 0,
    {
        let r = OrdMap { entries: Vec::new() };
        proof {
            assert(r@ =~= Map::<u64, V>::empty());
        }
        r
    }

    pub fn len(&self) -> (r: usize)
        ensures
            r == self.spec_len(),
    {
        self.entries.len()
    }

    pub fn is_empty(&self) -> (r: bool)
        requires
            self.wf(),
        ensures
            r == (self.spec_len() == 0),
            r == (self@ == Map::<u64, V>::empty()),
    {
        proof {
            self.lemma_view_char();
            if self.entries@.len() == 0 {
                assert(self@ =~= Map::<u64, V>::empty());
            } else {
                assert(self@.contains_key(self.entries@[0].0));
                assert(self@ != Map::<u64, V>::empty());
            }
        }
        self.entries.len() == 0
    }

    pub fn contains_key(&self, k: u64) -> (r: bool)
        requires
            self.wf(),
        ensures
            r == self@.contains_key(k),
    {
        self.get(k).is_some()
    }

    pub fn get(&self, k: u64) -> (r: Option<&V>)
        requires
            self.wf(),
        ensures
            match r {
                Some(v) => self@.contains_key(k) && *v == self@[k],
                None => !self@.contains_key(k),
            },
    {
        let n = self.entries.len();
        let mut i: usize = 0;
        while i < n
            invariant
                n == self.entries@.len(),
                0 <= i <= n,
                forall|j: int| 0 <= j < i ==> self.entries@[j].0 != k,
                entries_sorted(self.entries@),
            decreases n - i,
        {
            if self.entries[i].0 == k {
                proof {
                    lemma_assoc_get_at(self.entries@, i as int);
                }
                return Some(&self.entries[i].1);
            }
            i += 1;
        }
        proof {
            lemma_assoc_get_absent(self.entries@, k);
        }
        None
    }

    pub fn insert(&mut self, k: u64, v: V) -> (r: Option<V>)
        requires
            old(self).wf(),
        ensures
            final(self).wf(),
            final(self)@ == old(self)@.insert(k, v),
            final(self).spec_len() == old(self).spec_len() + (if old(self)@.contains_key(k) {
                0int
            } else {
                1int
            }),
            match r {
                Some(w) => old(self)@.contains_key(k) && w == old(self)@[k],
                None => !old(self)@.contains_key(k),
            },
    {
        proof {
            old(self).lemma_view_char();
        }
        let ghost s0 = self.entries@;
        let n = self.entries.len();
        let mut i: usize = 0;
        while i < n && self.entries[i].0 < k
            invariant
                self.entries@ == s0,
                entries_sorted(s0),
                n == s0.len(),
                0 <= i <= n,
                forall|j: int| 0 <= j < i ==> s0[j].0 < k,
            decreases n - i,
        {
            i += 1;
        }
        if i < n && self.entries[i].0 == k {
            // replace the existing binding
            let old_pair = self.entries.remove(i);
            self.entries.insert(i, (k, v));
            proof {
                let s1 = self.entries@;
                assert(s1 =~= s0.update(i as int, (k, v)));
                assert forall|p: int, q: int| 0 <= p < q < s1.len() implies s1[p].0 < s1[q].0 by {
                    assert(s0[p].0 < s0[q].0);
                }
                lemma_assoc_get_at(s0, i as int);
                self.lemma_view_char();
                let m2 = old(self)@.insert(k, v);
                assert forall|k2: u64|
                    #![trigger m2.dom().contains(k2)]
                    #![trigger self@.dom().contains(k2)]
                    m2.dom().contains(k2) == self@.dom().contains(k2) && (m2.dom().contains(k2)
                        ==> self@[k2] == m2[k2]) by {
                    if k2 == k {
                        lemma_assoc_get_at(s1, i as int);
                    } else {
                        if assoc_get(s1, k2) is Some {
                            let w = lemma_assoc_get_witness(s1, k2);
                            assert(s0[w] == s1[w]);
                            lemma_assoc_get_at(s0, w);
                        }
                        if assoc_get(s0, k2) is Some {
                            let w = lemma_assoc_get_witness(s0, k2);
                            assert(s1[w] == s0[w]);
                            lemma_assoc_get_at(s1, w);
                        }
                    }
                }
                assert(self@ =~= m2);
            }
            return Some(old_pair.1);
        }
        // keys in s0[..i] are below k and keys in s0[i..] are above it
        proof {
            assert forall|j: int| 0 <= j < n implies s0[j].0 != k by {
                if j >= i {
                    assert(i < n);
                    assert(s0[i as int].0 > k);
                    if j > i {
                        assert(s0[i as int].0 < s0[j].0);
                    }
                }
            }
            lemma_assoc_get_absent(s0, k);
        }
        self.entries.insert(i, (k, v));
        proof {
            let s1 = self.entries@;
            assert(forall|j: int| 0 <= j < i ==> s1[j] == s0[j]);
            assert(s1[i as int] == (k, v));
            assert(forall|j: int| i < j < s1.len() ==> s1[j] == s0[j - 1]);
            assert forall|p: int, q: int| 0 <= p < q < s1.len() implies s1[p].0 < s1[q].0 by {
                if q < i {
                    assert(s1[p] == s0[p] && s1[q] == s0[q]);
                } else if p > i {
                    assert(s1[p] == s0[p - 1] && s1[q] == s0[q - 1]);
                } else if p < i && q == i {
                    assert(s1[p] == s0[p]);
                } else if p == i && q > i {
                    assert(s1[q] == s0[q - 1]);
                    assert(s0[q - 1].0 > k);
                } else if p < i && q > i {
                    assert(s1[p] == s0[p] && s1[q] == s0[q - 1]);
                }
            }
            self.lemma_view_char();
            let m2 = old(self)@.insert(k, v);
            assert forall|k2: u64|
                #![trigger m2.dom().contains(k2)]
                #![trigger self@.dom().contains(k2)]
                m2.dom().contains(k2) == self@.dom().contains(k2) && (m2.dom().contains(k2)
                    ==> self@[k2] == m2[k2]) by {
                if k2 == k {
                    lemma_assoc_get_at(s1, i as int);
                } else {
                    if assoc_get(s1, k2) is Some {
                        let w = lemma_assoc_get_witness(s1, k2);
                        let w0 = if w < i {
                            w
                        } else {
                            w - 1
                        };
                        assert(s0[w0] == s1[w]);
                        lemma_assoc_get_at(s0, w0);
                    }
                    if assoc_get(s0, k2) is Some {
                        let w = lemma_assoc_get_witness(s0, k2);
                        let w1 = if w < i {
                            w
                        } else {
                            w + 1
                        };
                        assert(s1[w1] == s0[w]);
                        lemma_assoc_get_at(s1, w1);
                    }
                }
            }
            assert(self@ =~= m2);
        }
        None
    }

    pub fn remove(&mut self, k: u64) -> (r: Option<V>)
        requires
            old(self).wf(),
        ensures
            final(self).wf(),
            final(self)@ == old(self)@.remove(k),
            final(self).spec_len() == old(self).spec_len() - (if old(self)@.contains_key(k) {
                1int
            } else {
                0int
            }),
            match r {
                Some(w) => old(self)@.contains_key(k) && w == old(self)@[k],
                None => !old(self)@.contains_key(k),
            },
    {
        proof {
            old(self).lemma_view_char();
        }
        let ghost s0 = self.entries@;
        let n = self.entries.len();
        let mut i: usize = 0;
        while i < n && self.entries[i].0 != k
            invariant
                self.entries@ == s0,
                entries_sorted(s0),
                n == s0.len(),
                0 <= i <= n,
                forall|j: int| 0 <= j < i ==> s0[j].0 != k,
            decreases n - i,
        {
            i += 1;
        }
        if i < n {
            let old_pair = self.entries.remove(i);
            proof {
                lemma_assoc_get_at(s0, i as int);
                let s1 = self.entries@;
                assert(forall|j: int| 0 <= j < i ==> s1[j] == s0[j]);
                assert(forall|j: int| i <= j < s1.len() ==> s1[j] == s0[j + 1]);
                assert forall|p: int, q: int| 0 <= p < q < s1.len() implies s1[p].0 < s1[q].0 by {
                    let p0 = if p < i {
                        p
                    } else {
                        p + 1
                    };
                    let q0 = if q < i {
                        q
                    } else {
                        q + 1
                    };
                    assert(s1[p] == s0[p0] && s1[q] == s0[q0]);
                }
                self.lemma_view_char();
                let m2 = old(self)@.remove(k);
                assert forall|k2: u64|
                    #![trigger m2.dom().contains(k2)]
                    #![trigger self@.dom().contains(k2)]
                    m2.dom().contains(k2) == self@.dom().contains(k2) && (m2.dom().contains(k2)
                        ==> self@[k2] == m2[k2]) by {
                    if k2 != k {
                        if assoc_get(s1, k2) is Some {
                            let w = lemma_assoc_get_witness(s1, k2);
                            let w0 = if w < i {
                                w
                            } else {
                                w + 1
                            };
                            assert(s0[w0] == s1[w]);
                            lemma_assoc_get_at(s0, w0);
                        }
                        if assoc_get(s0, k2) is Some {
                            let w = lemma_assoc_get_witness(s0, k2);
                            assert(s0[i as int].0 == k);
                            let w1 = if w < i {
                                w
                            } else {
                                w - 1
                            };
                            assert(s1[w1] == s0[w]);
                            lemma_assoc_get_at(s1, w1);
                        }
                    } else {
                        assert forall|j: int| 0 <= j < s1.len() implies s1[j].0 != k by {
                            let j0 = if j < i {
                                j
                            } else {
                                j + 1
                            };
                            assert(s1[j] == s0[j0]);
                        }
                        lemma_assoc_get_absent(s1, k);
                    }
                }
                assert(self@ =~= m2);
            }
            Some(old_pair.1)
        } else {
            proof {
                lemma_assoc_get_absent(s0, k);
                assert(self@ =~= old(self)@.remove(k));
            }
            None
        }
    }


    /// The entry with the smallest key, if any.
    pub fn first_entry(&self) -> (r: Option<&(u64, V)>)
        requires
            self.wf(),
        ensures
            match r {
                None => self.spec_len() == 0,
                Some(e) => {
                    &&& self.spec_len() > 0
                    &&& e.0 == self.spec_first_key()
                    &&& self@.contains_key(e.0)
                    &&& self@[e.0] == e.1
                    &&& forall|k: u64| self@.contains_key(k) ==> e.0 <= k
                },
            },
    {
        proof {
            self.lemma_view_char();
        }
        if self.entries.len() == 0 {
            None
        } else {
            proof {
                assert forall|k: u64| self@.contains_key(k) implies self.entries@[0].0 <= k by {
                    let i = lemma_assoc_get_witness(self.entries@, k);
                }
            }
            Some(&self.entries[0])
        }
    }

    /// The entry with the largest key, if any.
    pub fn last_entry(&self) -> (r: Option<&(u64, V)>)
        requires
            self.wf(),
        ensures
            match r {
                None => self.spec_len() == 0,
                Some(e) => {
                    &&& self.spec_len() > 0
                    &&& e.0 == self.spec_last_key()
                    &&& self@.contains_key(e.0)
                    &&& self@[e.0] == e.1
                    &&& forall|k: u64| self@.contains_key(k) ==> k <= e.0
                },
            },
    {
        proof {
            self.lemma_view_char();
        }
        let n = self.entries.len();
        if n == 0 {
            None
        } else {
            proof {
                assert forall|k: u64| self@.contains_key(k) implies k <= self.entries@[n
                    - 1].0 by {
                    let i = lemma_assoc_get_witness(self.entries@, k);
                }
            }
            Some(&self.entries[n - 1])
        }
    }

    /// Removes and returns the entry with the smallest key.
    pub fn pop_first(&mut self) -> (r: Option<(u64, V)>)
        requires
            old(self).wf(),
        ensures
            final(self).wf(),
            match r {
                None => old(self).spec_len() == 0 && *final(self) == *old(self),
                Some(e) => {
                    &&& old(self).spec_len() > 0
                    &&& e.0 == old(self).spec_first_key()
                    &&& old(self)@.contains_key(e.0)
                    &&& old(self)@[e.0] == e.1
                    &&& forall|k: u64| old(self)@.contains_key(k) ==> e.0 <= k
                    &&& final(self)@ == old(self)@.remove(e.0)
                    &&& final(self).spec_len() == old(self).spec_len() - 1
                },
            },
    {
        proof {
            old(self).lemma_view_char();
        }
        if self.entries.len() == 0 {
            return None;
        }
        let ghost s0 = self.entries@;
        let k = self.entries[0].0;
        proof {
            assert forall|k2: u64| self@.contains_key(k2) implies k <= k2 by {
                let i = lemma_assoc_get_witness(s0, k2);
            }
        }
        let v = self.remove(k);
        match v {
            Some(v) => Some((k, v)),
            None => None,
        }
    }

    /// Read-only access to the sorted entries, for iteration.
    pub fn entries(&self) -> (r: &Vec<(u64, V)>)
        requires
            self.wf(),
        ensures
            r@.len() == self.spec_len(),
            entries_sorted(r@),
            forall|i: int|
                0 <= i < r@.len() ==> self@.contains_key(#[trigger] r@[i].0) && self@[r@[i].0]
                    == r@[i].1,
            forall|k: u64|
                self@.contains_key(k) ==> exists|i: int| 0 <= i < r@.len() && #[trigger] r@[i].0
                    == k,
    {
        proof {
            self.lemma_view_char();
        }
        &self.entries
    }
}


/// Strictly increasing keys spread at least one apart.
proof fn lemma_sorted_gap<V>(s: Seq<(u64, V)>, i: int, j: int)
    requires
        entries_sorted(s),
        0 <= i <= j < s.len(),
    ensures
        s[j].0 >= s[i].0 + (j - i),
    decreases j - i,
{
    if j > i {
        lemma_sorted_gap(s, i, j - 1);
    }
}

impl<V> OrdMap<V> {
    /// The first and last keys bound every key of the map, and the strict
    /// ordering forces the last key to sit at least `len - 1` above the
    /// first.
    pub proof fn lemma_key_bounds(self)
        requires
            self.wf(),
            self.spec_len() > 0,
        ensures
            self@.contains_key(self.spec_first_key()),
            self@.contains_key(self.spec_last_key()),
            forall|k: u64|
                self@.contains_key(k) ==> self.spec_first_key() <= k <= self.spec_last_key(),
            self.spec_last_key() >= self.spec_first_key() + self.spec_len() - 1,
    {
        self.lemma_view_char();
        let n = self.entries@.len() as int;
        assert(self.entries@[0].0 == self.spec_first_key());
        assert(self.entries@[n - 1] == self.entries@.last());
        assert forall|k: u64| self@.contains_key(k) implies self.spec_first_key() <= k
            <= self.spec_last_key() by {
            let i = choose|i: int| 0 <= i < n && #[trigger] self.entries@[i].0 == k;
            lemma_sorted_gap(self.entries@, 0, i);
            lemma_sorted_gap(self.entries@, i, n - 1);
        }
        lemma_sorted_gap(self.entries@, 0, n - 1);
    }
}


impl<V> OrdMap<V> {
    /// A map without entries binds no key.
    pub proof fn lemma_empty(self)
        requires
            self.wf(),
            self.spec_len() == 0,
        ensures
            self@ == Map::<u64, V>::empty(),
    {
        self.lemma_view_char();
        assert(self@ =~= Map::<u64, V>::empty());
    }
}

} // verus!
