//! A small verified key/value store: an association list from `u64` keys to
//! `u64` values with unique keys. It is the library's stand-in for the
//! durable single-value and map state that the chain's storage offers, so the
//! registry and the bond ledger can be verified as pure state machines.

use vstd::prelude::*;

verus! {

/// The value bound to `k` in `s`, reading entries front to back.
pub open spec fn assoc_get(s: Seq<(u64, u64)>, k: u64) -> Option<u64>
    decreases s.len(),
{
    if s.len() == 0 {
        None
    } else if s[0].0 == k {
        Some(s[0].1)
    } else {
        assoc_get(s.drop_first(), k)
    }
}

/// Every key occurs at most once in `s`.
pub open spec fn keys_unique(s: Seq<(u64, u64)>) -> bool {
    forall|i: int, j: int| 0 <= i < j < s.len() ==> s[i].0 != s[j].0
}

proof fn lemma_get_at(s: Seq<(u64, u64)>, k: u64, i: int)
    requires
        0 <= i < s.len(),
        s[i].0 == k,
        forall|j: int| 0 <= j < i ==> s[j].0 != k,
    ensures
        assoc_get(s, k) == Some(s[i].1),
    decreases i,
{
    if i > 0 {
        lemma_get_at(s.drop_first(), k, i - 1);
    }
}

proof fn lemma_get_none(s: Seq<(u64, u64)>, k: u64)
    requires
        forall|j: int| 0 <= j < s.len() ==> s[j].0 != k,
    ensures
        assoc_get(s, k) == None::<u64>,
    decreases s.len(),
{
    if s.len() > 0 {
        lemma_get_none(s.drop_first(), k);
    }
}

proof fn lemma_get_update(s: Seq<(u64, u64)>, i: int, v: u64, k2: u64)
    requires
        0 <= i < s.len(),
        forall|j: int| 0 <= j < i ==> s[j].0 != s[i].0,
        k2 != s[i].0,
    ensures
        assoc_get(s.update(i, (s[i].0, v)), k2) == assoc_get(s, k2),
    decreases i,
{
    if i == 0 {
        assert(s.update(0, (s[0].0, v)).drop_first() =~= s.drop_first());
    } else {
        assert(s.update(i, (s[i].0, v)).drop_first() =~= s.drop_first().update(
            i - 1,
            (s[i].0, v),
        ));
        lemma_get_update(s.drop_first(), i - 1, v, k2);
    }
}

proof fn lemma_get_push(s: Seq<(u64, u64)>, k: u64, v: u64, k2: u64)
    requires
        k2 != k,
    ensures
        assoc_get(s.push((k, v)), k2) == assoc_get(s, k2),
    decreases s.len(),
{
    if s.len() == 0 {
        assert(s.push((k, v))[0].0 == k);
        assert(s.push((k, v)).drop_first() =~= Seq::<(u64, u64)>::empty());
    } else {
        assert(s.push((k, v)).drop_first() =~= s.drop_first().push((k, v)));
        lemma_get_push(s.drop_first(), k, v, k2);
    }
}

proof fn lemma_get_remove(s: Seq<(u64, u64)>, i: int, k2: u64)
    requires
        0 <= i < s.len(),
        k2 != s[i].0,
    ensures
        assoc_get(s.remove(i), k2) == assoc_get(s, k2),
    decreases i,
{
    if i == 0 {
        assert(s.remove(0) =~= s.drop_first());
    } else {
        assert(s.remove(i).drop_first() =~= s.drop_first().remove(i - 1));
        lemma_get_remove(s.drop_first(), i - 1, k2);
    }
}

/// An association list with unique `u64` keys.
pub struct KvList {
    items: Vec<(u64, u64)>,
}

impl KvList {
    /// The keys are pairwise distinct, so each key names one value.
    pub closed spec fn wf(&self) -> bool {
        keys_unique(self.items@)
    }

    /// The value bound to `k`, if any.
    pub closed spec fn spec_get(&self, k: u64) -> Option<u64> {
        assoc_get(self.items@, k)
    }

    /// An empty store: no key is bound.
    pub fn new() -> (r: KvList)
        ensures
            r.wf(),
            forall|k: u64| r.spec_get(k) == None::<u64>,
    {
        let r = KvList { items: Vec::new() };
        proof {
            assert forall|k: u64| r.spec_get(k) == None::<u64> by {
                lemma_get_none(r.items@, k);
            }
        }
        r
    }

    /// Looks `k` up.
    pub fn get(&self, k: u64) -> (r: Option<u64>)
        ensures
            r == self.spec_get(k),
    {
        let n: usize = self.items.len();
        let mut i: usize = 0;
        while i < n
            invariant
                n == self.items.len(),
                0 <= i <= n,
                forall|j: int| 0 <= j < i ==> self.items@[j].0 != k,
            decreases n - i,
        {
            if self.items[i].0 == k {
                proof {
                    lemma_get_at(self.items@, k, i as int);
                }
                return Some(self.items[i].1);
            }
            i = i + 1;
        }
        proof {
            lemma_get_none(self.items@, k);
        }
        None
    }

    /// Binds `k` to `v`, replacing any earlier binding; every other key keeps
    /// its value.
    pub fn set(&mut self, k: u64, v: u64)
        requires
            old(self).wf(),
        ensures
            final(self).wf(),
            final(self).spec_get(k) == Some(v),
            forall|k2: u64| k2 != k ==> final(self).spec_get(k2) == old(self).spec_get(k2),
    {
        let n: usize = self.items.len();
        let mut i: usize = 0;
        while i < n
            invariant
                n == self.items.len(),
                0 <= i <= n,
                keys_unique(self.items@),
                self.items@ == old(self).items@,
                forall|j: int| 0 <= j < i ==> self.items@[j].0 != k,
            decreases n - i,
        {
            if self.items[i].0 == k {
                let ghost s0 = self.items@;
                self.items.set(i, (k, v));
                proof {
                    assert(self.items@ =~= s0.update(i as int, (s0[i as int].0, v)));
                    lemma_get_at(self.items@, k, i as int);
                    assert forall|k2: u64| k2 != k implies assoc_get(self.items@, k2) == assoc_get(
                        s0,
                        k2,
                    ) by {
                        lemma_get_update(s0, i as int, v, k2);
                    }
                }
                return ;
            }
            i = i + 1;
        }
        let ghost s0 = self.items@;
        self.items.push((k, v));
        proof {
            lemma_get_at(self.items@, k, s0.len() as int);
            assert forall|k2: u64| k2 != k implies assoc_get(self.items@, k2) == assoc_get(
                s0,
                k2,
            ) by {
                lemma_get_push(s0, k, v, k2);
            }
        }
    }

    /// Unbinds `k`; every other key keeps its value.
    pub fn remove(&mut self, k: u64)
        requires
            old(self).wf(),
        ensures
            final(self).wf(),
            final(self).spec_get(k) == None::<u64>,
            forall|k2: u64| k2 != k ==> final(self).spec_get(k2) == old(self).spec_get(k2),
    {
        let n: usize = self.items.len();
        let mut i: usize = 0;
        while i < n
            invariant
                n == self.items.len(),
                0 <= i <= n,
                keys_unique(self.items@),
                self.items@ == old(self).items@,
                forall|j: int| 0 <= j < i ==> self.items@[j].0 != k,
            decreases n - i,
        {
            if self.items[i].0 == k {
                let ghost s0 = self.items@;
                self.items.remove(i);
                proof {
                    assert(self.items@ =~= s0.remove(i as int));
                    assert forall|a: int, b: int|
                        0 <= a < b < self.items@.len() implies self.items@[a].0
                        != self.items@[b].0 by {
                        let a0 = if a < i as int {
                            a
                        } else {
                            a + 1
                        };
                        let b0 = if b < i as int {
                            b
                        } else {
                            b + 1
                        };
                        assert(self.items@[a] == s0[a0]);
                        assert(self.items@[b] == s0[b0]);
                    }
                    assert forall|j: int|
                        0 <= j < self.items@.len() implies self.items@[j].0 != k by {
                        let j0 = if j < i as int {
                            j
                        } else {
                            j + 1
                        };
                        assert(self.items@[j] == s0[j0]);
                    }
                    lemma_get_none(self.items@, k);
                    assert forall|k2: u64| k2 != k implies assoc_get(self.items@, k2) == assoc_get(
                        s0,
                        k2,
                    ) by {
                        lemma_get_remove(s0, i as int, k2);
                    }
                }
                return ;
            }
            i = i + 1;
        }
        proof {
            lemma_get_none(self.items@, k);
        }
    }
}

} // verus!
