//! Association vector: a list of (byte key, value) pairs with distinct keys,
//! abstracted as a `Map` from key sequences to the deep views of the values.
//! Every keyed table in the crate — the byte-oriented store as well as the
//! registry's own tables — is backed by this verified structure.

use vstd::prelude::*;

use crate::bytevec::bytes_eq;
use crate::bytevec::copy_bytes;

verus! {

pub struct AssocVec<V> {
    pairs: Vec<(Vec<u8>, V)>,
}

/// First-match lookup over the raw pair sequence.
pub open spec fn pairs_lookup<V: DeepView>(s: Seq<(Vec<u8>, V)>, k: Seq<u8>) -> Option<V::V>
    decreases s.len(),
{
    if s.len() == 0 {
        None
    } else if s[0].0@ == k {
        Some(s[0].1.deep_view())
    } else {
        pairs_lookup(s.subrange(1, s.len() as int), k)
    }
}

/// A lookup past a prefix without the key scans the same suffix.
proof fn lemma_lookup_skip<V: DeepView>(s: Seq<(Vec<u8>, V)>, k: Seq<u8>, i: int)
    requires
        0 <= i <= s.len(),
        forall|j: int| 0 <= j < i ==> s[j].0@ != k,
    ensures
        pairs_lookup(s, k) == pairs_lookup(s.skip(i), k),
    decreases i,
{
    if i == 0 {
        assert(s.skip(0) =~= s);
    } else {
        lemma_lookup_skip(s, k, i - 1);
        assert(s.skip(i - 1)[0] == s[i - 1]);
        assert(s.skip(i - 1).subrange(1, s.skip(i - 1).len() as int) =~= s.skip(i));
    }
}

/// A key that occurs nowhere is not found.
proof fn lemma_lookup_absent<V: DeepView>(s: Seq<(Vec<u8>, V)>, k: Seq<u8>)
    requires
        forall|j: int| 0 <= j < s.len() ==> s[j].0@ != k,
    ensures
        pairs_lookup(s, k) is None,
    decreases s.len(),
{
    if s.len() > 0 {
        lemma_lookup_absent(s.subrange(1, s.len() as int), k);
    }
}

/// Appending a pair binds its key when the key was absent, and no other.
proof fn lemma_lookup_push<V: DeepView>(s: Seq<(Vec<u8>, V)>, p: (Vec<u8>, V), k2: Seq<u8>)
    requires
        forall|j: int| 0 <= j < s.len() ==> s[j].0@ != p.0@,
    ensures
        pairs_lookup(s.push(p), k2) == if k2 == p.0@ {
            Some(p.1.deep_view())
        } else {
            pairs_lookup(s, k2)
        },
    decreases s.len(),
{
    let t = s.push(p);
    if s.len() == 0 {
        assert(t[0] == p);
        let t1 = t.subrange(1, t.len() as int);
        assert(t1 =~= Seq::<(Vec<u8>, V)>::empty());
        assert(pairs_lookup(t1, k2) is None);
    } else {
        let s1 = s.subrange(1, s.len() as int);
        lemma_lookup_push(s1, p, k2);
        assert(t[0] == s[0]);
        let t1 = t.subrange(1, t.len() as int);
        assert(t1 =~= s1.push(p));
    }
}

/// Replacing the first occurrence of a key rebinds that key and no other.
proof fn lemma_lookup_update<V: DeepView>(
    s: Seq<(Vec<u8>, V)>,
    i: int,
    p: (Vec<u8>, V),
    k2: Seq<u8>,
)
    requires
        0 <= i < s.len(),
        s[i].0@ == p.0@,
        forall|j: int| 0 <= j < i ==> s[j].0@ != s[i].0@,
    ensures
        pairs_lookup(s.update(i, p), k2) == if k2 == p.0@ {
            Some(p.1.deep_view())
        } else {
            pairs_lookup(s, k2)
        },
    decreases i,
{
    let t = s.update(i, p);
    assert(t.len() == s.len());
    if i == 0 {
        assert(t[0] == p);
        assert(t.subrange(1, t.len() as int) =~= s.subrange(1, s.len() as int));
    } else {
        let s1 = s.subrange(1, s.len() as int);
        assert(s1[i - 1] == s[i]);
        assert(forall|j: int| 0 <= j < i - 1 ==> #[trigger] s1[j].0@ != s1[i - 1].0@);
        lemma_lookup_update(s1, i - 1, p, k2);
        assert(t[0] == s[0]);
        assert(t.subrange(1, t.len() as int) =~= s1.update(i - 1, p));
    }
}

/// Removing the only occurrence of a key unbinds that key and no other.
proof fn lemma_lookup_remove<V: DeepView>(s: Seq<(Vec<u8>, V)>, i: int, k2: Seq<u8>)
    requires
        0 <= i < s.len(),
        forall|j1: int, j2: int| 0 <= j1 < j2 < s.len() ==> s[j1].0@ != s[j2].0@,
    ensures
        pairs_lookup(s.remove(i), k2) == if k2 == s[i].0@ {
            None::<V::V>
        } else {
            pairs_lookup(s, k2)
        },
    decreases i,
{
    let t = s.remove(i);
    assert(t.len() == s.len() - 1);
    if i == 0 {
        assert(t =~= s.subrange(1, s.len() as int));
        if k2 == s[0].0@ {
            assert(forall|j: int| 0 <= j < t.len() ==> #[trigger] t[j].0@ != k2);
            lemma_lookup_absent(t, k2);
        }
    } else {
        let s1 = s.subrange(1, s.len() as int);
        assert(s1[i - 1] == s[i]);
        assert(forall|j1: int, j2: int|
            0 <= j1 < j2 < s1.len() ==> #[trigger] s1[j1].0@ != #[trigger] s1[j2].0@);
        lemma_lookup_remove(s1, i - 1, k2);
        assert(t[0] == s[0]);
        assert(t.subrange(1, t.len() as int) =~= s1.remove(i - 1));
    }
}

impl<V: DeepView> View for AssocVec<V> {
    type V = Map<Seq<u8>, V::V>;

    closed spec fn view(&self) -> Map<Seq<u8>, V::V> {
        Map::new(
            |k: Seq<u8>| pairs_lookup(self.pairs@, k) is Some,
            |k: Seq<u8>|
                match pairs_lookup(self.pairs@, k) {
                    Some(v) => v,
                    None => vstd::pervasive::arbitrary(),
                },
        )
    }
}

impl<V: DeepView> AssocVec<V> {
    /// The stored keys are pairwise distinct.
    pub closed spec fn inv(&self) -> bool {
        forall|j1: int, j2: int|
            0 <= j1 < j2 < self.pairs@.len() ==> self.pairs@[j1].0@ != self.pairs@[j2].0@
    }

    pub fn new() -> (r: Self)
        ensures
            r.inv(),
            r@ == Map::<Seq<u8>, V::V>::empty(),
    {
        let r = AssocVec { pairs: Vec::new() };
        proof {
            assert(r@ =~= Map::<Seq<u8>, V::V>::empty());
        }
        r
    }

    /// Index of the first pair whose key equals `k`, if any.
    fn find_index(&self, k: &Vec<u8>) -> (r: Option<usize>)
        ensures
            match r {
                Some(i) => {
                    &&& i < self.pairs@.len()
                    &&& self.pairs@[i as int].0@ == k@
                    &&& forall|j: int| 0 <= j < i ==> self.pairs@[j].0@ != k@
                },
                None => forall|j: int| 0 <= j < self.pairs@.len() ==> self.pairs@[j].0@ != k@,
            },
    {
        let mut i: usize = 0;
        while i < self.pairs.len()
            invariant
                i <= self.pairs@.len(),
                forall|j: int| 0 <= j < i ==> self.pairs@[j].0@ != k@,
            decreases self.pairs@.len() - i,
        {
            if bytes_eq(&self.pairs[i].0, k) {
                return Some(i);
            }
            i = i + 1;
        }
        None
    }

    pub fn get<'a>(&'a self, k: &Vec<u8>) -> (r: Option<&'a V>)
        ensures
            match r {
                Some(v) => self@.contains_key(k@) && v.deep_view() == self@[k@],
                None => !self@.contains_key(k@),
            },
    {
        match self.find_index(k) {
            Some(i) => {
                proof {
                    lemma_lookup_skip(self.pairs@, k@, i as int);
                    assert(self.pairs@.skip(i as int)[0] == self.pairs@[i as int]);
                }
                Some(&self.pairs[i].1)
            },
            None => {
                proof {
                    lemma_lookup_absent(self.pairs@, k@);
                }
                None
            },
        }
    }

    pub fn contains(&self, k: &Vec<u8>) -> (r: bool)
        ensures
            r == self@.contains_key(k@),
    {
        self.get(k).is_some()
    }

    /// Binds `k` to `v`, replacing any previous binding.
    pub fn insert(&mut self, k: &Vec<u8>, v: V)
        requires
            old(self).inv(),
        ensures
            final(self).inv(),
            final(self)@ == old(self)@.insert(k@, v.deep_view()),
    {
        let ghost s0 = self.pairs@;
        match self.find_index(k) {
            Some(i) => {
                let p = (copy_bytes(k), v);
                proof {
                    assert forall|k2: Seq<u8>| #[trigger] pairs_lookup(s0.update(i as int, p), k2)
                        == if k2 == p.0@ {
                        Some(p.1.deep_view())
                    } else {
                        pairs_lookup(s0, k2)
                    } by {
                        lemma_lookup_update(s0, i as int, p, k2);
                    }
                }
                self.pairs.set(i, p);
                proof {
                    assert(self@ =~= old(self)@.insert(k@, p.1.deep_view()));
                }
            },
            None => {
                let p = (copy_bytes(k), v);
                proof {
                    assert forall|k2: Seq<u8>| #[trigger] pairs_lookup(s0.push(p), k2) == if k2
                        == p.0@ {
                        Some(p.1.deep_view())
                    } else {
                        pairs_lookup(s0, k2)
                    } by {
                        lemma_lookup_push(s0, p, k2);
                    }
                }
                self.pairs.push(p);
                proof {
                    assert(self@ =~= old(self)@.insert(k@, p.1.deep_view()));
                }
            },
        }
    }

    /// Unbinds `k`; a no-op when `k` is absent.
    pub fn remove(&mut self, k: &Vec<u8>)
        requires
            old(self).inv(),
        ensures
            final(self).inv(),
            final(self)@ == old(self)@.remove(k@),
    {
        let ghost s0 = self.pairs@;
        match self.find_index(k) {
            Some(i) => {
                proof {
                    assert forall|k2: Seq<u8>| #[trigger] pairs_lookup(s0.remove(i as int), k2)
                        == if k2 == k@ {
                        None::<V::V>
                    } else {
                        pairs_lookup(s0, k2)
                    } by {
                        lemma_lookup_remove(s0, i as int, k2);
                    }
                }
                self.pairs.remove(i);
                proof {
                    assert(self@ =~= old(self)@.remove(k@));
                }
            },
            None => {
                proof {
                    lemma_lookup_absent(s0, k@);
                    assert(self@ =~= old(self)@.remove(k@));
                }
            },
        }
    }
}

} // verus!
