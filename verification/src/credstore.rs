//! Credential table: credentials keyed by the pair (organization, subject),
//! abstracted as a `Map<(Seq<u8>, Seq<u8>), CredModel>`.  At most one
//! credential is stored per subject per organization; inserting for an
//! existing pair overwrites the prior record.

use vstd::prelude::*;

use crate::bytevec::bytes_eq;
use crate::rbac::CredModel;
use crate::rbac::Credential;

verus! {

pub struct CredVec {
    creds: Vec<Credential>,
}

/// First-match lookup by (organization, subject).
pub open spec fn creds_lookup(s: Seq<Credential>, org: Seq<u8>, subj: Seq<u8>) -> Option<CredModel>
    decreases s.len(),
{
    if s.len() == 0 {
        None
    } else if s[0].org_id@ == org && s[0].subject@ == subj {
        Some(s[0].deep_view())
    } else {
        creds_lookup(s.subrange(1, s.len() as int), org, subj)
    }
}

/// A lookup past a prefix without the pair scans the same suffix.
proof fn lemma_creds_skip(s: Seq<Credential>, org: Seq<u8>, subj: Seq<u8>, i: int)
    requires
        0 <= i <= s.len(),
        forall|j: int| 0 <= j < i ==> !(s[j].org_id@ == org && s[j].subject@ == subj),
    ensures
        creds_lookup(s, org, subj) == creds_lookup(s.skip(i), org, subj),
    decreases i,
{
    if i == 0 {
        assert(s.skip(0) =~= s);
    } else {
        lemma_creds_skip(s, org, subj, i - 1);
        assert(s.skip(i - 1)[0] == s[i - 1]);
        assert(s.skip(i - 1).subrange(1, s.skip(i - 1).len() as int) =~= s.skip(i));
    }
}

/// A pair that occurs nowhere is not found.
proof fn lemma_creds_absent(s: Seq<Credential>, org: Seq<u8>, subj: Seq<u8>)
    requires
        forall|j: int| 0 <= j < s.len() ==> !(s[j].org_id@ == org && s[j].subject@ == subj),
    ensures
        creds_lookup(s, org, subj) is None,
    decreases s.len(),
{
    if s.len() > 0 {
        lemma_creds_absent(s.subrange(1, s.len() as int), org, subj);
    }
}

/// Appending a credential binds its pair when the pair was absent.
proof fn lemma_creds_push(s: Seq<Credential>, c: Credential, org: Seq<u8>, subj: Seq<u8>)
    requires
        forall|j: int|
            0 <= j < s.len() ==> !(s[j].org_id@ == c.org_id@ && s[j].subject@ == c.subject@),
    ensures
        creds_lookup(s.push(c), org, subj) == if org == c.org_id@ && subj == c.subject@ {
            Some(c.deep_view())
        } else {
            creds_lookup(s, org, subj)
        },
    decreases s.len(),
{
    let t = s.push(c);
    if s.len() == 0 {
        assert(t[0] == c);
        let t1 = t.subrange(1, t.len() as int);
        assert(t1 =~= Seq::<Credential>::empty());
        assert(creds_lookup(t1, org, subj) is None);
    } else {
        let s1 = s.subrange(1, s.len() as int);
        lemma_creds_push(s1, c, org, subj);
        assert(t[0] == s[0]);
        assert(t.subrange(1, t.len() as int) =~= s1.push(c));
    }
}

/// Replacing the first occurrence of a pair rebinds that pair and no other.
proof fn lemma_creds_update(s: Seq<Credential>, i: int, c: Credential, org: Seq<u8>, subj: Seq<u8>)
    requires
        0 <= i < s.len(),
        s[i].org_id@ == c.org_id@ && s[i].subject@ == c.subject@,
        forall|j: int|
            0 <= j < i ==> !(s[j].org_id@ == s[i].org_id@ && s[j].subject@ == s[i].subject@),
    ensures
        creds_lookup(s.update(i, c), org, subj) == if org == c.org_id@ && subj == c.subject@ {
            Some(c.deep_view())
        } else {
            creds_lookup(s, org, subj)
        },
    decreases i,
{
    let t = s.update(i, c);
    assert(t.len() == s.len());
    if i == 0 {
        assert(t[0] == c);
        assert(t.subrange(1, t.len() as int) =~= s.subrange(1, s.len() as int));
    } else {
        let s1 = s.subrange(1, s.len() as int);
        assert(s1[i - 1] == s[i]);
        assert(forall|j: int|
            0 <= j < i - 1 ==> !((#[trigger] s1[j]).org_id@ == s1[i - 1].org_id@ && s1[j].subject@
                == s1[i - 1].subject@));
        lemma_creds_update(s1, i - 1, c, org, subj);
        assert(t[0] == s[0]);
        assert(t.subrange(1, t.len() as int) =~= s1.update(i - 1, c));
    }
}

impl View for CredVec {
    type V = Map<(Seq<u8>, Seq<u8>), CredModel>;

    closed spec fn view(&self) -> Map<(Seq<u8>, Seq<u8>), CredModel> {
        Map::new(
            |p: (Seq<u8>, Seq<u8>)| creds_lookup(self.creds@, p.0, p.1) is Some,
            |p: (Seq<u8>, Seq<u8>)|
                match creds_lookup(self.creds@, p.0, p.1) {
                    Some(c) => c,
                    None => vstd::pervasive::arbitrary(),
                },
        )
    }
}

impl CredVec {
    /// The stored (organization, subject) pairs are pairwise distinct.
    pub closed spec fn inv(&self) -> bool {
        forall|j1: int, j2: int|
            0 <= j1 < j2 < self.creds@.len() ==> !((#[trigger] self.creds@[j1]).org_id@
                == (#[trigger] self.creds@[j2]).org_id@ && self.creds@[j1].subject@
                == self.creds@[j2].subject@)
    }

    pub fn new() -> (r: Self)
        ensures
            r.inv(),
            r@ == Map::<(Seq<u8>, Seq<u8>), CredModel>::empty(),
    {
        let r = CredVec { creds: Vec::new() };
        proof {
            assert(r@ =~= Map::<(Seq<u8>, Seq<u8>), CredModel>::empty());
        }
        r
    }

    /// Index of the first credential for the pair, if any.
    fn find_index(&self, org: &Vec<u8>, subj: &Vec<u8>) -> (r: Option<usize>)
        ensures
            match r {
                Some(i) => {
                    &&& i < self.creds@.len()
                    &&& self.creds@[i as int].org_id@ == org@
                    &&& self.creds@[i as int].subject@ == subj@
                    &&& forall|j: int|
                        0 <= j < i ==> !((#[trigger] self.creds@[j]).org_id@ == org@
                            && self.creds@[j].subject@ == subj@)
                },
                None => forall|j: int|
                    0 <= j < self.creds@.len() ==> !((#[trigger] self.creds@[j]).org_id@ == org@
                        && self.creds@[j].subject@ == subj@),
            },
    {
        let mut i: usize = 0;
        while i < self.creds.len()
            invariant
                i <= self.creds@.len(),
                forall|j: int|
                    0 <= j < i ==> !((#[trigger] self.creds@[j]).org_id@ == org@
                        && self.creds@[j].subject@ == subj@),
            decreases self.creds@.len() - i,
        {
            if bytes_eq(&self.creds[i].org_id, org) && bytes_eq(&self.creds[i].subject, subj) {
                return Some(i);
            }
            i = i + 1;
        }
        None
    }

    pub fn get<'a>(&'a self, org: &Vec<u8>, subj: &Vec<u8>) -> (r: Option<&'a Credential>)
        ensures
            match r {
                Some(c) => self@.contains_key((org@, subj@)) && c.deep_view() == self@[
                    (org@, subj@)
                ],
                None => !self@.contains_key((org@, subj@)),
            },
    {
        match self.find_index(org, subj) {
            Some(i) => {
                proof {
                    lemma_creds_skip(self.creds@, org@, subj@, i as int);
                    assert(self.creds@.skip(i as int)[0] == self.creds@[i as int]);
                }
                Some(&self.creds[i])
            },
            None => {
                proof {
                    lemma_creds_absent(self.creds@, org@, subj@);
                }
                None
            },
        }
    }

    /// Stores `c` under its own (organization, subject) pair, overwriting any
    /// prior credential for that pair.
    pub fn insert(&mut self, c: Credential)
        requires
            old(self).inv(),
        ensures
            final(self).inv(),
            final(self)@ == old(self)@.insert((c.org_id@, c.subject@), c.deep_view()),
    {
        let ghost s0 = self.creds@;
        let org = crate::bytevec::copy_bytes(&c.org_id);
        let subj = crate::bytevec::copy_bytes(&c.subject);
        match self.find_index(&org, &subj) {
            Some(i) => {
                proof {
                    assert forall|p: (Seq<u8>, Seq<u8>)| #[trigger]
                        creds_lookup(s0.update(i as int, c), p.0, p.1) == if p.0 == c.org_id@ && p.1
                        == c.subject@ {
                        Some(c.deep_view())
                    } else {
                        creds_lookup(s0, p.0, p.1)
                    } by {
                        lemma_creds_update(s0, i as int, c, p.0, p.1);
                    }
                }
                self.creds.set(i, c);
                proof {
                    assert(self@ =~= old(self)@.insert((org@, subj@), self.creds@[i as int].deep_view()));
                }
            },
            None => {
                proof {
                    assert forall|p: (Seq<u8>, Seq<u8>)| #[trigger]
                        creds_lookup(s0.push(c), p.0, p.1) == if p.0 == c.org_id@ && p.1
                        == c.subject@ {
                        Some(c.deep_view())
                    } else {
                        creds_lookup(s0, p.0, p.1)
                    } by {
                        lemma_creds_push(s0, c, p.0, p.1);
                    }
                }
                self.creds.push(c);
                proof {
                    assert(self@ =~= old(self)@.insert(
                        (org@, subj@),
                        self.creds@[self.creds@.len() - 1].deep_view(),
                    ));
                }
            },
        }
    }
}

} // verus!
