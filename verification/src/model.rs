//! Mathematical model of the registry: the abstract state, the
//! role/action/resource matrix, credential validity, the admin guard, and the
//! transition relation of every mutating operation.  The executable methods of
//! [`crate::rbac::Intran3tRBAC`] promise exactly these relations.

use vstd::prelude::*;

use crate::ids::cred_id_preimage;
use crate::ids::org_id_preimage;
use crate::ids::sha256_of;
use crate::rbac::Action;
use crate::rbac::CredModel;
use crate::rbac::Error;
use crate::rbac::EventModel;
use crate::rbac::OrgModel;
use crate::rbac::Resource;
use crate::rbac::Role;

verus! {

/// Abstract registry state: three keyed tables, the identifier nonce, and the
/// log of emitted notifications.
#[verifier::ext_equal]
pub ghost struct RegistryModel {
    pub orgs: Map<Seq<u8>, OrgModel>,
    pub creds: Map<(Seq<u8>, Seq<u8>), CredModel>,
    pub members: Map<Seq<u8>, Seq<Seq<u8>>>,
    pub nonce: u64,
    pub events: Seq<EventModel>,
}

/// An organization name is 1 to 64 bytes long.
pub open spec fn valid_org_name(name: Seq<u8>) -> bool {
    1 <= name.len() <= 64
}

/// The role/action/resource matrix: a total function with no default-allow.
pub open spec fn role_allows(role: Role, action: Action, resource: Resource) -> bool {
    match role {
        Role::Admin => true,
        Role::Member => match (action, resource) {
            (Action::Create, Resource::Poll) => true,
            (Action::Vote, Resource::Poll) => true,
            (Action::Read, Resource::Poll) => true,
            (Action::Create, Resource::Form) => true,
            (Action::Read, Resource::Form) => true,
            (Action::Read, Resource::Governance) => true,
            (Action::Read, Resource::User) => true,
            _ => false,
        },
        Role::Viewer => action is Read,
    }
}

/// A credential authorizes at `now` when it is not revoked and `now` is no
/// later than its expiry; the expiry instant itself is still valid.
pub open spec fn cred_live(c: CredModel, now: u64) -> bool {
    &&& !c.revoked
    &&& match c.expires_at {
        Option::None => true,
        Option::Some(e) => now <= e,
    }
}

pub open spec fn org_at(m: RegistryModel, org: Seq<u8>) -> Option<OrgModel> {
    if m.orgs.contains_key(org) {
        Some(m.orgs[org])
    } else {
        None
    }
}

pub open spec fn cred_at(m: RegistryModel, org: Seq<u8>, subj: Seq<u8>) -> Option<CredModel> {
    if m.creds.contains_key((org, subj)) {
        Some(m.creds[(org, subj)])
    } else {
        None
    }
}

/// The membership list of an organization; empty when none is stored.
pub open spec fn members_of(m: RegistryModel, org: Seq<u8>) -> Seq<Seq<u8>> {
    if m.members.contains_key(org) {
        m.members[org]
    } else {
        Seq::empty()
    }
}

/// The admin guard: the caller must hold a current, non-revoked Admin
/// credential in the organization.  An expired admin gets the specific
/// `CredentialExpired`; everyone else gets `Unauthorized`.
pub open spec fn admin_gate(m: RegistryModel, org: Seq<u8>, caller: Seq<u8>, now: u64) -> Result<
    (),
    Error,
> {
    match cred_at(m, org, caller) {
        Some(c) => if !c.revoked && c.role is Admin {
            match c.expires_at {
                Option::Some(e) => if now > e {
                    Err(Error::CredentialExpired)
                } else {
                    Ok(())
                },
                Option::None => Ok(()),
            }
        } else {
            Err(Error::Unauthorized)
        },
        None => Err(Error::Unauthorized),
    }
}

/// The permission query: false for a missing organization, a missing
/// credential, a revoked or expired credential, and otherwise the matrix.
pub open spec fn has_perm(
    m: RegistryModel,
    org: Seq<u8>,
    user: Seq<u8>,
    action: Action,
    resource: Resource,
    now: u64,
) -> bool {
    &&& org_at(m, org) is Some
    &&& match cred_at(m, org, user) {
        Some(c) => cred_live(c, now) && role_allows(c.role, action, resource),
        None => false,
    }
}

/// The subject's role, filtered to currently valid credentials.
pub open spec fn user_role(m: RegistryModel, org: Seq<u8>, user: Seq<u8>, now: u64) -> Option<
    Role,
> {
    match cred_at(m, org, user) {
        Some(c) => if cred_live(c, now) {
            Some(c.role)
        } else {
            None
        },
        None => None,
    }
}

/// The subject's credential, filtered to currently valid credentials.
pub open spec fn live_credential(m: RegistryModel, org: Seq<u8>, user: Seq<u8>, now: u64) -> Option<
    CredModel,
> {
    match cred_at(m, org, user) {
        Some(c) => if cred_live(c, now) {
            Some(c)
        } else {
            None
        },
        None => None,
    }
}

/// No subject appears twice.
pub open spec fn distinct_subjects(s: Seq<Seq<u8>>) -> bool {
    forall|i: int, j: int| 0 <= i < j < s.len() ==> s[i] != s[j]
}

/// `s` with every occurrence of `x` removed, order otherwise kept.
pub open spec fn remove_all(s: Seq<Seq<u8>>, x: Seq<u8>) -> Seq<Seq<u8>>
    decreases s.len(),
{
    if s.len() == 0 {
        Seq::empty()
    } else if s[0] == x {
        remove_all(s.subrange(1, s.len() as int), x)
    } else {
        seq![s[0]] + remove_all(s.subrange(1, s.len() as int), x)
    }
}

/// Well-formedness of the registry state.
///
/// Each table entry is keyed by its own identifiers; every organization has a
/// membership list whose length is its `member_count`; membership lists hold
/// distinct subjects and fit the counter; and the membership lists track the
/// credential table exactly: a subject is listed if and only if it holds a
/// non-revoked credential in that organization.
pub open spec fn wf(m: RegistryModel) -> bool {
    &&& forall|k: Seq<u8>| #[trigger] m.orgs.contains_key(k) ==> m.orgs[k].id == k
    &&& forall|p: (Seq<u8>, Seq<u8>)| #[trigger]
        m.creds.contains_key(p) ==> m.creds[p].org_id == p.0 && m.creds[p].subject == p.1
    &&& forall|k: Seq<u8>| #[trigger]
        m.orgs.contains_key(k) ==> m.members.contains_key(k) && m.orgs[k].member_count as nat
            == m.members[k].len()
    &&& forall|k: Seq<u8>| #[trigger]
        m.members.contains_key(k) ==> distinct_subjects(m.members[k]) && m.members[k].len()
            <= u32::MAX
    &&& forall|k: Seq<u8>, i: int|
        #![trigger m.members.contains_key(k), m.members[k][i]]
        m.members.contains_key(k) && 0 <= i < m.members[k].len() ==> m.creds.contains_key(
            (k, m.members[k][i]),
        ) && !m.creds[(k, m.members[k][i])].revoked
    &&& forall|p: (Seq<u8>, Seq<u8>)| #[trigger]
        m.creds.contains_key(p) && !m.creds[p].revoked ==> members_of(m, p.0).contains(p.1)
    &&& forall|p: (Seq<u8>, Seq<u8>)| #[trigger]
        m.creds.contains_key(p) ==> m.orgs.contains_key(p.0)
    &&& forall|k: Seq<u8>| #[trigger] m.members.contains_key(k) ==> m.orgs.contains_key(k)
}

/// Transition relation of `create_organization`.
pub open spec fn create_org_rel(
    pre: RegistryModel,
    post: RegistryModel,
    name: Seq<u8>,
    caller: Seq<u8>,
    now: u64,
    r: Result<Seq<u8>, Error>,
) -> bool {
    if !valid_org_name(name) {
        r == Err::<Seq<u8>, Error>(Error::InvalidOrganizationName) && post == pre
    } else {
        let oid = sha256_of(org_id_preimage(name, caller, now));
        if pre.orgs.contains_key(oid) {
            r == Err::<Seq<u8>, Error>(Error::OrganizationExists) && post == pre
        } else {
            let cid = sha256_of(cred_id_preimage(pre.nonce, now, caller));
            &&& r == Ok::<Seq<u8>, Error>(oid)
            &&& post.orgs == pre.orgs.insert(
                oid,
                OrgModel { id: oid, name: name, owner: caller, created_at: now, member_count: 1 },
            )
            &&& post.creds == pre.creds.insert(
                (oid, caller),
                CredModel {
                    id: cid,
                    org_id: oid,
                    subject: caller,
                    role: Role::Admin,
                    issued_by: caller,
                    issued_at: now,
                    expires_at: None,
                    revoked: false,
                },
            )
            &&& post.members == pre.members.insert(oid, seq![caller])
            &&& post.nonce == pre.nonce + 1
            &&& post.events == pre.events.push(
                EventModel::Issued {
                    credential_id: cid,
                    org_id: oid,
                    subject: caller,
                    role: Role::Admin,
                    issued_by: caller,
                },
            ).push(EventModel::OrgCreated { org_id: oid, owner: caller, name: name })
        }
    }
}

/// Transition relation of `issue_credential`.
pub open spec fn issue_rel(
    pre: RegistryModel,
    post: RegistryModel,
    org: Seq<u8>,
    subj: Seq<u8>,
    role: Role,
    expires_at: Option<u64>,
    caller: Seq<u8>,
    now: u64,
    r: Result<Seq<u8>, Error>,
) -> bool {
    if !pre.orgs.contains_key(org) {
        r == Err::<Seq<u8>, Error>(Error::OrganizationNotFound) && post == pre
    } else {
        match admin_gate(pre, org, caller, now) {
            Err(e) => r == Err::<Seq<u8>, Error>(e) && post == pre,
            Ok(_) => {
                let cid = sha256_of(cred_id_preimage(pre.nonce, now, caller));
                let listed = members_of(pre, org).contains(subj);
                let o = pre.orgs[org];
                &&& r == Ok::<Seq<u8>, Error>(cid)
                &&& post.creds == pre.creds.insert(
                    (org, subj),
                    CredModel {
                        id: cid,
                        org_id: org,
                        subject: subj,
                        role: role,
                        issued_by: caller,
                        issued_at: now,
                        expires_at: expires_at,
                        revoked: false,
                    },
                )
                &&& post.members == if listed {
                    pre.members
                } else {
                    pre.members.insert(org, members_of(pre, org).push(subj))
                }
                &&& post.orgs == if listed {
                    pre.orgs
                } else {
                    pre.orgs.insert(
                        org,
                        OrgModel {
                            id: o.id,
                            name: o.name,
                            owner: o.owner,
                            created_at: o.created_at,
                            member_count: (members_of(pre, org).len() + 1) as u32,
                        },
                    )
                }
                &&& post.nonce == pre.nonce + 1
                &&& post.events == pre.events.push(
                    EventModel::Issued {
                        credential_id: cid,
                        org_id: org,
                        subject: subj,
                        role: role,
                        issued_by: caller,
                    },
                )
            },
        }
    }
}

/// Transition relation of `revoke_credential`.
pub open spec fn revoke_rel(
    pre: RegistryModel,
    post: RegistryModel,
    org: Seq<u8>,
    subj: Seq<u8>,
    caller: Seq<u8>,
    now: u64,
    r: Result<(), Error>,
) -> bool {
    if !pre.orgs.contains_key(org) {
        r == Err::<(), Error>(Error::OrganizationNotFound) && post == pre
    } else {
        match admin_gate(pre, org, caller, now) {
            Err(e) => r == Err::<(), Error>(e) && post == pre,
            Ok(_) => match cred_at(pre, org, subj) {
                None => r == Err::<(), Error>(Error::CredentialNotFound) && post == pre,
                Some(c) => {
                    let remaining = remove_all(members_of(pre, org), subj);
                    let o = pre.orgs[org];
                    &&& r == Ok::<(), Error>(())
                    &&& post.creds == pre.creds.insert(
                        (org, subj),
                        CredModel {
                            id: c.id,
                            org_id: c.org_id,
                            subject: c.subject,
                            role: c.role,
                            issued_by: c.issued_by,
                            issued_at: c.issued_at,
                            expires_at: c.expires_at,
                            revoked: true,
                        },
                    )
                    &&& post.members == pre.members.insert(org, remaining)
                    &&& post.orgs == pre.orgs.insert(
                        org,
                        OrgModel {
                            id: o.id,
                            name: o.name,
                            owner: o.owner,
                            created_at: o.created_at,
                            member_count: remaining.len() as u32,
                        },
                    )
                    &&& post.nonce == pre.nonce
                    &&& post.events == pre.events.push(
                        EventModel::Revoked { org_id: org, subject: subj, revoked_by: caller },
                    )
                },
            },
        }
    }
}

/// Transition relation of `update_role`.
pub open spec fn update_role_rel(
    pre: RegistryModel,
    post: RegistryModel,
    org: Seq<u8>,
    subj: Seq<u8>,
    new_role: Role,
    caller: Seq<u8>,
    now: u64,
    r: Result<(), Error>,
) -> bool {
    if !pre.orgs.contains_key(org) {
        r == Err::<(), Error>(Error::OrganizationNotFound) && post == pre
    } else {
        match admin_gate(pre, org, caller, now) {
            Err(e) => r == Err::<(), Error>(e) && post == pre,
            Ok(_) => match cred_at(pre, org, subj) {
                None => r == Err::<(), Error>(Error::CredentialNotFound) && post == pre,
                Some(c) => if c.revoked {
                    r == Err::<(), Error>(Error::CredentialRevoked) && post == pre
                } else {
                    &&& r == Ok::<(), Error>(())
                    &&& post.creds == pre.creds.insert(
                        (org, subj),
                        CredModel {
                            id: c.id,
                            org_id: c.org_id,
                            subject: c.subject,
                            role: new_role,
                            issued_by: c.issued_by,
                            issued_at: c.issued_at,
                            expires_at: c.expires_at,
                            revoked: c.revoked,
                        },
                    )
                    &&& post.members == pre.members
                    &&& post.orgs == pre.orgs
                    &&& post.nonce == pre.nonce
                    &&& post.events == pre.events
                },
            },
        }
    }
}

/// Maps an executable identifier result to its mathematical image.
pub open spec fn result_view(r: Result<Vec<u8>, Error>) -> Result<Seq<u8>, Error> {
    match r {
        Ok(v) => Ok(v@),
        Err(e) => Err(e),
    }
}

pub proof fn lemma_seq_push_contains(s: Seq<Seq<u8>>, a: Seq<u8>, y: Seq<u8>)
    requires
        s.contains(y),
    ensures
        s.push(a).contains(y),
{
    let i = choose|i: int| 0 <= i < s.len() && s[i] == y;
    assert(s.push(a)[i] == y);
}

/// Membership in a one-element-then-rest concatenation.
pub proof fn lemma_concat_single_contains(x: Seq<u8>, r: Seq<Seq<u8>>, y: Seq<u8>)
    ensures
        (seq![x] + r).contains(y) <==> (x == y || r.contains(y)),
{
    let c = seq![x] + r;
    if c.contains(y) {
        let i = choose|i: int| 0 <= i < c.len() && c[i] == y;
        if i == 0 {
            assert(x == y);
        } else {
            assert(r[i - 1] == y);
        }
    }
    if x == y {
        assert(c[0] == y);
    }
    if r.contains(y) {
        let i = choose|i: int| 0 <= i < r.len() && r[i] == y;
        assert(c[i + 1] == y);
    }
}

/// Membership split into the head and the tail.
pub proof fn lemma_head_tail_contains(s: Seq<Seq<u8>>, y: Seq<u8>)
    requires
        s.len() > 0,
    ensures
        s.contains(y) <==> (s[0] == y || s.subrange(1, s.len() as int).contains(y)),
{
    let t = s.subrange(1, s.len() as int);
    if s.contains(y) {
        let i = choose|i: int| 0 <= i < s.len() && s[i] == y;
        if i > 0 {
            assert(t[i - 1] == y);
        }
    }
    if t.contains(y) {
        let i = choose|i: int| 0 <= i < t.len() && t[i] == y;
        assert(s[i + 1] == y);
    }
}

/// Removal keeps exactly the other subjects.
pub proof fn lemma_remove_all_contains(s: Seq<Seq<u8>>, x: Seq<u8>, y: Seq<u8>)
    ensures
        remove_all(s, x).contains(y) <==> (s.contains(y) && y != x),
    decreases s.len(),
{
    if s.len() == 0 {
    } else {
        let t = s.subrange(1, s.len() as int);
        lemma_remove_all_contains(t, x, y);
        lemma_head_tail_contains(s, y);
        if s[0] == x {
        } else {
            lemma_concat_single_contains(s[0], remove_all(t, x), y);
        }
    }
}

/// Removal never lengthens the list.
pub proof fn lemma_remove_all_len(s: Seq<Seq<u8>>, x: Seq<u8>)
    ensures
        remove_all(s, x).len() <= s.len(),
    decreases s.len(),
{
    if s.len() > 0 {
        lemma_remove_all_len(s.subrange(1, s.len() as int), x);
    }
}

/// Removal keeps the subjects distinct.
pub proof fn lemma_remove_all_distinct(s: Seq<Seq<u8>>, x: Seq<u8>)
    requires
        distinct_subjects(s),
    ensures
        distinct_subjects(remove_all(s, x)),
    decreases s.len(),
{
    if s.len() > 0 {
        let t = s.subrange(1, s.len() as int);
        assert(distinct_subjects(t));
        lemma_remove_all_distinct(t, x);
        if s[0] != x {
            let r = remove_all(t, x);
            let c = seq![s[0]] + r;
            assert forall|i: int, j: int| 0 <= i < j < c.len() implies c[i] != c[j] by {
                if i == 0 {
                    assert(r.contains(r[j - 1]));
                    lemma_remove_all_contains(t, x, r[j - 1]);
                    let w = choose|w: int| 0 <= w < t.len() && t[w] == r[j - 1];
                    assert(s[w + 1] == r[j - 1]);
                } else {
                    assert(c[i] == r[i - 1] && c[j] == r[j - 1]);
                }
            }
        }
    }
}

/// Removing an absent subject changes nothing.
pub proof fn lemma_remove_all_absent(s: Seq<Seq<u8>>, x: Seq<u8>)
    requires
        !s.contains(x),
    ensures
        remove_all(s, x) == s,
    decreases s.len(),
{
    if s.len() > 0 {
        let t = s.subrange(1, s.len() as int);
        lemma_head_tail_contains(s, x);
        lemma_remove_all_absent(t, x);
        assert(s[0] != x);
        assert(seq![s[0]] + t =~= s);
    }
}

/// Removal commutes with appending one subject.
pub proof fn lemma_remove_all_push(s: Seq<Seq<u8>>, y: Seq<u8>, x: Seq<u8>)
    ensures
        remove_all(s.push(y), x) == if y == x {
            remove_all(s, x)
        } else {
            remove_all(s, x).push(y)
        },
    decreases s.len(),
{
    let t = s.push(y);
    if s.len() == 0 {
        assert(t[0] == y);
        let t1 = t.subrange(1, t.len() as int);
        assert(t1 =~= Seq::<Seq<u8>>::empty());
        if y != x {
            assert(seq![y] + remove_all(t1, x) =~= remove_all(s, x).push(y));
        }
    } else {
        let s1 = s.subrange(1, s.len() as int);
        lemma_remove_all_push(s1, y, x);
        assert(t[0] == s[0]);
        assert(t.subrange(1, t.len() as int) =~= s1.push(y));
        if s[0] != x {
            if y == x {
                assert(seq![s[0]] + remove_all(s1.push(y), x) =~= seq![s[0]] + remove_all(s1, x));
            } else {
                assert(seq![s[0]] + remove_all(s1, x).push(y) =~= (seq![s[0]] + remove_all(s1, x)).push(y));
            }
        }
    }
}

/// Creating an organization together with its admin credential and its
/// one-subject membership list preserves well-formedness.
pub proof fn lemma_wf_create(
    pre: RegistryModel,
    post: RegistryModel,
    name: Seq<u8>,
    caller: Seq<u8>,
    now: u64,
    oid: Seq<u8>,
    cid: Seq<u8>,
)
    requires
        wf(pre),
        !pre.orgs.contains_key(oid),
        post.orgs == pre.orgs.insert(
            oid,
            OrgModel { id: oid, name: name, owner: caller, created_at: now, member_count: 1 },
        ),
        post.creds == pre.creds.insert(
            (oid, caller),
            CredModel {
                id: cid,
                org_id: oid,
                subject: caller,
                role: Role::Admin,
                issued_by: caller,
                issued_at: now,
                expires_at: None,
                revoked: false,
            },
        ),
        post.members == pre.members.insert(oid, seq![caller]),
    ensures
        wf(post),
{
    assert forall|k: Seq<u8>, i: int|
        #![trigger post.members.contains_key(k), post.members[k][i]]
        post.members.contains_key(k) && 0 <= i < post.members[k].len() implies post.creds.contains_key(
        (k, post.members[k][i]),
    ) && !post.creds[(k, post.members[k][i])].revoked by {
        if k == oid {
            assert(post.members[k] =~= seq![caller]);
            assert(post.members[k][0] == caller);
        } else {
            assert(pre.members.contains_key(k));
            assert((k, post.members[k][i]).0 == k);
        }
    }
    assert forall|p: (Seq<u8>, Seq<u8>)| #[trigger]
        post.creds.contains_key(p) && !post.creds[p].revoked implies members_of(post, p.0).contains(
        p.1,
    ) by {
        if p == (oid, caller) {
            assert(members_of(post, oid) =~= seq![caller]);
            assert(members_of(post, oid)[0] == caller);
        } else {
            assert(pre.creds.contains_key(p));
            assert(p.0 != oid);
            assert(members_of(post, p.0) == members_of(pre, p.0));
        }
    }
}

/// Issuing a credential — overwriting any prior one for the pair and listing
/// the subject once — preserves well-formedness.
pub proof fn lemma_wf_issue(
    pre: RegistryModel,
    post: RegistryModel,
    org: Seq<u8>,
    subj: Seq<u8>,
    role: Role,
    expires_at: Option<u64>,
    caller: Seq<u8>,
    now: u64,
    cid: Seq<u8>,
)
    requires
        wf(pre),
        pre.orgs.contains_key(org),
        members_of(pre, org).len() < u32::MAX,
        post.creds == pre.creds.insert(
            (org, subj),
            CredModel {
                id: cid,
                org_id: org,
                subject: subj,
                role: role,
                issued_by: caller,
                issued_at: now,
                expires_at: expires_at,
                revoked: false,
            },
        ),
        post.members == if members_of(pre, org).contains(subj) {
            pre.members
        } else {
            pre.members.insert(org, members_of(pre, org).push(subj))
        },
        post.orgs == if members_of(pre, org).contains(subj) {
            pre.orgs
        } else {
            pre.orgs.insert(
                org,
                OrgModel {
                    id: pre.orgs[org].id,
                    name: pre.orgs[org].name,
                    owner: pre.orgs[org].owner,
                    created_at: pre.orgs[org].created_at,
                    member_count: (members_of(pre, org).len() + 1) as u32,
                },
            )
        },
    ensures
        wf(post),
{
    let listed = members_of(pre, org).contains(subj);
    let pm = members_of(pre, org);
    assert(pre.members.contains_key(org));
    if !listed {
        assert(post.members[org] == pm.push(subj));
        assert forall|i: int, j: int| 0 <= i < j < pm.push(subj).len() implies pm.push(subj)[i]
            != pm.push(subj)[j] by {
            if j == pm.len() {
                assert(pm.push(subj)[i] == pm[i]);
                if pm[i] == subj {
                    assert(pm.contains(subj));
                }
            }
        }
    }
    assert forall|k: Seq<u8>, i: int|
        #![trigger post.members.contains_key(k), post.members[k][i]]
        post.members.contains_key(k) && 0 <= i < post.members[k].len() implies post.creds.contains_key(
        (k, post.members[k][i]),
    ) && !post.creds[(k, post.members[k][i])].revoked by {
        if k == org && !listed {
            if i < pm.len() {
                assert(post.members[k][i] == pm[i]);
            } else {
                assert(post.members[k][i] == subj);
            }
        } else {
            assert(post.members[k] == pre.members[k]);
        }
    }
    assert forall|p: (Seq<u8>, Seq<u8>)| #[trigger]
        post.creds.contains_key(p) && !post.creds[p].revoked implies members_of(post, p.0).contains(
        p.1,
    ) by {
        if p == (org, subj) {
            if listed {
                assert(members_of(post, org) == pm);
            } else {
                assert(members_of(post, org) == pm.push(subj));
                assert(pm.push(subj)[pm.len() as int] == subj);
            }
        } else {
            assert(pre.creds.contains_key(p) && !pre.creds[p].revoked);
            assert(members_of(pre, p.0).contains(p.1));
            if p.0 == org && !listed {
                lemma_seq_push_contains(pm, subj, p.1);
            } else {
                assert(members_of(post, p.0) == members_of(pre, p.0));
            }
        }
    }
}

/// Revoking a credential and unlisting its subject preserves
/// well-formedness.
pub proof fn lemma_wf_revoke(
    pre: RegistryModel,
    post: RegistryModel,
    org: Seq<u8>,
    subj: Seq<u8>,
    c: CredModel,
)
    requires
        wf(pre),
        pre.orgs.contains_key(org),
        cred_at(pre, org, subj) == Some(c),
        post.creds == pre.creds.insert(
            (org, subj),
            CredModel {
                id: c.id,
                org_id: c.org_id,
                subject: c.subject,
                role: c.role,
                issued_by: c.issued_by,
                issued_at: c.issued_at,
                expires_at: c.expires_at,
                revoked: true,
            },
        ),
        post.members == pre.members.insert(org, remove_all(members_of(pre, org), subj)),
        post.orgs == pre.orgs.insert(
            org,
            OrgModel {
                id: pre.orgs[org].id,
                name: pre.orgs[org].name,
                owner: pre.orgs[org].owner,
                created_at: pre.orgs[org].created_at,
                member_count: remove_all(members_of(pre, org), subj).len() as u32,
            },
        ),
    ensures
        wf(post),
{
    let pm = members_of(pre, org);
    let rem = remove_all(pm, subj);
    assert(pre.members.contains_key(org));
    lemma_remove_all_len(pm, subj);
    lemma_remove_all_distinct(pm, subj);
    assert forall|k: Seq<u8>, i: int|
        #![trigger post.members.contains_key(k), post.members[k][i]]
        post.members.contains_key(k) && 0 <= i < post.members[k].len() implies post.creds.contains_key(
        (k, post.members[k][i]),
    ) && !post.creds[(k, post.members[k][i])].revoked by {
        if k == org {
            let y = rem[i];
            assert(rem.contains(y));
            lemma_remove_all_contains(pm, subj, y);
            assert(pm.contains(y) && y != subj);
            let w = choose|w: int| 0 <= w < pm.len() && pm[w] == y;
            assert(pre.creds.contains_key((org, y)) && !pre.creds[(org, y)].revoked);
        } else {
            assert(post.members[k] == pre.members[k]);
        }
    }
    assert forall|p: (Seq<u8>, Seq<u8>)| #[trigger]
        post.creds.contains_key(p) && !post.creds[p].revoked implies members_of(post, p.0).contains(
        p.1,
    ) by {
        assert(p != (org, subj));
        assert(pre.creds.contains_key(p) && !pre.creds[p].revoked);
        assert(members_of(pre, p.0).contains(p.1));
        if p.0 == org {
            assert(p.1 != subj) by {
                if p.1 == subj {
                    assert(p == (org, subj));
                }
            }
            lemma_remove_all_contains(pm, subj, p.1);
        } else {
            assert(members_of(post, p.0) == members_of(pre, p.0));
        }
    }
}

/// Replacing the role of a live credential preserves well-formedness.
pub proof fn lemma_wf_update(
    pre: RegistryModel,
    post: RegistryModel,
    org: Seq<u8>,
    subj: Seq<u8>,
    new_role: Role,
    c: CredModel,
)
    requires
        wf(pre),
        pre.orgs.contains_key(org),
        cred_at(pre, org, subj) == Some(c),
        !c.revoked,
        post.creds == pre.creds.insert(
            (org, subj),
            CredModel {
                id: c.id,
                org_id: c.org_id,
                subject: c.subject,
                role: new_role,
                issued_by: c.issued_by,
                issued_at: c.issued_at,
                expires_at: c.expires_at,
                revoked: c.revoked,
            },
        ),
        post.members == pre.members,
        post.orgs == pre.orgs,
    ensures
        wf(post),
{
    assert forall|k: Seq<u8>, i: int|
        #![trigger post.members.contains_key(k), post.members[k][i]]
        post.members.contains_key(k) && 0 <= i < post.members[k].len() implies post.creds.contains_key(
        (k, post.members[k][i]),
    ) && !post.creds[(k, post.members[k][i])].revoked by {
        assert(pre.creds.contains_key((k, post.members[k][i])));
    }
    assert forall|p: (Seq<u8>, Seq<u8>)| #[trigger]
        post.creds.contains_key(p) && !post.creds[p].revoked implies members_of(post, p.0).contains(
        p.1,
    ) by {
        assert(pre.creds.contains_key(p) && !pre.creds[p].revoked);
        assert(members_of(post, p.0) == members_of(pre, p.0));
    }
}

} // verus!
