//! Laws of the registry, each proved against the transition relations and
//! spec functions of [`crate::model`] that the executable operations promise.

use vstd::prelude::*;

use crate::model::admin_gate;
use crate::model::cred_at;
use crate::model::cred_live;
use crate::model::create_org_rel;
use crate::model::has_perm;
use crate::model::issue_rel;
use crate::model::members_of;
use crate::model::remove_all;
use crate::model::revoke_rel;
use crate::model::role_allows;
use crate::model::update_role_rel;
use crate::model::wf;
use crate::model::RegistryModel;
use crate::rbac::Action;
use crate::rbac::Error;
use crate::rbac::Resource;
use crate::rbac::Role;

verus! {

/// After a successful `create_organization`, the organization is stored with
/// `member_count` one, its only member is the creator, and the creator holds
/// an Admin credential granting every action on every resource at any time.
pub proof fn law_create_grants_admin(
    pre: RegistryModel,
    post: RegistryModel,
    name: Seq<u8>,
    caller: Seq<u8>,
    now: u64,
    oid: Seq<u8>,
    action: Action,
    resource: Resource,
    t: u64,
)
    requires
        wf(pre),
        create_org_rel(pre, post, name, caller, now, Ok(oid)),
    ensures
        post.orgs.contains_key(oid),
        post.orgs[oid].member_count == 1,
        post.orgs[oid].owner == caller,
        members_of(post, oid) == seq![caller],
        has_perm(post, oid, caller, action, resource, t),
{
}

/// A subject holding a currently valid Viewer credential may read anything
/// and do nothing else.
pub proof fn law_viewer_reads_only(
    pre: RegistryModel,
    post: RegistryModel,
    org: Seq<u8>,
    subj: Seq<u8>,
    expires_at: Option<u64>,
    caller: Seq<u8>,
    now: u64,
    cid: Seq<u8>,
    action: Action,
    resource: Resource,
    t: u64,
)
    requires
        wf(pre),
        issue_rel(pre, post, org, subj, Role::Viewer, expires_at, caller, now, Ok(cid)),
        match expires_at {
            Some(e) => t <= e,
            None => true,
        },
    ensures
        has_perm(post, org, subj, action, resource, t) == (action is Read),
{
}

/// Issuing a credential to a subject not yet listed and then revoking it
/// returns the membership list and `member_count` to their prior values, and
/// the subject is thereafter denied every action on every resource.
pub proof fn law_issue_then_revoke_restores(
    m0: RegistryModel,
    m1: RegistryModel,
    m2: RegistryModel,
    org: Seq<u8>,
    subj: Seq<u8>,
    role: Role,
    expires_at: Option<u64>,
    caller1: Seq<u8>,
    now1: u64,
    cid: Seq<u8>,
    caller2: Seq<u8>,
    now2: u64,
)
    requires
        wf(m0),
        !members_of(m0, org).contains(subj),
        issue_rel(m0, m1, org, subj, role, expires_at, caller1, now1, Ok(cid)),
        revoke_rel(m1, m2, org, subj, caller2, now2, Ok(())),
    ensures
        members_of(m2, org) == members_of(m0, org),
        m2.orgs.contains_key(org),
        m2.orgs[org].member_count == m0.orgs[org].member_count,
        forall|action: Action, resource: Resource, t: u64|
            !has_perm(m2, org, subj, action, resource, t),
{
    let pm = members_of(m0, org);
    assert(members_of(m1, org) == pm.push(subj));
    crate::model::lemma_remove_all_push(pm, subj, subj);
    crate::model::lemma_remove_all_absent(pm, subj);
    assert(members_of(m2, org) == remove_all(pm.push(subj), subj));
    assert(m0.orgs.contains_key(org));
    assert(m0.members.contains_key(org));
    assert(m0.orgs[org].member_count as nat == pm.len());
    assert(m2.orgs[org].member_count == pm.len() as u32);
}

/// Reading the membership list mutates nothing, so two reads with no
/// intervening mutation return the same ordered list: the result is a
/// function of the state alone.
pub proof fn law_members_read_idempotent(
    m: RegistryModel,
    org: Seq<u8>,
    r1: Seq<Seq<u8>>,
    r2: Seq<Seq<u8>>,
)
    requires
        r1 == members_of(m, org),
        r2 == members_of(m, org),
    ensures
        r1 == r2,
{
}

/// Expiry boundary: a credential expiring at `e` still authorizes at time
/// `e` itself and no longer authorizes at any time strictly after `e`.
pub proof fn law_expiry_boundary(
    m: RegistryModel,
    org: Seq<u8>,
    user: Seq<u8>,
    action: Action,
    resource: Resource,
    e: u64,
    c: crate::rbac::CredModel,
)
    requires
        m.orgs.contains_key(org),
        cred_at(m, org, user) == Some(c),
        !c.revoked,
        c.expires_at == Some(e),
        role_allows(c.role, action, resource),
    ensures
        has_perm(m, org, user, action, resource, e),
        forall|t: u64| t > e ==> !has_perm(m, org, user, action, resource, t),
{
}

/// A caller without a current, non-revoked Admin credential is refused by
/// the admin guard with `Unauthorized` — the caller's relation to the target
/// subject plays no part.
pub proof fn law_non_admin_gate_unauthorized(m: RegistryModel, org: Seq<u8>, caller: Seq<u8>, now: u64)
    requires
        match cred_at(m, org, caller) {
            Some(c) => c.revoked || !(c.role is Admin),
            None => true,
        },
    ensures
        admin_gate(m, org, caller, now) == Err::<(), Error>(Error::Unauthorized),
{
}

/// A non-admin caller's `issue_credential` fails with `Unauthorized` and
/// changes nothing, whatever the target subject — their own included.
pub proof fn law_issue_requires_admin(
    pre: RegistryModel,
    post: RegistryModel,
    org: Seq<u8>,
    subj: Seq<u8>,
    role: Role,
    expires_at: Option<u64>,
    caller: Seq<u8>,
    now: u64,
    r: Result<Seq<u8>, Error>,
)
    requires
        pre.orgs.contains_key(org),
        issue_rel(pre, post, org, subj, role, expires_at, caller, now, r),
        match cred_at(pre, org, caller) {
            Some(c) => c.revoked || !(c.role is Admin),
            None => true,
        },
    ensures
        r == Err::<Seq<u8>, Error>(Error::Unauthorized),
        post == pre,
{
}

/// A non-admin caller's `revoke_credential` fails with `Unauthorized` and
/// changes nothing, whatever the target subject — their own included.
pub proof fn law_revoke_requires_admin(
    pre: RegistryModel,
    post: RegistryModel,
    org: Seq<u8>,
    subj: Seq<u8>,
    caller: Seq<u8>,
    now: u64,
    r: Result<(), Error>,
)
    requires
        pre.orgs.contains_key(org),
        revoke_rel(pre, post, org, subj, caller, now, r),
        match cred_at(pre, org, caller) {
            Some(c) => c.revoked || !(c.role is Admin),
            None => true,
        },
    ensures
        r == Err::<(), Error>(Error::Unauthorized),
        post == pre,
{
}

/// A non-admin caller's `update_role` fails with `Unauthorized` and changes
/// nothing, whatever the target subject — their own included.
pub proof fn law_update_requires_admin(
    pre: RegistryModel,
    post: RegistryModel,
    org: Seq<u8>,
    subj: Seq<u8>,
    new_role: Role,
    caller: Seq<u8>,
    now: u64,
    r: Result<(), Error>,
)
    requires
        pre.orgs.contains_key(org),
        update_role_rel(pre, post, org, subj, new_role, caller, now, r),
        match cred_at(pre, org, caller) {
            Some(c) => c.revoked || !(c.role is Admin),
            None => true,
        },
    ensures
        r == Err::<(), Error>(Error::Unauthorized),
        post == pre,
{
}

/// Revocation is terminal for authorization: in any well-formed state whose
/// credential for the pair is revoked, every permission query denies.
pub proof fn law_revoked_denies_everything(
    m: RegistryModel,
    org: Seq<u8>,
    user: Seq<u8>,
    action: Action,
    resource: Resource,
    t: u64,
    c: crate::rbac::CredModel,
)
    requires
        cred_at(m, org, user) == Some(c),
        c.revoked,
    ensures
        !has_perm(m, org, user, action, resource, t),
{
    assert(!cred_live(c, t));
}

} // verus!
