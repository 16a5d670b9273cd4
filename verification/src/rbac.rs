//! The registry core: organizations, role credentials and the operations on
//! them.  Every external call enters through one of the public methods of
//! [`Intran3tRBAC`]; mutating operations pass the admin guard before they
//! touch any state, and each operation's contract relates the new state to
//! the old one through the transition relations of [`crate::model`].
//!
//! The caller's identity and the current time come from the host environment,
//! so every operation takes them as plain arguments.

use vstd::assert_by_contradiction;
use vstd::prelude::*;

use crate::assoc::AssocVec;
use crate::bytevec::bytes_eq;
use crate::bytevec::copy_bytes;
use crate::credstore::CredVec;
use crate::ids::derive_credential_id;
use crate::ids::derive_org_id;
use crate::model::admin_gate;
use crate::model::cred_live;
use crate::model::create_org_rel;
use crate::model::has_perm;
use crate::model::issue_rel;
use crate::model::live_credential;
use crate::model::members_of;
use crate::model::org_at;
use crate::model::remove_all;
use crate::model::result_view;
use crate::model::revoke_rel;
use crate::model::role_allows;
use crate::model::update_role_rel;
use crate::model::user_role;
use crate::model::wf;
use crate::model::RegistryModel;

verus! {

/// Role a credential grants within one organization.
#[derive(Clone, Copy, PartialEq, Eq, Debug, Structural)]
pub enum Role {
    Admin,
    Member,
    Viewer,
}

/// Action a caller may attempt on a resource.
#[derive(Clone, Copy, PartialEq, Eq, Debug, Structural)]
pub enum Action {
    Create,
    Read,
    Update,
    Delete,
    Admin,
    Vote,
    Manage,
}

/// Resource kind an action is attempted on.
#[derive(Clone, Copy, PartialEq, Eq, Debug, Structural)]
pub enum Resource {
    Poll,
    Form,
    Governance,
    User,
    Settings,
    All,
}

/// Failures the registry reports to its callers.
#[derive(Clone, Copy, PartialEq, Eq, Debug, Structural)]
pub enum Error {
    /// Caller is not authorized to perform this action.
    Unauthorized,
    /// Credential not found.
    CredentialNotFound,
    /// Organization not found.
    OrganizationNotFound,
    /// Organization already exists.
    OrganizationExists,
    /// Credential has expired.
    CredentialExpired,
    /// Credential has been revoked.
    CredentialRevoked,
    /// Invalid organization name.
    InvalidOrganizationName,
}

/// A registered organization.
#[derive(Debug)]
pub struct Organization {
    pub id: Vec<u8>,
    pub name: Vec<u8>,
    pub owner: Vec<u8>,
    pub created_at: u64,
    pub member_count: u32,
}

/// Mathematical image of an [`Organization`].
#[verifier::ext_equal]
pub ghost struct OrgModel {
    pub id: Seq<u8>,
    pub name: Seq<u8>,
    pub owner: Seq<u8>,
    pub created_at: u64,
    pub member_count: u32,
}

impl DeepView for Organization {
    type V = OrgModel;

    open spec fn deep_view(&self) -> OrgModel {
        OrgModel {
            id: self.id@,
            name: self.name@,
            owner: self.owner@,
            created_at: self.created_at,
            member_count: self.member_count,
        }
    }
}

/// A role grant binding one subject to one role within one organization,
/// with optional expiry and a one-way revocation flag.
#[derive(Debug)]
pub struct Credential {
    pub id: Vec<u8>,
    pub org_id: Vec<u8>,
    pub subject: Vec<u8>,
    pub role: Role,
    pub issued_by: Vec<u8>,
    pub issued_at: u64,
    pub expires_at: Option<u64>,
    pub revoked: bool,
}

/// Mathematical image of a [`Credential`].
#[verifier::ext_equal]
pub ghost struct CredModel {
    pub id: Seq<u8>,
    pub org_id: Seq<u8>,
    pub subject: Seq<u8>,
    pub role: Role,
    pub issued_by: Seq<u8>,
    pub issued_at: u64,
    pub expires_at: Option<u64>,
    pub revoked: bool,
}

impl DeepView for Credential {
    type V = CredModel;

    open spec fn deep_view(&self) -> CredModel {
        CredModel {
            id: self.id@,
            org_id: self.org_id@,
            subject: self.subject@,
            role: self.role,
            issued_by: self.issued_by@,
            issued_at: self.issued_at,
            expires_at: self.expires_at,
            revoked: self.revoked,
        }
    }
}

/// Notification emitted when an organization is created.
#[derive(Debug)]
pub struct OrganizationCreated {
    pub org_id: Vec<u8>,
    pub owner: Vec<u8>,
    pub name: Vec<u8>,
}

/// Notification emitted when a credential is issued.
#[derive(Debug)]
pub struct CredentialIssued {
    pub credential_id: Vec<u8>,
    pub org_id: Vec<u8>,
    pub subject: Vec<u8>,
    pub role: Role,
    pub issued_by: Vec<u8>,
}

/// Notification emitted when a credential is revoked.
#[derive(Debug)]
pub struct CredentialRevoked {
    pub org_id: Vec<u8>,
    pub subject: Vec<u8>,
    pub revoked_by: Vec<u8>,
}

/// One emitted notification.
#[derive(Debug)]
pub enum Event {
    OrganizationCreated(OrganizationCreated),
    CredentialIssued(CredentialIssued),
    CredentialRevoked(CredentialRevoked),
}

/// Mathematical image of an [`Event`].
#[verifier::ext_equal]
pub ghost enum EventModel {
    OrgCreated { org_id: Seq<u8>, owner: Seq<u8>, name: Seq<u8> },
    Issued {
        credential_id: Seq<u8>,
        org_id: Seq<u8>,
        subject: Seq<u8>,
        role: Role,
        issued_by: Seq<u8>,
    },
    Revoked { org_id: Seq<u8>, subject: Seq<u8>, revoked_by: Seq<u8> },
}

impl DeepView for Event {
    type V = EventModel;

    open spec fn deep_view(&self) -> EventModel {
        match self {
            Event::OrganizationCreated(e) => EventModel::OrgCreated {
                org_id: e.org_id@,
                owner: e.owner@,
                name: e.name@,
            },
            Event::CredentialIssued(e) => EventModel::Issued {
                credential_id: e.credential_id@,
                org_id: e.org_id@,
                subject: e.subject@,
                role: e.role,
                issued_by: e.issued_by@,
            },
            Event::CredentialRevoked(e) => EventModel::Revoked {
                org_id: e.org_id@,
                subject: e.subject@,
                revoked_by: e.revoked_by@,
            },
        }
    }
}

/// Fresh copy of an organization record.
pub fn clone_organization(o: &Organization) -> (r: Organization)
    ensures
        r.deep_view() == o.deep_view(),
{
    Organization {
        id: copy_bytes(&o.id),
        name: copy_bytes(&o.name),
        owner: copy_bytes(&o.owner),
        created_at: o.created_at,
        member_count: o.member_count,
    }
}

/// Fresh copy of a credential record.
pub fn clone_credential(c: &Credential) -> (r: Credential)
    ensures
        r.deep_view() == c.deep_view(),
{
    Credential {
        id: copy_bytes(&c.id),
        org_id: copy_bytes(&c.org_id),
        subject: copy_bytes(&c.subject),
        role: c.role,
        issued_by: copy_bytes(&c.issued_by),
        issued_at: c.issued_at,
        expires_at: c.expires_at,
        revoked: c.revoked,
    }
}

/// Fresh copy of a membership list.
fn copy_members(list: &Vec<Vec<u8>>) -> (r: Vec<Vec<u8>>)
    ensures
        r.deep_view() == list.deep_view(),
{
    let mut r: Vec<Vec<u8>> = Vec::new();
    let mut i: usize = 0;
    assert(r.deep_view() =~= list.deep_view().take(0));
    while i < list.len()
        invariant
            i <= list@.len(),
            r@.len() == i,
            r.deep_view() == list.deep_view().take(i as int),
        decreases list@.len() - i,
    {
        let c = copy_bytes(&list[i]);
        proof {
            assert(c.deep_view() =~= list.deep_view()[i as int]);
        }
        r.push(c);
        i = i + 1;
        assert(r.deep_view() =~= list.deep_view().take(i as int));
    }
    assert(list.deep_view().take(list@.len() as int) =~= list.deep_view());
    r
}

/// Whether `subj` appears in the membership list.
fn is_member(list: &Vec<Vec<u8>>, subj: &Vec<u8>) -> (r: bool)
    ensures
        r == list.deep_view().contains(subj@),
{
    let mut i: usize = 0;
    while i < list.len()
        invariant
            i <= list@.len(),
            forall|j: int| 0 <= j < i ==> list.deep_view()[j] != subj@,
        decreases list@.len() - i,
    {
        proof {
            assert(list.deep_view()[i as int] =~= list@[i as int]@);
        }
        if bytes_eq(&list[i], subj) {
            return true;
        }
        i = i + 1;
    }
    proof {
        assert_by_contradiction!(!list.deep_view().contains(subj@), {
            let w = choose|w: int|
                0 <= w < list.deep_view().len() && list.deep_view()[w] == subj@;
            assert(list.deep_view()[w] != subj@);
        });
    }
    false
}

/// The membership list with every occurrence of `subj` taken out.
fn remove_member(list: &Vec<Vec<u8>>, subj: &Vec<u8>) -> (r: Vec<Vec<u8>>)
    ensures
        r.deep_view() == remove_all(list.deep_view(), subj@),
{
    let ghost dv = list.deep_view();
    let mut r: Vec<Vec<u8>> = Vec::new();
    let mut i: usize = 0;
    assert(r.deep_view() =~= remove_all(dv.take(0), subj@)) by {
        assert(dv.take(0) =~= Seq::<Seq<u8>>::empty());
    }
    while i < list.len()
        invariant
            i <= list@.len(),
            dv == list.deep_view(),
            r.deep_view() == remove_all(dv.take(i as int), subj@),
        decreases list@.len() - i,
    {
        proof {
            assert(dv.take(i + 1) =~= dv.take(i as int).push(dv[i as int]));
            crate::model::lemma_remove_all_push(dv.take(i as int), dv[i as int], subj@);
            assert(dv[i as int] =~= list@[i as int]@);
        }
        if !bytes_eq(&list[i], subj) {
            let c = copy_bytes(&list[i]);
            proof {
                assert(c.deep_view() =~= dv[i as int]);
            }
            r.push(c);
            proof {
                assert(r.deep_view() =~= remove_all(dv.take(i as int), subj@).push(dv[i as int]));
            }
        }
        i = i + 1;
    }
    assert(dv.take(list@.len() as int) =~= dv);
    r
}

/// Main registry state: the organization, credential and membership tables,
/// the identifier nonce, and the log of emitted notifications.
pub struct Intran3tRBAC {
    organizations: AssocVec<Organization>,
    credentials: CredVec,
    org_members: AssocVec<Vec<Vec<u8>>>,
    nonce: u64,
    events: Vec<Event>,
}

impl View for Intran3tRBAC {
    type V = RegistryModel;

    closed spec fn view(&self) -> RegistryModel {
        RegistryModel {
            orgs: self.organizations@,
            creds: self.credentials@,
            members: self.org_members@,
            nonce: self.nonce,
            events: self.events.deep_view(),
        }
    }
}

impl Intran3tRBAC {
    /// The backing tables have distinct keys.
    pub closed spec fn tables_inv(&self) -> bool {
        &&& self.organizations.inv()
        &&& self.credentials.inv()
        &&& self.org_members.inv()
    }

    /// Invariant of the registry: the tables are sound and the abstract state
    /// is well-formed.
    pub open spec fn inv(&self) -> bool {
        &&& self.tables_inv()
        &&& wf(self@)
    }

    /// An empty registry.
    pub fn new() -> (r: Self)
        ensures
            r.inv(),
            r@.orgs == Map::<Seq<u8>, OrgModel>::empty(),
            r@.creds == Map::<(Seq<u8>, Seq<u8>), CredModel>::empty(),
            r@.members == Map::<Seq<u8>, Seq<Seq<u8>>>::empty(),
            r@.nonce == 0,
            r@.events == Seq::<EventModel>::empty(),
    {
        let r = Intran3tRBAC {
            organizations: AssocVec::new(),
            credentials: CredVec::new(),
            org_members: AssocVec::new(),
            nonce: 0,
            events: Vec::new(),
        };
        proof {
            assert(r@.events =~= Seq::<EventModel>::empty());
        }
        r
    }

    /// The notifications emitted so far, oldest first.
    pub fn events(&self) -> (r: &Vec<Event>)
        ensures
            r.deep_view() == self@.events,
    {
        &self.events
    }

    /// The identifier nonce: how many credentials were ever issued.
    pub fn nonce(&self) -> (r: u64)
        ensures
            r == self@.nonce,
    {
        self.nonce
    }

    /// Organization details, by identifier.
    pub fn get_organization(&self, org_id: &Vec<u8>) -> (r: Option<Organization>)
        ensures
            match r {
                Some(o) => org_at(self@, org_id@) == Some(o.deep_view()),
                None => org_at(self@, org_id@) is None,
            },
    {
        match self.organizations.get(org_id) {
            Some(o) => Some(clone_organization(o)),
            None => None,
        }
    }

    /// All members of an organization, in the order they joined.
    pub fn get_organization_members(&self, org_id: &Vec<u8>) -> (r: Vec<Vec<u8>>)
        ensures
            r.deep_view() == members_of(self@, org_id@),
    {
        match self.org_members.get(org_id) {
            Some(l) => copy_members(l),
            None => {
                let r: Vec<Vec<u8>> = Vec::new();
                proof {
                    assert(r.deep_view() =~= members_of(self@, org_id@));
                }
                r
            },
        }
    }

    /// Whether a credential authorizes at `now`: not revoked and not past its
    /// expiry.
    pub fn is_credential_valid(&self, cred: &Credential, now: u64) -> (r: bool)
        ensures
            r == cred_live(cred.deep_view(), now),
    {
        if cred.revoked {
            return false;
        }
        match cred.expires_at {
            Some(expires_at) => {
                if now > expires_at {
                    return false;
                }
            },
            None => {},
        }
        true
    }

    /// The subject's full credential, only while it is currently valid.
    pub fn get_credential(&self, org_id: &Vec<u8>, user: &Vec<u8>, now: u64) -> (r: Option<
        Credential,
    >)
        ensures
            match r {
                Some(c) => live_credential(self@, org_id@, user@, now) == Some(c.deep_view()),
                None => live_credential(self@, org_id@, user@, now) is None,
            },
    {
        match self.credentials.get(org_id, user) {
            Some(c) => {
                if self.is_credential_valid(c, now) {
                    Some(clone_credential(c))
                } else {
                    None
                }
            },
            None => None,
        }
    }

    /// The subject's role, only while its credential is currently valid.
    pub fn get_user_role(&self, org_id: &Vec<u8>, user: &Vec<u8>, now: u64) -> (r: Option<Role>)
        ensures
            r == user_role(self@, org_id@, user@, now),
    {
        match self.credentials.get(org_id, user) {
            Some(c) => {
                if !c.revoked && self.is_credential_valid(c, now) {
                    Some(c.role)
                } else {
                    None
                }
            },
            None => None,
        }
    }

    /// The role/action/resource matrix.
    pub fn check_permission(&self, role: &Role, action: &Action, resource: &Resource) -> (r: bool)
        ensures
            r == role_allows(*role, *action, *resource),
    {
        match role {
            Role::Admin => true,
            Role::Member => match (action, resource) {
                (Action::Create, Resource::Poll) => true,
                (Action::Vote, Resource::Poll) => true,
                (Action::Read, Resource::Poll) => true,
                (Action::Create, Resource::Form) => true,
                (Action::Read, Resource::Form) => true,
                (Action::Read, Resource::Governance) => true,
                (Action::Read, Resource::User) => true,
                _ => false,
            },
            Role::Viewer => match action {
                Action::Read => true,
                _ => false,
            },
        }
    }

    /// Whether `user` may perform `action` on `resource` in the organization
    /// at time `now`.  Never fails: every reason to deny folds into `false`.
    pub fn has_permission(
        &self,
        org_id: &Vec<u8>,
        user: &Vec<u8>,
        action: Action,
        resource: Resource,
        now: u64,
    ) -> (r: bool)
        ensures
            r == has_perm(self@, org_id@, user@, action, resource, now),
    {
        if !self.organizations.contains(org_id) {
            return false;
        }
        match self.credentials.get(org_id, user) {
            Some(c) => {
                if c.revoked {
                    return false;
                }
                match c.expires_at {
                    Some(expires_at) => {
                        if now > expires_at {
                            return false;
                        }
                    },
                    None => {},
                }
                self.check_permission(&c.role, &action, &resource)
            },
            None => false,
        }
    }

    /// The admin guard: `Ok` exactly when the caller holds a current,
    /// non-revoked Admin credential in the organization.
    pub fn require_admin(&self, org_id: &Vec<u8>, caller: &Vec<u8>, now: u64) -> (r: Result<
        (),
        Error,
    >)
        ensures
            r == admin_gate(self@, org_id@, caller@, now),
    {
        match self.credentials.get(org_id, caller) {
            Some(c) => {
                if !c.revoked && c.role == Role::Admin {
                    match c.expires_at {
                        Some(expires_at) => {
                            if now > expires_at {
                                return Err(Error::CredentialExpired);
                            }
                        },
                        None => {},
                    }
                    Ok(())
                } else {
                    Err(Error::Unauthorized)
                }
            },
            None => Err(Error::Unauthorized),
        }
    }

    /// Content-derived organization identifier.
    pub fn generate_org_id(&self, name: &Vec<u8>, owner: &Vec<u8>, now: u64) -> (r: Vec<u8>)
        ensures
            r@ == crate::ids::sha256_of(crate::ids::org_id_preimage(name@, owner@, now)),
            r@.len() == 32,
    {
        derive_org_id(name, owner, now)
    }

    /// Content-derived credential identifier, unique through the nonce.
    pub fn generate_credential_id(&self, caller: &Vec<u8>, now: u64) -> (r: Vec<u8>)
        ensures
            r@ == crate::ids::sha256_of(crate::ids::cred_id_preimage(self@.nonce, now, caller@)),
            r@.len() == 32,
    {
        derive_credential_id(self.nonce, now, caller)
    }

    /// Issues a credential to `subject`, overwriting any prior one for the
    /// pair, listing the subject at most once, and keeping `member_count`
    /// equal to the list length.  Callers have already checked that the
    /// organization exists and that the issuer passes the admin guard.
    fn issue_credential_internal(
        &mut self,
        org_id: &Vec<u8>,
        subject: &Vec<u8>,
        role: Role,
        issued_by: &Vec<u8>,
        expires_at: Option<u64>,
        now: u64,
    ) -> (r: Vec<u8>)
        requires
            old(self).tables_inv(),
            old(self)@.nonce < u64::MAX,
            old(self)@.orgs.contains_key(org_id@),
            members_of(old(self)@, org_id@).len() < u32::MAX,
        ensures
            final(self).tables_inv(),
            r@ == crate::ids::sha256_of(
                crate::ids::cred_id_preimage(old(self)@.nonce, now, issued_by@),
            ),
            r@.len() == 32,
            final(self)@.creds == old(self)@.creds.insert(
                (org_id@, subject@),
                CredModel {
                    id: r@,
                    org_id: org_id@,
                    subject: subject@,
                    role: role,
                    issued_by: issued_by@,
                    issued_at: now,
                    expires_at: expires_at,
                    revoked: false,
                },
            ),
            final(self)@.members == if members_of(old(self)@, org_id@).contains(subject@) {
                old(self)@.members
            } else {
                old(self)@.members.insert(org_id@, members_of(old(self)@, org_id@).push(subject@))
            },
            final(self)@.orgs == if members_of(old(self)@, org_id@).contains(subject@) {
                old(self)@.orgs
            } else {
                old(self)@.orgs.insert(
                    org_id@,
                    OrgModel {
                        id: old(self)@.orgs[org_id@].id,
                        name: old(self)@.orgs[org_id@].name,
                        owner: old(self)@.orgs[org_id@].owner,
                        created_at: old(self)@.orgs[org_id@].created_at,
                        member_count: (members_of(old(self)@, org_id@).len() + 1) as u32,
                    },
                )
            },
            final(self)@.nonce == old(self)@.nonce + 1,
            final(self)@.events == old(self)@.events.push(
                EventModel::Issued {
                    credential_id: r@,
                    org_id: org_id@,
                    subject: subject@,
                    role: role,
                    issued_by: issued_by@,
                },
            ),
    {
        let ghost pm = members_of(old(self)@, org_id@);
        let cred_id = self.generate_credential_id(issued_by, now);
        let credential = Credential {
            id: copy_bytes(&cred_id),
            org_id: copy_bytes(org_id),
            subject: copy_bytes(subject),
            role: role,
            issued_by: copy_bytes(issued_by),
            issued_at: now,
            expires_at: expires_at,
            revoked: false,
        };
        self.credentials.insert(credential);

        let mut listed = false;
        let mut new_list: Vec<Vec<u8>> = Vec::new();
        match self.org_members.get(org_id) {
            Some(l) => {
                if is_member(l, subject) {
                    listed = true;
                } else {
                    new_list = copy_members(l);
                }
            },
            None => {
                proof {
                    assert(!pm.contains(subject@));
                }
            },
        }
        proof {
            assert(listed == pm.contains(subject@));
        }
        if !listed {
            proof {
                assert(new_list.deep_view().len() == new_list@.len());
                assert(new_list.deep_view() =~= pm);
            }
            let c = copy_bytes(subject);
            proof {
                assert(c.deep_view() =~= subject@);
            }
            new_list.push(c);
            proof {
                assert(new_list.deep_view() =~= pm.push(subject@));
            }
            let n = new_list.len();
            self.org_members.insert(org_id, new_list);
            let org_upd = match self.organizations.get(org_id) {
                Some(o) => Some(clone_organization(o)),
                None => None,
            };
            match org_upd {
                Some(org_found) => {
                    let mut oc = org_found;
                    proof {
                        assert(n <= u32::MAX);
                    }
                    oc.member_count = n as u32;
                    self.organizations.insert(org_id, oc);
                },
                None => {
                    // the organization was checked to exist
                    proof {
                        assert(false);
                    }
                },
            }
        }
        self.nonce = self.nonce + 1;
        let ev = CredentialIssued {
            credential_id: copy_bytes(&cred_id),
            org_id: copy_bytes(org_id),
            subject: copy_bytes(subject),
            role: role,
            issued_by: copy_bytes(issued_by),
        };
        self.events.push(Event::CredentialIssued(ev));
        proof {
            assert(self.events.deep_view() =~= old(self).events.deep_view().push(
                EventModel::Issued {
                    credential_id: cred_id@,
                    org_id: org_id@,
                    subject: subject@,
                    role: role,
                    issued_by: issued_by@,
                },
            ));
            if !pm.contains(subject@) {
                assert(self@.members =~= old(self)@.members.insert(org_id@, pm.push(subject@)));
                assert(self@.orgs =~= old(self)@.orgs.insert(
                    org_id@,
                    OrgModel {
                        id: old(self)@.orgs[org_id@].id,
                        name: old(self)@.orgs[org_id@].name,
                        owner: old(self)@.orgs[org_id@].owner,
                        created_at: old(self)@.orgs[org_id@].created_at,
                        member_count: (pm.len() + 1) as u32,
                    },
                ));
            }
        }
        cred_id
    }

    /// Creates a new organization; the caller automatically becomes its
    /// Admin.  The identifier is derived from the name, the caller and the
    /// time; a collision with a stored organization is rejected.  The
    /// identifier nonce must have room, a machine-width limit the host
    /// checks before dispatching.
    pub fn create_organization(&mut self, name: Vec<u8>, caller: &Vec<u8>, now: u64) -> (r: Result<
        Vec<u8>,
        Error,
    >)
        requires
            old(self).inv(),
            old(self)@.nonce < u64::MAX,
        ensures
            final(self).inv(),
            create_org_rel(old(self)@, final(self)@, name@, caller@, now, result_view(r)),
    {
        let ghost name0 = name@;
        if name.len() == 0 || name.len() > 64 {
            return Err(Error::InvalidOrganizationName);
        }
        let org_id = self.generate_org_id(&name, caller, now);
        if self.organizations.contains(&org_id) {
            return Err(Error::OrganizationExists);
        }
        let ghost pre = self@;
        let org = Organization {
            id: copy_bytes(&org_id),
            name: copy_bytes(&name),
            owner: copy_bytes(caller),
            created_at: now,
            member_count: 1,
        };
        self.organizations.insert(&org_id, org);
        let empty_list: Vec<Vec<u8>> = Vec::new();
        proof {
            assert(empty_list.deep_view() =~= Seq::<Seq<u8>>::empty());
        }
        self.org_members.insert(&org_id, empty_list);
        let ghost mid = self@;
        proof {
            assert(members_of(mid, org_id@) =~= Seq::<Seq<u8>>::empty());
        }
        let cred_id = self.issue_credential_internal(&org_id, caller, Role::Admin, caller, None, now);
        let ev = OrganizationCreated {
            org_id: copy_bytes(&org_id),
            owner: copy_bytes(caller),
            name: name,
        };
        let ghost mid2 = self@;
        self.events.push(Event::OrganizationCreated(ev));
        proof {
            let post = self@;
            let oid = org_id@;
            let cid = crate::ids::sha256_of(crate::ids::cred_id_preimage(pre.nonce, now, caller@));
            assert(post.orgs =~= pre.orgs.insert(
                oid,
                OrgModel { id: oid, name: name0, owner: caller@, created_at: now, member_count: 1 },
            ));
            assert(post.members =~= pre.members.insert(oid, seq![caller@]));
            assert(post.creds =~= pre.creds.insert(
                (oid, caller@),
                CredModel {
                    id: cid,
                    org_id: oid,
                    subject: caller@,
                    role: Role::Admin,
                    issued_by: caller@,
                    issued_at: now,
                    expires_at: None,
                    revoked: false,
                },
            ));
            assert(post.events =~= mid2.events.push(
                EventModel::OrgCreated { org_id: oid, owner: caller@, name: name0 },
            ));
            assert(post.events =~= pre.events.push(
                EventModel::Issued {
                    credential_id: cid,
                    org_id: oid,
                    subject: caller@,
                    role: Role::Admin,
                    issued_by: caller@,
                },
            ).push(EventModel::OrgCreated { org_id: oid, owner: caller@, name: name0 }));
            crate::model::lemma_wf_create(pre, post, name0, caller@, now, oid, cid);
        }
        Ok(org_id)
    }

    /// Issues a role credential; only an organization's Admin may call
    /// this.  The identifier nonce and the target membership list must have
    /// room, machine-width limits the host checks before dispatching.
    pub fn issue_credential(
        &mut self,
        org_id: &Vec<u8>,
        subject: &Vec<u8>,
        role: Role,
        expires_at: Option<u64>,
        caller: &Vec<u8>,
        now: u64,
    ) -> (r: Result<Vec<u8>, Error>)
        requires
            old(self).inv(),
            old(self)@.nonce < u64::MAX,
            members_of(old(self)@, org_id@).len() < u32::MAX,
        ensures
            final(self).inv(),
            issue_rel(
                old(self)@,
                final(self)@,
                org_id@,
                subject@,
                role,
                expires_at,
                caller@,
                now,
                result_view(r),
            ),
    {
        if !self.organizations.contains(org_id) {
            return Err(Error::OrganizationNotFound);
        }
        match self.require_admin(org_id, caller, now) {
            Err(e) => {
                return Err(e);
            },
            Ok(_) => {},
        }
        let cred_id = self.issue_credential_internal(org_id, subject, role, caller, expires_at, now);
        proof {
            crate::model::lemma_wf_issue(
                old(self)@,
                self@,
                org_id@,
                subject@,
                role,
                expires_at,
                caller@,
                now,
                cred_id@,
            );
        }
        Ok(cred_id)
    }

    /// Revokes a subject's credential and unlists the subject; only an
    /// organization's Admin may call this.  Self-revocation by the last
    /// remaining admin is permitted: the organization is then left without
    /// administrators, a gap the registry keeps on purpose.
    pub fn revoke_credential(
        &mut self,
        org_id: &Vec<u8>,
        subject: &Vec<u8>,
        caller: &Vec<u8>,
        now: u64,
    ) -> (r: Result<(), Error>)
        requires
            old(self).inv(),
        ensures
            final(self).inv(),
            revoke_rel(old(self)@, final(self)@, org_id@, subject@, caller@, now, r),
    {
        if !self.organizations.contains(org_id) {
            return Err(Error::OrganizationNotFound);
        }
        match self.require_admin(org_id, caller, now) {
            Err(e) => {
                return Err(e);
            },
            Ok(_) => {},
        }
        let ghost pre = self@;
        let mut cred = match self.credentials.get(org_id, subject) {
            Some(c) => clone_credential(c),
            None => {
                return Err(Error::CredentialNotFound);
            },
        };
        proof {
            assert(cred.org_id@ == org_id@ && cred.subject@ == subject@);
        }
        let ghost c0 = cred.deep_view();
        cred.revoked = true;
        self.credentials.insert(cred);
        let members_list = match self.org_members.get(org_id) {
            Some(l) => copy_members(l),
            None => {
                // the organization exists, so its membership entry does too
                proof {
                    assert(false);
                }
                Vec::new()
            },
        };
        let remaining = remove_member(&members_list, subject);
        let n = remaining.len();
        proof {
            crate::model::lemma_remove_all_len(members_of(pre, org_id@), subject@);
            assert(n <= u32::MAX);
        }
        self.org_members.insert(org_id, remaining);
        let org_upd = match self.organizations.get(org_id) {
            Some(o) => Some(clone_organization(o)),
            None => None,
        };
        match org_upd {
            Some(org_found) => {
                let mut oc = org_found;
                oc.member_count = n as u32;
                self.organizations.insert(org_id, oc);
            },
            None => {
                proof {
                    assert(false);
                }
            },
        }
        let ev = CredentialRevoked {
            org_id: copy_bytes(org_id),
            subject: copy_bytes(subject),
            revoked_by: copy_bytes(caller),
        };
        self.events.push(Event::CredentialRevoked(ev));
        proof {
            let post = self@;
            let rem = remove_all(members_of(pre, org_id@), subject@);
            assert(post.creds =~= pre.creds.insert(
                (org_id@, subject@),
                CredModel {
                    id: c0.id,
                    org_id: c0.org_id,
                    subject: c0.subject,
                    role: c0.role,
                    issued_by: c0.issued_by,
                    issued_at: c0.issued_at,
                    expires_at: c0.expires_at,
                    revoked: true,
                },
            ));
            assert(post.members =~= pre.members.insert(org_id@, rem));
            assert(post.orgs =~= pre.orgs.insert(
                org_id@,
                OrgModel {
                    id: pre.orgs[org_id@].id,
                    name: pre.orgs[org_id@].name,
                    owner: pre.orgs[org_id@].owner,
                    created_at: pre.orgs[org_id@].created_at,
                    member_count: rem.len() as u32,
                },
            ));
            assert(post.events =~= pre.events.push(
                EventModel::Revoked { org_id: org_id@, subject: subject@, revoked_by: caller@ },
            ));
            crate::model::lemma_wf_revoke(pre, post, org_id@, subject@, c0);
        }
        Ok(())
    }

    /// Replaces a subject's role in place, leaving everything else of the
    /// credential unchanged; only an organization's Admin may call this, and
    /// a revoked credential cannot be resurrected.
    pub fn update_role(
        &mut self,
        org_id: &Vec<u8>,
        subject: &Vec<u8>,
        new_role: Role,
        caller: &Vec<u8>,
        now: u64,
    ) -> (r: Result<(), Error>)
        requires
            old(self).inv(),
        ensures
            final(self).inv(),
            update_role_rel(old(self)@, final(self)@, org_id@, subject@, new_role, caller@, now, r),
    {
        if !self.organizations.contains(org_id) {
            return Err(Error::OrganizationNotFound);
        }
        match self.require_admin(org_id, caller, now) {
            Err(e) => {
                return Err(e);
            },
            Ok(_) => {},
        }
        let ghost pre = self@;
        let mut cred = match self.credentials.get(org_id, subject) {
            Some(c) => clone_credential(c),
            None => {
                return Err(Error::CredentialNotFound);
            },
        };
        if cred.revoked {
            return Err(Error::CredentialRevoked);
        }
        proof {
            assert(cred.org_id@ == org_id@ && cred.subject@ == subject@);
        }
        let ghost c0 = cred.deep_view();
        cred.role = new_role;
        self.credentials.insert(cred);
        proof {
            let post = self@;
            assert(post.creds =~= pre.creds.insert(
                (org_id@, subject@),
                CredModel {
                    id: c0.id,
                    org_id: c0.org_id,
                    subject: c0.subject,
                    role: new_role,
                    issued_by: c0.issued_by,
                    issued_at: c0.issued_at,
                    expires_at: c0.expires_at,
                    revoked: c0.revoked,
                },
            ));
            crate::model::lemma_wf_update(pre, post, org_id@, subject@, new_role, c0);
        }
        Ok(())
    }
}

} // verus!
