use intran3t_rbac::rbac::Action;
use intran3t_rbac::rbac::Error;
use intran3t_rbac::rbac::Event;
use intran3t_rbac::rbac::Intran3tRBAC;
use intran3t_rbac::rbac::Resource;
use intran3t_rbac::rbac::Role;

fn alice() -> Vec<u8> {
    vec![0x01; 32]
}

fn bob() -> Vec<u8> {
    vec![0x02; 32]
}

fn charlie() -> Vec<u8> {
    vec![0x03; 32]
}

fn all_actions() -> Vec<Action> {
    vec![
        Action::Create,
        Action::Read,
        Action::Update,
        Action::Delete,
        Action::Admin,
        Action::Vote,
        Action::Manage,
    ]
}

fn all_resources() -> Vec<Resource> {
    vec![
        Resource::Poll,
        Resource::Form,
        Resource::Governance,
        Resource::User,
        Resource::Settings,
        Resource::All,
    ]
}

#[test]
fn test_create_organization() {
    let mut contract = Intran3tRBAC::new();
    let org_id = contract.create_organization(b"Test Org".to_vec(), &alice(), 0).unwrap();

    let org = contract.get_organization(&org_id).unwrap();
    assert_eq!(org.name, b"Test Org".to_vec());
    assert_eq!(org.member_count, 1);
}

#[test]
fn test_issue_credential() {
    let mut contract = Intran3tRBAC::new();
    let org_id = contract.create_organization(b"Test Org".to_vec(), &alice(), 0).unwrap();

    let result = contract.issue_credential(&org_id, &bob(), Role::Member, None, &alice(), 0);
    assert!(result.is_ok());

    let role = contract.get_user_role(&org_id, &bob(), 0);
    assert_eq!(role, Some(Role::Member));
}

#[test]
fn test_permissions() {
    let mut contract = Intran3tRBAC::new();
    let org_id = contract.create_organization(b"Test Org".to_vec(), &alice(), 0).unwrap();

    assert!(contract.has_permission(&org_id, &alice(), Action::Create, Resource::Poll, 0));

    contract.issue_credential(&org_id, &bob(), Role::Member, None, &alice(), 0).unwrap();

    assert!(contract.has_permission(&org_id, &bob(), Action::Create, Resource::Poll, 0));
    assert!(!contract.has_permission(&org_id, &bob(), Action::Manage, Resource::User, 0));
}

#[test]
fn test_revoke_credential() {
    let mut contract = Intran3tRBAC::new();
    let org_id = contract.create_organization(b"Test Org".to_vec(), &alice(), 0).unwrap();

    contract.issue_credential(&org_id, &bob(), Role::Member, None, &alice(), 0).unwrap();
    contract.revoke_credential(&org_id, &bob(), &alice(), 0).unwrap();

    assert!(!contract.has_permission(&org_id, &bob(), Action::Read, Resource::Poll, 0));
}

#[test]
fn creator_holds_admin_everywhere() {
    let mut contract = Intran3tRBAC::new();
    let org_id = contract.create_organization(b"Test Org".to_vec(), &alice(), 7).unwrap();
    let org = contract.get_organization(&org_id).unwrap();
    assert_eq!(org.member_count, 1);
    assert_eq!(org.owner, alice());
    assert_eq!(org.created_at, 7);
    assert_eq!(contract.get_user_role(&org_id, &alice(), 1000), Some(Role::Admin));
    for a in all_actions() {
        for r in all_resources() {
            assert!(contract.has_permission(&org_id, &alice(), a, r, 123456));
        }
    }
    assert_eq!(contract.get_organization_members(&org_id), vec![alice()]);
}

#[test]
fn org_id_is_a_32_byte_digest() {
    let mut contract = Intran3tRBAC::new();
    let org_id = contract.create_organization(b"Test Org".to_vec(), &alice(), 0).unwrap();
    assert_eq!(org_id.len(), 32);
    let other = contract.create_organization(b"Other Org".to_vec(), &alice(), 0).unwrap();
    assert_eq!(other.len(), 32);
    assert_ne!(org_id, other);
}

#[test]
fn duplicate_creation_rejected() {
    let mut contract = Intran3tRBAC::new();
    contract.create_organization(b"Test Org".to_vec(), &alice(), 0).unwrap();
    // same name, caller and timestamp hash to the same identifier
    let again = contract.create_organization(b"Test Org".to_vec(), &alice(), 0);
    assert_eq!(again, Err(Error::OrganizationExists));
    // a different timestamp gives a fresh identifier
    assert!(contract.create_organization(b"Test Org".to_vec(), &alice(), 1).is_ok());
}

#[test]
fn invalid_names_rejected() {
    let mut contract = Intran3tRBAC::new();
    assert_eq!(
        contract.create_organization(Vec::new(), &alice(), 0),
        Err(Error::InvalidOrganizationName)
    );
    assert_eq!(
        contract.create_organization(vec![b'x'; 65], &alice(), 0),
        Err(Error::InvalidOrganizationName)
    );
    assert!(contract.create_organization(vec![b'x'; 64], &alice(), 0).is_ok());
}

#[test]
fn viewer_reads_only() {
    let mut contract = Intran3tRBAC::new();
    let org_id = contract.create_organization(b"Test Org".to_vec(), &alice(), 0).unwrap();
    contract.issue_credential(&org_id, &bob(), Role::Viewer, None, &alice(), 0).unwrap();
    for r in all_resources() {
        assert!(contract.has_permission(&org_id, &bob(), Action::Read, r, 5));
    }
    for a in all_actions() {
        if a != Action::Read {
            for r in all_resources() {
                assert!(!contract.has_permission(&org_id, &bob(), a, r, 5));
            }
        }
    }
}

#[test]
fn member_matrix_is_exact() {
    let mut contract = Intran3tRBAC::new();
    let org_id = contract.create_organization(b"Test Org".to_vec(), &alice(), 0).unwrap();
    contract.issue_credential(&org_id, &bob(), Role::Member, None, &alice(), 0).unwrap();
    let mut allowed = 0;
    for a in all_actions() {
        for r in all_resources() {
            let expected = matches!(
                (a, r),
                (Action::Create, Resource::Poll)
                    | (Action::Vote, Resource::Poll)
                    | (Action::Read, Resource::Poll)
                    | (Action::Create, Resource::Form)
                    | (Action::Read, Resource::Form)
                    | (Action::Read, Resource::Governance)
                    | (Action::Read, Resource::User)
            );
            assert_eq!(contract.has_permission(&org_id, &bob(), a, r, 0), expected);
            if expected {
                allowed += 1;
            }
        }
    }
    assert_eq!(allowed, 7);
}

#[test]
fn issue_then_revoke_restores_membership() {
    let mut contract = Intran3tRBAC::new();
    let org_id = contract.create_organization(b"Test Org".to_vec(), &alice(), 0).unwrap();
    let before = contract.get_organization_members(&org_id);
    let count_before = contract.get_organization(&org_id).unwrap().member_count;

    contract.issue_credential(&org_id, &bob(), Role::Member, None, &alice(), 0).unwrap();
    assert_eq!(contract.get_organization(&org_id).unwrap().member_count, 2);

    contract.revoke_credential(&org_id, &bob(), &alice(), 0).unwrap();
    assert_eq!(contract.get_organization_members(&org_id), before);
    assert_eq!(contract.get_organization(&org_id).unwrap().member_count, count_before);
    for a in all_actions() {
        for r in all_resources() {
            assert!(!contract.has_permission(&org_id, &bob(), a, r, 0));
        }
    }
}

#[test]
fn members_query_is_idempotent() {
    let mut contract = Intran3tRBAC::new();
    let org_id = contract.create_organization(b"Test Org".to_vec(), &alice(), 0).unwrap();
    contract.issue_credential(&org_id, &bob(), Role::Member, None, &alice(), 0).unwrap();
    let first = contract.get_organization_members(&org_id);
    let second = contract.get_organization_members(&org_id);
    assert_eq!(first, second);
    assert_eq!(first, vec![alice(), bob()]);
}

#[test]
fn reissue_keeps_membership_unique() {
    let mut contract = Intran3tRBAC::new();
    let org_id = contract.create_organization(b"Test Org".to_vec(), &alice(), 0).unwrap();
    contract.issue_credential(&org_id, &bob(), Role::Member, None, &alice(), 0).unwrap();
    contract.issue_credential(&org_id, &bob(), Role::Viewer, None, &alice(), 0).unwrap();
    assert_eq!(contract.get_organization_members(&org_id), vec![alice(), bob()]);
    assert_eq!(contract.get_organization(&org_id).unwrap().member_count, 2);
    assert_eq!(contract.get_user_role(&org_id, &bob(), 0), Some(Role::Viewer));
}

#[test]
fn expiry_boundary_is_inclusive() {
    let mut contract = Intran3tRBAC::new();
    let org_id = contract.create_organization(b"Test Org".to_vec(), &alice(), 0).unwrap();
    contract.issue_credential(&org_id, &bob(), Role::Member, Some(100), &alice(), 0).unwrap();
    assert!(contract.has_permission(&org_id, &bob(), Action::Read, Resource::Poll, 99));
    assert!(contract.has_permission(&org_id, &bob(), Action::Read, Resource::Poll, 100));
    assert!(!contract.has_permission(&org_id, &bob(), Action::Read, Resource::Poll, 101));
    assert_eq!(contract.get_user_role(&org_id, &bob(), 100), Some(Role::Member));
    assert_eq!(contract.get_user_role(&org_id, &bob(), 101), None);
    assert!(contract.get_credential(&org_id, &bob(), 101).is_none());
}

#[test]
fn expired_admin_gets_specific_error() {
    let mut contract = Intran3tRBAC::new();
    let org_id = contract.create_organization(b"Test Org".to_vec(), &alice(), 0).unwrap();
    contract.issue_credential(&org_id, &bob(), Role::Admin, Some(50), &alice(), 0).unwrap();
    // at the expiry instant the admin still acts
    assert!(contract.issue_credential(&org_id, &charlie(), Role::Viewer, None, &bob(), 50).is_ok());
    // strictly after it, the specific error is returned
    assert_eq!(
        contract.issue_credential(&org_id, &charlie(), Role::Member, None, &bob(), 51),
        Err(Error::CredentialExpired)
    );
    assert_eq!(
        contract.revoke_credential(&org_id, &charlie(), &bob(), 51),
        Err(Error::CredentialExpired)
    );
    assert_eq!(
        contract.update_role(&org_id, &charlie(), Role::Member, &bob(), 51),
        Err(Error::CredentialExpired)
    );
}

#[test]
fn non_admin_callers_always_unauthorized() {
    let mut contract = Intran3tRBAC::new();
    let org_id = contract.create_organization(b"Test Org".to_vec(), &alice(), 0).unwrap();
    contract.issue_credential(&org_id, &bob(), Role::Member, None, &alice(), 0).unwrap();
    // a member may not mutate, not even their own credential
    assert_eq!(
        contract.issue_credential(&org_id, &charlie(), Role::Member, None, &bob(), 0),
        Err(Error::Unauthorized)
    );
    assert_eq!(
        contract.issue_credential(&org_id, &bob(), Role::Admin, None, &bob(), 0),
        Err(Error::Unauthorized)
    );
    assert_eq!(contract.revoke_credential(&org_id, &bob(), &bob(), 0), Err(Error::Unauthorized));
    assert_eq!(
        contract.update_role(&org_id, &bob(), Role::Admin, &bob(), 0),
        Err(Error::Unauthorized)
    );
    // an uncredentialed caller is refused too
    assert_eq!(
        contract.revoke_credential(&org_id, &bob(), &charlie(), 0),
        Err(Error::Unauthorized)
    );
}

#[test]
fn missing_organization_reported() {
    let mut contract = Intran3tRBAC::new();
    let ghost_org = vec![0xEE; 32];
    assert_eq!(
        contract.issue_credential(&ghost_org, &bob(), Role::Member, None, &alice(), 0),
        Err(Error::OrganizationNotFound)
    );
    assert_eq!(
        contract.revoke_credential(&ghost_org, &bob(), &alice(), 0),
        Err(Error::OrganizationNotFound)
    );
    assert_eq!(
        contract.update_role(&ghost_org, &bob(), Role::Member, &alice(), 0),
        Err(Error::OrganizationNotFound)
    );
    assert!(contract.get_organization(&ghost_org).is_none());
    assert!(contract.get_organization_members(&ghost_org).is_empty());
    assert!(!contract.has_permission(&ghost_org, &alice(), Action::Read, Resource::Poll, 0));
}

#[test]
fn missing_credential_reported() {
    let mut contract = Intran3tRBAC::new();
    let org_id = contract.create_organization(b"Test Org".to_vec(), &alice(), 0).unwrap();
    assert_eq!(
        contract.revoke_credential(&org_id, &bob(), &alice(), 0),
        Err(Error::CredentialNotFound)
    );
    assert_eq!(
        contract.update_role(&org_id, &bob(), Role::Member, &alice(), 0),
        Err(Error::CredentialNotFound)
    );
}

#[test]
fn revoked_credential_cannot_be_resurrected() {
    let mut contract = Intran3tRBAC::new();
    let org_id = contract.create_organization(b"Test Org".to_vec(), &alice(), 0).unwrap();
    contract.issue_credential(&org_id, &bob(), Role::Member, None, &alice(), 0).unwrap();
    contract.revoke_credential(&org_id, &bob(), &alice(), 0).unwrap();
    assert_eq!(
        contract.update_role(&org_id, &bob(), Role::Admin, &alice(), 0),
        Err(Error::CredentialRevoked)
    );
    assert_eq!(contract.get_user_role(&org_id, &bob(), 0), None);
    assert!(contract.get_credential(&org_id, &bob(), 0).is_none());
}

#[test]
fn update_role_changes_role_only() {
    let mut contract = Intran3tRBAC::new();
    let org_id = contract.create_organization(b"Test Org".to_vec(), &alice(), 3).unwrap();
    contract.issue_credential(&org_id, &bob(), Role::Member, Some(99), &alice(), 4).unwrap();
    let before = contract.get_credential(&org_id, &bob(), 5).unwrap();
    contract.update_role(&org_id, &bob(), Role::Viewer, &alice(), 6).unwrap();
    let after = contract.get_credential(&org_id, &bob(), 7).unwrap();
    assert_eq!(after.role, Role::Viewer);
    assert_eq!(after.id, before.id);
    assert_eq!(after.issued_at, before.issued_at);
    assert_eq!(after.issued_by, before.issued_by);
    assert_eq!(after.expires_at, before.expires_at);
    assert!(!after.revoked);
    // membership untouched
    assert_eq!(contract.get_organization(&org_id).unwrap().member_count, 2);
}

#[test]
fn acme_scenario_with_known_gap() {
    let mut contract = Intran3tRBAC::new();
    let a = alice();
    let b = bob();
    let org_id = contract.create_organization(b"Acme".to_vec(), &a, 0).unwrap();
    assert_eq!(contract.get_user_role(&org_id, &a, 0), Some(Role::Admin));
    assert_eq!(contract.get_organization(&org_id).unwrap().member_count, 1);

    contract.issue_credential(&org_id, &b, Role::Member, None, &a, 1).unwrap();
    assert_eq!(contract.get_organization(&org_id).unwrap().member_count, 2);
    assert!(contract.has_permission(&org_id, &b, Action::Create, Resource::Poll, 2));
    assert!(!contract.has_permission(&org_id, &b, Action::Manage, Resource::User, 2));

    contract.revoke_credential(&org_id, &b, &a, 3).unwrap();
    assert_eq!(contract.get_organization(&org_id).unwrap().member_count, 1);
    for action in all_actions() {
        for resource in all_resources() {
            assert!(!contract.has_permission(&org_id, &b, action, resource, 4));
        }
    }

    // known gap, kept on purpose: the only admin may revoke their own
    // credential, leaving the organization unmanageable
    assert_eq!(contract.revoke_credential(&org_id, &a, &a, 5), Ok(()));
    assert_eq!(contract.get_organization(&org_id).unwrap().member_count, 0);
    assert_eq!(
        contract.issue_credential(&org_id, &a, Role::Admin, None, &a, 6),
        Err(Error::Unauthorized)
    );
}

#[test]
fn notifications_carry_the_mutation() {
    let mut contract = Intran3tRBAC::new();
    let org_id = contract.create_organization(b"Test Org".to_vec(), &alice(), 0).unwrap();
    contract.issue_credential(&org_id, &bob(), Role::Member, None, &alice(), 1).unwrap();
    contract.revoke_credential(&org_id, &bob(), &alice(), 2).unwrap();

    let events = contract.events();
    assert_eq!(events.len(), 4);
    match &events[0] {
        Event::CredentialIssued(e) => {
            assert_eq!(e.org_id, org_id);
            assert_eq!(e.subject, alice());
            assert_eq!(e.role, Role::Admin);
            assert_eq!(e.issued_by, alice());
        },
        _ => panic!("expected a credential-issued notification"),
    }
    match &events[1] {
        Event::OrganizationCreated(e) => {
            assert_eq!(e.org_id, org_id);
            assert_eq!(e.owner, alice());
            assert_eq!(e.name, b"Test Org".to_vec());
        },
        _ => panic!("expected an organization-created notification"),
    }
    match &events[2] {
        Event::CredentialIssued(e) => {
            assert_eq!(e.subject, bob());
            assert_eq!(e.role, Role::Member);
        },
        _ => panic!("expected a credential-issued notification"),
    }
    match &events[3] {
        Event::CredentialRevoked(e) => {
            assert_eq!(e.org_id, org_id);
            assert_eq!(e.subject, bob());
            assert_eq!(e.revoked_by, alice());
        },
        _ => panic!("expected a credential-revoked notification"),
    }
}

#[test]
fn credential_identifiers_differ_by_nonce() {
    let mut contract = Intran3tRBAC::new();
    let org_id = contract.create_organization(b"Test Org".to_vec(), &alice(), 0).unwrap();
    assert_eq!(contract.nonce(), 1);
    let c1 = contract.issue_credential(&org_id, &bob(), Role::Member, None, &alice(), 0).unwrap();
    let c2 = contract
        .issue_credential(&org_id, &charlie(), Role::Member, None, &alice(), 0)
        .unwrap();
    assert_eq!(contract.nonce(), 3);
    assert_eq!(c1.len(), 32);
    assert_eq!(c2.len(), 32);
    // same timestamp and issuer, but the nonce separates the identifiers
    assert_ne!(c1, c2);
}
