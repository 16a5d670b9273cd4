use intran3t_rbac::accesspass;
use intran3t_rbac::accesspass::PassError;
use intran3t_rbac::kv;

fn deployer() -> Vec<u8> {
    vec![0xD0; 20]
}

fn holder() -> Vec<u8> {
    vec![0xA1; 20]
}

fn mint_simple(
    store: &mut kv::Store,
    sender: &Vec<u8>,
    now: u64,
    to: Vec<u8>,
    expires_at: u64,
) -> Result<u64, PassError> {
    accesspass::mint_access_pass(
        store,
        sender,
        now,
        to,
        String::from("HQ"),
        String::from("hq-1"),
        expires_at,
        String::from("staff"),
        String::from("Sam Visitor"),
    )
}

#[test]
fn deploy_sets_owner_and_counter() {
    let mut store = kv::new_store();
    accesspass::initialize(&mut store, &deployer());
    assert_eq!(accesspass::get_owner(&store), deployer());
    assert_eq!(accesspass::total_minted(&store), 0);
}

#[test]
fn mint_to_self_and_validate() {
    let mut store = kv::new_store();
    accesspass::initialize(&mut store, &deployer());
    let token_id = mint_simple(&mut store, &holder(), 100, holder(), 0).unwrap();
    assert_eq!(token_id, 1);
    assert_eq!(accesspass::total_minted(&store), 1);
    assert!(accesspass::is_pass_valid(&store, 100, token_id));
    assert!(!accesspass::is_pass_valid(&store, 100, 99));
}

#[test]
fn mint_for_others_needs_owner() {
    let mut store = kv::new_store();
    accesspass::initialize(&mut store, &deployer());
    assert_eq!(
        mint_simple(&mut store, &holder(), 0, vec![0xC4; 20], 0),
        Err(PassError::Unauthorized)
    );
    assert!(mint_simple(&mut store, &deployer(), 0, vec![0xC4; 20], 0).is_ok());
}

#[test]
fn mint_rejects_past_expiry() {
    let mut store = kv::new_store();
    accesspass::initialize(&mut store, &deployer());
    assert_eq!(
        mint_simple(&mut store, &holder(), 100, holder(), 100),
        Err(PassError::InvalidExpiration)
    );
    assert!(mint_simple(&mut store, &holder(), 100, holder(), 101).is_ok());
}

#[test]
fn pass_expires_strictly_after_deadline() {
    let mut store = kv::new_store();
    accesspass::initialize(&mut store, &deployer());
    let token_id = mint_simple(&mut store, &holder(), 100, holder(), 500).unwrap();
    assert!(accesspass::is_pass_valid(&store, 500, token_id));
    assert!(!accesspass::is_pass_valid(&store, 501, token_id));
}

#[test]
fn metadata_survives_the_blob() {
    let mut store = kv::new_store();
    accesspass::initialize(&mut store, &deployer());
    let token_id = accesspass::mint_access_pass(
        &mut store,
        &holder(),
        123,
        holder(),
        String::from("North Gate"),
        String::from("ng-7"),
        999,
        String::from("visitor"),
        String::from("Jo Doe"),
    )
    .unwrap();
    let (meta, revoked) = accesspass::get_pass_metadata(&store, token_id).unwrap();
    assert_eq!(meta.location, "North Gate");
    assert_eq!(meta.location_id, "ng-7");
    assert_eq!(meta.holder, holder());
    assert_eq!(meta.issued_at, 123);
    assert_eq!(meta.expires_at, 999);
    assert_eq!(meta.access_level, "visitor");
    assert_eq!(meta.identity_display, "Jo Doe");
    assert!(!revoked);
}

#[test]
fn revoke_burns_the_pass() {
    let mut store = kv::new_store();
    accesspass::initialize(&mut store, &deployer());
    let token_id = mint_simple(&mut store, &holder(), 0, holder(), 0).unwrap();
    assert_eq!(
        accesspass::revoke_access_pass(&mut store, &holder(), token_id),
        Err(PassError::Unauthorized)
    );
    assert_eq!(
        accesspass::revoke_access_pass(&mut store, &deployer(), 42),
        Err(PassError::TokenNotFound)
    );
    assert_eq!(accesspass::revoke_access_pass(&mut store, &deployer(), token_id), Ok(()));
    assert!(!accesspass::is_pass_valid(&store, 0, token_id));
    // the holder entry was cleared, so the pass no longer exists
    match accesspass::get_pass_metadata(&store, token_id) {
        Err(PassError::TokenNotFound) => {},
        _ => panic!("expected the pass to be gone"),
    }
}
