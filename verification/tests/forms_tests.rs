use intran3t_rbac::counter;
use intran3t_rbac::forms;
use intran3t_rbac::forms_debug;
use intran3t_rbac::forms_debug_abi;
use intran3t_rbac::forms_v2;
use intran3t_rbac::kv;

fn creator() -> Vec<u8> {
    vec![0xAA; 20]
}

fn voter() -> Vec<u8> {
    vec![0xBB; 20]
}

#[test]
fn kv_store_roundtrip() {
    let mut store = kv::new_store();
    let key = vec![0x07; 32];
    assert!(kv::get_storage(&store, &key).is_none());
    kv::set_storage(&mut store, &key, b"hello".to_vec());
    assert_eq!(kv::get_storage(&store, &key), Some(b"hello".to_vec()));
    kv::set_storage(&mut store, &key, b"again".to_vec());
    assert_eq!(kv::get_storage(&store, &key), Some(b"again".to_vec()));
    kv::clear_storage(&mut store, &key);
    assert!(kv::get_storage(&store, &key).is_none());
}

#[test]
fn counter_increments_from_zero() {
    let mut store = kv::new_store();
    assert_eq!(counter::get_count(&store), 0);
    assert_eq!(counter::increment(&mut store), 1);
    assert_eq!(counter::increment(&mut store), 2);
    assert_eq!(counter::get_count(&store), 2);
}

#[test]
fn create_form_stores_everything() {
    let mut store = kv::new_store();
    assert_eq!(forms::form_count(&store), 0);
    let id = forms::create_form(
        &mut store,
        &creator(),
        1000,
        b"Title".to_vec(),
        b"Description".to_vec(),
        b"[]".to_vec(),
        2000,
        vec![0x04; 65],
    );
    assert_eq!(id, 1);
    assert_eq!(forms::form_count(&store), 1);
    let ck = forms::key_form_creator(id);
    assert_eq!(forms::get_address(&store, &ck), Some(creator()));
    let sk = forms::key_form_status(id);
    assert_eq!(forms::get_u8_flag(&store, &sk), 0);
    let dk = forms::key_form_deadline(id);
    assert_eq!(forms::get_u64(&store, &dk), 2000);
    let tk = forms::key_form_timestamp(id);
    assert_eq!(forms::get_u64(&store, &tk), 1000);
}

#[test]
fn create_form_rejects_oversized_input() {
    let mut store = kv::new_store();
    let id = forms::create_form(
        &mut store,
        &creator(),
        0,
        vec![b't'; 257],
        Vec::new(),
        Vec::new(),
        0,
        Vec::new(),
    );
    assert_eq!(id, 0);
    assert_eq!(forms::form_count(&store), 0);
}

#[test]
fn submit_response_happy_path() {
    let mut store = kv::new_store();
    let id = forms::create_form(
        &mut store,
        &creator(),
        0,
        b"T".to_vec(),
        b"D".to_vec(),
        b"[]".to_vec(),
        0,
        Vec::new(),
    );
    assert!(!forms::has_submitted(&store, id, &voter()));
    let idx = forms::submit_response(&mut store, &voter(), 1, id, b"QmResponse".to_vec());
    assert_eq!(idx, 0);
    assert!(forms::has_submitted(&store, id, &voter()));
    assert_eq!(forms::get_response_count(&store, id), 1);
    // responses come back through the host's zero-filled 256-byte buffer
    let cid = forms::get_response_cid(&store, id, 0);
    assert_eq!(cid.len(), 256);
    assert_eq!(&cid[..10], b"QmResponse");
    assert!(cid[10..].iter().all(|b| *b == 0));
}

#[test]
fn submit_response_rejections() {
    let mut store = kv::new_store();
    // missing form
    assert_eq!(forms::submit_response(&mut store, &voter(), 0, 9, b"X".to_vec()), u64::MAX);
    let id = forms::create_form(
        &mut store,
        &creator(),
        0,
        b"T".to_vec(),
        b"D".to_vec(),
        b"[]".to_vec(),
        10,
        Vec::new(),
    );
    // deadline passed strictly after the stored instant
    assert_ne!(forms::submit_response(&mut store, &voter(), 10, id, b"A".to_vec()), u64::MAX);
    assert_eq!(forms::submit_response(&mut store, &voter(), 11, id, b"B".to_vec()), u64::MAX);
    // a closed form refuses
    forms::close_form(&mut store, &creator(), id);
    assert_eq!(forms::submit_response(&mut store, &voter(), 5, id, b"C".to_vec()), u64::MAX);
}

#[test]
fn close_form_only_by_creator() {
    let mut store = kv::new_store();
    let id = forms::create_form(
        &mut store,
        &creator(),
        0,
        b"T".to_vec(),
        b"D".to_vec(),
        b"[]".to_vec(),
        0,
        Vec::new(),
    );
    forms::close_form(&mut store, &voter(), id);
    let sk = forms::key_form_status(id);
    assert_eq!(forms::get_u8_flag(&store, &sk), 0);
    forms::close_form(&mut store, &creator(), id);
    assert_eq!(forms::get_u8_flag(&store, &sk), 1);
}

#[test]
fn aggregates_count_per_option() {
    let mut store = kv::new_store();
    assert_eq!(forms::get_aggregate_count(&store, 1, 0, 2), 0);
    forms::record_aggregate(&mut store, 1, 0, 2);
    forms::record_aggregate(&mut store, 1, 0, 2);
    forms::record_aggregate(&mut store, 1, 1, 2);
    assert_eq!(forms::get_aggregate_count(&store, 1, 0, 2), 2);
    assert_eq!(forms::get_aggregate_count(&store, 1, 1, 2), 1);
    assert_eq!(forms::get_aggregate_count(&store, 2, 0, 2), 0);
}

#[test]
fn forms_v2_register_and_lookup() {
    let mut store = kv::new_store();
    assert_eq!(forms_v2::register_form(&mut store, &creator(), Vec::new()), 0);
    assert_eq!(forms_v2::register_form(&mut store, &creator(), vec![b'c'; 129]), 0);
    let id = forms_v2::register_form(&mut store, &creator(), b"QmFormCid".to_vec());
    assert_eq!(id, 1);
    assert_eq!(forms_v2::form_count(&store), 1);
    assert_eq!(forms_v2::get_form_cid(&store, id), b"QmFormCid".to_vec());
}

#[test]
fn forms_v2_submit_response() {
    let mut store = kv::new_store();
    assert_eq!(forms_v2::submit_response(&mut store, 7, b"R".to_vec()), u64::MAX);
    let id = forms_v2::register_form(&mut store, &creator(), b"QmFormCid".to_vec());
    assert_eq!(forms_v2::submit_response(&mut store, id, Vec::new()), u64::MAX);
    assert_eq!(forms_v2::submit_response(&mut store, id, b"QmR0".to_vec()), 0);
    assert_eq!(forms_v2::submit_response(&mut store, id, b"QmR1".to_vec()), 1);
    assert_eq!(forms_v2::response_count(&store, id), 2);
    assert_eq!(forms_v2::get_response_cid(&store, id, 0), b"QmR0".to_vec());
    assert_eq!(forms_v2::get_response_cid(&store, id, 1), b"QmR1".to_vec());
}

#[test]
fn abi_u256_roundtrip() {
    let word = forms_v2::encode_u256(0x1122334455667788);
    assert_eq!(word.len(), 32);
    assert!(word[..24].iter().all(|b| *b == 0));
    let v = forms_v2::read_u64(&word, 0);
    assert_eq!(v, 0x1122334455667788);
    // a second word is read at its own offset
    let mut two = forms_v2::encode_u256(5);
    two.extend(forms_v2::encode_u256(9));
    assert_eq!(forms_v2::read_u64(&two, 0), 5);
    assert_eq!(forms_v2::read_u64(&two, 1), 9);
    // out of range reads zero
    assert_eq!(forms_v2::read_u64(&word, 1), 0);
}

#[test]
fn abi_bytes_roundtrip() {
    let data = b"hello world, forty-two".to_vec();
    let encoded = forms_v2::encode_bytes(&data);
    assert_eq!(encoded[31], 0x20);
    assert_eq!(encoded.len(), 64 + 32);
    assert_eq!(encoded[63], data.len() as u8);
    assert_eq!(forms_v2::read_bytes(&encoded, 0), data);
    // the debug pair behaves identically
    assert_eq!(forms_debug_abi::encode_abi_bytes(&data), encoded);
    assert_eq!(forms_debug_abi::parse_abi_bytes(&encoded, 0), data);
    // malformed input reads empty
    assert_eq!(forms_v2::read_bytes(&vec![0u8; 8], 0), Vec::<u8>::new());
}

#[test]
fn debug_store_trims_trailing_zeros() {
    let mut store = kv::new_store();
    assert_eq!(forms_debug::read_bytes(&store), Vec::<u8>::new());
    forms_debug::store_bytes(&mut store, b"abc".to_vec());
    assert_eq!(forms_debug::read_bytes(&store), b"abc".to_vec());
    // trailing zeroes are lost to the zero-filled read buffer
    forms_debug::store_bytes(&mut store, vec![1, 2, 0, 0]);
    assert_eq!(forms_debug::read_bytes(&store), vec![1, 2]);
}
