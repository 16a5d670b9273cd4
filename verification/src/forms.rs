//! Encrypted-forms registry over the byte store: form metadata, responses,
//! per-option aggregates and a submitted flag, each under a namespaced key.
//! The host reads values back through fixed-size zero-filled buffers, so the
//! read helpers state that padding explicitly.

use vstd::prelude::*;

use crate::bytevec::append_bytes;
use crate::bytevec::bytes_eq;
use crate::bytevec::copy_prefix;
use crate::bytevec::pad_to;
use crate::bytevec::pad_vec;
use crate::bytevec::push_zeros;
use crate::bytevec::zeros;
use crate::kv::get_storage;
use crate::kv::read_stored_u64;
use crate::kv::set_storage;
use crate::kv::stored_u64;
use crate::kv::write_stored_u64;
use crate::kv::Store;
use vstd::bytes::spec_u64_to_le_bytes;
use vstd::bytes::u64_to_le_bytes;

verus! {

/// A key of one namespace byte, a form identifier, and zero padding.
pub open spec fn spec_key_ns(ns: u8, form_id: u64) -> Seq<u8> {
    seq![ns] + spec_u64_to_le_bytes(form_id) + zeros(23)
}

fn key_ns(ns: u8, form_id: u64) -> (k: Vec<u8>)
    ensures
        k@ == spec_key_ns(ns, form_id),
{
    let mut k: Vec<u8> = Vec::new();
    k.push(ns);
    let id = u64_to_le_bytes(form_id);
    append_bytes(&mut k, &id);
    push_zeros(&mut k, 23);
    assert(k@ =~= spec_key_ns(ns, form_id));
    k
}

pub open spec fn spec_key_form_meta(form_id: u64) -> Seq<u8> {
    spec_key_ns(0x10, form_id)
}

pub fn key_form_meta(form_id: u64) -> (k: Vec<u8>)
    ensures
        k@ == spec_key_form_meta(form_id),
{
    key_ns(0x10, form_id)
}

pub open spec fn spec_key_form_creator(form_id: u64) -> Seq<u8> {
    spec_key_ns(0x11, form_id)
}

pub fn key_form_creator(form_id: u64) -> (k: Vec<u8>)
    ensures
        k@ == spec_key_form_creator(form_id),
{
    key_ns(0x11, form_id)
}

pub open spec fn spec_key_form_status(form_id: u64) -> Seq<u8> {
    spec_key_ns(0x12, form_id)
}

pub fn key_form_status(form_id: u64) -> (k: Vec<u8>)
    ensures
        k@ == spec_key_form_status(form_id),
{
    key_ns(0x12, form_id)
}

pub open spec fn spec_key_form_pubkey(form_id: u64) -> Seq<u8> {
    spec_key_ns(0x13, form_id)
}

pub fn key_form_pubkey(form_id: u64) -> (k: Vec<u8>)
    ensures
        k@ == spec_key_form_pubkey(form_id),
{
    key_ns(0x13, form_id)
}

pub open spec fn spec_key_response_cid(form_id: u64, submission_idx: u64) -> Seq<u8> {
    seq![0x14u8] + spec_u64_to_le_bytes(form_id) + spec_u64_to_le_bytes(submission_idx) + zeros(15)
}

pub fn key_response_cid(form_id: u64, submission_idx: u64) -> (k: Vec<u8>)
    ensures
        k@ == spec_key_response_cid(form_id, submission_idx),
{
    let mut k: Vec<u8> = Vec::new();
    k.push(0x14u8);
    let id = u64_to_le_bytes(form_id);
    append_bytes(&mut k, &id);
    let idx = u64_to_le_bytes(submission_idx);
    append_bytes(&mut k, &idx);
    push_zeros(&mut k, 15);
    assert(k@ =~= spec_key_response_cid(form_id, submission_idx));
    k
}

pub open spec fn spec_key_has_submitted(form_id: u64, voter: Seq<u8>) -> Seq<u8> {
    seq![0x15u8] + spec_u64_to_le_bytes(form_id) + pad_to(voter, 20) + zeros(3)
}

pub fn key_has_submitted(form_id: u64, voter: &Vec<u8>) -> (k: Vec<u8>)
    ensures
        k@ == spec_key_has_submitted(form_id, voter@),
{
    let mut k: Vec<u8> = Vec::new();
    k.push(0x15u8);
    let id = u64_to_le_bytes(form_id);
    append_bytes(&mut k, &id);
    let v = pad_vec(voter, 20);
    append_bytes(&mut k, &v);
    push_zeros(&mut k, 3);
    assert(k@ =~= spec_key_has_submitted(form_id, voter@));
    k
}

pub open spec fn spec_key_aggregate(form_id: u64, field_idx: u8, option_idx: u8) -> Seq<u8> {
    seq![0x16u8] + spec_u64_to_le_bytes(form_id) + seq![field_idx, option_idx] + zeros(21)
}

pub fn key_aggregate(form_id: u64, field_idx: u8, option_idx: u8) -> (k: Vec<u8>)
    ensures
        k@ == spec_key_aggregate(form_id, field_idx, option_idx),
{
    let mut k: Vec<u8> = Vec::new();
    k.push(0x16u8);
    let id = u64_to_le_bytes(form_id);
    append_bytes(&mut k, &id);
    k.push(field_idx);
    k.push(option_idx);
    push_zeros(&mut k, 21);
    assert(k@ =~= spec_key_aggregate(form_id, field_idx, option_idx));
    k
}

pub open spec fn spec_key_form_counter() -> Seq<u8> {
    seq![0x17u8] + zeros(31)
}

pub fn key_form_counter() -> (k: Vec<u8>)
    ensures
        k@ == spec_key_form_counter(),
{
    let mut k: Vec<u8> = Vec::new();
    k.push(0x17u8);
    push_zeros(&mut k, 31);
    assert(k@ =~= spec_key_form_counter());
    k
}

pub open spec fn spec_key_response_counter(form_id: u64) -> Seq<u8> {
    spec_key_ns(0x18, form_id)
}

pub fn key_response_counter(form_id: u64) -> (k: Vec<u8>)
    ensures
        k@ == spec_key_response_counter(form_id),
{
    key_ns(0x18, form_id)
}

/// The form title shares the metadata namespace.
pub fn key_form_title(form_id: u64) -> (k: Vec<u8>)
    ensures
        k@ == spec_key_form_meta(form_id),
{
    key_ns(0x10, form_id)
}

/// The description key is padded with the byte eight, not zero.
pub open spec fn spec_key_form_description(form_id: u64) -> Seq<u8> {
    seq![0x19u8] + spec_u64_to_le_bytes(form_id) + Seq::new(23, |i: int| 8u8)
}

pub fn key_form_description(form_id: u64) -> (k: Vec<u8>)
    ensures
        k@ == spec_key_form_description(form_id),
{
    let mut k: Vec<u8> = Vec::new();
    k.push(0x19u8);
    let id = u64_to_le_bytes(form_id);
    append_bytes(&mut k, &id);
    let mut i: usize = 0;
    let ghost base = k@;
    while i < 23
        invariant
            i <= 23,
            k@ == base + Seq::new(i as nat, |j: int| 8u8),
        decreases 23 - i,
    {
        k.push(8u8);
        i = i + 1;
        assert(k@ =~= base + Seq::new(i as nat, |j: int| 8u8));
    }
    assert(k@ =~= spec_key_form_description(form_id));
    k
}

pub open spec fn spec_key_form_fields_json(form_id: u64) -> Seq<u8> {
    spec_key_ns(0x1a, form_id)
}

pub fn key_form_fields_json(form_id: u64) -> (k: Vec<u8>)
    ensures
        k@ == spec_key_form_fields_json(form_id),
{
    key_ns(0x1a, form_id)
}

pub open spec fn spec_key_form_deadline(form_id: u64) -> Seq<u8> {
    spec_key_ns(0x1b, form_id)
}

pub fn key_form_deadline(form_id: u64) -> (k: Vec<u8>)
    ensures
        k@ == spec_key_form_deadline(form_id),
{
    key_ns(0x1b, form_id)
}

pub open spec fn spec_key_form_timestamp(form_id: u64) -> Seq<u8> {
    spec_key_ns(0x1c, form_id)
}

pub fn key_form_timestamp(form_id: u64) -> (k: Vec<u8>)
    ensures
        k@ == spec_key_form_timestamp(form_id),
{
    key_ns(0x1c, form_id)
}

/// The first byte of a stored value; zero when absent or empty.
pub open spec fn stored_u8(m: Map<Seq<u8>, Seq<u8>>, k: Seq<u8>) -> u8 {
    if m.contains_key(k) {
        if m[k].len() > 0 {
            m[k][0]
        } else {
            0u8
        }
    } else {
        0u8
    }
}

pub fn get_u64(store: &Store, key: &Vec<u8>) -> (r: u64)
    ensures
        r == stored_u64(store@, key@),
{
    read_stored_u64(store, key)
}

pub fn set_u64(store: &mut Store, key: &Vec<u8>, v: u64)
    requires
        old(store).inv(),
    ensures
        final(store).inv(),
        final(store)@ == old(store)@.insert(key@, spec_u64_to_le_bytes(v)),
{
    write_stored_u64(store, key, v);
}

pub fn get_u8_flag(store: &Store, key: &Vec<u8>) -> (r: u8)
    ensures
        r == stored_u8(store@, key@),
{
    match get_storage(store, key) {
        Some(v) => {
            if v.len() > 0 {
                v[0]
            } else {
                0
            }
        },
        None => 0,
    }
}

pub fn set_u8_flag(store: &mut Store, key: &Vec<u8>, v: u8)
    requires
        old(store).inv(),
    ensures
        final(store).inv(),
        final(store)@ == old(store)@.insert(key@, seq![v]),
{
    let mut val: Vec<u8> = Vec::new();
    val.push(v);
    proof {
        assert(val@ =~= seq![v]);
    }
    set_storage(store, key, val);
}

/// A stored address, read through the host's zero-filled 256-byte buffer:
/// present values come back padded or truncated to 20 bytes.
pub fn get_address(store: &Store, key: &Vec<u8>) -> (r: Option<Vec<u8>>)
    ensures
        match r {
            Some(a) => store@.contains_key(key@) && a@ == pad_to(store@[key@], 20),
            None => !store@.contains_key(key@),
        },
{
    match get_storage(store, key) {
        Some(v) => Some(pad_vec(&v, 20)),
        None => None,
    }
}

/// Creates a form: bumps the form counter and stores creator, status,
/// encryption key (at most 65 bytes), title, description, field list,
/// deadline and creation time.  Oversized inputs are rejected with zero and
/// nothing stored.
pub fn create_form(
    store: &mut Store,
    creator: &Vec<u8>,
    now: u64,
    title: Vec<u8>,
    description: Vec<u8>,
    fields_json: Vec<u8>,
    deadline: u64,
    encryption_pub_key: Vec<u8>,
) -> (r: u64)
    requires
        old(store).inv(),
        stored_u64(old(store)@, spec_key_form_counter()) < u64::MAX,
    ensures
        final(store).inv(),
        title@.len() > 256 || description@.len() > 1024 || fields_json@.len() > 4096 ==> r == 0
            && final(store)@ == old(store)@,
        title@.len() <= 256 && description@.len() <= 1024 && fields_json@.len() <= 4096 ==> {
            &&& r == stored_u64(old(store)@, spec_key_form_counter()) + 1
            &&& final(store)@ == old(store)@.insert(
                spec_key_form_counter(),
                spec_u64_to_le_bytes(r),
            ).insert(spec_key_form_creator(r), creator@).insert(
                spec_key_form_status(r),
                seq![0u8],
            ).insert(
                spec_key_form_pubkey(r),
                encryption_pub_key@.take(
                    if encryption_pub_key@.len() < 65 {
                        encryption_pub_key@.len() as int
                    } else {
                        65
                    },
                ),
            ).insert(spec_key_form_meta(r), title@).insert(
                spec_key_form_description(r),
                description@,
            ).insert(spec_key_form_fields_json(r), fields_json@).insert(
                spec_key_form_deadline(r),
                spec_u64_to_le_bytes(deadline),
            ).insert(spec_key_form_timestamp(r), spec_u64_to_le_bytes(now))
        },
{
    if title.len() > 256 || description.len() > 1024 || fields_json.len() > 4096 {
        return 0;
    }
    let counter_key = key_form_counter();
    let form_id = get_u64(store, &counter_key) + 1;
    set_u64(store, &counter_key, form_id);

    let ck = key_form_creator(form_id);
    set_storage(store, &ck, crate::bytevec::copy_bytes(creator));
    let sk = key_form_status(form_id);
    set_u8_flag(store, &sk, 0);

    let pk_len = if encryption_pub_key.len() < 65 {
        encryption_pub_key.len()
    } else {
        65
    };
    let pk = copy_prefix(&encryption_pub_key, pk_len);
    let pkk = key_form_pubkey(form_id);
    set_storage(store, &pkk, pk);

    let tk = key_form_title(form_id);
    set_storage(store, &tk, title);
    let dk = key_form_description(form_id);
    set_storage(store, &dk, description);
    let fk = key_form_fields_json(form_id);
    set_storage(store, &fk, fields_json);

    let dlk = key_form_deadline(form_id);
    set_storage(store, &dlk, u64_to_le_bytes(deadline));
    let tsk = key_form_timestamp(form_id);
    set_storage(store, &tsk, u64_to_le_bytes(now));

    form_id
}

/// Records a response to an open, existing form before its deadline: marks
/// the voter as having submitted, hands out the next submission index and
/// stores the response identifier (at most 256 bytes) under it.  A closed or
/// missing form, or a passed deadline, is refused with `u64::MAX`.
pub fn submit_response(store: &mut Store, voter: &Vec<u8>, now: u64, form_id: u64, cid: Vec<u8>) -> (r:
    u64)
    requires
        old(store).inv(),
        stored_u64(old(store)@, spec_key_response_counter(form_id)) < u64::MAX,
    ensures
        final(store).inv(),
        ({
            let m = old(store)@;
            let closed = stored_u8(m, spec_key_form_status(form_id)) != 0;
            let missing = !m.contains_key(spec_key_form_creator(form_id));
            let dl = stored_u64(m, spec_key_form_deadline(form_id));
            let passed = m.contains_key(spec_key_form_deadline(form_id)) && dl > 0 && now > dl;
            if closed || missing || passed {
                r == u64::MAX && final(store)@ == m
            } else {
                let idx = stored_u64(m, spec_key_response_counter(form_id));
                &&& r == idx
                &&& final(store)@ == m.insert(
                    spec_key_has_submitted(form_id, voter@),
                    seq![1u8],
                ).insert(
                    spec_key_response_counter(form_id),
                    spec_u64_to_le_bytes((idx + 1) as u64),
                ).insert(
                    spec_key_response_cid(form_id, idx),
                    cid@.take(if cid@.len() < 256 { cid@.len() as int } else { 256 }),
                )
            }
        }),
{
    let sk = key_form_status(form_id);
    let status = get_u8_flag(store, &sk);
    if status != 0 {
        return u64::MAX;
    }
    let ck = key_form_creator(form_id);
    match get_address(store, &ck) {
        Some(_) => {},
        None => {
            return u64::MAX;
        },
    }
    let dlk = key_form_deadline(form_id);
    match get_storage(store, &dlk) {
        Some(_) => {
            let deadline = get_u64(store, &dlk);
            if deadline > 0 && now > deadline {
                return u64::MAX;
            }
        },
        None => {},
    }

    let hk = key_has_submitted(form_id, voter);
    proof {
        assert(spec_key_has_submitted(form_id, voter@)[0] == 0x15u8);
        assert(spec_key_response_counter(form_id)[0] == 0x18u8);
        assert(spec_key_has_submitted(form_id, voter@) != spec_key_response_counter(form_id));
    }
    set_u8_flag(store, &hk, 1);

    let rck = key_response_counter(form_id);
    let idx = get_u64(store, &rck);
    set_u64(store, &rck, idx + 1);

    let cid_len = if cid.len() < 256 {
        cid.len()
    } else {
        256
    };
    let c = copy_prefix(&cid, cid_len);
    let cidk = key_response_cid(form_id, idx);
    set_storage(store, &cidk, c);

    idx
}

/// A stored response identifier, read back through the host's zero-filled
/// 256-byte buffer; empty when absent.
pub fn get_response_cid(store: &Store, form_id: u64, submission_idx: u64) -> (r: Vec<u8>)
    ensures
        r@ == if store@.contains_key(spec_key_response_cid(form_id, submission_idx)) {
            pad_to(store@[spec_key_response_cid(form_id, submission_idx)], 256)
        } else {
            Seq::<u8>::empty()
        },
{
    let k = key_response_cid(form_id, submission_idx);
    match get_storage(store, &k) {
        Some(v) => pad_vec(&v, 256),
        None => Vec::new(),
    }
}

/// Adds one to the aggregate count of one option of one field.
pub fn record_aggregate(store: &mut Store, form_id: u64, field_idx: u8, option_idx: u8)
    requires
        old(store).inv(),
        stored_u64(old(store)@, spec_key_aggregate(form_id, field_idx, option_idx)) < u64::MAX,
    ensures
        final(store).inv(),
        final(store)@ == old(store)@.insert(
            spec_key_aggregate(form_id, field_idx, option_idx),
            spec_u64_to_le_bytes(
                (stored_u64(old(store)@, spec_key_aggregate(form_id, field_idx, option_idx))
                    + 1) as u64,
            ),
        ),
{
    let k = key_aggregate(form_id, field_idx, option_idx);
    let current = get_u64(store, &k);
    set_u64(store, &k, current + 1);
}

pub fn get_aggregate_count(store: &Store, form_id: u64, field_idx: u8, option_idx: u8) -> (r: u64)
    ensures
        r == stored_u64(store@, spec_key_aggregate(form_id, field_idx, option_idx)),
{
    let k = key_aggregate(form_id, field_idx, option_idx);
    get_u64(store, &k)
}

pub fn has_submitted(store: &Store, form_id: u64, voter: &Vec<u8>) -> (r: bool)
    ensures
        r == (stored_u8(store@, spec_key_has_submitted(form_id, voter@)) == 1),
{
    let k = key_has_submitted(form_id, voter);
    get_u8_flag(store, &k) == 1
}

/// Closes a form; only its creator may, anyone else changes nothing.
pub fn close_form(store: &mut Store, caller: &Vec<u8>, form_id: u64)
    requires
        old(store).inv(),
    ensures
        final(store).inv(),
        ({
            let m = old(store)@;
            if m.contains_key(spec_key_form_creator(form_id)) && pad_to(
                m[spec_key_form_creator(form_id)],
                20,
            ) == pad_to(caller@, 20) {
                final(store)@ == m.insert(spec_key_form_status(form_id), seq![1u8])
            } else {
                final(store)@ == m
            }
        }),
{
    let ck = key_form_creator(form_id);
    match get_address(store, &ck) {
        Some(creator) => {
            let me = pad_vec(caller, 20);
            if bytes_eq(&creator, &me) {
                let sk = key_form_status(form_id);
                set_u8_flag(store, &sk, 1);
            }
        },
        None => {},
    }
}

pub fn get_response_count(store: &Store, form_id: u64) -> (r: u64)
    ensures
        r == stored_u64(store@, spec_key_response_counter(form_id)),
{
    let k = key_response_counter(form_id);
    get_u64(store, &k)
}

pub fn form_count(store: &Store) -> (r: u64)
    ensures
        r == stored_u64(store@, spec_key_form_counter()),
{
    let k = key_form_counter();
    get_u64(store, &k)
}

} // verus!
