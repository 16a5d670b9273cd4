//! The byte-oriented key-value store that the small registries persist into:
//! a durable mapping from opaque byte keys to byte values, held in memory and
//! abstracted as a `Map<Seq<u8>, Seq<u8>>`.

use vstd::prelude::*;

use crate::assoc::AssocVec;
use crate::bytevec::copy_bytes;
use crate::bytevec::lemma_deep_view_u8;
use crate::bytevec::pad_to;
use crate::bytevec::pad_vec;
use vstd::bytes::spec_u64_from_le_bytes;
use vstd::bytes::spec_u64_to_le_bytes;
use vstd::bytes::u64_from_le_bytes;
use vstd::bytes::u64_to_le_bytes;

verus! {

pub type Store = AssocVec<Vec<u8>>;

pub fn new_store() -> (r: Store)
    ensures
        r.inv(),
        r@ == Map::<Seq<u8>, Seq<u8>>::empty(),
{
    AssocVec::new()
}

/// The value stored under `key`, if any.
pub fn get_storage(store: &Store, key: &Vec<u8>) -> (r: Option<Vec<u8>>)
    ensures
        match r {
            Some(v) => store@.contains_key(key@) && v@ == store@[key@],
            None => !store@.contains_key(key@),
        },
{
    match store.get(key) {
        Some(v) => {
            proof {
                lemma_deep_view_u8(*v);
            }
            Some(copy_bytes(v))
        },
        None => None,
    }
}

/// Stores `value` under `key`, replacing any previous value.
pub fn set_storage(store: &mut Store, key: &Vec<u8>, value: Vec<u8>)
    requires
        old(store).inv(),
    ensures
        final(store).inv(),
        final(store)@ == old(store)@.insert(key@, value@),
{
    proof {
        lemma_deep_view_u8(value);
    }
    store.insert(key, value);
}

/// Deletes the entry under `key`; a no-op when absent.
pub fn clear_storage(store: &mut Store, key: &Vec<u8>)
    requires
        old(store).inv(),
    ensures
        final(store).inv(),
        final(store)@ == old(store)@.remove(key@),
{
    store.remove(key);
}

/// A stored value read back through an 8-byte little-endian window:
/// missing entries and missing bytes read as zero.
pub open spec fn stored_u64(m: Map<Seq<u8>, Seq<u8>>, k: Seq<u8>) -> u64 {
    if m.contains_key(k) {
        spec_u64_from_le_bytes(pad_to(m[k], 8))
    } else {
        0u64
    }
}

pub fn read_stored_u64(store: &Store, key: &Vec<u8>) -> (r: u64)
    ensures
        r == stored_u64(store@, key@),
{
    match get_storage(store, key) {
        Some(v) => {
            let p = pad_vec(&v, 8);
            u64_from_le_bytes(p.as_slice())
        },
        None => 0,
    }
}

pub fn write_stored_u64(store: &mut Store, key: &Vec<u8>, v: u64)
    requires
        old(store).inv(),
    ensures
        final(store).inv(),
        final(store)@ == old(store)@.insert(key@, spec_u64_to_le_bytes(v)),
{
    set_storage(store, key, u64_to_le_bytes(v));
}

/// Round trip: a value written with `write_stored_u64` reads back unchanged.
pub proof fn lemma_stored_u64_roundtrip(m: Map<Seq<u8>, Seq<u8>>, k: Seq<u8>, v: u64)
    requires
        m.contains_key(k),
        m[k] == spec_u64_to_le_bytes(v),
    ensures
        stored_u64(m, k) == v,
{
    vstd::bytes::lemma_auto_spec_u64_to_from_le_bytes();
    assert(pad_to(m[k], 8) =~= spec_u64_to_le_bytes(v));
}

} // verus!
