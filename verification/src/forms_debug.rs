//! Smallest storage exercise: raw bytes stored under one fixed key and read
//! back through the host's zero-filled 128-byte buffer.

use vstd::prelude::*;

use crate::bytevec::zeros;
use crate::forms_v2::stored_bytes;
use crate::kv::set_storage;
use crate::kv::Store;

verus! {

/// The single all-zero key.
pub fn storage_key() -> (k: Vec<u8>)
    ensures
        k@ == zeros(32),
{
    let mut k: Vec<u8> = Vec::new();
    crate::bytevec::push_zeros(&mut k, 32);
    assert(k@ =~= zeros(32));
    k
}

pub fn store_bytes(store: &mut Store, data: Vec<u8>)
    requires
        old(store).inv(),
    ensures
        final(store).inv(),
        final(store)@ == old(store)@.insert(zeros(32), data@),
{
    let k = storage_key();
    set_storage(store, &k, data);
}

/// The stored bytes, zero-padded to the read buffer and with trailing
/// zeroes trimmed; empty when nothing was stored.
pub fn read_bytes(store: &Store) -> (r: Vec<u8>)
    ensures
        r@ == stored_bytes(store@, zeros(32)),
{
    let k = storage_key();
    crate::forms_v2::get_bytes(store, &k)
}

} // verus!
