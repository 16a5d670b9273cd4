//! Minimal counter registry over the byte store: one little-endian `u64`
//! under a fixed key, incremented one call at a time.

use vstd::prelude::*;

use crate::bytevec::push_zeros;
use crate::bytevec::zeros;
use crate::kv::read_stored_u64;
use crate::kv::stored_u64;
use crate::kv::write_stored_u64;
use crate::kv::Store;
use vstd::bytes::spec_u64_to_le_bytes;

verus! {

/// Key of the counter: namespace byte one, then zeroes.
pub open spec fn spec_counter_key() -> Seq<u8> {
    seq![1u8] + zeros(31)
}

pub fn counter_key() -> (k: Vec<u8>)
    ensures
        k@ == spec_counter_key(),
{
    let mut k: Vec<u8> = Vec::new();
    k.push(1u8);
    push_zeros(&mut k, 31);
    assert(k@ =~= spec_counter_key());
    k
}

/// Adds one to the stored count and returns the new count, which a
/// following read returns unchanged.
pub fn increment(store: &mut Store) -> (r: u64)
    requires
        old(store).inv(),
        stored_u64(old(store)@, spec_counter_key()) < u64::MAX,
    ensures
        final(store).inv(),
        r == stored_u64(old(store)@, spec_counter_key()) + 1,
        final(store)@ == old(store)@.insert(spec_counter_key(), spec_u64_to_le_bytes(r)),
        stored_u64(final(store)@, spec_counter_key()) == r,
{
    let key = counter_key();
    let count = read_stored_u64(store, &key);
    let new_count = count + 1;
    write_stored_u64(store, &key, new_count);
    proof {
        crate::kv::lemma_stored_u64_roundtrip(store@, spec_counter_key(), new_count);
    }
    new_count
}

/// The stored count; zero when nothing was stored yet.
pub fn get_count(store: &Store) -> (r: u64)
    ensures
        r == stored_u64(store@, spec_counter_key()),
{
    let key = counter_key();
    read_stored_u64(store, &key)
}

} // verus!
