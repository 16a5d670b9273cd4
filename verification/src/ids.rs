//! Content-derived 32-byte identifiers.  Organization and credential
//! identifiers are SHA-256 digests of a preimage assembled from plain values;
//! the digest itself comes from the host crate and is only named here.

use vstd::prelude::*;

use crate::bytevec::append_bytes;
use crate::bytevec::copy_bytes;
use vstd::bytes::spec_u64_to_le_bytes;
use vstd::bytes::u64_to_le_bytes;

verus! {

/// What SHA-256 returns on the given bytes: a function of the input alone.
pub uninterp spec fn sha256_of(data: Seq<u8>) -> Seq<u8>;

/// Relies on ink::env::hash_bytes with the Sha2x256 hasher: it computes the
/// SHA-256 digest of the input — 32 bytes depending on the input bytes alone.
#[verifier::external_body]
pub fn sha2_256(data: &Vec<u8>) -> (r: Vec<u8>)
    ensures
        r@ == sha256_of(data@),
        r@.len() == 32,
{
    let mut output = [0u8; 32];
    ink::env::hash_bytes::<ink::env::hash::Sha2x256>(data.as_slice(), &mut output);
    output.to_vec()
}

/// Preimage of an organization identifier: name, owner, creation time.
pub open spec fn org_id_preimage(name: Seq<u8>, owner: Seq<u8>, now: u64) -> Seq<u8> {
    name + owner + spec_u64_to_le_bytes(now)
}

/// Preimage of a credential identifier: nonce, issue time, issuer.
pub open spec fn cred_id_preimage(nonce: u64, now: u64, caller: Seq<u8>) -> Seq<u8> {
    spec_u64_to_le_bytes(nonce) + spec_u64_to_le_bytes(now) + caller
}

/// Derives an organization identifier from its name, owner and creation time.
pub fn derive_org_id(name: &Vec<u8>, owner: &Vec<u8>, now: u64) -> (r: Vec<u8>)
    ensures
        r@ == sha256_of(org_id_preimage(name@, owner@, now)),
        r@.len() == 32,
{
    let mut data = copy_bytes(name);
    append_bytes(&mut data, owner);
    let ts = u64_to_le_bytes(now);
    append_bytes(&mut data, &ts);
    assert(data@ == org_id_preimage(name@, owner@, now));
    sha2_256(&data)
}

/// Derives a credential identifier from the registry nonce, the issue time
/// and the issuing caller.
pub fn derive_credential_id(nonce: u64, now: u64, caller: &Vec<u8>) -> (r: Vec<u8>)
    ensures
        r@ == sha256_of(cred_id_preimage(nonce, now, caller@)),
        r@.len() == 32,
{
    let mut data = u64_to_le_bytes(nonce);
    let ts = u64_to_le_bytes(now);
    append_bytes(&mut data, &ts);
    append_bytes(&mut data, caller);
    assert(data@ == cred_id_preimage(nonce, now, caller@));
    sha2_256(&data)
}

} // verus!
