//! Access-pass registry over the byte store: passes are minted under
//! incrementing token identifiers, carry an ABI-encoded metadata blob, and
//! can be revoked by the contract owner.  The metadata blob is produced and
//! read back through the host's ABI codec, whose results are only named
//! here; everything around those two calls is verified.

use vstd::prelude::*;

use crate::bytevec::append_bytes;
use crate::bytevec::bytes_eq;
use crate::bytevec::copy_bytes;
use crate::bytevec::copy_prefix;
use crate::bytevec::push_zeros;
use crate::bytevec::repeat_byte;
use crate::bytevec::zeros;
use crate::kv::clear_storage;
use crate::kv::get_storage;
use crate::kv::set_storage;
use crate::kv::Store;
use vstd::bytes::spec_u64_from_le_bytes;
use vstd::bytes::spec_u64_to_le_bytes;
use vstd::bytes::u64_from_le_bytes;
use vstd::bytes::u64_to_le_bytes;
use ethabi::decode;
use ethabi::ParamType;
use ethabi::Token;

verus! {

/// Failures the access-pass registry reports.
#[derive(Clone, Copy, PartialEq, Eq, Debug, Structural)]
pub enum PassError {
    /// Caller may not mint for others or revoke.
    Unauthorized,
    /// The expiry lies in the past.
    InvalidExpiration,
    /// No pass is stored under the token identifier.
    TokenNotFound,
    /// The stored metadata blob does not decode.
    MetadataError,
}

/// Metadata of one access pass.
#[derive(Debug)]
pub struct PassMetadata {
    pub location: String,
    pub location_id: String,
    pub holder: Vec<u8>,
    pub issued_at: u64,
    pub expires_at: u64,
    pub access_level: String,
    pub identity_display: String,
}

/// Mathematical image of a [`PassMetadata`].
#[verifier::ext_equal]
pub ghost struct PassMetaModel {
    pub location: Seq<char>,
    pub location_id: Seq<char>,
    pub holder: Seq<u8>,
    pub issued_at: u64,
    pub expires_at: u64,
    pub access_level: Seq<char>,
    pub identity_display: Seq<char>,
}

impl DeepView for PassMetadata {
    type V = PassMetaModel;

    open spec fn deep_view(&self) -> PassMetaModel {
        PassMetaModel {
            location: self.location@,
            location_id: self.location_id@,
            holder: self.holder@,
            issued_at: self.issued_at,
            expires_at: self.expires_at,
            access_level: self.access_level@,
            identity_display: self.identity_display@,
        }
    }
}

/// What the host ABI codec encodes the pass metadata tuple to: a function of
/// the field values alone.
pub uninterp spec fn pass_meta_bytes(
    location: Seq<char>,
    location_id: Seq<char>,
    holder: Seq<u8>,
    issued_at: u64,
    expires_at: u64,
    access_level: Seq<char>,
    identity_display: Seq<char>,
) -> Seq<u8>;

/// What the host ABI codec decodes a byte string to under the pass metadata
/// schema: a function of the bytes alone.
pub uninterp spec fn decoded_pass_meta(b: Seq<u8>) -> Option<PassMetaModel>;

/// Relies on ethabi::encode of the tuple (string, string, address, uint256,
/// uint256, string, string): the encoding depends on the field values alone,
/// and ethabi::decode under the same schema inverts it.
#[verifier::external_body]
fn encode_pass_metadata(m: &PassMetadata) -> (r: Vec<u8>)
    requires
        m.holder@.len() == 20,
    ensures
        r@ == pass_meta_bytes(
            m.location@,
            m.location_id@,
            m.holder@,
            m.issued_at,
            m.expires_at,
            m.access_level@,
            m.identity_display@,
        ),
        decoded_pass_meta(r@) == Some(m.deep_view()),
{
    ethabi::encode(
        &[
            ethabi::Token::String(m.location.clone()),
            ethabi::Token::String(m.location_id.clone()),
            ethabi::Token::Address(ethabi::Address::from_slice(&m.holder)),
            ethabi::Token::Uint(m.issued_at.into()),
            ethabi::Token::Uint(m.expires_at.into()),
            ethabi::Token::String(m.access_level.clone()),
            ethabi::Token::String(m.identity_display.clone()),
        ],
    )
}

/// Relies on ethabi::decode under the pass metadata schema, taking the low
/// 64 bits of the two counters: the result depends on the input bytes
/// alone; a decoded address holds 20 bytes.
#[verifier::external_body]
fn decode_pass_metadata(b: &Vec<u8>) -> (r: Option<PassMetadata>)
    ensures
        match r {
            Some(m) => decoded_pass_meta(b@) == Some(m.deep_view()) && m.holder@.len() == 20,
            None => decoded_pass_meta(b@) is None,
        },
{
    let t = decode(&[ParamType::String, ParamType::String, ParamType::Address, ParamType::Uint(256), ParamType::Uint(256), ParamType::String, ParamType::String], b).ok()?;
    match t.as_slice() {
        [Token::String(l), Token::String(li), Token::Address(h), Token::Uint(ia), Token::Uint(ea), Token::String(al), Token::String(idd)] => Some(PassMetadata {
            location: l.clone(), location_id: li.clone(), holder: h.0.to_vec(),
            issued_at: ia.low_u64(), expires_at: ea.low_u64(),
            access_level: al.clone(), identity_display: idd.clone(),
        }),
        _ => None,
    }
}

pub open spec fn spec_key_pass(token_id: u64) -> Seq<u8> {
    seq![0x00u8] + spec_u64_to_le_bytes(token_id) + zeros(23)
}

pub fn storage_key_pass(token_id: u64) -> (k: Vec<u8>)
    ensures
        k@ == spec_key_pass(token_id),
{
    let mut k: Vec<u8> = Vec::new();
    k.push(0x00u8);
    let id = u64_to_le_bytes(token_id);
    append_bytes(&mut k, &id);
    push_zeros(&mut k, 23);
    assert(k@ =~= spec_key_pass(token_id));
    k
}

pub open spec fn spec_key_owner(token_id: u64) -> Seq<u8> {
    seq![0x02u8] + spec_u64_to_le_bytes(token_id) + zeros(23)
}

pub fn storage_key_owner(token_id: u64) -> (k: Vec<u8>)
    ensures
        k@ == spec_key_owner(token_id),
{
    let mut k: Vec<u8> = Vec::new();
    k.push(0x02u8);
    let id = u64_to_le_bytes(token_id);
    append_bytes(&mut k, &id);
    push_zeros(&mut k, 23);
    assert(k@ =~= spec_key_owner(token_id));
    k
}

pub open spec fn spec_key_revoked(token_id: u64) -> Seq<u8> {
    seq![0x03u8] + spec_u64_to_le_bytes(token_id) + zeros(23)
}

pub fn storage_key_revoked(token_id: u64) -> (k: Vec<u8>)
    ensures
        k@ == spec_key_revoked(token_id),
{
    let mut k: Vec<u8> = Vec::new();
    k.push(0x03u8);
    let id = u64_to_le_bytes(token_id);
    append_bytes(&mut k, &id);
    push_zeros(&mut k, 23);
    assert(k@ =~= spec_key_revoked(token_id));
    k
}

/// Key of the contract owner: all bytes 0xFF.
pub open spec fn spec_owner_key() -> Seq<u8> {
    Seq::new(32, |i: int| 0xFFu8)
}

pub fn owner_key() -> (k: Vec<u8>)
    ensures
        k@ == spec_owner_key(),
{
    repeat_byte(0xFF, 32)
}

/// Key of the token counter: all bytes 0x01.
pub open spec fn spec_token_counter_key() -> Seq<u8> {
    Seq::new(32, |i: int| 0x01u8)
}

pub fn token_counter_key() -> (k: Vec<u8>)
    ensures
        k@ == spec_token_counter_key(),
{
    repeat_byte(0x01, 32)
}

/// A stored u64: the first eight little-endian bytes of a value of at least
/// eight bytes; zero otherwise.
pub open spec fn ap_stored_u64(m: Map<Seq<u8>, Seq<u8>>, k: Seq<u8>) -> u64 {
    if m.contains_key(k) && m[k].len() >= 8 {
        spec_u64_from_le_bytes(m[k].take(8))
    } else {
        0u64
    }
}

pub fn get_u64(store: &Store, key: &Vec<u8>) -> (r: u64)
    ensures
        r == ap_stored_u64(store@, key@),
{
    match get_storage(store, key) {
        Some(v) => {
            if v.len() >= 8 {
                let p = copy_prefix(&v, 8);
                u64_from_le_bytes(p.as_slice())
            } else {
                0
            }
        },
        None => 0,
    }
}

pub fn set_u64(store: &mut Store, key: &Vec<u8>, value: u64)
    requires
        old(store).inv(),
    ensures
        final(store).inv(),
        final(store)@ == old(store)@.insert(key@, spec_u64_to_le_bytes(value)),
{
    set_storage(store, key, u64_to_le_bytes(value));
}

/// The stored contract owner: the first 20 bytes of the value under the
/// owner key, or the zero address.
pub open spec fn spec_ap_owner(m: Map<Seq<u8>, Seq<u8>>) -> Seq<u8> {
    if m.contains_key(spec_owner_key()) && m[spec_owner_key()].len() >= 20 {
        m[spec_owner_key()].take(20)
    } else {
        zeros(20)
    }
}

pub fn get_owner(store: &Store) -> (r: Vec<u8>)
    ensures
        r@ == spec_ap_owner(store@),
{
    let k = owner_key();
    match get_storage(store, &k) {
        Some(v) => {
            if v.len() >= 20 {
                copy_prefix(&v, 20)
            } else {
                let z = repeat_byte(0, 20);
                proof {
                    assert(z@ =~= zeros(20));
                }
                z
            }
        },
        None => {
            let z = repeat_byte(0, 20);
            proof {
                assert(z@ =~= zeros(20));
            }
            z
        },
    }
}

/// Deployment: records the deployer as contract owner and starts the token
/// counter at one.
pub fn initialize(store: &mut Store, deployer: &Vec<u8>)
    requires
        old(store).inv(),
    ensures
        final(store).inv(),
        final(store)@ == old(store)@.insert(spec_owner_key(), deployer@).insert(
            spec_token_counter_key(),
            spec_u64_to_le_bytes(1),
        ),
{
    let ok = owner_key();
    set_storage(store, &ok, copy_bytes(deployer));
    let ck = token_counter_key();
    set_u64(store, &ck, 1);
}

/// Mints a pass: anyone may mint to themselves, only the contract owner may
/// mint to someone else; a non-zero expiry must lie in the future.  Stores
/// the holder and the encoded metadata under the next token identifier.
pub fn mint_access_pass(
    store: &mut Store,
    sender: &Vec<u8>,
    now: u64,
    to: Vec<u8>,
    location: String,
    location_id: String,
    expires_at: u64,
    access_level: String,
    identity_display: String,
) -> (r: Result<u64, PassError>)
    requires
        old(store).inv(),
        to@.len() == 20,
        ap_stored_u64(old(store)@, spec_token_counter_key()) < u64::MAX,
    ensures
        final(store).inv(),
        ({
            let m = old(store)@;
            if to@ != sender@ && sender@ != spec_ap_owner(m) {
                r == Err::<u64, PassError>(PassError::Unauthorized) && final(store)@ == m
            } else if expires_at > 0 && expires_at <= now {
                r == Err::<u64, PassError>(PassError::InvalidExpiration) && final(store)@ == m
            } else {
                let tid = ap_stored_u64(m, spec_token_counter_key());
                &&& r == Ok::<u64, PassError>(tid)
                &&& final(store)@ == m.insert(
                    spec_token_counter_key(),
                    spec_u64_to_le_bytes((tid + 1) as u64),
                ).insert(spec_key_owner(tid), to@).insert(
                    spec_key_pass(tid),
                    pass_meta_bytes(
                        location@,
                        location_id@,
                        to@,
                        now,
                        expires_at,
                        access_level@,
                        identity_display@,
                    ),
                )
            }
        }),
{
    let owner = get_owner(store);
    if !bytes_eq(&to, sender) && !bytes_eq(sender, &owner) {
        return Err(PassError::Unauthorized);
    }
    if expires_at > 0 && expires_at <= now {
        return Err(PassError::InvalidExpiration);
    }
    let ck = token_counter_key();
    let token_id = get_u64(store, &ck);
    set_u64(store, &ck, token_id + 1);

    let okey = storage_key_owner(token_id);
    set_storage(store, &okey, copy_bytes(&to));

    let metadata = encode_pass_metadata(
        &PassMetadata {
            location: location,
            location_id: location_id,
            holder: to,
            issued_at: now,
            expires_at: expires_at,
            access_level: access_level,
            identity_display: identity_display,
        },
    );
    let pkey = storage_key_pass(token_id);
    set_storage(store, &pkey, metadata);

    Ok(token_id)
}

/// Revokes a pass: only the contract owner may; marks the token revoked and
/// burns it by clearing its holder entry.
pub fn revoke_access_pass(store: &mut Store, sender: &Vec<u8>, token_id: u64) -> (r: Result<
    (),
    PassError,
>)
    requires
        old(store).inv(),
    ensures
        final(store).inv(),
        ({
            let m = old(store)@;
            if sender@ != spec_ap_owner(m) {
                r == Err::<(), PassError>(PassError::Unauthorized) && final(store)@ == m
            } else if !m.contains_key(spec_key_owner(token_id)) {
                r == Err::<(), PassError>(PassError::TokenNotFound) && final(store)@ == m
            } else {
                r == Ok::<(), PassError>(()) && final(store)@ == m.insert(
                    spec_key_revoked(token_id),
                    seq![1u8],
                ).remove(spec_key_owner(token_id))
            }
        }),
{
    let owner = get_owner(store);
    if !bytes_eq(sender, &owner) {
        return Err(PassError::Unauthorized);
    }
    let okey = storage_key_owner(token_id);
    match get_storage(store, &okey) {
        Some(_) => {},
        None => {
            return Err(PassError::TokenNotFound);
        },
    }
    let rkey = storage_key_revoked(token_id);
    let mut flag: Vec<u8> = Vec::new();
    flag.push(1u8);
    proof {
        assert(flag@ =~= seq![1u8]);
    }
    set_storage(store, &rkey, flag);
    clear_storage(store, &okey);
    Ok(())
}

/// The stored value truncated to the host's 4096-byte read buffer.
pub open spec fn cap4096(s: Seq<u8>) -> Seq<u8> {
    if s.len() <= 4096 {
        s
    } else {
        s.take(4096)
    }
}

fn cap4096_vec(v: Vec<u8>) -> (r: Vec<u8>)
    ensures
        r@ == cap4096(v@),
{
    if v.len() > 4096 {
        copy_prefix(&v, 4096)
    } else {
        v
    }
}

/// Validity of a pass: it exists, is not revoked, and its metadata — when
/// present and decodable — carries no expiry in the past.
pub open spec fn spec_is_pass_valid(m: Map<Seq<u8>, Seq<u8>>, now: u64, token_id: u64) -> bool {
    &&& m.contains_key(spec_key_owner(token_id))
    &&& !m.contains_key(spec_key_revoked(token_id))
    &&& (m.contains_key(spec_key_pass(token_id)) ==> match decoded_pass_meta(
        cap4096(m[spec_key_pass(token_id)]),
    ) {
        Some(meta) => !(meta.expires_at > 0 && now > meta.expires_at),
        None => true,
    })
}

pub fn is_pass_valid(store: &Store, now: u64, token_id: u64) -> (r: bool)
    ensures
        r == spec_is_pass_valid(store@, now, token_id),
{
    let okey = storage_key_owner(token_id);
    match get_storage(store, &okey) {
        Some(_) => {},
        None => {
            return false;
        },
    }
    let rkey = storage_key_revoked(token_id);
    match get_storage(store, &rkey) {
        Some(_) => {
            return false;
        },
        None => {},
    }
    let pkey = storage_key_pass(token_id);
    match get_storage(store, &pkey) {
        Some(v) => {
            let b = cap4096_vec(v);
            match decode_pass_metadata(&b) {
                Some(meta) => !(meta.expires_at > 0 && now > meta.expires_at),
                None => true,
            }
        },
        None => true,
    }
}

/// The decoded metadata of an existing pass, together with its revocation
/// flag.
pub fn get_pass_metadata(store: &Store, token_id: u64) -> (r: Result<(PassMetadata, bool), PassError>)
    ensures
        ({
            let m = store@;
            if !m.contains_key(spec_key_owner(token_id)) {
                r == Err::<(PassMetadata, bool), PassError>(PassError::TokenNotFound)
            } else if !m.contains_key(spec_key_pass(token_id)) {
                r == Err::<(PassMetadata, bool), PassError>(PassError::MetadataError)
            } else {
                match decoded_pass_meta(cap4096(m[spec_key_pass(token_id)])) {
                    Some(meta) => match r {
                        Ok(p) => p.0.deep_view() == meta && p.1 == m.contains_key(
                            spec_key_revoked(token_id),
                        ),
                        Err(_) => false,
                    },
                    None => r == Err::<(PassMetadata, bool), PassError>(PassError::MetadataError),
                }
            }
        }),
{
    let okey = storage_key_owner(token_id);
    match get_storage(store, &okey) {
        Some(_) => {},
        None => {
            return Err(PassError::TokenNotFound);
        },
    }
    let pkey = storage_key_pass(token_id);
    match get_storage(store, &pkey) {
        Some(v) => {
            let rkey = storage_key_revoked(token_id);
            let revoked = match get_storage(store, &rkey) {
                Some(_) => true,
                None => false,
            };
            let b = cap4096_vec(v);
            match decode_pass_metadata(&b) {
                Some(meta) => Ok((meta, revoked)),
                None => Err(PassError::MetadataError),
            }
        },
        None => Err(PassError::MetadataError),
    }
}

/// How many passes were minted: the counter less its starting value of one.
pub fn total_minted(store: &Store) -> (r: u64)
    ensures
        ({
            let c = ap_stored_u64(store@, spec_token_counter_key());
            r == if c >= 1 {
                (c - 1) as u64
            } else {
                0u64
            }
        }),
{
    let ck = token_counter_key();
    let c = get_u64(store, &ck);
    if c > 0 {
        c - 1
    } else {
        0
    }
}

} // verus!
