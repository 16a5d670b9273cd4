//! Content-addressed forms registry over the byte store, together with the
//! hand-written ABI primitives its dispatch boundary uses: big-endian word
//! reads, dynamic `bytes` parameters, and their encodings.  Values read back
//! through the host's fixed buffers come back zero-padded and with trailing
//! zeroes trimmed, which the read helpers state explicitly.

use vstd::prelude::*;

use crate::bytevec::append_bytes;
use crate::bytevec::copy_prefix;
use crate::bytevec::copy_range;
use crate::bytevec::pad_to;
use crate::bytevec::pad_vec;
use crate::bytevec::push_zeros;
use crate::bytevec::zeros;
use crate::kv::get_storage;
use crate::kv::read_stored_u64;
use crate::kv::set_storage;
use crate::kv::stored_u64;
use crate::kv::write_stored_u64;
use crate::kv::Store;
use vstd::bytes::spec_u64_to_le_bytes;

verus! {

pub open spec fn spec_key_form_counter() -> Seq<u8> {
    seq![0x01u8] + zeros(31)
}

pub fn key_form_counter() -> (k: Vec<u8>)
    ensures
        k@ == spec_key_form_counter(),
{
    let mut k: Vec<u8> = Vec::new();
    k.push(0x01u8);
    push_zeros(&mut k, 31);
    assert(k@ =~= spec_key_form_counter());
    k
}

/// A key of one namespace byte, a form identifier, and zero padding.
pub open spec fn spec_key_ns(ns: u8, form_id: u64) -> Seq<u8> {
    seq![ns] + spec_u64_to_le_bytes(form_id) + zeros(23)
}

fn key_ns(ns: u8, form_id: u64) -> (k: Vec<u8>)
    ensures
        k@ == spec_key_ns(ns, form_id),
{
    let mut k: Vec<u8> = Vec::new();
    k.push(ns);
    let id = vstd::bytes::u64_to_le_bytes(form_id);
    append_bytes(&mut k, &id);
    push_zeros(&mut k, 23);
    assert(k@ =~= spec_key_ns(ns, form_id));
    k
}

pub open spec fn spec_key_form_cid(form_id: u64) -> Seq<u8> {
    spec_key_ns(0x02, form_id)
}

pub fn key_form_cid(form_id: u64) -> (k: Vec<u8>)
    ensures
        k@ == spec_key_form_cid(form_id),
{
    key_ns(0x02, form_id)
}

pub open spec fn spec_key_form_creator(form_id: u64) -> Seq<u8> {
    spec_key_ns(0x03, form_id)
}

pub fn key_form_creator(form_id: u64) -> (k: Vec<u8>)
    ensures
        k@ == spec_key_form_creator(form_id),
{
    key_ns(0x03, form_id)
}

pub open spec fn spec_key_response_counter(form_id: u64) -> Seq<u8> {
    spec_key_ns(0x04, form_id)
}

pub fn key_response_counter(form_id: u64) -> (k: Vec<u8>)
    ensures
        k@ == spec_key_response_counter(form_id),
{
    key_ns(0x04, form_id)
}

pub open spec fn spec_key_response_cid(form_id: u64, idx: u64) -> Seq<u8> {
    seq![0x05u8] + spec_u64_to_le_bytes(form_id) + spec_u64_to_le_bytes(idx) + zeros(15)
}

pub fn key_response_cid(form_id: u64, idx: u64) -> (k: Vec<u8>)
    ensures
        k@ == spec_key_response_cid(form_id, idx),
{
    let mut k: Vec<u8> = Vec::new();
    k.push(0x05u8);
    let id = vstd::bytes::u64_to_le_bytes(form_id);
    append_bytes(&mut k, &id);
    let ix = vstd::bytes::u64_to_le_bytes(idx);
    append_bytes(&mut k, &ix);
    push_zeros(&mut k, 15);
    assert(k@ =~= spec_key_response_cid(form_id, idx));
    k
}

/// `s` with its trailing zero bytes removed.
pub open spec fn trim_zeros(s: Seq<u8>) -> Seq<u8>
    decreases s.len(),
{
    if s.len() == 0 {
        s
    } else if s[s.len() - 1] == 0 {
        trim_zeros(s.drop_last())
    } else {
        s
    }
}

fn trim_zeros_vec(v: &Vec<u8>) -> (r: Vec<u8>)
    ensures
        r@ == trim_zeros(v@),
{
    let mut n: usize = v.len();
    proof {
        assert(v@.take(v@.len() as int) =~= v@);
    }
    while n > 0 && v[n - 1] == 0
        invariant
            n <= v@.len(),
            trim_zeros(v@) == trim_zeros(v@.take(n as int)),
        decreases n,
    {
        proof {
            assert(v@.take(n as int).drop_last() =~= v@.take(n - 1));
        }
        n = n - 1;
    }
    let r = copy_prefix(v, n);
    proof {
        if n == 0 {
            assert(v@.take(0) =~= Seq::<u8>::empty());
        }
    }
    r
}

/// A stored value read back through the host's zero-filled 128-byte buffer,
/// with trailing zeroes trimmed; empty when absent.
pub open spec fn stored_bytes(m: Map<Seq<u8>, Seq<u8>>, k: Seq<u8>) -> Seq<u8> {
    if m.contains_key(k) {
        trim_zeros(pad_to(m[k], 128))
    } else {
        Seq::<u8>::empty()
    }
}

pub fn get_u64(store: &Store, key: &Vec<u8>) -> (r: u64)
    ensures
        r == stored_u64(store@, key@),
{
    read_stored_u64(store, key)
}

pub fn set_u64(store: &mut Store, key: &Vec<u8>, value: u64)
    requires
        old(store).inv(),
    ensures
        final(store).inv(),
        final(store)@ == old(store)@.insert(key@, spec_u64_to_le_bytes(value)),
{
    write_stored_u64(store, key, value);
}

pub fn get_bytes(store: &Store, key: &Vec<u8>) -> (r: Vec<u8>)
    ensures
        r@ == stored_bytes(store@, key@),
{
    match get_storage(store, key) {
        Some(v) => {
            let b = pad_vec(&v, 128);
            trim_zeros_vec(&b)
        },
        None => Vec::new(),
    }
}

pub fn set_bytes(store: &mut Store, key: &Vec<u8>, data: Vec<u8>)
    requires
        old(store).inv(),
    ensures
        final(store).inv(),
        final(store)@ == old(store)@.insert(key@, data@),
{
    set_storage(store, key, data);
}

/// Big-endian u32 held in four bytes.
pub open spec fn spec_u32_from_be(s: Seq<u8>) -> u32
    recommends
        s.len() == 4,
{
    ((s[0] as u32) << 24) | ((s[1] as u32) << 16) | ((s[2] as u32) << 8) | (s[3] as u32)
}

/// Big-endian u64 held in eight bytes.
pub open spec fn spec_u64_from_be(s: Seq<u8>) -> u64
    recommends
        s.len() == 8,
{
    ((s[0] as u64) << 56) | ((s[1] as u64) << 48) | ((s[2] as u64) << 40) | ((s[3] as u64) << 32)
        | ((s[4] as u64) << 24) | ((s[5] as u64) << 16) | ((s[6] as u64) << 8) | (s[7] as u64)
}

/// The eight big-endian bytes of a u64.
pub open spec fn spec_u64_to_be(v: u64) -> Seq<u8> {
    seq![
        ((v >> 56) & 0xff) as u8,
        ((v >> 48) & 0xff) as u8,
        ((v >> 40) & 0xff) as u8,
        ((v >> 32) & 0xff) as u8,
        ((v >> 24) & 0xff) as u8,
        ((v >> 16) & 0xff) as u8,
        ((v >> 8) & 0xff) as u8,
        (v & 0xff) as u8,
    ]
}

/// The four big-endian bytes of a u32.
pub open spec fn spec_u32_to_be(v: u32) -> Seq<u8> {
    seq![((v >> 24) & 0xff) as u8, ((v >> 16) & 0xff) as u8, ((v >> 8) & 0xff) as u8, (
        v & 0xff
    ) as u8]
}

/// Reads a big-endian u32 at byte position `p`.
fn read_be_u32(data: &Vec<u8>, p: usize) -> (r: u32)
    requires
        p + 4 <= data@.len(),
    ensures
        r == spec_u32_from_be(data@.subrange(p as int, p as int + 4)),
{
    let n = data.len();
    assert(p + 4 <= n);
    let r = ((data[p] as u32) << 24) | ((data[p + 1] as u32) << 16) | ((data[p + 2] as u32) << 8)
        | (data[p + 3] as u32);
    proof {
        let s = data@.subrange(p as int, p as int + 4);
        assert(s[0] == data@[p as int]);
        assert(s[1] == data@[p as int + 1]);
        assert(s[2] == data@[p as int + 2]);
        assert(s[3] == data@[p as int + 3]);
    }
    r
}

/// The uint64 held in the 32-byte word at index `word` of ABI-encoded data:
/// right-aligned in the word's last eight bytes; zero when out of range.
pub open spec fn spec_read_u64(data: Seq<u8>, word: int) -> u64 {
    if data.len() < word * 32 + 32 {
        0u64
    } else {
        spec_u64_from_be(data.subrange(word * 32 + 24, word * 32 + 32))
    }
}

pub fn read_u64(data: &Vec<u8>, word: usize) -> (r: u64)
    requires
        word * 32 + 32 <= usize::MAX,
    ensures
        r == spec_read_u64(data@, word as int),
{
    let off = word * 32;
    if data.len() < off + 32 {
        return 0;
    }
    let r = ((data[off + 24] as u64) << 56) | ((data[off + 25] as u64) << 48) | ((data[off
        + 26] as u64) << 40) | ((data[off + 27] as u64) << 32) | ((data[off + 28] as u64) << 24) | (
    (data[off + 29] as u64) << 16) | ((data[off + 30] as u64) << 8) | (data[off + 31] as u64);
    proof {
        let s = data@.subrange(off as int + 24, off as int + 32);
        assert(s[0] == data@[off as int + 24]);
        assert(s[1] == data@[off as int + 25]);
        assert(s[2] == data@[off as int + 26]);
        assert(s[3] == data@[off as int + 27]);
        assert(s[4] == data@[off as int + 28]);
        assert(s[5] == data@[off as int + 29]);
        assert(s[6] == data@[off as int + 30]);
        assert(s[7] == data@[off as int + 31]);
    }
    r
}

/// The content of an ABI-encoded dynamic `bytes` parameter whose offset word
/// sits at word index `word`: the offset word points at a length word, the
/// content follows it, truncated at the end of the data; empty when any part
/// is out of range.
pub open spec fn spec_read_bytes(data: Seq<u8>, word: int) -> Seq<u8> {
    if data.len() < word * 32 + 32 {
        Seq::<u8>::empty()
    } else {
        let offset = spec_u32_from_be(data.subrange(word * 32 + 28, word * 32 + 32)) as int;
        if data.len() < offset + 32 {
            Seq::<u8>::empty()
        } else {
            let length = spec_u32_from_be(data.subrange(offset + 28, offset + 32)) as int;
            let start = offset + 32;
            let end = if start + length < data.len() {
                start + length
            } else {
                data.len() as int
            };
            data.subrange(start, end)
        }
    }
}

pub fn read_bytes(data: &Vec<u8>, word_idx: usize) -> (r: Vec<u8>)
    requires
        word_idx * 32 + 32 <= usize::MAX,
    ensures
        r@ == spec_read_bytes(data@, word_idx as int),
{
    let ptr_off = word_idx * 32;
    if data.len() < ptr_off + 32 {
        return Vec::new();
    }
    let offset = read_be_u32(data, ptr_off + 28) as usize;
    if offset > data.len() || data.len() - offset < 32 {
        return Vec::new();
    }
    let length = read_be_u32(data, offset + 28) as usize;
    let start = offset + 32;
    let end = if length < data.len() - start {
        start + length
    } else {
        data.len()
    };
    copy_range(data, start, end)
}

/// An ABI uint256 word holding a u64: 24 zero bytes, then big-endian.
pub open spec fn spec_encode_u256(v: u64) -> Seq<u8> {
    zeros(24) + spec_u64_to_be(v)
}

pub fn encode_u256(v: u64) -> (r: Vec<u8>)
    ensures
        r@ == spec_encode_u256(v),
{
    let mut out: Vec<u8> = Vec::new();
    push_zeros(&mut out, 24);
    out.push(((v >> 56) & 0xff) as u8);
    out.push(((v >> 48) & 0xff) as u8);
    out.push(((v >> 40) & 0xff) as u8);
    out.push(((v >> 32) & 0xff) as u8);
    out.push(((v >> 24) & 0xff) as u8);
    out.push(((v >> 16) & 0xff) as u8);
    out.push(((v >> 8) & 0xff) as u8);
    out.push((v & 0xff) as u8);
    assert(out@ =~= spec_encode_u256(v));
    out
}

/// An ABI-encoded dynamic `bytes` return value: an offset word of 0x20, a
/// length word, then the content padded with zeroes to a word boundary.
pub open spec fn spec_encode_bytes(data: Seq<u8>) -> Seq<u8> {
    let padded = ((data.len() + 31) / 32) * 32;
    zeros(31) + seq![0x20u8] + zeros(28) + spec_u32_to_be(data.len() as u32) + data + zeros(
        (padded - data.len()) as nat,
    )
}

pub fn encode_bytes(data: &Vec<u8>) -> (r: Vec<u8>)
    requires
        data@.len() + 95 <= usize::MAX,
    ensures
        r@ == spec_encode_bytes(data@),
{
    let padded_len = ((data.len() + 31) / 32) * 32;
    proof {
        assert(padded_len >= data@.len()) by (nonlinear_arith)
            requires
                padded_len == ((data@.len() + 31) / 32) * 32,
        ;
    }
    let mut out: Vec<u8> = Vec::new();
    push_zeros(&mut out, 31);
    out.push(0x20u8);
    push_zeros(&mut out, 28);
    let len32 = data.len() as u32;
    out.push(((len32 >> 24) & 0xff) as u8);
    out.push(((len32 >> 16) & 0xff) as u8);
    out.push(((len32 >> 8) & 0xff) as u8);
    out.push((len32 & 0xff) as u8);
    append_bytes(&mut out, data);
    push_zeros(&mut out, padded_len - data.len());
    assert(out@ =~= spec_encode_bytes(data@));
    out
}

/// The eight big-endian bytes of a u64 read back as the same value.
pub proof fn lemma_u64_be_roundtrip(v: u64)
    ensures
        spec_u64_from_be(spec_u64_to_be(v)) == v,
{
    assert((((v >> 56) & 0xff) as u8 as u64) << 56 | (((v >> 48) & 0xff) as u8 as u64) << 48 | (((v
        >> 40) & 0xff) as u8 as u64) << 40 | (((v >> 32) & 0xff) as u8 as u64) << 32 | (((v >> 24)
        & 0xff) as u8 as u64) << 24 | (((v >> 16) & 0xff) as u8 as u64) << 16 | (((v >> 8)
        & 0xff) as u8 as u64) << 8 | ((v & 0xff) as u8 as u64) == v) by (bit_vector);
}

/// The four big-endian bytes of a u32 read back as the same value.
pub proof fn lemma_u32_be_roundtrip(v: u32)
    ensures
        spec_u32_from_be(spec_u32_to_be(v)) == v,
{
    assert((((v >> 24) & 0xff) as u8 as u32) << 24 | (((v >> 16) & 0xff) as u8 as u32) << 16 | (((v
        >> 8) & 0xff) as u8 as u32) << 8 | ((v & 0xff) as u8 as u32) == v) by (bit_vector);
}

/// A uint256 word built from a u64 reads back as the same value.
pub proof fn lemma_encode_u256_roundtrip(v: u64)
    ensures
        spec_read_u64(spec_encode_u256(v), 0) == v,
{
    let e = spec_encode_u256(v);
    assert(e.len() == 32);
    assert(e.subrange(24, 32) =~= spec_u64_to_be(v));
    lemma_u64_be_roundtrip(v);
}

/// An encoded `bytes` value parses back to the content it encodes, for any
/// content whose length fits the encoding's u32 length word.
pub proof fn lemma_encode_bytes_roundtrip(data: Seq<u8>)
    requires
        data.len() < 0x1_0000_0000,
    ensures
        spec_read_bytes(spec_encode_bytes(data), 0) == data,
{
    let e = spec_encode_bytes(data);
    let padded = ((data.len() + 31) / 32) * 32;
    assert(padded >= data.len()) by (nonlinear_arith)
        requires
            padded == ((data.len() + 31) / 32) * 32,
    ;
    assert(e.len() == 64 + padded);
    assert(e.subrange(28, 32) =~= seq![0u8, 0u8, 0u8, 0x20u8]);
    assert(spec_u32_from_be(seq![0u8, 0u8, 0u8, 0x20u8]) == 32) by {
        assert(((0u8 as u32) << 24) | ((0u8 as u32) << 16) | ((0u8 as u32) << 8) | (
        0x20u8 as u32) == 32) by (bit_vector);
    }
    assert(e.subrange(60, 64) =~= spec_u32_to_be(data.len() as u32));
    lemma_u32_be_roundtrip(data.len() as u32);
    assert(e.subrange(64, 64 + data.len() as int) =~= data);
}

/// Registers a form under the next identifier, storing its content address
/// and its creator.  An empty or oversized content address is rejected with
/// zero and nothing stored.
pub fn register_form(store: &mut Store, caller: &Vec<u8>, cid: Vec<u8>) -> (r: u64)
    requires
        old(store).inv(),
        stored_u64(old(store)@, spec_key_form_counter()) < u64::MAX,
    ensures
        final(store).inv(),
        cid@.len() == 0 || cid@.len() > 128 ==> r == 0 && final(store)@ == old(store)@,
        1 <= cid@.len() <= 128 ==> {
            &&& r == stored_u64(old(store)@, spec_key_form_counter()) + 1
            &&& final(store)@ == old(store)@.insert(
                spec_key_form_counter(),
                spec_u64_to_le_bytes(r),
            ).insert(spec_key_form_cid(r), cid@).insert(spec_key_form_creator(r), caller@)
        },
{
    if cid.len() == 0 || cid.len() > 128 {
        return 0;
    }
    let counter_key = key_form_counter();
    let form_id = get_u64(store, &counter_key) + 1;
    set_u64(store, &counter_key, form_id);
    let ck = key_form_cid(form_id);
    set_bytes(store, &ck, cid);
    let crk = key_form_creator(form_id);
    set_bytes(store, &crk, crate::bytevec::copy_bytes(caller));
    form_id
}

/// Records a response to an existing form: hands out the next submission
/// index and stores the response's content address under it.  An empty or
/// oversized content address, or a form with no stored content address, is
/// refused with `u64::MAX`.
pub fn submit_response(store: &mut Store, form_id: u64, cid: Vec<u8>) -> (r: u64)
    requires
        old(store).inv(),
        stored_u64(old(store)@, spec_key_response_counter(form_id)) < u64::MAX,
    ensures
        final(store).inv(),
        ({
            let m = old(store)@;
            if cid@.len() == 0 || cid@.len() > 128 {
                r == u64::MAX && final(store)@ == m
            } else if stored_bytes(m, spec_key_form_cid(form_id)).len() == 0 {
                r == u64::MAX && final(store)@ == m
            } else {
                let idx = stored_u64(m, spec_key_response_counter(form_id));
                &&& r == idx
                &&& final(store)@ == m.insert(
                    spec_key_response_counter(form_id),
                    spec_u64_to_le_bytes((idx + 1) as u64),
                ).insert(spec_key_response_cid(form_id, idx), cid@)
            }
        }),
{
    if cid.len() == 0 || cid.len() > 128 {
        return u64::MAX;
    }
    let fck = key_form_cid(form_id);
    let form_cid = get_bytes(store, &fck);
    if form_cid.len() == 0 {
        return u64::MAX;
    }
    let rck = key_response_counter(form_id);
    let idx = get_u64(store, &rck);
    set_u64(store, &rck, idx + 1);
    let cidk = key_response_cid(form_id, idx);
    set_bytes(store, &cidk, cid);
    idx
}

pub fn get_form_cid(store: &Store, form_id: u64) -> (r: Vec<u8>)
    ensures
        r@ == stored_bytes(store@, spec_key_form_cid(form_id)),
{
    let k = key_form_cid(form_id);
    get_bytes(store, &k)
}

pub fn get_response_cid(store: &Store, form_id: u64, idx: u64) -> (r: Vec<u8>)
    ensures
        r@ == stored_bytes(store@, spec_key_response_cid(form_id, idx)),
{
    let k = key_response_cid(form_id, idx);
    get_bytes(store, &k)
}

pub fn form_count(store: &Store) -> (r: u64)
    ensures
        r == stored_u64(store@, spec_key_form_counter()),
{
    let k = key_form_counter();
    get_u64(store, &k)
}

pub fn response_count(store: &Store, form_id: u64) -> (r: u64)
    ensures
        r == stored_u64(store@, spec_key_response_counter(form_id)),
{
    let k = key_response_counter(form_id);
    get_u64(store, &k)
}

} // verus!
