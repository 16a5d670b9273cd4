//! The ABI byte-parameter codec under the names its storage exercise uses:
//! the same parse and encode as the forms dispatch boundary.

use vstd::prelude::*;

use crate::forms_v2::spec_encode_bytes;
use crate::forms_v2::spec_read_bytes;

verus! {

/// Content of the ABI-encoded `bytes` parameter at word index `word_idx`.
pub fn parse_abi_bytes(data: &Vec<u8>, word_idx: usize) -> (r: Vec<u8>)
    requires
        word_idx * 32 + 32 <= usize::MAX,
    ensures
        r@ == spec_read_bytes(data@, word_idx as int),
{
    crate::forms_v2::read_bytes(data, word_idx)
}

/// ABI encoding of a dynamic `bytes` return value.
pub fn encode_abi_bytes(data: &Vec<u8>) -> (r: Vec<u8>)
    requires
        data@.len() + 95 <= usize::MAX,
    ensures
        r@ == spec_encode_bytes(data@),
{
    crate::forms_v2::encode_bytes(data)
}

} // verus!
