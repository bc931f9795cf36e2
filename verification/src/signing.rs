//! What the owner of a token signs to approve an operator without sending the
//! request itself.
//!
//! The signed message names the token, the operator and the nonce of the
//! request, each at a fixed width and in little-endian byte order, so that no
//! two approvals share a message.

use vstd::prelude::*;
use vstd::bytes::{
    lemma_auto_spec_u64_to_from_le_bytes, spec_u64_from_le_bytes, spec_u64_to_le_bytes,
    u64_to_le_bytes,
};
use crate::types::{law_bytes_read_back, Address, TokenId};

verus! {

/// The length of a signed message: two identifiers of 32 bytes and a nonce of
/// 8.
pub const MESSAGE_LEN: usize = 72;

/// The bytes that are signed for approving `operator` for `token` in the
/// request with the nonce `nonce`: the token, then the operator, then the
/// nonce.
pub open spec fn message_bytes(token: TokenId, operator: Address, nonce: u64) -> Seq<u8> {
    token.bytes() + operator.bytes() + spec_u64_to_le_bytes(nonce)
}

/// A signed message can be read back: two approvals with the same message
/// name the same token, the same operator and the same nonce.
pub proof fn law_message_injective(
    token_a: TokenId,
    operator_a: Address,
    nonce_a: u64,
    token_b: TokenId,
    operator_b: Address,
    nonce_b: u64,
)
    requires
        message_bytes(token_a, operator_a, nonce_a) == message_bytes(token_b, operator_b, nonce_b),
    ensures
        token_a == token_b,
        operator_a == operator_b,
        nonce_a == nonce_b,
        message_bytes(token_a, operator_a, nonce_a).len() == MESSAGE_LEN,
{
    lemma_auto_spec_u64_to_from_le_bytes();
    law_bytes_read_back(token_a.hi, token_a.lo);
    law_bytes_read_back(token_b.hi, token_b.lo);
    law_bytes_read_back(operator_a.hi, operator_a.lo);
    law_bytes_read_back(operator_b.hi, operator_b.lo);
    let a = message_bytes(token_a, operator_a, nonce_a);
    let b = message_bytes(token_b, operator_b, nonce_b);
    assert(a.subrange(0, 32) =~= token_a.bytes());
    assert(b.subrange(0, 32) =~= token_b.bytes());
    assert(a.subrange(32, 64) =~= operator_a.bytes());
    assert(b.subrange(32, 64) =~= operator_b.bytes());
    assert(a.subrange(64, 72) =~= spec_u64_to_le_bytes(nonce_a));
    assert(b.subrange(64, 72) =~= spec_u64_to_le_bytes(nonce_b));
    assert(spec_u64_from_le_bytes(spec_u64_to_le_bytes(nonce_a)) == nonce_a);
    assert(spec_u64_from_le_bytes(spec_u64_to_le_bytes(nonce_b)) == nonce_b);
}

/// The message that is signed for approving `operator` for `token` in the
/// request with the nonce `nonce`.
pub fn signed_message(token: TokenId, operator: Address, nonce: u64) -> (out: Vec<u8>)
    ensures
        out@ == message_bytes(token, operator, nonce),
        out@.len() == MESSAGE_LEN,
{
    let mut out = token.to_bytes();
    let mut part = operator.to_bytes();
    out.append(&mut part);
    let mut part = u64_to_le_bytes(nonce);
    out.append(&mut part);
    out
}

} // verus!
