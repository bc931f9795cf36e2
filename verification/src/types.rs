//! Identifiers shared by every component.

use vstd::prelude::*;
use vstd::bytes::{
    lemma_auto_spec_u128_to_from_le_bytes, spec_u128_from_le_bytes, spec_u128_to_le_bytes,
    u128_from_le_bytes, u128_to_le_bytes,
};
use vstd::slice::slice_subrange;

verus! {

/// The 32 bytes of a 256-bit identifier, least significant byte first.
pub open spec fn bytes_of(hi: u128, lo: u128) -> Seq<u8> {
    spec_u128_to_le_bytes(lo) + spec_u128_to_le_bytes(hi)
}

/// The two halves that 32 bytes stand for, upper half first.
pub open spec fn halves_of(bytes: Seq<u8>) -> (u128, u128) {
    (spec_u128_from_le_bytes(bytes.subrange(16, 32)), spec_u128_from_le_bytes(bytes.subrange(0, 16)))
}

/// An identifier is read back from its bytes.
pub proof fn law_bytes_read_back(hi: u128, lo: u128)
    ensures
        bytes_of(hi, lo).len() == 32,
        halves_of(bytes_of(hi, lo)) == (hi, lo),
{
    lemma_auto_spec_u128_to_from_le_bytes();
    let whole = bytes_of(hi, lo);
    assert(whole.subrange(0, 16) =~= spec_u128_to_le_bytes(lo));
    assert(whole.subrange(16, 32) =~= spec_u128_to_le_bytes(hi));
}

/// Any 32 bytes are the bytes of the identifier read from them.
pub proof fn law_bytes_written_back(bytes: Seq<u8>)
    requires
        bytes.len() == 32,
    ensures
        bytes_of(halves_of(bytes).0, halves_of(bytes).1) == bytes,
{
    lemma_auto_spec_u128_to_from_le_bytes();
    assert(bytes.subrange(0, 16) + bytes.subrange(16, 32) =~= bytes);
}

/// The 32 bytes of the identifier with the halves `hi` and `lo`.
fn join_halves(hi: u128, lo: u128) -> (out: Vec<u8>)
    ensures
        out@ == bytes_of(hi, lo),
        out@.len() == 32,
{
    let mut out = u128_to_le_bytes(lo);
    let mut upper = u128_to_le_bytes(hi);
    out.append(&mut upper);
    out
}

/// The halves of the identifier that `bytes` hold, or `None` where they are
/// not 32 bytes.
fn split_halves(bytes: &[u8]) -> (out: Option<(u128, u128)>)
    ensures
        match out {
            Some(halves) => bytes@.len() == 32 && halves == halves_of(bytes@) && bytes_of(
                halves.0,
                halves.1,
            ) == bytes@,
            None => bytes@.len() != 32,
        },
{
    if bytes.len() != 32 {
        return None;
    }
    let lo = u128_from_le_bytes(slice_subrange(bytes, 0, 16));
    let hi = u128_from_le_bytes(slice_subrange(bytes, 16, 32));
    proof {
        law_bytes_written_back(bytes@);
    }
    Some((hi, lo))
}

/// What the hash index is keyed by: the two halves of a 256-bit identifier,
/// upper half first.
pub type Key = (u128, u128);

/// A 256-bit account address, held as two 128-bit halves.
#[derive(Clone, Copy, PartialEq, Eq, Structural, Debug)]
pub struct Address {
    pub hi: u128,
    pub lo: u128,
}

/// A 256-bit token identifier, held as two 128-bit halves.
#[derive(Clone, Copy, PartialEq, Eq, Structural, Debug)]
pub struct TokenId {
    pub hi: u128,
    pub lo: u128,
}

/// Why a request was turned down. Each request fails with exactly one of
/// these, and leaves every table as it was.
#[derive(Clone, Copy, PartialEq, Eq, Structural, Debug)]
pub enum Error {
    /// The caller does not hold the role that the request needs.
    Unauthorized,
    /// A token with this identifier is already registered.
    AlreadyExists,
    /// No token with this identifier is registered.
    UnknownToken,
    /// The account named as the source does not own the token.
    NotOwner,
    /// The destination is the zero address.
    InvalidDestination,
    /// The party has cast its vote already.
    AlreadyVoted,
    /// Both parties have not confirmed yet.
    EscrowNotClosed,
    /// The signature on a delegated approval does not verify.
    BadSignature,
    /// The royalty table hands out more than the whole sale amount.
    InvalidTable,
    /// The journal holds nothing under this key.
    NotFound,
    /// The request could not be decoded; raised at the boundary, before any
    /// component runs.
    MalformedRequest,
}

/// What is told of a token when it is minted.
#[derive(PartialEq, Eq, Debug)]
pub struct TokenMetadata {
    pub name: String,
    pub description: String,
    pub media: String,
    pub reference: String,
}

impl TokenMetadata {
    /// A copy, field by field.
    pub fn duplicate(&self) -> (out: TokenMetadata)
        ensures
            out == *self,
    {
        TokenMetadata {
            name: self.name.clone(),
            description: self.description.clone(),
            media: self.media.clone(),
            reference: self.reference.clone(),
        }
    }
}

impl Address {
    /// The address that stands for "nobody": the source of a mint, and never a
    /// valid destination.
    pub open spec fn zero() -> Address {
        Address { hi: 0, lo: 0 }
    }

    pub open spec fn key(self) -> Key {
        (self.hi, self.lo)
    }

    pub fn new(hi: u128, lo: u128) -> (out: Address)
        ensures
            out == (Address { hi, lo }),
    {
        Address { hi, lo }
    }

    pub fn zero_address() -> (out: Address)
        ensures
            out == Address::zero(),
    {
        Address { hi: 0, lo: 0 }
    }

    pub fn is_zero(&self) -> (out: bool)
        ensures
            out == (*self == Address::zero()),
    {
        self.hi == 0 && self.lo == 0
    }

    pub fn to_key(&self) -> (out: Key)
        ensures
            out == self.key(),
    {
        (self.hi, self.lo)
    }

    /// The 32 bytes of the address, least significant byte first.
    pub open spec fn bytes(self) -> Seq<u8> {
        bytes_of(self.hi, self.lo)
    }

    pub fn to_bytes(&self) -> (out: Vec<u8>)
        ensures
            out@ == self.bytes(),
            out@.len() == 32,
    {
        join_halves(self.hi, self.lo)
    }

    /// The address that `bytes` hold, or `None` where they are not 32 bytes.
    pub fn from_bytes(bytes: &[u8]) -> (out: Option<Address>)
        ensures
            match out {
                Some(address) => bytes@.len() == 32 && address.bytes() == bytes@ && address.key()
                    == halves_of(bytes@),
                None => bytes@.len() != 32,
            },
    {
        match split_halves(bytes) {
            Some(halves) => Some(Address { hi: halves.0, lo: halves.1 }),
            None => None,
        }
    }

    pub fn from_key(key: Key) -> (out: Address)
        ensures
            out.key() == key,
            out == (Address { hi: key.0, lo: key.1 }),
    {
        Address { hi: key.0, lo: key.1 }
    }
}

impl TokenId {
    pub open spec fn key(self) -> Key {
        (self.hi, self.lo)
    }

    pub fn new(hi: u128, lo: u128) -> (out: TokenId)
        ensures
            out == (TokenId { hi, lo }),
    {
        TokenId { hi, lo }
    }

    pub fn to_key(&self) -> (out: Key)
        ensures
            out == self.key(),
    {
        (self.hi, self.lo)
    }

    /// The 32 bytes of the identifier, least significant byte first.
    pub open spec fn bytes(self) -> Seq<u8> {
        bytes_of(self.hi, self.lo)
    }

    pub fn to_bytes(&self) -> (out: Vec<u8>)
        ensures
            out@ == self.bytes(),
            out@.len() == 32,
    {
        join_halves(self.hi, self.lo)
    }

    /// The identifier that `bytes` hold, or `None` where they are not 32
    /// bytes.
    pub fn from_bytes(bytes: &[u8]) -> (out: Option<TokenId>)
        ensures
            match out {
                Some(token) => bytes@.len() == 32 && token.bytes() == bytes@ && token.key()
                    == halves_of(bytes@),
                None => bytes@.len() != 32,
            },
    {
        match split_halves(bytes) {
            Some(halves) => Some(TokenId { hi: halves.0, lo: halves.1 }),
            None => None,
        }
    }

    pub fn from_key(key: Key) -> (out: TokenId)
        ensures
            out.key() == key,
            out == (TokenId { hi: key.0, lo: key.1 }),
    {
        TokenId { hi: key.0, lo: key.1 }
    }
}

} // verus!
