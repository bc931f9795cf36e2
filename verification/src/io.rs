//! The contract laid out flat, for whoever reads it from outside.
//!
//! A snapshot lists what the contract holds as plain vectors of pairs: the
//! tokens in the order in which they were minted, the accounts in the order
//! in which they first owned a token, the journal in the order of filing. It
//! is taken in one piece and does not change when the contract does.

use vstd::prelude::*;
use crate::contract::ContractState;
use crate::escrow::User;
use crate::events::{ContractEvent, JournalKey};
use crate::queries::{first_under, lemma_first_under_absent, lemma_first_under_distinct};
use crate::types::{Address, TokenId, TokenMetadata};

verus! {

/// The escrow and the registry, laid out flat.
#[derive(PartialEq, Eq, Debug)]
pub struct IoContractState {
    pub name: String,
    pub seller: User,
    pub client: User,
    pub closed: bool,
    pub owner_by_id: Vec<(TokenId, Address)>,
    pub token_approvals: Vec<(TokenId, Vec<Address>)>,
    pub token_metadata_by_id: Vec<(TokenId, Option<TokenMetadata>)>,
    pub tokens_for_owner: Vec<(Address, Vec<TokenId>)>,
}

/// The whole contract, laid out flat: the escrow and the registry, and the
/// journal.
#[derive(PartialEq, Eq, Debug)]
pub struct IoContract {
    pub handshake: IoContractState,
    pub transactions: Vec<(JournalKey, ContractEvent)>,
}

impl IoContractState {
    /// Whether this is the picture of `state`: the same name and escrow; line
    /// `i` of each token list speaks of the token minted as number `i` and
    /// says of it what the registry says; line `i` of the list of owners
    /// speaks of the account that was number `i` to own a token and lists its
    /// tokens.
    pub open spec fn pictures(&self, state: &ContractState) -> bool {
        let registry = state@.registry;
        let tokens = state.minted_order();
        let holders = state.holder_order();
        &&& self.name@ == state@.name
        &&& self.seller == state@.escrow.seller
        &&& self.client == state@.escrow.client
        &&& self.closed == state@.escrow.closed
        &&& self.owner_by_id@.len() == tokens.len()
        &&& self.token_approvals@.len() == tokens.len()
        &&& self.token_metadata_by_id@.len() == tokens.len()
        &&& self.tokens_for_owner@.len() == holders.len()
        &&& forall|i: int|
            0 <= i < tokens.len() ==> (#[trigger] self.owner_by_id@[i]) == (
                tokens[i],
                registry.owners[tokens[i]],
            )
        &&& forall|i: int|
            0 <= i < tokens.len() ==> (#[trigger] self.token_approvals@[i]).0 == tokens[i]
                && self.token_approvals@[i].1@ == registry.approvals[tokens[i]]
        &&& forall|i: int|
            0 <= i < tokens.len() ==> (#[trigger] self.token_metadata_by_id@[i]) == (
                tokens[i],
                registry.metadata[tokens[i]],
            )
        &&& forall|i: int|
            0 <= i < holders.len() ==> (#[trigger] self.tokens_for_owner@[i]).0 == holders[i]
                && self.tokens_for_owner@[i].1@ == registry.holdings[holders[i]]
    }

    /// The picture of `value` as it stands.
    pub fn from(value: &ContractState) -> (out: IoContractState)
        requires
            value.wf(),
        ensures
            out.pictures(value),
    {
        let registry = value.registry();
        let escrow = value.escrow();
        let mut owner_by_id: Vec<(TokenId, Address)> = Vec::new();
        let mut token_approvals: Vec<(TokenId, Vec<Address>)> = Vec::new();
        let mut token_metadata_by_id: Vec<(TokenId, Option<TokenMetadata>)> = Vec::new();
        let mut tokens_for_owner: Vec<(Address, Vec<TokenId>)> = Vec::new();
        proof {
            registry.lemma_orders();
        }
        let n = registry.token_count();
        let mut i: usize = 0;
        while i < n
            invariant
                registry.wf(),
                registry@ == value@.registry,
                registry.minted_order() == value.minted_order(),
                n == registry.minted_order().len(),
                0 <= i <= n,
                owner_by_id@.len() == i,
                token_approvals@.len() == i,
                token_metadata_by_id@.len() == i,
                forall|j: int|
                    0 <= j < registry.minted_order().len() ==> registry@.owners.contains_key(
                        #[trigger] registry.minted_order()[j],
                    ),
                forall|j: int|
                    0 <= j < i ==> (#[trigger] owner_by_id@[j]) == (
                        registry.minted_order()[j],
                        registry@.owners[registry.minted_order()[j]],
                    ),
                forall|j: int|
                    0 <= j < i ==> (#[trigger] token_approvals@[j]).0 == registry.minted_order()[j]
                        && token_approvals@[j].1@
                        == registry@.approvals[registry.minted_order()[j]],
                forall|j: int|
                    0 <= j < i ==> (#[trigger] token_metadata_by_id@[j]) == (
                        registry.minted_order()[j],
                        registry@.metadata[registry.minted_order()[j]],
                    ),
            decreases n - i,
        {
            let token = registry.token_at(i);
            assert(registry@.owners.contains_key(registry.minted_order()[i as int]));
            let owner = match registry.owner_of(token) {
                Ok(owner) => owner,
                Err(_) => Address::zero_address(),
            };
            let metadata = match registry.metadata_of(token) {
                Some(m) => Some(m.duplicate()),
                None => None,
            };
            owner_by_id.push((token, owner));
            token_approvals.push((token, registry.approved_operators(token)));
            token_metadata_by_id.push((token, metadata));
            i = i + 1;
        }
        let m = registry.holder_count();
        let mut k: usize = 0;
        while k < m
            invariant
                registry.wf(),
                registry@ == value@.registry,
                registry.holder_order() == value.holder_order(),
                m == registry.holder_order().len(),
                0 <= k <= m,
                tokens_for_owner@.len() == k,
                forall|j: int|
                    0 <= j < registry.holder_order().len() ==> registry@.holdings.contains_key(
                        #[trigger] registry.holder_order()[j],
                    ),
                forall|j: int|
                    0 <= j < k ==> (#[trigger] tokens_for_owner@[j]).0 == registry.holder_order()[j]
                        && tokens_for_owner@[j].1@
                        == registry@.holdings[registry.holder_order()[j]],
            decreases m - k,
        {
            let holder = registry.holder_at(k);
            assert(registry@.holdings.contains_key(registry.holder_order()[k as int]));
            tokens_for_owner.push((holder, registry.tokens_of(holder)));
            k = k + 1;
        }
        IoContractState {
            name: value.name().clone(),
            seller: escrow.seller(),
            client: escrow.client(),
            closed: escrow.is_closed(),
            owner_by_id,
            token_approvals,
            token_metadata_by_id,
            tokens_for_owner,
        }
    }
}

/// A picture says of each token and of each account what the contract said
/// when the picture was taken, no more and no less: looking a token up in the
/// picture finds its owner, its operators and what was told of it exactly
/// where the token is registered, and looking an account up finds its tokens.
pub proof fn law_picture_faithful(
    picture: &IoContractState,
    state: &ContractState,
    token: TokenId,
    account: Address,
)
    requires
        state.wf(),
        picture.pictures(state),
    ensures
        first_under(picture.owner_by_id@, token) == (if state@.registry.owners.contains_key(
            token,
        ) {
            Some(state@.registry.owners[token])
        } else {
            None
        }),
        match first_under(picture.token_approvals@, token) {
            Some(list) => state@.registry.owners.contains_key(token) && list@
                == state@.registry.approvals[token],
            None => !state@.registry.owners.contains_key(token),
        },
        first_under(picture.token_metadata_by_id@, token) == (
        if state@.registry.owners.contains_key(token) {
            Some(state@.registry.metadata[token])
        } else {
            None
        }),
        match first_under(picture.tokens_for_owner@, account) {
            Some(list) => list@ == state@.registry.held_by(account),
            None => state@.registry.held_by(account) == Seq::<TokenId>::empty(),
        },
{
    state.lemma_orders();
    let tokens = state.minted_order();
    let holders = state.holder_order();
    let owners = picture.owner_by_id@;
    let approvals = picture.token_approvals@;
    let metadata = picture.token_metadata_by_id@;
    let holdings = picture.tokens_for_owner@;
    if tokens.contains(token) {
        let i = choose|i: int| 0 <= i < tokens.len() && tokens[i] == token;
        assert forall|a: int, b: int|
            0 <= a < owners.len() && 0 <= b < owners.len() && a != b implies (#[trigger] owners[a]).0
            != (#[trigger] owners[b]).0 by {
            assert(tokens[a] != tokens[b]);
        }
        assert forall|a: int, b: int|
            0 <= a < approvals.len() && 0 <= b < approvals.len() && a != b implies (
        #[trigger] approvals[a]).0 != (#[trigger] approvals[b]).0 by {
            assert(tokens[a] != tokens[b]);
        }
        assert forall|a: int, b: int|
            0 <= a < metadata.len() && 0 <= b < metadata.len() && a != b implies (
        #[trigger] metadata[a]).0 != (#[trigger] metadata[b]).0 by {
            assert(tokens[a] != tokens[b]);
        }
        assert(owners[i].0 == token);
        assert(approvals[i].0 == token);
        assert(metadata[i].0 == token);
        lemma_first_under_distinct(owners, i);
        lemma_first_under_distinct(approvals, i);
        lemma_first_under_distinct(metadata, i);
    } else {
        assert forall|j: int| 0 <= j < owners.len() implies (#[trigger] owners[j]).0 != token by {
            assert(tokens.contains(tokens[j]));
        }
        assert forall|j: int| 0 <= j < approvals.len() implies (#[trigger] approvals[j]).0
            != token by {
            assert(tokens.contains(tokens[j]));
        }
        assert forall|j: int| 0 <= j < metadata.len() implies (#[trigger] metadata[j]).0
            != token by {
            assert(tokens.contains(tokens[j]));
        }
        lemma_first_under_absent(owners, token);
        lemma_first_under_absent(approvals, token);
        lemma_first_under_absent(metadata, token);
    }
    if holders.contains(account) {
        let i = choose|i: int| 0 <= i < holders.len() && holders[i] == account;
        assert forall|a: int, b: int|
            0 <= a < holdings.len() && 0 <= b < holdings.len() && a != b implies (
        #[trigger] holdings[a]).0 != (#[trigger] holdings[b]).0 by {
            assert(holders[a] != holders[b]);
        }
        assert(holdings[i].0 == account);
        lemma_first_under_distinct(holdings, i);
    } else {
        assert forall|j: int| 0 <= j < holdings.len() implies (#[trigger] holdings[j]).0
            != account by {
            assert(holders.contains(holders[j]));
        }
        lemma_first_under_absent(holdings, account);
    }
}

impl IoContract {
    /// Whether this is the picture of `state`: the picture of its escrow and
    /// registry, and line `i` of the transactions is the answer that was
    /// filed as number `i`, under its key.
    pub open spec fn pictures(&self, state: &ContractState) -> bool {
        &&& self.handshake.pictures(state)
        &&& self.transactions@.len() == state.filed_order().len()
        &&& forall|i: int|
            0 <= i < self.transactions@.len() ==> (#[trigger] self.transactions@[i]).0
                == state.filed_order()[i] && self.transactions@[i].1@
                == state@.journal[state.filed_order()[i]]
    }

    /// The picture of `value` as it stands.
    pub fn from(value: &ContractState) -> (out: IoContract)
        requires
            value.wf(),
        ensures
            out.pictures(value),
    {
        IoContract {
            handshake: IoContractState::from(value),
            transactions: value.journal().entries(),
        }
    }
}

} // verus!
