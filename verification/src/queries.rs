//! Questions about a contract, answered from its picture or from the contract
//! itself. Nothing here changes anything.

use vstd::prelude::*;
use crate::contract::ContractState;
use crate::escrow::User;
use crate::io::IoContractState;
use crate::registry::copy_addresses;
use crate::types::{Address, TokenId, TokenMetadata};

verus! {

/// All that is known of one token.
#[derive(PartialEq, Eq, Debug)]
pub struct Token {
    pub id: TokenId,
    pub owner_id: Address,
    pub name: String,
    pub description: String,
    pub media: String,
    pub reference: String,
    pub approved_account_ids: Vec<Address>,
}

/// The answer to a question about the escrow.
#[derive(PartialEq, Eq, Debug)]
pub enum ContractQueryReply {
    ContractInfo { seller: User, client: User, closed: bool },
}

/// A question about the contract as a whole.
#[derive(Clone, Copy, PartialEq, Eq, Structural, Debug)]
pub enum State {
    Name,
    TotalSupply,
    BalanceOf(Address),
}

/// The answer to a question about the contract as a whole.
#[derive(PartialEq, Eq, Debug)]
pub enum StateReply {
    Name(String),
    TotalSupply(u128),
    Balance(u128),
}

/// What the first line of `pairs` that is filed under `key` holds, or `None`
/// where no line is filed under it.
pub open spec fn first_under<K, V>(pairs: Seq<(K, V)>, key: K) -> Option<V>
    decreases pairs.len(),
{
    if pairs.len() == 0 {
        None
    } else if pairs[0].0 == key {
        Some(pairs[0].1)
    } else {
        first_under(pairs.drop_first(), key)
    }
}

/// A line later in the list is found as long as no line before it is filed
/// under the key.
proof fn lemma_first_under_skip<K, V>(pairs: Seq<(K, V)>, key: K, n: int)
    requires
        0 <= n <= pairs.len(),
        forall|j: int| 0 <= j < n ==> (#[trigger] pairs[j]).0 != key,
    ensures
        first_under(pairs, key) == first_under(pairs.skip(n), key),
    decreases n,
{
    if n == 0 {
        assert(pairs.skip(0) =~= pairs);
    } else {
        lemma_first_under_skip(pairs, key, n - 1);
        let rest = pairs.skip(n - 1);
        assert(rest[0] == pairs[n - 1]);
        assert(rest.drop_first() =~= pairs.skip(n));
    }
}

/// In a list that files each key once, every line is the first under its key.
pub proof fn lemma_first_under_distinct<K, V>(pairs: Seq<(K, V)>, i: int)
    requires
        0 <= i < pairs.len(),
        forall|a: int, b: int|
            0 <= a < pairs.len() && 0 <= b < pairs.len() && a != b ==> (#[trigger] pairs[a]).0 != (
            #[trigger] pairs[b]).0,
    ensures
        first_under(pairs, pairs[i].0) == Some(pairs[i].1),
{
    lemma_first_under_skip(pairs, pairs[i].0, i);
    assert(pairs.skip(i)[0] == pairs[i]);
}

/// Where no line is filed under the key, nothing is found.
pub proof fn lemma_first_under_absent<K, V>(pairs: Seq<(K, V)>, key: K)
    requires
        forall|j: int| 0 <= j < pairs.len() ==> (#[trigger] pairs[j]).0 != key,
    ensures
        first_under(pairs, key) is None,
{
    lemma_first_under_skip(pairs, key, pairs.len() as int);
}

/// The place of the first line filed under the token `key`.
fn find_token<V>(pairs: &Vec<(TokenId, V)>, key: TokenId) -> (out: Option<usize>)
    ensures
        match out {
            Some(i) => i < pairs@.len() && pairs@[i as int].0 == key && first_under(pairs@, key)
                == Some(pairs@[i as int].1),
            None => first_under(pairs@, key) is None,
        },
{
    let n = pairs.len();
    let mut i: usize = 0;
    while i < n
        invariant
            n == pairs@.len(),
            0 <= i <= n,
            forall|j: int| 0 <= j < i ==> (#[trigger] pairs@[j]).0 != key,
        decreases n - i,
    {
        if pairs[i].0 == key {
            proof {
                lemma_first_under_skip(pairs@, key, i as int);
                assert(pairs@.skip(i as int)[0] == pairs@[i as int]);
            }
            return Some(i);
        }
        i = i + 1;
    }
    proof {
        lemma_first_under_absent(pairs@, key);
    }
    None
}

/// The place of the first line filed under the account `key`.
fn find_account<V>(pairs: &Vec<(Address, V)>, key: Address) -> (out: Option<usize>)
    ensures
        match out {
            Some(i) => i < pairs@.len() && pairs@[i as int].0 == key && first_under(pairs@, key)
                == Some(pairs@[i as int].1),
            None => first_under(pairs@, key) is None,
        },
{
    let n = pairs.len();
    let mut i: usize = 0;
    while i < n
        invariant
            n == pairs@.len(),
            0 <= i <= n,
            forall|j: int| 0 <= j < i ==> (#[trigger] pairs@[j]).0 != key,
        decreases n - i,
    {
        if pairs[i].0 == key {
            proof {
                lemma_first_under_skip(pairs@, key, i as int);
                assert(pairs@.skip(i as int)[0] == pairs@[i as int]);
            }
            return Some(i);
        }
        i = i + 1;
    }
    proof {
        lemma_first_under_absent(pairs@, key);
    }
    None
}

impl Token {
    /// Whether this is what `state` says of the token `id`: its identifier
    /// and owner where it is listed, zeros where it is not; the operators
    /// approved for it, none where none are listed; what was told of it at
    /// minting, empty texts where nothing was.
    pub open spec fn describes(&self, state: &IoContractState, id: TokenId) -> bool {
        &&& match first_under(state.owner_by_id@, id) {
            Some(owner) => self.id == id && self.owner_id == owner,
            None => self.id == (TokenId { hi: 0, lo: 0 }) && self.owner_id == Address::zero(),
        }
        &&& self.approved_account_ids@ == (match first_under(state.token_approvals@, id) {
            Some(list) => list@,
            None => Seq::empty(),
        })
        &&& match first_under(state.token_metadata_by_id@, id) {
            Some(Some(told)) => {
                &&& self.name == told.name
                &&& self.description == told.description
                &&& self.media == told.media
                &&& self.reference == told.reference
            },
            _ => {
                &&& self.name@ == Seq::<char>::empty()
                &&& self.description@ == Seq::<char>::empty()
                &&& self.media@ == Seq::<char>::empty()
                &&& self.reference@ == Seq::<char>::empty()
            },
        }
    }
}

/// What `state` says of the token `token_id`, put together from its three
/// token lists.
pub fn token_helper(token_id: &TokenId, state: &IoContractState) -> (out: Token)
    ensures
        out.describes(state, *token_id),
{
    let mut id = TokenId::new(0, 0);
    let mut owner_id = Address::zero_address();
    match find_token(&state.owner_by_id, *token_id) {
        Some(i) => {
            id = *token_id;
            owner_id = state.owner_by_id[i].1;
        },
        None => {},
    }
    let approved_account_ids = match find_token(&state.token_approvals, *token_id) {
        Some(i) => copy_addresses(&state.token_approvals[i].1),
        None => Vec::new(),
    };
    let told: Option<&TokenMetadata> = match find_token(&state.token_metadata_by_id, *token_id) {
        Some(i) => state.token_metadata_by_id[i].1.as_ref(),
        None => None,
    };
    match told {
        Some(told) => Token {
            id,
            owner_id,
            name: told.name.clone(),
            description: told.description.clone(),
            media: told.media.clone(),
            reference: told.reference.clone(),
            approved_account_ids,
        },
        None => Token {
            id,
            owner_id,
            name: String::new(),
            description: String::new(),
            media: String::new(),
            reference: String::new(),
            approved_account_ids,
        },
    }
}

/// The parties of the escrow and whether it is closed.
pub fn info(state: IoContractState) -> (out: ContractQueryReply)
    ensures
        out == (ContractQueryReply::ContractInfo {
            seller: state.seller,
            client: state.client,
            closed: state.closed,
        }),
{
    ContractQueryReply::ContractInfo {
        seller: state.seller,
        client: state.client,
        closed: state.closed,
    }
}

/// What `state` says of the token `token_id`.
pub fn token(state: IoContractState, token_id: TokenId) -> (out: Token)
    ensures
        out.describes(&state, token_id),
{
    token_helper(&token_id, &state)
}

/// The number of tokens that `state` lists under `owner`.
pub fn supply_for_owner(state: IoContractState, owner: Address) -> (out: u128)
    ensures
        out == (match first_under(state.tokens_for_owner@, owner) {
            Some(tokens) => tokens@.len(),
            None => 0,
        }),
{
    match find_account(&state.tokens_for_owner, owner) {
        Some(i) => state.tokens_for_owner[i].1.len() as u128,
        None => 0,
    }
}

/// What `state` says of each token that it lists an owner for, in the order
/// of that list.
pub fn all_tokens(state: IoContractState) -> (out: Vec<Token>)
    ensures
        out@.len() == state.owner_by_id@.len(),
        forall|i: int|
            0 <= i < out@.len() ==> (#[trigger] out@[i]).describes(&state, state.owner_by_id@[i].0),
{
    let n = state.owner_by_id.len();
    let mut out: Vec<Token> = Vec::new();
    let mut i: usize = 0;
    while i < n
        invariant
            n == state.owner_by_id@.len(),
            0 <= i <= n,
            out@.len() == i,
            forall|j: int|
                0 <= j < i ==> (#[trigger] out@[j]).describes(&state, state.owner_by_id@[j].0),
        decreases n - i,
    {
        let id = state.owner_by_id[i].0;
        out.push(token_helper(&id, &state));
        i = i + 1;
    }
    out
}

/// What `state` says of the token `id`, or `None` where it lists no owner for
/// it.
pub fn token_by_id(state: IoContractState, id: TokenId) -> (out: Option<Token>)
    ensures
        match out {
            Some(found) => first_under(state.owner_by_id@, id) is Some && found.describes(
                &state,
                id,
            ),
            None => first_under(state.owner_by_id@, id) is None,
        },
{
    match find_token(&state.owner_by_id, id) {
        Some(_) => Some(token_helper(&id, &state)),
        None => None,
    }
}

/// What `meta_state` answers to `query` of a contract: its name; the number
/// of tokens it has registered; the number of tokens of an account.
pub open spec fn reply_matches(reply: StateReply, state: &ContractState, query: State) -> bool {
    match query {
        State::Name => reply matches StateReply::Name(name) && name@ == state@.name,
        State::TotalSupply => reply == StateReply::TotalSupply(
            state@.registry.owners.dom().len() as u128,
        ),
        State::BalanceOf(account) => reply == StateReply::Balance(
            state@.registry.held_by(account).len() as u128,
        ),
    }
}

/// Answers `query` of the contract as it stands.
pub fn meta_state(state: &ContractState, query: State) -> (out: StateReply)
    requires
        state.wf(),
    ensures
        reply_matches(out, state, query),
{
    match query {
        State::Name => StateReply::Name(state.name().clone()),
        State::TotalSupply => {
            proof {
                state.lemma_supply();
            }
            StateReply::TotalSupply(state.registry().token_count() as u128)
        },
        State::BalanceOf(account) => StateReply::Balance(
            state.registry().balance_of(account) as u128,
        ),
    }
}

} // verus!
