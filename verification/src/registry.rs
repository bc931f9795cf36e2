//! The asset registry: who owns which token, who may move it, and what is
//! known of it.
//!
//! The registry keeps the owner of each token and, the other way round, the
//! tokens of each owner. The two are changed together, so that at every
//! moment a token has one owner and is listed under that owner and no other.

use vstd::prelude::*;
use crate::events::{ContractEvent, EventModel, NFTApproval, NFTTransfer, NFTTransferPayout};
use crate::payout::{split, split_of, table_valid, RoyaltyTable};
use crate::table::Table;
use crate::contract::DelegatedApproval;
use crate::types::{Address, Error, Key, TokenId, TokenMetadata};

verus! {

/// `list` without `token`, the rest in the order it had.
pub open spec fn without(list: Seq<TokenId>, token: TokenId) -> Seq<TokenId>
    decreases list.len(),
{
    if list.len() == 0 {
        list
    } else if list.last() == token {
        without(list.drop_last(), token)
    } else {
        without(list.drop_last(), token).push(list.last())
    }
}

/// The registry as the contracts speak of it.
#[verifier::ext_equal]
pub struct RegistryModel {
    /// The owner of each registered token.
    pub owners: Map<TokenId, Address>,
    /// The operators approved for each registered token.
    pub approvals: Map<TokenId, Seq<Address>>,
    /// What was told of each registered token when it was minted.
    pub metadata: Map<TokenId, Option<TokenMetadata>>,
    /// The tokens of each account that has ever owned one, oldest first.
    pub holdings: Map<Address, Seq<TokenId>>,
}

impl RegistryModel {
    pub open spec fn empty() -> RegistryModel {
        RegistryModel {
            owners: Map::empty(),
            approvals: Map::empty(),
            metadata: Map::empty(),
            holdings: Map::empty(),
        }
    }

    /// The tokens listed under `account`; none where it never owned one.
    pub open spec fn held_by(self, account: Address) -> Seq<TokenId> {
        if self.holdings.contains_key(account) {
            self.holdings[account]
        } else {
            Seq::empty()
        }
    }

    /// The two directions agree: a registered token is listed under its owner,
    /// a token listed under an account is registered and owned by it, and no
    /// list names a token twice. Approvals and metadata are kept for the
    /// registered tokens and no others.
    pub open spec fn consistent(self) -> bool {
        &&& self.approvals.dom() =~= self.owners.dom()
        &&& self.metadata.dom() =~= self.owners.dom()
        &&& forall|t: TokenId| #[trigger]
            self.owners.contains_key(t) ==> self.held_by(self.owners[t]).contains(t)
        &&& forall|a: Address, t: TokenId| #[trigger]
            self.held_by(a).contains(t) ==> self.owners.contains_key(t) && self.owners[t] == a
        &&& forall|a: Address| #[trigger] self.held_by(a).no_duplicates()
    }

    /// Whether `candidate` may move `token`: it owns it, or is approved for
    /// it. Nobody may move a token that is not registered.
    pub open spec fn is_approved(self, token: TokenId, candidate: Address) -> bool {
        self.owners.contains_key(token) && (self.owners[token] == candidate
            || self.approvals[token].contains(candidate))
    }

    /// The registry after `token` has been minted to `to`.
    pub open spec fn minted(
        self,
        token: TokenId,
        metadata: Option<TokenMetadata>,
        to: Address,
    ) -> RegistryModel {
        RegistryModel {
            owners: self.owners.insert(token, to),
            approvals: self.approvals.insert(token, Seq::empty()),
            metadata: self.metadata.insert(token, metadata),
            holdings: self.holdings.insert(to, self.held_by(to).push(token)),
        }
    }

    /// The registry after `token` has passed from its owner to `to`: the new
    /// owner is recorded, the token leaves the list of the old owner and joins
    /// the end of the list of the new one, and its approvals are gone.
    pub open spec fn transferred(self, token: TokenId, to: Address) -> RegistryModel {
        let from = self.owners[token];
        let released = RegistryModel {
            owners: self.owners,
            approvals: self.approvals,
            metadata: self.metadata,
            holdings: self.holdings.insert(from, without(self.held_by(from), token)),
        };
        RegistryModel {
            owners: self.owners.insert(token, to),
            approvals: self.approvals.insert(token, Seq::empty()),
            metadata: self.metadata,
            holdings: released.holdings.insert(to, released.held_by(to).push(token)),
        }
    }

    /// The registry after `operator` has been approved for `token`, in place
    /// of whoever was approved before.
    pub open spec fn approved(self, token: TokenId, operator: Address) -> RegistryModel {
        RegistryModel {
            owners: self.owners,
            approvals: self.approvals.insert(token, seq![operator]),
            metadata: self.metadata,
            holdings: self.holdings,
        }
    }

    /// Why a transfer is turned down, or `None` where it is carried out.
    pub open spec fn transfer_refusal(
        self,
        token: TokenId,
        from: Address,
        to: Address,
        sale: Option<u128>,
        royalties: Seq<crate::payout::Royalty>,
    ) -> Option<Error> {
        if !self.owners.contains_key(token) {
            Some(Error::UnknownToken)
        } else if self.owners[token] != from {
            Some(Error::NotOwner)
        } else if to == Address::zero() {
            Some(Error::InvalidDestination)
        } else if sale is Some && !table_valid(royalties) {
            Some(Error::InvalidTable)
        } else {
            None
        }
    }

    /// Why a delegated approval is turned down, or `None` where it is carried
    /// out: the signature must verify, and then the signer is held to what a
    /// caller of `approve` is held to.
    pub open spec fn delegated_refusal(
        self,
        token: TokenId,
        signer: Address,
        signature_valid: bool,
    ) -> Option<Error> {
        if !signature_valid {
            Some(Error::BadSignature)
        } else {
            self.approve_refusal(token, signer)
        }
    }

    /// Why a burn is turned down, or `None` where it is carried out.
    pub open spec fn burn_refusal(self, token: TokenId, caller: Address) -> Option<Error> {
        if !self.owners.contains_key(token) {
            Some(Error::UnknownToken)
        } else if self.owners[token] != caller {
            Some(Error::Unauthorized)
        } else {
            None
        }
    }

    /// Why an approval is turned down, or `None` where it is carried out.
    pub open spec fn approve_refusal(self, token: TokenId, caller: Address) -> Option<Error> {
        if !self.owners.contains_key(token) {
            Some(Error::UnknownToken)
        } else if self.owners[token] != caller {
            Some(Error::Unauthorized)
        } else {
            None
        }
    }
}

/// The order of holders after `account` has been given a token: as before
/// where it had a list of tokens already, with `account` at the end where it
/// had none.
pub open spec fn order_with(order: Seq<Address>, known: bool, account: Address) -> Seq<Address> {
    if known {
        order
    } else {
        order.push(account)
    }
}

/// Once a token has passed on, nobody but its new owner may move it: the
/// approvals that its old owner gave are gone.
pub proof fn law_transfer_clears_approvals(
    before: RegistryModel,
    token: TokenId,
    to: Address,
    candidate: Address,
)
    requires
        before.owners.contains_key(token),
    ensures
        before.transferred(token, to).approvals[token] == Seq::<Address>::empty(),
        before.transferred(token, to).is_approved(token, candidate) <==> candidate == to,
{
}

/// The event that answers a transfer: a plain transfer, or with the split of
/// the sale amount where one was given.
pub open spec fn transfer_event(
    token: TokenId,
    from: Address,
    to: Address,
    sale: Option<u128>,
    royalties: Seq<crate::payout::Royalty>,
) -> EventModel {
    match sale {
        Some(amount) => EventModel::TransferPayout {
            from,
            to,
            token_id: token,
            payouts: split_of(amount, royalties),
        },
        None => EventModel::Transfer(NFTTransfer { from, to, token_id: token }),
    }
}

proof fn lemma_push_contains(list: Seq<TokenId>, last: TokenId, x: TokenId)
    ensures
        list.push(last).contains(x) <==> (list.contains(x) || x == last),
{
    let longer = list.push(last);
    if list.contains(x) {
        let i = choose|i: int| 0 <= i < list.len() && list[i] == x;
        assert(longer[i] == x);
    }
    if x == last {
        assert(longer[list.len() as int] == x);
    }
    if longer.contains(x) {
        let i = choose|i: int| 0 <= i < longer.len() && longer[i] == x;
        if i < list.len() {
            assert(list[i] == x);
        }
    }
}

proof fn lemma_push_distinct(list: Seq<TokenId>, last: TokenId)
    requires
        list.no_duplicates(),
        !list.contains(last),
    ensures
        list.push(last).no_duplicates(),
{
    let longer = list.push(last);
    assert forall|i: int, j: int| 0 <= i < longer.len() && 0 <= j < longer.len() && i != j implies longer[i]
        != longer[j] by {
        if i < list.len() && j < list.len() {
        } else if i < list.len() {
            assert(list[i] == longer[i]);
            assert(list.contains(list[i]));
        } else {
            assert(list[j] == longer[j]);
            assert(list.contains(list[j]));
        }
    }
}

proof fn lemma_drop_last(list: Seq<TokenId>, x: TokenId)
    requires
        list.len() > 0,
    ensures
        list.contains(x) <==> (list.drop_last().contains(x) || x == list.last()),
        list.no_duplicates() ==> list.drop_last().no_duplicates() && !list.drop_last().contains(
            list.last(),
        ),
{
    assert(list =~= list.drop_last().push(list.last()));
    lemma_push_contains(list.drop_last(), list.last(), x);
    if list.no_duplicates() {
        let shorter = list.drop_last();
        if shorter.contains(list.last()) {
            let i = choose|i: int| 0 <= i < shorter.len() && shorter[i] == list.last();
            assert(list[i] == list[list.len() - 1]);
        }
        assert forall|i: int, j: int| 0 <= i < shorter.len() && 0 <= j < shorter.len() && i
            != j implies shorter[i] != shorter[j] by {
            assert(shorter[i] == list[i]);
            assert(shorter[j] == list[j]);
        }
    }
}

/// What is left of a list after a token is taken out: everything else, each
/// once if it was there once.
pub proof fn lemma_without(list: Seq<TokenId>, token: TokenId)
    ensures
        forall|x: TokenId| #[trigger]
            without(list, token).contains(x) <==> (list.contains(x) && x != token),
        list.no_duplicates() ==> without(list, token).no_duplicates(),
        !list.contains(token) ==> without(list, token) == list,
    decreases list.len(),
{
    if list.len() == 0 {
        assert forall|x: TokenId| !list.contains(x) by {}
    } else {
        let shorter = list.drop_last();
        lemma_without(shorter, token);
        lemma_drop_last(list, token);
        assert forall|x: TokenId| #[trigger]
            without(list, token).contains(x) <==> (list.contains(x) && x != token) by {
            lemma_drop_last(list, x);
            lemma_push_contains(without(shorter, token), list.last(), x);
        }
        if list.no_duplicates() && list.last() != token {
            lemma_push_distinct(without(shorter, token), list.last());
        }
        if !list.contains(token) {
            assert(list =~= shorter.push(list.last()));
        }
    }
}

/// Minting a token that is not yet registered keeps the two directions in
/// agreement.
pub proof fn lemma_minted_consistent(
    before: RegistryModel,
    token: TokenId,
    metadata: Option<TokenMetadata>,
    to: Address,
)
    requires
        before.consistent(),
        !before.owners.contains_key(token),
    ensures
        before.minted(token, metadata, to).consistent(),
{
    let after = before.minted(token, metadata, to);
    assert(!before.held_by(to).contains(token));
    lemma_push_distinct(before.held_by(to), token);
    assert forall|a: Address| #[trigger] after.held_by(a).no_duplicates() by {
        assert(before.held_by(a).no_duplicates());
    }
    assert forall|t: TokenId| #[trigger]
        after.owners.contains_key(t) implies after.held_by(after.owners[t]).contains(t) by {
        lemma_push_contains(before.held_by(to), token, t);
        if t != token {
            assert(before.owners.contains_key(t));
        }
    }
    assert forall|a: Address, t: TokenId| #[trigger]
        after.held_by(a).contains(t) implies after.owners.contains_key(t) && after.owners[t]
        == a by {
        lemma_push_contains(before.held_by(to), token, t);
        if a != to || t != token {
            assert(before.held_by(a).contains(t));
        }
    }
}

/// Passing a registered token on keeps the two directions in agreement.
pub proof fn lemma_transferred_consistent(before: RegistryModel, token: TokenId, to: Address)
    requires
        before.consistent(),
        before.owners.contains_key(token),
    ensures
        before.transferred(token, to).consistent(),
{
    let after = before.transferred(token, to);
    let from = before.owners[token];
    let left = without(before.held_by(from), token);
    let base = if to == from {
        left
    } else {
        before.held_by(to)
    };
    lemma_without(before.held_by(from), token);
    assert(before.held_by(from).no_duplicates());
    assert(before.held_by(to).no_duplicates());
    assert(!base.contains(token)) by {
        if to != from && before.held_by(to).contains(token) {
            assert(before.owners[token] == to);
        }
    }
    lemma_push_distinct(base, token);
    assert(after.held_by(to) == base.push(token));
    assert(to != from ==> after.held_by(from) == left);
    assert forall|a: Address| #[trigger] after.held_by(a).no_duplicates() by {
        assert(before.held_by(a).no_duplicates());
    }
    assert forall|t: TokenId| #[trigger]
        after.owners.contains_key(t) implies after.held_by(after.owners[t]).contains(t) by {
        lemma_push_contains(base, token, t);
        if t != token {
            assert(before.owners.contains_key(t));
            let a = before.owners[t];
            assert(before.held_by(a).contains(t));
            assert(left.contains(t) <==> (before.held_by(from).contains(t) && t != token));
        }
    }
    assert forall|a: Address, t: TokenId| #[trigger]
        after.held_by(a).contains(t) implies after.owners.contains_key(t) && after.owners[t]
        == a by {
        lemma_push_contains(base, token, t);
        assert(left.contains(t) <==> (before.held_by(from).contains(t) && t != token));
        if a == to {
            if t != token {
                if to == from {
                    assert(before.held_by(from).contains(t));
                } else {
                    assert(before.held_by(to).contains(t));
                }
            }
        } else if a == from {
            assert(before.held_by(from).contains(t));
        } else {
            assert(before.held_by(a).contains(t));
        }
    }
}

/// Approving an operator keeps the two directions in agreement, whether or
/// not the token is registered.
pub proof fn lemma_approved_consistent(before: RegistryModel, token: TokenId, operator: Address)
    requires
        before.consistent(),
    ensures
        before.owners.contains_key(token) ==> before.approved(token, operator).consistent(),
{
    let after = before.approved(token, operator);
    if before.owners.contains_key(token) {
        assert(before.approvals.dom().contains(token));
        assert forall|a: Address| #[trigger] after.held_by(a).no_duplicates() by {
            assert(before.held_by(a).no_duplicates());
        }
        assert forall|a: Address, t: TokenId| #[trigger]
            after.held_by(a).contains(t) implies after.owners.contains_key(t) && after.owners[t]
            == a by {
            assert(before.held_by(a).contains(t));
        }
    }
}

/// At every moment a registered token has one owner, and is listed under that
/// owner and under nobody else.
pub proof fn law_ownership_unique(registry: RegistryModel, token: TokenId, account: Address)
    requires
        registry.consistent(),
        registry.owners.contains_key(token),
    ensures
        registry.held_by(registry.owners[token]).contains(token),
        registry.held_by(account).contains(token) <==> account == registry.owners[token],
{
}

/// A token that is not registered is listed under nobody.
pub proof fn law_unregistered_unlisted(registry: RegistryModel, token: TokenId, account: Address)
    requires
        registry.consistent(),
        !registry.owners.contains_key(token),
    ensures
        !registry.held_by(account).contains(token),
{
}

/// The registry of one contract.
pub struct AssetRegistry {
    owner_by_id: Table<Address>,
    token_approvals: Table<Vec<Address>>,
    token_metadata_by_id: Table<Option<TokenMetadata>>,
    tokens_for_owner: Table<Vec<TokenId>>,
}

impl View for AssetRegistry {
    type V = RegistryModel;

    closed spec fn view(&self) -> RegistryModel {
        RegistryModel {
            owners: Map::new(
                |t: TokenId| self.owner_by_id@.contains_key(t.key()),
                |t: TokenId| self.owner_by_id@[t.key()],
            ),
            approvals: Map::new(
                |t: TokenId| self.token_approvals@.contains_key(t.key()),
                |t: TokenId| self.token_approvals@[t.key()]@,
            ),
            metadata: Map::new(
                |t: TokenId| self.token_metadata_by_id@.contains_key(t.key()),
                |t: TokenId| self.token_metadata_by_id@[t.key()],
            ),
            holdings: Map::new(
                |a: Address| self.tokens_for_owner@.contains_key(a.key()),
                |a: Address| self.tokens_for_owner@[a.key()]@,
            ),
        }
    }
}

/// The identifiers that a sequence of keys stands for.
pub open spec fn tokens_of_keys(keys: Seq<Key>) -> Seq<TokenId> {
    Seq::new(keys.len(), |i: int| TokenId { hi: keys[i].0, lo: keys[i].1 })
}

/// The addresses that a sequence of keys stands for.
pub open spec fn addresses_of_keys(keys: Seq<Key>) -> Seq<Address> {
    Seq::new(keys.len(), |i: int| Address { hi: keys[i].0, lo: keys[i].1 })
}

/// A copy of a list of tokens.
pub fn copy_tokens(list: &Vec<TokenId>) -> (out: Vec<TokenId>)
    ensures
        out@ == list@,
{
    let n = list.len();
    let mut out: Vec<TokenId> = Vec::new();
    let mut i: usize = 0;
    while i < n
        invariant
            n == list@.len(),
            0 <= i <= n,
            out@ == list@.take(i as int),
        decreases n - i,
    {
        out.push(list[i]);
        proof {
            assert(list@.take(i + 1) =~= list@.take(i as int).push(list@[i as int]));
        }
        i = i + 1;
    }
    proof {
        assert(list@.take(n as int) =~= list@);
    }
    out
}

/// A copy of a list of tokens with `token` at its end.
fn list_with(list: &Vec<TokenId>, token: TokenId) -> (out: Vec<TokenId>)
    ensures
        out@ == list@.push(token),
{
    let mut out = copy_tokens(list);
    out.push(token);
    out
}

/// A copy of a list of tokens that leaves `token` out.
fn list_without(list: &Vec<TokenId>, token: TokenId) -> (out: Vec<TokenId>)
    ensures
        out@ == without(list@, token),
{
    let n = list.len();
    let mut out: Vec<TokenId> = Vec::new();
    let mut i: usize = 0;
    while i < n
        invariant
            n == list@.len(),
            0 <= i <= n,
            out@ == without(list@.take(i as int), token),
        decreases n - i,
    {
        proof {
            assert(list@.take(i + 1).drop_last() =~= list@.take(i as int));
            assert(list@.take(i + 1).last() == list@[i as int]);
        }
        if list[i] != token {
            out.push(list[i]);
        }
        i = i + 1;
    }
    proof {
        assert(list@.take(n as int) =~= list@);
    }
    out
}

/// A copy of a list of addresses.
pub fn copy_addresses(list: &Vec<Address>) -> (out: Vec<Address>)
    ensures
        out@ == list@,
{
    let n = list.len();
    let mut out: Vec<Address> = Vec::new();
    let mut i: usize = 0;
    while i < n
        invariant
            n == list@.len(),
            0 <= i <= n,
            out@ == list@.take(i as int),
        decreases n - i,
    {
        out.push(list[i]);
        proof {
            assert(list@.take(i + 1) =~= list@.take(i as int).push(list@[i as int]));
        }
        i = i + 1;
    }
    proof {
        assert(list@.take(n as int) =~= list@);
    }
    out
}

/// Whether `candidate` is one of `list`.
fn list_has(list: &Vec<Address>, candidate: Address) -> (out: bool)
    ensures
        out == list@.contains(candidate),
{
    let n = list.len();
    let mut i: usize = 0;
    while i < n
        invariant
            n == list@.len(),
            0 <= i <= n,
            forall|j: int| 0 <= j < i ==> list@[j] != candidate,
        decreases n - i,
    {
        if list[i] == candidate {
            return true;
        }
        i = i + 1;
    }
    false
}

impl AssetRegistry {
    /// The four tables are sound.
    pub closed spec fn tables_wf(&self) -> bool {
        &&& self.owner_by_id.wf()
        &&& self.token_approvals.wf()
        &&& self.token_metadata_by_id.wf()
        &&& self.tokens_for_owner.wf()
    }

    /// The tables are sound and the two directions agree.
    pub open spec fn wf(&self) -> bool {
        self.tables_wf() && self@.consistent()
    }

    /// The registered tokens in the order in which they were minted.
    pub closed spec fn minted_order(&self) -> Seq<TokenId> {
        tokens_of_keys(self.owner_by_id.order())
    }

    /// The accounts that have ever owned a token, in the order in which they
    /// first did.
    pub closed spec fn holder_order(&self) -> Seq<Address> {
        addresses_of_keys(self.tokens_for_owner.order())
    }

    /// The order of minting lists each registered token once and nothing
    /// else; the order of holders lists each account with a list of tokens
    /// once and nothing else.
    pub proof fn lemma_orders(&self)
        requires
            self.wf(),
        ensures
            self.minted_order().no_duplicates(),
            forall|t: TokenId| self.minted_order().contains(t) <==> self@.owners.contains_key(t),
            forall|i: int|
                0 <= i < self.minted_order().len() ==> self@.owners.contains_key(
                    #[trigger] self.minted_order()[i],
                ),
            self.holder_order().no_duplicates(),
            forall|a: Address| self.holder_order().contains(a) <==> self@.holdings.contains_key(a),
            forall|i: int|
                0 <= i < self.holder_order().len() ==> self@.holdings.contains_key(
                    #[trigger] self.holder_order()[i],
                ),
    {
        self.owner_by_id.lemma_order();
        self.tokens_for_owner.lemma_order();
        let keys = self.owner_by_id.order();
        let tokens = self.minted_order();
        assert forall|t: TokenId| tokens.contains(t) <==> self@.owners.contains_key(t) by {
            if tokens.contains(t) {
                let i = choose|i: int| 0 <= i < tokens.len() && tokens[i] == t;
                assert(keys[i] == t.key());
                assert(keys.contains(t.key()));
            }
            if self@.owners.contains_key(t) {
                assert(keys.contains(t.key()));
                let i = choose|i: int| 0 <= i < keys.len() && keys[i] == t.key();
                assert(tokens[i] == t);
            }
        }
        assert forall|i: int| 0 <= i < tokens.len() implies self@.owners.contains_key(
            #[trigger] tokens[i],
        ) by {
            assert(tokens.contains(tokens[i]));
        }
        assert forall|i: int, j: int| 0 <= i < tokens.len() && 0 <= j < tokens.len() && i
            != j implies tokens[i] != tokens[j] by {
            assert(keys[i] != keys[j]);
        }
        let hkeys = self.tokens_for_owner.order();
        let holders = self.holder_order();
        assert forall|a: Address| holders.contains(a) <==> self@.holdings.contains_key(a) by {
            if holders.contains(a) {
                let i = choose|i: int| 0 <= i < holders.len() && holders[i] == a;
                assert(hkeys[i] == a.key());
                assert(hkeys.contains(a.key()));
            }
            if self@.holdings.contains_key(a) {
                assert(hkeys.contains(a.key()));
                let i = choose|i: int| 0 <= i < hkeys.len() && hkeys[i] == a.key();
                assert(holders[i] == a);
            }
        }
        assert forall|i: int| 0 <= i < holders.len() implies self@.holdings.contains_key(
            #[trigger] holders[i],
        ) by {
            assert(holders.contains(holders[i]));
        }
        assert forall|i: int, j: int| 0 <= i < holders.len() && 0 <= j < holders.len() && i
            != j implies holders[i] != holders[j] by {
            assert(hkeys[i] != hkeys[j]);
        }
    }

    /// A registry without tokens.
    pub fn new() -> (out: Self)
        ensures
            out.wf(),
            out@ == RegistryModel::empty(),
            out.minted_order() == Seq::<TokenId>::empty(),
            out.holder_order() == Seq::<Address>::empty(),
    {
        let out = AssetRegistry {
            owner_by_id: Table::new(),
            token_approvals: Table::new(),
            token_metadata_by_id: Table::new(),
            tokens_for_owner: Table::new(),
        };
        proof {
            assert(out@ =~= RegistryModel::empty());
            assert(out.minted_order() =~= Seq::<TokenId>::empty());
            assert(out.holder_order() =~= Seq::<Address>::empty());
            assert forall|a: Address| #[trigger] out@.held_by(a).no_duplicates() by {}
        }
        out
    }

    /// Whether `token` is registered.
    pub fn contains(&self, token: TokenId) -> (out: bool)
        requires
            self.wf(),
        ensures
            out == self@.owners.contains_key(token),
    {
        self.owner_by_id.contains_key(token.to_key())
    }

    /// The owner of `token`; fails with `UnknownToken` where it is not
    /// registered.
    pub fn owner_of(&self, token: TokenId) -> (out: Result<Address, Error>)
        requires
            self.wf(),
        ensures
            match out {
                Ok(owner) => self@.owners.contains_key(token) && owner == self@.owners[token],
                Err(e) => e == Error::UnknownToken && !self@.owners.contains_key(token),
            },
    {
        match self.owner_by_id.get(token.to_key()) {
            Some(owner) => Ok(*owner),
            None => Err(Error::UnknownToken),
        }
    }

    /// Whether `candidate` may move `token`: it owns it or is approved for it.
    pub fn is_approved(&self, token: TokenId, candidate: Address) -> (out: bool)
        requires
            self.wf(),
        ensures
            out == self@.is_approved(token, candidate),
    {
        match self.owner_by_id.get(token.to_key()) {
            None => false,
            Some(owner) => {
                if *owner == candidate {
                    true
                } else {
                    match self.token_approvals.get(token.to_key()) {
                        Some(list) => list_has(list, candidate),
                        None => false,
                    }
                }
            },
        }
    }

    /// The operators approved for `token`; none where it is not registered.
    pub fn approved_operators(&self, token: TokenId) -> (out: Vec<Address>)
        requires
            self.wf(),
        ensures
            out@ == (if self@.owners.contains_key(token) {
                self@.approvals[token]
            } else {
                Seq::empty()
            }),
    {
        match self.token_approvals.get(token.to_key()) {
            Some(list) => copy_addresses(list),
            None => Vec::new(),
        }
    }

    /// What was told of `token` when it was minted; `None` where nothing was
    /// told or the token is not registered.
    pub fn metadata_of(&self, token: TokenId) -> (out: Option<&TokenMetadata>)
        requires
            self.wf(),
        ensures
            match out {
                Some(m) => self@.owners.contains_key(token) && self@.metadata[token] == Some(*m),
                None => !self@.owners.contains_key(token) || self@.metadata[token] is None,
            },
    {
        match self.token_metadata_by_id.get(token.to_key()) {
            Some(m) => m.as_ref(),
            None => None,
        }
    }

    /// The tokens of `account`, oldest first.
    pub fn tokens_of(&self, account: Address) -> (out: Vec<TokenId>)
        requires
            self.wf(),
        ensures
            out@ == self@.held_by(account),
    {
        match self.tokens_for_owner.get(account.to_key()) {
            Some(list) => copy_tokens(list),
            None => Vec::new(),
        }
    }

    /// The number of tokens of `account`.
    pub fn balance_of(&self, account: Address) -> (out: usize)
        requires
            self.wf(),
        ensures
            out == self@.held_by(account).len(),
    {
        match self.tokens_for_owner.get(account.to_key()) {
            Some(list) => list.len(),
            None => 0,
        }
    }

    /// The number of registered tokens.
    pub fn token_count(&self) -> (out: usize)
        requires
            self.wf(),
        ensures
            out == self.minted_order().len(),
    {
        self.owner_by_id.len()
    }

    /// The token that was minted as number `i`.
    pub fn token_at(&self, i: usize) -> (out: TokenId)
        requires
            self.wf(),
            i < self.minted_order().len(),
        ensures
            out == self.minted_order()[i as int],
    {
        TokenId::from_key(self.owner_by_id.key_at(i))
    }

    /// The number of accounts that have ever owned a token.
    pub fn holder_count(&self) -> (out: usize)
        requires
            self.wf(),
        ensures
            out == self.holder_order().len(),
    {
        self.tokens_for_owner.len()
    }

    /// The account that was number `i` to own a token.
    pub fn holder_at(&self, i: usize) -> (out: Address)
        requires
            self.wf(),
            i < self.holder_order().len(),
        ensures
            out == self.holder_order()[i as int],
    {
        Address::from_key(self.tokens_for_owner.key_at(i))
    }

    /// Registers `token` with `initiator` as its owner.
    ///
    /// Fails with `AlreadyExists`, and changes nothing, where the token is
    /// registered already.
    pub fn mint(
        &mut self,
        token: TokenId,
        metadata: Option<TokenMetadata>,
        initiator: Address,
    ) -> (out: Result<ContractEvent, Error>)
        requires
            old(self).wf(),
        ensures
            final(self).wf(),
            match out {
                Ok(event) => {
                    &&& !old(self)@.owners.contains_key(token)
                    &&& final(self)@ == old(self)@.minted(token, metadata, initiator)
                    &&& event@ == EventModel::Transfer(
                        NFTTransfer { from: Address::zero(), to: initiator, token_id: token },
                    )
                    &&& final(self).minted_order() == old(self).minted_order().push(token)
                    &&& final(self).holder_order() == order_with(
                        old(self).holder_order(),
                        old(self)@.holdings.contains_key(initiator),
                        initiator,
                    )
                },
                Err(e) => {
                    &&& e == Error::AlreadyExists
                    &&& old(self)@.owners.contains_key(token)
                    &&& final(self)@ == old(self)@
                    &&& final(self).minted_order() == old(self).minted_order()
                    &&& final(self).holder_order() == old(self).holder_order()
                },
            },
    {
        let key = token.to_key();
        if self.owner_by_id.contains_key(key) {
            return Err(Error::AlreadyExists);
        }
        let held = match self.tokens_for_owner.get(initiator.to_key()) {
            Some(list) => list_with(list, token),
            None => {
                let mut fresh: Vec<TokenId> = Vec::new();
                fresh.push(token);
                fresh
            },
        };
        proof {
            assert(held@ =~= old(self)@.held_by(initiator).push(token));
            assert(old(self)@.approvals.dom().contains(token) == old(self)@.owners.dom().contains(
                token,
            ));
            assert(old(self)@.metadata.dom().contains(token) == old(self)@.owners.dom().contains(
                token,
            ));
        }
        self.owner_by_id.insert(key, initiator);
        self.token_approvals.insert(key, Vec::new());
        self.token_metadata_by_id.insert(key, metadata);
        self.tokens_for_owner.insert(initiator.to_key(), held);
        proof {
            let goal = old(self)@.minted(token, metadata, initiator);
            assert(self@.owners =~= goal.owners);
            assert(self@.approvals =~= goal.approvals);
            assert(self@.metadata =~= goal.metadata);
            assert(self@.holdings =~= goal.holdings);
            assert(self@ =~= goal);
            lemma_minted_consistent(old(self)@, token, metadata, initiator);
            assert(self.minted_order() =~= old(self).minted_order().push(token));
            assert(self.holder_order() =~= order_with(
                old(self).holder_order(),
                old(self)@.holdings.contains_key(initiator),
                initiator,
            ));
        }
        Ok(
            ContractEvent::Transfer(
                NFTTransfer { from: Address::zero_address(), to: initiator, token_id: token },
            ),
        )
    }

    /// Passes `token` from its owner `from` to `to`.
    fn move_token(&mut self, token: TokenId, from: Address, to: Address)
        requires
            old(self).wf(),
            old(self)@.owners.contains_key(token),
            old(self)@.owners[token] == from,
        ensures
            final(self).wf(),
            final(self).minted_order() == old(self).minted_order(),
            final(self).holder_order() == order_with(
                old(self).holder_order(),
                old(self)@.holdings.contains_key(to),
                to,
            ),
            final(self)@ == old(self)@.transferred(token, to),
    {
        let key = token.to_key();
        let left = match self.tokens_for_owner.get(from.to_key()) {
            Some(list) => list_without(list, token),
            None => Vec::new(),
        };
        proof {
            assert(old(self)@.held_by(from).contains(token));
            assert(left@ == without(old(self)@.held_by(from), token));
            assert(old(self)@.approvals.dom().contains(token));
        }
        self.tokens_for_owner.insert(from.to_key(), left);
        let joined = match self.tokens_for_owner.get(to.to_key()) {
            Some(list) => list_with(list, token),
            None => {
                let mut fresh: Vec<TokenId> = Vec::new();
                fresh.push(token);
                fresh
            },
        };
        self.tokens_for_owner.insert(to.to_key(), joined);
        self.owner_by_id.insert(key, to);
        self.token_approvals.insert(key, Vec::new());
        proof {
            let goal = old(self)@.transferred(token, to);
            let released = old(self)@.holdings.insert(
                from,
                without(old(self)@.held_by(from), token),
            );
            assert(joined@ =~= (if released.contains_key(to) {
                released[to]
            } else {
                Seq::empty()
            }).push(token));
            assert(self@.owners =~= goal.owners);
            assert(self@.approvals =~= goal.approvals);
            assert(self@.metadata =~= goal.metadata);
            assert(self@.holdings =~= goal.holdings);
            assert(self@ =~= goal);
            lemma_transferred_consistent(old(self)@, token, to);
            assert(self.minted_order() =~= old(self).minted_order());
            assert(old(self)@.holdings.contains_key(from));
            assert(self.holder_order() =~= order_with(
                old(self).holder_order(),
                old(self)@.holdings.contains_key(to),
                to,
            ));
        }
    }

    /// Passes `token` from `from` to `to`, and clears its approvals.
    ///
    /// Fails, and changes nothing: with `UnknownToken` where the token is not
    /// registered; else with `NotOwner` where `from` does not own it; else
    /// with `InvalidDestination` where `to` is the zero address; else, where a
    /// sale amount is given, with `InvalidTable` where the royalty table hands
    /// out more than the whole. Where a sale amount is given, the event lists
    /// its split over the royalty table.
    pub fn transfer(
        &mut self,
        token: TokenId,
        from: Address,
        to: Address,
        sale: Option<u128>,
        royalties: &RoyaltyTable,
    ) -> (out: Result<ContractEvent, Error>)
        requires
            old(self).wf(),
        ensures
            final(self).wf(),
            final(self).minted_order() == old(self).minted_order(),
            match out {
                Ok(event) => {
                    &&& old(self)@.transfer_refusal(token, from, to, sale, royalties@) is None
                    &&& final(self)@ == old(self)@.transferred(token, to)
                    &&& event@ == transfer_event(token, from, to, sale, royalties@)
                    &&& final(self).holder_order() == order_with(
                        old(self).holder_order(),
                        old(self)@.holdings.contains_key(to),
                        to,
                    )
                },
                Err(e) => {
                    &&& old(self)@.transfer_refusal(token, from, to, sale, royalties@) == Some(e)
                    &&& final(self)@ == old(self)@
                    &&& final(self).holder_order() == old(self).holder_order()
                },
            },
    {
        let key = token.to_key();
        let owner = match self.owner_by_id.get(key) {
            Some(owner) => *owner,
            None => {
                return Err(Error::UnknownToken);
            },
        };
        if owner != from {
            return Err(Error::NotOwner);
        }
        if to.is_zero() {
            return Err(Error::InvalidDestination);
        }
        let event = match sale {
            Some(amount) => {
                match split(amount, royalties) {
                    Ok(payouts) => ContractEvent::TransferPayout(
                        NFTTransferPayout { from, to, token_id: token, payouts },
                    ),
                    Err(e) => {
                        return Err(e);
                    },
                }
            },
            None => ContractEvent::Transfer(NFTTransfer { from, to, token_id: token }),
        };
        self.move_token(token, from, to);
        Ok(event)
    }

    /// Burns `token` on behalf of `caller`: the token stays registered, with
    /// the zero address as its owner from now on, and its approvals are gone.
    ///
    /// Fails, and changes nothing: with `UnknownToken` where the token is not
    /// registered; else with `Unauthorized` where `caller` does not own it.
    pub fn burn(&mut self, token: TokenId, caller: Address) -> (out: Result<ContractEvent, Error>)
        requires
            old(self).wf(),
        ensures
            final(self).wf(),
            final(self).minted_order() == old(self).minted_order(),
            match out {
                Ok(event) => {
                    &&& old(self)@.burn_refusal(token, caller) is None
                    &&& final(self)@ == old(self)@.transferred(token, Address::zero())
                    &&& event@ == EventModel::Transfer(
                        NFTTransfer { from: caller, to: Address::zero(), token_id: token },
                    )
                    &&& final(self).holder_order() == order_with(
                        old(self).holder_order(),
                        old(self)@.holdings.contains_key(Address::zero()),
                        Address::zero(),
                    )
                },
                Err(e) => {
                    &&& old(self)@.burn_refusal(token, caller) == Some(e)
                    &&& final(self)@ == old(self)@
                    &&& final(self).holder_order() == old(self).holder_order()
                },
            },
    {
        let owner = match self.owner_by_id.get(token.to_key()) {
            Some(owner) => *owner,
            None => {
                return Err(Error::UnknownToken);
            },
        };
        if owner != caller {
            return Err(Error::Unauthorized);
        }
        let nobody = Address::zero_address();
        self.move_token(token, caller, nobody);
        Ok(ContractEvent::Transfer(NFTTransfer { from: caller, to: nobody, token_id: token }))
    }

    /// Approves `operator` for `token` on behalf of `caller`, in place of
    /// whoever was approved before.
    ///
    /// Fails, and changes nothing: with `UnknownToken` where the token is not
    /// registered; else with `Unauthorized` where `caller` does not own it.
    pub fn approve(&mut self, token: TokenId, operator: Address, caller: Address) -> (out: Result<
        ContractEvent,
        Error,
    >)
        requires
            old(self).wf(),
        ensures
            final(self).wf(),
            final(self).minted_order() == old(self).minted_order(),
            final(self).holder_order() == old(self).holder_order(),
            match out {
                Ok(event) => {
                    &&& old(self)@.approve_refusal(token, caller) is None
                    &&& final(self)@ == old(self)@.approved(token, operator)
                    &&& event@ == EventModel::Approval(
                        NFTApproval { owner: caller, approved_account: operator, token_id: token },
                    )
                },
                Err(e) => {
                    &&& old(self)@.approve_refusal(token, caller) == Some(e)
                    &&& final(self)@ == old(self)@
                },
            },
    {
        let key = token.to_key();
        let owner = match self.owner_by_id.get(key) {
            Some(owner) => *owner,
            None => {
                return Err(Error::UnknownToken);
            },
        };
        if owner != caller {
            return Err(Error::Unauthorized);
        }
        let mut list: Vec<Address> = Vec::new();
        list.push(operator);
        proof {
            assert(list@ =~= seq![operator]);
            assert(old(self)@.approvals.dom().contains(token));
        }
        self.token_approvals.insert(key, list);
        proof {
            let goal = old(self)@.approved(token, operator);
            assert(self@.owners =~= goal.owners);
            assert(self@.approvals =~= goal.approvals);
            assert(self@.metadata =~= goal.metadata);
            assert(self@.holdings =~= goal.holdings);
            assert(self@ =~= goal);
            lemma_approved_consistent(old(self)@, token, operator);
            assert(self.minted_order() =~= old(self).minted_order());
        }
        Ok(
            ContractEvent::Approval(
                NFTApproval { owner: caller, approved_account: operator, token_id: token },
            ),
        )
    }

    /// Approves the operator that `approval` names, on behalf of its signer.
    ///
    /// `signature_valid` is the verdict of the signature check on the
    /// approval. Fails with `BadSignature`, and changes nothing, where it is
    /// `false`; else does what `approve` does for the signer as the caller.
    pub fn delegated_approve(&mut self, approval: &DelegatedApproval, signature_valid: bool) -> (out:
        Result<ContractEvent, Error>)
        requires
            old(self).wf(),
        ensures
            final(self).wf(),
            final(self).minted_order() == old(self).minted_order(),
            final(self).holder_order() == old(self).holder_order(),
            match out {
                Ok(event) => {
                    &&& old(self)@.delegated_refusal(
                        approval.token_id,
                        approval.signer,
                        signature_valid,
                    ) is None
                    &&& final(self)@ == old(self)@.approved(
                        approval.token_id,
                        approval.approved_operator,
                    )
                    &&& event@ == EventModel::Approval(
                        NFTApproval {
                            owner: approval.signer,
                            approved_account: approval.approved_operator,
                            token_id: approval.token_id,
                        },
                    )
                },
                Err(e) => {
                    &&& old(self)@.delegated_refusal(
                        approval.token_id,
                        approval.signer,
                        signature_valid,
                    ) == Some(e)
                    &&& final(self)@ == old(self)@
                },
            },
    {
        if !signature_valid {
            return Err(Error::BadSignature);
        }
        self.approve(approval.token_id, approval.approved_operator, approval.signer)
    }
}

} // verus!
