//! The contract: the escrow, the registry and the journal under one roof, and
//! the dispatcher that routes each request to them.
//!
//! A request that changes something carries a nonce. It is looked up in the
//! journal first: where an answer is filed under the caller and the nonce,
//! that answer is given and nothing else happens. Otherwise the caller is
//! checked, the request is carried out, and its answer is filed. A request
//! that fails files nothing, so that it can be sent again under the same
//! nonce.

use vstd::prelude::*;
use crate::escrow::{EscrowModel, EscrowState, Role};
use crate::events::{ContractEvent, EventModel, JournalKey, NFTApproval};
use crate::guard::{check_may_evict, check_may_transfer, may_evict};
use crate::journal::TransactionJournal;
use crate::payout::{Royalty, RoyaltyTable};
use crate::registry::{transfer_event, AssetRegistry, RegistryModel};
use crate::signing::{message_bytes, signed_message};
use crate::types::{Address, Error, TokenId, TokenMetadata};

verus! {

/// The two wallets of the escrow.
#[derive(Clone, Copy, PartialEq, Eq, Structural, Debug)]
pub struct ContractTokenMetaData {
    pub client_wallet: Address,
    pub seller_wallet: Address,
}

/// What a contract is set up with.
pub struct InitContract {
    pub name: String,
    pub wallets: ContractTokenMetaData,
    pub royalties: Vec<Royalty>,
}

/// An approval that the owner of a token has signed instead of sending it.
pub struct DelegatedApproval {
    pub token_id: TokenId,
    pub approved_operator: Address,
    pub signer: Address,
    pub signature: Vec<u8>,
}

/// A request.
pub enum ContractAction {
    /// Registers a token with the caller as its owner.
    Mint { transaction_id: u64, token_id: TokenId, token_metadata: Option<TokenMetadata> },
    /// Passes a token on, once the escrow is closed.
    Transfer {
        transaction_id: u64,
        token_id: TokenId,
        from: Address,
        to: Address,
        sale_amount: Option<u128>,
    },
    /// Approves an operator for a token of the caller.
    Approve { transaction_id: u64, token_id: TokenId, to: Address },
    /// Approves an operator for a token on the strength of its owner's
    /// signature.
    DelegatedApprove { transaction_id: u64, approval: DelegatedApproval },
    /// Asks whether an account may move a token.
    IsApproved { token_id: TokenId, to: Address },
    /// Casts the caller's vote in the escrow.
    AckAction { transaction_id: u64, role: Role, value: bool },
    /// Asks for the owner of a token.
    Owner { token_id: TokenId },
    /// Has the journal let go of an answer.
    Clear { key: JournalKey },
}

/// The contract as the contracts speak of it.
#[verifier::ext_equal]
pub struct ContractModel {
    pub name: Seq<char>,
    pub escrow: EscrowModel,
    pub registry: RegistryModel,
    pub journal: Map<JournalKey, EventModel>,
    pub royalties: Seq<Royalty>,
}

/// The nonce of a request that changes something; `None` for a question and
/// for a request to the journal itself.
pub open spec fn nonce_of(action: ContractAction) -> Option<u64> {
    match action {
        ContractAction::Mint { transaction_id, .. } => Some(transaction_id),
        ContractAction::Transfer { transaction_id, .. } => Some(transaction_id),
        ContractAction::Approve { transaction_id, .. } => Some(transaction_id),
        ContractAction::DelegatedApprove { transaction_id, .. } => Some(transaction_id),
        ContractAction::AckAction { transaction_id, .. } => Some(transaction_id),
        ContractAction::IsApproved { .. } => None,
        ContractAction::Owner { .. } => None,
        ContractAction::Clear { .. } => None,
    }
}

impl ContractModel {
    pub open spec fn wf(self) -> bool {
        self.escrow.wf() && self.registry.consistent()
    }

    pub open spec fn with_registry(self, registry: RegistryModel) -> ContractModel {
        ContractModel { registry, ..self }
    }

    pub open spec fn with_escrow(self, escrow: EscrowModel) -> ContractModel {
        ContractModel { escrow, ..self }
    }

    pub open spec fn with_journal(self, journal: Map<JournalKey, EventModel>) -> ContractModel {
        ContractModel { journal, ..self }
    }

    /// What carrying out `action` for `caller` leaves behind and answers,
    /// the journal's filing left aside. `signature_valid` says whether the
    /// signature of a delegated approval verifies; no other request looks at
    /// it. A request that fails leaves everything as it was.
    pub open spec fn execute(
        self,
        caller: Address,
        action: ContractAction,
        signature_valid: bool,
    ) -> (ContractModel, Result<EventModel, Error>) {
        match action {
            ContractAction::Mint { transaction_id, token_id, token_metadata } => {
                if self.registry.owners.contains_key(token_id) {
                    (self, Err(Error::AlreadyExists))
                } else {
                    (
                        self.with_registry(self.registry.minted(token_id, token_metadata, caller)),
                        Ok(
                            EventModel::Transfer(
                                crate::events::NFTTransfer {
                                    from: Address::zero(),
                                    to: caller,
                                    token_id,
                                },
                            ),
                        ),
                    )
                }
            },
            ContractAction::Transfer { transaction_id, token_id, from, to, sale_amount } => {
                if !self.escrow.closed {
                    (self, Err(Error::EscrowNotClosed))
                } else if !self.registry.owners.contains_key(token_id) {
                    (self, Err(Error::UnknownToken))
                } else if !self.registry.is_approved(token_id, caller) {
                    (self, Err(Error::Unauthorized))
                } else {
                    match self.registry.transfer_refusal(
                        token_id,
                        from,
                        to,
                        sale_amount,
                        self.royalties,
                    ) {
                        Some(e) => (self, Err(e)),
                        None => (
                            self.with_registry(self.registry.transferred(token_id, to)),
                            Ok(transfer_event(token_id, from, to, sale_amount, self.royalties)),
                        ),
                    }
                }
            },
            ContractAction::Approve { transaction_id, token_id, to } => {
                match self.registry.approve_refusal(token_id, caller) {
                    Some(e) => (self, Err(e)),
                    None => (
                        self.with_registry(self.registry.approved(token_id, to)),
                        Ok(
                            EventModel::Approval(
                                NFTApproval { owner: caller, approved_account: to, token_id },
                            ),
                        ),
                    ),
                }
            },
            ContractAction::DelegatedApprove { transaction_id, approval } => {
                match self.registry.delegated_refusal(
                    approval.token_id,
                    approval.signer,
                    signature_valid,
                ) {
                    Some(e) => (self, Err(e)),
                    None => (
                        self.with_registry(
                            self.registry.approved(approval.token_id, approval.approved_operator),
                        ),
                        Ok(
                            EventModel::Approval(
                                NFTApproval {
                                    owner: approval.signer,
                                    approved_account: approval.approved_operator,
                                    token_id: approval.token_id,
                                },
                            ),
                        ),
                    ),
                }
            },
            ContractAction::IsApproved { token_id, to } => (
                self,
                Ok(
                    EventModel::IsApproved {
                        to,
                        token_id,
                        approved: self.registry.is_approved(token_id, to),
                    },
                ),
            ),
            ContractAction::AckAction { transaction_id, role, value } => {
                match self.escrow.refusal(caller, role) {
                    Some(e) => (self, Err(e)),
                    None => (
                        self.with_escrow(self.escrow.voted(role, value)),
                        Ok(
                            EventModel::AckAction {
                                role,
                                value,
                                closed: self.escrow.voted(role, value).closed,
                            },
                        ),
                    ),
                }
            },
            ContractAction::Owner { token_id } => {
                if self.registry.owners.contains_key(token_id) {
                    (self, Ok(EventModel::Owner { owner: self.registry.owners[token_id], token_id }))
                } else {
                    (self, Err(Error::UnknownToken))
                }
            },
            ContractAction::Clear { key } => {
                if !may_evict(self.escrow, key, caller) {
                    (self, Err(Error::Unauthorized))
                } else if !self.journal.contains_key(key) {
                    (self, Err(Error::NotFound))
                } else {
                    (self.with_journal(self.journal.remove(key)), Ok(EventModel::Cleared { key }))
                }
            },
        }
    }

    /// What handling `action` for `caller` leaves behind and answers. A
    /// request with a nonce is answered from the journal where its key is
    /// filed; where it is not, it is carried out and, if it succeeds, its
    /// answer is filed. A request without a nonce is carried out.
    pub open spec fn outcome(
        self,
        caller: Address,
        action: ContractAction,
        signature_valid: bool,
    ) -> (ContractModel, Result<EventModel, Error>) {
        match nonce_of(action) {
            Some(nonce) => {
                let key = JournalKey { caller, nonce };
                if self.journal.contains_key(key) {
                    (self, Ok(self.journal[key]))
                } else {
                    let (after, answer) = self.execute(caller, action, signature_valid);
                    match answer {
                        Ok(event) => (after.with_journal(after.journal.insert(key, event)), answer),
                        Err(_) => (self, answer),
                    }
                }
            },
            None => self.execute(caller, action, signature_valid),
        }
    }
}

/// A transfer that is not answered from the journal fails with
/// `EscrowNotClosed` as long as the escrow is not closed, whatever the token
/// and whoever the caller, and changes nothing.
pub proof fn law_transfer_gated(
    contract: ContractModel,
    caller: Address,
    action: ContractAction,
    signature_valid: bool,
)
    requires
        action is Transfer,
        !contract.escrow.closed,
        !contract.journal.contains_key(JournalKey { caller, nonce: nonce_of(action).unwrap() }),
    ensures
        contract.outcome(caller, action, signature_valid) == (
            contract,
            Err::<EventModel, Error>(Error::EscrowNotClosed),
        ),
{
}

/// A request that fails changes nothing: in particular no failure is filed in
/// the journal, and the same request can be sent again under the same nonce.
pub proof fn law_failure_changes_nothing(
    contract: ContractModel,
    caller: Address,
    action: ContractAction,
    signature_valid: bool,
)
    ensures
        contract.outcome(caller, action, signature_valid).1 is Err ==> contract.outcome(
            caller,
            action,
            signature_valid,
        ).0 == contract,
{
}

/// A request with a nonce that has succeeded is answered with the same event
/// when it is delivered again, and the second delivery changes nothing,
/// whatever has become of the signature in between.
pub proof fn law_redelivery(
    contract: ContractModel,
    caller: Address,
    action: ContractAction,
    first_valid: bool,
    second_valid: bool,
)
    requires
        nonce_of(action) is Some,
        contract.outcome(caller, action, first_valid).1 is Ok,
    ensures
        ({
            let (after, answer) = contract.outcome(caller, action, first_valid);
            after.outcome(caller, action, second_valid) == (after, answer)
        }),
{
    let key = JournalKey { caller, nonce: nonce_of(action).unwrap() };
    let (after, answer) = contract.outcome(caller, action, first_valid);
    assert(after.journal.contains_key(key));
    assert(after.journal[key] == answer->Ok_0);
}

/// Handling a request keeps the contract sound: the escrow is closed exactly
/// when both parties have voted `true`, and the registry's two directions
/// agree.
pub proof fn law_outcome_keeps_wf(
    contract: ContractModel,
    caller: Address,
    action: ContractAction,
    signature_valid: bool,
)
    requires
        contract.wf(),
    ensures
        contract.outcome(caller, action, signature_valid).0.wf(),
        contract.execute(caller, action, signature_valid).0.wf(),
{
    match action {
        ContractAction::Mint { transaction_id, token_id, token_metadata } => {
            if !contract.registry.owners.contains_key(token_id) {
                crate::registry::lemma_minted_consistent(
                    contract.registry,
                    token_id,
                    token_metadata,
                    caller,
                );
            }
        },
        ContractAction::Transfer { transaction_id, token_id, from, to, sale_amount } => {
            if contract.registry.owners.contains_key(token_id) {
                crate::registry::lemma_transferred_consistent(contract.registry, token_id, to);
            }
        },
        ContractAction::Approve { transaction_id, token_id, to } => {
            crate::registry::lemma_approved_consistent(contract.registry, token_id, to);
        },
        ContractAction::DelegatedApprove { transaction_id, approval } => {
            crate::registry::lemma_approved_consistent(
                contract.registry,
                approval.token_id,
                approval.approved_operator,
            );
        },
        _ => {},
    }
}

/// Whether `verdict` is what `verify` says of the signature that `action`
/// carries: of a delegated approval, what it returns for the signer, the
/// signed message and the signature; of any other request, anything.
pub open spec fn verdict_given<F: Fn(Address, &Vec<u8>, &Vec<u8>) -> bool>(
    verify: F,
    action: ContractAction,
    verdict: bool,
) -> bool {
    match action {
        ContractAction::DelegatedApprove { transaction_id, approval } => exists|message: Vec<u8>|
            {
                &&& message@ == message_bytes(
                    approval.token_id,
                    approval.approved_operator,
                    transaction_id,
                )
                &&& #[trigger] verify.ensures(
                    (approval.signer, &message, &approval.signature),
                    verdict,
                )
            },
        _ => true,
    }
}

/// Whether a request is answered from the journal: it has a nonce, and an
/// answer is filed under the caller and that nonce.
pub open spec fn answered_from_journal(
    contract: ContractModel,
    caller: Address,
    action: ContractAction,
) -> bool {
    match nonce_of(action) {
        Some(nonce) => contract.journal.contains_key(JournalKey { caller, nonce }),
        None => false,
    }
}

/// Whether `verdict` may stand for the signature check on `action`: it is
/// what `verify` says, or the request is answered from the journal and the
/// check is not made.
pub open spec fn verdict_stands<F: Fn(Address, &Vec<u8>, &Vec<u8>) -> bool>(
    verify: F,
    contract: ContractModel,
    caller: Address,
    action: ContractAction,
    verdict: bool,
) -> bool {
    answered_from_journal(contract, caller, action) || verdict_given(verify, action, verdict)
}

/// A request that is answered from the journal changes nothing, and its
/// answer does not depend on the verdict of the signature check.
pub proof fn law_journal_answers_alone(
    contract: ContractModel,
    caller: Address,
    action: ContractAction,
    signature_valid: bool,
)
    requires
        answered_from_journal(contract, caller, action),
    ensures
        contract.outcome(caller, action, signature_valid) == (
            contract,
            Ok::<EventModel, Error>(
                contract.journal[JournalKey { caller, nonce: nonce_of(action).unwrap() }],
            ),
        ),
{
}

/// Only a delegated approval depends on the verdict of the signature check.
pub proof fn law_verdict_only_for_delegated(
    contract: ContractModel,
    caller: Address,
    action: ContractAction,
    one: bool,
    other: bool,
)
    requires
        !(action is DelegatedApprove),
    ensures
        contract.outcome(caller, action, one) == contract.outcome(caller, action, other),
{
}

/// The state of one contract. It is made once, handed to every request, and
/// changed in place.
pub struct ContractState {
    name: String,
    escrow: EscrowState,
    registry: AssetRegistry,
    journal: TransactionJournal,
    royalties: RoyaltyTable,
}

impl View for ContractState {
    type V = ContractModel;

    closed spec fn view(&self) -> ContractModel {
        ContractModel {
            name: self.name@,
            escrow: self.escrow@,
            registry: self.registry@,
            journal: self.journal@,
            royalties: self.royalties@,
        }
    }
}

/// The answer of a request as the contracts speak of it.
pub open spec fn answer_view(answer: Result<ContractEvent, Error>) -> Result<EventModel, Error> {
    match answer {
        Ok(event) => Ok(event@),
        Err(e) => Err(e),
    }
}

impl ContractState {
    /// The parts are sound.
    pub closed spec fn parts_wf(&self) -> bool {
        self.registry.wf() && self.journal.wf()
    }

    pub open spec fn wf(&self) -> bool {
        self.parts_wf() && self@.wf()
    }

    /// The tokens in the order in which they were minted.
    pub closed spec fn minted_order(&self) -> Seq<TokenId> {
        self.registry.minted_order()
    }

    /// The accounts that have ever owned a token, in the order in which they
    /// first did.
    pub closed spec fn holder_order(&self) -> Seq<Address> {
        self.registry.holder_order()
    }

    /// The keys of the journal in the order in which they were filed.
    pub closed spec fn filed_order(&self) -> Seq<JournalKey> {
        self.journal.filed()
    }

    /// The order of minting lists each registered token once and nothing
    /// else; the order of holders lists each account with a list of tokens
    /// once and nothing else; the order of filing lists each key of the
    /// journal once and nothing else.
    pub proof fn lemma_orders(&self)
        requires
            self.wf(),
        ensures
            self.minted_order().no_duplicates(),
            forall|t: TokenId|
                self.minted_order().contains(t) <==> self@.registry.owners.contains_key(t),
            self.holder_order().no_duplicates(),
            forall|a: Address|
                self.holder_order().contains(a) <==> self@.registry.holdings.contains_key(a),
            self.filed_order().no_duplicates(),
            forall|k: JournalKey| self.filed_order().contains(k) <==> self@.journal.contains_key(k),
    {
        self.registry.lemma_orders();
        self.journal.lemma_filed();
    }

    /// There are as many registered tokens as the order of minting lists.
    pub proof fn lemma_supply(&self)
        requires
            self.wf(),
        ensures
            self@.registry.owners.dom().finite(),
            self@.registry.owners.dom().len() == self.minted_order().len(),
    {
        self.registry.lemma_orders();
        let tokens = self.registry.minted_order();
        tokens.unique_seq_to_set();
        assert(tokens.to_set() =~= self@.registry.owners.dom());
    }

    /// A new contract: the escrow open between the two wallets, no token, an
    /// empty journal.
    pub fn new(config: InitContract) -> (out: Self)
        ensures
            out.wf(),
            out@ == (ContractModel {
                name: config.name@,
                escrow: EscrowModel::initial(
                    config.wallets.seller_wallet,
                    config.wallets.client_wallet,
                ),
                registry: RegistryModel::empty(),
                journal: Map::empty(),
                royalties: config.royalties@,
            }),
            out.minted_order() == Seq::<TokenId>::empty(),
            out.holder_order() == Seq::<Address>::empty(),
    {
        ContractState {
            name: config.name,
            escrow: EscrowState::new(config.wallets.seller_wallet, config.wallets.client_wallet),
            registry: AssetRegistry::new(),
            journal: TransactionJournal::new(),
            royalties: RoyaltyTable::new(config.royalties),
        }
    }

    pub fn name(&self) -> (out: &String)
        ensures
            out@ == self@.name,
    {
        &self.name
    }

    pub fn escrow(&self) -> (out: &EscrowState)
        ensures
            out@ == self@.escrow,
    {
        &self.escrow
    }

    pub fn registry(&self) -> (out: &AssetRegistry)
        requires
            self.wf(),
        ensures
            out@ == self@.registry,
            out.wf(),
            out.minted_order() == self.minted_order(),
            out.holder_order() == self.holder_order(),
    {
        &self.registry
    }

    pub fn journal(&self) -> (out: &TransactionJournal)
        requires
            self.wf(),
        ensures
            out@ == self@.journal,
            out.wf(),
            out.filed() == self.filed_order(),
    {
        &self.journal
    }

    pub fn royalties(&self) -> (out: &RoyaltyTable)
        ensures
            out@ == self@.royalties,
    {
        &self.royalties
    }

    /// Files the answer of a request that has been carried out, if it
    /// succeeded, and hands the answer on.
    fn settle(&mut self, key: JournalKey, answer: Result<ContractEvent, Error>) -> (out: Result<
        ContractEvent,
        Error,
    >)
        requires
            old(self).parts_wf(),
            !old(self)@.journal.contains_key(key),
        ensures
            final(self).parts_wf(),
            answer_view(out) == answer_view(answer),
            final(self)@ == (match answer {
                Ok(event) => old(self)@.with_journal(old(self)@.journal.insert(key, event@)),
                Err(_) => old(self)@,
            }),
            final(self).minted_order() == old(self).minted_order(),
            final(self).holder_order() == old(self).holder_order(),
    {
        match answer {
            Ok(event) => {
                let copy = event.duplicate();
                self.journal.record(key, event);
                Ok(copy)
            },
            Err(e) => Err(e),
        }
    }

    /// Handles one request of `caller`.
    ///
    /// `signature_valid` is the verdict of the signature check on a delegated
    /// approval; it is looked at for no other request. What is answered and
    /// what is changed is `outcome` of the contract before.
    pub fn dispatch(&mut self, caller: Address, action: ContractAction, signature_valid: bool) -> (out:
        Result<ContractEvent, Error>)
        requires
            old(self).wf(),
        ensures
            final(self).wf(),
            (final(self)@, answer_view(out)) == old(self)@.outcome(caller, action, signature_valid),
    {
        proof {
            law_outcome_keeps_wf(old(self)@, caller, action, signature_valid);
        }
        match action {
            ContractAction::Mint { transaction_id, token_id, token_metadata } => {
                let key = JournalKey { caller, nonce: transaction_id };
                match self.journal.lookup(key) {
                    Some(event) => Ok(event),
                    None => {
                        let answer = self.registry.mint(token_id, token_metadata, caller);
                        self.settle(key, answer)
                    },
                }
            },
            ContractAction::Transfer { transaction_id, token_id, from, to, sale_amount } => {
                let key = JournalKey { caller, nonce: transaction_id };
                match self.journal.lookup(key) {
                    Some(event) => Ok(event),
                    None => {
                        if !self.escrow.is_closed() {
                            Err(Error::EscrowNotClosed)
                        } else if !self.registry.contains(token_id) {
                            Err(Error::UnknownToken)
                        } else if !check_may_transfer(&self.registry, token_id, caller) {
                            Err(Error::Unauthorized)
                        } else {
                            let answer = self.registry.transfer(
                                token_id,
                                from,
                                to,
                                sale_amount,
                                &self.royalties,
                            );
                            self.settle(key, answer)
                        }
                    },
                }
            },
            ContractAction::Approve { transaction_id, token_id, to } => {
                let key = JournalKey { caller, nonce: transaction_id };
                match self.journal.lookup(key) {
                    Some(event) => Ok(event),
                    None => {
                        let answer = self.registry.approve(token_id, to, caller);
                        self.settle(key, answer)
                    },
                }
            },
            ContractAction::DelegatedApprove { transaction_id, approval } => {
                let key = JournalKey { caller, nonce: transaction_id };
                match self.journal.lookup(key) {
                    Some(event) => Ok(event),
                    None => {
                        let answer = self.registry.delegated_approve(&approval, signature_valid);
                        self.settle(key, answer)
                    },
                }
            },
            ContractAction::IsApproved { token_id, to } => {
                let approved = self.registry.is_approved(token_id, to);
                Ok(ContractEvent::IsApproved { to, token_id, approved })
            },
            ContractAction::AckAction { transaction_id, role, value } => {
                let key = JournalKey { caller, nonce: transaction_id };
                match self.journal.lookup(key) {
                    Some(event) => Ok(event),
                    None => {
                        let answer = match self.escrow.confirm(caller, role, value) {
                            Ok(()) => Ok(
                                ContractEvent::AckAction {
                                    role,
                                    value,
                                    closed: self.escrow.is_closed(),
                                },
                            ),
                            Err(e) => Err(e),
                        };
                        self.settle(key, answer)
                    },
                }
            },
            ContractAction::Owner { token_id } => {
                match self.registry.owner_of(token_id) {
                    Ok(owner) => Ok(ContractEvent::Owner { owner, token_id }),
                    Err(e) => Err(e),
                }
            },
            ContractAction::Clear { key } => {
                if !check_may_evict(&self.escrow, key, caller) {
                    Err(Error::Unauthorized)
                } else {
                    match self.journal.evict(key) {
                        Ok(()) => Ok(ContractEvent::Cleared { key }),
                        Err(e) => Err(e),
                    }
                }
            },
        }
    }

    /// Handles one request of `caller`, with `verify` as the signature check.
    ///
    /// For a delegated approval that is not answered from the journal,
    /// `verify` is called with the signer, the signed message and the
    /// signature, and the request is handled with its verdict. `verify` is
    /// called for no other request.
    pub fn handle<F: Fn(Address, &Vec<u8>, &Vec<u8>) -> bool>(
        &mut self,
        caller: Address,
        action: ContractAction,
        verify: F,
    ) -> (out: Result<ContractEvent, Error>)
        requires
            old(self).wf(),
            forall|signer: Address, message: &Vec<u8>, signature: &Vec<u8>|
                verify.requires((signer, message, signature)),
        ensures
            final(self).wf(),
            exists|verdict: bool|
                {
                    &&& #[trigger] verdict_stands(verify, old(self)@, caller, action, verdict)
                    &&& (final(self)@, answer_view(out)) == old(self)@.outcome(
                        caller,
                        action,
                        verdict,
                    )
                },
    {
        let verdict = match &action {
            ContractAction::DelegatedApprove { transaction_id, approval } => {
                if self.journal.contains(JournalKey { caller, nonce: *transaction_id }) {
                    false
                } else {
                    let message = signed_message(
                        approval.token_id,
                        approval.approved_operator,
                        *transaction_id,
                    );
                    let verdict = verify(approval.signer, &message, &approval.signature);
                    proof {
                        assert(verify.ensures(
                            (approval.signer, &message, &approval.signature),
                            verdict,
                        ));
                        assert(verdict_given(verify, action, verdict));
                    }
                    verdict
                }
            },
            _ => false,
        };
        assert(verdict_stands(verify, self@, caller, action, verdict));
        self.dispatch(caller, action, verdict)
    }
}

} // verus!
