//! What a request is answered with.

use vstd::prelude::*;
use crate::escrow::Role;
use crate::payout::Payout;
use crate::types::{Address, TokenId};

verus! {

/// A token has passed from one account to another. A mint is a transfer from
/// the zero address.
#[derive(Clone, Copy, PartialEq, Eq, Structural, Debug)]
pub struct NFTTransfer {
    pub from: Address,
    pub to: Address,
    pub token_id: TokenId,
}

/// A token has been sold: it has passed from one account to another, and the
/// sale amount is split as listed.
#[derive(PartialEq, Eq, Debug)]
pub struct NFTTransferPayout {
    pub from: Address,
    pub to: Address,
    pub token_id: TokenId,
    pub payouts: Vec<Payout>,
}

/// An owner has approved an operator for a token.
#[derive(Clone, Copy, PartialEq, Eq, Structural, Debug)]
pub struct NFTApproval {
    pub owner: Address,
    pub approved_account: Address,
    pub token_id: TokenId,
}

/// The key under which the journal files a request: who sent it, and the
/// nonce the sender gave it.
#[derive(Clone, Copy, PartialEq, Eq, Structural, Debug)]
pub struct JournalKey {
    pub caller: Address,
    pub nonce: u64,
}

/// The answer to a request that was carried out.
#[derive(PartialEq, Eq, Debug)]
pub enum ContractEvent {
    Transfer(NFTTransfer),
    TransferPayout(NFTTransferPayout),
    Approval(NFTApproval),
    /// The answer to the question whether `to` may move the token.
    IsApproved { to: Address, token_id: TokenId, approved: bool },
    /// A vote has been cast; `closed` says whether the escrow is closed now.
    AckAction { role: Role, value: bool, closed: bool },
    Owner { owner: Address, token_id: TokenId },
    /// The journal has let go of what it held under `key`.
    Cleared { key: JournalKey },
}

/// An answer as the contracts speak of it.
pub enum EventModel {
    Transfer(NFTTransfer),
    TransferPayout { from: Address, to: Address, token_id: TokenId, payouts: Seq<Payout> },
    Approval(NFTApproval),
    IsApproved { to: Address, token_id: TokenId, approved: bool },
    AckAction { role: Role, value: bool, closed: bool },
    Owner { owner: Address, token_id: TokenId },
    Cleared { key: JournalKey },
}

impl View for ContractEvent {
    type V = EventModel;

    open spec fn view(&self) -> EventModel {
        match *self {
            ContractEvent::Transfer(t) => EventModel::Transfer(t),
            ContractEvent::TransferPayout(t) => EventModel::TransferPayout {
                from: t.from,
                to: t.to,
                token_id: t.token_id,
                payouts: t.payouts@,
            },
            ContractEvent::Approval(a) => EventModel::Approval(a),
            ContractEvent::IsApproved { to, token_id, approved } => EventModel::IsApproved {
                to,
                token_id,
                approved,
            },
            ContractEvent::AckAction { role, value, closed } => EventModel::AckAction {
                role,
                value,
                closed,
            },
            ContractEvent::Owner { owner, token_id } => EventModel::Owner { owner, token_id },
            ContractEvent::Cleared { key } => EventModel::Cleared { key },
        }
    }
}

/// A copy of a list of payouts, line by line.
pub fn copy_payouts(payouts: &Vec<Payout>) -> (out: Vec<Payout>)
    ensures
        out@ == payouts@,
{
    let n = payouts.len();
    let mut out: Vec<Payout> = Vec::new();
    let mut i: usize = 0;
    while i < n
        invariant
            n == payouts@.len(),
            0 <= i <= n,
            out@ == payouts@.take(i as int),
        decreases n - i,
    {
        out.push(payouts[i]);
        proof {
            assert(payouts@.take(i + 1) =~= payouts@.take(i as int).push(payouts@[i as int]));
        }
        i = i + 1;
    }
    proof {
        assert(payouts@.take(n as int) =~= payouts@);
    }
    out
}

impl ContractEvent {
    /// A copy that says the same.
    pub fn duplicate(&self) -> (out: ContractEvent)
        ensures
            out@ == self@,
    {
        match self {
            ContractEvent::Transfer(t) => ContractEvent::Transfer(*t),
            ContractEvent::TransferPayout(t) => ContractEvent::TransferPayout(
                NFTTransferPayout {
                    from: t.from,
                    to: t.to,
                    token_id: t.token_id,
                    payouts: copy_payouts(&t.payouts),
                },
            ),
            ContractEvent::Approval(a) => ContractEvent::Approval(*a),
            ContractEvent::IsApproved { to, token_id, approved } => ContractEvent::IsApproved {
                to: *to,
                token_id: *token_id,
                approved: *approved,
            },
            ContractEvent::AckAction { role, value, closed } => ContractEvent::AckAction {
                role: *role,
                value: *value,
                closed: *closed,
            },
            ContractEvent::Owner { owner, token_id } => ContractEvent::Owner {
                owner: *owner,
                token_id: *token_id,
            },
            ContractEvent::Cleared { key } => ContractEvent::Cleared { key: *key },
        }
    }
}

} // verus!
