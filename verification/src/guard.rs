//! Who may do what: the caller of a request held against the roles of the
//! contract. Nothing here changes anything.

use vstd::prelude::*;
use crate::escrow::{EscrowModel, EscrowState, Role};
use crate::events::JournalKey;
use crate::registry::{AssetRegistry, RegistryModel};
use crate::types::{Address, TokenId};

verus! {

/// Whether `caller` is the wallet of the party of `role`.
pub open spec fn holds_role(escrow: EscrowModel, caller: Address, role: Role) -> bool {
    caller == escrow.party(role).wallet
}

/// Whether `caller` is the wallet of the seller or of the client.
pub open spec fn is_party(escrow: EscrowModel, caller: Address) -> bool {
    caller == escrow.seller.wallet || caller == escrow.client.wallet
}

/// Whether `caller` owns `token`.
pub open spec fn owns(registry: RegistryModel, token: TokenId, caller: Address) -> bool {
    registry.owners.contains_key(token) && registry.owners[token] == caller
}

/// Whether `caller` is an operator approved for `token`.
pub open spec fn is_operator(registry: RegistryModel, token: TokenId, caller: Address) -> bool {
    registry.owners.contains_key(token) && registry.approvals[token].contains(caller)
}

/// Whether `caller` may have the journal let go of what is filed under `key`:
/// it filed it, or it is a party of the escrow.
pub open spec fn may_evict(escrow: EscrowModel, key: JournalKey, caller: Address) -> bool {
    key.caller == caller || is_party(escrow, caller)
}

pub fn check_role(escrow: &EscrowState, caller: Address, role: Role) -> (out: bool)
    ensures
        out == holds_role(escrow@, caller, role),
{
    caller == escrow.party(role).wallet
}

pub fn check_party(escrow: &EscrowState, caller: Address) -> (out: bool)
    ensures
        out == is_party(escrow@, caller),
{
    caller == escrow.seller().wallet || caller == escrow.client().wallet
}

pub fn check_owner(registry: &AssetRegistry, token: TokenId, caller: Address) -> (out: bool)
    requires
        registry.wf(),
    ensures
        out == owns(registry@, token, caller),
{
    match registry.owner_of(token) {
        Ok(owner) => owner == caller,
        Err(_) => false,
    }
}

/// Whether `caller` may move `token`: as its owner, or as an operator
/// approved for it.
pub fn check_may_transfer(registry: &AssetRegistry, token: TokenId, caller: Address) -> (out: bool)
    requires
        registry.wf(),
    ensures
        out == registry@.is_approved(token, caller),
        out == (owns(registry@, token, caller) || is_operator(registry@, token, caller)),
{
    registry.is_approved(token, caller)
}

pub fn check_may_evict(escrow: &EscrowState, key: JournalKey, caller: Address) -> (out: bool)
    ensures
        out == may_evict(escrow@, key, caller),
{
    key.caller == caller || check_party(escrow, caller)
}

} // verus!
