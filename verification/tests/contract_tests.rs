use ack_escrow::contract::{
    ContractAction, ContractState, ContractTokenMetaData, DelegatedApproval, InitContract,
};
use ack_escrow::escrow::{EscrowStatus, Role};
use ack_escrow::events::{ContractEvent, JournalKey, NFTApproval, NFTTransfer, NFTTransferPayout};
use ack_escrow::payout::{Payout, Royalty};
use ack_escrow::signing::signed_message;
use ack_escrow::types::{Address, Error, TokenId, TokenMetadata};
use std::cell::Cell;

const SELLER: Address = Address { hi: 0, lo: 1 };
const CLIENT: Address = Address { hi: 0, lo: 2 };
const OPERATOR: Address = Address { hi: 7, lo: 3 };
const STRANGER: Address = Address { hi: 9, lo: 9 };
const T1: TokenId = TokenId { hi: 0, lo: 100 };

fn contract(royalties: Vec<Royalty>) -> ContractState {
    ContractState::new(InitContract {
        name: String::from("handshake"),
        wallets: ContractTokenMetaData { client_wallet: CLIENT, seller_wallet: SELLER },
        royalties,
    })
}

fn mint(nonce: u64) -> ContractAction {
    ContractAction::Mint { transaction_id: nonce, token_id: T1, token_metadata: None }
}

fn ack(nonce: u64, role: Role, value: bool) -> ContractAction {
    ContractAction::AckAction { transaction_id: nonce, role, value }
}

fn transfer(nonce: u64, from: Address, to: Address, sale_amount: Option<u128>) -> ContractAction {
    ContractAction::Transfer { transaction_id: nonce, token_id: T1, from, to, sale_amount }
}

fn owner(state: &mut ContractState) -> Result<ContractEvent, Error> {
    state.dispatch(STRANGER, ContractAction::Owner { token_id: T1 }, false)
}

#[test]
fn transfer_succeeds_after_both_confirm() {
    let mut state = contract(Vec::new());
    assert_eq!(
        state.dispatch(SELLER, mint(1), false),
        Ok(ContractEvent::Transfer(NFTTransfer { from: Address { hi: 0, lo: 0 }, to: SELLER, token_id: T1 }))
    );
    assert_eq!(
        state.dispatch(SELLER, ack(2, Role::Seller, true), false),
        Ok(ContractEvent::AckAction { role: Role::Seller, value: true, closed: false })
    );
    assert_eq!(state.escrow().status(), EscrowStatus::OneConfirmed);
    assert_eq!(
        state.dispatch(CLIENT, ack(1, Role::Client, true), false),
        Ok(ContractEvent::AckAction { role: Role::Client, value: true, closed: true })
    );
    assert_eq!(state.escrow().status(), EscrowStatus::Closed);
    assert_eq!(
        state.dispatch(SELLER, transfer(3, SELLER, CLIENT, None), false),
        Ok(ContractEvent::Transfer(NFTTransfer { from: SELLER, to: CLIENT, token_id: T1 }))
    );
    assert_eq!(state.registry().owner_of(T1), Ok(CLIENT));
    assert_eq!(owner(&mut state), Ok(ContractEvent::Owner { owner: CLIENT, token_id: T1 }));
    assert_eq!(state.registry().tokens_of(SELLER), Vec::<TokenId>::new());
    assert_eq!(state.registry().tokens_of(CLIENT), vec![T1]);
}

#[test]
fn transfer_is_refused_after_a_no() {
    let mut state = contract(Vec::new());
    assert!(state.dispatch(SELLER, mint(1), false).is_ok());
    assert!(state.dispatch(SELLER, ack(2, Role::Seller, true), false).is_ok());
    assert_eq!(
        state.dispatch(CLIENT, ack(1, Role::Client, false), false),
        Ok(ContractEvent::AckAction { role: Role::Client, value: false, closed: false })
    );
    assert_eq!(state.escrow().status(), EscrowStatus::Rejected);
    assert!(!state.escrow().is_closed());
    assert_eq!(
        state.dispatch(SELLER, transfer(3, SELLER, CLIENT, None), false),
        Err(Error::EscrowNotClosed)
    );
    assert_eq!(state.registry().owner_of(T1), Ok(SELLER));
    // the refusal was not filed: the same nonce is refused again, not answered from the journal
    assert!(!state.journal().contains(JournalKey { caller: SELLER, nonce: 3 }));
    assert_eq!(
        state.dispatch(CLIENT, ack(4, Role::Client, true), false),
        Err(Error::AlreadyVoted)
    );
    assert_eq!(
        state.dispatch(SELLER, transfer(3, SELLER, CLIENT, None), false),
        Err(Error::EscrowNotClosed)
    );
}

#[test]
fn mint_delivered_twice_registers_once() {
    let mut state = contract(Vec::new());
    let first = state.dispatch(SELLER, mint(7), false);
    let second = state.dispatch(SELLER, mint(7), false);
    assert_eq!(
        first,
        Ok(ContractEvent::Transfer(NFTTransfer { from: Address { hi: 0, lo: 0 }, to: SELLER, token_id: T1 }))
    );
    assert_eq!(second, first);
    assert_eq!(state.registry().token_count(), 1);
    assert_eq!(state.registry().tokens_of(SELLER), vec![T1]);
    assert_eq!(state.journal().len(), 1);
    // under another nonce the same mint is a new request, and fails
    assert_eq!(state.dispatch(SELLER, mint(8), false), Err(Error::AlreadyExists));
    assert_eq!(state.registry().token_count(), 1);
    assert_eq!(state.journal().len(), 1);
}

#[test]
fn approval_is_for_the_owner_and_cleared_by_transfer() {
    let mut state = contract(Vec::new());
    assert!(state.dispatch(SELLER, mint(1), false).is_ok());
    let approve = |nonce: u64| ContractAction::Approve { transaction_id: nonce, token_id: T1, to: OPERATOR };
    assert_eq!(state.dispatch(STRANGER, approve(1), false), Err(Error::Unauthorized));
    assert!(!state.registry().is_approved(T1, OPERATOR));
    assert_eq!(
        state.dispatch(SELLER, approve(2), false),
        Ok(ContractEvent::Approval(NFTApproval { owner: SELLER, approved_account: OPERATOR, token_id: T1 }))
    );
    assert!(state.registry().is_approved(T1, OPERATOR));
    assert_eq!(state.registry().approved_operators(T1), vec![OPERATOR]);
    assert_eq!(
        state.dispatch(STRANGER, ContractAction::IsApproved { token_id: T1, to: OPERATOR }, false),
        Ok(ContractEvent::IsApproved { to: OPERATOR, token_id: T1, approved: true })
    );
    assert!(state.dispatch(SELLER, ack(3, Role::Seller, true), false).is_ok());
    assert!(state.dispatch(CLIENT, ack(1, Role::Client, true), false).is_ok());
    // the operator moves the token on the owner's behalf
    assert_eq!(
        state.dispatch(OPERATOR, transfer(1, SELLER, CLIENT, None), false),
        Ok(ContractEvent::Transfer(NFTTransfer { from: SELLER, to: CLIENT, token_id: T1 }))
    );
    assert!(!state.registry().is_approved(T1, OPERATOR));
    assert_eq!(state.registry().approved_operators(T1), Vec::<Address>::new());
    assert_eq!(
        state.dispatch(STRANGER, ContractAction::IsApproved { token_id: T1, to: OPERATOR }, false),
        Ok(ContractEvent::IsApproved { to: OPERATOR, token_id: T1, approved: false })
    );
}

#[test]
fn sale_of_101_splits_50_30_21() {
    let a = Address { hi: 1, lo: 0 };
    let b = Address { hi: 2, lo: 0 };
    let c = Address { hi: 3, lo: 0 };
    let mut state = contract(vec![
        Royalty { payee: a, basis_points: 5000 },
        Royalty { payee: b, basis_points: 3000 },
        Royalty { payee: c, basis_points: 2000 },
    ]);
    assert!(state.dispatch(SELLER, mint(1), false).is_ok());
    assert!(state.dispatch(SELLER, ack(2, Role::Seller, true), false).is_ok());
    assert!(state.dispatch(CLIENT, ack(1, Role::Client, true), false).is_ok());
    let answer = state.dispatch(SELLER, transfer(3, SELLER, CLIENT, Some(101)), false);
    assert_eq!(
        answer,
        Ok(ContractEvent::TransferPayout(NFTTransferPayout {
            from: SELLER,
            to: CLIENT,
            token_id: T1,
            payouts: vec![
                Payout { account: a, amount: 50 },
                Payout { account: b, amount: 30 },
                Payout { account: c, amount: 21 },
            ],
        }))
    );
    // delivered again, the sale is answered as before and the token does not move again
    let again = state.dispatch(SELLER, transfer(3, SELLER, CLIENT, Some(101)), false);
    assert_eq!(again, answer);
    assert_eq!(state.registry().owner_of(T1), Ok(CLIENT));
}

#[test]
fn transfer_is_gated_for_any_token_and_caller() {
    let mut state = contract(Vec::new());
    assert!(state.dispatch(SELLER, mint(1), false).is_ok());
    let unknown = TokenId { hi: 5, lo: 5 };
    for (nonce, caller) in [(10u64, SELLER), (11, CLIENT), (12, STRANGER)] {
        assert_eq!(
            state.dispatch(caller, transfer(nonce, SELLER, CLIENT, None), false),
            Err(Error::EscrowNotClosed)
        );
        assert_eq!(
            state.dispatch(
                caller,
                ContractAction::Transfer {
                    transaction_id: nonce + 100,
                    token_id: unknown,
                    from: caller,
                    to: CLIENT,
                    sale_amount: Some(5),
                },
                false
            ),
            Err(Error::EscrowNotClosed)
        );
    }
    assert_eq!(state.journal().len(), 1);
}

#[test]
fn transfer_errors_in_order() {
    let mut state = contract(vec![
        Royalty { payee: SELLER, basis_points: 9000 },
        Royalty { payee: CLIENT, basis_points: 2000 },
    ]);
    assert!(state.dispatch(SELLER, mint(1), false).is_ok());
    assert!(state.dispatch(SELLER, ack(2, Role::Seller, true), false).is_ok());
    assert!(state.dispatch(CLIENT, ack(1, Role::Client, true), false).is_ok());
    let unknown = TokenId { hi: 5, lo: 5 };
    assert_eq!(
        state.dispatch(
            SELLER,
            ContractAction::Transfer {
                transaction_id: 3,
                token_id: unknown,
                from: SELLER,
                to: CLIENT,
                sale_amount: None
            },
            false
        ),
        Err(Error::UnknownToken)
    );
    assert_eq!(
        state.dispatch(STRANGER, transfer(3, SELLER, CLIENT, None), false),
        Err(Error::Unauthorized)
    );
    assert_eq!(
        state.dispatch(SELLER, transfer(3, CLIENT, SELLER, None), false),
        Err(Error::NotOwner)
    );
    assert_eq!(
        state.dispatch(SELLER, transfer(3, SELLER, Address { hi: 0, lo: 0 }, None), false),
        Err(Error::InvalidDestination)
    );
    assert_eq!(
        state.dispatch(SELLER, transfer(3, SELLER, CLIENT, Some(10)), false),
        Err(Error::InvalidTable)
    );
    assert_eq!(state.registry().owner_of(T1), Ok(SELLER));
    // none of the failures was filed, so nonce 3 is still free
    assert_eq!(
        state.dispatch(SELLER, transfer(3, SELLER, CLIENT, None), false),
        Ok(ContractEvent::Transfer(NFTTransfer { from: SELLER, to: CLIENT, token_id: T1 }))
    );
}

#[test]
fn confirmation_from_the_wrong_wallet_is_unauthorized() {
    let mut state = contract(Vec::new());
    assert_eq!(
        state.dispatch(CLIENT, ack(1, Role::Seller, true), false),
        Err(Error::Unauthorized)
    );
    assert_eq!(
        state.dispatch(STRANGER, ack(1, Role::Client, true), false),
        Err(Error::Unauthorized)
    );
    assert_eq!(state.escrow().status(), EscrowStatus::Open);
}

#[test]
fn owner_of_unknown_token_fails() {
    let mut state = contract(Vec::new());
    assert_eq!(owner(&mut state), Err(Error::UnknownToken));
    assert_eq!(state.registry().owner_of(T1), Err(Error::UnknownToken));
    assert_eq!(
        state.dispatch(STRANGER, ContractAction::IsApproved { token_id: T1, to: SELLER }, false),
        Ok(ContractEvent::IsApproved { to: SELLER, token_id: T1, approved: false })
    );
}

#[test]
fn journal_entry_can_be_cleared_by_its_sender_or_a_party() {
    let mut state = contract(Vec::new());
    assert!(state.dispatch(STRANGER, mint(7), false).is_ok());
    let key = JournalKey { caller: STRANGER, nonce: 7 };
    assert_eq!(
        state.dispatch(OPERATOR, ContractAction::Clear { key }, false),
        Err(Error::Unauthorized)
    );
    assert_eq!(
        state.dispatch(STRANGER, ContractAction::Clear { key }, false),
        Ok(ContractEvent::Cleared { key })
    );
    assert_eq!(
        state.dispatch(SELLER, ContractAction::Clear { key }, false),
        Err(Error::NotFound)
    );
    // clearing did not undo the mint, and the nonce is free again
    assert_eq!(state.registry().owner_of(T1), Ok(STRANGER));
    assert_eq!(state.dispatch(STRANGER, mint(7), false), Err(Error::AlreadyExists));
    assert!(state.dispatch(SELLER, ack(1, Role::Seller, true), false).is_ok());
    let key = JournalKey { caller: SELLER, nonce: 1 };
    assert_eq!(
        state.dispatch(CLIENT, ContractAction::Clear { key }, false),
        Ok(ContractEvent::Cleared { key })
    );
    assert_eq!(state.journal().len(), 0);
}

#[test]
fn delegated_approval_needs_a_valid_signature() {
    let mut state = contract(Vec::new());
    assert!(state.dispatch(SELLER, mint(1), false).is_ok());
    let approval = |signer: Address| DelegatedApproval {
        token_id: T1,
        approved_operator: OPERATOR,
        signer,
        signature: vec![1, 2, 3],
    };
    let request = |nonce: u64, signer: Address| ContractAction::DelegatedApprove {
        transaction_id: nonce,
        approval: approval(signer),
    };
    assert_eq!(state.dispatch(STRANGER, request(1, SELLER), false), Err(Error::BadSignature));
    assert!(!state.registry().is_approved(T1, OPERATOR));
    assert_eq!(state.dispatch(STRANGER, request(1, CLIENT), true), Err(Error::Unauthorized));
    assert_eq!(
        state.dispatch(STRANGER, request(1, SELLER), true),
        Ok(ContractEvent::Approval(NFTApproval { owner: SELLER, approved_account: OPERATOR, token_id: T1 }))
    );
    assert!(state.registry().is_approved(T1, OPERATOR));
}

#[test]
fn handle_asks_the_verifier_about_the_signed_message() {
    let mut state = contract(Vec::new());
    assert!(state.handle(SELLER, mint(1), |_: Address, _: &Vec<u8>, _: &Vec<u8>| false).is_ok());
    let expected = signed_message(T1, OPERATOR, 5);
    let verifier = move |signer: Address, message: &Vec<u8>, signature: &Vec<u8>| {
        signer == SELLER && *message == expected && *signature == vec![42u8]
    };
    let request = |nonce: u64, signature: Vec<u8>| ContractAction::DelegatedApprove {
        transaction_id: nonce,
        approval: DelegatedApproval { token_id: T1, approved_operator: OPERATOR, signer: SELLER, signature },
    };
    // a signature over another nonce does not verify
    assert_eq!(state.handle(STRANGER, request(6, vec![42]), &verifier), Err(Error::BadSignature));
    assert_eq!(state.handle(STRANGER, request(5, vec![41]), &verifier), Err(Error::BadSignature));
    assert_eq!(
        state.handle(STRANGER, request(5, vec![42]), &verifier),
        Ok(ContractEvent::Approval(NFTApproval { owner: SELLER, approved_account: OPERATOR, token_id: T1 }))
    );
    assert!(state.registry().is_approved(T1, OPERATOR));
}

#[test]
fn handle_does_not_check_the_signature_of_an_answered_request() {
    let mut state = contract(Vec::new());
    assert!(state.dispatch(SELLER, mint(1), false).is_ok());
    let asked = Cell::new(0u32);
    let verifier = |_: Address, _: &Vec<u8>, _: &Vec<u8>| {
        asked.set(asked.get() + 1);
        true
    };
    let request = || ContractAction::DelegatedApprove {
        transaction_id: 9,
        approval: DelegatedApproval {
            token_id: T1,
            approved_operator: OPERATOR,
            signer: SELLER,
            signature: vec![0; 64],
        },
    };
    let first = state.handle(STRANGER, request(), &verifier);
    assert!(first.is_ok());
    assert_eq!(asked.get(), 1);
    assert_eq!(state.handle(STRANGER, request(), &verifier), first);
    assert_eq!(asked.get(), 1);
    // no other request asks the verifier
    assert!(state.handle(SELLER, ack(2, Role::Seller, true), &verifier).is_ok());
    assert!(state.handle(SELLER, ContractAction::Owner { token_id: T1 }, &verifier).is_ok());
    assert_eq!(asked.get(), 1);
}

#[test]
fn mint_keeps_what_was_told_of_the_token() {
    let mut state = contract(Vec::new());
    let told = TokenMetadata {
        name: String::from("deed"),
        description: String::from("a deed"),
        media: String::from("ipfs://deed"),
        reference: String::from("ref"),
    };
    let request = ContractAction::Mint {
        transaction_id: 1,
        token_id: T1,
        token_metadata: Some(told.duplicate()),
    };
    assert!(state.dispatch(SELLER, request, false).is_ok());
    assert_eq!(state.registry().metadata_of(T1), Some(&told));
    assert_eq!(state.name().as_str(), "handshake");
}
