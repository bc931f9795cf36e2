use ack_escrow::contract::DelegatedApproval;
use ack_escrow::events::{ContractEvent, NFTApproval, NFTTransfer, NFTTransferPayout};
use ack_escrow::guard::{check_may_transfer, check_owner};
use ack_escrow::payout::{Payout, Royalty, RoyaltyTable};
use ack_escrow::registry::AssetRegistry;
use ack_escrow::table::Table;
use ack_escrow::types::{Address, Error, TokenId};

const ZERO: Address = Address { hi: 0, lo: 0 };
const A: Address = Address { hi: 0, lo: 1 };
const B: Address = Address { hi: 0, lo: 2 };
const C: Address = Address { hi: 1, lo: 0 };

fn token(n: u128) -> TokenId {
    TokenId { hi: 0, lo: n }
}

fn no_royalties() -> RoyaltyTable {
    RoyaltyTable::new(Vec::new())
}

#[test]
fn table_finds_what_was_inserted() {
    let mut table: Table<u32> = Table::new();
    assert_eq!(table.len(), 0);
    assert_eq!(table.get((1, 2)), None);
    table.insert((1, 2), 10);
    table.insert((2, 1), 20);
    table.insert((0, 0), 30);
    assert_eq!(table.get((1, 2)), Some(&10));
    assert_eq!(table.get((2, 1)), Some(&20));
    assert_eq!(table.get((0, 0)), Some(&30));
    assert_eq!(table.get((2, 2)), None);
    assert!(table.contains_key((2, 1)));
    assert!(!table.contains_key((1, 1)));
    assert_eq!(table.len(), 3);
}

#[test]
fn table_replaces_in_place_and_keeps_order() {
    let mut table: Table<u32> = Table::new();
    table.insert((5, 5), 1);
    table.insert((4, 4), 2);
    table.insert((5, 5), 3);
    assert_eq!(table.len(), 2);
    assert_eq!(table.key_at(0), (5, 5));
    assert_eq!(table.key_at(1), (4, 4));
    assert_eq!(table.get((5, 5)), Some(&3));
    assert_eq!(table.get((4, 4)), Some(&2));
}

#[test]
fn table_holds_many_keys() {
    let mut table: Table<u128> = Table::new();
    for n in 0..2000u128 {
        table.insert((n % 7, n), n * 3);
    }
    assert_eq!(table.len(), 2000);
    for n in 0..2000u128 {
        assert_eq!(table.get((n % 7, n)), Some(&(n * 3)));
        assert_eq!(table.get((n % 7 + 7, n)), None);
    }
}

#[test]
fn keys_tell_the_halves_apart() {
    assert_eq!(Address::new(1, 2).to_key(), (1, 2));
    assert_eq!(TokenId::new(1, 2).to_key(), (1, 2));
    assert_eq!(Address::from_key((3, 4)), Address { hi: 3, lo: 4 });
    assert_eq!(TokenId::from_key((3, 4)), TokenId { hi: 3, lo: 4 });
    assert!(Address::zero_address().is_zero());
    assert!(!Address::new(0, 1).is_zero());
    assert!(!Address::new(1, 0).is_zero());
    let mut registry = AssetRegistry::new();
    assert!(registry.mint(TokenId { hi: 1, lo: 0 }, None, A).is_ok());
    assert!(!registry.contains(TokenId { hi: 0, lo: 1 }));
    assert_eq!(registry.owner_of(TokenId { hi: 0, lo: 1 }), Err(Error::UnknownToken));
    assert_eq!(registry.tokens_of(C), Vec::<TokenId>::new());
}

#[test]
fn identifiers_are_read_back_from_their_bytes() {
    let address = Address { hi: 0x0102_0304, lo: 0x0a0b_0c0d };
    let bytes = address.to_bytes();
    assert_eq!(bytes.len(), 32);
    assert_eq!(&bytes[..4], &[0x0d, 0x0c, 0x0b, 0x0a]);
    assert_eq!(&bytes[16..20], &[0x04, 0x03, 0x02, 0x01]);
    assert_eq!(Address::from_bytes(&bytes), Some(address));
    assert_eq!(TokenId::from_bytes(&bytes), Some(TokenId { hi: 0x0102_0304, lo: 0x0a0b_0c0d }));
    assert_eq!(TokenId { hi: u128::MAX, lo: 1 }.to_bytes()[0], 1);
    assert_eq!(TokenId { hi: u128::MAX, lo: 1 }.to_bytes()[31], 0xff);
    assert_eq!(Address::from_bytes(&bytes[..31]), None);
    assert_eq!(Address::from_bytes(&[0u8; 33]), None);
    assert_eq!(TokenId::from_bytes(&[]), None);
    assert_eq!(Address::from_bytes(&[0u8; 32]), Some(Address { hi: 0, lo: 0 }));
    let mut one = [0u8; 32];
    one[16] = 1;
    assert_eq!(Address::from_bytes(&one), Some(Address { hi: 1, lo: 0 }));
}

#[test]
fn mint_registers_once() {
    let mut registry = AssetRegistry::new();
    assert_eq!(
        registry.mint(token(1), None, A),
        Ok(ContractEvent::Transfer(NFTTransfer { from: ZERO, to: A, token_id: token(1) }))
    );
    assert_eq!(registry.mint(token(1), None, B), Err(Error::AlreadyExists));
    assert_eq!(registry.owner_of(token(1)), Ok(A));
    assert_eq!(registry.tokens_of(A), vec![token(1)]);
    assert_eq!(registry.tokens_of(B), Vec::<TokenId>::new());
    assert_eq!(registry.token_count(), 1);
    assert_eq!(registry.token_at(0), token(1));
    assert_eq!(registry.holder_count(), 1);
    assert_eq!(registry.holder_at(0), A);
}

#[test]
fn every_token_is_listed_under_its_owner_and_nobody_else() {
    let mut registry = AssetRegistry::new();
    let accounts = [A, B, C];
    for n in 0..30u128 {
        assert!(registry.mint(token(n), None, accounts[(n % 3) as usize]).is_ok());
    }
    for n in 0..30u128 {
        let from = accounts[(n % 3) as usize];
        let to = accounts[((n * 7 + 1) % 3) as usize];
        if n % 2 == 0 {
            assert!(registry.transfer(token(n), from, to, None, &no_royalties()).is_ok());
        }
    }
    let mut listed = 0;
    for n in 0..30u128 {
        let owner = registry.owner_of(token(n)).unwrap();
        for account in accounts {
            let held = registry.tokens_of(account);
            let times = held.iter().filter(|t| **t == token(n)).count();
            assert_eq!(times, if account == owner { 1 } else { 0 });
        }
        listed += 1;
    }
    assert_eq!(listed, 30);
    let total: usize = accounts.iter().map(|a| registry.balance_of(*a)).sum();
    assert_eq!(total, 30);
    assert_eq!(registry.token_count(), 30);
}

#[test]
fn transfer_moves_token_to_the_end_of_the_new_list() {
    let mut registry = AssetRegistry::new();
    for n in 1..=3 {
        assert!(registry.mint(token(n), None, A).is_ok());
    }
    assert!(registry.mint(token(4), None, B).is_ok());
    assert_eq!(
        registry.transfer(token(2), A, B, None, &no_royalties()),
        Ok(ContractEvent::Transfer(NFTTransfer { from: A, to: B, token_id: token(2) }))
    );
    assert_eq!(registry.tokens_of(A), vec![token(1), token(3)]);
    assert_eq!(registry.tokens_of(B), vec![token(4), token(2)]);
    assert_eq!(registry.owner_of(token(2)), Ok(B));
    // to oneself: the token goes to the end of the same list
    assert!(registry.transfer(token(1), A, A, None, &no_royalties()).is_ok());
    assert_eq!(registry.tokens_of(A), vec![token(3), token(1)]);
    assert_eq!(registry.owner_of(token(1)), Ok(A));
    assert_eq!(registry.balance_of(A), 2);
    assert_eq!(registry.balance_of(B), 2);
}

#[test]
fn transfer_refusals() {
    let mut registry = AssetRegistry::new();
    assert!(registry.mint(token(1), None, A).is_ok());
    let over = RoyaltyTable::new(vec![Royalty { payee: C, basis_points: 10001 }]);
    assert_eq!(registry.transfer(token(2), A, B, None, &over), Err(Error::UnknownToken));
    assert_eq!(registry.transfer(token(1), B, C, None, &over), Err(Error::NotOwner));
    assert_eq!(registry.transfer(token(1), B, ZERO, Some(1), &over), Err(Error::NotOwner));
    assert_eq!(registry.transfer(token(1), A, ZERO, Some(1), &over), Err(Error::InvalidDestination));
    assert_eq!(registry.transfer(token(1), A, B, Some(1), &over), Err(Error::InvalidTable));
    assert_eq!(registry.owner_of(token(1)), Ok(A));
    assert_eq!(registry.tokens_of(A), vec![token(1)]);
    // without a sale amount the table is not looked at
    assert!(registry.transfer(token(1), A, B, None, &over).is_ok());
}

#[test]
fn sale_lists_the_split() {
    let mut registry = AssetRegistry::new();
    assert!(registry.mint(token(1), None, A).is_ok());
    let table = RoyaltyTable::new(vec![
        Royalty { payee: C, basis_points: 250 },
        Royalty { payee: A, basis_points: 9750 },
    ]);
    assert_eq!(
        registry.transfer(token(1), A, B, Some(1001), &table),
        Ok(ContractEvent::TransferPayout(NFTTransferPayout {
            from: A,
            to: B,
            token_id: token(1),
            payouts: vec![Payout { account: C, amount: 25 }, Payout { account: A, amount: 976 }],
        }))
    );
}

#[test]
fn approve_replaces_the_operator() {
    let mut registry = AssetRegistry::new();
    assert!(registry.mint(token(1), None, A).is_ok());
    assert_eq!(registry.approve(token(2), B, A), Err(Error::UnknownToken));
    assert_eq!(registry.approve(token(1), B, B), Err(Error::Unauthorized));
    assert_eq!(
        registry.approve(token(1), B, A),
        Ok(ContractEvent::Approval(NFTApproval { owner: A, approved_account: B, token_id: token(1) }))
    );
    assert!(registry.is_approved(token(1), A));
    assert!(registry.is_approved(token(1), B));
    assert!(!registry.is_approved(token(1), C));
    assert!(registry.approve(token(1), C, A).is_ok());
    assert!(!registry.is_approved(token(1), B));
    assert!(registry.is_approved(token(1), C));
    assert_eq!(registry.approved_operators(token(1)), vec![C]);
    assert!(!registry.is_approved(token(2), A));
    assert!(check_owner(&registry, token(1), A));
    assert!(!check_owner(&registry, token(1), C));
    assert!(!check_owner(&registry, token(2), A));
    assert!(check_may_transfer(&registry, token(1), C));
    assert!(!check_may_transfer(&registry, token(1), B));
}

#[test]
fn delegated_approve_acts_for_the_signer() {
    let mut registry = AssetRegistry::new();
    assert!(registry.mint(token(1), None, A).is_ok());
    let by = |signer: Address| DelegatedApproval {
        token_id: token(1),
        approved_operator: C,
        signer,
        signature: Vec::new(),
    };
    assert_eq!(registry.delegated_approve(&by(A), false), Err(Error::BadSignature));
    assert_eq!(registry.delegated_approve(&by(B), false), Err(Error::BadSignature));
    assert_eq!(registry.delegated_approve(&by(B), true), Err(Error::Unauthorized));
    assert!(!registry.is_approved(token(1), C));
    assert_eq!(
        registry.delegated_approve(&by(A), true),
        Ok(ContractEvent::Approval(NFTApproval { owner: A, approved_account: C, token_id: token(1) }))
    );
    assert!(registry.is_approved(token(1), C));
}

#[test]
fn burn_leaves_the_record_with_nobody() {
    let mut registry = AssetRegistry::new();
    assert!(registry.mint(token(1), None, A).is_ok());
    assert!(registry.approve(token(1), B, A).is_ok());
    assert_eq!(registry.burn(token(2), A), Err(Error::UnknownToken));
    assert_eq!(registry.burn(token(1), B), Err(Error::Unauthorized));
    assert_eq!(
        registry.burn(token(1), A),
        Ok(ContractEvent::Transfer(NFTTransfer { from: A, to: ZERO, token_id: token(1) }))
    );
    assert!(registry.contains(token(1)));
    assert_eq!(registry.owner_of(token(1)), Ok(ZERO));
    assert_eq!(registry.tokens_of(A), Vec::<TokenId>::new());
    assert!(!registry.is_approved(token(1), B));
    assert_eq!(registry.mint(token(1), None, A), Err(Error::AlreadyExists));
    assert_eq!(registry.burn(token(1), A), Err(Error::Unauthorized));
}
