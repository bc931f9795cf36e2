use ack_escrow::escrow::{EscrowState, EscrowStatus, Role, User};
use ack_escrow::guard::{check_may_evict, check_party, check_role};
use ack_escrow::events::JournalKey;
use ack_escrow::types::{Address, Error};

const SELLER: Address = Address { hi: 1, lo: 1 };
const CLIENT: Address = Address { hi: 2, lo: 2 };
const OTHER: Address = Address { hi: 3, lo: 3 };

#[test]
fn new_escrow_is_open() {
    let escrow = EscrowState::new(SELLER, CLIENT);
    assert_eq!(escrow.seller(), User { wallet: SELLER, confirmation: None });
    assert_eq!(escrow.client(), User { wallet: CLIENT, confirmation: None });
    assert_eq!(escrow.party(Role::Seller).wallet, SELLER);
    assert_eq!(escrow.party(Role::Client).wallet, CLIENT);
    assert!(!escrow.is_closed());
    assert_eq!(escrow.status(), EscrowStatus::Open);
}

#[test]
fn escrow_closes_when_both_say_yes_in_either_order() {
    let mut escrow = EscrowState::new(SELLER, CLIENT);
    assert_eq!(escrow.confirm(CLIENT, Role::Client, true), Ok(()));
    assert_eq!(escrow.status(), EscrowStatus::OneConfirmed);
    assert!(!escrow.is_closed());
    assert_eq!(escrow.confirm(SELLER, Role::Seller, true), Ok(()));
    assert_eq!(escrow.status(), EscrowStatus::Closed);
    assert!(escrow.is_closed());
}

#[test]
fn a_vote_is_cast_once() {
    let mut escrow = EscrowState::new(SELLER, CLIENT);
    assert_eq!(escrow.confirm(SELLER, Role::Seller, false), Ok(()));
    assert_eq!(escrow.status(), EscrowStatus::Rejected);
    assert_eq!(escrow.confirm(SELLER, Role::Seller, true), Err(Error::AlreadyVoted));
    assert_eq!(escrow.seller().confirmation, Some(false));
    assert_eq!(escrow.confirm(CLIENT, Role::Client, true), Ok(()));
    assert!(!escrow.is_closed());
    assert_eq!(escrow.status(), EscrowStatus::Rejected);
}

#[test]
fn closed_escrow_stays_closed() {
    let mut escrow = EscrowState::new(SELLER, CLIENT);
    assert_eq!(escrow.confirm(SELLER, Role::Seller, true), Ok(()));
    assert_eq!(escrow.confirm(CLIENT, Role::Client, true), Ok(()));
    for value in [true, false] {
        assert_eq!(escrow.confirm(SELLER, Role::Seller, value), Err(Error::AlreadyVoted));
        assert_eq!(escrow.confirm(CLIENT, Role::Client, value), Err(Error::AlreadyVoted));
        assert_eq!(escrow.confirm(OTHER, Role::Client, value), Err(Error::Unauthorized));
        assert!(escrow.is_closed());
        assert_eq!(escrow.seller().confirmation, Some(true));
        assert_eq!(escrow.client().confirmation, Some(true));
    }
}

#[test]
fn only_the_wallet_of_the_role_may_vote() {
    let mut escrow = EscrowState::new(SELLER, CLIENT);
    assert_eq!(escrow.confirm(SELLER, Role::Client, true), Err(Error::Unauthorized));
    assert_eq!(escrow.confirm(CLIENT, Role::Seller, true), Err(Error::Unauthorized));
    assert_eq!(escrow.confirm(OTHER, Role::Seller, true), Err(Error::Unauthorized));
    assert_eq!(escrow.status(), EscrowStatus::Open);
}

#[test]
fn one_wallet_in_both_roles_votes_for_each() {
    let mut escrow = EscrowState::new(SELLER, SELLER);
    assert_eq!(escrow.confirm(SELLER, Role::Seller, true), Ok(()));
    assert!(!escrow.is_closed());
    assert_eq!(escrow.confirm(SELLER, Role::Client, true), Ok(()));
    assert!(escrow.is_closed());
}

#[test]
fn role_names() {
    assert_eq!(Role::from_name(&String::from("seller")), Some(Role::Seller));
    assert_eq!(Role::from_name(&String::from("client")), Some(Role::Client));
    assert_eq!(Role::from_name(&String::from("Seller")), None);
    assert_eq!(Role::from_name(&String::from("")), None);
    assert_eq!(Role::from_name(&String::from("sellers")), None);
}

#[test]
fn a_request_that_names_no_role_is_malformed() {
    assert_eq!(Role::parse(&String::from("seller")), Ok(Role::Seller));
    assert_eq!(Role::parse(&String::from("client")), Ok(Role::Client));
    assert_eq!(Role::parse(&String::from("buyer")), Err(Error::MalformedRequest));
    assert_eq!(Role::parse(&String::from(" seller")), Err(Error::MalformedRequest));
}

#[test]
fn guard_checks_roles() {
    let escrow = EscrowState::new(SELLER, CLIENT);
    assert!(check_role(&escrow, SELLER, Role::Seller));
    assert!(!check_role(&escrow, SELLER, Role::Client));
    assert!(check_role(&escrow, CLIENT, Role::Client));
    assert!(check_party(&escrow, SELLER));
    assert!(check_party(&escrow, CLIENT));
    assert!(!check_party(&escrow, OTHER));
    let key = JournalKey { caller: OTHER, nonce: 4 };
    assert!(check_may_evict(&escrow, key, OTHER));
    assert!(check_may_evict(&escrow, key, SELLER));
    assert!(!check_may_evict(&escrow, key, Address { hi: 8, lo: 8 }));
}
