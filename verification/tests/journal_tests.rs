use ack_escrow::events::{ContractEvent, JournalKey, NFTTransfer, NFTTransferPayout};
use ack_escrow::journal::TransactionJournal;
use ack_escrow::payout::Payout;
use ack_escrow::types::{Address, Error, TokenId};
use std::cell::Cell;

const A: Address = Address { hi: 0, lo: 1 };
const B: Address = Address { hi: 0, lo: 2 };

fn event(n: u128) -> ContractEvent {
    ContractEvent::Transfer(NFTTransfer { from: A, to: B, token_id: TokenId { hi: 0, lo: n } })
}

fn key(caller: Address, nonce: u64) -> JournalKey {
    JournalKey { caller, nonce }
}

#[test]
fn process_runs_compute_once_per_key() {
    let mut journal = TransactionJournal::new();
    let calls = Cell::new(0u32);
    let first = journal.process(key(A, 7), || {
        calls.set(calls.get() + 1);
        event(1)
    });
    let second = journal.process(key(A, 7), || {
        calls.set(calls.get() + 1);
        event(2)
    });
    assert_eq!(first, event(1));
    assert_eq!(second, event(1));
    assert_eq!(calls.get(), 1);
    assert_eq!(journal.len(), 1);
}

#[test]
fn process_tells_callers_and_nonces_apart() {
    let mut journal = TransactionJournal::new();
    assert_eq!(journal.process(key(A, 7), || event(1)), event(1));
    assert_eq!(journal.process(key(B, 7), || event(2)), event(2));
    assert_eq!(journal.process(key(A, 8), || event(3)), event(3));
    assert_eq!(journal.process(key(Address { hi: 1, lo: 1 }, 7), || event(4)), event(4));
    assert_eq!(journal.len(), 4);
    assert_eq!(journal.lookup(key(A, 7)), Some(event(1)));
    assert_eq!(journal.lookup(key(B, 7)), Some(event(2)));
    assert_eq!(journal.lookup(key(A, 8)), Some(event(3)));
    assert_eq!(journal.lookup(key(B, 8)), None);
}

#[test]
fn record_never_overwrites() {
    let mut journal = TransactionJournal::new();
    assert!(journal.record(key(A, 1), event(1)));
    assert!(!journal.record(key(A, 1), event(2)));
    assert_eq!(journal.lookup(key(A, 1)), Some(event(1)));
    assert_eq!(journal.len(), 1);
}

#[test]
fn evict_removes_one_entry_and_fails_on_absent_key() {
    let mut journal = TransactionJournal::new();
    assert_eq!(journal.evict(key(A, 1)), Err(Error::NotFound));
    assert!(journal.record(key(A, 1), event(1)));
    assert!(journal.record(key(A, 2), event(2)));
    assert!(journal.record(key(B, 1), event(3)));
    assert_eq!(journal.evict(key(A, 2)), Ok(()));
    assert_eq!(journal.evict(key(A, 2)), Err(Error::NotFound));
    assert!(journal.contains(key(A, 1)));
    assert!(!journal.contains(key(A, 2)));
    assert!(journal.contains(key(B, 1)));
    assert_eq!(journal.len(), 2);
    assert_eq!(
        journal.entries(),
        vec![(key(A, 1), event(1)), (key(B, 1), event(3))]
    );
    // an evicted key can be filed anew
    assert_eq!(journal.process(key(A, 2), || event(9)), event(9));
}

#[test]
fn journal_hands_out_copies_of_events_with_payouts() {
    let mut journal = TransactionJournal::new();
    let sale = || {
        ContractEvent::TransferPayout(NFTTransferPayout {
            from: A,
            to: B,
            token_id: TokenId { hi: 0, lo: 1 },
            payouts: vec![Payout { account: A, amount: 5 }, Payout { account: B, amount: 6 }],
        })
    };
    assert_eq!(journal.process(key(A, 1), sale), sale());
    assert_eq!(journal.lookup(key(A, 1)), Some(sale()));
    assert_eq!(sale().duplicate(), sale());
}
