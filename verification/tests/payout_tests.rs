use ack_escrow::payout::{split, Payout, Royalty, RoyaltyTable};
use ack_escrow::types::{Address, Error};

fn addr(n: u128) -> Address {
    Address::new(0, n)
}

fn amounts(payouts: &Vec<Payout>) -> Vec<u128> {
    payouts.iter().map(|p| p.amount).collect()
}

#[test]
fn split_gives_remainder_to_last_payee() {
    let table = RoyaltyTable::new(vec![
        Royalty { payee: addr(1), basis_points: 5000 },
        Royalty { payee: addr(2), basis_points: 3000 },
        Royalty { payee: addr(3), basis_points: 2000 },
    ]);
    let payouts = split(101, &table).unwrap();
    assert_eq!(
        payouts,
        vec![
            Payout { account: addr(1), amount: 50 },
            Payout { account: addr(2), amount: 30 },
            Payout { account: addr(3), amount: 21 },
        ]
    );
    assert_eq!(amounts(&payouts).iter().sum::<u128>(), 101);
}

#[test]
fn split_rejects_table_over_the_whole() {
    let table = RoyaltyTable::new(vec![
        Royalty { payee: addr(1), basis_points: 6000 },
        Royalty { payee: addr(2), basis_points: 4001 },
    ]);
    assert!(!table.is_valid());
    assert_eq!(split(100, &table), Err(Error::InvalidTable));
    assert_eq!(split(0, &table), Err(Error::InvalidTable));
}

#[test]
fn split_accepts_exactly_the_whole() {
    let table = RoyaltyTable::new(vec![
        Royalty { payee: addr(1), basis_points: 9999 },
        Royalty { payee: addr(2), basis_points: 1 },
    ]);
    assert!(table.is_valid());
    assert_eq!(amounts(&split(20000, &table).unwrap()), vec![19998, 2]);
    assert_eq!(amounts(&split(3, &table).unwrap()), vec![2, 1]);
}

#[test]
fn split_conserves_the_amount_when_the_table_is_partial() {
    // the table hands out 35%; the last payee receives the rest
    let table = RoyaltyTable::new(vec![
        Royalty { payee: addr(1), basis_points: 2500 },
        Royalty { payee: addr(2), basis_points: 1000 },
    ]);
    assert_eq!(amounts(&split(1000, &table).unwrap()), vec![250, 750]);
    assert_eq!(amounts(&split(7, &table).unwrap()), vec![1, 6]);
}

#[test]
fn split_with_one_payee_pays_everything_to_it() {
    let table = RoyaltyTable::new(vec![Royalty { payee: addr(9), basis_points: 1 }]);
    assert_eq!(split(12345, &table), Ok(vec![Payout { account: addr(9), amount: 12345 }]));
}

#[test]
fn split_over_an_empty_table_pays_nobody() {
    let table = RoyaltyTable::new(Vec::new());
    assert!(table.is_valid());
    assert_eq!(split(500, &table), Ok(Vec::new()));
}

#[test]
fn split_of_the_largest_amount_does_not_overflow() {
    let table = RoyaltyTable::new(vec![
        Royalty { payee: addr(1), basis_points: 3333 },
        Royalty { payee: addr(2), basis_points: 3333 },
        Royalty { payee: addr(3), basis_points: 3334 },
    ]);
    let payouts = split(u128::MAX, &table).unwrap();
    let third = u128::MAX / 10000 * 3333 + (u128::MAX % 10000) * 3333 / 10000;
    assert_eq!(payouts[0].amount, third);
    assert_eq!(payouts[1].amount, third);
    assert_eq!(payouts[2].amount, u128::MAX - 2 * third);
    // 340282366920938463463374607431768211455 * 3333 / 10000, rounded down
    assert_eq!(third, 113416112894748789872342756657008344877);
}

#[test]
fn split_of_zero_is_all_zeros() {
    let table = RoyaltyTable::new(vec![
        Royalty { payee: addr(1), basis_points: 5000 },
        Royalty { payee: addr(2), basis_points: 5000 },
    ]);
    assert_eq!(amounts(&split(0, &table).unwrap()), vec![0, 0]);
}

#[test]
fn split_with_many_small_lines_stops_counting_past_the_whole() {
    let lines: Vec<Royalty> = (0..70_000u128)
        .map(|n| Royalty { payee: addr(n), basis_points: u16::MAX })
        .collect();
    let table = RoyaltyTable::new(lines);
    assert_eq!(table.len(), 70_000);
    assert_eq!(split(1, &table), Err(Error::InvalidTable));
}

#[test]
fn table_entries_keep_their_order() {
    let table = RoyaltyTable::new(vec![
        Royalty { payee: addr(4), basis_points: 10 },
        Royalty { payee: addr(2), basis_points: 20 },
    ]);
    assert_eq!(table.entry(0), Royalty { payee: addr(4), basis_points: 10 });
    assert_eq!(table.entry(1), Royalty { payee: addr(2), basis_points: 20 });
}
