//! The royalty split of a sale amount.
//!
//! Each payee of the royalty table receives its share of the sale amount,
//! rounded down; what rounding leaves over goes to the last payee of the
//! table, so that the shares add up to the sale amount.

use vstd::prelude::*;
use vstd::arithmetic::div_mod::lemma_fundamental_div_mod_converse;
use crate::types::{Address, Error};

verus! {

/// Ten thousand basis points are the whole.
pub const BASIS_POINTS: u128 = 10000;

/// One line of the royalty table: who is paid, and how many basis points of
/// the sale amount.
#[derive(Clone, Copy, PartialEq, Eq, Structural, Debug)]
pub struct Royalty {
    pub payee: Address,
    pub basis_points: u16,
}

/// One line of a split: who is paid, and how much.
#[derive(Clone, Copy, PartialEq, Eq, Structural, Debug)]
pub struct Payout {
    pub account: Address,
    pub amount: u128,
}

/// The payees in the order in which they are paid. The table is fixed when the
/// contract is set up and is not changed afterwards.
pub struct RoyaltyTable {
    entries: Vec<Royalty>,
}

impl View for RoyaltyTable {
    type V = Seq<Royalty>;

    closed spec fn view(&self) -> Seq<Royalty> {
        self.entries@
    }
}

/// The basis points of a table, added up.
pub open spec fn total_points(table: Seq<Royalty>) -> int
    decreases table.len(),
{
    if table.len() == 0 {
        0
    } else {
        total_points(table.drop_last()) + table.last().basis_points
    }
}

/// A table is valid when it hands out no more than the whole.
pub open spec fn table_valid(table: Seq<Royalty>) -> bool {
    total_points(table) <= BASIS_POINTS
}

/// The share of `amount` that `basis_points` stand for, rounded down.
pub open spec fn share(amount: int, basis_points: int) -> int {
    (amount * basis_points) / (BASIS_POINTS as int)
}

/// The rounded-down shares of every payee of `table`, added up.
pub open spec fn shares_total(amount: int, table: Seq<Royalty>) -> int
    decreases table.len(),
{
    if table.len() == 0 {
        0
    } else {
        shares_total(amount, table.drop_last()) + share(amount, table.last().basis_points as int)
    }
}

/// What payee number `i` of `table` receives of `amount`: its rounded-down
/// share, and for the last payee whatever the others leave.
pub open spec fn payout_at(amount: int, table: Seq<Royalty>, i: int) -> int {
    if i == table.len() - 1 {
        amount - shares_total(amount, table.drop_last())
    } else {
        share(amount, table[i].basis_points as int)
    }
}

/// The split of `amount` over `table`, payee by payee in table order.
pub open spec fn split_of(amount: u128, table: Seq<Royalty>) -> Seq<Payout> {
    Seq::new(
        table.len(),
        |i: int| (Payout { account: table[i].payee, amount: payout_at(amount as int, table, i) as u128 }),
    )
}

/// The amounts of a split, added up.
pub open spec fn paid_total(payouts: Seq<Payout>) -> int
    decreases payouts.len(),
{
    if payouts.len() == 0 {
        0
    } else {
        paid_total(payouts.drop_last()) + payouts.last().amount
    }
}

/// A share is what is left of `amount * basis_points` after whole multiples of
/// ten thousand; it can be had from the quotient and remainder of `amount`
/// without forming the product.
proof fn lemma_share_by_parts(amount: int, basis_points: int)
    requires
        0 <= amount,
        0 <= basis_points,
    ensures
        share(amount, basis_points) == (amount / 10000) * basis_points + ((amount % 10000)
            * basis_points) / 10000,
        0 <= share(amount, basis_points),
        share(amount, basis_points) * 10000 <= amount * basis_points,
{
    let q = amount / 10000;
    let r = amount % 10000;
    let e = (r * basis_points) / 10000;
    let f = (r * basis_points) % 10000;
    assert(amount == 10000 * q + r);
    assert(r * basis_points == 10000 * e + f);
    assert(0 <= r * basis_points) by (nonlinear_arith)
        requires
            0 <= r,
            0 <= basis_points,
    ;
    assert(0 <= q * basis_points) by (nonlinear_arith)
        requires
            0 <= q,
            0 <= basis_points,
    ;
    assert(amount * basis_points == (q * basis_points + e) * 10000 + f) by (nonlinear_arith)
        requires
            amount == 10000 * q + r,
            r * basis_points == 10000 * e + f,
    ;
    lemma_fundamental_div_mod_converse(amount * basis_points, 10000, q * basis_points + e, f);
}

/// The rounded-down shares together take no more than the basis points of the
/// table allow.
proof fn lemma_shares_bounded(amount: int, table: Seq<Royalty>)
    requires
        0 <= amount,
    ensures
        0 <= shares_total(amount, table),
        0 <= total_points(table),
        shares_total(amount, table) * 10000 <= amount * total_points(table),
    decreases table.len(),
{
    if table.len() == 0 {
        assert(amount * 0 == 0);
    } else {
        let rest = table.drop_last();
        let bp = table.last().basis_points as int;
        lemma_shares_bounded(amount, rest);
        lemma_share_by_parts(amount, bp);
        assert(amount * (total_points(rest) + bp) == amount * total_points(rest) + amount * bp)
            by (nonlinear_arith);
    }
}

/// In a valid table the shares of the payees together stay within the amount.
pub proof fn lemma_shares_within_amount(amount: int, table: Seq<Royalty>)
    requires
        0 <= amount,
        table_valid(table),
    ensures
        0 <= shares_total(amount, table) <= amount,
{
    lemma_shares_bounded(amount, table);
    let s = shares_total(amount, table);
    let t = total_points(table);
    assert(s <= amount) by (nonlinear_arith)
        requires
            s * 10000 <= amount * t,
            0 <= t <= 10000,
            0 <= amount,
    ;
}

/// A table without its last payee hands out no more than the table.
proof fn lemma_prefix_valid(table: Seq<Royalty>)
    requires
        table.len() > 0,
        table_valid(table),
    ensures
        table_valid(table.drop_last()),
{
    lemma_shares_bounded(0, table.drop_last());
}

/// The amounts of the first `n` lines of a split are the rounded-down shares
/// of the first `n` payees, as long as the last payee is not among them.
proof fn lemma_paid_prefix(amount: u128, table: Seq<Royalty>, n: int)
    requires
        0 <= n < table.len(),
        table_valid(table),
    ensures
        paid_total(split_of(amount, table).take(n)) == shares_total(amount as int, table.take(n)),
        0 <= shares_total(amount as int, table.take(n)) <= shares_total(
            amount as int,
            table.drop_last(),
        ) <= amount,
    decreases n,
{
    let whole = split_of(amount, table);
    lemma_prefix_valid(table);
    lemma_shares_within_amount(amount as int, table.drop_last());
    if n == 0 {
        assert(whole.take(0).len() == 0);
        assert(table.take(0).len() == 0);
        lemma_shares_bounded(amount as int, table.drop_last());
    } else {
        lemma_paid_prefix(amount, table, n - 1);
        assert(whole.take(n).drop_last() =~= whole.take(n - 1));
        assert(table.take(n).drop_last() =~= table.take(n - 1));
        assert(whole.take(n).last() == whole[n - 1]);
        assert(table.take(n).last() == table[n - 1]);
        let bp = table[n - 1].basis_points as int;
        lemma_share_by_parts(amount as int, bp);
        lemma_shares_monotone(amount as int, table.drop_last(), n);
        assert(table.drop_last().take(n) =~= table.take(n));
    }
}

/// The shares of the first `n` payees take no more than the shares of all.
proof fn lemma_shares_monotone(amount: int, table: Seq<Royalty>, n: int)
    requires
        0 <= amount,
        0 <= n <= table.len(),
    ensures
        shares_total(amount, table.take(n)) <= shares_total(amount, table),
    decreases table.len() - n,
{
    if n == table.len() {
        assert(table.take(n) =~= table);
    } else {
        lemma_shares_monotone(amount, table, n + 1);
        assert(table.take(n + 1).drop_last() =~= table.take(n));
        lemma_share_by_parts(amount, table.take(n + 1).last().basis_points as int);
    }
}

/// Nothing is created and nothing is lost: over a valid table that names at
/// least one payee, the amounts of the split add up to the sale amount.
pub proof fn law_payout_conservation(amount: u128, table: Seq<Royalty>)
    requires
        table_valid(table),
        table.len() > 0,
    ensures
        paid_total(split_of(amount, table)) == amount,
{
    let whole = split_of(amount, table);
    let n = table.len() - 1;
    lemma_paid_prefix(amount, table, n);
    assert(whole.drop_last() =~= whole.take(n));
    assert(table.drop_last() =~= table.take(n));
}

/// Every line of a split names the payee of the same line of the table.
pub proof fn law_split_follows_table(amount: u128, table: Seq<Royalty>, i: int)
    requires
        0 <= i < table.len(),
    ensures
        split_of(amount, table).len() == table.len(),
        split_of(amount, table)[i].account == table[i].payee,
{
}

impl RoyaltyTable {
    /// A table with the given lines, in the given order. Whether it is valid
    /// is found out when it is used.
    pub fn new(entries: Vec<Royalty>) -> (out: Self)
        ensures
            out@ == entries@,
    {
        RoyaltyTable { entries }
    }

    pub fn len(&self) -> (out: usize)
        ensures
            out == self@.len(),
    {
        self.entries.len()
    }

    pub fn entry(&self, i: usize) -> (out: Royalty)
        requires
            i < self@.len(),
        ensures
            out == self@[i as int],
    {
        self.entries[i]
    }

    /// Whether the basis points of the table add up to ten thousand at most.
    pub fn is_valid(&self) -> (out: bool)
        ensures
            out == table_valid(self@),
    {
        let n = self.entries.len();
        let mut sum: u32 = 0;
        let mut i: usize = 0;
        while i < n
            invariant
                n == self.entries@.len(),
                0 <= i <= n,
                sum == total_points(self.entries@.take(i as int)),
                sum <= 10000,
            decreases n - i,
        {
            let bp: u16 = self.entries[i].basis_points;
            proof {
                assert(self.entries@.take(i + 1).drop_last() =~= self.entries@.take(i as int));
                assert(self.entries@.take(i + 1).last() == self.entries@[i as int]);
            }
            sum = sum + bp as u32;
            if sum > 10000 {
                proof {
                    lemma_points_monotone(self.entries@, i + 1);
                }
                return false;
            }
            i = i + 1;
        }
        proof {
            assert(self.entries@.take(n as int) =~= self.entries@);
        }
        true
    }
}

/// The basis points of the first `n` lines are no more than those of all.
proof fn lemma_points_monotone(table: Seq<Royalty>, n: int)
    requires
        0 <= n <= table.len(),
    ensures
        total_points(table.take(n)) <= total_points(table),
    decreases table.len() - n,
{
    if n == table.len() {
        assert(table.take(n) =~= table);
    } else {
        lemma_points_monotone(table, n + 1);
        assert(table.take(n + 1).drop_last() =~= table.take(n));
    }
}

/// The basis points of one line are no more than those of the table.
proof fn lemma_points_of_line(table: Seq<Royalty>, i: int)
    requires
        0 <= i < table.len(),
    ensures
        table[i].basis_points <= total_points(table),
{
    lemma_points_monotone(table, i + 1);
    assert(table.take(i + 1).last() == table[i]);
    lemma_shares_bounded(0, table.take(i + 1).drop_last());
}

/// Splits `sale_amount` over `table`.
///
/// Fails with `InvalidTable`, and only then, when the basis points of the
/// table add up to more than ten thousand.
pub fn split(sale_amount: u128, table: &RoyaltyTable) -> (out: Result<Vec<Payout>, Error>)
    ensures
        match out {
            Ok(payouts) => table_valid(table@) && payouts@ == split_of(sale_amount, table@),
            Err(e) => e == Error::InvalidTable && !table_valid(table@),
        },
{
    if !table.is_valid() {
        return Err(Error::InvalidTable);
    }
    let n = table.len();
    let quotient: u128 = sale_amount / BASIS_POINTS;
    let remainder: u128 = sale_amount % BASIS_POINTS;
    let mut payouts: Vec<Payout> = Vec::new();
    let mut paid: u128 = 0;
    let mut i: usize = 0;
    while i < n
        invariant
            n == table@.len(),
            0 <= i <= n,
            table_valid(table@),
            quotient == sale_amount / 10000,
            remainder == sale_amount % 10000,
            payouts@ == split_of(sale_amount, table@).take(i as int),
            i < n ==> paid == shares_total(sale_amount as int, table@.take(i as int)),
        decreases n - i,
    {
        let line = table.entry(i);
        let amount: u128 = if i == n - 1 {
            proof {
                lemma_paid_prefix(sale_amount, table@, i as int);
                assert(table@.drop_last() =~= table@.take(i as int));
            }
            sale_amount - paid
        } else {
            let bp: u128 = line.basis_points as u128;
            proof {
                lemma_points_of_line(table@, i as int);
                lemma_share_by_parts(sale_amount as int, bp as int);
                lemma_paid_prefix(sale_amount, table@, i + 1);
                assert(table@.take(i + 1).drop_last() =~= table@.take(i as int));
                assert(table@.take(i + 1).last() == table@[i as int]);
                assert(quotient * bp <= quotient * 10000) by (nonlinear_arith)
                    requires
                        0 <= bp <= 10000,
                        0 <= quotient,
                ;
                assert(remainder * bp <= 10000 * 10000) by (nonlinear_arith)
                    requires
                        0 <= bp <= 10000,
                        0 <= remainder <= 10000,
                ;
            }
            let part: u128 = quotient * bp + (remainder * bp) / BASIS_POINTS;
            paid = paid + part;
            part
        };
        payouts.push(Payout { account: line.payee, amount });
        proof {
            let whole = split_of(sale_amount, table@);
            assert(whole.take(i + 1) =~= whole.take(i as int).push(whole[i as int]));
        }
        i = i + 1;
    }
    proof {
        assert(split_of(sale_amount, table@).take(n as int) =~= split_of(sale_amount, table@));
    }
    Ok(payouts)
}

} // verus!
