//! The confirmation state machine of the escrow.
//!
//! The seller and the client each cast one vote. The escrow closes at the
//! moment both have voted `true`; a `false` from either leaves it open for
//! good. A vote, once cast, stands.

use vstd::prelude::*;
use crate::types::{Address, Error};

verus! {

/// One party of the escrow: its wallet, and its vote once it has cast one.
#[derive(Clone, Copy, PartialEq, Eq, Debug)]
pub struct User {
    pub wallet: Address,
    pub confirmation: Option<bool>,
}

/// Which of the two parties a confirmation is cast for.
#[derive(Clone, Copy, PartialEq, Eq, Structural, Debug)]
pub enum Role {
    Seller,
    Client,
}

impl Role {
    /// The role that `name` names: `seller` or `client`, in lower case.
    pub open spec fn named(name: Seq<char>) -> Option<Role> {
        if name == "seller"@ {
            Some(Role::Seller)
        } else if name == "client"@ {
            Some(Role::Client)
        } else {
            None
        }
    }

    /// The role that `name` names, or `None` where it names none.
    pub fn from_name(name: &String) -> (out: Option<Role>)
        ensures
            out == Role::named(name@),
    {
        let seller = "seller".to_owned();
        let client = "client".to_owned();
        if *name == seller {
            Some(Role::Seller)
        } else if *name == client {
            Some(Role::Client)
        } else {
            None
        }
    }

    /// The role that a request names; a request that names none is
    /// malformed.
    pub fn parse(name: &String) -> (out: Result<Role, Error>)
        ensures
            out == (match Role::named(name@) {
                Some(role) => Ok::<Role, Error>(role),
                None => Err::<Role, Error>(Error::MalformedRequest),
            }),
    {
        match Role::from_name(name) {
            Some(role) => Ok(role),
            None => Err(Error::MalformedRequest),
        }
    }
}

/// Where the escrow stands.
#[derive(Clone, Copy, PartialEq, Eq, Structural, Debug)]
pub enum EscrowStatus {
    /// Nobody has voted.
    Open,
    /// One party has voted `true`, the other has not voted.
    OneConfirmed,
    /// Both parties have voted `true`.
    Closed,
    /// A party has voted `false`.
    Rejected,
}

/// One confirmation as it arrives: who sent it, for which role, and the vote.
pub struct Confirmation {
    pub caller: Address,
    pub role: Role,
    pub value: bool,
}

/// The escrow as the contracts speak of it.
pub struct EscrowModel {
    pub seller: User,
    pub client: User,
    pub closed: bool,
}

impl EscrowModel {
    /// The escrow before anybody has voted.
    pub open spec fn initial(seller: Address, client: Address) -> EscrowModel {
        EscrowModel {
            seller: User { wallet: seller, confirmation: None },
            client: User { wallet: client, confirmation: None },
            closed: false,
        }
    }

    pub open spec fn party(self, role: Role) -> User {
        match role {
            Role::Seller => self.seller,
            Role::Client => self.client,
        }
    }

    pub open spec fn both_confirmed(self) -> bool {
        self.seller.confirmation == Some(true) && self.client.confirmation == Some(true)
    }

    /// The escrow is closed exactly when both parties have voted `true`.
    pub open spec fn wf(self) -> bool {
        self.closed == self.both_confirmed()
    }

    /// Why a confirmation is turned down, or `None` where it is accepted: it
    /// must come from the wallet of the role, while the escrow is open, and
    /// the party must not have voted yet.
    pub open spec fn refusal(self, caller: Address, role: Role) -> Option<Error> {
        if caller != self.party(role).wallet {
            Some(Error::Unauthorized)
        } else if self.closed || self.party(role).confirmation is Some {
            Some(Error::AlreadyVoted)
        } else {
            None
        }
    }

    /// The escrow after the party of `role` has voted `value`.
    pub open spec fn voted(self, role: Role, value: bool) -> EscrowModel {
        let seller = match role {
            Role::Seller => User { wallet: self.seller.wallet, confirmation: Some(value) },
            Role::Client => self.seller,
        };
        let client = match role {
            Role::Seller => self.client,
            Role::Client => User { wallet: self.client.wallet, confirmation: Some(value) },
        };
        EscrowModel {
            seller,
            client,
            closed: seller.confirmation == Some(true) && client.confirmation == Some(true),
        }
    }

    /// The escrow after one confirmation has arrived: changed where it is
    /// accepted, as before where it is turned down.
    pub open spec fn step(self, c: Confirmation) -> EscrowModel {
        if self.refusal(c.caller, c.role) is None {
            self.voted(c.role, c.value)
        } else {
            self
        }
    }

    /// The escrow after a sequence of confirmations has arrived, first to
    /// last.
    pub open spec fn run(self, steps: Seq<Confirmation>) -> EscrowModel
        decreases steps.len(),
    {
        if steps.len() == 0 {
            self
        } else {
            self.run(steps.drop_last()).step(steps.last())
        }
    }

    pub open spec fn status(self) -> EscrowStatus {
        if self.seller.confirmation == Some(false) || self.client.confirmation == Some(false) {
            EscrowStatus::Rejected
        } else if self.both_confirmed() {
            EscrowStatus::Closed
        } else if self.seller.confirmation is Some || self.client.confirmation is Some {
            EscrowStatus::OneConfirmed
        } else {
            EscrowStatus::Open
        }
    }
}

/// Whatever confirmations arrive, in whatever order and from whomever: a
/// closed escrow stays closed, a vote that has been cast stays as it was cast,
/// and the wallets stay the same.
pub proof fn law_escrow_monotone(start: EscrowModel, steps: Seq<Confirmation>)
    ensures
        start.closed ==> start.run(steps).closed,
        start.seller.confirmation is Some ==> start.run(steps).seller.confirmation
            == start.seller.confirmation,
        start.client.confirmation is Some ==> start.run(steps).client.confirmation
            == start.client.confirmation,
        start.run(steps).seller.wallet == start.seller.wallet,
        start.run(steps).client.wallet == start.client.wallet,
    decreases steps.len(),
{
    if steps.len() > 0 {
        law_escrow_monotone(start, steps.drop_last());
    }
}

/// Whatever confirmations arrive, the escrow is closed exactly when both
/// parties have voted `true`; and once a party has voted `false` it is never
/// closed.
pub proof fn law_escrow_closes_on_agreement(start: EscrowModel, steps: Seq<Confirmation>)
    requires
        start.wf(),
    ensures
        start.run(steps).wf(),
        start.status() == EscrowStatus::Rejected ==> start.run(steps).status()
            == EscrowStatus::Rejected && !start.run(steps).closed,
    decreases steps.len(),
{
    if steps.len() > 0 {
        law_escrow_closes_on_agreement(start, steps.drop_last());
    }
}

/// The escrow of one contract.
pub struct EscrowState {
    seller: User,
    client: User,
    closed: bool,
}

impl View for EscrowState {
    type V = EscrowModel;

    closed spec fn view(&self) -> EscrowModel {
        EscrowModel { seller: self.seller, client: self.client, closed: self.closed }
    }
}

impl EscrowState {
    /// An open escrow between the two wallets.
    pub fn new(seller: Address, client: Address) -> (out: Self)
        ensures
            out@ == EscrowModel::initial(seller, client),
            out@.wf(),
    {
        EscrowState {
            seller: User { wallet: seller, confirmation: None },
            client: User { wallet: client, confirmation: None },
            closed: false,
        }
    }

    pub fn seller(&self) -> (out: User)
        ensures
            out == self@.seller,
    {
        self.seller
    }

    pub fn client(&self) -> (out: User)
        ensures
            out == self@.client,
    {
        self.client
    }

    pub fn party(&self, role: Role) -> (out: User)
        ensures
            out == self@.party(role),
    {
        match role {
            Role::Seller => self.seller,
            Role::Client => self.client,
        }
    }

    pub fn is_closed(&self) -> (out: bool)
        ensures
            out == self@.closed,
    {
        self.closed
    }

    pub fn status(&self) -> (out: EscrowStatus)
        ensures
            out == self@.status(),
    {
        let seller_yes = voted_for(self.seller.confirmation, true);
        let client_yes = voted_for(self.client.confirmation, true);
        let seller_no = voted_for(self.seller.confirmation, false);
        let client_no = voted_for(self.client.confirmation, false);
        if seller_no || client_no {
            EscrowStatus::Rejected
        } else if seller_yes && client_yes {
            EscrowStatus::Closed
        } else if self.seller.confirmation.is_some() || self.client.confirmation.is_some() {
            EscrowStatus::OneConfirmed
        } else {
            EscrowStatus::Open
        }
    }

    /// Casts the vote `value` for the party of `role`, on behalf of `caller`.
    ///
    /// Fails with `Unauthorized` when `caller` is not the wallet of that
    /// party, and with `AlreadyVoted` when the party has voted or the escrow
    /// is closed. A confirmation that fails changes nothing.
    pub fn confirm(&mut self, caller: Address, role: Role, value: bool) -> (out: Result<(), Error>)
        ensures
            match out {
                Ok(()) => old(self)@.refusal(caller, role) is None && final(self)@ == old(
                    self,
                )@.voted(role, value),
                Err(e) => old(self)@.refusal(caller, role) == Some(e) && final(self)@ == old(
                    self,
                )@,
            },
            final(self)@ == old(self)@.step(Confirmation { caller, role, value }),
            old(self)@.wf() ==> final(self)@.wf(),
    {
        let party = self.party(role);
        if caller != party.wallet {
            return Err(Error::Unauthorized);
        }
        if self.closed || party.confirmation.is_some() {
            return Err(Error::AlreadyVoted);
        }
        match role {
            Role::Seller => {
                self.seller = User { wallet: party.wallet, confirmation: Some(value) };
            },
            Role::Client => {
                self.client = User { wallet: party.wallet, confirmation: Some(value) };
            },
        }
        self.closed = voted_for(self.seller.confirmation, true) && voted_for(
            self.client.confirmation,
            true,
        );
        Ok(())
    }
}

/// Whether `vote` is a vote cast, and cast as `value`.
fn voted_for(vote: Option<bool>, value: bool) -> (out: bool)
    ensures
        out == (vote == Some(value)),
{
    match vote {
        Some(v) => v == value,
        None => false,
    }
}

} // verus!
