use vstd::prelude::*;
use crate::error::Error;
use crate::identity::Identity;
use crate::keys::ConfigValue;
use crate::keys::DataKey;
use crate::keys::LoanDataKey;
use crate::keys::UserDataKey;
use crate::keys::UserValue;
use crate::loan::Loan;
use crate::table::Table;

verus! {

/// The registry's durable store and clock.
///
/// The instance scope holds the configuration; the persistent scope holds
/// the seat bindings and the loan records, each family under keys of its
/// own type, so that no two records share a key.
pub struct Ledger {
    /// Instance scope: name, symbol and administrator.
    pub instance: Table<DataKey, ConfigValue>,
    /// Persistent scope: seat bindings, in both directions.
    pub bindings: Table<UserDataKey, UserValue>,
    /// Persistent scope: one loan record for each borrower.
    pub loans: Table<LoanDataKey, Loan>,
    /// The current time, which a new loan takes as its start.
    pub timestamp: u64,
}

/// What a [`Ledger`] holds, as maps.
pub struct LedgerView {
    pub instance: Map<DataKey, ConfigValue>,
    pub bindings: Map<UserDataKey, UserValue>,
    pub loans: Map<LoanDataKey, Loan>,
    pub timestamp: u64,
}

impl View for Ledger {
    type V = LedgerView;

    open spec fn view(&self) -> LedgerView {
        LedgerView {
            instance: self.instance@,
            bindings: self.bindings@,
            loans: self.loans@,
            timestamp: self.timestamp,
        }
    }
}

impl LedgerView {
    /// The store of a fresh deployment at time 0.
    pub open spec fn empty() -> LedgerView {
        LedgerView {
            instance: Map::empty(),
            bindings: Map::empty(),
            loans: Map::empty(),
            timestamp: 0,
        }
    }

    /// Whether the store holds `owner` as the owner of `seat_num`, in both
    /// directions.
    pub open spec fn binds(self, owner: Identity, seat_num: u32) -> bool {
        &&& self.bindings.contains_key(UserDataKey::TokenOwner(seat_num))
        &&& self.bindings[UserDataKey::TokenOwner(seat_num)] == UserValue::Owner(owner)
        &&& self.bindings.contains_key(UserDataKey::Seat(owner))
        &&& self.bindings[UserDataKey::Seat(owner)] == UserValue::SeatNumber(seat_num)
    }

    /// The store's invariant.
    ///
    /// The configuration is there whole or not at all. Every binding is
    /// held in both directions, so a seat has at most one owner and an owner
    /// at most one seat. Every loan stands under its own borrower.
    pub open spec fn consistent(self) -> bool {
        &&& self.instance.contains_key(DataKey::Admin) ==> {
            &&& self.instance.contains_key(DataKey::Name)
            &&& self.instance.contains_key(DataKey::Symbol)
            &&& self.instance[DataKey::Name] is Text
            &&& self.instance[DataKey::Symbol] is Text
            &&& self.instance[DataKey::Admin] is Identity
        }
        &&& !self.instance.contains_key(DataKey::Admin) ==> {
            &&& !self.instance.contains_key(DataKey::Name)
            &&& !self.instance.contains_key(DataKey::Symbol)
        }
        &&& forall|seat_num: u32| #[trigger]
            self.bindings.contains_key(UserDataKey::TokenOwner(seat_num))
                ==> exists|owner: Identity| #[trigger] self.binds(owner, seat_num)
        &&& forall|owner: Identity| #[trigger]
            self.bindings.contains_key(UserDataKey::Seat(owner))
                ==> exists|seat_num: u32| #[trigger] self.binds(owner, seat_num)
        &&& forall|borrower: Identity| #[trigger]
            self.loans.contains_key(LoanDataKey::Loan(borrower))
                ==> self.loans[LoanDataKey::Loan(borrower)].borrower == borrower
    }

    /// What `initialize` makes of the store: rejected once an administrator
    /// is there, else the three configuration entries written.
    pub open spec fn initialize(self, name: String, symbol: String, admin: Identity) -> Result<
        LedgerView,
        Error,
    > {
        if self.instance.contains_key(DataKey::Admin) {
            Err(Error::AlreadyInitialized)
        } else {
            Ok(
                LedgerView {
                    instance: self.instance.insert(DataKey::Name, ConfigValue::Text(name)).insert(
                        DataKey::Symbol,
                        ConfigValue::Text(symbol),
                    ).insert(DataKey::Admin, ConfigValue::Identity(admin)),
                    ..self
                },
            )
        }
    }

    /// What `mint` makes of the store: rejected where the seat has an entry,
    /// then where the identity has one, else both directions written.
    pub open spec fn mint(self, to: Identity, seat_num: u32) -> Result<LedgerView, Error> {
        if self.bindings.contains_key(UserDataKey::TokenOwner(seat_num)) {
            Err(Error::SeatAlreadyMinted)
        } else if self.bindings.contains_key(UserDataKey::Seat(to)) {
            Err(Error::OwnerAlreadyHasSeat)
        } else {
            Ok(
                LedgerView {
                    bindings: self.bindings.insert(
                        UserDataKey::TokenOwner(seat_num),
                        UserValue::Owner(to),
                    ).insert(UserDataKey::Seat(to), UserValue::SeatNumber(seat_num)),
                    ..self
                },
            )
        }
    }

    /// The owner bound to a seat number.
    pub open spec fn token_owner(self, seat_num: u32) -> Result<Identity, Error> {
        let key = UserDataKey::TokenOwner(seat_num);
        if self.bindings.contains_key(key) {
            match self.bindings[key] {
                UserValue::Owner(owner) => Ok(owner),
                UserValue::SeatNumber(_) => Err(Error::NotFound),
            }
        } else {
            Err(Error::NotFound)
        }
    }

    /// The seat number bound to an identity.
    pub open spec fn seat_num(self, address: Identity) -> Result<u32, Error> {
        let key = UserDataKey::Seat(address);
        if self.bindings.contains_key(key) {
            match self.bindings[key] {
                UserValue::SeatNumber(seat_num) => Ok(seat_num),
                UserValue::Owner(_) => Err(Error::NotFound),
            }
        } else {
            Err(Error::NotFound)
        }
    }

    /// What `create_loan` makes of the store: rejected where the borrower has
    /// a record, open or repaid, else a fresh record that starts now.
    pub open spec fn create_loan(
        self,
        borrower: Identity,
        amount: u128,
        income_percentage: u8,
        duration: u64,
    ) -> Result<LedgerView, Error> {
        let key = LoanDataKey::Loan(borrower);
        if self.loans.contains_key(key) {
            Err(Error::LoanAlreadyExists)
        } else {
            Ok(
                LedgerView {
                    loans: self.loans.insert(
                        key,
                        Loan {
                            borrower,
                            amount,
                            income_percentage,
                            duration,
                            start_time: self.timestamp,
                            repaid: false,
                        },
                    ),
                    ..self
                },
            )
        }
    }

    /// What `repay_loan` makes of the store: rejected where the borrower has
    /// no record or a repaid one, else the record replaced by the one after
    /// the repayment.
    pub open spec fn repay_loan(self, borrower: Identity, income: u128) -> Result<
        LedgerView,
        Error,
    > {
        let key = LoanDataKey::Loan(borrower);
        if !self.loans.contains_key(key) {
            Err(Error::LoanNotFound)
        } else {
            match self.loans[key].repayment_outcome(income) {
                Ok(loan) => Ok(LedgerView { loans: self.loans.insert(key, loan), ..self }),
                Err(e) => Err(e),
            }
        }
    }
}

/// Whether a call did what was expected of it: on `Ok` the store became the
/// expected one, on `Err` the call returned that error and left the store as
/// it was.
pub open spec fn carried_out(
    expected: Result<LedgerView, Error>,
    before: LedgerView,
    result: Result<(), Error>,
    after: LedgerView,
) -> bool {
    match expected {
        Ok(next) => result == Ok::<(), Error>(()) && after == next,
        Err(e) => result == Err::<(), Error>(e) && after == before,
    }
}

impl Ledger {
    /// The store of a fresh deployment, at time 0.
    pub fn new() -> (env: Ledger)
        ensures
            env@ == LedgerView::empty(),
            env@.consistent(),
    {
        Ledger { instance: Table::new(), bindings: Table::new(), loans: Table::new(), timestamp: 0 }
    }
}

impl Default for Ledger {
    /// The store of a fresh deployment, at time 0.
    fn default() -> (env: Ledger)
        ensures
            env@ == LedgerView::empty(),
            env@.consistent(),
    {
        Ledger::new()
    }
}

} // verus!
