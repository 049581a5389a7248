use vstd::prelude::*;
use crate::error::Error;
use crate::history::lemma_step_keeps_consistency;
use crate::history::Call;
use crate::identity::Identity;
use crate::keys::ConfigValue;
use crate::keys::DataKey;
use crate::keys::LoanDataKey;
use crate::keys::UserDataKey;
use crate::keys::UserValue;
use crate::ledger::carried_out;
use crate::ledger::Ledger;
use crate::loan::Loan;

verus! {

/// The identity and credit registry: one seat for each owner, one loan for
/// each borrower.
///
/// Every call checks its guards before it writes, so a rejected call leaves
/// the store as it was.
pub struct RWANFTcontract;

impl RWANFTcontract {
    /// Writes the configuration, once.
    pub fn initialize(env: &mut Ledger, name: String, symbol: String, admin: Identity) -> (r:
        Result<(), Error>)
        ensures
            carried_out(old(env)@.initialize(name, symbol, admin), old(env)@, r, final(env)@),
            old(env)@.consistent() ==> final(env)@.consistent(),
    {
        proof {
            if env@.consistent() {
                lemma_step_keeps_consistency(env@, Call::Initialize { name, symbol, admin });
            }
        }
        if env.instance.has(&DataKey::Admin) {
            return Err(Error::AlreadyInitialized);
        }
        env.instance.set(DataKey::Name, ConfigValue::Text(name));
        env.instance.set(DataKey::Symbol, ConfigValue::Text(symbol));
        env.instance.set(DataKey::Admin, ConfigValue::Identity(admin));
        Ok(())
    }

    /// Binds a seat number to an owner, in both directions.
    pub fn mint(env: &mut Ledger, to: Identity, seat_num: u32) -> (r: Result<(), Error>)
        ensures
            carried_out(old(env)@.mint(to, seat_num), old(env)@, r, final(env)@),
            old(env)@.consistent() ==> final(env)@.consistent(),
    {
        proof {
            if env@.consistent() {
                lemma_step_keeps_consistency(env@, Call::Mint { to, seat_num });
            }
        }
        if env.bindings.has(&UserDataKey::TokenOwner(seat_num)) {
            return Err(Error::SeatAlreadyMinted);
        }
        if env.bindings.has(&UserDataKey::Seat(to)) {
            return Err(Error::OwnerAlreadyHasSeat);
        }
        env.bindings.set(UserDataKey::TokenOwner(seat_num), UserValue::Owner(to));
        env.bindings.set(UserDataKey::Seat(to), UserValue::SeatNumber(seat_num));
        Ok(())
    }

    /// The owner of a seat number.
    pub fn mint_token_owner(env: &Ledger, seat_num: u32) -> (r: Result<Identity, Error>)
        ensures
            r == env@.token_owner(seat_num),
    {
        match env.bindings.get(&UserDataKey::TokenOwner(seat_num)) {
            Some(UserValue::Owner(owner)) => Ok(*owner),
            _ => Err(Error::NotFound),
        }
    }

    /// The seat number of an owner.
    pub fn get_seat_num(env: &Ledger, address: Identity) -> (r: Result<u32, Error>)
        ensures
            r == env@.seat_num(address),
    {
        match env.bindings.get(&UserDataKey::Seat(address)) {
            Some(UserValue::SeatNumber(seat_num)) => Ok(*seat_num),
            _ => Err(Error::NotFound),
        }
    }

    /// Opens a loan for a borrower who never had one.
    pub fn create_loan(
        env: &mut Ledger,
        borrower: Identity,
        amount: u128,
        income_percentage: u8,
        duration: u64,
    ) -> (r: Result<(), Error>)
        ensures
            carried_out(
                old(env)@.create_loan(borrower, amount, income_percentage, duration),
                old(env)@,
                r,
                final(env)@,
            ),
            old(env)@.consistent() ==> final(env)@.consistent(),
    {
        proof {
            if env@.consistent() {
                lemma_step_keeps_consistency(
                    env@,
                    Call::CreateLoan { borrower, amount, income_percentage, duration },
                );
            }
        }
        if env.loans.has(&LoanDataKey::Loan(borrower)) {
            return Err(Error::LoanAlreadyExists);
        }
        let loan = Loan::new(borrower, amount, income_percentage, duration, env.timestamp);
        env.loans.set(LoanDataKey::Loan(borrower), loan);
        Ok(())
    }

    /// Repays a borrower's loan out of an income.
    pub fn repay_loan(env: &mut Ledger, borrower: Identity, income: u128) -> (r: Result<
        (),
        Error,
    >)
        ensures
            carried_out(old(env)@.repay_loan(borrower, income), old(env)@, r, final(env)@),
            old(env)@.consistent() ==> final(env)@.consistent(),
    {
        proof {
            if env@.consistent() {
                lemma_step_keeps_consistency(env@, Call::RepayLoan { borrower, income });
            }
        }
        let loan = match env.loans.get(&LoanDataKey::Loan(borrower)) {
            Some(loan) => *loan,
            None => {
                return Err(Error::LoanNotFound);
            },
        };
        match loan.repay(income) {
            Ok(updated) => {
                env.loans.set(LoanDataKey::Loan(borrower), updated);
                Ok(())
            },
            Err(e) => Err(e),
        }
    }
}

} // verus!
