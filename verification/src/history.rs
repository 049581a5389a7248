use vstd::prelude::*;
use crate::error::Error;
use crate::identity::Identity;
use crate::keys::ConfigValue;
use crate::keys::DataKey;
use crate::keys::LoanDataKey;
use crate::keys::UserDataKey;
use crate::keys::UserValue;
use crate::ledger::LedgerView;

verus! {

/// One thing that happens to the registry's store: a call that changes it,
/// or the clock moving.
pub enum Call {
    Initialize { name: String, symbol: String, admin: Identity },
    Mint { to: Identity, seat_num: u32 },
    CreateLoan { borrower: Identity, amount: u128, income_percentage: u8, duration: u64 },
    RepayLoan { borrower: Identity, income: u128 },
    SetTimestamp { timestamp: u64 },
}

impl LedgerView {
    /// What a call makes of the store, or why it is rejected.
    pub open spec fn outcome(self, call: Call) -> Result<LedgerView, Error> {
        match call {
            Call::Initialize { name, symbol, admin } => self.initialize(name, symbol, admin),
            Call::Mint { to, seat_num } => self.mint(to, seat_num),
            Call::CreateLoan { borrower, amount, income_percentage, duration } => self.create_loan(
                borrower,
                amount,
                income_percentage,
                duration,
            ),
            Call::RepayLoan { borrower, income } => self.repay_loan(borrower, income),
            Call::SetTimestamp { timestamp } => Ok(LedgerView { timestamp, ..self }),
        }
    }

    /// The store after a call: changed where the call is accepted, as it was
    /// where the call is rejected.
    pub open spec fn step(self, call: Call) -> LedgerView {
        match self.outcome(call) {
            Ok(next) => next,
            Err(_) => self,
        }
    }

    /// The store after a sequence of calls, each accepted or rejected.
    pub open spec fn run(self, calls: Seq<Call>) -> LedgerView
        decreases calls.len(),
    {
        if calls.len() == 0 {
            self
        } else {
            self.run(calls.drop_last()).step(calls.last())
        }
    }
}

/// A fresh store is consistent.
pub proof fn lemma_empty_is_consistent()
    ensures
        LedgerView::empty().consistent(),
{
}

/// No call breaks the store's invariant.
pub proof fn lemma_step_keeps_consistency(s: LedgerView, call: Call)
    requires
        s.consistent(),
    ensures
        s.step(call).consistent(),
{
    let next = s.step(call);
    let minted = match call {
        Call::Mint { to, seat_num } => if s.mint(to, seat_num) is Ok {
            Some((to, seat_num))
        } else {
            None
        },
        _ => None,
    };
    if minted is None {
        assert(next.bindings == s.bindings);
    }
    assert forall|n: u32| #[trigger]
        next.bindings.contains_key(UserDataKey::TokenOwner(n))
        implies exists|owner: Identity| #[trigger] next.binds(owner, n) by {
        if minted is Some && minted->Some_0.1 == n {
            assert(next.binds(minted->Some_0.0, n));
        } else {
            let owner = choose|owner: Identity| #[trigger] s.binds(owner, n);
            assert(next.binds(owner, n));
        }
    }
    assert forall|owner: Identity| #[trigger]
        next.bindings.contains_key(UserDataKey::Seat(owner))
        implies exists|n: u32| #[trigger] next.binds(owner, n) by {
        if minted is Some && minted->Some_0.0 == owner {
            assert(next.binds(owner, minted->Some_0.1));
        } else {
            let n = choose|n: u32| #[trigger] s.binds(owner, n);
            assert(next.binds(owner, n));
        }
    }
}

/// No sequence of calls breaks the store's invariant.
pub proof fn lemma_run_keeps_consistency(s: LedgerView, calls: Seq<Call>)
    requires
        s.consistent(),
    ensures
        s.run(calls).consistent(),
    decreases calls.len(),
{
    if calls.len() > 0 {
        lemma_run_keeps_consistency(s, calls.drop_last());
        lemma_step_keeps_consistency(s.run(calls.drop_last()), calls.last());
    }
}

/// Two bindings of one store share their owner exactly when they share
/// their seat: a seat has one owner and an owner one seat.
pub proof fn lemma_bindings_are_one_to_one(
    s: LedgerView,
    owner: Identity,
    seat_num: u32,
    other_owner: Identity,
    other_seat: u32,
)
    requires
        s.binds(owner, seat_num),
        s.binds(other_owner, other_seat),
    ensures
        owner == other_owner <==> seat_num == other_seat,
{
}

/// The configuration is written once: after an accepted `initialize` the
/// store holds what that call gave, every later `initialize` is rejected,
/// and no sequence of calls changes the instance scope.
pub proof fn lemma_initialize_is_final(
    s: LedgerView,
    name: String,
    symbol: String,
    admin: Identity,
    calls: Seq<Call>,
    other_name: String,
    other_symbol: String,
    other_admin: Identity,
)
    requires
        s.initialize(name, symbol, admin) is Ok,
    ensures
        ({
            let first = s.initialize(name, symbol, admin)->Ok_0;
            let later = first.run(calls);
            &&& first.initialize(other_name, other_symbol, other_admin) == Err::<
                LedgerView,
                Error,
            >(Error::AlreadyInitialized)
            &&& later.initialize(other_name, other_symbol, other_admin) == Err::<
                LedgerView,
                Error,
            >(Error::AlreadyInitialized)
            &&& later.instance == first.instance
            &&& later.instance[DataKey::Name] == ConfigValue::Text(name)
            &&& later.instance[DataKey::Symbol] == ConfigValue::Text(symbol)
            &&& later.instance[DataKey::Admin] == ConfigValue::Identity(admin)
        }),
{
    let first = s.initialize(name, symbol, admin)->Ok_0;
    lemma_instance_is_write_once(first, calls);
}

/// Once an administrator is there, no sequence of calls changes the
/// instance scope.
pub proof fn lemma_instance_is_write_once(s: LedgerView, calls: Seq<Call>)
    requires
        s.instance.contains_key(DataKey::Admin),
    ensures
        s.run(calls).instance == s.instance,
    decreases calls.len(),
{
    if calls.len() > 0 {
        lemma_instance_is_write_once(s, calls.drop_last());
    }
}

/// A binding is permanent: no sequence of calls removes or changes it.
pub proof fn lemma_bindings_are_permanent(
    s: LedgerView,
    owner: Identity,
    seat_num: u32,
    calls: Seq<Call>,
)
    requires
        s.binds(owner, seat_num),
    ensures
        s.run(calls).binds(owner, seat_num),
    decreases calls.len(),
{
    if calls.len() > 0 {
        lemma_bindings_are_permanent(s, owner, seat_num, calls.drop_last());
    }
}

/// After an accepted `mint` the seat answers with its owner and the owner
/// with its seat, whatever calls follow; and every later `mint` of that seat
/// to anyone, or of any seat to that owner, is rejected.
pub proof fn lemma_mint_is_final(
    s: LedgerView,
    owner: Identity,
    seat_num: u32,
    calls: Seq<Call>,
    other_owner: Identity,
    other_seat: u32,
)
    requires
        s.mint(owner, seat_num) is Ok,
    ensures
        ({
            let later = (s.mint(owner, seat_num)->Ok_0).run(calls);
            &&& later.token_owner(seat_num) == Ok::<Identity, Error>(owner)
            &&& later.seat_num(owner) == Ok::<u32, Error>(seat_num)
            &&& later.mint(other_owner, seat_num) == Err::<LedgerView, Error>(
                Error::SeatAlreadyMinted,
            )
            &&& later.mint(owner, other_seat) is Err
            &&& other_seat != seat_num && !later.bindings.contains_key(
                UserDataKey::TokenOwner(other_seat),
            ) ==> later.mint(owner, other_seat) == Err::<LedgerView, Error>(
                Error::OwnerAlreadyHasSeat,
            )
        }),
{
    let minted = s.mint(owner, seat_num)->Ok_0;
    assert(minted.binds(owner, seat_num));
    lemma_bindings_are_permanent(minted, owner, seat_num, calls);
}

/// A loan record only moves forward: no sequence of calls removes it,
/// raises its principal, reopens it once repaid, or changes its terms.
pub proof fn lemma_loans_move_forward(s: LedgerView, borrower: Identity, calls: Seq<Call>)
    requires
        s.loans.contains_key(LoanDataKey::Loan(borrower)),
    ensures
        ({
            let before = s.loans[LoanDataKey::Loan(borrower)];
            let later = s.run(calls);
            let after = later.loans[LoanDataKey::Loan(borrower)];
            &&& later.loans.contains_key(LoanDataKey::Loan(borrower))
            &&& after.amount <= before.amount
            &&& before.repaid ==> after == before
            &&& after.borrower == before.borrower
            &&& after.income_percentage == before.income_percentage
            &&& after.duration == before.duration
            &&& after.start_time == before.start_time
        }),
    decreases calls.len(),
{
    if calls.len() > 0 {
        lemma_loans_move_forward(s, borrower, calls.drop_last());
    }
}

/// A repaid loan takes no further repayment, whatever calls came between.
pub proof fn lemma_repaid_is_final(
    s: LedgerView,
    borrower: Identity,
    calls: Seq<Call>,
    income: u128,
)
    requires
        s.loans.contains_key(LoanDataKey::Loan(borrower)),
        s.loans[LoanDataKey::Loan(borrower)].repaid,
    ensures
        s.run(calls).repay_loan(borrower, income) == Err::<LedgerView, Error>(
            Error::LoanAlreadyRepaid,
        ),
{
    lemma_loans_move_forward(s, borrower, calls);
}

/// A borrower gets one loan: after an accepted `create_loan`, every later
/// `create_loan` for that borrower is rejected, whatever calls came between
/// and whether or not the loan was repaid.
pub proof fn lemma_one_loan_per_borrower(
    s: LedgerView,
    borrower: Identity,
    amount: u128,
    income_percentage: u8,
    duration: u64,
    calls: Seq<Call>,
    other_amount: u128,
    other_percentage: u8,
    other_duration: u64,
)
    requires
        s.create_loan(borrower, amount, income_percentage, duration) is Ok,
    ensures
        (s.create_loan(borrower, amount, income_percentage, duration)->Ok_0).run(
            calls,
        ).create_loan(borrower, other_amount, other_percentage, other_duration) == Err::<
            LedgerView,
            Error,
        >(Error::LoanAlreadyExists),
{
    let created = s.create_loan(borrower, amount, income_percentage, duration)->Ok_0;
    lemma_loans_move_forward(created, borrower, calls);
}

} // verus!
