use vstd::prelude::*;
use vstd::arithmetic::div_mod::lemma_hoist_over_denominator;
use crate::error::Error;
use crate::identity::Identity;

verus! {

/// A borrower's loan record.
///
/// `amount` is the principal still owed while `repaid` is false; once
/// `repaid` is true the record is closed and `amount` keeps the principal
/// that the closing repayment met.
#[derive(Clone, Copy, Debug, PartialEq, Eq)]
pub struct Loan {
    pub borrower: Identity,
    pub amount: u128,
    pub income_percentage: u8,
    pub duration: u64,
    pub start_time: u64,
    pub repaid: bool,
}

/// The repayment that an income owes at a percentage: the percentage of the
/// income, rounded down. It may exceed every `u128`.
pub open spec fn repayment_due(income: u128, income_percentage: u8) -> nat {
    (income as nat * income_percentage as nat) / 100
}

/// The repayment that an income owes, or `None` where it exceeds `u128::MAX`.
pub fn checked_repayment(income: u128, income_percentage: u8) -> (r: Option<u128>)
    ensures
        r == (if repayment_due(income, income_percentage) <= u128::MAX {
            Some(repayment_due(income, income_percentage) as u128)
        } else {
            None
        }),
{
    let hundreds: u128 = income / 100;
    let rest: u128 = income % 100;
    let percentage: u128 = income_percentage as u128;
    assert(rest * percentage <= 99 * 255) by (nonlinear_arith)
        requires
            rest <= 99,
            percentage <= 255,
    ;
    let from_rest: u128 = rest * percentage / 100;
    proof {
        let whole = hundreds as int * percentage as int;
        assert(income as int * percentage as int == rest as int * percentage as int + whole * 100)
            by (nonlinear_arith)
            requires
                income as int == 100 * hundreds as int + rest as int,
                whole == hundreds as int * percentage as int,
        ;
        lemma_hoist_over_denominator(rest as int * percentage as int, whole, 100);
        assert(repayment_due(income, income_percentage) == from_rest as int + whole);
    }
    match hundreds.checked_mul(percentage) {
        Some(from_hundreds) => from_hundreds.checked_add(from_rest),
        None => None,
    }
}

impl Loan {
    /// A fresh record: nothing repaid yet.
    pub fn new(
        borrower: Identity,
        amount: u128,
        income_percentage: u8,
        duration: u64,
        start_time: u64,
    ) -> (loan: Loan)
        ensures
            loan == (Loan {
                borrower,
                amount,
                income_percentage,
                duration,
                start_time,
                repaid: false,
            }),
    {
        Loan { borrower, amount, income_percentage, duration, start_time, repaid: false }
    }

    /// The record after a repayment out of `income`: closed where the
    /// repayment due meets the principal, else with the principal reduced
    /// by it.
    pub open spec fn after_repayment(self, income: u128) -> Loan {
        let due = repayment_due(income, self.income_percentage);
        if due >= self.amount {
            Loan { repaid: true, ..self }
        } else {
            Loan { amount: (self.amount - due) as u128, ..self }
        }
    }

    /// What a repayment out of `income` makes of the record: rejected on a
    /// closed record, else the record after the repayment.
    pub open spec fn repayment_outcome(self, income: u128) -> Result<Loan, Error> {
        if self.repaid {
            Err(Error::LoanAlreadyRepaid)
        } else {
            Ok(self.after_repayment(income))
        }
    }

    /// Applies a repayment out of `income` to the record.
    pub fn repay(self, income: u128) -> (r: Result<Loan, Error>)
        ensures
            r == self.repayment_outcome(income),
    {
        if self.repaid {
            return Err(Error::LoanAlreadyRepaid);
        }
        let mut loan = self;
        match checked_repayment(income, self.income_percentage) {
            Some(due) => {
                if due >= loan.amount {
                    loan.repaid = true;
                } else {
                    loan.amount = loan.amount - due;
                }
            },
            None => {
                loan.repaid = true;
            },
        }
        Ok(loan)
    }
}

} // verus!
