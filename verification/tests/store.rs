use rwa_contracts::loan::checked_repayment;
use rwa_contracts::DataKey;
use rwa_contracts::Error;
use rwa_contracts::Identity;
use rwa_contracts::Loan;
use rwa_contracts::LoanDataKey;
use rwa_contracts::StorageKey;
use rwa_contracts::Table;
use rwa_contracts::UserDataKey;

#[test]
fn an_empty_table_has_no_key() {
    let table: Table<DataKey, u32> = Table::new();
    assert!(!table.has(&DataKey::Name));
    assert!(!table.has(&DataKey::Symbol));
    assert!(!table.has(&DataKey::Admin));
    assert_eq!(table.get(&DataKey::Admin), None);
}

#[test]
fn set_then_get() {
    let mut table: Table<UserDataKey, u32> = Table::new();
    table.set(UserDataKey::TokenOwner(1), 10);
    table.set(UserDataKey::TokenOwner(2), 20);
    table.set(UserDataKey::Seat(Identity::from_account([1; 32])), 30);

    assert_eq!(table.get(&UserDataKey::TokenOwner(1)), Some(&10));
    assert_eq!(table.get(&UserDataKey::TokenOwner(2)), Some(&20));
    assert_eq!(table.get(&UserDataKey::Seat(Identity::from_account([1; 32]))), Some(&30));
    assert_eq!(table.get(&UserDataKey::TokenOwner(3)), None);
    assert_eq!(table.get(&UserDataKey::Seat(Identity::from_account([2; 32]))), None);
}

#[test]
fn set_replaces_the_value_under_its_key_only() {
    let mut table: Table<UserDataKey, u32> = Table::new();
    table.set(UserDataKey::TokenOwner(1), 10);
    table.set(UserDataKey::TokenOwner(2), 20);
    table.set(UserDataKey::TokenOwner(1), 11);

    assert_eq!(table.get(&UserDataKey::TokenOwner(1)), Some(&11));
    assert_eq!(table.get(&UserDataKey::TokenOwner(2)), Some(&20));
    assert!(table.has(&UserDataKey::TokenOwner(1)));
}

#[test]
fn keys_of_one_family_are_told_apart() {
    let a = Identity::from_account([1; 32]);
    let b = Identity::from_account([2; 32]);

    assert!(DataKey::Name.same(&DataKey::Name));
    assert!(!DataKey::Name.same(&DataKey::Symbol));
    assert!(!DataKey::Symbol.same(&DataKey::Admin));

    assert!(UserDataKey::TokenOwner(1).same(&UserDataKey::TokenOwner(1)));
    assert!(!UserDataKey::TokenOwner(1).same(&UserDataKey::TokenOwner(2)));
    assert!(UserDataKey::Seat(a).same(&UserDataKey::Seat(a)));
    assert!(!UserDataKey::Seat(a).same(&UserDataKey::Seat(b)));
    assert!(!UserDataKey::Seat(a).same(&UserDataKey::TokenOwner(1)));
    assert!(!UserDataKey::TokenOwner(1).same(&UserDataKey::Seat(a)));

    assert!(LoanDataKey::Loan(a).same(&LoanDataKey::Loan(a)));
    assert!(!LoanDataKey::Loan(a).same(&LoanDataKey::Loan(b)));
}

#[test]
fn repayment_is_the_percentage_rounded_down() {
    assert_eq!(checked_repayment(2000, 10), Some(200));
    assert_eq!(checked_repayment(9000, 10), Some(900));
    assert_eq!(checked_repayment(199, 1), Some(1));
    assert_eq!(checked_repayment(99, 1), Some(0));
    assert_eq!(checked_repayment(1, 99), Some(0));
    assert_eq!(checked_repayment(1, 100), Some(1));
    assert_eq!(checked_repayment(3, 50), Some(1));
    assert_eq!(checked_repayment(1234, 0), Some(0));
    assert_eq!(checked_repayment(0, 255), Some(0));
    assert_eq!(checked_repayment(1000, 255), Some(2550));
}

#[test]
fn repayment_is_exact_where_the_product_overflows() {
    assert_eq!(checked_repayment(u128::MAX, 100), Some(u128::MAX));
    assert_eq!(checked_repayment(u128::MAX, 50), Some(u128::MAX / 2));
    assert_eq!(checked_repayment(u128::MAX, 1), Some(u128::MAX / 100));
    assert_eq!(
        checked_repayment(u128::MAX, 99),
        Some(u128::MAX / 100 * 99 + (u128::MAX % 100) * 99 / 100)
    );
    assert_eq!(checked_repayment(u128::MAX, 101), None);
    assert_eq!(checked_repayment(u128::MAX, 255), None);
    assert_eq!(checked_repayment(u128::MAX / 2, 200), Some(u128::MAX - 1));
    assert_eq!(checked_repayment(u128::MAX / 2 + 1, 200), None);
}

fn loan_of(amount: u128, income_percentage: u8) -> Loan {
    Loan::new(Identity::from_account([2; 32]), amount, income_percentage, 365, 17)
}

#[test]
fn a_new_loan_is_open() {
    let borrower = Identity::from_account([2; 32]);
    assert_eq!(
        Loan::new(borrower, 1000, 10, 365, 17),
        Loan { borrower, amount: 1000, income_percentage: 10, duration: 365, start_time: 17, repaid: false }
    );
}

#[test]
fn a_repayment_below_the_principal_reduces_it() {
    let loan = loan_of(1000, 10);
    assert_eq!(loan.repay(2000), Ok(Loan { amount: 800, ..loan }));
    assert_eq!(loan.repay(9999), Ok(Loan { amount: 1, ..loan }));
    assert_eq!(loan.repay(9), Ok(loan));
}

#[test]
fn a_repayment_that_meets_the_principal_closes_the_loan() {
    let loan = loan_of(1000, 10);
    assert_eq!(loan.repay(10_000), Ok(Loan { repaid: true, ..loan }));
    assert_eq!(loan.repay(10_009), Ok(Loan { repaid: true, ..loan }));
    assert_eq!(loan.repay(u128::MAX), Ok(Loan { repaid: true, ..loan }));
}

#[test]
fn a_repayment_beyond_every_principal_closes_the_loan() {
    let loan = loan_of(u128::MAX, 255);
    assert_eq!(loan.repay(u128::MAX), Ok(Loan { repaid: true, ..loan }));
    let loan = loan_of(u128::MAX, 100);
    assert_eq!(loan.repay(u128::MAX), Ok(Loan { repaid: true, ..loan }));
    assert_eq!(loan.repay(u128::MAX - 1), Ok(Loan { amount: 1, ..loan }));
}

#[test]
fn a_loan_of_nothing_closes_on_any_repayment() {
    let loan = loan_of(0, 0);
    assert_eq!(loan.repay(0), Ok(Loan { repaid: true, ..loan }));
}

#[test]
fn a_closed_loan_rejects_repayment() {
    let loan = Loan { repaid: true, ..loan_of(1000, 10) };
    assert_eq!(loan.repay(2000), Err(Error::LoanAlreadyRepaid));
    assert_eq!(loan.repay(0), Err(Error::LoanAlreadyRepaid));
}
