use vstd::prelude::*;
use crate::identity::Identity;

verus! {

/// A key of the durable store: a value that can be told apart from every
/// other key of its family.
pub trait StorageKey: Sized {
    /// Whether two keys address the same entry.
    fn same(&self, other: &Self) -> (r: bool)
        ensures
            r == (*self == *other),
    ;
}

/// Keys of the instance scope: the registry's write-once configuration.
#[derive(Clone, Copy, Debug, PartialEq, Eq, Structural)]
pub enum DataKey {
    Name,
    Symbol,
    Admin,
}

/// What the instance scope holds under a [`DataKey`].
#[derive(Debug, PartialEq, Eq)]
pub enum ConfigValue {
    /// A name or a symbol.
    Text(String),
    /// The administrator.
    Identity(Identity),
}

/// Keys of the seat bindings, one family for each direction.
#[derive(Clone, Copy, Debug, PartialEq, Eq)]
pub enum UserDataKey {
    /// From a seat number to the identity that owns it.
    TokenOwner(u32),
    /// From an identity to the seat number it owns.
    Seat(Identity),
}

/// What the persistent scope holds under a [`UserDataKey`].
#[derive(Clone, Copy, Debug, PartialEq, Eq)]
pub enum UserValue {
    /// The owner of a seat.
    Owner(Identity),
    /// The seat of an owner.
    SeatNumber(u32),
}

/// Keys of the loan records.
#[derive(Clone, Copy, Debug, PartialEq, Eq)]
pub enum LoanDataKey {
    /// From a borrower to that borrower's loan.
    Loan(Identity),
}

impl StorageKey for DataKey {
    fn same(&self, other: &DataKey) -> (r: bool) {
        *self == *other
    }
}

impl StorageKey for UserDataKey {
    fn same(&self, other: &UserDataKey) -> (r: bool) {
        match (self, other) {
            (UserDataKey::TokenOwner(a), UserDataKey::TokenOwner(b)) => *a == *b,
            (UserDataKey::Seat(a), UserDataKey::Seat(b)) => a.same(b),
            _ => false,
        }
    }
}

impl StorageKey for LoanDataKey {
    fn same(&self, other: &LoanDataKey) -> (r: bool) {
        match (self, other) {
            (LoanDataKey::Loan(a), LoanDataKey::Loan(b)) => a.same(b),
        }
    }
}

} // verus!
