use vstd::prelude::*;

verus! {

/// Why the registry rejected a call. A rejected call changes nothing.
#[derive(Clone, Copy, Debug, PartialEq, Eq, Structural)]
pub enum Error {
    /// The configuration was already written.
    AlreadyInitialized,
    /// The seat number is already bound to an owner.
    SeatAlreadyMinted,
    /// The identity already owns a seat.
    OwnerAlreadyHasSeat,
    /// Nothing is bound to the seat number or identity asked for.
    NotFound,
    /// The borrower already has a loan record, open or repaid.
    LoanAlreadyExists,
    /// The borrower has no loan record.
    LoanNotFound,
    /// The loan was already repaid in full.
    LoanAlreadyRepaid,
}

} // verus!
