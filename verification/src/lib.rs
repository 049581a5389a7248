//! Two small ledger state machines over an explicit store: a counter that
//! never drops below zero, and a registry that binds seats to owners one to
//! one and keeps one loan for each borrower.

pub mod counter;
pub mod error;
pub mod history;
pub mod identity;
pub mod keys;
pub mod ledger;
pub mod loan;
pub mod registry;
pub mod table;

pub use counter::Counter;
pub use counter::IncrementContract;
pub use error::Error;
pub use history::Call;
pub use identity::Identity;
pub use identity::IdentityKind;
pub use keys::ConfigValue;
pub use keys::DataKey;
pub use keys::LoanDataKey;
pub use keys::StorageKey;
pub use keys::UserDataKey;
pub use keys::UserValue;
pub use ledger::Ledger;
pub use ledger::LedgerView;
pub use loan::Loan;
pub use registry::RWANFTcontract;
pub use table::Table;
