//! A verified transaction-processing core: deposits, withdrawals, disputes,
//! resolutions and chargebacks over per-client accounts, with exact
//! fixed-point money arithmetic at four decimal places.

pub mod account;
pub mod engine;
pub mod journal;
pub mod laws;
pub mod money;
pub mod records;

pub use account::Account;
pub use account::Ledger;
pub use engine::process_record;
pub use engine::record_fits;
pub use journal::Transaction;
pub use journal::TransactionJournal;
pub use money::Money;
pub use records::Diagnostic;
pub use records::Input;
pub use records::TxType;
