//! A hierarchical name registry with commit-reveal registration, time-bounded
//! leases, tiered fees and subnames under a registered parent name.
//!
//! A caller first commits the hash of a name and a secret, then reveals both;
//! the name then goes to the committed beneficiary for a number of periods.
//! Owners transfer names, point them at addresses and create subnames; anyone
//! may renew a name, and anyone may remove one whose lease has run out, which
//! removes its subnames with it.

pub mod epm_rpc;
pub mod hashing;
pub mod laws;
pub mod ledger;
pub mod pallet;
pub mod state;
pub mod table;
pub mod types;

pub use epm_rpc::EpmRpc;
pub use hashing::{
    commitment_hash, hash_eq, label_hash, name_hash, sub_name_hash, CommitmentHash, LabelHash,
    NameHash,
};
pub use ledger::{LedgerCall, LoggedLedger};
pub use pallet::Pallet;
pub use table::SubKey;
pub use types::{
    AccountId, Balance, BlockNumber, Commitment, Config, Error, Event, Ledger, Registration,
    SubNameRegistration,
};
