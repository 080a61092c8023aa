//! A verified single-ledger value-custody vault.
//!
//! The vault accepts deposits of one fungible asset on behalf of
//! participants, computes each participant's proportional entitlement to a
//! second asset, and releases that entitlement exactly once per participant
//! after an authorized activation event.
//!
//! Moving value is left to an asset transfer gateway supplied by the host:
//! each state-changing operation takes the gateway's reported outcome as an
//! argument and states, for every outcome, exactly how the ledger changes.

pub mod errors;
pub mod laws;
pub mod ledger;
pub mod vault;

pub use errors::VaultError;
pub use ledger::ParticipantRecord;
pub use vault::InvestmentVault;
pub use vault::TransferRequest;
pub use vault::VaultView;
