//! Account-abstraction operation processing and a threshold-validated
//! cross-domain asset bridge, with every state transition stated as a
//! contract and checked by Verus.
//!
//! - [`keys`]: 32-byte account identities.
//! - [`crypto`]: canonical hashing, signature checks and address derivation.
//! - [`operation`]: the user operation and its canonical hash.
//! - [`wallet`]: the smart-wallet state machine (nonce, daily limit, guardians).
//! - [`paymaster`]: fee sponsorship, validation and settlement.
//! - [`entry_point`]: the batch dispatcher and paymaster stake bookkeeping.
//! - [`bridge`]: the chain registry and the lock / mint / burn ledger.
//! - [`svm_account`]: the minimal program-derived wallet account.

pub mod keys;
pub mod crypto;
pub mod operation;
pub mod wallet;
pub mod entry_point;
pub mod paymaster;
pub mod bridge;
pub mod svm_account;
