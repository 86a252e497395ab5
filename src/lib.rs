//! Building and signing of taproot key-path Bitcoin transactions for a
//! threshold-controlled wallet.
//!
//! The builder turns received outputs and payments into a deterministic,
//! fee-paying unsigned transaction; the signing helpers compute what the
//! threshold signing rounds bind to (transcript messages, key checks,
//! sighashes) and attach the resulting signatures as witnesses.
pub mod transaction;
pub mod builder;
pub mod signing;
pub mod instructions;

pub use transaction::{OutPoint, Output, Input, Tx};
pub use builder::{ReceivedOutput, SignableTransaction, TransactionError};
pub use instructions::Application;
