//! Verified core of the StellarLend protocol modules: the insurance pool,
//! the protocol treasury, multi-asset collateral valuation, multisig
//! configuration checks, reentrancy locks and the flash-loan callback
//! receivers used to exercise the lender.
//!
//! Every module works on plain values.  Contract storage, authorisation,
//! ledger time, event publication and token transfers belong to the host and
//! stay with the caller: an operation takes the ledger time as an argument
//! and hands back the event that the host publishes.

pub mod address;
pub mod arith;
pub mod flash_receivers;
pub mod insurance;
pub mod multi_collateral;
pub mod multisig;
pub mod reentrancy;
pub mod treasury;
