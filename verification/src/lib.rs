//! A custodial vault library: storage cells that hold fungible value for an
//! owner, gated by a deterministic derived authority instead of a private
//! key.
//!
//! The derived-authority variant keeps `[balance][owner][initialized]`
//! records in a keyed store and yields the transfers an external ledger
//! must perform; the self-contained variant keeps a running total directly
//! in raw record bytes and skims a fixed tenth per withdrawal. Every
//! operation validates authority and balances before any transfer is
//! issued, and a failed operation leaves no state change behind.

pub mod authority;
pub mod codec;
pub mod config;
pub mod errors;
pub mod identity;
pub mod instructions;
pub mod invoker;
pub mod processor;
pub mod store;
pub mod vault;
