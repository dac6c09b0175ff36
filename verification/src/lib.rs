//! A deterministic subscription billing ledger.
//!
//! The crate models recurring and usage-metered billing agreements between a
//! subscriber and a merchant: monotonic identity allocation, the subscription
//! record state machine, an append-only per-subscriber index, and a
//! cursor-based pagination query over that index. Value transfer, caller
//! authentication, and durable storage are external collaborators; the
//! surrounding application supplies time and identity as plain values.

pub mod error;
pub mod index;
pub mod laws;
pub mod subscription;
pub mod vault;
