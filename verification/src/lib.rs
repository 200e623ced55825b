//! A custodial treasury ledger: one administrator per vault, per-depositor
//! sub-accounts, a two-phase (request/execute) payout protocol, and an
//! optional derived-token mint bounded by a hard supply cap.
//!
//! The ledger is a pure state machine: every operation validates first and
//! then commits atomically, or fails with a specific error and changes
//! nothing. The platform concerns that surround it in deployment — address
//! derivation, signature checks, the physical movement of funds — appear
//! here only as the plain values they produce: record keys, authenticated
//! caller identities, and balance counters.

pub mod errors;
pub mod events;
pub mod laws;
pub mod ledger;
pub mod math;
pub mod state;
