//! A delegated-spending balance vault.
//!
//! An owner creates a vault bound to their identity through a deterministic
//! program-derived address, deposits value into it, and configures a single
//! delegate (the agent) together with a per-transaction spending cap. The
//! agent may then move value out of the vault, subject to the cap and to the
//! vault's held balance, with every mutation all-or-nothing.

pub mod derivation;
pub mod errors;
pub mod keys;
pub mod laws;
pub mod ledger;
pub mod registry;
pub mod tank;
