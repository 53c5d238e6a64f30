//! Derivation of the commitments that identify the hierarchical set of
//! verification keys (leaf, node, scheduler) of a recursive proof pipeline,
//! and their assembly into an immutable verifier configuration.
//!
//! Raw key material is reduced to fixed-width commitments upstream; this
//! crate encodes those commitments canonically as hex strings, validates
//! them as 256-bit hash values, combines them with one externally supplied
//! wrapper hash into an [`config::L1VerifierConfig`], and models the
//! process-wide compute-once cache that serves the assembled configuration.

pub mod cache;
pub mod commitments;
pub mod config;
pub mod hex;
