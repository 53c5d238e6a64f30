//! The pipeline step that reports the derived commitments.
//!
//! Each layer's aggregation output — a commitment of exactly four 64-bit
//! field-element representatives — is turned into its canonical hex string.
//! The scheduler layer is aggregated node-style, so all three layers arrive
//! here in the same shape.

use crate::hex::commitment_hex;
use crate::hex::encode_commitment;
use vstd::prelude::*;

verus! {

/// The three hex-encoded commitments derived for one verification-key set.
#[derive(Clone, Debug, PartialEq, Eq)]
pub struct VkCommitments {
    pub leaf: String,
    pub node: String,
    pub scheduler: String,
}

/// Encodes the leaf, node and scheduler aggregation outputs as their
/// canonical hex commitments, each `"0x"` plus 64 lowercase hex digits.
pub fn generate_commitments(leaf: &[u64; 4], node: &[u64; 4], scheduler: &[u64; 4]) -> (r:
    VkCommitments)
    ensures
        r.leaf@ == commitment_hex(leaf@),
        r.node@ == commitment_hex(node@),
        r.scheduler@ == commitment_hex(scheduler@),
{
    VkCommitments {
        leaf: encode_commitment(leaf),
        node: encode_commitment(node),
        scheduler: encode_commitment(scheduler),
    }
}

} // verus!
