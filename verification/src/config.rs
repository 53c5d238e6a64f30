//! Validation of hex commitments as 256-bit hashes, and their assembly
//! into the verifier configuration.

use crate::commitments::VkCommitments;
use crate::hex::hash_bytes_of;
use crate::hex::parse_hash_bytes;
use crate::hex::valid_hash_str;
use vstd::prelude::*;

verus! {

/// A 256-bit hash value, stored as 32 big-endian bytes.
#[derive(Clone, Copy, Debug, PartialEq, Eq)]
pub struct Hash256 {
    pub bytes: [u8; 32],
}

impl View for Hash256 {
    type V = Seq<u8>;

    open spec fn view(&self) -> Seq<u8> {
        self.bytes@
    }
}

/// The bytes of the zero hash.
pub open spec fn zero_hash_bytes() -> Seq<u8> {
    Seq::new(32, |i: int| 0u8)
}

impl Hash256 {
    /// The zero hash.
    pub fn zero() -> (r: Hash256)
        ensures
            r@ == zero_hash_bytes(),
    {
        let bytes = [0u8;32];
        proof {
            assert(bytes@ =~= zero_hash_bytes());
        }
        Hash256 { bytes }
    }

    /// Parses an optionally `"0x"`-prefixed string of exactly 64 hex digits;
    /// succeeds on exactly those strings.
    pub fn from_hex_str(s: &str) -> (r: Option<Hash256>)
        ensures
            r is Some <==> valid_hash_str(s@),
            r matches Some(h) ==> h@ == hash_bytes_of(s@),
    {
        match parse_hash_bytes(s) {
            Some(bytes) => Some(Hash256 { bytes }),
            None => None,
        }
    }
}

/// Why no verifier configuration could be assembled. Each failure names the
/// field it is attributable to.
#[derive(Clone, Copy, Debug, PartialEq, Eq)]
pub enum CommitmentsError {
    /// The externally supplied wrapper-hash setting is absent: a
    /// configuration error, not a crypto error.
    MissingSnarkWrapperVk,
    /// The node commitment does not denote a 256-bit hash value.
    InvalidNodeCommitment,
    /// The leaf commitment does not denote a 256-bit hash value.
    InvalidLeafCommitment,
    /// The externally supplied wrapper hash does not denote a 256-bit hash
    /// value.
    InvalidSnarkWrapperVk,
}

/// The per-layer hash values a verifier configuration carries.
#[derive(Clone, Copy, Debug, PartialEq, Eq)]
pub struct VerifierParams {
    pub recursion_node_level_vk_hash: Hash256,
    pub recursion_leaf_level_vk_hash: Hash256,
    pub recursion_circuits_set_vks_hash: Hash256,
}

/// The assembled, immutable verifier configuration: three 256-bit hashes
/// plus a base-layer field fixed to the zero hash for schema compatibility.
#[derive(Clone, Copy, Debug, PartialEq, Eq)]
pub struct L1VerifierConfig {
    pub params: VerifierParams,
    pub recursion_scheduler_level_vk_hash: Hash256,
}

/// Validates the derived node and leaf commitments and the externally
/// supplied wrapper hash as 256-bit values and combines them into the
/// verifier configuration, or reports the first failure, naming its field.
pub fn circuit_commitments(commitments: &VkCommitments, snark_wrapper_vk: Option<&str>) -> (r:
    Result<L1VerifierConfig, CommitmentsError>)
    ensures
        snark_wrapper_vk is None ==> r == Err::<L1VerifierConfig, CommitmentsError>(
            CommitmentsError::MissingSnarkWrapperVk,
        ),
        snark_wrapper_vk matches Some(vk) ==> {
            &&& (r is Ok <==> valid_hash_str(commitments.node@) && valid_hash_str(
                commitments.leaf@,
            ) && valid_hash_str(vk@))
            &&& (r matches Ok(c) ==> {
                &&& c.params.recursion_node_level_vk_hash@ == hash_bytes_of(commitments.node@)
                &&& c.params.recursion_leaf_level_vk_hash@ == hash_bytes_of(commitments.leaf@)
                &&& c.params.recursion_circuits_set_vks_hash@ == zero_hash_bytes()
                &&& c.recursion_scheduler_level_vk_hash@ == hash_bytes_of(vk@)
            })
            &&& (!valid_hash_str(commitments.node@) ==> r == Err::<
                L1VerifierConfig,
                CommitmentsError,
            >(CommitmentsError::InvalidNodeCommitment))
            &&& (valid_hash_str(commitments.node@) && !valid_hash_str(commitments.leaf@) ==> r
                == Err::<L1VerifierConfig, CommitmentsError>(
                CommitmentsError::InvalidLeafCommitment,
            ))
            &&& (valid_hash_str(commitments.node@) && valid_hash_str(commitments.leaf@)
                && !valid_hash_str(vk@) ==> r == Err::<L1VerifierConfig, CommitmentsError>(
                CommitmentsError::InvalidSnarkWrapperVk,
            ))
        },
{
    let vk = match snark_wrapper_vk {
        Some(vk) => vk,
        None => {
            return Err(CommitmentsError::MissingSnarkWrapperVk);
        },
    };
    let node = match Hash256::from_hex_str(commitments.node.as_str()) {
        Some(h) => h,
        None => {
            return Err(CommitmentsError::InvalidNodeCommitment);
        },
    };
    let leaf = match Hash256::from_hex_str(commitments.leaf.as_str()) {
        Some(h) => h,
        None => {
            return Err(CommitmentsError::InvalidLeafCommitment);
        },
    };
    let scheduler = match Hash256::from_hex_str(vk) {
        Some(h) => h,
        None => {
            return Err(CommitmentsError::InvalidSnarkWrapperVk);
        },
    };
    Ok(
        L1VerifierConfig {
            params: VerifierParams {
                recursion_node_level_vk_hash: node,
                recursion_leaf_level_vk_hash: leaf,
                // The base-layer commitment is unused in this verification
                // path; the slot stays zero for schema compatibility.
                recursion_circuits_set_vks_hash: Hash256::zero(),
            },
            // The scheduler-level slot carries the externally supplied
            // wrapper hash, not the locally derived scheduler commitment:
            // downstream job matching keys on the wrapper identity, which
            // changes whenever the inner scheduler commitment changes.
            recursion_scheduler_level_vk_hash: scheduler,
        },
    )
}

} // verus!
