//! The compute-once cache for the assembled verifier configuration.
//!
//! The process-wide singleton is a once-only initialization guard around
//! this state: the first access assembles the configuration, every later
//! access is served the stored value unchanged, whatever inputs it brings.
//! A failed first computation initializes nothing — the caller treats it
//! as an unrecoverable startup defect.

use crate::commitments::VkCommitments;
use crate::config::circuit_commitments;
use crate::config::zero_hash_bytes;
use crate::config::CommitmentsError;
use crate::config::L1VerifierConfig;
use crate::hex::hash_bytes_of;
use crate::hex::valid_hash_str;
use vstd::prelude::*;

verus! {

/// At most one assembled configuration, immutable once present.
pub struct CommitmentCache {
    config: Option<L1VerifierConfig>,
}

impl CommitmentCache {
    /// The configuration held, if the one-time computation has succeeded.
    pub closed spec fn spec_config(&self) -> Option<L1VerifierConfig> {
        self.config
    }

    /// A cache whose one-time computation has not run yet.
    pub fn new() -> (r: CommitmentCache)
        ensures
            r.spec_config() is None,
    {
        CommitmentCache { config: None }
    }

    /// Serves the assembled configuration: the first successful call
    /// computes and stores it, every later call returns the stored value
    /// bit for bit, with no recomputation and no further validation.
    pub fn get_cached_commitments(
        &mut self,
        commitments: &VkCommitments,
        snark_wrapper_vk: Option<&str>,
    ) -> (r: Result<L1VerifierConfig, CommitmentsError>)
        ensures
            old(self).spec_config() matches Some(c) ==> r == Ok::<
                L1VerifierConfig,
                CommitmentsError,
            >(c) && final(self).spec_config() == old(self).spec_config(),
            old(self).spec_config() is None ==> {
                &&& (r matches Ok(c) ==> final(self).spec_config() == Some(c))
                &&& (r is Err ==> final(self).spec_config() is None)
                &&& (snark_wrapper_vk is None ==> r == Err::<
                    L1VerifierConfig,
                    CommitmentsError,
                >(CommitmentsError::MissingSnarkWrapperVk))
                &&& (snark_wrapper_vk matches Some(vk) ==> {
                    &&& (r is Ok <==> valid_hash_str(commitments.node@)
                        && valid_hash_str(commitments.leaf@)
                        && valid_hash_str(vk@))
                    &&& (r matches Ok(c) ==> {
                        &&& c.params.recursion_node_level_vk_hash@ == hash_bytes_of(
                            commitments.node@,
                        )
                        &&& c.params.recursion_leaf_level_vk_hash@ == hash_bytes_of(
                            commitments.leaf@,
                        )
                        &&& c.params.recursion_circuits_set_vks_hash@
                            == zero_hash_bytes()
                        &&& c.recursion_scheduler_level_vk_hash@ == hash_bytes_of(vk@)
                    })
                })
            },
    {
        match self.config {
            Some(c) => Ok(c),
            None => {
                match circuit_commitments(commitments, snark_wrapper_vk) {
                    Ok(c) => {
                        self.config = Some(c);
                        Ok(c)
                    },
                    Err(e) => Err(e),
                }
            },
        }
    }
}

} // verus!
