use vk_commitments::cache::CommitmentCache;
use vk_commitments::commitments::generate_commitments;
use vk_commitments::config::circuit_commitments;
use vk_commitments::config::CommitmentsError;
use vk_commitments::config::Hash256;
use vk_commitments::hex::encode_commitment;

const WRAPPER_VK: &str = "0xabcabcabcabcabcabcabcabcabcabcabcabcabcabcabcabcabcabcabcabcabca";

#[test]
fn test_get_cached_commitments() {
    let vk = generate_commitments(&[1, 2, 3, 4], &[5, 6, 7, 8], &[9, 10, 11, 12]);
    let mut cache = CommitmentCache::new();
    let commitments = cache.get_cached_commitments(&vk, Some(WRAPPER_VK)).unwrap();
    assert_eq!(
        Hash256::zero(),
        commitments.params.recursion_circuits_set_vks_hash
    )
}

#[test]
fn encode_known_value() {
    let hex = encode_commitment(&[0x0123456789abcdef, 0, 0xffffffffffffffff, 1]);
    assert_eq!(
        hex,
        "0x0123456789abcdef0000000000000000ffffffffffffffff0000000000000001"
    );
}

#[test]
fn encode_zero_commitment() {
    let hex = encode_commitment(&[0, 0, 0, 0]);
    assert_eq!(
        hex,
        "0x0000000000000000000000000000000000000000000000000000000000000000"
    );
}

#[test]
fn encoding_is_deterministic() {
    let first = generate_commitments(&[7, 11, 13, 17], &[1, 2, 3, 4], &[5, 6, 7, 8]);
    let second = generate_commitments(&[7, 11, 13, 17], &[1, 2, 3, 4], &[5, 6, 7, 8]);
    assert_eq!(first, second);
}

#[test]
fn encoding_distinguishes_commitments() {
    let a = encode_commitment(&[1, 2, 3, 4]);
    let b = encode_commitment(&[1, 2, 3, 5]);
    assert_ne!(a, b);
}

#[test]
fn encode_then_parse_reconstructs_bytes() {
    let hex = encode_commitment(&[0x0123456789abcdef, 0, 0xffffffffffffffff, 1]);
    let parsed = Hash256::from_hex_str(&hex).unwrap();
    let expected: [u8; 32] = [
        0x01, 0x23, 0x45, 0x67, 0x89, 0xab, 0xcd, 0xef, 0, 0, 0, 0, 0, 0, 0, 0, 0xff, 0xff, 0xff,
        0xff, 0xff, 0xff, 0xff, 0xff, 0, 0, 0, 0, 0, 0, 0, 1,
    ];
    assert_eq!(parsed.bytes, expected);
}

#[test]
fn parse_accepts_bare_and_prefixed_hex() {
    let bare = "abcabcabcabcabcabcabcabcabcabcabcabcabcabcabcabcabcabcabcabcabca";
    let prefixed = WRAPPER_VK;
    let a = Hash256::from_hex_str(bare).unwrap();
    let b = Hash256::from_hex_str(prefixed).unwrap();
    assert_eq!(a, b);
}

#[test]
fn parse_accepts_uppercase_digits() {
    let h = Hash256::from_hex_str("0xABCDEF0000000000000000000000000000000000000000000000000000000000")
        .unwrap();
    assert_eq!(h.bytes[0], 0xab);
    assert_eq!(h.bytes[1], 0xcd);
    assert_eq!(h.bytes[2], 0xef);
    assert_eq!(h.bytes[3], 0);
}

#[test]
fn parse_rejects_malformed_strings() {
    assert!(Hash256::from_hex_str("").is_none());
    assert!(Hash256::from_hex_str("0x").is_none());
    // 63 digits: one short
    assert!(Hash256::from_hex_str(
        "0xabcabcabcabcabcabcabcabcabcabcabcabcabcabcabcabcabcabcabcabcabc"
    )
    .is_none());
    // 65 digits: one long
    assert!(Hash256::from_hex_str(
        "0xabcabcabcabcabcabcabcabcabcabcabcabcabcabcabcabcabcabcabcabcabcab"
    )
    .is_none());
    // right length, one digit is no hex digit
    assert!(Hash256::from_hex_str(
        "0xabcabcabcabcabcabcabcabcabcabcgbcabcabcabcabcabcabcabcabcabcabca"
    )
    .is_none());
}

#[test]
fn assemble_rejects_each_field_by_name() {
    let good = generate_commitments(&[1, 2, 3, 4], &[5, 6, 7, 8], &[9, 10, 11, 12]);

    assert_eq!(
        circuit_commitments(&good, None),
        Err(CommitmentsError::MissingSnarkWrapperVk)
    );
    assert_eq!(
        circuit_commitments(&good, Some("not a hash")),
        Err(CommitmentsError::InvalidSnarkWrapperVk)
    );

    let mut bad_node = good.clone();
    bad_node.node = "0x123".to_string();
    assert_eq!(
        circuit_commitments(&bad_node, Some(WRAPPER_VK)),
        Err(CommitmentsError::InvalidNodeCommitment)
    );

    let mut bad_leaf = good.clone();
    bad_leaf.leaf = "zz".to_string();
    assert_eq!(
        circuit_commitments(&bad_leaf, Some(WRAPPER_VK)),
        Err(CommitmentsError::InvalidLeafCommitment)
    );

    // the missing setting is reported before any commitment is validated
    assert_eq!(
        circuit_commitments(&bad_node, None),
        Err(CommitmentsError::MissingSnarkWrapperVk)
    );
}

#[test]
fn assembled_config_carries_the_parsed_hashes() {
    let vk = generate_commitments(&[1, 2, 3, 4], &[5, 6, 7, 8], &[9, 10, 11, 12]);
    let config = circuit_commitments(&vk, Some(WRAPPER_VK)).unwrap();
    assert_eq!(
        config.params.recursion_node_level_vk_hash,
        Hash256::from_hex_str(&vk.node).unwrap()
    );
    assert_eq!(
        config.params.recursion_leaf_level_vk_hash,
        Hash256::from_hex_str(&vk.leaf).unwrap()
    );
    assert_eq!(config.params.recursion_circuits_set_vks_hash, Hash256::zero());
    assert_eq!(
        config.recursion_scheduler_level_vk_hash,
        Hash256::from_hex_str(WRAPPER_VK).unwrap()
    );
}

#[test]
fn cache_serves_one_value_for_the_whole_process() {
    let vk = generate_commitments(&[1, 2, 3, 4], &[5, 6, 7, 8], &[9, 10, 11, 12]);
    let mut cache = CommitmentCache::new();
    let first = cache.get_cached_commitments(&vk, Some(WRAPPER_VK)).unwrap();
    let second = cache.get_cached_commitments(&vk, Some(WRAPPER_VK)).unwrap();
    assert_eq!(first, second);

    // later calls are served from the cache, whatever inputs they bring
    let other = generate_commitments(&[9, 9, 9, 9], &[8, 8, 8, 8], &[7, 7, 7, 7]);
    let third = cache.get_cached_commitments(&other, None).unwrap();
    assert_eq!(first, third);
}

#[test]
fn cache_failure_initializes_nothing() {
    let vk = generate_commitments(&[1, 2, 3, 4], &[5, 6, 7, 8], &[9, 10, 11, 12]);
    let mut cache = CommitmentCache::new();
    assert_eq!(
        cache.get_cached_commitments(&vk, None),
        Err(CommitmentsError::MissingSnarkWrapperVk)
    );
    // the failure was surfaced, no partially populated configuration remains
    let recovered = cache.get_cached_commitments(&vk, Some(WRAPPER_VK)).unwrap();
    assert_eq!(
        recovered.recursion_scheduler_level_vk_hash,
        Hash256::from_hex_str(WRAPPER_VK).unwrap()
    );
}

#[test]
fn end_to_end_scenario() {
    let leaf: [u64; 4] = [0x1111111111111111, 0x2222222222222222, 3, 4];
    let node: [u64; 4] = [0x5555555555555555, 6, 7, 8];
    let scheduler: [u64; 4] = [9, 10, 11, 12];
    let vk = generate_commitments(&leaf, &node, &scheduler);
    let mut cache = CommitmentCache::new();
    let config = cache.get_cached_commitments(&vk, Some(WRAPPER_VK)).unwrap();

    let mut wrapper_bytes = [0xbcu8; 32];
    let mut i = 0;
    while i < 32 {
        wrapper_bytes[i] = match i % 3 {
            0 => 0xab,
            1 => 0xca,
            _ => 0xbc,
        };
        i += 1;
    }
    assert_eq!(config.recursion_scheduler_level_vk_hash.bytes, wrapper_bytes);
    assert_eq!(
        config.params.recursion_node_level_vk_hash.bytes[0..8],
        [0x55, 0x55, 0x55, 0x55, 0x55, 0x55, 0x55, 0x55]
    );
    assert_eq!(
        config.params.recursion_leaf_level_vk_hash.bytes[0..8],
        [0x11, 0x11, 0x11, 0x11, 0x11, 0x11, 0x11, 0x11]
    );
    assert_eq!(config.params.recursion_circuits_set_vks_hash, Hash256::zero());
}
