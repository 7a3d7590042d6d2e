use state_proof::blob::AccountStateBlob;
use state_proof::hash::{HashValue, HashValueError};
use state_proof::hasher::{hash_under, CryptoHasher, HasherRole};
use state_proof::node::{MerkleTreeInternalNode, SparseMerkleLeafNode};
use tiny_keccak::Hasher;

fn sha3(data: &[u8]) -> [u8; 32] {
    let mut state = tiny_keccak::Sha3::v256();
    state.update(data);
    let mut out = [0u8; 32];
    state.finalize(&mut out);
    out
}

fn direct_digest(name: &str, data: &[u8]) -> [u8; 32] {
    let mut salted = b"LIBRA::".to_vec();
    salted.extend_from_slice(name.as_bytes());
    let mut preimage = sha3(&salted).to_vec();
    preimage.extend_from_slice(data);
    sha3(&preimage)
}

fn filled(byte: u8) -> HashValue {
    HashValue::new([byte; 32])
}

#[test]
fn sha3_of_hello_world_is_the_published_digest() {
    let expected: [u8; 32] = [
        0x64, 0x4b, 0xcc, 0x7e, 0x56, 0x43, 0x73, 0x04, 0x09, 0x99, 0xaa, 0xc8, 0x9e, 0x76, 0x22,
        0xf3, 0xca, 0x71, 0xfb, 0xa1, 0xd9, 0x72, 0xfd, 0x94, 0xa3, 0x1c, 0x3b, 0xfb, 0xf2, 0x4e,
        0x39, 0x38,
    ];
    assert_eq!(sha3(b"hello world"), expected);
}

#[test]
fn from_slice_takes_exactly_32_bytes() {
    let bytes = [7u8; 32];
    assert_eq!(HashValue::from_slice(&bytes), Ok(HashValue::new(bytes)));
    assert_eq!(
        HashValue::from_slice(&[1u8; 31]),
        Err(HashValueError::WrongHashLength { len: 31 })
    );
    assert_eq!(
        HashValue::from_slice(&[1u8; 33]),
        Err(HashValueError::WrongHashLength { len: 33 })
    );
    assert_eq!(HashValue::from_slice(&[]), Err(HashValueError::WrongHashLength { len: 0 }));
}

#[test]
fn bit_zero_is_the_high_bit_of_the_first_byte() {
    let mut bytes = [0u8; 32];
    bytes[0] = 0x80;
    bytes[31] = 0x01;
    let h = HashValue::new(bytes);
    assert!(h.bit(0));
    assert!(!h.bit(1));
    assert!(!h.bit(7));
    assert!(!h.bit(254));
    assert!(h.bit(255));
    let bits = h.iter_bits();
    assert_eq!(bits.len(), 256);
    assert_eq!(bits.iter().filter(|b| **b).count(), 2);
    assert!(bits[0] && bits[255]);
}

#[test]
fn reversed_bits_reversed_again_are_the_bits() {
    let mut bytes = [0u8; 32];
    for (i, b) in bytes.iter_mut().enumerate() {
        *b = (i as u8).wrapping_mul(37).wrapping_add(11);
    }
    let h = HashValue::new(bytes);
    let forward = h.iter_bits();
    let mut backward = h.iter_bits_rev();
    let mut expected = forward.clone();
    expected.reverse();
    assert_eq!(backward, expected);
    backward.reverse();
    assert_eq!(backward, forward);
}

#[test]
fn common_prefix_examples() {
    let all_ones = filled(0xff);
    let mut bytes = [0xffu8; 32];
    bytes[0] = 0xfe;
    let other = HashValue::new(bytes);
    assert_eq!(other.common_prefix_bits_len(all_ones), 7);
    assert_eq!(all_ones.common_prefix_bits_len(other), 7);
    assert_eq!(all_ones.common_prefix_bits_len(all_ones), 256);
    assert_eq!(filled(0).common_prefix_bits_len(all_ones), 0);
    let mut last = [0u8; 32];
    last[31] = 1;
    assert_eq!(HashValue::new(last).common_prefix_bits_len(filled(0)), 255);
}

#[test]
fn zero_is_all_zero_bytes() {
    assert_eq!(HashValue::zero(), filled(0));
    assert_eq!(HashValue::zero().to_vec(), vec![0u8; 32]);
    assert_eq!(filled(9).to_vec(), vec![9u8; 32]);
}

#[test]
fn equality_and_order_are_bytewise() {
    assert_eq!(filled(3), filled(3));
    assert_ne!(filled(3), filled(4));
    assert!(filled(3) < filled(4));
    let mut bytes = [0u8; 32];
    bytes[31] = 1;
    assert!(filled(0) < HashValue::new(bytes));
}

#[test]
fn roles_separate_domains() {
    let roles = [
        HasherRole::SparseMerkleInternal,
        HasherRole::SparseMerkleLeafNode,
        HasherRole::AccountStateBlob,
        HasherRole::TransactionAccumulator,
    ];
    for data in [&b""[..], &b"abc"[..], &[0u8; 64][..]] {
        for (i, a) in roles.iter().enumerate() {
            for (j, b) in roles.iter().enumerate() {
                if i != j {
                    assert_ne!(hash_under(*a, data), hash_under(*b, data));
                }
            }
        }
    }
}

#[test]
fn role_digest_is_seeded_by_the_salted_name() {
    assert_eq!(
        hash_under(HasherRole::SparseMerkleInternal, b"abc"),
        HashValue::new(direct_digest("SparseMerkleInternal", b"abc"))
    );
    assert_eq!(
        hash_under(HasherRole::TransactionAccumulator, b""),
        HashValue::new(direct_digest("TransactionAccumulator", b""))
    );
}

#[test]
fn hasher_ignores_chunk_boundaries() {
    let mut whole = CryptoHasher::new(HasherRole::AccountStateBlob);
    whole.update(b"hello world");
    let mut parts = CryptoHasher::new(HasherRole::AccountStateBlob);
    parts.update(b"hello");
    parts.update(b"");
    parts.update(b" world");
    assert_eq!(whole.finish(), parts.finish());
}

#[test]
fn leaf_hash_is_the_leaf_role_digest_of_key_then_value_hash() {
    let leaf = SparseMerkleLeafNode::new(filled(1), filled(2));
    let mut preimage = vec![1u8; 32];
    preimage.extend_from_slice(&[2u8; 32]);
    assert_eq!(leaf.hash(), HashValue::new(direct_digest("SparseMerkleLeafNode", &preimage)));
    assert_eq!(leaf.key(), filled(1));
    assert_eq!(leaf.value_hash(), filled(2));
    let swapped = SparseMerkleLeafNode::new(filled(2), filled(1));
    assert_ne!(leaf.hash(), swapped.hash());
}

#[test]
fn internal_hash_is_the_role_digest_of_left_then_right() {
    let node = MerkleTreeInternalNode::new(filled(0), filled(5));
    let mut preimage = vec![0u8; 32];
    preimage.extend_from_slice(&[5u8; 32]);
    assert_eq!(
        node.sparse_merkle_hash(),
        HashValue::new(direct_digest("SparseMerkleInternal", &preimage))
    );
    assert_eq!(
        node.hash(HasherRole::TransactionAccumulator),
        HashValue::new(direct_digest("TransactionAccumulator", &preimage))
    );
    assert_ne!(
        node.sparse_merkle_hash(),
        MerkleTreeInternalNode::new(filled(5), filled(0)).sparse_merkle_hash()
    );
}

#[test]
fn blob_hash_is_the_blob_role_digest_of_its_bytes() {
    let blob = AccountStateBlob::from(vec![1u8, 2, 3]);
    assert_eq!(blob.hash(), HashValue::new(direct_digest("AccountStateBlob", &[1, 2, 3])));
    assert_eq!(blob.hash(), hash_under(HasherRole::AccountStateBlob, &[1, 2, 3]));
    assert_eq!(blob.as_bytes(), &[1u8, 2, 3][..]);
    assert_eq!(blob.clone().into_bytes(), vec![1u8, 2, 3]);
    assert_eq!(blob, AccountStateBlob::new(vec![1, 2, 3]));
    assert_ne!(blob, AccountStateBlob::new(vec![1, 2]));
}

#[test]
fn test_debug_does_not_panic() {
    let _ = format!("{:#?}", AccountStateBlob::from(vec![1u8, 2u8, 3u8]));
}

#[test]
fn hex_is_64_lowercase_digits() {
    let mut bytes = [0u8; 32];
    bytes[0] = 0xab;
    bytes[1] = 0x0f;
    bytes[31] = 0x90;
    let hex = HashValue::new(bytes).to_hex();
    assert_eq!(hex.len(), 64);
    assert_eq!(&hex[..4], "ab0f");
    assert_eq!(&hex[60..], "0090");
    assert_eq!(HashValue::zero().to_hex(), "0".repeat(64));
    assert_eq!(filled(0xff).to_hex(), "f".repeat(64));
}
