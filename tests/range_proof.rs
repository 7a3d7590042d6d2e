use state_proof::accumulator::AccumulatorConsistencyProof;
use state_proof::config::IdentityFromStorage;
use state_proof::hash::HashValue;
use state_proof::node::{MerkleTreeInternalNode, SparseMerkleLeafNode};
use state_proof::range::SparseMerkleRangeProof;
use state_proof::sparse_merkle::ProofError;

fn filled(byte: u8) -> HashValue {
    HashValue::new([byte; 32])
}

fn internal(left: HashValue, right: HashValue) -> HashValue {
    MerkleTreeInternalNode::new(left, right).sparse_merkle_hash()
}

fn three_leaves() -> (SparseMerkleLeafNode, SparseMerkleLeafNode, SparseMerkleLeafNode) {
    let mut kb = [0u8; 32];
    kb[0] = 0x40;
    (
        SparseMerkleLeafNode::new(filled(0x00), filled(1)),
        SparseMerkleLeafNode::new(HashValue::new(kb), filled(2)),
        SparseMerkleLeafNode::new(filled(0xff), filled(3)),
    )
}

#[test]
fn leftmost_range_verifies() {
    let (la, lb, lc) = three_leaves();
    let root = internal(internal(la.hash(), lb.hash()), lc.hash());
    let proof = SparseMerkleRangeProof::new(vec![lc.hash()]);
    assert_eq!(proof.verify(root, lb, &[la.hash()]), Ok(()));
    assert_eq!(proof.right_siblings(), &[lc.hash()][..]);
    let first_only = SparseMerkleRangeProof::new(vec![lb.hash(), lc.hash()]);
    assert_eq!(first_only.verify(root, la, &[]), Ok(()));
    let whole = SparseMerkleRangeProof::new(vec![]);
    assert_eq!(whole.verify(root, lc, &[internal(la.hash(), lb.hash())]), Ok(()));
}

#[test]
fn range_with_missing_or_extra_siblings_is_malformed() {
    let (la, lb, lc) = three_leaves();
    let root = internal(internal(la.hash(), lb.hash()), lc.hash());
    let no_right = SparseMerkleRangeProof::new(vec![]);
    assert_eq!(
        no_right.verify(root, lb, &[la.hash()]),
        Err(ProofError::MalformedRangeProof { num_left_siblings: 1, num_right_siblings: 0 })
    );
    let proof = SparseMerkleRangeProof::new(vec![lc.hash()]);
    assert_eq!(
        proof.verify(root, lb, &[la.hash(), filled(7)]),
        Err(ProofError::MalformedRangeProof { num_left_siblings: 2, num_right_siblings: 1 })
    );
    let too_many = vec![filled(0); 257];
    assert_eq!(
        proof.verify(root, lb, &too_many),
        Err(ProofError::MalformedRangeProof { num_left_siblings: 257, num_right_siblings: 1 })
    );
}

#[test]
fn range_against_wrong_root_fails() {
    let (la, lb, lc) = three_leaves();
    let root = internal(internal(la.hash(), lb.hash()), lc.hash());
    let proof = SparseMerkleRangeProof::new(vec![lc.hash()]);
    assert_eq!(
        proof.verify(filled(4), lb, &[la.hash()]),
        Err(ProofError::RootMismatch { actual_root_hash: root, expected_root_hash: filled(4) })
    );
}

#[test]
fn consistency_proof_keeps_its_subtrees() {
    let proof = AccumulatorConsistencyProof::new(vec![filled(1), filled(2)]);
    assert_eq!(proof.subtrees(), &[filled(1), filled(2)][..]);
}

#[test]
fn identity_from_storage_holds_its_names() {
    let identity = IdentityFromStorage {
        key_name: "validator_network".to_string(),
        peer_id_name: "owner_account".to_string(),
        backend: "vault".to_string(),
    };
    assert_eq!(identity.clone(), identity);
    assert_eq!(identity.key_name, "validator_network");
}
