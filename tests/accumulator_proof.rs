use state_proof::accumulator::{accumulator_placeholder_hash, AccumulatorConsistencyProof};
use state_proof::hash::HashValue;
use state_proof::hasher::HasherRole;
use state_proof::node::MerkleTreeInternalNode;
use state_proof::sparse_merkle::ProofError;

fn filled(byte: u8) -> HashValue {
    HashValue::new([byte; 32])
}

fn acc(left: HashValue, right: HashValue) -> HashValue {
    MerkleTreeInternalNode::new(left, right).hash(HasherRole::TransactionAccumulator)
}

#[test]
fn placeholder_spells_its_name() {
    let mut bytes = [0u8; 32];
    bytes[..28].copy_from_slice(b"ACCUMULATOR_PLACEHOLDER_HASH");
    assert_eq!(accumulator_placeholder_hash(), HashValue::new(bytes));
}

#[test]
fn growing_one_leaf_to_three() {
    let (a, b, c) = (filled(1), filled(2), filled(3));
    let p = accumulator_placeholder_hash();
    let new_root = acc(acc(a, b), acc(c, p));
    let proof = AccumulatorConsistencyProof::new(vec![b, c]);
    assert_eq!(proof.verify(a, &[a], 1, 3, new_root), Ok(()));
}

#[test]
fn growing_two_leaves_to_four_merges_equal_heights() {
    let ab = acc(filled(1), filled(2));
    let cd = acc(filled(3), filled(4));
    let proof = AccumulatorConsistencyProof::new(vec![cd]);
    assert_eq!(proof.verify(ab, &[ab], 2, 4, acc(ab, cd)), Ok(()));
}

#[test]
fn growing_from_empty() {
    let a = filled(1);
    let proof = AccumulatorConsistencyProof::new(vec![a]);
    assert_eq!(proof.verify(accumulator_placeholder_hash(), &[], 0, 1, a), Ok(()));
    let none = AccumulatorConsistencyProof::new(vec![]);
    assert_eq!(
        none.verify(accumulator_placeholder_hash(), &[], 0, 0, accumulator_placeholder_hash()),
        Ok(())
    );
}

#[test]
fn five_leaves_grow_to_eight() {
    let x = filled(0x10);
    let y = filled(0x20);
    let p = accumulator_placeholder_hash();
    let old_root = acc(x, acc(acc(y, p), p));
    let z = filled(0x30);
    let w = filled(0x40);
    let proof = AccumulatorConsistencyProof::new(vec![z, w]);
    let new_root = acc(x, acc(acc(y, z), w));
    assert_eq!(proof.verify(old_root, &[x, y], 5, 8, new_root), Ok(()));
}

#[test]
fn wrong_subtree_count_is_a_length_mismatch() {
    let a = filled(1);
    let proof = AccumulatorConsistencyProof::new(vec![filled(2)]);
    assert_eq!(
        proof.verify(a, &[a], 1, 3, a),
        Err(ProofError::LengthMismatch { old_num_leaves: 1, new_num_leaves: 3 })
    );
    assert_eq!(
        proof.verify(a, &[a], 3, 1, a),
        Err(ProofError::LengthMismatch { old_num_leaves: 3, new_num_leaves: 1 })
    );
    assert_eq!(
        proof.verify(a, &[a, a], 1, 2, a),
        Err(ProofError::LengthMismatch { old_num_leaves: 1, new_num_leaves: 2 })
    );
}

#[test]
fn wrong_roots_are_a_root_mismatch() {
    let ab = acc(filled(1), filled(2));
    let cd = acc(filled(3), filled(4));
    let proof = AccumulatorConsistencyProof::new(vec![cd]);
    assert_eq!(
        proof.verify(filled(9), &[ab], 2, 4, acc(ab, cd)),
        Err(ProofError::RootMismatch { actual_root_hash: ab, expected_root_hash: filled(9) })
    );
    assert_eq!(
        proof.verify(ab, &[ab], 2, 4, filled(9)),
        Err(ProofError::RootMismatch { actual_root_hash: acc(ab, cd), expected_root_hash: filled(9) })
    );
}
