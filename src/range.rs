use vstd::prelude::*;
use crate::hash::{bit_of, HashValue, HASH_LENGTH_IN_BITS};
use crate::node::{internal_digest, leaf_digest, MerkleTreeInternalNode, SparseMerkleLeafNode};
use crate::sparse_merkle::{hash_value_of, lemma_hash_value_of, ProofError};

verus! {

/// A proof that authenticates a range of consecutive leaves of a sparse
/// Merkle tree, from the leftmost leaf up to a known rightmost one. It holds
/// the siblings to the right of the path from the root to that last leaf.
#[derive(Clone, Debug)]
pub struct SparseMerkleRangeProof {
    /// The right siblings along the path, bottom level first.
    pub right_siblings: Vec<HashValue>,
}

/// The digest reached from `current` at level `level` (counted from the
/// bottom) of a path of `total` levels along `key`, consuming a sibling of
/// `left` at each level where the path goes right and one of `right` at
/// each level where it goes left. `None` where one of them runs out.
pub open spec fn range_walk_up(
    current: Seq<u8>,
    key: Seq<u8>,
    total: int,
    level: int,
    left: Seq<HashValue>,
    right: Seq<HashValue>,
) -> Option<Seq<u8>>
    decreases total - level,
{
    if level >= total {
        Some(current)
    } else if bit_of(key, total - 1 - level) {
        if left.len() == 0 {
            None
        } else {
            range_walk_up(internal_digest(left[0]@, current), key, total, level + 1, left.drop_first(), right)
        }
    } else {
        if right.len() == 0 {
            None
        } else {
            range_walk_up(internal_digest(current, right[0]@), key, total, level + 1, left, right.drop_first())
        }
    }
}

/// What verifying the range that ends at `rightmost_leaf` against
/// `expected_root` gives, where `left` are the left siblings along the path
/// to that leaf, bottom level first, which the caller rebuilt from the
/// leaves of the range, and `right` are the proof's right siblings.
pub open spec fn range_outcome(
    right: Seq<HashValue>,
    expected_root: HashValue,
    rightmost_leaf: SparseMerkleLeafNode,
    left: Seq<HashValue>,
) -> Result<(), ProofError> {
    let total = (left.len() + right.len()) as int;
    let malformed = ProofError::MalformedRangeProof {
        num_left_siblings: left.len() as usize,
        num_right_siblings: right.len() as usize,
    };
    if total > 256 {
        Err(malformed)
    } else {
        match range_walk_up(
            leaf_digest(rightmost_leaf.key@, rightmost_leaf.value_hash@),
            rightmost_leaf.key@,
            total,
            0,
            left,
            right,
        ) {
            None => Err(malformed),
            Some(root) => if root == expected_root@ {
                Ok(())
            } else {
                Err(
                    ProofError::RootMismatch {
                        actual_root_hash: hash_value_of(root),
                        expected_root_hash: expected_root,
                    },
                )
            },
        }
    }
}

impl SparseMerkleRangeProof {
    /// A range proof with right siblings `right_siblings`, bottom level
    /// first.
    pub fn new(right_siblings: Vec<HashValue>) -> (r: SparseMerkleRangeProof)
        ensures
            r.right_siblings@ == right_siblings@,
    {
        SparseMerkleRangeProof { right_siblings }
    }

    /// The right siblings, bottom level first.
    pub fn right_siblings(&self) -> (r: &[HashValue])
        ensures
            r@ == self.right_siblings@,
    {
        self.right_siblings.as_slice()
    }

    /// Verifies against `expected_root_hash` that the leaves from the
    /// leftmost one up to `rightmost_known_leaf` form the leftmost range of
    /// the tree, given the left siblings along the path to that leaf, bottom
    /// level first.
    pub fn verify(
        &self,
        expected_root_hash: HashValue,
        rightmost_known_leaf: SparseMerkleLeafNode,
        left_siblings: &[HashValue],
    ) -> (r: Result<(), ProofError>)
        ensures
            r == range_outcome(self.right_siblings@, expected_root_hash, rightmost_known_leaf, left_siblings@),
    {
        let num_left = left_siblings.len();
        let num_right = self.right_siblings.len();
        let malformed = ProofError::MalformedRangeProof {
            num_left_siblings: num_left,
            num_right_siblings: num_right,
        };
        if num_left > HASH_LENGTH_IN_BITS || num_right > HASH_LENGTH_IN_BITS - num_left {
            return Err(malformed);
        }
        let total = num_left + num_right;
        let key = rightmost_known_leaf.key;
        let mut current = rightmost_known_leaf.hash();
        let ghost start = current@;
        assert(start == leaf_digest(rightmost_known_leaf.key@, rightmost_known_leaf.value_hash@));
        let mut li: usize = 0;
        let mut ri: usize = 0;
        let mut level: usize = 0;
        assert(left_siblings@.subrange(0, left_siblings@.len() as int) =~= left_siblings@);
        assert(self.right_siblings@.subrange(0, self.right_siblings@.len() as int) =~= self.right_siblings@);
        while level < total
            invariant
                num_left == left_siblings@.len(),
                num_right == self.right_siblings@.len(),
                malformed == (ProofError::MalformedRangeProof {
                    num_left_siblings: num_left,
                    num_right_siblings: num_right,
                }),
                total == left_siblings@.len() + self.right_siblings@.len(),
                total <= 256,
                level <= total,
                li <= left_siblings@.len(),
                ri <= self.right_siblings@.len(),
                key == rightmost_known_leaf.key,
                start == leaf_digest(rightmost_known_leaf.key@, rightmost_known_leaf.value_hash@),
                range_walk_up(current@, key@, total as int, level as int, left_siblings@.subrange(li as int, left_siblings@.len() as int), self.right_siblings@.subrange(ri as int, self.right_siblings@.len() as int))
                    == range_walk_up(start, key@, total as int, 0, left_siblings@, self.right_siblings@),
            decreases total - level,
        {
            let ghost rest_left = left_siblings@.subrange(li as int, left_siblings@.len() as int);
            let ghost rest_right = self.right_siblings@.subrange(ri as int, self.right_siblings@.len() as int);
            if key.bit(total - 1 - level) {
                if li >= num_left {
                    assert(rest_left.len() == 0);
                    assert(range_walk_up(current@, key@, total as int, level as int, rest_left, rest_right) is None);
                    return Err(malformed);
                }
                let node = MerkleTreeInternalNode::new(left_siblings[li], current);
                current = node.sparse_merkle_hash();
                li = li + 1;
                assert(rest_left.drop_first() =~= left_siblings@.subrange(li as int, left_siblings@.len() as int));
            } else {
                if ri >= num_right {
                    assert(rest_right.len() == 0);
                    assert(range_walk_up(current@, key@, total as int, level as int, rest_left, rest_right) is None);
                    return Err(malformed);
                }
                let node = MerkleTreeInternalNode::new(current, self.right_siblings[ri]);
                current = node.sparse_merkle_hash();
                ri = ri + 1;
                assert(rest_right.drop_first() =~= self.right_siblings@.subrange(ri as int, self.right_siblings@.len() as int));
            }
            level = level + 1;
        }
        if current != expected_root_hash {
            proof {
                lemma_hash_value_of(current);
            }
            return Err(
                ProofError::RootMismatch {
                    actual_root_hash: current,
                    expected_root_hash: expected_root_hash,
                },
            );
        }
        Ok(())
    }
}

} // verus!
