use vstd::prelude::*;
use crate::blob::{blob_digest, AccountStateBlob};
use crate::hash::{
    bit_of, common_prefix_len, lemma_view_injective, HashValue, HASH_LENGTH_IN_BITS,
};
use crate::node::{internal_digest, leaf_digest, MerkleTreeInternalNode, SparseMerkleLeafNode};

verus! {

/// Why a proof was rejected. Each kind carries what an operator needs to
/// see why.
#[derive(Clone, Copy, Debug, PartialEq, Eq)]
pub enum ProofError {
    /// The proof holds more siblings than a key has bits.
    TooManySiblings { num_siblings: usize },
    /// An inclusion was claimed, but the proof's leaf is absent or has
    /// another key.
    NonInclusionWhereInclusionExpected { proof_key: Option<HashValue> },
    /// An inclusion was claimed and the keys match, but the value digests
    /// differ.
    ValueHashMismatch { proof_value_hash: HashValue, expected_value_hash: HashValue },
    /// A non-inclusion was claimed, but the proof's leaf has the queried key.
    KeyExistsInNonInclusionProof { key: HashValue },
    /// A non-inclusion was claimed, but the queried key would not have
    /// landed in the subtree where the proof's leaf is the sole occupant.
    InvalidNonInclusionProof { common_prefix_bits_len: usize, num_siblings: usize },
    /// The root rebuilt from the proof is not the trusted one.
    RootMismatch { actual_root_hash: HashValue, expected_root_hash: HashValue },
    /// The siblings of a range proof do not fit the path to its last leaf.
    MalformedRangeProof { num_left_siblings: usize, num_right_siblings: usize },
    /// The subtrees of a consistency proof, or the frozen subtrees of the
    /// old accumulator, are not as many as the leaf counts call for.
    LengthMismatch { old_num_leaves: u64, new_num_leaves: u64 },
}

/// The digest of an empty subtree: 32 zero bytes.
pub open spec fn placeholder() -> Seq<u8> {
    Seq::new(32, |i: int| 0u8)
}

/// The hash value whose bytes are `s`.
pub open spec fn hash_value_of(s: Seq<u8>) -> HashValue {
    choose|h: HashValue| h@ == s
}

/// `hash_value_of` gives back the hash value whose bytes it is handed.
pub proof fn lemma_hash_value_of(h: HashValue)
    ensures
        hash_value_of(h@) == h,
{
    let c = hash_value_of(h@);
    assert(c@ == h@);
    lemma_view_injective(c, h);
}

/// The digest of an empty sparse Merkle subtree.
pub fn sparse_merkle_placeholder_hash() -> (r: HashValue)
    ensures
        r@ == placeholder(),
{
    HashValue::zero()
}

/// The digest reached from `start` after the `m` deepest of `siblings`.
/// Sibling `l`, counted from the bottom, stands at depth
/// `siblings.len() - 1 - l` and pairs with that bit of `key`: where the bit
/// is set, the path goes right and the sibling is the left child.
pub open spec fn walk_up(start: Seq<u8>, siblings: Seq<HashValue>, key: Seq<u8>, m: int) -> Seq<u8>
    decreases m,
{
    if m <= 0 {
        start
    } else {
        let below = walk_up(start, siblings, key, m - 1);
        let sibling = siblings[m - 1]@;
        if bit_of(key, siblings.len() - m) {
            internal_digest(sibling, below)
        } else {
            internal_digest(below, sibling)
        }
    }
}

/// The root digest rebuilt from `start` and all of `siblings`, along the
/// path of `key`.
pub open spec fn root_from(start: Seq<u8>, siblings: Seq<HashValue>, key: Seq<u8>) -> Seq<u8> {
    walk_up(start, siblings, key, siblings.len() as int)
}

/// A proof that authenticates, against a trusted root, either that a key
/// maps to a value or that it maps to nothing.
#[derive(Clone, Debug)]
pub struct SparseMerkleProof {
    /// The leaf on the key's path: for an inclusion the key's own leaf,
    /// for a non-inclusion the sole leaf of the subtree where the key would
    /// land; absent where that subtree is empty.
    pub leaf: Option<SparseMerkleLeafNode>,
    /// The siblings along the path, from the bottom level up to the root.
    pub siblings: Vec<HashValue>,
}

/// The digest at the bottom of the path of `proof`: its leaf's digest, or
/// the placeholder where it has none.
pub open spec fn bottom_digest(proof: SparseMerkleProof) -> Seq<u8> {
    match proof.leaf {
        Some(leaf) => leaf_digest(leaf.key@, leaf.value_hash@),
        None => placeholder(),
    }
}

/// The root digest that `proof` rebuilds along the path of `key`.
pub open spec fn proof_root(proof: SparseMerkleProof, key: Seq<u8>) -> Seq<u8> {
    root_from(bottom_digest(proof), proof.siblings@, key)
}

/// What verifying `proof` against `expected_root` gives for the claim that
/// `key` maps to a blob with bytes `value`, or, where `value` is `None`,
/// that `key` maps to nothing.
pub open spec fn verify_outcome(
    proof: SparseMerkleProof,
    expected_root: HashValue,
    key: HashValue,
    value: Option<Seq<u8>>,
) -> Result<(), ProofError> {
    let n = proof.siblings@.len();
    if n > 256 {
        Err(ProofError::TooManySiblings { num_siblings: n as usize })
    } else {
        let claim = match (value, proof.leaf) {
            (Some(v), Some(leaf)) => if leaf.key@ != key@ {
                Err(ProofError::NonInclusionWhereInclusionExpected { proof_key: Some(leaf.key) })
            } else if leaf.value_hash@ != blob_digest(v) {
                Err(
                    ProofError::ValueHashMismatch {
                        proof_value_hash: leaf.value_hash,
                        expected_value_hash: hash_value_of(blob_digest(v)),
                    },
                )
            } else {
                Ok(())
            },
            (Some(v), None) => Err(
                ProofError::NonInclusionWhereInclusionExpected { proof_key: None },
            ),
            (None, Some(leaf)) => if leaf.key@ == key@ {
                Err(ProofError::KeyExistsInNonInclusionProof { key: key })
            } else if common_prefix_len(key@, leaf.key@) < n {
                Err(
                    ProofError::InvalidNonInclusionProof {
                        common_prefix_bits_len: common_prefix_len(key@, leaf.key@) as usize,
                        num_siblings: n as usize,
                    },
                )
            } else {
                Ok(())
            },
            (None, None) => Ok(()),
        };
        if claim is Err {
            claim
        } else if proof_root(proof, key@) != expected_root@ {
            Err(
                ProofError::RootMismatch {
                    actual_root_hash: hash_value_of(proof_root(proof, key@)),
                    expected_root_hash: expected_root,
                },
            )
        } else {
            Ok(())
        }
    }
}

/// Verification is deterministic: two verifications of the same proof,
/// against the same root, for the same key and the same claimed value, give
/// the same outcome.
pub proof fn lemma_verify_deterministic(
    proof: SparseMerkleProof,
    root: HashValue,
    key: HashValue,
    value: Option<Seq<u8>>,
    first: Result<(), ProofError>,
    second: Result<(), ProofError>,
)
    requires
        first == verify_outcome(proof, root, key, value),
        second == verify_outcome(proof, root, key, value),
    ensures
        first == second,
{
}

proof fn lemma_walk_up_same_bits(start: Seq<u8>, siblings: Seq<HashValue>, k1: Seq<u8>, k2: Seq<u8>, m: int)
    requires
        m <= siblings.len(),
        forall|j: int| 0 <= j < siblings.len() ==> bit_of(k1, j) == bit_of(k2, j),
    ensures
        walk_up(start, siblings, k1, m) == walk_up(start, siblings, k2, m),
    decreases m,
{
    if m > 0 {
        lemma_walk_up_same_bits(start, siblings, k1, k2, m - 1);
        assert(bit_of(k1, siblings.len() - m) == bit_of(k2, siblings.len() - m));
    }
}

/// Inclusion soundness: a proof whose leaf holds `key` and the digest of
/// `value`, checked against the root that its siblings rebuild, verifies
/// the inclusion of `value` under `key`. Changing the trusted root, the
/// leaf's key or the leaf's value digest makes it fail.
pub proof fn lemma_inclusion_sound(
    proof: SparseMerkleProof,
    root: HashValue,
    key: HashValue,
    value: Seq<u8>,
    other_root: HashValue,
    other_key: HashValue,
    other_value_hash: HashValue,
)
    requires
        proof.siblings@.len() <= 256,
        proof.leaf matches Some(leaf) && leaf.key@ == key@ && leaf.value_hash@ == blob_digest(value),
        root@ == proof_root(proof, key@),
        other_root@ != root@,
        other_key@ != key@,
        other_value_hash@ != blob_digest(value),
    ensures
        verify_outcome(proof, root, key, Some(value)) == Ok::<(), ProofError>(()),
        verify_outcome(proof, other_root, key, Some(value)) is Err,
        verify_outcome(
            SparseMerkleProof { leaf: Some(SparseMerkleLeafNode { key: other_key, value_hash: proof.leaf.unwrap().value_hash }), siblings: proof.siblings },
            root,
            key,
            Some(value),
        ) is Err,
        verify_outcome(
            SparseMerkleProof { leaf: Some(SparseMerkleLeafNode { key: key, value_hash: other_value_hash }), siblings: proof.siblings },
            root,
            key,
            Some(value),
        ) is Err,
{
}

/// Non-inclusion soundness for an empty subtree: a proof without a leaf,
/// checked against the root that its siblings rebuild from the placeholder
/// along the path of `key`, verifies that `key` maps to nothing.
pub proof fn lemma_empty_subtree_non_inclusion_sound(
    proof: SparseMerkleProof,
    root: HashValue,
    key: HashValue,
)
    requires
        proof.siblings@.len() <= 256,
        proof.leaf is None,
        root@ == root_from(placeholder(), proof.siblings@, key@),
    ensures
        verify_outcome(proof, root, key, None) == Ok::<(), ProofError>(()),
{
}

/// Non-inclusion soundness for an occupied subtree: take a proof whose leaf
/// is the sole occupant of its subtree, and the root that its siblings
/// rebuild along the path of the leaf's own key. For any other key, it
/// verifies that the key maps to nothing exactly when the key shares at
/// least as many leading bits with the leaf's key as the proof has
/// siblings.
pub proof fn lemma_occupied_subtree_non_inclusion_sound(
    proof: SparseMerkleProof,
    root: HashValue,
    key: HashValue,
)
    requires
        proof.siblings@.len() <= 256,
        proof.leaf matches Some(leaf) && leaf.key@ != key@,
        root@ == proof_root(proof, proof.leaf.unwrap().key@),
    ensures
        verify_outcome(proof, root, key, None) == Ok::<(), ProofError>(())
            <==> common_prefix_len(key@, proof.leaf.unwrap().key@) >= proof.siblings@.len(),
{
    let leaf = proof.leaf.unwrap();
    let n = proof.siblings@.len();
    crate::hash::lemma_common_prefix_bound(key, leaf.key);
    if common_prefix_len(key@, leaf.key@) >= n {
        crate::hash::lemma_common_prefix_bits_agree(key, leaf.key);
        lemma_walk_up_same_bits(bottom_digest(proof), proof.siblings@, key@, leaf.key@, n as int);
    }
}

/// Inclusion and non-inclusion exclude each other: no proof verifies both
/// that `key` maps to `value` and that `key` maps to nothing, against any
/// root.
pub proof fn lemma_inclusion_excludes_non_inclusion(
    proof: SparseMerkleProof,
    root: HashValue,
    key: HashValue,
    value: Seq<u8>,
)
    ensures
        !(verify_outcome(proof, root, key, Some(value)) is Ok && verify_outcome(proof, root, key, None) is Ok),
{
}

impl SparseMerkleProof {
    /// A proof with leaf `leaf` and siblings `siblings`, bottom level first.
    pub fn new(leaf: Option<SparseMerkleLeafNode>, siblings: Vec<HashValue>) -> (r: SparseMerkleProof)
        ensures
            r.leaf == leaf,
            r.siblings@ == siblings@,
    {
        SparseMerkleProof { leaf, siblings }
    }

    /// The leaf of the proof.
    pub fn leaf(&self) -> (r: Option<SparseMerkleLeafNode>)
        ensures
            r == self.leaf,
    {
        self.leaf
    }

    /// The siblings of the proof, bottom level first.
    pub fn siblings(&self) -> (r: &[HashValue])
        ensures
            r@ == self.siblings@,
    {
        self.siblings.as_slice()
    }

    /// Verifies against `expected_root` that `element_key` maps to
    /// `element_blob` where it is present, and that `element_key` maps to
    /// nothing where it is absent.
    pub fn verify(
        &self,
        expected_root_hash: HashValue,
        element_key: HashValue,
        element_blob: Option<&AccountStateBlob>,
    ) -> (r: Result<(), ProofError>)
        ensures
            r == verify_outcome(
                *self,
                expected_root_hash,
                element_key,
                match element_blob {
                    Some(b) => Some(b@),
                    None => None,
                },
            ),
    {
        let ghost value = match element_blob {
            Some(b) => Some(b@),
            None => None,
        };
        let n = self.siblings.len();
        if n > HASH_LENGTH_IN_BITS {
            return Err(ProofError::TooManySiblings { num_siblings: n });
        }
        match (element_blob, self.leaf) {
            (Some(blob), Some(leaf)) => {
                if element_key != leaf.key {
                    return Err(
                        ProofError::NonInclusionWhereInclusionExpected { proof_key: Some(leaf.key) },
                    );
                }
                let hash = blob.hash();
                if hash != leaf.value_hash {
                    proof {
                        lemma_hash_value_of(hash);
                    }
                    return Err(
                        ProofError::ValueHashMismatch {
                            proof_value_hash: leaf.value_hash,
                            expected_value_hash: hash,
                        },
                    );
                }
            },
            (Some(_blob), None) => {
                return Err(ProofError::NonInclusionWhereInclusionExpected { proof_key: None });
            },
            (None, Some(leaf)) => {
                if element_key == leaf.key {
                    return Err(ProofError::KeyExistsInNonInclusionProof { key: element_key });
                }
                let common = element_key.common_prefix_bits_len(leaf.key);
                if common < n {
                    return Err(
                        ProofError::InvalidNonInclusionProof {
                            common_prefix_bits_len: common,
                            num_siblings: n,
                        },
                    );
                }
            },
            (None, None) => {},
        }
        let mut current = match self.leaf {
            Some(leaf) => leaf.hash(),
            None => sparse_merkle_placeholder_hash(),
        };
        let mut i: usize = 0;
        while i < n
            invariant
                n == self.siblings@.len(),
                n <= 256,
                i <= n,
                current@ == walk_up(bottom_digest(*self), self.siblings@, element_key@, i as int),
            decreases n - i,
        {
            let sibling = self.siblings[i];
            let node = if element_key.bit(n - 1 - i) {
                MerkleTreeInternalNode::new(sibling, current)
            } else {
                MerkleTreeInternalNode::new(current, sibling)
            };
            current = node.sparse_merkle_hash();
            i = i + 1;
        }
        if current != expected_root_hash {
            proof {
                lemma_hash_value_of(current);
            }
            return Err(
                ProofError::RootMismatch {
                    actual_root_hash: current,
                    expected_root_hash: expected_root_hash,
                },
            );
        }
        Ok(())
    }
}

} // verus!
