use vstd::prelude::*;
use crate::hash::HashValue;
use crate::hasher::{append_bytes, role_digest, CryptoHasher, HasherRole};

verus! {

/// The digest of an internal node of the sparse Merkle tree with children
/// digests `left` and `right`.
pub open spec fn internal_digest(left: Seq<u8>, right: Seq<u8>) -> Seq<u8> {
    role_digest(HasherRole::SparseMerkleInternal, left + right)
}

/// The digest of a sparse Merkle leaf with key `key` and value digest
/// `value_hash`.
pub open spec fn leaf_digest(key: Seq<u8>, value_hash: Seq<u8>) -> Seq<u8> {
    role_digest(HasherRole::SparseMerkleLeafNode, key + value_hash)
}

/// An internal node of a Merkle tree: the digests of its two children. The
/// role it is hashed in is chosen when it is hashed.
#[derive(Clone, Copy, Debug)]
pub struct MerkleTreeInternalNode {
    pub left_child: HashValue,
    pub right_child: HashValue,
}

impl MerkleTreeInternalNode {
    pub fn new(left_child: HashValue, right_child: HashValue) -> (r: MerkleTreeInternalNode)
        ensures
            r.left_child == left_child,
            r.right_child == right_child,
    {
        MerkleTreeInternalNode { left_child, right_child }
    }

    /// The digest of the node in `role`: the left child's bytes, then the
    /// right child's.
    pub fn hash(&self, role: HasherRole) -> (r: HashValue)
        ensures
            r@ == role_digest(role, self.left_child@ + self.right_child@),
    {
        let mut hasher = CryptoHasher::new(role);
        hasher.update(self.left_child.hash.as_slice());
        hasher.update(self.right_child.hash.as_slice());
        assert(hasher.input() =~= self.left_child@ + self.right_child@);
        hasher.finish()
    }

    /// The digest of the node as an internal node of the sparse Merkle tree.
    pub fn sparse_merkle_hash(&self) -> (r: HashValue)
        ensures
            r@ == internal_digest(self.left_child@, self.right_child@),
    {
        self.hash(HasherRole::SparseMerkleInternal)
    }
}

/// A leaf of the sparse Merkle tree: a key and the digest of its value.
#[derive(Clone, Copy, Debug)]
pub struct SparseMerkleLeafNode {
    pub key: HashValue,
    pub value_hash: HashValue,
}

impl SparseMerkleLeafNode {
    pub fn new(key: HashValue, value_hash: HashValue) -> (r: SparseMerkleLeafNode)
        ensures
            r.key == key,
            r.value_hash == value_hash,
    {
        SparseMerkleLeafNode { key, value_hash }
    }

    pub fn key(&self) -> (r: HashValue)
        ensures
            r == self.key,
    {
        self.key
    }

    pub fn value_hash(&self) -> (r: HashValue)
        ensures
            r == self.value_hash,
    {
        self.value_hash
    }

    /// The digest of the leaf: the key's bytes, then the value digest's, in
    /// the leaf role.
    pub fn hash(&self) -> (r: HashValue)
        ensures
            r@ == leaf_digest(self.key@, self.value_hash@),
    {
        let mut preimage: Vec<u8> = Vec::new();
        append_bytes(&mut preimage, self.key.hash.as_slice());
        append_bytes(&mut preimage, self.value_hash.hash.as_slice());
        let mut hasher = CryptoHasher::new(HasherRole::SparseMerkleLeafNode);
        hasher.update(preimage.as_slice());
        assert(hasher.input() =~= self.key@ + self.value_hash@);
        hasher.finish()
    }
}

impl PartialEq for SparseMerkleLeafNode {
    fn eq(&self, other: &SparseMerkleLeafNode) -> (r: bool) {
        self.key == other.key && self.value_hash == other.value_hash
    }
}

impl vstd::std_specs::cmp::PartialEqSpecImpl for SparseMerkleLeafNode {
    open spec fn obeys_eq_spec() -> bool {
        true
    }

    open spec fn eq_spec(&self, other: &SparseMerkleLeafNode) -> bool {
        self.key@ == other.key@ && self.value_hash@ == other.value_hash@
    }
}

impl Eq for SparseMerkleLeafNode {
}

} // verus!
