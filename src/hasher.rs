use vstd::prelude::*;
use tiny_keccak::Hasher;
use crate::hash::HashValue;

verus! {

/// The SHA3-256 digest of a byte string.
pub uninterp spec fn sha3_256_of(data: Seq<u8>) -> Seq<u8>;

/// Relies on tiny_keccak's `Sha3::v256` with `Hasher::update` and
/// `Hasher::finalize`: the result is the SHA3-256 digest of `data`, which
/// depends on the bytes alone.
#[verifier::external_body]
fn sha3_256(data: &[u8]) -> (r: [u8; 32])
    ensures
        r@ == sha3_256_of(data@),
{
    let mut state = tiny_keccak::Sha3::v256();
    state.update(data);
    let mut out = [0u8; 32];
    state.finalize(&mut out);
    out
}

/// The structural roles in which values are hashed. Each role seeds its
/// hasher with its own prefix, so that the same bytes hashed in two roles
/// give unrelated digests.
#[derive(Clone, Copy, Debug, PartialEq, Eq, Structural)]
pub enum HasherRole {
    /// Internal nodes of the sparse Merkle tree.
    SparseMerkleInternal,
    /// Leaf nodes of the sparse Merkle tree.
    SparseMerkleLeafNode,
    /// Account state blobs, the values stored in the tree.
    AccountStateBlob,
    /// Internal nodes of the transaction accumulator.
    TransactionAccumulator,
}

/// The salt that every role name is prefixed with: `LIBRA::`.
pub open spec fn hash_prefix() -> Seq<u8> {
    seq![76u8, 73u8, 66u8, 82u8, 65u8, 58u8, 58u8]
}

/// The canonical name of a role, as ASCII bytes.
pub open spec fn role_name(role: HasherRole) -> Seq<u8> {
    match role {
        HasherRole::SparseMerkleInternal => seq![83u8, 112u8, 97u8, 114u8, 115u8, 101u8, 77u8, 101u8, 114u8, 107u8, 108u8, 101u8, 73u8, 110u8, 116u8, 101u8, 114u8, 110u8, 97u8, 108u8],
        HasherRole::SparseMerkleLeafNode => seq![83u8, 112u8, 97u8, 114u8, 115u8, 101u8, 77u8, 101u8, 114u8, 107u8, 108u8, 101u8, 76u8, 101u8, 97u8, 102u8, 78u8, 111u8, 100u8, 101u8],
        HasherRole::AccountStateBlob => seq![65u8, 99u8, 99u8, 111u8, 117u8, 110u8, 116u8, 83u8, 116u8, 97u8, 116u8, 101u8, 66u8, 108u8, 111u8, 98u8],
        HasherRole::TransactionAccumulator => seq![84u8, 114u8, 97u8, 110u8, 115u8, 97u8, 99u8, 116u8, 105u8, 111u8, 110u8, 65u8, 99u8, 99u8, 117u8, 109u8, 117u8, 108u8, 97u8, 116u8, 111u8, 114u8],
    }
}

/// The 32-byte seed of a role: the digest of the salted role name.
pub open spec fn role_seed(role: HasherRole) -> Seq<u8> {
    sha3_256_of(hash_prefix() + role_name(role))
}

/// The digest of `data` hashed in `role`.
pub open spec fn role_digest(role: HasherRole, data: Seq<u8>) -> Seq<u8> {
    sha3_256_of(role_seed(role) + data)
}

fn salted_role_name(role: HasherRole) -> (r: Vec<u8>)
    ensures
        r@ == hash_prefix() + role_name(role),
{
    let mut r: Vec<u8> = vec![76u8, 73u8, 66u8, 82u8, 65u8, 58u8, 58u8];
    let name: Vec<u8> = match role {
        HasherRole::SparseMerkleInternal => vec![83u8, 112u8, 97u8, 114u8, 115u8, 101u8, 77u8, 101u8, 114u8, 107u8, 108u8, 101u8, 73u8, 110u8, 116u8, 101u8, 114u8, 110u8, 97u8, 108u8],
        HasherRole::SparseMerkleLeafNode => vec![83u8, 112u8, 97u8, 114u8, 115u8, 101u8, 77u8, 101u8, 114u8, 107u8, 108u8, 101u8, 76u8, 101u8, 97u8, 102u8, 78u8, 111u8, 100u8, 101u8],
        HasherRole::AccountStateBlob => vec![65u8, 99u8, 99u8, 111u8, 117u8, 110u8, 116u8, 83u8, 116u8, 97u8, 116u8, 101u8, 66u8, 108u8, 111u8, 98u8],
        HasherRole::TransactionAccumulator => vec![84u8, 114u8, 97u8, 110u8, 115u8, 97u8, 99u8, 116u8, 105u8, 111u8, 110u8, 65u8, 99u8, 99u8, 117u8, 109u8, 117u8, 108u8, 97u8, 116u8, 111u8, 114u8],
    };
    append_bytes(&mut r, name.as_slice());
    r
}

/// Appends `bytes` to `v`.
pub fn append_bytes(v: &mut Vec<u8>, bytes: &[u8])
    ensures
        final(v)@ == old(v)@ + bytes@,
{
    let mut i: usize = 0;
    while i < bytes.len()
        invariant
            i <= bytes@.len(),
            v@ == old(v)@ + bytes@.subrange(0, i as int),
        decreases bytes@.len() - i,
    {
        v.push(bytes[i]);
        i = i + 1;
        assert(v@ =~= old(v)@ + bytes@.subrange(0, i as int));
    }
    assert(bytes@.subrange(0, i as int) =~= bytes@);
}

/// An append-only hashing state for one role. The digest depends only on
/// the concatenation of the bytes fed to it, not on how they were split.
pub struct CryptoHasher {
    role: HasherRole,
    input: Vec<u8>,
}

impl CryptoHasher {
    /// The role the hasher was made for.
    pub closed spec fn role(&self) -> HasherRole {
        self.role
    }

    /// The bytes fed to the hasher so far.
    pub closed spec fn input(&self) -> Seq<u8> {
        self.input@
    }

    /// A fresh hasher for `role`, fed no bytes yet.
    pub fn new(role: HasherRole) -> (r: CryptoHasher)
        ensures
            r.role() == role,
            r.input() == Seq::<u8>::empty(),
    {
        CryptoHasher { role, input: Vec::new() }
    }

    /// Feeds `bytes` to the hasher.
    pub fn update(&mut self, bytes: &[u8])
        ensures
            final(self).role() == old(self).role(),
            final(self).input() == old(self).input() + bytes@,
    {
        append_bytes(&mut self.input, bytes);
    }

    /// The digest of everything fed to the hasher, in its role.
    pub fn finish(self) -> (r: HashValue)
        ensures
            r@ == role_digest(self.role(), self.input()),
    {
        let seed = sha3_256(salted_role_name(self.role).as_slice());
        let mut preimage: Vec<u8> = Vec::new();
        append_bytes(&mut preimage, seed.as_slice());
        append_bytes(&mut preimage, self.input.as_slice());
        HashValue::new(sha3_256(preimage.as_slice()))
    }
}

/// The digest of `data` hashed in `role`.
pub fn hash_under(role: HasherRole, data: &[u8]) -> (r: HashValue)
    ensures
        r@ == role_digest(role, data@),
{
    let mut hasher = CryptoHasher::new(role);
    hasher.update(data);
    assert(hasher.input() =~= data@);
    hasher.finish()
}

} // verus!
