use vstd::prelude::*;
use crate::hash::HashValue;
use crate::hasher::{role_digest, CryptoHasher, HasherRole};

verus! {

/// An opaque byte string holding an account-state snapshot: the value that
/// the sparse Merkle tree stores under a key.
#[derive(Clone, Debug)]
pub struct AccountStateBlob {
    pub blob: Vec<u8>,
}

/// The digest of a blob holding `bytes`: the bytes hashed in the blob role,
/// with no length prefix.
pub open spec fn blob_digest(bytes: Seq<u8>) -> Seq<u8> {
    role_digest(HasherRole::AccountStateBlob, bytes)
}

impl View for AccountStateBlob {
    type V = Seq<u8>;

    open spec fn view(&self) -> Seq<u8> {
        self.blob@
    }
}

impl AccountStateBlob {
    /// A blob holding `blob`.
    pub fn new(blob: Vec<u8>) -> (r: AccountStateBlob)
        ensures
            r@ == blob@,
    {
        AccountStateBlob { blob }
    }

    /// The bytes of the blob.
    pub fn as_bytes(&self) -> (r: &[u8])
        ensures
            r@ == self@,
    {
        self.blob.as_slice()
    }

    /// The bytes of the blob, taking it apart.
    pub fn into_bytes(self) -> (r: Vec<u8>)
        ensures
            r@ == self@,
    {
        self.blob
    }

    /// The digest of the blob in the blob role.
    pub fn hash(&self) -> (r: HashValue)
        ensures
            r@ == blob_digest(self@),
    {
        let mut hasher = CryptoHasher::new(HasherRole::AccountStateBlob);
        hasher.update(self.blob.as_slice());
        assert(hasher.input() =~= self@);
        hasher.finish()
    }
}

impl PartialEq for AccountStateBlob {
    fn eq(&self, other: &AccountStateBlob) -> (r: bool) {
        let n = self.blob.len();
        if n != other.blob.len() {
            return false;
        }
        let mut i: usize = 0;
        while i < n
            invariant
                n == self@.len(),
                n == other@.len(),
                i <= n,
                forall|j: int| 0 <= j < i ==> self@[j] == other@[j],
            decreases n - i,
        {
            if self.blob[i] != other.blob[i] {
                return false;
            }
            i = i + 1;
        }
        assert(self@ =~= other@);
        true
    }
}

impl vstd::std_specs::cmp::PartialEqSpecImpl for AccountStateBlob {
    open spec fn obeys_eq_spec() -> bool {
        true
    }

    open spec fn eq_spec(&self, other: &AccountStateBlob) -> bool {
        self@ == other@
    }
}

impl Eq for AccountStateBlob {
}

impl From<Vec<u8>> for AccountStateBlob {
    fn from(blob: Vec<u8>) -> (r: AccountStateBlob) {
        AccountStateBlob { blob }
    }
}

impl vstd::std_specs::convert::FromSpecImpl<Vec<u8>> for AccountStateBlob {
    open spec fn obeys_from_spec() -> bool {
        true
    }

    open spec fn from_spec(blob: Vec<u8>) -> AccountStateBlob {
        AccountStateBlob { blob }
    }
}

} // verus!
