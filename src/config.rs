use vstd::prelude::*;

verus! {

/// A network identity kept in secure storage rather than in the
/// configuration: the names under which its key and peer id are stored,
/// and the storage backend that holds them.
#[derive(Clone, Debug, PartialEq, Eq)]
pub struct IdentityFromStorage {
    pub key_name: String,
    pub peer_id_name: String,
    pub backend: String,
}

} // verus!
