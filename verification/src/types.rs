//! Identifiers and keys of the legacy group-key exchange.

use vstd::prelude::*;
use crate::bytes_util::bytes_eq;
use crate::bytes_util::copy_bytes;

verus! {

/// How many nodes make up a group.
pub const GROUP_SIZE: u32 = 23;

/// How many group members must agree for the group to act.
pub const QUORUM_SIZE: u32 = 19;

/// An identifier in the distributed hash table.
#[derive(Debug)]
pub struct DhtId(pub Vec<u8>);

impl DhtId {
    /// A fresh random identifier.
    pub fn generate_random() -> (r: DhtId)
        ensures
            r.0@.len() == 32,
    {
        let bytes = crate::crypto::random_bytes32();
        DhtId(bytes_of_array(bytes))
    }

    /// Copies the identifier.
    pub fn duplicate(&self) -> (r: DhtId)
        ensures
            r.0@ == self.0@,
    {
        DhtId(copy_bytes(&self.0))
    }

    /// Whether two identifiers hold the same bytes.
    pub fn equals(&self, other: &DhtId) -> (r: bool)
        ensures
            r == (self.0@ == other.0@),
    {
        bytes_eq(&self.0, &other.0)
    }
}

/// A public signing key.
#[derive(Debug)]
pub struct PublicSignKey(pub Vec<u8>);

impl PublicSignKey {
    /// A fresh random key, standing for a newly generated signing pair.
    pub fn generate_random() -> (r: PublicSignKey)
        ensures
            r.0@.len() == 32,
    {
        let bytes = crate::crypto::random_bytes32();
        PublicSignKey(bytes_of_array(bytes))
    }

    /// Copies the key.
    pub fn duplicate(&self) -> (r: PublicSignKey)
        ensures
            r.0@ == self.0@,
    {
        PublicSignKey(copy_bytes(&self.0))
    }

    /// Whether two keys hold the same bytes.
    pub fn equals(&self, other: &PublicSignKey) -> (r: bool)
        ensures
            r == (self.0@ == other.0@),
    {
        bytes_eq(&self.0, &other.0)
    }
}

/// The bytes of a fixed array, as a vector.
pub fn bytes_of_array(a: [u8; 32]) -> (r: Vec<u8>)
    ensures
        r@ == a@,
{
    let mut r: Vec<u8> = Vec::new();
    let mut i: usize = 0;
    while i < 32
        invariant
            i <= 32,
            r@ == a@.take(i as int),
        decreases 32 - i,
    {
        r.push(a[i]);
        proof {
            assert(r@ =~= a@.take(i + 1));
        }
        i += 1;
    }
    proof {
        assert(a@.take(32) =~= a@);
    }
    r
}

} // verus!
