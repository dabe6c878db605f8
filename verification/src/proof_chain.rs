//! The section proof chain: a sequence of BLS public keys, each signed by
//! its predecessor, authenticating the current section key and every
//! historical key.
//!
//! The chain is append-only; truncation is only permitted from the head,
//! when pruning acknowledged prefixes.

use vstd::prelude::*;
use crate::bytes_util::bytes_eq;
use crate::bytes_util::copy_bytes;
use crate::crypto::bls_verifies;
use crate::crypto::bls_verify;

verus! {

/// One link of the chain: a section key and the signature over its bytes
/// under the previous key.
pub struct SectionProofBlock {
    pub key: Vec<u8>,
    pub signature: Vec<u8>,
}

/// A non-empty sequence of BLS public keys, each signed under its
/// predecessor; the first is the genesis key.
pub struct SectionProofChain {
    pub genesis_key: Vec<u8>,
    pub blocks: Vec<SectionProofBlock>,
}

impl SectionProofChain {
    /// How many keys the chain holds.
    pub open spec fn key_count(self) -> int {
        1 + self.blocks@.len() as int
    }

    /// The key with the given index; index zero is the genesis key.
    pub open spec fn spec_key_at(self, i: int) -> Seq<u8> {
        if i == 0 {
            self.genesis_key@
        } else {
            self.blocks@[i - 1].key@
        }
    }

    /// Every block's key is signed, under the key before it, by a valid
    /// threshold signature.
    pub open spec fn wf(self) -> bool {
        forall|i: int|
            0 <= i < self.blocks@.len() ==> bls_verifies(
                self.spec_key_at(i),
                (#[trigger] self.blocks@[i].signature)@,
                self.blocks@[i].key@,
            )
    }

    /// Whether some key of the chain has the given bytes.
    pub open spec fn spec_has_key(self, key: Seq<u8>) -> bool {
        exists|i: int| 0 <= i < self.key_count() && #[trigger] self.spec_key_at(i) == key
    }

    /// A chain holding the genesis key alone.
    pub fn new(genesis_key: Vec<u8>) -> (r: SectionProofChain)
        ensures
            r.wf(),
            r.key_count() == 1,
            r.spec_key_at(0) == genesis_key@,
    {
        SectionProofChain { genesis_key, blocks: Vec::new() }
    }

    /// The index of the newest key.
    pub fn last_key_index(&self) -> (r: usize)
        ensures
            r == self.key_count() - 1,
    {
        self.blocks.len()
    }

    /// The newest key of the chain.
    pub fn last_key(&self) -> (r: &Vec<u8>)
        ensures
            r@ == self.spec_key_at(self.key_count() - 1),
    {
        if self.blocks.len() == 0 {
            &self.genesis_key
        } else {
            &self.blocks[self.blocks.len() - 1].key
        }
    }

    /// Whether the chain holds a key with the given bytes.
    pub fn has_key(&self, key: &Vec<u8>) -> (r: bool)
        ensures
            r == self.spec_has_key(key@),
    {
        if bytes_eq(&self.genesis_key, key) {
            proof {
                assert(self.spec_key_at(0) == key@);
            }
            return true;
        }
        let mut i: usize = 0;
        while i < self.blocks.len()
            invariant
                i <= self.blocks@.len(),
                self.spec_key_at(0) != key@,
                forall|j: int| 1 <= j <= i ==> #[trigger] self.spec_key_at(j) != key@,
            decreases self.blocks@.len() - i,
        {
            if bytes_eq(&self.blocks[i].key, key) {
                proof {
                    assert(self.spec_key_at(i + 1) == key@);
                }
                return true;
            }
            proof {
                assert(self.spec_key_at(i + 1) == self.blocks@[i as int].key@);
            }
            i += 1;
        }
        false
    }

    /// Appends a new key when its signature verifies under the newest key;
    /// otherwise the chain stays as it is.  The chain never shrinks here:
    /// an extension carries a valid signature by the previous key, or
    /// nothing changes.
    pub fn push(&mut self, key: Vec<u8>, signature: Vec<u8>) -> (r: bool)
        requires
            old(self).wf(),
        ensures
            final(self).wf(),
            r == bls_verifies(
                old(self).spec_key_at(old(self).key_count() - 1),
                signature@,
                key@,
            ),
            r ==> final(self).key_count() == old(self).key_count() + 1 && final(self).spec_key_at(
                final(self).key_count() - 1,
            ) == key@ && (forall|i: int|
                0 <= i < old(self).key_count() ==> final(self).spec_key_at(i) == old(
                    self,
                ).spec_key_at(i)),
            !r ==> *final(self) == *old(self),
    {
        let valid = bls_verify(self.last_key(), &signature, &key);
        if !valid {
            return false;
        }
        self.blocks.push(SectionProofBlock { key, signature });
        proof {
            assert forall|i: int|
                0 <= i < self.blocks@.len() implies bls_verifies(
                self.spec_key_at(i),
                (#[trigger] self.blocks@[i].signature)@,
                self.blocks@[i].key@,
            ) by {
                if i < self.blocks@.len() - 1 {
                    assert(bls_verifies(
                        old(self).spec_key_at(i),
                        old(self).blocks@[i].signature@,
                        old(self).blocks@[i].key@,
                    ));
                }
            }
        }
        true
    }

    /// Drops the `count` oldest keys from the head of the chain, so that the
    /// key with index `count` becomes the new genesis key.  Pruning is the
    /// only way the chain shrinks, and it never drops the newest key.
    pub fn prune_head(&mut self, count: usize) -> (r: bool)
        requires
            old(self).wf(),
        ensures
            final(self).wf(),
            r == (count < old(self).key_count()),
            r ==> final(self).key_count() == old(self).key_count() - count && (forall|i: int|
                0 <= i < final(self).key_count() ==> final(self).spec_key_at(i) == old(
                    self,
                ).spec_key_at(i + count)),
            !r ==> *final(self) == *old(self),
    {
        if count == 0 {
            return true;
        }
        if count > self.blocks.len() {
            return false;
        }
        let mut new_genesis = copy_bytes(&self.blocks[count - 1].key);
        let mut new_blocks: Vec<SectionProofBlock> = Vec::new();
        let mut i: usize = count;
        while i < self.blocks.len()
            invariant
                count <= i <= self.blocks@.len(),
                *self == *old(self),
                new_blocks@.len() == i - count,
                forall|j: int|
                    #![trigger new_blocks@[j]]
                    0 <= j < i - count ==> new_blocks@[j].key@ == self.blocks@[j + count].key@
                        && new_blocks@[j].signature@ == self.blocks@[j + count].signature@,
            decreases self.blocks@.len() - i,
        {
            let b = SectionProofBlock {
                key: copy_bytes(&self.blocks[i].key),
                signature: copy_bytes(&self.blocks[i].signature),
            };
            new_blocks.push(b);
            proof {
                let ghost prev = new_blocks@.drop_last();
                assert(new_blocks@[(i - count) as int].key@ == self.blocks@[i as int].key@);
                assert(new_blocks@[(i - count) as int].signature@ == self.blocks@[i as int].signature@);
                assert forall|j: int| #![trigger new_blocks@[j]] 0 <= j < i + 1 - count implies
                    new_blocks@[j].key@ == self.blocks@[j + count].key@ && new_blocks@[j].signature@
                        == self.blocks@[j + count].signature@ by {
                    if j < i - count {
                        assert(new_blocks@[j] == prev[j]);
                    }
                }
            }
            i += 1;
        }
        let ghost old_chain = *self;
        self.genesis_key = new_genesis;
        self.blocks = new_blocks;
        proof {
            assert forall|j: int|
                0 <= j < self.key_count() implies self.spec_key_at(j) == old_chain.spec_key_at(
                j + count,
            ) by {
                if j == 0 {
                    assert(self.spec_key_at(0) == old_chain.blocks@[count - 1].key@);
                } else {
                    assert(self.blocks@[j - 1].key@ == old_chain.blocks@[j - 1 + count].key@);
                }
            }
            assert forall|j: int|
                0 <= j < self.blocks@.len() implies bls_verifies(
                self.spec_key_at(j),
                (#[trigger] self.blocks@[j].signature)@,
                self.blocks@[j].key@,
            ) by {
                assert(bls_verifies(
                    old_chain.spec_key_at(j + count),
                    old_chain.blocks@[j + count].signature@,
                    old_chain.blocks@[j + count].key@,
                ));
            }
        }
        true
    }
}

impl SectionProofChain {
    /// Checks every link of the chain: whether each block's key is signed,
    /// under the key before it, by a valid threshold signature.
    pub fn validate_links(&self) -> (r: bool)
        ensures
            r == self.wf(),
    {
        let mut i: usize = 0;
        while i < self.blocks.len()
            invariant
                i <= self.blocks@.len(),
                forall|j: int|
                    0 <= j < i ==> bls_verifies(
                        self.spec_key_at(j),
                        (#[trigger] self.blocks@[j].signature)@,
                        self.blocks@[j].key@,
                    ),
            decreases self.blocks@.len() - i,
        {
            let prev: &Vec<u8> = if i == 0 {
                &self.genesis_key
            } else {
                &self.blocks[i - 1].key
            };
            if !bls_verify(prev, &self.blocks[i].signature, &self.blocks[i].key) {
                return false;
            }
            i += 1;
        }
        true
    }
}

/// Every key of a well-formed chain, except the genesis key, is covered by a
/// valid threshold signature under the key before it.
pub proof fn lemma_chain_links_verified(c: SectionProofChain, i: int)
    requires
        c.wf(),
        1 <= i < c.key_count(),
    ensures
        bls_verifies(c.spec_key_at(i - 1), c.blocks@[i - 1].signature@, c.spec_key_at(i)),
{
}

} // verus!
