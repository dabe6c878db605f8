//! Section state: elder committees, the member table, and the map of known
//! sections.

use vstd::prelude::*;
use core::cmp::Ordering;
use crate::peer::Peer;
use crate::xor_space::Prefix;
use crate::xor_space::XorName;
use crate::xor_space::seq_cmp;

verus! {

/// The age a member starts with.
pub const MIN_AGE: u8 = 4;

/// A section signature: the section key it was made under, and the BLS
/// signature bytes over the canonical encoding of the signed value.
#[derive(Clone, Debug)]
pub struct Proof {
    pub public_key: Vec<u8>,
    pub signature: Vec<u8>,
}

/// A value together with the section signature that covers it.
#[derive(Clone, Debug)]
pub struct Proven<T> {
    pub value: T,
    pub proof: Proof,
}

impl<T> Proven<T> {
    /// Pairs a value with its proof.
    pub fn new(value: T, proof: Proof) -> (r: Proven<T>)
        ensures
            r.value == value,
            r.proof == proof,
    {
        Proven { value, proof }
    }
}

/// The committee identity of a section at a point in time: its prefix and
/// its elders, ordered by name.
#[derive(Clone, Debug)]
pub struct EldersInfo {
    pub prefix: Prefix,
    pub elders: Vec<Peer>,
}

impl EldersInfo {
    /// Elders are strictly ordered by name (hence unique), and every elder's
    /// name is compatible with the section's prefix.
    pub open spec fn wf(self) -> bool {
        &&& self.prefix.wf()
        &&& forall|i: int, j: int|
            0 <= i < j < self.elders@.len() ==> seq_cmp(
                #[trigger] self.elders@[i].name@,
                #[trigger] self.elders@[j].name@,
            ) == Ordering::Less
        &&& forall|i: int|
            0 <= i < self.elders@.len() ==> self.prefix.spec_matches(
                #[trigger] self.elders@[i].name@,
            )
    }

    /// Whether some elder carries the given name.
    pub open spec fn spec_contains_elder(self, n: Seq<u8>) -> bool {
        exists|i: int| 0 <= i < self.elders@.len() && #[trigger] self.elders@[i].name@ == n
    }

    /// Builds a committee identity, when the elder list is ordered by name
    /// and every elder lies under the prefix.
    pub fn new(prefix: Prefix, elders: Vec<Peer>) -> (r: Option<EldersInfo>)
        requires
            prefix.wf(),
        ensures
            r is Some ==> r.unwrap().wf() && r.unwrap().prefix == prefix && r.unwrap().elders
                == elders,
            r is None ==> !(EldersInfo { prefix, elders }).wf(),
    {
        let n = elders.len();
        let mut i: usize = 0;
        while i < n
            invariant
                i <= n,
                n == elders@.len(),
                prefix.wf(),
                forall|j: int, k: int|
                    0 <= j < k <= i && k < n ==> seq_cmp(
                        #[trigger] elders@[j].name@,
                        #[trigger] elders@[k].name@,
                    ) == Ordering::Less,
                forall|j: int|
                    0 <= j < i ==> prefix.spec_matches(#[trigger] elders@[j].name@),
            decreases n - i,
        {
            if !prefix.matches(&elders[i].name) {
                return None;
            }
            if i + 1 < n {
                match crate::xor_space::cmp_names(&elders[i].name, &elders[i + 1].name) {
                    Ordering::Less => (),
                    _ => {
                        return None;
                    },
                }
            }
            proof {
                assert forall|j: int, k: int|
                    0 <= j < k <= i + 1 && k < n implies seq_cmp(
                    #[trigger] elders@[j].name@,
                    #[trigger] elders@[k].name@,
                ) == Ordering::Less by {
                    if k == i + 1 && j < i {
                        lemma_cmp_less_trans(elders@[j].name@, elders@[i as int].name@, elders@[k].name@);
                    }
                }
            }
            i += 1;
        }
        Some(EldersInfo { prefix, elders })
    }

    /// Whether the committee record is well formed.
    pub fn is_valid(&self) -> (r: bool)
        ensures
            r == self.wf(),
    {
        if !self.prefix.is_valid() {
            return false;
        }
        let n = self.elders.len();
        let mut i: usize = 0;
        while i < n
            invariant
                i <= n,
                n == self.elders@.len(),
                self.prefix.wf(),
                forall|j: int, k: int|
                    0 <= j < k <= i && k < n ==> seq_cmp(
                        #[trigger] self.elders@[j].name@,
                        #[trigger] self.elders@[k].name@,
                    ) == Ordering::Less,
                forall|j: int|
                    0 <= j < i ==> self.prefix.spec_matches(#[trigger] self.elders@[j].name@),
            decreases n - i,
        {
            if !self.prefix.matches(&self.elders[i].name) {
                return false;
            }
            if i + 1 < n {
                match crate::xor_space::cmp_names(&self.elders[i].name, &self.elders[i + 1].name) {
                    Ordering::Less => (),
                    _ => {
                        return false;
                    },
                }
            }
            proof {
                assert forall|j: int, k: int|
                    0 <= j < k <= i + 1 && k < n implies seq_cmp(
                    #[trigger] self.elders@[j].name@,
                    #[trigger] self.elders@[k].name@,
                ) == Ordering::Less by {
                    if k == i + 1 && j < i {
                        lemma_cmp_less_trans(
                            self.elders@[j].name@,
                            self.elders@[i as int].name@,
                            self.elders@[k].name@,
                        );
                    }
                }
            }
            i += 1;
        }
        true
    }

    /// The number of elders.
    pub fn len(&self) -> (r: usize)
        ensures
            r == self.elders@.len(),
    {
        self.elders.len()
    }

    /// The position of the elder with the given name, if present.
    pub fn position(&self, n: &XorName) -> (r: Option<usize>)
        ensures
            match r {
                Some(i) => i < self.elders@.len() && self.elders@[i as int].name@ == n@,
                None => !self.spec_contains_elder(n@),
            },
    {
        let mut i: usize = 0;
        while i < self.elders.len()
            invariant
                i <= self.elders@.len(),
                forall|j: int| 0 <= j < i ==> #[trigger] self.elders@[j].name@ != n@,
            decreases self.elders@.len() - i,
        {
            if self.elders[i].name() == n {
                return Some(i);
            }
            i += 1;
        }
        None
    }

    /// All elders except the one with the given name.
    pub fn elders_except(&self, n: &XorName) -> (r: Vec<Peer>)
        ensures
            r@ == self.elders@.filter(|p: Peer| p.name@ != n@),
    {
        let mut r: Vec<Peer> = Vec::new();
        let mut i: usize = 0;
        proof {
            assert(self.elders@.take(0).filter(|p: Peer| p.name@ != n@) =~= Seq::<Peer>::empty());
        }
        while i < self.elders.len()
            invariant
                i <= self.elders@.len(),
                r@ == self.elders@.take(i as int).filter(|p: Peer| p.name@ != n@),
            decreases self.elders@.len() - i,
        {
            proof {
                assert(self.elders@.take(i + 1).drop_last() =~= self.elders@.take(i as int));
                assert(self.elders@.take(i + 1).last() == self.elders@[i as int]);
                reveal(Seq::filter);
            }
            if !(self.elders[i].name() == n) {
                let p = self.elders[i];
                r.push(p);
            }
            i += 1;
        }
        proof {
            assert(self.elders@.take(self.elders@.len() as int) =~= self.elders@);
        }
        r
    }
}

/// Copies a peer list.
pub fn copy_peers(v: &Vec<Peer>) -> (r: Vec<Peer>)
    ensures
        r@ == v@,
{
    let mut r: Vec<Peer> = Vec::new();
    let mut i: usize = 0;
    while i < v.len()
        invariant
            i <= v@.len(),
            r@ == v@.take(i as int),
        decreases v@.len() - i,
    {
        r.push(v[i]);
        proof {
            assert(r@ =~= v@.take(i + 1));
        }
        i += 1;
    }
    proof {
        assert(v@.take(v@.len() as int) =~= v@);
    }
    r
}

proof fn lemma_cmp_less_trans(a: Seq<u8>, b: Seq<u8>, c: Seq<u8>)
    requires
        a.len() == b.len(),
        b.len() == c.len(),
        seq_cmp(a, b) == Ordering::Less,
        seq_cmp(b, c) == Ordering::Less,
    ensures
        seq_cmp(a, c) == Ordering::Less,
{
    crate::xor_space::lemma_seq_cmp_trans_less(a, b, c);
}

} // verus!
