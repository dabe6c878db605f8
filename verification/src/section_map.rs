//! The map of known sections: our own committee and the neighbouring ones.
//!
//! Invariant: the known prefixes are pairwise disjoint and together cover the
//! entire name space.

use vstd::prelude::*;
use core::cmp::Ordering;
use crate::peer::Peer;
use crate::section::EldersInfo;
use crate::section::Proven;
use crate::xor_space::Prefix;
use crate::xor_space::XorName;
use crate::xor_space::name_bit;
use crate::xor_space::seq_cmp;
use crate::xor_space::xor_bytes;
use crate::xor_space::spec_cmp_prefix_distance;
use crate::xor_space::cmp_prefix_distance;
use crate::xor_space::lemma_seq_cmp_trans_less;
use crate::xor_space::lemma_seq_cmp_trans_le;
use crate::xor_space::lemma_seq_cmp_total;
use crate::xor_space::lemma_extended_matches;
use crate::xor_space::lemma_disjoint_prefixes;
use vstd::seq_lib::to_multiset_build;
use vstd::seq_lib::to_multiset_insert;

verus! {

/// Two prefixes disagree at some bit lying inside both, so no name matches
/// both.
pub open spec fn spec_disjoint(p: Prefix, q: Prefix) -> bool {
    exists|k: int|
        0 <= k < vstd::math::min(p.bit_count as int, q.bit_count as int) && name_bit(p.name@, k)
            != name_bit(q.name@, k)
}

/// Whether two prefixes disagree at a bit lying inside both.
pub fn prefixes_disjoint(p: &Prefix, q: &Prefix) -> (r: bool)
    requires
        p.bit_count <= 256,
        q.bit_count <= 256,
    ensures
        r == spec_disjoint(*p, *q),
{
    let m: usize = if p.bit_count < q.bit_count {
        p.bit_count
    } else {
        q.bit_count
    };
    let mut i: usize = 0;
    while i < m
        invariant
            i <= m,
            m == vstd::math::min(p.bit_count as int, q.bit_count as int),
            m <= 256,
            forall|k: int| 0 <= k < i ==> name_bit(p.name@, k) == #[trigger] name_bit(q.name@, k),
        decreases m - i,
    {
        if p.name.bit(i) != q.name.bit(i) {
            return true;
        }
        i += 1;
    }
    false
}

/// `p` is not farther from target `t` than `q` is, under the prefix distance
/// order.
pub open spec fn spec_prefix_le(t: Seq<u8>, p: Prefix, q: Prefix) -> bool {
    spec_cmp_prefix_distance(t, p, q) != Ordering::Greater
}

/// The prefix distance order to a fixed target is transitive.
pub proof fn lemma_prefix_le_trans(t: Seq<u8>, p: Prefix, q: Prefix, r: Prefix)
    requires
        t.len() == 32,
        spec_prefix_le(t, p, q),
        spec_prefix_le(t, q, r),
    ensures
        spec_prefix_le(t, p, r),
{
    let xp = xor_bytes(t, p.spec_centre());
    let xq = xor_bytes(t, q.spec_centre());
    let xr = xor_bytes(t, r.spec_centre());
    let c1 = seq_cmp(xp, xq);
    let c2 = seq_cmp(xq, xr);
    if c1 == Ordering::Less && c2 == Ordering::Less {
        lemma_seq_cmp_trans_less(xp, xq, xr);
    } else if c1 == Ordering::Less && c2 == Ordering::Equal {
        crate::xor_space::lemma_seq_cmp_equal_eq(xq, xr);
    } else if c1 == Ordering::Equal && c2 == Ordering::Less {
        crate::xor_space::lemma_seq_cmp_equal_eq(xp, xq);
    } else if c1 == Ordering::Equal && c2 == Ordering::Equal {
        crate::xor_space::lemma_seq_cmp_equal_eq(xp, xq);
        crate::xor_space::lemma_seq_cmp_equal_eq(xq, xr);
        crate::xor_space::lemma_seq_cmp_refl_pub(xp);
        if p.bit_count == q.bit_count && q.bit_count == r.bit_count {
            lemma_seq_cmp_trans_le(p.name@, q.name@, r.name@);
        }
    }
}

/// The prefix distance order to a fixed target is total.
pub proof fn lemma_prefix_le_total(t: Seq<u8>, p: Prefix, q: Prefix)
    requires
        t.len() == 32,
    ensures
        spec_prefix_le(t, p, q) || spec_prefix_le(t, q, p),
{
    let xp = xor_bytes(t, p.spec_centre());
    let xq = xor_bytes(t, q.spec_centre());
    crate::xor_space::lemma_seq_cmp_antisym_pub(xp, xq);
    if seq_cmp(xp, xq) == Ordering::Equal {
        crate::xor_space::lemma_seq_cmp_equal_eq(xp, xq);
        lemma_seq_cmp_total(p.name@, q.name@);
    }
}

/// Swapping the prefixes in the distance comparison reverses the answer.
pub proof fn lemma_prefix_cmp_antisym(t: Seq<u8>, p: Prefix, q: Prefix)
    requires
        t.len() == 32,
    ensures
        spec_cmp_prefix_distance(t, q, p) == crate::xor_space::spec_reverse(
            spec_cmp_prefix_distance(t, p, q),
        ),
{
    let xp = xor_bytes(t, p.spec_centre());
    let xq = xor_bytes(t, q.spec_centre());
    crate::xor_space::lemma_seq_cmp_antisym_pub(xp, xq);
    if seq_cmp(xp, xq) == Ordering::Equal {
        crate::xor_space::lemma_seq_cmp_equal_eq(xp, xq);
        crate::xor_space::lemma_seq_cmp_antisym_pub(p.name@, q.name@);
    }
}

/// The prefix distance order to a fixed target is reflexive.
pub proof fn lemma_prefix_le_refl(t: Seq<u8>, p: Prefix)
    requires
        t.len() == 32,
    ensures
        spec_prefix_le(t, p, p),
{
    lemma_prefix_le_total(t, p, p);
}

/// The view of the overlay needed for routing: the node's own committee and
/// the known neighbour committees, each covered by a section signature.
#[derive(Clone, Debug)]
pub struct SectionMap {
    pub our: Proven<EldersInfo>,
    pub neighbours: Vec<Proven<EldersInfo>>,
}

impl SectionMap {
    /// How many sections are known, our own included.
    pub open spec fn section_count(self) -> int {
        1 + self.neighbours@.len() as int
    }

    /// The known section with the given index; index zero is our own.
    pub open spec fn spec_section_at(self, i: int) -> EldersInfo {
        if i == 0 {
            self.our.value
        } else {
            self.neighbours@[i - 1].value
        }
    }

    /// The prefix of the known section with the given index.
    pub open spec fn spec_prefix_at(self, i: int) -> Prefix {
        self.spec_section_at(i).prefix
    }

    /// Whether some known prefix matches the name.
    pub open spec fn spec_covers(self, n: Seq<u8>) -> bool {
        exists|i: int|
            0 <= i < self.section_count() && #[trigger] self.spec_prefix_at(i).spec_matches(n)
    }

    /// Every known committee is well formed, the known prefixes are pairwise
    /// disjoint, and together they cover the entire name space.
    pub open spec fn wf(self) -> bool {
        &&& forall|i: int| 0 <= i < self.section_count() ==> #[trigger] self.spec_section_at(i).wf()
        &&& forall|i: int, j: int|
            0 <= i < j < self.section_count() ==> spec_disjoint(
                #[trigger] self.spec_prefix_at(i),
                #[trigger] self.spec_prefix_at(j),
            )
        &&& forall|n: Seq<u8>| n.len() == 32 ==> #[trigger] self.spec_covers(n)
    }

    /// The map a node starts from: its own committee under the empty prefix,
    /// no neighbours.
    pub fn genesis(our: Proven<EldersInfo>) -> (r: SectionMap)
        requires
            our.value.wf(),
            our.value.prefix.bit_count == 0,
        ensures
            r.wf(),
            r.our == our,
            r.neighbours@.len() == 0,
    {
        let r = SectionMap { our, neighbours: Vec::new() };
        proof {
            assert forall|n: Seq<u8>| n.len() == 32 implies #[trigger] r.spec_covers(n) by {
                assert(r.spec_prefix_at(0).spec_matches(n));
            }
        }
        r
    }

    /// Our own committee, with its proof.
    pub fn our(&self) -> (r: &Proven<EldersInfo>)
        ensures
            r == self.our,
    {
        &self.our
    }

    /// Our own section's prefix.
    pub fn our_prefix(&self) -> (r: &Prefix)
        ensures
            r == self.our.value.prefix,
    {
        &self.our.value.prefix
    }

    /// Whether the name belongs to one of our own elders.
    pub fn is_elder(&self, n: &XorName) -> (r: bool)
        ensures
            r == self.our.value.spec_contains_elder(n@),
    {
        match self.our.value.position(n) {
            Some(_) => true,
            None => false,
        }
    }

    /// The known section with the given index; index zero is our own.
    pub fn section_at(&self, i: usize) -> (r: &EldersInfo)
        requires
            i < self.section_count(),
        ensures
            r == self.spec_section_at(i as int),
    {
        if i == 0 {
            &self.our.value
        } else {
            &self.neighbours[i - 1].value
        }
    }

    /// Scans our own and the neighbour committees for an elder with the
    /// given name.
    pub fn get_elder(&self, n: &XorName) -> (r: Option<Peer>)
        ensures
            match r {
                Some(p) => p.name@ == n@ && exists|i: int|
                    0 <= i < self.section_count() && #[trigger] self.spec_section_at(
                        i,
                    ).spec_contains_elder(n@),
                None => forall|i: int|
                    0 <= i < self.section_count() ==> !#[trigger] self.spec_section_at(
                        i,
                    ).spec_contains_elder(n@),
            },
    {
        match self.our.value.position(n) {
            Some(j) => {
                proof {
                    assert(self.spec_section_at(0).spec_contains_elder(n@));
                }
                return Some(self.our.value.elders[j]);
            },
            None => (),
        }
        let mut i: usize = 0;
        while i < self.neighbours.len()
            invariant
                i <= self.neighbours@.len(),
                !self.spec_section_at(0).spec_contains_elder(n@),
                forall|k: int|
                    1 <= k <= i ==> !#[trigger] self.spec_section_at(k).spec_contains_elder(n@),
            decreases self.neighbours@.len() - i,
        {
            match self.neighbours[i].value.position(n) {
                Some(j) => {
                    let p = self.neighbours[i].value.elders[j];
                    proof {
                        assert(self.spec_section_at(i + 1).spec_contains_elder(n@));
                    }
                    return Some(p);
                },
                None => (),
            }
            i += 1;
        }
        None
    }

    /// The index of the known section whose prefix is closest to the target.
    pub fn closest_index(&self, t: &XorName) -> (r: usize)
        requires
            self.wf(),
            self.neighbours@.len() < usize::MAX,
        ensures
            r < self.section_count(),
            forall|j: int|
                0 <= j < self.section_count() ==> spec_prefix_le(
                    t@,
                    self.spec_prefix_at(r as int),
                    #[trigger] self.spec_prefix_at(j),
                ),
    {
        let mut best: usize = 0;
        let mut i: usize = 1;
        let n = self.neighbours.len() + 1;
        proof {
            lemma_prefix_le_refl(t@, self.spec_prefix_at(0));
        }
        while i < n
            invariant
                self.wf(),
                n == self.section_count(),
                1 <= i <= n,
                best < i,
                forall|j: int|
                    0 <= j < i ==> spec_prefix_le(
                        t@,
                        self.spec_prefix_at(best as int),
                        #[trigger] self.spec_prefix_at(j),
                    ),
            decreases n - i,
        {
            proof {
                assert(self.spec_section_at(i as int).wf());
                assert(self.spec_section_at(best as int).wf());
            }
            let c = cmp_prefix_distance(t, &self.section_at(i).prefix, &self.section_at(best).prefix);
            if matches!(c, Ordering::Less) {
                proof {
                    lemma_prefix_le_total(t@, self.spec_prefix_at(i as int), self.spec_prefix_at(best as int));
                    assert forall|j: int|
                        0 <= j < i + 1 implies spec_prefix_le(
                        t@,
                        self.spec_prefix_at(i as int),
                        #[trigger] self.spec_prefix_at(j),
                    ) by {
                        if j < i {
                            lemma_prefix_le_trans(
                                t@,
                                self.spec_prefix_at(i as int),
                                self.spec_prefix_at(best as int),
                                self.spec_prefix_at(j),
                            );
                        } else {
                            lemma_prefix_le_refl(t@, self.spec_prefix_at(i as int));
                        }
                    }
                }
                best = i;
            } else {
                proof {
                    lemma_prefix_cmp_antisym(
                        t@,
                        self.spec_prefix_at(i as int),
                        self.spec_prefix_at(best as int),
                    );
                }
            }
            i += 1;
        }
        best
    }

    /// The known section whose prefix is closest to the target.
    pub fn closest(&self, t: &XorName) -> (r: &EldersInfo)
        requires
            self.wf(),
            self.neighbours@.len() < usize::MAX,
        ensures
            exists|i: int|
                0 <= i < self.section_count() && r == #[trigger] self.spec_section_at(i),
            forall|j: int|
                0 <= j < self.section_count() ==> spec_prefix_le(
                    t@,
                    r.prefix,
                    #[trigger] self.spec_prefix_at(j),
                ),
    {
        let i = self.closest_index(t);
        let r = self.section_at(i);
        proof {
            assert(r == self.spec_section_at(i as int));
        }
        r
    }

    /// The indices of all known sections, ordered by distance of their
    /// prefix to the target.
    pub fn sorted_indices_by_distance_to(&self, t: &XorName) -> (r: Vec<usize>)
        requires
            self.wf(),
            self.neighbours@.len() < usize::MAX,
        ensures
            r@.len() == self.section_count(),
            forall|k: int| 0 <= k < r@.len() ==> #[trigger] r@[k] < self.section_count(),
            forall|a: int, b: int|
                0 <= a < b < r@.len() ==> spec_prefix_le(
                    t@,
                    #[trigger] self.spec_prefix_at(r@[a] as int),
                    #[trigger] self.spec_prefix_at(r@[b] as int),
                ),
            r@.to_multiset() == Seq::new(self.section_count() as nat, |i: int| i as usize).to_multiset(),
    {
        broadcast use to_multiset_build;
        broadcast use to_multiset_insert;

        let n = self.neighbours.len() + 1;
        let mut r: Vec<usize> = Vec::new();
        let mut idx: usize = 0;
        proof {
            assert(Seq::new(0nat, |i: int| i as usize) =~= Seq::<usize>::empty());
        }
        while idx < n
            invariant
                self.wf(),
                n == self.section_count(),
                idx <= n,
                r@.len() == idx,
                forall|k: int| 0 <= k < r@.len() ==> #[trigger] r@[k] < idx,
                forall|a: int, b: int|
                    0 <= a < b < r@.len() ==> spec_prefix_le(
                        t@,
                        #[trigger] self.spec_prefix_at(r@[a] as int),
                        #[trigger] self.spec_prefix_at(r@[b] as int),
                    ),
                r@.to_multiset() == Seq::new(idx as nat, |i: int| i as usize).to_multiset(),
            decreases n - idx,
        {
            let ghost key = self.spec_section_at(idx as int);
            let mut j: usize = 0;
            let mut stop = false;
            while j < r.len() && !stop
                invariant
                    self.wf(),
                    n == self.section_count(),
                    idx < n,
                    j <= r@.len(),
                    forall|k: int| 0 <= k < r@.len() ==> #[trigger] r@[k] < idx,
                    forall|k: int|
                        0 <= k < j ==> spec_prefix_le(
                            t@,
                            #[trigger] self.spec_prefix_at(r@[k] as int),
                            self.spec_prefix_at(idx as int),
                        ),
                    stop ==> j < r@.len() && spec_cmp_prefix_distance(
                        t@,
                        self.spec_prefix_at(r@[j as int] as int),
                        self.spec_prefix_at(idx as int),
                    ) == Ordering::Greater,
                decreases r@.len() - j + (if stop { 0int } else { 1int }),
            {
                proof {
                    assert(self.spec_section_at(r@[j as int] as int).wf());
                    assert(self.spec_section_at(idx as int).wf());
                }
                let c = cmp_prefix_distance(t, &self.section_at(r[j]).prefix, &self.section_at(idx).prefix);
                if matches!(c, Ordering::Greater) {
                    stop = true;
                } else {
                    proof {
                        assert(spec_prefix_le(t@, self.spec_prefix_at(r@[j as int] as int), self.spec_prefix_at(idx as int)));
                    }
                    j += 1;
                }
            }
            proof {
                if j < r@.len() {
                    lemma_prefix_cmp_antisym(
                        t@,
                        self.spec_prefix_at(r@[j as int] as int),
                        self.spec_prefix_at(idx as int),
                    );
                }
            }
            let ghost old_r = r@;
            r.insert(j, idx);
            proof {
                assert forall|a: int, b: int|
                    0 <= a < b < r@.len() implies spec_prefix_le(
                    t@,
                    #[trigger] self.spec_prefix_at(r@[a] as int),
                    #[trigger] self.spec_prefix_at(r@[b] as int),
                ) by {
                    let ji = j as int;
                    if a < ji && b < ji {
                        assert(r@[a] == old_r[a] && r@[b] == old_r[b]);
                    } else if a < ji && b == ji {
                        assert(r@[a] == old_r[a]);
                    } else if a < ji && b > ji {
                        assert(r@[a] == old_r[a] && r@[b] == old_r[b - 1]);
                    } else if a == ji && b > ji {
                        assert(r@[b] == old_r[b - 1]);
                        lemma_prefix_le_refl(t@, self.spec_prefix_at(old_r[ji] as int));
                        lemma_prefix_le_trans(
                            t@,
                            self.spec_prefix_at(r@[a] as int),
                            self.spec_prefix_at(old_r[ji] as int),
                            self.spec_prefix_at(r@[b] as int),
                        );
                    } else {
                        assert(r@[a] == old_r[a - 1] && r@[b] == old_r[b - 1]);
                    }
                }
                assert(r@ == old_r.insert(j as int, idx));
                vstd::seq_lib::to_multiset_insert(old_r, j as int, idx);
                vstd::seq_lib::to_multiset_build(Seq::new(idx as nat, |i: int| i as usize), idx);
                assert(Seq::new((idx + 1) as nat, |i: int| i as usize) =~= Seq::new(
                    idx as nat,
                    |i: int| i as usize,
                ).push(idx));
                assert(r@.to_multiset() =~= Seq::new((idx + 1) as nat, |i: int| i as usize).to_multiset());
            }
            idx += 1;
        }
        r
    }

    /// Installs a newer committee for our own, unchanged prefix: a key
    /// rotation.  Returns false, changing nothing, when the prefix differs.
    pub fn update_our(&mut self, info: Proven<EldersInfo>) -> (r: bool)
        requires
            old(self).wf(),
            info.value.wf(),
        ensures
            final(self).wf(),
            r == old(self).our.value.prefix.spec_equals(info.value.prefix),
            r ==> final(self).our == info && final(self).neighbours@ == old(self).neighbours@,
            !r ==> *final(self) == *old(self),
    {
        proof {
            assert(self.spec_section_at(0).wf());
        }
        if !self.our.value.prefix.equals(&info.value.prefix) {
            return false;
        }
        let ghost old_self = *self;
        proof {
            assert(old_self.wf());
        }
        let ghost p_old = self.our.value.prefix;
        let ghost p_new = info.value.prefix;
        self.our = info;
        proof {
            assert forall|i: int| 0 <= i < self.section_count() implies #[trigger] self.spec_section_at(i).wf() by {
                if i != 0 {
                    assert(old_self.spec_section_at(i).wf());
                }
            }
            assert forall|i: int, j: int|
                0 <= i < j < self.section_count() implies spec_disjoint(
                #[trigger] self.spec_prefix_at(i),
                #[trigger] self.spec_prefix_at(j),
            ) by {
                if i == 0 {
                    lemma_equals_disjoint(p_old, p_new, old_self.spec_prefix_at(j));
                    assert(spec_disjoint(old_self.spec_prefix_at(0), old_self.spec_prefix_at(j)));
                } else {
                    assert(spec_disjoint(old_self.spec_prefix_at(i), old_self.spec_prefix_at(j)));
                }
            }
            assert forall|n: Seq<u8>| n.len() == 32 implies #[trigger] self.spec_covers(n) by {
                assert(old_self.spec_covers(n));
                let i = choose|i: int|
                    0 <= i < old_self.section_count() && #[trigger] old_self.spec_prefix_at(
                        i,
                    ).spec_matches(n);
                if i == 0 {
                    lemma_equals_matches(p_old, p_new, n);
                    assert(self.spec_prefix_at(0).spec_matches(n));
                } else {
                    assert(self.spec_prefix_at(i).spec_matches(n));
                }
            }
        }
        true
    }

    /// Installs a newer committee for a known neighbour prefix.  Returns
    /// false, changing nothing, when no neighbour entry has that prefix.
    pub fn update_neighbour(&mut self, info: Proven<EldersInfo>) -> (r: bool)
        requires
            old(self).wf(),
            info.value.wf(),
        ensures
            final(self).wf(),
            r ==> exists|j: int|
                {
                    &&& 0 <= j < old(self).neighbours@.len()
                    &&& old(self).neighbours@[j].value.prefix.spec_equals(info.value.prefix)
                    &&& final(self).neighbours@ == old(self).neighbours@.update(j, info)
                    &&& final(self).our == old(self).our
                },
            !r ==> *final(self) == *old(self),
    {
        let mut j: usize = 0;
        while j < self.neighbours.len()
            invariant
                j <= self.neighbours@.len(),
                *self == *old(self),
                self.wf(),
                info.value.wf(),
            decreases self.neighbours@.len() - j,
        {
            proof {
                assert(self.spec_section_at(j + 1).wf());
            }
            if self.neighbours[j].value.prefix.equals(&info.value.prefix) {
                let ghost old_self = *self;
                proof {
                    assert(old_self.wf());
                }
                let ghost p_old = self.neighbours@[j as int].value.prefix;
                let ghost p_new = info.value.prefix;
                self.neighbours.set(j, info);
                proof {
                    let ji = j as int;
                    assert forall|i: int| 0 <= i < self.section_count() implies #[trigger] self.spec_section_at(i).wf() by {
                        if i != ji + 1 {
                            assert(old_self.spec_section_at(i).wf());
                        }
                    }
                    assert forall|a: int, b: int|
                        0 <= a < b < self.section_count() implies spec_disjoint(
                        #[trigger] self.spec_prefix_at(a),
                        #[trigger] self.spec_prefix_at(b),
                    ) by {
                        if a == ji + 1 {
                            assert(spec_disjoint(
                                old_self.spec_prefix_at(a),
                                old_self.spec_prefix_at(b),
                            ));
                            lemma_equals_disjoint(p_old, p_new, old_self.spec_prefix_at(b));
                        } else if b == ji + 1 {
                            assert(spec_disjoint(
                                old_self.spec_prefix_at(a),
                                old_self.spec_prefix_at(b),
                            ));
                            lemma_disjoint_symm(old_self.spec_prefix_at(a), p_old);
                            lemma_equals_disjoint(p_old, p_new, old_self.spec_prefix_at(a));
                            lemma_disjoint_symm(p_new, old_self.spec_prefix_at(a));
                        } else {
                            assert(spec_disjoint(
                                old_self.spec_prefix_at(a),
                                old_self.spec_prefix_at(b),
                            ));
                        }
                    }
                    assert forall|n: Seq<u8>| n.len() == 32 implies #[trigger] self.spec_covers(
                        n,
                    ) by {
                        assert(old_self.spec_covers(n));
                        let i = choose|i: int|
                            0 <= i < old_self.section_count()
                                && #[trigger] old_self.spec_prefix_at(i).spec_matches(n);
                        if i == ji + 1 {
                            lemma_equals_matches(p_old, p_new, n);
                            assert(self.spec_prefix_at(ji + 1).spec_matches(n));
                        } else {
                            assert(self.spec_prefix_at(i).spec_matches(n));
                        }
                    }
                }
                return true;
            }
            j += 1;
        }
        false
    }

    /// Splits our own section: installs the half that holds us as our new
    /// committee and the sibling half as a neighbour.  Fails, changing
    /// nothing, unless both prefixes extend our old prefix by one bit and
    /// end in opposite bits.
    pub fn split_our(&mut self, our_new: Proven<EldersInfo>, sibling: Proven<EldersInfo>) -> (r:
        bool)
        requires
            old(self).wf(),
            our_new.value.wf(),
            sibling.value.wf(),
        ensures
            final(self).wf(),
            r ==> final(self).our == our_new && final(self).neighbours@ == old(
                self,
            ).neighbours@.push(sibling) && our_new.value.prefix.bit_count == old(
                self,
            ).our.value.prefix.bit_count + 1,
            !r ==> *final(self) == *old(self),
    {
        let ghost old_self = *self;
        proof {
            assert(self.spec_section_at(0).wf());
        }
        let p_bc = self.our.value.prefix.bit_count;
        if p_bc >= 256 {
            return false;
        }
        if our_new.value.prefix.bit_count != p_bc + 1 || sibling.value.prefix.bit_count != p_bc
            + 1 {
            return false;
        }
        if !self.our.value.prefix.matches(&our_new.value.prefix.name) {
            return false;
        }
        if !self.our.value.prefix.matches(&sibling.value.prefix.name) {
            return false;
        }
        let b_new = our_new.value.prefix.name.bit(p_bc);
        let b_sib = sibling.value.prefix.name.bit(p_bc);
        if b_new == b_sib {
            return false;
        }
        let ghost p = self.our.value.prefix;
        let ghost pn = our_new.value.prefix;
        let ghost ps = sibling.value.prefix;
        self.our = our_new;
        self.neighbours.push(sibling);
        proof {
            let bc = p.bit_count as int;
            let count = self.section_count();
            assert forall|i: int| 0 <= i < count implies #[trigger] self.spec_section_at(i).wf() by {
                if i != 0 && i != count - 1 {
                    assert(old_self.spec_section_at(i).wf());
                }
            }
            assert forall|a: int, b: int|
                0 <= a < b < count implies spec_disjoint(
                #[trigger] self.spec_prefix_at(a),
                #[trigger] self.spec_prefix_at(b),
            ) by {
                if a == 0 && b == count - 1 {
                    assert(name_bit(pn.name@, bc) != name_bit(ps.name@, bc));
                    assert(spec_disjoint(pn, ps));
                } else if a == 0 {
                    assert(spec_disjoint(old_self.spec_prefix_at(0), old_self.spec_prefix_at(b)));
                    let q = old_self.spec_prefix_at(b);
                    let k = choose|k: int|
                        0 <= k < vstd::math::min(p.bit_count as int, q.bit_count as int)
                            && name_bit(p.name@, k) != name_bit(q.name@, k);
                    assert(name_bit(pn.name@, k) == name_bit(p.name@, k));
                    assert(spec_disjoint(pn, q));
                } else if b == count - 1 {
                    assert(spec_disjoint(old_self.spec_prefix_at(0), old_self.spec_prefix_at(a)));
                    let q = old_self.spec_prefix_at(a);
                    let k = choose|k: int|
                        0 <= k < vstd::math::min(p.bit_count as int, q.bit_count as int)
                            && name_bit(p.name@, k) != name_bit(q.name@, k);
                    assert(name_bit(ps.name@, k) == name_bit(p.name@, k));
                    assert(spec_disjoint(q, ps));
                } else {
                    assert(spec_disjoint(old_self.spec_prefix_at(a), old_self.spec_prefix_at(b)));
                }
            }
            assert forall|n: Seq<u8>| n.len() == 32 implies #[trigger] self.spec_covers(n) by {
                assert(old_self.spec_covers(n));
                let i = choose|i: int|
                    0 <= i < old_self.section_count() && #[trigger] old_self.spec_prefix_at(
                        i,
                    ).spec_matches(n);
                if i == 0 {
                    lemma_extended_matches(p, pn, name_bit(pn.name@, bc), n);
                    lemma_extended_matches(p, ps, name_bit(ps.name@, bc), n);
                    if name_bit(n, bc) == name_bit(pn.name@, bc) {
                        assert(self.spec_prefix_at(0).spec_matches(n));
                    } else {
                        assert(self.spec_prefix_at(count - 1).spec_matches(n));
                    }
                } else {
                    assert(self.spec_prefix_at(i).spec_matches(n));
                }
            }
        }
        true
    }
}

/// Prefix disjointness does not depend on the order of the prefixes.
pub proof fn lemma_disjoint_symm(p: Prefix, q: Prefix)
    ensures
        spec_disjoint(p, q) == spec_disjoint(q, p),
{
}

/// Prefixes with the same bits match the same names.
pub proof fn lemma_equals_matches(p: Prefix, q: Prefix, n: Seq<u8>)
    requires
        p.spec_equals(q),
    ensures
        p.spec_matches(n) == q.spec_matches(n),
{
}

/// Replacing a prefix by one with the same bits preserves disjointness.
pub proof fn lemma_equals_disjoint(p: Prefix, q: Prefix, r: Prefix)
    requires
        p.spec_equals(q),
    ensures
        spec_disjoint(p, r) == spec_disjoint(q, r),
{
    if spec_disjoint(p, r) {
        let k = choose|k: int|
            0 <= k < vstd::math::min(p.bit_count as int, r.bit_count as int) && name_bit(
                p.name@,
                k,
            ) != name_bit(r.name@, k);
        assert(name_bit(q.name@, k) != name_bit(r.name@, k));
    }
    if spec_disjoint(q, r) {
        let k = choose|k: int|
            0 <= k < vstd::math::min(q.bit_count as int, r.bit_count as int) && name_bit(
                q.name@,
                k,
            ) != name_bit(r.name@, k);
        assert(name_bit(p.name@, k) != name_bit(r.name@, k));
    }
}

/// The union of our own prefix and the neighbour prefixes equals the full
/// name space, and the intersection of any two known prefixes is empty.
pub proof fn lemma_section_map_partition(s: SectionMap, n: Seq<u8>)
    requires
        s.wf(),
        n.len() == 32,
    ensures
        s.spec_covers(n),
        forall|i: int, j: int|
            0 <= i < j < s.section_count() ==> !(#[trigger] s.spec_prefix_at(i).spec_matches(n)
                && #[trigger] s.spec_prefix_at(j).spec_matches(n)),
{
    assert forall|i: int, j: int|
        0 <= i < j < s.section_count() implies !(#[trigger] s.spec_prefix_at(i).spec_matches(n)
        && #[trigger] s.spec_prefix_at(j).spec_matches(n)) by {
        let p = s.spec_prefix_at(i);
        let q = s.spec_prefix_at(j);
        assert(spec_disjoint(p, q));
        let k = choose|k: int|
            0 <= k < vstd::math::min(p.bit_count as int, q.bit_count as int) && name_bit(
                p.name@,
                k,
            ) != name_bit(q.name@, k);
        lemma_disjoint_prefixes(p, q, k, n);
    }
}

} // verus!
