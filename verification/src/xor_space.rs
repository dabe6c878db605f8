//! Names and prefixes of the shared identifier space.
//!
//! A name is a 256-bit value.  The distance between two names is their
//! bitwise XOR interpreted as an unsigned integer; two names are closer to a
//! target when their XOR with the target is smaller.  A prefix is an ordered
//! bit sequence matching the names whose leading bits equal it.

use vstd::prelude::*;

verus! {

use core::cmp::Ordering;

/// Number of bytes in a name.
pub const XOR_NAME_LEN: usize = 32;

/// A 256-bit identifier in the shared name space.
#[derive(Clone, Copy, Debug)]
pub struct XorName(pub [u8; 32]);

impl View for XorName {
    type V = Seq<u8>;

    open spec fn view(&self) -> Seq<u8> {
        self.0@
    }
}

/// The `k`-th bit of a byte, counting the most significant bit as bit 0.
pub open spec fn nth_bit(b: u8, k: u8) -> bool
    recommends
        k < 8,
{
    (b >> (7 - k) as u8) & 1 == 1
}

/// The `i`-th bit of a big-endian byte string, counting from the left.
pub open spec fn name_bit(s: Seq<u8>, i: int) -> bool
    recommends
        0 <= i < 8 * s.len(),
{
    nth_bit(s[i / 8], (i % 8) as u8)
}

/// Lexicographic comparison of two byte strings of equal length.
pub open spec fn seq_cmp(a: Seq<u8>, b: Seq<u8>) -> Ordering
    recommends
        a.len() == b.len(),
    decreases a.len(),
{
    if a.len() == 0 || b.len() == 0 {
        Ordering::Equal
    } else if a[0] < b[0] {
        Ordering::Less
    } else if a[0] > b[0] {
        Ordering::Greater
    } else {
        seq_cmp(a.drop_first(), b.drop_first())
    }
}

/// Pointwise XOR of two byte strings of equal length.
pub open spec fn xor_bytes(a: Seq<u8>, b: Seq<u8>) -> Seq<u8>
    recommends
        a.len() == b.len(),
{
    Seq::new(a.len(), |i: int| a[i] ^ b[i])
}

/// How `a` and `b` compare by XOR-distance to the target `t`.
pub open spec fn spec_cmp_distance(t: Seq<u8>, a: Seq<u8>, b: Seq<u8>) -> Ordering {
    seq_cmp(xor_bytes(t, a), xor_bytes(t, b))
}

/// The opposite of an ordering.
pub open spec fn spec_reverse(o: Ordering) -> Ordering {
    match o {
        Ordering::Less => Ordering::Greater,
        Ordering::Equal => Ordering::Equal,
        Ordering::Greater => Ordering::Less,
    }
}

/// `a` is not farther from `t` than `b` is.
pub open spec fn dist_le(t: Seq<u8>, a: Seq<u8>, b: Seq<u8>) -> bool {
    spec_cmp_distance(t, a, b) != Ordering::Greater
}

proof fn lemma_seq_cmp_refl(a: Seq<u8>)
    ensures
        seq_cmp(a, a) == Ordering::Equal,
    decreases a.len(),
{
    if a.len() > 0 {
        lemma_seq_cmp_refl(a.drop_first());
    }
}

proof fn lemma_seq_cmp_pointwise_equal(a: Seq<u8>, b: Seq<u8>)
    requires
        a.len() == b.len(),
        forall|j: int| 0 <= j < a.len() ==> a[j] == b[j],
    ensures
        seq_cmp(a, b) == Ordering::Equal,
    decreases a.len(),
{
    if a.len() > 0 {
        lemma_seq_cmp_pointwise_equal(a.drop_first(), b.drop_first());
    }
}

proof fn lemma_seq_cmp_first_diff(a: Seq<u8>, b: Seq<u8>, k: int)
    requires
        a.len() == b.len(),
        0 <= k < a.len(),
        forall|j: int| 0 <= j < k ==> a[j] == b[j],
        a[k] != b[k],
    ensures
        a[k] < b[k] ==> seq_cmp(a, b) == Ordering::Less,
        a[k] > b[k] ==> seq_cmp(a, b) == Ordering::Greater,
    decreases a.len(),
{
    if k > 0 {
        lemma_seq_cmp_first_diff(a.drop_first(), b.drop_first(), k - 1);
    }
}

proof fn lemma_seq_cmp_antisym(a: Seq<u8>, b: Seq<u8>)
    requires
        a.len() == b.len(),
    ensures
        seq_cmp(b, a) == spec_reverse(seq_cmp(a, b)),
    decreases a.len(),
{
    if a.len() > 0 && a[0] == b[0] {
        lemma_seq_cmp_antisym(a.drop_first(), b.drop_first());
    }
}

proof fn lemma_seq_cmp_equal_implies_eq(a: Seq<u8>, b: Seq<u8>)
    requires
        a.len() == b.len(),
        seq_cmp(a, b) == Ordering::Equal,
    ensures
        a =~= b,
    decreases a.len(),
{
    if a.len() > 0 {
        lemma_seq_cmp_equal_implies_eq(a.drop_first(), b.drop_first());
        assert(a =~= seq![a[0]] + a.drop_first());
        assert(b =~= seq![b[0]] + b.drop_first());
    }
}

/// Less-than in lexicographic order is transitive.
pub proof fn lemma_seq_cmp_trans_less(a: Seq<u8>, b: Seq<u8>, c: Seq<u8>)
    requires
        a.len() == b.len(),
        b.len() == c.len(),
        seq_cmp(a, b) == Ordering::Less,
        seq_cmp(b, c) == Ordering::Less,
    ensures
        seq_cmp(a, c) == Ordering::Less,
    decreases a.len(),
{
    if a.len() > 0 {
        if a[0] == b[0] && b[0] == c[0] {
            lemma_seq_cmp_trans_less(a.drop_first(), b.drop_first(), c.drop_first());
        }
    }
}

/// Comparing a byte string with itself gives equality.
pub proof fn lemma_seq_cmp_refl_pub(a: Seq<u8>)
    ensures
        seq_cmp(a, a) == Ordering::Equal,
{
    lemma_seq_cmp_refl(a);
}

/// Swapping the operands of a lexicographic comparison reverses the answer.
pub proof fn lemma_seq_cmp_antisym_pub(a: Seq<u8>, b: Seq<u8>)
    requires
        a.len() == b.len(),
    ensures
        seq_cmp(b, a) == spec_reverse(seq_cmp(a, b)),
{
    lemma_seq_cmp_antisym(a, b);
}

/// Byte strings of one length that compare equal are the same string.
pub proof fn lemma_seq_cmp_equal_eq(a: Seq<u8>, b: Seq<u8>)
    requires
        a.len() == b.len(),
        seq_cmp(a, b) == Ordering::Equal,
    ensures
        a == b,
{
    lemma_seq_cmp_equal_implies_eq(a, b);
}

/// Not-greater in lexicographic order is transitive.
pub proof fn lemma_seq_cmp_trans_le(a: Seq<u8>, b: Seq<u8>, c: Seq<u8>)
    requires
        a.len() == b.len(),
        b.len() == c.len(),
        seq_cmp(a, b) != Ordering::Greater,
        seq_cmp(b, c) != Ordering::Greater,
    ensures
        seq_cmp(a, c) != Ordering::Greater,
{
    if seq_cmp(a, b) == Ordering::Equal {
        lemma_seq_cmp_equal_implies_eq(a, b);
    } else if seq_cmp(b, c) == Ordering::Equal {
        lemma_seq_cmp_equal_implies_eq(b, c);
    } else {
        lemma_seq_cmp_trans_less(a, b, c);
    }
}

/// Not-greater in lexicographic order is total.
pub proof fn lemma_seq_cmp_total(a: Seq<u8>, b: Seq<u8>)
    requires
        a.len() == b.len(),
    ensures
        seq_cmp(a, b) != Ordering::Greater || seq_cmp(b, a) != Ordering::Greater,
{
    lemma_seq_cmp_antisym(a, b);
}

/// Distance order to a fixed target is transitive.
pub proof fn lemma_dist_le_trans(t: Seq<u8>, a: Seq<u8>, b: Seq<u8>, c: Seq<u8>)
    requires
        t.len() == a.len(),
        a.len() == b.len(),
        b.len() == c.len(),
        dist_le(t, a, b),
        dist_le(t, b, c),
    ensures
        dist_le(t, a, c),
{
    lemma_seq_cmp_trans_le(xor_bytes(t, a), xor_bytes(t, b), xor_bytes(t, c));
}

/// Ordering two names by distance to a target, then swapping the names,
/// reverses the answer.
pub proof fn lemma_cmp_distance_antisymmetric(t: XorName, a: XorName, b: XorName)
    ensures
        spec_cmp_distance(t@, b@, a@) == spec_reverse(spec_cmp_distance(t@, a@, b@)),
{
    lemma_seq_cmp_antisym(xor_bytes(t@, a@), xor_bytes(t@, b@));
}

impl PartialEq for XorName {
    fn eq(&self, other: &Self) -> (r: bool) {
        let mut i: usize = 0;
        while i < 32
            invariant
                i <= 32,
                forall|j: int| 0 <= j < i ==> self.0@[j] == other.0@[j],
            decreases 32 - i,
        {
            if self.0[i] != other.0[i] {
                return false;
            }
            i += 1;
        }
        proof {
            assert(self.0@ =~= other.0@);
        }
        true
    }
}

impl vstd::std_specs::cmp::PartialEqSpecImpl for XorName {
    open spec fn obeys_eq_spec() -> bool {
        true
    }

    open spec fn eq_spec(&self, other: &Self) -> bool {
        self.0@ == other.0@
    }
}

impl XorName {
    /// The `i`-th bit of the name, counting from the most significant.
    pub fn bit(&self, i: usize) -> (r: bool)
        requires
            i < 256,
        ensures
            r == name_bit(self@, i as int),
    {
        let byte: u8 = self.0[i / 8];
        let k: u8 = (i % 8) as u8;
        (byte >> (7 - k) as u8) & 1 == 1
    }

    /// Orders `lhs` and `rhs` by their XOR-distance to `self`.
    pub fn cmp_distance(&self, lhs: &XorName, rhs: &XorName) -> (r: Ordering)
        ensures
            r == spec_cmp_distance(self@, lhs@, rhs@),
    {
        let mut i: usize = 0;
        while i < 32
            invariant
                i <= 32,
                forall|j: int|
                    0 <= j < i ==> #[trigger] xor_bytes(self@, lhs@)[j] == xor_bytes(
                        self@,
                        rhs@,
                    )[j],
            decreases 32 - i,
        {
            let dl: u8 = self.0[i] ^ lhs.0[i];
            let dr: u8 = self.0[i] ^ rhs.0[i];
            if dl < dr {
                proof {
                    lemma_seq_cmp_first_diff(xor_bytes(self@, lhs@), xor_bytes(self@, rhs@), i as int);
                }
                return Ordering::Less;
            }
            if dl > dr {
                proof {
                    lemma_seq_cmp_first_diff(xor_bytes(self@, lhs@), xor_bytes(self@, rhs@), i as int);
                }
                return Ordering::Greater;
            }
            i += 1;
        }
        proof {
            lemma_seq_cmp_pointwise_equal(xor_bytes(self@, lhs@), xor_bytes(self@, rhs@));
        }
        Ordering::Equal
    }
}

/// An ordered bit sequence of length `bit_count`, matching the names whose
/// leading bits equal it.  The bits are the leading bits of `name`; all later
/// bits of `name` are zero.
#[derive(Clone, Copy, Debug)]
pub struct Prefix {
    pub name: XorName,
    pub bit_count: usize,
}

impl Prefix {
    /// A prefix value is well formed when its length fits the name and the
    /// bits past its length are all zero.
    pub open spec fn wf(self) -> bool {
        &&& self.bit_count <= 256
        &&& forall|i: int| self.bit_count <= i < 256 ==> !name_bit(self.name@, i)
    }

    /// The leading `bit_count` bits of `n` equal this prefix.
    pub open spec fn spec_matches(self, n: Seq<u8>) -> bool {
        forall|i: int|
            0 <= i < self.bit_count ==> name_bit(self.name@, i) == #[trigger] name_bit(n, i)
    }

    /// Neither prefix contains the other and their highest differing bit is
    /// the last bit of the shorter one.
    pub open spec fn spec_is_neighbour(self, other: Prefix) -> bool {
        let m = vstd::math::min(self.bit_count as int, other.bit_count as int);
        &&& m > 0
        &&& forall|i: int|
            0 <= i < m - 1 ==> name_bit(self.name@, i) == #[trigger] name_bit(other.name@, i)
        &&& name_bit(self.name@, m - 1) != name_bit(other.name@, m - 1)
    }

    /// Same length and same leading bits.
    pub open spec fn spec_equals(self, other: Prefix) -> bool {
        &&& self.bit_count == other.bit_count
        &&& forall|i: int|
            0 <= i < self.bit_count ==> name_bit(self.name@, i) == #[trigger] name_bit(
                other.name@,
                i,
            )
    }

    /// Whether the prefix value is well formed: its length fits the name
    /// and the bits past its length are all zero.
    pub fn is_valid(&self) -> (r: bool)
        ensures
            r == self.wf(),
    {
        if self.bit_count > 256 {
            return false;
        }
        let mut i: usize = self.bit_count;
        while i < 256
            invariant
                self.bit_count <= i <= 256,
                self.bit_count <= 256,
                forall|j: int| self.bit_count <= j < i ==> !name_bit(self.name@, j),
            decreases 256 - i,
        {
            if self.name.bit(i) {
                return false;
            }
            i += 1;
        }
        true
    }

    /// The empty prefix, which matches every name.
    pub fn empty() -> (r: Prefix)
        ensures
            r.wf(),
            r.bit_count == 0,
            forall|n: Seq<u8>| r.spec_matches(n),
    {
        let name = XorName([0u8; 32]);
        proof {
            assert forall|i: int| 0 <= i < 256 implies !name_bit(name@, i) by {
                let b = name@[i / 8];
                let k = (i % 8) as u8;
                assert(b == 0);
                assert(!((b >> (7 - k) as u8) & 1 == 1)) by (bit_vector)
                    requires
                        b == 0,
                ;
            }
        }
        Prefix { name, bit_count: 0 }
    }

    /// Whether the leading `bit_count` bits of `n` equal this prefix.
    pub fn matches(&self, n: &XorName) -> (r: bool)
        requires
            self.bit_count <= 256,
        ensures
            r == self.spec_matches(n@),
    {
        let mut i: usize = 0;
        while i < self.bit_count
            invariant
                i <= self.bit_count,
                self.bit_count <= 256,
                forall|j: int|
                    0 <= j < i ==> name_bit(self.name@, j) == #[trigger] name_bit(n@, j),
            decreases self.bit_count - i,
        {
            if self.name.bit(i) != n.bit(i) {
                return false;
            }
            i += 1;
        }
        true
    }

    /// Whether this prefix and `other` are neighbours: neither contains the
    /// other, and their highest differing bit is the last bit of the shorter.
    pub fn is_neighbour(&self, other: &Prefix) -> (r: bool)
        requires
            self.bit_count <= 256,
            other.bit_count <= 256,
        ensures
            r == self.spec_is_neighbour(*other),
    {
        let m: usize = if self.bit_count < other.bit_count {
            self.bit_count
        } else {
            other.bit_count
        };
        if m == 0 {
            return false;
        }
        let mut i: usize = 0;
        while i < m - 1
            invariant
                i <= m - 1,
                0 < m <= 256,
                m == vstd::math::min(self.bit_count as int, other.bit_count as int),
                forall|j: int|
                    0 <= j < i ==> name_bit(self.name@, j) == #[trigger] name_bit(other.name@, j),
            decreases m - i,
        {
            if self.name.bit(i) != other.name.bit(i) {
                return false;
            }
            i += 1;
        }
        self.name.bit(m - 1) != other.name.bit(m - 1)
    }

    /// Whether this prefix and `other` have the same length and bits.
    pub fn equals(&self, other: &Prefix) -> (r: bool)
        requires
            self.bit_count <= 256,
            other.bit_count <= 256,
        ensures
            r == self.spec_equals(*other),
    {
        if self.bit_count != other.bit_count {
            return false;
        }
        let mut i: usize = 0;
        while i < self.bit_count
            invariant
                i <= self.bit_count,
                self.bit_count == other.bit_count <= 256,
                forall|j: int|
                    0 <= j < i ==> name_bit(self.name@, j) == #[trigger] name_bit(other.name@, j),
            decreases self.bit_count - i,
        {
            if self.name.bit(i) != other.name.bit(i) {
                return false;
            }
            i += 1;
        }
        true
    }

    /// The prefix one bit longer than this one, whose last bit is `bit`.
    pub fn pushed(&self, bit: bool) -> (r: Prefix)
        requires
            self.wf(),
            self.bit_count < 256,
        ensures
            r.wf(),
            r.bit_count == self.bit_count + 1,
            forall|i: int|
                0 <= i < self.bit_count ==> name_bit(r.name@, i) == #[trigger] name_bit(
                    self.name@,
                    i,
                ),
            name_bit(r.name@, self.bit_count as int) == bit,
    {
        if !bit {
            let r = Prefix { name: self.name, bit_count: self.bit_count + 1 };
            return r;
        }
        let j: usize = self.bit_count / 8;
        let k: u8 = (self.bit_count % 8) as u8;
        let mask: u8 = 128u8 >> k;
        let mut arr: [u8; 32] = self.name.0;
        let old_byte: u8 = arr[j];
        arr[j] = old_byte | mask;
        let name = XorName(arr);
        proof {
            let bc = self.bit_count as int;
            assert forall|i: int| 0 <= i < 256 && i != bc implies name_bit(name@, i) == name_bit(
                self.name@,
                i,
            ) by {
                if i / 8 == j as int {
                    let b = self.name@[i / 8];
                    let ki = (i % 8) as u8;
                    assert(ki != k);
                    assert(((b | (128u8 >> k)) >> (7 - ki) as u8) & 1 == (b >> (7 - ki) as u8)
                        & 1) by (bit_vector)
                        requires
                            ki < 8,
                            k < 8,
                            ki != k,
                    ;
                }
            }
            let b = self.name@[j as int];
            assert(!name_bit(self.name@, bc));
            assert(((b >> (7 - k) as u8) & 1 != 1) ==> (((b | (128u8 >> k)) >> (7 - k) as u8) & 1
                == 1)) by (bit_vector)
                requires
                    k < 8,
            ;
        }
        Prefix { name, bit_count: self.bit_count + 1 }
    }

    /// The name at the centre of the region this prefix matches: the prefix
    /// bits, then a one bit, then zeros.
    pub open spec fn spec_centre(self) -> Seq<u8> {
        Seq::new(
            32,
            |j: int|
                if self.bit_count < 256 && j == self.bit_count / 8 {
                    self.name@[j] | (128u8 >> (self.bit_count % 8) as u8)
                } else {
                    self.name@[j]
                },
        )
    }

    /// Computes the centre name of this prefix.
    pub fn centre(&self) -> (r: XorName)
        requires
            self.wf(),
        ensures
            r@ == self.spec_centre(),
    {
        let mut arr: [u8; 32] = self.name.0;
        if self.bit_count < 256 {
            let j: usize = self.bit_count / 8;
            let k: u8 = (self.bit_count % 8) as u8;
            let old_byte: u8 = arr[j];
            arr[j] = old_byte | (128u8 >> k);
        }
        let r = XorName(arr);
        proof {
            assert(r@ =~= self.spec_centre());
        }
        r
    }
}

/// How prefixes `p` and `q` compare by distance to target `t`: XOR-distance
/// of their centres, ties broken by longer prefix, then by name.
pub open spec fn spec_cmp_prefix_distance(t: Seq<u8>, p: Prefix, q: Prefix) -> Ordering {
    let c = seq_cmp(xor_bytes(t, p.spec_centre()), xor_bytes(t, q.spec_centre()));
    if c != Ordering::Equal {
        c
    } else if p.bit_count > q.bit_count {
        Ordering::Less
    } else if p.bit_count < q.bit_count {
        Ordering::Greater
    } else {
        seq_cmp(p.name@, q.name@)
    }
}

/// Lexicographic comparison of two names.
pub fn cmp_names(a: &XorName, b: &XorName) -> (r: Ordering)
    ensures
        r == seq_cmp(a@, b@),
{
    let mut i: usize = 0;
    while i < 32
        invariant
            i <= 32,
            forall|j: int| 0 <= j < i ==> a.0@[j] == b.0@[j],
        decreases 32 - i,
    {
        if a.0[i] < b.0[i] {
            proof {
                lemma_seq_cmp_first_diff(a@, b@, i as int);
            }
            return Ordering::Less;
        }
        if a.0[i] > b.0[i] {
            proof {
                lemma_seq_cmp_first_diff(a@, b@, i as int);
            }
            return Ordering::Greater;
        }
        i += 1;
    }
    proof {
        lemma_seq_cmp_pointwise_equal(a@, b@);
    }
    Ordering::Equal
}

/// Orders prefixes `p` and `q` by distance of their centres to target `t`,
/// ties broken by longer prefix, then by name.
pub fn cmp_prefix_distance(t: &XorName, p: &Prefix, q: &Prefix) -> (r: Ordering)
    requires
        p.wf(),
        q.wf(),
    ensures
        r == spec_cmp_prefix_distance(t@, *p, *q),
{
    let pc = p.centre();
    let qc = q.centre();
    let c = t.cmp_distance(&pc, &qc);
    match c {
        Ordering::Less => Ordering::Less,
        Ordering::Greater => Ordering::Greater,
        Ordering::Equal => {
            if p.bit_count > q.bit_count {
                Ordering::Less
            } else if p.bit_count < q.bit_count {
                Ordering::Greater
            } else {
                cmp_names(&p.name, &q.name)
            }
        },
    }
}

/// A prefix one bit longer than `p`, agreeing with `p` and ending in bit `b`,
/// matches exactly the names that `p` matches whose next bit is `b`.
pub proof fn lemma_extended_matches(p: Prefix, q: Prefix, b: bool, n: Seq<u8>)
    requires
        p.bit_count < 256,
        q.bit_count == p.bit_count + 1,
        forall|i: int|
            0 <= i < p.bit_count ==> name_bit(q.name@, i) == #[trigger] name_bit(p.name@, i),
        name_bit(q.name@, p.bit_count as int) == b,
        n.len() == 32,
    ensures
        q.spec_matches(n) <==> (p.spec_matches(n) && name_bit(n, p.bit_count as int) == b),
{
}

/// Two prefixes that disagree at a bit inside both cannot match one name.
pub proof fn lemma_disjoint_prefixes(p: Prefix, q: Prefix, k: int, n: Seq<u8>)
    requires
        0 <= k < p.bit_count,
        k < q.bit_count,
        name_bit(p.name@, k) != name_bit(q.name@, k),
    ensures
        !(p.spec_matches(n) && q.spec_matches(n)),
{
    if p.spec_matches(n) && q.spec_matches(n) {
        assert(name_bit(p.name@, k) == name_bit(n, k));
        assert(name_bit(q.name@, k) == name_bit(n, k));
    }
}

/// Neighbour prefixes disagree at a bit inside both, so they are disjoint.
pub proof fn lemma_neighbours_disjoint(p: Prefix, q: Prefix, n: Seq<u8>)
    requires
        p.spec_is_neighbour(q),
    ensures
        !(p.spec_matches(n) && q.spec_matches(n)),
{
    let m = vstd::math::min(p.bit_count as int, q.bit_count as int);
    lemma_disjoint_prefixes(p, q, m - 1, n);
}

/// The name made of the prefix's bits followed by the trailing bits of `n`:
/// a name inside the prefix's region that keeps `n`'s entropy.
pub fn name_forced_into_prefix(p: &Prefix, n: &XorName) -> (r: XorName)
    requires
        p.wf(),
    ensures
        p.spec_matches(r@),
        forall|i: int| p.bit_count <= i < 256 ==> name_bit(r@, i) == #[trigger] name_bit(n@, i),
{
    let mut arr: [u8; 32] = n.0;
    let full: usize = p.bit_count / 8;
    let rem: u8 = (p.bit_count % 8) as u8;
    let mut j: usize = 0;
    while j < full
        invariant
            j <= full,
            full == p.bit_count / 8,
            full <= 32,
            forall|k: int| 0 <= k < j ==> arr@[k] == p.name@[k],
            forall|k: int| j <= k < 32 ==> arr@[k] == n@[k],
        decreases full - j,
    {
        arr[j] = p.name.0[j];
        j += 1;
    }
    if rem > 0 {
        let mask: u8 = 255u8 << (8 - rem) as u8;
        let pb: u8 = p.name.0[full];
        let nb: u8 = arr[full];
        arr[full] = (pb & mask) | (nb & !mask);
        proof {
            let m = mask;
            assert forall|k: u8| k < 8 implies nth_bit((pb & m) | (nb & !m), k) == (if k < rem {
                nth_bit(pb, k)
            } else {
                nth_bit(nb, k)
            }) by {
                assert((k < rem ==> ((((pb & (255u8 << (8 - rem) as u8)) | (nb & !(255u8 << (
                    8 - rem) as u8))) >> (7 - k) as u8) & 1 == (pb >> (7 - k) as u8) & 1)) && (!(k
                    < rem) ==> ((((pb & (255u8 << (8 - rem) as u8)) | (nb & !(255u8 << (8
                    - rem) as u8))) >> (7 - k) as u8) & 1 == (nb >> (7 - k) as u8) & 1)))
                    by (bit_vector)
                    requires
                        k < 8,
                        0 < rem < 8,
                ;
            }
        }
    }
    let r = XorName(arr);
    proof {
        let bc = p.bit_count as int;
        assert forall|i: int| 0 <= i < bc implies name_bit(p.name@, i) == #[trigger] name_bit(
            r@,
            i,
        ) by {
            let j2 = i / 8;
            let k2 = (i % 8) as u8;
            if j2 < full {
                assert(r@[j2] == p.name@[j2]);
            } else {
                assert(j2 == full && k2 < rem);
            }
        }
        assert forall|i: int| bc <= i < 256 implies name_bit(r@, i) == #[trigger] name_bit(
            n@,
            i,
        ) by {
            let j2 = i / 8;
            let k2 = (i % 8) as u8;
            if j2 > full {
                assert(r@[j2] == n@[j2]);
            } else {
                assert(j2 == full && k2 >= rem);
                if rem == 0 {
                    assert(r@[j2] == n@[j2]);
                }
            }
        }
    }
    r
}

} // verus!
