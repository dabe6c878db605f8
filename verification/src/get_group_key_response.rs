//! The legacy group-key exchange response, and the histogram merge of
//! several responses into one agreed key list.  Superseded by threshold
//! signatures; kept for wire compatibility with older peers.

use vstd::prelude::*;
use crate::types::DhtId;
use crate::types::GROUP_SIZE;
use crate::types::PublicSignKey;

verus! {

/// A group's signing keys, as reported by one peer.
#[derive(Debug)]
pub struct GetGroupKeyResponse {
    pub target_id: DhtId,
    pub public_sign_keys: Vec<(DhtId, PublicSignKey)>,
}

/// The bytes a key pair is judged by: the identifier's and the key's.
pub open spec fn kv(p: (DhtId, PublicSignKey)) -> (Seq<u8>, Seq<u8>) {
    ((p.0).0@, (p.1).0@)
}

/// How often a key occurs in a list, judged by its bytes.
pub open spec fn count_of(s: Seq<(DhtId, PublicSignKey)>, k: (Seq<u8>, Seq<u8>)) -> int
    decreases s.len(),
{
    if s.len() == 0 {
        0
    } else {
        count_of(s.drop_last(), k) + if kv(s.last()) == k {
            1int
        } else {
            0int
        }
    }
}

/// Whether a list holds a key with the given bytes.
pub open spec fn contains_key(s: Seq<(DhtId, PublicSignKey)>, k: (Seq<u8>, Seq<u8>)) -> bool {
    exists|i: int| 0 <= i < s.len() && kv(#[trigger] s[i]) == k
}

/// How many distinct keys a list holds, judged by their bytes.
pub open spec fn num_distinct(s: Seq<(DhtId, PublicSignKey)>) -> int
    decreases s.len(),
{
    if s.len() == 0 {
        0
    } else {
        num_distinct(s.drop_last()) + if contains_key(s.drop_last(), kv(s.last())) {
            0int
        } else {
            1int
        }
    }
}

/// The concatenated key lists of several responses.
pub open spec fn keys_of(rs: Seq<GetGroupKeyResponse>) -> Seq<(DhtId, PublicSignKey)>
    decreases rs.len(),
{
    if rs.len() == 0 {
        Seq::empty()
    } else {
        keys_of(rs.drop_last()) + rs.last().public_sign_keys@
    }
}

/// Key lists with pairwise equal bytes hold the same counts, the same keys
/// and the same number of distinct keys.
pub proof fn lemma_kv_equal_lists(s1: Seq<(DhtId, PublicSignKey)>, s2: Seq<(DhtId, PublicSignKey)>)
    requires
        s1.len() == s2.len(),
        forall|j: int| 0 <= j < s1.len() ==> kv(#[trigger] s1[j]) == kv(#[trigger] s2[j]),
    ensures
        forall|k: (Seq<u8>, Seq<u8>)| count_of(s1, k) == count_of(s2, k),
        forall|k: (Seq<u8>, Seq<u8>)| contains_key(s1, k) == contains_key(s2, k),
        num_distinct(s1) == num_distinct(s2),
    decreases s1.len(),
{
    assert forall|k: (Seq<u8>, Seq<u8>)| contains_key(s1, k) == contains_key(s2, k) by {
        if contains_key(s1, k) {
            let i = choose|i: int| 0 <= i < s1.len() && kv(#[trigger] s1[i]) == k;
            assert(kv(s2[i]) == k);
        }
        if contains_key(s2, k) {
            let i = choose|i: int| 0 <= i < s2.len() && kv(#[trigger] s2[i]) == k;
            assert(kv(s1[i]) == k);
        }
    }
    if s1.len() > 0 {
        assert forall|j: int|
            0 <= j < s1.len() - 1 implies kv(#[trigger] s1.drop_last()[j]) == kv(
            #[trigger] s2.drop_last()[j],
        ) by {
            assert(s1.drop_last()[j] == s1[j]);
            assert(s2.drop_last()[j] == s2[j]);
        }
        lemma_kv_equal_lists(s1.drop_last(), s2.drop_last());
        assert(kv(s1.last()) == kv(s2.last())) by {
            assert(s1.last() == s1[s1.len() - 1]);
            assert(s2.last() == s2[s2.len() - 1]);
        }
        assert forall|k: (Seq<u8>, Seq<u8>)| count_of(s1, k) == count_of(s2, k) by {
            assert(count_of(s1, k) == count_of(s1.drop_last(), k) + if kv(s1.last()) == k {
                1int
            } else {
                0int
            });
            assert(count_of(s2, k) == count_of(s2.drop_last(), k) + if kv(s2.last()) == k {
                1int
            } else {
                0int
            });
        }
        assert(num_distinct(s1) == num_distinct(s2)) by {
            assert(contains_key(s1.drop_last(), kv(s1.last())) == contains_key(
                s2.drop_last(),
                kv(s2.last()),
            ));
        }
    }
}

/// No key occurs more often than the list is long.
proof fn lemma_count_le_len(s: Seq<(DhtId, PublicSignKey)>, k: (Seq<u8>, Seq<u8>))
    ensures
        0 <= count_of(s, k) <= s.len(),
    decreases s.len(),
{
    if s.len() > 0 {
        lemma_count_le_len(s.drop_last(), k);
    }
}

/// One key with how often it was reported.
pub struct KeyCount {
    pub key_id: DhtId,
    pub sign_key: PublicSignKey,
    pub count: usize,
}

impl KeyCount {
    /// The bytes this entry is judged by.
    pub open spec fn spec_kv(self) -> (Seq<u8>, Seq<u8>) {
        (self.key_id.0@, self.sign_key.0@)
    }
}

/// A well-formed histogram of a key list: one entry per distinct key, with
/// how often it occurs.
pub open spec fn spec_histogram_of(hist: Seq<KeyCount>, all: Seq<(DhtId, PublicSignKey)>) -> bool {
    &&& (forall|a: int, b: int|
        0 <= a < b < hist.len() ==> (#[trigger] hist[a]).spec_kv() != (#[trigger] hist[b]).spec_kv())
    &&& (forall|j: int|
        0 <= j < hist.len() ==> contains_key(all, (#[trigger] hist[j]).spec_kv()) && hist[j].count
            == count_of(all, hist[j].spec_kv()))
    &&& (forall|i: int|
        #![trigger all[i]]
        0 <= i < all.len() ==> exists|j: int|
            0 <= j < hist.len() && (#[trigger] hist[j]).spec_kv() == kv(all[i]))
}

/// Builds the histogram of a key list: one entry per distinct key, counting
/// its occurrences.  The histogram has as many entries as the list has
/// distinct keys.
fn build_histogram(all: &Vec<(DhtId, PublicSignKey)>) -> (hist: Vec<KeyCount>)
    ensures
        spec_histogram_of(hist@, all@),
        hist@.len() == num_distinct(all@),
{
    let mut hist: Vec<KeyCount> = Vec::new();
    let mut i: usize = 0;
    proof {
        assert(all@.take(0) =~= Seq::<(DhtId, PublicSignKey)>::empty());
    }
    while i < all.len()
        invariant
            i <= all@.len(),
            spec_histogram_of(hist@, all@.take(i as int)),
            hist@.len() == num_distinct(all@.take(i as int)),
        decreases all@.len() - i,
    {
        proof {
            assert(all@.take(i + 1).drop_last() =~= all@.take(i as int));
            assert(all@.take(i + 1).last() == all@[i as int]);
        }
        let pair = &all[i];
        let mut j: usize = 0;
        let mut found: Option<usize> = None;
        while j < hist.len() && found.is_none()
            invariant
                j <= hist@.len(),
                i < all@.len(),
                *pair == all@[i as int],
                match found {
                    Some(f) => f < hist@.len() && hist@[f as int].spec_kv() == kv(
                        all@[i as int],
                    ) && j == f,
                    None => forall|a: int|
                        0 <= a < j ==> (#[trigger] hist@[a]).spec_kv() != kv(all@[i as int]),
                },
            decreases hist@.len() - j + (if found.is_none() {
                1int
            } else {
                0int
            }),
        {
            if pair.0.equals(&hist[j].key_id) && pair.1.equals(&hist[j].sign_key) {
                proof {
                    assert(hist@[j as int].spec_kv() == kv(all@[i as int]));
                }
                found = Some(j);
            } else {
                j += 1;
            }
        }
        let ghost pre = hist@;
        let ghost prefix = all@.take(i as int);
        let ghost longer = all@.take(i + 1);
        match found {
            Some(f) => {
                proof {
                    assert(contains_key(prefix, kv(all@[i as int])));
                    lemma_count_le_len(prefix, kv(all@[i as int]));
                }
                let entry = &hist[f];
                let updated = KeyCount {
                    key_id: entry.key_id.duplicate(),
                    sign_key: entry.sign_key.duplicate(),
                    count: entry.count + 1,
                };
                hist.set(f, updated);
                proof {
                    let fi = f as int;
                    assert(hist@[fi].spec_kv() == pre[fi].spec_kv());
                    assert forall|a: int, b: int|
                        0 <= a < b < hist@.len() implies (#[trigger] hist@[a]).spec_kv()
                        != (#[trigger] hist@[b]).spec_kv() by {
                        assert(pre[a].spec_kv() != pre[b].spec_kv());
                    }
                    assert forall|jj: int|
                        0 <= jj < hist@.len() implies contains_key(
                        longer,
                        (#[trigger] hist@[jj]).spec_kv(),
                    ) && hist@[jj].count == count_of(longer, hist@[jj].spec_kv()) by {
                        assert(contains_key(prefix, pre[jj].spec_kv()));
                        let w = choose|w: int|
                            0 <= w < prefix.len() && kv(#[trigger] prefix[w]) == pre[jj].spec_kv();
                        assert(kv(longer[w]) == hist@[jj].spec_kv());
                        if jj == fi {
                            assert(count_of(longer, hist@[jj].spec_kv()) == count_of(
                                prefix,
                                hist@[jj].spec_kv(),
                            ) + 1);
                        } else {
                            assert(pre[jj].spec_kv() != pre[fi].spec_kv());
                            assert(kv(all@[i as int]) == pre[fi].spec_kv());
                        }
                    }
                    assert forall|ii: int|
                        #![trigger longer[ii]]
                        0 <= ii < longer.len() implies exists|jj: int|
                        0 <= jj < hist@.len() && (#[trigger] hist@[jj]).spec_kv() == kv(
                            longer[ii],
                        ) by {
                        if ii < i {
                            assert(longer[ii] == prefix[ii]);
                            let w = choose|w: int|
                                0 <= w < pre.len() && (#[trigger] pre[w]).spec_kv() == kv(
                                    prefix[ii],
                                );
                            assert(hist@[w].spec_kv() == kv(longer[ii]));
                        } else {
                            assert(hist@[fi].spec_kv() == kv(longer[ii]));
                        }
                    }
                    assert(num_distinct(longer) == num_distinct(prefix));
                }
            },
            None => {
                proof {
                    assert(!contains_key(prefix, kv(all@[i as int]))) by {
                        if contains_key(prefix, kv(all@[i as int])) {
                            let w = choose|w: int|
                                0 <= w < prefix.len() && kv(#[trigger] prefix[w]) == kv(
                                    all@[i as int],
                                );
                            let jj = choose|jj: int|
                                0 <= jj < pre.len() && (#[trigger] pre[jj]).spec_kv() == kv(
                                    prefix[w],
                                );
                            assert(pre[jj].spec_kv() == kv(all@[i as int]));
                        }
                    }
                }
                let fresh = KeyCount {
                    key_id: pair.0.duplicate(),
                    sign_key: pair.1.duplicate(),
                    count: 1,
                };
                hist.push(fresh);
                proof {
                    let last = hist@.len() - 1;
                    assert(hist@[last].spec_kv() == kv(all@[i as int]));
                    assert forall|a: int, b: int|
                        0 <= a < b < hist@.len() implies (#[trigger] hist@[a]).spec_kv()
                        != (#[trigger] hist@[b]).spec_kv() by {
                        if b < last {
                            assert(pre[a].spec_kv() != pre[b].spec_kv());
                        } else {
                            assert(contains_key(prefix, pre[a].spec_kv()));
                        }
                    }
                    assert forall|jj: int|
                        0 <= jj < hist@.len() implies contains_key(
                        longer,
                        (#[trigger] hist@[jj]).spec_kv(),
                    ) && hist@[jj].count == count_of(longer, hist@[jj].spec_kv()) by {
                        if jj < last {
                            assert(contains_key(prefix, pre[jj].spec_kv()));
                            let w = choose|w: int|
                                0 <= w < prefix.len() && kv(#[trigger] prefix[w])
                                    == pre[jj].spec_kv();
                            assert(kv(longer[w]) == hist@[jj].spec_kv());
                            assert(pre[jj].spec_kv() != kv(all@[i as int])) by {
                                if pre[jj].spec_kv() == kv(all@[i as int]) {
                                    assert(kv(prefix[w]) == kv(all@[i as int]));
                                }
                            }
                        } else {
                            assert(kv(longer[longer.len() - 1]) == hist@[last].spec_kv());
                            lemma_count_zero_when_absent(prefix, kv(all@[i as int]));
                        }
                    }
                    assert forall|ii: int|
                        #![trigger longer[ii]]
                        0 <= ii < longer.len() implies exists|jj: int|
                        0 <= jj < hist@.len() && (#[trigger] hist@[jj]).spec_kv() == kv(
                            longer[ii],
                        ) by {
                        if ii < i {
                            assert(longer[ii] == prefix[ii]);
                            let w = choose|w: int|
                                0 <= w < pre.len() && (#[trigger] pre[w]).spec_kv() == kv(
                                    prefix[ii],
                                );
                            assert(hist@[w].spec_kv() == kv(longer[ii]));
                        } else {
                            assert(hist@[last].spec_kv() == kv(longer[ii]));
                        }
                    }
                }
            },
        }
        i += 1;
    }
    proof {
        assert(all@.take(all@.len() as int) =~= all@);
    }
    hist
}

/// A key that a list does not hold occurs zero times in it.
proof fn lemma_count_zero_when_absent(s: Seq<(DhtId, PublicSignKey)>, k: (Seq<u8>, Seq<u8>))
    requires
        !contains_key(s, k),
    ensures
        count_of(s, k) == 0,
    decreases s.len(),
{
    if s.len() > 0 {
        assert forall|i: int| 0 <= i < s.len() - 1 implies kv(#[trigger] s.drop_last()[i])
            != k by {
            assert(s[i] == s.drop_last()[i]);
        }
        lemma_count_zero_when_absent(s.drop_last(), k);
        assert(kv(s.last()) != k) by {
            assert(s[s.len() - 1] == s.last());
        }
    }
}

/// Orders histogram entries by how often the key was reported, most often
/// first.
fn sort_by_count_desc(v: Vec<KeyCount>) -> (r: Vec<KeyCount>)
    ensures
        r@.len() == v@.len(),
        r@.to_multiset() == v@.to_multiset(),
        forall|a: int, b: int|
            0 <= a < b < r@.len() ==> (#[trigger] r@[a]).count >= (#[trigger] r@[b]).count,
{
    broadcast use vstd::seq_lib::to_multiset_build;
    broadcast use vstd::seq_lib::to_multiset_insert;
    broadcast use vstd::seq_lib::to_multiset_remove;

    let ghost orig = v@;
    let mut src = v;
    let mut r: Vec<KeyCount> = Vec::new();
    proof {
        orig.to_multiset_ensures();
        r@.to_multiset_ensures();
        assert(r@.to_multiset().add(src@.to_multiset()) =~= orig.to_multiset());
    }
    while src.len() > 0
        invariant
            r@.len() + src@.len() == orig.len(),
            forall|a: int, b: int|
                0 <= a < b < r@.len() ==> (#[trigger] r@[a]).count >= (#[trigger] r@[b]).count,
            r@.to_multiset().add(src@.to_multiset()) == orig.to_multiset(),
        decreases src@.len(),
    {
        let ghost pre_src = src@;
        let x = src.remove(0);
        proof {
            pre_src.to_multiset_ensures();
            assert(pre_src.remove(0).to_multiset() =~= pre_src.to_multiset().remove(pre_src[0]));
        }
        let mut j: usize = 0;
        let mut stop = false;
        while j < r.len() && !stop
            invariant
                j <= r@.len(),
                forall|k: int| 0 <= k < j ==> (#[trigger] r@[k]).count >= x.count,
                stop ==> j < r@.len() && r@[j as int].count < x.count,
            decreases r@.len() - j + (if stop {
                0int
            } else {
                1int
            }),
        {
            if r[j].count < x.count {
                stop = true;
            } else {
                j += 1;
            }
        }
        let ghost pre_r = r@;
        r.insert(j, x);
        proof {
            assert(r@ == pre_r.insert(j as int, x));
            vstd::seq_lib::to_multiset_insert(pre_r, j as int, x);
            assert forall|a: int, b: int|
                0 <= a < b < r@.len() implies (#[trigger] r@[a]).count
                >= (#[trigger] r@[b]).count by {
                let ji = j as int;
                if a < ji && b < ji {
                    assert(r@[a] == pre_r[a] && r@[b] == pre_r[b]);
                } else if a < ji && b == ji {
                    assert(r@[a] == pre_r[a]);
                } else if a < ji && b > ji {
                    assert(r@[a] == pre_r[a] && r@[b] == pre_r[b - 1]);
                } else if a == ji && b > ji {
                    assert(r@[b] == pre_r[b - 1]);
                    assert(pre_r[ji].count < x.count || ji == pre_r.len());
                } else {
                    assert(r@[a] == pre_r[a - 1] && r@[b] == pre_r[b - 1]);
                }
            }
            assert(r@.to_multiset().add(src@.to_multiset()) =~= orig.to_multiset());
        }
    }
    proof {
        src@.to_multiset_ensures();
        assert forall|x: KeyCount| src@.to_multiset().count(x) == 0 by {
            assert(!src@.contains(x));
        }
        assert(r@.to_multiset() =~= orig.to_multiset());
    }
    r
}

/// Copies a key list, keeping each pair's bytes.
fn copy_pairs(v: &Vec<(DhtId, PublicSignKey)>) -> (r: Vec<(DhtId, PublicSignKey)>)
    ensures
        r@.len() == v@.len(),
        forall|j: int| 0 <= j < v@.len() ==> kv(#[trigger] r@[j]) == kv(#[trigger] v@[j]),
{
    let mut r: Vec<(DhtId, PublicSignKey)> = Vec::new();
    let mut i: usize = 0;
    while i < v.len()
        invariant
            i <= v@.len(),
            r@.len() == i,
            forall|j: int| 0 <= j < i ==> kv(#[trigger] r@[j]) == kv(#[trigger] v@[j]),
        decreases v@.len() - i,
    {
        let pair = (v[i].0.duplicate(), v[i].1.duplicate());
        r.push(pair);
        i += 1;
    }
    r
}

impl GetGroupKeyResponse {
    /// A response filled with fresh random identifiers and keys, a few more
    /// than a group holds.
    pub fn generate_random() -> (r: GetGroupKeyResponse)
        ensures
            r.public_sign_keys@.len() == GROUP_SIZE + 7,
    {
        let total: usize = GROUP_SIZE as usize + 7;
        let mut keys: Vec<(DhtId, PublicSignKey)> = Vec::new();
        let mut i: usize = 0;
        while i < total
            invariant
                i <= total,
                keys@.len() == i,
            decreases total - i,
        {
            keys.push((DhtId::generate_random(), PublicSignKey::generate_random()));
            i += 1;
        }
        GetGroupKeyResponse { target_id: DhtId::generate_random(), public_sign_keys: keys }
    }

    /// Concatenates our own keys with every other response's keys, pair for
    /// pair.
    fn collect_all_keys(&self, others: &Vec<GetGroupKeyResponse>) -> (r: Vec<
        (DhtId, PublicSignKey),
    >)
        ensures
            ({
                let concat = self.public_sign_keys@ + keys_of(others@);
                r@.len() == concat.len() && forall|j: int|
                    0 <= j < concat.len() ==> kv(#[trigger] r@[j]) == kv(#[trigger] concat[j])
            }),
    {
        let mut r = copy_pairs(&self.public_sign_keys);
        proof {
            assert(keys_of(others@.take(0)) =~= Seq::<(DhtId, PublicSignKey)>::empty());
        }
        let mut i: usize = 0;
        while i < others.len()
            invariant
                i <= others@.len(),
                ({
                    let concat = self.public_sign_keys@ + keys_of(others@.take(i as int));
                    r@.len() == concat.len() && forall|j: int|
                        0 <= j < concat.len() ==> kv(#[trigger] r@[j]) == kv(#[trigger] concat[j])
                }),
            decreases others@.len() - i,
        {
            let ghost pre = r@;
            let mut more = copy_pairs(&others[i].public_sign_keys);
            let ghost more_view = more@;
            r.append(&mut more);
            proof {
                assert(others@.take(i + 1).drop_last() =~= others@.take(i as int));
                assert(others@.take(i + 1).last() == others@[i as int]);
                let concat0 = self.public_sign_keys@ + keys_of(others@.take(i as int));
                let concat1 = self.public_sign_keys@ + keys_of(others@.take(i + 1));
                assert(concat1 =~= concat0 + others@[i as int].public_sign_keys@);
                assert(r@ == pre + more_view);
                assert forall|j: int|
                    0 <= j < concat1.len() implies kv(#[trigger] r@[j]) == kv(
                    #[trigger] concat1[j],
                ) by {
                    if j < pre.len() {
                        assert(r@[j] == pre[j] && concat1[j] == concat0[j]);
                    } else {
                        assert(r@[j] == more_view[j - pre.len()]);
                        assert(concat1[j] == others@[i as int].public_sign_keys@[j - pre.len()]);
                    }
                }
            }
            i += 1;
        }
        proof {
            assert(others@.take(others@.len() as int) =~= others@);
        }
        r
    }

    /// Merges this response with others for the same target: counts how
    /// often each key was reported, across all the responses, and keeps the
    /// group-size most-reported keys.  Returns nothing when some other
    /// response speaks of a different target.
    #[verifier::rlimit(60)]
    pub fn merge(&self, get_group_key_responses: &Vec<GetGroupKeyResponse>) -> (r: Option<
        GetGroupKeyResponse,
    >)
        requires
            ({
                let all = self.public_sign_keys@ + keys_of(get_group_key_responses@);
                &&& (forall|k: (Seq<u8>, Seq<u8>)| count_of(all, k) <= GROUP_SIZE)
                &&& ((forall|i: int|
                    0 <= i < get_group_key_responses@.len()
                        ==> (#[trigger] get_group_key_responses@[i]).target_id.0@
                        == self.target_id.0@) ==> num_distinct(all) >= GROUP_SIZE)
            }),
        ensures
            ({
                let all = self.public_sign_keys@ + keys_of(get_group_key_responses@);
                match r {
                    Some(merged) => {
                        &&& (forall|i: int|
                            0 <= i < get_group_key_responses@.len()
                                ==> (#[trigger] get_group_key_responses@[i]).target_id.0@
                                == self.target_id.0@)
                        &&& merged.target_id.0@ == self.target_id.0@
                        &&& merged.public_sign_keys@.len() == GROUP_SIZE
                        &&& (forall|j: int|
                            0 <= j < merged.public_sign_keys@.len() ==> contains_key(
                                all,
                                kv(#[trigger] merged.public_sign_keys@[j]),
                            ))
                        &&& (forall|a: int, b: int|
                            0 <= a < b < merged.public_sign_keys@.len() ==> kv(
                                #[trigger] merged.public_sign_keys@[a],
                            ) != kv(#[trigger] merged.public_sign_keys@[b]))
                        &&& (forall|a: int, b: int|
                            0 <= a < b < merged.public_sign_keys@.len() ==> count_of(
                                all,
                                kv(#[trigger] merged.public_sign_keys@[a]),
                            ) >= count_of(all, kv(#[trigger] merged.public_sign_keys@[b])))
                        &&& (forall|i2: int|
                            #![trigger all[i2]]
                            0 <= i2 < all.len() && !(exists|j: int|
                                0 <= j < merged.public_sign_keys@.len() && kv(
                                    #[trigger] merged.public_sign_keys@[j],
                                ) == kv(all[i2])) ==> count_of(all, kv(all[i2])) <= count_of(
                                all,
                                kv(merged.public_sign_keys@.last()),
                            ))
                    },
                    None => !(forall|i: int|
                        0 <= i < get_group_key_responses@.len()
                            ==> (#[trigger] get_group_key_responses@[i]).target_id.0@
                            == self.target_id.0@),
                }
            }),
    {
        let mut i: usize = 0;
        while i < get_group_key_responses.len()
            invariant
                i <= get_group_key_responses@.len(),
                forall|j: int|
                    0 <= j < i ==> (#[trigger] get_group_key_responses@[j]).target_id.0@
                        == self.target_id.0@,
            decreases get_group_key_responses@.len() - i,
        {
            if !get_group_key_responses[i].target_id.equals(&self.target_id) {
                proof {
                    assert(get_group_key_responses@[i as int].target_id.0@ != self.target_id.0@);
                    assert(!(forall|j: int|
                        0 <= j < get_group_key_responses@.len()
                            ==> (#[trigger] get_group_key_responses@[j]).target_id.0@
                            == self.target_id.0@));
                }
                return None;
            }
            i += 1;
        }
        let all = self.collect_all_keys(get_group_key_responses);
        let ghost concat = self.public_sign_keys@ + keys_of(get_group_key_responses@);
        proof {
            lemma_kv_equal_lists(all@, concat);
        }
        let hist = build_histogram(&all);
        let sorted = sort_by_count_desc(hist);
        proof {
            let pre_hist = hist@;
            pre_hist.to_multiset_ensures();
            sorted@.to_multiset_ensures();
            assert forall|a: int|
                0 <= a < sorted@.len() implies exists|i2: int|
                0 <= i2 < pre_hist.len() && pre_hist[i2] == #[trigger] sorted@[a] by {
                assert(sorted@.contains(sorted@[a]));
                assert(sorted@.to_multiset().count(sorted@[a]) > 0);
                assert(pre_hist.to_multiset().count(sorted@[a]) > 0);
                assert(pre_hist.contains(sorted@[a]));
            }
            assert forall|a: int|
                0 <= a < sorted@.len() implies contains_key(
                all@,
                (#[trigger] sorted@[a]).spec_kv(),
            ) && sorted@[a].count == count_of(all@, sorted@[a].spec_kv()) by {
                let i2 = choose|i2: int|
                    0 <= i2 < pre_hist.len() && pre_hist[i2] == sorted@[a];
            }
            assert forall|b: int|
                0 <= b < pre_hist.len() implies exists|a: int|
                0 <= a < sorted@.len() && sorted@[a] == #[trigger] pre_hist[b] by {
                assert(pre_hist.contains(pre_hist[b]));
                assert(pre_hist.to_multiset().count(pre_hist[b]) > 0);
                assert(sorted@.to_multiset().count(pre_hist[b]) > 0);
                assert(sorted@.contains(pre_hist[b]));
            }
            assert(pre_hist.no_duplicates()) by {
                assert forall|a: int, b: int|
                    0 <= a < pre_hist.len() && 0 <= b < pre_hist.len() && a != b
                    implies pre_hist[a] != pre_hist[b] by {
                    if a < b {
                        assert(pre_hist[a].spec_kv() != pre_hist[b].spec_kv());
                    } else {
                        assert(pre_hist[b].spec_kv() != pre_hist[a].spec_kv());
                    }
                }
            }
            pre_hist.lemma_multiset_has_no_duplicates();
            sorted@.lemma_multiset_has_no_duplicates_conv();
            assert(sorted@.no_duplicates());
            assert forall|a: int, b: int|
                0 <= a < b < sorted@.len() implies (#[trigger] sorted@[a]).spec_kv()
                != (#[trigger] sorted@[b]).spec_kv() by {
                assert(sorted@[a] != sorted@[b]);
                let i1 = choose|i2: int|
                    0 <= i2 < pre_hist.len() && pre_hist[i2] == sorted@[a];
                let i2 = choose|i2: int|
                    0 <= i2 < pre_hist.len() && pre_hist[i2] == sorted@[b];
                if i1 == i2 {
                    assert(sorted@[a] == sorted@[b]);
                }
                if i1 < i2 {
                    assert(pre_hist[i1].spec_kv() != pre_hist[i2].spec_kv());
                } else if i2 < i1 {
                    assert(pre_hist[i2].spec_kv() != pre_hist[i1].spec_kv());
                }
            }
            assert(sorted@.len() == num_distinct(all@));
            assert(num_distinct(all@) == num_distinct(concat));
            assert(sorted@.len() >= GROUP_SIZE);
        }
        let mut chosen: Vec<(DhtId, PublicSignKey)> = Vec::new();
        let mut j: usize = 0;
        while j < GROUP_SIZE as usize
            invariant
                j <= GROUP_SIZE,
                GROUP_SIZE <= sorted@.len(),
                chosen@.len() == j,
                forall|a: int, b: int|
                    0 <= a < b < sorted@.len() ==> (#[trigger] sorted@[a]).count
                        >= (#[trigger] sorted@[b]).count,
                forall|a: int, b: int|
                    0 <= a < b < sorted@.len() ==> (#[trigger] sorted@[a]).spec_kv()
                        != (#[trigger] sorted@[b]).spec_kv(),
                forall|a: int|
                    0 <= a < sorted@.len() ==> contains_key(
                        all@,
                        (#[trigger] sorted@[a]).spec_kv(),
                    ) && sorted@[a].count == count_of(all@, sorted@[a].spec_kv()),
                forall|a: int|
                    0 <= a < j ==> kv(#[trigger] chosen@[a]) == sorted@[a].spec_kv(),
            decreases GROUP_SIZE - j,
        {
            let entry = &sorted[j];
            chosen.push((entry.key_id.duplicate(), entry.sign_key.duplicate()));
            j += 1;
        }
        proof {
            lemma_kv_equal_lists(all@, concat);
            assert forall|jj: int|
                0 <= jj < chosen@.len() implies contains_key(
                concat,
                kv(#[trigger] chosen@[jj]),
            ) by {
                assert(contains_key(all@, sorted@[jj].spec_kv()));
            }
            let last_count = count_of(all@, kv(chosen@.last()));
            assert(kv(chosen@.last()) == sorted@[GROUP_SIZE - 1].spec_kv());
            assert forall|i2: int|
                #![trigger concat[i2]]
                0 <= i2 < concat.len() && !(exists|jj: int|
                    0 <= jj < chosen@.len() && kv(#[trigger] chosen@[jj]) == kv(
                        concat[i2],
                    )) implies count_of(concat, kv(concat[i2])) <= count_of(
                concat,
                kv(chosen@.last()),
            ) by {
                assert(kv(all@[i2]) == kv(concat[i2]));
                assert(contains_key(all@, kv(all@[i2])));
                // The key sits in the histogram; its entry survived sorting.
                let b = choose|b: int|
                    0 <= b < hist@.len() && (#[trigger] hist@[b]).spec_kv() == kv(all@[i2]);
                let a = choose|a: int|
                    0 <= a < sorted@.len() && sorted@[a] == #[trigger] hist@[b];
                if a < GROUP_SIZE {
                    assert(kv(chosen@[a]) == sorted@[a].spec_kv());
                    assert(kv(chosen@[a]) == kv(concat[i2]));
                } else {
                    assert(sorted@[GROUP_SIZE - 1].count >= sorted@[a].count);
                    assert(sorted@[a].count == count_of(all@, kv(all@[i2])));
                    assert(sorted@[GROUP_SIZE - 1].count == count_of(
                        all@,
                        sorted@[GROUP_SIZE - 1].spec_kv(),
                    ));
                }
            }
        }
        Some(
            GetGroupKeyResponse {
                target_id: self.target_id.duplicate(),
                public_sign_keys: chosen,
            },
        )
    }
}

/// The canonical bytes of a response: the count-prefixed target identifier,
/// then the count-prefixed key list, each pair two count-prefixed byte
/// strings.
pub open spec fn spec_encode_pair(p: (DhtId, PublicSignKey)) -> Seq<u8> {
    crate::codec::spec_encode_bytes((p.0).0@) + crate::codec::spec_encode_bytes((p.1).0@)
}

/// The concatenated encodings of a key list.
pub open spec fn spec_encode_pairs(s: Seq<(DhtId, PublicSignKey)>) -> Seq<u8>
    decreases s.len(),
{
    if s.len() == 0 {
        Seq::empty()
    } else {
        spec_encode_pairs(s.drop_last()) + spec_encode_pair(s.last())
    }
}

/// The canonical bytes of a whole response.
pub open spec fn spec_encode_response(r: GetGroupKeyResponse) -> Seq<u8> {
    crate::codec::spec_encode_bytes(r.target_id.0@) + crate::codec::spec_u32_be(
        r.public_sign_keys@.len() as u32,
    ) + spec_encode_pairs(r.public_sign_keys@)
}

/// Whether a response's fields fit the wire format's counters.
pub open spec fn spec_response_encodable(r: GetGroupKeyResponse) -> bool {
    &&& r.target_id.0@.len() < 0x1_0000_0000
    &&& r.public_sign_keys@.len() < 0x1_0000_0000
    &&& forall|j: int|
        0 <= j < r.public_sign_keys@.len() ==> ((#[trigger] r.public_sign_keys@[j]).0).0@.len()
            < 0x1_0000_0000 && (r.public_sign_keys@[j].1).0@.len() < 0x1_0000_0000
}

impl GetGroupKeyResponse {
    /// The canonical bytes of this response.
    pub fn encode(&self) -> (r: Vec<u8>)
        requires
            spec_response_encodable(*self),
        ensures
            r@ == spec_encode_response(*self),
    {
        let mut out: Vec<u8> = Vec::new();
        crate::codec::encode_bytes(&mut out, &self.target_id.0);
        crate::codec::encode_u32_be(&mut out, self.public_sign_keys.len() as u32);
        let mut i: usize = 0;
        proof {
            assert(spec_encode_pairs(self.public_sign_keys@.take(0)) =~= Seq::<u8>::empty());
            assert(out@ =~= crate::codec::spec_encode_bytes(self.target_id.0@)
                + crate::codec::spec_u32_be(self.public_sign_keys@.len() as u32)
                + spec_encode_pairs(self.public_sign_keys@.take(0)));
        }
        while i < self.public_sign_keys.len()
            invariant
                i <= self.public_sign_keys@.len(),
                spec_response_encodable(*self),
                out@ == crate::codec::spec_encode_bytes(self.target_id.0@)
                    + crate::codec::spec_u32_be(self.public_sign_keys@.len() as u32)
                    + spec_encode_pairs(self.public_sign_keys@.take(i as int)),
            decreases self.public_sign_keys@.len() - i,
        {
            crate::codec::encode_bytes(&mut out, &self.public_sign_keys[i].0 .0);
            crate::codec::encode_bytes(&mut out, &self.public_sign_keys[i].1 .0);
            proof {
                assert(self.public_sign_keys@.take(i + 1).drop_last()
                    =~= self.public_sign_keys@.take(i as int));
                assert(self.public_sign_keys@.take(i + 1).last()
                    == self.public_sign_keys@[i as int]);
                assert(out@ =~= crate::codec::spec_encode_bytes(self.target_id.0@)
                    + crate::codec::spec_u32_be(self.public_sign_keys@.len() as u32)
                    + spec_encode_pairs(self.public_sign_keys@.take(i + 1)));
            }
            i += 1;
        }
        proof {
            assert(self.public_sign_keys@.take(self.public_sign_keys@.len() as int)
                =~= self.public_sign_keys@);
        }
        out
    }

    /// Reads a response back from its canonical bytes.  Returns nothing
    /// when the bytes are no complete encoding of a response; a result
    /// re-encodes to exactly the input, so decoding is a left inverse of
    /// the canonical encoding.
    pub fn decode(bytes: &Vec<u8>) -> (r: Option<GetGroupKeyResponse>)
        ensures
            r is Some ==> spec_response_encodable(r.unwrap()) && spec_encode_response(r.unwrap())
                == bytes@,
    {
        let (target, mut pos) = match decode_bytes_at(bytes, 0) {
            Some(x) => x,
            None => {
                return None;
            },
        };
        let (count, pos2) = match decode_u32_at(bytes, pos) {
            Some(x) => x,
            None => {
                return None;
            },
        };
        let ghost pairs_start = pos2 as int;
        pos = pos2;
        let mut keys: Vec<(DhtId, PublicSignKey)> = Vec::new();
        let mut i: u32 = 0;
        proof {
            assert(spec_encode_pairs(keys@) =~= bytes@.subrange(pairs_start, pos as int));
        }
        while i < count
            invariant
                i <= count,
                keys@.len() == i,
                0 <= pairs_start,
                pairs_start <= pos <= bytes@.len(),
                spec_encode_pairs(keys@) == bytes@.subrange(pairs_start, pos as int),
                forall|j: int|
                    0 <= j < keys@.len() ==> ((#[trigger] keys@[j]).0).0@.len() < 0x1_0000_0000
                        && (keys@[j].1).0@.len() < 0x1_0000_0000,
            decreases count - i,
        {
            let ghost pre_pos = pos as int;
            let (id_bytes, p1) = match decode_bytes_at(bytes, pos) {
                Some(x) => x,
                None => {
                    return None;
                },
            };
            let (key_bytes, p2) = match decode_bytes_at(bytes, p1) {
                Some(x) => x,
                None => {
                    return None;
                },
            };
            pos = p2;
            let ghost pre_keys = keys@;
            keys.push((DhtId(id_bytes), PublicSignKey(key_bytes)));
            proof {
                assert(keys@.drop_last() =~= pre_keys);
                assert(spec_encode_pairs(keys@) == spec_encode_pairs(pre_keys)
                    + spec_encode_pair(keys@.last()));
                assert(spec_encode_pair(keys@.last()) =~= bytes@.subrange(pre_pos, pos as int));
                assert(bytes@.subrange(pairs_start, pre_pos) + bytes@.subrange(
                    pre_pos,
                    pos as int,
                ) =~= bytes@.subrange(pairs_start, pos as int));
                assert(spec_encode_pairs(keys@) == bytes@.subrange(pairs_start, pos as int));
            }
            i += 1;
        }
        if pos != bytes.len() {
            return None;
        }
        let resp = GetGroupKeyResponse { target_id: DhtId(target), public_sign_keys: keys };
        proof {
            assert((resp.public_sign_keys@.len() as u32) == count);
            assert(spec_encode_response(resp) =~= bytes@);
        }
        Some(resp)
    }
}

/// Reads a big-endian 32-bit count at the position; returns it with the
/// position after it.  What it read is exactly the count's encoding.
fn decode_u32_at(bytes: &Vec<u8>, pos: usize) -> (r: Option<(u32, usize)>)
    ensures
        r is Some ==> {
            &&& r.unwrap().1 == pos + 4
            &&& r.unwrap().1 <= bytes@.len()
            &&& crate::codec::spec_u32_be(r.unwrap().0) == bytes@.subrange(
                pos as int,
                pos + 4,
            )
        },
{
    if pos > bytes.len() || bytes.len() - pos < 4 {
        return None;
    }
    let b0 = bytes[pos];
    let b1 = bytes[pos + 1];
    let b2 = bytes[pos + 2];
    let b3 = bytes[pos + 3];
    let v: u32 = ((b0 as u32) << 24) | ((b1 as u32) << 16) | ((b2 as u32) << 8) | (b3 as u32);
    proof {
        assert((((b0 as u32) << 24 | (b1 as u32) << 16 | (b2 as u32) << 8 | (b3 as u32)) >> 24)
            as u8 == b0 && (((b0 as u32) << 24 | (b1 as u32) << 16 | (b2 as u32) << 8 | (
        b3 as u32)) >> 16) as u8 == b1 && (((b0 as u32) << 24 | (b1 as u32) << 16 | (b2 as u32)
            << 8 | (b3 as u32)) >> 8) as u8 == b2 && ((b0 as u32) << 24 | (b1 as u32) << 16 | (
        b2 as u32) << 8 | (b3 as u32)) as u8 == b3) by (bit_vector);
        assert(crate::codec::spec_u32_be(v) =~= bytes@.subrange(pos as int, pos + 4));
    }
    Some((v, pos + 4))
}

/// Reads a count-prefixed byte string at the position; returns it with the
/// position after it.  What it read is exactly the string's encoding.
fn decode_bytes_at(bytes: &Vec<u8>, pos: usize) -> (r: Option<(Vec<u8>, usize)>)
    ensures
        r is Some ==> {
            &&& r.unwrap().1 <= bytes@.len()
            &&& r.unwrap().0@.len() < 0x1_0000_0000
            &&& pos <= r.unwrap().1
            &&& crate::codec::spec_encode_bytes(r.unwrap().0@) == bytes@.subrange(
                pos as int,
                r.unwrap().1 as int,
            )
        },
{
    let (count, start) = match decode_u32_at(bytes, pos) {
        Some(x) => x,
        None => {
            return None;
        },
    };
    let n = count as usize;
    let len = bytes.len();
    if len - start < n {
        return None;
    }
    let mut out: Vec<u8> = Vec::new();
    let mut i: usize = 0;
    while i < n
        invariant
            i <= n,
            len == bytes@.len(),
            start + n <= len,
            out@ == bytes@.subrange(start as int, start + i),
        decreases n - i,
    {
        let b = bytes[start + i];
        out.push(b);
        proof {
            assert(out@ =~= bytes@.subrange(start as int, start + i + 1));
        }
        i += 1;
    }
    proof {
        assert(out@.len() == n);
        assert((out@.len() as u32) == count);
        assert(crate::codec::spec_encode_bytes(out@) =~= bytes@.subrange(
            pos as int,
            (start + n) as int,
        ));
    }
    Some((out, start + n))
}

} // verus!
