//! The signature accumulator: collects BLS signature shares over identical
//! payload digests until the threshold is reached, then produces the combined
//! signature.
//!
//! Entries are keyed by digest.  Adding a share is idempotent per digest and
//! share index; an entry fires exactly once, on the share whose addition
//! reaches the threshold.  Entries expire to prevent unbounded growth.

use vstd::prelude::*;
use crate::bytes_util::bytes_eq;
use crate::bytes_util::copy_bytes;
use crate::crypto::bls_combine_signatures;
use crate::error::RoutingError;

verus! {

/// How long a partial entry is kept, in milliseconds.
pub const ACCUMULATION_TIMEOUT_MS: u64 = 120000;

/// The shares collected so far for one payload digest.
pub struct AccumulatingEntry {
    /// The payload digest the shares sign.
    pub digest: Vec<u8>,
    /// The collected shares: pairs of signer index and share bytes.
    pub shares: Vec<(u64, Vec<u8>)>,
    /// Whether the entry has fired already.
    pub complete: bool,
    /// When the entry was created, in milliseconds.
    pub created_at: u64,
}

/// The share bytes of an entry, as a mathematical sequence.
pub open spec fn shares_view(sh: Seq<(u64, Vec<u8>)>) -> Seq<(u64, Seq<u8>)> {
    sh.map_values(|p: (u64, Vec<u8>)| (p.0, p.1@))
}

/// The two share lists hold the same indices and bytes.
pub open spec fn shares_equal(a: Seq<(u64, Vec<u8>)>, b: Seq<(u64, Vec<u8>)>) -> bool {
    a.len() == b.len() && forall|j: int|
        0 <= j < a.len() ==> (#[trigger] a[j]).0 == (#[trigger] b[j]).0 && (a[j].1)@ == (b[j].1)@
}

/// Whether the entry survives expiry at the given time.
pub open spec fn keep_pred(now_ms: u64) -> spec_fn(AccumulatingEntry) -> bool {
    |e: AccumulatingEntry|
        !(now_ms >= ACCUMULATION_TIMEOUT_MS && e.created_at <= now_ms - ACCUMULATION_TIMEOUT_MS)
}

/// Whether some collected share carries the given signer index.
pub open spec fn has_index(sh: Seq<(u64, Vec<u8>)>, index: u64) -> bool {
    exists|i: int| 0 <= i < sh.len() && #[trigger] sh[i].0 == index
}

/// Collects signature shares until the threshold is reached.
pub struct SignatureAccumulator {
    /// How many shares fire an entry.
    pub threshold: usize,
    /// The open and fired entries, keyed by digest.
    pub entries: Vec<AccumulatingEntry>,
}

impl SignatureAccumulator {
    /// Digests are unique, and each entry's signer indices are unique.
    pub open spec fn wf(self) -> bool {
        &&& forall|i: int, j: int|
            0 <= i < j < self.entries@.len() ==> #[trigger] self.entries@[i].digest@
                != #[trigger] self.entries@[j].digest@
        &&& forall|e: int, i: int, j: int|
            0 <= e < self.entries@.len() && 0 <= i < j < self.entries@[e].shares@.len()
                ==> #[trigger] self.entries@[e].shares@[i].0 != #[trigger] self.entries@[e].shares@[j].0
    }

    /// Whether an entry for the digest exists.
    pub open spec fn spec_has_entry(self, d: Seq<u8>) -> bool {
        exists|i: int| 0 <= i < self.entries@.len() && #[trigger] self.entries@[i].digest@ == d
    }

    /// The index of the entry for the digest.
    pub open spec fn spec_entry_index(self, d: Seq<u8>) -> int {
        choose|i: int| 0 <= i < self.entries@.len() && #[trigger] self.entries@[i].digest@ == d
    }

    /// Whether adding this share under this digest would reach the
    /// threshold and make the entry fire.
    pub open spec fn spec_reaches_threshold(self, d: Seq<u8>, index: u64) -> bool {
        if !self.spec_has_entry(d) {
            1 >= self.threshold
        } else {
            let e = self.entries@[self.spec_entry_index(d)];
            &&& !e.complete
            &&& !has_index(e.shares@, index)
            &&& e.shares@.len() + 1 >= self.threshold
        }
    }

    /// An empty accumulator firing at the given threshold.
    pub fn new(threshold: usize) -> (r: SignatureAccumulator)
        ensures
            r.wf(),
            r.threshold == threshold,
            r.entries@.len() == 0,
    {
        SignatureAccumulator { threshold, entries: Vec::new() }
    }

    /// The position of the entry for the digest, if present.
    fn position(&self, d: &Vec<u8>) -> (r: Option<usize>)
        ensures
            match r {
                Some(i) => i < self.entries@.len() && self.entries@[i as int].digest@ == d@,
                None => !self.spec_has_entry(d@),
            },
    {
        let mut i: usize = 0;
        while i < self.entries.len()
            invariant
                i <= self.entries@.len(),
                forall|j: int| 0 <= j < i ==> #[trigger] self.entries@[j].digest@ != d@,
            decreases self.entries@.len() - i,
        {
            if bytes_eq(&self.entries[i].digest, d) {
                return Some(i);
            }
            i += 1;
        }
        None
    }

    /// The bytes of the collected share with the given signer index.
    pub open spec fn spec_share_bytes(sh: Seq<(u64, Vec<u8>)>, index: u64) -> Seq<u8> {
        (sh[choose|i: int| 0 <= i < sh.len() && #[trigger] sh[i].0 == index].1)@
    }

    /// The position of the share with the given signer index, if collected.
    fn share_position(sh: &Vec<(u64, Vec<u8>)>, index: u64) -> (r: Option<usize>)
        ensures
            match r {
                Some(k) => k < sh@.len() && sh@[k as int].0 == index,
                None => !has_index(sh@, index),
            },
    {
        let mut k: usize = 0;
        while k < sh.len()
            invariant
                k <= sh@.len(),
                forall|j: int| 0 <= j < k ==> #[trigger] sh@[j].0 != index,
            decreases sh@.len() - k,
        {
            if sh[k].0 == index {
                return Some(k);
            }
            k += 1;
        }
        None
    }

    /// Copies a share list.
    fn copy_shares(v: &Vec<(u64, Vec<u8>)>) -> (r: Vec<(u64, Vec<u8>)>)
        ensures
            shares_equal(r@, v@),
    {
        let mut r: Vec<(u64, Vec<u8>)> = Vec::new();
        let mut i: usize = 0;
        while i < v.len()
            invariant
                i <= v@.len(),
                r@.len() == i,
                shares_equal(r@, v@.take(i as int)),
            decreases v@.len() - i,
        {
            let idx = v[i].0;
            let bytes = copy_bytes(&v[i].1);
            r.push((idx, bytes));
            proof {
                assert(v@.take(i + 1)[i as int] == v@[i as int]);
                assert forall|j: int|
                    0 <= j < i + 1 implies (#[trigger] r@[j]).0 == (#[trigger] v@.take(
                    i + 1,
                )[j]).0 && (r@[j].1)@ == (v@.take(i + 1)[j].1)@ by {
                    if j < i {
                        assert(v@.take(i as int)[j] == v@.take(i + 1)[j]);
                    }
                }
            }
            i += 1;
        }
        proof {
            assert(v@.take(v@.len() as int) =~= v@);
        }
        r
    }

    /// Adds one signature share for the payload digest.
    ///
    /// Idempotent per digest and signer index: a share already collected
    /// changes nothing; a second submission for the same index with different
    /// bytes is rejected.  The entry fires exactly once, on the share whose
    /// addition reaches the threshold: firing combines the collected shares
    /// and returns the combined signature's bytes.  When the outside library
    /// rejects the share set, the entry is reopened so that correct shares
    /// can still accumulate.
    pub fn add_share(
        &mut self,
        pks: &threshold_crypto::PublicKeySet,
        digest: &Vec<u8>,
        index: u64,
        share: &Vec<u8>,
        now_ms: u64,
    ) -> (r: Result<Option<Vec<u8>>, RoutingError>)
        requires
            old(self).wf(),
            old(self).entries@.len() < usize::MAX,
        ensures
            final(self).wf(),
            final(self).threshold == old(self).threshold,
            ({
                let d = digest@;
                if !old(self).spec_has_entry(d) {
                    // A fresh entry is opened holding exactly this share.
                    &&& final(self).entries@.len() == old(self).entries@.len() + 1
                    &&& (forall|j: int|
                        0 <= j < old(self).entries@.len()
                            ==> #[trigger] final(self).entries@[j] == old(self).entries@[j])
                    &&& {
                        let e = final(self).entries@.last();
                        &&& e.digest@ == d
                        &&& e.shares@.len() == 1
                        &&& e.shares@[0].0 == index
                        &&& (e.shares@[0].1)@ == share@
                        &&& e.created_at == now_ms
                        &&& (if 1 >= old(self).threshold {
                            (e.complete && (exists|s: Vec<u8>|
                                r == Ok::<Option<Vec<u8>>, RoutingError>(Some(s)) && s@.len()
                                    == 96)) || (!e.complete && r == Err::<
                                Option<Vec<u8>>,
                                RoutingError,
                            >(RoutingError::FailedSignature))
                        } else {
                            !e.complete && r == Ok::<Option<Vec<u8>>, RoutingError>(None)
                        })
                    }
                } else {
                    let i = old(self).spec_entry_index(d);
                    let e = old(self).entries@[i];
                    &&& final(self).entries@.len() == old(self).entries@.len()
                    &&& (forall|j: int|
                        0 <= j < old(self).entries@.len() && j != i
                            ==> #[trigger] final(self).entries@[j] == old(self).entries@[j])
                    &&& if e.complete {
                        // The entry fired before: nothing happens again.
                        r == Ok::<Option<Vec<u8>>, RoutingError>(None) && final(self).entries@[i]
                            == e
                    } else if has_index(e.shares@, index) {
                        if Self::spec_share_bytes(e.shares@, index) == share@ {
                            // The same share resubmitted: never double-counted.
                            r == Ok::<Option<Vec<u8>>, RoutingError>(None)
                                && final(self).entries@[i] == e
                        } else {
                            // A different share under a used index: rejected.
                            r == Err::<Option<Vec<u8>>, RoutingError>(
                                RoutingError::InvalidSignatureShare,
                            ) && final(self).entries@[i] == e
                        }
                    } else {
                        let f = final(self).entries@[i];
                        &&& f.digest@ == e.digest@
                        &&& f.created_at == e.created_at
                        &&& f.shares@.len() == e.shares@.len() + 1
                        &&& shares_equal(f.shares@.drop_last(), e.shares@)
                        &&& f.shares@.last().0 == index
                        &&& (f.shares@.last().1)@ == share@
                        &&& (if e.shares@.len() + 1 >= old(self).threshold {
                            // This addition reaches the threshold: the entry
                            // fires now or reopens on a combining failure.
                            (f.complete && (exists|s: Vec<u8>|
                                r == Ok::<Option<Vec<u8>>, RoutingError>(Some(s)) && s@.len()
                                    == 96)) || (!f.complete && r == Err::<
                                Option<Vec<u8>>,
                                RoutingError,
                            >(RoutingError::FailedSignature))
                        } else {
                            // Below the threshold the entry never fires.
                            !f.complete && r == Ok::<Option<Vec<u8>>, RoutingError>(None)
                        })
                    }
                }
            }),
    {
        match self.position(digest) {
            None => {
                let mut shares: Vec<(u64, Vec<u8>)> = Vec::new();
                shares.push((index, copy_bytes(share)));
                let fires = 1 >= self.threshold;
                let mut entry = AccumulatingEntry {
                    digest: copy_bytes(digest),
                    shares,
                    complete: false,
                    created_at: now_ms,
                };
                let mut result: Result<Option<Vec<u8>>, RoutingError> = Ok(None);
                if fires {
                    match bls_combine_signatures(pks, &entry.shares) {
                        Some(sig) => {
                            entry.complete = true;
                            result = Ok(Some(sig));
                        },
                        None => {
                            result = Err(RoutingError::FailedSignature);
                        },
                    }
                }
                self.entries.push(entry);
                proof {
                    assert forall|a: int, b: int|
                        0 <= a < b < self.entries@.len() implies #[trigger] self.entries@[a].digest@
                        != #[trigger] self.entries@[b].digest@ by {
                        if b < old(self).entries@.len() {
                            assert(old(self).entries@[a].digest@ != old(
                                self,
                            ).entries@[b].digest@);
                        }
                    }
                }
                result
            },
            Some(i) => {
                proof {
                    let ci = self.spec_entry_index(digest@);
                    if ci != i as int {
                        assert(self.entries@[ci].digest@ == self.entries@[i as int].digest@);
                    }
                }
                if self.entries[i].complete {
                    return Ok(None);
                }
                match Self::share_position(&self.entries[i].shares, index) {
                    Some(k) => {
                        proof {
                            let ck = choose|c: int|
                                0 <= c < self.entries@[i as int].shares@.len()
                                    && #[trigger] self.entries@[i as int].shares@[c].0 == index;
                            if ck != k as int {
                                assert(self.entries@[i as int].shares@[ck].0
                                    == self.entries@[i as int].shares@[k as int].0);
                            }
                        }
                        if bytes_eq(&self.entries[i].shares[k].1, share) {
                            Ok(None)
                        } else {
                            Err(RoutingError::InvalidSignatureShare)
                        }
                    },
                    None => {
                        let e = &self.entries[i];
                        let mut new_shares = Self::copy_shares(&e.shares);
                        new_shares.push((index, copy_bytes(share)));
                        let fires = new_shares.len() >= self.threshold;
                        let mut entry = AccumulatingEntry {
                            digest: copy_bytes(&e.digest),
                            shares: new_shares,
                            complete: false,
                            created_at: e.created_at,
                        };
                        let mut result: Result<Option<Vec<u8>>, RoutingError> = Ok(None);
                        if fires {
                            match bls_combine_signatures(pks, &entry.shares) {
                                Some(sig) => {
                                    entry.complete = true;
                                    result = Ok(Some(sig));
                                },
                                None => {
                                    result = Err(RoutingError::FailedSignature);
                                },
                            }
                        }
                        self.entries.set(i, entry);
                        proof {
                            let ii = i as int;
                            assert forall|a: int, b: int|
                                0 <= a < b < self.entries@.len()
                                    implies #[trigger] self.entries@[a].digest@
                                != #[trigger] self.entries@[b].digest@ by {
                                assert(old(self).entries@[a].digest@ != old(
                                    self,
                                ).entries@[b].digest@);
                            }
                            assert forall|e2: int, a: int, b: int|
                                0 <= e2 < self.entries@.len() && 0 <= a < b
                                    < self.entries@[e2].shares@.len()
                                    implies #[trigger] self.entries@[e2].shares@[a].0
                                != #[trigger] self.entries@[e2].shares@[b].0 by {
                                if e2 == ii {
                                    if b < self.entries@[e2].shares@.len() - 1 {
                                        assert(old(self).entries@[ii].shares@[a].0 != old(
                                            self,
                                        ).entries@[ii].shares@[b].0);
                                    } else {
                                        assert(!has_index(old(self).entries@[ii].shares@, index));
                                        assert(old(self).entries@[ii].shares@[a].0 != index);
                                    }
                                } else {
                                    assert(old(self).entries@[e2].shares@[a].0 != old(
                                        self,
                                    ).entries@[e2].shares@[b].0);
                                }
                            }
                        }
                        result
                    },
                }
            },
        }
    }

    /// Drops every entry created at or before the accumulation timeout
    /// before `now_ms`.  Expiry discards any partial state for the digest.
    /// Returns how many entries were dropped.
    pub fn remove_expired(&mut self, now_ms: u64) -> (count: usize)
        requires
            old(self).wf(),
        ensures
            final(self).wf(),
            final(self).threshold == old(self).threshold,
            final(self).entries@ == old(self).entries@.filter(keep_pred(now_ms)),
            count == old(self).entries@.len() - final(self).entries@.len(),
    {
        let ghost keep = keep_pred(now_ms);
        let ghost orig = self.entries@;
        let before = self.entries.len();
        let mut i: usize = 0;
        let ghost c: int = 0;
        proof {
            assert(orig.take(0).filter(keep) =~= Seq::<AccumulatingEntry>::empty());
            assert(self.entries@ =~= orig.take(0).filter(keep) + orig.skip(0));
        }
        while i < self.entries.len()
            invariant
                self.wf(),
                self.threshold == old(self).threshold,
                keep == keep_pred(now_ms),
                orig == old(self).entries@,
                0 <= c <= orig.len(),
                i == orig.take(c).filter(keep).len(),
                i <= self.entries@.len(),
                self.entries@ == orig.take(c).filter(keep) + orig.skip(c),
            decreases orig.len() - c,
        {
            proof {
                assert(orig.take(c + 1).drop_last() =~= orig.take(c));
                assert(orig.take(c + 1).last() == orig[c]);
                reveal(Seq::filter);
                assert(self.entries@[i as int] == orig[c]);
            }
            let e = &self.entries[i];
            let expired = now_ms >= ACCUMULATION_TIMEOUT_MS && e.created_at <= now_ms
                - ACCUMULATION_TIMEOUT_MS;
            if expired {
                let ghost pre = self.entries@;
                let _ = self.entries.remove(i);
                proof {
                    assert(!keep(orig[c]));
                    assert(orig.take(c + 1).filter(keep) =~= orig.take(c).filter(keep));
                    assert(self.entries@ =~= pre.remove(i as int));
                    assert(self.entries@ =~= orig.take(c + 1).filter(keep) + orig.skip(c + 1));
                    assert forall|a: int, b: int|
                        0 <= a < b < self.entries@.len() implies #[trigger] self.entries@[a].digest@
                        != #[trigger] self.entries@[b].digest@ by {
                        let pa: int = if a < i { a } else { a + 1 };
                        let pb: int = if b < i { b } else { b + 1 };
                        assert(self.entries@[a] == pre[pa]);
                        assert(self.entries@[b] == pre[pb]);
                        assert(pre[pa].digest@ != pre[pb].digest@);
                    }
                    assert forall|e2: int, a: int, b: int|
                        0 <= e2 < self.entries@.len() && 0 <= a < b
                            < self.entries@[e2].shares@.len()
                            implies #[trigger] self.entries@[e2].shares@[a].0
                        != #[trigger] self.entries@[e2].shares@[b].0 by {
                        let p2: int = if e2 < i { e2 } else { e2 + 1 };
                        assert(self.entries@[e2] == pre[p2]);
                        assert(pre[p2].shares@[a].0 != pre[p2].shares@[b].0);
                    }
                }
            } else {
                i += 1;
                proof {
                    assert(keep(orig[(c) as int]));
                    assert(orig.take(c + 1).filter(keep) =~= orig.take(c).filter(keep).push(
                        orig[c],
                    ));
                    assert(self.entries@ =~= orig.take(c + 1).filter(keep) + orig.skip(c + 1));
                }
            }
            proof {
                c = c + 1;
            }
        }
        proof {
            assert(orig.take(orig.len() as int) =~= orig);
            assert(orig.skip(c) =~= Seq::<AccumulatingEntry>::empty());
            assert(self.entries@ =~= orig.filter(keep));
        }
        before - self.entries.len()
    }
}

} // verus!
