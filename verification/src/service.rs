//! The node's local runtime state around the routing logic: the peer
//! registry, the outbound queue handed to the transport, timers, and the
//! adapter that feeds the agreement engine.
//!
//! No I/O happens here: the embedder drains the outbound queue, performs the
//! sends, drives the timers, and hands decided observations back.

use vstd::prelude::*;
use crate::messages::DirectMessage;
use crate::messages::SignedRoutingMessage;
use crate::peer::ConnectionInfo;
use crate::peer::P2pNode;
use crate::xor_space::XorName;

verus! {

/// The section-size parameters of the network.
#[derive(Clone, Copy, Debug)]
pub struct NetworkParams {
    pub elder_size: usize,
    pub recommended_section_size: usize,
    pub safe_section_size: usize,
}

impl NetworkParams {
    /// The default parameters: seven elders, sections of ten to fourteen.
    pub fn new() -> (r: NetworkParams)
        ensures
            r.elder_size == 7,
            r.recommended_section_size == 10,
            r.safe_section_size == 14,
    {
        NetworkParams { elder_size: 7, recommended_section_size: 10, safe_section_size: 14 }
    }
}

/// The registry of connected peers, keyed by name.  The registry owns its
/// records; insertion order does not matter.
pub struct PeerMap {
    pub peers: Vec<P2pNode>,
}

impl PeerMap {
    /// At most one record per name.
    pub open spec fn wf(self) -> bool {
        forall|i: int, j: int|
            0 <= i < j < self.peers@.len() ==> #[trigger] self.peers@[i].public_id.name@
                != #[trigger] self.peers@[j].public_id.name@
    }

    /// Whether some record carries the given name.
    pub open spec fn spec_contains(self, n: Seq<u8>) -> bool {
        exists|i: int|
            0 <= i < self.peers@.len() && #[trigger] self.peers@[i].public_id.name@ == n
    }

    /// An empty registry.
    pub fn new() -> (r: PeerMap)
        ensures
            r.wf(),
            r.peers@.len() == 0,
    {
        PeerMap { peers: Vec::new() }
    }

    /// The position of the record with the given name, if present.
    fn position(&self, n: &XorName) -> (r: Option<usize>)
        ensures
            match r {
                Some(i) => i < self.peers@.len() && self.peers@[i as int].public_id.name@ == n@,
                None => !self.spec_contains(n@),
            },
    {
        let mut i: usize = 0;
        while i < self.peers.len()
            invariant
                i <= self.peers@.len(),
                forall|j: int| 0 <= j < i ==> #[trigger] self.peers@[j].public_id.name@ != n@,
            decreases self.peers@.len() - i,
        {
            if self.peers[i].public_id.name() == n {
                return Some(i);
            }
            i += 1;
        }
        None
    }

    /// The record with the given name, if present.
    pub fn lookup(&self, n: &XorName) -> (r: Option<P2pNode>)
        ensures
            match r {
                Some(p) => p.public_id.name@ == n@ && self.spec_contains(n@),
                None => !self.spec_contains(n@),
            },
    {
        match self.position(n) {
            Some(i) => Some(self.peers[i]),
            None => None,
        }
    }

    /// Inserts a record, replacing any record under the same name: a peer's
    /// address may change across reconnects.
    pub fn insert(&mut self, node: P2pNode)
        requires
            old(self).wf(),
            old(self).peers@.len() < usize::MAX,
        ensures
            final(self).wf(),
            final(self).spec_contains(node.public_id.name@),
            forall|n: Seq<u8>|
                #[trigger] final(self).spec_contains(n) == (old(self).spec_contains(n)
                    || n == node.public_id.name@),
    {
        match self.position(&node.public_id.name) {
            Some(i) => {
                self.peers.set(i, node);
                proof {
                    assert forall|a: int, b: int|
                        0 <= a < b < self.peers@.len() implies #[trigger] self.peers@[a].public_id.name@ != #[trigger] self.peers@[b].public_id.name@ by {
                        assert(old(self).peers@[a].public_id.name@ != old(
                            self,
                        ).peers@[b].public_id.name@);
                    }
                    assert forall|n: Seq<u8>|
                        #[trigger] final(self).spec_contains(n) == (old(self).spec_contains(n)
                            || n == node.public_id.name@) by {
                        if old(self).spec_contains(n) {
                            let k = choose|k: int|
                                0 <= k < old(self).peers@.len()
                                    && #[trigger] old(self).peers@[k].public_id.name@ == n;
                            assert(self.peers@[k].public_id.name@ == n);
                        }
                        if self.spec_contains(n) {
                            let k = choose|k: int|
                                0 <= k < self.peers@.len()
                                    && #[trigger] self.peers@[k].public_id.name@ == n;
                            assert(old(self).peers@[k].public_id.name@ == n || n
                                == node.public_id.name@);
                        }
                    }
                }
            },
            None => {
                self.peers.push(node);
                proof {
                    assert forall|n: Seq<u8>|
                        #[trigger] final(self).spec_contains(n) == (old(self).spec_contains(n)
                            || n == node.public_id.name@) by {
                        if old(self).spec_contains(n) {
                            let k = choose|k: int|
                                0 <= k < old(self).peers@.len()
                                    && #[trigger] old(self).peers@[k].public_id.name@ == n;
                            assert(self.peers@[k].public_id.name@ == n);
                        }
                        if n == node.public_id.name@ {
                            assert(self.peers@[self.peers@.len() - 1].public_id.name@ == n);
                        }
                        if self.spec_contains(n) {
                            let k = choose|k: int|
                                0 <= k < self.peers@.len()
                                    && #[trigger] self.peers@[k].public_id.name@ == n;
                            if k < old(self).peers@.len() {
                                assert(old(self).peers@[k].public_id.name@ == n);
                            }
                        }
                    }
                }
            },
        }
    }

    /// Removes the record with the given name, if present.  Pending traffic
    /// for it is dropped by the embedder when it sees the record gone.
    pub fn remove(&mut self, n: &XorName) -> (r: bool)
        requires
            old(self).wf(),
        ensures
            final(self).wf(),
            r == old(self).spec_contains(n@),
            !final(self).spec_contains(n@),
            forall|m: Seq<u8>|
                m != n@ ==> #[trigger] final(self).spec_contains(m) == old(self).spec_contains(m),
    {
        match self.position(n) {
            Some(i) => {
                let ghost pre = self.peers@;
                let _ = self.peers.remove(i);
                proof {
                    assert forall|a: int, b: int|
                        0 <= a < b < self.peers@.len() implies #[trigger] self.peers@[a].public_id.name@ != #[trigger] self.peers@[b].public_id.name@ by {
                        let pa: int = if a < i { a } else { a + 1 };
                        let pb: int = if b < i { b } else { b + 1 };
                        assert(pre[pa].public_id.name@ != pre[pb].public_id.name@);
                    }
                    assert forall|m: Seq<u8>| !(#[trigger] self.spec_contains(m)) || m != n@
                        implies true by {}
                    assert forall|m: Seq<u8>| #[trigger] self.spec_contains(m) implies
                        pre_contains(pre, m) by {
                        let k = choose|k: int|
                            0 <= k < self.peers@.len()
                                && #[trigger] self.peers@[k].public_id.name@ == m;
                        let pk: int = if k < i { k } else { k + 1 };
                        assert(pre[pk].public_id.name@ == m);
                    }
                    assert(!self.spec_contains(n@)) by {
                        if self.spec_contains(n@) {
                            let k = choose|k: int|
                                0 <= k < self.peers@.len()
                                    && #[trigger] self.peers@[k].public_id.name@ == n@;
                            let pk: int = if k < i { k } else { k + 1 };
                            assert(pre[pk].public_id.name@ == n@);
                            assert(pre[i as int].public_id.name@ == n@);
                        }
                    }
                    assert forall|m: Seq<u8>|
                        m != n@ implies #[trigger] final(self).spec_contains(m) == old(
                        self,
                    ).spec_contains(m) by {
                        if old(self).spec_contains(m) {
                            let k = choose|k: int|
                                0 <= k < pre.len() && #[trigger] pre[k].public_id.name@ == m;
                            let nk: int = if k < i { k } else { k - 1 };
                            assert(k != i);
                            assert(self.peers@[nk].public_id.name@ == m);
                        }
                    }
                }
                true
            },
            None => false,
        }
    }
}

/// Whether some record of the sequence carries the given name.
pub open spec fn pre_contains(peers: Seq<P2pNode>, n: Seq<u8>) -> bool {
    exists|i: int| 0 <= i < peers.len() && #[trigger] peers[i].public_id.name@ == n
}

/// A message waiting to be put on the wire by the embedder.
pub enum OutboundMessage {
    /// A one-hop control message.
    Direct(DirectMessage),
    /// A signed routed message.
    Routing(SignedRoutingMessage),
}

/// The transport-facing state: the peer registry and the queue of messages
/// the embedder still has to send.
pub struct NetworkService {
    pub peer_map: PeerMap,
    pub send_queue: Vec<(ConnectionInfo, OutboundMessage)>,
}

impl NetworkService {
    /// A service with no peers and nothing queued.
    pub fn new() -> (r: NetworkService)
        ensures
            r.peer_map.wf(),
            r.peer_map.peers@.len() == 0,
            r.send_queue@.len() == 0,
    {
        NetworkService { peer_map: PeerMap::new(), send_queue: Vec::new() }
    }

    /// Queues a message for the recipient; the embedder performs the send.
    pub fn send(&mut self, recipient: ConnectionInfo, msg: OutboundMessage)
        ensures
            final(self).peer_map == old(self).peer_map,
            final(self).send_queue@ == old(self).send_queue@.push((recipient, msg)),
    {
        self.send_queue.push((recipient, msg));
    }

    /// Drops every peer record; the embedder closes the connections when it
    /// sees the registry emptied.
    pub fn remove_and_disconnect_all(&mut self)
        ensures
            final(self).peer_map.peers@.len() == 0,
            final(self).peer_map.wf(),
            final(self).send_queue@ == old(self).send_queue@,
    {
        self.peer_map.peers.clear();
    }
}

/// Single-shot timers, identified by a monotonically increasing token.
/// Cancellation means ignoring the callback when it fires; the embedder
/// drives the clock.
pub struct Timer {
    pub next_token: u64,
    pub pending: Vec<(u64, u64)>,
}

impl Timer {
    /// A timer source starting at token zero.
    pub fn new() -> (r: Timer)
        ensures
            r.next_token == 0,
            r.pending@.len() == 0,
    {
        Timer { next_token: 0, pending: Vec::new() }
    }

    /// Schedules a single-shot timer for `duration_ms` from now and returns
    /// its token.
    pub fn schedule(&mut self, duration_ms: u64) -> (token: u64)
        requires
            old(self).next_token < u64::MAX,
        ensures
            token == old(self).next_token,
            final(self).next_token == old(self).next_token + 1,
            final(self).pending@ == old(self).pending@.push((token, duration_ms)),
    {
        let token = self.next_token;
        self.next_token = self.next_token + 1;
        self.pending.push((token, duration_ms));
        token
    }

    /// Hands the scheduled timers to the embedder, leaving none pending.
    pub fn take_pending(&mut self) -> (r: Vec<(u64, u64)>)
        ensures
            r@ == old(self).pending@,
            final(self).pending@.len() == 0,
            final(self).next_token == old(self).next_token,
    {
        let mut taken: Vec<(u64, u64)> = Vec::new();
        core::mem::swap(&mut taken, &mut self.pending);
        taken
    }
}

/// The adapter around the agreement engine: the node submits observations;
/// the engine, elsewhere, yields decisions in order.
pub struct ParsecMap {
    pub version: u64,
    pub unpolled: Vec<Vec<u8>>,
    pub engine_inbox: Vec<(u64, Vec<u8>)>,
}

impl ParsecMap {
    /// An adapter for the given consensus instance version.
    pub fn new(version: u64) -> (r: ParsecMap)
        ensures
            r.version == version,
            r.unpolled@.len() == 0,
            r.engine_inbox@.len() == 0,
    {
        ParsecMap { version, unpolled: Vec::new(), engine_inbox: Vec::new() }
    }

    /// Starts over against a new consensus instance: pending observations
    /// are dropped.
    pub fn reset(&mut self, version: u64)
        ensures
            final(self).version == version,
            final(self).unpolled@.len() == 0,
            final(self).engine_inbox@.len() == 0,
    {
        self.version = version;
        self.unpolled.clear();
        self.engine_inbox.clear();
    }

    /// Records an observation to submit to the agreement engine.
    pub fn submit_observation(&mut self, observation: Vec<u8>)
        ensures
            final(self).version == old(self).version,
            final(self).unpolled@ == old(self).unpolled@.push(observation),
            final(self).engine_inbox@ == old(self).engine_inbox@,
    {
        self.unpolled.push(observation);
    }

    /// Records a consensus protocol message for the embedder to feed into
    /// the agreement engine.
    pub fn enqueue_engine_input(&mut self, version: u64, bytes: Vec<u8>)
        ensures
            final(self).version == old(self).version,
            final(self).unpolled@ == old(self).unpolled@,
            final(self).engine_inbox@ == old(self).engine_inbox@.push((version, bytes)),
    {
        self.engine_inbox.push((version, bytes));
    }

    /// Whether any submitted observation has not been decided yet.
    pub fn has_unpolled_observations(&self) -> (r: bool)
        ensures
            r == (self.unpolled@.len() > 0),
    {
        self.unpolled.len() > 0
    }
}

} // verus!
