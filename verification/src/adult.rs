//! An approved section member outside the committee.
//!
//! An adult relays signed messages through its elders, accumulates message
//! signatures, follows genesis updates, and relocates or becomes an elder
//! when the section decides so.

use vstd::prelude::*;
use crate::accumulator::SignatureAccumulator;
use crate::crypto::bls_verifies;
use crate::crypto::bls_verify;
use crate::error::RoutingError;
use crate::event::Event;
use crate::messages::BootstrapResponse;
use crate::messages::DirectMessage;
use crate::messages::GenesisPfxInfo;
use crate::messages::MessageContent;
use crate::messages::RoutingMessageFilter;
use crate::messages::SignedRelocateDetails;
use crate::messages::SignedRoutingMessage;
use crate::messages::VerifyStatus;
use crate::messages::copy_signed_msg;
use crate::messages::copy_genesis;
use crate::messages::digest_of;
use crate::messages::encode_relocate_details;
use crate::messages::encode_routing_msg;
use crate::messages::spec_digest;
use crate::messages::spec_digest_known;
use crate::messages::spec_encodable;
use crate::messages::spec_encode_routing_msg;
use crate::messages::spec_encode_relocate;
use crate::messages::srm_view;
use crate::peer::ConnectionInfo;
use crate::peer::P2pNode;
use crate::peer::Peer;
use crate::section::EldersInfo;
use crate::service::NetworkParams;
use crate::service::NetworkService;
use crate::service::OutboundMessage;
use crate::service::ParsecMap;
use crate::service::Timer;
use crate::shared_state::Chain;
use crate::shared_state::FullId;
use crate::states::BootstrappingPeer;
use crate::states::BootstrappingPeerDetails;
use crate::states::Elder;
use crate::states::PausedState;
use crate::states::State;
use crate::states::Transition;
use crate::text::spec_decimal_string;
use crate::text::append_decimal;
use crate::xor_space::Prefix;
use crate::xor_space::XorName;
use crate::xor_space::name_forced_into_prefix;

verus! {

/// How often an adult reports its knowledge, in milliseconds.
pub const KNOWLEDGE_TIMEOUT_MS: u64 = 2000;

/// How many possibly-future messages are buffered until a newer trusted key
/// arrives.
pub const BACKLOG_CAP: usize = 100;

/// What a node needs to become an adult.
pub struct AdultDetails {
    pub network_service: NetworkService,
    pub event_backlog: Vec<Event>,
    pub full_id: FullId,
    pub gen_pfx_info: GenesisPfxInfo,
    pub routing_msg_backlog: Vec<SignedRoutingMessage>,
    pub direct_msg_backlog: Vec<(P2pNode, DirectMessage)>,
    pub sig_accumulator: SignatureAccumulator,
    pub routing_msg_filter: RoutingMessageFilter,
    pub timer: Timer,
    pub network_cfg: NetworkParams,
}

/// An approved section member outside the committee.
pub struct Adult {
    pub chain: Chain,
    pub network_service: NetworkService,
    pub event_backlog: Vec<Event>,
    pub full_id: FullId,
    pub gen_pfx_info: GenesisPfxInfo,
    /// Routing messages addressed to us that we cannot handle until we are
    /// established.
    pub routing_msg_backlog: Vec<SignedRoutingMessage>,
    pub direct_msg_backlog: Vec<(P2pNode, DirectMessage)>,
    pub sig_accumulator: SignatureAccumulator,
    pub parsec_map: ParsecMap,
    pub knowledge_timer_token: u64,
    pub routing_msg_filter: RoutingMessageFilter,
    pub timer: Timer,
}

/// Whether a (digest, name) pair is retained in an outgoing filter state.
pub open spec fn spec_sent_known(
    fout: Seq<(Vec<u8>, XorName)>,
    digest: Seq<u8>,
    name: Seq<u8>,
) -> bool {
    exists|i: int|
        0 <= i < fout.len() && (#[trigger] fout[i].0)@ == digest && fout[i].1@ == name
}

/// The elders that a message with the given digest has not been sent to
/// yet, in committee order.
pub open spec fn spec_unsent_elders(
    elders: Seq<Peer>,
    fout: Seq<(Vec<u8>, XorName)>,
    digest: Seq<u8>,
) -> Seq<Peer>
    decreases elders.len(),
{
    if elders.len() == 0 {
        Seq::empty()
    } else if spec_sent_known(fout, digest, elders.last().name@) {
        spec_unsent_elders(elders.drop_last(), fout, digest)
    } else {
        spec_unsent_elders(elders.drop_last(), fout, digest).push(elders.last())
    }
}

/// What relaying a signed message to the elders does: one queue entry per
/// elder the digest was not yet sent to, carrying an equal message, and the
/// digest retained in the incoming filter; everything else untouched.
pub open spec fn spec_send_effects(pre: Adult, post: Adult, m: SignedRoutingMessage) -> bool {
    let digest = spec_digest(m);
    let unsent = spec_unsent_elders(
        pre.chain.our_info.elders@,
        pre.routing_msg_filter.outgoing@,
        digest,
    );
    let pre_queue = pre.network_service.send_queue@;
    &&& post.network_service.send_queue@.len() == pre_queue.len() + unsent.len()
    &&& (forall|k: int|
        0 <= k < pre_queue.len() ==> #[trigger] post.network_service.send_queue@[k] == pre_queue[k])
    &&& (forall|k: int|
        0 <= k < unsent.len() ==> {
            let entry = #[trigger] post.network_service.send_queue@[pre_queue.len() + k];
            &&& entry.0 == unsent[k].addr
            &&& entry.1 is Routing
            &&& srm_view(entry.1->Routing_0) == srm_view(m)
        })
    &&& spec_digest_known(post.routing_msg_filter.incoming@, digest)
    &&& post.chain == pre.chain
    &&& post.event_backlog == pre.event_backlog
    &&& post.full_id == pre.full_id
    &&& post.gen_pfx_info == pre.gen_pfx_info
    &&& post.direct_msg_backlog == pre.direct_msg_backlog
    &&& post.sig_accumulator == pre.sig_accumulator
    &&& post.parsec_map == pre.parsec_map
    &&& post.knowledge_timer_token == pre.knowledge_timer_token
    &&& post.timer == pre.timer
    &&& post.network_service.peer_map == pre.network_service.peer_map
}

/// Everything of the adult is as before, except possibly the incoming half
/// of the deduplication filter.
pub open spec fn spec_unchanged_core(pre: Adult, post: Adult) -> bool {
    &&& post.chain == pre.chain
    &&& post.event_backlog == pre.event_backlog
    &&& post.full_id == pre.full_id
    &&& post.gen_pfx_info == pre.gen_pfx_info
    &&& post.routing_msg_backlog == pre.routing_msg_backlog
    &&& post.direct_msg_backlog == pre.direct_msg_backlog
    &&& post.sig_accumulator == pre.sig_accumulator
    &&& post.parsec_map == pre.parsec_map
    &&& post.knowledge_timer_token == pre.knowledge_timer_token
    &&& post.timer == pre.timer
    &&& post.network_service == pre.network_service
    &&& post.routing_msg_filter.outgoing@ == pre.routing_msg_filter.outgoing@
}

/// What handling a signed message that passed the deduplication filter
/// does, relative to the state `pre`.  A genesis update for us is
/// trust-checked: broken messages fail, too-new ones are buffered, trusted
/// ones replace the snapshot when newer.  Every other message for us is
/// backlogged, and every message except a genesis update is relayed through
/// our elders.  The incoming filter is framed only where the relay states
/// it.
pub open spec fn spec_dispatch_effects(
    pre: Adult,
    post: Adult,
    m: SignedRoutingMessage,
    r: Result<Transition, RoutingError>,
) -> bool {
    let for_us = m.content.dst.spec_contains(
        pre.full_id.public_id.name,
        pre.chain.our_info.prefix,
    );
    if for_us && m.content.content is GenesisUpdate {
        let g = m.content.content->GenesisUpdate_0;
        let anchored = pre.chain.our_history.spec_has_key(m.proof_chain.spec_key_at(0));
        let sound = m.spec_signature_valid() && m.spec_links_valid();
        let too_new = m.src_key_index > pre.chain.our_history.key_count() - 1;
        &&& post.network_service.send_queue@ == pre.network_service.send_queue@
        &&& post.routing_msg_filter.outgoing@ == pre.routing_msg_filter.outgoing@
        &&& if !sound {
            r == Err::<Transition, RoutingError>(RoutingError::BadSignature)
                && spec_unchanged_core(pre, post)
        } else if !anchored && too_new && pre.routing_msg_backlog@.len() < BACKLOG_CAP {
            // The message may become trustworthy once a newer key arrives:
            // buffered for re-evaluation.
            &&& r is Ok && r->Ok_0 is Stay
            &&& post.routing_msg_backlog@.len() == pre.routing_msg_backlog@.len() + 1
            &&& post.routing_msg_backlog@.drop_last() == pre.routing_msg_backlog@
            &&& srm_view(post.routing_msg_backlog@.last()) == srm_view(m)
            &&& post.chain == pre.chain
            &&& post.gen_pfx_info == pre.gen_pfx_info
            &&& post.direct_msg_backlog == pre.direct_msg_backlog
            &&& post.sig_accumulator == pre.sig_accumulator
            &&& post.parsec_map == pre.parsec_map
            &&& post.event_backlog == pre.event_backlog
            &&& post.full_id == pre.full_id
            &&& post.timer == pre.timer
            &&& post.knowledge_timer_token == pre.knowledge_timer_token
            &&& post.network_service.peer_map == pre.network_service.peer_map
        } else if !anchored {
            r == Err::<Transition, RoutingError>(RoutingError::UntrustedMessage)
                && spec_unchanged_core(pre, post)
        } else if g.parsec_version <= pre.gen_pfx_info.parsec_version {
            // Not newer than the snapshot we hold: nothing happens.
            r == Ok::<Transition, RoutingError>(Transition::Stay) && spec_unchanged_core(
                pre,
                post,
            )
        } else if !g.elders_info.wf() {
            r == Err::<Transition, RoutingError>(RoutingError::InvalidSource)
                && spec_unchanged_core(pre, post)
        } else {
            // The trusted, newer snapshot is installed.
            &&& r is Ok && r->Ok_0 is Stay
            &&& post.gen_pfx_info.parsec_version == g.parsec_version
            &&& post.gen_pfx_info.section_key@ == g.section_key@
            &&& post.parsec_map.version == g.parsec_version
            &&& post.parsec_map.unpolled@.len() == 0
            &&& post.chain.our_info.prefix == g.elders_info.prefix
            &&& post.chain.our_info.elders@ == g.elders_info.elders@
            &&& post.chain.our_history.key_count() == 1
            &&& post.chain.our_history.spec_key_at(0) == g.section_key@
            &&& post.chain.our_id == pre.chain.our_id
            &&& post.chain.network_cfg == pre.chain.network_cfg
            &&& post.routing_msg_backlog@.len() == 0
            &&& post.direct_msg_backlog@.len() == 0
            &&& post.event_backlog == pre.event_backlog
            &&& post.full_id == pre.full_id
            &&& post.timer == pre.timer
            &&& post.knowledge_timer_token == pre.knowledge_timer_token
            &&& post.sig_accumulator == pre.sig_accumulator
            &&& post.network_service.peer_map == pre.network_service.peer_map
        }
    } else if for_us {
        // Backlogged until we are established, and relayed onwards.
        &&& r is Ok && r->Ok_0 is Stay
        &&& post.routing_msg_backlog@.len() == pre.routing_msg_backlog@.len() + 1
        &&& post.routing_msg_backlog@.drop_last() == pre.routing_msg_backlog@
        &&& srm_view(post.routing_msg_backlog@.last()) == srm_view(m)
        &&& spec_send_effects(pre, post, m)
    } else {
        // Not for us: only relayed onwards.
        &&& r is Ok && r->Ok_0 is Stay
        &&& post.routing_msg_backlog@ == pre.routing_msg_backlog@
        &&& spec_send_effects(pre, post, m)
    }
}

/// The key under which one elder's signature share is accumulated: the
/// claimed section key, then the canonical payload bytes.  Shares over one
/// payload under different section keys never meet in one entry.
pub open spec fn spec_share_key(m: SignedRoutingMessage) -> Seq<u8> {
    m.src_section_key@ + spec_encode_routing_msg(m.content)
}

/// Every message of `sub` says, abstractly, what some message of `sup`
/// says: nothing in `sub` was invented.
pub open spec fn spec_views_subset(
    sub: Seq<SignedRoutingMessage>,
    sup: Seq<SignedRoutingMessage>,
) -> bool {
    forall|k: int|
        0 <= k < sub.len() ==> exists|j: int|
            0 <= j < sup.len() && srm_view(#[trigger] sub[k]) == srm_view(sup[j])
}

/// Extending a view-subset by one message drawn from the superset keeps it
/// a view-subset.
proof fn lemma_views_subset_push(
    pre: Seq<SignedRoutingMessage>,
    post: Seq<SignedRoutingMessage>,
    sup: Seq<SignedRoutingMessage>,
    i: int,
)
    requires
        spec_views_subset(pre, sup),
        post.len() == pre.len() + 1,
        post.drop_last() == pre,
        0 <= i < sup.len(),
        srm_view(post.last()) == srm_view(sup[i]),
    ensures
        spec_views_subset(post, sup),
{
    assert forall|k: int|
        0 <= k < post.len() implies exists|j: int|
        0 <= j < sup.len() && srm_view(#[trigger] post[k]) == srm_view(sup[j]) by {
        if k < post.len() - 1 {
            assert(post[k] == post.drop_last()[k]);
            assert(exists|j: int|
                0 <= j < sup.len() && srm_view(#[trigger] pre[k]) == srm_view(sup[j]));
        } else {
            assert(post[k] == post.last());
            assert(srm_view(post[k]) == srm_view(sup[i]));
        }
    }
}

/// Whether handling this message now would install its genesis snapshot:
/// it is for us, trusted under the current key history, and carries a newer,
/// well-formed committee.
pub open spec fn spec_deliverable_genesis(a: Adult, m: SignedRoutingMessage) -> bool {
    &&& spec_encodable(m.content)
    &&& m.content.dst.spec_contains(a.full_id.public_id.name, a.chain.our_info.prefix)
    &&& m.content.content is GenesisUpdate
    &&& m.spec_signature_valid()
    &&& m.spec_links_valid()
    &&& a.chain.our_history.spec_has_key(m.proof_chain.spec_key_at(0))
    &&& m.content.content->GenesisUpdate_0.parsec_version > a.gen_pfx_info.parsec_version
    &&& m.content.content->GenesisUpdate_0.elders_info.wf()
}

/// The addresses of a peer list, in order.
pub open spec fn spec_elder_addrs(elders: Seq<Peer>) -> Seq<ConnectionInfo> {
    Seq::new(elders.len(), |i: int| elders[i].addr)
}

impl Adult {
    /// The adult's pieces fit together.
    pub open spec fn wf(self) -> bool {
        &&& self.chain.wf()
        &&& self.sig_accumulator.wf()
        &&& self.network_service.peer_map.wf()
    }

    /// Becomes an adult: builds the restricted chain view from the genesis
    /// snapshot, resets the consensus adapter to the snapshot's version, and
    /// schedules the knowledge timer.
    pub fn new(mut details: AdultDetails, parsec_map: ParsecMap) -> (r: Result<
        Adult,
        RoutingError,
    >)
        requires
            details.gen_pfx_info.elders_info.wf(),
            details.sig_accumulator.wf(),
            details.network_service.peer_map.wf(),
            details.timer.next_token < u64::MAX,
        ensures
            match r {
                Ok(a) => {
                    &&& a.wf()
                    &&& a.chain.network_cfg == details.network_cfg
                    &&& a.chain.our_id == details.full_id.public_id
                    &&& a.chain.our_info.prefix == details.gen_pfx_info.elders_info.prefix
                    &&& a.chain.our_info.elders@ == details.gen_pfx_info.elders_info.elders@
                    &&& a.chain.our_history.key_count() == 1
                    &&& a.chain.our_history.spec_key_at(0) == details.gen_pfx_info.section_key@
                    &&& a.network_service == details.network_service
                    &&& a.event_backlog == details.event_backlog
                    &&& a.full_id == details.full_id
                    &&& a.gen_pfx_info == details.gen_pfx_info
                    &&& a.routing_msg_backlog == details.routing_msg_backlog
                    &&& a.direct_msg_backlog == details.direct_msg_backlog
                    &&& a.sig_accumulator == details.sig_accumulator
                    &&& a.parsec_map.version == details.gen_pfx_info.parsec_version
                    &&& a.parsec_map.unpolled@.len() == 0
                    &&& a.knowledge_timer_token == details.timer.next_token
                    &&& a.routing_msg_filter == details.routing_msg_filter
                    &&& a.timer.next_token == details.timer.next_token + 1
                    &&& a.timer.pending@ == details.timer.pending@.push(
                        (details.timer.next_token, KNOWLEDGE_TIMEOUT_MS),
                    )
                },
                Err(_) => false,
            },
    {
        let knowledge_timer_token = details.timer.schedule(KNOWLEDGE_TIMEOUT_MS);
        let mut parsec_map = parsec_map;
        parsec_map.reset(details.gen_pfx_info.parsec_version);
        let chain = Chain::new(
            details.network_cfg,
            details.full_id.public_id,
            &details.gen_pfx_info,
        );
        Ok(
            Adult {
                chain,
                network_service: details.network_service,
                event_backlog: details.event_backlog,
                full_id: details.full_id,
                gen_pfx_info: details.gen_pfx_info,
                routing_msg_backlog: details.routing_msg_backlog,
                direct_msg_backlog: details.direct_msg_backlog,
                sig_accumulator: details.sig_accumulator,
                parsec_map,
                knowledge_timer_token,
                routing_msg_filter: details.routing_msg_filter,
                timer: details.timer,
            },
        )
    }

    /// The elders we know that are closest to the name: as an adult, our own
    /// section's elders, who guide the joining node further.
    pub fn closest_known_elders_to(&self, _name: &XorName) -> (r: &Vec<Peer>)
        ensures
            r == self.chain.our_info.elders,
    {
        self.chain.our_elders()
    }

    /// Our own section's prefix.
    pub fn our_prefix(&self) -> (r: &Prefix)
        ensures
            r == self.chain.our_info.prefix,
    {
        self.chain.our_prefix()
    }

    /// The restricted view this adult holds of its section.
    pub fn chain(&self) -> (r: &Chain)
        ensures
            r == self.chain,
    {
        &self.chain
    }

    /// Hands the scheduled timers to the embedder, which fires them.
    pub fn process_timers(&mut self) -> (r: Vec<(u64, u64)>)
        ensures
            r@ == old(self).timer.pending@,
            final(self).timer.pending@.len() == 0,
            final(self).timer.next_token == old(self).timer.next_token,
            final(self).chain == old(self).chain,
            final(self).network_service == old(self).network_service,
    {
        self.timer.take_pending()
    }

    /// Whether any submitted observation has not been decided yet.
    pub fn has_unpolled_observations(&self) -> (r: bool)
        ensures
            r == (self.parsec_map.unpolled@.len() > 0),
    {
        self.parsec_map.has_unpolled_observations()
    }

    /// Describes how many observations await a decision.
    pub fn unpolled_observations_string(&self) -> (r: String)
        ensures
            r@ == spec_unpolled_string(self.parsec_map.unpolled@.len() as int),
    {
        let mut out = String::new();
        proof {
            reveal_strlit("unpolled observations: ");
        }
        out.append("unpolled observations: ");
        append_decimal(&mut out, self.parsec_map.unpolled.len() as u64);
        proof {
            assert(out@ =~= spec_unpolled_string(self.parsec_map.unpolled@.len() as int));
        }
        out
    }

    /// Starts over from bootstrap under a fresh identity drawn inside our
    /// own prefix, so the section will accept the new node.
    pub fn rebootstrap(self) -> (r: Result<State, RoutingError>)
        requires
            self.chain.our_info.prefix.wf(),
        ensures
            match r {
                Ok(s) => match s {
                    State::BootstrappingPeer(b) => {
                        &&& self.chain.our_info.prefix.spec_matches(b.full_id.public_id.name@)
                        &&& b.network_service == self.network_service
                        &&& b.network_cfg == self.chain.network_cfg
                        &&& b.timer == self.timer
                        &&& b.relocation is None
                    },
                    _ => false,
                },
                Err(_) => false,
            },
    {
        let network_cfg = self.chain.network_cfg();
        let seed = XorName(crate::crypto::random_bytes32());
        let name = name_forced_into_prefix(&self.chain.our_info.prefix, &seed);
        let full_id = FullId { public_id: crate::peer::PublicId { name } };
        Ok(
            State::BootstrappingPeer(
                BootstrappingPeer::new(
                    BootstrappingPeerDetails {
                        network_service: self.network_service,
                        full_id,
                        network_cfg,
                        timer: self.timer,
                    },
                ),
            ),
        )
    }

    /// Leaves the section to rejoin at the relocation target, keeping the
    /// node's identity.
    pub fn relocate(self, conn_infos: Vec<ConnectionInfo>, details: SignedRelocateDetails) -> (r:
        Result<State, RoutingError>)
        ensures
            match r {
                Ok(s) => match s {
                    State::BootstrappingPeer(b) => {
                        &&& b.full_id == self.full_id
                        &&& b.network_service == self.network_service
                        &&& b.network_cfg == self.chain.network_cfg
                        &&& b.timer == self.timer
                        &&& b.relocation == Some((conn_infos, details))
                    },
                    _ => false,
                },
                Err(_) => false,
            },
    {
        let network_cfg = self.chain.network_cfg();
        Ok(
            State::BootstrappingPeer(
                BootstrappingPeer::relocate(
                    BootstrappingPeerDetails {
                        network_service: self.network_service,
                        full_id: self.full_id,
                        network_cfg,
                        timer: self.timer,
                    },
                    conn_infos,
                    details,
                ),
            ),
        )
    }

    /// Becomes an elder, carrying the section state over.  The message
    /// filter starts fresh, so messages already seen as an adult can be
    /// processed again as an elder.
    pub fn into_elder(self, old_pfx: Prefix) -> (r: Result<State, RoutingError>)
        ensures
            match r {
                Ok(s) => match s {
                    State::Elder(e) => {
                        &&& e.chain == self.chain
                        &&& e.network_service == self.network_service
                        &&& e.event_backlog == self.event_backlog
                        &&& e.full_id == self.full_id
                        &&& e.gen_pfx_info == self.gen_pfx_info
                        &&& e.routing_msg_backlog == self.routing_msg_backlog
                        &&& e.direct_msg_backlog == self.direct_msg_backlog
                        &&& e.sig_accumulator == self.sig_accumulator
                        &&& e.parsec_map == self.parsec_map
                        &&& e.routing_msg_filter.incoming@.len() == 0
                        &&& e.routing_msg_filter.outgoing@.len() == 0
                        &&& e.timer == self.timer
                        &&& e.old_pfx == old_pfx
                    },
                    _ => false,
                },
                Err(_) => false,
            },
    {
        Ok(
            State::Elder(
                Elder {
                    chain: self.chain,
                    network_service: self.network_service,
                    event_backlog: self.event_backlog,
                    full_id: self.full_id,
                    gen_pfx_info: self.gen_pfx_info,
                    routing_msg_backlog: self.routing_msg_backlog,
                    direct_msg_backlog: self.direct_msg_backlog,
                    sig_accumulator: self.sig_accumulator,
                    parsec_map: self.parsec_map,
                    routing_msg_filter: RoutingMessageFilter::new(),
                    timer: self.timer,
                    old_pfx,
                },
            ),
        )
    }

    /// Suspends the node, saving everything a later resume needs.
    pub fn pause(self) -> (r: PausedState)
        ensures
            r.chain == self.chain,
            r.full_id == self.full_id,
            r.gen_pfx_info == self.gen_pfx_info,
            r.routing_msg_filter == self.routing_msg_filter,
            r.routing_msg_backlog == self.routing_msg_backlog,
            r.direct_msg_backlog == self.direct_msg_backlog,
            r.network_service == self.network_service,
            r.sig_accumulator == self.sig_accumulator,
            r.parsec_map == self.parsec_map,
    {
        PausedState {
            chain: self.chain,
            full_id: self.full_id,
            gen_pfx_info: self.gen_pfx_info,
            routing_msg_filter: self.routing_msg_filter,
            routing_msg_backlog: self.routing_msg_backlog,
            direct_msg_backlog: self.direct_msg_backlog,
            network_service: self.network_service,
            sig_accumulator: self.sig_accumulator,
            parsec_map: self.parsec_map,
        }
    }

    /// Resumes a paused node with a fresh timer and an empty event backlog,
    /// scheduling the knowledge timer anew.
    pub fn resume(state: PausedState, mut timer: Timer) -> (r: Adult)
        requires
            timer.next_token < u64::MAX,
        ensures
            r.chain == state.chain,
            r.network_service == state.network_service,
            r.event_backlog@.len() == 0,
            r.full_id == state.full_id,
            r.gen_pfx_info == state.gen_pfx_info,
            r.routing_msg_backlog == state.routing_msg_backlog,
            r.direct_msg_backlog == state.direct_msg_backlog,
            r.sig_accumulator == state.sig_accumulator,
            r.parsec_map == state.parsec_map,
            r.knowledge_timer_token == timer.next_token,
            r.routing_msg_filter == state.routing_msg_filter,
            r.timer.next_token == timer.next_token + 1,
    {
        let knowledge_timer_token = timer.schedule(KNOWLEDGE_TIMEOUT_MS);
        Adult {
            chain: state.chain,
            network_service: state.network_service,
            event_backlog: Vec::new(),
            full_id: state.full_id,
            gen_pfx_info: state.gen_pfx_info,
            routing_msg_backlog: state.routing_msg_backlog,
            direct_msg_backlog: state.direct_msg_backlog,
            sig_accumulator: state.sig_accumulator,
            parsec_map: state.parsec_map,
            knowledge_timer_token,
            routing_msg_filter: state.routing_msg_filter,
            timer,
        }
    }

    /// Handles a relocation instruction.  An instruction for another node is
    /// ignored: it is most likely a duplicate of an earlier message.  An
    /// instruction for us is obeyed only when its signature verifies under
    /// our newest trusted key; then the peer registry is cleared and the
    /// node leaves towards the target, carrying its elders' addresses.
    pub fn handle_relocate(&mut self, details: SignedRelocateDetails) -> (r: Transition)
        requires
            old(self).wf(),
        ensures
            final(self).wf(),
            ({
                let ours = details.content.pub_id.name@ == old(self).full_id.public_id.name@;
                let valid = bls_verifies(
                    old(self).chain.our_history.spec_key_at(
                        old(self).chain.our_history.key_count() - 1,
                    ),
                    details.signature@,
                    spec_encode_relocate(details.content),
                );
                if !ours || !valid {
                    *final(self) == *old(self) && r is Stay
                } else {
                    &&& r is Relocate
                    &&& r->Relocate_details == details
                    &&& r->Relocate_conn_infos@ == spec_elder_addrs(
                        old(self).chain.our_info.elders@,
                    )
                    &&& final(self).network_service.peer_map.peers@.len() == 0
                    &&& final(self).network_service.send_queue@ == old(
                        self,
                    ).network_service.send_queue@
                    &&& final(self).chain == old(self).chain
                    &&& final(self).routing_msg_backlog == old(self).routing_msg_backlog
                    &&& final(self).sig_accumulator == old(self).sig_accumulator
                }
            }),
            final(self).full_id == old(self).full_id,
            final(self).event_backlog == old(self).event_backlog,
            final(self).timer == old(self).timer,
            final(self).knowledge_timer_token == old(self).knowledge_timer_token,
            final(self).gen_pfx_info == old(self).gen_pfx_info,
            final(self).parsec_map == old(self).parsec_map,
            final(self).direct_msg_backlog == old(self).direct_msg_backlog,
            final(self).routing_msg_filter == old(self).routing_msg_filter,
    {
        if !(details.content.pub_id.name() == self.full_id.public_id.name()) {
            return Transition::Stay;
        }
        let payload = encode_relocate_details(&details.content);
        if !bls_verify(self.chain.our_history.last_key(), &details.signature, &payload) {
            return Transition::Stay;
        }
        let mut conn_infos: Vec<ConnectionInfo> = Vec::new();
        let mut i: usize = 0;
        let n = self.chain.our_info.elders.len();
        while i < n
            invariant
                i <= n,
                n == self.chain.our_info.elders@.len(),
                *self == *old(self),
                conn_infos@.len() == i,
                forall|k: int|
                    0 <= k < i ==> #[trigger] conn_infos@[k] == self.chain.our_info.elders@[k].addr,
            decreases n - i,
        {
            conn_infos.push(self.chain.our_info.elders[i].addr);
            i += 1;
        }
        self.network_service.remove_and_disconnect_all();
        proof {
            assert(conn_infos@ =~= spec_elder_addrs(old(self).chain.our_info.elders@));
        }
        Transition::Relocate { details, conn_infos }
    }

    /// Answers a bootstrap request.  When the destination lies under our own
    /// prefix, the joining node is invited to ask our committee; otherwise
    /// it is redirected to the closest elders we know.
    pub fn handle_bootstrap_request(&mut self, p2p_node: P2pNode, destination: XorName)
        requires
            old(self).wf(),
        ensures
            final(self).wf(),
            final(self).network_service.send_queue@.len() == old(
                self,
            ).network_service.send_queue@.len() + 1,
            forall|k: int|
                0 <= k < old(self).network_service.send_queue@.len()
                    ==> #[trigger] final(self).network_service.send_queue@[k] == old(
                    self,
                ).network_service.send_queue@[k],
            ({
                let entry = final(self).network_service.send_queue@.last();
                &&& entry.0 == p2p_node.conn_info
                &&& entry.1 is Direct
                &&& entry.1->Direct_0 is BootstrapResponse
                &&& if old(self).chain.our_info.prefix.spec_matches(destination@) {
                    let resp = entry.1->Direct_0->BootstrapResponse_0;
                    &&& resp is Join
                    &&& resp->Join_0.prefix == old(self).chain.our_info.prefix
                    &&& resp->Join_0.elders@ == old(self).chain.our_info.elders@
                } else {
                    let resp = entry.1->Direct_0->BootstrapResponse_0;
                    &&& resp is Rebootstrap
                    &&& resp->Rebootstrap_0@ == spec_elder_addrs(old(self).chain.our_info.elders@)
                }
            }),
            final(self).chain == old(self).chain,
            final(self).routing_msg_filter == old(self).routing_msg_filter,
            final(self).network_service.peer_map == old(self).network_service.peer_map,
            final(self).routing_msg_backlog == old(self).routing_msg_backlog,
            final(self).sig_accumulator == old(self).sig_accumulator,
            final(self).gen_pfx_info == old(self).gen_pfx_info,
            final(self).full_id == old(self).full_id,
            final(self).event_backlog == old(self).event_backlog,
            final(self).timer == old(self).timer,
            final(self).knowledge_timer_token == old(self).knowledge_timer_token,
            final(self).parsec_map == old(self).parsec_map,
            final(self).direct_msg_backlog == old(self).direct_msg_backlog,
    {
        let response: BootstrapResponse = if self.chain.our_info.prefix.matches(&destination) {
            let our_info = EldersInfo {
                prefix: self.chain.our_info.prefix,
                elders: crate::section::copy_peers(&self.chain.our_info.elders),
            };
            BootstrapResponse::Join(our_info)
        } else {
            let mut conn_infos: Vec<ConnectionInfo> = Vec::new();
            let mut i: usize = 0;
            let n = self.chain.our_info.elders.len();
            while i < n
                invariant
                    i <= n,
                    n == self.chain.our_info.elders@.len(),
                    *self == *old(self),
                    conn_infos@.len() == i,
                    forall|k: int|
                        0 <= k < i ==> #[trigger] conn_infos@[k]
                            == self.chain.our_info.elders@[k].addr,
                decreases n - i,
            {
                conn_infos.push(self.chain.our_info.elders[i].addr);
                i += 1;
            }
            proof {
                assert(conn_infos@ =~= spec_elder_addrs(old(self).chain.our_info.elders@));
            }
            BootstrapResponse::Rebootstrap(conn_infos)
        };
        self.network_service.send(
            p2p_node.conn_info,
            OutboundMessage::Direct(DirectMessage::BootstrapResponse(response)),
        );
    }

    /// Follows a genesis update from our elders.  A snapshot that is not
    /// newer than the one we hold changes nothing; a malformed committee is
    /// rejected.  Otherwise the snapshot replaces ours: the consensus
    /// adapter is reset, the section view is rebuilt, and both backlogs are
    /// dropped, since we were not promoted during the last section change
    /// and stale messages would fail the trust check later.
    pub fn handle_genesis_update(&mut self, gen_pfx_info: GenesisPfxInfo) -> (r: Result<
        Transition,
        RoutingError,
    >)
        requires
            old(self).wf(),
        ensures
            final(self).wf(),
            gen_pfx_info.parsec_version <= old(self).gen_pfx_info.parsec_version ==> *final(self)
                == *old(self) && r == Ok::<Transition, RoutingError>(Transition::Stay),
            gen_pfx_info.parsec_version > old(self).gen_pfx_info.parsec_version
                && !gen_pfx_info.elders_info.wf() ==> *final(self) == *old(self) && r == Err::<
                Transition,
                RoutingError,
            >(RoutingError::InvalidSource),
            gen_pfx_info.parsec_version > old(self).gen_pfx_info.parsec_version
                && gen_pfx_info.elders_info.wf() ==> {
                &&& r is Ok && r->Ok_0 is Stay
                &&& final(self).gen_pfx_info == gen_pfx_info
                &&& final(self).parsec_map.version == gen_pfx_info.parsec_version
                &&& final(self).parsec_map.unpolled@.len() == 0
                &&& final(self).chain.our_info.prefix == gen_pfx_info.elders_info.prefix
                &&& final(self).chain.our_info.elders@ == gen_pfx_info.elders_info.elders@
                &&& final(self).chain.our_history.key_count() == 1
                &&& final(self).chain.our_history.spec_key_at(0) == gen_pfx_info.section_key@
                &&& final(self).chain.our_id == old(self).chain.our_id
                &&& final(self).chain.network_cfg == old(self).chain.network_cfg
                &&& final(self).routing_msg_backlog@.len() == 0
                &&& final(self).direct_msg_backlog@.len() == 0
                &&& final(self).network_service == old(self).network_service
                &&& final(self).routing_msg_filter == old(self).routing_msg_filter
                &&& final(self).sig_accumulator == old(self).sig_accumulator
            },
            final(self).full_id == old(self).full_id,
            final(self).timer == old(self).timer,
            final(self).knowledge_timer_token == old(self).knowledge_timer_token,
            final(self).event_backlog == old(self).event_backlog,
    {
        if gen_pfx_info.parsec_version <= self.gen_pfx_info.parsec_version {
            return Ok(Transition::Stay);
        }
        if !gen_pfx_info.elders_info.is_valid() {
            return Err(RoutingError::InvalidSource);
        }
        self.parsec_map.reset(gen_pfx_info.parsec_version);
        let chain = Chain::new(self.chain.network_cfg, self.chain.our_id, &gen_pfx_info);
        self.chain = chain;
        self.gen_pfx_info = gen_pfx_info;
        self.routing_msg_backlog.clear();
        self.direct_msg_backlog.clear();
        Ok(Transition::Stay)
    }

    /// Forwards a signed message through our elders so they can route it
    /// properly: one copy to every elder the digest was not yet sent to,
    /// and the digest is retained so we do not handle the message again
    /// when someone sends it back to us.
    pub fn send_signed_message_to_elders(&mut self, msg: &SignedRoutingMessage) -> (r: Result<
        (),
        RoutingError,
    >)
        requires
            old(self).wf(),
            spec_encodable(msg.content),
        ensures
            final(self).wf(),
            r is Ok,
            spec_send_effects(*old(self), *final(self), *msg),
            final(self).routing_msg_backlog == old(self).routing_msg_backlog,
    {
        let digest = digest_of(msg);
        let mut targets: Vec<Peer> = Vec::new();
        let n = self.chain.our_info.elders.len();
        let mut i: usize = 0;
        proof {
            assert(spec_unsent_elders(
                self.chain.our_info.elders@.take(0),
                self.routing_msg_filter.outgoing@,
                digest@,
            ) =~= Seq::<Peer>::empty());
        }
        while i < n
            invariant
                i <= n,
                n == self.chain.our_info.elders@.len(),
                *self == *old(self),
                digest@ == spec_digest(*msg),
                targets@ == spec_unsent_elders(
                    self.chain.our_info.elders@.take(i as int),
                    self.routing_msg_filter.outgoing@,
                    digest@,
                ),
            decreases n - i,
        {
            proof {
                assert(self.chain.our_info.elders@.take(i + 1).drop_last()
                    =~= self.chain.our_info.elders@.take(i as int));
                assert(self.chain.our_info.elders@.take(i + 1).last()
                    == self.chain.our_info.elders@[i as int]);
            }
            let elder = self.chain.our_info.elders[i];
            if !self.routing_msg_filter.outgoing_contains(&digest, &elder.name) {
                targets.push(elder);
            }
            i += 1;
        }
        proof {
            assert(self.chain.our_info.elders@.take(n as int) =~= self.chain.our_info.elders@);
        }
        let ghost unsent = spec_unsent_elders(
            self.chain.our_info.elders@,
            self.routing_msg_filter.outgoing@,
            digest@,
        );
        let ghost pre_queue = self.network_service.send_queue@;
        let mut j: usize = 0;
        while j < targets.len()
            invariant
                j <= targets@.len(),
                targets@ == unsent,
                digest@ == spec_digest(*msg),
                spec_encodable(msg.content),
                self.chain == old(self).chain,
                self.event_backlog == old(self).event_backlog,
                self.full_id == old(self).full_id,
                self.gen_pfx_info == old(self).gen_pfx_info,
                self.routing_msg_backlog == old(self).routing_msg_backlog,
                self.direct_msg_backlog == old(self).direct_msg_backlog,
                self.sig_accumulator == old(self).sig_accumulator,
                self.parsec_map == old(self).parsec_map,
                self.knowledge_timer_token == old(self).knowledge_timer_token,
                self.timer == old(self).timer,
                self.network_service.peer_map == old(self).network_service.peer_map,
                self.routing_msg_filter.incoming@ == old(self).routing_msg_filter.incoming@,
                self.network_service.send_queue@.len() == pre_queue.len() + j,
                forall|k: int|
                    0 <= k < pre_queue.len() ==> #[trigger] self.network_service.send_queue@[k]
                        == pre_queue[k],
                forall|k: int|
                    0 <= k < j ==> {
                        let entry = #[trigger] self.network_service.send_queue@[pre_queue.len()
                            + k];
                        &&& entry.0 == unsent[k].addr
                        &&& entry.1 is Routing
                        &&& srm_view(entry.1->Routing_0) == srm_view(*msg)
                    },
            decreases targets@.len() - j,
        {
            let target = targets[j];
            let _ = self.routing_msg_filter.filter_outgoing(&digest, &target.name);
            let copy = copy_signed_msg(msg);
            self.network_service.send(target.addr, OutboundMessage::Routing(copy));
            j += 1;
        }
        let _ = self.routing_msg_filter.filter_incoming(&digest);
        Ok(())
    }

    /// The trust check on a signed message against our own key history:
    /// fully trusted messages pass, too-new ones are reported untrusted so
    /// the caller can buffer them, and broken ones fail.
    pub fn verify_signed_message(&self, msg: &SignedRoutingMessage) -> (r: Result<
        (),
        RoutingError,
    >)
        requires
            spec_encodable(msg.content),
        ensures
            ({
                let anchored = self.chain.our_history.spec_has_key(
                    msg.proof_chain.spec_key_at(0),
                );
                let sound = msg.spec_signature_valid() && msg.spec_links_valid();
                if !sound {
                    r == Err::<(), RoutingError>(RoutingError::BadSignature)
                } else if anchored {
                    r == Ok::<(), RoutingError>(())
                } else {
                    r == Err::<(), RoutingError>(RoutingError::UntrustedMessage)
                }
            }),
    {
        match msg.verify(&self.chain.our_history) {
            Ok(VerifyStatus::Full) => Ok(()),
            Ok(VerifyStatus::ProofTooNew) => Err(RoutingError::UntrustedMessage),
            Err(e) => Err(e),
        }
    }

    /// The trust check, buffering messages that are only too new: a valid
    /// message anchored at a key we do not know yet, claiming a key index
    /// beyond our chain, is kept for re-evaluation until the buffer is full.
    /// Returns whether the message is trusted now.
    fn verify_signed_message_or_buffer(&mut self, msg: &SignedRoutingMessage) -> (r: Result<
        bool,
        RoutingError,
    >)
        requires
            old(self).wf(),
            spec_encodable(msg.content),
        ensures
            final(self).wf(),
            ({
                let anchored = old(self).chain.our_history.spec_has_key(
                    msg.proof_chain.spec_key_at(0),
                );
                let sound = msg.spec_signature_valid() && msg.spec_links_valid();
                let too_new = msg.src_key_index > old(self).chain.our_history.key_count() - 1;
                if !sound {
                    r == Err::<bool, RoutingError>(RoutingError::BadSignature) && *final(self)
                        == *old(self)
                } else if anchored {
                    r == Ok::<bool, RoutingError>(true) && *final(self) == *old(self)
                } else if too_new && old(self).routing_msg_backlog@.len() < BACKLOG_CAP {
                    &&& r == Ok::<bool, RoutingError>(false)
                    &&& final(self).routing_msg_backlog@.len() == old(
                        self,
                    ).routing_msg_backlog@.len() + 1
                    &&& final(self).routing_msg_backlog@.drop_last() == old(
                        self,
                    ).routing_msg_backlog@
                    &&& srm_view(final(self).routing_msg_backlog@.last()) == srm_view(*msg)
                    &&& final(self).chain == old(self).chain
                    &&& final(self).network_service == old(self).network_service
                    &&& final(self).routing_msg_filter == old(self).routing_msg_filter
                    &&& final(self).sig_accumulator == old(self).sig_accumulator
                    &&& final(self).gen_pfx_info == old(self).gen_pfx_info
                    &&& final(self).full_id == old(self).full_id
                    &&& final(self).timer == old(self).timer
                    &&& final(self).knowledge_timer_token == old(self).knowledge_timer_token
                    &&& final(self).event_backlog == old(self).event_backlog
                    &&& final(self).direct_msg_backlog == old(self).direct_msg_backlog
                    &&& final(self).parsec_map == old(self).parsec_map
                } else {
                    r == Err::<bool, RoutingError>(RoutingError::UntrustedMessage)
                        && *final(self) == *old(self)
                }
            }),
    {
        match msg.verify(&self.chain.our_history) {
            Ok(VerifyStatus::Full) => Ok(true),
            Ok(VerifyStatus::ProofTooNew) => {
                if self.routing_msg_backlog.len() < BACKLOG_CAP {
                    let copy = copy_signed_msg(msg);
                    self.routing_msg_backlog.push(copy);
                    proof {
                        assert(self.routing_msg_backlog@.drop_last() =~= old(
                            self,
                        ).routing_msg_backlog@);
                    }
                    Ok(false)
                } else {
                    Err(RoutingError::UntrustedMessage)
                }
            },
            Err(e) => Err(e),
        }
    }

    /// Extends our trusted key history by one key, when the signature over
    /// it verifies under our newest key.  The chain never shrinks here.
    pub fn extend_trust(&mut self, key: Vec<u8>, signature: Vec<u8>) -> (r: bool)
        requires
            old(self).wf(),
        ensures
            final(self).wf(),
            r == bls_verifies(
                old(self).chain.our_history.spec_key_at(
                    old(self).chain.our_history.key_count() - 1,
                ),
                signature@,
                key@,
            ),
            r ==> final(self).chain.our_history.key_count() == old(
                self,
            ).chain.our_history.key_count() + 1 && final(self).chain.our_history.spec_key_at(
                final(self).chain.our_history.key_count() - 1,
            ) == key@,
            !r ==> *final(self) == *old(self),
            final(self).chain.our_info == old(self).chain.our_info,
            final(self).routing_msg_backlog == old(self).routing_msg_backlog,
            final(self).network_service == old(self).network_service,
    {
        self.chain.our_history.push(key, signature)
    }

    /// Replays the buffered routing messages, in arrival order, in this
    /// same turn: each encodable one is handled again as a freshly filtered
    /// message.  A message that is still too new is buffered anew; nothing
    /// else ever enters the buffer here, so it never grows, and the
    /// snapshot version never goes backwards.
    pub fn process_routing_backlog(&mut self) -> (r: Result<Transition, RoutingError>)
        requires
            old(self).wf(),
            old(self).chain.our_info.prefix.bit_count <= 256,
        ensures
            final(self).wf(),
            r is Ok,
            final(self).routing_msg_backlog@.len() <= old(self).routing_msg_backlog@.len(),
            spec_views_subset(final(self).routing_msg_backlog@, old(self).routing_msg_backlog@),
            final(self).gen_pfx_info.parsec_version >= old(self).gen_pfx_info.parsec_version,
            (exists|j: int|
                0 <= j < old(self).routing_msg_backlog@.len() && spec_deliverable_genesis(
                    *old(self),
                    #[trigger] old(self).routing_msg_backlog@[j],
                )) ==> final(self).gen_pfx_info.parsec_version
                > old(self).gen_pfx_info.parsec_version,
            final(self).direct_msg_backlog@ == old(self).direct_msg_backlog@
                || final(self).direct_msg_backlog@.len() == 0,
            final(self).direct_msg_backlog@.len() <= old(self).direct_msg_backlog@.len(),
            final(self).full_id == old(self).full_id,
            final(self).timer == old(self).timer,
            final(self).knowledge_timer_token == old(self).knowledge_timer_token,
            final(self).event_backlog == old(self).event_backlog,
            final(self).sig_accumulator == old(self).sig_accumulator,
            final(self).network_service.peer_map == old(self).network_service.peer_map,
    {
        let mut backlog: Vec<SignedRoutingMessage> = Vec::new();
        core::mem::swap(&mut backlog, &mut self.routing_msg_backlog);
        let mut i: usize = 0;
        while i < backlog.len()
            invariant
                i <= backlog@.len(),
                backlog@ == old(self).routing_msg_backlog@,
                self.wf(),
                self.chain.our_info.prefix.bit_count <= 256,
                self.routing_msg_backlog@.len() <= i,
                spec_views_subset(self.routing_msg_backlog@, backlog@),
                self.gen_pfx_info.parsec_version >= old(self).gen_pfx_info.parsec_version,
                (exists|j: int|
                    0 <= j < i && spec_deliverable_genesis(*old(self), #[trigger] backlog@[j]))
                    ==> self.gen_pfx_info.parsec_version > old(self).gen_pfx_info.parsec_version,
                self.gen_pfx_info.parsec_version == old(self).gen_pfx_info.parsec_version ==> (
                self.chain == old(self).chain && self.full_id == old(self).full_id
                    && self.gen_pfx_info == old(self).gen_pfx_info),
                self.direct_msg_backlog@ == old(self).direct_msg_backlog@
                    || self.direct_msg_backlog@.len() == 0,
                self.direct_msg_backlog@.len() <= old(self).direct_msg_backlog@.len(),
                self.full_id == old(self).full_id,
                self.timer == old(self).timer,
                self.knowledge_timer_token == old(self).knowledge_timer_token,
                self.event_backlog == old(self).event_backlog,
                self.sig_accumulator == old(self).sig_accumulator,
                self.network_service.peer_map == old(self).network_service.peer_map,
            decreases backlog@.len() - i,
        {
            let msg = &backlog[i];
            let ghost pre = *self;
            if crate::messages::is_encodable(msg) {
                let _ = self.handle_filtered_signed_message(msg);
            }
            proof {
                assert(self.routing_msg_backlog@ == pre.routing_msg_backlog@
                    || self.routing_msg_backlog@.len() == 0 || (
                self.routing_msg_backlog@.len() == pre.routing_msg_backlog@.len() + 1
                    && self.routing_msg_backlog@.drop_last() == pre.routing_msg_backlog@
                    && srm_view(self.routing_msg_backlog@.last()) == srm_view(backlog@[i as int])));
                if self.routing_msg_backlog@.len() == pre.routing_msg_backlog@.len() + 1 {
                    lemma_views_subset_push(
                        pre.routing_msg_backlog@,
                        self.routing_msg_backlog@,
                        backlog@,
                        i as int,
                    );
                }
                if spec_deliverable_genesis(*old(self), backlog@[i as int])
                    && self.gen_pfx_info.parsec_version == old(self).gen_pfx_info.parsec_version {
                    // With the state still as at entry, this message selects
                    // the install arm, which raises the version.
                    assert(pre.chain == old(self).chain && pre.gen_pfx_info == old(
                        self,
                    ).gen_pfx_info && pre.full_id == old(self).full_id);
                    assert(spec_deliverable_genesis(pre, backlog@[i as int]));
                    assert(false);
                }
            }
            i += 1;
        }
        Ok(Transition::Stay)
    }

    /// Handles a signed message that passed the deduplication filter.  A
    /// message for us carrying a genesis update is trust-checked and then
    /// followed; any other message for us is backlogged until we are
    /// established, and every message except a genesis update is forwarded
    /// through our elders.
    pub fn handle_filtered_signed_message(&mut self, msg: &SignedRoutingMessage) -> (r: Result<
        Transition,
        RoutingError,
    >)
        requires
            old(self).wf(),
            spec_encodable(msg.content),
            old(self).chain.our_info.prefix.bit_count <= 256,
        ensures
            final(self).wf(),
            spec_dispatch_effects(*old(self), *final(self), *msg, r),
            r is Err ==> *final(self) == *old(self),
            msg.content.dst.spec_contains(
                old(self).full_id.public_id.name,
                old(self).chain.our_info.prefix,
            ) && msg.content.content is GenesisUpdate ==> final(self).routing_msg_filter.incoming@
                == old(self).routing_msg_filter.incoming@,
            final(self).gen_pfx_info.parsec_version >= old(self).gen_pfx_info.parsec_version,
            final(self).gen_pfx_info.parsec_version == old(self).gen_pfx_info.parsec_version
                ==> (final(self).chain == old(self).chain && final(self).gen_pfx_info == old(
                self,
            ).gen_pfx_info && old(self).routing_msg_backlog@.len()
                <= final(self).routing_msg_backlog@.len() && (forall|j2: int|
                0 <= j2 < old(self).routing_msg_backlog@.len()
                    ==> #[trigger] final(self).routing_msg_backlog@[j2] == old(
                    self,
                ).routing_msg_backlog@[j2])),
            final(self).routing_msg_backlog@.len() <= old(self).routing_msg_backlog@.len() + 1,
            final(self).direct_msg_backlog@.len() <= old(self).direct_msg_backlog@.len(),
            final(self).full_id == old(self).full_id,
            final(self).timer == old(self).timer,
            final(self).knowledge_timer_token == old(self).knowledge_timer_token,
            final(self).event_backlog == old(self).event_backlog,
            final(self).sig_accumulator == old(self).sig_accumulator,
            final(self).network_service.peer_map == old(self).network_service.peer_map,
    {
        let for_us = msg.content.dst.contains(
            &self.full_id.public_id.name,
            &self.chain.our_info.prefix,
        );
        if for_us {
            match &msg.content.content {
                MessageContent::GenesisUpdate(info) => {
                    match self.verify_signed_message_or_buffer(msg) {
                        Ok(true) => (),
                        Ok(false) => {
                            return Ok(Transition::Stay);
                        },
                        Err(e) => {
                            return Err(e);
                        },
                    }
                    let gen = copy_genesis(info);
                    return self.handle_genesis_update(gen);
                },
                _ => {
                    let copy = copy_signed_msg(msg);
                    self.routing_msg_backlog.push(copy);
                    proof {
                        assert(self.routing_msg_backlog@.drop_last() =~= old(
                            self,
                        ).routing_msg_backlog@);
                    }
                },
            }
        }
        let ghost mid = *self;
        match self.send_signed_message_to_elders(msg) {
            Ok(()) => (),
            Err(e) => {
                return Err(e);
            },
        }
        proof {
            assert(spec_send_effects(mid, *self, *msg));
            assert(spec_send_effects(*old(self), *self, *msg));
        }
        Ok(Transition::Stay)
    }

    /// Handles an incoming signed message.  A message whose digest the
    /// filter already holds changes nothing - handling a message twice has
    /// the same observable effect as handling it once.  A new message is
    /// retained in the filter and handled.
    pub fn handle_signed_message(&mut self, msg: &SignedRoutingMessage) -> (r: Result<
        Transition,
        RoutingError,
    >)
        requires
            old(self).wf(),
            spec_encodable(msg.content),
            old(self).chain.our_info.prefix.bit_count <= 256,
        ensures
            final(self).wf(),
            spec_digest_known(old(self).routing_msg_filter.incoming@, spec_digest(*msg)) ==> (
            *final(self) == *old(self) && r == Ok::<Transition, RoutingError>(Transition::Stay)),
            !spec_digest_known(old(self).routing_msg_filter.incoming@, spec_digest(*msg)) ==> {
                &&& spec_dispatch_effects(*old(self), *final(self), *msg, r)
                &&& spec_digest_known(
                    final(self).routing_msg_filter.incoming@,
                    spec_digest(*msg),
                )
                &&& final(self).full_id == old(self).full_id
                &&& final(self).timer == old(self).timer
                &&& final(self).knowledge_timer_token == old(self).knowledge_timer_token
                &&& final(self).event_backlog == old(self).event_backlog
                &&& final(self).sig_accumulator == old(self).sig_accumulator
                &&& final(self).network_service.peer_map == old(self).network_service.peer_map
            },
            final(self).gen_pfx_info.parsec_version >= old(self).gen_pfx_info.parsec_version,
            final(self).gen_pfx_info.parsec_version == old(self).gen_pfx_info.parsec_version
                ==> (final(self).chain == old(self).chain && final(self).gen_pfx_info == old(
                self,
            ).gen_pfx_info && old(self).routing_msg_backlog@.len()
                <= final(self).routing_msg_backlog@.len() && (forall|j2: int|
                0 <= j2 < old(self).routing_msg_backlog@.len()
                    ==> #[trigger] final(self).routing_msg_backlog@[j2] == old(
                    self,
                ).routing_msg_backlog@[j2])),
            final(self).routing_msg_backlog@.len() <= old(self).routing_msg_backlog@.len() + 1,
            final(self).direct_msg_backlog@.len() <= old(self).direct_msg_backlog@.len(),
    {
        let digest = digest_of(msg);
        let ghost pre = *self;
        let is_new = self.routing_msg_filter.filter_incoming(&digest);
        if !is_new {
            return Ok(Transition::Stay);
        }
        let ghost mid = *self;
        let r = self.handle_filtered_signed_message(msg);
        proof {
            assert(spec_dispatch_effects(mid, *self, *msg, r));
            assert(mid.chain == pre.chain && mid.full_id == pre.full_id
                && mid.network_service == pre.network_service && mid.routing_msg_backlog
                == pre.routing_msg_backlog && mid.routing_msg_filter.outgoing@
                == pre.routing_msg_filter.outgoing@);
            assert(spec_dispatch_effects(*old(self), *self, *msg, r));
            if msg.content.dst.spec_contains(pre.full_id.public_id.name, pre.chain.our_info.prefix)
                && msg.content.content is GenesisUpdate {
                assert(self.routing_msg_filter.incoming@ == mid.routing_msg_filter.incoming@);
                assert(spec_digest_known(mid.routing_msg_filter.incoming@, digest@));
            }
        }
        r
    }

    /// Handles one elder's signature share over a signed message.  The share
    /// is fed to the accumulator under the message's payload digest; on the
    /// share whose addition reaches the threshold, the combined signature
    /// replaces the message's signature and the completed message is handled
    /// as an incoming signed message.  A rejected or redundant share changes
    /// only the accumulator.
    pub fn handle_message_signature(
        &mut self,
        msg: &SignedRoutingMessage,
        index: u64,
        share: &Vec<u8>,
        pks: &threshold_crypto::PublicKeySet,
        now_ms: u64,
    ) -> (r: Result<Transition, RoutingError>)
        requires
            old(self).wf(),
            spec_encodable(msg.content),
            old(self).chain.our_info.prefix.bit_count <= 256,
            old(self).sig_accumulator.entries@.len() < usize::MAX,
        ensures
            final(self).wf(),
            final(self).full_id == old(self).full_id,
            final(self).timer == old(self).timer,
            final(self).knowledge_timer_token == old(self).knowledge_timer_token,
            final(self).event_backlog == old(self).event_backlog,
            final(self).network_service.peer_map == old(self).network_service.peer_map,
            final(self).gen_pfx_info.parsec_version >= old(self).gen_pfx_info.parsec_version,
            final(self).gen_pfx_info.parsec_version == old(self).gen_pfx_info.parsec_version
                ==> (final(self).chain == old(self).chain && final(self).gen_pfx_info == old(
                self,
            ).gen_pfx_info && old(self).routing_msg_backlog@.len()
                <= final(self).routing_msg_backlog@.len() && (forall|j2: int|
                0 <= j2 < old(self).routing_msg_backlog@.len()
                    ==> #[trigger] final(self).routing_msg_backlog@[j2] == old(
                    self,
                ).routing_msg_backlog@[j2])),
            final(self).routing_msg_backlog@.len() <= old(self).routing_msg_backlog@.len() + 1,
            final(self).direct_msg_backlog@.len() <= old(self).direct_msg_backlog@.len(),
            !old(self).sig_accumulator.spec_reaches_threshold(
                spec_share_key(*msg),
                index,
            ) ==> {
                &&& r is Ok && r->Ok_0 is Stay
                &&& final(self).chain == old(self).chain
                &&& final(self).network_service == old(self).network_service
                &&& final(self).routing_msg_backlog == old(self).routing_msg_backlog
                &&& final(self).direct_msg_backlog == old(self).direct_msg_backlog
                &&& final(self).routing_msg_filter == old(self).routing_msg_filter
                &&& final(self).gen_pfx_info == old(self).gen_pfx_info
                &&& final(self).parsec_map == old(self).parsec_map
            },
            old(self).sig_accumulator.spec_reaches_threshold(spec_share_key(*msg), index) ==> (
            exists|completed: SignedRoutingMessage|
                {
                    &&& #[trigger] srm_view(completed).0 == spec_encode_routing_msg(msg.content)
                    &&& srm_view(completed).1 == msg.src_section_key@
                    &&& ((r == Ok::<Transition, RoutingError>(Transition::Stay) && *final(self)
                        == (Adult { sig_accumulator: final(self).sig_accumulator, ..*old(self) }))
                        || spec_dispatch_effects(
                        (Adult { sig_accumulator: final(self).sig_accumulator, ..*old(self) }),
                        *final(self),
                        completed,
                        r,
                    ))
                }),
    {
        let mut accumulation_key = crate::bytes_util::copy_bytes(&msg.src_section_key);
        let mut payload = encode_routing_msg(&msg.content);
        accumulation_key.append(&mut payload);
        proof {
            assert(accumulation_key@ =~= spec_share_key(*msg));
        }
        let ghost pre = *self;
        match self.sig_accumulator.add_share(pks, &accumulation_key, index, share, now_ms) {
            Ok(Some(signature)) => {
                let mut completed = copy_signed_msg(msg);
                completed.signature = signature;
                proof {
                    assert(spec_encodable(completed.content));
                    assert(pre.chain == self.chain && pre.network_service == self.network_service
                        && pre.routing_msg_backlog == self.routing_msg_backlog
                        && pre.routing_msg_filter == self.routing_msg_filter
                        && pre.gen_pfx_info == self.gen_pfx_info);
                }
                let ghost mid = *self;
                let r = self.handle_signed_message(&completed);
                proof {
                    let c = completed;
                    assert(srm_view(c).0 == spec_encode_routing_msg(msg.content));
                    assert(srm_view(c).1 == msg.src_section_key@);
                    assert(self.sig_accumulator == mid.sig_accumulator);
                    assert(mid == (Adult {
                        sig_accumulator: self.sig_accumulator,
                        ..*old(self)
                    }));
                    if spec_digest_known(mid.routing_msg_filter.incoming@, spec_digest(c)) {
                        assert(*self == mid && r == Ok::<Transition, RoutingError>(
                            Transition::Stay,
                        ));
                    } else {
                        assert(spec_dispatch_effects(mid, *self, c, r));
                    }
                }
                r
            },
            Ok(None) => {
                proof {
                    assert(*self == (Adult {
                        sig_accumulator: self.sig_accumulator,
                        ..*old(self)
                    }));
                    assert(srm_view(*msg).0 == spec_encode_routing_msg(msg.content));
                    assert(srm_view(*msg).1 == msg.src_section_key@);
                }
                Ok(Transition::Stay)
            },
            Err(_) => {
                proof {
                    assert(*self == (Adult {
                        sig_accumulator: self.sig_accumulator,
                        ..*old(self)
                    }));
                    assert(srm_view(*msg).0 == spec_encode_routing_msg(msg.content));
                    assert(srm_view(*msg).1 == msg.src_section_key@);
                }
                Ok(Transition::Stay)
            },
        }
    }

    /// Reports our knowledge to the elders: each is queued a member
    /// knowledge message carrying our newest key index and consensus
    /// version.
    pub fn send_member_knowledge(&mut self)
        requires
            old(self).wf(),
        ensures
            final(self).wf(),
            final(self).network_service.send_queue@.len() == old(
                self,
            ).network_service.send_queue@.len() + old(self).chain.our_info.elders@.len(),
            forall|k: int|
                0 <= k < old(self).network_service.send_queue@.len()
                    ==> #[trigger] final(self).network_service.send_queue@[k] == old(
                    self,
                ).network_service.send_queue@[k],
            forall|k: int|
                0 <= k < old(self).chain.our_info.elders@.len() ==> {
                    let entry = #[trigger] final(self).network_service.send_queue@[old(
                        self,
                    ).network_service.send_queue@.len() + k];
                    &&& entry.0 == old(self).chain.our_info.elders@[k].addr
                    &&& entry.1 is Direct
                    &&& entry.1->Direct_0 is MemberKnowledge
                },
            final(self).chain == old(self).chain,
            final(self).routing_msg_filter == old(self).routing_msg_filter,
            final(self).routing_msg_backlog == old(self).routing_msg_backlog,
            final(self).sig_accumulator == old(self).sig_accumulator,
            final(self).network_service.peer_map == old(self).network_service.peer_map,
            final(self).timer == old(self).timer,
            final(self).knowledge_timer_token == old(self).knowledge_timer_token,
            final(self).full_id == old(self).full_id,
            final(self).event_backlog == old(self).event_backlog,
            final(self).gen_pfx_info == old(self).gen_pfx_info,
            final(self).parsec_map == old(self).parsec_map,
            final(self).direct_msg_backlog == old(self).direct_msg_backlog,
    {
        let section_key_index = self.chain.our_history.last_key_index() as u64;
        let parsec_version = self.parsec_map.version;
        let n = self.chain.our_info.elders.len();
        let ghost pre_queue = self.network_service.send_queue@;
        let mut i: usize = 0;
        while i < n
            invariant
                i <= n,
                n == self.chain.our_info.elders@.len(),
                self.chain == old(self).chain,
                self.event_backlog == old(self).event_backlog,
                self.full_id == old(self).full_id,
                self.gen_pfx_info == old(self).gen_pfx_info,
                self.routing_msg_backlog == old(self).routing_msg_backlog,
                self.direct_msg_backlog == old(self).direct_msg_backlog,
                self.sig_accumulator == old(self).sig_accumulator,
                self.parsec_map == old(self).parsec_map,
                self.knowledge_timer_token == old(self).knowledge_timer_token,
                self.timer == old(self).timer,
                self.routing_msg_filter == old(self).routing_msg_filter,
                self.network_service.peer_map == old(self).network_service.peer_map,
                pre_queue == old(self).network_service.send_queue@,
                self.network_service.send_queue@.len() == pre_queue.len() + i,
                forall|k: int|
                    0 <= k < pre_queue.len() ==> #[trigger] self.network_service.send_queue@[k]
                        == pre_queue[k],
                forall|k: int|
                    0 <= k < i ==> {
                        let entry = #[trigger] self.network_service.send_queue@[pre_queue.len()
                            + k];
                        &&& entry.0 == self.chain.our_info.elders@[k].addr
                        &&& entry.1 is Direct
                        &&& entry.1->Direct_0 is MemberKnowledge
                    },
            decreases n - i,
        {
            let elder = self.chain.our_info.elders[i];
            self.network_service.send(
                elder.addr,
                OutboundMessage::Direct(
                    DirectMessage::MemberKnowledge { section_key_index, parsec_version },
                ),
            );
            i += 1;
        }
    }

    /// Handles a fired timer.  The knowledge timer makes us report our
    /// knowledge to the elders and is scheduled anew; any other token is
    /// ignored, which is how a cancelled timer dies.
    pub fn handle_timeout(&mut self, token: u64) -> (r: Transition)
        requires
            old(self).wf(),
            old(self).timer.next_token < u64::MAX,
        ensures
            final(self).wf(),
            r is Stay,
            token != old(self).knowledge_timer_token ==> *final(self) == *old(self),
            token == old(self).knowledge_timer_token ==> final(self).knowledge_timer_token == old(
                self,
            ).timer.next_token && final(self).timer.next_token == old(self).timer.next_token + 1,
    {
        if self.knowledge_timer_token == token {
            self.send_member_knowledge();
            self.knowledge_timer_token = self.timer.schedule(KNOWLEDGE_TIMEOUT_MS);
        }
        Transition::Stay
    }

    /// Notes a lost peer.  An adult takes no action on its own: membership
    /// changes are gated by consensus decisions only.
    pub fn handle_peer_lost(&mut self, _peer_addr: ConnectionInfo) -> (r: Transition)
        ensures
            *final(self) == *old(self),
            r is Stay,
    {
        Transition::Stay
    }

    /// Handles a one-hop control message: a signature share goes to the
    /// accumulator, a bootstrap request is answered, a relocation
    /// instruction for us is obeyed, consensus traffic is queued for the
    /// agreement engine, stray bootstrap responses are discarded, and what
    /// an adult cannot handle yet is backlogged.
    pub fn handle_direct_message(
        &mut self,
        msg: DirectMessage,
        p2p_node: P2pNode,
        pks: &threshold_crypto::PublicKeySet,
        now_ms: u64,
    ) -> (r: Result<Transition, RoutingError>)
        requires
            old(self).wf(),
            old(self).chain.our_info.prefix.bit_count <= 256,
            old(self).sig_accumulator.entries@.len() < usize::MAX,
        ensures
            final(self).wf(),
            ({
                match msg {
                    DirectMessage::ConnectionResponse | DirectMessage::BootstrapResponse(_) => (
                    *final(self) == *old(self) && r is Ok && r->Ok_0 is Stay),
                    DirectMessage::JoinRequest(_) | DirectMessage::MemberKnowledge { .. } => {
                        &&& r is Ok && r->Ok_0 is Stay
                        &&& final(self).direct_msg_backlog@.len() == old(
                            self,
                        ).direct_msg_backlog@.len() + 1
                        &&& final(self).direct_msg_backlog@.drop_last() == old(
                            self,
                        ).direct_msg_backlog@
                        &&& final(self).direct_msg_backlog@.last().0 == p2p_node
                        &&& final(self).chain == old(self).chain
                        &&& final(self).network_service == old(self).network_service
                        &&& final(self).routing_msg_backlog == old(self).routing_msg_backlog
                        &&& final(self).gen_pfx_info == old(self).gen_pfx_info
                        &&& final(self).sig_accumulator == old(self).sig_accumulator
                        &&& final(self).routing_msg_filter == old(self).routing_msg_filter
                    },
                    DirectMessage::ParsecRequest(version, _) => {
                        &&& r is Ok && r->Ok_0 is Stay
                        &&& final(self).parsec_map.engine_inbox@.len() == old(
                            self,
                        ).parsec_map.engine_inbox@.len() + 1
                        &&& final(self).parsec_map.engine_inbox@.last().0 == version
                        &&& final(self).chain == old(self).chain
                        &&& final(self).network_service == old(self).network_service
                        &&& final(self).routing_msg_backlog == old(self).routing_msg_backlog
                        &&& final(self).direct_msg_backlog == old(self).direct_msg_backlog
                        &&& final(self).gen_pfx_info == old(self).gen_pfx_info
                    },
                    DirectMessage::ParsecResponse(version, _) => {
                        &&& r is Ok && r->Ok_0 is Stay
                        &&& final(self).parsec_map.engine_inbox@.len() == old(
                            self,
                        ).parsec_map.engine_inbox@.len() + 1
                        &&& final(self).parsec_map.engine_inbox@.last().0 == version
                        &&& final(self).chain == old(self).chain
                        &&& final(self).network_service == old(self).network_service
                        &&& final(self).routing_msg_backlog == old(self).routing_msg_backlog
                        &&& final(self).direct_msg_backlog == old(self).direct_msg_backlog
                        &&& final(self).gen_pfx_info == old(self).gen_pfx_info
                    },
                    DirectMessage::BootstrapRequest(destination) => {
                        // Answered exactly as the bootstrap handler states.
                        &&& r is Ok && r->Ok_0 is Stay
                        &&& final(self).network_service.send_queue@.len() == old(
                            self,
                        ).network_service.send_queue@.len() + 1
                        &&& (forall|k: int|
                            0 <= k < old(self).network_service.send_queue@.len()
                                ==> #[trigger] final(self).network_service.send_queue@[k] == old(
                                self,
                            ).network_service.send_queue@[k])
                        &&& ({
                            let entry = final(self).network_service.send_queue@.last();
                            &&& entry.0 == p2p_node.conn_info
                            &&& entry.1 is Direct
                            &&& entry.1->Direct_0 is BootstrapResponse
                            &&& if old(self).chain.our_info.prefix.spec_matches(destination@) {
                                let resp = entry.1->Direct_0->BootstrapResponse_0;
                                &&& resp is Join
                                &&& resp->Join_0.prefix == old(self).chain.our_info.prefix
                                &&& resp->Join_0.elders@ == old(self).chain.our_info.elders@
                            } else {
                                let resp = entry.1->Direct_0->BootstrapResponse_0;
                                &&& resp is Rebootstrap
                                &&& resp->Rebootstrap_0@ == spec_elder_addrs(
                                    old(self).chain.our_info.elders@,
                                )
                            }
                        })
                        &&& final(self).chain == old(self).chain
                        &&& final(self).routing_msg_backlog == old(self).routing_msg_backlog
                        &&& final(self).direct_msg_backlog == old(self).direct_msg_backlog
                        &&& final(self).routing_msg_filter == old(self).routing_msg_filter
                        &&& final(self).sig_accumulator == old(self).sig_accumulator
                        &&& final(self).gen_pfx_info == old(self).gen_pfx_info
                        &&& final(self).parsec_map == old(self).parsec_map
                    },
                    DirectMessage::Relocate(details) => {
                        // Obeyed or ignored exactly as the relocation
                        // handler states.
                        let ours = details.content.pub_id.name@ == old(
                            self,
                        ).full_id.public_id.name@;
                        let valid = bls_verifies(
                            old(self).chain.our_history.spec_key_at(
                                old(self).chain.our_history.key_count() - 1,
                            ),
                            details.signature@,
                            spec_encode_relocate(details.content),
                        );
                        &&& r is Ok
                        &&& if !ours || !valid {
                            *final(self) == *old(self) && r->Ok_0 is Stay
                        } else {
                            &&& r->Ok_0 is Relocate
                            &&& r->Ok_0->Relocate_details == details
                            &&& r->Ok_0->Relocate_conn_infos@ == spec_elder_addrs(
                                old(self).chain.our_info.elders@,
                            )
                            &&& final(self).network_service.peer_map.peers@.len() == 0
                            &&& final(self).network_service.send_queue@ == old(
                                self,
                            ).network_service.send_queue@
                            &&& final(self).chain == old(self).chain
                            &&& final(self).routing_msg_backlog == old(self).routing_msg_backlog
                            &&& final(self).direct_msg_backlog == old(self).direct_msg_backlog
                            &&& final(self).sig_accumulator == old(self).sig_accumulator
                            &&& final(self).gen_pfx_info == old(self).gen_pfx_info
                            &&& final(self).parsec_map == old(self).parsec_map
                            &&& final(self).routing_msg_filter == old(self).routing_msg_filter
                        }
                    },
                    DirectMessage::MessageSignature { digest: _, index, share: _, msg: inner } => {
                        // Fed to the accumulator exactly as the signature
                        // handler states; a message that does not fit the
                        // wire format is dropped.
                        &&& (!spec_encodable(inner.content) ==> *final(self) == *old(self) && r
                            is Ok && r->Ok_0 is Stay)
                        &&& (spec_encodable(inner.content)
                            && !old(self).sig_accumulator.spec_reaches_threshold(
                            spec_share_key(inner),
                            index,
                        ) ==> {
                            &&& r is Ok && r->Ok_0 is Stay
                            &&& final(self).chain == old(self).chain
                            &&& final(self).network_service == old(self).network_service
                            &&& final(self).routing_msg_backlog == old(self).routing_msg_backlog
                            &&& final(self).direct_msg_backlog == old(self).direct_msg_backlog
                            &&& final(self).routing_msg_filter == old(self).routing_msg_filter
                            &&& final(self).gen_pfx_info == old(self).gen_pfx_info
                            &&& final(self).parsec_map == old(self).parsec_map
                        })
                    },
                }
            }),
            final(self).full_id == old(self).full_id,
            final(self).event_backlog == old(self).event_backlog,
            final(self).timer == old(self).timer,
            final(self).knowledge_timer_token == old(self).knowledge_timer_token,
            final(self).network_service.peer_map.wf(),
            final(self).gen_pfx_info.parsec_version >= old(self).gen_pfx_info.parsec_version,
            final(self).gen_pfx_info.parsec_version == old(self).gen_pfx_info.parsec_version
                ==> (final(self).chain == old(self).chain && final(self).gen_pfx_info == old(
                self,
            ).gen_pfx_info && old(self).routing_msg_backlog@.len()
                <= final(self).routing_msg_backlog@.len() && (forall|j2: int|
                0 <= j2 < old(self).routing_msg_backlog@.len()
                    ==> #[trigger] final(self).routing_msg_backlog@[j2] == old(
                    self,
                ).routing_msg_backlog@[j2])),
            final(self).routing_msg_backlog@.len() <= old(self).routing_msg_backlog@.len() + 1,
            final(self).direct_msg_backlog@.len() <= old(self).direct_msg_backlog@.len() + 1,
    {
        match msg {
            DirectMessage::MessageSignature { digest: _, index, share, msg: inner } => {
                if crate::messages::is_encodable(&inner) {
                    self.handle_message_signature(&inner, index, &share, pks, now_ms)
                } else {
                    Ok(Transition::Stay)
                }
            },
            DirectMessage::ParsecRequest(version, bytes) => {
                self.parsec_map.enqueue_engine_input(version, bytes);
                Ok(Transition::Stay)
            },
            DirectMessage::ParsecResponse(version, bytes) => {
                self.parsec_map.enqueue_engine_input(version, bytes);
                Ok(Transition::Stay)
            },
            DirectMessage::BootstrapRequest(name) => {
                self.handle_bootstrap_request(p2p_node, name);
                Ok(Transition::Stay)
            },
            DirectMessage::ConnectionResponse => Ok(Transition::Stay),
            DirectMessage::Relocate(details) => Ok(self.handle_relocate(details)),
            DirectMessage::BootstrapResponse(_) => Ok(Transition::Stay),
            msg @ DirectMessage::JoinRequest(_) => {
                self.direct_msg_backlog.push((p2p_node, msg));
                Ok(Transition::Stay)
            },
            msg @ DirectMessage::MemberKnowledge { .. } => {
                self.direct_msg_backlog.push((p2p_node, msg));
                Ok(Transition::Stay)
            },
        }
    }

    /// Handles a decided section-info event: when the new committee holds
    /// our name we are to become an elder; otherwise an adult stays as it
    /// is.
    pub fn handle_section_info_event(&mut self, old_pfx: Prefix) -> (r: Result<
        Transition,
        RoutingError,
    >)
        ensures
            *final(self) == *old(self),
            ({
                let elder = old(self).chain.our_info.spec_contains_elder(
                    old(self).chain.our_id.name@,
                );
                match r {
                    Ok(t) => if elder {
                        t is IntoElder && t->IntoElder_old_pfx == old_pfx
                    } else {
                        t is Stay
                    },
                    Err(_) => false,
                }
            }),
    {
        if self.chain.is_self_elder() {
            Ok(Transition::IntoElder { old_pfx })
        } else {
            Ok(Transition::Stay)
        }
    }

    /// Finishes a state change: replays the backlogged one-hop messages and
    /// then the backlogged routing messages, in arrival order, in this same
    /// turn.  Replay stops at the first handler that asks for a transition;
    /// what was not replayed stays backlogged.  Every removed pair was
    /// handled or pushed back, so neither backlog ever grows: the one-hop
    /// backlog shrinks or keeps its size, and the routing backlog gains at
    /// most one message per one-hop message replayed.
    pub fn finish_handle_transition(
        &mut self,
        pks: &threshold_crypto::PublicKeySet,
        now_ms: u64,
    ) -> (r: Transition)
        requires
            old(self).wf(),
            old(self).chain.our_info.prefix.bit_count <= 256,
        ensures
            final(self).wf(),
            final(self).direct_msg_backlog@.len() <= old(self).direct_msg_backlog@.len(),
            final(self).routing_msg_backlog@.len() <= old(self).routing_msg_backlog@.len() + old(
                self,
            ).direct_msg_backlog@.len(),
            final(self).gen_pfx_info.parsec_version >= old(self).gen_pfx_info.parsec_version,
            (r is Stay && exists|j: int|
                0 <= j < old(self).routing_msg_backlog@.len() && spec_deliverable_genesis(
                    *old(self),
                    #[trigger] old(self).routing_msg_backlog@[j],
                )) ==> final(self).gen_pfx_info.parsec_version
                > old(self).gen_pfx_info.parsec_version,
            final(self).full_id == old(self).full_id,
            final(self).event_backlog == old(self).event_backlog,
            final(self).timer == old(self).timer,
            final(self).knowledge_timer_token == old(self).knowledge_timer_token,
    {
        let mut transition = Transition::Stay;
        let mut direct: Vec<(P2pNode, DirectMessage)> = Vec::new();
        core::mem::swap(&mut direct, &mut self.direct_msg_backlog);
        let n = direct.len();
        loop
            invariant
                self.wf(),
                self.chain.our_info.prefix.bit_count <= 256,
                self.full_id == old(self).full_id,
                self.event_backlog == old(self).event_backlog,
                self.timer == old(self).timer,
                self.knowledge_timer_token == old(self).knowledge_timer_token,
                self.gen_pfx_info.parsec_version >= old(self).gen_pfx_info.parsec_version,
                direct@.len() <= n,
                n == old(self).direct_msg_backlog@.len(),
                self.direct_msg_backlog@.len() + direct@.len() <= n,
                self.routing_msg_backlog@.len() <= old(self).routing_msg_backlog@.len() + n
                    - direct@.len(),
                self.gen_pfx_info.parsec_version == old(self).gen_pfx_info.parsec_version ==> (
                self.chain == old(self).chain && self.gen_pfx_info == old(self).gen_pfx_info
                    && old(self).routing_msg_backlog@.len() <= self.routing_msg_backlog@.len()
                    && (forall|j: int|
                    0 <= j < old(self).routing_msg_backlog@.len()
                        ==> #[trigger] self.routing_msg_backlog@[j] == old(
                        self,
                    ).routing_msg_backlog@[j])),
            decreases direct@.len(),
        {
            if direct.len() == 0 {
                break;
            }
            let (node, msg) = direct.remove(0);
            let still_staying = matches!(transition, Transition::Stay);
            if still_staying && self.sig_accumulator.entries.len() < usize::MAX {
                match self.handle_direct_message(msg, node, pks, now_ms) {
                    Ok(new_transition) => {
                        transition = new_transition;
                    },
                    Err(_) => (),
                }
            } else {
                self.direct_msg_backlog.push((node, msg));
            }
        }
        let still_staying = matches!(transition, Transition::Stay);
        if still_staying {
            let ghost mid = *self;
            match self.process_routing_backlog() {
                Ok(_) => (),
                Err(_) => (),
            }
            proof {
                if self.gen_pfx_info.parsec_version == old(self).gen_pfx_info.parsec_version {
                    if exists|j: int|
                        0 <= j < old(self).routing_msg_backlog@.len() && spec_deliverable_genesis(
                            *old(self),
                            #[trigger] old(self).routing_msg_backlog@[j],
                        ) {
                        let j = choose|j: int|
                            0 <= j < old(self).routing_msg_backlog@.len()
                                && spec_deliverable_genesis(
                                *old(self),
                                #[trigger] old(self).routing_msg_backlog@[j],
                            );
                        assert(mid.routing_msg_backlog@[j] == old(self).routing_msg_backlog@[j]);
                        assert(spec_deliverable_genesis(mid, mid.routing_msg_backlog@[j]));
                        assert(self.gen_pfx_info.parsec_version
                            > mid.gen_pfx_info.parsec_version);
                    }
                }
            }
        }
        transition
    }
}

/// The text reporting how many observations await a decision.
pub open spec fn spec_unpolled_string(n: int) -> Seq<char> {
    "unpolled observations: "@ + spec_decimal_string(n)
}

} // verus!
