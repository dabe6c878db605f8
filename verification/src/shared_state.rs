//! The authoritative replica held by every elder, and the restricted view an
//! adult holds of its own section.

use vstd::prelude::*;
use crate::location::DstLocation;
use crate::members::SectionMembers;
use crate::messages::GenesisPfxInfo;
use crate::peer::Peer;
use crate::peer::PublicId;
use crate::proof_chain::SectionProofChain;
use crate::section::EldersInfo;
use crate::section_map::SectionMap;
use crate::service::NetworkParams;
use crate::xor_space::Prefix;

verus! {

/// The authoritative section state an elder replicates: the section map,
/// the member table, and the proof chain of our own key history.
pub struct SharedState {
    pub sections: SectionMap,
    pub our_members: SectionMembers,
    pub our_history: SectionProofChain,
}

impl SharedState {
    /// All three parts are well formed.
    pub open spec fn wf(self) -> bool {
        &&& self.sections.wf()
        &&& self.our_members.wf()
        &&& self.our_history.wf()
    }

    /// Assembles the replica.
    pub fn new(
        our_history: SectionProofChain,
        sections: SectionMap,
        our_members: SectionMembers,
    ) -> (r: SharedState)
        ensures
            r.sections == sections,
            r.our_members == our_members,
            r.our_history == our_history,
    {
        SharedState { sections, our_members, our_history }
    }

    /// Our own section's prefix.
    pub fn our_prefix(&self) -> (r: &Prefix)
        ensures
            r == self.sections.our.value.prefix,
    {
        &self.sections.our.value.prefix
    }
}

/// The restricted view an adult holds: its own committee, its key history,
/// and its identity.
pub struct Chain {
    pub network_cfg: NetworkParams,
    pub our_id: PublicId,
    pub our_info: EldersInfo,
    pub our_history: SectionProofChain,
}

impl Chain {
    /// The committee record and the key history are well formed.
    pub open spec fn wf(self) -> bool {
        &&& self.our_info.wf()
        &&& self.our_history.wf()
    }

    /// Builds an adult's view from the genesis snapshot it was handed.
    pub fn new(network_cfg: NetworkParams, our_id: PublicId, gen: &GenesisPfxInfo) -> (r: Chain)
        requires
            gen.elders_info.wf(),
        ensures
            r.wf(),
            r.network_cfg == network_cfg,
            r.our_id == our_id,
            r.our_info.prefix == gen.elders_info.prefix,
            r.our_info.elders@ == gen.elders_info.elders@,
            r.our_history.key_count() == 1,
            r.our_history.spec_key_at(0) == gen.section_key@,
    {
        let our_info = EldersInfo {
            prefix: gen.elders_info.prefix,
            elders: crate::section::copy_peers(&gen.elders_info.elders),
        };
        let our_history = SectionProofChain::new(crate::bytes_util::copy_bytes(&gen.section_key));
        Chain { network_cfg, our_id, our_info, our_history }
    }

    /// The section-size parameters this view was created with.
    pub fn network_cfg(&self) -> (r: NetworkParams)
        ensures
            r == self.network_cfg,
    {
        self.network_cfg
    }

    /// Our own section's prefix.
    pub fn our_prefix(&self) -> (r: &Prefix)
        ensures
            r == self.our_info.prefix,
    {
        &self.our_info.prefix
    }

    /// Our own committee.
    pub fn our_info(&self) -> (r: &EldersInfo)
        ensures
            r == self.our_info,
    {
        &self.our_info
    }

    /// Our own elders, ordered by name.
    pub fn our_elders(&self) -> (r: &Vec<Peer>)
        ensures
            r == self.our_info.elders,
    {
        &self.our_info.elders
    }

    /// Whether this node stands in its own committee.
    pub fn is_self_elder(&self) -> (r: bool)
        ensures
            r == self.our_info.spec_contains_elder(self.our_id.name@),
    {
        match self.our_info.position(&self.our_id.name) {
            Some(_) => true,
            None => false,
        }
    }

    /// Whether a node with our name and prefix lies in the destination.
    pub fn in_location(&self, dst: &DstLocation) -> (r: bool)
        requires
            self.our_info.prefix.bit_count <= 256,
        ensures
            r == dst.spec_contains(self.our_id.name, self.our_info.prefix),
    {
        dst.contains(&self.our_id.name, &self.our_info.prefix)
    }
}

/// The full identity of this node, as the routing logic reads it; the
/// secret key stays with the embedder.
#[derive(Clone, Copy, Debug)]
pub struct FullId {
    pub public_id: PublicId,
}

impl FullId {
    /// The public half of the identity.
    pub fn public_id(&self) -> (r: &PublicId)
        ensures
            r == self.public_id,
    {
        &self.public_id
    }
}

} // verus!
