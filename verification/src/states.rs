//! The node states of the approved-side state machine, and the transitions
//! between them.

use vstd::prelude::*;
use crate::accumulator::SignatureAccumulator;
use crate::event::Event;
use crate::messages::DirectMessage;
use crate::messages::GenesisPfxInfo;
use crate::messages::RoutingMessageFilter;
use crate::messages::SignedRelocateDetails;
use crate::messages::SignedRoutingMessage;
use crate::peer::ConnectionInfo;
use crate::peer::P2pNode;
use crate::service::NetworkParams;
use crate::service::NetworkService;
use crate::service::ParsecMap;
use crate::service::Timer;
use crate::shared_state::Chain;
use crate::shared_state::FullId;
use crate::xor_space::Prefix;

verus! {

/// What a message handler asks the state machine to do next.
pub enum Transition {
    /// Remain in the current state.
    Stay,
    /// Become an elder; `old_pfx` is the prefix before the change.
    IntoElder { old_pfx: Prefix },
    /// Leave the section and rejoin the network at the relocation target.
    Relocate { details: SignedRelocateDetails, conn_infos: Vec<ConnectionInfo> },
}

/// What a node needs to start bootstrapping.
pub struct BootstrappingPeerDetails {
    pub network_service: NetworkService,
    pub full_id: FullId,
    pub network_cfg: NetworkParams,
    pub timer: Timer,
}

/// A node searching for a section to join.
pub struct BootstrappingPeer {
    pub network_service: NetworkService,
    pub full_id: FullId,
    pub network_cfg: NetworkParams,
    pub timer: Timer,
    /// Set when the node bootstraps again because it was relocated: the
    /// peers to contact and the signed relocation instruction.
    pub relocation: Option<(Vec<ConnectionInfo>, SignedRelocateDetails)>,
}

impl BootstrappingPeer {
    /// Starts bootstrapping from scratch.
    pub fn new(details: BootstrappingPeerDetails) -> (r: BootstrappingPeer)
        ensures
            r.network_service == details.network_service,
            r.full_id == details.full_id,
            r.network_cfg == details.network_cfg,
            r.timer == details.timer,
            r.relocation is None,
    {
        BootstrappingPeer {
            network_service: details.network_service,
            full_id: details.full_id,
            network_cfg: details.network_cfg,
            timer: details.timer,
            relocation: None,
        }
    }

    /// Starts bootstrapping towards a relocation target.
    pub fn relocate(
        details: BootstrappingPeerDetails,
        conn_infos: Vec<ConnectionInfo>,
        relocate_details: SignedRelocateDetails,
    ) -> (r: BootstrappingPeer)
        ensures
            r.network_service == details.network_service,
            r.full_id == details.full_id,
            r.network_cfg == details.network_cfg,
            r.timer == details.timer,
            r.relocation == Some((conn_infos, relocate_details)),
    {
        BootstrappingPeer {
            network_service: details.network_service,
            full_id: details.full_id,
            network_cfg: details.network_cfg,
            timer: details.timer,
            relocation: Some((conn_infos, relocate_details)),
        }
    }
}

/// A member of its section's committee.  The full elder duties are carried
/// by the shared state this struct holds; this core keeps the handover data.
pub struct Elder {
    pub chain: Chain,
    pub network_service: NetworkService,
    pub event_backlog: Vec<Event>,
    pub full_id: FullId,
    pub gen_pfx_info: GenesisPfxInfo,
    pub routing_msg_backlog: Vec<SignedRoutingMessage>,
    pub direct_msg_backlog: Vec<(P2pNode, DirectMessage)>,
    pub sig_accumulator: SignatureAccumulator,
    pub parsec_map: ParsecMap,
    pub routing_msg_filter: RoutingMessageFilter,
    pub timer: Timer,
    pub old_pfx: Prefix,
}

/// The state saved when a node is paused, from which it can resume.
pub struct PausedState {
    pub chain: Chain,
    pub full_id: FullId,
    pub gen_pfx_info: GenesisPfxInfo,
    pub routing_msg_filter: RoutingMessageFilter,
    pub routing_msg_backlog: Vec<SignedRoutingMessage>,
    pub direct_msg_backlog: Vec<(P2pNode, DirectMessage)>,
    pub network_service: NetworkService,
    pub sig_accumulator: SignatureAccumulator,
    pub parsec_map: ParsecMap,
}

/// The states a node passes through after it was approved.
pub enum State {
    /// Searching for a section to join.
    BootstrappingPeer(BootstrappingPeer),
    /// An approved member outside the committee.
    Adult(crate::adult::Adult),
    /// A member of the committee.
    Elder(Elder),
}

} // verus!
