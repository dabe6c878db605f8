//! The proof chain, the trust check, and the adult's message handling.

use routing::adult::{Adult, AdultDetails};
use routing::accumulator::SignatureAccumulator;
use routing::location::{DstLocation, SrcLocation};
use routing::messages::{
    encode_routing_msg, BootstrapResponse, DirectMessage, GenesisPfxInfo, MessageContent,
    RelocateDetails, RoutingMessage, RoutingMessageFilter, SignedRelocateDetails,
    SignedRoutingMessage,
};
use routing::members::{MemberInfo, MemberState, SectionMembers};
use routing::peer::{ConnectionInfo, P2pNode, Peer, PublicId};
use routing::proof_chain::SectionProofChain;
use routing::section::EldersInfo;
use routing::service::{NetworkParams, NetworkService, OutboundMessage, ParsecMap, Timer};
use routing::shared_state::FullId;
use routing::xor_space::{Prefix, XorName};
use threshold_crypto::{SecretKey, SecretKeySet};

fn name(first: u8) -> XorName {
    let mut arr = [0u8; 32];
    arr[0] = first;
    XorName(arr)
}

fn peer(first: u8) -> Peer {
    Peer::new(name(first), ConnectionInfo { ip: first as u32, port: 1 })
}

#[test]
fn proof_chain_grows_only_with_valid_links() {
    let sk0 = SecretKey::random();
    let sk1 = SecretKey::random();
    let k0 = sk0.public_key().to_bytes().to_vec();
    let k1 = sk1.public_key().to_bytes().to_vec();

    let mut chain = SectionProofChain::new(k0.clone());
    assert_eq!(chain.last_key_index(), 0);

    // A link not signed by the previous key is refused; the chain is kept.
    let bad_sig = sk1.sign(&k1).to_bytes().to_vec();
    assert!(!chain.push(k1.clone(), bad_sig));
    assert_eq!(chain.last_key_index(), 0);

    // A link signed by the previous key extends the chain.
    let good_sig = sk0.sign(&k1).to_bytes().to_vec();
    assert!(chain.push(k1.clone(), good_sig));
    assert_eq!(chain.last_key_index(), 1);
    assert!(chain.has_key(&k1));
    assert!(chain.has_key(&k0));
    assert!(chain.validate_links());
}

#[test]
fn proof_chain_prunes_from_the_head() {
    let sk0 = SecretKey::random();
    let sk1 = SecretKey::random();
    let k0 = sk0.public_key().to_bytes().to_vec();
    let k1 = sk1.public_key().to_bytes().to_vec();

    let mut chain = SectionProofChain::new(k0.clone());
    let sig = sk0.sign(&k1).to_bytes().to_vec();
    assert!(chain.push(k1.clone(), sig));

    // Pruning more than the chain holds is refused.
    assert!(!chain.prune_head(2));
    // Pruning one key drops the old genesis key.
    assert!(chain.prune_head(1));
    assert_eq!(chain.last_key_index(), 0);
    assert!(chain.has_key(&k1));
    assert!(!chain.has_key(&k0));
}

fn single_elder_info(elder: Peer) -> EldersInfo {
    EldersInfo::new(Prefix::empty(), vec![elder]).expect("one elder is ordered")
}

fn make_adult(our: Peer, section_key: Vec<u8>, parsec_version: u64) -> Adult {
    let details = AdultDetails {
        network_service: NetworkService::new(),
        event_backlog: Vec::new(),
        full_id: FullId { public_id: PublicId { name: our.name } },
        gen_pfx_info: GenesisPfxInfo {
            elders_info: single_elder_info(our),
            section_key,
            parsec_version,
        },
        routing_msg_backlog: Vec::new(),
        direct_msg_backlog: Vec::new(),
        sig_accumulator: SignatureAccumulator::new(3),
        routing_msg_filter: RoutingMessageFilter::new(),
        timer: Timer::new(),
        network_cfg: NetworkParams::new(),
    };
    Adult::new(details, ParsecMap::new(0)).expect("adult")
}

fn genesis_update_msg(
    our: Peer,
    new_key: &SecretKey,
    new_key_index: u64,
    parsec_version: u64,
) -> SignedRoutingMessage {
    let new_key_bytes = new_key.public_key().to_bytes().to_vec();
    let content = RoutingMessage {
        src: SrcLocation::Section(Prefix::empty()),
        dst: DstLocation::Node(our.name),
        content: MessageContent::GenesisUpdate(GenesisPfxInfo {
            elders_info: single_elder_info(our),
            section_key: new_key_bytes.clone(),
            parsec_version,
        }),
    };
    let payload = encode_routing_msg(&content);
    let signature = new_key.sign(&payload).to_bytes().to_vec();
    SignedRoutingMessage {
        content,
        src_section_key: new_key_bytes.clone(),
        src_key_index: new_key_index,
        proof_chain: SectionProofChain::new(new_key_bytes),
        signature,
    }
}

#[test]
fn too_new_message_is_buffered_and_replayed() {
    // A message signed under the next key arrives before the key extension:
    // it is buffered.  When the extension arrives, the buffered message is
    // delivered in the same turn.
    let sk0 = SecretKey::random();
    let sk1 = SecretKey::random();
    let our = peer(1);
    let mut adult = make_adult(our, sk0.public_key().to_bytes().to_vec(), 1);

    let msg = genesis_update_msg(our, &sk1, 1, 2);
    let transition = adult.handle_signed_message(&msg).expect("buffered");
    assert!(matches!(transition, routing::states::Transition::Stay));
    assert_eq!(adult.routing_msg_backlog.len(), 1);
    assert_eq!(adult.gen_pfx_info.parsec_version, 1);

    // The extension signed by the old key arrives.
    let k1 = sk1.public_key().to_bytes().to_vec();
    let link_sig = sk0.sign(&k1).to_bytes().to_vec();
    assert!(adult.extend_trust(k1, link_sig));

    // Replaying the backlog delivers the genesis update in this same turn.
    adult.process_routing_backlog().expect("replayed");
    assert_eq!(adult.gen_pfx_info.parsec_version, 2);
    assert_eq!(adult.routing_msg_backlog.len(), 0);
}

#[test]
fn broken_signature_is_rejected() {
    let sk0 = SecretKey::random();
    let sk1 = SecretKey::random();
    let our = peer(1);
    let mut adult = make_adult(our, sk0.public_key().to_bytes().to_vec(), 1);

    let mut msg = genesis_update_msg(our, &sk0, 0, 2);
    // Forge the signature: it no longer covers the payload.
    msg.signature = sk1.sign(b"something else").to_bytes().to_vec();
    match adult.handle_signed_message(&msg) {
        Err(e) => assert_eq!(e, routing::error::RoutingError::BadSignature),
        Ok(_) => panic!("forged message accepted"),
    }
}

#[test]
fn processing_a_message_twice_changes_nothing() {
    // Routing idempotence: handling the same signed message twice has the
    // same observable effect as handling it once.
    let sk0 = SecretKey::random();
    let our = peer(1);
    let mut adult = make_adult(our, sk0.public_key().to_bytes().to_vec(), 1);

    let content = RoutingMessage {
        src: SrcLocation::Section(Prefix::empty()),
        dst: DstLocation::Node(our.name),
        content: MessageContent::UserMessage(b"hello".to_vec()),
    };
    let payload = encode_routing_msg(&content);
    let signature = sk0.sign(&payload).to_bytes().to_vec();
    let key = sk0.public_key().to_bytes().to_vec();
    let msg = SignedRoutingMessage {
        content,
        src_section_key: key.clone(),
        src_key_index: 0,
        proof_chain: SectionProofChain::new(key),
        signature,
    };

    adult.handle_signed_message(&msg).expect("first handling");
    let backlog_after_first = adult.routing_msg_backlog.len();
    let queue_after_first = adult.network_service.send_queue.len();

    let transition = adult.handle_signed_message(&msg).expect("second handling");
    assert!(matches!(transition, routing::states::Transition::Stay));
    assert_eq!(adult.routing_msg_backlog.len(), backlog_after_first);
    assert_eq!(adult.network_service.send_queue.len(), queue_after_first);
}

#[test]
fn genesis_update_with_old_version_changes_nothing() {
    let sk0 = SecretKey::random();
    let our = peer(1);
    let mut adult = make_adult(our, sk0.public_key().to_bytes().to_vec(), 5);
    let gen = GenesisPfxInfo {
        elders_info: single_elder_info(our),
        section_key: sk0.public_key().to_bytes().to_vec(),
        parsec_version: 5,
    };
    let transition = adult.handle_genesis_update(gen).expect("stays");
    assert!(matches!(transition, routing::states::Transition::Stay));
    assert_eq!(adult.gen_pfx_info.parsec_version, 5);
}

#[test]
fn relocation_age_doubles() {
    // A member of age four relocates successfully: the resulting record in
    // the new section has age eight; a second relocation yields sixteen.
    let first = MemberInfo::joined(peer(1), 4);
    assert_eq!(first.age, 4);
    let second = first.relocated(peer(2));
    assert_eq!(second.age, 8);
    let third = second.relocated(peer(3));
    assert_eq!(third.age, 16);
}

#[test]
fn member_states_move_forward_only() {
    let mut members = SectionMembers::new();
    assert!(members.add_joined(peer(1), 4));
    // A second online event for the same name changes nothing.
    assert!(!members.add_joined(peer(1), 4));
    assert!(members.set_relocating(&name(1), name(9)));
    // A relocating member cannot be marked relocating again.
    assert!(!members.set_relocating(&name(1), name(9)));
    assert!(members.set_left(&name(1)));
    let entry = members.get(&name(1)).expect("tombstone persists");
    assert!(matches!(entry.state, MemberState::Left));
}

#[test]
fn untrusted_message_with_stale_index_is_refused() {
    // A message anchored at an unknown key that does not even claim a newer
    // key index is not buffered: it is untrusted.
    let sk0 = SecretKey::random();
    let sk1 = SecretKey::random();
    let our = peer(1);
    let mut adult = make_adult(our, sk0.public_key().to_bytes().to_vec(), 1);

    let msg = genesis_update_msg(our, &sk1, 0, 2);
    match adult.handle_signed_message(&msg) {
        Err(e) => assert_eq!(e, routing::error::RoutingError::UntrustedMessage),
        Ok(_) => panic!("untrusted message accepted"),
    }
    assert_eq!(adult.routing_msg_backlog.len(), 0);
}

#[test]
fn malformed_committee_in_genesis_update_is_refused() {
    let sk0 = SecretKey::random();
    let our = peer(1);
    let mut adult = make_adult(our, sk0.public_key().to_bytes().to_vec(), 1);
    // Elders out of order make the committee record malformed.
    let bad_info = routing::section::EldersInfo {
        prefix: Prefix::empty(),
        elders: vec![peer(9), peer(3)],
    };
    let gen = GenesisPfxInfo {
        elders_info: bad_info,
        section_key: sk0.public_key().to_bytes().to_vec(),
        parsec_version: 2,
    };
    match adult.handle_genesis_update(gen) {
        Err(e) => assert_eq!(e, routing::error::RoutingError::InvalidSource),
        Ok(_) => panic!("malformed committee accepted"),
    }
}

#[test]
fn bootstrap_request_is_answered_with_join_or_redirect() {
    let sk0 = SecretKey::random();
    let our = peer(1);
    let mut adult = make_adult(our, sk0.public_key().to_bytes().to_vec(), 1);
    let joiner = P2pNode::new(PublicId { name: name(9) }, ConnectionInfo { ip: 9, port: 9 });

    // Our empty prefix matches every destination: the joiner is invited.
    adult.handle_bootstrap_request(joiner, name(9));
    assert_eq!(adult.network_service.send_queue.len(), 1);
    let (conn, msg) = &adult.network_service.send_queue[0];
    assert_eq!(conn.ip, 9);
    match msg {
        OutboundMessage::Direct(DirectMessage::BootstrapResponse(BootstrapResponse::Join(
            info,
        ))) => {
            assert_eq!(info.elders.len(), 1);
        }
        _ => panic!("expected an invitation"),
    }
}

#[test]
fn relocation_instruction_for_us_is_obeyed() {
    let sk0 = SecretKey::random();
    let our = peer(1);
    let mut adult = make_adult(our, sk0.public_key().to_bytes().to_vec(), 1);

    let details = RelocateDetails {
        pub_id: PublicId { name: our.name },
        destination: name(0xF0),
        age: 8,
    };
    let payload = routing::messages::encode_relocate_details(&details);
    let signature = sk0.sign(&payload).to_bytes().to_vec();
    let signed = SignedRelocateDetails { content: details, signature };

    match adult.handle_relocate(signed) {
        routing::states::Transition::Relocate { details, conn_infos } => {
            assert_eq!(details.content.destination, name(0xF0));
            assert_eq!(conn_infos.len(), 1);
        }
        _ => panic!("expected a relocation"),
    }
    // The peer registry was cleared for the move.
    assert_eq!(adult.network_service.peer_map.peers.len(), 0);
}

#[test]
fn relocation_for_someone_else_is_ignored() {
    let sk0 = SecretKey::random();
    let our = peer(1);
    let mut adult = make_adult(our, sk0.public_key().to_bytes().to_vec(), 1);

    let details = RelocateDetails {
        pub_id: PublicId { name: name(42) },
        destination: name(0xF0),
        age: 8,
    };
    let payload = routing::messages::encode_relocate_details(&details);
    let signature = sk0.sign(&payload).to_bytes().to_vec();
    let signed = SignedRelocateDetails { content: details, signature };
    assert!(matches!(adult.handle_relocate(signed), routing::states::Transition::Stay));
}

#[test]
fn adult_lifecycle_moves_its_state_over() {
    let sk0 = SecretKey::random();
    let our = peer(1);
    let adult = make_adult(our, sk0.public_key().to_bytes().to_vec(), 1);
    assert_eq!(adult.our_prefix().bit_count, 0);
    assert_eq!(adult.closest_known_elders_to(&name(5)).len(), 1);
    assert!(!adult.has_unpolled_observations());
    assert_eq!(adult.unpolled_observations_string(), "unpolled observations: 0");

    let paused = adult.pause();
    let resumed = Adult::resume(paused, Timer::new());
    assert_eq!(resumed.gen_pfx_info.parsec_version, 1);

    match resumed.into_elder(Prefix::empty()).expect("promoted") {
        routing::states::State::Elder(elder) => {
            assert_eq!(elder.routing_msg_filter.incoming.len(), 0);
        }
        _ => panic!("expected an elder"),
    }
}

#[test]
fn rebootstrap_draws_a_name_inside_our_prefix() {
    let sk0 = SecretKey::random();
    let our = peer(1);
    let adult = make_adult(our, sk0.public_key().to_bytes().to_vec(), 1);
    let prefix = *adult.our_prefix();
    match adult.rebootstrap().expect("restarts") {
        routing::states::State::BootstrappingPeer(b) => {
            assert!(prefix.matches(&b.full_id.public_id.name));
            assert!(b.relocation.is_none());
        }
        _ => panic!("expected a bootstrapping peer"),
    }
}

#[test]
fn finishing_a_transition_replays_the_backlog() {
    // Same buffering scenario, driven through the transition finish: the
    // buffered genesis update is delivered in the same call once the key
    // extension is trusted.
    let mut rng = rand::thread_rng();
    let pk_set = SecretKeySet::random(2, &mut rng).public_keys();
    let sk0 = SecretKey::random();
    let sk1 = SecretKey::random();
    let our = peer(1);
    let mut adult = make_adult(our, sk0.public_key().to_bytes().to_vec(), 1);

    let msg = genesis_update_msg(our, &sk1, 1, 2);
    adult.handle_signed_message(&msg).expect("buffered");
    assert_eq!(adult.routing_msg_backlog.len(), 1);

    let k1 = sk1.public_key().to_bytes().to_vec();
    let link_sig = sk0.sign(&k1).to_bytes().to_vec();
    assert!(adult.extend_trust(k1, link_sig));

    let transition = adult.finish_handle_transition(&pk_set, 0);
    assert!(matches!(transition, routing::states::Transition::Stay));
    assert_eq!(adult.gen_pfx_info.parsec_version, 2);
    assert_eq!(adult.routing_msg_backlog.len(), 0);
}
