//! The section map partition, genesis creation, and the node stages.

use routing::event::Event;
use routing::location::DstLocation;
use routing::peer::{ConnectionInfo, Peer};
use routing::section::{EldersInfo, Proof, Proven};
use routing::section_map::SectionMap;
use routing::service::NetworkParams;
use routing::shared_state::SharedState;
use routing::stage::{
    create_first_elders_info, create_first_shared_state, Approved, Bootstrapping, Keypair,
    NodeInfo, Stage, StageState,
};
use routing::xor_space::{Prefix, XorName};
use threshold_crypto::SecretKeySet;

fn name(first: u8) -> XorName {
    let mut arr = [0u8; 32];
    arr[0] = first;
    XorName(arr)
}

fn peer(first: u8) -> Peer {
    Peer::new(name(first), ConnectionInfo { ip: first as u32, port: 1 })
}

fn proven(info: EldersInfo) -> Proven<EldersInfo> {
    Proven::new(info, Proof { public_key: Vec::new(), signature: Vec::new() })
}

#[test]
fn split_partitions_the_name_space() {
    // The union of our prefix and the neighbour prefixes covers the whole
    // name space, and no name lies under two known prefixes - checked here
    // on sample names across a split.
    let genesis_info = EldersInfo::new(Prefix::empty(), vec![peer(1)]).expect("ordered");
    let mut map = SectionMap::genesis(proven(genesis_info));

    let zero = Prefix::empty();
    let p0 = zero.pushed(false);
    let p1 = zero.pushed(true);
    let our_new = EldersInfo::new(p0, vec![peer(1)]).expect("ordered");
    let sibling = EldersInfo::new(p1, vec![peer(0b1000_0001)]).expect("ordered");
    assert!(map.split_our(proven(our_new), proven(sibling)));

    let samples = [name(0), name(1), name(0x7F), name(0x80), name(0xFF)];
    for n in &samples {
        let mut hits = 0;
        for i in 0..(1 + map.neighbours.len()) {
            if map.section_at(i).prefix.matches(n) {
                hits += 1;
            }
        }
        assert_eq!(hits, 1);
    }
}

#[test]
fn split_is_refused_when_prefixes_do_not_fit() {
    let genesis_info = EldersInfo::new(Prefix::empty(), vec![peer(1)]).expect("ordered");
    let mut map = SectionMap::genesis(proven(genesis_info));
    let zero = Prefix::empty();
    let p0 = zero.pushed(false);
    // Both halves ending in the same bit do not split the region.
    let a = EldersInfo::new(p0, vec![peer(1)]).expect("ordered");
    let b = EldersInfo::new(p0, vec![peer(2)]).expect("ordered");
    assert!(!map.split_our(proven(a), proven(b)));
    assert_eq!(map.neighbours.len(), 0);
}

#[test]
fn first_node_state_is_a_whole_section_of_one() {
    let mut rng = rand::thread_rng();
    let sk_set = SecretKeySet::random(0, &mut rng);
    let pk_set = sk_set.public_keys();
    let share = sk_set.secret_key_share(0);
    let us = peer(7);

    let elders_info = create_first_elders_info(&pk_set, &share, us).expect("signed");
    // The genesis proof covers the canonical bytes of the committee record.
    let mut payload = Vec::new();
    routing::codec::encode_elders_info(&mut payload, &elders_info.value);
    assert!(routing::crypto::bls_verify(
        &elders_info.proof.public_key,
        &elders_info.proof.signature,
        &payload,
    ));

    let state: SharedState =
        create_first_shared_state(&pk_set, &share, elders_info).expect("state");
    assert_eq!(state.our_members.members.len(), 1);
    assert_eq!(state.our_members.members[0].age, routing::section::MIN_AGE);
    assert_eq!(state.our_history.last_key_index(), 0);
    assert_eq!(state.sections.neighbours.len(), 0);
}

#[test]
fn stage_identifies_itself_in_logs() {
    let mut arr = [0u8; 32];
    arr[0] = 0xAB;
    arr[1] = 0xCD;
    arr[2] = 0xEF;
    let keypair = Keypair { public: XorName(arr) };
    let node_info =
        NodeInfo { keypair, network_params: NetworkParams::new(), events: Vec::new() };
    let stage = Stage { state: StageState::Bootstrapping(Bootstrapping { node_info }) };
    assert_eq!(stage.log_ident(), "abcdef(?) ");
    assert_eq!(stage.name().0[0], 0xAB);
    assert!(stage.approved().is_none());
    assert!(stage.our_prefix().is_none());
}

#[test]
fn approved_elder_log_shows_prefix_and_key_index() {
    let mut rng = rand::thread_rng();
    let sk_set = SecretKeySet::random(0, &mut rng);
    let pk_set = sk_set.public_keys();
    let share = sk_set.secret_key_share(0);
    let mut arr = [0u8; 32];
    arr[0] = 0xAB;
    arr[1] = 0xCD;
    arr[2] = 0xEF;
    let us = Peer::new(XorName(arr), ConnectionInfo { ip: 1, port: 1 });
    let elders_info = create_first_elders_info(&pk_set, &share, us).expect("signed");
    let shared_state =
        create_first_shared_state(&pk_set, &share, elders_info).expect("state");
    let keypair = Keypair { public: XorName(arr) };
    let node_info =
        NodeInfo { keypair, network_params: NetworkParams::new(), events: Vec::new() };
    let stage = Stage { state: StageState::Approved(Approved { node_info, shared_state }) };
    // An elder of the empty prefix at key index zero.
    assert_eq!(stage.log_ident(), "abcdef(v0!) ");
}

#[test]
fn stage_queues_events_for_the_embedder() {
    let keypair = Keypair { public: name(1) };
    let node_info =
        NodeInfo { keypair, network_params: NetworkParams::new(), events: Vec::new() };
    let mut stage = Stage { state: StageState::Bootstrapping(Bootstrapping { node_info }) };
    stage.send_event(Event::Connected);
    stage.send_event(Event::TimerTicked);
    match &stage.state {
        StageState::Bootstrapping(b) => {
            assert_eq!(b.node_info.events.len(), 2);
            assert!(matches!(b.node_info.events[0], Event::Connected));
        }
        _ => panic!("stage changed"),
    }
}

#[test]
fn events_describe_themselves() {
    let e = Event::Consensus(vec![0xDE, 0xAD]);
    assert_eq!(e.describe(), "Consensus dead");
    let n = Event::NodeAdded(name(0x01));
    assert_eq!(n.describe(), "NodeAdded 010000");
    assert_eq!(Event::Terminated.describe(), "Terminated");
}

#[test]
fn in_dst_location_decides_handling_and_relaying() {
    let keypair = Keypair { public: name(1) };
    let node_info =
        NodeInfo { keypair, network_params: NetworkParams::new(), events: Vec::new() };
    let stage = Stage { state: StageState::Bootstrapping(Bootstrapping { node_info }) };
    // While bootstrapping: only direct messages and our own name reach us,
    // and nothing is relayed.
    assert_eq!(stage.in_dst_location(&DstLocation::Node(name(1))), (true, false));
    assert_eq!(stage.in_dst_location(&DstLocation::Node(name(2))), (false, false));
    assert_eq!(stage.in_dst_location(&DstLocation::Section(name(1))), (false, false));
    assert_eq!(stage.in_dst_location(&DstLocation::Direct), (true, false));
}
