//! Delivery groups and signature targets.

use routing::delivery_group::{delivery_group_size, delivery_targets, signature_targets};
use routing::location::DstLocation;
use routing::members::SectionMembers;
use routing::peer::{ConnectionInfo, Peer};
use routing::section::{EldersInfo, Proof, Proven};
use routing::section_map::SectionMap;
use routing::xor_space::{Prefix, XorName};

fn name(first: u8, second: u8) -> XorName {
    let mut arr = [0u8; 32];
    arr[0] = first;
    arr[1] = second;
    XorName(arr)
}

fn peer(first: u8, second: u8) -> Peer {
    Peer::new(name(first, second), ConnectionInfo { ip: first as u32, port: second as u16 })
}

fn proven(info: EldersInfo) -> Proven<EldersInfo> {
    Proven::new(info, Proof { public_key: Vec::new(), signature: Vec::new() })
}

/// Seven elders under the empty prefix, with distinct, ordered names.
fn seven_elders() -> Vec<Peer> {
    let mut elders = Vec::new();
    for i in 0..7u8 {
        elders.push(peer(i * 32, i));
    }
    elders
}

#[test]
fn delivery_group_size_is_third_rounded_up() {
    assert_eq!(delivery_group_size(0), 0);
    assert_eq!(delivery_group_size(1), 1);
    assert_eq!(delivery_group_size(2), 1);
    assert_eq!(delivery_group_size(3), 1);
    assert_eq!(delivery_group_size(4), 2);
    assert_eq!(delivery_group_size(6), 2);
    assert_eq!(delivery_group_size(7), 3);
    assert_eq!(delivery_group_size(9), 3);
    assert_eq!(delivery_group_size(10), 4);
}

#[test]
fn signature_targets_returns_the_closest_third() {
    // Quorum on a trivial section: seven elders, delivery_group_size(7) is
    // three, and the three returned are the closest to the destination.
    let elders = seven_elders();
    let dst_name = name(0xFF, 0);
    let dst = DstLocation::Section(dst_name);
    let targets = signature_targets(&dst, elders.clone());
    assert_eq!(targets.len(), 3);
    // The three closest to 0xFF... among first bytes {0,32,...,192} are the
    // largest first bytes: 192, 160, 128.
    assert_eq!(targets[0].name.0[0], 192);
    assert_eq!(targets[1].name.0[0], 160);
    assert_eq!(targets[2].name.0[0], 128);
}

#[test]
fn signature_targets_empty_for_direct() {
    let elders = seven_elders();
    let targets = signature_targets(&DstLocation::Direct, elders);
    assert_eq!(targets.len(), 0);
}

#[test]
fn closest_section_returns_all_other_own_elders() {
    // Closest-section short-circuit: our prefix contains the target, so the
    // delivery targets are all six other own-section elders and the quorum
    // equals six.
    let elders = seven_elders();
    let our_id = elders[0].name;
    let info = EldersInfo::new(Prefix::empty(), elders).expect("ordered elders");
    let sections = SectionMap::genesis(proven(info));
    let members = SectionMembers::new();
    let target = name(3, 3);
    let (targets, dg_size) =
        delivery_targets(&DstLocation::Section(target), &our_id, &members, &sections)
            .expect("routable");
    assert_eq!(targets.len(), 6);
    assert_eq!(dg_size, 6);
    assert!(targets.iter().all(|p| p.name != our_id));
}

#[test]
fn neighbour_section_gets_all_its_elders() {
    // Our prefix is "00"; the target lies under the neighbour "1", which
    // has seven elders.  The closest section is a neighbour of ours, so all
    // of its elders are returned and the quorum is their count.
    let zero = Prefix::empty();
    let p0 = zero.pushed(false);
    let p00 = p0.pushed(false);
    let p1 = zero.pushed(true);

    let mut our_elders = Vec::new();
    for i in 0..3u8 {
        our_elders.push(peer(i, i));
    }
    let our_id = our_elders[0].name;
    let our_info = EldersInfo::new(p00, our_elders).expect("ordered elders");

    let mut neighbour_elders = Vec::new();
    for i in 0..7u8 {
        neighbour_elders.push(peer(0b1000_0000 | (i * 8), i));
    }
    let neighbour_info = EldersInfo::new(p1, neighbour_elders).expect("ordered elders");

    let mut sections = SectionMap::genesis(proven(
        EldersInfo::new(Prefix::empty(), Vec::new()).expect("empty is ordered"),
    ));
    sections.our = proven(our_info);
    sections.neighbours.push(proven(neighbour_info));

    let members = SectionMembers::new();
    let target = name(0b1100_0000, 0);
    let (targets, dg_size) =
        delivery_targets(&DstLocation::Section(target), &our_id, &members, &sections)
            .expect("routable");
    assert_eq!(targets.len(), 7);
    assert_eq!(dg_size, 7);
}

#[test]
fn distant_section_gets_its_closest_third() {
    // Relay towards a distant section: our prefix is "00" and the target
    // lies under "11", which is not a neighbour of ours.  The candidates
    // are that section's seven elders, the quorum a third of them rounded
    // up, and they come out sorted closest-first.
    let zero = Prefix::empty();
    let p0 = zero.pushed(false);
    let p00 = p0.pushed(false);
    let p01 = p0.pushed(true);
    let p1 = zero.pushed(true);
    let p10 = p1.pushed(false);
    let p11 = p1.pushed(true);

    let mut our_elders = Vec::new();
    for i in 0..3u8 {
        our_elders.push(peer(i, i));
    }
    let our_id = our_elders[0].name;
    let our_info = EldersInfo::new(p00, our_elders).expect("ordered elders");

    let one_elder_01 = vec![peer(0b0100_0000, 1)];
    let one_elder_10 = vec![peer(0b1000_0000, 1)];
    let mut elders_11 = Vec::new();
    for i in 0..7u8 {
        elders_11.push(peer(0b1100_0000 | (i * 4), i));
    }

    let mut sections = SectionMap::genesis(proven(
        EldersInfo::new(Prefix::empty(), Vec::new()).expect("empty is ordered"),
    ));
    sections.our = proven(our_info);
    sections.neighbours.push(proven(EldersInfo::new(p01, one_elder_01).expect("ordered")));
    sections.neighbours.push(proven(EldersInfo::new(p10, one_elder_10).expect("ordered")));
    sections.neighbours.push(proven(EldersInfo::new(p11, elders_11).expect("ordered")));

    let members = SectionMembers::new();
    let target = name(0b1100_0000, 0);
    let (targets, dg_size) =
        delivery_targets(&DstLocation::Section(target), &our_id, &members, &sections)
            .expect("routable");
    assert_eq!(dg_size, 3);
    assert_eq!(targets.len(), 7);
    for w in targets.windows(2) {
        let d0 = w[0].name.0[0] ^ 0b1100_0000u8;
        let d1 = w[1].name.0[0] ^ 0b1100_0000u8;
        assert!(d0 <= d1);
    }
}

#[test]
fn node_destination_of_self_needs_no_targets() {
    let elders = seven_elders();
    let our_id = elders[0].name;
    let info = EldersInfo::new(Prefix::empty(), elders).expect("ordered elders");
    let sections = SectionMap::genesis(proven(info));
    let members = SectionMembers::new();
    let (targets, dg_size) =
        delivery_targets(&DstLocation::Node(our_id), &our_id, &members, &sections)
            .expect("routable");
    assert_eq!(targets.len(), 0);
    assert_eq!(dg_size, 0);
}

#[test]
fn known_node_is_the_single_target() {
    let elders = seven_elders();
    let our_id = elders[0].name;
    let other = elders[3].name;
    let info = EldersInfo::new(Prefix::empty(), elders).expect("ordered elders");
    let sections = SectionMap::genesis(proven(info));
    let members = SectionMembers::new();
    let (targets, dg_size) =
        delivery_targets(&DstLocation::Node(other), &our_id, &members, &sections)
            .expect("routable");
    assert_eq!(targets.len(), 1);
    assert_eq!(dg_size, 1);
    assert_eq!(targets[0].name, other);
}

#[test]
fn direct_destination_cannot_route() {
    let elders = seven_elders();
    let our_id = elders[0].name;
    let info = EldersInfo::new(Prefix::empty(), elders).expect("ordered elders");
    let sections = SectionMap::genesis(proven(info));
    let members = SectionMembers::new();
    let err = delivery_targets(&DstLocation::Direct, &our_id, &members, &sections).unwrap_err();
    assert_eq!(err, routing::error::RoutingError::CannotRoute);
}

#[test]
fn non_elder_relays_through_all_own_elders() {
    let elders = seven_elders();
    let outsider = name(7, 7);
    let info = EldersInfo::new(Prefix::empty(), elders).expect("ordered elders");
    let sections = SectionMap::genesis(proven(info));
    let members = SectionMembers::new();
    let (targets, dg_size) =
        delivery_targets(&DstLocation::Section(name(1, 1)), &outsider, &members, &sections)
            .expect("routable");
    assert_eq!(targets.len(), 7);
    assert_eq!(dg_size, 7);
}
