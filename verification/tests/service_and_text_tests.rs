//! The peer registry, timers, the deduplication filter, and text rendering.

use routing::messages::RoutingMessageFilter;
use routing::peer::{ConnectionInfo, P2pNode, PublicId};
use routing::service::{PeerMap, Timer};
use routing::text::{append_decimal, append_hex};
use routing::xor_space::XorName;

fn name(first: u8) -> XorName {
    let mut arr = [0u8; 32];
    arr[0] = first;
    XorName(arr)
}

fn node(first: u8, port: u16) -> P2pNode {
    P2pNode::new(PublicId { name: name(first) }, ConnectionInfo { ip: first as u32, port })
}

#[test]
fn peer_map_keeps_one_record_per_name() {
    let mut map = PeerMap::new();
    map.insert(node(1, 10));
    map.insert(node(2, 20));
    // Reinserting a name replaces its address: a peer may reconnect.
    map.insert(node(1, 30));
    assert_eq!(map.peers.len(), 2);
    let found = map.lookup(&name(1)).expect("known peer");
    assert_eq!(found.conn_info.port, 30);
    assert!(map.remove(&name(1)));
    assert!(!map.remove(&name(1)));
    assert!(map.lookup(&name(1)).is_none());
}

#[test]
fn timer_tokens_increase_monotonically() {
    let mut timer = Timer::new();
    let a = timer.schedule(100);
    let b = timer.schedule(200);
    assert_eq!(a, 0);
    assert_eq!(b, 1);
    let pending = timer.take_pending();
    assert_eq!(pending, vec![(0, 100), (1, 200)]);
    assert_eq!(timer.take_pending(), vec![]);
    // Tokens never restart after a drain.
    assert_eq!(timer.schedule(50), 2);
}

#[test]
fn filter_remembers_incoming_digests() {
    let mut filter = RoutingMessageFilter::new();
    let digest = vec![1u8, 2, 3];
    assert!(filter.filter_incoming(&digest));
    assert!(!filter.filter_incoming(&digest));
    let other = vec![4u8];
    assert!(filter.filter_incoming(&other));
}

#[test]
fn filter_remembers_outgoing_pairs() {
    let mut filter = RoutingMessageFilter::new();
    let digest = vec![1u8, 2, 3];
    assert!(filter.filter_outgoing(&digest, &name(1)));
    assert!(!filter.filter_outgoing(&digest, &name(1)));
    // The same digest towards another recipient is new.
    assert!(filter.filter_outgoing(&digest, &name(2)));
}

#[test]
fn decimal_rendering_is_exact() {
    let mut out = String::new();
    append_decimal(&mut out, 0);
    assert_eq!(out, "0");
    let mut out = String::new();
    append_decimal(&mut out, 10240);
    assert_eq!(out, "10240");
    let mut out = String::new();
    append_decimal(&mut out, u64::MAX);
    assert_eq!(out, "18446744073709551615");
}

#[test]
fn hex_rendering_is_exact() {
    let mut out = String::new();
    append_hex(&mut out, &vec![0x00, 0x0F, 0xA5, 0xFF]);
    assert_eq!(out, "000fa5ff");
}
