//! Peers: names bound to transport addresses.

use vstd::prelude::*;
use crate::xor_space::XorName;

verus! {

/// A transport address, as the core reads it: an IPv4 address and a port.
#[derive(Clone, Copy, Debug, PartialEq, Eq, Structural)]
pub struct ConnectionInfo {
    pub ip: u32,
    pub port: u16,
}

/// A peer of the network: uniquely identified by its name; the address may
/// change across reconnects.
#[derive(Clone, Copy, Debug)]
pub struct Peer {
    pub name: XorName,
    pub addr: ConnectionInfo,
}

impl Peer {
    /// Creates a peer record.
    pub fn new(name: XorName, addr: ConnectionInfo) -> (r: Peer)
        ensures
            r.name == name,
            r.addr == addr,
    {
        Peer { name, addr }
    }

    /// The peer's name.
    pub fn name(&self) -> (r: &XorName)
        ensures
            r == self.name,
    {
        &self.name
    }

    /// The peer's transport address.
    pub fn connection_info(&self) -> (r: &ConnectionInfo)
        ensures
            r == self.addr,
    {
        &self.addr
    }
}

/// The public identity of a node, as the routing logic reads it.
#[derive(Clone, Copy, Debug)]
pub struct PublicId {
    pub name: XorName,
}

impl PublicId {
    /// The name derived from this identity.
    pub fn name(&self) -> (r: &XorName)
        ensures
            r == self.name,
    {
        &self.name
    }
}

/// A node known by identity and transport address.
#[derive(Clone, Copy, Debug)]
pub struct P2pNode {
    pub public_id: PublicId,
    pub conn_info: ConnectionInfo,
}

impl P2pNode {
    /// Creates a node record.
    pub fn new(public_id: PublicId, conn_info: ConnectionInfo) -> (r: P2pNode)
        ensures
            r.public_id == public_id,
            r.conn_info == conn_info,
    {
        P2pNode { public_id, conn_info }
    }

    /// The node's name.
    pub fn name(&self) -> (r: &XorName)
        ensures
            r == self.public_id.name,
    {
        &self.public_id.name
    }

    /// The node's identity.
    pub fn public_id(&self) -> (r: &PublicId)
        ensures
            r == self.public_id,
    {
        &self.public_id
    }

    /// The node's transport address.
    pub fn connection_info(&self) -> (r: &ConnectionInfo)
        ensures
            r == self.conn_info,
    {
        &self.conn_info
    }
}

} // verus!
