//! Source and destination locations of routed messages.

use vstd::prelude::*;
use crate::xor_space::Prefix;
use crate::xor_space::XorName;

verus! {

/// The destination of a routed message.
#[derive(Clone, Copy, Debug)]
pub enum DstLocation {
    /// A single node.
    Node(XorName),
    /// The whole section responsible for a name.
    Section(XorName),
    /// A one-hop peer-to-peer control message.
    Direct,
}

impl DstLocation {
    /// Whether a node with the given name and section prefix lies in this
    /// destination.
    pub open spec fn spec_contains(self, our_name: XorName, our_prefix: Prefix) -> bool {
        match self {
            DstLocation::Node(n) => n@ == our_name@,
            DstLocation::Section(n) => our_prefix.spec_matches(n@),
            DstLocation::Direct => true,
        }
    }

    /// Whether a node with the given name and section prefix lies in this
    /// destination.
    pub fn contains(&self, our_name: &XorName, our_prefix: &Prefix) -> (r: bool)
        requires
            our_prefix.bit_count <= 256,
        ensures
            r == self.spec_contains(*our_name, *our_prefix),
    {
        match self {
            DstLocation::Node(n) => n == our_name,
            DstLocation::Section(n) => our_prefix.matches(n),
            DstLocation::Direct => true,
        }
    }

    /// Whether the destination is a whole section.
    pub fn is_section(&self) -> (r: bool)
        ensures
            r == (self is Section),
    {
        match self {
            DstLocation::Section(_) => true,
            _ => false,
        }
    }
}

/// The source of a routed message.
#[derive(Clone, Copy, Debug)]
pub enum SrcLocation {
    /// A single node.
    Node(XorName),
    /// A section, acting collectively.
    Section(Prefix),
}

} // verus!
