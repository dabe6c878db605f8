//! The canonical binary encoding of routing records.
//!
//! Deterministic: fields in declared order, fixed-width integers big-endian,
//! variable-length vectors length-prefixed with a 32-bit unsigned count.
//! Signature verification interoperates because two implementations encode
//! the same record byte-identically.

use vstd::prelude::*;
use crate::location::DstLocation;
use crate::location::SrcLocation;
use crate::peer::ConnectionInfo;
use crate::peer::Peer;
use crate::section::EldersInfo;
use crate::xor_space::Prefix;
use crate::xor_space::XorName;

verus! {

/// The two bytes of a 16-bit integer, big-endian.
pub open spec fn spec_u16_be(x: u16) -> Seq<u8> {
    seq![(x >> 8) as u8, x as u8]
}

/// The four bytes of a 32-bit integer, big-endian.
pub open spec fn spec_u32_be(x: u32) -> Seq<u8> {
    seq![(x >> 24) as u8, (x >> 16) as u8, (x >> 8) as u8, x as u8]
}

/// The eight bytes of a 64-bit integer, big-endian.
pub open spec fn spec_u64_be(x: u64) -> Seq<u8> {
    seq![
        (x >> 56) as u8,
        (x >> 48) as u8,
        (x >> 40) as u8,
        (x >> 32) as u8,
        (x >> 24) as u8,
        (x >> 16) as u8,
        (x >> 8) as u8,
        x as u8,
    ]
}

/// A byte string, length-prefixed with its 32-bit count.
pub open spec fn spec_encode_bytes(b: Seq<u8>) -> Seq<u8>
    recommends
        b.len() < 0x1_0000_0000,
{
    spec_u32_be(b.len() as u32) + b
}

/// A prefix: its length, then its name bytes.
pub open spec fn spec_encode_prefix(p: Prefix) -> Seq<u8> {
    spec_u16_be(p.bit_count as u16) + p.name@
}

/// A transport address: address, then port.
pub open spec fn spec_encode_conn(c: ConnectionInfo) -> Seq<u8> {
    spec_u32_be(c.ip) + spec_u16_be(c.port)
}

/// A peer: its name, then its address.
pub open spec fn spec_encode_peer(p: Peer) -> Seq<u8> {
    p.name@ + spec_encode_conn(p.addr)
}

/// The concatenated encodings of a peer list.
pub open spec fn spec_encode_peer_list(s: Seq<Peer>) -> Seq<u8>
    decreases s.len(),
{
    if s.len() == 0 {
        Seq::empty()
    } else {
        spec_encode_peer_list(s.drop_last()) + spec_encode_peer(s.last())
    }
}

/// A committee identity: its prefix, then its count-prefixed elder list.
pub open spec fn spec_encode_elders_info(e: EldersInfo) -> Seq<u8>
    recommends
        e.elders@.len() < 0x1_0000_0000,
{
    spec_encode_prefix(e.prefix) + spec_u32_be(e.elders@.len() as u32) + spec_encode_peer_list(
        e.elders@,
    )
}

/// A source location: a tag byte, then the name or prefix.
pub open spec fn spec_encode_src(s: SrcLocation) -> Seq<u8> {
    match s {
        SrcLocation::Node(n) => seq![0u8] + n@,
        SrcLocation::Section(p) => seq![1u8] + spec_encode_prefix(p),
    }
}

/// A destination location: a tag byte, then the name when there is one.
pub open spec fn spec_encode_dst(d: DstLocation) -> Seq<u8> {
    match d {
        DstLocation::Node(n) => seq![0u8] + n@,
        DstLocation::Section(n) => seq![1u8] + n@,
        DstLocation::Direct => seq![2u8],
    }
}

/// Appends the two bytes of a 16-bit integer, big-endian.
pub fn encode_u16_be(out: &mut Vec<u8>, x: u16)
    ensures
        final(out)@ == old(out)@ + spec_u16_be(x),
{
    out.push((x >> 8) as u8);
    out.push(x as u8);
    proof {
        assert(final(out)@ =~= old(out)@ + spec_u16_be(x));
    }
}

/// Appends the four bytes of a 32-bit integer, big-endian.
pub fn encode_u32_be(out: &mut Vec<u8>, x: u32)
    ensures
        final(out)@ == old(out)@ + spec_u32_be(x),
{
    out.push((x >> 24) as u8);
    out.push((x >> 16) as u8);
    out.push((x >> 8) as u8);
    out.push(x as u8);
    proof {
        assert(final(out)@ =~= old(out)@ + spec_u32_be(x));
    }
}

/// Appends the eight bytes of a 64-bit integer, big-endian.
pub fn encode_u64_be(out: &mut Vec<u8>, x: u64)
    ensures
        final(out)@ == old(out)@ + spec_u64_be(x),
{
    out.push((x >> 56) as u8);
    out.push((x >> 48) as u8);
    out.push((x >> 40) as u8);
    out.push((x >> 32) as u8);
    out.push((x >> 24) as u8);
    out.push((x >> 16) as u8);
    out.push((x >> 8) as u8);
    out.push(x as u8);
    proof {
        assert(final(out)@ =~= old(out)@ + spec_u64_be(x));
    }
}

/// Appends the raw bytes of a name.
pub fn encode_name(out: &mut Vec<u8>, n: &XorName)
    ensures
        final(out)@ == old(out)@ + n@,
{
    let mut i: usize = 0;
    while i < 32
        invariant
            i <= 32,
            out@ == old(out)@ + n@.take(i as int),
        decreases 32 - i,
    {
        out.push(n.0[i]);
        proof {
            assert(out@ =~= old(out)@ + n@.take(i + 1));
        }
        i += 1;
    }
    proof {
        assert(n@.take(32) =~= n@);
    }
}

/// Appends a count-prefixed byte string.
pub fn encode_bytes(out: &mut Vec<u8>, b: &Vec<u8>)
    requires
        b@.len() < 0x1_0000_0000,
    ensures
        final(out)@ == old(out)@ + spec_encode_bytes(b@),
{
    encode_u32_be(out, b.len() as u32);
    let mut i: usize = 0;
    while i < b.len()
        invariant
            i <= b@.len(),
            b@.len() < 0x1_0000_0000,
            out@ == old(out)@ + spec_u32_be(b@.len() as u32) + b@.take(i as int),
        decreases b@.len() - i,
    {
        out.push(b[i]);
        proof {
            assert(out@ =~= old(out)@ + spec_u32_be(b@.len() as u32) + b@.take(i + 1));
        }
        i += 1;
    }
    proof {
        assert(b@.take(b@.len() as int) =~= b@);
        assert(out@ =~= old(out)@ + spec_encode_bytes(b@));
    }
}

/// Appends a prefix.
pub fn encode_prefix(out: &mut Vec<u8>, p: &Prefix)
    requires
        p.bit_count <= 256,
    ensures
        final(out)@ == old(out)@ + spec_encode_prefix(*p),
{
    encode_u16_be(out, p.bit_count as u16);
    encode_name(out, &p.name);
    proof {
        assert(out@ =~= old(out)@ + spec_encode_prefix(*p));
    }
}

/// Appends a transport address.
pub fn encode_conn(out: &mut Vec<u8>, c: &ConnectionInfo)
    ensures
        final(out)@ == old(out)@ + spec_encode_conn(*c),
{
    encode_u32_be(out, c.ip);
    encode_u16_be(out, c.port);
    proof {
        assert(out@ =~= old(out)@ + spec_encode_conn(*c));
    }
}

/// Appends a peer.
pub fn encode_peer(out: &mut Vec<u8>, p: &Peer)
    ensures
        final(out)@ == old(out)@ + spec_encode_peer(*p),
{
    encode_name(out, &p.name);
    encode_conn(out, &p.addr);
    proof {
        assert(out@ =~= old(out)@ + spec_encode_peer(*p));
    }
}

/// Appends a committee identity.
pub fn encode_elders_info(out: &mut Vec<u8>, e: &EldersInfo)
    requires
        e.prefix.bit_count <= 256,
        e.elders@.len() < 0x1_0000_0000,
    ensures
        final(out)@ == old(out)@ + spec_encode_elders_info(*e),
{
    encode_prefix(out, &e.prefix);
    encode_u32_be(out, e.elders.len() as u32);
    let mut i: usize = 0;
    proof {
        assert(spec_encode_peer_list(e.elders@.take(0)) =~= Seq::<u8>::empty());
        assert(out@ =~= old(out)@ + spec_encode_prefix(e.prefix) + spec_u32_be(
            e.elders@.len() as u32,
        ) + spec_encode_peer_list(e.elders@.take(0)));
    }
    while i < e.elders.len()
        invariant
            i <= e.elders@.len(),
            e.elders@.len() < 0x1_0000_0000,
            out@ == old(out)@ + spec_encode_prefix(e.prefix) + spec_u32_be(e.elders@.len() as u32)
                + spec_encode_peer_list(e.elders@.take(i as int)),
        decreases e.elders@.len() - i,
    {
        encode_peer(out, &e.elders[i]);
        proof {
            assert(e.elders@.take(i + 1).drop_last() =~= e.elders@.take(i as int));
            assert(e.elders@.take(i + 1).last() == e.elders@[i as int]);
            assert(out@ =~= old(out)@ + spec_encode_prefix(e.prefix) + spec_u32_be(
                e.elders@.len() as u32,
            ) + spec_encode_peer_list(e.elders@.take(i + 1)));
        }
        i += 1;
    }
    proof {
        assert(e.elders@.take(e.elders@.len() as int) =~= e.elders@);
        assert(out@ =~= old(out)@ + spec_encode_elders_info(*e));
    }
}

} // verus!
