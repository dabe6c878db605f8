//! Routing messages: signed section-to-section messages, one-hop direct
//! messages, trust verification against the proof chain, and the
//! deduplication filter.

use vstd::prelude::*;
use crate::bytes_util::bytes_eq;
use crate::codec::spec_encode_bytes;
use crate::codec::spec_encode_dst;
use crate::codec::spec_encode_elders_info;
use crate::codec::spec_encode_src;
use crate::codec::spec_u64_be;
use crate::codec::encode_bytes;
use crate::codec::encode_elders_info;
use crate::codec::encode_u64_be;
use crate::crypto::bls_verifies;
use crate::crypto::bls_verify;
use crate::error::RoutingError;
use crate::location::DstLocation;
use crate::location::SrcLocation;
use crate::peer::ConnectionInfo;
use crate::proof_chain::SectionProofChain;
use crate::section::EldersInfo;
use crate::xor_space::XorName;

verus! {

/// How many digests the deduplication filter retains.
pub const FILTER_CAP: usize = 1000;

/// The snapshot an adult starts from: the committee it belongs to, and the
/// consensus instance version it joins.
pub struct GenesisPfxInfo {
    pub elders_info: EldersInfo,
    pub section_key: Vec<u8>,
    pub parsec_version: u64,
}

/// The payload of a routed message.
pub enum MessageContent {
    /// A newer genesis snapshot, sent by elders to their adults.
    GenesisUpdate(GenesisPfxInfo),
    /// An application payload for the destination.
    UserMessage(Vec<u8>),
}

/// A routed message: where it comes from, where it goes, and what it says.
pub struct RoutingMessage {
    pub src: SrcLocation,
    pub dst: DstLocation,
    pub content: MessageContent,
}

/// A routed message together with the section key it was signed under, that
/// key's claimed index, the proof chain that links it to a trusted key, and
/// the section signature itself.
pub struct SignedRoutingMessage {
    pub content: RoutingMessage,
    pub src_section_key: Vec<u8>,
    pub src_key_index: u64,
    pub proof_chain: SectionProofChain,
    pub signature: Vec<u8>,
}

/// The outcome of the trust check on a signed message.
#[derive(Clone, Copy, Debug, PartialEq, Eq, Structural)]
pub enum VerifyStatus {
    /// The message can be trusted.
    Full,
    /// The message is signed under a key newer than what we know.
    ProofTooNew,
}

/// A one-hop control message between two connected peers.
pub enum DirectMessage {
    /// One elder's signature share over a signed message.
    MessageSignature { digest: Vec<u8>, index: u64, share: Vec<u8>, msg: SignedRoutingMessage },
    /// A consensus protocol request.
    ParsecRequest(u64, Vec<u8>),
    /// A consensus protocol response.
    ParsecResponse(u64, Vec<u8>),
    /// A joining node asking for the section responsible for a name.
    BootstrapRequest(XorName),
    /// The answer to a bootstrap request.
    BootstrapResponse(BootstrapResponse),
    /// An acknowledgement of a new connection.
    ConnectionResponse,
    /// An instruction to relocate, signed by the section.
    Relocate(SignedRelocateDetails),
    /// A joining node asking for admission under a section key.
    JoinRequest(Vec<u8>),
    /// A member reporting how far its knowledge reaches.
    MemberKnowledge { section_key_index: u64, parsec_version: u64 },
}

/// The answer to a bootstrap request.
pub enum BootstrapResponse {
    /// The joining node may ask this committee for admission.
    Join(EldersInfo),
    /// The joining node should restart bootstrap against these peers.
    Rebootstrap(Vec<ConnectionInfo>),
}

/// Where a member is told to move, and who it is.
pub struct RelocateDetails {
    pub pub_id: crate::peer::PublicId,
    pub destination: XorName,
    pub age: u8,
}

/// Relocation details covered by a section signature.
pub struct SignedRelocateDetails {
    pub content: RelocateDetails,
    pub signature: Vec<u8>,
}

/// The canonical bytes of a message payload.
pub open spec fn spec_encode_content(c: MessageContent) -> Seq<u8> {
    match c {
        MessageContent::GenesisUpdate(g) => seq![0u8] + spec_encode_elders_info(g.elders_info)
            + spec_encode_bytes(g.section_key@) + spec_u64_be(g.parsec_version),
        MessageContent::UserMessage(b) => seq![1u8] + spec_encode_bytes(b@),
    }
}

/// The canonical bytes of a routed message: source, destination, payload.
pub open spec fn spec_encode_routing_msg(m: RoutingMessage) -> Seq<u8> {
    spec_encode_src(m.src) + spec_encode_dst(m.dst) + spec_encode_content(m.content)
}

/// Whether the payload's fields fit the wire format's counters.
pub open spec fn spec_content_encodable(c: MessageContent) -> bool {
    match c {
        MessageContent::GenesisUpdate(g) => g.elders_info.prefix.bit_count <= 256
            && g.elders_info.elders@.len() < 0x1_0000_0000 && g.section_key@.len()
            < 0x1_0000_0000,
        MessageContent::UserMessage(b) => b@.len() < 0x1_0000_0000,
    }
}

/// Whether the message's fields fit the wire format's counters.
pub open spec fn spec_encodable(m: RoutingMessage) -> bool {
    &&& spec_content_encodable(m.content)
    &&& match m.src {
        SrcLocation::Section(p) => p.bit_count <= 256,
        SrcLocation::Node(_) => true,
    }
}

/// Appends the canonical bytes of a message payload.
pub fn encode_content(out: &mut Vec<u8>, c: &MessageContent)
    requires
        spec_content_encodable(*c),
    ensures
        final(out)@ == old(out)@ + spec_encode_content(*c),
{
    match c {
        MessageContent::GenesisUpdate(g) => {
            out.push(0u8);
            encode_elders_info(out, &g.elders_info);
            encode_bytes(out, &g.section_key);
            encode_u64_be(out, g.parsec_version);
            proof {
                assert(out@ =~= old(out)@ + spec_encode_content(*c));
            }
        },
        MessageContent::UserMessage(b) => {
            out.push(1u8);
            encode_bytes(out, b);
            proof {
                assert(out@ =~= old(out)@ + spec_encode_content(*c));
            }
        },
    }
}

/// Appends the canonical bytes of a source location.
pub fn encode_src(out: &mut Vec<u8>, s: &SrcLocation)
    requires
        match *s {
            SrcLocation::Section(p) => p.bit_count <= 256,
            SrcLocation::Node(_) => true,
        },
    ensures
        final(out)@ == old(out)@ + spec_encode_src(*s),
{
    match s {
        SrcLocation::Node(n) => {
            out.push(0u8);
            crate::codec::encode_name(out, n);
        },
        SrcLocation::Section(p) => {
            out.push(1u8);
            crate::codec::encode_prefix(out, p);
        },
    }
    proof {
        assert(out@ =~= old(out)@ + spec_encode_src(*s));
    }
}

/// Appends the canonical bytes of a destination location.
pub fn encode_dst(out: &mut Vec<u8>, d: &DstLocation)
    ensures
        final(out)@ == old(out)@ + spec_encode_dst(*d),
{
    match d {
        DstLocation::Node(n) => {
            out.push(0u8);
            crate::codec::encode_name(out, n);
        },
        DstLocation::Section(n) => {
            out.push(1u8);
            crate::codec::encode_name(out, n);
        },
        DstLocation::Direct => {
            out.push(2u8);
        },
    }
    proof {
        assert(out@ =~= old(out)@ + spec_encode_dst(*d));
    }
}

/// The canonical bytes of a routed message.
pub fn encode_routing_msg(m: &RoutingMessage) -> (r: Vec<u8>)
    requires
        spec_encodable(*m),
    ensures
        r@ == spec_encode_routing_msg(*m),
{
    let mut out: Vec<u8> = Vec::new();
    encode_src(&mut out, &m.src);
    encode_dst(&mut out, &m.dst);
    encode_content(&mut out, &m.content);
    proof {
        assert(out@ =~= spec_encode_routing_msg(*m));
    }
    out
}

impl SignedRoutingMessage {
    /// Whether the message's section signature is valid under its claimed
    /// section key.
    pub open spec fn spec_signature_valid(self) -> bool {
        bls_verifies(
            self.src_section_key@,
            self.signature@,
            spec_encode_routing_msg(self.content),
        )
    }

    /// Whether the message's proof chain is internally valid and ends in the
    /// claimed section key.
    pub open spec fn spec_links_valid(self) -> bool {
        &&& self.proof_chain.wf()
        &&& self.proof_chain.spec_key_at(self.proof_chain.key_count() - 1) == self.src_section_key@
    }

    /// The trust check.  The message is `Full`y trusted when its signature
    /// and proof chain are valid and the chain starts at a key we already
    /// trust.  A valid message anchored at an unknown key is `ProofTooNew`
    /// when it claims a key index beyond our chain, and untrusted otherwise;
    /// a message whose signature or chain is broken fails the signature
    /// check.
    pub fn verify(&self, trusted: &SectionProofChain) -> (r: Result<VerifyStatus, RoutingError>)
        requires
            spec_encodable(self.content),
        ensures
            ({
                let anchored = trusted.spec_has_key(self.proof_chain.spec_key_at(0));
                let sound = self.spec_signature_valid() && self.spec_links_valid();
                if !sound {
                    r == Err::<VerifyStatus, RoutingError>(RoutingError::BadSignature)
                } else if anchored {
                    r == Ok::<VerifyStatus, RoutingError>(VerifyStatus::Full)
                } else if self.src_key_index > trusted.key_count() - 1 {
                    r == Ok::<VerifyStatus, RoutingError>(VerifyStatus::ProofTooNew)
                } else {
                    r == Err::<VerifyStatus, RoutingError>(RoutingError::UntrustedMessage)
                }
            }),
    {
        let payload = encode_routing_msg(&self.content);
        if !bls_verify(&self.src_section_key, &self.signature, &payload) {
            return Err(RoutingError::BadSignature);
        }
        if !self.proof_chain.validate_links() {
            return Err(RoutingError::BadSignature);
        }
        if !bytes_eq(self.proof_chain.last_key(), &self.src_section_key) {
            return Err(RoutingError::BadSignature);
        }
        let genesis = crate::bytes_util::copy_bytes(&self.proof_chain.genesis_key);
        proof {
            assert(genesis@ == self.proof_chain.spec_key_at(0));
        }
        if trusted.has_key(&genesis) {
            return Ok(VerifyStatus::Full);
        }
        if self.src_key_index > trusted.last_key_index() as u64 {
            Ok(VerifyStatus::ProofTooNew)
        } else {
            Err(RoutingError::UntrustedMessage)
        }
    }
}

/// Whether some retained digest equals the given bytes.
pub open spec fn spec_digest_known(seen: Seq<Vec<u8>>, d: Seq<u8>) -> bool {
    exists|i: int| 0 <= i < seen.len() && (#[trigger] seen[i])@ == d
}

/// The deduplication filter: bounded lists of the digests of handled
/// incoming messages, and of (digest, recipient) pairs already sent.
/// Eviction cannot cause incorrectness, only retransmission.
pub struct RoutingMessageFilter {
    pub incoming: Vec<Vec<u8>>,
    pub outgoing: Vec<(Vec<u8>, XorName)>,
}

impl RoutingMessageFilter {
    /// An empty filter.
    pub fn new() -> (r: RoutingMessageFilter)
        ensures
            r.incoming@.len() == 0,
            r.outgoing@.len() == 0,
    {
        RoutingMessageFilter { incoming: Vec::new(), outgoing: Vec::new() }
    }

    /// Records an incoming message digest.  Returns whether it was new; a
    /// digest already retained changes nothing.  When the store is full the
    /// oldest digest is evicted.
    pub fn filter_incoming(&mut self, digest: &Vec<u8>) -> (is_new: bool)
        ensures
            is_new == !spec_digest_known(old(self).incoming@, digest@),
            !is_new ==> *final(self) == *old(self),
            is_new ==> final(self).incoming@.last()@ == digest@ && spec_digest_known(
                final(self).incoming@,
                digest@,
            ) && final(self).outgoing@ == old(self).outgoing@,
    {
        let mut i: usize = 0;
        while i < self.incoming.len()
            invariant
                i <= self.incoming@.len(),
                forall|j: int| 0 <= j < i ==> (#[trigger] self.incoming@[j])@ != digest@,
            decreases self.incoming@.len() - i,
        {
            if bytes_eq(&self.incoming[i], digest) {
                return false;
            }
            i += 1;
        }
        if self.incoming.len() >= FILTER_CAP {
            let _ = self.incoming.remove(0);
        }
        self.incoming.push(crate::bytes_util::copy_bytes(digest));
        proof {
            let last = final(self).incoming@.len() - 1;
            assert(final(self).incoming@[last]@ == digest@);
        }
        true
    }

    /// Records that a message digest was sent to a recipient.  Returns
    /// whether the pair was new.
    pub fn filter_outgoing(&mut self, digest: &Vec<u8>, recipient: &XorName) -> (is_new: bool)
        ensures
            is_new == !(exists|i: int|
                0 <= i < old(self).outgoing@.len() && (#[trigger] old(self).outgoing@[i].0)@
                    == digest@ && old(self).outgoing@[i].1@ == recipient@),
            !is_new ==> *final(self) == *old(self),
            is_new ==> final(self).incoming@ == old(self).incoming@,
    {
        let mut i: usize = 0;
        while i < self.outgoing.len()
            invariant
                i <= self.outgoing@.len(),
                forall|j: int|
                    0 <= j < i ==> !((#[trigger] self.outgoing@[j].0)@ == digest@
                        && self.outgoing@[j].1@ == recipient@),
            decreases self.outgoing@.len() - i,
        {
            if bytes_eq(&self.outgoing[i].0, digest) && self.outgoing[i].1 == *recipient {
                return false;
            }
            i += 1;
        }
        if self.outgoing.len() >= FILTER_CAP {
            let _ = self.outgoing.remove(0);
        }
        self.outgoing.push((crate::bytes_util::copy_bytes(digest), *recipient));
        true
    }
}

/// The canonical bytes of relocation details.
pub open spec fn spec_encode_relocate(d: RelocateDetails) -> Seq<u8> {
    d.pub_id.name@ + d.destination@ + seq![d.age]
}

/// The canonical bytes of relocation details.
pub fn encode_relocate_details(d: &RelocateDetails) -> (r: Vec<u8>)
    ensures
        r@ == spec_encode_relocate(*d),
{
    let mut out: Vec<u8> = Vec::new();
    crate::codec::encode_name(&mut out, &d.pub_id.name);
    crate::codec::encode_name(&mut out, &d.destination);
    out.push(d.age);
    proof {
        assert(out@ =~= spec_encode_relocate(*d));
    }
    out
}

/// The keys of a proof chain, oldest first.
pub open spec fn chain_keys(c: SectionProofChain) -> Seq<Seq<u8>> {
    Seq::new(c.key_count() as nat, |i: int| c.spec_key_at(i))
}

/// What a signed message says, abstractly: its payload bytes, the claimed
/// key and index, its signature, and the keys of its proof chain.
pub open spec fn srm_view(m: SignedRoutingMessage) -> (Seq<u8>, Seq<u8>, u64, Seq<u8>, Seq<
    Seq<u8>,
>) {
    (
        spec_encode_routing_msg(m.content),
        m.src_section_key@,
        m.src_key_index,
        m.signature@,
        chain_keys(m.proof_chain),
    )
}

/// The digest under which a signed message is deduplicated: its payload
/// bytes followed by its signature bytes.
pub open spec fn spec_digest(m: SignedRoutingMessage) -> Seq<u8> {
    spec_encode_routing_msg(m.content) + m.signature@
}

/// Computes the deduplication digest of a signed message.
pub fn digest_of(m: &SignedRoutingMessage) -> (r: Vec<u8>)
    requires
        spec_encodable(m.content),
    ensures
        r@ == spec_digest(*m),
{
    let mut out = encode_routing_msg(&m.content);
    let mut i: usize = 0;
    while i < m.signature.len()
        invariant
            i <= m.signature@.len(),
            out@ == spec_encode_routing_msg(m.content) + m.signature@.take(i as int),
        decreases m.signature@.len() - i,
    {
        out.push(m.signature[i]);
        proof {
            assert(out@ =~= spec_encode_routing_msg(m.content) + m.signature@.take(i + 1));
        }
        i += 1;
    }
    proof {
        assert(m.signature@.take(m.signature@.len() as int) =~= m.signature@);
    }
    out
}

/// Copies a payload.
pub fn copy_content(c: &MessageContent) -> (r: MessageContent)
    ensures
        spec_encode_content(r) == spec_encode_content(*c),
        spec_content_encodable(r) == spec_content_encodable(*c),
        r is GenesisUpdate <==> c is GenesisUpdate,
{
    match c {
        MessageContent::GenesisUpdate(g) => {
            let copied = GenesisPfxInfo {
                elders_info: EldersInfo {
                    prefix: g.elders_info.prefix,
                    elders: crate::section::copy_peers(&g.elders_info.elders),
                },
                section_key: crate::bytes_util::copy_bytes(&g.section_key),
                parsec_version: g.parsec_version,
            };
            let r = MessageContent::GenesisUpdate(copied);
            proof {
                assert(spec_encode_content(r) =~= spec_encode_content(*c));
            }
            r
        },
        MessageContent::UserMessage(b) => {
            let r = MessageContent::UserMessage(crate::bytes_util::copy_bytes(b));
            proof {
                assert(spec_encode_content(r) =~= spec_encode_content(*c));
            }
            r
        },
    }
}

/// Copies a proof chain.
pub fn copy_chain(c: &SectionProofChain) -> (r: SectionProofChain)
    ensures
        chain_keys(r) == chain_keys(*c),
        r.wf() == c.wf(),
{
    let genesis_key = crate::bytes_util::copy_bytes(&c.genesis_key);
    let mut blocks: Vec<crate::proof_chain::SectionProofBlock> = Vec::new();
    let mut i: usize = 0;
    while i < c.blocks.len()
        invariant
            i <= c.blocks@.len(),
            blocks@.len() == i,
            forall|j: int|
                #![trigger blocks@[j]]
                0 <= j < i ==> blocks@[j].key@ == c.blocks@[j].key@ && blocks@[j].signature@
                    == c.blocks@[j].signature@,
        decreases c.blocks@.len() - i,
    {
        let b = crate::proof_chain::SectionProofBlock {
            key: crate::bytes_util::copy_bytes(&c.blocks[i].key),
            signature: crate::bytes_util::copy_bytes(&c.blocks[i].signature),
        };
        let ghost pre = blocks@;
        blocks.push(b);
        proof {
            assert forall|j: int| #![trigger blocks@[j]] 0 <= j < i + 1 implies blocks@[j].key@
                == c.blocks@[j].key@ && blocks@[j].signature@ == c.blocks@[j].signature@ by {
                if j < i {
                    assert(blocks@[j] == pre[j]);
                }
            }
        }
        i += 1;
    }
    let r = SectionProofChain { genesis_key, blocks };
    proof {
        assert forall|k: int| 0 <= k < r.key_count() implies r.spec_key_at(k) == c.spec_key_at(
            k,
        ) by {}
        assert(chain_keys(r) =~= chain_keys(*c));
        assert forall|j: int|
            0 <= j < r.blocks@.len() implies crate::crypto::bls_verifies(
            r.spec_key_at(j),
            (#[trigger] r.blocks@[j].signature)@,
            r.blocks@[j].key@,
        ) == crate::crypto::bls_verifies(
            c.spec_key_at(j),
            c.blocks@[j].signature@,
            c.blocks@[j].key@,
        ) by {}
        if c.wf() {
            assert(r.wf());
        }
        if r.wf() {
            assert forall|j: int|
                0 <= j < c.blocks@.len() implies crate::crypto::bls_verifies(
                c.spec_key_at(j),
                (#[trigger] c.blocks@[j].signature)@,
                c.blocks@[j].key@,
            ) by {
                assert(crate::crypto::bls_verifies(
                    r.spec_key_at(j),
                    r.blocks@[j].signature@,
                    r.blocks@[j].key@,
                ));
            }
        }
    }
    r
}

/// Copies a signed message.
pub fn copy_signed_msg(m: &SignedRoutingMessage) -> (r: SignedRoutingMessage)
    ensures
        srm_view(r) == srm_view(*m),
        spec_encodable(r.content) == spec_encodable(m.content),
{
    let content = RoutingMessage {
        src: m.content.src,
        dst: m.content.dst,
        content: copy_content(&m.content.content),
    };
    let r = SignedRoutingMessage {
        content,
        src_section_key: crate::bytes_util::copy_bytes(&m.src_section_key),
        src_key_index: m.src_key_index,
        proof_chain: copy_chain(&m.proof_chain),
        signature: crate::bytes_util::copy_bytes(&m.signature),
    };
    proof {
        assert(spec_encode_routing_msg(r.content) =~= spec_encode_routing_msg(m.content));
    }
    r
}

impl RoutingMessageFilter {
    /// Whether a (digest, recipient) pair is already retained.
    pub fn outgoing_contains(&self, digest: &Vec<u8>, recipient: &XorName) -> (r: bool)
        ensures
            r == exists|i: int|
                0 <= i < self.outgoing@.len() && (#[trigger] self.outgoing@[i].0)@ == digest@
                    && self.outgoing@[i].1@ == recipient@,
    {
        let mut i: usize = 0;
        while i < self.outgoing.len()
            invariant
                i <= self.outgoing@.len(),
                forall|j: int|
                    0 <= j < i ==> !((#[trigger] self.outgoing@[j].0)@ == digest@
                        && self.outgoing@[j].1@ == recipient@),
            decreases self.outgoing@.len() - i,
        {
            if bytes_eq(&self.outgoing[i].0, digest) && self.outgoing[i].1 == *recipient {
                return true;
            }
            i += 1;
        }
        false
    }
}

/// Copies a genesis snapshot.
pub fn copy_genesis(g: &GenesisPfxInfo) -> (r: GenesisPfxInfo)
    ensures
        r.elders_info.prefix == g.elders_info.prefix,
        r.elders_info.elders@ == g.elders_info.elders@,
        r.section_key@ == g.section_key@,
        r.parsec_version == g.parsec_version,
        r.elders_info.wf() == g.elders_info.wf(),
{
    GenesisPfxInfo {
        elders_info: EldersInfo {
            prefix: g.elders_info.prefix,
            elders: crate::section::copy_peers(&g.elders_info.elders),
        },
        section_key: crate::bytes_util::copy_bytes(&g.section_key),
        parsec_version: g.parsec_version,
    }
}

/// Whether a signed message's fields fit the wire format's counters.
pub fn is_encodable(m: &SignedRoutingMessage) -> (r: bool)
    ensures
        r == spec_encodable(m.content),
{
    let content_ok = match &m.content.content {
        MessageContent::GenesisUpdate(g) => g.elders_info.prefix.bit_count <= 256
            && (g.elders_info.elders.len() as u64) < 0x1_0000_0000u64 && (
        g.section_key.len() as u64) < 0x1_0000_0000u64,
        MessageContent::UserMessage(b) => (b.len() as u64) < 0x1_0000_0000u64,
    };
    let src_ok = match &m.content.src {
        SrcLocation::Section(p) => p.bit_count <= 256,
        SrcLocation::Node(_) => true,
    };
    content_ok && src_ok
}

} // verus!
