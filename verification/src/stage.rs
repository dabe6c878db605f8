//! The stages a node passes through during its lifetime - bootstrapping,
//! joining, approved - and the creation of the very first node's state.

use vstd::prelude::*;
use crate::bytes_util::copy_bytes;
use crate::codec::encode_elders_info;
use crate::crypto::bls_combine_signatures;
use crate::crypto::bls_public_key;
use crate::crypto::bls_sign_share;
use crate::error::RoutingError;
use crate::event::Event;
use crate::location::DstLocation;
use crate::section::MIN_AGE;
use crate::members::SectionMembers;
use crate::peer::Peer;
use crate::proof_chain::SectionProofChain;
use crate::section::EldersInfo;
use crate::section::Proof;
use crate::section::Proven;
use crate::section_map::SectionMap;
use crate::service::NetworkParams;
use crate::shared_state::SharedState;
use crate::text::append_decimal;
use crate::text::append_hex;
use crate::text::spec_decimal_string;
use crate::text::spec_hex;
use crate::xor_space::Prefix;
use crate::xor_space::XorName;
use crate::xor_space::name_bit;

verus! {

/// The identity keys of a node, as the routing logic reads them: the name
/// is the public key; the secret half stays with the embedder.
#[derive(Clone, Copy, Debug)]
pub struct Keypair {
    pub public: XorName,
}

/// The name derived from a public key.
pub fn name_of(public: &XorName) -> (r: XorName)
    ensures
        r@ == public@,
{
    *public
}

/// A node's own information: its keys, the network parameters, and the
/// events not yet handed to the embedder.
pub struct NodeInfo {
    pub keypair: Keypair,
    pub network_params: NetworkParams,
    pub events: Vec<Event>,
}

impl NodeInfo {
    /// The node's name.
    pub fn name(&self) -> (r: XorName)
        ensures
            r@ == self.keypair.public@,
    {
        name_of(&self.keypair.public)
    }

    /// Queues an event for the embedder, which drains the queue through the
    /// event stream.
    pub fn send_event(&mut self, event: Event)
        ensures
            final(self).events@ == old(self).events@.push(event),
            final(self).keypair == old(self).keypair,
            final(self).network_params == old(self).network_params,
    {
        self.events.push(event);
    }
}

/// A node searching for any contactable peer.
pub struct Bootstrapping {
    pub node_info: NodeInfo,
}

/// A node asking a specific section for admission.
pub struct Joining {
    pub node_info: NodeInfo,
    pub target_section: EldersInfo,
}

impl Joining {
    /// The committee this node is asking for admission.
    pub fn target_section_elders_info(&self) -> (r: &EldersInfo)
        ensures
            r == self.target_section,
    {
        &self.target_section
    }
}

/// A participating node, with the authoritative section state.
pub struct Approved {
    pub node_info: NodeInfo,
    pub shared_state: SharedState,
}

impl Approved {
    /// Whether the name stands in our own committee.
    pub fn is_our_elder(&self, name: &XorName) -> (r: bool)
        ensures
            r == self.shared_state.sections.our.value.spec_contains_elder(name@),
    {
        self.shared_state.sections.is_elder(name)
    }
}

/// Which stage the node is in.
pub enum StageState {
    /// Discovering a contactable peer.
    Bootstrapping(Bootstrapping),
    /// Asking a section for admission.
    Joining(Joining),
    /// Participating.
    Approved(Approved),
}

/// The node's current stage, which gives access to the current info and
/// triggers operations.
pub struct Stage {
    pub state: StageState,
}

impl Stage {
    /// The approved stage, when the node is in it.
    pub fn approved(&self) -> (r: Option<&Approved>)
        ensures
            match r {
                Some(a) => self.state is Approved && a == self.state->Approved_0,
                None => !(self.state is Approved),
            },
    {
        match &self.state {
            StageState::Approved(stage) => Some(stage),
            _ => None,
        }
    }

    /// Queues an event for the embedder, which drains the queue through the
    /// event stream.
    pub fn send_event(&mut self, event: Event)
        ensures
            final(self).node_info_spec().events@ == old(self).node_info_spec().events@.push(
                event,
            ),
            final(self).node_info_spec().keypair == old(self).node_info_spec().keypair,
    {
        match &mut self.state {
            StageState::Bootstrapping(state) => state.node_info.send_event(event),
            StageState::Joining(state) => state.node_info.send_event(event),
            StageState::Approved(state) => state.node_info.send_event(event),
        }
    }

    /// The node's own information, whichever stage it is in.
    pub open spec fn node_info_spec(self) -> NodeInfo {
        match self.state {
            StageState::Bootstrapping(s) => s.node_info,
            StageState::Joining(s) => s.node_info,
            StageState::Approved(s) => s.node_info,
        }
    }

    /// The node's current keys.
    pub fn keypair(&self) -> (r: &Keypair)
        ensures
            r == self.node_info_spec().keypair,
    {
        &self.node_info().keypair
    }

    /// The node's name.
    pub fn name(&self) -> (r: XorName)
        ensures
            r@ == self.node_info_spec().keypair.public@,
    {
        self.node_info().name()
    }

    /// Our prefix, once we are part of a section.
    pub fn our_prefix(&self) -> (r: Option<&Prefix>)
        ensures
            match r {
                Some(p) => self.state is Approved && p
                    == self.state->Approved_0.shared_state.sections.our.value.prefix,
                None => !(self.state is Approved),
            },
    {
        match &self.state {
            StageState::Approved(stage) => Some(stage.shared_state.our_prefix()),
            _ => None,
        }
    }

    /// Whether a message's destination covers this node, and whether the
    /// message must also be relayed onwards: a message is relayed when it is
    /// not for us, or when it is for our whole section.
    pub fn in_dst_location(&self, dst: &DstLocation) -> (r: (bool, bool))
        requires
            self.state is Approved ==> self.state->Approved_0.shared_state.sections.our.value.prefix.bit_count <= 256,
        ensures
            ({
                let (in_dst, relay) = r;
                match self.state {
                    StageState::Bootstrapping(_) | StageState::Joining(_) => {
                        &&& in_dst == (match *dst {
                            DstLocation::Node(n) => n@ == self.node_info_spec().keypair.public@,
                            DstLocation::Section(_) => false,
                            DstLocation::Direct => true,
                        })
                        &&& relay == false
                    },
                    StageState::Approved(a) => {
                        &&& in_dst == dst.spec_contains(
                            self.node_info_spec().keypair.public,
                            a.shared_state.sections.our.value.prefix,
                        )
                        &&& relay == (!in_dst || dst is Section)
                    },
                }
            }),
    {
        match &self.state {
            StageState::Bootstrapping(_) | StageState::Joining(_) => {
                let in_dst = match dst {
                    DstLocation::Node(name) => name == &self.node_info().name(),
                    DstLocation::Section(_) => false,
                    DstLocation::Direct => true,
                };
                (in_dst, false)
            },
            StageState::Approved(stage) => {
                let name = stage.node_info.name();
                let in_dst = dst.contains(&name, stage.shared_state.our_prefix());
                let relay = !in_dst || dst.is_section();
                (in_dst, relay)
            },
        }
    }

    fn node_info(&self) -> (r: &NodeInfo)
        ensures
            r == self.node_info_spec(),
    {
        match &self.state {
            StageState::Bootstrapping(state) => &state.node_info,
            StageState::Joining(state) => &state.node_info,
            StageState::Approved(state) => &state.node_info,
        }
    }

    /// The line identifying this node in its log: its name, and what it
    /// knows of its place in the network.
    pub fn log_ident(&self) -> (r: String)
        requires
            self.state is Approved ==> self.state->Approved_0.shared_state.sections.our.value.prefix.wf(),
            self.state is Joining ==> self.state->Joining_0.target_section.prefix.bit_count <= 256,
        ensures
            r@ == spec_log_ident(*self),
    {
        let mut out = String::new();
        proof {
            reveal_strlit("(?) ");
            reveal_strlit("(");
            reveal_strlit("?) ");
            reveal_strlit("v");
            reveal_strlit("!) ");
            reveal_strlit(") ");
        }
        match &self.state {
            StageState::Bootstrapping(state) => {
                let name_bytes = name_bytes_vec(&state.node_info.keypair.public);
                append_hex(&mut out, &name_bytes);
                out.append("(?) ");
            },
            StageState::Joining(state) => {
                let name_bytes = name_bytes_vec(&state.node_info.keypair.public);
                append_hex(&mut out, &name_bytes);
                out.append("(");
                append_prefix_bits(&mut out, &state.target_section.prefix);
                out.append("?) ");
            },
            StageState::Approved(state) => {
                let name = state.node_info.name();
                let name_bytes = name_bytes_vec(&name);
                append_hex(&mut out, &name_bytes);
                out.append("(");
                append_prefix_bits(&mut out, &state.shared_state.sections.our.value.prefix);
                if state.is_our_elder(&name) {
                    out.append("v");
                    append_decimal(&mut out, state.shared_state.our_history.last_key_index() as u64);
                    out.append("!) ");
                } else {
                    out.append(") ");
                }
            },
        }
        proof {
            assert(out@ =~= spec_log_ident(*self));
        }
        out
    }
}

/// The first three bytes of a name, which identify it in logs.
pub fn name_bytes_vec(n: &XorName) -> (r: Vec<u8>)
    ensures
        r@ == seq![n@[0], n@[1], n@[2]],
{
    let mut r: Vec<u8> = Vec::new();
    r.push(n.0[0]);
    r.push(n.0[1]);
    r.push(n.0[2]);
    proof {
        assert(r@ =~= seq![n@[0], n@[1], n@[2]]);
    }
    r
}

/// The bits of a prefix, as characters.
pub open spec fn spec_prefix_bits(p: Prefix) -> Seq<char> {
    Seq::new(p.bit_count as nat, |i: int| if name_bit(p.name@, i) { '1' } else { '0' })
}

/// Appends the bits of a prefix as ones and zeros.
pub fn append_prefix_bits(out: &mut String, p: &Prefix)
    requires
        p.bit_count <= 256,
    ensures
        final(out)@ == old(out)@ + spec_prefix_bits(*p),
{
    proof {
        reveal_strlit("0");
        reveal_strlit("1");
    }
    let mut i: usize = 0;
    while i < p.bit_count
        invariant
            i <= p.bit_count,
            p.bit_count <= 256,
            out@ == old(out)@ + spec_prefix_bits(*p).take(i as int),
        decreases p.bit_count - i,
    {
        proof {
            reveal_strlit("0");
            reveal_strlit("1");
        }
        if p.name.bit(i) {
            out.append("1");
        } else {
            out.append("0");
        }
        proof {
            assert(out@ =~= old(out)@ + spec_prefix_bits(*p).take(i + 1));
        }
        i += 1;
    }
    proof {
        assert(spec_prefix_bits(*p).take(p.bit_count as int) =~= spec_prefix_bits(*p));
    }
}

/// The log line for each stage: a short hexadecimal name, then "(?)" while
/// bootstrapping, the target prefix and "?" while joining, and once
/// approved the own prefix, with "v", the key index and "!" for an elder.
pub open spec fn spec_log_ident(s: Stage) -> Seq<char> {
    match s.state {
        StageState::Bootstrapping(st) => spec_short_name(st.node_info.keypair.public) + "(?) "@,
        StageState::Joining(st) => spec_short_name(st.node_info.keypair.public) + "("@
            + spec_prefix_bits(st.target_section.prefix) + "?) "@,
        StageState::Approved(st) => {
            let base = spec_short_name(st.node_info.keypair.public) + "("@ + spec_prefix_bits(
                st.shared_state.sections.our.value.prefix,
            );
            if st.shared_state.sections.our.value.spec_contains_elder(
                st.node_info.keypair.public@,
            ) {
                base + "v"@ + spec_decimal_string(st.shared_state.our_history.key_count() - 1)
                    + "!) "@
            } else {
                base + ") "@
            }
        },
    }
}

/// The short hexadecimal form of a name: its first three bytes.
pub open spec fn spec_short_name(n: XorName) -> Seq<char> {
    spec_hex(seq![n@[0], n@[1], n@[2]])
}

/// Signs a payload with the very first node's own key share and combines
/// the single share into a section signature.  As the only node of the
/// network it holds the only share, so combining succeeds unless the
/// outside library rejects the share or the key set itself; then no proof
/// can be made.
pub fn create_first_proof(
    pk_set: &threshold_crypto::PublicKeySet,
    sk_share: &threshold_crypto::SecretKeyShare,
    payload: &Vec<u8>,
) -> (r: Result<Proof, RoutingError>)
    ensures
        match r {
            Ok(p) => p.public_key@.len() == 48 && p.signature@.len() == 96,
            Err(e) => e == RoutingError::InvalidSignatureShare,
        },
{
    let public_key = match bls_public_key(pk_set) {
        Some(bytes) => bytes,
        None => {
            return Err(RoutingError::InvalidSignatureShare);
        },
    };
    let share = bls_sign_share(sk_share, payload);
    let mut shares: Vec<(u64, Vec<u8>)> = Vec::new();
    shares.push((0, share));
    match bls_combine_signatures(pk_set, &shares) {
        Some(signature) => Ok(Proof { public_key, signature }),
        None => Err(RoutingError::InvalidSignatureShare),
    }
}

/// Creates the committee record of the very first node: itself as the only
/// elder, under the empty prefix, signed with its own key share.  As the
/// first node there is no previous key, so the record is signed with the
/// current key instead.
pub fn create_first_elders_info(
    pk_set: &threshold_crypto::PublicKeySet,
    sk_share: &threshold_crypto::SecretKeyShare,
    peer: Peer,
) -> (r: Result<Proven<EldersInfo>, RoutingError>)
    ensures
        match r {
            Ok(p) => {
                &&& p.value.wf()
                &&& p.value.prefix.bit_count == 0
                &&& p.value.elders@.len() == 1
                &&& p.value.elders@[0] == peer
                &&& p.proof.public_key@.len() == 48
            },
            Err(e) => e == RoutingError::InvalidSignatureShare,
        },
{
    let prefix = Prefix::empty();
    let mut elders: Vec<Peer> = Vec::new();
    elders.push(peer);
    let elders_info = EldersInfo { prefix, elders };
    proof {
        assert(elders_info.wf());
    }
    let mut payload: Vec<u8> = Vec::new();
    encode_elders_info(&mut payload, &elders_info);
    match create_first_proof(pk_set, sk_share, &payload) {
        Ok(proof) => Ok(Proven::new(elders_info, proof)),
        Err(e) => Err(e),
    }
}

/// Creates the shared state of the very first node: a proof chain rooted at
/// its section key, a section map holding only its own committee, and a
/// member table where it is the only member, joined at the starting age.
pub fn create_first_shared_state(
    pk_set: &threshold_crypto::PublicKeySet,
    sk_share: &threshold_crypto::SecretKeyShare,
    elders_info: Proven<EldersInfo>,
) -> (r: Result<SharedState, RoutingError>)
    requires
        elders_info.value.wf(),
        elders_info.value.prefix.bit_count == 0,
    ensures
        match r {
            Ok(s) => {
                &&& s.wf()
                &&& s.sections.our == elders_info
                &&& s.sections.neighbours@.len() == 0
                &&& s.our_history.key_count() == 1
                &&& s.our_history.spec_key_at(0) == elders_info.proof.public_key@
                &&& s.our_members.members@.len() == elders_info.value.elders@.len()
                &&& (forall|i: int|
                    0 <= i < s.our_members.members@.len() ==> {
                        &&& (#[trigger] s.our_members.members@[i]).peer
                            == elders_info.value.elders@[i]
                        &&& s.our_members.members@[i].age == MIN_AGE
                        &&& s.our_members.members@[i].state is Joined
                    })
            },
            Err(_) => false,
        },
{
    let genesis_key = copy_bytes(&elders_info.proof.public_key);
    let our_history = SectionProofChain::new(genesis_key);
    let elders = crate::section::copy_peers(&elders_info.value.elders);
    let sections = SectionMap::genesis(elders_info);
    let mut our_members = SectionMembers::new();
    proof {
        assert forall|j: int, k: int|
            0 <= j < k < elders@.len() implies #[trigger] elders@[j].name@
            != #[trigger] elders@[k].name@ by {
            assert(crate::xor_space::seq_cmp(elders@[j].name@, elders@[k].name@)
                == core::cmp::Ordering::Less);
            if elders@[j].name@ == elders@[k].name@ {
                crate::xor_space::lemma_seq_cmp_refl_pub(elders@[j].name@);
            }
        }
    }
    let mut i: usize = 0;
    while i < elders.len()
        invariant
            i <= elders@.len(),
            our_members.wf(),
            our_members.members@.len() == i,
            forall|j: int, k: int|
                0 <= j < k < elders@.len() ==> #[trigger] elders@[j].name@
                    != #[trigger] elders@[k].name@,
            forall|j: int|
                0 <= j < i ==> {
                    &&& (#[trigger] our_members.members@[j]).peer == elders@[j]
                    &&& our_members.members@[j].age == MIN_AGE
                    &&& our_members.members@[j].state is Joined
                },
            forall|j: int|
                0 <= j < i ==> #[trigger] our_members.members@[j].peer.name@ == elders@[j].name@,
        decreases elders@.len() - i,
    {
        let added = our_members.add_joined(elders[i], MIN_AGE);
        proof {
            if !added {
                let k = choose|k: int|
                    0 <= k < our_members.members@.len()
                        && #[trigger] our_members.members@[k].peer.name@
                        == elders@[i as int].name@;
                assert(elders@[k].name@ == elders@[i as int].name@);
            }
        }
        i += 1;
    }
    Ok(SharedState::new(our_history, sections, our_members))
}

} // verus!
