//! Delivery-group selection: to whom a message is sent onwards, and how many
//! recipients count as a quorum.

use vstd::prelude::*;
use core::cmp::Ordering;
use crate::error::RoutingError;
use crate::location::DstLocation;
use crate::members::SectionMembers;
use crate::peer::Peer;
use crate::section_map::SectionMap;
use crate::section_map::spec_prefix_le;
use crate::xor_space::XorName;
use crate::xor_space::dist_le;
use crate::xor_space::spec_cmp_distance;
use crate::xor_space::lemma_dist_le_trans;
use crate::xor_space::lemma_seq_cmp_antisym_pub;
use vstd::seq_lib::to_multiset_build;
use vstd::seq_lib::to_multiset_insert;

verus! {

/// The delivery group size for a section of `n` members: the third of `n`,
/// rounded up.
pub open spec fn spec_delivery_group_size(n: int) -> int {
    (n + 2) / 3
}

/// The delivery group size equals `n / 3` rounded towards the ceiling, never
/// exceeds `n`, and is positive exactly when `n` is.
pub proof fn lemma_delivery_group_size_is_ceiling(n: int)
    requires
        n >= 0,
    ensures
        spec_delivery_group_size(n) == if n % 3 == 0 {
            n / 3
        } else {
            n / 3 + 1
        },
        spec_delivery_group_size(n) <= n || n == 0,
        spec_delivery_group_size(n) > 0 <==> n > 0,
{
    assert(spec_delivery_group_size(n) == if n % 3 == 0 {
        n / 3
    } else {
        n / 3 + 1
    }) by (nonlinear_arith)
        requires
            n >= 0,
    ;
    assert(n > 0 ==> (n + 2) / 3 <= n && (n + 2) / 3 > 0) by (nonlinear_arith)
        requires
            n >= 0,
    ;
}

/// Returns the delivery group size based on the section size `n`.
pub fn delivery_group_size(n: usize) -> (r: usize)
    ensures
        r == spec_delivery_group_size(n as int),
{
    proof {
        lemma_delivery_group_size_is_ceiling(n as int);
    }
    n / 3 + if n % 3 == 0 {
        0
    } else {
        1
    }
}

/// All peers of `v`, ordered by XOR-distance of their name to `d`.
pub fn sort_peers_by_distance_to(d: &XorName, v: Vec<Peer>) -> (r: Vec<Peer>)
    ensures
        r@.len() == v@.len(),
        r@.to_multiset() == v@.to_multiset(),
        forall|a: int, b: int|
            0 <= a < b < r@.len() ==> dist_le(d@, #[trigger] r@[a].name@, #[trigger] r@[b].name@),
{
    broadcast use to_multiset_build;
    broadcast use to_multiset_insert;

    let mut r: Vec<Peer> = Vec::new();
    let mut idx: usize = 0;
    proof {
        assert(v@.take(0) =~= Seq::<Peer>::empty());
    }
    while idx < v.len()
        invariant
            idx <= v@.len(),
            r@.len() == idx,
            forall|a: int, b: int|
                0 <= a < b < r@.len() ==> dist_le(
                    d@,
                    #[trigger] r@[a].name@,
                    #[trigger] r@[b].name@,
                ),
            r@.to_multiset() == v@.take(idx as int).to_multiset(),
        decreases v@.len() - idx,
    {
        let p = v[idx];
        let mut j: usize = 0;
        let mut stop = false;
        while j < r.len() && !stop
            invariant
                j <= r@.len(),
                forall|k: int| 0 <= k < j ==> dist_le(d@, #[trigger] r@[k].name@, p.name@),
                stop ==> j < r@.len() && spec_cmp_distance(d@, r@[j as int].name@, p.name@)
                    == Ordering::Greater,
            decreases r@.len() - j + (if stop {
                0int
            } else {
                1int
            }),
        {
            let c = d.cmp_distance(&r[j].name, &p.name);
            if matches!(c, Ordering::Greater) {
                stop = true;
            } else {
                j += 1;
            }
        }
        proof {
            if j < r@.len() {
                lemma_seq_cmp_antisym_pub(
                    crate::xor_space::xor_bytes(d@, r@[j as int].name@),
                    crate::xor_space::xor_bytes(d@, p.name@),
                );
            }
        }
        let ghost old_r = r@;
        r.insert(j, p);
        proof {
            assert forall|a: int, b: int|
                0 <= a < b < r@.len() implies dist_le(
                d@,
                #[trigger] r@[a].name@,
                #[trigger] r@[b].name@,
            ) by {
                let ji = j as int;
                if a < ji && b < ji {
                    assert(r@[a] == old_r[a] && r@[b] == old_r[b]);
                } else if a < ji && b == ji {
                    assert(r@[a] == old_r[a]);
                } else if a < ji && b > ji {
                    assert(r@[a] == old_r[a] && r@[b] == old_r[b - 1]);
                } else if a == ji && b > ji {
                    assert(r@[b] == old_r[b - 1]);
                    if b - 1 > ji {
                        lemma_dist_le_trans(d@, p.name@, old_r[ji].name@, old_r[b - 1].name@);
                    }
                } else {
                    assert(r@[a] == old_r[a - 1] && r@[b] == old_r[b - 1]);
                }
            }
            assert(r@ == old_r.insert(j as int, p));
            vstd::seq_lib::to_multiset_insert(old_r, j as int, p);
            assert(v@.take(idx + 1).drop_last() =~= v@.take(idx as int));
            assert(v@.take(idx + 1) =~= v@.take(idx as int).push(v@[idx as int]));
            vstd::seq_lib::to_multiset_build(v@.take(idx as int), v@[idx as int]);
            assert(r@.to_multiset() =~= v@.take(idx + 1).to_multiset());
        }
        idx += 1;
    }
    proof {
        assert(v@.take(v@.len() as int) =~= v@);
    }
    r
}

/// Returns a `Peer` for a known node: a member of our own section, or an
/// elder of a known section.
fn get_peer(name: &XorName, our_members: &SectionMembers, sections: &SectionMap) -> (r: Option<
    Peer,
>)
    ensures
        r is Some <==> spec_known_peer(*our_members, *sections, name@),
        r is Some ==> r.unwrap().name@ == name@,
{
    match our_members.get(name) {
        Some(info) => Some(info.peer),
        None => sections.get_elder(name),
    }
}

/// Whether the name is known: a member of our own section, or an elder of a
/// known section.
pub open spec fn spec_known_peer(
    our_members: SectionMembers,
    sections: SectionMap,
    n: Seq<u8>,
) -> bool {
    our_members.spec_contains(n) || exists|i: int|
        0 <= i < sections.section_count() && #[trigger] sections.spec_section_at(
            i,
        ).spec_contains_elder(n)
}

/// The index of the section closest to `t` is ours exactly when our own
/// prefix is the closest one.
pub open spec fn spec_closest_is(sections: SectionMap, t: Seq<u8>, ci: int) -> bool {
    &&& 0 <= ci < sections.section_count()
    &&& forall|j: int|
        0 <= j < sections.section_count() ==> spec_prefix_le(
            t,
            sections.spec_prefix_at(ci),
            #[trigger] sections.spec_prefix_at(j),
        )
}

/// Obtains the delivery group candidates for a target: the elders of the
/// section closest to the target, ordered by distance to it.  When our own
/// section is the closest, we ourselves are dropped from the group and the
/// quorum is the whole remainder; otherwise the quorum is a third of the
/// section, rounded up.
fn candidates(target: &XorName, our_id: &XorName, sections: &SectionMap) -> (r: Result<
    (Vec<Peer>, usize),
    RoutingError,
>)
    requires
        sections.wf(),
        sections.neighbours@.len() < usize::MAX,
    ensures
        match r {
            Ok((nodes, dg_size)) => exists|ci: int|
                {
                    &&& #[trigger] spec_closest_is(*sections, target@, ci)
                    &&& dg_size > 0
                    &&& nodes@.len() >= dg_size
                    &&& (forall|a: int, b: int|
                        0 <= a < b < nodes@.len() ==> dist_le(
                            target@,
                            #[trigger] nodes@[a].name@,
                            #[trigger] nodes@[b].name@,
                        ))
                    &&& if ci == 0 {
                        nodes@.to_multiset() == sections.our.value.elders@.filter(
                            |p: Peer| p.name@ != our_id@,
                        ).to_multiset() && dg_size == nodes@.len()
                    } else {
                        nodes@.to_multiset() == sections.spec_section_at(ci).elders@.to_multiset()
                            && dg_size == spec_delivery_group_size(
                            sections.spec_section_at(ci).elders@.len() as int,
                        )
                    }
                },
            Err(e) => e == RoutingError::CannotRoute && exists|ci: int|
                {
                    &&& #[trigger] spec_closest_is(*sections, target@, ci)
                    &&& if ci == 0 {
                        sections.our.value.elders@.filter(|p: Peer| p.name@ != our_id@).len() == 0
                    } else {
                        sections.spec_section_at(ci).elders@.len() == 0
                    }
                },
        },
{
    let sorted = sections.sorted_indices_by_distance_to(target);
    proof {
        assert(sorted@.len() == sections.section_count());
        assert(sorted@[0] < sections.section_count());
        assert forall|j: int|
            0 <= j < sections.section_count() implies spec_prefix_le(
            target@,
            sections.spec_prefix_at(sorted@[0] as int),
            #[trigger] sections.spec_prefix_at(j),
        ) by {
            let s = Seq::new(sections.section_count() as nat, |i: int| i as usize);
            assert(s[j] == j as usize);
            assert(s.contains(j as usize));
            s.to_multiset_ensures();
            sorted@.to_multiset_ensures();
            assert(sorted@.to_multiset().count(j as usize) > 0);
            assert(sorted@.contains(j as usize));
            let pos = choose|pos: int| 0 <= pos < sorted@.len() && sorted@[pos] == j as usize;
            if pos > 0 {
                assert(spec_prefix_le(
                    target@,
                    sections.spec_prefix_at(sorted@[0] as int),
                    sections.spec_prefix_at(sorted@[pos] as int),
                ));
            } else {
                crate::section_map::lemma_prefix_le_refl(
                    target@,
                    sections.spec_prefix_at(sorted@[0] as int),
                );
            }
        }
        assert(spec_closest_is(*sections, target@, sorted@[0] as int));
    }
    let first = sorted[0];
    let (nodes, dg_size): (Vec<Peer>, usize) = if first == 0 {
        let own = sections.our.value.elders_except(our_id);
        let len = own.len();
        (sort_peers_by_distance_to(target, own), len)
    } else {
        let sec = sections.section_at(first);
        let len = sec.len();
        let all = crate::section::copy_peers(&sec.elders);
        proof {
            lemma_delivery_group_size_is_ceiling(len as int);
        }
        (sort_peers_by_distance_to(target, all), delivery_group_size(len))
    };
    proof {
        nodes@.to_multiset_ensures();
    }
    if dg_size > 0 && nodes.len() >= dg_size {
        Ok((nodes, dg_size))
    } else {
        proof {
            if first != 0 {
                lemma_delivery_group_size_is_ceiling(
                    sections.spec_section_at(first as int).elders@.len() as int,
                );
            }
        }
        Err(RoutingError::CannotRoute)
    }
}

/// The outcome that the candidate selection owes for target `t`: the elders
/// of the closest known section, ordered by distance to `t`; ourselves
/// dropped and the quorum the whole remainder when that section is ours, a
/// third rounded up otherwise.
pub open spec fn spec_candidates_ok(
    sections: SectionMap,
    t: Seq<u8>,
    our_id: Seq<u8>,
    nodes: Seq<Peer>,
    dg_size: int,
) -> bool {
    exists|ci: int|
        {
            &&& #[trigger] spec_closest_is(sections, t, ci)
            &&& dg_size > 0
            &&& nodes.len() >= dg_size
            &&& (forall|a: int, b: int|
                0 <= a < b < nodes.len() ==> dist_le(
                    t,
                    #[trigger] nodes[a].name@,
                    #[trigger] nodes[b].name@,
                ))
            &&& if ci == 0 {
                nodes.to_multiset() == sections.our.value.elders@.filter(
                    |p: Peer| p.name@ != our_id,
                ).to_multiset() && dg_size == nodes.len()
            } else {
                nodes.to_multiset() == sections.spec_section_at(ci).elders@.to_multiset()
                    && dg_size == spec_delivery_group_size(
                    sections.spec_section_at(ci).elders@.len() as int,
                )
            }
        }
}

/// When the candidate selection for target `t` fails: the closest known
/// section offers no usable recipient.
pub open spec fn spec_candidates_none(sections: SectionMap, t: Seq<u8>, our_id: Seq<u8>) -> bool {
    exists|ci: int|
        {
            &&& #[trigger] spec_closest_is(sections, t, ci)
            &&& if ci == 0 {
                sections.our.value.elders@.filter(|p: Peer| p.name@ != our_id).len() == 0
            } else {
                sections.spec_section_at(ci).elders@.len() == 0
            }
        }
}

/// Returns a set of nodes to which a message for the given destination could
/// be sent onwards, sorted by priority, along with the number of targets the
/// message should be sent to.
///
/// A node that is not an elder returns all the elders of its own section, so
/// the message can be relayed through them.  An elder returns, for a node
/// destination: nothing when the destination is itself, the known peer when
/// the name is known, the candidates of the closest section otherwise; for a
/// section destination: all other members of the closest section when that
/// section is ours or a neighbour, its candidates otherwise; and an error
/// for a direct destination.
pub fn delivery_targets(
    dst: &DstLocation,
    our_id: &XorName,
    our_members: &SectionMembers,
    sections: &SectionMap,
) -> (r: Result<(Vec<Peer>, usize), RoutingError>)
    requires
        sections.wf(),
        our_members.wf(),
        sections.neighbours@.len() < usize::MAX,
    ensures
        !sections.our.value.spec_contains_elder(our_id@) ==> (match r {
            Ok((targets, dg_size)) => targets@ == sections.our.value.elders@ && dg_size
                == targets@.len(),
            Err(_) => false,
        }),
        sections.our.value.spec_contains_elder(our_id@) ==> (match *dst {
            DstLocation::Node(target) => {
                if target@ == our_id@ {
                    match r {
                        Ok((targets, dg_size)) => targets@.len() == 0 && dg_size == 0,
                        Err(_) => false,
                    }
                } else if spec_known_peer(*our_members, *sections, target@) {
                    match r {
                        Ok((targets, dg_size)) => targets@.len() == 1 && dg_size == 1
                            && targets@[0].name@ == target@,
                        Err(_) => false,
                    }
                } else {
                    match r {
                        Ok((targets, dg_size)) => spec_candidates_ok(
                            *sections,
                            target@,
                            our_id@,
                            targets@,
                            dg_size as int,
                        ),
                        Err(e) => e == RoutingError::CannotRoute && spec_candidates_none(
                            *sections,
                            target@,
                            our_id@,
                        ),
                    }
                }
            },
            DstLocation::Section(target) => (match r {
                Ok((targets, dg_size)) => exists|ci: int|
                    {
                        &&& #[trigger] spec_closest_is(*sections, target@, ci)
                        &&& if ci == 0 || sections.spec_prefix_at(ci).spec_is_neighbour(
                            sections.our.value.prefix,
                        ) {
                            targets@ == sections.spec_section_at(ci).elders@.filter(
                                |p: Peer| p.name@ != our_id@,
                            ) && dg_size == targets@.len()
                        } else {
                            spec_candidates_ok(
                                *sections,
                                target@,
                                our_id@,
                                targets@,
                                dg_size as int,
                            )
                        }
                    },
                Err(e) => e == RoutingError::CannotRoute && spec_candidates_none(
                    *sections,
                    target@,
                    our_id@,
                ),
            }),
            DstLocation::Direct => r == Err::<(Vec<Peer>, usize), RoutingError>(
                RoutingError::CannotRoute,
            ),
        }),
{
    if !sections.is_elder(our_id) {
        // We are not an elder: return all the elders of our section, so the
        // message can be properly relayed through them.
        let targets = crate::section::copy_peers(&sections.our.value.elders);
        let dg_size = targets.len();
        return Ok((targets, dg_size));
    }
    match dst {
        DstLocation::Node(target_name) => {
            if target_name == our_id {
                return Ok((Vec::new(), 0));
            }
            match get_peer(target_name, our_members, sections) {
                Some(node) => {
                    let mut targets: Vec<Peer> = Vec::new();
                    targets.push(node);
                    Ok((targets, 1))
                },
                None => candidates(target_name, our_id, sections),
            }
        },
        DstLocation::Section(target_name) => {
            let ci = sections.closest_index(target_name);
            let info = sections.section_at(ci);
            proof {
                assert(spec_closest_is(*sections, target_name@, ci as int));
                assert(sections.spec_section_at(ci as int).wf());
                assert(sections.spec_section_at(0).wf());
            }
            if ci == 0 || info.prefix.is_neighbour(&sections.our.value.prefix) {
                // Exclude our name, since we do not send to ourselves.
                let section = info.elders_except(our_id);
                let dg_size = section.len();
                return Ok((section, dg_size));
            }
            candidates(target_name, our_id, sections)
        },
        DstLocation::Direct => Err(RoutingError::CannotRoute),
    }
}

/// Returns the set of peers responsible for collecting signatures to verify
/// a message for the destination: the third (rounded up) of our elders whose
/// names lie closest to the destination's name.  This may contain ourselves.
/// A direct destination has no signature targets.
pub fn signature_targets(dst: &DstLocation, our_elders: Vec<Peer>) -> (r: Vec<Peer>)
    ensures
        dst is Direct ==> r@.len() == 0,
        !(dst is Direct) ==> {
            let d = match *dst {
                DstLocation::Node(name) => name,
                DstLocation::Section(name) => name,
                DstLocation::Direct => vstd::pervasive::arbitrary(),
            };
            &&& r@.len() == spec_delivery_group_size(our_elders@.len() as int)
            &&& (forall|a: int, b: int|
                0 <= a < b < r@.len() ==> dist_le(
                    d@,
                    #[trigger] r@[a].name@,
                    #[trigger] r@[b].name@,
                ))
            &&& exists|s: Seq<Peer>|
                {
                    &&& #[trigger] s.to_multiset() == our_elders@.to_multiset()
                    &&& s.len() == our_elders@.len()
                    &&& (forall|a: int, b: int|
                        0 <= a < b < s.len() ==> dist_le(
                            d@,
                            #[trigger] s[a].name@,
                            #[trigger] s[b].name@,
                        ))
                    &&& r@ == s.subrange(0, spec_delivery_group_size(our_elders@.len() as int))
                }
        },
{
    let dst_name: XorName = match dst {
        DstLocation::Node(name) => *name,
        DstLocation::Section(name) => *name,
        DstLocation::Direct => {
            return Vec::new();
        },
    };
    let mut list = sort_peers_by_distance_to(&dst_name, our_elders);
    let dg = delivery_group_size(list.len());
    proof {
        lemma_delivery_group_size_is_ceiling(list@.len() as int);
    }
    let ghost sorted_view = list@;
    list.truncate(dg);
    proof {
        assert(list@ == sorted_view.subrange(0, dg as int));
    }
    list
}

} // verus!
