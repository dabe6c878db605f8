//! The per-section member table.
//!
//! Transitions are gated by consensus decisions only.  States move
//! monotonically through `Joined`, `Relocating`, `Left`; ages double on each
//! successful relocation, saturating at the largest age.

use vstd::prelude::*;
use crate::peer::Peer;
use crate::xor_space::XorName;

verus! {

/// The state of a section member.
#[derive(Clone, Copy, Debug)]
pub enum MemberState {
    /// The member participates in the section.
    Joined,
    /// The member was selected for relocation towards the given destination.
    Relocating { target_dst: XorName },
    /// The member left, or was relocated away.  Terminal until pruned.
    Left,
}

impl MemberState {
    /// Position in the transition order `Joined < Relocating < Left`.
    pub open spec fn rank(self) -> int {
        match self {
            MemberState::Joined => 0,
            MemberState::Relocating { .. } => 1,
            MemberState::Left => 2,
        }
    }
}

/// What the section knows of one member.
#[derive(Clone, Copy, Debug)]
pub struct MemberInfo {
    pub peer: Peer,
    pub age: u8,
    pub state: MemberState,
}

/// The age a member carries after one successful relocation: doubled,
/// saturating at the largest age.
pub open spec fn spec_relocated_age(age: u8) -> u8 {
    if age >= 128 {
        255u8
    } else {
        (2 * age) as u8
    }
}

impl MemberInfo {
    /// A record for a member that has just joined.
    pub fn joined(peer: Peer, age: u8) -> (r: MemberInfo)
        ensures
            r.peer == peer,
            r.age == age,
            r.state is Joined,
    {
        MemberInfo { peer, age, state: MemberState::Joined }
    }

    /// The record this member carries in its new section after a successful
    /// relocation: joined under the new peer record, age doubled.
    pub fn relocated(&self, new_peer: Peer) -> (r: MemberInfo)
        ensures
            r.peer == new_peer,
            r.age == spec_relocated_age(self.age),
            r.state is Joined,
    {
        let age: u8 = if self.age >= 128 {
            255
        } else {
            2 * self.age
        };
        MemberInfo { peer: new_peer, age, state: MemberState::Joined }
    }
}

/// The member table of a section, keyed by name.
#[derive(Clone, Debug)]
pub struct SectionMembers {
    pub members: Vec<MemberInfo>,
}

impl SectionMembers {
    /// At most one entry per name.
    pub open spec fn wf(self) -> bool {
        forall|i: int, j: int|
            0 <= i < j < self.members@.len() ==> #[trigger] self.members@[i].peer.name@
                != #[trigger] self.members@[j].peer.name@
    }

    /// Whether some entry carries the given name.
    pub open spec fn spec_contains(self, n: Seq<u8>) -> bool {
        exists|i: int| 0 <= i < self.members@.len() && #[trigger] self.members@[i].peer.name@ == n
    }

    /// An empty member table.
    pub fn new() -> (r: SectionMembers)
        ensures
            r.wf(),
            r.members@.len() == 0,
    {
        SectionMembers { members: Vec::new() }
    }

    /// The position of the entry with the given name, if present.
    pub fn position(&self, n: &XorName) -> (r: Option<usize>)
        ensures
            match r {
                Some(i) => i < self.members@.len() && self.members@[i as int].peer.name@ == n@,
                None => !self.spec_contains(n@),
            },
    {
        let mut i: usize = 0;
        while i < self.members.len()
            invariant
                i <= self.members@.len(),
                forall|j: int| 0 <= j < i ==> #[trigger] self.members@[j].peer.name@ != n@,
            decreases self.members@.len() - i,
        {
            if self.members[i].peer.name() == n {
                return Some(i);
            }
            i += 1;
        }
        None
    }

    /// The entry with the given name, if present.
    pub fn get(&self, n: &XorName) -> (r: Option<&MemberInfo>)
        ensures
            match r {
                Some(m) => self.spec_contains(n@) && m.peer.name@ == n@ && exists|i: int|
                    0 <= i < self.members@.len() && self.members@[i] == *m,
                None => !self.spec_contains(n@),
            },
    {
        match self.position(n) {
            Some(i) => Some(&self.members[i]),
            None => None,
        }
    }

    /// Records a decided online event: adds a joined member, unless the name
    /// is already present.
    pub fn add_joined(&mut self, peer: Peer, age: u8) -> (r: bool)
        requires
            old(self).wf(),
        ensures
            final(self).wf(),
            r == !old(self).spec_contains(peer.name@),
            r ==> final(self).members@ == old(self).members@.push(
                MemberInfo { peer, age, state: MemberState::Joined },
            ),
            !r ==> final(self).members@ == old(self).members@,
    {
        match self.position(&peer.name) {
            Some(_) => false,
            None => {
                self.members.push(MemberInfo { peer, age, state: MemberState::Joined });
                true
            },
        }
    }

    /// Records a decided relocation: a joined member becomes relocating
    /// towards `dst`.  Returns false when there is no joined entry under the
    /// name.
    pub fn set_relocating(&mut self, n: &XorName, dst: XorName) -> (r: bool)
        requires
            old(self).wf(),
        ensures
            final(self).wf(),
            r ==> exists|i: int|
                {
                    &&& 0 <= i < old(self).members@.len()
                    &&& old(self).members@[i].peer.name@ == n@
                    &&& old(self).members@[i].state is Joined
                    &&& final(self).members@ == old(self).members@.update(
                        i,
                        MemberInfo {
                            peer: old(self).members@[i].peer,
                            age: old(self).members@[i].age,
                            state: MemberState::Relocating { target_dst: dst },
                        },
                    )
                    &&& final(self).members@[i].state.rank() >= old(self).members@[i].state.rank()
                },
            !r ==> final(self).members@ == old(self).members@,
    {
        match self.position(n) {
            Some(i) => {
                let m = self.members[i];
                match m.state {
                    MemberState::Joined => {
                        let updated = MemberInfo {
                            peer: m.peer,
                            age: m.age,
                            state: MemberState::Relocating { target_dst: dst },
                        };
                        self.members.set(i, updated);
                        proof {
                            assert forall|a: int, b: int|
                                0 <= a < b < self.members@.len() implies #[trigger] self.members@[a].peer.name@ != #[trigger] self.members@[b].peer.name@ by {
                                assert(old(self).members@[a].peer.name@ != old(
                                    self,
                                ).members@[b].peer.name@);
                            }
                        }
                        true
                    },
                    _ => false,
                }
            },
            None => false,
        }
    }

    /// Records a decided offline event: the member's entry becomes `Left`.
    /// The tombstone persists until pruned.  Returns false when absent.
    pub fn set_left(&mut self, n: &XorName) -> (r: bool)
        requires
            old(self).wf(),
        ensures
            final(self).wf(),
            r ==> exists|i: int|
                {
                    &&& 0 <= i < old(self).members@.len()
                    &&& old(self).members@[i].peer.name@ == n@
                    &&& final(self).members@ == old(self).members@.update(
                        i,
                        MemberInfo {
                            peer: old(self).members@[i].peer,
                            age: old(self).members@[i].age,
                            state: MemberState::Left,
                        },
                    )
                    &&& final(self).members@[i].state.rank() >= old(self).members@[i].state.rank()
                },
            !r ==> final(self).members@ == old(self).members@,
    {
        match self.position(n) {
            Some(i) => {
                let m = self.members[i];
                let updated = MemberInfo { peer: m.peer, age: m.age, state: MemberState::Left };
                self.members.set(i, updated);
                proof {
                    assert forall|a: int, b: int|
                        0 <= a < b < self.members@.len() implies #[trigger] self.members@[a].peer.name@ != #[trigger] self.members@[b].peer.name@ by {
                        assert(old(self).members@[a].peer.name@ != old(self).members@[b].peer.name@);
                    }
                }
                true
            },
            None => false,
        }
    }
}

} // verus!
