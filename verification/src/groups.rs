//! Collision filtering: the seven kinds of shape and the filter that the
//! physics gets for each.
use ncollide2d::pipeline::object::CollisionGroups;
use vstd::prelude::*;

verus! {

/// The collision filter of `ncollide2d`; the proofs see it through
/// `membership`, `whitelist` and `blacklist`.
#[verifier::external_type_specification]
#[verifier::external_body]
pub struct ExCollisionGroups(CollisionGroups);

/// The groups that a filter is a member of.
pub uninterp spec fn membership(groups: CollisionGroups) -> Set<usize>;

/// The groups that a filter lets its owner interact with.
pub uninterp spec fn whitelist(groups: CollisionGroups) -> Set<usize>;

/// The groups that a filter keeps its owner from interacting with.
pub uninterp spec fn blacklist(groups: CollisionGroups) -> Set<usize>;

/// Number of groups that `ncollide2d` knows; a larger group index makes it panic.
pub const GROUP_COUNT: usize = 30;

/// `CollisionGroups::new`: a filter that is a member of every group and
/// whitelists every group, with an empty blacklist.
#[verifier::external_body]
fn open_filter() -> (groups: CollisionGroups)
    ensures
        membership(groups) == Set::new(|g: usize| g < GROUP_COUNT),
        whitelist(groups) == Set::new(|g: usize| g < GROUP_COUNT),
        blacklist(groups) == Set::<usize>::empty(),
{
    CollisionGroups::new()
}

/// `CollisionGroups::set_membership`: the filter becomes a member of the
/// given groups and of no other; its lists stay.
#[verifier::external_body]
fn set_membership(groups: &mut CollisionGroups, ids: &Vec<usize>)
    requires
        forall|i: int| 0 <= i < ids.len() ==> #[trigger] ids[i] < GROUP_COUNT,
    ensures
        membership(*final(groups)) == ids@.to_set(),
        whitelist(*final(groups)) == whitelist(*old(groups)),
        blacklist(*final(groups)) == blacklist(*old(groups)),
{
    groups.set_membership(ids)
}

/// `CollisionGroups::set_whitelist`: the whitelist becomes the given groups
/// and no other; membership and blacklist stay.
#[verifier::external_body]
fn set_whitelist(groups: &mut CollisionGroups, ids: &Vec<usize>)
    requires
        forall|i: int| 0 <= i < ids.len() ==> #[trigger] ids[i] < GROUP_COUNT,
    ensures
        whitelist(*final(groups)) == ids@.to_set(),
        membership(*final(groups)) == membership(*old(groups)),
        blacklist(*final(groups)) == blacklist(*old(groups)),
{
    groups.set_whitelist(ids)
}

/// `CollisionGroups::set_blacklist`: the blacklist becomes the given groups
/// and no other; membership and whitelist stay.
#[verifier::external_body]
fn set_blacklist(groups: &mut CollisionGroups, ids: &Vec<usize>)
    requires
        forall|i: int| 0 <= i < ids.len() ==> #[trigger] ids[i] < GROUP_COUNT,
    ensures
        blacklist(*final(groups)) == ids@.to_set(),
        membership(*final(groups)) == membership(*old(groups)),
        whitelist(*final(groups)) == whitelist(*old(groups)),
{
    groups.set_blacklist(ids)
}

/// The seven kinds of shape that take part in collision filtering.
#[derive(Clone, Copy, Debug, PartialEq, Eq, Structural)]
pub enum Group {
    Food,
    Herbivore,
    Carnivore,
    /// The sensor rays of a herbivore.
    HerbivoreRay,
    Wall,
    /// The sensor rays of a carnivore.
    CarnivoreRay,
    /// The alliance zone around a carnivore.
    CarnivoreZone,
}

impl Group {
    /// The index of the group in a filter.
    pub open spec fn index(self) -> usize {
        match self {
            Group::Food => 1,
            Group::Herbivore => 2,
            Group::Carnivore => 3,
            Group::HerbivoreRay => 4,
            Group::Wall => 5,
            Group::CarnivoreRay => 6,
            Group::CarnivoreZone => 7,
        }
    }

    /// The groups that shapes of this kind may interact with.
    pub open spec fn whitelisted(self) -> Set<usize> {
        match self {
            Group::Food => set![2, 4],
            Group::Herbivore => set![1, 3, 5, 6],
            Group::Carnivore => set![2, 4, 5, 6, 7],
            Group::HerbivoreRay => set![1, 3, 5],
            Group::Wall => set![2, 3, 4, 6],
            Group::CarnivoreRay => set![2, 3, 5],
            Group::CarnivoreZone => set![3],
        }
    }

    /// The groups that shapes of this kind never interact with.
    pub open spec fn blacklisted(self) -> Set<usize> {
        match self {
            Group::Food => set![1, 3, 5, 6, 7],
            Group::Herbivore => set![2, 4, 7],
            Group::Carnivore => set![1, 3],
            Group::HerbivoreRay => set![2, 4, 6, 7],
            Group::Wall => set![1, 5, 7],
            Group::CarnivoreRay => set![1, 4, 6, 7],
            Group::CarnivoreZone => set![1, 2, 4, 5, 6, 7],
        }
    }

    /// Whether a shape of this kind and one of the other interact: each is
    /// on the other's whitelist and neither on the other's blacklist.
    pub open spec fn interacts_with(self, other: Group) -> bool {
        &&& other.whitelisted().contains(self.index())
        &&& self.whitelisted().contains(other.index())
        &&& !other.blacklisted().contains(self.index())
        &&& !self.blacklisted().contains(other.index())
    }

    /// The filter for shapes of this kind.
    pub fn collision_groups(self) -> (groups: CollisionGroups)
        ensures
            membership(groups) == set![self.index()],
            whitelist(groups) == self.whitelisted(),
            blacklist(groups) == self.blacklisted(),
    {
        let (member, white, black): (Vec<usize>, Vec<usize>, Vec<usize>) = match self {
            Group::Food => (vec![1], vec![2, 4], vec![1, 3, 5, 6, 7]),
            Group::Herbivore => (vec![2], vec![1, 3, 5, 6], vec![2, 4, 7]),
            Group::Carnivore => (vec![3], vec![2, 4, 5, 6, 7], vec![1, 3]),
            Group::HerbivoreRay => (vec![4], vec![1, 3, 5], vec![2, 4, 6, 7]),
            Group::Wall => (vec![5], vec![2, 3, 4, 6], vec![1, 5, 7]),
            Group::CarnivoreRay => (vec![6], vec![2, 3, 5], vec![1, 4, 6, 7]),
            Group::CarnivoreZone => (vec![7], vec![3], vec![1, 2, 4, 5, 6, 7]),
        };
        let mut groups = open_filter();
        set_membership(&mut groups, &member);
        set_whitelist(&mut groups, &white);
        set_blacklist(&mut groups, &black);
        proof {
            assert(member@.to_set() =~= set![self.index()]);
            assert(white@.to_set() =~= self.whitelisted());
            assert(black@.to_set() =~= self.blacklisted());
        }
        groups
    }
}

/// Who meets whom. Food meets herbivores and their rays. Herbivores meet
/// food, carnivores, walls and the rays of carnivores. Carnivores meet
/// herbivores, walls, the rays of both kinds and alliance zones. Alliance
/// zones meet carnivores alone. No kind meets itself, and meeting is
/// mutual.
pub proof fn lemma_who_meets_whom()
    ensures
        forall|a: Group, b: Group| a.interacts_with(b) == b.interacts_with(a),
        forall|a: Group| !a.interacts_with(a),
        forall|b: Group|
            Group::Food.interacts_with(b) == (b == Group::Herbivore || b == Group::HerbivoreRay),
        forall|b: Group|
            Group::Herbivore.interacts_with(b) == (b == Group::Food || b == Group::Carnivore || b
                == Group::Wall || b == Group::CarnivoreRay),
        forall|b: Group|
            Group::Carnivore.interacts_with(b) == (b == Group::Herbivore || b == Group::HerbivoreRay
                || b == Group::Wall || b == Group::CarnivoreRay || b == Group::CarnivoreZone),
        forall|b: Group|
            Group::Wall.interacts_with(b) == (b == Group::Herbivore || b == Group::Carnivore || b
                == Group::HerbivoreRay || b == Group::CarnivoreRay),
        forall|b: Group| Group::CarnivoreZone.interacts_with(b) == (b == Group::Carnivore),
{
}

} // verus!
