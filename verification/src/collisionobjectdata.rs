//! The record that the simulation keeps for every body, and the store of
//! these records.
use vstd::prelude::*;

use crate::entity::Entity;

verus! {

/// Energy of a body that was just created.
pub const STARTING_ENERGY: i32 = 400;

/// What the simulation keeps for every body of the arena.
///
/// `energy` is the authoritative health of an agent. `fitness` collects the
/// rewards of one tick until the agent folds them into its score. `eaten`
/// marks a body that was consumed or that ran into a wall.
#[derive(Clone, Copy, Debug)]
pub struct CollisionObjectData {
    pub entity_type: Entity,
    pub id: i32,
    /// The body of the alliance zone that goes with a carnivore.
    pub env_handle: Option<usize>,
    pub fitness: i32,
    pub eaten: bool,
    pub energy: i32,
    pub score: i32,
}

impl CollisionObjectData {
    pub fn new(entity_type: Entity, id: i32, env_handle: Option<usize>) -> (data: Self)
        ensures
            data == (CollisionObjectData {
                entity_type,
                id,
                env_handle,
                fitness: 0,
                eaten: false,
                energy: STARTING_ENERGY,
                score: 0,
            }),
    {
        CollisionObjectData {
            entity_type,
            id,
            env_handle,
            fitness: 0,
            eaten: false,
            energy: STARTING_ENERGY,
            score: 0,
        }
    }
}

/// The records of all bodies, each found again by the handle that `add` gave
/// for it.
pub struct World {
    objects: Vec<CollisionObjectData>,
}

impl View for World {
    type V = Seq<CollisionObjectData>;

    closed spec fn view(&self) -> Seq<CollisionObjectData> {
        self.objects@
    }
}

impl World {
    pub fn new() -> (world: Self)
        ensures
            world@ == Seq::<CollisionObjectData>::empty(),
    {
        World { objects: Vec::new() }
    }

    /// Number of bodies.
    pub fn len(&self) -> (n: usize)
        ensures
            n == self@.len(),
    {
        self.objects.len()
    }

    /// Takes a body in and gives its handle.
    pub fn add(&mut self, data: CollisionObjectData) -> (handle: usize)
        ensures
            handle == old(self)@.len(),
            final(self)@ == old(self)@.push(data),
    {
        let handle = self.objects.len();
        self.objects.push(data);
        handle
    }

    /// The record of a body.
    pub fn data(&self, handle: usize) -> (data: CollisionObjectData)
        requires
            handle < self@.len(),
        ensures
            data == self@[handle as int],
    {
        self.objects[handle]
    }

    /// The record of a body, if `handle` names one.
    pub fn get(&self, handle: usize) -> (data: Option<CollisionObjectData>)
        ensures
            data == (if handle < self@.len() {
                Some(self@[handle as int])
            } else {
                None
            }),
    {
        if handle < self.objects.len() {
            Some(self.objects[handle])
        } else {
            None
        }
    }

    /// Replaces the record of a body.
    pub fn set_data(&mut self, handle: usize, data: CollisionObjectData)
        requires
            handle < old(self)@.len(),
        ensures
            final(self)@ == old(self)@.update(handle as int, data),
    {
        self.objects.set(handle, data);
    }
}

} // verus!
