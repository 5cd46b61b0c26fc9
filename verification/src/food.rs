//! Food.
use vstd::prelude::*;

use crate::collisionobjectdata::{CollisionObjectData, World};
use crate::random_helper::{RandomHelper, MARGIN};

verus! {

/// A piece of food. It is never removed: once eaten it turns up again at
/// another place.
pub struct Food {
    handle: usize,
    size: i64,
}

impl Food {
    /// The handle of the body.
    pub closed spec fn handle(&self) -> int {
        self.handle as int
    }

    /// The radius of the body.
    pub closed spec fn size(&self) -> int {
        self.size as int
    }

    pub fn new(handle: usize, size: i64) -> (food: Self)
        ensures
            food.handle() == handle,
            food.size() == size,
    {
        Food { handle, size }
    }

    pub fn get_handle(&self) -> (handle: usize)
        ensures
            handle == self.handle(),
    {
        self.handle
    }

    pub fn get_size(&self) -> (size: i64)
        ensures
            size == self.size(),
    {
        self.size
    }

    /// Renews the food if it was eaten: the mark is taken off its body, and
    /// the result is the place, inside the margins of the arena, where it
    /// turns up again. Food that was not eaten stays as it is.
    pub fn update(&mut self, world: &mut World, random: &mut RandomHelper) -> (place: Option<
        (i64, i64),
    >)
        requires
            0 <= old(self).handle() < old(world)@.len(),
            old(random).screen_size_x() > 2 * MARGIN,
            old(random).screen_size_y() > 2 * MARGIN,
        ensures
            *final(self) == *old(self),
            final(random).screen_size_x() == old(random).screen_size_x(),
            final(random).screen_size_y() == old(random).screen_size_y(),
            old(world)@[old(self).handle()].eaten ==> {
                &&& place matches Some(point)
                &&& MARGIN <= point.0 < old(random).screen_size_x() - MARGIN
                &&& MARGIN <= point.1 < old(random).screen_size_y() - MARGIN
                &&& final(world)@ == old(world)@.update(
                    old(self).handle(),
                    CollisionObjectData { eaten: false, ..old(world)@[old(self).handle()] },
                )
            },
            !old(world)@[old(self).handle()].eaten ==> place is None && final(world)@ == old(
                world,
            )@,
    {
        let mut body = world.data(self.handle);
        if body.eaten {
            let place = random.random_coordinate();
            body.eaten = false;
            world.set_data(self.handle, body);
            Some(place)
        } else {
            None
        }
    }
}

} // verus!
