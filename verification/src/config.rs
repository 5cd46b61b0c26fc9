//! The configuration of a run, and what it says of how the run starts.
use vstd::prelude::*;

use crate::collisionobjectdata::{CollisionObjectData, STARTING_ENERGY};
use crate::entity::Entity;
use crate::fixed::{trunc_div, UNIT};
use crate::groups::Group;
use crate::interaction::Rules;
use crate::placement::Shape;
use crate::random_helper::MARGIN;
use crate::wall::Wall;

verus! {

/// What a run is set up with. Numbers that may have a fractional part are
/// fixed-point numbers.
#[derive(Clone, Copy, Debug)]
pub struct Config {
    pub food_amount: i32,
    pub herbivore_amount: i32,
    pub carnivore_amount_1: i32,
    pub carnivore_amount_2: i32,
    pub updates_per_second: i64,
    pub screen_size_x: i64,
    pub screen_size_y: i64,
    pub seed: u64,
    pub herbivore_speed: i64,
    pub carnivore_speed: i64,
    pub initial_herbivore_health: i32,
    pub initial_carnivore_health: i32,
    pub food_nutrition: i32,
    pub herbivore_nutrition: i32,
    pub threshold_herbivore_score: i32,
    /// Percentage of a bounty that a carnivore of the first faction shares.
    pub sharing_percentage_1: i32,
    /// Percentage of a bounty that a carnivore of the second faction shares.
    pub sharing_percentage_2: i32,
    /// Radius of the alliance zone of a carnivore.
    pub share_range: i64,
    pub mutation_rate: i64,
    pub herbivore_size: i64,
    pub carnivore_size: i64,
    pub thinking_time: i32,
    pub view_range: i64,
    /// Minute at which the recording starts.
    pub start_recording: u64,
    /// Minutes that the recording lasts.
    pub recording_duration: u64,
    pub record_all_details: bool,
}

/// Why a configuration cannot be run.
#[derive(Clone, Copy, Debug, PartialEq, Eq, Structural)]
pub enum ConfigError {
    /// The arena leaves no room between its margins.
    ArenaTooSmall,
    /// The sensors reach nowhere.
    ViewRangeNotPositive,
    /// The bounty of a herbivore would be divided by zero.
    ThresholdIsZero,
    /// A speed has no opposite.
    SpeedOutOfRange,
    /// The ids of the carnivores do not fit.
    TooManyCarnivores,
}

/// How many agents an amount stands for: none where it is negative.
pub open spec fn count(amount: i32) -> int {
    if amount < 0 {
        0
    } else {
        amount as int
    }
}

impl Config {
    /// The first reason why the configuration cannot be run, if there is
    /// one.
    pub open spec fn fault(self) -> Option<ConfigError> {
        if self.screen_size_x <= 2 * MARGIN || self.screen_size_y <= 2 * MARGIN {
            Some(ConfigError::ArenaTooSmall)
        } else if self.view_range <= 0 {
            Some(ConfigError::ViewRangeNotPositive)
        } else if self.threshold_herbivore_score == 0 {
            Some(ConfigError::ThresholdIsZero)
        } else if self.herbivore_speed == i64::MIN || self.carnivore_speed == i64::MIN {
            Some(ConfigError::SpeedOutOfRange)
        } else if count(self.carnivore_amount_1) + count(self.carnivore_amount_2) > i32::MAX {
            Some(ConfigError::TooManyCarnivores)
        } else {
            None
        }
    }

    /// Whether the configuration can be run.
    pub open spec fn valid(self) -> bool {
        self.fault() is None
    }

    /// Says whether the configuration can be run, and why not if it cannot.
    pub fn validate(&self) -> (result: Result<(), ConfigError>)
        ensures
            result == (match self.fault() {
                Some(error) => Err::<(), ConfigError>(error),
                None => Ok(()),
            }),
            result is Ok <==> self.valid(),
    {
        if self.screen_size_x <= 2 * MARGIN || self.screen_size_y <= 2 * MARGIN {
            Err(ConfigError::ArenaTooSmall)
        } else if self.view_range <= 0 {
            Err(ConfigError::ViewRangeNotPositive)
        } else if self.threshold_herbivore_score == 0 {
            Err(ConfigError::ThresholdIsZero)
        } else if self.herbivore_speed == i64::MIN || self.carnivore_speed == i64::MIN {
            Err(ConfigError::SpeedOutOfRange)
        } else if count_of(self.carnivore_amount_1) as i64 + count_of(
            self.carnivore_amount_2,
        ) as i64 > i32::MAX as i64 {
            Err(ConfigError::TooManyCarnivores)
        } else {
            Ok(())
        }
    }

    /// The time between two ticks in milliseconds: a thousand divided by the
    /// update rate. A rate of zero gives the longest time there is, a
    /// negative rate none.
    pub open spec fn millis_per_update_spec(self) -> int {
        if self.updates_per_second > 0 {
            1000 * UNIT / (self.updates_per_second as int)
        } else if self.updates_per_second == 0 {
            u64::MAX as int
        } else {
            0
        }
    }

    /// The time between two ticks in milliseconds.
    pub fn millis_per_update(&self) -> (millis: u64)
        ensures
            millis == self.millis_per_update_spec(),
    {
        if self.updates_per_second > 0 {
            ((1000 * UNIT) / self.updates_per_second) as u64
        } else if self.updates_per_second == 0 {
            u64::MAX
        } else {
            0
        }
    }
}

/// The record of a body that was just created.
pub open spec fn new_body(
    entity_type: Entity,
    id: int,
    env_handle: Option<usize>,
) -> CollisionObjectData {
    CollisionObjectData {
        entity_type,
        id: id as i32,
        env_handle,
        fitness: 0,
        eaten: false,
        energy: STARTING_ENERGY,
        score: 0,
    }
}

/// The id of every piece of food.
pub const FOOD_ID: i32 = -2;

/// The id of every wall.
pub const WALL_ID: i32 = -1;

impl Config {
    /// The constants that govern what a contact does.
    pub open spec fn rules(self) -> Rules {
        Rules {
            food_nutrition: self.food_nutrition,
            herbivore_nutrition: self.herbivore_nutrition,
            threshold_herbivore_score: self.threshold_herbivore_score,
            sharing_percentage_1: self.sharing_percentage_1,
            sharing_percentage_2: self.sharing_percentage_2,
        }
    }

    /// The handle of the first herbivore: the food comes before it.
    pub open spec fn first_herbivore(self) -> int {
        count(self.food_amount)
    }

    /// The handle of the alliance zone of the first carnivore of the first
    /// faction. Each carnivore takes two handles, one for its alliance zone
    /// and the next for its body.
    pub open spec fn first_carnivore_1(self) -> int {
        self.first_herbivore() + count(self.herbivore_amount)
    }

    /// The handle of the alliance zone of the first carnivore of the second
    /// faction.
    pub open spec fn first_carnivore_2(self) -> int {
        self.first_carnivore_1() + 2 * count(self.carnivore_amount_1)
    }

    /// The handle of the first wall.
    pub open spec fn first_wall(self) -> int {
        self.first_carnivore_2() + 2 * count(self.carnivore_amount_2)
    }

    /// The record of the body with the given handle at the start of a run.
    /// Herbivores are numbered from zero, and so are the carnivores, those
    /// of the first faction first; an alliance zone has the id of its
    /// carnivore.
    pub open spec fn initial_body(self, handle: int) -> CollisionObjectData {
        if handle < self.first_herbivore() {
            new_body(Entity::FOOD, FOOD_ID as int, None)
        } else if handle < self.first_carnivore_1() {
            new_body(Entity::HERBIVORE, handle - self.first_herbivore(), None)
        } else if handle < self.first_wall() {
            let k = handle - self.first_carnivore_1();
            if k % 2 == 0 {
                new_body(Entity::OTHER, k / 2, None)
            } else {
                new_body(Entity::CARNIVORE, k / 2, Some((handle - 1) as usize))
            }
        } else {
            new_body(Entity::WALL, WALL_ID as int, None)
        }
    }

    /// The collision group of the body with the given handle.
    pub open spec fn initial_group(self, handle: int) -> Group {
        if handle < self.first_herbivore() {
            Group::Food
        } else if handle < self.first_carnivore_1() {
            Group::Herbivore
        } else if handle < self.first_wall() {
            if (handle - self.first_carnivore_1()) % 2 == 0 {
                Group::CarnivoreZone
            } else {
                Group::Carnivore
            }
        } else {
            Group::Wall
        }
    }
}

impl Config {
    /// The shape of the body with the given handle: food is a disc of half
    /// the size of a herbivore, an alliance zone a disc as wide as carnivores
    /// share, a wall the line between its ends.
    pub open spec fn initial_shape(self, handle: int, walls: Seq<WallConfig>) -> Shape {
        if handle < self.first_herbivore() {
            Shape::Ball { radius: trunc_div(self.herbivore_size as int, 2) as i64 }
        } else if handle < self.first_carnivore_1() {
            Shape::Polygon { size: self.herbivore_size }
        } else if handle < self.first_wall() {
            if (handle - self.first_carnivore_1()) % 2 == 0 {
                Shape::Ball { radius: self.share_range }
            } else {
                Shape::Polygon { size: self.carnivore_size }
            }
        } else {
            let wall = walls[handle - self.first_wall()].placed(
                self.screen_size_x as int,
                self.screen_size_y as int,
            );
            Shape::Segment { first: wall.first, second: wall.second }
        }
    }
}

impl Config {
    /// The records of the first `bodies` bodies at the start of a run.
    pub open spec fn initial_world(self, bodies: int) -> Seq<CollisionObjectData> {
        Seq::new(bodies as nat, |handle: int| self.initial_body(handle))
    }
}

/// How many agents an amount stands for.
pub fn count_of(amount: i32) -> (n: usize)
    ensures
        n == count(amount),
{
    if amount < 0 {
        0
    } else {
        amount as usize
    }
}

/// A wall as a configuration gives it: its ends as fractions of the width
/// and of the height of the arena.
#[derive(Clone, Copy, Debug)]
pub struct WallConfig {
    pub x1: i64,
    pub y1: i64,
    pub x2: i64,
    pub y2: i64,
}

/// The nearest number to `x` that an `i64` can hold.
pub open spec fn clamp_i64(x: int) -> int {
    if x < i64::MIN {
        i64::MIN as int
    } else if x > i64::MAX {
        i64::MAX as int
    } else {
        x
    }
}

/// A fraction of a length.
pub open spec fn scaled(fraction: int, length: int) -> int {
    clamp_i64(trunc_div(fraction * length, UNIT as int))
}

/// A fraction of a length.
pub fn scale(fraction: i64, length: i64) -> (part: i64)
    ensures
        part == scaled(fraction as int, length as int),
{
    assert(-0x8000_0000_0000_0000 * 0x8000_0000_0000_0000 <= fraction * length
        <= 0x8000_0000_0000_0000 * 0x8000_0000_0000_0000) by (nonlinear_arith)
        requires
            -0x8000_0000_0000_0000 <= fraction <= 0x8000_0000_0000_0000,
            -0x8000_0000_0000_0000 <= length <= 0x8000_0000_0000_0000,
    ;
    let wide: i128 = (fraction as i128 * length as i128) / (UNIT as i128);
    if wide < i64::MIN as i128 {
        i64::MIN
    } else if wide > i64::MAX as i128 {
        i64::MAX
    } else {
        wide as i64
    }
}

impl WallConfig {
    /// The wall in an arena of the given width and height.
    pub open spec fn placed(self, width: int, height: int) -> Wall {
        Wall {
            first: (scaled(self.x1 as int, width) as i64, scaled(self.y1 as int, height) as i64),
            second: (scaled(self.x2 as int, width) as i64, scaled(self.y2 as int, height) as i64),
        }
    }

    /// The wall in an arena of the given width and height.
    pub fn place(&self, width: i64, height: i64) -> (wall: Wall)
        ensures
            wall == self.placed(width as int, height as int),
    {
        Wall::new(
            (scale(self.x1, width), scale(self.y1, height)),
            (scale(self.x2, width), scale(self.y2, height)),
        )
    }
}

} // verus!
