//! Agents: their geometry, their tick, their death and their new life.
use ncollide2d::pipeline::object::CollisionGroups;
use vstd::prelude::*;

use crate::brain::{readings_in_range, Brain, BrainNetwork, BrainNetworkView, Reading, RAYS};
use crate::collisionobjectdata::{CollisionObjectData, World};
use crate::entity::Entity;
use crate::fixed::{add_clamped, clamp_i32, div_toward_zero, trunc_div, UNIT};
use crate::groups::{blacklist, membership, whitelist, Group};

verus! {

/// Ceiling of an agent's health.
pub const MAX_HEALTH: i32 = 2500;

/// The number `1 / sqrt(2)` on the fixed-point scale: what one unit of
/// diagonal movement advances along each axis.
pub const DIAGONAL: i64 = 707_107;

/// Horizontal and vertical sense of a facing. Facing 0 looks up, and the
/// facings go round clockwise in steps of an eighth of a turn.
pub open spec fn heading(facing: int) -> (int, int) {
    if facing == 0 {
        (0, -1)
    } else if facing == 1 {
        (1, -1)
    } else if facing == 2 {
        (1, 0)
    } else if facing == 3 {
        (1, 1)
    } else if facing == 4 {
        (0, 1)
    } else if facing == 5 {
        (-1, 1)
    } else if facing == 6 {
        (-1, 0)
    } else {
        (-1, -1)
    }
}

/// What a step of length `speed` advances along an axis that it follows:
/// all of `speed` when it follows one axis, `speed / sqrt(2)` when it follows
/// both.
pub open spec fn stride(speed: int, diagonal: bool) -> int {
    if diagonal {
        trunc_div(speed * DIAGONAL, UNIT as int)
    } else {
        speed
    }
}

/// The movement of one tick: a step of length `speed` in the direction of
/// `facing`.
pub open spec fn step(facing: int, speed: int) -> (int, int) {
    let (h, v) = heading(facing);
    let s = stride(speed, h != 0 && v != 0);
    (h * s, v * s)
}

/// The movement of one tick.
pub fn step_of(facing: i8, speed: i64) -> (movement: (i64, i64))
    requires
        0 <= facing < 8,
        speed > i64::MIN,
    ensures
        (movement.0 as int, movement.1 as int) == step(facing as int, speed as int),
{
    let (h, v): (i64, i64) = if facing == 0 {
        (0, -1)
    } else if facing == 1 {
        (1, -1)
    } else if facing == 2 {
        (1, 0)
    } else if facing == 3 {
        (1, 1)
    } else if facing == 4 {
        (0, 1)
    } else if facing == 5 {
        (-1, 1)
    } else if facing == 6 {
        (-1, 0)
    } else {
        (-1, -1)
    };
    let s: i64 = if h != 0 && v != 0 {
        assert(-0x7fff_ffff_ffff_ffff * 707_107 <= speed * DIAGONAL <= 0x7fff_ffff_ffff_ffff
            * 707_107) by (nonlinear_arith)
            requires
                -0x7fff_ffff_ffff_ffff <= speed <= 0x7fff_ffff_ffff_ffff,
                DIAGONAL == 707_107,
        ;
        let wide: i128 = (speed as i128 * DIAGONAL as i128) / (UNIT as i128);
        wide as i64
    } else {
        speed
    };
    (h * s, v * s)
}

/// Half the width of a body of the given size.
pub open spec fn arm(size: int) -> int {
    trunc_div(size, 3)
}

/// The four corners of a body around a centre: above, right, below, left.
pub open spec fn corners(size: int, x: int, y: int) -> Seq<(int, int)> {
    seq![(x, y - arm(size)), (x + arm(size), y), (x, y + arm(size)), (x - arm(size), y)]
}

/// Whether the corners of a body around a centre are within the range of
/// the numbers that hold them.
pub open spec fn corners_fit(size: int, x: int, y: int) -> bool {
    &&& i64::MIN <= x - arm(size) <= i64::MAX
    &&& i64::MIN <= x + arm(size) <= i64::MAX
    &&& i64::MIN <= y - arm(size) <= i64::MAX
    &&& i64::MIN <= y + arm(size) <= i64::MAX
}

/// Whether the corners of a body around a centre are within the range of
/// the numbers that hold them.
pub fn arm_fits(size: i64, pos_x: i64, pos_y: i64) -> (fits: bool)
    ensures
        fits == corners_fit(size as int, pos_x as int, pos_y as int),
{
    let reach: i128 = div_toward_zero(size, 3) as i128;
    let low: i128 = i64::MIN as i128;
    let high: i128 = i64::MAX as i128;
    let x: i128 = pos_x as i128;
    let y: i128 = pos_y as i128;
    low <= x - reach && x - reach <= high && low <= x + reach && x + reach <= high && low <= y
        - reach && y - reach <= high && low <= y + reach && y + reach <= high
}

/// The point half way between two points.
pub open spec fn midpoint(a: (int, int), b: (int, int)) -> (int, int) {
    (trunc_div(a.0 + b.0, 2), trunc_div(a.1 + b.1, 2))
}

/// Where the eight sensor rays leave a body that is centred on the origin:
/// the corners, each followed by the middle of the edge to the next corner.
/// Point `i` lies in the direction of facing `i`.
pub open spec fn sensor_points(size: int) -> Seq<(int, int)> {
    let c = corners(size, 0, 0);
    seq![
        c[0],
        midpoint(c[0], c[1]),
        c[1],
        midpoint(c[1], c[2]),
        c[2],
        midpoint(c[2], c[3]),
        c[3],
        midpoint(c[3], c[0]),
    ]
}

/// The points of a sequence of machine integers pairs.
pub open spec fn points(s: Seq<(i64, i64)>) -> Seq<(int, int)> {
    Seq::new(s.len(), |i: int| (s[i].0 as int, s[i].1 as int))
}

/// An agent as the proofs see it.
pub struct WalkerView {
    pub id: int,
    pub size: int,
    pub handle: int,
    pub env_handle: Option<usize>,
    pub networks: BrainNetworkView,
    pub view_range: int,
    pub mutation_rate: int,
    pub thinking: int,
    pub last_trans: (int, int),
    pub initial_health: int,
    pub health: int,
    pub score: int,
    pub entity: Entity,
    pub speed: int,
    pub thinking_time: int,
    pub facing: int,
}

impl WalkerView {
    /// Whether the agent reads its sensors at the next tick: its countdown
    /// has reached the thinking time.
    pub open spec fn thinks(self) -> bool {
        self.thinking >= self.thinking_time
    }

    /// The score after one tick: one point for the tick and the rewards that
    /// the body collected.
    pub open spec fn score_after_update(self, body: CollisionObjectData) -> int {
        clamp_i32(clamp_i32(self.score + 1) + body.fitness)
    }

    /// The agent after one tick that it lived through. An agent that thinks
    /// takes a new facing from its sensors and commits to a step that way;
    /// another keeps facing and step. Its health is the energy of its body,
    /// capped at `MAX_HEALTH`.
    pub open spec fn after_update(self, body: CollisionObjectData, readings: Seq<Reading>) -> Self {
        let facing = if self.thinks() {
            self.networks.direction(self.view_range, readings, self.entity, self.facing)
        } else {
            self.facing
        };
        WalkerView {
            facing,
            last_trans: if self.thinks() {
                step(facing, self.speed)
            } else {
                self.last_trans
            },
            thinking: if self.thinks() {
                1
            } else {
                self.thinking + 1
            },
            health: if body.energy > MAX_HEALTH {
                MAX_HEALTH as int
            } else {
                body.energy as int
            },
            score: self.score_after_update(body),
            ..self
        }
    }

    /// The record of the agent's body after one tick that the agent lived
    /// through: energy above the ceiling is cut to it, other energy decays by
    /// one; the rewards are taken and the new score is published.
    pub open spec fn body_after_update(self, body: CollisionObjectData) -> CollisionObjectData {
        CollisionObjectData {
            energy: if body.energy > MAX_HEALTH {
                MAX_HEALTH
            } else {
                clamp_i32(body.energy - 1) as i32
            },
            fitness: 0,
            score: self.score_after_update(body) as i32,
            ..body
        }
    }

    /// The agent after a respawn with the given networks.
    pub open spec fn after_respawn(self, networks: BrainNetworkView) -> Self {
        WalkerView {
            health: self.initial_health,
            score: 0,
            thinking: self.thinking_time,
            networks,
            ..self
        }
    }

    /// The record of the agent's body after a respawn.
    pub open spec fn body_after_respawn(self, body: CollisionObjectData) -> CollisionObjectData {
        CollisionObjectData { eaten: false, energy: self.initial_health as i32, ..body }
    }
}

/// Whatever energy a body has collected, a tick leaves health and energy at
/// or below `MAX_HEALTH`.
pub proof fn lemma_health_is_capped(
    walker: WalkerView,
    body: CollisionObjectData,
    readings: Seq<Reading>,
)
    ensures
        walker.after_update(body, readings).health <= MAX_HEALTH,
        walker.body_after_update(body).energy <= MAX_HEALTH,
{
}

/// A respawn resets the score to zero and health and energy to the initial
/// health, whatever they were.
pub proof fn lemma_respawn_resets(
    walker: WalkerView,
    body: CollisionObjectData,
    networks: BrainNetworkView,
)
    requires
        i32::MIN <= walker.initial_health <= i32::MAX,
    ensures
        walker.after_respawn(networks).score == 0,
        walker.after_respawn(networks).health == walker.initial_health,
        walker.body_after_respawn(body).energy == walker.initial_health,
        !walker.body_after_respawn(body).eaten,
{
}

/// What the death test says of a body.
pub open spec fn is_dead_spec(body: CollisionObjectData) -> bool {
    body.eaten || body.energy <= 0
}

/// A herbivore or a carnivore.
pub struct RandomWalker {
    id: i32,
    size: i64,
    handle: usize,
    env_handle: Option<usize>,
    brain: Brain,
    thinking: i32,
    last_trans: (i64, i64),
    initial_health: i32,
    health: i32,
    score: i32,
    entity: Entity,
    speed: i64,
    thinking_time: i32,
    facing: i8,
}

impl View for RandomWalker {
    type V = WalkerView;

    closed spec fn view(&self) -> WalkerView {
        WalkerView {
            id: self.id as int,
            size: self.size as int,
            handle: self.handle as int,
            env_handle: self.env_handle,
            networks: self.brain.networks(),
            view_range: self.brain.view_range(),
            mutation_rate: self.brain.mutation_rate(),
            thinking: self.thinking as int,
            last_trans: (self.last_trans.0 as int, self.last_trans.1 as int),
            initial_health: self.initial_health as int,
            health: self.health as int,
            score: self.score as int,
            entity: self.entity,
            speed: self.speed as int,
            thinking_time: self.thinking_time as int,
            facing: self.facing as int,
        }
    }
}

impl RandomWalker {
    /// The networks are well formed, the sensors reach somewhere, the facing
    /// is one of the eight, and the countdown has not run past the thinking
    /// time.
    pub closed spec fn wf(&self) -> bool {
        &&& self.brain.wf()
        &&& 0 <= self.facing < 8
        &&& self.speed > i64::MIN
        &&& (self.thinking <= self.thinking_time || self.thinking <= 1)
    }

    /// What well-formedness says of the view.
    pub proof fn lemma_wf(&self)
        requires
            self.wf(),
        ensures
            self@.networks.wf(),
            self@.view_range > 0,
            0 <= self@.facing < 8,
            i64::MIN < self@.speed <= i64::MAX,
            self@.thinking <= self@.thinking_time || self@.thinking <= 1,
            i32::MIN <= self@.initial_health <= i32::MAX,
            i32::MIN <= self@.health <= i32::MAX,
            i32::MIN <= self@.score <= i32::MAX,
            0 <= self@.handle <= usize::MAX,
    {
    }

    /// An agent that faces up and to the right, has not moved yet, and reads
    /// its sensors at its first tick.
    pub fn new(
        handle: usize,
        env_handle: Option<usize>,
        id: i32,
        size: i64,
        speed: i64,
        health: i32,
        entity: Entity,
        thinking_time: i32,
        view_range: i64,
        mutation_rate: i64,
        seed: u64,
    ) -> (walker: Self)
        requires
            view_range > 0,
            speed > i64::MIN,
        ensures
            walker.wf(),
            walker@.id == id,
            walker@.size == size,
            walker@.handle == handle,
            walker@.env_handle == env_handle,
            walker@.view_range == view_range,
            walker@.mutation_rate == mutation_rate,
            walker@.thinking == thinking_time,
            walker@.last_trans == (0int, 0int),
            walker@.initial_health == health,
            walker@.health == health,
            walker@.score == 0,
            walker@.entity == entity,
            walker@.speed == speed,
            walker@.thinking_time == thinking_time,
            walker@.facing == 1,
    {
        RandomWalker {
            id,
            size,
            handle,
            env_handle,
            facing: 1,
            brain: Brain::new(view_range, mutation_rate, seed),
            thinking: thinking_time,
            last_trans: (0, 0),
            initial_health: health,
            health,
            score: 0,
            entity,
            speed,
            thinking_time,
        }
    }

    pub fn get_id(&self) -> (id: i32)
        ensures
            id == self@.id,
    {
        self.id
    }

    pub fn get_handle(&self) -> (handle: usize)
        ensures
            handle == self@.handle,
    {
        self.handle
    }

    /// The handle of the alliance zone, which carnivores have.
    pub fn get_env_handle(&self) -> (handle: Option<usize>)
        ensures
            handle == self@.env_handle,
    {
        self.env_handle
    }

    pub fn get_health(&self) -> (health: i32)
        ensures
            health == self@.health,
    {
        self.health
    }

    pub fn get_score(&self) -> (score: i32)
        ensures
            score == self@.score,
    {
        self.score
    }

    pub fn get_entity(&self) -> (entity: Entity)
        ensures
            entity == self@.entity,
    {
        self.entity
    }

    pub fn get_facing(&self) -> (facing: i8)
        ensures
            facing == self@.facing,
    {
        self.facing
    }

    pub fn get_size(&self) -> (size: i64)
        ensures
            size == self@.size,
    {
        self.size
    }

    /// A copy of the agent's networks.
    pub fn get_brain(&self) -> (networks: BrainNetwork)
        ensures
            networks@ == self@.networks,
    {
        self.brain.get_networks()
    }

    /// How far the sensors reach.
    pub fn max_sensor_distance(&self) -> (range: i64)
        ensures
            range == self@.view_range,
    {
        self.brain.max_sensor_distance()
    }

    /// Whether the agent reads its sensors at the next tick.
    pub fn is_thinking(&self) -> (b: bool)
        ensures
            b == self@.thinks(),
    {
        self.thinking >= self.thinking_time
    }

    /// The collision filter of the agent's sensor rays.
    pub fn ray_group(&self) -> (groups: CollisionGroups)
        ensures
            self@.entity == Entity::HERBIVORE ==> {
                &&& membership(groups) == set![Group::HerbivoreRay.index()]
                &&& whitelist(groups) == Group::HerbivoreRay.whitelisted()
                &&& blacklist(groups) == Group::HerbivoreRay.blacklisted()
            },
            self@.entity != Entity::HERBIVORE ==> {
                &&& membership(groups) == set![Group::CarnivoreRay.index()]
                &&& whitelist(groups) == Group::CarnivoreRay.whitelisted()
                &&& blacklist(groups) == Group::CarnivoreRay.blacklisted()
            },
    {
        match self.entity {
            Entity::HERBIVORE => Group::HerbivoreRay.collision_groups(),
            _ => Group::CarnivoreRay.collision_groups(),
        }
    }

    /// The corners of a body of the given size around a centre.
    pub fn polygon_points(size: i64, pos_x: i64, pos_y: i64) -> (corner_points: Vec<(i64, i64)>)
        requires
            corners_fit(size as int, pos_x as int, pos_y as int),
        ensures
            points(corner_points@) == corners(size as int, pos_x as int, pos_y as int),
    {
        let arm_size = div_toward_zero(size, 3);
        let top = (pos_x, pos_y - arm_size);
        let right = (pos_x + arm_size, pos_y);
        let bottom = (pos_x, pos_y + arm_size);
        let left = (pos_x - arm_size, pos_y);
        let corner_points = vec![top, right, bottom, left];
        assert(points(corner_points@) =~= corners(size as int, pos_x as int, pos_y as int));
        corner_points
    }

    /// Where the eight sensor rays leave the body, relative to its centre.
    pub fn get_sensor_points(&self) -> (sensors: Vec<(i64, i64)>)
        ensures
            points(sensors@) == sensor_points(self@.size),
    {
        let corner_points = RandomWalker::polygon_points(self.size, 0, 0);
        assert(corner_points.len() == 4 && forall|i: int|
            0 <= i < 4 ==> (#[trigger] corner_points[i].0 as int, corner_points[i].1 as int)
                == corners(self.size as int, 0, 0)[i]) by {
            assert(points(corner_points@).len() == 4);
            assert forall|i: int| 0 <= i < 4 implies (
                #[trigger] corner_points[i].0 as int,
                corner_points[i].1 as int,
            ) == corners(self.size as int, 0, 0)[i] by {
                assert(points(corner_points@)[i] == corners(self.size as int, 0, 0)[i]);
            }
        }
        let mut sensors: Vec<(i64, i64)> = Vec::new();
        let mut i: usize = 0;
        while i < 4
            invariant
                i <= 4,
                corner_points.len() == 4,
                forall|k: int|
                    0 <= k < 4 ==> (#[trigger] corner_points[k].0 as int, corner_points[k].1 as int)
                        == corners(self.size as int, 0, 0)[k],
                sensors.len() == 2 * i,
                forall|k: int|
                    0 <= k < 2 * i ==> (#[trigger] sensors[k].0 as int, sensors[k].1 as int)
                        == sensor_points(self.size as int)[k],
            decreases 4 - i,
        {
            let (x1, y1) = corner_points[i];
            let (x2, y2) = corner_points[(i + 1) % 4];
            assert((x1 as int, y1 as int) == corners(self.size as int, 0, 0)[i as int]);
            assert((x2 as int, y2 as int) == corners(self.size as int, 0, 0)[(i + 1) % 4]);
            sensors.push((x1, y1));
            sensors.push((div_toward_zero(x1 + x2, 2), div_toward_zero(y1 + y2, 2)));
            i = i + 1;
        }
        assert(points(sensors@) =~= sensor_points(self.size as int));
        sensors
    }

    /// Whether the agent's body was eaten or has no energy left.
    pub fn is_dead(&self, world: &World) -> (dead: bool)
        requires
            self@.handle < world@.len(),
        ensures
            dead == is_dead_spec(world@[self@.handle]),
    {
        let body = world.data(self.handle);
        body.eaten || body.energy <= 0
    }

    /// Hands on what the rays report if the agent reads its sensors at this
    /// tick, and nothing otherwise. Reading the sensors restarts the
    /// countdown.
    fn get_ray_interferences(&mut self, hits: Vec<Reading>) -> (readings: Vec<Reading>)
        ensures
            old(self)@.thinks() ==> readings@ == hits@ && final(self)@ == (WalkerView {
                thinking: 0,
                ..old(self)@
            }),
            !old(self)@.thinks() ==> readings@.len() == 0 && final(self)@ == old(self)@,
            final(self).brain == old(self).brain,
            final(self).speed == old(self).speed,
            final(self).facing == old(self).facing,
    {
        if self.thinking >= self.thinking_time {
            self.thinking = 0;
            hits
        } else {
            Vec::new()
        }
    }

    /// Lives through one tick. `detected_objects` holds what the eight rays
    /// report; it is read only if the agent thinks at this tick. The result
    /// is the movement to apply to the agent's body, and to its alliance
    /// zone if it has one.
    pub fn update(&mut self, world: &mut World, detected_objects: Vec<Reading>) -> (movement: (
        i64,
        i64,
    ))
        requires
            old(self).wf(),
            old(self)@.handle < old(world)@.len(),
            old(self)@.thinks() ==> detected_objects.len() == RAYS && readings_in_range(
                detected_objects@,
                old(self)@.view_range,
            ),
        ensures
            final(self).wf(),
            final(self)@ == old(self)@.after_update(
                old(world)@[old(self)@.handle],
                detected_objects@,
            ),
            final(world)@ == old(world)@.update(
                old(self)@.handle,
                old(self)@.body_after_update(old(world)@[old(self)@.handle]),
            ),
            (movement.0 as int, movement.1 as int) == final(self)@.last_trans,
            final(self)@.health <= MAX_HEALTH,
    {
        let readings = self.get_ray_interferences(detected_objects);
        let movement = if readings.len() > 0 {
            self.facing = self.brain.get_new_direction(readings, self.entity, self.facing);
            let movement = step_of(self.facing, self.speed);
            self.last_trans = movement;
            movement
        } else {
            self.last_trans
        };
        self.thinking = self.thinking + 1;
        let mut body = world.data(self.handle);
        self.health = body.energy;
        if self.health > MAX_HEALTH {
            self.health = MAX_HEALTH;
            body.energy = MAX_HEALTH;
        } else {
            body.energy = add_clamped(self.health, -1);
        }
        self.score = add_clamped(self.score, 1);
        self.score = add_clamped(self.score, body.fitness);
        body.fitness = 0;
        body.score = self.score;
        world.set_data(self.handle, body);
        movement
    }

    /// Starts a new life: full health, no score, sensors read at the next
    /// tick, and the given networks, which are mutated by chance if `mutate`
    /// is set. The body is no longer eaten and has the initial energy.
    pub fn respawn(&mut self, world: &mut World, mutate: bool, networks: BrainNetwork)
        requires
            old(self).wf(),
            networks.wf(),
            old(self)@.handle < old(world)@.len(),
        ensures
            final(self).wf(),
            final(self)@ == old(self)@.after_respawn(final(self)@.networks),
            !mutate ==> final(self)@.networks == networks@,
            mutate ==> networks@.same_or_one_cell_replaced(final(self)@.networks),
            mutate && old(self)@.mutation_rate >= UNIT - 1 ==> final(self)@.networks == networks@,
            final(world)@ == old(world)@.update(
                old(self)@.handle,
                old(self)@.body_after_respawn(old(world)@[old(self)@.handle]),
            ),
    {
        let mut body = world.data(self.handle);
        body.eaten = false;
        self.health = self.initial_health;
        body.energy = self.initial_health;
        world.set_data(self.handle, body);
        self.brain.set_networks(networks);
        if mutate {
            self.brain.mutate();
        }
        self.thinking = self.thinking_time;
        self.score = 0;
    }
}

} // verus!
