//! A population through a tick: breeding from the top tenth, the step of
//! every agent, the sums for the averages, and the ranking by score.
use vstd::prelude::*;

use crate::brain::{readings_in_range, BrainNetwork, BrainNetworkView, Reading, RAYS};
use crate::collisionobjectdata::{CollisionObjectData, World};
use crate::fixed::{trunc_div, UNIT};
use crate::random_helper::{RandomHelper, MARGIN};
use crate::randomwalker::{is_dead_spec, RandomWalker, WalkerView};

verus! {

/// How many agents of a population of the given size form its top tenth.
pub open spec fn decile(len: int) -> int {
    len / 10
}

/// How many agents of a population parents are drawn from: the top tenth,
/// or the best agent alone where the top tenth is empty.
pub open spec fn pool(len: int) -> int {
    if decile(len) == 0 {
        1
    } else {
        decile(len)
    }
}

/// How many agents form the top tenth.
pub fn decile_of(len: usize) -> (n: usize)
    ensures
        n == decile(len as int),
{
    len / 10
}

/// How many agents parents are drawn from.
pub fn pool_of(len: usize) -> (n: usize)
    ensures
        n == pool(len as int),
{
    if len / 10 == 0 {
        1
    } else {
        len / 10
    }
}

/// The networks of a child: the food network of one parent, the wall network
/// of a second and the carnivore network of a third.
pub open spec fn composite(
    base: BrainNetworkView,
    wall: BrainNetworkView,
    carnivore: BrainNetworkView,
) -> BrainNetworkView {
    BrainNetworkView { food: base.food, wall: wall.wall, carnivore: carnivore.carnivore }
}

/// Whether networks are a composite of the networks of three agents among
/// the first `parents` of a population. The three need not differ.
pub open spec fn bred_from(
    population: Seq<RandomWalker>,
    parents: int,
    networks: BrainNetworkView,
) -> bool {
    exists|base: int, wall: int, carnivore: int|
        0 <= base < parents && 0 <= wall < parents && 0 <= carnivore < parents && networks
            == #[trigger] composite(
            population[base]@.networks,
            population[wall]@.networks,
            population[carnivore]@.networks,
        )
}

/// Every agent is well formed and its body is in the world.
pub open spec fn population_wf(population: Seq<RandomWalker>, bodies: nat) -> bool {
    forall|i: int|
        0 <= i < population.len() ==> (#[trigger] population[i]).wf() && 0 <= population[i]@.handle
            < bodies
}

/// No two agents share a body.
#[verifier::opaque]
pub open spec fn handles_distinct(population: Seq<RandomWalker>) -> bool {
    forall|i: int, j: int|
        0 <= i < population.len() && 0 <= j < population.len() && i != j ==> (
        #[trigger] population[i])@.handle != (#[trigger] population[j])@.handle
}

/// The networks of a child of three given parents.
pub fn compose(
    population: &Vec<RandomWalker>,
    base: usize,
    wall: usize,
    carnivore: usize,
) -> (networks: BrainNetwork)
    requires
        base < population.len(),
        wall < population.len(),
        carnivore < population.len(),
        population[base as int].wf(),
        population[wall as int].wf(),
        population[carnivore as int].wf(),
    ensures
        networks.wf(),
        networks@ == composite(
            population[base as int]@.networks,
            population[wall as int]@.networks,
            population[carnivore as int]@.networks,
        ),
{
    proof {
        population[base as int].lemma_wf();
        population[wall as int].lemma_wf();
        population[carnivore as int].lemma_wf();
    }
    BrainNetwork::recombine(
        population[base].get_brain(),
        population[wall].get_brain(),
        population[carnivore].get_brain(),
    )
}

/// What is drawn for an agent in case it has to start a new life.
pub struct Offspring {
    /// The agent near which the new life starts.
    pub reference: usize,
    /// A random place in the arena.
    pub x: i64,
    pub y: i64,
    /// The networks for the new life.
    pub networks: BrainNetwork,
}

/// Draws the place and the networks of a new life from the pool of parents.
pub fn breed(population: &Vec<RandomWalker>, random: &mut RandomHelper) -> (offspring: Offspring)
    requires
        population.len() > 0,
        forall|i: int| 0 <= i < population.len() ==> (#[trigger] population[i]).wf(),
        old(random).screen_size_x() > 2 * MARGIN,
        old(random).screen_size_y() > 2 * MARGIN,
    ensures
        offspring.reference < pool(population.len() as int),
        offspring.reference < population.len(),
        MARGIN <= offspring.x < final(random).screen_size_x() - MARGIN,
        MARGIN <= offspring.y < final(random).screen_size_y() - MARGIN,
        offspring.networks.wf(),
        bred_from(population@, pool(population.len() as int), offspring.networks@),
        final(random).screen_size_x() == old(random).screen_size_x(),
        final(random).screen_size_y() == old(random).screen_size_y(),
{
    let parents = pool_of(population.len()) as i64;
    let reference = random.random_between(0, parents) as usize;
    let (x, y) = random.random_coordinate();
    let base = random.random_between(0, parents) as usize;
    let wall = random.random_between(0, parents) as usize;
    let carnivore = random.random_between(0, parents) as usize;
    let networks = compose(population, base, wall, carnivore);
    Offspring { reference, x, y, networks }
}

/// The place where a new life starts: two parts the place of the reference
/// agent, one part a random place.
pub open spec fn blend(reference: (int, int), random: (int, int)) -> (int, int) {
    (trunc_div(2 * reference.0 + random.0, 3), trunc_div(2 * reference.1 + random.1, 3))
}

/// The place where a new life starts.
pub fn blend_of(reference: (i64, i64), random: (i64, i64)) -> (place: (i64, i64))
    ensures
        (place.0 as int, place.1 as int) == blend(
            (reference.0 as int, reference.1 as int),
            (random.0 as int, random.1 as int),
        ),
{
    let x: i128 = (2 * (reference.0 as i128) + random.0 as i128) / 3;
    let y: i128 = (2 * (reference.1 as i128) + random.1 as i128) / 3;
    (x as i64, y as i64)
}

/// What has to happen to the body of an agent after its tick.
#[derive(Clone, Copy, Debug, PartialEq, Eq, Structural)]
pub enum Motion {
    /// The body, and its alliance zone if it has one, is put at a place.
    Respawn { x: i64, y: i64 },
    /// The body, and its alliance zone if it has one, moves by a step.
    Move { dx: i64, dy: i64 },
}

/// Whether an agent lived through a tick as it should: `before` and `after`
/// are the agent, `body` and `body_after` its body, `top` says whether it
/// belongs to the top tenth.
///
/// A dead agent starts a new life near the reference place. One of the top
/// tenth keeps its networks; another gets the networks drawn for it, in
/// which chance may have replaced one weight. A living agent is updated and
/// moves by the step it is committed to.
pub open spec fn stepped(
    before: WalkerView,
    after: WalkerView,
    body: CollisionObjectData,
    body_after: CollisionObjectData,
    top: bool,
    drawn: BrainNetworkView,
    place: (int, int),
    readings: Seq<Reading>,
    motion: Motion,
) -> bool {
    if is_dead_spec(body) {
        &&& after == before.after_respawn(after.networks)
        &&& top ==> after.networks == before.networks
        &&& !top ==> drawn.same_or_one_cell_replaced(after.networks)
        &&& !top && before.mutation_rate >= UNIT - 1 ==> after.networks == drawn
        &&& body_after == before.body_after_respawn(body)
        &&& motion == Motion::Respawn { x: place.0 as i64, y: place.1 as i64 }
    } else {
        &&& after == before.after_update(body, readings)
        &&& body_after == before.body_after_update(body)
        &&& motion matches Motion::Move { dx, dy }
        &&& (dx as int, dy as int) == after.last_trans
    }
}

/// Whether the sensors of an agent are needed at this tick: the agent is
/// alive and reads them.
pub open spec fn senses(walker: WalkerView, body: CollisionObjectData) -> bool {
    !is_dead_spec(body) && walker.thinks()
}

/// Lets one agent of a population live through a tick. `offspring` is what
/// was drawn for it, `reference_position` the place of the reference agent
/// that was drawn, `detected` what its rays report if its sensors are
/// needed.
pub fn step_walker(
    population: &mut Vec<RandomWalker>,
    world: &mut World,
    index: usize,
    offspring: Offspring,
    reference_position: (i64, i64),
    detected: Vec<Reading>,
) -> (motion: Motion)
    requires
        index < old(population).len(),
        old(population)[index as int].wf(),
        old(population)[index as int]@.handle < old(world)@.len(),
        offspring.networks.wf(),
        senses(old(population)[index as int]@, old(world)@[old(population)[index as int]@.handle])
            ==> detected.len() == RAYS && readings_in_range(
            detected@,
            old(population)[index as int]@.view_range,
        ),
    ensures
        final(population).len() == old(population).len(),
        forall|k: int|
            0 <= k < old(population).len() && k != index ==> final(population)[k] == old(
                population,
            )[k],
        final(population)[index as int].wf(),
        final(population)[index as int]@.handle == old(population)[index as int]@.handle,
        final(world)@ == old(world)@.update(
            old(population)[index as int]@.handle,
            final(world)@[old(population)[index as int]@.handle],
        ),
        stepped(
            old(population)[index as int]@,
            final(population)[index as int]@,
            old(world)@[old(population)[index as int]@.handle],
            final(world)@[old(population)[index as int]@.handle],
            index < decile(old(population).len() as int),
            offspring.networks@,
            blend(
                (reference_position.0 as int, reference_position.1 as int),
                (offspring.x as int, offspring.y as int),
            ),
            detected@,
            motion,
        ),
{
    let top = index < decile_of(population.len());
    let walker = &mut population[index];
    proof {
        walker.lemma_wf();
    }
    if walker.is_dead(world) {
        if top {
            let own = walker.get_brain();
            walker.respawn(world, false, own);
        } else {
            walker.respawn(world, true, offspring.networks);
        }
        let place = blend_of(reference_position, (offspring.x, offspring.y));
        Motion::Respawn { x: place.0, y: place.1 }
    } else {
        let movement = walker.update(world, detected);
        Motion::Move { dx: movement.0, dy: movement.1 }
    }
}

/// Sum of the health of the first `n` agents.
pub open spec fn health_sum(population: Seq<RandomWalker>, n: int) -> int
    decreases n,
{
    if n <= 0 {
        0
    } else {
        health_sum(population, n - 1) + population[n - 1]@.health
    }
}

/// Sum of the scores of the first `n` agents.
pub open spec fn score_sum(population: Seq<RandomWalker>, n: int) -> int
    decreases n,
{
    if n <= 0 {
        0
    } else {
        score_sum(population, n - 1) + population[n - 1]@.score
    }
}

/// The sums switch from one population to another that agrees with it on
/// the first `n` agents.
pub proof fn lemma_sums_agree(a: Seq<RandomWalker>, b: Seq<RandomWalker>, n: int)
    requires
        n <= a.len(),
        n <= b.len(),
        forall|k: int| 0 <= k < n ==> a[k]@ == b[k]@,
    ensures
        health_sum(a, n) == health_sum(b, n),
        score_sum(a, n) == score_sum(b, n),
    decreases n,
{
    if n > 0 {
        lemma_sums_agree(a, b, n - 1);
    }
}

/// The sums of health and score over a population, taken before its agents
/// lived through a tick, and over its top tenth, taken after.
pub struct Tally {
    pub size: usize,
    pub health: i128,
    pub score: i128,
    pub top_health: i128,
    pub top_score: i128,
}

/// A sum divided by a count, as a fixed-point number; zero where nothing
/// was counted.
pub open spec fn average(sum: int, count: int) -> int {
    if count <= 0 {
        0
    } else {
        trunc_div(sum * UNIT, count)
    }
}

/// A sum of `count` numbers of 32 bits divided by `count`.
pub fn average_of(sum: i128, count: usize) -> (mean: i64)
    requires
        -0x8000_0000 * count <= sum <= 0x8000_0000 * count,
    ensures
        mean == average(sum as int, count as int),
{
    if count == 0 {
        0
    } else {
        assert(-0x8000_0000 * count * 1_000_000 <= sum * UNIT <= 0x8000_0000 * count * 1_000_000
            && 0x8000_0000 * count * 1_000_000 <= 0x8000_0000 * 0x1_0000_0000_0000_0000
            * 1_000_000) by (nonlinear_arith)
            requires
                -0x8000_0000 * count <= sum <= 0x8000_0000 * count,
                0 < count <= 0x1_0000_0000_0000_0000,
                UNIT == 1_000_000,
        ;
        let scaled: i128 = sum * (UNIT as i128);
        let mean: i128 = scaled / (count as i128);
        assert(-0x8000_0000 * 1_000_000 <= mean <= 0x8000_0000 * 1_000_000) by (nonlinear_arith)
            requires
                -0x8000_0000 * count * 1_000_000 <= scaled <= 0x8000_0000 * count * 1_000_000,
                count > 0,
                scaled >= 0 ==> mean == (scaled as int) / (count as int),
                scaled < 0 ==> mean == -((-(scaled as int)) / (count as int)),
        ;
        mean as i64
    }
}

/// A copy of a list of readings.
fn copy_readings(readings: &Vec<Reading>) -> (copy: Vec<Reading>)
    ensures
        copy@ == readings@,
{
    let mut copy: Vec<Reading> = Vec::new();
    let mut i: usize = 0;
    while i < readings.len()
        invariant
            i <= readings.len(),
            copy@ == readings@.take(i as int),
        decreases readings.len() - i,
    {
        copy.push(readings[i]);
        assert(readings@.take(i + 1) == readings@.take(i as int).push(readings[i as int]));
        i = i + 1;
    }
    assert(readings@.take(i as int) == readings@);
    copy
}

/// Whether an agent lived through a tick as it should, whatever was drawn
/// for it. See `stepped`.
pub open spec fn lived(
    before: WalkerView,
    after: WalkerView,
    body: CollisionObjectData,
    body_after: CollisionObjectData,
    top: bool,
    readings: Seq<Reading>,
    motion: Motion,
) -> bool {
    if is_dead_spec(body) {
        &&& after == before.after_respawn(after.networks)
        &&& top ==> after.networks == before.networks
        &&& body_after == before.body_after_respawn(body)
        &&& motion is Respawn
    } else {
        &&& after == before.after_update(body, readings)
        &&& body_after == before.body_after_update(body)
        &&& motion matches Motion::Move { dx, dy }
        &&& (dx as int, dy as int) == after.last_trans
    }
}

/// Whether the networks of a new life are as they should be for an agent
/// outside the top tenth: a composite of networks of the first `count`
/// agents of `parents`, in which chance may have replaced one weight.
pub open spec fn reborn(
    parents: Seq<RandomWalker>,
    count: int,
    mutation_rate: int,
    networks: BrainNetworkView,
) -> bool {
    exists|drawn: BrainNetworkView|
        #![trigger drawn.same_or_one_cell_replaced(networks)]
        bred_from(parents, count, drawn) && drawn.same_or_one_cell_replaced(networks) && (
        mutation_rate >= UNIT - 1 ==> networks == drawn)
}

/// Whether a new life begins where it should: at a place that blends the
/// place of one of the first `count` agents, as `positions` gives it, with
/// a place inside the margins of the arena.
pub open spec fn placed_anew(
    count: int,
    positions: Seq<(i64, i64)>,
    width: int,
    height: int,
    motion: Motion,
) -> bool {
    exists|reference: int, x: int, y: int|
        0 <= reference < count && MARGIN <= x < width - MARGIN && MARGIN <= y < height - MARGIN
            && motion == (Motion::Respawn {
            x: (#[trigger] blend(
                (positions[reference].0 as int, positions[reference].1 as int),
                (x, y),
            )).0 as i64,
            y: blend(
                (positions[reference].0 as int, positions[reference].1 as int),
                (x, y),
            ).1 as i64,
        })
}

/// The agents that the offspring of agent `i` is drawn from. Where there is
/// a top tenth they are the population as it was before the tick: the top
/// tenth keeps its networks through the tick. Where there is none, the best
/// agent is drawn from as it is when the turn of agent `i` comes: as it was
/// before the tick for the best agent itself, as it is after the tick for
/// the others.
pub open spec fn parents_of(before: Seq<RandomWalker>, after: Seq<RandomWalker>, i: int) -> Seq<
    RandomWalker,
> {
    if decile(before.len() as int) > 0 || i == 0 {
        before
    } else {
        after
    }
}

/// Whether networks are bred from a population depends on the networks of
/// the agents that can be parents alone.
pub proof fn lemma_bred_from_agrees(
    a: Seq<RandomWalker>,
    b: Seq<RandomWalker>,
    count: int,
    networks: BrainNetworkView,
)
    requires
        bred_from(a, count, networks),
        forall|k: int| 0 <= k < count ==> (#[trigger] a[k])@.networks == b[k]@.networks,
    ensures
        bred_from(b, count, networks),
{
    let (base, wall, carnivore) = choose|base: int, wall: int, carnivore: int|
        0 <= base < count && 0 <= wall < count && 0 <= carnivore < count && networks
            == #[trigger] composite(a[base]@.networks, a[wall]@.networks, a[carnivore]@.networks);
    assert(networks == composite(b[base]@.networks, b[wall]@.networks, b[carnivore]@.networks));
}

/// Whether the networks of a new life are as they should be depends on the
/// networks of the agents that can be parents alone.
pub proof fn lemma_reborn_agrees(
    a: Seq<RandomWalker>,
    b: Seq<RandomWalker>,
    count: int,
    mutation_rate: int,
    networks: BrainNetworkView,
)
    requires
        reborn(a, count, mutation_rate, networks),
        forall|k: int| 0 <= k < count ==> (#[trigger] a[k])@.networks == b[k]@.networks,
    ensures
        reborn(b, count, mutation_rate, networks),
{
    let drawn = choose|drawn: BrainNetworkView|
        #![trigger drawn.same_or_one_cell_replaced(networks)]
        bred_from(a, count, drawn) && drawn.same_or_one_cell_replaced(networks) && (mutation_rate
            >= UNIT - 1 ==> networks == drawn);
    lemma_bred_from_agrees(a, b, count, drawn);
}

/// Whether the readings are there for every agent whose sensors are needed:
/// one for each ray, each within the view range of the agent.
pub open spec fn sensors_ready(
    population: Seq<RandomWalker>,
    world: Seq<CollisionObjectData>,
    detected: Seq<Vec<Reading>>,
) -> bool {
    forall|i: int|
        0 <= i < population.len() && senses(
            (#[trigger] population[i])@,
            world[population[i]@.handle],
        ) ==> detected[i].len() == RAYS && readings_in_range(
            detected[i]@,
            population[i]@.view_range,
        )
}

/// What a tick made of one agent: what has to happen to its body, and how
/// the agent fares afterwards.
#[derive(Clone, Copy, Debug)]
pub struct Step {
    /// The body of the agent.
    pub handle: usize,
    /// The alliance zone that goes with the body.
    pub env_handle: Option<usize>,
    pub motion: Motion,
    pub id: i32,
    pub health: i32,
    pub score: i32,
}

/// Whether `after` is what a tick makes of the population `before`: every
/// agent has lived through the tick; those that died start anew near an
/// agent of the top tenth, or near the best agent where there is no top
/// tenth; those among them that stand outside the top tenth were reborn
/// from those agents; and every step reports its agent.
pub open spec fn ticked(
    before: Seq<RandomWalker>,
    after: Seq<RandomWalker>,
    world_before: Seq<CollisionObjectData>,
    world_after: Seq<CollisionObjectData>,
    positions: Seq<(i64, i64)>,
    detected: Seq<Vec<Reading>>,
    width: int,
    height: int,
    steps: Seq<Step>,
) -> bool {
    &&& after.len() == before.len()
    &&& steps.len() == before.len()
    &&& forall|i: int|
        0 <= i < before.len() ==> {
            let handle = (#[trigger] before[i])@.handle;
            let top = decile(before.len() as int);
            &&& lived(
                before[i]@,
                after[i]@,
                world_before[handle],
                world_after[handle],
                i < top,
                detected[i]@,
                steps[i].motion,
            )
            &&& is_dead_spec(world_before[handle]) ==> placed_anew(
                pool(before.len() as int),
                positions,
                width,
                height,
                steps[i].motion,
            )
            &&& top <= i && is_dead_spec(world_before[handle]) ==> reborn(
                parents_of(before, after, i),
                pool(before.len() as int),
                before[i]@.mutation_rate,
                after[i]@.networks,
            )
            &&& steps[i].handle == handle
            &&& steps[i].env_handle == after[i]@.env_handle
            &&& steps[i].id == after[i]@.id
            &&& steps[i].health == after[i]@.health
            &&& steps[i].score == after[i]@.score
        }
}

/// Whether a tally holds the sums of a tick: health and score of all agents
/// as they were before, and of the top tenth as it is after.
pub open spec fn tallied(
    before: Seq<RandomWalker>,
    after: Seq<RandomWalker>,
    tally: Tally,
) -> bool {
    let size = before.len() as int;
    &&& tally.size == size
    &&& tally.health == health_sum(before, size)
    &&& tally.score == score_sum(before, size)
    &&& tally.top_health == health_sum(after, decile(size))
    &&& tally.top_score == score_sum(after, decile(size))
    &&& -0x8000_0000 * size <= tally.health <= 0x8000_0000 * size
    &&& -0x8000_0000 * size <= tally.score <= 0x8000_0000 * size
    &&& -0x8000_0000 * decile(size) <= tally.top_health <= 0x8000_0000 * decile(size)
    &&& -0x8000_0000 * decile(size) <= tally.top_score <= 0x8000_0000 * decile(size)
}

/// Lets every agent of a population live through a tick, in order.
/// `positions` holds where each agent is, `detected` what the rays of each
/// agent report; the latter is read only for agents whose sensors are
/// needed. Gives a step for each agent and the sums for the averages.
pub fn update_population(
    population: &mut Vec<RandomWalker>,
    world: &mut World,
    random: &mut RandomHelper,
    positions: &Vec<(i64, i64)>,
    detected: &Vec<Vec<Reading>>,
) -> (result: (Vec<Step>, Tally))
    requires
        population_wf(old(population)@, old(world)@.len()),
        handles_distinct(old(population)@),
        positions.len() == old(population).len(),
        detected.len() == old(population).len(),
        old(random).screen_size_x() > 2 * MARGIN,
        old(random).screen_size_y() > 2 * MARGIN,
        sensors_ready(old(population)@, old(world)@, detected@),
    ensures
        final(world)@.len() == old(world)@.len(),
        population_wf(final(population)@, final(world)@.len()),
        final(random).screen_size_x() == old(random).screen_size_x(),
        final(random).screen_size_y() == old(random).screen_size_y(),
        forall|i: int|
            0 <= i < old(population).len() ==> (#[trigger] final(population)[i])@.handle == old(
                population,
            )[i]@.handle,
        ticked(
            old(population)@,
            final(population)@,
            old(world)@,
            final(world)@,
            positions@,
            detected@,
            old(random).screen_size_x(),
            old(random).screen_size_y(),
            result.0@,
        ),
        forall|h: int|
            0 <= h < old(world)@.len() && (forall|i: int|
                0 <= i < old(population).len() ==> (#[trigger] old(population)[i])@.handle != h)
                ==> #[trigger] final(world)@[h] == old(world)@[h],
        tallied(old(population)@, final(population)@, result.1),
{
    let n = population.len();
    let top = decile_of(n);
    let mut steps: Vec<Step> = Vec::new();
    let mut tally = Tally { size: n, health: 0, score: 0, top_health: 0, top_score: 0 };
    let mut i: usize = 0;
    while i < n
        invariant
            i <= n,
            n == old(population).len(),
            top == decile(n as int),
            population.len() == n,
            positions.len() == n,
            detected.len() == n,
            steps.len() == i,
            world@.len() == old(world)@.len(),
            population_wf(population@, world@.len()),
            population_wf(old(population)@, old(world)@.len()),
            handles_distinct(old(population)@),
            random.screen_size_x() == old(random).screen_size_x(),
            random.screen_size_y() == old(random).screen_size_y(),
            random.screen_size_x() > 2 * MARGIN,
            random.screen_size_y() > 2 * MARGIN,
            sensors_ready(old(population)@, old(world)@, detected@),
            forall|k: int|
                0 <= k < n ==> (#[trigger] population[k])@.handle == old(population)[k]@.handle,
            forall|k: int|
                i <= k < n ==> #[trigger] population[k] == old(population)[k] && world@[old(
                    population,
                )[k]@.handle] == old(world)@[old(population)[k]@.handle],
            forall|k: int|
                0 <= k < n && k < top ==> (#[trigger] population[k])@.networks == old(
                    population,
                )[k]@.networks,
            forall|k: int|
                0 <= k < i ==> lived(
                    (#[trigger] old(population)[k])@,
                    population[k]@,
                    old(world)@[old(population)[k]@.handle],
                    world@[old(population)[k]@.handle],
                    k < top,
                    detected[k]@,
                    steps[k].motion,
                ),
            forall|k: int|
                0 <= k < i && is_dead_spec(old(world)@[(#[trigger] old(population)[k])@.handle])
                    ==> placed_anew(
                    pool(n as int),
                    positions@,
                    old(random).screen_size_x(),
                    old(random).screen_size_y(),
                    steps[k].motion,
                ),
            forall|k: int|
                top <= k < i && is_dead_spec(old(world)@[(#[trigger] old(population)[k])@.handle])
                    ==> reborn(
                    parents_of(old(population)@, population@, k),
                    pool(n as int),
                    old(population)[k]@.mutation_rate,
                    population[k]@.networks,
                ),
            forall|k: int|
                0 <= k < i ==> (#[trigger] steps[k]).handle == old(population)[k]@.handle
                    && steps[k].env_handle == population[k]@.env_handle && steps[k].id
                    == population[k]@.id && steps[k].health == population[k]@.health
                    && steps[k].score == population[k]@.score,
            forall|h: int|
                0 <= h < old(world)@.len() && (forall|k: int|
                    0 <= k < n ==> (#[trigger] old(population)[k])@.handle != h)
                    ==> #[trigger] world@[h] == old(world)@[h],
            tally.size == n,
            tally.health == health_sum(old(population)@, i as int),
            tally.score == score_sum(old(population)@, i as int),
            tally.top_health == health_sum(population@, if i < top {
                i as int
            } else {
                top as int
            }),
            tally.top_score == score_sum(population@, if i < top {
                i as int
            } else {
                top as int
            }),
            -0x8000_0000 * i <= tally.health <= 0x8000_0000 * i,
            -0x8000_0000 * i <= tally.score <= 0x8000_0000 * i,
            -0x8000_0000 * i <= tally.top_health <= 0x8000_0000 * i,
            -0x8000_0000 * i <= tally.top_score <= 0x8000_0000 * i,
            i >= top ==> -0x8000_0000 * top <= tally.top_health <= 0x8000_0000 * top,
            i >= top ==> -0x8000_0000 * top <= tally.top_score <= 0x8000_0000 * top,
        decreases n - i,
    {
        let ghost before = population@;
        let ghost world_before = world@;
        let offspring = breed(population, random);
        let ghost drawn = offspring.networks@;
        let ghost reference = offspring.reference as int;
        let ghost point = (offspring.x as int, offspring.y as int);
        tally.health = tally.health + population[i].get_health() as i128;
        tally.score = tally.score + population[i].get_score() as i128;
        let reference_position = positions[offspring.reference];
        let readings = copy_readings(&detected[i]);
        proof {
            reveal(handles_distinct);
            population[i as int].lemma_wf();
            assert(population[i as int] == old(population)[i as int]);
        }
        let motion = step_walker(population, world, i, offspring, reference_position, readings);
        let ghost steps_before = steps@;
        steps.push(
            Step {
                handle: population[i].get_handle(),
                env_handle: population[i].get_env_handle(),
                motion,
                id: population[i].get_id(),
                health: population[i].get_health(),
                score: population[i].get_score(),
            },
        );
        if i < top {
            tally.top_health = tally.top_health + population[i].get_health() as i128;
            tally.top_score = tally.top_score + population[i].get_score() as i128;
        }
        proof {
            reveal(handles_distinct);
            population[i as int].lemma_wf();
            let handle = old(population)[i as int]@.handle;
            assert forall|k: int| i < k < n implies #[trigger] population[k] == old(population)[k] by {
                assert(before[k] == old(population)[k]);
                assert(population[k] == before[k]);
            }
            assert forall|k: int| i < k < n implies world@[(#[trigger] old(population)[k])@.handle] == old(world)@[old(
                population,
            )[k]@.handle] by {
                assert(before[k] == old(population)[k]);
                assert(old(population)[k]@.handle != handle);
                assert(world@ == world_before.update(handle, world@[handle]));
                assert(world_before[old(population)[k]@.handle] == old(world)@[old(population)[k]@.handle]);
            }
            assert forall|k: int| 0 <= k < i implies lived(
                (#[trigger] old(population)[k])@,
                population[k]@,
                old(world)@[old(population)[k]@.handle],
                world@[old(population)[k]@.handle],
                k < top,
                detected[k]@,
                steps[k].motion,
            ) by {
                assert(population[k] == before[k]);
                assert(old(population)[k]@.handle != handle);
                assert(steps[k] == steps_before[k]);
            }
            assert forall|k: int|
                0 <= k < i && is_dead_spec(
                    old(world)@[(#[trigger] old(population)[k])@.handle],
                ) implies placed_anew(
                pool(n as int),
                positions@,
                old(random).screen_size_x(),
                old(random).screen_size_y(),
                steps[k].motion,
            ) by {
                assert(steps[k] == steps_before[k]);
            }
            assert forall|k: int|
                top <= k < i && is_dead_spec(
                    old(world)@[(#[trigger] old(population)[k])@.handle],
                ) implies reborn(
                parents_of(old(population)@, population@, k),
                pool(n as int),
                old(population)[k]@.mutation_rate,
                population[k]@.networks,
            ) by {
                assert(population[k] == before[k]);
                if top == 0 && k != 0 {
                    // The best agent had its turn and stays as it is.
                    assert(population[0] == before[0]);
                    lemma_reborn_agrees(
                        before,
                        population@,
                        1,
                        old(population)[k]@.mutation_rate,
                        population[k]@.networks,
                    );
                }
            }
            assert forall|k: int| 0 <= k < i + 1 implies (#[trigger] steps[k]).handle == old(
                population,
            )[k]@.handle && steps[k].env_handle == population[k]@.env_handle && steps[k].id
                == population[k]@.id && steps[k].health == population[k]@.health && steps[k].score
                == population[k]@.score by {
                if k < i {
                    assert(population[k] == before[k]);
                    assert(steps[k] == steps_before[k]);
                }
            }
            if top <= i && is_dead_spec(old(world)@[handle]) {
                let parents = parents_of(old(population)@, population@, i as int);
                assert forall|k: int| 0 <= k < pool(n as int) implies (#[trigger] before[k])@.networks
                    == parents[k]@.networks by {
                    if top == 0 && i != 0 {
                        assert(population[0] == before[0]);
                    }
                }
                lemma_bred_from_agrees(before, parents, pool(n as int), drawn);
                assert(drawn.same_or_one_cell_replaced(population[i as int]@.networks));
            }
            if is_dead_spec(old(world)@[handle]) {
                assert(motion == (Motion::Respawn {
                    x: blend(
                        (positions[reference].0 as int, positions[reference].1 as int),
                        point,
                    ).0 as i64,
                    y: blend(
                        (positions[reference].0 as int, positions[reference].1 as int),
                        point,
                    ).1 as i64,
                }));
            }
            assert forall|h: int|
                0 <= h < old(world)@.len() && (forall|k: int|
                    0 <= k < n ==> (#[trigger] old(population)[k])@.handle != h) implies #[trigger] world@[h]
                == old(world)@[h] by {
                assert(old(population)[i as int]@.handle != h);
            }
            assert forall|k: int| 0 <= k < n && k < top implies (#[trigger] population[k])@.networks
                == old(population)[k]@.networks by {
                if k != i {
                    assert(population[k] == before[k]);
                }
            }
            lemma_sums_agree(
                before,
                population@,
                if i < top {
                    i as int
                } else {
                    top as int
                },
            );
        }
        i = i + 1;
    }
    (steps, tally)
}

/// Whether no agent stands behind one with a lower score.
pub open spec fn ranked(population: Seq<RandomWalker>) -> bool {
    forall|a: int, b: int|
        0 <= a < b < population.len() ==> (#[trigger] population[a])@.score >= (
        #[trigger] population[b])@.score
}

/// Whether `after` holds the agents of `before` in another order, `order[k]`
/// being the place in `before` of the agent at place `k` in `after`.
pub open spec fn rearranged(
    before: Seq<RandomWalker>,
    after: Seq<RandomWalker>,
    order: Seq<int>,
) -> bool {
    &&& after.len() == before.len()
    &&& order.len() == before.len()
    &&& forall|k: int|
        0 <= k < order.len() ==> 0 <= #[trigger] order[k] < before.len() && after[k]
            == before[order[k]]
    &&& forall|a: int, b: int|
        0 <= a < order.len() && 0 <= b < order.len() && a != b ==> #[trigger] order[a]
            != #[trigger] order[b]
}

/// Whether agents with equal scores stand in the order in which they stood
/// before.
pub open spec fn stable(after: Seq<RandomWalker>, order: Seq<int>) -> bool {
    forall|a: int, b: int|
        0 <= a < b < after.len() && after[a]@.score == after[b]@.score ==> #[trigger] order[a]
            < #[trigger] order[b]
}

/// A sequence in which the element at place `from` has moved forward to
/// place `to`.
pub open spec fn moved<A>(s: Seq<A>, from: int, to: int) -> Seq<A> {
    s.remove(from).insert(to, s[from])
}

/// Where the elements of a sequence stand after one has moved forward.
pub proof fn lemma_moved<A>(s: Seq<A>, from: int, to: int)
    requires
        0 <= to <= from < s.len(),
    ensures
        moved(s, from, to).len() == s.len(),
        forall|k: int| 0 <= k < to ==> #[trigger] moved(s, from, to)[k] == s[k],
        moved(s, from, to)[to] == s[from],
        forall|k: int| to < k <= from ==> #[trigger] moved(s, from, to)[k] == s[k - 1],
        forall|k: int| from < k < s.len() ==> #[trigger] moved(s, from, to)[k] == s[k],
{
}

/// Sorts a population by descending score. Agents with equal scores keep
/// their order.
pub fn sort_by_score(population: &mut Vec<RandomWalker>)
    ensures
        ranked(final(population)@),
        exists|order: Seq<int>|
            #![trigger rearranged(old(population)@, final(population)@, order)]
            rearranged(old(population)@, final(population)@, order) && stable(
                final(population)@,
                order,
            ),
{
    let Ghost(order) = sort_tracked(population);
    assert(rearranged(old(population)@, population@, order) && stable(population@, order));
}

/// Sorts a population by descending score and keeps it well formed.
pub(crate) fn rank_population(population: &mut Vec<RandomWalker>, Ghost(bodies): Ghost<nat>)
    requires
        population_wf(old(population)@, bodies),
        handles_distinct(old(population)@),
    ensures
        ranked_from(old(population)@, final(population)@),
        population_wf(final(population)@, bodies),
        handles_distinct(final(population)@),
        handles_within(final(population)@, old(population)@),
{
    let Ghost(order) = sort_tracked(population);
    proof {
        assert(rearranged(old(population)@, population@, order) && stable(population@, order));
        lemma_rearranged_keeps(old(population)@, population@, order, bodies);
    }
}

/// Sorts a population by descending score and tells where each agent
/// stood.
fn sort_tracked(population: &mut Vec<RandomWalker>) -> (result: Ghost<Seq<int>>)
    ensures
        ranked(final(population)@),
        rearranged(old(population)@, final(population)@, result@),
        stable(final(population)@, result@),
{
    let n = population.len();
    let ghost mut order: Seq<int> = Seq::new(n as nat, |k: int| k);
    let mut i: usize = 1;
    if n == 0 {
        return Ghost(order);
    }
    while i < n
        invariant
            1 <= i <= n,
            population.len() == n,
            n == old(population).len(),
            rearranged(old(population)@, population@, order),
            forall|a: int, b: int|
                0 <= a < b < i ==> (#[trigger] population[a])@.score >= (
                #[trigger] population[b])@.score,
            forall|a: int, b: int|
                0 <= a < b < i && population[a]@.score == population[b]@.score ==> #[trigger] order[a]
                    < #[trigger] order[b],
            forall|k: int| 0 <= k < i ==> #[trigger] order[k] < i,
            forall|k: int| i <= k < n ==> #[trigger] order[k] == k,
        decreases n - i,
    {
        let key = population[i].get_score();
        let mut j: usize = i;
        while j > 0 && population[j - 1].get_score() < key
            invariant
                j <= i < n,
                population.len() == n,
                key == population[i as int]@.score,
                forall|k: int| j <= k < i ==> (#[trigger] population[k])@.score < key,
            decreases j,
        {
            j = j - 1;
        }
        let ghost before = population@;
        let ghost order_before = order;
        let walker = population.remove(i);
        population.insert(j, walker);
        proof {
            order = moved(order_before, i as int, j as int);
            assert(population@ == moved(before, i as int, j as int));
            lemma_moved(before, i as int, j as int);
            lemma_moved(order_before, i as int, j as int);
            assert forall|k: int| 0 <= k < order.len() implies 0 <= #[trigger] order[k]
                < old(population).len() && population[k] == old(population)[order[k]] by {
                if k < j {
                } else if k == j {
                } else if k <= i {
                    assert(order[k] == order_before[k - 1]);
                } else {
                }
            }
            assert forall|a: int, b: int|
                0 <= a < order.len() && 0 <= b < order.len() && a != b implies #[trigger] order[a]
                != #[trigger] order[b] by {
                let pa = if a < j {
                    a
                } else if a == j {
                    i as int
                } else if a <= i {
                    a - 1
                } else {
                    a
                };
                let pb = if b < j {
                    b
                } else if b == j {
                    i as int
                } else if b <= i {
                    b - 1
                } else {
                    b
                };
                assert(order[a] == order_before[pa]);
                assert(order[b] == order_before[pb]);
                assert(pa != pb);
            }
            assert forall|a: int, b: int| 0 <= a < b < i + 1 implies (#[trigger] population[a])@.score
                >= (#[trigger] population[b])@.score by {
                let pa = if a < j {
                    a
                } else if a == j {
                    i as int
                } else {
                    a - 1
                };
                let pb = if b < j {
                    b
                } else if b == j {
                    i as int
                } else {
                    b - 1
                };
                assert(population[a] == before[pa]);
                assert(population[b] == before[pb]);
                if a < j && b == j {
                    if j > 0 {
                        assert(before[j - 1]@.score >= key);
                        if a < j - 1 {
                            assert(before[a]@.score >= before[j - 1]@.score);
                        }
                    }
                }
            }
            assert forall|a: int, b: int|
                0 <= a < b < i + 1 && population[a]@.score == population[b]@.score implies #[trigger] order[a]
                < #[trigger] order[b] by {
                let pa = if a < j {
                    a
                } else if a == j {
                    i as int
                } else {
                    a - 1
                };
                let pb = if b < j {
                    b
                } else if b == j {
                    i as int
                } else {
                    b - 1
                };
                assert(population[a] == before[pa] && order[a] == order_before[pa]);
                assert(population[b] == before[pb] && order[b] == order_before[pb]);
            }
            assert forall|k: int| 0 <= k < i + 1 implies #[trigger] order[k] < i + 1 by {
                let pk = if k < j {
                    k
                } else if k == j {
                    i as int
                } else {
                    k - 1
                };
                assert(order[k] == order_before[pk]);
            }
        }
        i = i + 1;
    }
    Ghost(order)
}

/// Whether a population is another in ranked order: sorted by descending
/// score, agents with equal scores in the order in which they stood.
pub open spec fn ranked_from(before: Seq<RandomWalker>, after: Seq<RandomWalker>) -> bool {
    &&& ranked(after)
    &&& exists|order: Seq<int>|
        #![trigger rearranged(before, after, order)]
        rearranged(before, after, order) && stable(after, order)
}

/// Whether no agent of one population shares a body with an agent of the
/// other.
#[verifier::opaque]
pub open spec fn handles_apart(a: Seq<RandomWalker>, b: Seq<RandomWalker>) -> bool {
    forall|i: int, j: int|
        0 <= i < a.len() && 0 <= j < b.len() ==> (#[trigger] a[i])@.handle != (
        #[trigger] b[j])@.handle
}

/// Whether every body of an agent of `a` is the body of an agent of `b`.
#[verifier::opaque]
pub open spec fn handles_within(a: Seq<RandomWalker>, b: Seq<RandomWalker>) -> bool {
    forall|i: int|
        0 <= i < a.len() ==> exists|j: int|
            0 <= j < b.len() && (#[trigger] b[j])@.handle == (#[trigger] a[i])@.handle
}

/// Three populations that are well formed together are well formed each,
/// and no two of them share a body.
pub proof fn lemma_agents_split(
    a: Seq<RandomWalker>,
    b: Seq<RandomWalker>,
    c: Seq<RandomWalker>,
    bodies: nat,
)
    requires
        population_wf(a + b + c, bodies),
        handles_distinct(a + b + c),
    ensures
        population_wf(a, bodies),
        population_wf(b, bodies),
        population_wf(c, bodies),
        handles_distinct(a),
        handles_distinct(b),
        handles_distinct(c),
        handles_apart(a, b),
        handles_apart(a, c),
        handles_apart(b, c),
{
    reveal(handles_distinct);
    reveal(handles_apart);
    let all = a + b + c;
    assert forall|i: int| 0 <= i < a.len() implies (#[trigger] a[i]) == all[i] by {}
    assert forall|i: int| 0 <= i < b.len() implies (#[trigger] b[i]) == all[a.len() + i] by {}
    assert forall|i: int| 0 <= i < c.len() implies (#[trigger] c[i]) == all[a.len() + b.len() + i] by {}
    assert forall|i: int| 0 <= i < a.len() implies (#[trigger] a[i]).wf() && 0 <= a[i]@.handle
        < bodies by {
        assert(a[i] == all[i]);
    }
    assert forall|i: int| 0 <= i < b.len() implies (#[trigger] b[i]).wf() && 0 <= b[i]@.handle
        < bodies by {
        assert(b[i] == all[a.len() + i]);
    }
    assert forall|i: int| 0 <= i < c.len() implies (#[trigger] c[i]).wf() && 0 <= c[i]@.handle
        < bodies by {
        assert(c[i] == all[a.len() + b.len() + i]);
    }
    assert forall|i: int, j: int| 0 <= i < a.len() && 0 <= j < a.len() && i != j implies (
    #[trigger] a[i])@.handle != (#[trigger] a[j])@.handle by {
        assert(a[i] == all[i] && a[j] == all[j]);
    }
    assert forall|i: int, j: int| 0 <= i < b.len() && 0 <= j < b.len() && i != j implies (
    #[trigger] b[i])@.handle != (#[trigger] b[j])@.handle by {
        assert(b[i] == all[a.len() + i] && b[j] == all[a.len() + j]);
    }
    assert forall|i: int, j: int| 0 <= i < c.len() && 0 <= j < c.len() && i != j implies (
    #[trigger] c[i])@.handle != (#[trigger] c[j])@.handle by {
        assert(c[i] == all[a.len() + b.len() + i] && c[j] == all[a.len() + b.len() + j]);
    }
    assert forall|i: int, j: int| 0 <= i < a.len() && 0 <= j < b.len() implies (
    #[trigger] a[i])@.handle != (#[trigger] b[j])@.handle by {
        assert(a[i] == all[i] && b[j] == all[a.len() + j]);
    }
    assert forall|i: int, j: int| 0 <= i < a.len() && 0 <= j < c.len() implies (
    #[trigger] a[i])@.handle != (#[trigger] c[j])@.handle by {
        assert(a[i] == all[i] && c[j] == all[a.len() + b.len() + j]);
    }
    assert forall|i: int, j: int| 0 <= i < b.len() && 0 <= j < c.len() implies (
    #[trigger] b[i])@.handle != (#[trigger] c[j])@.handle by {
        assert(b[i] == all[a.len() + i] && c[j] == all[a.len() + b.len() + j]);
    }
}

/// Three populations that are well formed each and share no body are well
/// formed together.
pub proof fn lemma_agents_join(
    a: Seq<RandomWalker>,
    b: Seq<RandomWalker>,
    c: Seq<RandomWalker>,
    bodies: nat,
)
    requires
        population_wf(a, bodies),
        population_wf(b, bodies),
        population_wf(c, bodies),
        handles_distinct(a),
        handles_distinct(b),
        handles_distinct(c),
        handles_apart(a, b),
        handles_apart(a, c),
        handles_apart(b, c),
    ensures
        population_wf(a + b + c, bodies),
        handles_distinct(a + b + c),
{
    reveal(handles_distinct);
    reveal(handles_apart);
    let all = a + b + c;
    assert forall|k: int| 0 <= k < all.len() implies (#[trigger] all[k]).wf() && 0 <= all[k]@.handle
        < bodies by {
        if k < a.len() {
            assert(all[k] == a[k]);
        } else if k < a.len() + b.len() {
            assert(all[k] == b[k - a.len()]);
        } else {
            assert(all[k] == c[k - a.len() - b.len()]);
        }
    }
    assert forall|i: int, j: int| 0 <= i < all.len() && 0 <= j < all.len() && i != j implies (
    #[trigger] all[i])@.handle != (#[trigger] all[j])@.handle by {
        if i < a.len() {
            assert(all[i] == a[i]);
        } else if i < a.len() + b.len() {
            assert(all[i] == b[i - a.len()]);
        } else {
            assert(all[i] == c[i - a.len() - b.len()]);
        }
        if j < a.len() {
            assert(all[j] == a[j]);
        } else if j < a.len() + b.len() {
            assert(all[j] == b[j - a.len()]);
        } else {
            assert(all[j] == c[j - a.len() - b.len()]);
        }
    }
}

/// A population in another order is as well formed as it was, and has the
/// same bodies.
pub proof fn lemma_rearranged_keeps(
    before: Seq<RandomWalker>,
    after: Seq<RandomWalker>,
    order: Seq<int>,
    bodies: nat,
)
    requires
        rearranged(before, after, order),
        population_wf(before, bodies),
        handles_distinct(before),
    ensures
        population_wf(after, bodies),
        handles_distinct(after),
        handles_within(after, before),
{
    reveal(handles_distinct);
    reveal(handles_within);
    assert forall|i: int| 0 <= i < after.len() implies (#[trigger] after[i]).wf() && 0 <= after[i]@.handle
        < bodies by {
        assert(after[i] == before[order[i]]);
    }
    assert forall|i: int, j: int| 0 <= i < after.len() && 0 <= j < after.len() && i != j implies (
    #[trigger] after[i])@.handle != (#[trigger] after[j])@.handle by {
        assert(after[i] == before[order[i]]);
        assert(after[j] == before[order[j]]);
        assert(order[i] != order[j]);
    }
    assert forall|i: int| 0 <= i < after.len() implies exists|j: int|
        0 <= j < before.len() && (#[trigger] before[j])@.handle == (#[trigger] after[i])@.handle by {
        assert(after[i] == before[order[i]]);
    }
}

/// Populations whose bodies are among those of two populations that share
/// no body share no body.
pub proof fn lemma_handles_apart_within(
    a: Seq<RandomWalker>,
    b: Seq<RandomWalker>,
    inner_a: Seq<RandomWalker>,
    inner_b: Seq<RandomWalker>,
)
    requires
        handles_apart(a, b),
        handles_within(inner_a, a),
        handles_within(inner_b, b),
    ensures
        handles_apart(inner_a, inner_b),
{
    reveal(handles_apart);
    reveal(handles_within);
    assert forall|i: int, j: int| 0 <= i < inner_a.len() && 0 <= j < inner_b.len() implies (
    #[trigger] inner_a[i])@.handle != (#[trigger] inner_b[j])@.handle by {
        let p = choose|p: int|
            0 <= p < a.len() && (#[trigger] a[p])@.handle == inner_a[i]@.handle;
        let q = choose|q: int|
            0 <= q < b.len() && (#[trigger] b[q])@.handle == inner_b[j]@.handle;
        assert(a[p]@.handle != b[q]@.handle);
    }
}

/// A tick of a population reads and writes only the bodies of its agents:
/// what holds of it between two worlds holds between two others that agree
/// with them on those bodies.
pub proof fn lemma_ticked_frame(
    before: Seq<RandomWalker>,
    after: Seq<RandomWalker>,
    world_before: Seq<CollisionObjectData>,
    world_after: Seq<CollisionObjectData>,
    other_before: Seq<CollisionObjectData>,
    other_after: Seq<CollisionObjectData>,
    positions: Seq<(i64, i64)>,
    detected: Seq<Vec<Reading>>,
    width: int,
    height: int,
    steps: Seq<Step>,
)
    requires
        ticked(
            before,
            after,
            world_before,
            world_after,
            positions,
            detected,
            width,
            height,
            steps,
        ),
        forall|i: int|
            0 <= i < before.len() ==> other_before[(#[trigger] before[i])@.handle]
                == world_before[before[i]@.handle] && other_after[before[i]@.handle]
                == world_after[before[i]@.handle],
    ensures
        ticked(
            before,
            after,
            other_before,
            other_after,
            positions,
            detected,
            width,
            height,
            steps,
        ),
{
}

} // verus!
