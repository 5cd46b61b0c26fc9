//! What contacts between bodies do: eating, dying at walls, predation and
//! the sharing of bounties among allies.
use vstd::prelude::*;

use crate::collisionobjectdata::{CollisionObjectData, World};
use crate::entity::Entity;
use crate::fixed::{add_clamped, clamp_i32, quotient, quotient_clamped, UNIT};
use crate::record::{rows_of, EventRecord, EventRow};

verus! {

/// How near two bodies are to each other.
#[derive(Clone, Copy, Debug, PartialEq, Eq, Structural)]
pub enum Proximity {
    /// The bodies touch or overlap.
    Intersecting,
    /// The bodies are apart, but by no more than the margin of the query.
    WithinMargin,
    /// The bodies are further apart.
    Disjoint,
}

/// Two bodies changed how near they are to each other.
pub struct ProximityEvent {
    pub collider1: usize,
    pub collider2: usize,
    pub new_status: Proximity,
    /// Where the first body is.
    pub position1: (i64, i64),
    /// Where the second body is.
    pub position2: (i64, i64),
    /// The bodies that overlap the alliance zone of the first body, if it
    /// has such a zone.
    pub overlapping1: Vec<usize>,
    /// The bodies that overlap the alliance zone of the second body, if it
    /// has such a zone.
    pub overlapping2: Vec<usize>,
}

/// The constants that govern what a contact does.
#[derive(Clone, Copy, Debug)]
pub struct Rules {
    /// Energy that a body gains from food.
    pub food_nutrition: i32,
    /// Energy that a herbivore with the threshold score is worth.
    pub herbivore_nutrition: i32,
    /// The score at which a herbivore is worth `herbivore_nutrition`.
    pub threshold_herbivore_score: i32,
    /// Percentage of a bounty that a carnivore of the first faction leaves
    /// to its allies.
    pub sharing_percentage_1: i32,
    /// The same for the second faction.
    pub sharing_percentage_2: i32,
}

impl Rules {
    /// The threshold score can be divided by.
    pub open spec fn wf(self) -> bool {
        self.threshold_herbivore_score != 0
    }

    /// The percentage that the carnivore with the given id leaves to its
    /// allies. The ids of the first faction lie below `first_faction`.
    pub open spec fn sharing_percentage(self, id: int, first_faction: int) -> int {
        if id >= first_faction {
            self.sharing_percentage_2 as int
        } else {
            self.sharing_percentage_1 as int
        }
    }

    /// What a herbivore with the given score is worth:
    /// `herbivore_nutrition * score / threshold_herbivore_score`.
    pub open spec fn bounty(self, score: int) -> int {
        clamp_i32(quotient(self.herbivore_nutrition * score, self.threshold_herbivore_score as int))
    }

    /// What the killer keeps of a bounty when it has allies: the bounty less
    /// the percentage that it shares.
    pub open spec fn killer_part(self, score: int, percent: int) -> int {
        clamp_i32(
            quotient(
                self.herbivore_nutrition * score * (100 - percent),
                self.threshold_herbivore_score * 100,
            ),
        )
    }

    /// What each of `allies` allies gets of a bounty: an even part of the
    /// percentage that the killer shares.
    pub open spec fn ally_part(self, score: int, percent: int, allies: int) -> int {
        clamp_i32(
            quotient(
                self.herbivore_nutrition * score * percent,
                self.threshold_herbivore_score * 100 * allies,
            ),
        )
    }
}

/// A body with `amount` added to its energy and to its fitness.
pub open spec fn credited(body: CollisionObjectData, amount: int) -> CollisionObjectData {
    CollisionObjectData {
        energy: clamp_i32(body.energy + amount) as i32,
        fitness: clamp_i32(body.fitness + amount) as i32,
        ..body
    }
}

/// A body marked as eaten.
pub open spec fn flagged(body: CollisionObjectData) -> CollisionObjectData {
    CollisionObjectData { eaten: true, ..body }
}

/// Whether energy and fitness of a body can take `amount` more without
/// reaching the ends of the number range.
pub open spec fn takes(body: CollisionObjectData, amount: int) -> bool {
    &&& i32::MIN <= body.energy + amount <= i32::MAX
    &&& i32::MIN <= body.fitness + amount <= i32::MAX
}

/// Whether a body gained exactly `amount` of energy and of fitness, and is
/// otherwise as it was.
pub open spec fn gained(
    before: CollisionObjectData,
    after: CollisionObjectData,
    amount: int,
) -> bool {
    &&& after.energy == before.energy + amount
    &&& after.fitness == before.fitness + amount
    &&& after.entity_type == before.entity_type
    &&& after.id == before.id
    &&& after.env_handle == before.env_handle
    &&& after.eaten == before.eaten
    &&& after.score == before.score
}

/// Every handle of the sequence names a body of the world.
pub open spec fn handles_valid(world: Seq<CollisionObjectData>, handles: Seq<usize>) -> bool {
    forall|i: int| 0 <= i < handles.len() ==> #[trigger] handles[i] < world.len()
}

/// How many of the overlapping bodies are allies of the killer: those that
/// do not carry the killer's id.
pub open spec fn ally_count(
    world: Seq<CollisionObjectData>,
    killer_id: int,
    overlapping: Seq<usize>,
) -> nat
    decreases overlapping.len(),
{
    if overlapping.len() == 0 {
        0
    } else {
        let rest = ally_count(world, killer_id, overlapping.drop_last());
        if world[overlapping.last() as int].id != killer_id {
            rest + 1
        } else {
            rest
        }
    }
}

/// The world after each ally among the overlapping bodies was credited with
/// `share`.
pub open spec fn shared_out(
    world: Seq<CollisionObjectData>,
    killer_id: int,
    overlapping: Seq<usize>,
    share: int,
) -> Seq<CollisionObjectData>
    decreases overlapping.len(),
{
    if overlapping.len() == 0 {
        world
    } else {
        let before = shared_out(world, killer_id, overlapping.drop_last(), share);
        let ally = overlapping.last() as int;
        if before[ally].id != killer_id {
            before.update(ally, credited(before[ally], share))
        } else {
            before
        }
    }
}

/// Crediting allies changes neither the number of bodies nor anything but
/// energy and fitness.
pub proof fn lemma_shared_out_keeps(
    world: Seq<CollisionObjectData>,
    killer_id: int,
    overlapping: Seq<usize>,
    share: int,
)
    requires
        handles_valid(world, overlapping),
    ensures
        shared_out(world, killer_id, overlapping, share).len() == world.len(),
        forall|h: int|
            0 <= h < world.len() ==> {
                let after = #[trigger] shared_out(world, killer_id, overlapping, share)[h];
                &&& after.id == world[h].id
                &&& after.entity_type == world[h].entity_type
                &&& after.env_handle == world[h].env_handle
                &&& after.eaten == world[h].eaten
                &&& after.score == world[h].score
            },
        forall|h: int|
            0 <= h < world.len() && world[h].id == killer_id ==> #[trigger] shared_out(
                world,
                killer_id,
                overlapping,
                share,
            )[h] == world[h],
    decreases overlapping.len(),
{
    if overlapping.len() > 0 {
        let rest = overlapping.drop_last();
        assert(handles_valid(world, rest)) by {
            assert forall|i: int| 0 <= i < rest.len() implies #[trigger] rest[i] < world.len() by {
                assert(rest[i] == overlapping[i]);
            }
        }
        lemma_shared_out_keeps(world, killer_id, rest, share);
        assert(overlapping.last() == overlapping[overlapping.len() - 1]);
    }
}

/// A predation leaves the number of bodies as it is.
pub proof fn lemma_predation_keeps_len(
    world: Seq<CollisionObjectData>,
    rules: Rules,
    first_faction: int,
    carnivore: int,
    herbivore: int,
    overlapping: Seq<usize>,
)
    requires
        0 <= carnivore < world.len(),
        0 <= herbivore < world.len(),
        handles_valid(world, overlapping),
    ensures
        predation(world, rules, first_faction, carnivore, herbivore, overlapping).len()
            == world.len(),
{
    if world[herbivore].entity_type == Entity::HERBIVORE {
        let score = world[herbivore].score as int;
        let killer_id = world[carnivore].id as int;
        let percent = rules.sharing_percentage(killer_id, first_faction);
        let allies = ally_count(world, killer_id, overlapping);
        let caught = world.update(herbivore, flagged(world[herbivore]));
        let paid = caught.update(
            carnivore,
            credited(caught[carnivore], rules.killer_part(score, percent)),
        );
        lemma_shared_out_keeps(
            paid,
            killer_id,
            overlapping,
            rules.ally_part(score, percent, allies as int),
        );
    }
}

/// Whether the first body is a carnivore that catches the second, a
/// herbivore.
pub open spec fn preys_on(hunter: CollisionObjectData, prey: CollisionObjectData) -> bool {
    hunter.entity_type == Entity::CARNIVORE && prey.entity_type == Entity::HERBIVORE
}

/// The world after a carnivore met another body. Only a herbivore is caught:
/// it is marked as eaten and its bounty is credited. A killer without allies
/// gets all of the bounty; otherwise the killer gets its part and each ally
/// an even share of the rest.
pub open spec fn predation(
    world: Seq<CollisionObjectData>,
    rules: Rules,
    first_faction: int,
    carnivore: int,
    herbivore: int,
    overlapping: Seq<usize>,
) -> Seq<CollisionObjectData> {
    if world[herbivore].entity_type == Entity::HERBIVORE {
        let score = world[herbivore].score as int;
        let killer_id = world[carnivore].id as int;
        let percent = rules.sharing_percentage(killer_id, first_faction);
        let allies = ally_count(world, killer_id, overlapping);
        let caught = world.update(herbivore, flagged(world[herbivore]));
        if allies == 0 {
            caught.update(carnivore, credited(caught[carnivore], rules.bounty(score)))
        } else {
            shared_out(
                caught.update(
                    carnivore,
                    credited(caught[carnivore], rules.killer_part(score, percent)),
                ),
                killer_id,
                overlapping,
                rules.ally_part(score, percent, allies as int),
            )
        }
    } else {
        world
    }
}

/// The number of allies that share the bounty of a predation, as it is
/// reported: the killer itself is not counted.
pub open spec fn allies_of(
    world: Seq<CollisionObjectData>,
    carnivore: int,
    overlapping: Seq<usize>,
) -> int {
    clamp_i32(ally_count(world, world[carnivore].id as int, overlapping) as int)
}

/// The world after the rules for the kind of body `actor` were applied to
/// its contact with body `other`: food is eaten and feeds the other body, a
/// wall kills whatever is not a wall, a carnivore catches a herbivore.
pub open spec fn one_way(
    world: Seq<CollisionObjectData>,
    rules: Rules,
    first_faction: int,
    actor: int,
    other: int,
    overlapping: Seq<usize>,
) -> Seq<CollisionObjectData> {
    match world[actor].entity_type {
        Entity::FOOD => {
            let eaten = world.update(actor, flagged(world[actor]));
            eaten.update(other, credited(eaten[other], rules.food_nutrition as int))
        },
        Entity::WALL => if world[other].entity_type != Entity::WALL {
            world.update(other, flagged(world[other]))
        } else {
            world
        },
        Entity::CARNIVORE => predation(world, rules, first_faction, actor, other, overlapping),
        _ => world,
    }
}

/// An event as the proofs see it.
pub struct EventView {
    pub collider1: int,
    pub collider2: int,
    pub new_status: Proximity,
    pub position1: (int, int),
    pub position2: (int, int),
    pub overlapping1: Seq<usize>,
    pub overlapping2: Seq<usize>,
}

impl View for ProximityEvent {
    type V = EventView;

    open spec fn view(&self) -> EventView {
        EventView {
            collider1: self.collider1 as int,
            collider2: self.collider2 as int,
            new_status: self.new_status,
            position1: (self.position1.0 as int, self.position1.1 as int),
            position2: (self.position2.0 as int, self.position2.1 as int),
            overlapping1: self.overlapping1@,
            overlapping2: self.overlapping2@,
        }
    }
}

impl EventView {
    /// Every handle of the event names a body of the world.
    pub open spec fn valid(self, world: Seq<CollisionObjectData>) -> bool {
        &&& 0 <= self.collider1 < world.len()
        &&& 0 <= self.collider2 < world.len()
        &&& handles_valid(world, self.overlapping1)
        &&& handles_valid(world, self.overlapping2)
    }
}

/// The world after an event: where two bodies begin to intersect, the rules
/// are applied for the first body and then for the second. Other events
/// change nothing.
pub open spec fn resolved(
    world: Seq<CollisionObjectData>,
    rules: Rules,
    first_faction: int,
    event: EventView,
) -> Seq<CollisionObjectData> {
    if event.new_status == Proximity::Intersecting {
        one_way(
            one_way(
                world,
                rules,
                first_faction,
                event.collider1,
                event.collider2,
                event.overlapping1,
            ),
            rules,
            first_faction,
            event.collider2,
            event.collider1,
            event.overlapping2,
        )
    } else {
        world
    }
}

/// Applying the rules one way changes neither the number of bodies nor what
/// kind of body each is, nor its id or score.
pub proof fn lemma_one_way_keeps(
    world: Seq<CollisionObjectData>,
    rules: Rules,
    first_faction: int,
    actor: int,
    other: int,
    overlapping: Seq<usize>,
)
    requires
        0 <= actor < world.len(),
        0 <= other < world.len(),
        handles_valid(world, overlapping),
    ensures
        one_way(world, rules, first_faction, actor, other, overlapping).len() == world.len(),
        forall|h: int|
            0 <= h < world.len() ==> {
                let after = #[trigger] one_way(
                    world,
                    rules,
                    first_faction,
                    actor,
                    other,
                    overlapping,
                )[h];
                &&& after.id == world[h].id
                &&& after.entity_type == world[h].entity_type
                &&& after.env_handle == world[h].env_handle
                &&& after.score == world[h].score
            },
{
    if world[actor].entity_type == Entity::CARNIVORE && world[other].entity_type
        == Entity::HERBIVORE {
        let score = world[other].score as int;
        let killer_id = world[actor].id as int;
        let percent = rules.sharing_percentage(killer_id, first_faction);
        let allies = ally_count(world, killer_id, overlapping);
        let caught = world.update(other, flagged(world[other]));
        let paid = caught.update(
            actor,
            credited(caught[actor], rules.killer_part(score, percent)),
        );
        lemma_shared_out_keeps(
            paid,
            killer_id,
            overlapping,
            rules.ally_part(score, percent, allies as int),
        );
    }
}

impl Rules {
    /// The percentage that the carnivore with the given id leaves to its
    /// allies.
    pub fn sharing_percentage_of(&self, id: i32, first_faction: usize) -> (percent: i32)
        ensures
            percent == self.sharing_percentage(id as int, first_faction as int),
    {
        if id as i128 >= first_faction as i128 {
            self.sharing_percentage_2
        } else {
            self.sharing_percentage_1
        }
    }

    /// What a herbivore with the given score is worth.
    pub fn bounty_of(&self, score: i32) -> (amount: i32)
        requires
            self.wf(),
        ensures
            amount == self.bounty(score as int),
    {
        let nutrition = self.herbivore_nutrition;
        assert(-0x8000_0000 * 0x8000_0000 <= nutrition * score <= 0x8000_0000 * 0x8000_0000)
            by (nonlinear_arith)
            requires
                -0x8000_0000 <= nutrition <= 0x8000_0000,
                -0x8000_0000 <= score <= 0x8000_0000,
        ;
        quotient_clamped(
            nutrition as i128 * score as i128,
            self.threshold_herbivore_score as i128,
        )
    }

    /// What the killer keeps of a bounty when it has allies.
    pub fn killer_part_of(&self, score: i32, percent: i32) -> (amount: i32)
        requires
            self.wf(),
        ensures
            amount == self.killer_part(score as int, percent as int),
    {
        let nutrition = self.herbivore_nutrition;
        let threshold = self.threshold_herbivore_score;
        let kept: i128 = 100 - percent as i128;
        assert(-0x8000_0000 * 0x8000_0000 <= nutrition * score <= 0x8000_0000 * 0x8000_0000)
            by (nonlinear_arith)
            requires
                -0x8000_0000 <= nutrition <= 0x8000_0000,
                -0x8000_0000 <= score <= 0x8000_0000,
        ;
        let worth: i128 = nutrition as i128 * score as i128;
        assert(-0x4000_0000_0000_0000 * 0x1_0000_0000 <= worth * kept <= 0x4000_0000_0000_0000
            * 0x1_0000_0000) by (nonlinear_arith)
            requires
                -0x4000_0000_0000_0000 <= worth <= 0x4000_0000_0000_0000,
                -0x1_0000_0000 <= kept <= 0x1_0000_0000,
        ;
        assert(threshold * 100 != 0);
        quotient_clamped(worth * kept, threshold as i128 * 100)
    }

    /// What each ally gets of a bounty.
    pub fn ally_part_of(&self, score: i32, percent: i32, allies: usize) -> (amount: i32)
        requires
            self.wf(),
            allies > 0,
        ensures
            amount == self.ally_part(score as int, percent as int, allies as int),
    {
        let nutrition = self.herbivore_nutrition;
        let threshold = self.threshold_herbivore_score;
        assert(-0x8000_0000 * 0x8000_0000 <= nutrition * score <= 0x8000_0000 * 0x8000_0000)
            by (nonlinear_arith)
            requires
                -0x8000_0000 <= nutrition <= 0x8000_0000,
                -0x8000_0000 <= score <= 0x8000_0000,
        ;
        let worth: i128 = nutrition as i128 * score as i128;
        assert(-0x4000_0000_0000_0000 * 0x1_0000_0000 <= worth * percent <= 0x4000_0000_0000_0000
            * 0x1_0000_0000) by (nonlinear_arith)
            requires
                -0x4000_0000_0000_0000 <= worth <= 0x4000_0000_0000_0000,
                -0x1_0000_0000 <= percent <= 0x1_0000_0000,
        ;
        let scale: i128 = threshold as i128 * 100;
        assert(scale * allies != 0 && -0x100_0000_0000 * 0x1_0000_0000_0000_0000 <= scale * allies
            <= 0x100_0000_0000 * 0x1_0000_0000_0000_0000) by (nonlinear_arith)
            requires
                scale != 0,
                -0x100_0000_0000 <= scale <= 0x100_0000_0000,
                0 < allies <= 0x1_0000_0000_0000_0000,
        ;
        quotient_clamped(worth * percent as i128, scale * allies as i128)
    }
}

/// Adds `amount` to the energy and to the fitness of a body.
fn credit(world: &mut World, handle: usize, amount: i32)
    requires
        handle < old(world)@.len(),
    ensures
        final(world)@ == old(world)@.update(
            handle as int,
            credited(old(world)@[handle as int], amount as int),
        ),
{
    let mut body = world.data(handle);
    body.energy = add_clamped(body.energy, amount);
    body.fitness = add_clamped(body.fitness, amount);
    world.set_data(handle, body);
}

/// Marks a body as eaten.
fn flag(world: &mut World, handle: usize)
    requires
        handle < old(world)@.len(),
    ensures
        final(world)@ == old(world)@.update(handle as int, flagged(old(world)@[handle as int])),
{
    let mut body = world.data(handle);
    body.eaten = true;
    world.set_data(handle, body);
}

/// Counts the allies among the overlapping bodies.
fn count_allies(world: &World, killer_id: i32, overlapping: &Vec<usize>) -> (allies: usize)
    requires
        handles_valid(world@, overlapping@),
    ensures
        allies == ally_count(world@, killer_id as int, overlapping@),
{
    let mut allies: usize = 0;
    let mut k: usize = 0;
    while k < overlapping.len()
        invariant
            k <= overlapping.len(),
            handles_valid(world@, overlapping@),
            allies <= k,
            allies == ally_count(world@, killer_id as int, overlapping@.take(k as int)),
        decreases overlapping.len() - k,
    {
        assert(overlapping@.take(k + 1).drop_last() == overlapping@.take(k as int));
        if world.data(overlapping[k]).id != killer_id {
            allies = allies + 1;
        }
        k = k + 1;
    }
    assert(overlapping@.take(k as int) == overlapping@);
    allies
}

/// Credits each ally among the overlapping bodies with `share`.
fn share_out(world: &mut World, killer_id: i32, overlapping: &Vec<usize>, share: i32)
    requires
        handles_valid(old(world)@, overlapping@),
    ensures
        final(world)@ == shared_out(old(world)@, killer_id as int, overlapping@, share as int),
{
    let mut k: usize = 0;
    while k < overlapping.len()
        invariant
            k <= overlapping.len(),
            world@.len() == old(world)@.len(),
            handles_valid(old(world)@, overlapping@),
            world@ == shared_out(
                old(world)@,
                killer_id as int,
                overlapping@.take(k as int),
                share as int,
            ),
        decreases overlapping.len() - k,
    {
        assert(overlapping@.take(k + 1).drop_last() == overlapping@.take(k as int));
        let ally = overlapping[k];
        if world.data(ally).id != killer_id {
            credit(world, ally, share);
        }
        k = k + 1;
    }
    assert(overlapping@.take(k as int) == overlapping@);
}

/// Lets a carnivore catch a body that it met, if that body is a herbivore.
/// Says whether it was one, and with how many allies the bounty was shared
/// if so.
pub fn hunt(
    world: &mut World,
    rules: &Rules,
    first_faction: usize,
    carnivore: usize,
    herbivore: usize,
    overlapping: &Vec<usize>,
) -> (result: (bool, i32))
    requires
        rules.wf(),
        carnivore < old(world)@.len(),
        herbivore < old(world)@.len(),
        handles_valid(old(world)@, overlapping@),
    ensures
        final(world)@ == predation(
            old(world)@,
            *rules,
            first_faction as int,
            carnivore as int,
            herbivore as int,
            overlapping@,
        ),
        result.0 == (old(world)@[herbivore as int].entity_type == Entity::HERBIVORE),
        result.0 ==> result.1 == allies_of(old(world)@, carnivore as int, overlapping@),
        !result.0 ==> result.1 == 0,
{
    let prey = world.data(herbivore);
    match prey.entity_type {
        Entity::HERBIVORE => {
            let killer_id = world.data(carnivore).id;
            let percent = rules.sharing_percentage_of(killer_id, first_faction);
            let allies = count_allies(world, killer_id, overlapping);
            flag(world, herbivore);
            if allies == 0 {
                credit(world, carnivore, rules.bounty_of(prey.score));
            } else {
                credit(world, carnivore, rules.killer_part_of(prey.score, percent));
                let share = rules.ally_part_of(prey.score, percent, allies);
                share_out(world, killer_id, overlapping, share);
            }
            let sharing: i32 = if allies >= i32::MAX as usize {
                i32::MAX
            } else {
                allies as i32
            };
            (true, sharing)
        },
        _ => (false, 0),
    }
}

/// Applies the rules for the kind of body `actor` to its contact with body
/// `other`. Says whether a herbivore was caught, and with how many allies
/// the bounty was shared if so.
pub fn act(
    world: &mut World,
    rules: &Rules,
    first_faction: usize,
    actor: usize,
    other: usize,
    overlapping: &Vec<usize>,
) -> (result: (bool, i32))
    requires
        rules.wf(),
        actor < old(world)@.len(),
        other < old(world)@.len(),
        handles_valid(old(world)@, overlapping@),
    ensures
        final(world)@ == one_way(
            old(world)@,
            *rules,
            first_faction as int,
            actor as int,
            other as int,
            overlapping@,
        ),
        result.0 == preys_on(old(world)@[actor as int], old(world)@[other as int]),
        result.0 ==> result.1 == allies_of(old(world)@, actor as int, overlapping@),
        !result.0 ==> result.1 == 0,
{
    match world.data(actor).entity_type {
        Entity::FOOD => {
            flag(world, actor);
            credit(world, other, rules.food_nutrition);
            (false, 0)
        },
        Entity::WALL => {
            match world.data(other).entity_type {
                Entity::WALL => {},
                _ => {
                    flag(world, other);
                },
            }
            (false, 0)
        },
        Entity::CARNIVORE => hunt(world, rules, first_faction, actor, other, overlapping),
        _ => (false, 0),
    }
}

/// The whole units of a coordinate; a negative coordinate counts as zero.
pub open spec fn whole(coordinate: int) -> int {
    if coordinate <= 0 {
        0
    } else {
        coordinate / (UNIT as int)
    }
}

/// The whole units of a coordinate.
pub fn whole_of(coordinate: i64) -> (units: u64)
    ensures
        units == whole(coordinate as int),
{
    if coordinate <= 0 {
        0
    } else {
        (coordinate / UNIT) as u64
    }
}

/// The row that reports a contact: the two bodies, and the place of the
/// first of them, or of the second where the first is a wall.
pub open spec fn contact_row(
    counter: u64,
    first: CollisionObjectData,
    second: CollisionObjectData,
    event: EventView,
) -> EventRow {
    let position = if first.entity_type != Entity::WALL {
        event.position1
    } else {
        event.position2
    };
    EventRow {
        timestep: counter,
        first_id: first.id,
        second_id: second.id,
        first: first.entity_type.label(),
        second: second.entity_type.label(),
        pos_x: whole(position.0) as u64,
        pos_y: whole(position.1) as u64,
        first_score: first.score as u64,
        second_score: second.score as u64,
    }
}

/// The id that marks a row as the report of a shared bounty.
pub const HUNT_MARK: i32 = -3;

/// The row that reports with how many allies a bounty was shared, at the
/// place of the prey.
pub open spec fn hunt_row(counter: u64, position: (int, int), allies: int) -> EventRow {
    EventRow {
        timestep: counter,
        first_id: HUNT_MARK,
        second_id: allies as i32,
        first: Entity::OTHER.label(),
        second: Entity::OTHER.label(),
        pos_x: whole(position.0) as u64,
        pos_y: whole(position.1) as u64,
        first_score: 0,
        second_score: 0,
    }
}

/// The rows that an event adds to the event stream. While the recording
/// runs, each contact between two bodies that are not alliance zones gives
/// a row, and a predation whose bounty was shared with allies a second one
/// that tells their number.
pub open spec fn event_rows(
    world: Seq<CollisionObjectData>,
    event: EventView,
    counter: u64,
    recording: bool,
) -> Seq<EventRow> {
    let first = world[event.collider1];
    let second = world[event.collider2];
    if event.new_status == Proximity::Intersecting && recording && first.entity_type
        != Entity::OTHER && second.entity_type != Entity::OTHER {
        let contact = contact_row(counter, first, second, event);
        if preys_on(first, second) {
            let allies = allies_of(world, event.collider1, event.overlapping1);
            if allies > 0 {
                seq![contact, hunt_row(counter, event.position2, allies)]
            } else {
                seq![contact]
            }
        } else if preys_on(second, first) {
            let allies = allies_of(world, event.collider2, event.overlapping2);
            if allies > 0 {
                seq![contact, hunt_row(counter, event.position1, allies)]
            } else {
                seq![contact]
            }
        } else {
            seq![contact]
        }
    } else {
        Seq::<EventRow>::empty()
    }
}

/// Resolves one event and gives the records that it adds to the event
/// stream.
pub fn resolve_event(
    world: &mut World,
    rules: &Rules,
    first_faction: usize,
    event: &ProximityEvent,
    counter: u64,
    recording: bool,
) -> (records: Vec<EventRecord>)
    requires
        rules.wf(),
        event@.valid(old(world)@),
    ensures
        final(world)@ == resolved(old(world)@, *rules, first_faction as int, event@),
        final(world)@.len() == old(world)@.len(),
        rows_of(records@) == event_rows(old(world)@, event@, counter, recording),
{
    let mut records: Vec<EventRecord> = Vec::new();
    match event.new_status {
        Proximity::Intersecting => {},
        _ => {
            assert(rows_of(records@) =~= event_rows(old(world)@, event@, counter, recording));
            return records;
        },
    }
    let first = world.data(event.collider1);
    let second = world.data(event.collider2);
    proof {
        lemma_one_way_keeps(
            world@,
            *rules,
            first_faction as int,
            event.collider1 as int,
            event.collider2 as int,
            event.overlapping1@,
        );
    }
    let forth = act(
        world,
        rules,
        first_faction,
        event.collider1,
        event.collider2,
        &event.overlapping1,
    );
    proof {
        lemma_one_way_keeps(
            world@,
            *rules,
            first_faction as int,
            event.collider2 as int,
            event.collider1 as int,
            event.overlapping2@,
        );
        assert(ally_count(world@, second.id as int, event.overlapping2@) == ally_count(
            old(world)@,
            second.id as int,
            event.overlapping2@,
        )) by {
            lemma_ally_count_by_ids(old(world)@, world@, second.id as int, event.overlapping2@);
        }
    }
    let back = act(
        world,
        rules,
        first_faction,
        event.collider2,
        event.collider1,
        &event.overlapping2,
    );
    let listed = match first.entity_type {
        Entity::OTHER => false,
        _ => match second.entity_type {
            Entity::OTHER => false,
            _ => true,
        },
    };
    if recording && listed {
        let position = match first.entity_type {
            Entity::WALL => event.position2,
            _ => event.position1,
        };
        records.push(
            EventRecord::new(
                counter,
                first.id,
                second.id,
                first.entity_type.to_string(),
                second.entity_type.to_string(),
                whole_of(position.0),
                whole_of(position.1),
                first.score as u64,
                second.score as u64,
            ),
        );
        if forth.0 {
            if forth.1 > 0 {
                records.push(
                    EventRecord::new(
                        counter,
                        HUNT_MARK,
                        forth.1,
                        Entity::OTHER.to_string(),
                        Entity::OTHER.to_string(),
                        whole_of(event.position2.0),
                        whole_of(event.position2.1),
                        0,
                        0,
                    ),
                );
            }
        } else if back.0 && back.1 > 0 {
            records.push(
                EventRecord::new(
                    counter,
                    HUNT_MARK,
                    back.1,
                    Entity::OTHER.to_string(),
                    Entity::OTHER.to_string(),
                    whole_of(event.position1.0),
                    whole_of(event.position1.1),
                    0,
                    0,
                ),
            );
        }
    }
    assert(rows_of(records@) =~= event_rows(old(world)@, event@, counter, recording));
    records
}

/// The number of allies depends on the ids of the bodies alone.
pub proof fn lemma_ally_count_by_ids(
    before: Seq<CollisionObjectData>,
    after: Seq<CollisionObjectData>,
    killer_id: int,
    overlapping: Seq<usize>,
)
    requires
        before.len() == after.len(),
        handles_valid(before, overlapping),
        forall|h: int| 0 <= h < before.len() ==> #[trigger] after[h].id == before[h].id,
    ensures
        ally_count(after, killer_id, overlapping) == ally_count(before, killer_id, overlapping),
    decreases overlapping.len(),
{
    if overlapping.len() > 0 {
        let rest = overlapping.drop_last();
        assert(handles_valid(before, rest)) by {
            assert forall|i: int| 0 <= i < rest.len() implies #[trigger] rest[i] < before.len() by {
                assert(rest[i] == overlapping[i]);
            }
        }
        lemma_ally_count_by_ids(before, after, killer_id, rest);
        assert(overlapping.last() == overlapping[overlapping.len() - 1]);
    }
}

/// Food that a herbivore touches is eaten, and nothing else is. The
/// herbivore's energy and fitness rise by exactly the food nutrition where
/// they can take it, and stop at the end of the number range where they
/// cannot. No other body changes. It does not matter which of the two the
/// event names first.
pub proof fn lemma_food_feeds_herbivore(
    world: Seq<CollisionObjectData>,
    rules: Rules,
    first_faction: int,
    event: EventView,
    food: int,
    herbivore: int,
)
    requires
        event.valid(world),
        event.new_status == Proximity::Intersecting,
        (event.collider1 == food && event.collider2 == herbivore) || (event.collider1 == herbivore
            && event.collider2 == food),
        world[food].entity_type == Entity::FOOD,
        world[herbivore].entity_type == Entity::HERBIVORE,
    ensures
        ({
            let after = resolved(world, rules, first_faction, event);
            &&& after.len() == world.len()
            &&& after[food] == flagged(world[food])
            &&& after[herbivore] == credited(world[herbivore], rules.food_nutrition as int)
            &&& after[herbivore].energy == clamp_i32(
                world[herbivore].energy + rules.food_nutrition,
            )
            &&& after[herbivore].fitness == clamp_i32(
                world[herbivore].fitness + rules.food_nutrition,
            )
            &&& takes(world[herbivore], rules.food_nutrition as int) ==> gained(
                world[herbivore],
                after[herbivore],
                rules.food_nutrition as int,
            )
            &&& after[herbivore].eaten == world[herbivore].eaten
            &&& forall|h: int|
                0 <= h < world.len() && h != food && h != herbivore ==> #[trigger] after[h]
                    == world[h]
        }),
{
}

/// Crediting allies leaves a body that is not among the overlapping ones as
/// it was, and credits an ally that is listed once with one share.
pub proof fn lemma_shared_out_once(
    world: Seq<CollisionObjectData>,
    killer_id: int,
    overlapping: Seq<usize>,
    share: int,
    body: usize,
)
    requires
        handles_valid(world, overlapping),
        overlapping.no_duplicates(),
        body < world.len(),
    ensures
        !overlapping.contains(body) ==> shared_out(
            world,
            killer_id,
            overlapping,
            share,
        )[body as int] == world[body as int],
        overlapping.contains(body) && world[body as int].id != killer_id ==> shared_out(
            world,
            killer_id,
            overlapping,
            share,
        )[body as int] == credited(world[body as int], share),
    decreases overlapping.len(),
{
    if overlapping.len() > 0 {
        let rest = overlapping.drop_last();
        let last = overlapping.last();
        assert(last == overlapping[overlapping.len() - 1]);
        assert(handles_valid(world, rest)) by {
            assert forall|i: int| 0 <= i < rest.len() implies #[trigger] rest[i] < world.len() by {
                assert(rest[i] == overlapping[i]);
            }
        }
        assert(rest.no_duplicates()) by {
            assert forall|i: int, j: int| 0 <= i < rest.len() && 0 <= j < rest.len() && i != j implies rest[i]
                != rest[j] by {
                assert(rest[i] == overlapping[i] && rest[j] == overlapping[j]);
            }
        }
        lemma_shared_out_once(world, killer_id, rest, share, body);
        lemma_shared_out_keeps(world, killer_id, rest, share);
        if last == body {
            assert(!rest.contains(body)) by {
                if rest.contains(body) {
                    let i = choose|i: int| 0 <= i < rest.len() && rest[i] == body;
                    assert(rest[i] == overlapping[i]);
                    assert(overlapping[i] == overlapping[overlapping.len() - 1]);
                }
            }
            assert(overlapping.contains(body));
        } else {
            if overlapping.contains(body) {
                let i = choose|i: int| 0 <= i < overlapping.len() && overlapping[i] == body;
                assert(i < overlapping.len() - 1);
                assert(rest[i] == body);
                assert(rest.contains(body));
            }
            if rest.contains(body) {
                let i = choose|i: int| 0 <= i < rest.len() && rest[i] == body;
                assert(overlapping[i] == body);
            }
        }
    }
}

/// A carnivore that catches a herbivore is credited with the whole bounty
/// where it has no allies, and with the bounty less the shared percentage
/// where it has. It gains exactly that where its energy and fitness can
/// take it. Without allies no third body changes. An ally is a body that
/// overlaps the killer's alliance zone and does not carry the killer's id.
pub proof fn lemma_killer_is_credited(
    world: Seq<CollisionObjectData>,
    rules: Rules,
    first_faction: int,
    carnivore: usize,
    herbivore: usize,
    overlapping: Seq<usize>,
)
    requires
        carnivore < world.len(),
        herbivore < world.len(),
        handles_valid(world, overlapping),
        world[carnivore as int].entity_type == Entity::CARNIVORE,
        world[herbivore as int].entity_type == Entity::HERBIVORE,
    ensures
        ({
            let after = predation(
                world,
                rules,
                first_faction,
                carnivore as int,
                herbivore as int,
                overlapping,
            );
            let score = world[herbivore as int].score as int;
            let killer_id = world[carnivore as int].id as int;
            let percent = rules.sharing_percentage(killer_id, first_faction);
            let allies = ally_count(world, killer_id, overlapping);
            &&& after.len() == world.len()
            &&& allies == 0 ==> after[carnivore as int] == credited(
                world[carnivore as int],
                rules.bounty(score),
            )
            &&& allies > 0 ==> after[carnivore as int] == credited(
                world[carnivore as int],
                rules.killer_part(score, percent),
            )
            &&& allies == 0 && takes(world[carnivore as int], rules.bounty(score)) ==> gained(
                world[carnivore as int],
                after[carnivore as int],
                rules.bounty(score),
            )
            &&& allies > 0 && takes(world[carnivore as int], rules.killer_part(score, percent))
                ==> gained(
                world[carnivore as int],
                after[carnivore as int],
                rules.killer_part(score, percent),
            )
            &&& allies == 0 ==> after[herbivore as int] == flagged(world[herbivore as int])
                && forall|h: int|
                0 <= h < world.len() && h != carnivore && h != herbivore ==> #[trigger] after[h]
                    == world[h]
        }),
{
    let score = world[herbivore as int].score as int;
    let killer_id = world[carnivore as int].id as int;
    let percent = rules.sharing_percentage(killer_id, first_faction);
    let allies = ally_count(world, killer_id, overlapping);
    let caught = world.update(herbivore as int, flagged(world[herbivore as int]));
    if allies > 0 {
        let paid = caught.update(
            carnivore as int,
            credited(caught[carnivore as int], rules.killer_part(score, percent)),
        );
        lemma_shared_out_keeps(
            paid,
            killer_id,
            overlapping,
            rules.ally_part(score, percent, allies as int),
        );
    }
}

/// A carnivore that catches a herbivore marks it as eaten, and every ally
/// is credited with an even part of the shared percentage of the bounty,
/// which it gains exactly where its energy and fitness can take it. Bodies
/// that take no part stay as they are. This holds where the overlapping
/// bodies are named once each and the prey is not among them.
pub proof fn lemma_bounty_is_shared(
    world: Seq<CollisionObjectData>,
    rules: Rules,
    first_faction: int,
    carnivore: usize,
    herbivore: usize,
    overlapping: Seq<usize>,
)
    requires
        carnivore < world.len(),
        herbivore < world.len(),
        handles_valid(world, overlapping),
        overlapping.no_duplicates(),
        !overlapping.contains(herbivore),
        world[carnivore as int].entity_type == Entity::CARNIVORE,
        world[herbivore as int].entity_type == Entity::HERBIVORE,
    ensures
        ({
            let after = predation(
                world,
                rules,
                first_faction,
                carnivore as int,
                herbivore as int,
                overlapping,
            );
            let score = world[herbivore as int].score as int;
            let killer_id = world[carnivore as int].id as int;
            let percent = rules.sharing_percentage(killer_id, first_faction);
            let allies = ally_count(world, killer_id, overlapping);
            &&& after.len() == world.len()
            &&& after[herbivore as int] == flagged(world[herbivore as int])
            &&& forall|i: int|
                0 <= i < overlapping.len() && world[overlapping[i] as int].id != killer_id
                    ==> #[trigger] after[overlapping[i] as int] == credited(
                    world[overlapping[i] as int],
                    rules.ally_part(score, percent, allies as int),
                )
            &&& forall|i: int|
                0 <= i < overlapping.len() && world[overlapping[i] as int].id != killer_id && takes(
                    world[overlapping[i] as int],
                    rules.ally_part(score, percent, allies as int),
                ) ==> gained(
                    world[overlapping[i] as int],
                    #[trigger] after[overlapping[i] as int],
                    rules.ally_part(score, percent, allies as int),
                )
            &&& forall|i: int|
                0 <= i < overlapping.len() && world[overlapping[i] as int].id == killer_id
                    && overlapping[i] != carnivore ==> #[trigger] after[overlapping[i] as int]
                    == world[overlapping[i] as int]
            &&& forall|h: usize|
                h < world.len() && h != carnivore && h != herbivore && !overlapping.contains(h)
                    ==> #[trigger] after[h as int] == world[h as int]
        }),
{
    let score = world[herbivore as int].score as int;
    let killer_id = world[carnivore as int].id as int;
    let percent = rules.sharing_percentage(killer_id, first_faction);
    let allies = ally_count(world, killer_id, overlapping);
    let caught = world.update(herbivore as int, flagged(world[herbivore as int]));
    let after = predation(
        world,
        rules,
        first_faction,
        carnivore as int,
        herbivore as int,
        overlapping,
    );
    if allies == 0 {
        lemma_no_allies(world, killer_id, overlapping);
    } else {
        let paid = caught.update(
            carnivore as int,
            credited(caught[carnivore as int], rules.killer_part(score, percent)),
        );
        let share = rules.ally_part(score, percent, allies as int);
        lemma_shared_out_keeps(paid, killer_id, overlapping, share);
        lemma_shared_out_once(paid, killer_id, overlapping, share, herbivore);
        assert forall|i: int|
            0 <= i < overlapping.len() && world[overlapping[i] as int].id
                != killer_id implies #[trigger] after[overlapping[i] as int] == credited(
            world[overlapping[i] as int],
            share,
        ) by {
            lemma_shared_out_once(paid, killer_id, overlapping, share, overlapping[i]);
        }
        assert forall|h: usize|
            h < world.len() && h != carnivore && h != herbivore && !overlapping.contains(
                h,
            ) implies #[trigger] after[h as int] == world[h as int] by {
            lemma_shared_out_once(paid, killer_id, overlapping, share, h);
        }
    }
}

/// What the killer keeps and what its allies get is together no more than
/// the bounty. This is said of a bounty that is not negative and fits the
/// number range, and of a percentage between 0 and 100.
pub proof fn lemma_shares_within_bounty(rules: Rules, score: int, percent: int, allies: int)
    requires
        rules.threshold_herbivore_score > 0,
        rules.herbivore_nutrition * score >= 0,
        quotient(rules.herbivore_nutrition * score, rules.threshold_herbivore_score as int)
            <= i32::MAX,
        0 <= percent <= 100,
        allies > 0,
    ensures
        0 <= rules.killer_part(score, percent),
        0 <= rules.ally_part(score, percent, allies),
        rules.killer_part(score, percent) + allies * rules.ally_part(score, percent, allies)
            <= rules.bounty(score),
{
    let worth = rules.herbivore_nutrition * score;
    let threshold = rules.threshold_herbivore_score as int;
    let whole = worth / threshold;
    let kept = (worth * (100 - percent)) / (threshold * 100);
    let share = (worth * percent) / (threshold * 100 * allies);
    assert(threshold * 100 > 0 && threshold * 100 * allies > 0 && worth * (100 - percent) >= 0
        && worth * percent >= 0) by (nonlinear_arith)
        requires
            threshold > 0,
            allies > 0,
            worth >= 0,
            0 <= percent <= 100,
    ;
    assert(0 <= kept && kept * (threshold * 100) <= worth * (100 - percent)) by (nonlinear_arith)
        requires
            kept == (worth * (100 - percent)) / (threshold * 100),
            threshold * 100 > 0,
            worth * (100 - percent) >= 0,
    ;
    assert(0 <= share && share * (threshold * 100 * allies) <= worth * percent)
        by (nonlinear_arith)
        requires
            share == (worth * percent) / (threshold * 100 * allies),
            threshold * 100 * allies > 0,
            worth * percent >= 0,
    ;
    assert((kept + allies * share) * threshold <= worth) by (nonlinear_arith)
        requires
            kept * (threshold * 100) <= worth * (100 - percent),
            share * (threshold * 100 * allies) <= worth * percent,
            threshold > 0,
    ;
    assert(kept + allies * share <= whole && 0 <= allies * share) by (nonlinear_arith)
        requires
            (kept + allies * share) * threshold <= worth,
            whole == worth / threshold,
            threshold > 0,
            allies > 0,
            share >= 0,
    ;
    assert(share <= allies * share) by (nonlinear_arith)
        requires
            allies > 0,
            share >= 0,
    ;
}

/// Where no ally is counted, every overlapping body carries the killer's id.
pub proof fn lemma_no_allies(
    world: Seq<CollisionObjectData>,
    killer_id: int,
    overlapping: Seq<usize>,
)
    requires
        ally_count(world, killer_id, overlapping) == 0,
    ensures
        forall|i: int|
            0 <= i < overlapping.len() ==> world[#[trigger] overlapping[i] as int].id == killer_id,
    decreases overlapping.len(),
{
    if overlapping.len() > 0 {
        lemma_no_allies(world, killer_id, overlapping.drop_last());
        assert forall|i: int| 0 <= i < overlapping.len() implies world[#[trigger] overlapping[i] as int].id
            == killer_id by {
            if i < overlapping.len() - 1 {
                assert(overlapping.drop_last()[i] == overlapping[i]);
            }
        }
    }
}

/// The events as the proofs see them.
pub open spec fn events_view(events: Seq<ProximityEvent>) -> Seq<EventView> {
    Seq::new(events.len(), |i: int| events[i]@)
}

/// Every handle of every event names a body of the world.
pub open spec fn events_valid(world: Seq<CollisionObjectData>, events: Seq<EventView>) -> bool {
    forall|i: int| 0 <= i < events.len() ==> (#[trigger] events[i]).valid(world)
}

/// The world after a sequence of events, resolved one after the other.
pub open spec fn resolved_all(
    world: Seq<CollisionObjectData>,
    rules: Rules,
    first_faction: int,
    events: Seq<EventView>,
) -> Seq<CollisionObjectData>
    decreases events.len(),
{
    if events.len() == 0 {
        world
    } else {
        resolved(
            resolved_all(world, rules, first_faction, events.drop_last()),
            rules,
            first_faction,
            events.last(),
        )
    }
}

/// The rows that a sequence of events adds to the event stream.
pub open spec fn rows_all(
    world: Seq<CollisionObjectData>,
    rules: Rules,
    first_faction: int,
    events: Seq<EventView>,
    counter: u64,
    recording: bool,
) -> Seq<EventRow>
    decreases events.len(),
{
    if events.len() == 0 {
        Seq::<EventRow>::empty()
    } else {
        rows_all(world, rules, first_faction, events.drop_last(), counter, recording) + event_rows(
            resolved_all(world, rules, first_faction, events.drop_last()),
            events.last(),
            counter,
            recording,
        )
    }
}

/// Resolves the events of a tick, one after the other, and gives the
/// records that they add to the event stream.
pub fn resolve_events(
    world: &mut World,
    rules: &Rules,
    first_faction: usize,
    events: &Vec<ProximityEvent>,
    counter: u64,
    recording: bool,
) -> (records: Vec<EventRecord>)
    requires
        rules.wf(),
        events_valid(old(world)@, events_view(events@)),
    ensures
        final(world)@ == resolved_all(
            old(world)@,
            *rules,
            first_faction as int,
            events_view(events@),
        ),
        final(world)@.len() == old(world)@.len(),
        rows_of(records@) == rows_all(
            old(world)@,
            *rules,
            first_faction as int,
            events_view(events@),
            counter,
            recording,
        ),
{
    let mut records: Vec<EventRecord> = Vec::new();
    let ghost all = events_view(events@);
    let mut k: usize = 0;
    assert(rows_of(records@) =~= Seq::<EventRow>::empty());
    while k < events.len()
        invariant
            k <= events.len(),
            rules.wf(),
            all == events_view(events@),
            events_valid(old(world)@, all),
            world@.len() == old(world)@.len(),
            world@ == resolved_all(old(world)@, *rules, first_faction as int, all.take(k as int)),
            rows_of(records@) == rows_all(
                old(world)@,
                *rules,
                first_faction as int,
                all.take(k as int),
                counter,
                recording,
            ),
        decreases events.len() - k,
    {
        let ghost before = world@;
        let ghost rows_before = rows_of(records@);
        let ghost records_before = records@;
        proof {
            assert(all.take(k + 1).drop_last() == all.take(k as int));
            assert(all.take(k + 1).last() == events[k as int]@);
            assert(all[k as int].valid(old(world)@));
        }
        let mut added = resolve_event(world, rules, first_faction, &events[k], counter, recording);
        let ghost added_rows = rows_of(added@);
        let ghost added_records = added@;
        records.append(&mut added);
        proof {
            assert(records@ == records_before + added_records);
            assert(rows_of(records@) =~= rows_before + added_rows);
        }
        k = k + 1;
    }
    assert(all.take(k as int) == all);
    records
}

} // verus!
