//! The state of a run: setting it up, advancing it by a tick, resolving the
//! contacts of a tick and renewing the food.
use vstd::prelude::*;

use crate::collisionobjectdata::{CollisionObjectData, World};
use crate::config::{count, count_of, Config, WallConfig, FOOD_ID, WALL_ID};
use crate::entity::Entity;
use crate::fixed::{div_toward_zero, trunc_div};
use crate::food::Food;
use crate::groups::Group;
use crate::interaction::Rules;
use crate::placement::{Placement, Shape};
use crate::brain::Reading;
use crate::interaction::{
    allies_of, events_valid, events_view, handles_valid, hunt, predation, resolve_events,
    resolved_all, rows_all, ProximityEvent,
};
use crate::record::GamestateRecord;
use crate::population::{
    average, average_of, decile, decile_of, handles_apart, handles_distinct, health_sum,
    lemma_agents_join,
    lemma_agents_split, lemma_handles_apart_within, lemma_ticked_frame,
    population_wf, rank_population, ranked_from, score_sum, sensors_ready, tallied, ticked,
    update_population, Step, Tally,
};
use crate::record::{rows_of, AverageRecord, EventRecord};
use crate::random_helper::{RandomHelper, MARGIN};
use crate::randomwalker::{RandomWalker, WalkerView};
use crate::wall::Wall;

verus! {

/// Whether an agent is as it is at the start of a run.
pub open spec fn fresh(
    walker: WalkerView,
    config: Config,
    handle: int,
    env_handle: Option<usize>,
    id: int,
    entity: Entity,
) -> bool {
    &&& walker.handle == handle
    &&& walker.env_handle == env_handle
    &&& walker.id == id
    &&& walker.entity == entity
    &&& walker.size == (if entity == Entity::HERBIVORE {
        config.herbivore_size
    } else {
        config.carnivore_size
    })
    &&& walker.speed == (if entity == Entity::HERBIVORE {
        config.herbivore_speed
    } else {
        config.carnivore_speed
    })
    &&& walker.initial_health == (if entity == Entity::HERBIVORE {
        config.initial_herbivore_health
    } else {
        config.initial_carnivore_health
    })
    &&& walker.health == walker.initial_health
    &&& walker.score == 0
    &&& walker.thinking_time == config.thinking_time
    &&& walker.thinking == config.thinking_time
    &&& walker.view_range == config.view_range
    &&& walker.mutation_rate == config.mutation_rate
    &&& walker.facing == 1
    &&& walker.last_trans == (0int, 0int)
}

/// Whether a point keeps the margin to every edge of an arena.
pub open spec fn inside_margins(x: int, y: int, width: int, height: int) -> bool {
    MARGIN <= x < width - MARGIN && MARGIN <= y < height - MARGIN
}

/// What the sensors of one population report: where each agent is, and what
/// the rays of each agent met.
pub struct Sensed {
    pub positions: Vec<(i64, i64)>,
    pub detected: Vec<Vec<Reading>>,
}

/// What a tick asks to be announced.
#[derive(Clone, Copy, Debug)]
pub struct Notices {
    /// The number of the tick is a multiple of a thousand.
    pub timestep: bool,
    pub recording_started: bool,
    pub recording_stopped: bool,
}

/// What a tick leaves to be done and written.
pub struct TickReport {
    pub notices: Notices,
    /// What has to happen to the body of each herbivore, in the order in
    /// which the herbivores stood before the tick.
    pub herbivores: Vec<Step>,
    pub carnivores_1: Vec<Step>,
    pub carnivores_2: Vec<Step>,
    pub averages: AverageRecord,
}

/// Nanoseconds in a second.
pub const SECOND: u128 = 1_000_000_000;

/// Nanoseconds in a minute.
pub const MINUTE: u128 = 60_000_000_000;

/// Nanoseconds in a millisecond.
pub const MILLISECOND: u128 = 1_000_000;

/// Whether the next tick is due: at least the time between two ticks, in
/// milliseconds, has passed since the last tick, in nanoseconds.
pub fn tick_due(since_last_nanos: u128, millis_per_update: u64) -> (due: bool)
    ensures
        due == (since_last_nanos >= millis_per_update * MILLISECOND),
{
    since_last_nanos >= millis_per_update as u128 * MILLISECOND
}

/// Whether the recording runs at a time: from the minute at which it starts
/// for as many minutes as it lasts, both ends included. Times are in
/// nanoseconds since the start of the run.
pub open spec fn recording_at(elapsed: int, start: int, duration: int) -> bool {
    start * MINUTE <= elapsed <= (start + duration) * MINUTE
}

/// Whether a time is within a second of a minute that is not the start of
/// the run.
pub open spec fn near(elapsed: int, minute: int) -> bool {
    minute > 0 && minute * MINUTE - SECOND <= elapsed <= minute * MINUTE + SECOND
}

/// The number of the tick after a given one. The last number there is
/// stays.
pub open spec fn next_tick(counter: u64) -> u64 {
    if counter == u64::MAX {
        counter
    } else {
        (counter + 1) as u64
    }
}

/// What a tick at a given time asks to be announced. The start of a
/// recording that begins with the run is announced at the first tick.
pub open spec fn notices_at(elapsed: int, start: int, duration: int, tick: u64) -> Notices {
    Notices {
        timestep: tick % 1000 == 0,
        recording_started: near(elapsed, start) || (start == 0 && tick == 1),
        recording_stopped: near(elapsed, start + duration),
    }
}

/// Whether four averages are those of a tick of a population: health and
/// score of all agents as they were before the tick, and of the top tenth
/// as it is after.
pub open spec fn averaged(
    before: Seq<RandomWalker>,
    after: Seq<RandomWalker>,
    health: i64,
    score: i64,
    top_health: i64,
    top_score: i64,
) -> bool {
    let size = before.len() as int;
    &&& health == average(health_sum(before, size), size)
    &&& score == average(score_sum(before, size), size)
    &&& top_health == average(health_sum(after, decile(size)), decile(size))
    &&& top_score == average(score_sum(after, decile(size)), decile(size))
}

/// Whether `after` is the next generation of the population `before`: what
/// a tick makes of it, in ranked order.
pub open spec fn generation(
    before: Seq<RandomWalker>,
    after: Seq<RandomWalker>,
    world_before: Seq<CollisionObjectData>,
    world_after: Seq<CollisionObjectData>,
    sensed: &Sensed,
    arena: (int, int),
    steps: Seq<Step>,
    health: i64,
    score: i64,
    top_health: i64,
    top_score: i64,
) -> bool {
    exists|mid: Seq<RandomWalker>|
        #![trigger ranked_from(mid, after)]
        ticked(
            before,
            mid,
            world_before,
            world_after,
            sensed.positions@,
            sensed.detected@,
            arena.0,
            arena.1,
            steps,
        ) && averaged(before, mid, health, score, top_health, top_score) && ranked_from(mid, after)
}

/// Whether a handle names the body of a piece of food.
pub open spec fn is_food(foods: Seq<Food>, handle: int) -> bool {
    exists|i: int| 0 <= i < foods.len() && (#[trigger] foods[i]).handle() == handle
}

/// A body that is not marked as eaten.
pub open spec fn renewed(body: CollisionObjectData) -> CollisionObjectData {
    CollisionObjectData { eaten: false, ..body }
}

/// The handles of those among the first `n` pieces of food that were eaten,
/// in the order of the food.
pub open spec fn eaten_handles(
    foods: Seq<Food>,
    world: Seq<CollisionObjectData>,
    n: int,
) -> Seq<int>
    decreases n,
{
    if n <= 0 {
        Seq::<int>::empty()
    } else if world[foods[n - 1].handle()].eaten {
        eaten_handles(foods, world, n - 1).push(foods[n - 1].handle())
    } else {
        eaten_handles(foods, world, n - 1)
    }
}

/// The handles that a list of moves names.
pub open spec fn moved_handles(moves: Seq<(usize, i64, i64)>) -> Seq<int> {
    Seq::new(moves.len(), |k: int| moves[k].0 as int)
}

/// The score of the agent at the head of a population, zero for an empty
/// one.
pub open spec fn head_score(population: Seq<RandomWalker>) -> int {
    if population.len() > 0 {
        population[0]@.score
    } else {
        0
    }
}

/// The state of a run but for where the bodies are.
pub struct GameState {
    foods: Vec<Food>,
    herbivores: Vec<RandomWalker>,
    carnivores_1: Vec<RandomWalker>,
    carnivores_2: Vec<RandomWalker>,
    world: World,
    random: RandomHelper,
    walls: Vec<Wall>,
    best_herbivore_score: i32,
    best_carnivore_score: i32,
    rules: Rules,
    start_recording: u64,
    recording_duration: u64,
    record_all_details: bool,
    recording: bool,
    counter: u64,
}

impl GameState {
    pub closed spec fn foods(&self) -> Seq<Food> {
        self.foods@
    }

    pub closed spec fn herbivores(&self) -> Seq<RandomWalker> {
        self.herbivores@
    }

    /// The carnivores of the first faction.
    pub closed spec fn carnivores_1(&self) -> Seq<RandomWalker> {
        self.carnivores_1@
    }

    /// The carnivores of the second faction.
    pub closed spec fn carnivores_2(&self) -> Seq<RandomWalker> {
        self.carnivores_2@
    }

    /// The records of all bodies.
    pub closed spec fn world(&self) -> Seq<CollisionObjectData> {
        self.world@
    }

    pub closed spec fn walls(&self) -> Seq<Wall> {
        self.walls@
    }

    /// Width and height of the arena.
    pub closed spec fn arena(&self) -> (int, int) {
        (self.random.screen_size_x(), self.random.screen_size_y())
    }

    pub closed spec fn rules(&self) -> Rules {
        self.rules
    }

    /// The highest score among the herbivores at the last ranking.
    pub closed spec fn best_herbivore_score(&self) -> int {
        self.best_herbivore_score as int
    }

    /// The highest score among the carnivores at the last ranking.
    pub closed spec fn best_carnivore_score(&self) -> int {
        self.best_carnivore_score as int
    }

    /// Minute at which the recording starts.
    pub closed spec fn start_recording(&self) -> u64 {
        self.start_recording
    }

    /// Minutes that the recording lasts.
    pub closed spec fn recording_duration(&self) -> u64 {
        self.recording_duration
    }

    pub closed spec fn record_all_details(&self) -> bool {
        self.record_all_details
    }

    /// Whether the recording runs.
    pub closed spec fn recording(&self) -> bool {
        self.recording
    }

    /// The number of ticks so far.
    pub closed spec fn counter(&self) -> u64 {
        self.counter
    }

    /// All agents: the herbivores, then the two factions of carnivores.
    pub open spec fn agents(&self) -> Seq<RandomWalker> {
        self.herbivores() + self.carnivores_1() + self.carnivores_2()
    }

    /// The rules can be applied, every agent is well formed, every agent
    /// and every piece of food has a body of its own, and the arena leaves
    /// room between its margins.
    pub open spec fn wf(&self) -> bool {
        &&& self.rules().wf()
        &&& population_wf(self.agents(), self.world().len())
        &&& handles_distinct(self.agents())
        &&& forall|i: int|
            0 <= i < self.foods().len() ==> 0 <= (#[trigger] self.foods()[i]).handle()
                < self.world().len()
        &&& forall|i: int, j: int|
            0 <= i < self.foods().len() && 0 <= j < self.foods().len() && i != j ==> (
            #[trigger] self.foods()[i]).handle() != (#[trigger] self.foods()[j]).handle()
        &&& self.arena().0 > 2 * MARGIN
        &&& self.arena().1 > 2 * MARGIN
    }

    /// Whether the sensors of a population can be read as they are given.
    pub open spec fn sensed_ready(&self, population: Seq<RandomWalker>, sensed: &Sensed) -> bool {
        &&& sensed.positions.len() == population.len()
        &&& sensed.detected.len() == population.len()
        &&& sensors_ready(population, self.world(), sensed.detected@)
    }

    /// Counts a tick that begins `elapsed_nanos` after the start of the
    /// run, switches the recording on or off, and says what to announce.
    pub fn advance_clock(&mut self, elapsed_nanos: u128) -> (notices: Notices)
        ensures
            final(self).counter() == next_tick(old(self).counter()),
            final(self).recording() == recording_at(
                elapsed_nanos as int,
                old(self).start_recording() as int,
                old(self).recording_duration() as int,
            ),
            notices == notices_at(
                elapsed_nanos as int,
                old(self).start_recording() as int,
                old(self).recording_duration() as int,
                final(self).counter(),
            ),
            final(self).same_run(old(self)),
            final(self).herbivores() == old(self).herbivores(),
            final(self).carnivores_1() == old(self).carnivores_1(),
            final(self).carnivores_2() == old(self).carnivores_2(),
            final(self).world() == old(self).world(),
            final(self).best_herbivore_score() == old(self).best_herbivore_score(),
            final(self).best_carnivore_score() == old(self).best_carnivore_score(),
    {
        if self.counter < u64::MAX {
            self.counter = self.counter + 1;
        }
        let start = self.start_recording as u128;
        let stop = self.start_recording as u128 + self.recording_duration as u128;
        self.recording = start * MINUTE <= elapsed_nanos && elapsed_nanos <= stop * MINUTE;
        Notices {
            timestep: self.counter % 1000 == 0,
            recording_started: (start > 0 && start * MINUTE - SECOND <= elapsed_nanos
                && elapsed_nanos <= start * MINUTE + SECOND) || (start == 0 && self.counter == 1),
            recording_stopped: stop > 0 && stop * MINUTE - SECOND <= elapsed_nanos && elapsed_nanos
                <= stop * MINUTE + SECOND,
        }
    }

    /// Whether two states belong to one run: they have the same food, walls,
    /// rules, arena and recording window.
    pub open spec fn same_run(&self, other: &Self) -> bool {
        &&& self.foods() == other.foods()
        &&& self.walls() == other.walls()
        &&& self.rules() == other.rules()
        &&& self.arena() == other.arena()
        &&& self.start_recording() == other.start_recording()
        &&& self.recording_duration() == other.recording_duration()
        &&& self.record_all_details() == other.record_all_details()
    }

    /// Lets every agent live through a tick: the herbivores, then the first
    /// faction of carnivores, then the second.
    fn tick_all(
        &mut self,
        herbivores: &Sensed,
        carnivores_1: &Sensed,
        carnivores_2: &Sensed,
    ) -> (result: ((Vec<Step>, Tally), (Vec<Step>, Tally), (Vec<Step>, Tally)))
        requires
            old(self).wf(),
            old(self).sensed_ready(old(self).herbivores(), herbivores),
            old(self).sensed_ready(old(self).carnivores_1(), carnivores_1),
            old(self).sensed_ready(old(self).carnivores_2(), carnivores_2),
        ensures
            final(self).wf(),
            final(self).same_run(old(self)),
            final(self).counter() == old(self).counter(),
            final(self).recording() == old(self).recording(),
            final(self).world().len() == old(self).world().len(),
            ticked(
                old(self).herbivores(),
                final(self).herbivores(),
                old(self).world(),
                final(self).world(),
                herbivores.positions@,
                herbivores.detected@,
                old(self).arena().0,
                old(self).arena().1,
                result.0.0@,
            ),
            ticked(
                old(self).carnivores_1(),
                final(self).carnivores_1(),
                old(self).world(),
                final(self).world(),
                carnivores_1.positions@,
                carnivores_1.detected@,
                old(self).arena().0,
                old(self).arena().1,
                result.1.0@,
            ),
            ticked(
                old(self).carnivores_2(),
                final(self).carnivores_2(),
                old(self).world(),
                final(self).world(),
                carnivores_2.positions@,
                carnivores_2.detected@,
                old(self).arena().0,
                old(self).arena().1,
                result.2.0@,
            ),
            tallied(old(self).herbivores(), final(self).herbivores(), result.0.1),
            tallied(old(self).carnivores_1(), final(self).carnivores_1(), result.1.1),
            tallied(old(self).carnivores_2(), final(self).carnivores_2(), result.2.1),
            forall|h: int|
                0 <= h < old(self).world().len() && (forall|i: int|
                    0 <= i < old(self).agents().len() ==> (#[trigger] old(self).agents()[i])@.handle
                        != h) ==> #[trigger] final(self).world()[h] == old(self).world()[h],
    {
        let ghost before_h = self.herbivores@;
        let ghost before_1 = self.carnivores_1@;
        let ghost before_2 = self.carnivores_2@;
        let ghost world_0 = self.world@;
        proof {
            lemma_agents_split(before_h, before_1, before_2, world_0.len());
            lemma_apart_swap(before_h, before_1);
            lemma_apart_swap(before_h, before_2);
            lemma_apart_swap(before_1, before_2);
        }
        let first = tick_faction(
            &mut self.herbivores,
            &mut self.world,
            &mut self.random,
            herbivores,
            Ghost(before_1),
            Ghost(before_2),
        );
        let ghost world_1 = self.world@;
        proof {
            lemma_apart_swap(self.herbivores@, before_1);
            lemma_apart_swap(self.herbivores@, before_2);
        }
        let second = tick_faction(
            &mut self.carnivores_1,
            &mut self.world,
            &mut self.random,
            carnivores_1,
            Ghost(self.herbivores@),
            Ghost(before_2),
        );
        let ghost world_2 = self.world@;
        proof {
            lemma_apart_swap(self.carnivores_1@, before_2);
        }
        let third = tick_faction(
            &mut self.carnivores_2,
            &mut self.world,
            &mut self.random,
            carnivores_2,
            Ghost(self.herbivores@),
            Ghost(self.carnivores_1@),
        );
        proof {
            let world_3 = self.world@;
            lemma_ticked_frame(
                before_h,
                self.herbivores@,
                world_0,
                world_1,
                world_0,
                world_3,
                herbivores.positions@,
                herbivores.detected@,
                old(self).arena().0,
                old(self).arena().1,
                first.0@,
            );
            lemma_ticked_frame(
                before_1,
                self.carnivores_1@,
                world_1,
                world_2,
                world_0,
                world_3,
                carnivores_1.positions@,
                carnivores_1.detected@,
                old(self).arena().0,
                old(self).arena().1,
                second.0@,
            );
            lemma_ticked_frame(
                before_2,
                self.carnivores_2@,
                world_2,
                world_3,
                world_0,
                world_3,
                carnivores_2.positions@,
                carnivores_2.detected@,
                old(self).arena().0,
                old(self).arena().1,
                third.0@,
            );
            assert forall|h: int|
                0 <= h < world_0.len() && (forall|i: int|
                    0 <= i < old(self).agents().len() ==> (#[trigger] old(self).agents()[i])@.handle
                        != h) implies #[trigger] world_3[h] == world_0[h] by {
                let all = old(self).agents();
                assert forall|i: int| 0 <= i < before_h.len() implies (#[trigger] before_h[i])@.handle
                    != h by {
                    assert(all[i] == before_h[i]);
                }
                assert forall|i: int| 0 <= i < before_1.len() implies (#[trigger] before_1[i])@.handle
                    != h by {
                    assert(all[before_h.len() + i] == before_1[i]);
                }
                assert forall|i: int| 0 <= i < before_2.len() implies (#[trigger] before_2[i])@.handle
                    != h by {
                    assert(all[before_h.len() + before_1.len() + i] == before_2[i]);
                }
            }
            lemma_apart_swap(self.carnivores_1@, self.herbivores@);
            lemma_apart_swap(self.carnivores_2@, self.herbivores@);
            lemma_apart_swap(self.carnivores_2@, self.carnivores_1@);
            lemma_agents_join(
                self.herbivores@,
                self.carnivores_1@,
                self.carnivores_2@,
                world_3.len(),
            );
            assert(forall|i: int|
                0 <= i < old(self).foods().len() ==> 0 <= (#[trigger] old(self).foods()[i]).handle()
                    < old(self).world().len());
        }
        (first, second, third)
    }

    /// Ranks each population by descending score, agents with equal scores
    /// keeping their order, and notes the best scores.
    pub fn rank(&mut self)
        requires
            old(self).wf(),
        ensures
            final(self).wf(),
            final(self).same_run(old(self)),
            final(self).counter() == old(self).counter(),
            final(self).recording() == old(self).recording(),
            final(self).world() == old(self).world(),
            ranked_from(old(self).herbivores(), final(self).herbivores()),
            ranked_from(old(self).carnivores_1(), final(self).carnivores_1()),
            ranked_from(old(self).carnivores_2(), final(self).carnivores_2()),
            final(self).best_herbivore_score() == head_score(final(self).herbivores()),
            final(self).best_carnivore_score() == (if final(self).carnivores_2().len() > 0
                && head_score(final(self).carnivores_2()) > head_score(final(self).carnivores_1()) {
                head_score(final(self).carnivores_2())
            } else {
                head_score(final(self).carnivores_1())
            }),
    {
        let ghost mid_h = self.herbivores@;
        let ghost mid_1 = self.carnivores_1@;
        let ghost mid_2 = self.carnivores_2@;
        let ghost bodies = self.world@.len();
        proof {
            lemma_agents_split(mid_h, mid_1, mid_2, bodies);
        }
        rank_population(&mut self.herbivores, Ghost(bodies));
        rank_population(&mut self.carnivores_1, Ghost(bodies));
        rank_population(&mut self.carnivores_2, Ghost(bodies));
        proof {
            lemma_handles_apart_within(mid_h, mid_1, self.herbivores@, self.carnivores_1@);
            lemma_handles_apart_within(mid_h, mid_2, self.herbivores@, self.carnivores_2@);
            lemma_handles_apart_within(mid_1, mid_2, self.carnivores_1@, self.carnivores_2@);
            lemma_agents_join(self.herbivores@, self.carnivores_1@, self.carnivores_2@, bodies);
        }
        self.best_herbivore_score = 0;
        self.best_carnivore_score = 0;
        if self.herbivores.len() > 0 {
            self.best_herbivore_score = self.herbivores[0].get_score();
        }
        if self.carnivores_1.len() > 0 {
            self.best_carnivore_score = self.carnivores_1[0].get_score();
        }
        if self.carnivores_2.len() > 0 {
            let score = self.carnivores_2[0].get_score();
            if score > self.best_carnivore_score {
                self.best_carnivore_score = score;
            }
        }
        proof {
            assert(forall|i: int|
                0 <= i < old(self).foods().len() ==> 0 <= (#[trigger] old(self).foods()[i]).handle()
                    < old(self).world().len());
        }
    }

    /// Lets the run advance by one tick, up to the point where the bodies
    /// have to be moved. `elapsed_nanos` is the time since the start of the
    /// run. The three other arguments hold what the sensors of the agents
    /// report.
    ///
    /// The tick is counted and the recording switched on or off. Then
    /// every agent lives through the tick, the herbivores first, and each
    /// population is ranked by score.
    pub fn update(
        &mut self,
        elapsed_nanos: u128,
        herbivores: &Sensed,
        carnivores_1: &Sensed,
        carnivores_2: &Sensed,
    ) -> (report: TickReport)
        requires
            old(self).wf(),
            old(self).sensed_ready(old(self).herbivores(), herbivores),
            old(self).sensed_ready(old(self).carnivores_1(), carnivores_1),
            old(self).sensed_ready(old(self).carnivores_2(), carnivores_2),
        ensures
            final(self).wf(),
            final(self).same_run(old(self)),
            final(self).counter() == next_tick(old(self).counter()),
            final(self).recording() == recording_at(
                elapsed_nanos as int,
                old(self).start_recording() as int,
                old(self).recording_duration() as int,
            ),
            report.notices == notices_at(
                elapsed_nanos as int,
                old(self).start_recording() as int,
                old(self).recording_duration() as int,
                final(self).counter(),
            ),
            report.averages.timestep == final(self).counter(),
            generation(
                old(self).herbivores(),
                final(self).herbivores(),
                old(self).world(),
                final(self).world(),
                herbivores,
                old(self).arena(),
                report.herbivores@,
                report.averages.prey_avg_health,
                report.averages.prey_avg_score,
                report.averages.top_prey_avg_health,
                report.averages.top_prey_avg_score,
            ),
            generation(
                old(self).carnivores_1(),
                final(self).carnivores_1(),
                old(self).world(),
                final(self).world(),
                carnivores_1,
                old(self).arena(),
                report.carnivores_1@,
                report.averages.hunter1_avg_health,
                report.averages.hunter1_avg_score,
                report.averages.top_hunter1_avg_health,
                report.averages.top_hunter1_avg_score,
            ),
            generation(
                old(self).carnivores_2(),
                final(self).carnivores_2(),
                old(self).world(),
                final(self).world(),
                carnivores_2,
                old(self).arena(),
                report.carnivores_2@,
                report.averages.hunter2_avg_health,
                report.averages.hunter2_avg_score,
                report.averages.top_hunter2_avg_health,
                report.averages.top_hunter2_avg_score,
            ),
            final(self).world().len() == old(self).world().len(),
            forall|h: int|
                0 <= h < old(self).world().len() && (forall|i: int|
                    0 <= i < old(self).agents().len() ==> (#[trigger] old(self).agents()[i])@.handle
                        != h) ==> #[trigger] final(self).world()[h] == old(self).world()[h],
            final(self).best_herbivore_score() == head_score(final(self).herbivores()),
            final(self).best_carnivore_score() == (if final(self).carnivores_2().len() > 0
                && head_score(final(self).carnivores_2()) > head_score(final(self).carnivores_1()) {
                head_score(final(self).carnivores_2())
            } else {
                head_score(final(self).carnivores_1())
            }),
    {
        let notices = self.advance_clock(elapsed_nanos);
        let ((steps_h, tally_h), (steps_1, tally_1), (steps_2, tally_2)) = self.tick_all(
            herbivores,
            carnivores_1,
            carnivores_2,
        );
        let ghost mid_h = self.herbivores();
        let ghost mid_1 = self.carnivores_1();
        let ghost mid_2 = self.carnivores_2();
        self.rank();
        let averages = AverageRecord::new(
            self.counter,
            average_of(tally_h.score, tally_h.size),
            average_of(tally_1.score, tally_1.size),
            average_of(tally_2.score, tally_2.size),
            average_of(tally_h.health, tally_h.size),
            average_of(tally_1.health, tally_1.size),
            average_of(tally_2.health, tally_2.size),
            average_of(tally_h.top_score, decile_of(tally_h.size)),
            average_of(tally_1.top_score, decile_of(tally_1.size)),
            average_of(tally_2.top_score, decile_of(tally_2.size)),
            average_of(tally_h.top_health, decile_of(tally_h.size)),
            average_of(tally_1.top_health, decile_of(tally_1.size)),
            average_of(tally_2.top_health, decile_of(tally_2.size)),
        );
        proof {
            assert(ranked_from(mid_h, self.herbivores()));
            assert(ranked_from(mid_1, self.carnivores_1()));
            assert(ranked_from(mid_2, self.carnivores_2()));
        }
        TickReport {
            notices,
            herbivores: steps_h,
            carnivores_1: steps_1,
            carnivores_2: steps_2,
            averages,
        }
    }

    /// Resolves the contacts of a tick, one after the other, and gives the
    /// records that they add to the event stream. Only contacts that begin
    /// have an effect.
    pub fn handle_proximity_event(&mut self, events: &Vec<ProximityEvent>) -> (records: Vec<
        EventRecord,
    >)
        requires
            old(self).wf(),
            events_valid(old(self).world(), events_view(events@)),
        ensures
            final(self).wf(),
            final(self).same_run(old(self)),
            final(self).world() == resolved_all(
                old(self).world(),
                old(self).rules(),
                old(self).carnivores_1().len() as int,
                events_view(events@),
            ),
            rows_of(records@) == rows_all(
                old(self).world(),
                old(self).rules(),
                old(self).carnivores_1().len() as int,
                events_view(events@),
                old(self).counter(),
                old(self).recording(),
            ),
            final(self).herbivores() == old(self).herbivores(),
            final(self).carnivores_1() == old(self).carnivores_1(),
            final(self).carnivores_2() == old(self).carnivores_2(),
            final(self).counter() == old(self).counter(),
            final(self).recording() == old(self).recording(),
            final(self).best_herbivore_score() == old(self).best_herbivore_score(),
            final(self).best_carnivore_score() == old(self).best_carnivore_score(),
    {
        let first_faction = self.carnivores_1.len();
        let records = resolve_events(
            &mut self.world,
            &self.rules,
            first_faction,
            events,
            self.counter,
            self.recording,
        );
        proof {
            assert(forall|i: int|
                0 <= i < old(self).foods().len() ==> 0 <= (#[trigger] old(self).foods()[i]).handle()
                    < old(self).world().len());
        }
        records
    }

    /// Lets a carnivore catch a body that it met, if that body is a
    /// herbivore. `overlapping` names the bodies that overlap the alliance
    /// zone of the carnivore. Says whether a herbivore was caught, and with
    /// how many allies the bounty was shared if so.
    pub fn handle_carnivore_herbivore_event(
        &mut self,
        carnivore: usize,
        herbivore: usize,
        overlapping: &Vec<usize>,
    ) -> (result: (bool, i32))
        requires
            old(self).wf(),
            carnivore < old(self).world().len(),
            herbivore < old(self).world().len(),
            handles_valid(old(self).world(), overlapping@),
        ensures
            final(self).wf(),
            final(self).same_run(old(self)),
            final(self).world() == predation(
                old(self).world(),
                old(self).rules(),
                old(self).carnivores_1().len() as int,
                carnivore as int,
                herbivore as int,
                overlapping@,
            ),
            result.0 == (old(self).world()[herbivore as int].entity_type == Entity::HERBIVORE),
            result.0 ==> result.1 == allies_of(old(self).world(), carnivore as int, overlapping@),
            !result.0 ==> result.1 == 0,
            final(self).herbivores() == old(self).herbivores(),
            final(self).carnivores_1() == old(self).carnivores_1(),
            final(self).carnivores_2() == old(self).carnivores_2(),
            final(self).counter() == old(self).counter(),
            final(self).recording() == old(self).recording(),
    {
        let first_faction = self.carnivores_1.len();
        proof {
            crate::interaction::lemma_one_way_keeps(
                self.world@,
                self.rules,
                first_faction as int,
                carnivore as int,
                herbivore as int,
                overlapping@,
            );
        }
        let result = hunt(
            &mut self.world,
            &self.rules,
            first_faction,
            carnivore,
            herbivore,
            overlapping,
        );
        proof {
            crate::interaction::lemma_predation_keeps_len(
                old(self).world(),
                old(self).rules(),
                first_faction as int,
                carnivore as int,
                herbivore as int,
                overlapping@,
            );
            assert(forall|i: int|
                0 <= i < old(self).foods().len() ==> 0 <= (#[trigger] old(self).foods()[i]).handle()
                    < old(self).world().len());
        }
        result
    }

    /// Renews the food that was eaten. Gives, for each piece that was
    /// eaten, the handle of its body and the place, inside the margins of
    /// the arena, where it turns up again, in the order of the food.
    pub fn update_foods(&mut self) -> (moves: Vec<(usize, i64, i64)>)
        requires
            old(self).wf(),
        ensures
            final(self).wf(),
            final(self).same_run(old(self)),
            final(self).world().len() == old(self).world().len(),
            forall|h: int|
                0 <= h < old(self).world().len() ==> #[trigger] final(self).world()[h] == (
                if is_food(old(self).foods(), h) {
                    renewed(old(self).world()[h])
                } else {
                    old(self).world()[h]
                }),
            moved_handles(moves@) == eaten_handles(
                old(self).foods(),
                old(self).world(),
                old(self).foods().len() as int,
            ),
            forall|k: int|
                0 <= k < moves.len() ==> inside_margins(
                    (#[trigger] moves[k]).1 as int,
                    moves[k].2 as int,
                    old(self).arena().0,
                    old(self).arena().1,
                ),
            final(self).herbivores() == old(self).herbivores(),
            final(self).carnivores_1() == old(self).carnivores_1(),
            final(self).carnivores_2() == old(self).carnivores_2(),
            final(self).counter() == old(self).counter(),
            final(self).recording() == old(self).recording(),
    {
        let mut moves: Vec<(usize, i64, i64)> = Vec::new();
        let n = self.foods.len();
        let mut i: usize = 0;
        assert(moved_handles(moves@) =~= eaten_handles(self.foods@, self.world@, 0));
        while i < n
            invariant
                i <= n,
                n == self.foods.len(),
                self.foods@ == old(self).foods@,
                self.herbivores@ == old(self).herbivores@,
                self.carnivores_1@ == old(self).carnivores_1@,
                self.carnivores_2@ == old(self).carnivores_2@,
                self.walls@ == old(self).walls@,
                self.rules == old(self).rules,
                self.counter == old(self).counter,
                self.recording == old(self).recording,
                self.start_recording == old(self).start_recording,
                self.recording_duration == old(self).recording_duration,
                self.record_all_details == old(self).record_all_details,
                self.best_herbivore_score == old(self).best_herbivore_score,
                self.best_carnivore_score == old(self).best_carnivore_score,
                self.arena() == old(self).arena(),
                old(self).wf(),
                self.world@.len() == old(self).world@.len(),
                forall|h: int|
                    0 <= h < self.world@.len() ==> #[trigger] self.world@[h] == (if is_food(
                        self.foods@.take(i as int),
                        h,
                    ) {
                        renewed(old(self).world@[h])
                    } else {
                        old(self).world@[h]
                    }),
                moved_handles(moves@) == eaten_handles(self.foods@, old(self).world@, i as int),
                forall|k: int|
                    0 <= k < moves.len() ==> inside_margins(
                        (#[trigger] moves[k]).1 as int,
                        moves[k].2 as int,
                        old(self).arena().0,
                        old(self).arena().1,
                    ),
            decreases n - i,
        {
            let ghost before = self.world@;
            let ghost moves_before = moves@;
            let handle = self.foods[i].get_handle();
            proof {
                assert(0 <= old(self).foods()[i as int].handle() < old(self).world().len());
                assert(!is_food(self.foods@.take(i as int), handle as int)) by {
                    if is_food(self.foods@.take(i as int), handle as int) {
                        let j = choose|j: int|
                            0 <= j < self.foods@.take(i as int).len() && (
                            #[trigger] self.foods@.take(i as int)[j]).handle() == handle;
                        assert(self.foods@.take(i as int)[j] == old(self).foods()[j]);
                        assert(old(self).foods()[j].handle() != old(self).foods()[i as int].handle());
                    }
                }
            }
            let ghost foods_before = self.foods@;
            let place = self.foods[i].update(&mut self.world, &mut self.random);
            assert(self.foods@ =~= foods_before);
            match place {
                Some((x, y)) => {
                    moves.push((handle, x, y));
                },
                None => {},
            }
            proof {
                let shorter = self.foods@.take(i as int);
                let longer = self.foods@.take(i + 1);
                assert(longer.drop_last() == shorter);
                assert(longer.last() == self.foods@[i as int]);
                assert forall|h: int| 0 <= h < self.world@.len() implies #[trigger] self.world@[h] == (
                if is_food(longer, h) {
                    renewed(old(self).world@[h])
                } else {
                    old(self).world@[h]
                }) by {
                    if h == handle {
                        assert(longer[i as int].handle() == h);
                    } else {
                        if is_food(longer, h) {
                            let j = choose|j: int|
                                0 <= j < longer.len() && (#[trigger] longer[j]).handle() == h;
                            assert(j < i);
                            assert(shorter[j].handle() == h);
                        }
                        if is_food(shorter, h) {
                            let j = choose|j: int|
                                0 <= j < shorter.len() && (#[trigger] shorter[j]).handle() == h;
                            assert(longer[j].handle() == h);
                        }
                    }
                }
                assert(moved_handles(moves@) =~= eaten_handles(
                    self.foods@,
                    old(self).world@,
                    i + 1,
                )) by {
                    if place is Some {
                        assert(moves@ == moves_before.push(moves@[moves_before.len() as int]));
                        assert(moved_handles(moves@) =~= moved_handles(moves_before).push(
                            handle as int,
                        ));
                    }
                }
                assert forall|k: int| 0 <= k < moves.len() implies inside_margins(
                    (#[trigger] moves[k]).1 as int,
                    moves[k].2 as int,
                    old(self).arena().0,
                    old(self).arena().1,
                ) by {
                    if k < moves_before.len() {
                        assert(moves[k] == moves_before[k]);
                    }
                }
            }
            i = i + 1;
        }
        proof {
            assert(self.foods@.take(n as int) == self.foods@);
            assert(self.agents() == old(self).agents());
            assert(forall|i: int|
                0 <= i < old(self).foods().len() ==> 0 <= (#[trigger] old(self).foods()[i]).handle()
                    < old(self).world().len());
            assert(forall|i: int, j: int|
                0 <= i < old(self).foods().len() && 0 <= j < old(self).foods().len() && i != j ==> (
                #[trigger] old(self).foods()[i]).handle() != (#[trigger] old(self).foods()[j]).handle());
        }
        moves
    }

    /// The row of the snapshot stream for an agent after its step, which
    /// left it at the given place. There is one while the recording runs
    /// and all details are asked for.
    pub fn snapshot(&self, step: &Step, x: i64, y: i64, entity: Entity) -> (record: Option<
        GamestateRecord<'static>,
    >)
        ensures
            record is Some <==> self.recording() && self.record_all_details(),
            record matches Some(row) ==> {
                &&& row.timestep == self.counter()
                &&& row.x == x
                &&& row.y == y
                &&& row.id == step.id as u64
                &&& row.health == step.health
                &&& row.score == step.score
                &&& row.entity@ == entity.label()
            },
    {
        if self.recording && self.record_all_details {
            Some(
                GamestateRecord::new(
                    self.counter,
                    x,
                    y,
                    step.id as u64,
                    step.health,
                    step.score,
                    entity.name(),
                ),
            )
        } else {
            None
        }
    }

    pub fn get_herbivores(&self) -> (agents: &Vec<RandomWalker>)
        ensures
            agents@ == self.herbivores(),
    {
        &self.herbivores
    }

    pub fn get_carnivores_1(&self) -> (agents: &Vec<RandomWalker>)
        ensures
            agents@ == self.carnivores_1(),
    {
        &self.carnivores_1
    }

    pub fn get_carnivores_2(&self) -> (agents: &Vec<RandomWalker>)
        ensures
            agents@ == self.carnivores_2(),
    {
        &self.carnivores_2
    }

    pub fn get_foods(&self) -> (foods: &Vec<Food>)
        ensures
            foods@ == self.foods(),
    {
        &self.foods
    }

    pub fn get_walls(&self) -> (walls: &Vec<Wall>)
        ensures
            walls@ == self.walls(),
    {
        &self.walls
    }

    /// The records of all bodies.
    pub fn get_world(&self) -> (world: &World)
        ensures
            world@ == self.world(),
    {
        &self.world
    }

    pub fn get_counter(&self) -> (counter: u64)
        ensures
            counter == self.counter(),
    {
        self.counter
    }

    pub fn is_recording(&self) -> (recording: bool)
        ensures
            recording == self.recording(),
    {
        self.recording
    }

    pub fn get_best_herbivore_score(&self) -> (score: i32)
        ensures
            score == self.best_herbivore_score(),
    {
        self.best_herbivore_score
    }

    pub fn get_best_carnivore_score(&self) -> (score: i32)
        ensures
            score == self.best_carnivore_score(),
    {
        self.best_carnivore_score
    }

    /// Sets up a run: the food, the herbivores, the two factions of
    /// carnivores, each carnivore with its alliance zone, and the walls.
    /// The second result lists every body with its handle, its collision
    /// group, its shape and its place. Food and agents stand at random
    /// places inside the margins of the arena.
    pub fn new(config: &Config, wall_config: &Vec<WallConfig>) -> (result: (Self, Vec<Placement>))
        requires
            config.valid(),
        ensures
            result.0.wf(),
            result.0.world() == config.initial_world(config.first_wall() + wall_config.len()),
            foods_fresh(result.0.foods(), *config),
            herbivores_fresh(result.0.herbivores(), *config),
            carnivores_fresh(result.0.carnivores_1(), *config, 0),
            result.0.carnivores_1().len() == count(config.carnivore_amount_1),
            carnivores_fresh(result.0.carnivores_2(), *config, count(config.carnivore_amount_1)),
            result.0.carnivores_2().len() == count(config.carnivore_amount_2),
            result.0.walls().len() == wall_config.len(),
            forall|i: int|
                0 <= i < wall_config.len() ==> #[trigger] result.0.walls()[i]
                    == wall_config[i].placed(
                    config.screen_size_x as int,
                    config.screen_size_y as int,
                ),
            result.0.arena() == (config.screen_size_x as int, config.screen_size_y as int),
            result.0.rules() == config.rules(),
            result.0.best_herbivore_score() == 0,
            result.0.best_carnivore_score() == 0,
            result.0.start_recording() == config.start_recording,
            result.0.recording_duration() == config.recording_duration,
            result.0.record_all_details() == config.record_all_details,
            !result.0.recording(),
            result.0.counter() == 0,
            result.1.len() == result.0.world().len(),
            forall|h: int|
                0 <= h < result.1.len() ==> (#[trigger] result.1[h]).handle == h
                    && placed_as_configured(*config, wall_config@, result.1@, h),
    {
        let mut world = World::new();
        let mut random = RandomHelper::new(config.screen_size_x, config.screen_size_y, config.seed);
        let mut placements: Vec<Placement> = Vec::new();
        assert(world@ == config.initial_world(0));
        let foods = place_foods(
            config,
            &mut world,
            &mut random,
            &mut placements,
            Ghost(wall_config@),
        );
        let herbivores = place_herbivores(
            config,
            &mut world,
            &mut random,
            &mut placements,
            Ghost(wall_config@),
        );
        let (carnivores_1, carnivores_2) = place_carnivores(
            config,
            &mut world,
            &mut random,
            &mut placements,
            Ghost(wall_config@),
        );
        let walls = place_walls(config, wall_config, &mut world, &mut placements);
        let state = GameState {
            foods,
            herbivores,
            carnivores_1,
            carnivores_2,
            world,
            random,
            walls,
            best_herbivore_score: 0,
            best_carnivore_score: 0,
            rules: Rules {
                food_nutrition: config.food_nutrition,
                herbivore_nutrition: config.herbivore_nutrition,
                threshold_herbivore_score: config.threshold_herbivore_score,
                sharing_percentage_1: config.sharing_percentage_1,
                sharing_percentage_2: config.sharing_percentage_2,
            },
            start_recording: config.start_recording,
            recording_duration: config.recording_duration,
            record_all_details: config.record_all_details,
            recording: false,
            counter: 0,
        };
        proof {
            lemma_fresh_agents_wf(
                *config,
                state.herbivores@,
                state.carnivores_1@,
                state.carnivores_2@,
                state.world@.len() as int,
            );
        }
        (state, placements)
    }
}

/// Whether a list of bodies to place says of body `h` what the
/// configuration says: its handle, group and shape; a place inside the
/// margins for food, agents and alliance zones, a carnivore standing where
/// its alliance zone stands; the origin for a wall, whose shape holds its
/// place.
pub open spec fn placed_as_configured(
    config: Config,
    walls: Seq<WallConfig>,
    placements: Seq<Placement>,
    h: int,
) -> bool {
    let p = placements[h];
    &&& p.handle == h
    &&& p.group == config.initial_group(h)
    &&& p.shape == config.initial_shape(h, walls)
    &&& h < config.first_wall() ==> inside_margins(
        p.x as int,
        p.y as int,
        config.screen_size_x as int,
        config.screen_size_y as int,
    )
    &&& h >= config.first_wall() ==> p.x == 0 && p.y == 0
    &&& config.first_carnivore_1() <= h < config.first_wall() && (h - config.first_carnivore_1())
        % 2 == 1 ==> p.x == placements[h - 1].x && p.y == placements[h - 1].y
}

/// Whether the food is as it is at the start of a run.
pub open spec fn foods_fresh(foods: Seq<Food>, config: Config) -> bool {
    &&& foods.len() == count(config.food_amount)
    &&& forall|i: int|
        0 <= i < foods.len() ==> (#[trigger] foods[i]).handle() == i && foods[i].size()
            == trunc_div(config.herbivore_size as int, 2)
}

/// Whether the herbivores are as they are at the start of a run.
pub open spec fn herbivores_fresh(herbivores: Seq<RandomWalker>, config: Config) -> bool {
    &&& herbivores.len() == count(config.herbivore_amount)
    &&& forall|i: int|
        0 <= i < herbivores.len() ==> (#[trigger] herbivores[i]).wf() && fresh(
            herbivores[i]@,
            config,
            config.first_herbivore() + i,
            None,
            i,
            Entity::HERBIVORE,
        )
}

/// Whether the carnivores of a faction are as they are at the start of a
/// run. `before` carnivores come before the faction.
pub open spec fn carnivores_fresh(
    carnivores: Seq<RandomWalker>,
    config: Config,
    before: int,
) -> bool {
    forall|i: int|
        0 <= i < carnivores.len() ==> (#[trigger] carnivores[i]).wf() && fresh(
            carnivores[i]@,
            config,
            config.first_carnivore_1() + 2 * (before + i) + 1,
            Some((config.first_carnivore_1() + 2 * (before + i)) as usize),
            before + i,
            Entity::CARNIVORE,
        )
}

/// Agents that are as at the start of a run are well formed, and each has a
/// body of its own.
proof fn lemma_fresh_agents_wf(
    config: Config,
    herbivores: Seq<RandomWalker>,
    carnivores_1: Seq<RandomWalker>,
    carnivores_2: Seq<RandomWalker>,
    bodies: int,
)
    requires
        herbivores_fresh(herbivores, config),
        carnivores_fresh(carnivores_1, config, 0),
        carnivores_1.len() == count(config.carnivore_amount_1),
        carnivores_fresh(carnivores_2, config, count(config.carnivore_amount_1)),
        carnivores_2.len() == count(config.carnivore_amount_2),
        bodies >= config.first_wall(),
    ensures
        population_wf(herbivores + carnivores_1 + carnivores_2, bodies as nat),
        handles_distinct(herbivores + carnivores_1 + carnivores_2),
{
    reveal(handles_distinct);
    let agents = herbivores + carnivores_1 + carnivores_2;
    let handle_of = |k: int|
        if k < herbivores.len() {
            config.first_herbivore() + k
        } else {
            config.first_carnivore_1() + 2 * (k - herbivores.len()) + 1
        };
    assert forall|k: int| 0 <= k < agents.len() implies (#[trigger] agents[k]).wf() && agents[k]@.handle
        == handle_of(k) by {
        if k < herbivores.len() {
            assert(agents[k] == herbivores[k]);
        } else if k < herbivores.len() + carnivores_1.len() {
            assert(agents[k] == carnivores_1[k - herbivores.len()]);
        } else {
            assert(agents[k] == carnivores_2[k - herbivores.len() - carnivores_1.len()]);
        }
    }
    assert forall|a: int, b: int|
        0 <= a < agents.len() && 0 <= b < agents.len() && a != b implies (#[trigger] agents[a])@.handle
        != (#[trigger] agents[b])@.handle by {
        assert(agents[a]@.handle == handle_of(a));
        assert(agents[b]@.handle == handle_of(b));
    }
}

/// Puts the food into the world.
#[verifier::rlimit(60)]
fn place_foods(
    config: &Config,
    world: &mut World,
    random: &mut RandomHelper,
    placements: &mut Vec<Placement>,
    Ghost(walls): Ghost<Seq<WallConfig>>,
) -> (foods: Vec<Food>)
    requires
        config.valid(),
        old(world)@ == config.initial_world(0),
        old(placements).len() == 0,
        old(random).screen_size_x() == config.screen_size_x,
        old(random).screen_size_y() == config.screen_size_y,
    ensures
        final(world)@ == config.initial_world(config.first_herbivore()),
        final(placements).len() == config.first_herbivore(),
        final(random).screen_size_x() == config.screen_size_x,
        final(random).screen_size_y() == config.screen_size_y,
        foods_fresh(foods@, *config),
        forall|h: int|
            0 <= h < final(placements).len() ==> (#[trigger] final(placements)[h]).handle == h
                && placed_as_configured(*config, walls, final(placements)@, h),
{
    let mut foods: Vec<Food> = Vec::new();
    let food_size = div_toward_zero(config.herbivore_size, 2);
    let food_amount = count_of(config.food_amount);
    let mut i: usize = 0;
    while i < food_amount
        invariant
            i <= food_amount,
            food_amount == count(config.food_amount),
            food_size == trunc_div(config.herbivore_size as int, 2),
            random.screen_size_x() == config.screen_size_x > 2 * MARGIN,
            random.screen_size_y() == config.screen_size_y > 2 * MARGIN,
            world@ == config.initial_world(i as int),
            placements.len() == i,
            foods.len() == i,
            forall|k: int|
                0 <= k < i ==> (#[trigger] foods[k]).handle() == k && foods[k].size() == food_size,
            forall|h: int|
                0 <= h < i ==> (#[trigger] placements[h]).handle == h && placed_as_configured(
                    *config,
                    walls,
                    placements@,
                    h,
                ),
        decreases food_amount - i,
    {
        let ghost before = placements@;
        let (x, y) = random.random_coordinate();
        let handle = world.add(CollisionObjectData::new(Entity::FOOD, FOOD_ID, None));
        foods.push(Food::new(handle, food_size));
        placements.push(
            Placement { handle, group: Group::Food, shape: Shape::Ball { radius: food_size }, x, y },
        );
        assert(world@ == config.initial_world(i + 1));
        assert forall|h: int| 0 <= h < i + 1 implies (#[trigger] placements[h]).handle == h
            && placed_as_configured(*config, walls, placements@, h) by {
            if h < i {
                assert(placements[h] == before[h]);
                assert(placed_as_configured(*config, walls, before, h));
            }
        }
        i = i + 1;
    }
    foods
}

/// Puts the herbivores into the world.
#[verifier::rlimit(60)]
fn place_herbivores(
    config: &Config,
    world: &mut World,
    random: &mut RandomHelper,
    placements: &mut Vec<Placement>,
    Ghost(walls): Ghost<Seq<WallConfig>>,
) -> (herbivores: Vec<RandomWalker>)
    requires
        config.valid(),
        old(world)@ == config.initial_world(config.first_herbivore()),
        old(placements).len() == config.first_herbivore(),
        old(random).screen_size_x() == config.screen_size_x,
        old(random).screen_size_y() == config.screen_size_y,
        forall|h: int|
            0 <= h < old(placements).len() ==> (#[trigger] old(placements)[h]).handle == h
                && placed_as_configured(*config, walls, old(placements)@, h),
    ensures
        final(world)@ == config.initial_world(config.first_carnivore_1()),
        final(placements).len() == config.first_carnivore_1(),
        final(random).screen_size_x() == config.screen_size_x,
        final(random).screen_size_y() == config.screen_size_y,
        herbivores_fresh(herbivores@, *config),
        forall|h: int|
            0 <= h < final(placements).len() ==> (#[trigger] final(placements)[h]).handle == h
                && placed_as_configured(*config, walls, final(placements)@, h),
{
    let mut herbivores: Vec<RandomWalker> = Vec::new();
    let herbivore_amount = count_of(config.herbivore_amount);
    let ghost first = config.first_herbivore();
    let mut i: usize = 0;
    while i < herbivore_amount
        invariant
            i <= herbivore_amount,
            config.valid(),
            herbivore_amount == count(config.herbivore_amount),
            first == config.first_herbivore(),
            random.screen_size_x() == config.screen_size_x > 2 * MARGIN,
            random.screen_size_y() == config.screen_size_y > 2 * MARGIN,
            world@ == config.initial_world(first + i),
            placements.len() == first + i,
            herbivores.len() == i,
            forall|k: int|
                0 <= k < i ==> (#[trigger] herbivores[k]).wf() && fresh(
                    herbivores[k]@,
                    *config,
                    first + k,
                    None,
                    k,
                    Entity::HERBIVORE,
                ),
            forall|h: int|
                0 <= h < first + i ==> (#[trigger] placements[h]).handle == h && placed_as_configured(
                    *config,
                    walls,
                    placements@,
                    h,
                ),
        decreases herbivore_amount - i,
    {
        let ghost before = placements@;
        let (x, y) = random.random_coordinate();
        let handle = world.add(CollisionObjectData::new(Entity::HERBIVORE, i as i32, None));
        herbivores.push(
            RandomWalker::new(
                handle,
                None,
                i as i32,
                config.herbivore_size,
                config.herbivore_speed,
                config.initial_herbivore_health,
                Entity::HERBIVORE,
                config.thinking_time,
                config.view_range,
                config.mutation_rate,
                config.seed.wrapping_add(i as u64).wrapping_add(3333),
            ),
        );
        placements.push(
            Placement {
                handle,
                group: Group::Herbivore,
                shape: Shape::Polygon { size: config.herbivore_size },
                x,
                y,
            },
        );
        assert(world@ == config.initial_world(first + i + 1));
        assert forall|h: int| 0 <= h < first + i + 1 implies (#[trigger] placements[h]).handle == h
            && placed_as_configured(*config, walls, placements@, h) by {
            if h < first + i {
                assert(placements[h] == before[h]);
                assert(placed_as_configured(*config, walls, before, h));
            }
        }
        i = i + 1;
    }
    herbivores
}

/// Puts the carnivores of both factions into the world, each behind its
/// alliance zone.
#[verifier::rlimit(60)]
fn place_carnivores(
    config: &Config,
    world: &mut World,
    random: &mut RandomHelper,
    placements: &mut Vec<Placement>,
    Ghost(walls): Ghost<Seq<WallConfig>>,
) -> (carnivores: (Vec<RandomWalker>, Vec<RandomWalker>))
    requires
        config.valid(),
        old(world)@ == config.initial_world(config.first_carnivore_1()),
        old(placements).len() == config.first_carnivore_1(),
        old(random).screen_size_x() == config.screen_size_x,
        old(random).screen_size_y() == config.screen_size_y,
        forall|h: int|
            0 <= h < old(placements).len() ==> (#[trigger] old(placements)[h]).handle == h
                && placed_as_configured(*config, walls, old(placements)@, h),
    ensures
        final(world)@ == config.initial_world(config.first_wall()),
        final(placements).len() == config.first_wall(),
        final(random).screen_size_x() == config.screen_size_x,
        final(random).screen_size_y() == config.screen_size_y,
        carnivores.0.len() == count(config.carnivore_amount_1),
        carnivores.1.len() == count(config.carnivore_amount_2),
        carnivores_fresh(carnivores.0@, *config, 0),
        carnivores_fresh(carnivores.1@, *config, count(config.carnivore_amount_1)),
        forall|h: int|
            0 <= h < final(placements).len() ==> (#[trigger] final(placements)[h]).handle == h
                && placed_as_configured(*config, walls, final(placements)@, h),
{
    let mut carnivores_1: Vec<RandomWalker> = Vec::new();
    let mut carnivores_2: Vec<RandomWalker> = Vec::new();
    let carnivore_amount_1 = count_of(config.carnivore_amount_1);
    let carnivore_amount_2 = count_of(config.carnivore_amount_2);
    let ghost first = config.first_carnivore_1();
    let mut i: usize = 0;
    while i < carnivore_amount_1 + carnivore_amount_2
        invariant
            i <= carnivore_amount_1 + carnivore_amount_2 <= i32::MAX,
            config.valid(),
            carnivore_amount_1 == count(config.carnivore_amount_1),
            carnivore_amount_2 == count(config.carnivore_amount_2),
            first == config.first_carnivore_1(),
            random.screen_size_x() == config.screen_size_x > 2 * MARGIN,
            random.screen_size_y() == config.screen_size_y > 2 * MARGIN,
            world@ == config.initial_world(first + 2 * i),
            placements.len() == first + 2 * i,
            carnivores_1.len() == (if i < carnivore_amount_1 {
                i
            } else {
                carnivore_amount_1
            }),
            carnivores_2.len() == (if i < carnivore_amount_1 {
                0
            } else {
                i - carnivore_amount_1
            }),
            carnivores_fresh(carnivores_1@, *config, 0),
            carnivores_fresh(carnivores_2@, *config, carnivore_amount_1 as int),
            forall|h: int|
                0 <= h < first + 2 * i ==> (#[trigger] placements[h]).handle == h
                    && placed_as_configured(*config, walls, placements@, h),
        decreases carnivore_amount_1 + carnivore_amount_2 - i,
    {
        let ghost before = placements@;
        let ghost before_1 = carnivores_1@;
        let ghost before_2 = carnivores_2@;
        let (x, y) = random.random_coordinate();
        let zone = world.add(CollisionObjectData::new(Entity::OTHER, i as i32, None));
        let handle = world.add(CollisionObjectData::new(Entity::CARNIVORE, i as i32, Some(zone)));
        let walker = RandomWalker::new(
            handle,
            Some(zone),
            i as i32,
            config.carnivore_size,
            config.carnivore_speed,
            config.initial_carnivore_health,
            Entity::CARNIVORE,
            config.thinking_time,
            config.view_range,
            config.mutation_rate,
            config.seed.wrapping_add(i as u64).wrapping_add(5555),
        );
        if i < carnivore_amount_1 {
            carnivores_1.push(walker);
        } else {
            carnivores_2.push(walker);
        }
        placements.push(
            Placement {
                handle: zone,
                group: Group::CarnivoreZone,
                shape: Shape::Ball { radius: config.share_range },
                x,
                y,
            },
        );
        placements.push(
            Placement {
                handle,
                group: Group::Carnivore,
                shape: Shape::Polygon { size: config.carnivore_size },
                x,
                y,
            },
        );
        proof {
            assert(world@ == config.initial_world(first + 2 * i + 2));
            assert forall|h: int| 0 <= h < first + 2 * i + 2 implies (#[trigger] placements[h]).handle
                == h && placed_as_configured(*config, walls, placements@, h) by {
                if h < first + 2 * i {
                    assert(placements[h] == before[h]);
                    assert(placed_as_configured(*config, walls, before, h));
                    if h > 0 {
                        assert(placements[h - 1] == before[h - 1]);
                    }
                }
            }
            assert forall|k: int| 0 <= k < carnivores_1.len() implies (#[trigger] carnivores_1[k]).wf()
                && fresh(
                carnivores_1[k]@,
                *config,
                first + 2 * k + 1,
                Some((first + 2 * k) as usize),
                k,
                Entity::CARNIVORE,
            ) by {
                if k < before_1.len() {
                    assert(carnivores_1[k] == before_1[k]);
                }
            }
            assert forall|k: int| 0 <= k < carnivores_2.len() implies (#[trigger] carnivores_2[k]).wf()
                && fresh(
                carnivores_2[k]@,
                *config,
                first + 2 * (carnivore_amount_1 + k) + 1,
                Some((first + 2 * (carnivore_amount_1 + k)) as usize),
                carnivore_amount_1 + k,
                Entity::CARNIVORE,
            ) by {
                if k < before_2.len() {
                    assert(carnivores_2[k] == before_2[k]);
                }
            }
        }
        i = i + 1;
    }
    (carnivores_1, carnivores_2)
}

/// Puts the walls into the world.
#[verifier::rlimit(60)]
fn place_walls(
    config: &Config,
    wall_config: &Vec<WallConfig>,
    world: &mut World,
    placements: &mut Vec<Placement>,
) -> (walls: Vec<Wall>)
    requires
        config.valid(),
        old(world)@ == config.initial_world(config.first_wall()),
        old(placements).len() == config.first_wall(),
        forall|h: int|
            0 <= h < old(placements).len() ==> (#[trigger] old(placements)[h]).handle == h
                && placed_as_configured(*config, wall_config@, old(placements)@, h),
    ensures
        final(world)@ == config.initial_world(config.first_wall() + wall_config.len()),
        final(placements).len() == config.first_wall() + wall_config.len(),
        walls.len() == wall_config.len(),
        forall|i: int|
            0 <= i < wall_config.len() ==> #[trigger] walls[i] == wall_config[i].placed(
                config.screen_size_x as int,
                config.screen_size_y as int,
            ),
        forall|h: int|
            0 <= h < final(placements).len() ==> (#[trigger] final(placements)[h]).handle == h
                && placed_as_configured(*config, wall_config@, final(placements)@, h),
{
    let mut walls: Vec<Wall> = Vec::new();
    let ghost first = config.first_wall();
    let mut i: usize = 0;
    while i < wall_config.len()
        invariant
            i <= wall_config.len(),
            first == config.first_wall(),
            world@ == config.initial_world(first + i),
            placements.len() == first + i,
            walls.len() == i,
            forall|k: int|
                0 <= k < i ==> #[trigger] walls[k] == wall_config[k].placed(
                    config.screen_size_x as int,
                    config.screen_size_y as int,
                ),
            forall|h: int|
                0 <= h < first + i ==> (#[trigger] placements[h]).handle == h && placed_as_configured(
                    *config,
                    wall_config@,
                    placements@,
                    h,
                ),
        decreases wall_config.len() - i,
    {
        let ghost before = placements@;
        let wall = wall_config[i].place(config.screen_size_x, config.screen_size_y);
        let handle = world.add(CollisionObjectData::new(Entity::WALL, WALL_ID, None));
        walls.push(wall);
        placements.push(
            Placement {
                handle,
                group: Group::Wall,
                shape: Shape::Segment { first: wall.first, second: wall.second },
                x: 0,
                y: 0,
            },
        );
        assert(world@ == config.initial_world(first + i + 1));
        assert forall|h: int| 0 <= h < first + i + 1 implies (#[trigger] placements[h]).handle == h
            && placed_as_configured(*config, wall_config@, placements@, h) by {
            if h < first + i {
                assert(placements[h] == before[h]);
                assert(placed_as_configured(*config, wall_config@, before, h));
                if h > 0 {
                    assert(placements[h - 1] == before[h - 1]);
                }
            }
        }
        i = i + 1;
    }
    walls
}

/// An agent of one population has a body that no agent of a population
/// apart from it has.
proof fn lemma_not_among(others: Seq<RandomWalker>, population: Seq<RandomWalker>, i: int)
    requires
        handles_apart(others, population),
        0 <= i < population.len(),
    ensures
        forall|k: int| 0 <= k < others.len() ==> (#[trigger] others[k])@.handle != population[i]@.handle,
{
    reveal(handles_apart);
    assert forall|k: int| 0 <= k < others.len() implies (#[trigger] others[k])@.handle
        != population[i]@.handle by {
        assert(others[k]@.handle != population[i]@.handle);
    }
}

/// A population whose agents kept their bodies has the bodies it had.
proof fn lemma_same_handles(before: Seq<RandomWalker>, after: Seq<RandomWalker>)
    requires
        after.len() == before.len(),
        forall|i: int| 0 <= i < before.len() ==> (#[trigger] after[i])@.handle == before[i]@.handle,
        handles_distinct(before),
    ensures
        handles_distinct(after),
{
    reveal(handles_distinct);
    assert forall|i: int, j: int| 0 <= i < after.len() && 0 <= j < after.len() && i != j implies (
    #[trigger] after[i])@.handle != (#[trigger] after[j])@.handle by {
        assert(before[i]@.handle != before[j]@.handle);
    }
}

/// A population whose agents kept their bodies is apart from what it was
/// apart from.
proof fn lemma_apart_kept(
    before: Seq<RandomWalker>,
    after: Seq<RandomWalker>,
    others: Seq<RandomWalker>,
)
    requires
        after.len() == before.len(),
        forall|i: int| 0 <= i < before.len() ==> (#[trigger] after[i])@.handle == before[i]@.handle,
        handles_apart(before, others),
    ensures
        handles_apart(after, others),
{
    reveal(handles_apart);
    assert forall|i: int, j: int| 0 <= i < after.len() && 0 <= j < others.len() implies (
    #[trigger] after[i])@.handle != (#[trigger] others[j])@.handle by {
        assert(before[i]@.handle != others[j]@.handle);
    }
}

/// Being apart does not depend on which population is named first.
proof fn lemma_apart_swap(a: Seq<RandomWalker>, b: Seq<RandomWalker>)
    requires
        handles_apart(a, b),
    ensures
        handles_apart(b, a),
{
    reveal(handles_apart);
    assert forall|i: int, j: int| 0 <= i < b.len() && 0 <= j < a.len() implies (#[trigger] b[i])@.handle
        != (#[trigger] a[j])@.handle by {
        assert(a[j]@.handle != b[i]@.handle);
    }
}

/// Lets one population live through a tick, beside two others whose bodies
/// it shares none of. The others and their bodies stay as they are.
fn tick_faction(
    population: &mut Vec<RandomWalker>,
    world: &mut World,
    random: &mut RandomHelper,
    sensed: &Sensed,
    Ghost(first): Ghost<Seq<RandomWalker>>,
    Ghost(second): Ghost<Seq<RandomWalker>>,
) -> (result: (Vec<Step>, Tally))
    requires
        population_wf(old(population)@, old(world)@.len()),
        population_wf(first, old(world)@.len()),
        population_wf(second, old(world)@.len()),
        handles_distinct(old(population)@),
        handles_apart(old(population)@, first),
        handles_apart(old(population)@, second),
        sensed.positions.len() == old(population).len(),
        sensed.detected.len() == old(population).len(),
        old(random).screen_size_x() > 2 * MARGIN,
        old(random).screen_size_y() > 2 * MARGIN,
        sensors_ready(old(population)@, old(world)@, sensed.detected@),
    ensures
        final(world)@.len() == old(world)@.len(),
        population_wf(final(population)@, final(world)@.len()),
        handles_distinct(final(population)@),
        handles_apart(final(population)@, first),
        handles_apart(final(population)@, second),
        final(random).screen_size_x() == old(random).screen_size_x(),
        final(random).screen_size_y() == old(random).screen_size_y(),
        ticked(
            old(population)@,
            final(population)@,
            old(world)@,
            final(world)@,
            sensed.positions@,
            sensed.detected@,
            old(random).screen_size_x(),
            old(random).screen_size_y(),
            result.0@,
        ),
        tallied(old(population)@, final(population)@, result.1),
        forall|i: int|
            0 <= i < first.len() ==> final(world)@[(#[trigger] first[i])@.handle] == old(
                world,
            )@[first[i]@.handle],
        forall|i: int|
            0 <= i < second.len() ==> final(world)@[(#[trigger] second[i])@.handle] == old(
                world,
            )@[second[i]@.handle],
        forall|h: int|
            0 <= h < old(world)@.len() && (forall|i: int|
                0 <= i < old(population).len() ==> (#[trigger] old(population)[i])@.handle != h)
                ==> #[trigger] final(world)@[h] == old(world)@[h],
{
    let result = update_population(population, world, random, &sensed.positions, &sensed.detected);
    proof {
        lemma_same_handles(old(population)@, population@);
        lemma_apart_kept(old(population)@, population@, first);
        lemma_apart_kept(old(population)@, population@, second);
        assert forall|i: int| 0 <= i < first.len() implies world@[(#[trigger] first[i])@.handle] == old(
            world,
        )@[first[i]@.handle] by {
            lemma_not_among(old(population)@, first, i);
        }
        assert forall|i: int| 0 <= i < second.len() implies world@[(#[trigger] second[i])@.handle]
            == old(world)@[second[i]@.handle] by {
            lemma_not_among(old(population)@, second, i);
        }
    }
    result
}

} // verus!
