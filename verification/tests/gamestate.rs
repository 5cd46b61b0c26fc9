use simulation::brain::BrainNetwork;
use simulation::config::{Config, WallConfig};
use simulation::entity::Entity;
use simulation::fixed::UNIT;
use simulation::gamestate::{tick_due, GameState, Sensed};
use simulation::groups::Group;
use simulation::interaction::{Proximity, ProximityEvent};
use simulation::placement::{Placement, Shape};
use simulation::population::{Motion, Step};
use simulation::random_helper::MARGIN;
use simulation::randomwalker::RandomWalker;

const SECOND: u128 = 1_000_000_000;
const MINUTE: u128 = 60 * SECOND;

fn config() -> Config {
    Config {
        food_amount: 3,
        herbivore_amount: 10,
        carnivore_amount_1: 2,
        carnivore_amount_2: 1,
        updates_per_second: 60 * UNIT,
        screen_size_x: 800 * UNIT,
        screen_size_y: 600 * UNIT,
        seed: 42,
        herbivore_speed: 2 * UNIT,
        carnivore_speed: 3 * UNIT,
        initial_herbivore_health: 500,
        initial_carnivore_health: 700,
        food_nutrition: 100,
        herbivore_nutrition: 200,
        threshold_herbivore_score: 50,
        sharing_percentage_1: 30,
        sharing_percentage_2: 60,
        share_range: 80 * UNIT,
        mutation_rate: UNIT,
        herbivore_size: 30 * UNIT,
        carnivore_size: 40 * UNIT,
        thinking_time: 2,
        view_range: 100 * UNIT,
        start_recording: 1,
        recording_duration: 2,
        record_all_details: true,
    }
}

fn walls() -> Vec<WallConfig> {
    vec![
        WallConfig { x1: 0, y1: 0, x2: UNIT, y2: 0 },
        WallConfig { x1: UNIT / 2, y1: UNIT / 4, x2: UNIT / 2, y2: 750_000 },
    ]
}

fn start(config: &Config) -> (GameState, Vec<Placement>) {
    assert!(config.validate().is_ok());
    GameState::new(config, &walls())
}

fn sensed(state: &GameState, agents: &Vec<RandomWalker>) -> Sensed {
    Sensed {
        positions: (0..agents.len()).map(|i| ((100 + 10 * i as i64) * UNIT, 300 * UNIT)).collect(),
        detected: agents
            .iter()
            .map(|a| {
                if !a.is_dead(state.get_world()) && a.is_thinking() {
                    vec![None; 8]
                } else {
                    Vec::new()
                }
            })
            .collect(),
    }
}

fn tick(state: &mut GameState, elapsed: u128) -> simulation::gamestate::TickReport {
    let h = sensed(state, state.get_herbivores());
    let c1 = sensed(state, state.get_carnivores_1());
    let c2 = sensed(state, state.get_carnivores_2());
    state.update(elapsed, &h, &c1, &c2)
}

fn contact(a: usize, b: usize) -> ProximityEvent {
    ProximityEvent {
        collider1: a,
        collider2: b,
        new_status: Proximity::Intersecting,
        position1: (10 * UNIT, 20 * UNIT),
        position2: (30 * UNIT, 40 * UNIT),
        overlapping1: Vec::new(),
        overlapping2: Vec::new(),
    }
}

fn weights(networks: &BrainNetwork) -> Vec<i64> {
    let mut all = Vec::new();
    for network in [&networks.wall_network, &networks.food_network, &networks.carnivore_network] {
        all.extend_from_slice(network.layer1());
        all.extend_from_slice(network.layer2());
    }
    all
}

fn by_id(agents: &Vec<RandomWalker>, id: i32) -> &RandomWalker {
    agents.iter().find(|a| a.get_id() == id).expect("the agent is there")
}

fn ids(agents: &Vec<RandomWalker>) -> Vec<i32> {
    agents.iter().map(|a| a.get_id()).collect()
}

#[test]
fn a_run_starts_with_all_its_bodies() {
    let (state, placements) = start(&config());
    let world = state.get_world();
    assert_eq!(world.len(), 3 + 10 + 2 * 3 + 2);
    assert_eq!(placements.len(), world.len());
    for h in 0..world.len() {
        let body = world.data(h);
        let (kind, id, zone) = match h {
            0..=2 => (Entity::FOOD, -2, None),
            3..=12 => (Entity::HERBIVORE, h as i32 - 3, None),
            13 | 15 | 17 => (Entity::OTHER, (h as i32 - 13) / 2, None),
            14 | 16 | 18 => (Entity::CARNIVORE, (h as i32 - 13) / 2, Some(h - 1)),
            _ => (Entity::WALL, -1, None),
        };
        assert_eq!((body.entity_type, body.id, body.env_handle), (kind, id, zone));
        assert_eq!((body.energy, body.fitness, body.eaten, body.score), (400, 0, false, 0));
        assert_eq!(placements[h].handle, h);
    }
    assert_eq!(state.get_counter(), 0);
    assert!(!state.is_recording());
    assert_eq!(state.get_best_herbivore_score(), 0);
    assert_eq!(state.get_best_carnivore_score(), 0);
}

#[test]
fn the_agents_start_as_configured() {
    let (state, _) = start(&config());
    assert_eq!(state.get_herbivores().len(), 10);
    assert_eq!(state.get_carnivores_1().len(), 2);
    assert_eq!(state.get_carnivores_2().len(), 1);
    for (i, agent) in state.get_herbivores().iter().enumerate() {
        assert_eq!(agent.get_id(), i as i32);
        assert_eq!(agent.get_handle(), 3 + i);
        assert_eq!(agent.get_env_handle(), None);
        assert_eq!(agent.get_entity(), Entity::HERBIVORE);
        assert_eq!(agent.get_size(), 30 * UNIT);
        assert_eq!(agent.get_health(), 500);
        assert_eq!(agent.get_score(), 0);
        assert_eq!(agent.get_facing(), 1);
        assert_eq!(agent.max_sensor_distance(), 100 * UNIT);
        assert!(agent.is_thinking());
    }
    let carnivores: Vec<&RandomWalker> =
        state.get_carnivores_1().iter().chain(state.get_carnivores_2().iter()).collect();
    for (i, agent) in carnivores.iter().enumerate() {
        assert_eq!(agent.get_id(), i as i32);
        assert_eq!(agent.get_handle(), 14 + 2 * i);
        assert_eq!(agent.get_env_handle(), Some(13 + 2 * i));
        assert_eq!(agent.get_entity(), Entity::CARNIVORE);
        assert_eq!(agent.get_size(), 40 * UNIT);
        assert_eq!(agent.get_health(), 700);
    }
    for (i, food) in state.get_foods().iter().enumerate() {
        assert_eq!(food.get_handle(), i);
        assert_eq!(food.get_size(), 15 * UNIT);
    }
    // Agents with different seeds have different networks.
    let a = weights(&state.get_herbivores()[0].get_brain());
    let b = weights(&state.get_herbivores()[1].get_brain());
    assert_ne!(a, b);
}

#[test]
fn the_bodies_are_placed_as_configured() {
    let (state, placements) = start(&config());
    for (h, p) in placements.iter().enumerate() {
        let (group, shape) = match h {
            0..=2 => (Group::Food, Shape::Ball { radius: 15 * UNIT }),
            3..=12 => (Group::Herbivore, Shape::Polygon { size: 30 * UNIT }),
            13 | 15 | 17 => (Group::CarnivoreZone, Shape::Ball { radius: 80 * UNIT }),
            14 | 16 | 18 => (Group::Carnivore, Shape::Polygon { size: 40 * UNIT }),
            19 => (Group::Wall, Shape::Segment { first: (0, 0), second: (800 * UNIT, 0) }),
            _ => (
                Group::Wall,
                Shape::Segment { first: (400 * UNIT, 150 * UNIT), second: (400 * UNIT, 450 * UNIT) },
            ),
        };
        assert_eq!(p.group, group);
        assert_eq!(format!("{:?}", p.shape), format!("{:?}", shape));
        if h < 19 {
            assert!(MARGIN <= p.x && p.x < 760 * UNIT);
            assert!(MARGIN <= p.y && p.y < 560 * UNIT);
        } else {
            assert_eq!((p.x, p.y), (0, 0));
        }
    }
    for zone in [13, 15, 17] {
        assert_eq!((placements[zone].x, placements[zone].y), (placements[zone + 1].x, placements[zone + 1].y));
    }
    assert_ne!((placements[3].x, placements[3].y), (placements[4].x, placements[4].y));
    assert_eq!(state.get_walls().len(), 2);
    assert_eq!(state.get_walls()[0].second, (800 * UNIT, 0));
    assert_eq!(state.get_walls()[1].first, (400 * UNIT, 150 * UNIT));
}

#[test]
fn the_same_seed_gives_the_same_run() {
    let (a, placed_a) = start(&config());
    let (b, placed_b) = start(&config());
    let (c, placed_c) = start(&Config { seed: 43, ..config() });
    let places = |p: &Vec<Placement>| p.iter().map(|p| (p.x, p.y)).collect::<Vec<_>>();
    assert_eq!(places(&placed_a), places(&placed_b));
    assert_ne!(places(&placed_a), places(&placed_c));
    for i in 0..10 {
        assert_eq!(
            weights(&a.get_herbivores()[i].get_brain()),
            weights(&b.get_herbivores()[i].get_brain())
        );
    }
    assert_ne!(
        weights(&a.get_herbivores()[0].get_brain()),
        weights(&c.get_herbivores()[0].get_brain())
    );
}

#[test]
fn empty_and_negative_populations_are_allowed() {
    let bare = Config {
        food_amount: -1,
        herbivore_amount: 0,
        carnivore_amount_1: -5,
        carnivore_amount_2: 2,
        ..config()
    };
    let (mut state, placements) = GameState::new(&bare, &Vec::new());
    assert_eq!(placements.len(), 4);
    assert_eq!(state.get_world().len(), 4);
    assert!(state.get_herbivores().is_empty());
    assert!(state.get_carnivores_1().is_empty());
    assert_eq!(ids(state.get_carnivores_2()), vec![0, 1]);
    let report = tick(&mut state, 0);
    assert!(report.herbivores.is_empty());
    assert_eq!(report.carnivores_2.len(), 2);
    // Averages over nothing are zero.
    assert_eq!(report.averages.prey_avg_health, 0);
    assert_eq!(report.averages.prey_avg_score, 0);
    assert_eq!(report.averages.top_prey_avg_health, 0);
    assert_eq!(report.averages.top_hunter2_avg_score, 0);
    assert_eq!(report.averages.hunter2_avg_health, 700 * UNIT);
    assert_eq!(state.get_best_herbivore_score(), 0);
    assert_eq!(state.get_best_carnivore_score(), 1);
}

#[test]
fn a_tick_moves_every_living_agent() {
    let (mut state, _) = start(&config());
    let report = tick(&mut state, 0);
    assert_eq!(state.get_counter(), 1);
    assert_eq!(report.averages.timestep, 1);
    assert_eq!(report.herbivores.len(), 10);
    assert_eq!(report.carnivores_1.len(), 2);
    assert_eq!(report.carnivores_2.len(), 1);
    for (i, step) in report.herbivores.iter().enumerate() {
        assert_eq!((step.handle, step.env_handle, step.id), (3 + i, None, i as i32));
        assert_eq!((step.health, step.score), (400, 1));
        let agent = by_id(state.get_herbivores(), i as i32);
        let expected = simulation::randomwalker::step_of(agent.get_facing(), 2 * UNIT);
        assert_eq!(step.motion, Motion::Move { dx: expected.0, dy: expected.1 });
        assert_eq!(state.get_world().data(3 + i).energy, 399);
        assert_eq!(state.get_world().data(3 + i).score, 1);
    }
    let hunters: Vec<&Step> = report.carnivores_1.iter().chain(report.carnivores_2.iter()).collect();
    for (i, step) in hunters.iter().enumerate() {
        assert_eq!((step.handle, step.env_handle, step.id), (14 + 2 * i, Some(13 + 2 * i), i as i32));
        assert_eq!(state.get_world().data(14 + 2 * i).energy, 399);
        assert_eq!(state.get_world().data(13 + 2 * i).energy, 400);
    }
    // Food, zones and walls are untouched.
    for h in [0, 1, 2, 13, 15, 17, 19, 20] {
        let body = state.get_world().data(h);
        assert_eq!((body.energy, body.fitness, body.eaten, body.score), (400, 0, false, 0));
    }
    // The averages are taken before the tick, those of the top tenth after it.
    assert_eq!(report.averages.prey_avg_health, 500 * UNIT);
    assert_eq!(report.averages.prey_avg_score, 0);
    assert_eq!(report.averages.hunter1_avg_health, 700 * UNIT);
    assert_eq!(report.averages.hunter2_avg_health, 700 * UNIT);
    assert_eq!(report.averages.top_prey_avg_health, 400 * UNIT);
    assert_eq!(report.averages.top_prey_avg_score, UNIT);
    // Factions of fewer than ten have no top tenth.
    assert_eq!(report.averages.top_hunter1_avg_health, 0);
    assert_eq!(report.averages.top_hunter2_avg_score, 0);
    assert_eq!(state.get_best_herbivore_score(), 1);
    assert_eq!(state.get_best_carnivore_score(), 1);
    let second = tick(&mut state, 0);
    assert_eq!(state.get_counter(), 2);
    assert_eq!(second.averages.prey_avg_health, 400 * UNIT);
    assert_eq!(second.averages.prey_avg_score, UNIT);
    // Between two readings of the sensors the steps stay.
    for (a, b) in report.herbivores.iter().zip(second.herbivores.iter()) {
        assert_eq!(a.motion, b.motion);
    }
}

#[test]
fn the_recording_window_is_kept() {
    let (mut state, _) = start(&config());
    let times = [
        (0, false),
        (MINUTE - 1, false),
        (MINUTE, true),
        (2 * MINUTE, true),
        (3 * MINUTE, true),
        (3 * MINUTE + 1, false),
        (u128::MAX, false),
    ];
    for (elapsed, recording) in times {
        state.advance_clock(elapsed);
        assert_eq!(state.is_recording(), recording);
    }
    assert_eq!(state.get_counter(), 7);
    let whole_run = Config { start_recording: 0, recording_duration: u64::MAX, ..config() };
    let (mut always, _) = start(&whole_run);
    always.advance_clock(0);
    assert!(always.is_recording());
    always.advance_clock(1 << 99);
    assert!(always.is_recording());
}

#[test]
fn start_and_stop_of_the_recording_are_announced() {
    let (mut state, _) = start(&config());
    let cases = [
        (0, false, false),
        (MINUTE - SECOND - 1, false, false),
        (MINUTE - SECOND, true, false),
        (MINUTE + SECOND, true, false),
        (MINUTE + SECOND + 1, false, false),
        (3 * MINUTE - SECOND, false, true),
        (3 * MINUTE, false, true),
        (3 * MINUTE + SECOND + 1, false, false),
    ];
    for (elapsed, started, stopped) in cases {
        let notices = state.advance_clock(elapsed);
        assert_eq!((notices.recording_started, notices.recording_stopped), (started, stopped));
        assert!(!notices.timestep);
    }
    let at_once = Config { start_recording: 0, recording_duration: 0, ..config() };
    let (mut state, _) = start(&at_once);
    let first = state.advance_clock(0);
    assert!(first.recording_started);
    assert!(!first.recording_stopped);
    assert!(state.is_recording());
    let second = state.advance_clock(0);
    assert!(!second.recording_started);
    assert!(state.is_recording());
    assert!(!state.advance_clock(1).recording_started);
    assert!(!state.is_recording());
}

#[test]
fn a_tick_is_due_when_the_time_between_ticks_has_passed() {
    assert!(tick_due(16_000_000, 16));
    assert!(tick_due(16_000_001, 16));
    assert!(!tick_due(15_999_999, 16));
    assert!(!tick_due(0, 1));
    assert!(tick_due(0, 0));
    assert!(!tick_due(u64::MAX as u128, u64::MAX));
    assert!(tick_due(u64::MAX as u128 * 1_000_000, u64::MAX));
    assert!(tick_due(u128::MAX, u64::MAX));
}

#[test]
fn every_thousandth_tick_is_announced() {
    let (mut state, _) = start(&config());
    for tick in 1..=2000u64 {
        let notices = state.advance_clock(0);
        assert_eq!(state.get_counter(), tick);
        assert_eq!(notices.timestep, tick == 1000 || tick == 2000);
    }
}

#[test]
fn contacts_are_resolved_by_the_rules_of_the_run() {
    let (mut state, _) = start(&config());
    tick(&mut state, 0);
    let mut hunt = contact(14, 4);
    hunt.overlapping1 = vec![14, 16];
    let events = vec![contact(0, 3), contact(19, 5), hunt];
    let records = state.handle_proximity_event(&events);
    assert!(records.is_empty());
    let world = state.get_world();
    assert!(world.data(0).eaten);
    assert_eq!((world.data(3).energy, world.data(3).fitness), (499, 100));
    assert!(world.data(5).eaten);
    assert!(!world.data(19).eaten);
    assert!(world.data(4).eaten);
    // A herbivore with a score of 1 is worth 200 / 50 = 4: 70% of 4 is 2, 30% of 4 is 1.
    assert_eq!((world.data(14).energy, world.data(14).fitness), (401, 2));
    assert_eq!((world.data(16).energy, world.data(16).fitness), (400, 1));
    assert_eq!(state.get_counter(), 1);
    // The carnivore of the second faction shares 60%, and has no ally here.
    let result = state.handle_carnivore_herbivore_event(18, 6, &vec![17, 18]);
    assert_eq!(result, (true, 0));
    assert_eq!(state.get_world().data(18).energy, 403);
    assert!(state.get_world().data(6).eaten);
    assert_eq!(state.handle_carnivore_herbivore_event(18, 0, &Vec::new()), (false, 0));
}

#[test]
fn contacts_are_recorded_while_the_recording_runs() {
    let (mut state, _) = start(&config());
    tick(&mut state, MINUTE);
    assert!(state.is_recording());
    let mut shared = contact(5, 16);
    shared.overlapping2 = vec![16, 14];
    let records = state.handle_proximity_event(&vec![
        contact(0, 3),
        contact(14, 4),
        contact(13, 16),
        shared,
    ]);
    let rows: Vec<(u64, i32, i32, &str, &str, u64, u64)> = records
        .iter()
        .map(|r| (r.timestep, r.first_id, r.second_id, r.first.as_str(), r.second.as_str(), r.pos_x, r.pos_y))
        .collect();
    assert_eq!(
        rows,
        vec![
            (1, -2, 0, "FOOD", "HERBIVORE", 10, 20),
            // A carnivore that hunts alone: its bounty is not shared, and no row tells of allies.
            (1, 0, 1, "CARNIVORE", "HERBIVORE", 10, 20),
            // A carnivore with one ally; the row of the sharing stands at the place of the prey.
            (1, 2, 1, "HERBIVORE", "CARNIVORE", 10, 20),
            (1, -3, 1, "OTHER", "OTHER", 10, 20),
        ]
    );
    assert_eq!((records[1].first_score, records[1].second_score), (1, 1));
}

#[test]
fn eaten_food_is_renewed() {
    let (mut state, _) = start(&config());
    assert!(state.update_foods().is_empty());
    state.handle_proximity_event(&vec![contact(2, 3), contact(4, 0), contact(19, 5)]);
    let moves = state.update_foods();
    assert_eq!(moves.iter().map(|m| m.0).collect::<Vec<_>>(), vec![0, 2]);
    for (_, x, y) in &moves {
        assert!(MARGIN <= *x && *x < 760 * UNIT);
        assert!(MARGIN <= *y && *y < 560 * UNIT);
    }
    for h in 0..3 {
        assert!(!state.get_world().data(h).eaten);
    }
    // Only food is renewed.
    assert!(state.get_world().data(5).eaten);
    assert_eq!(state.get_world().data(3).energy, 500);
    assert!(state.update_foods().is_empty());
}

#[test]
fn the_fed_rise_and_the_dead_fall_in_rank() {
    let (mut state, _) = start(&config());
    tick(&mut state, 0);
    assert_eq!(ids(state.get_herbivores()), (0..10).collect::<Vec<_>>());
    state.handle_proximity_event(&vec![contact(1, 9), contact(0, 7), contact(2, 7), contact(19, 5)]);
    let report = tick(&mut state, 0);
    // Herbivore 4 was fed twice, herbivore 6 once, herbivore 2 ran into the wall.
    assert_eq!(ids(state.get_herbivores()), vec![4, 6, 0, 1, 3, 5, 7, 8, 9, 2]);
    let scores: Vec<i32> = state.get_herbivores().iter().map(|a| a.get_score()).collect();
    assert_eq!(scores, vec![202, 102, 2, 2, 2, 2, 2, 2, 2, 0]);
    assert_eq!(state.get_best_herbivore_score(), 202);
    // The steps are in the order in which the agents stood before the tick.
    assert_eq!(report.herbivores.iter().map(|s| s.id).collect::<Vec<_>>(), (0..10).collect::<Vec<_>>());
    assert_eq!(report.herbivores[4].health, 599);
    assert_eq!(report.herbivores[2].health, 500);
    assert!(matches!(report.herbivores[2].motion, Motion::Respawn { .. }));
    assert!(matches!(report.herbivores[4].motion, Motion::Move { .. }));
    // The top tenth was herbivore 0 when the tick began.
    assert_eq!(report.averages.top_prey_avg_score, 2 * UNIT);
    assert_eq!(report.averages.prey_avg_score, UNIT);
    let next = tick(&mut state, 0);
    assert_eq!(next.averages.top_prey_avg_score, 203 * UNIT);
    assert_eq!(next.averages.top_prey_avg_health, 598 * UNIT);
    assert_eq!(next.herbivores[0].id, 4);
}

#[test]
fn the_best_carnivore_is_of_either_faction() {
    let (mut state, _) = start(&config());
    tick(&mut state, 0);
    state.handle_proximity_event(&vec![contact(0, 18)]);
    tick(&mut state, 0);
    assert_eq!(state.get_best_carnivore_score(), 102);
    assert_eq!(state.get_carnivores_1()[0].get_score(), 2);
    state.handle_proximity_event(&vec![contact(0, 16), contact(1, 16)]);
    tick(&mut state, 0);
    assert_eq!(state.get_best_carnivore_score(), 203);
    assert_eq!(ids(state.get_carnivores_1()), vec![1, 0]);
    state.rank();
    assert_eq!(ids(state.get_carnivores_1()), vec![1, 0]);
}

#[test]
fn a_dead_agent_is_reborn_from_the_single_best() {
    let (mut state, _) = start(&config());
    tick(&mut state, 0);
    // Herbivore 0 is fed and stays at the head; herbivore 5 runs into a wall.
    state.handle_proximity_event(&vec![contact(0, 3), contact(19, 8)]);
    let best = weights(&by_id(state.get_herbivores(), 0).get_brain());
    let old = weights(&by_id(state.get_herbivores(), 5).get_brain());
    assert_ne!(best, old);
    let report = tick(&mut state, 0);
    assert_eq!(state.get_herbivores()[0].get_id(), 0);
    assert_eq!(state.get_herbivores()[0].get_score(), 102);
    let reborn = by_id(state.get_herbivores(), 5);
    assert_eq!(weights(&reborn.get_brain()), best);
    assert_eq!(weights(&by_id(state.get_herbivores(), 0).get_brain()), best);
    assert_eq!(reborn.get_score(), 0);
    assert_eq!(reborn.get_health(), 500);
    assert_eq!(state.get_world().data(8).energy, 500);
    assert!(!state.get_world().data(8).eaten);
    assert_eq!(state.get_herbivores()[9].get_id(), 5);
    match report.herbivores[5].motion {
        Motion::Respawn { x, y } => {
            // Herbivore 0 stood at (100, 300).
            assert!((200 + 40) * UNIT / 3 <= x && x <= (200 + 760) * UNIT / 3);
            assert!((600 + 40) * UNIT / 3 <= y && y <= (600 + 560) * UNIT / 3);
        }
        Motion::Move { .. } => panic!("a dead agent does not move"),
    }
    // The others keep their networks.
    let (fresh, _) = start(&config());
    for id in [1, 2, 3, 4, 6, 7, 8, 9] {
        assert_eq!(
            weights(&by_id(state.get_herbivores(), id).get_brain()),
            weights(&by_id(fresh.get_herbivores(), id).get_brain())
        );
    }
}

#[test]
fn the_best_keeps_its_networks_when_it_dies() {
    let eager = Config { mutation_rate: -1, ..config() };
    let (mut state, _) = start(&eager);
    tick(&mut state, 0);
    state.handle_proximity_event(&vec![contact(19, 3), contact(19, 4)]);
    let best = weights(&by_id(state.get_herbivores(), 0).get_brain());
    let report = tick(&mut state, 0);
    assert_eq!(weights(&by_id(state.get_herbivores(), 0).get_brain()), best);
    // Both start anew near the place of the best, which stood at (100, 300).
    for step in &report.herbivores[..2] {
        match step.motion {
            Motion::Respawn { x, y } => {
                assert!((200 + 40) * UNIT / 3 <= x && x <= (200 + 760) * UNIT / 3);
                assert!((600 + 40) * UNIT / 3 <= y && y <= (600 + 560) * UNIT / 3);
            }
            Motion::Move { .. } => panic!("a dead agent does not move"),
        }
    }
    // Herbivore 1 is reborn from herbivore 0, with at most one weight replaced.
    let reborn = weights(&by_id(state.get_herbivores(), 1).get_brain());
    assert!(best.iter().zip(reborn.iter()).filter(|(a, b)| a != b).count() <= 1);
}

#[test]
fn snapshots_are_taken_while_all_details_are_recorded() {
    let (mut state, _) = start(&config());
    let report = tick(&mut state, 0);
    assert!(state.snapshot(&report.herbivores[3], 1, 2, Entity::HERBIVORE).is_none());
    let report = tick(&mut state, 2 * MINUTE);
    let row = state
        .snapshot(&report.carnivores_2[0], 5 * UNIT, -7, Entity::CARNIVORE)
        .expect("the recording runs");
    assert_eq!((row.timestep, row.x, row.y, row.id), (2, 5 * UNIT, -7, 2));
    assert_eq!((row.health, row.score, row.entity), (399, 2, "CARNIVORE"));
    let quiet = Config { record_all_details: false, ..config() };
    let (mut state, _) = start(&quiet);
    let report = tick(&mut state, 2 * MINUTE);
    assert!(state.is_recording());
    assert!(state.snapshot(&report.herbivores[0], 0, 0, Entity::HERBIVORE).is_none());
}
