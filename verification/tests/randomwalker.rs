use simulation::brain::{BrainNetwork, Reading};
use simulation::collisionobjectdata::{CollisionObjectData, World};
use simulation::entity::Entity;
use simulation::fixed::UNIT;
use simulation::randomwalker::{RandomWalker, MAX_HEALTH};

fn herbivore(handle: usize, thinking_time: i32) -> RandomWalker {
    RandomWalker::new(
        handle,
        None,
        7,
        30 * UNIT,
        3 * UNIT,
        800,
        Entity::HERBIVORE,
        thinking_time,
        100 * UNIT,
        UNIT,
        42,
    )
}

fn world_with_body() -> World {
    let mut world = World::new();
    world.add(CollisionObjectData::new(Entity::WALL, -1, None));
    world.add(CollisionObjectData::new(Entity::HERBIVORE, 7, None));
    world
}

fn nothing() -> Vec<Reading> {
    vec![None; 8]
}

fn weights(networks: &BrainNetwork) -> Vec<i64> {
    let mut all = Vec::new();
    for network in [&networks.wall_network, &networks.food_network, &networks.carnivore_network] {
        all.extend_from_slice(network.layer1());
        all.extend_from_slice(network.layer2());
    }
    all
}

#[test]
fn a_new_walker_is_as_it_was_made() {
    let walker = RandomWalker::new(
        5,
        Some(4),
        9,
        20 * UNIT,
        2 * UNIT,
        600,
        Entity::CARNIVORE,
        10,
        150 * UNIT,
        250_000,
        1,
    );
    assert_eq!(walker.get_handle(), 5);
    assert_eq!(walker.get_env_handle(), Some(4));
    assert_eq!(walker.get_id(), 9);
    assert_eq!(walker.get_size(), 20 * UNIT);
    assert_eq!(walker.get_health(), 600);
    assert_eq!(walker.get_score(), 0);
    assert_eq!(walker.get_entity(), Entity::CARNIVORE);
    assert_eq!(walker.get_facing(), 1);
    assert_eq!(walker.max_sensor_distance(), 150 * UNIT);
    assert!(walker.is_thinking());
}

#[test]
fn steps_follow_the_eight_facings() {
    let s = 3 * UNIT;
    let d = 2_121_321;
    let expected = [(0, -s), (d, -d), (s, 0), (d, d), (0, s), (-d, d), (-s, 0), (-d, -d)];
    for facing in 0..8i8 {
        assert_eq!(simulation::randomwalker::step_of(facing, s), expected[facing as usize]);
    }
    assert_eq!(simulation::randomwalker::step_of(3, -s), (-d, -d));
    assert_eq!(simulation::randomwalker::step_of(6, 0), (0, 0));
    assert_eq!(simulation::randomwalker::step_of(1, UNIT), (707_107, -707_107));
    assert_eq!(simulation::randomwalker::step_of(5, i64::MAX), (-6521910930864269956, 6521910930864269956));
}

#[test]
fn polygon_has_four_corners_around_its_centre() {
    let points = RandomWalker::polygon_points(30 * UNIT, 100 * UNIT, -50 * UNIT);
    assert_eq!(
        points,
        vec![
            (100 * UNIT, -60 * UNIT),
            (110 * UNIT, -50 * UNIT),
            (100 * UNIT, -40 * UNIT),
            (90 * UNIT, -50 * UNIT),
        ]
    );
    let rounded = RandomWalker::polygon_points(10, 0, 0);
    assert_eq!(rounded, vec![(0, -3), (3, 0), (0, 3), (-3, 0)]);
}

#[test]
fn sensor_points_go_round_with_the_facings() {
    let walker = herbivore(1, 5);
    let a = 10 * UNIT;
    let h = 5 * UNIT;
    assert_eq!(
        walker.get_sensor_points(),
        vec![(0, -a), (h, -h), (a, 0), (h, h), (0, a), (-h, h), (-a, 0), (-h, -h)]
    );
    for (i, point) in walker.get_sensor_points().into_iter().enumerate() {
        let step = simulation::randomwalker::step_of(i as i8, UNIT);
        assert_eq!(point.0.signum(), step.0.signum());
        assert_eq!(point.1.signum(), step.1.signum());
    }
}

#[test]
fn ray_groups_differ_by_kind() {
    let herbivore = herbivore(1, 5);
    let carnivore =
        RandomWalker::new(1, None, 0, UNIT, UNIT, 1, Entity::CARNIVORE, 1, UNIT, 0, 1);
    let h = herbivore.ray_group();
    let c = carnivore.ray_group();
    assert!(h.is_member_of(4) && !h.is_member_of(6));
    assert!(c.is_member_of(6) && !c.is_member_of(4));
    assert!(h.is_group_whitelisted(1) && !h.is_group_whitelisted(2));
    assert!(c.is_group_whitelisted(2) && !c.is_group_whitelisted(1));
    assert!(h.is_group_blacklisted(2) && c.is_group_blacklisted(1));
}

#[test]
fn a_tick_decays_energy_and_counts_the_score() {
    let mut world = world_with_body();
    let mut walker = herbivore(1, 3);
    let first = walker.update(&mut world, nothing());
    let facing = walker.get_facing();
    assert!(facing == 0 || facing == 1 || facing == 2);
    assert_eq!(first, simulation::randomwalker::step_of(facing, 3 * UNIT));
    assert_eq!(walker.get_health(), 400);
    assert_eq!(walker.get_score(), 1);
    assert_eq!(world.data(1).energy, 399);
    assert_eq!(world.data(1).score, 1);
    assert_eq!(world.data(1).fitness, 0);
    assert!(!walker.is_thinking());
    // Between two readings of the sensors the walker keeps its step.
    let second = walker.update(&mut world, Vec::new());
    assert_eq!(second, first);
    assert_eq!(walker.get_facing(), facing);
    assert_eq!(walker.get_health(), 399);
    assert_eq!(walker.get_score(), 2);
    assert_eq!(world.data(1).energy, 398);
    assert!(!walker.is_thinking());
    walker.update(&mut world, Vec::new());
    assert!(walker.is_thinking());
    // The other body is untouched.
    assert_eq!(world.data(0).energy, 400);
    assert_eq!(world.data(0).score, 0);
}

#[test]
fn rewards_are_folded_into_the_score() {
    let mut world = world_with_body();
    let mut body = world.data(1);
    body.fitness = 50;
    body.energy = 450;
    world.set_data(1, body);
    let mut walker = herbivore(1, 1);
    walker.update(&mut world, nothing());
    assert_eq!(walker.get_score(), 51);
    assert_eq!(world.data(1).score, 51);
    assert_eq!(world.data(1).fitness, 0);
    assert_eq!(walker.get_health(), 450);
    assert_eq!(world.data(1).energy, 449);
}

#[test]
fn health_is_capped_whatever_the_energy() {
    let mut world = world_with_body();
    let mut walker = herbivore(1, 1);
    for energy in [2501, 3000, i32::MAX] {
        let mut body = world.data(1);
        body.energy = energy;
        world.set_data(1, body);
        walker.update(&mut world, nothing());
        assert_eq!(walker.get_health(), MAX_HEALTH);
        assert_eq!(world.data(1).energy, MAX_HEALTH);
    }
    walker.update(&mut world, nothing());
    assert_eq!(walker.get_health(), 2500);
    assert_eq!(world.data(1).energy, 2499);
    let mut body = world.data(1);
    body.energy = i32::MIN;
    world.set_data(1, body);
    walker.update(&mut world, nothing());
    assert_eq!(walker.get_health(), i32::MIN);
    assert_eq!(world.data(1).energy, i32::MIN);
}

#[test]
fn death_is_no_energy_or_being_eaten() {
    let mut world = world_with_body();
    let walker = herbivore(1, 1);
    assert!(!walker.is_dead(&world));
    let mut body = world.data(1);
    body.energy = 1;
    world.set_data(1, body);
    assert!(!walker.is_dead(&world));
    body.energy = 0;
    world.set_data(1, body);
    assert!(walker.is_dead(&world));
    body.energy = -5;
    world.set_data(1, body);
    assert!(walker.is_dead(&world));
    body.energy = 100;
    body.eaten = true;
    world.set_data(1, body);
    assert!(walker.is_dead(&world));
}

#[test]
fn respawn_resets_score_and_health() {
    let mut world = world_with_body();
    let mut walker = herbivore(1, 4);
    for _ in 0..3 {
        let detected = if walker.is_thinking() { nothing() } else { Vec::new() };
        walker.update(&mut world, detected);
    }
    let mut body = world.data(1);
    body.eaten = true;
    body.fitness = 9;
    world.set_data(1, body);
    assert_eq!(walker.get_score(), 3);
    let networks = BrainNetwork::new(1234);
    let expected = weights(&networks);
    walker.respawn(&mut world, false, networks);
    assert_eq!(walker.get_score(), 0);
    assert_eq!(walker.get_health(), 800);
    assert_eq!(world.data(1).energy, 800);
    assert!(!world.data(1).eaten);
    assert_eq!(world.data(1).fitness, 9);
    assert_eq!(world.data(1).score, 3);
    assert!(walker.is_thinking());
    assert!(!walker.is_dead(&world));
    assert_eq!(weights(&walker.get_brain()), expected);
}

#[test]
fn respawn_with_mutation_changes_at_most_one_weight() {
    let mut world = world_with_body();
    // A mutation rate below every draw: the networks are always mutated.
    let mut eager =
        RandomWalker::new(1, None, 7, UNIT, UNIT, 800, Entity::HERBIVORE, 1, UNIT, -1, 5);
    let mut changed = 0;
    for seed in 0..50 {
        let networks = BrainNetwork::new(seed);
        let expected = weights(&networks);
        eager.respawn(&mut world, true, networks);
        let got = weights(&eager.get_brain());
        let count = expected.iter().zip(got.iter()).filter(|(a, b)| a != b).count();
        assert!(count <= 1);
        changed += count;
    }
    assert!(changed > 25);
    // A mutation rate of one: the networks are never mutated.
    let mut placid = herbivore(1, 1);
    for seed in 0..50 {
        let networks = BrainNetwork::new(seed);
        let expected = weights(&networks);
        placid.respawn(&mut world, true, networks);
        assert_eq!(weights(&placid.get_brain()), expected);
    }
}
