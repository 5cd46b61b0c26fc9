use simulation::brain::{cone_ray_of, Brain, BrainNetwork, InputProcessorNetwork, Reading};
use simulation::entity::Entity;
use simulation::fixed::UNIT;

/// A first layer in which hidden neuron `j` reads input `j`, and a second
/// layer in which the left output reads hidden neurons 0 and 1, the middle
/// output hidden neuron 2 and the right output hidden neurons 3 and 4.
fn cone_network(seed: u64) -> InputProcessorNetwork {
    let mut layer1 = vec![0i64; 35];
    for j in 0..5 {
        layer1[j * 5 + j] = UNIT;
    }
    let mut layer2 = vec![0i64; 21];
    layer2[0] = UNIT;
    layer2[1] = UNIT;
    layer2[7 + 2] = UNIT;
    layer2[14 + 3] = UNIT;
    layer2[14 + 4] = UNIT;
    InputProcessorNetwork::from_weights(layer1, layer2, seed).expect("weights are in range")
}

fn zero_network(seed: u64) -> InputProcessorNetwork {
    InputProcessorNetwork::from_weights(vec![0; 35], vec![0; 21], seed).expect("zeros are in range")
}

fn cone_brain(seed: u64, view_range: i64) -> Brain {
    let mut brain = Brain::new(view_range, UNIT, seed);
    brain.set_networks(BrainNetwork::from_networks(
        cone_network(seed),
        cone_network(seed),
        cone_network(seed),
        seed,
    ));
    brain
}

fn nothing() -> Vec<Reading> {
    vec![None; 8]
}

fn weights(network: &InputProcessorNetwork) -> Vec<i64> {
    let mut all = network.layer1().clone();
    all.extend_from_slice(network.layer2());
    all
}

fn all_weights(networks: &BrainNetwork) -> Vec<i64> {
    let mut all = weights(&networks.wall_network);
    all.extend(weights(&networks.food_network));
    all.extend(weights(&networks.carnivore_network));
    all
}

fn differing(a: &[i64], b: &[i64]) -> usize {
    assert_eq!(a.len(), b.len());
    a.iter().zip(b.iter()).filter(|(x, y)| x != y).count()
}

#[test]
fn sigmoid_has_exact_values() {
    assert_eq!(Brain::sigmoid(0), 0);
    assert_eq!(Brain::sigmoid(UNIT), 666_666);
    assert_eq!(Brain::sigmoid(-UNIT), -666_666);
    assert_eq!(Brain::sigmoid(UNIT / 2), 500_000);
    assert_eq!(Brain::sigmoid(3_500_000), 875_000);
    assert_eq!(Brain::sigmoid(1), 1);
    assert_eq!(Brain::sigmoid(i64::MAX), 999_999);
    assert_eq!(Brain::sigmoid(i64::MIN), -999_999);
}

#[test]
fn sigmoid_is_odd_bounded_and_monotonic() {
    let samples: [i64; 11] = [
        -9_000_000_000,
        -3_000_000,
        -UNIT,
        -1234,
        -1,
        0,
        1,
        777,
        UNIT,
        40_000_000,
        9_000_000_000,
    ];
    let mut previous = -UNIT;
    for x in samples {
        let y = Brain::sigmoid(x);
        assert_eq!(Brain::sigmoid(-x), -y);
        assert!(-UNIT < y && y < UNIT);
        assert!(previous <= y);
        previous = y;
    }
}

#[test]
fn new_network_has_its_shape_and_weights_in_range() {
    let network = InputProcessorNetwork::new(7);
    assert_eq!(network.layer1().len(), 35);
    assert_eq!(network.layer2().len(), 21);
    for w in weights(&network) {
        assert!(-UNIT <= w && w < UNIT);
    }
    assert!(weights(&network).iter().any(|w| *w != weights(&network)[0]));
}

#[test]
fn same_seed_gives_same_weights() {
    assert_eq!(weights(&InputProcessorNetwork::new(42)), weights(&InputProcessorNetwork::new(42)));
    assert_ne!(weights(&InputProcessorNetwork::new(42)), weights(&InputProcessorNetwork::new(43)));
}

#[test]
fn from_weights_rejects_wrong_shape_and_range() {
    assert!(InputProcessorNetwork::from_weights(vec![0; 34], vec![0; 21], 1).is_none());
    assert!(InputProcessorNetwork::from_weights(vec![0; 35], vec![0; 22], 1).is_none());
    let mut high = vec![0i64; 35];
    high[3] = UNIT + 1;
    assert!(InputProcessorNetwork::from_weights(high, vec![0; 21], 1).is_none());
    let mut low = vec![0i64; 21];
    low[20] = -UNIT - 1;
    assert!(InputProcessorNetwork::from_weights(vec![0; 35], low, 1).is_none());
    let mut edge = vec![0i64; 35];
    edge[0] = UNIT;
    edge[34] = -UNIT;
    let network = InputProcessorNetwork::from_weights(edge.clone(), vec![0; 21], 1).unwrap();
    assert_eq!(network.layer1(), &edge);
}

#[test]
fn infer_gives_exact_outputs() {
    let mut layer1 = vec![0i64; 35];
    for row in 0..7 {
        layer1[row * 5] = UNIT;
    }
    let mut layer2 = vec![0i64; 21];
    for col in 0..7 {
        layer2[7 + col] = UNIT;
        layer2[14 + col] = -UNIT;
    }
    let network = InputProcessorNetwork::from_weights(layer1, layer2, 3).unwrap();
    let output = network.infer(&vec![UNIT / 2, 0, 0, 0, 0]);
    assert_eq!(output, vec![0, 875_000, -875_000]);
    let silent = network.infer(&vec![0, UNIT, UNIT, UNIT, UNIT]);
    assert_eq!(silent, vec![0, 0, 0]);
}

#[test]
fn infer_takes_the_largest_inputs_without_overflow() {
    let network =
        InputProcessorNetwork::from_weights(vec![UNIT; 35], vec![UNIT; 21], 3).unwrap();
    let output = network.infer(&vec![i64::MAX; 5]);
    // Every hidden neuron gives 999_999; their sum of 6_999_993 squashes to 933_333.
    assert_eq!(output, vec![933_333, 933_333, 933_333]);
    let opposite = network.infer(&vec![i64::MIN; 5]);
    assert_eq!(opposite, vec![-933_333, -933_333, -933_333]);
}

#[test]
fn set_weight_changes_the_named_cell_only() {
    let mut network = zero_network(5);
    network.set_weight(0, 6, 4, 123);
    network.set_weight(1, 2, 6, -456);
    let mut expected1 = vec![0i64; 35];
    expected1[34] = 123;
    let mut expected2 = vec![0i64; 21];
    expected2[20] = -456;
    assert_eq!(network.layer1(), &expected1);
    assert_eq!(network.layer2(), &expected2);
}

#[test]
fn network_mutation_changes_at_most_one_weight() {
    let mut network = InputProcessorNetwork::new(11);
    let mut changed = 0;
    for _ in 0..200 {
        let before = weights(&network);
        network.mutate();
        let after = weights(&network);
        let count = differing(&before, &after);
        assert!(count <= 1);
        changed += count;
        for w in after {
            assert!(-UNIT <= w && w < UNIT);
        }
    }
    assert!(changed > 100);
}

#[test]
fn brain_network_mutation_changes_at_most_one_weight_of_one_network() {
    let mut networks = BrainNetwork::new(21);
    let mut touched = [false; 3];
    for _ in 0..300 {
        let before = all_weights(&networks);
        networks.mutate();
        let after = all_weights(&networks);
        assert!(differing(&before, &after) <= 1);
        if let Some(at) = before.iter().zip(after.iter()).position(|(x, y)| x != y) {
            touched[at / 56] = true;
        }
    }
    assert_eq!(touched, [true, true, true]);
}

#[test]
fn brain_mutation_is_gated_by_the_rate() {
    // A rate of one is never exceeded by a draw from [0, 1).
    let mut never = Brain::new(100 * UNIT, UNIT, 5);
    let before = all_weights(&never.get_networks());
    for _ in 0..100 {
        never.mutate();
    }
    assert_eq!(all_weights(&never.get_networks()), before);
    // A rate below zero is exceeded by every draw.
    let mut always = Brain::new(100 * UNIT, -1, 5);
    let mut changed = 0;
    for _ in 0..100 {
        let before = all_weights(&always.get_networks());
        always.mutate();
        let count = differing(&before, &all_weights(&always.get_networks()));
        assert!(count <= 1);
        changed += count;
    }
    assert!(changed > 50);
    assert!(Brain::mutation_due(300_000, 300_001));
    assert!(!Brain::mutation_due(300_000, 300_000));
}

#[test]
fn brain_keeps_its_parameters() {
    let mut brain = Brain::new(250 * UNIT, 40_000, 9);
    assert_eq!(brain.max_sensor_distance(), 250 * UNIT);
    let networks = BrainNetwork::new(77);
    let expected = all_weights(&networks);
    brain.set_networks(networks);
    assert_eq!(all_weights(&brain.get_networks()), expected);
    assert_eq!(brain.max_sensor_distance(), 250 * UNIT);
}

#[test]
fn clone_keeps_the_weights() {
    let networks = BrainNetwork::new(31);
    assert_eq!(all_weights(&networks.clone()), all_weights(&networks));
}

#[test]
fn recombine_takes_one_network_from_each_parent() {
    let base = BrainNetwork::new(1);
    let wall = BrainNetwork::new(2);
    let carnivore = BrainNetwork::new(3);
    let child = BrainNetwork::recombine(base.clone(), wall.clone(), carnivore.clone());
    assert_eq!(weights(&child.food_network), weights(&base.food_network));
    assert_eq!(weights(&child.wall_network), weights(&wall.wall_network));
    assert_eq!(weights(&child.carnivore_network), weights(&carnivore.carnivore_network));
}

#[test]
fn food_ahead_keeps_a_herbivore_straight() {
    let view_range = 200 * UNIT;
    let brain = cone_brain(42, view_range);
    for facing in 0..8i8 {
        let mut readings = nothing();
        readings[facing as usize] = Some((Entity::FOOD, view_range / 2));
        assert_eq!(brain.get_new_direction(readings, Entity::HERBIVORE, facing), facing);
    }
}

#[test]
fn a_herbivore_ahead_keeps_the_viewer_straight() {
    let view_range = 200 * UNIT;
    let brain = cone_brain(42, view_range);
    for facing in 0..8i8 {
        let mut readings = nothing();
        readings[facing as usize] = Some((Entity::HERBIVORE, view_range / 2));
        // To a carnivore the herbivore is prey, which the food network reads.
        assert_eq!(brain.get_new_direction(readings.clone(), Entity::CARNIVORE, facing), facing);
        // To a herbivore it is nothing to react to.
        assert_eq!(brain.get_new_direction(readings, Entity::HERBIVORE, facing), facing);
    }
    // The food network alone decides here: with prey to the right the carnivore turns.
    let mut readings = nothing();
    readings[3] = Some((Entity::HERBIVORE, view_range / 2));
    assert_eq!(brain.get_new_direction(readings, Entity::CARNIVORE, 2), 3);
}

#[test]
fn food_to_the_side_turns_a_herbivore() {
    let view_range = 200 * UNIT;
    let brain = cone_brain(42, view_range);
    let mut left = nothing();
    left[7] = Some((Entity::FOOD, 0));
    assert_eq!(brain.get_new_direction(left, Entity::HERBIVORE, 0), 7);
    let mut far_left = nothing();
    far_left[6] = Some((Entity::FOOD, 10 * UNIT));
    assert_eq!(brain.get_new_direction(far_left, Entity::HERBIVORE, 0), 7);
    let mut right = nothing();
    right[0] = Some((Entity::FOOD, 0));
    assert_eq!(brain.get_new_direction(right, Entity::HERBIVORE, 7), 0);
    let mut far_right = nothing();
    far_right[5] = Some((Entity::WALL, 0));
    assert_eq!(brain.get_new_direction(far_right, Entity::CARNIVORE, 3), 4);
}

#[test]
fn the_cone_spans_two_rays_to_either_side() {
    let cone = |facing: i8| (0..5).map(|k| cone_ray_of(facing, k)).collect::<Vec<_>>();
    assert_eq!(cone(0), vec![6, 7, 0, 1, 2]);
    assert_eq!(cone(1), vec![7, 0, 1, 2, 3]);
    assert_eq!(cone(4), vec![2, 3, 4, 5, 6]);
    assert_eq!(cone(7), vec![5, 6, 7, 0, 1]);
}

#[test]
fn rays_behind_are_not_read() {
    let view_range = 200 * UNIT;
    let brain = cone_brain(42, view_range);
    let mut readings = nothing();
    readings[3] = Some((Entity::FOOD, 0));
    readings[4] = Some((Entity::CARNIVORE, 0));
    readings[5] = Some((Entity::WALL, 0));
    assert_eq!(brain.get_new_direction(readings, Entity::HERBIVORE, 0), 0);
}

#[test]
fn the_viewer_decides_what_counts_as_food() {
    let view_range = 200 * UNIT;
    let mut brain = Brain::new(view_range, UNIT, 1);
    brain.set_networks(BrainNetwork::from_networks(
        zero_network(1),
        cone_network(1),
        zero_network(1),
        1,
    ));
    let mut food_left = nothing();
    food_left[1] = Some((Entity::FOOD, 0));
    assert_eq!(brain.get_new_direction(food_left.clone(), Entity::HERBIVORE, 2), 1);
    assert_eq!(brain.get_new_direction(food_left, Entity::CARNIVORE, 2), 2);
    let mut prey_left = nothing();
    prey_left[1] = Some((Entity::HERBIVORE, 0));
    assert_eq!(brain.get_new_direction(prey_left.clone(), Entity::CARNIVORE, 2), 1);
    assert_eq!(brain.get_new_direction(prey_left, Entity::HERBIVORE, 2), 2);
    let mut zone_left = nothing();
    zone_left[1] = Some((Entity::OTHER, 0));
    assert_eq!(brain.get_new_direction(zone_left, Entity::CARNIVORE, 2), 2);
}

#[test]
fn equal_outputs_keep_the_facing() {
    let brain_of_zeros = {
        let mut brain = Brain::new(50 * UNIT, UNIT, 4);
        brain.set_networks(BrainNetwork::from_networks(
            zero_network(4),
            zero_network(4),
            zero_network(4),
            4,
        ));
        brain
    };
    for facing in 0..8i8 {
        let mut readings = nothing();
        readings[facing as usize] = Some((Entity::WALL, 0));
        readings[((facing + 1) % 8) as usize] = Some((Entity::CARNIVORE, 25 * UNIT));
        assert_eq!(brain_of_zeros.get_new_direction(readings, Entity::HERBIVORE, facing), facing);
        assert_eq!(brain_of_zeros.get_new_direction(nothing(), Entity::CARNIVORE, facing), facing);
    }
}

#[test]
fn ties_prefer_straight_then_left() {
    let view_range = 100 * UNIT;
    let brain = cone_brain(8, view_range);
    // The same sighting to the left and to the right: left and right tie
    // above straight, and left wins.
    let mut sides = nothing();
    sides[1] = Some((Entity::FOOD, 0));
    sides[3] = Some((Entity::FOOD, 0));
    assert_eq!(brain.get_new_direction(sides, Entity::HERBIVORE, 2), 1);
    // The same sighting ahead and to the left: straight wins.
    let mut ahead_and_left = nothing();
    ahead_and_left[2] = Some((Entity::FOOD, 0));
    ahead_and_left[1] = Some((Entity::FOOD, 0));
    assert_eq!(brain.get_new_direction(ahead_and_left, Entity::HERBIVORE, 2), 2);
}

#[test]
fn direction_depends_on_the_weights_alone() {
    let view_range = 120 * UNIT;
    let readings: Vec<Reading> = vec![
        Some((Entity::FOOD, 30 * UNIT)),
        None,
        Some((Entity::WALL, 100 * UNIT)),
        Some((Entity::CARNIVORE, 5 * UNIT)),
        None,
        Some((Entity::HERBIVORE, 0)),
        None,
        Some((Entity::FOOD, 119 * UNIT)),
    ];
    let networks = BrainNetwork::new(99);
    let mut first = Brain::new(view_range, 0, 1);
    let mut second = Brain::new(view_range, UNIT, 2);
    first.set_networks(networks.clone());
    second.set_networks(networks);
    for facing in 0..8i8 {
        let a = first.get_new_direction(readings.clone(), Entity::HERBIVORE, facing);
        let b = second.get_new_direction(readings.clone(), Entity::HERBIVORE, facing);
        let again = first.get_new_direction(readings.clone(), Entity::HERBIVORE, facing);
        assert_eq!(a, b);
        assert_eq!(a, again);
        assert!(a == facing || a == (facing + 1) % 8 || a == (facing + 7) % 8);
    }
}
