use simulation::collisionobjectdata::{CollisionObjectData, World};
use simulation::entity::Entity;
use simulation::fixed::UNIT;
use simulation::food::Food;
use simulation::random_helper::{RandomHelper, MARGIN};
use simulation::wall::Wall;

#[test]
fn eaten_food_turns_up_elsewhere() {
    let mut world = World::new();
    world.add(CollisionObjectData::new(Entity::HERBIVORE, 0, None));
    let handle = world.add(CollisionObjectData::new(Entity::FOOD, -2, None));
    let mut random = RandomHelper::new(300 * UNIT, 200 * UNIT, 8);
    let mut food = Food::new(handle, 15 * UNIT);
    assert_eq!(food.get_handle(), 1);
    assert_eq!(food.get_size(), 15 * UNIT);
    assert_eq!(food.update(&mut world, &mut random), None);
    let mut body = world.data(1);
    body.eaten = true;
    body.energy = 123;
    world.set_data(1, body);
    let mut other = world.data(0);
    other.eaten = true;
    world.set_data(0, other);
    let place = food.update(&mut world, &mut random).expect("eaten food is renewed");
    assert!(MARGIN <= place.0 && place.0 < 260 * UNIT);
    assert!(MARGIN <= place.1 && place.1 < 160 * UNIT);
    assert!(!world.data(1).eaten);
    assert_eq!(world.data(1).energy, 123);
    assert!(world.data(0).eaten);
    assert_eq!(food.update(&mut world, &mut random), None);
    assert_eq!(food.get_handle(), 1);
}

#[test]
fn a_wall_keeps_its_ends() {
    let wall = Wall::new((1, 2), (-3, 4));
    assert_eq!(wall.first, (1, 2));
    assert_eq!(wall.second, (-3, 4));
}
