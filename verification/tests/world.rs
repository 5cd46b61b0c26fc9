use simulation::collisionobjectdata::{CollisionObjectData, World, STARTING_ENERGY};
use simulation::entity::Entity;

#[test]
fn a_new_body_has_starting_energy() {
    let data = CollisionObjectData::new(Entity::CARNIVORE, 3, Some(8));
    assert_eq!(data.entity_type, Entity::CARNIVORE);
    assert_eq!(data.id, 3);
    assert_eq!(data.env_handle, Some(8));
    assert_eq!(data.fitness, 0);
    assert!(!data.eaten);
    assert_eq!(data.energy, 400);
    assert_eq!(data.energy, STARTING_ENERGY);
    assert_eq!(data.score, 0);
}

#[test]
fn handles_count_up_from_zero() {
    let mut world = World::new();
    assert_eq!(world.len(), 0);
    assert!(world.get(0).is_none());
    assert_eq!(world.add(CollisionObjectData::new(Entity::FOOD, -2, None)), 0);
    assert_eq!(world.add(CollisionObjectData::new(Entity::WALL, -1, None)), 1);
    assert_eq!(world.len(), 2);
    assert_eq!(world.data(0).entity_type, Entity::FOOD);
    assert_eq!(world.data(1).id, -1);
    assert_eq!(world.get(1).map(|d| d.entity_type), Some(Entity::WALL));
    assert!(world.get(2).is_none());
}

#[test]
fn set_data_replaces_one_record() {
    let mut world = World::new();
    world.add(CollisionObjectData::new(Entity::FOOD, -2, None));
    world.add(CollisionObjectData::new(Entity::HERBIVORE, 0, None));
    let mut body = world.data(1);
    body.energy = 5;
    body.eaten = true;
    world.set_data(1, body);
    assert_eq!(world.data(1).energy, 5);
    assert!(world.data(1).eaten);
    assert_eq!(world.data(0).energy, 400);
    assert!(!world.data(0).eaten);
}
