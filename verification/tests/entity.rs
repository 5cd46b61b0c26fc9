use simulation::entity::Entity;

#[test]
fn entity_labels_are_upper_case_names() {
    assert_eq!(Entity::FOOD.to_string(), "FOOD");
    assert_eq!(Entity::HERBIVORE.to_string(), "HERBIVORE");
    assert_eq!(Entity::CARNIVORE.to_string(), "CARNIVORE");
    assert_eq!(Entity::WALL.to_string(), "WALL");
    assert_eq!(Entity::OTHER.to_string(), "OTHER");
}

#[test]
fn names_and_rendered_labels_agree() {
    for kind in [Entity::FOOD, Entity::HERBIVORE, Entity::CARNIVORE, Entity::WALL, Entity::OTHER] {
        assert_eq!(kind.name(), kind.to_string());
        assert_eq!(kind.name(), format!("{:?}", kind));
    }
}
