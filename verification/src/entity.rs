//! The kinds of body.
use vstd::prelude::*;

verus! {

/// The kind of a body in the arena.
#[derive(Clone, Copy, Debug, PartialEq, Eq, Structural)]
pub enum Entity {
    FOOD,
    HERBIVORE,
    CARNIVORE,
    WALL,
    OTHER,
}

impl Entity {
    /// The label under which this kind appears in telemetry.
    pub open spec fn label(self) -> Seq<char> {
        match self {
            Entity::FOOD => "FOOD"@,
            Entity::HERBIVORE => "HERBIVORE"@,
            Entity::CARNIVORE => "CARNIVORE"@,
            Entity::WALL => "WALL"@,
            Entity::OTHER => "OTHER"@,
        }
    }

    /// The telemetry label of the kind.
    pub fn name(&self) -> (s: &'static str)
        ensures
            s@ == self.label(),
    {
        match self {
            Entity::FOOD => "FOOD",
            Entity::HERBIVORE => "HERBIVORE",
            Entity::CARNIVORE => "CARNIVORE",
            Entity::WALL => "WALL",
            Entity::OTHER => "OTHER",
        }
    }

    /// Renders the kind as its telemetry label.
    pub fn to_string(&self) -> (s: String)
        ensures
            s@ == self.label(),
    {
        match self {
            Entity::FOOD => "FOOD".to_owned(),
            Entity::HERBIVORE => "HERBIVORE".to_owned(),
            Entity::CARNIVORE => "CARNIVORE".to_owned(),
            Entity::WALL => "WALL".to_owned(),
            Entity::OTHER => "OTHER".to_owned(),
        }
    }
}

} // verus!
