//! What a collision announces to the sweep that resolves it.
use vstd::prelude::*;
use crate::entities::EntityId;

verus! {

/// The kind of an [`Event`], without its payload.
#[derive(Clone, Copy, Debug, PartialEq, Eq, Hash, Structural)]
pub enum EventType {
    EntityDestroyed,
    ResetAsteroid,
    ScoreIncreased,
    GameOver,
}

#[derive(Clone, Copy, Debug, PartialEq, Eq, Structural)]
pub enum Event {
    /// The body leaves the simulation.
    EntityDestroyed(EntityId),
    /// The asteroid is sent back to the top of the field, same identifier.
    ResetAsteroid(EntityId),
    /// The player scored a hit.
    ScoreIncreased,
    /// The player was struck; the run ends.
    GameOver,
}

impl Event {
    pub open spec fn type_of(self) -> EventType {
        match self {
            Event::EntityDestroyed(_) => EventType::EntityDestroyed,
            Event::ResetAsteroid(_) => EventType::ResetAsteroid,
            Event::ScoreIncreased => EventType::ScoreIncreased,
            Event::GameOver => EventType::GameOver,
        }
    }

    pub fn event_type(&self) -> (r: EventType)
        ensures
            r == self.type_of(),
    {
        match self {
            Event::EntityDestroyed(_) => EventType::EntityDestroyed,
            Event::ResetAsteroid(_) => EventType::ResetAsteroid,
            Event::ScoreIncreased => EventType::ScoreIncreased,
            Event::GameOver => EventType::GameOver,
        }
    }
}

} // verus!
