//! Components of the entities of an ECS server.
pub mod chunk;

use vstd::prelude::*;

verus! {

/// The id by which the network knows an entity.
#[derive(Clone, Copy, Debug)]
pub struct NetworkIdComponent(pub i32);

impl NetworkIdComponent {
    /// A new id. The counter it draws from is a constant, so every call
    /// starts from a fresh counter at zero: the id is always 0.
    pub fn new() -> (c: Self)
        ensures
            c.0 == 0,
    {
        let counter: i32 = 0;
        NetworkIdComponent(counter)
    }
}

/// The kind of a mob.
#[derive(Clone, Copy, Debug)]
pub struct MobKindComponent(pub i32);

/// The UUID of an object, as its 128-bit value.
#[derive(Clone, Copy, Debug)]
pub struct ObjectUuidComponent(pub u128);

/// Marks a living entity.
#[derive(Clone, Copy, Debug)]
pub struct LivingEntityComponent;

/// An experience orb and how much it is worth.
#[derive(Clone, Copy, Debug)]
pub struct ExperienceOrbComponent {
    pub count: i16,
}

/// A player's name.
#[derive(Clone, Debug)]
pub struct UsernameComponent(pub String);

/// A custom name, as the JSON text of a chat component.
#[derive(Clone, Debug)]
pub struct CustomNameComponent(pub String);

} // verus!
