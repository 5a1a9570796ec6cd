//! What the systems of combat tell one another.

use crate::Entity;
use vstd::prelude::*;

verus! {

/// Points to hand to the player.
#[derive(Debug, Clone, Copy, PartialEq, Eq, Structural)]
pub struct RewardEvent {
    pub score: u32,
}

/// A unit pulls the trigger of all its weapons.
#[derive(Debug, Clone, Copy, PartialEq, Eq, Structural)]
pub struct ShootEvent {
    pub shooter: Entity,
}

/// A weapon of `shooter` fires.
#[derive(Debug, Clone, Copy, PartialEq, Eq, Structural)]
pub struct SpawnBulletEvent {
    pub weapon: Entity,
    pub shooter: Entity,
}

/// Two entities touch in a way that matters to combat.
#[derive(Debug, Clone, Copy, PartialEq, Eq, Structural)]
pub enum ContactEvent {
    /// A unit with health, then the bullet that hit it.
    HealthBullet(Entity, Entity),
}

/// What the physics engine reports of two bodies: that they began to
/// overlap, or ceased to.
#[derive(Debug, Clone, Copy, PartialEq, Eq, Structural)]
pub enum Collision {
    Started(Entity, Entity),
    Stopped(Entity, Entity),
}

} // verus!
