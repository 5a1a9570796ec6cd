//! Combat: what units and bullets carry, the events they raise, and the
//! systems that turn a shot into a bullet, a hit into damage and a death
//! into a reward.

pub mod components;
pub mod events;
pub mod systems;
