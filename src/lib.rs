//! A deterministic, tick-driven combat simulation on an axial hex grid.
//!
//! Entities live in a `Registry` and carry components: a position, movement pacing
//! toward a goal hex, hit points, and a ranged attack. Each call of
//! `Simulation::advance` runs one tick: movement, then targeting, then combat in
//! increasing identifier order, then the removal of the entities that died.
use vstd::prelude::*;

pub mod clock;
pub mod components;
pub mod entity;
pub mod hex;
pub mod lemmas;
pub mod registry;
pub mod systems;
pub mod texture;

pub use clock::{ClockState, Simulation};
pub use components::{Attacker, HPComponent, MoveComponent, PositionComponent, ShootComponent, Tower};
pub use entity::{Component, ComponentKind, ComponentSet, EntityId, EntityRecord};
pub use hex::HexCoordinate;
pub use registry::{Registry, SimError};
pub use texture::{uv_debug_texture_data, TEXTURE_SIZE};

verus! {

} // verus!
