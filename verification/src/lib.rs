//! A procedural world: terrain, hydrology and settlements derived
//! deterministically from a seed, and settlement interiors expanded on
//! demand into walkable local maps. Generation is specified down to the
//! cell: the same seed and dimensions always rebuild the same world.

use vstd::prelude::*;

pub mod character;
pub mod game;
pub mod location;
pub mod location_generator;
pub mod location_map;
pub mod noise_field;
pub mod player;
pub mod position;
pub mod rng;
pub mod world;
pub mod world_generator;

verus! {

} // verus!
