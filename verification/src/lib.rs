//! River and water-mask mapping of a generated world, with the layer model
//! they work on and the game's start-up state.

pub mod world_constants;
pub mod coords;
pub mod layers;
pub mod river_mapping;
pub mod watermask_mapping;
pub mod colors_topography;
pub mod struct_ops;


