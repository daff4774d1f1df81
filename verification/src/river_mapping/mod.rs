//! Mapping of river paths onto the rivers layer.
//!
//! `types` holds the generator's river bookkeeping, `model` says in spec
//! terms what mapping a river does to the layers, `mapping_ops` does it, and
//! `laws` proves what holds of every mapping.

pub mod types;
pub mod model;
pub mod mapping_ops;
pub mod laws;
pub mod checks;
