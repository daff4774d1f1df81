//! River bookkeeping of the generator.

use vstd::prelude::*;
use crate::coords::Index;

verus! {

/// A width that a downstream river is to take, queued for later.
#[derive(Clone, Copy, Debug, PartialEq, Eq, Structural)]
pub struct WidthEntry {
    pub river_id_downstr: u16,
    pub width_new: u16,
}

/// A terrain difference along a river, queued for later erosion.
#[derive(Clone, Copy, Debug, PartialEq, Eq, Structural)]
pub struct ErosionEntry {
    pub river_id_downstr: u16,
    pub terrain_diff: u16,
}

/// A river as found by the path search: its id, width, ends and the
/// cells of its course from source to end.
pub struct RiverEntry {
    pub river_id: u16,
    pub width: u16,
    pub source: (usize, usize),
    pub end: (usize, usize),
    pub path_array: Vec<(usize, usize)>,
}

/// The rivers found, and the queues that mapping fills.
pub struct RiversPaths {
    pub list: Vec<RiverEntry>,
    pub width_queue: Vec<WidthEntry>,
    pub erosion_queue: Vec<ErosionEntry>,
}

/// State of the river generator.
pub struct RgParams {
    pub xy: Index,
    pub rivers_paths: RiversPaths,
    /// The river being mapped.
    pub river_id: u16,
    pub river_width: u16,
    pub river_source: (usize, usize),
    pub river_end: (usize, usize),
    /// The last cell of the current river that was mapped.
    pub upstream_neighbor: (usize, usize),
}

} // verus!
