//! The world layers that river and water-mask mapping read and write.
//!
//! Each mask of a layer is held as its own vector with one value per cell,
//! indexed by `coords::cell_index`.

use vstd::prelude::*;

verus! {

/// World settings that mapping reads.
pub struct WorldInfo {
    /// Cells per side of the square map.
    pub map_size: usize,
    /// A river of at most this many steps is not mapped.
    pub river_min_length: usize,
    /// A river stops at a sink whose water-mask value exceeds this.
    pub river_sink_min_pool_size_pow: u16,
    /// Absolute elevation above which land stays dry.
    pub waterlevel: usize,
    /// Absolute elevation of the lowest and the highest terrain value.
    pub abs_elev_min: isize,
    pub abs_elev_max: isize,
    /// Absolute temperature of the lowest and the highest climate value.
    pub abs_temp_min: isize,
    pub abs_temp_max: isize,
}

/// Terrain elevation and water mask.
pub struct Topography {
    pub terrain: Vec<u16>,
    pub watermask: Vec<u16>,
}

/// Climate, as absolute temperature (degrees) per cell.
pub struct Climate {
    pub abs_temperature: Vec<isize>,
}

/// The rivers layer: element kind, width order and the neighbour
/// directions upstream and downstream of each river cell.
pub struct Rivers {
    pub element: Vec<u16>,
    pub width: Vec<u16>,
    pub upstream: Vec<u16>,
    pub downstream: Vec<u16>,
}

/// All layers of a world.
pub struct LayerPack {
    pub wi: WorldInfo,
    pub layer_vec_len: usize,
    pub topography: Topography,
    pub climate: Climate,
    pub rivers: Rivers,
    /// Id of the river that runs through each cell.
    pub rivers_id: Vec<u16>,
}

impl LayerPack {
    /// Every layer covers the whole map.
    pub open spec fn wf(&self) -> bool {
        &&& self.layer_vec_len == self.wi.map_size * self.wi.map_size
        &&& self.topography.terrain@.len() == self.layer_vec_len
        &&& self.topography.watermask@.len() == self.layer_vec_len
        &&& self.climate.abs_temperature@.len() == self.layer_vec_len
        &&& self.rivers.element@.len() == self.layer_vec_len
        &&& self.rivers.width@.len() == self.layer_vec_len
        &&& self.rivers.upstream@.len() == self.layer_vec_len
        &&& self.rivers.downstream@.len() == self.layer_vec_len
        &&& self.rivers_id@.len() == self.layer_vec_len
    }

    /// Whether the layers are well formed (`wf`).
    pub fn is_wf(&self) -> (r: bool)
        ensures
            r == self.wf(),
    {
        let n = self.layer_vec_len;
        match self.wi.map_size.checked_mul(self.wi.map_size) {
            Some(cells) => {
                if cells != n {
                    return false;
                }
            },
            None => {
                return false;
            },
        }
        if self.topography.terrain.len() != n || self.topography.watermask.len() != n
            || self.climate.abs_temperature.len() != n || self.rivers.element.len() != n
            || self.rivers.width.len() != n || self.rivers.upstream.len() != n
            || self.rivers.downstream.len() != n || self.rivers_id.len() != n {
            return false;
        }
        true
    }
}

} // verus!
