//! Codes and limits shared by the world layers.

use vstd::prelude::*;

verus! {

/// River element codes stored in the rivers layer.
pub const NO_RIVER: u16 = 0;
pub const RIVER_BODY: u16 = 1;
pub const RIVER_WATERFALL: u16 = 2;
pub const RIVER_WATERFALLS_MUL: u16 = 3;
pub const RIVER_SOURCE: u16 = 4;
pub const RIVER_END: u16 = 5;

/// Water-mask value of a cell that holds no water.
pub const NO_WATER: u16 = 0;

/// Largest width order a river can grow to.
pub const RIVER_WIDTH_ORDER_MAX: u16 = 12;

/// Temperature (degrees) at or below which a river freezes and stops.
pub const TEMP_POLAR: isize = -10;

/// Temperature (degrees) at or below which water is permanent ice.
pub const TEMP_PERM_ICE: isize = -20;

/// A value the rivers layer may hold in its element mask.
pub open spec fn is_river_element(e: u16) -> bool {
    e == NO_RIVER || e == RIVER_BODY || e == RIVER_WATERFALL || e == RIVER_WATERFALLS_MUL
        || e == RIVER_SOURCE || e == RIVER_END
}

} // verus!
