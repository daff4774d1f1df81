//! Row-major indexing of a square map.

use vstd::prelude::*;

verus! {

/// Index arithmetic of a square map of `map_size` by `map_size` cells.
pub struct Index {
    pub map_size: usize,
}

/// The flat index of cell `(i, j)`: rows of `map_size` cells, one after another.
pub open spec fn cell_index(map_size: int, i: int, j: int) -> int {
    i * map_size + j
}

/// A cell of a map of `map_size` by `map_size` cells.
pub open spec fn in_map(map_size: int, p: (usize, usize)) -> bool {
    p.0 < map_size && p.1 < map_size
}

/// Cells of the map get distinct indices, all below `map_size * map_size`.
pub proof fn lemma_cell_index_bounds(map_size: int, i: int, j: int)
    requires
        0 <= i < map_size,
        0 <= j < map_size,
    ensures
        0 <= cell_index(map_size, i, j) < map_size * map_size,
        cell_index(map_size, i, j) / map_size == i,
        cell_index(map_size, i, j) % map_size == j,
{
    assert(0 <= i * map_size + j < map_size * map_size) by (nonlinear_arith)
        requires
            0 <= i < map_size,
            0 <= j < map_size,
    ;
    vstd::arithmetic::div_mod::lemma_fundamental_div_mod_converse(
        i * map_size + j,
        map_size,
        i,
        j,
    );
}

impl Index {
    /// Flat index of cell `(i, j)`.
    pub fn ind(&self, i: usize, j: usize) -> (r: usize)
        requires
            i < self.map_size,
            j < self.map_size,
            self.map_size * self.map_size <= usize::MAX,
        ensures
            r == cell_index(self.map_size as int, i as int, j as int),
            r < self.map_size * self.map_size,
    {
        proof {
            lemma_cell_index_bounds(self.map_size as int, i as int, j as int);
        }
        i * self.map_size + j
    }
}

} // verus!
