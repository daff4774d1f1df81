//! Run-time checks of what river mapping requires.

use vstd::prelude::*;
use crate::coords::{cell_index, in_map};
use crate::world_constants::{
    is_river_element, NO_RIVER, RIVER_BODY, RIVER_WATERFALL, RIVER_WATERFALLS_MUL, RIVER_SOURCE,
    RIVER_END,
};
use crate::layers::LayerPack;
use crate::river_mapping::types::{RgParams, RiverEntry};
use crate::river_mapping::model::{is_neighbor, valid_path, entry_wf, rg_wf, list_wf, list_elements_known};

verus! {

/// Whether `to` is one of the eight cells around `from`.
pub fn are_neighbors(from: (usize, usize), to: (usize, usize)) -> (r: bool)
    ensures
        r == is_neighbor(from, to),
{
    let close_i = if from.0 <= to.0 {
        to.0 - from.0 <= 1
    } else {
        from.0 - to.0 <= 1
    };
    let close_j = if from.1 <= to.1 {
        to.1 - from.1 <= 1
    } else {
        from.1 - to.1 <= 1
    };
    close_i && close_j && !(from.0 == to.0 && from.1 == to.1)
}

/// Whether cell `p` lies in a map of `map_size` by `map_size` cells.
fn cell_in_map(map_size: usize, p: (usize, usize)) -> (r: bool)
    ensures
        r == in_map(map_size as int, p),
{
    p.0 < map_size && p.1 < map_size
}

/// Whether `path` is a river course in the map (`valid_path`).
pub fn is_valid_path(map_size: usize, path: &Vec<(usize, usize)>) -> (r: bool)
    ensures
        r == valid_path(map_size as int, path@),
{
    let n = path.len();
    if n == 0 {
        return false;
    }
    let mut i: usize = 0;
    while i < n
        invariant
            i <= n,
            n == path@.len(),
            n > 0,
            forall|j: int| 0 <= j < i ==> in_map(map_size as int, #[trigger] path@[j]),
            forall|j: int| 0 <= j < i && j < n - 1 ==> is_neighbor(#[trigger] path@[j], path@[j + 1]),
        decreases n - i,
    {
        if !cell_in_map(map_size, path[i]) {
            return false;
        }
        if i + 1 < n && !are_neighbors(path[i], path[i + 1]) {
            return false;
        }
        i += 1;
    }
    true
}

/// Whether `entry` is a river in the map (`entry_wf`).
pub fn is_valid_entry(map_size: usize, entry: &RiverEntry) -> (r: bool)
    ensures
        r == entry_wf(map_size as int, *entry),
{
    is_valid_path(map_size, &entry.path_array) && cell_in_map(map_size, entry.source) && cell_in_map(
        map_size,
        entry.end,
    )
}

/// Whether the generator state fits the layers and every listed river is in
/// the map: what `map_paths` requires of them besides well-formed layers.
pub fn rivers_ready(rg: &RgParams, lp: &LayerPack) -> (r: bool)
    ensures
        r == (rg_wf(*rg, *lp) && list_wf(rg.xy.map_size as int, rg.rivers_paths.list@)),
{
    let map_size = rg.xy.map_size;
    if map_size != lp.wi.map_size || !cell_in_map(map_size, rg.river_source) {
        return false;
    }
    let list = &rg.rivers_paths.list;
    let n = list.len();
    let mut i: usize = 0;
    while i < n
        invariant
            i <= n,
            n == list@.len(),
            list@ == rg.rivers_paths.list@,
            map_size == rg.xy.map_size,
            rg_wf(*rg, *lp),
            forall|j: int| 0 <= j < i ==> entry_wf(map_size as int, #[trigger] list@[j]),
        decreases n - i,
    {
        if !is_valid_entry(map_size, &list[i]) {
            assert(!entry_wf(map_size as int, list@[i as int]));
            return false;
        }
        i += 1;
    }
    true
}

/// Whether every cell of every listed course holds a known river element:
/// what `map_paths` requires of the rivers layer besides its size.
pub fn river_cells_known(rg: &RgParams, lp: &LayerPack) -> (r: bool)
    requires
        lp.wf(),
        rg.xy.map_size == lp.wi.map_size,
        list_wf(rg.xy.map_size as int, rg.rivers_paths.list@),
    ensures
        r == list_elements_known(rg.xy.map_size as int, lp.rivers.element@, rg.rivers_paths.list@),
{
    let xy = &rg.xy;
    let list = &rg.rivers_paths.list;
    let ghost ms = xy.map_size as int;
    let n = list.len();
    let mut i: usize = 0;
    while i < n
        invariant
            i <= n,
            n == list@.len(),
            list@ == rg.rivers_paths.list@,
            xy == &rg.xy,
            ms == xy.map_size,
            lp.wf(),
            xy.map_size == lp.wi.map_size,
            list_wf(ms, list@),
            forall|a: int, k: int|
                0 <= a < i && 0 <= k < list@[a].path_array@.len() ==> is_river_element(
                    lp.rivers.element@[cell_index(
                        ms,
                        (#[trigger] list@[a].path_array@[k]).0 as int,
                        list@[a].path_array@[k].1 as int,
                    )],
                ),
        decreases n - i,
    {
        let path = &list[i].path_array;
        assert(entry_wf(ms, list@[i as int]));
        let m = path.len();
        let mut k: usize = 0;
        while k < m
            invariant
                i < n,
                k <= m,
                m == path@.len(),
                path@ == list@[i as int].path_array@,
                n == list@.len(),
                list@ == rg.rivers_paths.list@,
                ms == xy.map_size,
                ms == rg.xy.map_size,
                lp.wf(),
                xy.map_size == lp.wi.map_size,
                valid_path(ms, path@),
                forall|j: int|
                    0 <= j < k ==> is_river_element(
                        lp.rivers.element@[cell_index(ms, (#[trigger] path@[j]).0 as int, path@[j].1 as int)],
                    ),
            decreases m - k,
        {
            let (pi, pj) = path[k];
            assert(in_map(ms, path@[k as int]));
            let index = xy.ind(pi, pj);
            let e = lp.rivers.element[index];
            if !(e == NO_RIVER || e == RIVER_BODY || e == RIVER_WATERFALL || e == RIVER_WATERFALLS_MUL
                || e == RIVER_SOURCE || e == RIVER_END) {
                assert(list@[i as int].path_array@[k as int] == path@[k as int]);
                assert(!is_river_element(
                    lp.rivers.element@[cell_index(
                        ms,
                        rg.rivers_paths.list@[i as int].path_array@[k as int].0 as int,
                        rg.rivers_paths.list@[i as int].path_array@[k as int].1 as int,
                    )],
                ));
                return false;
            }
            k += 1;
        }
        assert forall|a: int, k: int|
            0 <= a < i + 1 && 0 <= k < list@[a].path_array@.len() implies is_river_element(
                lp.rivers.element@[cell_index(
                    ms,
                    (#[trigger] list@[a].path_array@[k]).0 as int,
                    list@[a].path_array@[k].1 as int,
                )],
            ) by {
            if a == i {
                assert(path@[k] == list@[a].path_array@[k]);
            }
        }
        i += 1;
    }
    true
}

} // verus!
