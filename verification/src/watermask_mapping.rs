//! The water mask: which cells can hold water, and the size class of each
//! body of water.
//!
//! The regions themselves are found by a flood fill over the cells that are
//! not excluded; this module decides which cells are excluded, which cell
//! the next fill starts from, and what a filled region writes.

use vstd::prelude::*;
use crate::world_constants::TEMP_PERM_ICE;

verus! {

/// A cell stays dry: it is frozen for good, or it lies above the water level.
pub open spec fn is_dry_or_ice(abs_elevation: usize, abs_temperature: isize, waterlevel: usize) -> bool {
    abs_temperature <= TEMP_PERM_ICE || abs_elevation > waterlevel
}

/// Every cell at or below `TEMP_PERM_ICE`, and every cell above the water
/// level, stays dry; a cell warmer than that and at or below the water level
/// can hold water. So a colder or a higher cell is dry whenever one at the
/// same elevation or temperature is.
pub proof fn lemma_dry_or_ice_cells(
    elevation: usize,
    temperature: isize,
    colder: isize,
    higher: usize,
    waterlevel: usize,
)
    requires
        colder <= temperature,
        higher >= elevation,
    ensures
        temperature <= TEMP_PERM_ICE ==> is_dry_or_ice(elevation, temperature, waterlevel),
        elevation > waterlevel ==> is_dry_or_ice(elevation, temperature, waterlevel),
        temperature > TEMP_PERM_ICE && elevation <= waterlevel ==> !is_dry_or_ice(
            elevation,
            temperature,
            waterlevel,
        ),
        is_dry_or_ice(elevation, temperature, waterlevel) ==> is_dry_or_ice(elevation, colder, waterlevel),
        is_dry_or_ice(elevation, temperature, waterlevel) ==> is_dry_or_ice(higher, temperature, waterlevel),
{
}

/// Excludes from filling every cell that is frozen or above the water level;
/// cells already excluded stay so.
pub fn exclude_dry_and_ice(
    exclusion_map: &mut Vec<bool>,
    abs_elevation: &Vec<usize>,
    abs_temperature: &Vec<isize>,
    waterlevel: usize,
)
    requires
        abs_elevation@.len() == old(exclusion_map)@.len(),
        abs_temperature@.len() == old(exclusion_map)@.len(),
    ensures
        final(exclusion_map)@.len() == old(exclusion_map)@.len(),
        forall|i: int|
            0 <= i < old(exclusion_map)@.len() ==> #[trigger] final(exclusion_map)@[i] == (old(
                exclusion_map,
            )@[i] || is_dry_or_ice(abs_elevation@[i], abs_temperature@[i], waterlevel)),
        forall|i: int|
            0 <= i < old(exclusion_map)@.len() && abs_temperature@[i] <= TEMP_PERM_ICE
                ==> #[trigger] final(exclusion_map)@[i],
        forall|i: int|
            0 <= i < old(exclusion_map)@.len() && abs_elevation@[i] > waterlevel
                ==> #[trigger] final(exclusion_map)@[i],
        forall|i: int|
            0 <= i < old(exclusion_map)@.len() && !old(exclusion_map)@[i] && abs_temperature@[i]
                > TEMP_PERM_ICE && abs_elevation@[i] <= waterlevel ==> !#[trigger] final(exclusion_map)@[i],
{
    let n = exclusion_map.len();
    let mut index: usize = 0;
    while index < n
        invariant
            index <= n,
            n == old(exclusion_map)@.len(),
            exclusion_map@.len() == n,
            abs_elevation@.len() == n,
            abs_temperature@.len() == n,
            forall|i: int|
                0 <= i < index ==> #[trigger] exclusion_map@[i] == (old(exclusion_map)@[i]
                    || is_dry_or_ice(abs_elevation@[i], abs_temperature@[i], waterlevel)),
            forall|i: int| index <= i < n ==> #[trigger] exclusion_map@[i] == old(exclusion_map)@[i],
        decreases n - index,
    {
        if abs_temperature[index] <= TEMP_PERM_ICE {
            exclusion_map.set(index, true);
        }
        if abs_elevation[index] > waterlevel {
            exclusion_map.set(index, true);
        }
        index += 1;
    }
}

/// The first cell at or after `from` that is not excluded, if there is one.
pub fn next_unexcluded(exclusion_map: &Vec<bool>, from: usize) -> (r: Option<usize>)
    ensures
        match r {
            Some(i) => {
                &&& from <= i < exclusion_map@.len()
                &&& !exclusion_map@[i as int]
                &&& forall|j: int| from <= j < i ==> #[trigger] exclusion_map@[j]
            },
            None => forall|j: int| from <= j < exclusion_map@.len() ==> #[trigger] exclusion_map@[j],
        },
{
    let n = exclusion_map.len();
    let mut index = from;
    while index < n
        invariant
            n == exclusion_map@.len(),
            from <= index,
            forall|j: int| from <= j < index ==> #[trigger] exclusion_map@[j],
        decreases n - index,
    {
        if !exclusion_map[index] {
            return Some(index);
        }
        index += 1;
    }
    None
}

/// Cell `index` of a map `map_size` cells wide lies in the box of rows
/// `x_min..=x_max` and columns `y_min..=y_max`.
pub open spec fn in_box(map_size: int, index: int, x_min: int, x_max: int, y_min: int, y_max: int) -> bool {
    &&& x_min <= index / map_size <= x_max
    &&& y_min <= index % map_size <= y_max
}

/// The box holds exactly the cells `(x, y)` of the map with
/// `x_min <= x <= x_max` and `y_min <= y <= y_max`; a box one row or one
/// column wide holds that row or column.
pub proof fn lemma_in_box_cells(map_size: int, x: int, y: int, x_min: int, x_max: int, y_min: int, y_max: int)
    requires
        0 <= x < map_size,
        0 <= y < map_size,
    ensures
        in_box(map_size, x * map_size + y, x_min, x_max, y_min, y_max) <==> (x_min <= x <= x_max
            && y_min <= y <= y_max),
{
    crate::coords::lemma_cell_index_bounds(map_size, x, y);
}

/// Writes `val` into the water mask at every cell of the region that lies in
/// its bounding box `x_min..=x_max` by `y_min..=y_max`.
pub fn write_map(
    watermask: &mut Vec<u16>,
    region_map: &Vec<bool>,
    map_size: usize,
    x_min: usize,
    x_max: usize,
    y_min: usize,
    y_max: usize,
    val: u16,
)
    requires
        old(watermask)@.len() == map_size * map_size,
        region_map@.len() == map_size * map_size,
        x_max < map_size,
        y_max < map_size,
    ensures
        final(watermask)@.len() == old(watermask)@.len(),
        forall|i: int|
            0 <= i < old(watermask)@.len() ==> #[trigger] final(watermask)@[i] == if in_box(
                map_size as int,
                i,
                x_min as int,
                x_max as int,
                y_min as int,
                y_max as int,
            ) && region_map@[i] {
                val
            } else {
                old(watermask)@[i]
            },
        forall|x: int, y: int|
            #![trigger region_map@[x * map_size + y]]
            x_min <= x <= x_max && y_min <= y <= y_max && region_map@[x * map_size + y]
                ==> final(watermask)@[x * map_size + y] == val,
{
    let xy = crate::coords::Index { map_size };
    let ghost ms = map_size as int;
    let ghost w0 = watermask@;
    let cells: usize = watermask.len();
    assert(ms * ms == cells);
    if x_min > x_max || y_min > y_max {
        // An empty box
        return ;
    }
    let mut x = x_min;
    while x <= x_max
        invariant
            x_min <= x,
            x <= x_max + 1,
            x_max < map_size,
            y_max < map_size,
            xy.map_size == map_size,
            ms * ms <= usize::MAX,
            ms == map_size as int,
            y_min <= y_max,
            watermask@.len() == ms * ms,
            region_map@.len() == ms * ms,
            w0 == old(watermask)@,
            forall|i: int|
                0 <= i < ms * ms ==> #[trigger] watermask@[i] == if in_box(
                    ms,
                    i,
                    x_min as int,
                    x - 1,
                    y_min as int,
                    y_max as int,
                ) && region_map@[i] {
                    val
                } else {
                    w0[i]
                },
        decreases x_max + 1 - x,
    {
        let mut y = y_min;
        while y <= y_max
            invariant
                x_min <= x <= x_max,
                y_min <= y,
                y <= y_max + 1,
                x_max < map_size,
                y_max < map_size,
                xy.map_size == map_size,
                ms * ms <= usize::MAX,
                ms == map_size as int,
                watermask@.len() == ms * ms,
                region_map@.len() == ms * ms,
                w0 == old(watermask)@,
                forall|i: int|
                    0 <= i < ms * ms ==> #[trigger] watermask@[i] == if (in_box(
                        ms,
                        i,
                        x_min as int,
                        x - 1,
                        y_min as int,
                        y_max as int,
                    ) || in_box(ms, i, x as int, x as int, y_min as int, y - 1))
                        && region_map@[i] {
                        val
                    } else {
                        w0[i]
                    },
            decreases y_max + 1 - y,
        {
            let index = xy.ind(x, y);
            proof {
                crate::coords::lemma_cell_index_bounds(ms, x as int, y as int);
            }
            if region_map[index] {
                watermask.set(index, val);
            }
            proof {
                assert forall|i: int| 0 <= i < ms * ms implies #[trigger] watermask@[i] == if (in_box(
                    ms,
                    i,
                    x_min as int,
                    x - 1,
                    y_min as int,
                    y_max as int,
                ) || in_box(ms, i, x as int, x as int, y_min as int, y as int))
                    && region_map@[i] {
                    val
                } else {
                    w0[i]
                } by {
                    if i != index {
                        assert(!(i / ms == x && i % ms == y)) by {
                            vstd::arithmetic::div_mod::lemma_fundamental_div_mod(i, ms);
                        }
                    }
                }
            }
            y += 1;
        }
        proof {
            assert forall|i: int| 0 <= i < ms * ms implies (in_box(
                ms,
                i,
                x_min as int,
                x - 1,
                y_min as int,
                y_max as int,
            ) || in_box(ms, i, x as int, x as int, y_min as int, y - 1)) == in_box(
                ms,
                i,
                x_min as int,
                x as int,
                y_min as int,
                y_max as int,
            ) by {}
        }
        x += 1;
    }
    proof {
        assert forall|x: int, y: int|
            #![trigger region_map@[x * map_size + y]]
            x_min <= x <= x_max && y_min <= y <= y_max && region_map@[x * map_size + y]
                implies watermask@[x * map_size + y] == val by {
            lemma_in_box_cells(ms, x, y, x_min as int, x_max as int, y_min as int, y_max as int);
            crate::coords::lemma_cell_index_bounds(ms, x, y);
        }
    }
}

} // verus!
