//! What mapping rivers does to the layers, stated over sequences.

use vstd::prelude::*;
use crate::coords::{cell_index, in_map};
use crate::layers::LayerPack;
use crate::world_constants::{is_river_element, NO_RIVER, RIVER_BODY, RIVER_WATERFALL, RIVER_WATERFALLS_MUL, RIVER_SOURCE, RIVER_END, NO_WATER, RIVER_WIDTH_ORDER_MAX, TEMP_POLAR};
use crate::river_mapping::types::{WidthEntry, ErosionEntry, RiverEntry, RgParams};

verus! {

// ------------------------------------------------------------------
// Neighbour directions
// ------------------------------------------------------------------

/// `to` is one of the eight cells around `from`.
pub open spec fn is_neighbor(from: (usize, usize), to: (usize, usize)) -> bool {
    &&& -1 <= to.0 - from.0 <= 1
    &&& -1 <= to.1 - from.1 <= 1
    &&& !(to.0 == from.0 && to.1 == from.1)
}

/// The direction code of a step `(di, dj)`: 0 is north (`+i`), then clockwise
/// through north-east, east (`+j`), south-east, south, south-west, west and
/// north-west (7).
pub open spec fn direction_code(di: int, dj: int) -> u16 {
    if di == 1 && dj == 0 {
        0
    } else if di == 1 && dj == 1 {
        1
    } else if di == 0 && dj == 1 {
        2
    } else if di == -1 && dj == 1 {
        3
    } else if di == -1 && dj == 0 {
        4
    } else if di == -1 && dj == -1 {
        5
    } else if di == 0 && dj == -1 {
        6
    } else {
        7
    }
}

/// The direction code of the step from `from` to `to`.
pub open spec fn neighbor_direction(from: (usize, usize), to: (usize, usize)) -> u16 {
    direction_code(to.0 - from.0, to.1 - from.1)
}

// ------------------------------------------------------------------
// Well-formed inputs
// ------------------------------------------------------------------

/// A river course: at least one cell, all in the map, each cell next to the one before.
pub open spec fn valid_path(map_size: int, path: Seq<(usize, usize)>) -> bool {
    &&& path.len() > 0
    &&& forall|i: int| 0 <= i < path.len() ==> in_map(map_size, #[trigger] path[i])
    &&& forall|i: int| 0 <= i < path.len() - 1 ==> is_neighbor(#[trigger] path[i], path[i + 1])
}

/// A river entry whose course and ends lie in the map.
pub open spec fn entry_wf(map_size: int, entry: RiverEntry) -> bool {
    &&& valid_path(map_size, entry.path_array@)
    &&& in_map(map_size, entry.source)
    &&& in_map(map_size, entry.end)
}

/// The generator state fits the layers: same map, and the current river's
/// source (which the next river marks) in the map.
pub open spec fn rg_wf(rg: RgParams, lp: LayerPack) -> bool {
    &&& rg.xy.map_size == lp.wi.map_size
    &&& in_map(rg.xy.map_size as int, rg.river_source)
}

/// Every listed river is well formed.
pub open spec fn list_wf(map_size: int, list: Seq<RiverEntry>) -> bool {
    forall|i: int| 0 <= i < list.len() ==> entry_wf(map_size, #[trigger] list[i])
}

// ------------------------------------------------------------------
// The state that mapping changes
// ------------------------------------------------------------------

/// The part of the layers and of the generator that mapping writes.
#[verifier::ext_equal]
pub struct RiverState {
    pub element: Seq<u16>,
    pub width: Seq<u16>,
    pub upstream: Seq<u16>,
    pub downstream: Seq<u16>,
    pub ids: Seq<u16>,
    pub width_queue: Seq<WidthEntry>,
    pub erosion_queue: Seq<ErosionEntry>,
    pub upstream_neighbor: (usize, usize),
}

pub open spec fn river_state(rg: RgParams, lp: LayerPack) -> RiverState {
    RiverState {
        element: lp.rivers.element@,
        width: lp.rivers.width@,
        upstream: lp.rivers.upstream@,
        downstream: lp.rivers.downstream@,
        ids: lp.rivers_id@,
        width_queue: rg.rivers_paths.width_queue@,
        erosion_queue: rg.rivers_paths.erosion_queue@,
        upstream_neighbor: rg.upstream_neighbor,
    }
}

/// The river state together with the river currently being mapped.
#[verifier::ext_equal]
pub struct MappingState {
    pub rivers: RiverState,
    pub river_id: u16,
    pub river_width: u16,
    pub river_source: (usize, usize),
    pub river_end: (usize, usize),
}

pub open spec fn mapping_state(rg: RgParams, lp: LayerPack) -> MappingState {
    MappingState {
        rivers: river_state(rg, lp),
        river_id: rg.river_id,
        river_width: rg.river_width,
        river_source: rg.river_source,
        river_end: rg.river_end,
    }
}

/// What mapping reads and never writes.
pub struct MapEnv {
    pub map_size: int,
    pub terrain: Seq<u16>,
    pub watermask: Seq<u16>,
    pub temperature: Seq<isize>,
    pub pool_pow: u16,
    pub min_length: int,
}

pub open spec fn map_env(rg: RgParams, lp: LayerPack) -> MapEnv {
    MapEnv {
        map_size: rg.xy.map_size as int,
        terrain: lp.topography.terrain@,
        watermask: lp.topography.watermask@,
        temperature: lp.climate.abs_temperature@,
        pool_pow: lp.wi.river_sink_min_pool_size_pow,
        min_length: lp.wi.river_min_length as int,
    }
}

/// Everything outside the river state, and the layers' sizes, are as before.
pub open spec fn keeps_frame(rg0: RgParams, lp0: LayerPack, rg1: RgParams, lp1: LayerPack) -> bool {
    &&& lp1.wi == lp0.wi
    &&& lp1.layer_vec_len == lp0.layer_vec_len
    &&& lp1.topography.terrain@ == lp0.topography.terrain@
    &&& lp1.topography.watermask@ == lp0.topography.watermask@
    &&& lp1.climate.abs_temperature@ == lp0.climate.abs_temperature@
    &&& lp1.rivers.element@.len() == lp0.rivers.element@.len()
    &&& lp1.rivers.width@.len() == lp0.rivers.width@.len()
    &&& lp1.rivers.upstream@.len() == lp0.rivers.upstream@.len()
    &&& lp1.rivers.downstream@.len() == lp0.rivers.downstream@.len()
    &&& lp1.rivers_id@.len() == lp0.rivers_id@.len()
    &&& rg1.xy == rg0.xy
    &&& rg1.rivers_paths.list@ == rg0.rivers_paths.list@
}

/// As `keeps_frame`, and the current river is the same.
pub open spec fn keeps_river(rg0: RgParams, lp0: LayerPack, rg1: RgParams, lp1: LayerPack) -> bool {
    &&& keeps_frame(rg0, lp0, rg1, lp1)
    &&& rg1.river_id == rg0.river_id
    &&& rg1.river_width == rg0.river_width
    &&& rg1.river_source == rg0.river_source
    &&& rg1.river_end == rg0.river_end
}

// ------------------------------------------------------------------
// Single writes
// ------------------------------------------------------------------

/// Cell `c` becomes river body of river `id` with width `width`, and cell
/// `src` a river source.
pub open spec fn mark_course(s: RiverState, c: int, src: int, id: u16, width: u16) -> RiverState {
    RiverState {
        element: s.element.update(c, RIVER_BODY).update(src, RIVER_SOURCE),
        ids: s.ids.update(c, id),
        width: s.width.update(c, width),
        ..s
    }
}

/// The width last queued for river `id`, if any.
pub open spec fn last_queued_width(queue: Seq<WidthEntry>, id: u16) -> Option<u16>
    decreases queue.len(),
{
    if queue.len() == 0 {
        None
    } else if queue.last().river_id_downstr == id {
        Some(queue.last().width_new)
    } else {
        last_queued_width(queue.drop_last(), id)
    }
}

/// The width that the river at `d` is to take: one more than the width last
/// queued for it, or than its own width if none is queued, and at most
/// `RIVER_WIDTH_ORDER_MAX`.
pub open spec fn next_width(s: RiverState, d: int) -> u16 {
    let last = match last_queued_width(s.width_queue, s.ids[d]) {
        Some(w) => w,
        None => s.width[d],
    };
    if last + 1 > RIVER_WIDTH_ORDER_MAX {
        RIVER_WIDTH_ORDER_MAX
    } else {
        (last + 1) as u16
    }
}

/// Queue the next width for the river at `d`.
pub open spec fn queue_width(s: RiverState, d: int) -> RiverState {
    RiverState {
        width_queue: s.width_queue.push(WidthEntry { river_id_downstr: s.ids[d], width_new: next_width(s, d) }),
        ..s
    }
}

/// Queue the rise of the terrain from `c` to `d` for the river at `d`,
/// unless the terrain falls.
pub open spec fn queue_erosion(s: RiverState, terrain: Seq<u16>, c: int, d: int) -> RiverState {
    if terrain[d] < terrain[c] {
        s
    } else {
        RiverState {
            erosion_queue: s.erosion_queue.push(
                ErosionEntry { river_id_downstr: s.ids[d], terrain_diff: (terrain[d] - terrain[c]) as u16 },
            ),
            ..s
        }
    }
}

/// A river at `c` that flows into another river at `d`.
pub open spec fn mark_crossing(
    s: RiverState,
    terrain: Seq<u16>,
    c: int,
    src: int,
    d: int,
    id: u16,
    width: u16,
) -> RiverState {
    queue_erosion(queue_width(mark_course(s, c, src, id, width), d), terrain, c, d)
}

// ------------------------------------------------------------------
// Mapping one river
// ------------------------------------------------------------------

/// The fixed facts while one river is mapped.
pub struct RunContext {
    pub env: MapEnv,
    pub river_id: u16,
    pub river_width: u16,
    /// Index of the source cell that is marked (the source of the river mapped before).
    pub source_index: int,
    /// The river's end cell.
    pub end: (usize, usize),
    pub path: Seq<(usize, usize)>,
}

pub open spec fn num_windows(ctx: RunContext) -> int {
    ctx.path.len() - 1
}

pub open spec fn cur_index(ctx: RunContext, k: int) -> int {
    cell_index(ctx.env.map_size, ctx.path[k].0 as int, ctx.path[k].1 as int)
}

pub open spec fn down_index(ctx: RunContext, k: int) -> int {
    cell_index(ctx.env.map_size, ctx.path[k + 1].0 as int, ctx.path[k + 1].1 as int)
}

/// The river stops at step `k` before writing anything: the cell is frozen,
/// is a large enough sink, or the river would start on another river.
pub open spec fn halts_at_cell(ctx: RunContext, s: RiverState, k: int) -> bool {
    let c = cur_index(ctx, k);
    ||| ctx.env.temperature[c] <= TEMP_POLAR
    ||| ctx.env.watermask[c] > ctx.env.pool_pow
    ||| (s.element[c] != NO_RIVER && k == 0)
}

/// River elements that a river can flow into and stop at.
pub open spec fn is_crossable(e: u16) -> bool {
    e == RIVER_BODY || e == RIVER_WATERFALL || e == RIVER_WATERFALLS_MUL || e == RIVER_SOURCE
}

/// Step `k` flows into a river with another id.
pub open spec fn meets_other_river(ctx: RunContext, s: RiverState, k: int) -> bool {
    let d = down_index(ctx, k);
    is_crossable(s.element[d]) && ctx.river_id != s.ids[d]
}

/// The number of steps the river would take on the unchanged layers,
/// counting from step `k`: up to and including the first step at which it
/// stops, or all steps.
pub open spec fn survey_length(ctx: RunContext, s: RiverState, k: int) -> int
    decreases num_windows(ctx) - k,
{
    if k < 0 || k >= num_windows(ctx) {
        num_windows(ctx)
    } else if halts_at_cell(ctx, s, k) || meets_other_river(ctx, s, k) {
        k + 1
    } else {
        survey_length(ctx, s, k + 1)
    }
}

/// The downstream direction of step `k` is recorded at its cell.
pub open spec fn mark_downstream(ctx: RunContext, s: RiverState, k: int) -> RiverState {
    RiverState {
        downstream: s.downstream.update(cur_index(ctx, k), neighbor_direction(ctx.path[k], ctx.path[k + 1])),
        ..s
    }
}

/// Step `k` of the river: the state after it, and whether the river stops there.
pub open spec fn step(ctx: RunContext, s: RiverState, k: int) -> (RiverState, bool) {
    let c = cur_index(ctx, k);
    let d = down_index(ctx, k);
    if halts_at_cell(ctx, s, k) {
        (s, true)
    } else {
        let s1 = if k > 0 {
            RiverState {
                upstream: s.upstream.update(c, neighbor_direction(ctx.path[k], ctx.path[k - 1])),
                ..s
            }
        } else {
            s
        };
        let s2 = RiverState { upstream_neighbor: ctx.path[k], ..s1 };
        let e = s.element[d];
        if e == NO_RIVER {
            let s3 = mark_downstream(
                ctx,
                mark_course(s2, c, ctx.source_index, ctx.river_id, ctx.river_width),
                k,
            );
            if ctx.env.watermask[d] == NO_WATER && ctx.path[k + 1] == ctx.end {
                (RiverState { element: s3.element.update(d, RIVER_BODY), ..s3 }, false)
            } else {
                (s3, false)
            }
        } else if e == RIVER_END {
            (
                mark_downstream(
                    ctx,
                    mark_course(s2, c, ctx.source_index, ctx.river_id, ctx.river_width),
                    k,
                ),
                false,
            )
        } else {
            let s3 = mark_crossing(
                s2,
                ctx.env.terrain,
                c,
                ctx.source_index,
                d,
                ctx.river_id,
                ctx.river_width,
            );
            let falls = ctx.env.terrain[d] < ctx.env.terrain[c];
            let s4 = if e == RIVER_BODY && falls {
                RiverState { element: s3.element.update(d, RIVER_WATERFALL), ..s3 }
            } else if e == RIVER_WATERFALL && falls {
                RiverState { element: s3.element.update(d, RIVER_WATERFALLS_MUL), ..s3 }
            } else {
                s3
            };
            (s4, ctx.river_id != s.ids[d])
        }
    }
}

/// The state after the steps from `k` on, up to the one at which the river stops.
pub open spec fn run(ctx: RunContext, s: RiverState, k: int) -> RiverState
    decreases num_windows(ctx) - k,
{
    if k < 0 || k >= num_windows(ctx) {
        s
    } else {
        let (s1, stop) = step(ctx, s, k);
        if stop {
            s1
        } else {
            run(ctx, s1, k + 1)
        }
    }
}

// ------------------------------------------------------------------
// Inputs on which mapping returns normally
// ------------------------------------------------------------------

/// Both cells of step `k` lie in the map.
pub open spec fn step_in_map(ctx: RunContext, k: int) -> bool {
    in_map(ctx.env.map_size, ctx.path[k]) && in_map(ctx.env.map_size, ctx.path[k + 1])
}

/// The first pass, from step `k` on, reads only cells in the map and finds
/// a known river element downstream wherever it looks at one.
pub open spec fn survey_ok(ctx: RunContext, s: RiverState, k: int) -> bool
    decreases num_windows(ctx) - k,
{
    if k < 0 || k >= num_windows(ctx) {
        true
    } else if !step_in_map(ctx, k) {
        false
    } else if halts_at_cell(ctx, s, k) {
        true
    } else if !is_river_element(s.element[down_index(ctx, k)]) {
        false
    } else if meets_other_river(ctx, s, k) {
        true
    } else {
        survey_ok(ctx, s, k + 1)
    }
}

/// Step `k` reads only cells in the map, finds a known river element
/// downstream, and takes directions only between neighbouring cells.
pub open spec fn step_ok(ctx: RunContext, s: RiverState, k: int) -> bool {
    let e = s.element[down_index(ctx, k)];
    &&& step_in_map(ctx, k)
    &&& !halts_at_cell(ctx, s, k) ==> {
        &&& k > 0 ==> is_neighbor(ctx.path[k], ctx.path[k - 1])
        &&& is_river_element(e)
        &&& (e == NO_RIVER || e == RIVER_END) ==> is_neighbor(ctx.path[k], ctx.path[k + 1])
    }
}

/// Every step from `k` on that mapping reaches is `step_ok`.
pub open spec fn run_ok(ctx: RunContext, s: RiverState, k: int) -> bool
    decreases num_windows(ctx) - k,
{
    if k < 0 || k >= num_windows(ctx) {
        true
    } else if !step_ok(ctx, s, k) {
        false
    } else {
        let (s1, stop) = step(ctx, s, k);
        stop || run_ok(ctx, s1, k + 1)
    }
}

/// Mapping river `entry` after the river of `m` returns normally: the
/// course has a first cell in the map, and both passes stay within what
/// they can read.
pub open spec fn map_river_ok(env: MapEnv, m: MappingState, entry: RiverEntry) -> bool {
    let ctx = run_context(env, m, entry);
    &&& entry.path_array@.len() > 0
    &&& in_map(env.map_size, entry.path_array@[0])
    &&& survey_ok(ctx, m.rivers, 0)
    &&& survey_length(ctx, m.rivers, 0) > env.min_length ==> run_ok(
        ctx,
        RiverState {
            erosion_queue: m.rivers.erosion_queue.push(
                ErosionEntry { river_id_downstr: entry.river_id, terrain_diff: 0 },
            ),
            ..m.rivers
        },
        0,
    )
}

/// Every cell of every listed course holds a known river element.
pub open spec fn list_elements_known(map_size: int, element: Seq<u16>, list: Seq<RiverEntry>) -> bool {
    forall|i: int, k: int|
        0 <= i < list.len() && 0 <= k < list[i].path_array@.len() ==> is_river_element(
            element[cell_index(
                map_size,
                (#[trigger] list[i].path_array@[k]).0 as int,
                list[i].path_array@[k].1 as int,
            )],
        )
}

/// The context for mapping `entry` after the river of `m`.
pub open spec fn run_context(env: MapEnv, m: MappingState, entry: RiverEntry) -> RunContext {
    RunContext {
        env,
        river_id: entry.river_id,
        river_width: entry.width,
        source_index: cell_index(env.map_size, m.river_source.0 as int, m.river_source.1 as int),
        end: entry.end,
        path: entry.path_array@,
    }
}

/// Mapping river `entry`: it becomes the current river; if it is longer than
/// the minimum length, an erosion entry of height 0 is queued for it and its
/// steps are mapped.
pub open spec fn map_river(env: MapEnv, m: MappingState, entry: RiverEntry) -> MappingState {
    let ctx = run_context(env, m, entry);
    let rivers = if survey_length(ctx, m.rivers, 0) <= env.min_length {
        m.rivers
    } else {
        run(
            ctx,
            RiverState {
                erosion_queue: m.rivers.erosion_queue.push(
                    ErosionEntry { river_id_downstr: entry.river_id, terrain_diff: 0 },
                ),
                ..m.rivers
            },
            0,
        )
    };
    MappingState {
        rivers,
        river_id: entry.river_id,
        river_width: entry.width,
        river_source: entry.source,
        river_end: entry.end,
    }
}

/// Mapping `entries[n - 1]`, then `entries[n - 2]`, down to `entries[0]`.
pub open spec fn map_from_back(env: MapEnv, m: MappingState, entries: Seq<RiverEntry>, n: int) -> MappingState
    decreases n,
{
    if n <= 0 {
        m
    } else {
        map_from_back(env, map_river(env, m, entries[n - 1]), entries, n - 1)
    }
}

} // verus!
