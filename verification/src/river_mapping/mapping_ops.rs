//! Mapping the river paths onto the rivers layer.

use vstd::prelude::*;
use crate::layers::LayerPack;
use crate::world_constants::{NO_RIVER, RIVER_BODY, RIVER_WATERFALL, RIVER_WATERFALLS_MUL, RIVER_SOURCE, RIVER_END, NO_WATER, RIVER_WIDTH_ORDER_MAX, TEMP_POLAR};
use crate::coords::in_map;
use crate::river_mapping::laws::{lemma_entry_maps_normally, lemma_map_river_keeps_list_known};
use crate::river_mapping::types::{WidthEntry, ErosionEntry, RiverEntry, RgParams};
use crate::river_mapping::model::{last_queued_width, map_river_ok, list_elements_known, run_ok, survey_ok, is_neighbor, neighbor_direction, RiverState, river_state, keeps_river, keeps_frame, mark_course, mark_crossing, queue_width, queue_erosion, mapping_state, map_env, rg_wf, list_wf, RunContext, run_context, survey_length, run, step, map_river, map_from_back, num_windows};

verus! {

/// `b - a` for two coordinates at most one apart.
fn coordinate_step(a: usize, b: usize) -> (d: i8)
    requires
        -1 <= b - a <= 1,
    ensures
        d == b - a,
{
    if b == a {
        0
    } else if b > a {
        1
    } else {
        -1
    }
}

/// The direction code of the step from cell `(i0, j0)` to its neighbour `(i1, j1)`.
pub fn neighbor_flag(i0: usize, j0: usize, i1: usize, j1: usize) -> (r: u16)
    requires
        is_neighbor((i0, j0), (i1, j1)),
    ensures
        r == neighbor_direction((i0, j0), (i1, j1)),
        r < 8,
{
    let di = coordinate_step(i0, i1);
    let dj = coordinate_step(j0, j1);
    match (di, dj) {
        (1, 0) => 0,  // N
        (1, 1) => 1,  // NE
        (0, 1) => 2,  // E
        (-1, 1) => 3,  // SE
        (-1, 0) => 4,  // S
        (-1, -1) => 5,  // SW
        (0, -1) => 6,  // W
        _ => 7,  // NW: (1, -1), the one step left
    }
}

/// Marks cell `index_current` as body of the current river, with its id and
/// width, and cell `index_source` as a river source.
pub fn sort_uninterrupted(
    rg: &mut RgParams,
    lp: &mut LayerPack,
    index_current: usize,
    index_source: usize,
)
    requires
        index_current < old(lp).rivers.element@.len(),
        index_current < old(lp).rivers.width@.len(),
        index_current < old(lp).rivers_id@.len(),
        index_source < old(lp).rivers.element@.len(),
    ensures
        keeps_river(*old(rg), *old(lp), *final(rg), *final(lp)),
        river_state(*final(rg), *final(lp)) == mark_course(
            river_state(*old(rg), *old(lp)),
            index_current as int,
            index_source as int,
            old(rg).river_id,
            old(rg).river_width,
        ),
{
    lp.rivers.element.set(index_current, RIVER_BODY);
    lp.rivers.element.set(index_source, RIVER_SOURCE);
    lp.rivers_id.set(index_current, rg.river_id);
    lp.rivers.width.set(index_current, rg.river_width);
}

/// Marks the course as `sort_uninterrupted` does, then queues the width and
/// the erosion of the river at `index_downstr` that the current river flows into.
pub fn sort_crossing(
    rg: &mut RgParams,
    lp: &mut LayerPack,
    index_current: usize,
    index_source: usize,
    index_downstr: usize,
)
    requires
        index_current < old(lp).rivers.element@.len(),
        index_current < old(lp).rivers.width@.len(),
        index_current < old(lp).rivers_id@.len(),
        index_current < old(lp).topography.terrain@.len(),
        index_source < old(lp).rivers.element@.len(),
        index_downstr < old(lp).rivers.width@.len(),
        index_downstr < old(lp).rivers_id@.len(),
        index_downstr < old(lp).topography.terrain@.len(),
    ensures
        keeps_river(*old(rg), *old(lp), *final(rg), *final(lp)),
        river_state(*final(rg), *final(lp)) == mark_crossing(
            river_state(*old(rg), *old(lp)),
            old(lp).topography.terrain@,
            index_current as int,
            index_source as int,
            index_downstr as int,
            old(rg).river_id,
            old(rg).river_width,
        ),
{
    sort_uninterrupted(rg, lp, index_current, index_source);
    width_routine(rg, lp, index_current, index_downstr);
    erosion_adjust(rg, lp, index_current, index_downstr);
}

/// Queues the width of the river at `index_downstr`: one more than the width
/// last queued for that river, or than its own width when none is queued,
/// and at most `RIVER_WIDTH_ORDER_MAX`.
pub fn width_routine(
    rg: &mut RgParams,
    lp: &mut LayerPack,
    _index_current: usize,
    index_downstr: usize,
)
    requires
        index_downstr < old(lp).rivers.width@.len(),
        index_downstr < old(lp).rivers_id@.len(),
    ensures
        keeps_river(*old(rg), *old(lp), *final(rg), *final(lp)),
        river_state(*final(rg), *final(lp)) == queue_width(
            river_state(*old(rg), *old(lp)),
            index_downstr as int,
        ),
{
    let river_id_downstr = lp.rivers_id[index_downstr];
    let river_width_downstr = lp.rivers.width[index_downstr];

    // Find the downstream river in the queue: its last recorded width, or
    // its width as it is if it is not in the queue.
    let queue = &rg.rivers_paths.width_queue;
    let ghost q = queue@;
    let mut width_downstr = river_width_downstr;
    let mut i = queue.len();
    assert(q.take(i as int) =~= q);
    assert(q.take(0) =~= Seq::<WidthEntry>::empty());
    while i > 0
        invariant_except_break
            last_queued_width(q, river_id_downstr) == last_queued_width(q.take(i as int), river_id_downstr),
            width_downstr == river_width_downstr,
        invariant
            i <= q.len(),
            queue@ == q,
            q.take(0) == Seq::<WidthEntry>::empty(),
        ensures
            width_downstr == match last_queued_width(q, river_id_downstr) {
                Some(w) => w,
                None => river_width_downstr,
            },
        decreases i,
    {
        assert(q.take(i as int).drop_last() =~= q.take(i - 1));
        if queue[i - 1].river_id_downstr == river_id_downstr {
            width_downstr = queue[i - 1].width_new;
            break;
        }
        i -= 1;
    }

    let mut width_downstr_new = width_downstr.saturating_add(1);
    if width_downstr_new > RIVER_WIDTH_ORDER_MAX {
        width_downstr_new = RIVER_WIDTH_ORDER_MAX;
    }
    rg.rivers_paths.width_queue.push(
        WidthEntry { river_id_downstr, width_new: width_downstr_new },
    );
}

/// Queues the rise of the terrain from `index_current` to `index_downstr`
/// for the river at `index_downstr`; nothing when the terrain falls.
pub fn erosion_adjust(
    rg: &mut RgParams,
    lp: &mut LayerPack,
    index_current: usize,
    index_downstr: usize,
)
    requires
        index_current < old(lp).topography.terrain@.len(),
        index_downstr < old(lp).topography.terrain@.len(),
        index_downstr < old(lp).rivers_id@.len(),
    ensures
        keeps_river(*old(rg), *old(lp), *final(rg), *final(lp)),
        river_state(*final(rg), *final(lp)) == queue_erosion(
            river_state(*old(rg), *old(lp)),
            old(lp).topography.terrain@,
            index_current as int,
            index_downstr as int,
        ),
{
    let river_id_downstr = lp.rivers_id[index_downstr];
    let terrain_current = lp.topography.terrain[index_current];
    let terrain_downstr = lp.topography.terrain[index_downstr];

    let terrain_diff = if terrain_downstr > terrain_current {
        terrain_downstr - terrain_current
    } else if terrain_downstr == terrain_current {
        0
    } else {
        return ;
    };

    rg.rivers_paths.erosion_queue.push(ErosionEntry { river_id_downstr, terrain_diff });
}

/// Queues an erosion entry of height 0 for river `river_id`.
pub fn erosion_initiate(rg: &mut RgParams, lp: &mut LayerPack, river_id: u16)
    ensures
        *final(lp) == *old(lp),
        keeps_river(*old(rg), *old(lp), *final(rg), *final(lp)),
        river_state(*final(rg), *final(lp)) == (RiverState {
            erosion_queue: river_state(*old(rg), *old(lp)).erosion_queue.push(
                ErosionEntry { river_id_downstr: river_id, terrain_diff: 0 },
            ),
            ..river_state(*old(rg), *old(lp))
        }),
{
    rg.rivers_paths.erosion_queue.push(ErosionEntry { river_id_downstr: river_id, terrain_diff: 0 });
}

/// The context `ctx` describes the river being mapped on these layers.
spec fn runs_on(ctx: RunContext, rg: RgParams, lp: LayerPack) -> bool {
    &&& ctx.env.map_size == rg.xy.map_size
    &&& rg.xy.map_size == lp.wi.map_size
    &&& ctx.env.terrain == lp.topography.terrain@
    &&& ctx.env.watermask == lp.topography.watermask@
    &&& ctx.env.temperature == lp.climate.abs_temperature@
    &&& ctx.env.pool_pow == lp.wi.river_sink_min_pool_size_pow
    &&& ctx.river_id == rg.river_id
    &&& ctx.river_width == rg.river_width
}

/// Maps one river onto the layers.
///
/// The river becomes the current river of `rg`. A first pass walks its
/// course on the unchanged layers and counts the steps up to the first at
/// which it would stop (`survey_length`); a river of at most
/// `river_min_length` steps is left unmapped. Otherwise an erosion entry of
/// height 0 is queued for it and each step is mapped (`step`) until the
/// river stops. A river that ends on dry land gets its end cell marked. The
/// source cell that the steps mark is that of the river that was current
/// before.
pub fn map_rivers_reverse(rg: &mut RgParams, lp: &mut LayerPack, river_entry: &RiverEntry)
    requires
        old(lp).wf(),
        rg_wf(*old(rg), *old(lp)),
        map_river_ok(map_env(*old(rg), *old(lp)), mapping_state(*old(rg), *old(lp)), *river_entry),
    ensures
        final(lp).wf(),
        in_map(old(rg).xy.map_size as int, river_entry.source) ==> rg_wf(*final(rg), *final(lp)),
        keeps_frame(*old(rg), *old(lp), *final(rg), *final(lp)),
        mapping_state(*final(rg), *final(lp)) == map_river(
            map_env(*old(rg), *old(lp)),
            mapping_state(*old(rg), *old(lp)),
            *river_entry,
        ),
{
    let ghost env = map_env(*rg, *lp);
    let ghost m0 = mapping_state(*rg, *lp);
    let ghost ctx = run_context(env, m0, *river_entry);
    let ghost s0 = river_state(*rg, *lp);

    let path_array = &river_entry.path_array;

    let index_river_source = rg.xy.ind(rg.river_source.0, rg.river_source.1);

    // Store temporary values
    rg.river_id = river_entry.river_id;
    rg.river_width = river_entry.width;
    rg.river_source = river_entry.source;
    rg.river_end = river_entry.end;
    let (i_end, j_end) = river_entry.end;

    let n_windows = path_array.len() - 1;
    assert(river_state(*rg, *lp) == s0);

    // First pass: how far the river runs on the layers as they are.
    let mut river_length: usize = 0;
    let mut k: usize = 0;
    while k < n_windows
        invariant_except_break
            river_length == k,
            survey_length(ctx, s0, 0) == survey_length(ctx, s0, k as int),
            survey_ok(ctx, s0, k as int),
        invariant
            k <= n_windows,
            n_windows == num_windows(ctx),
            lp.wf(),
            runs_on(ctx, *rg, *lp),
            path_array@ == ctx.path,
            river_state(*rg, *lp) == s0,
        ensures
            river_length == survey_length(ctx, s0, 0),
        decreases n_windows - k,
    {
        river_length += 1;

        let (i0, j0) = path_array[k];
        let (i1, j1) = path_array[k + 1];
        let index_current = rg.xy.ind(i0, j0);
        let index_downstr = rg.xy.ind(i1, j1);

        let temp = lp.climate.abs_temperature[index_current];
        let river_elem_current = lp.rivers.element[index_current];
        let river_elem_downstr = lp.rivers.element[index_downstr];
        let river_id_downstr = lp.rivers_id[index_downstr];
        let wmask_current = lp.topography.watermask[index_current];

        // Stop if the temperature is too low
        if temp <= TEMP_POLAR {
            break;
        }
        // Stop at a sink that is big enough
        if wmask_current > lp.wi.river_sink_min_pool_size_pow {
            break;
        }
        // Stop if the river would start on an existing one
        if river_elem_current != NO_RIVER && river_length == 1 {
            break;
        }
        // Stop where the river meets another river
        if (river_elem_downstr == RIVER_BODY || river_elem_downstr == RIVER_WATERFALL
            || river_elem_downstr == RIVER_WATERFALLS_MUL || river_elem_downstr == RIVER_SOURCE)
            && rg.river_id != river_id_downstr {
            break;
        }
        k += 1;
    }

    if river_length <= lp.wi.river_min_length {
        return ;
    }

    erosion_initiate(rg, lp, rg.river_id);
    let ghost s_init = river_state(*rg, *lp);

    // Second pass: map each step.
    let mut k: usize = 0;
    while k < n_windows
        invariant_except_break
            run(ctx, river_state(*rg, *lp), k as int) == run(ctx, s_init, 0),
            run_ok(ctx, river_state(*rg, *lp), k as int),
            k > 0 ==> rg.upstream_neighbor == ctx.path[k - 1],
        invariant
            k <= n_windows,
            n_windows == num_windows(ctx),
            lp.wf(),
            runs_on(ctx, *rg, *lp),
            path_array@ == ctx.path,
            ctx.source_index == index_river_source,
            ctx.end == (i_end, j_end),
            index_river_source < lp.layer_vec_len,
            keeps_frame(*old(rg), *old(lp), *rg, *lp),
            rg.river_id == river_entry.river_id,
            rg.river_width == river_entry.width,
            rg.river_source == river_entry.source,
            rg.river_end == river_entry.end,
        ensures
            river_state(*rg, *lp) == run(ctx, s_init, 0),
        decreases n_windows - k,
    {
        let ghost s = river_state(*rg, *lp);

        let (i0, j0) = path_array[k];
        let (i1, j1) = path_array[k + 1];
        let index_current = rg.xy.ind(i0, j0);
        let index_downstr = rg.xy.ind(i1, j1);

        let temp = lp.climate.abs_temperature[index_current];
        let river_elem_current = lp.rivers.element[index_current];
        let river_elem_downstr = lp.rivers.element[index_downstr];
        let river_id_downstr = lp.rivers_id[index_downstr];
        let wmask_current = lp.topography.watermask[index_current];
        let wmask_downstr = lp.topography.watermask[index_downstr];
        let terrain_current = lp.topography.terrain[index_current];
        let terrain_downstr = lp.topography.terrain[index_downstr];

        if temp <= TEMP_POLAR {
            break;
        }
        if wmask_current > lp.wi.river_sink_min_pool_size_pow {
            break;
        }
        if river_elem_current != NO_RIVER && k == 0 {
            break;
        }

        // Mark the upstream neighbour; the first cell is the source
        if k > 0 {
            let prev = rg.upstream_neighbor;
            let upstream_neighbor = neighbor_flag(i0, j0, prev.0, prev.1);
            lp.rivers.upstream.set(index_current, upstream_neighbor);
        }
        // Remember for next step
        rg.upstream_neighbor = (i0, j0);

        let mut stop = false;
        if river_elem_downstr == NO_RIVER {
            sort_uninterrupted(rg, lp, index_current, index_river_source);
            let downstream_neighbor = neighbor_flag(i0, j0, i1, j1);
            lp.rivers.downstream.set(index_current, downstream_neighbor);
            // If the end of the river is on land (map border), its last cell is marked
            if wmask_downstr == NO_WATER && i1 == i_end && j1 == j_end {
                lp.rivers.element.set(index_downstr, RIVER_BODY);
            }
        } else if river_elem_downstr == RIVER_END {
            sort_uninterrupted(rg, lp, index_current, index_river_source);
            let downstream_neighbor = neighbor_flag(i0, j0, i1, j1);
            lp.rivers.downstream.set(index_current, downstream_neighbor);
        } else {
            sort_crossing(rg, lp, index_current, index_river_source, index_downstr);
            // Waterfalls where the terrain falls
            if river_elem_downstr == RIVER_BODY && terrain_downstr < terrain_current {
                lp.rivers.element.set(index_downstr, RIVER_WATERFALL);
            } else if river_elem_downstr == RIVER_WATERFALL && terrain_downstr < terrain_current {
                lp.rivers.element.set(index_downstr, RIVER_WATERFALLS_MUL);
            }
            // Loops of the same river go on, other rivers end it
            stop = rg.river_id != river_id_downstr;
        }
        assert(river_state(*rg, *lp) =~= step(ctx, s, k as int).0);
        if stop {
            break;
        }
        k += 1;
    }
}

/// Maps every listed river, from the last of the list to the first.
pub fn map_paths(rg: &mut RgParams, lp: &mut LayerPack)
    requires
        old(lp).wf(),
        rg_wf(*old(rg), *old(lp)),
        list_wf(old(rg).xy.map_size as int, old(rg).rivers_paths.list@),
        list_elements_known(
            old(rg).xy.map_size as int,
            old(lp).rivers.element@,
            old(rg).rivers_paths.list@,
        ),
    ensures
        final(lp).wf(),
        rg_wf(*final(rg), *final(lp)),
        keeps_frame(*old(rg), *old(lp), *final(rg), *final(lp)),
        list_elements_known(
            old(rg).xy.map_size as int,
            final(lp).rivers.element@,
            old(rg).rivers_paths.list@,
        ),
        mapping_state(*final(rg), *final(lp)) == map_from_back(
            map_env(*old(rg), *old(lp)),
            mapping_state(*old(rg), *old(lp)),
            old(rg).rivers_paths.list@,
            old(rg).rivers_paths.list@.len() as int,
        ),
{
    let ghost env = map_env(*rg, *lp);
    let ghost m0 = mapping_state(*rg, *lp);
    let ghost ms = rg.xy.map_size as int;

    // The list is set aside while its rivers are mapped; mapping does not read it.
    let mut list: Vec<RiverEntry> = Vec::new();
    std::mem::swap(&mut list, &mut rg.rivers_paths.list);
    let ghost entries = list@;

    let mut n = list.len();
    while n > 0
        invariant
            n <= list.len(),
            list@ == entries,
            entries == old(rg).rivers_paths.list@,
            ms == rg.xy.map_size,
            lp.wf(),
            rg_wf(*rg, *lp),
            list_wf(ms, entries),
            list_elements_known(ms, lp.rivers.element@, entries),
            map_env(*rg, *lp) == env,
            rg.xy == old(rg).xy,
            lp.wi == old(lp).wi,
            lp.layer_vec_len == old(lp).layer_vec_len,
            map_from_back(env, mapping_state(*rg, *lp), entries, n as int) == map_from_back(
                env,
                m0,
                entries,
                entries.len() as int,
            ),
        decreases n,
    {
        n -= 1;
        proof {
            lemma_entry_maps_normally(env, mapping_state(*rg, *lp), entries, n as int);
        }
        let ghost before = mapping_state(*rg, *lp);
        map_rivers_reverse(rg, lp, &list[n]);
        proof {
            lemma_map_river_keeps_list_known(env, before, entries[n as int], entries);
        }
    }

    std::mem::swap(&mut list, &mut rg.rivers_paths.list);
}

} // verus!
