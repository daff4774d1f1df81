//! What holds of every river mapping.

use vstd::prelude::*;
use crate::coords::{cell_index, in_map, lemma_cell_index_bounds};
use crate::world_constants::{
    is_river_element, NO_RIVER, RIVER_BODY, RIVER_SOURCE, RIVER_WATERFALL, RIVER_WATERFALLS_MUL,
    RIVER_WIDTH_ORDER_MAX, TEMP_POLAR,
};
use crate::river_mapping::types::{ErosionEntry, RiverEntry, WidthEntry};
use crate::river_mapping::model::{
    is_neighbor, neighbor_direction, RiverState, MappingState, MapEnv, RunContext, run_context,
    run, step, map_river, map_from_back, survey_length, num_windows, cur_index, down_index,
    halts_at_cell, queue_width, queue_erosion, last_queued_width, entry_wf, list_wf, valid_path, survey_ok, run_ok, map_river_ok, list_elements_known,
};

verus! {

// ------------------------------------------------------------------
// Neighbour directions
// ------------------------------------------------------------------

/// Seen from the other cell, a step points the opposite way: its direction
/// code differs by four (modulo eight). So the downstream mark of one cell
/// and the upstream mark of the next describe the same step.
pub proof fn lemma_direction_reverses(a: (usize, usize), b: (usize, usize))
    requires
        is_neighbor(a, b),
    ensures
        is_neighbor(b, a),
        neighbor_direction(b, a) == (neighbor_direction(a, b) + 4) % 8,
{
}

/// The eight neighbours of a cell get eight different direction codes, all below 8.
pub proof fn lemma_direction_distinct(a: (usize, usize), b: (usize, usize), c: (usize, usize))
    requires
        is_neighbor(a, b),
        is_neighbor(a, c),
        b != c,
    ensures
        neighbor_direction(a, b) != neighbor_direction(a, c),
        neighbor_direction(a, b) < 8,
{
}

/// The compass codes: a step to `+i` (north) is 0, and the codes go
/// clockwise through north-east 1, east (`+j`) 2, south-east 3, south 4,
/// south-west 5 and west 6 to north-west 7.
pub proof fn lemma_compass_codes(i: usize, j: usize)
    requires
        1 <= i < usize::MAX,
        1 <= j < usize::MAX,
    ensures
        neighbor_direction((i, j), ((i + 1) as usize, j)) == 0,
        neighbor_direction((i, j), ((i + 1) as usize, (j + 1) as usize)) == 1,
        neighbor_direction((i, j), (i, (j + 1) as usize)) == 2,
        neighbor_direction((i, j), ((i - 1) as usize, (j + 1) as usize)) == 3,
        neighbor_direction((i, j), ((i - 1) as usize, j)) == 4,
        neighbor_direction((i, j), ((i - 1) as usize, (j - 1) as usize)) == 5,
        neighbor_direction((i, j), (i, (j - 1) as usize)) == 6,
        neighbor_direction((i, j), ((i + 1) as usize, (j - 1) as usize)) == 7,
{
}

/// The erosion queued for a step records the rise of the terrain into the
/// river at `d`: with the terrain at `c` it adds up to the terrain at `d`;
/// where the terrain falls nothing is queued.
pub proof fn lemma_erosion_records_rise(s: RiverState, terrain: Seq<u16>, c: int, d: int)
    ensures
        terrain[d] < terrain[c] ==> queue_erosion(s, terrain, c, d).erosion_queue == s.erosion_queue,
        terrain[d] >= terrain[c] ==> {
            let q = queue_erosion(s, terrain, c, d).erosion_queue;
            &&& q.len() == s.erosion_queue.len() + 1
            &&& q.drop_last() == s.erosion_queue
            &&& q.last().river_id_downstr == s.ids[d]
            &&& q.last().terrain_diff + terrain[c] == terrain[d]
        },
{
    if terrain[d] >= terrain[c] {
        let q = queue_erosion(s, terrain, c, d).erosion_queue;
        assert(q.drop_last() =~= s.erosion_queue);
    }
}

// ------------------------------------------------------------------
// The queues only grow
// ------------------------------------------------------------------

/// `t`'s queues start with `s`'s, and every width added is at most
/// `RIVER_WIDTH_ORDER_MAX`.
pub open spec fn queues_extend(s: RiverState, t: RiverState) -> bool {
    &&& s.width_queue.len() <= t.width_queue.len()
    &&& forall|i: int| 0 <= i < s.width_queue.len() ==> #[trigger] t.width_queue[i] == s.width_queue[i]
    &&& forall|i: int|
        s.width_queue.len() <= i < t.width_queue.len() ==> (#[trigger] t.width_queue[i]).width_new
            <= RIVER_WIDTH_ORDER_MAX
    &&& s.erosion_queue.len() <= t.erosion_queue.len()
    &&& forall|i: int|
        0 <= i < s.erosion_queue.len() ==> #[trigger] t.erosion_queue[i] == s.erosion_queue[i]
}

/// Every queued width is at most `RIVER_WIDTH_ORDER_MAX`.
pub open spec fn widths_bounded(s: RiverState) -> bool {
    forall|i: int| 0 <= i < s.width_queue.len() ==> (#[trigger] s.width_queue[i]).width_new
        <= RIVER_WIDTH_ORDER_MAX
}

proof fn lemma_queues_extend_trans(s: RiverState, t: RiverState, u: RiverState)
    requires
        queues_extend(s, t),
        queues_extend(t, u),
    ensures
        queues_extend(s, u),
{
    assert forall|i: int| s.width_queue.len() <= i < u.width_queue.len() implies (
    #[trigger] u.width_queue[i]).width_new <= RIVER_WIDTH_ORDER_MAX by {
        if i < t.width_queue.len() {
            assert(u.width_queue[i] == t.width_queue[i]);
        }
    }
}

proof fn lemma_step_queues(ctx: RunContext, s: RiverState, k: int)
    ensures
        queues_extend(s, step(ctx, s, k).0),
{
}

proof fn lemma_run_queues(ctx: RunContext, s: RiverState, k: int)
    ensures
        queues_extend(s, run(ctx, s, k)),
    decreases num_windows(ctx) - k,
{
    if k < 0 || k >= num_windows(ctx) {
    } else {
        let (s1, stop) = step(ctx, s, k);
        lemma_step_queues(ctx, s, k);
        if !stop {
            lemma_run_queues(ctx, s1, k + 1);
            lemma_queues_extend_trans(s, s1, run(ctx, s1, k + 1));
        }
    }
}

/// Mapping one river only appends to the width and erosion queues, and every
/// width it queues is at most `RIVER_WIDTH_ORDER_MAX`.
pub proof fn lemma_map_river_queues(env: MapEnv, m: MappingState, entry: RiverEntry)
    ensures
        queues_extend(m.rivers, map_river(env, m, entry).rivers),
{
    let ctx = run_context(env, m, entry);
    if survey_length(ctx, m.rivers, 0) > env.min_length {
        let s = RiverState {
            erosion_queue: m.rivers.erosion_queue.push(
                ErosionEntry {
                    river_id_downstr: entry.river_id,
                    terrain_diff: 0,
                },
            ),
            ..m.rivers
        };
        lemma_run_queues(ctx, s, 0);
        lemma_queues_extend_trans(m.rivers, s, run(ctx, s, 0));
    }
}

/// Mapping a list of rivers only appends to the queues, with every queued
/// width at most `RIVER_WIDTH_ORDER_MAX`; so queues whose widths were within
/// that bound stay within it.
pub proof fn lemma_map_from_back_queues(env: MapEnv, m: MappingState, entries: Seq<RiverEntry>, n: int)
    ensures
        queues_extend(m.rivers, map_from_back(env, m, entries, n).rivers),
        widths_bounded(m.rivers) ==> widths_bounded(map_from_back(env, m, entries, n).rivers),
    decreases n,
{
    let r = map_from_back(env, m, entries, n).rivers;
    if n > 0 {
        let m1 = map_river(env, m, entries[n - 1]);
        lemma_map_river_queues(env, m, entries[n - 1]);
        lemma_map_from_back_queues(env, m1, entries, n - 1);
        lemma_queues_extend_trans(m.rivers, m1.rivers, r);
    }
    if widths_bounded(m.rivers) {
        assert forall|i: int| 0 <= i < r.width_queue.len() implies (
        #[trigger] r.width_queue[i]).width_new <= RIVER_WIDTH_ORDER_MAX by {
            if i < m.rivers.width_queue.len() {
                assert(r.width_queue[i] == m.rivers.width_queue[i]);
            }
        }
    }
}

// ------------------------------------------------------------------
// Mapping is local to the river's course
// ------------------------------------------------------------------

/// Cell `i` of every layer of `s` lies within the layers.
pub open spec fn covers(s: RiverState, i: int) -> bool {
    &&& 0 <= i < s.element.len()
    &&& i < s.width.len()
    &&& i < s.upstream.len()
    &&& i < s.downstream.len()
    &&& i < s.ids.len()
}

/// Cell `i` is the same in every layer of `s` and `t`.
pub open spec fn same_cell(s: RiverState, t: RiverState, i: int) -> bool {
    &&& t.element[i] == s.element[i]
    &&& t.width[i] == s.width[i]
    &&& t.upstream[i] == s.upstream[i]
    &&& t.downstream[i] == s.downstream[i]
    &&& t.ids[i] == s.ids[i]
}

/// Cell `i` is no cell of the course of `ctx` and not its marked source.
pub open spec fn off_course(ctx: RunContext, i: int) -> bool {
    &&& i != ctx.source_index
    &&& forall|k: int|
        0 <= k < ctx.path.len() ==> cell_index(
            ctx.env.map_size,
            (#[trigger] ctx.path[k]).0 as int,
            ctx.path[k].1 as int,
        ) != i
}

/// The cells that mapping with `ctx` writes all lie within the layers of `s`.
pub open spec fn course_within(ctx: RunContext, s: RiverState) -> bool {
    &&& covers(s, ctx.source_index)
    &&& forall|k: int|
        0 <= k < ctx.path.len() ==> covers(
            s,
            cell_index(ctx.env.map_size, (#[trigger] ctx.path[k]).0 as int, ctx.path[k].1 as int),
        )
}

/// The layers of `s` and `t` have the same sizes.
pub open spec fn same_lengths(s: RiverState, t: RiverState) -> bool {
    &&& t.element.len() == s.element.len()
    &&& t.width.len() == s.width.len()
    &&& t.upstream.len() == s.upstream.len()
    &&& t.downstream.len() == s.downstream.len()
    &&& t.ids.len() == s.ids.len()
}

proof fn lemma_step_local(ctx: RunContext, s: RiverState, k: int, i: int)
    requires
        course_within(ctx, s),
        0 <= k < num_windows(ctx),
    ensures
        same_lengths(s, step(ctx, s, k).0),
        covers(s, i) && off_course(ctx, i) ==> same_cell(s, step(ctx, s, k).0, i),
        covers(s, i) && is_river_element(s.element[i]) ==> is_river_element(step(ctx, s, k).0.element[i]),
{
    let c = cur_index(ctx, k);
    let d = down_index(ctx, k);
    assert(covers(s, c));
    assert(covers(s, d));
    if covers(s, i) && off_course(ctx, i) {
        assert(c != i) by {
            assert(ctx.path[k] == ctx.path[k]);
        }
        assert(d != i) by {
            assert(ctx.path[k + 1] == ctx.path[k + 1]);
        }
    }
}

proof fn lemma_run_local(ctx: RunContext, s: RiverState, k: int, i: int)
    requires
        course_within(ctx, s),
    ensures
        same_lengths(s, run(ctx, s, k)),
        covers(s, i) && off_course(ctx, i) ==> same_cell(s, run(ctx, s, k), i),
        covers(s, i) && is_river_element(s.element[i]) ==> is_river_element(run(ctx, s, k).element[i]),
    decreases num_windows(ctx) - k,
{
    if k < 0 || k >= num_windows(ctx) {
    } else {
        let (s1, stop) = step(ctx, s, k);
        lemma_step_local(ctx, s, k, i);
        if !stop {
            assert(course_within(ctx, s1)) by {
                assert forall|j: int| 0 <= j < ctx.path.len() implies covers(
                    s1,
                    cell_index(ctx.env.map_size, (#[trigger] ctx.path[j]).0 as int, ctx.path[j].1 as int),
                ) by {
                    assert(covers(s, cell_index(ctx.env.map_size, ctx.path[j].0 as int, ctx.path[j].1 as int)));
                }
            }
            lemma_run_local(ctx, s1, k + 1, i);
        }
    }
}

/// Mapping a river changes no cell off its course other than the source
/// cell it marks (that of the river mapped before it), keeps the sizes of
/// the layers, and writes only known river elements.
pub proof fn lemma_map_river_local(env: MapEnv, m: MappingState, entry: RiverEntry, i: int)
    requires
        course_within(run_context(env, m, entry), m.rivers),
    ensures
        same_lengths(m.rivers, map_river(env, m, entry).rivers),
        covers(m.rivers, i) && off_course(run_context(env, m, entry), i) ==> same_cell(
            m.rivers,
            map_river(env, m, entry).rivers,
            i,
        ),
        covers(m.rivers, i) && is_river_element(m.rivers.element[i]) ==> is_river_element(
            map_river(env, m, entry).rivers.element[i],
        ),
{
    let ctx = run_context(env, m, entry);
    if survey_length(ctx, m.rivers, 0) > env.min_length {
        let s = RiverState {
            erosion_queue: m.rivers.erosion_queue.push(
                ErosionEntry {
                    river_id_downstr: entry.river_id,
                    terrain_diff: 0,
                },
            ),
            ..m.rivers
        };
        assert(course_within(ctx, s)) by {
            assert forall|j: int| 0 <= j < ctx.path.len() implies covers(
                s,
                cell_index(ctx.env.map_size, (#[trigger] ctx.path[j]).0 as int, ctx.path[j].1 as int),
            ) by {
                assert(covers(m.rivers, cell_index(ctx.env.map_size, ctx.path[j].0 as int, ctx.path[j].1 as int)));
            }
        }
        lemma_run_local(ctx, s, 0, i);
    }
}

/// A river of at most `min_length` steps changes no layer and no queue: it
/// only becomes the current river.
pub proof fn lemma_short_river_unmapped(env: MapEnv, m: MappingState, entry: RiverEntry)
    requires
        survey_length(run_context(env, m, entry), m.rivers, 0) <= env.min_length,
    ensures
        map_river(env, m, entry).rivers == m.rivers,
        map_river(env, m, entry).river_id == entry.river_id,
        map_river(env, m, entry).river_source == entry.source,
        map_river(env, m, entry).river_end == entry.end,
{
}

// ------------------------------------------------------------------
// Well-formed rivers map normally
// ------------------------------------------------------------------

/// Every layer of `s` has `n` cells.
pub open spec fn sized(s: RiverState, n: int) -> bool {
    &&& s.element.len() == n
    &&& s.width.len() == n
    &&& s.upstream.len() == n
    &&& s.downstream.len() == n
    &&& s.ids.len() == n
}

/// Every cell of the course of `ctx` holds a known river element in `s`.
pub open spec fn path_known(ctx: RunContext, s: RiverState) -> bool {
    forall|j: int|
        0 <= j < ctx.path.len() ==> is_river_element(
            s.element[cell_index(ctx.env.map_size, (#[trigger] ctx.path[j]).0 as int, ctx.path[j].1 as int)],
        )
}

proof fn lemma_course_within(env: MapEnv, m: MappingState, entry: RiverEntry)
    requires
        entry_wf(env.map_size, entry),
        in_map(env.map_size, m.river_source),
        sized(m.rivers, env.map_size * env.map_size),
    ensures
        course_within(run_context(env, m, entry), m.rivers),
{
    let ctx = run_context(env, m, entry);
    lemma_cell_index_bounds(env.map_size, m.river_source.0 as int, m.river_source.1 as int);
    assert forall|k: int| 0 <= k < ctx.path.len() implies covers(
        m.rivers,
        cell_index(ctx.env.map_size, (#[trigger] ctx.path[k]).0 as int, ctx.path[k].1 as int),
    ) by {
        lemma_cell_index_bounds(env.map_size, ctx.path[k].0 as int, ctx.path[k].1 as int);
    }
}

proof fn lemma_survey_ok(ctx: RunContext, s: RiverState, k: int)
    requires
        valid_path(ctx.env.map_size, ctx.path),
        path_known(ctx, s),
    ensures
        survey_ok(ctx, s, k),
    decreases num_windows(ctx) - k,
{
    if 0 <= k < num_windows(ctx) {
        assert(in_map(ctx.env.map_size, ctx.path[k]));
        assert(in_map(ctx.env.map_size, ctx.path[k + 1]));
        lemma_survey_ok(ctx, s, k + 1);
    }
}

proof fn lemma_run_ok(ctx: RunContext, s: RiverState, k: int)
    requires
        valid_path(ctx.env.map_size, ctx.path),
        course_within(ctx, s),
        path_known(ctx, s),
    ensures
        run_ok(ctx, s, k),
    decreases num_windows(ctx) - k,
{
    if 0 <= k < num_windows(ctx) {
        assert(in_map(ctx.env.map_size, ctx.path[k]));
        assert(in_map(ctx.env.map_size, ctx.path[k + 1]));
        assert(is_neighbor(ctx.path[k], ctx.path[k + 1]));
        if k > 0 {
            assert(is_neighbor(ctx.path[k - 1], ctx.path[k]));
        }
        let (s1, stop) = step(ctx, s, k);
        if !stop {
            assert forall|j: int| 0 <= j < ctx.path.len() implies covers(
                s1,
                cell_index(ctx.env.map_size, (#[trigger] ctx.path[j]).0 as int, ctx.path[j].1 as int),
            ) && is_river_element(
                s1.element[cell_index(ctx.env.map_size, ctx.path[j].0 as int, ctx.path[j].1 as int)],
            ) by {
                let i = cell_index(ctx.env.map_size, ctx.path[j].0 as int, ctx.path[j].1 as int);
                assert(covers(s, i));
                lemma_step_local(ctx, s, k, i);
            }
            lemma_step_local(ctx, s, k, ctx.source_index);
            lemma_run_ok(ctx, s1, k + 1);
        }
    }
}

/// A river whose course lies in the map and steps between neighbouring
/// cells, mapped after a river whose source is in the map, on layers that
/// cover the map and hold known river elements along its course, maps
/// normally.
pub proof fn lemma_entry_ok(env: MapEnv, m: MappingState, entry: RiverEntry)
    requires
        entry_wf(env.map_size, entry),
        in_map(env.map_size, m.river_source),
        sized(m.rivers, env.map_size * env.map_size),
        path_known(run_context(env, m, entry), m.rivers),
    ensures
        map_river_ok(env, m, entry),
{
    let ctx = run_context(env, m, entry);
    lemma_course_within(env, m, entry);
    lemma_survey_ok(ctx, m.rivers, 0);
    let s = RiverState {
        erosion_queue: m.rivers.erosion_queue.push(
            ErosionEntry { river_id_downstr: entry.river_id, terrain_diff: 0 },
        ),
        ..m.rivers
    };
    assert(course_within(ctx, s)) by {
        assert forall|j: int| 0 <= j < ctx.path.len() implies covers(
            s,
            cell_index(ctx.env.map_size, (#[trigger] ctx.path[j]).0 as int, ctx.path[j].1 as int),
        ) by {
            assert(covers(m.rivers, cell_index(ctx.env.map_size, ctx.path[j].0 as int, ctx.path[j].1 as int)));
        }
    }
    assert(path_known(ctx, s)) by {
        assert forall|j: int| 0 <= j < ctx.path.len() implies is_river_element(
            s.element[cell_index(ctx.env.map_size, (#[trigger] ctx.path[j]).0 as int, ctx.path[j].1 as int)],
        ) by {
            assert(is_river_element(m.rivers.element[cell_index(ctx.env.map_size, ctx.path[j].0 as int, ctx.path[j].1 as int)]));
        }
    }
    lemma_run_ok(ctx, s, 0);
}

/// Each river of a well-formed list maps normally on layers that hold known
/// river elements along every listed course.
pub proof fn lemma_entry_maps_normally(env: MapEnv, m: MappingState, entries: Seq<RiverEntry>, n: int)
    requires
        0 <= n < entries.len(),
        list_wf(env.map_size, entries),
        list_elements_known(env.map_size, m.rivers.element, entries),
        in_map(env.map_size, m.river_source),
        sized(m.rivers, env.map_size * env.map_size),
    ensures
        map_river_ok(env, m, entries[n]),
{
    let entry = entries[n];
    let ctx = run_context(env, m, entry);
    assert(entry_wf(env.map_size, entry));
    assert forall|j: int| 0 <= j < ctx.path.len() implies is_river_element(
        m.rivers.element[cell_index(ctx.env.map_size, (#[trigger] ctx.path[j]).0 as int, ctx.path[j].1 as int)],
    ) by {
        assert(entries[n].path_array@[j] == ctx.path[j]);
    }
    lemma_entry_ok(env, m, entry);
}

/// Mapping a well-formed river keeps known river elements known along every
/// listed course.
pub proof fn lemma_map_river_keeps_list_known(
    env: MapEnv,
    m: MappingState,
    entry: RiverEntry,
    entries: Seq<RiverEntry>,
)
    requires
        entry_wf(env.map_size, entry),
        list_wf(env.map_size, entries),
        list_elements_known(env.map_size, m.rivers.element, entries),
        in_map(env.map_size, m.river_source),
        sized(m.rivers, env.map_size * env.map_size),
    ensures
        list_elements_known(env.map_size, map_river(env, m, entry).rivers.element, entries),
        sized(map_river(env, m, entry).rivers, env.map_size * env.map_size),
{
    lemma_course_within(env, m, entry);
    let r = map_river(env, m, entry).rivers;
    lemma_map_river_local(env, m, entry, 0);
    assert forall|i: int, k: int|
        0 <= i < entries.len() && 0 <= k < entries[i].path_array@.len() implies is_river_element(
        r.element[cell_index(
            env.map_size,
            (#[trigger] entries[i].path_array@[k]).0 as int,
            entries[i].path_array@[k].1 as int,
        )],
    ) by {
        let p = entries[i].path_array@[k];
        assert(entry_wf(env.map_size, entries[i]));
        assert(in_map(env.map_size, p));
        lemma_cell_index_bounds(env.map_size, p.0 as int, p.1 as int);
        lemma_map_river_local(env, m, entry, cell_index(env.map_size, p.0 as int, p.1 as int));
    }
}

// ------------------------------------------------------------------
// The cells a river is mapped through carry it
// ------------------------------------------------------------------

/// Step `j` is reached by mapping from step `k` on, and maps its cell (the
/// river does not stop at the cell before writing).
pub open spec fn mapped_through(ctx: RunContext, s: RiverState, k: int, j: int) -> bool
    decreases num_windows(ctx) - k,
{
    if k < 0 || k >= num_windows(ctx) || halts_at_cell(ctx, s, k) {
        false
    } else if j == k {
        true
    } else {
        let (s1, stop) = step(ctx, s, k);
        !stop && mapped_through(ctx, s1, k + 1, j)
    }
}

/// Cell `i` carries the id and width of the river of `ctx`.
pub open spec fn carries_river(ctx: RunContext, s: RiverState, i: int) -> bool {
    s.ids[i] == ctx.river_id && s.width[i] == ctx.river_width
}

proof fn lemma_step_keeps_carrying(ctx: RunContext, s: RiverState, k: int, i: int)
    requires
        course_within(ctx, s),
        0 <= k < num_windows(ctx),
        covers(s, i),
        carries_river(ctx, s, i),
    ensures
        carries_river(ctx, step(ctx, s, k).0, i),
{
    assert(covers(s, cur_index(ctx, k)));
    assert(covers(s, down_index(ctx, k)));
}

proof fn lemma_run_keeps_carrying(ctx: RunContext, s: RiverState, k: int, i: int)
    requires
        course_within(ctx, s),
        covers(s, i),
        carries_river(ctx, s, i),
    ensures
        carries_river(ctx, run(ctx, s, k), i),
    decreases num_windows(ctx) - k,
{
    if 0 <= k < num_windows(ctx) {
        let (s1, stop) = step(ctx, s, k);
        lemma_step_keeps_carrying(ctx, s, k, i);
        if !stop {
            lemma_step_local(ctx, s, k, i);
            assert forall|j: int| 0 <= j < ctx.path.len() implies covers(
                s1,
                cell_index(ctx.env.map_size, (#[trigger] ctx.path[j]).0 as int, ctx.path[j].1 as int),
            ) by {
                assert(covers(s, cell_index(ctx.env.map_size, ctx.path[j].0 as int, ctx.path[j].1 as int)));
            }
            lemma_run_keeps_carrying(ctx, s1, k + 1, i);
        }
    }
}

/// Every cell that mapping takes the river through ends up with the
/// river's id and width.
pub proof fn lemma_mapped_cells_carry_river(ctx: RunContext, s: RiverState, k: int, j: int)
    requires
        course_within(ctx, s),
        mapped_through(ctx, s, k, j),
    ensures
        carries_river(ctx, run(ctx, s, k), cur_index(ctx, j)),
    decreases num_windows(ctx) - k,
{
    let (s1, stop) = step(ctx, s, k);
    assert(covers(s, cur_index(ctx, k)));
    assert(covers(s, down_index(ctx, k)));
    assert forall|i: int| 0 <= i < ctx.path.len() implies covers(
        s1,
        cell_index(ctx.env.map_size, (#[trigger] ctx.path[i]).0 as int, ctx.path[i].1 as int),
    ) by {
        let c = cell_index(ctx.env.map_size, ctx.path[i].0 as int, ctx.path[i].1 as int);
        assert(covers(s, c));
        lemma_step_local(ctx, s, k, c);
    }
    lemma_step_local(ctx, s, k, ctx.source_index);
    if j == k {
        assert(carries_river(ctx, s1, cur_index(ctx, k)));
        if !stop {
            lemma_run_keeps_carrying(ctx, s1, k + 1, cur_index(ctx, k));
        }
    } else {
        lemma_mapped_cells_carry_river(ctx, s1, k + 1, j);
    }
}

// ------------------------------------------------------------------
// Short rivers are dropped, long ones are mapped
// ------------------------------------------------------------------

/// Step `k` of `entry`'s course stops the river: its cell is frozen (at or
/// below `TEMP_POLAR`) or a sink deeper than the pool size, a river lies
/// under its first cell, or it flows into the body, a waterfall or the
/// source of another river.
pub open spec fn stops_at_step(env: MapEnv, m: MappingState, entry: RiverEntry, k: int) -> bool {
    let p = entry.path_array@;
    let c = cell_index(env.map_size, p[k].0 as int, p[k].1 as int);
    let d = cell_index(env.map_size, p[k + 1].0 as int, p[k + 1].1 as int);
    let e = m.rivers.element[d];
    ||| env.temperature[c] <= TEMP_POLAR
    ||| env.watermask[c] > env.pool_pow
    ||| (k == 0 && m.rivers.element[c] != NO_RIVER)
    ||| ((e == RIVER_BODY || e == RIVER_WATERFALL || e == RIVER_WATERFALLS_MUL || e == RIVER_SOURCE)
        && m.rivers.ids[d] != entry.river_id)
}

proof fn lemma_survey_at_most(env: MapEnv, m: MappingState, entry: RiverEntry, j: int, k: int)
    requires
        0 <= j <= k < entry.path_array@.len() - 1,
        stops_at_step(env, m, entry, k),
    ensures
        survey_length(run_context(env, m, entry), m.rivers, j) <= k + 1,
    decreases k - j,
{
    if j < k {
        lemma_survey_at_most(env, m, entry, j + 1, k);
    }
}

proof fn lemma_survey_all(env: MapEnv, m: MappingState, entry: RiverEntry, j: int)
    requires
        0 <= j <= entry.path_array@.len() - 1,
        forall|k: int| 0 <= k < entry.path_array@.len() - 1 ==> !#[trigger] stops_at_step(env, m, entry, k),
    ensures
        survey_length(run_context(env, m, entry), m.rivers, j) == entry.path_array@.len() - 1,
    decreases entry.path_array@.len() - j,
{
    if j < entry.path_array@.len() - 1 {
        assert(!stops_at_step(env, m, entry, j));
        lemma_survey_all(env, m, entry, j + 1);
    }
}

/// A river that stops at one of its first `min_length` steps is dropped:
/// mapping it changes no layer and no queue.
pub proof fn lemma_early_stop_drops_river(env: MapEnv, m: MappingState, entry: RiverEntry, k: int)
    requires
        0 <= k < entry.path_array@.len() - 1,
        k + 1 <= env.min_length,
        stops_at_step(env, m, entry, k),
    ensures
        map_river(env, m, entry).rivers == m.rivers,
{
    lemma_survey_at_most(env, m, entry, 0, k);
}

/// A river that stops at none of its steps and has more than `min_length`
/// of them is mapped: an erosion entry of height 0 for it follows the old
/// erosion queue.
pub proof fn lemma_long_river_is_mapped(env: MapEnv, m: MappingState, entry: RiverEntry)
    requires
        entry.path_array@.len() - 1 > env.min_length,
        forall|k: int| 0 <= k < entry.path_array@.len() - 1 ==> !#[trigger] stops_at_step(env, m, entry, k),
    ensures
        map_river(env, m, entry).rivers.erosion_queue.len() > m.rivers.erosion_queue.len(),
        map_river(env, m, entry).rivers.erosion_queue[m.rivers.erosion_queue.len() as int]
            == (ErosionEntry { river_id_downstr: entry.river_id, terrain_diff: 0 }),
{
    let ctx = run_context(env, m, entry);
    if entry.path_array@.len() > 0 {
        lemma_survey_all(env, m, entry, 0);
    }
    let s = RiverState {
        erosion_queue: m.rivers.erosion_queue.push(
            ErosionEntry { river_id_downstr: entry.river_id, terrain_diff: 0 },
        ),
        ..m.rivers
    };
    lemma_run_queues(ctx, s, 0);
    let r = run(ctx, s, 0);
    assert(r.erosion_queue[m.rivers.erosion_queue.len() as int] == s.erosion_queue[m.rivers.erosion_queue.len() as int]);
}

// ------------------------------------------------------------------
// Widths grow from the width last queued for the same river
// ------------------------------------------------------------------

proof fn lemma_last_queued_width_at(q: Seq<WidthEntry>, id: u16, i: int)
    requires
        0 <= i < q.len(),
        q[i].river_id_downstr == id,
        forall|j: int| i < j < q.len() ==> (#[trigger] q[j]).river_id_downstr != id,
    ensures
        last_queued_width(q, id) == Some(q[i].width_new),
    decreases q.len(),
{
    if i < q.len() - 1 {
        assert(q[q.len() - 1].river_id_downstr != id);
        let q1 = q.drop_last();
        assert forall|j: int| i < j < q1.len() implies (#[trigger] q1[j]).river_id_downstr != id by {
            assert(q1[j] == q[j]);
        }
        lemma_last_queued_width_at(q1, id, i);
    }
}

proof fn lemma_last_queued_width_none(q: Seq<WidthEntry>, id: u16)
    requires
        forall|j: int| 0 <= j < q.len() ==> (#[trigger] q[j]).river_id_downstr != id,
    ensures
        last_queued_width(q, id) is None,
    decreases q.len(),
{
    if q.len() > 0 {
        assert(q[q.len() - 1].river_id_downstr != id);
        let q1 = q.drop_last();
        assert forall|j: int| 0 <= j < q1.len() implies (#[trigger] q1[j]).river_id_downstr != id by {
            assert(q1[j] == q[j]);
        }
        lemma_last_queued_width_none(q1, id);
    }
}

/// When entry `i` is the newest queued for the river at `d`, the width queued
/// next for it is one more than that entry's width, at most
/// `RIVER_WIDTH_ORDER_MAX`, whatever later entries name other rivers.
pub proof fn lemma_width_follows_newest_entry(s: RiverState, d: int, i: int)
    requires
        0 <= i < s.width_queue.len(),
        s.width_queue[i].river_id_downstr == s.ids[d],
        forall|j: int|
            i < j < s.width_queue.len() ==> (#[trigger] s.width_queue[j]).river_id_downstr != s.ids[d],
    ensures
        queue_width(s, d).width_queue == s.width_queue.push(
            WidthEntry {
                river_id_downstr: s.ids[d],
                width_new: if s.width_queue[i].width_new + 1 > RIVER_WIDTH_ORDER_MAX {
                    RIVER_WIDTH_ORDER_MAX
                } else {
                    (s.width_queue[i].width_new + 1) as u16
                },
            },
        ),
{
    lemma_last_queued_width_at(s.width_queue, s.ids[d], i);
}

/// When no queued entry names the river at `d`, the width queued for it is
/// one more than its own width, at most `RIVER_WIDTH_ORDER_MAX`.
pub proof fn lemma_width_of_unqueued_river(s: RiverState, d: int)
    requires
        forall|j: int|
            0 <= j < s.width_queue.len() ==> (#[trigger] s.width_queue[j]).river_id_downstr != s.ids[d],
    ensures
        queue_width(s, d).width_queue == s.width_queue.push(
            WidthEntry {
                river_id_downstr: s.ids[d],
                width_new: if s.width[d] + 1 > RIVER_WIDTH_ORDER_MAX {
                    RIVER_WIDTH_ORDER_MAX
                } else {
                    (s.width[d] + 1) as u16
                },
            },
        ),
{
    lemma_last_queued_width_none(s.width_queue, s.ids[d]);
}

/// Queuing a width twice for the same river: the second is one more than the
/// first, at most `RIVER_WIDTH_ORDER_MAX`.
pub proof fn lemma_width_grows_per_crossing(s: RiverState, d: int)
    ensures
        ({
            let t = queue_width(s, d);
            let w = t.width_queue.last().width_new;
            queue_width(t, d).width_queue.last().width_new == if w + 1 > RIVER_WIDTH_ORDER_MAX {
                RIVER_WIDTH_ORDER_MAX
            } else {
                (w + 1) as u16
            }
        }),
{
    let t = queue_width(s, d);
    lemma_width_follows_newest_entry(t, d, t.width_queue.len() - 1);
}

} // verus!
