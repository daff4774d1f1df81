use worldgen::coords::Index;
use worldgen::layers::{Climate, LayerPack, Rivers, Topography, WorldInfo};
use worldgen::river_mapping::checks::{are_neighbors, is_valid_path, river_cells_known, rivers_ready};
use worldgen::river_mapping::mapping_ops::{
    erosion_adjust, erosion_initiate, map_paths, map_rivers_reverse, neighbor_flag, sort_crossing,
    sort_uninterrupted, width_routine,
};
use worldgen::river_mapping::types::{ErosionEntry, RgParams, RiverEntry, RiversPaths, WidthEntry};
use worldgen::world_constants::{
    NO_RIVER, RIVER_BODY, RIVER_END, RIVER_SOURCE, RIVER_WATERFALL, RIVER_WATERFALLS_MUL,
    RIVER_WIDTH_ORDER_MAX,
};

fn layer_pack(map_size: usize, min_length: usize) -> LayerPack {
    let n = map_size * map_size;
    LayerPack {
        wi: WorldInfo {
            map_size,
            river_min_length: min_length,
            river_sink_min_pool_size_pow: 3,
            waterlevel: 100,
            abs_elev_min: -1000,
            abs_elev_max: 5000,
            abs_temp_min: -40,
            abs_temp_max: 40,
        },
        layer_vec_len: n,
        topography: Topography { terrain: vec![50; n], watermask: vec![0; n] },
        climate: Climate { abs_temperature: vec![20; n] },
        rivers: Rivers {
            element: vec![NO_RIVER; n],
            width: vec![0; n],
            upstream: vec![0; n],
            downstream: vec![0; n],
        },
        rivers_id: vec![0; n],
    }
}

fn rg_params(map_size: usize, list: Vec<RiverEntry>) -> RgParams {
    RgParams {
        xy: Index { map_size },
        rivers_paths: RiversPaths { list, width_queue: Vec::new(), erosion_queue: Vec::new() },
        river_id: 0,
        river_width: 0,
        river_source: (0, 0),
        river_end: (map_size - 1, map_size - 1),
        upstream_neighbor: (0, 0),
    }
}

fn entry(river_id: u16, width: u16, path: Vec<(usize, usize)>) -> RiverEntry {
    RiverEntry {
        river_id,
        width,
        source: path[0],
        end: path[path.len() - 1],
        path_array: path,
    }
}

#[test]
fn neighbor_flag_codes_clockwise_from_north() {
    assert_eq!(neighbor_flag(5, 5, 6, 5), 0);
    assert_eq!(neighbor_flag(5, 5, 6, 6), 1);
    assert_eq!(neighbor_flag(5, 5, 5, 6), 2);
    assert_eq!(neighbor_flag(5, 5, 4, 6), 3);
    assert_eq!(neighbor_flag(5, 5, 4, 5), 4);
    assert_eq!(neighbor_flag(5, 5, 4, 4), 5);
    assert_eq!(neighbor_flag(5, 5, 5, 4), 6);
    assert_eq!(neighbor_flag(5, 5, 6, 4), 7);
}

#[test]
fn neighbor_flag_at_the_map_corner() {
    assert_eq!(neighbor_flag(0, 0, 1, 0), 0);
    assert_eq!(neighbor_flag(1, 0, 0, 0), 4);
    assert_eq!(neighbor_flag(0, 1, 1, 0), 7);
}

#[test]
fn neighbor_flag_reverse_step_is_opposite() {
    let around = [(6, 5), (6, 6), (5, 6), (4, 6), (4, 5), (4, 4), (5, 4), (6, 4)];
    for (i, j) in around {
        let there = neighbor_flag(5, 5, i, j);
        let back = neighbor_flag(i, j, 5, 5);
        assert_eq!(back, (there + 4) % 8);
    }
}

#[test]
fn sort_uninterrupted_marks_body_and_source() {
    let mut lp = layer_pack(4, 0);
    let mut rg = rg_params(4, Vec::new());
    rg.river_id = 7;
    rg.river_width = 2;
    sort_uninterrupted(&mut rg, &mut lp, 5, 1);
    assert_eq!(lp.rivers.element[5], RIVER_BODY);
    assert_eq!(lp.rivers.element[1], RIVER_SOURCE);
    assert_eq!(lp.rivers_id[5], 7);
    assert_eq!(lp.rivers.width[5], 2);
    assert_eq!(lp.rivers_id[1], 0);
}

#[test]
fn sort_uninterrupted_source_wins_on_same_cell() {
    let mut lp = layer_pack(4, 0);
    let mut rg = rg_params(4, Vec::new());
    rg.river_id = 3;
    sort_uninterrupted(&mut rg, &mut lp, 6, 6);
    assert_eq!(lp.rivers.element[6], RIVER_SOURCE);
    assert_eq!(lp.rivers_id[6], 3);
}

#[test]
fn width_routine_empty_queue_uses_river_width() {
    let mut lp = layer_pack(4, 0);
    let mut rg = rg_params(4, Vec::new());
    lp.rivers.width[9] = 4;
    lp.rivers_id[9] = 11;
    width_routine(&mut rg, &mut lp, 5, 9);
    assert_eq!(
        rg.rivers_paths.width_queue,
        vec![WidthEntry { river_id_downstr: 11, width_new: 5 }]
    );
}

#[test]
fn width_routine_takes_last_queued_width() {
    let mut lp = layer_pack(4, 0);
    let mut rg = rg_params(4, Vec::new());
    lp.rivers.width[9] = 1;
    lp.rivers_id[9] = 11;
    rg.rivers_paths.width_queue.push(WidthEntry { river_id_downstr: 11, width_new: 2 });
    rg.rivers_paths.width_queue.push(WidthEntry { river_id_downstr: 30, width_new: 6 });
    width_routine(&mut rg, &mut lp, 5, 9);
    assert_eq!(rg.rivers_paths.width_queue.len(), 3);
    assert_eq!(
        rg.rivers_paths.width_queue[2],
        WidthEntry { river_id_downstr: 11, width_new: 3 }
    );
}

#[test]
fn width_routine_takes_latest_of_several_entries() {
    let mut lp = layer_pack(4, 0);
    let mut rg = rg_params(4, Vec::new());
    lp.rivers_id[9] = 11;
    rg.rivers_paths.width_queue.push(WidthEntry { river_id_downstr: 11, width_new: 2 });
    rg.rivers_paths.width_queue.push(WidthEntry { river_id_downstr: 11, width_new: 5 });
    rg.rivers_paths.width_queue.push(WidthEntry { river_id_downstr: 30, width_new: 9 });
    width_routine(&mut rg, &mut lp, 5, 9);
    assert_eq!(rg.rivers_paths.width_queue[3], WidthEntry { river_id_downstr: 11, width_new: 6 });
}

#[test]
fn width_routine_ignores_other_rivers_in_queue() {
    let mut lp = layer_pack(4, 0);
    let mut rg = rg_params(4, Vec::new());
    lp.rivers.width[9] = 1;
    lp.rivers_id[9] = 11;
    rg.rivers_paths.width_queue.push(WidthEntry { river_id_downstr: 30, width_new: 6 });
    width_routine(&mut rg, &mut lp, 5, 9);
    assert_eq!(rg.rivers_paths.width_queue[1], WidthEntry { river_id_downstr: 11, width_new: 2 });
}

#[test]
fn width_routine_is_bounded_by_order_max() {
    let mut lp = layer_pack(4, 0);
    let mut rg = rg_params(4, Vec::new());
    lp.rivers.width[9] = u16::MAX;
    width_routine(&mut rg, &mut lp, 5, 9);
    assert_eq!(rg.rivers_paths.width_queue[0].width_new, RIVER_WIDTH_ORDER_MAX);
    width_routine(&mut rg, &mut lp, 5, 9);
    assert_eq!(rg.rivers_paths.width_queue[1].width_new, RIVER_WIDTH_ORDER_MAX);
}

#[test]
fn erosion_adjust_queues_rise() {
    let mut lp = layer_pack(4, 0);
    let mut rg = rg_params(4, Vec::new());
    lp.topography.terrain[1] = 40;
    lp.topography.terrain[2] = 47;
    lp.rivers_id[2] = 9;
    erosion_adjust(&mut rg, &mut lp, 1, 2);
    assert_eq!(
        rg.rivers_paths.erosion_queue,
        vec![ErosionEntry { river_id_downstr: 9, terrain_diff: 7 }]
    );
}

#[test]
fn erosion_adjust_queues_zero_on_flat() {
    let mut lp = layer_pack(4, 0);
    let mut rg = rg_params(4, Vec::new());
    lp.rivers_id[2] = 9;
    erosion_adjust(&mut rg, &mut lp, 1, 2);
    assert_eq!(
        rg.rivers_paths.erosion_queue,
        vec![ErosionEntry { river_id_downstr: 9, terrain_diff: 0 }]
    );
}

#[test]
fn erosion_adjust_skips_fall() {
    let mut lp = layer_pack(4, 0);
    let mut rg = rg_params(4, Vec::new());
    lp.topography.terrain[1] = 60;
    erosion_adjust(&mut rg, &mut lp, 1, 2);
    assert!(rg.rivers_paths.erosion_queue.is_empty());
}

#[test]
fn erosion_initiate_queues_zero() {
    let mut lp = layer_pack(4, 0);
    let mut rg = rg_params(4, Vec::new());
    erosion_initiate(&mut rg, &mut lp, 4);
    assert_eq!(
        rg.rivers_paths.erosion_queue,
        vec![ErosionEntry { river_id_downstr: 4, terrain_diff: 0 }]
    );
}

#[test]
fn sort_crossing_marks_and_queues() {
    let mut lp = layer_pack(4, 0);
    let mut rg = rg_params(4, Vec::new());
    rg.river_id = 2;
    rg.river_width = 1;
    lp.rivers_id[6] = 8;
    lp.rivers.width[6] = 3;
    lp.topography.terrain[6] = 55;
    sort_crossing(&mut rg, &mut lp, 5, 0, 6);
    assert_eq!(lp.rivers.element[5], RIVER_BODY);
    assert_eq!(lp.rivers.element[0], RIVER_SOURCE);
    assert_eq!(lp.rivers_id[5], 2);
    assert_eq!(
        rg.rivers_paths.width_queue,
        vec![WidthEntry { river_id_downstr: 8, width_new: 4 }]
    );
    assert_eq!(
        rg.rivers_paths.erosion_queue,
        vec![ErosionEntry { river_id_downstr: 8, terrain_diff: 5 }]
    );
}

#[test]
fn map_rivers_reverse_maps_straight_river() {
    let mut lp = layer_pack(4, 0);
    let mut rg = rg_params(4, Vec::new());
    let river = entry(1, 2, vec![(0, 0), (1, 0), (2, 0), (3, 0)]);
    map_rivers_reverse(&mut rg, &mut lp, &river);

    assert_eq!(rg.river_id, 1);
    assert_eq!(rg.river_width, 2);
    assert_eq!(rg.river_source, (0, 0));
    assert_eq!(rg.river_end, (3, 0));
    assert_eq!(rg.upstream_neighbor, (2, 0));

    // Cell 0 was marked body and then source; 4, 8 body; 12 is the end on land.
    assert_eq!(lp.rivers.element[0], RIVER_SOURCE);
    assert_eq!(lp.rivers.element[4], RIVER_BODY);
    assert_eq!(lp.rivers.element[8], RIVER_BODY);
    assert_eq!(lp.rivers.element[12], RIVER_BODY);
    for i in [0, 4, 8] {
        assert_eq!(lp.rivers_id[i], 1);
        assert_eq!(lp.rivers.width[i], 2);
        assert_eq!(lp.rivers.downstream[i], 0);
    }
    assert_eq!(lp.rivers.upstream[4], 4);
    assert_eq!(lp.rivers.upstream[8], 4);
    assert_eq!(lp.rivers_id[12], 0);
    assert_eq!(
        rg.rivers_paths.erosion_queue,
        vec![ErosionEntry { river_id_downstr: 1, terrain_diff: 0 }]
    );
    assert!(rg.rivers_paths.width_queue.is_empty());
    // Off the course, nothing changed.
    assert_eq!(lp.rivers.element[1], NO_RIVER);
    assert_eq!(lp.rivers.element[13], NO_RIVER);
}

#[test]
fn map_rivers_reverse_marks_own_end_on_land() {
    // 2 by 2 map; the river before ended at (0, 1).
    let mut lp = layer_pack(2, 0);
    let mut rg = rg_params(2, Vec::new());
    rg.river_end = (0, 1);
    let river = entry(1, 1, vec![(0, 0), (1, 0)]);
    map_rivers_reverse(&mut rg, &mut lp, &river);
    assert_eq!(lp.rivers.element[2], RIVER_BODY);
    assert_eq!(lp.rivers.element[1], NO_RIVER);
    assert_eq!(rg.river_end, (1, 0));
}

#[test]
fn map_rivers_reverse_end_in_water_is_not_marked() {
    let mut lp = layer_pack(2, 0);
    let mut rg = rg_params(2, Vec::new());
    lp.topography.watermask[2] = 1;
    let river = entry(1, 1, vec![(0, 0), (1, 0)]);
    map_rivers_reverse(&mut rg, &mut lp, &river);
    assert_eq!(lp.rivers.element[0], RIVER_SOURCE);
    assert_eq!(lp.rivers.element[2], NO_RIVER);
}

#[test]
fn map_rivers_reverse_marks_previous_source() {
    // The source cell marked is that of the river mapped before.
    let mut lp = layer_pack(4, 0);
    let mut rg = rg_params(4, Vec::new());
    rg.river_source = (0, 3);
    let river = entry(1, 1, vec![(1, 0), (2, 0), (3, 0)]);
    map_rivers_reverse(&mut rg, &mut lp, &river);
    assert_eq!(lp.rivers.element[3], RIVER_SOURCE);
    assert_eq!(lp.rivers.element[4], RIVER_BODY);
    assert_eq!(rg.river_source, (1, 0));
}

#[test]
fn map_rivers_reverse_leaves_short_river_unmapped() {
    let mut lp = layer_pack(4, 3);
    let mut rg = rg_params(4, Vec::new());
    let river = entry(1, 2, vec![(0, 0), (1, 0), (2, 0), (3, 0)]);
    map_rivers_reverse(&mut rg, &mut lp, &river);
    assert_eq!(rg.river_id, 1);
    assert!(lp.rivers.element.iter().all(|e| *e == NO_RIVER));
    assert!(rg.rivers_paths.erosion_queue.is_empty());
}

#[test]
fn map_rivers_reverse_stops_at_polar_cell() {
    let mut lp = layer_pack(4, 0);
    let mut rg = rg_params(4, Vec::new());
    lp.climate.abs_temperature[8] = -30;
    let river = entry(1, 2, vec![(0, 0), (1, 0), (2, 0), (3, 0)]);
    map_rivers_reverse(&mut rg, &mut lp, &river);
    assert_eq!(lp.rivers.element[0], RIVER_SOURCE);
    assert_eq!(lp.rivers.element[4], RIVER_BODY);
    assert_eq!(lp.rivers.element[8], NO_RIVER);
    assert_eq!(lp.rivers.upstream[8], 0);
    assert_eq!(rg.upstream_neighbor, (1, 0));
}

#[test]
fn map_rivers_reverse_stops_at_big_sink() {
    let mut lp = layer_pack(4, 0);
    let mut rg = rg_params(4, Vec::new());
    lp.topography.watermask[4] = 4;
    let river = entry(1, 2, vec![(0, 0), (1, 0), (2, 0), (3, 0)]);
    map_rivers_reverse(&mut rg, &mut lp, &river);
    assert_eq!(lp.rivers.element[0], RIVER_SOURCE);
    assert_eq!(lp.rivers.element[4], NO_RIVER);
}

#[test]
fn map_rivers_reverse_skips_river_starting_on_river() {
    let mut lp = layer_pack(4, 0);
    let mut rg = rg_params(4, Vec::new());
    lp.rivers.element[0] = RIVER_BODY;
    let river = entry(1, 2, vec![(0, 0), (1, 0), (2, 0), (3, 0)]);
    map_rivers_reverse(&mut rg, &mut lp, &river);
    // The survey stops at the first step; one step is more than the minimum
    // of none, so an erosion entry is queued, but mapping stops at once.
    assert_eq!(
        rg.rivers_paths.erosion_queue,
        vec![ErosionEntry { river_id_downstr: 1, terrain_diff: 0 }]
    );
    assert_eq!(lp.rivers.element[4], NO_RIVER);
    assert_eq!(lp.rivers_id[0], 0);
}

#[test]
fn map_rivers_reverse_joins_other_river_with_waterfall() {
    let mut lp = layer_pack(4, 0);
    let mut rg = rg_params(4, Vec::new());
    // River 5 runs through cell (2, 0) = 8, which lies lower.
    lp.rivers.element[8] = RIVER_BODY;
    lp.rivers_id[8] = 5;
    lp.rivers.width[8] = 3;
    lp.topography.terrain[8] = 40;
    let river = entry(1, 2, vec![(0, 0), (1, 0), (2, 0), (3, 0)]);
    map_rivers_reverse(&mut rg, &mut lp, &river);
    assert_eq!(lp.rivers.element[0], RIVER_SOURCE);
    assert_eq!(lp.rivers.element[4], RIVER_BODY);
    assert_eq!(lp.rivers.element[8], RIVER_WATERFALL);
    assert_eq!(lp.rivers_id[8], 5);
    assert_eq!(lp.rivers.element[12], NO_RIVER);
    assert_eq!(
        rg.rivers_paths.width_queue,
        vec![WidthEntry { river_id_downstr: 5, width_new: 4 }]
    );
    // Only the initial entry: the terrain falls into the other river.
    assert_eq!(
        rg.rivers_paths.erosion_queue,
        vec![ErosionEntry { river_id_downstr: 1, terrain_diff: 0 }]
    );
    assert_eq!(lp.rivers.downstream[4], 0);
}

#[test]
fn map_rivers_reverse_waterfall_becomes_multiple() {
    let mut lp = layer_pack(4, 0);
    let mut rg = rg_params(4, Vec::new());
    lp.rivers.element[8] = RIVER_WATERFALL;
    lp.rivers_id[8] = 5;
    lp.topography.terrain[8] = 40;
    let river = entry(1, 2, vec![(0, 0), (1, 0), (2, 0), (3, 0)]);
    map_rivers_reverse(&mut rg, &mut lp, &river);
    assert_eq!(lp.rivers.element[8], RIVER_WATERFALLS_MUL);
}

#[test]
fn map_rivers_reverse_flows_into_river_end() {
    let mut lp = layer_pack(4, 0);
    let mut rg = rg_params(4, Vec::new());
    lp.rivers.element[8] = RIVER_END;
    lp.rivers_id[8] = 5;
    let river = entry(1, 2, vec![(0, 0), (1, 0), (2, 0)]);
    map_rivers_reverse(&mut rg, &mut lp, &river);
    assert_eq!(lp.rivers.element[4], RIVER_BODY);
    assert_eq!(lp.rivers.downstream[4], 0);
    assert_eq!(lp.rivers.element[8], RIVER_END);
}

#[test]
fn map_paths_maps_list_from_last_to_first() {
    let mut lp = layer_pack(4, 0);
    let first = entry(1, 1, vec![(0, 1), (1, 1), (2, 1), (3, 1)]);
    let last = entry(2, 2, vec![(0, 3), (1, 3), (2, 3), (3, 3)]);
    let mut rg = rg_params(4, vec![first, last]);
    map_paths(&mut rg, &mut lp);
    // The last entry was mapped first, the first entry last.
    assert_eq!(rg.river_id, 1);
    assert_eq!(rg.river_source, (0, 1));
    assert_eq!(
        rg.rivers_paths.erosion_queue,
        vec![
            ErosionEntry { river_id_downstr: 2, terrain_diff: 0 },
            ErosionEntry { river_id_downstr: 1, terrain_diff: 0 },
        ]
    );
    assert_eq!(lp.rivers_id[7], 2);
    assert_eq!(lp.rivers_id[5], 1);
    // The list is kept.
    assert_eq!(rg.rivers_paths.list.len(), 2);
    assert_eq!(rg.rivers_paths.list[1].river_id, 2);
}

#[test]
fn map_paths_on_empty_list_changes_nothing() {
    let mut lp = layer_pack(3, 0);
    let mut rg = rg_params(3, Vec::new());
    rg.river_end = (2, 0);
    map_paths(&mut rg, &mut lp);
    assert!(lp.rivers.element.iter().all(|e| *e == NO_RIVER));
    assert!(rg.rivers_paths.erosion_queue.is_empty());
    assert_eq!(rg.river_id, 0);
}

#[test]
fn layer_pack_checks() {
    let mut lp = layer_pack(4, 0);
    assert!(lp.is_wf());
    lp.rivers.element[3] = 9;
    assert!(lp.is_wf());
    let mut lp = layer_pack(4, 0);
    lp.rivers_id.pop();
    assert!(!lp.is_wf());
    let mut lp = layer_pack(4, 0);
    lp.layer_vec_len = 15;
    assert!(!lp.is_wf());
}

#[test]
fn path_checks() {
    assert!(are_neighbors((1, 1), (0, 2)));
    assert!(!are_neighbors((1, 1), (1, 1)));
    assert!(!are_neighbors((1, 1), (3, 1)));
    assert!(is_valid_path(4, &vec![(0, 0), (1, 1), (2, 1)]));
    assert!(!is_valid_path(4, &vec![]));
    assert!(!is_valid_path(4, &vec![(0, 0), (2, 0)]));
    assert!(!is_valid_path(4, &vec![(3, 3), (4, 3)]));
}

#[test]
fn rivers_ready_checks_list_and_ends() {
    let lp = layer_pack(4, 0);
    let rg = rg_params(4, vec![entry(1, 1, vec![(0, 0), (1, 0)])]);
    assert!(rivers_ready(&rg, &lp));
    let rg = rg_params(4, vec![entry(1, 1, vec![(0, 0), (0, 0)])]);
    assert!(!rivers_ready(&rg, &lp));
    let mut rg = rg_params(4, Vec::new());
    rg.river_source = (4, 0);
    assert!(!rivers_ready(&rg, &lp));
}

#[test]
fn river_cells_known_checks_course_cells_only() {
    let mut lp = layer_pack(4, 0);
    let rg = rg_params(4, vec![entry(1, 1, vec![(0, 0), (1, 0)])]);
    assert!(river_cells_known(&rg, &lp));
    lp.rivers.element[15] = 9;
    assert!(river_cells_known(&rg, &lp));
    lp.rivers.element[4] = 9;
    assert!(!river_cells_known(&rg, &lp));
}

#[test]
fn map_rivers_reverse_unknown_element_off_course_is_fine() {
    let mut lp = layer_pack(4, 0);
    let mut rg = rg_params(4, Vec::new());
    lp.rivers.element[15] = 9;
    let river = entry(1, 2, vec![(0, 0), (1, 0), (2, 0)]);
    map_rivers_reverse(&mut rg, &mut lp, &river);
    assert_eq!(lp.rivers.element[4], RIVER_BODY);
    assert_eq!(lp.rivers.element[15], 9);
}
