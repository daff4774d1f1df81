use worldgen::watermask_mapping::{exclude_dry_and_ice, next_unexcluded, write_map};
use worldgen::world_constants::TEMP_PERM_ICE;

#[test]
fn exclude_dry_and_ice_marks_frozen_and_high_cells() {
    let mut exclusion = vec![false, false, false, true];
    let elevation = vec![10, 120, 50, 10];
    let temperature = vec![15, 15, TEMP_PERM_ICE, 15];
    exclude_dry_and_ice(&mut exclusion, &elevation, &temperature, 100);
    assert_eq!(exclusion, vec![false, true, true, true]);
}

#[test]
fn exclude_dry_and_ice_at_exact_limits() {
    let mut exclusion = vec![false, false];
    let elevation = vec![100, 101];
    let temperature = vec![TEMP_PERM_ICE + 1, TEMP_PERM_ICE + 1];
    exclude_dry_and_ice(&mut exclusion, &elevation, &temperature, 100);
    assert_eq!(exclusion, vec![false, true]);
}

#[test]
fn next_unexcluded_finds_first_open_cell() {
    let exclusion = vec![true, false, true, false];
    assert_eq!(next_unexcluded(&exclusion, 0), Some(1));
    assert_eq!(next_unexcluded(&exclusion, 1), Some(1));
    assert_eq!(next_unexcluded(&exclusion, 2), Some(3));
    assert_eq!(next_unexcluded(&exclusion, 4), None);
    assert_eq!(next_unexcluded(&vec![true, true], 0), None);
}

#[test]
fn write_map_writes_region_cells_in_box() {
    // 3 by 3 map; the region is cells (0, 1), (1, 1), (1, 2) and (2, 0).
    let mut watermask = vec![0u16; 9];
    let mut region = vec![false; 9];
    region[1] = true;
    region[4] = true;
    region[5] = true;
    region[6] = true;
    write_map(&mut watermask, &region, 3, 0, 1, 1, 2, 7);
    // (2, 0) lies outside the box rows 0..=1, columns 1..=2.
    assert_eq!(watermask, vec![0, 7, 0, 0, 7, 7, 0, 0, 0]);
}

#[test]
fn write_map_empty_box_writes_nothing() {
    let mut watermask = vec![3u16; 4];
    let region = vec![true; 4];
    write_map(&mut watermask, &region, 2, 1, 0, 0, 1, 9);
    assert_eq!(watermask, vec![3, 3, 3, 3]);
}
