use worldgen::colors_topography::Stuff;
use worldgen::struct_ops::{init_gd, init_gs, MAP_RENDER_SIZE};

#[test]
fn init_gd_without_world_is_none() {
    let gd = init_gd::<u8, &str, &str>(None, "options", "commands");
    assert!(gd.is_none());
}

#[test]
fn init_gd_starts_at_origin() {
    let gd = init_gd(Some(vec![1u8, 2, 3]), "options", "commands").unwrap();
    assert_eq!(gd.lp, vec![1, 2, 3]);
    assert_eq!(gd.options, "options");
    assert_eq!(gd.commands, "commands");
    assert!(gd.commands_vec.is_empty());
    assert_eq!((gd.x, gd.y, gd.index), (0, 0, 0));
    assert_eq!((gd.temp, gd.rain, gd.elev, gd.water), (0, 0, 0, 0));
    assert_eq!((gd.biome, gd.georeg_id), (0, 0));
    assert_eq!((gd.river_id, gd.river_width, gd.river_element), (0, 0, 0));
    assert_eq!((gd.river_upstream, gd.river_downstream), (0, 0));
    assert_eq!(gd.map_render_size, 13);
    assert_eq!(MAP_RENDER_SIZE, 13);
}

#[test]
fn init_gs_has_empty_strings() {
    let gs = init_gs(1u8, 2u16, 3u32);
    assert_eq!((gs.gm_str, gs.panic_str, gs.ui_el), (1, 2, 3));
    for s in [
        &gs.s,
        &gs.coord_str,
        &gs.temp_str,
        &gs.biome_str,
        &gs.georeg_id_str,
        &gs.rain_str,
        &gs.elev_str,
        &gs.water_str,
        &gs.river_str,
    ] {
        assert!(s.is_empty());
    }
}

#[test]
fn stuff_holds_colour_codes() {
    let c = |i: usize| format!("#{:06x}", i);
    let stuff = Stuff {
        color_0: c(0),
        color_1: c(1),
        color_2: c(2),
        color_3: c(3),
        color_4: c(4),
        color_5: c(5),
        color_6: c(6),
        color_7: c(7),
        color_8: c(8),
        color_9: c(9),
        color_10: c(10),
        color_11: c(11),
        color_12: c(12),
        color_13: c(13),
        color_14: c(14),
        color_15: c(15),
        color_16: c(16),
        color_17: c(17),
        color_18: c(18),
        color_19: c(19),
        color_20: c(20),
        color_21: c(21),
        color_22: c(22),
        color_23: c(23),
        color_24: c(24),
        color_25: c(25),
    };
    assert_eq!(stuff.color_0, "#000000");
    assert_eq!(stuff.color_25, "#000019");
}
