//! The game's shared state and its start-up values.

use vstd::prelude::*;

verus! {

/// Side, in cells, of the map drawn around the player at the start.
pub const MAP_RENDER_SIZE: usize = 13;

/// Common shared data for all the game's functions: the world `L`, the
/// options `O`, the command words `C`, the player's position and the world
/// values read at it.
pub struct GameData<L, O, C> {
    // World
    pub lp: L,
    pub options: O,
    // Commands
    pub commands: C,
    pub commands_vec: Vec<String>,
    // Coordinates; +x is north, +y is east
    pub x: usize,
    pub y: usize,
    pub index: usize,
    // World data, absolute values
    pub temp: isize,
    pub rain: usize,
    pub elev: usize,
    pub water: u16,
    pub biome: u8,
    pub georeg_id: u16,
    pub river_id: u16,
    pub river_width: u16,
    pub river_element: u16,
    pub river_upstream: u16,
    pub river_downstream: u16,
    // Other in-game variables
    pub map_render_size: usize,
}

/// The game's text: message tables `G`, `P` and `U`, and the strings of the
/// current turn.
pub struct GameStrings<G, P, U> {
    pub gm_str: G,
    pub panic_str: P,
    pub ui_el: U,
    // Temporary value
    pub s: String,
    // Basic strings
    pub coord_str: String,
    pub temp_str: String,
    pub biome_str: String,
    pub georeg_id_str: String,
    pub rain_str: String,
    pub elev_str: String,
    pub water_str: String,
    pub river_str: String,
}

/// The game state at the start: none when no world could be loaded;
/// otherwise the world, options and commands given, no commands typed, the
/// player at the origin, every world value zero, and the default map size.
pub fn init_gd<L, O, C>(lp: Option<L>, options: O, commands: C) -> (r: Option<GameData<L, O, C>>)
    ensures
        r is Some <==> lp is Some,
        r matches Some(gd) ==> {
            &&& gd.lp == lp->0
            &&& gd.options == options
            &&& gd.commands == commands
            &&& gd.commands_vec@.len() == 0
            &&& gd.x == 0 && gd.y == 0 && gd.index == 0
            &&& gd.temp == 0 && gd.rain == 0 && gd.elev == 0 && gd.water == 0
            &&& gd.biome == 0 && gd.georeg_id == 0
            &&& gd.river_id == 0 && gd.river_width == 0 && gd.river_element == 0
            &&& gd.river_upstream == 0 && gd.river_downstream == 0
            &&& gd.map_render_size == MAP_RENDER_SIZE
        },
{
    let lp = match lp {
        Some(lp) => lp,
        None => return None,
    };
    let gd = GameData {
        lp,
        options,
        commands,
        commands_vec: Vec::new(),
        x: 0,
        y: 0,
        index: 0,
        temp: 0,
        rain: 0,
        elev: 0,
        water: 0,
        biome: 0,
        georeg_id: 0,
        river_id: 0,
        river_width: 0,
        river_element: 0,
        river_upstream: 0,
        river_downstream: 0,
        map_render_size: MAP_RENDER_SIZE,
    };
    Some(gd)
}

/// The game's strings at the start: the message tables given, and every
/// string of the turn empty.
pub fn init_gs<G, P, U>(gm_str: G, panic_str: P, ui_el: U) -> (r: GameStrings<G, P, U>)
    ensures
        r.gm_str == gm_str,
        r.panic_str == panic_str,
        r.ui_el == ui_el,
        r.s@.len() == 0,
        r.coord_str@.len() == 0,
        r.temp_str@.len() == 0,
        r.biome_str@.len() == 0,
        r.georeg_id_str@.len() == 0,
        r.rain_str@.len() == 0,
        r.elev_str@.len() == 0,
        r.water_str@.len() == 0,
        r.river_str@.len() == 0,
{
    GameStrings {
        gm_str,
        panic_str,
        ui_el,
        s: String::new(),
        coord_str: String::new(),
        temp_str: String::new(),
        biome_str: String::new(),
        georeg_id_str: String::new(),
        rain_str: String::new(),
        elev_str: String::new(),
        water_str: String::new(),
        river_str: String::new(),
    }
}

} // verus!
