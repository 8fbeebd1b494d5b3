//! The world: soil, tiles, the rectangular grid of tiles, plots and the whole
//! game state.

use crate::economy::Market;
use crate::ledger::Ledger;
use crate::pests::Pest;
use crate::plant::{grown, Plant, advance_growth};
use crate::rng::random_below;
use crate::weather::Weather;
use crate::UNIT;
use vstd::prelude::*;

verus! {

/// The kinds of soil.
#[derive(Debug, Clone, Copy, PartialEq, Eq, Structural)]
pub enum SoilType {
    Sand,
    Clay,
    Loam,
}

/// The nutrients of a soil, each between 0 and `UNIT`.
#[derive(Debug, Clone, Copy, PartialEq, Eq, Structural)]
pub struct Nutrients {
    pub nitrogen: u32,
    pub phosphorus: u32,
    pub potassium: u32,
}

/// The state of the ground of one tile. Moisture and nutrients lie between 0
/// and `UNIT` after every change; pH and weeds are kept as they are given.
#[derive(Debug, Clone, Copy, PartialEq, Eq, Structural)]
pub struct Soil {
    pub soil_type: SoilType,
    pub soil_moisture: u32,
    pub soil_nutrients: Nutrients,
    pub soil_ph: u32,
    pub weeds: u32,
}

/// A value brought into the range from 0 to `UNIT`.
pub open spec fn clamp_unit(v: int) -> u32 {
    if v < 0 {
        0
    } else if v > UNIT {
        UNIT
    } else {
        v as u32
    }
}

/// Adds a change to a bounded quantity and brings the sum back into range.
pub fn clamped_add(value: u32, delta: i64) -> (r: u32)
    ensures
        r == clamp_unit(value + delta),
{
    let sum: i128 = value as i128 + delta as i128;
    if sum < 0 {
        0
    } else if sum > UNIT as i128 {
        UNIT
    } else {
        sum as u32
    }
}

/// How much one tick of the weather changes the soil moisture.
pub open spec fn weather_moisture_delta(weather: Weather) -> int {
    match weather {
        Weather::Sunny => -500,
        Weather::Rainy => 2_000,
        Weather::Heatwave => -1_000,
        Weather::Cloudy => 0,
    }
}

/// The moisture a plant draws from its tile each tick.
pub const PLANT_WATER_USE: u32 = 100;

/// The moisture one watering adds.
pub const WATERING_AMOUNT: i64 = 2_000;

impl Soil {
    /// Moisture and the three nutrients lie between 0 and `UNIT`.
    pub open spec fn is_bounded(&self) -> bool {
        &&& self.soil_moisture <= UNIT
        &&& self.soil_nutrients.nitrogen <= UNIT
        &&& self.soil_nutrients.phosphorus <= UNIT
        &&& self.soil_nutrients.potassium <= UNIT
    }

    /// The soil after the four bounded quantities change by the given
    /// amounts, each sum clamped into range; the rest stays.
    pub open spec fn shifted(self, moisture: int, n: int, p: int, k: int) -> Soil {
        Soil {
            soil_moisture: clamp_unit(self.soil_moisture + moisture),
            soil_nutrients: Nutrients {
                nitrogen: clamp_unit(self.soil_nutrients.nitrogen + n),
                phosphorus: clamp_unit(self.soil_nutrients.phosphorus + p),
                potassium: clamp_unit(self.soil_nutrients.potassium + k),
            },
            ..self
        }
    }

    /// The soil after one tick of the weather, with a plant drawing water and
    /// the given nutrients from it when one grows there.
    pub open spec fn weathered(self, weather: Weather, uptake: Option<(u32, u32, u32)>) -> Soil {
        match uptake {
            Some(c) => self.shifted(
                weather_moisture_delta(weather) - PLANT_WATER_USE,
                -c.0,
                -c.1,
                -c.2,
            ),
            None => self.shifted(weather_moisture_delta(weather), 0, 0, 0),
        }
    }

    /// Changes the four bounded quantities by the given amounts and clamps
    /// each of them into range.
    pub fn shift(&mut self, moisture: i64, n: i64, p: i64, k: i64)
        ensures
            *final(self) == old(self).shifted(moisture as int, n as int, p as int, k as int),
            final(self).is_bounded(),
    {
        self.soil_moisture = clamped_add(self.soil_moisture, moisture);
        self.soil_nutrients.nitrogen = clamped_add(self.soil_nutrients.nitrogen, n);
        self.soil_nutrients.phosphorus = clamped_add(self.soil_nutrients.phosphorus, p);
        self.soil_nutrients.potassium = clamped_add(self.soil_nutrients.potassium, k);
    }

    /// Adds water (or dries the soil, for a negative amount).
    pub fn add_moisture(&mut self, amount: i64)
        ensures
            *final(self) == old(self).shifted(amount as int, 0, 0, 0),
            final(self).is_bounded(),
    {
        self.shift(amount, 0, 0, 0);
    }

    /// Adds nitrogen, phosphorus and potassium.
    pub fn add_nutrients(&mut self, n: i64, p: i64, k: i64)
        ensures
            *final(self) == old(self).shifted(0, n as int, p as int, k as int),
            final(self).is_bounded(),
    {
        self.shift(0, n, p, k);
    }

    /// Applies one tick of the weather, and the uptake of a plant if one
    /// grows here.
    pub fn weather(&mut self, weather: Weather, uptake: Option<(u32, u32, u32)>)
        ensures
            *final(self) == old(self).weathered(weather, uptake),
            final(self).is_bounded(),
    {
        let delta: i64 = match weather {
            Weather::Sunny => -500,
            Weather::Rainy => 2_000,
            Weather::Heatwave => -1_000,
            Weather::Cloudy => 0,
        };
        match uptake {
            Some(c) => self.shift(
                delta - PLANT_WATER_USE as i64,
                -(c.0 as i64),
                -(c.1 as i64),
                -(c.2 as i64),
            ),
            None => self.shift(delta, 0, 0, 0),
        }
    }
}

/// One square of a grid: its soil, and at most one plant and one pest.
pub struct Tile {
    pub soil: Soil,
    pub plant: Option<Plant>,
    pub pest: Option<Pest>,
}

/// What a plant draws from the soil each tick, if one grows on the tile.
pub open spec fn uptake_of(plant: Option<Plant>) -> Option<(u32, u32, u32)> {
    match plant {
        Some(p) => Some(p.genetics.nutrient_consumption),
        None => None,
    }
}

/// A tile after the first pass of a tick: the weather and the plant's uptake
/// change the soil, then the plant grows in the soil as it now is.
pub open spec fn tended(t: Tile, weather: Weather) -> Tile {
    let soil = t.soil.weathered(weather, uptake_of(t.plant));
    Tile {
        soil,
        plant: match t.plant {
            Some(p) => Some(grown(p, soil.soil_moisture, weather)),
            None => None,
        },
        pest: t.pest,
    }
}

/// Runs the first pass of a tick on one tile.
pub fn tend_tile(tile: &mut Tile, weather: Weather)
    ensures
        *final(tile) == tended(*old(tile), weather),
{
    let uptake = match &tile.plant {
        Some(p) => Some(p.genetics.nutrient_consumption),
        None => None,
    };
    tile.soil.weather(weather, uptake);
    let moisture = tile.soil.soil_moisture;
    match &mut tile.plant {
        Some(p) => advance_growth(p, moisture, weather),
        None => {},
    }
}

/// A rectangular grid of tiles, stored row by row.
pub struct Grid {
    pub tiles: Vec<Vec<Tile>>,
}

impl Grid {
    /// The number of rows.
    pub open spec fn height(&self) -> int {
        self.tiles@.len() as int
    }

    /// The length of the rows (that of the first, where there is one).
    pub open spec fn width(&self) -> int {
        if self.tiles@.len() > 0 {
            self.tiles@[0]@.len() as int
        } else {
            0
        }
    }

    /// Every row has the same length.
    pub open spec fn is_rectangular(&self) -> bool {
        forall|r: int| 0 <= r < self.tiles@.len() ==> #[trigger] self.tiles@[r]@.len() == self.width()
    }

    /// The tile in column `x` of row `y`.
    pub open spec fn tile(&self, x: int, y: int) -> Tile {
        self.tiles@[y]@[x]
    }

    /// `(x, y)` names a tile of the grid.
    pub open spec fn has_tile(&self, x: int, y: int) -> bool {
        0 <= y < self.tiles@.len() && 0 <= x < self.tiles@[y]@.len()
    }

    /// `other` has the same shape as this grid.
    pub open spec fn same_shape(&self, other: &Grid) -> bool {
        &&& other.tiles@.len() == self.tiles@.len()
        &&& forall|r: int| 0 <= r < self.tiles@.len() ==> #[trigger] other.tiles@[r]@.len() == self.tiles@[r]@.len()
    }

    /// Whether `(x, y)` names a tile of the grid.
    pub fn contains_index(&self, x: usize, y: usize) -> (r: bool)
        ensures
            r == self.has_tile(x as int, y as int),
    {
        y < self.tiles.len() && x < self.tiles[y].len()
    }

    /// Whether `(x, y)` names a tile of the grid.
    pub fn contains(&self, x: u32, y: u32) -> (r: bool)
        ensures
            r == self.has_tile(x as int, y as int),
    {
        (y as usize) < self.tiles.len() && (x as usize) < self.tiles[y as usize].len()
    }
}

/// `after` is `before` once the first pass of a tick has run over it.
pub open spec fn tended_grid(before: &Grid, after: &Grid, weather: Weather) -> bool {
    &&& before.same_shape(after)
    &&& forall|x: int, y: int| before.has_tile(x, y) ==> #[trigger] after.tile(x, y) == tended(before.tile(x, y), weather)
}

/// Runs the first pass of a tick along one row.
fn tend_row(row: &mut Vec<Tile>, weather: Weather)
    ensures
        final(row)@.len() == old(row)@.len(),
        forall|x: int| 0 <= x < old(row)@.len() ==> #[trigger] final(row)@[x] == tended(old(row)@[x], weather),
{
    let mut x: usize = 0;
    while x < row.len()
        invariant
            row@.len() == old(row)@.len(),
            x <= row@.len(),
            forall|j: int| 0 <= j < x ==> #[trigger] row@[j] == tended(old(row)@[j], weather),
            forall|j: int| x <= j < row@.len() ==> #[trigger] row@[j] == old(row)@[j],
        decreases row@.len() - x,
    {
        tend_tile(&mut row[x], weather);
        x += 1;
    }
}

/// Runs the first pass of a tick over a grid: every tile's soil takes the
/// weather and its plant's uptake, then every plant grows.
pub fn tend_grid(grid: &mut Grid, weather: Weather)
    ensures
        tended_grid(&*old(grid), &*final(grid), weather),
{
    let mut y: usize = 0;
    while y < grid.tiles.len()
        invariant
            grid.tiles@.len() == old(grid).tiles@.len(),
            y <= grid.tiles@.len(),
            forall|r: int| 0 <= r < grid.tiles@.len() ==> #[trigger] grid.tiles@[r]@.len() == old(grid).tiles@[r]@.len(),
            forall|c: int, r: int| 0 <= r < y && 0 <= c < grid.tiles@[r]@.len() ==> #[trigger] grid.tiles@[r]@[c] == tended(old(grid).tiles@[r]@[c], weather),
            forall|r: int| y <= r < grid.tiles@.len() ==> #[trigger] grid.tiles@[r] == old(grid).tiles@[r],
        decreases grid.tiles@.len() - y,
    {
        tend_row(&mut grid.tiles[y], weather);
        y += 1;
    }
}


/// A square patch of the world, placed at `(x, y)` among the plots.
pub struct Plot {
    pub x: i32,
    pub y: i32,
    pub grid: Grid,
}

/// Everything a game holds: the plots (no two at the same place), the tick
/// count, the inventory (item name to count), the wallet (in units of
/// `UNIT`), the market and the weather.
pub struct MainGameState {
    pub plots: Vec<Plot>,
    pub tick_counter: u64,
    pub inventory: Ledger<u32>,
    pub wallet: u64,
    pub market: Market,
    pub current_weather: Weather,
}

/// A tile fit for the simulation: its soil is within bounds and its plant,
/// if any, has a non-empty yield range.
pub open spec fn tile_ok(t: Tile) -> bool {
    &&& t.soil.is_bounded()
    &&& (t.plant matches Some(p) ==> p.genetics.yield_range.0 <= p.genetics.yield_range.1)
}

/// A grid fit for the simulation: rectangular, with every tile fit.
pub open spec fn grid_ok(g: &Grid) -> bool {
    &&& g.is_rectangular()
    &&& forall|x: int, y: int| #[trigger] g.has_tile(x, y) ==> tile_ok(g.tile(x, y))
}

impl MainGameState {
    /// The game is fit for the simulation: no two plots share a place, and
    /// every grid is fit.
    pub open spec fn is_valid(&self) -> bool {
        &&& forall|i: int, j: int| 0 <= i < self.plots@.len() && 0 <= j < self.plots@.len() && i != j
            ==> !(#[trigger] self.plots@[i].x == #[trigger] self.plots@[j].x && self.plots@[i].y == self.plots@[j].y)
        &&& forall|i: int| 0 <= i < self.plots@.len() ==> grid_ok(&(#[trigger] self.plots@[i]).grid)
    }
}

/// The position of the first plot placed at the origin, searching from
/// `from` on.
pub open spec fn origin_from(plots: Seq<Plot>, from: int) -> Option<int>
    decreases plots.len() - from,
{
    if from < 0 || from >= plots.len() {
        None
    } else if plots[from].x == 0 && plots[from].y == 0 {
        Some(from)
    } else {
        origin_from(plots, from + 1)
    }
}

/// The position of the plot at the origin, the one every player action
/// works on.
pub open spec fn origin_plot(plots: Seq<Plot>) -> Option<int> {
    origin_from(plots, 0)
}

/// Finds the plot at the origin.
pub fn find_origin_plot(plots: &Vec<Plot>) -> (r: Option<usize>)
    ensures
        r matches Some(i) ==> origin_plot(plots@) == Some(i as int) && i < plots@.len() && plots@[i as int].x == 0 && plots@[i as int].y == 0,
        r is None ==> origin_plot(plots@) is None,
{
    let mut i: usize = 0;
    while i < plots.len()
        invariant
            i <= plots@.len(),
            origin_from(plots@, i as int) == origin_plot(plots@),
        decreases plots@.len() - i,
    {
        if plots[i].x == 0 && plots[i].y == 0 {
            return Some(i);
        }
        i += 1;
    }
    None
}

/// The draw for a starting soil value: uniform in `[3_000, 7_000)`.
fn starting_level() -> (r: u32)
    ensures
        3_000 <= r < 7_000,
{
    3_000 + random_below(4_000) as u32
}

/// A grid of `height` rows of `width` tiles, each of loam with moisture and
/// nutrients drawn from `[3_000, 7_000)` and pH from `[60_000, 75_000)`,
/// no weeds, and no plant or pest.
pub fn create_grid(width: u32, height: u32) -> (g: Grid)
    ensures
        g.tiles@.len() == height,
        forall|r: int| 0 <= r < height ==> #[trigger] g.tiles@[r]@.len() == width,
        grid_ok(&g),
        forall|x: int, y: int| #[trigger] g.has_tile(x, y) ==> {
            let t = g.tile(x, y);
            &&& t.plant is None
            &&& t.pest is None
            &&& t.soil.soil_type == SoilType::Loam
            &&& 3_000 <= t.soil.soil_moisture < 7_000
            &&& 3_000 <= t.soil.soil_nutrients.nitrogen < 7_000
            &&& 3_000 <= t.soil.soil_nutrients.phosphorus < 7_000
            &&& 3_000 <= t.soil.soil_nutrients.potassium < 7_000
            &&& 60_000 <= t.soil.soil_ph < 75_000
            &&& t.soil.weeds == 0
        },
{
    let mut tiles: Vec<Vec<Tile>> = Vec::new();
    let mut r: u32 = 0;
    while r < height
        invariant
            r <= height,
            tiles@.len() == r,
            forall|j: int| 0 <= j < r ==> #[trigger] tiles@[j]@.len() == width,
            forall|x: int, y: int| 0 <= y < r && 0 <= x < width ==> {
                let t = #[trigger] tiles@[y]@[x];
                &&& t.plant is None
                &&& t.pest is None
                &&& t.soil.soil_type == SoilType::Loam
                &&& 3_000 <= t.soil.soil_moisture < 7_000
                &&& 3_000 <= t.soil.soil_nutrients.nitrogen < 7_000
                &&& 3_000 <= t.soil.soil_nutrients.phosphorus < 7_000
                &&& 3_000 <= t.soil.soil_nutrients.potassium < 7_000
                &&& 60_000 <= t.soil.soil_ph < 75_000
                &&& t.soil.weeds == 0
            },
        decreases height - r,
    {
        let mut row: Vec<Tile> = Vec::new();
        let mut c: u32 = 0;
        while c < width
            invariant
                c <= width,
                row@.len() == c,
                forall|x: int| 0 <= x < c ==> {
                    let t = #[trigger] row@[x];
                    &&& t.plant is None
                    &&& t.pest is None
                    &&& t.soil.soil_type == SoilType::Loam
                    &&& 3_000 <= t.soil.soil_moisture < 7_000
                    &&& 3_000 <= t.soil.soil_nutrients.nitrogen < 7_000
                    &&& 3_000 <= t.soil.soil_nutrients.phosphorus < 7_000
                    &&& 3_000 <= t.soil.soil_nutrients.potassium < 7_000
                    &&& 60_000 <= t.soil.soil_ph < 75_000
                    &&& t.soil.weeds == 0
                },
            decreases width - c,
        {
            let soil_moisture = starting_level();
            let nitrogen = starting_level();
            let phosphorus = starting_level();
            let potassium = starting_level();
            let soil_ph = 60_000 + random_below(15_000) as u32;
            row.push(Tile {
                soil: Soil {
                    soil_type: SoilType::Loam,
                    soil_moisture,
                    soil_nutrients: Nutrients { nitrogen, phosphorus, potassium },
                    soil_ph,
                    weeds: 0,
                },
                plant: None,
                pest: None,
            });
            c += 1;
        }
        tiles.push(row);
        r += 1;
    }
    Grid { tiles }
}

/// Whether a tile is fit for the simulation.
pub fn check_tile(t: &Tile) -> (r: bool)
    ensures
        r == tile_ok(*t),
{
    let bounded = t.soil.soil_moisture <= UNIT && t.soil.soil_nutrients.nitrogen <= UNIT
        && t.soil.soil_nutrients.phosphorus <= UNIT && t.soil.soil_nutrients.potassium <= UNIT;
    match &t.plant {
        Some(p) => bounded && p.genetics.yield_range.0 <= p.genetics.yield_range.1,
        None => bounded,
    }
}

/// Whether a grid is fit for the simulation.
pub fn check_grid(g: &Grid) -> (r: bool)
    ensures
        r == grid_ok(g),
{
    let mut y: usize = 0;
    while y < g.tiles.len()
        invariant
            y <= g.tiles@.len(),
            forall|r: int| 0 <= r < y ==> #[trigger] g.tiles@[r]@.len() == g.width(),
            forall|c: int, r: int| 0 <= r < y && 0 <= c < g.tiles@[r]@.len() ==> tile_ok(#[trigger] g.tiles@[r]@[c]),
        decreases g.tiles@.len() - y,
    {
        if g.tiles[y].len() != g.tiles[0].len() {
            assert(!g.is_rectangular()) by {
                assert(g.tiles@[y as int]@.len() != g.width());
            }
            return false;
        }
        let mut x: usize = 0;
        while x < g.tiles[y].len()
            invariant
                y < g.tiles@.len(),
                x <= g.tiles@[y as int]@.len(),
                forall|c: int| 0 <= c < x ==> tile_ok(#[trigger] g.tiles@[y as int]@[c]),
            decreases g.tiles@[y as int]@.len() - x,
        {
            if !check_tile(&g.tiles[y][x]) {
                assert(g.has_tile(x as int, y as int));
                return false;
            }
            x += 1;
        }
        y += 1;
    }
    assert forall|c: int, r: int| #[trigger] g.has_tile(c, r) implies tile_ok(g.tile(c, r)) by {}
    true
}

impl MainGameState {
    /// Whether the game is fit for the simulation, as `is_valid` says.
    pub fn check_valid(&self) -> (r: bool)
        ensures
            r == self.is_valid(),
    {
        let mut i: usize = 0;
        while i < self.plots.len()
            invariant
                i <= self.plots@.len(),
                forall|a: int| 0 <= a < i ==> grid_ok(&(#[trigger] self.plots@[a]).grid),
                forall|a: int, b: int| 0 <= a < i && 0 <= b < self.plots@.len() && a != b
                    ==> !(#[trigger] self.plots@[a].x == #[trigger] self.plots@[b].x && self.plots@[a].y == self.plots@[b].y),
            decreases self.plots@.len() - i,
        {
            if !check_grid(&self.plots[i].grid) {
                return false;
            }
            let mut j: usize = 0;
            while j < self.plots.len()
                invariant
                    i < self.plots@.len(),
                    j <= self.plots@.len(),
                    forall|b: int| 0 <= b < j && b != i
                        ==> !(self.plots@[i as int].x == #[trigger] self.plots@[b].x && self.plots@[i as int].y == self.plots@[b].y),
                decreases self.plots@.len() - j,
            {
                if j != i && self.plots[i].x == self.plots[j].x && self.plots[i].y == self.plots[j].y {
                    return false;
                }
                j += 1;
            }
            i += 1;
        }
        true
    }
}

} // verus!
