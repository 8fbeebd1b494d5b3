//! The game engine: starting a game, the player's actions on the plot at the
//! origin, and the tick that advances the simulation.

use crate::economy::{
    changes_in_range, draw_price_changes, held_of, market_updated, update_market_prices_with, Market,
};
use crate::error::GameError;
use crate::garden::{
    create_grid, find_origin_plot, grid_ok, origin_plot, tend_grid, tended_grid, tile_ok, Grid,
    MainGameState, Plot, Soil, Tile, WATERING_AMOUNT,
};
use crate::ledger::Ledger;
use crate::numbers::{npk_units, parse_npk};
use crate::pests::{draw_pest_rolls, pests_spread, rolls_fit, rolls_in_range, spread_pests, PestRoll};
use crate::pests::{aged_pest, lemma_pest_pass_safe};
use crate::plant::{
    create_plant, grown, is_new_plant, is_planted_from, is_ripe, species_genetics, species_maturity,
    species_wither_time, stage_for_age, LifeCycleStage,
};
use crate::rng::random_between;
use crate::weather::{random_weather, Weather};
use vstd::prelude::*;

verus! {

/// The side of the square plot a new game starts with.
pub const START_PLOT_SIZE: u32 = 10;

/// The money a new game starts with, in units of `UNIT`.
pub const START_WALLET: u64 = 1_000_000;

/// Starts a game: one plot at the origin with a fresh grid, no ticks, an
/// empty inventory, 100 in the wallet, the starting market and sunny weather.
pub fn new_game() -> (s: MainGameState)
    ensures
        s.is_valid(),
        s.plots@.len() == 1,
        s.plots@[0].x == 0 && s.plots@[0].y == 0,
        s.plots@[0].grid.tiles@.len() == START_PLOT_SIZE,
        forall|r: int| 0 <= r < START_PLOT_SIZE ==> #[trigger] s.plots@[0].grid.tiles@[r]@.len() == START_PLOT_SIZE,
        forall|x: int, y: int| #[trigger] s.plots@[0].grid.has_tile(x, y) ==> s.plots@[0].grid.tile(x, y).plant is None && s.plots@[0].grid.tile(x, y).pest is None,
        s.tick_counter == 0,
        s.inventory@ == Seq::<(Seq<char>, u32)>::empty(),
        s.wallet == START_WALLET,
        s.market.items@ == seq![("tomato"@, 100_000u64), ("potato"@, 50_000u64), ("corn"@, 150_000u64)],
        s.market.supply_demand@ == Seq::<(Seq<char>, i64)>::empty(),
        s.current_weather == Weather::Sunny,
{
    let mut plots: Vec<Plot> = Vec::new();
    plots.push(Plot { x: 0, y: 0, grid: create_grid(START_PLOT_SIZE, START_PLOT_SIZE) });
    MainGameState {
        plots,
        tick_counter: 0,
        inventory: Ledger::new(),
        wallet: START_WALLET,
        market: Market::default(),
        current_weather: Weather::Sunny,
    }
}

/// Where a player action on `(x, y)` lands: the position of the plot at the
/// origin, or why there is none to act on.
pub open spec fn locate(s: &MainGameState, x: u32, y: u32) -> Result<int, GameError> {
    match origin_plot(s.plots@) {
        None => Err(GameError::MissingPlot),
        Some(i) => if s.plots@[i].grid.has_tile(x as int, y as int) {
            Ok(i)
        } else {
            Err(GameError::InvalidCoordinates)
        },
    }
}

/// The tile `(x, y)` of the plot at position `i`.
pub open spec fn tile_at(s: &MainGameState, i: int, x: u32, y: u32) -> Tile {
    s.plots@[i].grid.tile(x as int, y as int)
}

/// `after` holds the plots of `before` with only the tile `(x, y)` of plot
/// `i` replaced by `t`.
pub open spec fn plots_with_tile(before: Seq<Plot>, after: Seq<Plot>, i: int, x: int, y: int, t: Tile) -> bool {
    &&& after.len() == before.len()
    &&& forall|j: int| 0 <= j < before.len() && j != i ==> #[trigger] after[j] == before[j]
    &&& after[i].x == before[i].x && after[i].y == before[i].y
    &&& before[i].grid.same_shape(&after[i].grid)
    &&& forall|c: int, r: int| #[trigger] before[i].grid.has_tile(c, r) && !(c == x && r == y)
        ==> after[i].grid.tile(c, r) == before[i].grid.tile(c, r)
    &&& after[i].grid.tile(x, y) == t
}

/// Everything but the plots is the same in the two states.
pub open spec fn same_but_plots(before: &MainGameState, after: &MainGameState) -> bool {
    &&& after.tick_counter == before.tick_counter
    &&& after.inventory == before.inventory
    &&& after.wallet == before.wallet
    &&& after.market == before.market
    &&& after.current_weather == before.current_weather
}

/// Replacing one tile by a fit one keeps a valid game valid.
proof fn lemma_with_tile_valid(before: &MainGameState, after: &MainGameState, i: int, x: int, y: int, t: Tile)
    requires
        before.is_valid(),
        0 <= i < before.plots@.len(),
        before.plots@[i].grid.has_tile(x, y),
        plots_with_tile(before.plots@, after.plots@, i, x, y, t),
        tile_ok(t),
    ensures
        after.is_valid(),
{
    let g = before.plots@[i].grid;
    let h = after.plots@[i].grid;
    assert(grid_ok(&g));
    assert(h.width() == g.width());
    assert forall|c: int, r: int| #[trigger] h.has_tile(c, r) implies tile_ok(h.tile(c, r)) by {
        assert(g.has_tile(c, r));
    }
    assert forall|j: int| 0 <= j < after.plots@.len() implies grid_ok(&(#[trigger] after.plots@[j]).grid) by {
        if j != i {
            assert(after.plots@[j] == before.plots@[j]);
        }
    }
    assert forall|a: int, b: int| 0 <= a < after.plots@.len() && 0 <= b < after.plots@.len() && a != b
        implies !(#[trigger] after.plots@[a].x == #[trigger] after.plots@[b].x && after.plots@[a].y == after.plots@[b].y) by {
        assert(after.plots@[a].x == before.plots@[a].x && after.plots@[a].y == before.plots@[a].y);
        assert(after.plots@[b].x == before.plots@[b].x && after.plots@[b].y == before.plots@[b].y);
    }
}

/// Finds where a player action on `(x, y)` lands.
pub fn locate_tile(s: &MainGameState, x: u32, y: u32) -> (r: Result<usize, GameError>)
    ensures
        r matches Ok(i) ==> locate(s, x, y) == Ok::<int, GameError>(i as int) && i < s.plots@.len(),
        r matches Err(e) ==> locate(s, x, y) == Err::<int, GameError>(e),
{
    match find_origin_plot(&s.plots) {
        None => Err(GameError::MissingPlot),
        Some(i) => if s.plots[i].grid.contains(x, y) {
            Ok(i)
        } else {
            Err(GameError::InvalidCoordinates)
        },
    }
}

/// What watering `(x, y)` does: the tile's moisture rises by
/// `WATERING_AMOUNT`, clamped, and the new moisture is the result.
pub open spec fn watering_done(before: &MainGameState, after: &MainGameState, x: u32, y: u32, r: Result<u32, GameError>) -> bool {
    match locate(before, x, y) {
        Err(e) => r == Err::<u32, GameError>(e) && *after == *before,
        Ok(i) => {
            let t = tile_at(before, i, x, y);
            let soil = t.soil.shifted(WATERING_AMOUNT as int, 0, 0, 0);
            &&& r == Ok::<u32, GameError>(soil.soil_moisture)
            &&& same_but_plots(before, after)
            &&& plots_with_tile(before.plots@, after.plots@, i, x as int, y as int, Tile { soil, ..t })
        },
    }
}

/// Waters the tile `(x, y)` of the plot at the origin: its moisture rises by
/// `WATERING_AMOUNT`, clamped, and the new moisture is returned.
pub fn water_tile(state: &mut MainGameState, x: u32, y: u32) -> (r: Result<u32, GameError>)
    ensures
        old(state).is_valid() ==> final(state).is_valid(),
        watering_done(&*old(state), &*final(state), x, y, r),
{
    let i = match locate_tile(state, x, y) {
        Ok(i) => i,
        Err(e) => return Err(e),
    };
    let soil = &mut state.plots[i].grid.tiles[y as usize][x as usize].soil;
    soil.add_moisture(WATERING_AMOUNT);
    let moisture = soil.soil_moisture;
    proof {
        let t = tile_at(&*old(state), i as int, x, y);
        if old(state).is_valid() {
            lemma_with_tile_valid(&*old(state), &*state, i as int, x as int, y as int, Tile { soil: t.soil.shifted(WATERING_AMOUNT as int, 0, 0, 0), ..t });
        }
    }
    Ok(moisture)
}

/// What fertilizing `(x, y)` with a mix does: each nutrient rises by its
/// amount, clamped; a malformed mix is refused.
pub open spec fn fertilizing_done(before: &MainGameState, after: &MainGameState, x: u32, y: u32, npk_mix: Seq<char>, r: Result<(), GameError>) -> bool {
    match locate(before, x, y) {
        Err(e) => r == Err::<(), GameError>(e) && *after == *before,
        Ok(i) => match npk_units(npk_mix) {
            None => r == Err::<(), GameError>(GameError::InvalidNpkMix) && *after == *before,
            Some((n, p, k)) => {
                let t = tile_at(before, i, x, y);
                &&& r is Ok
                &&& same_but_plots(before, after)
                &&& plots_with_tile(before.plots@, after.plots@, i, x as int, y as int, Tile { soil: t.soil.shifted(0, n, p, k), ..t })
            },
        },
    }
}

/// Fertilizes the tile `(x, y)` of the plot at the origin with a nutrient
/// mix `"n,p,k"` of three decimals: each nutrient rises by its amount,
/// clamped. Amounts are read as `decimal_units` says: an exponent may
/// follow, digits finer than 1/`UNIT` are dropped, and magnitudes beyond
/// `DECIMAL_CAP` are read as that cap. A malformed mix changes nothing.
pub fn fertilize_tile(state: &mut MainGameState, x: u32, y: u32, npk_mix: &str) -> (r: Result<(), GameError>)
    ensures
        old(state).is_valid() ==> final(state).is_valid(),
        fertilizing_done(&*old(state), &*final(state), x, y, npk_mix@, r),
{
    let i = match locate_tile(state, x, y) {
        Ok(i) => i,
        Err(e) => return Err(e),
    };
    let (n, p, k) = match parse_npk(npk_mix) {
        Some(v) => v,
        None => return Err(GameError::InvalidNpkMix),
    };
    state.plots[i].grid.tiles[y as usize][x as usize].soil.add_nutrients(n, p, k);
    proof {
        if old(state).is_valid() {
            lemma_with_tile_valid(&*old(state), &*state, i as int, x as int, y as int, tile_at(&*state, i as int, x, y));
        }
    }
    Ok(())
}

/// A preview of the weather of the next `ticks` ticks: each entry is a tick
/// number and a weather drawn at random. The game is not touched.
pub fn forecast(state: &MainGameState, ticks: u64) -> (r: Vec<(u64, Weather)>)
    requires
        state.tick_counter + ticks <= u64::MAX,
    ensures
        r@.len() == ticks,
        forall|i: int| 0 <= i < ticks ==> (#[trigger] r@[i]).0 == state.tick_counter + i + 1,
{
    let mut r: Vec<(u64, Weather)> = Vec::new();
    let mut i: u64 = 0;
    while i < ticks
        invariant
            i <= ticks,
            state.tick_counter + ticks <= u64::MAX,
            r@.len() == i,
            forall|j: int| 0 <= j < i ==> (#[trigger] r@[j]).0 == state.tick_counter + j + 1,
        decreases ticks - i,
    {
        r.push((state.tick_counter + i + 1, random_weather()));
        i += 1;
    }
    r
}

/// What planting `seed` on `(x, y)` does: the empty tile gains a new plant
/// of that species (or of a species of the table, for an unknown name).
pub open spec fn planting_done(before: &MainGameState, after: &MainGameState, x: u32, y: u32, seed: Seq<char>, r: Result<(), GameError>) -> bool {
    match locate(before, x, y) {
        Err(e) => r == Err::<(), GameError>(e) && *after == *before,
        Ok(i) => {
            let t = tile_at(before, i, x, y);
            if t.plant is Some {
                r == Err::<(), GameError>(GameError::TileOccupied) && *after == *before
            } else {
                let n = tile_at(after, i, x, y);
                &&& r is Ok
                &&& n.soil == t.soil && n.pest == t.pest
                &&& n.plant matches Some(p) && is_planted_from(p, seed)
                &&& same_but_plots(before, after)
                &&& plots_with_tile(before.plots@, after.plots@, i, x as int, y as int, n)
            }
        },
    }
}

/// Plants a seed of the named species on the tile `(x, y)` of the plot at
/// the origin. The tile must hold no plant; an unknown name gives a plant of
/// a species drawn from the table.
pub fn plant_seed(state: &mut MainGameState, x: u32, y: u32, seed: &str) -> (r: Result<(), GameError>)
    ensures
        old(state).is_valid() ==> final(state).is_valid(),
        planting_done(&*old(state), &*final(state), x, y, seed@, r),
{
    let i = match locate_tile(state, x, y) {
        Ok(i) => i,
        Err(e) => return Err(e),
    };
    if state.plots[i].grid.tiles[y as usize][x as usize].plant.is_some() {
        return Err(GameError::TileOccupied);
    }
    let plant = create_plant(seed);
    state.plots[i].grid.tiles[y as usize][x as usize].plant = Some(plant);
    proof {
        if old(state).is_valid() {
            lemma_with_tile_valid(&*old(state), &*state, i as int, x as int, y as int, tile_at(&*state, i as int, x, y));
        }
    }
    Ok(())
}

/// What pesticide on `(x, y)` does: the pest there is removed.
pub open spec fn pesticide_done(before: &MainGameState, after: &MainGameState, x: u32, y: u32, r: Result<(), GameError>) -> bool {
    match locate(before, x, y) {
        Err(e) => r == Err::<(), GameError>(e) && *after == *before,
        Ok(i) => {
            let t = tile_at(before, i, x, y);
            if t.pest is None {
                r == Err::<(), GameError>(GameError::NoPest) && *after == *before
            } else {
                &&& r is Ok
                &&& same_but_plots(before, after)
                &&& plots_with_tile(before.plots@, after.plots@, i, x as int, y as int, Tile { pest: None, ..t })
            }
        },
    }
}

/// Removes the pest from the tile `(x, y)` of the plot at the origin.
pub fn apply_pesticide(state: &mut MainGameState, x: u32, y: u32) -> (r: Result<(), GameError>)
    ensures
        old(state).is_valid() ==> final(state).is_valid(),
        pesticide_done(&*old(state), &*final(state), x, y, r),
{
    let i = match locate_tile(state, x, y) {
        Ok(i) => i,
        Err(e) => return Err(e),
    };
    if state.plots[i].grid.tiles[y as usize][x as usize].pest.is_none() {
        return Err(GameError::NoPest);
    }
    state.plots[i].grid.tiles[y as usize][x as usize].pest = None;
    proof {
        if old(state).is_valid() {
            lemma_with_tile_valid(&*old(state), &*state, i as int, x as int, y as int, tile_at(&*state, i as int, x, y));
        }
    }
    Ok(())
}

/// What harvesting `(x, y)` does: a ripe plant leaves the tile with any
/// pest on it, and its yield, within the plant's yield range, is added to
/// the inventory under its species.
pub open spec fn harvest_done(before: &MainGameState, after: &MainGameState, x: u32, y: u32, r: Result<u32, GameError>) -> bool {
    match locate(before, x, y) {
        Err(e) => r == Err::<u32, GameError>(e) && *after == *before,
        Ok(i) => {
            let t = tile_at(before, i, x, y);
            match t.plant {
                None => r == Err::<u32, GameError>(GameError::NoPlant) && *after == *before,
                Some(p) => if !is_ripe(p.life_cycle_stage) {
                    r == Err::<u32, GameError>(GameError::PlantNotReady) && *after == *before
                } else if held_of(&before.inventory, p.species@) + p.genetics.yield_range.1 > u32::MAX {
                    r == Err::<u32, GameError>(GameError::LimitReached) && *after == *before
                } else {
                    &&& r matches Ok(n) && p.genetics.yield_range.0 <= n <= p.genetics.yield_range.1
                    &&& forall|k: Seq<char>| #[trigger] after.inventory.spec_get(k) == if k == p.species@ {
                        Some((held_of(&before.inventory, k) + r->Ok_0) as u32)
                    } else {
                        before.inventory.spec_get(k)
                    }
                    &&& after.tick_counter == before.tick_counter
                    &&& after.wallet == before.wallet
                    &&& after.market == before.market
                    &&& after.current_weather == before.current_weather
                    &&& plots_with_tile(before.plots@, after.plots@, i, x as int, y as int, Tile { plant: None, pest: None, soil: t.soil })
                },
            }
        },
    }
}

/// Harvests the plant on the tile `(x, y)` of the plot at the origin. Only a
/// plant in the Mature or Fruiting stage can be harvested. The yield is drawn
/// from the plant's yield range, both ends included, and added to the
/// inventory under the plant's species; the plant leaves the tile, and so
/// does any pest on it. The harvest is refused, with nothing changed, when
/// the largest yield could overflow the inventory count.
pub fn harvest(state: &mut MainGameState, x: u32, y: u32) -> (r: Result<u32, GameError>)
    requires
        old(state).is_valid(),
    ensures
        final(state).is_valid(),
        harvest_done(&*old(state), &*final(state), x, y, r),
{
    let i = match locate_tile(state, x, y) {
        Ok(i) => i,
        Err(e) => return Err(e),
    };
    let (species, low, high, stage) = match &state.plots[i].grid.tiles[y as usize][x as usize].plant {
        None => return Err(GameError::NoPlant),
        Some(p) => (p.species.clone(), p.genetics.yield_range.0, p.genetics.yield_range.1, p.life_cycle_stage),
    };
    if !(stage == LifeCycleStage::Mature || stage == LifeCycleStage::Fruiting) {
        return Err(GameError::PlantNotReady);
    }
    let held: u32 = match state.inventory.get(species.as_str()) {
        Some(h) => h,
        None => 0,
    };
    if held as u64 + high as u64 > u32::MAX as u64 {
        return Err(GameError::LimitReached);
    }
    proof {
        assert(grid_ok(&old(state).plots@[i as int].grid));
        assert(old(state).plots@[i as int].grid.has_tile(x as int, y as int));
    }
    let amount = random_between(low, high);
    state.inventory.insert(species.as_str(), held + amount);
    let tile = &mut state.plots[i].grid.tiles[y as usize][x as usize];
    tile.plant = None;
    tile.pest = None;
    proof {
        lemma_with_tile_valid(&*old(state), &*state, i as int, x as int, y as int, tile_at(&*state, i as int, x, y));
    }
    Ok(amount)
}

/// `after` is the grid `before` once one tick has run over it: the first
/// pass with the given weather, then the pest pass with the given rolls.
pub open spec fn grid_ticked(before: &Grid, after: &Grid, weather: Weather, rolls: Seq<Vec<PestRoll>>) -> bool {
    exists|mid: Grid| tended_grid(before, &mid, weather) && #[trigger] pests_spread(&mid, after, rolls)
}

/// A grid of the same shape as a rectangular one is rectangular, and the
/// same rolls fit it.
proof fn lemma_same_shape_rectangular(a: &Grid, b: &Grid, rolls: Seq<Vec<PestRoll>>)
    requires
        a.is_rectangular(),
        a.same_shape(b),
        rolls_fit(a, rolls),
    ensures
        b.is_rectangular(),
        rolls_fit(b, rolls),
        forall|x: int, y: int| #[trigger] b.has_tile(x, y) <==> a.has_tile(x, y),
{
    assert(b.width() == a.width());
}

/// Runs one tick over one plot's grid.
fn tick_grid(grid: &mut Grid, weather: Weather, rolls: &Vec<Vec<PestRoll>>)
    requires
        grid_ok(&*old(grid)),
        rolls_fit(&*old(grid), rolls@),
    ensures
        grid_ok(&*final(grid)),
        old(grid).same_shape(&*final(grid)),
        grid_ticked(&*old(grid), &*final(grid), weather, rolls@),
{
    tend_grid(grid, weather);
    let ghost mid = *grid;
    proof {
        lemma_same_shape_rectangular(&*old(grid), &mid, rolls@);
    }
    spread_pests(grid, rolls);
    proof {
        lemma_same_shape_rectangular(&mid, &*grid, rolls@);
        assert forall|x: int, y: int| #[trigger] grid.has_tile(x, y) implies tile_ok(grid.tile(x, y)) by {
            assert(old(grid).has_tile(x, y));
            assert(mid.has_tile(x, y));
        }
        assert(tended_grid(&*old(grid), &mid, weather) && pests_spread(&mid, &*grid, rolls@));
    }
}

/// `after` is `before` once one tick has run with the given weather, pest
/// rolls (one set per plot, in the order of `plots`) and price changes.
pub open spec fn ticked(before: &MainGameState, after: &MainGameState, weather: Weather, rolls: Seq<Vec<Vec<PestRoll>>>, changes: Seq<i64>) -> bool {
    &&& after.tick_counter == before.tick_counter + 1
    &&& after.current_weather == weather
    &&& after.inventory == before.inventory
    &&& after.wallet == before.wallet
    &&& market_updated(&before.market, &after.market, changes)
    &&& after.plots@.len() == before.plots@.len()
    &&& forall|k: int| 0 <= k < before.plots@.len() ==> {
        &&& (#[trigger] after.plots@[k]).x == before.plots@[k].x
        &&& after.plots@[k].y == before.plots@[k].y
        &&& grid_ticked(&before.plots@[k].grid, &after.plots@[k].grid, weather, rolls[k]@)
    }
}

/// Every roll of every plot's set could have been drawn for its tile.
pub open spec fn rolls_drawable(s: &MainGameState, rolls: Seq<Vec<Vec<PestRoll>>>) -> bool {
    forall|k: int| 0 <= k < rolls.len() && k < s.plots@.len() ==> rolls_in_range(&s.plots@[k].grid, #[trigger] rolls[k]@)
}

/// The rolls hold one set for each plot, each fitting its grid.
pub open spec fn rolls_fit_plots(s: &MainGameState, rolls: Seq<Vec<Vec<PestRoll>>>) -> bool {
    &&& rolls.len() == s.plots@.len()
    &&& forall|k: int| 0 <= k < rolls.len() ==> rolls_fit(&s.plots@[k].grid, #[trigger] rolls[k]@)
}

/// Runs one tick with the random outcomes given: the counter rises, the
/// weather is set, every grid takes the first pass and then the pest pass,
/// and the market prices are updated.
pub fn run_game_tick_with(state: &mut MainGameState, weather: Weather, rolls: &Vec<Vec<Vec<PestRoll>>>, changes: &Vec<i64>)
    requires
        old(state).is_valid(),
        old(state).tick_counter < u64::MAX,
        rolls_fit_plots(&*old(state), rolls@),
        changes@.len() == old(state).market.items@.len(),
    ensures
        final(state).is_valid(),
        ticked(&*old(state), &*final(state), weather, rolls@, changes@),
{
    state.tick_counter = state.tick_counter + 1;
    state.current_weather = weather;
    let mut k: usize = 0;
    while k < state.plots.len()
        invariant
            state.plots@.len() == old(state).plots@.len(),
            rolls@.len() == state.plots@.len(),
            k <= state.plots@.len(),
            old(state).is_valid(),
            rolls_fit_plots(&*old(state), rolls@),
            state.tick_counter == old(state).tick_counter + 1,
            state.current_weather == weather,
            state.inventory == old(state).inventory,
            state.wallet == old(state).wallet,
            state.market == old(state).market,
            forall|j: int| 0 <= j < k ==> {
                &&& (#[trigger] state.plots@[j]).x == old(state).plots@[j].x
                &&& state.plots@[j].y == old(state).plots@[j].y
                &&& grid_ok(&state.plots@[j].grid)
                &&& grid_ticked(&old(state).plots@[j].grid, &state.plots@[j].grid, weather, rolls@[j]@)
            },
            forall|j: int| k <= j < state.plots@.len() ==> #[trigger] state.plots@[j] == old(state).plots@[j],
        decreases state.plots@.len() - k,
    {
        assert(grid_ok(&old(state).plots@[k as int].grid));
        assert(rolls_fit(&old(state).plots@[k as int].grid, rolls@[k as int]@));
        tick_grid(&mut state.plots[k].grid, weather, &rolls[k]);
        k += 1;
    }
    update_market_prices_with(&mut state.market, changes);
    proof {
        assert forall|a: int, b: int| 0 <= a < state.plots@.len() && 0 <= b < state.plots@.len() && a != b
            implies !(#[trigger] state.plots@[a].x == #[trigger] state.plots@[b].x && state.plots@[a].y == state.plots@[b].y) by {
            assert(state.plots@[a].x == old(state).plots@[a].x && state.plots@[a].y == old(state).plots@[a].y);
            assert(state.plots@[b].x == old(state).plots@[b].x && state.plots@[b].y == old(state).plots@[b].y);
        }
    }
}

/// Runs one tick. The weather is the one given, or else drawn at random;
/// the pest rolls and the price changes are drawn at random. Whatever is
/// drawn, the result is the tick `ticked` describes for those draws.
pub fn run_game_tick(state: &mut MainGameState, weather: Option<Weather>)
    requires
        old(state).is_valid(),
        old(state).tick_counter < u64::MAX,
    ensures
        final(state).is_valid(),
        weather matches Some(w) ==> final(state).current_weather == w,
        exists|rolls: Seq<Vec<Vec<PestRoll>>>, changes: Seq<i64>| #[trigger] ticked(&*old(state), &*final(state), final(state).current_weather, rolls, changes)
            && rolls_fit_plots(&*old(state), rolls) && rolls_drawable(&*old(state), rolls)
            && changes_in_range(changes, old(state).market.items@.len()),
{
    let w = match weather {
        Some(w) => w,
        None => random_weather(),
    };
    let mut rolls: Vec<Vec<Vec<PestRoll>>> = Vec::new();
    let mut k: usize = 0;
    while k < state.plots.len()
        invariant
            k <= state.plots@.len(),
            rolls@.len() == k,
            forall|j: int| 0 <= j < k ==> rolls_fit(&state.plots@[j].grid, #[trigger] rolls@[j]@),
            forall|j: int| 0 <= j < k ==> rolls_in_range(&state.plots@[j].grid, #[trigger] rolls@[j]@),
        decreases state.plots@.len() - k,
    {
        rolls.push(draw_pest_rolls(&state.plots[k].grid));
        k += 1;
    }
    let changes = draw_price_changes(state.market.items.len());
    let ghost before = *state;
    run_game_tick_with(state, w, &rolls, &changes);
    assert(ticked(&before, &*state, state.current_weather, rolls@, changes@) && rolls_fit_plots(&before, rolls@)
        && rolls_drawable(&before, rolls@) && changes_in_range(changes@, before.market.items@.len()));
}

/// In a tick, a plant grows as `grown` says in the soil as the weather and
/// its own uptake leave it; the pest pass that follows touches only its
/// health.
pub proof fn lemma_tick_grows_plants(
    before: &MainGameState,
    after: &MainGameState,
    weather: Weather,
    rolls: Seq<Vec<Vec<PestRoll>>>,
    changes: Seq<i64>,
    k: int,
    x: int,
    y: int,
)
    requires
        ticked(before, after, weather, rolls, changes),
        0 <= k < before.plots@.len(),
        before.plots@[k].grid.has_tile(x, y),
        before.plots@[k].grid.tile(x, y).plant is Some,
    ensures
        ({
            let t = before.plots@[k].grid.tile(x, y);
            let p = t.plant->0;
            let m = t.soil.weathered(weather, Some(p.genetics.nutrient_consumption)).soil_moisture;
            let g = grown(p, m, weather);
            after.plots@[k].grid.tile(x, y).plant matches Some(q) && q.age == g.age && q.growth_progress
                == g.growth_progress && q.life_cycle_stage == g.life_cycle_stage && q.species == g.species
                && q.genetics == g.genetics && q.maturity_age == g.maturity_age && q.wither_time == g.wither_time
        }),
        after.plots@.len() == before.plots@.len(),
        after.plots@[k].grid.has_tile(x, y),
{
    let g0 = before.plots@[k].grid;
    assert(grid_ticked(&g0, &after.plots@[k].grid, weather, rolls[k]@));
    let mid = choose|mid: Grid| tended_grid(&g0, &mid, weather) && #[trigger] pests_spread(&mid, &after.plots@[k].grid, rolls[k]@);
    assert(mid.has_tile(x, y));
}

/// In a tick, a pest that is on a tile afterwards and was not before stands
/// where a plant grows, before the tick and after it.
pub proof fn lemma_tick_pests_need_plants(
    before: &MainGameState,
    after: &MainGameState,
    weather: Weather,
    rolls: Seq<Vec<Vec<PestRoll>>>,
    changes: Seq<i64>,
    k: int,
    x: int,
    y: int,
)
    requires
        ticked(before, after, weather, rolls, changes),
        0 <= k < before.plots@.len(),
        before.plots@[k].grid.has_tile(x, y),
        before.plots@[k].grid.tile(x, y).pest is None,
        after.plots@[k].grid.tile(x, y).pest is Some,
    ensures
        before.plots@[k].grid.tile(x, y).plant is Some,
        after.plots@[k].grid.tile(x, y).plant is Some,
{
    let g0 = before.plots@[k].grid;
    assert(grid_ticked(&g0, &after.plots@[k].grid, weather, rolls[k]@));
    let mid = choose|mid: Grid| tended_grid(&g0, &mid, weather) && #[trigger] pests_spread(&mid, &after.plots@[k].grid, rolls[k]@);
    assert(mid.has_tile(x, y));
    lemma_pest_pass_safe(&mid, rolls[k]@, x, y);
}

/// In a tick, a pest already on a tile stays there, one tick older: it is
/// never replaced by a spreading or newly appearing pest.
pub proof fn lemma_tick_keeps_pests(
    before: &MainGameState,
    after: &MainGameState,
    weather: Weather,
    rolls: Seq<Vec<Vec<PestRoll>>>,
    changes: Seq<i64>,
    k: int,
    x: int,
    y: int,
)
    requires
        ticked(before, after, weather, rolls, changes),
        0 <= k < before.plots@.len(),
        before.plots@[k].grid.has_tile(x, y),
        before.plots@[k].grid.tile(x, y).pest is Some,
    ensures
        after.plots@[k].grid.tile(x, y).pest == Some(aged_pest(before.plots@[k].grid.tile(x, y).pest->0)),
{
    let g0 = before.plots@[k].grid;
    assert(grid_ticked(&g0, &after.plots@[k].grid, weather, rolls[k]@));
    let mid = choose|mid: Grid| tended_grid(&g0, &mid, weather) && #[trigger] pests_spread(&mid, &after.plots@[k].grid, rolls[k]@);
    assert(mid.has_tile(x, y));
    lemma_pest_pass_safe(&mid, rolls[k]@, x, y);
}

/// `after` is `before` with only the soil moisture of the tile `(x, y)` of
/// plot `k` set to `moisture`.
pub open spec fn moisture_set(before: &MainGameState, after: &MainGameState, k: int, x: int, y: int, moisture: u32) -> bool {
    let t = before.plots@[k].grid.tile(x, y);
    &&& same_but_plots(before, after)
    &&& plots_with_tile(before.plots@, after.plots@, k, x, y, Tile { soil: Soil { soil_moisture: moisture, ..t.soil }, ..t })
}

/// The plant on tile `(x, y)` of plot `k` is a tomato of age `age` with no
/// partial growth, in the stage that age reaches.
pub open spec fn tomato_at_age(s: &MainGameState, k: int, x: int, y: int, age: int) -> bool {
    &&& 0 <= k < s.plots@.len()
    &&& s.plots@[k].grid.has_tile(x, y)
    &&& s.plots@[k].grid.tile(x, y).plant matches Some(q) && q.genetics == species_genetics(0)
        && q.maturity_age == species_maturity(0) && q.wither_time == species_wither_time(0)
        && q.age == age && q.growth_progress == 0
        && q.life_cycle_stage == stage_for_age(age, species_maturity(0) as int, species_wither_time(0) as int)
}

/// `after` follows from `before` by one sunny tick, whatever was drawn.
pub open spec fn sunny_tick(before: &MainGameState, after: &MainGameState) -> bool {
    exists|r: Seq<Vec<Vec<PestRoll>>>, c: Seq<i64>| #[trigger] ticked(before, after, Weather::Sunny, r, c)
}

/// One ideal tick: a tomato whose soil is set to moisture 5_000 before a
/// sunny tick ages by exactly one.
proof fn lemma_ideal_tomato_tick(pre: &MainGameState, set: &MainGameState, post: &MainGameState, k: int, x: int, y: int, age: int)
    requires
        tomato_at_age(pre, k, x, y, age),
        age < u32::MAX,
        moisture_set(pre, set, k, x, y, 5_000),
        sunny_tick(set, post),
    ensures
        tomato_at_age(post, k, x, y, age + 1),
{
    let (r, c) = choose|r: Seq<Vec<Vec<PestRoll>>>, c: Seq<i64>| #[trigger] ticked(set, post, Weather::Sunny, r, c);
    assert(set.plots@[k].grid.has_tile(x, y));
    lemma_tick_grows_plants(set, post, Weather::Sunny, r, c, k, x, y);
}

/// Held at moisture 5_000 before each of a run of sunny ticks, a new tomato
/// ages by exactly one per tick, keeps no partial growth, and is after tick
/// `i + 1` in the stage age `i + 1` reaches: Seed, then Sprout from age 1,
/// Growing from age 5, Mature from age 10 and Withering from age 15.
/// `set[i]` is the game once the moisture is set before tick `i + 1`, and
/// `ticks[i]` the game after that tick.
pub proof fn lemma_ideal_tomato_ticks(start: &MainGameState, set: Seq<MainGameState>, ticks: Seq<MainGameState>, k: int, x: int, y: int)
    requires
        0 <= k < start.plots@.len(),
        start.plots@[k].grid.has_tile(x, y),
        start.plots@[k].grid.tile(x, y).plant matches Some(p) && is_new_plant(p, 0),
        set.len() == ticks.len(),
        ticks.len() < u32::MAX,
        ticks.len() == 0 || moisture_set(start, &set[0], k, x, y, 5_000),
        forall|i: int| 0 < i < ticks.len() ==> moisture_set(&ticks[i - 1], &#[trigger] set[i], k, x, y, 5_000),
        forall|i: int| 0 <= i < ticks.len() ==> #[trigger] sunny_tick(&set[i], &ticks[i]),
    ensures
        forall|i: int| 0 <= i < ticks.len() ==> #[trigger] tomato_at_age(&ticks[i], k, x, y, i + 1),
{
    lemma_ideal_tomato_prefix(start, set, ticks, k, x, y, ticks.len() as int);
}

proof fn lemma_ideal_tomato_prefix(start: &MainGameState, set: Seq<MainGameState>, ticks: Seq<MainGameState>, k: int, x: int, y: int, n: int)
    requires
        0 <= n <= ticks.len(),
        0 <= k < start.plots@.len(),
        start.plots@[k].grid.has_tile(x, y),
        start.plots@[k].grid.tile(x, y).plant matches Some(p) && is_new_plant(p, 0),
        set.len() == ticks.len(),
        ticks.len() < u32::MAX,
        ticks.len() == 0 || moisture_set(start, &set[0], k, x, y, 5_000),
        forall|i: int| 0 < i < ticks.len() ==> moisture_set(&ticks[i - 1], &#[trigger] set[i], k, x, y, 5_000),
        forall|i: int| 0 <= i < ticks.len() ==> #[trigger] sunny_tick(&set[i], &ticks[i]),
    ensures
        forall|i: int| 0 <= i < n ==> #[trigger] tomato_at_age(&ticks[i], k, x, y, i + 1),
    decreases n,
{
    if n > 0 {
        lemma_ideal_tomato_prefix(start, set, ticks, k, x, y, n - 1);
        let i = n - 1;
        if i == 0 {
            assert(tomato_at_age(start, k, x, y, 0));
            assert(sunny_tick(&set[0], &ticks[0]));
            lemma_ideal_tomato_tick(start, &set[0], &ticks[0], k, x, y, 0);
        } else {
            let j = i - 1;
            assert(tomato_at_age(&ticks[j], k, x, y, j + 1));
            assert(moisture_set(&ticks[i - 1], &set[i], k, x, y, 5_000));
            assert(sunny_tick(&set[i], &ticks[i]));
            lemma_ideal_tomato_tick(&ticks[i - 1], &set[i], &ticks[i], k, x, y, i);
        }
    }
}

} // verus!
