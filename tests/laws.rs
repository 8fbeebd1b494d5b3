use bytebloom::cli::{parse_args, Commands, MarketCommands};
use bytebloom::commands::{handle_command, Outcome};
use bytebloom::economy::{buy_item, sell_item, update_market_prices, update_market_prices_with, get_market_price, Market, MIN_PRICE};
use bytebloom::engine::{apply_pesticide, fertilize_tile, forecast, harvest, new_game, plant_seed, run_game_tick, water_tile};
use bytebloom::error::GameError;
use bytebloom::garden::{clamped_add, create_grid, Grid, MainGameState, Nutrients, Plot, Soil, SoilType, Tile};
use bytebloom::ledger::Ledger;
use bytebloom::numbers::{parse_npk, parse_whole_str, DECIMAL_CAP};
use bytebloom::pests::{spread_pests, Pest, PestRoll, PestType};
use bytebloom::plant::{advance_growth, create_plant, plant_from_table, LifeCycleStage};
use bytebloom::view::grid_glyphs;
use bytebloom::weather::Weather;

fn soil(moisture: u32) -> Soil {
    Soil {
        soil_type: SoilType::Loam,
        soil_moisture: moisture,
        soil_nutrients: Nutrients { nitrogen: 5_000, phosphorus: 5_000, potassium: 5_000 },
        soil_ph: 70_000,
        weeds: 0,
    }
}

fn even_game(width: usize, height: usize) -> MainGameState {
    let mut game = new_game();
    game.plots.clear();
    let tiles = (0..height)
        .map(|_| (0..width).map(|_| Tile { soil: soil(5_000), plant: None, pest: None }).collect())
        .collect();
    game.plots.push(Plot { x: 0, y: 0, grid: Grid { tiles } });
    game
}

fn tile(game: &MainGameState, x: usize, y: usize) -> &Tile {
    &game.plots[0].grid.tiles[y][x]
}

fn tile_mut(game: &mut MainGameState, x: usize, y: usize) -> &mut Tile {
    &mut game.plots[0].grid.tiles[y][x]
}

fn words(line: &str) -> Vec<String> {
    line.split_whitespace().map(|w| w.to_string()).collect()
}

#[test]
fn soil_stays_bounded_for_extreme_changes() {
    let mut s = soil(5_000);
    s.shift(i64::MAX, i64::MIN, i64::MAX, i64::MIN);
    assert_eq!(s.soil_moisture, 10_000);
    assert_eq!(s.soil_nutrients.nitrogen, 0);
    assert_eq!(s.soil_nutrients.phosphorus, 10_000);
    assert_eq!(s.soil_nutrients.potassium, 0);
    s.add_moisture(-2_500);
    assert_eq!(s.soil_moisture, 7_500);
    s.add_nutrients(1_234, 20_000, -1);
    assert_eq!(s.soil_nutrients.nitrogen, 1_234);
    assert_eq!(s.soil_nutrients.phosphorus, 10_000);
    assert_eq!(s.soil_nutrients.potassium, 0);
    assert_eq!(clamped_add(9_900, 200), 10_000);
    assert_eq!(clamped_add(100, -200), 0);
}

#[test]
fn weather_and_uptake_change_the_soil() {
    let mut s = soil(5_000);
    s.weather(Weather::Sunny, Some((100, 50, 80)));
    assert_eq!(s.soil_moisture, 4_400);
    assert_eq!(s.soil_nutrients.nitrogen, 4_900);
    assert_eq!(s.soil_nutrients.phosphorus, 4_950);
    assert_eq!(s.soil_nutrients.potassium, 4_920);
    let mut wet = soil(9_500);
    wet.weather(Weather::Rainy, Some((0, 0, 0)));
    assert_eq!(wet.soil_moisture, 10_000);
    let mut dry = soil(500);
    dry.weather(Weather::Heatwave, None);
    assert_eq!(dry.soil_moisture, 0);
    let mut grey = soil(5_000);
    grey.weather(Weather::Cloudy, None);
    assert_eq!(grey.soil_moisture, 5_000);
}

#[test]
fn tomato_ages_one_tick_at_a_time_to_maturity() {
    let mut game = even_game(3, 3);
    plant_seed(&mut game, 1, 1, "tomato").unwrap();
    let expected = [
        LifeCycleStage::Sprout,
        LifeCycleStage::Sprout,
        LifeCycleStage::Sprout,
        LifeCycleStage::Sprout,
        LifeCycleStage::Growing,
        LifeCycleStage::Growing,
        LifeCycleStage::Growing,
        LifeCycleStage::Growing,
        LifeCycleStage::Growing,
        LifeCycleStage::Mature,
    ];
    for (tick, stage) in expected.iter().enumerate() {
        tile_mut(&mut game, 1, 1).soil.soil_moisture = 5_000;
        tile_mut(&mut game, 1, 1).pest = None;
        run_game_tick(&mut game, Some(Weather::Sunny));
        let p = tile(&game, 1, 1).plant.as_ref().unwrap();
        assert_eq!(p.age as usize, tick + 1);
        assert_eq!(p.life_cycle_stage, *stage);
    }
    assert_eq!(game.tick_counter, 10);
}

#[test]
fn growth_rates_by_weather_and_moisture() {
    let mut p = plant_from_table(0);
    advance_growth(&mut p, 5_000, Weather::Heatwave);
    assert_eq!((p.age, p.growth_progress), (0, 5_000));
    advance_growth(&mut p, 1_000, Weather::Heatwave);
    assert_eq!((p.age, p.growth_progress), (0, 9_000));
    advance_growth(&mut p, 9_000, Weather::Sunny);
    assert_eq!((p.age, p.growth_progress), (1, 7_000));
    assert_eq!(p.life_cycle_stage, LifeCycleStage::Sprout);
    p.age = 14;
    p.growth_progress = 0;
    advance_growth(&mut p, 5_000, Weather::Cloudy);
    assert_eq!(p.age, 15);
    assert_eq!(p.life_cycle_stage, LifeCycleStage::Withering);
    p.age = u32::MAX;
    advance_growth(&mut p, 5_000, Weather::Cloudy);
    assert_eq!(p.age, u32::MAX);
}

#[test]
fn harvest_removes_plant_and_pest_and_credits_yield() {
    let mut game = even_game(2, 2);
    plant_seed(&mut game, 0, 1, "tomato").unwrap();
    {
        let p = tile_mut(&mut game, 0, 1).plant.as_mut().unwrap();
        p.age = 10;
        p.life_cycle_stage = LifeCycleStage::Mature;
    }
    tile_mut(&mut game, 0, 1).pest = Some(Pest { pest_type: PestType::Aphids, infestation_level: 1_000 });
    let amount = harvest(&mut game, 0, 1).unwrap();
    assert!((3..=8).contains(&amount));
    assert_eq!(game.inventory.get("tomato"), Some(amount));
    assert!(tile(&game, 0, 1).plant.is_none());
    assert!(tile(&game, 0, 1).pest.is_none());
}

#[test]
fn harvest_refusals_change_nothing() {
    let mut game = even_game(2, 2);
    assert_eq!(harvest(&mut game, 0, 0), Err(GameError::NoPlant));
    plant_seed(&mut game, 0, 0, "corn").unwrap();
    assert_eq!(harvest(&mut game, 0, 0), Err(GameError::PlantNotReady));
    assert!(tile(&game, 0, 0).plant.is_some());
    assert_eq!(game.inventory.len(), 0);
    assert_eq!(harvest(&mut game, 5, 0), Err(GameError::InvalidCoordinates));
    tile_mut(&mut game, 0, 0).plant.as_mut().unwrap().life_cycle_stage = LifeCycleStage::Fruiting;
    game.inventory.insert("corn", u32::MAX - 3);
    assert_eq!(harvest(&mut game, 0, 0), Err(GameError::LimitReached));
    assert_eq!(game.inventory.get("corn"), Some(u32::MAX - 3));
}

#[test]
fn selling_moves_exactly_quantity_times_price() {
    let mut inventory: Ledger<u32> = Ledger::new();
    inventory.insert("tomato", 5);
    let mut wallet: u64 = 1_000_000;
    let mut market = Market::default();
    assert_eq!(sell_item(&mut inventory, &mut wallet, &mut market, "tomato", 3), Ok(()));
    assert_eq!(wallet, 1_300_000);
    assert_eq!(inventory.get("tomato"), Some(2));
    assert_eq!(market.supply_demand.get("tomato"), Some(9_700));
    assert_eq!(sell_item(&mut inventory, &mut wallet, &mut market, "tomato", 3), Err(GameError::NotEnoughItems));
    assert_eq!(sell_item(&mut inventory, &mut wallet, &mut market, "banana", 1), Err(GameError::ItemNotInMarket));
    assert_eq!(sell_item(&mut inventory, &mut wallet, &mut market, "corn", 1), Err(GameError::ItemNotInInventory));
    assert_eq!(wallet, 1_300_000);
    assert_eq!(inventory.get("tomato"), Some(2));
    assert_eq!(inventory.get("corn"), None);
    let mut full: u64 = u64::MAX - 10;
    assert_eq!(sell_item(&mut inventory, &mut full, &mut market, "tomato", 1), Err(GameError::LimitReached));
    assert_eq!(full, u64::MAX - 10);
}

#[test]
fn buying_draws_on_the_wallet() {
    let mut inventory: Ledger<u32> = Ledger::new();
    let mut wallet: u64 = 200_000;
    let market = Market::default();
    assert_eq!(buy_item(&mut inventory, &mut wallet, &market, "potato", 3), Ok(()));
    assert_eq!(wallet, 50_000);
    assert_eq!(inventory.get("potato"), Some(3));
    assert_eq!(buy_item(&mut inventory, &mut wallet, &market, "potato", 2), Err(GameError::NotEnoughCash));
    assert_eq!(buy_item(&mut inventory, &mut wallet, &market, "banana", 1), Err(GameError::ItemNotInMarket));
    assert_eq!(wallet, 50_000);
    assert_eq!(inventory.get("potato"), Some(3));
    inventory.insert("potato", u32::MAX);
    assert_eq!(buy_item(&mut inventory, &mut wallet, &market, "potato", 1), Err(GameError::LimitReached));
}

#[test]
fn price_update_formula_and_floor() {
    let mut market = Market::default();
    update_market_prices_with(&mut market, &vec![200, -500, 0]);
    assert_eq!(market.items.get("tomato"), Some(102_000));
    assert_eq!(market.items.get("potato"), Some(47_500));
    assert_eq!(market.items.get("corn"), Some(150_000));

    let mut inventory: Ledger<u32> = Ledger::new();
    inventory.insert("corn", 500);
    let mut wallet: u64 = 0;
    sell_item(&mut inventory, &mut wallet, &mut market, "corn", 500).unwrap();
    assert_eq!(market.supply_demand.get("corn"), Some(-40_000));
    update_market_prices_with(&mut market, &vec![0, 0, -500]);
    assert_eq!(market.items.get("corn"), Some(MIN_PRICE));
    assert_eq!(market.supply_demand.get("corn"), Some(-39_950));
    for _ in 0..50 {
        update_market_prices(&mut market);
        for i in 0..market.items.len() {
            assert!(market.items.value_at(i) >= MIN_PRICE);
        }
    }
    assert_eq!(get_market_price("corn"), 100_000);
}

#[test]
fn factor_recovers_up_to_one() {
    let mut market = Market::default();
    let mut inventory: Ledger<u32> = Ledger::new();
    inventory.insert("tomato", 1);
    let mut wallet: u64 = 0;
    sell_item(&mut inventory, &mut wallet, &mut market, "tomato", 1).unwrap();
    assert_eq!(market.supply_demand.get("tomato"), Some(9_900));
    update_market_prices_with(&mut market, &vec![0, 0, 0]);
    assert_eq!(market.items.get("tomato"), Some(99_000));
    assert_eq!(market.supply_demand.get("tomato"), Some(9_950));
    update_market_prices_with(&mut market, &vec![0, 0, 0]);
    update_market_prices_with(&mut market, &vec![0, 0, 0]);
    assert_eq!(market.supply_demand.get("tomato"), Some(10_000));
}

fn quiet_rolls(width: usize, height: usize) -> Vec<Vec<PestRoll>> {
    vec![vec![PestRoll { spreads: false, direction: 0, emerges: false, kind: 0 }; width]; height]
}

#[test]
fn pests_spread_only_onto_plants_without_pests() {
    let mut game = even_game(3, 2);
    for (x, y) in [(0, 0), (1, 0), (2, 0)] {
        plant_seed(&mut game, x, y, "potato").unwrap();
    }
    let aphids = Pest { pest_type: PestType::Aphids, infestation_level: 1_000 };
    let mites = Pest { pest_type: PestType::SpiderMites, infestation_level: 3_000 };
    tile_mut(&mut game, 0, 0).pest = Some(aphids);
    tile_mut(&mut game, 2, 0).pest = Some(mites);
    let mut rolls = quiet_rolls(3, 2);
    // (0, 0) has neighbours right, down: it spreads right onto the plant.
    rolls[0][0] = PestRoll { spreads: true, direction: 0, emerges: false, kind: 0 };
    // (2, 0) has neighbours left, down: it spreads down, where no plant grows.
    rolls[0][2] = PestRoll { spreads: true, direction: 1, emerges: false, kind: 0 };
    // An empty tile never gains a pest.
    rolls[1][1] = PestRoll { spreads: false, direction: 0, emerges: true, kind: 2 };
    let grid = &mut game.plots[0].grid;
    spread_pests(grid, &rolls);
    assert_eq!(grid.tiles[0][1].pest, Some(aphids));
    assert_eq!(grid.tiles[0][0].pest, Some(Pest { pest_type: PestType::Aphids, infestation_level: 1_500 }));
    assert_eq!(grid.tiles[0][2].pest, Some(Pest { pest_type: PestType::SpiderMites, infestation_level: 3_500 }));
    assert_eq!(grid.tiles[1][2].pest, None);
    assert_eq!(grid.tiles[1][1].pest, None);
    // The harmed plants lose a tenth of their pest's new level.
    assert_eq!(grid.tiles[0][0].plant.as_ref().unwrap().health, 10_000 - 150);
    assert_eq!(grid.tiles[0][2].plant.as_ref().unwrap().health, 10_000 - 350);
    assert_eq!(grid.tiles[0][1].plant.as_ref().unwrap().health, 10_000);
}

#[test]
fn latest_pest_in_scan_order_wins_and_new_pests_emerge() {
    let mut game = even_game(3, 1);
    for x in 0..3 {
        plant_seed(&mut game, x, 0, "corn").unwrap();
    }
    let aphids = Pest { pest_type: PestType::Aphids, infestation_level: 700 };
    let flies = Pest { pest_type: PestType::Whiteflies, infestation_level: 900 };
    tile_mut(&mut game, 0, 0).pest = Some(aphids);
    tile_mut(&mut game, 2, 0).pest = Some(flies);
    let mut rolls = quiet_rolls(3, 1);
    // Both send a pest to (1, 0), which would also grow one of its own.
    rolls[0][0] = PestRoll { spreads: true, direction: 0, emerges: false, kind: 0 };
    rolls[0][1] = PestRoll { spreads: false, direction: 0, emerges: true, kind: 1 };
    rolls[0][2] = PestRoll { spreads: true, direction: 0, emerges: false, kind: 0 };
    spread_pests(&mut game.plots[0].grid, &rolls);
    assert_eq!(tile(&game, 1, 0).pest, Some(flies));

    let mut lone = even_game(2, 1);
    plant_seed(&mut lone, 1, 0, "corn").unwrap();
    let mut rolls = quiet_rolls(2, 1);
    rolls[0][1] = PestRoll { spreads: false, direction: 0, emerges: true, kind: 1 };
    rolls[0][0] = PestRoll { spreads: false, direction: 0, emerges: true, kind: 2 };
    spread_pests(&mut lone.plots[0].grid, &rolls);
    assert_eq!(tile(&lone, 1, 0).pest, Some(Pest { pest_type: PestType::SpiderMites, infestation_level: 1_000 }));
    assert_eq!(tile(&lone, 0, 0).pest, None);
}

#[test]
fn nutrient_mixes_are_read_exactly() {
    assert_eq!(parse_npk("0.1,0.1,0.1"), Some((1_000, 1_000, 1_000)));
    assert_eq!(parse_npk(" -0.25 , 1, .5"), Some((-2_500, 10_000, 5_000)));
    assert_eq!(parse_npk("+2.,0.00009,3.14159"), Some((20_000, 0, 31_415)));
    assert_eq!(parse_npk("0.1,0.1"), None);
    assert_eq!(parse_npk("0.1,0.1,0.1,0.1"), None);
    assert_eq!(parse_npk("a,b,c"), None);
    assert_eq!(parse_npk("0.1,,0.1"), None);
    assert_eq!(parse_npk("1.2.3,0,0"), None);
    assert_eq!(parse_npk("."), None);
    assert_eq!(parse_whole_str("4294967295", u32::MAX as u64), Some(4_294_967_295));
    assert_eq!(parse_whole_str("4294967296", u32::MAX as u64), None);
    assert_eq!(parse_whole_str("", 10), None);
    assert_eq!(parse_whole_str("007", 10), Some(7));
}

#[test]
fn fertilizing_and_watering_clamp_and_refuse() {
    let mut game = even_game(2, 2);
    assert_eq!(fertilize_tile(&mut game, 1, 1, "0.7,-0.6,0.25"), Ok(()));
    let n = tile(&game, 1, 1).soil.soil_nutrients;
    assert_eq!((n.nitrogen, n.phosphorus, n.potassium), (10_000, 0, 7_500));
    assert_eq!(fertilize_tile(&mut game, 1, 1, "0.1;0.1;0.1"), Err(GameError::InvalidNpkMix));
    assert_eq!(fertilize_tile(&mut game, 2, 1, "0.1,0.1,0.1"), Err(GameError::InvalidCoordinates));
    assert_eq!(water_tile(&mut game, 0, 0), Ok(7_000));
    assert_eq!(water_tile(&mut game, 0, 0), Ok(9_000));
    assert_eq!(water_tile(&mut game, 0, 0), Ok(10_000));
    assert_eq!(water_tile(&mut game, 0, 9), Err(GameError::InvalidCoordinates));
    game.plots.clear();
    assert_eq!(water_tile(&mut game, 0, 0), Err(GameError::MissingPlot));
}

#[test]
fn planting_and_pesticide() {
    let mut game = even_game(2, 2);
    assert_eq!(plant_seed(&mut game, 1, 0, "potato"), Ok(()));
    let p = tile(&game, 1, 0).plant.as_ref().unwrap();
    assert_eq!(p.species, "potato");
    assert_eq!((p.age, p.maturity_age, p.wither_time, p.health), (0, 12, 20, 10_000));
    assert_eq!(plant_seed(&mut game, 1, 0, "corn"), Err(GameError::TileOccupied));
    assert_eq!(apply_pesticide(&mut game, 1, 0), Err(GameError::NoPest));
    tile_mut(&mut game, 1, 0).pest = Some(Pest { pest_type: PestType::Whiteflies, infestation_level: 100 });
    assert_eq!(apply_pesticide(&mut game, 1, 0), Ok(()));
    assert!(tile(&game, 1, 0).pest.is_none());
    let odd = create_plant("dragonfruit");
    assert!(["tomato", "potato", "corn"].contains(&odd.species.as_str()));
    assert_eq!(odd.life_cycle_stage, LifeCycleStage::Seed);
}

#[test]
fn new_game_and_grid_start_in_range() {
    let game = new_game();
    assert_eq!(game.plots.len(), 1);
    assert_eq!((game.plots[0].x, game.plots[0].y), (0, 0));
    assert_eq!(game.wallet, 1_000_000);
    assert_eq!(game.tick_counter, 0);
    assert_eq!(game.current_weather, Weather::Sunny);
    assert_eq!(game.market.items.get("corn"), Some(150_000));
    let grid = create_grid(4, 3);
    assert_eq!(grid.tiles.len(), 3);
    for row in &grid.tiles {
        assert_eq!(row.len(), 4);
        for t in row {
            assert!((3_000..7_000).contains(&t.soil.soil_moisture));
            assert!((3_000..7_000).contains(&t.soil.soil_nutrients.nitrogen));
            assert!((60_000..75_000).contains(&t.soil.soil_ph));
            assert!(t.plant.is_none() && t.pest.is_none());
        }
    }
}

#[test]
fn forecast_numbers_the_coming_ticks() {
    let mut game = even_game(1, 1);
    game.tick_counter = 41;
    let f = forecast(&game, 3);
    assert_eq!(f.iter().map(|e| e.0).collect::<Vec<_>>(), vec![42, 43, 44]);
    assert_eq!(game.tick_counter, 41);
    assert!(forecast(&game, 0).is_empty());
}

#[test]
fn command_lines_are_read() {
    match parse_args(&words("plant 3 4 --seed tomato")).unwrap().command {
        Commands::Plant { x, y, seed } => assert_eq!((x, y, seed.as_str()), (3, 4, "tomato")),
        other => panic!("unexpected {:?}", other),
    }
    match parse_args(&words("market sell corn 12")).unwrap().command {
        Commands::Market(m) => match m.command {
            MarketCommands::Sell { item, quantity } => assert_eq!((item.as_str(), quantity), ("corn", 12)),
            other => panic!("unexpected {:?}", other),
        },
        other => panic!("unexpected {:?}", other),
    }
    match parse_args(&words("forecast 5")).unwrap().command {
        Commands::Forecast { ticks } => assert_eq!(ticks, 5),
        other => panic!("unexpected {:?}", other),
    }
    match parse_args(&words("fertilize 0 1 --npk-mix 0.1,0.2,0.3")).unwrap().command {
        Commands::Fertilize { x, y, npk_mix } => assert_eq!((x, y, npk_mix.as_str()), (0, 1, "0.1,0.2,0.3")),
        other => panic!("unexpected {:?}", other),
    }
    assert!(matches!(parse_args(&words("new")).unwrap().command, Commands::New));
    assert!(matches!(parse_args(&words("view --from a --to b")).unwrap().command, Commands::View { .. }));
    assert!(parse_args(&words("")).is_err());
    assert!(parse_args(&words("plant 3 4")).is_err());
    assert!(parse_args(&words("plant x 4 --seed tomato")).is_err());
    assert!(parse_args(&words("water 1")).is_err());
    assert!(parse_args(&words("market lend corn 1")).is_err());
    assert!(parse_args(&words("dig 1 2")).is_err());
}

#[test]
fn commands_act_on_the_game() {
    let mut game = even_game(2, 2);
    let plant = parse_args(&words("plant 0 0 --seed tomato")).unwrap();
    assert!(matches!(handle_command(&plant.command, &mut game), Ok(Outcome::Planted)));
    let water = parse_args(&words("water 0 0")).unwrap();
    assert!(matches!(handle_command(&water.command, &mut game), Ok(Outcome::Watered(7_000))));
    let buy = parse_args(&words("market buy corn 2")).unwrap();
    assert!(matches!(handle_command(&buy.command, &mut game), Ok(Outcome::Bought)));
    assert_eq!(game.wallet, 700_000);
    let harvest_now = parse_args(&words("harvest 0 0")).unwrap();
    assert!(matches!(handle_command(&harvest_now.command, &mut game), Err(GameError::PlantNotReady)));
    let far = parse_args(&words("forecast 18446744073709551615")).unwrap();
    game.tick_counter = 1;
    assert!(matches!(handle_command(&far.command, &mut game), Err(GameError::LimitReached)));
    let view = parse_args(&words("market view")).unwrap();
    assert!(matches!(handle_command(&view.command, &mut game), Ok(Outcome::ShowMarket)));
    let rows = grid_glyphs(&game.plots[0].grid, false);
    assert_eq!(rows, vec![vec!['s', '.'], vec!['.', '.']]);
}

#[test]
fn glyphs_follow_the_stage() {
    let mut game = even_game(3, 1);
    plant_seed(&mut game, 0, 0, "tomato").unwrap();
    plant_seed(&mut game, 1, 0, "tomato").unwrap();
    tile_mut(&mut game, 0, 0).plant.as_mut().unwrap().life_cycle_stage = LifeCycleStage::Mature;
    tile_mut(&mut game, 1, 0).plant.as_mut().unwrap().life_cycle_stage = LifeCycleStage::Withering;
    assert_eq!(grid_glyphs(&game.plots[0].grid, true), vec![vec!['M', 'x', '.']]);
    assert_eq!(grid_glyphs(&game.plots[0].grid, false), vec![vec!['P', 'x', '.']]);
}


#[test]
fn exponents_large_numbers_and_truncation() {
    let cap = DECIMAL_CAP as i64;
    assert_eq!(parse_npk("1e0,0,0"), Some((10_000, 0, 0)));
    assert_eq!(parse_npk("1e-1,2.5E-2,1E5"), Some((1_000, 250, 1_000_000_000)));
    assert_eq!(parse_npk("5e+0,.5e1,-3e-4"), Some((50_000, 50_000, -3)));
    assert_eq!(parse_npk("123456789012345678,-1e30,7e99999999999999999999999999"), Some((cap, -cap, cap)));
    assert_eq!(parse_npk("0e99999999999999999999999999,1e-99999999999999999999999,0.00005"), Some((0, 0, 0)));
    assert_eq!(parse_npk("0.00019,0,0"), Some((1, 0, 0)));
    assert_eq!(parse_npk("1e,0,0"), None);
    assert_eq!(parse_npk("e5,0,0"), None);
    assert_eq!(parse_npk("1e+,0,0"), None);
    assert_eq!(parse_npk("1e2.5,0,0"), None);
    let mut game = even_game(1, 1);
    assert_eq!(fertilize_tile(&mut game, 0, 0, "1e0,0,0"), Ok(()));
    assert_eq!(tile(&game, 0, 0).soil.soil_nutrients.nitrogen, 10_000);
    assert_eq!(fertilize_tile(&mut game, 0, 0, "0,99999999999999,-1e40"), Ok(()));
    let n = tile(&game, 0, 0).soil.soil_nutrients;
    assert_eq!((n.nitrogen, n.phosphorus, n.potassium), (10_000, 10_000, 0));
}

#[test]
fn tick_leaves_existing_pests_in_place() {
    let mut game = even_game(2, 1);
    plant_seed(&mut game, 0, 0, "tomato").unwrap();
    let mites = Pest { pest_type: PestType::SpiderMites, infestation_level: 2_000 };
    tile_mut(&mut game, 0, 0).pest = Some(mites);
    run_game_tick(&mut game, Some(Weather::Cloudy));
    assert_eq!(tile(&game, 0, 0).pest, Some(Pest { pest_type: PestType::SpiderMites, infestation_level: 2_500 }));
    assert_eq!(tile(&game, 1, 0).pest, None);
}
