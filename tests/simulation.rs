use bytebloom::engine::{harvest, new_game, plant_seed, run_game_tick, water_tile, fertilize_tile};
use bytebloom::garden::{Grid, MainGameState, Nutrients, Plot, Soil, SoilType, Tile};
use bytebloom::plant::LifeCycleStage;
use bytebloom::weather::Weather;

fn setup_test_game() -> MainGameState {
    let mut game = new_game();
    // Replace the random plot with a predictable one.
    game.plots.clear();
    let mut tiles = Vec::new();
    for _ in 0..10 {
        let mut row = Vec::new();
        for _ in 0..10 {
            row.push(Tile {
                soil: Soil {
                    soil_type: SoilType::Loam,
                    soil_moisture: 5_000,
                    soil_nutrients: Nutrients {
                        nitrogen: 5_000,
                        phosphorus: 5_000,
                        potassium: 5_000,
                    },
                    soil_ph: 70_000,
                    weeds: 0,
                },
                plant: None,
                pest: None,
            });
        }
        tiles.push(row);
    }
    game.plots.push(Plot { x: 0, y: 0, grid: Grid { tiles } });
    game
}

fn origin(game: &MainGameState) -> &Plot {
    game.plots.iter().find(|p| p.x == 0 && p.y == 0).unwrap()
}

fn origin_tile(game: &mut MainGameState, x: usize, y: usize) -> &mut Tile {
    let plot = game.plots.iter_mut().find(|p| p.x == 0 && p.y == 0).unwrap();
    &mut plot.grid.tiles[y][x]
}

#[test]
fn test_plant_growth_ideal_conditions() {
    let mut game = setup_test_game();
    plant_seed(&mut game, 0, 0, "tomato").unwrap();

    let initial_age = origin(&game).grid.tiles[0][0].plant.as_ref().unwrap().age;
    assert_eq!(initial_age, 0, "Plant should have an initial age of 0.");

    run_game_tick(&mut game, None);

    let new_age = origin(&game).grid.tiles[0][0].plant.as_ref().unwrap().age;
    // The weather of this tick is drawn at random. Sun or clouds leave the
    // moisture inside the tomato's ideal range; rain or a heatwave do not.
    match game.current_weather {
        Weather::Sunny | Weather::Cloudy => {
            assert_eq!(new_age, 1, "Plant should age by 1 under ideal soil conditions.")
        }
        Weather::Rainy | Weather::Heatwave => assert_eq!(new_age, 0),
    }
}

#[test]
fn test_watering_tile() {
    let mut game = setup_test_game();
    let initial_moisture = origin(&game).grid.tiles[0][0].soil.soil_moisture;

    water_tile(&mut game, 0, 0).unwrap();

    let new_moisture = origin(&game).grid.tiles[0][0].soil.soil_moisture;
    assert!(new_moisture > initial_moisture, "Watering should increase soil moisture.");
    assert!(new_moisture <= 10_000, "Soil moisture should not exceed 1.0.");
}

#[test]
fn test_fertilizing_tile() {
    let mut game = setup_test_game();
    let initial_nutrients = origin(&game).grid.tiles[0][0].soil.soil_nutrients;
    let initial_n = initial_nutrients.nitrogen;
    let initial_p = initial_nutrients.phosphorus;
    let initial_k = initial_nutrients.potassium;

    fertilize_tile(&mut game, 0, 0, "0.1,0.1,0.1").unwrap();

    let new_nutrients = origin(&game).grid.tiles[0][0].soil.soil_nutrients;
    assert!(new_nutrients.nitrogen > initial_n, "Fertilizing should increase nitrogen.");
    assert!(new_nutrients.phosphorus > initial_p, "Fertilizing should increase phosphorus.");
    assert!(new_nutrients.potassium > initial_k, "Fertilizing should increase potassium.");
}

#[test]
fn test_plant_growth_non_ideal_moisture() {
    let mut game = setup_test_game();
    plant_seed(&mut game, 0, 0, "tomato").unwrap();

    // Below the ideal range of 0.4-0.6.
    origin_tile(&mut game, 0, 0).soil.soil_moisture = 1_000;

    run_game_tick(&mut game, None);

    let new_age = origin(&game).grid.tiles[0][0].plant.as_ref().unwrap().age;
    assert_eq!(new_age, 0, "Plant should not age as fast under non-ideal moisture conditions.");
}

#[test]
fn test_plant_life_cycle() {
    let mut game = setup_test_game();
    plant_seed(&mut game, 0, 0, "tomato").unwrap();
    game.current_weather = Weather::Sunny;

    let plant = origin(&game).grid.tiles[0][0].plant.as_ref().unwrap();
    assert_eq!(plant.life_cycle_stage, LifeCycleStage::Seed);

    // Grow to Sprout
    run_game_tick(&mut game, Some(Weather::Sunny));
    let plant = origin(&game).grid.tiles[0][0].plant.as_ref().unwrap();
    assert_eq!(plant.life_cycle_stage, LifeCycleStage::Sprout);

    // Grow to Growing
    for _ in 0..4 {
        origin_tile(&mut game, 0, 0).soil.soil_moisture = 5_000;
        run_game_tick(&mut game, Some(Weather::Sunny));
    }
    let plant = origin(&game).grid.tiles[0][0].plant.as_ref().unwrap();
    assert_eq!(plant.life_cycle_stage, LifeCycleStage::Growing);

    // Grow to Mature
    for _ in 0..5 {
        origin_tile(&mut game, 0, 0).soil.soil_moisture = 5_000;
        run_game_tick(&mut game, Some(Weather::Sunny));
    }
    let plant = origin(&game).grid.tiles[0][0].plant.as_ref().unwrap();
    assert_eq!(plant.life_cycle_stage, LifeCycleStage::Mature);

    // Grow to Withering
    for _ in 0..5 {
        origin_tile(&mut game, 0, 0).soil.soil_moisture = 5_000;
        run_game_tick(&mut game, Some(Weather::Sunny));
    }
    let plant = origin(&game).grid.tiles[0][0].plant.as_ref().unwrap();
    assert_eq!(plant.life_cycle_stage, LifeCycleStage::Withering);
}

#[test]
fn test_plant_growth_heatwave() {
    let mut game = setup_test_game();
    plant_seed(&mut game, 0, 0, "tomato").unwrap();

    game.current_weather = Weather::Heatwave;

    run_game_tick(&mut game, Some(Weather::Heatwave));

    let new_age = origin(&game).grid.tiles[0][0].plant.as_ref().unwrap().age;
    assert_eq!(new_age, 0, "Plant should not grow as fast during a heatwave.");
}

#[test]
fn test_harvest() {
    let mut game = setup_test_game();
    plant_seed(&mut game, 0, 0, "tomato").unwrap();

    // Grow plant to maturity
    for _ in 0..15 {
        run_game_tick(&mut game, Some(Weather::Sunny));
    }

    harvest(&mut game, 0, 0).unwrap();

    assert!(origin(&game).grid.tiles[0][0].plant.is_none());
    assert!(game.inventory.get("tomato").unwrap() > 0);
}
