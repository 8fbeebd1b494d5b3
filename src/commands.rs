//! Carrying out a player's command on the game state. Saving, loading and
//! showing things are left to the caller, which is told what to show.

use crate::cli::{Commands, MarketCommands};
use crate::economy::{buy_item, purchase_done, sale_done, sell_item};
use crate::engine::{
    apply_pesticide, fertilize_tile, fertilizing_done, forecast, harvest, harvest_done,
    pesticide_done, plant_seed, planting_done, water_tile, watering_done,
};
use crate::error::GameError;
use crate::garden::MainGameState;
use crate::weather::Weather;
use vstd::prelude::*;

verus! {

/// What a command did, or what the caller should now show.
#[derive(Debug)]
pub enum Outcome {
    /// Nothing for the game state: starting, saving and loading are the
    /// caller's.
    Nothing,
    /// The caller should show the garden.
    ShowGarden,
    Planted,
    /// The tile was watered; its new moisture.
    Watered(u32),
    Fertilized,
    /// The plant was harvested; its yield.
    Harvested(u32),
    PesticideApplied,
    /// The weather forecast: tick numbers and weather.
    Forecast(Vec<(u64, Weather)>),
    Bought,
    Sold,
    /// The caller should show the market.
    ShowMarket,
}

/// A command's result without the outcome's payload.
pub open spec fn unit_result(r: Result<Outcome, GameError>) -> Result<(), GameError> {
    match r {
        Ok(_) => Ok(()),
        Err(e) => Err(e),
    }
}

/// A command's result as the number its outcome carries.
pub open spec fn count_result(r: Result<Outcome, GameError>) -> Result<u32, GameError> {
    match r {
        Ok(Outcome::Watered(m)) => Ok(m),
        Ok(Outcome::Harvested(n)) => Ok(n),
        Ok(_) => Ok(0),
        Err(e) => Err(e),
    }
}

/// Carries out a command on the game state, as the action it names does.
pub fn handle_command(command: &Commands, state: &mut MainGameState) -> (r: Result<Outcome, GameError>)
    requires
        old(state).is_valid(),
    ensures
        final(state).is_valid(),
        match command {
            Commands::New | Commands::Save { .. } | Commands::Load { .. } => r matches Ok(Outcome::Nothing) && *final(state) == *old(state),
            Commands::View { .. } => r matches Ok(Outcome::ShowGarden) && *final(state) == *old(state),
            Commands::Plant { x, y, seed } => (r is Ok ==> r->Ok_0 is Planted)
                && planting_done(&*old(state), &*final(state), *x, *y, seed@, unit_result(r)),
            Commands::Water { x, y } => (r is Ok ==> r->Ok_0 is Watered)
                && watering_done(&*old(state), &*final(state), *x, *y, count_result(r)),
            Commands::Fertilize { x, y, npk_mix } => (r is Ok ==> r->Ok_0 is Fertilized)
                && fertilizing_done(&*old(state), &*final(state), *x, *y, npk_mix@, unit_result(r)),
            Commands::Harvest { x, y } => (r is Ok ==> r->Ok_0 is Harvested)
                && harvest_done(&*old(state), &*final(state), *x, *y, count_result(r)),
            Commands::Pesticide { x, y } => (r is Ok ==> r->Ok_0 is PesticideApplied)
                && pesticide_done(&*old(state), &*final(state), *x, *y, unit_result(r)),
            Commands::Forecast { ticks } => *final(state) == *old(state) && if old(state).tick_counter + *ticks > u64::MAX {
                r == Err::<Outcome, GameError>(GameError::LimitReached)
            } else {
                r matches Ok(Outcome::Forecast(v)) && v@.len() == *ticks
                    && forall|i: int| 0 <= i < *ticks ==> (#[trigger] v@[i]).0 == old(state).tick_counter + i + 1
            },
            Commands::Market(m) => match &m.command {
                MarketCommands::Buy { item, quantity } => {
                    &&& r is Ok ==> r->Ok_0 is Bought
                    &&& purchase_done(&old(state).inventory, &final(state).inventory, old(state).wallet, final(state).wallet, &old(state).market, item@, *quantity, unit_result(r))
                    &&& final(state).plots == old(state).plots && final(state).market == old(state).market
                    &&& final(state).tick_counter == old(state).tick_counter && final(state).current_weather == old(state).current_weather
                },
                MarketCommands::Sell { item, quantity } => {
                    &&& r is Ok ==> r->Ok_0 is Sold
                    &&& sale_done(&old(state).inventory, &final(state).inventory, old(state).wallet, final(state).wallet, &old(state).market, &final(state).market, item@, *quantity, unit_result(r))
                    &&& final(state).plots == old(state).plots
                    &&& final(state).tick_counter == old(state).tick_counter && final(state).current_weather == old(state).current_weather
                },
                MarketCommands::View => r matches Ok(Outcome::ShowMarket) && *final(state) == *old(state),
            },
        },
{
    match command {
        Commands::New | Commands::Save { .. } | Commands::Load { .. } => Ok(Outcome::Nothing),
        Commands::View { .. } => Ok(Outcome::ShowGarden),
        Commands::Plant { x, y, seed } => match plant_seed(state, *x, *y, seed.as_str()) {
            Ok(()) => Ok(Outcome::Planted),
            Err(e) => Err(e),
        },
        Commands::Water { x, y } => match water_tile(state, *x, *y) {
            Ok(m) => Ok(Outcome::Watered(m)),
            Err(e) => Err(e),
        },
        Commands::Fertilize { x, y, npk_mix } => match fertilize_tile(state, *x, *y, npk_mix.as_str()) {
            Ok(()) => Ok(Outcome::Fertilized),
            Err(e) => Err(e),
        },
        Commands::Harvest { x, y } => match harvest(state, *x, *y) {
            Ok(n) => Ok(Outcome::Harvested(n)),
            Err(e) => Err(e),
        },
        Commands::Pesticide { x, y } => match apply_pesticide(state, *x, *y) {
            Ok(()) => Ok(Outcome::PesticideApplied),
            Err(e) => Err(e),
        },
        Commands::Forecast { ticks } => {
            if *ticks > u64::MAX - state.tick_counter {
                Err(GameError::LimitReached)
            } else {
                Ok(Outcome::Forecast(forecast(state, *ticks)))
            }
        },
        Commands::Market(m) => match &m.command {
            MarketCommands::Buy { item, quantity } => match buy_item(&mut state.inventory, &mut state.wallet, &state.market, item.as_str(), *quantity) {
                Ok(()) => Ok(Outcome::Bought),
                Err(e) => Err(e),
            },
            MarketCommands::Sell { item, quantity } => match sell_item(&mut state.inventory, &mut state.wallet, &mut state.market, item.as_str(), *quantity) {
                Ok(()) => Ok(Outcome::Sold),
                Err(e) => Err(e),
            },
            MarketCommands::View => Ok(Outcome::ShowMarket),
        },
    }
}

} // verus!
