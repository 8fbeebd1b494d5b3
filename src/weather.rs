//! The global weather, one value per game, redrawn every tick.

use crate::rng::random_below;
use vstd::prelude::*;

verus! {

/// The weather that holds over the whole game for one tick.
#[derive(Debug, Clone, Copy, PartialEq, Eq, Structural)]
pub enum Weather {
    Sunny,
    Cloudy,
    Rainy,
    Heatwave,
}

/// How many kinds of weather there are.
pub const WEATHER_KINDS: usize = 4;

/// The weather with the given position in the order Sunny, Cloudy, Rainy,
/// Heatwave.
pub open spec fn weather_at(index: int) -> Weather {
    if index == 0 {
        Weather::Sunny
    } else if index == 1 {
        Weather::Cloudy
    } else if index == 2 {
        Weather::Rainy
    } else {
        Weather::Heatwave
    }
}

/// Picks the weather with the given position; every kind has exactly one.
pub fn weather_from_index(index: usize) -> (w: Weather)
    requires
        index < WEATHER_KINDS,
    ensures
        w == weather_at(index as int),
{
    if index == 0 {
        Weather::Sunny
    } else if index == 1 {
        Weather::Cloudy
    } else if index == 2 {
        Weather::Rainy
    } else {
        Weather::Heatwave
    }
}

/// Draws the next weather, each kind with the same chance.
pub fn random_weather() -> (w: Weather) {
    let i = random_below(WEATHER_KINDS);
    weather_from_index(i)
}

} // verus!
