//! A tick-driven farming simulation: soil, plants, pests, weather and a small
//! market, advanced one step at a time over a grid of tiles.
//!
//! Every fractional quantity of the simulation (moisture, nutrients, health,
//! infestation, prices, money) is held as a fixed-point integer: the value
//! `UNIT` stands for one whole unit, so `5_000` is one half.

use vstd::prelude::*;

pub mod cli;
pub mod commands;
pub mod economy;
pub mod engine;
pub mod error;
pub mod events;
pub mod garden;
pub mod ledger;
pub mod numbers;
pub mod pests;
pub mod plant;
mod rng;
pub mod view;
pub mod weather;

verus! {

/// The fixed-point representation of the number one.
pub const UNIT: u32 = 10_000;

} // verus!
