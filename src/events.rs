//! Events that can befall a game.

use crate::pests::PestType;
use vstd::prelude::*;

verus! {

/// Something that happens to the game as a whole.
#[derive(Debug, Clone, Copy, PartialEq, Eq, Structural)]
pub enum GameEvent {
    BlightSpotted,
    MarketCrash,
    BumperHarvest,
    PestInfestation(PestType),
}

} // verus!
