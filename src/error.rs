//! The ways an action can fail. Every failing action leaves the game state
//! as it was.

use vstd::prelude::*;

verus! {

/// Why an action was refused.
#[derive(Debug, Clone, Copy, PartialEq, Eq, Structural)]
pub enum GameError {
    /// The coordinates name no tile.
    InvalidCoordinates,
    /// The game has no plot at the origin.
    MissingPlot,
    /// The market does not trade the item.
    ItemNotInMarket,
    /// The inventory holds none of the item.
    ItemNotInInventory,
    /// A nutrient mix is not three numbers separated by commas.
    InvalidNpkMix,
    /// The inventory holds fewer of the item than asked for.
    NotEnoughItems,
    /// The wallet holds less than the cost.
    NotEnoughCash,
    /// A plant already grows on the tile.
    TileOccupied,
    /// No plant grows on the tile.
    NoPlant,
    /// The plant is not ready to be harvested.
    PlantNotReady,
    /// No pest lives on the tile.
    NoPest,
    /// A count or a sum would pass the largest value it can hold.
    LimitReached,
}

impl GameError {
    /// A sentence that describes the error to the player.
    pub fn message(&self) -> &'static str {
        match self {
            GameError::InvalidCoordinates => "Invalid coordinates.",
            GameError::MissingPlot => "No plot found.",
            GameError::ItemNotInMarket => "Item not found in market.",
            GameError::ItemNotInInventory => "Item not found in inventory.",
            GameError::InvalidNpkMix => "Invalid NPK mix format. Please use a format like '0.1,0.1,0.1'.",
            GameError::NotEnoughItems => "Not enough items to sell.",
            GameError::NotEnoughCash => "Not enough cash to buy.",
            GameError::TileOccupied => "There is already a plant on this tile.",
            GameError::NoPlant => "There is no plant on this tile.",
            GameError::PlantNotReady => "The plant is not ready to be harvested.",
            GameError::NoPest => "No pest to remove on this tile.",
            GameError::LimitReached => "The amount is too large.",
        }
    }
}

} // verus!
