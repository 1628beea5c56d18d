//! A territory-conquest board game engine: the board and its map, the card
//! economy, the combat odds and the per-turn phase machine, each with a
//! machine-checked contract.

use std::collections::HashMap;
use vstd::prelude::*;

pub mod actions;
pub mod board;
pub mod card_economy;
pub mod cards;
pub mod combat;
pub mod game_manager;
pub mod game_state;
pub mod picks;
pub mod player;
mod random;

pub use actions::{
    attacking_allowed, defending_allowed, max_allowed, Attack, AttackTerritoryInfo, Move, Reinforcement,
};
pub use board::{Continent, GameBoard, GameMap, StandardGameBoard};
pub use card_economy::{CardEconomy, CardPlace};
pub use cards::{Card, CardSymbol, Trade};
pub use combat::{resolve, DRAW_SCALE};
pub use game_manager::GameManager;
pub use game_state::Phase;
pub use player::{Player, RandomPlayer};

verus! {

/// Number of territories on the standard board.
pub const NUM_TERRITORIES: usize = 42;

/// A territory is named by its index on the board.
pub type TerritoryId = u8;

/// A player is named by a small index, stable for the whole game.
pub type PlayerId = u8;

/// A number of armies.
pub type NumArmies = u16;

/// A card is named by its index in the catalog.
pub type CardId = usize;

/// A card together with the index under which the economy tracks it.
pub type CardAndId = (Card, CardId);

/// What an attacker is told, by territory owned.
pub type AttackTerritories = HashMap<TerritoryId, AttackTerritoryInfo>;

} // verus!
