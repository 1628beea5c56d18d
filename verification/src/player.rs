//! The decisions that the engine asks of a player.

use vstd::prelude::*;
use crate::actions::{Attack, Move, Reinforcement};
use crate::board::{GameBoard, StandardGameBoard};
use crate::cards::Trade;
use crate::{AttackTerritories, CardAndId, NumArmies, PlayerId, TerritoryId};

pub mod answers;
pub mod random_player;

pub use random_player::RandomPlayer;

verus! {

/// Somebody who decides for one player. The engine holds every answer
/// against the rules, so nothing is asked of an answer here.
pub trait Player {
    /// Asked at the start of a turn: which set to trade in, if any. `cards`
    /// is the player's hand, `other_reinf` the armies due apart from trades,
    /// and `necessary` tells whether a trade is due.
    fn make_trade(&self, cards: &[CardAndId], other_reinf: NumArmies, necessary: bool) -> Option<Trade>;

    /// Asked after the trades: how to distribute `amount` armies over the
    /// territories in `owned`. There is at least one territory unless there
    /// is no army to distribute.
    fn distrib_reinforcements(&self, amount: NumArmies, owned: &[TerritoryId]) -> Reinforcement
        requires
            owned.len() > 0 || amount == 0,
    ;

    /// Asked during the attack phase: which attack to make, if any.
    fn make_attack(&self, info: &AttackTerritories) -> Option<Attack>;

    /// Asked once after the attacks: which move to make, if any.
    fn fortify(&self, player: PlayerId, board: &StandardGameBoard) -> Option<Move>
        requires
            board.wf(),
    ;
}

} // verus!
