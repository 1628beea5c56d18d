//! The odds of one battle: which side loses how many armies, decided by one
//! draw against a fixed table.

use vstd::prelude::*;
use crate::NumArmies;

verus! {

/// A draw is a whole number of millionths: `d` stands for the fraction
/// `d / DRAW_SCALE`, so draws below `DRAW_SCALE` cover the unit interval.
pub const DRAW_SCALE: u32 = 1_000_000;

/// The chance, in millionths, of the first outcome in the table row for
/// `attacking` against `defending` armies: the attacker loses as many
/// armies as are at stake.
pub open spec fn attacker_loses_all(attacking: nat, defending: nat) -> nat {
    if defending == 1 {
        if attacking == 1 {
            583_300
        } else if attacking == 2 {
            421_300
        } else {
            340_300
        }
    } else {
        if attacking == 1 {
            745_400
        } else if attacking == 2 {
            448_300
        } else {
            292_600
        }
    }
}

/// The chance, in millionths, of the second outcome in a row where two
/// armies are at stake: the defender loses both.
pub open spec fn defender_loses_two(attacking: nat) -> nat {
    if attacking == 2 {
        227_600
    } else {
        371_700
    }
}

/// Losses of attacker and defender for the given pools and draw. The draw
/// is held against the cumulative chances of the row in table order, and a
/// draw equal to a threshold still selects the outcome below it.
pub open spec fn battle_losses(attacking: nat, defending: nat, draw: nat) -> (nat, nat) {
    if attacking == 1 || defending == 1 {
        if draw <= attacker_loses_all(attacking, defending) {
            (1, 0)
        } else {
            (0, 1)
        }
    } else {
        if draw <= attacker_loses_all(attacking, defending) {
            (2, 0)
        } else if draw <= attacker_loses_all(attacking, defending) + defender_loses_two(attacking) {
            (0, 2)
        } else {
            (1, 1)
        }
    }
}

/// Whether the table has a row for these pools.
pub open spec fn pools_in_table(attacking: nat, defending: nat) -> bool {
    1 <= attacking <= 3 && 1 <= defending <= 2
}

/// Resolves one battle: the armies that the attacker and the defender lose.
pub fn resolve(attacking_pool: NumArmies, defending_pool: NumArmies, draw: u32) -> (losses: (
    NumArmies,
    NumArmies,
))
    requires
        pools_in_table(attacking_pool as nat, defending_pool as nat),
    ensures
        (losses.0 as nat, losses.1 as nat) == battle_losses(
            attacking_pool as nat,
            defending_pool as nat,
            draw as nat,
        ),
{
    if defending_pool == 1 {
        let threshold: u32 = if attacking_pool == 1 {
            583_300
        } else if attacking_pool == 2 {
            421_300
        } else {
            340_300
        };
        if draw <= threshold {
            (1, 0)
        } else {
            (0, 1)
        }
    } else if attacking_pool == 1 {
        if draw <= 745_400 {
            (1, 0)
        } else {
            (0, 1)
        }
    } else {
        let (first, second): (u32, u32) = if attacking_pool == 2 {
            (448_300, 448_300 + 227_600)
        } else {
            (292_600, 292_600 + 371_700)
        };
        if draw <= first {
            (2, 0)
        } else if draw <= second {
            (0, 2)
        } else {
            (1, 1)
        }
    }
}

/// Neither side loses more than it has at stake, the two sides together
/// lose as many armies as the smaller pool holds, and a defender who loses
/// a whole pool of armies costs the attacker none.
pub proof fn lemma_battle_losses_bounded(attacking: nat, defending: nat, draw: nat)
    requires
        pools_in_table(attacking, defending),
    ensures
        battle_losses(attacking, defending, draw).0 <= attacking,
        battle_losses(attacking, defending, draw).1 <= defending,
        battle_losses(attacking, defending, draw).0 + battle_losses(attacking, defending, draw).1 == (if attacking
            < defending {
            attacking
        } else {
            defending
        }),
        battle_losses(attacking, defending, draw).1 == defending ==> battle_losses(attacking, defending, draw).0
            == 0,
{
}

} // verus!
