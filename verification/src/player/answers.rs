//! What a player who is asked line by line has answered so far. Asking and
//! reading are left to the caller; what an answer means is settled here.

use std::collections::HashMap;
use vstd::prelude::*;
use vstd::std_specs::hash::group_hash_axioms;
use crate::actions::{
    assigned_to, assigned_total, lemma_assigned_below_empty, lemma_assigned_below_insert, lemma_assigned_to_bounded,
    Reinforcement,
};
use crate::cards::Trade;
use crate::{CardAndId, NumArmies, TerritoryId};

verus! {

broadcast use group_hash_axioms;

/// The answer to a question that asks for yes or no.
#[derive(Copy, Clone, PartialEq, Eq, Debug, Structural)]
pub enum Answer {
    Yes,
    No,
}

/// What a line of one letter answers: `y` is yes and `n` is no, in either
/// case.
pub open spec fn answer_of(line: Seq<u8>) -> Option<Answer> {
    if line.len() != 1 {
        None
    } else if line[0] == 0x79 || line[0] == 0x59 {
        Some(Answer::Yes)
    } else if line[0] == 0x6e || line[0] == 0x4e {
        Some(Answer::No)
    } else {
        None
    }
}

/// Reads the answer to a question that asks for yes or no from a line
/// without the blanks around it; nothing if the line is no such answer.
pub fn read_answer(line: &[u8]) -> (r: Option<Answer>)
    ensures
        r == answer_of(line@),
{
    if line.len() != 1 {
        None
    } else if line[0] == 0x79 || line[0] == 0x59 {
        Some(Answer::Yes)
    } else if line[0] == 0x6e || line[0] == 0x4e {
        Some(Answer::No)
    } else {
        None
    }
}

/// The trade of the cards in three places of a hand; nothing if one of the
/// places is not in the hand.
pub fn trade_from_places(cards: &[CardAndId], places: [usize; 3]) -> (r: Option<Trade>)
    ensures
        match r {
            Some(trade) => {
                &&& places[0] < cards.len()
                &&& places[1] < cards.len()
                &&& places[2] < cards.len()
                &&& trade.cards@ == seq![
                    cards[places[0] as int],
                    cards[places[1] as int],
                    cards[places[2] as int],
                ]
            },
            None => places[0] >= cards.len() || places[1] >= cards.len() || places[2] >= cards.len(),
        },
{
    if places[0] < cards.len() && places[1] < cards.len() && places[2] < cards.len() {
        let trade = Trade::new([cards[places[0]], cards[places[1]], cards[places[2]]]);
        assert(trade.cards@ =~= seq![
            cards[places[0] as int],
            cards[places[1] as int],
            cards[places[2] as int],
        ]);
        Some(trade)
    } else {
        None
    }
}

/// A distribution of reinforcements in the making: what has been assigned
/// and what is left to assign.
pub struct ReinforcementTally {
    left: NumArmies,
    assigned: HashMap<TerritoryId, NumArmies>,
    amount: Ghost<NumArmies>,
}

impl ReinforcementTally {
    /// The tally's invariant: what is assigned and what is left make up
    /// the amount to distribute.
    pub closed spec fn wf(&self) -> bool {
        assigned_total(self.assigned@) + self.left == self.amount@
    }

    /// The armies to distribute in all.
    pub closed spec fn amount(&self) -> NumArmies {
        self.amount@
    }

    /// The armies not yet assigned.
    pub closed spec fn armies_left(&self) -> NumArmies {
        self.left
    }

    /// The armies assigned so far, by territory.
    pub closed spec fn assigned(&self) -> Map<TerritoryId, NumArmies> {
        self.assigned@
    }

    /// What is assigned and what is left make up the amount to distribute.
    pub proof fn lemma_tally_adds_up(&self)
        requires
            self.wf(),
        ensures
            assigned_total(self.assigned()) + self.armies_left() == self.amount(),
    {
    }

    /// A tally of `amount` armies, none of them assigned.
    pub fn new(amount: NumArmies) -> (tally: ReinforcementTally)
        ensures
            tally.wf(),
            tally.amount() == amount,
            tally.armies_left() == amount,
            tally.assigned() == Map::<TerritoryId, NumArmies>::empty(),
    {
        proof {
            lemma_assigned_below_empty(256);
        }
        ReinforcementTally { left: amount, assigned: HashMap::new(), amount: Ghost(amount) }
    }

    /// The armies not yet assigned.
    pub fn left(&self) -> (r: NumArmies)
        ensures
            r == self.armies_left(),
    {
        self.left
    }

    /// Assigns `num_armies` more armies to `terr`. Refuses, and changes
    /// nothing, if fewer are left.
    pub fn assign(&mut self, terr: TerritoryId, num_armies: NumArmies) -> (done: bool)
        requires
            old(self).wf(),
        ensures
            final(self).wf(),
            final(self).amount() == old(self).amount(),
            done == (num_armies <= old(self).armies_left()),
            done ==> final(self).armies_left() == old(self).armies_left() - num_armies && final(self).assigned()
                == old(self).assigned().insert(
                terr,
                (assigned_to(old(self).assigned(), terr) + num_armies) as NumArmies,
            ),
            !done ==> final(self).armies_left() == old(self).armies_left() && final(self).assigned() == old(
                self,
            ).assigned(),
    {
        if num_armies > self.left {
            return false;
        }
        let old_num_armies = match self.assigned.get(&terr) {
            Some(n) => *n,
            None => 0,
        };
        proof {
            lemma_assigned_to_bounded(self.assigned@, terr, 256);
            lemma_assigned_below_insert(
                self.assigned@,
                terr,
                (old_num_armies + num_armies) as NumArmies,
                256,
            );
        }
        self.left = self.left - num_armies;
        self.assigned.insert(terr, num_armies + old_num_armies);
        true
    }

    /// The distribution as it stands.
    pub fn finish(self) -> (reinf: Reinforcement)
        requires
            self.wf(),
        ensures
            reinf@ == self.assigned(),
            assigned_total(reinf@) + self.armies_left() == self.amount(),
    {
        Reinforcement::new(self.assigned)
    }
}

} // verus!
