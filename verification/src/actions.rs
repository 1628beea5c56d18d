//! What a player may propose during a turn: a distribution of
//! reinforcements, an attack, a move.

use std::collections::{HashMap, HashSet};
use vstd::prelude::*;
use vstd::std_specs::hash::group_hash_axioms;
use vstd::std_specs::iter::IteratorSpec;
use crate::{NumArmies, TerritoryId};

verus! {

broadcast use group_hash_axioms;

/// The armies that `reinf` assigns to territory `t`; none if it does not
/// name `t`.
pub open spec fn assigned_to(reinf: Map<TerritoryId, NumArmies>, t: TerritoryId) -> nat {
    if reinf.contains_key(t) {
        reinf[t] as nat
    } else {
        0
    }
}

/// The armies that `reinf` assigns to the territories with index below `n`.
pub open spec fn assigned_below(reinf: Map<TerritoryId, NumArmies>, n: nat) -> nat
    decreases n,
{
    if n == 0 {
        0
    } else {
        assigned_below(reinf, (n - 1) as nat) + assigned_to(reinf, (n - 1) as TerritoryId)
    }
}

/// All the armies that `reinf` assigns.
pub open spec fn assigned_total(reinf: Map<TerritoryId, NumArmies>) -> nat {
    assigned_below(reinf, 256)
}

/// Assigning `v` armies to territory `t` changes the sum of the armies
/// assigned by the difference to what `t` had.
pub proof fn lemma_assigned_below_insert(reinf: Map<TerritoryId, NumArmies>, t: TerritoryId, v: NumArmies, n: nat)
    requires
        n <= 256,
    ensures
        assigned_below(reinf.insert(t, v), n) == assigned_below(reinf, n) + (if t < n {
            v - assigned_to(reinf, t)
        } else {
            0
        }),
    decreases n,
{
    if n > 0 {
        lemma_assigned_below_insert(reinf, t, v, (n - 1) as nat);
    }
}

/// A distribution that names no territory assigns no army.
pub proof fn lemma_assigned_below_empty(n: nat)
    ensures
        assigned_below(Map::<TerritoryId, NumArmies>::empty(), n) == 0,
    decreases n,
{
    if n > 0 {
        lemma_assigned_below_empty((n - 1) as nat);
    }
}

/// No territory is assigned more than all territories together.
pub proof fn lemma_assigned_to_bounded(reinf: Map<TerritoryId, NumArmies>, t: TerritoryId, n: nat)
    ensures
        t < n ==> assigned_to(reinf, t) <= assigned_below(reinf, n),
    decreases n,
{
    if n > 0 {
        lemma_assigned_to_bounded(reinf, t, (n - 1) as nat);
    }
}

/// A distribution of reinforcements: armies to add, by territory.
pub struct Reinforcement {
    reinf: HashMap<TerritoryId, NumArmies>,
}

impl View for Reinforcement {
    type V = Map<TerritoryId, NumArmies>;

    closed spec fn view(&self) -> Map<TerritoryId, NumArmies> {
        self.reinf@
    }
}

impl Reinforcement {
    /// A distribution that assigns what `reinf` holds.
    pub fn new(reinf: HashMap<TerritoryId, NumArmies>) -> (r: Reinforcement)
        ensures
            r@ == reinf@,
    {
        Reinforcement { reinf: reinf }
    }

    /// The territories named, each with the armies assigned to it, in no
    /// promised order.
    pub fn iter(&self) -> (r: std::collections::hash_map::Iter<'_, TerritoryId, NumArmies>)
        ensures
            r.remaining().no_duplicates(),
            r.remaining().len() == self@.dom().len(),
            forall|i: int|
                0 <= i < r.remaining().len() ==> self@.contains_key(*(#[trigger] r.remaining()[i]).0)
                    && self@[*r.remaining()[i].0] == *r.remaining()[i].1,
            forall|t: TerritoryId| #[trigger] self@.contains_key(t) ==> r.remaining().contains((&t, &self@[t])),
    {
        self.reinf.iter()
    }

    /// The armies assigned to territory `t`, if the distribution names it.
    pub fn get(&self, t: TerritoryId) -> (r: Option<NumArmies>)
        ensures
            r == (if self@.contains_key(t) {
                Some(self@[t])
            } else {
                None
            }),
    {
        match self.reinf.get(&t) {
            Some(n) => Some(*n),
            None => None,
        }
    }

    /// All the armies that the distribution assigns.
    pub fn total(&self) -> (r: u32)
        ensures
            r == assigned_total(self@),
    {
        let mut sum: u32 = 0;
        let mut t: u16 = 0;
        while t < 256
            invariant
                t <= 256,
                sum == assigned_below(self@, t as nat),
                sum <= t * 0xffff,
            decreases 256 - t,
        {
            match self.get(t as TerritoryId) {
                Some(n) => {
                    sum = sum + n as u32;
                },
                None => {},
            }
            t += 1;
        }
        sum
    }
}

/// A proposal to attack `target` from `origin` with `amount_attacking`
/// armies.
pub struct Attack {
    pub origin: TerritoryId,
    pub target: TerritoryId,
    pub amount_attacking: NumArmies,
}

impl Attack {
    /// An attack on `target` from `origin` with `amount_attacking` armies.
    pub fn new(origin: TerritoryId, target: TerritoryId, amount_attacking: NumArmies) -> (a: Attack)
        ensures
            a.origin == origin,
            a.target == target,
            a.amount_attacking == amount_attacking,
    {
        Attack { origin: origin, target: target, amount_attacking: amount_attacking }
    }
}

/// A proposal to move `amount` armies from `origin` to `destination`.
pub struct Move {
    pub origin: TerritoryId,
    pub destination: TerritoryId,
    pub amount: NumArmies,
}

/// What an attacker is told about one of their territories: the armies on
/// it and the enemy territories that border it.
pub struct AttackTerritoryInfo {
    pub id: TerritoryId,
    pub armies: NumArmies,
    pub adj_enemies: HashSet<TerritoryId>,
}

/// The smaller of `max` and `pool`.
pub open spec fn capped(max: NumArmies, pool: NumArmies) -> NumArmies {
    if pool > max {
        max
    } else {
        pool
    }
}

/// How many of `pool` armies may attack at once: at most three.
pub fn attacking_allowed(pool: NumArmies) -> (r: NumArmies)
    ensures
        r == capped(3, pool),
{
    max_allowed(3, pool)
}

/// How many of `pool` armies may defend at once: at most two.
pub fn defending_allowed(pool: NumArmies) -> (r: NumArmies)
    ensures
        r == capped(2, pool),
{
    max_allowed(2, pool)
}

/// Given `max` and `pool`, the smaller of the two.
pub fn max_allowed(max: NumArmies, pool: NumArmies) -> (r: NumArmies)
    ensures
        r == capped(max, pool),
{
    if pool > max {
        max
    } else {
        pool
    }
}

} // verus!
