//! The board: who owns each territory, with how many armies, over a fixed map.

use vstd::prelude::*;
use crate::{NumArmies, PlayerId, TerritoryId};

pub mod graph;
pub mod standard_board;
pub mod territory;

pub use graph::{standard_map, TerritoryGraph};
pub use standard_board::{GameBoardTerritories, StandardGameBoard};
pub use territory::StandardTerritory;

verus! {

/// A continent: a run of consecutive territory indices and the bonus for
/// owning all of them.
#[derive(Copy, Clone, Debug, PartialEq, Eq, Structural)]
pub enum Continent {
    Australia,
    SouthAmerica,
    Africa,
    Europe,
    NorthAmerica,
    Asia,
}

impl Continent {
    /// The first territory index of the continent.
    pub open spec fn first(self) -> TerritoryId {
        match self {
            Continent::Africa => 0,
            Continent::Asia => 6,
            Continent::Australia => 18,
            Continent::Europe => 22,
            Continent::NorthAmerica => 29,
            Continent::SouthAmerica => 38,
        }
    }

    /// One past the last territory index of the continent.
    pub open spec fn end(self) -> TerritoryId {
        match self {
            Continent::Africa => 6,
            Continent::Asia => 18,
            Continent::Australia => 22,
            Continent::Europe => 29,
            Continent::NorthAmerica => 38,
            Continent::SouthAmerica => 42,
        }
    }

    /// Whether territory `t` lies on the continent.
    pub open spec fn contains(self, t: TerritoryId) -> bool {
        self.first() <= t < self.end()
    }

    /// Armies granted each turn to a player who owns the whole continent.
    pub open spec fn bonus(self) -> nat {
        match self {
            Continent::Australia => 2,
            Continent::SouthAmerica => 2,
            Continent::Africa => 3,
            Continent::Europe => 5,
            Continent::NorthAmerica => 5,
            Continent::Asia => 7,
        }
    }

    /// The territory indices of the continent.
    pub fn get_range(&self) -> (r: core::ops::Range<u8>)
        ensures
            r.start == self.first(),
            r.end == self.end(),
            r.start < r.end <= 42,
    {
        match *self {
            Continent::Africa => 0..6,
            Continent::Asia => 6..18,
            Continent::Australia => 18..22,
            Continent::Europe => 22..29,
            Continent::NorthAmerica => 29..38,
            Continent::SouthAmerica => 38..42,
        }
    }

    /// Armies granted each turn to a player who owns the whole continent.
    pub fn get_bonus(&self) -> (r: u8)
        ensures
            r == self.bonus(),
    {
        match *self {
            Continent::Australia => 2,
            Continent::SouthAmerica => 2,
            Continent::Africa => 3,
            Continent::Europe => 5,
            Continent::NorthAmerica => 5,
            Continent::Asia => 7,
        }
    }
}

/// The six continents, in the order in which bonuses are added up.
pub open spec fn all_continents() -> Seq<Continent> {
    seq![
        Continent::Australia,
        Continent::SouthAmerica,
        Continent::Africa,
        Continent::Europe,
        Continent::NorthAmerica,
        Continent::Asia,
    ]
}

/// What a board holds, as plain values.
pub ghost struct BoardState {
    /// Number of players; valid player indices lie below it.
    pub num_players: nat,
    /// Owner and army count of each territory, by territory index.
    pub territories: Seq<(PlayerId, NumArmies)>,
    /// Number of cards each player holds, by player index.
    pub cards: Seq<u8>,
}

impl BoardState {
    /// Every territory of the board has a valid owner, and every player a
    /// card count.
    pub open spec fn valid(self) -> bool {
        &&& self.territories.len() == 42
        &&& self.cards.len() == self.num_players
        &&& forall|t: int| 0 <= t < 42 ==> (#[trigger] self.territories[t]).0 < self.num_players
    }

    /// The owner of territory `t`.
    pub open spec fn owner(self, t: TerritoryId) -> PlayerId {
        self.territories[t as int].0
    }

    /// The armies on territory `t`.
    pub open spec fn armies(self, t: TerritoryId) -> NumArmies {
        self.territories[t as int].1
    }

    /// The territories with index below `n` that `player` owns, in rising
    /// order.
    pub open spec fn owned_below(self, player: PlayerId, n: nat) -> Seq<TerritoryId>
        decreases n,
    {
        if n == 0 {
            Seq::empty()
        } else {
            let rest = self.owned_below(player, (n - 1) as nat);
            if self.territories[n - 1].0 == player {
                rest.push((n - 1) as TerritoryId)
            } else {
                rest
            }
        }
    }

    /// The territories that `player` owns, in rising order.
    pub open spec fn owned_territories(self, player: PlayerId) -> Seq<TerritoryId> {
        self.owned_below(player, 42)
    }

    /// Whether `player` owns every territory of `continent`.
    pub open spec fn owns_continent(self, player: PlayerId, continent: Continent) -> bool {
        forall|t: TerritoryId| continent.contains(t) ==> #[trigger] self.owner(t) == player
    }

    /// The bonus `continent` yields to `player`: its full bonus or nothing.
    pub open spec fn bonus_from(self, player: PlayerId, continent: Continent) -> nat {
        if self.owns_continent(player, continent) {
            continent.bonus()
        } else {
            0
        }
    }

    /// The sum of the bonuses of all continents that `player` owns.
    pub open spec fn continent_bonuses(self, player: PlayerId) -> nat {
        self.bonus_from(player, Continent::Australia) + self.bonus_from(player, Continent::SouthAmerica)
            + self.bonus_from(player, Continent::Africa) + self.bonus_from(player, Continent::Europe)
            + self.bonus_from(player, Continent::NorthAmerica) + self.bonus_from(player, Continent::Asia)
    }

    /// Armies `player` receives at the start of a turn: a third of the number
    /// of owned territories, rounded down, but never less than three, plus
    /// the continent bonuses.
    pub open spec fn territory_reinforcements(self, player: PlayerId) -> nat {
        let third = self.owned_territories(player).len() / 3;
        (if third > 3 { third } else { 3 }) + self.continent_bonuses(player)
    }

    /// Whether one player owns every territory.
    pub open spec fn is_over(self) -> bool {
        forall|t: TerritoryId| t < 42 ==> #[trigger] self.owner(t) == self.owner(0)
    }

    /// Whether `player` owns no territory.
    pub open spec fn is_defeated(self, player: PlayerId) -> bool {
        forall|t: TerritoryId| t < 42 ==> #[trigger] self.owner(t) != player
    }

    /// How many of the territories with index below `n` the first `k`
    /// players own.
    pub open spec fn owned_by_first(self, k: nat, n: nat) -> nat
        decreases k,
    {
        if k == 0 {
            0
        } else {
            self.owned_by_first((k - 1) as nat, n) + self.owned_below((k - 1) as PlayerId, n).len()
        }
    }

    /// The state after territory `t` is handed to `owner` with `armies`.
    pub open spec fn with_territory(self, t: TerritoryId, owner: PlayerId, armies: NumArmies) -> BoardState {
        BoardState { territories: self.territories.update(t as int, (owner, armies)), ..self }
    }

    /// The state after `player`'s card count is set to `n`.
    pub open spec fn with_cards(self, player: PlayerId, n: u8) -> BoardState {
        BoardState { cards: self.cards.update(player as int, n), ..self }
    }
}

/// Everything `owned_below` lists is owned and below the bound; everything
/// owned and below the bound is listed; the list rises strictly.
pub proof fn lemma_owned_below(state: BoardState, player: PlayerId, n: nat)
    requires
        n <= 42,
    ensures
        state.owned_below(player, n).len() <= n,
        forall|t: TerritoryId| #[trigger]
            state.owned_below(player, n).contains(t) <==> t < n && state.owner(t) == player,
        forall|i: int, j: int|
            0 <= i < j < state.owned_below(player, n).len() ==> state.owned_below(player, n)[i]
                < state.owned_below(player, n)[j],
    decreases n,
{
    if n > 0 {
        let m = (n - 1) as nat;
        let rest = state.owned_below(player, m);
        lemma_owned_below(state, player, m);
        let last = m as TerritoryId;
        let all = state.owned_below(player, n);
        if state.territories[m as int].0 == player {
            assert(all == rest.push(last));
            assert forall|t: TerritoryId| all.contains(t) <==> (t < n && state.owner(t) == player) by {
                if all.contains(t) {
                    let i = choose|i: int| 0 <= i < all.len() && all[i] == t;
                    if i < rest.len() {
                        assert(rest[i] == t);
                        assert(rest.contains(t));
                    }
                }
                if t < n && state.owner(t) == player {
                    if t == last {
                        assert(all[rest.len() as int] == t);
                    } else {
                        assert(rest.contains(t));
                        let i = choose|i: int| 0 <= i < rest.len() && rest[i] == t;
                        assert(all[i] == t);
                    }
                }
            }
            assert forall|i: int, j: int| 0 <= i < j < all.len() implies all[i] < all[j] by {
                if j < rest.len() {
                    assert(rest[i] < rest[j]);
                } else {
                    assert(rest.contains(rest[i]));
                }
            }
        } else {
            assert(all == rest);
            assert forall|t: TerritoryId| all.contains(t) <==> (t < n && state.owner(t) == player) by {
                if t == last {
                    assert(state.owner(t) != player);
                }
            }
        }
    }
}

/// On a valid board the players' territories partition the board: every
/// territory is listed for some player, none for two, and nothing else is
/// listed.
pub proof fn lemma_ownership_partitions(state: BoardState)
    requires
        state.valid(),
    ensures
        forall|t: TerritoryId|
            t < 42 ==> state.owner(t) < state.num_players && #[trigger] state.owned_territories(
                state.owner(t),
            ).contains(t),
        forall|p: PlayerId, q: PlayerId, t: TerritoryId|
            #[trigger] state.owned_territories(p).contains(t) && #[trigger] state.owned_territories(q).contains(t)
                ==> p == q,
        forall|p: PlayerId, t: TerritoryId| #[trigger]
            state.owned_territories(p).contains(t) ==> t < 42 && p < state.num_players,
{
    assert forall|t: TerritoryId| t < 42 implies state.owner(t) < state.num_players
        && #[trigger] state.owned_territories(state.owner(t)).contains(t) by {
        assert(state.territories[t as int].0 < state.num_players);
        lemma_owned_below(state, state.owner(t), 42);
    }
    assert forall|p: PlayerId, t: TerritoryId| #[trigger]
        state.owned_territories(p).contains(t) implies t < 42 && state.owner(t) == p && p < state.num_players by {
        lemma_owned_below(state, p, 42);
        assert(state.territories[t as int].0 < state.num_players);
    }
}

/// One more territory adds one to the count of the first `k` players
/// exactly when one of them owns it.
proof fn lemma_owned_by_first_step(state: BoardState, k: nat, n: nat)
    requires
        0 < n,
        k <= 256,
    ensures
        state.owned_by_first(k, n) == state.owned_by_first(k, (n - 1) as nat) + (if state.territories[n - 1].0 < k {
            1nat
        } else {
            0
        }),
    decreases k,
{
    if k > 0 {
        lemma_owned_by_first_step(state, (k - 1) as nat, n);
    }
}

/// Nobody owns a territory with an index below zero.
proof fn lemma_owned_by_first_none(state: BoardState, k: nat)
    ensures
        state.owned_by_first(k, 0) == 0,
    decreases k,
{
    if k > 0 {
        lemma_owned_by_first_none(state, (k - 1) as nat);
    }
}

/// On a valid board the first `n` territories are counted once each among
/// the players.
proof fn lemma_owned_counted(state: BoardState, n: nat)
    requires
        state.valid(),
        state.num_players <= 256,
        n <= 42,
    ensures
        state.owned_by_first(state.num_players, n) == n,
    decreases n,
{
    if n > 0 {
        lemma_owned_counted(state, (n - 1) as nat);
        lemma_owned_by_first_step(state, state.num_players, n);
        assert(state.territories[n - 1].0 < state.num_players);
    } else {
        lemma_owned_by_first_none(state, state.num_players);
    }
}

/// On a valid board the players own, together, exactly the forty-two
/// territories.
pub proof fn lemma_owned_counts_add_up(state: BoardState)
    requires
        state.valid(),
        state.num_players <= 256,
    ensures
        state.owned_by_first(state.num_players, 42) == 42,
{
    lemma_owned_counted(state, 42);
}

/// A game board: the owner and army count of each territory and the card
/// count of each player, over a map.
pub trait GameBoard {
    /// The map that the board lies on.
    type Map: GameMap;

    /// What the board holds.
    spec fn state(&self) -> BoardState;

    /// Whether `a` and `b` share a border on the board's map.
    spec fn borders(&self, a: TerritoryId, b: TerritoryId) -> bool;

    /// The board's own invariant.
    spec fn wf(&self) -> bool;

    /// A well-formed board holds a valid state.
    proof fn wf_implies_valid(&self)
        requires
            self.wf(),
        ensures
            self.state().valid(),
    ;

    /// The owner of territory `t`.
    fn get_owner(&self, t: TerritoryId) -> (r: PlayerId)
        requires
            self.wf(),
            t < 42,
        ensures
            r == self.state().owner(t),
    ;

    /// The armies on territory `t`.
    fn get_num_armies(&self, t: TerritoryId) -> (r: NumArmies)
        requires
            self.wf(),
            t < 42,
        ensures
            r == self.state().armies(t),
    ;

    /// The number of cards that `player` holds.
    fn get_num_cards(&self, player: PlayerId) -> (r: u8)
        requires
            self.wf(),
            player < self.state().num_players,
        ensures
            r == self.state().cards[player as int],
    ;

    /// The number of territories that `player` owns.
    fn get_num_owned_territories(&self, player: PlayerId) -> (r: u8)
        requires
            self.wf(),
        ensures
            r == self.state().owned_territories(player).len(),
    ;

    /// The territories that `player` owns, in rising order.
    fn get_owned_territories(&self, player: PlayerId) -> (r: Vec<TerritoryId>)
        requires
            self.wf(),
        ensures
            r@ == self.state().owned_territories(player),
    ;

    /// The sum of the bonuses of all continents that `player` owns.
    fn get_continent_bonuses(&self, player: PlayerId) -> (r: u8)
        requires
            self.wf(),
        ensures
            r == self.state().continent_bonuses(player),
    ;

    /// Whether `player` owns every territory of `continent`.
    fn player_owns_continent(&self, player: PlayerId, continent: Continent) -> (r: bool)
        requires
            self.wf(),
        ensures
            r == self.state().owns_continent(player, continent),
    ;

    /// The number of armies a player receives from territories held and
    /// continent bonuses.
    fn get_territory_reinforcements(&self, player: PlayerId) -> (r: NumArmies)
        requires
            self.wf(),
        ensures
            r == self.state().territory_reinforcements(player),
    ;

    /// Writes owner and army count of one territory, whatever they were.
    fn set_territory(&mut self, t: TerritoryId, owner: PlayerId, armies: NumArmies)
        requires
            old(self).wf(),
            t < 42,
            owner < old(self).state().num_players,
        ensures
            final(self).wf(),
            final(self).state() == old(self).state().with_territory(t, owner, armies),
            forall|a: TerritoryId, b: TerritoryId| final(self).borders(a, b) == old(self).borders(a, b),
    ;

    /// Sets the number of cards that `player` holds.
    fn set_num_cards(&mut self, player: PlayerId, num_cards: u8)
        requires
            old(self).wf(),
            player < old(self).state().num_players,
        ensures
            final(self).wf(),
            final(self).state() == old(self).state().with_cards(player, num_cards),
            forall|a: TerritoryId, b: TerritoryId| final(self).borders(a, b) == old(self).borders(a, b),
    ;

    /// Whether one player owns every territory.
    fn game_is_over(&self) -> (r: bool)
        requires
            self.wf(),
        ensures
            r == self.state().is_over(),
    ;

    /// Whether `player` owns no territory.
    fn player_is_defeated(&self, player: PlayerId) -> (r: bool)
        requires
            self.wf(),
        ensures
            r == self.state().is_defeated(player),
    ;

    /// The map under the board.
    fn game_map(&self) -> (r: &Self::Map)
        requires
            self.wf(),
        ensures
            forall|a: TerritoryId, b: TerritoryId| r.adjacent(a, b) == self.borders(a, b),
    ;

    /// Whether somebody other than `player` owns territory `tid`.
    fn is_enemy_territory(&self, player: PlayerId, tid: TerritoryId) -> (r: bool)
        requires
            self.wf(),
            tid < 42,
        ensures
            r == (self.state().owner(tid) != player),
    {
        self.get_owner(tid) != player
    }

    /// Adds `add` armies to territory `tid`, which must have room for them.
    fn add_armies(&mut self, tid: TerritoryId, add: NumArmies)
        requires
            old(self).wf(),
            tid < 42,
            old(self).state().armies(tid) + add <= NumArmies::MAX,
        ensures
            final(self).wf(),
            final(self).state() == old(self).state().with_territory(
                tid,
                old(self).state().owner(tid),
                (old(self).state().armies(tid) + add) as NumArmies,
            ),
            forall|a: TerritoryId, b: TerritoryId| final(self).borders(a, b) == old(self).borders(a, b),
    {
        let num_armies = self.get_num_armies(tid);
        let owner = self.get_owner(tid);
        proof {
            self.wf_implies_valid();
            assert(self.state().territories[tid as int].0 < self.state().num_players);
        }
        self.set_territory(tid, owner, num_armies + add);
    }

    /// Takes `remove` armies from territory `tid`, which must hold as many.
    fn remove_armies(&mut self, tid: TerritoryId, remove: NumArmies)
        requires
            old(self).wf(),
            tid < 42,
            remove <= old(self).state().armies(tid),
        ensures
            final(self).wf(),
            final(self).state() == old(self).state().with_territory(
                tid,
                old(self).state().owner(tid),
                (old(self).state().armies(tid) - remove) as NumArmies,
            ),
            forall|a: TerritoryId, b: TerritoryId| final(self).borders(a, b) == old(self).borders(a, b),
    {
        let num_armies = self.get_num_armies(tid);
        let owner = self.get_owner(tid);
        proof {
            self.wf_implies_valid();
            assert(self.state().territories[tid as int].0 < self.state().num_players);
        }
        self.set_territory(tid, owner, num_armies - remove);
    }
}

/// An undirected adjacency relation over territory indices, fixed for the
/// lifetime of a game.
pub trait GameMap {
    /// Whether `a` and `b` share a border.
    spec fn adjacent(&self, a: TerritoryId, b: TerritoryId) -> bool;

    /// Borders have no direction.
    proof fn adjacent_symmetric(&self, a: TerritoryId, b: TerritoryId)
        ensures
            self.adjacent(a, b) == self.adjacent(b, a),
    ;

    /// Whether `a` and `b` share a border.
    fn are_adjacent(&self, a: TerritoryId, b: TerritoryId) -> (r: bool)
        ensures
            r == self.adjacent(a, b),
    ;

    /// The territories bordering `t`, each of them once.
    fn get_neighbors(&self, t: TerritoryId) -> (r: Vec<TerritoryId>)
        ensures
            r@.no_duplicates(),
            forall|b: TerritoryId| r@.contains(b) <==> self.adjacent(t, b),
    ;
}

} // verus!
