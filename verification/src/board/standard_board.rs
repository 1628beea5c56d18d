//! The standard board of forty-two territories.

use vstd::prelude::*;
use vstd::arithmetic::div_mod::lemma_fundamental_div_mod_converse;
use crate::picks::{cyclic_pick, pick_from};
use crate::random::random_in_range;
use crate::board::graph::{graph_edges, is_standard_map, linked, standard_borders, standard_map, TerritoryGraph};
use crate::board::{lemma_owned_below, BoardState, Continent, GameBoard, GameMap};
use crate::{NumArmies, PlayerId, TerritoryId, NUM_TERRITORIES};

verus! {

/// Owner and army count of each territory, by territory index.
pub type GameBoardTerritories = [(PlayerId, NumArmies); NUM_TERRITORIES];

/// A standard board: forty-two territories over the standard map.
pub struct StandardGameBoard {
    num_players: u8,
    territories: GameBoardTerritories,
    num_cards: Vec<u8>,
    map: TerritoryGraph,
}

impl View for StandardGameBoard {
    type V = BoardState;

    closed spec fn view(&self) -> BoardState {
        BoardState {
            num_players: self.num_players as nat,
            territories: self.territories@,
            cards: self.num_cards@,
        }
    }
}

impl StandardGameBoard {
    /// A board for `num_players` players with the given owners and army
    /// counts; nobody holds a card yet.
    pub fn new(num_players: u8, territories: GameBoardTerritories) -> (board: StandardGameBoard)
        requires
            forall|t: int| 0 <= t < 42 ==> (#[trigger] territories[t]).0 < num_players,
        ensures
            board.wf(),
            board@.num_players == num_players,
            board@.territories == territories@,
            board@.cards == Seq::new(num_players as nat, |p: int| 0u8),
    {
        let num_cards = vec![0u8; num_players as usize];
        assert(num_cards@ =~= Seq::new(num_players as nat, |p: int| 0u8));
        StandardGameBoard { num_players: num_players, territories: territories, num_cards: num_cards, map: standard_map() }
    }
}

/// Territories dealt in rounds: within each run of `num_players` consecutive
/// territories no player owns two, and every territory holds one army.
pub open spec fn evenly_dealt(territories: Seq<(PlayerId, NumArmies)>, num_players: PlayerId) -> bool {
    &&& territories.len() == 42
    &&& forall|t: int| 0 <= t < 42 ==> (#[trigger] territories[t]).0 < num_players
    &&& forall|t: int| 0 <= t < 42 ==> (#[trigger] territories[t]).1 == 1
    &&& forall|a: int, b: int|
        0 <= a < b < 42 && a / (num_players as int) == b / (num_players as int) ==> (#[trigger] territories[a]).0
            != (#[trigger] territories[b]).0
}

/// How many of the first `n` territories belong to `player`.
pub open spec fn share(territories: Seq<(PlayerId, NumArmies)>, player: PlayerId, n: nat) -> nat
    decreases n,
{
    if n == 0 {
        0
    } else {
        share(territories, player, (n - 1) as nat) + (if territories[n - 1].0 == player {
            1nat
        } else {
            0
        })
    }
}

/// No player has more than one territory more than any other.
pub open spec fn fair_shares(territories: Seq<(PlayerId, NumArmies)>, num_players: PlayerId) -> bool {
    forall|p: PlayerId, q: PlayerId|
        p < num_players && q < num_players ==> #[trigger] share(territories, p, 42) <= #[trigger] share(
            territories,
            q,
            42,
        ) + 1
}

/// The share of a player among the first `n` territories depends on these
/// territories only.
pub proof fn lemma_share_agrees(
    a: Seq<(PlayerId, NumArmies)>,
    b: Seq<(PlayerId, NumArmies)>,
    player: PlayerId,
    n: nat,
)
    requires
        forall|t: int| 0 <= t < n ==> a[t].0 == b[t].0,
    ensures
        share(a, player, n) == share(b, player, n),
    decreases n,
{
    if n > 0 {
        lemma_share_agrees(a, b, player, (n - 1) as nat);
    }
}

/// The share of a player is the number of territories that the board lists
/// for them.
pub proof fn lemma_share_is_owned(state: BoardState, player: PlayerId, n: nat)
    ensures
        share(state.territories, player, n) == state.owned_below(player, n).len(),
    decreases n,
{
    if n > 0 {
        lemma_share_is_owned(state, player, (n - 1) as nat);
    }
}

/// The player indices below `num_players`, in rising order.
pub open spec fn all_player_ids(num_players: PlayerId) -> Seq<PlayerId> {
    Seq::new(num_players as nat, |p: int| p as PlayerId)
}

/// The players among whom the next territory is dealt: those still without a
/// territory in the round or, if there is none, all players again.
pub open spec fn round_pool(num_players: PlayerId, waiting: Seq<PlayerId>) -> Seq<PlayerId> {
    if waiting.len() == 0 {
        all_player_ids(num_players)
    } else {
        waiting
    }
}

/// The players still without a territory in the round when `t` territories
/// have been dealt by `picks`, in rising order.
pub open spec fn pool_after(num_players: PlayerId, picks: Seq<usize>, t: nat) -> Seq<PlayerId>
    decreases t,
{
    if t == 0 {
        all_player_ids(num_players)
    } else {
        let pool = round_pool(num_players, pool_after(num_players, picks, (t - 1) as nat));
        pool.remove(cyclic_pick(picks, t - 1, pool.len()))
    }
}

/// The player to whom `picks` deal territory `t`.
pub open spec fn dealt_owner(num_players: PlayerId, picks: Seq<usize>, t: nat) -> PlayerId {
    let pool = round_pool(num_players, pool_after(num_players, picks, t));
    pool[cyclic_pick(picks, t as int, pool.len())]
}

/// The territories as `picks` deal them, one army on each.
pub open spec fn dealt(num_players: PlayerId, picks: Seq<usize>) -> Seq<(PlayerId, NumArmies)> {
    Seq::new(42, |t: int| (dealt_owner(num_players, picks, t as nat), 1u16))
}

/// The player indices below `num_players`, in rising order.
fn all_players(num_players: PlayerId) -> (pool: Vec<PlayerId>)
    ensures
        pool@ == all_player_ids(num_players),
{
    let mut pool: Vec<PlayerId> = Vec::new();
    let mut p: PlayerId = 0;
    while p < num_players
        invariant
            p <= num_players,
            pool@ == Seq::new(p as nat, |p: int| p as PlayerId),
        decreases num_players - p,
    {
        pool.push(p);
        p += 1;
        assert(pool@ =~= Seq::new(p as nat, |p: int| p as PlayerId));
    }
    pool
}

impl StandardGameBoard {
    /// The number of players that the board was made for.
    pub fn num_players(&self) -> (r: PlayerId)
        ensures
            r == self@.num_players,
    {
        self.num_players
    }

    /// The borders of a standard board are those of the standard map.
    pub proof fn lemma_borders_standard(&self)
        requires
            self.wf(),
        ensures
            forall|a: TerritoryId, b: TerritoryId| self.borders(a, b) == standard_borders(a, b),
    {
    }

    /// A board whose territories are dealt to the players at random, as
    /// equally as possible, with one army on each.
    pub fn randomly_distributed(num_players: u8) -> (board: StandardGameBoard)
        requires
            num_players > 0,
        ensures
            board.wf(),
            board@.num_players == num_players,
            evenly_dealt(board@.territories, num_players),
            fair_shares(board@.territories, num_players),
            exists|picks: Seq<usize>| board@.territories == dealt(num_players, picks),
            board@.cards == Seq::new(num_players as nat, |p: int| 0u8),
    {
        StandardGameBoard::new(num_players, StandardGameBoard::distrib_terr_randomly(num_players))
    }

    /// Deals the territories in rounds, one army on each: every round hands
    /// each player one territory, and the pick in place `t` of `picks`
    /// selects, among the players still without a territory in the round,
    /// the owner of territory `t`.
    pub fn deal_with(num_players: u8, picks: &[usize]) -> (territories: GameBoardTerritories)
        requires
            num_players > 0,
        ensures
            territories@ == dealt(num_players, picks@),
            evenly_dealt(territories@, num_players),
            fair_shares(territories@, num_players),
    {
        let mut territories: GameBoardTerritories = [(0u8, 1u16);42];
        let mut player_pool = all_players(num_players);
        let ghost mut round: int = 0;
        let ghost n = num_players as int;
        let mut i: usize = 0;
        proof {
            assert forall|p: PlayerId| p < num_players implies player_pool@.contains(p) by {
                assert(player_pool@[p as int] == p);
            }
        }
        while i < NUM_TERRITORIES
            invariant
                i <= 42,
                n == num_players,
                n > 0,
                round >= 0,
                round * n <= i <= round * n + n,
                player_pool.len() == round * n + n - i,
                player_pool@ == pool_after(num_players, picks@, i as nat),
                forall|k: int| 0 <= k < player_pool.len() ==> (#[trigger] player_pool[k]) < num_players,
                forall|k: int, l: int| 0 <= k < l < player_pool.len() ==> player_pool[k] != player_pool[l],
                forall|t: int, k: int|
                    round * n <= t < i && 0 <= k < player_pool.len() ==> (#[trigger] territories[t]).0
                        != #[trigger] player_pool[k],
                forall|t: int| 0 <= t < 42 ==> (#[trigger] territories[t]).1 == 1,
                forall|t: int| 0 <= t < i ==> (#[trigger] territories[t]).0 < num_players,
                forall|t: int|
                    0 <= t < i ==> (#[trigger] territories[t]).0 == dealt_owner(num_players, picks@, t as nat),
                forall|p: PlayerId|
                    p < num_players ==> #[trigger] share(territories@, p, i as nat) == round + (if player_pool@.contains(
                        p,
                    ) {
                        0int
                    } else {
                        1
                    }),
                forall|a: int, b: int|
                    0 <= a < b < i && a / n == b / n ==> (#[trigger] territories[a]).0
                        != (#[trigger] territories[b]).0,
            decreases 42 - i,
        {
            if player_pool.len() == 0 {
                let ghost empty = player_pool@;
                player_pool = all_players(num_players);
                proof {
                    assert((round + 1) * n == round * n + n) by (nonlinear_arith);
                    assert forall|p: PlayerId| p < num_players implies #[trigger] share(territories@, p, i as nat)
                        == round + 1 && player_pool@.contains(p) by {
                        assert(!empty.contains(p));
                        assert(player_pool@[p as int] == p);
                    }
                    round = round + 1;
                }
            }
            assert(player_pool@ == round_pool(num_players, pool_after(num_players, picks@, i as nat)));
            let rand_player = pick_from(picks, i, player_pool.len());
            let player = player_pool[rand_player];
            let ghost before = territories@;
            let ghost pool_before = player_pool@;
            territories[i] = (player, 1);
            player_pool.remove(rand_player);
            proof {
                lemma_fundamental_div_mod_converse(i as int, n, round, i - round * n);
                assert forall|a: int, b: int| 0 <= a < b < i + 1 && a / n == b / n implies (#[trigger] territories[a]).0
                    != (#[trigger] territories[b]).0 by {
                    if b == i {
                        if a < round * n {
                            let q = a / n;
                            vstd::arithmetic::div_mod::lemma_fundamental_div_mod(a, n);
                            vstd::arithmetic::div_mod::lemma_mod_bound(a, n);
                            assert(q * n == n * q) by (nonlinear_arith);
                        }
                        assert(before[a].0 != pool_before[rand_player as int]);
                    } else {
                        assert(before[a].0 != before[b].0);
                    }
                }
                assert forall|t: int, k: int|
                    round * n <= t < i + 1 && 0 <= k < player_pool.len() implies (#[trigger] territories[t]).0
                    != #[trigger] player_pool[k] by {
                    let k0 = if k < rand_player { k } else { k + 1 };
                    assert(player_pool[k] == pool_before[k0]);
                    if t < i {
                        assert(before[t].0 != pool_before[k0]);
                    }
                }
                assert forall|k: int, l: int| 0 <= k < l < player_pool.len() implies player_pool[k]
                    != player_pool[l] by {
                    let k0 = if k < rand_player { k } else { k + 1 };
                    let l0 = if l < rand_player { l } else { l + 1 };
                    assert(pool_before[k0] != pool_before[l0]);
                }
                assert forall|k: int| 0 <= k < player_pool.len() implies (#[trigger] player_pool[k]) < num_players by {
                    let k0 = if k < rand_player { k } else { k + 1 };
                    assert(player_pool[k] == pool_before[k0]);
                }
                assert forall|p: PlayerId| p < num_players implies #[trigger] share(
                    territories@,
                    p,
                    (i + 1) as nat,
                ) == round + (if player_pool@.contains(p) {
                    0int
                } else {
                    1
                }) by {
                    lemma_share_agrees(territories@, before, p, i as nat);
                    assert(share(before, p, i as nat) == round + (if pool_before.contains(p) {
                        0int
                    } else {
                        1
                    }));
                    if p == player {
                        assert(pool_before.contains(p));
                        if player_pool@.contains(p) {
                            let k = choose|k: int| 0 <= k < player_pool@.len() && player_pool@[k] == p;
                            let k0 = if k < rand_player { k } else { k + 1 };
                            assert(player_pool@[k] == pool_before[k0]);
                            if k0 < rand_player {
                                assert(pool_before[k0] != pool_before[rand_player as int]);
                            } else {
                                assert(pool_before[rand_player as int] != pool_before[k0]);
                            }
                        }
                    } else {
                        if pool_before.contains(p) {
                            let k0 = choose|k0: int| 0 <= k0 < pool_before.len() && pool_before[k0] == p;
                            let k = if k0 < rand_player { k0 } else { k0 - 1 };
                            assert(player_pool@[k] == p);
                        }
                        if player_pool@.contains(p) {
                            let k = choose|k: int| 0 <= k < player_pool@.len() && player_pool@[k] == p;
                            let k0 = if k < rand_player { k } else { k + 1 };
                            assert(pool_before[k0] == p);
                        }
                    }
                }
                assert forall|t: int| 0 <= t < i + 1 implies (#[trigger] territories[t]).0 == dealt_owner(
                    num_players,
                    picks@,
                    t as nat,
                ) by {
                    if t < i {
                        assert(before[t].0 == dealt_owner(num_players, picks@, t as nat));
                    }
                }
            }
            i += 1;
        }
        assert(territories@ =~= dealt(num_players, picks@));
        assert(fair_shares(territories@, num_players));
        territories
    }

    /// Deals the territories in rounds: each round hands every player one
    /// territory, in an order drawn at random.
    fn distrib_terr_randomly(num_players: u8) -> (territories: GameBoardTerritories)
        requires
            num_players > 0,
        ensures
            evenly_dealt(territories@, num_players),
            fair_shares(territories@, num_players),
            exists|picks: Seq<usize>| territories@ == dealt(num_players, picks),
    {
        let mut picks: Vec<usize> = Vec::new();
        let mut waiting: usize = num_players as usize;
        let mut i: usize = 0;
        while i < NUM_TERRITORIES
            invariant
                i <= 42,
                num_players > 0,
                waiting <= num_players,
            decreases 42 - i,
        {
            if waiting == 0 {
                waiting = num_players as usize;
            }
            let rand_player = random_in_range(0, waiting);
            picks.push(rand_player);
            waiting -= 1;
            i += 1;
        }
        StandardGameBoard::deal_with(num_players, picks.as_slice())
    }
}

impl GameBoard for StandardGameBoard {
    type Map = TerritoryGraph;

    open spec fn state(&self) -> BoardState {
        self@
    }

    closed spec fn borders(&self, a: TerritoryId, b: TerritoryId) -> bool {
        linked(graph_edges(self.map), a, b)
    }

    closed spec fn wf(&self) -> bool {
        self@.valid() && is_standard_map(self.map)
    }

    proof fn wf_implies_valid(&self) {
    }

    fn get_owner(&self, terr: TerritoryId) -> (r: PlayerId) {
        self.territories[terr as usize].0
    }

    fn get_num_armies(&self, terr: TerritoryId) -> (r: NumArmies) {
        self.territories[terr as usize].1
    }

    fn get_num_cards(&self, player: PlayerId) -> (r: u8) {
        self.num_cards[player as usize]
    }

    fn get_num_owned_territories(&self, player: PlayerId) -> (r: u8) {
        let mut count: u8 = 0;
        let mut i: usize = 0;
        while i < NUM_TERRITORIES
            invariant
                i <= 42,
                count == self@.owned_below(player, i as nat).len(),
                count <= i,
            decreases 42 - i,
        {
            if player == self.territories[i].0 {
                count += 1;
            }
            i += 1;
        }
        count
    }

    fn get_owned_territories(&self, player: PlayerId) -> (r: Vec<TerritoryId>) {
        let mut terrs: Vec<TerritoryId> = Vec::new();
        let mut i: usize = 0;
        while i < NUM_TERRITORIES
            invariant
                i <= 42,
                terrs@ == self@.owned_below(player, i as nat),
            decreases 42 - i,
        {
            if player == self.territories[i].0 {
                terrs.push(i as TerritoryId);
            }
            i += 1;
        }
        terrs
    }

    fn get_continent_bonuses(&self, player: PlayerId) -> (r: u8) {
        let mut bonus: u8 = 0;
        let continents = [
            Continent::Australia,
            Continent::SouthAmerica,
            Continent::Africa,
            Continent::Europe,
            Continent::NorthAmerica,
            Continent::Asia,
        ];
        let mut i: usize = 0;
        while i < 6
            invariant
                i <= 6,
                self.wf(),
                continents@ == crate::board::all_continents(),
                bonus == bonus_of_first(self@, player, i as nat),
                bonus <= 7 * i,
            decreases 6 - i,
        {
            let continent = continents[i];
            if self.player_owns_continent(player, continent) {
                bonus += continent.get_bonus();
            }
            i += 1;
        }
        proof {
            reveal_with_fuel(bonus_of_first, 7);
        }
        bonus
    }

    fn player_owns_continent(&self, player: PlayerId, continent: Continent) -> (r: bool) {
        let range = continent.get_range();
        let mut i: u8 = range.start;
        while i < range.end
            invariant
                self.wf(),
                range.start <= i <= range.end <= 42,
                range.start == continent.first(),
                range.end == continent.end(),
                forall|t: TerritoryId| range.start <= t < i ==> self@.owner(t) == player,
            decreases range.end - i,
        {
            if self.get_owner(i) != player {
                return false;
            }
            i += 1;
        }
        true
    }

    fn get_territory_reinforcements(&self, player: PlayerId) -> (r: NumArmies) {
        let num_terr = self.get_num_owned_territories(player);
        let continent_bonuses = self.get_continent_bonuses(player);
        proof {
            lemma_owned_below(self@, player, 42);
        }
        let third = num_terr / 3;
        let base = if third > 3 { third } else { 3 };
        (base + continent_bonuses) as NumArmies
    }

    fn set_territory(&mut self, terr: TerritoryId, owner: PlayerId, num_armies: NumArmies) {
        self.territories[terr as usize] = (owner, num_armies);
        assert(self@.territories =~= old(self)@.territories.update(terr as int, (owner, num_armies)));
    }

    fn set_num_cards(&mut self, player: PlayerId, num_cards: u8) {
        self.num_cards[player as usize] = num_cards;
        assert(self@.cards =~= old(self)@.cards.update(player as int, num_cards));
    }

    fn game_is_over(&self) -> (r: bool) {
        let owner0 = self.get_owner(0);
        let mut i: u8 = 1;
        while i < 42
            invariant
                self.wf(),
                1 <= i <= 42,
                owner0 == self@.owner(0),
                forall|t: TerritoryId| t < i ==> self@.owner(t) == owner0,
            decreases 42 - i,
        {
            if self.get_owner(i) != owner0 {
                return false;
            }
            i += 1;
        }
        true
    }

    fn player_is_defeated(&self, player: PlayerId) -> (r: bool) {
        let mut i: usize = 0;
        while i < NUM_TERRITORIES
            invariant
                i <= 42,
                forall|t: TerritoryId| t < i ==> self@.owner(t) != player,
            decreases 42 - i,
        {
            if player == self.territories[i].0 {
                assert(self@.owner(i as TerritoryId) == player);
                return false;
            }
            i += 1;
        }
        true
    }

    fn game_map(&self) -> (r: &TerritoryGraph) {
        let map = &self.map;
        assert forall|a: TerritoryId, b: TerritoryId| map.adjacent(a, b) == self.borders(a, b) by {
            assert(map.adjacent(a, b) == linked(graph_edges(*map), a, b));
            assert(self.borders(a, b) == linked(graph_edges(self.map), a, b));
        }
        map
    }
}

/// The bonuses `player` draws from the first `n` continents.
pub open spec fn bonus_of_first(state: BoardState, player: PlayerId, n: nat) -> nat
    decreases n,
{
    if n == 0 {
        0
    } else {
        bonus_of_first(state, player, (n - 1) as nat) + state.bonus_from(
            player,
            crate::board::all_continents()[n - 1],
        )
    }
}

} // verus!
