//! A player who decides by chance.

use std::collections::{HashMap, HashSet};
use vstd::prelude::*;
use vstd::std_specs::hash::group_hash_axioms;
use crate::actions::{
    assigned_to, assigned_total, attacking_allowed, capped, lemma_assigned_below_empty, lemma_assigned_below_insert,
    Attack, AttackTerritoryInfo, Move, Reinforcement,
};
use crate::board::graph::standard_borders;
use crate::board::{BoardState, GameBoard, GameMap, StandardGameBoard};
use crate::cards::{
    forms_set, holds_set, lemma_five_cards_hold_a_set, lemma_forms_set_any_order, taken_from, Trade,
};
use crate::combat::DRAW_SCALE;
use crate::picks::{cyclic_pick, pick_from};
use crate::player::Player;
use crate::random::{random_in_range, shuffle};
use crate::{AttackTerritories, CardAndId, NumArmies, PlayerId, TerritoryId};

verus! {

broadcast use group_hash_axioms;

/// Whether the cards in places `i`, `j` and `k` of `order` form a set.
pub open spec fn picks_set(cards: Seq<CardAndId>, order: Seq<usize>, i: int, j: int, k: int) -> bool {
    forms_set(cards[order[i] as int].0, cards[order[j] as int].0, cards[order[k] as int].0)
}

/// Whether the triple of places `a` is tried before the triple `b`.
pub open spec fn tried_before(a: (int, int, int), b: (int, int, int)) -> bool {
    a.0 < b.0 || (a.0 == b.0 && (a.1 < b.1 || (a.1 == b.1 && a.2 < b.2)))
}

/// Whether `found` is the first set among the cards of a hand when the
/// triples of places of `order` are tried one after the other, the first
/// place rising slowest and the third fastest; nothing if no triple is a set.
pub open spec fn first_set_found(cards: Seq<CardAndId>, order: Seq<usize>, found: Option<Trade>) -> bool {
    match found {
        Some(trade) => exists|i: int, j: int, k: int|
            {
                &&& 0 <= i < j < k < order.len()
                &&& #[trigger] picks_set(cards, order, i, j, k)
                &&& trade.cards@ == seq![cards[order[i] as int], cards[order[j] as int], cards[order[k] as int]]
                &&& forall|a: int, b: int, c: int|
                    0 <= a < b < c < order.len() && tried_before((a, b, c), (i, j, k)) ==> !#[trigger] picks_set(
                        cards,
                        order,
                        a,
                        b,
                        c,
                    )
            },
        None => forall|i: int, j: int, k: int|
            0 <= i < j < k < order.len() ==> !#[trigger] picks_set(cards, order, i, j, k),
    }
}

/// The first set among the cards of a hand, trying the triples of places
/// of `order` one after the other: the first place rises slowest, the
/// third fastest.
pub fn first_set(cards: &[CardAndId], order: &Vec<usize>) -> (r: Option<Trade>)
    requires
        forall|i: int| 0 <= i < order.len() ==> order[i] < cards.len(),
    ensures
        first_set_found(cards@, order@, r),
{
    let n = order.len();
    if n < 3 {
        return None;
    }
    let mut i: usize = 0;
    while i < n - 2
        invariant
            n == order.len(),
            n >= 3,
            i <= n - 2,
            forall|i: int| 0 <= i < order.len() ==> order[i] < cards.len(),
            forall|a: int, b: int, c: int|
                0 <= a < b < c < n && a < i ==> !#[trigger] picks_set(cards@, order@, a, b, c),
        decreases n - i,
    {
        let mut j: usize = i + 1;
        while j < n - 1
            invariant
                n == order.len(),
                n >= 3,
                i < n - 2,
                i < j <= n - 1,
                forall|i: int| 0 <= i < order.len() ==> order[i] < cards.len(),
                forall|a: int, b: int, c: int|
                    0 <= a < b < c < n && (a < i || (a == i && b < j)) ==> !#[trigger] picks_set(
                        cards@,
                        order@,
                        a,
                        b,
                        c,
                    ),
            decreases n - j,
        {
            let mut k: usize = j + 1;
            while k < n
                invariant
                    n == order.len(),
                    i < j < k <= n,
                    forall|i: int| 0 <= i < order.len() ==> order[i] < cards.len(),
                    forall|a: int, b: int, c: int|
                        0 <= a < b < c < n && (a < i || (a == i && (b < j || (b == j && c < k))))
                            ==> !#[trigger] picks_set(cards@, order@, a, b, c),
                decreases n - k,
            {
                let possible_trade = Trade::new([cards[order[i]], cards[order[j]], cards[order[k]]]);
                if possible_trade.is_set() {
                    assert(picks_set(cards@, order@, i as int, j as int, k as int));
                    assert(possible_trade.cards@ =~= seq![
                        cards[order[i as int] as int],
                        cards[order[j as int] as int],
                        cards[order[k as int] as int],
                    ]);
                    return Some(possible_trade);
                }
                k += 1;
            }
            j += 1;
        }
        i += 1;
    }
    None
}

/// The places of a hand of `n` cards, in rising order.
fn places(n: usize) -> (r: Vec<usize>)
    ensures
        r@ == Seq::new(n as nat, |i: int| i as usize),
{
    let mut r: Vec<usize> = Vec::new();
    let mut i: usize = 0;
    while i < n
        invariant
            i <= n,
            r@ == Seq::new(i as nat, |i: int| i as usize),
        decreases n - i,
    {
        r.push(i);
        i += 1;
        assert(r@ =~= Seq::new(i as nat, |i: int| i as usize));
    }
    r
}

/// An order with the same entries as the places of a hand names each
/// place once.
proof fn lemma_shuffled_places(order: Seq<usize>, n: nat)
    requires
        order.to_multiset() == Seq::new(n, |i: int| i as usize).to_multiset(),
        n <= usize::MAX,
    ensures
        order.len() == n,
        order.no_duplicates(),
        forall|i: int| 0 <= i < order.len() ==> order[i] < n,
        forall|p: usize| p < n ==> order.contains(p),
{
    let identity = Seq::new(n, |i: int| i as usize);
    identity.to_multiset_ensures();
    order.to_multiset_ensures();
    identity.lemma_multiset_has_no_duplicates();
    order.lemma_multiset_has_no_duplicates_conv();
    assert forall|i: int| 0 <= i < order.len() implies order[i] < n by {
        assert(order.contains(order[i]));
        assert(order.to_multiset().count(order[i]) > 0);
        assert(identity.contains(order[i]));
        let k = choose|k: int| 0 <= k < identity.len() && identity[k] == order[i];
    }
    assert forall|p: usize| p < n implies order.contains(p) by {
        assert(identity[p as int] == p);
        assert(identity.contains(p));
        assert(identity.to_multiset().count(p) > 0);
    }
}

/// If no triple of places of an order that names every place picks a set,
/// the hand holds none.
proof fn lemma_no_set_in_any_order(cards: Seq<CardAndId>, order: Seq<usize>)
    requires
        order.len() == cards.len() <= usize::MAX,
        order.no_duplicates(),
        forall|p: usize| p < cards.len() ==> order.contains(p),
        forall|i: int, j: int, k: int|
            0 <= i < j < k < order.len() ==> !#[trigger] picks_set(cards, order, i, j, k),
    ensures
        !holds_set(cards),
{
    if holds_set(cards) {
        let (a, b, c) = choose|a: int, b: int, c: int|
            0 <= a < cards.len() && 0 <= b < cards.len() && 0 <= c < cards.len() && a != b && b != c && a != c
                && forms_set(#[trigger] cards[a].0, #[trigger] cards[b].0, #[trigger] cards[c].0);
        assert(order.contains(a as usize));
        assert(order.contains(b as usize));
        assert(order.contains(c as usize));
        let i = choose|i: int| 0 <= i < order.len() && order[i] == a as usize;
        let j = choose|j: int| 0 <= j < order.len() && order[j] == b as usize;
        let k = choose|k: int| 0 <= k < order.len() && order[k] == c as usize;
        lemma_forms_set_any_order(cards[a].0, cards[b].0, cards[c].0);
        if i < j && j < k {
            assert(picks_set(cards, order, i, j, k));
        } else if i < k && k < j {
            assert(picks_set(cards, order, i, k, j));
        } else if j < i && i < k {
            assert(picks_set(cards, order, j, i, k));
        } else if j < k && k < i {
            assert(picks_set(cards, order, j, k, i));
        } else if k < i && i < j {
            assert(picks_set(cards, order, k, i, j));
        } else {
            assert(picks_set(cards, order, k, j, i));
        }
    }
}

/// A player who decides by chance. Chances are counted in millionths, as
/// combat draws are.
pub struct RandomPlayer {
    /// How often the player declines a trade that is not due.
    param_nnt: u32,
    /// How often the player passes over a territory that could attack.
    param_attack: u32,
}

impl RandomPlayer {
    /// A player who declines a trade that is not due with chance
    /// `param_nnt` and passes over a territory that could attack with chance
    /// `param_attack`, both in millionths.
    pub fn new(param_nnt: u32, param_attack: u32) -> (player: RandomPlayer)
        ensures
            player.decline_chance() == param_nnt,
            player.pass_chance() == param_attack,
    {
        RandomPlayer { param_nnt: param_nnt, param_attack: param_attack }
    }

    /// The chance, in millionths, of declining a trade that is not due.
    pub closed spec fn decline_chance(&self) -> u32 {
        self.param_nnt
    }

    /// The chance, in millionths, of passing over a territory that could
    /// attack.
    pub closed spec fn pass_chance(&self) -> u32 {
        self.param_attack
    }

    /// `number` players whose two chances are drawn at random.
    pub fn make_random_players(number: usize) -> (players: Vec<RandomPlayer>)
        ensures
            players.len() == number,
            forall|i: int|
                0 <= i < number ==> (#[trigger] players[i]).decline_chance() < DRAW_SCALE && players[i].pass_chance()
                    < DRAW_SCALE,
    {
        let mut players: Vec<RandomPlayer> = Vec::new();
        let mut i: usize = 0;
        while i < number
            invariant
                i <= number,
                players.len() == i,
                forall|k: int|
                    0 <= k < i ==> (#[trigger] players[k]).decline_chance() < DRAW_SCALE && players[k].pass_chance()
                        < DRAW_SCALE,
            decreases number - i,
        {
            let player = RandomPlayer {
                param_nnt: random_in_range(0, DRAW_SCALE as usize) as u32,
                param_attack: random_in_range(0, DRAW_SCALE as usize) as u32,
            };
            players.push(player);
            i += 1;
        }
        players
    }
}

/// The territories below `n` that `mask` marks, in rising order.
pub open spec fn kept_below(mask: Seq<bool>, n: nat) -> Seq<TerritoryId>
    decreases n,
{
    if n == 0 {
        Seq::empty()
    } else {
        let rest = kept_below(mask, (n - 1) as nat);
        if mask[n - 1] {
            rest.push((n - 1) as TerritoryId)
        } else {
            rest
        }
    }
}

/// Everything `kept_below` lists is marked and below the bound; everything
/// marked and below the bound is listed; the list rises strictly.
pub proof fn lemma_kept_below(mask: Seq<bool>, n: nat)
    requires
        n <= mask.len(),
        n <= 256,
    ensures
        kept_below(mask, n).len() <= n,
        forall|t: TerritoryId| #[trigger] kept_below(mask, n).contains(t) <==> t < n && mask[t as int],
        forall|i: int, j: int|
            0 <= i < j < kept_below(mask, n).len() ==> kept_below(mask, n)[i] < kept_below(mask, n)[j],
    decreases n,
{
    if n > 0 {
        let m = (n - 1) as nat;
        let rest = kept_below(mask, m);
        lemma_kept_below(mask, m);
        let last = m as TerritoryId;
        let all = kept_below(mask, n);
        if mask[m as int] {
            assert forall|t: TerritoryId| all.contains(t) <==> (t < n && mask[t as int]) by {
                if all.contains(t) {
                    let i = choose|i: int| 0 <= i < all.len() && all[i] == t;
                    if i < rest.len() {
                        assert(rest[i] == t);
                        assert(rest.contains(t));
                    }
                }
                if t < n && mask[t as int] {
                    if t == last {
                        assert(all[rest.len() as int] == t);
                    } else {
                        assert(rest.contains(t));
                        let i = choose|i: int| 0 <= i < rest.len() && rest[i] == t;
                        assert(all[i] == t);
                    }
                }
            }
            assert forall|i: int, j: int| 0 <= i < j < all.len() implies all[i] < all[j] by {
                if j < rest.len() {
                    assert(rest[i] < rest[j]);
                } else {
                    assert(rest.contains(rest[i]));
                }
            }
        } else {
            assert forall|t: TerritoryId| all.contains(t) <==> (t < n && mask[t as int]) by {
                if t == last {
                    assert(!mask[t as int]);
                }
            }
        }
    }
}

/// The place of territory `t` in a list that names it.
fn place_of(list: &Vec<TerritoryId>, t: TerritoryId) -> (place: usize)
    requires
        list@.contains(t),
    ensures
        place < list.len(),
        list[place as int] == t,
{
    let mut i: usize = 0;
    while i < list.len()
        invariant
            i <= list.len(),
            list@.contains(t),
            forall|k: int| 0 <= k < i ==> list[k] != t,
        decreases list.len() - i,
    {
        if list[i] == t {
            return i;
        }
        i += 1;
    }
    proof {
        let k = choose|k: int| 0 <= k < list.len() && list[k] == t;
        assert(list[k] != t);
    }
    0
}

/// The first entry of a list after it has been shuffled; it is one of the
/// entries of the list.
fn first_after_shuffle(list: Vec<TerritoryId>) -> (first: TerritoryId)
    requires
        list.len() > 0,
    ensures
        list@.contains(first),
{
    let mut shuffled = list;
    shuffle(&mut shuffled);
    proof {
        list@.to_multiset_ensures();
        shuffled@.to_multiset_ensures();
        assert(shuffled@.contains(shuffled@[0]));
        assert(shuffled@.to_multiset().count(shuffled@[0]) > 0);
    }
    shuffled[0]
}

/// The armies of a distribution in which army `i` of `n` goes to the
/// territory that the pick in place `i` selects among `owned`.
pub open spec fn handed_out(owned: Seq<TerritoryId>, picks: Seq<usize>, n: nat) -> Map<TerritoryId, NumArmies>
    decreases n,
{
    if n == 0 {
        Map::empty()
    } else {
        let before = handed_out(owned, picks, (n - 1) as nat);
        let t = owned[cyclic_pick(picks, n - 1, owned.len())];
        before.insert(t, (assigned_to(before, t) + 1) as NumArmies)
    }
}

/// Hands out `amount` armies one by one: army `i` goes to the territory
/// that the pick in place `i` selects among `owned`.
pub fn distribute_with(amount: NumArmies, owned: &[TerritoryId], picks: &[usize]) -> (r: Reinforcement)
    requires
        owned.len() > 0 || amount == 0,
    ensures
        r@ == handed_out(owned@, picks@, amount as nat),
        assigned_total(r@) == amount,
        forall|t: TerritoryId| #[trigger] r@.contains_key(t) ==> owned@.contains(t) && r@[t] >= 1,
{
    let mut terr_reinf: HashMap<TerritoryId, NumArmies> = HashMap::new();
    let mut i: NumArmies = 0;
    proof {
        lemma_assigned_below_empty(256);
    }
    while i < amount
        invariant
            i <= amount,
            owned.len() > 0 || amount == 0,
            terr_reinf@ == handed_out(owned@, picks@, i as nat),
            assigned_total(terr_reinf@) == i,
            forall|t: TerritoryId| #[trigger] terr_reinf@.contains_key(t) ==> owned@.contains(t) && terr_reinf@[t] >= 1,
            forall|t: TerritoryId| #[trigger] assigned_to(terr_reinf@, t) <= i,
        decreases amount - i,
    {
        let rand_idx = pick_from(picks, i as usize, owned.len());
        let rand_terr = owned[rand_idx];
        let amt = match terr_reinf.get(&rand_terr) {
            Some(n) => *n,
            None => 0,
        };
        proof {
            assert(assigned_to(terr_reinf@, rand_terr) == amt);
            lemma_assigned_below_insert(terr_reinf@, rand_terr, (amt + 1) as NumArmies, 256);
            assert(owned@.contains(owned@[rand_idx as int]));
        }
        let ghost before = terr_reinf@;
        terr_reinf.insert(rand_terr, amt + 1);
        proof {
            assert forall|t: TerritoryId| #[trigger] assigned_to(terr_reinf@, t) <= i + 1 by {
                assert(assigned_to(before, t) <= i);
            }
        }
        i += 1;
    }
    Reinforcement::new(terr_reinf)
}

/// Which territories a set names, by territory index.
pub open spec fn enemy_mask(set: Set<TerritoryId>) -> Seq<bool> {
    Seq::new(256, |t: int| set.contains(t as TerritoryId))
}

/// The territories that a set names, in rising order.
pub open spec fn enemies_listed(set: Set<TerritoryId>) -> Seq<TerritoryId> {
    kept_below(enemy_mask(set), 256)
}

/// The members of a set of territories, in rising order.
fn members(set: &HashSet<TerritoryId>) -> (r: Vec<TerritoryId>)
    ensures
        r@ == enemies_listed(set@),
        forall|e: TerritoryId| #[trigger] r@.contains(e) <==> set@.contains(e),
{
    let mut r: Vec<TerritoryId> = Vec::new();
    let mut t: u16 = 0;
    while t < 256
        invariant
            t <= 256,
            r@ == kept_below(enemy_mask(set@), t as nat),
        decreases 256 - t,
    {
        let e = t as TerritoryId;
        if set.contains(&e) {
            r.push(e);
        }
        t += 1;
    }
    proof {
        lemma_kept_below(enemy_mask(set@), 256);
    }
    r
}

/// Whether the attacker could attack from the territory listed under `t`:
/// it holds more than one army and borders an enemy.
pub open spec fn can_attack_from(info: Map<TerritoryId, AttackTerritoryInfo>, t: TerritoryId) -> bool {
    info.contains_key(t) && info[t].armies > 1 && enemies_listed(info[t].adj_enemies@).len() > 0
}

/// The roll in place `k` of `rolls`; zero if there is none.
pub open spec fn roll_at(rolls: Seq<u32>, k: int) -> u32 {
    if 0 <= k < rolls.len() {
        rolls[k]
    } else {
        0
    }
}

/// The attack from a territory that can attack: with as many armies as may
/// attack, on the bordering enemy that `pick` selects.
pub open spec fn attack_from(info: AttackTerritoryInfo, pick: usize) -> Attack {
    let enemies = enemies_listed(info.adj_enemies@);
    Attack {
        origin: info.id,
        target: enemies[(pick as nat % enemies.len()) as int],
        amount_attacking: capped(3, (info.armies - 1) as NumArmies),
    }
}

/// The attack that a player with `pass_chance` makes, going through the
/// territories from `t` on when `seen` territories that could attack have
/// been passed over: the first territory that can attack and whose roll is
/// not below the chance attacks.
pub open spec fn attack_chosen(
    pass_chance: u32,
    info: Map<TerritoryId, AttackTerritoryInfo>,
    rolls: Seq<u32>,
    pick: usize,
    t: nat,
    seen: nat,
) -> Option<Attack>
    decreases 256 - t,
{
    if t >= 256 {
        None
    } else if can_attack_from(info, t as TerritoryId) {
        if roll_at(rolls, seen as int) >= pass_chance {
            Some(attack_from(info[t as TerritoryId], pick))
        } else {
            attack_chosen(pass_chance, info, rolls, pick, t + 1, seen + 1)
        }
    } else {
        attack_chosen(pass_chance, info, rolls, pick, t + 1, seen)
    }
}

/// Whether `player` could move armies from `a` to `b`: both are theirs,
/// they share a border, and `a` holds more than one army.
pub open spec fn can_move(board: BoardState, player: PlayerId, a: TerritoryId, b: TerritoryId) -> bool {
    &&& a < 42
    &&& b < 42
    &&& board.owner(a) == player
    &&& board.owner(b) == player
    &&& standard_borders(a, b)
    &&& board.armies(a) > 1
}

/// Which territories are `player`'s and border `t`, by territory index.
pub open spec fn neighbour_mask(board: BoardState, player: PlayerId, t: TerritoryId) -> Seq<bool> {
    Seq::new(42, |b: int| board.owner(b as TerritoryId) == player && standard_borders(t, b as TerritoryId))
}

/// The territories of `player` that border `t`, in rising order.
pub open spec fn owned_neighbours(board: BoardState, player: PlayerId, t: TerritoryId) -> Seq<TerritoryId> {
    kept_below(neighbour_mask(board, player, t), 42)
}

/// From which territories `player` could move armies, by territory index:
/// from those of their own that hold more than one army and border another
/// of their own.
pub open spec fn origin_mask(board: BoardState, player: PlayerId) -> Seq<bool> {
    Seq::new(
        42,
        |t: int|
            board.owner(t as TerritoryId) == player && board.armies(t as TerritoryId) > 1 && owned_neighbours(
                board,
                player,
                t as TerritoryId,
            ).len() > 0,
    )
}

/// The territories from which `player` could move armies, in rising order.
pub open spec fn move_origins(board: BoardState, player: PlayerId) -> Seq<TerritoryId> {
    kept_below(origin_mask(board, player), 42)
}

/// The move that three picks select: an origin among the territories from
/// which `player` could move, a destination among its neighbours of the
/// same player, and fewer armies than would leave the origin with one.
/// None where no move is possible.
pub open spec fn move_chosen(
    board: BoardState,
    player: PlayerId,
    origin_pick: usize,
    destination_pick: usize,
    amount_pick: usize,
) -> Option<Move> {
    let origins = move_origins(board, player);
    if origins.len() == 0 {
        None
    } else {
        let origin = origins[(origin_pick as nat % origins.len()) as int];
        let near = owned_neighbours(board, player, origin);
        Some(
            Move {
                origin,
                destination: near[(destination_pick as nat % near.len()) as int],
                amount: (amount_pick as nat % ((board.armies(origin) - 1) as nat)) as NumArmies,
            },
        )
    }
}

/// The territories of `player` that border `t`, in rising order.
fn owned_neighbours_of(board: &StandardGameBoard, player: PlayerId, t: TerritoryId) -> (r: Vec<TerritoryId>)
    requires
        board.wf(),
    ensures
        r@ == owned_neighbours(board@, player, t),
        forall|b: TerritoryId| #[trigger] r@.contains(b) <==> b < 42 && board@.owner(b) == player && standard_borders(t, b),
{
    proof {
        board.lemma_borders_standard();
    }
    let mut r: Vec<TerritoryId> = Vec::new();
    let mut b: TerritoryId = 0;
    while b < 42
        invariant
            board.wf(),
            b <= 42,
            forall|x: TerritoryId, y: TerritoryId| board.borders(x, y) == standard_borders(x, y),
            r@ == kept_below(neighbour_mask(board@, player, t), b as nat),
        decreases 42 - b,
    {
        if board.get_owner(b) == player && board.game_map().are_adjacent(t, b) {
            r.push(b);
        }
        b += 1;
    }
    proof {
        lemma_kept_below(neighbour_mask(board@, player, t), 42);
    }
    r
}

/// The territories from which `player` could move armies, in rising order.
fn move_origins_of(board: &StandardGameBoard, player: PlayerId) -> (r: Vec<TerritoryId>)
    requires
        board.wf(),
    ensures
        r@ == move_origins(board@, player),
        forall|t: TerritoryId| #[trigger] r@.contains(t) <==> t < 42 && origin_mask(board@, player)[t as int],
{
    let mut r: Vec<TerritoryId> = Vec::new();
    let mut t: TerritoryId = 0;
    while t < 42
        invariant
            board.wf(),
            t <= 42,
            r@ == kept_below(origin_mask(board@, player), t as nat),
        decreases 42 - t,
    {
        if board.get_owner(t) == player && board.get_num_armies(t) > 1 {
            let near = owned_neighbours_of(board, player, t);
            if near.len() > 0 {
                r.push(t);
            }
        }
        t += 1;
    }
    proof {
        lemma_kept_below(origin_mask(board@, player), 42);
    }
    r
}

impl RandomPlayer {
    /// Whether `found` is the trade of a player for whom the draws were
    /// `roll` and `order`: none, if no trade is due and the roll is below
    /// the chance of declining; else the first set found in the order given.
    pub open spec fn trade_chosen(
        &self,
        cards: Seq<CardAndId>,
        necessary: bool,
        roll: u32,
        order: Seq<usize>,
        found: Option<Trade>,
    ) -> bool {
        if !necessary && roll < self.decline_chance() {
            found is None
        } else {
            first_set_found(cards, order, found)
        }
    }

    /// The trade of a player for whom the draws have been made: none, if no
    /// trade is due and `roll` is below the chance of declining; else the
    /// first set among the cards, trying the triples of places of `order`
    /// one after the other.
    pub fn trade_with(&self, cards: &[CardAndId], necessary: bool, roll: u32, order: &Vec<usize>) -> (r: Option<
        Trade,
    >)
        requires
            forall|i: int| 0 <= i < order.len() ==> order[i] < cards.len(),
        ensures
            self.trade_chosen(cards@, necessary, roll, order@, r),
    {
        if !necessary && roll < self.param_nnt {
            None
        } else {
            first_set(cards, order)
        }
    }

    /// The attack of a player for whom the draws have been made. The
    /// territories are gone through in rising order; the territory that can
    /// attack as the `k`-th has the roll in place `k` of `rolls`, and the
    /// first whose roll is not below the chance of passing over attacks: with
    /// as many armies as may attack, on the bordering enemy that `pick`
    /// selects.
    pub fn attack_with(&self, terr_info: &AttackTerritories, rolls: &[u32], pick: usize) -> (r: Option<Attack>)
        ensures
            r == attack_chosen(self.pass_chance(), terr_info@, rolls@, pick, 0, 0),
            match r {
                Some(attack) => exists|t: TerritoryId|
                    {
                        &&& #[trigger] terr_info@.contains_key(t)
                        &&& attack.origin == terr_info@[t].id
                        &&& terr_info@[t].armies > 1
                        &&& terr_info@[t].adj_enemies@.contains(attack.target)
                        &&& attack.amount_attacking == capped(3, (terr_info@[t].armies - 1) as NumArmies)
                    },
                None => self.pass_chance() == 0 ==> forall|t: TerritoryId| !can_attack_from(terr_info@, t),
            },
    {
        let mut seen: usize = 0;
        let mut t: u16 = 0;
        while t < 256
            invariant
                t <= 256,
                seen <= t,
                attack_chosen(self.pass_chance(), terr_info@, rolls@, pick, 0, 0) == attack_chosen(
                    self.pass_chance(),
                    terr_info@,
                    rolls@,
                    pick,
                    t as nat,
                    seen as nat,
                ),
                self.pass_chance() == 0 ==> forall|k: TerritoryId| k < t ==> !can_attack_from(terr_info@, k),
            decreases 256 - t,
        {
            let territory = t as TerritoryId;
            match terr_info.get(&territory) {
                Some(info) => {
                    let adj_enemies = members(&info.adj_enemies);
                    if info.armies > 1 && adj_enemies.len() > 0 {
                        assert(can_attack_from(terr_info@, territory));
                        let roll = if seen < rolls.len() {
                            rolls[seen]
                        } else {
                            0
                        };
                        if roll >= self.param_attack {
                            let defender = adj_enemies[pick % adj_enemies.len()];
                            proof {
                                assert(adj_enemies@.contains(defender));
                            }
                            let attack = Attack::new(info.id, defender, attacking_allowed(info.armies - 1));
                            assert(attack == attack_from(terr_info@[territory], pick));
                            assert(terr_info@.contains_key(territory));
                            return Some(attack);
                        }
                        seen += 1;
                    }
                },
                None => {},
            }
            t += 1;
        }
        None
    }

    /// The move of a player for whom the draws have been made: from the
    /// territory that `origin_pick` selects among those of `player` that
    /// hold more than one army and border another of the same player, to
    /// the neighbour that `destination_pick` selects among these, as many
    /// armies as `amount_pick` selects among the numbers that leave the
    /// origin with two armies at least.
    pub fn fortify_with(
        player: PlayerId,
        board: &StandardGameBoard,
        origin_pick: usize,
        destination_pick: usize,
        amount_pick: usize,
    ) -> (r: Option<Move>)
        requires
            board.wf(),
        ensures
            r == move_chosen(board@, player, origin_pick, destination_pick, amount_pick),
            match r {
                Some(movement) => {
                    &&& can_move(board@, player, movement.origin, movement.destination)
                    &&& movement.amount < board@.armies(movement.origin) - 1
                },
                None => forall|a: TerritoryId, b: TerritoryId| !can_move(board@, player, a, b),
            },
    {
        let origins = move_origins_of(board, player);
        if origins.len() == 0 {
            proof {
                assert forall|a: TerritoryId, b: TerritoryId| !can_move(board@, player, a, b) by {
                    if can_move(board@, player, a, b) {
                        lemma_kept_below(neighbour_mask(board@, player, a), 42);
                        assert(owned_neighbours(board@, player, a).contains(b));
                        assert(origin_mask(board@, player)[a as int]);
                        assert(origins@.contains(a));
                    }
                }
            }
            return None;
        }
        let origin = origins[origin_pick % origins.len()];
        assert(origins@.contains(origin));
        let near = owned_neighbours_of(board, player, origin);
        let destination = near[destination_pick % near.len()];
        assert(near@.contains(destination));
        let movable = (board.get_num_armies(origin) - 1) as usize;
        let amount = (amount_pick % movable) as NumArmies;
        Some(Move { origin: origin, destination: destination, amount: amount })
    }
}

impl Player for RandomPlayer {
    /// Declines by chance a trade that is not due; otherwise trades in the
    /// first set found among the cards taken in an order drawn at random.
    fn make_trade(&self, cards: &[CardAndId], other_reinf: NumArmies, necessary: bool) -> (r: Option<Trade>)
        ensures
            exists|roll: u32, order: Seq<usize>| self.trade_chosen(cards@, necessary, roll, order, r),
            r matches Some(trade) ==> taken_from(trade, cards@) && forms_set(
                trade.card(0),
                trade.card(1),
                trade.card(2),
            ),
            r is None && necessary ==> !holds_set(cards@) && cards.len() < 5,
    {
        let x = random_in_range(0, DRAW_SCALE as usize) as u32;
        let mut card_idxs = places(cards.len());
        shuffle(&mut card_idxs);
        proof {
            lemma_shuffled_places(card_idxs@, cards.len() as nat);
        }
        let r = self.trade_with(cards, necessary, x, &card_idxs);
        proof {
            match &r {
                Some(trade) => {
                    let (i, j, k) = choose|i: int, j: int, k: int|
                        {
                            &&& 0 <= i < j < k < card_idxs.len()
                            &&& #[trigger] picks_set(cards@, card_idxs@, i, j, k)
                            &&& trade.cards@ == seq![
                                cards[card_idxs[i] as int],
                                cards[card_idxs[j] as int],
                                cards[card_idxs[k] as int],
                            ]
                        };
                    let a = card_idxs[i] as int;
                    let b = card_idxs[j] as int;
                    let c = card_idxs[k] as int;
                    assert(trade.cards@ == seq![cards@[a], cards@[b], cards@[c]]);
                    assert(trade.cards@[0] == cards@[a] && trade.cards@[1] == cards@[b] && trade.cards@[2]
                        == cards@[c]);
                },
                None => {
                    if necessary {
                        lemma_no_set_in_any_order(cards@, card_idxs@);
                        if cards.len() >= 5 {
                            lemma_five_cards_hold_a_set(cards@);
                        }
                    }
                },
            }
        }
        r
    }

    /// Hands out the armies one by one, each to a territory drawn at
    /// random.
    fn distrib_reinforcements(&self, amount: NumArmies, owned: &[TerritoryId]) -> (r: Reinforcement)
        ensures
            exists|picks: Seq<usize>| r@ == handed_out(owned@, picks, amount as nat),
            assigned_total(r@) == amount,
            forall|t: TerritoryId| #[trigger] r@.contains_key(t) ==> owned@.contains(t) && r@[t] >= 1,
    {
        let mut picks: Vec<usize> = Vec::new();
        let mut i: NumArmies = 0;
        while i < amount
            invariant
                i <= amount,
                owned.len() > 0 || amount == 0,
            decreases amount - i,
        {
            picks.push(random_in_range(0, owned.len()));
            i += 1;
        }
        distribute_with(amount, owned, picks.as_slice())
    }

    /// Goes through the territories in rising order and attacks from the
    /// first that could attack and is not passed over by chance: with as
    /// many armies as may attack, on a bordering enemy drawn at random.
    fn make_attack(&self, terr_info: &AttackTerritories) -> (r: Option<Attack>)
        ensures
            exists|rolls: Seq<u32>, pick: usize|
                r == attack_chosen(self.pass_chance(), terr_info@, rolls, pick, 0, 0),
            match r {
                Some(attack) => exists|t: TerritoryId|
                    {
                        &&& #[trigger] terr_info@.contains_key(t)
                        &&& attack.origin == terr_info@[t].id
                        &&& terr_info@[t].armies > 1
                        &&& terr_info@[t].adj_enemies@.contains(attack.target)
                        &&& attack.amount_attacking == capped(3, (terr_info@[t].armies - 1) as NumArmies)
                    },
                None => self.pass_chance() == 0 ==> forall|t: TerritoryId| !can_attack_from(terr_info@, t),
            },
    {
        let mut rolls: Vec<u32> = Vec::new();
        let mut pick: usize = 0;
        let mut decided = false;
        let mut t: u16 = 0;
        while t < 256 && !decided
            invariant
                t <= 256,
            decreases 256 - t,
        {
            let territory = t as TerritoryId;
            match terr_info.get(&territory) {
                Some(info) => {
                    let adj_enemies = members(&info.adj_enemies);
                    if info.armies > 1 && adj_enemies.len() > 0 {
                        let x = random_in_range(0, DRAW_SCALE as usize) as u32;
                        rolls.push(x);
                        if x >= self.param_attack {
                            let defender = first_after_shuffle(members(&info.adj_enemies));
                            pick = place_of(&adj_enemies, defender);
                            decided = true;
                        }
                    }
                },
                None => {},
            }
            t += 1;
        }
        self.attack_with(terr_info, rolls.as_slice(), pick)
    }

    /// Moves armies, if that is possible at all: from a territory drawn at
    /// random among those that hold more than one army and border another
    /// of the player's, to such a neighbour drawn at random, fewer armies
    /// than would leave the origin with one.
    fn fortify(&self, player: PlayerId, board: &StandardGameBoard) -> (r: Option<Move>)
        ensures
            exists|origin_pick: usize, destination_pick: usize, amount_pick: usize|
                r == move_chosen(board@, player, origin_pick, destination_pick, amount_pick),
            match r {
                Some(movement) => {
                    &&& can_move(board@, player, movement.origin, movement.destination)
                    &&& movement.amount < board@.armies(movement.origin) - 1
                },
                None => forall|a: TerritoryId, b: TerritoryId| !can_move(board@, player, a, b),
            },
    {
        let terrs_w_adj_owned = move_origins_of(board, player);
        if terrs_w_adj_owned.len() == 0 {
            return RandomPlayer::fortify_with(player, board, 0, 0, 0);
        }
        let origin = first_after_shuffle(move_origins_of(board, player));
        let origin_pick = place_of(&terrs_w_adj_owned, origin);
        let adj_owned = owned_neighbours_of(board, player, origin);
        let destination = first_after_shuffle(owned_neighbours_of(board, player, origin));
        let destination_pick = place_of(&adj_owned, destination);
        let rand_num_armies = random_in_range(0, (board.get_num_armies(origin) - 1) as usize);
        RandomPlayer::fortify_with(player, board, origin_pick, destination_pick, rand_num_armies)
    }
}

} // verus!
