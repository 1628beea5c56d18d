//! The turn engine: one player at a time trades, reinforces, attacks and
//! fortifies. Every proposal is held against the rules; a proposal that
//! breaks them is refused and leaves the game as it was.
//!
//! The engine asks nobody. Whoever runs a game looks at `phase`, asks the
//! active player for the decision that the phase calls for, and hands the
//! answer to the `submit_` function of that phase, again and again until
//! the phase is `Over`. A refused answer changes nothing, so the same
//! question can simply be asked once more.

use std::collections::{HashMap, HashSet};
use vstd::prelude::*;
use vstd::std_specs::hash::group_hash_axioms;
use crate::actions::{
    assigned_to, attacking_allowed, defending_allowed, Attack, AttackTerritoryInfo, Move, Reinforcement,
};
use crate::board::graph::standard_borders;
use crate::board::standard_board::{evenly_dealt, fair_shares};
use crate::board::{GameBoard, GameMap, StandardGameBoard};
use crate::card_economy::{fresh_deck, CardEconomy, CardPlace, EconomyState};
use crate::cards::{set_value, Card, Trade};
use crate::combat::{resolve, DRAW_SCALE};
use crate::game_state::{
    attack_info_for, bonus_target, can_begin, card_bonus_fits, first_active_from, info_after_conquest, info_view,
    initial_state, lemma_attack_keeps_valid, lemma_attack_phase_end_keeps_valid, lemma_card_bonus,
    lemma_first_active_from, lemma_move_keeps_valid, lemma_reinforcement_keeps_valid, lemma_reinforcements_bounded,
    lemma_trade_keeps_valid, lemma_turns_keep_valid, with_card_bonus, GameState, Phase,
};
use crate::random::random_in_range;
use crate::{AttackTerritories, CardAndId, NumArmies, PlayerId, TerritoryId};

verus! {

broadcast use group_hash_axioms;

/// Places the armies that `card` brings when `player` trades it in.
fn place_card_bonus(board: &mut StandardGameBoard, player: PlayerId, card: Card)
    requires
        old(board).wf(),
        card_bonus_fits(old(board)@, player, card),
    ensures
        final(board).wf(),
        final(board)@ == with_card_bonus(old(board)@, player, card),
{
    match card.get_territory() {
        Some(t) => {
            if t < 42 && board.get_owner(t) == player {
                board.add_armies(t, 2);
            }
        },
        None => {},
    }
}

/// Whether `t` is the territory `b`.
fn is_territory(t: Option<TerritoryId>, b: TerritoryId) -> (r: bool)
    ensures
        r == (t == Some(b)),
{
    match t {
        Some(a) => a == b,
        None => false,
    }
}

/// The enemy territories that border territory `t` of `player`.
fn adjacent_enemies(board: &StandardGameBoard, player: PlayerId, t: TerritoryId) -> (enemies: HashSet<
    TerritoryId,
>)
    requires
        board.wf(),
        t < 42,
    ensures
        enemies@ == Set::new(|e: TerritoryId| e < 42 && standard_borders(t, e) && board@.owner(e) != player),
{
    proof {
        board.lemma_borders_standard();
    }
    let neighbors = board.game_map().get_neighbors(t);
    let mut enemies: HashSet<TerritoryId> = HashSet::new();
    let mut i: usize = 0;
    while i < neighbors.len()
        invariant
            board.wf(),
            i <= neighbors.len(),
            forall|b: TerritoryId| neighbors@.contains(b) <==> standard_borders(t, b),
            forall|e: TerritoryId|
                enemies@.contains(e) <==> (exists|k: int| 0 <= k < i && neighbors[k] == e) && e < 42
                    && board@.owner(e) != player,
        decreases neighbors.len() - i,
    {
        let e = neighbors[i];
        if e < 42 && board.is_enemy_territory(player, e) {
            enemies.insert(e);
        }
        i += 1;
    }
    proof {
        assert forall|e: TerritoryId|
            enemies@.contains(e) <==> (e < 42 && standard_borders(t, e) && board@.owner(e) != player) by {
            if e < 42 && standard_borders(t, e) && board@.owner(e) != player {
                assert(neighbors@.contains(e));
                let k = choose|k: int| 0 <= k < neighbors.len() && neighbors[k] == e;
                assert(0 <= k < i && neighbors[k] == e);
            }
            if enemies@.contains(e) {
                let k = choose|k: int| 0 <= k < i && neighbors[k] == e;
                assert(neighbors@.contains(e));
            }
        }
        assert(enemies@ =~= Set::new(
            |e: TerritoryId| e < 42 && standard_borders(t, e) && board@.owner(e) != player,
        ));
    }
    enemies
}

/// What `player` is told at the start of the attack phase.
fn attack_info_of(board: &StandardGameBoard, player: PlayerId) -> (info: AttackTerritories)
    requires
        board.wf(),
    ensures
        info_view(info@) == attack_info_for(board@, player),
        forall|t: TerritoryId| info@.contains_key(t) ==> (#[trigger] info@[t]).id == t,
{
    let mut info: AttackTerritories = HashMap::new();
    let mut t: TerritoryId = 0;
    while t < 42
        invariant
            board.wf(),
            t <= 42,
            forall|k: TerritoryId| #[trigger] info@.contains_key(k) <==> k < t && board@.owner(k) == player,
            forall|k: TerritoryId|
                info@.contains_key(k) ==> {
                    &&& (#[trigger] info@[k]).id == k
                    &&& info@[k].armies == board@.armies(k)
                    &&& info@[k].adj_enemies@ == attack_info_for(board@, player)[k].adj_enemies
                },
        decreases 42 - t,
    {
        if board.get_owner(t) == player {
            let entry = AttackTerritoryInfo {
                id: t,
                armies: board.get_num_armies(t),
                adj_enemies: adjacent_enemies(board, player, t),
            };
            info.insert(t, entry);
        }
        t += 1;
    }
    assert(info_view(info@) =~= attack_info_for(board@, player));
    info
}

/// Adds the armies of a valid distribution to the board.
fn add_reinforcements(board: &mut StandardGameBoard, reinf: &Reinforcement, Ghost(state): Ghost<GameState>)
    requires
        old(board).wf(),
        old(board)@ == state.board,
        state.valid_reinforcement(reinf@),
    ensures
        final(board).wf(),
        final(board)@ == state.board_reinforced(reinf@),
{
    proof {
        board.wf_implies_valid();
    }
    let mut t: TerritoryId = 0;
    while t < 42
        invariant
            t <= 42,
            board.wf(),
            state.valid_reinforcement(reinf@),
            state.board.valid(),
            board@.num_players == state.board.num_players,
            board@.cards == state.board.cards,
            board@.territories.len() == 42,
            forall|k: int| 0 <= k < t ==> board@.territories[k] == state.board_reinforced(reinf@).territories[k],
            forall|k: int| t <= k < 42 ==> board@.territories[k] == state.board.territories[k],
        decreases 42 - t,
    {
        match reinf.get(t) {
            Some(n) => {
                assert(state.board.armies(t) + assigned_to(reinf@, t) <= NumArmies::MAX);
                board.add_armies(t, n);
            },
            None => {},
        }
        t += 1;
    }
    assert(board@.territories =~= state.board_reinforced(reinf@).territories);
}

/// Brings what the attacker is told up to date after a conquest.
fn note_conquest(info: &mut AttackTerritories, origin: TerritoryId, target: TerritoryId, left: NumArmies)
    requires
        forall|t: TerritoryId| #[trigger] old(info)@.contains_key(t) ==> t < 42,
        forall|t: TerritoryId| old(info)@.contains_key(t) ==> (#[trigger] old(info)@[t]).id == t,
    ensures
        info_view(final(info)@) == info_after_conquest(info_view(old(info)@), origin, target, left),
        forall|t: TerritoryId| #[trigger] final(info)@.contains_key(t) ==> t < 42,
        forall|t: TerritoryId| final(info)@.contains_key(t) ==> (#[trigger] final(info)@[t]).id == t,
{
    let ghost before = info@;
    let mut t: TerritoryId = 0;
    while t < 42
        invariant
            t <= 42,
            forall|k: TerritoryId| #[trigger] before.contains_key(k) ==> k < 42,
            forall|k: TerritoryId| before.contains_key(k) ==> (#[trigger] before[k]).id == k,
            forall|k: TerritoryId| #[trigger]
                info@.contains_key(k) <==> before.contains_key(k) && !(k < t && k == origin && left == 1),
            forall|k: TerritoryId| info@.contains_key(k) && k >= t ==> (#[trigger] info@[k]) == before[k],
            forall|k: TerritoryId|
                info@.contains_key(k) && k < t ==> {
                    &&& (#[trigger] info@[k]).id == k
                    &&& info@[k].armies == (if k == origin {
                        left
                    } else {
                        before[k].armies
                    })
                    &&& info@[k].adj_enemies@ == before[k].adj_enemies@.remove(target)
                },
        decreases 42 - t,
    {
        match info.remove(&t) {
            Some(entry) => {
                let mut entry = entry;
                entry.adj_enemies.remove(&target);
                if t == origin {
                    entry.armies = left;
                }
                if !(t == origin && left == 1) {
                    info.insert(t, entry);
                }
            },
            None => {},
        }
        t += 1;
    }
    assert(info_view(info@) =~= info_after_conquest(info_view(before), origin, target, left));
}

/// The turn engine of one game.
pub struct GameManager {
    board: StandardGameBoard,
    cards: CardEconomy,
    player: PlayerId,
    phase: Phase,
    trade_bonus: NumArmies,
    conquered: bool,
    attack_info: AttackTerritories,
    rounds: u32,
    max_rounds: u32,
}

impl View for GameManager {
    type V = GameState;

    closed spec fn view(&self) -> GameState {
        GameState {
            board: self.board@,
            economy: self.cards@,
            player: self.player,
            phase: self.phase,
            trade_bonus: self.trade_bonus as nat,
            conquered: self.conquered,
            attack_info: info_view(self.attack_info@),
            rounds: self.rounds as nat,
            max_rounds: self.max_rounds as nat,
        }
    }
}

impl GameManager {
    /// The engine's invariant. It holds of every engine that this module
    /// hands out, and every operation keeps it.
    pub closed spec fn wf(&self) -> bool {
        &&& self.board.wf()
        &&& self.cards.wf()
        &&& self@.valid()
        &&& forall|t: TerritoryId| self.attack_info@.contains_key(t) ==> (#[trigger] self.attack_info@[t]).id == t
    }

    /// Every state that a game reaches is valid: each territory has one
    /// owner among the players and holds at least one army, and each card
    /// has one place.
    pub proof fn lemma_reached_state_valid(&self)
        requires
            self.wf(),
        ensures
            self@.valid(),
    {
    }

    /// A new game for `num_players` players, stopped after `max_rounds`
    /// rounds at the latest: the territories are dealt at random with one
    /// army each, the standard deck is made, and the first round begins.
    pub fn new_game(num_players: PlayerId, max_rounds: u32) -> (game: GameManager)
        requires
            num_players > 0,
        ensures
            game.wf(),
            game@.board.num_players == num_players,
            evenly_dealt(game@.board.territories, num_players),
            fair_shares(game@.board.territories, num_players),
            exists|offset: nat| offset < 3 && game@.economy == fresh_deck(num_players, offset),
            game@ == initial_state(game@.board, game@.economy, max_rounds as nat),
    {
        let board = StandardGameBoard::randomly_distributed(num_players);
        let cards = CardEconomy::standard_deck(num_players);
        proof {
            assert forall|p: PlayerId| p < board@.num_players implies board@.cards[p as int] == (
            #[trigger] cards@.hand(p)).len() by {
                lemma_fresh_hand_empty(cards@, p, 44);
            }
            assert forall|t: TerritoryId| t < 42 implies #[trigger] board@.armies(t) >= 1 by {
                assert(board@.territories[t as int].1 == 1);
            }
        }
        GameManager::begin(board, cards, max_rounds)
    }

    /// A game over a given board and economy, stopped after `max_rounds`
    /// rounds at the latest; none if the two do not fit together.
    pub fn with_board(board: StandardGameBoard, cards: CardEconomy, max_rounds: u32) -> (game: Option<
        GameManager,
    >)
        requires
            board.wf(),
            cards.wf(),
        ensures
            game is Some <==> can_begin(board@, cards@),
            game matches Some(g) ==> g.wf() && g@ == initial_state(board@, cards@, max_rounds as nat),
    {
        proof {
            board.wf_implies_valid();
        }
        if board.num_players() != cards.num_players() {
            return None;
        }
        let mut t: TerritoryId = 0;
        while t < 42
            invariant
                board.wf(),
                t <= 42,
                forall|k: TerritoryId| k < t ==> #[trigger] board@.armies(k) >= 1,
            decreases 42 - t,
        {
            if board.get_num_armies(t) < 1 {
                return None;
            }
            t += 1;
        }
        let mut p: PlayerId = 0;
        while p < board.num_players()
            invariant
                board.wf(),
                cards.wf(),
                board@.valid(),
                board@.num_players == cards@.num_players,
                p <= board@.num_players,
                forall|k: PlayerId| k < p ==> board@.cards[k as int] == (#[trigger] cards@.hand(k)).len(),
            decreases board@.num_players - p,
        {
            if board.get_num_cards(p) != cards.hand_size(p) {
                return None;
            }
            p += 1;
        }
        Some(GameManager::begin(board, cards, max_rounds))
    }

    /// Begins the first round over a board and an economy that fit together.
    fn begin(board: StandardGameBoard, cards: CardEconomy, max_rounds: u32) -> (game: GameManager)
        requires
            board.wf(),
            cards.wf(),
            can_begin(board@, cards@),
        ensures
            game.wf(),
            game@ == initial_state(board@, cards@, max_rounds as nat),
    {
        let mut game = GameManager {
            board: board,
            cards: cards,
            player: 0,
            phase: Phase::Over,
            trade_bonus: 0,
            conquered: false,
            attack_info: HashMap::new(),
            rounds: 0,
            max_rounds: max_rounds,
        };
        proof {
            game.board.wf_implies_valid();
            assert(game@.attack_info =~= Map::empty());
        }
        game.begin_round();
        game
    }

    /// The first player from `start` on who still owns a territory.
    fn first_active_player_from(&self, start: u16) -> (r: Option<PlayerId>)
        requires
            self.board.wf(),
            start <= 256,
        ensures
            r == first_active_from(self.board@, start as nat),
    {
        proof {
            self.board.wf_implies_valid();
        }
        let num_players = self.board.num_players() as u16;
        let mut p: u16 = start;
        while p < num_players
            invariant
                self.board.wf(),
                num_players == self.board@.num_players,
                start <= p,
                first_active_from(self.board@, start as nat) == first_active_from(self.board@, p as nat),
            decreases num_players - p,
        {
            if !self.board.player_is_defeated(p as PlayerId) {
                return Some(p as PlayerId);
            }
            p += 1;
        }
        None
    }

    /// `player` begins a turn.
    fn begin_turn(&mut self, player: PlayerId)
        requires
            old(self).wf(),
            player < old(self)@.board.num_players,
            !old(self)@.board.is_defeated(player),
            old(self)@.rounds < old(self)@.max_rounds,
        ensures
            final(self).wf(),
            final(self)@ == old(self)@.at_turn_of(player),
    {
        proof {
            lemma_turns_keep_valid(self@, player);
        }
        self.player = player;
        self.trade_bonus = 0;
        self.conquered = false;
        self.phase = if self.cards.hand_size(player) < 3 {
            Phase::Reinforce
        } else {
            Phase::Trade
        };
    }

    /// A round begins, or the game ends.
    fn begin_round(&mut self)
        requires
            old(self).wf(),
        ensures
            final(self).wf(),
            final(self)@ == old(self)@.at_round_start(),
    {
        proof {
            lemma_turns_keep_valid(self@, 0);
            lemma_first_active_from(self@.board, 0);
        }
        if self.board.game_is_over() || self.rounds >= self.max_rounds {
            self.phase = Phase::Over;
        } else {
            match self.first_active_player_from(0) {
                Some(p) => {
                    self.begin_turn(p);
                },
                None => {
                    self.phase = Phase::Over;
                },
            }
        }
    }

    /// The turn of the active player ends.
    fn end_turn(&mut self)
        requires
            old(self).wf(),
            old(self)@.phase != Phase::Over,
        ensures
            final(self).wf(),
            final(self)@ == old(self)@.after_turn(),
    {
        proof {
            lemma_turns_keep_valid(self@, 0);
            lemma_first_active_from(self@.board, self@.player as nat + 1);
        }
        match self.first_active_player_from(self.player as u16 + 1) {
            Some(p) => {
                self.begin_turn(p);
            },
            None => {
                self.phase = Phase::Over;
                self.rounds = self.rounds + 1;
                self.begin_round();
            },
        }
    }

    /// The territory on which `card` places armies when the active player
    /// trades it in.
    fn bonus_territory(&self, card: Card) -> (r: Option<TerritoryId>)
        requires
            self.board.wf(),
        ensures
            r == bonus_target(self@.board, self@.player, card),
    {
        match card.get_territory() {
            Some(t) => if t < 42 && self.board.get_owner(t) == self.player {
                Some(t)
            } else {
                None
            },
            None => None,
        }
    }

    /// Whether the territory bonuses of `trade` fit on the board.
    fn trade_fits(&self, trade: &Trade) -> (r: bool)
        requires
            self.wf(),
        ensures
            r == self@.trade_fits(*trade),
    {
        let t0 = self.bonus_territory(trade.cards[0].0);
        let t1 = self.bonus_territory(trade.cards[1].0);
        let t2 = self.bonus_territory(trade.cards[2].0);
        proof {
            let b0 = self@.board;
            let b1 = with_card_bonus(b0, self@.player, trade.card(0));
            if card_bonus_fits(b0, self@.player, trade.card(0)) {
                lemma_card_bonus(b0, self@.player, trade.card(0));
                if card_bonus_fits(b1, self@.player, trade.card(1)) {
                    lemma_card_bonus(b1, self@.player, trade.card(1));
                }
            }
        }
        let fits0 = match t0 {
            Some(a) => self.board.get_num_armies(a) as u32 + 2 <= 0xffff,
            None => true,
        };
        if !fits0 {
            return false;
        }
        let fits1 = match t1 {
            Some(b) => {
                let before: u32 = if is_territory(t0, b) {
                    2
                } else {
                    0
                };
                self.board.get_num_armies(b) as u32 + before + 2 <= 0xffff
            },
            None => true,
        };
        if !fits1 {
            return false;
        }
        match t2 {
            Some(c) => {
                let first: u32 = if is_territory(t0, c) {
                    2
                } else {
                    0
                };
                let second: u32 = if is_territory(t1, c) {
                    2
                } else {
                    0
                };
                self.board.get_num_armies(c) as u32 + first + second + 2 <= 0xffff
            },
            None => true,
        }
    }

    /// Whether `trade` may be performed now.
    pub fn trade_is_valid(&self, trade: &Trade) -> (r: bool)
        requires
            self.wf(),
        ensures
            r == self@.valid_trade(*trade),
    {
        if self.phase != Phase::Trade {
            return false;
        }
        if !self.cards.player_has_exactly_these_three(self.player, trade) {
            return false;
        }
        let id0 = trade.cards[0].1;
        let id1 = trade.cards[1].1;
        let id2 = trade.cards[2].1;
        if id0 == id1 || id1 == id2 || id0 == id2 {
            return false;
        }
        if !trade.is_set() {
            return false;
        }
        self.trade_fits(trade)
    }

    /// Performs a valid trade: discards its cards, places the armies they
    /// bring, and returns the value of the set.
    fn perform_trade(&mut self, trade: &Trade) -> (value: NumArmies)
        requires
            old(self).wf(),
            old(self)@.valid_trade(*trade),
        ensures
            final(self).wf(),
            final(self)@ == old(self)@.after_trade(*trade),
            value == set_value(trade.card(0), trade.card(1), trade.card(2)),
    {
        proof {
            lemma_trade_keeps_valid(self@, *trade);
            let b0 = self@.board;
            let b1 = with_card_bonus(b0, self@.player, trade.card(0));
            lemma_card_bonus(b0, self@.player, trade.card(0));
            lemma_card_bonus(b1, self@.player, trade.card(1));
        }
        self.cards.discard(self.player, trade.cards[0].1);
        self.cards.discard(self.player, trade.cards[1].1);
        self.cards.discard(self.player, trade.cards[2].1);
        place_card_bonus(&mut self.board, self.player, trade.cards[0].0);
        place_card_bonus(&mut self.board, self.player, trade.cards[1].0);
        place_card_bonus(&mut self.board, self.player, trade.cards[2].0);
        let value = trade.value();
        self.trade_bonus = self.trade_bonus + value;
        let left = self.cards.hand_size(self.player);
        proof {
            self.board.wf_implies_valid();
        }
        self.board.set_num_cards(self.player, left);
        self.phase = if left < 3 {
            Phase::Reinforce
        } else {
            Phase::Trade
        };
        value
    }

    /// Answers the offer of a trade with a trade or with none. A valid
    /// trade is performed; none ends the trade phase unless a trade is due.
    /// Anything else is refused and changes nothing.
    pub fn submit_trade(&mut self, proposal: Option<Trade>) -> (accepted: bool)
        requires
            old(self).wf(),
        ensures
            final(self).wf(),
            accepted == old(self)@.accepts_trade(proposal),
            final(self)@ == (if accepted {
                old(self)@.after_trade_answer(proposal)
            } else {
                old(self)@
            }),
    {
        match proposal {
            Some(trade) => {
                if self.trade_is_valid(&trade) {
                    self.perform_trade(&trade);
                    true
                } else {
                    false
                }
            },
            None => {
                if self.phase == Phase::Trade && !self.trade_is_mandatory() {
                    self.phase = Phase::Reinforce;
                    true
                } else {
                    false
                }
            },
        }
    }

    /// Whether `reinf` may be applied now.
    pub fn reinforcement_is_valid(&self, reinf: &Reinforcement) -> (r: bool)
        requires
            self.wf(),
        ensures
            r == self@.valid_reinforcement(reinf@),
    {
        if self.phase != Phase::Reinforce {
            return false;
        }
        if reinf.total() != self.reinforcements_due() as u32 {
            return false;
        }
        let mut t: u16 = 0;
        while t < 256
            invariant
                self.wf(),
                t <= 256,
                forall|k: TerritoryId|
                    k < t && #[trigger] reinf@.contains_key(k) ==> k < 42 && self@.board.owner(k) == self@.player,
                forall|k: TerritoryId|
                    k < t && k < 42 ==> self@.board.armies(k) + #[trigger] assigned_to(reinf@, k) <= NumArmies::MAX,
            decreases 256 - t,
        {
            let territory = t as TerritoryId;
            match reinf.get(territory) {
                Some(n) => {
                    if territory >= 42 || self.board.get_owner(territory) != self.player {
                        assert(reinf@.contains_key(territory));
                        return false;
                    }
                    if self.board.get_num_armies(territory) as u32 + n as u32 > 0xffff {
                        assert(self@.board.armies(territory) + assigned_to(reinf@, territory) > NumArmies::MAX);
                        return false;
                    }
                },
                None => {},
            }
            t += 1;
        }
        true
    }

    /// Applies a valid distribution of reinforcements and opens the attack
    /// phase.
    fn apply_reinforcement(&mut self, reinf: &Reinforcement)
        requires
            old(self).wf(),
            old(self)@.valid_reinforcement(reinf@),
        ensures
            final(self).wf(),
            final(self)@ == old(self)@.after_reinforcement(reinf@),
    {
        proof {
            lemma_reinforcement_keeps_valid(self@, reinf@);
            self.board.wf_implies_valid();
        }
        let ghost before = self@;
        add_reinforcements(&mut self.board, reinf, Ghost(before));
        self.phase = Phase::Attack;
        self.conquered = false;
        self.attack_info = attack_info_of(&self.board, self.player);
    }

    /// Answers the request for reinforcements. A valid distribution is
    /// applied and the attack phase begins; anything else is refused and
    /// changes nothing.
    pub fn submit_reinforcement(&mut self, reinf: &Reinforcement) -> (accepted: bool)
        requires
            old(self).wf(),
        ensures
            final(self).wf(),
            accepted == old(self)@.valid_reinforcement(reinf@),
            final(self)@ == (if accepted {
                old(self)@.after_reinforcement(reinf@)
            } else {
                old(self)@
            }),
    {
        if self.reinforcement_is_valid(reinf) {
            self.apply_reinforcement(reinf);
            true
        } else {
            false
        }
    }

    /// Whether `attack` may be carried out now.
    pub fn attack_is_valid(&self, attack: &Attack) -> (r: bool)
        requires
            self.wf(),
        ensures
            r == self@.valid_attack(*attack),
    {
        proof {
            self.board.lemma_borders_standard();
        }
        self.phase == Phase::Attack && attack.origin < 42 && attack.target < 42 && self.board.get_owner(
            attack.origin,
        ) == self.player && attack.amount_attacking >= 1 && self.board.get_num_armies(attack.origin) - 1
            >= attack.amount_attacking && self.board.game_map().are_adjacent(attack.origin, attack.target)
            && self.board.is_enemy_territory(self.player, attack.target)
    }

    /// Carries out a valid attack for `draw`: both sides take their losses,
    /// and a target left without armies is conquered.
    fn fight(&mut self, attack: &Attack, draw: u32)
        requires
            old(self).wf(),
            old(self)@.valid_attack(*attack),
        ensures
            final(self).wf(),
            final(self)@ == old(self)@.after_attack(*attack, draw as nat),
    {
        proof {
            lemma_attack_keeps_valid(self@, *attack, draw as nat);
            self.board.wf_implies_valid();
            assert(self@.board.armies(attack.target) >= 1);
        }
        let target_armies = self.board.get_num_armies(attack.target);
        let (lost, killed) = resolve(
            attacking_allowed(attack.amount_attacking),
            defending_allowed(target_armies),
            draw,
        );
        self.board.remove_armies(attack.origin, lost);
        self.board.remove_armies(attack.target, killed);
        if self.board.get_num_armies(attack.target) == 0 {
            let moved = attack.amount_attacking - lost;
            self.board.remove_armies(attack.origin, moved);
            self.board.set_territory(attack.target, self.player, moved);
            self.conquered = true;
            let left = self.board.get_num_armies(attack.origin);
            assert forall|t: TerritoryId| #[trigger] self.attack_info@.contains_key(t) implies t < 42 by {
                assert(old(self)@.attack_info.contains_key(t));
            }
            note_conquest(&mut self.attack_info, attack.origin, attack.target, left);
        }
        assert(self@.board.territories =~= old(self)@.board_after_attack(*attack, draw as nat).territories);
    }

    /// Ends the attack phase: a player who conquered a territory draws the
    /// card that `pick` selects.
    fn end_attack_phase(&mut self, pick: usize)
        requires
            old(self).wf(),
            old(self)@.phase == Phase::Attack,
        ensures
            final(self).wf(),
            final(self)@ == old(self)@.after_attack_phase(pick as nat),
    {
        proof {
            lemma_attack_phase_end_keeps_valid(self@, pick as nat);
            self.board.wf_implies_valid();
        }
        if self.conquered {
            self.cards.draw_for(self.player, pick);
            let held = self.cards.hand_size(self.player);
            self.board.set_num_cards(self.player, held);
        }
        self.phase = Phase::Fortify;
    }

    /// Answers the offer of an attack with an attack or with none, for a
    /// given combat draw and a given pick among the drawable cards. A valid
    /// attack is fought out with `draw`; none ends the attack phase, and a
    /// player who conquered a territory draws the card that `pick` selects.
    /// Anything else is refused and changes nothing.
    pub fn submit_attack_with(&mut self, proposal: Option<Attack>, draw: u32, pick: usize) -> (accepted: bool)
        requires
            old(self).wf(),
        ensures
            final(self).wf(),
            accepted == old(self)@.accepts_attack(proposal),
            final(self)@ == (if accepted {
                old(self)@.after_attack_answer(proposal, draw as nat, pick as nat)
            } else {
                old(self)@
            }),
    {
        match proposal {
            Some(attack) => {
                if self.attack_is_valid(&attack) {
                    self.fight(&attack, draw);
                    true
                } else {
                    false
                }
            },
            None => {
                if self.phase == Phase::Attack {
                    self.end_attack_phase(pick);
                    true
                } else {
                    false
                }
            },
        }
    }

    /// Answers the offer of an attack with an attack or with none. The
    /// combat draw and the card that a conqueror draws are left to chance:
    /// every draw below `DRAW_SCALE` and every drawable card is as likely as
    /// any other.
    pub fn submit_attack(&mut self, proposal: Option<Attack>) -> (accepted: bool)
        requires
            old(self).wf(),
        ensures
            final(self).wf(),
            accepted == old(self)@.accepts_attack(proposal),
            !accepted ==> final(self)@ == old(self)@,
            accepted ==> exists|draw: nat, pick: nat|
                draw < DRAW_SCALE && final(self)@ == old(self)@.after_attack_answer(proposal, draw, pick),
    {
        let ghost before = self@;
        match proposal {
            Some(_) => {
                let draw = random_in_range(0, DRAW_SCALE as usize) as u32;
                let accepted = self.submit_attack_with(proposal, draw, 0);
                assert(accepted ==> draw < DRAW_SCALE && self@ == before.after_attack_answer(
                    proposal,
                    draw as nat,
                    0,
                ));
                accepted
            },
            None => {
                let drawable = self.cards.num_drawable();
                let pick = if drawable == 0 {
                    0
                } else {
                    random_in_range(0, drawable)
                };
                let accepted = self.submit_attack_with(proposal, 0, pick);
                assert(accepted ==> 0 < DRAW_SCALE && self@ == before.after_attack_answer(proposal, 0, pick as nat));
                accepted
            },
        }
    }

    /// Whether `movement` may be carried out now.
    pub fn move_is_valid(&self, movement: &Move) -> (r: bool)
        requires
            self.wf(),
        ensures
            r == self@.valid_move(*movement),
    {
        self.phase == Phase::Fortify && movement.origin < 42 && movement.destination < 42
            && self.board.get_owner(movement.origin) == self.player && self.board.get_owner(movement.destination)
            == self.player && movement.amount < self.board.get_num_armies(movement.origin) && (movement.origin
            == movement.destination || self.board.get_num_armies(movement.destination) as u32
            + movement.amount as u32 <= 0xffff)
    }

    /// Answers the offer of a move with a move or with none. A valid move
    /// is carried out; either way the turn ends and the next player's
    /// begins. Anything else is refused and changes nothing.
    pub fn submit_fortify(&mut self, proposal: Option<Move>) -> (accepted: bool)
        requires
            old(self).wf(),
        ensures
            final(self).wf(),
            accepted == old(self)@.accepts_move(proposal),
            final(self)@ == (if accepted {
                old(self)@.after_move_answer(proposal)
            } else {
                old(self)@
            }),
    {
        match proposal {
            Some(movement) => {
                if self.move_is_valid(&movement) {
                    proof {
                        lemma_move_keeps_valid(self@, movement);
                    }
                    self.board.remove_armies(movement.origin, movement.amount);
                    self.board.add_armies(movement.destination, movement.amount);
                    self.end_turn();
                    true
                } else {
                    false
                }
            },
            None => {
                if self.phase == Phase::Fortify {
                    self.end_turn();
                    true
                } else {
                    false
                }
            },
        }
    }

    /// The board of the game.
    pub fn board(&self) -> (r: &StandardGameBoard)
        requires
            self.wf(),
        ensures
            r.wf(),
            r@ == self@.board,
    {
        &self.board
    }

    /// The card economy of the game.
    pub fn cards(&self) -> (r: &CardEconomy)
        requires
            self.wf(),
        ensures
            r.wf(),
            r@ == self@.economy,
    {
        &self.cards
    }

    /// What the engine waits for.
    pub fn phase(&self) -> (r: Phase)
        ensures
            r == self@.phase,
    {
        self.phase
    }

    /// The player whose turn it is.
    pub fn current_player(&self) -> (r: PlayerId)
        ensures
            r == self@.player,
    {
        self.player
    }

    /// The number of rounds played to the end.
    pub fn rounds_played(&self) -> (r: u32)
        ensures
            r == self@.rounds,
    {
        self.rounds
    }

    /// What the attacker is told.
    pub fn attack_info(&self) -> (r: &AttackTerritories)
        requires
            self.wf(),
        ensures
            info_view(r@) == self@.attack_info,
            forall|t: TerritoryId| r@.contains_key(t) ==> t < 42 && (#[trigger] r@[t]).id == t,
    {
        proof {
            assert forall|t: TerritoryId| self.attack_info@.contains_key(t) implies t < 42 by {
                assert(self@.attack_info.contains_key(t));
            }
        }
        &self.attack_info
    }

    /// The value of the sets that the active player has traded in this
    /// turn.
    pub fn trade_bonus(&self) -> (r: NumArmies)
        ensures
            r == self@.trade_bonus,
    {
        self.trade_bonus
    }

    /// Whether the active player has conquered a territory this turn.
    pub fn has_conquered(&self) -> (r: bool)
        ensures
            r == self@.conquered,
    {
        self.conquered
    }

    /// The number of rounds after which the game is stopped.
    pub fn max_rounds(&self) -> (r: u32)
        ensures
            r == self@.max_rounds,
    {
        self.max_rounds
    }

    /// The hand of the active player, each card with its index.
    pub fn hand(&self) -> (r: Vec<CardAndId>)
        requires
            self.wf(),
        ensures
            r@ == self@.economy.hand_cards(self@.player),
    {
        self.cards.hand_of(self.player)
    }

    /// Whether the active player must trade.
    pub fn trade_is_mandatory(&self) -> (r: bool)
        requires
            self.wf(),
        ensures
            r == self@.trade_is_mandatory(),
    {
        self.cards.hand_size(self.player) > 4
    }

    /// The armies that the active player has to distribute: those for the
    /// territories and continents held and those for the sets traded in.
    pub fn reinforcements_due(&self) -> (r: NumArmies)
        requires
            self.wf(),
        ensures
            r == self@.reinforcements_due(),
    {
        proof {
            lemma_reinforcements_bounded(self@.board, self@.player);
        }
        self.board.get_territory_reinforcements(self.player) + self.trade_bonus
    }

    /// Whether one player owns every territory.
    pub fn game_is_over(&self) -> (r: bool)
        requires
            self.wf(),
        ensures
            r == self@.board.is_over(),
    {
        self.board.game_is_over()
    }

    /// The player who owns every territory, if there is one.
    pub fn winner(&self) -> (r: Option<PlayerId>)
        requires
            self.wf(),
        ensures
            r == (if self@.board.is_over() {
                Some(self@.board.owner(0))
            } else {
                None
            }),
    {
        if self.board.game_is_over() {
            Some(self.board.get_owner(0))
        } else {
            None
        }
    }
}

/// Nobody holds a card of a fresh deck.
proof fn lemma_fresh_hand_empty(state: EconomyState, player: PlayerId, n: nat)
    requires
        n <= state.places.len(),
        forall|i: int| 0 <= i < state.places.len() ==> state.places[i] == CardPlace::Available,
    ensures
        state.ids_at_below(CardPlace::Held(player), n).len() == 0,
    decreases n,
{
    if n > 0 {
        lemma_fresh_hand_empty(state, player, (n - 1) as nat);
    }
}

} // verus!
