//! The state of a game as plain values, the rules by which it changes,
//! and what holds of every state that a game can reach.

use vstd::prelude::*;
use crate::actions::{assigned_to, assigned_total, capped, Attack, AttackTerritoryInfo, Move};
use crate::board::graph::standard_borders;
use crate::board::{lemma_owned_below, BoardState};
use crate::card_economy::{
    lemma_ids_at_below, lemma_ids_at_below_agree, lemma_moves_keep_cards, lemma_recycled_lengths,
    lemma_with_place_lengths, CardPlace, EconomyState,
};
use crate::cards::{forms_set, holds_set, lemma_five_cards_hold_a_set, set_value, taken_from, Card, Trade};
use crate::combat::{battle_losses, lemma_battle_losses_bounded};
use crate::{NumArmies, PlayerId, TerritoryId};

verus! {

/// What the engine waits for.
#[derive(Copy, Clone, PartialEq, Eq, Debug, Structural)]
pub enum Phase {
    /// The active player may trade in a set of cards.
    Trade,
    /// The active player distributes reinforcements.
    Reinforce,
    /// The active player may attack.
    Attack,
    /// The active player may move armies once.
    Fortify,
    /// The game has ended.
    Over,
}

/// What an attacker is told about one owned territory, as plain values.
pub ghost struct AttackView {
    pub armies: NumArmies,
    pub adj_enemies: Set<TerritoryId>,
}

/// The state of a game, as plain values.
pub ghost struct GameState {
    pub board: BoardState,
    pub economy: EconomyState,
    /// The active player.
    pub player: PlayerId,
    pub phase: Phase,
    /// The value of the sets traded in so far this turn.
    pub trade_bonus: nat,
    /// Whether the active player has conquered a territory this turn.
    pub conquered: bool,
    /// What the active player is told during the attack phase.
    pub attack_info: Map<TerritoryId, AttackView>,
    /// The number of rounds played to the end.
    pub rounds: nat,
    /// The number of rounds after which the game is stopped.
    pub max_rounds: nat,
}

/// The territory on which `card` places armies when `player` trades it in:
/// the one it names, if `player` owns it.
pub open spec fn bonus_target(board: BoardState, player: PlayerId, card: Card) -> Option<TerritoryId> {
    match card {
        Card::Territory(t, _) => if t < 42 && board.owner(t) == player {
            Some(t)
        } else {
            None
        },
        Card::Wild => None,
    }
}

/// The board after `player` has traded in `card`: two more armies on the
/// territory it names, if `player` owns that territory.
pub open spec fn with_card_bonus(board: BoardState, player: PlayerId, card: Card) -> BoardState {
    match card {
        Card::Territory(t, _) => if t < 42 && board.owner(t) == player {
            board.with_territory(t, player, (board.armies(t) + 2) as NumArmies)
        } else {
            board
        },
        Card::Wild => board,
    }
}

/// Whether the armies that `card` brings fit on the territory it names.
pub open spec fn card_bonus_fits(board: BoardState, player: PlayerId, card: Card) -> bool {
    match card {
        Card::Territory(t, _) => t < 42 && board.owner(t) == player ==> board.armies(t) + 2 <= NumArmies::MAX,
        Card::Wild => true,
    }
}

/// The least player index from `start` on whose player still owns a
/// territory.
pub open spec fn first_active_from(board: BoardState, start: nat) -> Option<PlayerId>
    decreases board.num_players - start,
{
    if start >= board.num_players {
        None
    } else if !board.is_defeated(start as PlayerId) {
        Some(start as PlayerId)
    } else {
        first_active_from(board, start + 1)
    }
}

/// What `player` is told at the start of the attack phase: for each owned
/// territory its armies and the enemy territories that border it.
pub open spec fn attack_info_for(board: BoardState, player: PlayerId) -> Map<TerritoryId, AttackView> {
    Map::new(
        |t: TerritoryId| t < 42 && board.owner(t) == player,
        |t: TerritoryId|
            AttackView {
                armies: board.armies(t),
                adj_enemies: Set::new(
                    |e: TerritoryId| e < 42 && standard_borders(t, e) && board.owner(e) != player,
                ),
            },
    )
}

/// What the attacker is told after the conquest of `target` from `origin`:
/// the target is no enemy of any territory any more, the armies on the
/// origin are counted afresh, and an origin left with a single army is no
/// longer listed.
pub open spec fn info_after_conquest(
    info: Map<TerritoryId, AttackView>,
    origin: TerritoryId,
    target: TerritoryId,
    left: NumArmies,
) -> Map<TerritoryId, AttackView> {
    Map::new(
        |t: TerritoryId| info.contains_key(t) && !(t == origin && left == 1),
        |t: TerritoryId|
            AttackView {
                armies: if t == origin {
                    left
                } else {
                    info[t].armies
                },
                adj_enemies: info[t].adj_enemies.remove(target),
            },
    )
}

impl GameState {
    /// What holds of every state that a game reaches.
    pub open spec fn valid(self) -> bool {
        &&& self.board.valid()
        &&& self.economy.valid()
        &&& self.board.num_players == self.economy.num_players
        &&& forall|t: TerritoryId| t < 42 ==> #[trigger] self.board.armies(t) >= 1
        &&& forall|p: PlayerId|
            p < self.board.num_players ==> self.board.cards[p as int] == (#[trigger] self.economy.hand(p)).len()
        &&& self.phase != Phase::Over ==> {
            &&& self.player < self.board.num_players
            &&& !self.board.is_defeated(self.player)
            &&& self.rounds < self.max_rounds
        }
        &&& self.phase == Phase::Trade ==> {
            &&& self.economy.hand(self.player).len() >= 3
            &&& 3 * self.trade_bonus + 10 * self.economy.hand(self.player).len() <= 2550
        }
        &&& self.trade_bonus <= 850
        &&& self.rounds <= self.max_rounds <= u32::MAX
        &&& forall|t: TerritoryId| self.attack_info.contains_key(t) ==> t < 42
    }

    /// The state in which `player` begins a turn: with the trade phase if
    /// the hand holds three cards or more, else with reinforcements.
    pub open spec fn at_turn_of(self, player: PlayerId) -> GameState {
        GameState {
            player,
            phase: if self.economy.hand(player).len() < 3 {
                Phase::Reinforce
            } else {
                Phase::Trade
            },
            trade_bonus: 0,
            conquered: false,
            ..self
        }
    }

    /// The state in which a round begins: the game is over if one player
    /// owns everything or the rounds are used up; otherwise the first
    /// player who still owns a territory begins a turn.
    pub open spec fn at_round_start(self) -> GameState {
        if self.board.is_over() || self.rounds >= self.max_rounds {
            GameState { phase: Phase::Over, ..self }
        } else {
            match first_active_from(self.board, 0) {
                Some(p) => self.at_turn_of(p),
                None => GameState { phase: Phase::Over, ..self },
            }
        }
    }

    /// The state after the active player's turn has ended: the next player
    /// in index order who still owns a territory begins a turn; after the
    /// last one a new round begins.
    pub open spec fn after_turn(self) -> GameState {
        match first_active_from(self.board, self.player as nat + 1) {
            Some(p) => self.at_turn_of(p),
            None => GameState { rounds: self.rounds + 1, ..self }.at_round_start(),
        }
    }

    /// Whether the active player must trade: with more than four cards in
    /// hand.
    pub open spec fn trade_is_mandatory(self) -> bool {
        self.economy.hand(self.player).len() > 4
    }

    /// The board after the territory bonuses of `trade`, card by card.
    pub open spec fn board_after_trade(self, trade: Trade) -> BoardState {
        with_card_bonus(
            with_card_bonus(with_card_bonus(self.board, self.player, trade.card(0)), self.player, trade.card(1)),
            self.player,
            trade.card(2),
        )
    }

    /// Whether the territory bonuses of `trade` fit on the board.
    pub open spec fn trade_fits(self, trade: Trade) -> bool {
        let first = with_card_bonus(self.board, self.player, trade.card(0));
        let second = with_card_bonus(first, self.player, trade.card(1));
        &&& card_bonus_fits(self.board, self.player, trade.card(0))
        &&& card_bonus_fits(first, self.player, trade.card(1))
        &&& card_bonus_fits(second, self.player, trade.card(2))
    }

    /// Whether `trade` may be performed: in the trade phase, on three
    /// different cards that the active player holds as claimed and that
    /// form a set, if the armies they bring fit on the board.
    pub open spec fn valid_trade(self, trade: Trade) -> bool {
        &&& self.phase == Phase::Trade
        &&& self.economy.has_these_three(self.player, trade)
        &&& trade.id(0) != trade.id(1)
        &&& trade.id(1) != trade.id(2)
        &&& trade.id(0) != trade.id(2)
        &&& forms_set(trade.card(0), trade.card(1), trade.card(2))
        &&& self.trade_fits(trade)
    }

    /// The state after `trade`: its cards are discarded, its territory
    /// bonuses placed, its value added to this turn's bonus. The trade phase
    /// goes on while three cards or more are left.
    pub open spec fn after_trade(self, trade: Trade) -> GameState {
        let economy = self.economy.after_discard(self.player, trade.id(0)).after_discard(
            self.player,
            trade.id(1),
        ).after_discard(self.player, trade.id(2));
        let left = economy.hand(self.player).len();
        GameState {
            board: self.board_after_trade(trade).with_cards(self.player, left as u8),
            economy,
            trade_bonus: self.trade_bonus + set_value(trade.card(0), trade.card(1), trade.card(2)),
            phase: if left < 3 {
                Phase::Reinforce
            } else {
                Phase::Trade
            },
            ..self
        }
    }

    /// Whether the answer to the offer of a trade is accepted: a valid
    /// trade, or none where none is due.
    pub open spec fn accepts_trade(self, proposal: Option<Trade>) -> bool {
        match proposal {
            Some(trade) => self.valid_trade(trade),
            None => self.phase == Phase::Trade && !self.trade_is_mandatory(),
        }
    }

    /// The state after an accepted answer to the offer of a trade.
    pub open spec fn after_trade_answer(self, proposal: Option<Trade>) -> GameState {
        match proposal {
            Some(trade) => self.after_trade(trade),
            None => GameState { phase: Phase::Reinforce, ..self },
        }
    }

    /// The armies that the active player has to distribute.
    pub open spec fn reinforcements_due(self) -> nat {
        self.board.territory_reinforcements(self.player) + self.trade_bonus
    }

    /// Whether `reinf` may be applied: in the reinforcement phase, if it
    /// names only territories of the active player, assigns exactly the
    /// armies due, and they fit on the board.
    pub open spec fn valid_reinforcement(self, reinf: Map<TerritoryId, NumArmies>) -> bool {
        &&& self.phase == Phase::Reinforce
        &&& assigned_total(reinf) == self.reinforcements_due()
        &&& forall|t: TerritoryId| #[trigger]
            reinf.contains_key(t) ==> t < 42 && self.board.owner(t) == self.player
        &&& forall|t: TerritoryId|
            t < 42 ==> self.board.armies(t) + #[trigger] assigned_to(reinf, t) <= NumArmies::MAX
    }

    /// The board with the armies of `reinf` added.
    pub open spec fn board_reinforced(self, reinf: Map<TerritoryId, NumArmies>) -> BoardState {
        BoardState {
            territories: Seq::new(
                42,
                |t: int|
                    (
                        self.board.territories[t].0,
                        (self.board.territories[t].1 + assigned_to(reinf, t as TerritoryId)) as NumArmies,
                    ),
            ),
            ..self.board
        }
    }

    /// The state after `reinf` has been applied: the attack phase begins.
    pub open spec fn after_reinforcement(self, reinf: Map<TerritoryId, NumArmies>) -> GameState {
        let board = self.board_reinforced(reinf);
        GameState {
            board,
            phase: Phase::Attack,
            conquered: false,
            attack_info: attack_info_for(board, self.player),
            ..self
        }
    }

    /// Whether `attack` may be carried out: in the attack phase, from a
    /// territory of the active player that keeps at least one army behind,
    /// with at least one army, on a bordering territory of another player.
    pub open spec fn valid_attack(self, attack: Attack) -> bool {
        &&& self.phase == Phase::Attack
        &&& attack.origin < 42
        &&& attack.target < 42
        &&& self.board.owner(attack.origin) == self.player
        &&& attack.amount_attacking >= 1
        &&& self.board.armies(attack.origin) - 1 >= attack.amount_attacking
        &&& standard_borders(attack.origin, attack.target)
        &&& self.board.owner(attack.target) != self.player
    }

    /// The losses of attacker and defender in `attack` for `draw`: at most
    /// three armies attack and at most two defend.
    pub open spec fn losses(self, attack: Attack, draw: nat) -> (nat, nat) {
        battle_losses(
            capped(3, attack.amount_attacking) as nat,
            capped(2, self.board.armies(attack.target)) as nat,
            draw,
        )
    }

    /// Whether `attack` conquers its target for `draw`: the defender loses
    /// every army on it.
    pub open spec fn conquers(self, attack: Attack, draw: nat) -> bool {
        self.losses(attack, draw).1 == self.board.armies(attack.target)
    }

    /// The board after the battle. Both sides take their losses. If the
    /// target is left without armies, the attacking armies that survived
    /// move in and the target changes hands.
    pub open spec fn board_after_attack(self, attack: Attack, draw: nat) -> BoardState {
        let (lost, killed) = self.losses(attack, draw);
        if self.conquers(attack, draw) {
            self.board.with_territory(
                attack.origin,
                self.player,
                (self.board.armies(attack.origin) - attack.amount_attacking) as NumArmies,
            ).with_territory(attack.target, self.player, (attack.amount_attacking - lost) as NumArmies)
        } else {
            self.board.with_territory(
                attack.origin,
                self.player,
                (self.board.armies(attack.origin) - lost) as NumArmies,
            ).with_territory(
                attack.target,
                self.board.owner(attack.target),
                (self.board.armies(attack.target) - killed) as NumArmies,
            )
        }
    }

    /// The state after the battle of `attack` for `draw`.
    pub open spec fn after_attack(self, attack: Attack, draw: nat) -> GameState {
        let board = self.board_after_attack(attack, draw);
        if self.conquers(attack, draw) {
            GameState {
                board,
                conquered: true,
                attack_info: info_after_conquest(
                    self.attack_info,
                    attack.origin,
                    attack.target,
                    board.armies(attack.origin),
                ),
                ..self
            }
        } else {
            GameState { board, ..self }
        }
    }

    /// The state after the attack phase has ended: a player who conquered a
    /// territory draws the card that `pick` selects.
    pub open spec fn after_attack_phase(self, pick: nat) -> GameState {
        if self.conquered {
            let economy = self.economy.after_draw(self.player, pick);
            GameState {
                board: self.board.with_cards(self.player, economy.hand(self.player).len() as u8),
                economy,
                phase: Phase::Fortify,
                ..self
            }
        } else {
            GameState { phase: Phase::Fortify, ..self }
        }
    }

    /// Whether the answer to the offer of an attack is accepted: a valid
    /// attack, or none.
    pub open spec fn accepts_attack(self, proposal: Option<Attack>) -> bool {
        match proposal {
            Some(attack) => self.valid_attack(attack),
            None => self.phase == Phase::Attack,
        }
    }

    /// The state after an accepted answer to the offer of an attack.
    pub open spec fn after_attack_answer(self, proposal: Option<Attack>, draw: nat, pick: nat) -> GameState {
        match proposal {
            Some(attack) => self.after_attack(attack, draw),
            None => self.after_attack_phase(pick),
        }
    }

    /// Whether `movement` may be carried out: in the fortify phase, between
    /// two territories of the active player, if at least one army stays
    /// behind and the armies fit at the destination.
    pub open spec fn valid_move(self, movement: Move) -> bool {
        &&& self.phase == Phase::Fortify
        &&& movement.origin < 42
        &&& movement.destination < 42
        &&& self.board.owner(movement.origin) == self.player
        &&& self.board.owner(movement.destination) == self.player
        &&& movement.amount < self.board.armies(movement.origin)
        &&& (movement.origin != movement.destination ==> self.board.armies(movement.destination)
            + movement.amount <= NumArmies::MAX)
    }

    /// The board after `movement`.
    pub open spec fn board_after_move(self, movement: Move) -> BoardState {
        let taken = self.board.with_territory(
            movement.origin,
            self.player,
            (self.board.armies(movement.origin) - movement.amount) as NumArmies,
        );
        taken.with_territory(
            movement.destination,
            self.player,
            (taken.armies(movement.destination) + movement.amount) as NumArmies,
        )
    }

    /// The state after `movement`, before the turn ends.
    pub open spec fn after_move(self, movement: Move) -> GameState {
        GameState { board: self.board_after_move(movement), ..self }
    }

    /// Whether the answer to the offer of a move is accepted: a valid move,
    /// or none.
    pub open spec fn accepts_move(self, proposal: Option<Move>) -> bool {
        match proposal {
            Some(movement) => self.valid_move(movement),
            None => self.phase == Phase::Fortify,
        }
    }

    /// The state after an accepted answer to the offer of a move: the move
    /// is carried out, if there is one, and the turn ends.
    pub open spec fn after_move_answer(self, proposal: Option<Move>) -> GameState {
        match proposal {
            Some(movement) => self.after_move(movement).after_turn(),
            None => self.after_turn(),
        }
    }
}

/// `first_active_from` finds a player who owns a territory, and every
/// player it passed over owns none; it finds nobody only if nobody is left.
pub proof fn lemma_first_active_from(board: BoardState, start: nat)
    requires
        board.num_players <= 256,
    ensures
        match first_active_from(board, start) {
            Some(p) => {
                &&& start <= p < board.num_players
                &&& !board.is_defeated(p)
                &&& forall|q: PlayerId| start <= q < p ==> board.is_defeated(q)
            },
            None => forall|q: PlayerId| start <= q < board.num_players ==> board.is_defeated(q),
        },
    decreases board.num_players - start,
{
    if start < board.num_players && board.is_defeated(start as PlayerId) {
        lemma_first_active_from(board, start + 1);
    }
}

/// On a valid board somebody owns a territory.
pub proof fn lemma_somebody_active(board: BoardState)
    requires
        board.valid(),
        board.num_players <= 256,
    ensures
        first_active_from(board, 0) is Some,
{
    lemma_first_active_from(board, 0);
    let p = board.owner(0);
    assert(board.territories[0].0 < board.num_players);
    assert(!board.is_defeated(p));
}

/// A player's base reinforcements never exceed thirty-eight armies.
pub proof fn lemma_reinforcements_bounded(board: BoardState, player: PlayerId)
    ensures
        3 <= board.territory_reinforcements(player) <= 38,
{
    lemma_owned_below(board, player, 42);
}

/// The views of what an attacker is told, by territory.
pub open spec fn info_view(info: Map<TerritoryId, AttackTerritoryInfo>) -> Map<TerritoryId, AttackView> {
    Map::new(
        |t: TerritoryId| info.contains_key(t),
        |t: TerritoryId| AttackView { armies: info[t].armies, adj_enemies: info[t].adj_enemies@ },
    )
}

/// The state in which a game over `board` and `economy` begins.
pub open spec fn initial_state(board: BoardState, economy: EconomyState, max_rounds: nat) -> GameState {
    GameState {
        board,
        economy,
        player: 0,
        phase: Phase::Over,
        trade_bonus: 0,
        conquered: false,
        attack_info: Map::empty(),
        rounds: 0,
        max_rounds,
    }.at_round_start()
}

/// Whether a game can begin over `board` and `economy`: they are made for
/// the same players, every territory holds an army, and the board counts
/// the cards of each hand.
pub open spec fn can_begin(board: BoardState, economy: EconomyState) -> bool {
    &&& board.num_players == economy.num_players
    &&& forall|t: TerritoryId| t < 42 ==> #[trigger] board.armies(t) >= 1
    &&& forall|p: PlayerId| p < board.num_players ==> board.cards[p as int] == (#[trigger] economy.hand(p)).len()
}

/// Beginning a turn or a round, and ending a turn, lead from a state the
/// game can reach to another.
pub proof fn lemma_turns_keep_valid(state: GameState, player: PlayerId)
    requires
        state.valid(),
    ensures
        player < state.board.num_players && !state.board.is_defeated(player) && state.rounds < state.max_rounds
            ==> state.at_turn_of(player).valid(),
        state.at_round_start().valid(),
        state.phase != Phase::Over ==> state.after_turn().valid(),
{
    lemma_ids_at_below(state.economy,
        CardPlace::Held(player),
        state.economy.places.len(),
    );
    lemma_first_active_from(state.board, 0);
    lemma_somebody_active(state.board);
    match first_active_from(state.board, 0) {
        Some(p) => {
            lemma_ids_at_below(state.economy,
                CardPlace::Held(p),
                state.economy.places.len(),
            );
        },
        None => {},
    }
    if state.phase != Phase::Over {
        lemma_first_active_from(state.board, state.player as nat + 1);
        match first_active_from(state.board, state.player as nat + 1) {
            Some(p) => {
                lemma_ids_at_below(state.economy,
                    CardPlace::Held(p),
                    state.economy.places.len(),
                );
            },
            None => {},
        }
    }
}

/// A trade of three cards in different places of a player's hand claims
/// three different cards that the player holds.
pub proof fn lemma_trade_from_hand_is_held(economy: EconomyState, player: PlayerId, trade: Trade)
    requires
        economy.valid(),
        taken_from(trade, economy.hand_cards(player)),
    ensures
        economy.has_these_three(player, trade),
        trade.id(0) != trade.id(1),
        trade.id(1) != trade.id(2),
        trade.id(0) != trade.id(2),
{
    let hand = economy.hand(player);
    let cards = economy.hand_cards(player);
    lemma_ids_at_below(economy, CardPlace::Held(player), economy.places.len());
    let (a, b, c) = choose|a: int, b: int, c: int|
        0 <= a < cards.len() && 0 <= b < cards.len() && 0 <= c < cards.len() && a != b && b != c && a != c
            && trade.cards@ == seq![#[trigger] cards[a], #[trigger] cards[b], #[trigger] cards[c]];
    assert(trade.cards@[0] == cards[a] && trade.cards@[1] == cards[b] && trade.cards@[2] == cards[c]);
    assert(hand.contains(hand[a]) && hand.contains(hand[b]) && hand.contains(hand[c]));
    assert(a < b ==> hand[a] < hand[b]);
    assert(b < a ==> hand[b] < hand[a]);
    assert(b < c ==> hand[b] < hand[c]);
    assert(c < b ==> hand[c] < hand[b]);
    assert(a < c ==> hand[a] < hand[c]);
    assert(c < a ==> hand[c] < hand[a]);
}

/// In the trade phase, a set of three cards in different places of the
/// active player's hand is a valid trade if the armies it brings fit on the
/// board; and whenever a trade is due, the hand holds a set.
pub proof fn lemma_set_from_hand_is_valid(state: GameState, trade: Trade)
    requires
        state.valid(),
        state.phase == Phase::Trade,
    ensures
        taken_from(trade, state.economy.hand_cards(state.player)) && forms_set(
            trade.card(0),
            trade.card(1),
            trade.card(2),
        ) && state.trade_fits(trade) ==> state.valid_trade(trade),
        state.trade_is_mandatory() ==> holds_set(state.economy.hand_cards(state.player)),
{
    if taken_from(trade, state.economy.hand_cards(state.player)) {
        lemma_trade_from_hand_is_held(state.economy, state.player, trade);
    }
    if state.trade_is_mandatory() {
        lemma_five_cards_hold_a_set(state.economy.hand_cards(state.player));
    }
}

/// Trading in a card changes no owner and removes no army.
pub proof fn lemma_card_bonus(board: BoardState, player: PlayerId, card: Card)
    requires
        board.valid(),
        card_bonus_fits(board, player, card),
    ensures
        with_card_bonus(board, player, card).valid(),
        with_card_bonus(board, player, card).num_players == board.num_players,
        with_card_bonus(board, player, card).cards == board.cards,
        forall|t: TerritoryId|
            t < 42 ==> (#[trigger] with_card_bonus(board, player, card).owner(t)) == board.owner(t),
        forall|t: TerritoryId|
            t < 42 ==> (#[trigger] with_card_bonus(board, player, card).armies(t)) >= board.armies(t),
        forall|t: TerritoryId|
            t < 42 ==> (#[trigger] with_card_bonus(board, player, card).armies(t)) == board.armies(t) + (
            if bonus_target(board, player, card) == Some(t) {
                2int
            } else {
                0
            }),
{
    let after = with_card_bonus(board, player, card);
    match bonus_target(board, player, card) {
        Some(b) => {
            assert(board.territories[b as int].0 < board.num_players);
            assert forall|t: int| 0 <= t < 42 implies (#[trigger] after.territories[t]).0 < after.num_players by {
                if t != b {
                    assert(after.territories[t] == board.territories[t]);
                }
            }
        },
        None => {},
    }
}

/// A valid trade leads from a state the game can reach to another, and
/// takes three cards from the hand of the active player and from no other.
pub proof fn lemma_trade_keeps_valid(state: GameState, trade: Trade)
    requires
        state.valid(),
        state.valid_trade(trade),
    ensures
        state.after_trade(trade).valid(),
        state.after_trade(trade).economy.hand(state.player).len() + 3 == state.economy.hand(state.player).len(),
        forall|q: PlayerId|
            q != state.player ==> (#[trigger] state.after_trade(trade).economy.hand(q)) == state.economy.hand(q),
{
    let p = state.player;
    let e0 = state.economy;
    let n = e0.places.len();
    let (id0, id1, id2) = (trade.id(0), trade.id(1), trade.id(2));
    let e1 = e0.after_discard(p, id0);
    let e2 = e1.after_discard(p, id1);
    let e3 = e2.after_discard(p, id2);
    assert(e0.holds_claimed(p, trade, 0) && e0.holds_claimed(p, trade, 1) && e0.holds_claimed(p, trade, 2));
    assert(e1 == e0.with_place(id0, CardPlace::Discarded));
    assert(e2 == e1.with_place(id1, CardPlace::Discarded));
    assert(e3 == e2.with_place(id2, CardPlace::Discarded));
    assert(e3.valid());
    assert forall|q: PlayerId| true implies (#[trigger] e3.hand(q)).len() == e0.hand(q).len() - (if q == p {
        3int
    } else {
        0
    }) by {
        lemma_with_place_lengths(e0, id0, CardPlace::Discarded, CardPlace::Held(q), n);
        lemma_with_place_lengths(e1, id1, CardPlace::Discarded, CardPlace::Held(q), n);
        lemma_with_place_lengths(e2, id2, CardPlace::Discarded, CardPlace::Held(q), n);
    }
    assert forall|q: PlayerId| q != p implies (#[trigger] e3.hand(q)) == e0.hand(q) by {
        lemma_ids_at_below_agree(e3, e0, CardPlace::Held(q), n);
    }
    let b0 = state.board;
    let b1 = with_card_bonus(b0, p, trade.card(0));
    let b2 = with_card_bonus(b1, p, trade.card(1));
    let b3 = with_card_bonus(b2, p, trade.card(2));
    lemma_card_bonus(b0, p, trade.card(0));
    lemma_card_bonus(b1, p, trade.card(1));
    lemma_card_bonus(b2, p, trade.card(2));
    let after = state.after_trade(trade);
    lemma_ids_at_below(e0, CardPlace::Held(p), n);
    assert(after.board.territories == b3.territories);
    assert forall|t: TerritoryId| t < 42 implies #[trigger] after.board.armies(t) >= 1 by {
        assert(b3.armies(t) >= b2.armies(t) >= b1.armies(t) >= b0.armies(t) >= 1);
    }
    assert forall|t: TerritoryId| t < 42 implies #[trigger] after.board.owner(t) == b0.owner(t) by {
        assert(b3.owner(t) == b2.owner(t) && b2.owner(t) == b1.owner(t) && b1.owner(t) == b0.owner(t));
    }
    assert(!after.board.is_defeated(p)) by {
        let t = choose|t: TerritoryId| t < 42 && #[trigger] b0.owner(t) == p;
        assert(after.board.owner(t) == p);
    }
    assert forall|q: PlayerId| q < after.board.num_players implies after.board.cards[q as int] == (
    #[trigger] after.economy.hand(q)).len() by {
        assert(e3.hand(q).len() == e0.hand(q).len() - (if q == p {
            3int
        } else {
            0
        }));
    }
    assert(after.board.valid()) by {
        assert forall|t: int| 0 <= t < 42 implies (#[trigger] after.board.territories[t]).0
            < after.board.num_players by {
            assert(b3.territories[t].0 < b3.num_players);
        }
    }
}

/// In the reinforcement phase, a distribution of exactly the armies due
/// over territories that the board lists for the active player is valid if
/// the armies fit on the board.
pub proof fn lemma_distribution_over_owned_is_valid(state: GameState, reinf: Map<TerritoryId, NumArmies>)
    requires
        state.valid(),
        state.phase == Phase::Reinforce,
        assigned_total(reinf) == state.reinforcements_due(),
        forall|t: TerritoryId| #[trigger]
            reinf.contains_key(t) ==> state.board.owned_territories(state.player).contains(t),
        forall|t: TerritoryId|
            t < 42 ==> state.board.armies(t) + #[trigger] assigned_to(reinf, t) <= NumArmies::MAX,
    ensures
        state.valid_reinforcement(reinf),
{
    lemma_owned_below(state.board, state.player, 42);
}

/// A valid distribution of reinforcements leads from a state the game can
/// reach to another.
pub proof fn lemma_reinforcement_keeps_valid(state: GameState, reinf: Map<TerritoryId, NumArmies>)
    requires
        state.valid(),
        state.valid_reinforcement(reinf),
    ensures
        state.after_reinforcement(reinf).valid(),
{
    let after = state.after_reinforcement(reinf);
    assert forall|t: int| 0 <= t < 42 implies (#[trigger] after.board.territories[t]).0
        < after.board.num_players by {
        assert(state.board.territories[t].0 < state.board.num_players);
    }
    assert forall|t: TerritoryId| t < 42 implies #[trigger] after.board.armies(t) >= 1 by {
        assert(state.board.armies(t) >= 1);
        assert(state.board.armies(t) + assigned_to(reinf, t) <= NumArmies::MAX);
    }
    assert(!after.board.is_defeated(state.player)) by {
        let t = choose|t: TerritoryId| t < 42 && #[trigger] state.board.owner(t) == state.player;
        assert(after.board.owner(t) == state.player);
    }
}

/// A valid attack leads from a state the game can reach to another. An
/// attack that conquers its target costs the attacker no army: all the
/// attacking armies move in, the target changes hands, and the origin keeps
/// the armies that did not attack, at least one.
pub proof fn lemma_attack_keeps_valid(state: GameState, attack: Attack, draw: nat)
    requires
        state.valid(),
        state.valid_attack(attack),
    ensures
        state.after_attack(attack, draw).valid(),
        state.losses(attack, draw).0 <= attack.amount_attacking,
        state.losses(attack, draw).1 <= state.board.armies(attack.target),
        state.conquers(attack, draw) ==> {
            &&& state.losses(attack, draw).0 == 0
            &&& state.after_attack(attack, draw).conquered
            &&& state.after_attack(attack, draw).board.owner(attack.target) == state.player
            &&& state.after_attack(attack, draw).board.armies(attack.target) == attack.amount_attacking
                - state.losses(attack, draw).0
            &&& state.after_attack(attack, draw).board.armies(attack.origin) == state.board.armies(attack.origin)
                - attack.amount_attacking
            &&& state.after_attack(attack, draw).board.armies(attack.origin) >= 1
        },
        !state.conquers(attack, draw) ==> {
            &&& state.after_attack(attack, draw).board.owner(attack.target) == state.board.owner(attack.target)
            &&& state.after_attack(attack, draw).board.armies(attack.target) == state.board.armies(attack.target)
                - state.losses(attack, draw).1
            &&& state.after_attack(attack, draw).board.armies(attack.origin) == state.board.armies(attack.origin)
                - state.losses(attack, draw).0
        },
{
    let after = state.after_attack(attack, draw);
    let attacking = capped(3, attack.amount_attacking) as nat;
    assert(state.board.armies(attack.target) >= 1);
    let defending = capped(2, state.board.armies(attack.target)) as nat;
    lemma_battle_losses_bounded(attacking, defending, draw);
    assert(state.board.territories[attack.target as int].0 < state.board.num_players);
    assert(attack.origin != attack.target);
    assert forall|t: int| 0 <= t < 42 implies (#[trigger] after.board.territories[t]).0
        < after.board.num_players by {
        assert(state.board.territories[t].0 < state.board.num_players);
    }
    assert forall|t: TerritoryId| t < 42 implies #[trigger] after.board.armies(t) >= 1 by {
        assert(state.board.armies(t) >= 1);
    }
    assert(!after.board.is_defeated(state.player)) by {
        assert(after.board.owner(attack.origin) == state.player);
    }
}

/// The conquest of the last territory that the active player did not own
/// leaves one player owning everything and the former owner of that
/// territory defeated.
pub proof fn lemma_last_conquest_wins(state: GameState, attack: Attack, draw: nat)
    requires
        state.valid(),
        state.valid_attack(attack),
        state.conquers(attack, draw),
        forall|t: TerritoryId| t < 42 && t != attack.target ==> #[trigger] state.board.owner(t) == state.player,
    ensures
        state.after_attack(attack, draw).board.is_over(),
        state.after_attack(attack, draw).board.is_defeated(state.board.owner(attack.target)),
{
    let after = state.after_attack(attack, draw);
    assert forall|t: TerritoryId| t < 42 implies #[trigger] after.board.owner(t) == state.player by {
        if t != attack.target {
            assert(state.board.owner(t) == state.player);
        }
    }
}

/// Once one player owns everything, the end of the turn ends the game.
pub proof fn lemma_turn_end_after_win(state: GameState)
    requires
        state.valid(),
        state.phase != Phase::Over,
        state.board.is_over(),
    ensures
        state.after_turn().phase == Phase::Over,
        state.after_turn().board == state.board,
{
    lemma_first_active_from(state.board, state.player as nat + 1);
    let t = choose|t: TerritoryId| t < 42 && #[trigger] state.board.owner(t) == state.player;
    assert(state.board.owner(t) == state.board.owner(0));
    match first_active_from(state.board, state.player as nat + 1) {
        Some(q) => {
            let u = choose|u: TerritoryId| u < 42 && #[trigger] state.board.owner(u) == q;
            assert(state.board.owner(u) == state.board.owner(0));
        },
        None => {},
    }
}

/// The end of the attack phase leads from a state the game can reach to
/// another.
pub proof fn lemma_attack_phase_end_keeps_valid(state: GameState, pick: nat)
    requires
        state.valid(),
        state.phase == Phase::Attack,
    ensures
        state.after_attack_phase(pick).valid(),
{
    let after = state.after_attack_phase(pick);
    if state.conquered {
        let p = state.player;
        let e0 = state.economy;
        let n = e0.places.len();
        let ready = e0.ready_to_draw();
        lemma_moves_keep_cards(e0, p, 0, pick);
        assert forall|q: PlayerId| true implies (#[trigger] ready.hand(q)) == e0.hand(q) by {
            lemma_recycled_lengths(e0, CardPlace::Held(q), n);
        }
        lemma_ids_at_below(after.economy, CardPlace::Held(p), n);
        if ready.available().len() > 0 {
            let id = ready.picked(pick);
            lemma_ids_at_below(ready, CardPlace::Available, n);
            assert(ready.available().contains(ready.available()[(pick % ready.available().len()) as int]));
            assert forall|q: PlayerId| q != p implies (#[trigger] after.economy.hand(q)) == e0.hand(q) by {
                lemma_ids_at_below_agree(after.economy, ready, CardPlace::Held(q), n);
                assert(ready.hand(q) == e0.hand(q));
            }
        } else {
            assert forall|q: PlayerId| q != p implies (#[trigger] after.economy.hand(q)) == e0.hand(q) by {
                assert(ready.hand(q) == e0.hand(q));
            }
        }
        assert forall|t: TerritoryId| t < 42 implies #[trigger] after.board.armies(t) >= 1 by {
            assert(state.board.armies(t) >= 1);
        }
        assert(!after.board.is_defeated(p)) by {
            let t = choose|t: TerritoryId| t < 42 && #[trigger] state.board.owner(t) == p;
            assert(after.board.owner(t) == p);
        }
    }
}

/// A valid move leads from a state the game can reach to another, and so
/// does the end of the turn that follows.
pub proof fn lemma_move_keeps_valid(state: GameState, movement: Move)
    requires
        state.valid(),
        state.valid_move(movement),
    ensures
        state.after_move(movement).valid(),
        state.after_move(movement).after_turn().valid(),
{
    let moved = state.after_move(movement);
    assert forall|t: int| 0 <= t < 42 implies (#[trigger] moved.board.territories[t]).0
        < moved.board.num_players by {
        assert(state.board.territories[t].0 < state.board.num_players);
    }
    assert forall|t: TerritoryId| t < 42 implies #[trigger] moved.board.armies(t) >= 1 by {
        assert(state.board.armies(t) >= 1);
    }
    assert(!moved.board.is_defeated(state.player)) by {
        assert(moved.board.owner(movement.origin) == state.player);
    }
    lemma_turns_keep_valid(moved, 0);
}

} // verus!
