use std::collections::{HashMap, HashSet};

use risk::card_economy::CardEconomy;
use risk::game_manager::GameManager;
use risk::game_state::Phase;
use risk::player::random_player::{distribute_with, first_set};
use risk::{
    Attack, AttackTerritoryInfo, Card, CardSymbol, GameBoard, GameMap, Player, RandomPlayer, StandardGameBoard,
    Trade,
};

fn card(t: u8, symbol: CardSymbol) -> (Card, usize) {
    (Card::Territory(t, symbol), t as usize)
}

fn info_for(entries: &[(u8, u16, &[u8])]) -> HashMap<u8, AttackTerritoryInfo> {
    let mut info = HashMap::new();
    for (id, armies, enemies) in entries.iter() {
        let adj_enemies: HashSet<u8> = enemies.iter().map(|e| *e).collect();
        info.insert(*id, AttackTerritoryInfo { id: *id, armies: *armies, adj_enemies });
    }
    info
}

fn is_set_from(trade: &Trade, hand: &[(Card, usize)]) -> bool {
    let ids = [trade.cards[0].1, trade.cards[1].1, trade.cards[2].1];
    trade.is_set()
        && ids[0] != ids[1]
        && ids[1] != ids[2]
        && ids[0] != ids[2]
        && trade.cards.iter().all(|c| hand.contains(c))
}

#[test]
fn the_first_set_in_the_order_given_is_found() {
    let hand = [
        card(0, CardSymbol::Infantry),
        card(3, CardSymbol::Infantry),
        card(1, CardSymbol::Cavalry),
        card(6, CardSymbol::Infantry),
    ];
    let trade = first_set(&hand, &vec![0, 1, 2, 3]).unwrap();
    assert_eq!(trade.cards, [hand[0], hand[1], hand[3]]);
    let trade = first_set(&hand, &vec![2, 0, 1, 3]).unwrap();
    assert_eq!(trade.cards, [hand[0], hand[1], hand[3]]);
    let trade = first_set(&hand, &vec![3, 2, 1, 0]).unwrap();
    assert_eq!(trade.cards, [hand[3], hand[1], hand[0]]);
}

#[test]
fn the_first_place_rises_slowest() {
    let hand = [
        card(0, CardSymbol::Infantry),
        card(1, CardSymbol::Cavalry),
        card(2, CardSymbol::Artillery),
        card(4, CardSymbol::Cavalry),
        card(7, CardSymbol::Cavalry),
    ];
    // Places 0, 1, 2 form a set before places 1, 3, 4 are tried.
    let trade = first_set(&hand, &vec![0, 1, 2, 3, 4]).unwrap();
    assert_eq!(trade.cards, [hand[0], hand[1], hand[2]]);
    // In this order the triples with the first place fail until the third place reaches the artillery.
    let trade = first_set(&hand, &vec![1, 3, 4, 0, 2]).unwrap();
    assert_eq!(trade.cards, [hand[1], hand[3], hand[4]]);
    let trade = first_set(&hand, &vec![1, 0, 3, 4, 2]).unwrap();
    assert_eq!(trade.cards, [hand[1], hand[0], hand[2]]);
}

#[test]
fn no_set_is_found_where_there_is_none() {
    let hand = [
        card(0, CardSymbol::Infantry),
        card(3, CardSymbol::Infantry),
        card(1, CardSymbol::Cavalry),
        card(4, CardSymbol::Cavalry),
    ];
    assert!(first_set(&hand, &vec![0, 1, 2, 3]).is_none());
    assert!(first_set(&hand, &vec![3, 1, 0, 2]).is_none());
    assert!(first_set(&hand[..2], &vec![0, 1]).is_none());
    assert!(first_set(&hand, &vec![]).is_none());
    assert!(first_set(&[], &vec![]).is_none());
}

#[test]
fn an_order_may_leave_cards_out() {
    let hand = [
        card(0, CardSymbol::Infantry),
        card(3, CardSymbol::Infantry),
        card(6, CardSymbol::Infantry),
        (Card::Wild, 42),
    ];
    assert!(first_set(&hand, &vec![0, 1]).is_none());
    let trade = first_set(&hand, &vec![3, 0, 1]).unwrap();
    assert_eq!(trade.cards, [hand[3], hand[0], hand[1]]);
}

#[test]
fn a_trade_that_is_due_is_made_if_the_hand_holds_a_set() {
    let hand = [
        card(0, CardSymbol::Infantry),
        card(1, CardSymbol::Cavalry),
        card(3, CardSymbol::Infantry),
        card(4, CardSymbol::Cavalry),
        card(7, CardSymbol::Cavalry),
    ];
    let player = RandomPlayer::new(1_000_000, 0);
    for _ in 0..50 {
        let trade = player.make_trade(&hand, 3, true).unwrap();
        assert!(is_set_from(&trade, &hand));
        assert_eq!(trade.value(), 6);
    }
}

#[test]
fn five_cards_always_hold_a_set() {
    let symbols = [CardSymbol::Infantry, CardSymbol::Cavalry, CardSymbol::Artillery];
    let player = RandomPlayer::new(0, 0);
    let mut code = 0usize;
    while code < 4 * 4 * 4 * 4 * 4 {
        let mut hand = Vec::new();
        let mut rest = code;
        for place in 0..5u8 {
            let kind = rest % 4;
            rest /= 4;
            hand.push(if kind == 3 { (Card::Wild, 42 + place as usize) } else { card(place, symbols[kind]) });
        }
        let trade = player.make_trade(&hand, 3, true).unwrap();
        assert!(is_set_from(&trade, &hand));
        code += 1;
    }
}

#[test]
fn a_player_who_always_declines_trades_only_when_due() {
    let hand = [card(0, CardSymbol::Infantry), card(3, CardSymbol::Infantry), card(6, CardSymbol::Infantry)];
    let player = RandomPlayer::new(1_000_000, 0);
    for _ in 0..50 {
        assert!(player.make_trade(&hand, 3, false).is_none());
    }
}

#[test]
fn a_player_who_never_declines_trades_whenever_there_is_a_set() {
    let set = [card(0, CardSymbol::Infantry), card(3, CardSymbol::Infantry), (Card::Wild, 43)];
    let none = [card(0, CardSymbol::Infantry), card(3, CardSymbol::Infantry), card(1, CardSymbol::Cavalry)];
    let player = RandomPlayer::new(0, 0);
    for _ in 0..50 {
        let trade = player.make_trade(&set, 3, false).unwrap();
        assert!(is_set_from(&trade, &set));
        assert!(player.make_trade(&none, 3, false).is_none());
        assert!(player.make_trade(&none, 3, true).is_none());
        assert!(player.make_trade(&none[..2], 3, true).is_none());
    }
}

#[test]
fn reinforcements_are_handed_out_in_full_to_owned_territories() {
    let player = RandomPlayer::new(0, 0);
    let owned = [4u8, 9, 17, 30];
    for amount in [0u16, 1, 3, 38, 500] {
        let reinf = player.distrib_reinforcements(amount, &owned);
        assert_eq!(reinf.total(), amount as u32);
        let mut sum = 0;
        for (t, n) in reinf.iter() {
            assert!(owned.contains(t));
            assert!(*n >= 1);
            sum += *n;
        }
        assert_eq!(sum, amount);
        for t in 0..=255u8 {
            if !owned.contains(&t) {
                assert_eq!(reinf.get(t), None);
            }
        }
    }
    let single = player.distrib_reinforcements(7, &[12]);
    assert_eq!(single.get(12), Some(7));
}

#[test]
fn a_roll_below_the_chance_declines_a_trade_that_is_not_due() {
    let hand = [
        card(0, CardSymbol::Infantry),
        card(3, CardSymbol::Infantry),
        card(1, CardSymbol::Cavalry),
        card(6, CardSymbol::Infantry),
    ];
    let player = RandomPlayer::new(250_000, 0);
    assert!(player.trade_with(&hand, false, 249_999, &vec![0, 1, 2, 3]).is_none());
    let trade = player.trade_with(&hand, false, 250_000, &vec![0, 1, 2, 3]).unwrap();
    assert_eq!(trade.cards, [hand[0], hand[1], hand[3]]);
    let trade = player.trade_with(&hand, true, 0, &vec![3, 2, 1, 0]).unwrap();
    assert_eq!(trade.cards, [hand[3], hand[1], hand[0]]);
    assert!(player.trade_with(&hand[..3], true, 0, &vec![0, 1, 2]).is_none());
}

#[test]
fn picks_select_the_territory_of_each_army() {
    let owned = [4u8, 9, 17];
    let reinf = distribute_with(5, &owned, &[0, 1, 1, 5, 2]);
    assert_eq!(reinf.get(4), Some(1));
    assert_eq!(reinf.get(9), Some(2));
    assert_eq!(reinf.get(17), Some(2));
    assert_eq!(reinf.iter().count(), 3);
    assert_eq!(reinf.total(), 5);
}

#[test]
fn a_pick_that_is_missing_counts_as_zero() {
    let reinf = distribute_with(4, &[30, 31], &[1]);
    assert_eq!(reinf.get(31), Some(1));
    assert_eq!(reinf.get(30), Some(3));
    assert_eq!(reinf.iter().count(), 2);
    let none = distribute_with(3, &[8], &[]);
    assert_eq!(none.get(8), Some(3));
}

#[test]
fn no_army_names_no_territory() {
    let player = RandomPlayer::new(0, 0);
    for reinf in [
        distribute_with(0, &[], &[]),
        distribute_with(0, &[4, 9], &[1, 1, 1]),
        player.distrib_reinforcements(0, &[]),
        player.distrib_reinforcements(0, &[4, 9]),
    ] {
        assert_eq!(reinf.total(), 0);
        assert_eq!(reinf.iter().count(), 0);
    }
}

#[test]
fn rolls_decide_which_territory_attacks() {
    let info = info_for(&[(5, 1, &[6, 7]), (9, 4, &[]), (20, 9, &[19, 21]), (30, 2, &[29])]);
    let player = RandomPlayer::new(0, 500_000);
    // Territories 20 and 30 can attack; the first is passed over, the second is not.
    let attack = player.attack_with(&info, &[100_000, 600_000], 7).unwrap();
    assert_eq!((attack.origin, attack.target, attack.amount_attacking), (30, 29, 1));
    // A roll equal to the chance of passing over lets the territory attack.
    let attack = player.attack_with(&info, &[500_000], 3).unwrap();
    assert_eq!((attack.origin, attack.target, attack.amount_attacking), (20, 21, 3));
    let attack = player.attack_with(&info, &[999_999, 0], 0).unwrap();
    assert_eq!((attack.origin, attack.target, attack.amount_attacking), (20, 19, 3));
    assert!(player.attack_with(&info, &[499_999, 499_999], 0).is_none());
    // Rolls that are missing count as zero.
    assert!(player.attack_with(&info, &[], 0).is_none());
    assert!(player.attack_with(&info, &[0], 0).is_none());
    let attack = player.attack_with(&info, &[0, 500_000, 0], 0).unwrap();
    assert_eq!(attack.origin, 30);
    let eager = RandomPlayer::new(0, 0);
    let attack = eager.attack_with(&info, &[], 1).unwrap();
    assert_eq!((attack.origin, attack.target, attack.amount_attacking), (20, 21, 3));
    assert!(eager.attack_with(&info_for(&[(5, 1, &[6, 7]), (9, 4, &[])]), &[7, 7], 0).is_none());
}

#[test]
fn picks_select_origin_destination_and_armies_of_a_move() {
    let mut territories = [(1u8, 1u16); 42];
    territories[39] = (0, 4);
    territories[40] = (0, 1);
    territories[41] = (0, 5);
    territories[0] = (0, 9);
    let board = StandardGameBoard::new(2, territories);
    // Brazil and Venezuela can give armies; Peru holds one army, and the Congo stands alone.
    let movement = RandomPlayer::fortify_with(0, &board, 1, 3, 10).unwrap();
    assert_eq!((movement.origin, movement.destination, movement.amount), (41, 40, 2));
    let movement = RandomPlayer::fortify_with(0, &board, 0, 0, 3).unwrap();
    assert_eq!((movement.origin, movement.destination, movement.amount), (39, 40, 0));
    let movement = RandomPlayer::fortify_with(0, &board, 2, 1, 2).unwrap();
    assert_eq!((movement.origin, movement.destination, movement.amount), (39, 41, 2));
    let movement = RandomPlayer::fortify_with(0, &board, 3, 0, 3).unwrap();
    assert_eq!((movement.origin, movement.destination, movement.amount), (41, 39, 3));
    let mut apart = [(1u8, 1u16); 42];
    apart[0] = (0, 9);
    apart[41] = (0, 9);
    assert!(RandomPlayer::fortify_with(0, &StandardGameBoard::new(2, apart), 5, 5, 5).is_none());
}

#[test]
fn an_attack_comes_from_a_territory_that_can_attack() {
    let info = info_for(&[(5, 1, &[6, 7]), (9, 4, &[]), (20, 9, &[19, 21]), (30, 2, &[29])]);
    let player = RandomPlayer::new(0, 0);
    for _ in 0..50 {
        let attack = player.make_attack(&info).unwrap();
        // Territories are tried in rising order, and this player passes over none.
        assert_eq!(attack.origin, 20);
        assert!(attack.target == 19 || attack.target == 21);
        assert_eq!(attack.amount_attacking, 3);
    }
    let small = info_for(&[(30, 2, &[29])]);
    let attack = player.make_attack(&small).unwrap();
    assert_eq!((attack.origin, attack.target, attack.amount_attacking), (30, 29, 1));
    let three = info_for(&[(30, 3, &[29])]);
    assert_eq!(player.make_attack(&three).unwrap().amount_attacking, 2);
}

#[test]
fn no_attack_comes_where_none_is_possible() {
    let player = RandomPlayer::new(0, 0);
    assert!(player.make_attack(&info_for(&[])).is_none());
    assert!(player.make_attack(&info_for(&[(5, 1, &[6, 7]), (9, 4, &[])])).is_none());
}

#[test]
fn a_player_who_passes_over_everything_never_attacks() {
    let info = info_for(&[(20, 9, &[19, 21]), (30, 2, &[29])]);
    let player = RandomPlayer::new(0, 1_000_000);
    for _ in 0..50 {
        assert!(player.make_attack(&info).is_none());
    }
}

#[test]
fn a_move_goes_between_bordering_territories_of_the_player() {
    let mut territories = [(1u8, 1u16); 42];
    territories[39] = (0, 4);
    territories[40] = (0, 1);
    territories[0] = (0, 9);
    let board = StandardGameBoard::new(2, territories);
    let player = RandomPlayer::new(0, 0);
    for _ in 0..50 {
        // The Congo borders no other territory of the player, and Peru holds one army.
        let movement = player.fortify(0, &board).unwrap();
        assert_eq!(movement.origin, 39);
        assert_eq!(movement.destination, 40);
        assert!(movement.amount < 3);
    }
}

#[test]
fn no_move_comes_where_none_is_possible() {
    let player = RandomPlayer::new(0, 0);
    let mut apart = [(1u8, 1u16); 42];
    apart[0] = (0, 9);
    apart[41] = (0, 9);
    assert!(player.fortify(0, &StandardGameBoard::new(2, apart)).is_none());
    let mut thin = [(1u8, 1u16); 42];
    thin[39] = (0, 1);
    thin[40] = (0, 1);
    assert!(player.fortify(0, &StandardGameBoard::new(2, thin)).is_none());
    assert!(player.fortify(5, &StandardGameBoard::new(6, thin)).is_none());
}

#[test]
fn a_move_is_one_that_the_board_allows() {
    let board = {
        let mut territories = [(0u8, 3u16); 42];
        for t in 0..42usize {
            territories[t].0 = (t % 3) as u8;
            territories[t].1 = 1 + (t % 4) as u16;
        }
        StandardGameBoard::new(3, territories)
    };
    let player = RandomPlayer::new(0, 0);
    for p in 0..3u8 {
        for _ in 0..30 {
            match player.fortify(p, &board) {
                Some(movement) => {
                    assert_eq!(board.get_owner(movement.origin), p);
                    assert_eq!(board.get_owner(movement.destination), p);
                    assert!(board.game_map().are_adjacent(movement.origin, movement.destination));
                    assert!(board.get_num_armies(movement.origin) > 1);
                    assert!(movement.amount < board.get_num_armies(movement.origin) - 1);
                }
                None => {
                    for a in board.get_owned_territories(p) {
                        for b in board.get_owned_territories(p) {
                            assert!(
                                !(board.game_map().are_adjacent(a, b) && board.get_num_armies(a) > 1)
                            );
                        }
                    }
                }
            }
        }
    }
}

#[test]
fn as_many_players_are_made_as_asked_for() {
    assert_eq!(RandomPlayer::make_random_players(0).len(), 0);
    assert_eq!(RandomPlayer::make_random_players(4).len(), 4);
}

fn check_state(game: &GameManager, num_players: u8) {
    let mut seen = [0u8; 42];
    let mut held = 0;
    for p in 0..num_players {
        for t in game.board().get_owned_territories(p) {
            assert_eq!(game.board().get_owner(t), p);
            seen[t as usize] += 1;
        }
        assert_eq!(game.board().get_num_cards(p), game.cards().hand_size(p));
        held += game.cards().hand_size(p) as usize;
    }
    assert_eq!(seen, [1u8; 42]);
    for t in 0..42u8 {
        assert!(game.board().get_num_armies(t) >= 1);
    }
    assert_eq!(game.cards().num_available() + game.cards().num_discarded() + held, 44);
}

fn play(num_players: u8, max_rounds: u32) -> GameManager {
    let players = RandomPlayer::make_random_players(num_players as usize);
    let mut game = GameManager::new_game(num_players, max_rounds);
    let mut prompts = 0u32;
    let mut refused_in_a_row = 0u32;
    while game.phase() != Phase::Over {
        prompts += 1;
        assert!(prompts < 2_000_000);
        let player = &players[game.current_player() as usize];
        match game.phase() {
            Phase::Trade => {
                let due = game.board().get_territory_reinforcements(game.current_player());
                let proposal = player.make_trade(&game.hand(), due, game.trade_is_mandatory());
                let valid = match &proposal {
                    Some(trade) => game.trade_is_valid(trade),
                    None => !game.trade_is_mandatory(),
                };
                assert_eq!(game.submit_trade(proposal), valid);
            }
            Phase::Reinforce => {
                let owned = game.board().get_owned_territories(game.current_player());
                let reinf = player.distrib_reinforcements(game.reinforcements_due(), &owned);
                assert!(game.submit_reinforcement(&reinf));
            }
            Phase::Attack => {
                // What the attacker is told is brought up to date by conquests only, so a
                // player who goes by it may insist on an attack that the board no longer
                // allows. After a run of refusals the attack phase is ended for the player.
                let proposal: Option<Attack> = if refused_in_a_row < 20 {
                    player.make_attack(game.attack_info())
                } else {
                    None
                };
                let valid = match &proposal {
                    Some(attack) => game.attack_is_valid(attack),
                    None => true,
                };
                assert_eq!(game.submit_attack(proposal), valid);
                refused_in_a_row = if valid { 0 } else { refused_in_a_row + 1 };
            }
            Phase::Fortify => {
                let proposal = player.fortify(game.current_player(), game.board());
                assert!(game.submit_fortify(proposal));
            }
            Phase::Over => unreachable!(),
        }
        check_state(&game, num_players);
    }
    game
}

#[test]
fn players_deciding_by_chance_play_a_game_to_its_end() {
    let game = play(3, 30);
    assert_eq!(game.phase(), Phase::Over);
    assert!(game.rounds_played() <= 30);
    assert!(game.game_is_over() || game.rounds_played() == 30);
    match game.winner() {
        Some(winner) => {
            assert!(game.game_is_over());
            assert_eq!(game.board().get_num_owned_territories(winner), 42);
            for p in 0..3u8 {
                assert_eq!(game.board().player_is_defeated(p), p != winner);
            }
        }
        None => assert!(!game.game_is_over()),
    }
}

#[test]
fn two_players_deciding_by_chance_play_a_long_game() {
    let game = play(2, 200);
    assert_eq!(game.phase(), Phase::Over);
    check_state(&game, 2);
    let deck = CardEconomy::standard_deck_with_offset(2, 0);
    assert_eq!(game.cards().num_cards(), deck.num_cards());
}
