use risk::board::{standard_map, StandardTerritory};
use risk::{Continent, GameBoard, GameMap, StandardGameBoard};

fn board_with(num_players: u8, owned_by_zero: &[u8]) -> StandardGameBoard {
    let mut territories = [(1u8, 1u16); 42];
    for t in owned_by_zero.iter() {
        territories[*t as usize] = (0, 1);
    }
    StandardGameBoard::new(num_players, territories)
}

fn sorted(mut values: Vec<u8>) -> Vec<u8> {
    values.sort();
    values
}

#[test]
fn continents_cover_the_board_in_order() {
    assert_eq!(Continent::Africa.get_range(), 0..6);
    assert_eq!(Continent::Asia.get_range(), 6..18);
    assert_eq!(Continent::Australia.get_range(), 18..22);
    assert_eq!(Continent::Europe.get_range(), 22..29);
    assert_eq!(Continent::NorthAmerica.get_range(), 29..38);
    assert_eq!(Continent::SouthAmerica.get_range(), 38..42);
}

#[test]
fn continent_bonuses() {
    assert_eq!(Continent::Australia.get_bonus(), 2);
    assert_eq!(Continent::SouthAmerica.get_bonus(), 2);
    assert_eq!(Continent::Africa.get_bonus(), 3);
    assert_eq!(Continent::Europe.get_bonus(), 5);
    assert_eq!(Continent::NorthAmerica.get_bonus(), 5);
    assert_eq!(Continent::Asia.get_bonus(), 7);
}

#[test]
fn territories_and_indices_correspond() {
    for t in 0..42u8 {
        assert_eq!(StandardTerritory::from_territory_id(t).territory_id(), t);
    }
    assert_eq!(StandardTerritory::from_territory_id(0), StandardTerritory::Congo);
    assert_eq!(StandardTerritory::from_territory_id(10), StandardTerritory::Japan);
    assert_eq!(StandardTerritory::from_territory_id(29), StandardTerritory::Alaska);
    assert_eq!(StandardTerritory::from_territory_id(41), StandardTerritory::Venezuela);
}

#[test]
fn listed_neighbors_of_some_territories() {
    assert_eq!(
        StandardTerritory::Congo.neighbors(),
        vec![StandardTerritory::EastAfrica, StandardTerritory::NorthAfrica, StandardTerritory::SouthAfrica]
    );
    assert_eq!(
        StandardTerritory::Japan.neighbors(),
        vec![StandardTerritory::Kamchatka, StandardTerritory::Mongolia]
    );
    assert_eq!(
        StandardTerritory::Argentina.neighbors(),
        vec![StandardTerritory::Brazil, StandardTerritory::Peru]
    );
    let mut total = 0;
    for t in 0..42u8 {
        let listed = StandardTerritory::from_territory_id(t).neighbors();
        assert!(listed.len() >= 2 && listed.len() <= 6);
        total += listed.len();
    }
    assert_eq!(total, 163);
}

#[test]
fn the_standard_map_joins_what_is_listed() {
    let map = standard_map();
    assert!(map.are_adjacent(0, 1));
    assert!(map.are_adjacent(1, 0));
    assert!(map.are_adjacent(39, 4));
    assert!(map.are_adjacent(4, 39));
    assert!(map.are_adjacent(29, 11));
    assert!(!map.are_adjacent(0, 41));
    assert!(!map.are_adjacent(0, 0));
    assert!(!map.are_adjacent(18, 38));
}

#[test]
fn a_border_listed_on_one_side_holds_on_both() {
    let map = standard_map();
    // Only the Middle East lists Egypt, and only Mongolia lists Kamchatka.
    assert!(!StandardTerritory::Egypt.neighbors().contains(&StandardTerritory::MiddleEast));
    assert!(map.are_adjacent(2, 12));
    assert!(map.are_adjacent(12, 2));
    assert!(!StandardTerritory::Kamchatka.neighbors().contains(&StandardTerritory::Mongolia));
    assert!(map.are_adjacent(11, 13));
    assert!(map.are_adjacent(13, 11));
}

#[test]
fn adjacency_is_symmetric_and_follows_the_listings() {
    let map = standard_map();
    for a in 0..42u8 {
        for b in 0..42u8 {
            let listed = StandardTerritory::from_territory_id(a)
                .neighbors()
                .contains(&StandardTerritory::from_territory_id(b))
                || StandardTerritory::from_territory_id(b)
                    .neighbors()
                    .contains(&StandardTerritory::from_territory_id(a));
            assert_eq!(map.are_adjacent(a, b), listed);
            assert_eq!(map.are_adjacent(a, b), map.are_adjacent(b, a));
        }
    }
}

#[test]
fn every_neighbor_is_named_once() {
    let map = standard_map();
    // Japan lists Kamchatka and Mongolia, and each of them lists Japan.
    assert_eq!(sorted(map.get_neighbors(10)), vec![11, 13]);
    // Egypt lists three territories, all of which list Egypt; the Middle East lists it too.
    assert_eq!(sorted(map.get_neighbors(2)), vec![1, 4, 12, 26]);
    assert_eq!(sorted(map.get_neighbors(0)), vec![1, 4, 5]);
    for t in 0..42u8 {
        let neighbors = map.get_neighbors(t);
        let mut once = sorted(neighbors.clone());
        once.dedup();
        assert_eq!(once.len(), neighbors.len());
        assert!(!neighbors.contains(&t));
        assert!(neighbors.iter().all(|b| *b < 42));
        assert!(neighbors.len() >= 2 && neighbors.len() <= 6);
    }
}

#[test]
fn the_board_has_eighty_three_borders() {
    let map = standard_map();
    let mut ends = 0;
    for t in 0..42u8 {
        ends += map.get_neighbors(t).len();
    }
    assert_eq!(ends, 2 * 83);
}

#[test]
fn nothing_borders_a_territory_off_the_board() {
    let map = standard_map();
    assert_eq!(map.get_neighbors(42), Vec::<u8>::new());
    assert_eq!(map.get_neighbors(255), Vec::<u8>::new());
    assert!(!map.are_adjacent(42, 0));
    assert!(!map.are_adjacent(0, 255));
}

#[test]
fn neighbors_and_adjacency_agree() {
    let map = standard_map();
    for a in 0..42u8 {
        let neighbors = map.get_neighbors(a);
        for b in 0..42u8 {
            assert_eq!(neighbors.contains(&b), map.are_adjacent(a, b));
        }
    }
}

#[test]
fn a_new_board_holds_what_it_was_given() {
    let mut territories = [(0u8, 1u16); 42];
    territories[5] = (2, 7);
    territories[41] = (1, 3);
    let board = StandardGameBoard::new(3, territories);
    assert_eq!(board.num_players(), 3);
    assert_eq!(board.get_owner(5), 2);
    assert_eq!(board.get_num_armies(5), 7);
    assert_eq!(board.get_owner(41), 1);
    assert_eq!(board.get_num_armies(41), 3);
    assert_eq!(board.get_owner(0), 0);
    assert_eq!(board.get_num_armies(0), 1);
    for p in 0..3u8 {
        assert_eq!(board.get_num_cards(p), 0);
    }
    assert!(board.game_map().are_adjacent(0, 1));
}

#[test]
fn nine_territories_and_no_continent_give_three() {
    let board = board_with(2, &[0, 1, 2, 6, 7, 8, 18, 19, 22]);
    assert_eq!(board.get_num_owned_territories(0), 9);
    assert_eq!(board.get_continent_bonuses(0), 0);
    assert_eq!(board.get_territory_reinforcements(0), 3);
}

#[test]
fn two_territories_still_give_three() {
    let board = board_with(2, &[0, 41]);
    assert_eq!(board.get_num_owned_territories(0), 2);
    assert_eq!(board.get_territory_reinforcements(0), 3);
}

#[test]
fn twelve_territories_give_four_and_fourteen_still_four() {
    let twelve = board_with(2, &[0, 1, 2, 3, 6, 7, 8, 9, 18, 19, 22, 23]);
    assert_eq!(twelve.get_territory_reinforcements(0), 4);
    let fourteen = board_with(2, &[0, 1, 2, 3, 6, 7, 8, 9, 18, 19, 22, 23, 29, 38]);
    assert_eq!(fourteen.get_num_owned_territories(0), 14);
    assert_eq!(fourteen.get_territory_reinforcements(0), 4);
}

#[test]
fn a_continent_adds_its_bonus() {
    let australia = board_with(2, &[18, 19, 20, 21]);
    assert!(australia.player_owns_continent(0, Continent::Australia));
    assert!(!australia.player_owns_continent(1, Continent::Australia));
    assert!(!australia.player_owns_continent(0, Continent::Asia));
    assert_eq!(australia.get_continent_bonuses(0), 2);
    assert_eq!(australia.get_territory_reinforcements(0), 3 + 2);
    // The other player owns the five other continents: 38 territories.
    assert_eq!(australia.get_num_owned_territories(1), 38);
    assert_eq!(australia.get_continent_bonuses(1), 2 + 3 + 5 + 5 + 7);
    assert_eq!(australia.get_territory_reinforcements(1), 12 + 22);
}

#[test]
fn a_continent_short_of_one_territory_adds_nothing() {
    let board = board_with(2, &[18, 19, 20]);
    assert!(!board.player_owns_continent(0, Continent::Australia));
    assert_eq!(board.get_continent_bonuses(0), 0);
}

#[test]
fn the_owner_of_everything_gets_the_most() {
    let all: Vec<u8> = (0..42).collect();
    let board = board_with(2, &all);
    assert_eq!(board.get_num_owned_territories(0), 42);
    assert_eq!(board.get_continent_bonuses(0), 24);
    assert_eq!(board.get_territory_reinforcements(0), 14 + 24);
    assert!(board.game_is_over());
    assert!(board.player_is_defeated(1));
    assert!(!board.player_is_defeated(0));
    assert_eq!(board.get_territory_reinforcements(1), 3);
}

#[test]
fn owned_territories_are_listed_in_rising_order() {
    let board = board_with(2, &[40, 3, 17]);
    assert_eq!(board.get_owned_territories(0), vec![3, 17, 40]);
    assert_eq!(board.get_owned_territories(1).len(), 39);
    assert_eq!(board.get_owned_territories(7), Vec::<u8>::new());
}

#[test]
fn every_territory_is_owned_by_exactly_one_player() {
    let board = StandardGameBoard::randomly_distributed(4);
    let mut seen = [0u8; 42];
    for p in 0..4u8 {
        for t in board.get_owned_territories(p) {
            assert_eq!(board.get_owner(t), p);
            seen[t as usize] += 1;
        }
    }
    assert_eq!(seen, [1u8; 42]);
}

#[test]
fn set_territory_writes_one_territory() {
    let mut board = board_with(3, &[0, 1]);
    board.set_territory(7, 2, 9);
    assert_eq!(board.get_owner(7), 2);
    assert_eq!(board.get_num_armies(7), 9);
    assert_eq!(board.get_owner(0), 0);
    assert_eq!(board.get_owner(8), 1);
    assert_eq!(board.get_num_armies(8), 1);
    assert!(board.is_enemy_territory(0, 7));
    assert!(!board.is_enemy_territory(2, 7));
}

#[test]
fn armies_are_added_and_removed() {
    let mut board = board_with(2, &[0]);
    board.add_armies(0, 5);
    assert_eq!(board.get_num_armies(0), 6);
    assert_eq!(board.get_owner(0), 0);
    board.remove_armies(0, 4);
    assert_eq!(board.get_num_armies(0), 2);
    board.remove_armies(0, 2);
    assert_eq!(board.get_num_armies(0), 0);
    assert_eq!(board.get_owner(0), 0);
    board.add_armies(0, u16::MAX);
    assert_eq!(board.get_num_armies(0), u16::MAX);
}

#[test]
fn card_counts_are_kept_by_player() {
    let mut board = board_with(3, &[0]);
    board.set_num_cards(2, 5);
    assert_eq!(board.get_num_cards(2), 5);
    assert_eq!(board.get_num_cards(0), 0);
    assert_eq!(board.get_num_cards(1), 0);
}

#[test]
fn the_game_is_over_when_one_player_owns_everything() {
    let mut board = board_with(2, &[]);
    assert!(board.game_is_over());
    assert!(board.player_is_defeated(0));
    board.set_territory(41, 0, 1);
    assert!(!board.game_is_over());
    assert!(!board.player_is_defeated(0));
    assert!(!board.player_is_defeated(1));
    board.set_territory(41, 1, 1);
    assert!(board.game_is_over());
    board.set_territory(0, 0, 1);
    assert!(!board.game_is_over());
}

#[test]
fn territories_are_dealt_evenly() {
    for num_players in 1..=6u8 {
        let board = StandardGameBoard::randomly_distributed(num_players);
        assert_eq!(board.num_players(), num_players);
        let mut total = 0;
        for p in 0..num_players {
            let owned = board.get_num_owned_territories(p);
            assert!(owned == 42 / num_players || owned == 42 / num_players + 1);
            assert_eq!(board.get_num_cards(p), 0);
            total += owned;
        }
        assert_eq!(total, 42);
        for t in 0..42u8 {
            assert_eq!(board.get_num_armies(t), 1);
            assert!(board.get_owner(t) < num_players);
        }
        let n = num_players as usize;
        for a in 0..42usize {
            for b in (a + 1)..42 {
                if a / n == b / n {
                    assert_ne!(board.get_owner(a as u8), board.get_owner(b as u8));
                }
            }
        }
    }
}

#[test]
fn picks_select_the_owner_of_each_territory() {
    // Three players: each round starts with players 0, 1 and 2 waiting.
    let territories = StandardGameBoard::deal_with(3, &[2, 0, 0, 1, 1, 0]);
    let owners: Vec<u8> = territories.iter().map(|t| t.0).collect();
    assert_eq!(&owners[..6], &[2, 0, 1, 1, 2, 0]);
    // Picks that are missing count as zero: the players come in rising order.
    for t in 6..42usize {
        assert_eq!(owners[t], (t % 3) as u8);
    }
    for t in 0..42usize {
        assert_eq!(territories[t].1, 1);
    }
}

#[test]
fn picks_count_cyclically_among_the_players_waiting() {
    let territories = StandardGameBoard::deal_with(4, &[7, 7, 7, 7, usize::MAX]);
    let owners: Vec<u8> = territories.iter().map(|t| t.0).collect();
    // 7 selects the fourth of four, the second of three, the second of two, the one left.
    assert_eq!(&owners[..4], &[3, 1, 2, 0]);
    assert_eq!(owners[4], (usize::MAX % 4) as u8);
    let all_zero = StandardGameBoard::deal_with(5, &[]);
    for t in 0..42usize {
        assert_eq!(all_zero[t], ((t % 5) as u8, 1));
    }
    let alone = StandardGameBoard::deal_with(1, &[3, 9, 27]);
    assert_eq!(alone, [(0u8, 1u16); 42]);
}

#[test]
fn more_players_than_territories_leave_some_without() {
    let board = StandardGameBoard::randomly_distributed(50);
    let mut with_one = 0;
    for p in 0..50u8 {
        let owned = board.get_num_owned_territories(p);
        assert!(owned <= 1);
        with_one += owned;
        assert_eq!(board.player_is_defeated(p), owned == 0);
    }
    assert_eq!(with_one, 42);
}
