use std::collections::HashMap;

use risk::player::answers::{read_answer, trade_from_places, Answer, ReinforcementTally};
use risk::{Card, CardSymbol, Reinforcement};

#[test]
fn yes_and_no_are_read_in_either_case() {
    assert_eq!(read_answer(b"y"), Some(Answer::Yes));
    assert_eq!(read_answer(b"Y"), Some(Answer::Yes));
    assert_eq!(read_answer(b"n"), Some(Answer::No));
    assert_eq!(read_answer(b"N"), Some(Answer::No));
}

#[test]
fn anything_else_is_no_answer() {
    assert_eq!(read_answer(b""), None);
    assert_eq!(read_answer(b"yes"), None);
    assert_eq!(read_answer(b"no"), None);
    assert_eq!(read_answer(b" y"), None);
    assert_eq!(read_answer(b"y\n"), None);
    assert_eq!(read_answer(b"x"), None);
    assert_eq!(read_answer(b"1"), None);
    assert_eq!(read_answer(&[0xff]), None);
}

#[test]
fn a_trade_takes_the_cards_in_the_places_named() {
    let hand = [
        (Card::Territory(4, CardSymbol::Cavalry), 4),
        (Card::Wild, 42),
        (Card::Territory(9, CardSymbol::Infantry), 9),
        (Card::Territory(11, CardSymbol::Artillery), 11),
    ];
    let trade = trade_from_places(&hand, [3, 0, 1]).unwrap();
    assert_eq!(trade.cards, [hand[3], hand[0], hand[1]]);
    let twice = trade_from_places(&hand, [2, 2, 2]).unwrap();
    assert_eq!(twice.cards, [hand[2], hand[2], hand[2]]);
}

#[test]
fn a_place_off_the_hand_gives_no_trade() {
    let hand = [
        (Card::Territory(4, CardSymbol::Cavalry), 4),
        (Card::Wild, 42),
        (Card::Territory(9, CardSymbol::Infantry), 9),
    ];
    assert!(trade_from_places(&hand, [0, 1, 3]).is_none());
    assert!(trade_from_places(&hand, [3, 1, 0]).is_none());
    assert!(trade_from_places(&hand, [0, usize::MAX, 1]).is_none());
    assert!(trade_from_places(&[], [0, 0, 0]).is_none());
    assert!(trade_from_places(&hand, [0, 1, 2]).is_some());
}

#[test]
fn a_tally_counts_down_what_is_left() {
    let mut tally = ReinforcementTally::new(10);
    assert_eq!(tally.left(), 10);
    assert!(tally.assign(3, 4));
    assert_eq!(tally.left(), 6);
    assert!(tally.assign(7, 0));
    assert_eq!(tally.left(), 6);
    assert!(tally.assign(3, 5));
    assert_eq!(tally.left(), 1);
    assert!(tally.assign(200, 1));
    assert_eq!(tally.left(), 0);
    let reinf = tally.finish();
    assert_eq!(reinf.get(3), Some(9));
    assert_eq!(reinf.get(7), Some(0));
    assert_eq!(reinf.get(200), Some(1));
    assert_eq!(reinf.get(4), None);
    assert_eq!(reinf.total(), 10);
}

#[test]
fn a_tally_refuses_more_than_is_left() {
    let mut tally = ReinforcementTally::new(5);
    assert!(!tally.assign(1, 6));
    assert_eq!(tally.left(), 5);
    assert!(tally.assign(1, 5));
    assert!(!tally.assign(1, 1));
    assert!(!tally.assign(2, u16::MAX));
    assert_eq!(tally.left(), 0);
    let reinf = tally.finish();
    assert_eq!(reinf.get(1), Some(5));
    assert_eq!(reinf.get(2), None);
    assert_eq!(reinf.total(), 5);
}

#[test]
fn an_empty_tally_is_done_at_once() {
    let tally = ReinforcementTally::new(0);
    assert_eq!(tally.left(), 0);
    let reinf = tally.finish();
    assert_eq!(reinf.total(), 0);
    assert_eq!(reinf.iter().count(), 0);
}

#[test]
fn a_tally_may_fill_one_territory_to_the_brim() {
    let mut tally = ReinforcementTally::new(u16::MAX);
    assert!(tally.assign(41, u16::MAX - 1));
    assert!(tally.assign(41, 1));
    assert_eq!(tally.left(), 0);
    assert_eq!(tally.finish().get(41), Some(u16::MAX));
}

#[test]
fn a_distribution_yields_what_it_was_given() {
    let mut map = HashMap::new();
    map.insert(5u8, 7u16);
    map.insert(9u8, 0u16);
    map.insert(255u8, 65_535u16);
    let reinf = Reinforcement::new(map.clone());
    let mut pairs: Vec<(u8, u16)> = reinf.iter().map(|(t, n)| (*t, *n)).collect();
    pairs.sort();
    assert_eq!(pairs, vec![(5, 7), (9, 0), (255, 65_535)]);
    assert_eq!(reinf.get(5), Some(7));
    assert_eq!(reinf.get(9), Some(0));
    assert_eq!(reinf.get(6), None);
    assert_eq!(reinf.total(), 65_542);
}

#[test]
fn a_distribution_may_exceed_what_one_territory_can_hold() {
    let mut map = HashMap::new();
    for t in 0..=255u8 {
        map.insert(t, u16::MAX);
    }
    assert_eq!(Reinforcement::new(map).total(), 256 * 65_535);
}
