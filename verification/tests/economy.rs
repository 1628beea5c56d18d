use risk::card_economy::{CardEconomy, CardPlace};
use risk::{Card, CardSymbol, Trade};

fn total(deck: &CardEconomy, num_players: u8) -> usize {
    let mut held = 0;
    for p in 0..num_players {
        held += deck.hand_size(p) as usize;
    }
    deck.num_available() + deck.num_discarded() + held
}

#[test]
fn the_standard_deck_has_forty_two_territories_and_two_wilds() {
    let deck = CardEconomy::standard_deck_with_offset(3, 0);
    assert_eq!(deck.num_cards(), 44);
    assert_eq!(deck.num_players(), 3);
    assert_eq!(deck.num_available(), 44);
    assert_eq!(deck.num_discarded(), 0);
    assert_eq!(deck.card(0), Some(Card::Territory(0, CardSymbol::Infantry)));
    assert_eq!(deck.card(1), Some(Card::Territory(1, CardSymbol::Cavalry)));
    assert_eq!(deck.card(2), Some(Card::Territory(2, CardSymbol::Artillery)));
    assert_eq!(deck.card(3), Some(Card::Territory(3, CardSymbol::Infantry)));
    assert_eq!(deck.card(41), Some(Card::Territory(41, CardSymbol::Artillery)));
    assert_eq!(deck.card(42), Some(Card::Wild));
    assert_eq!(deck.card(43), Some(Card::Wild));
    assert_eq!(deck.card(44), None);
    for id in 0..44 {
        assert_eq!(deck.place(id), Some(CardPlace::Available));
    }
    assert_eq!(deck.place(44), None);
}

#[test]
fn the_offset_shifts_the_symbols() {
    let one = CardEconomy::standard_deck_with_offset(2, 1);
    assert_eq!(one.card(0), Some(Card::Territory(0, CardSymbol::Cavalry)));
    assert_eq!(one.card(1), Some(Card::Territory(1, CardSymbol::Artillery)));
    assert_eq!(one.card(2), Some(Card::Territory(2, CardSymbol::Infantry)));
    let two = CardEconomy::standard_deck_with_offset(2, 2);
    assert_eq!(two.card(0), Some(Card::Territory(0, CardSymbol::Artillery)));
    assert_eq!(two.card(1), Some(Card::Territory(1, CardSymbol::Infantry)));
    let three = CardEconomy::standard_deck_with_offset(2, 3);
    assert_eq!(three.card(0), Some(Card::Territory(0, CardSymbol::Infantry)));
    let huge = CardEconomy::standard_deck_with_offset(2, usize::MAX);
    // usize::MAX leaves the remainder 0 on division by three on machines of 32 and of 64 bits.
    assert_eq!(huge.card(0), Some(Card::Territory(0, CardSymbol::Infantry)));
    assert_eq!(huge.card(1), Some(Card::Territory(1, CardSymbol::Cavalry)));
}

#[test]
fn a_deck_made_at_random_cycles_through_the_symbols() {
    let deck = CardEconomy::standard_deck(4);
    assert_eq!(deck.num_cards(), 44);
    assert_eq!(deck.num_available(), 44);
    let order = [CardSymbol::Infantry, CardSymbol::Cavalry, CardSymbol::Artillery];
    let first = match deck.card(0) {
        Some(Card::Territory(0, symbol)) => symbol,
        other => panic!("unexpected first card {:?}", other),
    };
    let offset = order.iter().position(|s| *s == first).unwrap();
    for id in 0..42usize {
        assert_eq!(deck.card(id), Some(Card::Territory(id as u8, order[(id + offset) % 3])));
    }
    assert_eq!(deck.card(42), Some(Card::Wild));
    assert_eq!(deck.card(43), Some(Card::Wild));
}

#[test]
fn a_pick_selects_among_the_drawable_cards_in_rising_order() {
    let mut deck = CardEconomy::standard_deck_with_offset(2, 0);
    assert_eq!(deck.draw_for(0, 5), Some(5));
    // Card 5 is gone: the fifth drawable card is now card 6.
    assert_eq!(deck.draw_for(1, 5), Some(6));
    assert_eq!(deck.draw_for(0, 0), Some(0));
    // 41 cards are left; picks count cyclically.
    assert_eq!(deck.draw_for(0, 41), Some(1));
    assert_eq!(deck.draw_for(1, 39), Some(43));
    assert_eq!(deck.place(5), Some(CardPlace::Held(0)));
    assert_eq!(deck.place(6), Some(CardPlace::Held(1)));
    assert_eq!(deck.place(43), Some(CardPlace::Held(1)));
    assert_eq!(deck.hand_size(0), 3);
    assert_eq!(deck.hand_size(1), 2);
    assert_eq!(deck.num_available(), 39);
}

#[test]
fn a_hand_lists_cards_with_their_indices() {
    let mut deck = CardEconomy::standard_deck_with_offset(2, 0);
    deck.draw_for(0, 43);
    deck.draw_for(0, 4);
    deck.draw_for(1, 0);
    deck.draw_for(0, 1);
    assert_eq!(
        deck.hand_of(0),
        vec![
            (Card::Territory(2, CardSymbol::Artillery), 2),
            (Card::Territory(4, CardSymbol::Cavalry), 4),
            (Card::Wild, 43),
        ]
    );
    assert_eq!(deck.hand_of(1), vec![(Card::Territory(0, CardSymbol::Infantry), 0)]);
}

#[test]
fn a_card_drawn_at_random_was_drawable() {
    let mut deck = CardEconomy::standard_deck_with_offset(3, 0);
    let mut drawn = Vec::new();
    for round in 0..44usize {
        let player = (round % 3) as u8;
        let before = deck.hand_size(player);
        let id = deck.draw_random_for(player).unwrap();
        assert!(id < 44);
        assert!(!drawn.contains(&id));
        assert_eq!(deck.place(id), Some(CardPlace::Held(player)));
        assert_eq!(deck.hand_size(player), before + 1);
        assert_eq!(deck.num_available(), 43 - round);
        drawn.push(id);
    }
    assert_eq!(deck.draw_random_for(0), None);
    assert_eq!(deck.hand_size(0), 15);
    assert_eq!(total(&deck, 3), 44);
}

#[test]
fn discarding_moves_a_card_from_the_hand_to_the_pile() {
    let mut deck = CardEconomy::standard_deck_with_offset(2, 0);
    deck.draw_for(0, 7);
    assert!(deck.discard(0, 7));
    assert_eq!(deck.place(7), Some(CardPlace::Discarded));
    assert_eq!(deck.hand_size(0), 0);
    assert_eq!(deck.num_discarded(), 1);
    assert_eq!(deck.num_available(), 43);
}

#[test]
fn only_the_holder_can_discard_a_card() {
    let mut deck = CardEconomy::standard_deck_with_offset(2, 0);
    deck.draw_for(0, 7);
    assert!(!deck.discard(1, 7));
    assert!(!deck.discard(0, 8));
    assert!(!deck.discard(0, 44));
    assert!(!deck.discard(0, usize::MAX));
    assert_eq!(deck.place(7), Some(CardPlace::Held(0)));
    assert_eq!(deck.place(8), Some(CardPlace::Available));
    assert_eq!(deck.num_discarded(), 0);
    assert!(deck.discard(0, 7));
    assert!(!deck.discard(0, 7));
    assert_eq!(deck.num_discarded(), 1);
}

#[test]
fn the_pile_is_recycled_when_nothing_is_drawable() {
    let mut deck = CardEconomy::standard_deck_with_offset(2, 0);
    for _ in 0..44 {
        assert!(deck.draw_for(0, 0).is_some());
    }
    assert_eq!(deck.num_available(), 0);
    assert_eq!(deck.num_drawable(), 0);
    assert!(deck.discard(0, 10));
    assert!(deck.discard(0, 20));
    assert!(deck.discard(0, 30));
    assert_eq!(deck.num_available(), 0);
    assert_eq!(deck.num_drawable(), 3);
    // The second of the three recycled cards.
    assert_eq!(deck.draw_for(1, 1), Some(20));
    assert_eq!(deck.place(10), Some(CardPlace::Available));
    assert_eq!(deck.place(20), Some(CardPlace::Held(1)));
    assert_eq!(deck.place(30), Some(CardPlace::Available));
    assert_eq!(deck.num_discarded(), 0);
    assert_eq!(deck.num_available(), 2);
    assert_eq!(deck.num_drawable(), 2);
}

#[test]
fn the_pile_stays_while_something_is_drawable() {
    let mut deck = CardEconomy::standard_deck_with_offset(2, 0);
    deck.draw_for(0, 0);
    deck.discard(0, 0);
    assert_eq!(deck.draw_for(1, 0), Some(1));
    assert_eq!(deck.place(0), Some(CardPlace::Discarded));
    deck.recycle_discards();
    assert_eq!(deck.place(0), Some(CardPlace::Available));
    assert_eq!(deck.place(1), Some(CardPlace::Held(1)));
}

#[test]
fn nothing_is_drawn_when_every_card_is_held() {
    let mut deck = CardEconomy::standard_deck_with_offset(2, 0);
    for _ in 0..44 {
        deck.draw_for(1, 3);
    }
    assert_eq!(deck.draw_for(0, 0), None);
    assert_eq!(deck.draw_random_for(0), None);
    assert_eq!(deck.hand_size(1), 44);
    assert_eq!(deck.hand_size(0), 0);
}

#[test]
fn the_number_of_cards_never_changes() {
    let mut deck = CardEconomy::standard_deck(3);
    assert_eq!(total(&deck, 3), 44);
    for step in 0..300usize {
        let player = (step % 3) as u8;
        if step % 5 < 3 {
            deck.draw_random_for(player);
        } else {
            let hand = deck.hand_of(player);
            if hand.len() > 0 {
                let (_, id) = hand[step % hand.len()];
                assert!(deck.discard(player, id));
            }
        }
        if step % 17 == 0 {
            deck.recycle_discards();
        }
        assert_eq!(total(&deck, 3), 44);
        assert_eq!(deck.num_cards(), 44);
    }
}

#[test]
fn a_discarded_card_can_be_drawn_again_after_recycling() {
    let mut deck = CardEconomy::standard_deck_with_offset(2, 0);
    deck.draw_for(0, 12);
    assert!(deck.discard(0, 12));
    assert_eq!(total(&deck, 2), 44);
    deck.recycle_discards();
    assert_eq!(deck.place(12), Some(CardPlace::Available));
    assert_eq!(deck.num_available(), 44);
    assert_eq!(total(&deck, 2), 44);
    assert_eq!(deck.draw_for(1, 12), Some(12));
    assert_eq!(total(&deck, 2), 44);
}

#[test]
fn a_trade_must_claim_cards_that_the_player_holds() {
    let mut deck = CardEconomy::standard_deck_with_offset(2, 0);
    deck.draw_for(0, 0);
    deck.draw_for(0, 2);
    deck.draw_for(0, 4);
    deck.draw_for(1, 0);
    let held = Trade::new([
        (Card::Territory(0, CardSymbol::Infantry), 0),
        (Card::Territory(3, CardSymbol::Infantry), 3),
        (Card::Territory(6, CardSymbol::Infantry), 6),
    ]);
    assert!(deck.player_has_exactly_these_three(0, &held));
    assert!(!deck.player_has_exactly_these_three(1, &held));
    let other_players = Trade::new([
        (Card::Territory(0, CardSymbol::Infantry), 0),
        (Card::Territory(3, CardSymbol::Infantry), 3),
        (Card::Territory(1, CardSymbol::Cavalry), 1),
    ]);
    assert!(!deck.player_has_exactly_these_three(0, &other_players));
    let not_drawn = Trade::new([
        (Card::Territory(0, CardSymbol::Infantry), 0),
        (Card::Territory(3, CardSymbol::Infantry), 3),
        (Card::Territory(9, CardSymbol::Infantry), 9),
    ]);
    assert!(!deck.player_has_exactly_these_three(0, &not_drawn));
    let off_the_catalog = Trade::new([
        (Card::Territory(0, CardSymbol::Infantry), 0),
        (Card::Territory(3, CardSymbol::Infantry), 3),
        (Card::Wild, 44),
    ]);
    assert!(!deck.player_has_exactly_these_three(0, &off_the_catalog));
}

#[test]
fn a_trade_must_claim_each_card_with_its_true_value() {
    let mut deck = CardEconomy::standard_deck_with_offset(2, 0);
    deck.draw_for(0, 0);
    deck.draw_for(0, 2);
    deck.draw_for(0, 4);
    let wrong_symbol = Trade::new([
        (Card::Territory(0, CardSymbol::Infantry), 0),
        (Card::Territory(3, CardSymbol::Infantry), 3),
        (Card::Territory(6, CardSymbol::Cavalry), 6),
    ]);
    assert!(!deck.player_has_exactly_these_three(0, &wrong_symbol));
    let wrong_territory = Trade::new([
        (Card::Territory(0, CardSymbol::Infantry), 0),
        (Card::Territory(3, CardSymbol::Infantry), 3),
        (Card::Territory(7, CardSymbol::Infantry), 6),
    ]);
    assert!(!deck.player_has_exactly_these_three(0, &wrong_territory));
    let wild_claimed = Trade::new([
        (Card::Territory(0, CardSymbol::Infantry), 0),
        (Card::Territory(3, CardSymbol::Infantry), 3),
        (Card::Wild, 6),
    ]);
    assert!(!deck.player_has_exactly_these_three(0, &wild_claimed));
}
