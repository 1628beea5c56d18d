use risk::{Card, CardSymbol, Trade};

fn territory(t: u8, symbol: CardSymbol) -> Card {
    Card::Territory(t, symbol)
}

fn trade_of(a: Card, b: Card, c: Card) -> Trade {
    Trade::new([(a, 0), (b, 1), (c, 2)])
}

#[test]
fn symbols_are_numbered_in_cycle_order() {
    assert_eq!(CardSymbol::from_usize(0), Some(CardSymbol::Infantry));
    assert_eq!(CardSymbol::from_usize(1), Some(CardSymbol::Cavalry));
    assert_eq!(CardSymbol::from_usize(2), Some(CardSymbol::Artillery));
    assert_eq!(CardSymbol::from_usize(3), None);
    assert_eq!(CardSymbol::from_usize(usize::MAX), None);
}

#[test]
fn a_wild_card_has_neither_symbol_nor_territory() {
    assert!(Card::Wild.is_wild());
    assert_eq!(Card::Wild.get_symbol(), None);
    assert_eq!(Card::Wild.get_territory(), None);
}

#[test]
fn a_territory_card_has_symbol_and_territory() {
    let card = territory(17, CardSymbol::Artillery);
    assert!(!card.is_wild());
    assert_eq!(card.get_symbol(), Some(CardSymbol::Artillery));
    assert_eq!(card.get_territory(), Some(17));
}

#[test]
fn trade_keeps_its_cards() {
    let cards = [(territory(3, CardSymbol::Infantry), 7), (Card::Wild, 43), (territory(9, CardSymbol::Cavalry), 9)];
    let trade = Trade::new(cards);
    assert_eq!(trade.cards, cards);
    assert_eq!(
        trade.cards_as_tuple(),
        (territory(3, CardSymbol::Infantry), Card::Wild, territory(9, CardSymbol::Cavalry))
    );
}

#[test]
fn three_infantry_are_worth_four() {
    let trade = trade_of(
        territory(0, CardSymbol::Infantry),
        territory(3, CardSymbol::Infantry),
        territory(6, CardSymbol::Infantry),
    );
    assert!(trade.is_set());
    assert!(trade.is_non_wild_set());
    assert!(!trade.contains_wild());
    assert_eq!(trade.num_wild(), 0);
    assert_eq!(trade.value(), 4);
}

#[test]
fn three_cavalry_are_worth_six_and_three_artillery_eight() {
    let cavalry = trade_of(
        territory(1, CardSymbol::Cavalry),
        territory(4, CardSymbol::Cavalry),
        territory(7, CardSymbol::Cavalry),
    );
    assert_eq!(cavalry.value(), 6);
    let artillery = trade_of(
        territory(2, CardSymbol::Artillery),
        territory(5, CardSymbol::Artillery),
        territory(8, CardSymbol::Artillery),
    );
    assert_eq!(artillery.value(), 8);
}

#[test]
fn uniform_values_by_symbol() {
    assert_eq!(Trade::value_for_uniform_set(CardSymbol::Infantry), 4);
    assert_eq!(Trade::value_for_uniform_set(CardSymbol::Cavalry), 6);
    assert_eq!(Trade::value_for_uniform_set(CardSymbol::Artillery), 8);
}

#[test]
fn one_of_each_symbol_is_worth_ten() {
    let symbols = [CardSymbol::Infantry, CardSymbol::Cavalry, CardSymbol::Artillery];
    let orders = [[0, 1, 2], [0, 2, 1], [1, 0, 2], [1, 2, 0], [2, 0, 1], [2, 1, 0]];
    for order in orders.iter() {
        let trade = trade_of(
            territory(0, symbols[order[0]]),
            territory(1, symbols[order[1]]),
            territory(2, symbols[order[2]]),
        );
        assert!(trade.is_set());
        assert!(trade.is_non_wild_set());
        assert_eq!(trade.value(), 10);
    }
}

#[test]
fn two_alike_and_one_different_are_no_set() {
    let symbols = [CardSymbol::Infantry, CardSymbol::Cavalry, CardSymbol::Artillery];
    for a in symbols.iter() {
        for b in symbols.iter() {
            if a == b {
                continue;
            }
            for trade in [
                trade_of(territory(0, *a), territory(1, *a), territory(2, *b)),
                trade_of(territory(0, *a), territory(1, *b), territory(2, *a)),
                trade_of(territory(0, *b), territory(1, *a), territory(2, *a)),
            ] {
                assert!(!trade.is_set());
                assert!(!trade.is_non_wild_set());
                assert_eq!(trade.value(), 0);
            }
        }
    }
}

#[test]
fn one_wild_and_two_cavalry_are_worth_six() {
    let cavalry_a = territory(1, CardSymbol::Cavalry);
    let cavalry_b = territory(4, CardSymbol::Cavalry);
    for trade in [
        trade_of(Card::Wild, cavalry_a, cavalry_b),
        trade_of(cavalry_a, Card::Wild, cavalry_b),
        trade_of(cavalry_a, cavalry_b, Card::Wild),
    ] {
        assert!(trade.is_set());
        assert!(trade.contains_wild());
        assert!(!trade.is_non_wild_set());
        assert_eq!(trade.num_wild(), 1);
        assert_eq!(trade.value(), 6);
    }
}

#[test]
fn one_wild_and_two_alike_take_the_value_of_the_symbol() {
    let infantry = trade_of(
        territory(0, CardSymbol::Infantry),
        Card::Wild,
        territory(3, CardSymbol::Infantry),
    );
    assert_eq!(infantry.value(), 4);
    let artillery = trade_of(
        Card::Wild,
        territory(2, CardSymbol::Artillery),
        territory(5, CardSymbol::Artillery),
    );
    assert_eq!(artillery.value(), 8);
}

#[test]
fn one_wild_and_two_different_are_worth_ten() {
    let infantry = territory(0, CardSymbol::Infantry);
    let artillery = territory(2, CardSymbol::Artillery);
    for trade in [
        trade_of(Card::Wild, infantry, artillery),
        trade_of(artillery, Card::Wild, infantry),
        trade_of(infantry, artillery, Card::Wild),
    ] {
        assert!(trade.is_set());
        assert_eq!(trade.value(), 10);
    }
}

#[test]
fn two_wilds_and_any_third_are_worth_ten() {
    let thirds = [
        territory(0, CardSymbol::Infantry),
        territory(1, CardSymbol::Cavalry),
        territory(2, CardSymbol::Artillery),
        Card::Wild,
    ];
    for third in thirds.iter() {
        for trade in [
            trade_of(Card::Wild, Card::Wild, *third),
            trade_of(Card::Wild, *third, Card::Wild),
            trade_of(*third, Card::Wild, Card::Wild),
        ] {
            assert!(trade.is_set());
            assert!(trade.num_wild() >= 2);
            assert_eq!(trade.value(), 10);
        }
    }
}

#[test]
fn the_same_territory_on_two_cards_does_not_matter() {
    let trade = trade_of(
        Card::Wild,
        territory(5, CardSymbol::Cavalry),
        territory(5, CardSymbol::Artillery),
    );
    assert_eq!(trade.value(), 10);
    let alike = trade_of(
        territory(5, CardSymbol::Cavalry),
        Card::Wild,
        territory(6, CardSymbol::Cavalry),
    );
    assert_eq!(alike.value(), 6);
}
