//! Cards, their symbols, and the three-card trades built from them.

use vstd::prelude::*;
use crate::{CardAndId, NumArmies, TerritoryId};

verus! {

/// The symbol printed on a territory card.
#[derive(Copy, Clone, PartialEq, Eq, Debug, Structural)]
pub enum CardSymbol {
    Infantry,
    Cavalry,
    Artillery,
}

impl CardSymbol {
    /// The symbol numbered `x`, if `x` is below three.
    pub fn from_usize(x: usize) -> (r: Option<CardSymbol>)
        ensures
            r == Self::symbol_at(x as int),
    {
        match x {
            0 => Some(CardSymbol::Infantry),
            1 => Some(CardSymbol::Cavalry),
            2 => Some(CardSymbol::Artillery),
            _ => None,
        }
    }

    /// Symbols in their cyclic order: Infantry, Cavalry, Artillery.
    pub open spec fn symbol_at(x: int) -> Option<CardSymbol> {
        if x == 0 {
            Some(CardSymbol::Infantry)
        } else if x == 1 {
            Some(CardSymbol::Cavalry)
        } else if x == 2 {
            Some(CardSymbol::Artillery)
        } else {
            None
        }
    }
}

/// A card: either tied to a territory and carrying a symbol, or wild.
#[derive(Copy, Clone, Debug, PartialEq, Eq, Structural)]
pub enum Card {
    Territory(TerritoryId, CardSymbol),
    Wild,
}

impl Card {
    /// Whether the card is wild.
    pub fn is_wild(&self) -> (r: bool)
        ensures
            r == (*self is Wild),
    {
        match *self {
            Card::Wild => true,
            Card::Territory(_, _) => false,
        }
    }

    /// The symbol of a territory card; a wild card has none.
    pub fn get_symbol(&self) -> (r: Option<CardSymbol>)
        ensures
            r == self.symbol(),
    {
        match *self {
            Card::Territory(_, sym) => Some(sym),
            Card::Wild => None,
        }
    }

    /// The territory a card names; a wild card names none.
    pub fn get_territory(&self) -> (r: Option<TerritoryId>)
        ensures
            r == self.territory(),
    {
        match *self {
            Card::Territory(terr, _) => Some(terr),
            Card::Wild => None,
        }
    }

    /// The symbol of a territory card; a wild card has none.
    pub open spec fn symbol(self) -> Option<CardSymbol> {
        match self {
            Card::Territory(_, sym) => Some(sym),
            Card::Wild => None,
        }
    }

    /// The territory a card names; a wild card names none.
    pub open spec fn territory(self) -> Option<TerritoryId> {
        match self {
            Card::Territory(terr, _) => Some(terr),
            Card::Wild => None,
        }
    }
}

/// Armies granted by three cards of the one symbol `x`.
pub open spec fn uniform_set_value(x: CardSymbol) -> nat {
    match x {
        CardSymbol::Infantry => 4,
        CardSymbol::Cavalry => 6,
        CardSymbol::Artillery => 8,
    }
}

/// Armies granted by one card of each symbol.
pub open spec fn mixed_set_value() -> nat {
    10
}

/// How many of the three cards are wild.
pub open spec fn wild_count(a: Card, b: Card, c: Card) -> nat {
    (if a is Wild { 1nat } else { 0 }) + (if b is Wild { 1nat } else { 0 }) + (if c is Wild { 1nat } else { 0 })
}

/// Three territory cards form a set when their symbols are all alike or all
/// different; two alike and one different never do.
pub open spec fn forms_plain_set(a: Card, b: Card, c: Card) -> bool {
    match (a, b, c) {
        (Card::Territory(_, s0), Card::Territory(_, s1), Card::Territory(_, s2)) => {
            (s0 == s1 && s1 == s2) || (s0 != s1 && s1 != s2 && s0 != s2)
        },
        _ => false,
    }
}

/// Three cards form a set when one of them is wild or they form a plain set.
pub open spec fn forms_set(a: Card, b: Card, c: Card) -> bool {
    wild_count(a, b, c) > 0 || forms_plain_set(a, b, c)
}

/// The symbol shared by every territory card among the three, when at least
/// two of them are territory cards and they all agree.
pub open spec fn shared_symbol(a: Card, b: Card, c: Card) -> Option<CardSymbol> {
    match (a, b, c) {
        (Card::Territory(_, s0), Card::Territory(_, s1), Card::Territory(_, s2)) => if s0 == s1 && s1 == s2 {
            Some(s0)
        } else {
            None
        },
        (Card::Wild, Card::Territory(_, s1), Card::Territory(_, s2)) => if s1 == s2 {
            Some(s1)
        } else {
            None
        },
        (Card::Territory(_, s0), Card::Wild, Card::Territory(_, s2)) => if s0 == s2 {
            Some(s0)
        } else {
            None
        },
        (Card::Territory(_, s0), Card::Territory(_, s1), Card::Wild) => if s0 == s1 {
            Some(s0)
        } else {
            None
        },
        _ => None,
    }
}

/// Bonus armies for trading in three cards: nothing unless they form a set;
/// the uniform value of the symbol that all territory cards share when at most
/// one card is wild; ten otherwise.
pub open spec fn set_value(a: Card, b: Card, c: Card) -> nat {
    if !forms_set(a, b, c) {
        0
    } else {
        match shared_symbol(a, b, c) {
            Some(s) => uniform_set_value(s),
            None => mixed_set_value(),
        }
    }
}

/// Whether three cards form a set does not depend on their order.
pub proof fn lemma_forms_set_any_order(a: Card, b: Card, c: Card)
    ensures
        forms_set(a, b, c) == forms_set(a, c, b),
        forms_set(a, b, c) == forms_set(b, a, c),
        forms_set(a, b, c) == forms_set(b, c, a),
        forms_set(a, b, c) == forms_set(c, a, b),
        forms_set(a, b, c) == forms_set(c, b, a),
{
}

/// Whether three different cards of the hand form a set.
pub open spec fn holds_set(cards: Seq<CardAndId>) -> bool {
    exists|a: int, b: int, c: int|
        0 <= a < cards.len() && 0 <= b < cards.len() && 0 <= c < cards.len() && a != b && b != c && a != c
            && forms_set(#[trigger] cards[a].0, #[trigger] cards[b].0, #[trigger] cards[c].0)
}

/// Any five cards hold a set: a wild card makes one with any two others,
/// and five territory cards show one symbol three times or all three.
pub proof fn lemma_five_cards_hold_a_set(cards: Seq<CardAndId>)
    requires
        cards.len() >= 5,
    ensures
        holds_set(cards),
{
    let (c0, c1, c2, c3, c4) = (cards[0].0, cards[1].0, cards[2].0, cards[3].0, cards[4].0);
    if forms_set(c0, c1, c2) {
    } else if forms_set(c0, c1, c3) {
    } else if forms_set(c0, c1, c4) {
    } else if forms_set(c0, c2, c3) {
    } else if forms_set(c0, c2, c4) {
    } else if forms_set(c0, c3, c4) {
    } else if forms_set(c1, c2, c3) {
    } else if forms_set(c1, c2, c4) {
    } else if forms_set(c1, c3, c4) {
    } else {
        assert(forms_set(c2, c3, c4));
    }
}

/// A proposal to trade in three cards of one player's hand.
pub struct Trade {
    pub cards: [CardAndId; 3],
}

impl Trade {
    /// A trade of the three cards claimed, each with its index.
    pub fn new(cards: [CardAndId; 3]) -> (t: Trade)
        ensures
            t.cards == cards,
    {
        Trade { cards: cards }
    }

    /// The card claimed in place `i`.
    pub open spec fn card(self, i: int) -> Card {
        self.cards[i].0
    }

    /// The catalog index claimed in place `i`.
    pub open spec fn id(self, i: int) -> crate::CardId {
        self.cards[i].1
    }

    /// The three cards without their indices.
    pub fn cards_as_tuple(&self) -> (r: (Card, Card, Card))
        ensures
            r == (self.card(0), self.card(1), self.card(2)),
    {
        (self.cards[0].0, self.cards[1].0, self.cards[2].0)
    }

    /// Whether the three cards form a set.
    pub fn is_set(&self) -> (r: bool)
        ensures
            r == forms_set(self.card(0), self.card(1), self.card(2)),
    {
        self.contains_wild() || self.is_non_wild_set()
    }

    /// Whether one of the three cards is wild.
    pub fn contains_wild(&self) -> (r: bool)
        ensures
            r == (wild_count(self.card(0), self.card(1), self.card(2)) > 0),
    {
        self.num_wild() > 0
    }

    /// How many of the three cards are wild.
    pub fn num_wild(&self) -> (r: usize)
        ensures
            r == wild_count(self.card(0), self.card(1), self.card(2)),
    {
        let mut count: usize = 0;
        if self.cards[0].0.is_wild() {
            count += 1;
        }
        if self.cards[1].0.is_wild() {
            count += 1;
        }
        if self.cards[2].0.is_wild() {
            count += 1;
        }
        count
    }

    /// Whether the three cards hold no wild card and still form a set.
    pub fn is_non_wild_set(&self) -> (r: bool)
        ensures
            r == forms_plain_set(self.card(0), self.card(1), self.card(2)),
    {
        match self.cards_as_tuple() {
            (Card::Territory(_, symbol0), Card::Territory(_, symbol1), Card::Territory(_, symbol2)) => {
                if symbol0 == symbol1 && symbol1 == symbol2 {
                    true
                } else if symbol0 != symbol1 && symbol1 != symbol2 && symbol0 != symbol2 {
                    true
                } else {
                    false
                }
            },
            _ => false,
        }
    }

    /// The armies that the trade is worth: nothing unless the cards form a
    /// set.
    pub fn value(&self) -> (r: NumArmies)
        ensures
            r == set_value(self.card(0), self.card(1), self.card(2)),
    {
        if !self.is_set() {
            0
        } else {
            match self.cards_as_tuple() {
                (Card::Territory(_, sym0), Card::Territory(_, sym1), Card::Territory(_, sym2)) => {
                    if sym0 == sym1 && sym1 == sym2 {
                        Trade::value_for_uniform_set(sym0)
                    } else {
                        10
                    }
                },
                cards => {
                    if self.num_wild() >= 2 {
                        10
                    } else {
                        let (first, second) = if cards.0.is_wild() {
                            (cards.1, cards.2)
                        } else if cards.1.is_wild() {
                            (cards.2, cards.0)
                        } else {
                            (cards.0, cards.1)
                        };
                        match (first.get_symbol(), second.get_symbol()) {
                            (Some(s), Some(t)) => if s == t {
                                Trade::value_for_uniform_set(s)
                            } else {
                                10
                            },
                            _ => 10,
                        }
                    }
                },
            }
        }
    }

    /// Value of a set in which every card carries the symbol `x`.
    pub fn value_for_uniform_set(x: CardSymbol) -> (r: NumArmies)
        ensures
            r == uniform_set_value(x),
    {
        match x {
            CardSymbol::Infantry => 4,
            CardSymbol::Cavalry => 6,
            CardSymbol::Artillery => 8,
        }
    }
}

/// Whether `trade` names three cards in different places of the hand.
pub open spec fn taken_from(trade: Trade, cards: Seq<CardAndId>) -> bool {
    exists|a: int, b: int, c: int|
        0 <= a < cards.len() && 0 <= b < cards.len() && 0 <= c < cards.len() && a != b && b != c && a != c
            && trade.cards@ == seq![#[trigger] cards[a], #[trigger] cards[b], #[trigger] cards[c]]
}

} // verus!
