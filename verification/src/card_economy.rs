//! The card economy: a fixed catalog of cards, each of which is at any time
//! drawable, discarded, or in one player's hand.

use vstd::prelude::*;
use crate::cards::{Card, CardSymbol, Trade};
use crate::random::random_in_range;
use crate::{CardAndId, CardId, PlayerId, TerritoryId};

verus! {

/// Where a card of the catalog is.
#[derive(Copy, Clone, PartialEq, Eq, Debug, Structural)]
pub enum CardPlace {
    /// In the pool that players draw from.
    Available,
    /// On the discard pile.
    Discarded,
    /// In the hand of the player named.
    Held(PlayerId),
}

/// What the economy holds, as plain values.
pub ghost struct EconomyState {
    /// The cards, by card index; fixed when the deck is made.
    pub catalog: Seq<Card>,
    /// The place of each card, by card index.
    pub places: Seq<CardPlace>,
    /// Number of players; valid player indices lie below it.
    pub num_players: nat,
}

impl EconomyState {
    /// Every card has one place, and every card in a hand is in the hand of a
    /// valid player. The catalog is small enough for a hand to be counted in
    /// one byte.
    pub open spec fn valid(self) -> bool {
        &&& self.places.len() == self.catalog.len()
        &&& self.catalog.len() <= 255
        &&& self.num_players <= 255
        &&& forall|id: int|
            0 <= id < self.places.len() ==> ((#[trigger] self.places[id]) matches CardPlace::Held(p) ==> p
                < self.num_players)
    }

    /// The cards with index below `n` that are at `place`, in rising order.
    pub open spec fn ids_at_below(self, place: CardPlace, n: nat) -> Seq<CardId>
        decreases n,
    {
        if n == 0 {
            Seq::empty()
        } else {
            let rest = self.ids_at_below(place, (n - 1) as nat);
            if self.places[n - 1] == place {
                rest.push((n - 1) as CardId)
            } else {
                rest
            }
        }
    }

    /// The cards at `place`, in rising order.
    pub open spec fn ids_at(self, place: CardPlace) -> Seq<CardId> {
        self.ids_at_below(place, self.places.len())
    }

    /// The cards that can be drawn.
    pub open spec fn available(self) -> Seq<CardId> {
        self.ids_at(CardPlace::Available)
    }

    /// The cards on the discard pile.
    pub open spec fn discarded(self) -> Seq<CardId> {
        self.ids_at(CardPlace::Discarded)
    }

    /// The cards in the hand of `player`.
    pub open spec fn hand(self, player: PlayerId) -> Seq<CardId> {
        self.ids_at(CardPlace::Held(player))
    }

    /// The hand of `player`, each card with its index.
    pub open spec fn hand_cards(self, player: PlayerId) -> Seq<CardAndId> {
        self.hand(player).map_values(|id: CardId| (self.catalog[id as int], id))
    }

    /// Whether card `id` exists and is in the hand of `player`.
    pub open spec fn holds(self, player: PlayerId, id: CardId) -> bool {
        id < self.places.len() && self.places[id as int] == CardPlace::Held(player)
    }

    /// Whether `player` holds the card claimed in place `i` of `trade`, and
    /// the catalog records under that index the very card claimed.
    pub open spec fn holds_claimed(self, player: PlayerId, trade: Trade, i: int) -> bool {
        self.holds(player, trade.id(i)) && self.catalog[trade.id(i) as int] == trade.card(i)
    }

    /// Whether `player` holds each of the three cards that `trade` claims.
    pub open spec fn has_these_three(self, player: PlayerId, trade: Trade) -> bool {
        self.holds_claimed(player, trade, 0) && self.holds_claimed(player, trade, 1) && self.holds_claimed(
            player,
            trade,
            2,
        )
    }

    /// The state with card `id` moved to `place`.
    pub open spec fn with_place(self, id: CardId, place: CardPlace) -> EconomyState {
        EconomyState { places: self.places.update(id as int, place), ..self }
    }

    /// The state with the whole discard pile made drawable again.
    pub open spec fn with_discards_recycled(self) -> EconomyState {
        EconomyState {
            places: Seq::new(
                self.places.len(),
                |id: int|
                    if self.places[id] == CardPlace::Discarded {
                        CardPlace::Available
                    } else {
                        self.places[id]
                    },
            ),
            ..self
        }
    }

    /// The state from which a card is drawn: the discard pile is recycled
    /// first if nothing is drawable.
    pub open spec fn ready_to_draw(self) -> EconomyState {
        if self.available().len() == 0 {
            self.with_discards_recycled()
        } else {
            self
        }
    }

    /// The card that `pick` selects among the drawable ones, counting in
    /// rising order and cyclically.
    pub open spec fn picked(self, pick: nat) -> CardId {
        self.available()[(pick % self.available().len()) as int]
    }

    /// The state after `player` draws the card that `pick` selects; nothing
    /// changes but the recycling if no card can be drawn.
    pub open spec fn after_draw(self, player: PlayerId, pick: nat) -> EconomyState {
        let ready = self.ready_to_draw();
        if ready.available().len() == 0 {
            ready
        } else {
            ready.with_place(ready.picked(pick), CardPlace::Held(player))
        }
    }

    /// The state after `player` discards card `id`; unchanged if `player`
    /// does not hold it.
    pub open spec fn after_discard(self, player: PlayerId, id: CardId) -> EconomyState {
        if self.holds(player, id) {
            self.with_place(id, CardPlace::Discarded)
        } else {
            self
        }
    }

    /// How many of the cards with index below `n` are in the hands of the
    /// first `k` players.
    pub open spec fn held_below(self, k: nat, n: nat) -> nat
        decreases k,
    {
        if k == 0 {
            0
        } else {
            self.held_below((k - 1) as nat, n) + self.ids_at_below(CardPlace::Held((k - 1) as PlayerId), n).len()
        }
    }

    /// The number of cards in the hands of all players together.
    pub open spec fn held(self) -> nat {
        self.held_below(self.num_players, self.places.len())
    }
}

/// The symbol of territory card `index` in a deck made with `offset`.
pub open spec fn deck_symbol(index: int, offset: int) -> CardSymbol {
    let k = (index + offset) % 3;
    if k == 0 {
        CardSymbol::Infantry
    } else if k == 1 {
        CardSymbol::Cavalry
    } else {
        CardSymbol::Artillery
    }
}

/// The catalog of the standard deck made with `offset`: one card for each of
/// the forty-two territories, their symbols cycling from `offset`, and two
/// wild cards.
pub open spec fn standard_catalog(offset: nat) -> Seq<Card> {
    Seq::new(
        44,
        |i: int|
            if i < 42 {
                Card::Territory(i as TerritoryId, deck_symbol(i, offset as int))
            } else {
                Card::Wild
            },
    )
}

/// The standard deck made with `offset` before any card is drawn.
pub open spec fn fresh_deck(num_players: PlayerId, offset: nat) -> EconomyState {
    EconomyState {
        catalog: standard_catalog(offset),
        places: Seq::new(44, |i: int| CardPlace::Available),
        num_players: num_players as nat,
    }
}

/// Everything `ids_at_below` lists is at the place and below the bound;
/// everything at the place and below the bound is listed; the list rises
/// strictly.
pub proof fn lemma_ids_at_below(state: EconomyState, place: CardPlace, n: nat)
    requires
        n <= state.places.len() <= usize::MAX,
    ensures
        state.ids_at_below(place, n).len() <= n,
        forall|id: CardId| #[trigger]
            state.ids_at_below(place, n).contains(id) <==> id < n && state.places[id as int] == place,
        forall|i: int, j: int|
            0 <= i < j < state.ids_at_below(place, n).len() ==> state.ids_at_below(place, n)[i]
                < state.ids_at_below(place, n)[j],
    decreases n,
{
    if n > 0 {
        let m = (n - 1) as nat;
        let rest = state.ids_at_below(place, m);
        lemma_ids_at_below(state, place, m);
        let last = m as CardId;
        let all = state.ids_at_below(place, n);
        if state.places[m as int] == place {
            assert forall|id: CardId| all.contains(id) <==> (id < n && state.places[id as int] == place) by {
                if all.contains(id) {
                    let i = choose|i: int| 0 <= i < all.len() && all[i] == id;
                    if i < rest.len() {
                        assert(rest[i] == id);
                        assert(rest.contains(id));
                    }
                }
                if id < n && state.places[id as int] == place {
                    if id == last {
                        assert(all[rest.len() as int] == id);
                    } else {
                        assert(rest.contains(id));
                        let i = choose|i: int| 0 <= i < rest.len() && rest[i] == id;
                        assert(all[i] == id);
                    }
                }
            }
            assert forall|i: int, j: int| 0 <= i < j < all.len() implies all[i] < all[j] by {
                if j < rest.len() {
                    assert(rest[i] < rest[j]);
                } else {
                    assert(rest.contains(rest[i]));
                }
            }
        } else {
            assert forall|id: CardId| all.contains(id) <==> (id < n && state.places[id as int] == place) by {
                if id == last {
                    assert(state.places[id as int] != place);
                }
            }
        }
    }
}

/// The cards listed below a bound are the first of those listed below any
/// higher bound.
pub proof fn lemma_ids_at_below_prefix(state: EconomyState, place: CardPlace, n: nat, m: nat)
    requires
        n <= m,
    ensures
        state.ids_at_below(place, n).len() <= state.ids_at_below(place, m).len(),
        state.ids_at_below(place, n) == state.ids_at_below(place, m).take(
            state.ids_at_below(place, n).len() as int,
        ),
    decreases m,
{
    if n < m {
        lemma_ids_at_below_prefix(state, place, n, (m - 1) as nat);
        let shorter = state.ids_at_below(place, (m - 1) as nat);
        let k = state.ids_at_below(place, n).len() as int;
        assert(state.ids_at_below(place, m).take(k) =~= shorter.take(k));
    } else {
        assert(state.ids_at_below(place, m).take(state.ids_at_below(place, n).len() as int) =~= state.ids_at_below(
            place,
            n,
        ));
    }
}

/// Two states whose first `n` places agree list the same cards below `n`.
pub proof fn lemma_ids_at_below_agree(a: EconomyState, b: EconomyState, place: CardPlace, n: nat)
    requires
        n <= a.places.len(),
        n <= b.places.len(),
        forall|id: int| 0 <= id < n ==> (a.places[id] == place <==> b.places[id] == place),
    ensures
        a.ids_at_below(place, n) == b.ids_at_below(place, n),
    decreases n,
{
    if n > 0 {
        lemma_ids_at_below_agree(a, b, place, (n - 1) as nat);
    }
}

/// Moving one card changes the lists of two places by that card and leaves
/// every other list alone.
pub proof fn lemma_with_place_lengths(state: EconomyState, id: CardId, to: CardPlace, place: CardPlace, n: nat)
    requires
        n <= state.places.len(),
        id < state.places.len(),
        state.places[id as int] != to,
    ensures
        state.with_place(id, to).ids_at_below(place, n).len() == state.ids_at_below(place, n).len() + (if id < n
            && place == to {
            1int
        } else {
            0
        }) - (if id < n && place == state.places[id as int] {
            1int
        } else {
            0
        }),
    decreases n,
{
    if n > 0 {
        lemma_with_place_lengths(state, id, to, place, (n - 1) as nat);
    }
}

/// Recycling empties the discard pile into the drawable pool and leaves every
/// hand alone.
pub proof fn lemma_recycled_lengths(state: EconomyState, place: CardPlace, n: nat)
    requires
        n <= state.places.len(),
    ensures
        state.with_discards_recycled().ids_at_below(place, n).len() == (match place {
            CardPlace::Available => state.ids_at_below(CardPlace::Available, n).len() + state.ids_at_below(
                CardPlace::Discarded,
                n,
            ).len(),
            CardPlace::Discarded => 0,
            CardPlace::Held(_) => state.ids_at_below(place, n).len(),
        }),
        place is Held ==> state.with_discards_recycled().ids_at_below(place, n) == state.ids_at_below(place, n),
    decreases n,
{
    if n > 0 {
        lemma_recycled_lengths(state, place, (n - 1) as nat);
    }
}

/// One more card index adds one to the count of held cards exactly when
/// that card is in the hand of one of the players counted.
proof fn lemma_held_below_step(state: EconomyState, k: nat, n: nat)
    requires
        0 < n <= state.places.len(),
        k <= 256,
    ensures
        state.held_below(k, n) == state.held_below(k, (n - 1) as nat) + (if (state.places[n - 1] matches CardPlace::Held(
            q,
        ) && q < k) {
            1nat
        } else {
            0
        }),
    decreases k,
{
    if k > 0 {
        lemma_held_below_step(state, (k - 1) as nat, n);
    }
}

/// Of the first `n` cards, each is counted once: as drawable, as discarded,
/// or as held.
proof fn lemma_places_counted(state: EconomyState, n: nat)
    requires
        state.valid(),
        n <= state.places.len(),
    ensures
        state.ids_at_below(CardPlace::Available, n).len() + state.ids_at_below(CardPlace::Discarded, n).len()
            + state.held_below(state.num_players, n) == n,
    decreases n,
{
    if n > 0 {
        lemma_places_counted(state, (n - 1) as nat);
        lemma_held_below_step(state, state.num_players, n);
        assert(state.places[n - 1] matches CardPlace::Held(p) ==> p < state.num_players);
    } else {
        lemma_held_below_none(state, state.num_players);
    }
}

/// Nobody holds a card with an index below zero.
proof fn lemma_held_below_none(state: EconomyState, k: nat)
    ensures
        state.held_below(k, 0) == 0,
    decreases k,
{
    if k > 0 {
        lemma_held_below_none(state, (k - 1) as nat);
    }
}

/// Every card is listed in exactly one place: in the drawable pool, on the
/// discard pile, or in the hand of one player.
pub proof fn lemma_card_in_one_place(state: EconomyState, id: CardId)
    requires
        state.valid(),
        id < state.catalog.len(),
    ensures
        state.ids_at(state.places[id as int]).contains(id),
        forall|place: CardPlace| #[trigger] state.ids_at(place).contains(id) ==> place == state.places[id as int],
        state.places[id as int] matches CardPlace::Held(p) ==> p < state.num_players,
{
    lemma_ids_at_below(state, state.places[id as int], state.places.len());
    assert forall|place: CardPlace| #[trigger] state.ids_at(place).contains(id) implies place
        == state.places[id as int] by {
        lemma_ids_at_below(state, place, state.places.len());
    }
}

/// At all times the drawable pool, the discard pile and the hands of the
/// players hold, together, exactly the cards of the catalog.
pub proof fn lemma_cards_conserved(state: EconomyState)
    requires
        state.valid(),
    ensures
        state.available().len() + state.discarded().len() + state.held() == state.catalog.len(),
{
    lemma_places_counted(state, state.places.len());
}

/// Drawing, discarding and recycling keep the catalog and the validity of
/// the state, and so the total number of cards.
pub proof fn lemma_moves_keep_cards(state: EconomyState, player: PlayerId, id: CardId, pick: nat)
    requires
        state.valid(),
        player < state.num_players,
    ensures
        state.after_discard(player, id).valid(),
        state.after_discard(player, id).catalog == state.catalog,
        state.with_discards_recycled().valid(),
        state.with_discards_recycled().catalog == state.catalog,
        state.after_draw(player, pick).valid(),
        state.after_draw(player, pick).catalog == state.catalog,
{
    let ready = state.ready_to_draw();
    assert(ready.valid());
    if ready.available().len() > 0 {
        let k = (pick % ready.available().len()) as int;
        lemma_ids_at_below(ready, CardPlace::Available, ready.places.len());
        assert(ready.available().contains(ready.available()[k]));
    }
}

/// A card that is discarded and later recycled with the pile is drawable
/// again, and no card was gained or lost on the way.
pub proof fn lemma_discard_then_recycle(state: EconomyState, player: PlayerId, id: CardId)
    requires
        state.valid(),
        state.holds(player, id),
    ensures
        ({
            let recycled = state.after_discard(player, id).with_discards_recycled();
            &&& recycled.places[id as int] == CardPlace::Available
            &&& recycled.available().len() + recycled.discarded().len() + recycled.held() == state.available().len()
                + state.discarded().len() + state.held()
        }),
{
    let discarded = state.after_discard(player, id);
    let recycled = discarded.with_discards_recycled();
    assert(discarded.valid());
    assert(recycled.valid());
    lemma_cards_conserved(state);
    lemma_cards_conserved(recycled);
}

/// The cards of the game and the place of each.
pub struct CardEconomy {
    catalog: Vec<Card>,
    places: Vec<CardPlace>,
    num_players: PlayerId,
}

impl View for CardEconomy {
    type V = EconomyState;

    closed spec fn view(&self) -> EconomyState {
        EconomyState { catalog: self.catalog@, places: self.places@, num_players: self.num_players as nat }
    }
}

impl CardEconomy {
    /// The economy's invariant: its state is valid.
    pub open spec fn wf(&self) -> bool {
        self@.valid()
    }

    /// The standard deck for `num_players` players, its symbols cycling
    /// from `offset`; every card is drawable.
    pub fn standard_deck_with_offset(num_players: PlayerId, offset: usize) -> (deck: CardEconomy)
        ensures
            deck.wf(),
            deck@ == fresh_deck(num_players, offset as nat),
    {
        let mut catalog: Vec<Card> = Vec::new();
        let mut places: Vec<CardPlace> = Vec::new();
        let shift = offset % 3;
        let mut i: u8 = 0;
        while i < 42
            invariant
                i <= 42,
                shift == offset % 3,
                catalog.len() == i,
                places.len() == i,
                forall|k: int| 0 <= k < i ==> catalog[k] == standard_catalog(offset as nat)[k],
                forall|k: int| 0 <= k < i ==> places[k] == CardPlace::Available,
            decreases 42 - i,
        {
            let k = (i as usize % 3 + shift) % 3;
            assert(k == (i + offset) % 3) by {
                vstd::arithmetic::div_mod::lemma_add_mod_noop(i as int, offset as int, 3);
            }
            let symbol = match CardSymbol::from_usize(k) {
                Some(symbol) => symbol,
                None => CardSymbol::Infantry,
            };
            catalog.push(Card::Territory(i, symbol));
            places.push(CardPlace::Available);
            i += 1;
        }
        catalog.push(Card::Wild);
        catalog.push(Card::Wild);
        places.push(CardPlace::Available);
        places.push(CardPlace::Available);
        assert(catalog@ =~= standard_catalog(offset as nat));
        assert(places@ =~= Seq::new(44, |i: int| CardPlace::Available));
        CardEconomy { catalog: catalog, places: places, num_players: num_players }
    }

    /// The standard deck for `num_players` players, its symbols cycling
    /// from an offset drawn at random.
    pub fn standard_deck(num_players: PlayerId) -> (deck: CardEconomy)
        ensures
            deck.wf(),
            exists|offset: nat| offset < 3 && deck@ == fresh_deck(num_players, offset),
    {
        let offset = random_in_range(0, 3);
        let deck = CardEconomy::standard_deck_with_offset(num_players, offset);
        assert(offset < 3 && deck@ == fresh_deck(num_players, offset as nat));
        deck
    }

    /// The number of players that the deck was made for.
    pub fn num_players(&self) -> (r: PlayerId)
        ensures
            r == self@.num_players,
    {
        self.num_players
    }

    /// The number of cards in the catalog.
    pub fn num_cards(&self) -> (r: usize)
        ensures
            r == self@.catalog.len(),
    {
        self.catalog.len()
    }

    /// The card with index `id`, if the catalog has one.
    pub fn card(&self, id: CardId) -> (r: Option<Card>)
        ensures
            r == (if id < self@.catalog.len() {
                Some(self@.catalog[id as int])
            } else {
                None
            }),
    {
        if id < self.catalog.len() {
            Some(self.catalog[id])
        } else {
            None
        }
    }

    /// Where the card with index `id` is, if the catalog has one.
    pub fn place(&self, id: CardId) -> (r: Option<CardPlace>)
        ensures
            r == (if id < self@.places.len() {
                Some(self@.places[id as int])
            } else {
                None
            }),
    {
        if id < self.places.len() {
            Some(self.places[id])
        } else {
            None
        }
    }

    /// The number of cards at `place`.
    pub fn count_at(&self, place: CardPlace) -> (r: usize)
        requires
            self.wf(),
        ensures
            r == self@.ids_at(place).len(),
            r <= self@.catalog.len(),
    {
        let mut count: usize = 0;
        let mut i: usize = 0;
        while i < self.places.len()
            invariant
                i <= self.places.len(),
                count == self@.ids_at_below(place, i as nat).len(),
                count <= i,
            decreases self.places.len() - i,
        {
            if self.places[i] == place {
                count += 1;
            }
            i += 1;
        }
        count
    }

    /// The number of cards that can be drawn.
    pub fn num_available(&self) -> (r: usize)
        requires
            self.wf(),
        ensures
            r == self@.available().len(),
    {
        self.count_at(CardPlace::Available)
    }

    /// The number of cards on the discard pile.
    pub fn num_discarded(&self) -> (r: usize)
        requires
            self.wf(),
        ensures
            r == self@.discarded().len(),
    {
        self.count_at(CardPlace::Discarded)
    }

    /// The number of cards that can be drawn once the discard pile has been
    /// recycled, should nothing be drawable as it is.
    pub fn num_drawable(&self) -> (r: usize)
        requires
            self.wf(),
        ensures
            r == self@.ready_to_draw().available().len(),
    {
        let available = self.num_available();
        if available == 0 {
            proof {
                lemma_recycled_lengths(self@, CardPlace::Available, self@.places.len());
            }
            self.num_discarded()
        } else {
            available
        }
    }

    /// The number of cards in the hand of `player`.
    pub fn hand_size(&self, player: PlayerId) -> (r: u8)
        requires
            self.wf(),
        ensures
            r == self@.hand(player).len(),
    {
        self.count_at(CardPlace::Held(player)) as u8
    }

    /// The hand of `player`: each card with its index, in rising order of
    /// the indices.
    pub fn hand_of(&self, player: PlayerId) -> (r: Vec<CardAndId>)
        requires
            self.wf(),
        ensures
            r@ == self@.hand_cards(player),
    {
        let mut hand: Vec<CardAndId> = Vec::new();
        let place = CardPlace::Held(player);
        let mut i: usize = 0;
        while i < self.places.len()
            invariant
                self.wf(),
                place == CardPlace::Held(player),
                i <= self.places.len(),
                hand@ == self@.ids_at_below(place, i as nat).map_values(|id: CardId| (self@.catalog[id as int], id)),
            decreases self.places.len() - i,
        {
            if self.places[i] == place {
                hand.push((self.catalog[i], i));
            }
            i += 1;
            assert(hand@ =~= self@.ids_at_below(place, i as nat).map_values(
                |id: CardId| (self@.catalog[id as int], id),
            ));
        }
        hand
    }

    /// The card in position `k` of those at `place`, in rising order.
    fn nth_at(&self, place: CardPlace, k: usize) -> (id: CardId)
        requires
            self.wf(),
            k < self@.ids_at(place).len(),
        ensures
            id == self@.ids_at(place)[k as int],
            id < self@.places.len(),
            self@.places[id as int] == place,
    {
        let mut seen: usize = 0;
        let mut i: usize = 0;
        while i < self.places.len()
            invariant
                self.wf(),
                i <= self.places.len(),
                seen == self@.ids_at_below(place, i as nat).len(),
                seen <= k,
                k < self@.ids_at(place).len(),
            decreases self.places.len() - i,
        {
            if self.places[i] == place {
                if seen == k {
                    proof {
                        lemma_ids_at_below_prefix(self@, place, (i + 1) as nat, self@.places.len());
                        assert(self@.ids_at_below(place, (i + 1) as nat)[k as int] == i);
                    }
                    return i;
                }
                seen += 1;
            }
            i += 1;
        }
        0
    }

    /// Makes every discarded card drawable again.
    pub fn recycle_discards(&mut self)
        requires
            old(self).wf(),
        ensures
            final(self).wf(),
            final(self)@ == old(self)@.with_discards_recycled(),
    {
        let mut i: usize = 0;
        while i < self.places.len()
            invariant
                i <= self.places.len(),
                self.places.len() == old(self).places.len(),
                self.catalog == old(self).catalog,
                self.num_players == old(self).num_players,
                forall|k: int| 0 <= k < i ==> self.places[k] == old(self)@.with_discards_recycled().places[k],
                forall|k: int| i <= k < self.places.len() ==> self.places[k] == old(self).places[k],
            decreases self.places.len() - i,
        {
            if self.places[i] == CardPlace::Discarded {
                self.places[i] = CardPlace::Available;
            }
            i += 1;
        }
        assert(self@.places =~= old(self)@.with_discards_recycled().places);
    }

    /// Hands `player` the card that `pick` selects among the drawable ones,
    /// after recycling the discard pile if nothing is drawable. Returns the
    /// card's index, or nothing if there is still no card to draw.
    pub fn draw_for(&mut self, player: PlayerId, pick: usize) -> (drawn: Option<CardId>)
        requires
            old(self).wf(),
            player < old(self)@.num_players,
        ensures
            final(self).wf(),
            final(self)@ == old(self)@.after_draw(player, pick as nat),
            drawn == (if old(self)@.ready_to_draw().available().len() == 0 {
                None
            } else {
                Some(old(self)@.ready_to_draw().picked(pick as nat))
            }),
    {
        if self.num_available() == 0 {
            self.recycle_discards();
        }
        let available = self.num_available();
        if available == 0 {
            None
        } else {
            let id = self.nth_at(CardPlace::Available, pick % available);
            self.places[id] = CardPlace::Held(player);
            assert(self@.places =~= old(self)@.ready_to_draw().places.update(id as int, CardPlace::Held(player)));
            Some(id)
        }
    }

    /// Hands `player` a card chosen uniformly at random among the drawable
    /// ones, after recycling the discard pile if nothing is drawable.
    pub fn draw_random_for(&mut self, player: PlayerId) -> (drawn: Option<CardId>)
        requires
            old(self).wf(),
            player < old(self)@.num_players,
        ensures
            final(self).wf(),
            match drawn {
                Some(id) => {
                    &&& old(self)@.ready_to_draw().available().contains(id)
                    &&& final(self)@ == old(self)@.ready_to_draw().with_place(id, CardPlace::Held(player))
                },
                None => {
                    &&& old(self)@.ready_to_draw().available().len() == 0
                    &&& final(self)@ == old(self)@.ready_to_draw()
                },
            },
    {
        if self.num_available() == 0 {
            self.recycle_discards();
        }
        let available = self.num_available();
        if available == 0 {
            None
        } else {
            let pick = random_in_range(0, available);
            let drawn = self.draw_for(player, pick);
            proof {
                let ready = old(self)@.ready_to_draw();
                assert(ready.available().contains(ready.available()[pick as int]));
            }
            drawn
        }
    }

    /// Moves card `card_id` from the hand of `player` to the discard pile.
    /// Returns whether it did; nothing changes if `player` does not hold
    /// the card.
    pub fn discard(&mut self, player: PlayerId, card_id: CardId) -> (done: bool)
        requires
            old(self).wf(),
        ensures
            final(self).wf(),
            done == old(self)@.holds(player, card_id),
            final(self)@ == old(self)@.after_discard(player, card_id),
    {
        if card_id < self.places.len() && self.places[card_id] == CardPlace::Held(player) {
            self.places[card_id] = CardPlace::Discarded;
            assert(self@.places =~= old(self)@.places.update(card_id as int, CardPlace::Discarded));
            true
        } else {
            false
        }
    }

    /// Whether `player` holds each of the three cards that `trade` claims,
    /// under the index claimed and with the value claimed.
    pub fn player_has_exactly_these_three(&self, player: PlayerId, trade: &Trade) -> (r: bool)
        requires
            self.wf(),
        ensures
            r == self@.has_these_three(player, *trade),
    {
        let mut i: usize = 0;
        while i < 3
            invariant
                self.wf(),
                i <= 3,
                forall|k: int| 0 <= k < i ==> self@.holds_claimed(player, *trade, k),
            decreases 3 - i,
        {
            let (card, id) = trade.cards[i];
            if id >= self.places.len() || self.places[id] != CardPlace::Held(player) || self.catalog[id] != card {
                assert(!self@.holds_claimed(player, *trade, i as int));
                return false;
            }
            i += 1;
        }
        true
    }
}

} // verus!
