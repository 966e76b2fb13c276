//! The deck: building a fresh set of 52 cards, telling which cards are still
//! in the deck, and drawing one of them at random.

use vstd::prelude::*;
use rand::rngs::StdRng;
use rand::Rng;
use crate::color::Color;
use crate::color::Suit;
use crate::entity::Card;
use crate::entity::DECK_SIZE;
use crate::entity::MAX_RANK;
use crate::seq_util::lemma_filter_all;
use crate::seq_util::lemma_filter_member;
use crate::seq_util::lemma_filter_update_len;
use crate::store::Store;
use crate::store::StoreError;
use crate::store::StoreView;

verus! {

/// The generator of `rand` that draws are made with. Nothing is known of its state.
#[verifier::external_type_specification]
#[verifier::external_body]
pub struct ExStdRng(StdRng);

/// Calls `rand::Rng::gen_range` on the half-open range `0..n`. The call panics
/// on an empty range, so `n` must be positive; the number it returns lies in
/// the range. Which number that is depends on the generator and is not stated.
#[verifier::external_body]
fn random_below(rng: &mut StdRng, n: usize) -> (i: usize)
    requires
        n > 0,
    ensures
        i < n,
{
    rng.gen_range(0..n)
}

/// The cards that are in the deck: those nobody owns.
pub open spec fn unowned() -> spec_fn(Card) -> bool {
    |c: Card| c.owner_color is None
}

/// The cards that `color` owns.
pub open spec fn owned_by(color: Color) -> spec_fn(Card) -> bool {
    |c: Card| c.owner_color == Some(color)
}

/// The cards of `cards` that are in the deck, in their order.
pub open spec fn deck_of(cards: Seq<Card>) -> Seq<Card> {
    cards.filter(unowned())
}

/// The cards of `cards` that `color` owns, in their order.
pub open spec fn hand_of(cards: Seq<Card>, color: Color) -> Seq<Card> {
    cards.filter(owned_by(color))
}

/// The card at position `k` of a fresh deck whose keys start at `first_id`:
/// suits follow one another, each with its ranks from 1 to 13.
pub open spec fn fresh_card(first_id: u32, k: int) -> Card {
    Card {
        card_id: (first_id + k) as u32,
        suit: Suit::at(k / 13),
        value: (k % 13 + 1) as u8,
        owner_color: None,
    }
}

/// A fresh deck whose keys start at `first_id`.
pub open spec fn fresh_deck(first_id: u32) -> Seq<Card> {
    Seq::new(DECK_SIZE as nat, |k: int| fresh_card(first_id, k))
}

/// The store able to take one more deck of generated keys.
pub open spec fn deck_fits(s: StoreView) -> bool {
    s.next_card_id + DECK_SIZE <= u32::MAX
}

/// The store with a fresh deck appended to its cards.
pub open spec fn with_fresh_deck(s: StoreView) -> StoreView {
    StoreView {
        cards: s.cards + fresh_deck(s.next_card_id),
        next_card_id: (s.next_card_id + DECK_SIZE) as u32,
        ..s
    }
}

/// Appends a fresh deck of 52 cards, none of them owned, with generated keys.
pub fn create_new_deck(store: &mut Store)
    requires
        old(store)@.wf(),
        deck_fits(old(store)@),
    ensures
        final(store)@.wf(),
        final(store)@ == with_fresh_deck(old(store)@),
{
    let ghost before = store@;
    let mut s: u32 = 0;
    while s < 4
        invariant
            s <= 4,
            before.wf(),
            deck_fits(before),
            store@.wf(),
            store@ == (StoreView {
                cards: before.cards + fresh_deck(before.next_card_id).take(13 * s),
                next_card_id: (before.next_card_id + 13 * s) as u32,
                ..before
            }),
        decreases 4 - s,
    {
        let suit = match Suit::from_index(s) {
            Some(suit) => suit,
            None => Suit::Hearts,
        };
        let mut value: u8 = 1;
        while value <= MAX_RANK
            invariant
                s < 4,
                1 <= value <= MAX_RANK + 1,
                suit == Suit::at(s as int),
                before.wf(),
                deck_fits(before),
                store@.wf(),
                store@ == (StoreView {
                    cards: before.cards + fresh_deck(before.next_card_id).take(
                        13 * s + value - 1,
                    ),
                    next_card_id: (before.next_card_id + 13 * s + value - 1) as u32,
                    ..before
                }),
            decreases MAX_RANK + 1 - value,
        {
            let ghost k = 13 * s + value - 1;
            let ghost prior = store@;
            let r = store.insert_card(Card { card_id: 0, suit, value, owner_color: None });
            proof {
                let deck = fresh_deck(before.next_card_id);
                assert(r == Ok::<Card, StoreError>(fresh_card(before.next_card_id, k)));
                assert(deck.take(k + 1) =~= deck.take(k).push(deck[k]));
                assert(before.cards + deck.take(k + 1) =~= (before.cards + deck.take(k)).push(
                    deck[k],
                ));
            }
            value += 1;
        }
        s += 1;
    }
    proof {
        let deck = fresh_deck(before.next_card_id);
        assert(deck.take(52) =~= deck);
    }
}

/// The store ready for a draw: if no card is left in the deck a fresh deck is
/// appended, else nothing changes.
pub open spec fn replenished(s: StoreView) -> StoreView {
    if deck_of(s.cards).len() == 0 {
        with_fresh_deck(s)
    } else {
        s
    }
}

/// The store with the card of key `id` handed to `color`; unchanged if no card
/// has that key.
pub open spec fn assigned(s: StoreView, id: u32, color: Color) -> StoreView {
    match s.card_index(id) {
        Some(i) => s.set_card(i, Card { owner_color: Some(color), ..s.cards[i] }),
        None => s,
    }
}

/// The store after one card is dealt to `color`: the deck is replenished if it
/// was empty, and the card at position `pick` of the deck goes to `color`.
pub open spec fn dealt(s: StoreView, pick: int, color: Color) -> StoreView {
    let ready = replenished(s);
    assigned(ready, deck_of(ready.cards)[pick].card_id, color)
}

/// A fresh deck has 52 cards, nobody owns any of them, and all of them are
/// valid and carry the keys that follow `first_id`.
pub proof fn lemma_fresh_deck(first_id: u32)
    ensures
        fresh_deck(first_id).len() == DECK_SIZE,
        deck_of(fresh_deck(first_id)) == fresh_deck(first_id),
        forall|k: int|
            0 <= k < DECK_SIZE ==> (#[trigger] fresh_deck(first_id)[k]) == fresh_card(
                first_id,
                k,
            ),
{
    lemma_filter_all(fresh_deck(first_id), unowned());
}

/// A replenished store has at least one card in its deck; after a reshuffle it
/// has exactly 52.
pub proof fn lemma_replenished(s: StoreView)
    ensures
        deck_of(replenished(s).cards).len() >= 1,
        deck_of(s.cards).len() == 0 ==> deck_of(replenished(s).cards).len() == DECK_SIZE,
{
    if deck_of(s.cards).len() == 0 {
        lemma_fresh_deck(s.next_card_id);
        Seq::filter_distributes_over_add(s.cards, fresh_deck(s.next_card_id), unowned());
    }
}

/// Handing a card of the deck to a player takes exactly that one card out of
/// the deck and puts it into the player's hand; no card is created or lost.
pub proof fn lemma_assigned(s: StoreView, pick: int, color: Color)
    requires
        s.wf(),
        0 <= pick < deck_of(s.cards).len(),
    ensures
        assigned(s, deck_of(s.cards)[pick].card_id, color).wf(),
        assigned(s, deck_of(s.cards)[pick].card_id, color).cards.len() == s.cards.len(),
        deck_of(assigned(s, deck_of(s.cards)[pick].card_id, color).cards).len() == deck_of(
            s.cards,
        ).len() - 1,
        hand_of(assigned(s, deck_of(s.cards)[pick].card_id, color).cards, color).len() == hand_of(
            s.cards,
            color,
        ).len() + 1,
{
    let card = deck_of(s.cards)[pick];
    lemma_filter_member(s.cards, unowned(), pick);
    let i = choose|i: int| 0 <= i < s.cards.len() && #[trigger] s.cards[i] == card;
    s.lemma_card_index(i);
    let taken = Card { owner_color: Some(color), ..s.cards[i] };
    lemma_filter_update_len(s.cards, unowned(), i, taken);
    lemma_filter_update_len(s.cards, owned_by(color), i, taken);
}

/// The cards that are in the deck, in store order.
pub fn available_cards(store: &Store) -> (r: Vec<Card>)
    ensures
        r@ == deck_of(store@.cards),
{
    let cards = store.cards();
    let mut r: Vec<Card> = Vec::new();
    let mut i: usize = 0;
    while i < cards.len()
        invariant
            i <= cards.len(),
            cards@ == store@.cards,
            r@ == deck_of(cards@.take(i as int)),
        decreases cards.len() - i,
    {
        proof {
            reveal(Seq::filter);
            assert(cards@.take(i + 1).drop_last() =~= cards@.take(i as int));
        }
        if cards[i].owner_color.is_none() {
            r.push(cards[i]);
        }
        i += 1;
    }
    proof {
        assert(cards@.take(cards.len() as int) =~= cards@);
    }
    r
}

/// Makes the store ready for a draw: appends a fresh deck if no card is left
/// in the deck, and says whether it did. With an empty deck there is no
/// leftover card to clear away first.
pub fn replenish_deck(store: &mut Store) -> (reshuffled: bool)
    requires
        old(store)@.wf(),
        deck_of(old(store)@.cards).len() == 0 ==> deck_fits(old(store)@),
    ensures
        final(store)@.wf(),
        final(store)@ == replenished(old(store)@),
        reshuffled == (deck_of(old(store)@.cards).len() == 0),
{
    let available = available_cards(store);
    if available.len() == 0 {
        create_new_deck(store);
        true
    } else {
        false
    }
}

/// Draws a card from the deck at random, replenishing the deck first if it is
/// empty, and returns it for the caller to assign an owner. The store changes
/// only by the replenishing. Each card of the deck is equally likely under
/// the generator; the contract says only that the card is one of them.
pub fn draw_random(store: &mut Store, rng: &mut StdRng) -> (card: Card)
    requires
        old(store)@.wf(),
        deck_of(old(store)@.cards).len() == 0 ==> deck_fits(old(store)@),
    ensures
        final(store)@.wf(),
        final(store)@ == replenished(old(store)@),
        exists|pick: int|
            0 <= pick < deck_of(final(store)@.cards).len() && card == #[trigger] deck_of(
                final(store)@.cards,
            )[pick],
{
    replenish_deck(store);
    let available = available_cards(store);
    proof {
        lemma_replenished(old(store)@);
    }
    let pick = random_below(rng, available.len());
    available[pick]
}

/// Hands the card at position `pick` of the deck to `color`, replenishing the
/// deck first if it is empty, and returns the card as it is stored afterwards.
pub fn deal_card(store: &mut Store, pick: usize, color: Color) -> (card: Card)
    requires
        old(store)@.wf(),
        deck_of(old(store)@.cards).len() == 0 ==> deck_fits(old(store)@),
        pick < deck_of(replenished(old(store)@).cards).len(),
    ensures
        final(store)@.wf(),
        final(store)@ == dealt(old(store)@, pick as int, color),
        card.owner_color == Some(color),
        card.card_id == deck_of(replenished(old(store)@).cards)[pick as int].card_id,
        card.suit == deck_of(replenished(old(store)@).cards)[pick as int].suit,
        card.value == deck_of(replenished(old(store)@).cards)[pick as int].value,
{
    replenish_deck(store);
    let available = available_cards(store);
    let drawn = available[pick];
    let card = Card {
        card_id: drawn.card_id,
        suit: drawn.suit,
        value: drawn.value,
        owner_color: Some(color),
    };
    proof {
        let ready = store@;
        lemma_filter_member(ready.cards, unowned(), pick as int);
        let i = choose|i: int| 0 <= i < ready.cards.len() && #[trigger] ready.cards[i] == drawn;
        ready.lemma_card_index(i);
    }
    let _ = store.update_card(card);
    card
}

} // verus!
