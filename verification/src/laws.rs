//! What holds of the game as a whole: statements that relate several
//! commands, or that hold in every state the commands can reach, each proved
//! from the definitions the commands' contracts use.

use vstd::prelude::*;
use crate::color::Color;
use crate::color::Suit;
use crate::combat::attack_outcome;
use crate::combat::attack_power;
use crate::combat::AttackError;
use crate::combat::defense;
use crate::commands::after_attack;
use crate::commands::after_build_infantry;
use crate::commands::after_build_tank;
use crate::commands::after_move_units;
use crate::commands::attack_check;
use crate::commands::build_infantry_check;
use crate::commands::build_infantry_fits;
use crate::commands::build_tank_check;
use crate::commands::build_tank_fits;
use crate::commands::grid_distance;
use crate::commands::join_seat;
use crate::commands::move_units_check;
use crate::commands::move_units_fits;
use crate::commands::offline;
use crate::commands::seated;
use crate::commands::without_card;
use crate::deck::dealt;
use crate::deck::deck_fits;
use crate::deck::deck_of;
use crate::deck::fresh_card;
use crate::deck::fresh_deck;
use crate::deck::hand_of;
use crate::deck::lemma_assigned;
use crate::deck::lemma_fresh_deck;
use crate::deck::lemma_replenished;
use crate::deck::owned_by;
use crate::deck::replenished;
use crate::deck::unowned;
use crate::deck::with_fresh_deck;
use crate::entity::Card;
use crate::entity::DECK_SIZE;
use crate::entity::Game;
use crate::entity::Identity;
use crate::entity::Tile;
use crate::error::GameError;
use crate::seq_util::lemma_filter_none;
use crate::seq_util::lemma_filter_remove_len;
use crate::seq_util::lemma_first_where_none;
use crate::setup::initial_store;
use crate::setup::starting_board;
use crate::setup::starting_tile;
use crate::store::card_valid;
use crate::store::card_with_id;
use crate::store::game_valid;
use crate::store::StoreView;
use crate::turn::advanced;
use crate::turn::current_color;
use crate::turn::GrantPolicy;
use crate::turn::is_tick;
use crate::turn::picks_fit;
use crate::turn::rewarded;
use crate::turn::served_seat;
use crate::turn::tick;
use crate::turn::tick_fits;

verus! {

/// All troops on the board.
pub open spec fn total_troops(tiles: Seq<Tile>) -> int
    decreases tiles.len(),
{
    if tiles.len() == 0 {
        0
    } else {
        total_troops(tiles.drop_last()) + tiles.last().troops
    }
}

/// All tanks on the board.
pub open spec fn total_tanks(tiles: Seq<Tile>) -> int
    decreases tiles.len(),
{
    if tiles.len() == 0 {
        0
    } else {
        total_tanks(tiles.drop_last()) + tiles.last().tanks
    }
}

/// Two boards have the same tiles in the same places: as many tiles, each
/// with the key and the coordinates it had. Only owners and units may differ.
pub open spec fn same_board(before: Seq<Tile>, after: Seq<Tile>) -> bool {
    &&& after.len() == before.len()
    &&& forall|i: int|
        0 <= i < before.len() ==> (#[trigger] after[i]).tile_id == before[i].tile_id && after[i].x
            == before[i].x && after[i].y == before[i].y
}

/// Every tile has the owner it had.
pub open spec fn same_owners(before: Seq<Tile>, after: Seq<Tile>) -> bool {
    &&& after.len() == before.len()
    &&& forall|i: int|
        0 <= i < before.len() ==> (#[trigger] after[i]).owner_color == before[i].owner_color
}

/// Replacing one tile changes the totals by the difference between the new
/// tile and the old.
pub proof fn lemma_totals_update(tiles: Seq<Tile>, i: int, tile: Tile)
    requires
        0 <= i < tiles.len(),
    ensures
        total_troops(tiles.update(i, tile)) == total_troops(tiles) - tiles[i].troops + tile.troops,
        total_tanks(tiles.update(i, tile)) == total_tanks(tiles) - tiles[i].tanks + tile.tanks,
    decreases tiles.len(),
{
    let after = tiles.update(i, tile);
    if i == tiles.len() - 1 {
        assert(after.drop_last() =~= tiles.drop_last());
    } else {
        assert(after.drop_last() =~= tiles.drop_last().update(i, tile));
        lemma_totals_update(tiles.drop_last(), i, tile);
    }
}

/// Joining changes nothing but the seat joined: the board, the cards and the
/// game stay as they are.
pub proof fn lemma_join_keeps_the_world(s: StoreView, sender: Identity, name: Seq<char>)
    ensures
        match join_seat(s, name) {
            Some(i) => {
                let after = s.set_player(i, seated(s.players[i], sender));
                after.tiles == s.tiles && after.cards == s.cards && after.game == s.game
            },
            None => true,
        },
{
}

/// A claimed seat stays with its claimant: joining binds an unclaimed seat
/// only, and leaves every other seat as it is.
pub proof fn lemma_join_never_rebinds(s: StoreView, sender: Identity, name: Seq<char>)
    ensures
        match join_seat(s, name) {
            Some(i) => {
                let after = s.set_player(i, seated(s.players[i], sender));
                &&& 0 <= i < s.players.len()
                &&& s.players[i].identity is None
                &&& Color::parse(name) == Some(s.players[i].color)
                &&& after.players.len() == s.players.len()
                &&& after.players[i].identity == Some(sender)
                &&& after.players[i].online
                &&& after.players[i].color == s.players[i].color
                &&& after.players[i].gold == s.players[i].gold
                &&& after.players[i].stamina == s.players[i].stamina
                &&& forall|j: int|
                    0 <= j < s.players.len() && j != i ==> #[trigger] after.players[j]
                        == s.players[j]
            },
            None => true,
        },
{
    if let Some(color) = Color::parse(name) {
        s.lemma_player_lookup(color);
    }
}

/// Leaving changes nothing but the seat left: the board, the cards and the
/// game stay as they are.
pub proof fn lemma_disconnect_keeps_the_world(s: StoreView, sender: Identity)
    ensures
        match s.player_index_of(sender) {
            Some(i) => {
                let after = s.set_player(i, offline(s.players[i]));
                after.tiles == s.tiles && after.cards == s.cards && after.game == s.game
            },
            None => true,
        },
{
}

/// A tick never touches the board: troops and tanks change by commands only.
pub proof fn lemma_tick_keeps_the_board(
    s: StoreView,
    policy: GrantPolicy,
    first: int,
    second: int,
)
    ensures
        tick(s, policy, first, second).tiles == s.tiles,
        tick(s, policy, first, second).timers == s.timers,
{
}

/// Building infantry adds exactly one troop to the board and no tank, and
/// leaves every tile where it was.
pub proof fn lemma_build_infantry_totals(s: StoreView, sender: Identity, x: u32, y: u32)
    requires
        s.wf(),
        build_infantry_fits(s, sender, x, y),
        build_infantry_check(s, sender, x, y) is Ok,
    ensures
        ({
            let (pi, ti) = build_infantry_check(s, sender, x, y).unwrap();
            let after = after_build_infantry(s, pi, ti);
            &&& total_troops(after.tiles) == total_troops(s.tiles) + 1
            &&& total_tanks(after.tiles) == total_tanks(s.tiles)
            &&& same_board(s.tiles, after.tiles)
            &&& same_owners(s.tiles, after.tiles)
            &&& after.players[pi].gold == s.players[pi].gold - 1
            &&& after.cards == s.cards
        }),
{
    let (pi, ti) = build_infantry_check(s, sender, x, y).unwrap();
    s.lemma_player_lookup_of(sender);
    s.lemma_tile_lookup_at(x, y);
    let tile = s.tiles[ti];
    lemma_totals_update(s.tiles, ti, Tile { troops: (tile.troops + 1) as u32, ..tile });
}

/// Moving units keeps the number of troops and of tanks on the board, and
/// leaves every tile where it was.
pub proof fn lemma_move_units_totals(
    s: StoreView,
    sender: Identity,
    from_id: u32,
    to_id: u32,
    troops: u32,
    tanks: u32,
)
    requires
        s.wf(),
        move_units_fits(s, sender, from_id, to_id, troops, tanks),
        move_units_check(s, sender, from_id, to_id, troops, tanks) is Ok,
    ensures
        ({
            let (fi, ti) = move_units_check(s, sender, from_id, to_id, troops, tanks).unwrap();
            let after = after_move_units(s, fi, ti, troops, tanks);
            &&& total_troops(after.tiles) == total_troops(s.tiles)
            &&& total_tanks(after.tiles) == total_tanks(s.tiles)
            &&& same_board(s.tiles, after.tiles)
            &&& same_owners(s.tiles, after.tiles)
            &&& after.tiles[fi].troops >= 1
            &&& after.players == s.players
            &&& after.cards == s.cards
        }),
{
    let (fi, ti) = move_units_check(s, sender, from_id, to_id, troops, tanks).unwrap();
    s.lemma_tile_lookup(from_id);
    s.lemma_tile_lookup(to_id);
    let from = s.tiles[fi];
    let to = s.tiles[ti];
    assert(fi != ti);
    let left = Tile {
        troops: (from.troops - troops) as u32,
        tanks: (from.tanks - tanks) as u32,
        ..from
    };
    let arrived = Tile {
        troops: (to.troops + troops) as u32,
        tanks: (to.tanks + tanks) as u32,
        ..to
    };
    lemma_totals_update(s.tiles, fi, left);
    lemma_totals_update(s.tiles.update(fi, left), ti, arrived);
}

/// A successful attack leaves every tile where it was, leaves exactly one
/// troop on the source, gives the target to the owner of the source, and
/// touches neither players nor cards.
pub proof fn lemma_attack_captures(s: StoreView, sender: Identity, from_id: u32, to_id: u32)
    requires
        s.wf(),
        attack_check(s, sender, from_id, to_id) is Ok,
    ensures
        ({
            let (fi, ti) = attack_check(s, sender, from_id, to_id).unwrap();
            let after = after_attack(s, fi, ti);
            &&& fi != ti
            &&& same_board(s.tiles, after.tiles)
            &&& after.tiles[fi].troops == 1
            &&& after.tiles[fi].owner_color == s.tiles[fi].owner_color
            &&& after.tiles[ti].owner_color == s.tiles[fi].owner_color
            &&& after.tiles[ti].tanks == s.tiles[fi].tanks
            &&& after.tiles[ti].troops <= s.tiles[fi].troops
            &&& forall|i: int|
                0 <= i < s.tiles.len() && i != fi && i != ti ==> #[trigger] after.tiles[i]
                    == s.tiles[i]
            &&& after.players == s.players
            &&& after.cards == s.cards
        }),
{
    s.lemma_tile_lookup(from_id);
    s.lemma_tile_lookup(to_id);
    s.lemma_player_lookup_of(sender);
}

/// An attack whose power does not exceed the defense is refused: combat
/// returns no tiles, and the command, if nothing else is wrong before,
/// fails with `AttackTooWeak`. A refused command leaves the store as it was.
pub proof fn lemma_weak_attack_is_refused(s: StoreView, sender: Identity, from_id: u32, to_id: u32)
    requires
        s.tile_index(from_id) is Some,
        s.tile_index(to_id) is Some,
        attack_power(s.tiles[s.tile_index(from_id).unwrap()]) <= defense(
            s.tiles[s.tile_index(to_id).unwrap()],
        ),
    ensures
        attack_outcome(
            s.tiles[s.tile_index(from_id).unwrap()],
            s.tiles[s.tile_index(to_id).unwrap()],
        ) is Err,
        s.tiles[s.tile_index(from_id).unwrap()].troops > 1 ==> attack_outcome(
            s.tiles[s.tile_index(from_id).unwrap()],
            s.tiles[s.tile_index(to_id).unwrap()],
        ) == Err::<(Tile, Tile), AttackError>(AttackError::AttackTooWeak),
        attack_check(s, sender, from_id, to_id) is Err,
{
}

/// A move that takes every troop of the source is never carried out; where
/// nothing else is wrong before, it fails with `MustKeepGarrison`.
pub proof fn lemma_garrison_stays(
    s: StoreView,
    sender: Identity,
    from_id: u32,
    to_id: u32,
    troops: u32,
    tanks: u32,
)
    requires
        s.tile_index(from_id) is Some,
        troops == s.tiles[s.tile_index(from_id).unwrap()].troops,
    ensures
        move_units_check(s, sender, from_id, to_id, troops, tanks) is Err,
        ({
            let from = s.tiles[s.tile_index(from_id).unwrap()];
            &&& s.player_index_of(sender) matches Some(pi)
            &&& s.tile_index(to_id) matches Some(ti)
            &&& from.owner_color == Some(s.players[pi].color)
            &&& s.tiles[ti].owner_color == Some(s.players[pi].color)
            &&& grid_distance(from, s.tiles[ti]) == 1
            &&& tanks <= from.tanks
        }) ==> move_units_check(s, sender, from_id, to_id, troops, tanks) == Err::<
            (int, int),
            GameError,
        >(GameError::MustKeepGarrison),
{
}

/// Units move only between tiles one step apart: whatever else holds, a move
/// between tiles at another distance is never carried out.
pub proof fn lemma_moves_are_adjacent(
    s: StoreView,
    sender: Identity,
    from_id: u32,
    to_id: u32,
    troops: u32,
    tanks: u32,
)
    requires
        move_units_check(s, sender, from_id, to_id, troops, tanks) is Ok,
    ensures
        s.tile_index(from_id) is Some,
        s.tile_index(to_id) is Some,
        grid_distance(
            s.tiles[s.tile_index(from_id).unwrap()],
            s.tiles[s.tile_index(to_id).unwrap()],
        ) == 1,
{
}

/// Position of the card of a suit and rank in a fresh deck.
pub open spec fn face_position(suit: Suit, rank: int) -> int {
    13 * suit.ordinal() + rank - 1
}

/// No two cards of the deck show the same suit and rank.
pub open spec fn deck_sound(cards: Seq<Card>) -> bool {
    forall|i: int, j: int|
        0 <= i < j < cards.len() && (#[trigger] cards[i]).owner_color is None && (
        #[trigger] cards[j]).owner_color is None ==> !(cards[i].suit == cards[j].suit
            && cards[i].value == cards[j].value)
}

/// A fresh deck is one complete set: each suit and rank is shown by the card
/// at its position, and by no other card.
pub proof fn lemma_fresh_deck_is_complete(first_id: u32)
    ensures
        fresh_deck(first_id).len() == DECK_SIZE,
        forall|k: int|
            0 <= k < DECK_SIZE ==> (#[trigger] fresh_deck(first_id)[k]).owner_color is None && 1
                <= fresh_deck(first_id)[k].value <= 13,
        forall|suit: Suit, rank: int|
            1 <= rank <= 13 ==> 0 <= #[trigger] face_position(suit, rank) < DECK_SIZE
                && fresh_deck(first_id)[face_position(suit, rank)].suit == suit && fresh_deck(
                first_id,
            )[face_position(suit, rank)].value == rank,
        forall|j: int, k: int|
            0 <= j < DECK_SIZE && 0 <= k < DECK_SIZE && (#[trigger] fresh_deck(first_id)[j]).suit
                == (#[trigger] fresh_deck(first_id)[k]).suit && fresh_deck(first_id)[j].value
                == fresh_deck(first_id)[k].value ==> j == k,
        deck_sound(fresh_deck(first_id)),
{
    assert forall|suit: Suit, rank: int| 1 <= rank <= 13 implies 0 <= #[trigger] face_position(
        suit,
        rank,
    ) < DECK_SIZE && fresh_deck(first_id)[face_position(suit, rank)].suit == suit && fresh_deck(
        first_id,
    )[face_position(suit, rank)].value == rank by {
        let k = face_position(suit, rank);
        assert(k / 13 == suit.ordinal());
        assert(k % 13 == rank - 1);
    }
    assert forall|j: int, k: int|
        0 <= j < DECK_SIZE && 0 <= k < DECK_SIZE && (#[trigger] fresh_deck(first_id)[j]).suit == (
        #[trigger] fresh_deck(first_id)[k]).suit && fresh_deck(first_id)[j].value == fresh_deck(
            first_id,
        )[k].value implies j == k by {
        assert(j / 13 == k / 13);
        assert(j % 13 == k % 13);
    }
}

/// Appending a fresh deck keeps the store well-formed.
pub proof fn lemma_with_fresh_deck_wf(s: StoreView)
    requires
        s.wf(),
        deck_fits(s),
    ensures
        with_fresh_deck(s).wf(),
        with_fresh_deck(s).cards.len() == s.cards.len() + DECK_SIZE,
{
    let t = with_fresh_deck(s);
    assert forall|i: int| 0 <= i < t.cards.len() implies 0 < (#[trigger] t.cards[i]).card_id
        < t.next_card_id && card_valid(t.cards[i]) by {
        if i >= s.cards.len() {
            assert(t.cards[i] == fresh_card(s.next_card_id, i - s.cards.len()));
        } else {
            assert(t.cards[i] == s.cards[i]);
        }
    }
    assert forall|i: int, j: int| 0 <= i < j < t.cards.len() implies (#[trigger] t.cards[i]).card_id
        != (#[trigger] t.cards[j]).card_id by {
        if i >= s.cards.len() {
            assert(t.cards[i] == fresh_card(s.next_card_id, i - s.cards.len()));
        } else {
            assert(t.cards[i] == s.cards[i]);
        }
        if j >= s.cards.len() {
            assert(t.cards[j] == fresh_card(s.next_card_id, j - s.cards.len()));
        } else {
            assert(t.cards[j] == s.cards[j]);
        }
    }
}

/// A filter is empty only if no element satisfies the predicate.
proof fn lemma_empty_filter<T>(s: Seq<T>, p: spec_fn(T) -> bool)
    requires
        s.filter(p).len() == 0,
    ensures
        forall|i: int| 0 <= i < s.len() ==> !p(#[trigger] s[i]),
    decreases s.len(),
{
    reveal(Seq::filter);
    if s.len() > 0 {
        lemma_empty_filter(s.drop_last(), p);
        assert forall|i: int| 0 <= i < s.len() implies !p(#[trigger] s[i]) by {
            if i < s.len() - 1 {
                assert(s.drop_last()[i] == s[i]);
            }
        }
    }
}

/// A reshuffle happens exactly when the deck is drained, and it is one
/// reshuffle: the cards dealt so far stay, 52 cards that nobody owns are
/// added, and the draw that follows leaves 51 of them in the deck, so the next
/// draw finds cards and adds none.
pub proof fn lemma_reshuffle_when_drained(s: StoreView, pick: int, color: Color)
    requires
        s.wf(),
        deck_fits(s),
        deck_of(s.cards).len() == 0,
        0 <= pick < DECK_SIZE,
    ensures
        replenished(s).cards == s.cards + fresh_deck(s.next_card_id),
        deck_of(replenished(s).cards) == fresh_deck(s.next_card_id),
        deck_of(replenished(s).cards).len() == DECK_SIZE,
        dealt(s, pick, color).wf(),
        dealt(s, pick, color).cards.len() == s.cards.len() + DECK_SIZE,
        deck_of(dealt(s, pick, color).cards).len() == DECK_SIZE - 1,
        hand_of(dealt(s, pick, color).cards, color).len() == hand_of(s.cards, color).len() + 1,
        replenished(dealt(s, pick, color)) == dealt(s, pick, color),
{
    let fresh = fresh_deck(s.next_card_id);
    let ready = replenished(s);
    lemma_fresh_deck(s.next_card_id);
    lemma_with_fresh_deck_wf(s);
    Seq::filter_distributes_over_add(s.cards, fresh, unowned());
    Seq::filter_distributes_over_add(s.cards, fresh, owned_by(color));
    assert(deck_of(s.cards) + fresh =~= fresh);
    lemma_filter_none(fresh, owned_by(color));
    assert(hand_of(s.cards, color) + hand_of(fresh, color) =~= hand_of(s.cards, color));
    lemma_assigned(ready, pick, color);
}

/// While a card is left in the deck a draw adds no card.
pub proof fn lemma_no_reshuffle_while_cards_remain(s: StoreView, pick: int, color: Color)
    requires
        s.wf(),
        0 <= pick < deck_of(s.cards).len(),
    ensures
        replenished(s) == s,
        dealt(s, pick, color).wf(),
        dealt(s, pick, color).cards.len() == s.cards.len(),
        deck_of(dealt(s, pick, color).cards).len() == deck_of(s.cards).len() - 1,
        hand_of(dealt(s, pick, color).cards, color).len() == hand_of(s.cards, color).len() + 1,
{
    lemma_assigned(s, pick, color);
}

/// Dealing a card keeps the deck free of doubles and within one set of 52.
pub proof fn lemma_dealing_keeps_the_deck_sound(s: StoreView, pick: int, color: Color)
    requires
        s.wf(),
        deck_sound(s.cards),
        deck_of(s.cards).len() == 0 ==> deck_fits(s),
        0 <= pick < deck_of(replenished(s).cards).len(),
    ensures
        deck_sound(dealt(s, pick, color).cards),
        deck_of(s.cards).len() <= DECK_SIZE ==> deck_of(dealt(s, pick, color).cards).len()
            < DECK_SIZE,
{
    let ready = replenished(s);
    lemma_replenished(s);
    if deck_of(s.cards).len() == 0 {
        lemma_reshuffle_when_drained(s, pick, color);
    } else {
        lemma_no_reshuffle_while_cards_remain(s, pick, color);
    }
    if deck_of(s.cards).len() == 0 {
        lemma_empty_filter(s.cards, unowned());
        lemma_fresh_deck_is_complete(s.next_card_id);
        let fresh = fresh_deck(s.next_card_id);
        assert forall|i: int, j: int|
            0 <= i < j < ready.cards.len() && (#[trigger] ready.cards[i]).owner_color is None && (
            #[trigger] ready.cards[j]).owner_color is None implies !(ready.cards[i].suit
            == ready.cards[j].suit && ready.cards[i].value == ready.cards[j].value) by {
            if i < s.cards.len() {
                assert(ready.cards[i] == s.cards[i]);
                assert(unowned()(s.cards[i]));
            } else {
                assert(ready.cards[i] == fresh[i - s.cards.len()]);
                assert(ready.cards[j] == fresh[j - s.cards.len()]);
            }
        }
    }
    let after = dealt(s, pick, color);
    ready.lemma_card_lookup(deck_of(ready.cards)[pick].card_id);
    assert forall|i: int, j: int|
        0 <= i < j < after.cards.len() && (#[trigger] after.cards[i]).owner_color is None && (
        #[trigger] after.cards[j]).owner_color is None implies !(after.cards[i].suit
        == after.cards[j].suit && after.cards[i].value == after.cards[j].value) by {
        assert(after.cards[i] == ready.cards[i]);
        assert(after.cards[j] == ready.cards[j]);
    }
}

/// A tick keeps the deck free of doubles and within one set of 52, and loses
/// no card: every card stored before is stored after, with its key, suit and
/// rank.
pub proof fn lemma_tick_keeps_the_deck_sound(
    s: StoreView,
    policy: GrantPolicy,
    first: int,
    second: int,
)
    requires
        s.wf(),
        tick_fits(s, policy),
        picks_fit(s, policy, first, second),
        deck_sound(s.cards),
    ensures
        deck_sound(tick(s, policy, first, second).cards),
        deck_of(s.cards).len() <= DECK_SIZE ==> deck_of(tick(s, policy, first, second).cards).len()
            <= DECK_SIZE,
        tick(s, policy, first, second).cards.len() >= s.cards.len(),
        forall|i: int|
            0 <= i < s.cards.len() ==> (#[trigger] tick(s, policy, first, second).cards[i]).card_id
                == s.cards[i].card_id && tick(s, policy, first, second).cards[i].suit
                == s.cards[i].suit && tick(s, policy, first, second).cards[i].value
                == s.cards[i].value,
{
    if let Some(game) = s.game {
        let color = current_color(game);
        if let Some(i) = served_seat(s, policy) {
            s.lemma_player_lookup(color);
            let paid = s.set_player(i, rewarded(s.players[i]));
            assert(paid.wf());
            lemma_dealing_keeps_the_deck_sound(paid, first, color);
            lemma_replenished(paid);
            if deck_of(paid.cards).len() == 0 {
                lemma_with_fresh_deck_wf(paid);
            }
            let ready = replenished(paid);
            lemma_assigned(ready, first, color);
            ready.lemma_card_lookup(deck_of(ready.cards)[first].card_id);
            let once = dealt(paid, first, color);
            lemma_dealing_keeps_the_deck_sound(once, second, color);
            if deck_of(once.cards).len() == 0 {
                lemma_with_fresh_deck_wf(once);
            }
            let again = replenished(once);
            again.lemma_card_lookup(deck_of(again.cards)[second].card_id);
        }
    }
}

/// After as many ticks as there are colours the turn pointer is back where it
/// was and the turn counter has gone up by exactly one.
pub proof fn lemma_turn_cycle(
    policy: GrantPolicy,
    s0: StoreView,
    s1: StoreView,
    s2: StoreView,
    s3: StoreView,
    s4: StoreView,
    s5: StoreView,
)
    requires
        s0.game is Some,
        game_valid(s0.game.unwrap()),
        s0.game.unwrap().turn < u64::MAX,
        is_tick(s0, policy, s1),
        is_tick(s1, policy, s2),
        is_tick(s2, policy, s3),
        is_tick(s3, policy, s4),
        is_tick(s4, policy, s5),
    ensures
        s5.game is Some,
        s5.game.unwrap().current_player_index == s0.game.unwrap().current_player_index,
        s5.game.unwrap().turn == s0.game.unwrap().turn + 1,
{
    lemma_tick_advances(s0, policy, s1);
    lemma_tick_advances(s1, policy, s2);
    lemma_tick_advances(s2, policy, s3);
    lemma_tick_advances(s3, policy, s4);
    lemma_tick_advances(s4, policy, s5);
}

/// The turn pointer stays on a colour, and the turn counter never goes
/// down: it goes up by one exactly when the pointer comes back to the first
/// colour.
pub proof fn lemma_turn_counter(game: Game)
    requires
        game_valid(game),
        game.turn < u64::MAX,
    ensures
        game_valid(advanced(game)),
        advanced(game).current_player_index == (if game.current_player_index == 4 {
            0int
        } else {
            game.current_player_index + 1
        }),
        advanced(game).turn == (if advanced(game).current_player_index == 0 {
            game.turn + 1
        } else {
            game.turn as int
        }),
{
}

/// One tick moves the game on by one step, whatever cards it deals, and
/// changes neither the board nor the timers.
pub proof fn lemma_tick_advances(before: StoreView, policy: GrantPolicy, after: StoreView)
    requires
        is_tick(before, policy, after),
    ensures
        after.game == match before.game {
            Some(game) => Some(advanced(game)),
            None => None::<Game>,
        },
        after.tiles == before.tiles,
        after.timers == before.timers,
{
    let (first, second) = choose|first: int, second: int|
        picks_fit(before, policy, first, second) && after == #[trigger] tick(
            before,
            policy,
            first,
            second,
        );
    lemma_tick_keeps_the_board(before, policy, first, second);
}

/// Removing a card keeps the store well-formed and every other card findable
/// under its key.
pub proof fn lemma_without_card(s: StoreView, id: u32, other: u32)
    requires
        s.wf(),
    ensures
        without_card(s, id).wf(),
        without_card(s, id).card(id) is None,
        other != id ==> without_card(s, id).card(other) == s.card(other),
        without_card(s, id).tiles == s.tiles,
        without_card(s, id).players == s.players,
{
    s.lemma_card_lookup(id);
    s.lemma_card_lookup(other);
    let t = without_card(s, id);
    if let Some(i) = s.card_index(id) {
        assert forall|j: int| 0 <= j < t.cards.len() implies (#[trigger] t.cards[j]).card_id
            != id by {
            if j < i {
                assert(t.cards[j] == s.cards[j]);
            } else {
                assert(t.cards[j] == s.cards[j + 1]);
            }
        }
        lemma_first_where_none(t.cards, card_with_id(id));
        if other != id {
            match s.card_index(other) {
                Some(k) => {
                    let moved = if k < i {
                        k
                    } else {
                        k - 1
                    };
                    assert(t.cards[moved] == s.cards[k]);
                    t.lemma_card_index(moved);
                },
                None => {
                    t.lemma_card_lookup(other);
                },
            }
        }
    } else {
        t.lemma_card_lookup(other);
    }
}

/// A tank costs a pair: on success with two different cards the caller's
/// hand shrinks by exactly two cards of one rank, the deck keeps its cards,
/// the board gains one tank and no troop, and every tile stays where it was.
pub proof fn lemma_build_tank_spends_a_pair(
    s: StoreView,
    sender: Identity,
    x: u32,
    y: u32,
    card_ids: Seq<u32>,
)
    requires
        s.wf(),
        build_tank_fits(s, sender, x, y, card_ids),
        build_tank_check(s, sender, x, y, card_ids) is Ok,
        card_ids[0] != card_ids[1],
    ensures
        ({
            let ti = build_tank_check(s, sender, x, y, card_ids).unwrap();
            let color = s.players[s.player_index_of(sender).unwrap()].color;
            let after = after_build_tank(s, ti, card_ids[0], card_ids[1]);
            &&& after.wf()
            &&& s.card(card_ids[0]).unwrap().value == s.card(card_ids[1]).unwrap().value
            &&& hand_of(after.cards, color).len() == hand_of(s.cards, color).len() - 2
            &&& after.cards.len() == s.cards.len() - 2
            &&& deck_of(after.cards).len() == deck_of(s.cards).len()
            &&& after.card(card_ids[0]) is None
            &&& after.card(card_ids[1]) is None
            &&& total_tanks(after.tiles) == total_tanks(s.tiles) + 1
            &&& total_troops(after.tiles) == total_troops(s.tiles)
            &&& same_board(s.tiles, after.tiles)
            &&& same_owners(s.tiles, after.tiles)
            &&& after.players == s.players
        }),
{
    let ti = build_tank_check(s, sender, x, y, card_ids).unwrap();
    let color = s.players[s.player_index_of(sender).unwrap()].color;
    let first = card_ids[0];
    let second = card_ids[1];
    s.lemma_tile_lookup_at(x, y);
    s.lemma_card_lookup(first);
    s.lemma_card_lookup(second);
    let i = s.card_index(first).unwrap();
    let s1 = without_card(s, first);
    lemma_without_card(s, first, second);
    lemma_filter_remove_len(s.cards, owned_by(color), i);
    lemma_filter_remove_len(s.cards, unowned(), i);
    s1.lemma_card_lookup(second);
    let j = s1.card_index(second).unwrap();
    let s2 = without_card(s1, second);
    lemma_without_card(s1, second, first);
    lemma_filter_remove_len(s1.cards, owned_by(color), j);
    lemma_filter_remove_len(s1.cards, unowned(), j);
    let tile = s.tiles[ti];
    lemma_totals_update(s.tiles, ti, Tile { tanks: (tile.tanks + 1) as u32, ..tile });
}

/// Two cards of different rank are no pair: the command is refused whatever
/// else holds, and with `NotAPair` where nothing else is wrong before.
pub proof fn lemma_unequal_ranks_are_no_pair(
    s: StoreView,
    sender: Identity,
    x: u32,
    y: u32,
    first: u32,
    second: u32,
)
    requires
        s.card(first) is Some,
        s.card(second) is Some,
        s.card(first).unwrap().value != s.card(second).unwrap().value,
    ensures
        build_tank_check(s, sender, x, y, seq![first, second]) is Err,
        ({
            &&& s.player_index_of(sender) matches Some(pi)
            &&& s.tile_index_at(x, y) matches Some(ti)
            &&& s.tiles[ti].owner_color == Some(s.players[pi].color)
            &&& s.card(first).unwrap().owner_color == Some(s.players[pi].color)
            &&& s.card(second).unwrap().owner_color == Some(s.players[pi].color)
        }) ==> build_tank_check(s, sender, x, y, seq![first, second]) == Err::<int, GameError>(
            GameError::NotAPair,
        ),
{
    let ids = seq![first, second];
    assert(ids.len() == 2 && ids[0] == first && ids[1] == second);
}

/// Spending cards on a tank keeps the deck free of doubles and adds no card to it.
pub proof fn lemma_build_tank_keeps_the_deck_sound(
    s: StoreView,
    ti: int,
    first: u32,
    second: u32,
)
    requires
        deck_sound(s.cards),
    ensures
        deck_sound(after_build_tank(s, ti, first, second).cards),
        deck_of(after_build_tank(s, ti, first, second).cards).len() <= deck_of(s.cards).len(),
{
    let s1 = without_card(s, first);
    s.lemma_card_lookup(first);
    if let Some(i) = s.card_index(first) {
        lemma_filter_remove_len(s.cards, unowned(), i);
    }
    s1.lemma_card_lookup(second);
    if let Some(i) = s1.card_index(second) {
        lemma_filter_remove_len(s1.cards, unowned(), i);
    }
    assert(deck_sound(s1.cards)) by {
        if let Some(i) = s.card_index(first) {
            assert forall|a: int, b: int|
                0 <= a < b < s1.cards.len() && (#[trigger] s1.cards[a]).owner_color is None && (
                #[trigger] s1.cards[b]).owner_color is None implies !(s1.cards[a].suit
                == s1.cards[b].suit && s1.cards[a].value == s1.cards[b].value) by {
                let a0 = if a < i {
                    a
                } else {
                    a + 1
                };
                let b0 = if b < i {
                    b
                } else {
                    b + 1
                };
                assert(s1.cards[a] == s.cards[a0]);
                assert(s1.cards[b] == s.cards[b0]);
            }
        }
    }
    let s2 = without_card(s1, second);
    s1.lemma_card_lookup(second);
    assert(deck_sound(s2.cards)) by {
        if let Some(i) = s1.card_index(second) {
            assert forall|a: int, b: int|
                0 <= a < b < s2.cards.len() && (#[trigger] s2.cards[a]).owner_color is None && (
                #[trigger] s2.cards[b]).owner_color is None implies !(s2.cards[a].suit
                == s2.cards[b].suit && s2.cards[a].value == s2.cards[b].value) by {
                let a0 = if a < i {
                    a
                } else {
                    a + 1
                };
                let b0 = if b < i {
                    b
                } else {
                    b + 1
                };
                assert(s2.cards[a] == s1.cards[a0]);
                assert(s2.cards[b] == s1.cards[b0]);
            }
        }
    }
}

/// The game starts from a sound world: the store is well-formed, each of the
/// 49 pairs of coordinates has its one tile, five tiles are held with five
/// troops each and all others are neutral and empty, every seat is unclaimed,
/// and the deck is one complete set.
pub proof fn lemma_initial_store(interval_secs: u64)
    ensures
        initial_store(interval_secs).wf(),
        initial_store(interval_secs).tiles.len() == 49,
        forall|x: int, y: int|
            0 <= x < 7 && 0 <= y < 7 ==> (#[trigger] initial_store(interval_secs).tiles[7 * x
                + y]).x == x && initial_store(interval_secs).tiles[7 * x + y].y == y,
        forall|i: int, j: int|
            0 <= i < j < 49 ==> !((#[trigger] initial_store(interval_secs).tiles[i]).x == (
            #[trigger] initial_store(interval_secs).tiles[j]).x && initial_store(
                interval_secs,
            ).tiles[i].y == initial_store(interval_secs).tiles[j].y),
        total_troops(initial_store(interval_secs).tiles) == 25,
        total_tanks(initial_store(interval_secs).tiles) == 0,
        forall|i: int|
            0 <= i < 5 ==> (#[trigger] initial_store(interval_secs).players[i]).identity is None,
        initial_store(interval_secs).cards.len() == DECK_SIZE,
        deck_of(initial_store(interval_secs).cards) == initial_store(interval_secs).cards,
        deck_sound(initial_store(interval_secs).cards),
{
    let s = initial_store(interval_secs);
    lemma_fresh_deck(1);
    lemma_fresh_deck_is_complete(1);
    assert forall|x: int, y: int| 0 <= x < 7 && 0 <= y < 7 implies (#[trigger] s.tiles[7 * x
        + y]).x == x && s.tiles[7 * x + y].y == y by {
        let k = 7 * x + y;
        assert(k / 7 == x && k % 7 == y);
    }
    assert forall|i: int, j: int| 0 <= i < j < 49 implies !((#[trigger] s.tiles[i]).x == (
    #[trigger] s.tiles[j]).x && s.tiles[i].y == s.tiles[j].y) by {
        assert(i == 7 * (i / 7) + i % 7);
        assert(j == 7 * (j / 7) + j % 7);
    }
    lemma_initial_totals(49);
    assert(s.tiles.take(49) =~= s.tiles);
}

/// Troops and tanks on the first `n` tiles of the starting board.
proof fn lemma_initial_totals(n: int)
    requires
        0 <= n <= 49,
    ensures
        total_tanks(starting_board().take(n)) == 0,
        total_troops(starting_board().take(n)) == 5 * ((if n > 8 {
            1int
        } else {
            0
        }) + (if n > 12 {
            1int
        } else {
            0
        }) + (if n > 24 {
            1int
        } else {
            0
        }) + (if n > 36 {
            1int
        } else {
            0
        }) + (if n > 40 {
            1int
        } else {
            0
        })),
    decreases n,
{
    let board = starting_board();
    if n > 0 {
        lemma_initial_totals(n - 1);
        assert(board.take(n).drop_last() =~= board.take(n - 1));
        assert(board.take(n).last() == starting_tile(n - 1));
        let k = n - 1;
        assert(k == 7 * (k / 7) + k % 7);
    }
}

} // verus!
