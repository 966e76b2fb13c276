//! Setting the game up: the board, the five seats, the deck, the game record
//! and the turn timer.

use vstd::prelude::*;
use crate::color::Color;
use crate::color::PLAYER_COUNT;
use crate::deck::create_new_deck;
use crate::deck::fresh_deck;
use crate::deck::lemma_fresh_deck;
use crate::entity::BOARD_SIZE;
use crate::entity::Game;
use crate::entity::NextTurnTimer;
use crate::entity::Player;
use crate::entity::STARTING_TROOPS;
use crate::entity::Tile;
use crate::seq_util::lemma_first_where_none;
use crate::store::player_with_color;
use crate::store::Store;
use crate::store::StoreError;
use crate::store::StoreView;

verus! {

/// The colour that starts on the tile at `(x, y)`, if one does.
pub open spec fn starting_owner(x: int, y: int) -> Option<Color> {
    if x == 1 && y == 1 {
        Some(Color::Red)
    } else if x == 5 && y == 1 {
        Some(Color::Green)
    } else if x == 1 && y == 5 {
        Some(Color::Yellow)
    } else if x == 5 && y == 5 {
        Some(Color::Orange)
    } else if x == 3 && y == 3 {
        Some(Color::Purple)
    } else {
        None
    }
}

/// The tile at position `k` of the starting board. Tiles are laid out column
/// by column; a starting tile holds five troops, every other tile is neutral
/// and empty.
pub open spec fn starting_tile(k: int) -> Tile {
    let x = k / (BOARD_SIZE as int);
    let y = k % (BOARD_SIZE as int);
    Tile {
        tile_id: (k + 1) as u32,
        x: x as u32,
        y: y as u32,
        owner_color: starting_owner(x, y),
        troops: if starting_owner(x, y) is Some {
            STARTING_TROOPS
        } else {
            0
        },
        tanks: 0,
    }
}

/// The starting board: one tile for each pair of coordinates.
pub open spec fn starting_board() -> Seq<Tile> {
    Seq::new((BOARD_SIZE * BOARD_SIZE) as nat, |k: int| starting_tile(k))
}

/// The seat of the colour at position `i` of the turn order, unclaimed.
pub open spec fn starting_player(i: int) -> Player {
    Player { color: Color::at(i), identity: None, online: false, gold: 0, stamina: 0 }
}

/// The five seats, in turn order.
pub open spec fn starting_players() -> Seq<Player> {
    Seq::new(PLAYER_COUNT as nat, |i: int| starting_player(i))
}

/// The world at the start of a game whose turn timer has the given period.
pub open spec fn initial_store(interval_secs: u64) -> StoreView {
    StoreView {
        tiles: starting_board(),
        players: starting_players(),
        cards: fresh_deck(1),
        game: Some(Game { turn: 1, current_player_index: 0 }),
        timers: seq![NextTurnTimer { scheduled_id: 1, interval_secs }],
        next_tile_id: 50,
        next_card_id: 53,
        next_timer_id: 2,
    }
}

fn starting_color(x: u32, y: u32) -> (c: Option<Color>)
    ensures
        c == starting_owner(x as int, y as int),
{
    if x == 1 && y == 1 {
        Some(Color::Red)
    } else if x == 5 && y == 1 {
        Some(Color::Green)
    } else if x == 1 && y == 5 {
        Some(Color::Yellow)
    } else if x == 5 && y == 5 {
        Some(Color::Orange)
    } else if x == 3 && y == 3 {
        Some(Color::Purple)
    } else {
        None
    }
}

/// Sets an empty store up for a game: the game record at turn 1 with the
/// first colour to move, five unclaimed seats, the 7 by 7 board with the five
/// starting tiles, the turn timer with the period given, and a fresh deck.
pub fn init(store: &mut Store, interval_secs: u64)
    requires
        old(store)@ == StoreView::empty(),
    ensures
        final(store)@.wf(),
        final(store)@ == initial_store(interval_secs),
{
    let _ = store.insert_game(Game { turn: 1, current_player_index: 0 });
    proof {
        assert(starting_players().take(0) =~= Seq::<Player>::empty());
    }

    let mut i: u32 = 0;
    while i < PLAYER_COUNT
        invariant
            i <= PLAYER_COUNT,
            store@.wf(),
            store@ == (StoreView {
                players: starting_players().take(i as int),
                game: Some(Game { turn: 1, current_player_index: 0 }),
                ..StoreView::empty()
            }),
        decreases PLAYER_COUNT - i,
    {
        let color = match Color::from_index(i) {
            Some(color) => color,
            None => Color::Red,
        };
        proof {
            let seats = starting_players().take(i as int);
            assert forall|j: int| 0 <= j < seats.len() implies !player_with_color(color)(
                #[trigger] seats[j],
            ) by {}
            lemma_first_where_none(seats, player_with_color(color));
        }
        let _ = store.insert_player(
            Player { color, identity: None, online: false, gold: 0, stamina: 0 },
        );
        proof {
            assert(starting_players().take(i + 1) =~= starting_players().take(i as int).push(
                starting_player(i as int),
            ));
        }
        i += 1;
    }
    proof {
        assert(starting_players().take(PLAYER_COUNT as int) =~= starting_players());
        assert(starting_board().take(0) =~= Seq::<Tile>::empty());
    }

    let mut x: u32 = 0;
    while x < BOARD_SIZE
        invariant
            x <= BOARD_SIZE,
            store@.wf(),
            store@ == (StoreView {
                tiles: starting_board().take(7 * x),
                next_tile_id: (1 + 7 * x) as u32,
                players: starting_players(),
                game: Some(Game { turn: 1, current_player_index: 0 }),
                ..StoreView::empty()
            }),
        decreases BOARD_SIZE - x,
    {
        let mut y: u32 = 0;
        while y < BOARD_SIZE
            invariant
                x < BOARD_SIZE,
                y <= BOARD_SIZE,
                store@.wf(),
                store@ == (StoreView {
                    tiles: starting_board().take(7 * x + y),
                    next_tile_id: (1 + 7 * x + y) as u32,
                    players: starting_players(),
                    game: Some(Game { turn: 1, current_player_index: 0 }),
                    ..StoreView::empty()
                }),
            decreases BOARD_SIZE - y,
        {
            let owner = starting_color(x, y);
            let troops = if owner.is_some() {
                STARTING_TROOPS
            } else {
                0
            };
            let ghost k = 7 * x + y;
            let r = store.insert_tile(
                Tile { tile_id: 0, x, y, owner_color: owner, troops, tanks: 0 },
            );
            proof {
                assert(k / 7 == x && k % 7 == y);
                assert(r == Ok::<Tile, StoreError>(starting_tile(k)));
                assert(starting_board().take(k + 1) =~= starting_board().take(k).push(
                    starting_tile(k),
                ));
            }
            y += 1;
        }
        x += 1;
    }
    proof {
        assert(starting_board().take(49) =~= starting_board());
    }

    let _ = store.insert_timer(NextTurnTimer { scheduled_id: 0, interval_secs });
    proof {
        assert(store@.timers =~= seq![NextTurnTimer { scheduled_id: 1, interval_secs }]);
    }
    create_new_deck(store);
    proof {
        lemma_fresh_deck(1);
        assert(store@.cards =~= fresh_deck(1));
    }
}

} // verus!
