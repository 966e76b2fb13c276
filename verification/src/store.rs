//! The entity store: keyed collections of tiles, players, cards and timers, and
//! the single game record. Every operation is synchronous, checks its
//! preconditions before it writes, and either applies entirely or leaves the
//! store as it was.
//!
//! Contracts speak of the store through its view, [`StoreView`], which lists
//! each collection in insertion order.

use vstd::prelude::*;
use crate::color::Color;
use crate::color::PLAYER_COUNT;
use crate::entity::Card;
use crate::entity::Game;
use crate::entity::Identity;
use crate::entity::NextTurnTimer;
use crate::entity::Player;
use crate::entity::Tile;
use crate::entity::MAX_RANK;
use crate::entity::MAX_STAMINA;
use crate::seq_util::first_from;
use crate::seq_util::first_where;
use crate::seq_util::lemma_first_where;
use crate::seq_util::lemma_first_where_is;

verus! {

/// Why the store refused a write.
#[derive(Clone, Copy, Debug, PartialEq, Eq, Structural)]
pub enum StoreError {
    /// A record with this key is already stored.
    DuplicateKey,
    /// The key is the largest of its type, or no key is left to generate.
    KeyOutOfRange,
    /// A field is outside the range the rules allow.
    InvalidRecord,
    /// No record with this key is stored.
    NotFound,
}

/// The store as a mathematical value.
pub struct StoreView {
    pub tiles: Seq<Tile>,
    pub players: Seq<Player>,
    pub cards: Seq<Card>,
    pub game: Option<Game>,
    pub timers: Seq<NextTurnTimer>,
    /// The key the next generated tile id will be.
    pub next_tile_id: u32,
    /// The key the next generated card id will be.
    pub next_card_id: u32,
    /// The key the next generated timer id will be.
    pub next_timer_id: u64,
}

/// A card's rank is between 1 and 13.
pub open spec fn card_valid(card: Card) -> bool {
    1 <= card.value <= MAX_RANK
}

/// A player's stamina is within its cap.
pub open spec fn player_valid(player: Player) -> bool {
    player.stamina <= MAX_STAMINA
}

/// The turn pointer of a game names one of the colours.
pub open spec fn game_valid(game: Game) -> bool {
    game.current_player_index < PLAYER_COUNT
}

/// The tiles with key `id`.
pub open spec fn tile_with_id(id: u32) -> spec_fn(Tile) -> bool {
    |t: Tile| t.tile_id == id
}

/// The tiles at coordinates `(x, y)`.
pub open spec fn tile_at(x: u32, y: u32) -> spec_fn(Tile) -> bool {
    |t: Tile| t.x == x && t.y == y
}

/// The players with key `color`.
pub open spec fn player_with_color(color: Color) -> spec_fn(Player) -> bool {
    |p: Player| p.color == color
}

/// The players bound to identity `who`.
pub open spec fn player_bound_to(who: Identity) -> spec_fn(Player) -> bool {
    |p: Player| p.identity == Some(who)
}

/// The cards with key `id`.
pub open spec fn card_with_id(id: u32) -> spec_fn(Card) -> bool {
    |c: Card| c.card_id == id
}

/// The timers with key `id`.
pub open spec fn timer_with_id(id: u64) -> spec_fn(NextTurnTimer) -> bool {
    |t: NextTurnTimer| t.scheduled_id == id
}

impl StoreView {
    /// The store with nothing in it.
    pub open spec fn empty() -> StoreView {
        StoreView {
            tiles: Seq::empty(),
            players: Seq::empty(),
            cards: Seq::empty(),
            game: None,
            timers: Seq::empty(),
            next_tile_id: 1,
            next_card_id: 1,
            next_timer_id: 1,
        }
    }

    /// Position of the tile with key `id`.
    pub open spec fn tile_index(self, id: u32) -> Option<int> {
        first_where(self.tiles, tile_with_id(id))
    }

    /// Position of the first tile at coordinates `(x, y)`.
    pub open spec fn tile_index_at(self, x: u32, y: u32) -> Option<int> {
        first_where(self.tiles, tile_at(x, y))
    }

    /// Position of the player with key `color`.
    pub open spec fn player_index(self, color: Color) -> Option<int> {
        first_where(self.players, player_with_color(color))
    }

    /// Position of the first player bound to identity `who`.
    pub open spec fn player_index_of(self, who: Identity) -> Option<int> {
        first_where(self.players, player_bound_to(who))
    }

    /// Position of the card with key `id`.
    pub open spec fn card_index(self, id: u32) -> Option<int> {
        first_where(self.cards, card_with_id(id))
    }

    /// Position of the timer with key `id`.
    pub open spec fn timer_index(self, id: u64) -> Option<int> {
        first_where(self.timers, timer_with_id(id))
    }

    /// The tile with key `id`.
    pub open spec fn tile(self, id: u32) -> Option<Tile> {
        match self.tile_index(id) {
            Some(i) => Some(self.tiles[i]),
            None => None,
        }
    }

    /// The first tile at coordinates `(x, y)`.
    pub open spec fn tile_at(self, x: u32, y: u32) -> Option<Tile> {
        match self.tile_index_at(x, y) {
            Some(i) => Some(self.tiles[i]),
            None => None,
        }
    }

    /// The player with key `color`.
    pub open spec fn player(self, color: Color) -> Option<Player> {
        match self.player_index(color) {
            Some(i) => Some(self.players[i]),
            None => None,
        }
    }

    /// The first player bound to identity `who`.
    pub open spec fn player_of(self, who: Identity) -> Option<Player> {
        match self.player_index_of(who) {
            Some(i) => Some(self.players[i]),
            None => None,
        }
    }

    /// The card with key `id`.
    pub open spec fn card(self, id: u32) -> Option<Card> {
        match self.card_index(id) {
            Some(i) => Some(self.cards[i]),
            None => None,
        }
    }

    /// Tile keys are positive, below the next generated key, and pairwise distinct.
    pub open spec fn tiles_wf(self) -> bool {
        &&& forall|i: int|
            0 <= i < self.tiles.len() ==> 0 < (#[trigger] self.tiles[i]).tile_id
                < self.next_tile_id
        &&& forall|i: int, j: int|
            0 <= i < j < self.tiles.len() ==> (#[trigger] self.tiles[i]).tile_id != (
            #[trigger] self.tiles[j]).tile_id
    }

    /// Player colours are pairwise distinct and every player is valid.
    pub open spec fn players_wf(self) -> bool {
        &&& forall|i: int| 0 <= i < self.players.len() ==> player_valid(#[trigger] self.players[i])
        &&& forall|i: int, j: int|
            0 <= i < j < self.players.len() ==> (#[trigger] self.players[i]).color != (
            #[trigger] self.players[j]).color
    }

    /// Card keys are positive, below the next generated key, and pairwise
    /// distinct, and every card is valid.
    pub open spec fn cards_wf(self) -> bool {
        &&& forall|i: int|
            0 <= i < self.cards.len() ==> 0 < (#[trigger] self.cards[i]).card_id
                < self.next_card_id
        &&& forall|i: int| 0 <= i < self.cards.len() ==> card_valid(#[trigger] self.cards[i])
        &&& forall|i: int, j: int|
            0 <= i < j < self.cards.len() ==> (#[trigger] self.cards[i]).card_id != (
            #[trigger] self.cards[j]).card_id
    }

    /// Timer keys are positive, below the next generated key, and pairwise distinct.
    pub open spec fn timers_wf(self) -> bool {
        &&& forall|i: int|
            0 <= i < self.timers.len() ==> 0 < (#[trigger] self.timers[i]).scheduled_id
                < self.next_timer_id
        &&& forall|i: int, j: int|
            0 <= i < j < self.timers.len() ==> (#[trigger] self.timers[i]).scheduled_id != (
            #[trigger] self.timers[j]).scheduled_id
    }

    /// The invariant of the store: keys identify records, generated keys are
    /// fresh, and every record is within the ranges the rules allow.
    pub open spec fn wf(self) -> bool {
        &&& 1 <= self.next_tile_id
        &&& 1 <= self.next_card_id
        &&& 1 <= self.next_timer_id
        &&& self.tiles_wf()
        &&& self.players_wf()
        &&& self.cards_wf()
        &&& self.timers_wf()
        &&& self.game matches Some(g) ==> game_valid(g)
    }

    /// The store with the tile at position `i` replaced.
    pub open spec fn set_tile(self, i: int, tile: Tile) -> StoreView {
        StoreView { tiles: self.tiles.update(i, tile), ..self }
    }

    /// The store with the player at position `i` replaced.
    pub open spec fn set_player(self, i: int, player: Player) -> StoreView {
        StoreView { players: self.players.update(i, player), ..self }
    }

    /// The store with the card at position `i` replaced.
    pub open spec fn set_card(self, i: int, card: Card) -> StoreView {
        StoreView { cards: self.cards.update(i, card), ..self }
    }

    /// The store without the card at position `i`.
    pub open spec fn drop_card(self, i: int) -> StoreView {
        StoreView { cards: self.cards.remove(i), ..self }
    }

    /// The store with its game record replaced.
    pub open spec fn set_game(self, game: Game) -> StoreView {
        StoreView { game: Some(game), ..self }
    }

    /// The tile that an insert of `tile` stores, or why it is refused. Key 0
    /// asks for a generated key.
    pub open spec fn tile_to_insert(self, tile: Tile) -> Result<Tile, StoreError> {
        if tile.tile_id == 0 {
            if self.next_tile_id == u32::MAX {
                Err(StoreError::KeyOutOfRange)
            } else {
                Ok(Tile { tile_id: self.next_tile_id, ..tile })
            }
        } else if tile.tile_id == u32::MAX {
            Err(StoreError::KeyOutOfRange)
        } else if self.tile_index(tile.tile_id) is Some {
            Err(StoreError::DuplicateKey)
        } else {
            Ok(tile)
        }
    }

    /// The store with `tile` appended; later generated keys lie above its key.
    pub open spec fn push_tile(self, tile: Tile) -> StoreView {
        StoreView {
            tiles: self.tiles.push(tile),
            next_tile_id: if tile.tile_id >= self.next_tile_id {
                (tile.tile_id + 1) as u32
            } else {
                self.next_tile_id
            },
            ..self
        }
    }

    /// The card that an insert of `card` stores, or why it is refused. Key 0
    /// asks for a generated key.
    pub open spec fn card_to_insert(self, card: Card) -> Result<Card, StoreError> {
        if !card_valid(card) {
            Err(StoreError::InvalidRecord)
        } else if card.card_id == 0 {
            if self.next_card_id == u32::MAX {
                Err(StoreError::KeyOutOfRange)
            } else {
                Ok(Card { card_id: self.next_card_id, ..card })
            }
        } else if card.card_id == u32::MAX {
            Err(StoreError::KeyOutOfRange)
        } else if self.card_index(card.card_id) is Some {
            Err(StoreError::DuplicateKey)
        } else {
            Ok(card)
        }
    }

    /// The store with `card` appended; later generated keys lie above its key.
    pub open spec fn push_card(self, card: Card) -> StoreView {
        StoreView {
            cards: self.cards.push(card),
            next_card_id: if card.card_id >= self.next_card_id {
                (card.card_id + 1) as u32
            } else {
                self.next_card_id
            },
            ..self
        }
    }

    /// The timer that an insert of `timer` stores, or why it is refused. Key 0
    /// asks for a generated key.
    pub open spec fn timer_to_insert(self, timer: NextTurnTimer) -> Result<
        NextTurnTimer,
        StoreError,
    > {
        if timer.scheduled_id == 0 {
            if self.next_timer_id == u64::MAX {
                Err(StoreError::KeyOutOfRange)
            } else {
                Ok(NextTurnTimer { scheduled_id: self.next_timer_id, ..timer })
            }
        } else if timer.scheduled_id == u64::MAX {
            Err(StoreError::KeyOutOfRange)
        } else if self.timer_index(timer.scheduled_id) is Some {
            Err(StoreError::DuplicateKey)
        } else {
            Ok(timer)
        }
    }

    /// The store with `timer` appended; later generated keys lie above its key.
    pub open spec fn push_timer(self, timer: NextTurnTimer) -> StoreView {
        StoreView {
            timers: self.timers.push(timer),
            next_timer_id: if timer.scheduled_id >= self.next_timer_id {
                (timer.scheduled_id + 1) as u64
            } else {
                self.next_timer_id
            },
            ..self
        }
    }

    /// Why an insert of `player` is refused, if it is.
    pub open spec fn player_insert_error(self, player: Player) -> Option<StoreError> {
        if !player_valid(player) {
            Some(StoreError::InvalidRecord)
        } else if self.player_index(player.color) is Some {
            Some(StoreError::DuplicateKey)
        } else {
            None
        }
    }

    /// The store with `player` appended.
    pub open spec fn push_player(self, player: Player) -> StoreView {
        StoreView { players: self.players.push(player), ..self }
    }
}

impl StoreView {
    /// In a well-formed store the key of the tile at position `i` leads back to `i`.
    pub proof fn lemma_tile_index(self, i: int)
        requires
            self.tiles_wf(),
            0 <= i < self.tiles.len(),
        ensures
            self.tile_index(self.tiles[i].tile_id) == Some(i),
    {
        lemma_first_where_is(self.tiles, tile_with_id(self.tiles[i].tile_id), i);
    }

    /// In a well-formed store the colour of the player at position `i` leads back to `i`.
    pub proof fn lemma_player_index(self, i: int)
        requires
            self.players_wf(),
            0 <= i < self.players.len(),
        ensures
            self.player_index(self.players[i].color) == Some(i),
    {
        lemma_first_where_is(self.players, player_with_color(self.players[i].color), i);
    }

    /// In a well-formed store the key of the card at position `i` leads back to `i`.
    pub proof fn lemma_card_index(self, i: int)
        requires
            self.cards_wf(),
            0 <= i < self.cards.len(),
        ensures
            self.card_index(self.cards[i].card_id) == Some(i),
    {
        lemma_first_where_is(self.cards, card_with_id(self.cards[i].card_id), i);
    }

    /// A position that a tile lookup returns is in range and holds a tile with
    /// the key asked for; no lookup result means no tile has the key.
    pub proof fn lemma_tile_lookup(self, id: u32)
        ensures
            match self.tile_index(id) {
                Some(i) => 0 <= i < self.tiles.len() && self.tiles[i].tile_id == id,
                None => forall|j: int|
                    0 <= j < self.tiles.len() ==> (#[trigger] self.tiles[j]).tile_id != id,
            },
    {
        lemma_first_where(self.tiles, tile_with_id(id));
    }

    /// A position that a lookup by coordinates returns is in range and holds a
    /// tile at those coordinates, the first such; no result means no tile is there.
    pub proof fn lemma_tile_lookup_at(self, x: u32, y: u32)
        ensures
            match self.tile_index_at(x, y) {
                Some(i) => 0 <= i < self.tiles.len() && self.tiles[i].x == x && self.tiles[i].y
                    == y && forall|j: int|
                    0 <= j < i ==> !((#[trigger] self.tiles[j]).x == x && self.tiles[j].y == y),
                None => forall|j: int|
                    0 <= j < self.tiles.len() ==> !((#[trigger] self.tiles[j]).x == x
                        && self.tiles[j].y == y),
            },
    {
        lemma_first_where(self.tiles, tile_at(x, y));
    }

    /// A position that a player lookup returns is in range and holds the
    /// player of the colour asked for; no result means no player has the colour.
    pub proof fn lemma_player_lookup(self, color: Color)
        ensures
            match self.player_index(color) {
                Some(i) => 0 <= i < self.players.len() && self.players[i].color == color,
                None => forall|j: int|
                    0 <= j < self.players.len() ==> (#[trigger] self.players[j]).color != color,
            },
    {
        lemma_first_where(self.players, player_with_color(color));
    }

    /// A position that a lookup by identity returns is in range and holds a
    /// player bound to that identity, the first such; no result means no
    /// player is bound to it.
    pub proof fn lemma_player_lookup_of(self, who: Identity)
        ensures
            match self.player_index_of(who) {
                Some(i) => 0 <= i < self.players.len() && self.players[i].identity == Some(who)
                    && forall|j: int|
                    0 <= j < i ==> (#[trigger] self.players[j]).identity != Some(who),
                None => forall|j: int|
                    0 <= j < self.players.len() ==> (#[trigger] self.players[j]).identity
                        != Some(who),
            },
    {
        lemma_first_where(self.players, player_bound_to(who));
    }

    /// A position that a card lookup returns is in range and holds a card with
    /// the key asked for; no result means no card has the key.
    pub proof fn lemma_card_lookup(self, id: u32)
        ensures
            match self.card_index(id) {
                Some(i) => 0 <= i < self.cards.len() && self.cards[i].card_id == id,
                None => forall|j: int|
                    0 <= j < self.cards.len() ==> (#[trigger] self.cards[j]).card_id != id,
            },
    {
        lemma_first_where(self.cards, card_with_id(id));
    }
}

/// The store.
pub struct Store {
    tiles: Vec<Tile>,
    players: Vec<Player>,
    cards: Vec<Card>,
    game: Option<Game>,
    timers: Vec<NextTurnTimer>,
    next_tile_id: u32,
    next_card_id: u32,
    next_timer_id: u64,
}

impl View for Store {
    type V = StoreView;

    closed spec fn view(&self) -> StoreView {
        StoreView {
            tiles: self.tiles@,
            players: self.players@,
            cards: self.cards@,
            game: self.game,
            timers: self.timers@,
            next_tile_id: self.next_tile_id,
            next_card_id: self.next_card_id,
            next_timer_id: self.next_timer_id,
        }
    }
}

impl Store {
    /// An empty store; generated keys start at 1.
    pub fn new() -> (s: Store)
        ensures
            s@ == StoreView::empty(),
            s@.wf(),
    {
        Store {
            tiles: Vec::new(),
            players: Vec::new(),
            cards: Vec::new(),
            game: None,
            timers: Vec::new(),
            next_tile_id: 1,
            next_card_id: 1,
            next_timer_id: 1,
        }
    }

    /// All tiles, in insertion order.
    pub fn tiles(&self) -> (r: &Vec<Tile>)
        ensures
            r@ == self@.tiles,
    {
        &self.tiles
    }

    /// All players, in insertion order.
    pub fn players(&self) -> (r: &Vec<Player>)
        ensures
            r@ == self@.players,
    {
        &self.players
    }

    /// All cards, in insertion order.
    pub fn cards(&self) -> (r: &Vec<Card>)
        ensures
            r@ == self@.cards,
    {
        &self.cards
    }

    /// All timers, in insertion order.
    pub fn timers(&self) -> (r: &Vec<NextTurnTimer>)
        ensures
            r@ == self@.timers,
    {
        &self.timers
    }

    /// The game record, if the game has been set up.
    pub fn game(&self) -> (r: Option<Game>)
        ensures
            r == self@.game,
    {
        self.game
    }

    /// The key the next generated card key will be.
    pub fn next_card_id(&self) -> (r: u32)
        ensures
            r == self@.next_card_id,
    {
        self.next_card_id
    }

    fn tile_position(&self, id: u32) -> (r: Option<usize>)
        ensures
            match r {
                Some(i) => self@.tile_index(id) == Some(i as int) && i < self@.tiles.len()
                    && self@.tiles[i as int].tile_id == id,
                None => self@.tile_index(id) is None,
            },
    {
        let ghost p = tile_with_id(id);
        let mut i: usize = 0;
        while i < self.tiles.len()
            invariant
                i <= self.tiles.len(),
                p == tile_with_id(id),
                first_where(self.tiles@, p) == first_from(self.tiles@, p, i as int),
            decreases self.tiles.len() - i,
        {
            if self.tiles[i].tile_id == id {
                return Some(i);
            }
            i += 1;
        }
        None
    }

    fn tile_position_at(&self, x: u32, y: u32) -> (r: Option<usize>)
        ensures
            match r {
                Some(i) => self@.tile_index_at(x, y) == Some(i as int) && i < self@.tiles.len()
                    && self@.tiles[i as int].x == x && self@.tiles[i as int].y == y,
                None => self@.tile_index_at(x, y) is None,
            },
    {
        let ghost p = tile_at(x, y);
        let mut i: usize = 0;
        while i < self.tiles.len()
            invariant
                i <= self.tiles.len(),
                p == tile_at(x, y),
                first_where(self.tiles@, p) == first_from(self.tiles@, p, i as int),
            decreases self.tiles.len() - i,
        {
            if self.tiles[i].x == x && self.tiles[i].y == y {
                return Some(i);
            }
            i += 1;
        }
        None
    }

    /// Looks a tile up by its key.
    pub fn find_tile(&self, id: u32) -> (r: Option<Tile>)
        ensures
            r == self@.tile(id),
    {
        match self.tile_position(id) {
            Some(i) => Some(self.tiles[i]),
            None => None,
        }
    }

    /// Looks up the first tile at coordinates `(x, y)`.
    pub fn find_tile_at(&self, x: u32, y: u32) -> (r: Option<Tile>)
        ensures
            r == self@.tile_at(x, y),
    {
        match self.tile_position_at(x, y) {
            Some(i) => Some(self.tiles[i]),
            None => None,
        }
    }

    /// Stores a new tile and returns it as stored. Key 0 asks for a generated
    /// key. A refused insert leaves the store unchanged.
    pub fn insert_tile(&mut self, tile: Tile) -> (r: Result<Tile, StoreError>)
        requires
            old(self)@.wf(),
        ensures
            final(self)@.wf(),
            r == old(self)@.tile_to_insert(tile),
            match r {
                Ok(stored) => final(self)@ == old(self)@.push_tile(stored),
                Err(_) => final(self)@ == old(self)@,
            },
    {
        let mut row = tile;
        if tile.tile_id == 0 {
            if self.next_tile_id == u32::MAX {
                return Err(StoreError::KeyOutOfRange);
            }
            row.tile_id = self.next_tile_id;
        } else if tile.tile_id == u32::MAX {
            return Err(StoreError::KeyOutOfRange);
        } else if self.tile_position(tile.tile_id).is_some() {
            return Err(StoreError::DuplicateKey);
        } else {
            proof {
                lemma_first_where(self.tiles@, tile_with_id(tile.tile_id));
            }
        }
        if row.tile_id >= self.next_tile_id {
            self.next_tile_id = row.tile_id + 1;
        }
        self.tiles.push(row);
        Ok(row)
    }

    /// Replaces the tile that has the key of `tile`. Fails with `NotFound`,
    /// leaving the store unchanged, if there is none.
    pub fn update_tile(&mut self, tile: Tile) -> (r: Result<(), StoreError>)
        requires
            old(self)@.wf(),
        ensures
            final(self)@.wf(),
            match old(self)@.tile_index(tile.tile_id) {
                Some(i) => r is Ok && final(self)@ == old(self)@.set_tile(i, tile),
                None => r == Err::<(), StoreError>(StoreError::NotFound) && final(self)@
                    == old(self)@,
            },
    {
        match self.tile_position(tile.tile_id) {
            Some(i) => {
                self.tiles.set(i, tile);
                Ok(())
            },
            None => Err(StoreError::NotFound),
        }
    }

    fn player_position(&self, color: Color) -> (r: Option<usize>)
        ensures
            match r {
                Some(i) => self@.player_index(color) == Some(i as int) && i < self@.players.len()
                    && self@.players[i as int].color == color,
                None => self@.player_index(color) is None,
            },
    {
        let ghost p = player_with_color(color);
        let mut i: usize = 0;
        while i < self.players.len()
            invariant
                i <= self.players.len(),
                p == player_with_color(color),
                first_where(self.players@, p) == first_from(self.players@, p, i as int),
            decreases self.players.len() - i,
        {
            if self.players[i].color == color {
                return Some(i);
            }
            i += 1;
        }
        None
    }

    fn player_position_of(&self, who: Identity) -> (r: Option<usize>)
        ensures
            match r {
                Some(i) => self@.player_index_of(who) == Some(i as int) && i
                    < self@.players.len() && self@.players[i as int].identity == Some(who),
                None => self@.player_index_of(who) is None,
            },
    {
        let ghost p = player_bound_to(who);
        let mut i: usize = 0;
        while i < self.players.len()
            invariant
                i <= self.players.len(),
                p == player_bound_to(who),
                first_where(self.players@, p) == first_from(self.players@, p, i as int),
            decreases self.players.len() - i,
        {
            let bound = match self.players[i].identity {
                Some(id) => id == who,
                None => false,
            };
            if bound {
                return Some(i);
            }
            i += 1;
        }
        None
    }

    /// Looks a player up by colour.
    pub fn find_player(&self, color: Color) -> (r: Option<Player>)
        ensures
            r == self@.player(color),
    {
        match self.player_position(color) {
            Some(i) => Some(self.players[i]),
            None => None,
        }
    }

    /// Looks up the first player bound to identity `who`.
    pub fn find_player_by_identity(&self, who: Identity) -> (r: Option<Player>)
        ensures
            r == self@.player_of(who),
    {
        match self.player_position_of(who) {
            Some(i) => Some(self.players[i]),
            None => None,
        }
    }

    /// Stores a new player. A refused insert leaves the store unchanged.
    pub fn insert_player(&mut self, player: Player) -> (r: Result<(), StoreError>)
        requires
            old(self)@.wf(),
        ensures
            final(self)@.wf(),
            match old(self)@.player_insert_error(player) {
                Some(e) => r == Err::<(), StoreError>(e) && final(self)@ == old(self)@,
                None => r is Ok && final(self)@ == old(self)@.push_player(player),
            },
    {
        if player.stamina > MAX_STAMINA {
            return Err(StoreError::InvalidRecord);
        }
        if self.player_position(player.color).is_some() {
            return Err(StoreError::DuplicateKey);
        }
        proof {
            lemma_first_where(self.players@, player_with_color(player.color));
        }
        self.players.push(player);
        Ok(())
    }

    /// Replaces the player that has the colour of `player`. Fails with
    /// `InvalidRecord` if the new record is not valid and with `NotFound` if no
    /// player has that colour; a failure leaves the store unchanged.
    pub fn update_player(&mut self, player: Player) -> (r: Result<(), StoreError>)
        requires
            old(self)@.wf(),
        ensures
            final(self)@.wf(),
            !player_valid(player) ==> r == Err::<(), StoreError>(StoreError::InvalidRecord)
                && final(self)@ == old(self)@,
            player_valid(player) ==> match old(self)@.player_index(player.color) {
                Some(i) => r is Ok && final(self)@ == old(self)@.set_player(i, player),
                None => r == Err::<(), StoreError>(StoreError::NotFound) && final(self)@
                    == old(self)@,
            },
    {
        if player.stamina > MAX_STAMINA {
            return Err(StoreError::InvalidRecord);
        }
        match self.player_position(player.color) {
            Some(i) => {
                self.players.set(i, player);
                Ok(())
            },
            None => Err(StoreError::NotFound),
        }
    }

    fn card_position(&self, id: u32) -> (r: Option<usize>)
        ensures
            match r {
                Some(i) => self@.card_index(id) == Some(i as int) && i < self@.cards.len()
                    && self@.cards[i as int].card_id == id,
                None => self@.card_index(id) is None,
            },
    {
        let ghost p = card_with_id(id);
        let mut i: usize = 0;
        while i < self.cards.len()
            invariant
                i <= self.cards.len(),
                p == card_with_id(id),
                first_where(self.cards@, p) == first_from(self.cards@, p, i as int),
            decreases self.cards.len() - i,
        {
            if self.cards[i].card_id == id {
                return Some(i);
            }
            i += 1;
        }
        None
    }

    /// Looks a card up by its key.
    pub fn find_card(&self, id: u32) -> (r: Option<Card>)
        ensures
            r == self@.card(id),
    {
        match self.card_position(id) {
            Some(i) => Some(self.cards[i]),
            None => None,
        }
    }

    /// Stores a new card and returns it as stored. Key 0 asks for a generated
    /// key. A refused insert leaves the store unchanged.
    pub fn insert_card(&mut self, card: Card) -> (r: Result<Card, StoreError>)
        requires
            old(self)@.wf(),
        ensures
            final(self)@.wf(),
            r == old(self)@.card_to_insert(card),
            match r {
                Ok(stored) => final(self)@ == old(self)@.push_card(stored),
                Err(_) => final(self)@ == old(self)@,
            },
    {
        if card.value < 1 || card.value > MAX_RANK {
            return Err(StoreError::InvalidRecord);
        }
        let mut row = card;
        if card.card_id == 0 {
            if self.next_card_id == u32::MAX {
                return Err(StoreError::KeyOutOfRange);
            }
            row.card_id = self.next_card_id;
        } else if card.card_id == u32::MAX {
            return Err(StoreError::KeyOutOfRange);
        } else if self.card_position(card.card_id).is_some() {
            return Err(StoreError::DuplicateKey);
        } else {
            proof {
                lemma_first_where(self.cards@, card_with_id(card.card_id));
            }
        }
        if row.card_id >= self.next_card_id {
            self.next_card_id = row.card_id + 1;
        }
        self.cards.push(row);
        Ok(row)
    }

    /// Replaces the card that has the key of `card`. Fails with
    /// `InvalidRecord` if the new record is not valid and with `NotFound` if no
    /// card has that key; a failure leaves the store unchanged.
    pub fn update_card(&mut self, card: Card) -> (r: Result<(), StoreError>)
        requires
            old(self)@.wf(),
        ensures
            final(self)@.wf(),
            !card_valid(card) ==> r == Err::<(), StoreError>(StoreError::InvalidRecord)
                && final(self)@ == old(self)@,
            card_valid(card) ==> match old(self)@.card_index(card.card_id) {
                Some(i) => r is Ok && final(self)@ == old(self)@.set_card(i, card),
                None => r == Err::<(), StoreError>(StoreError::NotFound) && final(self)@
                    == old(self)@,
            },
    {
        if card.value < 1 || card.value > MAX_RANK {
            return Err(StoreError::InvalidRecord);
        }
        match self.card_position(card.card_id) {
            Some(i) => {
                self.cards.set(i, card);
                Ok(())
            },
            None => Err(StoreError::NotFound),
        }
    }

    /// Removes the card with key `id` and says whether there was one.
    pub fn delete_card(&mut self, id: u32) -> (removed: bool)
        requires
            old(self)@.wf(),
        ensures
            final(self)@.wf(),
            match old(self)@.card_index(id) {
                Some(i) => removed && final(self)@ == old(self)@.drop_card(i),
                None => !removed && final(self)@ == old(self)@,
            },
    {
        match self.card_position(id) {
            Some(i) => {
                self.cards.remove(i);
                true
            },
            None => false,
        }
    }

    /// Stores the game record. Fails with `InvalidRecord` if the record is not
    /// valid and with `DuplicateKey` if a game is stored already; a failure
    /// leaves the store unchanged.
    pub fn insert_game(&mut self, game: Game) -> (r: Result<(), StoreError>)
        requires
            old(self)@.wf(),
        ensures
            final(self)@.wf(),
            !game_valid(game) ==> r == Err::<(), StoreError>(StoreError::InvalidRecord)
                && final(self)@ == old(self)@,
            game_valid(game) && old(self)@.game is Some ==> r == Err::<(), StoreError>(
                StoreError::DuplicateKey,
            ) && final(self)@ == old(self)@,
            game_valid(game) && old(self)@.game is None ==> r is Ok && final(self)@
                == old(self)@.set_game(game),
    {
        if game.current_player_index >= PLAYER_COUNT {
            return Err(StoreError::InvalidRecord);
        }
        if self.game.is_some() {
            return Err(StoreError::DuplicateKey);
        }
        self.game = Some(game);
        Ok(())
    }

    /// Replaces the game record. Fails with `InvalidRecord` if the new record
    /// is not valid and with `NotFound` if no game is stored; a failure leaves
    /// the store unchanged.
    pub fn update_game(&mut self, game: Game) -> (r: Result<(), StoreError>)
        requires
            old(self)@.wf(),
        ensures
            final(self)@.wf(),
            !game_valid(game) ==> r == Err::<(), StoreError>(StoreError::InvalidRecord)
                && final(self)@ == old(self)@,
            game_valid(game) && old(self)@.game is None ==> r == Err::<(), StoreError>(
                StoreError::NotFound,
            ) && final(self)@ == old(self)@,
            game_valid(game) && old(self)@.game is Some ==> r is Ok && final(self)@
                == old(self)@.set_game(game),
    {
        if game.current_player_index >= PLAYER_COUNT {
            return Err(StoreError::InvalidRecord);
        }
        if self.game.is_none() {
            return Err(StoreError::NotFound);
        }
        self.game = Some(game);
        Ok(())
    }

    fn timer_position(&self, id: u64) -> (r: Option<usize>)
        ensures
            match r {
                Some(i) => self@.timer_index(id) == Some(i as int) && i < self@.timers.len()
                    && self@.timers[i as int].scheduled_id == id,
                None => self@.timer_index(id) is None,
            },
    {
        let ghost p = timer_with_id(id);
        let mut i: usize = 0;
        while i < self.timers.len()
            invariant
                i <= self.timers.len(),
                p == timer_with_id(id),
                first_where(self.timers@, p) == first_from(self.timers@, p, i as int),
            decreases self.timers.len() - i,
        {
            if self.timers[i].scheduled_id == id {
                return Some(i);
            }
            i += 1;
        }
        None
    }

    /// Stores a new timer and returns it as stored. Key 0 asks for a generated
    /// key. A refused insert leaves the store unchanged.
    pub fn insert_timer(&mut self, timer: NextTurnTimer) -> (r: Result<NextTurnTimer, StoreError>)
        requires
            old(self)@.wf(),
        ensures
            final(self)@.wf(),
            r == old(self)@.timer_to_insert(timer),
            match r {
                Ok(stored) => final(self)@ == old(self)@.push_timer(stored),
                Err(_) => final(self)@ == old(self)@,
            },
    {
        let mut row = timer;
        if timer.scheduled_id == 0 {
            if self.next_timer_id == u64::MAX {
                return Err(StoreError::KeyOutOfRange);
            }
            row.scheduled_id = self.next_timer_id;
        } else if timer.scheduled_id == u64::MAX {
            return Err(StoreError::KeyOutOfRange);
        } else if self.timer_position(timer.scheduled_id).is_some() {
            return Err(StoreError::DuplicateKey);
        } else {
            proof {
                lemma_first_where(self.timers@, timer_with_id(timer.scheduled_id));
            }
        }
        if row.scheduled_id >= self.next_timer_id {
            self.next_timer_id = row.scheduled_id + 1;
        }
        self.timers.push(row);
        Ok(row)
    }
}

} // verus!
