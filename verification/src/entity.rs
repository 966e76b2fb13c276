//! The records the world is made of. They are plain data: every field is public
//! and carries no hidden state; the invariants that tie records together are
//! stated once, on the store that owns them.

use vstd::prelude::*;
use crate::color::Color;
use crate::color::Suit;

verus! {

/// Side length of the square board.
pub const BOARD_SIZE: u32 = 7;

/// Defense of a tile nobody owns.
pub const NATURAL_DEFENSE: u32 = 1;

/// Troops on each starting tile.
pub const STARTING_TROOPS: u32 = 5;

/// Highest rank of a card; ranks run from 1 (ace) to 13 (king).
pub const MAX_RANK: u8 = 13;

/// Cards in one complete deck.
pub const DECK_SIZE: u32 = 52;

/// Cap on a player's stamina.
pub const MAX_STAMINA: u32 = 2;

/// Gold granted to the player whose turn comes up.
pub const TURN_GOLD: u32 = 2;

/// Cards dealt to the player whose turn comes up.
pub const CARDS_PER_TURN: u32 = 2;

/// Key of the single game record.
pub const GAME_NAME: &'static str = "main";

/// Seconds between two turn ticks unless the host configures another period.
pub const DEFAULT_TURN_INTERVAL_SECS: u64 = 5;

/// The opaque 256-bit token a connection is known by, as two halves.
#[derive(Clone, Copy, Debug, PartialEq, Eq, Structural)]
pub struct Identity {
    pub high: u128,
    pub low: u128,
}

/// One cell of the board.
#[derive(Clone, Copy, Debug, PartialEq, Eq, Structural)]
pub struct Tile {
    /// Generated key; 0 asks the store to generate one on insert.
    pub tile_id: u32,
    pub x: u32,
    pub y: u32,
    /// `None` means neutral.
    pub owner_color: Option<Color>,
    pub troops: u32,
    pub tanks: u32,
}

/// One seat at the table, keyed by its colour.
#[derive(Clone, Copy, Debug, PartialEq, Eq, Structural)]
pub struct Player {
    pub color: Color,
    /// `None` means the colour is unclaimed.
    pub identity: Option<Identity>,
    pub online: bool,
    pub gold: u32,
    pub stamina: u32,
}

/// The single record of the running game.
#[derive(Clone, Copy, Debug, PartialEq, Eq, Structural)]
pub struct Game {
    pub turn: u64,
    pub current_player_index: u32,
}

/// The record of the repeating timer that fires the turn tick.
#[derive(Clone, Copy, Debug, PartialEq, Eq, Structural)]
pub struct NextTurnTimer {
    /// Generated key; 0 asks the store to generate one on insert.
    pub scheduled_id: u64,
    /// Period of the timer in seconds.
    pub interval_secs: u64,
}

/// One playing card.
#[derive(Clone, Copy, Debug, PartialEq, Eq, Structural)]
pub struct Card {
    /// Generated key; 0 asks the store to generate one on insert.
    pub card_id: u32,
    pub suit: Suit,
    /// Rank, 1 to 13.
    pub value: u8,
    /// `None` means the card is in the deck.
    pub owner_color: Option<Color>,
}

} // verus!
