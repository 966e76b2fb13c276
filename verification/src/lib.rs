//! Authoritative core of a turn-based territorial strategy game for up to five
//! players, each bound to a fixed colour.
//!
//! The crate keeps a consistent shared world (a grid of owned tiles, player
//! resources and a card deck) in an in-memory [`store::Store`], advances turns,
//! and applies player commands atomically. Every executable function carries a
//! contract over the store's mathematical view, [`store::StoreView`]; what
//! holds of the game as a whole is proved in [`laws`].
//!
//! The store stands for the durable tables of the host the game runs on, and
//! the caller's identity is handed to each command as a plain value: the host
//! reads its tables into a store, calls one command, and writes back what
//! changed, all within one transaction.

pub mod color;
pub mod combat;
pub mod commands;
pub mod deck;
pub mod entity;
pub mod error;
pub mod laws;
pub mod seq_util;
pub mod setup;
pub mod store;
pub mod turn;

pub use crate::combat::resolve_attack;
pub use crate::commands::attack;
pub use crate::commands::build_infantry;
pub use crate::commands::build_tank;
pub use crate::commands::client_disconnected;
pub use crate::commands::join_game;
pub use crate::commands::move_units;
pub use crate::deck::create_new_deck;
pub use crate::entity::Card;
pub use crate::entity::Game;
pub use crate::entity::NextTurnTimer;
pub use crate::entity::Player;
pub use crate::entity::Tile;
pub use crate::setup::init;
pub use crate::turn::next_turn;
