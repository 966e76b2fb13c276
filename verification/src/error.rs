//! The failures a command can end in.

use vstd::prelude::*;
use crate::combat::AttackError;

verus! {

/// Why a command was refused. A refused command changes nothing.
#[derive(Clone, Copy, Debug, PartialEq, Eq, Structural)]
pub enum GameError {
    /// No player is bound to the caller's identity.
    PlayerNotFound,
    /// No tile has the key or the coordinates given.
    TileNotFound,
    /// The caller does not own a tile the command needs them to own.
    NotOwner,
    /// The caller has no gold to pay with.
    InsufficientGold,
    /// A tank takes exactly two cards.
    InvalidCardCount,
    /// No card has one of the keys given.
    CardNotFound,
    /// The caller does not own both cards.
    CardNotOwned,
    /// The two cards differ in rank.
    NotAPair,
    /// The source tile has at most one troop.
    InsufficientTroops,
    /// The attack power does not exceed the defense.
    AttackTooWeak,
    /// The two tiles are not next to each other.
    NotAdjacent,
    /// The source tile has fewer troops or tanks than are to move.
    InsufficientUnits,
    /// The move would leave the source tile without a troop.
    MustKeepGarrison,
}

impl GameError {
    /// The command failure that a combat failure amounts to.
    pub open spec fn of_attack(e: AttackError) -> GameError {
        match e {
            AttackError::InsufficientTroops => GameError::InsufficientTroops,
            AttackError::AttackTooWeak => GameError::AttackTooWeak,
        }
    }

    /// The text shown to the caller for each failure.
    pub open spec fn text(self) -> Seq<char> {
        match self {
            GameError::PlayerNotFound => "Player not found"@,
            GameError::TileNotFound => "Tile not found"@,
            GameError::NotOwner => "You don't own this tile"@,
            GameError::InsufficientGold => "Not enough gold"@,
            GameError::InvalidCardCount => "Must provide exactly two cards"@,
            GameError::CardNotFound => "Card not found"@,
            GameError::CardNotOwned => "You don't own both cards"@,
            GameError::NotAPair => "Cards must be a pair (same number)"@,
            GameError::InsufficientTroops => "You need at least 2 troops to attack"@,
            GameError::AttackTooWeak => "Attack power must be greater than defense"@,
            GameError::NotAdjacent => "Tiles must be adjacent"@,
            GameError::InsufficientUnits => "Not enough units to move"@,
            GameError::MustKeepGarrison => "Source tile must keep at least 1 troop"@,
        }
    }

    /// The command failure that a combat failure amounts to.
    pub fn from_attack(e: AttackError) -> (r: GameError)
        ensures
            r == GameError::of_attack(e),
    {
        match e {
            AttackError::InsufficientTroops => GameError::InsufficientTroops,
            AttackError::AttackTooWeak => GameError::AttackTooWeak,
        }
    }

    /// The text shown to the caller for this failure.
    pub fn message(&self) -> (s: &'static str)
        ensures
            s@ == self.text(),
    {
        match self {
            GameError::PlayerNotFound => "Player not found",
            GameError::TileNotFound => "Tile not found",
            GameError::NotOwner => "You don't own this tile",
            GameError::InsufficientGold => "Not enough gold",
            GameError::InvalidCardCount => "Must provide exactly two cards",
            GameError::CardNotFound => "Card not found",
            GameError::CardNotOwned => "You don't own both cards",
            GameError::NotAPair => "Cards must be a pair (same number)",
            GameError::InsufficientTroops => "You need at least 2 troops to attack",
            GameError::AttackTooWeak => "Attack power must be greater than defense",
            GameError::NotAdjacent => "Tiles must be adjacent",
            GameError::InsufficientUnits => "Not enough units to move",
            GameError::MustKeepGarrison => "Source tile must keep at least 1 troop",
        }
    }
}

} // verus!
