//! Combat resolution: what an attack from one tile on another does to both.

use vstd::prelude::*;
use crate::entity::Tile;
use crate::entity::NATURAL_DEFENSE;

verus! {

/// Why an attack does not take place.
#[derive(Clone, Copy, Debug, PartialEq, Eq, Structural)]
pub enum AttackError {
    /// The source tile has at most one troop: one must stay, one must attack.
    InsufficientTroops,
    /// The attack power does not exceed the defense.
    AttackTooWeak,
}

/// Strength a tile attacks with: one per troop, two per tank.
pub open spec fn attack_power(from: Tile) -> int {
    from.troops + 2 * from.tanks
}

/// Strength a tile defends with: the natural defense if nobody owns it, else
/// one per troop and two per tank.
pub open spec fn defense(to: Tile) -> int {
    if to.owner_color is None {
        NATURAL_DEFENSE as int
    } else {
        to.troops + 2 * to.tanks
    }
}

/// Losses the attacker takes: the margin by which the attack wins.
pub open spec fn losses(from: Tile, to: Tile) -> int {
    attack_power(from) - defense(to)
}

/// Tanks the attacker loses: each absorbs two losses, until the tanks or the
/// pairs of losses run out.
pub open spec fn tanks_destroyed(from: Tile, to: Tile) -> int {
    let pairs = losses(from, to) / 2;
    if pairs < from.tanks {
        pairs
    } else {
        from.tanks as int
    }
}

/// Troops the attacker has left once the losses that no tank absorbed are
/// taken from them, never below zero.
pub open spec fn surviving_troops(from: Tile, to: Tile) -> int {
    let rest = losses(from, to) - 2 * tanks_destroyed(from, to);
    if rest < from.troops {
        from.troops - rest
    } else {
        0
    }
}

/// Both tiles after a successful attack. The source keeps one troop and its
/// surviving tanks. The target goes to the attacker with the surviving troops
/// and with the full tank count the attacker set out with.
pub open spec fn tiles_after_attack(from: Tile, to: Tile) -> (Tile, Tile) {
    (
        Tile { troops: 1, tanks: (from.tanks - tanks_destroyed(from, to)) as u32, ..from },
        Tile {
            owner_color: from.owner_color,
            troops: surviving_troops(from, to) as u32,
            tanks: from.tanks,
            ..to
        },
    )
}

/// The outcome of an attack of `from` on `to`.
pub open spec fn attack_outcome(from: Tile, to: Tile) -> Result<(Tile, Tile), AttackError> {
    if from.troops <= 1 {
        Err(AttackError::InsufficientTroops)
    } else if attack_power(from) <= defense(to) {
        Err(AttackError::AttackTooWeak)
    } else {
        Ok(tiles_after_attack(from, to))
    }
}

/// Resolves an attack of `from` on `to` and returns both tiles as they are
/// afterwards, source first. Neither argument is changed; a refused attack
/// returns no tiles at all.
pub fn resolve_attack(from: &Tile, to: &Tile) -> (r: Result<(Tile, Tile), AttackError>)
    ensures
        r == attack_outcome(*from, *to),
{
    if from.troops <= 1 {
        return Err(AttackError::InsufficientTroops);
    }
    let power: u64 = from.troops as u64 + 2 * (from.tanks as u64);
    let guard: u64 = if to.owner_color.is_none() {
        NATURAL_DEFENSE as u64
    } else {
        to.troops as u64 + 2 * (to.tanks as u64)
    };
    if power <= guard {
        return Err(AttackError::AttackTooWeak);
    }
    let total_losses: u64 = power - guard;
    let mut remaining_tanks: u32 = from.tanks;
    let mut losses_remaining: u64 = total_losses;
    while losses_remaining >= 2 && remaining_tanks > 0
        invariant
            remaining_tanks <= from.tanks,
            losses_remaining == total_losses - 2 * (from.tanks - remaining_tanks),
            from.tanks - remaining_tanks <= total_losses / 2,
        decreases remaining_tanks,
    {
        remaining_tanks -= 1;
        losses_remaining -= 2;
    }
    let remaining_troops: u32 = if losses_remaining < from.troops as u64 {
        (from.troops as u64 - losses_remaining) as u32
    } else {
        0
    };
    let source = Tile {
        tile_id: from.tile_id,
        x: from.x,
        y: from.y,
        owner_color: from.owner_color,
        troops: 1,
        tanks: remaining_tanks,
    };
    let target = Tile {
        tile_id: to.tile_id,
        x: to.x,
        y: to.y,
        owner_color: from.owner_color,
        troops: remaining_troops,
        tanks: from.tanks,
    };
    Ok((source, target))
}

} // verus!
