//! The commands players issue: joining and leaving, building infantry and
//! tanks, attacking, and moving units. Each command checks its preconditions
//! in a fixed order against the store, fails on the first that does not hold,
//! and writes only when all hold.

use vstd::prelude::*;
use crate::color::Color;
use crate::combat::attack_outcome;
use crate::combat::resolve_attack;
use crate::combat::tiles_after_attack;
use crate::entity::Identity;
use crate::entity::Player;
use crate::entity::Tile;
use crate::error::GameError;
use crate::store::Store;
use crate::store::StoreView;

verus! {

fn is_owner(owner: Option<Color>, color: Color) -> (b: bool)
    ensures
        b == (owner == Some(color)),
{
    match owner {
        Some(c) => c == color,
        None => false,
    }
}

/// Position of the seat that a request to join under the colour name `name`
/// binds: the seat of that colour, if the name is a colour, the seat exists and
/// nobody has claimed it.
pub open spec fn join_seat(s: StoreView, name: Seq<char>) -> Option<int> {
    match Color::parse(name) {
        None => None,
        Some(color) => match s.player_index(color) {
            None => None,
            Some(i) => if s.players[i].identity is Some {
                None
            } else {
                Some(i)
            },
        },
    }
}

/// The seat `player` bound to `who` and online.
pub open spec fn seated(player: Player, who: Identity) -> Player {
    Player { identity: Some(who), online: true, ..player }
}

/// The seat `player` marked offline.
pub open spec fn offline(player: Player) -> Player {
    Player { online: false, ..player }
}

/// Binds the caller to the seat of the colour named and marks it online. A
/// name that is no colour, a colour without a seat, and a seat that is claimed
/// already, be it by the caller, are declined without a word: nothing changes.
pub fn join_game(store: &mut Store, sender: Identity, color: &str)
    requires
        old(store)@.wf(),
    ensures
        final(store)@.wf(),
        match join_seat(old(store)@, color@) {
            Some(i) => final(store)@ == old(store)@.set_player(
                i,
                seated(old(store)@.players[i], sender),
            ),
            None => final(store)@ == old(store)@,
        },
{
    let color = match Color::from_name(color) {
        Some(color) => color,
        None => {
            return ;
        },
    };
    if let Some(player) = store.find_player(color) {
        if player.identity.is_some() {
            return ;
        }
        proof {
            store@.lemma_player_lookup(color);
        }
        let _ = store.update_player(
            Player {
                color: player.color,
                identity: Some(sender),
                online: true,
                gold: player.gold,
                stamina: player.stamina,
            },
        );
    }
}

/// Marks the first seat bound to the caller offline. Nothing changes if the
/// caller holds no seat.
pub fn client_disconnected(store: &mut Store, sender: Identity)
    requires
        old(store)@.wf(),
    ensures
        final(store)@.wf(),
        match old(store)@.player_index_of(sender) {
            Some(i) => final(store)@ == old(store)@.set_player(
                i,
                offline(old(store)@.players[i]),
            ),
            None => final(store)@ == old(store)@,
        },
{
    if let Some(player) = store.find_player_by_identity(sender) {
        proof {
            store@.lemma_player_lookup_of(sender);
            store@.lemma_player_index(store@.player_index_of(sender).unwrap());
        }
        let _ = store.update_player(
            Player {
                color: player.color,
                identity: player.identity,
                online: false,
                gold: player.gold,
                stamina: player.stamina,
            },
        );
    }
}

/// Whether infantry can be built at `(x, y)` by the caller: the positions of
/// the caller's seat and of the tile if so, else the first check that fails.
pub open spec fn build_infantry_check(s: StoreView, sender: Identity, x: u32, y: u32) -> Result<
    (int, int),
    GameError,
> {
    match s.player_index_of(sender) {
        None => Err(GameError::PlayerNotFound),
        Some(pi) => match s.tile_index_at(x, y) {
            None => Err(GameError::TileNotFound),
            Some(ti) => if s.tiles[ti].owner_color != Some(s.players[pi].color) {
                Err(GameError::NotOwner)
            } else if s.players[pi].gold < 1 {
                Err(GameError::InsufficientGold)
            } else {
                Ok((pi, ti))
            },
        },
    }
}

/// The store after the player at `pi` paid one gold for one more troop on the
/// tile at `ti`.
pub open spec fn after_build_infantry(s: StoreView, pi: int, ti: int) -> StoreView {
    let player = s.players[pi];
    let tile = s.tiles[ti];
    s.set_player(pi, Player { gold: (player.gold - 1) as u32, ..player }).set_tile(
        ti,
        Tile { troops: (tile.troops + 1) as u32, ..tile },
    )
}

/// The troop count of the tile built on stays within the machine's integers.
pub open spec fn build_infantry_fits(s: StoreView, sender: Identity, x: u32, y: u32) -> bool {
    build_infantry_check(s, sender, x, y) matches Ok((_, ti)) ==> s.tiles[ti].troops < u32::MAX
}

/// Builds one troop on the caller's tile at `(x, y)` for one gold.
pub fn build_infantry(store: &mut Store, sender: Identity, x: u32, y: u32) -> (r: Result<
    (),
    GameError,
>)
    requires
        old(store)@.wf(),
        build_infantry_fits(old(store)@, sender, x, y),
    ensures
        final(store)@.wf(),
        match build_infantry_check(old(store)@, sender, x, y) {
            Ok((pi, ti)) => r is Ok && final(store)@ == after_build_infantry(
                old(store)@,
                pi,
                ti,
            ),
            Err(e) => r == Err::<(), GameError>(e) && final(store)@ == old(store)@,
        },
{
    let ghost before = store@;
    let player = match store.find_player_by_identity(sender) {
        Some(player) => player,
        None => {
            return Err(GameError::PlayerNotFound);
        },
    };
    let tile = match store.find_tile_at(x, y) {
        Some(tile) => tile,
        None => {
            return Err(GameError::TileNotFound);
        },
    };
    if !is_owner(tile.owner_color, player.color) {
        return Err(GameError::NotOwner);
    }
    if player.gold < 1 {
        return Err(GameError::InsufficientGold);
    }
    proof {
        before.lemma_player_lookup_of(sender);
        before.lemma_tile_lookup_at(x, y);
        before.lemma_player_index(before.player_index_of(sender).unwrap());
        before.lemma_tile_index(before.tile_index_at(x, y).unwrap());
    }
    let _ = store.update_player(
        Player {
            color: player.color,
            identity: player.identity,
            online: player.online,
            gold: player.gold - 1,
            stamina: player.stamina,
        },
    );
    let _ = store.update_tile(
        Tile {
            tile_id: tile.tile_id,
            x: tile.x,
            y: tile.y,
            owner_color: tile.owner_color,
            troops: tile.troops + 1,
            tanks: tile.tanks,
        },
    );
    Ok(())
}

/// Whether the caller can attack from the tile of key `from_id` the tile of
/// key `to_id`: the positions of both tiles if so, else the first check that
/// fails. The tiles are looked up before the caller is.
pub open spec fn attack_check(s: StoreView, sender: Identity, from_id: u32, to_id: u32) -> Result<
    (int, int),
    GameError,
> {
    match s.tile_index(from_id) {
        None => Err(GameError::TileNotFound),
        Some(fi) => match s.tile_index(to_id) {
            None => Err(GameError::TileNotFound),
            Some(ti) => match s.player_index_of(sender) {
                None => Err(GameError::PlayerNotFound),
                Some(pi) => if s.tiles[fi].owner_color != Some(s.players[pi].color) {
                    Err(GameError::NotOwner)
                } else {
                    match attack_outcome(s.tiles[fi], s.tiles[ti]) {
                        Err(e) => Err(GameError::of_attack(e)),
                        Ok(_) => Ok((fi, ti)),
                    }
                },
            },
        },
    }
}

/// The store after the tile at `fi` attacked the tile at `ti` with success.
pub open spec fn after_attack(s: StoreView, fi: int, ti: int) -> StoreView {
    let tiles = tiles_after_attack(s.tiles[fi], s.tiles[ti]);
    s.set_tile(fi, tiles.0).set_tile(ti, tiles.1)
}

/// Attacks the tile of key `to_tile_id` from the caller's tile of key
/// `from_tile_id`. On success the source keeps one troop and the target
/// becomes the caller's.
pub fn attack(store: &mut Store, sender: Identity, from_tile_id: u32, to_tile_id: u32) -> (r:
    Result<(), GameError>)
    requires
        old(store)@.wf(),
    ensures
        final(store)@.wf(),
        match attack_check(old(store)@, sender, from_tile_id, to_tile_id) {
            Ok((fi, ti)) => r is Ok && final(store)@ == after_attack(old(store)@, fi, ti),
            Err(e) => r == Err::<(), GameError>(e) && final(store)@ == old(store)@,
        },
{
    let ghost before = store@;
    let from_tile = match store.find_tile(from_tile_id) {
        Some(tile) => tile,
        None => {
            return Err(GameError::TileNotFound);
        },
    };
    let to_tile = match store.find_tile(to_tile_id) {
        Some(tile) => tile,
        None => {
            return Err(GameError::TileNotFound);
        },
    };
    let player = match store.find_player_by_identity(sender) {
        Some(player) => player,
        None => {
            return Err(GameError::PlayerNotFound);
        },
    };
    if !is_owner(from_tile.owner_color, player.color) {
        return Err(GameError::NotOwner);
    }
    let (source, target) = match resolve_attack(&from_tile, &to_tile) {
        Ok(tiles) => tiles,
        Err(e) => {
            return Err(GameError::from_attack(e));
        },
    };
    proof {
        before.lemma_tile_lookup(from_tile_id);
        before.lemma_tile_lookup(to_tile_id);
    }
    let _ = store.update_tile(source);
    proof {
        let ti = before.tile_index(to_tile_id).unwrap();
        store@.lemma_tile_index(ti);
    }
    let _ = store.update_tile(target);
    Ok(())
}

/// Distance between two tiles in steps along the grid.
pub open spec fn grid_distance(a: Tile, b: Tile) -> int {
    (if a.x >= b.x {
        a.x - b.x
    } else {
        b.x - a.x
    }) + (if a.y >= b.y {
        a.y - b.y
    } else {
        b.y - a.y
    })
}

/// Whether the caller can move `troops` troops and `tanks` tanks from the
/// tile of key `from_id` to the tile of key `to_id`: the positions of both
/// tiles if so, else the first check that fails.
pub open spec fn move_units_check(
    s: StoreView,
    sender: Identity,
    from_id: u32,
    to_id: u32,
    troops: u32,
    tanks: u32,
) -> Result<(int, int), GameError> {
    match s.player_index_of(sender) {
        None => Err(GameError::PlayerNotFound),
        Some(pi) => match s.tile_index(from_id) {
            None => Err(GameError::TileNotFound),
            Some(fi) => match s.tile_index(to_id) {
                None => Err(GameError::TileNotFound),
                Some(ti) => {
                    let color = s.players[pi].color;
                    let from = s.tiles[fi];
                    let to = s.tiles[ti];
                    if from.owner_color != Some(color) || to.owner_color != Some(color) {
                        Err(GameError::NotOwner)
                    } else if grid_distance(from, to) != 1 {
                        Err(GameError::NotAdjacent)
                    } else if from.troops < troops || from.tanks < tanks {
                        Err(GameError::InsufficientUnits)
                    } else if from.troops - troops < 1 {
                        Err(GameError::MustKeepGarrison)
                    } else {
                        Ok((fi, ti))
                    }
                },
            },
        },
    }
}

/// The store after `troops` troops and `tanks` tanks moved from the tile at
/// `fi` to the tile at `ti`.
pub open spec fn after_move_units(
    s: StoreView,
    fi: int,
    ti: int,
    troops: u32,
    tanks: u32,
) -> StoreView {
    let from = s.tiles[fi];
    let to = s.tiles[ti];
    s.set_tile(
        fi,
        Tile { troops: (from.troops - troops) as u32, tanks: (from.tanks - tanks) as u32, ..from },
    ).set_tile(
        ti,
        Tile { troops: (to.troops + troops) as u32, tanks: (to.tanks + tanks) as u32, ..to },
    )
}

/// The unit counts of the tile moved to stay within the machine's integers.
pub open spec fn move_units_fits(
    s: StoreView,
    sender: Identity,
    from_id: u32,
    to_id: u32,
    troops: u32,
    tanks: u32,
) -> bool {
    move_units_check(s, sender, from_id, to_id, troops, tanks) matches Ok((_, ti)) ==> {
        &&& s.tiles[ti].troops + troops <= u32::MAX
        &&& s.tiles[ti].tanks + tanks <= u32::MAX
    }
}

fn gap(a: u32, b: u32) -> (d: u32)
    ensures
        d == if a >= b {
            a - b
        } else {
            b - a
        },
{
    if a >= b {
        a - b
    } else {
        b - a
    }
}

/// Moves troops and tanks between two of the caller's tiles that lie next to
/// each other. At least one troop stays behind.
pub fn move_units(
    store: &mut Store,
    sender: Identity,
    from_tile_id: u32,
    to_tile_id: u32,
    troops_to_move: u32,
    tanks_to_move: u32,
) -> (r: Result<(), GameError>)
    requires
        old(store)@.wf(),
        move_units_fits(
            old(store)@,
            sender,
            from_tile_id,
            to_tile_id,
            troops_to_move,
            tanks_to_move,
        ),
    ensures
        final(store)@.wf(),
        match move_units_check(
            old(store)@,
            sender,
            from_tile_id,
            to_tile_id,
            troops_to_move,
            tanks_to_move,
        ) {
            Ok((fi, ti)) => r is Ok && final(store)@ == after_move_units(
                old(store)@,
                fi,
                ti,
                troops_to_move,
                tanks_to_move,
            ),
            Err(e) => r == Err::<(), GameError>(e) && final(store)@ == old(store)@,
        },
{
    let ghost before = store@;
    let player = match store.find_player_by_identity(sender) {
        Some(player) => player,
        None => {
            return Err(GameError::PlayerNotFound);
        },
    };
    let from_tile = match store.find_tile(from_tile_id) {
        Some(tile) => tile,
        None => {
            return Err(GameError::TileNotFound);
        },
    };
    let to_tile = match store.find_tile(to_tile_id) {
        Some(tile) => tile,
        None => {
            return Err(GameError::TileNotFound);
        },
    };
    if !is_owner(from_tile.owner_color, player.color) || !is_owner(
        to_tile.owner_color,
        player.color,
    ) {
        return Err(GameError::NotOwner);
    }
    let dx = gap(from_tile.x, to_tile.x);
    let dy = gap(from_tile.y, to_tile.y);
    if dx as u64 + dy as u64 != 1 {
        return Err(GameError::NotAdjacent);
    }
    if from_tile.troops < troops_to_move {
        return Err(GameError::InsufficientUnits);
    }
    if from_tile.tanks < tanks_to_move {
        return Err(GameError::InsufficientUnits);
    }
    if from_tile.troops - troops_to_move < 1 {
        return Err(GameError::MustKeepGarrison);
    }
    proof {
        before.lemma_tile_lookup(from_tile_id);
        before.lemma_tile_lookup(to_tile_id);
    }
    let _ = store.update_tile(
        Tile {
            tile_id: from_tile.tile_id,
            x: from_tile.x,
            y: from_tile.y,
            owner_color: from_tile.owner_color,
            troops: from_tile.troops - troops_to_move,
            tanks: from_tile.tanks - tanks_to_move,
        },
    );
    proof {
        let ti = before.tile_index(to_tile_id).unwrap();
        store@.lemma_tile_index(ti);
    }
    let _ = store.update_tile(
        Tile {
            tile_id: to_tile.tile_id,
            x: to_tile.x,
            y: to_tile.y,
            owner_color: to_tile.owner_color,
            troops: to_tile.troops + troops_to_move,
            tanks: to_tile.tanks + tanks_to_move,
        },
    );
    Ok(())
}

/// The store without the card of key `id`; unchanged if no card has that key.
pub open spec fn without_card(s: StoreView, id: u32) -> StoreView {
    match s.card_index(id) {
        Some(i) => s.drop_card(i),
        None => s,
    }
}

/// Whether the caller can build a tank at `(x, y)` with the cards of the keys
/// given: the position of the tile if so, else the first check that fails.
pub open spec fn build_tank_check(
    s: StoreView,
    sender: Identity,
    x: u32,
    y: u32,
    card_ids: Seq<u32>,
) -> Result<int, GameError> {
    if card_ids.len() != 2 {
        Err(GameError::InvalidCardCount)
    } else {
        match s.player_index_of(sender) {
            None => Err(GameError::PlayerNotFound),
            Some(pi) => match s.tile_index_at(x, y) {
                None => Err(GameError::TileNotFound),
                Some(ti) => {
                    let color = s.players[pi].color;
                    if s.tiles[ti].owner_color != Some(color) {
                        Err(GameError::NotOwner)
                    } else {
                        match (s.card(card_ids[0]), s.card(card_ids[1])) {
                            (Some(first), Some(second)) => if first.owner_color != Some(color)
                                || second.owner_color != Some(color) {
                                Err(GameError::CardNotOwned)
                            } else if first.value != second.value {
                                Err(GameError::NotAPair)
                            } else {
                                Ok(ti)
                            },
                            _ => Err(GameError::CardNotFound),
                        }
                    }
                },
            },
        }
    }
}

/// The store after the two cards were spent on one more tank for the tile at `ti`.
pub open spec fn after_build_tank(
    s: StoreView,
    ti: int,
    first_id: u32,
    second_id: u32,
) -> StoreView {
    let tile = s.tiles[ti];
    without_card(without_card(s, first_id), second_id).set_tile(
        ti,
        Tile { tanks: (tile.tanks + 1) as u32, ..tile },
    )
}

/// The tank count of the tile built on stays within the machine's integers.
pub open spec fn build_tank_fits(
    s: StoreView,
    sender: Identity,
    x: u32,
    y: u32,
    card_ids: Seq<u32>,
) -> bool {
    build_tank_check(s, sender, x, y, card_ids) matches Ok(ti) ==> s.tiles[ti].tanks < u32::MAX
}

/// Builds one tank on the caller's tile at `(x, y)` for a pair of the caller's
/// cards: two cards of the same rank, which leave the game.
pub fn build_tank(store: &mut Store, sender: Identity, x: u32, y: u32, card_ids: Vec<u32>) -> (r:
    Result<(), GameError>)
    requires
        old(store)@.wf(),
        build_tank_fits(old(store)@, sender, x, y, card_ids@),
    ensures
        final(store)@.wf(),
        match build_tank_check(old(store)@, sender, x, y, card_ids@) {
            Ok(ti) => r is Ok && final(store)@ == after_build_tank(
                old(store)@,
                ti,
                card_ids@[0],
                card_ids@[1],
            ),
            Err(e) => r == Err::<(), GameError>(e) && final(store)@ == old(store)@,
        },
{
    let ghost before = store@;
    if card_ids.len() != 2 {
        return Err(GameError::InvalidCardCount);
    }
    let player = match store.find_player_by_identity(sender) {
        Some(player) => player,
        None => {
            return Err(GameError::PlayerNotFound);
        },
    };
    let tile = match store.find_tile_at(x, y) {
        Some(tile) => tile,
        None => {
            return Err(GameError::TileNotFound);
        },
    };
    if !is_owner(tile.owner_color, player.color) {
        return Err(GameError::NotOwner);
    }
    let first = match store.find_card(card_ids[0]) {
        Some(card) => card,
        None => {
            return Err(GameError::CardNotFound);
        },
    };
    let second = match store.find_card(card_ids[1]) {
        Some(card) => card,
        None => {
            return Err(GameError::CardNotFound);
        },
    };
    if !is_owner(first.owner_color, player.color) || !is_owner(second.owner_color, player.color) {
        return Err(GameError::CardNotOwned);
    }
    if first.value != second.value {
        return Err(GameError::NotAPair);
    }
    store.delete_card(card_ids[0]);
    store.delete_card(card_ids[1]);
    proof {
        before.lemma_tile_lookup_at(x, y);
        before.lemma_tile_index(before.tile_index_at(x, y).unwrap());
    }
    let _ = store.update_tile(
        Tile {
            tile_id: tile.tile_id,
            x: tile.x,
            y: tile.y,
            owner_color: tile.owner_color,
            troops: tile.troops,
            tanks: tile.tanks + 1,
        },
    );
    Ok(())
}

} // verus!
