use conquest_core::color::Color;
use conquest_core::color::Suit;
use conquest_core::combat::resolve_attack;
use conquest_core::combat::AttackError;
use conquest_core::commands::attack;
use conquest_core::commands::build_infantry;
use conquest_core::commands::build_tank;
use conquest_core::commands::client_disconnected;
use conquest_core::commands::join_game;
use conquest_core::commands::move_units;
use conquest_core::entity::Card;
use conquest_core::entity::Identity;
use conquest_core::entity::Player;
use conquest_core::entity::Tile;
use conquest_core::error::GameError;
use conquest_core::setup::init;
use conquest_core::store::Store;

fn alice() -> Identity {
    Identity { high: 0, low: 1 }
}

fn bob() -> Identity {
    Identity { high: 7, low: 2 }
}

fn tile_id(x: u32, y: u32) -> u32 {
    7 * x + y + 1
}

/// A fresh game in which alice holds red and bob holds green.
fn game() -> Store {
    let mut store = Store::new();
    init(&mut store, 5);
    join_game(&mut store, alice(), "red");
    join_game(&mut store, bob(), "green");
    store
}

fn give_tile(store: &mut Store, x: u32, y: u32, owner: Option<Color>, troops: u32, tanks: u32) {
    let tile = store.find_tile_at(x, y).unwrap();
    store.update_tile(Tile { owner_color: owner, troops, tanks, ..tile }).unwrap();
}

fn give_gold(store: &mut Store, color: Color, gold: u32) {
    let player = store.find_player(color).unwrap();
    store.update_player(Player { gold, ..player }).unwrap();
}

fn give_card(store: &mut Store, suit: Suit, value: u8, owner: Option<Color>) -> u32 {
    store.insert_card(Card { card_id: 0, suit, value, owner_color: owner }).unwrap().card_id
}

fn plain_tile(owner: Option<Color>, troops: u32, tanks: u32) -> Tile {
    Tile { tile_id: 1, x: 0, y: 0, owner_color: owner, troops, tanks }
}

#[test]
fn join_binds_an_unclaimed_colour() {
    let mut store = Store::new();
    init(&mut store, 5);
    join_game(&mut store, alice(), "red");
    let red = store.find_player(Color::Red).unwrap();
    assert_eq!(red.identity, Some(alice()));
    assert!(red.online);
    assert_eq!(red.gold, 0);
    let green = store.find_player(Color::Green).unwrap();
    assert_eq!(green.identity, None);
    assert!(!green.online);
}

#[test]
fn join_ignores_an_unknown_colour() {
    let mut store = Store::new();
    init(&mut store, 5);
    join_game(&mut store, alice(), "blue");
    join_game(&mut store, alice(), "Red");
    join_game(&mut store, alice(), "");
    for player in store.players().iter() {
        assert_eq!(player.identity, None);
        assert!(!player.online);
    }
}

#[test]
fn join_ignores_a_claimed_colour() {
    let mut store = game();
    join_game(&mut store, bob(), "red");
    assert_eq!(store.find_player(Color::Red).unwrap().identity, Some(alice()));
    client_disconnected(&mut store, alice());
    join_game(&mut store, alice(), "red");
    let red = store.find_player(Color::Red).unwrap();
    assert_eq!(red.identity, Some(alice()));
    assert!(!red.online);
}

#[test]
fn disconnect_marks_the_seat_offline() {
    let mut store = game();
    client_disconnected(&mut store, alice());
    assert!(!store.find_player(Color::Red).unwrap().online);
    assert!(store.find_player(Color::Green).unwrap().online);
    assert_eq!(store.find_player(Color::Red).unwrap().identity, Some(alice()));
}

#[test]
fn disconnect_of_a_stranger_changes_nothing() {
    let mut store = game();
    client_disconnected(&mut store, Identity { high: 9, low: 9 });
    assert!(store.find_player(Color::Red).unwrap().online);
    assert!(store.find_player(Color::Green).unwrap().online);
}

#[test]
fn disconnect_takes_the_first_seat_of_an_identity() {
    let mut store = game();
    join_game(&mut store, alice(), "purple");
    client_disconnected(&mut store, alice());
    assert!(!store.find_player(Color::Red).unwrap().online);
    assert!(store.find_player(Color::Purple).unwrap().online);
}

#[test]
fn build_infantry_pays_one_gold_for_one_troop() {
    let mut store = game();
    give_gold(&mut store, Color::Red, 3);
    assert_eq!(build_infantry(&mut store, alice(), 1, 1), Ok(()));
    assert_eq!(store.find_player(Color::Red).unwrap().gold, 2);
    let tile = store.find_tile_at(1, 1).unwrap();
    assert_eq!(tile.troops, 6);
    assert_eq!(tile.tanks, 0);
    assert_eq!(tile.owner_color, Some(Color::Red));
}

#[test]
fn build_infantry_failures() {
    let mut store = game();
    give_gold(&mut store, Color::Red, 1);
    let stranger = Identity { high: 9, low: 9 };
    assert_eq!(build_infantry(&mut store, stranger, 1, 1), Err(GameError::PlayerNotFound));
    assert_eq!(build_infantry(&mut store, alice(), 7, 0), Err(GameError::TileNotFound));
    assert_eq!(build_infantry(&mut store, alice(), 5, 1), Err(GameError::NotOwner));
    assert_eq!(build_infantry(&mut store, alice(), 0, 0), Err(GameError::NotOwner));
    assert_eq!(build_infantry(&mut store, bob(), 5, 1), Err(GameError::InsufficientGold));
    assert_eq!(store.find_tile_at(5, 1).unwrap().troops, 5);
    assert_eq!(store.find_player(Color::Red).unwrap().gold, 1);
}

#[test]
fn attack_on_a_neutral_tile_with_two_troops() {
    let from = plain_tile(Some(Color::Red), 2, 0);
    let to = Tile { tile_id: 2, x: 0, y: 1, owner_color: None, troops: 0, tanks: 0 };
    let (source, target) = resolve_attack(&from, &to).unwrap();
    assert_eq!(source, Tile { troops: 1, ..from });
    assert_eq!(target, Tile { owner_color: Some(Color::Red), troops: 1, tanks: 0, ..to });
}

#[test]
fn attack_needs_two_troops() {
    let to = plain_tile(None, 0, 0);
    assert_eq!(
        resolve_attack(&plain_tile(Some(Color::Red), 1, 9), &to),
        Err(AttackError::InsufficientTroops)
    );
    assert_eq!(
        resolve_attack(&plain_tile(Some(Color::Red), 0, 0), &to),
        Err(AttackError::InsufficientTroops)
    );
}

#[test]
fn attack_with_equal_power_fails() {
    let from = plain_tile(Some(Color::Red), 4, 1);
    let to = plain_tile(Some(Color::Green), 2, 2);
    assert_eq!(resolve_attack(&from, &to), Err(AttackError::AttackTooWeak));
    let weaker = plain_tile(Some(Color::Red), 3, 1);
    assert_eq!(resolve_attack(&weaker, &to), Err(AttackError::AttackTooWeak));
}

#[test]
fn attack_losses_hit_tanks_first() {
    // power 5 + 2 * 3 = 11, defense 2 + 2 * 1 = 4, losses 7: three tanks
    // absorb 6, one loss falls on the troops.
    let from = plain_tile(Some(Color::Red), 5, 3);
    let to = Tile { tile_id: 2, x: 1, y: 0, owner_color: Some(Color::Green), troops: 2, tanks: 1 };
    let (source, target) = resolve_attack(&from, &to).unwrap();
    assert_eq!(source, Tile { troops: 1, tanks: 0, ..from });
    assert_eq!(target, Tile { owner_color: Some(Color::Red), troops: 4, tanks: 3, ..to });
}

#[test]
fn attack_losses_leave_an_odd_loss_to_the_troops() {
    // power 3 + 2 * 4 = 11, defense 1, losses 10: four tanks absorb 8, two
    // losses fall on the troops.
    let from = plain_tile(Some(Color::Red), 3, 4);
    let to = plain_tile(None, 9, 9);
    let (source, target) = resolve_attack(&from, &to).unwrap();
    assert_eq!((source.troops, source.tanks), (1, 0));
    assert_eq!((target.troops, target.tanks), (1, 4));
    // power 2 + 2 * 5 = 12, defense 2 + 2 * 3 = 8, losses 4: two tanks
    // absorb them all.
    let from = plain_tile(Some(Color::Red), 2, 5);
    let to = plain_tile(Some(Color::Green), 2, 3);
    let (source, target) = resolve_attack(&from, &to).unwrap();
    assert_eq!((source.troops, source.tanks), (1, 3));
    assert_eq!((target.troops, target.tanks), (2, 5));
}

#[test]
fn attack_losses_never_go_below_zero_troops() {
    // power 10, defense 1, losses 9 against 10 troops and no tank.
    let from = plain_tile(Some(Color::Red), 10, 0);
    let to = plain_tile(None, 0, 0);
    let (_, target) = resolve_attack(&from, &to).unwrap();
    assert_eq!(target.troops, 1);
    // power 2 + 2 * 1 = 4, defense 1, losses 3: the tank absorbs 2, one loss
    // on 2 troops.
    let from = plain_tile(Some(Color::Red), 2, 1);
    let (source, target) = resolve_attack(&from, &to).unwrap();
    assert_eq!((source.troops, source.tanks), (1, 0));
    assert_eq!((target.troops, target.tanks), (1, 1));
    let from = plain_tile(Some(Color::Red), u32::MAX, u32::MAX);
    let (source, target) = resolve_attack(&from, &to).unwrap();
    assert_eq!((source.troops, source.tanks), (1, 0));
    assert_eq!((target.troops, target.tanks), (1, u32::MAX));
}

#[test]
fn attack_command_captures_the_target() {
    let mut store = game();
    let from = tile_id(1, 1);
    let to = tile_id(1, 2);
    assert_eq!(attack(&mut store, alice(), from, to), Ok(()));
    // power 5, defense 1, losses 4 on 5 troops.
    let source = store.find_tile(from).unwrap();
    let target = store.find_tile(to).unwrap();
    assert_eq!((source.troops, source.tanks, source.owner_color), (1, 0, Some(Color::Red)));
    assert_eq!((target.troops, target.tanks, target.owner_color), (1, 0, Some(Color::Red)));
    assert_eq!((target.x, target.y), (1, 2));
}

#[test]
fn attack_command_failures() {
    let mut store = game();
    let red = tile_id(1, 1);
    let green = tile_id(5, 1);
    let stranger = Identity { high: 9, low: 9 };
    assert_eq!(attack(&mut store, alice(), 50, green), Err(GameError::TileNotFound));
    assert_eq!(attack(&mut store, alice(), red, 0), Err(GameError::TileNotFound));
    assert_eq!(attack(&mut store, stranger, 50, green), Err(GameError::TileNotFound));
    assert_eq!(attack(&mut store, stranger, red, green), Err(GameError::PlayerNotFound));
    assert_eq!(attack(&mut store, alice(), green, red), Err(GameError::NotOwner));
    assert_eq!(attack(&mut store, alice(), tile_id(0, 0), red), Err(GameError::NotOwner));
    assert_eq!(attack(&mut store, alice(), red, green), Err(GameError::AttackTooWeak));
    assert_eq!(attack(&mut store, alice(), red, red), Err(GameError::AttackTooWeak));
    give_tile(&mut store, 1, 1, Some(Color::Red), 1, 4);
    assert_eq!(attack(&mut store, alice(), red, green), Err(GameError::InsufficientTroops));
    assert_eq!(store.find_tile(green).unwrap().owner_color, Some(Color::Green));
    assert_eq!(store.find_tile(green).unwrap().troops, 5);
    assert_eq!(store.find_tile(red).unwrap().troops, 1);
    assert_eq!(store.find_tile(red).unwrap().tanks, 4);
}

#[test]
fn move_must_keep_a_garrison() {
    let mut store = game();
    give_tile(&mut store, 2, 2, Some(Color::Red), 3, 0);
    give_tile(&mut store, 2, 3, Some(Color::Red), 0, 0);
    let from = tile_id(2, 2);
    let to = tile_id(2, 3);
    assert_eq!(move_units(&mut store, alice(), from, to, 3, 0), Err(GameError::MustKeepGarrison));
    assert_eq!(store.find_tile(from).unwrap().troops, 3);
    assert_eq!(store.find_tile(to).unwrap().troops, 0);
    assert_eq!(move_units(&mut store, alice(), from, to, 2, 0), Ok(()));
    assert_eq!(store.find_tile(from).unwrap().troops, 1);
    assert_eq!(store.find_tile(to).unwrap().troops, 2);
}

#[test]
fn move_needs_adjacent_tiles() {
    let mut store = game();
    give_tile(&mut store, 2, 2, Some(Color::Red), 4, 2);
    give_tile(&mut store, 2, 3, Some(Color::Red), 1, 1);
    give_tile(&mut store, 3, 3, Some(Color::Red), 1, 0);
    give_tile(&mut store, 2, 4, Some(Color::Red), 1, 0);
    let from = tile_id(2, 2);
    assert_eq!(
        move_units(&mut store, alice(), from, tile_id(3, 3), 1, 0),
        Err(GameError::NotAdjacent)
    );
    assert_eq!(
        move_units(&mut store, alice(), from, tile_id(2, 4), 1, 0),
        Err(GameError::NotAdjacent)
    );
    assert_eq!(move_units(&mut store, alice(), from, from, 1, 0), Err(GameError::NotAdjacent));
    assert_eq!(move_units(&mut store, alice(), from, tile_id(2, 3), 1, 2), Ok(()));
    let source = store.find_tile(from).unwrap();
    let target = store.find_tile(tile_id(2, 3)).unwrap();
    assert_eq!((source.troops, source.tanks), (3, 0));
    assert_eq!((target.troops, target.tanks), (2, 3));
    assert_eq!(move_units(&mut store, alice(), tile_id(2, 3), from, 0, 1), Ok(()));
    assert_eq!(store.find_tile(from).unwrap().tanks, 1);
}

#[test]
fn move_failures() {
    let mut store = game();
    give_tile(&mut store, 2, 2, Some(Color::Red), 3, 1);
    give_tile(&mut store, 2, 3, Some(Color::Red), 0, 0);
    give_tile(&mut store, 3, 2, Some(Color::Green), 2, 0);
    let from = tile_id(2, 2);
    let to = tile_id(2, 3);
    let stranger = Identity { high: 9, low: 9 };
    assert_eq!(move_units(&mut store, stranger, 99, to, 1, 0), Err(GameError::PlayerNotFound));
    assert_eq!(move_units(&mut store, alice(), 99, to, 1, 0), Err(GameError::TileNotFound));
    assert_eq!(move_units(&mut store, alice(), from, 99, 1, 0), Err(GameError::TileNotFound));
    assert_eq!(
        move_units(&mut store, alice(), from, tile_id(3, 2), 1, 0),
        Err(GameError::NotOwner)
    );
    assert_eq!(
        move_units(&mut store, alice(), tile_id(3, 2), from, 1, 0),
        Err(GameError::NotOwner)
    );
    assert_eq!(
        move_units(&mut store, alice(), from, tile_id(2, 1), 1, 0),
        Err(GameError::NotOwner)
    );
    assert_eq!(move_units(&mut store, alice(), from, to, 4, 0), Err(GameError::InsufficientUnits));
    assert_eq!(move_units(&mut store, alice(), from, to, 1, 2), Err(GameError::InsufficientUnits));
    assert_eq!(move_units(&mut store, alice(), from, to, 3, 1), Err(GameError::MustKeepGarrison));
    let source = store.find_tile(from).unwrap();
    assert_eq!((source.troops, source.tanks), (3, 1));
}

#[test]
fn build_tank_spends_a_pair() {
    let mut store = game();
    let a = give_card(&mut store, Suit::Hearts, 7, Some(Color::Red));
    let b = give_card(&mut store, Suit::Spades, 7, Some(Color::Red));
    let c = give_card(&mut store, Suit::Clubs, 2, Some(Color::Red));
    let before = store.cards().len();
    assert_eq!(build_tank(&mut store, alice(), 1, 1, vec![a, b]), Ok(()));
    assert_eq!(store.cards().len(), before - 2);
    assert_eq!(store.find_card(a), None);
    assert_eq!(store.find_card(b), None);
    assert!(store.find_card(c).is_some());
    let tile = store.find_tile_at(1, 1).unwrap();
    assert_eq!((tile.troops, tile.tanks), (5, 1));
    let hand: Vec<&Card> =
        store.cards().iter().filter(|card| card.owner_color == Some(Color::Red)).collect();
    assert_eq!(hand.len(), 1);
}

#[test]
fn build_tank_rejects_cards_that_are_no_pair() {
    let mut store = game();
    let seven = give_card(&mut store, Suit::Hearts, 7, Some(Color::Red));
    let nine = give_card(&mut store, Suit::Hearts, 9, Some(Color::Red));
    let before = store.cards().len();
    assert_eq!(build_tank(&mut store, alice(), 1, 1, vec![seven, nine]), Err(GameError::NotAPair));
    assert_eq!(store.cards().len(), before);
    assert_eq!(store.find_tile_at(1, 1).unwrap().tanks, 0);
}

#[test]
fn build_tank_failures() {
    let mut store = game();
    let mine = give_card(&mut store, Suit::Hearts, 7, Some(Color::Red));
    let also_mine = give_card(&mut store, Suit::Clubs, 7, Some(Color::Red));
    let theirs = give_card(&mut store, Suit::Spades, 7, Some(Color::Green));
    let in_deck = store.cards()[0].card_id;
    let stranger = Identity { high: 9, low: 9 };
    assert_eq!(build_tank(&mut store, alice(), 1, 1, vec![mine]), Err(GameError::InvalidCardCount));
    assert_eq!(build_tank(&mut store, stranger, 9, 9, vec![]), Err(GameError::InvalidCardCount));
    assert_eq!(
        build_tank(&mut store, alice(), 1, 1, vec![mine, also_mine, theirs]),
        Err(GameError::InvalidCardCount)
    );
    assert_eq!(
        build_tank(&mut store, stranger, 1, 1, vec![mine, also_mine]),
        Err(GameError::PlayerNotFound)
    );
    assert_eq!(
        build_tank(&mut store, alice(), 1, 7, vec![mine, also_mine]),
        Err(GameError::TileNotFound)
    );
    assert_eq!(
        build_tank(&mut store, alice(), 5, 1, vec![mine, also_mine]),
        Err(GameError::NotOwner)
    );
    assert_eq!(
        build_tank(&mut store, alice(), 1, 1, vec![9999, also_mine]),
        Err(GameError::CardNotFound)
    );
    assert_eq!(
        build_tank(&mut store, alice(), 1, 1, vec![mine, 9999]),
        Err(GameError::CardNotFound)
    );
    assert_eq!(
        build_tank(&mut store, alice(), 1, 1, vec![mine, theirs]),
        Err(GameError::CardNotOwned)
    );
    assert_eq!(
        build_tank(&mut store, alice(), 1, 1, vec![in_deck, mine]),
        Err(GameError::CardNotOwned)
    );
    assert_eq!(store.cards().len(), 55);
    assert_eq!(store.find_tile_at(1, 1).unwrap().tanks, 0);
}

#[test]
fn build_tank_with_one_card_named_twice_spends_one_card() {
    let mut store = game();
    let only = give_card(&mut store, Suit::Hearts, 7, Some(Color::Red));
    assert_eq!(build_tank(&mut store, alice(), 1, 1, vec![only, only]), Ok(()));
    assert_eq!(store.cards().len(), 52);
    assert_eq!(store.find_tile_at(1, 1).unwrap().tanks, 1);
}

#[test]
fn error_messages() {
    assert_eq!(GameError::PlayerNotFound.message(), "Player not found");
    assert_eq!(GameError::NotAPair.message(), "Cards must be a pair (same number)");
    assert_eq!(GameError::MustKeepGarrison.message(), "Source tile must keep at least 1 troop");
    assert_eq!(GameError::from_attack(AttackError::AttackTooWeak), GameError::AttackTooWeak);
    assert_eq!(
        GameError::from_attack(AttackError::InsufficientTroops),
        GameError::InsufficientTroops
    );
}
