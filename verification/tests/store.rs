use conquest_core::color::Color;
use conquest_core::color::Suit;
use conquest_core::entity::Card;
use conquest_core::entity::Game;
use conquest_core::entity::Identity;
use conquest_core::entity::NextTurnTimer;
use conquest_core::entity::Player;
use conquest_core::entity::Tile;
use conquest_core::store::Store;
use conquest_core::store::StoreError;

fn tile(tile_id: u32, x: u32, y: u32) -> Tile {
    Tile { tile_id, x, y, owner_color: None, troops: 0, tanks: 0 }
}

fn card(card_id: u32, value: u8) -> Card {
    Card { card_id, suit: Suit::Clubs, value, owner_color: None }
}

fn player(color: Color) -> Player {
    Player { color, identity: None, online: false, gold: 0, stamina: 0 }
}

#[test]
fn new_store_is_empty() {
    let store = Store::new();
    assert!(store.tiles().is_empty());
    assert!(store.players().is_empty());
    assert!(store.cards().is_empty());
    assert!(store.timers().is_empty());
    assert_eq!(store.game(), None);
}

#[test]
fn tiles_get_generated_keys() {
    let mut store = Store::new();
    assert_eq!(store.insert_tile(tile(0, 4, 4)), Ok(tile(1, 4, 4)));
    assert_eq!(store.insert_tile(tile(0, 4, 5)), Ok(tile(2, 4, 5)));
    assert_eq!(store.insert_tile(tile(9, 0, 0)), Ok(tile(9, 0, 0)));
    assert_eq!(store.insert_tile(tile(0, 1, 1)), Ok(tile(10, 1, 1)));
    assert_eq!(store.insert_tile(tile(5, 2, 2)), Ok(tile(5, 2, 2)));
    assert_eq!(store.insert_tile(tile(0, 3, 3)), Ok(tile(11, 3, 3)));
    let keys: Vec<u32> = store.tiles().iter().map(|t| t.tile_id).collect();
    assert_eq!(keys, vec![1, 2, 9, 10, 5, 11]);
    assert_eq!(store.find_tile(9), Some(tile(9, 0, 0)));
    assert_eq!(store.find_tile(3), None);
    assert_eq!(store.find_tile_at(4, 5), Some(tile(2, 4, 5)));
    assert_eq!(store.find_tile_at(5, 4), None);
}

#[test]
fn tile_insert_failures() {
    let mut store = Store::new();
    store.insert_tile(tile(3, 0, 0)).unwrap();
    assert_eq!(store.insert_tile(tile(3, 1, 1)), Err(StoreError::DuplicateKey));
    assert_eq!(store.insert_tile(tile(u32::MAX, 1, 1)), Err(StoreError::KeyOutOfRange));
    assert_eq!(store.insert_tile(tile(u32::MAX - 1, 1, 1)), Ok(tile(u32::MAX - 1, 1, 1)));
    assert_eq!(store.insert_tile(tile(0, 2, 2)), Err(StoreError::KeyOutOfRange));
    assert_eq!(store.tiles().len(), 2);
}

#[test]
fn find_tile_at_returns_the_first_match() {
    let mut store = Store::new();
    store.insert_tile(tile(0, 1, 1)).unwrap();
    store.insert_tile(Tile { troops: 9, ..tile(0, 1, 1) }).unwrap();
    assert_eq!(store.find_tile_at(1, 1), Some(tile(1, 1, 1)));
}

#[test]
fn tile_update_replaces_by_key() {
    let mut store = Store::new();
    store.insert_tile(tile(0, 0, 0)).unwrap();
    store.insert_tile(tile(0, 0, 1)).unwrap();
    let changed = Tile { owner_color: Some(Color::Orange), troops: 3, tanks: 1, ..tile(2, 0, 1) };
    assert_eq!(store.update_tile(changed), Ok(()));
    assert_eq!(store.find_tile(2), Some(changed));
    assert_eq!(store.find_tile(1), Some(tile(1, 0, 0)));
    assert_eq!(store.update_tile(tile(3, 0, 2)), Err(StoreError::NotFound));
    assert_eq!(store.update_tile(tile(0, 0, 2)), Err(StoreError::NotFound));
    assert_eq!(store.tiles().len(), 2);
}

#[test]
fn players_are_keyed_by_colour() {
    let mut store = Store::new();
    assert_eq!(store.insert_player(player(Color::Green)), Ok(()));
    assert_eq!(store.insert_player(player(Color::Red)), Ok(()));
    assert_eq!(store.insert_player(player(Color::Green)), Err(StoreError::DuplicateKey));
    assert_eq!(
        store.insert_player(Player { stamina: 3, ..player(Color::Purple) }),
        Err(StoreError::InvalidRecord)
    );
    assert_eq!(
        store.insert_player(Player { stamina: 3, ..player(Color::Green) }),
        Err(StoreError::InvalidRecord)
    );
    assert_eq!(store.players().len(), 2);
    let who = Identity { high: 1, low: 2 };
    let bound =
        Player { identity: Some(who), online: true, gold: 4, stamina: 2, ..player(Color::Red) };
    assert_eq!(store.update_player(bound), Ok(()));
    assert_eq!(store.find_player(Color::Red), Some(bound));
    assert_eq!(store.find_player(Color::Green), Some(player(Color::Green)));
    assert_eq!(store.find_player(Color::Yellow), None);
    assert_eq!(store.find_player_by_identity(who), Some(bound));
    assert_eq!(store.find_player_by_identity(Identity { high: 2, low: 1 }), None);
    assert_eq!(store.update_player(player(Color::Yellow)), Err(StoreError::NotFound));
    assert_eq!(
        store.update_player(Player { stamina: 3, ..bound }),
        Err(StoreError::InvalidRecord)
    );
    assert_eq!(store.find_player(Color::Red), Some(bound));
}

#[test]
fn find_player_by_identity_returns_the_first_match() {
    let mut store = Store::new();
    let who = Identity { high: 1, low: 2 };
    store.insert_player(player(Color::Green)).unwrap();
    store.insert_player(Player { identity: Some(who), ..player(Color::Purple) }).unwrap();
    store.insert_player(Player { identity: Some(who), ..player(Color::Red) }).unwrap();
    assert_eq!(store.find_player_by_identity(who).unwrap().color, Color::Purple);
}

#[test]
fn cards_get_generated_keys() {
    let mut store = Store::new();
    assert_eq!(store.insert_card(card(0, 1)), Ok(card(1, 1)));
    assert_eq!(store.insert_card(card(0, 13)), Ok(card(2, 13)));
    assert_eq!(store.insert_card(card(7, 5)), Ok(card(7, 5)));
    assert_eq!(store.insert_card(card(0, 5)), Ok(card(8, 5)));
    assert_eq!(store.insert_card(card(7, 6)), Err(StoreError::DuplicateKey));
    assert_eq!(store.insert_card(card(0, 0)), Err(StoreError::InvalidRecord));
    assert_eq!(store.insert_card(card(0, 14)), Err(StoreError::InvalidRecord));
    assert_eq!(store.insert_card(card(u32::MAX, 3)), Err(StoreError::KeyOutOfRange));
    assert_eq!(store.cards().len(), 4);
    assert_eq!(store.find_card(8), Some(card(8, 5)));
    assert_eq!(store.find_card(3), None);
}

#[test]
fn card_update_and_delete() {
    let mut store = Store::new();
    for value in 1..=4 {
        store.insert_card(card(0, value)).unwrap();
    }
    let owned = Card { owner_color: Some(Color::Yellow), ..card(2, 2) };
    assert_eq!(store.update_card(owned), Ok(()));
    assert_eq!(store.find_card(2), Some(owned));
    assert_eq!(store.update_card(card(9, 2)), Err(StoreError::NotFound));
    assert_eq!(store.update_card(card(2, 14)), Err(StoreError::InvalidRecord));
    assert_eq!(store.find_card(2), Some(owned));
    assert!(store.delete_card(2));
    assert!(!store.delete_card(2));
    assert!(!store.delete_card(0));
    assert_eq!(store.find_card(2), None);
    let keys: Vec<u32> = store.cards().iter().map(|c| c.card_id).collect();
    assert_eq!(keys, vec![1, 3, 4]);
    assert_eq!(store.insert_card(card(0, 9)), Ok(card(5, 9)));
    assert!(store.delete_card(5));
    assert_eq!(store.insert_card(card(0, 9)), Ok(card(6, 9)));
}

#[test]
fn the_game_record_is_single() {
    let mut store = Store::new();
    let game = Game { turn: 1, current_player_index: 0 };
    assert_eq!(store.update_game(game), Err(StoreError::NotFound));
    assert_eq!(
        store.insert_game(Game { turn: 1, current_player_index: 5 }),
        Err(StoreError::InvalidRecord)
    );
    assert_eq!(store.game(), None);
    assert_eq!(store.insert_game(game), Ok(()));
    assert_eq!(store.insert_game(game), Err(StoreError::DuplicateKey));
    assert_eq!(store.update_game(Game { turn: 3, current_player_index: 4 }), Ok(()));
    assert_eq!(store.game(), Some(Game { turn: 3, current_player_index: 4 }));
    assert_eq!(
        store.update_game(Game { turn: 3, current_player_index: 5 }),
        Err(StoreError::InvalidRecord)
    );
    assert_eq!(store.game(), Some(Game { turn: 3, current_player_index: 4 }));
}

#[test]
fn timers_get_generated_keys() {
    let mut store = Store::new();
    let first = NextTurnTimer { scheduled_id: 0, interval_secs: 5 };
    assert_eq!(store.insert_timer(first), Ok(NextTurnTimer { scheduled_id: 1, interval_secs: 5 }));
    assert_eq!(
        store.insert_timer(NextTurnTimer { scheduled_id: 1, interval_secs: 9 }),
        Err(StoreError::DuplicateKey)
    );
    assert_eq!(
        store.insert_timer(NextTurnTimer { scheduled_id: u64::MAX, interval_secs: 9 }),
        Err(StoreError::KeyOutOfRange)
    );
    assert_eq!(store.insert_timer(first), Ok(NextTurnTimer { scheduled_id: 2, interval_secs: 5 }));
    assert_eq!(store.timers().len(), 2);
}

#[test]
fn colour_names_and_positions() {
    let colors = [Color::Red, Color::Green, Color::Yellow, Color::Orange, Color::Purple];
    let names = ["red", "green", "yellow", "orange", "purple"];
    for i in 0..5 {
        assert_eq!(colors[i].name(), names[i]);
        assert_eq!(Color::from_name(names[i]), Some(colors[i]));
        assert_eq!(colors[i].index(), i as u32);
        assert_eq!(Color::from_index(i as u32), Some(colors[i]));
    }
    assert_eq!(Color::from_index(5), None);
    assert_eq!(Color::from_name("blue"), None);
    assert_eq!(Color::from_name("RED"), None);
    assert_eq!(Color::from_name("red "), None);
    assert_eq!(Color::from_name(""), None);
}

#[test]
fn suit_names_and_positions() {
    let suits = [Suit::Hearts, Suit::Diamonds, Suit::Clubs, Suit::Spades];
    let names = ["hearts", "diamonds", "clubs", "spades"];
    for i in 0..4 {
        assert_eq!(suits[i].name(), names[i]);
        assert_eq!(Suit::from_name(names[i]), Some(suits[i]));
        assert_eq!(suits[i].index(), i as u32);
        assert_eq!(Suit::from_index(i as u32), Some(suits[i]));
    }
    assert_eq!(Suit::from_index(4), None);
    assert_eq!(Suit::from_name("heart"), None);
    assert_eq!(Suit::from_name(""), None);
}
