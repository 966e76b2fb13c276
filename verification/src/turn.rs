//! The turn scheduler: what one firing of the turn timer does to the world.

use vstd::prelude::*;
use rand::rngs::StdRng;
use crate::color::Color;
use crate::color::PLAYER_COUNT;
use crate::deck::dealt;
use crate::deck::deck_fits;
use crate::deck::deck_of;
use crate::deck::draw_random;
use crate::deck::lemma_assigned;
use crate::deck::lemma_replenished;
use crate::deck::replenished;
use crate::deck::unowned;
use crate::entity::CARDS_PER_TURN;
use crate::entity::Game;
use crate::entity::MAX_STAMINA;
use crate::entity::NextTurnTimer;
use crate::entity::Player;
use crate::entity::TURN_GOLD;
use crate::seq_util::lemma_filter_member;
use crate::store::Store;
use crate::store::StoreView;

verus! {

/// The player whose turn comes up, after the grant: two more gold, and one
/// more stamina up to the cap.
pub open spec fn rewarded(player: Player) -> Player {
    Player {
        gold: (player.gold + TURN_GOLD) as u32,
        stamina: if player.stamina + 1 < MAX_STAMINA {
            (player.stamina + 1) as u32
        } else {
            MAX_STAMINA
        },
        ..player
    }
}

/// The game record after one tick: the pointer moves on to the next colour,
/// and the turn counter goes up when the pointer comes back to the first.
pub open spec fn advanced(game: Game) -> Game {
    let next = (game.current_player_index + 1) % (PLAYER_COUNT as int);
    Game {
        current_player_index: next as u32,
        turn: if next == 0 {
            (game.turn + 1) as u64
        } else {
            game.turn
        },
    }
}

/// The colour whose turn it is.
pub open spec fn current_color(game: Game) -> Color {
    Color::at(game.current_player_index as int)
}

/// Which seats a tick serves.
#[derive(Clone, Copy, Debug, PartialEq, Eq, Structural)]
pub enum GrantPolicy {
    /// The seat of the current colour, online or not.
    EverySeat,
    /// The seat of the current colour only while it is marked online.
    OnlineOnly,
}

impl GrantPolicy {
    /// Whether a tick under this policy serves `player` when its colour is current.
    pub open spec fn admits(self, player: Player) -> bool {
        match self {
            GrantPolicy::EverySeat => true,
            GrantPolicy::OnlineOnly => player.online,
        }
    }
}

/// Position of the seat that a tick serves: the seat of the current colour,
/// if there is a game, the colour has a seat and the policy admits it.
pub open spec fn served_seat(s: StoreView, policy: GrantPolicy) -> Option<int> {
    match s.game {
        None => None,
        Some(game) => match s.player_index(current_color(game)) {
            None => None,
            Some(i) => if policy.admits(s.players[i]) {
                Some(i)
            } else {
                None
            },
        },
    }
}

/// The store after one tick in which the two cards dealt are those at
/// positions `first` and `second` of the deck as it stands at each deal.
/// Without a game record a tick changes nothing. Where no seat is served
/// nothing is granted or dealt, and the game still advances.
pub open spec fn tick(s: StoreView, policy: GrantPolicy, first: int, second: int) -> StoreView {
    match s.game {
        None => s,
        Some(game) => {
            let color = current_color(game);
            let served = match served_seat(s, policy) {
                None => s,
                Some(i) => dealt(
                    dealt(s.set_player(i, rewarded(s.players[i])), first, color),
                    second,
                    color,
                ),
            };
            served.set_game(advanced(game))
        },
    }
}

/// `first` and `second` are positions in the deck at the moment of each deal.
/// Where nothing is dealt every pair of numbers will do.
pub open spec fn picks_fit(s: StoreView, policy: GrantPolicy, first: int, second: int) -> bool {
    match served_seat(s, policy) {
        None => true,
        Some(i) => {
            let color = current_color(s.game.unwrap());
            let paid = s.set_player(i, rewarded(s.players[i]));
            &&& 0 <= first < deck_of(replenished(paid).cards).len()
            &&& 0 <= second < deck_of(replenished(dealt(paid, first, color)).cards).len()
        },
    }
}

/// `after` is what some tick makes of `before`: a tick with some choice of
/// the two cards dealt.
pub open spec fn is_tick(before: StoreView, policy: GrantPolicy, after: StoreView) -> bool {
    exists|first: int, second: int|
        picks_fit(before, policy, first, second) && after == #[trigger] tick(
            before,
            policy,
            first,
            second,
        )
}

/// The tick stays within the machine's integers: the turn counter can go up
/// when it is due to, the gold of the seat served can take the grant, and
/// the card keys can take a fresh deck if one will be needed.
pub open spec fn tick_fits(s: StoreView, policy: GrantPolicy) -> bool {
    match s.game {
        None => true,
        Some(game) => {
            &&& advanced(game).current_player_index == 0 ==> game.turn < u64::MAX
            &&& served_seat(s, policy) matches Some(i) ==> {
                &&& s.players[i].gold + TURN_GOLD <= u32::MAX
                &&& deck_of(s.cards).len() < CARDS_PER_TURN ==> deck_fits(s)
            }
        },
    }
}

/// Deals one card, drawn at random, to `color`.
fn deal_random(store: &mut Store, rng: &mut StdRng, color: Color)
    requires
        old(store)@.wf(),
        deck_of(old(store)@.cards).len() == 0 ==> deck_fits(old(store)@),
    ensures
        final(store)@.wf(),
        exists|pick: int|
            0 <= pick < deck_of(replenished(old(store)@).cards).len() && final(store)@
                == #[trigger] dealt(old(store)@, pick, color),
{
    let drawn = draw_random(store, rng);
    let ghost ready = store@;
    let ghost pick = choose|pick: int|
        0 <= pick < deck_of(ready.cards).len() && drawn == #[trigger] deck_of(ready.cards)[pick];
    let mut card = drawn;
    card.owner_color = Some(color);
    proof {
        lemma_filter_member(ready.cards, unowned(), pick);
        let i = choose|i: int| 0 <= i < ready.cards.len() && #[trigger] ready.cards[i] == drawn;
        ready.lemma_card_index(i);
    }
    let _ = store.update_card(card);
    proof {
        assert(store@ == dealt(old(store)@, pick, color));
    }
}

/// One firing of the turn timer. The seat of the current colour, if the
/// policy has it served, receives the turn's gold and stamina and is dealt two
/// cards drawn at random; then the game moves on to the next colour. The
/// timer that fired repeats by itself and stays stored as it is.
pub fn next_turn(store: &mut Store, _timer: NextTurnTimer, policy: GrantPolicy, rng: &mut StdRng)
    requires
        old(store)@.wf(),
        tick_fits(old(store)@, policy),
    ensures
        final(store)@.wf(),
        is_tick(old(store)@, policy, final(store)@),
{
    let ghost before = store@;
    let game = match store.game() {
        Some(game) => game,
        None => {
            proof {
                assert(picks_fit(before, policy, 0, 0) && store@ == tick(before, policy, 0, 0));
            }
            return ;
        },
    };
    let color = match Color::from_index(game.current_player_index) {
        Some(color) => color,
        None => Color::Red,
    };
    let ghost mut first: int = 0;
    let ghost mut second: int = 0;
    let served = match store.find_player(color) {
        Some(player) => match policy {
            GrantPolicy::EverySeat => Some(player),
            GrantPolicy::OnlineOnly => if player.online {
                Some(player)
            } else {
                None
            },
        },
        None => None,
    };
    if let Some(player) = served {
        proof {
            before.lemma_player_lookup(color);
        }
        let stamina = if player.stamina < MAX_STAMINA - 1 {
            player.stamina + 1
        } else {
            MAX_STAMINA
        };
        let _ = store.update_player(
            Player {
                color: player.color,
                identity: player.identity,
                online: player.online,
                gold: player.gold + TURN_GOLD,
                stamina,
            },
        );
        let ghost paid = store@;
        deal_random(store, rng, color);
        proof {
            first = choose|pick: int|
                0 <= pick < deck_of(replenished(paid).cards).len() && store@ == #[trigger] dealt(
                    paid,
                    pick,
                    color,
                );
            lemma_replenished(paid);
            lemma_assigned(replenished(paid), first, color);
        }
        let ghost once = store@;
        deal_random(store, rng, color);
        proof {
            second = choose|pick: int|
                0 <= pick < deck_of(replenished(once).cards).len() && store@ == #[trigger] dealt(
                    once,
                    pick,
                    color,
                );
        }
    }
    let index = (game.current_player_index + 1) % PLAYER_COUNT;
    let mut turn = game.turn;
    if index == 0 {
        turn += 1;
    }
    let _ = store.update_game(Game { turn, current_player_index: index });
    proof {
        assert(picks_fit(before, policy, first, second) && store@ == tick(
            before,
            policy,
            first,
            second,
        ));
    }
}

} // verus!
