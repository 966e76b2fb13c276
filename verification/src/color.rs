//! The closed sets the rules range over: player colours and card suits.

use vstd::prelude::*;

verus! {

/// Number of player colours; the turn pointer cycles over `0..PLAYER_COUNT`.
pub const PLAYER_COUNT: u32 = 5;

/// Number of card suits.
pub const SUIT_COUNT: u32 = 4;

/// A player colour. The declaration order is the turn order.
#[derive(Clone, Copy, Debug, PartialEq, Eq, Structural)]
pub enum Color {
    Red,
    Green,
    Yellow,
    Orange,
    Purple,
}

/// A card suit. The declaration order is the order in which a fresh deck is laid out.
#[derive(Clone, Copy, Debug, PartialEq, Eq, Structural)]
pub enum Suit {
    Hearts,
    Diamonds,
    Clubs,
    Spades,
}

impl Color {
    /// Position of the colour in the turn order.
    pub open spec fn ordinal(self) -> int {
        match self {
            Color::Red => 0,
            Color::Green => 1,
            Color::Yellow => 2,
            Color::Orange => 3,
            Color::Purple => 4,
        }
    }

    /// The colour at position `i` of the turn order; positions wrap around.
    pub open spec fn at(i: int) -> Color {
        let k = i % 5;
        if k == 0 {
            Color::Red
        } else if k == 1 {
            Color::Green
        } else if k == 2 {
            Color::Yellow
        } else if k == 3 {
            Color::Orange
        } else {
            Color::Purple
        }
    }

    /// The colour a lower-case name stands for, if any.
    pub open spec fn parse(name: Seq<char>) -> Option<Color> {
        if name == "red"@ {
            Some(Color::Red)
        } else if name == "green"@ {
            Some(Color::Green)
        } else if name == "yellow"@ {
            Some(Color::Yellow)
        } else if name == "orange"@ {
            Some(Color::Orange)
        } else if name == "purple"@ {
            Some(Color::Purple)
        } else {
            None
        }
    }

    /// The colour's lower-case name.
    pub open spec fn label(self) -> Seq<char> {
        match self {
            Color::Red => "red"@,
            Color::Green => "green"@,
            Color::Yellow => "yellow"@,
            Color::Orange => "orange"@,
            Color::Purple => "purple"@,
        }
    }

    /// Position of the colour in the turn order.
    pub fn index(self) -> (i: u32)
        ensures
            i == self.ordinal(),
            i < PLAYER_COUNT,
    {
        match self {
            Color::Red => 0,
            Color::Green => 1,
            Color::Yellow => 2,
            Color::Orange => 3,
            Color::Purple => 4,
        }
    }

    /// The colour at position `i` of the turn order, if `i` is a position.
    pub fn from_index(i: u32) -> (c: Option<Color>)
        ensures
            i < PLAYER_COUNT ==> c == Some(Color::at(i as int)),
            i >= PLAYER_COUNT ==> c is None,
    {
        if i == 0 {
            Some(Color::Red)
        } else if i == 1 {
            Some(Color::Green)
        } else if i == 2 {
            Some(Color::Yellow)
        } else if i == 3 {
            Some(Color::Orange)
        } else if i == 4 {
            Some(Color::Purple)
        } else {
            None
        }
    }

    /// The colour's lower-case name.
    pub fn name(self) -> (s: &'static str)
        ensures
            s@ == self.label(),
    {
        match self {
            Color::Red => "red",
            Color::Green => "green",
            Color::Yellow => "yellow",
            Color::Orange => "orange",
            Color::Purple => "purple",
        }
    }

    /// The colour that `name` stands for, if it is the lower-case name of one.
    pub fn from_name(name: &str) -> (c: Option<Color>)
        ensures
            c == Color::parse(name@),
    {
        let owned = name.to_owned();
        if owned == "red".to_owned() {
            Some(Color::Red)
        } else if owned == "green".to_owned() {
            Some(Color::Green)
        } else if owned == "yellow".to_owned() {
            Some(Color::Yellow)
        } else if owned == "orange".to_owned() {
            Some(Color::Orange)
        } else if owned == "purple".to_owned() {
            Some(Color::Purple)
        } else {
            None
        }
    }
}

impl Suit {
    /// Position of the suit in a fresh deck.
    pub open spec fn ordinal(self) -> int {
        match self {
            Suit::Hearts => 0,
            Suit::Diamonds => 1,
            Suit::Clubs => 2,
            Suit::Spades => 3,
        }
    }

    /// The suit at position `i`; positions wrap around.
    pub open spec fn at(i: int) -> Suit {
        let k = i % 4;
        if k == 0 {
            Suit::Hearts
        } else if k == 1 {
            Suit::Diamonds
        } else if k == 2 {
            Suit::Clubs
        } else {
            Suit::Spades
        }
    }

    /// The suit a lower-case name stands for, if any.
    pub open spec fn parse(name: Seq<char>) -> Option<Suit> {
        if name == "hearts"@ {
            Some(Suit::Hearts)
        } else if name == "diamonds"@ {
            Some(Suit::Diamonds)
        } else if name == "clubs"@ {
            Some(Suit::Clubs)
        } else if name == "spades"@ {
            Some(Suit::Spades)
        } else {
            None
        }
    }

    /// The suit's lower-case name.
    pub open spec fn label(self) -> Seq<char> {
        match self {
            Suit::Hearts => "hearts"@,
            Suit::Diamonds => "diamonds"@,
            Suit::Clubs => "clubs"@,
            Suit::Spades => "spades"@,
        }
    }

    /// Position of the suit in a fresh deck.
    pub fn index(self) -> (i: u32)
        ensures
            i == self.ordinal(),
            i < SUIT_COUNT,
    {
        match self {
            Suit::Hearts => 0,
            Suit::Diamonds => 1,
            Suit::Clubs => 2,
            Suit::Spades => 3,
        }
    }

    /// The suit at position `i` of a fresh deck, if `i` is a position.
    pub fn from_index(i: u32) -> (s: Option<Suit>)
        ensures
            i < SUIT_COUNT ==> s == Some(Suit::at(i as int)),
            i >= SUIT_COUNT ==> s is None,
    {
        if i == 0 {
            Some(Suit::Hearts)
        } else if i == 1 {
            Some(Suit::Diamonds)
        } else if i == 2 {
            Some(Suit::Clubs)
        } else if i == 3 {
            Some(Suit::Spades)
        } else {
            None
        }
    }

    /// The suit's lower-case name.
    pub fn name(self) -> (s: &'static str)
        ensures
            s@ == self.label(),
    {
        match self {
            Suit::Hearts => "hearts",
            Suit::Diamonds => "diamonds",
            Suit::Clubs => "clubs",
            Suit::Spades => "spades",
        }
    }

    /// The suit that `name` stands for, if it is the lower-case name of one.
    pub fn from_name(name: &str) -> (s: Option<Suit>)
        ensures
            s == Suit::parse(name@),
    {
        let owned = name.to_owned();
        if owned == "hearts".to_owned() {
            Some(Suit::Hearts)
        } else if owned == "diamonds".to_owned() {
            Some(Suit::Diamonds)
        } else if owned == "clubs".to_owned() {
            Some(Suit::Clubs)
        } else if owned == "spades".to_owned() {
            Some(Suit::Spades)
        } else {
            None
        }
    }
}

/// Names and positions identify colours: the name of a colour stands for that
/// colour and no other, and so does its position in the turn order.
pub proof fn lemma_color_round_trip(color: Color)
    ensures
        Color::parse(color.label()) == Some(color),
        Color::at(color.ordinal()) == color,
        0 <= color.ordinal() < PLAYER_COUNT,
{
    reveal_strlit("red");
    reveal_strlit("green");
    reveal_strlit("yellow");
    reveal_strlit("orange");
    reveal_strlit("purple");
    assert("red"@.len() == 3 && "green"@.len() == 5);
    assert("yellow"@[0] == 'y' && "orange"@[0] == 'o' && "purple"@[0] == 'p');
}

/// Names and positions identify suits: the name of a suit stands for that
/// suit and no other, and so does its position in a fresh deck.
pub proof fn lemma_suit_round_trip(suit: Suit)
    ensures
        Suit::parse(suit.label()) == Some(suit),
        Suit::at(suit.ordinal()) == suit,
        0 <= suit.ordinal() < SUIT_COUNT,
{
    reveal_strlit("hearts");
    reveal_strlit("diamonds");
    reveal_strlit("clubs");
    reveal_strlit("spades");
    assert("hearts"@.len() == 6 && "diamonds"@.len() == 8 && "clubs"@.len() == 5);
    assert("hearts"@[0] == 'h' && "spades"@[0] == 's');
}

} // verus!
