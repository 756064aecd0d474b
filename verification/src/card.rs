//! Ranks, suits and cards.

use vstd::prelude::*;
use vstd::string::StringExecFns;

verus! {

/// The total a hand may reach without going bust.
pub const TWENTY_ONE: u32 = 21;

/// The number of cards in one complete deck.
pub const DECK_SIZE: usize = 52;

/// What the engine reports to its caller when an operation cannot be done.
#[derive(Debug, Clone, Copy, PartialEq, Eq, Structural)]
pub enum Error {
    /// A number that names no rank, met while a deck was being built.
    InvalidRank(u32),
    /// A shoe of zero decks was asked for.
    InvalidConfiguration,
    /// A card was drawn from a shoe that holds none.
    ShoeEmpty,
}

/// The four suits. A suit plays no part in scoring.
#[derive(Debug, Clone, Copy, PartialEq, Eq, Structural)]
pub enum Suit {
    Spades,
    Hearts,
    Diamonds,
    Clubs,
}

impl Suit {
    /// The sign of the suit.
    pub open spec fn spec_symbol(self) -> Seq<char> {
        match self {
            Suit::Spades => seq!['♠'],
            Suit::Hearts => seq!['♥'],
            Suit::Diamonds => seq!['♦'],
            Suit::Clubs => seq!['♣'],
        }
    }

    /// The sign of the suit.
    pub fn symbol(&self) -> (s: &'static str)
        ensures
            s@ == self.spec_symbol(),
    {
        proof {
            reveal_strlit("♠");
            reveal_strlit("♥");
            reveal_strlit("♦");
            reveal_strlit("♣");
        }
        let s = match self {
            Suit::Spades => "♠",
            Suit::Hearts => "♥",
            Suit::Diamonds => "♦",
            Suit::Clubs => "♣",
        };
        assert(s@ =~= self.spec_symbol());
        s
    }
}

/// The thirteen ranks.
#[derive(Debug, Clone, Copy, PartialEq, Eq, Structural)]
pub enum Value {
    Two,
    Three,
    Four,
    Five,
    Six,
    Seven,
    Eight,
    Nine,
    Ten,
    Jack,
    Queen,
    King,
    Ace,
}

impl Value {
    /// What an ace counts when it is taken high.
    pub const ACE_HIGH_VAL: u32 = 11;

    /// What an ace counts when it is taken low.
    pub const ACE_LOW_VAL: u32 = 1;

    /// The blackjack value of a rank: its pips for two to ten, ten for a
    /// face card, eleven for an ace.
    pub open spec fn spec_value(self) -> nat {
        match self {
            Value::Two => 2,
            Value::Three => 3,
            Value::Four => 4,
            Value::Five => 5,
            Value::Six => 6,
            Value::Seven => 7,
            Value::Eight => 8,
            Value::Nine => 9,
            Value::Ten => 10,
            Value::Jack => 10,
            Value::Queen => 10,
            Value::King => 10,
            Value::Ace => 11,
        }
    }

    /// The rank that a number from 1 to 14 names: 2 to 10 are the pip
    /// cards, 11 to 13 jack, queen and king, and both 1 and 14 the ace.
    pub open spec fn spec_from_number(n: u32) -> Option<Value> {
        if n == 1 || n == 14 {
            Some(Value::Ace)
        } else if n == 2 {
            Some(Value::Two)
        } else if n == 3 {
            Some(Value::Three)
        } else if n == 4 {
            Some(Value::Four)
        } else if n == 5 {
            Some(Value::Five)
        } else if n == 6 {
            Some(Value::Six)
        } else if n == 7 {
            Some(Value::Seven)
        } else if n == 8 {
            Some(Value::Eight)
        } else if n == 9 {
            Some(Value::Nine)
        } else if n == 10 {
            Some(Value::Ten)
        } else if n == 11 {
            Some(Value::Jack)
        } else if n == 12 {
            Some(Value::Queen)
        } else if n == 13 {
            Some(Value::King)
        } else {
            None
        }
    }

    /// The blackjack value of the rank.
    pub fn value(&self) -> (v: u32)
        ensures
            v == self.spec_value(),
            2 <= v <= 11,
    {
        match self {
            Value::Two => 2,
            Value::Three => 3,
            Value::Four => 4,
            Value::Five => 5,
            Value::Six => 6,
            Value::Seven => 7,
            Value::Eight => 8,
            Value::Nine => 9,
            Value::Ten => 10,
            Value::Jack => 10,
            Value::Queen => 10,
            Value::King => 10,
            Value::Ace => 11,
        }
    }

    /// The sign of the rank: its number for two to ten, its initial for a
    /// face card and the ace.
    pub open spec fn spec_symbol(self) -> Seq<char> {
        match self {
            Value::Two => seq!['2'],
            Value::Three => seq!['3'],
            Value::Four => seq!['4'],
            Value::Five => seq!['5'],
            Value::Six => seq!['6'],
            Value::Seven => seq!['7'],
            Value::Eight => seq!['8'],
            Value::Nine => seq!['9'],
            Value::Ten => seq!['1', '0'],
            Value::Jack => seq!['J'],
            Value::Queen => seq!['Q'],
            Value::King => seq!['K'],
            Value::Ace => seq!['A'],
        }
    }

    /// The sign of the rank.
    pub fn symbol(&self) -> (s: &'static str)
        ensures
            s@ == self.spec_symbol(),
    {
        proof {
            reveal_strlit("2");
            reveal_strlit("3");
            reveal_strlit("4");
            reveal_strlit("5");
            reveal_strlit("6");
            reveal_strlit("7");
            reveal_strlit("8");
            reveal_strlit("9");
            reveal_strlit("10");
            reveal_strlit("J");
            reveal_strlit("Q");
            reveal_strlit("K");
            reveal_strlit("A");
        }
        let s = match self {
            Value::Two => "2",
            Value::Three => "3",
            Value::Four => "4",
            Value::Five => "5",
            Value::Six => "6",
            Value::Seven => "7",
            Value::Eight => "8",
            Value::Nine => "9",
            Value::Ten => "10",
            Value::Jack => "J",
            Value::Queen => "Q",
            Value::King => "K",
            Value::Ace => "A",
        };
        assert(s@ =~= self.spec_symbol());
        s
    }

    /// Whether the rank is the ace.
    pub fn is_ace(&self) -> (b: bool)
        ensures
            b == (*self == Value::Ace),
    {
        match self {
            Value::Ace => true,
            _ => false,
        }
    }
}

impl TryFrom<u32> for Value {
    type Error = Error;

    /// Reads a rank from its number; a number outside 1 to 14 is refused
    /// with `InvalidRank`, which carries the number.
    fn try_from(value: u32) -> (res: Result<Self, Error>) {
        Ok(
            match value {
                1 => Value::Ace,
                2 => Value::Two,
                3 => Value::Three,
                4 => Value::Four,
                5 => Value::Five,
                6 => Value::Six,
                7 => Value::Seven,
                8 => Value::Eight,
                9 => Value::Nine,
                10 => Value::Ten,
                11 => Value::Jack,
                12 => Value::Queen,
                13 => Value::King,
                14 => Value::Ace,
                _ => return Err(Error::InvalidRank(value)),
            },
        )
    }
}

impl vstd::std_specs::convert::TryFromSpecImpl<u32> for Value {
    open spec fn obeys_try_from_spec() -> bool {
        true
    }

    /// What `try_from` returns: the rank that the number names, or
    /// `InvalidRank` with the number where it names none.
    open spec fn try_from_spec(v: u32) -> Result<Self, Self::Error> {
        match Value::spec_from_number(v) {
            Some(rank) => Ok(rank),
            None => Err(Error::InvalidRank(v)),
        }
    }
}

/// A playing card: a rank in a suit.
#[derive(Debug, Clone, Copy, PartialEq, Eq, Structural)]
pub struct Card {
    pub suit: Suit,
    pub value: Value,
}

impl Card {
    /// The token that shows the card: the sign of its rank, then that of
    /// its suit.
    pub open spec fn spec_token(self) -> Seq<char> {
        self.value.spec_symbol() + self.suit.spec_symbol()
    }

    /// The token that shows the card, such as `A♠` or `10♥`.
    pub fn to_string(&self) -> (s: String)
        ensures
            s@ == self.spec_token(),
    {
        let mut s = String::from_str(self.value.symbol());
        s.append(self.suit.symbol());
        s
    }
}

} // verus!
