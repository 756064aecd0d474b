//! The standard deck of 52 cards.

use crate::card::{Card, Error, Suit, Value};
use vstd::prelude::*;

verus! {

/// The suits in the order in which a deck holds them.
pub open spec fn suit_at(k: int) -> Suit {
    if k == 0 {
        Suit::Spades
    } else if k == 1 {
        Suit::Hearts
    } else if k == 2 {
        Suit::Diamonds
    } else {
        Suit::Clubs
    }
}

/// The ranks in the order in which a deck holds them within a suit: two
/// first, ace last.
pub open spec fn rank_at(k: int) -> Value {
    if k == 0 {
        Value::Two
    } else if k == 1 {
        Value::Three
    } else if k == 2 {
        Value::Four
    } else if k == 3 {
        Value::Five
    } else if k == 4 {
        Value::Six
    } else if k == 5 {
        Value::Seven
    } else if k == 6 {
        Value::Eight
    } else if k == 7 {
        Value::Nine
    } else if k == 8 {
        Value::Ten
    } else if k == 9 {
        Value::Jack
    } else if k == 10 {
        Value::Queen
    } else if k == 11 {
        Value::King
    } else {
        Value::Ace
    }
}

/// Where a suit stands among the suits of a deck.
pub open spec fn suit_index(suit: Suit) -> int {
    match suit {
        Suit::Spades => 0,
        Suit::Hearts => 1,
        Suit::Diamonds => 2,
        Suit::Clubs => 3,
    }
}

/// Where a rank stands among the ranks of a suit.
pub open spec fn rank_index(value: Value) -> int {
    match value {
        Value::Two => 0,
        Value::Three => 1,
        Value::Four => 2,
        Value::Five => 3,
        Value::Six => 4,
        Value::Seven => 5,
        Value::Eight => 6,
        Value::Nine => 7,
        Value::Ten => 8,
        Value::Jack => 9,
        Value::Queen => 10,
        Value::King => 11,
        Value::Ace => 12,
    }
}

/// The card at a place of a fresh deck: the suits follow each other, each
/// with its thirteen ranks in order.
pub open spec fn deck_card(i: int) -> Card {
    Card { suit: suit_at(i / 13), value: rank_at(i % 13) }
}

/// The cards of a fresh deck, in order.
pub open spec fn standard_deck() -> Seq<Card> {
    Seq::new(52, |i: int| deck_card(i))
}

/// The place of a card in a fresh deck.
pub open spec fn deck_position(card: Card) -> int {
    13 * suit_index(card.suit) + rank_index(card.value)
}

/// A fresh deck holds every card, each rank in each suit, exactly once:
/// a card stands at its place and at no other.
pub proof fn lemma_deck_holds_each_card_once(card: Card)
    ensures
        standard_deck().len() == 52,
        0 <= deck_position(card) < 52,
        standard_deck()[deck_position(card)] == card,
        forall|i: int|
            0 <= i < 52 && #[trigger] standard_deck()[i] == card ==> i == deck_position(card),
{
    assert forall|i: int| 0 <= i < 52 && #[trigger] standard_deck()[i] == card implies i
        == deck_position(card) by {
        assert(deck_card(i) == card);
    }
}

/// Counted as a multiset, a fresh deck holds every card once.
pub proof fn lemma_deck_counts_each_card_once(card: Card)
    ensures
        standard_deck().to_multiset().count(card) == 1,
{
    let deck = standard_deck();
    assert(deck.no_duplicates()) by {
        assert forall|i: int, j: int|
            0 <= i < deck.len() && 0 <= j < deck.len() && i != j implies deck[i] != deck[j] by {
            lemma_deck_holds_each_card_once(deck[i]);
        }
    }
    deck.lemma_multiset_has_no_duplicates();
    lemma_deck_holds_each_card_once(card);
    assert(deck.contains(card)) by {
        assert(deck[deck_position(card)] == card);
    }
    vstd::seq_lib::to_multiset_contains(deck, card);
}

/// A complete deck of 52 cards.
#[derive(Debug, Clone)]
pub struct Deck {
    pub cards: Vec<Card>,
}

impl Deck {
    /// Builds a fresh deck. The ranks are read from their numbers, 2 to
    /// 14, and a number that named no rank would be reported as
    /// `InvalidRank`; every one of them names a rank, so the deck is
    /// always built.
    pub fn new() -> (res: Result<Deck, Error>)
        ensures
            res is Ok,
            res->Ok_0.cards@ == standard_deck(),
    {
        let mut all_values: Vec<Value> = Vec::new();
        let mut number: u32 = 2;
        while number <= 14
            invariant
                2 <= number <= 15,
                all_values@.len() == number - 2,
                forall|j: int| 0 <= j < all_values@.len() ==> all_values@[j] == rank_at(j),
            decreases 15 - number,
        {
            match Value::try_from(number) {
                Ok(rank) => all_values.push(rank),
                Err(e) => return Err(e),
            }
            number = number + 1;
        }
        let all_suits: Vec<Suit> = vec![Suit::Spades, Suit::Hearts, Suit::Diamonds, Suit::Clubs];
        let mut cards: Vec<Card> = Vec::new();
        let mut s: usize = 0;
        while s < 4
            invariant
                s <= 4,
                all_suits@.len() == 4,
                forall|k: int| 0 <= k < 4 ==> all_suits@[k] == suit_at(k),
                all_values@.len() == 13,
                forall|j: int| 0 <= j < 13 ==> all_values@[j] == rank_at(j),
                cards@.len() == 13 * s,
                forall|i: int| 0 <= i < cards@.len() ==> cards@[i] == deck_card(i),
            decreases 4 - s,
        {
            let suit = all_suits[s];
            let mut r: usize = 0;
            while r < 13
                invariant
                    s < 4,
                    r <= 13,
                    suit == suit_at(s as int),
                    all_values@.len() == 13,
                    forall|j: int| 0 <= j < 13 ==> all_values@[j] == rank_at(j),
                    cards@.len() == 13 * s + r,
                    forall|i: int| 0 <= i < cards@.len() ==> cards@[i] == deck_card(i),
                decreases 13 - r,
            {
                cards.push(Card { suit, value: all_values[r] });
                r = r + 1;
            }
            s = s + 1;
        }
        assert(cards@ =~= standard_deck());
        Ok(Deck { cards })
    }
}

} // verus!
