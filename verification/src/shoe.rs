//! The shoe: several decks as one draw pile, with its card-counting
//! statistics.

use crate::card::{Card, Error, DECK_SIZE};
use crate::deck::{lemma_deck_counts_each_card_once, standard_deck, Deck};
use vstd::prelude::*;

verus! {

/// What drawing a card does to the running count: a low card (2 to 6)
/// raises it by one, a ten, a face card or an ace lowers it by one, and
/// 7, 8 and 9 leave it.
pub open spec fn count_change(card: Card) -> int {
    if card.value.spec_value() <= 6 {
        1
    } else if card.value.spec_value() >= 10 {
        -1
    } else {
        0
    }
}

/// The sum of the count changes of the cards.
pub open spec fn count_total(cards: Seq<Card>) -> int
    decreases cards.len(),
{
    if cards.len() == 0 {
        0
    } else {
        count_total(cards.drop_last()) + count_change(cards.last())
    }
}

/// The number of full decks among so many cards, and one where they make
/// up less than a deck: the divisor of the true count.
pub open spec fn spec_decks_left(cards: nat) -> nat {
    if cards / 52 >= 1 {
        cards / 52
    } else {
        1
    }
}

/// The cards of a fresh shoe of so many decks: the decks one after
/// another.
pub open spec fn shoe_cards(decks: nat) -> Seq<Card>
    decreases decks,
{
    if decks == 0 {
        Seq::empty()
    } else {
        shoe_cards((decks - 1) as nat) + standard_deck()
    }
}

/// A fresh shoe of `decks` decks holds 52 cards for each of them.
pub proof fn lemma_shoe_cards_len(decks: nat)
    ensures
        shoe_cards(decks).len() == 52 * decks,
    decreases decks,
{
    if decks > 0 {
        lemma_shoe_cards_len((decks - 1) as nat);
    }
}

/// A fresh shoe of `decks` decks holds every card `decks` times.
pub proof fn lemma_shoe_holds_each_card(decks: nat, card: Card)
    ensures
        shoe_cards(decks).to_multiset().count(card) == decks,
    decreases decks,
{
    if decks == 0 {
        vstd::seq_lib::to_multiset_contains(shoe_cards(0), card);
    } else {
        let earlier = shoe_cards((decks - 1) as nat);
        lemma_shoe_holds_each_card((decks - 1) as nat, card);
        lemma_deck_counts_each_card_once(card);
        vstd::seq_lib::lemma_multiset_commutative(earlier, standard_deck());
    }
}

/// The count changes of two runs of cards add up.
pub proof fn lemma_count_total_concat(front: Seq<Card>, back: Seq<Card>)
    ensures
        count_total(front + back) == count_total(front) + count_total(back),
    decreases back.len(),
{
    if back.len() == 0 {
        assert(front + back =~= front);
    } else {
        lemma_count_total_concat(front, back.drop_last());
        assert((front + back).drop_last() =~= front + back.drop_last());
    }
}

/// The true count as an exact ratio: the running count over the number
/// of decks that are left. `decks` is never zero.
#[derive(Debug, Clone, Copy, PartialEq, Eq, Structural)]
pub struct TrueCount {
    pub running: i32,
    pub decks: usize,
}

/// The draw pile. Cards leave it from the end of `cards`.
#[derive(Clone)]
pub struct Shoe {
    pub cards: Vec<Card>,
    pub running_count: i32,
    pub true_count: TrueCount,
}

/// Brings the cards into a random order with `rand`'s
/// `SliceRandom::shuffle`, driven by the generator that `rand::thread_rng`
/// hands out. The shuffle only swaps elements of the slice, so the same
/// cards are there afterwards, each as often as before; nothing is
/// claimed of their order. The generator is seeded by the system, and
/// `rand` panics where the system gives it no seed.
#[verifier::external_body]
fn shuffle_cards(cards: &mut Vec<Card>)
    ensures
        final(cards)@.to_multiset() == old(cards)@.to_multiset(),
{
    let mut rng = rand::thread_rng();
    rand::seq::SliceRandom::shuffle(cards.as_mut_slice(), &mut rng);
}

/// The number of full decks among so many cards, and one where they make
/// up less than a deck.
fn full_decks(cards: usize) -> (decks: usize)
    ensures
        decks == spec_decks_left(cards as nat),
{
    let full = cards / DECK_SIZE;
    if full >= 1 {
        full
    } else {
        1
    }
}

impl Shoe {
    /// The true count that belongs to the cards and the running count of
    /// the shoe.
    pub open spec fn spec_true_count(&self) -> TrueCount {
        TrueCount {
            running: self.running_count,
            decks: spec_decks_left(self.cards@.len()) as usize,
        }
    }

    /// Whether the next draw keeps the running count within an `i32`.
    pub open spec fn spec_next_fits(&self) -> bool {
        self.cards@.len() > 0 ==> i32::MIN <= self.running_count + count_change(self.cards@.last())
            <= i32::MAX
    }

    /// Whether the running count stays within an `i32` however many of
    /// the remaining cards are drawn.
    pub open spec fn spec_counts_fit(&self) -> bool {
        &&& self.running_count - self.cards@.len() >= i32::MIN
        &&& self.running_count + self.cards@.len() <= i32::MAX
    }

    /// Whether this shoe is what `before` becomes when `k` cards are drawn
    /// from it: they have left the end of the pile, the running count has
    /// taken the change of each, and the true count belongs to what is
    /// left. With no card drawn nothing has changed.
    pub open spec fn spec_drew(&self, before: Shoe, k: nat) -> bool {
        &&& k <= before.cards@.len()
        &&& self.cards@ == before.cards@.take(before.cards@.len() - k)
        &&& self.running_count == before.running_count + count_total(
            before.cards@.skip(before.cards@.len() - k),
        )
        &&& if k == 0 {
            self.true_count == before.true_count
        } else {
            self.true_count == self.spec_true_count()
        }
    }

    /// Whether the running count stays within an `i32` however many of
    /// the remaining cards are drawn: the test for what a round asks of
    /// its shoe.
    pub fn counts_fit(&self) -> (b: bool)
        ensures
            b == self.spec_counts_fit(),
    {
        let len = self.cards.len();
        if len > i32::MAX as usize {
            return false;
        }
        let room: i64 = len as i64;
        let count: i64 = self.running_count as i64;
        count - room >= i32::MIN as i64 && count + room <= i32::MAX as i64
    }

    /// The number of full decks among the cards of the shoe, and one
    /// where less than a deck is left.
    pub fn decks_left(&self) -> (decks: usize)
        ensures
            decks == spec_decks_left(self.cards@.len()),
    {
        full_decks(self.cards.len())
    }

    /// Builds a shoe of `num_decks` fresh decks, one after another, with
    /// both counts at zero. A shoe of no decks is refused.
    pub fn new(num_decks: u32) -> (res: Result<Shoe, Error>)
        ensures
            num_decks == 0 ==> res == Err::<Shoe, Error>(Error::InvalidConfiguration),
            num_decks > 0 ==> res is Ok,
            res matches Ok(shoe) ==> {
                &&& shoe.cards@ == shoe_cards(num_decks as nat)
                &&& shoe.cards@.len() == 52 * num_decks
                &&& shoe.running_count == 0
                &&& shoe.true_count.running == 0
                &&& shoe.true_count == shoe.spec_true_count()
                &&& shoe.spec_counts_fit() <==> 52 * num_decks <= i32::MAX
            },
    {
        if num_decks == 0 {
            return Err(Error::InvalidConfiguration);
        }
        let mut cards: Vec<Card> = Vec::new();
        let mut built: u32 = 0;
        while built < num_decks
            invariant
                built <= num_decks,
                cards@ == shoe_cards(built as nat),
            decreases num_decks - built,
        {
            let mut deck = match Deck::new() {
                Ok(deck) => deck,
                Err(e) => return Err(e),
            };
            cards.append(&mut deck.cards);
            built = built + 1;
        }
        proof {
            lemma_shoe_cards_len(num_decks as nat);
        }
        let decks = full_decks(cards.len());
        Ok(Shoe { cards, running_count: 0, true_count: TrueCount { running: 0, decks } })
    }

    /// Draws the card at the end of the pile. The running count takes the
    /// change of the card, and the true count is set to the new running
    /// count over the decks that are left, before the card is handed
    /// out. An empty shoe gives `ShoeEmpty` and stays as it is.
    pub fn take_card(&mut self) -> (res: Result<Card, Error>)
        requires
            old(self).spec_next_fits(),
        ensures
            old(self).cards@.len() == 0 ==> {
                &&& res == Err::<Card, Error>(Error::ShoeEmpty)
                &&& final(self).cards@ == old(self).cards@
                &&& final(self).running_count == old(self).running_count
                &&& final(self).true_count == old(self).true_count
            },
            old(self).cards@.len() > 0 ==> {
                &&& res == Ok::<Card, Error>(old(self).cards@.last())
                &&& final(self).cards@ == old(self).cards@.drop_last()
                &&& final(self).running_count == old(self).running_count + count_change(
                    old(self).cards@.last(),
                )
                &&& final(self).true_count == final(self).spec_true_count()
            },
            final(self).spec_drew(*old(self), if old(self).cards@.len() > 0 {
                1nat
            } else {
                0nat
            }),
            old(self).spec_counts_fit() ==> final(self).spec_counts_fit(),
    {
        proof {
            lemma_drew_none(*self);
        }
        let card = match self.cards.pop() {
            Some(card) => card,
            None => return Err(Error::ShoeEmpty),
        };
        let card_val = card.value.value();
        let count_change: i32 = if card_val <= 6 {
            1
        } else if card_val >= 10 {
            -1
        } else {
            0
        };
        self.running_count = self.running_count + count_change;
        let decks = self.decks_left();
        self.true_count = TrueCount { running: self.running_count, decks };
        proof {
            let n = old(self).cards@.len() as int;
            assert(self.cards@ =~= old(self).cards@.take(n - 1));
            let drawn = old(self).cards@.skip(n - 1);
            assert(drawn.last() == card);
            assert(count_total(drawn.drop_last()) == 0);
        }
        Ok(card)
    }

    /// The number of cards that are left.
    pub fn num_cards(&self) -> (n: u32)
        requires
            self.cards@.len() <= u32::MAX,
        ensures
            n == self.cards@.len(),
    {
        self.cards.len() as u32
    }

    /// Shuffles the shoe: the same cards in a random order, and both
    /// counts back at zero.
    pub fn shuffle(self) -> (res: Shoe)
        ensures
            res.cards@.to_multiset() == self.cards@.to_multiset(),
            res.cards@.len() == self.cards@.len(),
            res.running_count == 0,
            res.true_count.running == 0,
            res.true_count == res.spec_true_count(),
            self.spec_counts_fit() ==> res.spec_counts_fit(),
    {
        let mut new_cards = self.cards;
        shuffle_cards(&mut new_cards);
        proof {
            self.cards@.to_multiset_ensures();
            new_cards@.to_multiset_ensures();
        }
        let decks = full_decks(new_cards.len());
        Shoe { cards: new_cards, running_count: 0, true_count: TrueCount { running: 0, decks } }
    }
}

/// A shoe from which nothing was drawn is as it was.
pub proof fn lemma_drew_none(shoe: Shoe)
    ensures
        shoe.spec_drew(shoe, 0),
{
    let n = shoe.cards@.len() as int;
    assert(shoe.cards@.take(n) =~= shoe.cards@);
    assert(shoe.cards@.skip(n).len() == 0);
}

/// Drawing `j` cards and then `k` more is drawing `j + k` cards.
pub proof fn lemma_drew_more(before: Shoe, mid: Shoe, after: Shoe, j: nat, k: nat)
    requires
        mid.spec_drew(before, j),
        after.spec_drew(mid, k),
    ensures
        after.spec_drew(before, j + k),
{
    let n = before.cards@.len() as int;
    let first = before.cards@.skip(n - j);
    let second = mid.cards@.skip(n - j - k);
    assert(after.cards@ =~= before.cards@.take(n - (j + k)));
    assert(before.cards@.skip(n - (j + k)) =~= second + first);
    lemma_count_total_concat(second, first);
    if k == 0 {
        assert(after.cards@ =~= mid.cards@);
        assert(second.len() == 0);
    }
    if j == 0 {
        assert(first.len() == 0);
    }
}

} // verus!
