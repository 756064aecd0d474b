//! Hands and their valuation.

use crate::card::{Card, Value, TWENTY_ONE};
use crate::text::{decimal, spec_decimal};
use vstd::prelude::*;
use vstd::string::StringExecFns;

verus! {

/// What a card adds to a total when every ace is taken low.
pub open spec fn low_value(card: Card) -> nat {
    if card.value == Value::Ace {
        1
    } else {
        card.value.spec_value()
    }
}

/// The number of aces among the cards.
pub open spec fn ace_count(cards: Seq<Card>) -> nat
    decreases cards.len(),
{
    if cards.len() == 0 {
        0
    } else {
        ace_count(cards.drop_last()) + if cards.last().value == Value::Ace {
            1nat
        } else {
            0nat
        }
    }
}

/// The sum of the values of the cards that are no aces.
pub open spec fn plain_total(cards: Seq<Card>) -> nat
    decreases cards.len(),
{
    if cards.len() == 0 {
        0
    } else {
        plain_total(cards.drop_last()) + if cards.last().value == Value::Ace {
            0nat
        } else {
            cards.last().value.spec_value()
        }
    }
}

/// The sum of the rank values of the cards, each ace at eleven.
pub open spec fn face_total(cards: Seq<Card>) -> nat
    decreases cards.len(),
{
    if cards.len() == 0 {
        0
    } else {
        face_total(cards.drop_last()) + cards.last().value.spec_value()
    }
}

/// The least total the cards can make: every ace at one.
pub open spec fn low_total(cards: Seq<Card>) -> nat {
    plain_total(cards) + ace_count(cards)
}

/// The total the cards make with `high` of their aces at eleven and the
/// others at one.
pub open spec fn total_with(cards: Seq<Card>, high: nat) -> nat {
    low_total(cards) + 10 * high
}

/// The blackjack value of the cards: the greatest total of at most 21
/// that some choice of high and low aces makes, and the least total where
/// every choice goes over. Two high aces already make 22, so at most one
/// ace is ever high.
pub open spec fn hand_value(cards: Seq<Card>) -> nat {
    if ace_count(cards) >= 1 && low_total(cards) + 10 <= 21 {
        low_total(cards) + 10
    } else {
        low_total(cards)
    }
}

/// A natural: two cards, one of them an ace, worth 21.
pub open spec fn natural(cards: Seq<Card>) -> bool {
    cards.len() == 2 && ace_count(cards) == 1 && hand_value(cards) == 21
}

/// The tokens of the cards in their order, with a blank between one and
/// the next.
pub open spec fn joined_tokens(cards: Seq<Card>) -> Seq<char>
    decreases cards.len(),
{
    if cards.len() == 0 {
        Seq::empty()
    } else if cards.len() == 1 {
        cards.last().spec_token()
    } else {
        joined_tokens(cards.drop_last()) + seq![' '] + cards.last().spec_token()
    }
}

/// The line that shows a hand: its cards, then its value in brackets.
pub open spec fn hand_text(cards: Seq<Card>) -> Seq<char> {
    joined_tokens(cards) + seq![' ', '('] + spec_decimal(hand_value(cards)) + seq![')']
}

/// Adding a card at the end adds its part to each of the sums.
pub proof fn lemma_totals_push(cards: Seq<Card>, card: Card)
    ensures
        ace_count(cards.push(card)) == ace_count(cards) + if card.value == Value::Ace {
            1nat
        } else {
            0nat
        },
        plain_total(cards.push(card)) == plain_total(cards) + if card.value == Value::Ace {
            0nat
        } else {
            card.value.spec_value()
        },
        face_total(cards.push(card)) == face_total(cards) + card.value.spec_value(),
        low_total(cards.push(card)) == low_total(cards) + low_value(card),
{
    assert(cards.push(card).drop_last() =~= cards);
    assert(cards.push(card).last() == card);
}

/// The sums of a prefix are no larger than those of the whole.
pub proof fn lemma_totals_prefix(cards: Seq<Card>, n: int)
    requires
        0 <= n <= cards.len(),
    ensures
        ace_count(cards.take(n)) <= ace_count(cards),
        plain_total(cards.take(n)) <= plain_total(cards),
        low_total(cards.take(n)) <= low_total(cards),
    decreases cards.len() - n,
{
    if n == cards.len() {
        assert(cards.take(n) =~= cards);
    } else {
        lemma_totals_prefix(cards, n + 1);
        assert(cards.take(n + 1).drop_last() =~= cards.take(n));
    }
}

/// Every card counts at least one and at most ten towards the least
/// total, and an ace is one of the cards.
pub proof fn lemma_totals_bounds(cards: Seq<Card>)
    ensures
        ace_count(cards) <= cards.len(),
        cards.len() <= low_total(cards) <= 10 * cards.len(),
        face_total(cards) == low_total(cards) + 10 * ace_count(cards),
    decreases cards.len(),
{
    if cards.len() > 0 {
        lemma_totals_bounds(cards.drop_last());
    }
}

/// A hand without an ace is worth the sum of the values of its cards.
pub proof fn lemma_value_without_aces(cards: Seq<Card>)
    requires
        ace_count(cards) == 0,
    ensures
        hand_value(cards) == face_total(cards),
{
    lemma_totals_bounds(cards);
}

/// The value of a hand is the best total that its aces allow. It is one
/// of the totals that some number of high aces makes; no such total of at
/// most 21 is greater; and where even the least total is over 21, the
/// value is that total, as it is.
pub proof fn lemma_value_is_best_total(cards: Seq<Card>)
    ensures
        exists|high: nat|
            high <= ace_count(cards) && hand_value(cards) == #[trigger] total_with(cards, high),
        forall|high: nat|
            high <= ace_count(cards) && #[trigger] total_with(cards, high) <= 21 ==> total_with(
                cards,
                high,
            ) <= hand_value(cards),
        hand_value(cards) <= 21 || hand_value(cards) == low_total(cards),
        low_total(cards) > 21 ==> hand_value(cards) == low_total(cards),
{
    lemma_totals_bounds(cards);
    if ace_count(cards) >= 1 && low_total(cards) + 10 <= 21 {
        assert(hand_value(cards) == total_with(cards, 1));
    } else {
        assert(hand_value(cards) == total_with(cards, 0));
    }
}

/// A hand of no cards is worth nothing.
pub proof fn lemma_empty_hand_value()
    ensures
        hand_value(Seq::<Card>::empty()) == 0,
        !natural(Seq::<Card>::empty()),
{
}

/// A natural is an ace with a card worth ten: nothing else makes 21 of
/// two cards with one ace among them.
pub proof fn lemma_natural_is_ace_and_ten(cards: Seq<Card>)
    ensures
        natural(cards) <==> cards.len() == 2 && ((cards[0].value == Value::Ace
            && cards[1].value.spec_value() == 10) || (cards[1].value == Value::Ace
            && cards[0].value.spec_value() == 10)),
{
    if cards.len() == 2 {
        let none = Seq::<Card>::empty();
        let one = none.push(cards[0]);
        assert(cards =~= one.push(cards[1]));
        lemma_totals_push(none, cards[0]);
        lemma_totals_push(one, cards[1]);
    }
}

/// A hand: the cards of one participant in one round, in the order in
/// which they came.
pub struct Hand {
    pub cards: Vec<Card>,
}

impl View for Hand {
    type V = Seq<Card>;

    /// A hand is seen as the sequence of its cards.
    open spec fn view(&self) -> Seq<Card> {
        self.cards@
    }
}

impl Default for Hand {
    /// The empty hand.
    fn default() -> (hand: Hand)
        ensures
            hand@ == Seq::<Card>::empty(),
    {
        Hand { cards: Vec::new() }
    }
}

impl Hand {
    /// The blackjack value of the hand.
    pub open spec fn spec_value(&self) -> nat {
        hand_value(self@)
    }

    /// Whether the value of the hand can be held in a `u32`.
    pub open spec fn spec_fits(&self) -> bool {
        low_total(self@) <= u32::MAX
    }

    /// The least total of the hand, every ace at one, where a `u32` can
    /// hold it.
    pub fn least_total(&self) -> (res: Option<u32>)
        ensures
            match res {
                Some(total) => total == low_total(self@),
                None => low_total(self@) > u32::MAX,
            },
    {
        let mut total: u64 = 0;
        let mut i: usize = 0;
        while i < self.cards.len()
            invariant
                i <= self.cards.len(),
                total == low_total(self@.take(i as int)),
                total <= u32::MAX,
            decreases self.cards.len() - i,
        {
            proof {
                lemma_totals_prefix(self@, i + 1);
                lemma_totals_push(self@.take(i as int), self@[i as int]);
                assert(self@.take(i + 1) =~= self@.take(i as int).push(self@[i as int]));
            }
            let low: u64 = if self.cards[i].value.is_ace() {
                Value::ACE_LOW_VAL as u64
            } else {
                self.cards[i].value.value() as u64
            };
            total = total + low;
            if total > u32::MAX as u64 {
                return None;
            }
            i = i + 1;
        }
        proof {
            assert(self@.take(i as int) =~= self@);
        }
        Some(total as u32)
    }

    /// Whether the value of the hand can be held in a `u32`: the test for
    /// what `calc_value` asks of its hand.
    pub fn fits(&self) -> (b: bool)
        ensures
            b == self.spec_fits(),
    {
        self.least_total().is_some()
    }

    /// The number of aces in the hand and the sum of its other cards.
    fn tally(&self) -> (res: (u32, u32))
        requires
            self.spec_fits(),
        ensures
            res.0 == ace_count(self@),
            res.1 == plain_total(self@),
    {
        let mut aces: u32 = 0;
        let mut plain: u32 = 0;
        let mut i: usize = 0;
        while i < self.cards.len()
            invariant
                i <= self.cards.len(),
                self.spec_fits(),
                aces == ace_count(self.cards@.take(i as int)),
                plain == plain_total(self.cards@.take(i as int)),
            decreases self.cards.len() - i,
        {
            proof {
                lemma_totals_prefix(self.cards@, i + 1);
                assert(self.cards@.take(i + 1).drop_last() =~= self.cards@.take(i as int));
            }
            if self.cards[i].value.is_ace() {
                aces = aces + 1;
            } else {
                plain = plain + self.cards[i].value.value();
            }
            i = i + 1;
        }
        proof {
            assert(self.cards@.take(i as int) =~= self.cards@);
        }
        (aces, plain)
    }

    /// The value of the hand. The aces are tried high first: with none of
    /// them low, then one, and so on, and the first total of at most 21
    /// is the value. Where even the total with every ace low is over 21,
    /// that total is the value: a bust is reported as it is.
    pub fn calc_value(&self) -> (val: u32)
        requires
            self.spec_fits(),
        ensures
            val == self.spec_value(),
            ace_count(self@) == 0 ==> val == face_total(self@),
            low_total(self@) > 21 ==> val == low_total(self@),
    {
        let (aces, plain) = self.tally();
        proof {
            lemma_totals_bounds(self.cards@);
        }
        let aces_wide: u64 = aces as u64;
        let plain_wide: u64 = plain as u64;
        let ace_high: u64 = Value::ACE_HIGH_VAL as u64;
        let ace_low: u64 = Value::ACE_LOW_VAL as u64;
        let mut val: u64 = plain_wide;
        let mut n: u64 = 0;
        while n <= aces_wide
            invariant
                ace_high == 11,
                ace_low == 1,
                n <= aces_wide + 1,
                aces_wide == ace_count(self.cards@),
                plain_wide == plain_total(self.cards@),
                plain_wide + aces_wide <= u32::MAX,
                n == 0 ==> val == plain_wide,
                n > 0 ==> val == plain_wide + (aces_wide - (n - 1)) * 11 + (n - 1),
                n > 0 ==> val > 21,
            decreases aces_wide + 1 - n,
        {
            let high: u64 = aces_wide - n;
            val = plain_wide + high * ace_high + n * ace_low;
            if val <= 21 {
                proof {
                    lemma_totals_bounds(self.cards@);
                }
                return val as u32;
            }
            n = n + 1;
        }
        val as u32
    }

    /// The hand that holds one card.
    pub fn from_card(card: Card) -> (hand: Hand)
        ensures
            hand@ == seq![card],
    {
        let mut cards: Vec<Card> = Vec::new();
        cards.push(card);
        Hand { cards }
    }

    /// Puts a card at the end of the hand.
    pub fn add_card(&mut self, card: Card)
        ensures
            final(self)@ == old(self)@.push(card),
    {
        self.cards.push(card);
    }

    /// Whether the hand is a natural blackjack: exactly two cards, exactly
    /// one of them an ace, and a value of 21.
    pub fn is_blackjack(&self) -> (b: bool)
        ensures
            b == natural(self@),
    {
        if self.cards.len() != 2 {
            return false;
        }
        proof {
            lemma_totals_bounds(self.cards@);
        }
        let (aces, _plain) = self.tally();
        aces == 1 && self.calc_value() == TWENTY_ONE
    }

    /// The line that shows the hand, such as `A♠ K♦ (21)`.
    pub fn to_string(&self) -> (s: String)
        requires
            self.spec_fits(),
        ensures
            s@ == hand_text(self@),
    {
        proof {
            reveal_strlit(" ");
            reveal_strlit(" (");
            reveal_strlit(")");
        }
        let mut s = String::new();
        let mut i: usize = 0;
        while i < self.cards.len()
            invariant
                i <= self.cards.len(),
                s@ == joined_tokens(self@.take(i as int)),
                " "@ == seq![' '],
            decreases self.cards.len() - i,
        {
            proof {
                assert(self@.take(i + 1).drop_last() =~= self@.take(i as int));
            }
            if i > 0 {
                s.append(" ");
            }
            let token = self.cards[i].to_string();
            s.append(token.as_str());
            i = i + 1;
        }
        proof {
            assert(self@.take(i as int) =~= self@);
        }
        let value = decimal(self.calc_value());
        s.append(" (");
        s.append(value.as_str());
        s.append(")");
        assert(s@ =~= hand_text(self@));
        s
    }
}

} // verus!