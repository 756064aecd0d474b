//! The round: dealing, the player's turn, the dealer's turn under its
//! fixed rule, and the outcome.

use crate::card::{Card, Error, TWENTY_ONE};
use crate::hand::{hand_value, lemma_totals_bounds, lemma_totals_push, low_total, natural, Hand};
use crate::shoe::{lemma_drew_more, lemma_drew_none, Shoe};
use vstd::prelude::*;
use vstd::string::StrSliceExecFns;

verus! {

/// The total from which the dealer stands.
pub const DEALER_STAND: u32 = 17;

/// Where a round stands.
#[derive(Debug, Clone, Copy, PartialEq, Eq, Structural)]
pub enum Phase {
    /// No card has been dealt yet.
    Dealing,
    /// The player draws or stands.
    PlayerTurn,
    /// The dealer's face-down card is about to be turned.
    DealerReveal,
    /// The dealer draws under the fixed rule.
    DealerTurn,
    /// The round is over and has its outcome.
    Resolved,
}

/// What the player may decide.
#[derive(Debug, Clone, Copy, PartialEq, Eq, Structural)]
pub enum Decision {
    /// Draw one more card.
    Hit,
    /// Draw no more.
    Stand,
}

impl Decision {
    /// The decision that an input names: `h` is a hit, `s` a stand, and
    /// anything else no decision.
    pub open spec fn spec_parse(choice: Seq<char>) -> Option<Decision> {
        if choice.len() == 1 && choice[0] == 'h' {
            Some(Decision::Hit)
        } else if choice.len() == 1 && choice[0] == 's' {
            Some(Decision::Stand)
        } else {
            None
        }
    }

    /// Reads the player's input.
    pub fn parse(choice: &str) -> (res: Option<Decision>)
        ensures
            res == Decision::spec_parse(choice@),
    {
        if choice.unicode_len() != 1 {
            return None;
        }
        let c = choice.get_char(0);
        if c == 'h' {
            Some(Decision::Hit)
        } else if c == 's' {
            Some(Decision::Stand)
        } else {
            None
        }
    }
}

/// How a round ends.
#[derive(Debug, Clone, Copy, PartialEq, Eq, Structural)]
pub enum Outcome {
    /// The player went over 21.
    PlayerBust,
    /// The dealer went over 21 and the player did not.
    DealerBust,
    /// Both hold the same value.
    Push,
    /// The dealer holds more than the player.
    DealerWin,
    /// The player holds more than the dealer.
    PlayerWin,
    /// The player holds a natural and the dealer does not: paid 3:2.
    PlayerBlackjack,
    /// Both hold a natural.
    BlackjackPush,
}

/// The outcome of a round that ended with these two hands. A natural of
/// the player settles it first; then a bust of the player, then one of
/// the dealer, then equal values, and at last the higher value.
pub open spec fn spec_outcome(player: Seq<Card>, dealer: Seq<Card>) -> Outcome {
    if natural(player) {
        if natural(dealer) {
            Outcome::BlackjackPush
        } else {
            Outcome::PlayerBlackjack
        }
    } else if hand_value(player) > 21 {
        Outcome::PlayerBust
    } else if hand_value(dealer) > 21 {
        Outcome::DealerBust
    } else if hand_value(player) == hand_value(dealer) {
        Outcome::Push
    } else if hand_value(dealer) > hand_value(player) {
        Outcome::DealerWin
    } else {
        Outcome::PlayerWin
    }
}

/// The outcome of a round that ended with these two hands.
pub fn determine_outcome(player: &Hand, dealer: &Hand) -> (outcome: Outcome)
    requires
        player.spec_fits(),
        dealer.spec_fits(),
    ensures
        outcome == spec_outcome(player@, dealer@),
{
    if player.is_blackjack() {
        if dealer.is_blackjack() {
            Outcome::BlackjackPush
        } else {
            Outcome::PlayerBlackjack
        }
    } else {
        let player_value = player.calc_value();
        let dealer_value = dealer.calc_value();
        if player_value > TWENTY_ONE {
            Outcome::PlayerBust
        } else if dealer_value > TWENTY_ONE {
            Outcome::DealerBust
        } else if player_value == dealer_value {
            Outcome::Push
        } else if dealer_value > player_value {
            Outcome::DealerWin
        } else {
            Outcome::PlayerWin
        }
    }
}

/// What a step did.
#[derive(Debug, Clone, Copy, PartialEq, Eq, Structural)]
pub enum Event {
    /// The four cards of the deal were drawn.
    Dealt,
    /// The player drew this card.
    PlayerDrew(Card),
    /// The player's turn is over, by a stand or by a hand of 21 or more;
    /// `natural` tells whether the hand is a natural blackjack.
    TurnOver { natural: bool },
    /// The dealer's face-down card was turned and the dealer's turn
    /// follows.
    Revealed,
    /// The dealer drew this card.
    DealerDrew(Card),
    /// The round is over with this outcome.
    Resolved(Outcome),
    /// Nothing changed: the input was no decision, or the round was
    /// resolved before.
    Unmoved,
}

/// A round as the contracts see it.
#[verifier::ext_equal]
pub struct RoundView {
    pub phase: Phase,
    pub player: Seq<Card>,
    pub dealer: Seq<Card>,
    pub hole: Option<Card>,
    pub outcome: Option<Outcome>,
}

/// Whether the round waits for a decision of the player: it is the
/// player's turn and the hand is under 21.
pub open spec fn spec_awaits(r: RoundView) -> bool {
    r.phase == Phase::PlayerTurn && hand_value(r.player) < 21
}

/// The number of cards that the next step takes from the shoe: four to
/// deal, one for a hit of a player under 21, one for a dealer under 17,
/// and none otherwise.
pub open spec fn spec_draws(r: RoundView, input: Option<Decision>) -> nat {
    match r.phase {
        Phase::Dealing => 4,
        Phase::PlayerTurn => if hand_value(r.player) < 21 && input == Some(Decision::Hit) {
            1
        } else {
            0
        },
        Phase::DealerTurn => if hand_value(r.dealer) < 17 {
            1
        } else {
            0
        },
        _ => 0,
    }
}

/// The round after the deal from this pile: the first card drawn goes
/// face up to the dealer, the second to the player, the third face down
/// to the dealer, the fourth to the player.
pub open spec fn spec_deal(pile: Seq<Card>) -> RoundView {
    let n = pile.len() as int;
    RoundView {
        phase: Phase::PlayerTurn,
        player: seq![pile[n - 2], pile[n - 4]],
        dealer: seq![pile[n - 1]],
        hole: Some(pile[n - 3]),
        outcome: None,
    }
}

/// The round after one step of the player's turn. A hand of 21 or more
/// ends the turn whatever the input. Under 21 a hit adds the card on top
/// of the pile, a stand ends the turn, and no decision changes nothing.
pub open spec fn spec_player_turn(
    r: RoundView,
    pile: Seq<Card>,
    input: Option<Decision>,
) -> RoundView {
    if hand_value(r.player) >= 21 {
        RoundView { phase: Phase::DealerReveal, ..r }
    } else {
        match input {
            Some(Decision::Hit) => RoundView { player: r.player.push(pile.last()), ..r },
            Some(Decision::Stand) => RoundView { phase: Phase::DealerReveal, ..r },
            None => r,
        }
    }
}

/// The round after the dealer's face-down card is turned: it joins the
/// dealer's hand. A natural of the player ends the round at once;
/// otherwise the dealer's turn follows.
pub open spec fn spec_reveal(r: RoundView) -> RoundView {
    let dealer = match r.hole {
        Some(card) => r.dealer.push(card),
        None => r.dealer,
    };
    if natural(r.player) {
        RoundView {
            phase: Phase::Resolved,
            dealer,
            hole: None,
            outcome: Some(spec_outcome(r.player, dealer)),
            ..r
        }
    } else {
        RoundView { phase: Phase::DealerTurn, dealer, hole: None, ..r }
    }
}

/// The round after one step of the dealer's turn: under 17 the dealer
/// draws the card on top of the pile, from 17 on the dealer stands and
/// the round has its outcome.
pub open spec fn spec_dealer_turn(r: RoundView, pile: Seq<Card>) -> RoundView {
    if hand_value(r.dealer) < 17 {
        RoundView { dealer: r.dealer.push(pile.last()), ..r }
    } else {
        RoundView {
            phase: Phase::Resolved,
            outcome: Some(spec_outcome(r.player, r.dealer)),
            ..r
        }
    }
}

/// The round after one step, where the pile holds the cards that the
/// step draws. A resolved round stays as it is.
pub open spec fn spec_next(r: RoundView, pile: Seq<Card>, input: Option<Decision>) -> RoundView {
    match r.phase {
        Phase::Dealing => spec_deal(pile),
        Phase::PlayerTurn => spec_player_turn(r, pile, input),
        Phase::DealerReveal => spec_reveal(r),
        Phase::DealerTurn => spec_dealer_turn(r, pile),
        Phase::Resolved => r,
    }
}

/// What one step does, where the pile holds the cards that it draws.
pub open spec fn spec_event(r: RoundView, pile: Seq<Card>, input: Option<Decision>) -> Event {
    match r.phase {
        Phase::Dealing => Event::Dealt,
        Phase::PlayerTurn => if hand_value(r.player) >= 21 {
            Event::TurnOver { natural: natural(r.player) }
        } else {
            match input {
                Some(Decision::Hit) => Event::PlayerDrew(pile.last()),
                Some(Decision::Stand) => Event::TurnOver { natural: false },
                None => Event::Unmoved,
            }
        },
        Phase::DealerReveal => if natural(r.player) {
            Event::Resolved(spec_outcome(r.player, spec_reveal(r).dealer))
        } else {
            Event::Revealed
        },
        Phase::DealerTurn => if hand_value(r.dealer) < 17 {
            Event::DealerDrew(pile.last())
        } else {
            Event::Resolved(spec_outcome(r.player, r.dealer))
        },
        Phase::Resolved => Event::Unmoved,
    }
}

/// The place of a phase in the course of a round.
pub open spec fn phase_rank(phase: Phase) -> nat {
    match phase {
        Phase::Dealing => 0,
        Phase::PlayerTurn => 1,
        Phase::DealerReveal => 2,
        Phase::DealerTurn => 3,
        Phase::Resolved => 4,
    }
}

/// The dealer's rule: in the dealer's turn a hand under 17 always takes
/// the next card and the turn goes on, and a hand of 17 or more never
/// takes a card: the dealer stands and the round is resolved.
pub proof fn lemma_dealer_rule(r: RoundView, pile: Seq<Card>, input: Option<Decision>)
    requires
        r.phase == Phase::DealerTurn,
    ensures
        hand_value(r.dealer) < 17 ==> {
            &&& spec_draws(r, input) == 1
            &&& spec_next(r, pile, input).dealer == r.dealer.push(pile.last())
            &&& spec_next(r, pile, input).phase == Phase::DealerTurn
        },
        hand_value(r.dealer) >= 17 ==> {
            &&& spec_draws(r, input) == 0
            &&& spec_next(r, pile, input).dealer == r.dealer
            &&& spec_next(r, pile, input).phase == Phase::Resolved
        },
        spec_next(r, pile, input).player == r.player,
{
}

/// An input that is no decision changes nothing, and a resolved round
/// stays as it is whatever the input.
pub proof fn lemma_nothing_changes(r: RoundView, pile: Seq<Card>, input: Option<Decision>)
    requires
        (spec_awaits(r) && input is None) || r.phase == Phase::Resolved,
    ensures
        spec_draws(r, input) == 0,
        spec_next(r, pile, input) == r,
{
}

/// A round never goes back to an earlier phase, and a step that leaves
/// the phase as it is either draws a card or changes nothing.
pub proof fn lemma_phase_goes_forward(r: RoundView, pile: Seq<Card>, input: Option<Decision>)
    ensures
        phase_rank(spec_next(r, pile, input).phase) >= phase_rank(r.phase),
        spec_next(r, pile, input).phase == r.phase ==> spec_draws(r, input) == 1 || spec_next(
            r,
            pile,
            input,
        ) == r,
{
}

/// A step resolves a round with the outcome of its two hands, and
/// resolves it only when the player holds a natural at the reveal or the
/// dealer has reached 17.
pub proof fn lemma_resolved_with_outcome(r: RoundView, pile: Seq<Card>, input: Option<Decision>)
    requires
        r.phase != Phase::Resolved,
        spec_next(r, pile, input).phase == Phase::Resolved,
    ensures
        spec_next(r, pile, input).outcome == Some(
            spec_outcome(spec_next(r, pile, input).player, spec_next(r, pile, input).dealer),
        ),
        (r.phase == Phase::DealerReveal && natural(r.player)) || (r.phase == Phase::DealerTurn
            && hand_value(r.dealer) >= 17),
{
}

/// The order in which an outcome is settled. A natural of the player is
/// paid as a blackjack unless the dealer holds a natural too, whatever
/// the dealer's value. Without a natural, a player over 21 is bust
/// whatever the dealer holds; else a dealer over 21 is bust; else equal
/// values are a push and the higher value wins.
pub proof fn lemma_outcome_order(player: Seq<Card>, dealer: Seq<Card>)
    ensures
        natural(player) && natural(dealer) ==> spec_outcome(player, dealer)
            == Outcome::BlackjackPush,
        natural(player) && !natural(dealer) ==> spec_outcome(player, dealer)
            == Outcome::PlayerBlackjack,
        natural(player) && dealer.len() != 2 ==> spec_outcome(player, dealer)
            == Outcome::PlayerBlackjack,
        !natural(player) && hand_value(player) > 21 ==> spec_outcome(player, dealer)
            == Outcome::PlayerBust,
        !natural(player) && hand_value(player) <= 21 && hand_value(dealer) > 21 ==> spec_outcome(
            player,
            dealer,
        ) == Outcome::DealerBust,
        !natural(player) && hand_value(player) <= 21 && hand_value(dealer) <= 21 ==> {
            &&& hand_value(player) == hand_value(dealer) ==> spec_outcome(player, dealer)
                == Outcome::Push
            &&& hand_value(player) < hand_value(dealer) ==> spec_outcome(player, dealer)
                == Outcome::DealerWin
            &&& hand_value(player) > hand_value(dealer) ==> spec_outcome(player, dealer)
                == Outcome::PlayerWin
        },
{
}

/// What holds of a round in every state that play reaches. While the
/// player is at turn and until the reveal, the dealer shows one card and
/// holds one face down, and the player holds two cards or more. In the
/// dealer's turn no card lies face down and the player holds no natural.
/// A resolved round has the outcome of its hands, and in it the player
/// holds a natural against two cards of the dealer, or the dealer has
/// reached 17. No hand ever grows beyond a least total of 30.
pub open spec fn spec_in_play(r: RoundView) -> bool {
    match r.phase {
        Phase::Dealing => true,
        Phase::PlayerTurn | Phase::DealerReveal => {
            &&& r.hole is Some
            &&& r.dealer.len() == 1
            &&& r.player.len() >= 2
            &&& low_total(r.player) <= 30
            &&& r.outcome is None
        },
        Phase::DealerTurn => {
            &&& r.hole is None
            &&& r.dealer.len() >= 2
            &&& r.player.len() >= 2
            &&& low_total(r.player) <= 30
            &&& low_total(r.dealer) <= 26
            &&& !natural(r.player)
            &&& r.outcome is None
        },
        Phase::Resolved => {
            &&& r.hole is None
            &&& r.dealer.len() >= 2
            &&& r.player.len() >= 2
            &&& low_total(r.player) <= 30
            &&& low_total(r.dealer) <= 26
            &&& r.outcome == Some(spec_outcome(r.player, r.dealer))
            &&& (natural(r.player) && r.dealer.len() == 2) || hand_value(r.dealer) >= 17
        },
    }
}

/// Every step keeps a round in play: what holds of the round before a
/// step that finds its cards holds of the round after it.
pub proof fn lemma_step_keeps_in_play(r: RoundView, pile: Seq<Card>, input: Option<Decision>)
    requires
        spec_in_play(r),
        pile.len() >= spec_draws(r, input),
    ensures
        spec_in_play(spec_next(r, pile, input)),
{
    let next = spec_next(r, pile, input);
    lemma_totals_bounds(next.player);
    lemma_totals_bounds(next.dealer);
    match r.phase {
        Phase::PlayerTurn => {
            lemma_totals_push(r.player, pile.last());
        },
        Phase::DealerReveal => {},
        Phase::DealerTurn => {
            lemma_totals_push(r.dealer, pile.last());
        },
        _ => {},
    }
}

/// A round before the deal.
pub open spec fn spec_fresh() -> RoundView {
    RoundView {
        phase: Phase::Dealing,
        player: Seq::empty(),
        dealer: Seq::empty(),
        hole: None,
        outcome: None,
    }
}

/// Where a scripted play ends: the round, the number of cards that were
/// drawn, and whether the shoe held a card for every draw.
#[verifier::ext_equal]
pub struct Played {
    pub round: RoundView,
    pub drawn: nat,
    pub ok: bool,
}

/// Plays a round on by steps, with the decisions of the script in their
/// order wherever the round waits for one. The play ends when the round
/// is resolved, when it waits for a decision and the script has none
/// left, or when the pile lacks a card for a draw.
pub open spec fn spec_play(r: RoundView, pile: Seq<Card>, script: Seq<Decision>) -> Played
    decreases pile.len(), 4 - phase_rank(r.phase),
{
    if r.phase == Phase::Resolved || (spec_awaits(r) && script.len() == 0) {
        Played { round: r, drawn: 0, ok: true }
    } else {
        let input = if spec_awaits(r) {
            Some(script.first())
        } else {
            None
        };
        let rest = if spec_awaits(r) {
            script.drop_first()
        } else {
            script
        };
        let k = spec_draws(r, input);
        if pile.len() < k {
            Played { round: r, drawn: 0, ok: false }
        } else {
            let after = spec_play(spec_next(r, pile, input), pile.take(pile.len() - k), rest);
            Played { round: after.round, drawn: k + after.drawn, ok: after.ok }
        }
    }
}

/// Where a play ends. It draws no more cards than the pile holds, and it
/// keeps a round in play. If no draw failed, the round is resolved or
/// waits for a decision. A round that the play resolved has the outcome
/// of its two hands, and in it the player holds a natural or the dealer
/// has reached 17.
pub proof fn lemma_play_ends(r: RoundView, pile: Seq<Card>, script: Seq<Decision>)
    requires
        r.phase != Phase::Resolved,
    ensures
        spec_play(r, pile, script).drawn <= pile.len(),
        spec_in_play(r) ==> spec_in_play(spec_play(r, pile, script).round),
        spec_play(r, pile, script).ok ==> spec_play(r, pile, script).round.phase
            == Phase::Resolved || spec_awaits(spec_play(r, pile, script).round),
        spec_play(r, pile, script).round.phase == Phase::Resolved ==> {
            let end = spec_play(r, pile, script).round;
            &&& end.outcome == Some(spec_outcome(end.player, end.dealer))
            &&& natural(end.player) || hand_value(end.dealer) >= 17
        },
    decreases pile.len(), 4 - phase_rank(r.phase),
{
    if !(spec_awaits(r) && script.len() == 0) {
        let input = if spec_awaits(r) {
            Some(script.first())
        } else {
            None
        };
        let rest = if spec_awaits(r) {
            script.drop_first()
        } else {
            script
        };
        let k = spec_draws(r, input);
        if pile.len() >= k {
            let next = spec_next(r, pile, input);
            if spec_in_play(r) {
                lemma_step_keeps_in_play(r, pile, input);
            }
            if next.phase != Phase::Resolved {
                lemma_play_ends(next, pile.take(pile.len() - k), rest);
            }
        }
    }
}

/// One round of the game. `dealer` holds the dealer's cards that lie face
/// up, `hole` the one that lies face down.
pub struct Round {
    pub phase: Phase,
    pub player: Hand,
    pub dealer: Hand,
    pub hole: Option<Card>,
    pub outcome: Option<Outcome>,
}

impl View for Round {
    type V = RoundView;

    open spec fn view(&self) -> RoundView {
        RoundView {
            phase: self.phase,
            player: self.player@,
            dealer: self.dealer@,
            hole: self.hole,
            outcome: self.outcome,
        }
    }
}

impl Round {
    /// Whether the values of both hands can be held in a `u32`, now and
    /// when the face-down card has joined the dealer's hand.
    pub open spec fn spec_fits(&self) -> bool {
        &&& low_total(self.player@) <= u32::MAX
        &&& low_total(self.dealer@) + (if self.hole is Some {
            10int
        } else {
            0int
        }) <= u32::MAX
    }

    /// Whether the values of both hands can be held in a `u32`: the test
    /// for what a step asks of its round.
    pub fn fits(&self) -> (b: bool)
        ensures
            b == self.spec_fits(),
    {
        if !self.player.fits() {
            return false;
        }
        match self.dealer.least_total() {
            Some(total) => self.hole.is_none() || total <= u32::MAX - 10,
            None => false,
        }
    }

    /// A round before the deal.
    pub fn new() -> (round: Round)
        ensures
            round@ == spec_fresh(),
            round.spec_fits(),
            spec_in_play(round@),
    {
        Round {
            phase: Phase::Dealing,
            player: Hand::default(),
            dealer: Hand::default(),
            hole: None,
            outcome: None,
        }
    }

    /// Whether the round waits for a decision of the player.
    pub fn awaits_decision(&self) -> (b: bool)
        requires
            self.spec_fits(),
        ensures
            b == spec_awaits(self@),
    {
        match self.phase {
            Phase::PlayerTurn => self.player.calc_value() < TWENTY_ONE,
            _ => false,
        }
    }

    /// Deals: four cards leave the shoe, for the dealer, the player, the
    /// dealer and the player in turn, and the hands of an earlier round
    /// are gone.
    fn deal(&mut self, shoe: &mut Shoe) -> (res: Result<Event, Error>)
        requires
            old(shoe).spec_counts_fit(),
        ensures
            old(shoe).cards@.len() < 4 ==> {
                &&& res == Err::<Event, Error>(Error::ShoeEmpty)
                &&& final(self)@ == old(self)@
                &&& final(shoe).spec_drew(*old(shoe), 0)
            },
            old(shoe).cards@.len() >= 4 ==> {
                &&& res == Ok::<Event, Error>(Event::Dealt)
                &&& final(self)@ == spec_deal(old(shoe).cards@)
                &&& final(shoe).spec_drew(*old(shoe), 4)
            },
            final(shoe).spec_counts_fit(),
            res is Ok ==> final(self).spec_fits(),
    {
        if shoe.cards.len() < 4 {
            proof {
                lemma_drew_none(*shoe);
            }
            return Err(Error::ShoeEmpty);
        }
        let ghost s0 = *shoe;
        let up = shoe.take_card()?;
        let ghost s1 = *shoe;
        let first = shoe.take_card()?;
        let ghost s2 = *shoe;
        let down = shoe.take_card()?;
        let ghost s3 = *shoe;
        let second = shoe.take_card()?;
        proof {
            lemma_drew_more(s0, s1, s2, 1, 1);
            lemma_drew_more(s0, s2, s3, 2, 1);
            lemma_drew_more(s0, s3, *shoe, 3, 1);
        }
        let mut player = Hand::from_card(first);
        player.add_card(second);
        self.dealer = Hand::from_card(up);
        self.player = player;
        self.hole = Some(down);
        self.outcome = None;
        self.phase = Phase::PlayerTurn;
        proof {
            lemma_totals_bounds(self.player@);
            lemma_totals_bounds(self.dealer@);
        }
        Ok(Event::Dealt)
    }

    /// One step of the player's turn.
    fn player_turn(&mut self, shoe: &mut Shoe, input: Option<Decision>) -> (res: Result<
        Event,
        Error,
    >)
        requires
            old(self).phase == Phase::PlayerTurn,
            old(self).spec_fits(),
            old(shoe).spec_counts_fit(),
        ensures
            old(shoe).cards@.len() < spec_draws(old(self)@, input) ==> {
                &&& res == Err::<Event, Error>(Error::ShoeEmpty)
                &&& final(self)@ == old(self)@
                &&& final(shoe).spec_drew(*old(shoe), 0)
            },
            old(shoe).cards@.len() >= spec_draws(old(self)@, input) ==> {
                &&& res == Ok::<Event, Error>(spec_event(old(self)@, old(shoe).cards@, input))
                &&& final(self)@ == spec_player_turn(old(self)@, old(shoe).cards@, input)
                &&& final(shoe).spec_drew(*old(shoe), spec_draws(old(self)@, input))
            },
            final(shoe).spec_counts_fit(),
            final(self).spec_fits(),
    {
        proof {
            lemma_drew_none(*shoe);
        }
        if self.player.calc_value() >= TWENTY_ONE {
            self.phase = Phase::DealerReveal;
            return Ok(Event::TurnOver { natural: self.player.is_blackjack() });
        }
        match input {
            Some(Decision::Hit) => {
                let card = shoe.take_card()?;
                proof {
                    lemma_totals_push(self.player@, card);
                    lemma_totals_bounds(self.player@);
                }
                self.player.add_card(card);
                Ok(Event::PlayerDrew(card))
            },
            Some(Decision::Stand) => {
                self.phase = Phase::DealerReveal;
                Ok(Event::TurnOver { natural: false })
            },
            None => Ok(Event::Unmoved),
        }
    }

    /// Turns the dealer's face-down card.
    fn dealer_reveal(&mut self) -> (event: Event)
        requires
            old(self).phase == Phase::DealerReveal,
            old(self).spec_fits(),
        ensures
            final(self)@ == spec_reveal(old(self)@),
            event == spec_event(old(self)@, Seq::empty(), None),
            final(self).spec_fits(),
    {
        match self.hole {
            Some(card) => {
                proof {
                    lemma_totals_push(self.dealer@, card);
                }
                self.dealer.add_card(card);
                self.hole = None;
            },
            None => {},
        }
        if self.player.is_blackjack() {
            let outcome = determine_outcome(&self.player, &self.dealer);
            self.outcome = Some(outcome);
            self.phase = Phase::Resolved;
            Event::Resolved(outcome)
        } else {
            self.phase = Phase::DealerTurn;
            Event::Revealed
        }
    }

    /// One step of the dealer's turn: a dealer under 17 draws, a dealer
    /// at 17 or more stands and the round is resolved.
    fn dealer_turn(&mut self, shoe: &mut Shoe) -> (res: Result<Event, Error>)
        requires
            old(self).phase == Phase::DealerTurn,
            old(self).spec_fits(),
            old(shoe).spec_counts_fit(),
        ensures
            old(shoe).cards@.len() < spec_draws(old(self)@, None) ==> {
                &&& res == Err::<Event, Error>(Error::ShoeEmpty)
                &&& final(self)@ == old(self)@
                &&& final(shoe).spec_drew(*old(shoe), 0)
            },
            old(shoe).cards@.len() >= spec_draws(old(self)@, None) ==> {
                &&& res == Ok::<Event, Error>(spec_event(old(self)@, old(shoe).cards@, None))
                &&& final(self)@ == spec_dealer_turn(old(self)@, old(shoe).cards@)
                &&& final(shoe).spec_drew(*old(shoe), spec_draws(old(self)@, None))
            },
            final(shoe).spec_counts_fit(),
            final(self).spec_fits(),
    {
        proof {
            lemma_drew_none(*shoe);
            lemma_totals_bounds(self.dealer@);
        }
        if self.dealer.calc_value() >= DEALER_STAND {
            let outcome = determine_outcome(&self.player, &self.dealer);
            self.outcome = Some(outcome);
            self.phase = Phase::Resolved;
            return Ok(Event::Resolved(outcome));
        }
        let card = shoe.take_card()?;
        proof {
            lemma_totals_push(self.dealer@, card);
        }
        self.dealer.add_card(card);
        Ok(Event::DealerDrew(card))
    }

    /// Takes the round one step on and says what the step did. What it
    /// does depends on the phase: it deals, handles the player's decision,
    /// turns the dealer's face-down card, lets the dealer draw or stand,
    /// or, in a resolved round, does nothing. `input` is read in the
    /// player's turn only; `None` there stands for an input that was no
    /// decision, which changes nothing. Where the shoe holds fewer cards
    /// than the step draws, the step fails with `ShoeEmpty` and leaves
    /// the round and the shoe as they were.
    pub fn step(&mut self, shoe: &mut Shoe, input: Option<Decision>) -> (res: Result<Event, Error>)
        requires
            old(self).spec_fits(),
            old(shoe).spec_counts_fit(),
        ensures
            old(shoe).cards@.len() < spec_draws(old(self)@, input) ==> {
                &&& res == Err::<Event, Error>(Error::ShoeEmpty)
                &&& final(self)@ == old(self)@
                &&& final(shoe).spec_drew(*old(shoe), 0)
            },
            old(shoe).cards@.len() >= spec_draws(old(self)@, input) ==> {
                &&& res == Ok::<Event, Error>(spec_event(old(self)@, old(shoe).cards@, input))
                &&& final(self)@ == spec_next(old(self)@, old(shoe).cards@, input)
                &&& final(shoe).spec_drew(*old(shoe), spec_draws(old(self)@, input))
            },
            final(shoe).spec_counts_fit(),
            final(self).spec_fits(),
            spec_in_play(old(self)@) ==> spec_in_play(final(self)@),
    {
        let res = match self.phase {
            Phase::Dealing => self.deal(shoe),
            Phase::PlayerTurn => self.player_turn(shoe, input),
            Phase::DealerReveal => {
                proof {
                    lemma_drew_none(*shoe);
                }
                Ok(self.dealer_reveal())
            },
            Phase::DealerTurn => self.dealer_turn(shoe),
            Phase::Resolved => {
                proof {
                    lemma_drew_none(*shoe);
                }
                Ok(Event::Unmoved)
            },
        };
        proof {
            if spec_in_play(old(self)@) && res is Ok {
                lemma_step_keeps_in_play(old(self)@, old(shoe).cards@, input);
            }
        }
        res
    }
}

/// Plays one round from the deal on, with the player's decisions taken
/// from `decisions` in their order. The round that comes back is resolved,
/// or it waits for a decision that the script no longer holds and can be
/// taken on by `step`. Where the shoe runs out of cards the round is lost
/// and `ShoeEmpty` comes back.
pub fn play_round(shoe: &mut Shoe, decisions: &Vec<Decision>) -> (res: Result<Round, Error>)
    requires
        old(shoe).spec_counts_fit(),
    ensures
        match res {
            Ok(round) => {
                &&& spec_play(spec_fresh(), old(shoe).cards@, decisions@).ok
                &&& round@ == spec_play(spec_fresh(), old(shoe).cards@, decisions@).round
                &&& spec_in_play(round@)
                &&& round.phase == Phase::Resolved || spec_awaits(round@)
            },
            Err(e) => {
                &&& !spec_play(spec_fresh(), old(shoe).cards@, decisions@).ok
                &&& e == Error::ShoeEmpty
            },
        },
        final(shoe).spec_drew(
            *old(shoe),
            spec_play(spec_fresh(), old(shoe).cards@, decisions@).drawn,
        ),
        final(shoe).spec_counts_fit(),
{
    let mut round = Round::new();
    let mut used: usize = 0;
    let mut failed = false;
    let ghost start = *shoe;
    let ghost goal = spec_play(spec_fresh(), start.cards@, decisions@);
    let ghost drawn: nat = 0;
    proof {
        lemma_drew_none(start);
        lemma_play_ends(spec_fresh(), start.cards@, decisions@);
        assert(decisions@.skip(0) =~= decisions@);
    }
    loop
        invariant_except_break
            !failed,
            used <= decisions@.len(),
            round.spec_fits(),
            shoe.spec_drew(start, drawn),
            goal.ok == spec_play(round@, shoe.cards@, decisions@.skip(used as int)).ok,
            goal.round == spec_play(round@, shoe.cards@, decisions@.skip(used as int)).round,
            goal.drawn == drawn + spec_play(
                round@,
                shoe.cards@,
                decisions@.skip(used as int),
            ).drawn,
        invariant
            shoe.spec_counts_fit(),
            goal == spec_play(spec_fresh(), start.cards@, decisions@),
        ensures
            failed == !goal.ok,
            !failed ==> round@ == goal.round,
            shoe.spec_drew(start, goal.drawn),
        decreases shoe.cards@.len(), 4 - phase_rank(round.phase),
    {
        let ghost before = *shoe;
        let ghost r0 = round@;
        let ghost script = decisions@.skip(used as int);
        let awaiting = round.awaits_decision();
        if round.phase == Phase::Resolved || (awaiting && used >= decisions.len()) {
            break;
        }
        let input = if awaiting {
            let decision = decisions[used];
            used = used + 1;
            Some(decision)
        } else {
            None
        };
        proof {
            assert(awaiting ==> script.first() == decisions@[used - 1]);
            assert(awaiting ==> script.drop_first() =~= decisions@.skip(used as int));
        }
        if round.step(shoe, input).is_err() {
            proof {
                lemma_drew_more(start, before, *shoe, drawn, 0);
            }
            failed = true;
            break;
        }
        proof {
            lemma_drew_more(start, before, *shoe, drawn, spec_draws(r0, input));
            drawn = drawn + spec_draws(r0, input);
        }
    }
    if failed {
        Err(Error::ShoeEmpty)
    } else {
        Ok(round)
    }
}

} // verus!
