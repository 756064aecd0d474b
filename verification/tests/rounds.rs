use blackjack::{
    determine_outcome, play_round, Card, Decision, Error, Event, Hand, Outcome, Phase, Round, Shoe,
    Suit, TrueCount, Value,
};

fn card(value: Value) -> Card {
    Card { suit: Suit::Hearts, value }
}

fn hand_of(values: Vec<Value>) -> Hand {
    let mut hand = Hand::default();
    for value in values {
        hand.add_card(card(value));
    }
    hand
}

/// A shoe that hands out the given ranks in the given order.
fn stacked(draws: Vec<Value>) -> Shoe {
    let mut cards: Vec<Card> = draws.into_iter().map(card).collect();
    cards.reverse();
    Shoe { cards, running_count: 0, true_count: TrueCount { running: 0, decks: 1 } }
}

fn ranks(hand: &Hand) -> Vec<Value> {
    hand.cards.iter().map(|c| c.value).collect()
}

#[test]
fn new_round_is_before_the_deal() {
    let round = Round::new();
    assert_eq!(round.phase, Phase::Dealing);
    assert_eq!(round.player.cards.len(), 0);
    assert_eq!(round.dealer.cards.len(), 0);
    assert_eq!(round.hole, None);
    assert_eq!(round.outcome, None);
    assert!(!round.awaits_decision());
}

#[test]
fn deal_goes_dealer_player_dealer_player() {
    let mut shoe = stacked(vec![Value::Nine, Value::Ten, Value::Eight, Value::Seven, Value::Two]);
    let mut round = Round::new();
    assert_eq!(round.step(&mut shoe, None), Ok(Event::Dealt));
    assert_eq!(round.phase, Phase::PlayerTurn);
    assert_eq!(ranks(&round.dealer), vec![Value::Nine]);
    assert_eq!(round.hole, Some(card(Value::Eight)));
    assert_eq!(ranks(&round.player), vec![Value::Ten, Value::Seven]);
    assert_eq!(round.outcome, None);
    assert_eq!(shoe.num_cards(), 1);
    assert_eq!(shoe.running_count, -1);
    assert!(round.awaits_decision());
}

#[test]
fn deal_from_a_short_shoe_fails_and_changes_nothing() {
    let mut shoe = stacked(vec![Value::Nine, Value::Ten, Value::Eight]);
    let mut round = Round::new();
    assert_eq!(round.step(&mut shoe, None), Err(Error::ShoeEmpty));
    assert_eq!(round.phase, Phase::Dealing);
    assert_eq!(round.player.cards.len(), 0);
    assert_eq!(round.dealer.cards.len(), 0);
    assert_eq!(shoe.num_cards(), 3);
    assert_eq!(shoe.running_count, 0);
}

#[test]
fn hit_draws_one_card_and_stays_in_the_turn() {
    let mut shoe = stacked(vec![Value::Nine, Value::Five, Value::Eight, Value::Four, Value::Three]);
    let mut round = Round::new();
    round.step(&mut shoe, None).unwrap();
    assert_eq!(
        round.step(&mut shoe, Some(Decision::Hit)),
        Ok(Event::PlayerDrew(card(Value::Three)))
    );
    assert_eq!(round.phase, Phase::PlayerTurn);
    assert_eq!(ranks(&round.player), vec![Value::Five, Value::Four, Value::Three]);
    assert_eq!(shoe.num_cards(), 0);
    assert!(round.awaits_decision());
}

#[test]
fn hit_on_an_empty_shoe_fails_and_changes_nothing() {
    let mut shoe = stacked(vec![Value::Nine, Value::Five, Value::Eight, Value::Four]);
    let mut round = Round::new();
    round.step(&mut shoe, None).unwrap();
    assert_eq!(round.step(&mut shoe, Some(Decision::Hit)), Err(Error::ShoeEmpty));
    assert_eq!(round.phase, Phase::PlayerTurn);
    assert_eq!(ranks(&round.player), vec![Value::Five, Value::Four]);
}

#[test]
fn stand_ends_the_turn() {
    let mut shoe = stacked(vec![Value::Nine, Value::Five, Value::Eight, Value::Four, Value::Three]);
    let mut round = Round::new();
    round.step(&mut shoe, None).unwrap();
    assert_eq!(
        round.step(&mut shoe, Some(Decision::Stand)),
        Ok(Event::TurnOver { natural: false })
    );
    assert_eq!(round.phase, Phase::DealerReveal);
    assert_eq!(ranks(&round.player), vec![Value::Five, Value::Four]);
    assert_eq!(shoe.num_cards(), 1);
    assert!(!round.awaits_decision());
}

#[test]
fn no_decision_changes_nothing() {
    let mut shoe = stacked(vec![Value::Nine, Value::Five, Value::Eight, Value::Four, Value::Three]);
    let mut round = Round::new();
    round.step(&mut shoe, None).unwrap();
    assert_eq!(round.step(&mut shoe, None), Ok(Event::Unmoved));
    assert_eq!(round.phase, Phase::PlayerTurn);
    assert_eq!(ranks(&round.player), vec![Value::Five, Value::Four]);
    assert_eq!(ranks(&round.dealer), vec![Value::Nine]);
    assert_eq!(round.hole, Some(card(Value::Eight)));
    assert_eq!(shoe.num_cards(), 1);
}

#[test]
fn player_at_21_leaves_the_turn_whatever_the_input() {
    let mut shoe = stacked(vec![
        Value::Nine,
        Value::Five,
        Value::Eight,
        Value::Six,
        Value::King,
        Value::Two,
    ]);
    let mut round = Round::new();
    round.step(&mut shoe, None).unwrap();
    round.step(&mut shoe, Some(Decision::Hit)).unwrap();
    assert_eq!(round.player.calc_value(), 21);
    assert!(!round.awaits_decision());
    assert_eq!(
        round.step(&mut shoe, Some(Decision::Hit)),
        Ok(Event::TurnOver { natural: false })
    );
    assert_eq!(round.phase, Phase::DealerReveal);
    assert_eq!(round.player.cards.len(), 3);
    assert_eq!(shoe.num_cards(), 1);
}

#[test]
fn bust_player_leaves_the_turn_and_the_dealer_still_plays() {
    let mut shoe = stacked(vec![
        Value::Nine,
        Value::Ten,
        Value::Six,
        Value::Six,
        Value::King,
        Value::Five,
    ]);
    let mut round = Round::new();
    round.step(&mut shoe, None).unwrap();
    round.step(&mut shoe, Some(Decision::Hit)).unwrap();
    assert_eq!(round.player.calc_value(), 26);
    round.step(&mut shoe, None).unwrap();
    assert_eq!(round.phase, Phase::DealerReveal);
    round.step(&mut shoe, None).unwrap();
    assert_eq!(round.phase, Phase::DealerTurn);
    assert_eq!(ranks(&round.dealer), vec![Value::Nine, Value::Six]);
    round.step(&mut shoe, None).unwrap();
    assert_eq!(round.phase, Phase::DealerTurn);
    assert_eq!(ranks(&round.dealer), vec![Value::Nine, Value::Six, Value::Five]);
    round.step(&mut shoe, None).unwrap();
    assert_eq!(round.phase, Phase::Resolved);
    assert_eq!(round.outcome, Some(Outcome::PlayerBust));
}

#[test]
fn reveal_puts_the_hole_card_in_the_dealers_hand() {
    let mut shoe = stacked(vec![Value::Nine, Value::Ten, Value::Eight, Value::Seven]);
    let mut round = Round::new();
    round.step(&mut shoe, None).unwrap();
    round.step(&mut shoe, Some(Decision::Stand)).unwrap();
    assert_eq!(round.step(&mut shoe, None), Ok(Event::Revealed));
    assert_eq!(round.phase, Phase::DealerTurn);
    assert_eq!(ranks(&round.dealer), vec![Value::Nine, Value::Eight]);
    assert_eq!(round.hole, None);
    assert_eq!(round.outcome, None);
}

#[test]
fn dealer_at_16_draws() {
    let mut shoe = stacked(vec![Value::Two]);
    let mut round = Round {
        phase: Phase::DealerTurn,
        player: hand_of(vec![Value::Ten, Value::Eight]),
        dealer: hand_of(vec![Value::Ten, Value::Six]),
        hole: None,
        outcome: None,
    };
    assert_eq!(round.dealer.calc_value(), 16);
    assert_eq!(round.step(&mut shoe, None), Ok(Event::DealerDrew(card(Value::Two))));
    assert_eq!(round.phase, Phase::DealerTurn);
    assert_eq!(ranks(&round.dealer), vec![Value::Ten, Value::Six, Value::Two]);
    assert_eq!(shoe.num_cards(), 0);
}

#[test]
fn dealer_at_16_with_an_empty_shoe_fails() {
    let mut shoe = stacked(vec![]);
    let mut round = Round {
        phase: Phase::DealerTurn,
        player: hand_of(vec![Value::Ten, Value::Eight]),
        dealer: hand_of(vec![Value::Ten, Value::Six]),
        hole: None,
        outcome: None,
    };
    assert_eq!(round.step(&mut shoe, None), Err(Error::ShoeEmpty));
    assert_eq!(round.phase, Phase::DealerTurn);
    assert_eq!(round.dealer.cards.len(), 2);
    assert_eq!(round.outcome, None);
}

#[test]
fn dealer_at_17_stands() {
    let mut shoe = stacked(vec![Value::Two]);
    let mut round = Round {
        phase: Phase::DealerTurn,
        player: hand_of(vec![Value::Ten, Value::Eight]),
        dealer: hand_of(vec![Value::Ten, Value::Seven]),
        hole: None,
        outcome: None,
    };
    assert_eq!(round.step(&mut shoe, None), Ok(Event::Resolved(Outcome::PlayerWin)));
    assert_eq!(round.phase, Phase::Resolved);
    assert_eq!(ranks(&round.dealer), vec![Value::Ten, Value::Seven]);
    assert_eq!(shoe.num_cards(), 1);
    assert_eq!(round.outcome, Some(Outcome::PlayerWin));
}

#[test]
fn dealer_at_soft_17_stands() {
    let mut shoe = stacked(vec![Value::Two]);
    let mut round = Round {
        phase: Phase::DealerTurn,
        player: hand_of(vec![Value::Ten, Value::Seven]),
        dealer: hand_of(vec![Value::Ace, Value::Six]),
        hole: None,
        outcome: None,
    };
    assert_eq!(round.step(&mut shoe, None), Ok(Event::Resolved(Outcome::Push)));
    assert_eq!(round.phase, Phase::Resolved);
    assert_eq!(round.dealer.cards.len(), 2);
    assert_eq!(round.outcome, Some(Outcome::Push));
}

#[test]
fn dealer_above_17_stands() {
    let mut shoe = stacked(vec![Value::Two]);
    let mut round = Round {
        phase: Phase::DealerTurn,
        player: hand_of(vec![Value::Ten, Value::Seven]),
        dealer: hand_of(vec![Value::Ten, Value::Five, Value::Nine]),
        hole: None,
        outcome: None,
    };
    assert_eq!(round.step(&mut shoe, None), Ok(Event::Resolved(Outcome::DealerBust)));
    assert_eq!(round.phase, Phase::Resolved);
    assert_eq!(round.dealer.cards.len(), 3);
    assert_eq!(shoe.num_cards(), 1);
    assert_eq!(round.outcome, Some(Outcome::DealerBust));
}

#[test]
fn resolved_round_stays_as_it_is() {
    let mut shoe = stacked(vec![Value::Two]);
    let mut round = Round {
        phase: Phase::Resolved,
        player: hand_of(vec![Value::Ten, Value::Seven]),
        dealer: hand_of(vec![Value::Ten, Value::Eight]),
        hole: None,
        outcome: Some(Outcome::DealerWin),
    };
    assert_eq!(round.step(&mut shoe, Some(Decision::Hit)), Ok(Event::Unmoved));
    assert_eq!(round.phase, Phase::Resolved);
    assert_eq!(round.player.cards.len(), 2);
    assert_eq!(round.dealer.cards.len(), 2);
    assert_eq!(round.outcome, Some(Outcome::DealerWin));
    assert_eq!(shoe.num_cards(), 1);
}

#[test]
fn natural_is_paid_at_the_reveal() {
    let mut shoe = stacked(vec![Value::Nine, Value::Ace, Value::Six, Value::King, Value::Five]);
    let mut round = Round::new();
    round.step(&mut shoe, None).unwrap();
    assert!(round.player.is_blackjack());
    assert!(!round.awaits_decision());
    assert_eq!(round.step(&mut shoe, None), Ok(Event::TurnOver { natural: true }));
    assert_eq!(round.phase, Phase::DealerReveal);
    assert_eq!(round.step(&mut shoe, None), Ok(Event::Resolved(Outcome::PlayerBlackjack)));
    assert_eq!(round.phase, Phase::Resolved);
    assert_eq!(round.outcome, Some(Outcome::PlayerBlackjack));
    assert_eq!(ranks(&round.dealer), vec![Value::Nine, Value::Six]);
    assert_eq!(shoe.num_cards(), 1);
}

#[test]
fn two_naturals_push() {
    let mut shoe = stacked(vec![Value::Ace, Value::Ace, Value::Queen, Value::King]);
    let round = play_round(&mut shoe, &vec![]).unwrap();
    assert_eq!(round.phase, Phase::Resolved);
    assert_eq!(round.outcome, Some(Outcome::BlackjackPush));
}

#[test]
fn end_to_end_dealer_wins_18_to_17() {
    let mut shoe = stacked(vec![Value::Nine, Value::Ten, Value::Nine, Value::Seven, Value::Two]);
    let round = play_round(&mut shoe, &vec![Decision::Stand]).unwrap();
    assert_eq!(round.phase, Phase::Resolved);
    assert_eq!(ranks(&round.player), vec![Value::Ten, Value::Seven]);
    assert_eq!(ranks(&round.dealer), vec![Value::Nine, Value::Nine]);
    assert_eq!(round.player.calc_value(), 17);
    assert_eq!(round.dealer.calc_value(), 18);
    assert_eq!(round.outcome, Some(Outcome::DealerWin));
    assert_eq!(shoe.num_cards(), 1);

    let outcome = determine_outcome(
        &hand_of(vec![Value::Ten, Value::Seven]),
        &hand_of(vec![Value::Nine, Value::Nine]),
    );
    assert_eq!(outcome, Outcome::DealerWin);
}

#[test]
fn natural_beats_a_dealer_21_of_three_cards() {
    let player = hand_of(vec![Value::Ace, Value::King]);
    let dealer = hand_of(vec![Value::Ten, Value::Seven, Value::Four]);
    assert_eq!(dealer.calc_value(), 21);
    assert!(!dealer.is_blackjack());
    assert_eq!(determine_outcome(&player, &dealer), Outcome::PlayerBlackjack);
}

#[test]
fn every_outcome() {
    let natural = || hand_of(vec![Value::Ace, Value::King]);
    let seventeen = || hand_of(vec![Value::Ten, Value::Seven]);
    let twenty = || hand_of(vec![Value::Ten, Value::Queen]);
    let bust = || hand_of(vec![Value::Ten, Value::Six, Value::Nine]);
    let late_21 = || hand_of(vec![Value::Seven, Value::Seven, Value::Seven]);
    assert_eq!(determine_outcome(&natural(), &natural()), Outcome::BlackjackPush);
    assert_eq!(determine_outcome(&natural(), &twenty()), Outcome::PlayerBlackjack);
    assert_eq!(determine_outcome(&natural(), &bust()), Outcome::PlayerBlackjack);
    assert_eq!(determine_outcome(&bust(), &seventeen()), Outcome::PlayerBust);
    assert_eq!(determine_outcome(&bust(), &bust()), Outcome::PlayerBust);
    assert_eq!(determine_outcome(&bust(), &natural()), Outcome::PlayerBust);
    assert_eq!(determine_outcome(&seventeen(), &bust()), Outcome::DealerBust);
    assert_eq!(determine_outcome(&seventeen(), &seventeen()), Outcome::Push);
    assert_eq!(determine_outcome(&late_21(), &natural()), Outcome::Push);
    assert_eq!(determine_outcome(&seventeen(), &twenty()), Outcome::DealerWin);
    assert_eq!(determine_outcome(&twenty(), &natural()), Outcome::DealerWin);
    assert_eq!(determine_outcome(&twenty(), &seventeen()), Outcome::PlayerWin);
}

#[test]
fn scripted_round_with_hits() {
    let mut shoe = stacked(vec![
        Value::Six,
        Value::Three,
        Value::Ten,
        Value::Four,
        Value::Five,
        Value::Six,
        Value::Two,
        Value::King,
    ]);
    let script = vec![Decision::Hit, Decision::Hit, Decision::Stand];
    let round = play_round(&mut shoe, &script).unwrap();
    assert_eq!(round.phase, Phase::Resolved);
    assert_eq!(ranks(&round.player), vec![Value::Three, Value::Four, Value::Five, Value::Six]);
    assert_eq!(ranks(&round.dealer), vec![Value::Six, Value::Ten, Value::Two]);
    assert_eq!(round.outcome, Some(Outcome::Push));
    assert_eq!(shoe.num_cards(), 1);
    assert_eq!(shoe.running_count, 5);
}

#[test]
fn scripted_round_that_runs_out_of_decisions_waits() {
    let mut shoe = stacked(vec![
        Value::Six,
        Value::Three,
        Value::Ten,
        Value::Four,
        Value::Five,
        Value::Six,
    ]);
    let mut round = play_round(&mut shoe, &vec![Decision::Hit]).unwrap();
    assert_eq!(round.phase, Phase::PlayerTurn);
    assert!(round.awaits_decision());
    assert_eq!(ranks(&round.player), vec![Value::Three, Value::Four, Value::Five]);
    assert_eq!(round.hole, Some(card(Value::Ten)));
    assert_eq!(shoe.num_cards(), 1);
    round.step(&mut shoe, Some(Decision::Stand)).unwrap();
    assert_eq!(round.phase, Phase::DealerReveal);
}

#[test]
fn scripted_round_ignores_decisions_it_never_asks_for() {
    let mut shoe = stacked(vec![Value::Nine, Value::Ace, Value::Nine, Value::King, Value::Five]);
    let script = vec![Decision::Hit, Decision::Hit];
    let round = play_round(&mut shoe, &script).unwrap();
    assert_eq!(round.phase, Phase::Resolved);
    assert_eq!(round.player.cards.len(), 2);
    assert_eq!(round.outcome, Some(Outcome::PlayerBlackjack));
    assert_eq!(shoe.num_cards(), 1);
}

#[test]
fn scripted_round_on_a_shoe_that_runs_out() {
    let mut shoe = stacked(vec![Value::Six, Value::Ten, Value::Four, Value::Eight]);
    let res = play_round(&mut shoe, &vec![Decision::Stand]);
    assert!(matches!(res, Err(Error::ShoeEmpty)));
    assert_eq!(shoe.num_cards(), 0);

    let mut short = stacked(vec![Value::Six, Value::Ten]);
    assert!(matches!(play_round(&mut short, &vec![]), Err(Error::ShoeEmpty)));
    assert_eq!(short.num_cards(), 2);
}

#[test]
fn dealer_draws_until_17_in_a_played_round() {
    let mut shoe = stacked(vec![
        Value::Two,
        Value::Ten,
        Value::Three,
        Value::Nine,
        Value::Four,
        Value::Five,
        Value::Two,
        Value::Ace,
        Value::King,
    ]);
    let round = play_round(&mut shoe, &vec![Decision::Stand]).unwrap();
    assert_eq!(
        ranks(&round.dealer),
        vec![Value::Two, Value::Three, Value::Four, Value::Five, Value::Two, Value::Ace]
    );
    assert_eq!(round.dealer.calc_value(), 17);
    assert_eq!(round.outcome, Some(Outcome::PlayerWin));
    assert_eq!(shoe.num_cards(), 1);
}

#[test]
fn decisions_from_input() {
    assert_eq!(Decision::parse("h"), Some(Decision::Hit));
    assert_eq!(Decision::parse("s"), Some(Decision::Stand));
    assert_eq!(Decision::parse(""), None);
    assert_eq!(Decision::parse("H"), None);
    assert_eq!(Decision::parse("hit"), None);
    assert_eq!(Decision::parse("h\n"), None);
    assert_eq!(Decision::parse("x"), None);
    assert_eq!(Decision::parse("♠"), None);
}

#[test]
fn a_round_on_a_fresh_shuffled_shoe_resolves() {
    let mut shoe = Shoe::new(6).unwrap().shuffle();
    let script = vec![Decision::Stand];
    let round = play_round(&mut shoe, &script).unwrap();
    assert_eq!(round.phase, Phase::Resolved);
    assert!(round.outcome.is_some());
    assert_eq!(
        Some(determine_outcome(&round.player, &round.dealer)),
        round.outcome
    );
    assert!(round.player.is_blackjack() || round.dealer.calc_value() >= 17);
    let drawn = round.player.cards.len() + round.dealer.cards.len();
    assert_eq!(shoe.num_cards() as usize + drawn, 312);
}

#[test]
fn round_fits_tells_what_a_step_needs() {
    assert!(Round::new().fits());
    let round = Round {
        phase: Phase::PlayerTurn,
        player: hand_of(vec![Value::Ten, Value::Eight]),
        dealer: hand_of(vec![Value::Ten]),
        hole: Some(card(Value::Six)),
        outcome: None,
    };
    assert!(round.fits());
}
