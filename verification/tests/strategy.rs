use blackjack::card::{Card, Suit};
use blackjack::hand::Hand;
use blackjack::strategy::{Action, BasicStrategy, PlayStrategy};

fn up(rank: u8) -> Card {
    Card { rank, suit: Suit::Diamonds }
}

fn hand_with(ranks: &[u8]) -> Hand {
    let mut hand = Hand::new();
    for &rank in ranks {
        hand.add_card(Card { rank, suit: Suit::Clubs });
    }
    hand
}

fn first(ranks: &[u8], dealer: u8) -> Action {
    BasicStrategy.determine_first_action(&hand_with(ranks), &up(dealer))
}

fn later(ranks: &[u8], dealer: u8) -> Action {
    BasicStrategy.determine_action(&hand_with(ranks), &up(dealer))
}

#[test]
fn first_action_same_inputs_same_action() {
    for dealer in 1..=13u8 {
        for a in 1..=13u8 {
            for b in 1..=13u8 {
                let once = first(&[a, b], dealer);
                for _ in 0..3 {
                    assert_eq!(first(&[a, b], dealer), once);
                }
            }
        }
    }
}

#[test]
fn first_action_does_not_read_the_flags() {
    let mut hand = hand_with(&[10, 6]);
    let plain = BasicStrategy.determine_first_action(&hand, &up(10));
    hand.doubled = true;
    hand.live = false;
    hand.first_action = false;
    assert_eq!(BasicStrategy.determine_first_action(&hand, &up(10)), plain);
    assert_eq!(plain, Action::Surrender);
}

#[test]
fn first_action_soft_hands() {
    assert_eq!(first(&[1, 1], 10), Action::Split);
    assert_eq!(first(&[1, 1], 2), Action::Split);
    assert_eq!(first(&[1, 8], 6), Action::DoubleDown);
    assert_eq!(first(&[1, 8], 5), Action::Stand);
    assert_eq!(first(&[1, 7], 2), Action::DoubleDown);
    assert_eq!(first(&[1, 7], 6), Action::DoubleDown);
    assert_eq!(first(&[1, 7], 7), Action::Stand);
    assert_eq!(first(&[1, 6], 3), Action::DoubleDown);
    assert_eq!(first(&[1, 6], 2), Action::Stand);
    assert_eq!(first(&[1, 5], 4), Action::DoubleDown);
    assert_eq!(first(&[1, 5], 7), Action::Stand);
    assert_eq!(first(&[1, 5], 3), Action::Stand);
    assert_eq!(first(&[1, 4], 6), Action::DoubleDown);
    assert_eq!(first(&[1, 4], 3), Action::Stand);
    assert_eq!(first(&[1, 3], 5), Action::DoubleDown);
    assert_eq!(first(&[1, 3], 4), Action::Stand);
    assert_eq!(first(&[1, 2], 6), Action::DoubleDown);
    assert_eq!(first(&[1, 2], 7), Action::Stand);
}

#[test]
fn first_action_pairs() {
    assert_eq!(first(&[9, 9], 6), Action::Split);
    assert_eq!(first(&[9, 9], 10), Action::Split);
    assert_eq!(first(&[9, 9], 1), Action::Split);
    assert_eq!(first(&[9, 9], 7), Action::Stand);
    assert_eq!(first(&[9, 9], 9), Action::Stand);
    assert_eq!(first(&[8, 8], 10), Action::Split);
    assert_eq!(first(&[8, 8], 2), Action::Split);
    assert_eq!(first(&[7, 7], 7), Action::Split);
    assert_eq!(first(&[7, 7], 8), Action::Stand);
    assert_eq!(first(&[6, 6], 3), Action::Split);
    assert_eq!(first(&[6, 6], 2), Action::Stand);
    assert_eq!(first(&[3, 3], 4), Action::Split);
    assert_eq!(first(&[3, 3], 10), Action::Stand);
    assert_eq!(first(&[2, 2], 7), Action::Split);
    assert_eq!(first(&[2, 2], 3), Action::Stand);
    assert_eq!(first(&[5, 5], 9), Action::DoubleDown);
    assert_eq!(first(&[5, 5], 10), Action::Stand);
    assert_eq!(first(&[12, 12], 5), Action::Stand);
}

#[test]
fn first_action_hard_totals() {
    assert_eq!(first(&[10, 6], 10), Action::Surrender);
    assert_eq!(first(&[10, 6], 9), Action::Surrender);
    assert_eq!(first(&[10, 6], 1), Action::Surrender);
    assert_eq!(first(&[10, 6], 8), Action::Stand);
    assert_eq!(first(&[10, 5], 10), Action::Surrender);
    assert_eq!(first(&[10, 5], 13), Action::Surrender);
    assert_eq!(first(&[10, 5], 9), Action::Stand);
    assert_eq!(first(&[10, 5], 1), Action::Stand);
    assert_eq!(first(&[6, 5], 1), Action::DoubleDown);
    assert_eq!(first(&[6, 5], 10), Action::DoubleDown);
    assert_eq!(first(&[6, 4], 9), Action::DoubleDown);
    assert_eq!(first(&[6, 4], 10), Action::Stand);
    assert_eq!(first(&[6, 4], 1), Action::Stand);
    assert_eq!(first(&[5, 4], 3), Action::DoubleDown);
    assert_eq!(first(&[5, 4], 6), Action::DoubleDown);
    assert_eq!(first(&[5, 4], 2), Action::Stand);
    assert_eq!(first(&[5, 4], 7), Action::Stand);
    assert_eq!(first(&[10, 9], 6), Action::Stand);
    assert_eq!(first(&[5, 3], 5), Action::Stand);
}

#[test]
fn later_action_hits_and_stands() {
    assert_eq!(later(&[1, 6], 2), Action::Hit);
    assert_eq!(later(&[1, 2, 3], 10), Action::Hit);
    assert_eq!(later(&[1, 7], 9), Action::Hit);
    assert_eq!(later(&[1, 7], 1), Action::Hit);
    assert_eq!(later(&[1, 7], 8), Action::Stand);
    assert_eq!(later(&[1, 8], 10), Action::Stand);
    assert_eq!(later(&[5, 4], 6), Action::Hit);
    assert_eq!(later(&[6, 5], 6), Action::Hit);
    assert_eq!(later(&[10, 2], 3), Action::Hit);
    assert_eq!(later(&[10, 2], 7), Action::Hit);
    assert_eq!(later(&[10, 2], 4), Action::Stand);
    assert_eq!(later(&[10, 2], 6), Action::Stand);
    assert_eq!(later(&[10, 3], 7), Action::Hit);
    assert_eq!(later(&[10, 3], 6), Action::Stand);
    assert_eq!(later(&[5, 4, 7], 9), Action::Hit);
    assert_eq!(later(&[10, 6], 6), Action::Stand);
    assert_eq!(later(&[10, 7], 10), Action::Stand);
    assert_eq!(later(&[10, 6, 1], 10), Action::Stand);
    assert_eq!(later(&[], 5), Action::Hit);
}
