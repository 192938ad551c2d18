use blackjack::card::{decimal, Card, Suit};
use blackjack::deck::Deck;
use blackjack::hand::Hand;

fn card(rank: u8, suit: Suit) -> Card {
    Card { rank, suit }
}

fn hand_of(ranks: &[u8]) -> Hand {
    let mut hand = Hand::new();
    for &rank in ranks {
        hand.add_card(card(rank, Suit::Spades));
    }
    hand
}

fn key(c: &Card) -> (u8, u8) {
    let suit = match c.suit {
        Suit::Hearts => 0,
        Suit::Diamonds => 1,
        Suit::Clubs => 2,
        Suit::Spades => 3,
    };
    (c.rank, suit)
}

fn sorted_keys(cards: &[Card]) -> Vec<(u8, u8)> {
    let mut keys: Vec<(u8, u8)> = cards.iter().map(key).collect();
    keys.sort();
    keys
}

#[test]
fn card_value_by_rank() {
    assert_eq!(card(1, Suit::Hearts).value(), 11);
    assert_eq!(card(2, Suit::Hearts).value(), 2);
    assert_eq!(card(7, Suit::Clubs).value(), 7);
    assert_eq!(card(10, Suit::Clubs).value(), 10);
    assert_eq!(card(11, Suit::Diamonds).value(), 10);
    assert_eq!(card(12, Suit::Diamonds).value(), 10);
    assert_eq!(card(13, Suit::Spades).value(), 10);
}

#[test]
fn card_name_by_rank_and_suit() {
    assert_eq!(card(1, Suit::Spades).name(), "A♠");
    assert_eq!(card(10, Suit::Diamonds).name(), "10♦");
    assert_eq!(card(11, Suit::Clubs).name(), "J♣");
    assert_eq!(card(12, Suit::Hearts).name(), "Q♥");
    assert_eq!(card(13, Suit::Hearts).name(), "K♥");
    assert_eq!(card(2, Suit::Clubs).name(), "2♣");
    assert_eq!(card(9, Suit::Spades).name(), "9♠");
}

#[test]
fn card_name_of_a_rank_outside_the_pack_is_its_number() {
    assert_eq!(card(0, Suit::Spades).name(), "0♠");
    assert_eq!(card(14, Suit::Clubs).name(), "14♣");
    assert_eq!(card(99, Suit::Clubs).name(), "99♣");
    assert_eq!(card(100, Suit::Diamonds).name(), "100♦");
    assert_eq!(card(207, Suit::Hearts).name(), "207♥");
    assert_eq!(card(255, Suit::Hearts).name(), "255♥");
    assert_eq!(card(0, Suit::Spades).value(), 0);
    assert_eq!(card(200, Suit::Spades).value(), 200);
}

#[test]
fn new_hand_is_empty_live_and_pending() {
    let hand = Hand::new();
    assert!(hand.cards.is_empty());
    assert!(!hand.doubled);
    assert!(!hand.split);
    assert!(hand.first_action);
    assert!(hand.live);
    assert_eq!(hand.total(), 0);
    assert!(!hand.is_soft());
    assert!(!hand.is_busted());
    assert!(!hand.is_blackjack());
    assert_eq!(hand.display(), "");
}

#[test]
fn add_card_keeps_deal_order() {
    let mut hand = Hand::new();
    hand.add_card(card(5, Suit::Hearts));
    hand.add_card(card(1, Suit::Clubs));
    assert_eq!(hand.cards, vec![card(5, Suit::Hearts), card(1, Suit::Clubs)]);
    assert_eq!(hand.display(), "5♥, A♣");
}

#[test]
fn total_counts_one_ace_high_while_it_fits() {
    assert_eq!(hand_of(&[1, 6]).total(), 17);
    assert!(hand_of(&[1, 6]).is_soft());
    assert_eq!(hand_of(&[1, 6, 10]).total(), 17);
    assert!(!hand_of(&[1, 6, 10]).is_soft());
    assert_eq!(hand_of(&[1, 1]).total(), 12);
    assert!(hand_of(&[1, 1]).is_soft());
    assert_eq!(hand_of(&[1, 1, 9]).total(), 21);
    assert!(hand_of(&[1, 1, 9]).is_soft());
    assert_eq!(hand_of(&[1, 1, 10]).total(), 12);
    assert!(!hand_of(&[1, 1, 10]).is_soft());
    assert_eq!(hand_of(&[10, 6]).total(), 16);
    assert!(!hand_of(&[10, 6]).is_soft());
}

#[test]
fn bust_is_a_total_over_21() {
    assert!(hand_of(&[10, 10, 5]).is_busted());
    assert_eq!(hand_of(&[10, 10, 5]).total(), 25);
    assert!(!hand_of(&[10, 10, 1]).is_busted());
    assert_eq!(hand_of(&[10, 10, 1]).total(), 21);
    assert!(hand_of(&[10, 6, 6]).is_busted());
    assert_eq!(hand_of(&[10, 6, 6]).total(), 22);
}

#[test]
fn blackjack_is_two_cards_at_21() {
    assert!(hand_of(&[1, 13]).is_blackjack());
    assert!(hand_of(&[10, 1]).is_blackjack());
    assert!(!hand_of(&[7, 7, 7]).is_blackjack());
    assert!(!hand_of(&[10, 9]).is_blackjack());
    assert!(!hand_of(&[1]).is_blackjack());
}

#[test]
fn total_does_not_depend_on_card_order() {
    let orders: [[u8; 4]; 6] = [
        [1, 5, 13, 1],
        [1, 1, 5, 13],
        [13, 5, 1, 1],
        [5, 1, 13, 1],
        [1, 13, 1, 5],
        [13, 1, 5, 1],
    ];
    for order in orders.iter() {
        assert_eq!(hand_of(order).total(), 17);
        assert!(!hand_of(order).is_soft());
    }
    assert_eq!(hand_of(&[1, 2, 3]).total(), hand_of(&[3, 1, 2]).total());
    assert_eq!(hand_of(&[1, 2, 3]).total(), 16);
}

#[test]
fn hands_of_aces_never_total_below_their_count() {
    for k in 1..=30usize {
        let hand = hand_of(&vec![1u8; k]);
        let expected = if k + 10 <= 21 { k + 10 } else { k };
        assert_eq!(hand.total(), expected as u128);
    }
    assert_eq!(hand_of(&vec![1u8; 21]).total(), 21);
}

#[test]
fn fresh_deck_is_laid_out_suit_by_suit() {
    let deck = Deck::new(1);
    assert_eq!(deck.cards.len(), 52);
    assert_eq!(deck.cards[0], card(1, Suit::Hearts));
    assert_eq!(deck.cards[12], card(13, Suit::Hearts));
    assert_eq!(deck.cards[13], card(1, Suit::Diamonds));
    assert_eq!(deck.cards[26], card(1, Suit::Clubs));
    assert_eq!(deck.cards[39], card(1, Suit::Spades));
    assert_eq!(deck.cards[51], card(13, Suit::Spades));
    let two = Deck::new(2);
    assert_eq!(two.cards.len(), 104);
    assert_eq!(two.cards[52], card(1, Suit::Hearts));
    assert_eq!(two.cards[103], card(13, Suit::Spades));
    assert_eq!(Deck::new(0).cards.len(), 0);
}

#[test]
fn six_packs_hold_24_of_each_rank_and_78_of_each_suit() {
    let mut deck = Deck::new(6);
    for round in 0..2 {
        assert_eq!(deck.cards.len(), 312);
        assert_eq!(deck.remaining(), 312);
        for rank in 1..=13u8 {
            assert_eq!(deck.cards.iter().filter(|c| c.rank == rank).count(), 24);
        }
        for suit in [Suit::Hearts, Suit::Diamonds, Suit::Clubs, Suit::Spades] {
            assert_eq!(deck.cards.iter().filter(|c| c.suit == suit).count(), 78);
        }
        if round == 0 {
            deck.shuffle();
        }
    }
}

#[test]
fn shuffle_keeps_every_card() {
    let fresh = Deck::new(6);
    let mut deck = Deck::new(6);
    deck.shuffle();
    assert_eq!(sorted_keys(&deck.cards), sorted_keys(&fresh.cards));
    let mut small = Deck { cards: vec![card(3, Suit::Clubs), card(3, Suit::Clubs), card(9, Suit::Hearts)] };
    small.shuffle();
    assert_eq!(
        sorted_keys(&small.cards),
        vec![(3, 2), (3, 2), (9, 0)]
    );
}

#[test]
fn shuffle_changes_the_order_of_a_shoe() {
    let fresh = Deck::new(6);
    let mut deck = Deck::new(6);
    deck.shuffle();
    assert_ne!(deck.cards, fresh.cards);
}

#[test]
fn shuffle_of_nothing_and_of_one_card() {
    let mut empty = Deck::new(0);
    empty.shuffle();
    assert!(empty.cards.is_empty());
    let mut one = Deck { cards: vec![card(4, Suit::Diamonds)] };
    one.shuffle();
    assert_eq!(one.cards, vec![card(4, Suit::Diamonds)]);
}

#[test]
fn deal_card_takes_from_the_end() {
    let mut deck = Deck::new(1);
    assert_eq!(deck.deal_card(), Some(card(13, Suit::Spades)));
    assert_eq!(deck.deal_card(), Some(card(12, Suit::Spades)));
    assert_eq!(deck.remaining(), 50);
    assert_eq!(deck.cards[49], card(11, Suit::Spades));
}

#[test]
fn deal_card_from_an_empty_deck_gives_none() {
    let mut deck = Deck::new(0);
    assert_eq!(deck.deal_card(), None);
    assert_eq!(deck.remaining(), 0);
}

#[test]
fn decimal_writes_every_digit() {
    assert_eq!(decimal(0), "0");
    assert_eq!(decimal(7), "7");
    assert_eq!(decimal(10), "10");
    assert_eq!(decimal(1234567890), "1234567890");
    assert_eq!(decimal(u128::MAX), u128::MAX.to_string());
}

#[test]
fn exchange_swaps_two_places() {
    let a = card(1, Suit::Hearts);
    let b = card(2, Suit::Diamonds);
    let d = card(3, Suit::Clubs);
    let mut deck = Deck { cards: vec![a, b, d] };
    deck.exchange(2, 0);
    assert_eq!(deck.cards, vec![d, b, a]);
    deck.exchange(1, 1);
    assert_eq!(deck.cards, vec![d, b, a]);
    deck.exchange(0, 1);
    assert_eq!(deck.cards, vec![b, d, a]);
}

#[test]
fn shuffle_of_two_cards_gives_either_order() {
    let a = card(1, Suit::Hearts);
    let b = card(2, Suit::Diamonds);
    let mut kept = 0;
    let mut turned = 0;
    for _ in 0..400 {
        let mut deck = Deck { cards: vec![a, b] };
        deck.shuffle();
        if deck.cards == vec![a, b] {
            kept += 1;
        } else {
            assert_eq!(deck.cards, vec![b, a]);
            turned += 1;
        }
    }
    assert!(kept > 0);
    assert!(turned > 0);
}
