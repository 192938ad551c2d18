//! The player's decisions: what a strategy is, and the basic strategy's
//! tables.

use vstd::prelude::*;
use crate::card::{Card, high_value};
use crate::hand::{Hand, soft, total_of};

verus! {

/// What the player can do with a hand.
#[derive(Debug, Clone, Copy, PartialEq, Eq, Structural)]
pub enum Action {
    Hit,
    Stand,
    DoubleDown,
    Split,
    Surrender,
}

/// A way of playing. Each decision is a function of the cards in the
/// hand and of the dealer's visible card, and of nothing else: the same
/// two always give the same action.
pub trait PlayStrategy {
    /// The first decision on the cards of a new hand against the upcard.
    /// A strategy states its own; until it does, nothing is known of it.
    open spec fn first_action_for(&self, cards: Seq<Card>, upcard: Card) -> Action {
        arbitrary()
    }

    /// A later decision on the cards of a hand against the upcard.
    /// A strategy states its own; until it does, nothing is known of it.
    open spec fn action_for(&self, cards: Seq<Card>, upcard: Card) -> Action {
        arbitrary()
    }

    /// Decides on a hand that has had its first decision.
    fn determine_action(&self, player_hand: &Hand, dealer_upcard: &Card) -> (action: Action)
        ensures
            action == self.action_for(player_hand@, *dealer_upcard),
    ;

    /// Decides on a new hand, which holds its two cards.
    fn determine_first_action(&self, player_hand: &Hand, dealer_upcard: &Card) -> (action: Action)
        requires
            player_hand@.len() >= 2,
        ensures
            action == self.first_action_for(player_hand@, *dealer_upcard),
    ;
}

/// A strategy decides alike on hands that hold the same cards in the
/// same order against the same upcard, whatever else differs between
/// the hands and however often it is asked.
pub proof fn lemma_decisions_deterministic<S: PlayStrategy>(
    strategy: &S,
    one: Hand,
    other: Hand,
    upcard: Card,
)
    requires
        one@ == other@,
    ensures
        strategy.first_action_for(one@, upcard) == strategy.first_action_for(other@, upcard),
        strategy.action_for(one@, upcard) == strategy.action_for(other@, upcard),
{
}

/// Soft totals that double down against the dealer's value.
pub open spec fn soft_double(total: nat, dealer: nat) -> bool {
    ||| total == 19 && dealer == 6
    ||| total == 18 && dealer <= 6
    ||| total == 17 && 3 <= dealer <= 6
    ||| (total == 16 || total == 15) && 4 <= dealer <= 6
    ||| (total == 14 || total == 13) && 5 <= dealer <= 6
}

/// Totals of a pair that split against the dealer's value.
pub open spec fn pair_split(total: nat, dealer: nat) -> bool {
    ||| total == 18 && (dealer < 7 || dealer >= 10)
    ||| total == 16
    ||| total == 14 && dealer <= 7
    ||| total == 12 && 3 <= dealer <= 7
    ||| (total == 6 || total == 4) && 4 <= dealer <= 7
}

/// Totals that surrender against the dealer's value.
pub open spec fn hard_surrender(total: nat, dealer: nat) -> bool {
    ||| total == 16 && 9 <= dealer <= 11
    ||| total == 15 && dealer == 10
}

/// Totals that double down against the dealer's value whatever the hand.
pub open spec fn hard_double(total: nat, dealer: nat) -> bool {
    ||| total == 11
    ||| total == 10 && dealer < 10
    ||| total == 9 && 3 <= dealer <= 6
}

/// The basic strategy's first decision. The first rule that applies
/// decides: a soft pair of aces splits; a soft hand doubles by its
/// table; a pair splits by its table; then the surrenders, then the
/// doubles on the total alone; else the hand stands.
pub open spec fn basic_first_action(cards: Seq<Card>, upcard: Card) -> Action
    recommends
        cards.len() >= 2,
{
    let total = total_of(cards);
    let dealer = high_value(upcard.rank);
    if soft(cards) && cards[0].rank == 1 && cards[1].rank == 1 {
        Action::Split
    } else if soft(cards) && soft_double(total, dealer) {
        Action::DoubleDown
    } else if cards[0].rank == cards[1].rank && pair_split(total, dealer) {
        Action::Split
    } else if hard_surrender(total, dealer) {
        Action::Surrender
    } else if hard_double(total, dealer) {
        Action::DoubleDown
    } else {
        Action::Stand
    }
}

/// The basic strategy's later decisions: when to take another card.
pub open spec fn basic_hits(cards: Seq<Card>, upcard: Card) -> bool {
    let total = total_of(cards);
    let dealer = high_value(upcard.rank);
    ||| soft(cards) && total <= 17
    ||| soft(cards) && total == 18 && dealer >= 9
    ||| total <= 11
    ||| total == 12 && (dealer < 4 || dealer > 6)
    ||| 13 <= total <= 16 && dealer >= 7
}

/// The basic strategy after the first decision: hit or stand.
pub open spec fn basic_action(cards: Seq<Card>, upcard: Card) -> Action {
    if basic_hits(cards, upcard) {
        Action::Hit
    } else {
        Action::Stand
    }
}

/// The basic strategy.
pub struct BasicStrategy;

impl PlayStrategy for BasicStrategy {
    open spec fn first_action_for(&self, cards: Seq<Card>, upcard: Card) -> Action {
        basic_first_action(cards, upcard)
    }

    open spec fn action_for(&self, cards: Seq<Card>, upcard: Card) -> Action {
        basic_action(cards, upcard)
    }

    fn determine_first_action(&self, player_hand: &Hand, dealer_upcard: &Card) -> (action: Action) {
        let player_total = player_hand.total();
        let dealer_value = dealer_upcard.value();
        let first = player_hand.cards[0].rank;
        let second = player_hand.cards[1].rank;
        if player_hand.is_soft() {
            if first == 1 && second == 1 {
                return Action::Split;
            }
            if player_total == 19 && dealer_value == 6 {
                return Action::DoubleDown;
            }
            if player_total == 18 && dealer_value <= 6 {
                return Action::DoubleDown;
            }
            if player_total == 17 && 3 <= dealer_value && dealer_value <= 6 {
                return Action::DoubleDown;
            }
            if (player_total == 16 || player_total == 15) && 4 <= dealer_value && dealer_value
                <= 6 {
                return Action::DoubleDown;
            }
            if (player_total == 14 || player_total == 13) && 5 <= dealer_value && dealer_value
                <= 6 {
                return Action::DoubleDown;
            }
        }
        if first == second {
            if player_total == 18 && (dealer_value < 7 || dealer_value >= 10) {
                return Action::Split;
            }
            if player_total == 16 {
                return Action::Split;
            }
            if player_total == 14 && dealer_value <= 7 {
                return Action::Split;
            }
            if player_total == 12 && 3 <= dealer_value && dealer_value <= 7 {
                return Action::Split;
            }
            if (player_total == 6 || player_total == 4) && 4 <= dealer_value && dealer_value
                <= 7 {
                return Action::Split;
            }
        }
        if player_total == 16 && 9 <= dealer_value && dealer_value <= 11 {
            return Action::Surrender;
        }
        if player_total == 15 && dealer_value == 10 {
            return Action::Surrender;
        }
        if player_total == 11 {
            return Action::DoubleDown;
        }
        if player_total == 10 && dealer_value < 10 {
            return Action::DoubleDown;
        }
        if player_total == 9 && 3 <= dealer_value && dealer_value <= 6 {
            return Action::DoubleDown;
        }
        Action::Stand
    }

    fn determine_action(&self, player_hand: &Hand, dealer_upcard: &Card) -> (action: Action) {
        let player_total = player_hand.total();
        let dealer_value = dealer_upcard.value();
        if player_hand.is_soft() {
            if player_total <= 17 {
                return Action::Hit;
            }
            if player_total == 18 && dealer_value >= 9 {
                return Action::Hit;
            }
        }
        if player_total <= 11 {
            return Action::Hit;
        }
        if player_total == 12 && (dealer_value < 4 || dealer_value > 6) {
            return Action::Hit;
        }
        if 13 <= player_total && player_total <= 16 && dealer_value >= 7 {
            return Action::Hit;
        }
        Action::Stand
    }
}

} // verus!
