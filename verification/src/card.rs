//! Playing cards: a rank from ace to king and one of four suits.

use vstd::prelude::*;
use vstd::string::*;

verus! {

/// The four suits, in the order in which a pack is laid out.
#[derive(Debug, Clone, Copy, PartialEq, Eq, Structural)]
pub enum Suit {
    Hearts,
    Diamonds,
    Clubs,
    Spades,
}

/// A card. Rank 1 is the ace, 11 the jack, 12 the queen and 13 the king.
#[derive(Debug, Clone, Copy, PartialEq, Eq, Structural)]
pub struct Card {
    pub rank: u8,
    pub suit: Suit,
}

/// Points of a rank with the ace counted high: ace 11, court cards 10,
/// any other rank its own number.
pub open spec fn high_value(rank: u8) -> nat {
    if rank == 1 {
        11
    } else if 11 <= rank <= 13 {
        10
    } else {
        rank as nat
    }
}

/// Points of a rank with the ace counted low: ten less than `high_value`
/// for the ace, the same for every other rank.
pub open spec fn low_value(rank: u8) -> nat {
    if rank == 1 {
        1
    } else {
        high_value(rank)
    }
}

/// The numeral of a single digit.
pub open spec fn digit_label(d: nat) -> Seq<char> {
    if d == 0 {
        "0"@
    } else if d == 1 {
        "1"@
    } else if d == 2 {
        "2"@
    } else if d == 3 {
        "3"@
    } else if d == 4 {
        "4"@
    } else if d == 5 {
        "5"@
    } else if d == 6 {
        "6"@
    } else if d == 7 {
        "7"@
    } else if d == 8 {
        "8"@
    } else {
        "9"@
    }
}

/// A number written in decimal digits, without leading zeros.
pub open spec fn decimal_label(n: nat) -> Seq<char>
    decreases n,
{
    if n < 10 {
        digit_label(n)
    } else {
        decimal_label(n / 10) + digit_label(n % 10)
    }
}

/// What is printed for a rank: a letter for the ace and the court
/// cards, the number for any other rank.
pub open spec fn rank_label(rank: u8) -> Seq<char> {
    if rank == 1 {
        "A"@
    } else if rank == 11 {
        "J"@
    } else if rank == 12 {
        "Q"@
    } else if rank == 13 {
        "K"@
    } else {
        decimal_label(rank as nat)
    }
}

/// The symbol printed for a suit.
pub open spec fn suit_label(suit: Suit) -> Seq<char> {
    match suit {
        Suit::Hearts => "♥"@,
        Suit::Diamonds => "♦"@,
        Suit::Clubs => "♣"@,
        Suit::Spades => "♠"@,
    }
}

impl Card {
    /// A card of a real pack has a rank from 1 to 13.
    pub open spec fn wf(&self) -> bool {
        1 <= self.rank <= 13
    }

    /// The card's name as a sequence of characters: rank, then suit.
    pub open spec fn label(&self) -> Seq<char> {
        rank_label(self.rank) + suit_label(self.suit)
    }

    /// The card's blackjack value, the ace counted as 11.
    pub fn value(&self) -> (v: u8)
        ensures
            v == high_value(self.rank),
    {
        match self.rank {
            1 => 11,
            11 | 12 | 13 => 10,
            _ => self.rank,
        }
    }

    /// The card's display name, such as `A♠` or `10♦`.
    pub fn name(&self) -> (s: String)
        ensures
            s@ == self.label(),
    {
        let rank_str = match self.rank {
            1 => String::from_str("A"),
            11 => String::from_str("J"),
            12 => String::from_str("Q"),
            13 => String::from_str("K"),
            _ => decimal(self.rank as u128),
        };
        let suit_str: &str = match self.suit {
            Suit::Hearts => "♥",
            Suit::Diamonds => "♦",
            Suit::Clubs => "♣",
            Suit::Spades => "♠",
        };
        rank_str.concat(suit_str)
    }
}

/// The numeral of a single digit.
fn digit_str(d: u8) -> (s: &'static str)
    requires
        d < 10,
    ensures
        s@ == digit_label(d as nat),
{
    match d {
        0 => "0",
        1 => "1",
        2 => "2",
        3 => "3",
        4 => "4",
        5 => "5",
        6 => "6",
        7 => "7",
        8 => "8",
        _ => "9",
    }
}

/// Writes a number in decimal digits.
pub fn decimal(n: u128) -> (s: String)
    ensures
        s@ == decimal_label(n as nat),
    decreases n,
{
    if n < 10 {
        String::from_str(digit_str(n as u8))
    } else {
        decimal(n / 10).concat(digit_str((n % 10) as u8))
    }
}

} // verus!
