//! A party's hand: the cards in deal order, the derived total with its
//! soft and hard readings, and the flags of the hand's play.

use vstd::prelude::*;
use vstd::string::*;
use crate::card::{Card, high_value, low_value};

verus! {

/// Sum of the cards' points with every ace counted as 1.
pub open spec fn hard_sum(cards: Seq<Card>) -> nat {
    cards.fold_left(0nat, |acc: nat, c: Card| acc + low_value(c.rank))
}

/// Number of aces among the cards.
pub open spec fn ace_count(cards: Seq<Card>) -> nat {
    cards.fold_left(0nat, |acc: nat, c: Card| if c.rank == 1 { acc + 1 } else { acc })
}

/// Sum of the cards' points with every ace counted as 11.
pub open spec fn high_sum(cards: Seq<Card>) -> nat {
    hard_sum(cards) + 10 * ace_count(cards)
}

/// A hand is soft when it holds an ace that can count as 11 without
/// taking the hand over 21.
pub open spec fn soft(cards: Seq<Card>) -> bool {
    ace_count(cards) > 0 && hard_sum(cards) + 10 <= 21
}

/// The hand's total: one ace counts as 11 where the hand is soft, every
/// other ace as 1.
pub open spec fn total_of(cards: Seq<Card>) -> nat {
    if soft(cards) {
        hard_sum(cards) + 10
    } else {
        hard_sum(cards)
    }
}

/// What is left of a sum taken with `aces` aces counted as 11 once they
/// are turned down to 1, one at a time, for as long as the sum is over 21.
pub open spec fn reduce(sum: nat, aces: nat) -> nat
    decreases aces,
{
    if sum > 21 && aces > 0 {
        reduce((sum - 10) as nat, (aces - 1) as nat)
    } else {
        sum
    }
}

/// The aces that still count as 11 after the reduction.
pub open spec fn aces_left(sum: nat, aces: nat) -> nat
    decreases aces,
{
    if sum > 21 && aces > 0 {
        aces_left((sum - 10) as nat, (aces - 1) as nat)
    } else {
        aces
    }
}

/// Adding a card adds its low value to the hard sum and, for an ace, one
/// to the count of aces.
pub proof fn lemma_sums_push(cards: Seq<Card>, c: Card)
    ensures
        hard_sum(cards.push(c)) == hard_sum(cards) + low_value(c.rank),
        ace_count(cards.push(c)) == ace_count(cards) + if c.rank == 1 { 1nat } else { 0nat },
        high_sum(cards.push(c)) == high_sum(cards) + high_value(c.rank),
{
    assert(cards.push(c).drop_last() =~= cards);
}

/// Every ace adds at least 1 to the hard sum.
pub proof fn lemma_aces_within_hard_sum(cards: Seq<Card>)
    ensures
        ace_count(cards) <= hard_sum(cards),
    decreases cards.len(),
{
    if cards.len() > 0 {
        lemma_aces_within_hard_sum(cards.drop_last());
    }
}

/// Turning aces down one at a time ends at the total: with the hard sum
/// `hard` and `aces` aces still counted high, none of them stays high
/// unless the hand is soft, and then exactly one does.
pub proof fn lemma_reduce(hard: nat, aces: nat)
    requires
        aces <= hard,
    ensures
        reduce(hard + 10 * aces, aces) == if aces > 0 && hard + 10 <= 21 {
            hard + 10
        } else {
            hard
        },
        aces_left(hard + 10 * aces, aces) == if aces > 0 && hard + 10 <= 21 {
            1nat
        } else {
            0nat
        },
    decreases aces,
{
    if aces > 0 && hard + 10 * aces > 21 {
        assert(hard + 10 * aces - 10 == hard + 10 * (aces - 1));
        if aces > 1 {
            lemma_reduce(hard, (aces - 1) as nat);
        } else {
            assert(reduce(hard, 0) == hard);
            assert(aces_left(hard, 0) == 0);
        }
    }
}

/// The total is the high sum after the reduction of its aces.
pub proof fn lemma_total_is_reduction(cards: Seq<Card>)
    ensures
        total_of(cards) == reduce(high_sum(cards), ace_count(cards)),
        soft(cards) <==> aces_left(high_sum(cards), ace_count(cards)) > 0,
{
    lemma_aces_within_hard_sum(cards);
    lemma_reduce(hard_sum(cards), ace_count(cards));
}

/// The total does not depend on the order of the cards: two hands with
/// the same cards, each as often, have the same total and are both soft
/// or both hard.
pub proof fn lemma_total_permutation(a: Seq<Card>, b: Seq<Card>)
    requires
        a.to_multiset() == b.to_multiset(),
    ensures
        hard_sum(a) == hard_sum(b),
        ace_count(a) == ace_count(b),
        total_of(a) == total_of(b),
        soft(a) == soft(b),
{
    let f = |acc: nat, c: Card| acc + low_value(c.rank);
    let g = |acc: nat, c: Card| if c.rank == 1 { acc + 1 } else { acc };
    assert(vstd::seq_lib::commutative_foldl(f));
    assert(vstd::seq_lib::commutative_foldl(g));
    vstd::seq_lib::lemma_fold_left_permutation(a, b, f, 0nat);
    vstd::seq_lib::lemma_fold_left_permutation(a, b, g, 0nat);
}

/// The total is never below the hard sum, so never negative, and never
/// above the sum with every ace counted high; the empty hand totals 0.
pub proof fn lemma_total_bounds(cards: Seq<Card>)
    ensures
        0 <= hard_sum(cards) <= total_of(cards) <= high_sum(cards),
        total_of(cards) <= hard_sum(cards) + 10,
        cards.len() == 0 ==> total_of(cards) == 0,
{
}

/// The names of the cards in deal order, separated by a comma and a space.
pub open spec fn display_of(cards: Seq<Card>) -> Seq<char>
    decreases cards.len(),
{
    if cards.len() == 0 {
        Seq::empty()
    } else if cards.len() == 1 {
        cards[0].label()
    } else {
        display_of(cards.drop_last()) + ", "@ + cards.last().label()
    }
}

/// The cards of one party in the order in which they were dealt, and the
/// flags of the hand's play.
#[derive(Debug, Clone)]
pub struct Hand {
    pub cards: Vec<Card>,
    /// The stake on this hand was doubled.
    pub doubled: bool,
    /// Reserved for split hands; no round sets it.
    pub split: bool,
    /// The hand has not had its first decision yet.
    pub first_action: bool,
    /// The hand may still take cards.
    pub live: bool,
}

impl View for Hand {
    type V = Seq<Card>;

    open spec fn view(&self) -> Seq<Card> {
        self.cards@
    }
}

impl Hand {
    /// An empty hand, live and with its first decision pending.
    pub fn new() -> (hand: Hand)
        ensures
            hand@ == Seq::<Card>::empty(),
            !hand.doubled,
            !hand.split,
            hand.first_action,
            hand.live,
    {
        Hand { cards: Vec::new(), doubled: false, split: false, first_action: true, live: true }
    }

    /// Puts a card at the end of the hand; the flags stay as they are.
    pub fn add_card(&mut self, card: Card)
        ensures
            final(self)@ == old(self)@.push(card),
            final(self).doubled == old(self).doubled,
            final(self).split == old(self).split,
            final(self).first_action == old(self).first_action,
            final(self).live == old(self).live,
    {
        self.cards.push(card);
    }

    /// Sums the cards with the aces high, then turns aces down while the
    /// sum is over 21. Returns the sum and the aces still counted as 11.
    fn reduced(&self) -> (r: (u128, u128))
        ensures
            r.0 == total_of(self@),
            r.1 > 0 <==> soft(self@),
    {
        let mut total: u128 = 0;
        let mut aces: u128 = 0;
        let mut i: usize = 0;
        while i < self.cards.len()
            invariant
                i <= self.cards.len(),
                total == high_sum(self@.take(i as int)),
                aces == ace_count(self@.take(i as int)),
                total <= 255 * i,
                aces <= i,
            decreases self.cards.len() - i,
        {
            let card = &self.cards[i];
            proof {
                lemma_sums_push(self@.take(i as int), *card);
                assert(self@.take(i as int).push(*card) =~= self@.take(i + 1));
            }
            total += card.value() as u128;
            if card.rank == 1 {
                aces += 1;
            }
            i += 1;
        }
        proof {
            assert(self@.take(i as int) =~= self@);
            lemma_total_is_reduction(self@);
        }
        while total > 21 && aces > 0
            invariant
                reduce(total as nat, aces as nat) == total_of(self@),
                aces_left(total as nat, aces as nat) > 0 <==> soft(self@),
            decreases aces,
        {
            total -= 10;
            aces -= 1;
        }
        (total, aces)
    }

    /// The hand's total, computed anew from the cards at every call. The
    /// result is wide enough for a hand of any length.
    pub fn total(&self) -> (t: u128)
        ensures
            t == total_of(self@),
    {
        self.reduced().0
    }

    /// A natural: two cards that total 21.
    pub fn is_blackjack(&self) -> (b: bool)
        ensures
            b == (self@.len() == 2 && total_of(self@) == 21),
    {
        self.cards.len() == 2 && self.total() == 21
    }

    /// The hand is over 21.
    pub fn is_busted(&self) -> (b: bool)
        ensures
            b == (total_of(self@) > 21),
    {
        self.total() > 21
    }

    /// The hand holds an ace that counts as 11.
    pub fn is_soft(&self) -> (b: bool)
        ensures
            b == soft(self@),
    {
        let (total, aces) = self.reduced();
        aces > 0 && total <= 21
    }

    /// The names of the cards, separated by a comma and a space.
    pub fn display(&self) -> (s: String)
        ensures
            s@ == display_of(self@),
    {
        let mut out = String::new();
        let mut i: usize = 0;
        while i < self.cards.len()
            invariant
                i <= self.cards.len(),
                out@ == display_of(self@.take(i as int)),
            decreases self.cards.len() - i,
        {
            proof {
                assert(self@.take(i + 1).drop_last() =~= self@.take(i as int));
            }
            if i > 0 {
                out.append(", ");
            }
            let name = self.cards[i].name();
            out.append(name.as_str());
            i += 1;
        }
        proof {
            assert(self@.take(i as int) =~= self@);
        }
        out
    }
}

} // verus!
