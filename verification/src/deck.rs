//! The shoe: whole packs laid out in a fixed order, shuffled, and dealt
//! from the end.

use vstd::prelude::*;
use vstd::multiset::*;
use vstd::seq_lib::*;
use crate::card::{Card, Suit};

verus! {

/// The suit that stands at place `k` of a pack's four runs.
pub open spec fn suit_at(k: int) -> Suit {
    if k == 0 {
        Suit::Hearts
    } else if k == 1 {
        Suit::Diamonds
    } else if k == 2 {
        Suit::Clubs
    } else {
        Suit::Spades
    }
}

/// The place of a suit among a pack's four runs.
pub open spec fn suit_index(suit: Suit) -> int {
    match suit {
        Suit::Hearts => 0,
        Suit::Diamonds => 1,
        Suit::Clubs => 2,
        Suit::Spades => 3,
    }
}

/// The card at place `i` of an unshuffled shoe: packs follow one
/// another, each suit by suit, each suit from ace to king.
pub open spec fn shoe_card(i: int) -> Card {
    Card { rank: (i % 13 + 1) as u8, suit: suit_at((i / 13) % 4) }
}

/// The place of a card within its pack, from 0 to 51.
pub open spec fn pack_place(c: Card) -> int {
    suit_index(c.suit) * 13 + c.rank - 1
}

/// The first `k` cards of an unshuffled shoe.
pub open spec fn shoe_prefix(k: nat) -> Seq<Card> {
    Seq::new(k, |i: int| shoe_card(i))
}

/// An unshuffled shoe of `packs` packs of 52 cards.
pub open spec fn fresh_shoe(packs: nat) -> Seq<Card> {
    shoe_prefix(52 * packs)
}

/// How many cards of a rank the sequence holds, over the four suits.
pub open spec fn rank_count(s: Seq<Card>, rank: u8) -> nat {
    s.to_multiset().count(Card { rank, suit: Suit::Hearts })
        + s.to_multiset().count(Card { rank, suit: Suit::Diamonds })
        + s.to_multiset().count(Card { rank, suit: Suit::Clubs })
        + s.to_multiset().count(Card { rank, suit: Suit::Spades })
}

/// How many cards of a suit the sequence holds among the ranks from 1
/// to `upto`.
pub open spec fn suit_count_upto(s: Seq<Card>, suit: Suit, upto: nat) -> nat
    decreases upto,
{
    if upto == 0 {
        0
    } else {
        suit_count_upto(s, suit, (upto - 1) as nat)
            + s.to_multiset().count(Card { rank: upto as u8, suit })
    }
}

/// How many cards of a suit the sequence holds, from ace to king.
pub open spec fn suit_count(s: Seq<Card>, suit: Suit) -> nat {
    suit_count_upto(s, suit, 13)
}

/// In the first `k` cards of an unshuffled shoe a card of a real pack
/// occurs once for every whole pack, and once more where the pack that
/// was begun has reached its place.
pub proof fn lemma_shoe_prefix_count(k: nat, c: Card)
    requires
        c.wf(),
    ensures
        shoe_prefix(k).to_multiset().count(c) == k / 52 + if pack_place(c) < k % 52 {
            1nat
        } else {
            0nat
        },
    decreases k,
{
    broadcast use group_multiset_axioms;

    if k == 0 {
        to_multiset_contains(shoe_prefix(0), c);
    } else {
        let j = (k - 1) as nat;
        lemma_shoe_prefix_count(j, c);
        assert(shoe_prefix(k) =~= shoe_prefix(j).push(shoe_card(j as int)));
        to_multiset_build(shoe_prefix(j), shoe_card(j as int));
        assert((shoe_card(j as int) == c) <==> pack_place(c) == j % 52);
    }
}

/// Every card of a real pack occurs in a fresh shoe once per pack.
pub proof fn lemma_fresh_shoe_count(packs: nat, c: Card)
    requires
        c.wf(),
    ensures
        fresh_shoe(packs).to_multiset().count(c) == packs,
        fresh_shoe(packs).len() == 52 * packs,
{
    lemma_shoe_prefix_count(52 * packs, c);
}

/// The make-up of a shoe in any order: a sequence with the cards of a
/// fresh shoe of `packs` packs has 52 cards per pack, all of them cards
/// of a real pack, 4 of each rank per pack and 13 of each suit per pack.
/// For six packs that is 312 cards, 24 of each rank and 78 of each suit.
pub proof fn lemma_shoe_composition(s: Seq<Card>, packs: nat)
    requires
        s.to_multiset() == fresh_shoe(packs).to_multiset(),
    ensures
        s.len() == 52 * packs,
        forall|i: int| 0 <= i < s.len() ==> (#[trigger] s[i]).wf(),
        forall|rank: u8| 1 <= rank <= 13 ==> #[trigger] rank_count(s, rank) == 4 * packs,
        forall|suit: Suit| #[trigger] suit_count(s, suit) == 13 * packs,
{
    to_multiset_len(s);
    to_multiset_len(fresh_shoe(packs));
    assert forall|i: int| 0 <= i < s.len() implies (#[trigger] s[i]).wf() by {
        assert(s.contains(s[i]));
        to_multiset_contains(s, s[i]);
        to_multiset_contains(fresh_shoe(packs), s[i]);
        let j = choose|j: int| 0 <= j < fresh_shoe(packs).len() && fresh_shoe(packs)[j] == s[i];
        assert(fresh_shoe(packs)[j] == shoe_card(j));
    }
    assert forall|rank: u8| 1 <= rank <= 13 implies #[trigger] rank_count(s, rank) == 4
        * packs by {
        lemma_fresh_shoe_count(packs, Card { rank, suit: Suit::Hearts });
        lemma_fresh_shoe_count(packs, Card { rank, suit: Suit::Diamonds });
        lemma_fresh_shoe_count(packs, Card { rank, suit: Suit::Clubs });
        lemma_fresh_shoe_count(packs, Card { rank, suit: Suit::Spades });
    }
    assert forall|suit: Suit| #[trigger] suit_count(s, suit) == 13 * packs by {
        lemma_suit_count_upto(s, packs, suit, 13);
    }
}

/// The cards with those at places `i` and `j` exchanged.
pub open spec fn exchanged(s: Seq<Card>, i: int, j: int) -> Seq<Card> {
    s.update(i, s[j]).update(j, s[i])
}

/// The draws of a shuffle of `len` cards: one place for each place from
/// the last down to the second, each drawn at or below the place it is
/// for. `draws[0]` is for the last place.
pub open spec fn draws_fit(draws: Seq<usize>, len: nat) -> bool {
    &&& draws.len() == if len == 0 {
        0
    } else {
        len - 1
    }
    &&& forall|k: int| 0 <= k < draws.len() ==> #[trigger] draws[k] <= len - 1 - k
}

/// The cards after the first `count` exchanges of a shuffle along
/// `draws`: the last place is exchanged with `draws[0]`, then the place
/// before it with `draws[1]`, and so on down.
pub open spec fn exchanged_along(s: Seq<Card>, draws: Seq<usize>, count: nat) -> Seq<Card>
    decreases count,
{
    if count == 0 {
        s
    } else {
        exchanged(
            exchanged_along(s, draws, (count - 1) as nat),
            s.len() - count,
            draws[count - 1] as int,
        )
    }
}

/// Exchanging the cards at two places leaves the same cards, each as often.
pub proof fn lemma_exchange_keeps_cards(s: Seq<Card>, i: int, j: int)
    requires
        0 <= i < s.len(),
        0 <= j < s.len(),
    ensures
        exchanged(s, i, j).to_multiset() == s.to_multiset(),
        exchanged(s, i, j).len() == s.len(),
{
    broadcast use group_multiset_axioms;

    if i == j {
        assert(s.update(i, s[j]).update(j, s[i]) =~= s);
    } else {
        let mid = s.update(i, s[j]);
        assert(s.contains(s[i]));
        assert(mid.contains(mid[j]));
        to_multiset_contains(s, s[i]);
        to_multiset_contains(mid, mid[j]);
        to_multiset_update(s, i, s[j]);
        to_multiset_update(mid, j, s[i]);
        assert(mid.update(j, s[i]).to_multiset() =~= s.to_multiset());
    }
}

/// The first exchanges of a shuffle depend on the first draws alone: a
/// draw added at the end changes none of them.
pub proof fn lemma_exchanged_along_push(s: Seq<Card>, draws: Seq<usize>, j: usize, count: nat)
    requires
        count <= draws.len(),
    ensures
        exchanged_along(s, draws.push(j), count) == exchanged_along(s, draws, count),
    decreases count,
{
    if count > 0 {
        lemma_exchanged_along_push(s, draws, j, (count - 1) as nat);
        assert(draws.push(j)[count - 1] == draws[count - 1]);
    }
}

/// A shuffle along any draws that fit leaves the same cards, each as
/// often, after every one of its exchanges.
pub proof fn lemma_exchanged_along_keeps_cards(s: Seq<Card>, draws: Seq<usize>, count: nat)
    requires
        draws_fit(draws, s.len()),
        count <= draws.len(),
    ensures
        exchanged_along(s, draws, count).to_multiset() == s.to_multiset(),
        exchanged_along(s, draws, count).len() == s.len(),
    decreases count,
{
    if count > 0 {
        lemma_exchanged_along_keeps_cards(s, draws, (count - 1) as nat);
        lemma_exchange_keeps_cards(
            exchanged_along(s, draws, (count - 1) as nat),
            s.len() - count,
            draws[count - 1] as int,
        );
    }
}

/// Among the ranks from 1 to `upto` a shoe in any order holds `packs`
/// cards of a suit per rank.
proof fn lemma_suit_count_upto(s: Seq<Card>, packs: nat, suit: Suit, upto: nat)
    requires
        s.to_multiset() == fresh_shoe(packs).to_multiset(),
        upto <= 13,
    ensures
        suit_count_upto(s, suit, upto) == upto * packs,
    decreases upto,
{
    if upto > 0 {
        lemma_suit_count_upto(s, packs, suit, (upto - 1) as nat);
        lemma_fresh_shoe_count(packs, Card { rank: upto as u8, suit });
        assert(upto * packs == (upto - 1) * packs + packs) by (nonlinear_arith);
    } else {
        assert(upto * packs == 0) by (nonlinear_arith)
            requires
                upto == 0,
        ;
    }
}

impl Suit {
    /// The suit at place `k` of a pack's four runs.
    pub fn nth(k: u8) -> (suit: Suit)
        requires
            k < 4,
        ensures
            suit == suit_at(k as int),
    {
        if k == 0 {
            Suit::Hearts
        } else if k == 1 {
            Suit::Diamonds
        } else if k == 2 {
            Suit::Clubs
        } else {
            Suit::Spades
        }
    }
}

/// The generator of random numbers that `rand` keeps for each thread.
#[verifier::external_type_specification]
#[verifier::external_body]
pub struct ExThreadRng(rand::rngs::ThreadRng);

/// `rand::rng` hands out the calling thread's generator. Nothing is
/// claimed of it.
pub assume_specification[ rand::rng ]() -> (rng: rand::rngs::ThreadRng);

/// Draws an index with `rand::Rng::random_range` on the closed range
/// from 0 to `upper`. The range is never empty, so the call does not
/// panic, and the draw lies within it; which index comes is left open.
#[verifier::external_body]
fn random_index(rng: &mut rand::rngs::ThreadRng, upper: usize) -> (j: usize)
    ensures
        j <= upper,
{
    rand::Rng::random_range(rng, 0..=upper)
}

/// The cards that are left to deal, the next one at the end.
pub struct Deck {
    pub cards: Vec<Card>,
}

impl View for Deck {
    type V = Seq<Card>;

    open spec fn view(&self) -> Seq<Card> {
        self.cards@
    }
}

impl Deck {
    /// Lays out `count` packs, unshuffled: 52 cards per pack, each card
    /// of a real pack once per pack.
    pub fn new(count: u8) -> (deck: Deck)
        ensures
            deck@ == fresh_shoe(count as nat),
            deck@.len() == 52 * count,
    {
        let mut cards: Vec<Card> = Vec::new();
        let mut pack: u8 = 0;
        while pack < count
            invariant
                pack <= count,
                cards@ =~= shoe_prefix(52 * pack as nat),
            decreases count - pack,
        {
            let mut s: u8 = 0;
            while s < 4
                invariant
                    pack < count,
                    s <= 4,
                    cards@ =~= shoe_prefix((52 * pack + 13 * s) as nat),
                decreases 4 - s,
            {
                let suit = Suit::nth(s);
                let mut rank: u8 = 1;
                while rank <= 13
                    invariant
                        pack < count,
                        s < 4,
                        suit == suit_at(s as int),
                        1 <= rank <= 14,
                        cards@ =~= shoe_prefix((52 * pack + 13 * s + rank - 1) as nat),
                    decreases 14 - rank,
                {
                    cards.push(Card { rank, suit });
                    rank += 1;
                }
                s += 1;
            }
            pack += 1;
        }
        Deck { cards }
    }

    /// Puts the cards in a random order by exchanging each place, from
    /// the last down to the second, with a place drawn at random at or
    /// below it. Which places are drawn is left open; the deck is the
    /// old one exchanged along them, so the cards are the same ones,
    /// each as often as before.
    pub fn shuffle(&mut self)
        ensures
            exists|draws: Seq<usize>| #[trigger]
                draws_fit(draws, old(self)@.len()) && final(self)@ == exchanged_along(
                    old(self)@,
                    draws,
                    draws.len(),
                ),
            final(self)@.to_multiset() == old(self)@.to_multiset(),
            final(self)@.len() == old(self)@.len(),
    {
        let mut rng = rand::rng();
        let mut i: usize = self.cards.len();
        let ghost mut draws: Seq<usize> = Seq::empty();
        while i > 1
            invariant
                i <= self.cards.len(),
                old(self)@.len() > 0 ==> i >= 1,
                self@.len() == old(self)@.len(),
                draws.len() == old(self)@.len() - i,
                forall|k: int|
                    0 <= k < draws.len() ==> #[trigger] draws[k] <= old(self)@.len() - 1 - k,
                self@ == exchanged_along(old(self)@, draws, draws.len()),
                self@.to_multiset() == old(self)@.to_multiset(),
            decreases i,
        {
            i -= 1;
            let j = random_index(&mut rng, i);
            proof {
                lemma_exchanged_along_push(old(self)@, draws, j, draws.len());
                draws = draws.push(j);
            }
            self.exchange(i, j);
        }
        proof {
            assert(draws_fit(draws, old(self)@.len()));
        }
    }

    /// Exchanges the cards at two places of the deck.
    pub fn exchange(&mut self, i: usize, j: usize)
        requires
            i < old(self)@.len(),
            j < old(self)@.len(),
        ensures
            final(self)@ == exchanged(old(self)@, i as int, j as int),
            final(self)@.to_multiset() == old(self)@.to_multiset(),
            final(self)@.len() == old(self)@.len(),
    {
        let upper = self.cards[i];
        let drawn = self.cards[j];
        proof {
            lemma_exchange_keeps_cards(self@, i as int, j as int);
        }
        self.cards[i] = drawn;
        self.cards[j] = upper;
    }

    /// Takes the card at the end of the deck, if there is one.
    pub fn deal_card(&mut self) -> (card: Option<Card>)
        ensures
            match card {
                Some(c) => old(self)@.len() > 0 && c == old(self)@.last() && final(self)@ == old(self)@.drop_last(),
                None => old(self)@.len() == 0 && final(self)@ == old(self)@,
            },
    {
        self.cards.pop()
    }

    /// The number of cards left.
    pub fn remaining(&self) -> (n: usize)
        ensures
            n == self@.len(),
    {
        self.cards.len()
    }
}

} // verus!
