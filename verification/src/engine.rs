//! One round from the deal to the payout, and the session that plays
//! rounds from one shoe.

use vstd::prelude::*;
use crate::card::{Card, Suit};
use crate::deck::{Deck, fresh_shoe, lemma_shoe_composition, rank_count, suit_count};
use crate::hand::{Hand, total_of};
use crate::stats::{GameResult, SessionStats, MAX_SWING};
use crate::strategy::{Action, PlayStrategy};
use crate::trace::{describe_round, round_text};

verus! {

/// The packs in a shoe.
pub const SHOE_PACKS: u8 = 6;

/// A round that starts with fewer cards than this starts from a new shoe.
pub const RESHUFFLE_BELOW: usize = 15;

/// Why a round could not be played to its end.
#[derive(Debug, Clone, Copy, PartialEq, Eq, Structural)]
pub enum RoundError {
    /// A card was to be drawn and none was left.
    EmptyDeck,
}

/// A hand and the deck after a party's turn, and whether the turn ended
/// with a card that took the hand over 21.
pub ghost struct Seat {
    pub hand: Seq<Card>,
    pub deck: Seq<Card>,
    pub bust: bool,
}

/// How a round ends: the result, the cards of both hands, the deck
/// that is left, whether the player doubled, the player's first
/// decision, where the round came to one, and whether a card took the
/// player's hand or the dealer's over 21.
pub ghost struct Outcome {
    pub result: GameResult,
    pub player: Seq<Card>,
    pub dealer: Seq<Card>,
    pub deck: Seq<Card>,
    pub doubled: bool,
    pub first: Option<Action>,
    pub player_bust: bool,
    pub dealer_bust: bool,
}

/// What a round hands back: the result, both hands as they ended, the
/// player's first decision, where the round came to one, and the
/// account of the round in words.
#[derive(Debug, Clone)]
pub struct RoundReport {
    pub result: GameResult,
    pub player: Hand,
    pub dealer: Hand,
    pub first_action: Option<Action>,
    pub log: String,
}

/// Two cards that total 21.
pub open spec fn natural(cards: Seq<Card>) -> bool {
    cards.len() == 2 && total_of(cards) == 21
}

/// The player's turn after the first decision: a card from the end of
/// the deck for as long as the strategy hits, until one takes the hand
/// over 21. There is no outcome where a card is wanted and none is left.
pub open spec fn player_plays<S: PlayStrategy>(
    strategy: &S,
    hand: Seq<Card>,
    upcard: Card,
    deck: Seq<Card>,
) -> Option<Seat>
    decreases deck.len(),
{
    if strategy.action_for(hand, upcard) == Action::Hit {
        if deck.len() == 0 {
            None
        } else {
            let drawn = hand.push(deck.last());
            if total_of(drawn) > 21 {
                Some(Seat { hand: drawn, deck: deck.drop_last(), bust: true })
            } else {
                player_plays(strategy, drawn, upcard, deck.drop_last())
            }
        }
    } else {
        Some(Seat { hand, deck, bust: false })
    }
}

/// The dealer's turn: a card from the end of the deck for as long as the
/// total is below 17, until one takes the hand over 21.
pub open spec fn dealer_plays(hand: Seq<Card>, deck: Seq<Card>) -> Option<Seat>
    decreases deck.len(),
{
    if total_of(hand) < 17 {
        if deck.len() == 0 {
            None
        } else {
            let drawn = hand.push(deck.last());
            if total_of(drawn) > 21 {
                Some(Seat { hand: drawn, deck: deck.drop_last(), bust: true })
            } else {
                dealer_plays(drawn, deck.drop_last())
            }
        }
    } else {
        Some(Seat { hand, deck, bust: false })
    }
}

/// The result when both hands stand: the higher total wins, at double
/// stakes where the player doubled, and equal totals push.
pub open spec fn settle(player: nat, dealer: nat, doubled: bool) -> GameResult {
    if player > dealer {
        if doubled {
            GameResult::DoubledWin
        } else {
            GameResult::PlayerWin
        }
    } else if player < dealer {
        if doubled {
            GameResult::DoubledLose
        } else {
            GameResult::DealerWin
        }
    } else {
        GameResult::Push
    }
}

/// The end of a round in which the player stands on `player`: the
/// dealer plays, and the player wins where the dealer goes over 21.
pub open spec fn dealer_stage(
    player: Seq<Card>,
    dealer: Seq<Card>,
    deck: Seq<Card>,
    doubled: bool,
    first: Action,
) -> Option<Outcome> {
    match dealer_plays(dealer, deck) {
        None => None,
        Some(seat) => Some(
            Outcome {
                result: if seat.bust {
                    GameResult::PlayerWin
                } else {
                    settle(total_of(player), total_of(seat.hand), doubled)
                },
                player,
                dealer: seat.hand,
                deck: seat.deck,
                doubled,
                first: Some(first),
                player_bust: false,
                dealer_bust: seat.bust,
            },
        ),
    }
}

/// A round without a natural, from the player's first decision on.
/// Doubling draws one card and stands, or loses at once over 21; a
/// surrender ends the round; a split is played as a stand; any other
/// first decision opens the player's turn, which loses at once over 21.
pub open spec fn after_naturals<S: PlayStrategy>(
    strategy: &S,
    player: Seq<Card>,
    dealer: Seq<Card>,
    deck: Seq<Card>,
) -> Option<Outcome>
    recommends
        player.len() >= 2,
        dealer.len() >= 1,
{
    let first = strategy.first_action_for(player, dealer[0]);
    match first {
        Action::DoubleDown => {
            if deck.len() == 0 {
                None
            } else {
                let drawn = player.push(deck.last());
                if total_of(drawn) > 21 {
                    Some(
                        Outcome {
                            result: GameResult::DoubledLose,
                            player: drawn,
                            dealer,
                            deck: deck.drop_last(),
                            doubled: true,
                            first: Some(first),
                            player_bust: true,
                            dealer_bust: false,
                        },
                    )
                } else {
                    dealer_stage(drawn, dealer, deck.drop_last(), true, first)
                }
            }
        },
        Action::Surrender => Some(
            Outcome {
                result: GameResult::Surrender,
                player,
                dealer,
                deck,
                doubled: false,
                first: Some(first),
                player_bust: false,
                dealer_bust: false,
            },
        ),
        Action::Split => dealer_stage(player, dealer, deck, false, first),
        _ => match player_plays(strategy, player, dealer[0], deck) {
            None => None,
            Some(seat) => if seat.bust {
                Some(
                    Outcome {
                        result: GameResult::DealerWin,
                        player: seat.hand,
                        dealer,
                        deck: seat.deck,
                        doubled: false,
                        first: Some(first),
                        player_bust: true,
                        dealer_bust: false,
                    },
                )
            } else {
                dealer_stage(seat.hand, dealer, seat.deck, false, first)
            },
        },
    }
}

/// A round dealt from the end of `deck`: the last card and the third
/// from the end to the player, the second and the fourth from the end to
/// the dealer, whose first card is the upcard. Two naturals push, the
/// dealer's alone wins for the dealer, the player's alone is a
/// blackjack; else the player decides. There is no outcome where the
/// deck runs out.
pub open spec fn round_from<S: PlayStrategy>(strategy: &S, deck: Seq<Card>) -> Option<Outcome> {
    if deck.len() < 4 {
        None
    } else {
        let n = deck.len() as int;
        let player = seq![deck[n - 1], deck[n - 3]];
        let dealer = seq![deck[n - 2], deck[n - 4]];
        let rest = deck.take(n - 4);
        if natural(player) || natural(dealer) {
            Some(
                Outcome {
                    result: if natural(player) && natural(dealer) {
                        GameResult::Push
                    } else if natural(dealer) {
                        GameResult::DealerWin
                    } else {
                        GameResult::PlayerBlackjack
                    },
                    player,
                    dealer,
                    deck: rest,
                    doubled: false,
                    first: None,
                    player_bust: false,
                    dealer_bust: false,
                },
            )
        } else {
            after_naturals(strategy, player, dealer, rest)
        }
    }
}

/// The deck that a round is dealt from: the deck as it stands, or the
/// cards of a new shoe of six packs in some order where fewer than 15
/// cards were left.
pub open spec fn shoe_for_round(before: Seq<Card>, shoe: Seq<Card>) -> bool {
    if before.len() < RESHUFFLE_BELOW {
        shoe.to_multiset() == fresh_shoe(SHOE_PACKS as nat).to_multiset()
    } else {
        shoe == before
    }
}

/// A round that finds fewer than 15 cards is dealt from a whole new
/// shoe: 312 cards, 24 of each rank and 78 of each suit, in some order.
/// Any other round is dealt from the deck as it stands.
pub proof fn lemma_short_deck_gets_new_shoe(before: Seq<Card>, shoe: Seq<Card>)
    requires
        shoe_for_round(before, shoe),
    ensures
        before.len() >= 15 ==> shoe == before,
        before.len() < 15 ==> {
            &&& shoe.len() == 312
            &&& forall|rank: u8| 1 <= rank <= 13 ==> #[trigger] rank_count(shoe, rank) == 24
            &&& forall|suit: Suit| #[trigger] suit_count(shoe, suit) == 78
        },
{
    if before.len() < 15 {
        lemma_shoe_composition(shoe, SHOE_PACKS as nat);
    }
}

/// The dealer's turn ends at 17 or more, and it ends over 21 after a
/// draw exactly where it ends as a bust. The dealer's cards stay in
/// front, and before every card that was drawn the total was below 17.
pub proof fn lemma_dealer_stops(hand: Seq<Card>, deck: Seq<Card>)
    ensures
        match dealer_plays(hand, deck) {
            None => true,
            Some(seat) => {
                &&& total_of(seat.hand) >= 17
                &&& seat.bust <==> seat.hand.len() > hand.len() && total_of(seat.hand) > 21
                &&& total_of(hand) >= 17 ==> seat.hand == hand && seat.deck == deck
                &&& hand.len() <= seat.hand.len()
                &&& seat.hand.take(hand.len() as int) == hand
                &&& forall|k: int|
                    hand.len() <= k < seat.hand.len() ==> total_of(#[trigger] seat.hand.take(k))
                        < 17
            },
        },
    decreases deck.len(),
{
    if total_of(hand) < 17 && deck.len() > 0 {
        let drawn = hand.push(deck.last());
        assert(drawn.take(hand.len() as int) =~= hand);
        if total_of(drawn) > 21 {
            assert forall|k: int| hand.len() <= k < drawn.len() implies total_of(
                #[trigger] drawn.take(k),
            ) < 17 by {
                assert(k == hand.len());
            }
        } else {
            lemma_dealer_stops(drawn, deck.drop_last());
            let seat = dealer_plays(drawn, deck.drop_last())->0;
            if dealer_plays(drawn, deck.drop_last()) is Some {
                assert(seat.hand.take(hand.len() as int) =~= seat.hand.take(
                    drawn.len() as int,
                ).take(hand.len() as int));
            }
        }
    } else if total_of(hand) >= 17 {
        assert(hand.take(hand.len() as int) =~= hand);
    }
}

/// Draws the card at the end of the deck into the hand.
pub fn draw(hand: &mut Hand, deck: &mut Deck) -> (r: Result<(), RoundError>)
    ensures
        final(hand).doubled == old(hand).doubled,
        final(hand).split == old(hand).split,
        final(hand).first_action == old(hand).first_action,
        final(hand).live == old(hand).live,
        old(deck)@.len() > 0 ==> r is Ok && final(hand)@ == old(hand)@.push(old(deck)@.last())
            && final(deck)@ == old(deck)@.drop_last(),
        old(deck)@.len() == 0 ==> r is Err && final(hand)@ == old(hand)@ && final(deck)@ == old(deck)@,
{
    match deck.deal_card() {
        Some(card) => {
            hand.add_card(card);
            Ok(())
        },
        None => Err(RoundError::EmptyDeck),
    }
}

/// Plays the player's turn after the first decision. Returns whether
/// the hand went over 21; the hand is no longer live then, nor after it
/// stood.
pub fn player_turn<S: PlayStrategy>(
    strategy: &S,
    hand: &mut Hand,
    upcard: &Card,
    deck: &mut Deck,
) -> (r: Result<bool, RoundError>)
    ensures
        final(hand).doubled == old(hand).doubled,
        final(hand).split == old(hand).split,
        final(hand).first_action == old(hand).first_action,
        old(hand)@.len() <= final(hand)@.len(),
        final(hand)@.take(old(hand)@.len() as int) == old(hand)@,
        match player_plays(strategy, old(hand)@, *upcard, old(deck)@) {
            None => r is Err && final(deck)@.len() == 0,
            Some(seat) => r == Ok::<bool, RoundError>(seat.bust) && final(hand)@ == seat.hand
                && final(deck)@ == seat.deck && !final(hand).live,
        },
{
    assert(hand@.take(hand@.len() as int) =~= hand@);
    loop
        invariant
            player_plays(strategy, hand@, *upcard, deck@) == player_plays(
                strategy,
                old(hand)@,
                *upcard,
                old(deck)@,
            ),
            hand.doubled == old(hand).doubled,
            hand.split == old(hand).split,
            hand.first_action == old(hand).first_action,
            old(hand)@.len() <= hand@.len(),
            hand@.take(old(hand)@.len() as int) == old(hand)@,
        decreases deck@.len(),
    {
        let ghost before = hand@;
        let action = strategy.determine_action(hand, upcard);
        match action {
            Action::Hit => {
                match draw(hand, deck) {
                    Err(e) => {
                        return Err(e);
                    },
                    Ok(_) => {},
                }
                assert(hand@.take(old(hand)@.len() as int) =~= before.take(
                    old(hand)@.len() as int,
                ));
                if hand.is_busted() {
                    hand.live = false;
                    return Ok(true);
                }
            },
            _ => {
                hand.live = false;
                return Ok(false);
            },
        }
    }
}

/// Plays the dealer's turn: the dealer draws below 17 and stands at 17
/// or more, whatever the aces count. Returns whether a card took the
/// hand over 21.
pub fn dealer_turn(hand: &mut Hand, deck: &mut Deck) -> (r: Result<bool, RoundError>)
    ensures
        final(hand).doubled == old(hand).doubled,
        final(hand).split == old(hand).split,
        final(hand).first_action == old(hand).first_action,
        final(hand).live == old(hand).live,
        old(hand)@.len() <= final(hand)@.len(),
        final(hand)@.take(old(hand)@.len() as int) == old(hand)@,
        match dealer_plays(old(hand)@, old(deck)@) {
            None => r is Err && final(deck)@.len() == 0,
            Some(seat) => r == Ok::<bool, RoundError>(seat.bust) && final(hand)@ == seat.hand
                && final(deck)@ == seat.deck,
        },
        r is Ok ==> total_of(final(hand)@) >= 17,
        r == Ok::<bool, RoundError>(true) <==> r is Ok && final(hand)@.len() > old(hand)@.len()
            && total_of(final(hand)@) > 21,
{
    assert(hand@.take(hand@.len() as int) =~= hand@);
    while hand.total() < 17
        invariant
            dealer_plays(hand@, deck@) == dealer_plays(old(hand)@, old(deck)@),
            hand.doubled == old(hand).doubled,
            hand.split == old(hand).split,
            hand.first_action == old(hand).first_action,
            hand.live == old(hand).live,
            old(hand)@.len() <= hand@.len(),
            hand@.take(old(hand)@.len() as int) == old(hand)@,
            hand@.len() > old(hand)@.len() ==> total_of(hand@) <= 21,
        decreases deck@.len(),
    {
        let ghost before = hand@;
        match draw(hand, deck) {
            Err(e) => {
                return Err(e);
            },
            Ok(_) => {},
        }
        assert(hand@.take(old(hand)@.len() as int) =~= before.take(old(hand)@.len() as int));
        if hand.is_busted() {
            return Ok(true);
        }
    }
    Ok(false)
}

/// The report of game number `game` says what the outcome says, its
/// log is the account of the round, and the flags of the hands are
/// those of the path that the round took: the player's hand is live
/// only after a round that naturals ended, and its first decision is
/// still pending only there and after a surrender.
pub open spec fn reports(report: RoundReport, o: Outcome, game: u32) -> bool {
    &&& report.result == o.result
    &&& report.log@ == round_text(
        game,
        o.result,
        o.player,
        o.dealer,
        o.first,
        o.player_bust,
        o.dealer_bust,
    )
    &&& report.player@ == o.player
    &&& report.dealer@ == o.dealer
    &&& report.first_action == o.first
    &&& report.player.doubled == o.doubled
    &&& !report.player.split
    &&& report.player.live == (o.first is None)
    &&& report.player.first_action == (o.first is None || o.first == Some(Action::Surrender))
    &&& !report.dealer.doubled
    &&& !report.dealer.split
    &&& report.dealer.first_action
    &&& report.dealer.live
}

/// A session: the accounts, the shoe and the strategy that plays.
pub struct RoundEngine<S: PlayStrategy> {
    pub stats: SessionStats,
    pub deck: Deck,
    pub strategy: S,
}

/// What a round dealt from `shoe` does to a session and hands back.
/// Where the round has an outcome, it is reported, the deck is what the
/// outcome leaves, and the accounts take the result once. Where the deck
/// runs out, the round fails, the accounts are untouched and the deck is
/// empty. The strategy stays.
pub open spec fn round_played<S: PlayStrategy>(
    before: RoundEngine<S>,
    shoe: Seq<Card>,
    r: Result<RoundReport, RoundError>,
    after: RoundEngine<S>,
) -> bool {
    &&& after.strategy == before.strategy
    &&& match round_from(&before.strategy, shoe) {
        None => r is Err && after.stats == before.stats && after.deck@.len() == 0,
        Some(o) => r is Ok && reports(r->Ok_0, o, after.stats.games_played) && after.deck@
            == o.deck && after.stats == before.stats.after_round(o.result),
    }
}

/// One round takes the session from `before` to `after` and hands back
/// `report`: it is dealt from the deck that `before` has ready for it
/// and has an outcome.
pub open spec fn round_step<S: PlayStrategy>(
    before: RoundEngine<S>,
    after: RoundEngine<S>,
    report: RoundReport,
) -> bool {
    exists|shoe: Seq<Card>| #[trigger]
        shoe_for_round(before.deck@, shoe) && round_played(
            before,
            shoe,
            Ok::<RoundReport, RoundError>(report),
            after,
        )
}

/// A round from `before` runs out of cards and leaves `after`: the
/// accounts as they were and an empty deck.
pub open spec fn round_fails<S: PlayStrategy>(before: RoundEngine<S>, after: RoundEngine<S>) -> bool {
    exists|shoe: Seq<Card>| #[trigger]
        shoe_for_round(before.deck@, shoe) && round_from(&before.strategy, shoe) is None
            && after.strategy == before.strategy && after.stats == before.stats
            && after.deck@.len() == 0
}

/// Rounds in a row take the session from `before` to `after` and hand
/// back `reports`, one for each round in turn; each round is begun with
/// a bankroll that covers the bet.
pub open spec fn rounds_reach<S: PlayStrategy>(
    before: RoundEngine<S>,
    after: RoundEngine<S>,
    reports: Seq<RoundReport>,
) -> bool
    decreases reports.len(),
{
    if reports.len() == 0 {
        after == before
    } else {
        exists|mid: RoundEngine<S>|
            rounds_reach(before, mid, reports.drop_last()) && mid.stats.bankroll >= 2
                * mid.stats.bet_amount && #[trigger] round_step(mid, after, reports.last())
    }
}

/// A round that follows others makes one more of them.
pub proof fn lemma_rounds_extend<S: PlayStrategy>(
    before: RoundEngine<S>,
    mid: RoundEngine<S>,
    after: RoundEngine<S>,
    reports: Seq<RoundReport>,
    report: RoundReport,
)
    requires
        rounds_reach(before, mid, reports),
        mid.stats.bankroll >= 2 * mid.stats.bet_amount,
        round_step(mid, after, report),
    ensures
        rounds_reach(before, after, reports.push(report)),
{
    let all = reports.push(report);
    assert(all.drop_last() =~= reports);
    assert(all.last() == report);
    assert(round_step(mid, after, all.last()));
}

impl<S: PlayStrategy> RoundEngine<S> {
    /// A new session: the first accounts and a shuffled shoe of six
    /// packs, 312 cards.
    pub fn new(strategy: S) -> (engine: Self)
        ensures
            engine.stats == SessionStats::initial(),
            engine.strategy == strategy,
            engine.deck@.to_multiset() == fresh_shoe(SHOE_PACKS as nat).to_multiset(),
            engine.deck@.len() == 312,
    {
        let mut deck = Deck::new(SHOE_PACKS);
        deck.shuffle();
        RoundEngine { stats: SessionStats::new(), deck, strategy }
    }

    /// Enters the result in the accounts and makes the report, with
    /// the account of the round under the number of the game.
    fn conclude(
        &mut self,
        result: GameResult,
        player: Hand,
        dealer: Hand,
        first_action: Option<Action>,
        player_bust: bool,
        dealer_bust: bool,
    ) -> (r: Result<RoundReport, RoundError>)
        requires
            old(self).stats.wf(),
            old(self).stats.has_room(),
            player@.len() >= 2,
            dealer@.len() >= 1,
        ensures
            r is Ok,
            r->Ok_0.result == result,
            r->Ok_0.player == player,
            r->Ok_0.dealer == dealer,
            r->Ok_0.first_action == first_action,
            r->Ok_0.log@ == round_text(
                final(self).stats.games_played,
                result,
                player@,
                dealer@,
                first_action,
                player_bust,
                dealer_bust,
            ),
            final(self).stats == old(self).stats.after_round(result),
            final(self).deck == old(self).deck,
            final(self).strategy == old(self).strategy,
    {
        self.stats.record(result);
        let log = describe_round(
            self.stats.games_played,
            result,
            &player,
            &dealer,
            first_action,
            player_bust,
            dealer_bust,
        );
        Ok(RoundReport { result, player, dealer, first_action, log })
    }

    /// Puts a new shuffled shoe of six packs in place of a deck with
    /// fewer than 15 cards, and leaves any other deck as it is.
    pub fn ready_shoe(&mut self)
        ensures
            shoe_for_round(old(self).deck@, final(self).deck@),
            final(self).stats == old(self).stats,
            final(self).strategy == old(self).strategy,
    {
        if self.deck.remaining() < RESHUFFLE_BELOW {
            let mut deck = Deck::new(SHOE_PACKS);
            deck.shuffle();
            self.deck = deck;
        }
    }

    /// Plays one round from the deck as it stands: deals, looks for
    /// naturals, lets the strategy play the player's hand, plays the
    /// dealer's, and enters the result. The round is the one that
    /// `round_from` describes for this strategy and this deck.
    pub fn play_dealt_round(&mut self) -> (r: Result<RoundReport, RoundError>)
        requires
            old(self).stats.wf(),
            old(self).stats.has_room(),
        ensures
            round_played(*old(self), old(self).deck@, r, *final(self)),
    {
        let ghost shoe = self.deck@;
        let mut player = Hand::new();
        let mut dealer = Hand::new();
        match draw(&mut player, &mut self.deck) {
            Err(e) => {
                return Err(e);
            },
            Ok(_) => {},
        }
        match draw(&mut dealer, &mut self.deck) {
            Err(e) => {
                return Err(e);
            },
            Ok(_) => {},
        }
        match draw(&mut player, &mut self.deck) {
            Err(e) => {
                return Err(e);
            },
            Ok(_) => {},
        }
        match draw(&mut dealer, &mut self.deck) {
            Err(e) => {
                return Err(e);
            },
            Ok(_) => {},
        }
        proof {
            let n = shoe.len() as int;
            assert(player@ =~= seq![shoe[n - 1], shoe[n - 3]]);
            assert(dealer@ =~= seq![shoe[n - 2], shoe[n - 4]]);
            assert(self.deck@ =~= shoe.take(n - 4));
        }
        let player_natural = player.is_blackjack();
        let dealer_natural = dealer.is_blackjack();
        if player_natural && dealer_natural {
            return self.conclude(GameResult::Push, player, dealer, None, false, false);
        } else if dealer_natural {
            return self.conclude(GameResult::DealerWin, player, dealer, None, false, false);
        } else if player_natural {
            return self.conclude(
                GameResult::PlayerBlackjack,
                player,
                dealer,
                None,
                false,
                false,
            );
        }
        let upcard = dealer.cards[0];
        let first = self.strategy.determine_first_action(&player, &upcard);
        match first {
            Action::DoubleDown => {
                match draw(&mut player, &mut self.deck) {
                    Err(e) => {
                        return Err(e);
                    },
                    Ok(_) => {},
                }
                player.doubled = true;
                player.live = false;
                player.first_action = false;
                if player.is_busted() {
                    return self.conclude(
                        GameResult::DoubledLose,
                        player,
                        dealer,
                        Some(first),
                        true,
                        false,
                    );
                }
            },
            Action::Surrender => {
                player.live = false;
                return self.conclude(
                    GameResult::Surrender,
                    player,
                    dealer,
                    Some(first),
                    false,
                    false,
                );
            },
            Action::Split => {
                player.live = false;
                player.first_action = false;
            },
            _ => {
                player.first_action = false;
                match player_turn(&self.strategy, &mut player, &upcard, &mut self.deck) {
                    Err(e) => {
                        return Err(e);
                    },
                    Ok(bust) => {
                        if bust {
                            return self.conclude(
                                GameResult::DealerWin,
                                player,
                                dealer,
                                Some(first),
                                true,
                                false,
                            );
                        }
                    },
                }
            },
        }
        match dealer_turn(&mut dealer, &mut self.deck) {
            Err(e) => {
                return Err(e);
            },
            Ok(bust) => {
                if bust {
                    return self.conclude(
                        GameResult::PlayerWin,
                        player,
                        dealer,
                        Some(first),
                        false,
                        true,
                    );
                }
            },
        }
        let player_total = player.total();
        let dealer_total = dealer.total();
        let result = if player_total > dealer_total {
            if player.doubled {
                GameResult::DoubledWin
            } else {
                GameResult::PlayerWin
            }
        } else if player_total < dealer_total {
            if player.doubled {
                GameResult::DoubledLose
            } else {
                GameResult::DealerWin
            }
        } else {
            GameResult::Push
        };
        self.conclude(result, player, dealer, Some(first), false, false)
    }

    /// Plays one round. A deck with fewer than 15 cards is first
    /// replaced by a new shuffled shoe of 312 cards, before any card is
    /// dealt; the round is then the one that `round_from` describes for
    /// the deck it starts from.
    pub fn play_round(&mut self) -> (r: Result<RoundReport, RoundError>)
        requires
            old(self).stats.wf(),
            old(self).stats.has_room(),
        ensures
            exists|shoe: Seq<Card>| #[trigger]
                shoe_for_round(old(self).deck@, shoe) && round_played(
                    *old(self),
                    shoe,
                    r,
                    *final(self),
                ),
            final(self).stats.wf(),
            r is Ok ==> final(self).stats.games_played == old(self).stats.games_played + 1,
            r is Err ==> final(self).stats == old(self).stats,
    {
        self.ready_shoe();
        let ghost shoe = self.deck@;
        let r = self.play_dealt_round();
        proof {
            assert(shoe_for_round(old(self).deck@, shoe));
        }
        r
    }

    /// Plays up to `n` rounds, and stops before a round that the
    /// bankroll does not cover. Returns the reports of the rounds
    /// played: fewer than `n` only where the bankroll is below the bet.
    /// The rounds follow one another as `rounds_reach` says; where one
    /// runs out of cards, the rounds before it stand.
    pub fn play_n_rounds(&mut self, n: u32) -> (r: Result<Vec<RoundReport>, RoundError>)
        requires
            old(self).stats.wf(),
            old(self).stats.games_played + n <= u32::MAX,
            i64::MIN + MAX_SWING * n <= old(self).stats.bankroll <= i64::MAX - MAX_SWING * n,
        ensures
            final(self).stats.wf(),
            final(self).strategy == old(self).strategy,
            match r {
                Ok(reports) => {
                    &&& reports@.len() <= n
                    &&& rounds_reach(*old(self), *final(self), reports@)
                    &&& reports@.len() < n ==> final(self).stats.bankroll < 2 * final(self).stats.bet_amount
                    &&& final(self).stats.games_played == old(self).stats.games_played
                        + reports@.len()
                    &&& old(self).stats.bankroll - MAX_SWING * reports@.len() <= final(self).stats.bankroll <= old(self).stats.bankroll + MAX_SWING * reports@.len()
                },
                Err(_) => exists|done: Seq<RoundReport>, mid: RoundEngine<S>|
                    done.len() < n && #[trigger] rounds_reach(*old(self), mid, done)
                        && mid.stats.bankroll >= 2 * mid.stats.bet_amount && round_fails(
                        mid,
                        *final(self),
                    ),
            },
    {
        let mut reports: Vec<RoundReport> = Vec::new();
        let mut played: u32 = 0;
        while played < n
            invariant
                played <= n,
                played == reports@.len(),
                self.stats.wf(),
                self.strategy == old(self).strategy,
                old(self).stats.games_played + n <= u32::MAX,
                i64::MIN + MAX_SWING * n <= old(self).stats.bankroll <= i64::MAX - MAX_SWING * n,
                self.stats.games_played == old(self).stats.games_played + played,
                rounds_reach(*old(self), *self, reports@),
                old(self).stats.bankroll - MAX_SWING * played <= self.stats.bankroll <= old(self).stats.bankroll + MAX_SWING * played,
            decreases n - played,
        {
            if !self.stats.can_play() {
                return Ok(reports);
            }
            let ghost mid = *self;
            match self.play_round() {
                Err(e) => {
                    assert(round_fails(mid, *self));
                    return Err(e);
                },
                Ok(report) => {
                    proof {
                        assert(round_step(mid, *self, report));
                        lemma_rounds_extend(*old(self), mid, *self, reports@, report);
                    }
                    reports.push(report);
                },
            }
            played += 1;
        }
        Ok(reports)
    }

    /// Starts the accounts over. The deck is not touched.
    pub fn reset_session(&mut self)
        ensures
            final(self).stats == (SessionStats {
                bet_amount: old(self).stats.bet_amount,
                ..SessionStats::initial()
            }),
            final(self).deck == old(self).deck,
            final(self).strategy == old(self).strategy,
    {
        self.stats.reset();
    }
}

} // verus!
