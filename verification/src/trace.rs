//! The account of a round in words, line by line.

use vstd::prelude::*;
use vstd::string::*;
use crate::card::{Card, decimal, decimal_label};
use crate::hand::{Hand, display_of, total_of};
use crate::stats::GameResult;
use crate::strategy::Action;

verus! {

/// The total of the cards, in brackets, and the end of the line.
pub open spec fn total_note(cards: Seq<Card>) -> Seq<char> {
    " (Total: "@ + decimal_label(total_of(cards)) + ")\n"@
}

/// A line that shows cards under a title, with their total.
pub open spec fn hand_line(title: Seq<char>, cards: Seq<Card>) -> Seq<char> {
    title + display_of(cards) + total_note(cards)
}

/// The line that shows the dealer's upcard.
pub open spec fn upcard_line(upcard: Card) -> Seq<char> {
    "Dealer shows: "@ + upcard.label() + "\n"@
}

/// A line for every card among the first `upto` that came after the
/// two that were dealt: the card, and the total that it made.
pub open spec fn draw_lines(lead: Seq<char>, cards: Seq<Card>, upto: nat) -> Seq<char>
    decreases upto,
{
    if upto <= 2 {
        Seq::empty()
    } else {
        draw_lines(lead, cards, (upto - 1) as nat) + lead + cards[upto - 1].label() + total_note(
            cards.take(upto as int),
        )
    }
}

/// The line on who won when both hands stood.
pub open spec fn verdict_line(result: GameResult) -> Seq<char> {
    match result {
        GameResult::PlayerWin | GameResult::DoubledWin => "Player wins!\n"@,
        GameResult::DealerWin | GameResult::DoubledLose => "Dealer wins!\n"@,
        _ => "Push!\n"@,
    }
}

/// The player's part of a round that naturals did not end.
pub open spec fn player_lines(first: Action, cards: Seq<Card>, bust: bool) -> Seq<char> {
    match first {
        Action::DoubleDown => draw_lines("Player doubles down: "@, cards, cards.len()) + if bust {
            "Player busts!\n"@
        } else {
            Seq::empty()
        },
        Action::Surrender => "Player surrenders.\n"@,
        Action::Split =>
            "Player chooses to split, but splitting is not implemented. Player stands.\n"@,
        _ => "Player chooses to hit or stand.\n"@ + draw_lines("Player hits: "@, cards, cards.len())
            + if bust {
            "Player busts!\n"@
        } else {
            "Player stands.\n"@
        },
    }
}

/// The dealer's part of a round in which the player stood.
pub open spec fn dealer_lines(result: GameResult, cards: Seq<Card>, bust: bool) -> Seq<char> {
    draw_lines("Dealer hits: "@, cards, cards.len()) + if bust {
        "Dealer busts!\n"@
    } else {
        "Dealer stands.\n"@ + hand_line("Dealer's hand: "@, cards) + verdict_line(result)
    }
}

/// The head of every account: the number of the game and the two
/// cards that the player was dealt.
pub open spec fn opening_lines(game: u32, player: Seq<Card>) -> Seq<char> {
    "*** Game "@ + decimal_label(game as nat) + " ***\n"@ + hand_line(
        "Player's hand: "@,
        player.take(2),
    )
}

/// The account of a round. One that naturals ended shows the hands and
/// says who had the blackjack. Any other shows the upcard and the
/// player's part, and, unless the player went over 21 or surrendered,
/// the dealer's part.
pub open spec fn round_text(
    game: u32,
    result: GameResult,
    player: Seq<Card>,
    dealer: Seq<Card>,
    first: Option<Action>,
    player_bust: bool,
    dealer_bust: bool,
) -> Seq<char>
    recommends
        player.len() >= 2,
        dealer.len() >= 1,
{
    match first {
        None => match result {
            GameResult::PlayerBlackjack => opening_lines(game, player) + upcard_line(dealer[0])
                + "Blackjack! Player wins!\n"@,
            GameResult::DealerWin => opening_lines(game, player) + hand_line(
                "Dealer's hand: "@,
                dealer,
            ) + "Blackjack! Dealer wins!\n"@,
            _ => opening_lines(game, player) + hand_line("Dealer's hand: "@, dealer)
                + "Both have Blackjack! Push!\n"@,
        },
        Some(action) => opening_lines(game, player) + upcard_line(dealer[0]) + player_lines(
            action,
            player,
            player_bust,
        ) + if player_bust || action == Action::Surrender {
            Seq::empty()
        } else {
            dealer_lines(result, dealer, dealer_bust)
        },
    }
}

/// The first `n` cards of a hand, as a hand of their own.
fn first_cards(hand: &Hand, n: usize) -> (shown: Hand)
    requires
        n <= hand@.len(),
    ensures
        shown@ == hand@.take(n as int),
{
    let mut shown = Hand::new();
    let mut i: usize = 0;
    while i < n
        invariant
            i <= n <= hand@.len(),
            shown@ == hand@.take(i as int),
        decreases n - i,
    {
        shown.add_card(hand.cards[i]);
        assert(hand@.take(i as int).push(hand@[i as int]) =~= hand@.take(i + 1));
        i += 1;
    }
    shown
}

/// Writes the total of a hand in brackets, and the end of the line.
fn write_total_note(hand: &Hand) -> (s: String)
    ensures
        s@ == total_note(hand@),
{
    let mut s = String::from_str(" (Total: ");
    s.append(decimal(hand.total()).as_str());
    s.append(")\n");
    s
}

/// Writes a hand under a title, with its total.
fn write_hand_line(title: &str, hand: &Hand) -> (s: String)
    ensures
        s@ == hand_line(title@, hand@),
{
    let mut s = String::from_str(title);
    s.append(hand.display().as_str());
    s.append(write_total_note(hand).as_str());
    s
}

/// Writes the line that shows the dealer's upcard.
fn write_upcard_line(upcard: &Card) -> (s: String)
    ensures
        s@ == upcard_line(*upcard),
{
    let mut s = String::from_str("Dealer shows: ");
    s.append(upcard.name().as_str());
    s.append("\n");
    s
}

/// Writes a line for every card of the hand after the two dealt.
fn write_draw_lines(lead: &str, hand: &Hand) -> (s: String)
    ensures
        s@ == draw_lines(lead@, hand@, hand@.len()),
{
    let mut s = String::new();
    let mut n: usize = 2;
    if hand.cards.len() <= 2 {
        return s;
    }
    while n < hand.cards.len()
        invariant
            2 <= n <= hand@.len(),
            s@ == draw_lines(lead@, hand@, n as nat),
        decreases hand@.len() - n,
    {
        n += 1;
        s.append(lead);
        s.append(hand.cards[n - 1].name().as_str());
        s.append(write_total_note(&first_cards(hand, n)).as_str());
    }
    s
}

/// The line on who won when both hands stood.
fn write_verdict_line(result: GameResult) -> (s: &'static str)
    ensures
        s@ == verdict_line(result),
{
    match result {
        GameResult::PlayerWin | GameResult::DoubledWin => "Player wins!\n",
        GameResult::DealerWin | GameResult::DoubledLose => "Dealer wins!\n",
        _ => "Push!\n",
    }
}

/// Writes the player's part of a round.
fn write_player_lines(first: Action, hand: &Hand, bust: bool) -> (s: String)
    ensures
        s@ == player_lines(first, hand@, bust),
{
    match first {
        Action::DoubleDown => {
            let mut s = write_draw_lines("Player doubles down: ", hand);
            s.append(if bust { "Player busts!\n" } else { "" });
            proof {
                reveal_strlit("");
                assert(""@ =~= Seq::<char>::empty());
            }
            s
        },
        Action::Surrender => String::from_str("Player surrenders.\n"),
        Action::Split => String::from_str(
            "Player chooses to split, but splitting is not implemented. Player stands.\n",
        ),
        _ => {
            let mut s = String::from_str("Player chooses to hit or stand.\n");
            s.append(write_draw_lines("Player hits: ", hand).as_str());
            s.append(if bust { "Player busts!\n" } else { "Player stands.\n" });
            s
        },
    }
}

/// Writes the dealer's part of a round.
fn write_dealer_lines(result: GameResult, hand: &Hand, bust: bool) -> (s: String)
    ensures
        s@ == dealer_lines(result, hand@, bust),
{
    let mut s = write_draw_lines("Dealer hits: ", hand);
    if bust {
        s.append("Dealer busts!\n");
    } else {
        let mut rest = String::from_str("Dealer stands.\n");
        rest.append(write_hand_line("Dealer's hand: ", hand).as_str());
        rest.append(write_verdict_line(result));
        s.append(rest.as_str());
    }
    s
}

/// Writes the head of an account.
fn write_opening_lines(game: u32, player: &Hand) -> (s: String)
    requires
        player@.len() >= 2,
    ensures
        s@ == opening_lines(game, player@),
{
    let mut s = String::from_str("*** Game ");
    s.append(decimal(game as u128).as_str());
    s.append(" ***\n");
    s.append(write_hand_line("Player's hand: ", &first_cards(player, 2)).as_str());
    s
}

/// Writes the account of a round, as `round_text` gives it.
pub fn describe_round(
    game: u32,
    result: GameResult,
    player: &Hand,
    dealer: &Hand,
    first: Option<Action>,
    player_bust: bool,
    dealer_bust: bool,
) -> (s: String)
    requires
        player@.len() >= 2,
        dealer@.len() >= 1,
    ensures
        s@ == round_text(game, result, player@, dealer@, first, player_bust, dealer_bust),
{
    let mut s = write_opening_lines(game, player);
    match first {
        None => {
            match result {
                GameResult::PlayerBlackjack => {
                    s.append(write_upcard_line(&dealer.cards[0]).as_str());
                    s.append("Blackjack! Player wins!\n");
                },
                GameResult::DealerWin => {
                    s.append(write_hand_line("Dealer's hand: ", dealer).as_str());
                    s.append("Blackjack! Dealer wins!\n");
                },
                _ => {
                    s.append(write_hand_line("Dealer's hand: ", dealer).as_str());
                    s.append("Both have Blackjack! Push!\n");
                },
            }
        },
        Some(action) => {
            s.append(write_upcard_line(&dealer.cards[0]).as_str());
            s.append(write_player_lines(action, player, player_bust).as_str());
            if player_bust || action == Action::Surrender {
                assert(s@ + Seq::<char>::empty() =~= s@);
            } else {
                s.append(write_dealer_lines(result, dealer, dealer_bust).as_str());
            }
        },
    }
    s
}

} // verus!
