//! Results, payouts and the session's accounts.
//!
//! Money is counted in halves of the unit in which the bet is stated, so
//! that the payout of a blackjack, three halves of the bet, and the loss
//! of a surrender, half the bet, are whole numbers.

use vstd::prelude::*;

verus! {

/// How a round ended.
#[derive(Debug, Clone, Copy, PartialEq, Eq, Structural)]
pub enum GameResult {
    PlayerWin,
    DealerWin,
    Push,
    PlayerBlackjack,
    Surrender,
    DoubledWin,
    DoubledLose,
}

/// The bet of every round, in units.
pub const FIXED_BET: u32 = 10;

/// The bankroll at the start of a session, in half units: 1000 units.
pub const INITIAL_BANKROLL: i64 = 2000;

/// The most a round can win or lose, in half units: twice the bet.
pub const MAX_SWING: i64 = 40;

/// What a result pays, in halves of the bet: a win pays the bet, a
/// blackjack three halves of it, a doubled win twice the bet; a loss
/// takes as much, a surrender half the bet, a push nothing.
pub open spec fn payout_halves(result: GameResult) -> int {
    match result {
        GameResult::PlayerWin => 2,
        GameResult::DealerWin => -2,
        GameResult::Push => 0,
        GameResult::PlayerBlackjack => 3,
        GameResult::Surrender => -1,
        GameResult::DoubledWin => 4,
        GameResult::DoubledLose => -4,
    }
}

/// The change of the bankroll, in half units, for a result at a bet
/// given in units.
pub open spec fn payout_of(result: GameResult, bet: u32) -> int {
    payout_halves(result) * bet
}

/// The results that count as a win of the player.
pub open spec fn is_win(result: GameResult) -> bool {
    result == GameResult::PlayerWin || result == GameResult::PlayerBlackjack || result
        == GameResult::DoubledWin
}

/// The results that count as a loss of the player.
pub open spec fn is_loss(result: GameResult) -> bool {
    result == GameResult::DealerWin || result == GameResult::Surrender || result
        == GameResult::DoubledLose
}

/// The change of the bankroll for a result, in half units. It depends
/// on the result and the bet alone.
pub fn payout(result: GameResult, bet: u32) -> (delta: i64)
    ensures
        delta == payout_of(result, bet),
{
    let stake: i64 = bet as i64;
    match result {
        GameResult::PlayerWin => 2 * stake,
        GameResult::DealerWin => 0 - 2 * stake,
        GameResult::Push => 0,
        GameResult::PlayerBlackjack => 3 * stake,
        GameResult::Surrender => 0 - stake,
        GameResult::DoubledWin => 4 * stake,
        GameResult::DoubledLose => 0 - 4 * stake,
    }
}

/// The counters of a session and its money.
#[derive(Debug, Clone, Copy, PartialEq, Eq, Structural)]
pub struct SessionStats {
    pub games_played: u32,
    pub wins: u32,
    pub losses: u32,
    pub pushes: u32,
    /// In half units.
    pub bankroll: i64,
    /// In units.
    pub bet_amount: u32,
    pub last_result: Option<GameResult>,
}

impl SessionStats {
    /// Every round that was played is counted as one win, one loss or
    /// one push.
    pub open spec fn wf(&self) -> bool {
        self.wins + self.losses + self.pushes == self.games_played
    }

    /// The counters and the bankroll can take one more round at the
    /// fixed bet.
    pub open spec fn has_room(&self) -> bool {
        &&& self.games_played < u32::MAX
        &&& i64::MIN + MAX_SWING <= self.bankroll <= i64::MAX - MAX_SWING
    }

    /// The accounts at the start of a session.
    pub open spec fn initial() -> SessionStats {
        SessionStats {
            games_played: 0,
            wins: 0,
            losses: 0,
            pushes: 0,
            bankroll: INITIAL_BANKROLL,
            bet_amount: FIXED_BET,
            last_result: None,
        }
    }

    /// The accounts after a round at the fixed bet that ended in
    /// `result`: one more game, one more win, loss or push, the payout
    /// added to the bankroll, and the result kept as the last one.
    pub open spec fn after_round(self, result: GameResult) -> SessionStats {
        SessionStats {
            games_played: (self.games_played + 1) as u32,
            wins: if is_win(result) {
                (self.wins + 1) as u32
            } else {
                self.wins
            },
            losses: if is_loss(result) {
                (self.losses + 1) as u32
            } else {
                self.losses
            },
            pushes: if result == GameResult::Push {
                (self.pushes + 1) as u32
            } else {
                self.pushes
            },
            bankroll: (self.bankroll + payout_of(result, FIXED_BET)) as i64,
            bet_amount: FIXED_BET,
            last_result: Some(result),
        }
    }

    /// The accounts of a new session: no game played, 1000 units in
    /// the bankroll, a bet of 10 units.
    pub fn new() -> (stats: SessionStats)
        ensures
            stats == SessionStats::initial(),
            stats.wf(),
            stats.has_room(),
    {
        SessionStats {
            games_played: 0,
            wins: 0,
            losses: 0,
            pushes: 0,
            bankroll: INITIAL_BANKROLL,
            bet_amount: FIXED_BET,
            last_result: None,
        }
    }

    /// Adds a result's payout at the current bet to the bankroll.
    pub fn pay_bet(&mut self, result: GameResult)
        requires
            i64::MIN <= old(self).bankroll + payout_of(result, old(self).bet_amount) <= i64::MAX,
        ensures
            final(self).bankroll == old(self).bankroll + payout_of(result, old(self).bet_amount),
            *final(self) == (SessionStats { bankroll: final(self).bankroll, ..*old(self) }),
    {
        self.bankroll = self.bankroll + payout(result, self.bet_amount);
    }

    /// Enters a finished round at the fixed bet: the game and its
    /// outcome are counted once, and the payout is applied once.
    pub fn record(&mut self, result: GameResult)
        requires
            old(self).wf(),
            old(self).has_room(),
        ensures
            *final(self) == old(self).after_round(result),
            final(self).wf(),
            final(self).games_played == old(self).games_played + 1,
            final(self).wins + final(self).losses + final(self).pushes == old(self).wins + old(self).losses + old(self).pushes + 1,
            final(self).bankroll == old(self).bankroll + payout_of(result, FIXED_BET),
    {
        self.bet_amount = FIXED_BET;
        self.last_result = Some(result);
        match result {
            GameResult::PlayerWin | GameResult::PlayerBlackjack | GameResult::DoubledWin => {
                self.wins = self.wins + 1;
            },
            GameResult::DealerWin | GameResult::Surrender | GameResult::DoubledLose => {
                self.losses = self.losses + 1;
            },
            GameResult::Push => {
                self.pushes = self.pushes + 1;
            },
        }
        self.games_played = self.games_played + 1;
        self.pay_bet(result);
    }

    /// Starts the accounts over: the counters at zero, the bankroll at
    /// its first value, no last result. The bet stays.
    pub fn reset(&mut self)
        ensures
            *final(self) == (SessionStats {
                bet_amount: old(self).bet_amount,
                ..SessionStats::initial()
            }),
            final(self).wf(),
    {
        self.bankroll = INITIAL_BANKROLL;
        self.games_played = 0;
        self.wins = 0;
        self.losses = 0;
        self.pushes = 0;
        self.last_result = None;
    }

    /// The bankroll covers the bet.
    pub fn can_play(&self) -> (b: bool)
        ensures
            b == (self.bankroll >= 2 * self.bet_amount),
    {
        self.bankroll >= 2 * (self.bet_amount as i64)
    }
}

} // verus!
