//! Score, funds, line counts, and bazaar threshold tracking.

use crate::board::LineClearOutcome;
use vstd::prelude::*;

verus! {

/// Combined lines between bazaar entries.
pub const BAZAAR_LINE_THRESHOLD: u32 = 20;

/// Per-player score/economy state owned by the deterministic core.
#[derive(Debug, Clone, Copy, PartialEq, Eq, Structural)]
pub struct PlayerScore {
    score: i32,
    funds: i32,
    lines: u32,
}

impl PlayerScore {
    /// The display score.
    pub closed spec fn score_of(self) -> i32 {
        self.score
    }

    /// The spendable funds.
    pub closed spec fn funds_of(self) -> i32 {
        self.funds
    }

    /// The total lines cleared.
    pub closed spec fn lines_of(self) -> u32 {
        self.lines
    }

    /// Returns the display score.
    #[must_use]
    pub fn score(self) -> (r: i32)
        ensures
            r == self.score_of(),
    {
        self.score
    }

    /// Returns spendable funds.
    #[must_use]
    pub fn funds(self) -> (r: i32)
        ensures
            r == self.funds_of(),
    {
        self.funds
    }

    /// Returns total lines cleared by this player.
    #[must_use]
    pub fn lines(self) -> (r: u32)
        ensures
            r == self.lines_of(),
    {
        self.lines
    }

    /// Adds to display score, used by fast-drop scoring.
    pub fn add_score(&mut self, score_delta: i32)
        requires
            i32::MIN <= old(self).score_of() + score_delta <= i32::MAX,
        ensures
            final(self).score_of() == old(self).score_of() + score_delta,
            final(self).funds_of() == old(self).funds_of(),
            final(self).lines_of() == old(self).lines_of(),
    {
        self.score = self.score + score_delta;
    }

    /// Adds spendable funds. Negative values are allowed for legacy economy effects.
    pub fn add_funds(&mut self, funds_delta: i32)
        requires
            i32::MIN <= old(self).funds_of() + funds_delta <= i32::MAX,
        ensures
            final(self).funds_of() == old(self).funds_of() + funds_delta,
            final(self).score_of() == old(self).score_of(),
            final(self).lines_of() == old(self).lines_of(),
    {
        self.funds = self.funds + funds_delta;
    }

    /// Sets spendable funds after a committed economy transaction.
    pub fn set_funds(&mut self, funds: i32)
        ensures
            final(self).funds_of() == funds,
            final(self).score_of() == old(self).score_of(),
            final(self).lines_of() == old(self).lines_of(),
    {
        self.funds = funds;
    }

    /// Spends funds when enough are available.
    pub fn spend_funds(&mut self, amount: i32) -> (r: bool)
        ensures
            r == (0 <= amount <= old(self).funds_of()),
            r ==> final(self).funds_of() == old(self).funds_of() - amount,
            !r ==> final(self).funds_of() == old(self).funds_of(),
            final(self).score_of() == old(self).score_of(),
            final(self).lines_of() == old(self).lines_of(),
    {
        if amount < 0 || self.funds < amount {
            return false;
        }
        self.funds = self.funds - amount;
        true
    }

    /// Applies a line clear outcome to funds and line count.
    pub fn apply_line_clear(&mut self, outcome: &LineClearOutcome)
        requires
            i32::MIN <= old(self).funds_of() + outcome.funds <= i32::MAX,
            old(self).lines_of() + outcome.lines_cleared <= u32::MAX,
        ensures
            final(self).funds_of() == old(self).funds_of() + outcome.funds,
            final(self).lines_of() == old(self).lines_of() + outcome.lines_cleared,
            final(self).score_of() == old(self).score_of(),
    {
        self.funds = self.funds + outcome.funds;
        self.lines = self.lines + outcome.lines_cleared;
    }
}

impl Default for PlayerScore {
    fn default() -> (r: Self)
        ensures
            r.score_of() == 0,
            r.funds_of() == 0,
            r.lines_of() == 0,
    {
        PlayerScore { score: 0, funds: 0, lines: 0 }
    }
}

/// Lines left until the next bazaar after both players have cleared `combined` lines.
pub open spec fn lines_until_next_bazaar(combined: int) -> int {
    if combined % 20 == 0 {
        20
    } else {
        20 - combined % 20
    }
}

/// Legacy bazaar wrap detector based on both players' cumulative line totals.
#[derive(Debug, Clone, Copy, PartialEq, Eq, Structural)]
pub struct BazaarTracker {
    lines_until_bazaar: u32,
}

impl BazaarTracker {
    /// The lines remaining until the next bazaar.
    pub closed spec fn remaining(self) -> u32 {
        self.lines_until_bazaar
    }

    /// Creates a tracker at the initial legacy threshold.
    #[must_use]
    pub fn new() -> (r: Self)
        ensures
            r.remaining() == 20,
    {
        Self { lines_until_bazaar: BAZAAR_LINE_THRESHOLD }
    }

    /// Returns lines remaining until the next bazaar modulo wrap.
    #[must_use]
    pub fn lines_until_bazaar(self) -> (r: u32)
        ensures
            r == self.remaining(),
    {
        self.lines_until_bazaar
    }

    /// Observes cumulative player line totals and returns true when the threshold wraps:
    /// when the lines left until the next bazaar grow rather than shrink.
    pub fn observe(&mut self, local_lines: u32, opponent_lines: u32) -> (r: bool)
        requires
            local_lines + opponent_lines <= u32::MAX,
        ensures
            final(self).remaining() == lines_until_next_bazaar(local_lines + opponent_lines),
            r == (final(self).remaining() > old(self).remaining()),
    {
        let combined = local_lines + opponent_lines;
        let remainder = combined % BAZAAR_LINE_THRESHOLD;
        let next = if remainder == 0 {
            BAZAAR_LINE_THRESHOLD
        } else {
            BAZAAR_LINE_THRESHOLD - remainder
        };
        let triggered = next > self.lines_until_bazaar;
        self.lines_until_bazaar = next;
        triggered
    }
}

impl Default for BazaarTracker {
    fn default() -> (r: Self)
        ensures
            r.remaining() == 20,
    {
        Self::new()
    }
}

/// The lines left until a bazaar always lie in `1..=20`.
pub proof fn lemma_bazaar_countdown_range(combined: int)
    requires
        combined >= 0,
    ensures
        1 <= lines_until_next_bazaar(combined) <= 20,
{
}

} // verus!
