//! Player identities, ranked-result rules and the rank formula.
//!
//! The SQLite store that persists profiles lives outside the library; it asks these rules
//! what a completed game changes.

use crate::text::{same_chars, string_from_chars, text_chars, trim_chars, trimmed};
use vstd::prelude::*;

verus! {

/// The legacy starting rank value from `BT_ELO_START`.
pub const STARTING_RANK: u64 = 1200;

/// The rank points one game is worth between equally ranked players.
const AVERAGE_GAME_VALUE: u64 = 5;

/// A SQLite failure, carried through the library's error type.
#[verifier::external_type_specification]
#[verifier::external_body]
pub struct ExSqliteError(rusqlite::Error);

/// Persistence errors surfaced by the player store.
#[derive(Debug)]
pub enum StoreError {
    /// SQLite returned an error.
    Sqlite(rusqlite::Error),
    /// A player id, display name, or community label failed validation.
    InvalidIdentity(String),
    /// The operating system has no supported project directory for BattleTris.
    ProjectDirsUnavailable,
}

/// A Unicode control character (general category Cc).
pub open spec fn is_control(c: char) -> bool {
    c as u32 <= 0x1f || (0x7f <= c as u32 && c as u32 <= 0x9f)
}

/// The number of UTF-8 bytes a character takes.
pub open spec fn utf8_width(c: char) -> nat {
    if (c as u32) < 0x80 {
        1
    } else if (c as u32) < 0x800 {
        2
    } else if (c as u32) < 0x10000 {
        3
    } else {
        4
    }
}

/// The number of UTF-8 bytes a text takes.
pub open spec fn utf8_len(s: Seq<char>) -> nat
    decreases s.len(),
{
    if s.len() == 0 {
        0
    } else {
        utf8_len(s.drop_last()) + utf8_width(s.last())
    }
}

/// Why a label is refused, if it is: empty after trimming, longer than `max_len` bytes, or
/// holding a control character; the message names the label's kind.
pub open spec fn label_fault(kind: Seq<char>, value: Seq<char>, max_len: usize) -> Option<Seq<char>> {
    let t = trimmed(value);
    if t.len() == 0 {
        Some(kind + " cannot be empty"@)
    } else if utf8_len(t) > max_len {
        Some(kind + " exceeds "@ + crate::wire::decimal(max_len as nat) + " bytes"@)
    } else if exists|i: int| 0 <= i < t.len() && is_control(#[trigger] t[i]) {
        Some(kind + " cannot contain control characters"@)
    } else {
        None
    }
}

/// What validating a label gives: the trimmed label, or the refusal naming its kind.
pub open spec fn label_checked(kind: Seq<char>, value: Seq<char>, max_len: usize, r: Result<String, StoreError>) -> bool {
    match label_fault(kind, value, max_len) {
        Some(msg) => r matches Err(StoreError::InvalidIdentity(m)) && m@ == msg,
        None => r matches Ok(s) && s@ == trimmed(value),
    }
}

fn utf8_len_exceeds(t: &Vec<char>, max_len: usize) -> (r: bool)
    requires
        max_len <= 0x10_0000,
    ensures
        r == (utf8_len(t@) > max_len),
{
    let mut total: usize = 0;
    let mut i: usize = 0;
    while i < t.len()
        invariant
            i <= t@.len(),
            max_len <= 0x10_0000,
            total as nat == utf8_len(t@.take(i as int)),
            total <= max_len,
        decreases t@.len() - i,
    {
        let c = t[i];
        let width: usize = if (c as u32) < 0x80 {
            1
        } else if (c as u32) < 0x800 {
            2
        } else if (c as u32) < 0x10000 {
            3
        } else {
            4
        };
        assert(t@.take(i as int + 1).drop_last() =~= t@.take(i as int));
        total = total + width;
        i = i + 1;
        if total > max_len {
            proof {
                lemma_utf8_len_prefix(t@, i as int);
            }
            return true;
        }
    }
    assert(t@.take(t@.len() as int) =~= t@);
    false
}

proof fn lemma_utf8_len_prefix(s: Seq<char>, k: int)
    requires
        0 <= k <= s.len(),
    ensures
        utf8_len(s.take(k)) <= utf8_len(s),
    decreases s.len() - k,
{
    if k < s.len() {
        lemma_utf8_len_prefix(s, k + 1);
        assert(s.take(k + 1).drop_last() =~= s.take(k));
    } else {
        assert(s.take(k) =~= s);
    }
}

fn has_control(t: &Vec<char>) -> (r: bool)
    ensures
        r == exists|i: int| 0 <= i < t@.len() && is_control(#[trigger] t@[i]),
{
    let mut i: usize = 0;
    while i < t.len()
        invariant
            i <= t@.len(),
            forall|j: int| 0 <= j < i ==> !is_control(#[trigger] t@[j]),
        decreases t@.len() - i,
    {
        let c = t[i] as u32;
        if c <= 0x1f || (0x7f <= c && c <= 0x9f) {
            return true;
        }
        i = i + 1;
    }
    false
}

fn validate_label(kind: &str, value: &str, max_len: usize) -> (r: Result<String, StoreError>)
    requires
        max_len <= 0x10_0000,
    ensures
        label_checked(kind@, value@, max_len, r),
{
    proof {
        reveal_strlit(" cannot be empty");
        reveal_strlit(" exceeds ");
        reveal_strlit(" bytes");
        reveal_strlit(" cannot contain control characters");
    }
    let chars = text_chars(value);
    let t = trim_chars(&chars, false);
    if t.len() == 0 {
        let mut msg = string_from_chars(&text_chars(kind));
        msg.append(" cannot be empty");
        return Err(StoreError::InvalidIdentity(msg));
    }
    if utf8_len_exceeds(&t, max_len) {
        let mut msg = string_from_chars(&text_chars(kind));
        msg.append(" exceeds ");
        crate::wire::push_decimal(&mut msg, max_len as u64);
        msg.append(" bytes");
        return Err(StoreError::InvalidIdentity(msg));
    }
    if has_control(&t) {
        let mut msg = string_from_chars(&text_chars(kind));
        msg.append(" cannot contain control characters");
        return Err(StoreError::InvalidIdentity(msg));
    }
    Ok(string_from_chars(&t))
}

/// Validates a display name: trimmed, non-empty, at most 96 UTF-8 bytes, no control
/// characters; gives the trimmed name.
pub fn display_name(value: &str) -> (r: Result<String, StoreError>)
    ensures
        label_checked("display name"@, value@, 96, r),
{
    validate_label("display name", value, 96)
}

/// Stable player identity for fresh-schema records.
#[derive(Debug, Clone, PartialEq, Eq, Hash)]
pub struct PlayerId(String);

impl View for PlayerId {
    type V = Seq<char>;

    closed spec fn view(&self) -> Seq<char> {
        self.0@
    }
}

impl PlayerId {
    /// Creates a validated player id that is independent of Unix login names: the trimmed
    /// text, nonempty, at most 128 bytes, without control characters.
    pub fn new(value: &str) -> (r: Result<Self, StoreError>)
        ensures
            match label_fault("player id"@, value@, 128) {
                Some(msg) => r matches Err(StoreError::InvalidIdentity(m)) && m@ == msg,
                None => r matches Ok(id) && id@ == trimmed(value@),
            },
    {
        match validate_label("player id", value, 128) {
            Ok(s) => Ok(Self(s)),
            Err(e) => Err(e),
        }
    }

    /// Returns the string value stored in the database.
    pub fn as_str(&self) -> (r: &str)
        ensures
            r@ == self@,
    {
        self.0.as_str()
    }
}

/// Ranking scope for a local database, server, or future community deployment.
#[derive(Debug, Clone, PartialEq, Eq, Hash)]
pub struct CommunityLabel(String);

impl View for CommunityLabel {
    type V = Seq<char>;

    closed spec fn view(&self) -> Seq<char> {
        self.0@
    }
}

impl CommunityLabel {
    /// Creates a validated community label: the trimmed text, nonempty, at most 96 bytes,
    /// without control characters.
    pub fn new(value: &str) -> (r: Result<Self, StoreError>)
        ensures
            match label_fault("community label"@, value@, 96) {
                Some(msg) => r matches Err(StoreError::InvalidIdentity(m)) && m@ == msg,
                None => r matches Ok(label) && label@ == trimmed(value@),
            },
    {
        match validate_label("community label", value, 96) {
            Ok(s) => Ok(Self(s)),
            Err(e) => Err(e),
        }
    }

    /// The default V1 local/community scope.
    pub fn local() -> (r: Self)
        ensures
            r@ == "local"@,
    {
        Self(string_from_chars(&text_chars("local")))
    }

    /// Returns the string value stored in the database.
    pub fn as_str(&self) -> (r: &str)
        ensures
            r@ == self@,
    {
        self.0.as_str()
    }

    /// A copy of the label.
    pub fn duplicate(&self) -> (r: Self)
        ensures
            r@ == self@,
    {
        CommunityLabel(self.0.clone())
    }
}

impl PlayerId {
    /// A copy of the id.
    pub fn duplicate(&self) -> (r: Self)
        ensures
            r@ == self@,
    {
        PlayerId(self.0.clone())
    }

    /// Whether two ids are the same text.
    pub fn same(&self, other: &PlayerId) -> (r: bool)
        ensures
            r == (self@ == other@),
    {
        same_chars(&text_chars(self.0.as_str()), &text_chars(other.0.as_str()))
    }
}

/// A player's current win/loss streak type.
#[derive(Debug, Clone, Copy, PartialEq, Eq, Structural)]
pub enum StreakKind {
    /// No ranked result has been recorded yet.
    NoStreak,
    /// Current streak is wins.
    Wins,
    /// Current streak is losses.
    Losses,
}

/// A persisted player profile and ranked statistics snapshot.
#[derive(Debug, Clone, PartialEq, Eq)]
pub struct PlayerProfile {
    /// Stable player id.
    pub player_id: PlayerId,
    /// User-facing name.
    pub display_name: String,
    /// Ranking scope label.
    pub community_label: CommunityLabel,
    /// Current rank value.
    pub rank: u64,
    /// Ranked wins.
    pub wins: u64,
    /// Ranked losses.
    pub losses: u64,
    /// Best score in a ranked game.
    pub high_score: u64,
    /// Best line count in a ranked game.
    pub high_lines: u64,
    /// Best funds value in a ranked game.
    pub high_funds: u64,
    /// Current streak count.
    pub streak_count: u64,
    /// Current streak type.
    pub streak_kind: StreakKind,
    /// Shortest winning game duration, if any.
    pub fastest_kill_secs: Option<u64>,
    /// Shortest losing game duration, if any.
    pub quickest_death_secs: Option<u64>,
    /// Longest ranked game duration, if any.
    pub longest_game_secs: Option<u64>,
}

/// Head-to-head aggregate for one player against one opponent.
#[derive(Debug, Clone, PartialEq, Eq)]
pub struct HeadToHeadRecord {
    /// Player whose perspective this row represents.
    pub player_id: PlayerId,
    /// Opponent id.
    pub opponent_id: PlayerId,
    /// Ranking scope label.
    pub community_label: CommunityLabel,
    /// Wins by `player_id` against `opponent_id`.
    pub wins: u64,
    /// Losses by `player_id` against `opponent_id`.
    pub losses: u64,
}

/// Participant class for a completed game result.
#[derive(Debug, Clone, Copy, PartialEq, Eq, Structural)]
pub enum OpponentKind {
    /// A human-vs-human result eligible for ranked writes.
    Human,
    /// A computer game, which remains unranked.
    Computer,
}

/// Completed game result payload used for ranked updates and history.
#[derive(Debug, Clone, PartialEq, Eq)]
pub struct GameResult {
    /// Ranking scope label.
    pub community_label: CommunityLabel,
    /// Winning player id.
    pub winner_id: PlayerId,
    /// Losing player id.
    pub loser_id: PlayerId,
    /// Winner score.
    pub winner_score: u64,
    /// Winner line count.
    pub winner_lines: u64,
    /// Winner funds.
    pub winner_funds: i64,
    /// Loser score.
    pub loser_score: u64,
    /// Loser line count.
    pub loser_lines: u64,
    /// Loser funds.
    pub loser_funds: i64,
    /// Game duration in seconds.
    pub duration_secs: u64,
    /// Whether the game was intended to be ranked.
    pub ranked: bool,
    /// Opponent class for unranked computer filtering.
    pub opponent_kind: OpponentKind,
}

/// The rank after one ranked game, both ranks taken as at least 1: a winner gains five
/// times the opponent's rank over its own, at least one point; a loser drops five times its
/// rank over the opponent's, falling to 1 when that would reach zero.
pub open spec fn rank_after(old_rank: u64, opponent_rank: u64, won: bool) -> int {
    let own: int = if old_rank < 1 { 1 } else { old_rank as int };
    let other: int = if opponent_rank < 1 { 1 } else { opponent_rank as int };
    if won {
        let gain = 5 * other / own;
        own + if gain < 1 { 1 } else { gain }
    } else {
        let delta = 5 * own / other;
        if delta >= own { 1 } else { own - delta }
    }
}

/// Computes the fresh-schema rank update using the legacy rank concept.
pub fn recompute_rank(old_rank: u64, opponent_rank: u64, won: bool) -> (r: u64)
    requires
        won ==> 5 * (if opponent_rank < 1 { 1 } else { opponent_rank as int }) <= u64::MAX,
        won ==> rank_after(old_rank, opponent_rank, true) <= u64::MAX,
        !won ==> 5 * (if old_rank < 1 { 1 } else { old_rank as int }) <= u64::MAX,
    ensures
        r == rank_after(old_rank, opponent_rank, won),
{
    let old_rank = if old_rank < 1 {
        1
    } else {
        old_rank
    };
    let opponent_rank = if opponent_rank < 1 {
        1
    } else {
        opponent_rank
    };
    if won {
        let gain = AVERAGE_GAME_VALUE * opponent_rank / old_rank;
        old_rank + if gain < 1 {
            1
        } else {
            gain
        }
    } else {
        let delta = AVERAGE_GAME_VALUE * old_rank / opponent_rank;
        if delta >= old_rank {
            1
        } else {
            old_rank - delta
        }
    }
}

/// A win always raises the rank, a loss never raises it, and no rank falls below 1.
pub proof fn lemma_rank_direction(old_rank: u64, opponent_rank: u64)
    ensures
        rank_after(old_rank, opponent_rank, true) > (if old_rank < 1 { 1 } else { old_rank as int }),
        1 <= rank_after(old_rank, opponent_rank, false) <= (if old_rank < 1 { 1 } else { old_rank as int }),
{
    let own: int = if old_rank < 1 { 1 } else { old_rank as int };
    let other: int = if opponent_rank < 1 { 1 } else { opponent_rank as int };
    assert(5 * other / own >= 0) by (nonlinear_arith)
        requires
            own >= 1,
            other >= 1,
    ;
    assert(5 * own / other >= 0) by (nonlinear_arith)
        requires
            own >= 1,
            other >= 1,
    ;
}

/// Whether a completed game changes ranked records: it was meant to be ranked and both
/// players were human.
pub open spec fn counts_as_ranked(result: GameResult) -> bool {
    result.ranked && result.opponent_kind != OpponentKind::Computer
}

/// Whether a completed game changes ranked records.
pub fn is_ranked_result(result: &GameResult) -> (r: bool)
    ensures
        r == counts_as_ranked(*result),
{
    result.ranked && result.opponent_kind != OpponentKind::Computer
}

/// The streak count after a game: one more when the game continues the streak, else one.
pub open spec fn streak_after(kind: StreakKind, count: u64, won: bool) -> int {
    if (won && kind == StreakKind::Wins) || (!won && kind == StreakKind::Losses) {
        count + 1
    } else {
        1
    }
}

/// The rank and streak values a ranked game writes for its winner and loser.
#[derive(Debug, Clone, Copy, PartialEq, Eq)]
pub struct RankedChange {
    /// The winner's new rank.
    pub winner_rank: u64,
    /// The loser's new rank.
    pub loser_rank: u64,
    /// The winner's new streak count (of wins).
    pub winner_streak: u64,
    /// The loser's new streak count (of losses).
    pub loser_streak: u64,
}

/// What recording a completed game changes in the two profiles: nothing for a computer or
/// unranked game; otherwise both ranks by the rank formula and both streaks.
pub fn ranked_change(result: &GameResult, winner: &PlayerProfile, loser: &PlayerProfile) -> (r: Option<RankedChange>)
    requires
        5 * (if winner.rank < 1 { 1 } else { winner.rank as int }) <= u64::MAX,
        5 * (if loser.rank < 1 { 1 } else { loser.rank as int }) <= u64::MAX,
        rank_after(winner.rank, loser.rank, true) <= u64::MAX,
        winner.streak_count < u64::MAX,
        loser.streak_count < u64::MAX,
    ensures
        !counts_as_ranked(*result) ==> r is None,
        counts_as_ranked(*result) ==> (r matches Some(c) && {
            &&& c.winner_rank == rank_after(winner.rank, loser.rank, true)
            &&& c.loser_rank == rank_after(loser.rank, winner.rank, false)
            &&& c.winner_streak == streak_after(winner.streak_kind, winner.streak_count, true)
            &&& c.loser_streak == streak_after(loser.streak_kind, loser.streak_count, false)
        }),
{
    if !is_ranked_result(result) {
        return None;
    }
    let winner_rank = recompute_rank(winner.rank, loser.rank, true);
    let loser_rank = recompute_rank(loser.rank, winner.rank, false);
    let winner_streak = if winner.streak_kind == StreakKind::Wins {
        winner.streak_count + 1
    } else {
        1
    };
    let loser_streak = if loser.streak_kind == StreakKind::Losses {
        loser.streak_count + 1
    } else {
        1
    };
    Some(RankedChange { winner_rank, loser_rank, winner_streak, loser_streak })
}

/// A stored integer: unsigned values above `i64::MAX` are kept at `i64::MAX`.
pub fn to_db(value: u64) -> (r: i64)
    ensures
        r == if value > i64::MAX { i64::MAX as int } else { value as int },
{
    if value > i64::MAX as u64 {
        i64::MAX
    } else {
        value as i64
    }
}


/// The text a streak kind is stored as.
pub open spec fn streak_text(kind: StreakKind) -> Seq<char> {
    match kind {
        StreakKind::NoStreak => "none"@,
        StreakKind::Wins => "wins"@,
        StreakKind::Losses => "losses"@,
    }
}

impl StreakKind {
    /// The text this streak kind is stored as.
    pub fn as_db(self) -> (r: &'static str)
        ensures
            r@ == streak_text(self),
    {
        proof {
            reveal_strlit("none");
            reveal_strlit("wins");
            reveal_strlit("losses");
        }
        match self {
            StreakKind::NoStreak => "none",
            StreakKind::Wins => "wins",
            StreakKind::Losses => "losses",
        }
    }

    /// The streak kind stored as `value`, if it is one.
    pub fn from_db(value: &str) -> (r: Option<Self>)
        ensures
            r matches Some(k) ==> streak_text(k) == value@,
            r is None ==> value@ != streak_text(StreakKind::NoStreak) && value@ != streak_text(StreakKind::Wins)
                && value@ != streak_text(StreakKind::Losses),
    {
        proof {
            reveal_strlit("none");
            reveal_strlit("wins");
            reveal_strlit("losses");
        }
        let chars = text_chars(value);
        if same_chars(&chars, &text_chars("none")) {
            Some(StreakKind::NoStreak)
        } else if same_chars(&chars, &text_chars("wins")) {
            Some(StreakKind::Wins)
        } else if same_chars(&chars, &text_chars("losses")) {
            Some(StreakKind::Losses)
        } else {
            None
        }
    }
}

} // verus!
