//! Deterministic spy/recon snapshots for William Ames, Ace of Spies, and Condor.

use crate::board::{Board, BoardSnapshot, Coord, BOARD_CELLS, BOARD_HEIGHT, BOARD_WIDTH};
use crate::cell::Cell;
use crate::rng::{chacha_next, chacha_next_u64};
use crate::weapons::WeaponToken;
use rand_chacha::ChaCha12Rng;
use vstd::prelude::*;

verus! {

/// Active recon quality for a spy weapon.
#[derive(Debug, Clone, Copy, PartialEq, Eq, Structural)]
pub enum ReconLevel {
    /// William Ames: cheap, noisy spy.
    Ames,
    /// Ace of Spies: mostly accurate spy.
    Ace,
    /// The Condor: exact spy satellite.
    Condor,
}

/// The percentage of occupied cells a recon level reports.
pub open spec fn report_percent(level: ReconLevel) -> u32 {
    match level {
        ReconLevel::Ames => 50,
        ReconLevel::Ace => 85,
        ReconLevel::Condor => 100,
    }
}

/// The funds a recon level reports for a draw.
pub open spec fn reported_funds(level: ReconLevel, funds: i32, target_cleared_lines: u32, draw: u64) -> i32 {
    match level {
        ReconLevel::Condor => funds,
        ReconLevel::Ace => if target_cleared_lines == 4 {
            (funds + draw % 100) as i32
        } else {
            funds
        },
        ReconLevel::Ames => if funds > 0 {
            (draw % (funds as u64)) as i32
        } else {
            0
        },
    }
}

impl ReconLevel {
    /// Converts a spy weapon token to its recon level.
    #[must_use]
    pub fn from_token(token: WeaponToken) -> (r: Option<Self>)
        ensures
            r == match token {
                WeaponToken::Ames => Some(ReconLevel::Ames),
                WeaponToken::Ace => Some(ReconLevel::Ace),
                WeaponToken::Condor => Some(ReconLevel::Condor),
                _ => None::<ReconLevel>,
            },
    {
        match token {
            WeaponToken::Ames => Some(Self::Ames),
            WeaponToken::Ace => Some(Self::Ace),
            WeaponToken::Condor => Some(Self::Condor),
            _ => None,
        }
    }

    fn occupied_report_percent(self) -> (r: u32)
        ensures
            r == report_percent(self),
    {
        match self {
            Self::Ames => 50,
            Self::Ace => 85,
            Self::Condor => 100,
        }
    }
}

/// One recon panel update from a target board to a viewing player.
#[derive(Debug, Clone, PartialEq, Eq)]
pub struct ReconSnapshot {
    /// Recon quality that produced this sample.
    pub level: ReconLevel,
    /// Sampled target board. Unreported occupied cells appear empty.
    pub board: BoardSnapshot,
    /// Sampled target funds.
    pub funds: i32,
}

/// Whether an occupied cell is reported for a draw: always at 100 percent,
/// otherwise when the draw modulo 100 falls below the percentage.
pub fn report_cell(cell: Option<Cell>, threshold: u32, draw: u64) -> (r: Option<Cell>)
    ensures
        r == if cell is Some && (threshold == 100 || draw % 100 < threshold) {
            cell
        } else {
            None::<Cell>
        },
{
    match cell {
        None => None,
        Some(c) => {
            if threshold == 100 || (draw % 100) < threshold as u64 {
                Some(c)
            } else {
                None
            }
        },
    }
}

/// The funds a recon level reports for a draw: exact for Condor, up to 99 over on a
/// four-line clear for Ace, and a value below positive funds for Ames.
pub fn report_funds(level: ReconLevel, funds: i32, target_cleared_lines: u32, draw: u64) -> (r: i32)
    requires
        level == ReconLevel::Ace && target_cleared_lines == 4 ==> funds + 99 <= i32::MAX,
    ensures
        r == reported_funds(level, funds, target_cleared_lines, draw),
{
    match level {
        ReconLevel::Condor => funds,
        ReconLevel::Ace => if target_cleared_lines == 4 {
            funds + (draw % 100) as i32
        } else {
            funds
        },
        ReconLevel::Ames => if funds > 0 {
            (draw % (funds as u64)) as i32
        } else {
            0
        },
    }
}

/// The recon sample of the first `n` cells, in index order: with every cell reported the
/// board shows as it is and nothing is drawn; otherwise each occupied cell takes the next
/// draw and shows when the draw modulo 100 falls below the percentage.
pub open spec fn recon_scan(cells: Seq<Option<Cell>>, threshold: u32, rng: ChaCha12Rng, n: int) -> (Seq<Option<Cell>>, ChaCha12Rng)
    decreases n,
{
    if n <= 0 {
        (Seq::empty(), rng)
    } else {
        let (seen, g) = recon_scan(cells, threshold, rng, n - 1);
        if cells[n - 1] is Some && threshold != 100 {
            let (draw, next) = chacha_next(g);
            (seen.push(if draw % 100 < threshold { cells[n - 1] } else { None }), next)
        } else {
            (seen.push(cells[n - 1]), g)
        }
    }
}

/// The funds draw of a recon sample and the generator after it: Ace draws only on a
/// four-line clear, Ames only for positive funds, Condor never (an undrawn value counts as 0).
pub open spec fn funds_draw(level: ReconLevel, funds: i32, target_cleared_lines: u32, rng: ChaCha12Rng) -> (u64, ChaCha12Rng) {
    match level {
        ReconLevel::Condor => (0, rng),
        ReconLevel::Ace => if target_cleared_lines == 4 { chacha_next(rng) } else { (0, rng) },
        ReconLevel::Ames => if funds > 0 { chacha_next(rng) } else { (0, rng) },
    }
}

/// Samples a target board/funds pair using the active recon level. Each occupied
/// cell draws once unless the level reports every cell; the funds draw comes last.
pub fn sample_recon(
    level: ReconLevel,
    board: &Board,
    funds: i32,
    target_cleared_lines: u32,
    rng: &mut ChaCha12Rng,
) -> (r: ReconSnapshot)
    requires
        board.wf(),
        level == ReconLevel::Ace && target_cleared_lines == 4 ==> funds + 99 <= i32::MAX,
    ensures
        r.level == level,
        r.board.width == 10,
        r.board.height == 28,
        r.board.cells@.len() == 280,
        forall|i: int| 0 <= i < 280 ==> (#[trigger] r.board.cells@[i] is None || r.board.cells@[i] == board@[i]),
        level == ReconLevel::Condor ==> r.board.cells@ == board@,
        exists|draw: u64| r.funds == reported_funds(level, funds, target_cleared_lines, draw),
        r.board.cells@ == recon_scan(board@, report_percent(level), *old(rng), 280).0,
        r.funds == reported_funds(
            level,
            funds,
            target_cleared_lines,
            funds_draw(level, funds, target_cleared_lines, recon_scan(board@, report_percent(level), *old(rng), 280).1).0,
        ),
        *final(rng) == funds_draw(level, funds, target_cleared_lines, recon_scan(board@, report_percent(level), *old(rng), 280).1).1,
{
    let threshold = level.occupied_report_percent();
    let mut cells: Vec<Option<Cell>> = Vec::new();
    let mut i: usize = 0;
    while i < BOARD_CELLS
        invariant
            i <= 280,
            board.wf(),
            threshold == report_percent(level),
            cells@.len() == i,
            forall|j: int| 0 <= j < i ==> (#[trigger] cells@[j] is None || cells@[j] == board@[j]),
            level == ReconLevel::Condor ==> cells@ == board@.take(i as int),
            cells@ == recon_scan(board@, threshold, *old(rng), i as int).0,
            *rng == recon_scan(board@, threshold, *old(rng), i as int).1,
        decreases 280 - i,
    {
        let coord = Coord { x: i % 10, y: i / 10 };
        assert((i / 10) * 10 + i % 10 == i);
        let cell = board.get(coord);
        let reported = if cell.is_some() && threshold != 100 {
            let draw = chacha_next_u64(rng);
            report_cell(cell, threshold, draw)
        } else {
            cell
        };
        cells.push(reported);
        proof {
            assert(cell == board@[i as int]);
            assert(cells@ =~= recon_scan(board@, threshold, *old(rng), i as int + 1).0);
            if level == ReconLevel::Condor {
                assert(board@.take(i + 1) =~= board@.take(i as int).push(board@[i as int]));
            }
        }
        i = i + 1;
    }
    proof {
        assert(board@.take(280) =~= board@);
    }
    let draw = match level {
        ReconLevel::Condor => 0,
        ReconLevel::Ace => if target_cleared_lines == 4 {
            chacha_next_u64(rng)
        } else {
            0
        },
        ReconLevel::Ames => if funds > 0 {
            chacha_next_u64(rng)
        } else {
            0
        },
    };
    ReconSnapshot {
        level,
        board: BoardSnapshot { width: BOARD_WIDTH, height: BOARD_HEIGHT, cells },
        funds: report_funds(level, funds, target_cleared_lines, draw),
    }
}

/// How each recon level samples cell `n - 1` of a board after the cells before it: The
/// Condor reports every cell as it is and draws nothing; Ace of Spies and William Ames take
/// one draw for each occupied cell and report it only when the draw modulo 100 falls below
/// 85 and 50 respectively, showing it empty otherwise; an empty cell always shows empty and
/// takes no draw.
pub proof fn lemma_recon_sampling(level: ReconLevel, cells: Seq<Option<Cell>>, rng: ChaCha12Rng, n: int)
    requires
        1 <= n <= cells.len(),
    ensures
        ({
            let before = recon_scan(cells, report_percent(level), rng, n - 1);
            let after = recon_scan(cells, report_percent(level), rng, n);
            let (draw, next) = chacha_next(before.1);
            &&& after.0.len() == n
            &&& after.0.take(n - 1) == before.0
            &&& level == ReconLevel::Condor ==> after.0[n - 1] == cells[n - 1] && after.1 == before.1
            &&& cells[n - 1] is None ==> after.0[n - 1] is None && after.1 == before.1
            &&& level == ReconLevel::Ace && cells[n - 1] is Some ==> after.1 == next
                && after.0[n - 1] == if draw % 100 < 85 { cells[n - 1] } else { None }
            &&& level == ReconLevel::Ames && cells[n - 1] is Some ==> after.1 == next
                && after.0[n - 1] == if draw % 100 < 50 { cells[n - 1] } else { None }
        }),
    decreases n,
{
    if n > 1 {
        lemma_recon_sampling(level, cells, rng, n - 1);
    }
    let before = recon_scan(cells, report_percent(level), rng, n - 1);
    let after = recon_scan(cells, report_percent(level), rng, n);
    assert(after.0.take(n - 1) =~= before.0);
}

/// The funds each recon level reports: The Condor the exact funds; Ace of Spies the exact
/// funds, up to 99 more (the draw modulo 100) on a four-line clear; William Ames a value
/// below positive funds (the draw modulo the funds), and 0 otherwise.
pub proof fn lemma_reported_funds_ranges(level: ReconLevel, funds: i32, target_cleared_lines: u32, draw: u64)
    ensures
        level == ReconLevel::Condor ==> reported_funds(level, funds, target_cleared_lines, draw) == funds,
        level == ReconLevel::Ace && target_cleared_lines != 4 ==> reported_funds(level, funds, target_cleared_lines, draw) == funds,
        level == ReconLevel::Ace && target_cleared_lines == 4 && funds + 99 <= i32::MAX ==> {
            let r = reported_funds(level, funds, target_cleared_lines, draw);
            &&& funds <= r <= funds + 99
            &&& r - funds == draw % 100
        },
        level == ReconLevel::Ames && funds > 0 ==> {
            let r = reported_funds(level, funds, target_cleared_lines, draw);
            &&& 0 <= r < funds
            &&& r == draw % (funds as u64)
        },
        level == ReconLevel::Ames && funds <= 0 ==> reported_funds(level, funds, target_cleared_lines, draw) == 0,
{
}

} // verus!
