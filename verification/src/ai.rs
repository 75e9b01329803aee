//! Deterministic computer opponent placement, shopping, and weapon strategy.

use crate::board::{at, clear_funds, cleared_at, full_rows_from, in_board, Board, Coord, LineClearMode};
use crate::cell::Cell;
use crate::game::Command;
use crate::game::PieceLoop;
use crate::rng::{chacha_next, GameSeed, RngStream};
use crate::weapons::{bazaar_price, bought, buy_slot, Arsenal, ArsenalError, ArsenalSlot, Bazaar, BazaarError, WeaponToken};
use rand_chacha::ChaCha12Rng;
use crate::game::trunc_div;
use crate::piece::{kind_width, local_of, next_orientation, rotated_shape, shape_fits, LocalCoord, Piece, PieceKind};
use vstd::prelude::*;

verus! {

/// Legacy computer opponent bazaar leave delay in milliseconds.
pub const BAZAAR_LEAVE_DELAY_MS: u64 = 3000;

/// One legacy computer opponent difficulty row.
#[derive(Debug, Clone, Copy, PartialEq, Eq)]
pub struct ComputerDifficulty {
    /// Difficulty index used by legacy setup screens.
    pub level: usize,
    /// Delay between AI actions in milliseconds.
    pub delay_ms: u64,
    /// Legacy display name prefix for Ernie.
    pub name: &'static str,
}

/// The delay between computer actions at a difficulty level, from `BTComputer.C`.
pub open spec fn difficulty_delay(level: int) -> u64 {
    if level == 0 {
        4000
    } else if level == 1 {
        3000
    } else if level == 2 {
        2000
    } else if level == 3 {
        1500
    } else if level == 4 {
        1250
    } else if level == 5 {
        1000
    } else if level == 6 {
        750
    } else if level == 7 {
        550
    } else if level == 8 {
        400
    } else if level == 9 {
        350
    } else if level == 10 {
        300
    } else if level == 11 {
        225
    } else if level == 12 {
        100
    } else if level == 13 {
        10
    } else {
        0
    }
}

/// The display name of a difficulty level, from `BTComputer.C`.
pub open spec fn difficulty_name(level: int) -> Seq<char> {
    if level == 0 {
        "Comatose"@
    } else if level == 1 {
        "Somnambulant"@
    } else if level == 2 {
        "Lethargic"@
    } else if level == 3 {
        "Pensive"@
    } else if level == 4 {
        "Able"@
    } else if level == 5 {
        "Willing"@
    } else if level == 6 {
        "Focused"@
    } else if level == 7 {
        "Lively"@
    } else if level == 8 {
        "Energetic"@
    } else if level == 9 {
        "Pepped-up"@
    } else if level == 10 {
        "Caffeinated"@
    } else if level == 11 {
        "Bug-eyed"@
    } else if level == 12 {
        "Supercharged"@
    } else if level == 13 {
        "Hell-Bent"@
    } else {
        "Bionic"@
    }
}

/// Returns the difficulty row of a level in `0..15`.
fn difficulty_row(level: usize) -> (r: ComputerDifficulty)
    requires
        level < 15,
    ensures
        r.level == level,
        r.delay_ms == difficulty_delay(level as int),
        r.name@ == difficulty_name(level as int),
{
    proof {
        reveal_strlit("Comatose");
        reveal_strlit("Somnambulant");
        reveal_strlit("Lethargic");
        reveal_strlit("Pensive");
        reveal_strlit("Able");
        reveal_strlit("Willing");
        reveal_strlit("Focused");
        reveal_strlit("Lively");
        reveal_strlit("Energetic");
        reveal_strlit("Pepped-up");
        reveal_strlit("Caffeinated");
        reveal_strlit("Bug-eyed");
        reveal_strlit("Supercharged");
        reveal_strlit("Hell-Bent");
        reveal_strlit("Bionic");
    }
    match level {
        0 => ComputerDifficulty { level: 0, delay_ms: 4000, name: "Comatose" },
        1 => ComputerDifficulty { level: 1, delay_ms: 3000, name: "Somnambulant" },
        2 => ComputerDifficulty { level: 2, delay_ms: 2000, name: "Lethargic" },
        3 => ComputerDifficulty { level: 3, delay_ms: 1500, name: "Pensive" },
        4 => ComputerDifficulty { level: 4, delay_ms: 1250, name: "Able" },
        5 => ComputerDifficulty { level: 5, delay_ms: 1000, name: "Willing" },
        6 => ComputerDifficulty { level: 6, delay_ms: 750, name: "Focused" },
        7 => ComputerDifficulty { level: 7, delay_ms: 550, name: "Lively" },
        8 => ComputerDifficulty { level: 8, delay_ms: 400, name: "Energetic" },
        9 => ComputerDifficulty { level: 9, delay_ms: 350, name: "Pepped-up" },
        10 => ComputerDifficulty { level: 10, delay_ms: 300, name: "Caffeinated" },
        11 => ComputerDifficulty { level: 11, delay_ms: 225, name: "Bug-eyed" },
        12 => ComputerDifficulty { level: 12, delay_ms: 100, name: "Supercharged" },
        13 => ComputerDifficulty { level: 13, delay_ms: 10, name: "Hell-Bent" },
        _ => ComputerDifficulty { level: 14, delay_ms: 0, name: "Bionic" },
    }
}

/// The fixed legacy difficulty table from `BTComputer.C`, indexed by level.
#[must_use]
pub fn computer_difficulties() -> (r: Vec<ComputerDifficulty>)
    ensures
        r@.len() == 15,
        forall|i: int|
            0 <= i < 15 ==> (#[trigger] r@[i]).level == i && r@[i].delay_ms == difficulty_delay(i) && r@[i].name@
                == difficulty_name(i),
{
    let mut r: Vec<ComputerDifficulty> = Vec::new();
    let mut level: usize = 0;
    while level < 15
        invariant
            level <= 15,
            r@.len() == level,
            forall|i: int|
                0 <= i < level ==> (#[trigger] r@[i]).level == i && r@[i].delay_ms == difficulty_delay(i) && r@[i].name@
                    == difficulty_name(i),
        decreases 15 - level,
    {
        r.push(difficulty_row(level));
        level = level + 1;
    }
    r
}

/// Returns one difficulty row by level.
#[must_use]
pub fn computer_difficulty(level: usize) -> (r: Option<ComputerDifficulty>)
    ensures
        level < 15 ==> (r matches Some(d) && d.level == level && d.delay_ms == difficulty_delay(level as int) && d.name@
            == difficulty_name(level as int)),
        level >= 15 ==> r is None,
{
    if level < 15 {
        Some(difficulty_row(level))
    } else {
        None
    }
}


/// Board evaluation knobs matching the major legacy penalty categories.
#[derive(Debug, Clone, Copy, PartialEq, Eq)]
pub struct EvaluationWeights {
    /// Per open hole penalty.
    pub open_hole: i32,
    /// Per closed hole penalty.
    pub closed_hole: i32,
    /// Penalty for occupied cells above holes.
    pub covered_hole: i32,
    /// Squared-height penalty scale.
    pub height: i32,
    /// Per-line reward.
    pub line_bonus: i32,
    /// Immediate happy clear reward.
    pub happy_bonus: i32,
    /// Column height variance penalty.
    pub variance: i32,
}

impl Default for EvaluationWeights {
    fn default() -> (r: Self)
        ensures
            r == default_weights(),
    {
        Self {
            open_hole: 7000,
            closed_hole: 10000,
            covered_hole: 3000,
            height: 30000,
            line_bonus: 5000,
            happy_bonus: 20000,
            variance: 50,
        }
    }
}

/// The legacy evaluation weights.
pub open spec fn default_weights() -> EvaluationWeights {
    EvaluationWeights {
        open_hole: 7000,
        closed_hole: 10000,
        covered_hole: 3000,
        height: 30000,
        line_bonus: 5000,
        happy_bonus: 20000,
        variance: 50,
    }
}

/// Height of column `x` measured from row `y` down: the rows from the first occupied cell at
/// or below `y` to the floor, or zero.
pub open spec fn height_from(cells: Seq<Option<Cell>>, x: int, y: int) -> int
    decreases 28 - y,
{
    if y < 0 || y >= 28 {
        0
    } else if at(cells, x, y) is Some {
        28 - y
    } else {
        height_from(cells, x, y + 1)
    }
}

/// Height of a column: rows from its top occupied cell to the floor.
pub open spec fn column_height(cells: Seq<Option<Cell>>, x: int) -> int {
    height_from(cells, x, 0)
}

/// A hole can escape sideways when its whole row is empty to the left or to the right.
pub open spec fn side_escape(cells: Seq<Option<Cell>>, x: int, y: int) -> bool {
    (forall|l: int| 0 <= l < x ==> #[trigger] at(cells, l, y) is None) || (forall|r: int|
        x < r < 10 ==> #[trigger] at(cells, r, y) is None)
}

/// Open holes, closed holes and covering cells of column `x` from row `y` down, when
/// `seen` says an occupied cell lies above and `covered` occupied cells lie above.
pub open spec fn column_holes(cells: Seq<Option<Cell>>, x: int, y: int, seen: bool, covered: int) -> (int, int, int)
    decreases 28 - y,
{
    if y < 0 || y >= 28 {
        (0, 0, 0)
    } else if at(cells, x, y) is Some {
        column_holes(cells, x, y + 1, true, covered + 1)
    } else if seen {
        let rest = column_holes(cells, x, y + 1, seen, covered);
        if side_escape(cells, x, y) {
            (rest.0 + 1, rest.1, rest.2 + covered)
        } else {
            (rest.0, rest.1 + 1, rest.2 + covered)
        }
    } else {
        column_holes(cells, x, y + 1, seen, covered)
    }
}

/// Hole tallies summed over the first `n` columns.
pub open spec fn holes_upto(cells: Seq<Option<Cell>>, n: int) -> (int, int, int)
    decreases n,
{
    if n <= 0 {
        (0, 0, 0)
    } else {
        let prev = holes_upto(cells, n - 1);
        let col = column_holes(cells, n - 1, 0, false, 0);
        (prev.0 + col.0, prev.1 + col.1, prev.2 + col.2)
    }
}

/// Sum of the first `n` column heights.
pub open spec fn heights_sum(cells: Seq<Option<Cell>>, n: int) -> int
    decreases n,
{
    if n <= 0 {
        0
    } else {
        heights_sum(cells, n - 1) + column_height(cells, n - 1)
    }
}

/// The tallest of the first `n` columns, or zero.
pub open spec fn max_height(cells: Seq<Option<Cell>>, n: int) -> int
    decreases n,
{
    if n <= 0 {
        0
    } else {
        let prev = max_height(cells, n - 1);
        let h = column_height(cells, n - 1);
        if h > prev { h } else { prev }
    }
}

/// Sum of squared differences between the first `n` column heights and `mean`.
pub open spec fn squared_deviation(cells: Seq<Option<Cell>>, mean: int, n: int) -> int
    decreases n,
{
    if n <= 0 {
        0
    } else {
        let d = column_height(cells, n - 1) - mean;
        squared_deviation(cells, mean, n - 1) + d * d
    }
}

/// The integer variance of the column heights around their integer mean.
pub open spec fn height_variance(cells: Seq<Option<Cell>>) -> int {
    squared_deviation(cells, heights_sum(cells, 10) / 10, 10) / 10
}

/// The hole tallies of a board; the covering count is zero on an empty board.
pub open spec fn hole_tally(cells: Seq<Option<Cell>>) -> (int, int, int) {
    let t = holes_upto(cells, 10);
    if max_height(cells, 10) == 0 { (t.0, t.1, 0) } else { t }
}

/// The running sums of a board evaluation, in the order they are computed.
pub open spec fn evaluation_steps(cells: Seq<Option<Cell>>, kind: PieceKind, lines: u32, w: EvaluationWeights) -> Seq<int> {
    let t = hole_tally(cells);
    let mh = max_height(cells, 10);
    let happy: int = if kind == PieceKind::Happy && lines > 0 { w.happy_bonus as int } else { 0 };
    let s1 = t.0 * w.open_hole;
    let s2 = s1 + t.1 * w.closed_hole;
    let s3 = s2 + t.2 * w.covered_hole;
    let s4 = s3 + trunc_div(mh * mh * w.height, 28);
    let s5 = s4 + height_variance(cells) * w.variance;
    let s6 = s5 - (lines as i32) * w.line_bonus;
    seq![
        t.0 * w.open_hole,
        t.1 * w.closed_hole,
        s1,
        t.2 * w.covered_hole,
        s2,
        mh * mh * w.height,
        s3,
        s4,
        height_variance(cells) * w.variance,
        s5,
        (lines as i32) * w.line_bonus,
        s6,
        s6 - happy,
    ]
}

/// One more cleared line lowers an evaluation by the line bonus, and the first line cleared
/// by a Happy piece also by the Happy bonus (for line counts that an `i32` holds).
pub proof fn lemma_line_bonus(cells: Seq<Option<Cell>>, kind: PieceKind, lines: u32, w: EvaluationWeights)
    requires
        lines < i32::MAX,
    ensures
        evaluation(cells, kind, (lines + 1) as u32, w) == evaluation(cells, kind, lines, w) - w.line_bonus
            - (if kind == PieceKind::Happy && lines == 0 { w.happy_bonus as int } else { 0 }),
{
    let n = lines as int;
    let b = w.line_bonus as int;
    assert(((lines + 1) as u32) as i32 == n + 1);
    assert((lines as i32) == n);
    assert((n + 1) * b == n * b + b) by (nonlinear_arith);
}

/// A board evaluation computes without leaving `i32`.
pub open spec fn evaluation_fits(cells: Seq<Option<Cell>>, kind: PieceKind, lines: u32, w: EvaluationWeights) -> bool {
    forall|i: int| 0 <= i < 13 ==> i32::MIN <= #[trigger] evaluation_steps(cells, kind, lines, w)[i] <= i32::MAX
}

/// The penalty of a board: holes, covering cells, squared maximum height and height variance
/// count against it, cleared lines and a Happy clear for it. Lower is better.
pub open spec fn evaluation(cells: Seq<Option<Cell>>, kind: PieceKind, lines: u32, w: EvaluationWeights) -> int {
    evaluation_steps(cells, kind, lines, w)[12]
}

fn column_height_of(board: &Board, x: usize) -> (r: i32)
    requires
        board.wf(),
        x < 10,
    ensures
        r == column_height(board@, x as int),
        0 <= r <= 28,
{
    let mut y: usize = 0;
    while y < 28
        invariant
            y <= 28,
            x < 10,
            board.wf(),
            column_height(board@, x as int) == height_from(board@, x as int, y as int),
        decreases 28 - y,
    {
        if board.get(Coord { x, y }).is_some() {
            return (28 - y) as i32;
        }
        y = y + 1;
    }
    0
}

fn column_heights(board: &Board) -> (r: Vec<i32>)
    requires
        board.wf(),
    ensures
        r@.len() == 10,
        forall|x: int| 0 <= x < 10 ==> #[trigger] r@[x] == column_height(board@, x) && 0 <= r@[x] <= 28,
{
    let mut r: Vec<i32> = Vec::new();
    let mut x: usize = 0;
    while x < 10
        invariant
            x <= 10,
            board.wf(),
            r@.len() == x,
            forall|k: int| 0 <= k < x ==> #[trigger] r@[k] == column_height(board@, k) && 0 <= r@[k] <= 28,
        decreases 10 - x,
    {
        r.push(column_height_of(board, x));
        x = x + 1;
    }
    r
}

fn has_side_escape(board: &Board, x: usize, y: usize) -> (r: bool)
    requires
        board.wf(),
        x < 10,
        y < 28,
    ensures
        r == side_escape(board@, x as int, y as int),
{
    let mut left_clear = true;
    let mut l: usize = 0;
    while l < x
        invariant
            l <= x < 10,
            y < 28,
            board.wf(),
            left_clear == forall|k: int| 0 <= k < l ==> #[trigger] at(board@, k, y as int) is None,
        decreases x - l,
    {
        if board.get(Coord { x: l, y }).is_some() {
            left_clear = false;
        }
        l = l + 1;
    }
    if left_clear {
        return true;
    }
    let mut right_clear = true;
    let mut k: usize = x + 1;
    while k < 10
        invariant
            x < k <= 10,
            y < 28,
            board.wf(),
            right_clear == forall|j: int| x < j < k ==> #[trigger] at(board@, j, y as int) is None,
        decreases 10 - k,
    {
        if board.get(Coord { x: k, y }).is_some() {
            right_clear = false;
        }
        k = k + 1;
    }
    right_clear
}

proof fn lemma_column_holes_bounds(cells: Seq<Option<Cell>>, x: int, y: int, seen: bool, covered: int)
    requires
        0 <= y <= 28,
        0 <= covered <= y,
    ensures
        column_holes(cells, x, y, seen, covered).0 >= 0,
        column_holes(cells, x, y, seen, covered).1 >= 0,
        column_holes(cells, x, y, seen, covered).0 + column_holes(cells, x, y, seen, covered).1 <= 28 - y,
        0 <= column_holes(cells, x, y, seen, covered).2 <= 28 * (28 - y),
    decreases 28 - y,
{
    if y < 28 {
        if at(cells, x, y) is Some {
            lemma_column_holes_bounds(cells, x, y + 1, true, covered + 1);
        } else {
            lemma_column_holes_bounds(cells, x, y + 1, seen, covered);
        }
    }
}

fn column_hole_counts(board: &Board, x: usize) -> (r: (i32, i32, i32))
    requires
        board.wf(),
        x < 10,
    ensures
        r.0 as int == column_holes(board@, x as int, 0, false, 0).0,
        r.1 as int == column_holes(board@, x as int, 0, false, 0).1,
        r.2 as int == column_holes(board@, x as int, 0, false, 0).2,
{
    let ghost cells = board@;
    let mut seen = false;
    let mut covered: i32 = 0;
    let mut open: i32 = 0;
    let mut closed: i32 = 0;
    let mut cover_sum: i32 = 0;
    let mut y: usize = 0;
    while y < 28
        invariant
            y <= 28,
            x < 10,
            board.wf(),
            cells == board@,
            0 <= covered <= y,
            0 <= open,
            0 <= closed,
            open + closed <= y,
            0 <= cover_sum <= 28 * y,
            open + column_holes(cells, x as int, y as int, seen, covered as int).0 == column_holes(
                cells,
                x as int,
                0,
                false,
                0,
            ).0,
            closed + column_holes(cells, x as int, y as int, seen, covered as int).1 == column_holes(
                cells,
                x as int,
                0,
                false,
                0,
            ).1,
            cover_sum + column_holes(cells, x as int, y as int, seen, covered as int).2 == column_holes(
                cells,
                x as int,
                0,
                false,
                0,
            ).2,
        decreases 28 - y,
    {
        if board.get(Coord { x, y }).is_some() {
            seen = true;
            covered = covered + 1;
        } else if seen {
            if has_side_escape(board, x, y) {
                open = open + 1;
            } else {
                closed = closed + 1;
            }
            cover_sum = cover_sum + covered;
        }
        y = y + 1;
    }
    (open, closed, cover_sum)
}

proof fn lemma_tally_bounds(cells: Seq<Option<Cell>>, n: int)
    requires
        0 <= n <= 10,
    ensures
        holes_upto(cells, n).0 >= 0,
        holes_upto(cells, n).1 >= 0,
        holes_upto(cells, n).0 + holes_upto(cells, n).1 <= 28 * n,
        0 <= holes_upto(cells, n).2 <= 784 * n,
    decreases n,
{
    if n > 0 {
        lemma_tally_bounds(cells, n - 1);
        lemma_column_holes_bounds(cells, n - 1, 0, false, 0);
    }
}

proof fn lemma_height_bounds(cells: Seq<Option<Cell>>, x: int, y: int)
    requires
        0 <= y <= 28,
    ensures
        0 <= height_from(cells, x, y) <= 28,
    decreases 28 - y,
{
    if y < 28 && !(at(cells, x, y) is Some) {
        lemma_height_bounds(cells, x, y + 1);
    }
}

proof fn lemma_sum_bounds(cells: Seq<Option<Cell>>, n: int)
    requires
        0 <= n <= 10,
    ensures
        0 <= heights_sum(cells, n) <= 28 * n,
        0 <= max_height(cells, n) <= 28,
        forall|mean: int| 0 <= mean <= 28 ==> 0 <= #[trigger] squared_deviation(cells, mean, n) <= 784 * n,
    decreases n,
{
    if n > 0 {
        lemma_sum_bounds(cells, n - 1);
        lemma_height_bounds(cells, n - 1, 0);
        assert forall|mean: int| 0 <= mean <= 28 implies 0 <= #[trigger] squared_deviation(cells, mean, n) <= 784 * n by {
            let d = column_height(cells, n - 1) - mean;
            assert(0 <= squared_deviation(cells, mean, n - 1) <= 784 * (n - 1));
            assert(0 <= d * d <= 784) by (nonlinear_arith)
                requires
                    -28 <= d <= 28,
            ;
        }
    }
}

fn hole_counts(board: &Board, heights: &Vec<i32>) -> (r: (i32, i32, i32))
    requires
        board.wf(),
        heights@.len() == 10,
        forall|x: int| 0 <= x < 10 ==> #[trigger] heights@[x] == column_height(board@, x),
    ensures
        r.0 as int == hole_tally(board@).0,
        r.1 as int == hole_tally(board@).1,
        r.2 as int == hole_tally(board@).2,
        0 <= r.0 <= 280,
        0 <= r.1 <= 280,
        0 <= r.2 <= 7840,
{
    let ghost cells = board@;
    let mut open: i32 = 0;
    let mut closed: i32 = 0;
    let mut covered: i32 = 0;
    let mut x: usize = 0;
    while x < 10
        invariant
            x <= 10,
            board.wf(),
            cells == board@,
            open as int == holes_upto(cells, x as int).0,
            closed as int == holes_upto(cells, x as int).1,
            covered as int == holes_upto(cells, x as int).2,
            0 <= open,
            0 <= closed,
            open + closed <= 28 * x,
            0 <= covered <= 784 * x,
        decreases 10 - x,
    {
        proof {
            lemma_tally_bounds(cells, x as int + 1);
        }
        let (o, c, v) = column_hole_counts(board, x);
        open = open + o;
        closed = closed + c;
        covered = covered + v;
        x = x + 1;
    }
    let mut all_empty = true;
    let mut k: usize = 0;
    while k < 10
        invariant
            k <= 10,
            heights@.len() == 10,
            forall|j: int| 0 <= j < 10 ==> #[trigger] heights@[j] == column_height(cells, j),
            all_empty == (max_height(cells, k as int) == 0),
        decreases 10 - k,
    {
        proof {
            lemma_sum_bounds(cells, k as int);
            lemma_height_bounds(cells, k as int, 0);
        }
        if heights[k] != 0 {
            all_empty = false;
        }
        k = k + 1;
    }
    if all_empty {
        covered = 0;
    }
    (open, closed, covered)
}

fn height_variance_of(heights: &Vec<i32>, Ghost(cells): Ghost<Seq<Option<Cell>>>) -> (r: i32)
    requires
        heights@.len() == 10,
        forall|x: int| 0 <= x < 10 ==> #[trigger] heights@[x] == column_height(cells, x) && 0 <= heights@[x] <= 28,
    ensures
        r == height_variance(cells),
        0 <= r <= 784,
{
    let mut sum: i32 = 0;
    let mut i: usize = 0;
    while i < 10
        invariant
            i <= 10,
            heights@.len() == 10,
            forall|x: int| 0 <= x < 10 ==> #[trigger] heights@[x] == column_height(cells, x) && 0 <= heights@[x] <= 28,
            sum as int == heights_sum(cells, i as int),
            0 <= sum <= 28 * i,
        decreases 10 - i,
    {
        sum = sum + heights[i];
        i = i + 1;
    }
    let mean = sum / 10;
    let mut dev: i32 = 0;
    let mut j: usize = 0;
    while j < 10
        invariant
            j <= 10,
            heights@.len() == 10,
            forall|x: int| 0 <= x < 10 ==> #[trigger] heights@[x] == column_height(cells, x) && 0 <= heights@[x] <= 28,
            0 <= mean <= 28,
            mean as int == heights_sum(cells, 10) / 10,
            dev as int == squared_deviation(cells, mean as int, j as int),
            0 <= dev <= 784 * j,
        decreases 10 - j,
    {
        let d = heights[j] - mean;
        assert(0 <= d * d <= 784) by (nonlinear_arith)
            requires
                -28 <= d <= 28,
        ;
        dev = dev + d * d;
        j = j + 1;
    }
    dev / 10
}

/// Evaluates a board after a hypothetical placement. Lower scores are better.
#[must_use]
pub fn evaluate_board(board: &Board, piece_kind: PieceKind, lines_cleared: u32, weights: EvaluationWeights) -> (r: i32)
    requires
        board.wf(),
        evaluation_fits(board@, piece_kind, lines_cleared, weights),
    ensures
        r == evaluation(board@, piece_kind, lines_cleared, weights),
{
    let heights = column_heights(board);
    let (open, closed, covered) = hole_counts(board, &heights);
    let mut tallest: i32 = 0;
    let mut k: usize = 0;
    while k < 10
        invariant
            k <= 10,
            heights@.len() == 10,
            forall|x: int| 0 <= x < 10 ==> #[trigger] heights@[x] == column_height(board@, x) && 0 <= heights@[x] <= 28,
            tallest as int == max_height(board@, k as int),
            0 <= tallest <= 28,
        decreases 10 - k,
    {
        if heights[k] > tallest {
            tallest = heights[k];
        }
        k = k + 1;
    }
    let variance = height_variance_of(&heights, Ghost(board@));
    let happy_bonus = if piece_kind == PieceKind::Happy && lines_cleared > 0 {
        weights.happy_bonus
    } else {
        0
    };
    let ghost steps = evaluation_steps(board@, piece_kind, lines_cleared, weights);
    assert(i32::MIN <= steps[0] <= i32::MAX);
    assert(i32::MIN <= steps[1] <= i32::MAX);
    assert(i32::MIN <= steps[2] <= i32::MAX);
    assert(i32::MIN <= steps[3] <= i32::MAX);
    assert(i32::MIN <= steps[4] <= i32::MAX);
    assert(i32::MIN <= steps[5] <= i32::MAX);
    assert(i32::MIN <= steps[6] <= i32::MAX);
    assert(i32::MIN <= steps[7] <= i32::MAX);
    assert(i32::MIN <= steps[8] <= i32::MAX);
    assert(i32::MIN <= steps[9] <= i32::MAX);
    assert(i32::MIN <= steps[10] <= i32::MAX);
    assert(i32::MIN <= steps[11] <= i32::MAX);
    assert(i32::MIN <= steps[12] <= i32::MAX);
    assert(0 <= tallest * tallest <= 784) by (nonlinear_arith)
        requires
            0 <= tallest <= 28,
    ;
    let height_term = tallest * tallest * weights.height / 28;
    open * weights.open_hole + closed * weights.closed_hole + covered * weights.covered_hole + height_term + variance
        * weights.variance - (lines_cleared as i32) * weights.line_bonus - happy_bonus
}


/// Result of evaluating one final piece placement.
#[derive(Debug, Clone, Copy, PartialEq, Eq)]
pub struct ComputerPlacement {
    /// Final anchor x.
    pub x: isize,
    /// Final anchor y.
    pub y: isize,
    /// Rotation orientation after placement search.
    pub orientation: u8,
    /// Lower scores are better.
    pub penalty: i32,
    /// Lines cleared by this placement in the simulation.
    pub lines_cleared: u32,
}

/// The anchor row a shape comes to rest in when dropped straight down from row `y`.
pub open spec fn drop_row(cells: Seq<Option<Cell>>, coords: Seq<LocalCoord>, x: int, y: int) -> int
    decreases 28 - y,
{
    if y < 28 && coords.len() > 0 && shape_fits(cells, coords, x, y + 1, false) {
        drop_row(cells, coords, x, y + 1)
    } else {
        y
    }
}

/// The board with a shape's cells written at the anchor `(ax, ay)`.
pub open spec fn stamped(cells: Seq<Option<Cell>>, coords: Seq<LocalCoord>, ax: int, ay: int, cell: Cell) -> Seq<
    Option<Cell>,
> {
    Seq::new(
        280,
        |i: int|
            if 0 <= i % 10 - ax < 8 && 0 <= i / 10 - ay < 8 && coords.contains(local_of(i % 10 - ax, i / 10 - ay)) {
                Some(cell)
            } else {
                cells[i]
            },
    )
}

/// The board after its completed rows are cleared and the rows above drop.
pub open spec fn cleared_board(cells: Seq<Option<Cell>>) -> Seq<Option<Cell>> {
    Seq::new(280, |i: int| cleared_at(cells, LineClearMode::Normal, i % 10, i / 10))
}

/// The board a drop at column `x` leaves, before lines clear.
pub open spec fn dropped_board(cells: Seq<Option<Cell>>, coords: Seq<LocalCoord>, ay: int, x: int, cell: Cell) -> Seq<
    Option<Cell>,
> {
    stamped(cells, coords, x, drop_row(cells, coords, x, ay), cell)
}

/// The placement a shape in one rotation state reaches by moving to column `x` at row `ay`
/// and dropping, when it can move there.
pub open spec fn candidate(
    cells: Seq<Option<Cell>>,
    kind: PieceKind,
    cell: Cell,
    coords: Seq<LocalCoord>,
    orientation: int,
    ay: int,
    x: int,
    w: EvaluationWeights,
) -> Option<ComputerPlacement> {
    if !shape_fits(cells, coords, x, ay, false) {
        None
    } else {
        let locked = dropped_board(cells, coords, ay, x, cell);
        let lines = full_rows_from(locked, 0);
        Some(
            ComputerPlacement {
                x: x as isize,
                y: drop_row(cells, coords, x, ay) as isize,
                orientation: orientation as u8,
                penalty: evaluation(cleared_board(locked), kind, lines as u32, w) as i32,
                lines_cleared: lines as u32,
            },
        )
    }
}

/// A candidate's line clear and evaluation stay inside `i32`.
pub open spec fn candidate_fits(
    cells: Seq<Option<Cell>>,
    kind: PieceKind,
    cell: Cell,
    coords: Seq<LocalCoord>,
    ay: int,
    x: int,
    w: EvaluationWeights,
) -> bool {
    shape_fits(cells, coords, x, ay, false) ==> {
        let locked = dropped_board(cells, coords, ay, x, cell);
        &&& i32::MIN <= clear_funds(locked) <= i32::MAX
        &&& evaluation_fits(cleared_board(locked), kind, full_rows_from(locked, 0) as u32, w)
    }
}

/// The placements of one rotation state over the first `n` columns from `-8`, in column order.
pub open spec fn row_candidates(
    cells: Seq<Option<Cell>>,
    kind: PieceKind,
    cell: Cell,
    coords: Seq<LocalCoord>,
    orientation: int,
    ay: int,
    w: EvaluationWeights,
    n: int,
) -> Seq<ComputerPlacement>
    decreases n,
{
    if n <= 0 {
        Seq::empty()
    } else {
        let prev = row_candidates(cells, kind, cell, coords, orientation, ay, w, n - 1);
        match candidate(cells, kind, cell, coords, orientation, ay, n - 9, w) {
            Some(p) => prev.push(p),
            None => prev,
        }
    }
}

/// The shape and orientation after `k` clockwise rotations at the anchor, if each fit.
pub open spec fn rotation_state(
    cells: Seq<Option<Cell>>,
    kind: PieceKind,
    coords: Seq<LocalCoord>,
    orientation: int,
    ax: int,
    ay: int,
    k: nat,
) -> Option<(Seq<LocalCoord>, int)>
    decreases k,
{
    if k == 0 {
        Some((coords, orientation))
    } else {
        match rotation_state(cells, kind, coords, orientation, ax, ay, (k - 1) as nat) {
            None => None,
            Some((c, o)) => match rotated_shape(kind, o, c, false) {
                None => None,
                Some(shape) => if shape_fits(cells, shape, ax, ay, false) {
                    Some((shape, next_orientation(kind, o, false)))
                } else {
                    None
                },
            },
        }
    }
}

/// How many rotation states the search tries: one for kinds that do not turn, else four.
pub open spec fn rotation_count(kind: PieceKind) -> nat {
    if kind_width(kind) == 0 { 1 } else { 4 }
}

/// The placements the search finds over the first `k` rotation states.
pub open spec fn placements_upto(cells: Seq<Option<Cell>>, piece: Piece, w: EvaluationWeights, k: nat) -> Seq<
    ComputerPlacement,
>
    decreases k,
{
    if k == 0 {
        Seq::empty()
    } else {
        let prev = placements_upto(cells, piece, w, (k - 1) as nat);
        match rotation_state(
            cells,
            piece.kind_spec(),
            piece.coords(),
            piece.orientation_spec(),
            piece.anchor_x(),
            piece.anchor_y(),
            (k - 1) as nat,
        ) {
            None => prev,
            Some((c, o)) => prev + row_candidates(
                cells,
                piece.kind_spec(),
                piece.cell_spec(),
                c,
                o,
                piece.anchor_y(),
                w,
                26,
            ),
        }
    }
}

/// Every placement the search can reach: each rotation state in turn, each column from `-8`
/// to `17`, dropped as far as it goes.
pub open spec fn reachable(cells: Seq<Option<Cell>>, piece: Piece, w: EvaluationWeights) -> Seq<ComputerPlacement> {
    placements_upto(cells, piece, w, rotation_count(piece.kind_spec()))
}

/// Every placement of the `k`-th rotation state clears lines and evaluates inside `i32`.
pub open spec fn state_fits(cells: Seq<Option<Cell>>, piece: Piece, w: EvaluationWeights, k: nat) -> bool {
    match rotation_state(
        cells,
        piece.kind_spec(),
        piece.coords(),
        piece.orientation_spec(),
        piece.anchor_x(),
        piece.anchor_y(),
        k,
    ) {
        None => true,
        Some((c, o)) => forall|x: int|
            -8 <= x < 18 ==> #[trigger] candidate_fits(cells, piece.kind_spec(), piece.cell_spec(), c, piece.anchor_y(), x, w),
    }
}

/// Every placement the search can reach clears lines and evaluates inside `i32`.
pub open spec fn placements_fit(cells: Seq<Option<Cell>>, piece: Piece, w: EvaluationWeights) -> bool {
    forall|k: nat| k < rotation_count(piece.kind_spec()) ==> #[trigger] state_fits(cells, piece, w, k)
}

/// A placement is better than another when its penalty is lower, then when it lies higher,
/// further left, then in an earlier rotation state.
pub open spec fn better(a: ComputerPlacement, b: ComputerPlacement) -> bool {
    a.penalty < b.penalty || (a.penalty == b.penalty && (a.y < b.y || (a.y == b.y && (a.x < b.x || (a.x == b.x
        && a.orientation < b.orientation)))))
}

/// The index of the first best placement among the first `n`.
pub open spec fn best_index(s: Seq<ComputerPlacement>, n: int) -> int
    decreases n,
{
    if n <= 1 {
        0
    } else {
        let b = best_index(s, n - 1);
        if better(s[n - 1], s[b]) { n - 1 } else { b }
    }
}

/// The first best placement is no worse than any other and better than every one before it.
pub proof fn lemma_best_index(s: Seq<ComputerPlacement>, n: int)
    requires
        1 <= n <= s.len(),
    ensures
        0 <= best_index(s, n) < n,
        forall|j: int| 0 <= j < n ==> !better(#[trigger] s[j], s[best_index(s, n)]),
        forall|j: int| 0 <= j < best_index(s, n) ==> better(s[best_index(s, n)], #[trigger] s[j]),
    decreases n,
{
    if n > 1 {
        lemma_best_index(s, n - 1);
    }
}

proof fn lemma_drop_row(cells: Seq<Option<Cell>>, coords: Seq<LocalCoord>, x: int, y: int)
    requires
        coords.len() > 0,
        shape_fits(cells, coords, x, y, false),
    ensures
        y <= drop_row(cells, coords, x, y) <= 27,
        shape_fits(cells, coords, x, drop_row(cells, coords, x, y), false),
        !shape_fits(cells, coords, x, drop_row(cells, coords, x, y) + 1, false),
    decreases 28 - y,
{
    assert(!crate::piece::blocked(cells, x + coords[0].x, y + coords[0].y, false));
    if shape_fits(cells, coords, x, y + 1, false) {
        assert(!crate::piece::blocked(cells, x + coords[0].x, y + 1 + coords[0].y, false));
        lemma_drop_row(cells, coords, x, y + 1);
    }
}

proof fn lemma_board_ext(a: Seq<Option<Cell>>, b: Seq<Option<Cell>>)
    requires
        a.len() == 280,
        b.len() == 280,
        forall|x: int, y: int| in_board(x, y) ==> #[trigger] at(a, x, y) == at(b, x, y),
    ensures
        a == b,
{
    assert forall|i: int| 0 <= i < 280 implies a[i] == b[i] by {
        crate::board::lemma_index_split(i);
        assert(at(a, i % 10, i / 10) == at(b, i % 10, i / 10));
    }
    assert(a =~= b);
}

fn place_candidate(board: &Board, oriented: &Piece, x: isize, weights: EvaluationWeights) -> (r: Option<ComputerPlacement>)
    requires
        board.wf(),
        oriented.wf(),
        oriented.anchor_room(),
        -8 <= x < 18,
        candidate_fits(board@, oriented.kind_spec(), oriented.cell_spec(), oriented.coords(), oriented.anchor_y(), x as int, weights),
    ensures
        r == candidate(
            board@,
            oriented.kind_spec(),
            oriented.cell_spec(),
            oriented.coords(),
            oriented.orientation_spec(),
            oriented.anchor_y(),
            x as int,
            weights,
        ),
{
    proof {
        Piece::lemma_wf(*oriented);
    }
    let mut moving = oriented.clone();
    let ay = moving.anchor().1;
    if !moving.move_to(board, x, ay) {
        return None;
    }
    let ghost coords = oriented.coords();
    proof {
        lemma_drop_row(board@, coords, x as int, ay as int);
    }
    loop
        invariant
            -8 <= x < 18,
            board.wf(),
            moving.wf(),
            moving.coords() == coords,
            coords.len() > 0,
            moving.anchor_x() == x,
            moving.kind_spec() == oriented.kind_spec(),
            moving.cell_spec() == oriented.cell_spec(),
            moving.orientation_spec() == oriented.orientation_spec(),
            shape_fits(board@, coords, x as int, moving.anchor_y(), false),
            moving.anchor_y() <= 27,
            drop_row(board@, coords, x as int, ay as int) == drop_row(board@, coords, x as int, moving.anchor_y()),
        ensures
            moving.wf(),
            moving.coords() == coords,
            moving.anchor_x() == x,
            moving.kind_spec() == oriented.kind_spec(),
            moving.cell_spec() == oriented.cell_spec(),
            moving.orientation_spec() == oriented.orientation_spec(),
            moving.anchor_y() == drop_row(board@, coords, x as int, ay as int),
            shape_fits(board@, coords, x as int, moving.anchor_y(), false),
        decreases 28 - moving.anchor_y(),
    {
        let next = moving.anchor().1 + 1;
        if !moving.move_to(board, x, next) {
            break;
        }
        proof {
            lemma_drop_row(board@, coords, x as int, next as int);
        }
    }
    let kind = moving.kind();
    let (fx, fy) = moving.anchor();
    let orientation = moving.orientation();
    let mut simulated = board.clone();
    proof {
        assert forall|j: int| 0 <= j < coords.len() implies in_board(
            fx + (#[trigger] coords[j]).x,
            fy + coords[j].y,
        ) by {
            assert(!crate::piece::blocked(board@, fx + coords[j].x, fy + coords[j].y, false));
        }
    }
    let ghost piece_now = moving;
    moving.lock_into(&mut simulated);
    let ghost locked = dropped_board(board@, coords, ay as int, x as int, oriented.cell_spec());
    proof {
        assert forall|px: int, py: int| in_board(px, py) implies #[trigger] at(simulated@, px, py) == at(locked, px, py) by {
            crate::board::lemma_div_mod_10(py, px);
        }
        lemma_board_ext(simulated@, locked);
    }
    let outcome = simulated.clear_completed_lines(LineClearMode::Normal);
    proof {
        assert forall|px: int, py: int| in_board(px, py) implies #[trigger] at(simulated@, px, py) == at(
            cleared_board(locked),
            px,
            py,
        ) by {
            crate::board::lemma_div_mod_10(py, px);
        }
        lemma_board_ext(simulated@, cleared_board(locked));
    }
    let penalty = evaluate_board(&simulated, kind, outcome.lines_cleared, weights);
    Some(ComputerPlacement { x: fx, y: fy, orientation, penalty, lines_cleared: outcome.lines_cleared })
}


proof fn lemma_state_fits(
    cells: Seq<Option<Cell>>,
    piece: Piece,
    w: EvaluationWeights,
    k: nat,
    c: Seq<LocalCoord>,
    o: int,
)
    requires
        state_fits(cells, piece, w, k),
        rotation_state(cells, piece.kind_spec(), piece.coords(), piece.orientation_spec(), piece.anchor_x(), piece.anchor_y(), k)
            == Some((c, o)),
    ensures
        forall|x: int| -8 <= x < 18 ==> #[trigger] candidate_fits(cells, piece.kind_spec(), piece.cell_spec(), c, piece.anchor_y(), x, w),
{
    reveal_with_fuel(state_fits, 1);
    assert forall|x: int| -8 <= x < 18 implies #[trigger] candidate_fits(cells, piece.kind_spec(), piece.cell_spec(), c, piece.anchor_y(), x, w) by {
        match rotation_state(cells, piece.kind_spec(), piece.coords(), piece.orientation_spec(), piece.anchor_x(), piece.anchor_y(), k) {
            Some((c2, o2)) => {
                assert(c2 == c);
                assert(candidate_fits(cells, piece.kind_spec(), piece.cell_spec(), c2, piece.anchor_y(), x, w));
            },
            None => {},
        }
    }
}

proof fn lemma_states_stay_empty(
    cells: Seq<Option<Cell>>,
    piece: Piece,
    w: EvaluationWeights,
    k: nat,
    n: nat,
)
    requires
        k <= n,
        rotation_state(cells, piece.kind_spec(), piece.coords(), piece.orientation_spec(), piece.anchor_x(), piece.anchor_y(), k) is None,
    ensures
        placements_upto(cells, piece, w, n) == placements_upto(cells, piece, w, k),
        rotation_state(cells, piece.kind_spec(), piece.coords(), piece.orientation_spec(), piece.anchor_x(), piece.anchor_y(), n) is None,
    decreases n - k,
{
    if n > k {
        lemma_states_stay_empty(cells, piece, w, k, (n - 1) as nat);
    }
}

fn reachable_placements(board: &Board, piece: &Piece, weights: EvaluationWeights) -> (r: Vec<ComputerPlacement>)
    requires
        board.wf(),
        piece.wf(),
        piece.anchor_room(),
        placements_fit(board@, *piece, weights),
    ensures
        r@ == reachable(board@, *piece, weights),
{
    let mut placements: Vec<ComputerPlacement> = Vec::new();
    let mut oriented = piece.clone();
    let rotations: usize = if piece.kind().rotation_width() == 0 {
        1
    } else {
        4
    };
    let ghost cells = board@;
    let ghost count = rotation_count(piece.kind_spec());
    let mut stopped = false;
    let mut i: usize = 0;
    while i < rotations && !stopped
        invariant
            board.wf(),
            cells == board@,
            rotations == count,
            count <= 4,
            i <= rotations,
            placements_fit(cells, *piece, weights),
            piece.anchor_room(),
            oriented.wf(),
            oriented.kind_spec() == piece.kind_spec(),
            oriented.cell_spec() == piece.cell_spec(),
            oriented.anchor_x() == piece.anchor_x(),
            oriented.anchor_y() == piece.anchor_y(),
            placements@ == placements_upto(cells, *piece, weights, i as nat),
            stopped ==> rotation_state(cells, piece.kind_spec(), piece.coords(), piece.orientation_spec(), piece.anchor_x(), piece.anchor_y(), i as nat) is None,
            !stopped ==> rotation_state(cells, piece.kind_spec(), piece.coords(), piece.orientation_spec(), piece.anchor_x(), piece.anchor_y(), i as nat)
                == Some((oriented.coords(), oriented.orientation_spec())),
        decreases rotations - i,
    {
        let ghost before = placements@;
        assert(state_fits(cells, *piece, weights, i as nat));
        assert(rotation_state(cells, piece.kind_spec(), piece.coords(), piece.orientation_spec(), piece.anchor_x(), piece.anchor_y(), i as nat)
            == Some((oriented.coords(), oriented.orientation_spec())));
        proof {
            lemma_state_fits(cells, *piece, weights, i as nat, oriented.coords(), oriented.orientation_spec());
        }
        let mut x: isize = -8;
        while x < 18
            invariant
                board.wf(),
                cells == board@,
                -8 <= x <= 18,
                piece.anchor_room(),
                oriented.wf(),
                oriented.anchor_y() == piece.anchor_y(),
                oriented.anchor_x() == piece.anchor_x(),
                oriented.kind_spec() == piece.kind_spec(),
                oriented.cell_spec() == piece.cell_spec(),
                forall|px: int| -8 <= px < 18 ==> #[trigger] candidate_fits(cells, piece.kind_spec(), piece.cell_spec(), oriented.coords(), piece.anchor_y(), px, weights),
                placements@ == before + row_candidates(
                    cells,
                    oriented.kind_spec(),
                    oriented.cell_spec(),
                    oriented.coords(),
                    oriented.orientation_spec(),
                    oriented.anchor_y(),
                    weights,
                    x + 8,
                ),
            decreases 18 - x,
        {
            assert(candidate_fits(cells, oriented.kind_spec(), oriented.cell_spec(), oriented.coords(), oriented.anchor_y(), x as int, weights));
            match place_candidate(board, &oriented, x, weights) {
                Some(p) => placements.push(p),
                None => {},
            }
            x = x + 1;
        }
        if !oriented.rotate(board, false) {
            stopped = true;
        }
        i = i + 1;
    }
    proof {
        if stopped {
            lemma_states_stay_empty(cells, *piece, weights, i as nat, count);
        }
    }
    placements
}

/// Finds the best deterministic final placement for one piece on one board.
#[must_use]
pub fn choose_placement(board: &Board, piece: &Piece, weights: EvaluationWeights) -> (r: Option<ComputerPlacement>)
    requires
        board.wf(),
        piece.wf(),
        piece.anchor_room(),
        placements_fit(board@, *piece, weights),
    ensures
        ({
            let s = reachable(board@, *piece, weights);
            r == if s.len() == 0 { None } else { Some(s[best_index(s, s.len() as int)]) }
        }),
{
    let placements = reachable_placements(board, piece, weights);
    if placements.len() == 0 {
        return None;
    }
    let mut best: usize = 0;
    let mut i: usize = 1;
    while i < placements.len()
        invariant
            1 <= i <= placements@.len(),
            best as int == best_index(placements@, i as int),
            0 <= best < i,
        decreases placements@.len() - i,
    {
        let candidate = placements[i];
        let current = placements[best];
        let improves = candidate.penalty < current.penalty || (candidate.penalty == current.penalty && (candidate.y
            < current.y || (candidate.y == current.y && (candidate.x < current.x || (candidate.x == current.x
            && candidate.orientation < current.orientation)))));
        if improves {
            best = i;
        }
        i = i + 1;
    }
    Some(placements[best])
}


proof fn lemma_default_evaluation_fits(cells: Seq<Option<Cell>>, kind: PieceKind, lines: u32)
    requires
        lines <= 28,
    ensures
        evaluation_fits(cells, kind, lines, default_weights()),
{
    lemma_tally_bounds(cells, 10);
    lemma_sum_bounds(cells, 10);
    let mean = heights_sum(cells, 10) / 10;
    assert(0 <= squared_deviation(cells, mean, 10) <= 7840);
    let mh = max_height(cells, 10);
    assert(0 <= mh * mh <= 784) by (nonlinear_arith)
        requires
            0 <= mh <= 28,
    ;
    assert(0 <= mh * mh * 30000 <= 784 * 30000) by (nonlinear_arith)
        requires
            0 <= mh * mh <= 784,
    ;
    assert((lines as i32) as int == lines as int);
}

/// With the legacy weights, every placement on a board of bounded cell values clears
/// lines and evaluates inside `i32`.
pub proof fn lemma_default_placements_fit(cells: Seq<Option<Cell>>, piece: Piece)
    requires
        cells.len() == 280,
        crate::game::values_bounded(cells),
        -1000 <= crate::cell::spec_value(piece.cell_spec()) <= 1000,
    ensures
        placements_fit(cells, piece, default_weights()),
{
    assert forall|k: nat| k < rotation_count(piece.kind_spec()) implies #[trigger] state_fits(cells, piece, default_weights(), k) by {
        match rotation_state(cells, piece.kind_spec(), piece.coords(), piece.orientation_spec(), piece.anchor_x(), piece.anchor_y(), k) {
            None => {},
            Some((c, o)) => {
                assert forall|x: int| -8 <= x < 18 implies #[trigger] candidate_fits(
                    cells,
                    piece.kind_spec(),
                    piece.cell_spec(),
                    c,
                    piece.anchor_y(),
                    x,
                    default_weights(),
                ) by {
                    if shape_fits(cells, c, x, piece.anchor_y(), false) {
                        let locked = dropped_board(cells, c, piece.anchor_y(), x, piece.cell_spec());
                        assert(crate::game::values_bounded(locked));
                        crate::game::lemma_clear_funds_bounded(locked);
                        lemma_default_evaluation_fits(cleared_board(locked), piece.kind_spec(), full_rows_from(locked, 0) as u32);
                    }
                }
            },
        }
    }
}


/// The commands that turn a piece to a placement's rotation state, slide it to the
/// placement's column and start its fast drop.
pub open spec fn placement_commands(turns: int, dx: int) -> Seq<Command> {
    Seq::new(turns as nat, |i: int| Command::RotateClockwise) + Seq::new(
        (if dx < 0 { -dx } else { dx }) as nat,
        |i: int| if dx < 0 { Command::MoveLeft } else { Command::MoveRight },
    ) + seq![Command::StartFastDrop]
}

/// The commands that turn a piece clockwise into a placement's rotation state, shift it to the
/// placement's column and start its fast drop.
pub fn commands_for_placement(piece: &Piece, placement: &ComputerPlacement) -> (r: Vec<Command>)
    requires
        placement.orientation + 4 <= u8::MAX,
        placement.orientation + 4 >= piece.orientation_spec(),
        isize::MIN < placement.x - piece.anchor_x() <= isize::MAX,
    ensures
        r@ == placement_commands(
            (placement.orientation + 4 - piece.orientation_spec()) % 4,
            placement.x - piece.anchor_x(),
        ),
{
    let mut commands: Vec<Command> = Vec::new();
    let rotations = (placement.orientation + 4 - piece.orientation()) % 4;
    let mut i: u8 = 0;
    while i < rotations
        invariant
            i <= rotations,
            commands@ == Seq::new(i as nat, |k: int| Command::RotateClockwise),
        decreases rotations - i,
    {
        commands.push(Command::RotateClockwise);
        i = i + 1;
        assert(commands@ =~= Seq::new(i as nat, |k: int| Command::RotateClockwise));
    }
    let dx = placement.x - piece.anchor().0;
    let command = if dx < 0 {
        Command::MoveLeft
    } else {
        Command::MoveRight
    };
    let steps: usize = if dx < 0 {
        (-dx) as usize
    } else {
        dx as usize
    };
    let ghost head = commands@;
    let mut j: usize = 0;
    while j < steps
        invariant
            j <= steps,
            commands@ == head + Seq::new(j as nat, |k: int| command),
        decreases steps - j,
    {
        commands.push(command);
        j = j + 1;
        assert(commands@ =~= head + Seq::new(j as nat, |k: int| command));
    }
    commands.push(Command::StartFastDrop);
    proof {
        let want = placement_commands(
            (placement.orientation + 4 - piece.orientation_spec()) % 4,
            placement.x - piece.anchor_x(),
        );
        assert(Seq::new(steps as nat, |k: int| command) =~= Seq::new(
            (if dx < 0 { -dx } else { dx as int }) as nat,
            |k: int| if dx < 0 { Command::MoveLeft } else { Command::MoveRight },
        ));
        assert(commands@ =~= want);
    }
    commands
}

/// The first arsenal slot among the first `n` that holds a weapon.
pub open spec fn first_slot_with(slots: Seq<Option<ArsenalSlot>>, token: WeaponToken, n: int) -> Option<int>
    decreases n,
{
    if n <= 0 {
        None
    } else {
        match first_slot_with(slots, token, n - 1) {
            Some(i) => Some(i),
            None => if slots[n - 1] matches Some(s) && s.token == token { Some(n - 1) } else { None },
        }
    }
}

/// The number key of a zero-based arsenal slot: `0` for the tenth slot.
pub open spec fn slot_label(index: int) -> u8 {
    if index == 9 { 0 } else { (index + 1) as u8 }
}

fn slot_label_for_token(arsenal: &Arsenal, token: WeaponToken) -> (r: Option<u8>)
    requires
        arsenal.wf(),
    ensures
        r == match first_slot_with(arsenal@, token, 10) {
            Some(i) => Some(slot_label(i)),
            None => None::<u8>,
        },
{
    let slots = arsenal.slots();
    let mut i: usize = 0;
    while i < 10
        invariant
            i <= 10,
            slots@ == arsenal@,
            arsenal@.len() == 10,
            first_slot_with(arsenal@, token, i as int) is None,
        decreases 10 - i,
    {
        if let Some(slot) = slots[i] {
            if slot.token == token {
                assert(first_slot_with(arsenal@, token, i as int + 1) == Some(i as int));
                proof {
                    lemma_first_slot_stays(arsenal@, token, i as int + 1, 10);
                }
                return Some(if i == 9 { 0 } else { (i + 1) as u8 });
            }
        }
        i = i + 1;
    }
    None
}

proof fn lemma_first_slot_stays(slots: Seq<Option<ArsenalSlot>>, token: WeaponToken, k: int, n: int)
    requires
        0 <= k <= n,
        first_slot_with(slots, token, k) is Some,
    ensures
        first_slot_with(slots, token, n) == first_slot_with(slots, token, k),
    decreases n - k,
{
    if n > k {
        lemma_first_slot_stays(slots, token, k, n - 1);
    }
}

/// The top occupied row at or below `y`, or the board height when none is.
pub open spec fn top_row_from(cells: Seq<Option<Cell>>, y: int) -> int
    decreases 28 - y,
{
    if y < 0 || y >= 28 {
        28
    } else if exists|x: int| 0 <= x < 10 && #[trigger] at(cells, x, y) is Some {
        y
    } else {
        top_row_from(cells, y + 1)
    }
}

fn board_top(board: &Board) -> (r: usize)
    requires
        board.wf(),
    ensures
        r == top_row_from(board@, 0),
        r <= 28,
{
    let mut y: usize = 0;
    while y < 28
        invariant
            y <= 28,
            board.wf(),
            top_row_from(board@, 0) == top_row_from(board@, y as int),
        decreases 28 - y,
    {
        let mut x: usize = 0;
        while x < 10
            invariant
                x <= 10,
                y < 28,
                board.wf(),
                top_row_from(board@, 0) == top_row_from(board@, y as int),
                forall|k: int| 0 <= k < x ==> #[trigger] at(board@, k, y as int) is None,
            decreases 10 - x,
        {
            if board.get(Coord { x, y }).is_some() {
                return y;
            }
            x = x + 1;
        }
        y = y + 1;
    }
    28
}


/// When a bought weapon may launch: once the opponent, the computer or the bazaar count
/// reaches a line total.
#[derive(Debug, Clone, Copy, PartialEq, Eq, Structural)]
pub enum LaunchGate {
    /// Opponent cleared-line total.
    Opponent(u32),
    /// Own cleared-line total.
    Mine(u32),
    /// Bazaar line total.
    Bazaar(u32),
}

/// A bought weapon waiting for its launch gate.
#[derive(Debug, Clone, Copy, PartialEq, Eq, Structural)]
pub struct WeaponOrder {
    /// The weapon to launch.
    pub token: WeaponToken,
    /// When it may launch.
    pub gate: LaunchGate,
}

/// When a bought weapon may launch: So Long, Mondale and Carter once the opponent's line
/// total is at least its total at purchase; Lawyers once the buyer has cleared one more line
/// than at purchase; every other weapon once the bazaar line count reaches the opponent's
/// total at purchase.
pub open spec fn gate_for_purchase(token: WeaponToken, my_lines: u32, opponent_lines: u32) -> LaunchGate {
    if token is SoLong || token is Mondale || token is Carter {
        LaunchGate::Opponent(opponent_lines)
    } else if token is Lawyers {
        LaunchGate::Mine(if my_lines == u32::MAX { u32::MAX } else { (my_lines + 1) as u32 })
    } else {
        LaunchGate::Bazaar(opponent_lines)
    }
}

/// Whether a gate is open at the given line totals.
pub open spec fn gate_open(gate: LaunchGate, my_lines: u32, opponent_lines: u32, bazaar_lines: u32) -> bool {
    match gate {
        LaunchGate::Opponent(lines) => opponent_lines >= lines,
        LaunchGate::Mine(lines) => my_lines >= lines,
        LaunchGate::Bazaar(lines) => bazaar_lines >= lines,
    }
}

fn launch_gate_for_purchase(token: WeaponToken, my_lines: u32, opponent_lines: u32) -> (r: LaunchGate)
    ensures
        r == gate_for_purchase(token, my_lines, opponent_lines),
{
    match token {
        WeaponToken::SoLong | WeaponToken::Mondale | WeaponToken::Carter => LaunchGate::Opponent(opponent_lines),
        WeaponToken::Lawyers => LaunchGate::Mine(my_lines.saturating_add(1)),
        _ => LaunchGate::Bazaar(opponent_lines),
    }
}

fn gate_satisfied(gate: LaunchGate, my_lines: u32, opponent_lines: u32, bazaar_lines: u32) -> (r: bool)
    ensures
        r == gate_open(gate, my_lines, opponent_lines, bazaar_lines),
{
    match gate {
        LaunchGate::Opponent(lines) => opponent_lines >= lines,
        LaunchGate::Mine(lines) => my_lines >= lines,
        LaunchGate::Bazaar(lines) => bazaar_lines >= lines,
    }
}

/// The slot labels of the orders whose gates are open, in order, for weapons still in the arsenal.
pub open spec fn launch_labels(orders: Seq<WeaponOrder>, slots: Seq<Option<ArsenalSlot>>, my_lines: u32, opponent_lines: u32, bazaar_lines: u32) -> Seq<u8>
    decreases orders.len(),
{
    if orders.len() == 0 {
        Seq::empty()
    } else {
        let prev = launch_labels(orders.drop_last(), slots, my_lines, opponent_lines, bazaar_lines);
        let o = orders.last();
        if gate_open(o.gate, my_lines, opponent_lines, bazaar_lines) {
            match first_slot_with(slots, o.token, 10) {
                Some(i) => prev.push(slot_label(i)),
                None => prev,
            }
        } else {
            prev
        }
    }
}

/// The orders whose gates are still closed, in order.
pub open spec fn waiting_orders(orders: Seq<WeaponOrder>, my_lines: u32, opponent_lines: u32, bazaar_lines: u32) -> Seq<WeaponOrder>
    decreases orders.len(),
{
    if orders.len() == 0 {
        Seq::empty()
    } else {
        let prev = waiting_orders(orders.drop_last(), my_lines, opponent_lines, bazaar_lines);
        if gate_open(orders.last().gate, my_lines, opponent_lines, bazaar_lines) {
            prev
        } else {
            prev.push(orders.last())
        }
    }
}

/// The weapons the computer considers buying, before the random rotation.
pub open spec fn shop_candidates() -> Seq<WeaponToken> {
    seq![
        WeaponToken::NiceDay,
        WeaponToken::Reagan,
        WeaponToken::Speedy,
        WeaponToken::Mondale,
        WeaponToken::Carter,
        WeaponToken::SoLong,
        WeaponToken::Swap,
        WeaponToken::Susan,
        WeaponToken::Mirror,
        WeaponToken::Gimp,
    ]
}

/// Whether the computer may buy a weapon now: Swap only while its stack top is within five
/// rows of the ceiling, Susan only once the opponent cleared fifty lines, and only what the
/// staged funds and the combo budget of 1250 allow.
pub open spec fn purchase_allowed(token: WeaponToken, bazaar: Bazaar, top: int, opponent_lines: u32, combo_cost: int) -> bool {
    let price = bazaar_price(token, bazaar.carter_of());
    &&& !(token is Swap && top > 5)
    &&& !(token is Susan && opponent_lines < 50)
    &&& price <= bazaar.funds_of()
    &&& combo_cost + price <= 1250
}

/// What a computer's combo costs: the bazaar prices of the weapons bought so far.
pub open spec fn combo_price(tokens: Seq<WeaponToken>, carter: bool) -> int
    decreases tokens.len(),
{
    if tokens.len() == 0 {
        0
    } else {
        combo_price(tokens.drop_last(), carter) + bazaar_price(tokens.last(), carter)
    }
}

/// Where a shopping round starts in the candidate list: the draw's remainder by ten.
pub open spec fn rotation_offset(draw: u64) -> int {
    (draw as usize) as int % 10
}

/// Purchase `i` of a shopping run through bazaars `zs` and generators `gs`: a fresh draw
/// rotates the candidates, the first allowed one is bought into its slot, and shopping
/// went on after every purchase but the last.
pub open spec fn shop_step_at(
    zs: Seq<Bazaar>,
    gs: Seq<ChaCha12Rng>,
    tokens: Seq<WeaponToken>,
    top: int,
    opponent_lines: u32,
    i: int,
) -> bool {
    let carter = zs[0].carter_of();
    let (draw, next) = chacha_next(gs[i]);
    &&& first_allowed(rotation_offset(draw), 0, zs[i], top, opponent_lines, combo_price(tokens.take(i), carter)) == Some(tokens[i])
    &&& buy_slot(zs[i].arsenal_of(), tokens[i]) matches Some(k) && bought(zs[i], zs[i + 1], tokens[i], Ok(k as usize))
    &&& gs[i + 1] == next
    &&& (i + 1 < tokens.len() ==> !(tokens[i] is Susan) && combo_price(tokens.take(i + 1), carter) < 750)
}

/// A whole shopping run from bazaar `z0` and generator `g0` to `zf` and `gf`, buying
/// `tokens` in order: it stops after Susan or once the combo costs 750, or else when the
/// next draw finds no allowed candidate, or when the arsenal has no slot for it.
pub open spec fn shop_run(
    z0: Bazaar,
    g0: ChaCha12Rng,
    zf: Bazaar,
    gf: ChaCha12Rng,
    tokens: Seq<WeaponToken>,
    zs: Seq<Bazaar>,
    gs: Seq<ChaCha12Rng>,
    top: int,
    opponent_lines: u32,
) -> bool {
    let n = tokens.len() as int;
    let cost = combo_price(tokens, z0.carter_of());
    &&& zs.len() == n + 1
    &&& gs.len() == n + 1
    &&& zs[0] == z0
    &&& gs[0] == g0
    &&& forall|i: int| 0 <= i < n ==> #[trigger] shop_step_at(zs, gs, tokens, top, opponent_lines, i)
    &&& if n > 0 && (tokens[n - 1] is Susan || cost >= 750) {
        zf == zs[n] && gf == gs[n]
    } else {
        let (draw, next) = chacha_next(gs[n]);
        &&& gf == next
        &&& match first_allowed(rotation_offset(draw), 0, zs[n], top, opponent_lines, cost) {
            None => zf == zs[n],
            Some(t) => buy_slot(zs[n].arsenal_of(), t) is None
                && bought(zs[n], zf, t, Err(BazaarError::Arsenal(ArsenalError::Full))),
        }
    }
}

/// The first allowed candidate in the candidate list rotated left by `offset`, from position `j` on.
pub open spec fn first_allowed(offset: int, j: int, bazaar: Bazaar, top: int, opponent_lines: u32, combo_cost: int) -> Option<WeaponToken>
    decreases 10 - j,
{
    if j < 0 || j >= 10 {
        None
    } else {
        let token = shop_candidates()[(offset + j) % 10];
        if purchase_allowed(token, bazaar, top, opponent_lines, combo_cost) {
            Some(token)
        } else {
            first_allowed(offset, j + 1, bazaar, top, opponent_lines, combo_cost)
        }
    }
}

proof fn lemma_first_allowed_candidate(offset: int, j: int, bazaar: Bazaar, top: int, opponent_lines: u32, combo_cost: int)
    requires
        0 <= offset < 10,
    ensures
        first_allowed(offset, j, bazaar, top, opponent_lines, combo_cost) matches Some(t) ==> purchase_allowed(
            t,
            bazaar,
            top,
            opponent_lines,
            combo_cost,
        ) && shop_candidates().contains(t),
    decreases 10 - j,
{
    if 0 <= j < 10 {
        let k = (offset + j) % 10;
        assert(shop_candidates()[k] == shop_candidates()[k]);
        lemma_first_allowed_candidate(offset, j + 1, bazaar, top, opponent_lines, combo_cost);
    }
}

/// Stateful deterministic computer opponent strategy.
#[derive(Debug)]
pub struct ComputerOpponent {
    difficulty: ComputerDifficulty,
    rng: ChaCha12Rng,
    orders: Vec<WeaponOrder>,
    next_launch_opponent_lines: u32,
}

impl ComputerOpponent {
    /// The difficulty row.
    pub closed spec fn difficulty_spec(&self) -> ComputerDifficulty {
        self.difficulty
    }

    /// Bought weapons waiting for their launch gates, oldest first.
    pub closed spec fn orders_spec(&self) -> Seq<WeaponOrder> {
        self.orders@
    }

    /// The opponent line total the current bazaar round's purchases wait for.
    pub closed spec fn next_launch_spec(&self) -> u32 {
        self.next_launch_opponent_lines
    }

    /// The stream that shopping draws its rotation from.
    pub closed spec fn rng_spec(&self) -> ChaCha12Rng {
        self.rng
    }

    /// Creates a deterministic computer opponent at a legacy difficulty level.
    #[must_use]
    pub fn new(seed: GameSeed, level: usize) -> (r: Self)
        ensures
            r.difficulty_spec().level == if level < 15 { level } else { 0 },
            r.difficulty_spec().delay_ms == difficulty_delay(if level < 15 { level as int } else { 0 }),
            r.difficulty_spec().name@ == difficulty_name(if level < 15 { level as int } else { 0 }),
            r.orders_spec() == seq![WeaponOrder { token: WeaponToken::Susan, gate: LaunchGate::Opponent(50) }],
            r.next_launch_spec() == 0,
    {
        let difficulty = match computer_difficulty(level) {
            Some(d) => d,
            None => difficulty_row(0),
        };
        let mut strategy = Self {
            difficulty,
            rng: seed.stream(RngStream::ComputerOpponent),
            orders: Vec::new(),
            next_launch_opponent_lines: 0,
        };
        strategy.reset_orders();
        strategy
    }

    /// Returns this opponent's difficulty row.
    #[must_use]
    pub fn difficulty(&self) -> (r: ComputerDifficulty)
        ensures
            r == self.difficulty_spec(),
    {
        self.difficulty
    }

    fn reset_orders(&mut self)
        ensures
            final(self).orders_spec() == seq![WeaponOrder { token: WeaponToken::Susan, gate: LaunchGate::Opponent(50) }],
            final(self).difficulty_spec() == old(self).difficulty_spec(),
            final(self).next_launch_spec() == old(self).next_launch_spec(),
            final(self).rng_spec() == old(self).rng_spec(),
    {
        self.orders.clear();
        self.orders.push(WeaponOrder { token: WeaponToken::Susan, gate: LaunchGate::Opponent(50) });
    }

    /// Chooses the minimum-penalty final placement for the loop's active piece.
    #[must_use]
    pub fn choose_placement(&self, piece_loop: &PieceLoop) -> (r: Option<ComputerPlacement>)
        requires
            piece_loop.wf(),
            piece_loop.economy_ok(),
        ensures
            match piece_loop.active_spec() {
                None => r is None,
                Some(p) => {
                    let s = reachable(piece_loop.board_view(), p, default_weights());
                    r == if s.len() == 0 { None } else { Some(s[best_index(s, s.len() as int)]) }
                },
            },
    {
        let piece = match piece_loop.active_piece() {
            Some(p) => p,
            None => {
                return None;
            },
        };
        let board = piece_loop.board();
        proof {
            piece_loop.lemma_active_bounds();
            lemma_default_placements_fit(board@, *piece);
        }
        choose_placement(board, piece, EvaluationWeights::default())
    }

    /// Converts the chosen placement into deterministic core commands.
    #[must_use]
    pub fn commands_for_placement(&self, piece_loop: &PieceLoop, placement: &ComputerPlacement) -> (r: Vec<Command>)
        requires
            piece_loop.active_spec() matches Some(p) ==> {
                &&& placement.orientation + 4 <= u8::MAX
                &&& placement.orientation + 4 >= p.orientation_spec()
                &&& isize::MIN < placement.x - p.anchor_x() <= isize::MAX
            },
        ensures
            match piece_loop.active_spec() {
                None => r@.len() == 0,
                Some(p) => r@ == placement_commands(
                    (placement.orientation + 4 - p.orientation_spec()) % 4,
                    placement.x - p.anchor_x(),
                ),
            },
    {
        match piece_loop.active_piece() {
            Some(piece) => commands_for_placement(piece, placement),
            None => Vec::new(),
        }
    }

    /// Returns launch slot labels whose order gates are satisfied, and keeps the orders
    /// whose gates are still closed.
    pub fn launch_slots(&mut self, arsenal: &Arsenal, my_lines: u32, opponent_lines: u32, bazaar_lines: u32) -> (r: Vec<u8>)
        requires
            arsenal.wf(),
        ensures
            r@ == launch_labels(old(self).orders_spec(), arsenal@, my_lines, opponent_lines, bazaar_lines),
            final(self).orders_spec() == waiting_orders(old(self).orders_spec(), my_lines, opponent_lines, bazaar_lines),
            final(self).difficulty_spec() == old(self).difficulty_spec(),
            final(self).next_launch_spec() == old(self).next_launch_spec(),
    {
        let mut slots: Vec<u8> = Vec::new();
        let mut remaining: Vec<WeaponOrder> = Vec::new();
        let ghost orders = self.orders@;
        let mut i: usize = 0;
        while i < self.orders.len()
            invariant
                i <= orders.len(),
                self.orders@ == orders,
                arsenal.wf(),
                slots@ == launch_labels(orders.take(i as int), arsenal@, my_lines, opponent_lines, bazaar_lines),
                remaining@ == waiting_orders(orders.take(i as int), my_lines, opponent_lines, bazaar_lines),
            decreases orders.len() - i,
        {
            let order = self.orders[i];
            assert(orders.take(i as int + 1).drop_last() =~= orders.take(i as int));
            assert(orders.take(i as int + 1).last() == order);
            if gate_satisfied(order.gate, my_lines, opponent_lines, bazaar_lines) {
                if let Some(label) = slot_label_for_token(arsenal, order.token) {
                    slots.push(label);
                }
            } else {
                remaining.push(order);
            }
            i = i + 1;
        }
        assert(orders.take(orders.len() as int) =~= orders);
        self.orders = remaining;
        slots
    }
}


impl ComputerOpponent {
    fn next_purchase(&mut self, bazaar: &Bazaar, board: &Board, opponent_lines: u32, combo_cost: i32) -> (r: Option<WeaponToken>)
        requires
            board.wf(),
            0 <= combo_cost <= 1250,
        ensures
            exists|offset: int| 0 <= offset < 10 && r == first_allowed(
                offset,
                0,
                *bazaar,
                top_row_from(board@, 0),
                opponent_lines,
                combo_cost as int,
            ),
            r matches Some(t) ==> purchase_allowed(t, *bazaar, top_row_from(board@, 0), opponent_lines, combo_cost as int)
                && shop_candidates().contains(t),
            final(self).orders_spec() == old(self).orders_spec(),
            final(self).difficulty_spec() == old(self).difficulty_spec(),
            final(self).next_launch_spec() == old(self).next_launch_spec(),
            r == first_allowed(
                rotation_offset(chacha_next(old(self).rng_spec()).0),
                0,
                *bazaar,
                top_row_from(board@, 0),
                opponent_lines,
                combo_cost as int,
            ),
            final(self).rng_spec() == chacha_next(old(self).rng_spec()).1,
    {
        let top = board_top(board);
        let swap_allowed = top <= 5;
        let susan_allowed = opponent_lines >= 50;
        let candidates: [WeaponToken; 10] = [
            WeaponToken::NiceDay,
            WeaponToken::Reagan,
            WeaponToken::Speedy,
            WeaponToken::Mondale,
            WeaponToken::Carter,
            WeaponToken::SoLong,
            WeaponToken::Swap,
            WeaponToken::Susan,
            WeaponToken::Mirror,
            WeaponToken::Gimp,
        ];
        assert(candidates@ =~= shop_candidates());
        let draw = crate::rng::chacha_next_u64(&mut self.rng);
        let offset = (draw as usize) % 10;
        assert(offset as int == rotation_offset(chacha_next(old(self).rng_spec()).0));
        let ghost t = top_row_from(board@, 0);
        proof {
            lemma_first_allowed_candidate(offset as int, 0, *bazaar, t, opponent_lines, combo_cost as int);
        }
        let mut j: usize = 0;
        while j < 10
            invariant
                j <= 10,
                offset < 10,
                0 <= combo_cost <= 1250,
                candidates@ == shop_candidates(),
                t == top_row_from(board@, 0),
                top == t,
                swap_allowed == (t <= 5),
                susan_allowed == (opponent_lines >= 50),
                self.orders@ == old(self).orders@,
                self.difficulty == old(self).difficulty,
                self.next_launch_opponent_lines == old(self).next_launch_opponent_lines,
                self.rng == chacha_next(old(self).rng_spec()).1,
                offset as int == rotation_offset(chacha_next(old(self).rng_spec()).0),
                first_allowed(offset as int, 0, *bazaar, t, opponent_lines, combo_cost as int) == first_allowed(
                    offset as int,
                    j as int,
                    *bazaar,
                    t,
                    opponent_lines,
                    combo_cost as int,
                ),
            decreases 10 - j,
        {
            let token = candidates[(offset + j) % 10];
            let price = bazaar.price(token);
            let allowed = !(token == WeaponToken::Swap && !swap_allowed) && !(token == WeaponToken::Susan && !susan_allowed)
                && price <= bazaar.staged_funds() && combo_cost + price <= 1250;
            if allowed {
                assert(first_allowed(offset as int, j as int, *bazaar, t, opponent_lines, combo_cost as int) == Some(token));
                proof {
                    lemma_first_allowed_candidate(offset as int, 0, *bazaar, t, opponent_lines, combo_cost as int);
                }
                return Some(token);
            }
            j = j + 1;
        }
        None
    }

    /// Buys a deterministic legacy-inspired weapon combo during bazaar: candidates in a random
    /// rotation, while funds and the combo budget allow, until Susan is bought or the combo
    /// reaches 750.
    pub fn shop(&mut self, bazaar: &mut Bazaar, my_lines: u32, opponent_lines: u32, board: &Board) -> (r: Vec<WeaponToken>)
        requires
            old(bazaar).wf(),
            board.wf(),
            forall|i: int| 0 <= i < 10 ==> (#[trigger] old(bazaar).arsenal_of()[i] matches Some(s) ==> s.quantity <= u32::MAX - 32),
        ensures
            final(bazaar).wf(),
            final(bazaar).carter_of() == old(bazaar).carter_of(),
            r@.len() <= 30,
            final(bazaar).purchases_of().len() == old(bazaar).purchases_of().len() + r@.len(),
            final(bazaar).purchases_of().subrange(0, old(bazaar).purchases_of().len() as int) == old(bazaar).purchases_of(),
            forall|i: int| 0 <= i < r@.len() ==> (#[trigger] final(bazaar).purchases_of()[old(bazaar).purchases_of().len() + i]).1 == r@[i],
            forall|i: int| 0 <= i < r@.len() ==> shop_candidates().contains(#[trigger] r@[i]) && !(r@[i] is Swap && top_row_from(board@, 0) > 5)
                && !(r@[i] is Susan && opponent_lines < 50),
            final(self).next_launch_spec() == if old(self).orders_spec().len() == 0 { opponent_lines } else { old(self).next_launch_spec() },
            final(self).orders_spec() == (if old(self).orders_spec().len() == 0 {
                seq![WeaponOrder { token: WeaponToken::Susan, gate: LaunchGate::Opponent(50) }]
            } else {
                old(self).orders_spec()
            }) + r@.map_values(|t: WeaponToken| WeaponOrder { token: t, gate: gate_for_purchase(t, my_lines, final(self).next_launch_spec()) }),
            final(self).difficulty_spec() == old(self).difficulty_spec(),
            exists|zs: Seq<Bazaar>, gs: Seq<ChaCha12Rng>|
                #[trigger] shop_run(
                    *old(bazaar),
                    old(self).rng_spec(),
                    *final(bazaar),
                    final(self).rng_spec(),
                    r@,
                    zs,
                    gs,
                    top_row_from(board@, 0),
                    opponent_lines,
                ),
    {
        if self.orders.len() == 0 {
            self.next_launch_opponent_lines = opponent_lines;
            self.reset_orders();
        }
        let ghost top = top_row_from(board@, 0);
        let ghost carter = bazaar.carter_of();
        let ghost mut zs: Seq<Bazaar> = seq![*bazaar];
        let ghost mut gs: Seq<ChaCha12Rng> = seq![self.rng];
        let ghost base = self.orders@;
        let ghost p0 = bazaar.purchases_of();
        proof {
            bazaar.lemma_arsenal_len();
        }
        let mut bought: Vec<WeaponToken> = Vec::new();
        let mut combo_cost: i32 = 0;
        loop
            invariant_except_break
                combo_cost < 750,
                bought@.len() > 0 ==> !(bought@.last() is Susan),
                zs.last() == *bazaar,
                gs.last() == self.rng,
            invariant
                zs.len() == bought@.len() + 1,
                gs.len() == bought@.len() + 1,
                zs[0] == *old(bazaar),
                gs[0] == old(self).rng_spec(),
                carter == old(bazaar).carter_of(),
                top == top_row_from(board@, 0),
                combo_cost as int == combo_price(bought@, carter),
                forall|i: int| 0 <= i < bought@.len() ==> #[trigger] shop_step_at(zs, gs, bought@, top, opponent_lines, i),
                bazaar.wf(),
                board.wf(),
                bazaar.carter_of() == old(bazaar).carter_of(),
                0 <= combo_cost <= 1250,
                25 * bought@.len() <= combo_cost,
                bought@.len() <= 30,
                forall|i: int| 0 <= i < 10 ==> (#[trigger] bazaar.arsenal_of()[i] matches Some(s) ==> s.quantity <= u32::MAX - 32 + bought@.len()),
                bazaar.purchases_of().len() == p0.len() + bought@.len(),
                bazaar.purchases_of().subrange(0, p0.len() as int) == p0,
                forall|i: int| 0 <= i < bought@.len() ==> (#[trigger] bazaar.purchases_of()[p0.len() + i]).1 == bought@[i],
                forall|i: int| 0 <= i < bought@.len() ==> shop_candidates().contains(#[trigger] bought@[i]) && !(bought@[i] is Swap && top_row_from(board@, 0) > 5)
                    && !(bought@[i] is Susan && opponent_lines < 50),
                self.orders@ == base + bought@.map_values(|t: WeaponToken| WeaponOrder { token: t, gate: gate_for_purchase(t, my_lines, self.next_launch_opponent_lines) }),
                self.next_launch_opponent_lines == if old(self).orders_spec().len() == 0 { opponent_lines } else { old(self).next_launch_spec() },
                self.difficulty == old(self).difficulty_spec(),
                base == (if old(self).orders_spec().len() == 0 {
                    seq![WeaponOrder { token: WeaponToken::Susan, gate: LaunchGate::Opponent(50) }]
                } else {
                    old(self).orders_spec()
                }),
            ensures
                shop_run(*old(bazaar), old(self).rng_spec(), *bazaar, self.rng, bought@, zs, gs, top, opponent_lines),
            decreases 750 - combo_cost,
        {
            let ghost g_before = self.rng;
            let ghost z_before = *bazaar;
            let ghost n = bought@.len() as int;
            let token = match self.next_purchase(bazaar, board, opponent_lines, combo_cost) {
                Some(t) => t,
                None => {
                    break;
                },
            };
            let price = bazaar.price(token);
            proof {
                lemma_candidate_price(token, bazaar.carter_of());
                bazaar.lemma_arsenal_len();
                crate::weapons::lemma_buy_slot_range(bazaar.arsenal_of(), token, 0);
            }
            let ghost before = *bazaar;
            let ghost purchases_before = bazaar.purchases_of();
            let bought_slot = bazaar.buy(token);
            if bought_slot.is_err() {
                break;
            }
            proof {
                bazaar.lemma_arsenal_len();
                assert forall|i: int| 0 <= i < 10 implies (#[trigger] bazaar.arsenal_of()[i] matches Some(s) ==> s.quantity <= u32::MAX - 32 + bought@.len() + 1) by {
                    assert(before.arsenal_of()[i] matches Some(s) ==> s.quantity <= u32::MAX - 32 + bought@.len());
                }
                assert(bazaar.purchases_of().subrange(0, p0.len() as int) =~= p0) by {
                    assert(purchases_before.subrange(0, p0.len() as int) == p0);
                    assert forall|j: int| 0 <= j < p0.len() implies bazaar.purchases_of()[j] == p0[j] by {
                        assert(bazaar.purchases_of()[j] == purchases_before[j]);
                        assert(purchases_before.subrange(0, p0.len() as int)[j] == purchases_before[j]);
                    }
                }
            }
            let ghost bought_before = bought@;
            bought.push(token);
            combo_cost = combo_cost + price;
            proof {
                let zs2 = zs.push(*bazaar);
                let gs2 = gs.push(self.rng);
                assert(bought@.drop_last() =~= bought_before);
                assert(bought@.take(n) =~= bought_before);
                assert forall|i: int| 0 <= i < bought@.len() implies #[trigger] shop_step_at(zs2, gs2, bought@, top, opponent_lines, i) by {
                    if i < n {
                        assert(shop_step_at(zs, gs, bought_before, top, opponent_lines, i));
                        assert(bought@.take(i) =~= bought_before.take(i));
                        assert(bought@.take(i + 1) =~= bought_before.take(i + 1));
                        assert(zs2[i] == zs[i] && zs2[i + 1] == zs[i + 1]);
                        assert(gs2[i] == gs[i] && gs2[i + 1] == gs[i + 1]);
                        if i + 1 == n {
                            assert(bought_before.take(n) =~= bought_before);
                        }
                    } else {
                        assert(zs2[i] == z_before);
                        assert(gs2[i] == g_before);
                    }
                }
                zs = zs2;
                gs = gs2;
            }
            let gate = launch_gate_for_purchase(token, my_lines, self.next_launch_opponent_lines);
            self.orders.push(WeaponOrder { token, gate });
            proof {
                assert(bought@.map_values(|t: WeaponToken| WeaponOrder { token: t, gate: gate_for_purchase(t, my_lines, self.next_launch_opponent_lines) })
                    =~= bought_before.map_values(|t: WeaponToken| WeaponOrder { token: t, gate: gate_for_purchase(t, my_lines, self.next_launch_opponent_lines) }).push(WeaponOrder { token, gate }));
                assert forall|i: int| 0 <= i < bought@.len() implies (#[trigger] bazaar.purchases_of()[p0.len() + i]).1 == bought@[i] by {
                    if i < bought_before.len() {
                        assert(bazaar.purchases_of()[p0.len() + i] == purchases_before[p0.len() + i]);
                    }
                }
            }
            if token == WeaponToken::Susan || combo_cost >= 750 || combo_cost >= 1250 {
                break;
            }
        }
        assert(shop_run(*old(bazaar), old(self).rng_spec(), *bazaar, self.rng_spec(), bought@, zs, gs, top_row_from(board@, 0), opponent_lines));
        bought
    }
}

proof fn lemma_candidate_price(token: WeaponToken, carter: bool)
    requires
        shop_candidates().contains(token),
    ensures
        25 <= bazaar_price(token, carter) <= 2400,
{
    let i = choose|i: int| 0 <= i < 10 && shop_candidates()[i] == token;
    assert(0 <= i < 10);
}

/// Two bazaars that agree on funds, staged arsenal, staged purchases and Carter pricing.
pub open spec fn same_shop_state(a: Bazaar, b: Bazaar) -> bool {
    &&& a.funds_of() == b.funds_of()
    &&& a.arsenal_of() == b.arsenal_of()
    &&& a.purchases_of() == b.purchases_of()
    &&& a.carter_of() == b.carter_of()
}

proof fn lemma_first_allowed_same(offset: int, j: int, a: Bazaar, b: Bazaar, top: int, opponent_lines: u32, cost: int)
    requires
        a.funds_of() == b.funds_of(),
        a.carter_of() == b.carter_of(),
    ensures
        first_allowed(offset, j, a, top, opponent_lines, cost) == first_allowed(offset, j, b, top, opponent_lines, cost),
    decreases 10 - j,
{
    if 0 <= j < 10 {
        lemma_first_allowed_same(offset, j + 1, a, b, top, opponent_lines, cost);
    }
}

proof fn lemma_shop_prefix(
    zs1: Seq<Bazaar>,
    gs1: Seq<ChaCha12Rng>,
    t1: Seq<WeaponToken>,
    zs2: Seq<Bazaar>,
    gs2: Seq<ChaCha12Rng>,
    t2: Seq<WeaponToken>,
    top: int,
    opponent_lines: u32,
    i: int,
)
    requires
        zs1.len() == t1.len() + 1,
        zs2.len() == t2.len() + 1,
        gs1.len() == t1.len() + 1,
        gs2.len() == t2.len() + 1,
        zs1[0] == zs2[0],
        gs1[0] == gs2[0],
        forall|k: int| 0 <= k < t1.len() ==> #[trigger] shop_step_at(zs1, gs1, t1, top, opponent_lines, k),
        forall|k: int| 0 <= k < t2.len() ==> #[trigger] shop_step_at(zs2, gs2, t2, top, opponent_lines, k),
        0 <= i <= t1.len(),
        i <= t2.len(),
    ensures
        gs1[i] == gs2[i],
        same_shop_state(zs1[i], zs2[i]),
        zs1[i].carter_of() == zs1[0].carter_of(),
        t1.take(i) == t2.take(i),
    decreases i,
{
    if i == 0 {
        assert(t1.take(0) =~= t2.take(0));
    } else {
        let k = i - 1;
        lemma_shop_prefix(zs1, gs1, t1, zs2, gs2, t2, top, opponent_lines, k);
        assert(shop_step_at(zs1, gs1, t1, top, opponent_lines, k));
        assert(shop_step_at(zs2, gs2, t2, top, opponent_lines, k));
        let carter = zs1[0].carter_of();
        let draw = chacha_next(gs1[k]).0;
        lemma_first_allowed_same(rotation_offset(draw), 0, zs1[k], zs2[k], top, opponent_lines, combo_price(t1.take(k), carter));
        assert(t1[k] == t2[k]);
        assert(t1.take(i) =~= t1.take(k).push(t1[k]));
        assert(t2.take(i) =~= t2.take(k).push(t2[k]));
        assert(zs1[i].purchases_of() =~= zs2[i].purchases_of());
        assert(zs1[i].arsenal_of() =~= zs2[i].arsenal_of());
    }
}

/// Replay of the computer's shopping: two shopping runs from the same bazaar and generator
/// buy the same weapons and leave the same generator, funds, staged arsenal and purchases.
pub proof fn lemma_shop_replay(
    z0: Bazaar,
    g0: ChaCha12Rng,
    zf1: Bazaar,
    gf1: ChaCha12Rng,
    t1: Seq<WeaponToken>,
    zs1: Seq<Bazaar>,
    gs1: Seq<ChaCha12Rng>,
    zf2: Bazaar,
    gf2: ChaCha12Rng,
    t2: Seq<WeaponToken>,
    zs2: Seq<Bazaar>,
    gs2: Seq<ChaCha12Rng>,
    top: int,
    opponent_lines: u32,
)
    requires
        shop_run(z0, g0, zf1, gf1, t1, zs1, gs1, top, opponent_lines),
        shop_run(z0, g0, zf2, gf2, t2, zs2, gs2, top, opponent_lines),
    ensures
        t1 == t2,
        gf1 == gf2,
        same_shop_state(zf1, zf2),
{
    let n1 = t1.len() as int;
    let n2 = t2.len() as int;
    let carter = z0.carter_of();
    let m = if n1 <= n2 { n1 } else { n2 };
    lemma_shop_prefix(zs1, gs1, t1, zs2, gs2, t2, top, opponent_lines, m);
    if n1 < n2 {
        assert(shop_step_at(zs2, gs2, t2, top, opponent_lines, n1));
        if n1 > 0 {
            assert(shop_step_at(zs2, gs2, t2, top, opponent_lines, n1 - 1));
            assert(t1 =~= t1.take(n1));
            assert(t1[n1 - 1] == t2.take(n1)[n1 - 1]);
        }
        assert(t1 =~= t1.take(n1));
        let draw = chacha_next(gs1[n1]).0;
        lemma_first_allowed_same(rotation_offset(draw), 0, zs1[n1], zs2[n1], top, opponent_lines, combo_price(t1, carter));
        assert(false);
    } else if n2 < n1 {
        assert(shop_step_at(zs1, gs1, t1, top, opponent_lines, n2));
        if n2 > 0 {
            assert(shop_step_at(zs1, gs1, t1, top, opponent_lines, n2 - 1));
            assert(t2 =~= t2.take(n2));
            assert(t2[n2 - 1] == t1.take(n2)[n2 - 1]);
        }
        assert(t2 =~= t2.take(n2));
        let draw = chacha_next(gs2[n2]).0;
        lemma_first_allowed_same(rotation_offset(draw), 0, zs1[n2], zs2[n2], top, opponent_lines, combo_price(t2, carter));
        assert(false);
    } else {
        assert(t1 =~= t1.take(n1));
        assert(t2 =~= t2.take(n2));
        assert(t1 == t2);
        let draw = chacha_next(gs1[n1]).0;
        lemma_first_allowed_same(rotation_offset(draw), 0, zs1[n1], zs2[n1], top, opponent_lines, combo_price(t1, carter));
    }
}

/// Position `(x, y)` is buried: it is empty and some cell above it in its column is occupied.
pub open spec fn buried(cells: Seq<Option<Cell>>, x: int, y: int) -> bool {
    at(cells, x, y) is None && exists|u: int| 0 <= u < y && #[trigger] at(cells, x, u) is Some
}

/// Row `y` is empty all the way to one wall from column `x`: every cell to its left is
/// empty, or every cell to its right.
pub open spec fn open_to_a_wall(cells: Seq<Option<Cell>>, x: int, y: int) -> bool {
    ||| forall|l: int| 0 <= l < x ==> #[trigger] at(cells, l, y) is None
    ||| forall|r: int| x < r < 10 ==> #[trigger] at(cells, r, y) is None
}

/// Buried positions of column `x` in rows `y..28` that are (`open`) or are not open to a wall.
pub open spec fn buried_count(cells: Seq<Option<Cell>>, x: int, y: int, open: bool) -> int
    decreases 28 - y,
{
    if y < 0 || y >= 28 {
        0
    } else {
        buried_count(cells, x, y + 1, open) + if buried(cells, x, y) && open_to_a_wall(cells, x, y) == open { 1int } else { 0 }
    }
}

/// Occupied cells of column `x` above row `y`.
pub open spec fn occupied_above(cells: Seq<Option<Cell>>, x: int, y: int) -> int
    decreases y,
{
    if y <= 0 {
        0
    } else {
        occupied_above(cells, x, y - 1) + if at(cells, x, y - 1) is Some { 1int } else { 0 }
    }
}

/// For the buried positions of column `x` in rows `y..28`, the occupied cells above each.
pub open spec fn cover_sum(cells: Seq<Option<Cell>>, x: int, y: int) -> int
    decreases 28 - y,
{
    if y < 0 || y >= 28 {
        0
    } else {
        cover_sum(cells, x, y + 1) + if buried(cells, x, y) { occupied_above(cells, x, y) } else { 0 }
    }
}

proof fn lemma_column_holes_from(cells: Seq<Option<Cell>>, x: int, y: int, seen: bool, covered: int)
    requires
        0 <= y <= 28,
        seen == exists|u: int| 0 <= u < y && #[trigger] at(cells, x, u) is Some,
        covered == occupied_above(cells, x, y),
    ensures
        column_holes(cells, x, y, seen, covered).0 == buried_count(cells, x, y, true),
        column_holes(cells, x, y, seen, covered).1 == buried_count(cells, x, y, false),
        column_holes(cells, x, y, seen, covered).2 == cover_sum(cells, x, y),
    decreases 28 - y,
{
    if y < 28 {
        let next_seen = exists|u: int| 0 <= u < y + 1 && #[trigger] at(cells, x, u) is Some;
        if at(cells, x, y) is Some {
            assert(next_seen);
            lemma_column_holes_from(cells, x, y + 1, true, covered + 1);
        } else {
            assert(next_seen == seen) by {
                if next_seen {
                    let u = choose|u: int| 0 <= u < y + 1 && #[trigger] at(cells, x, u) is Some;
                    assert(u < y);
                }
            }
            lemma_column_holes_from(cells, x, y + 1, seen, covered);
            assert(buried(cells, x, y) == seen);
            assert(side_escape(cells, x, y) == open_to_a_wall(cells, x, y));
        }
    }
}

/// How holes are told apart: in every column, the open holes counted are exactly the
/// buried positions whose row is empty to a wall on one side, the closed holes exactly the
/// buried positions walled in on both sides, and the covering count adds, for each buried
/// position, the occupied cells above it.
pub proof fn lemma_hole_kinds(cells: Seq<Option<Cell>>, x: int)
    ensures
        column_holes(cells, x, 0, false, 0).0 == buried_count(cells, x, 0, true),
        column_holes(cells, x, 0, false, 0).1 == buried_count(cells, x, 0, false),
        column_holes(cells, x, 0, false, 0).2 == cover_sum(cells, x, 0),
{
    lemma_column_holes_from(cells, x, 0, false, 0);
}

/// The default weights: a closed hole costs 10000, an open hole 7000, a covering cell 3000,
/// the squared height 30000 per 28, each cleared line earns 5000, a Happy clear 20000 more,
/// and the variance costs 50; so a closed hole weighs more than an open one, and an open one
/// more than a covering cell.
pub proof fn lemma_default_weights()
    ensures
        default_weights().closed_hole == 10000,
        default_weights().open_hole == 7000,
        default_weights().covered_hole == 3000,
        default_weights().height == 30000,
        default_weights().line_bonus == 5000,
        default_weights().happy_bonus == 20000,
        default_weights().variance == 50,
        default_weights().closed_hole > default_weights().open_hole > default_weights().covered_hole > 0,
{
}

/// An evaluation is the weighted sum of its terms: open holes, closed holes and covering
/// cells by their weights, the squared maximum height times the height weight divided by 28
/// (toward zero), the variance by its weight, less the line bonus per cleared line and the
/// Happy bonus when a Happy piece cleared lines.
pub proof fn lemma_evaluation_sum(cells: Seq<Option<Cell>>, kind: PieceKind, lines: u32, w: EvaluationWeights)
    ensures
        ({
            let t = hole_tally(cells);
            let mh = max_height(cells, 10);
            evaluation(cells, kind, lines, w) == t.0 * w.open_hole + t.1 * w.closed_hole + t.2 * w.covered_hole
                + trunc_div(mh * mh * w.height, 28) + height_variance(cells) * w.variance
                - (lines as i32) * w.line_bonus
                - (if kind == PieceKind::Happy && lines > 0 { w.happy_bonus as int } else { 0 })
        }),
{
}

/// A column's height counts the rows from its topmost occupied cell down to the floor: 28
/// less that cell's row, and zero for an empty column.
pub proof fn lemma_column_height(cells: Seq<Option<Cell>>, x: int, y: int)
    requires
        0 <= y < 28,
        at(cells, x, y) is Some,
        forall|u: int| 0 <= u < y ==> #[trigger] at(cells, x, u) is None,
    ensures
        column_height(cells, x) == 28 - y,
{
    lemma_height_from_top(cells, x, 0, y);
}

proof fn lemma_height_from_top(cells: Seq<Option<Cell>>, x: int, v: int, y: int)
    requires
        0 <= v <= y < 28,
        at(cells, x, y) is Some,
        forall|u: int| v <= u < y ==> #[trigger] at(cells, x, u) is None,
    ensures
        height_from(cells, x, v) == 28 - y,
    decreases y - v,
{
    if v < y {
        assert(at(cells, x, v) is None);
        lemma_height_from_top(cells, x, v + 1, y);
    }
}

proof fn lemma_height_from_empty(cells: Seq<Option<Cell>>, x: int, v: int)
    requires
        0 <= v <= 28,
        forall|u: int| v <= u < 28 ==> #[trigger] at(cells, x, u) is None,
    ensures
        height_from(cells, x, v) == 0,
    decreases 28 - v,
{
    if v < 28 {
        assert(at(cells, x, v) is None);
        lemma_height_from_empty(cells, x, v + 1);
    }
}

/// A column with no occupied cell has height zero.
pub proof fn lemma_empty_column_height(cells: Seq<Option<Cell>>, x: int)
    requires
        forall|u: int| 0 <= u < 28 ==> #[trigger] at(cells, x, u) is None,
    ensures
        column_height(cells, x) == 0,
{
    lemma_height_from_empty(cells, x, 0);
}

/// The maximum height is the height of some column (zero with no columns) and no column
/// among the first `n` is taller.
pub proof fn lemma_max_height(cells: Seq<Option<Cell>>, n: int)
    requires
        0 <= n,
    ensures
        forall|x: int| 0 <= x < n ==> column_height(cells, x) <= #[trigger] max_height(cells, n),
        n == 0 ==> max_height(cells, n) == 0,
        n > 0 ==> exists|x: int| 0 <= x < n && column_height(cells, x) == #[trigger] max_height(cells, n),
    decreases n,
{
    if n > 0 {
        lemma_max_height(cells, n - 1);
        if column_height(cells, n - 1) > max_height(cells, n - 1) {
            assert(column_height(cells, n - 1) == max_height(cells, n));
        } else if n > 1 {
            let x = choose|x: int| 0 <= x < n - 1 && column_height(cells, x) == #[trigger] max_height(cells, n - 1);
            assert(column_height(cells, x) == max_height(cells, n));
        } else {
            assert(column_height(cells, 0) == max_height(cells, n)) by {
                lemma_height_nonneg(cells, 0, 0);
            }
        }
    }
}

proof fn lemma_height_nonneg(cells: Seq<Option<Cell>>, x: int, v: int)
    ensures
        height_from(cells, x, v) >= 0,
    decreases 28 - v,
{
    if 0 <= v < 28 && at(cells, x, v) is None {
        lemma_height_nonneg(cells, x, v + 1);
    }
}

} // verus!
