//! Board dimensions, coordinates, occupancy, and snapshots.
//!
//! The board uses top-left origin coordinates: `x` increases to the right and
//! normal gravity increases `y`. Cells are stored and snapshotted row-major.

use crate::cell::{spec_legacy_id, spec_removable, spec_value, legacy_faithful, Cell};
use crate::rng::{chacha_next, chacha_next_u64};
use rand_chacha::ChaCha12Rng;
use vstd::prelude::*;

verus! {

/// Legacy board width in cells.
pub const BOARD_WIDTH: usize = 10;

/// Legacy board height in cells.
pub const BOARD_HEIGHT: usize = 28;

/// Number of cells on a legacy board.
pub const BOARD_CELLS: usize = BOARD_WIDTH * BOARD_HEIGHT;

/// Row-major index of a board position.
pub open spec fn cell_index(x: int, y: int) -> int {
    y * 10 + x
}

/// Whether a position lies on the board.
pub open spec fn in_board(x: int, y: int) -> bool {
    0 <= x < 10 && 0 <= y < 28
}

/// The cell at a position of a row-major cell sequence.
pub open spec fn at(cells: Seq<Option<Cell>>, x: int, y: int) -> Option<Cell> {
    cells[cell_index(x, y)]
}

/// Whether a cell slot holds a removable cell.
pub open spec fn slot_removable(slot: Option<Cell>) -> bool {
    slot matches Some(c) && spec_removable(c)
}

/// How a completed row is removed.
#[derive(Debug, Clone, Copy, PartialEq, Eq, Structural)]
pub enum LineClearMode {
    /// Legacy default: remove the row, drop all rows above it, and recheck the same row index.
    Normal,
    /// The Force weapon behavior: erase the row without dropping rows above it.
    Force,
}

/// Result of a completed-line scan.
#[derive(Debug, Clone, PartialEq, Eq)]
pub struct LineClearOutcome {
    /// Number of completed rows removed.
    pub lines_cleared: u32,
    /// Funds awarded by this scan.
    pub funds: i32,
    /// Happy cells converted to frowns because they were scanned in non-full rows.
    pub happy_missed: u32,
    /// Original row indexes removed, in legacy bottom-up scan order.
    pub cleared_rows: Vec<usize>,
}

/// A board coordinate with top-left origin.
#[derive(Debug, Clone, Copy, PartialEq, Eq, Structural)]
pub struct Coord {
    /// Horizontal position, where `0` is the left edge.
    pub x: usize,
    /// Vertical position, where `0` is the top row.
    pub y: usize,
}

impl Coord {
    /// Creates an in-bounds coordinate.
    #[must_use]
    pub fn new(x: usize, y: usize) -> (r: Option<Self>)
        ensures
            r is Some <==> in_board(x as int, y as int),
            r matches Some(c) ==> c.x == x && c.y == y,
    {
        if x < BOARD_WIDTH && y < BOARD_HEIGHT {
            Some(Self { x, y })
        } else {
            None
        }
    }
}

/// Errors returned when constructing or mutating boards and snapshots.
#[derive(Debug, Clone, PartialEq, Eq, Structural)]
pub enum BoardError {
    /// Width or height differs from the legacy board dimensions.
    InvalidDimensions {
        /// Snapshot or input width.
        width: usize,
        /// Snapshot or input height.
        height: usize,
    },
    /// Snapshot cell count does not match its dimensions.
    InvalidCellCount {
        /// Required number of row-major cells.
        expected: usize,
        /// Provided number of row-major cells.
        actual: usize,
    },
    /// A coordinate was outside the board.
    OutOfBounds {
        /// Horizontal coordinate.
        x: usize,
        /// Vertical coordinate.
        y: usize,
    },
}

/// The error a snapshot of the given shape is refused with, if any.
pub open spec fn snapshot_shape_error(width: usize, height: usize, len: nat) -> Option<BoardError> {
    if width != 10 || height != 28 {
        Some(BoardError::InvalidDimensions { width, height })
    } else if len != 280 {
        Some(BoardError::InvalidCellCount { expected: 280, actual: len as usize })
    } else {
        None
    }
}

fn check_snapshot_shape(width: usize, height: usize, len: usize) -> (r: Result<(), BoardError>)
    ensures
        match snapshot_shape_error(width, height, len as nat) {
            Some(e) => r == Err::<(), BoardError>(e),
            None => r is Ok,
        },
{
    if width != BOARD_WIDTH || height != BOARD_HEIGHT {
        return Err(BoardError::InvalidDimensions { width, height });
    }
    if len != width * height {
        return Err(BoardError::InvalidCellCount { expected: width * height, actual: len });
    }
    Ok(())
}

/// A typed, row-major board snapshot that preserves all core cell state.
#[derive(Debug, Clone, PartialEq, Eq)]
pub struct BoardSnapshot {
    /// Snapshot width in cells.
    pub width: usize,
    /// Snapshot height in cells.
    pub height: usize,
    /// Row-major cells indexed by `y * width + x`.
    pub cells: Vec<Option<Cell>>,
}

impl BoardSnapshot {
    /// Validates and creates a typed board snapshot.
    pub fn new(width: usize, height: usize, cells: Vec<Option<Cell>>) -> (r: Result<Self, BoardError>)
        ensures
            match snapshot_shape_error(width, height, cells@.len()) {
                Some(e) => r == Err::<Self, BoardError>(e),
                None => r matches Ok(s) && s.width == width && s.height == height && s.cells@ == cells@,
            },
    {
        check_snapshot_shape(width, height, cells.len())?;
        Ok(Self { width, height, cells })
    }
}

/// A legacy-compatible board snapshot with row-major numeric IDs.
#[derive(Debug, Clone, PartialEq, Eq)]
pub struct LegacyBoardSnapshot {
    /// Legacy motivation field preserved for future protocol adapters.
    pub motivation: i32,
    /// Snapshot width in cells.
    pub width: usize,
    /// Snapshot height in cells.
    pub height: usize,
    /// Row-major legacy IDs indexed by `y * width + x`.
    pub ids: Vec<i16>,
}

impl LegacyBoardSnapshot {
    /// Validates and creates a legacy board snapshot.
    pub fn new(motivation: i32, width: usize, height: usize, ids: Vec<i16>) -> (r: Result<Self, BoardError>)
        ensures
            match snapshot_shape_error(width, height, ids@.len()) {
                Some(e) => r == Err::<Self, BoardError>(e),
                None => r matches Ok(s) && s.motivation == motivation && s.width == width
                    && s.height == height && s.ids@ == ids@,
            },
    {
        check_snapshot_shape(width, height, ids.len())?;
        Ok(Self { motivation, width, height, ids })
    }
}

/// The legacy snapshot ID of a cell slot; an empty slot is `0`.
pub open spec fn slot_legacy_id(slot: Option<Cell>) -> int {
    match slot {
        Some(c) => spec_legacy_id(c),
        None => 0,
    }
}

/// Number of slots of a sequence that satisfy a predicate.
pub open spec fn count_slots(s: Seq<Option<Cell>>, p: spec_fn(Option<Cell>) -> bool) -> nat
    decreases s.len(),
{
    if s.len() == 0 {
        0
    } else {
        count_slots(s.drop_last(), p) + if p(s.last()) { 1nat } else { 0nat }
    }
}

/// Number of positions below `n` where two sequences differ.
pub open spec fn count_changed(a: Seq<Option<Cell>>, b: Seq<Option<Cell>>, n: int) -> nat
    decreases n,
{
    if n <= 0 {
        0
    } else {
        count_changed(a, b, n - 1) + if a[n - 1] != b[n - 1] { 1nat } else { 0nat }
    }
}

/// Division and remainder by the board width undo a row-major index.
pub proof fn lemma_div_mod_10(a: int, b: int)
    requires
        0 <= a,
        0 <= b < 10,
    ensures
        (a * 10 + b) % 10 == b,
        (a * 10 + b) / 10 == a,
{
    assert((a * 10 + b) % 10 == b) by (nonlinear_arith)
        requires 0 <= a, 0 <= b < 10;
    assert((a * 10 + b) / 10 == a) by (nonlinear_arith)
        requires 0 <= a, 0 <= b < 10;
}

/// A row-major index splits into its column and row.
pub proof fn lemma_index_split(i: int)
    requires
        0 <= i,
    ensures
        i == (i / 10) * 10 + i % 10,
        0 <= i % 10 < 10,
{
}

proof fn lemma_count_slots_bound(s: Seq<Option<Cell>>, p: spec_fn(Option<Cell>) -> bool)
    ensures
        count_slots(s, p) <= s.len(),
    decreases s.len(),
{
    if s.len() > 0 {
        lemma_count_slots_bound(s.drop_last(), p);
    }
}

proof fn lemma_count_changed_same_prefix(a: Seq<Option<Cell>>, b: Seq<Option<Cell>>, c: Seq<Option<Cell>>, n: int)
    requires
        forall|j: int| 0 <= j < n ==> b[j] == c[j],
    ensures
        count_changed(a, b, n) == count_changed(a, c, n),
    decreases n,
{
    if n > 0 {
        lemma_count_changed_same_prefix(a, b, c, n - 1);
    }
}

proof fn lemma_middle_empty_prefix_in_middle(cells: Seq<Option<Cell>>, n: int)
    requires
        0 <= n <= 140,
    ensures
        middle_empty_prefix(cells, n).len() <= n,
        forall|j: int| 0 <= j < middle_empty_prefix(cells, n).len() ==> {
            let c = #[trigger] middle_empty_prefix(cells, n)[j];
            &&& in_middle(c.0 as int, c.1 as int)
            &&& cells[cell_index(c.0 as int, c.1 as int)] is None
        },
    decreases n,
{
    if n > 0 {
        lemma_middle_empty_prefix_in_middle(cells, n - 1);
    }
}

proof fn lemma_count_changed_bound(a: Seq<Option<Cell>>, b: Seq<Option<Cell>>, n: int)
    ensures
        0 <= n ==> count_changed(a, b, n) <= n,
    decreases n,
{
    if n > 0 {
        lemma_count_changed_bound(a, b, n - 1);
    }
}

#[verifier::opaque]
/// The board position visited at step `k` of the wrapped row-major scan that
/// starts at `(start_x, start_y)`.
pub open spec fn scan_x(start_x: int, k: int) -> int {
    (start_x + k % 10) % 10
}

#[verifier::opaque]
/// The row visited at step `k` of the wrapped scan that starts on `start_y`.
pub open spec fn scan_y(start_y: int, k: int) -> int {
    (start_y + k / 10) % 28
}

/// The wrapped row-major scan visits every board position within its first 280 steps.
pub proof fn lemma_scan_covers(start_x: int, start_y: int, x: int, y: int) -> (k: int)
    requires
        0 <= start_x < 10,
        0 <= start_y < 28,
        in_board(x, y),
    ensures
        0 <= k < 280,
        scan_x(start_x, k) == x,
        scan_y(start_y, k) == y,
{
    let dx = if x >= start_x { x - start_x } else { x + 10 - start_x };
    let dy = if y >= start_y { y - start_y } else { y + 28 - start_y };
    let k = dy * 10 + dx;
    lemma_div_mod_10(dy, dx);
    reveal(scan_x);
    reveal(scan_y);
    assert(0 <= k < 280) by (nonlinear_arith)
        requires k == dy * 10 + dx, 0 <= dy < 28, 0 <= dx < 10;
    k
}

/// What a random middle cell does to `cells` with generator `rng`: with no empty middle
/// position nothing changes and nothing is drawn; otherwise one draw picks among the empty
/// middle positions, row-major, by its remainder.
pub open spec fn middle_cell_placed(cells: Seq<Option<Cell>>, cell: Cell, rng: ChaCha12Rng) -> (Seq<Option<Cell>>, ChaCha12Rng) {
    let candidates = middle_empty_coords(cells);
    if candidates.len() == 0 {
        (cells, rng)
    } else {
        let (draw, next) = chacha_next(rng);
        let chosen = candidates[draw as int % candidates.len() as int];
        (cells.update(cell_index(chosen.0 as int, chosen.1 as int), Some(cell)), next)
    }
}

/// Blind Cleric over the first `n` slots, in index order: each removable cell takes the
/// next draw and is removed when the draw is even.
pub open spec fn blind_scan(cells: Seq<Option<Cell>>, rng: ChaCha12Rng, n: int) -> (Seq<Option<Cell>>, ChaCha12Rng)
    decreases n,
{
    if n <= 0 {
        (cells, rng)
    } else {
        let (c, g) = blind_scan(cells, rng, n - 1);
        if slot_removable(cells[n - 1]) {
            let (draw, next) = chacha_next(g);
            if draw % 2 == 0 { (c.update(n - 1, None), next) } else { (c, next) }
        } else {
            (c, g)
        }
    }
}

/// The scan of the first `n` slots leaves slots `n..` alone.
pub proof fn lemma_blind_scan_prefix(cells: Seq<Option<Cell>>, rng: ChaCha12Rng, n: int)
    requires
        0 <= n <= cells.len(),
    ensures
        blind_scan(cells, rng, n).0.len() == cells.len(),
        forall|j: int| n <= j < cells.len() ==> #[trigger] blind_scan(cells, rng, n).0[j] == cells[j],
    decreases n,
{
    if n > 0 {
        lemma_blind_scan_prefix(cells, rng, n - 1);
    }
}

/// Whether a position is in the middle half of the board.
pub open spec fn in_middle(x: int, y: int) -> bool {
    0 <= x < 10 && 7 <= y < 21
}

/// Empty middle-half positions, in row-major order, among the first `n` middle cells.
pub open spec fn middle_empty_prefix(cells: Seq<Option<Cell>>, n: int) -> Seq<(usize, usize)>
    decreases n,
{
    if n <= 0 {
        Seq::empty()
    } else {
        let prev = middle_empty_prefix(cells, n - 1);
        let i = 70 + n - 1;
        if cells[i] is None {
            prev.push(((i % 10) as usize, (i / 10) as usize))
        } else {
            prev
        }
    }
}

/// All empty middle-half positions of a board, in row-major order.
pub open spec fn middle_empty_coords(cells: Seq<Option<Cell>>) -> Seq<(usize, usize)> {
    middle_empty_prefix(cells, 140)
}

/// Whether a position is one of the Bottle neck wall positions.
pub open spec fn in_bottle_neck(x: int, y: int) -> bool {
    10 <= y < 18 && (x <= 2 || x >= 7) && 0 <= x < 10
}


/// Row `y` of a row-major cell sequence.
pub open spec fn board_row(cells: Seq<Option<Cell>>, y: int) -> Seq<Option<Cell>> {
    cells.subrange(y * 10, y * 10 + 10)
}

/// A row with no empty slot.
pub open spec fn row_full(row: Seq<Option<Cell>>) -> bool {
    forall|x: int| 0 <= x < row.len() ==> #[trigger] row[x] is Some
}

/// Funds value of a slot; an empty slot is worth nothing.
pub open spec fn slot_value(slot: Option<Cell>) -> int {
    match slot {
        Some(c) => spec_value(c),
        None => 0,
    }
}

/// Sum of the funds values of a row's cells.
pub open spec fn row_value(row: Seq<Option<Cell>>) -> int
    decreases row.len(),
{
    if row.len() == 0 {
        0
    } else {
        row_value(row.drop_last()) + slot_value(row.last())
    }
}

/// Number of happy cells in a row.
pub open spec fn row_happy(row: Seq<Option<Cell>>) -> nat
    decreases row.len(),
{
    if row.len() == 0 {
        0
    } else {
        row_happy(row.drop_last()) + if row.last() == Some(Cell::Happy) { 1nat } else { 0nat }
    }
}

/// A row with every happy cell turned into a frown.
pub open spec fn frown_row(row: Seq<Option<Cell>>) -> Seq<Option<Cell>> {
    Seq::new(row.len(), |x: int| if row[x] == Some(Cell::Happy) { Some(Cell::Frown) } else { row[x] })
}

/// An empty row.
pub open spec fn empty_row() -> Seq<Option<Cell>> {
    Seq::new(10, |x: int| None)
}

/// Number of full rows among rows `p..28`.
pub open spec fn full_rows_from(cells: Seq<Option<Cell>>, p: int) -> nat
    decreases 28 - p,
{
    if p >= 28 || p < 0 {
        0
    } else {
        full_rows_from(cells, p + 1) + if row_full(board_row(cells, p)) { 1nat } else { 0nat }
    }
}

/// Sum of the funds values of the full rows among rows `p..28`.
pub open spec fn full_value_from(cells: Seq<Option<Cell>>, p: int) -> int
    decreases 28 - p,
{
    if p >= 28 || p < 0 {
        0
    } else {
        full_value_from(cells, p + 1) + if row_full(board_row(cells, p)) { row_value(board_row(cells, p)) } else { 0 }
    }
}

/// Number of happy cells in the rows among `p..28` that are not full.
pub open spec fn missed_happy_from(cells: Seq<Option<Cell>>, p: int) -> nat
    decreases 28 - p,
{
    if p >= 28 || p < 0 {
        0
    } else {
        missed_happy_from(cells, p + 1) + if row_full(board_row(cells, p)) { 0nat } else { row_happy(board_row(cells, p)) }
    }
}

/// The rows among `p..28` that are not full, top to bottom, with happy cells frowned.
pub open spec fn kept_rows_from(cells: Seq<Option<Cell>>, p: int) -> Seq<Seq<Option<Cell>>>
    decreases 28 - p,
{
    if p >= 28 || p < 0 {
        Seq::empty()
    } else if row_full(board_row(cells, p)) {
        kept_rows_from(cells, p + 1)
    } else {
        seq![frown_row(board_row(cells, p))] + kept_rows_from(cells, p + 1)
    }
}

/// Row numbers of the full rows among `p..28`, bottom-up.
pub open spec fn full_rows_bottom_up_from(cells: Seq<Option<Cell>>, p: int) -> Seq<int>
    decreases 28 - p,
{
    if p >= 28 || p < 0 {
        Seq::empty()
    } else if row_full(board_row(cells, p)) {
        full_rows_bottom_up_from(cells, p + 1).push(p)
    } else {
        full_rows_bottom_up_from(cells, p + 1)
    }
}

/// Funds awarded by a scan: the value of all cleared rows times their number.
pub open spec fn clear_funds(cells: Seq<Option<Cell>>) -> int {
    full_value_from(cells, 0) * full_rows_from(cells, 0)
}


/// The cell a completed-line scan in `mode` leaves at `(x, y)`.
pub open spec fn cleared_at(cells: Seq<Option<Cell>>, mode: LineClearMode, x: int, y: int) -> Option<Cell> {
    match mode {
        LineClearMode::Normal => if y < full_rows_from(cells, 0) {
            None
        } else {
            kept_rows_from(cells, 0)[y - full_rows_from(cells, 0)][x]
        },
        LineClearMode::Force => force_expected(cells, y)[x],
    }
}

/// The row that a normal clear leaves at `yy` while rows `0..p` are still
/// unscanned and `e` emptied rows sit above them.
pub open spec fn normal_expected(cells: Seq<Option<Cell>>, p: int, e: int, yy: int) -> Seq<Option<Cell>> {
    let c = full_rows_from(cells, p) as int;
    if yy < e {
        empty_row()
    } else if yy < e + p {
        board_row(cells, yy - e)
    } else if yy < p + c {
        empty_row()
    } else {
        kept_rows_from(cells, p)[yy - (p + c)]
    }
}

/// The row that a forced clear leaves at `yy`: emptied when it was full,
/// otherwise its happy cells frowned.
pub open spec fn force_expected(cells: Seq<Option<Cell>>, yy: int) -> Seq<Option<Cell>> {
    if row_full(board_row(cells, yy)) {
        empty_row()
    } else {
        frown_row(board_row(cells, yy))
    }
}

proof fn lemma_suffix_sizes(cells: Seq<Option<Cell>>, p: int)
    requires
        cells.len() == 280,
        0 <= p <= 28,
    ensures
        kept_rows_from(cells, p).len() + full_rows_from(cells, p) == 28 - p,
        forall|i: int| 0 <= i < kept_rows_from(cells, p).len() ==> (#[trigger] kept_rows_from(cells, p)[i]).len() == 10,
        missed_happy_from(cells, p) <= 10 * (28 - p),
        -(28 - p) * 10 * 0x8000_0000 <= full_value_from(cells, p) <= (28 - p) * 10 * 0x8000_0000,
        full_rows_bottom_up_from(cells, p).len() == full_rows_from(cells, p),
    decreases 28 - p,
{
    if p < 28 {
        lemma_suffix_sizes(cells, p + 1);
        lemma_row_bounds(board_row(cells, p));
    }
}

/// Distinct board positions have distinct row-major indexes.
pub proof fn lemma_index_unique(x1: int, y1: int, x2: int, y2: int)
    requires
        in_board(x1, y1),
        in_board(x2, y2),
        cell_index(x1, y1) == cell_index(x2, y2),
    ensures
        x1 == x2,
        y1 == y2,
{
}

proof fn lemma_row_bounds(row: Seq<Option<Cell>>)
    ensures
        row_happy(row) <= row.len(),
        -(row.len() as int) * 0x8000_0000 <= row_value(row) <= (row.len() as int) * 0x8000_0000,
    decreases row.len(),
{
    if row.len() > 0 {
        lemma_row_bounds(row.drop_last());
        let s = row.last();
        match s {
            Some(c) => {
                assert(-0x8000_0000 <= spec_value(c) <= 0x8000_0000);
            },
            None => {},
        }
    }
}

proof fn lemma_empty_row_stats(row: Seq<Option<Cell>>)
    requires
        forall|x: int| 0 <= x < row.len() ==> #[trigger] row[x] is None,
    ensures
        row_happy(row) == 0,
        frown_row(row) =~= row,
    decreases row.len(),
{
    if row.len() > 0 {
        lemma_empty_row_stats(row.drop_last());
    }
}

/// A player's rectangular BattleTris board.
#[derive(Debug, PartialEq, Eq)]
pub struct Board {
    cells: Vec<Option<Cell>>,
}

impl View for Board {
    type V = Seq<Option<Cell>>;

    closed spec fn view(&self) -> Seq<Option<Cell>> {
        self.cells@
    }
}

impl Clone for Board {
    fn clone(&self) -> (r: Self)
        ensures
            r@ == self@,
    {
        Board { cells: self.cells.clone() }
    }
}

impl Board {
    /// A board always holds exactly one slot per board position.
    pub open spec fn wf(&self) -> bool {
        self@.len() == 280
    }

    /// Creates an empty legacy-sized board.
    #[must_use]
    pub fn empty() -> (r: Self)
        ensures
            r.wf(),
            forall|i: int| 0 <= i < 280 ==> #[trigger] r@[i] is None,
    {
        let mut cells: Vec<Option<Cell>> = Vec::new();
        let mut i: usize = 0;
        while i < BOARD_CELLS
            invariant
                i <= 280,
                cells@.len() == i,
                forall|j: int| 0 <= j < i ==> #[trigger] cells@[j] is None,
            decreases 280 - i,
        {
            cells.push(None);
            i = i + 1;
        }
        Self { cells }
    }

    /// Recreates a board from a typed snapshot.
    pub fn from_snapshot(snapshot: BoardSnapshot) -> (r: Result<Self, BoardError>)
        ensures
            match snapshot_shape_error(snapshot.width, snapshot.height, snapshot.cells@.len()) {
                Some(e) => r == Err::<Self, BoardError>(e),
                None => r matches Ok(b) && b.wf() && b@ == snapshot.cells@,
            },
    {
        check_snapshot_shape(snapshot.width, snapshot.height, snapshot.cells.len())?;
        Ok(Self { cells: snapshot.cells })
    }

    /// Recreates a board from a legacy ID snapshot.
    ///
    /// This intentionally loses legacy-invisible cells because ID `0` means both
    /// empty and Bug Report invisible in the legacy snapshot representation.
    pub fn from_legacy_snapshot(snapshot: LegacyBoardSnapshot) -> (r: Result<Self, BoardError>)
        ensures
            match snapshot_shape_error(snapshot.width, snapshot.height, snapshot.ids@.len()) {
                Some(e) => r == Err::<Self, BoardError>(e),
                None => r matches Ok(b) && b.wf() && forall|i: int| 0 <= i < 280 ==> {
                    &&& (#[trigger] b@[i] is Some <==> 1 <= snapshot.ids@[i] <= 29)
                    &&& (b@[i] matches Some(c) ==> spec_legacy_id(c) == snapshot.ids@[i] && legacy_faithful(c))
                },
            },
    {
        check_snapshot_shape(snapshot.width, snapshot.height, snapshot.ids.len())?;
        let mut cells: Vec<Option<Cell>> = Vec::new();
        let mut i: usize = 0;
        while i < BOARD_CELLS
            invariant
                i <= 280,
                snapshot.ids@.len() == 280,
                cells@.len() == i,
                forall|j: int| 0 <= j < i ==> {
                    &&& (#[trigger] cells@[j] is Some <==> 1 <= snapshot.ids@[j] <= 29)
                    &&& (cells@[j] matches Some(c) ==> spec_legacy_id(c) == snapshot.ids@[j] && legacy_faithful(c))
                },
            decreases 280 - i,
        {
            cells.push(Cell::from_legacy_id(snapshot.ids[i]));
            i = i + 1;
        }
        Ok(Self { cells })
    }

    /// Returns the legacy board width.
    #[must_use]
    pub fn width(&self) -> (r: usize)
        ensures
            r == 10,
    {
        BOARD_WIDTH
    }

    /// Returns the legacy board height.
    #[must_use]
    pub fn height(&self) -> (r: usize)
        ensures
            r == 28,
    {
        BOARD_HEIGHT
    }

    /// Returns the cell at an in-bounds coordinate.
    #[must_use]
    pub fn get(&self, coord: Coord) -> (r: Option<Cell>)
        requires
            self.wf(),
            in_board(coord.x as int, coord.y as int),
        ensures
            r == at(self@, coord.x as int, coord.y as int),
    {
        self.cells[coord.y * BOARD_WIDTH + coord.x]
    }

    /// Sets a cell at an in-bounds coordinate.
    pub fn set(&mut self, coord: Coord, cell: Option<Cell>)
        requires
            old(self).wf(),
            in_board(coord.x as int, coord.y as int),
        ensures
            final(self).wf(),
            final(self)@ == old(self)@.update(cell_index(coord.x as int, coord.y as int), cell),
    {
        let index = coord.y * BOARD_WIDTH + coord.x;
        self.cells.set(index, cell);
    }

    /// Sets a cell by raw coordinates, returning an error when out of bounds.
    pub fn try_set(&mut self, x: usize, y: usize, cell: Option<Cell>) -> (r: Result<(), BoardError>)
        requires
            old(self).wf(),
        ensures
            final(self).wf(),
            in_board(x as int, y as int) ==> r is Ok && final(self)@ == old(self)@.update(cell_index(x as int, y as int), cell),
            !in_board(x as int, y as int) ==> r == Err::<(), BoardError>(BoardError::OutOfBounds { x, y })
                && final(self)@ == old(self)@,
    {
        match Coord::new(x, y) {
            Some(coord) => {
                self.set(coord, cell);
                Ok(())
            },
            None => Err(BoardError::OutOfBounds { x, y }),
        }
    }

    /// Returns whether a signed coordinate is outside the board.
    #[must_use]
    pub fn is_out_of_bounds(x: isize, y: isize) -> (r: bool)
        ensures
            r == !in_board(x as int, y as int),
    {
        x < 0 || y < 0 || x >= 10 || y >= 28
    }

    /// Returns true when a coordinate is out of bounds or contains a cell.
    #[must_use]
    pub fn is_occupied(&self, x: isize, y: isize) -> (r: bool)
        requires
            self.wf(),
        ensures
            r == (!in_board(x as int, y as int) || at(self@, x as int, y as int) is Some),
    {
        if Self::is_out_of_bounds(x, y) {
            return true;
        }
        self.cells[(y as usize) * BOARD_WIDTH + (x as usize)].is_some()
    }

    /// Fallout occupancy lets the middle six columns fall below the board.
    #[must_use]
    pub fn is_occupied_with_fallout(&self, x: isize, y: isize, fallout: bool) -> (r: bool)
        requires
            self.wf(),
        ensures
            r == if fallout && 2 <= x <= 7 && y >= 28 {
                false
            } else {
                !in_board(x as int, y as int) || at(self@, x as int, y as int) is Some
            },
    {
        if fallout && 2 <= x && x <= 7 && y >= 28 {
            return false;
        }
        self.is_occupied(x, y)
    }

    /// Inserts one legacy garbage line at the bottom, pushing existing rows up.
    pub fn insert_garbage_line(&mut self, hole: usize)
        requires
            old(self).wf(),
        ensures
            final(self).wf(),
            forall|x: int, y: int| 0 <= x < 10 && 0 <= y < 27 ==>
                #[trigger] at(final(self)@, x, y) == at(old(self)@, x, y + 1),
            forall|x: int| 0 <= x < 10 && x == hole % 10 ==> #[trigger] at(final(self)@, x, 27) is None,
            forall|x: int| 0 <= x < 10 && x != hole % 10 ==> (#[trigger] at(final(self)@, x, 27) matches
                Some(Cell::Visible { color }) && color@ == 1),
    {
        let hole = hole % BOARD_WIDTH;
        let ghost orig = self.cells@;
        let mut i: usize = 0;
        while i < 270
            invariant
                i <= 270,
                self.cells@.len() == 280,
                forall|j: int| 0 <= j < i ==> #[trigger] self.cells@[j] == orig[j + 10],
                forall|j: int| i <= j < 280 ==> #[trigger] self.cells@[j] == orig[j],
            decreases 270 - i,
        {
            let moved = self.cells[i + 10];
            self.cells.set(i, moved);
            i = i + 1;
        }
        let mut x: usize = 0;
        while x < BOARD_WIDTH
            invariant
                x <= 10,
                hole < 10,
                self.cells@.len() == 280,
                forall|j: int| 0 <= j < 270 ==> #[trigger] self.cells@[j] == orig[j + 10],
                forall|xx: int| 0 <= xx < x && xx == hole ==> #[trigger] self.cells@[270 + xx] is None,
                forall|xx: int| 0 <= xx < x && xx != hole ==> (#[trigger] self.cells@[270 + xx] matches
                    Some(Cell::Visible { color }) && color@ == 1),
            decreases 10 - x,
        {
            let slot = if x == hole { None } else { Some(Cell::visible()) };
            self.cells.set(270 + x, slot);
            x = x + 1;
        }
    }

    /// Mirrors board contents on the vertical axis, matching Flip out.
    pub fn flip_on_vertical_axis(&mut self)
        requires
            old(self).wf(),
        ensures
            final(self).wf(),
            forall|x: int, y: int| in_board(x, y) ==>
                #[trigger] at(final(self)@, x, y) == at(old(self)@, 9 - x, y),
    {
        let orig = self.cells.clone();
        let mut y: usize = 0;
        while y < BOARD_HEIGHT
            invariant
                y <= 28,
                orig@ == old(self)@,
                orig@.len() == 280,
                self.cells@.len() == 280,
                forall|yy: int, x: int| 0 <= yy < y && 0 <= x < 10 ==>
                    #[trigger] self.cells@[yy * 10 + x] == orig@[yy * 10 + 9 - x],
                forall|yy: int, x: int| y <= yy < 28 && 0 <= x < 10 ==>
                    #[trigger] self.cells@[yy * 10 + x] == orig@[yy * 10 + x],
            decreases 28 - y,
        {
            let mut x: usize = 0;
            while x < BOARD_WIDTH
                invariant
                    x <= 10,
                    y < 28,
                    orig@ == old(self)@,
                    orig@.len() == 280,
                    self.cells@.len() == 280,
                    forall|yy: int, xx: int| 0 <= yy < y && 0 <= xx < 10 ==>
                        #[trigger] self.cells@[yy * 10 + xx] == orig@[yy * 10 + 9 - xx],
                    forall|xx: int| 0 <= xx < x ==>
                        #[trigger] self.cells@[y * 10 + xx] == orig@[y * 10 + 9 - xx],
                    forall|yy: int, xx: int| y < yy < 28 && 0 <= xx < 10 ==>
                        #[trigger] self.cells@[yy * 10 + xx] == orig@[yy * 10 + xx],
                decreases 10 - x,
            {
                let v = orig[y * BOARD_WIDTH + (BOARD_WIDTH - 1 - x)];
                self.cells.set(y * BOARD_WIDTH + x, v);
                x = x + 1;
            }
            y = y + 1;
        }
    }

    /// Mirrors board contents on the horizontal axis, matching Upbyside-down.
    pub fn flip_on_horizontal_axis(&mut self)
        requires
            old(self).wf(),
        ensures
            final(self).wf(),
            forall|x: int, y: int| in_board(x, y) ==>
                #[trigger] at(final(self)@, x, y) == at(old(self)@, x, 27 - y),
    {
        let orig = self.cells.clone();
        let mut y: usize = 0;
        while y < BOARD_HEIGHT
            invariant
                y <= 28,
                orig@ == old(self)@,
                orig@.len() == 280,
                self.cells@.len() == 280,
                forall|yy: int, x: int| 0 <= yy < y && 0 <= x < 10 ==>
                    #[trigger] self.cells@[yy * 10 + x] == orig@[(27 - yy) * 10 + x],
            decreases 28 - y,
        {
            let mut x: usize = 0;
            while x < BOARD_WIDTH
                invariant
                    x <= 10,
                    y < 28,
                    orig@ == old(self)@,
                    orig@.len() == 280,
                    self.cells@.len() == 280,
                    forall|yy: int, xx: int| 0 <= yy < y && 0 <= xx < 10 ==>
                        #[trigger] self.cells@[yy * 10 + xx] == orig@[(27 - yy) * 10 + xx],
                    forall|xx: int| 0 <= xx < x ==>
                        #[trigger] self.cells@[y * 10 + xx] == orig@[(27 - y) * 10 + xx],
                decreases 10 - x,
            {
                let v = orig[(BOARD_HEIGHT - 1 - y) * BOARD_WIDTH + x];
                self.cells.set(y * BOARD_WIDTH + x, v);
                x = x + 1;
            }
            y = y + 1;
        }
    }

    /// Removes cells in the Fallout black-hole columns.
    pub fn clear_fallout_hole(&mut self)
        requires
            old(self).wf(),
        ensures
            final(self).wf(),
            forall|x: int, y: int| in_board(x, y) ==> #[trigger] at(final(self)@, x, y) == if 2 <= x <= 7 {
                None
            } else {
                at(old(self)@, x, y)
            },
    {
        let ghost orig = self.cells@;
        let mut y: usize = 0;
        while y < BOARD_HEIGHT
            invariant
                y <= 28,
                orig.len() == 280,
                self.cells@.len() == 280,
                forall|yy: int, x: int| 0 <= yy < y && 0 <= x < 10 ==>
                    #[trigger] self.cells@[yy * 10 + x] == if 2 <= x <= 7 { None } else { orig[yy * 10 + x] },
                forall|yy: int, x: int| y <= yy < 28 && 0 <= x < 10 ==>
                    #[trigger] self.cells@[yy * 10 + x] == orig[yy * 10 + x],
            decreases 28 - y,
        {
            let mut x: usize = 2;
            while x <= 7
                invariant
                    2 <= x <= 8,
                    y < 28,
                    orig.len() == 280,
                    self.cells@.len() == 280,
                    forall|yy: int, xx: int| 0 <= yy < y && 0 <= xx < 10 ==>
                        #[trigger] self.cells@[yy * 10 + xx] == if 2 <= xx <= 7 { None } else { orig[yy * 10 + xx] },
                    forall|xx: int| 0 <= xx < 10 ==>
                        #[trigger] self.cells@[y * 10 + xx] == if 2 <= xx < x { None } else { orig[y * 10 + xx] },
                    forall|yy: int, xx: int| y < yy < 28 && 0 <= xx < 10 ==>
                        #[trigger] self.cells@[yy * 10 + xx] == orig[yy * 10 + xx],
                decreases 8 - x,
            {
                self.cells.set(y * BOARD_WIDTH + x, None);
                x = x + 1;
            }
            y = y + 1;
        }
    }

    /// Removes the next removable occupied cell from a legacy row-major wrapped scan.
    pub fn remove_next_removable_from(&mut self, start_x: usize, start_y: usize) -> (r: Option<Coord>)
        requires
            old(self).wf(),
        ensures
            final(self).wf(),
            r matches Some(c) ==> in_board(c.x as int, c.y as int),
            match r {
                Some(c) => exists|k: int| 0 <= k < 280 && {
                    &&& c.x as int == #[trigger] scan_x(start_x as int % 10, k)
                    &&& c.y as int == scan_y(start_y as int % 28, k)
                    &&& slot_removable(at(old(self)@, c.x as int, c.y as int))
                    &&& forall|k2: int| 0 <= k2 < k ==> !slot_removable(
                        #[trigger] at(old(self)@, scan_x(start_x as int % 10, k2), scan_y(start_y as int % 28, k2)))
                    &&& final(self)@ == old(self)@.update(cell_index(c.x as int, c.y as int), None)
                },
                None => final(self)@ == old(self)@ && forall|k: int| 0 <= k < 280 ==> !slot_removable(
                    #[trigger] at(old(self)@, scan_x(start_x as int % 10, k), scan_y(start_y as int % 28, k))),
            },
    {
        let sx = start_x % BOARD_WIDTH;
        let sy = start_y % BOARD_HEIGHT;
        let mut y_offset: usize = 0;
        while y_offset < BOARD_HEIGHT
            invariant
                y_offset <= 28,
                sx < 10,
                sx == start_x % 10,
                sy < 28,
                sy == start_y % 28,
                self.cells@ == old(self)@,
                self.cells@.len() == 280,
                forall|k2: int| 0 <= k2 < y_offset * 10 ==> !slot_removable(
                    #[trigger] at(old(self)@, scan_x(sx as int, k2), scan_y(sy as int, k2))),
            decreases 28 - y_offset,
        {
            let y = (sy + y_offset) % BOARD_HEIGHT;
            let mut x_offset: usize = 0;
            while x_offset < BOARD_WIDTH
                invariant
                    x_offset <= 10,
                    y_offset < 28,
                    sx < 10,
                sx == start_x % 10,
                    sy < 28,
                sy == start_y % 28,
                    y == (sy + y_offset) % 28,
                    self.cells@ == old(self)@,
                    self.cells@.len() == 280,
                    forall|k2: int| 0 <= k2 < y_offset * 10 + x_offset ==> !slot_removable(
                        #[trigger] at(old(self)@, scan_x(sx as int, k2), scan_y(sy as int, k2))),
                decreases 10 - x_offset,
            {
                let x = (sx + x_offset) % BOARD_WIDTH;
                let index = y * BOARD_WIDTH + x;
                let k: usize = y_offset * BOARD_WIDTH + x_offset;
                assert(scan_x(sx as int, k as int) == x && scan_y(sy as int, k as int) == y) by {
                    lemma_div_mod_10(y_offset as int, x_offset as int);
                    reveal(scan_x);
                    reveal(scan_y);
                }
                let removable = match self.cells[index] {
                    Some(c) => c.is_removable(),
                    None => false,
                };
                if removable {
                    self.cells.set(index, None);
                    assert(x as int == scan_x(start_x as int % 10, k as int));
                    assert(y as int == scan_y(start_y as int % 28, k as int));
                    return Coord::new(x, y);
                }
                x_offset = x_offset + 1;
            }
            y_offset = y_offset + 1;
        }
        None
    }

    fn middle_empty_candidates(&self) -> (r: Vec<Coord>)
        requires
            self.wf(),
        ensures
            r@.len() == middle_empty_coords(self@).len(),
            forall|j: int| 0 <= j < r@.len() ==> {
                &&& (#[trigger] r@[j]).x == middle_empty_coords(self@)[j].0
                &&& r@[j].y == middle_empty_coords(self@)[j].1
            },
    {
        let mut candidates: Vec<Coord> = Vec::new();
        let mut n: usize = 0;
        while n < 140
            invariant
                n <= 140,
                self.cells@.len() == 280,
                candidates@.len() == middle_empty_prefix(self@, n as int).len(),
                candidates@.len() <= n,
                forall|j: int| 0 <= j < candidates@.len() ==> {
                    &&& (#[trigger] candidates@[j]).x == middle_empty_prefix(self@, n as int)[j].0
                    &&& candidates@[j].y == middle_empty_prefix(self@, n as int)[j].1
                },
            decreases 140 - n,
        {
            let i = 70 + n;
            if self.cells[i].is_none() {
                candidates.push(Coord { x: i % BOARD_WIDTH, y: i / BOARD_WIDTH });
            }
            n = n + 1;
        }
        candidates
    }

    /// Places a cell on the empty middle-half position chosen by a random draw:
    /// the position at index `draw % n` of the `n` empty middle-half positions
    /// in row-major order.
    pub fn place_middle_cell(&mut self, draw: u64, cell: Cell) -> (r: Option<Coord>)
        requires
            old(self).wf(),
        ensures
            final(self).wf(),
            ({
                let candidates = middle_empty_coords(old(self)@);
                if candidates.len() == 0 {
                    r is None && final(self)@ == old(self)@
                } else {
                    let chosen = candidates[(draw as int) % (candidates.len() as int)];
                    &&& r matches Some(c) && c.x == chosen.0 && c.y == chosen.1
                    &&& final(self)@ == old(self)@.update(cell_index(chosen.0 as int, chosen.1 as int), Some(cell))
                }
            }),
    {
        let candidates = self.middle_empty_candidates();
        if candidates.len() == 0 {
            return None;
        }
        let index = ((draw % (candidates.len() as u64)) as usize);
        let coord = candidates[index];
        proof {
            lemma_middle_empty_prefix_in_middle(old(self)@, 140);
        }
        self.set(coord, Some(cell));
        Some(coord)
    }

    /// Adds a random occupied cell in the middle half of the board.
    pub fn add_random_middle_cell(&mut self, rng: &mut ChaCha12Rng, cell: Cell) -> (r: Option<Coord>)
        requires
            old(self).wf(),
        ensures
            final(self).wf(),
            middle_empty_coords(old(self)@).len() == 0 ==> r is None && final(self)@ == old(self)@,
            middle_empty_coords(old(self)@).len() > 0 ==> (r matches Some(c) && {
                &&& middle_empty_coords(old(self)@).contains((c.x, c.y))
                &&& final(self)@ == old(self)@.update(cell_index(c.x as int, c.y as int), Some(cell))
            }),
            final(self)@ == middle_cell_placed(old(self)@, cell, *old(rng)).0,
            *final(rng) == middle_cell_placed(old(self)@, cell, *old(rng)).1,
            r matches Some(c) ==> middle_empty_coords(old(self)@).len() > 0 && (c.x, c.y) == middle_empty_coords(old(self)@)[
                chacha_next(*old(rng)).0 as int % middle_empty_coords(old(self)@).len() as int],
    {
        if self.middle_empty_candidates().len() == 0 {
            return None;
        }
        let draw = chacha_next_u64(rng);
        let r = self.place_middle_cell(draw, cell);
        proof {
            let candidates = middle_empty_coords(old(self)@);
            let k = (draw as int) % (candidates.len() as int);
            assert(candidates[k] == (r->0.x, r->0.y));
            let chosen = candidates[k];
            assert(self@ == old(self)@.update(cell_index(chosen.0 as int, chosen.1 as int), Some(cell)));
        }
        r
    }

    /// Randomly removes about half of all removable cells, matching Blind Cleric.
    /// Returns the number of removed cells.
    pub fn remove_random_half_removable(&mut self, rng: &mut ChaCha12Rng) -> (r: u32)
        requires
            old(self).wf(),
        ensures
            final(self).wf(),
            forall|i: int| 0 <= i < 280 ==> #[trigger] final(self)@[i] == old(self)@[i]
                || (slot_removable(old(self)@[i]) && final(self)@[i] is None),
            r == count_changed(old(self)@, final(self)@, 280),
            final(self)@ == blind_scan(old(self)@, *old(rng), 280).0,
            *final(rng) == blind_scan(old(self)@, *old(rng), 280).1,
    {
        let mut removed: u32 = 0;
        let mut i: usize = 0;
        while i < BOARD_CELLS
            invariant
                i <= 280,
                self.cells@.len() == 280,
                old(self)@.len() == 280,
                self.cells@ == blind_scan(old(self)@, *old(rng), i as int).0,
                *rng == blind_scan(old(self)@, *old(rng), i as int).1,
                removed as nat == count_changed(old(self)@, self.cells@, i as int),
                removed <= i,
                forall|j: int| 0 <= j < i ==> #[trigger] self.cells@[j] == old(self)@[j]
                    || (slot_removable(old(self)@[j]) && self.cells@[j] is None),
                forall|j: int| i <= j < 280 ==> #[trigger] self.cells@[j] == old(self)@[j],
            decreases 280 - i,
        {
            let removable = match self.cells[i] {
                Some(c) => c.is_removable(),
                None => false,
            };
            let ghost before = self.cells@;
            proof {
                lemma_blind_scan_prefix(old(self)@, *old(rng), i as int);
            }
            if removable && chacha_next_u64(rng) % 2 == 0 {
                self.cells.set(i, None);
                removed = removed + 1;
            }
            proof {
                assert forall|n: int| 0 <= n <= i implies count_changed(old(self)@, self.cells@, n)
                    == count_changed(old(self)@, before, n) by {
                    lemma_count_changed_same_prefix(old(self)@, self.cells@, before, n);
                }
            }
            i = i + 1;
        }
        removed
    }

    /// Hides every existing cell with no undo path, preserving value and removability.
    /// Returns the number of hidden cells.
    pub fn hide_existing_cells(&mut self) -> (r: u32)
        requires
            old(self).wf(),
        ensures
            final(self).wf(),
            forall|i: int| 0 <= i < 280 ==> #[trigger] final(self)@[i] == match old(self)@[i] {
                Some(c) => Some(Cell::Hidden { value: spec_value(c) as i32, removable: spec_removable(c) }),
                None => None,
            },
            r == count_slots(old(self)@, |s: Option<Cell>| s is Some),
    {
        let mut hidden: u32 = 0;
        let mut i: usize = 0;
        while i < BOARD_CELLS
            invariant
                i <= 280,
                self.cells@.len() == 280,
                old(self)@.len() == 280,
                hidden as nat == count_slots(old(self)@.take(i as int), |s: Option<Cell>| s is Some),
                hidden <= i,
                forall|j: int| 0 <= j < i ==> #[trigger] self.cells@[j] == match old(self)@[j] {
                    Some(c) => Some(Cell::Hidden { value: spec_value(c) as i32, removable: spec_removable(c) }),
                    None => None,
                },
                forall|j: int| i <= j < 280 ==> #[trigger] self.cells@[j] == old(self)@[j],
            decreases 280 - i,
        {
            assert(old(self)@.take(i as int + 1).drop_last() =~= old(self)@.take(i as int));
            if let Some(existing) = self.cells[i] {
                let v = existing.value();
                let rem = existing.is_removable();
                self.cells.set(i, Some(Cell::Hidden { value: v, removable: rem }));
                hidden = hidden + 1;
            }
            i = i + 1;
        }
        assert(old(self)@.take(280) =~= old(self)@);
        hidden
    }

    /// Replaces removable existing cells with Gimp cells, preserving funds value.
    /// Returns the number of replaced cells.
    pub fn gimp_removable_cells(&mut self) -> (r: u32)
        requires
            old(self).wf(),
        ensures
            final(self).wf(),
            forall|i: int| 0 <= i < 280 ==> #[trigger] final(self)@[i] == match old(self)@[i] {
                Some(c) => if spec_removable(c) { Some(Cell::Gimp { value: spec_value(c) as i32 }) } else { Some(c) },
                None => None,
            },
            r == count_slots(old(self)@, |s: Option<Cell>| slot_removable(s)),
    {
        let mut gimped: u32 = 0;
        let mut i: usize = 0;
        while i < BOARD_CELLS
            invariant
                i <= 280,
                self.cells@.len() == 280,
                old(self)@.len() == 280,
                gimped as nat == count_slots(old(self)@.take(i as int), |s: Option<Cell>| slot_removable(s)),
                gimped <= i,
                forall|j: int| 0 <= j < i ==> #[trigger] self.cells@[j] == match old(self)@[j] {
                    Some(c) => if spec_removable(c) { Some(Cell::Gimp { value: spec_value(c) as i32 }) } else { Some(c) },
                    None => None,
                },
                forall|j: int| i <= j < 280 ==> #[trigger] self.cells@[j] == old(self)@[j],
            decreases 280 - i,
        {
            assert(old(self)@.take(i as int + 1).drop_last() =~= old(self)@.take(i as int));
            if let Some(existing) = self.cells[i] {
                if existing.is_removable() {
                    let v = existing.value();
                    self.cells.set(i, Some(Cell::Gimp { value: v }));
                    gimped = gimped + 1;
                }
            }
            i = i + 1;
        }
        assert(old(self)@.take(280) =~= old(self)@);
        gimped
    }

    /// Builds Bottle neck side walls. Overwritten side cells are intentionally lost.
    pub fn add_bottle_neck(&mut self)
        requires
            old(self).wf(),
        ensures
            final(self).wf(),
            forall|x: int, y: int| in_board(x, y) ==> #[trigger] at(final(self)@, x, y) == if in_bottle_neck(x, y) {
                Some(Cell::Structure)
            } else {
                at(old(self)@, x, y)
            },
    {
        let ghost orig = self.cells@;
        let mut y: usize = 0;
        while y < BOARD_HEIGHT
            invariant
                y <= 28,
                orig == old(self)@,
                orig.len() == 280,
                self.cells@.len() == 280,
                forall|yy: int, x: int| 0 <= yy < y && 0 <= x < 10 ==>
                    #[trigger] self.cells@[yy * 10 + x] == if in_bottle_neck(x, yy as int) { Some(Cell::Structure) } else { orig[yy * 10 + x] },
                forall|yy: int, x: int| y <= yy < 28 && 0 <= x < 10 ==>
                    #[trigger] self.cells@[yy * 10 + x] == orig[yy * 10 + x],
            decreases 28 - y,
        {
            let mut x: usize = 0;
            while x < BOARD_WIDTH
                invariant
                    x <= 10,
                    y < 28,
                    orig == old(self)@,
                    orig.len() == 280,
                    self.cells@.len() == 280,
                    forall|yy: int, xx: int| 0 <= yy < y && 0 <= xx < 10 ==>
                        #[trigger] self.cells@[yy * 10 + xx] == if in_bottle_neck(xx, yy as int) { Some(Cell::Structure) } else { orig[yy * 10 + xx] },
                    forall|xx: int| 0 <= xx < x ==>
                        #[trigger] self.cells@[y * 10 + xx] == if in_bottle_neck(xx, y as int) { Some(Cell::Structure) } else { orig[y * 10 + xx] },
                    forall|xx: int| x <= xx < 10 ==>
                        #[trigger] self.cells@[y * 10 + xx] == orig[y * 10 + xx],
                    forall|yy: int, xx: int| y < yy < 28 && 0 <= xx < 10 ==>
                        #[trigger] self.cells@[yy * 10 + xx] == orig[yy * 10 + xx],
                decreases 10 - x,
            {
                if 10 <= y && y < 18 && (x <= 2 || x >= 7) {
                    self.cells.set(y * BOARD_WIDTH + x, Some(Cell::Structure));
                }
                x = x + 1;
            }
            y = y + 1;
        }
    }

    /// Removes Bottle neck side wall structures without restoring overwritten cells.
    pub fn remove_bottle_neck(&mut self)
        requires
            old(self).wf(),
        ensures
            final(self).wf(),
            forall|x: int, y: int| in_board(x, y) ==> #[trigger] at(final(self)@, x, y) ==
                if in_bottle_neck(x, y) && at(old(self)@, x, y) == Some(Cell::Structure) {
                    None
                } else {
                    at(old(self)@, x, y)
                },
    {
        let ghost orig = self.cells@;
        let mut y: usize = 0;
        while y < BOARD_HEIGHT
            invariant
                y <= 28,
                orig == old(self)@,
                orig.len() == 280,
                self.cells@.len() == 280,
                forall|yy: int, x: int| 0 <= yy < y && 0 <= x < 10 ==>
                    #[trigger] self.cells@[yy * 10 + x] == if in_bottle_neck(x, yy as int) && orig[yy * 10 + x] == Some(Cell::Structure) { None } else { orig[yy * 10 + x] },
                forall|yy: int, x: int| y <= yy < 28 && 0 <= x < 10 ==>
                    #[trigger] self.cells@[yy * 10 + x] == orig[yy * 10 + x],
            decreases 28 - y,
        {
            let mut x: usize = 0;
            while x < BOARD_WIDTH
                invariant
                    x <= 10,
                    y < 28,
                    orig == old(self)@,
                    orig.len() == 280,
                    self.cells@.len() == 280,
                    forall|yy: int, xx: int| 0 <= yy < y && 0 <= xx < 10 ==>
                        #[trigger] self.cells@[yy * 10 + xx] == if in_bottle_neck(xx, yy as int) && orig[yy * 10 + xx] == Some(Cell::Structure) { None } else { orig[yy * 10 + xx] },
                    forall|xx: int| 0 <= xx < x ==>
                        #[trigger] self.cells@[y * 10 + xx] == if in_bottle_neck(xx, y as int) && orig[y * 10 + xx] == Some(Cell::Structure) { None } else { orig[y * 10 + xx] },
                    forall|xx: int| x <= xx < 10 ==>
                        #[trigger] self.cells@[y * 10 + xx] == orig[y * 10 + xx],
                    forall|yy: int, xx: int| y < yy < 28 && 0 <= xx < 10 ==>
                        #[trigger] self.cells@[yy * 10 + xx] == orig[yy * 10 + xx],
                decreases 10 - x,
            {
                if 10 <= y && y < 18 && (x <= 2 || x >= 7) {
                    let is_structure = match self.cells[y * BOARD_WIDTH + x] {
                        Some(Cell::Structure) => true,
                        _ => false,
                    };
                    if is_structure {
                        self.cells.set(y * BOARD_WIDTH + x, None);
                    }
                }
                x = x + 1;
            }
            y = y + 1;
        }
    }

    /// Creates a typed row-major snapshot preserving all core cell state.
    #[must_use]
    pub fn snapshot(&self) -> (r: BoardSnapshot)
        requires
            self.wf(),
        ensures
            r.width == 10,
            r.height == 28,
            r.cells@ == self@,
    {
        BoardSnapshot { width: BOARD_WIDTH, height: BOARD_HEIGHT, cells: self.cells.clone() }
    }

    /// Creates a legacy row-major ID snapshot.
    ///
    /// When `upside_down` is true, row order is reversed to match the legacy
    /// `BTBoard` constructor behavior; columns within each row are unchanged.
    #[must_use]
    pub fn legacy_snapshot(&self, motivation: i32, upside_down: bool) -> (r: LegacyBoardSnapshot)
        requires
            self.wf(),
        ensures
            r.motivation == motivation,
            r.width == 10,
            r.height == 28,
            r.ids@.len() == 280,
            forall|x: int, y: int| in_board(x, y) ==> #[trigger] r.ids@[cell_index(x, y)] as int
                == slot_legacy_id(at(self@, x, if upside_down { 27 - y } else { y })),
            forall|x: int, y: int| in_board(x, y) ==> legacy_ranges(#[trigger] at(self@, x, y)),
    {
        let mut ids: Vec<i16> = Vec::new();
        let mut row: usize = 0;
        while row < BOARD_HEIGHT
            invariant
                row <= 28,
                self.cells@.len() == 280,
                ids@.len() == row * 10,
                forall|x: int, y: int| 0 <= x < 10 && 0 <= y < row ==> #[trigger] snapshot_entry(ids@, self@, upside_down, x, y),
            decreases 28 - row,
        {
            let y = if upside_down { BOARD_HEIGHT - 1 - row } else { row };
            let mut x: usize = 0;
            while x < BOARD_WIDTH
                invariant
                    x <= 10,
                    row < 28,
                    y == snapshot_row(upside_down, row as int),
                    self.cells@.len() == 280,
                    ids@.len() == row * 10 + x,
                    forall|xx: int, yy: int| 0 <= xx < 10 && 0 <= yy < row ==> #[trigger] snapshot_entry(ids@, self@, upside_down, xx, yy),
                    forall|xx: int| 0 <= xx < x ==> #[trigger] snapshot_entry(ids@, self@, upside_down, xx, row as int),
                decreases 10 - x,
            {
                let id = match self.cells[y * BOARD_WIDTH + x] {
                    Some(c) => c.legacy_id(),
                    None => 0,
                };
                let ghost before = ids@;
                ids.push(id);
                proof {
                    assert(at(self@, x as int, y as int) == self.cells@[y * 10 + x]);
                    assert(snapshot_entry(ids@, self@, upside_down, x as int, row as int));
                    assert forall|xx: int, yy: int| 0 <= xx < 10 && 0 <= yy < row implies #[trigger] snapshot_entry(ids@, self@, upside_down, xx, yy) by {
                        assert(snapshot_entry(before, self@, upside_down, xx, yy));
                        assert(cell_index(xx, yy) < before.len()) by (nonlinear_arith)
                            requires 0 <= xx < 10, 0 <= yy < row, before.len() == row * 10 + x;
                        assert(ids@[cell_index(xx, yy)] == before[cell_index(xx, yy)]);
                    }
                    assert forall|xx: int| 0 <= xx < x implies #[trigger] snapshot_entry(ids@, self@, upside_down, xx, row as int) by {
                        assert(snapshot_entry(before, self@, upside_down, xx, row as int));
                        assert(ids@[cell_index(xx, row as int)] == before[cell_index(xx, row as int)]);
                    }
                }
                x = x + 1;
            }
            row = row + 1;
        }
        proof {
            assert forall|x: int, y: int| in_board(x, y) implies #[trigger] ids@[cell_index(x, y)] as int
                == slot_legacy_id(at(self@, x, if upside_down { 27 - y } else { y })) by {
                assert(snapshot_entry(ids@, self@, upside_down, x, y));
            }
            assert forall|x: int, y: int| in_board(x, y) implies legacy_ranges(#[trigger] at(self@, x, y)) by {
                let yy = if upside_down { 27 - y } else { y };
                assert(snapshot_entry(ids@, self@, upside_down, x, yy));
            }
        }
        LegacyBoardSnapshot { motivation, width: BOARD_WIDTH, height: BOARD_HEIGHT, ids }
    }

    fn row_is_full(&self, row: usize) -> (r: bool)
        requires
            self.wf(),
            row < 28,
        ensures
            r == row_full(board_row(self@, row as int)),
    {
        let mut x: usize = 0;
        while x < BOARD_WIDTH
            invariant
                x <= 10,
                row < 28,
                self.cells@.len() == 280,
                forall|xx: int| 0 <= xx < x ==> #[trigger] board_row(self@, row as int)[xx] is Some,
            decreases 10 - x,
        {
            if self.cells[row * BOARD_WIDTH + x].is_none() {
                assert(board_row(self@, row as int)[x as int] is None);
                return false;
            }
            x = x + 1;
        }
        true
    }

    fn row_value(&self, row: usize) -> (r: i64)
        requires
            self.wf(),
            row < 28,
        ensures
            r == row_value(board_row(self@, row as int)),
    {
        let ghost r = board_row(self@, row as int);
        let mut sum: i64 = 0;
        let mut x: usize = 0;
        while x < BOARD_WIDTH
            invariant
                x <= 10,
                row < 28,
                self.cells@.len() == 280,
                r == board_row(self@, row as int),
                sum == row_value(r.take(x as int)),
                -(x as int) * 0x8000_0000 <= sum <= (x as int) * 0x8000_0000,
            decreases 10 - x,
        {
            assert(r.take(x as int + 1).drop_last() =~= r.take(x as int));
            let v: i64 = match self.cells[row * BOARD_WIDTH + x] {
                Some(c) => c.value() as i64,
                None => 0,
            };
            sum = sum + v;
            x = x + 1;
        }
        assert(r.take(10) =~= r);
        sum
    }

    fn clear_row(&mut self, row: usize)
        requires
            old(self).wf(),
            row < 28,
        ensures
            final(self).wf(),
            forall|x: int, yy: int| in_board(x, yy) ==> #[trigger] at(final(self)@, x, yy) == if yy == row {
                None
            } else {
                at(old(self)@, x, yy)
            },
    {
        let mut x: usize = 0;
        while x < BOARD_WIDTH
            invariant
                x <= 10,
                row < 28,
                old(self)@.len() == 280,
                self.cells@.len() == 280,
                forall|xx: int, yy: int| in_board(xx, yy) ==> #[trigger] at(self.cells@, xx, yy) == if yy == row && xx < x {
                    None
                } else {
                    at(old(self)@, xx, yy)
                },
            decreases 10 - x,
        {
            let ghost before = self.cells@;
            self.cells.set(row * BOARD_WIDTH + x, None);
            proof {
                assert forall|xx: int, yy: int| in_board(xx, yy) implies #[trigger] at(self.cells@, xx, yy) == if yy == row && xx < x + 1 {
                    None
                } else {
                    at(old(self)@, xx, yy)
                } by {
                    if cell_index(xx, yy) == cell_index(x as int, row as int) {
                        lemma_index_unique(xx, yy, x as int, row as int);
                    }
                    assert(at(before, xx, yy) == if yy == row && xx < x { None } else { at(old(self)@, xx, yy) });
                }
            }
            x = x + 1;
        }
    }

    fn drop_rows_above(&mut self, row: usize)
        requires
            old(self).wf(),
            row < 28,
        ensures
            final(self).wf(),
            forall|x: int, yy: int| in_board(x, yy) ==> #[trigger] at(final(self)@, x, yy) == if yy == 0 {
                None
            } else if yy <= row {
                at(old(self)@, x, yy - 1)
            } else {
                at(old(self)@, x, yy)
            },
    {
        let mut y: usize = row;
        while y >= 1
            invariant
                y <= row,
                row < 28,
                old(self)@.len() == 280,
                self.cells@.len() == 280,
                forall|x: int, yy: int| in_board(x, yy) ==> #[trigger] at(self.cells@, x, yy) == if y < yy <= row {
                    at(old(self)@, x, yy - 1)
                } else {
                    at(old(self)@, x, yy)
                },
            decreases y,
        {
            let mut x: usize = 0;
            while x < BOARD_WIDTH
                invariant
                    x <= 10,
                    1 <= y <= row,
                    row < 28,
                    old(self)@.len() == 280,
                    self.cells@.len() == 280,
                    forall|xx: int, yy: int| in_board(xx, yy) ==> #[trigger] at(self.cells@, xx, yy) == if y < yy <= row
                        || (yy == y && xx < x) {
                        at(old(self)@, xx, yy - 1)
                    } else {
                        at(old(self)@, xx, yy)
                    },
                decreases 10 - x,
            {
                let moved = self.cells[(y - 1) * BOARD_WIDTH + x];
                let ghost before = self.cells@;
                assert(moved == at(old(self)@, x as int, y - 1)) by {
                    assert(at(before, x as int, y - 1) == at(old(self)@, x as int, y - 1));
                }
                self.cells.set(y * BOARD_WIDTH + x, moved);
                proof {
                    assert forall|xx: int, yy: int| in_board(xx, yy) implies #[trigger] at(self.cells@, xx, yy) == if y < yy <= row
                        || (yy == y && xx < x + 1) {
                        at(old(self)@, xx, yy - 1)
                    } else {
                        at(old(self)@, xx, yy)
                    } by {
                        if cell_index(xx, yy) == cell_index(x as int, y as int) {
                            lemma_index_unique(xx, yy, x as int, y as int);
                        }
                        assert(at(before, xx, yy) == if y < yy <= row || (yy == y && xx < x) {
                            at(old(self)@, xx, yy - 1)
                        } else {
                            at(old(self)@, xx, yy)
                        });
                    }
                }
                x = x + 1;
            }
            y = y - 1;
        }
        let ghost mid = self.cells@;
        self.clear_row(0);
        assert forall|x: int, yy: int| in_board(x, yy) implies #[trigger] at(self.cells@, x, yy) == if yy == 0 {
            None
        } else if yy <= row {
            at(old(self)@, x, yy - 1)
        } else {
            at(old(self)@, x, yy)
        } by {
            assert(at(self.cells@, x, yy) == if yy == 0 { None } else { at(mid, x, yy) });
        }
    }

    fn convert_happy_row(&mut self, row: usize) -> (r: u32)
        requires
            old(self).wf(),
            row < 28,
        ensures
            final(self).wf(),
            forall|x: int, yy: int| in_board(x, yy) ==> #[trigger] at(final(self)@, x, yy) == if yy == row {
                frown_row(board_row(old(self)@, row as int))[x]
            } else {
                at(old(self)@, x, yy)
            },
            r == row_happy(board_row(old(self)@, row as int)),
    {
        let ghost orow = board_row(old(self)@, row as int);
        let mut converted: u32 = 0;
        let mut x: usize = 0;
        while x < BOARD_WIDTH
            invariant
                x <= 10,
                row < 28,
                old(self)@.len() == 280,
                self.cells@.len() == 280,
                orow == board_row(old(self)@, row as int),
                converted == row_happy(orow.take(x as int)),
                converted <= x,
                forall|xx: int, yy: int| in_board(xx, yy) ==> #[trigger] at(self.cells@, xx, yy) == if yy == row && xx < x {
                    frown_row(orow)[xx]
                } else {
                    at(old(self)@, xx, yy)
                },
            decreases 10 - x,
        {
            assert(orow.take(x as int + 1).drop_last() =~= orow.take(x as int));
            let index = row * BOARD_WIDTH + x;
            let is_happy = match self.cells[index] {
                Some(Cell::Happy) => true,
                _ => false,
            };
            let ghost before = self.cells@;
            assert(at(before, x as int, row as int) == at(old(self)@, x as int, row as int));
            assert(orow[x as int] == at(old(self)@, x as int, row as int));
            assert(is_happy == (orow[x as int] == Some(Cell::Happy)));
            if is_happy {
                self.cells.set(index, Some(Cell::Frown));
                converted = converted + 1;
            }
            proof {
                assert forall|xx: int, yy: int| in_board(xx, yy) implies #[trigger] at(self.cells@, xx, yy) == if yy == row && xx < x + 1 {
                    frown_row(orow)[xx]
                } else {
                    at(old(self)@, xx, yy)
                } by {
                    if cell_index(xx, yy) == cell_index(x as int, row as int) {
                        lemma_index_unique(xx, yy, x as int, row as int);
                    }
                    assert(at(before, xx, yy) == if yy == row && xx < x { frown_row(orow)[xx] } else { at(old(self)@, xx, yy) });
                }
            }
            x = x + 1;
        }
        assert(orow.take(10) =~= orow);
        converted
    }

    fn clear_lines_normal(&mut self) -> (r: (Vec<usize>, i64, u32))
        requires
            old(self).wf(),
        ensures
            final(self).wf(),
            r.0@.len() == full_rows_bottom_up_from(old(self)@, 0).len(),
            forall|i: int| 0 <= i < r.0@.len() ==> #[trigger] r.0@[i] as int == full_rows_bottom_up_from(old(self)@, 0)[i],
            r.1 == full_value_from(old(self)@, 0),
            r.2 == missed_happy_from(old(self)@, 0),
            forall|x: int, yy: int| in_board(x, yy) ==> #[trigger] at(final(self)@, x, yy)
                == normal_expected(old(self)@, 0, 0, yy)[x],
    {
        let ghost o = self.cells@;
        let mut y: isize = 27;
        let ghost mut p: int = 28;
        let mut reports: Vec<usize> = Vec::new();
        let mut value: i64 = 0;
        let mut happy: u32 = 0;
        proof {
            lemma_suffix_sizes(o, 28);
            assert forall|x: int, yy: int| in_board(x, yy) implies #[trigger] at(self.cells@, x, yy)
                == normal_expected(o, p, y + 1 - p, yy)[x] by {
                assert(board_row(o, yy)[x] == o[yy * 10 + x]);
            }
        }
        while y >= 0
            invariant
                o == old(self)@,
                o.len() == 280,
                self.cells@.len() == 280,
                -1 <= y <= 27,
                0 <= p <= 28,
                p <= y + 1,
                p > 0 ==> y + 1 - p == full_rows_from(o, p),
                y + 1 - p <= full_rows_from(o, p),
                forall|x: int, yy: int| in_board(x, yy) ==> #[trigger] at(self.cells@, x, yy)
                    == normal_expected(o, p, y + 1 - p, yy)[x],
                reports@.len() == full_rows_bottom_up_from(o, p).len(),
                forall|i: int| 0 <= i < reports@.len() ==> #[trigger] reports@[i] as int == full_rows_bottom_up_from(o, p)[i],
                value == full_value_from(o, p),
                happy == missed_happy_from(o, p),
            decreases y + 1 + p,
        {
            let row = y as usize;
            let ghost e = y + 1 - p;
            let ghost c = full_rows_from(o, p) as int;
            proof {
                lemma_suffix_sizes(o, p);
                if p > 0 {
                    lemma_suffix_sizes(o, p - 1);
                    assert(board_row(self.cells@, y as int) =~= board_row(o, p - 1)) by {
                        assert forall|x: int| 0 <= x < 10 implies board_row(self.cells@, y as int)[x] == board_row(o, p - 1)[x] by {
                            assert(at(self.cells@, x, y as int) == normal_expected(o, p, e, y as int)[x]);
                        }
                    }
                } else {
                    assert forall|x: int| 0 <= x < 10 implies #[trigger] board_row(self.cells@, y as int)[x] is None by {
                        assert(at(self.cells@, x, y as int) == normal_expected(o, p, e, y as int)[x]);
                    }
                    lemma_empty_row_stats(board_row(self.cells@, y as int));
                }
            }
            if self.row_is_full(row) {
                assert(p > 0) by {
                    if p == 0 {
                        assert(board_row(self.cells@, y as int)[0] is None);
                    }
                }
                let v = self.row_value(row);
                value = value + v;
                let original = row - reports.len();
                reports.push(original);
                let ghost before = self.cells@;
                self.drop_rows_above(row);
                proof {
                    let np = p - 1;
                    assert(full_rows_from(o, np) == c + 1);
                    assert forall|x: int, yy: int| in_board(x, yy) implies #[trigger] at(self.cells@, x, yy)
                        == normal_expected(o, np, y + 1 - np, yy)[x] by {
                        if yy == 0 {
                        } else if yy <= y {
                            assert(at(before, x, yy - 1) == normal_expected(o, p, e, yy - 1)[x]);
                        } else {
                            assert(at(before, x, yy) == normal_expected(o, p, e, yy)[x]);
                        }
                    }
                    assert(reports@ =~= full_rows_bottom_up_from(o, np).map_values(|v: int| v as usize)) by {
                    }
                    p = np;
                }
            } else {
                let ghost before = self.cells@;
                let h = self.convert_happy_row(row);
                happy = happy + h;
                proof {
                    let np = if p > 0 { p - 1 } else { 0 };
                    assert forall|x: int, yy: int| in_board(x, yy) implies #[trigger] at(self.cells@, x, yy)
                        == normal_expected(o, np, y - np, yy)[x] by {
                        assert(at(before, x, yy) == normal_expected(o, p, e, yy)[x]);
                        if yy == y && p > 0 {
                            assert(kept_rows_from(o, np)[0] == frown_row(board_row(o, np)));
                        }
                    }
                    p = np;
                }
                y = y - 1;
            }
        }
        (reports, value, happy)
    }

    fn clear_lines_force(&mut self) -> (r: (Vec<usize>, i64, u32))
        requires
            old(self).wf(),
        ensures
            final(self).wf(),
            r.0@.len() == full_rows_bottom_up_from(old(self)@, 0).len(),
            forall|i: int| 0 <= i < r.0@.len() ==> #[trigger] r.0@[i] as int == full_rows_bottom_up_from(old(self)@, 0)[i],
            r.1 == full_value_from(old(self)@, 0),
            r.2 == missed_happy_from(old(self)@, 0),
            forall|x: int, yy: int| in_board(x, yy) ==> #[trigger] at(final(self)@, x, yy)
                == force_expected(old(self)@, yy)[x],
    {
        let ghost o = self.cells@;
        let mut y: isize = 27;
        let mut reports: Vec<usize> = Vec::new();
        let mut value: i64 = 0;
        let mut happy: u32 = 0;
        proof {
            lemma_suffix_sizes(o, 28);
        }
        while y >= 0
            invariant
                o == old(self)@,
                o.len() == 280,
                self.cells@.len() == 280,
                -1 <= y <= 27,
                forall|x: int, yy: int| in_board(x, yy) ==> #[trigger] at(self.cells@, x, yy) == if yy <= y {
                    at(o, x, yy)
                } else {
                    force_expected(o, yy)[x]
                },
                reports@.len() == full_rows_bottom_up_from(o, y + 1).len(),
                forall|i: int| 0 <= i < reports@.len() ==> #[trigger] reports@[i] as int
                    == full_rows_bottom_up_from(o, y + 1)[i],
                value == full_value_from(o, y + 1),
                happy == missed_happy_from(o, y + 1),
            decreases y + 1,
        {
            let row = y as usize;
            proof {
                lemma_suffix_sizes(o, y as int);
                lemma_suffix_sizes(o, y + 1);
                assert(board_row(self.cells@, y as int) =~= board_row(o, y as int)) by {
                    assert forall|x: int| 0 <= x < 10 implies board_row(self.cells@, y as int)[x] == board_row(o, y as int)[x] by {
                        assert(at(self.cells@, x, y as int) == at(o, x, y as int));
                    }
                }
            }
            let ghost before = self.cells@;
            if self.row_is_full(row) {
                let v = self.row_value(row);
                value = value + v;
                reports.push(row);
                self.clear_row(row);
                proof {
                    assert forall|x: int, yy: int| in_board(x, yy) implies #[trigger] at(self.cells@, x, yy) == if yy <= y - 1 {
                        at(o, x, yy)
                    } else {
                        force_expected(o, yy)[x]
                    } by {
                        assert(at(before, x, yy) == if yy <= y { at(o, x, yy) } else { force_expected(o, yy)[x] });
                    }
                }
            } else {
                let h = self.convert_happy_row(row);
                happy = happy + h;
                proof {
                    assert forall|x: int, yy: int| in_board(x, yy) implies #[trigger] at(self.cells@, x, yy) == if yy <= y - 1 {
                        at(o, x, yy)
                    } else {
                        force_expected(o, yy)[x]
                    } by {
                        assert(at(before, x, yy) == if yy <= y { at(o, x, yy) } else { force_expected(o, yy)[x] });
                    }
                }
            }
            y = y - 1;
        }
        (reports, value, happy)
    }

    /// Scans for completed rows, applies legacy row removal, and converts missed happy cells.
    ///
    /// The scan runs bottom-up. A full row is removed and paid for; every other
    /// scanned row has its happy cells turned into frowns. In normal mode the
    /// rows above a removed row drop down by one and the same row index is
    /// scanned again; in forced mode the row is only erased. The funds are the
    /// value of all removed rows times the number of removed rows.
    pub fn clear_completed_lines(&mut self, mode: LineClearMode) -> (r: LineClearOutcome)
        requires
            old(self).wf(),
            i32::MIN <= clear_funds(old(self)@) <= i32::MAX,
        ensures
            final(self).wf(),
            r.lines_cleared == full_rows_from(old(self)@, 0),
            r.funds == clear_funds(old(self)@),
            r.happy_missed == missed_happy_from(old(self)@, 0),
            mode == LineClearMode::Normal ==> {
                &&& r.cleared_rows@.len() == full_rows_bottom_up_from(old(self)@, 0).len()
                &&& forall|i: int| 0 <= i < r.cleared_rows@.len() ==>
                    #[trigger] r.cleared_rows@[i] as int == full_rows_bottom_up_from(old(self)@, 0)[i]
                &&& forall|x: int, y: int| in_board(x, y) ==> #[trigger] at(final(self)@, x, y)
                    == if y < full_rows_from(old(self)@, 0) {
                        None
                    } else {
                        kept_rows_from(old(self)@, 0)[y - full_rows_from(old(self)@, 0)][x]
                    }
            },
            mode == LineClearMode::Force ==> {
                &&& r.cleared_rows@.len() == full_rows_bottom_up_from(old(self)@, 0).len()
                &&& forall|i: int| 0 <= i < r.cleared_rows@.len() ==>
                    #[trigger] r.cleared_rows@[i] as int == full_rows_bottom_up_from(old(self)@, 0)[i]
                &&& forall|x: int, y: int| in_board(x, y) ==> #[trigger] at(final(self)@, x, y)
                    == force_expected(old(self)@, y)[x]
            },
    {
        proof {
            lemma_suffix_sizes(old(self)@, 0);
        }
        let (cleared_rows, value, happy_missed) = match mode {
            LineClearMode::Normal => self.clear_lines_normal(),
            LineClearMode::Force => self.clear_lines_force(),
        };
        let lines_cleared = cleared_rows.len() as u32;
        assert(lines_cleared == full_rows_from(old(self)@, 0));
        let lines = lines_cleared as i64;
        assert(-(28 * 10 * 0x8000_0000) * 28 <= value * lines <= (28 * 10 * 0x8000_0000) * 28) by (nonlinear_arith)
            requires
                -(28 * 10 * 0x8000_0000) <= value <= 28 * 10 * 0x8000_0000,
                0 <= lines <= 28;
        let funds = (value * lines) as i32;
        LineClearOutcome { lines_cleared, funds, happy_missed, cleared_rows }
    }
}


/// Two boards agree everywhere when they agree at every position.
proof fn lemma_boards_agree(a: Seq<Option<Cell>>, b: Seq<Option<Cell>>)
    requires
        a.len() == 280,
        b.len() == 280,
        forall|x: int, y: int| in_board(x, y) ==> #[trigger] at(a, x, y) == at(b, x, y),
    ensures
        a == b,
{
    assert forall|i: int| 0 <= i < 280 implies a[i] == b[i] by {
        lemma_index_split(i);
        let x = i % 10;
        let y = i / 10;
        assert(cell_index(x, y) == i);
        assert(at(a, x, y) == at(b, x, y));
    }
    assert(a =~= b);
}

/// Mirroring a board left to right twice gives the board back.
pub proof fn lemma_vertical_flip_twice(b0: Seq<Option<Cell>>, b1: Seq<Option<Cell>>, b2: Seq<Option<Cell>>)
    requires
        b0.len() == 280,
        b2.len() == 280,
        forall|x: int, y: int| in_board(x, y) ==> #[trigger] at(b1, x, y) == at(b0, 9 - x, y),
        forall|x: int, y: int| in_board(x, y) ==> #[trigger] at(b2, x, y) == at(b1, 9 - x, y),
    ensures
        b2 == b0,
{
    assert forall|x: int, y: int| in_board(x, y) implies #[trigger] at(b2, x, y) == at(b0, x, y) by {
        assert(at(b1, 9 - x, y) == at(b0, 9 - (9 - x), y));
    }
    lemma_boards_agree(b2, b0);
}

/// Turning a board upside down twice gives the board back.
pub proof fn lemma_horizontal_flip_twice(b0: Seq<Option<Cell>>, b1: Seq<Option<Cell>>, b2: Seq<Option<Cell>>)
    requires
        b0.len() == 280,
        b2.len() == 280,
        forall|x: int, y: int| in_board(x, y) ==> #[trigger] at(b1, x, y) == at(b0, x, 27 - y),
        forall|x: int, y: int| in_board(x, y) ==> #[trigger] at(b2, x, y) == at(b1, x, 27 - y),
    ensures
        b2 == b0,
{
    assert forall|x: int, y: int| in_board(x, y) implies #[trigger] at(b2, x, y) == at(b0, x, y) by {
        assert(at(b1, x, 27 - y) == at(b0, x, 27 - (27 - y)));
    }
    lemma_boards_agree(b2, b0);
}

/// The board row that snapshot row `y` holds: the same row, or the mirrored one upside down.
pub open spec fn snapshot_row(upside_down: bool, y: int) -> int {
    if upside_down { 27 - y } else { y }
}

/// Entry `(x, y)` of a legacy snapshot holds the legacy ID of its board cell, whose color
/// and pips lie in their legacy ranges.
pub open spec fn snapshot_entry(ids: Seq<i16>, cells: Seq<Option<Cell>>, upside_down: bool, x: int, y: int) -> bool {
    &&& ids[cell_index(x, y)] as int == slot_legacy_id(at(cells, x, snapshot_row(upside_down, y)))
    &&& legacy_ranges(at(cells, x, snapshot_row(upside_down, y)))
}

/// What a cell slot keeps through a legacy snapshot: invisible and hidden cells read as
/// empty, and a Gimp cell loses its funds; every other slot comes back as it was.
pub open spec fn legacy_kept(slot: Option<Cell>) -> Option<Cell> {
    match slot {
        Some(Cell::Invisible) => None,
        Some(Cell::Hidden { .. }) => None,
        Some(Cell::Gimp { .. }) => Some(Cell::Gimp { value: 0 }),
        _ => slot,
    }
}

/// The legacy IDs of a slot's color and pips lie in their legacy ranges; the type
/// invariants of colors and pips keep every cell so, and `legacy_snapshot` states it of the
/// board it writes.
pub open spec fn legacy_ranges(slot: Option<Cell>) -> bool {
    match slot {
        Some(c) => crate::cell::in_legacy_ranges(c),
        None => true,
    }
}

/// A board written as a legacy snapshot (`ids`, right side up) and read back (`back`) keeps
/// each cell as `legacy_kept` says. `legacy_snapshot` ensures both the ids and the ranges
/// this asks of the board, and `from_legacy_snapshot` what it asks of `back`.
pub proof fn lemma_legacy_snapshot_round_trip(cells: Seq<Option<Cell>>, ids: Seq<i16>, back: Seq<Option<Cell>>)
    requires
        cells.len() == 280,
        ids.len() == 280,
        forall|x: int, y: int| in_board(x, y) ==> legacy_ranges(#[trigger] at(cells, x, y)),
        forall|x: int, y: int| in_board(x, y) ==> #[trigger] ids[cell_index(x, y)] as int == slot_legacy_id(at(cells, x, y)),
        forall|i: int| 0 <= i < 280 ==> {
            &&& (#[trigger] back[i] is Some <==> 1 <= ids[i] <= 29)
            &&& (back[i] matches Some(c) ==> spec_legacy_id(c) == ids[i] && legacy_faithful(c))
        },
    ensures
        forall|i: int| 0 <= i < 280 ==> #[trigger] back[i] == legacy_kept(cells[i]),
{
    assert forall|i: int| 0 <= i < 280 implies #[trigger] back[i] == legacy_kept(cells[i]) by {
        lemma_index_split(i);
        let x = i % 10;
        let y = i / 10;
        assert(in_board(x, y));
        assert(ids[cell_index(x, y)] as int == slot_legacy_id(at(cells, x, y)));
        assert(legacy_ranges(at(cells, x, y)));
        match cells[i] {
            None => {},
            Some(c) => match c {
                Cell::Invisible => {},
                Cell::Hidden { .. } => {},
                Cell::Gimp { .. } => {
                    crate::cell::lemma_legacy_id_determines_faithful_cell(back[i]->0, Cell::Gimp { value: 0 });
                },
                _ => {
                    crate::cell::lemma_legacy_id_determines_faithful_cell(back[i]->0, c);
                },
            },
        }
    }
}

/// A cell as a completed-line scan leaves it in a row that is kept: a happy cell becomes a
/// frown, any other slot stays.
pub open spec fn missed_slot(slot: Option<Cell>) -> Option<Cell> {
    if slot == Some(Cell::Happy) { Some(Cell::Frown) } else { slot }
}

proof fn lemma_no_full_rows_below(cells: Seq<Option<Cell>>, y: int)
    requires
        0 <= y <= 28,
        forall|v: int| y <= v < 28 ==> !row_full(#[trigger] board_row(cells, v)),
    ensures
        full_rows_from(cells, y) == 0,
    decreases 28 - y,
{
    if y < 28 {
        assert(!row_full(board_row(cells, y)));
        lemma_no_full_rows_below(cells, y + 1);
    }
}

proof fn lemma_kept_row_in_place(cells: Seq<Option<Cell>>, p: int, y: int)
    requires
        cells.len() == 280,
        0 <= p <= y < 28,
        full_rows_from(cells, y) == 0,
    ensures
        full_rows_from(cells, p) <= y - p,
        y - p - full_rows_from(cells, p) < kept_rows_from(cells, p).len(),
        kept_rows_from(cells, p)[y - p - full_rows_from(cells, p)] == frown_row(board_row(cells, y)),
    decreases y - p,
{
    lemma_suffix_sizes(cells, p);
    if p < y {
        lemma_kept_row_in_place(cells, p + 1, y);
        let j = y - (p + 1) - full_rows_from(cells, p + 1);
        if !row_full(board_row(cells, p)) {
            assert((seq![frown_row(board_row(cells, p))] + kept_rows_from(cells, p + 1))[j + 1] == kept_rows_from(cells, p + 1)[j]);
        }
    } else {
        assert(!row_full(board_row(cells, y)));
    }
}

/// Line clears by mode. A forced clear empties each full row where it stands and leaves
/// every other row in place with its happy cells frowned. A normal clear empties as many
/// rows at the top as there were full rows, and leaves every row below the lowest full row
/// in place, its happy cells frowned.
pub proof fn lemma_line_clear_modes(cells: Seq<Option<Cell>>)
    requires
        cells.len() == 280,
    ensures
        forall|x: int, y: int| in_board(x, y) ==> #[trigger] cleared_at(cells, LineClearMode::Force, x, y)
            == if (forall|u: int| 0 <= u < 10 ==> #[trigger] at(cells, u, y) is Some) { None } else { missed_slot(at(cells, x, y)) },
        forall|x: int, y: int| in_board(x, y) && y < full_rows_from(cells, 0) ==> #[trigger] cleared_at(cells, LineClearMode::Normal, x, y) is None,
        forall|x: int, y: int| in_board(x, y) && (forall|v: int| y <= v < 28 ==> !row_full(#[trigger] board_row(cells, v)))
            ==> #[trigger] cleared_at(cells, LineClearMode::Normal, x, y) == missed_slot(at(cells, x, y)),
{
    assert forall|x: int, y: int| in_board(x, y) implies #[trigger] cleared_at(cells, LineClearMode::Force, x, y)
        == if (forall|u: int| 0 <= u < 10 ==> #[trigger] at(cells, u, y) is Some) { None } else { missed_slot(at(cells, x, y)) } by {
        let row = board_row(cells, y);
        assert(row[x] == at(cells, x, y));
        if forall|u: int| 0 <= u < 10 ==> #[trigger] at(cells, u, y) is Some {
            assert forall|u: int| 0 <= u < row.len() implies #[trigger] row[u] is Some by {
                assert(row[u] == at(cells, u, y));
            }
        } else {
            let u = choose|u: int| !(0 <= u < 10 ==> #[trigger] at(cells, u, y) is Some);
            assert(row[u] == at(cells, u, y));
            assert(!row_full(row));
        }
    }
    assert forall|x: int, y: int| in_board(x, y) && (forall|v: int| y <= v < 28 ==> !row_full(#[trigger] board_row(cells, v)))
        implies #[trigger] cleared_at(cells, LineClearMode::Normal, x, y) == missed_slot(at(cells, x, y)) by {
        lemma_no_full_rows_below(cells, y);
        lemma_kept_row_in_place(cells, 0, y);
        let row = board_row(cells, y);
        assert(row[x] == at(cells, x, y));
    }
}

} // verus!
