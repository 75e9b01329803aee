//! Headless single-board falling-piece tick loop and the two-player session.
//!
//! The loop owns command/tick timing, line clears, score/funds updates, and
//! events that adapters can render, send, or record without coupling core
//! logic to those adapters.

use crate::board::{
    at, cleared_at, clear_funds, full_rows_from, in_board, missed_happy_from, row_value, slot_value, board_row,
    row_full, full_value_from, Board, LineClearMode, BOARD_HEIGHT,
};
use crate::cell::{spec_value, Cell};
use crate::piece::{initial_shape, kind_cell, kind_width, shape_fits, LocalCoord, Piece, PieceKind};
use crate::piece_generator::{kind_drawn, next_kind_outcome, prefix_weight, PieceGenerator};
use crate::rng::{chacha_next, GameSeed, RngStream};
use crate::ai::ComputerDifficulty;
use crate::recon::{funds_draw, recon_scan, report_percent, sample_recon, ReconLevel, ReconSnapshot};
use crate::score::{BazaarTracker, PlayerScore};
use std::collections::VecDeque;
use crate::weapons::{
    is_phase_10_timed_weapon, is_timed_weapon, mirror_nullifies, token_id, ActiveEffects, Arsenal, ArsenalError, ArsenalSlot,
    Bazaar,
    BazaarError, WeaponToken,
};
use rand_chacha::ChaCha12Rng;
use vstd::prelude::*;

verus! {

/// Legacy default fast-drop interval in milliseconds.
pub const DEFAULT_FAST_DROP_MS: u64 = 10;

/// Legacy default automatic drop interval in milliseconds.
pub const DEFAULT_DROP_MS: u64 = 512;

/// Legacy default slide grace interval in milliseconds.
pub const DEFAULT_SLIDE_MS: u64 = 150;

/// Input commands accepted by the headless core loop.
#[derive(Debug, Clone, Copy, PartialEq, Eq, Structural)]
pub enum Command {
    /// Move one cell left immediately if possible.
    MoveLeft,
    /// Move one cell right immediately if possible.
    MoveRight,
    /// Rotate forward immediately if possible.
    RotateClockwise,
    /// Rotate backward immediately if possible.
    RotateCounterClockwise,
    /// Start fast drop and award the one-time fast-drop score bump.
    StartFastDrop,
    /// Return to the default drop interval.
    StopFastDrop,
}

/// Core events emitted by command/tick handling.
#[derive(Debug, Clone, Copy, PartialEq, Eq)]
pub enum CoreEvent {
    /// A piece became active.
    PieceSpawned {
        /// Spawned piece kind.
        kind: PieceKind,
    },
    /// The active piece moved to a new anchor.
    PieceMoved {
        /// New board anchor.
        anchor: (isize, isize),
    },
    /// The active piece rotated.
    PieceRotated {
        /// New rotation state.
        orientation: u8,
    },
    /// A downward drop was blocked and slide grace began.
    PieceLanded,
    /// The active piece locked into the board.
    PieceLocked {
        /// Locked piece kind.
        kind: PieceKind,
    },
    /// A piece could not spawn because its spawn cells were occupied.
    SpawnFailed {
        /// Blocked piece kind.
        kind: PieceKind,
    },
    /// Fast drop started and awarded score.
    FastDropStarted {
        /// Score awarded by fast-drop start.
        score_delta: i32,
    },
    /// One or more lines cleared after a piece lock.
    LinesCleared {
        /// Number of lines cleared.
        lines: u32,
        /// Funds awarded by dice/happy/gimp/hidden values.
        funds: i32,
    },
    /// Happy cells became frowns because they were missed in non-full rows.
    HappyMissed {
        /// Number of happy cells converted.
        count: u32,
    },
}

/// Failure from bazaar shopping through the two-player session API.
#[derive(Debug, Clone, Copy, PartialEq, Eq, Structural)]
pub enum ShoppingError {
    /// Shopping is only allowed while the bazaar is open.
    BazaarClosed,
    /// This player has already clicked Done and is waiting for the opponent.
    PlayerDone,
    /// The staged bazaar operation failed.
    Bazaar(BazaarError),
}

/// Failure while launching a weapon from an arsenal slot.
#[derive(Debug, Clone, Copy, PartialEq, Eq, Structural)]
pub enum LaunchError {
    /// Weapons can only launch while actively playing.
    NotPlaying,
    /// The numbered arsenal slot could not be consumed.
    Arsenal(ArsenalError),
    /// The selected weapon is neither a one-shot nor a timed weapon.
    UnsupportedWeapon(WeaponToken),
}

/// Stable player slot used by local, network, replay, and test adapters.
#[derive(Debug, Clone, Copy, PartialEq, Eq, Hash, Structural)]
pub enum PlayerId {
    /// First player slot.
    One,
    /// Second player slot.
    Two,
}

/// The other player.
pub open spec fn opponent_of(player: PlayerId) -> PlayerId {
    match player {
        PlayerId::One => PlayerId::Two,
        PlayerId::Two => PlayerId::One,
    }
}

impl PlayerId {
    fn opponent(self) -> (r: Self)
        ensures
            r == opponent_of(self),
    {
        match self {
            Self::One => Self::Two,
            Self::Two => Self::One,
        }
    }
}

/// Configurable tick timings for one board.
#[derive(Debug, Clone, Copy, PartialEq, Eq, Structural)]
pub struct TimingConfig {
    /// Fast-drop interval in milliseconds.
    pub fast_drop_ms: u64,
    /// Default automatic drop interval in milliseconds.
    pub drop_ms: u64,
    /// Slide grace interval in milliseconds.
    pub slide_ms: u64,
}

impl Default for TimingConfig {
    fn default() -> (r: Self)
        ensures
            r == (TimingConfig { fast_drop_ms: 10, drop_ms: 512, slide_ms: 150 }),
    {
        Self { fast_drop_ms: DEFAULT_FAST_DROP_MS, drop_ms: DEFAULT_DROP_MS, slide_ms: DEFAULT_SLIDE_MS }
    }
}

/// The weights that no weapon changes: the classic El, reverse El, both slants, plug,
/// happy and long-dong slots.
pub open spec fn safe_weight_index(k: int) -> bool {
    k == 0 || k == 1 || k == 2 || k == 3 || k == 5 || k == 8 || k == 17
}

/// The generator keeps its queue length and the weights that no weapon changes.
pub open spec fn safe_weights_kept(a: PieceGenerator, b: PieceGenerator) -> bool {
    &&& b.weights().len() == a.weights().len()
    &&& b.wf() == a.wf()
    &&& forall|k: int| safe_weight_index(k) ==> #[trigger] b.weights()[k] == a.weights()[k]
}

/// Some weight that no weapon changes is positive, so every spawn can draw a kind.
pub open spec fn spawn_safe(g: PieceGenerator) -> bool {
    exists|k: int| safe_weight_index(k) && #[trigger] g.weights()[k] > 0
}

proof fn lemma_prefix_at_least(w: Seq<u16>, k: int, n: int)
    requires
        0 <= k < n <= w.len(),
    ensures
        prefix_weight(w, n) >= w[k],
    decreases n,
{
    if n - 1 > k {
        lemma_prefix_at_least(w, k, n - 1);
    } else {
        lemma_prefix_nonneg(w, n - 1);
    }
}

proof fn lemma_prefix_nonneg(w: Seq<u16>, n: int)
    requires
        0 <= n <= w.len(),
    ensures
        prefix_weight(w, n) >= 0,
    decreases n,
{
    if n > 0 {
        lemma_prefix_nonneg(w, n - 1);
    }
}

/// A generator with a positive weapon-proof weight can always draw a kind.
pub proof fn lemma_spawn_safe(g: PieceGenerator)
    requires
        g.wf(),
        spawn_safe(g),
    ensures
        prefix_weight(g.weights(), 18) > 0,
{
    let k = choose|k: int| safe_weight_index(k) && #[trigger] g.weights()[k] > 0;
    PieceGenerator::lemma_weights_len(g);
    lemma_prefix_at_least(g.weights(), k, 18);
}

/// Every cell of a board carries a funds value of at most a thousand either way.
pub open spec fn values_bounded(cells: Seq<Option<Cell>>) -> bool {
    forall|i: int| 0 <= i < cells.len() ==> -1000 <= #[trigger] slot_value(cells[i]) <= 1000
}

proof fn lemma_row_value_bounded(row: Seq<Option<Cell>>)
    requires
        values_bounded(row),
    ensures
        -1000 * row.len() <= row_value(row) <= 1000 * row.len(),
    decreases row.len(),
{
    if row.len() > 0 {
        let prev = row.drop_last();
        assert forall|i: int| 0 <= i < prev.len() implies -1000 <= #[trigger] slot_value(prev[i]) <= 1000 by {
            assert(prev[i] == row[i]);
        }
        lemma_row_value_bounded(prev);
        assert(-1000 <= slot_value(row[row.len() - 1]) <= 1000);
    }
}

proof fn lemma_full_value_bounded(cells: Seq<Option<Cell>>, p: int)
    requires
        cells.len() == 280,
        values_bounded(cells),
        0 <= p <= 28,
    ensures
        -10000 * (28 - p) <= full_value_from(cells, p) <= 10000 * (28 - p),
        full_rows_from(cells, p) <= 28 - p,
    decreases 28 - p,
{
    if p < 28 {
        lemma_full_value_bounded(cells, p + 1);
        let row = board_row(cells, p);
        assert(row.len() == 10);
        assert forall|i: int| 0 <= i < row.len() implies -1000 <= #[trigger] slot_value(row[i]) <= 1000 by {
            assert(row[i] == cells[p * 10 + i]);
        }
        lemma_row_value_bounded(row);
    }
}

/// A board whose cell values are bounded pays bounded funds for a line clear.
pub proof fn lemma_clear_funds_bounded(cells: Seq<Option<Cell>>)
    requires
        cells.len() == 280,
        values_bounded(cells),
    ensures
        -8_000_000 <= clear_funds(cells) <= 8_000_000,
        full_rows_from(cells, 0) <= 28,
{
    lemma_full_value_bounded(cells, 0);
    let v = full_value_from(cells, 0);
    let n = full_rows_from(cells, 0) as int;
    assert(-280000 * 28 <= v * n <= 280000 * 28) by (nonlinear_arith)
        requires
            -280000 <= v <= 280000,
            0 <= n <= 28,
    ;
}

/// Whether a value is one of the largest local y coordinates of a shape.
pub open spec fn is_max_y(coords: Seq<LocalCoord>, m: int) -> bool {
    &&& forall|i: int| 0 <= i < coords.len() ==> (#[trigger] coords[i]).y <= m
    &&& exists|i: int| 0 <= i < coords.len() && (#[trigger] coords[i]).y == m
}

/// Headless single-board state through piece movement and locking.
#[derive(Debug)]
pub struct PieceLoop {
    board: Board,
    generator: PieceGenerator,
    weapon_rng: ChaCha12Rng,
    active: Option<Piece>,
    timing: TimingConfig,
    drop_elapsed_ms: u64,
    slide_elapsed_ms: Option<u64>,
    fast_drop: bool,
    fast_drop_scored: bool,
    score: PlayerScore,
    arsenal: Arsenal,
    active_effects: ActiveEffects,
    game_over: bool,
    pending_spawn: bool,
    slick_direction: isize,
}

/// A piece anchor lies far enough from the ends of `isize` for any move and cell offset.
pub open spec fn anchor_in_range(p: Piece) -> bool {
    &&& isize::MIN + 16 <= p.anchor_x() <= isize::MAX - 16
    &&& isize::MIN + 16 <= p.anchor_y() <= isize::MAX - 16
}

/// Every cell of a piece lies on the board or in the middle columns below it.
pub open spec fn placed(p: Piece) -> bool {
    forall|j: int|
        0 <= j < p.coords().len() ==> in_board(p.anchor_x() + (#[trigger] p.coords()[j]).x, p.anchor_y() + p.coords()[j].y)
            || (2 <= p.anchor_x() + p.coords()[j].x <= 7 && p.anchor_y() + p.coords()[j].y >= 28)
}

impl PieceLoop {
    /// The board cells.
    pub closed spec fn board_view(&self) -> Seq<Option<Cell>> {
        self.board@
    }

    /// The falling piece, if any.
    pub closed spec fn active_spec(&self) -> Option<Piece> {
        self.active
    }

    /// The piece generator.
    pub closed spec fn generator_spec(&self) -> PieceGenerator {
        self.generator
    }

    /// Score, funds and line count.
    pub closed spec fn score_spec(&self) -> PlayerScore {
        self.score
    }

    /// The arsenal.
    pub closed spec fn arsenal_spec(&self) -> Arsenal {
        self.arsenal
    }

    /// Remaining line durations of timed effects, by weapon ID.
    pub closed spec fn effects(&self) -> Seq<u32> {
        self.active_effects@
    }

    /// Milliseconds accumulated toward the next automatic drop.
    pub closed spec fn drop_elapsed(&self) -> u64 {
        self.drop_elapsed_ms
    }

    /// Milliseconds spent in slide grace, when a slide is running.
    pub closed spec fn slide_elapsed(&self) -> Option<u64> {
        self.slide_elapsed_ms
    }

    /// Whether fast drop is on, and whether its score bump was paid.
    pub closed spec fn fast_drop_spec(&self) -> (bool, bool) {
        (self.fast_drop, self.fast_drop_scored)
    }

    /// Whether spawn failure ended this loop.
    pub closed spec fn game_over_spec(&self) -> bool {
        self.game_over
    }

    /// Whether a lock left the next spawn for later.
    pub closed spec fn pending_spec(&self) -> bool {
        self.pending_spawn
    }

    /// The direction Slick moves the piece next.
    pub closed spec fn slick_spec(&self) -> isize {
        self.slick_direction
    }

    /// The stream that weapon effects draw from.
    pub closed spec fn weapon_stream(&self) -> ChaCha12Rng {
        self.weapon_rng
    }

    /// Whether a timed effect is active.
    pub open spec fn effect_active(&self, token: WeaponToken) -> bool {
        self.effects()[token_id(token)] > 0
    }

    /// The loop's parts are well formed.
    pub closed spec fn wf(&self) -> bool {
        &&& self.board.wf()
        &&& self.generator.wf()
        &&& self.active_effects.wf()
        &&& self.arsenal.wf()
        &&& self.timing == TimingConfig { fast_drop_ms: 10, drop_ms: 512, slide_ms: 150 }
        &&& (self.slick_direction == 1 || self.slick_direction == -1)
        &&& (self.active matches Some(p) ==> p.wf() && anchor_in_range(p) && -1000 <= spec_value(p.cell_spec()) <= 1000
            && placed(p))
    }

    /// The falling piece of a well-formed loop is well formed, its anchor leaves room for its
    /// cells, and its cell value is bounded; the board has one slot per position.
    pub proof fn lemma_active_bounds(&self)
        requires
            self.wf(),
        ensures
            self.board_view().len() == 280,
            self.active_spec() matches Some(p) ==> p.wf() && p.anchor_room() && -1000 <= spec_value(p.cell_spec()) <= 1000,
    {
    }

    /// The next spawn can draw a piece kind.
    pub open spec fn can_spawn(&self) -> bool {
        self.generator_spec().queued() > 0 || prefix_weight(self.generator_spec().weights(), 18) > 0
    }

    /// Funds, score and lines are far from the `i32`/`u32` limits and board cells carry
    /// bounded values, so no line clear or funds transfer of one step can overflow.
    pub open spec fn economy_ok(&self) -> bool {
        &&& -0x2000_0000 <= self.score_spec().score_of() <= 0x2000_0000
        &&& -0x2000_0000 <= self.score_spec().funds_of() <= 0x2000_0000
        &&& self.score_spec().lines_of() <= 0x2000_0000
        &&& values_bounded(self.board_view())
    }
}


/// `b` is `a` placed at the anchor `(x, y)`.
pub open spec fn relocated(a: Piece, b: Piece, x: int, y: int) -> bool {
    &&& b.kind_spec() == a.kind_spec()
    &&& b.coords() == a.coords()
    &&& b.orientation_spec() == a.orientation_spec()
    &&& b.cell_spec() == a.cell_spec()
    &&& b.anchor_x() == x
    &&& b.anchor_y() == y
    &&& b.wf() == a.wf()
}

/// The automatic drop interval: fast or default, halved under Speedy (at least 1), doubled under Meadow.
pub open spec fn drop_interval(fast: bool, speedy: bool, meadow: bool) -> u64 {
    let base: u64 = if fast { 10 } else { 512 };
    let sped: u64 = if speedy { if base / 2 == 0 { 1 } else { base / 2 } } else { base };
    if meadow { (sped * 2) as u64 } else { sped }
}

/// Everything but the falling piece, the slide timer and the Slick direction is the same.
pub open spec fn same_core(a: PieceLoop, b: PieceLoop) -> bool {
    &&& b.board_view() == a.board_view()
    &&& b.generator_spec() == a.generator_spec()
    &&& b.score_spec() == a.score_spec()
    &&& b.arsenal_spec() == a.arsenal_spec()
    &&& b.effects() == a.effects()
    &&& b.drop_elapsed() == a.drop_elapsed()
    &&& b.fast_drop_spec() == a.fast_drop_spec()
    &&& b.game_over_spec() == a.game_over_spec()
    &&& b.pending_spec() == a.pending_spec()
}

/// What moving the falling piece by `(dx, dy)` does: when it fits, the piece moves, a
/// vertical move ends any slide, and the new anchor is reported; otherwise nothing changes.
pub open spec fn move_result(old: PieceLoop, new: PieceLoop, dx: int, dy: int, r: Seq<CoreEvent>) -> bool {
    &&& same_core(old, new)
    &&& new.slick_spec() == old.slick_spec()
    &&& old.move_fits(dx, dy) ==> {
        &&& new.active_spec() matches Some(q)
        &&& relocated(old.active_spec().unwrap(), q, old.active_spec().unwrap().anchor_x() + dx, old.active_spec().unwrap().anchor_y() + dy)
        &&& r == seq![CoreEvent::PieceMoved { anchor: (q.anchor_x() as isize, q.anchor_y() as isize) }]
        &&& new.slide_elapsed() == if dy != 0 { None } else { old.slide_elapsed() }
    }
    &&& !old.move_fits(dx, dy) ==> {
        &&& r.len() == 0
        &&& new.slide_elapsed() == old.slide_elapsed()
        &&& (old.active_spec() is None ==> new.active_spec() is None)
        &&& (old.active_spec() matches Some(p) ==> new.active_spec() matches Some(q) && relocated(p, q, p.anchor_x(), p.anchor_y()))
    }
}

/// What rotating the falling piece does: when the turned shape fits at the anchor, the piece
/// takes it and its next rotation state, and the state is reported; otherwise nothing changes.
pub open spec fn rotate_result(old: PieceLoop, new: PieceLoop, reverse: bool, r: Seq<CoreEvent>) -> bool {
    &&& same_core(old, new)
    &&& new.slick_spec() == old.slick_spec()
    &&& new.slide_elapsed() == old.slide_elapsed()
    &&& match old.active_spec() {
        None => r.len() == 0 && new.active_spec() is None,
        Some(p) => if p.rotation_fits(old.board_view(), reverse) {
            &&& new.active_spec() matches Some(q)
            &&& q.kind_spec() == p.kind_spec() && q.anchor_x() == p.anchor_x() && q.anchor_y() == p.anchor_y()
            &&& q.cell_spec() == p.cell_spec()
            &&& Some(q.coords()) == crate::piece::rotated_shape(p.kind_spec(), p.orientation_spec(), p.coords(), reverse)
            &&& q.orientation_spec() == crate::piece::next_orientation(p.kind_spec(), p.orientation_spec(), reverse)
            &&& r == seq![CoreEvent::PieceRotated { orientation: q.orientation_spec() as u8 }]
        } else {
            &&& r.len() == 0
            &&& new.active_spec() matches Some(q)
            &&& relocated(p, q, p.anchor_x(), p.anchor_y())
        },
    }
}

impl PieceLoop {
    /// Whether the falling piece can move by `(dx, dy)`: the new anchor stays in the
    /// representable range and every cell lands on a free position.
    pub open spec fn move_fits(&self, dx: int, dy: int) -> bool {
        &&& self.active_spec() matches Some(p)
        &&& isize::MIN + 16 <= p.anchor_x() + dx <= isize::MAX - 16
        &&& isize::MIN + 16 <= p.anchor_y() + dy <= isize::MAX - 16
        &&& shape_fits(self.board_view(), p.coords(), p.anchor_x() + dx, p.anchor_y() + dy, self.effect_active(WeaponToken::FallOut))
    }

    fn move_active(&mut self, dx: isize, dy: isize) -> (r: Vec<CoreEvent>)
        requires
            old(self).wf(),
            -1 <= dx <= 1,
            -1 <= dy <= 1,
        ensures
            final(self).wf(),
            move_result(*old(self), *final(self), dx as int, dy as int, r@),
    {
        let mut piece = match self.active.take() {
            Some(p) => p,
            None => {
                return Vec::new();
            },
        };
        let (x, y) = piece.anchor();
        if !(isize::MIN + 16 - dx <= x && x <= isize::MAX - 16 - dx && isize::MIN + 16 - dy <= y && y <= isize::MAX - 16 - dy) {
            self.active = Some(piece);
            return Vec::new();
        }
        let fallout = self.active_effects.is_active(WeaponToken::FallOut);
        if !piece.move_to_with_fallout(&self.board, x + dx, y + dy, fallout) {
            self.active = Some(piece);
            return Vec::new();
        }
        if dy != 0 {
            self.slide_elapsed_ms = None;
        }
        let anchor = piece.anchor();
        self.active = Some(piece);
        let r = vec![CoreEvent::PieceMoved { anchor }];
        proof {
            assert(same_core(*old(self), *self));
            assert(old(self).move_fits(dx as int, dy as int));
            let q = self.active.unwrap();
            assert(relocated(old(self).active_spec().unwrap(), q, old(self).active_spec().unwrap().anchor_x() + dx, old(self).active_spec().unwrap().anchor_y() + dy));
            assert(r@ == seq![CoreEvent::PieceMoved { anchor: (q.anchor_x() as isize, q.anchor_y() as isize) }]);
        }
        r
    }

    fn rotate_active(&mut self, reverse: bool) -> (r: Vec<CoreEvent>)
        requires
            old(self).wf(),
        ensures
            final(self).wf(),
            rotate_result(*old(self), *final(self), reverse, r@),
    {
        let mut piece = match self.active.take() {
            Some(p) => p,
            None => {
                return Vec::new();
            },
        };
        if !piece.rotate(&self.board, reverse) {
            self.active = Some(piece);
            return Vec::new();
        }
        let orientation = piece.orientation();
        self.active = Some(piece);
        let r = vec![CoreEvent::PieceRotated { orientation }];
        proof {
            let p = old(self).active_spec().unwrap();
            let q = self.active.unwrap();
            assert(p.rotation_fits(old(self).board_view(), reverse));
            assert(same_core(*old(self), *self));
            assert(r@ == seq![CoreEvent::PieceRotated { orientation: q.orientation_spec() as u8 }]);
        }
        r
    }
}


/// The piece kind a spawn event names.
pub open spec fn spawn_event_kind(e: CoreEvent) -> Option<PieceKind> {
    match e {
        CoreEvent::PieceSpawned { kind } => Some(kind),
        CoreEvent::SpawnFailed { kind } => Some(kind),
        _ => None,
    }
}

/// What a spawn does: the generator hands out the next kind, the new piece sits at its
/// spawn anchor (at the bottom, by its lowest cell, under Upbyside), and it becomes the
/// falling piece when its cells are free; otherwise the loop is over.
pub open spec fn spawn_result(
    board: Seq<Option<Cell>>,
    upbyside: bool,
    generator: PieceGenerator,
    after: PieceLoop,
    e: CoreEvent,
) -> bool {
    &&& spawn_event_kind(e) matches Some(kind)
    &&& next_kind_outcome(generator, after.generator_spec(), kind)
    &&& kind_drawn(generator, after.generator_spec().piece_stream(), kind)
    &&& after.generator_spec().last_kind() == Some(kind)
    &&& after.generator_spec().weights() == generator.weights()
    &&& after.generator_spec().broken_record() == generator.broken_record()
    &&& match e {
        CoreEvent::PieceSpawned { kind } => {
            &&& !after.game_over_spec()
            &&& after.active_spec() matches Some(p)
            &&& p.kind_spec() == kind
            &&& p.coords() == initial_shape(kind)
            &&& p.orientation_spec() == 0
            &&& p.anchor_x() == 5 - kind_width(kind) / 2
            &&& if upbyside { is_max_y(p.coords(), 27 - p.anchor_y()) } else { p.anchor_y() == 0 }
            &&& shape_fits(board, p.coords(), p.anchor_x(), p.anchor_y(), false)
        },
        _ => {
            &&& after.game_over_spec()
            &&& after.active_spec() is None
            &&& !shape_fits(board, initial_shape(kind), 5 - kind_width(kind) / 2, 0, false) || upbyside
        },
    }
}

impl PieceLoop {
    fn spawn_next_piece(&mut self) -> (r: Vec<CoreEvent>)
        requires
            old(self).wf(),
            old(self).can_spawn(),
            !old(self).game_over_spec(),
        ensures
            final(self).wf(),
            r@.len() == 1,
            spawn_result(
                old(self).board_view(),
                old(self).effect_active(WeaponToken::Upbyside),
                old(self).generator_spec(),
                *final(self),
                r@[0],
            ),
            final(self).board_view() == old(self).board_view(),
            final(self).score_spec() == old(self).score_spec(),
            final(self).arsenal_spec() == old(self).arsenal_spec(),
            final(self).effects() == old(self).effects(),
            final(self).drop_elapsed() == old(self).drop_elapsed(),
            final(self).slide_elapsed() == old(self).slide_elapsed(),
            final(self).fast_drop_spec() == old(self).fast_drop_spec(),
            final(self).pending_spec() == old(self).pending_spec(),
            final(self).slick_spec() == old(self).slick_spec(),
    {
        let mut piece = self.generator.next_piece();
        let kind = piece.kind();
        if self.active_effects.is_active(WeaponToken::Upbyside) {
            let (x, _) = piece.anchor();
            let m = piece.max_local_y();
            let y: isize = (BOARD_HEIGHT as isize) - 1 - (m as isize);
            piece.set_anchor(x, y);
        }
        let (ax, ay) = piece.anchor();
        if !piece.can_move_to(&self.board, ax, ay) {
            self.game_over = true;
            self.active = None;
            return vec![CoreEvent::SpawnFailed { kind }];
        }
        proof {
            assert(-1000 <= spec_value(piece.cell_spec()) <= 1000);
        }
        self.active = Some(piece);
        vec![CoreEvent::PieceSpawned { kind }]
    }
}


/// Whether every cell of a piece lies above the bottom edge of the board.
pub open spec fn above_floor(p: Piece) -> bool {
    forall|j: int| 0 <= j < p.coords().len() ==> p.anchor_y() + (#[trigger] p.coords()[j]).y < 28
}

/// The board with a piece written into it when the piece lies above the bottom edge.
pub open spec fn lock_board(cells: Seq<Option<Cell>>, p: Piece) -> Seq<Option<Cell>> {
    if above_floor(p) {
        Seq::new(280, |i: int| if p.occupies(i % 10, i / 10) { Some(p.cell_spec()) } else { cells[i] })
    } else {
        cells
    }
}

/// Integer division rounding toward zero, as machine division does.
pub open spec fn trunc_div(a: int, b: int) -> int {
    if a >= 0 { a / b } else { -((-a) / b) }
}

/// The funds paid for a clear: the board's line-clear funds, cut to 70 percent under Mondale.
pub open spec fn paid_funds(raw: int, mondale: bool) -> int {
    if mondale { trunc_div(raw * 70, 100) } else { raw }
}

/// The events a lock reports before any spawn.
pub open spec fn lock_events(kind: PieceKind, lines: u32, funds: i32, missed: u32) -> Seq<CoreEvent> {
    seq![CoreEvent::PieceLocked { kind }] + (if funds != 0 || lines != 0 {
        seq![CoreEvent::LinesCleared { lines, funds }]
    } else {
        Seq::empty()
    }) + (if missed != 0 { seq![CoreEvent::HappyMissed { count: missed }] } else { Seq::empty() })
}

/// The line-clear mode in force: Force erases rows without dropping the rows above.
pub open spec fn clear_mode(force: bool) -> LineClearMode {
    if force { LineClearMode::Force } else { LineClearMode::Normal }
}

impl PieceLoop {
    /// What locking the falling piece does: write it into the board when it lies above the
    /// bottom edge, clear completed lines, pay the funds and count the lines, then spawn
    /// the next piece now or leave the spawn pending.
    pub open spec fn lock_result(old: PieceLoop, new: PieceLoop, auto_spawn: bool, r: Seq<CoreEvent>) -> bool {
        match old.active_spec() {
            None => r.len() == 0 && new == old,
            Some(p) => {
                let locked = lock_board(old.board_view(), p);
                let mode = clear_mode(old.effect_active(WeaponToken::Force));
                let lines = full_rows_from(locked, 0);
                let funds = paid_funds(clear_funds(locked), old.effect_active(WeaponToken::Mondale));
                let head = lock_events(p.kind_spec(), lines as u32, funds as i32, missed_happy_from(locked, 0) as u32);
                &&& forall|x: int, y: int| in_board(x, y) ==> #[trigger] at(new.board_view(), x, y) == cleared_at(locked, mode, x, y)
                &&& new.score_spec().funds_of() == old.score_spec().funds_of() + funds
                &&& new.score_spec().lines_of() == old.score_spec().lines_of() + lines
                &&& new.score_spec().score_of() == old.score_spec().score_of()
                &&& new.fast_drop_spec() == (false, false)
                &&& new.drop_elapsed() == 0
                &&& new.arsenal_spec() == old.arsenal_spec()
                &&& new.effects() == old.effects()
                &&& new.slide_elapsed() == old.slide_elapsed()
                &&& new.slick_spec() == old.slick_spec()
                &&& if auto_spawn {
                    &&& r.len() == head.len() + 1
                    &&& r.subrange(0, head.len() as int) == head
                    &&& spawn_result(new.board_view(), old.effect_active(WeaponToken::Upbyside), old.generator_spec(), new, r.last())
                    &&& new.pending_spec() == old.pending_spec()
                } else {
                    &&& r == head
                    &&& new.pending_spec()
                    &&& new.active_spec() is None
                    &&& new.generator_spec() == old.generator_spec()
                    &&& new.game_over_spec() == old.game_over_spec()
                }
            },
        }
    }

    #[verifier::rlimit(40)]
    fn lock_active(&mut self, auto_spawn_after_lock: bool) -> (r: Vec<CoreEvent>)
        requires
            old(self).wf(),
            lock_fits(*old(self)),
            !old(self).game_over_spec(),
            auto_spawn_after_lock ==> old(self).can_spawn(),
        ensures
            final(self).wf(),
            Self::lock_result(*old(self), *final(self), auto_spawn_after_lock, r@),
    {
        let piece = match self.active.take() {
            Some(p) => p,
            None => {
                return Vec::new();
            },
        };
        let ghost p = piece;
        let ghost before = self.board@;
        let kind = piece.kind();
        let coords = piece.board_coords();
        proof {
            crate::piece::lemma_grid_scan(piece.coord_set(), 64);
        }
        let mut all_above = true;
        let mut i: usize = 0;
        while i < coords.len()
            invariant
                i <= coords@.len(),
                all_above == forall|k: int| 0 <= k < i ==> (#[trigger] coords@[k]).1 < 28,
            decreases coords@.len() - i,
        {
            if coords[i].1 >= 28 {
                all_above = false;
            }
            i = i + 1;
        }
        proof {
            lemma_above_floor_sorted(p);
            let sl = p.sorted_local();
            if all_above {
                assert forall|k: int| 0 <= k < sl.len() implies p.anchor_y() + (#[trigger] sl[k]).y < 28 by {
                    assert(coords@[k].1 < 28);
                }
            } else {
                let k = choose|k: int| 0 <= k < coords@.len() && !(coords@[k].1 < 28);
                assert(!(p.anchor_y() + sl[k].y < 28));
            }
            assert(all_above == above_floor(p));
        }
        if all_above {
            proof {
                assert forall|j: int| 0 <= j < p.coords().len() implies in_board(
                    p.anchor_x() + (#[trigger] p.coords()[j]).x,
                    p.anchor_y() + p.coords()[j].y,
                ) by {
                    assert(p.anchor_y() + p.coords()[j].y < 28);
                }
            }
            piece.lock_into(&mut self.board);
            proof {
                assert(self.board@ =~= lock_board(before, p)) by {
                    assert forall|i: int| 0 <= i < 280 implies self.board@[i] == lock_board(before, p)[i] by {
                        crate::board::lemma_index_split(i);
                        assert(at(self.board@, i % 10, i / 10) == self.board@[i]);
                    }
                }
            }
        } else {
            assert(self.board@ == lock_board(before, p));
        }
        self.fast_drop = false;
        self.fast_drop_scored = false;
        self.drop_elapsed_ms = 0;
        let mut events: Vec<CoreEvent> = vec![CoreEvent::PieceLocked { kind }];
        let force = self.active_effects.is_active(WeaponToken::Force);
        let clear_mode_now = if force { LineClearMode::Force } else { LineClearMode::Normal };
        let ghost locked = self.board@;
        let mut outcome = self.board.clear_completed_lines(clear_mode_now);
        if self.active_effects.is_active(WeaponToken::Mondale) {
            outcome.funds = outcome.funds * 70 / 100;
        }
        self.score.apply_line_clear(&outcome);
        if outcome.funds != 0 || outcome.lines_cleared != 0 {
            events.push(CoreEvent::LinesCleared { lines: outcome.lines_cleared, funds: outcome.funds });
        }
        if outcome.happy_missed != 0 {
            events.push(CoreEvent::HappyMissed { count: outcome.happy_missed });
        }
        let ghost head = events@;
        assert(head =~= lock_events(kind, full_rows_from(locked, 0) as u32, paid_funds(clear_funds(locked), self.effect_active(WeaponToken::Mondale)) as i32, missed_happy_from(locked, 0) as u32));
        let ghost mid = *self;
        proof {
            let mode = clear_mode(old(self).effect_active(WeaponToken::Force));
            assert(locked == lock_board(old(self).board@, p));
            assert(mode == clear_mode_now);
            assert(forall|x: int, y: int| in_board(x, y) ==> #[trigger] at(self.board@, x, y) == cleared_at(locked, mode, x, y));
            assert(self.score.funds_of() == old(self).score.funds_of() + paid_funds(clear_funds(locked), old(self).effect_active(WeaponToken::Mondale)));
            assert(self.score.lines_of() == old(self).score.lines_of() + full_rows_from(locked, 0));
        }
        if auto_spawn_after_lock {
            let mut spawned = self.spawn_next_piece();
            events.append(&mut spawned);
            proof {
                assert(events@.subrange(0, head.len() as int) =~= head);
            }
        } else {
            self.pending_spawn = true;
        }
        events
    }
}

proof fn lemma_above_floor_sorted(p: Piece)
    requires
        p.wf(),
    ensures
        above_floor(p) <==> forall|k: int| 0 <= k < p.sorted_local().len() ==> p.anchor_y() + (#[trigger] p.sorted_local()[k]).y < 28,
{
    Piece::lemma_wf(p);
    crate::piece::lemma_grid_scan(p.coord_set(), 64);
    let s = p.sorted_local();
    if above_floor(p) {
        assert forall|k: int| 0 <= k < s.len() implies p.anchor_y() + (#[trigger] s[k]).y < 28 by {
            assert(s.contains(s[k]));
            assert(p.coord_set().contains(s[k]));
            let j = choose|j: int| 0 <= j < p.coords().len() && p.coords()[j] == s[k];
            assert(p.anchor_y() + p.coords()[j].y < 28);
        }
    }
    if forall|k: int| 0 <= k < s.len() ==> p.anchor_y() + (#[trigger] s[k]).y < 28 {
        assert forall|j: int| 0 <= j < p.coords().len() implies p.anchor_y() + (#[trigger] p.coords()[j]).y < 28 by {
            let c = p.coords()[j];
            assert(p.coords().contains(c));
            assert(p.coord_set().contains(c));
            assert(c.x < 8 && c.y < 8);
            assert(crate::piece::grid_pos(c) < 64);
            assert(s.contains(c));
            let k = choose|k: int| 0 <= k < s.len() && s[k] == c;
            assert(p.anchor_y() + s[k].y < 28);
        }
    }
}

proof fn lemma_locked_values_bounded(cells: Seq<Option<Cell>>, p: Piece)
    requires
        cells.len() == 280,
        values_bounded(cells),
        -1000 <= spec_value(p.cell_spec()) <= 1000,
    ensures
        values_bounded(lock_board(cells, p)),
        lock_board(cells, p).len() == 280,
{
}


/// A placed piece has its anchor no more than seven rows above the top edge.
/// Starting a fast drop can pay its score bump: the rows left below the piece's anchor
/// added to the score stay within `i32`.
pub open spec fn fast_drop_fits(g: PieceLoop) -> bool {
    match g.active_spec() {
        Some(p) => !g.fast_drop_spec().1 ==> g.score_spec().score_of() + (if 28 - p.anchor_y() > 0 {
            28 - p.anchor_y()
        } else {
            0
        }) <= i32::MAX,
        None => true,
    }
}

/// A loop far from the machine limits can start a fast drop.
proof fn lemma_economy_fast_drop(g: PieceLoop)
    requires
        g.wf(),
        g.economy_ok(),
    ensures
        fast_drop_fits(g),
{
    if let Some(p) = g.active_spec() {
        lemma_placed_anchor(p);
    }
}

proof fn lemma_placed_anchor(p: Piece)
    requires
        p.wf(),
        placed(p),
    ensures
        p.anchor_y() >= -7,
{
    Piece::lemma_wf(p);
    let c = p.coords()[0];
    assert(c.y < 8);
    assert(in_board(p.anchor_x() + c.x, p.anchor_y() + c.y) || p.anchor_y() + c.y >= 28);
}

/// Every line clear among `r` pays funds within the line-clear bound.
pub open spec fn core_events_bounded(r: Seq<CoreEvent>) -> bool {
    forall|i: int| 0 <= i < r.len() ==> (#[trigger] r[i] matches CoreEvent::LinesCleared { funds, .. } ==> -8_000_000
        <= funds <= 8_000_000)
}

proof fn lemma_bounded_append(a: Seq<CoreEvent>, b: Seq<CoreEvent>)
    requires
        core_events_bounded(a),
        core_events_bounded(b),
    ensures
        core_events_bounded(a + b),
{
    assert forall|i: int| 0 <= i < (a + b).len() implies (#[trigger] (a + b)[i] matches CoreEvent::LinesCleared { funds, .. }
        ==> -8_000_000 <= funds <= 8_000_000) by {
        if i < a.len() {
            assert((a + b)[i] == a[i]);
        } else {
            assert((a + b)[i] == b[i - a.len()]);
        }
    }
}

/// Loop state that a tick may change: the arsenal, the timed effects and the score stay, at
/// most 28 lines clear and the funds move by at most one line clear's pay.
pub open spec fn tick_frame(a: PieceLoop, b: PieceLoop) -> bool {
    &&& b.arsenal_spec() == a.arsenal_spec()
    &&& b.effects() == a.effects()
    &&& b.score_spec().score_of() == a.score_spec().score_of()
    &&& a.score_spec().lines_of() <= b.score_spec().lines_of() <= a.score_spec().lines_of() + 28
    &&& a.score_spec().funds_of() - 8_000_000 <= b.score_spec().funds_of() <= a.score_spec().funds_of() + 8_000_000
    &&& (a.game_over_spec() ==> b.game_over_spec())
}

impl PieceLoop {
    fn gravity_step(&self) -> (r: isize)
        requires
            self.wf(),
        ensures
            r == if self.effect_active(WeaponToken::Upbyside) { -1isize } else { 1isize },
    {
        if self.active_effects.is_active(WeaponToken::Upbyside) {
            -1
        } else {
            1
        }
    }

    fn horizontal_step(&self, step: isize) -> (r: isize)
        requires
            self.wf(),
            -1 <= step <= 1,
        ensures
            r == if self.effect_active(WeaponToken::Upbyside) { -step } else { step as int },
    {
        if self.active_effects.is_active(WeaponToken::Upbyside) {
            -step
        } else {
            step
        }
    }

    fn fallout_active(&self) -> (r: bool)
        requires
            self.wf(),
        ensures
            r == self.effect_active(WeaponToken::FallOut),
    {
        self.active_effects.is_active(WeaponToken::FallOut)
    }

    fn start_fast_drop(&mut self) -> (r: Vec<CoreEvent>)
        requires
            old(self).wf(),
            fast_drop_fits(*old(self)),
        ensures
            final(self).wf(),
            final(self).board_view() == old(self).board_view(),
            final(self).generator_spec() == old(self).generator_spec(),
            final(self).active_spec() == old(self).active_spec(),
            final(self).arsenal_spec() == old(self).arsenal_spec(),
            final(self).effects() == old(self).effects(),
            final(self).drop_elapsed() == old(self).drop_elapsed(),
            final(self).slide_elapsed() == old(self).slide_elapsed(),
            final(self).game_over_spec() == old(self).game_over_spec(),
            final(self).pending_spec() == old(self).pending_spec(),
            final(self).slick_spec() == old(self).slick_spec(),
            final(self).score_spec().funds_of() == old(self).score_spec().funds_of(),
            final(self).score_spec().lines_of() == old(self).score_spec().lines_of(),
            final(self).fast_drop_spec().0,
            old(self).fast_drop_spec().1 || old(self).active_spec() is None ==> {
                &&& r@.len() == 0
                &&& final(self).score_spec() == old(self).score_spec()
                &&& final(self).fast_drop_spec().1 == old(self).fast_drop_spec().1
            },
            !old(self).fast_drop_spec().1 && old(self).active_spec() is Some ==> {
                let y = old(self).active_spec().unwrap().anchor_y();
                let delta: int = if 28 - y > 0 { 28 - y } else { 0 };
                &&& r@ == seq![CoreEvent::FastDropStarted { score_delta: delta as i32 }]
                &&& final(self).score_spec().score_of() == old(self).score_spec().score_of() + delta
                &&& final(self).fast_drop_spec().1
                &&& 0 <= delta <= 35
            },
    {
        self.fast_drop = true;
        if self.fast_drop_scored {
            return Vec::new();
        }
        let y = match &self.active {
            Some(piece) => {
                proof {
                    lemma_placed_anchor(*piece);
                }
                piece.anchor().1
            },
            None => {
                return Vec::new();
            },
        };
        let diff: isize = (BOARD_HEIGHT as isize) - y;
        let score_delta: i32 = if diff > 0 { diff as i32 } else { 0 };
        self.score.add_score(score_delta);
        self.fast_drop_scored = true;
        vec![CoreEvent::FastDropStarted { score_delta }]
    }

    fn slick_step(&mut self) -> (r: Vec<CoreEvent>)
        requires
            old(self).wf(),
        ensures
            final(self).wf(),
            same_core(*old(self), *final(self)),
            final(self).slide_elapsed() == old(self).slide_elapsed(),
            old(self).move_fits(old(self).slick_spec() as int, 0) ==> final(self).slick_spec() == old(self).slick_spec(),
            !old(self).move_fits(old(self).slick_spec() as int, 0) ==> final(self).slick_spec() == -old(self).slick_spec(),
            r@.len() <= 1,
            core_events_bounded(r@),
            slick_result(*old(self), *final(self), r@),
    {
        let first = self.move_active(self.slick_direction, 0);
        if first.len() > 0 {
            return first;
        }
        let ghost middle = *self;
        self.slick_direction = -self.slick_direction;
        assert(*self == middle.with_slick((-(old(self).slick_spec() as int)) as isize));
        let r = self.move_active(self.slick_direction, 0);
        proof {
            if !old(self).move_fits(old(self).slick_spec() as int, 0) {
                assert(slick_turn(*old(self), middle, *self, r@));
            }
        }
        r
    }

    fn drop_or_start_slide(&mut self) -> (r: Vec<CoreEvent>)
        requires
            old(self).wf(),
        ensures
            final(self).wf(),
            same_core(*old(self), *final(self)),
            final(self).slick_spec() == old(self).slick_spec(),
            r@.len() <= 1,
            old(self).move_fits(0, if old(self).effect_active(WeaponToken::Upbyside) { -1 } else { 1 }) ==> r@.len() == 1
                && r@[0] is PieceMoved && final(self).slide_elapsed() is None,
            !old(self).move_fits(0, if old(self).effect_active(WeaponToken::Upbyside) { -1 } else { 1 }) ==> {
                &&& final(self).active_spec() == old(self).active_spec()
                &&& final(self).slide_elapsed() == if old(self).slide_elapsed() is None {
                    Some(0u64)
                } else {
                    old(self).slide_elapsed()
                }
                &&& r@ == if old(self).slide_elapsed() is None { seq![CoreEvent::PieceLanded] } else { Seq::empty() }
            },
            drop_step_result(*old(self), *final(self), r@),
    {
        let dy = self.gravity_step();
        let fits = match &self.active {
            Some(piece) => {
                let (x, y) = piece.anchor();
                let fallout = self.fallout_active();
                if isize::MIN + 16 <= y + dy && y + dy <= isize::MAX - 16 {
                    piece.can_move_to_with_fallout(&self.board, x, y + dy, fallout)
                } else {
                    false
                }
            },
            None => false,
        };
        assert(dy as int == gravity(*old(self)));
        if fits {
            return self.move_active(0, dy);
        }
        assert(!old(self).move_fits(0, gravity(*old(self))));
        if self.slide_elapsed_ms.is_none() {
            self.slide_elapsed_ms = Some(0);
            let r = vec![CoreEvent::PieceLanded];
            assert(r@ == seq![CoreEvent::PieceLanded]);
            r
        } else {
            let r = Vec::new();
            assert(r@ == Seq::<CoreEvent>::empty());
            r
        }
    }
}


impl PieceLoop {
    /// The loop with its slide timer set to `slide`.
    pub closed spec fn with_slide(self, slide: Option<u64>) -> PieceLoop {
        PieceLoop { slide_elapsed_ms: slide, ..self }
    }

    /// The loop with its drop timer set to `elapsed`.
    pub closed spec fn with_drop(self, elapsed: u64) -> PieceLoop {
        PieceLoop { drop_elapsed_ms: elapsed, ..self }
    }

    /// The loop with its Slick direction set to `direction`.
    pub closed spec fn with_slick(self, direction: isize) -> PieceLoop {
        PieceLoop { slick_direction: direction, ..self }
    }
}

/// The row step of gravity: down, or up under Upbyside.
pub open spec fn gravity(g: PieceLoop) -> int {
    if g.effect_active(WeaponToken::Upbyside) { -1 } else { 1 }
}

/// What one automatic drop does: the piece falls one row when it fits; otherwise it stays,
/// and a slide starts (reported as a landing) unless one is already running.
pub open spec fn drop_step_result(old: PieceLoop, new: PieceLoop, r: Seq<CoreEvent>) -> bool {
    if old.move_fits(0, gravity(old)) {
        move_result(old, new, 0, gravity(old), r)
    } else {
        &&& same_core(old, new)
        &&& new.slick_spec() == old.slick_spec()
        &&& new.active_spec() == old.active_spec()
        &&& new.slide_elapsed() == if old.slide_elapsed() is None { Some(0u64) } else { old.slide_elapsed() }
        &&& r == if old.slide_elapsed() is None { seq![CoreEvent::PieceLanded] } else { Seq::<CoreEvent>::empty() }
    }
}

/// The events of several steps, one after the other.
pub open spec fn concat_events(evs: Seq<Seq<CoreEvent>>) -> Seq<CoreEvent>
    decreases evs.len(),
{
    if evs.len() == 0 {
        Seq::empty()
    } else {
        concat_events(evs.drop_last()) + evs.last()
    }
}

/// Step `i` of the automatic drops: a full interval remained, the loop was running, and
/// taking the interval off the timer then dropping led to the next state.
pub open spec fn drop_step_at(states: Seq<PieceLoop>, evs: Seq<Seq<CoreEvent>>, interval: u64, i: int) -> bool {
    &&& states[i].drop_elapsed() >= interval
    &&& !states[i].pending_spec()
    &&& !states[i].game_over_spec()
    &&& drop_step_result(states[i].with_drop((states[i].drop_elapsed() - interval) as u64), states[i + 1], evs[i])
}

/// The automatic drops of a tick, through `states`: each step takes one interval off the
/// drop timer and drops the piece, while a full interval remains and the loop neither
/// waits for a spawn nor is over.
pub open spec fn drops_by(start: PieceLoop, states: Seq<PieceLoop>, evs: Seq<Seq<CoreEvent>>, interval: u64) -> bool {
    &&& states.len() == evs.len() + 1
    &&& states[0] == start
    &&& forall|i: int| 0 <= i < evs.len() ==> #[trigger] drop_step_at(states, evs, interval, i)
    &&& (states.last().drop_elapsed() < interval || states.last().pending_spec() || states.last().game_over_spec())
}

/// Slick moves the piece one column its way, or, when that is blocked, turns around and
/// tries the other way; `middle` is the loop between the two tries.
pub open spec fn slick_turn(old: PieceLoop, middle: PieceLoop, new: PieceLoop, r: Seq<CoreEvent>) -> bool {
    let d = old.slick_spec() as int;
    &&& move_result(old, middle, d, 0, Seq::empty())
    &&& move_result(middle.with_slick((-d) as isize), new, -d, 0, r)
}

/// What one Slick step does.
pub open spec fn slick_result(old: PieceLoop, new: PieceLoop, r: Seq<CoreEvent>) -> bool {
    if old.move_fits(old.slick_spec() as int, 0) {
        move_result(old, new, old.slick_spec() as int, 0, r)
    } else {
        exists|middle: PieceLoop| #[trigger] slick_turn(old, middle, new, r)
    }
}

/// What ending a slide does: with the slide timer cleared, the piece falls one row when it
/// fits, and locks otherwise.
pub open spec fn expire_slide_result(old: PieceLoop, new: PieceLoop, auto_spawn: bool, r: Seq<CoreEvent>) -> bool {
    let a = old.with_slide(None);
    if a.move_fits(0, gravity(a)) {
        move_result(a, new, 0, gravity(a), r)
    } else {
        PieceLoop::lock_result(a, new, auto_spawn, r)
    }
}

/// The slide part of a tick: a running slide counts the elapsed time, and ends once its
/// grace (none under NoSlide) is used up.
pub open spec fn slide_phase(old: PieceLoop, new: PieceLoop, auto_spawn: bool, elapsed: u64, r: Seq<CoreEvent>) -> bool {
    match old.slide_elapsed() {
        None => new == old && r.len() == 0,
        Some(t) => {
            let running = old.with_slide(Some((t + elapsed) as u64));
            let grace: int = if old.effect_active(WeaponToken::NoSlide) { 0 } else { 150 };
            if t + elapsed >= grace {
                expire_slide_result(running, new, auto_spawn, r)
            } else {
                new == running && r.len() == 0
            }
        },
    }
}

/// The stages of a tick before its slide part: the drops through `states`, then Hatter
/// (to `s2`) and Slick (to `s3`).
pub open spec fn tick_prefix(
    old: PieceLoop,
    elapsed: u64,
    states: Seq<PieceLoop>,
    evs: Seq<Seq<CoreEvent>>,
    s2: PieceLoop,
    s3: PieceLoop,
    r2: Seq<CoreEvent>,
    r3: Seq<CoreEvent>,
) -> bool {
    let interval = drop_interval(
        old.fast_drop_spec().0,
        old.effect_active(WeaponToken::Speedy),
        old.effect_active(WeaponToken::Meadow),
    );
    let s1 = states.last();
    &&& drops_by(old.with_drop((old.drop_elapsed() + elapsed) as u64), states, evs, interval)
    &&& if s1.effect_active(WeaponToken::Hatter) { rotate_result(s1, s2, false, r2) } else { s2 == s1 && r2.len() == 0 }
    &&& if s2.effect_active(WeaponToken::Slick) { slick_result(s2, s3, r3) } else { s3 == s2 && r3.len() == 0 }
}

/// Whether a tick's slide part ends the slide with a lock: a slide ran when the tick began
/// and still runs at `s3`, its grace is used up, and the piece cannot fall.
pub open spec fn slide_locks(old: PieceLoop, s3: PieceLoop, elapsed: u64) -> bool {
    &&& old.slide_elapsed() is Some
    &&& s3.slide_elapsed() matches Some(t)
    &&& t + elapsed >= if s3.effect_active(WeaponToken::NoSlide) { 0int } else { 150int }
    &&& !s3.move_fits(0, gravity(s3))
}

/// The lock a tick may reach fits machine integers: whenever the tick's stages lead to a
/// slide that ends with a lock, that lock fits.
pub open spec fn tick_locks_fit(old: PieceLoop, elapsed: u64) -> bool {
    forall|states: Seq<PieceLoop>, evs: Seq<Seq<CoreEvent>>, s2: PieceLoop, s3: PieceLoop, r2: Seq<CoreEvent>, r3: Seq<CoreEvent>|
        #[trigger] tick_prefix(old, elapsed, states, evs, s2, s3, r2, r3) && slide_locks(old, s3, elapsed) ==> lock_fits(s3)
}

/// The stages of one tick, through the drop states `states`, the loop `s2` after Hatter
/// and `s3` after Slick.
pub open spec fn tick_stages(
    old: PieceLoop,
    new: PieceLoop,
    elapsed: u64,
    auto_spawn: bool,
    r: Seq<CoreEvent>,
    states: Seq<PieceLoop>,
    evs: Seq<Seq<CoreEvent>>,
    s2: PieceLoop,
    s3: PieceLoop,
    r2: Seq<CoreEvent>,
    r3: Seq<CoreEvent>,
    r4: Seq<CoreEvent>,
) -> bool {
    &&& tick_prefix(old, elapsed, states, evs, s2, s3, r2, r3)
    &&& if old.slide_elapsed() is Some { slide_phase(s3, new, auto_spawn, elapsed, r4) } else { new == s3 && r4.len() == 0 }
    &&& r == concat_events(evs) + r2 + r3 + r4
}

/// What a tick of `elapsed` milliseconds does: nothing once the loop is over; otherwise the
/// drop timer advances and the piece drops once per full interval, Hatter turns it, Slick
/// moves it, and a slide that was running counts the time and may end.
pub open spec fn tick_result(old: PieceLoop, new: PieceLoop, elapsed: u64, auto_spawn: bool, r: Seq<CoreEvent>) -> bool {
    if old.game_over_spec() {
        r.len() == 0 && new == old
    } else {
        exists|states: Seq<PieceLoop>, evs: Seq<Seq<CoreEvent>>, s2: PieceLoop, s3: PieceLoop, r2: Seq<CoreEvent>, r3: Seq<CoreEvent>, r4: Seq<CoreEvent>|
            #[trigger] tick_stages(old, new, elapsed, auto_spawn, r, states, evs, s2, s3, r2, r3, r4)
    }
}

/// Locking the falling piece stays within machine integers: the line-clear funds of the
/// locked board fit an `i32` (and so does 70 times them under Mondale), and paying them and
/// counting the cleared rows keeps funds in `i32` and lines in `u32`.
pub open spec fn lock_fits(g: PieceLoop) -> bool {
    match g.active_spec() {
        None => true,
        Some(p) => {
            let locked = lock_board(g.board_view(), p);
            let raw = clear_funds(locked);
            let mondale = g.effect_active(WeaponToken::Mondale);
            &&& i32::MIN <= raw <= i32::MAX
            &&& (mondale ==> i32::MIN <= raw * 70 <= i32::MAX)
            &&& i32::MIN <= g.score_spec().funds_of() + paid_funds(raw, mondale) <= i32::MAX
            &&& g.score_spec().lines_of() + full_rows_from(locked, 0) <= u32::MAX
        }
    }
}

/// `b` keeps the board, score and effects of `a`, and its falling piece, if any, carries
/// the cell of `a`'s falling piece.
pub open spec fn core_kept(a: PieceLoop, b: PieceLoop) -> bool {
    &&& b.board_view() == a.board_view()
    &&& b.score_spec() == a.score_spec()
    &&& b.effects() == a.effects()
    &&& (b.active_spec() matches Some(q) ==> a.active_spec() matches Some(p) && q.cell_spec() == p.cell_spec())
}

proof fn lemma_drops_keep_core(g: PieceLoop, states: Seq<PieceLoop>, evs: Seq<Seq<CoreEvent>>, interval: u64, i: int)
    requires
        states.len() == evs.len() + 1,
        core_kept(g, states[0]),
        forall|k: int| 0 <= k < evs.len() ==> #[trigger] drop_step_at(states, evs, interval, k),
        0 <= i < states.len(),
    ensures
        core_kept(g, states[i]),
    decreases i,
{
    if i > 0 {
        lemma_drops_keep_core(g, states, evs, interval, i - 1);
        assert(drop_step_at(states, evs, interval, i - 1));
    }
}

/// A loop far from the machine limits can take any tick: every lock it may reach fits.
proof fn lemma_tick_locks_fit(g: PieceLoop, elapsed: u64)
    requires
        g.wf(),
        g.economy_ok(),
    ensures
        tick_locks_fit(g, elapsed),
{
    assert forall|states: Seq<PieceLoop>, evs: Seq<Seq<CoreEvent>>, s2: PieceLoop, s3: PieceLoop, r2: Seq<CoreEvent>, r3: Seq<CoreEvent>|
        #[trigger] tick_prefix(g, elapsed, states, evs, s2, s3, r2, r3) && slide_locks(g, s3, elapsed) implies lock_fits(s3) by {
        let interval = drop_interval(
            g.fast_drop_spec().0,
            g.effect_active(WeaponToken::Speedy),
            g.effect_active(WeaponToken::Meadow),
        );
        lemma_drops_keep_core(g, states, evs, interval, states.len() - 1);
        let s1 = states.last();
        assert(core_kept(g, s2));
        if s2.effect_active(WeaponToken::Slick) && !s2.move_fits(s2.slick_spec() as int, 0) {
            let middle = choose|middle: PieceLoop| #[trigger] slick_turn(s2, middle, s3, r3);
            assert(core_kept(g, middle));
        }
        assert(core_kept(g, s3));
        match s3.active_spec() {
            None => {},
            Some(q) => {
                lemma_locked_values_bounded(g.board_view(), q);
                let locked = lock_board(g.board_view(), q);
                lemma_clear_funds_bounded(locked);
                let raw = clear_funds(locked);
                assert(-8_000_000 <= trunc_div(raw * 70, 100) <= 8_000_000) by (nonlinear_arith)
                    requires
                        -8_000_000 <= raw <= 8_000_000,
                        trunc_div(raw * 70, 100) == if raw * 70 >= 0 { (raw * 70) / 100 } else { -((-(raw * 70)) / 100) },
                ;
            },
        }
    }
}

/// The funds a lock pays stay within the line-clear bound, and at most 28 lines clear.
proof fn lemma_lock_bounds(old: PieceLoop, new: PieceLoop, auto_spawn: bool, r: Seq<CoreEvent>)
    requires
        old.wf(),
        old.economy_ok(),
        !old.game_over_spec(),
        PieceLoop::lock_result(old, new, auto_spawn, r),
    ensures
        tick_frame(old, new),
        core_events_bounded(r),
{
    match old.active_spec() {
        None => {},
        Some(p) => {
            lemma_locked_values_bounded(old.board_view(), p);
            let locked = lock_board(old.board_view(), p);
            lemma_clear_funds_bounded(locked);
            let raw = clear_funds(locked);
            assert(-8_000_000 <= trunc_div(raw * 70, 100) <= 8_000_000) by (nonlinear_arith)
                requires
                    -8_000_000 <= raw <= 8_000_000,
                    trunc_div(raw * 70, 100) == if raw * 70 >= 0 { (raw * 70) / 100 } else { -((-(raw * 70)) / 100) },
            ;
            let mode = clear_mode(old.effect_active(WeaponToken::Force));
            let funds = paid_funds(raw, old.effect_active(WeaponToken::Mondale));
            let head = lock_events(
                p.kind_spec(),
                full_rows_from(locked, 0) as u32,
                funds as i32,
                missed_happy_from(locked, 0) as u32,
            );
            assert(core_events_bounded(head));
            assert forall|i: int| 0 <= i < r.len() implies (#[trigger] r[i] matches CoreEvent::LinesCleared { funds, .. }
                ==> -8_000_000 <= funds <= 8_000_000) by {
                if i < head.len() {
                    assert(r[i] == r.subrange(0, head.len() as int)[i]);
                }
            }
        },
    }
}

impl PieceLoop {
    fn expire_slide(&mut self, auto_spawn_after_lock: bool) -> (r: Vec<CoreEvent>)
        requires
            old(self).wf(),
            !old(self).move_fits(0, gravity(*old(self))) ==> lock_fits(*old(self)),
            !old(self).game_over_spec(),
            auto_spawn_after_lock ==> old(self).can_spawn(),
        ensures
            final(self).wf(),
            old(self).economy_ok() ==> tick_frame(*old(self), *final(self)) && core_events_bounded(r@),
            !auto_spawn_after_lock ==> final(self).generator_spec() == old(self).generator_spec()
                && final(self).game_over_spec() == old(self).game_over_spec(),
            expire_slide_result(*old(self), *final(self), auto_spawn_after_lock, r@),
    {
        self.slide_elapsed_ms = None;
        assert(*self == old(self).with_slide(None));
        let ghost cleared = *self;
        let dy = self.gravity_step();
        let fits = match &self.active {
            Some(piece) => {
                let (x, y) = piece.anchor();
                let fallout = self.fallout_active();
                if isize::MIN + 16 <= y + dy && y + dy <= isize::MAX - 16 {
                    piece.can_move_to_with_fallout(&self.board, x, y + dy, fallout)
                } else {
                    false
                }
            },
            None => false,
        };
        assert(dy as int == gravity(cleared));
        if fits {
            return self.move_active(0, dy);
        }
        assert(!cleared.move_fits(0, gravity(cleared)));
        let ghost before = *self;
        let r = self.lock_active(auto_spawn_after_lock);
        proof {
            if old(self).economy_ok() {
                lemma_lock_bounds(before, *self, auto_spawn_after_lock, r@);
            }
        }
        r
    }

    #[verifier::rlimit(60)]
    fn tick_with_spawn_mode(&mut self, elapsed_ms: u64, auto_spawn_after_lock: bool) -> (r: Vec<CoreEvent>)
        requires
            old(self).wf(),
            tick_locks_fit(*old(self), elapsed_ms),
            auto_spawn_after_lock ==> old(self).can_spawn(),
            old(self).drop_elapsed() + elapsed_ms <= u64::MAX,
            old(self).slide_elapsed() matches Some(t) ==> t + elapsed_ms <= u64::MAX,
        ensures
            final(self).wf(),
            old(self).game_over_spec() ==> r@.len() == 0 && *final(self) == *old(self),
            old(self).economy_ok() ==> tick_frame(*old(self), *final(self)) && core_events_bounded(r@),
            !auto_spawn_after_lock ==> final(self).generator_spec() == old(self).generator_spec()
                && final(self).game_over_spec() == old(self).game_over_spec(),
            tick_result(*old(self), *final(self), elapsed_ms, auto_spawn_after_lock, r@),
    {
        if self.game_over {
            return Vec::new();
        }
        let ghost start = *self;
        let mut events: Vec<CoreEvent> = Vec::new();
        let slide_was_active = self.slide_elapsed_ms.is_some();
        let mut interval: u64 = if self.fast_drop {
            self.timing.fast_drop_ms
        } else {
            self.timing.drop_ms
        };
        if self.active_effects.is_active(WeaponToken::Speedy) {
            interval = if interval / 2 == 0 { 1 } else { interval / 2 };
        }
        if self.active_effects.is_active(WeaponToken::Meadow) {
            interval = interval * 2;
        }
        assert(interval == drop_interval(
            start.fast_drop_spec().0,
            start.effect_active(WeaponToken::Speedy),
            start.effect_active(WeaponToken::Meadow),
        ));
        self.drop_elapsed_ms = self.drop_elapsed_ms + elapsed_ms;
        let ghost s0 = *self;
        assert(s0 == start.with_drop((start.drop_elapsed() + elapsed_ms) as u64));
        let ghost mut states: Seq<PieceLoop> = seq![s0];
        let ghost mut evs: Seq<Seq<CoreEvent>> = Seq::empty();
        assert(events@ == concat_events(evs));
        while self.drop_elapsed_ms >= interval && !self.game_over && !self.pending_spawn
            invariant
                self.wf(),
                interval >= 1,
                !self.game_over,
                same_core(start, *self) || (self.drop_elapsed() != start.drop_elapsed() && self.board_view() == start.board_view()
                    && self.generator_spec() == start.generator_spec() && self.score_spec() == start.score_spec()
                    && self.arsenal_spec() == start.arsenal_spec() && self.effects() == start.effects()
                    && self.fast_drop_spec() == start.fast_drop_spec() && self.game_over_spec() == start.game_over_spec()
                    && self.pending_spec() == start.pending_spec()),
                self.slide_elapsed() matches Some(t) ==> t + elapsed_ms <= u64::MAX,
                core_events_bounded(events@),
                states.len() == evs.len() + 1,
                states[0] == s0,
                states.last() == *self,
                forall|i: int| 0 <= i < evs.len() ==> #[trigger] drop_step_at(states, evs, interval, i),
                events@ == concat_events(evs),
            decreases self.drop_elapsed_ms,
        {
            let ghost before = *self;
            self.drop_elapsed_ms = self.drop_elapsed_ms - interval;
            assert(*self == before.with_drop((before.drop_elapsed() - interval) as u64));
            let mut step = self.drop_or_start_slide();
            let ghost prev_events = events@;
            proof {
                lemma_bounded_append(events@, step@);
                let evs2 = evs.push(step@);
                assert(evs2.drop_last() =~= evs);
                let states2 = states.push(*self);
                assert forall|i: int| 0 <= i < evs2.len() implies #[trigger] drop_step_at(states2, evs2, interval, i) by {
                    if i < evs.len() {
                        assert(drop_step_at(states, evs, interval, i));
                        assert(evs2[i] == evs[i]);
                        assert(states2[i] == states[i]);
                        assert(states2[i + 1] == states[i + 1]);
                    } else {
                        assert(states2[i] == before);
                        assert(states2[i + 1] == *self);
                        assert(evs2[i] == step@);
                    }
                }
                states = states2;
                evs = evs2;
            }
            events.append(&mut step);
            assert(events@ == concat_events(evs));
        }
        let ghost s1 = *self;
        assert(drops_by(s0, states, evs, interval));
        let ghost mut r2: Seq<CoreEvent> = Seq::empty();
        let ghost e1 = events@;
        if self.active_effects.is_active(WeaponToken::Hatter) {
            let mut step = self.rotate_active(false);
            proof {
                lemma_bounded_append(events@, step@);
                r2 = step@;
            }
            events.append(&mut step);
        }
        assert(events@ == e1 + r2);
        let ghost s2 = *self;
        let ghost mut r3: Seq<CoreEvent> = Seq::empty();
        let ghost e2 = events@;
        if self.active_effects.is_active(WeaponToken::Slick) {
            let mut step = self.slick_step();
            proof {
                lemma_bounded_append(events@, step@);
                r3 = step@;
            }
            events.append(&mut step);
        }
        assert(events@ == e2 + r3);
        let ghost s3 = *self;
        let ghost mut r4: Seq<CoreEvent> = Seq::empty();
        let ghost e3 = events@;
        if slide_was_active {
            match self.slide_elapsed_ms {
                Some(slide_elapsed) => {
                    let total = slide_elapsed + elapsed_ms;
                    self.slide_elapsed_ms = Some(total);
                    assert(*self == s3.with_slide(Some(total)));
                    let slide_ms = if self.active_effects.is_active(WeaponToken::NoSlide) {
                        0
                    } else {
                        self.timing.slide_ms
                    };
                    if total >= slide_ms {
                        proof {
                            assert(tick_prefix(*old(self), elapsed_ms, states, evs, s2, s3, r2, r3));
                            if !self.move_fits(0, gravity(*self)) {
                                assert(slide_locks(*old(self), s3, elapsed_ms));
                            }
                        }
                        let mut step = self.expire_slide(auto_spawn_after_lock);
                        proof {
                            if old(self).economy_ok() {
                                lemma_bounded_append(events@, step@);
                            }
                            r4 = step@;
                        }
                        events.append(&mut step);
                    }
                },
                None => {},
            }
        }
        assert(events@ == e3 + r4);
        proof {
            assert(tick_stages(*old(self), *self, elapsed_ms, auto_spawn_after_lock, events@, states, evs, s2, s3, r2, r3, r4));
        }
        events
    }

    /// Advances time by a deterministic number of milliseconds.
    pub fn tick(&mut self, elapsed_ms: u64) -> (r: Vec<CoreEvent>)
        requires
            old(self).wf(),
            tick_locks_fit(*old(self), elapsed_ms),
            old(self).can_spawn(),
            old(self).drop_elapsed() + elapsed_ms <= u64::MAX,
            old(self).slide_elapsed() matches Some(t) ==> t + elapsed_ms <= u64::MAX,
        ensures
            final(self).wf(),
            old(self).game_over_spec() ==> r@.len() == 0 && *final(self) == *old(self),
            old(self).economy_ok() ==> tick_frame(*old(self), *final(self)) && core_events_bounded(r@),
            tick_result(*old(self), *final(self), elapsed_ms, true, r@),
    {
        self.tick_with_spawn_mode(elapsed_ms, true)
    }

    fn tick_deferred_spawn(&mut self, elapsed_ms: u64) -> (r: Vec<CoreEvent>)
        requires
            old(self).wf(),
            tick_locks_fit(*old(self), elapsed_ms),
            old(self).drop_elapsed() + elapsed_ms <= u64::MAX,
            old(self).slide_elapsed() matches Some(t) ==> t + elapsed_ms <= u64::MAX,
        ensures
            final(self).wf(),
            old(self).game_over_spec() ==> r@.len() == 0 && *final(self) == *old(self),
            old(self).economy_ok() ==> tick_frame(*old(self), *final(self)) && core_events_bounded(r@),
            final(self).generator_spec() == old(self).generator_spec(),
            final(self).game_over_spec() == old(self).game_over_spec(),
            tick_result(*old(self), *final(self), elapsed_ms, false, r@),
    {
        self.tick_with_spawn_mode(elapsed_ms, false)
    }
}


/// What one command does to a loop: nothing once the loop is over; otherwise the move,
/// rotation or fast-drop change it asks for, reported in `r`, with funds, lines, arsenal,
/// effects and generator untouched.
pub open spec fn command_result(old: PieceLoop, new: PieceLoop, command: Command, r: Seq<CoreEvent>) -> bool {
    &&& old.game_over_spec() ==> r.len() == 0 && new == old
    &&& !old.game_over_spec() ==> match command {
        Command::MoveLeft => move_result(old, new, if old.effect_active(WeaponToken::Upbyside) { 1 } else { -1 }, 0, r),
        Command::MoveRight => move_result(old, new, if old.effect_active(WeaponToken::Upbyside) { -1 } else { 1 }, 0, r),
        Command::RotateClockwise => rotate_result(old, new, false, r),
        Command::RotateCounterClockwise => rotate_result(old, new, true, r),
        Command::StartFastDrop => {
            &&& new.fast_drop_spec().0
            &&& new.board_view() == old.board_view()
            &&& new.score_spec().funds_of() == old.score_spec().funds_of()
            &&& if old.fast_drop_spec().1 || old.active_spec() is None {
                r.len() == 0 && new.score_spec() == old.score_spec()
            } else {
                let y = old.active_spec().unwrap().anchor_y();
                let delta: int = if 28 - y > 0 { 28 - y } else { 0 };
                &&& r == seq![CoreEvent::FastDropStarted { score_delta: delta as i32 }]
                &&& new.score_spec().score_of() == old.score_spec().score_of() + delta
                &&& new.fast_drop_spec().1
            }
        },
        Command::StopFastDrop => {
            &&& r.len() == 0
            &&& new.fast_drop_spec() == (false, false)
            &&& new.board_view() == old.board_view()
            &&& new.active_spec() == old.active_spec()
            &&& new.score_spec() == old.score_spec()
        },
    }
    &&& new.game_over_spec() == old.game_over_spec()
    &&& new.effects() == old.effects()
    &&& new.arsenal_spec() == old.arsenal_spec()
    &&& new.generator_spec() == old.generator_spec()
    &&& new.score_spec().funds_of() == old.score_spec().funds_of()
    &&& new.score_spec().lines_of() == old.score_spec().lines_of()
    &&& old.score_spec().score_of() <= new.score_spec().score_of() <= old.score_spec().score_of() + 35
}

impl PieceLoop {
    /// Creates a loop with an empty board and immediately spawns the first piece.
    #[must_use]
    pub fn new(seed: GameSeed) -> (r: (Self, Vec<CoreEvent>))
        ensures
            r.0.wf(),
            r.1@.len() == 1,
            forall|i: int| 0 <= i < 280 ==> #[trigger] r.0.board_view()[i] is None,
            started(r.0, r.1@[0]),
    {
        Self::with_board(seed, Board::empty())
    }

    /// Creates a loop with an explicit board and immediately spawns the first piece.
    #[must_use]
    pub fn with_board(seed: GameSeed, board: Board) -> (r: (Self, Vec<CoreEvent>))
        requires
            board.wf(),
        ensures
            r.0.wf(),
            r.1@.len() == 1,
            r.0.board_view() == board@,
            started(r.0, r.1@[0]),
    {
        let mut game = Self {
            board,
            generator: PieceGenerator::new(seed),
            weapon_rng: seed.stream(RngStream::WeaponEffects),
            active: None,
            timing: TimingConfig::default(),
            drop_elapsed_ms: 0,
            slide_elapsed_ms: None,
            fast_drop: false,
            fast_drop_scored: false,
            score: PlayerScore::default(),
            arsenal: Arsenal::new(),
            active_effects: ActiveEffects::new(),
            game_over: false,
            pending_spawn: false,
            slick_direction: 1,
        };
        proof {
            assert(prefix_weight(game.generator.weights(), 18) > 0) by {
                reveal_with_fuel(prefix_weight, 19);
            }
        }
        let events = game.spawn_next_piece();
        (game, events)
    }

    /// Returns the board.
    #[must_use]
    pub fn board(&self) -> (r: &Board)
        requires
            self.wf(),
        ensures
            r@ == self.board_view(),
            r.wf(),
    {
        &self.board
    }

    /// Returns the active falling piece, if any.
    #[must_use]
    pub fn active_piece(&self) -> (r: Option<&Piece>)
        ensures
            match self.active_spec() {
                None => r is None,
                Some(p) => r matches Some(q) && *q == p,
            },
    {
        self.active.as_ref()
    }

    /// Returns the next generated piece kind without advancing this loop.
    #[must_use]
    pub fn next_piece_kind_preview(&self) -> (r: PieceKind)
        requires
            self.wf(),
            self.can_spawn(),
        ensures
            exists|g: PieceGenerator| next_kind_outcome(self.generator_spec(), g, r),
            exists|after: ChaCha12Rng| #[trigger] kind_drawn(self.generator_spec(), after, r),
    {
        let mut generator = self.generator.copy();
        let ghost before = generator;
        let piece = generator.next_piece();
        proof {
            assert(next_kind_outcome(before, generator, piece.kind_spec()));
            assert(next_kind_outcome(self.generator_spec(), generator, piece.kind_spec()));
            assert(kind_drawn(before, generator.piece_stream(), piece.kind_spec()));
            assert(kind_drawn(self.generator_spec(), generator.piece_stream(), piece.kind_spec()));
        }
        piece.kind()
    }

    /// Returns the current score.
    #[must_use]
    pub fn score(&self) -> (r: i32)
        ensures
            r == self.score_spec().score_of(),
    {
        self.score.score()
    }

    /// Returns the current funds.
    #[must_use]
    pub fn funds(&self) -> (r: i32)
        ensures
            r == self.score_spec().funds_of(),
    {
        self.score.funds()
    }

    /// Returns the player's arsenal.
    #[must_use]
    pub fn arsenal(&self) -> (r: &Arsenal)
        ensures
            *r == self.arsenal_spec(),
    {
        &self.arsenal
    }

    /// Returns the active timed weapon state for this player.
    #[must_use]
    pub fn active_effects(&self) -> (r: &ActiveEffects)
        ensures
            r@ == self.effects(),
    {
        &self.active_effects
    }

    /// Returns total lines cleared.
    #[must_use]
    pub fn lines(&self) -> (r: u32)
        ensures
            r == self.score_spec().lines_of(),
    {
        self.score.lines()
    }

    /// Returns whether spawn failure has ended this loop.
    #[must_use]
    pub fn is_game_over(&self) -> (r: bool)
        ensures
            r == self.game_over_spec(),
    {
        self.game_over
    }

    /// Returns mutable access to the piece generator for deterministic scenarios.
    pub fn generator_mut(&mut self) -> (r: &mut PieceGenerator)
        ensures
            *r == old(self).generator_spec(),
            final(self).generator_spec() == *final(r),
            final(self).board_view() == old(self).board_view(),
            final(self).active_spec() == old(self).active_spec(),
            final(self).score_spec() == old(self).score_spec(),
            final(self).arsenal_spec() == old(self).arsenal_spec(),
            final(self).effects() == old(self).effects(),
            final(self).game_over_spec() == old(self).game_over_spec(),
            final(self).pending_spec() == old(self).pending_spec(),
            old(self).wf() && final(r).wf() ==> final(self).wf(),
    {
        &mut self.generator
    }

    fn set_board(&mut self, board: Board)
        requires
            old(self).wf(),
            board.wf(),
        ensures
            final(self).wf(),
            final(self).board_view() == board@,
            final(self).score_spec() == old(self).score_spec(),
            final(self).arsenal_spec() == old(self).arsenal_spec(),
            final(self).effects() == old(self).effects(),
            final(self).game_over_spec() == old(self).game_over_spec(),
    {
        self.board = board;
    }

    fn set_funds(&mut self, funds: i32)
        requires
            old(self).wf(),
        ensures
            final(self).wf(),
            old(self).same_but_score(*final(self)),
            final(self).score_spec().funds_of() == funds,
            final(self).score_spec().score_of() == old(self).score_spec().score_of(),
            final(self).score_spec().lines_of() == old(self).score_spec().lines_of(),
            final(self).board_view() == old(self).board_view(),
            final(self).arsenal_spec() == old(self).arsenal_spec(),
            final(self).effects() == old(self).effects(),
            final(self).game_over_spec() == old(self).game_over_spec(),
    {
        self.score.set_funds(funds);
    }

    fn add_funds(&mut self, funds: i32)
        requires
            old(self).wf(),
            i32::MIN <= old(self).score_spec().funds_of() + funds <= i32::MAX,
        ensures
            final(self).wf(),
            old(self).same_but_score(*final(self)),
            final(self).score_spec().funds_of() == old(self).score_spec().funds_of() + funds,
            final(self).score_spec().score_of() == old(self).score_spec().score_of(),
            final(self).score_spec().lines_of() == old(self).score_spec().lines_of(),
            final(self).board_view() == old(self).board_view(),
            final(self).arsenal_spec() == old(self).arsenal_spec(),
            final(self).effects() == old(self).effects(),
            final(self).game_over_spec() == old(self).game_over_spec(),
    {
        self.score.add_funds(funds);
    }

    /// Applies one command and returns emitted events.
    pub fn command(&mut self, command: Command) -> (r: Vec<CoreEvent>)
        requires
            old(self).wf(),
            command == Command::StartFastDrop ==> fast_drop_fits(*old(self)),
        ensures
            final(self).wf(),
            core_events_bounded(r@),
            command_result(*old(self), *final(self), command, r@),
    {
        if self.game_over {
            return Vec::new();
        }
        match command {
            Command::MoveLeft => {
                let dx = self.horizontal_step(-1);
                self.move_active(dx, 0)
            },
            Command::MoveRight => {
                let dx = self.horizontal_step(1);
                self.move_active(dx, 0)
            },
            Command::RotateClockwise => self.rotate_active(false),
            Command::RotateCounterClockwise => self.rotate_active(true),
            Command::StartFastDrop => self.start_fast_drop(),
            Command::StopFastDrop => {
                self.fast_drop = false;
                self.fast_drop_scored = false;
                Vec::new()
            },
        }
    }

    fn spawn_deferred_piece(&mut self) -> (r: Vec<CoreEvent>)
        requires
            old(self).wf(),
            old(self).pending_spec() && !old(self).game_over_spec() ==> old(self).can_spawn(),
        ensures
            final(self).wf(),
            core_events_bounded(r@),
            !old(self).pending_spec() || old(self).game_over_spec() ==> r@.len() == 0 && *final(self) == *old(self),
            old(self).pending_spec() && !old(self).game_over_spec() ==> {
                &&& r@.len() == 1
                &&& !final(self).pending_spec()
                &&& spawn_result(
                    old(self).board_view(),
                    old(self).effect_active(WeaponToken::Upbyside),
                    old(self).generator_spec(),
                    *final(self),
                    r@[0],
                )
            },
            final(self).board_view() == old(self).board_view(),
            final(self).score_spec() == old(self).score_spec(),
            final(self).arsenal_spec() == old(self).arsenal_spec(),
            final(self).effects() == old(self).effects(),
            old(self).game_over_spec() ==> final(self).game_over_spec(),
    {
        if !self.pending_spawn || self.game_over {
            return Vec::new();
        }
        self.pending_spawn = false;
        self.spawn_next_piece()
    }
}

/// A freshly started loop: zero score, empty arsenal, no effects, and the first spawn's outcome.
pub open spec fn started(game: PieceLoop, e: CoreEvent) -> bool {
    &&& game.score_spec().score_of() == 0
    &&& game.score_spec().funds_of() == 0
    &&& game.score_spec().lines_of() == 0
    &&& forall|i: int| 0 <= i < 10 ==> #[trigger] game.arsenal_spec()@[i] is None
    &&& forall|i: int| 0 <= i < 34 ==> #[trigger] game.effects()[i] == 0
    &&& !game.pending_spec()
    &&& game.drop_elapsed() == 0
    &&& game.slide_elapsed() is None
    &&& game.fast_drop_spec() == (false, false)
    &&& spawn_event_kind(e) is Some
    &&& (e is SpawnFailed <==> game.game_over_spec())
    &&& game.generator_spec().weights() == crate::piece_generator::legacy_weights()
}


/// The remaining lines of a timed weapon after one more activation stacks on `current`.
pub open spec fn extended_lines(current: u32, token: WeaponToken) -> u32 {
    if current + crate::weapons::line_duration(token) > u32::MAX {
        u32::MAX
    } else {
        (current + crate::weapons::line_duration(token)) as u32
    }
}

/// What activating a timed weapon does to a loop.
pub open spec fn activation(old: PieceLoop, new: PieceLoop, token: WeaponToken) -> bool {
    &&& new.effects() == old.effects().update(token_id(token), extended_lines(old.effects()[token_id(token)], token))
    &&& new.score_spec() == old.score_spec()
    &&& new.arsenal_spec() == old.arsenal_spec()
    &&& new.game_over_spec() == old.game_over_spec()
    &&& new.pending_spec() == old.pending_spec()
    &&& new.active_spec() == old.active_spec()
    &&& new.generator_spec().queued() == old.generator_spec().queued()
    &&& safe_weights_kept(old.generator_spec(), new.generator_spec())
    &&& (token != WeaponToken::Bottle && token != WeaponToken::FallOut && token != WeaponToken::Upbyside
        ==> new.board_view() == old.board_view())
    &&& (token == WeaponToken::Bottle ==> forall|x: int, y: int| in_board(x, y) ==> #[trigger] at(new.board_view(), x, y)
        == if crate::board::in_bottle_neck(x, y) { Some(Cell::Structure) } else { at(old.board_view(), x, y) })
    &&& (token == WeaponToken::FallOut ==> forall|x: int, y: int| in_board(x, y) ==> #[trigger] at(new.board_view(), x, y)
        == if 2 <= x <= 7 { None } else { at(old.board_view(), x, y) })
    &&& (token == WeaponToken::Upbyside ==> forall|x: int, y: int| in_board(x, y) ==> #[trigger] at(new.board_view(), x, y)
        == at(old.board_view(), x, 27 - y))
}


impl PieceLoop {
    fn activate_timed_effect(&mut self, token: WeaponToken) -> (r: u32)
        requires
            old(self).wf(),
        ensures
            final(self).wf(),
            r == extended_lines(old(self).effects()[token_id(token)], token),
            activation(*old(self), *final(self), token),
    {
        proof {
            PieceGenerator::lemma_weights_len(self.generator);
        }
        let remaining = self.active_effects.activate(token);
        match token {
            WeaponToken::FearedWeird => self.generator.probabilities_mut().set_weird_pieces_enabled(true),
            WeaponToken::FourByFour => self.generator.probabilities_mut().set_four_by_four_enabled(true),
            WeaponToken::SoLong => self.generator.probabilities_mut().set_long_pieces_enabled(false),
            WeaponToken::NoDice => self.generator.probabilities_mut().set_dice_enabled(false),
            WeaponToken::Broken => self.generator.set_broken_record_enabled(true),
            WeaponToken::Bottle => self.board.add_bottle_neck(),
            WeaponToken::FallOut => self.board.clear_fallout_hole(),
            WeaponToken::Upbyside => self.board.flip_on_horizontal_axis(),
            _ => {},
        }
        remaining
    }

    fn expire_timed_effect(&mut self, token: WeaponToken)
        requires
            old(self).wf(),
        ensures
            final(self).wf(),
            final(self).effects() == old(self).effects(),
            final(self).score_spec() == old(self).score_spec(),
            final(self).arsenal_spec() == old(self).arsenal_spec(),
            final(self).game_over_spec() == old(self).game_over_spec(),
            final(self).pending_spec() == old(self).pending_spec(),
            final(self).active_spec() == old(self).active_spec(),
            final(self).generator_spec().queued() == old(self).generator_spec().queued(),
            safe_weights_kept(old(self).generator_spec(), final(self).generator_spec()),
            token != WeaponToken::Bottle && token != WeaponToken::Upbyside ==> final(self).board_view() == old(self).board_view(),
            token == WeaponToken::Upbyside ==> forall|x: int, y: int| in_board(x, y) ==> #[trigger] at(final(self).board_view(), x, y)
                == at(old(self).board_view(), x, 27 - y),
    {
        proof {
            PieceGenerator::lemma_weights_len(self.generator);
        }
        match token {
            WeaponToken::FearedWeird => self.generator.probabilities_mut().set_weird_pieces_enabled(false),
            WeaponToken::FourByFour => self.generator.probabilities_mut().set_four_by_four_enabled(false),
            WeaponToken::SoLong => self.generator.probabilities_mut().set_long_pieces_enabled(true),
            WeaponToken::NoDice => self.generator.probabilities_mut().set_dice_enabled(true),
            WeaponToken::Broken => self.generator.set_broken_record_enabled(false),
            WeaponToken::Bottle => self.board.remove_bottle_neck(),
            WeaponToken::Upbyside => self.board.flip_on_horizontal_axis(),
            _ => {},
        }
    }

    fn observe_effect_line_clear(&mut self, lines: u32) -> (r: Vec<WeaponToken>)
        requires
            old(self).wf(),
        ensures
            final(self).wf(),
            forall|i: int| 0 <= i < 34 ==> #[trigger] final(self).effects()[i] == crate::weapons::sat_sub(old(self).effects()[i], lines),
            r@ == if lines == 0 { Seq::<WeaponToken>::empty() } else { crate::weapons::expired_prefix(old(self).effects(), lines, 34) },
            safe_weights_kept(old(self).generator_spec(), final(self).generator_spec()),
            final(self).score_spec() == old(self).score_spec(),
            final(self).arsenal_spec() == old(self).arsenal_spec(),
            final(self).game_over_spec() == old(self).game_over_spec(),
            final(self).pending_spec() == old(self).pending_spec(),
            final(self).active_spec() == old(self).active_spec(),
            final(self).generator_spec().queued() == old(self).generator_spec().queued(),
    {
        let expired = self.active_effects.observe_line_clear(lines);
        let mut i: usize = 0;
        while i < expired.len()
            invariant
                i <= expired@.len(),
                self.wf(),
                forall|k: int| 0 <= k < 34 ==> #[trigger] self.effects()[k] == crate::weapons::sat_sub(old(self).effects()[k], lines),
                self.score_spec() == old(self).score_spec(),
                self.arsenal_spec() == old(self).arsenal_spec(),
                self.game_over_spec() == old(self).game_over_spec(),
                self.pending_spec() == old(self).pending_spec(),
                self.active_spec() == old(self).active_spec(),
                self.generator_spec().queued() == old(self).generator_spec().queued(),
                safe_weights_kept(old(self).generator_spec(), self.generator_spec()),
            decreases expired@.len() - i,
        {
            self.expire_timed_effect(expired[i]);
            i = i + 1;
        }
        expired
    }
}


/// Session-level state for the two-player headless game.
#[derive(Debug, Clone, Copy, PartialEq, Eq, Structural)]
pub enum GamePhase {
    /// Both piece loops are accepting commands and ticks.
    Playing,
    /// Time is stopped until resumed.
    Paused,
    /// Bazaar is open; both players must leave before play resumes.
    Bazaar,
    /// One player has died and the match is complete.
    GameOver,
}

/// Whether a BattleTris Game result is eligible for ranked persistence.
#[derive(Debug, Clone, Copy, PartialEq, Eq)]
pub enum GameMode {
    /// Both players are human-controlled; ranked adapters may submit the result.
    HumanVsHuman,
    /// One player is a deterministic computer opponent; legacy mode is unranked.
    HumanVsComputer {
        /// Computer-controlled player slot.
        computer: PlayerId,
        /// Computer opponent difficulty row.
        difficulty: ComputerDifficulty,
    },
}

impl GameMode {
    /// Returns whether this game mode may write ranked results.
    #[must_use]
    pub fn is_ranked(self) -> (r: bool)
        ensures
            r == (self is HumanVsHuman),
    {
        match self {
            GameMode::HumanVsHuman => true,
            _ => false,
        }
    }
}

/// Deterministic event boundary consumed by renderers, audio, networking, replays, and tests.
#[derive(Debug, PartialEq, Eq)]
pub enum BattleEvent {
    /// A new two-player match started.
    GameStarted,
    /// The match was paused.
    Paused,
    /// A paused match resumed.
    Resumed,
    /// A player entered or changed their single-board piece loop.
    PlayerEvent {
        /// Player that owns the event.
        player: PlayerId,
        /// Single-board event.
        event: CoreEvent,
    },
    /// The shared bazaar threshold was reached.
    BazaarEntered,
    /// A player committed and is waiting for the other player to finish bazaar.
    BazaarPlayerDone {
        /// Player that finished shopping.
        player: PlayerId,
    },
    /// Both players finished bazaar and play resumed.
    BazaarLeft,
    /// A spawn failure killed one player and ended the game.
    PlayerDied {
        /// Player that died.
        player: PlayerId,
    },
    /// Final game-over result.
    GameOver {
        /// Winning player.
        winner: PlayerId,
        /// Losing player.
        loser: PlayerId,
    },
    /// A player consumed an arsenal slot to launch a weapon.
    WeaponLaunched {
        /// Launching player.
        launcher: PlayerId,
        /// Target player.
        target: PlayerId,
        /// Weapon token.
        token: WeaponToken,
    },
    /// A zero-duration weapon effect was applied immediately.
    OneShotWeaponApplied {
        /// Launching player.
        launcher: PlayerId,
        /// Target player.
        target: PlayerId,
        /// Weapon token.
        token: WeaponToken,
    },
    /// A line-duration weapon became active on a player.
    TimedWeaponActivated {
        /// Launching player.
        launcher: PlayerId,
        /// Affected player.
        target: PlayerId,
        /// Weapon token.
        token: WeaponToken,
        /// Remaining target-player lines after stacking.
        remaining_lines: u32,
    },
    /// A line-duration weapon expired after target-player line clears.
    TimedWeaponExpired {
        /// Affected player.
        player: PlayerId,
        /// Weapon token.
        token: WeaponToken,
    },
    /// A launched weapon was queued for the target's post-placement flush.
    IncomingWeaponQueued {
        /// Original launching player.
        launcher: PlayerId,
        /// Player whose incoming FIFO received the launch.
        target: PlayerId,
        /// Weapon token.
        token: WeaponToken,
    },
    /// Mirror reflected a launch back onto the launching player.
    WeaponReflected {
        /// Player whose active Mirror reflected the launch.
        player: PlayerId,
        /// Weapon token.
        token: WeaponToken,
    },
    /// Mirror consumed and nullified a launch without applying it.
    WeaponNullified {
        /// Player whose active Mirror nullified the launch.
        player: PlayerId,
        /// Weapon token.
        token: WeaponToken,
    },
    /// A recon/spy panel received a deterministic target snapshot.
    ReconUpdated {
        /// Player viewing the recon panel.
        viewer: PlayerId,
        /// Player whose board/funds were sampled.
        target: PlayerId,
        /// Sampled recon data.
        snapshot: ReconSnapshot,
    },
    /// A spy/recon panel was shut down after its line duration expired.
    ReconDisabled {
        /// Player whose recon panel closed.
        viewer: PlayerId,
        /// Player who had been observed.
        target: PlayerId,
        /// Expired spy weapon token.
        token: WeaponToken,
    },
}

/// Two events are the same, the cells of a recon snapshot compared by value.
pub open spec fn same_event(a: BattleEvent, b: BattleEvent) -> bool {
    match (a, b) {
        (BattleEvent::ReconUpdated { viewer: v1, target: t1, snapshot: s1 }, BattleEvent::ReconUpdated {
            viewer: v2,
            target: t2,
            snapshot: s2,
        }) => v1 == v2 && t1 == t2 && s1.level == s2.level && s1.funds == s2.funds && s1.board.width == s2.board.width
            && s1.board.height == s2.board.height && s1.board.cells@ == s2.board.cells@,
        _ => a == b,
    }
}

impl Clone for BattleEvent {
    fn clone(&self) -> (r: Self)
        ensures
            same_event(r, *self),
    {
        match self {
            BattleEvent::GameStarted => BattleEvent::GameStarted,
            BattleEvent::Paused => BattleEvent::Paused,
            BattleEvent::Resumed => BattleEvent::Resumed,
            BattleEvent::PlayerEvent { player, event } => BattleEvent::PlayerEvent { player: *player, event: *event },
            BattleEvent::BazaarEntered => BattleEvent::BazaarEntered,
            BattleEvent::BazaarPlayerDone { player } => BattleEvent::BazaarPlayerDone { player: *player },
            BattleEvent::BazaarLeft => BattleEvent::BazaarLeft,
            BattleEvent::PlayerDied { player } => BattleEvent::PlayerDied { player: *player },
            BattleEvent::GameOver { winner, loser } => BattleEvent::GameOver { winner: *winner, loser: *loser },
            BattleEvent::WeaponLaunched { launcher, target, token } => BattleEvent::WeaponLaunched {
                launcher: *launcher,
                target: *target,
                token: *token,
            },
            BattleEvent::OneShotWeaponApplied { launcher, target, token } => BattleEvent::OneShotWeaponApplied {
                launcher: *launcher,
                target: *target,
                token: *token,
            },
            BattleEvent::TimedWeaponActivated { launcher, target, token, remaining_lines } =>
                BattleEvent::TimedWeaponActivated {
                launcher: *launcher,
                target: *target,
                token: *token,
                remaining_lines: *remaining_lines,
            },
            BattleEvent::TimedWeaponExpired { player, token } => BattleEvent::TimedWeaponExpired {
                player: *player,
                token: *token,
            },
            BattleEvent::IncomingWeaponQueued { launcher, target, token } => BattleEvent::IncomingWeaponQueued {
                launcher: *launcher,
                target: *target,
                token: *token,
            },
            BattleEvent::WeaponReflected { player, token } => BattleEvent::WeaponReflected { player: *player, token: *token },
            BattleEvent::WeaponNullified { player, token } => BattleEvent::WeaponNullified { player: *player, token: *token },
            BattleEvent::ReconUpdated { viewer, target, snapshot } => BattleEvent::ReconUpdated {
                viewer: *viewer,
                target: *target,
                snapshot: ReconSnapshot {
                    level: snapshot.level,
                    board: crate::board::BoardSnapshot {
                        width: snapshot.board.width,
                        height: snapshot.board.height,
                        cells: snapshot.board.cells.clone(),
                    },
                    funds: snapshot.funds,
                },
            },
            BattleEvent::ReconDisabled { viewer, target, token } => BattleEvent::ReconDisabled {
                viewer: *viewer,
                target: *target,
                token: *token,
            },
        }
    }
}

#[derive(Debug, Clone, Copy, PartialEq, Eq, Structural)]
struct QueuedWeapon {
    launcher: PlayerId,
    token: WeaponToken,
}

/// One entry in the deterministic session event log.
#[derive(Debug, PartialEq, Eq)]
pub struct LoggedEvent {
    /// Zero-based event index in emission order.
    pub sequence: u64,
    /// Session event payload.
    pub event: BattleEvent,
}

impl Clone for LoggedEvent {
    fn clone(&self) -> (r: Self)
        ensures
            r.sequence == self.sequence,
            same_event(r.event, self.event),
    {
        LoggedEvent { sequence: self.sequence, event: self.event.clone() }
    }
}

/// A line clear event pays funds within the line-clear bound.
pub open spec fn event_funds_bounded(e: BattleEvent) -> bool {
    match e {
        BattleEvent::PlayerEvent { event: CoreEvent::LinesCleared { funds, .. }, .. } => -8_000_000 <= funds <= 8_000_000,
        _ => true,
    }
}

/// Every logged line clear pays funds within the line-clear bound.
pub open spec fn log_bounded(log: Seq<LoggedEvent>) -> bool {
    forall|i: int| 0 <= i < log.len() ==> event_funds_bounded(#[trigger] log[i].event)
}

/// A queued weapon can later act on `target`: it is supported and its launcher fits the weapon.
spec fn queued_ok(q: QueuedWeapon, target: PlayerId) -> bool {
    supported_launch(q.token) && pair_ok(q.launcher, target, q.token)
}

/// The player slot's index.
pub open spec fn player_index_spec(player: PlayerId) -> int {
    match player {
        PlayerId::One => 0,
        PlayerId::Two => 1,
    }
}

/// Headless two-player BattleTris session.
#[derive(Debug)]
pub struct TwoPlayerGame {
    player_one: PieceLoop,
    player_two: PieceLoop,
    phase: GamePhase,
    before_pause: Option<GamePhase>,
    bazaar: BazaarTracker,
    done_one: bool,
    done_two: bool,
    session_one: Option<Bazaar>,
    session_two: Option<Bazaar>,
    incoming_one: VecDeque<QueuedWeapon>,
    incoming_two: VecDeque<QueuedWeapon>,
    cached_one: i32,
    cached_two: i32,
    mode: GameMode,
    log: Vec<LoggedEvent>,
}

impl TwoPlayerGame {
    /// One player's loop.
    pub closed spec fn player_spec(&self, player: PlayerId) -> PieceLoop {
        match player {
            PlayerId::One => self.player_one,
            PlayerId::Two => self.player_two,
        }
    }

    /// The session phase.
    pub closed spec fn phase_spec(&self) -> GamePhase {
        self.phase
    }

    /// The phase to return to after a pause.
    pub closed spec fn before_pause_spec(&self) -> Option<GamePhase> {
        self.before_pause
    }

    /// The event log.
    pub closed spec fn log_spec(&self) -> Seq<LoggedEvent> {
        self.log@
    }

    /// The control and ranking mode.
    pub closed spec fn mode_spec(&self) -> GameMode {
        self.mode
    }

    /// Whether a player clicked Done in the open bazaar.
    pub closed spec fn done_spec(&self, player: PlayerId) -> bool {
        match player {
            PlayerId::One => self.done_one,
            PlayerId::Two => self.done_two,
        }
    }

    /// A player's open bazaar session.
    pub closed spec fn session_spec(&self, player: PlayerId) -> Option<Bazaar> {
        match player {
            PlayerId::One => self.session_one,
            PlayerId::Two => self.session_two,
        }
    }

    /// The opponent funds a player last saw through recon.
    pub closed spec fn cached_spec(&self, player: PlayerId) -> i32 {
        match player {
            PlayerId::One => self.cached_one,
            PlayerId::Two => self.cached_two,
        }
    }

    /// Weapons waiting for a player's next placement, oldest first.
    pub closed spec fn incoming_spec(&self, player: PlayerId) -> Seq<(PlayerId, WeaponToken)> {
        match player {
            PlayerId::One => self.incoming_one@.map_values(|q: QueuedWeapon| (q.launcher, q.token)),
            PlayerId::Two => self.incoming_two@.map_values(|q: QueuedWeapon| (q.launcher, q.token)),
        }
    }

    /// Both loops are well formed, log entries carry their own index, and open sessions are well formed.
    pub closed spec fn wf(&self) -> bool {
        &&& self.player_one.wf()
        &&& self.player_two.wf()
        &&& forall|i: int| 0 <= i < self.log@.len() ==> (#[trigger] self.log@[i]).sequence == i as u64
        &&& (self.session_one matches Some(b) ==> b.wf())
        &&& (self.session_two matches Some(b) ==> b.wf())
        &&& log_bounded(self.log@)
        &&& forall|i: int| 0 <= i < self.incoming_one@.len() ==> queued_ok(#[trigger] self.incoming_one@[i], PlayerId::One)
        &&& forall|i: int| 0 <= i < self.incoming_two@.len() ==> queued_ok(#[trigger] self.incoming_two@[i], PlayerId::Two)
    }

    /// Every logged event carries its position in the log as its sequence number.
    pub proof fn lemma_log_sequences(g: TwoPlayerGame)
        requires
            g.wf(),
        ensures
            forall|i: int| 0 <= i < g.log_spec().len() ==> (#[trigger] g.log_spec()[i]).sequence == i as u64,
    {
        assert forall|i: int| 0 <= i < g.log_spec().len() implies (#[trigger] g.log_spec()[i]).sequence == i as u64 by {
            assert(g.log@[i].sequence == i as u64);
        }
    }

    /// Funds, score, lines and board values of both players, and the opponent funds seen
    /// through recon, are far from the machine limits; both generators can always draw and
    /// at most eight weapons wait for either player.
    pub open spec fn economy_ok(&self) -> bool {
        &&& self.player_spec(PlayerId::One).economy_ok()
        &&& self.player_spec(PlayerId::Two).economy_ok()
        &&& spawn_safe(self.player_spec(PlayerId::One).generator_spec())
        &&& spawn_safe(self.player_spec(PlayerId::Two).generator_spec())
        &&& -0x100_0000 <= self.player_spec(PlayerId::One).score_spec().funds_of() <= 0x100_0000
        &&& -0x100_0000 <= self.player_spec(PlayerId::Two).score_spec().funds_of() <= 0x100_0000
        &&& -0x200_0000 <= self.cached_spec(PlayerId::One) <= 0x200_0000
        &&& -0x200_0000 <= self.cached_spec(PlayerId::Two) <= 0x200_0000
        &&& self.incoming_spec(PlayerId::One).len() <= 8
        &&& self.incoming_spec(PlayerId::Two).len() <= 8
    }

    fn record(&mut self, event: BattleEvent)
        requires
            old(self).wf(),
            event_funds_bounded(event),
        ensures
            final(self).wf(),
            final(self).log@ == old(self).log@.push(LoggedEvent { sequence: old(self).log@.len() as u64, event }),
            final(self).player_one == old(self).player_one,
            final(self).player_two == old(self).player_two,
            final(self).phase == old(self).phase,
            final(self).before_pause == old(self).before_pause,
            final(self).bazaar == old(self).bazaar,
            final(self).done_one == old(self).done_one,
            final(self).done_two == old(self).done_two,
            final(self).session_one == old(self).session_one,
            final(self).session_two == old(self).session_two,
            final(self).incoming_one@ == old(self).incoming_one@,
            final(self).incoming_two@ == old(self).incoming_two@,
            final(self).cached_one == old(self).cached_one,
            final(self).cached_two == old(self).cached_two,
            final(self).mode == old(self).mode,
    {
        let sequence = self.log.len() as u64;
        self.log.push(LoggedEvent { sequence, event });
    }
}


/// Log entries appended after `start`, cloned.
fn log_suffix(log: &Vec<LoggedEvent>, start: usize) -> (r: Vec<LoggedEvent>)
    requires
        start <= log@.len(),
    ensures
        r@.len() == log@.len() - start,
        forall|i: int|
            0 <= i < r@.len() ==> (#[trigger] r@[i]).sequence == log@[start + i].sequence && same_event(
                r@[i].event,
                log@[start + i].event,
            ),
{
    let mut r: Vec<LoggedEvent> = Vec::new();
    let mut i: usize = start;
    while i < log.len()
        invariant
            start <= i <= log@.len(),
            r@.len() == i - start,
            forall|k: int|
                0 <= k < r@.len() ==> (#[trigger] r@[k]).sequence == log@[start + k].sequence && same_event(
                    r@[k].event,
                    log@[start + k].event,
                ),
        decreases log@.len() - i,
    {
        r.push(log[i].clone());
        i = i + 1;
    }
    r
}

/// The events a call returns: clones of the log entries it appended, in order.
pub open spec fn appended(old_log: Seq<LoggedEvent>, new_log: Seq<LoggedEvent>, r: Seq<LoggedEvent>) -> bool {
    &&& new_log.len() >= old_log.len()
    &&& new_log.subrange(0, old_log.len() as int) == old_log
    &&& r.len() == new_log.len() - old_log.len()
    &&& forall|i: int|
        0 <= i < r.len() ==> (#[trigger] r[i]).sequence == new_log[old_log.len() + i].sequence && same_event(
            r[i].event,
            new_log[old_log.len() + i].event,
        )
}

impl TwoPlayerGame {
    fn record_one(&mut self, event: BattleEvent) -> (r: Vec<LoggedEvent>)
        requires
            old(self).wf(),
            event_funds_bounded(event),
        ensures
            final(self).wf(),
            final(self).log@ == old(self).log@.push(LoggedEvent { sequence: old(self).log@.len() as u64, event }),
            appended(old(self).log@, final(self).log@, r@),
            final(self).player_one == old(self).player_one,
            final(self).player_two == old(self).player_two,
            final(self).phase == old(self).phase,
            final(self).before_pause == old(self).before_pause,
            final(self).bazaar == old(self).bazaar,
            final(self).done_one == old(self).done_one,
            final(self).done_two == old(self).done_two,
            final(self).session_one == old(self).session_one,
            final(self).session_two == old(self).session_two,
            final(self).incoming_one@ == old(self).incoming_one@,
            final(self).incoming_two@ == old(self).incoming_two@,
            final(self).cached_one == old(self).cached_one,
            final(self).cached_two == old(self).cached_two,
            final(self).mode == old(self).mode,
    {
        let start = self.log.len();
        self.record(event);
        let r = log_suffix(&self.log, start);
        assert(self.log@.subrange(0, start as int) =~= old(self).log@);
        r
    }

    fn finish_game(&mut self, loser: PlayerId)
        requires
            old(self).wf(),
        ensures
            final(self).wf(),
            final(self).phase == GamePhase::GameOver,
            game_finished(*old(self), *final(self), loser),
            old(self).phase == GamePhase::GameOver ==> final(self).log@ == old(self).log@,
            old(self).phase != GamePhase::GameOver ==> final(self).log@ == old(self).log@.push(
                LoggedEvent { sequence: old(self).log@.len() as u64, event: BattleEvent::PlayerDied { player: loser } },
            ).push(
                LoggedEvent {
                    sequence: (old(self).log@.len() + 1) as u64,
                    event: BattleEvent::GameOver { winner: opponent_of(loser), loser },
                },
            ),
            final(self).player_one == old(self).player_one,
            final(self).player_two == old(self).player_two,
            final(self).before_pause == old(self).before_pause,
            final(self).bazaar == old(self).bazaar,
            final(self).done_one == old(self).done_one,
            final(self).done_two == old(self).done_two,
            final(self).session_one == old(self).session_one,
            final(self).session_two == old(self).session_two,
            final(self).incoming_one@ == old(self).incoming_one@,
            final(self).incoming_two@ == old(self).incoming_two@,
            final(self).cached_one == old(self).cached_one,
            final(self).cached_two == old(self).cached_two,
            final(self).mode == old(self).mode,
    {
        if self.phase == GamePhase::GameOver {
            return;
        }
        let winner = loser.opponent();
        self.phase = GamePhase::GameOver;
        self.record(BattleEvent::PlayerDied { player: loser });
        self.record(BattleEvent::GameOver { winner, loser });
    }

    fn detect_startup_deaths(&mut self)
        requires
            old(self).wf(),
        ensures
            final(self).wf(),
            old(self).player_one.game_over_spec() && !old(self).player_two.game_over_spec() ==> final(self).phase
                == GamePhase::GameOver,
            !old(self).player_one.game_over_spec() && old(self).player_two.game_over_spec() ==> final(self).phase
                == GamePhase::GameOver,
            old(self).player_one.game_over_spec() == old(self).player_two.game_over_spec() ==> *final(self) == *old(self),
            final(self).player_one == old(self).player_one,
            final(self).player_two == old(self).player_two,
            final(self).mode == old(self).mode,
            final(self).log@.len() >= old(self).log@.len(),
            forall|i: int| 0 <= i < old(self).log@.len() ==> #[trigger] final(self).log@[i] == old(self).log@[i],
    {
        let one = self.player_one.is_game_over();
        let two = self.player_two.is_game_over();
        if one && !two {
            self.finish_game(PlayerId::One);
        } else if !one && two {
            self.finish_game(PlayerId::Two);
        }
    }

    fn record_player_events(&mut self, player: PlayerId, events: Vec<CoreEvent>)
        requires
            old(self).wf(),
            core_events_bounded(events@),
        ensures
            final(self).wf(),
            final(self).log@.len() == old(self).log@.len() + events@.len(),
            final(self).log@.subrange(0, old(self).log@.len() as int) == old(self).log@,
            forall|i: int|
                0 <= i < events@.len() ==> (#[trigger] final(self).log@[old(self).log@.len() + i]).event
                    == (BattleEvent::PlayerEvent { player, event: events@[i] }),
            final(self).player_one == old(self).player_one,
            final(self).player_two == old(self).player_two,
            final(self).phase == old(self).phase,
            final(self).mode == old(self).mode,
            final(self).cached_one == old(self).cached_one,
            final(self).cached_two == old(self).cached_two,
            old(self).same_settings_but_log(*final(self)),
    {
        let mut i: usize = 0;
        while i < events.len()
            invariant
                i <= events@.len(),
                self.wf(),
                core_events_bounded(events@),
                self.log@.len() == old(self).log@.len() + i,
                self.log@.subrange(0, old(self).log@.len() as int) == old(self).log@,
                forall|k: int|
                    0 <= k < i ==> (#[trigger] self.log@[old(self).log@.len() + k]).event
                        == (BattleEvent::PlayerEvent { player, event: events@[k] }),
                self.player_one == old(self).player_one,
                self.player_two == old(self).player_two,
                self.phase == old(self).phase,
                self.mode == old(self).mode,
                self.cached_one == old(self).cached_one,
                self.cached_two == old(self).cached_two,
                old(self).same_settings_but_log(*self),
            decreases events@.len() - i,
        {
            let event = events[i];
            self.record(BattleEvent::PlayerEvent { player, event });
            i = i + 1;
        }
    }
}


impl TwoPlayerGame {
    /// Starts a two-player game with empty boards.
    #[must_use]
    pub fn new(player_one_seed: GameSeed, player_two_seed: GameSeed) -> (r: Self)
        ensures
            r.wf(),
            r.mode_spec() == GameMode::HumanVsHuman,
            r.log_spec().len() >= 1 && r.log_spec()[0].event == BattleEvent::GameStarted,
            r.phase_spec() == GamePhase::Playing || r.phase_spec() == GamePhase::GameOver,
    {
        Self::with_boards(player_one_seed, Board::empty(), player_two_seed, Board::empty())
    }

    /// Starts a two-player game with explicit boards for scripted simulations.
    #[must_use]
    pub fn with_boards(player_one_seed: GameSeed, player_one_board: Board, player_two_seed: GameSeed, player_two_board: Board) -> (r: Self)
        requires
            player_one_board.wf(),
            player_two_board.wf(),
        ensures
            r.wf(),
            r.mode_spec() == GameMode::HumanVsHuman,
            r.log_spec().len() >= 1 && r.log_spec()[0].event == BattleEvent::GameStarted,
            r.phase_spec() == GamePhase::Playing || r.phase_spec() == GamePhase::GameOver,
            r.player_spec(PlayerId::One).board_view() == player_one_board@,
            r.player_spec(PlayerId::Two).board_view() == player_two_board@,
    {
        Self::with_boards_and_mode(player_one_seed, player_one_board, player_two_seed, player_two_board, GameMode::HumanVsHuman)
    }

    /// Starts an unranked human-vs-computer game with explicit boards.
    #[must_use]
    pub fn human_vs_computer(
        human_seed: GameSeed,
        human_board: Board,
        computer_seed: GameSeed,
        computer_board: Board,
        computer: PlayerId,
        difficulty: ComputerDifficulty,
    ) -> (r: Self)
        requires
            human_board.wf(),
            computer_board.wf(),
        ensures
            r.wf(),
            r.mode_spec() == (GameMode::HumanVsComputer { computer, difficulty }),
            r.log_spec().len() >= 1 && r.log_spec()[0].event == BattleEvent::GameStarted,
            r.phase_spec() == GamePhase::Playing || r.phase_spec() == GamePhase::GameOver,
            r.player_spec(computer).board_view() == computer_board@,
            r.player_spec(opponent_of(computer)).board_view() == human_board@,
    {
        match computer {
            PlayerId::One => Self::with_boards_and_mode(
                computer_seed,
                computer_board,
                human_seed,
                human_board,
                GameMode::HumanVsComputer { computer, difficulty },
            ),
            PlayerId::Two => Self::with_boards_and_mode(
                human_seed,
                human_board,
                computer_seed,
                computer_board,
                GameMode::HumanVsComputer { computer, difficulty },
            ),
        }
    }

    fn with_boards_and_mode(
        player_one_seed: GameSeed,
        player_one_board: Board,
        player_two_seed: GameSeed,
        player_two_board: Board,
        mode: GameMode,
    ) -> (r: Self)
        requires
            player_one_board.wf(),
            player_two_board.wf(),
        ensures
            r.wf(),
            r.mode_spec() == mode,
            r.log_spec().len() >= 1 && r.log_spec()[0].event == BattleEvent::GameStarted,
            r.phase_spec() == GamePhase::Playing || r.phase_spec() == GamePhase::GameOver,
            r.phase_spec() == GamePhase::GameOver <==> r.player_spec(PlayerId::One).game_over_spec()
                != r.player_spec(PlayerId::Two).game_over_spec(),
            r.player_spec(PlayerId::One).board_view() == player_one_board@,
            r.player_spec(PlayerId::Two).board_view() == player_two_board@,
    {
        let (player_one, player_one_events) = PieceLoop::with_board(player_one_seed, player_one_board);
        let (player_two, player_two_events) = PieceLoop::with_board(player_two_seed, player_two_board);
        let mut game = Self {
            player_one,
            player_two,
            phase: GamePhase::Playing,
            before_pause: None,
            bazaar: BazaarTracker::new(),
            done_one: false,
            done_two: false,
            session_one: None,
            session_two: None,
            incoming_one: VecDeque::new(),
            incoming_two: VecDeque::new(),
            cached_one: 0,
            cached_two: 0,
            mode,
            log: Vec::new(),
        };
        game.record(BattleEvent::GameStarted);
        let ghost l1 = game.log@;
        assert(l1[0].event == BattleEvent::GameStarted);
        game.record_player_events(PlayerId::One, player_one_events);
        let ghost l2 = game.log@;
        assert(l2.subrange(0, l1.len() as int)[0] == l2[0]);
        game.record_player_events(PlayerId::Two, player_two_events);
        assert(game.log@.subrange(0, l2.len() as int)[0] == game.log@[0]);
        assert(game.log@[0].event == BattleEvent::GameStarted);
        game.detect_startup_deaths();
        game
    }

    /// Returns the control/ranking mode for this BattleTris Game.
    #[must_use]
    pub fn mode(&self) -> (r: GameMode)
        ensures
            r == self.mode_spec(),
    {
        self.mode
    }

    /// Returns whether adapters may submit this result to ranked persistence.
    #[must_use]
    pub fn is_ranked_game(&self) -> (r: bool)
        ensures
            r == (self.mode_spec() is HumanVsHuman),
    {
        self.mode.is_ranked()
    }

    /// Returns the current session phase.
    #[must_use]
    pub fn phase(&self) -> (r: GamePhase)
        ensures
            r == self.phase_spec(),
    {
        self.phase
    }

    /// Returns the complete deterministic event log.
    #[must_use]
    pub fn event_log(&self) -> (r: &[LoggedEvent])
        ensures
            r@ == self.log_spec(),
    {
        self.log.as_slice()
    }

    /// Returns one player's board loop.
    #[must_use]
    pub fn player(&self, player: PlayerId) -> (r: &PieceLoop)
        ensures
            *r == self.player_spec(player),
    {
        match player {
            PlayerId::One => &self.player_one,
            PlayerId::Two => &self.player_two,
        }
    }

    /// Pauses playing or bazaar state. Repeated pauses are ignored.
    pub fn pause(&mut self) -> (r: Vec<LoggedEvent>)
        requires
            old(self).wf(),
        ensures
            final(self).wf(),
            old(self).phase_spec() == GamePhase::Paused || old(self).phase_spec() == GamePhase::GameOver ==> r@.len() == 0
                && *final(self) == *old(self),
            !(old(self).phase_spec() == GamePhase::Paused || old(self).phase_spec() == GamePhase::GameOver) ==> {
                &&& final(self).phase_spec() == GamePhase::Paused
                &&& final(self).before_pause_spec() == Some(old(self).phase_spec())
                &&& final(self).log_spec() == old(self).log_spec().push(
                    LoggedEvent { sequence: old(self).log_spec().len() as u64, event: BattleEvent::Paused },
                )
                &&& appended(old(self).log_spec(), final(self).log_spec(), r@)
                &&& final(self).player_spec(PlayerId::One) == old(self).player_spec(PlayerId::One)
                &&& final(self).player_spec(PlayerId::Two) == old(self).player_spec(PlayerId::Two)
            },
    {
        if self.phase == GamePhase::Paused || self.phase == GamePhase::GameOver {
            return Vec::new();
        }
        self.before_pause = Some(self.phase);
        self.phase = GamePhase::Paused;
        self.record_one(BattleEvent::Paused)
    }

    /// Resumes the phase that was active before pause.
    pub fn resume(&mut self) -> (r: Vec<LoggedEvent>)
        requires
            old(self).wf(),
        ensures
            final(self).wf(),
            old(self).phase_spec() != GamePhase::Paused ==> r@.len() == 0 && *final(self) == *old(self),
            old(self).phase_spec() == GamePhase::Paused ==> {
                &&& final(self).phase_spec() == match old(self).before_pause_spec() {
                    Some(p) => p,
                    None => GamePhase::Playing,
                }
                &&& final(self).before_pause_spec() is None
                &&& final(self).log_spec() == old(self).log_spec().push(
                    LoggedEvent { sequence: old(self).log_spec().len() as u64, event: BattleEvent::Resumed },
                )
                &&& appended(old(self).log_spec(), final(self).log_spec(), r@)
                &&& final(self).player_spec(PlayerId::One) == old(self).player_spec(PlayerId::One)
                &&& final(self).player_spec(PlayerId::Two) == old(self).player_spec(PlayerId::Two)
            },
    {
        if self.phase != GamePhase::Paused {
            return Vec::new();
        }
        self.phase = match self.before_pause.take() {
            Some(p) => p,
            None => GamePhase::Playing,
        };
        self.record_one(BattleEvent::Resumed)
    }
}


/// Whether a token is one of the zero-duration weapons.
pub open spec fn one_shot(token: WeaponToken) -> bool {
    token is Swap || token is RiseUp || token is FlipOut || token is Missing || token is PieceIt || token is Blind
        || token is Keating || token is Reagan || token is NiceDay || token is Bug || token is Susan || token is Twilight
        || token is Gimp
}

/// The one-shot weapons that act on the target alone.
pub open spec fn target_only(token: WeaponToken) -> bool {
    token is RiseUp || token is FlipOut || token is Missing || token is PieceIt || token is Blind || token is Reagan
        || token is NiceDay || token is Bug || token is Twilight || token is Gimp
}

/// The board after adding `cell` at a random empty middle position: unchanged when there is
/// none, otherwise one empty middle position filled.
pub open spec fn middle_cell_added(before: Seq<Option<Cell>>, after: Seq<Option<Cell>>, cell: Cell) -> bool {
    if crate::board::middle_empty_coords(before).len() == 0 {
        after == before
    } else {
        exists|c: (usize, usize)|
            crate::board::middle_empty_coords(before).contains(c) && after == before.update(
                crate::board::cell_index(c.0 as int, c.1 as int),
                Some(cell),
            )
    }
}

/// The bottom row is a garbage line: visible cells with at most one empty column.
pub open spec fn garbage_row(n: Seq<Option<Cell>>) -> bool {
    &&& forall|x: int| 0 <= x < 10 ==> (#[trigger] at(n, x, 27) is None || at(n, x, 27) matches Some(Cell::Visible { .. }))
    &&& forall|x1: int, x2: int| 0 <= x1 < x2 < 10 && #[trigger] at(n, x1, 27) is None ==> !(#[trigger] at(n, x2, 27) is None)
}

/// The color of the default visible cell.
pub open spec fn visible_color_one() -> crate::cell::VisibleColor {
    choose|c: crate::cell::VisibleColor| c@ == 1
}

/// What a target-only one-shot weapon does to the target's loop.
pub open spec fn target_effect(old: PieceLoop, new: PieceLoop, token: WeaponToken) -> bool {
    let b = old.board_view();
    let n = new.board_view();
    &&& new.arsenal_spec() == old.arsenal_spec()
    &&& new.effects() == old.effects()
    &&& new.active_spec() == old.active_spec()
    &&& new.game_over_spec() == old.game_over_spec()
    &&& new.pending_spec() == old.pending_spec()
    &&& new.score_spec().score_of() == old.score_spec().score_of()
    &&& new.score_spec().lines_of() == old.score_spec().lines_of()
    &&& safe_weights_kept(old.generator_spec(), new.generator_spec())
    &&& new.score_spec().funds_of() == if token is Reagan { -old.score_spec().funds_of() } else { old.score_spec().funds_of() as int }
    &&& new.generator_spec().queued() == if token is NiceDay {
        if old.generator_spec().queued() + 1 > u32::MAX { u32::MAX as int } else { old.generator_spec().queued() + 1 }
    } else {
        old.generator_spec().queued()
    }
    &&& new.weapon_stream() == weapon_draws(b, old.weapon_stream(), token)
    &&& (token !is NiceDay ==> new.generator_spec() == old.generator_spec())
    &&& match token {
        WeaponToken::RiseUp => {
            &&& forall|x: int, y: int| 0 <= x < 10 && 0 <= y < 27 ==> #[trigger] at(n, x, y) == at(b, x, y + 1)
            &&& garbage_row(n)
            &&& forall|x: int| 0 <= x < 10 ==> (#[trigger] at(n, x, 27) is None <==> x == chacha_next(old.weapon_stream()).0 % 10)
            &&& forall|x: int| 0 <= x < 10 && x != chacha_next(old.weapon_stream()).0 % 10 ==> (#[trigger] at(n, x, 27) matches Some(
                Cell::Visible { color },
            ) && color@ == 1)
        },
        WeaponToken::FlipOut => forall|x: int, y: int| in_board(x, y) ==> #[trigger] at(n, x, y) == at(b, 9 - x, y),
        WeaponToken::Missing => {
            let (d1, w1) = chacha_next(old.weapon_stream());
            &&& count_changed_at_most_one(b, n)
            &&& scan_removed(b, n, (d1 as usize) as int % 10, (chacha_next(w1).0 as usize) as int % 28)
        },
        WeaponToken::PieceIt => {
            &&& middle_cell_added(b, n, Cell::Visible { color: visible_color_one() })
            &&& n == crate::board::middle_cell_placed(b, Cell::Visible { color: visible_color_one() }, old.weapon_stream()).0
        },
        WeaponToken::Blind => {
            &&& forall|i: int| 0 <= i < 280 ==> #[trigger] n[i] == b[i] || (crate::board::slot_removable(b[i]) && n[i] is None)
            &&& n == crate::board::blind_scan(b, old.weapon_stream(), 280).0
        },
        WeaponToken::Bug => {
            &&& middle_cell_added(b, n, Cell::Invisible)
            &&& n == crate::board::middle_cell_placed(b, Cell::Invisible, old.weapon_stream()).0
        },
        WeaponToken::Twilight => forall|i: int| 0 <= i < 280 ==> #[trigger] n[i] == match b[i] {
            Some(c) => Some(Cell::Hidden { value: spec_value(c) as i32, removable: crate::cell::spec_removable(c) }),
            None => None,
        },
        WeaponToken::Gimp => forall|i: int| 0 <= i < 280 ==> #[trigger] n[i] == match b[i] {
            Some(c) => if crate::cell::spec_removable(c) { Some(Cell::Gimp { value: spec_value(c) as i32 }) } else { Some(c) },
            None => None,
        },
        _ => n == b,
    }
}

/// Whether a board holds a removable cell.
pub open spec fn has_removable(b: Seq<Option<Cell>>) -> bool {
    exists|i: int| 0 <= i < 280 && crate::board::slot_removable(#[trigger] b[i])
}

/// The weapon stream after a one-shot weapon on board `b`: Rise Up draws its hole, Missing
/// draws a column and a row, Piece It and Bug draw a middle cell when one is empty, Blind
/// draws once per removable cell; the others draw nothing.
pub open spec fn weapon_draws(b: Seq<Option<Cell>>, w: ChaCha12Rng, token: WeaponToken) -> ChaCha12Rng {
    match token {
        WeaponToken::RiseUp => chacha_next(w).1,
        WeaponToken::Missing => chacha_next(chacha_next(w).1).1,
        WeaponToken::PieceIt => crate::board::middle_cell_placed(b, Cell::Visible { color: visible_color_one() }, w).1,
        WeaponToken::Bug => crate::board::middle_cell_placed(b, Cell::Invisible, w).1,
        WeaponToken::Blind => crate::board::blind_scan(b, w, 280).1,
        _ => w,
    }
}

/// The removable cell found first by the wrapped row-major scan from `(sx, sy)` is removed;
/// with none, the board stays.
pub open spec fn scan_removed(b: Seq<Option<Cell>>, n: Seq<Option<Cell>>, sx: int, sy: int) -> bool {
    ||| exists|k: int| 0 <= k < 280 && {
        &&& crate::board::slot_removable(at(b, #[trigger] crate::board::scan_x(sx, k), crate::board::scan_y(sy, k)))
        &&& forall|k2: int| 0 <= k2 < k ==> !crate::board::slot_removable(
            #[trigger] at(b, crate::board::scan_x(sx, k2), crate::board::scan_y(sy, k2)))
        &&& n == b.update(crate::board::cell_index(crate::board::scan_x(sx, k), crate::board::scan_y(sy, k)), None)
    }
    ||| {
        &&& forall|k: int| 0 <= k < 280 ==> !crate::board::slot_removable(
            #[trigger] at(b, crate::board::scan_x(sx, k), crate::board::scan_y(sy, k)))
        &&& n == b
    }
}

/// The board differs from the old one in at most one position, where a removable cell was removed.
pub open spec fn count_changed_at_most_one(b: Seq<Option<Cell>>, n: Seq<Option<Cell>>) -> bool {
    n == b || exists|i: int| 0 <= i < 280 && crate::board::slot_removable(b[i]) && n == b.update(i, None)
}

impl PieceLoop {
    /// Pushes one garbage line with a random hole in from the bottom.
    fn rise_up(&mut self)
        requires
            old(self).wf(),
        ensures
            final(self).wf(),
            target_effect(*old(self), *final(self), WeaponToken::RiseUp),
    {
        let draw = crate::rng::chacha_next_u64(&mut self.weapon_rng);
        let hole = (draw % 10) as usize;
        self.board.insert_garbage_line(hole);
        proof {
            let h = hole as int;
            assert forall|x: int| 0 <= x < 10 implies (#[trigger] at(self.board@, x, 27) is None <==> x == h) by {
                if x != h {
                    assert(at(self.board@, x, 27) matches Some(Cell::Visible { .. }));
                }
            }
            assert(garbage_row(self.board@));
        }
    }

    /// Removes the first removable cell found from a random position on.
    fn remove_missing_cell(&mut self)
        requires
            old(self).wf(),
        ensures
            final(self).wf(),
            target_effect(*old(self), *final(self), WeaponToken::Missing),
            has_removable(old(self).board_view()) ==> exists|i: int|
                0 <= i < 280 && crate::board::slot_removable(#[trigger] old(self).board_view()[i])
                    && final(self).board_view() == old(self).board_view().update(i, None),
            !has_removable(old(self).board_view()) ==> final(self).board_view() == old(self).board_view(),
    {
        let x = crate::rng::chacha_next_u64(&mut self.weapon_rng) as usize;
        let y = crate::rng::chacha_next_u64(&mut self.weapon_rng) as usize;
        let ghost before = self.board@;
        let removed = self.board.remove_next_removable_from(x, y);
        proof {
            match removed {
                Some(c) => {
                    let i = crate::board::cell_index(c.x as int, c.y as int);
                    assert(0 <= i < 280);
                    assert(crate::board::slot_removable(before[i]));
                    assert(self.board@ == before.update(i, None));
                },
                None => {
                    if has_removable(before) {
                        let i = choose|i: int| 0 <= i < 280 && #[trigger] crate::board::slot_removable(before[i]);
                        let cx = i % 10;
                        let cy = i / 10;
                        crate::board::lemma_index_split(i);
                        let k = crate::board::lemma_scan_covers(x as int % 10, y as int % 28, cx, cy);
                        assert(!crate::board::slot_removable(at(before, crate::board::scan_x(x as int % 10, k), crate::board::scan_y(y as int % 28, k))));
                        assert(false);
                    }
                },
            }
        }
    }

    fn apply_target_effect(&mut self, token: WeaponToken)
        requires
            old(self).wf(),
            target_only(token),
            token is Reagan ==> old(self).score_spec().funds_of() > i32::MIN,
        ensures
            final(self).wf(),
            target_effect(*old(self), *final(self), token),
    {
        proof {
            PieceGenerator::lemma_weights_len(self.generator);
        }
        match token {
            WeaponToken::RiseUp => {
                self.rise_up();
            },
            WeaponToken::FlipOut => self.board.flip_on_vertical_axis(),
            WeaponToken::Missing => {
                self.remove_missing_cell();
            },
            WeaponToken::PieceIt => {
                let cell = Cell::visible();
                proof {
                    let color = cell->color;
                    assert(exists|c: crate::cell::VisibleColor| c@ == 1);
                    crate::cell::VisibleColor::lemma_view_injective(color, visible_color_one());
                }
                let _ = self.board.add_random_middle_cell(&mut self.weapon_rng, cell);
            },
            WeaponToken::Blind => {
                let _ = self.board.remove_random_half_removable(&mut self.weapon_rng);
            },
            WeaponToken::Reagan => {
                let funds = self.score.funds();
                self.score.set_funds(-funds);
            },
            WeaponToken::NiceDay => self.generator.queue_happy(1),
            WeaponToken::Bug => {
                let _ = self.board.add_random_middle_cell(&mut self.weapon_rng, Cell::Invisible);
            },
            WeaponToken::Twilight => {
                let _ = self.board.hide_existing_cells();
            },
            _ => {
                let _ = self.board.gimp_removable_cells();
            },
        }
    }
}


/// Whether a launch is supported: a one-shot or a timed weapon.
pub open spec fn supported_launch(token: WeaponToken) -> bool {
    one_shot(token) || token is FearedWeird || token is FourByFour || token is Hatter || token is Upbyside
        || token is FallOut || token is Lawyers || token is Speedy || token is Mondale || token is Carter
        || token is SoLong || token is NoDice || token is Bottle || token is NoSlide || token is Meadow
        || token is Slick || token is Broken || token is Force || token is Ames || token is Ace
        || token is Condor || token is Mirror
}

/// The one-shot weapons that need two distinct players.
pub open spec fn needs_two_players(token: WeaponToken) -> bool {
    token is Swap || token is Keating || token is NiceDay || token is Susan
}

/// The one-shot weapons that change the launcher's loop too.
pub open spec fn touches_launcher(token: WeaponToken) -> bool {
    token is Swap || token is Keating || token is Susan
}

/// A weapon can act from `launcher` on `target`: the two differ unless the weapon acts on one player.
pub open spec fn pair_ok(launcher: PlayerId, target: PlayerId, token: WeaponToken) -> bool {
    launcher != target || !needs_two_players(token)
}

/// The player a weapon's effect lands on: spy weapons and Lawyers act on the launcher.
pub open spec fn effect_target(launcher: PlayerId, target: PlayerId, token: WeaponToken) -> PlayerId {
    if token is Lawyers || token is Ames || token is Ace || token is Condor {
        launcher
    } else {
        target
    }
}

/// Whether a token is one of the zero-duration weapons.
fn is_phase_8_one_shot(token: WeaponToken) -> (r: bool)
    ensures
        r == one_shot(token),
{
    match token {
        WeaponToken::Swap | WeaponToken::RiseUp | WeaponToken::FlipOut | WeaponToken::Missing
        | WeaponToken::PieceIt | WeaponToken::Blind | WeaponToken::Keating | WeaponToken::Reagan
        | WeaponToken::NiceDay | WeaponToken::Bug | WeaponToken::Susan | WeaponToken::Twilight
        | WeaponToken::Gimp => true,
        _ => false,
    }
}

/// Whether a token can be launched.
fn is_supported_launch_weapon(token: WeaponToken) -> (r: bool)
    ensures
        r == supported_launch(token),
{
    is_phase_8_one_shot(token) || crate::weapons::is_timed_weapon(token)
        || crate::weapons::is_phase_10_timed_weapon(token)
}

/// The player a timed weapon's activation lands on.
fn timed_effect_target(launcher: PlayerId, target: PlayerId, token: WeaponToken) -> (r: PlayerId)
    ensures
        r == effect_target(launcher, target, token),
{
    match token {
        WeaponToken::Lawyers | WeaponToken::Ames | WeaponToken::Ace | WeaponToken::Condor => launcher,
        _ => target,
    }
}

/// What a one-shot weapon does to the launcher's and the target's loops; `cached` is the
/// opponent funds the launcher last saw.
pub open spec fn one_shot_effect(
    old_l: PieceLoop,
    old_t: PieceLoop,
    new_l: PieceLoop,
    new_t: PieceLoop,
    token: WeaponToken,
    cached: i32,
) -> bool {
    match token {
        WeaponToken::Keating => {
            &&& new_t.score_spec().funds_of() == 0
            &&& new_l.score_spec().funds_of() == old_l.score_spec().funds_of() + cached
            &&& new_t.score_spec().score_of() == old_t.score_spec().score_of()
            &&& new_t.score_spec().lines_of() == old_t.score_spec().lines_of()
            &&& new_l.score_spec().score_of() == old_l.score_spec().score_of()
            &&& new_l.score_spec().lines_of() == old_l.score_spec().lines_of()
            &&& old_t.same_but_score(new_t)
            &&& old_l.same_but_score(new_l)
        },
        WeaponToken::Swap => {
            &&& new_l.board_view() == old_t.board_view()
            &&& new_t.board_view() == old_l.board_view()
            &&& old_t.same_but_board(new_t)
            &&& old_l.same_but_board(new_l)
        },
        WeaponToken::Susan => {
            &&& new_l.arsenal_spec() == old_t.arsenal_spec()
            &&& new_t.arsenal_spec() == old_l.arsenal_spec()
            &&& old_t.same_but_arsenal(new_t)
            &&& old_l.same_but_arsenal(new_l)
        },
        _ => target_effect(old_t, new_t, token),
    }
}

impl TwoPlayerGame {
    /// Everything but the two loops is unchanged.
    pub closed spec fn same_session(&self, other: TwoPlayerGame) -> bool {
        &&& other.phase == self.phase
        &&& other.before_pause == self.before_pause
        &&& other.bazaar == self.bazaar
        &&& other.done_one == self.done_one
        &&& other.done_two == self.done_two
        &&& other.session_one == self.session_one
        &&& other.session_two == self.session_two
        &&& other.incoming_one@ == self.incoming_one@
        &&& other.incoming_two@ == self.incoming_two@
        &&& other.cached_one == self.cached_one
        &&& other.cached_two == self.cached_two
        &&& other.mode == self.mode
        &&& other.log@ == self.log@
    }

    fn apply_one_shot_weapon(&mut self, launcher_id: PlayerId, target_id: PlayerId, token: WeaponToken)
        requires
            old(self).wf(),
            one_shot(token),
            pair_ok(launcher_id, target_id, token),
            token is Reagan ==> old(self).player_spec(target_id).score_spec().funds_of() > i32::MIN,
            token is Keating ==> i32::MIN <= old(self).player_spec(launcher_id).score_spec().funds_of()
                + old(self).cached_spec(launcher_id) <= i32::MAX,
        ensures
            final(self).wf(),
            old(self).same_session(*final(self)),
            one_shot_effect(
                old(self).player_spec(launcher_id),
                old(self).player_spec(target_id),
                final(self).player_spec(launcher_id),
                final(self).player_spec(target_id),
                token,
                old(self).cached_spec(launcher_id),
            ),
            launcher_id != target_id && !touches_launcher(token) ==> final(self).player_spec(launcher_id)
                == old(self).player_spec(launcher_id),
            launcher_id == target_id ==> final(self).player_spec(opponent_of(target_id)) == old(self).player_spec(
                opponent_of(target_id),
            ),
    {
        match token {
            WeaponToken::Keating => {
                match launcher_id {
                    PlayerId::One => {
                        let transfer = self.cached_one;
                        self.player_two.set_funds(0);
                        self.player_one.add_funds(transfer);
                    },
                    PlayerId::Two => {
                        let transfer = self.cached_two;
                        self.player_one.set_funds(0);
                        self.player_two.add_funds(transfer);
                    },
                }
            },
            WeaponToken::Swap => {
                std::mem::swap(&mut self.player_one.board, &mut self.player_two.board);
            },
            WeaponToken::Susan => {
                let first = self.player_one.arsenal;
                self.player_one.arsenal = self.player_two.arsenal;
                self.player_two.arsenal = first;
            },
            _ => {
                match target_id {
                    PlayerId::One => self.player_one.apply_target_effect(token),
                    PlayerId::Two => self.player_two.apply_target_effect(token),
                }
            },
        }
    }
}


impl TwoPlayerGame {
    /// Everything but the two loops and the log is unchanged.
    pub closed spec fn same_settings(&self, other: TwoPlayerGame) -> bool {
        &&& other.phase == self.phase
        &&& other.before_pause == self.before_pause
        &&& other.bazaar == self.bazaar
        &&& other.done_one == self.done_one
        &&& other.done_two == self.done_two
        &&& other.session_one == self.session_one
        &&& other.session_two == self.session_two
        &&& other.incoming_one@ == self.incoming_one@
        &&& other.incoming_two@ == self.incoming_two@
        &&& other.cached_one == self.cached_one
        &&& other.cached_two == self.cached_two
        &&& other.mode == self.mode
    }

    /// The funds a weapon may move stay inside `i32`.
    pub open spec fn weapon_funds_ok(&self, launcher: PlayerId, target: PlayerId, token: WeaponToken) -> bool {
        &&& token is Reagan ==> self.player_spec(target).score_spec().funds_of() > i32::MIN
        &&& token is Keating ==> i32::MIN <= self.player_spec(launcher).score_spec().funds_of()
            + self.cached_spec(launcher) <= i32::MAX
    }
}

/// The launches that Mirror swallows instead of reflecting.
pub open spec fn nullified_by_mirror(token: WeaponToken) -> bool {
    token is Swap || token is Mondale || token is Keating || token is Ames || token is Ace || token is Condor
        || token is NiceDay || token is Susan || token is Mirror
}

/// The log entry that follows `log`.
pub open spec fn next_entry(log: Seq<LoggedEvent>, event: BattleEvent) -> LoggedEvent {
    LoggedEvent { sequence: log.len() as u64, event }
}

/// `new` is `old` after a supported weapon from `launcher` aimed at `target` took effect, with its
/// event appended to `base_log`.
pub open spec fn weapon_applied(
    old: TwoPlayerGame,
    new: TwoPlayerGame,
    base_log: Seq<LoggedEvent>,
    launcher: PlayerId,
    target: PlayerId,
    token: WeaponToken,
) -> bool {
    &&& old.same_settings(new)
    &&& if one_shot(token) {
        &&& one_shot_effect(
            old.player_spec(launcher),
            old.player_spec(target),
            new.player_spec(launcher),
            new.player_spec(target),
            token,
            old.cached_spec(launcher),
        )
        &&& (launcher != target && !touches_launcher(token) ==> new.player_spec(launcher) == old.player_spec(
            launcher,
        ))
        &&& (launcher == target ==> new.player_spec(opponent_of(target)) == old.player_spec(opponent_of(target)))
        &&& new.log_spec() == base_log.push(
            next_entry(base_log, BattleEvent::OneShotWeaponApplied { launcher, target, token }),
        )
    } else {
        let affected = effect_target(launcher, target, token);
        &&& activation(old.player_spec(affected), new.player_spec(affected), token)
        &&& new.player_spec(opponent_of(affected)) == old.player_spec(opponent_of(affected))
        &&& new.log_spec() == base_log.push(
            next_entry(
                base_log,
                BattleEvent::TimedWeaponActivated {
                    launcher,
                    target: affected,
                    token,
                    remaining_lines: extended_lines(old.player_spec(affected).effects()[token_id(token)], token),
                },
            ),
        )
    }
}

/// What resolving a launch does: Mirror on the launcher swallows the weapons it nullifies and
/// turns the others back on the launcher; otherwise the weapon acts on the target.
pub open spec fn resolved(old: TwoPlayerGame, new: TwoPlayerGame, launcher: PlayerId, target: PlayerId, token: WeaponToken) -> bool {
    let mirrored = old.player_spec(launcher).effect_active(WeaponToken::Mirror);
    if mirrored && nullified_by_mirror(token) {
        &&& new.log_spec() == old.log_spec().push(
            next_entry(old.log_spec(), BattleEvent::WeaponNullified { player: launcher, token }),
        )
        &&& old.same_settings(new)
        &&& new.player_spec(PlayerId::One) == old.player_spec(PlayerId::One)
        &&& new.player_spec(PlayerId::Two) == old.player_spec(PlayerId::Two)
    } else if mirrored {
        let base = old.log_spec().push(
            next_entry(old.log_spec(), BattleEvent::WeaponReflected { player: launcher, token }),
        );
        weapon_applied(old, new, base, launcher, launcher, token)
    } else {
        weapon_applied(old, new, old.log_spec(), launcher, target, token)
    }
}

impl TwoPlayerGame {
    fn apply_weapon_effect(&mut self, launcher: PlayerId, target: PlayerId, token: WeaponToken)
        requires
            old(self).wf(),
            supported_launch(token),
            pair_ok(launcher, target, token),
            old(self).weapon_funds_ok(launcher, target, token),
        ensures
            final(self).wf(),
            weapon_applied(*old(self), *final(self), old(self).log_spec(), launcher, target, token),
    {
        if is_phase_8_one_shot(token) {
            self.apply_one_shot_weapon(launcher, target, token);
            self.record(BattleEvent::OneShotWeaponApplied { launcher, target, token });
        } else {
            let affected = timed_effect_target(launcher, target, token);
            let remaining_lines = match affected {
                PlayerId::One => self.player_one.activate_timed_effect(token),
                PlayerId::Two => self.player_two.activate_timed_effect(token),
            };
            self.record(BattleEvent::TimedWeaponActivated { launcher, target: affected, token, remaining_lines });
        }
    }

    fn resolve_launched_weapon(&mut self, launcher: PlayerId, target: PlayerId, token: WeaponToken)
        requires
            old(self).wf(),
            supported_launch(token),
            target == opponent_of(launcher),
            old(self).weapon_funds_ok(launcher, target, token),
            old(self).weapon_funds_ok(launcher, launcher, token),
        ensures
            final(self).wf(),
            resolved(*old(self), *final(self), launcher, target, token),
    {
        let mirrored = match launcher {
            PlayerId::One => self.player_one.active_effects.is_active(WeaponToken::Mirror),
            PlayerId::Two => self.player_two.active_effects.is_active(WeaponToken::Mirror),
        };
        if mirrored {
            if crate::weapons::mirror_nullifies(token) {
                self.record(BattleEvent::WeaponNullified { player: launcher, token });
            } else {
                self.record(BattleEvent::WeaponReflected { player: launcher, token });
                self.apply_weapon_effect(launcher, launcher, token);
            }
        } else {
            self.apply_weapon_effect(launcher, target, token);
        }
    }
}


/// The arsenal slot a number key names, and what looking it up gives.
pub open spec fn slot_lookup(arsenal: Seq<Option<ArsenalSlot>>, label: u8) -> Result<WeaponToken, ArsenalError> {
    match crate::weapons::label_index(label) {
        None => Err(ArsenalError::InvalidSlotLabel(label)),
        Some(i) => match arsenal[i] {
            None => Err(ArsenalError::EmptySlot(i as usize)),
            Some(s) => Ok(s.token),
        },
    }
}

impl PieceLoop {
    /// The two loops differ at most in their scores.
    pub closed spec fn same_but_score(self, other: PieceLoop) -> bool {
        other == PieceLoop { score: other.score, ..self }
    }

    /// The two loops differ at most in their boards.
    pub closed spec fn same_but_board(self, other: PieceLoop) -> bool {
        other == PieceLoop { board: other.board, ..self }
    }

    /// The two loops differ at most in their arsenals.
    pub closed spec fn same_but_arsenal(self, other: PieceLoop) -> bool {
        other == PieceLoop { arsenal: other.arsenal, ..self }
    }
}

impl TwoPlayerGame {
    /// Every launch from `launcher` moves funds inside `i32`, whatever the weapon.
    pub open spec fn launch_funds_ok(&self, launcher: PlayerId) -> bool {
        &&& self.player_spec(PlayerId::One).score_spec().funds_of() > i32::MIN
        &&& self.player_spec(PlayerId::Two).score_spec().funds_of() > i32::MIN
        &&& i32::MIN <= self.player_spec(launcher).score_spec().funds_of() + self.cached_spec(launcher) <= i32::MAX
    }

    /// `mid` is `self` with one weapon taken from the launcher's slot `i` and the launch logged.
    pub open spec fn launch_step(&self, mid: TwoPlayerGame, launcher: PlayerId, i: int, token: WeaponToken) -> bool {
        let arsenal = self.player_spec(launcher).arsenal_spec()@;
        &&& arsenal[i] matches Some(s)
        &&& mid.player_spec(launcher).arsenal_spec()@ == arsenal.update(i, crate::weapons::take_one(arsenal[i]->0))
        &&& self.player_spec(launcher).same_but_arsenal(mid.player_spec(launcher))
        &&& mid.player_spec(opponent_of(launcher)) == self.player_spec(opponent_of(launcher))
        &&& self.same_settings(mid)
        &&& mid.log_spec() == self.log_spec().push(
            next_entry(
                self.log_spec(),
                BattleEvent::WeaponLaunched { launcher, target: opponent_of(launcher), token },
            ),
        )
    }

    /// Launches one arsenal slot and applies supported weapon effects.
    pub fn launch_weapon_slot(&mut self, launcher: PlayerId, slot_label: u8) -> (r: Result<Vec<LoggedEvent>, LaunchError>)
        requires
            old(self).wf(),
            old(self).launch_funds_ok(launcher),
        ensures
            final(self).wf(),
            old(self).phase_spec() != GamePhase::Playing ==> r == Err::<Vec<LoggedEvent>, LaunchError>(
                LaunchError::NotPlaying,
            ) && *final(self) == *old(self),
            old(self).phase_spec() == GamePhase::Playing ==> match slot_lookup(
                old(self).player_spec(launcher).arsenal_spec()@,
                slot_label,
            ) {
                Err(e) => r == Err::<Vec<LoggedEvent>, LaunchError>(LaunchError::Arsenal(e)) && *final(self)
                    == *old(self),
                Ok(token) => if !supported_launch(token) {
                    r == Err::<Vec<LoggedEvent>, LaunchError>(LaunchError::UnsupportedWeapon(token)) && *final(self)
                        == *old(self)
                } else {
                    &&& r matches Ok(events)
                    &&& appended(old(self).log_spec(), final(self).log_spec(), events@)
                    &&& exists|mid: TwoPlayerGame|
                        old(self).launch_step(
                            mid,
                            launcher,
                            crate::weapons::label_index(slot_label)->0,
                            token,
                        ) && resolved(mid, *final(self), launcher, opponent_of(launcher), token)
                },
            },
    {
        if self.phase != GamePhase::Playing {
            return Err(LaunchError::NotPlaying);
        }
        let looked_up = match launcher {
            PlayerId::One => self.player_one.arsenal.token_for_slot_label(slot_label),
            PlayerId::Two => self.player_two.arsenal.token_for_slot_label(slot_label),
        };
        let token = match looked_up {
            Ok(token) => token,
            Err(e) => {
                return Err(LaunchError::Arsenal(e));
            },
        };
        if !is_supported_launch_weapon(token) {
            return Err(LaunchError::UnsupportedWeapon(token));
        }
        let consumed = match launcher {
            PlayerId::One => self.player_one.arsenal.consume_slot_label(slot_label),
            PlayerId::Two => self.player_two.arsenal.consume_slot_label(slot_label),
        };
        if let Err(e) = consumed {
            return Err(LaunchError::Arsenal(e));
        }
        let start = self.log.len();
        let target = launcher.opponent();
        self.record(BattleEvent::WeaponLaunched { launcher, target, token });
        let ghost mid = *self;
        self.resolve_launched_weapon(launcher, target, token);
        let events = log_suffix(&self.log, start);
        proof {
            assert(self.log@.subrange(0, start as int) =~= old(self).log@) by {
                assert(self.log@.len() >= mid.log@.len());
            }
            assert(old(self).launch_step(mid, launcher, crate::weapons::label_index(slot_label)->0, token));
        }
        Ok(events)
    }

    /// Queues a weapon received from a peer for the target's next post-placement flush.
    pub fn queue_incoming_weapon(&mut self, launcher: PlayerId, target: PlayerId, token: WeaponToken) -> (r: Vec<
        LoggedEvent,
    >)
        requires
            old(self).wf(),
            pair_ok(launcher, target, token),
        ensures
            final(self).wf(),
            !supported_launch(token) ==> r@.len() == 0 && *final(self) == *old(self),
            supported_launch(token) ==> {
                &&& final(self).log_spec() == old(self).log_spec().push(
                    next_entry(old(self).log_spec(), BattleEvent::IncomingWeaponQueued { launcher, target, token }),
                )
                &&& appended(old(self).log_spec(), final(self).log_spec(), r@)
                &&& final(self).incoming_spec(target) == old(self).incoming_spec(target).push((launcher, token))
                &&& final(self).incoming_spec(opponent_of(target)) == old(self).incoming_spec(opponent_of(target))
                &&& final(self).player_spec(PlayerId::One) == old(self).player_spec(PlayerId::One)
                &&& final(self).player_spec(PlayerId::Two) == old(self).player_spec(PlayerId::Two)
                &&& final(self).phase_spec() == old(self).phase_spec()
            },
    {
        if !is_supported_launch_weapon(token) {
            return Vec::new();
        }
        let ghost q0 = self.incoming_one@;
        let ghost q1 = self.incoming_two@;
        match target {
            PlayerId::One => self.incoming_one.push_back(QueuedWeapon { launcher, token }),
            PlayerId::Two => self.incoming_two.push_back(QueuedWeapon { launcher, token }),
        }
        proof {
            assert(self.incoming_one@.map_values(|q: QueuedWeapon| (q.launcher, q.token)) =~= if target == PlayerId::One {
                q0.map_values(|q: QueuedWeapon| (q.launcher, q.token)).push((launcher, token))
            } else {
                q0.map_values(|q: QueuedWeapon| (q.launcher, q.token))
            });
            assert(self.incoming_two@.map_values(|q: QueuedWeapon| (q.launcher, q.token)) =~= if target == PlayerId::Two {
                q1.map_values(|q: QueuedWeapon| (q.launcher, q.token)).push((launcher, token))
            } else {
                q1.map_values(|q: QueuedWeapon| (q.launcher, q.token))
            });
        }
        self.record_one(BattleEvent::IncomingWeaponQueued { launcher, target, token })
    }
}


/// The log grew by `events`, each entry numbered by its position.
pub open spec fn log_extended(old_log: Seq<LoggedEvent>, new_log: Seq<LoggedEvent>, events: Seq<BattleEvent>) -> bool {
    &&& new_log.len() == old_log.len() + events.len()
    &&& new_log.subrange(0, old_log.len() as int) == old_log
    &&& forall|i: int| 0 <= i < events.len() ==> #[trigger] new_log[old_log.len() + i] == (LoggedEvent {
        sequence: (old_log.len() + i) as u64,
        event: events[i],
    })
}

/// The events reporting expired spy weapons: each expiry, then the recon panel it closes.
/// (Any other expired token is reported as an expiry alone.)
pub open spec fn recon_expiry_events(viewer: PlayerId, target: PlayerId, expired: Seq<WeaponToken>) -> Seq<BattleEvent>
    decreases expired.len(),
{
    if expired.len() == 0 {
        Seq::empty()
    } else {
        let t = expired.last();
        recon_expiry_events(viewer, target, expired.drop_last()) + if t is Ames || t is Ace || t is Condor {
            seq![
                BattleEvent::TimedWeaponExpired { player: viewer, token: t },
                BattleEvent::ReconDisabled { viewer, target, token: t },
            ]
        } else {
            seq![BattleEvent::TimedWeaponExpired { player: viewer, token: t }]
        }
    }
}

/// The best recon a viewer has running: Condor, then Ace, then Ames.
pub open spec fn recon_level_of(viewer: PieceLoop) -> Option<ReconLevel> {
    if viewer.effect_active(WeaponToken::Condor) {
        Some(ReconLevel::Condor)
    } else if viewer.effect_active(WeaponToken::Ace) {
        Some(ReconLevel::Ace)
    } else if viewer.effect_active(WeaponToken::Ames) {
        Some(ReconLevel::Ames)
    } else {
        None
    }
}

/// The funds of the latest line clear a player logged among the first `n` entries.
pub open spec fn last_clear_funds(log: Seq<LoggedEvent>, player: PlayerId, n: int) -> Option<i32>
    decreases n,
{
    if n <= 0 {
        None
    } else {
        match log[n - 1].event {
            BattleEvent::PlayerEvent { player: p, event: CoreEvent::LinesCleared { funds, .. } } => if p == player {
                Some(funds)
            } else {
                last_clear_funds(log, player, n - 1)
            },
            _ => last_clear_funds(log, player, n - 1),
        }
    }
}

/// The lines of the last line clear among `events`, or zero.
pub open spec fn last_cleared_lines(events: Seq<CoreEvent>) -> u32
    decreases events.len(),
{
    if events.len() == 0 {
        0
    } else {
        match events.last() {
            CoreEvent::LinesCleared { lines, .. } => lines,
            _ => last_cleared_lines(events.drop_last()),
        }
    }
}

/// Whether some event among `events` is a failed spawn.
pub open spec fn saw_spawn_failure(events: Seq<CoreEvent>) -> bool {
    exists|i: int| 0 <= i < events.len() && #[trigger] events[i] is SpawnFailed
}

/// Whether some event among `events` is a lock.
pub open spec fn saw_lock(events: Seq<CoreEvent>) -> bool {
    exists|i: int| 0 <= i < events.len() && #[trigger] events[i] is PieceLocked
}

/// Scans a player's events for a failed spawn, a lock and the last line clear.
fn scan_events(events: &Vec<CoreEvent>) -> (r: (bool, bool, u32))
    ensures
        r.0 == saw_spawn_failure(events@),
        r.1 == saw_lock(events@),
        r.2 == last_cleared_lines(events@),
{
    let mut failed = false;
    let mut locked = false;
    let mut lines: u32 = 0;
    let mut i: usize = 0;
    while i < events.len()
        invariant
            i <= events@.len(),
            failed == saw_spawn_failure(events@.take(i as int)),
            locked == saw_lock(events@.take(i as int)),
            lines == last_cleared_lines(events@.take(i as int)),
        decreases events@.len() - i,
    {
        let ghost t = events@.take(i as int);
        let ghost t1 = events@.take(i as int + 1);
        assert(t1.drop_last() =~= t);
        assert(t1.last() == events@[i as int]);
        match events[i] {
            CoreEvent::SpawnFailed { .. } => {
                failed = true;
                assert(t1[i as int] is SpawnFailed);
            },
            CoreEvent::PieceLocked { .. } => {
                locked = true;
                assert(t1[i as int] is PieceLocked);
            },
            CoreEvent::LinesCleared { lines: n, .. } => {
                lines = n;
            },
            _ => {},
        }
        proof {
            if !(events@[i as int] is SpawnFailed) && failed {
                let k = choose|k: int| 0 <= k < t1.len() && #[trigger] t1[k] is SpawnFailed;
                if k < i {
                    assert(t[k] == t1[k]);
                }
            }
            if !failed {
                assert forall|k: int| 0 <= k < t1.len() implies !(#[trigger] t1[k] is SpawnFailed) by {
                    if k < i {
                        assert(t[k] == t1[k]);
                    }
                }
            }
            if !(events@[i as int] is PieceLocked) && locked {
                let k = choose|k: int| 0 <= k < t1.len() && #[trigger] t1[k] is PieceLocked;
                if k < i {
                    assert(t[k] == t1[k]);
                }
            }
            if !locked {
                assert forall|k: int| 0 <= k < t1.len() implies !(#[trigger] t1[k] is PieceLocked) by {
                    if k < i {
                        assert(t[k] == t1[k]);
                    }
                }
            }
            if failed && !(events@[i as int] is SpawnFailed) {
                let k = choose|k: int| 0 <= k < t.len() && #[trigger] t[k] is SpawnFailed;
                assert(t1[k] == t[k]);
            }
            if locked && !(events@[i as int] is PieceLocked) {
                let k = choose|k: int| 0 <= k < t.len() && #[trigger] t[k] is PieceLocked;
                assert(t1[k] == t[k]);
            }
        }
        i = i + 1;
    }
    assert(events@.take(events@.len() as int) =~= events@);
    (failed, locked, lines)
}


impl PieceLoop {
    /// The two loops differ at most in their timed effects.
    pub closed spec fn same_but_effects(self, other: PieceLoop) -> bool {
        other == PieceLoop { active_effects: other.active_effects, ..self }
    }

    /// The two loops differ at most in their weapon random stream.
    pub closed spec fn same_but_rng(self, other: PieceLoop) -> bool {
        other == PieceLoop { weapon_rng: other.weapon_rng, ..self }
    }
}

impl TwoPlayerGame {
    fn active_recon_level(&self, viewer: PlayerId) -> (r: Option<ReconLevel>)
        requires
            self.wf(),
        ensures
            r == recon_level_of(self.player_spec(viewer)),
    {
        let effects = match viewer {
            PlayerId::One => &self.player_one.active_effects,
            PlayerId::Two => &self.player_two.active_effects,
        };
        if effects.is_active(WeaponToken::Condor) {
            Some(ReconLevel::Condor)
        } else if effects.is_active(WeaponToken::Ace) {
            Some(ReconLevel::Ace)
        } else if effects.is_active(WeaponToken::Ames) {
            Some(ReconLevel::Ames)
        } else {
            None
        }
    }

    fn last_lines_cleared_funds(&self, player: PlayerId) -> (r: Option<i32>)
        requires
            self.wf(),
        ensures
            r == last_clear_funds(self.log@, player, self.log@.len() as int),
            r matches Some(f) ==> -8_000_000 <= f <= 8_000_000,
    {
        let mut n: usize = self.log.len();
        while n > 0
            invariant
                n <= self.log@.len(),
                self.wf(),
                last_clear_funds(self.log@, player, self.log@.len() as int) == last_clear_funds(self.log@, player, n as int),
            decreases n,
        {
            match &self.log[n - 1].event {
                BattleEvent::PlayerEvent { player: p, event: CoreEvent::LinesCleared { funds, .. } } => {
                    if *p == player {
                        assert(event_funds_bounded(self.log@[n - 1].event));
                        return Some(*funds);
                    }
                },
                _ => {},
            }
            n = n - 1;
        }
        None
    }

    fn observe_recon_line_clear(&mut self, target: PlayerId, lines: u32)
        requires
            old(self).wf(),
            lines > 0,
        ensures
            final(self).wf(),
            old(self).same_settings(*final(self)),
            final(self).player_spec(target) == old(self).player_spec(target),
            old(self).player_spec(opponent_of(target)).same_but_effects(final(self).player_spec(opponent_of(target))),
            ({
                let viewer = opponent_of(target);
                let outcome = crate::weapons::clear_for(
                    old(self).player_spec(viewer).effects(),
                    lines,
                    seq![WeaponToken::Ames, WeaponToken::Ace, WeaponToken::Condor],
                );
                &&& final(self).player_spec(viewer).effects() == outcome.0
                &&& log_extended(old(self).log@, final(self).log@, recon_expiry_events(viewer, target, outcome.1))
            }),
    {
        let viewer = target.opponent();
        let spies: [WeaponToken; 3] = [WeaponToken::Ames, WeaponToken::Ace, WeaponToken::Condor];
        assert(spies@ =~= seq![WeaponToken::Ames, WeaponToken::Ace, WeaponToken::Condor]);
        let expired = match viewer {
            PlayerId::One => self.player_one.active_effects.observe_line_clear_for(lines, spies.as_slice()),
            PlayerId::Two => self.player_two.active_effects.observe_line_clear_for(lines, spies.as_slice()),
        };
        let ghost base = self.log@;
        assert(recon_expiry_events(viewer, target, expired@.take(0)) =~= Seq::<BattleEvent>::empty());
        assert(base.subrange(0, base.len() as int) =~= base);
        let mut k: usize = 0;
        while k < expired.len()
            invariant
                k <= expired@.len(),
                self.wf(),
                log_extended(base, self.log@, recon_expiry_events(viewer, target, expired@.take(k as int))),
                old(self).same_settings(*self),
                self.player_one == old(self).player_one || viewer == PlayerId::One,
                self.player_two == old(self).player_two || viewer == PlayerId::Two,
                old(self).player_spec(viewer).same_but_effects(self.player_spec(viewer)),
                lines > 0,
                self.player_spec(viewer).effects() == crate::weapons::clear_for(
                    old(self).player_spec(viewer).effects(),
                    lines,
                    seq![WeaponToken::Ames, WeaponToken::Ace, WeaponToken::Condor],
                ).0,
                expired@ == crate::weapons::clear_for(
                    old(self).player_spec(viewer).effects(),
                    lines,
                    seq![WeaponToken::Ames, WeaponToken::Ace, WeaponToken::Condor],
                ).1,
            decreases expired@.len() - k,
        {
            let token = expired[k];
            let ghost before = self.log@;
            let ghost prev = recon_expiry_events(viewer, target, expired@.take(k as int));
            assert(expired@.take(k as int + 1).drop_last() =~= expired@.take(k as int));
            self.record(BattleEvent::TimedWeaponExpired { player: viewer, token });
            if ReconLevel::from_token(token).is_some() {
                self.record(BattleEvent::ReconDisabled { viewer, target, token });
            }
            proof {
                let next = recon_expiry_events(viewer, target, expired@.take(k as int + 1));
                assert forall|i: int| 0 <= i < next.len() implies #[trigger] self.log@[base.len() + i] == (LoggedEvent {
                    sequence: (base.len() + i) as u64,
                    event: next[i],
                }) by {
                    if i < prev.len() {
                        assert(self.log@[base.len() + i] == before[base.len() + i]);
                    }
                }
                assert(self.log@.subrange(0, base.len() as int) =~= base) by {
                    assert forall|j: int| 0 <= j < base.len() implies self.log@[j] == base[j] by {
                        assert(self.log@[j] == before[j]);
                        assert(before.subrange(0, base.len() as int)[j] == before[j]);
                    }
                }
            }
            k = k + 1;
        }
        proof {
            assert(expired@.take(expired@.len() as int) =~= expired@);
        }
    }
}


impl TwoPlayerGame {
    /// Phase, bazaar state and mode are unchanged.
    pub closed spec fn same_frame(&self, other: TwoPlayerGame) -> bool {
        &&& other.phase == self.phase
        &&& other.before_pause == self.before_pause
        &&& other.bazaar == self.bazaar
        &&& other.done_one == self.done_one
        &&& other.done_two == self.done_two
        &&& other.session_one == self.session_one
        &&& other.session_two == self.session_two
        &&& other.mode == self.mode
    }

    fn emit_recon_updates(&mut self, target: PlayerId, target_cleared_lines: u32)
        requires
            old(self).wf(),
            old(self).player_spec(target).score_spec().funds_of() + 99 <= i32::MAX,
        ensures
            final(self).wf(),
            old(self).same_frame(*final(self)),
            final(self).incoming_spec(PlayerId::One) == old(self).incoming_spec(PlayerId::One),
            final(self).incoming_spec(PlayerId::Two) == old(self).incoming_spec(PlayerId::Two),
            final(self).player_spec(target) == old(self).player_spec(target),
            final(self).cached_spec(target) == old(self).cached_spec(target),
            match recon_level_of(old(self).player_spec(opponent_of(target))) {
                None => *final(self) == *old(self),
                Some(level) => {
                    let viewer = opponent_of(target);
                    &&& old(self).player_spec(viewer).same_but_rng(final(self).player_spec(viewer))
                    &&& exists|draw: u64| final(self).cached_spec(viewer) == crate::recon::reported_funds(
                        level,
                        old(self).player_spec(target).score_spec().funds_of(),
                        target_cleared_lines,
                        draw,
                    )
                    &&& final(self).log@.len() == old(self).log@.len() + 1
                    &&& final(self).log@.drop_last() == old(self).log@
                    &&& final(self).log@.last().sequence == old(self).log@.len() as u64
                    &&& final(self).log@.last().event matches BattleEvent::ReconUpdated { viewer: v, target: t, snapshot }
                        && v == viewer && t == target && snapshot.level == level && snapshot.funds
                        == final(self).cached_spec(viewer)
                        && snapshot.board.cells@ == recon_scan(
                            old(self).player_spec(target).board_view(),
                            report_percent(level),
                            old(self).player_spec(viewer).weapon_stream(),
                            280,
                        ).0
                    &&& ({
                        let funds = old(self).player_spec(target).score_spec().funds_of();
                        let after_cells = recon_scan(
                            old(self).player_spec(target).board_view(),
                            report_percent(level),
                            old(self).player_spec(viewer).weapon_stream(),
                            280,
                        ).1;
                        let (draw, next) = funds_draw(level, funds, target_cleared_lines, after_cells);
                        &&& final(self).cached_spec(viewer) == crate::recon::reported_funds(level, funds, target_cleared_lines, draw)
                        &&& final(self).player_spec(viewer).weapon_stream() == next
                    })
                },
            },
    {
        let viewer = target.opponent();
        let level = match self.active_recon_level(viewer) {
            Some(level) => level,
            None => {
                return;
            },
        };
        let (board, funds) = match target {
            PlayerId::One => (self.player_one.board().clone(), self.player_one.funds()),
            PlayerId::Two => (self.player_two.board().clone(), self.player_two.funds()),
        };
        let snapshot = match viewer {
            PlayerId::One => sample_recon(level, &board, funds, target_cleared_lines, &mut self.player_one.weapon_rng),
            PlayerId::Two => sample_recon(level, &board, funds, target_cleared_lines, &mut self.player_two.weapon_rng),
        };
        let seen = snapshot.funds;
        match viewer {
            PlayerId::One => self.cached_one = seen,
            PlayerId::Two => self.cached_two = seen,
        }
        let ghost before = self.log@;
        self.record(BattleEvent::ReconUpdated { viewer, target, snapshot });
        assert(self.log@.drop_last() =~= before);
    }
}


/// Absolute value.
pub open spec fn abs(v: int) -> int {
    if v < 0 { -v } else { v }
}

/// What a stretch of weapon effects keeps of a loop: lines, score, pending spawn, game over,
/// and the generator weights that no weapon changes.
pub open spec fn weapons_frame(a: PieceLoop, b: PieceLoop) -> bool {
    &&& b.score_spec().lines_of() == a.score_spec().lines_of()
    &&& b.score_spec().score_of() == a.score_spec().score_of()
    &&& b.pending_spec() == a.pending_spec()
    &&& b.game_over_spec() == a.game_over_spec()
    &&& safe_weights_kept(a.generator_spec(), b.generator_spec())
}

proof fn lemma_weapons_frame_trans(a: PieceLoop, b: PieceLoop, c: PieceLoop)
    requires
        weapons_frame(a, b),
        weapons_frame(b, c),
    ensures
        weapons_frame(a, c),
{
    assert forall|k: int| safe_weight_index(k) implies #[trigger] c.generator_spec().weights()[k]
        == a.generator_spec().weights()[k] by {
        assert(b.generator_spec().weights()[k] == a.generator_spec().weights()[k]);
    }
}

/// A weapon keeps each loop's frame, and moves each player's funds by at most the
/// launcher's recon-seen funds.
proof fn lemma_weapon_applied_frame(
    old: TwoPlayerGame,
    new: TwoPlayerGame,
    base: Seq<LoggedEvent>,
    launcher: PlayerId,
    target: PlayerId,
    token: WeaponToken,
    p: PlayerId,
)
    requires
        weapon_applied(old, new, base, launcher, target, token),
        pair_ok(launcher, target, token),
        supported_launch(token),
    ensures
        weapons_frame(old.player_spec(p), new.player_spec(p)),
        abs(new.player_spec(p).score_spec().funds_of() as int) <= abs(old.player_spec(p).score_spec().funds_of() as int)
            + abs(old.cached_spec(launcher) as int),
{
    let a = old.player_spec(p);
    let b = new.player_spec(p);
    if one_shot(token) {
        match token {
            WeaponToken::Keating => {
                assert(p == target || p == launcher);
            },
            WeaponToken::Swap => {
                assert(p == target || p == launcher);
            },
            WeaponToken::Susan => {
                assert(p == target || p == launcher);
            },
            _ => {
                if p == target {
                    assert(target_effect(a, b, token));
                } else {
                    assert(p == opponent_of(target));
                    if launcher != target {
                        assert(launcher == opponent_of(target));
                        assert(!touches_launcher(token));
                    }
                    assert(b == a);
                }
            },
        }
    } else {
        let affected = effect_target(launcher, target, token);
        if p == affected {
            assert(activation(a, b, token));
        } else {
            assert(p == opponent_of(affected));
            assert(b == a);
        }
    }
}

impl TwoPlayerGame {
    /// The funds of both players plus a full Keating transfer for every queued weapon of
    /// `target` stay within `limit`, and the recon-seen funds within `transfer`.
    pub open spec fn flush_room(&self, target: PlayerId, transfer: int, limit: int) -> bool {
        &&& abs(self.player_spec(PlayerId::One).score_spec().funds_of() as int) + transfer * self.incoming_spec(target).len()
            <= limit
        &&& abs(self.player_spec(PlayerId::Two).score_spec().funds_of() as int) + transfer * self.incoming_spec(target).len()
            <= limit
        &&& abs(self.cached_spec(PlayerId::One) as int) <= transfer
        &&& abs(self.cached_spec(PlayerId::Two) as int) <= transfer
    }

    fn flush_incoming_weapons(&mut self, target: PlayerId)
        requires
            old(self).wf(),
            old(self).flush_room(target, 0x400_0000, 0x2400_0000),
        ensures
            final(self).wf(),
            old(self).same_frame(*final(self)),
            final(self).incoming_spec(target).len() == 0,
            final(self).incoming_spec(opponent_of(target)) == old(self).incoming_spec(opponent_of(target)),
            final(self).cached_spec(PlayerId::One) == old(self).cached_spec(PlayerId::One),
            final(self).cached_spec(PlayerId::Two) == old(self).cached_spec(PlayerId::Two),
            weapons_frame(old(self).player_spec(PlayerId::One), final(self).player_spec(PlayerId::One)),
            weapons_frame(old(self).player_spec(PlayerId::Two), final(self).player_spec(PlayerId::Two)),
            final(self).log@.len() >= old(self).log@.len(),
            final(self).log@.subrange(0, old(self).log@.len() as int) == old(self).log@,
    {
        loop
            invariant
                self.wf(),
                self.flush_room(target, 0x400_0000, 0x2400_0000),
                old(self).same_frame(*self),
                self.incoming_spec(opponent_of(target)) == old(self).incoming_spec(opponent_of(target)),
                self.cached_spec(PlayerId::One) == old(self).cached_spec(PlayerId::One),
                self.cached_spec(PlayerId::Two) == old(self).cached_spec(PlayerId::Two),
                weapons_frame(old(self).player_spec(PlayerId::One), self.player_spec(PlayerId::One)),
                weapons_frame(old(self).player_spec(PlayerId::Two), self.player_spec(PlayerId::Two)),
                self.log@.len() >= old(self).log@.len(),
                self.log@.subrange(0, old(self).log@.len() as int) == old(self).log@,
            ensures
                self.wf(),
                old(self).same_frame(*self),
                self.incoming_spec(target).len() == 0,
                self.incoming_spec(opponent_of(target)) == old(self).incoming_spec(opponent_of(target)),
                self.cached_spec(PlayerId::One) == old(self).cached_spec(PlayerId::One),
                self.cached_spec(PlayerId::Two) == old(self).cached_spec(PlayerId::Two),
                weapons_frame(old(self).player_spec(PlayerId::One), self.player_spec(PlayerId::One)),
                weapons_frame(old(self).player_spec(PlayerId::Two), self.player_spec(PlayerId::Two)),
                self.log@.len() >= old(self).log@.len(),
                self.log@.subrange(0, old(self).log@.len() as int) == old(self).log@,
            decreases self.incoming_spec(target).len(),
        {
            let ghost q_before = self.incoming_spec(target);
            let ghost raw_one = self.incoming_one@;
            let ghost raw_two = self.incoming_two@;
            let popped = match target {
                PlayerId::One => self.incoming_one.pop_front(),
                PlayerId::Two => self.incoming_two.pop_front(),
            };
            let queued = match popped {
                Some(q) => q,
                None => {
                    break;
                },
            };
            proof {
                assert(self.incoming_spec(target) =~= q_before.drop_first());
                if target == PlayerId::One {
                    assert(queued == raw_one[0]);
                    assert forall|i: int| 0 <= i < self.incoming_one@.len() implies queued_ok(
                        #[trigger] self.incoming_one@[i],
                        PlayerId::One,
                    ) by {
                        assert(self.incoming_one@[i] == raw_one[i + 1]);
                    }
                } else {
                    assert(queued == raw_two[0]);
                    assert forall|i: int| 0 <= i < self.incoming_two@.len() implies queued_ok(
                        #[trigger] self.incoming_two@[i],
                        PlayerId::Two,
                    ) by {
                        assert(self.incoming_two@[i] == raw_two[i + 1]);
                    }
                }
            }
            let ghost mid = *self;
            let ghost prior = self.log@;
            self.apply_weapon_effect(queued.launcher, target, queued.token);
            proof {
                lemma_weapon_applied_frame(mid, *self, prior, queued.launcher, target, queued.token, PlayerId::One);
                lemma_weapon_applied_frame(mid, *self, prior, queued.launcher, target, queued.token, PlayerId::Two);
                lemma_weapons_frame_trans(
                    old(self).player_spec(PlayerId::One),
                    mid.player_spec(PlayerId::One),
                    self.player_spec(PlayerId::One),
                );
                lemma_weapons_frame_trans(
                    old(self).player_spec(PlayerId::Two),
                    mid.player_spec(PlayerId::Two),
                    self.player_spec(PlayerId::Two),
                );
                assert(self.incoming_spec(target) == mid.incoming_spec(target));
                assert(self.log@.subrange(0, old(self).log@.len() as int) =~= old(self).log@) by {
                    assert forall|j: int| 0 <= j < old(self).log@.len() implies self.log@[j] == old(self).log@[j] by {
                        assert(self.log@[j] == prior[j]);
                        assert(prior.subrange(0, old(self).log@.len() as int)[j] == prior[j]);
                    }
                }
            }
        }
    }
}


/// The bazaar session a player opens with: their arsenal and funds, and whether Carter
/// doubled the prices.
pub open spec fn session_opened(session: Option<Bazaar>, player: PieceLoop) -> bool {
    &&& session matches Some(b)
    &&& b.arsenal_of() == player.arsenal_spec()@
    &&& b.funds_of() == player.score_spec().funds_of()
    &&& b.carter_of() == player.effect_active(WeaponToken::Carter)
    &&& b.purchases_of().len() == 0
}

impl TwoPlayerGame {
    /// The shared bazaar countdown.
    pub closed spec fn bazaar_spec(&self) -> BazaarTracker {
        self.bazaar
    }

    fn open_bazaar_sessions(&mut self)
        requires
            old(self).wf(),
        ensures
            final(self).wf(),
            session_opened(final(self).session_spec(PlayerId::One), old(self).player_spec(PlayerId::One)),
            session_opened(final(self).session_spec(PlayerId::Two), old(self).player_spec(PlayerId::Two)),
            *final(self) == (TwoPlayerGame { session_one: final(self).session_one, session_two: final(self).session_two, ..*old(self) }),
    {
        let carter_one = self.player_one.active_effects.is_active(WeaponToken::Carter);
        let carter_two = self.player_two.active_effects.is_active(WeaponToken::Carter);
        let one = Bazaar::new(self.player_one.arsenal, self.player_one.funds(), carter_one);
        let two = Bazaar::new(self.player_two.arsenal, self.player_two.funds(), carter_two);
        self.session_one = Some(one);
        self.session_two = Some(two);
    }

    fn observe_bazaar(&mut self)
        requires
            old(self).wf(),
            old(self).player_spec(PlayerId::One).score_spec().lines_of() + old(self).player_spec(
                PlayerId::Two,
            ).score_spec().lines_of() <= u32::MAX,
        ensures
            final(self).wf(),
            old(self).phase_spec() != GamePhase::Playing ==> *final(self) == *old(self),
            final(self).mode_spec() == old(self).mode_spec(),
            final(self).log_spec().len() >= old(self).log_spec().len(),
            final(self).log_spec().subrange(0, old(self).log_spec().len() as int) == old(self).log_spec(),
            bazaar_observed(*old(self), *final(self)),
    {
        if self.phase != GamePhase::Playing {
            assert(self.log_spec().subrange(0, self.log_spec().len() as int) =~= self.log_spec());
            return;
        }
        let ghost g0 = *self;
        let entered = self.bazaar.observe(self.player_one.lines(), self.player_two.lines());
        if entered {
            self.phase = GamePhase::Bazaar;
            self.done_one = false;
            self.done_two = false;
            self.open_bazaar_sessions();
            self.record(BattleEvent::BazaarEntered);
            assert(self.log_spec() == g0.log_spec().push(next_entry(g0.log_spec(), BattleEvent::BazaarEntered)));
        } else {
            assert(self.log_spec() == g0.log_spec());
        }
        assert(self.incoming_spec(PlayerId::One) == g0.incoming_spec(PlayerId::One));
        assert(self.incoming_spec(PlayerId::Two) == g0.incoming_spec(PlayerId::Two));
        assert(self.log_spec().subrange(0, g0.log_spec().len() as int) == g0.log_spec());
    }

    fn commit_bazaar_sessions(&mut self)
        requires
            old(self).wf(),
        ensures
            final(self).wf(),
            final(self).session_spec(PlayerId::One) is None,
            final(self).session_spec(PlayerId::Two) is None,
            old(self).same_settings_but_sessions(*final(self)),
            match old(self).session_spec(PlayerId::One) {
                None => final(self).player_spec(PlayerId::One) == old(self).player_spec(PlayerId::One),
                Some(b) => final(self).player_spec(PlayerId::One).arsenal_spec()@ == b.arsenal_of()
                    && final(self).player_spec(PlayerId::One).score_spec().funds_of() == b.funds_of(),
            },
            match old(self).session_spec(PlayerId::Two) {
                None => final(self).player_spec(PlayerId::Two) == old(self).player_spec(PlayerId::Two),
                Some(b) => final(self).player_spec(PlayerId::Two).arsenal_spec()@ == b.arsenal_of()
                    && final(self).player_spec(PlayerId::Two).score_spec().funds_of() == b.funds_of(),
            },
    {
        if let Some(session) = self.session_one.take() {
            let commit = session.commit();
            self.player_one.arsenal = commit.arsenal;
            self.player_one.score.set_funds(commit.funds);
        }
        if let Some(session) = self.session_two.take() {
            let commit = session.commit();
            self.player_two.arsenal = commit.arsenal;
            self.player_two.score.set_funds(commit.funds);
        }
    }

    /// Everything but the log is unchanged.
    pub closed spec fn same_settings_but_log(&self, other: TwoPlayerGame) -> bool {
        &&& other.player_one == self.player_one
        &&& other.player_two == self.player_two
        &&& self.same_settings(other)
    }

    /// Everything but the loops and the bazaar sessions is unchanged.
    pub closed spec fn same_settings_but_sessions(&self, other: TwoPlayerGame) -> bool {
        &&& other.phase == self.phase
        &&& other.before_pause == self.before_pause
        &&& other.bazaar == self.bazaar
        &&& other.done_one == self.done_one
        &&& other.done_two == self.done_two
        &&& other.incoming_one@ == self.incoming_one@
        &&& other.incoming_two@ == self.incoming_two@
        &&& other.cached_one == self.cached_one
        &&& other.cached_two == self.cached_two
        &&& other.mode == self.mode
        &&& other.log@ == self.log@
    }
}


proof fn lemma_spawn_safe_kept(a: PieceGenerator, b: PieceGenerator)
    requires
        spawn_safe(a),
        safe_weights_kept(a, b),
    ensures
        spawn_safe(b),
{
    let k = choose|k: int| safe_weight_index(k) && #[trigger] a.weights()[k] > 0;
    assert(b.weights()[k] == a.weights()[k]);
}

/// Row `y` is a garbage line: visible cells with at most one empty column.
pub open spec fn garbage_line(n: Seq<Option<Cell>>, y: int) -> bool {
    &&& forall|x: int| 0 <= x < 10 ==> (#[trigger] at(n, x, y) is None || at(n, x, y) matches Some(Cell::Visible { .. }))
    &&& forall|x1: int, x2: int| 0 <= x1 < x2 < 10 && #[trigger] at(n, x1, y) is None ==> !(#[trigger] at(n, x2, y) is None)
}

/// The board after `lines` garbage lines came in from the bottom: every row moved up by
/// `lines` (rows pushed past the top are gone) and the bottom `lines` rows are garbage lines.
pub open spec fn raised_by(b: Seq<Option<Cell>>, n: Seq<Option<Cell>>, lines: int) -> bool {
    &&& forall|x: int, y: int| 0 <= x < 10 && 0 <= y && y + lines < 28 ==> #[trigger] at(n, x, y) == at(b, x, y + lines)
    &&& forall|y: int| 0 <= y < 28 && y + lines >= 28 ==> #[trigger] garbage_line(n, y)
}

impl PieceLoop {
    /// Pushes `lines` garbage lines in from the bottom, each with a random hole.
    fn raise_garbage(&mut self, lines: u32)
        requires
            old(self).wf(),
        ensures
            final(self).wf(),
            weapons_frame(*old(self), *final(self)),
            final(self).score_spec().funds_of() == old(self).score_spec().funds_of(),
            final(self).arsenal_spec() == old(self).arsenal_spec(),
            final(self).effects() == old(self).effects(),
            final(self).active_spec() == old(self).active_spec(),
            raised_by(old(self).board_view(), final(self).board_view(), lines as int),
    {
        let mut i: u32 = 0;
        while i < lines
            invariant
                i <= lines,
                self.wf(),
                weapons_frame(*old(self), *self),
                self.score_spec().funds_of() == old(self).score_spec().funds_of(),
                self.arsenal_spec() == old(self).arsenal_spec(),
                self.effects() == old(self).effects(),
                self.active_spec() == old(self).active_spec(),
                raised_by(old(self).board_view(), self.board_view(), i as int),
            decreases lines - i,
        {
            let ghost before = *self;
            self.rise_up();
            proof {
                lemma_weapons_frame_trans(*old(self), before, *self);
                lemma_raise_step(old(self).board_view(), before.board_view(), self.board_view(), i as int);
            }
            i = i + 1;
        }
    }
}

/// One more garbage line on a board raised by `k` lines gives a board raised by `k + 1`.
proof fn lemma_raise_step(b: Seq<Option<Cell>>, m: Seq<Option<Cell>>, n: Seq<Option<Cell>>, k: int)
    requires
        k >= 0,
        raised_by(b, m, k),
        forall|x: int, y: int| 0 <= x < 10 && 0 <= y < 27 ==> #[trigger] at(n, x, y) == at(m, x, y + 1),
        garbage_row(n),
    ensures
        raised_by(b, n, k + 1),
{
    assert forall|x: int, y: int| 0 <= x < 10 && 0 <= y && y + k + 1 < 28 implies #[trigger] at(n, x, y) == at(b, x, y + k + 1) by {
        assert(at(n, x, y) == at(m, x, y + 1));
        assert(at(m, x, y + 1) == at(b, x, y + 1 + k));
    }
    assert forall|y: int| 0 <= y < 28 && y + k + 1 >= 28 implies #[trigger] garbage_line(n, y) by {
        if y == 27 {
            assert forall|x: int| 0 <= x < 10 implies (#[trigger] at(n, x, y) is None || at(n, x, y) matches Some(Cell::Visible { .. })) by {
                assert(at(n, x, 27) is None || at(n, x, 27) matches Some(Cell::Visible { .. }));
            }
            assert forall|x1: int, x2: int| 0 <= x1 < x2 < 10 && #[trigger] at(n, x1, y) is None implies !(#[trigger] at(n, x2, y) is None) by {
                assert(at(n, x1, 27) is None);
            }
        } else {
            assert(garbage_line(m, y + 1));
            assert forall|x: int| 0 <= x < 10 implies (#[trigger] at(n, x, y) is None || at(n, x, y) matches Some(Cell::Visible { .. })) by {
                assert(at(n, x, y) == at(m, x, y + 1));
            }
            assert forall|x1: int, x2: int| 0 <= x1 < x2 < 10 && #[trigger] at(n, x1, y) is None implies !(#[trigger] at(n, x2, y) is None) by {
                assert(at(n, x1, y) == at(m, x1, y + 1));
                assert(at(n, x2, y) == at(m, x2, y + 1));
            }
        }
    }
}

impl TwoPlayerGame {
    /// Room for processing one player's events: funds and recon-seen funds far from the `i32`
    /// limits, short incoming queues, line totals far from the `u32` limit, and generators
    /// that can always draw.
    pub open spec fn process_room(&self) -> bool {
        &&& abs(self.player_spec(PlayerId::One).score_spec().funds_of() as int) <= 0x200_0000
        &&& abs(self.player_spec(PlayerId::Two).score_spec().funds_of() as int) <= 0x200_0000
        &&& abs(self.cached_spec(PlayerId::One) as int) <= 0x200_0000
        &&& abs(self.cached_spec(PlayerId::Two) as int) <= 0x200_0000
        &&& self.incoming_spec(PlayerId::One).len() <= 8
        &&& self.incoming_spec(PlayerId::Two).len() <= 8
        &&& self.player_spec(PlayerId::One).score_spec().lines_of() <= 0x4000_0000
        &&& self.player_spec(PlayerId::Two).score_spec().lines_of() <= 0x4000_0000
        &&& spawn_safe(self.player_spec(PlayerId::One).generator_spec())
        &&& spawn_safe(self.player_spec(PlayerId::Two).generator_spec())
    }

    fn record_expired(&mut self, player: PlayerId, expired: &Vec<WeaponToken>)
        requires
            old(self).wf(),
        ensures
            final(self).wf(),
            old(self).same_settings_but_log(*final(self)),
            log_extended(
                old(self).log@,
                final(self).log@,
                expired@.map_values(|t: WeaponToken| BattleEvent::TimedWeaponExpired { player, token: t }),
            ),
    {
        let ghost base = self.log@;
        let ghost all = expired@.map_values(|t: WeaponToken| BattleEvent::TimedWeaponExpired { player, token: t });
        assert(base.subrange(0, base.len() as int) =~= base);
        let mut k: usize = 0;
        while k < expired.len()
            invariant
                k <= expired@.len(),
                self.wf(),
                all == expired@.map_values(|t: WeaponToken| BattleEvent::TimedWeaponExpired { player, token: t }),
                log_extended(base, self.log@, all.take(k as int)),
                old(self).same_settings_but_log(*self),
            decreases expired@.len() - k,
        {
            let ghost before = self.log@;
            self.record(BattleEvent::TimedWeaponExpired { player, token: expired[k] });
            proof {
                let next = all.take(k as int + 1);
                assert forall|i: int| 0 <= i < next.len() implies #[trigger] self.log@[base.len() + i] == (LoggedEvent {
                    sequence: (base.len() + i) as u64,
                    event: next[i],
                }) by {
                    if i < k {
                        assert(self.log@[base.len() + i] == before[base.len() + i]);
                        assert(all.take(k as int)[i] == next[i]);
                    }
                }
                assert(self.log@.subrange(0, base.len() as int) =~= base) by {
                    assert forall|j: int| 0 <= j < base.len() implies self.log@[j] == base[j] by {
                        assert(self.log@[j] == before[j]);
                        assert(before.subrange(0, base.len() as int)[j] == before[j]);
                    }
                }
            }
            k = k + 1;
        }
        assert(all.take(expired@.len() as int) =~= all);
    }
}


/// A deferred spawn is due: the loop waits for its next piece and is not over.
pub open spec fn deferred_spawn_due(game: PieceLoop) -> bool {
    game.pending_spec() && !game.game_over_spec()
}

/// The opponent's share of a Mondale tax on the funds of the last line clear: 30/70 of
/// them, rounded toward zero.
pub open spec fn mondale_share(funds: Option<i32>) -> int {
    match funds {
        Some(f) => if f >= 0 { (f * 30) / 70 } else { -((-f * 30) / 70) },
        None => 0,
    }
}

/// What a line clear of `lines` lines by `player` does: the player's timed effects count
/// down, the opponent's spy effects count down, the opponent receives the Mondale share of
/// the player's last line-clear funds, an active Lawyers raises that many garbage lines on
/// the opponent, and the expiries are logged in that order.
pub open spec fn line_clear_effect(old: TwoPlayerGame, new: TwoPlayerGame, player: PlayerId, lines: u32) -> bool {
    let opponent = opponent_of(player);
    let mine = old.player_spec(player);
    let theirs = old.player_spec(opponent);
    let spies = crate::weapons::clear_for(theirs.effects(), lines, seq![WeaponToken::Ames, WeaponToken::Ace, WeaponToken::Condor]);
    let expired = crate::weapons::expired_prefix(mine.effects(), lines, 34);
    &&& forall|i: int| 0 <= i < 34 ==> #[trigger] new.player_spec(player).effects()[i] == crate::weapons::sat_sub(mine.effects()[i], lines)
    &&& new.player_spec(player).score_spec() == mine.score_spec()
    &&& new.player_spec(opponent).effects() == spies.0
    &&& new.player_spec(opponent).score_spec().funds_of() == theirs.score_spec().funds_of()
        + mondale_share(last_clear_funds(old.log_spec(), player, old.log_spec().len() as int))
    &&& (mine.effects()[token_id(WeaponToken::Lawyers)] > 0 ==> raised_by(theirs.board_view(), new.player_spec(opponent).board_view(), lines as int))
    &&& (mine.effects()[token_id(WeaponToken::Lawyers)] == 0 ==> new.player_spec(opponent).board_view() == theirs.board_view())
    &&& log_extended(
        old.log_spec(),
        new.log_spec(),
        expired.map_values(|t: WeaponToken| BattleEvent::TimedWeaponExpired { player, token: t })
            + recon_expiry_events(opponent, player, spies.1),
    )
}

/// Two log extensions in a row extend the log by both event lists.
proof fn lemma_log_extended_concat(
    a: Seq<LoggedEvent>,
    b: Seq<LoggedEvent>,
    c: Seq<LoggedEvent>,
    e1: Seq<BattleEvent>,
    e2: Seq<BattleEvent>,
)
    requires
        log_extended(a, b, e1),
        log_extended(b, c, e2),
    ensures
        log_extended(a, c, e1 + e2),
{
    assert(c.subrange(0, a.len() as int) =~= a) by {
        assert forall|j: int| 0 <= j < a.len() implies c.subrange(0, a.len() as int)[j] == a[j] by {
            assert(c.subrange(0, b.len() as int)[j] == c[j]);
            assert(b.subrange(0, a.len() as int)[j] == b[j]);
        }
    }
    assert forall|i: int| 0 <= i < (e1 + e2).len() implies #[trigger] c[a.len() + i] == (LoggedEvent {
        sequence: (a.len() + i) as u64,
        event: (e1 + e2)[i],
    }) by {
        if i < e1.len() {
            assert(b[a.len() + i] == (LoggedEvent { sequence: (a.len() + i) as u64, event: e1[i] }));
            assert(c.subrange(0, b.len() as int)[a.len() + i] == c[a.len() + i]);
        } else {
            let j = i - e1.len();
            assert(c[b.len() + j] == (LoggedEvent { sequence: (b.len() + j) as u64, event: e2[j] }));
        }
    }
}

/// What observing the bazaar after a line clear does: outside play nothing changes;
/// in play the countdown is reset from the combined line total, and when it wraps the
/// bazaar opens with fresh sessions and is logged.
pub open spec fn bazaar_observed(old: TwoPlayerGame, new: TwoPlayerGame) -> bool {
    &&& old.phase_spec() != GamePhase::Playing ==> new == old
    &&& new.mode_spec() == old.mode_spec()
    &&& new.log_spec().len() >= old.log_spec().len()
    &&& new.log_spec().subrange(0, old.log_spec().len() as int) == old.log_spec()
    &&& old.phase_spec() == GamePhase::Playing ==> {
        let next = crate::score::lines_until_next_bazaar(
            old.player_spec(PlayerId::One).score_spec().lines_of() + old.player_spec(PlayerId::Two).score_spec().lines_of(),
        );
        &&& new.bazaar_spec().remaining() == next
        &&& new.player_spec(PlayerId::One) == old.player_spec(PlayerId::One)
        &&& new.player_spec(PlayerId::Two) == old.player_spec(PlayerId::Two)
        &&& new.incoming_spec(PlayerId::One) == old.incoming_spec(PlayerId::One)
        &&& new.incoming_spec(PlayerId::Two) == old.incoming_spec(PlayerId::Two)
        &&& new.cached_spec(PlayerId::One) == old.cached_spec(PlayerId::One)
        &&& new.cached_spec(PlayerId::Two) == old.cached_spec(PlayerId::Two)
        &&& if next > old.bazaar_spec().remaining() {
            &&& new.phase_spec() == GamePhase::Bazaar
            &&& !new.done_spec(PlayerId::One)
            &&& !new.done_spec(PlayerId::Two)
            &&& session_opened(new.session_spec(PlayerId::One), old.player_spec(PlayerId::One))
            &&& session_opened(new.session_spec(PlayerId::Two), old.player_spec(PlayerId::Two))
            &&& new.log_spec() == old.log_spec().push(next_entry(old.log_spec(), BattleEvent::BazaarEntered))
        } else {
            &&& new.phase_spec() == GamePhase::Playing
            &&& new.log_spec() == old.log_spec()
            &&& new.session_spec(PlayerId::One) == old.session_spec(PlayerId::One)
            &&& new.session_spec(PlayerId::Two) == old.session_spec(PlayerId::Two)
        }
    }
}

/// What follows a placement, seen from the placing player: their incoming weapons are
/// all applied, and a deferred spawn that was due happens and is logged last, `failed`
/// telling whether it failed; otherwise nothing spawns.
pub open spec fn placement_effect(old: TwoPlayerGame, new: TwoPlayerGame, player: PlayerId, failed: bool) -> bool {
    &&& new.log_spec().len() >= old.log_spec().len()
    &&& new.log_spec().subrange(0, old.log_spec().len() as int) == old.log_spec()
    &&& new.mode_spec() == old.mode_spec()
    &&& new.phase_spec() == old.phase_spec()
    &&& new.incoming_spec(player).len() == 0
    &&& deferred_spawn_due(old.player_spec(player)) ==> {
        &&& !new.player_spec(player).pending_spec()
        &&& new.log_spec().len() > old.log_spec().len()
        &&& new.log_spec().last().event matches BattleEvent::PlayerEvent { player: p, event: e }
        &&& p == player
        &&& spawn_event_kind(e) is Some
        &&& failed == e is SpawnFailed
        &&& failed == new.player_spec(player).game_over_spec()
    }
    &&& !deferred_spawn_due(old.player_spec(player)) ==> {
        &&& !failed
        &&& new.player_spec(player).pending_spec() == old.player_spec(player).pending_spec()
        &&& new.player_spec(player).game_over_spec() == old.player_spec(player).game_over_spec()
    }
}

/// What ending the game with `loser` dying does: the game is over, and unless it already
/// was, the death and the result are logged.
pub open spec fn game_finished(old: TwoPlayerGame, new: TwoPlayerGame, loser: PlayerId) -> bool {
    &&& new.phase_spec() == GamePhase::GameOver
    &&& new.mode_spec() == old.mode_spec()
    &&& new.player_spec(PlayerId::One) == old.player_spec(PlayerId::One)
    &&& new.player_spec(PlayerId::Two) == old.player_spec(PlayerId::Two)
    &&& old.phase_spec() == GamePhase::GameOver ==> new.log_spec() == old.log_spec()
    &&& old.phase_spec() != GamePhase::GameOver ==> new.log_spec() == old.log_spec().push(
        next_entry(old.log_spec(), BattleEvent::PlayerDied { player: loser }),
    ).push(LoggedEvent {
        sequence: (old.log_spec().len() + 1) as u64,
        event: BattleEvent::GameOver { winner: opponent_of(loser), loser },
    })
}

/// The stages of processing one player's step events, through `recorded` (the events
/// logged), `cleared` (after what a line clear brings) and `placed` (after what a placement
/// brings), with `failed_now` telling whether the deferred spawn failed: a failed spawn
/// ends the game, and otherwise a line clear lets the bazaar countdown move on.
pub open spec fn processing_stages(
    old: TwoPlayerGame,
    recorded: TwoPlayerGame,
    cleared: TwoPlayerGame,
    placed: TwoPlayerGame,
    new: TwoPlayerGame,
    player: PlayerId,
    events: Seq<CoreEvent>,
    failed_now: bool,
) -> bool {
    let lines = last_cleared_lines(events);
    &&& recorded.player_spec(PlayerId::One) == old.player_spec(PlayerId::One)
    &&& recorded.player_spec(PlayerId::Two) == old.player_spec(PlayerId::Two)
    &&& recorded.phase_spec() == old.phase_spec()
    &&& recorded.mode_spec() == old.mode_spec()
    &&& recorded.incoming_spec(PlayerId::One) == old.incoming_spec(PlayerId::One)
    &&& recorded.incoming_spec(PlayerId::Two) == old.incoming_spec(PlayerId::Two)
    &&& recorded.cached_spec(PlayerId::One) == old.cached_spec(PlayerId::One)
    &&& recorded.cached_spec(PlayerId::Two) == old.cached_spec(PlayerId::Two)
    &&& recorded.log_spec().len() == old.log_spec().len() + events.len()
    &&& recorded.log_spec().subrange(0, old.log_spec().len() as int) == old.log_spec()
    &&& forall|i: int| 0 <= i < events.len() ==> (#[trigger] recorded.log_spec()[old.log_spec().len() + i]).event
        == (BattleEvent::PlayerEvent { player, event: events[i] })
    &&& if lines > 0 {
        &&& line_clear_effect(recorded, cleared, player, lines)
        &&& cleared.phase_spec() == recorded.phase_spec()
        &&& cleared.mode_spec() == recorded.mode_spec()
    } else {
        cleared == recorded
    }
    &&& if lines > 0 || saw_lock(events) {
        placement_effect(cleared, placed, player, failed_now)
    } else {
        placed == cleared && !failed_now
    }
    &&& if saw_spawn_failure(events) || failed_now {
        game_finished(placed, new, player)
    } else if lines > 0 {
        bazaar_observed(placed, new)
    } else {
        new == placed
    }
}

/// What processing one player's step events does: some run of the stages above.
pub open spec fn events_processed(old: TwoPlayerGame, new: TwoPlayerGame, player: PlayerId, events: Seq<CoreEvent>) -> bool {
    exists|recorded: TwoPlayerGame, cleared: TwoPlayerGame, placed: TwoPlayerGame, failed_now: bool|
        #[trigger] processing_stages(old, recorded, cleared, placed, new, player, events, failed_now)
}

impl TwoPlayerGame {
    /// The game with one player's loop replaced.
    pub closed spec fn with_loop(self, player: PlayerId, game: PieceLoop) -> TwoPlayerGame {
        match player {
            PlayerId::One => TwoPlayerGame { player_one: game, ..self },
            PlayerId::Two => TwoPlayerGame { player_two: game, ..self },
        }
    }
}

impl TwoPlayerGame {
    /// Room for placing a piece after a line clear was processed: like `process_room`, with the
    /// funds a Mondale tax may have added.
    pub open spec fn placement_room(&self) -> bool {
        &&& abs(self.player_spec(PlayerId::One).score_spec().funds_of() as int) <= 0x240_0000
        &&& abs(self.player_spec(PlayerId::Two).score_spec().funds_of() as int) <= 0x240_0000
        &&& abs(self.cached_spec(PlayerId::One) as int) <= 0x200_0000
        &&& abs(self.cached_spec(PlayerId::Two) as int) <= 0x200_0000
        &&& self.incoming_spec(PlayerId::One).len() <= 8
        &&& self.incoming_spec(PlayerId::Two).len() <= 8
        &&& self.player_spec(PlayerId::One).score_spec().lines_of() <= 0x4000_0000
        &&& self.player_spec(PlayerId::Two).score_spec().lines_of() <= 0x4000_0000
        &&& spawn_safe(self.player_spec(PlayerId::One).generator_spec())
        &&& spawn_safe(self.player_spec(PlayerId::Two).generator_spec())
    }

    /// What follows a line clear: timed effects of the clearing player and recon of the
    /// opponent count down, a Mondale tax pays the opponent, and Lawyers raise garbage on them.
    fn process_line_clear(&mut self, player: PlayerId, lines: u32)
        requires
            old(self).wf(),
            old(self).process_room(),
            lines > 0,
        ensures
            final(self).wf(),
            final(self).placement_room(),
            final(self).log@.len() >= old(self).log@.len(),
            final(self).log@.subrange(0, old(self).log@.len() as int) == old(self).log@,
            final(self).mode_spec() == old(self).mode_spec(),
            final(self).phase_spec() == old(self).phase_spec(),
            final(self).player_spec(PlayerId::One).score_spec().lines_of() == old(self).player_spec(PlayerId::One).score_spec().lines_of(),
            final(self).player_spec(PlayerId::Two).score_spec().lines_of() == old(self).player_spec(PlayerId::Two).score_spec().lines_of(),
            line_clear_effect(*old(self), *final(self), player, lines),
    {
        let opponent = player.opponent();
        let ghost g0 = self.player_spec(player).generator_spec();
        let ghost h0 = self.player_spec(opponent).generator_spec();
        let ghost s0 = *self;
        let lawyer_active = match player {
            PlayerId::One => self.player_one.active_effects.is_active(WeaponToken::Lawyers),
            PlayerId::Two => self.player_two.active_effects.is_active(WeaponToken::Lawyers),
        };
        let last_funds = self.last_lines_cleared_funds(player);
        let mondale_tax: i32 = match last_funds {
            Some(funds) => funds * 30 / 70,
            None => 0,
        };
        assert(mondale_tax == mondale_share(last_funds));
        let expired = match player {
            PlayerId::One => self.player_one.observe_effect_line_clear(lines),
            PlayerId::Two => self.player_two.observe_effect_line_clear(lines),
        };
        proof {
            lemma_spawn_safe_kept(g0, self.player_spec(player).generator_spec());
        }
        let ghost l1 = self.log@;
        let ghost s1 = *self;
        self.record_expired(player, &expired);
        let ghost l2 = self.log@;
        let ghost s2 = *self;
        self.observe_recon_line_clear(player, lines);
        let ghost s3 = *self;
        if mondale_tax != 0 {
            match opponent {
                PlayerId::One => self.player_one.add_funds(mondale_tax),
                PlayerId::Two => self.player_two.add_funds(mondale_tax),
            }
        }
        let ghost s4 = *self;
        if lawyer_active {
            let ghost h1 = self.player_spec(opponent).generator_spec();
            match opponent {
                PlayerId::One => self.player_one.raise_garbage(lines),
                PlayerId::Two => self.player_two.raise_garbage(lines),
            }
            proof {
                lemma_spawn_safe_kept(h1, self.player_spec(opponent).generator_spec());
            }
        }
        proof {
            assert(self.log@.subrange(0, l2.len() as int) == l2);
            assert(self.log@.subrange(0, old(self).log@.len() as int) =~= old(self).log@) by {
                assert forall|j: int| 0 <= j < old(self).log@.len() implies self.log@[j] == old(self).log@[j] by {
                    assert(self.log@.subrange(0, l2.len() as int)[j] == self.log@[j]);
                    assert(l2.subrange(0, l1.len() as int)[j] == l2[j]);
                }
            }
            let spies = seq![WeaponToken::Ames, WeaponToken::Ace, WeaponToken::Condor];
            let outcome = crate::weapons::clear_for(s0.player_spec(opponent).effects(), lines, spies);
            assert(s2.player_spec(opponent) == s0.player_spec(opponent));
            lemma_log_extended_concat(
                s0.log@,
                l2,
                self.log@,
                expired@.map_values(|t: WeaponToken| BattleEvent::TimedWeaponExpired { player, token: t }),
                recon_expiry_events(opponent, player, outcome.1),
            );
            assert(s4.player_spec(opponent).board_view() == s0.player_spec(opponent).board_view());
        }
    }

    /// What follows a placement: recon reports on the player, their queued weapons land, and
    /// their deferred piece spawns; returns whether that spawn failed.
    #[verifier::rlimit(40)]
    #[verifier::spinoff_prover]
    fn process_placement(&mut self, player: PlayerId, lines: u32) -> (failed: bool)
        requires
            old(self).wf(),
            old(self).placement_room(),
        ensures
            final(self).wf(),
            final(self).log@.len() >= old(self).log@.len(),
            final(self).log@.subrange(0, old(self).log@.len() as int) == old(self).log@,
            final(self).mode_spec() == old(self).mode_spec(),
            final(self).phase_spec() == old(self).phase_spec(),
            final(self).player_spec(PlayerId::One).score_spec().lines_of() == old(self).player_spec(PlayerId::One).score_spec().lines_of(),
            final(self).player_spec(PlayerId::Two).score_spec().lines_of() == old(self).player_spec(PlayerId::Two).score_spec().lines_of(),
            final(self).incoming_spec(player).len() == 0,
            placement_effect(*old(self), *final(self), player, failed),
    {
        let ghost l0 = self.log@;
        self.emit_recon_updates(player, lines);
        let ghost l1 = self.log@;
        let ghost g1 = self.player_spec(player).generator_spec();
        self.flush_incoming_weapons(player);
        proof {
            lemma_spawn_safe_kept(g1, self.player_spec(player).generator_spec());
            lemma_spawn_safe(self.player_spec(player).generator_spec());
        }
        let ghost l2 = self.log@;
        let spawn_events = match player {
            PlayerId::One => self.player_one.spawn_deferred_piece(),
            PlayerId::Two => self.player_two.spawn_deferred_piece(),
        };
        let ghost spawned = spawn_events@;
        let (failed, _, _) = scan_events(&spawn_events);
        let ghost base = self.log@;
        self.record_player_events(player, spawn_events);
        proof {
            if spawned.len() == 1 {
                let k: int = 0;
                assert(self.log@[base.len() + k].event == BattleEvent::PlayerEvent { player, event: spawned[k] });
                assert(base.len() == l2.len());
                assert(self.log_spec().last() == self.log@[l2.len() as int]);
                if spawned[0] is SpawnFailed {
                    assert(saw_spawn_failure(spawned));
                }
            }
            assert(l1.subrange(0, l0.len() as int) =~= l0);
            assert(self.log@.subrange(0, l0.len() as int) =~= l0) by {
                assert forall|j: int| 0 <= j < l0.len() implies self.log@[j] == l0[j] by {
                    assert(self.log@.subrange(0, l2.len() as int)[j] == self.log@[j]);
                    assert(l2.subrange(0, l1.len() as int)[j] == l2[j]);
                    assert(l1.subrange(0, l0.len() as int)[j] == l1[j]);
                }
            }
        }
        failed
    }

    fn record_and_process_player_events(&mut self, player: PlayerId, events: Vec<CoreEvent>) -> (r: Vec<LoggedEvent>)
        requires
            old(self).wf(),
            old(self).process_room(),
            core_events_bounded(events@),
        ensures
            final(self).wf(),
            appended(old(self).log_spec(), final(self).log_spec(), r@),
            final(self).log_spec().len() >= old(self).log_spec().len() + events@.len(),
            forall|i: int|
                0 <= i < events@.len() ==> (#[trigger] final(self).log_spec()[old(self).log_spec().len() + i]).event
                    == (BattleEvent::PlayerEvent { player, event: events@[i] }),
            saw_spawn_failure(events@) ==> final(self).phase_spec() == GamePhase::GameOver,
            final(self).mode_spec() == old(self).mode_spec(),
            events_processed(*old(self), *final(self), player, events@),
    {
        let ghost ev = events@;
        let start = self.log.len();
        let (mut saw_spawn_failed, saw_piece_lock, lines_cleared) = scan_events(&events);
        self.record_player_events(player, events);
        let ghost recorded = self.log@;
        let ghost g_recorded = *self;
        if lines_cleared > 0 {
            self.process_line_clear(player, lines_cleared);
        }
        let ghost l1 = self.log@;
        let ghost g_cleared = *self;
        let ghost mut failed_ghost = false;
        if lines_cleared > 0 || saw_piece_lock {
            let failed_now = self.process_placement(player, lines_cleared);
            proof {
                failed_ghost = failed_now;
            }
            saw_spawn_failed = saw_spawn_failed || failed_now;
        }
        let ghost l2 = self.log@;
        let ghost g_placed = *self;
        if saw_spawn_failed {
            self.finish_game(player);
        } else if lines_cleared > 0 {
            self.observe_bazaar();
        }
        let r = log_suffix(&self.log, start);
        proof {
            assert(self.log@.subrange(0, recorded.len() as int) =~= recorded) by {
                assert forall|j: int| 0 <= j < recorded.len() implies self.log@[j] == recorded[j] by {
                    assert(self.log@.subrange(0, l2.len() as int)[j] == self.log@[j]);
                    assert(l2.subrange(0, l1.len() as int)[j] == l2[j]);
                    assert(l1.subrange(0, recorded.len() as int)[j] == l1[j]);
                }
            }
            assert(self.log@.subrange(0, start as int) =~= old(self).log@) by {
                assert forall|j: int| 0 <= j < start implies self.log@[j] == old(self).log@[j] by {
                    assert(self.log@.subrange(0, recorded.len() as int)[j] == self.log@[j]);
                    assert(recorded.subrange(0, start as int)[j] == recorded[j]);
                }
            }
            assert forall|i: int| 0 <= i < events@.len() implies #[trigger] self.log@[start + i] == recorded[start + i] by {
                assert(self.log@.subrange(0, recorded.len() as int)[start + i] == self.log@[start + i]);
            }
            assert(g_recorded.incoming_spec(PlayerId::One) == old(self).incoming_spec(PlayerId::One));
            assert(g_recorded.incoming_spec(PlayerId::Two) == old(self).incoming_spec(PlayerId::Two));
            assert(processing_stages(*old(self), g_recorded, g_cleared, g_placed, *self, player, ev, failed_ghost));
            assert(events_processed(*old(self), *self, player, ev));
        }
        r
    }
}


impl TwoPlayerGame {
    /// Applies a command to one player if the game is actively playing.
    pub fn command(&mut self, player: PlayerId, command: Command) -> (r: Vec<LoggedEvent>)
        requires
            old(self).wf(),
            old(self).economy_ok(),
        ensures
            final(self).wf(),
            final(self).mode_spec() == old(self).mode_spec(),
            old(self).phase_spec() != GamePhase::Playing ==> r@.len() == 0 && *final(self) == *old(self),
            old(self).phase_spec() == GamePhase::Playing ==> {
                &&& appended(old(self).log_spec(), final(self).log_spec(), r@)
                &&& exists|after: PieceLoop, events: Seq<CoreEvent>|
                    #![trigger command_result(old(self).player_spec(player), after, command, events)]
                    {
                    &&& command_result(old(self).player_spec(player), after, command, events)
                    &&& player_events_logged(*old(self), *final(self), player, events)
                    &&& events_processed(old(self).with_loop(player, after), *final(self), player, events)
                }
            },
    {
        if self.phase != GamePhase::Playing {
            return Vec::new();
        }
        let ghost before = self.player_spec(player);
        proof {
            lemma_economy_fast_drop(self.player_one);
            lemma_economy_fast_drop(self.player_two);
        }
        let events = match player {
            PlayerId::One => self.player_one.command(command),
            PlayerId::Two => self.player_two.command(command),
        };
        let ghost after = self.player_spec(player);
        let ghost ev = events@;
        assert(*self == old(self).with_loop(player, after));
        let r = self.record_and_process_player_events(player, events);
        assert(command_result(before, after, command, ev));
        assert(player_events_logged(*old(self), *self, player, ev));
        r
    }

    /// Advances one player's clock if the game is actively playing.
    pub fn tick_player(&mut self, player: PlayerId, elapsed_ms: u64) -> (r: Vec<LoggedEvent>)
        requires
            old(self).wf(),
            old(self).economy_ok(),
            old(self).player_spec(player).drop_elapsed() + elapsed_ms <= u64::MAX,
            old(self).player_spec(player).slide_elapsed() matches Some(t) ==> t + elapsed_ms <= u64::MAX,
        ensures
            final(self).wf(),
            final(self).mode_spec() == old(self).mode_spec(),
            old(self).phase_spec() != GamePhase::Playing ==> r@.len() == 0 && *final(self) == *old(self),
            old(self).phase_spec() == GamePhase::Playing ==> {
                &&& appended(old(self).log_spec(), final(self).log_spec(), r@)
                &&& exists|after: PieceLoop, events: Seq<CoreEvent>|
                    #![trigger tick_frame(old(self).player_spec(player), after), player_events_logged(*old(self), *final(self), player, events)]
                    {
                    &&& tick_frame(old(self).player_spec(player), after)
                    &&& (old(self).player_spec(player).game_over_spec() ==> events.len() == 0)
                    &&& player_events_logged(*old(self), *final(self), player, events)
                    &&& tick_result(old(self).player_spec(player), after, elapsed_ms, false, events)
                    &&& events_processed(old(self).with_loop(player, after), *final(self), player, events)
                }
            },
    {
        if self.phase != GamePhase::Playing {
            return Vec::new();
        }
        let ghost before = self.player_spec(player);
        proof {
            lemma_tick_locks_fit(self.player_one, elapsed_ms);
            lemma_tick_locks_fit(self.player_two, elapsed_ms);
        }
        let events = match player {
            PlayerId::One => self.player_one.tick_deferred_spawn(elapsed_ms),
            PlayerId::Two => self.player_two.tick_deferred_spawn(elapsed_ms),
        };
        let ghost after = self.player_spec(player);
        let ghost ev = events@;
        assert(*self == old(self).with_loop(player, after));
        let r = self.record_and_process_player_events(player, events);
        proof {
            assert(before == old(self).player_spec(player));
            assert(tick_frame(old(self).player_spec(player), after));
            assert(old(self).player_spec(player).game_over_spec() ==> ev.len() == 0);
            assert(player_events_logged(*old(self), *self, player, ev));
        }
        r
    }
}


/// The events a player's step produced stand, in order, right after the log `before` had,
/// and a spawn failure among them has ended the game.
pub open spec fn player_events_logged(before: TwoPlayerGame, after: TwoPlayerGame, player: PlayerId, events: Seq<CoreEvent>) -> bool {
    &&& after.log_spec().len() >= before.log_spec().len() + events.len()
    &&& forall|i: int| 0 <= i < events.len() ==> (#[trigger] after.log_spec()[before.log_spec().len() + i]).event
        == (BattleEvent::PlayerEvent { player, event: events[i] })
    &&& (saw_spawn_failure(events) ==> after.phase_spec() == GamePhase::GameOver)
}

/// Why shopping is refused, if it is: the bazaar is closed, the player is done, or no session
/// is open.
pub open spec fn shopping_refusal(game: TwoPlayerGame, player: PlayerId) -> Option<ShoppingError> {
    if game.phase_spec() != GamePhase::Bazaar {
        Some(ShoppingError::BazaarClosed)
    } else if game.done_spec(player) {
        Some(ShoppingError::PlayerDone)
    } else if game.session_spec(player) is None {
        Some(ShoppingError::BazaarClosed)
    } else {
        None
    }
}

/// The session's own answer inside a shopping result.
pub open spec fn session_result<T>(r: Result<T, ShoppingError>) -> Result<T, BazaarError> {
    match r {
        Ok(v) => Ok(v),
        Err(ShoppingError::Bazaar(e)) => Err(e),
        Err(_) => Err(BazaarError::Arsenal(ArsenalError::Full)),
    }
}

impl TwoPlayerGame {
    /// Everything but one player's bazaar session is unchanged.
    pub closed spec fn same_but_session(&self, other: TwoPlayerGame, player: PlayerId) -> bool {
        match player {
            PlayerId::One => other == TwoPlayerGame { session_one: other.session_one, ..*self },
            PlayerId::Two => other == TwoPlayerGame { session_two: other.session_two, ..*self },
        }
    }

    /// Stages one bazaar purchase for a player.
    pub fn bazaar_buy(&mut self, player: PlayerId, token: WeaponToken) -> (r: Result<usize, ShoppingError>)
        requires
            old(self).wf(),
            old(self).session_spec(player) matches Some(b) ==> (crate::weapons::buy_slot(b.arsenal_of(), token) matches Some(
                i,
            ) ==> (b.arsenal_of()[i] matches Some(s) ==> s.quantity < u32::MAX)),
        ensures
            final(self).wf(),
            match shopping_refusal(*old(self), player) {
                Some(e) => r == Err::<usize, ShoppingError>(e) && *final(self) == *old(self),
                None => {
                    &&& old(self).same_but_session(*final(self), player)
                    &&& final(self).session_spec(player) matches Some(nb)
                    &&& (r is Ok || r matches Err(ShoppingError::Bazaar(_)))
                    &&& crate::weapons::bought(old(self).session_spec(player)->0, nb, token, session_result(r))
                },
            },
    {
        if self.phase != GamePhase::Bazaar {
            return Err(ShoppingError::BazaarClosed);
        }
        let done = match player {
            PlayerId::One => self.done_one,
            PlayerId::Two => self.done_two,
        };
        if done {
            return Err(ShoppingError::PlayerDone);
        }
        let taken = match player {
            PlayerId::One => self.session_one.take(),
            PlayerId::Two => self.session_two.take(),
        };
        let mut session = match taken {
            Some(b) => b,
            None => {
                return Err(ShoppingError::BazaarClosed);
            },
        };
        let ghost before = session;
        let outcome = session.buy(token);
        match player {
            PlayerId::One => self.session_one = Some(session),
            PlayerId::Two => self.session_two = Some(session),
        }
        let r = match outcome {
            Ok(i) => Ok(i),
            Err(e) => Err(ShoppingError::Bazaar(e)),
        };
        assert(session_result(r) == outcome);
        r
    }

    /// Removes one newly staged bazaar purchase for a player.
    pub fn bazaar_remove_staged(&mut self, player: PlayerId, token: WeaponToken) -> (r: Result<(), ShoppingError>)
        requires
            old(self).wf(),
        ensures
            final(self).wf(),
            match shopping_refusal(*old(self), player) {
                Some(e) => r == Err::<(), ShoppingError>(e) && *final(self) == *old(self),
                None => {
                    &&& old(self).same_but_session(*final(self), player)
                    &&& final(self).session_spec(player) matches Some(nb)
                    &&& (r is Ok || r matches Err(ShoppingError::Bazaar(_)))
                    &&& crate::weapons::unstaged(old(self).session_spec(player)->0, nb, token, session_result(r))
                },
            },
    {
        if self.phase != GamePhase::Bazaar {
            return Err(ShoppingError::BazaarClosed);
        }
        let done = match player {
            PlayerId::One => self.done_one,
            PlayerId::Two => self.done_two,
        };
        if done {
            return Err(ShoppingError::PlayerDone);
        }
        let taken = match player {
            PlayerId::One => self.session_one.take(),
            PlayerId::Two => self.session_two.take(),
        };
        let mut session = match taken {
            Some(b) => b,
            None => {
                return Err(ShoppingError::BazaarClosed);
            },
        };
        let ghost before = session;
        let outcome = session.remove_staged(token);
        match player {
            PlayerId::One => self.session_one = Some(session),
            PlayerId::Two => self.session_two = Some(session),
        }
        let r = match outcome {
            Ok(v) => Ok(v),
            Err(e) => Err(ShoppingError::Bazaar(e)),
        };
        assert(session_result(r) == outcome);
        r
    }

    /// Returns a player's staged bazaar session while the bazaar is open.
    pub fn bazaar_session(&self, player: PlayerId) -> (r: Option<&Bazaar>)
        ensures
            r is Some <==> self.session_spec(player) is Some,
            r matches Some(b) ==> *b == self.session_spec(player)->0,
    {
        match player {
            PlayerId::One => match &self.session_one {
                Some(b) => Some(b),
                None => None,
            },
            PlayerId::Two => match &self.session_two {
                Some(b) => Some(b),
                None => None,
            },
        }
    }

    /// Marks a player done in bazaar. Play resumes when both players are done.
    pub fn bazaar_done(&mut self, player: PlayerId) -> (r: Vec<LoggedEvent>)
        requires
            old(self).wf(),
        ensures
            final(self).wf(),
            old(self).phase_spec() != GamePhase::Bazaar || old(self).done_spec(player) ==> r@.len() == 0
                && *final(self) == *old(self),
            old(self).phase_spec() == GamePhase::Bazaar && !old(self).done_spec(player) ==> {
                &&& appended(old(self).log_spec(), final(self).log_spec(), r@)
                &&& final(self).mode_spec() == old(self).mode_spec()
                &&& if old(self).done_spec(opponent_of(player)) {
                    &&& final(self).phase_spec() == GamePhase::Playing
                    &&& !final(self).done_spec(PlayerId::One)
                    &&& !final(self).done_spec(PlayerId::Two)
                    &&& final(self).session_spec(PlayerId::One) is None
                    &&& final(self).session_spec(PlayerId::Two) is None
                    &&& final(self).log_spec() == old(self).log_spec().push(
                        next_entry(old(self).log_spec(), BattleEvent::BazaarPlayerDone { player }),
                    ).push(
                        LoggedEvent { sequence: (old(self).log_spec().len() + 1) as u64, event: BattleEvent::BazaarLeft },
                    )
                    &&& match old(self).session_spec(PlayerId::One) {
                        None => final(self).player_spec(PlayerId::One) == old(self).player_spec(PlayerId::One),
                        Some(b) => final(self).player_spec(PlayerId::One).arsenal_spec()@ == b.arsenal_of()
                            && final(self).player_spec(PlayerId::One).score_spec().funds_of() == b.funds_of(),
                    }
                    &&& match old(self).session_spec(PlayerId::Two) {
                        None => final(self).player_spec(PlayerId::Two) == old(self).player_spec(PlayerId::Two),
                        Some(b) => final(self).player_spec(PlayerId::Two).arsenal_spec()@ == b.arsenal_of()
                            && final(self).player_spec(PlayerId::Two).score_spec().funds_of() == b.funds_of(),
                    }
                } else {
                    &&& final(self).phase_spec() == GamePhase::Bazaar
                    &&& final(self).done_spec(player)
                    &&& !final(self).done_spec(opponent_of(player))
                    &&& final(self).session_spec(PlayerId::One) == old(self).session_spec(PlayerId::One)
                    &&& final(self).session_spec(PlayerId::Two) == old(self).session_spec(PlayerId::Two)
                    &&& final(self).player_spec(PlayerId::One) == old(self).player_spec(PlayerId::One)
                    &&& final(self).player_spec(PlayerId::Two) == old(self).player_spec(PlayerId::Two)
                    &&& final(self).log_spec() == old(self).log_spec().push(
                        next_entry(old(self).log_spec(), BattleEvent::BazaarPlayerDone { player }),
                    )
                }
            },
    {
        if self.phase != GamePhase::Bazaar {
            return Vec::new();
        }
        let done = match player {
            PlayerId::One => self.done_one,
            PlayerId::Two => self.done_two,
        };
        if done {
            return Vec::new();
        }
        match player {
            PlayerId::One => self.done_one = true,
            PlayerId::Two => self.done_two = true,
        }
        let start = self.log.len();
        self.record(BattleEvent::BazaarPlayerDone { player });
        if self.done_one && self.done_two {
            self.commit_bazaar_sessions();
            self.done_one = false;
            self.done_two = false;
            self.session_one = None;
            self.session_two = None;
            self.phase = GamePhase::Playing;
            self.record(BattleEvent::BazaarLeft);
        }
        let r = log_suffix(&self.log, start);
        assert(self.log@.subrange(0, start as int) =~= old(self).log@);
        r
    }
}

/// The removable cell a scan finds first is the same on every run.
proof fn lemma_scan_removed_unique(b: Seq<Option<Cell>>, n1: Seq<Option<Cell>>, n2: Seq<Option<Cell>>, sx: int, sy: int)
    requires
        scan_removed(b, n1, sx, sy),
        scan_removed(b, n2, sx, sy),
    ensures
        n1 == n2,
{
    if exists|k: int| 0 <= k < 280 && {
        &&& crate::board::slot_removable(at(b, #[trigger] crate::board::scan_x(sx, k), crate::board::scan_y(sy, k)))
        &&& forall|k2: int| 0 <= k2 < k ==> !crate::board::slot_removable(
            #[trigger] at(b, crate::board::scan_x(sx, k2), crate::board::scan_y(sy, k2)))
        &&& n1 == b.update(crate::board::cell_index(crate::board::scan_x(sx, k), crate::board::scan_y(sy, k)), None)
    } {
        let k1 = choose|k: int| 0 <= k < 280 && {
            &&& crate::board::slot_removable(at(b, #[trigger] crate::board::scan_x(sx, k), crate::board::scan_y(sy, k)))
            &&& forall|k2: int| 0 <= k2 < k ==> !crate::board::slot_removable(
                #[trigger] at(b, crate::board::scan_x(sx, k2), crate::board::scan_y(sy, k2)))
            &&& n1 == b.update(crate::board::cell_index(crate::board::scan_x(sx, k), crate::board::scan_y(sy, k)), None)
        };
        assert(!(forall|k: int| 0 <= k < 280 ==> !crate::board::slot_removable(
            #[trigger] at(b, crate::board::scan_x(sx, k), crate::board::scan_y(sy, k))))) by {
            assert(crate::board::slot_removable(at(b, crate::board::scan_x(sx, k1), crate::board::scan_y(sy, k1))));
        }
        let k2 = choose|k: int| 0 <= k < 280 && {
            &&& crate::board::slot_removable(at(b, #[trigger] crate::board::scan_x(sx, k), crate::board::scan_y(sy, k)))
            &&& forall|k2: int| 0 <= k2 < k ==> !crate::board::slot_removable(
                #[trigger] at(b, crate::board::scan_x(sx, k2), crate::board::scan_y(sy, k2)))
            &&& n2 == b.update(crate::board::cell_index(crate::board::scan_x(sx, k), crate::board::scan_y(sy, k)), None)
        };
        if k1 < k2 {
            assert(crate::board::slot_removable(at(b, crate::board::scan_x(sx, k1), crate::board::scan_y(sy, k1))));
        } else if k2 < k1 {
            assert(crate::board::slot_removable(at(b, crate::board::scan_x(sx, k2), crate::board::scan_y(sy, k2))));
        }
    } else {
        if exists|k: int| 0 <= k < 280 && {
            &&& crate::board::slot_removable(at(b, #[trigger] crate::board::scan_x(sx, k), crate::board::scan_y(sy, k)))
            &&& forall|k2: int| 0 <= k2 < k ==> !crate::board::slot_removable(
                #[trigger] at(b, crate::board::scan_x(sx, k2), crate::board::scan_y(sy, k2)))
            &&& n2 == b.update(crate::board::cell_index(crate::board::scan_x(sx, k), crate::board::scan_y(sy, k)), None)
        } {
            let k2 = choose|k: int| 0 <= k < 280 && {
                &&& crate::board::slot_removable(at(b, #[trigger] crate::board::scan_x(sx, k), crate::board::scan_y(sy, k)))
                &&& forall|k2: int| 0 <= k2 < k ==> !crate::board::slot_removable(
                    #[trigger] at(b, crate::board::scan_x(sx, k2), crate::board::scan_y(sy, k2)))
                &&& n2 == b.update(crate::board::cell_index(crate::board::scan_x(sx, k), crate::board::scan_y(sy, k)), None)
            };
            assert(crate::board::slot_removable(at(b, crate::board::scan_x(sx, k2), crate::board::scan_y(sy, k2))));
        }
    }
}

/// Replay of weapons: a loop hit twice by the same target-only weapon ends with the same
/// board, weapon stream, effects, arsenal, falling piece and score, and (but for Have a Nice
/// Day, which queues a happy piece) the same generator.
pub proof fn lemma_weapon_replay(a: PieceLoop, n1: PieceLoop, n2: PieceLoop, token: WeaponToken)
    requires
        n1.wf(),
        n2.wf(),
        target_only(token),
        target_effect(a, n1, token),
        target_effect(a, n2, token),
    ensures
        n1.board_view() == n2.board_view(),
        n1.weapon_stream() == n2.weapon_stream(),
        n1.effects() == n2.effects(),
        n1.arsenal_spec() == n2.arsenal_spec(),
        n1.active_spec() == n2.active_spec(),
        n1.score_spec().funds_of() == n2.score_spec().funds_of(),
        n1.score_spec().score_of() == n2.score_spec().score_of(),
        n1.score_spec().lines_of() == n2.score_spec().lines_of(),
        token !is NiceDay ==> n1.generator_spec() == n2.generator_spec(),
{
    let b = a.board_view();
    let m1 = n1.board_view();
    let m2 = n2.board_view();
    n1.lemma_active_bounds();
    n2.lemma_active_bounds();
    if token is Missing {
        let (d1, w1) = chacha_next(a.weapon_stream());
        lemma_scan_removed_unique(b, m1, m2, (d1 as usize) as int % 10, (chacha_next(w1).0 as usize) as int % 28);
    } else {
        assert forall|i: int| 0 <= i < 280 implies m1[i] == m2[i] by {
            crate::board::lemma_index_split(i);
            let x = i % 10;
            let y = i / 10;
            assert(in_board(x, y));
            assert(at(m1, x, y) == m1[i] && at(m2, x, y) == m2[i]);
            if token is RiseUp && y == 27 {
                if at(m1, x, 27) is Some {
                    let c1 = at(m1, x, 27)->0->color;
                    let c2 = at(m2, x, 27)->0->color;
                    crate::cell::VisibleColor::lemma_view_injective(c1, c2);
                }
            }
        }
        assert(m1 =~= m2);
    }
}

/// The drop cadence: without effects a piece falls every 512 ms (every 10 ms in fast drop);
/// Speedy halves that interval, Meadow doubles it, and together they cancel.
pub proof fn lemma_drop_cadence(fast: bool)
    ensures
        drop_interval(fast, false, false) == if fast { 10u64 } else { 512u64 },
        drop_interval(fast, true, false) == if fast { 5u64 } else { 256u64 },
        drop_interval(fast, false, true) == if fast { 20u64 } else { 1024u64 },
        drop_interval(fast, true, true) == drop_interval(fast, false, false),
        2 * drop_interval(fast, true, false) == drop_interval(fast, false, false),
        drop_interval(fast, false, true) == 2 * drop_interval(fast, false, false),
{
}

/// Under Mondale a line clear pays 70 percent of its funds, rounded toward zero; without
/// it, the full funds.
pub proof fn lemma_mondale_share_of_clear(raw: int)
    ensures
        paid_funds(raw, false) == raw,
        raw >= 0 ==> 0 <= 100 * paid_funds(raw, true) <= 70 * raw < 100 * paid_funds(raw, true) + 100,
        raw < 0 ==> 100 * paid_funds(raw, true) - 100 < 70 * raw <= 100 * paid_funds(raw, true) <= 0,
{
    let q = paid_funds(raw, true);
    if raw >= 0 {
        assert(0 <= 100 * q <= 70 * raw < 100 * q + 100) by (nonlinear_arith)
            requires raw >= 0, q == (raw * 70) / 100;
    } else {
        assert(100 * q - 100 < 70 * raw <= 100 * q <= 0) by (nonlinear_arith)
            requires raw < 0, q == -((-(raw * 70)) / 100);
    }
}

/// What a lock pays: the funds rise by the locked board's line-clear funds, cut to
/// 70 percent (rounded toward zero) while Mondale is active.
pub proof fn lemma_lock_pays(old: PieceLoop, new: PieceLoop, auto_spawn: bool, r: Seq<CoreEvent>)
    requires
        PieceLoop::lock_result(old, new, auto_spawn, r),
        old.active_spec() is Some,
    ensures
        ({
            let raw = clear_funds(lock_board(old.board_view(), old.active_spec()->0));
            let paid = new.score_spec().funds_of() - old.score_spec().funds_of();
            &&& !old.effect_active(WeaponToken::Mondale) ==> paid == raw
            &&& old.effect_active(WeaponToken::Mondale) && raw >= 0 ==> 0 <= 100 * paid <= 70 * raw < 100 * paid + 100
            &&& old.effect_active(WeaponToken::Mondale) && raw < 0 ==> 100 * paid - 100 < 70 * raw <= 100 * paid <= 0
        }),
{
    let raw = clear_funds(lock_board(old.board_view(), old.active_spec()->0));
    lemma_mondale_share_of_clear(raw);
}

/// The Mondale tax: the opponent receives 30/70 of the funds of the last line clear,
/// rounded toward zero, and nothing when no clear paid yet.
pub proof fn lemma_mondale_tax_share(funds: Option<i32>)
    ensures
        funds is None ==> mondale_share(funds) == 0,
        funds is Some && funds->0 >= 0 ==> 0 <= 70 * mondale_share(funds) <= 30 * funds->0 < 70 * mondale_share(funds) + 70,
        funds is Some && funds->0 < 0 ==> 70 * mondale_share(funds) - 70 < 30 * funds->0 <= 70 * mondale_share(funds) <= 0,
{
    if let Some(f) = funds {
        let q = mondale_share(funds);
        if f >= 0 {
            assert(0 <= 70 * q <= 30 * f < 70 * q + 70) by (nonlinear_arith)
                requires f >= 0, q == (f * 30) / 70;
        } else {
            assert(70 * q - 70 < 30 * f <= 70 * q <= 0) by (nonlinear_arith)
                requires f < 0, q == -((-f * 30) / 70);
        }
    }
}

/// The slide grace: a running slide only counts the elapsed time, with no event, while the
/// total stays under 150 ms and NoSlide is inactive; once it reaches 150 ms, or at once
/// under NoSlide, the slide ends. Without a running slide nothing happens.
pub proof fn lemma_slide_grace(old: PieceLoop, new: PieceLoop, auto_spawn: bool, elapsed: u64, r: Seq<CoreEvent>)
    requires
        slide_phase(old, new, auto_spawn, elapsed, r),
    ensures
        old.slide_elapsed() is None ==> new == old && r.len() == 0,
        old.slide_elapsed() is Some && !old.effect_active(WeaponToken::NoSlide)
            && old.slide_elapsed()->0 + elapsed < 150 ==> new == old.with_slide(Some((old.slide_elapsed()->0 + elapsed) as u64))
            && r.len() == 0,
        old.slide_elapsed() is Some && (old.effect_active(WeaponToken::NoSlide) || old.slide_elapsed()->0 + elapsed >= 150)
            ==> expire_slide_result(old.with_slide(Some((old.slide_elapsed()->0 + elapsed) as u64)), new, auto_spawn, r),
{
}

} // verus!
