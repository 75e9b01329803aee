//! Deterministic piece generation, dice pips, and probability hooks.

use crate::cell::{Cell, Pip};
use crate::piece::{initial_shape, kind_cell, kind_id, kind_width, Piece, PieceKind};
use crate::rng::{chacha_clone, chacha_next, chacha_next_u64, GameSeed, RngStream};
use rand_chacha::ChaCha12Rng;
use vstd::prelude::*;

verus! {

/// Integer weight scale for legacy `.01` probability slots.
pub const PROBABILITY_SCALE: u16 = 100;

/// The piece kind at a zero-based index in legacy numeric ID order.
pub open spec fn kind_at(i: int) -> PieceKind {
    if i == 0 {
        PieceKind::El
    } else if i == 1 {
        PieceKind::ReverseEl
    } else if i == 2 {
        PieceKind::SlantRight
    } else if i == 3 {
        PieceKind::SlantLeft
    } else if i == 4 {
        PieceKind::Long
    } else if i == 5 {
        PieceKind::Plug
    } else if i == 6 {
        PieceKind::Box
    } else if i == 7 {
        PieceKind::Die
    } else if i == 8 {
        PieceKind::Happy
    } else if i == 9 {
        PieceKind::Dog
    } else if i == 10 {
        PieceKind::ReverseDog
    } else if i == 11 {
        PieceKind::Cap
    } else if i == 12 {
        PieceKind::Wall
    } else if i == 13 {
        PieceKind::Tower
    } else if i == 14 {
        PieceKind::Star
    } else if i == 15 {
        PieceKind::WeirdLong
    } else if i == 16 {
        PieceKind::FourByFour
    } else {
        PieceKind::LongDong
    }
}

/// Index order and legacy IDs agree.
pub proof fn lemma_kind_at(kind: PieceKind)
    ensures
        kind_at(kind_id(kind) - 1) == kind,
        1 <= kind_id(kind) <= 18,
{
}

/// The sum of the first `n` weights.
pub open spec fn prefix_weight(w: Seq<u16>, n: int) -> int
    decreases n,
{
    if n <= 0 {
        0
    } else {
        prefix_weight(w, n - 1) + w[n - 1]
    }
}

/// The legacy keep probabilities: 21 for the seven classic pieces, 100 for dice,
/// 2 for happy and long-dong pieces, 0 for the rest.
pub open spec fn legacy_weights() -> Seq<u16> {
    seq![21u16, 21, 21, 21, 21, 21, 21, 100, 2, 0, 0, 0, 0, 0, 0, 0, 0, 2]
}

/// The kind a weighted draw selects: the kind whose cumulative weight interval holds the draw.
pub open spec fn picks(w: Seq<u16>, d: int, kind: PieceKind) -> bool {
    prefix_weight(w, kind_id(kind) - 1) <= d < prefix_weight(w, kind_id(kind))
}

proof fn lemma_prefix_monotone(w: Seq<u16>, a: int, b: int)
    requires
        0 <= a <= b,
    ensures
        prefix_weight(w, a) <= prefix_weight(w, b),
    decreases b - a,
{
    if a < b {
        lemma_prefix_monotone(w, a, b - 1);
    }
}

/// At most one kind is picked by a draw.
pub proof fn lemma_picks_unique(w: Seq<u16>, d: int, a: PieceKind, b: PieceKind)
    requires
        picks(w, d, a),
        picks(w, d, b),
    ensures
        a == b,
{
    lemma_kind_at(a);
    lemma_kind_at(b);
    if kind_id(a) < kind_id(b) {
        lemma_prefix_monotone(w, kind_id(a), kind_id(b) - 1);
    } else if kind_id(b) < kind_id(a) {
        lemma_prefix_monotone(w, kind_id(b), kind_id(a) - 1);
    }
}

/// Mutable piece probability table used by weapon hooks.
#[derive(Debug, Clone, PartialEq, Eq)]
pub struct PieceProbabilities {
    weights: [u16; 18],
}

impl View for PieceProbabilities {
    type V = Seq<u16>;

    closed spec fn view(&self) -> Seq<u16> {
        self.weights@
    }
}

impl PieceProbabilities {
    /// A table always has one weight per piece kind.
    pub open spec fn wf(&self) -> bool {
        self@.len() == 18
    }

    /// Returns the default legacy keep probabilities.
    #[must_use]
    pub fn legacy_default() -> (r: Self)
        ensures
            r.wf(),
            r@ == legacy_weights(),
    {
        let weights: [u16; 18] = [21, 21, 21, 21, 21, 21, 21, 100, 2, 0, 0, 0, 0, 0, 0, 0, 0, 2];
        assert(weights@ =~= legacy_weights());
        Self { weights }
    }

    /// Returns the current weight for a piece kind.
    #[must_use]
    pub fn weight(&self, kind: PieceKind) -> (r: u16)
        requires
            self.wf(),
        ensures
            r == self@[kind_id(kind) - 1],
    {
        self.weights[kind.index()]
    }

    /// Mutates one probability slot, matching legacy weapon hook behavior.
    pub fn set_weight(&mut self, kind: PieceKind, weight: u16)
        requires
            old(self).wf(),
        ensures
            final(self).wf(),
            final(self)@ == old(self)@.update(kind_id(kind) - 1, weight),
    {
        let i = kind.index();
        self.weights[i] = weight;
    }

    /// Enables or disables weird pieces as The Feared Weird does.
    pub fn set_weird_pieces_enabled(&mut self, enabled: bool)
        requires
            old(self).wf(),
        ensures
            final(self).wf(),
            final(self)@ == old(self)@.update(9, if enabled { 21u16 } else { 0u16 }).update(
                10,
                if enabled { 21u16 } else { 0u16 },
            ).update(11, if enabled { 21u16 } else { 0u16 }).update(12, if enabled { 21u16 } else { 0u16 }).update(
                13,
                if enabled { 21u16 } else { 0u16 },
            ).update(14, if enabled { 21u16 } else { 0u16 }).update(15, if enabled { 21u16 } else { 0u16 }),
    {
        let weight: u16 = if enabled { 21 } else { 0 };
        self.set_weight(PieceKind::Dog, weight);
        self.set_weight(PieceKind::ReverseDog, weight);
        self.set_weight(PieceKind::Cap, weight);
        self.set_weight(PieceKind::Wall, weight);
        self.set_weight(PieceKind::Tower, weight);
        self.set_weight(PieceKind::Star, weight);
        self.set_weight(PieceKind::WeirdLong, weight);
    }

    /// Enables or disables Four-by-Four replacement probability.
    pub fn set_four_by_four_enabled(&mut self, enabled: bool)
        requires
            old(self).wf(),
        ensures
            final(self).wf(),
            final(self)@ == old(self)@.update(6, if enabled { 0u16 } else { 21u16 }).update(
                16,
                if enabled { 21u16 } else { 0u16 },
            ),
    {
        self.set_weight(PieceKind::Box, if enabled { 0 } else { 21 });
        self.set_weight(PieceKind::FourByFour, if enabled { 21 } else { 0 });
    }

    /// Enables or disables long pieces as So Long does.
    pub fn set_long_pieces_enabled(&mut self, enabled: bool)
        requires
            old(self).wf(),
        ensures
            final(self).wf(),
            final(self)@ == old(self)@.update(4, if enabled { 21u16 } else { 0u16 }),
    {
        self.set_weight(PieceKind::Long, if enabled { 21 } else { 0 });
    }

    /// Enables or disables dice as No Dice does.
    pub fn set_dice_enabled(&mut self, enabled: bool)
        requires
            old(self).wf(),
        ensures
            final(self).wf(),
            final(self)@ == old(self)@.update(7, if enabled { 100u16 } else { 0u16 }),
    {
        self.set_weight(PieceKind::Die, if enabled { PROBABILITY_SCALE } else { 0 });
    }

    /// The sum of all weights.
    pub fn total_weight(&self) -> (r: u32)
        requires
            self.wf(),
        ensures
            r == prefix_weight(self@, 18),
    {
        let mut total: u32 = 0;
        let mut i: usize = 0;
        while i < 18
            invariant
                i <= 18,
                self.weights@.len() == 18,
                total == prefix_weight(self.weights@, i as int),
                total <= i * 0xFFFF,
            decreases 18 - i,
        {
            total = total + self.weights[i] as u32;
            i = i + 1;
        }
        total
    }

    /// Selects the piece kind for a draw: the draw taken modulo the total weight
    /// falls in the cumulative weight interval of the returned kind.
    pub fn pick(&self, draw: u64) -> (r: PieceKind)
        requires
            self.wf(),
            prefix_weight(self@, 18) > 0,
        ensures
            picks(self@, (draw as int) % prefix_weight(self@, 18), r),
    {
        let total = self.total_weight();
        let d = (draw % (total as u64)) as u32;
        assert(d as int == (draw as int) % (total as int));
        let kinds = PieceKind::all();
        let mut rest: u32 = d;
        let mut i: usize = 0;
        while i < 18
            invariant
                i <= 18,
                self.weights@.len() == 18,
                total == prefix_weight(self.weights@, 18),
                d < total,
                d as int == (draw as int) % (total as int),
                rest + prefix_weight(self.weights@, i as int) == d,
                forall|j: int| 0 <= j < 18 ==> kind_id(#[trigger] kinds@[j]) == j + 1,
            decreases 18 - i,
        {
            let kind = kinds[i];
            let weight = self.weights[i] as u32;
            if rest < weight {
                proof {
                    lemma_kind_at(kind);
                    assert(prefix_weight(self.weights@, i + 1) == prefix_weight(self.weights@, i as int)
                        + self.weights@[i as int]);
                    assert(kind_id(kind) == i + 1);
                }
                return kind;
            }
            rest = rest - weight;
            i = i + 1;
        }
        proof {
            assert(false);
        }
        PieceKind::El
    }
}

impl Default for PieceProbabilities {
    fn default() -> (r: Self)
        ensures
            r.wf(),
            r@ == legacy_weights(),
    {
        Self::legacy_default()
    }
}

/// Deterministic falling-piece generator.
#[derive(Debug)]
pub struct PieceGenerator {
    probabilities: PieceProbabilities,
    piece_rng: ChaCha12Rng,
    dice_rng: ChaCha12Rng,
    happy_rng: ChaCha12Rng,
    queued_happy: u32,
    old_piece: Option<PieceKind>,
    broken_record_enabled: bool,
}

impl PieceGenerator {
    /// The current probability table.
    pub closed spec fn weights(&self) -> Seq<u16> {
        self.probabilities@
    }

    /// Happy pieces waiting to be handed out.
    pub closed spec fn queued(&self) -> int {
        self.queued_happy as int
    }

    /// The stream that weighted draws and Broken Record rolls come from.
    pub closed spec fn piece_stream(&self) -> ChaCha12Rng {
        self.piece_rng
    }

    /// The stream that die pips come from.
    pub closed spec fn dice_stream(&self) -> ChaCha12Rng {
        self.dice_rng
    }

    /// The stream that happy-piece queueing draws from.
    pub closed spec fn happy_stream(&self) -> ChaCha12Rng {
        self.happy_rng
    }

    /// The kind handed out last, if any.
    pub closed spec fn last_kind(&self) -> Option<PieceKind> {
        self.old_piece
    }

    /// Whether Broken Record repeats are enabled.
    pub closed spec fn broken_record(&self) -> bool {
        self.broken_record_enabled
    }

    /// The generator's probability table is well formed.
    pub closed spec fn wf(&self) -> bool {
        self.probabilities.wf()
    }

    /// A well-formed generator has one weight per piece kind.
    pub proof fn lemma_weights_len(g: PieceGenerator)
        requires
            g.wf(),
        ensures
            g.weights().len() == 18,
    {
    }

    /// Creates a generator from an explicit game seed.
    #[must_use]
    pub fn new(seed: GameSeed) -> (r: Self)
        ensures
            r.wf(),
            r.weights() == legacy_weights(),
            r.queued() == 0,
            r.last_kind() is None,
            !r.broken_record(),
            r.piece_stream() == seed.stream_spec(RngStream::PieceSelection),
            r.dice_stream() == seed.stream_spec(RngStream::DicePips),
            r.happy_stream() == seed.stream_spec(RngStream::HappyQueue),
    {
        Self {
            probabilities: PieceProbabilities::legacy_default(),
            piece_rng: seed.stream(RngStream::PieceSelection),
            dice_rng: seed.stream(RngStream::DicePips),
            happy_rng: seed.stream(RngStream::HappyQueue),
            queued_happy: 0,
            old_piece: None,
            broken_record_enabled: false,
        }
    }

    /// Returns immutable access to the mutable legacy probability table.
    #[must_use]
    pub fn probabilities(&self) -> (r: &PieceProbabilities)
        ensures
            r@ == self.weights(),
            self.wf() ==> r.wf(),
    {
        &self.probabilities
    }

    /// Returns mutable access to the legacy probability table.
    pub fn probabilities_mut(&mut self) -> (r: &mut PieceProbabilities)
        ensures
            r@ == old(self).weights(),
            r.wf() == old(self).wf(),
            final(self).weights() == final(r)@,
            final(self).wf() == final(r).wf(),
            final(self).queued() == old(self).queued(),
            final(self).last_kind() == old(self).last_kind(),
            final(self).broken_record() == old(self).broken_record(),
    {
        &mut self.probabilities
    }

    /// Copies the generator, random streams included.
    pub fn copy(&self) -> (r: Self)
        ensures
            r.weights() == self.weights(),
            r.wf() == self.wf(),
            r.queued() == self.queued(),
            r.last_kind() == self.last_kind(),
            r.broken_record() == self.broken_record(),
            r.piece_stream() == self.piece_stream(),
            r.dice_stream() == self.dice_stream(),
            r.happy_stream() == self.happy_stream(),
    {
        PieceGenerator {
            probabilities: PieceProbabilities { weights: self.probabilities.weights },
            piece_rng: chacha_clone(&self.piece_rng),
            dice_rng: chacha_clone(&self.dice_rng),
            happy_rng: chacha_clone(&self.happy_rng),
            queued_happy: self.queued_happy,
            old_piece: self.old_piece,
            broken_record_enabled: self.broken_record_enabled,
        }
    }

    /// Queues happy pieces, as Have a Nice Day does.
    pub fn queue_happy(&mut self, count: u32)
        ensures
            final(self).queued() == if old(self).queued() + count > u32::MAX {
                u32::MAX as int
            } else {
                old(self).queued() + count
            },
            final(self).weights() == old(self).weights(),
            final(self).wf() == old(self).wf(),
            final(self).last_kind() == old(self).last_kind(),
            final(self).broken_record() == old(self).broken_record(),
            final(self).happy_stream() == chacha_next(old(self).happy_stream()).1,
            final(self).piece_stream() == old(self).piece_stream(),
            final(self).dice_stream() == old(self).dice_stream(),
    {
        self.queued_happy = self.queued_happy.saturating_add(count);
        let _ = chacha_next_u64(&mut self.happy_rng);
    }

    /// Enables or disables Broken Record repeat behavior.
    pub fn set_broken_record_enabled(&mut self, enabled: bool)
        ensures
            final(self).broken_record() == enabled,
            final(self).weights() == old(self).weights(),
            final(self).wf() == old(self).wf(),
            final(self).queued() == old(self).queued(),
            final(self).last_kind() == old(self).last_kind(),
    {
        self.broken_record_enabled = enabled;
    }

    /// Creates the next piece.
    pub fn next_piece(&mut self) -> (r: Piece)
        requires
            old(self).wf(),
            old(self).queued() == 0 ==> prefix_weight(old(self).weights(), 18) > 0,
        ensures
            final(self).wf(),
            final(self).weights() == old(self).weights(),
            final(self).broken_record() == old(self).broken_record(),
            final(self).last_kind() == Some(r.kind_spec()),
            next_kind_outcome(*old(self), *final(self), r.kind_spec()),
            kind_drawn(*old(self), final(self).piece_stream(), r.kind_spec()),
            final(self).queued() == if old(self).queued() > 0 { old(self).queued() - 1 } else { 0 },
            final(self).happy_stream() == old(self).happy_stream(),
            final(self).dice_stream() == if r.kind_spec() == PieceKind::Die {
                chacha_next(old(self).dice_stream()).1
            } else {
                old(self).dice_stream()
            },
            r.kind_spec() == PieceKind::Die ==> (r.cell_spec() matches Cell::Die { pip } && pip@ == chacha_next(old(self).dice_stream()).0 % 6 + 1),
            r.wf(),
            r.anchor_x() == 5 - kind_width(r.kind_spec()) / 2,
            r.anchor_y() == 0,
            r.orientation_spec() == 0,
            r.coords() == initial_shape(r.kind_spec()),
            r.kind_spec() != PieceKind::Die ==> kind_cell(r.kind_spec(), r.cell_spec()),
            r.kind_spec() == PieceKind::Die ==> r.cell_spec() matches Cell::Die { pip },
    {
        let kind = self.next_kind();
        self.old_piece = Some(kind);
        self.create_piece(kind)
    }

    /// Returns the next piece kind without constructing cells.
    pub fn next_kind(&mut self) -> (r: PieceKind)
        requires
            old(self).wf(),
            old(self).queued() == 0 ==> prefix_weight(old(self).weights(), 18) > 0,
        ensures
            final(self).wf(),
            final(self).weights() == old(self).weights(),
            final(self).broken_record() == old(self).broken_record(),
            final(self).last_kind() == old(self).last_kind(),
            next_kind_outcome(*old(self), *final(self), r),
            kind_drawn(*old(self), final(self).piece_stream(), r),
            final(self).queued() == if old(self).queued() > 0 { old(self).queued() - 1 } else { 0 },
            final(self).dice_stream() == old(self).dice_stream(),
            final(self).happy_stream() == old(self).happy_stream(),
    {
        if self.queued_happy > 0 {
            self.queued_happy = self.queued_happy - 1;
            return PieceKind::Happy;
        }
        if self.broken_record_enabled && self.old_piece.is_some() && self.roll_below(180, 9) {
            match self.old_piece {
                Some(kind) => {
                    return kind;
                },
                None => {},
            }
        }
        self.weighted_kind()
    }

    fn create_piece(&mut self, kind: PieceKind) -> (r: Piece)
        ensures
            final(self).wf() == old(self).wf(),
            final(self).weights() == old(self).weights(),
            final(self).queued() == old(self).queued(),
            final(self).last_kind() == old(self).last_kind(),
            final(self).broken_record() == old(self).broken_record(),
            r.wf(),
            r.kind_spec() == kind,
            r.anchor_x() == 5 - kind_width(kind) / 2,
            r.anchor_y() == 0,
            r.orientation_spec() == 0,
            r.coords() == initial_shape(kind),
            kind != PieceKind::Die ==> kind_cell(kind, r.cell_spec()),
            kind == PieceKind::Die ==> (r.cell_spec() matches Cell::Die { pip } && pip@ == chacha_next(old(self).dice_stream()).0 % 6 + 1),
            final(self).piece_stream() == old(self).piece_stream(),
            final(self).happy_stream() == old(self).happy_stream(),
            final(self).dice_stream() == if kind == PieceKind::Die {
                chacha_next(old(self).dice_stream()).1
            } else {
                old(self).dice_stream()
            },
    {
        if kind == PieceKind::Die {
            let value = chacha_next_u64(&mut self.dice_rng) % 6 + 1;
            match Pip::new(value as u8) {
                Some(pip) => Piece::spawn_die(pip),
                None => {
                    assert(false);
                    Piece::spawn(kind)
                },
            }
        } else {
            Piece::spawn(kind)
        }
    }

    fn weighted_kind(&mut self) -> (r: PieceKind)
        requires
            old(self).wf(),
            prefix_weight(old(self).weights(), 18) > 0,
        ensures
            final(self).wf(),
            final(self).weights() == old(self).weights(),
            final(self).queued() == old(self).queued(),
            final(self).last_kind() == old(self).last_kind(),
            final(self).broken_record() == old(self).broken_record(),
            exists|d: int| 0 <= d < prefix_weight(old(self).weights(), 18) && picks(old(self).weights(), d, r),
            picks(old(self).weights(), chacha_next(old(self).piece_stream()).0 as int % prefix_weight(old(self).weights(), 18), r),
            final(self).piece_stream() == chacha_next(old(self).piece_stream()).1,
            final(self).dice_stream() == old(self).dice_stream(),
            final(self).happy_stream() == old(self).happy_stream(),
    {
        let draw = chacha_next_u64(&mut self.piece_rng);
        let kind = self.probabilities.pick(draw);
        proof {
            let total = prefix_weight(self.weights(), 18);
            let d = (draw as int) % total;
            assert(0 <= d < total);
            assert(picks(self.weights(), d, kind));
        }
        kind
    }

    fn roll_below(&mut self, denominator: u64, numerator: u64) -> (r: bool)
        requires
            denominator > 0,
        ensures
            final(self).wf() == old(self).wf(),
            final(self).weights() == old(self).weights(),
            final(self).queued() == old(self).queued(),
            final(self).last_kind() == old(self).last_kind(),
            final(self).broken_record() == old(self).broken_record(),
            r == roll_outcome(chacha_next(old(self).piece_stream()).0, denominator, numerator),
            final(self).piece_stream() == chacha_next(old(self).piece_stream()).1,
            final(self).dice_stream() == old(self).dice_stream(),
            final(self).happy_stream() == old(self).happy_stream(),
            numerator == 0 ==> !r,
            numerator >= denominator ==> r,
    {
        let draw = chacha_next_u64(&mut self.piece_rng);
        let r = draw % denominator < numerator;
        assert(r == roll_outcome(draw, denominator, numerator));
        r
    }
}

/// Whether a draw, reduced modulo `denominator`, falls below `numerator`: the
/// outcome of a roll that succeeds `numerator` times in `denominator`.
pub open spec fn roll_outcome(draw: u64, denominator: u64, numerator: u64) -> bool {
    draw % denominator < numerator
}

/// The kind a weighted draw picks: the one whose interval of the table's cumulative
/// weights holds the draw reduced modulo the total weight.
pub open spec fn weighted_pick(weights: Seq<u16>, draw: u64, kind: PieceKind) -> bool {
    picks(weights, draw as int % prefix_weight(weights, 18), kind)
}

/// The next kind, drawn from the generator's own streams, with `after` the piece stream
/// afterwards: a queued happy piece takes no draw; under Broken Record with a previous kind
/// one draw rolls 9 in 180 for a repeat; otherwise the next draw picks by weight.
pub open spec fn kind_drawn(before: PieceGenerator, after: ChaCha12Rng, kind: PieceKind) -> bool {
    if before.queued() > 0 {
        kind == PieceKind::Happy && after == before.piece_stream()
    } else if before.broken_record() && before.last_kind() is Some {
        let (roll, s1) = chacha_next(before.piece_stream());
        if roll_outcome(roll, 180, 9) {
            kind == before.last_kind()->0 && after == s1
        } else {
            weighted_pick(before.weights(), chacha_next(s1).0, kind) && after == chacha_next(s1).1
        }
    } else {
        weighted_pick(before.weights(), chacha_next(before.piece_stream()).0, kind) && after == chacha_next(before.piece_stream()).1
    }
}

/// What the next kind can be: a queued happy piece first, otherwise the last kind
/// again (only under Broken Record) or a kind whose weighted interval a draw falls in.
pub open spec fn next_kind_outcome(before: PieceGenerator, after: PieceGenerator, kind: PieceKind) -> bool {
    if before.queued() > 0 {
        kind == PieceKind::Happy && after.queued() == before.queued() - 1
    } else {
        &&& after.queued() == 0
        &&& (before.broken_record() && before.last_kind() == Some(kind)) || exists|d: int|
            0 <= d < prefix_weight(before.weights(), 18) && picks(before.weights(), d, kind)
    }
}

/// Replay: two generators that agree on their table, happy queue, last kind, Broken Record
/// switch and piece stream draw the same next kind and leave the same piece stream. With
/// `PieceGenerator::new` determined by the seed, a seed replays the whole piece sequence.
pub proof fn lemma_replay(
    a: PieceGenerator,
    b: PieceGenerator,
    after_a: ChaCha12Rng,
    after_b: ChaCha12Rng,
    kind_a: PieceKind,
    kind_b: PieceKind,
)
    requires
        a.weights() == b.weights(),
        a.queued() == b.queued(),
        a.last_kind() == b.last_kind(),
        a.broken_record() == b.broken_record(),
        a.piece_stream() == b.piece_stream(),
        kind_drawn(a, after_a, kind_a),
        kind_drawn(b, after_b, kind_b),
    ensures
        kind_a == kind_b,
        after_a == after_b,
{
    let w = a.weights();
    if a.queued() > 0 {
    } else if a.broken_record() && a.last_kind() is Some {
        let (roll, s1) = chacha_next(a.piece_stream());
        if !roll_outcome(roll, 180, 9) {
            lemma_picks_unique(w, chacha_next(s1).0 as int % prefix_weight(w, 18), kind_a, kind_b);
        }
    } else {
        lemma_picks_unique(w, chacha_next(a.piece_stream()).0 as int % prefix_weight(w, 18), kind_a, kind_b);
    }
}

} // verus!
