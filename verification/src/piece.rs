//! Legacy piece IDs, shapes, spawn anchors, rotation, and collision.
//!
//! Pieces use the legacy 8x8 local map coordinate space. Rotation operates only
//! on occupied local cells, so empty margins may hang outside the board exactly
//! as they did in the legacy implementation.

use crate::board::{at, in_board, cell_index, Board, Coord};
use crate::cell::{Cell, Pip, VisibleColor};
use vstd::prelude::*;

verus! {

/// Width and height of the legacy piece map.
pub const PIECE_MAP_SIZE: usize = 8;

/// Legacy spawn x before centering by the piece rotation width.
pub const SPAWN_X: isize = 5;

/// Legacy spawn y.
pub const SPAWN_Y: isize = 0;

/// Local coordinate in the legacy 8x8 piece map.
#[derive(Debug, Clone, Copy, PartialEq, Eq, PartialOrd, Ord, Structural)]
pub struct LocalCoord {
    /// Horizontal local coordinate.
    pub x: u8,
    /// Vertical local coordinate.
    pub y: u8,
}

/// A local coordinate.
pub open spec fn lc(x: u8, y: u8) -> LocalCoord {
    LocalCoord { x, y }
}

/// Legacy piece identity.
#[derive(Debug, Clone, Copy, PartialEq, Eq, Structural)]
pub enum PieceKind {
    /// `BT_EL_PIECE`.
    El,
    /// `BT_REL_PIECE`.
    ReverseEl,
    /// `BT_SL_RT_PIECE`.
    SlantRight,
    /// `BT_SL_LF_PIECE`.
    SlantLeft,
    /// `BT_LONG_PIECE`.
    Long,
    /// `BT_PLUG_PIECE`.
    Plug,
    /// `BT_BOX_PIECE`.
    Box,
    /// `BT_DIE_PIECE`.
    Die,
    /// `BT_HAP_PIECE`.
    Happy,
    /// `BT_DOG_PIECE`.
    Dog,
    /// `BT_RDOG_PIECE`.
    ReverseDog,
    /// `BT_CAP_PIECE`.
    Cap,
    /// `BT_WALL_PIECE`.
    Wall,
    /// `BT_TOWER_PIECE`.
    Tower,
    /// `BT_STAR_PIECE`.
    Star,
    /// `BT_WLONG_PIECE`.
    WeirdLong,
    /// `BT_4x4_PIECE`.
    FourByFour,
    /// `BT_LONG_DONG_PIECE`.
    LongDong,
}

/// The legacy numeric ID of a piece kind.
pub open spec fn kind_id(kind: PieceKind) -> int {
    match kind {
        PieceKind::El => 1,
        PieceKind::ReverseEl => 2,
        PieceKind::SlantRight => 3,
        PieceKind::SlantLeft => 4,
        PieceKind::Long => 5,
        PieceKind::Plug => 6,
        PieceKind::Box => 7,
        PieceKind::Die => 8,
        PieceKind::Happy => 9,
        PieceKind::Dog => 10,
        PieceKind::ReverseDog => 11,
        PieceKind::Cap => 12,
        PieceKind::Wall => 13,
        PieceKind::Tower => 14,
        PieceKind::Star => 15,
        PieceKind::WeirdLong => 16,
        PieceKind::FourByFour => 17,
        PieceKind::LongDong => 18,
    }
}

/// The legacy token name of a piece kind.
pub open spec fn kind_token(kind: PieceKind) -> Seq<char> {
    match kind {
        PieceKind::El => "BT_EL_PIECE"@,
        PieceKind::ReverseEl => "BT_REL_PIECE"@,
        PieceKind::SlantRight => "BT_SL_RT_PIECE"@,
        PieceKind::SlantLeft => "BT_SL_LF_PIECE"@,
        PieceKind::Long => "BT_LONG_PIECE"@,
        PieceKind::Plug => "BT_PLUG_PIECE"@,
        PieceKind::Box => "BT_BOX_PIECE"@,
        PieceKind::Die => "BT_DIE_PIECE"@,
        PieceKind::Happy => "BT_HAP_PIECE"@,
        PieceKind::Dog => "BT_DOG_PIECE"@,
        PieceKind::ReverseDog => "BT_RDOG_PIECE"@,
        PieceKind::Cap => "BT_CAP_PIECE"@,
        PieceKind::Wall => "BT_WALL_PIECE"@,
        PieceKind::Tower => "BT_TOWER_PIECE"@,
        PieceKind::Star => "BT_STAR_PIECE"@,
        PieceKind::WeirdLong => "BT_WLONG_PIECE"@,
        PieceKind::FourByFour => "BT_4x4_PIECE"@,
        PieceKind::LongDong => "BT_LONG_DONG_PIECE"@,
    }
}

/// The legacy rotation-square width; `0` means not rotatable.
pub open spec fn kind_width(kind: PieceKind) -> int {
    match kind {
        PieceKind::El => 3,
        PieceKind::ReverseEl => 3,
        PieceKind::SlantRight => 3,
        PieceKind::SlantLeft => 3,
        PieceKind::Long => 4,
        PieceKind::Plug => 3,
        PieceKind::Box => 0,
        PieceKind::Die => 0,
        PieceKind::Happy => 0,
        PieceKind::Dog => 3,
        PieceKind::ReverseDog => 3,
        PieceKind::Cap => 4,
        PieceKind::Wall => 4,
        PieceKind::Tower => 3,
        PieceKind::Star => 3,
        PieceKind::WeirdLong => 4,
        PieceKind::FourByFour => 0,
        PieceKind::LongDong => 8,
    }
}

/// Number of rotation states of a piece kind.
pub open spec fn orientation_count(kind: PieceKind) -> int {
    match kind {
        PieceKind::Box | PieceKind::Die | PieceKind::Happy | PieceKind::FourByFour => 1,
        PieceKind::Star => 2,
        PieceKind::WeirdLong => 6,
        _ => 4,
    }
}

/// The legacy visible color ID of a piece kind.
pub open spec fn kind_color(kind: PieceKind) -> u8 {
    match kind {
        PieceKind::El => 2,
        PieceKind::ReverseEl => 3,
        PieceKind::SlantRight => 4,
        PieceKind::SlantLeft => 5,
        PieceKind::Long => 6,
        PieceKind::Plug => 7,
        PieceKind::Box => 8,
        PieceKind::Die => 1,
        PieceKind::Happy => 1,
        PieceKind::Dog => 2,
        PieceKind::ReverseDog => 3,
        PieceKind::Cap => 4,
        PieceKind::Wall => 5,
        PieceKind::Tower => 6,
        PieceKind::Star => 7,
        PieceKind::WeirdLong => 8,
        PieceKind::FourByFour => 8,
        PieceKind::LongDong => 6,
    }
}

/// Occupied local cells of a piece kind at spawn.
pub open spec fn initial_shape(kind: PieceKind) -> Seq<LocalCoord> {
    match kind {
        PieceKind::El => seq![lc(1, 0), lc(1, 1), lc(1, 2), lc(2, 2)],
        PieceKind::ReverseEl => seq![lc(2, 0), lc(2, 1), lc(2, 2), lc(1, 2)],
        PieceKind::SlantRight => seq![lc(0, 2), lc(1, 2), lc(1, 1), lc(2, 1)],
        PieceKind::SlantLeft => seq![lc(0, 1), lc(1, 1), lc(1, 2), lc(2, 2)],
        PieceKind::Long => seq![lc(0, 1), lc(1, 1), lc(2, 1), lc(3, 1)],
        PieceKind::Plug => seq![lc(0, 2), lc(1, 2), lc(1, 1), lc(2, 2)],
        PieceKind::Box => seq![lc(1, 1), lc(1, 2), lc(2, 1), lc(2, 2)],
        PieceKind::Die => seq![lc(1, 1)],
        PieceKind::Happy => seq![lc(1, 1)],
        PieceKind::Dog => seq![lc(0, 0), lc(1, 1), lc(2, 1), lc(2, 2)],
        PieceKind::ReverseDog => seq![lc(0, 1), lc(0, 2), lc(1, 1), lc(2, 2)],
        PieceKind::Cap => seq![lc(0, 2), lc(1, 1), lc(2, 1), lc(3, 2)],
        PieceKind::Wall => seq![lc(0, 1), lc(0, 2), lc(3, 1), lc(3, 2)],
        PieceKind::Tower => seq![lc(2, 0), lc(1, 1), lc(0, 1), lc(2, 2)],
        PieceKind::Star => seq![lc(1, 0), lc(0, 1), lc(1, 2), lc(2, 1)],
        PieceKind::WeirdLong => seq![lc(1, 0), lc(1, 1), lc(2, 2), lc(2, 3)],
        PieceKind::FourByFour => seq![lc(0, 0), lc(1, 0), lc(2, 0), lc(3, 0), lc(0, 1), lc(3, 1), lc(0, 2), lc(3, 2), lc(0, 3), lc(1, 3), lc(2, 3), lc(3, 3)],
        PieceKind::LongDong => seq![lc(0, 0), lc(1, 0), lc(2, 0), lc(3, 0), lc(4, 0), lc(5, 0), lc(6, 0), lc(7, 0)],
    }
}

/// Occupied local cells of the pieces with hand-made rotation states.
pub open spec fn custom_shape(kind: PieceKind, orientation: int) -> Seq<LocalCoord> {
    if kind == PieceKind::Wall && orientation == 0 {
        seq![lc(0, 1), lc(0, 2), lc(3, 1), lc(3, 2)]
    } else if kind == PieceKind::Wall && orientation == 1 {
        seq![lc(0, 2), lc(1, 3), lc(2, 0), lc(3, 1)]
    } else if kind == PieceKind::Wall && orientation == 2 {
        seq![lc(1, 0), lc(1, 3), lc(2, 0), lc(2, 3)]
    } else if kind == PieceKind::Wall && orientation == 3 {
        seq![lc(0, 1), lc(1, 0), lc(2, 3), lc(3, 2)]
    } else if kind == PieceKind::Star && orientation == 0 {
        seq![lc(1, 0), lc(0, 1), lc(1, 2), lc(2, 1)]
    } else if kind == PieceKind::Star && orientation == 1 {
        seq![lc(0, 0), lc(2, 0), lc(0, 2), lc(2, 2)]
    } else if kind == PieceKind::WeirdLong && orientation == 0 {
        seq![lc(1, 0), lc(1, 1), lc(2, 2), lc(2, 3)]
    } else if kind == PieceKind::WeirdLong && orientation == 1 {
        seq![lc(0, 0), lc(1, 1), lc(2, 2), lc(3, 3)]
    } else if kind == PieceKind::WeirdLong && orientation == 2 {
        seq![lc(0, 1), lc(1, 1), lc(2, 2), lc(3, 2)]
    } else if kind == PieceKind::WeirdLong && orientation == 3 {
        seq![lc(0, 2), lc(1, 2), lc(2, 1), lc(3, 1)]
    } else if kind == PieceKind::WeirdLong && orientation == 4 {
        seq![lc(0, 3), lc(1, 2), lc(2, 1), lc(3, 0)]
    } else if kind == PieceKind::WeirdLong && orientation == 5 {
        seq![lc(1, 2), lc(1, 3), lc(2, 0), lc(2, 1)]
    } else {
        Seq::empty()
    }
}

/// The cell a piece of a kind is made of, for kinds other than dice.
pub open spec fn kind_cell(kind: PieceKind, cell: Cell) -> bool {
    match kind {
        PieceKind::Die => cell matches Cell::Die { pip } && pip@ == 1,
        PieceKind::Happy => cell == Cell::Happy,
        _ => cell matches Cell::Visible { color } && color@ == kind_color(kind),
    }
}

/// Whether a piece kind rotates through hand-made states.
pub open spec fn has_custom_rotation(kind: PieceKind) -> bool {
    kind == PieceKind::Wall || kind == PieceKind::Star || kind == PieceKind::WeirdLong
}

/// The orientation after one rotation step.
pub open spec fn next_orientation(kind: PieceKind, orientation: int, reverse: bool) -> int {
    let n = if kind == PieceKind::Star { 2int } else if kind == PieceKind::WeirdLong { 6int } else { 4int };
    if reverse { (orientation + n - 1) % n } else { (orientation + 1) % n }
}

/// One local cell turned a quarter within a square of the given width.
pub open spec fn turn(coord: LocalCoord, width: int, reverse: bool) -> LocalCoord {
    if reverse {
        LocalCoord { x: (width - 1 - coord.y) as u8, y: coord.x }
    } else {
        LocalCoord { x: coord.y, y: (width - 1 - coord.x) as u8 }
    }
}

/// The occupied local cells after one rotation step, or `None` when the kind does not rotate.
pub open spec fn rotated_shape(kind: PieceKind, orientation: int, coords: Seq<LocalCoord>, reverse: bool) -> Option<Seq<LocalCoord>> {
    if kind_width(kind) == 0 {
        None
    } else if kind == PieceKind::Star {
        Some(custom_shape(kind, (orientation + 1) % 2))
    } else if kind == PieceKind::Wall || kind == PieceKind::WeirdLong {
        Some(custom_shape(kind, next_orientation(kind, orientation, reverse)))
    } else {
        Some(coords.map_values(|c: LocalCoord| turn(c, kind_width(kind), reverse)))
    }
}

impl PieceKind {
    /// Number of legacy piece kinds.
    pub const COUNT: usize = 18;

    /// Returns the legacy numeric piece ID.
    #[must_use]
    pub fn legacy_id(self) -> (r: u8)
        ensures
            r as int == kind_id(self),
    {
        match self {
            Self::El => 1,
            Self::ReverseEl => 2,
            Self::SlantRight => 3,
            Self::SlantLeft => 4,
            Self::Long => 5,
            Self::Plug => 6,
            Self::Box => 7,
            Self::Die => 8,
            Self::Happy => 9,
            Self::Dog => 10,
            Self::ReverseDog => 11,
            Self::Cap => 12,
            Self::Wall => 13,
            Self::Tower => 14,
            Self::Star => 15,
            Self::WeirdLong => 16,
            Self::FourByFour => 17,
            Self::LongDong => 18,
        }
    }

    /// Returns a zero-based index in legacy numeric ID order.
    #[must_use]
    pub fn index(self) -> (r: usize)
        ensures
            r as int == kind_id(self) - 1,
    {
        (self.legacy_id() - 1) as usize
    }

    /// Returns the legacy token name.
    #[must_use]
    pub fn token(self) -> (r: &'static str)
        ensures
            r@ == kind_token(self),
    {
        match self {
            Self::El => "BT_EL_PIECE",
            Self::ReverseEl => "BT_REL_PIECE",
            Self::SlantRight => "BT_SL_RT_PIECE",
            Self::SlantLeft => "BT_SL_LF_PIECE",
            Self::Long => "BT_LONG_PIECE",
            Self::Plug => "BT_PLUG_PIECE",
            Self::Box => "BT_BOX_PIECE",
            Self::Die => "BT_DIE_PIECE",
            Self::Happy => "BT_HAP_PIECE",
            Self::Dog => "BT_DOG_PIECE",
            Self::ReverseDog => "BT_RDOG_PIECE",
            Self::Cap => "BT_CAP_PIECE",
            Self::Wall => "BT_WALL_PIECE",
            Self::Tower => "BT_TOWER_PIECE",
            Self::Star => "BT_STAR_PIECE",
            Self::WeirdLong => "BT_WLONG_PIECE",
            Self::FourByFour => "BT_4x4_PIECE",
            Self::LongDong => "BT_LONG_DONG_PIECE",
        }
    }

    /// Returns the legacy rotation-square width. `0` means not rotatable.
    #[must_use]
    pub fn rotation_width(self) -> (r: u8)
        ensures
            r as int == kind_width(self),
    {
        match self {
            Self::El => 3,
            Self::ReverseEl => 3,
            Self::SlantRight => 3,
            Self::SlantLeft => 3,
            Self::Long => 4,
            Self::Plug => 3,
            Self::Box => 0,
            Self::Die => 0,
            Self::Happy => 0,
            Self::Dog => 3,
            Self::ReverseDog => 3,
            Self::Cap => 4,
            Self::Wall => 4,
            Self::Tower => 3,
            Self::Star => 3,
            Self::WeirdLong => 4,
            Self::FourByFour => 0,
            Self::LongDong => 8,
        }
    }

    /// Returns the post-lock spawn anchor for this piece kind.
    #[must_use]
    pub fn spawn_anchor(self) -> (r: (isize, isize))
        ensures
            r.0 == 5 - kind_width(self) / 2,
            r.1 == 0,
    {
        (SPAWN_X - (self.rotation_width() as isize) / 2, SPAWN_Y)
    }

    /// Returns all legacy piece kinds in numeric ID order.
    #[must_use]
    pub fn all() -> (r: [PieceKind; 18])
        ensures
            forall|i: int| 0 <= i < 18 ==> kind_id(#[trigger] r@[i]) == i + 1,
    {
        [
            Self::El,
            Self::ReverseEl,
            Self::SlantRight,
            Self::SlantLeft,
            Self::Long,
            Self::Plug,
            Self::Box,
            Self::Die,
            Self::Happy,
            Self::Dog,
            Self::ReverseDog,
            Self::Cap,
            Self::Wall,
            Self::Tower,
            Self::Star,
            Self::WeirdLong,
            Self::FourByFour,
            Self::LongDong,
        ]
    }
}

fn initial_coords(kind: PieceKind) -> (r: Vec<LocalCoord>)
    ensures
        r@ == initial_shape(kind),
{
    let r = match kind {
        PieceKind::El => vec![LocalCoord { x: 1, y: 0 }, LocalCoord { x: 1, y: 1 }, LocalCoord { x: 1, y: 2 }, LocalCoord { x: 2, y: 2 }],
        PieceKind::ReverseEl => vec![LocalCoord { x: 2, y: 0 }, LocalCoord { x: 2, y: 1 }, LocalCoord { x: 2, y: 2 }, LocalCoord { x: 1, y: 2 }],
        PieceKind::SlantRight => vec![LocalCoord { x: 0, y: 2 }, LocalCoord { x: 1, y: 2 }, LocalCoord { x: 1, y: 1 }, LocalCoord { x: 2, y: 1 }],
        PieceKind::SlantLeft => vec![LocalCoord { x: 0, y: 1 }, LocalCoord { x: 1, y: 1 }, LocalCoord { x: 1, y: 2 }, LocalCoord { x: 2, y: 2 }],
        PieceKind::Long => vec![LocalCoord { x: 0, y: 1 }, LocalCoord { x: 1, y: 1 }, LocalCoord { x: 2, y: 1 }, LocalCoord { x: 3, y: 1 }],
        PieceKind::Plug => vec![LocalCoord { x: 0, y: 2 }, LocalCoord { x: 1, y: 2 }, LocalCoord { x: 1, y: 1 }, LocalCoord { x: 2, y: 2 }],
        PieceKind::Box => vec![LocalCoord { x: 1, y: 1 }, LocalCoord { x: 1, y: 2 }, LocalCoord { x: 2, y: 1 }, LocalCoord { x: 2, y: 2 }],
        PieceKind::Die => vec![LocalCoord { x: 1, y: 1 }],
        PieceKind::Happy => vec![LocalCoord { x: 1, y: 1 }],
        PieceKind::Dog => vec![LocalCoord { x: 0, y: 0 }, LocalCoord { x: 1, y: 1 }, LocalCoord { x: 2, y: 1 }, LocalCoord { x: 2, y: 2 }],
        PieceKind::ReverseDog => vec![LocalCoord { x: 0, y: 1 }, LocalCoord { x: 0, y: 2 }, LocalCoord { x: 1, y: 1 }, LocalCoord { x: 2, y: 2 }],
        PieceKind::Cap => vec![LocalCoord { x: 0, y: 2 }, LocalCoord { x: 1, y: 1 }, LocalCoord { x: 2, y: 1 }, LocalCoord { x: 3, y: 2 }],
        PieceKind::Wall => vec![LocalCoord { x: 0, y: 1 }, LocalCoord { x: 0, y: 2 }, LocalCoord { x: 3, y: 1 }, LocalCoord { x: 3, y: 2 }],
        PieceKind::Tower => vec![LocalCoord { x: 2, y: 0 }, LocalCoord { x: 1, y: 1 }, LocalCoord { x: 0, y: 1 }, LocalCoord { x: 2, y: 2 }],
        PieceKind::Star => vec![LocalCoord { x: 1, y: 0 }, LocalCoord { x: 0, y: 1 }, LocalCoord { x: 1, y: 2 }, LocalCoord { x: 2, y: 1 }],
        PieceKind::WeirdLong => vec![LocalCoord { x: 1, y: 0 }, LocalCoord { x: 1, y: 1 }, LocalCoord { x: 2, y: 2 }, LocalCoord { x: 2, y: 3 }],
        PieceKind::FourByFour => vec![LocalCoord { x: 0, y: 0 }, LocalCoord { x: 1, y: 0 }, LocalCoord { x: 2, y: 0 }, LocalCoord { x: 3, y: 0 }, LocalCoord { x: 0, y: 1 }, LocalCoord { x: 3, y: 1 }, LocalCoord { x: 0, y: 2 }, LocalCoord { x: 3, y: 2 }, LocalCoord { x: 0, y: 3 }, LocalCoord { x: 1, y: 3 }, LocalCoord { x: 2, y: 3 }, LocalCoord { x: 3, y: 3 }],
        PieceKind::LongDong => vec![LocalCoord { x: 0, y: 0 }, LocalCoord { x: 1, y: 0 }, LocalCoord { x: 2, y: 0 }, LocalCoord { x: 3, y: 0 }, LocalCoord { x: 4, y: 0 }, LocalCoord { x: 5, y: 0 }, LocalCoord { x: 6, y: 0 }, LocalCoord { x: 7, y: 0 }],
    };
    assert(r@ =~= initial_shape(kind));
    r
}

fn custom_orientation(kind: PieceKind, orientation: u8) -> (r: Vec<LocalCoord>)
    requires
        has_custom_rotation(kind),
        orientation < orientation_count(kind),
    ensures
        r@ == custom_shape(kind, orientation as int),
{
    let r = match kind {
        PieceKind::Wall => match orientation {
            0 => vec![LocalCoord { x: 0, y: 1 }, LocalCoord { x: 0, y: 2 }, LocalCoord { x: 3, y: 1 }, LocalCoord { x: 3, y: 2 }],
            1 => vec![LocalCoord { x: 0, y: 2 }, LocalCoord { x: 1, y: 3 }, LocalCoord { x: 2, y: 0 }, LocalCoord { x: 3, y: 1 }],
            2 => vec![LocalCoord { x: 1, y: 0 }, LocalCoord { x: 1, y: 3 }, LocalCoord { x: 2, y: 0 }, LocalCoord { x: 2, y: 3 }],
            _ => vec![LocalCoord { x: 0, y: 1 }, LocalCoord { x: 1, y: 0 }, LocalCoord { x: 2, y: 3 }, LocalCoord { x: 3, y: 2 }],
        },
        PieceKind::Star => match orientation {
            0 => vec![LocalCoord { x: 1, y: 0 }, LocalCoord { x: 0, y: 1 }, LocalCoord { x: 1, y: 2 }, LocalCoord { x: 2, y: 1 }],
            _ => vec![LocalCoord { x: 0, y: 0 }, LocalCoord { x: 2, y: 0 }, LocalCoord { x: 0, y: 2 }, LocalCoord { x: 2, y: 2 }],
        },
        PieceKind::WeirdLong => match orientation {
            0 => vec![LocalCoord { x: 1, y: 0 }, LocalCoord { x: 1, y: 1 }, LocalCoord { x: 2, y: 2 }, LocalCoord { x: 2, y: 3 }],
            1 => vec![LocalCoord { x: 0, y: 0 }, LocalCoord { x: 1, y: 1 }, LocalCoord { x: 2, y: 2 }, LocalCoord { x: 3, y: 3 }],
            2 => vec![LocalCoord { x: 0, y: 1 }, LocalCoord { x: 1, y: 1 }, LocalCoord { x: 2, y: 2 }, LocalCoord { x: 3, y: 2 }],
            3 => vec![LocalCoord { x: 0, y: 2 }, LocalCoord { x: 1, y: 2 }, LocalCoord { x: 2, y: 1 }, LocalCoord { x: 3, y: 1 }],
            4 => vec![LocalCoord { x: 0, y: 3 }, LocalCoord { x: 1, y: 2 }, LocalCoord { x: 2, y: 1 }, LocalCoord { x: 3, y: 0 }],
            _ => vec![LocalCoord { x: 1, y: 2 }, LocalCoord { x: 1, y: 3 }, LocalCoord { x: 2, y: 0 }, LocalCoord { x: 2, y: 1 }],
        },
        _ => Vec::new(),
    };
    assert(r@ =~= custom_shape(kind, orientation as int));
    r
}

fn piece_color(kind: PieceKind) -> (r: VisibleColor)
    ensures
        r@ == kind_color(kind),
{
    let id: u8 = match kind {
        PieceKind::El => 2,
        PieceKind::ReverseEl => 3,
        PieceKind::SlantRight => 4,
        PieceKind::SlantLeft => 5,
        PieceKind::Long => 6,
        PieceKind::Plug => 7,
        PieceKind::Box => 8,
        PieceKind::Die => 1,
        PieceKind::Happy => 1,
        PieceKind::Dog => 2,
        PieceKind::ReverseDog => 3,
        PieceKind::Cap => 4,
        PieceKind::Wall => 5,
        PieceKind::Tower => 6,
        PieceKind::Star => 7,
        PieceKind::WeirdLong => 8,
        PieceKind::FourByFour => 8,
        PieceKind::LongDong => 6,
    };
    match VisibleColor::new(id) {
        Some(color) => color,
        None => {
            assert(false);
            VisibleColor::new(1).unwrap()
        },
    }
}


/// Whether local coordinates stay inside the piece map and, for rotating kinds,
/// inside the rotation square.
pub open spec fn coords_fit(kind: PieceKind, coords: Seq<LocalCoord>) -> bool {
    forall|i: int|
        0 <= i < coords.len() ==> {
            &&& (#[trigger] coords[i]).x < 8
            &&& coords[i].y < 8
            &&& kind_width(kind) > 0 ==> coords[i].x < kind_width(kind) && coords[i].y < kind_width(kind)
        }
}

/// The local coordinate with the given components.
pub open spec fn local_of(x: int, y: int) -> LocalCoord {
    LocalCoord { x: x as u8, y: y as u8 }
}

/// Position of a local coordinate when the map is walked by column, then row.
pub open spec fn grid_pos(c: LocalCoord) -> int {
    8 * c.x + c.y
}

/// The local coordinate at a grid position.
pub open spec fn grid_coord(n: int) -> LocalCoord {
    LocalCoord { x: (n / 8) as u8, y: (n % 8) as u8 }
}

/// The members of `s` among the first `n` grid positions, in grid order.
pub open spec fn grid_scan(s: Set<LocalCoord>, n: nat) -> Seq<LocalCoord>
    decreases n,
{
    if n == 0 {
        Seq::empty()
    } else {
        let prev = grid_scan(s, (n - 1) as nat);
        let c = grid_coord(n - 1);
        if s.contains(c) {
            prev.push(c)
        } else {
            prev
        }
    }
}

/// The derived order on local coordinates: by x, then by y.
pub open spec fn coord_lt(a: LocalCoord, b: LocalCoord) -> bool {
    a.x < b.x || (a.x == b.x && a.y < b.y)
}

/// A strictly increasing sequence of local coordinates.
pub open spec fn sorted_coords(s: Seq<LocalCoord>) -> bool {
    forall|i: int, j: int| 0 <= i < j < s.len() ==> coord_lt(#[trigger] s[i], #[trigger] s[j])
}

/// Whether a board position is blocked for a moving cell.
pub open spec fn blocked(cells: Seq<Option<Cell>>, x: int, y: int, fallout: bool) -> bool {
    if fallout && 2 <= x <= 7 && y >= 28 {
        false
    } else {
        !in_board(x, y) || at(cells, x, y) is Some
    }
}

/// Every cell of `coords`, placed at the anchor `(x, y)`, is free.
pub open spec fn shape_fits(cells: Seq<Option<Cell>>, coords: Seq<LocalCoord>, x: int, y: int, fallout: bool) -> bool {
    forall|j: int| 0 <= j < coords.len() ==> !blocked(cells, x + (#[trigger] coords[j]).x, y + coords[j].y, fallout)
}

/// The 8x8 text map of occupied local cells: `X` for occupied, `.` for empty, one line per row.
pub open spec fn piece_text(coords: Seq<LocalCoord>) -> Seq<char> {
    Seq::new(
        72,
        |i: int|
            if i % 9 == 8 {
                '\n'
            } else if coords.contains(LocalCoord { x: (i % 9) as u8, y: (i / 9) as u8 }) {
                'X'
            } else {
                '.'
            },
    )
}

/// Grid order is the derived coordinate order, and a grid scan holds exactly the
/// members of the set in range, each once, in strictly increasing order.
pub proof fn lemma_grid_scan(s: Set<LocalCoord>, n: nat)
    requires
        n <= 64,
    ensures
        sorted_coords(grid_scan(s, n)),
        forall|c: LocalCoord|
            #[trigger] grid_scan(s, n).contains(c) <==> (s.contains(c) && c.x < 8 && c.y < 8 && grid_pos(c) < n),
        forall|i: int|
            0 <= i < grid_scan(s, n).len() ==> {
                &&& grid_pos(#[trigger] grid_scan(s, n)[i]) < n
                &&& grid_scan(s, n)[i].x < 8
                &&& grid_scan(s, n)[i].y < 8
            },
    decreases n,
{
    if n > 0 {
        lemma_grid_scan(s, (n - 1) as nat);
        let prev = grid_scan(s, (n - 1) as nat);
        let c = grid_coord(n - 1);
        assert(c.x == (n - 1) / 8 && c.y == (n - 1) % 8);
        assert(grid_pos(c) == n - 1);
        if s.contains(c) {
            let cur = prev.push(c);
            assert forall|i: int, j: int| 0 <= i < j < cur.len() implies coord_lt(#[trigger] cur[i], #[trigger] cur[j]) by {
                if j == cur.len() - 1 {
                    assert(grid_pos(prev[i]) < n - 1);
                } else {
                    assert(cur[i] == prev[i] && cur[j] == prev[j]);
                }
            }
            assert forall|d: LocalCoord| cur.contains(d) <==> (s.contains(d) && d.x < 8 && d.y < 8 && grid_pos(d) < n) by {
                if cur.contains(d) {
                    let k = choose|k: int| 0 <= k < cur.len() && cur[k] == d;
                    if k < prev.len() {
                        assert(prev[k] == d);
                        assert(prev.contains(d));
                    } else {
                        assert(d == c);
                    }
                }
                if s.contains(d) && d.x < 8 && d.y < 8 && grid_pos(d) < n {
                    if grid_pos(d) == n - 1 {
                        assert(d == c);
                        assert(cur[cur.len() - 1] == d);
                    } else {
                        assert(prev.contains(d));
                        let k = choose|k: int| 0 <= k < prev.len() && prev[k] == d;
                        assert(cur[k] == d);
                    }
                }
            }
        } else {
            assert forall|d: LocalCoord| prev.contains(d) <==> (s.contains(d) && d.x < 8 && d.y < 8 && grid_pos(d) < n) by {
                if s.contains(d) && d.x < 8 && d.y < 8 && grid_pos(d) == n - 1 {
                    assert(d == c);
                }
            }
        }
    }
}

/// A falling piece before it locks into a board.
#[derive(Debug, PartialEq, Eq)]
pub struct Piece {
    kind: PieceKind,
    anchor: (isize, isize),
    orientation: u8,
    coords: Vec<LocalCoord>,
    cell: Cell,
}

impl Piece {
    /// The piece's kind.
    pub closed spec fn kind_spec(&self) -> PieceKind {
        self.kind
    }

    /// The anchor's x coordinate.
    pub closed spec fn anchor_x(&self) -> int {
        self.anchor.0 as int
    }

    /// The anchor's y coordinate.
    pub closed spec fn anchor_y(&self) -> int {
        self.anchor.1 as int
    }

    /// The rotation state.
    pub closed spec fn orientation_spec(&self) -> int {
        self.orientation as int
    }

    /// The occupied local coordinates.
    pub closed spec fn coords(&self) -> Seq<LocalCoord> {
        self.coords@
    }

    /// The cell every occupied local coordinate holds.
    pub closed spec fn cell_spec(&self) -> Cell {
        self.cell
    }

    /// A piece occupies at least one distinct, in-range local cell and has a valid rotation
    /// state; a kind with hand-made rotation states occupies the cells of its state.
    pub closed spec fn wf(&self) -> bool {
        &&& self.coords@.len() >= 1
        &&& coords_fit(self.kind, self.coords@)
        &&& self.coords@.no_duplicates()
        &&& self.orientation < orientation_count(self.kind)
        &&& has_custom_rotation(self.kind) ==> self.coords@ == custom_shape(self.kind, self.orientation as int)
    }

    /// The set of occupied local coordinates.
    pub open spec fn coord_set(&self) -> Set<LocalCoord> {
        Set::new(|c: LocalCoord| self.coords().contains(c))
    }

    /// The occupied local coordinates in increasing order.
    pub open spec fn sorted_local(&self) -> Seq<LocalCoord> {
        grid_scan(self.coord_set(), 64)
    }

    /// Whether the piece covers the board position `(x, y)`.
    pub open spec fn occupies(&self, x: int, y: int) -> bool {
        &&& 0 <= x - self.anchor_x() < 8
        &&& 0 <= y - self.anchor_y() < 8
        &&& self.coords().contains(local_of(x - self.anchor_x(), y - self.anchor_y()))
    }

    /// Board coordinates of occupied cells can be computed without overflow.
    pub open spec fn anchor_room(&self) -> bool {
        self.anchor_x() <= isize::MAX - 8 && self.anchor_y() <= isize::MAX - 8
    }

    /// Whether a rotation step is possible at the current anchor.
    pub open spec fn rotation_fits(&self, cells: Seq<Option<Cell>>, reverse: bool) -> bool {
        match rotated_shape(self.kind_spec(), self.orientation_spec(), self.coords(), reverse) {
            None => false,
            Some(shape) => shape_fits(cells, shape, self.anchor_x(), self.anchor_y(), false),
        }
    }
}

impl Piece {
    /// A well-formed piece has at least one distinct occupied cell, all inside the 8x8 map
    /// and, for rotating kinds, inside the rotation square; its rotation state is valid.
    pub proof fn lemma_wf(p: Piece)
        requires
            p.wf(),
        ensures
            p.coords().len() >= 1,
            coords_fit(p.kind_spec(), p.coords()),
            p.coords().no_duplicates(),
            0 <= p.orientation_spec() < orientation_count(p.kind_spec()),
            has_custom_rotation(p.kind_spec()) ==> p.coords() == custom_shape(p.kind_spec(), p.orientation_spec()),
    {
    }
}

/// The rotation state and occupied cells after `n` forward rotation steps.
pub open spec fn rotated_n(kind: PieceKind, orientation: int, coords: Seq<LocalCoord>, n: nat) -> (int, Seq<LocalCoord>)
    decreases n,
{
    if n == 0 {
        (orientation, coords)
    } else {
        let prev = rotated_n(kind, orientation, coords, (n - 1) as nat);
        (next_orientation(kind, prev.0, false), rotated_shape(kind, prev.0, prev.1, false)->0)
    }
}

/// A quarter turn and a turn the other way leave a cell of the rotation square where it was.
proof fn lemma_turn_back(c: LocalCoord, w: int, reverse: bool)
    requires
        0 < w <= 8,
        c.x < w,
        c.y < w,
    ensures
        turn(turn(c, w, reverse), w, !reverse) == c,
{
}

/// Four quarter turns the same way leave a cell of the rotation square where it was.
proof fn lemma_turn_four(c: LocalCoord, w: int)
    requires
        0 < w <= 8,
        c.x < w,
        c.y < w,
    ensures
        turn(turn(turn(turn(c, w, false), w, false), w, false), w, false) == c,
{
}

/// Rotating a piece one step and then one step the other way gives back its cells and its
/// rotation state (a star turns the same way whichever way it is asked, and has two states).
pub proof fn lemma_rotation_undo(p: Piece, reverse: bool)
    requires
        p.wf(),
        kind_width(p.kind_spec()) > 0,
    ensures
        ({
            let k = p.kind_spec();
            let o1 = next_orientation(k, p.orientation_spec(), reverse);
            let c1 = rotated_shape(k, p.orientation_spec(), p.coords(), reverse)->0;
            &&& next_orientation(k, o1, !reverse) == p.orientation_spec()
            &&& rotated_shape(k, o1, c1, !reverse) == Some(p.coords())
        }),
{
    let k = p.kind_spec();
    let w = kind_width(k);
    let c = p.coords();
    if !has_custom_rotation(k) {
        let c1 = c.map_values(|x: LocalCoord| turn(x, w, reverse));
        let c2 = c1.map_values(|x: LocalCoord| turn(x, w, !reverse));
        assert forall|i: int| 0 <= i < c.len() implies c2[i] == c[i] by {
            assert(c[i].x < w && c[i].y < w);
            lemma_turn_back(c[i], w, reverse);
        }
        assert(c2 =~= c);
    }
}

/// Turning every cell of a square-rotating shape four times forward gives back the shape.
proof fn lemma_cycle_turns(kind: PieceKind, o: int, c: Seq<LocalCoord>)
    requires
        kind_width(kind) > 0,
        !has_custom_rotation(kind),
        coords_fit(kind, c),
    ensures
        rotated_n(kind, o, c, 4).1 == c,
{
    let w = kind_width(kind);
    let t = |x: LocalCoord| turn(x, w, false);
    assert(rotated_n(kind, o, c, 0) == (o, c));
    let r1 = rotated_n(kind, o, c, 1);
    let r2 = rotated_n(kind, o, c, 2);
    let r3 = rotated_n(kind, o, c, 3);
    let r4 = rotated_n(kind, o, c, 4);
    assert(r1.1 == c.map_values(t));
    assert(r2.1 == r1.1.map_values(t));
    assert(r3.1 == r2.1.map_values(t));
    assert(r4.1 == r3.1.map_values(t));
    assert forall|i: int| 0 <= i < c.len() implies r4.1[i] == c[i] by {
        assert(c[i].x < w && c[i].y < w);
        lemma_turn_four(c[i], w);
    }
    assert(r4.1 =~= c);
}

/// Rotating a rotating piece forward through all its rotation states brings it back to its
/// cells and its state.
pub proof fn lemma_rotation_cycle(p: Piece)
    requires
        p.wf(),
        kind_width(p.kind_spec()) > 0,
    ensures
        rotated_n(p.kind_spec(), p.orientation_spec(), p.coords(), orientation_count(p.kind_spec()) as nat) == (
        p.orientation_spec(),
        p.coords(),
        ),
{
    let k = p.kind_spec();
    let o = p.orientation_spec();
    let c = p.coords();
    assert(rotated_n(k, o, c, 0) == (o, c));
    let r1 = rotated_n(k, o, c, 1);
    let r2 = rotated_n(k, o, c, 2);
    assert(r1.0 == next_orientation(k, o, false));
    assert(r2.0 == next_orientation(k, r1.0, false));
    if k == PieceKind::Star {
        assert(r2.1 == custom_shape(k, (r1.0 + 1) % 2));
    } else {
        let r3 = rotated_n(k, o, c, 3);
        let r4 = rotated_n(k, o, c, 4);
        assert(r3.0 == next_orientation(k, r2.0, false));
        assert(r4.0 == next_orientation(k, r3.0, false));
        if k == PieceKind::WeirdLong {
            let r5 = rotated_n(k, o, c, 5);
            let r6 = rotated_n(k, o, c, 6);
            assert(r5.0 == next_orientation(k, r4.0, false));
            assert(r6.0 == next_orientation(k, r5.0, false));
            assert(r6.1 == custom_shape(k, r6.0));
        } else if k == PieceKind::Wall {
            assert(r4.1 == custom_shape(k, r4.0));
        } else {
            lemma_cycle_turns(k, o, c);
        }
    }
}

impl Clone for Piece {
    fn clone(&self) -> (r: Self)
        ensures
            r.kind_spec() == self.kind_spec(),
            r.anchor_x() == self.anchor_x(),
            r.anchor_y() == self.anchor_y(),
            r.orientation_spec() == self.orientation_spec(),
            r.coords() == self.coords(),
            r.cell_spec() == self.cell_spec(),
            r.wf() == self.wf(),
    {
        Piece {
            kind: self.kind,
            anchor: self.anchor,
            orientation: self.orientation,
            coords: self.coords.clone(),
            cell: self.cell,
        }
    }
}

proof fn lemma_initial_shape_ok(kind: PieceKind)
    ensures
        initial_shape(kind).len() >= 1,
        coords_fit(kind, initial_shape(kind)),
        initial_shape(kind).no_duplicates(),
{
}

proof fn lemma_custom_shape_ok(kind: PieceKind, o: int)
    requires
        has_custom_rotation(kind),
        0 <= o < orientation_count(kind),
    ensures
        custom_shape(kind, o).len() == 4,
        coords_fit(kind, custom_shape(kind, o)),
        custom_shape(kind, o).no_duplicates(),
{
}


/// The local coordinates of a shape, each turned a quarter within the rotation square.
proof fn lemma_turn_ok(kind: PieceKind, coords: Seq<LocalCoord>, reverse: bool)
    requires
        kind_width(kind) > 0,
        coords_fit(kind, coords),
        coords.no_duplicates(),
    ensures
        coords_fit(kind, coords.map_values(|c: LocalCoord| turn(c, kind_width(kind), reverse))),
        coords.map_values(|c: LocalCoord| turn(c, kind_width(kind), reverse)).no_duplicates(),
        coords.map_values(|c: LocalCoord| turn(c, kind_width(kind), reverse)).len() == coords.len(),
{
    let w = kind_width(kind);
    let t = coords.map_values(|c: LocalCoord| turn(c, w, reverse));
    assert forall|i: int| 0 <= i < t.len() implies {
        &&& (#[trigger] t[i]).x < 8
        &&& t[i].y < 8
        &&& t[i].x < w && t[i].y < w
    } by {
        assert(coords[i].x < w && coords[i].y < w);
    }
    assert forall|i: int, j: int| 0 <= i < t.len() && 0 <= j < t.len() && i != j implies t[i] != t[j] by {
        assert(coords[i].x < w && coords[i].y < w);
        assert(coords[j].x < w && coords[j].y < w);
        assert(coords[i] != coords[j]);
    }
}

fn cell_for_piece(kind: PieceKind) -> (r: Cell)
    ensures
        kind_cell(kind, r),
{
    match kind {
        PieceKind::Die => match Pip::new(1) {
            Some(pip) => Cell::die(pip),
            None => {
                assert(false);
                Cell::Happy
            },
        },
        PieceKind::Happy => Cell::Happy,
        _ => Cell::visible_with_color(piece_color(kind)),
    }
}

fn contains_coord(coords: &Vec<LocalCoord>, c: LocalCoord) -> (r: bool)
    ensures
        r == coords@.contains(c),
{
    let mut i: usize = 0;
    while i < coords.len()
        invariant
            i <= coords@.len(),
            forall|j: int| 0 <= j < i ==> coords@[j] != c,
        decreases coords@.len() - i,
    {
        if coords[i] == c {
            assert(coords@[i as int] == c);
            return true;
        }
        i = i + 1;
    }
    false
}

impl Piece {
    /// Creates a piece at its legacy post-lock spawn anchor.
    #[must_use]
    pub fn spawn(kind: PieceKind) -> (r: Self)
        ensures
            r.wf(),
            r.kind_spec() == kind,
            r.anchor_x() == 5 - kind_width(kind) / 2,
            r.anchor_y() == 0,
            r.orientation_spec() == 0,
            r.coords() == initial_shape(kind),
            kind_cell(kind, r.cell_spec()),
    {
        let (x, y) = kind.spawn_anchor();
        Self::new(kind, x, y)
    }

    /// Creates a die piece at its legacy spawn anchor with an explicit pip.
    #[must_use]
    pub fn spawn_die(pip: Pip) -> (r: Self)
        ensures
            r.wf(),
            r.kind_spec() == PieceKind::Die,
            r.anchor_x() == 5,
            r.anchor_y() == 0,
            r.orientation_spec() == 0,
            r.coords() == initial_shape(PieceKind::Die),
            r.cell_spec() == (Cell::Die { pip }),
    {
        let (x, y) = PieceKind::Die.spawn_anchor();
        Self::new_with_cell(PieceKind::Die, x, y, Cell::die(pip))
    }

    /// Creates a piece at an explicit board anchor.
    #[must_use]
    pub fn new(kind: PieceKind, x: isize, y: isize) -> (r: Self)
        ensures
            r.wf(),
            r.kind_spec() == kind,
            r.anchor_x() == x,
            r.anchor_y() == y,
            r.orientation_spec() == 0,
            r.coords() == initial_shape(kind),
            kind_cell(kind, r.cell_spec()),
    {
        Self::new_with_cell(kind, x, y, cell_for_piece(kind))
    }

    fn new_with_cell(kind: PieceKind, x: isize, y: isize, cell: Cell) -> (r: Self)
        ensures
            r.wf(),
            r.kind_spec() == kind,
            r.anchor_x() == x,
            r.anchor_y() == y,
            r.orientation_spec() == 0,
            r.coords() == initial_shape(kind),
            r.cell_spec() == cell,
    {
        proof {
            lemma_initial_shape_ok(kind);
        }
        Self { kind, anchor: (x, y), orientation: 0, coords: initial_coords(kind), cell }
    }

    /// Returns this piece's kind.
    #[must_use]
    pub fn kind(&self) -> (r: PieceKind)
        ensures
            r == self.kind_spec(),
    {
        self.kind
    }

    /// Returns this piece's board anchor.
    #[must_use]
    pub fn anchor(&self) -> (r: (isize, isize))
        ensures
            r.0 == self.anchor_x(),
            r.1 == self.anchor_y(),
    {
        self.anchor
    }

    /// Returns this piece's rotation state.
    #[must_use]
    pub fn orientation(&self) -> (r: u8)
        ensures
            r == self.orientation_spec(),
    {
        self.orientation
    }

    /// Returns occupied local coordinates in deterministic order.
    #[must_use]
    pub fn local_coords(&self) -> (r: Vec<LocalCoord>)
        ensures
            r@ == self.sorted_local(),
    {
        let ghost set = self.coord_set();
        let mut r: Vec<LocalCoord> = Vec::new();
        let mut n: u8 = 0;
        while n < 64
            invariant
                n <= 64,
                set == self.coord_set(),
                r@ == grid_scan(set, n as nat),
            decreases 64 - n,
        {
            let c = LocalCoord { x: n / 8, y: n % 8 };
            assert(c == grid_coord(n as int));
            if contains_coord(&self.coords, c) {
                r.push(c);
            }
            n = n + 1;
        }
        r
    }

    /// Returns occupied board coordinates in deterministic order.
    #[must_use]
    pub fn board_coords(&self) -> (r: Vec<(isize, isize)>)
        requires
            self.anchor_room(),
        ensures
            r@.len() == self.sorted_local().len(),
            forall|i: int|
                0 <= i < r@.len() ==> (#[trigger] r@[i]).0 == self.anchor_x() + self.sorted_local()[i].x
                    && r@[i].1 == self.anchor_y() + self.sorted_local()[i].y,
    {
        let local = self.local_coords();
        proof {
            lemma_grid_scan(self.coord_set(), 64);
        }
        let mut r: Vec<(isize, isize)> = Vec::new();
        let mut i: usize = 0;
        while i < local.len()
            invariant
                i <= local@.len(),
                local@ == self.sorted_local(),
                self.anchor_room(),
                forall|k: int| 0 <= k < local@.len() ==> (#[trigger] local@[k]).x < 8 && local@[k].y < 8,
                r@.len() == i,
                forall|k: int|
                    0 <= k < i ==> (#[trigger] r@[k]).0 == self.anchor_x() + local@[k].x && r@[k].1
                        == self.anchor_y() + local@[k].y,
            decreases local@.len() - i,
        {
            let c = local[i];
            r.push((self.anchor.0 + c.x as isize, self.anchor.1 + c.y as isize));
            i = i + 1;
        }
        r
    }

    /// Returns occupied board cells in deterministic coordinate order.
    #[must_use]
    pub fn cells(&self) -> (r: Vec<((isize, isize), Cell)>)
        requires
            self.anchor_room(),
        ensures
            r@.len() == self.sorted_local().len(),
            forall|i: int|
                0 <= i < r@.len() ==> (#[trigger] r@[i]).0.0 == self.anchor_x() + self.sorted_local()[i].x
                    && r@[i].0.1 == self.anchor_y() + self.sorted_local()[i].y && r@[i].1 == self.cell_spec(),
    {
        let coords = self.board_coords();
        let mut r: Vec<((isize, isize), Cell)> = Vec::new();
        let mut i: usize = 0;
        while i < coords.len()
            invariant
                i <= coords@.len(),
                coords@.len() == self.sorted_local().len(),
                forall|k: int|
                    0 <= k < coords@.len() ==> (#[trigger] coords@[k]).0 == self.anchor_x() + self.sorted_local()[k].x
                        && coords@[k].1 == self.anchor_y() + self.sorted_local()[k].y,
                r@.len() == i,
                forall|k: int| 0 <= k < i ==> (#[trigger] r@[k]).0 == coords@[k] && r@[k].1 == self.cell_spec(),
            decreases coords@.len() - i,
        {
            r.push((coords[i], self.cell));
            i = i + 1;
        }
        r
    }

    /// Moves the piece anchor without collision checks for spawn transformations.
    pub fn set_anchor(&mut self, x: isize, y: isize)
        ensures
            final(self).anchor_x() == x,
            final(self).anchor_y() == y,
            final(self).kind_spec() == old(self).kind_spec(),
            final(self).orientation_spec() == old(self).orientation_spec(),
            final(self).coords() == old(self).coords(),
            final(self).cell_spec() == old(self).cell_spec(),
            final(self).wf() == old(self).wf(),
    {
        self.anchor = (x, y);
    }

    /// Returns the lowest occupied local y coordinate.
    #[must_use]
    pub fn max_local_y(&self) -> (r: u8)
        requires
            self.wf(),
        ensures
            forall|i: int| 0 <= i < self.coords().len() ==> (#[trigger] self.coords()[i]).y <= r,
            exists|i: int| 0 <= i < self.coords().len() && (#[trigger] self.coords()[i]).y == r,
    {
        let mut best: u8 = self.coords[0].y;
        let mut i: usize = 1;
        while i < self.coords.len()
            invariant
                1 <= i <= self.coords@.len(),
                forall|k: int| 0 <= k < i ==> (#[trigger] self.coords@[k]).y <= best,
                exists|k: int| 0 <= k < i && (#[trigger] self.coords@[k]).y == best,
            decreases self.coords@.len() - i,
        {
            if self.coords[i].y > best {
                best = self.coords[i].y;
            }
            i = i + 1;
        }
        proof {
            let k = choose|k: int| 0 <= k < i && (#[trigger] self.coords@[k]).y == best;
            assert(self.coords()[k].y == best);
        }
        best
    }

    /// Locks this piece into a board. Callers must ensure it fits first.
    pub fn lock_into(self, board: &mut Board)
        requires
            old(board).wf(),
            self.wf(),
            self.anchor_room(),
            forall|j: int|
                0 <= j < self.coords().len() ==> in_board(
                    self.anchor_x() + (#[trigger] self.coords()[j]).x,
                    self.anchor_y() + self.coords()[j].y,
                ),
        ensures
            final(board).wf(),
            forall|x: int, y: int|
                in_board(x, y) ==> #[trigger] at(final(board)@, x, y) == if self.occupies(x, y) {
                    Some(self.cell_spec())
                } else {
                    at(old(board)@, x, y)
                },
    {
        let ghost before = board@;
        let ghost ax = self.anchor_x();
        let ghost ay = self.anchor_y();
        let mut k: usize = 0;
        while k < self.coords.len()
            invariant
                k <= self.coords().len(),
                board.wf(),
                self.wf(),
                ax == self.anchor_x(),
                ay == self.anchor_y(),
                self.anchor_room(),
                forall|j: int|
                    0 <= j < self.coords().len() ==> in_board(
                        self.anchor_x() + (#[trigger] self.coords()[j]).x,
                        self.anchor_y() + self.coords()[j].y,
                    ),
                forall|x: int, y: int|
                    in_board(x, y) ==> #[trigger] at(board@, x, y) == if covers_prefix(self.coords(), k as int, x - ax, y - ay) {
                        Some(self.cell)
                    } else {
                        at(before, x, y)
                    },
            decreases self.coords().len() - k,
        {
            let c = self.coords[k];
            assert(c == self.coords()[k as int]);
            assert(in_board(ax + c.x, ay + c.y));
            assert(c.x < 8 && c.y < 8);
            let px = self.anchor.0 + c.x as isize;
            let py = self.anchor.1 + c.y as isize;
            let ghost mid = board@;
            match Coord::new(px as usize, py as usize) {
                Some(coord) => {
                    board.set(coord, Some(self.cell));
                },
                None => {
                    assert(false);
                },
            }
            proof {
                assert(local_of(px - ax, py - ay) == c);
                assert forall|x: int, y: int| in_board(x, y) implies #[trigger] at(board@, x, y) == if covers_prefix(self.coords(), k + 1, x - ax, y - ay) {
                    Some(self.cell)
                } else {
                    at(before, x, y)
                } by {
                    if x == px && y == py {
                        assert(self.coords()[k as int] == local_of(x - ax, y - ay));
                        assert(covers_prefix(self.coords(), k + 1, x - ax, y - ay));
                    } else {
                        if cell_index(x, y) == cell_index(px as int, py as int) {
                            crate::board::lemma_index_unique(x, y, px as int, py as int);
                        }
                        assert(at(board@, x, y) == at(mid, x, y));
                        if covers_prefix(self.coords(), k + 1, x - ax, y - ay) {
                            let j = choose|j: int| 0 <= j < k + 1 && self.coords()[j] == local_of(x - ax, y - ay);
                            if j == k {
                                assert(local_of(x - ax, y - ay).x == (x - ax));
                                assert(local_of(x - ax, y - ay).y == (y - ay));
                                assert(false);
                            }
                            assert(covers_prefix(self.coords(), k as int, x - ax, y - ay));
                        }
                    }
                }
            }
            k = k + 1;
        }
        proof {
            assert forall|x: int, y: int| in_board(x, y) implies #[trigger] at(board@, x, y) == if self.occupies(x, y) {
                Some(self.cell_spec())
            } else {
                at(before, x, y)
            } by {
                if self.occupies(x, y) {
                    let j = choose|j: int| 0 <= j < self.coords().len() && self.coords()[j] == local_of(x - ax, y - ay);
                    assert(covers_prefix(self.coords(), k as int, x - ax, y - ay));
                }
                if covers_prefix(self.coords(), k as int, x - ax, y - ay) {
                    let j = choose|j: int| 0 <= j < k && self.coords()[j] == local_of(x - ax, y - ay);
                    assert(self.coords().contains(local_of(x - ax, y - ay)));
                }
            }
        }
    }
}

/// Some of the first `k` local coordinates equals `(dx, dy)`.
pub open spec fn covers_prefix(coords: Seq<LocalCoord>, k: int, dx: int, dy: int) -> bool {
    &&& 0 <= dx < 8
    &&& 0 <= dy < 8
    &&& exists|j: int| 0 <= j < k && #[trigger] coords[j] == local_of(dx, dy)
}


fn shape_fits_exec(board: &Board, coords: &Vec<LocalCoord>, x: isize, y: isize, fallout: bool) -> (r: bool)
    requires
        board.wf(),
        x <= isize::MAX - 8,
        y <= isize::MAX - 8,
        forall|j: int| 0 <= j < coords@.len() ==> (#[trigger] coords@[j]).x < 8 && coords@[j].y < 8,
    ensures
        r == shape_fits(board@, coords@, x as int, y as int, fallout),
{
    let mut i: usize = 0;
    while i < coords.len()
        invariant
            i <= coords@.len(),
            board.wf(),
            x <= isize::MAX - 8,
            y <= isize::MAX - 8,
            forall|j: int| 0 <= j < coords@.len() ==> (#[trigger] coords@[j]).x < 8 && coords@[j].y < 8,
            forall|j: int| 0 <= j < i ==> !blocked(board@, x + (#[trigger] coords@[j]).x, y + coords@[j].y, fallout),
        decreases coords@.len() - i,
    {
        let c = coords[i];
        assert(c == coords@[i as int]);
        if board.is_occupied_with_fallout(x + c.x as isize, y + c.y as isize, fallout) {
            return false;
        }
        i = i + 1;
    }
    true
}

impl Piece {
    /// Returns true when every occupied cell can move to the destination anchor.
    #[must_use]
    pub fn can_move_to(&self, board: &Board, x: isize, y: isize) -> (r: bool)
        requires
            self.wf(),
            board.wf(),
            x <= isize::MAX - 8,
            y <= isize::MAX - 8,
        ensures
            r == shape_fits(board@, self.coords(), x as int, y as int, false),
    {
        self.can_move_to_with_fallout(board, x, y, false)
    }

    /// Returns true when occupied cells can move, with optional Fallout black-hole bounds.
    #[must_use]
    pub fn can_move_to_with_fallout(&self, board: &Board, x: isize, y: isize, fallout: bool) -> (r: bool)
        requires
            self.wf(),
            board.wf(),
            x <= isize::MAX - 8,
            y <= isize::MAX - 8,
        ensures
            r == shape_fits(board@, self.coords(), x as int, y as int, fallout),
    {
        shape_fits_exec(board, &self.coords, x, y, fallout)
    }

    /// Moves the piece to the destination anchor if there is no collision.
    pub fn move_to(&mut self, board: &Board, x: isize, y: isize) -> (r: bool)
        requires
            old(self).wf(),
            board.wf(),
            x <= isize::MAX - 8,
            y <= isize::MAX - 8,
        ensures
            r == shape_fits(board@, old(self).coords(), x as int, y as int, false),
            final(self).wf(),
            final(self).anchor_x() == if r { x as int } else { old(self).anchor_x() },
            final(self).anchor_y() == if r { y as int } else { old(self).anchor_y() },
            final(self).kind_spec() == old(self).kind_spec(),
            final(self).orientation_spec() == old(self).orientation_spec(),
            final(self).coords() == old(self).coords(),
            final(self).cell_spec() == old(self).cell_spec(),
    {
        self.move_to_with_fallout(board, x, y, false)
    }

    /// Moves the piece with optional Fallout black-hole bounds.
    pub fn move_to_with_fallout(&mut self, board: &Board, x: isize, y: isize, fallout: bool) -> (r: bool)
        requires
            old(self).wf(),
            board.wf(),
            x <= isize::MAX - 8,
            y <= isize::MAX - 8,
        ensures
            r == shape_fits(board@, old(self).coords(), x as int, y as int, fallout),
            final(self).wf(),
            final(self).anchor_x() == if r { x as int } else { old(self).anchor_x() },
            final(self).anchor_y() == if r { y as int } else { old(self).anchor_y() },
            final(self).kind_spec() == old(self).kind_spec(),
            final(self).orientation_spec() == old(self).orientation_spec(),
            final(self).coords() == old(self).coords(),
            final(self).cell_spec() == old(self).cell_spec(),
    {
        if !self.can_move_to_with_fallout(board, x, y, fallout) {
            return false;
        }
        self.anchor = (x, y);
        true
    }

    /// Returns true when this piece can rotate at its current anchor.
    #[must_use]
    pub fn can_rotate(&self, board: &Board, reverse: bool) -> (r: bool)
        requires
            self.wf(),
            board.wf(),
            self.anchor_room(),
        ensures
            r == self.rotation_fits(board@, reverse),
    {
        match self.rotated_cells(reverse) {
            None => false,
            Some(cells) => shape_fits_exec(board, &cells, self.anchor.0, self.anchor.1, false),
        }
    }

    /// Rotates this piece in place if there is no collision. No wall kicks apply.
    pub fn rotate(&mut self, board: &Board, reverse: bool) -> (r: bool)
        requires
            old(self).wf(),
            board.wf(),
            old(self).anchor_room(),
        ensures
            r == old(self).rotation_fits(board@, reverse),
            final(self).wf(),
            final(self).kind_spec() == old(self).kind_spec(),
            final(self).anchor_x() == old(self).anchor_x(),
            final(self).anchor_y() == old(self).anchor_y(),
            final(self).cell_spec() == old(self).cell_spec(),
            r ==> Some(final(self).coords()) == rotated_shape(
                old(self).kind_spec(),
                old(self).orientation_spec(),
                old(self).coords(),
                reverse,
            ),
            r ==> final(self).orientation_spec() == next_orientation(
                old(self).kind_spec(),
                old(self).orientation_spec(),
                reverse,
            ),
            !r ==> final(self).coords() == old(self).coords() && final(self).orientation_spec()
                == old(self).orientation_spec(),
    {
        let cells = match self.rotated_cells(reverse) {
            None => {
                return false;
            },
            Some(cells) => cells,
        };
        if !shape_fits_exec(board, &cells, self.anchor.0, self.anchor.1, false) {
            return false;
        }
        self.coords = cells;
        self.orientation = rotated_orientation(self.kind, self.orientation, reverse);
        true
    }

    fn rotated_cells(&self, reverse: bool) -> (r: Option<Vec<LocalCoord>>)
        requires
            self.wf(),
        ensures
            match r {
                None => rotated_shape(self.kind, self.orientation as int, self.coords@, reverse) is None,
                Some(v) => {
                    &&& rotated_shape(self.kind, self.orientation as int, self.coords@, reverse) == Some(v@)
                    &&& v@.len() >= 1
                    &&& coords_fit(self.kind, v@)
                    &&& v@.no_duplicates()
                },
            },
    {
        let width = self.kind.rotation_width();
        if width == 0 {
            return None;
        }
        if self.kind == PieceKind::Star {
            let next = (self.orientation + 1) % 2;
            proof {
                lemma_custom_shape_ok(self.kind, next as int);
            }
            return Some(custom_orientation(self.kind, next));
        }
        if self.kind == PieceKind::Wall || self.kind == PieceKind::WeirdLong {
            let next = rotated_orientation(self.kind, self.orientation, reverse);
            proof {
                lemma_custom_shape_ok(self.kind, next as int);
            }
            return Some(custom_orientation(self.kind, next));
        }
        let ghost w = kind_width(self.kind);
        let top = width - 1;
        let mut out: Vec<LocalCoord> = Vec::new();
        let mut i: usize = 0;
        while i < self.coords.len()
            invariant
                i <= self.coords@.len(),
                top as int == w - 1,
                w == kind_width(self.kind),
                w > 0,
                coords_fit(self.kind, self.coords@),
                out@.len() == i,
                forall|k: int| 0 <= k < i ==> #[trigger] out@[k] == turn(self.coords@[k], w, reverse),
            decreases self.coords@.len() - i,
        {
            let c = self.coords[i];
            assert(c == self.coords@[i as int]);
            let t = if reverse {
                LocalCoord { x: top - c.y, y: c.x }
            } else {
                LocalCoord { x: c.y, y: top - c.x }
            };
            assert(t == turn(c, w, reverse));
            out.push(t);
            i = i + 1;
        }
        proof {
            lemma_turn_ok(self.kind, self.coords@, reverse);
            assert(out@ =~= self.coords@.map_values(|c: LocalCoord| turn(c, w, reverse)));
        }
        Some(out)
    }
}

fn rotated_orientation(kind: PieceKind, orientation: u8, reverse: bool) -> (r: u8)
    requires
        orientation < orientation_count(kind) || orientation < 6,
    ensures
        r == next_orientation(kind, orientation as int, reverse),
        r < if kind == PieceKind::Star { 2int } else if kind == PieceKind::WeirdLong { 6int } else { 4int },
{
    let orientations: u8 = match kind {
        PieceKind::Star => 2,
        PieceKind::WeirdLong => 6,
        _ => 4,
    };
    if reverse {
        (orientation + orientations - 1) % orientations
    } else {
        (orientation + 1) % orientations
    }
}

/// Renders occupied local cells as an 8x8 fixture map.
#[must_use]
pub fn piece_to_text(piece: &Piece) -> (r: String)
    ensures
        r@ == piece_text(piece.coords()),
{
    let ghost t = piece_text(piece.coords());
    let mut text = String::new();
    let mut y: usize = 0;
    while y < PIECE_MAP_SIZE
        invariant
            y <= 8,
            t == piece_text(piece.coords()),
            text@ =~= t.take(9 * y as int),
        decreases 8 - y,
    {
        let mut x: usize = 0;
        while x < PIECE_MAP_SIZE
            invariant
                x <= 8,
                y < 8,
                t == piece_text(piece.coords()),
                text@ =~= t.take(9 * y + x),
            decreases 8 - x,
        {
            let c = LocalCoord { x: x as u8, y: y as u8 };
            let occupied = contains_coord(&piece.coords, c);
            let ghost i = 9 * y + x;
            assert(i % 9 == x as int && i / 9 == y as int);
            if occupied {
                proof {
                    reveal_strlit("X");
                }
                text.append("X");
            } else {
                proof {
                    reveal_strlit(".");
                }
                text.append(".");
            }
            assert(t.take(i + 1) =~= t.take(i).push(t[i]));
            x = x + 1;
        }
        let ghost i = 9 * y + 8;
        assert(i % 9 == 8);
        proof {
            reveal_strlit("\n");
        }
        text.append("\n");
        assert(t.take(i + 1) =~= t.take(i).push(t[i]));
        y = y + 1;
    }
    assert(t.take(72) =~= t);
    text
}

/// Returns whether the piece's occupied cells can be inside the board at spawn.
#[must_use]
pub fn spawn_is_horizontally_centered(kind: PieceKind) -> (r: bool)
    ensures
        r == forall|j: int|
            0 <= j < initial_shape(kind).len() ==> 0 <= 5 - kind_width(kind) / 2 + (#[trigger] initial_shape(kind)[j]).x < 10,
{
    let piece = Piece::spawn(kind);
    let ax = piece.anchor.0;
    let mut i: usize = 0;
    while i < piece.coords.len()
        invariant
            i <= piece.coords@.len(),
            piece.coords@ == initial_shape(kind),
            piece.wf(),
            ax == 5 - kind_width(kind) / 2,
            forall|j: int| 0 <= j < i ==> 0 <= ax + (#[trigger] piece.coords@[j]).x < 10,
        decreases piece.coords@.len() - i,
    {
        let c = piece.coords[i];
        assert(c == piece.coords@[i as int]);
        assert(c.x < 8);
        let x = ax + c.x as isize;
        if x < 0 || x >= 10 {
            return false;
        }
        i = i + 1;
    }
    true
}

} // verus!
