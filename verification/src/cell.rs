//! Board cell identity, values, removability, and legacy ID mappings.
//!
//! Cells are typed in the core model. Legacy numeric IDs are compatibility views
//! used by board snapshots and protocol adapters.

use vstd::prelude::*;

verus! {

/// Funds value awarded by a happy cell before it becomes a frown.
pub const HAPPY_VALUE: i32 = 150;

/// A one-cell die pip value.
#[derive(Debug, Clone, Copy, PartialEq, Eq, Structural)]
pub struct Pip(u8);

impl View for Pip {
    type V = u8;

    closed spec fn view(&self) -> u8 {
        self.0
    }
}

impl Pip {
    /// A pip value lies in `1..=6`.
    #[verifier::type_invariant]
    spec fn in_range(self) -> bool {
        1 <= self.0 <= 6
    }

    /// Creates a pip value in the inclusive legacy range `1..=6`.
    #[must_use]
    pub fn new(value: u8) -> (r: Option<Self>)
        ensures
            r is Some <==> 1 <= value <= 6,
            r matches Some(p) ==> p@ == value,
    {
        if value >= 1 && value <= 6 {
            Some(Self(value))
        } else {
            None
        }
    }

    /// Returns the numeric pip value.
    #[must_use]
    pub fn get(self) -> (r: u8)
        ensures
            r == self@,
            1 <= r <= 6,
    {
        proof {
            use_type_invariant(&self);
        }
        self.0
    }

    /// Two pips with the same numeric value are the same pip.
    pub proof fn lemma_view_injective(a: Pip, b: Pip)
        ensures
            a@ == b@ <==> a == b,
    {
    }
}

/// A legacy visible-cell color ID.
#[derive(Debug, Clone, Copy, PartialEq, Eq, Structural)]
pub struct VisibleColor(u8);

impl View for VisibleColor {
    type V = u8;

    closed spec fn view(&self) -> u8 {
        self.0
    }
}

impl VisibleColor {
    /// A color ID lies in `1..=19`.
    #[verifier::type_invariant]
    spec fn in_range(self) -> bool {
        1 <= self.0 <= 19
    }

    /// Creates a legacy visible color ID in the range used for normal boxes.
    #[must_use]
    pub fn new(value: u8) -> (r: Option<Self>)
        ensures
            r is Some <==> 1 <= value <= 19,
            r matches Some(c) ==> c@ == value,
    {
        if value >= 1 && value <= 19 {
            Some(Self(value))
        } else {
            None
        }
    }

    /// Returns the numeric legacy color ID.
    #[must_use]
    pub fn get(self) -> (r: u8)
        ensures
            r == self@,
            1 <= r <= 19,
    {
        proof {
            use_type_invariant(&self);
        }
        self.0
    }

    /// Two colors with the same numeric ID are the same color.
    pub proof fn lemma_view_injective(a: VisibleColor, b: VisibleColor)
        ensures
            a@ == b@ <==> a == b,
    {
    }
}

/// The typed state of an occupied board cell.
#[derive(Debug, Clone, Copy, PartialEq, Eq, Structural)]
pub enum Cell {
    /// A normal visible, removable cell with no funds value.
    Visible {
        /// Legacy color ID reported by compatibility snapshots.
        color: VisibleColor,
    },
    /// A non-removable structure cell, used by later weapons such as Bottle neck.
    Structure,
    /// A happy cell worth funds until missed.
    Happy,
    /// A missed happy cell with no funds value.
    Frown,
    /// A removable gimp cell that preserves the replaced cell's funds value.
    Gimp {
        /// Funds value preserved from the cell replaced by The Gimp.
        value: i32,
    },
    /// A die cell whose pip value contributes funds when cleared.
    Die {
        /// Die pip value in the legacy range `1..=6`.
        pip: Pip,
    },
    /// An occupied Bug Report cell that legacy snapshots serialize as empty.
    Invisible,
    /// A Twilight-hidden cell whose legacy ID is `-1`.
    Hidden {
        /// Funds value preserved from the hidden cell.
        value: i32,
        /// Whether the hidden cell can be removed by line and weapon effects.
        removable: bool,
    },
}

/// Whether a cell may be removed by line and weapon effects.
pub open spec fn spec_removable(c: Cell) -> bool {
    match c {
        Cell::Structure => false,
        Cell::Hidden { removable, .. } => removable,
        _ => true,
    }
}

/// The funds value a cell carries.
pub open spec fn spec_value(c: Cell) -> int {
    match c {
        Cell::Happy => HAPPY_VALUE as int,
        Cell::Gimp { value } => value as int,
        Cell::Hidden { value, .. } => value as int,
        Cell::Die { pip } => pip@ as int,
        _ => 0,
    }
}

/// The legacy `BTBox::id()` number of a cell.
pub open spec fn spec_legacy_id(c: Cell) -> int {
    match c {
        Cell::Visible { color } => color@ as int,
        Cell::Structure => 20,
        Cell::Happy => 21,
        Cell::Frown => 22,
        Cell::Gimp { .. } => 23,
        Cell::Die { pip } => 23 + pip@,
        Cell::Invisible => 0,
        Cell::Hidden { .. } => -1,
    }
}

/// A cell's color and pips lie in their legacy ranges, as every color and pip value does.
pub open spec fn in_legacy_ranges(c: Cell) -> bool {
    match c {
        Cell::Visible { color } => 1 <= color@ <= 19,
        Cell::Die { pip } => 1 <= pip@ <= 6,
        _ => true,
    }
}

/// Whether a cell is fully described by its legacy ID: every kind except the
/// invisible and hidden cells, with a Gimp cell that carries no funds.
pub open spec fn legacy_faithful(c: Cell) -> bool {
    match c {
        Cell::Visible { color } => 1 <= color@ <= 19,
        Cell::Gimp { value } => value == 0,
        Cell::Die { pip } => 1 <= pip@ <= 6,
        Cell::Invisible => false,
        Cell::Hidden { .. } => false,
        _ => true,
    }
}

impl Cell {
    /// Creates the default visible fixture cell.
    #[must_use]
    pub fn visible() -> (r: Self)
        ensures
            r matches Cell::Visible { color } && color@ == 1,
    {
        Self::Visible { color: VisibleColor(1) }
    }

    /// Creates a visible cell with an explicit legacy color.
    #[must_use]
    pub fn visible_with_color(color: VisibleColor) -> (r: Self)
        ensures
            r == (Cell::Visible { color }),
    {
        Self::Visible { color }
    }

    /// Creates a die cell for a valid pip value.
    #[must_use]
    pub fn die(pip: Pip) -> (r: Self)
        ensures
            r == (Cell::Die { pip }),
    {
        Self::Die { pip }
    }

    /// Returns whether line and weapon effects may remove this occupied cell.
    #[must_use]
    pub fn is_removable(self) -> (r: bool)
        ensures
            r == spec_removable(self),
    {
        match self {
            Self::Structure => false,
            Self::Hidden { removable, .. } => removable,
            _ => true,
        }
    }

    /// Returns the funds value carried by this cell.
    #[must_use]
    pub fn value(self) -> (r: i32)
        ensures
            r as int == spec_value(self),
    {
        match self {
            Self::Happy => HAPPY_VALUE,
            Self::Gimp { value } => value,
            Self::Hidden { value, .. } => value,
            Self::Die { pip } => pip.get() as i32,
            _ => 0,
        }
    }

    /// Returns the legacy `BTBox::id()` compatibility value for this cell.
    #[must_use]
    pub fn legacy_id(self) -> (r: i16)
        ensures
            r as int == spec_legacy_id(self),
            in_legacy_ranges(self),
    {
        match self {
            Self::Visible { color } => color.get() as i16,
            Self::Structure => 20,
            Self::Happy => 21,
            Self::Frown => 22,
            Self::Gimp { .. } => 23,
            Self::Die { pip } => 23 + pip.get() as i16,
            Self::Invisible => 0,
            Self::Hidden { .. } => -1,
        }
    }

    /// Recreates a cell from a nonzero legacy snapshot ID.
    #[must_use]
    pub fn from_legacy_id(id: i16) -> (r: Option<Self>)
        ensures
            r is Some <==> 1 <= id <= 29,
            r matches Some(c) ==> spec_legacy_id(c) == id && legacy_faithful(c),
    {
        if 1 <= id && id <= 19 {
            Some(Self::Visible { color: VisibleColor(id as u8) })
        } else if id == 20 {
            Some(Self::Structure)
        } else if id == 21 {
            Some(Self::Happy)
        } else if id == 22 {
            Some(Self::Frown)
        } else if id == 23 {
            Some(Self::Gimp { value: 0 })
        } else if 24 <= id && id <= 29 {
            Some(Self::Die { pip: Pip((id - 23) as u8) })
        } else {
            None
        }
    }
}

/// A legacy ID determines a faithful cell: two faithful cells with the same
/// legacy ID are the same cell.
pub proof fn lemma_legacy_id_determines_faithful_cell(a: Cell, b: Cell)
    requires
        legacy_faithful(a),
        legacy_faithful(b),
        spec_legacy_id(a) == spec_legacy_id(b),
    ensures
        a == b,
{
    match a {
        Cell::Visible { color: ca } => match b {
            Cell::Visible { color: cb } => {
                VisibleColor::lemma_view_injective(ca, cb);
            },
            _ => {},
        },
        Cell::Die { pip: pa } => match b {
            Cell::Die { pip: pb } => {
                Pip::lemma_view_injective(pa, pb);
            },
            _ => {},
        },
        _ => {},
    }
}

/// Recreating a cell from its legacy ID gives the same cell back exactly when
/// the cell is faithful to its ID.
pub proof fn lemma_legacy_round_trip(c: Cell, r: Option<Cell>)
    requires
        legacy_faithful(c),
        r matches Some(d) ==> spec_legacy_id(d) == spec_legacy_id(c) && legacy_faithful(d),
        r is Some,
    ensures
        r == Some(c),
{
    lemma_legacy_id_determines_faithful_cell(c, r->0);
}

/// Legacy ID round trip for every cell: reading back the legacy ID of a cell (whose color
/// and pips lie in their ranges, as `legacy_id` states of every cell) gives the cell again,
/// except that invisible and hidden cells read as nothing and a Gimp cell loses its funds.
pub proof fn lemma_legacy_id_round_trip(c: Cell, r: Option<Cell>)
    requires
        in_legacy_ranges(c),
        r is Some <==> 1 <= spec_legacy_id(c) <= 29,
        r matches Some(d) ==> spec_legacy_id(d) == spec_legacy_id(c) && legacy_faithful(d),
    ensures
        r == match c {
            Cell::Invisible => None,
            Cell::Hidden { .. } => None,
            Cell::Gimp { .. } => Some(Cell::Gimp { value: 0 }),
            _ => Some(c),
        },
{
    match c {
        Cell::Invisible => {},
        Cell::Hidden { .. } => {},
        Cell::Gimp { .. } => {
            lemma_legacy_id_determines_faithful_cell(r->0, Cell::Gimp { value: 0 });
        },
        _ => {
            lemma_legacy_id_determines_faithful_cell(r->0, c);
        },
    }
}

} // verus!
