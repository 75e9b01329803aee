//! Weapon catalog, arsenal slots, and bazaar shopping economy.

use vstd::prelude::*;

verus! {

/// Number of legacy arsenal slots.
pub const ARSENAL_SLOT_COUNT: usize = 10;

/// Number of weapons in the catalog.
pub const WEAPON_COUNT: usize = 34;

/// Stable weapon token ABI from `BTWeaponToken`.
#[derive(Debug, Clone, Copy, PartialEq, Eq, Hash, Structural)]
pub enum WeaponToken {
    /// The dreaded feared weird.
    FearedWeird,
    /// Four-by-Four.
    FourByFour,
    /// The Mad Hatter.
    Hatter,
    /// Upbyside-down.
    Upbyside,
    /// Fallout.
    FallOut,
    /// Swap meet.
    Swap,
    /// Lawyer's delite.
    Lawyers,
    /// Rise up.
    RiseUp,
    /// Flip out.
    FlipOut,
    /// Speedy Gonzales.
    Speedy,
    /// Missing Pieces.
    Missing,
    /// Piece It Together.
    PieceIt,
    /// The Blind Cleric.
    Blind,
    /// Mondale '96.
    Mondale,
    /// Keating Five.
    Keating,
    /// Carter Years.
    Carter,
    /// Reagan Era.
    Reagan,
    /// William Ames.
    Ames,
    /// Ace of Spies.
    Ace,
    /// The Condor.
    Condor,
    /// Have a Nice Day.
    NiceDay,
    /// So Long.
    SoLong,
    /// No Dice.
    NoDice,
    /// Bug Report.
    Bug,
    /// Bottle neck.
    Bottle,
    /// Slide Denied.
    NoSlide,
    /// Lazy Susan.
    Susan,
    /// Meadow.
    Meadow,
    /// Mirror Mirror.
    Mirror,
    /// The Twilight Zone.
    Twilight,
    /// Slick Willy.
    Slick,
    /// Broken Record.
    Broken,
    /// The Force.
    Force,
    /// The Gimp.
    Gimp,
}

/// The stable legacy id of a token: its position in the catalog.
pub open spec fn token_id(token: WeaponToken) -> int {
    match token {
        WeaponToken::FearedWeird => 0,
        WeaponToken::FourByFour => 1,
        WeaponToken::Hatter => 2,
        WeaponToken::Upbyside => 3,
        WeaponToken::FallOut => 4,
        WeaponToken::Swap => 5,
        WeaponToken::Lawyers => 6,
        WeaponToken::RiseUp => 7,
        WeaponToken::FlipOut => 8,
        WeaponToken::Speedy => 9,
        WeaponToken::Missing => 10,
        WeaponToken::PieceIt => 11,
        WeaponToken::Blind => 12,
        WeaponToken::Mondale => 13,
        WeaponToken::Keating => 14,
        WeaponToken::Carter => 15,
        WeaponToken::Reagan => 16,
        WeaponToken::Ames => 17,
        WeaponToken::Ace => 18,
        WeaponToken::Condor => 19,
        WeaponToken::NiceDay => 20,
        WeaponToken::SoLong => 21,
        WeaponToken::NoDice => 22,
        WeaponToken::Bug => 23,
        WeaponToken::Bottle => 24,
        WeaponToken::NoSlide => 25,
        WeaponToken::Susan => 26,
        WeaponToken::Meadow => 27,
        WeaponToken::Mirror => 28,
        WeaponToken::Twilight => 29,
        WeaponToken::Slick => 30,
        WeaponToken::Broken => 31,
        WeaponToken::Force => 32,
        WeaponToken::Gimp => 33,
    }
}

/// The token with a given legacy id, if any.
pub open spec fn token_from_id(id: int) -> Option<WeaponToken> {
    if id == 0 {
        Some(WeaponToken::FearedWeird)
    } else if id == 1 {
        Some(WeaponToken::FourByFour)
    } else if id == 2 {
        Some(WeaponToken::Hatter)
    } else if id == 3 {
        Some(WeaponToken::Upbyside)
    } else if id == 4 {
        Some(WeaponToken::FallOut)
    } else if id == 5 {
        Some(WeaponToken::Swap)
    } else if id == 6 {
        Some(WeaponToken::Lawyers)
    } else if id == 7 {
        Some(WeaponToken::RiseUp)
    } else if id == 8 {
        Some(WeaponToken::FlipOut)
    } else if id == 9 {
        Some(WeaponToken::Speedy)
    } else if id == 10 {
        Some(WeaponToken::Missing)
    } else if id == 11 {
        Some(WeaponToken::PieceIt)
    } else if id == 12 {
        Some(WeaponToken::Blind)
    } else if id == 13 {
        Some(WeaponToken::Mondale)
    } else if id == 14 {
        Some(WeaponToken::Keating)
    } else if id == 15 {
        Some(WeaponToken::Carter)
    } else if id == 16 {
        Some(WeaponToken::Reagan)
    } else if id == 17 {
        Some(WeaponToken::Ames)
    } else if id == 18 {
        Some(WeaponToken::Ace)
    } else if id == 19 {
        Some(WeaponToken::Condor)
    } else if id == 20 {
        Some(WeaponToken::NiceDay)
    } else if id == 21 {
        Some(WeaponToken::SoLong)
    } else if id == 22 {
        Some(WeaponToken::NoDice)
    } else if id == 23 {
        Some(WeaponToken::Bug)
    } else if id == 24 {
        Some(WeaponToken::Bottle)
    } else if id == 25 {
        Some(WeaponToken::NoSlide)
    } else if id == 26 {
        Some(WeaponToken::Susan)
    } else if id == 27 {
        Some(WeaponToken::Meadow)
    } else if id == 28 {
        Some(WeaponToken::Mirror)
    } else if id == 29 {
        Some(WeaponToken::Twilight)
    } else if id == 30 {
        Some(WeaponToken::Slick)
    } else if id == 31 {
        Some(WeaponToken::Broken)
    } else if id == 32 {
        Some(WeaponToken::Force)
    } else if id == 33 {
        Some(WeaponToken::Gimp)
    } else {
        None
    }
}

/// Base bazaar price of a weapon.
pub open spec fn base_price(token: WeaponToken) -> int {
    match token {
        WeaponToken::FearedWeird => 400,
        WeaponToken::FourByFour => 425,
        WeaponToken::Hatter => 375,
        WeaponToken::Upbyside => 125,
        WeaponToken::FallOut => 250,
        WeaponToken::Swap => 1200,
        WeaponToken::Lawyers => 350,
        WeaponToken::RiseUp => 75,
        WeaponToken::FlipOut => 15,
        WeaponToken::Speedy => 275,
        WeaponToken::Missing => 50,
        WeaponToken::PieceIt => 100,
        WeaponToken::Blind => 400,
        WeaponToken::Mondale => 150,
        WeaponToken::Keating => 425,
        WeaponToken::Carter => 250,
        WeaponToken::Reagan => 425,
        WeaponToken::Ames => 50,
        WeaponToken::Ace => 100,
        WeaponToken::Condor => 225,
        WeaponToken::NiceDay => 50,
        WeaponToken::SoLong => 100,
        WeaponToken::NoDice => 600,
        WeaponToken::Bug => 320,
        WeaponToken::Bottle => 150,
        WeaponToken::NoSlide => 125,
        WeaponToken::Susan => 600,
        WeaponToken::Meadow => 475,
        WeaponToken::Mirror => 500,
        WeaponToken::Twilight => 450,
        WeaponToken::Slick => 650,
        WeaponToken::Broken => 325,
        WeaponToken::Force => 325,
        WeaponToken::Gimp => 25,
    }
}

/// Duration of a weapon in target-player line clears; zero means one-shot.
pub open spec fn line_duration(token: WeaponToken) -> int {
    match token {
        WeaponToken::FearedWeird => 3,
        WeaponToken::FourByFour => 10,
        WeaponToken::Hatter => 5,
        WeaponToken::Upbyside => 10,
        WeaponToken::FallOut => 10,
        WeaponToken::Swap => 0,
        WeaponToken::Lawyers => 5,
        WeaponToken::RiseUp => 0,
        WeaponToken::FlipOut => 0,
        WeaponToken::Speedy => 10,
        WeaponToken::Missing => 0,
        WeaponToken::PieceIt => 0,
        WeaponToken::Blind => 0,
        WeaponToken::Mondale => 50,
        WeaponToken::Keating => 0,
        WeaponToken::Carter => 20,
        WeaponToken::Reagan => 0,
        WeaponToken::Ames => 20,
        WeaponToken::Ace => 30,
        WeaponToken::Condor => 40,
        WeaponToken::NiceDay => 0,
        WeaponToken::SoLong => 10,
        WeaponToken::NoDice => 35,
        WeaponToken::Bug => 0,
        WeaponToken::Bottle => 10,
        WeaponToken::NoSlide => 10,
        WeaponToken::Susan => 0,
        WeaponToken::Meadow => 10,
        WeaponToken::Mirror => 10,
        WeaponToken::Twilight => 0,
        WeaponToken::Slick => 3,
        WeaponToken::Broken => 5,
        WeaponToken::Force => 5,
        WeaponToken::Gimp => 0,
    }
}

/// Legacy token symbol of a weapon.
pub open spec fn legacy_symbol(token: WeaponToken) -> Seq<char> {
    match token {
        WeaponToken::FearedWeird => "BT_FEARED_WEIRD"@,
        WeaponToken::FourByFour => "BT_FOUR_BY_FOUR"@,
        WeaponToken::Hatter => "BT_HATTER"@,
        WeaponToken::Upbyside => "BT_UPBYSIDE"@,
        WeaponToken::FallOut => "BT_FALL_OUT"@,
        WeaponToken::Swap => "BT_SWAP"@,
        WeaponToken::Lawyers => "BT_LAWYERS"@,
        WeaponToken::RiseUp => "BT_RISE_UP"@,
        WeaponToken::FlipOut => "BT_FLIP_OUT"@,
        WeaponToken::Speedy => "BT_SPEEDY"@,
        WeaponToken::Missing => "BT_MISSING"@,
        WeaponToken::PieceIt => "BT_PIECE_IT"@,
        WeaponToken::Blind => "BT_BLIND"@,
        WeaponToken::Mondale => "BT_MONDALE"@,
        WeaponToken::Keating => "BT_KEATING"@,
        WeaponToken::Carter => "BT_CARTER"@,
        WeaponToken::Reagan => "BT_REAGAN"@,
        WeaponToken::Ames => "BT_AMES"@,
        WeaponToken::Ace => "BT_ACE"@,
        WeaponToken::Condor => "BT_CONDOR"@,
        WeaponToken::NiceDay => "BT_NICE_DAY"@,
        WeaponToken::SoLong => "BT_SO_LONG"@,
        WeaponToken::NoDice => "BT_NO_DICE"@,
        WeaponToken::Bug => "BT_BUG"@,
        WeaponToken::Bottle => "BT_BOTTLE"@,
        WeaponToken::NoSlide => "BT_NO_SLIDE"@,
        WeaponToken::Susan => "BT_SUSAN"@,
        WeaponToken::Meadow => "BT_MEADOW"@,
        WeaponToken::Mirror => "BT_MIRROR"@,
        WeaponToken::Twilight => "BT_TWILIGHT"@,
        WeaponToken::Slick => "BT_SLICK"@,
        WeaponToken::Broken => "BT_BROKEN"@,
        WeaponToken::Force => "BT_FORCE"@,
        WeaponToken::Gimp => "BT_GIMP"@,
    }
}

/// Legacy display name of a weapon.
pub open spec fn weapon_name(token: WeaponToken) -> Seq<char> {
    match token {
        WeaponToken::FearedWeird => "The Feared Weird"@,
        WeaponToken::FourByFour => "Four-by-Four"@,
        WeaponToken::Hatter => "The Mad Hatter"@,
        WeaponToken::Upbyside => "Upbyside-down"@,
        WeaponToken::FallOut => "Fallout"@,
        WeaponToken::Swap => "Swap meet"@,
        WeaponToken::Lawyers => "Lawyer's delite"@,
        WeaponToken::RiseUp => "Rise up"@,
        WeaponToken::FlipOut => "Flip out"@,
        WeaponToken::Speedy => "Speedy Gonzales"@,
        WeaponToken::Missing => "Missing Pieces"@,
        WeaponToken::PieceIt => "Piece It Together"@,
        WeaponToken::Blind => "The Blind Cleric"@,
        WeaponToken::Mondale => "Mondale '96"@,
        WeaponToken::Keating => "Keating Five"@,
        WeaponToken::Carter => "Carter Years"@,
        WeaponToken::Reagan => "Reagan Era"@,
        WeaponToken::Ames => "William Ames"@,
        WeaponToken::Ace => "Ace of Spies"@,
        WeaponToken::Condor => "The Condor"@,
        WeaponToken::NiceDay => "Have a Nice Day"@,
        WeaponToken::SoLong => "So Long"@,
        WeaponToken::NoDice => "No Dice"@,
        WeaponToken::Bug => "Bug Report"@,
        WeaponToken::Bottle => "Bottle neck"@,
        WeaponToken::NoSlide => "Slide Denied"@,
        WeaponToken::Susan => "Lazy Susan"@,
        WeaponToken::Meadow => "Meadow"@,
        WeaponToken::Mirror => "Mirror Mirror"@,
        WeaponToken::Twilight => "The Twilight Zone"@,
        WeaponToken::Slick => "Slick Willy"@,
        WeaponToken::Broken => "Broken Record"@,
        WeaponToken::Force => "The Force"@,
        WeaponToken::Gimp => "The Gimp"@,
    }
}

/// Legacy description of a weapon.
pub open spec fn weapon_description(token: WeaponToken) -> Seq<char> {
    match token {
        WeaponToken::FearedWeird => "Gives your opponent bizarre, disjointed pieces. None of the pieces are easily placed; particularly deadly when used in conjunction with either the Mad Hatter or No Dice."@,
        WeaponToken::FourByFour => "Evil incarnate. Replaces your opponent's box piece with one that is a four block by four block hollow box."@,
        WeaponToken::Hatter => "Your opponent's pieces never stop spinning (unless pinned up against the wall). Quickly frustrates opponent. Very good combination weapon."@,
        WeaponToken::Upbyside => "Flips your opponent's screen upside-down. Their direction keys are reversed, and pieces rotate the opposite way."@,
        WeaponToken::FallOut => "The middle six columns of your board \"fall out.\" The gap that they leave represents a black hole. Any pieces dropped into this black hole will just disappear. The player must instead build a \"bridge\" of pieces over the hole in order to get lines."@,
        WeaponToken::Swap => "Swaps your screen with your opponent's. Screw up your own board, and then swap it out. Of course, the other opponent may launch another Swap, but such is life."@,
        WeaponToken::Lawyers => "Outright stolen from the original 2-player arcade version of tetris. Every line you get, your opponent's screen \"rises\" up by one line."@,
        WeaponToken::RiseUp => "Raises the opponent's screen one level (the bottom level will be solid with one, random, block missing)."@,
        WeaponToken::FlipOut => "Flips your opponents screen on a vertical axis.  Can be extremely annoying if done often enough."@,
        WeaponToken::Speedy => "Doubles the speed of the opponent's game. Several of these launched at once get make things pretty interesting for your opponent."@,
        WeaponToken::Missing => "Randomly removes one of your opponent's blocks."@,
        WeaponToken::PieceIt => "Randomly adds a piece to your opponent's board. More than one great player has fallen on a lucky Piece It Together."@,
        WeaponToken::Blind => "Bombs a region of your opponent's screen. Can be particularly annoying when an elaborate setup develops a large hole in its center."@,
        WeaponToken::Mondale => "Taxes your opponent with a hefty 30 percent rate. Whenever they get funds, you swipe a certain percentage."@,
        WeaponToken::Keating => "Your opponent's funds are all taken away...and given to you."@,
        WeaponToken::Carter => "Relives the inflationary years of Jimmy Carter -- the prices double at your opponent's bazaar."@,
        WeaponToken::Reagan => "Relives that era of debt -- your opponent's funds are multiplied by -1."@,
        WeaponToken::Ames => "Displays your opponent's screen and your opponent's funds next to your own.  Remember that cheap spies are easily bought and sold..."@,
        WeaponToken::Ace => "Send Reilly over the border.  A more expensive spy, but such is the price of greater accuracy.  Reilly's still human though...you never know when he's going to flake out on the Russian border."@,
        WeaponToken::Condor => "Launch the world's most advanced spy satellite.  Guaranteed accuracy, but you probably had to sell arms to the Contras in order to afford it."@,
        WeaponToken::NiceDay => "Gives your opponent a smiley face. Why give your opponent the opportunity to make an extra 150 beans? Hit them with a Reagan Era shortly after. God Bless America."@,
        WeaponToken::SoLong => "Deprives your opponent of long pieces."@,
        WeaponToken::NoDice => "Deprives your opponent of dice."@,
        WeaponToken::Bug => "Like Piece It Together, except the block is invisible (which leads your opponent to file a bug report)."@,
        WeaponToken::Bottle => "Your opponent's board suddenly develops a 4-block wide bottle neck."@,
        WeaponToken::NoSlide => "Take the famous BattleTris slide out of your opponent's diet."@,
        WeaponToken::Susan => "Turns the tables on you opponent by swapping your arsenal with theirs."@,
        WeaponToken::Meadow => "This weapon lineup simulates Meadow running on your opponent's machine:  the drop speed of their pieces is halved."@,
        WeaponToken::Mirror => "An oft requested defensive weapon:  when launched, your opponent's weapons will be reflected back on to them.  Note that some weapons (Swap Meet, Keating Five, Have a Nice Day, etc.) are simply nullified."@,
        WeaponToken::Twilight => "All of the bricks in your opponents screen becomes invisible."@,
        WeaponToken::Slick => "Your opponent's pieces move endlessly from left to right and back."@,
        WeaponToken::Broken => "Gives your opponent the same piece the same piece the same piece ..."@,
        WeaponToken::Force => "When your opponent gets a line, his board won't drop to fill the empty space."@,
        WeaponToken::Gimp => "Distracts your opponent from the game."@,
    }
}

impl WeaponToken {
    /// Returns the stable legacy token id.
    #[must_use]
    pub fn legacy_id(self) -> (r: u8)
        ensures
            r as int == token_id(self),
    {
        match self {
            Self::FearedWeird => 0,
            Self::FourByFour => 1,
            Self::Hatter => 2,
            Self::Upbyside => 3,
            Self::FallOut => 4,
            Self::Swap => 5,
            Self::Lawyers => 6,
            Self::RiseUp => 7,
            Self::FlipOut => 8,
            Self::Speedy => 9,
            Self::Missing => 10,
            Self::PieceIt => 11,
            Self::Blind => 12,
            Self::Mondale => 13,
            Self::Keating => 14,
            Self::Carter => 15,
            Self::Reagan => 16,
            Self::Ames => 17,
            Self::Ace => 18,
            Self::Condor => 19,
            Self::NiceDay => 20,
            Self::SoLong => 21,
            Self::NoDice => 22,
            Self::Bug => 23,
            Self::Bottle => 24,
            Self::NoSlide => 25,
            Self::Susan => 26,
            Self::Meadow => 27,
            Self::Mirror => 28,
            Self::Twilight => 29,
            Self::Slick => 30,
            Self::Broken => 31,
            Self::Force => 32,
            Self::Gimp => 33,
        }
    }

    /// Returns a token from a stable legacy id.
    #[must_use]
    pub fn from_legacy_id(id: u8) -> (r: Option<Self>)
        ensures
            r == token_from_id(id as int),
    {
        match id {
            0 => Some(Self::FearedWeird),
            1 => Some(Self::FourByFour),
            2 => Some(Self::Hatter),
            3 => Some(Self::Upbyside),
            4 => Some(Self::FallOut),
            5 => Some(Self::Swap),
            6 => Some(Self::Lawyers),
            7 => Some(Self::RiseUp),
            8 => Some(Self::FlipOut),
            9 => Some(Self::Speedy),
            10 => Some(Self::Missing),
            11 => Some(Self::PieceIt),
            12 => Some(Self::Blind),
            13 => Some(Self::Mondale),
            14 => Some(Self::Keating),
            15 => Some(Self::Carter),
            16 => Some(Self::Reagan),
            17 => Some(Self::Ames),
            18 => Some(Self::Ace),
            19 => Some(Self::Condor),
            20 => Some(Self::NiceDay),
            21 => Some(Self::SoLong),
            22 => Some(Self::NoDice),
            23 => Some(Self::Bug),
            24 => Some(Self::Bottle),
            25 => Some(Self::NoSlide),
            26 => Some(Self::Susan),
            27 => Some(Self::Meadow),
            28 => Some(Self::Mirror),
            29 => Some(Self::Twilight),
            30 => Some(Self::Slick),
            31 => Some(Self::Broken),
            32 => Some(Self::Force),
            33 => Some(Self::Gimp),
            _ => None,
        }
    }
}

/// One immutable weapon catalog row.
#[derive(Debug, Clone, Copy, PartialEq, Eq)]
pub struct WeaponSpec {
    /// Stable token.
    pub token: WeaponToken,
    /// Legacy token symbol.
    pub legacy_symbol: &'static str,
    /// Legacy display name.
    pub name: &'static str,
    /// Legacy weapon description.
    pub description: &'static str,
    /// Base bazaar price.
    pub price: i32,
    /// Duration in target-player line clears; zero means one-shot.
    pub line_duration: u32,
}

/// Whether a catalog row is the row of its token.
pub open spec fn is_catalog_row(row: WeaponSpec, token: WeaponToken) -> bool {
    &&& row.token == token
    &&& row.legacy_symbol@ == legacy_symbol(token)
    &&& row.name@ == weapon_name(token)
    &&& row.description@ == weapon_description(token)
    &&& row.price as int == base_price(token)
    &&& row.line_duration as int == line_duration(token)
}

fn row(
    token: WeaponToken,
    legacy_symbol: &'static str,
    name: &'static str,
    description: &'static str,
    price: i32,
    line_duration: u32,
) -> (r: WeaponSpec)
    ensures
        r.token == token,
        r.legacy_symbol == legacy_symbol,
        r.name == name,
        r.description == description,
        r.price == price,
        r.line_duration == line_duration,
{
    WeaponSpec { token, legacy_symbol, name, description, price, line_duration }
}

/// Returns the catalog row for a token.
#[must_use]
pub fn weapon_spec(token: WeaponToken) -> (r: WeaponSpec)
    ensures
        is_catalog_row(r, token),
{
    match token {
        WeaponToken::FearedWeird => row(WeaponToken::FearedWeird, "BT_FEARED_WEIRD", "The Feared Weird", "Gives your opponent bizarre, disjointed pieces. None of the pieces are easily placed; particularly deadly when used in conjunction with either the Mad Hatter or No Dice.", 400, 3),
        WeaponToken::FourByFour => row(WeaponToken::FourByFour, "BT_FOUR_BY_FOUR", "Four-by-Four", "Evil incarnate. Replaces your opponent's box piece with one that is a four block by four block hollow box.", 425, 10),
        WeaponToken::Hatter => row(WeaponToken::Hatter, "BT_HATTER", "The Mad Hatter", "Your opponent's pieces never stop spinning (unless pinned up against the wall). Quickly frustrates opponent. Very good combination weapon.", 375, 5),
        WeaponToken::Upbyside => row(WeaponToken::Upbyside, "BT_UPBYSIDE", "Upbyside-down", "Flips your opponent's screen upside-down. Their direction keys are reversed, and pieces rotate the opposite way.", 125, 10),
        WeaponToken::FallOut => row(WeaponToken::FallOut, "BT_FALL_OUT", "Fallout", "The middle six columns of your board \"fall out.\" The gap that they leave represents a black hole. Any pieces dropped into this black hole will just disappear. The player must instead build a \"bridge\" of pieces over the hole in order to get lines.", 250, 10),
        WeaponToken::Swap => row(WeaponToken::Swap, "BT_SWAP", "Swap meet", "Swaps your screen with your opponent's. Screw up your own board, and then swap it out. Of course, the other opponent may launch another Swap, but such is life.", 1200, 0),
        WeaponToken::Lawyers => row(WeaponToken::Lawyers, "BT_LAWYERS", "Lawyer's delite", "Outright stolen from the original 2-player arcade version of tetris. Every line you get, your opponent's screen \"rises\" up by one line.", 350, 5),
        WeaponToken::RiseUp => row(WeaponToken::RiseUp, "BT_RISE_UP", "Rise up", "Raises the opponent's screen one level (the bottom level will be solid with one, random, block missing).", 75, 0),
        WeaponToken::FlipOut => row(WeaponToken::FlipOut, "BT_FLIP_OUT", "Flip out", "Flips your opponents screen on a vertical axis.  Can be extremely annoying if done often enough.", 15, 0),
        WeaponToken::Speedy => row(WeaponToken::Speedy, "BT_SPEEDY", "Speedy Gonzales", "Doubles the speed of the opponent's game. Several of these launched at once get make things pretty interesting for your opponent.", 275, 10),
        WeaponToken::Missing => row(WeaponToken::Missing, "BT_MISSING", "Missing Pieces", "Randomly removes one of your opponent's blocks.", 50, 0),
        WeaponToken::PieceIt => row(WeaponToken::PieceIt, "BT_PIECE_IT", "Piece It Together", "Randomly adds a piece to your opponent's board. More than one great player has fallen on a lucky Piece It Together.", 100, 0),
        WeaponToken::Blind => row(WeaponToken::Blind, "BT_BLIND", "The Blind Cleric", "Bombs a region of your opponent's screen. Can be particularly annoying when an elaborate setup develops a large hole in its center.", 400, 0),
        WeaponToken::Mondale => row(WeaponToken::Mondale, "BT_MONDALE", "Mondale '96", "Taxes your opponent with a hefty 30 percent rate. Whenever they get funds, you swipe a certain percentage.", 150, 50),
        WeaponToken::Keating => row(WeaponToken::Keating, "BT_KEATING", "Keating Five", "Your opponent's funds are all taken away...and given to you.", 425, 0),
        WeaponToken::Carter => row(WeaponToken::Carter, "BT_CARTER", "Carter Years", "Relives the inflationary years of Jimmy Carter -- the prices double at your opponent's bazaar.", 250, 20),
        WeaponToken::Reagan => row(WeaponToken::Reagan, "BT_REAGAN", "Reagan Era", "Relives that era of debt -- your opponent's funds are multiplied by -1.", 425, 0),
        WeaponToken::Ames => row(WeaponToken::Ames, "BT_AMES", "William Ames", "Displays your opponent's screen and your opponent's funds next to your own.  Remember that cheap spies are easily bought and sold...", 50, 20),
        WeaponToken::Ace => row(WeaponToken::Ace, "BT_ACE", "Ace of Spies", "Send Reilly over the border.  A more expensive spy, but such is the price of greater accuracy.  Reilly's still human though...you never know when he's going to flake out on the Russian border.", 100, 30),
        WeaponToken::Condor => row(WeaponToken::Condor, "BT_CONDOR", "The Condor", "Launch the world's most advanced spy satellite.  Guaranteed accuracy, but you probably had to sell arms to the Contras in order to afford it.", 225, 40),
        WeaponToken::NiceDay => row(WeaponToken::NiceDay, "BT_NICE_DAY", "Have a Nice Day", "Gives your opponent a smiley face. Why give your opponent the opportunity to make an extra 150 beans? Hit them with a Reagan Era shortly after. God Bless America.", 50, 0),
        WeaponToken::SoLong => row(WeaponToken::SoLong, "BT_SO_LONG", "So Long", "Deprives your opponent of long pieces.", 100, 10),
        WeaponToken::NoDice => row(WeaponToken::NoDice, "BT_NO_DICE", "No Dice", "Deprives your opponent of dice.", 600, 35),
        WeaponToken::Bug => row(WeaponToken::Bug, "BT_BUG", "Bug Report", "Like Piece It Together, except the block is invisible (which leads your opponent to file a bug report).", 320, 0),
        WeaponToken::Bottle => row(WeaponToken::Bottle, "BT_BOTTLE", "Bottle neck", "Your opponent's board suddenly develops a 4-block wide bottle neck.", 150, 10),
        WeaponToken::NoSlide => row(WeaponToken::NoSlide, "BT_NO_SLIDE", "Slide Denied", "Take the famous BattleTris slide out of your opponent's diet.", 125, 10),
        WeaponToken::Susan => row(WeaponToken::Susan, "BT_SUSAN", "Lazy Susan", "Turns the tables on you opponent by swapping your arsenal with theirs.", 600, 0),
        WeaponToken::Meadow => row(WeaponToken::Meadow, "BT_MEADOW", "Meadow", "This weapon lineup simulates Meadow running on your opponent's machine:  the drop speed of their pieces is halved.", 475, 10),
        WeaponToken::Mirror => row(WeaponToken::Mirror, "BT_MIRROR", "Mirror Mirror", "An oft requested defensive weapon:  when launched, your opponent's weapons will be reflected back on to them.  Note that some weapons (Swap Meet, Keating Five, Have a Nice Day, etc.) are simply nullified.", 500, 10),
        WeaponToken::Twilight => row(WeaponToken::Twilight, "BT_TWILIGHT", "The Twilight Zone", "All of the bricks in your opponents screen becomes invisible.", 450, 0),
        WeaponToken::Slick => row(WeaponToken::Slick, "BT_SLICK", "Slick Willy", "Your opponent's pieces move endlessly from left to right and back.", 650, 3),
        WeaponToken::Broken => row(WeaponToken::Broken, "BT_BROKEN", "Broken Record", "Gives your opponent the same piece the same piece the same piece ...", 325, 5),
        WeaponToken::Force => row(WeaponToken::Force, "BT_FORCE", "The Force", "When your opponent gets a line, his board won't drop to fill the empty space.", 325, 5),
        WeaponToken::Gimp => row(WeaponToken::Gimp, "BT_GIMP", "The Gimp", "Distracts your opponent from the game.", 25, 0),
    }
}

/// Returns the original catalog in stable `BTWeaponToken` order.
#[must_use]
pub fn weapon_catalog() -> (r: Vec<WeaponSpec>)
    ensures
        r@.len() == 34,
        forall|i: int| 0 <= i < 34 ==> (token_from_id(i) matches Some(t) && is_catalog_row(#[trigger] r@[i], t)),
{
    let mut catalog: Vec<WeaponSpec> = Vec::new();
    let mut id: u8 = 0;
    while id < 34
        invariant
            id <= 34,
            catalog@.len() == id,
            forall|i: int| 0 <= i < id ==> (token_from_id(i) matches Some(t) && is_catalog_row(#[trigger] catalog@[i], t)),
        decreases 34 - id,
    {
        match WeaponToken::from_legacy_id(id) {
            Some(token) => catalog.push(weapon_spec(token)),
            None => {
                assert(false);
            },
        }
        id = id + 1;
    }
    catalog
}


/// Legacy ids and tokens determine each other.
pub proof fn lemma_token_id_round_trip(token: WeaponToken)
    ensures
        0 <= token_id(token) < 34,
        token_from_id(token_id(token)) == Some(token),
{
}

/// A line counter decreased by cleared lines, stopping at zero.
pub open spec fn sat_sub(a: u32, b: u32) -> u32 {
    if a >= b { (a - b) as u32 } else { 0 }
}

/// Tokens whose duration runs out when `lines` lines are cleared, among the
/// first `n` catalog slots, in catalog order.
pub open spec fn expired_prefix(slots: Seq<u32>, lines: u32, n: int) -> Seq<WeaponToken>
    decreases n,
{
    if n <= 0 {
        Seq::empty()
    } else if slots[n - 1] != 0 && sat_sub(slots[n - 1], lines) == 0 && token_from_id(n - 1) is Some {
        expired_prefix(slots, lines, n - 1).push(token_from_id(n - 1)->0)
    } else {
        expired_prefix(slots, lines, n - 1)
    }
}

/// Effect of clearing `lines` lines on the durations of the listed tokens, in
/// list order: the new durations and the tokens that expired.
pub open spec fn clear_for(slots: Seq<u32>, lines: u32, tokens: Seq<WeaponToken>) -> (Seq<u32>, Seq<WeaponToken>)
    decreases tokens.len(),
{
    if tokens.len() == 0 {
        (slots, Seq::empty())
    } else {
        let (prev, expired) = clear_for(slots, lines, tokens.drop_last());
        let id = token_id(tokens.last());
        if prev[id] == 0 {
            (prev, expired)
        } else {
            let next = sat_sub(prev[id], lines);
            (prev.update(id, next), if next == 0 { expired.push(tokens.last()) } else { expired })
        }
    }
}

/// Runtime state for line-duration weapons affecting one player.
#[derive(Debug, Clone, PartialEq, Eq)]
pub struct ActiveEffects {
    remaining_lines: [u32; 34],
}

impl View for ActiveEffects {
    type V = Seq<u32>;

    closed spec fn view(&self) -> Seq<u32> {
        self.remaining_lines@
    }
}

impl ActiveEffects {
    /// One remaining-lines counter per catalog weapon.
    pub open spec fn wf(&self) -> bool {
        self@.len() == 34
    }

    /// Creates an empty active-effect set.
    #[must_use]
    pub fn new() -> (r: Self)
        ensures
            r.wf(),
            forall|i: int| 0 <= i < 34 ==> #[trigger] r@[i] == 0,
    {
        Self { remaining_lines: [0u32; 34] }
    }

    /// Returns remaining target-player line clears for a token.
    #[must_use]
    pub fn remaining_lines(&self, token: WeaponToken) -> (r: u32)
        requires
            self.wf(),
        ensures
            r == self@[token_id(token)],
    {
        self.remaining_lines[token.legacy_id() as usize]
    }

    /// Returns true if the token has remaining duration.
    #[must_use]
    pub fn is_active(&self, token: WeaponToken) -> (r: bool)
        requires
            self.wf(),
        ensures
            r == (self@[token_id(token)] > 0),
    {
        self.remaining_lines(token) > 0
    }

    /// Adds a launch duration to any remaining duration, matching legacy stacking.
    /// Returns the new remaining duration.
    pub fn activate(&mut self, token: WeaponToken) -> (r: u32)
        requires
            old(self).wf(),
        ensures
            final(self).wf(),
            r as int == if old(self)@[token_id(token)] + line_duration(token) > u32::MAX {
                u32::MAX as int
            } else {
                old(self)@[token_id(token)] + line_duration(token)
            },
            final(self)@ == old(self)@.update(token_id(token), r),
    {
        let duration = weapon_spec(token).line_duration;
        let index = token.legacy_id() as usize;
        let next = self.remaining_lines[index].saturating_add(duration);
        self.remaining_lines[index] = next;
        next
    }

    /// Decrements timed effects by cleared target-player lines and returns expirations
    /// in catalog order.
    pub fn observe_line_clear(&mut self, lines: u32) -> (r: Vec<WeaponToken>)
        requires
            old(self).wf(),
        ensures
            final(self).wf(),
            forall|i: int| 0 <= i < 34 ==> #[trigger] final(self)@[i] == sat_sub(old(self)@[i], lines),
            r@ == if lines == 0 { Seq::<WeaponToken>::empty() } else { expired_prefix(old(self)@, lines, 34) },
    {
        if lines == 0 {
            proof {
                assert forall|i: int| 0 <= i < 34 implies #[trigger] self@[i] == sat_sub(old(self)@[i], lines) by {}
            }
            return Vec::new();
        }
        let mut expired: Vec<WeaponToken> = Vec::new();
        let mut id: u8 = 0;
        while id < 34
            invariant
                id <= 34,
                lines > 0,
                old(self)@.len() == 34,
                self@.len() == 34,
                forall|i: int| 0 <= i < id ==> #[trigger] self@[i] == sat_sub(old(self)@[i], lines),
                forall|i: int| id <= i < 34 ==> #[trigger] self@[i] == old(self)@[i],
                expired@ == expired_prefix(old(self)@, lines, id as int),
            decreases 34 - id,
        {
            let index = id as usize;
            let slot = self.remaining_lines[index];
            if slot != 0 {
                let next = slot.saturating_sub(lines);
                self.remaining_lines[index] = next;
                if next == 0 {
                    match WeaponToken::from_legacy_id(id) {
                        Some(token) => expired.push(token),
                        None => {},
                    }
                }
            }
            id = id + 1;
        }
        expired
    }

    /// Decrements only the listed timed effects by cleared lines, in list order, and
    /// returns the expirations in that order.
    pub fn observe_line_clear_for(&mut self, lines: u32, tokens: &[WeaponToken]) -> (r: Vec<WeaponToken>)
        requires
            old(self).wf(),
        ensures
            final(self).wf(),
            lines == 0 ==> r@.len() == 0 && final(self)@ == old(self)@,
            lines > 0 ==> final(self)@ == clear_for(old(self)@, lines, tokens@).0
                && r@ == clear_for(old(self)@, lines, tokens@).1,
    {
        if lines == 0 {
            return Vec::new();
        }
        let mut expired: Vec<WeaponToken> = Vec::new();
        let mut i: usize = 0;
        while i < tokens.len()
            invariant
                i <= tokens@.len(),
                lines > 0,
                self@.len() == 34,
                self@ == clear_for(old(self)@, lines, tokens@.take(i as int)).0,
                expired@ == clear_for(old(self)@, lines, tokens@.take(i as int)).1,
            decreases tokens@.len() - i,
        {
            let token = tokens[i];
            assert(tokens@.take(i as int + 1).drop_last() =~= tokens@.take(i as int));
            assert(tokens@.take(i as int + 1).last() == token);
            let index = token.legacy_id() as usize;
            let slot = self.remaining_lines[index];
            if slot != 0 {
                let next = slot.saturating_sub(lines);
                self.remaining_lines[index] = next;
                if next == 0 {
                    expired.push(token);
                }
            }
            i = i + 1;
        }
        assert(tokens@.take(tokens@.len() as int) =~= tokens@);
        expired
    }
}

impl Default for ActiveEffects {
    fn default() -> (r: Self)
        ensures
            r.wf(),
            forall|i: int| 0 <= i < 34 ==> #[trigger] r@[i] == 0,
    {
        Self::new()
    }
}

/// Returns whether a token has line duration and belongs to the timed set.
#[must_use]
pub fn is_timed_weapon(token: WeaponToken) -> (r: bool)
    ensures
        r == (token is FearedWeird || token is FourByFour || token is Hatter || token is Upbyside
            || token is FallOut || token is Lawyers || token is Speedy || token is Mondale
            || token is Carter || token is SoLong || token is NoDice || token is Bottle
            || token is NoSlide || token is Meadow || token is Slick || token is Broken
            || token is Force),
{
    match token {
        WeaponToken::FearedWeird | WeaponToken::FourByFour | WeaponToken::Hatter | WeaponToken::Upbyside
        | WeaponToken::FallOut | WeaponToken::Lawyers | WeaponToken::Speedy | WeaponToken::Mondale
        | WeaponToken::Carter | WeaponToken::SoLong | WeaponToken::NoDice | WeaponToken::Bottle
        | WeaponToken::NoSlide | WeaponToken::Meadow | WeaponToken::Slick | WeaponToken::Broken
        | WeaponToken::Force => true,
        _ => false,
    }
}

/// Returns whether a token is one of the spy and mirror line-duration weapons.
#[must_use]
pub fn is_phase_10_timed_weapon(token: WeaponToken) -> (r: bool)
    ensures
        r == (token is Ames || token is Ace || token is Condor || token is Mirror),
{
    match token {
        WeaponToken::Ames | WeaponToken::Ace | WeaponToken::Condor | WeaponToken::Mirror => true,
        _ => false,
    }
}

/// Returns whether Mirror nullifies this launch instead of reflecting it.
#[must_use]
pub fn mirror_nullifies(token: WeaponToken) -> (r: bool)
    ensures
        r == (token is Swap || token is Mondale || token is Keating || token is Ames || token is Ace
            || token is Condor || token is NiceDay || token is Susan || token is Mirror),
{
    match token {
        WeaponToken::Swap | WeaponToken::Mondale | WeaponToken::Keating | WeaponToken::Ames
        | WeaponToken::Ace | WeaponToken::Condor | WeaponToken::NiceDay | WeaponToken::Susan
        | WeaponToken::Mirror => true,
        _ => false,
    }
}

/// Every timed weapon has a nonzero line duration.
pub proof fn lemma_timed_weapons_have_duration(token: WeaponToken)
    requires
        token is FearedWeird || token is FourByFour || token is Hatter || token is Upbyside
            || token is FallOut || token is Lawyers || token is Speedy || token is Mondale
            || token is Carter || token is SoLong || token is NoDice || token is Bottle
            || token is NoSlide || token is Meadow || token is Slick || token is Broken
            || token is Force || token is Ames || token is Ace || token is Condor || token is Mirror,
    ensures
        line_duration(token) > 0,
{
}


/// One occupied arsenal slot.
#[derive(Debug, Clone, Copy, PartialEq, Eq, Structural)]
pub struct ArsenalSlot {
    /// Weapon in this slot.
    pub token: WeaponToken,
    /// Stacked quantity in this slot.
    pub quantity: u32,
}

/// Arsenal mutation failure.
#[derive(Debug, Clone, Copy, PartialEq, Eq, Structural)]
pub enum ArsenalError {
    /// No empty slot and no earlier stack was available.
    Full,
    /// Slot key was not a legacy arsenal label.
    InvalidSlotLabel(u8),
    /// Slot was empty.
    EmptySlot(usize),
    /// Staged removal no longer matched the expected slot content.
    SlotTokenMismatch {
        /// Slot index.
        index: usize,
        /// Expected token.
        expected: WeaponToken,
        /// Actual token.
        actual: WeaponToken,
    },
}

/// The slot a purchase lands in, scanning from slot `i`: the first slot that is
/// empty or already stacks the same weapon.
pub open spec fn buy_slot_from(slots: Seq<Option<ArsenalSlot>>, token: WeaponToken, i: int) -> Option<int>
    decreases 10 - i,
{
    if i >= 10 || i < 0 {
        None
    } else {
        match slots[i] {
            None => Some(i),
            Some(slot) => if slot.token == token { Some(i) } else { buy_slot_from(slots, token, i + 1) },
        }
    }
}

/// The slot a purchase of `token` lands in, if any.
pub open spec fn buy_slot(slots: Seq<Option<ArsenalSlot>>, token: WeaponToken) -> Option<int> {
    buy_slot_from(slots, token, 0)
}

/// The slot index a number-key label selects: `1..=9` select slots `0..=8`, `0` selects slot 9.
pub open spec fn label_index(label: u8) -> Option<int> {
    if 1 <= label <= 9 {
        Some(label - 1)
    } else if label == 0 {
        Some(9)
    } else {
        None
    }
}

/// A slot after one unit of its stack is taken: a hole when the stack runs out.
pub open spec fn take_one(slot: ArsenalSlot) -> Option<ArsenalSlot> {
    if slot.quantity <= 1 {
        None
    } else {
        Some(ArsenalSlot { token: slot.token, quantity: (slot.quantity - 1) as u32 })
    }
}

/// Ten-slot legacy arsenal. Empty slots are preserved as holes.
#[derive(Debug, Clone, Copy, PartialEq, Eq)]
pub struct Arsenal {
    slots: [Option<ArsenalSlot>; 10],
}

impl View for Arsenal {
    type V = Seq<Option<ArsenalSlot>>;

    closed spec fn view(&self) -> Seq<Option<ArsenalSlot>> {
        self.slots@
    }
}

impl Arsenal {
    /// Ten slots, and no occupied slot with an empty stack.
    pub open spec fn wf(&self) -> bool {
        &&& self@.len() == 10
        &&& forall|i: int| 0 <= i < 10 ==> (#[trigger] self@[i] matches Some(s) ==> s.quantity >= 1)
    }

    /// Creates an empty arsenal.
    #[must_use]
    pub fn new() -> (r: Self)
        ensures
            r.wf(),
            forall|i: int| 0 <= i < 10 ==> #[trigger] r@[i] is None,
    {
        Self { slots: [None; 10] }
    }

    /// Returns all slots, preserving holes.
    #[must_use]
    pub fn slots(&self) -> (r: &[Option<ArsenalSlot>; 10])
        ensures
            r@ == self@,
    {
        &self.slots
    }

    /// Maps a number-key label to a zero-based arsenal slot. Label `0` means slot 10.
    #[must_use]
    pub fn slot_index_for_label(label: u8) -> (r: Option<usize>)
        ensures
            match label_index(label) {
                Some(i) => r == Some(i as usize),
                None => r is None,
            },
    {
        if 1 <= label && label <= 9 {
            Some((label - 1) as usize)
        } else if label == 0 {
            Some(9)
        } else {
            None
        }
    }

    /// Buys one weapon using legacy first-empty-or-earlier-stack semantics.
    pub fn buy_weapon(&mut self, token: WeaponToken) -> (r: Result<usize, ArsenalError>)
        requires
            old(self).wf(),
            buy_slot(old(self)@, token) matches Some(i) ==> (old(self)@[i] matches Some(s) ==> s.quantity < u32::MAX),
        ensures
            final(self).wf(),
            match buy_slot(old(self)@, token) {
                Some(i) => r == Ok::<usize, ArsenalError>(i as usize) && final(self)@ == old(self)@.update(i, Some(ArsenalSlot {
                    token,
                    quantity: match old(self)@[i] {
                        Some(s) => (s.quantity + 1) as u32,
                        None => 1u32,
                    },
                })),
                None => r == Err::<usize, ArsenalError>(ArsenalError::Full) && final(self)@ == old(self)@,
            },
    {
        let mut index: usize = 0;
        while index < ARSENAL_SLOT_COUNT
            invariant
                index <= 10,
                self@ == old(self)@,
                old(self).wf(),
                buy_slot(old(self)@, token) matches Some(i) ==> (old(self)@[i] matches Some(s) ==> s.quantity < u32::MAX),
                buy_slot(old(self)@, token) == buy_slot_from(old(self)@, token, index as int),
            decreases 10 - index,
        {
            match self.slots[index] {
                None => {
                    self.slots[index] = Some(ArsenalSlot { token, quantity: 1 });
                    return Ok(index);
                },
                Some(existing) => {
                    if existing.token == token {
                        self.slots[index] = Some(ArsenalSlot { token, quantity: existing.quantity + 1 });
                        return Ok(index);
                    }
                },
            }
            index = index + 1;
        }
        Err(ArsenalError::Full)
    }

    /// Consumes one quantity from a number-key slot, leaving a hole when it reaches zero.
    pub fn consume_slot_label(&mut self, label: u8) -> (r: Result<WeaponToken, ArsenalError>)
        requires
            old(self).wf(),
        ensures
            final(self).wf(),
            match label_index(label) {
                None => r == Err::<WeaponToken, ArsenalError>(ArsenalError::InvalidSlotLabel(label))
                    && final(self)@ == old(self)@,
                Some(i) => match old(self)@[i] {
                    None => r == Err::<WeaponToken, ArsenalError>(ArsenalError::EmptySlot(i as usize))
                        && final(self)@ == old(self)@,
                    Some(s) => r == Ok::<WeaponToken, ArsenalError>(s.token)
                        && final(self)@ == old(self)@.update(i, take_one(s)),
                },
            },
    {
        match Self::slot_index_for_label(label) {
            None => Err(ArsenalError::InvalidSlotLabel(label)),
            Some(index) => self.consume_slot(index),
        }
    }

    /// Returns the weapon in a number-key slot without consuming it.
    pub fn token_for_slot_label(&self, label: u8) -> (r: Result<WeaponToken, ArsenalError>)
        requires
            self.wf(),
        ensures
            match label_index(label) {
                None => r == Err::<WeaponToken, ArsenalError>(ArsenalError::InvalidSlotLabel(label)),
                Some(i) => match self@[i] {
                    None => r == Err::<WeaponToken, ArsenalError>(ArsenalError::EmptySlot(i as usize)),
                    Some(s) => r == Ok::<WeaponToken, ArsenalError>(s.token),
                },
            },
    {
        match Self::slot_index_for_label(label) {
            None => Err(ArsenalError::InvalidSlotLabel(label)),
            Some(index) => match self.slots[index] {
                Some(slot) => Ok(slot.token),
                None => Err(ArsenalError::EmptySlot(index)),
            },
        }
    }

    fn consume_slot(&mut self, index: usize) -> (r: Result<WeaponToken, ArsenalError>)
        requires
            old(self).wf(),
            index < 10,
        ensures
            final(self).wf(),
            match old(self)@[index as int] {
                None => r == Err::<WeaponToken, ArsenalError>(ArsenalError::EmptySlot(index))
                    && final(self)@ == old(self)@,
                Some(s) => r == Ok::<WeaponToken, ArsenalError>(s.token)
                    && final(self)@ == old(self)@.update(index as int, take_one(s)),
            },
    {
        match self.slots[index] {
            None => Err(ArsenalError::EmptySlot(index)),
            Some(slot) => {
                let next = if slot.quantity <= 1 {
                    None
                } else {
                    Some(ArsenalSlot { token: slot.token, quantity: slot.quantity - 1 })
                };
                self.slots[index] = next;
                Ok(slot.token)
            },
        }
    }

    fn remove_one_staged(&mut self, index: usize, token: WeaponToken) -> (r: Result<(), ArsenalError>)
        requires
            old(self).wf(),
            index < 10,
        ensures
            final(self).wf(),
            match old(self)@[index as int] {
                None => r == Err::<(), ArsenalError>(ArsenalError::EmptySlot(index)) && final(self)@ == old(self)@,
                Some(s) => if s.token != token {
                    r == Err::<(), ArsenalError>(ArsenalError::SlotTokenMismatch { index, expected: token, actual: s.token })
                        && final(self)@ == old(self)@
                } else {
                    r is Ok && final(self)@ == old(self)@.update(index as int, take_one(s))
                },
            },
    {
        match self.slots[index] {
            None => Err(ArsenalError::EmptySlot(index)),
            Some(slot) => {
                if slot.token != token {
                    return Err(ArsenalError::SlotTokenMismatch { index, expected: token, actual: slot.token });
                }
                let next = if slot.quantity <= 1 {
                    None
                } else {
                    Some(ArsenalSlot { token: slot.token, quantity: slot.quantity - 1 })
                };
                self.slots[index] = next;
                Ok(())
            },
        }
    }
}

impl Default for Arsenal {
    fn default() -> (r: Self)
        ensures
            r.wf(),
            forall|i: int| 0 <= i < 10 ==> #[trigger] r@[i] is None,
    {
        Self::new()
    }
}


/// Bazaar shopping failure.
#[derive(Debug, Clone, Copy, PartialEq, Eq, Structural)]
pub enum BazaarError {
    /// Arsenal mutation failed.
    Arsenal(ArsenalError),
    /// Not enough funds were available.
    InsufficientFunds {
        /// Available staged funds.
        available: i32,
        /// Required staged price.
        required: i32,
    },
    /// No newly staged purchase for this weapon can be removed.
    NoStagedPurchase(WeaponToken),
}

/// Committed bazaar economy state.
#[derive(Debug, Clone, PartialEq, Eq)]
pub struct BazaarCommit {
    /// Committed arsenal.
    pub arsenal: Arsenal,
    /// Committed funds.
    pub funds: i32,
}

#[derive(Debug, Clone, Copy, PartialEq, Eq)]
struct StagedPurchase {
    slot_index: usize,
    token: WeaponToken,
    price: i32,
}

/// Sum of the prices of staged purchases.
pub open spec fn staged_total(purchases: Seq<(usize, WeaponToken, i32)>) -> int
    decreases purchases.len(),
{
    if purchases.len() == 0 {
        0
    } else {
        staged_total(purchases.drop_last()) + purchases.last().2
    }
}

/// Index of the most recent staged purchase of a token among the first `n`.
pub open spec fn last_purchase_before(purchases: Seq<(usize, WeaponToken, i32)>, token: WeaponToken, n: int) -> Option<int>
    decreases n,
{
    if n <= 0 {
        None
    } else if purchases[n - 1].1 == token {
        Some(n - 1)
    } else {
        last_purchase_before(purchases, token, n - 1)
    }
}

/// Index of the most recent staged purchase of a token.
pub open spec fn last_purchase(purchases: Seq<(usize, WeaponToken, i32)>, token: WeaponToken) -> Option<int> {
    last_purchase_before(purchases, token, purchases.len() as int)
}

/// The entry-captured price of a weapon: doubled under Carter Years.
pub open spec fn bazaar_price(token: WeaponToken, carter: bool) -> int {
    if carter { 2 * base_price(token) } else { base_price(token) }
}

proof fn lemma_staged_total_remove(p: Seq<(usize, WeaponToken, i32)>, k: int)
    requires
        0 <= k < p.len(),
    ensures
        staged_total(p.remove(k)) == staged_total(p) - p[k].2,
    decreases p.len(),
{
    if k < p.len() - 1 {
        lemma_staged_total_remove(p.drop_last(), k);
        assert(p.remove(k).drop_last() =~= p.drop_last().remove(k));
    } else {
        assert(p.remove(k) =~= p.drop_last());
    }
}

proof fn lemma_staged_total_nonneg(p: Seq<(usize, WeaponToken, i32)>)
    requires
        forall|j: int| 0 <= j < p.len() ==> (#[trigger] p[j]).2 >= 0,
    ensures
        staged_total(p) >= 0,
    decreases p.len(),
{
    if p.len() > 0 {
        lemma_staged_total_nonneg(p.drop_last());
    }
}

/// The slot a purchase lands in is one of the ten.
pub proof fn lemma_buy_slot_range(slots: Seq<Option<ArsenalSlot>>, token: WeaponToken, i: int)
    ensures
        buy_slot_from(slots, token, i) matches Some(k) ==> 0 <= k < 10,
    decreases 10 - i,
{
    if 0 <= i < 10 {
        lemma_buy_slot_range(slots, token, i + 1);
    }
}

proof fn lemma_last_purchase_found(p: Seq<(usize, WeaponToken, i32)>, token: WeaponToken, n: int)
    requires
        0 <= n <= p.len(),
    ensures
        last_purchase_before(p, token, n) matches Some(k) ==> 0 <= k < n && p[k].1 == token,
    decreases n,
{
    if n > 0 {
        lemma_last_purchase_found(p, token, n - 1);
    }
}

/// Bazaar staging session. Purchases affect only staged funds/arsenal until committed.
#[derive(Debug, Clone, PartialEq, Eq)]
pub struct Bazaar {
    staged_arsenal: Arsenal,
    staged_funds: i32,
    carter_prices: bool,
    purchases: Vec<StagedPurchase>,
}

/// What staging one purchase does to a session: refused for want of funds or of an arsenal
/// slot, otherwise the price is taken, the weapon stacked and the purchase recorded.
pub open spec fn bought(old: Bazaar, new: Bazaar, token: WeaponToken, r: Result<usize, BazaarError>) -> bool {
    &&& new.carter_of() == old.carter_of()
    &&& {
        let price = bazaar_price(token, old.carter_of());
        if old.funds_of() < price {
            &&& r == Err::<usize, BazaarError>(BazaarError::InsufficientFunds {
                available: old.funds_of(),
                required: price as i32,
            })
            &&& new.funds_of() == old.funds_of()
            &&& new.arsenal_of() == old.arsenal_of()
            &&& new.purchases_of() == old.purchases_of()
        } else {
            match buy_slot(old.arsenal_of(), token) {
                None => {
                    &&& r == Err::<usize, BazaarError>(BazaarError::Arsenal(ArsenalError::Full))
                    &&& new.funds_of() == old.funds_of()
                    &&& new.arsenal_of() == old.arsenal_of()
                    &&& new.purchases_of() == old.purchases_of()
                },
                Some(i) => {
                    &&& r == Ok::<usize, BazaarError>(i as usize)
                    &&& new.funds_of() == old.funds_of() - price
                    &&& new.arsenal_of() == old.arsenal_of().update(i, Some(ArsenalSlot {
                        token,
                        quantity: match old.arsenal_of()[i] {
                            Some(s) => (s.quantity + 1) as u32,
                            None => 1u32,
                        },
                    }))
                    &&& new.purchases_of() == old.purchases_of().push((i as usize, token, price as i32))
                },
            }
        }
    }
}

/// What removing a staged purchase does to a session: the latest purchase of the weapon is
/// dropped and, when its slot still holds the weapon, one is taken back and its price refunded.
pub open spec fn unstaged(old: Bazaar, new: Bazaar, token: WeaponToken, r: Result<(), BazaarError>) -> bool {
    &&& new.carter_of() == old.carter_of()
    &&& match last_purchase(old.purchases_of(), token) {
        None => {
            &&& r == Err::<(), BazaarError>(BazaarError::NoStagedPurchase(token))
            &&& new.funds_of() == old.funds_of()
            &&& new.arsenal_of() == old.arsenal_of()
            &&& new.purchases_of() == old.purchases_of()
        },
        Some(k) => {
            let (index, _, price) = old.purchases_of()[k];
            &&& new.purchases_of() == old.purchases_of().remove(k)
            &&& match old.arsenal_of()[index as int] {
                None => r == Err::<(), BazaarError>(BazaarError::Arsenal(ArsenalError::EmptySlot(index)))
                    && new.funds_of() == old.funds_of()
                    && new.arsenal_of() == old.arsenal_of(),
                Some(s) => if s.token != token {
                    r == Err::<(), BazaarError>(BazaarError::Arsenal(ArsenalError::SlotTokenMismatch {
                        index,
                        expected: token,
                        actual: s.token,
                    })) && new.funds_of() == old.funds_of()
                        && new.arsenal_of() == old.arsenal_of()
                } else {
                    r is Ok && new.funds_of() == old.funds_of() + price
                        && new.arsenal_of() == old.arsenal_of().update(index as int, take_one(s))
                },
            }
        },
    }
}

impl Bazaar {
    /// The staged arsenal.
    pub closed spec fn arsenal_of(&self) -> Seq<Option<ArsenalSlot>> {
        self.staged_arsenal@
    }

    /// The staged funds.
    pub closed spec fn funds_of(&self) -> i32 {
        self.staged_funds
    }

    /// Whether prices were doubled at entry.
    pub closed spec fn carter_of(&self) -> bool {
        self.carter_prices
    }

    /// Staged purchases, oldest first, as slot index, weapon and captured price.
    pub closed spec fn purchases_of(&self) -> Seq<(usize, WeaponToken, i32)> {
        self.purchases@.map_values(|p: StagedPurchase| (p.slot_index, p.token, p.price))
    }

    /// The staged arsenal is well formed, every staged purchase names a slot
    /// and has a nonnegative price, and refunding all of them stays in range.
    pub closed spec fn wf(&self) -> bool {
        &&& self.staged_arsenal.wf()
        &&& forall|j: int| 0 <= j < self.purchases@.len() ==> {
            &&& (#[trigger] self.purchases@[j]).slot_index < 10
            &&& self.purchases@[j].price >= 0
        }
        &&& self.staged_funds + staged_total(self.purchases_of()) <= i32::MAX
    }

    /// A well-formed session stages ten arsenal slots.
    pub proof fn lemma_arsenal_len(&self)
        requires
            self.wf(),
        ensures
            self.arsenal_of().len() == 10,
    {
    }

    /// Opens a bazaar session with entry-time Carter price capture.
    #[must_use]
    pub fn new(arsenal: Arsenal, funds: i32, carter_prices: bool) -> (r: Self)
        requires
            arsenal.wf(),
        ensures
            r.wf(),
            r.arsenal_of() == arsenal@,
            r.funds_of() == funds,
            r.carter_of() == carter_prices,
            r.purchases_of().len() == 0,
    {
        let r = Self { staged_arsenal: arsenal, staged_funds: funds, carter_prices, purchases: Vec::new() };
        assert(r.purchases_of() =~= Seq::<(usize, WeaponToken, i32)>::empty());
        r
    }

    /// Returns staged funds after uncommitted purchases/removals.
    #[must_use]
    pub fn staged_funds(&self) -> (r: i32)
        ensures
            r == self.funds_of(),
    {
        self.staged_funds
    }

    /// Returns staged arsenal after uncommitted purchases/removals.
    #[must_use]
    pub fn staged_arsenal(&self) -> (r: &Arsenal)
        ensures
            r@ == self.arsenal_of(),
    {
        &self.staged_arsenal
    }

    /// Returns whether Carter doubled prices for this whole bazaar entry.
    #[must_use]
    pub fn carter_prices(&self) -> (r: bool)
        ensures
            r == self.carter_of(),
    {
        self.carter_prices
    }

    /// Returns the entry-captured price for a token.
    #[must_use]
    pub fn price(&self, token: WeaponToken) -> (r: i32)
        ensures
            r as int == bazaar_price(token, self.carter_of()),
    {
        let base = weapon_spec(token).price;
        if self.carter_prices {
            base * 2
        } else {
            base
        }
    }

    /// Stages one purchase if funds and arsenal capacity allow it.
    pub fn buy(&mut self, token: WeaponToken) -> (r: Result<usize, BazaarError>)
        requires
            old(self).wf(),
            buy_slot(old(self).arsenal_of(), token) matches Some(i) ==> (old(self).arsenal_of()[i] matches Some(s)
                ==> s.quantity < u32::MAX),
        ensures
            final(self).wf(),
            bought(*old(self), *final(self), token, r),
    {
        let price = self.price(token);
        if self.staged_funds < price {
            return Err(BazaarError::InsufficientFunds { available: self.staged_funds, required: price });
        }
        let slot_index = match self.staged_arsenal.buy_weapon(token) {
            Ok(index) => index,
            Err(e) => {
                return Err(BazaarError::Arsenal(e));
            },
        };
        let ghost before = self.purchases_of();
        self.staged_funds = self.staged_funds - price;
        self.purchases.push(StagedPurchase { slot_index, token, price });
        proof {
            lemma_buy_slot_range(old(self).arsenal_of(), token, 0);
            assert(self.purchases_of() =~= before.push((slot_index, token, price)));
            assert(self.purchases_of().drop_last() =~= before);
            assert(staged_total(self.purchases_of()) == staged_total(before) + price);
        }
        Ok(slot_index)
    }

    /// Removes the most recent staged purchase for a token and refunds its captured price.
    pub fn remove_staged(&mut self, token: WeaponToken) -> (r: Result<(), BazaarError>)
        requires
            old(self).wf(),
        ensures
            final(self).wf(),
            unstaged(*old(self), *final(self), token, r),
    {
        let ghost p0 = self.purchases_of();
        let mut n: usize = self.purchases.len();
        while n > 0
            invariant
                n <= self.purchases@.len(),
                self.purchases_of() == p0,
                p0.len() == self.purchases@.len(),
                last_purchase(p0, token) == last_purchase_before(p0, token, n as int),
            ensures
                n <= self.purchases@.len(),
                self.purchases_of() == p0,
                p0.len() == self.purchases@.len(),
                last_purchase(p0, token) == last_purchase_before(p0, token, n as int),
                n == 0 || self.purchases@[n as int - 1].token == token,
            decreases n,
        {
            if self.purchases[n - 1].token == token {
                break;
            }
            n = n - 1;
        }
        if n == 0 {
            return Err(BazaarError::NoStagedPurchase(token));
        }
        let k = n - 1;
        proof {
            assert(p0[k as int] == (self.purchases@[k as int].slot_index, self.purchases@[k as int].token,
                self.purchases@[k as int].price));
            assert(last_purchase(p0, token) == Some(k as int));
            lemma_last_purchase_found(p0, token, p0.len() as int);
            lemma_staged_total_remove(p0, k as int);
            assert forall|j: int| 0 <= j < p0.len() implies (#[trigger] p0[j]).2 >= 0 by {
                assert(p0[j] == (self.purchases@[j].slot_index, self.purchases@[j].token, self.purchases@[j].price));
            }
            lemma_staged_total_nonneg(p0.remove(k as int));
        }
        let ghost pv = self.purchases@;
        let purchase = self.purchases.remove(k);
        proof {
            assert(purchase == pv[k as int]);
            assert(self.purchases_of() =~= p0.remove(k as int));
            assert(p0[k as int] == (purchase.slot_index, purchase.token, purchase.price));
        }
        match self.staged_arsenal.remove_one_staged(purchase.slot_index, purchase.token) {
            Err(e) => Err(BazaarError::Arsenal(e)),
            Ok(()) => {
                self.staged_funds = self.staged_funds + purchase.price;
                Ok(())
            },
        }
    }

    /// Commits staged funds and arsenal.
    #[must_use]
    pub fn commit(self) -> (r: BazaarCommit)
        ensures
            r.arsenal@ == self.arsenal_of(),
            self.wf() ==> r.arsenal.wf(),
            r.funds == self.funds_of(),
    {
        BazaarCommit { arsenal: self.staged_arsenal, funds: self.staged_funds }
    }
}

/// The slot a purchase lands in is empty or already holds the same weapon.
proof fn lemma_buy_slot_matches(slots: Seq<Option<ArsenalSlot>>, token: WeaponToken, i: int)
    ensures
        buy_slot_from(slots, token, i) matches Some(k) ==> (slots[k] matches Some(s) ==> s.token == token),
    decreases 10 - i,
{
    if 0 <= i < 10 {
        lemma_buy_slot_matches(slots, token, i + 1);
    }
}

/// Buying a weapon and then removing the staged purchase of that weapon succeeds and
/// gives back the bazaar's funds, staged arsenal and staged purchases.
pub proof fn lemma_buy_then_remove(
    z0: Bazaar,
    z1: Bazaar,
    z2: Bazaar,
    token: WeaponToken,
    slot: usize,
    r: Result<(), BazaarError>,
)
    requires
        z0.wf(),
        buy_slot(z0.arsenal_of(), token) matches Some(i) ==> (z0.arsenal_of()[i] matches Some(s) ==> s.quantity < u32::MAX),
        bought(z0, z1, token, Ok(slot)),
        unstaged(z1, z2, token, r),
    ensures
        r is Ok,
        z2.funds_of() == z0.funds_of(),
        z2.arsenal_of() == z0.arsenal_of(),
        z2.purchases_of() == z0.purchases_of(),
{
    let i = buy_slot(z0.arsenal_of(), token)->0;
    lemma_buy_slot_range(z0.arsenal_of(), token, 0);
    lemma_buy_slot_matches(z0.arsenal_of(), token, 0);
    let p1 = z1.purchases_of();
    let k = p1.len() - 1;
    assert(p1[k] == (i as usize, token, bazaar_price(token, z0.carter_of()) as i32));
    assert(last_purchase(p1, token) == Some(k));
    assert(p1.remove(k) =~= z0.purchases_of());
    match z0.arsenal_of()[i] {
        Some(s) => {
            assert(s.quantity >= 1);
            assert(take_one(ArsenalSlot { token, quantity: (s.quantity + 1) as u32 }) == Some(s));
        },
        None => {},
    }
    assert(z2.arsenal_of() =~= z0.arsenal_of());
}

} // verus!
