//! Compact text fixtures for deterministic core scenarios.
//!
//! A board fixture is TOML-like front matter between `+++` lines, followed by named text
//! sections such as `@board`, one glyph per board cell.

use crate::board::{at, in_board, Board, BoardError, Coord};
use crate::cell::{Cell, Pip};
use crate::text::{
    is_space, same_chars, slice_chars, string_from_chars, text_chars, trim_chars, trimmed, unquoted, occurs_at,
};
use vstd::prelude::*;

verus! {

/// A named text fixture used by deterministic core tests.
#[derive(Debug, Clone, Copy, PartialEq, Eq)]
pub struct TextFixture<'a> {
    /// Human-readable fixture name used in test diagnostics.
    pub name: &'a str,
    /// Fixture contents in the compact text format owned by the calling module.
    pub contents: &'a str,
}

impl<'a> TextFixture<'a> {
    /// Creates a fixture wrapper without interpreting its contents.
    #[must_use]
    pub fn new(name: &'a str, contents: &'a str) -> (r: Self)
        ensures
            r.name == name,
            r.contents == contents,
    {
        Self { name, contents }
    }
}

/// Errors returned when parsing compact core fixtures.
#[derive(Debug, Clone, PartialEq, Eq)]
pub enum FixtureError {
    /// The fixture did not contain delimited front matter.
    MissingFrontMatter,
    /// Required metadata was absent.
    MissingMetadata(&'static str),
    /// Metadata did not have the expected value or shape.
    InvalidMetadata {
        /// Metadata key that failed validation.
        key: &'static str,
        /// Parsed metadata value.
        value: String,
    },
    /// The fixture did not contain an expected text section.
    MissingSection(&'static str),
    /// A board row used a glyph not supported by the board fixture parser.
    UnknownBoardGlyph {
        /// Unknown glyph from the board text section.
        glyph: char,
        /// Horizontal board coordinate of the glyph.
        x: usize,
        /// Vertical board coordinate of the glyph.
        y: usize,
    },
    /// The board text dimensions did not match the metadata.
    InvalidBoardShape {
        /// Width declared by fixture metadata.
        expected_width: usize,
        /// Height declared by fixture metadata.
        expected_height: usize,
        /// Width found in the offending text row.
        actual_width: usize,
        /// Number of board rows found in the text section.
        actual_height: usize,
    },
    /// The parsed board could not be constructed.
    Board(BoardError),
}

impl From<BoardError> for FixtureError {
    fn from(value: BoardError) -> (r: Self) {
        Self::Board(value)
    }
}

impl vstd::std_specs::convert::FromSpecImpl<BoardError> for FixtureError {
    open spec fn obeys_from_spec() -> bool {
        true
    }

    open spec fn from_spec(v: BoardError) -> Self {
        FixtureError::Board(v)
    }
}

/// The first position at or after `i` where `c` occurs.
pub open spec fn index_of_from(s: Seq<char>, c: char, i: int) -> Option<int>
    decreases s.len() - i,
{
    if i < 0 || i >= s.len() {
        None
    } else if s[i] == c {
        Some(i)
    } else {
        index_of_from(s, c, i + 1)
    }
}

/// A position `index_of_from` finds lies in the text, at or after the start.
pub proof fn lemma_index_of_range(s: Seq<char>, c: char, i: int)
    ensures
        index_of_from(s, c, i) matches Some(k) ==> i <= k < s.len() && s[k] == c,
    decreases s.len() - i,
{
    if 0 <= i < s.len() && s[i] != c {
        lemma_index_of_range(s, c, i + 1);
    }
}

/// The first position at or after `i` where `pat` occurs (a nonempty pattern).
pub open spec fn find_from(s: Seq<char>, pat: Seq<char>, i: int) -> Option<int>
    decreases s.len() - i,
{
    if i < 0 || i >= s.len() || i + pat.len() > s.len() {
        None
    } else if s.subrange(i, i + pat.len()) == pat {
        Some(i)
    } else {
        find_from(s, pat, i + 1)
    }
}

/// A line without the carriage return of a `\r\n` ending.
pub open spec fn without_cr(line: Seq<char>) -> Seq<char> {
    if line.len() > 0 && line.last() == '\r' {
        line.drop_last()
    } else {
        line
    }
}

/// The lines of a text: split at `\n`, a `\r` before it dropped, and no empty line after a
/// final line ending.
pub open spec fn lines_of(s: Seq<char>) -> Seq<Seq<char>>
    decreases s.len(),
{
    if s.len() == 0 {
        Seq::empty()
    } else {
        match index_of_from(s, '\n', 0) {
            None => seq![s],
            Some(i) => {
                proof {
                    lemma_index_of_range(s, '\n', 0);
                }
                seq![without_cr(s.take(i))] + lines_of(s.skip(i + 1))
            },
        }
    }
}

/// The metadata and the body of a fixture: after an opening `+++` line, the metadata runs to
/// the first closing `+++` line (looked for with `\r\n` endings first).
pub open spec fn front_matter(s: Seq<char>) -> Option<(Seq<char>, Seq<char>)> {
    let rest = if s.len() >= 5 && s.take(5) == "+++\r\n"@ {
        Some(s.skip(5))
    } else if s.len() >= 4 && s.take(4) == "+++\n"@ {
        Some(s.skip(4))
    } else {
        None
    };
    match rest {
        None => None,
        Some(c) => match find_from(c, "\r\n+++\r\n"@, 0) {
            Some(i) => Some((c.take(i), c.skip(i + 7))),
            None => match find_from(c, "\n+++\n"@, 0) {
                Some(i) => Some((c.take(i), c.skip(i + 5))),
                None => None,
            },
        },
    }
}

/// The value of the first metadata line among `lines` whose key is `key`: the text after
/// its first `=`, trimmed and unquoted.
pub open spec fn value_in_lines(lines: Seq<Seq<char>>, key: Seq<char>) -> Option<Seq<char>>
    decreases lines.len(),
{
    if lines.len() == 0 {
        None
    } else {
        let line = lines[0];
        match index_of_from(line, '=', 0) {
            Some(i) => if trimmed(line.take(i)) == key {
                Some(unquoted(trimmed(line.skip(i + 1))))
            } else {
                value_in_lines(lines.drop_first(), key)
            },
            None => value_in_lines(lines.drop_first(), key),
        }
    }
}

/// The value of a metadata key.
pub open spec fn meta_value(meta: Seq<char>, key: Seq<char>) -> Option<Seq<char>> {
    value_in_lines(lines_of(meta), key)
}

/// Whether every character is an ASCII digit.
pub open spec fn all_digits(s: Seq<char>) -> bool {
    forall|i: int| 0 <= i < s.len() ==> '0' <= #[trigger] s[i] <= '9'
}

/// The number the ASCII digits spell.
pub open spec fn digits_value(s: Seq<char>) -> nat
    decreases s.len(),
{
    if s.len() == 0 {
        0
    } else {
        digits_value(s.drop_last()) * 10 + (s.last() as nat - '0' as nat) as nat
    }
}

/// The `usize` a text spells: an optional `+`, then at least one ASCII digit, within range.
pub open spec fn usize_value(s: Seq<char>) -> Option<usize> {
    let digits = if s.len() > 0 && s[0] == '+' { s.drop_first() } else { s };
    if digits.len() > 0 && all_digits(digits) && digits_value(digits) <= usize::MAX {
        Some(digits_value(digits) as usize)
    } else {
        None
    }
}

/// The non-blank lines after the first line `name` among `lines`, up to the next line that
/// starts with `@`.
pub open spec fn section_rows(lines: Seq<Seq<char>>) -> Seq<Seq<char>>
    decreases lines.len(),
{
    if lines.len() == 0 || (lines[0].len() > 0 && lines[0][0] == '@') {
        Seq::empty()
    } else if trimmed(lines[0]).len() == 0 {
        section_rows(lines.drop_first())
    } else {
        seq![lines[0]] + section_rows(lines.drop_first())
    }
}

/// The first position of a line `name` among `lines` from `i` on.
pub open spec fn header_index(lines: Seq<Seq<char>>, name: Seq<char>, i: int) -> Option<int>
    decreases lines.len() - i,
{
    if i < 0 || i >= lines.len() {
        None
    } else if trimmed(lines[i]) == name {
        Some(i)
    } else {
        header_index(lines, name, i + 1)
    }
}

/// The rows of a named section of the body.
pub open spec fn section(body: Seq<char>, name: Seq<char>) -> Option<Seq<Seq<char>>> {
    let lines = lines_of(body);
    match header_index(lines, name, 0) {
        None => None,
        Some(i) => Some(section_rows(lines.skip(i + 1))),
    }
}

/// Whether a board fixture knows a glyph.
pub open spec fn known_glyph(g: char) -> bool {
    g == '.' || g == 'X' || g == 'S' || ('1' <= g <= '6') || g == 'H' || g == 'F' || g == 'G' || g == 'I' || g == 'T'
}

/// The board slot a glyph stands for: empty, a visible cell of color 1, a structure, a die of
/// the digit's pips, a happy or frown cell, a gimp cell of value 0, an invisible cell, or a
/// removable hidden cell of value 0.
pub open spec fn glyph_slot(g: char, slot: Option<Cell>) -> bool {
    if g == '.' {
        slot is None
    } else if g == 'X' {
        slot matches Some(Cell::Visible { color }) && color@ == 1
    } else if g == 'S' {
        slot == Some(Cell::Structure)
    } else if '1' <= g <= '6' {
        slot matches Some(Cell::Die { pip }) && pip@ == g as u32 - '0' as u32
    } else if g == 'H' {
        slot == Some(Cell::Happy)
    } else if g == 'F' {
        slot == Some(Cell::Frown)
    } else if g == 'G' {
        slot == Some(Cell::Gimp { value: 0 })
    } else if g == 'I' {
        slot == Some(Cell::Invisible)
    } else if g == 'T' {
        slot == Some(Cell::Hidden { value: 0, removable: true })
    } else {
        false
    }
}

/// The first unknown glyph of a row from `x` on.
pub open spec fn bad_glyph_from(row: Seq<char>, x: int) -> Option<int>
    decreases row.len() - x,
{
    if x < 0 || x >= row.len() {
        None
    } else if !known_glyph(row[x]) {
        Some(x)
    } else {
        bad_glyph_from(row, x + 1)
    }
}

/// The first fault among rows `y..`: a row of the wrong width (`Ok` of its width) or an
/// unknown glyph (`Err` of its position).
pub open spec fn rows_fault(rows: Seq<Seq<char>>, width: int, y: int) -> Option<Result<int, (int, int)>>
    decreases rows.len() - y,
{
    if y < 0 || y >= rows.len() {
        None
    } else if rows[y].len() != width {
        Some(Ok(rows[y].len() as int))
    } else {
        match bad_glyph_from(rows[y], 0) {
            Some(x) => Some(Err((x, y))),
            None => rows_fault(rows, width, y + 1),
        }
    }
}

/// What the board section's rows give: a row count other than 28, then the first row of
/// the wrong width or unknown glyph, or a board whose every cell is the slot of its glyph.
pub open spec fn rows_parsed(rows: Seq<Seq<char>>, r: Result<Board, FixtureError>) -> bool {
    if rows.len() != 28 {
        r == Err::<Board, FixtureError>(
            FixtureError::InvalidBoardShape {
                expected_width: 10,
                expected_height: 28,
                actual_width: if rows.len() == 0 { 0 } else { rows[0].len() as usize },
                actual_height: rows.len() as usize,
            },
        )
    } else {
        match rows_fault(rows, 10, 0) {
            Some(Ok(w)) => r == Err::<Board, FixtureError>(
                FixtureError::InvalidBoardShape {
                    expected_width: 10,
                    expected_height: 28,
                    actual_width: w as usize,
                    actual_height: 28,
                },
            ),
            Some(Err((x, y))) => r == Err::<Board, FixtureError>(
                FixtureError::UnknownBoardGlyph {
                    glyph: rows[y][x],
                    x: x as usize,
                    y: y as usize,
                },
            ),
            None => r matches Ok(b) && b.wf() && forall|x: int, y: int|
                in_board(x, y) ==> glyph_slot(rows[y][x], #[trigger] at(b@, x, y)),
        }
    }
}

/// What parsing a board fixture gives: each failure in the order the parser meets it, or a
/// board whose every cell is the slot of its glyph.
pub open spec fn fixture_parsed(s: Seq<char>, r: Result<Board, FixtureError>) -> bool {
    match front_matter(s) {
        None => r == Err::<Board, FixtureError>(FixtureError::MissingFrontMatter),
        Some((meta, body)) => match meta_value(meta, "kind"@) {
            None => r matches Err(FixtureError::MissingMetadata(k)) && k@ == "kind"@,
            Some(kind) => if kind != "board"@ {
                r matches Err(FixtureError::InvalidMetadata { key, value }) && key@ == "kind"@ && value@ == kind
            } else {
                match meta_value(meta, "width"@) {
                    None => r matches Err(FixtureError::MissingMetadata(k)) && k@ == "width"@,
                    Some(wv) => match usize_value(wv) {
                        None => r matches Err(FixtureError::InvalidMetadata { key, value }) && key@ == "width"@
                            && value@ == wv,
                        Some(width) => match meta_value(meta, "height"@) {
                            None => r matches Err(FixtureError::MissingMetadata(k)) && k@ == "height"@,
                            Some(hv) => match usize_value(hv) {
                                None => r matches Err(FixtureError::InvalidMetadata { key, value }) && key@
                                    == "height"@ && value@ == hv,
                                Some(height) => if width != 10 || height != 28 {
                                    r matches Err(FixtureError::InvalidMetadata { key, value }) && key@
                                        == "dimensions"@ && value@ == crate::wire::decimal(width as nat) + "x"@
                                        + crate::wire::decimal(height as nat)
                                } else {
                                    match section(body, "@board"@) {
                                        None => r matches Err(FixtureError::MissingSection(n)) && n@ == "@board"@,
                                        Some(rows) => rows_parsed(rows, r),
                                    }
                                },
                            },
                        },
                    },
                }
            },
        },
    }
}


/// The character sequences of a list of character vectors.
pub open spec fn views(vs: Seq<Vec<char>>) -> Seq<Seq<char>> {
    vs.map_values(|v: Vec<char>| v@)
}

proof fn lemma_index_scan(s: Seq<char>, c: char, i: int, k: int)
    requires
        0 <= i <= k <= s.len(),
        forall|j: int| i <= j < k ==> #[trigger] s[j] != c,
    ensures
        k < s.len() && s[k] == c ==> index_of_from(s, c, i) == Some(k),
        k == s.len() ==> index_of_from(s, c, i) is None,
    decreases k - i,
{
    if i < k {
        lemma_index_scan(s, c, i + 1, k);
    }
}

fn text_lines(v: &Vec<char>) -> (r: Vec<Vec<char>>)
    ensures
        views(r@) == lines_of(v@),
{
    let mut out: Vec<Vec<char>> = Vec::new();
    let mut pos: usize = 0;
    assert(v@.skip(0) =~= v@);
    assert(views(out@) + lines_of(v@) =~= lines_of(v@));
    while pos < v.len()
        invariant
            pos <= v@.len(),
            lines_of(v@) == views(out@) + lines_of(v@.skip(pos as int)),
        decreases v@.len() - pos,
    {
        let ghost rest = v@.skip(pos as int);
        let mut k: usize = pos;
        while k < v.len() && v[k] != '\n'
            invariant
                pos <= k <= v@.len(),
                rest == v@.skip(pos as int),
                forall|j: int| pos <= j < k ==> #[trigger] v@[j] != '\n',
            decreases v@.len() - k,
        {
            k = k + 1;
        }
        proof {
            assert forall|j: int| 0 <= j < k - pos implies #[trigger] rest[j] != '\n' by {
                assert(rest[j] == v@[pos + j]);
            }
            if k < v@.len() {
                assert(rest[k - pos] == v@[k as int]);
            }
            lemma_index_scan(rest, '\n', 0, k - pos);
        }
        let ghost before = out@;
        if k == v.len() {
            let line = slice_chars(v, pos, k);
            out.push(line);
            proof {
                assert(line@ =~= rest);
                assert(views(out@) =~= views(before) + seq![rest]);
                assert(v@.skip(k as int) =~= Seq::<char>::empty());
                assert(lines_of(v@.skip(k as int)) =~= Seq::<Seq<char>>::empty());
            }
            pos = k;
        } else {
            let mut line = slice_chars(v, pos, k);
            if line.len() > 0 && line[line.len() - 1] == '\r' {
                line.pop();
            }
            proof {
                assert(v@.subrange(pos as int, k as int) =~= rest.take(k - pos));
                assert(line@ =~= without_cr(rest.take(k - pos)));
                assert(rest.skip(k - pos + 1) =~= v@.skip(k + 1));
            }
            out.push(line);
            proof {
                assert(views(out@) =~= views(before) + seq![without_cr(rest.take(k - pos))]);
            }
            pos = k + 1;
        }
    }
    proof {
        assert(v@.skip(pos as int) =~= Seq::<char>::empty());
        assert(views(out@) + Seq::<Seq<char>>::empty() =~= views(out@));
    }
    out
}


proof fn lemma_find_range(s: Seq<char>, pat: Seq<char>, i: int)
    ensures
        find_from(s, pat, i) matches Some(k) ==> i <= k && 0 <= k && k + pat.len() <= s.len(),
    decreases s.len() - i,
{
    if 0 <= i < s.len() && i + pat.len() <= s.len() && s.subrange(i, i + pat.len()) != pat {
        lemma_find_range(s, pat, i + 1);
    }
}

fn find_pattern(v: &Vec<char>, pat: &Vec<char>) -> (r: Option<usize>)
    requires
        pat@.len() > 0,
    ensures
        r == match find_from(v@, pat@, 0) {
            Some(i) => Some(i as usize),
            None => None::<usize>,
        },
        r matches Some(i) ==> i + pat@.len() <= v@.len(),
        find_from(v@, pat@, 0) matches Some(k) ==> 0 <= k && k + pat@.len() <= v@.len(),
{
    proof {
        lemma_find_range(v@, pat@, 0);
    }
    let mut i: usize = 0;
    while i < v.len() && pat.len() <= v.len() - i
        invariant
            i <= v@.len(),
            pat@.len() > 0,
            find_from(v@, pat@, 0) == find_from(v@, pat@, i as int),
        decreases v@.len() - i,
    {
        if occurs_at(v, pat, i) {
            return Some(i);
        }
        i = i + 1;
    }
    None
}

fn literal_chars(s: &str) -> (r: Vec<char>)
    ensures
        r@ == s@,
{
    text_chars(s)
}

fn split_front_matter(v: &Vec<char>) -> (r: Option<(Vec<char>, Vec<char>)>)
    ensures
        match front_matter(v@) {
            None => r is None,
            Some((meta, body)) => r matches Some((m, b)) && m@ == meta && b@ == body,
        },
{
    let crlf_open = literal_chars("+++\r\n");
    let lf_open = literal_chars("+++\n");
    let crlf_close = literal_chars("\r\n+++\r\n");
    let lf_close = literal_chars("\n+++\n");
    proof {
        reveal_strlit("+++\r\n");
        reveal_strlit("+++\n");
        reveal_strlit("\r\n+++\r\n");
        reveal_strlit("\n+++\n");
    }
    let skip: usize = if v.len() >= 5 && occurs_at(v, &crlf_open, 0) {
        assert(v@.subrange(0, 5) =~= v@.take(5));
        5
    } else if v.len() >= 4 && occurs_at(v, &lf_open, 0) {
        assert(v@.subrange(0, 4) =~= v@.take(4));
        proof {
            if v@.len() >= 5 {
                assert(v@.subrange(0, 5) =~= v@.take(5));
            }
        }
        4
    } else {
        proof {
            if v@.len() >= 5 {
                assert(v@.subrange(0, 5) =~= v@.take(5));
            }
            if v@.len() >= 4 {
                assert(v@.subrange(0, 4) =~= v@.take(4));
            }
        }
        return None;
    };
    let rest = slice_chars(v, skip, v.len());
    assert(rest@ =~= v@.skip(skip as int));
    let (at, len) = match find_pattern(&rest, &crlf_close) {
        Some(i) => (i, 7usize),
        None => match find_pattern(&rest, &lf_close) {
            Some(i) => (i, 5usize),
            None => {
                return None;
            },
        },
    };
    let meta = slice_chars(&rest, 0, at);
    let body = slice_chars(&rest, at + len, rest.len());
    assert(meta@ =~= rest@.take(at as int));
    assert(body@ =~= rest@.skip(at + len));
    proof {
        let c = v@.skip(skip as int);
        assert(c == rest@);
        if skip == 5 {
            assert(v@.len() >= 5 && v@.take(5) == "+++\r\n"@);
        } else {
            assert(!(v@.len() >= 5 && v@.take(5) == "+++\r\n"@));
            assert(v@.len() >= 4 && v@.take(4) == "+++\n"@);
        }
        if len == 7 {
            assert(find_from(c, "\r\n+++\r\n"@, 0) == Some(at as int));
        } else {
            assert(find_from(c, "\r\n+++\r\n"@, 0) is None);
            assert(find_from(c, "\n+++\n"@, 0) == Some(at as int));
        }
    }
    Some((meta, body))
}

fn value_in(lines: &Vec<Vec<char>>, key: &Vec<char>) -> (r: Option<Vec<char>>)
    ensures
        match value_in_lines(views(lines@), key@) {
            None => r is None,
            Some(value) => r matches Some(v) && v@ == value,
        },
{
    let mut i: usize = 0;
    assert(views(lines@).skip(0) =~= views(lines@));
    while i < lines.len()
        invariant
            i <= lines@.len(),
            value_in_lines(views(lines@), key@) == value_in_lines(views(lines@).skip(i as int), key@),
        decreases lines@.len() - i,
    {
        let ghost rest = views(lines@).skip(i as int);
        assert(rest[0] == lines@[i as int]@);
        assert(rest.drop_first() =~= views(lines@).skip(i + 1));
        let line = &lines[i];
        let mut k: usize = 0;
        while k < line.len() && line[k] != '='
            invariant
                k <= line@.len(),
                forall|j: int| 0 <= j < k ==> #[trigger] line@[j] != '=',
            decreases line@.len() - k,
        {
            k = k + 1;
        }
        proof {
            lemma_index_scan(line@, '=', 0, k as int);
        }
        if k < line.len() {
            let head = slice_chars(line, 0, k);
            let key_part = trim_chars(&head, false);
            assert(head@ =~= line@.take(k as int));
            let same = key_part.len() == key.len() && (key.len() == 0 || occurs_at(&key_part, key, 0));
            assert(same == (key_part@ == key@)) by {
                if key_part@.len() == key@.len() && key@.len() > 0 {
                    assert(key_part@.subrange(0, key@.len() as int) =~= key_part@);
                }
                if key_part@.len() == key@.len() && key@.len() == 0 {
                    assert(key_part@ =~= key@);
                }
            }
            if same {
                let tail = slice_chars(line, k + 1, line.len());
                assert(tail@ =~= line@.skip(k + 1));
                let value = trim_chars(&trim_chars(&tail, false), true);
                return Some(value);
            }
        }
        i = i + 1;
    }
    assert(views(lines@).skip(i as int) =~= Seq::<Seq<char>>::empty());
    None
}


fn parse_usize(v: &Vec<char>) -> (r: Option<usize>)
    ensures
        r == usize_value(v@),
{
    let start: usize = if v.len() > 0 && v[0] == '+' {
        1
    } else {
        0
    };
    let ghost digits = if v@.len() > 0 && v@[0] == '+' { v@.drop_first() } else { v@ };
    assert(digits =~= v@.skip(start as int));
    if start >= v.len() {
        return None;
    }
    let mut value: usize = 0;
    let mut i: usize = start;
    while i < v.len()
        invariant
            start <= i <= v@.len(),
            start < v@.len(),
            digits == v@.skip(start as int),
            digits == (if v@.len() > 0 && v@[0] == '+' { v@.drop_first() } else { v@ }),
            all_digits(v@.subrange(start as int, i as int)),
            value as nat == digits_value(v@.subrange(start as int, i as int)),
        decreases v@.len() - i,
    {
        let c = v[i];
        let ghost prefix = v@.subrange(start as int, i as int);
        let ghost next = v@.subrange(start as int, i + 1);
        assert(next.drop_last() =~= prefix);
        assert(next.last() == c);
        if !('0' <= c && c <= '9') {
            proof {
                assert(digits[i - start] == c);
                assert(!all_digits(digits));
            }
            return None;
        }
        let d = (c as u32 - '0' as u32) as usize;
        let next_value = match value.checked_mul(10) {
            Some(t) => t.checked_add(d),
            None => None,
        };
        match next_value {
            Some(n) => {
                value = n;
            },
            None => {
                proof {
                    if all_digits(digits) {
                        lemma_digits_grow(digits, (i - start + 1) as int);
                        assert(digits.take((i - start + 1) as int) =~= next);
                    }
                }
                return None;
            },
        }
        i = i + 1;
    }
    assert(v@.subrange(start as int, v@.len() as int) =~= digits);
    Some(value)
}

/// A longer prefix of digits spells no smaller a number.
proof fn lemma_digits_grow(s: Seq<char>, k: int)
    requires
        0 <= k <= s.len(),
        all_digits(s),
    ensures
        digits_value(s.take(k)) <= digits_value(s),
    decreases s.len() - k,
{
    if k < s.len() {
        lemma_digits_grow(s, k + 1);
        assert(s.take(k + 1).drop_last() =~= s.take(k));
        assert('0' <= s.take(k + 1).last());
    } else {
        assert(s.take(k) =~= s);
    }
}

fn section_lines(lines: &Vec<Vec<char>>, name: &Vec<char>) -> (r: Option<Vec<Vec<char>>>)
    ensures
        match header_index(views(lines@), name@, 0) {
            None => r is None,
            Some(i) => r matches Some(rows) && views(rows@) == section_rows(views(lines@).skip(i + 1)),
        },
{
    let ghost all = views(lines@);
    let mut i: usize = 0;
    while i < lines.len()
        invariant
            i <= lines@.len(),
            all == views(lines@),
            header_index(all, name@, 0) == header_index(all, name@, i as int),
        decreases lines@.len() - i,
    {
        let t = trim_chars(&lines[i], false);
        assert(all[i as int] == lines@[i as int]@);
        let same = t.len() == name.len() && (name.len() == 0 || occurs_at(&t, name, 0));
        assert(same == (t@ == name@)) by {
            if t@.len() == name@.len() && name@.len() > 0 {
                assert(t@.subrange(0, name@.len() as int) =~= t@);
            }
            if t@.len() == name@.len() && name@.len() == 0 {
                assert(t@ =~= name@);
            }
        }
        if same {
            let mut rows: Vec<Vec<char>> = Vec::new();
            let mut k: usize = i + 1;
            let ghost tail = all.skip(i + 1);
            assert(header_index(all, name@, 0) == Some(i as int));
            assert(all.skip(k as int) =~= tail);
            assert(views(rows@) + section_rows(all.skip(k as int)) =~= section_rows(tail));
            while k < lines.len()
                invariant
                    i < k <= lines@.len(),
                    all == views(lines@),
                    tail == all.skip(i + 1),
                    header_index(all, name@, 0) == Some(i as int),
                    section_rows(tail) == views(rows@) + section_rows(all.skip(k as int)),
                decreases lines@.len() - k,
            {
                let line = &lines[k];
                let ghost rest = all.skip(k as int);
                assert(rest[0] == line@);
                assert(rest.drop_first() =~= all.skip(k + 1));
                if line.len() > 0 && line[0] == '@' {
                    assert(section_rows(rest) =~= Seq::<Seq<char>>::empty());
                    assert(views(rows@) + Seq::<Seq<char>>::empty() =~= views(rows@));
                    return Some(rows);
                }
                let tl = trim_chars(line, false);
                if tl.len() > 0 {
                    let ghost before = views(rows@);
                    rows.push(slice_chars(line, 0, line.len()));
                    assert(line@.subrange(0, line@.len() as int) =~= line@);
                    assert(views(rows@) =~= before.push(line@));
                    assert(before + section_rows(rest) =~= views(rows@) + section_rows(all.skip(k + 1)));
                }
                k = k + 1;
            }
            assert(all.skip(k as int) =~= Seq::<Seq<char>>::empty());
            assert(views(rows@) + Seq::<Seq<char>>::empty() =~= views(rows@));
            return Some(rows);
        }
        i = i + 1;
    }
    None
}

fn cell_from_glyph(glyph: char) -> (r: Option<Option<Cell>>)
    ensures
        r is Some <==> known_glyph(glyph),
        r matches Some(slot) ==> glyph_slot(glyph, slot),
{
    match glyph {
        '.' => Some(None),
        'X' => Some(Some(Cell::visible())),
        'S' => Some(Some(Cell::Structure)),
        '1' => Some(Some(Cell::die(Pip::new(1).unwrap()))),
        '2' => Some(Some(Cell::die(Pip::new(2).unwrap()))),
        '3' => Some(Some(Cell::die(Pip::new(3).unwrap()))),
        '4' => Some(Some(Cell::die(Pip::new(4).unwrap()))),
        '5' => Some(Some(Cell::die(Pip::new(5).unwrap()))),
        '6' => Some(Some(Cell::die(Pip::new(6).unwrap()))),
        'H' => Some(Some(Cell::Happy)),
        'F' => Some(Some(Cell::Frown)),
        'G' => Some(Some(Cell::Gimp { value: 0 })),
        'I' => Some(Some(Cell::Invisible)),
        'T' => Some(Some(Cell::Hidden { value: 0, removable: true })),
        _ => None,
    }
}


/// Parses a compact board fixture into a typed board.
pub fn parse_board_fixture(fixture: TextFixture<'_>) -> (r: Result<Board, FixtureError>)
    ensures
        fixture_parsed(fixture.contents@, r),
{
    proof {
        reveal_strlit("kind");
        reveal_strlit("board");
        reveal_strlit("width");
        reveal_strlit("height");
        reveal_strlit("dimensions");
        reveal_strlit("@board");
        reveal_strlit("x");
    }
    let text = text_chars(fixture.contents);
    let (meta, body) = match split_front_matter(&text) {
        Some(parts) => parts,
        None => {
            return Err(FixtureError::MissingFrontMatter);
        },
    };
    let meta_lines = text_lines(&meta);
    let kind = match value_in(&meta_lines, &literal_chars("kind")) {
        Some(k) => k,
        None => {
            return Err(FixtureError::MissingMetadata("kind"));
        },
    };
    if !same_chars(&kind, &literal_chars("board")) {
        return Err(FixtureError::InvalidMetadata { key: "kind", value: string_from_chars(&kind) });
    }
    let width_text = match value_in(&meta_lines, &literal_chars("width")) {
        Some(v) => v,
        None => {
            return Err(FixtureError::MissingMetadata("width"));
        },
    };
    let width = match parse_usize(&width_text) {
        Some(w) => w,
        None => {
            return Err(FixtureError::InvalidMetadata { key: "width", value: string_from_chars(&width_text) });
        },
    };
    let height_text = match value_in(&meta_lines, &literal_chars("height")) {
        Some(v) => v,
        None => {
            return Err(FixtureError::MissingMetadata("height"));
        },
    };
    let height = match parse_usize(&height_text) {
        Some(h) => h,
        None => {
            return Err(FixtureError::InvalidMetadata { key: "height", value: string_from_chars(&height_text) });
        },
    };
    if width != 10 || height != 28 {
        let mut value = crate::wire::decimal_string(width as u64);
        value.append("x");
        crate::wire::push_decimal(&mut value, height as u64);
        return Err(FixtureError::InvalidMetadata { key: "dimensions", value });
    }
    let body_lines = text_lines(&body);
    let rows = match section_lines(&body_lines, &literal_chars("@board")) {
        Some(rows) => rows,
        None => {
            return Err(FixtureError::MissingSection("@board"));
        },
    };
    board_from_rows(&rows)
}


fn board_from_rows(rows: &Vec<Vec<char>>) -> (r: Result<Board, FixtureError>)
    ensures
        rows_parsed(views(rows@), r),
{
    let ghost rv = views(rows@);
    if rows.len() != 28 {
        let actual_width = if rows.len() == 0 {
            0
        } else {
            rows[0].len()
        };
        assert(rows.len() > 0 ==> rv[0] == rows@[0]@);
        return Err(
            FixtureError::InvalidBoardShape {
                expected_width: 10,
                expected_height: 28,
                actual_width,
                actual_height: rows.len(),
            },
        );
    }
    let mut board = Board::empty();
    let mut y: usize = 0;
    while y < 28
        invariant
            y <= 28,
            rows@.len() == 28,
            rv == views(rows@),
            board.wf(),
            rows_fault(rv, 10, 0) == rows_fault(rv, 10, y as int),
            forall|yy: int| 0 <= yy < y ==> #[trigger] rv[yy].len() == 10,
            forall|xx: int, yy: int| 0 <= xx < 10 && 0 <= yy < y ==> glyph_slot(rv[yy][xx], #[trigger] at(board@, xx, yy)),
        decreases 28 - y,
    {
        let row = &rows[y];
        assert(rv[y as int] == row@);
        if row.len() != 10 {
            return Err(
                FixtureError::InvalidBoardShape {
                    expected_width: 10,
                    expected_height: 28,
                    actual_width: row.len(),
                    actual_height: rows.len(),
                },
            );
        }
        let mut x: usize = 0;
        while x < 10
            invariant
                x <= 10,
                y < 28,
                row@.len() == 10,
                rv[y as int] == row@,
                rv == views(rows@),
                rv.len() == 28,
                rows_fault(rv, 10, 0) == rows_fault(rv, 10, y as int),
                    board.wf(),
                bad_glyph_from(row@, 0) == bad_glyph_from(row@, x as int),
                forall|xx: int, yy: int| 0 <= xx < 10 && 0 <= yy < y ==> glyph_slot(rv[yy][xx], #[trigger] at(board@, xx, yy)),
                forall|xx: int| 0 <= xx < x ==> glyph_slot(row@[xx], #[trigger] at(board@, xx, y as int)),
            decreases 10 - x,
        {
            let glyph = row[x];
            let cell = match cell_from_glyph(glyph) {
                Some(c) => c,
                None => {
                    proof {
                        assert(bad_glyph_from(row@, x as int) == Some(x as int));
                        assert(rows_fault(rv, 10, y as int) == Some(Err::<int, (int, int)>((x as int, y as int))));
                        assert(rows_parsed(rv, Err(FixtureError::UnknownBoardGlyph { glyph, x, y })));
                    }
                    return Err(FixtureError::UnknownBoardGlyph { glyph, x, y });
                },
            };
            let coord = Coord::new(x, y).unwrap();
            let ghost before = board@;
            board.set(coord, cell);
            proof {
                assert forall|xx: int, yy: int| 0 <= xx < 10 && 0 <= yy < y implies glyph_slot(rv[yy][xx], #[trigger] at(board@, xx, yy)) by {
                    assert(crate::board::cell_index(xx, yy) != crate::board::cell_index(x as int, y as int));
                    assert(at(board@, xx, yy) == at(before, xx, yy));
                }
                assert forall|xx: int| 0 <= xx < x + 1 implies glyph_slot(row@[xx], #[trigger] at(board@, xx, y as int)) by {
                    if xx < x {
                        assert(crate::board::cell_index(xx, y as int) != crate::board::cell_index(x as int, y as int));
                        assert(at(board@, xx, y as int) == at(before, xx, y as int));
                    }
                }
            }
            x = x + 1;
        }
        proof {
            assert(bad_glyph_from(row@, 10) is None);
        }
        y = y + 1;
    }
    proof {
        assert(rows_fault(rv, 10, 28) is None);
    }
    Ok(board)
}


/// The fixture glyph of a board slot.
pub open spec fn glyph_of(slot: Option<Cell>) -> char {
    match slot {
        None => '.',
        Some(Cell::Visible { .. }) => 'X',
        Some(Cell::Structure) => 'S',
        Some(Cell::Happy) => 'H',
        Some(Cell::Frown) => 'F',
        Some(Cell::Gimp { .. }) => 'G',
        Some(Cell::Die { pip }) => ('0' as u32 + pip@ as u32) as char,
        Some(Cell::Invisible) => 'I',
        Some(Cell::Hidden { .. }) => 'T',
    }
}

/// The fixture text of a board: one line of ten glyphs per row, top row first, each line ended.
pub open spec fn board_text(cells: Seq<Option<Cell>>) -> Seq<char> {
    Seq::new(308, |i: int| if i % 11 == 10 { '\n' } else { glyph_of(at(cells, i % 11, i / 11)) })
}

fn append_glyph(text: &mut String, slot: Option<Cell>)
    ensures
        final(text)@ == old(text)@.push(glyph_of(slot)),
{
    let glyph: &str = match slot {
        None => ".",
        Some(Cell::Visible { .. }) => "X",
        Some(Cell::Structure) => "S",
        Some(Cell::Happy) => "H",
        Some(Cell::Frown) => "F",
        Some(Cell::Gimp { .. }) => "G",
        Some(Cell::Die { pip }) => {
            let n = pip.get();
            if n == 1 {
                "1"
            } else if n == 2 {
                "2"
            } else if n == 3 {
                "3"
            } else if n == 4 {
                "4"
            } else if n == 5 {
                "5"
            } else {
                "6"
            }
        },
        Some(Cell::Invisible) => "I",
        Some(Cell::Hidden { .. }) => "T",
    };
    proof {
        reveal_strlit(".");
        reveal_strlit("X");
        reveal_strlit("S");
        reveal_strlit("H");
        reveal_strlit("F");
        reveal_strlit("G");
        reveal_strlit("1");
        reveal_strlit("2");
        reveal_strlit("3");
        reveal_strlit("4");
        reveal_strlit("5");
        reveal_strlit("6");
        reveal_strlit("I");
        reveal_strlit("T");
    }
    assert(glyph@ =~= seq![glyph_of(slot)]);
    text.append(glyph);
}

/// Renders a board using the compact board fixture glyphs.
#[must_use]
pub fn board_to_text(board: &Board) -> (r: String)
    requires
        board.wf(),
    ensures
        r@ == board_text(board@),
{
    let mut text = String::new();
    let ghost want = board_text(board@);
    let mut y: usize = 0;
    while y < 28
        invariant
            y <= 28,
            board.wf(),
            want == board_text(board@),
            text@ == want.take(11 * y as int),
        decreases 28 - y,
    {
        let mut x: usize = 0;
        while x < 10
            invariant
                x <= 10,
                y < 28,
                board.wf(),
                want == board_text(board@),
                text@ == want.take(11 * y + x),
            decreases 10 - x,
        {
            let slot = board.get(Coord { x, y });
            append_glyph(&mut text, slot);
            proof {
                let i = 11 * y + x;
                assert((11 * y + x) % 11 == x as int) by (nonlinear_arith)
                    requires
                        0 <= x < 10,
                        0 <= y,
                ;
                assert((11 * y + x) / 11 == y as int) by (nonlinear_arith)
                    requires
                        0 <= x < 10,
                        0 <= y,
                ;
                assert(want[i] == glyph_of(at(board@, x as int, y as int)));
                assert(text@ =~= want.take(i + 1));
            }
            x = x + 1;
        }
        proof {
            reveal_strlit("\n");
        }
        text.append("\n");
        proof {
            let i = 11 * y + 10;
            assert((11 * y + 10) % 11 == 10) by (nonlinear_arith)
                requires
                    0 <= y,
            ;
            assert(want[i] == '\n');
            assert(text@ =~= want.take(i + 1));
        }
        y = y + 1;
    }
    assert(want.take(308) =~= want);
    text
}


/// Rendering a slot gives back the glyph it was parsed from.
pub proof fn lemma_glyph_round_trip(g: char, slot: Option<Cell>)
    requires
        glyph_slot(g, slot),
    ensures
        glyph_of(slot) == g,
{
    if '1' <= g <= '6' {
        let pip = slot->0->pip;
        assert(('0' as u32 + pip@ as u32) as char == g);
    }
}

/// Rendering a parsed board gives back the glyph rows of its fixture, row by row.
pub proof fn lemma_parsed_text(rows: Seq<Seq<char>>, b: Board)
    requires
        rows_parsed(rows, Ok(b)),
    ensures
        forall|x: int, y: int| in_board(x, y) ==> #[trigger] board_text(b@)[11 * y + x] == rows[y][x],
{
    assert forall|x: int, y: int| in_board(x, y) implies #[trigger] board_text(b@)[11 * y + x] == rows[y][x] by {
        assert((11 * y + x) % 11 == x) by (nonlinear_arith)
            requires
                0 <= x < 10,
                0 <= y,
        ;
        assert((11 * y + x) / 11 == y) by (nonlinear_arith)
            requires
                0 <= x < 10,
                0 <= y,
        ;
        lemma_glyph_round_trip(rows[y][x], at(b@, x, y));
    }
}

/// Row `y` of a board's fixture glyphs.
pub open spec fn glyph_row(cells: Seq<Option<Cell>>, y: int) -> Seq<char> {
    Seq::new(10, |x: int| glyph_of(at(cells, x, y)))
}

/// The fixture glyph rows of a board, top row first.
pub open spec fn glyph_rows(cells: Seq<Option<Cell>>) -> Seq<Seq<char>> {
    Seq::new(28, |y: int| glyph_row(cells, y))
}

/// What a slot reads back as from its glyph: a visible cell of color 1, a Gimp cell of value
/// 0, a removable hidden cell of value 0, and every other slot as it was.
pub open spec fn parsed_back(slot: Option<Cell>, back: Option<Cell>) -> bool {
    match slot {
        Some(Cell::Visible { .. }) => back matches Some(Cell::Visible { color }) && color@ == 1,
        Some(Cell::Gimp { .. }) => back == Some(Cell::Gimp { value: 0 }),
        Some(Cell::Hidden { .. }) => back == Some(Cell::Hidden { value: 0, removable: true }),
        _ => back == slot,
    }
}

proof fn lemma_index_of_first(s: Seq<char>, c: char, i: int, k: int)
    requires
        0 <= i <= k < s.len(),
        s[k] == c,
        forall|j: int| i <= j < k ==> s[j] != c,
    ensures
        index_of_from(s, c, i) == Some(k),
    decreases k - i,
{
    if i < k {
        lemma_index_of_first(s, c, i + 1, k);
    }
}

/// A glyph is never a line break or a carriage return.
proof fn lemma_glyph_not_break(slot: Option<Cell>)
    ensures
        glyph_of(slot) != '\n',
        glyph_of(slot) != '\r',
{
    if let Some(Cell::Die { pip }) = slot {
        assert(('0' as u32 + pip@ as u32) as char != '\n');
    }
}

/// The lines of a rendered board from row `k` on are its glyph rows from `k` on.
proof fn lemma_text_lines(cells: Seq<Option<Cell>>, k: int)
    requires
        0 <= k <= 28,
    ensures
        lines_of(board_text(cells).skip(11 * k)) == glyph_rows(cells).skip(k),
    decreases 28 - k,
{
    let t = board_text(cells).skip(11 * k);
    if k == 28 {
        assert(t.len() == 0);
        assert(glyph_rows(cells).skip(k) =~= Seq::<Seq<char>>::empty());
    } else {
        assert forall|j: int| 0 <= j <= 10 implies #[trigger] t[j] == if j == 10 { '\n' } else { glyph_of(at(cells, j, k)) } by {
            assert((11 * k + j) % 11 == j && (11 * k + j) / 11 == k) by (nonlinear_arith)
                requires 0 <= j <= 10, 0 <= k;
            assert(t[j] == board_text(cells)[11 * k + j]);
        }
        assert forall|j: int| 0 <= j < 10 implies t[j] != '\n' && t[j] != '\r' by {
            lemma_glyph_not_break(at(cells, j, k));
        }
        lemma_index_of_first(t, '\n', 0, 10);
        assert(t.take(10) =~= glyph_row(cells, k));
        assert(without_cr(t.take(10)) == t.take(10));
        assert(t.skip(11) =~= board_text(cells).skip(11 * (k + 1)));
        lemma_text_lines(cells, k + 1);
        assert(glyph_rows(cells).skip(k) =~= seq![glyph_row(cells, k)] + glyph_rows(cells).skip(k + 1));
    }
}

proof fn lemma_row_glyphs_known(cells: Seq<Option<Cell>>, y: int, x: int)
    requires
        0 <= x <= 10,
        forall|xx: int| 0 <= xx < 10 ==> crate::board::legacy_ranges(#[trigger] at(cells, xx, y)),
    ensures
        bad_glyph_from(glyph_row(cells, y), x) is None,
    decreases 10 - x,
{
    if x < 10 {
        assert(crate::board::legacy_ranges(at(cells, x, y)));
        if let Some(Cell::Die { pip }) = at(cells, x, y) {
            assert('1' <= ('0' as u32 + pip@ as u32) as char <= '6');
        }
        lemma_row_glyphs_known(cells, y, x + 1);
    }
}

proof fn lemma_rows_fault_none(cells: Seq<Option<Cell>>, y: int)
    requires
        0 <= y <= 28,
        forall|x: int, yy: int| in_board(x, yy) ==> crate::board::legacy_ranges(#[trigger] at(cells, x, yy)),
    ensures
        rows_fault(glyph_rows(cells), 10, y) is None,
    decreases 28 - y,
{
    if y < 28 {
        lemma_row_glyphs_known(cells, y, 0);
        lemma_rows_fault_none(cells, y + 1);
    }
}

/// Rendering a board and parsing its rows back: the lines of `board_to_text` are the
/// board's glyph rows, and parsing those rows gives a board whose every cell is the
/// rendered cell read back through its glyph (`parsed_back`).
pub proof fn lemma_rendered_rows_parse(cells: Seq<Option<Cell>>, r: Result<Board, FixtureError>)
    requires
        cells.len() == 280,
        forall|x: int, y: int| in_board(x, y) ==> crate::board::legacy_ranges(#[trigger] at(cells, x, y)),
        rows_parsed(lines_of(board_text(cells)), r),
    ensures
        lines_of(board_text(cells)) == glyph_rows(cells),
        r matches Ok(b) && b.wf() && forall|x: int, y: int| in_board(x, y) ==> parsed_back(at(cells, x, y), #[trigger] at(b@, x, y)),
{
    lemma_text_lines(cells, 0);
    assert(board_text(cells).skip(0) =~= board_text(cells));
    assert(glyph_rows(cells).skip(0) =~= glyph_rows(cells));
    lemma_rows_fault_none(cells, 0);
    let b = r->Ok_0;
    assert forall|x: int, y: int| in_board(x, y) implies parsed_back(at(cells, x, y), #[trigger] at(b@, x, y)) by {
        let rows = glyph_rows(cells);
        assert(rows[y][x] == glyph_of(at(cells, x, y)));
        assert(glyph_slot(rows[y][x], at(b@, x, y)));
        if let Some(Cell::Die { pip }) = at(cells, x, y) {
            assert(crate::board::legacy_ranges(at(cells, x, y)));
            let q = at(b@, x, y)->0->pip;
            Pip::lemma_view_injective(pip, q);
        }
    }
}

/// A glyph row of a board in legacy ranges neither starts with `@` nor is blank.
proof fn lemma_glyph_rows_section(cells: Seq<Option<Cell>>, k: int)
    requires
        0 <= k <= 28,
        forall|x: int, y: int| in_board(x, y) ==> crate::board::legacy_ranges(#[trigger] at(cells, x, y)),
    ensures
        section_rows(glyph_rows(cells).skip(k)) == glyph_rows(cells).skip(k),
    decreases 28 - k,
{
    let rows = glyph_rows(cells).skip(k);
    if k < 28 {
        let row = glyph_row(cells, k);
        assert(rows[0] == row);
        assert(crate::board::legacy_ranges(at(cells, 0, k)));
        assert(crate::board::legacy_ranges(at(cells, 9, k)));
        if let Some(Cell::Die { pip }) = at(cells, 0, k) {
            assert('1' <= ('0' as u32 + pip@ as u32) as char <= '6');
        }
        if let Some(Cell::Die { pip }) = at(cells, 9, k) {
            assert('1' <= ('0' as u32 + pip@ as u32) as char <= '6');
        }
        assert(!crate::text::is_space(row[0]));
        assert(crate::text::strip_leading(row, |c: char| crate::text::is_space(c)) == row);
        assert(!crate::text::is_space(row.last()));
        assert(crate::text::strip_trailing(row, |c: char| crate::text::is_space(c)) == row);
        assert(trimmed(row) == row);
        assert(row[0] != '@');
        assert(rows.drop_first() =~= glyph_rows(cells).skip(k + 1));
        lemma_glyph_rows_section(cells, k + 1);
        assert(rows =~= seq![row] + glyph_rows(cells).skip(k + 1));
    } else {
        assert(rows.len() == 0);
    }
}

/// The `@board` section of a rendered board's body: its rows are the board's glyph rows.
pub proof fn lemma_rendered_section(cells: Seq<Option<Cell>>)
    requires
        cells.len() == 280,
        forall|x: int, y: int| in_board(x, y) ==> crate::board::legacy_ranges(#[trigger] at(cells, x, y)),
    ensures
        section("@board\n"@ + board_text(cells), "@board"@) == Some(glyph_rows(cells)),
{
    reveal_strlit("@board\n");
    reveal_strlit("@board");
    let body = "@board\n"@ + board_text(cells);
    lemma_index_of_first(body, '\n', 0, 6);
    assert(body.take(6) =~= "@board"@);
    assert(without_cr(body.take(6)) == "@board"@);
    assert(body.skip(7) =~= board_text(cells));
    lemma_text_lines(cells, 0);
    assert(board_text(cells).skip(0) =~= board_text(cells));
    assert(glyph_rows(cells).skip(0) =~= glyph_rows(cells));
    let lines = lines_of(body);
    assert(lines == seq!["@board"@] + glyph_rows(cells));
    let head = "@board"@;
    assert(!crate::text::is_space(head[0]));
    assert(crate::text::strip_leading(head, |c: char| crate::text::is_space(c)) == head);
    assert(!crate::text::is_space(head.last()));
    assert(crate::text::strip_trailing(head, |c: char| crate::text::is_space(c)) == head);
    assert(trimmed(lines[0]) == "@board"@);
    assert(header_index(lines, "@board"@, 0) == Some(0int));
    assert(lines.skip(1) =~= glyph_rows(cells));
    lemma_glyph_rows_section(cells, 0);
}

proof fn lemma_find_at(s: Seq<char>, pat: Seq<char>, i: int, k: int)
    requires
        pat.len() >= 2,
        0 <= i <= k,
        k + pat.len() <= s.len(),
        s.subrange(k, k + pat.len()) == pat,
        forall|j: int| i <= j < k ==> #[trigger] s[j] != pat[0] || s[j + 1] != pat[1],
    ensures
        find_from(s, pat, i) == Some(k),
    decreases k - i,
{
    if i < k {
        assert(s.subrange(i, i + pat.len())[0] == s[i]);
        assert(s.subrange(i, i + pat.len())[1] == s[i + 1]);
        lemma_find_at(s, pat, i + 1, k);
    }
}

proof fn lemma_find_none(s: Seq<char>, pat: Seq<char>, i: int)
    requires
        pat.len() > 0,
        0 <= i,
        forall|j: int| 0 <= j < s.len() ==> #[trigger] s[j] != pat[0],
    ensures
        find_from(s, pat, i) is None,
    decreases s.len() - i,
{
    if i < s.len() && i + pat.len() <= s.len() {
        assert(s.subrange(i, i + pat.len())[0] == s[i]);
        lemma_find_none(s, pat, i + 1);
    }
}

/// No character of a rendered board is a carriage return.
proof fn lemma_text_no_cr(cells: Seq<Option<Cell>>, i: int)
    requires
        0 <= i < 308,
    ensures
        board_text(cells)[i] != '\r',
{
    lemma_glyph_not_break(at(cells, i % 11, i / 11));
}

/// The metadata of the board fixture header.
pub open spec fn header_meta() -> Seq<char> {
    "kind = \"board\"\nwidth = 10\nheight = 28"@
}

proof fn lemma_header_meta_lines()
    ensures
        lines_of(header_meta()) == seq!["kind = \"board\""@, "width = 10"@, "height = 28"@],
{
    reveal_strlit("kind = \"board\"\nwidth = 10\nheight = 28");
    reveal_strlit("kind = \"board\"");
    reveal_strlit("width = 10");
    reveal_strlit("height = 28");
    let m = header_meta();
    assert(m.len() == 37);
    assert forall|j: int| 0 <= j < 14 implies #[trigger] m[j] != '\n' by {}
    lemma_index_scan(m, '\n', 0, 14);
    assert(m.take(14) =~= "kind = \"board\""@);
    assert(without_cr(m.take(14)) == m.take(14));
    let m1 = m.skip(15);
    assert(m1.len() == 22);
    assert forall|j: int| 0 <= j < 10 implies #[trigger] m1[j] != '\n' by {
        assert(m1[j] == m[j + 15]);
    }
    assert(m1[10] == '\n');
    lemma_index_scan(m1, '\n', 0, 10);
    assert(m1.take(10) =~= "width = 10"@);
    assert(without_cr(m1.take(10)) == m1.take(10));
    let m2 = m1.skip(11);
    assert(m2 =~= "height = 28"@);
    assert forall|j: int| 0 <= j < 11 implies #[trigger] m2[j] != '\n' by {}
    lemma_index_scan(m2, '\n', 0, 11);
    assert(lines_of(m2) == seq![m2]);
    assert(lines_of(m1) =~= seq![m1.take(10)] + seq![m2]);
    assert(lines_of(m) =~= seq![m.take(14)] + lines_of(m1));
}

/// `key = value` on one line: the key before the first `=`, and the value after it
/// trimmed and unquoted.
proof fn lemma_key_value(line: Seq<char>, eq: int, key: Seq<char>, value: Seq<char>, quoted: bool)
    requires
        0 < eq < line.len() - 2,
        line[eq] == '=',
        forall|j: int| 0 <= j < eq ==> #[trigger] line[j] != '=',
        line.take(eq) == key + seq![' '],
        key.len() > 0,
        !crate::text::is_space(key[0]),
        !crate::text::is_space(key.last()),
        key[0] != '"',
        line.skip(eq + 1) == seq![' '] + (if quoted { seq!['"'] + value + seq!['"'] } else { value }),
        value.len() > 0,
        !crate::text::is_space(value[0]),
        !crate::text::is_space(value.last()),
        value[0] != '"',
        value.last() != '"',
    ensures
        index_of_from(line, '=', 0) == Some(eq),
        trimmed(line.take(eq)) == key,
        unquoted(trimmed(line.skip(eq + 1))) == value,
{
    lemma_index_scan(line, '=', 0, eq);
    let sp = |c: char| crate::text::is_space(c);
    let qt = |c: char| c == '"';
    let k1 = key + seq![' '];
    assert(crate::text::strip_leading(k1, sp) == k1);
    assert(k1.drop_last() =~= key);
    assert(crate::text::strip_trailing(key, sp) == key);
    assert(crate::text::strip_trailing(k1, sp) == key);
    let core = if quoted { seq!['"'] + value + seq!['"'] } else { value };
    let v1 = seq![' '] + core;
    assert(v1.drop_first() =~= core);
    assert(!sp(core[0]));
    assert(crate::text::strip_leading(core, sp) == core);
    assert(crate::text::strip_leading(v1, sp) == core);
    assert(!sp(core.last()));
    assert(crate::text::strip_trailing(core, sp) == core);
    if quoted {
        let c1 = value + seq!['"'];
        assert(core.drop_first() =~= c1);
        assert(crate::text::strip_leading(c1, qt) == c1);
        assert(crate::text::strip_leading(core, qt) == c1);
        assert(c1.drop_last() =~= value);
        assert(crate::text::strip_trailing(value, qt) == value);
        assert(crate::text::strip_trailing(c1, qt) == value);
    } else {
        assert(crate::text::strip_leading(value, qt) == value);
        assert(crate::text::strip_trailing(value, qt) == value);
    }
}

proof fn lemma_header_values()
    ensures
        meta_value(header_meta(), "kind"@) == Some("board"@),
        meta_value(header_meta(), "width"@) == Some("10"@),
        meta_value(header_meta(), "height"@) == Some("28"@),
        usize_value("10"@) == Some(10usize),
        usize_value("28"@) == Some(28usize),
{
    reveal_strlit("kind = \"board\"");
    reveal_strlit("width = 10");
    reveal_strlit("height = 28");
    reveal_strlit("kind");
    reveal_strlit("board");
    reveal_strlit("width");
    reveal_strlit("height");
    reveal_strlit("10");
    reveal_strlit("28");
    lemma_header_meta_lines();
    let l0 = "kind = \"board\""@;
    let l1 = "width = 10"@;
    let l2 = "height = 28"@;
    assert(l0.take(5) =~= "kind"@ + seq![' ']);
    assert(l0.skip(6) =~= seq![' '] + (seq!['"'] + "board"@ + seq!['"']));
    lemma_key_value(l0, 5, "kind"@, "board"@, true);
    assert(l1.take(6) =~= "width"@ + seq![' ']);
    assert(l1.skip(7) =~= seq![' '] + "10"@);
    lemma_key_value(l1, 6, "width"@, "10"@, false);
    assert(l2.take(7) =~= "height"@ + seq![' ']);
    assert(l2.skip(8) =~= seq![' '] + "28"@);
    lemma_key_value(l2, 7, "height"@, "28"@, false);
    let lines = seq![l0, l1, l2];
    assert(lines.drop_first() =~= seq![l1, l2]);
    assert(seq![l1, l2].drop_first() =~= seq![l2]);
    assert("kind"@ != "width"@ && "kind"@ != "height"@ && "width"@ != "height"@) by {
        assert("kind"@.len() != "width"@.len());
        assert("kind"@.len() != "height"@.len());
        assert("width"@.len() != "height"@.len());
    }
    assert(meta_value(header_meta(), "kind"@) == Some("board"@));
    assert(value_in_lines(seq![l1, l2], "width"@) == Some("10"@));
    assert(meta_value(header_meta(), "width"@) == Some("10"@));
    assert(value_in_lines(seq![l2], "height"@) == Some("28"@));
    assert(value_in_lines(seq![l1, l2], "height"@) == Some("28"@));
    assert(meta_value(header_meta(), "height"@) == Some("28"@));
    let ten = "10"@;
    assert(ten.drop_last() =~= seq!['1']);
    assert(digits_value(seq!['1']) == 1) by {
        assert(seq!['1'].drop_last() =~= Seq::<char>::empty());
        assert(digits_value(Seq::<char>::empty()) == 0);
        assert(seq!['1'].last() == '1');
        assert('1' as nat == 49 && '0' as nat == 48);
    }
    assert(digits_value(ten) == 10);
    assert(all_digits(ten));
    let twenty_eight = "28"@;
    assert(twenty_eight.drop_last() =~= seq!['2']);
    assert(digits_value(seq!['2']) == 2) by {
        assert(seq!['2'].drop_last() =~= Seq::<char>::empty());
        assert(digits_value(Seq::<char>::empty()) == 0);
        assert(seq!['2'].last() == '2');
        assert('2' as nat == 50 && '0' as nat == 48);
    }
    assert(digits_value(twenty_eight) == 28);
    assert(all_digits(twenty_eight));
}

/// Board fixture round trip: the text of a board fixture header followed by
/// `board_to_text` of a board parses back to that board, each cell read back through its
/// glyph as `parsed_back` says (colors and pips in their ranges, as every cell has them).
pub proof fn lemma_fixture_round_trip(cells: Seq<Option<Cell>>, r: Result<Board, FixtureError>)
    requires
        cells.len() == 280,
        forall|x: int, y: int| in_board(x, y) ==> crate::board::legacy_ranges(#[trigger] at(cells, x, y)),
        fixture_parsed("+++\nkind = \"board\"\nwidth = 10\nheight = 28\n+++\n@board\n"@ + board_text(cells), r),
    ensures
        r matches Ok(b) && b.wf() && forall|x: int, y: int| in_board(x, y) ==> parsed_back(at(cells, x, y), #[trigger] at(b@, x, y)),
{
    reveal_strlit("+++\nkind = \"board\"\nwidth = 10\nheight = 28\n+++\n@board\n");
    reveal_strlit("kind = \"board\"\nwidth = 10\nheight = 28");
    reveal_strlit("+++\r\n");
    reveal_strlit("+++\n");
    reveal_strlit("\r\n+++\r\n");
    reveal_strlit("\n+++\n");
    reveal_strlit("@board\n");
    let h = "+++\nkind = \"board\"\nwidth = 10\nheight = 28\n+++\n@board\n"@;
    let t = board_text(cells);
    let s = h + t;
    assert(h.len() == 53);
    assert(s.take(5)[3] == '\n');
    assert(s.take(5) != "+++\r\n"@);
    assert(s.take(4) =~= "+++\n"@);
    let c = s.skip(4);
    assert forall|j: int| 0 <= j < c.len() implies #[trigger] c[j] != "\r\n+++\r\n"@[0] by {
        if j < 49 {
            assert(c[j] == h[j + 4]);
        } else {
            assert(c[j] == t[j - 49]);
            lemma_text_no_cr(cells, j - 49);
        }
    }
    lemma_find_none(c, "\r\n+++\r\n"@, 0);
    assert(c.subrange(37, 42) =~= "\n+++\n"@);
    assert forall|j: int| 0 <= j < 37 implies #[trigger] c[j] != "\n+++\n"@[0] || c[j + 1] != "\n+++\n"@[1] by {
        assert(c[j] == h[j + 4]);
        assert(c[j + 1] == h[j + 5]);
    }
    lemma_find_at(c, "\n+++\n"@, 0, 37);
    assert(c.take(37) =~= header_meta());
    assert(c.skip(42) =~= "@board\n"@ + t);
    assert(front_matter(s) == Some((header_meta(), "@board\n"@ + t)));
    lemma_header_values();
    lemma_rendered_section(cells);
    lemma_text_lines(cells, 0);
    assert(t.skip(0) =~= t);
    assert(glyph_rows(cells).skip(0) =~= glyph_rows(cells));
    assert(rows_parsed(lines_of(t), r));
    lemma_rendered_rows_parse(cells, r);
}

/// The fixture text of a board with CR LF line endings: each row's ten glyphs, then `\r\n`.
pub open spec fn board_text_crlf(cells: Seq<Option<Cell>>) -> Seq<char> {
    Seq::new(336, |i: int| if i % 12 == 11 { '\n' } else if i % 12 == 10 { '\r' } else { glyph_of(at(cells, i % 12, i / 12)) })
}

proof fn lemma_text_lines_crlf(cells: Seq<Option<Cell>>, k: int)
    requires
        0 <= k <= 28,
    ensures
        lines_of(board_text_crlf(cells).skip(12 * k)) == glyph_rows(cells).skip(k),
    decreases 28 - k,
{
    let t = board_text_crlf(cells).skip(12 * k);
    if k == 28 {
        assert(t.len() == 0);
        assert(glyph_rows(cells).skip(k) =~= Seq::<Seq<char>>::empty());
    } else {
        assert forall|j: int| 0 <= j <= 11 implies #[trigger] t[j] == if j == 11 { '\n' } else if j == 10 { '\r' } else {
            glyph_of(at(cells, j, k))
        } by {
            assert((12 * k + j) % 12 == j && (12 * k + j) / 12 == k) by (nonlinear_arith)
                requires 0 <= j <= 11, 0 <= k;
            assert(t[j] == board_text_crlf(cells)[12 * k + j]);
        }
        assert forall|j: int| 0 <= j < 11 implies t[j] != '\n' by {
            if j < 10 {
                lemma_glyph_not_break(at(cells, j, k));
            }
        }
        lemma_index_of_first(t, '\n', 0, 11);
        assert(t.take(11).drop_last() =~= glyph_row(cells, k));
        assert(without_cr(t.take(11)) == glyph_row(cells, k));
        assert(t.skip(12) =~= board_text_crlf(cells).skip(12 * (k + 1)));
        lemma_text_lines_crlf(cells, k + 1);
        assert(glyph_rows(cells).skip(k) =~= seq![glyph_row(cells, k)] + glyph_rows(cells).skip(k + 1));
    }
}

proof fn lemma_find_at3(s: Seq<char>, pat: Seq<char>, i: int, k: int)
    requires
        pat.len() >= 3,
        0 <= i <= k,
        k + pat.len() <= s.len(),
        s.subrange(k, k + pat.len()) == pat,
        forall|j: int| i <= j < k ==> #[trigger] s[j] != pat[0] || s[j + 1] != pat[1] || s[j + 2] != pat[2],
    ensures
        find_from(s, pat, i) == Some(k),
    decreases k - i,
{
    if i < k {
        assert(s.subrange(i, i + pat.len())[0] == s[i]);
        assert(s.subrange(i, i + pat.len())[1] == s[i + 1]);
        assert(s.subrange(i, i + pat.len())[2] == s[i + 2]);
        lemma_find_at3(s, pat, i + 1, k);
    }
}

proof fn lemma_header_meta_lines_crlf()
    ensures
        lines_of("kind = \"board\"\r\nwidth = 10\r\nheight = 28"@) == seq!["kind = \"board\""@, "width = 10"@, "height = 28"@],
{
    reveal_strlit("kind = \"board\"\r\nwidth = 10\r\nheight = 28");
    reveal_strlit("kind = \"board\"");
    reveal_strlit("width = 10");
    reveal_strlit("height = 28");
    let m = "kind = \"board\"\r\nwidth = 10\r\nheight = 28"@;
    assert(m.len() == 39);
    assert forall|j: int| 0 <= j < 15 implies #[trigger] m[j] != '\n' by {}
    lemma_index_scan(m, '\n', 0, 15);
    assert(m.take(15).drop_last() =~= "kind = \"board\""@);
    assert(without_cr(m.take(15)) == "kind = \"board\""@);
    let m1 = m.skip(16);
    assert(m1.len() == 23);
    assert forall|j: int| 0 <= j < 11 implies #[trigger] m1[j] != '\n' by {
        assert(m1[j] == m[j + 16]);
    }
    assert(m1[11] == '\n');
    lemma_index_scan(m1, '\n', 0, 11);
    assert(m1.take(11).drop_last() =~= "width = 10"@);
    assert(without_cr(m1.take(11)) == "width = 10"@);
    let m2 = m1.skip(12);
    assert(m2 =~= "height = 28"@);
    assert forall|j: int| 0 <= j < 11 implies #[trigger] m2[j] != '\n' by {}
    lemma_index_scan(m2, '\n', 0, 11);
    assert(lines_of(m2) == seq![m2]);
    assert(lines_of(m1) =~= seq!["width = 10"@] + seq![m2]);
    assert(lines_of(m) =~= seq!["kind = \"board\""@] + lines_of(m1));
}

/// The board fixture round trip with CR LF line endings throughout: the header and the
/// rendered rows, every line ended by `\r\n`, parse back as with plain line feeds.
pub proof fn lemma_fixture_round_trip_crlf(cells: Seq<Option<Cell>>, r: Result<Board, FixtureError>)
    requires
        cells.len() == 280,
        forall|x: int, y: int| in_board(x, y) ==> crate::board::legacy_ranges(#[trigger] at(cells, x, y)),
        fixture_parsed(
            "+++\r\nkind = \"board\"\r\nwidth = 10\r\nheight = 28\r\n+++\r\n@board\r\n"@ + board_text_crlf(cells),
            r,
        ),
    ensures
        r matches Ok(b) && b.wf() && forall|x: int, y: int| in_board(x, y) ==> parsed_back(at(cells, x, y), #[trigger] at(b@, x, y)),
{
    reveal_strlit("+++\r\nkind = \"board\"\r\nwidth = 10\r\nheight = 28\r\n+++\r\n@board\r\n");
    reveal_strlit("kind = \"board\"\r\nwidth = 10\r\nheight = 28");
    reveal_strlit("+++\r\n");
    reveal_strlit("\r\n+++\r\n");
    reveal_strlit("@board");
    let h = "+++\r\nkind = \"board\"\r\nwidth = 10\r\nheight = 28\r\n+++\r\n@board\r\n"@;
    let t = board_text_crlf(cells);
    let s = h + t;
    assert(h.len() == 59);
    assert(s.take(5) =~= "+++\r\n"@);
    let c = s.skip(5);
    assert(c.subrange(39, 46) =~= "\r\n+++\r\n"@);
    assert forall|j: int| 0 <= j < 39 implies #[trigger] c[j] != "\r\n+++\r\n"@[0] || c[j + 1] != "\r\n+++\r\n"@[1] || c[j + 2]
        != "\r\n+++\r\n"@[2] by {
        assert(c[j] == h[j + 5]);
        assert(c[j + 1] == h[j + 6]);
        assert(c[j + 2] == h[j + 7]);
    }
    lemma_find_at3(c, "\r\n+++\r\n"@, 0, 39);
    let meta = c.take(39);
    assert(meta =~= "kind = \"board\"\r\nwidth = 10\r\nheight = 28"@);
    let body = c.skip(46);
    assert(body =~= "@board\r\n"@ + t) by {
        reveal_strlit("@board\r\n");
    }
    lemma_header_meta_lines_crlf();
    lemma_header_meta_lines();
    lemma_header_values();
    assert(meta_value(meta, "kind"@) == meta_value(header_meta(), "kind"@));
    assert(meta_value(meta, "width"@) == meta_value(header_meta(), "width"@));
    assert(meta_value(meta, "height"@) == meta_value(header_meta(), "height"@));
    reveal_strlit("@board\r\n");
    lemma_index_of_first(body, '\n', 0, 7);
    assert(body.take(7).drop_last() =~= "@board"@);
    assert(without_cr(body.take(7)) == "@board"@);
    assert(body.skip(8) =~= t);
    lemma_text_lines_crlf(cells, 0);
    assert(t.skip(0) =~= t);
    assert(glyph_rows(cells).skip(0) =~= glyph_rows(cells));
    let lines = lines_of(body);
    assert(lines == seq!["@board"@] + glyph_rows(cells));
    let head = "@board"@;
    assert(!crate::text::is_space(head[0]));
    assert(crate::text::strip_leading(head, |c: char| crate::text::is_space(c)) == head);
    assert(!crate::text::is_space(head.last()));
    assert(crate::text::strip_trailing(head, |c: char| crate::text::is_space(c)) == head);
    assert(trimmed(lines[0]) == "@board"@);
    assert(header_index(lines, "@board"@, 0) == Some(0int));
    assert(lines.skip(1) =~= glyph_rows(cells));
    lemma_glyph_rows_section(cells, 0);
    assert(section(body, "@board"@) == Some(glyph_rows(cells)));
    lemma_text_lines(cells, 0);
    assert(board_text(cells).skip(0) =~= board_text(cells));
    assert(rows_parsed(lines_of(board_text(cells)), r));
    lemma_rendered_rows_parse(cells, r);
}

} // verus!
