use battletris::board::{Coord, BOARD_HEIGHT, BOARD_WIDTH};
use battletris::cell::{Cell, Pip};
use battletris::fixtures::{board_to_text, parse_board_fixture, FixtureError, TextFixture};

fn board_fixture_text(width: usize) -> String {
    let mut text = format!("+++\nkind = \"board\"\nwidth = {width}\nheight = 28\n+++\n@board\n");
    text.push_str("XS123456HF\n");
    text.push_str("GIT.......\n");
    for _ in 2..BOARD_HEIGHT {
        text.push_str("..........\n");
    }
    text
}

fn mixed_cells() -> String {
    board_fixture_text(10)
}

fn invalid_dimensions() -> String {
    board_fixture_text(9)
}

#[test]
fn fixture_wrapper_preserves_name_and_contents() {
    let fixture = TextFixture::new("empty-board", "..........\n");

    assert_eq!(fixture.name, "empty-board");
    assert_eq!(fixture.contents, "..........\n");
}

#[test]
fn board_fixture_parses_legacy_sized_board() {
    let contents = mixed_cells();
    let fixture = TextFixture::new("mixed-cells", &contents);

    let board = parse_board_fixture(fixture).expect("fixture should parse");

    assert_eq!(board.width(), BOARD_WIDTH);
    assert_eq!(board.height(), BOARD_HEIGHT);
    assert_eq!(board.get(Coord::new(0, 0).unwrap()), Some(Cell::visible()));
    assert_eq!(board.get(Coord::new(1, 0).unwrap()), Some(Cell::Structure));
    assert_eq!(board.get(Coord::new(2, 0).unwrap()), Some(Cell::die(Pip::new(1).unwrap())));
    assert_eq!(board.get(Coord::new(7, 0).unwrap()), Some(Cell::die(Pip::new(6).unwrap())));
    assert_eq!(board.get(Coord::new(8, 0).unwrap()), Some(Cell::Happy));
    assert_eq!(board.get(Coord::new(9, 0).unwrap()), Some(Cell::Frown));
    assert_eq!(board.get(Coord::new(0, 1).unwrap()), Some(Cell::Gimp { value: 0 }));
    assert_eq!(board.get(Coord::new(1, 1).unwrap()), Some(Cell::Invisible));
    assert_eq!(board.get(Coord::new(2, 1).unwrap()), Some(Cell::Hidden { value: 0, removable: true }));
}

#[test]
fn board_fixture_text_round_trips_glyphs() {
    let contents = mixed_cells();
    let fixture = TextFixture::new("mixed-cells", &contents);
    let board = parse_board_fixture(fixture).expect("fixture should parse");
    let text = board_to_text(&board);
    let mut rows = text.lines();

    assert_eq!(rows.next(), Some("XS123456HF"));
    assert_eq!(rows.next(), Some("GIT......."));
    assert_eq!(text.lines().count(), BOARD_HEIGHT);
}

#[test]
fn board_fixture_accepts_crlf_line_endings() {
    let contents = mixed_cells().replace("\r\n", "\n").replace('\n', "\r\n");
    let fixture = TextFixture::new("mixed-cells-crlf", &contents);

    let board = parse_board_fixture(fixture).expect("CRLF fixture should parse");

    assert_eq!(board.width(), BOARD_WIDTH);
    assert_eq!(board.height(), BOARD_HEIGHT);
    assert_eq!(board.get(Coord::new(0, 0).unwrap()), Some(Cell::visible()));
}

#[test]
fn board_fixture_rejects_invalid_dimensions() {
    let contents = invalid_dimensions();
    let fixture = TextFixture::new("invalid-dimensions", &contents);

    let error = parse_board_fixture(fixture).expect_err("dimensions should be rejected");

    assert_eq!(error, FixtureError::InvalidMetadata { key: "dimensions", value: "9x28".to_owned() });
}

#[test]
fn board_fixture_errors_name_what_is_missing() {
    let no_front = TextFixture::new("no-front", "@board\n..........\n");
    assert_eq!(parse_board_fixture(no_front).expect_err("no front matter"), FixtureError::MissingFrontMatter);

    let no_height = TextFixture::new("no-height", "+++\nkind = \"board\"\nwidth = 10\n+++\n@board\n");
    assert_eq!(parse_board_fixture(no_height).expect_err("no height"), FixtureError::MissingMetadata("height"));

    let no_section = TextFixture::new("no-section", "+++\nkind = \"board\"\nwidth = 10\nheight = 28\n+++\n");
    assert_eq!(parse_board_fixture(no_section).expect_err("no board"), FixtureError::MissingSection("@board"));

    let bad_glyph = mixed_cells().replacen("XS123456HF", "XS12?456HF", 1);
    let fixture = TextFixture::new("bad-glyph", &bad_glyph);
    assert_eq!(
        parse_board_fixture(fixture).expect_err("unknown glyph"),
        FixtureError::UnknownBoardGlyph { glyph: '?', x: 4, y: 0 }
    );
}

#[test]
fn board_text_parses_back_to_the_same_board() {
    let contents = mixed_cells();
    let board = parse_board_fixture(TextFixture::new("mixed-cells", &contents)).expect("fixture should parse");
    let text = format!("+++\nkind = \"board\"\nwidth = 10\nheight = 28\n+++\n@board\n{}", board_to_text(&board));
    let again = parse_board_fixture(TextFixture::new("again", &text)).expect("rendered board should parse");
    assert_eq!(again, board);
}
