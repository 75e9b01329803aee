use battletris::board::{Board, Coord};
use battletris::cell::Cell;
use battletris::piece::{piece_to_text, spawn_is_horizontally_centered, Piece, PieceKind};

fn orientation_count(kind: PieceKind) -> u8 {
    match kind {
        PieceKind::Box | PieceKind::Die | PieceKind::Happy | PieceKind::FourByFour => 1,
        PieceKind::Star => 2,
        PieceKind::WeirdLong => 6,
        _ => 4,
    }
}

/// The rotation-coverage manifest: one row per piece kind, `token|id|width|x,y|states`.
const ROTATION_COVERAGE: &str = "+++\nkind = \"piece-manifest\"\n+++\n@pieces\n\
BT_EL_PIECE|1|3|4,0|4\n\
BT_REL_PIECE|2|3|4,0|4\n\
BT_SL_RT_PIECE|3|3|4,0|4\n\
BT_SL_LF_PIECE|4|3|4,0|4\n\
BT_LONG_PIECE|5|4|3,0|4\n\
BT_PLUG_PIECE|6|3|4,0|4\n\
BT_BOX_PIECE|7|0|5,0|1\n\
BT_DIE_PIECE|8|0|5,0|1\n\
BT_HAP_PIECE|9|0|5,0|1\n\
BT_DOG_PIECE|10|3|4,0|4\n\
BT_RDOG_PIECE|11|3|4,0|4\n\
BT_CAP_PIECE|12|4|3,0|4\n\
BT_WALL_PIECE|13|4|3,0|4\n\
BT_TOWER_PIECE|14|3|4,0|4\n\
BT_STAR_PIECE|15|3|4,0|2\n\
BT_WLONG_PIECE|16|4|3,0|6\n\
BT_4x4_PIECE|17|0|5,0|1\n\
BT_LONG_DONG_PIECE|18|8|1,0|4\n";

#[test]
fn legacy_piece_ids_tokens_rotation_widths_and_spawn_anchors_match_sources() {
    let expected = [
        (PieceKind::El, 1, "BT_EL_PIECE", 3, (4, 0)),
        (PieceKind::ReverseEl, 2, "BT_REL_PIECE", 3, (4, 0)),
        (PieceKind::SlantRight, 3, "BT_SL_RT_PIECE", 3, (4, 0)),
        (PieceKind::SlantLeft, 4, "BT_SL_LF_PIECE", 3, (4, 0)),
        (PieceKind::Long, 5, "BT_LONG_PIECE", 4, (3, 0)),
        (PieceKind::Plug, 6, "BT_PLUG_PIECE", 3, (4, 0)),
        (PieceKind::Box, 7, "BT_BOX_PIECE", 0, (5, 0)),
        (PieceKind::Die, 8, "BT_DIE_PIECE", 0, (5, 0)),
        (PieceKind::Happy, 9, "BT_HAP_PIECE", 0, (5, 0)),
        (PieceKind::Dog, 10, "BT_DOG_PIECE", 3, (4, 0)),
        (PieceKind::ReverseDog, 11, "BT_RDOG_PIECE", 3, (4, 0)),
        (PieceKind::Cap, 12, "BT_CAP_PIECE", 4, (3, 0)),
        (PieceKind::Wall, 13, "BT_WALL_PIECE", 4, (3, 0)),
        (PieceKind::Tower, 14, "BT_TOWER_PIECE", 3, (4, 0)),
        (PieceKind::Star, 15, "BT_STAR_PIECE", 3, (4, 0)),
        (PieceKind::WeirdLong, 16, "BT_WLONG_PIECE", 4, (3, 0)),
        (PieceKind::FourByFour, 17, "BT_4x4_PIECE", 0, (5, 0)),
        (PieceKind::LongDong, 18, "BT_LONG_DONG_PIECE", 8, (1, 0)),
    ];

    assert_eq!(PieceKind::all().len(), expected.len());
    for (kind, id, token, rot, spawn) in expected {
        assert_eq!(kind.legacy_id(), id);
        assert_eq!(kind.token(), token);
        assert_eq!(kind.rotation_width(), rot);
        assert_eq!(kind.spawn_anchor(), spawn);
        assert!(spawn_is_horizontally_centered(kind));
    }
}

#[test]
fn visible_piece_color_ids_match_legacy_constructor_offsets() {
    let expected = [
        (PieceKind::El, 2),
        (PieceKind::ReverseEl, 3),
        (PieceKind::SlantRight, 4),
        (PieceKind::SlantLeft, 5),
        (PieceKind::Long, 6),
        (PieceKind::Plug, 7),
        (PieceKind::Box, 8),
        (PieceKind::Dog, 2),
        (PieceKind::ReverseDog, 3),
        (PieceKind::Cap, 4),
        (PieceKind::Wall, 5),
        (PieceKind::Tower, 6),
        (PieceKind::Star, 7),
        (PieceKind::WeirdLong, 8),
        (PieceKind::FourByFour, 8),
        (PieceKind::LongDong, 6),
    ];

    for (kind, id) in expected {
        for (_, cell) in Piece::spawn(kind).cells() {
            assert_eq!(cell.legacy_id(), id, "{kind:?}");
        }
    }
}

#[test]
fn fixture_manifest_covers_every_piece_rotation_state() {
    let manifest = ROTATION_COVERAGE;
    let rows = manifest
        .lines()
        .skip_while(|line| line.trim() != "@pieces")
        .skip(1)
        .filter(|line| !line.trim().is_empty())
        .collect::<Vec<_>>();

    assert_eq!(rows.len(), PieceKind::COUNT);
    for (row, kind) in rows.iter().zip(PieceKind::all()) {
        let fields = row.split('|').collect::<Vec<_>>();
        assert_eq!(fields.len(), 5, "{row}");
        assert_eq!(fields[0], kind.token());
        assert_eq!(fields[1].parse::<u8>().unwrap(), kind.legacy_id());
        assert_eq!(fields[2].parse::<u8>().unwrap(), kind.rotation_width());
        assert_eq!(fields[3], format!("{},{}", kind.spawn_anchor().0, kind.spawn_anchor().1));
        assert_eq!(fields[4].parse::<u8>().unwrap(), orientation_count(kind));
    }
}

#[test]
fn initial_shapes_match_legacy_fixtures() {
    let expected = [
        (PieceKind::El, ".X......\n.X......\n.XX.....\n........\n........\n........\n........\n........\n"),
        (PieceKind::ReverseEl, "..X.....\n..X.....\n.XX.....\n........\n........\n........\n........\n........\n"),
        (PieceKind::SlantRight, "........\n.XX.....\nXX......\n........\n........\n........\n........\n........\n"),
        (PieceKind::SlantLeft, "........\nXX......\n.XX.....\n........\n........\n........\n........\n........\n"),
        (PieceKind::Long, "........\nXXXX....\n........\n........\n........\n........\n........\n........\n"),
        (PieceKind::Plug, "........\n.X......\nXXX.....\n........\n........\n........\n........\n........\n"),
        (PieceKind::Box, "........\n.XX.....\n.XX.....\n........\n........\n........\n........\n........\n"),
        (PieceKind::Die, "........\n.X......\n........\n........\n........\n........\n........\n........\n"),
        (PieceKind::Happy, "........\n.X......\n........\n........\n........\n........\n........\n........\n"),
        (PieceKind::Dog, "X.......\n.XX.....\n..X.....\n........\n........\n........\n........\n........\n"),
        (PieceKind::ReverseDog, "........\nXX......\nX.X.....\n........\n........\n........\n........\n........\n"),
        (PieceKind::Cap, "........\n.XX.....\nX..X....\n........\n........\n........\n........\n........\n"),
        (PieceKind::Wall, "........\nX..X....\nX..X....\n........\n........\n........\n........\n........\n"),
        (PieceKind::Tower, "..X.....\nXX......\n..X.....\n........\n........\n........\n........\n........\n"),
        (PieceKind::Star, ".X......\nX.X.....\n.X......\n........\n........\n........\n........\n........\n"),
        (PieceKind::WeirdLong, ".X......\n.X......\n..X.....\n..X.....\n........\n........\n........\n........\n"),
        (PieceKind::FourByFour, "XXXX....\nX..X....\nX..X....\nXXXX....\n........\n........\n........\n........\n"),
        (PieceKind::LongDong, "XXXXXXXX\n........\n........\n........\n........\n........\n........\n........\n"),
    ];

    for (kind, text) in expected {
        assert_eq!(piece_to_text(&Piece::spawn(kind)), text, "{kind:?}");
    }
}

#[test]
fn standard_rotation_and_reverse_rotation_use_legacy_square_mapping() {
    let board = Board::empty();
    let mut piece = Piece::spawn(PieceKind::El);

    assert!(piece.rotate(&board, false));
    assert_eq!(piece.orientation(), 1);
    assert_eq!(piece_to_text(&piece), "..X.....\nXXX.....\n........\n........\n........\n........\n........\n........\n");

    assert!(piece.rotate(&board, true));
    assert_eq!(piece.orientation(), 0);
    assert_eq!(piece_to_text(&piece), ".X......\n.X......\n.XX.....\n........\n........\n........\n........\n........\n");
}

#[test]
fn custom_rotation_cycles_match_legacy_state_machines() {
    let board = Board::empty();
    let cases = [
        (
            PieceKind::Wall,
            vec![
                "........\nX..X....\nX..X....\n........\n........\n........\n........\n........\n",
                "..X.....\n...X....\nX.......\n.X......\n........\n........\n........\n........\n",
                ".XX.....\n........\n........\n.XX.....\n........\n........\n........\n........\n",
                ".X......\nX.......\n...X....\n..X.....\n........\n........\n........\n........\n",
            ],
        ),
        (
            PieceKind::Star,
            vec![
                ".X......\nX.X.....\n.X......\n........\n........\n........\n........\n........\n",
                "X.X.....\n........\nX.X.....\n........\n........\n........\n........\n........\n",
            ],
        ),
        (
            PieceKind::WeirdLong,
            vec![
                ".X......\n.X......\n..X.....\n..X.....\n........\n........\n........\n........\n",
                "X.......\n.X......\n..X.....\n...X....\n........\n........\n........\n........\n",
                "........\nXX......\n..XX....\n........\n........\n........\n........\n........\n",
                "........\n..XX....\nXX......\n........\n........\n........\n........\n........\n",
                "...X....\n..X.....\n.X......\nX.......\n........\n........\n........\n........\n",
                "..X.....\n..X.....\n.X......\n.X......\n........\n........\n........\n........\n",
            ],
        ),
    ];

    for (kind, states) in cases {
        let mut piece = Piece::spawn(kind);
        for expected in &states {
            assert_eq!(piece_to_text(&piece), *expected, "{kind:?}");
            assert!(piece.rotate(&board, false));
        }
        assert_eq!(piece.orientation(), 0);
        assert_eq!(piece_to_text(&piece), states[0]);
    }
}

#[test]
fn star_rotation_ignores_reverse_argument() {
    let board = Board::empty();
    let mut piece = Piece::spawn(PieceKind::Star);

    assert!(piece.rotate(&board, true));

    assert_eq!(piece.orientation(), 1);
    assert_eq!(piece_to_text(&piece), "X.X.....\n........\nX.X.....\n........\n........\n........\n........\n........\n");
}

#[test]
fn non_rotating_pieces_reject_rotation() {
    let board = Board::empty();
    for kind in [PieceKind::Box, PieceKind::Die, PieceKind::Happy, PieceKind::FourByFour] {
        let mut piece = Piece::spawn(kind);
        assert!(!piece.can_rotate(&board, false));
        assert!(!piece.rotate(&board, false));
        assert_eq!(piece.orientation(), 0);
    }
}

#[test]
fn no_wall_kick_rotation_aborts_unchanged_on_collision() {
    let mut board = Board::empty();
    board.set(Coord::new(3, 1).unwrap(), Some(Cell::visible()));
    let mut piece = Piece::new(PieceKind::El, 2, 0);
    let before = piece.clone();

    assert!(!piece.rotate(&board, false));

    assert_eq!(piece, before);
}

#[test]
fn movement_and_rotation_collide_only_on_mapped_cells() {
    let board = Board::empty();
    let long = Piece::new(PieceKind::Long, 0, 0);

    assert!(long.can_move_to(&board, 0, -1));
    assert!(!long.can_move_to(&board, 0, -2));

    let mut long_dong = Piece::spawn(PieceKind::LongDong);
    assert!(long_dong.rotate(&board, false));
    assert_eq!(long_dong.board_coords(), vec![(1, 0), (1, 1), (1, 2), (1, 3), (1, 4), (1, 5), (1, 6), (1, 7)]);
}

#[test]
fn rotating_forward_then_back_restores_every_rotating_piece() {
    let board = Board::empty();
    for kind in PieceKind::all() {
        if kind.rotation_width() == 0 {
            continue;
        }
        for reverse in [false, true] {
            let mut piece = Piece::new(kind, 1, 5);
            let before = piece.clone();
            assert!(piece.rotate(&board, reverse));
            assert!(piece.rotate(&board, !reverse));
            assert_eq!(piece, before, "{kind:?}");
        }
    }
}

#[test]
fn rotating_through_every_state_returns_to_the_start() {
    let board = Board::empty();
    for kind in PieceKind::all() {
        if kind.rotation_width() == 0 {
            continue;
        }
        let mut piece = Piece::new(kind, 1, 2);
        let before = piece.clone();
        for _ in 0..orientation_count(kind) {
            assert!(piece.rotate(&board, false));
        }
        assert_eq!(piece, before, "{kind:?}");
    }
}
