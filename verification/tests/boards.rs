use battletris::board::{
    Board, BoardError, BoardSnapshot, Coord, LegacyBoardSnapshot, LineClearMode, BOARD_HEIGHT, BOARD_WIDTH,
};
use battletris::cell::{Cell, Pip};

#[test]
fn board_dimensions_match_legacy_constants() {
    let board = Board::empty();

    assert_eq!(BOARD_WIDTH, 10);
    assert_eq!(BOARD_HEIGHT, 28);
    assert_eq!(board.width(), 10);
    assert_eq!(board.height(), 28);
}

#[test]
fn coordinate_constructor_rejects_out_of_bounds() {
    assert_eq!(Coord::new(0, 0), Some(Coord { x: 0, y: 0 }));
    assert_eq!(Coord::new(9, 27), Some(Coord { x: 9, y: 27 }));
    assert_eq!(Coord::new(10, 0), None);
    assert_eq!(Coord::new(0, 28), None);
}

#[test]
fn occupancy_treats_out_of_bounds_as_occupied() {
    let mut board = Board::empty();
    board.set(Coord::new(3, 4).expect("in bounds"), Some(Cell::visible()));

    assert!(!board.is_occupied(0, 0));
    assert!(board.is_occupied(3, 4));
    assert!(board.is_occupied(-1, 0));
    assert!(board.is_occupied(0, -1));
    assert!(board.is_occupied(10, 0));
    assert!(board.is_occupied(0, 28));
}

#[test]
fn typed_snapshot_round_trips_all_cell_state() {
    let mut board = Board::empty();
    board.set(Coord::new(0, 0).unwrap(), Some(Cell::Invisible));
    board.set(Coord::new(1, 0).unwrap(), Some(Cell::Hidden { value: 5, removable: false }));
    board.set(Coord::new(2, 0).unwrap(), Some(Cell::Gimp { value: 6 }));

    let snapshot = board.snapshot();
    let restored = Board::from_snapshot(snapshot).expect("valid snapshot");

    assert_eq!(restored, board);
}

#[test]
fn legacy_snapshot_maps_ids_row_major() {
    let mut board = Board::empty();
    board.set(Coord::new(0, 0).unwrap(), Some(Cell::visible()));
    board.set(Coord::new(1, 0).unwrap(), Some(Cell::Structure));
    board.set(Coord::new(2, 0).unwrap(), Some(Cell::Happy));
    board.set(Coord::new(3, 0).unwrap(), Some(Cell::Frown));
    board.set(Coord::new(4, 0).unwrap(), Some(Cell::Gimp { value: 3 }));
    board.set(Coord::new(5, 0).unwrap(), Some(Cell::die(Pip::new(6).unwrap())));
    board.set(Coord::new(6, 0).unwrap(), Some(Cell::Invisible));
    board.set(Coord::new(7, 0).unwrap(), Some(Cell::Hidden { value: 0, removable: true }));

    let snapshot = board.legacy_snapshot(42, false);

    assert_eq!(snapshot.motivation, 42);
    assert_eq!(&snapshot.ids[0..10], &[1, 20, 21, 22, 23, 29, 0, -1, 0, 0]);
}

#[test]
fn legacy_upside_down_snapshot_reverses_rows_only() {
    let mut board = Board::empty();
    board.set(Coord::new(0, 0).unwrap(), Some(Cell::visible()));
    board.set(Coord::new(9, 27).unwrap(), Some(Cell::Structure));

    let normal = board.legacy_snapshot(0, false);
    let upside_down = board.legacy_snapshot(0, true);

    assert_eq!(normal.ids[0], 1);
    assert_eq!(normal.ids[BOARD_WIDTH * BOARD_HEIGHT - 1], 20);
    assert_eq!(upside_down.ids[9], 20);
    assert_eq!(upside_down.ids[BOARD_WIDTH * (BOARD_HEIGHT - 1)], 1);
}

#[test]
fn legacy_snapshot_round_trip_loses_invisible_and_hidden_cells() {
    let mut board = Board::empty();
    board.set(Coord::new(0, 0).unwrap(), Some(Cell::Invisible));
    board.set(Coord::new(1, 0).unwrap(), Some(Cell::Hidden { value: 150, removable: true }));
    board.set(Coord::new(2, 0).unwrap(), Some(Cell::die(Pip::new(3).unwrap())));

    let restored = Board::from_legacy_snapshot(board.legacy_snapshot(0, false)).expect("valid legacy snapshot");

    assert_eq!(restored.get(Coord::new(0, 0).unwrap()), None);
    assert_eq!(restored.get(Coord::new(1, 0).unwrap()), None);
    assert_eq!(restored.get(Coord::new(2, 0).unwrap()), Some(Cell::die(Pip::new(3).unwrap())));
}

#[test]
fn snapshots_validate_dimensions_and_cell_count() {
    assert!(BoardSnapshot::new(9, 28, vec![None; 9 * 28]).is_err());
    assert!(LegacyBoardSnapshot::new(0, 10, 27, vec![0; 10 * 27]).is_err());
    assert!(BoardSnapshot::new(10, 28, vec![None; 3]).is_err());
    assert!(LegacyBoardSnapshot::new(0, 10, 28, vec![0; 3]).is_err());
    assert!(Board::from_snapshot(BoardSnapshot { width: 10, height: 28, cells: vec![None; 3] }).is_err());
    assert!(Board::from_legacy_snapshot(LegacyBoardSnapshot { motivation: 0, width: 10, height: 28, ids: vec![0; 3] })
        .is_err());
}

#[test]
fn single_line_clear_drops_rows_and_awards_die_funds() {
    let mut board = Board::empty();
    board.set(Coord::new(0, 25).unwrap(), Some(Cell::visible()));
    for x in 0..BOARD_WIDTH {
        let cell = if x == 3 { Cell::die(Pip::new(4).unwrap()) } else { Cell::visible() };
        board.set(Coord::new(x, 27).unwrap(), Some(cell));
    }

    let outcome = board.clear_completed_lines(LineClearMode::Normal);

    assert_eq!(outcome.lines_cleared, 1);
    assert_eq!(outcome.funds, 4);
    assert_eq!(outcome.cleared_rows, vec![27]);
    assert_eq!(board.get(Coord::new(0, 26).unwrap()), Some(Cell::visible()));
    assert_eq!(board.get(Coord::new(0, 25).unwrap()), None);
}

#[test]
fn multi_line_funds_are_value_sum_times_lines_cleared() {
    for (lines, pips, expected_funds) in [(2, &[2, 4][..], 12), (3, &[1, 2, 3][..], 18), (4, &[1, 2, 3, 4][..], 40)] {
        let mut board = Board::empty();
        for (offset, pip) in pips.iter().enumerate() {
            let y = BOARD_HEIGHT - 1 - offset;
            for x in 0..BOARD_WIDTH {
                let cell = if x == 0 { Cell::die(Pip::new(*pip).unwrap()) } else { Cell::visible() };
                board.set(Coord::new(x, y).unwrap(), Some(cell));
            }
        }

        let outcome = board.clear_completed_lines(LineClearMode::Normal);

        assert_eq!(outcome.lines_cleared, lines);
        assert_eq!(outcome.funds, expected_funds);
    }
}

#[test]
fn happy_cells_pay_when_cleared_and_frown_when_missed() {
    let mut board = Board::empty();
    board.set(Coord::new(0, 26).unwrap(), Some(Cell::Happy));
    for x in 0..BOARD_WIDTH {
        let cell = if x == 5 { Cell::Happy } else { Cell::visible() };
        board.set(Coord::new(x, 27).unwrap(), Some(cell));
    }

    let outcome = board.clear_completed_lines(LineClearMode::Normal);

    assert_eq!(outcome.lines_cleared, 1);
    assert_eq!(outcome.funds, 150);
    assert_eq!(outcome.happy_missed, 1);
    assert_eq!(board.get(Coord::new(0, 27).unwrap()), Some(Cell::Frown));
}

#[test]
fn force_clear_erases_rows_without_dropping_or_rechecking() {
    let mut board = Board::empty();
    board.set(Coord::new(0, 25).unwrap(), Some(Cell::visible()));
    for y in [26, 27] {
        for x in 0..BOARD_WIDTH {
            board.set(Coord::new(x, y).unwrap(), Some(Cell::visible()));
        }
    }

    let outcome = board.clear_completed_lines(LineClearMode::Force);

    assert_eq!(outcome.lines_cleared, 2);
    assert_eq!(board.get(Coord::new(0, 25).unwrap()), Some(Cell::visible()));
    assert_eq!(board.get(Coord::new(0, 26).unwrap()), None);
    assert_eq!(board.get(Coord::new(0, 27).unwrap()), None);
}

#[test]
fn try_set_rejects_out_of_bounds_coordinates() {
    let mut board = Board::empty();
    assert!(board.try_set(10, 0, Some(Cell::visible())).is_err());
    assert!(board.try_set(0, 28, Some(Cell::visible())).is_err());
    assert!(board.try_set(9, 27, Some(Cell::visible())).is_ok());
    assert_eq!(board.get(Coord::new(9, 27).unwrap()), Some(Cell::visible()));
}

#[test]
fn snapshot_errors_name_the_failing_shape() {
    assert!(matches!(BoardSnapshot::new(9, 28, vec![None; 9 * 28]), Err(BoardError::InvalidDimensions { .. })));
    assert!(matches!(BoardSnapshot::new(10, 28, vec![None; 3]), Err(BoardError::InvalidCellCount { .. })));
}

#[test]
fn flips_twice_restore_the_board() {
    let mut board = Board::empty();
    board.set(Coord::new(1, 3).unwrap(), Some(Cell::visible()));
    board.set(Coord::new(8, 20).unwrap(), Some(Cell::Structure));
    let before = board.clone();
    board.flip_on_vertical_axis();
    assert_eq!(board.get(Coord::new(8, 3).unwrap()), Some(Cell::visible()));
    board.flip_on_vertical_axis();
    assert_eq!(board, before);
    board.flip_on_horizontal_axis();
    board.flip_on_horizontal_axis();
    assert_eq!(board, before);
}

fn two_full_bottom_rows() -> Board {
    let mut board = Board::empty();
    for y in [26usize, 27usize] {
        for x in 0..BOARD_WIDTH {
            board.set(Coord::new(x, y).unwrap(), Some(Cell::visible()));
        }
    }
    board
}

#[test]
fn normal_clear_reports_original_row_indexes() {
    let mut board = two_full_bottom_rows();
    let mut forced = two_full_bottom_rows();

    let outcome = board.clear_completed_lines(LineClearMode::Normal);
    assert_eq!(outcome.lines_cleared, 2);
    assert_eq!(outcome.cleared_rows, vec![27, 26]);

    let outcome = forced.clear_completed_lines(LineClearMode::Force);
    assert_eq!(outcome.cleared_rows, vec![27, 26]);
}

#[test]
fn normal_clear_reports_rows_separated_by_a_kept_row() {
    let mut board = Board::empty();
    for x in 0..BOARD_WIDTH {
        board.set(Coord::new(x, 27).unwrap(), Some(Cell::visible()));
        board.set(Coord::new(x, 25).unwrap(), Some(Cell::visible()));
    }
    board.set(Coord::new(0, 26).unwrap(), Some(Cell::visible()));

    let outcome = board.clear_completed_lines(LineClearMode::Normal);
    assert_eq!(outcome.cleared_rows, vec![27, 25]);
    assert_eq!(board.get(Coord::new(0, 27).unwrap()), Some(Cell::visible()));
}
