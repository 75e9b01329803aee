use battletris::ai::{
    choose_placement, commands_for_placement, computer_difficulties, computer_difficulty, evaluate_board,
    ComputerOpponent, ComputerPlacement, EvaluationWeights, BAZAAR_LEAVE_DELAY_MS,
};
use battletris::board::{Board, Coord};
use battletris::cell::Cell;
use battletris::game::Command;
use battletris::piece::{Piece, PieceKind};
use battletris::rng::GameSeed;
use battletris::weapons::{Arsenal, Bazaar, WeaponToken};

#[test]
fn difficulty_table_preserves_legacy_delays_and_names() {
    assert_eq!(computer_difficulties().len(), 15);
    assert_eq!(computer_difficulty(0).unwrap().name, "Comatose");
    assert_eq!(computer_difficulty(0).unwrap().delay_ms, 4000);
    assert_eq!(computer_difficulty(14).unwrap().name, "Bionic");
    assert_eq!(computer_difficulty(14).unwrap().delay_ms, 0);
    assert_eq!(BAZAAR_LEAVE_DELAY_MS, 3000);
}

#[test]
fn placement_choice_is_reproducible_for_fixed_board() {
    let mut board = Board::empty();
    for x in 0..10 {
        if !(3..=6).contains(&x) {
            board.set(Coord { x, y: 27 }, Some(Cell::visible()));
        }
    }
    let piece = Piece::new(PieceKind::Long, 3, 0);

    let first = choose_placement(&board, &piece, EvaluationWeights::default()).unwrap();
    let second = choose_placement(&board, &piece, EvaluationWeights::default()).unwrap();

    assert_eq!(first, second);
    assert_eq!(first.lines_cleared, 1);
}

#[test]
fn evaluation_penalizes_holes_and_rewards_line_clears() {
    let weights = EvaluationWeights::default();
    let mut clean = Board::empty();
    let mut holey = Board::empty();
    for x in 0..10 {
        clean.set(Coord { x, y: 27 }, Some(Cell::visible()));
        if x != 5 {
            holey.set(Coord { x, y: 27 }, Some(Cell::visible()));
        }
    }
    holey.set(Coord { x: 5, y: 26 }, Some(Cell::visible()));

    assert!(evaluate_board(&holey, PieceKind::Plug, 0, weights) > evaluate_board(&clean, PieceKind::Plug, 0, weights));
    assert!(evaluate_board(&clean, PieceKind::Plug, 1, weights) < evaluate_board(&clean, PieceKind::Plug, 0, weights));
    assert!(evaluate_board(&clean, PieceKind::Happy, 1, weights) < evaluate_board(&clean, PieceKind::Plug, 1, weights));
}

#[test]
fn commands_drive_toward_chosen_placement() {
    let piece = Piece::new(PieceKind::Plug, 4, 0);
    let placement = ComputerPlacement { x: 2, y: 25, orientation: 1, penalty: 0, lines_cleared: 0 };

    assert_eq!(
        commands_for_placement(&piece, &placement),
        vec![Command::RotateClockwise, Command::MoveLeft, Command::MoveLeft, Command::StartFastDrop]
    );
}

#[test]
fn shopping_and_launch_orders_are_deterministic() {
    let mut first = ComputerOpponent::new(GameSeed::from_u64(8), 5);
    let mut second = ComputerOpponent::new(GameSeed::from_u64(8), 5);
    let mut first_bazaar = Bazaar::new(Arsenal::new(), 1000, false);
    let mut second_bazaar = Bazaar::new(Arsenal::new(), 1000, false);
    let board = Board::empty();

    let first_bought = first.shop(&mut first_bazaar, 3, 50, &board);
    let second_bought = second.shop(&mut second_bazaar, 3, 50, &board);

    assert_eq!(first_bought, second_bought);
    assert!(!first_bought.is_empty());

    let mut susan_orders = ComputerOpponent::new(GameSeed::from_u64(8), 5);
    let mut arsenal = Arsenal::new();
    arsenal.buy_weapon(WeaponToken::Susan).unwrap();
    assert_eq!(susan_orders.launch_slots(&arsenal, 3, 49, 0), Vec::<u8>::new());
    assert!(!susan_orders.launch_slots(&arsenal, 3, 50, 0).is_empty());
}

#[test]
fn default_weights_score_an_empty_board_at_zero_height_penalty() {
    let weights = EvaluationWeights::default();
    let empty = Board::empty();
    let cleared = evaluate_board(&empty, PieceKind::Plug, 0, weights);
    assert_eq!(cleared, 0);
}

#[test]
fn difficulty_out_of_range_is_none() {
    assert!(computer_difficulty(15).is_none());
    let opponent = ComputerOpponent::new(GameSeed::from_u64(1), 3);
    assert_eq!(opponent.difficulty(), computer_difficulty(3).unwrap());
}

#[test]
fn placement_is_first_best_on_empty_board() {
    let board = Board::empty();
    let piece = Piece::spawn(PieceKind::Box);
    let placement = choose_placement(&board, &piece, EvaluationWeights::default()).unwrap();
    assert_eq!(placement.y, 25);
    assert_eq!(placement.lines_cleared, 0);
}
