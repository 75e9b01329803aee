use battletris::ai::computer_difficulty;
use battletris::board::{Board, Coord, BOARD_HEIGHT, BOARD_WIDTH};
use battletris::cell::{Cell, Pip};
use battletris::game::{
    BattleEvent, Command, CoreEvent, GameMode, GamePhase, PieceLoop, PlayerId, TwoPlayerGame, DEFAULT_DROP_MS,
    DEFAULT_SLIDE_MS,
};
use battletris::piece::PieceKind;
use battletris::rng::GameSeed;
use battletris::weapons::WeaponToken;

fn board_with_lock_then_blocked_spawn() -> Board {
    let mut board = Board::empty();
    for x in 0..BOARD_WIDTH {
        board.set(Coord::new(x, 3).unwrap(), Some(Cell::visible()));
    }
    board
}

fn occupied_coords(board: &Board) -> Vec<Coord> {
    (0..BOARD_HEIGHT)
        .flat_map(|y| (0..BOARD_WIDTH).map(move |x| Coord { x, y }))
        .filter(|coord| board.get(*coord).is_some())
        .collect()
}

fn row_occupied_count(board: &Board, y: usize) -> usize {
    (0..BOARD_WIDTH).filter(|x| board.get(Coord::new(*x, y).unwrap()).is_some()).count()
}

/// Queues one incoming weapon from player one onto player two's lock-then-blocked board and
/// lets player two place its piece, which applies the queue.
fn apply_incoming(token: WeaponToken, target_board: Board) -> (TwoPlayerGame, Vec<BattleEvent>) {
    let mut game = TwoPlayerGame::with_boards(GameSeed::from_u64(100), Board::empty(), GameSeed::from_u64(42), target_board);
    game.queue_incoming_weapon(PlayerId::One, PlayerId::Two, token);
    let mut events = game.tick_player(PlayerId::Two, DEFAULT_DROP_MS);
    events.extend(game.tick_player(PlayerId::Two, DEFAULT_SLIDE_MS));
    (game, events.into_iter().map(|logged| logged.event).collect())
}

#[test]
fn seeded_loop_spawns_stable_first_piece() {
    let (game, events) = PieceLoop::new(GameSeed::from_u64(42));

    assert_eq!(events, vec![CoreEvent::PieceSpawned { kind: PieceKind::Plug }]);
    assert_eq!(game.active_piece().unwrap().kind(), PieceKind::Plug);
}

#[test]
fn commands_move_and_rotate_active_piece() {
    let (mut game, _) = PieceLoop::new(GameSeed::from_u64(42));

    assert_eq!(game.command(Command::MoveLeft), vec![CoreEvent::PieceMoved { anchor: (3, 0) }]);
    assert_eq!(game.command(Command::RotateClockwise), vec![CoreEvent::PieceRotated { orientation: 1 }]);
    assert_eq!(game.active_piece().unwrap().orientation(), 1);
}

#[test]
fn default_drop_tick_moves_piece_down() {
    let (mut game, _) = PieceLoop::new(GameSeed::from_u64(42));

    assert!(game.tick(DEFAULT_DROP_MS - 1).is_empty());
    assert_eq!(game.tick(1), vec![CoreEvent::PieceMoved { anchor: (4, 1) }]);
}

#[test]
fn fast_drop_scores_once_per_start() {
    let (mut game, _) = PieceLoop::new(GameSeed::from_u64(42));

    assert_eq!(game.command(Command::StartFastDrop), vec![CoreEvent::FastDropStarted { score_delta: 28 }]);
    assert!(game.command(Command::StartFastDrop).is_empty());
    assert_eq!(game.score(), BOARD_HEIGHT as i32);
}

#[test]
fn failed_drop_starts_slide_then_locks_and_spawns() {
    let (mut game, _) = PieceLoop::with_board(GameSeed::from_u64(42), board_with_lock_then_blocked_spawn());

    assert_eq!(game.tick(DEFAULT_DROP_MS), vec![CoreEvent::PieceLanded]);
    assert_eq!(
        game.tick(DEFAULT_SLIDE_MS),
        vec![
            CoreEvent::PieceLocked { kind: PieceKind::Plug },
            CoreEvent::LinesCleared { lines: 1, funds: 0 },
            CoreEvent::SpawnFailed { kind: PieceKind::SlantLeft },
        ]
    );
}

#[test]
fn spawn_failure_emits_game_over_event() {
    let mut board = Board::empty();
    board.set(Coord::new(6, 1).unwrap(), Some(Cell::visible()));

    let (game, events) = PieceLoop::with_board(GameSeed::from_u64(1), board);

    assert_eq!(events, vec![CoreEvent::SpawnFailed { kind: PieceKind::Die }]);
    assert!(game.is_game_over());
}

#[test]
fn lock_applies_line_clear_funds_and_line_count_before_next_spawn() {
    let mut board = Board::empty();
    for x in 0..10 {
        let cell = if x == 0 { Cell::die(Pip::new(6).unwrap()) } else { Cell::visible() };
        board.set(Coord::new(x, 3).unwrap(), Some(cell));
    }
    let (mut game, _) = PieceLoop::with_board(GameSeed::from_u64(42), board);

    assert_eq!(game.tick(DEFAULT_DROP_MS), vec![CoreEvent::PieceLanded]);
    let events = game.tick(DEFAULT_SLIDE_MS);

    assert_eq!(game.lines(), 1);
    assert_eq!(game.funds(), 6);
    assert!(events.contains(&CoreEvent::LinesCleared { lines: 1, funds: 6 }));
    assert!(matches!(events.last(), Some(CoreEvent::SpawnFailed { .. })));
}

#[test]
fn two_player_start_logs_both_initial_spawns() {
    let game = TwoPlayerGame::new(GameSeed::from_u64(42), GameSeed::from_u64(7));

    assert_eq!(game.phase(), GamePhase::Playing);
    assert_eq!(game.event_log()[0].event, BattleEvent::GameStarted);
    assert_eq!(game.event_log()[0].sequence, 0);
    assert!(matches!(
        game.event_log()[1].event,
        BattleEvent::PlayerEvent { player: PlayerId::One, event: CoreEvent::PieceSpawned { .. } }
    ));
    assert!(matches!(
        game.event_log()[2].event,
        BattleEvent::PlayerEvent { player: PlayerId::Two, event: CoreEvent::PieceSpawned { .. } }
    ));
}

#[test]
fn human_vs_computer_games_are_unranked() {
    let difficulty = computer_difficulty(14).unwrap();
    let game = TwoPlayerGame::human_vs_computer(
        GameSeed::from_u64(1),
        Board::empty(),
        GameSeed::from_u64(2),
        Board::empty(),
        PlayerId::Two,
        difficulty,
    );

    assert_eq!(game.mode(), GameMode::HumanVsComputer { computer: PlayerId::Two, difficulty });
    assert!(!game.is_ranked_game());
    assert!(GameMode::HumanVsHuman.is_ranked());
}

#[test]
fn pause_stops_commands_and_ticks_until_resume() {
    let mut game = TwoPlayerGame::new(GameSeed::from_u64(42), GameSeed::from_u64(7));
    let before = game.event_log().len();

    assert_eq!(game.pause()[0].event, BattleEvent::Paused);
    assert_eq!(game.phase(), GamePhase::Paused);
    assert!(game.command(PlayerId::One, Command::MoveLeft).is_empty());
    assert!(game.tick_player(PlayerId::One, DEFAULT_DROP_MS).is_empty());
    assert_eq!(game.event_log().len(), before + 1);

    assert_eq!(game.resume()[0].event, BattleEvent::Resumed);
    assert_eq!(game.phase(), GamePhase::Playing);
    assert!(!game.command(PlayerId::One, Command::MoveLeft).is_empty());
}

#[test]
fn queued_incoming_weapons_flush_fifo_after_target_placement() {
    let mut game = TwoPlayerGame::with_boards(
        GameSeed::from_u64(100),
        Board::empty(),
        GameSeed::from_u64(42),
        board_with_lock_then_blocked_spawn(),
    );
    game.queue_incoming_weapon(PlayerId::One, PlayerId::Two, WeaponToken::RiseUp);
    game.queue_incoming_weapon(PlayerId::One, PlayerId::Two, WeaponToken::Speedy);

    game.tick_player(PlayerId::Two, DEFAULT_DROP_MS);
    let events = game.tick_player(PlayerId::Two, DEFAULT_SLIDE_MS);

    let applied = events
        .iter()
        .filter_map(|logged| match logged.event {
            BattleEvent::OneShotWeaponApplied { token, .. } | BattleEvent::TimedWeaponActivated { token, .. } => Some(token),
            _ => None,
        })
        .collect::<Vec<_>>();
    assert_eq!(applied, vec![WeaponToken::RiseUp, WeaponToken::Speedy]);
    assert!(game.player(PlayerId::Two).active_effects().is_active(WeaponToken::Speedy));
}

#[test]
fn queued_incoming_weapon_flushes_before_next_piece_spawn() {
    let mut game = TwoPlayerGame::new(GameSeed::from_u64(100), GameSeed::from_u64(42));
    game.queue_incoming_weapon(PlayerId::One, PlayerId::Two, WeaponToken::NiceDay);

    game.tick_player(PlayerId::Two, DEFAULT_DROP_MS * BOARD_HEIGHT as u64);
    let events = game.tick_player(PlayerId::Two, DEFAULT_SLIDE_MS);

    let applied_index = events
        .iter()
        .position(|logged| {
            logged.event
                == BattleEvent::OneShotWeaponApplied { launcher: PlayerId::One, target: PlayerId::Two, token: WeaponToken::NiceDay }
        })
        .expect("queued weapon should apply");
    let spawn_index = events
        .iter()
        .position(|logged| {
            logged.event
                == BattleEvent::PlayerEvent {
                    player: PlayerId::Two,
                    event: CoreEvent::PieceSpawned { kind: PieceKind::Happy },
                }
        })
        .expect("queued happy should become the next spawn");

    assert!(applied_index < spawn_index);
}

#[test]
fn event_log_sequences_count_up_from_zero() {
    let mut game = TwoPlayerGame::new(GameSeed::from_u64(3), GameSeed::from_u64(4));
    game.command(PlayerId::One, Command::MoveLeft);
    game.tick_player(PlayerId::Two, DEFAULT_DROP_MS);
    for (index, logged) in game.event_log().iter().enumerate() {
        assert_eq!(logged.sequence, index as u64);
    }
}

#[test]
fn incoming_rise_up_raises_a_garbage_line() {
    let (game, events) = apply_incoming(WeaponToken::RiseUp, board_with_lock_then_blocked_spawn());
    assert!(events.contains(&BattleEvent::OneShotWeaponApplied {
        launcher: PlayerId::One,
        target: PlayerId::Two,
        token: WeaponToken::RiseUp
    }));
    assert_eq!(row_occupied_count(game.player(PlayerId::Two).board(), BOARD_HEIGHT - 1), 9);
}

#[test]
fn incoming_flip_out_mirrors_the_board() {
    let mut board = board_with_lock_then_blocked_spawn();
    board.set(Coord::new(0, 10).unwrap(), Some(Cell::Structure));
    let (game, _) = apply_incoming(WeaponToken::FlipOut, board);
    let target = game.player(PlayerId::Two).board();
    assert_eq!(target.get(Coord::new(9, 10).unwrap()), Some(Cell::Structure));
    assert_eq!(target.get(Coord::new(0, 10).unwrap()), None);
}

#[test]
fn incoming_bug_report_adds_an_invisible_middle_cell() {
    let (game, _) = apply_incoming(WeaponToken::Bug, board_with_lock_then_blocked_spawn());
    let invisible = occupied_coords(game.player(PlayerId::Two).board())
        .into_iter()
        .filter(|coord| game.player(PlayerId::Two).board().get(*coord) == Some(Cell::Invisible))
        .collect::<Vec<_>>();
    assert_eq!(invisible.len(), 1);
    assert!((BOARD_HEIGHT / 4..BOARD_HEIGHT * 3 / 4).contains(&invisible[0].y));
}

#[test]
fn incoming_timed_weapons_activate_on_the_target() {
    for token in [WeaponToken::Speedy, WeaponToken::Meadow, WeaponToken::NoDice, WeaponToken::Broken] {
        let (game, events) = apply_incoming(token, board_with_lock_then_blocked_spawn());
        assert!(events.iter().any(|event| matches!(event, BattleEvent::TimedWeaponActivated { token: t, .. } if *t == token)));
        assert!(game.player(PlayerId::Two).active_effects().is_active(token), "{token:?}");
        assert!(!game.player(PlayerId::One).active_effects().is_active(token), "{token:?}");
    }
}
