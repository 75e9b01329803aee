use battletris::board::{Board, Coord};
use battletris::cell::{Cell, Pip};
use battletris::piece::PieceKind;
use battletris::piece_generator::PieceGenerator;
use battletris::recon::{report_cell, report_funds, sample_recon, ReconLevel};
use battletris::rng::{fnv1a64, GameSeed, RngStream};
use rand::RngCore;
use rand::SeedableRng;
use rand_chacha::ChaCha12Rng;

#[test]
fn named_rng_streams_are_stable_and_independent() {
    let seed = GameSeed::from_u64(7);
    let piece_a = seed.stream(RngStream::PieceSelection).next_u64();
    let piece_b = seed.stream(RngStream::PieceSelection).next_u64();
    let dice = seed.stream(RngStream::DicePips).next_u64();

    assert_eq!(piece_a, piece_b);
    assert_ne!(piece_a, dice);
}

#[test]
fn fnv_hash_matches_the_published_offset_basis() {
    assert_eq!(fnv1a64(b""), 0xcbf2_9ce4_8422_2325);
    assert_eq!(fnv1a64(b"a"), 0xaf63_dc4c_8601_ec8c);
}

#[test]
fn default_probabilities_match_legacy_keep_slots() {
    let generator = PieceGenerator::new(GameSeed::from_u64(1));
    let probabilities = generator.probabilities();

    for kind in [
        PieceKind::El,
        PieceKind::ReverseEl,
        PieceKind::SlantRight,
        PieceKind::SlantLeft,
        PieceKind::Long,
        PieceKind::Plug,
        PieceKind::Box,
    ] {
        assert_eq!(probabilities.weight(kind), 21);
    }
    assert_eq!(probabilities.weight(PieceKind::Die), 100);
    assert_eq!(probabilities.weight(PieceKind::Happy), 2);
    assert_eq!(probabilities.weight(PieceKind::LongDong), 2);
    assert_eq!(probabilities.weight(PieceKind::Dog), 0);
}

#[test]
fn seeded_piece_sequences_are_stable() {
    let mut generator = PieceGenerator::new(GameSeed::from_u64(42));

    let sequence = (0..12).map(|_| generator.next_piece().kind()).collect::<Vec<_>>();

    assert_eq!(
        sequence,
        vec![
            PieceKind::Plug,
            PieceKind::SlantLeft,
            PieceKind::Box,
            PieceKind::Die,
            PieceKind::El,
            PieceKind::Die,
            PieceKind::SlantLeft,
            PieceKind::Die,
            PieceKind::SlantRight,
            PieceKind::SlantLeft,
            PieceKind::Long,
            PieceKind::Box,
        ]
    );
}

#[test]
fn queued_happy_has_priority_over_broken_record() {
    let mut generator = PieceGenerator::new(GameSeed::from_u64(9));
    generator.set_broken_record_enabled(true);
    assert_ne!(generator.next_kind(), PieceKind::Happy);

    generator.queue_happy(2);

    assert_eq!(generator.next_kind(), PieceKind::Happy);
    assert_eq!(generator.next_kind(), PieceKind::Happy);
}

#[test]
fn repeated_die_pieces_reroll_pips() {
    let mut generator = PieceGenerator::new(GameSeed::from_u64(5));
    for kind in PieceKind::all() {
        generator.probabilities_mut().set_weight(kind, 0);
    }
    generator.probabilities_mut().set_weight(PieceKind::Die, 1);

    let pips = (0..6)
        .map(|_| match generator.next_piece().cells()[0].1 {
            Cell::Die { pip } => pip,
            cell => panic!("expected die cell, got {cell:?}"),
        })
        .collect::<Vec<_>>();

    assert_eq!(
        pips,
        vec![
            Pip::new(2).unwrap(),
            Pip::new(3).unwrap(),
            Pip::new(1).unwrap(),
            Pip::new(1).unwrap(),
            Pip::new(2).unwrap(),
            Pip::new(5).unwrap(),
        ]
    );
}

#[test]
fn probability_hooks_mutate_slots_directly() {
    let mut generator = PieceGenerator::new(GameSeed::from_u64(1));
    let probabilities = generator.probabilities_mut();

    probabilities.set_weird_pieces_enabled(true);
    probabilities.set_four_by_four_enabled(true);
    probabilities.set_long_pieces_enabled(false);
    probabilities.set_dice_enabled(false);

    assert_eq!(probabilities.weight(PieceKind::Dog), 21);
    assert_eq!(probabilities.weight(PieceKind::Box), 0);
    assert_eq!(probabilities.weight(PieceKind::FourByFour), 21);
    assert_eq!(probabilities.weight(PieceKind::Long), 0);
    assert_eq!(probabilities.weight(PieceKind::Die), 0);
}

#[test]
fn weighted_pick_walks_the_slots_in_kind_order() {
    let generator = PieceGenerator::new(GameSeed::from_u64(1));
    let probabilities = generator.probabilities();
    let total = u64::from(probabilities.total_weight());
    assert_eq!(total, 21 * 7 + 100 + 2 + 2);
    assert_eq!(probabilities.pick(0), PieceKind::El);
    assert_eq!(probabilities.pick(20), PieceKind::El);
    assert_eq!(probabilities.pick(21), PieceKind::ReverseEl);
    assert_eq!(probabilities.pick(total), PieceKind::El);
}

#[test]
fn copied_generators_produce_the_same_pieces() {
    let mut generator = PieceGenerator::new(GameSeed::from_u64(3));
    generator.next_kind();
    let mut copy = generator.copy();
    for _ in 0..10 {
        assert_eq!(generator.next_kind(), copy.next_kind());
    }
}

#[test]
fn condor_reports_exact_board_and_funds() {
    let mut board = Board::empty();
    board.set(Coord::new(3, 4).unwrap(), Some(Cell::visible()));
    let mut rng = ChaCha12Rng::seed_from_u64(1);

    let snapshot = sample_recon(ReconLevel::Condor, &board, 225, 0, &mut rng);

    assert_eq!(snapshot.funds, 225);
    assert_eq!(snapshot.board.cells, board.snapshot().cells);
}

#[test]
fn ames_and_ace_sample_occupied_cells_deterministically() {
    let mut board = Board::empty();
    for y in 0..10 {
        for x in 0..10 {
            board.set(Coord::new(x, y).unwrap(), Some(Cell::visible()));
        }
    }
    let mut ames_rng = ChaCha12Rng::seed_from_u64(7);
    let mut ace_rng = ChaCha12Rng::seed_from_u64(7);

    let ames = sample_recon(ReconLevel::Ames, &board, 100, 0, &mut ames_rng);
    let ace = sample_recon(ReconLevel::Ace, &board, 100, 0, &mut ace_rng);

    let ames_seen = ames.board.cells.iter().filter(|cell| cell.is_some()).count();
    let ace_seen = ace.board.cells.iter().filter(|cell| cell.is_some()).count();
    assert!(ames_seen < ace_seen);
    assert_eq!(ace.funds, 100);
}

#[test]
fn recon_cells_show_only_under_the_threshold() {
    assert_eq!(report_cell(Some(Cell::visible()), 50, 49), Some(Cell::visible()));
    assert_eq!(report_cell(Some(Cell::visible()), 50, 50), None);
    assert_eq!(report_cell(None, 100, 0), None);
    assert_eq!(report_funds(ReconLevel::Condor, 225, 0, 12345), 225);
}

fn row_of_ten(y: usize) -> Board {
    let mut board = Board::empty();
    for x in 0..10 {
        board.set(Coord::new(x, y).unwrap(), Some(Cell::visible()));
    }
    board
}

fn occupied(board: &Board) -> usize {
    let mut count = 0;
    for y in 0..28 {
        for x in 0..10 {
            if board.get(Coord::new(x, y).unwrap()).is_some() {
                count += 1;
            }
        }
    }
    count
}

#[test]
fn blind_cleric_on_a_fresh_weapon_stream_keeps_a_seeded_seven() {
    let mut board = row_of_ten(12);
    let mut rng = GameSeed::from_u64(200).stream(RngStream::WeaponEffects);
    let removed = board.remove_random_half_removable(&mut rng);
    assert_eq!(removed, 3);
    assert_eq!(occupied(&board), 7);
}

#[test]
fn blind_cleric_removes_exactly_the_cells_with_even_draws() {
    let mut board = row_of_ten(12);
    let mut rng = GameSeed::from_u64(9).stream(RngStream::WeaponEffects);
    let mut replay = GameSeed::from_u64(9).stream(RngStream::WeaponEffects);
    board.remove_random_half_removable(&mut rng);
    for x in 0..10 {
        let even = replay.next_u64() % 2 == 0;
        assert_eq!(board.get(Coord::new(x, 12).unwrap()).is_none(), even);
    }
    assert_eq!(rng.next_u64(), replay.next_u64());
}

#[test]
fn random_middle_cell_uses_one_draw_over_the_empty_middle_cells() {
    let mut board = Board::empty();
    let mut rng = GameSeed::from_u64(5).stream(RngStream::WeaponEffects);
    let mut replay = GameSeed::from_u64(5).stream(RngStream::WeaponEffects);
    let placed = board.add_random_middle_cell(&mut rng, Cell::Invisible).unwrap();
    let index = (replay.next_u64() % 140) as usize;
    assert_eq!(placed, Coord::new(index % 10, 7 + index / 10).unwrap());
    assert_eq!(board.get(placed), Some(Cell::Invisible));
    assert_eq!(rng.next_u64(), replay.next_u64());
}

#[test]
fn full_middle_leaves_the_board_and_stream_alone() {
    let mut board = Board::empty();
    for y in 7..21 {
        for x in 0..10 {
            board.set(Coord::new(x, y).unwrap(), Some(Cell::Structure));
        }
    }
    let mut rng = GameSeed::from_u64(5).stream(RngStream::WeaponEffects);
    let mut replay = GameSeed::from_u64(5).stream(RngStream::WeaponEffects);
    assert_eq!(board.add_random_middle_cell(&mut rng, Cell::Invisible), None);
    assert_eq!(rng.next_u64(), replay.next_u64());
}

#[test]
fn recon_ames_reports_occupied_cells_by_their_own_draws() {
    let board = row_of_ten(20);
    let mut rng = GameSeed::from_u64(11).stream(RngStream::WeaponEffects);
    let mut replay = GameSeed::from_u64(11).stream(RngStream::WeaponEffects);
    let snapshot = sample_recon(ReconLevel::Ames, &board, 40, 0, &mut rng);
    for x in 0..10 {
        let shown = replay.next_u64() % 100 < 50;
        assert_eq!(snapshot.board.cells[20 * 10 + x].is_some(), shown);
    }
    assert_eq!(snapshot.funds, (replay.next_u64() % 40) as i32);
    assert_eq!(rng.next_u64(), replay.next_u64());
}
