use battletris::db::{
    ranked_change, recompute_rank, CommunityLabel, GameResult, OpponentKind, PlayerId, PlayerProfile, StoreError,
    StreakKind, STARTING_RANK,
};
use battletris::protocol::{
    HostedPlayer, HostedSessionId, HostedSessionStatusKind, LobbyRegister, RankedResultClaim, PROTOCOL_MAJOR,
};
use battletris::server::{server_protocol_version, ClaimStep, HostedLobbyServer, ServerError};

fn player(id: &str, name: &str) -> HostedPlayer {
    HostedPlayer { player_id: id.to_string(), display_name: name.to_string() }
}

fn register(player: HostedPlayer, ranked: bool) -> LobbyRegister {
    LobbyRegister { player, direct_addr: "127.0.0.1:4404".to_string(), ranked }
}

fn claim(session_id: &HostedSessionId, reporter: &str) -> RankedResultClaim {
    RankedResultClaim {
        session_id: session_id.clone(),
        reporter_player_id: reporter.to_string(),
        winner_player_id: "ada".to_string(),
        loser_player_id: "ben".to_string(),
        winner_score: 12_000,
        winner_lines: 40,
        winner_funds: -900,
        loser_score: 8_000,
        loser_lines: 24,
        loser_funds: -500,
        duration_secs: 180,
        duration_ticks: 18_000,
        event_count: 88,
        final_checksum: 0x88,
    }
}

fn profile(id: &str, name: &str, community: &CommunityLabel) -> PlayerProfile {
    PlayerProfile {
        player_id: PlayerId::new(id).unwrap(),
        display_name: name.to_string(),
        community_label: community.clone(),
        rank: STARTING_RANK,
        wins: 0,
        losses: 0,
        high_score: 0,
        high_lines: 0,
        high_funds: 0,
        streak_count: 0,
        streak_kind: StreakKind::NoStreak,
        fastest_kill_secs: None,
        quickest_death_secs: None,
        longest_game_secs: None,
    }
}

fn sample_result(
    community: &CommunityLabel,
    winner: &PlayerId,
    loser: &PlayerId,
    opponent_kind: OpponentKind,
    ranked: bool,
) -> GameResult {
    GameResult {
        community_label: community.clone(),
        winner_id: winner.clone(),
        loser_id: loser.clone(),
        winner_score: 12_000,
        winner_lines: 40,
        winner_funds: 900,
        loser_score: 8_000,
        loser_lines: 24,
        loser_funds: 500,
        duration_secs: 180,
        ranked,
        opponent_kind,
    }
}

fn started_server() -> (HostedLobbyServer, HostedSessionId) {
    let community = CommunityLabel::new("garage").unwrap();
    let mut server = HostedLobbyServer::new(community, 100);
    let entry = server.register_host(register(player("ada", "Ada"), true), PROTOCOL_MAJOR, 0).unwrap();
    let start = server.start_game(&entry.session_id, player("ben", "Ben"), PROTOCOL_MAJOR).unwrap();
    server.confirm_start(start);
    (server, entry.session_id)
}

#[test]
fn identity_rejects_empty_or_control_values() {
    assert!(PlayerId::new(" ").is_err());
    assert!(PlayerId::new("bad\nvalue").is_err());
    assert!(CommunityLabel::new("main-server").is_ok());
}

#[test]
fn identity_is_trimmed_and_bounded() {
    assert_eq!(PlayerId::new("  ada  ").unwrap().as_str(), "ada");
    assert!(matches!(PlayerId::new(&"x".repeat(129)), Err(StoreError::InvalidIdentity(_))));
    assert!(PlayerId::new(&"x".repeat(128)).is_ok());
    assert_eq!(CommunityLabel::local().as_str(), "local");
}

#[test]
fn rank_formula_preserves_legacy_integer_shape_without_named_stat_caps() {
    assert_eq!(recompute_rank(STARTING_RANK, STARTING_RANK, true), 1205);
    assert_eq!(recompute_rank(STARTING_RANK, STARTING_RANK, false), 1195);
    assert_eq!(recompute_rank(10, 1, false), 1);
    assert_eq!(recompute_rank(10_000, 1, true), 10_001);
}

#[test]
fn rank_formula_treats_zero_ranks_as_one() {
    assert_eq!(recompute_rank(0, 0, true), 6);
    assert_eq!(recompute_rank(0, 5, false), 1);
}

#[test]
fn ranked_human_result_changes_ranks_and_streaks() {
    let community = CommunityLabel::local();
    let alice = profile("alice-local-id", "Alice", &community);
    let bob = profile("bob-local-id", "Bob", &community);
    let result = sample_result(&community, &alice.player_id, &bob.player_id, OpponentKind::Human, true);
    let change = ranked_change(&result, &alice, &bob).expect("ranked human game counts");
    assert_eq!(change.winner_rank, 1205);
    assert_eq!(change.loser_rank, 1195);
    assert_eq!(change.winner_streak, 1);
    assert_eq!(change.loser_streak, 1);

    let mut streaking = alice.clone();
    streaking.streak_kind = StreakKind::Wins;
    streaking.streak_count = 3;
    let change = ranked_change(&result, &streaking, &bob).unwrap();
    assert_eq!(change.winner_streak, 4);
}

#[test]
fn computer_and_unranked_games_change_nothing() {
    let community = CommunityLabel::local();
    let human = profile("human", "Human", &community);
    let computer = profile("computer", "Computer", &community);
    let computer_result = sample_result(&community, &human.player_id, &computer.player_id, OpponentKind::Computer, true);
    assert_eq!(ranked_change(&computer_result, &human, &computer), None);
    let unranked_result = sample_result(&community, &human.player_id, &computer.player_id, OpponentKind::Human, false);
    assert_eq!(ranked_change(&unranked_result, &human, &computer), None);
}

#[test]
fn lobby_registers_and_lists_discoverable_sessions() {
    let community = CommunityLabel::new("garage").unwrap();
    let mut server = HostedLobbyServer::new(community, 100);

    let entry = server.register_host(register(player("ada", "Ada"), true), PROTOCOL_MAJOR, 0).unwrap();

    assert_eq!(entry.session_id.0, "session-1");
    assert_eq!(server.lobby_entries(false), vec![entry.clone()]);
    assert_eq!(server.lobby_entries(true), vec![entry]);
}

#[test]
fn lobby_rejects_protocol_version_skew_and_invalid_presence() {
    let community = CommunityLabel::new("garage").unwrap();
    let mut server = HostedLobbyServer::new(community, 100);

    assert!(matches!(
        server.register_host(register(player("ada", "Ada"), true), PROTOCOL_MAJOR + 1, 0),
        Err(ServerError::ProtocolMajorMismatch { .. })
    ));
    assert!(matches!(
        server.register_host(register(player(" ", "Ada"), true), PROTOCOL_MAJOR, 0),
        Err(ServerError::InvalidLobbyEntry("player_id"))
    ));
}

#[test]
fn lobby_lists_sessions_in_id_order_and_filters_unranked() {
    let community = CommunityLabel::new("garage").unwrap();
    let mut server = HostedLobbyServer::new(community, 100);
    let first = server.register_host(register(player("ada", "Ada"), true), PROTOCOL_MAJOR, 0).unwrap();
    let second = server.register_host(register(player("cy", "Cy"), false), PROTOCOL_MAJOR, 0).unwrap();
    assert_eq!(second.session_id.0, "session-2");
    assert_eq!(server.lobby_entries(false), vec![first.clone(), second]);
    assert_eq!(server.lobby_entries(true), vec![first]);
    assert!(matches!(
        server.register_host(
            LobbyRegister { player: player("dee", "Dee"), direct_addr: "  ".to_string(), ranked: true },
            PROTOCOL_MAJOR,
            0
        ),
        Err(ServerError::InvalidLobbyEntry("direct_addr"))
    ));
    assert_eq!(server_protocol_version(), (PROTOCOL_MAJOR, 0));
}

#[test]
fn hosted_game_start_removes_session_from_lobby_and_creates_players() {
    let community = CommunityLabel::new("garage").unwrap();
    let mut server = HostedLobbyServer::new(community, 100);
    let entry = server.register_host(register(player("ada", "Ada"), true), PROTOCOL_MAJOR, 0).unwrap();

    let start = server.start_game(&entry.session_id, player("ben", "Ben"), PROTOCOL_MAJOR).unwrap();
    let players = [start.player_one.clone(), start.player_two.clone()];
    server.confirm_start(start.clone());

    assert_eq!(start.seed, 100);
    assert_eq!(start.community_label, "garage");
    assert!(server.lobby_entries(false).is_empty());
    assert_eq!(players[0].player_id, "ada");
    assert_eq!(players[1].player_id, "ben");
    assert!(PlayerId::new(&players[0].player_id).is_ok());
    assert!(PlayerId::new(&players[1].player_id).is_ok());
}

#[test]
fn hosted_start_refuses_the_host_and_unknown_sessions() {
    let community = CommunityLabel::new("garage").unwrap();
    let mut server = HostedLobbyServer::new(community, 100);
    let entry = server.register_host(register(player("ada", "Ada"), true), PROTOCOL_MAJOR, 0).unwrap();
    assert!(matches!(
        server.start_game(&entry.session_id, player("ada", "Ada again"), PROTOCOL_MAJOR),
        Err(ServerError::WrongParticipant(p)) if p == "ada"
    ));
    assert!(matches!(
        server.start_game(&HostedSessionId("session-9".to_string()), player("ben", "Ben"), PROTOCOL_MAJOR),
        Err(ServerError::UnknownSession(_))
    ));
    let start = server.start_game(&entry.session_id, player("ben", "Ben"), PROTOCOL_MAJOR).unwrap();
    assert_eq!(start.seed, 102);
}

#[test]
fn hosted_session_status_reports_waiting_and_started_metadata() {
    let community = CommunityLabel::new("garage").unwrap();
    let mut server = HostedLobbyServer::new(community, 100);
    let entry = server.register_host(register(player("ada", "Ada"), true), PROTOCOL_MAJOR, 0).unwrap();

    assert_eq!(server.session_status(&entry.session_id, "ada").unwrap().status, HostedSessionStatusKind::WaitingForPeer);

    let start = server.start_game(&entry.session_id, player("ben", "Ben"), PROTOCOL_MAJOR).unwrap();
    server.confirm_start(start.clone());

    assert_eq!(
        server.session_status(&entry.session_id, "ada").unwrap().status,
        HostedSessionStatusKind::Started(start.clone())
    );
    assert_eq!(server.session_status(&entry.session_id, "ben").unwrap().status, HostedSessionStatusKind::Started(start));
    assert!(matches!(server.session_status(&entry.session_id, "mallory"), Err(ServerError::WrongParticipant(_))));
}

#[test]
fn matching_ranked_result_claims_record_once() {
    let (mut server, session_id) = started_server();
    let community = CommunityLabel::new("garage").unwrap();

    assert!(matches!(server.submit_ranked_result(claim(&session_id, "ada")), Ok(ClaimStep::AwaitingPeer)));
    let result = match server.submit_ranked_result(claim(&session_id, "ben")) {
        Ok(ClaimStep::Record(result)) => result,
        other => panic!("second matching claim should record, got {other:?}"),
    };
    assert_eq!(result.winner_id.as_str(), "ada");
    assert_eq!(result.loser_id.as_str(), "ben");
    assert_eq!(result.community_label, community);
    assert!(result.ranked);
    assert_eq!(result.opponent_kind, OpponentKind::Human);

    let mut ada = profile("ada", "Ada", &community);
    let mut ben = profile("ben", "Ben", &community);
    let change = ranked_change(&result, &ada, &ben).unwrap();
    ada.rank = change.winner_rank;
    ada.wins += 1;
    ben.rank = change.loser_rank;
    ben.losses += 1;
    server.mark_recorded(&session_id);

    assert_eq!(ada.rank, STARTING_RANK + 5);
    assert_eq!(ada.wins, 1);
    assert_eq!(ben.rank, STARTING_RANK - 5);
    assert_eq!(ben.losses, 1);
    assert!(matches!(server.submit_ranked_result(claim(&session_id, "ada")), Err(ServerError::SessionUnavailable(_))));

    let records = server.ranked_records(&vec![ada, ben], 10);
    assert_eq!(records.community_label, "garage");
    assert_eq!(records.records.len(), 2);
    assert_eq!(records.records[0].player_id, "ada");
    assert_eq!(records.records[0].wins, 1);
}

#[test]
fn mismatched_or_wrong_participant_claims_are_rejected() {
    let (mut server, session_id) = started_server();

    assert!(matches!(server.submit_ranked_result(claim(&session_id, "mallory")), Err(ServerError::WrongParticipant(_))));
    server.submit_ranked_result(claim(&session_id, "ada")).unwrap();
    let mut tampered = claim(&session_id, "ben");
    tampered.winner_score += 1;
    assert!(matches!(server.submit_ranked_result(tampered), Err(ServerError::ResultClaimMismatch)));
}

#[test]
fn the_same_reporter_cannot_confirm_its_own_claim() {
    let (mut server, session_id) = started_server();
    server.submit_ranked_result(claim(&session_id, "ada")).unwrap();
    assert!(matches!(
        server.submit_ranked_result(claim(&session_id, "ada")),
        Err(ServerError::WrongParticipant(p)) if p == "ada"
    ));
    let mut bad = claim(&session_id, "ben");
    bad.loser_player_id = "ada".to_string();
    assert!(matches!(server.submit_ranked_result(bad), Err(ServerError::InvalidResultParticipants)));
}

#[test]
fn stale_sessions_reject_result_claims() {
    let community = CommunityLabel::new("garage").unwrap();
    let mut server = HostedLobbyServer::new(community, 100);
    let entry = server.register_host(register(player("ada", "Ada"), true), PROTOCOL_MAJOR, 0).unwrap();

    assert!(server.expire_session(&entry.session_id));
    assert!(matches!(server.submit_ranked_result(claim(&entry.session_id, "ada")), Err(ServerError::SessionUnavailable(_))));
    assert!(!server.expire_session(&entry.session_id));
    assert!(matches!(
        server.submit_ranked_result(claim(&HostedSessionId("session-7".to_string()), "ada")),
        Err(ServerError::UnknownSession(_))
    ));
}

#[test]
fn ranked_records_clamp_the_limit() {
    let community = CommunityLabel::new("garage").unwrap();
    let server = HostedLobbyServer::new(community.clone(), 1);
    let roster = vec![profile("a", "A", &community), profile("b", "B", &community), profile("c", "C", &community)];
    assert_eq!(server.ranked_records(&roster, 0).records.len(), 1);
    assert_eq!(server.ranked_records(&roster, 2).records.len(), 2);
    assert_eq!(server.ranked_records(&roster, 500).records.len(), 3);
}
