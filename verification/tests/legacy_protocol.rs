use battletris::protocol::legacy::{
    decode_legacy_header, encode_legacy_packet, validate_legacy_empty_payload, LegacyArsenalPayload, LegacyArsenalSlot,
    LegacyBoardPayload, LegacyError, LegacyNetworkEntry, LegacyNetworkStatus, LegacyPacket, LegacyScorePayload,
    LegacyShortPayload, LegacyToken, LegacyWeaponPayload, LEGACY_ARSENAL_SIZE, LEGACY_C_ULONG_LEN, LEGACY_DB_KEY_LEN,
    LEGACY_HEADER_LEN, LEGACY_HOSTNAME_LEN, LEGACY_LAST_WEAPON_TOKEN, LEGACY_MAX_PAYLOAD_LEN,
    LEGACY_MAX_WEAPON_SENTINEL, LEGACY_NETWORK_ENTRY_LEN, LEGACY_NETWORK_ENTRY_LEN_32, LEGACY_NO_WEAPON_TOKEN,
    LEGACY_SCORE_PAYLOAD_LEN, LEGACY_USERNAME_LEN,
};
use battletris::protocol::PlayerIdentity;

fn packet(token: LegacyToken, payload: &[u8]) -> LegacyPacket {
    LegacyPacket { token, payload: payload.to_vec() }
}

#[test]
fn token_values_match_original_protocol_header() {
    assert_eq!(LegacyToken::Null.to_u32(), 0);
    assert_eq!(LegacyToken::Score.to_u32(), 10);
    assert_eq!(LegacyToken::Challenge.to_u32(), 32);
    assert_eq!(LegacyToken::Accept.to_u32(), 33);
    assert_eq!(LegacyToken::Deny.to_u32(), 34);
    assert_eq!(LegacyToken::Start.to_u32(), 35);
    assert_eq!(LegacyToken::Pause.to_u32(), 50);
    assert_eq!(LegacyToken::QueryConnection.to_u32(), 74);
    assert_eq!(LegacyToken::ResponsePlayerDb.to_u32(), 84);
}

#[test]
fn token_values_read_back_to_their_tokens() {
    for value in 0..100u32 {
        if let Some(token) = LegacyToken::from_u32(value) {
            assert_eq!(token.to_u32(), value);
        }
    }
    assert_eq!(LegacyToken::from_u32(999), None);
    assert_eq!(LegacyToken::from_u32(1), Some(LegacyToken::Error));
}

#[test]
fn framed_packets_use_two_native_c_ulong_fields() {
    let bytes = encode_legacy_packet(&packet(LegacyToken::Challenge, b"xy")).expect("packet frames");
    assert_eq!(bytes.len(), LEGACY_HEADER_LEN + 2);
    assert_eq!(&bytes[..4], &LegacyToken::Challenge.to_u32().to_be_bytes());
    assert!(bytes[4..LEGACY_C_ULONG_LEN].iter().all(|byte| *byte == 0));
    assert_eq!(&bytes[LEGACY_C_ULONG_LEN..LEGACY_C_ULONG_LEN + 4], &2_u32.to_be_bytes());
    assert!(bytes[LEGACY_C_ULONG_LEN + 4..LEGACY_HEADER_LEN].iter().all(|byte| *byte == 0));
    assert_eq!(&bytes[LEGACY_HEADER_LEN..], b"xy");

    let (token, len) = decode_legacy_header(&bytes[..LEGACY_HEADER_LEN]).expect("header decodes");
    assert_eq!(token, LegacyToken::Challenge);
    assert_eq!(len, 2);

    let empty = encode_legacy_packet(&LegacyPacket::empty(LegacyToken::Accept)).expect("empty frames");
    assert_eq!(empty.len(), LEGACY_HEADER_LEN);
    assert_eq!(decode_legacy_header(&empty).unwrap(), (LegacyToken::Accept, 0));
}

#[test]
fn header_reader_rejects_unknown_and_oversized_headers() {
    let mut unknown = vec![0u8; LEGACY_HEADER_LEN];
    unknown[..4].copy_from_slice(&999u32.to_be_bytes());
    assert!(matches!(decode_legacy_header(&unknown), Err(LegacyError::UnknownToken { token: 999 })));

    let mut large = vec![0u8; LEGACY_HEADER_LEN];
    large[..4].copy_from_slice(&LegacyToken::Challenge.to_u32().to_be_bytes());
    large[LEGACY_C_ULONG_LEN..LEGACY_C_ULONG_LEN + 4].copy_from_slice(&(LEGACY_MAX_PAYLOAD_LEN + 1).to_be_bytes());
    assert!(matches!(
        decode_legacy_header(&large),
        Err(LegacyError::PayloadTooLarge { len }) if len == LEGACY_MAX_PAYLOAD_LEN + 1
    ));

    let oversized = packet(LegacyToken::Board, &vec![0; LEGACY_MAX_PAYLOAD_LEN as usize + 1]);
    assert!(matches!(encode_legacy_packet(&oversized), Err(LegacyError::PayloadTooLarge { .. })));
}

#[test]
fn network_entry_preserves_fixed_sizes_and_big_endian_fields() {
    let entry = LegacyNetworkEntry::waiting(
        PlayerIdentity { display_name: "Ada".to_string() },
        [192, 168, 1, 44],
        4405,
        0x0102_0304,
        0x0506_0708,
    );
    let encoded = entry.encode();
    assert_eq!(encoded.len(), LEGACY_NETWORK_ENTRY_LEN);
    assert_eq!(&encoded[LEGACY_DB_KEY_LEN..LEGACY_DB_KEY_LEN + 3], b"Ada");
    let numbers_offset = LEGACY_DB_KEY_LEN + LEGACY_USERNAME_LEN + LEGACY_HOSTNAME_LEN;
    assert_eq!(&encoded[numbers_offset..numbers_offset + 4], &0x0506_0708_u32.to_be_bytes());
    assert!(encoded[numbers_offset + 4..numbers_offset + LEGACY_C_ULONG_LEN].iter().all(|byte| *byte == 0));
    let pid_offset = numbers_offset + LEGACY_C_ULONG_LEN;
    assert_eq!(&encoded[pid_offset..pid_offset + 4], &0x0102_0304_u32.to_be_bytes());
    let addrnet_offset = numbers_offset + 2 * LEGACY_C_ULONG_LEN;
    assert_eq!(&encoded[addrnet_offset..addrnet_offset + 4], &0x00c0_a801_u32.to_be_bytes());
    let addrlna_offset = numbers_offset + 3 * LEGACY_C_ULONG_LEN;
    assert_eq!(&encoded[addrlna_offset..addrlna_offset + 4], &44_u32.to_be_bytes());
    let port_offset = numbers_offset + 4 * LEGACY_C_ULONG_LEN;
    assert_eq!(&encoded[port_offset..port_offset + 2], &4405_u16.to_be_bytes());

    let decoded = LegacyNetworkEntry::decode(&encoded).expect("entry decodes");
    assert_eq!(decoded, entry);
}

#[test]
fn network_entry_names_its_host_and_key() {
    let entry = LegacyNetworkEntry::waiting(PlayerIdentity { display_name: "Ada".to_string() }, [10, 0, 0, 7], 4405, 1, 2);
    assert_eq!(entry.host_name, "10.0.0.7");
    assert_eq!(entry.key, "Ada10.0.0.74405");
    assert_eq!((entry.addrnet, entry.addrlna), (10, 7));
    assert_eq!(entry.status, LegacyNetworkStatus::Waiting);
    assert_eq!((entry.max_weapon, entry.major, entry.minor), (34, 1, 0));
}

#[test]
fn network_entry_decode_rejects_short_payloads() {
    assert!(matches!(
        LegacyNetworkEntry::decode(&vec![0; LEGACY_NETWORK_ENTRY_LEN_32 - 1]),
        Err(LegacyError::EntryTooShort { .. })
    ));
}

#[test]
fn network_entry_decodes_thirty_two_bit_records() {
    let mut record = vec![0u8; LEGACY_NETWORK_ENTRY_LEN_32];
    record[LEGACY_DB_KEY_LEN..LEGACY_DB_KEY_LEN + 3].copy_from_slice(b"Ben");
    let numbers = LEGACY_DB_KEY_LEN + LEGACY_USERNAME_LEN + LEGACY_HOSTNAME_LEN;
    record[numbers + 4..numbers + 8].copy_from_slice(&77u32.to_be_bytes());
    record[numbers + 16..numbers + 18].copy_from_slice(&4404u16.to_be_bytes());
    record[numbers + 24..numbers + 26].copy_from_slice(&2u16.to_be_bytes());
    let entry = LegacyNetworkEntry::decode(&record).expect("32-bit record decodes");
    assert_eq!(entry.user_name, "Ben");
    assert_eq!(entry.pid, 77);
    assert_eq!(entry.port, 4404);
    assert_eq!(entry.status, LegacyNetworkStatus::Playing);
}

#[test]
fn legacy_score_payload_uses_six_big_endian_32_bit_fields() {
    let score = LegacyScorePayload {
        score: 0x0102_0304,
        opponent_score: 0x0506_0708,
        lines: 0x090a_0b0c,
        opponent_lines: 0x0d0e_0f10,
        funds: -2,
        opponent_funds: 0x1122_3344,
    };

    let encoded = score.encode();
    assert_eq!(encoded.len(), LEGACY_SCORE_PAYLOAD_LEN);
    assert_eq!(&encoded[0..4], &0x0102_0304_u32.to_be_bytes());
    assert_eq!(&encoded[16..20], &(-2_i32).to_be_bytes());
    assert_eq!(LegacyScorePayload::decode(&encoded).expect("score decodes"), score);
    assert!(matches!(
        LegacyScorePayload::decode(&encoded[..LEGACY_SCORE_PAYLOAD_LEN - 1]),
        Err(LegacyError::PayloadLengthMismatch { .. })
    ));
}

#[test]
fn legacy_short_payload_round_trips_big_endian_signed_values() {
    let payload = LegacyShortPayload { value: -1234 };
    assert_eq!(payload.encode(), (-1234_i16).to_be_bytes());
    assert_eq!(LegacyShortPayload::decode(&payload.encode()).expect("short decodes"), payload);
    assert!(matches!(LegacyShortPayload::decode(&[0]), Err(LegacyError::PayloadLengthMismatch { .. })));
}

#[test]
fn legacy_board_payload_round_trips_and_validates_cell_count() {
    let board = LegacyBoardPayload::new(5, 2, 3, vec![0, 1, 2, 0xffff_fffe, 4, 5]).expect("board is valid");

    let encoded = board.encode().expect("board encodes");
    assert_eq!(&encoded[0..2], &5_u16.to_be_bytes());
    assert_eq!(&encoded[2..4], &2_u16.to_be_bytes());
    assert_eq!(&encoded[4..6], &3_u16.to_be_bytes());
    assert_eq!(&encoded[6..10], &0_u32.to_be_bytes());
    assert_eq!(&encoded[18..22], &0xffff_fffe_u32.to_be_bytes());
    assert_eq!(LegacyBoardPayload::decode(&encoded).expect("board decodes"), board);

    assert!(matches!(
        LegacyBoardPayload::new(0, 2, 3, vec![0; 5]),
        Err(LegacyError::InvalidBoardCellCount { expected: 6, actual: 5 })
    ));
    assert!(matches!(
        LegacyBoardPayload::decode(&encoded[..encoded.len() - 1]),
        Err(LegacyError::PayloadLengthMismatch { .. })
    ));
}

#[test]
fn legacy_arsenal_payload_round_trips_holes_and_quantities() {
    let mut slots = vec![LegacyArsenalSlot { weapon_token: LEGACY_NO_WEAPON_TOKEN, quantity: 0 }; LEGACY_ARSENAL_SIZE];
    slots[0] = LegacyArsenalSlot { weapon_token: 0, quantity: 2 };
    slots[9] = LegacyArsenalSlot { weapon_token: LEGACY_LAST_WEAPON_TOKEN, quantity: 1 };
    let arsenal = LegacyArsenalPayload::new(slots).expect("arsenal is valid");

    let encoded = arsenal.encode().expect("arsenal encodes");
    assert_eq!(&encoded[0..2], &(LEGACY_ARSENAL_SIZE as u16).to_be_bytes());
    assert_eq!(&encoded[2..4], &0_u16.to_be_bytes());
    assert_eq!(&encoded[4..6], &2_u16.to_be_bytes());
    assert_eq!(&encoded[6..8], &LEGACY_NO_WEAPON_TOKEN.to_be_bytes());
    assert_eq!(LegacyArsenalPayload::decode(&encoded).expect("arsenal decodes"), arsenal);
}

#[test]
fn legacy_arsenal_payload_rejects_bad_lengths_counts_and_tokens() {
    assert!(matches!(LegacyArsenalPayload::decode(&[0]), Err(LegacyError::PayloadLengthMismatch { .. })));
    assert!(matches!(LegacyArsenalPayload::decode(&[0, 1, 0, 2]), Err(LegacyError::PayloadLengthMismatch { .. })));

    let mut too_many = vec![0; 2 + (LEGACY_ARSENAL_SIZE + 1) * 4];
    too_many[1] = (LEGACY_ARSENAL_SIZE + 1) as u8;
    assert!(matches!(
        LegacyArsenalPayload::decode(&too_many),
        Err(LegacyError::InvalidArsenalSlotCount { max: LEGACY_ARSENAL_SIZE, actual }) if actual == LEGACY_ARSENAL_SIZE + 1
    ));

    assert!(matches!(
        LegacyArsenalPayload::new(vec![LegacyArsenalSlot { weapon_token: LEGACY_MAX_WEAPON_SENTINEL, quantity: 1 }]),
        Err(LegacyError::InvalidWeaponToken { token: LEGACY_MAX_WEAPON_SENTINEL })
    ));
}

#[test]
fn legacy_weapon_payload_round_trips_concrete_weapon_tokens() {
    for token in 0..=LEGACY_LAST_WEAPON_TOKEN {
        let payload = LegacyWeaponPayload::new(token).expect("weapon token is valid");
        assert_eq!(payload.encode(), token.to_be_bytes());
        assert_eq!(LegacyWeaponPayload::decode(&payload.encode()).expect("weapon decodes"), payload);
    }

    assert!(matches!(
        LegacyWeaponPayload::new(LEGACY_NO_WEAPON_TOKEN),
        Err(LegacyError::InvalidWeaponToken { token: LEGACY_NO_WEAPON_TOKEN })
    ));
    assert!(matches!(LegacyWeaponPayload::decode(&[0]), Err(LegacyError::PayloadLengthMismatch { .. })));
}

#[test]
fn legacy_empty_payload_validation_covers_control_packets() {
    validate_legacy_empty_payload(&[]).expect("empty payload is valid");
    assert!(matches!(
        validate_legacy_empty_payload(&[1]),
        Err(LegacyError::PayloadLengthMismatch { expected: 0, actual: 1, .. })
    ));
}
