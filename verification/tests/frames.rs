use battletris::protocol::{
    decode_known_frame, decode_raw_frame, derive_player_seeds, encode_frame, BoardSnapshot, FrameHeader,
    LanAdvertisement, MessageKind, PlayerIdentity, PlayerSlot, ProtocolError, FLAG_NONE, HEADER_LEN,
    LAN_DISCOVERY_SERVICE, MAGIC, MAX_PAYLOAD_LEN, PROTOCOL_MAJOR, PROTOCOL_MINOR,
};

fn identity(name: &str) -> PlayerIdentity {
    PlayerIdentity { display_name: name.to_string() }
}

#[test]
fn frame_header_uses_fixed_big_endian_layout() {
    let encoded = encode_frame(MessageKind::Pause, &[1]).expect("frame encodes");
    assert_eq!(&encoded[..4], b"BTRS");
    assert_eq!(&encoded[4..6], &PROTOCOL_MAJOR.to_be_bytes());
    assert_eq!(&encoded[6..8], &PROTOCOL_MINOR.to_be_bytes());
    assert_eq!(&encoded[8..10], &MessageKind::Pause.to_u16().to_be_bytes());
    assert_eq!(&encoded[10..12], &FLAG_NONE.to_be_bytes());
    assert_eq!(&encoded[12..16], &1_u32.to_be_bytes());
    assert_eq!(encoded[16], 1);
}

#[test]
fn rejects_bad_magic_unsupported_major_length_mismatch_and_large_payloads() {
    let mut encoded = encode_frame(MessageKind::Pause, &[1]).expect("frame encodes");

    let mut bad_magic = encoded.clone();
    bad_magic[0] = b'X';
    assert!(matches!(decode_known_frame(&bad_magic), Err(ProtocolError::BadMagic { .. })));

    let mut bad_major = encoded.clone();
    bad_major[5] = 2;
    assert_eq!(decode_known_frame(&bad_major), Err(ProtocolError::UnsupportedMajor { major: 2 }));

    encoded.pop();
    assert!(matches!(decode_known_frame(&encoded), Err(ProtocolError::LengthMismatch { .. })));

    let mut too_large = Vec::from(MAGIC);
    too_large.extend_from_slice(&PROTOCOL_MAJOR.to_be_bytes());
    too_large.extend_from_slice(&PROTOCOL_MINOR.to_be_bytes());
    too_large.extend_from_slice(&MessageKind::Pause.to_u16().to_be_bytes());
    too_large.extend_from_slice(&FLAG_NONE.to_be_bytes());
    too_large.extend_from_slice(&(MAX_PAYLOAD_LEN + 1).to_be_bytes());
    assert_eq!(decode_raw_frame(&too_large), Err(ProtocolError::PayloadTooLarge { len: MAX_PAYLOAD_LEN + 1 }));
}

#[test]
fn raw_frame_allows_unknown_kind_but_message_decode_rejects_it() {
    let mut frame = Vec::from(MAGIC);
    frame.extend_from_slice(&PROTOCOL_MAJOR.to_be_bytes());
    frame.extend_from_slice(&PROTOCOL_MINOR.to_be_bytes());
    frame.extend_from_slice(&999_u16.to_be_bytes());
    frame.extend_from_slice(&FLAG_NONE.to_be_bytes());
    frame.extend_from_slice(&0_u32.to_be_bytes());

    let raw = decode_raw_frame(&frame).expect("unknown raw frame is still skippable");
    assert_eq!(raw.header.kind, 999);
    assert_eq!(decode_known_frame(&frame), Err(ProtocolError::UnknownKind { kind: 999 }));
}

#[test]
fn validates_board_snapshot_cell_count() {
    assert_eq!(
        BoardSnapshot::new(PlayerSlot::One, 0, 10, 28, vec![0; 279]),
        Err(ProtocolError::InvalidSnapshotCellCount { expected: 280, actual: 279 })
    );
}

#[test]
fn lan_advertisement_contains_required_best_effort_metadata() {
    let ad = LanAdvertisement::available(&identity("Ada"), 4404);

    assert_eq!(ad.service, LAN_DISCOVERY_SERVICE);
    assert_eq!(ad.port, 4404);
    assert_eq!(ad.txt["protocol_major"], PROTOCOL_MAJOR.to_string());
    assert_eq!(ad.txt["display_name"], "Ada");
    assert_eq!(ad.txt["port"], "4404");
    assert_eq!(ad.txt["state"], "available");
}

#[test]
fn encoded_frames_decode_to_their_kind_and_payload() {
    for code in 0..64u16 {
        if let Some(kind) = MessageKind::from_u16(code) {
            assert_eq!(kind.to_u16(), code);
            let frame = encode_frame(kind, b"payload").expect("frame encodes");
            assert_eq!(frame.len(), HEADER_LEN + 7);
            assert_eq!(decode_known_frame(&frame), Ok((kind, b"payload".to_vec())));
            let raw = decode_raw_frame(&frame).unwrap();
            assert_eq!(raw.header, FrameHeader::new(kind, 7));
        }
    }
}

#[test]
fn short_frames_and_oversized_payloads_are_refused() {
    assert_eq!(decode_raw_frame(&[0; 3]), Err(ProtocolError::FrameTooShort { actual: 3 }));
    assert!(matches!(
        encode_frame(MessageKind::Pause, &vec![0; MAX_PAYLOAD_LEN as usize + 1]),
        Err(ProtocolError::PayloadTooLarge { .. })
    ));
}

#[test]
fn player_seeds_differ_and_are_stable() {
    let (one, two) = derive_player_seeds(1234);
    assert_ne!(one, two);
    assert_eq!(derive_player_seeds(1234), (one, two));
}
