//! Original BattleTris packet protocol support: token values, fixed-size
//! records and the big-endian payload layouts of gameplay packets.

use crate::protocol::PlayerIdentity;
use crate::wire::{
    be_u16, be_u32, decimal, lemma_be_u16_bytes, lemma_be_u32_bytes, lemma_u16_round_trip, lemma_u32_round_trip,
    push_decimal, push_u16_be, push_u32_be, read_u16_be, read_u32_be, u16_be, u32_be,
};
use vstd::prelude::*;
use vstd::utf8::{decode_utf8, encode_utf8, is_ascii_chars, valid_utf8};

verus! {

/// Native `unsigned long` size of the original C++ daemon/client on the supported 64-bit targets.
pub const LEGACY_C_ULONG_LEN: usize = 8;

/// Header size for the original `PacketBuffer` framing.
pub const LEGACY_HEADER_LEN: usize = 2 * LEGACY_C_ULONG_LEN;

/// Conservative maximum legacy packet payload accepted before allocation.
pub const LEGACY_MAX_PAYLOAD_LEN: u32 = 64 * 1024;

/// Fixed payload length of the original `BTScore::writebuf` record.
pub const LEGACY_SCORE_PAYLOAD_LEN: usize = 6 * 4;

/// Fixed payload length for original signed short delta packets.
pub const LEGACY_SHORT_PAYLOAD_LEN: usize = 2;

/// Fixed byte count before cells in an original `BT_BOARD` payload.
pub const LEGACY_BOARD_PAYLOAD_HEADER_LEN: usize = 3 * 2;

/// Original board width used by the C++ client.
pub const LEGACY_BOARD_WIDTH: u16 = 10;

/// Original board height used by the C++ client.
pub const LEGACY_BOARD_HEIGHT: u16 = 28;

/// Original number of arsenal slots.
pub const LEGACY_ARSENAL_SIZE: usize = 10;

/// Original `BT_MAX_WEAPONS` sentinel value.
pub const LEGACY_MAX_WEAPON_SENTINEL: u16 = 34;

/// Original `BT_NO_WPN` empty arsenal slot token.
pub const LEGACY_NO_WEAPON_TOKEN: u16 = 35;

/// Highest concrete original weapon token value.
pub const LEGACY_LAST_WEAPON_TOKEN: u16 = LEGACY_MAX_WEAPON_SENTINEL - 1;

/// Fixed byte length of `BTDBRecord::key_`, including its trailing NUL slot.
pub const LEGACY_DB_KEY_LEN: usize = 281;

/// Fixed byte length of `BTNetworkEntry::userName_`, including its trailing NUL slot.
pub const LEGACY_USERNAME_LEN: usize = 264;

/// Fixed byte length of `BTNetworkEntry::hostName_`, including its trailing NUL slot.
pub const LEGACY_HOSTNAME_LEN: usize = 256;

/// Fixed byte length of the original `BTNetworkEntry` wire record with 32-bit longs.
pub const LEGACY_NETWORK_ENTRY_LEN_32: usize = LEGACY_DB_KEY_LEN + LEGACY_USERNAME_LEN + LEGACY_HOSTNAME_LEN + 4 * 4 + 5 * 2;

/// Fixed byte length of `BTNetworkEntry` for the original C++ daemon/client.
pub const LEGACY_NETWORK_ENTRY_LEN: usize = LEGACY_DB_KEY_LEN + LEGACY_USERNAME_LEN + LEGACY_HOSTNAME_LEN + 4
    * LEGACY_C_ULONG_LEN + 5 * 2;

const LEGACY_MAJOR_VERSION: u16 = 1;

const LEGACY_MINOR_VERSION: u16 = 0;

const LEGACY_MAX_WEAPONS: u16 = 34;

/// Original `BTNetworkStatus` values.
#[derive(Debug, Clone, Copy, PartialEq, Eq, Structural)]
pub enum LegacyNetworkStatus {
    /// Status was not known.
    Unknown,
    /// Player is waiting for a challenge.
    Waiting,
    /// Player is currently in a game.
    Playing,
}

/// The wire value of a network status.
pub open spec fn status_code(s: LegacyNetworkStatus) -> u16 {
    match s {
        LegacyNetworkStatus::Unknown => 0,
        LegacyNetworkStatus::Waiting => 1,
        LegacyNetworkStatus::Playing => 2,
    }
}

/// The network status a wire value names; unknown values read as `Unknown`.
pub open spec fn status_of_code(v: u16) -> LegacyNetworkStatus {
    if v == 1 {
        LegacyNetworkStatus::Waiting
    } else if v == 2 {
        LegacyNetworkStatus::Playing
    } else {
        LegacyNetworkStatus::Unknown
    }
}

impl LegacyNetworkStatus {
    fn from_u16(value: u16) -> (r: Self)
        ensures
            r == status_of_code(value),
    {
        match value {
            1 => Self::Waiting,
            2 => Self::Playing,
            _ => Self::Unknown,
        }
    }

    /// Returns the wire value of this status.
    #[must_use]
    pub fn to_u16(self) -> (r: u16)
        ensures
            r == status_code(self),
    {
        match self {
            Self::Unknown => 0,
            Self::Waiting => 1,
            Self::Playing => 2,
        }
    }
}

/// Original `BTToken` values from `BTProtocol.H`.
#[derive(Debug, Clone, Copy, PartialEq, Eq, Structural)]
pub enum LegacyToken {
    /// Null packet indicates that connection is over.
    Null,
    /// A network error has occurred.
    Error,
    /// Score delta packet.
    Score,
    /// Opponent score delta packet.
    OpponentScore,
    /// Line count increase packet.
    Line,
    /// Board snapshot packet.
    Board,
    /// Arsenal snapshot packet.
    Arsenal,
    /// Funds delta packet.
    Funds,
    /// Timed weapon activation packet.
    WeaponOn,
    /// Weapon launch packet.
    WeaponLaunch,
    /// Timed weapon expiration packet.
    WeaponOff,
    /// Opponent death packet.
    Dead,
    /// Opponent entered Bazaar packet.
    StartBazaar,
    /// Opponent finished Bazaar packet.
    EndBazaar,
    /// Local game-over packet.
    GameOver,
    /// Airslide packet.
    Airslide,
    /// Lawyer rise-up packet.
    Lawyer,
    /// Ping/status packet.
    Ping,
    /// Peer busy response.
    Busy,
    /// Challenge packet carrying a `BTNetworkEntry`.
    Challenge,
    /// Challenge accepted response.
    Accept,
    /// Challenge denied response.
    Deny,
    /// Start-game synchronization packet.
    Start,
    /// Pause packet.
    Pause,
    /// Idiot packet.
    Idiot,
    /// Condor off packet.
    CondorOff,
    /// Local client connection request.
    Local,
    /// Remote client connection request.
    Remote,
    /// Cookie accepted packet.
    CookieGood,
    /// Cookie rejected packet.
    CookieBad,
    /// Server accepted client packet.
    Accepted,
    /// Server rejected client packet.
    Rejected,
    /// Server command packet.
    ObeyMe,
    /// Slave acknowledgement packet.
    IObey,
    /// New client packet.
    NewClient,
    /// Client accepted packet.
    ClientOk,
    /// Client rejected packet.
    ClientBad,
    /// Disconnect packet.
    Disconnect,
    /// Slave shutdown packet.
    Harikari,
    /// Cookie query packet.
    QueryCookie,
    /// Connection query packet.
    QueryConnection,
    /// Network DB query packet.
    QueryNetworkDb,
    /// Player DB query packet.
    QueryPlayerDb,
    /// Verify query packet.
    QueryVerify,
    /// Update query packet.
    QueryUpdate,
    /// Result query packet.
    QueryResult,
    /// Cookie response packet.
    ResponseCookie,
    /// Verify response packet.
    ResponseVerify,
    /// DB length response packet.
    ResponseDbLen,
    /// Network DB response packet.
    ResponseNetworkDb,
    /// Player DB response packet.
    ResponsePlayerDb,
}

/// The wire value of a legacy token.
pub open spec fn token_value(t: LegacyToken) -> u32 {
    match t {
        LegacyToken::Null => 0,
        LegacyToken::Error => 1,
        LegacyToken::Score => 10,
        LegacyToken::OpponentScore => 11,
        LegacyToken::Line => 12,
        LegacyToken::Board => 13,
        LegacyToken::Arsenal => 14,
        LegacyToken::Funds => 15,
        LegacyToken::WeaponOn => 16,
        LegacyToken::WeaponLaunch => 17,
        LegacyToken::WeaponOff => 18,
        LegacyToken::Dead => 19,
        LegacyToken::StartBazaar => 20,
        LegacyToken::EndBazaar => 21,
        LegacyToken::GameOver => 22,
        LegacyToken::Airslide => 23,
        LegacyToken::Lawyer => 24,
        LegacyToken::Ping => 30,
        LegacyToken::Busy => 31,
        LegacyToken::Challenge => 32,
        LegacyToken::Accept => 33,
        LegacyToken::Deny => 34,
        LegacyToken::Start => 35,
        LegacyToken::Pause => 50,
        LegacyToken::Idiot => 51,
        LegacyToken::CondorOff => 52,
        LegacyToken::Local => 60,
        LegacyToken::Remote => 61,
        LegacyToken::CookieGood => 62,
        LegacyToken::CookieBad => 63,
        LegacyToken::Accepted => 64,
        LegacyToken::Rejected => 65,
        LegacyToken::ObeyMe => 66,
        LegacyToken::IObey => 67,
        LegacyToken::NewClient => 68,
        LegacyToken::ClientOk => 69,
        LegacyToken::ClientBad => 70,
        LegacyToken::Disconnect => 71,
        LegacyToken::Harikari => 72,
        LegacyToken::QueryCookie => 73,
        LegacyToken::QueryConnection => 74,
        LegacyToken::QueryNetworkDb => 75,
        LegacyToken::QueryPlayerDb => 76,
        LegacyToken::QueryVerify => 77,
        LegacyToken::QueryUpdate => 78,
        LegacyToken::QueryResult => 79,
        LegacyToken::ResponseCookie => 80,
        LegacyToken::ResponseVerify => 81,
        LegacyToken::ResponseDbLen => 82,
        LegacyToken::ResponseNetworkDb => 83,
        LegacyToken::ResponsePlayerDb => 84,
    }
}

/// The legacy token a wire value names, if any.
pub open spec fn token_of_value(v: u32) -> Option<LegacyToken> {
    match v {
        0 => Some(LegacyToken::Null),
        1 => Some(LegacyToken::Error),
        10 => Some(LegacyToken::Score),
        11 => Some(LegacyToken::OpponentScore),
        12 => Some(LegacyToken::Line),
        13 => Some(LegacyToken::Board),
        14 => Some(LegacyToken::Arsenal),
        15 => Some(LegacyToken::Funds),
        16 => Some(LegacyToken::WeaponOn),
        17 => Some(LegacyToken::WeaponLaunch),
        18 => Some(LegacyToken::WeaponOff),
        19 => Some(LegacyToken::Dead),
        20 => Some(LegacyToken::StartBazaar),
        21 => Some(LegacyToken::EndBazaar),
        22 => Some(LegacyToken::GameOver),
        23 => Some(LegacyToken::Airslide),
        24 => Some(LegacyToken::Lawyer),
        30 => Some(LegacyToken::Ping),
        31 => Some(LegacyToken::Busy),
        32 => Some(LegacyToken::Challenge),
        33 => Some(LegacyToken::Accept),
        34 => Some(LegacyToken::Deny),
        35 => Some(LegacyToken::Start),
        50 => Some(LegacyToken::Pause),
        51 => Some(LegacyToken::Idiot),
        52 => Some(LegacyToken::CondorOff),
        60 => Some(LegacyToken::Local),
        61 => Some(LegacyToken::Remote),
        62 => Some(LegacyToken::CookieGood),
        63 => Some(LegacyToken::CookieBad),
        64 => Some(LegacyToken::Accepted),
        65 => Some(LegacyToken::Rejected),
        66 => Some(LegacyToken::ObeyMe),
        67 => Some(LegacyToken::IObey),
        68 => Some(LegacyToken::NewClient),
        69 => Some(LegacyToken::ClientOk),
        70 => Some(LegacyToken::ClientBad),
        71 => Some(LegacyToken::Disconnect),
        72 => Some(LegacyToken::Harikari),
        73 => Some(LegacyToken::QueryCookie),
        74 => Some(LegacyToken::QueryConnection),
        75 => Some(LegacyToken::QueryNetworkDb),
        76 => Some(LegacyToken::QueryPlayerDb),
        77 => Some(LegacyToken::QueryVerify),
        78 => Some(LegacyToken::QueryUpdate),
        79 => Some(LegacyToken::QueryResult),
        80 => Some(LegacyToken::ResponseCookie),
        81 => Some(LegacyToken::ResponseVerify),
        82 => Some(LegacyToken::ResponseDbLen),
        83 => Some(LegacyToken::ResponseNetworkDb),
        84 => Some(LegacyToken::ResponsePlayerDb),
        _ => None,
    }
}

/// Every legacy token is found again from its own wire value.
pub proof fn lemma_token_value_round_trip(t: LegacyToken)
    ensures
        token_of_value(token_value(t)) == Some(t),
{
}

/// A wire value names a token exactly when that token carries the value.
pub proof fn lemma_token_of_value(v: u32)
    ensures
        token_of_value(v) matches Some(t) ==> token_value(t) == v,
{
}

impl LegacyToken {
    /// Returns the original wire value of this token.
    #[must_use]
    pub fn to_u32(self) -> (r: u32)
        ensures
            r == token_value(self),
    {
        match self {
            Self::Null => 0,
            Self::Error => 1,
            Self::Score => 10,
            Self::OpponentScore => 11,
            Self::Line => 12,
            Self::Board => 13,
            Self::Arsenal => 14,
            Self::Funds => 15,
            Self::WeaponOn => 16,
            Self::WeaponLaunch => 17,
            Self::WeaponOff => 18,
            Self::Dead => 19,
            Self::StartBazaar => 20,
            Self::EndBazaar => 21,
            Self::GameOver => 22,
            Self::Airslide => 23,
            Self::Lawyer => 24,
            Self::Ping => 30,
            Self::Busy => 31,
            Self::Challenge => 32,
            Self::Accept => 33,
            Self::Deny => 34,
            Self::Start => 35,
            Self::Pause => 50,
            Self::Idiot => 51,
            Self::CondorOff => 52,
            Self::Local => 60,
            Self::Remote => 61,
            Self::CookieGood => 62,
            Self::CookieBad => 63,
            Self::Accepted => 64,
            Self::Rejected => 65,
            Self::ObeyMe => 66,
            Self::IObey => 67,
            Self::NewClient => 68,
            Self::ClientOk => 69,
            Self::ClientBad => 70,
            Self::Disconnect => 71,
            Self::Harikari => 72,
            Self::QueryCookie => 73,
            Self::QueryConnection => 74,
            Self::QueryNetworkDb => 75,
            Self::QueryPlayerDb => 76,
            Self::QueryVerify => 77,
            Self::QueryUpdate => 78,
            Self::QueryResult => 79,
            Self::ResponseCookie => 80,
            Self::ResponseVerify => 81,
            Self::ResponseDbLen => 82,
            Self::ResponseNetworkDb => 83,
            Self::ResponsePlayerDb => 84,
        }
    }

    /// Converts a raw original token value into a known token.
    #[must_use]
    pub fn from_u32(value: u32) -> (r: Option<Self>)
        ensures
            r == token_of_value(value),
    {
        match value {
            0 => Some(Self::Null),
            1 => Some(Self::Error),
            10 => Some(Self::Score),
            11 => Some(Self::OpponentScore),
            12 => Some(Self::Line),
            13 => Some(Self::Board),
            14 => Some(Self::Arsenal),
            15 => Some(Self::Funds),
            16 => Some(Self::WeaponOn),
            17 => Some(Self::WeaponLaunch),
            18 => Some(Self::WeaponOff),
            19 => Some(Self::Dead),
            20 => Some(Self::StartBazaar),
            21 => Some(Self::EndBazaar),
            22 => Some(Self::GameOver),
            23 => Some(Self::Airslide),
            24 => Some(Self::Lawyer),
            30 => Some(Self::Ping),
            31 => Some(Self::Busy),
            32 => Some(Self::Challenge),
            33 => Some(Self::Accept),
            34 => Some(Self::Deny),
            35 => Some(Self::Start),
            50 => Some(Self::Pause),
            51 => Some(Self::Idiot),
            52 => Some(Self::CondorOff),
            60 => Some(Self::Local),
            61 => Some(Self::Remote),
            62 => Some(Self::CookieGood),
            63 => Some(Self::CookieBad),
            64 => Some(Self::Accepted),
            65 => Some(Self::Rejected),
            66 => Some(Self::ObeyMe),
            67 => Some(Self::IObey),
            68 => Some(Self::NewClient),
            69 => Some(Self::ClientOk),
            70 => Some(Self::ClientBad),
            71 => Some(Self::Disconnect),
            72 => Some(Self::Harikari),
            73 => Some(Self::QueryCookie),
            74 => Some(Self::QueryConnection),
            75 => Some(Self::QueryNetworkDb),
            76 => Some(Self::QueryPlayerDb),
            77 => Some(Self::QueryVerify),
            78 => Some(Self::QueryUpdate),
            79 => Some(Self::QueryResult),
            80 => Some(Self::ResponseCookie),
            81 => Some(Self::ResponseVerify),
            82 => Some(Self::ResponseDbLen),
            83 => Some(Self::ResponseNetworkDb),
            84 => Some(Self::ResponsePlayerDb),
            _ => None,
        }
    }
}

/// One original framed packet.
#[derive(Debug, Clone, PartialEq, Eq)]
pub struct LegacyPacket {
    /// Original token value.
    pub token: LegacyToken,
    /// Packet payload bytes.
    pub payload: Vec<u8>,
}

impl LegacyPacket {
    /// Creates an empty packet for tokens without payloads.
    #[must_use]
    pub fn empty(token: LegacyToken) -> (r: Self)
        ensures
            r.token == token,
            r.payload@.len() == 0,
    {
        Self { token, payload: Vec::new() }
    }
}

/// Legacy protocol encoding, decoding, and handshake failures.
#[derive(Debug)]
pub enum LegacyError {
    /// Packet payload length exceeds [`LEGACY_MAX_PAYLOAD_LEN`].
    PayloadTooLarge {
        /// Payload length from the packet header.
        len: u32,
    },
    /// Packet token is not defined by `BTProtocol.H`.
    UnknownToken {
        /// Raw packet token.
        token: u32,
    },
    /// A fixed-size `BTNetworkEntry` payload was too short.
    EntryTooShort {
        /// Required byte count.
        expected: usize,
        /// Actual byte count.
        actual: usize,
    },
    /// A gameplay payload had an unexpected byte count.
    PayloadLengthMismatch {
        /// Payload family being decoded.
        context: &'static str,
        /// Required byte count.
        expected: usize,
        /// Actual byte count.
        actual: usize,
    },
    /// A `BT_BOARD` payload dimensions and cell count do not match.
    InvalidBoardCellCount {
        /// Expected width times height cell count.
        expected: usize,
        /// Actual cell count.
        actual: usize,
    },
    /// A `BT_ARSENAL` payload carried too many slots.
    InvalidArsenalSlotCount {
        /// Maximum accepted slot count.
        max: usize,
        /// Actual slot count.
        actual: usize,
    },
    /// A weapon token was outside the original concrete weapon range.
    InvalidWeaponToken {
        /// Invalid weapon token.
        token: u16,
    },
    /// A packet arrived out of order for the legacy handshake.
    UnexpectedToken {
        /// Expected token.
        expected: LegacyToken,
        /// Actual token.
        actual: LegacyToken,
    },
    /// The peer denied the challenge.
    ChallengeDenied,
    /// The peer reported that it was busy.
    PeerBusy,
    /// Transport I/O failed.
    Io(std::io::Error),
}

/// `std::io::Error`, carried through by [`LegacyError::Io`].
#[verifier::external_type_specification]
#[verifier::external_body]
pub struct ExIoError(std::io::Error);

/// A payload length error with the given context and counts.
pub open spec fn length_mismatch(e: LegacyError, context: &'static str, expected: int, actual: int) -> bool {
    e matches LegacyError::PayloadLengthMismatch { context: c, expected: x, actual: a } && c == context && x == expected
        && a == actual
}

fn require_len(context: &'static str, expected: usize, actual: usize) -> (r: Result<(), LegacyError>)
    ensures
        actual == expected ==> r is Ok,
        actual != expected ==> (r matches Err(e) && length_mismatch(e, context, expected as int, actual as int)),
{
    if actual == expected {
        Ok(())
    } else {
        Err(LegacyError::PayloadLengthMismatch { context, expected, actual })
    }
}

fn validate_legacy_payload_len(len: usize) -> (r: Result<(), LegacyError>)
    ensures
        len <= 65536 ==> r is Ok,
        len > 65536 ==> (r matches Err(e) && e == (LegacyError::PayloadTooLarge { len: len as u32 })),
{
    if len > LEGACY_MAX_PAYLOAD_LEN as usize {
        Err(LegacyError::PayloadTooLarge { len: len as u32 })
    } else {
        Ok(())
    }
}

/// A packet as it goes on the wire: its token and payload length, each in a native
/// `unsigned long` slot, then the payload.
pub open spec fn packet_bytes(token: LegacyToken, payload: Seq<u8>) -> Seq<u8> {
    c_ulong(token_value(token)) + c_ulong(payload.len() as u32) + payload
}

/// Frames one packet for the wire; a payload over the maximum is refused.
pub fn encode_legacy_packet(packet: &LegacyPacket) -> (r: Result<Vec<u8>, LegacyError>)
    ensures
        packet.payload@.len() > 65536 ==> (r matches Err(e) && e == (LegacyError::PayloadTooLarge {
            len: packet.payload@.len() as u32,
        })),
        packet.payload@.len() <= 65536 ==> (r matches Ok(b) && b@ == packet_bytes(packet.token, packet.payload@)),
{
    if let Err(e) = validate_legacy_payload_len(packet.payload.len()) {
        return Err(e);
    }
    let mut bytes: Vec<u8> = Vec::new();
    put_legacy_c_ulong(&mut bytes, packet.token.to_u32());
    put_legacy_c_ulong(&mut bytes, packet.payload.len() as u32);
    let ghost head = bytes@;
    let mut i: usize = 0;
    while i < packet.payload.len()
        invariant
            i <= packet.payload@.len(),
            bytes@ == head + packet.payload@.take(i as int),
        decreases packet.payload@.len() - i,
    {
        bytes.push(packet.payload[i]);
        assert(packet.payload@.take(i + 1) =~= packet.payload@.take(i as int).push(packet.payload@[i as int]));
        i = i + 1;
    }
    assert(packet.payload@.take(packet.payload@.len() as int) =~= packet.payload@);
    Ok(bytes)
}

/// Reads a packet header of two native `unsigned long` slots: a payload length over the
/// maximum is refused first, then a token the protocol does not define. Gives the token and
/// the payload length that follows.
pub fn decode_legacy_header(header: &[u8]) -> (r: Result<(LegacyToken, u32), LegacyError>)
    requires
        header@.len() >= 16,
    ensures
        be_u32(header@, 8) > 65536 ==> (r matches Err(e) && e == (LegacyError::PayloadTooLarge {
            len: be_u32(header@, 8),
        })),
        be_u32(header@, 8) <= 65536 ==> match token_of_value(be_u32(header@, 0)) {
            None => r matches Err(e) && e == (LegacyError::UnknownToken { token: be_u32(header@, 0) }),
            Some(t) => r matches Ok(p) && p == (t, be_u32(header@, 8)),
        },
{
    let token = read_u32_be(header, 0);
    let payload_len = read_u32_be(header, LEGACY_C_ULONG_LEN);
    if payload_len > LEGACY_MAX_PAYLOAD_LEN {
        return Err(LegacyError::PayloadTooLarge { len: payload_len });
    }
    match LegacyToken::from_u32(token) {
        Some(t) => Ok((t, payload_len)),
        None => Err(LegacyError::UnknownToken { token }),
    }
}

/// The payload that is exactly `value`: its two big-endian bytes.
pub open spec fn i16_be(value: i16) -> Seq<u8> {
    u16_be(value as u16)
}

/// The six big-endian 32-bit fields of a score record.
pub open spec fn score_bytes(p: LegacyScorePayload) -> Seq<u8> {
    u32_be(p.score) + u32_be(p.opponent_score) + u32_be(p.lines) + u32_be(p.opponent_lines) + u32_be(p.funds as u32)
        + u32_be(p.opponent_funds as u32)
}

/// Original full `BTScore` wire payload.
#[derive(Debug, Clone, PartialEq, Eq, Structural)]
pub struct LegacyScorePayload {
    /// Local score in the sender's `BTScore` record.
    pub score: u32,
    /// Opponent score in the sender's `BTScore` record.
    pub opponent_score: u32,
    /// Local cleared line count in the sender's `BTScore` record.
    pub lines: u32,
    /// Opponent cleared line count in the sender's `BTScore` record.
    pub opponent_lines: u32,
    /// Local spendable funds in the sender's `BTScore` record.
    pub funds: i32,
    /// Opponent spendable funds in the sender's `BTScore` record.
    pub opponent_funds: i32,
}

impl LegacyScorePayload {
    /// Encodes this score record as six big-endian 32-bit fields.
    #[must_use]
    pub fn encode(&self) -> (r: Vec<u8>)
        ensures
            r@ == score_bytes(*self),
    {
        let mut bytes: Vec<u8> = Vec::new();
        push_u32_be(&mut bytes, self.score);
        push_u32_be(&mut bytes, self.opponent_score);
        push_u32_be(&mut bytes, self.lines);
        push_u32_be(&mut bytes, self.opponent_lines);
        push_u32_be(&mut bytes, self.funds as u32);
        push_u32_be(&mut bytes, self.opponent_funds as u32);
        assert(bytes@ =~= score_bytes(*self));
        bytes
    }

    /// Decodes an original full `BTScore` wire payload.
    pub fn decode(bytes: &[u8]) -> (r: Result<Self, LegacyError>)
        ensures
            bytes@.len() != 24 ==> (r matches Err(e) && length_mismatch(e, "legacy score payload", 24, bytes@.len() as int)),
            bytes@.len() == 24 ==> (r matches Ok(p) && p == (LegacyScorePayload {
                score: be_u32(bytes@, 0),
                opponent_score: be_u32(bytes@, 4),
                lines: be_u32(bytes@, 8),
                opponent_lines: be_u32(bytes@, 12),
                funds: be_u32(bytes@, 16) as i32,
                opponent_funds: be_u32(bytes@, 20) as i32,
            })),
    {
        require_len("legacy score payload", LEGACY_SCORE_PAYLOAD_LEN, bytes.len())?;
        Ok(Self {
            score: read_u32_be(bytes, 0),
            opponent_score: read_u32_be(bytes, 4),
            lines: read_u32_be(bytes, 8),
            opponent_lines: read_u32_be(bytes, 12),
            funds: read_u32_be(bytes, 16) as i32,
            opponent_funds: read_u32_be(bytes, 20) as i32,
        })
    }
}

/// Original signed 16-bit payload used by legacy delta-style score tokens.
#[derive(Debug, Clone, Copy, PartialEq, Eq, Structural)]
pub struct LegacyShortPayload {
    /// Signed short value carried by the packet.
    pub value: i16,
}

impl LegacyShortPayload {
    /// Encodes this payload as one big-endian signed short.
    #[must_use]
    pub fn encode(&self) -> (r: Vec<u8>)
        ensures
            r@ == i16_be(self.value),
    {
        let mut bytes: Vec<u8> = Vec::new();
        push_u16_be(&mut bytes, self.value as u16);
        assert(bytes@ =~= i16_be(self.value));
        bytes
    }

    /// Decodes one big-endian signed short payload.
    pub fn decode(bytes: &[u8]) -> (r: Result<Self, LegacyError>)
        ensures
            bytes@.len() != 2 ==> (r matches Err(e) && length_mismatch(e, "legacy short payload", 2, bytes@.len() as int)),
            bytes@.len() == 2 ==> (r matches Ok(p) && p.value == be_u16(bytes@, 0) as i16),
    {
        require_len("legacy short payload", LEGACY_SHORT_PAYLOAD_LEN, bytes.len())?;
        Ok(Self { value: read_u16_be(bytes, 0) as i16 })
    }
}


/// The big-endian bytes of a sequence of 32-bit board cells.
pub open spec fn cells_bytes(cells: Seq<u32>) -> Seq<u8>
    decreases cells.len(),
{
    if cells.len() == 0 {
        Seq::empty()
    } else {
        cells_bytes(cells.drop_last()) + u32_be(cells.last())
    }
}

/// Each cell occupies four bytes, in order.
pub proof fn lemma_cells_bytes(cells: Seq<u32>)
    ensures
        cells_bytes(cells).len() == 4 * cells.len(),
        forall|k: int| 0 <= k < cells.len() ==> #[trigger] cells_bytes(cells).subrange(4 * k, 4 * k + 4) == u32_be(cells[k]),
    decreases cells.len(),
{
    if cells.len() > 0 {
        let prev = cells.drop_last();
        lemma_cells_bytes(prev);
        let b = cells_bytes(cells);
        assert forall|k: int| 0 <= k < cells.len() implies #[trigger] b.subrange(4 * k, 4 * k + 4) == u32_be(cells[k]) by {
            if k < prev.len() {
                assert(b.subrange(4 * k, 4 * k + 4) =~= cells_bytes(prev).subrange(4 * k, 4 * k + 4));
            } else {
                assert(b.subrange(4 * k, 4 * k + 4) =~= u32_be(cells.last()));
            }
        }
    }
}

/// The bytes of an original `BT_BOARD` payload.
pub open spec fn board_bytes(p: LegacyBoardPayload) -> Seq<u8> {
    u16_be(p.motivation) + u16_be(p.height) + u16_be(p.width) + cells_bytes(p.cells@)
}

fn validate_board_cell_count(width: u16, height: u16, actual: usize) -> (r: Result<(), LegacyError>)
    ensures
        actual == width * height ==> r is Ok,
        actual != width * height ==> (r matches Err(e) && e == (LegacyError::InvalidBoardCellCount {
            expected: (width * height) as usize,
            actual,
        })),
{
    assert((width as int) * (height as int) <= 0xFFFE_0001) by (nonlinear_arith)
        requires
            width <= 0xFFFF,
            height <= 0xFFFF,
    ;
    let expected = (width as usize) * (height as usize);
    if actual == expected {
        Ok(())
    } else {
        Err(LegacyError::InvalidBoardCellCount { expected, actual })
    }
}

/// Original `BT_BOARD` wire payload.
#[derive(Debug, Clone, PartialEq, Eq)]
pub struct LegacyBoardPayload {
    /// Weapon/motivation token associated with this board snapshot.
    pub motivation: u16,
    /// Board height in cells.
    pub height: u16,
    /// Board width in cells.
    pub width: u16,
    /// Row-major legacy cell IDs.
    pub cells: Vec<u32>,
}

impl LegacyBoardPayload {
    /// Builds a board payload after validating the row-major cell count.
    pub fn new(motivation: u16, height: u16, width: u16, cells: Vec<u32>) -> (r: Result<Self, LegacyError>)
        ensures
            cells@.len() != width * height ==> (r matches Err(e) && e == (LegacyError::InvalidBoardCellCount {
                expected: (width * height) as usize,
                actual: cells@.len() as usize,
            })),
            cells@.len() == width * height ==> (r matches Ok(p) && p.motivation == motivation && p.height == height
                && p.width == width && p.cells@ == cells@),
    {
        validate_board_cell_count(width, height, cells.len())?;
        Ok(Self { motivation, height, width, cells })
    }

    /// Encodes this board payload using original big-endian fields.
    pub fn encode(&self) -> (r: Result<Vec<u8>, LegacyError>)
        ensures
            self.cells@.len() != self.width * self.height ==> (r matches Err(e) && e == (
            LegacyError::InvalidBoardCellCount {
                expected: (self.width * self.height) as usize,
                actual: self.cells@.len() as usize,
            })),
            self.cells@.len() == self.width * self.height && 6 + 4 * self.cells@.len() > 65536 ==> (r matches Err(e)
                && e == (LegacyError::PayloadTooLarge { len: (6 + 4 * self.cells@.len()) as u32 })),
            self.cells@.len() == self.width * self.height && 6 + 4 * self.cells@.len() <= 65536 ==> (r matches Ok(
                bytes,
            ) && bytes@ == board_bytes(*self)),
    {
        validate_board_cell_count(self.width, self.height, self.cells.len())?;
        assert((self.width as int) * (self.height as int) <= 0xFFFE_0001) by (nonlinear_arith)
            requires
                self.width <= 0xFFFF,
                self.height <= 0xFFFF,
        ;
        let payload_len: u64 = 6 + (self.cells.len() as u64) * 4;
        if payload_len > LEGACY_MAX_PAYLOAD_LEN as u64 {
            return Err(LegacyError::PayloadTooLarge { len: payload_len as u32 });
        }
        let mut bytes: Vec<u8> = Vec::new();
        push_u16_be(&mut bytes, self.motivation);
        push_u16_be(&mut bytes, self.height);
        push_u16_be(&mut bytes, self.width);
        let ghost head = bytes@;
        let mut i: usize = 0;
        while i < self.cells.len()
            invariant
                i <= self.cells@.len(),
                bytes@ == head + cells_bytes(self.cells@.take(i as int)),
            decreases self.cells@.len() - i,
        {
            push_u32_be(&mut bytes, self.cells[i]);
            assert(self.cells@.take(i + 1).drop_last() =~= self.cells@.take(i as int));
            i = i + 1;
        }
        assert(self.cells@.take(self.cells@.len() as int) =~= self.cells@);
        assert(bytes@ =~= board_bytes(*self));
        Ok(bytes)
    }

    /// Decodes an original `BT_BOARD` wire payload.
    pub fn decode(bytes: &[u8]) -> (r: Result<Self, LegacyError>)
        requires
            bytes@.len() + 8 <= usize::MAX,
        ensures
            bytes@.len() < 6 ==> (r matches Err(e) && length_mismatch(e, "legacy board payload header", 6, bytes@.len() as int)),
            bytes@.len() >= 6 && (bytes@.len() - 6) % 4 != 0 ==> (r matches Err(e) && length_mismatch(
                e,
                "legacy board cell payload",
                6 + ((bytes@.len() - 6) / 4 + 1) * 4,
                bytes@.len() as int,
            )),
            bytes@.len() >= 6 && (bytes@.len() - 6) % 4 == 0 && (bytes@.len() - 6) / 4 != be_u16(bytes@, 4) * be_u16(
                bytes@,
                2,
            ) ==> (r matches Err(e) && e == (LegacyError::InvalidBoardCellCount {
                expected: (be_u16(bytes@, 4) * be_u16(bytes@, 2)) as usize,
                actual: ((bytes@.len() - 6) / 4) as usize,
            })),
            bytes@.len() >= 6 && (bytes@.len() - 6) % 4 == 0 && (bytes@.len() - 6) / 4 == be_u16(bytes@, 4) * be_u16(
                bytes@,
                2,
            ) ==> (r matches Ok(p) && p.motivation == be_u16(bytes@, 0) && p.height == be_u16(bytes@, 2) && p.width
                == be_u16(bytes@, 4) && p.cells@.len() == (bytes@.len() - 6) / 4 && forall|k: int|
                0 <= k < p.cells@.len() ==> #[trigger] p.cells@[k] == be_u32(bytes@, 6 + 4 * k)),
    {
        if bytes.len() < LEGACY_BOARD_PAYLOAD_HEADER_LEN {
            return Err(
                LegacyError::PayloadLengthMismatch {
                    context: "legacy board payload header",
                    expected: LEGACY_BOARD_PAYLOAD_HEADER_LEN,
                    actual: bytes.len(),
                },
            );
        }
        if (bytes.len() - LEGACY_BOARD_PAYLOAD_HEADER_LEN) % 4 != 0 {
            return Err(
                LegacyError::PayloadLengthMismatch {
                    context: "legacy board cell payload",
                    expected: LEGACY_BOARD_PAYLOAD_HEADER_LEN + ((bytes.len() - LEGACY_BOARD_PAYLOAD_HEADER_LEN) / 4 + 1)
                        * 4,
                    actual: bytes.len(),
                },
            );
        }
        let motivation = read_u16_be(bytes, 0);
        let height = read_u16_be(bytes, 2);
        let width = read_u16_be(bytes, 4);
        let cell_count = (bytes.len() - LEGACY_BOARD_PAYLOAD_HEADER_LEN) / 4;
        assert(4 * cell_count + 6 == bytes@.len());
        validate_board_cell_count(width, height, cell_count)?;
        let mut cells: Vec<u32> = Vec::new();
        let mut k: usize = 0;
        while k < cell_count
            invariant
                k <= cell_count,
                cell_count == (bytes@.len() - 6) / 4,
                4 * cell_count + 6 == bytes@.len(),
                bytes@.len() + 8 <= usize::MAX,
                (bytes@.len() - 6) % 4 == 0,
                bytes@.len() >= 6,
                cells@.len() == k,
                forall|j: int| 0 <= j < k ==> #[trigger] cells@[j] == be_u32(bytes@, 6 + 4 * j),
            decreases cell_count - k,
        {
            cells.push(read_u32_be(bytes, 6 + 4 * k));
            k = k + 1;
        }
        Ok(Self { motivation, height, width, cells })
    }
}

/// One original arsenal slot entry.
#[derive(Debug, Clone, Copy, PartialEq, Eq, Structural)]
pub struct LegacyArsenalSlot {
    /// Original `BTWeaponToken`, or [`LEGACY_NO_WEAPON_TOKEN`] for an empty slot.
    pub weapon_token: u16,
    /// Quantity stacked in the arsenal slot.
    pub quantity: u16,
}

/// Whether a token may stand in an arsenal slot: a concrete weapon or the empty-slot token.
pub open spec fn arsenal_token_ok(token: u16) -> bool {
    token <= 33 || token == 35
}

/// The first arsenal slot from `i` on whose token is not allowed, if any.
pub open spec fn first_bad_token(slots: Seq<LegacyArsenalSlot>, i: int) -> Option<u16>
    decreases slots.len() - i,
{
    if i >= slots.len() || i < 0 {
        None
    } else if !arsenal_token_ok(slots[i].weapon_token) {
        Some(slots[i].weapon_token)
    } else {
        first_bad_token(slots, i + 1)
    }
}

/// The error an arsenal slot list is rejected with, if any.
pub open spec fn arsenal_error(slots: Seq<LegacyArsenalSlot>) -> Option<LegacyError> {
    if slots.len() > 10 {
        Some(LegacyError::InvalidArsenalSlotCount { max: 10, actual: slots.len() as usize })
    } else {
        match first_bad_token(slots, 0) {
            Some(token) => Some(LegacyError::InvalidWeaponToken { token }),
            None => None,
        }
    }
}

/// The bytes of a sequence of arsenal slots: token, then quantity, per slot.
pub open spec fn slots_bytes(slots: Seq<LegacyArsenalSlot>) -> Seq<u8>
    decreases slots.len(),
{
    if slots.len() == 0 {
        Seq::empty()
    } else {
        slots_bytes(slots.drop_last()) + u16_be(slots.last().weapon_token) + u16_be(slots.last().quantity)
    }
}

/// The bytes of an original `BT_ARSENAL` payload.
pub open spec fn arsenal_bytes(slots: Seq<LegacyArsenalSlot>) -> Seq<u8> {
    u16_be(slots.len() as u16) + slots_bytes(slots)
}

/// Each slot occupies four bytes, in order.
pub proof fn lemma_slots_bytes(slots: Seq<LegacyArsenalSlot>)
    ensures
        slots_bytes(slots).len() == 4 * slots.len(),
        forall|k: int| 0 <= k < slots.len() ==> #[trigger] slots_bytes(slots).subrange(4 * k, 4 * k + 4) == u16_be(
            slots[k].weapon_token,
        ) + u16_be(slots[k].quantity),
    decreases slots.len(),
{
    if slots.len() > 0 {
        let prev = slots.drop_last();
        lemma_slots_bytes(prev);
        let b = slots_bytes(slots);
        assert forall|k: int| 0 <= k < slots.len() implies #[trigger] b.subrange(4 * k, 4 * k + 4) == u16_be(
            slots[k].weapon_token,
        ) + u16_be(slots[k].quantity) by {
            if k < prev.len() {
                assert(b.subrange(4 * k, 4 * k + 4) =~= slots_bytes(prev).subrange(4 * k, 4 * k + 4));
            } else {
                assert(b.subrange(4 * k, 4 * k + 4) =~= u16_be(slots.last().weapon_token) + u16_be(slots.last().quantity));
            }
        }
    }
}

fn validate_arsenal_slots(slots: &Vec<LegacyArsenalSlot>) -> (r: Result<(), LegacyError>)
    ensures
        arsenal_error(slots@) is None ==> r is Ok,
        arsenal_error(slots@) matches Some(e) ==> (r matches Err(x) && x == e),
{
    if slots.len() > LEGACY_ARSENAL_SIZE {
        return Err(LegacyError::InvalidArsenalSlotCount { max: LEGACY_ARSENAL_SIZE, actual: slots.len() });
    }
    let mut i: usize = 0;
    while i < slots.len()
        invariant
            i <= slots@.len() <= 10,
            first_bad_token(slots@, 0) == first_bad_token(slots@, i as int),
        decreases slots@.len() - i,
    {
        let token = slots[i].weapon_token;
        if !(token <= LEGACY_LAST_WEAPON_TOKEN || token == LEGACY_NO_WEAPON_TOKEN) {
            assert(first_bad_token(slots@, i as int) == Some(token));
            return Err(LegacyError::InvalidWeaponToken { token });
        }
        i = i + 1;
    }
    Ok(())
}

/// Original `BT_ARSENAL` wire payload.
#[derive(Debug, Clone, PartialEq, Eq)]
pub struct LegacyArsenalPayload {
    /// Ordered arsenal slots.
    pub slots: Vec<LegacyArsenalSlot>,
}

impl LegacyArsenalPayload {
    /// Builds an arsenal payload after validating slot count and weapon tokens.
    pub fn new(slots: Vec<LegacyArsenalSlot>) -> (r: Result<Self, LegacyError>)
        ensures
            arsenal_error(slots@) is None ==> (r matches Ok(p) && p.slots@ == slots@),
            arsenal_error(slots@) matches Some(e) ==> (r matches Err(x) && x == e),
    {
        validate_arsenal_slots(&slots)?;
        Ok(Self { slots })
    }

    /// Encodes this arsenal payload using original big-endian fields.
    pub fn encode(&self) -> (r: Result<Vec<u8>, LegacyError>)
        ensures
            arsenal_error(self.slots@) is None ==> (r matches Ok(bytes) && bytes@ == arsenal_bytes(self.slots@)),
            arsenal_error(self.slots@) matches Some(e) ==> (r matches Err(x) && x == e),
    {
        validate_arsenal_slots(&self.slots)?;
        let mut bytes: Vec<u8> = Vec::new();
        push_u16_be(&mut bytes, self.slots.len() as u16);
        let ghost head = bytes@;
        let mut i: usize = 0;
        while i < self.slots.len()
            invariant
                i <= self.slots@.len(),
                bytes@ == head + slots_bytes(self.slots@.take(i as int)),
            decreases self.slots@.len() - i,
        {
            push_u16_be(&mut bytes, self.slots[i].weapon_token);
            push_u16_be(&mut bytes, self.slots[i].quantity);
            assert(self.slots@.take(i + 1).drop_last() =~= self.slots@.take(i as int));
            i = i + 1;
        }
        assert(self.slots@.take(self.slots@.len() as int) =~= self.slots@);
        assert(bytes@ =~= arsenal_bytes(self.slots@));
        Ok(bytes)
    }

    /// Decodes an original `BT_ARSENAL` wire payload.
    pub fn decode(bytes: &[u8]) -> (r: Result<Self, LegacyError>)
        ensures
            bytes@.len() < 2 ==> (r matches Err(e) && length_mismatch(e, "legacy arsenal slot count", 2, bytes@.len() as int)),
            bytes@.len() >= 2 && be_u16(bytes@, 0) > 10 ==> (r matches Err(e) && e == (
            LegacyError::InvalidArsenalSlotCount { max: 10, actual: be_u16(bytes@, 0) as usize })),
            bytes@.len() >= 2 && be_u16(bytes@, 0) <= 10 && bytes@.len() != 2 + 4 * be_u16(bytes@, 0) ==> (r matches Err(e)
                && length_mismatch(e, "legacy arsenal payload", 2 + 4 * be_u16(bytes@, 0), bytes@.len() as int)),
            bytes@.len() >= 2 && be_u16(bytes@, 0) <= 10 && bytes@.len() == 2 + 4 * be_u16(bytes@, 0) ==> ({
                let slots = Seq::new(
                    be_u16(bytes@, 0) as nat,
                    |k: int| LegacyArsenalSlot { weapon_token: be_u16(bytes@, 2 + 4 * k), quantity: be_u16(bytes@, 4 + 4 * k) },
                );
                &&& arsenal_error(slots) is None ==> (r matches Ok(p) && p.slots@ == slots)
                &&& arsenal_error(slots) matches Some(e) ==> (r matches Err(x) && x == e)
            }),
    {
        if bytes.len() < 2 {
            return Err(LegacyError::PayloadLengthMismatch { context: "legacy arsenal slot count", expected: 2, actual: bytes.len() });
        }
        let slot_count = read_u16_be(bytes, 0) as usize;
        if slot_count > LEGACY_ARSENAL_SIZE {
            return Err(LegacyError::InvalidArsenalSlotCount { max: LEGACY_ARSENAL_SIZE, actual: slot_count });
        }
        let expected_len = 2 + slot_count * 4;
        require_len("legacy arsenal payload", expected_len, bytes.len())?;
        let ghost want = Seq::new(
            slot_count as nat,
            |k: int| LegacyArsenalSlot { weapon_token: be_u16(bytes@, 2 + 4 * k), quantity: be_u16(bytes@, 4 + 4 * k) },
        );
        let mut slots: Vec<LegacyArsenalSlot> = Vec::new();
        let mut k: usize = 0;
        while k < slot_count
            invariant
                k <= slot_count <= 10,
                bytes@.len() == 2 + 4 * slot_count,
                want == Seq::new(
                    slot_count as nat,
                    |k: int| LegacyArsenalSlot { weapon_token: be_u16(bytes@, 2 + 4 * k), quantity: be_u16(bytes@, 4 + 4 * k) },
                ),
                slots@ == want.take(k as int),
            decreases slot_count - k,
        {
            let slot = LegacyArsenalSlot { weapon_token: read_u16_be(bytes, 2 + 4 * k), quantity: read_u16_be(bytes, 4 + 4 * k) };
            slots.push(slot);
            assert(want.take(k + 1) =~= want.take(k as int).push(want[k as int]));
            k = k + 1;
        }
        assert(want.take(slot_count as int) =~= want);
        validate_arsenal_slots(&slots)?;
        Ok(Self { slots })
    }
}

/// Original one-weapon-token wire payload.
#[derive(Debug, Clone, Copy, PartialEq, Eq, Structural)]
pub struct LegacyWeaponPayload {
    /// Original concrete `BTWeaponToken` value.
    pub weapon_token: u16,
}

impl LegacyWeaponPayload {
    /// Builds a weapon payload after validating the concrete token range.
    pub fn new(weapon_token: u16) -> (r: Result<Self, LegacyError>)
        ensures
            weapon_token <= 33 ==> (r matches Ok(p) && p.weapon_token == weapon_token),
            weapon_token > 33 ==> (r matches Err(e) && e == (LegacyError::InvalidWeaponToken { token: weapon_token })),
    {
        if weapon_token <= LEGACY_LAST_WEAPON_TOKEN {
            Ok(Self { weapon_token })
        } else {
            Err(LegacyError::InvalidWeaponToken { token: weapon_token })
        }
    }

    /// Encodes this payload as one big-endian unsigned short.
    #[must_use]
    pub fn encode(&self) -> (r: Vec<u8>)
        ensures
            r@ == u16_be(self.weapon_token),
    {
        let mut bytes: Vec<u8> = Vec::new();
        push_u16_be(&mut bytes, self.weapon_token);
        assert(bytes@ =~= u16_be(self.weapon_token));
        bytes
    }

    /// Decodes one big-endian concrete weapon token payload.
    pub fn decode(bytes: &[u8]) -> (r: Result<Self, LegacyError>)
        ensures
            bytes@.len() != 2 ==> (r matches Err(e) && length_mismatch(e, "legacy weapon payload", 2, bytes@.len() as int)),
            bytes@.len() == 2 && be_u16(bytes@, 0) <= 33 ==> (r matches Ok(p) && p.weapon_token == be_u16(bytes@, 0)),
            bytes@.len() == 2 && be_u16(bytes@, 0) > 33 ==> (r matches Err(e) && e == (LegacyError::InvalidWeaponToken {
                token: be_u16(bytes@, 0),
            })),
    {
        require_len("legacy weapon payload", 2, bytes.len())?;
        Self::new(read_u16_be(bytes, 0))
    }
}

/// Validates the empty payload used by legacy pause, Bazaar, and terminal packets.
pub fn validate_legacy_empty_payload(bytes: &[u8]) -> (r: Result<(), LegacyError>)
    ensures
        bytes@.len() == 0 ==> r is Ok,
        bytes@.len() != 0 ==> (r matches Err(e) && length_mismatch(e, "legacy empty payload", 0, bytes@.len() as int)),
{
    require_len("legacy empty payload", 0, bytes.len())
}


/// Index of the first NUL byte of `b` at or after `i`, or the length when there is none.
pub open spec fn nul_index(b: Seq<u8>, i: int) -> int
    decreases b.len() - i,
{
    if i < 0 || i >= b.len() {
        b.len() as int
    } else if b[i] == 0 {
        i
    } else {
        nul_index(b, i + 1)
    }
}

/// The bytes of a fixed C-string field before its first NUL.
pub open spec fn c_string(field: Seq<u8>) -> Seq<u8> {
    field.take(nul_index(field, 0))
}

/// A string's bytes in a fixed field of `len` bytes: truncated to leave room for a NUL, then NUL padded.
pub open spec fn fixed_c(bytes: Seq<u8>, len: nat) -> Seq<u8> {
    let n: int = if bytes.len() < len - 1 { bytes.len() as int } else { len - 1 };
    bytes.take(n) + Seq::new((len - n) as nat, |i: int| 0u8)
}

/// A 32-bit value in a native 64-bit `unsigned long` slot: four big-endian bytes, then four zero bytes.
pub open spec fn c_ulong(x: u32) -> Seq<u8> {
    u32_be(x) + seq![0u8, 0u8, 0u8, 0u8]
}

/// The bytes of an original `BTNetworkEntry` record.
pub open spec fn entry_bytes(e: LegacyNetworkEntry) -> Seq<u8> {
    fixed_c(encode_utf8(e.key@), 281) + fixed_c(encode_utf8(e.user_name@), 264) + fixed_c(encode_utf8(e.host_name@), 256)
        + c_ulong(e.timestamp) + c_ulong(e.pid) + c_ulong(e.addrnet) + c_ulong(e.addrlna) + u16_be(e.port) + u16_be(
        e.max_weapon,
    ) + u16_be(e.major) + u16_be(e.minor) + u16_be(status_code(e.status))
}

/// A string field read from `b[start..start + len]`: its text is the UTF-8 decoding of the bytes
/// before the first NUL, whenever those bytes are valid UTF-8.
pub open spec fn string_field(b: Seq<u8>, start: int, len: int, s: Seq<char>) -> bool {
    valid_utf8(c_string(b.subrange(start, start + len))) ==> s == decode_utf8(c_string(b.subrange(start, start + len)))
}

/// The fields of a network entry as read from a record of at least the 32-bit length.
/// Records of the full length use 8-byte longs, shorter ones 4-byte longs.
pub open spec fn entry_read(b: Seq<u8>, e: LegacyNetworkEntry) -> bool {
    let l: int = if b.len() >= 843 { 8 } else { 4 };
    &&& string_field(b, 0, 281, e.key@)
    &&& string_field(b, 281, 264, e.user_name@)
    &&& string_field(b, 545, 256, e.host_name@)
    &&& e.timestamp == be_u32(b, 801)
    &&& e.pid == be_u32(b, 801 + l)
    &&& e.addrnet == be_u32(b, 801 + 2 * l)
    &&& e.addrlna == be_u32(b, 801 + 3 * l)
    &&& e.port == be_u16(b, 801 + 4 * l)
    &&& e.max_weapon == be_u16(b, 803 + 4 * l)
    &&& e.major == be_u16(b, 805 + 4 * l)
    &&& e.minor == be_u16(b, 807 + 4 * l)
    &&& e.status == status_of_code(be_u16(b, 809 + 4 * l))
}

/// The dotted-decimal text of an IPv4 address.
pub open spec fn dotted_quad(ip: [u8; 4]) -> Seq<char> {
    decimal(ip[0] as nat) + seq!['.'] + decimal(ip[1] as nat) + seq!['.'] + decimal(ip[2] as nat) + seq!['.'] + decimal(
        ip[3] as nat,
    )
}

/// The classful network and local-host parts of an IPv4 address (`inet_netof`, `inet_lnaof`).
pub open spec fn inet_parts(ip: [u8; 4]) -> (u32, u32) {
    if ip[0] < 128 {
        (ip[0] as u32, (ip[1] * 0x1_0000 + ip[2] * 256 + ip[3]) as u32)
    } else if ip[0] < 192 {
        ((ip[0] * 256 + ip[1]) as u32, (ip[2] * 256 + ip[3]) as u32)
    } else {
        ((ip[0] * 0x1_0000 + ip[1] * 256 + ip[2]) as u32, ip[3] as u32)
    }
}

/// The text `String::from_utf8_lossy` makes of a byte string: a function of the bytes
/// alone, with each invalid sequence replaced by U+FFFD.
pub uninterp spec fn lossy_text(bytes: Seq<u8>) -> Seq<char>;

/// `String::from_utf8_lossy`: the text of UTF-8 bytes, with invalid sequences replaced.
/// Claimed: the text is determined by the bytes (`lossy_text`), and valid UTF-8 bytes
/// decode to exactly the characters they encode. What replaces invalid bytes is not
/// spelled out beyond that name.
#[verifier::external_body]
fn utf8_lossy(bytes: &[u8]) -> (r: String)
    ensures
        r@ == lossy_text(bytes@),
        valid_utf8(bytes@) ==> r@ == decode_utf8(bytes@),
{
    String::from_utf8_lossy(bytes).into_owned()
}

fn put_fixed_c_string(bytes: &mut Vec<u8>, value: &String, len: usize)
    requires
        len >= 1,
    ensures
        final(bytes)@ == old(bytes)@ + fixed_c(encode_utf8(value@), len as nat),
{
    let source = value.as_str().as_bytes();
    let ghost src = source@;
    assert(src == encode_utf8(value@));
    let copy_len = if source.len() < len - 1 { source.len() } else { len - 1 };
    let ghost start = bytes@;
    let ghost want = fixed_c(src, len as nat);
    assert(want.len() == len);
    let mut i: usize = 0;
    while i < len
        invariant
            i <= len,
            len >= 1,
            copy_len <= src.len(),
            copy_len == if src.len() < len - 1 { src.len() as int } else { len - 1 },
            src == source@,
            want == fixed_c(src, len as nat),
            want.len() == len,
            bytes@ == start + want.take(i as int),
        decreases len - i,
    {
        if i < copy_len {
            bytes.push(source[i]);
        } else {
            bytes.push(0);
        }
        assert(want.take(i + 1) =~= want.take(i as int).push(want[i as int]));
        i = i + 1;
    }
    assert(want.take(len as int) =~= want);
}

fn put_legacy_c_ulong(bytes: &mut Vec<u8>, value: u32)
    ensures
        final(bytes)@ == old(bytes)@ + c_ulong(value),
{
    push_u32_be(bytes, value);
    bytes.push(0);
    bytes.push(0);
    bytes.push(0);
    bytes.push(0);
    assert(final(bytes)@ =~= old(bytes)@ + c_ulong(value));
}

fn read_fixed_c_string(bytes: &[u8], offset: usize, len: usize) -> (r: String)
    requires
        offset + len <= bytes@.len(),
    ensures
        string_field(bytes@, offset as int, len as int, r@),
{
    let ghost field = bytes@.subrange(offset as int, offset + len);
    let total = bytes.len();
    let mut end: usize = 0;
    while end < len && bytes[offset + end] != 0
        invariant
            end <= len,
            offset + len <= bytes@.len(),
            total == bytes@.len(),
            field == bytes@.subrange(offset as int, offset + len),
            nul_index(field, 0) == nul_index(field, end as int),
        decreases len - end,
    {
        end = end + 1;
    }
    assert(nul_index(field, end as int) == end);
    let mut prefix: Vec<u8> = Vec::new();
    let mut i: usize = 0;
    while i < end
        invariant
            i <= end <= len,
            offset + len <= bytes@.len(),
            total == bytes@.len(),
            field == bytes@.subrange(offset as int, offset + len),
            prefix@ == field.take(i as int),
        decreases end - i,
    {
        prefix.push(bytes[offset + i]);
        assert(field.take(i + 1) =~= field.take(i as int).push(field[i as int]));
        i = i + 1;
    }
    utf8_lossy(prefix.as_slice())
}

fn inet_net_lna(ip: [u8; 4]) -> (r: (u32, u32))
    ensures
        r == inet_parts(ip),
{
    let a = ip[0] as u32;
    let b = ip[1] as u32;
    let c = ip[2] as u32;
    let d = ip[3] as u32;
    if ip[0] < 128 {
        (a, b * 0x1_0000 + c * 256 + d)
    } else if ip[0] < 192 {
        (a * 256 + b, c * 256 + d)
    } else {
        (a * 0x1_0000 + b * 256 + c, d)
    }
}

/// Original direct-challenge identity payload.
#[derive(Debug, Clone, PartialEq, Eq)]
pub struct LegacyNetworkEntry {
    /// DB key bytes decoded as a C string.
    pub key: String,
    /// Player/user name.
    pub user_name: String,
    /// Host name or address string.
    pub host_name: String,
    /// Unix timestamp seconds.
    pub timestamp: u32,
    /// Sender process id.
    pub pid: u32,
    /// Classful IPv4 network portion from `inet_netof`.
    pub addrnet: u32,
    /// Classful IPv4 local-host portion from `inet_lnaof`.
    pub addrlna: u32,
    /// Listening TCP port.
    pub port: u16,
    /// Highest legacy weapon token advertised by the peer.
    pub max_weapon: u16,
    /// Legacy protocol major version.
    pub major: u16,
    /// Legacy protocol minor version.
    pub minor: u16,
    /// Legacy availability status.
    pub status: LegacyNetworkStatus,
}

impl LegacyNetworkEntry {
    /// Builds a waiting entry for direct manual-IP legacy challenges shared at
    /// the IPv4 address `ip` and `port`.
    #[must_use]
    pub fn waiting(identity: PlayerIdentity, ip: [u8; 4], port: u16, pid: u32, timestamp: u32) -> (r: Self)
        ensures
            r.user_name@ == identity.display_name@,
            r.host_name@ == dotted_quad(ip),
            r.key@ == identity.display_name@ + dotted_quad(ip) + decimal(port as nat),
            r.timestamp == timestamp,
            r.pid == pid,
            r.addrnet == inet_parts(ip).0,
            r.addrlna == inet_parts(ip).1,
            r.port == port,
            r.max_weapon == 34,
            r.major == 1,
            r.minor == 0,
            r.status == LegacyNetworkStatus::Waiting,
    {
        let (addrnet, addrlna) = inet_net_lna(ip);
        let mut host_name = String::new();
        proof {
            reveal_strlit(".");
        }
        push_decimal(&mut host_name, ip[0] as u64);
        host_name.append(".");
        push_decimal(&mut host_name, ip[1] as u64);
        host_name.append(".");
        push_decimal(&mut host_name, ip[2] as u64);
        host_name.append(".");
        push_decimal(&mut host_name, ip[3] as u64);
        assert(host_name@ =~= dotted_quad(ip));
        let user_name = identity.display_name;
        let mut key = user_name.clone();
        key.append(host_name.as_str());
        push_decimal(&mut key, port as u64);
        Self {
            key,
            user_name,
            host_name,
            timestamp,
            pid,
            addrnet,
            addrlna,
            port,
            max_weapon: LEGACY_MAX_WEAPONS,
            major: LEGACY_MAJOR_VERSION,
            minor: LEGACY_MINOR_VERSION,
            status: LegacyNetworkStatus::Waiting,
        }
    }

    /// Encodes the record with the original fixed C-string sizes and big-endian numbers.
    #[must_use]
    pub fn encode(&self) -> (r: Vec<u8>)
        ensures
            r@ == entry_bytes(*self),
    {
        let mut bytes: Vec<u8> = Vec::new();
        put_fixed_c_string(&mut bytes, &self.key, LEGACY_DB_KEY_LEN);
        put_fixed_c_string(&mut bytes, &self.user_name, LEGACY_USERNAME_LEN);
        put_fixed_c_string(&mut bytes, &self.host_name, LEGACY_HOSTNAME_LEN);
        put_legacy_c_ulong(&mut bytes, self.timestamp);
        put_legacy_c_ulong(&mut bytes, self.pid);
        put_legacy_c_ulong(&mut bytes, self.addrnet);
        put_legacy_c_ulong(&mut bytes, self.addrlna);
        push_u16_be(&mut bytes, self.port);
        push_u16_be(&mut bytes, self.max_weapon);
        push_u16_be(&mut bytes, self.major);
        push_u16_be(&mut bytes, self.minor);
        push_u16_be(&mut bytes, self.status.to_u16());
        assert(bytes@ =~= entry_bytes(*self));
        bytes
    }

    /// Decodes a full original `BTNetworkEntry` record.
    pub fn decode(bytes: &[u8]) -> (r: Result<Self, LegacyError>)
        ensures
            bytes@.len() < 827 ==> (r matches Err(e) && e == (LegacyError::EntryTooShort {
                expected: 827,
                actual: bytes@.len() as usize,
            })),
            bytes@.len() >= 827 ==> (r matches Ok(e) && entry_read(bytes@, e)),
    {
        if bytes.len() < LEGACY_NETWORK_ENTRY_LEN_32 {
            return Err(LegacyError::EntryTooShort { expected: LEGACY_NETWORK_ENTRY_LEN_32, actual: bytes.len() });
        }
        let long_len: usize = if bytes.len() >= LEGACY_NETWORK_ENTRY_LEN { LEGACY_C_ULONG_LEN } else { 4 };
        let key = read_fixed_c_string(bytes, 0, LEGACY_DB_KEY_LEN);
        let user_name = read_fixed_c_string(bytes, 281, LEGACY_USERNAME_LEN);
        let host_name = read_fixed_c_string(bytes, 545, LEGACY_HOSTNAME_LEN);
        let timestamp = read_u32_be(bytes, 801);
        let pid = read_u32_be(bytes, 801 + long_len);
        let addrnet = read_u32_be(bytes, 801 + 2 * long_len);
        let addrlna = read_u32_be(bytes, 801 + 3 * long_len);
        let port = read_u16_be(bytes, 801 + 4 * long_len);
        let max_weapon = read_u16_be(bytes, 803 + 4 * long_len);
        let major = read_u16_be(bytes, 805 + 4 * long_len);
        let minor = read_u16_be(bytes, 807 + 4 * long_len);
        let status = LegacyNetworkStatus::from_u16(read_u16_be(bytes, 809 + 4 * long_len));
        Ok(Self { key, user_name, host_name, timestamp, pid, addrnet, addrlna, port, max_weapon, major, minor, status })
    }
}


/// A handshake step that must see one token: any other is refused as out of order.
pub fn expect_legacy_token(packet: &LegacyPacket, expected: LegacyToken) -> (r: Result<(), LegacyError>)
    ensures
        packet.token == expected ==> r is Ok,
        packet.token != expected ==> (r matches Err(e) && e == (LegacyError::UnexpectedToken {
            expected,
            actual: packet.token,
        })),
{
    if packet.token == expected {
        Ok(())
    } else {
        Err(LegacyError::UnexpectedToken { expected, actual: packet.token })
    }
}

/// The first packet a legacy host receives must be a challenge carrying the challenger's
/// network entry.
pub fn challenge_entry(packet: &LegacyPacket) -> (r: Result<LegacyNetworkEntry, LegacyError>)
    ensures
        packet.token != LegacyToken::Challenge ==> (r matches Err(e) && e == (LegacyError::UnexpectedToken {
            expected: LegacyToken::Challenge,
            actual: packet.token,
        })),
        packet.token == LegacyToken::Challenge && packet.payload@.len() < 827 ==> (r matches Err(e) && e
            == (LegacyError::EntryTooShort { expected: 827, actual: packet.payload@.len() as usize })),
        packet.token == LegacyToken::Challenge && packet.payload@.len() >= 827 ==> (r matches Ok(e) && entry_read(
            packet.payload@,
            e,
        )),
{
    if let Err(e) = expect_legacy_token(packet, LegacyToken::Challenge) {
        return Err(e);
    }
    LegacyNetworkEntry::decode(packet.payload.as_slice())
}

/// A legacy challenger's answer from the host: accepted goes on; a denial or a busy host ends
/// the join; anything else is out of order.
pub fn join_reply(packet: &LegacyPacket) -> (r: Result<(), LegacyError>)
    ensures
        packet.token == LegacyToken::Accept ==> r is Ok,
        packet.token == LegacyToken::Deny ==> (r matches Err(e) && e == LegacyError::ChallengeDenied),
        packet.token == LegacyToken::Busy ==> (r matches Err(e) && e == LegacyError::PeerBusy),
        packet.token != LegacyToken::Accept && packet.token != LegacyToken::Deny && packet.token != LegacyToken::Busy
            ==> (r matches Err(e) && e == (LegacyError::UnexpectedToken {
            expected: LegacyToken::Accept,
            actual: packet.token,
        })),
{
    match packet.token {
        LegacyToken::Accept => Ok(()),
        LegacyToken::Deny => Err(LegacyError::ChallengeDenied),
        LegacyToken::Busy => Err(LegacyError::PeerBusy),
        actual => Err(LegacyError::UnexpectedToken { expected: LegacyToken::Accept, actual }),
    }
}

/// Reading `b` at `i` sees the `u32` whose bytes stand there.
proof fn lemma_read_u32_at(b: Seq<u8>, i: int, x: u32)
    requires
        0 <= i,
        i + 4 <= b.len(),
        b.subrange(i, i + 4) == u32_be(x),
    ensures
        be_u32(b, i) == x,
{
    lemma_u32_round_trip(x);
    assert(b[i] == u32_be(x)[0] && b[i + 1] == u32_be(x)[1] && b[i + 2] == u32_be(x)[2] && b[i + 3] == u32_be(x)[3]);
}

/// Reading `b` at `i` sees the `u16` whose bytes stand there.
proof fn lemma_read_u16_at(b: Seq<u8>, i: int, x: u16)
    requires
        0 <= i,
        i + 2 <= b.len(),
        b.subrange(i, i + 2) == u16_be(x),
    ensures
        be_u16(b, i) == x,
{
    lemma_u16_round_trip(x);
    assert(b[i] == u16_be(x)[0] && b[i + 1] == u16_be(x)[1]);
}

/// Decoding an encoded score record gives back every field.
pub proof fn lemma_score_round_trip(p: LegacyScorePayload)
    ensures
        score_bytes(p).len() == 24,
        be_u32(score_bytes(p), 0) == p.score,
        be_u32(score_bytes(p), 4) == p.opponent_score,
        be_u32(score_bytes(p), 8) == p.lines,
        be_u32(score_bytes(p), 12) == p.opponent_lines,
        be_u32(score_bytes(p), 16) as i32 == p.funds,
        be_u32(score_bytes(p), 20) as i32 == p.opponent_funds,
{
    let b = score_bytes(p);
    lemma_u32_round_trip(p.score);
    lemma_u32_round_trip(p.opponent_score);
    lemma_u32_round_trip(p.lines);
    lemma_u32_round_trip(p.opponent_lines);
    lemma_u32_round_trip(p.funds as u32);
    lemma_u32_round_trip(p.opponent_funds as u32);
    assert(b.subrange(0, 4) =~= u32_be(p.score));
    assert(b.subrange(4, 8) =~= u32_be(p.opponent_score));
    assert(b.subrange(8, 12) =~= u32_be(p.lines));
    assert(b.subrange(12, 16) =~= u32_be(p.opponent_lines));
    assert(b.subrange(16, 20) =~= u32_be(p.funds as u32));
    assert(b.subrange(20, 24) =~= u32_be(p.opponent_funds as u32));
    lemma_read_u32_at(b, 0, p.score);
    lemma_read_u32_at(b, 4, p.opponent_score);
    lemma_read_u32_at(b, 8, p.lines);
    lemma_read_u32_at(b, 12, p.opponent_lines);
    lemma_read_u32_at(b, 16, p.funds as u32);
    lemma_read_u32_at(b, 20, p.opponent_funds as u32);
    let f = p.funds;
    let g = p.opponent_funds;
    assert((f as u32) as i32 == f) by (bit_vector);
    assert((g as u32) as i32 == g) by (bit_vector);
}

/// Decoding an encoded signed short gives back the value.
pub proof fn lemma_short_round_trip(value: i16)
    ensures
        i16_be(value).len() == 2,
        be_u16(i16_be(value), 0) as i16 == value,
{
    lemma_u16_round_trip(value as u16);
    assert((value as u16) as i16 == value) by (bit_vector);
}

/// Decoding an encoded board payload whose cell count matches its dimensions gives back
/// its header fields and every cell.
pub proof fn lemma_board_round_trip(p: LegacyBoardPayload)
    requires
        p.cells@.len() == p.width * p.height,
    ensures
        board_bytes(p).len() == 6 + 4 * p.cells@.len(),
        be_u16(board_bytes(p), 0) == p.motivation,
        be_u16(board_bytes(p), 2) == p.height,
        be_u16(board_bytes(p), 4) == p.width,
        forall|k: int| 0 <= k < p.cells@.len() ==> #[trigger] be_u32(board_bytes(p), 6 + 4 * k) == p.cells@[k],
{
    let b = board_bytes(p);
    let c = cells_bytes(p.cells@);
    lemma_cells_bytes(p.cells@);
    assert(b.subrange(0, 2) =~= u16_be(p.motivation));
    assert(b.subrange(2, 4) =~= u16_be(p.height));
    assert(b.subrange(4, 6) =~= u16_be(p.width));
    lemma_read_u16_at(b, 0, p.motivation);
    lemma_read_u16_at(b, 2, p.height);
    lemma_read_u16_at(b, 4, p.width);
    assert forall|k: int| 0 <= k < p.cells@.len() implies #[trigger] be_u32(b, 6 + 4 * k) == p.cells@[k] by {
        assert(c.subrange(4 * k, 4 * k + 4) == u32_be(p.cells@[k]));
        assert(b.subrange(6 + 4 * k, 6 + 4 * k + 4) =~= c.subrange(4 * k, 4 * k + 4));
        lemma_read_u32_at(b, 6 + 4 * k, p.cells@[k]);
    }
}

/// Decoding an encoded arsenal gives back its slots.
pub proof fn lemma_arsenal_round_trip(slots: Seq<LegacyArsenalSlot>)
    requires
        slots.len() <= 10,
    ensures
        arsenal_bytes(slots).len() == 2 + 4 * slots.len(),
        be_u16(arsenal_bytes(slots), 0) == slots.len(),
        forall|k: int|
            0 <= k < slots.len() ==> #[trigger] slots[k] == (LegacyArsenalSlot {
                weapon_token: be_u16(arsenal_bytes(slots), 2 + 4 * k),
                quantity: be_u16(arsenal_bytes(slots), 4 + 4 * k),
            }),
{
    let b = arsenal_bytes(slots);
    let c = slots_bytes(slots);
    lemma_slots_bytes(slots);
    assert(b.subrange(0, 2) =~= u16_be(slots.len() as u16));
    lemma_read_u16_at(b, 0, slots.len() as u16);
    assert forall|k: int| 0 <= k < slots.len() implies #[trigger] slots[k] == (LegacyArsenalSlot {
        weapon_token: be_u16(b, 2 + 4 * k),
        quantity: be_u16(b, 4 + 4 * k),
    }) by {
        let pair = u16_be(slots[k].weapon_token) + u16_be(slots[k].quantity);
        assert(c.subrange(4 * k, 4 * k + 4) == pair);
        let w = b.subrange(2 + 4 * k, 6 + 4 * k);
        assert(w =~= c.subrange(4 * k, 4 * k + 4));
        assert(w =~= pair);
        assert(b.subrange(2 + 4 * k, 4 + 4 * k) =~= w.subrange(0, 2));
        assert(b.subrange(4 + 4 * k, 6 + 4 * k) =~= w.subrange(2, 4));
        assert(pair.subrange(0, 2) =~= u16_be(slots[k].weapon_token));
        assert(pair.subrange(2, 4) =~= u16_be(slots[k].quantity));
        lemma_read_u16_at(b, 2 + 4 * k, slots[k].weapon_token);
        lemma_read_u16_at(b, 4 + 4 * k, slots[k].quantity);
    }
}


/// Two network entries agree field by field, their strings by text.
pub open spec fn same_entry(a: LegacyNetworkEntry, b: LegacyNetworkEntry) -> bool {
    &&& a.key@ == b.key@
    &&& a.user_name@ == b.user_name@
    &&& a.host_name@ == b.host_name@
    &&& a.timestamp == b.timestamp
    &&& a.pid == b.pid
    &&& a.addrnet == b.addrnet
    &&& a.addrlna == b.addrlna
    &&& a.port == b.port
    &&& a.max_weapon == b.max_weapon
    &&& a.major == b.major
    &&& a.minor == b.minor
    &&& a.status == b.status
}

/// A text fits a fixed C-string field of `len` bytes: its UTF-8 bytes leave room for the
/// terminating NUL and hold no NUL of their own.
pub open spec fn fits_field(s: Seq<char>, len: nat) -> bool {
    &&& encode_utf8(s).len() < len
    &&& forall|i: int| 0 <= i < encode_utf8(s).len() ==> #[trigger] encode_utf8(s)[i] != 0
}

/// In bytes without NUL followed by NUL padding, the first NUL from `i` on is where the padding starts.
proof fn lemma_nul_at_padding(bytes: Seq<u8>, pad: nat, i: int)
    requires
        0 <= i <= bytes.len(),
        pad > 0,
        forall|j: int| 0 <= j < bytes.len() ==> #[trigger] bytes[j] != 0,
    ensures
        nul_index(bytes + Seq::new(pad, |k: int| 0u8), i) == bytes.len(),
    decreases bytes.len() - i,
{
    let f = bytes + Seq::new(pad, |k: int| 0u8);
    if i < bytes.len() {
        assert(f[i] == bytes[i]);
        lemma_nul_at_padding(bytes, pad, i + 1);
    } else {
        assert(f[i] == 0);
    }
}

/// A text that fits its field is read back from it unchanged.
proof fn lemma_field_round_trip(s: Seq<char>, len: nat)
    requires
        fits_field(s, len),
    ensures
        fixed_c(encode_utf8(s), len).len() == len,
        valid_utf8(c_string(fixed_c(encode_utf8(s), len))),
        decode_utf8(c_string(fixed_c(encode_utf8(s), len))) == s,
{
    let b = encode_utf8(s);
    let pad = (len - b.len()) as nat;
    assert(b.take(b.len() as int) =~= b);
    assert(fixed_c(b, len) =~= b + Seq::new(pad, |k: int| 0u8));
    lemma_nul_at_padding(b, pad, 0);
    assert(c_string(fixed_c(b, len)) =~= b);
    vstd::utf8::encode_utf8_valid_utf8(s);
    vstd::utf8::encode_utf8_decode_utf8(s);
}

/// Decoding an encoded network entry whose strings fit their fields gives back the entry:
/// the record is the full 64-bit length and every reading of it agrees with the entry.
pub proof fn lemma_entry_round_trip(e: LegacyNetworkEntry)
    requires
        fits_field(e.key@, 281),
        fits_field(e.user_name@, 264),
        fits_field(e.host_name@, 256),
    ensures
        entry_bytes(e).len() == 843,
        forall|d: LegacyNetworkEntry| #[trigger] entry_read(entry_bytes(e), d) ==> same_entry(d, e),
{
    let b = entry_bytes(e);
    let k = fixed_c(encode_utf8(e.key@), 281);
    let u = fixed_c(encode_utf8(e.user_name@), 264);
    let h = fixed_c(encode_utf8(e.host_name@), 256);
    lemma_field_round_trip(e.key@, 281);
    lemma_field_round_trip(e.user_name@, 264);
    lemma_field_round_trip(e.host_name@, 256);
    assert(b.len() == 843);
    assert(b.subrange(0, 281) =~= k);
    assert(b.subrange(281, 545) =~= u);
    assert(b.subrange(545, 801) =~= h);
    assert(b.subrange(801, 805) =~= u32_be(e.timestamp));
    assert(b.subrange(809, 813) =~= u32_be(e.pid));
    assert(b.subrange(817, 821) =~= u32_be(e.addrnet));
    assert(b.subrange(825, 829) =~= u32_be(e.addrlna));
    assert(b.subrange(833, 835) =~= u16_be(e.port));
    assert(b.subrange(835, 837) =~= u16_be(e.max_weapon));
    assert(b.subrange(837, 839) =~= u16_be(e.major));
    assert(b.subrange(839, 841) =~= u16_be(e.minor));
    assert(b.subrange(841, 843) =~= u16_be(status_code(e.status)));
    lemma_read_u32_at(b, 801, e.timestamp);
    lemma_read_u32_at(b, 809, e.pid);
    lemma_read_u32_at(b, 817, e.addrnet);
    lemma_read_u32_at(b, 825, e.addrlna);
    lemma_read_u16_at(b, 833, e.port);
    lemma_read_u16_at(b, 835, e.max_weapon);
    lemma_read_u16_at(b, 837, e.major);
    lemma_read_u16_at(b, 839, e.minor);
    lemma_read_u16_at(b, 841, status_code(e.status));
    assert forall|d: LegacyNetworkEntry| #[trigger] entry_read(b, d) implies same_entry(d, e) by {
        assert(status_of_code(status_code(e.status)) == e.status);
    }
}


/// Reading back a framed packet gives its token, its payload length and its payload: the
/// header of an encoded packet decodes to the packet's token and length, and the payload
/// follows the header.
pub proof fn lemma_packet_round_trip(token: LegacyToken, payload: Seq<u8>)
    requires
        payload.len() <= 65536,
    ensures
        packet_bytes(token, payload).len() == 16 + payload.len(),
        be_u32(packet_bytes(token, payload), 8) == payload.len(),
        token_of_value(be_u32(packet_bytes(token, payload), 0)) == Some(token),
        packet_bytes(token, payload).subrange(16, 16 + payload.len() as int) == payload,
{
    let b = packet_bytes(token, payload);
    assert(b.subrange(0, 4) =~= u32_be(token_value(token)));
    assert(b.subrange(8, 12) =~= u32_be(payload.len() as u32));
    lemma_read_u32_at(b, 0, token_value(token));
    lemma_read_u32_at(b, 8, payload.len() as u32);
    lemma_token_value_round_trip(token);
    assert(b.subrange(16, 16 + payload.len() as int) =~= payload);
}

} // verus!
