//! Network protocol types and frame encoding.
//!
//! Wire messages are kept separate from local core events so transports can
//! change without changing gameplay rules. Frames carry a fixed-width
//! big-endian header followed by the message payload bytes.

pub mod legacy;

use crate::wire::{
    be_u16, be_u32, decimal, decimal_string, lemma_u16_round_trip, lemma_u32_round_trip, push_u16_be,
    push_u32_be, read_u16_be, read_u32_be, u16_be, u32_be,
};
use std::collections::BTreeMap;
use vstd::prelude::*;

verus! {

/// Fixed frame magic used by every BattleTris rewrite protocol frame (`BTRS`).
pub const MAGIC: [u8; 4] = [66, 84, 82, 83];

/// Current supported protocol major version.
pub const PROTOCOL_MAJOR: u16 = 1;

/// Current supported protocol minor version.
pub const PROTOCOL_MINOR: u16 = 0;

/// Header size in bytes: magic, version, kind, flags, and payload length.
pub const HEADER_LEN: usize = 16;

/// Conservative maximum payload accepted before allocation.
pub const MAX_PAYLOAD_LEN: u32 = 64 * 1024;

/// Per-frame flags. No flags are currently assigned.
pub const FLAG_NONE: u16 = 0;

/// DNS-SD service name advertised by best-effort LAN discovery adapters.
pub const LAN_DISCOVERY_SERVICE: &'static str = "_battletris._tcp.local.";

/// Protocol capability token for the required direct TCP transport.
pub const CAPABILITY_DIRECT_TCP: &'static str = "direct-tcp";

/// Protocol capability token for optional LAN discovery.
pub const CAPABILITY_LAN_DISCOVERY: &'static str = "lan-discovery";

/// Protocol capability token for self-hosted lobby/ranked authority.
pub const CAPABILITY_SELF_HOSTED_LOBBY: &'static str = "self-hosted-lobby";

/// A protocol frame header encoded with fixed-width big-endian fields.
#[derive(Debug, Clone, Copy, PartialEq, Eq, Structural)]
pub struct FrameHeader {
    /// Protocol major version carried by this frame.
    pub major: u16,
    /// Protocol minor version carried by this frame.
    pub minor: u16,
    /// Public message kind discriminant.
    pub kind: u16,
    /// Reserved per-frame flags.
    pub flags: u16,
    /// Payload length in bytes.
    pub payload_len: u32,
}

/// Stable public message kinds encoded in the frame header.
#[derive(Debug, Clone, Copy, PartialEq, Eq, Structural)]
pub enum MessageKind {
    /// Initial peer greeting and version/capability advertisement.
    Hello,
    /// Challenge request before accepting a match.
    Challenge,
    /// Challenge acceptance.
    ChallengeAccepted,
    /// Challenge denial.
    ChallengeDenied,
    /// Deterministic match start parameters.
    StartGame,
    /// Player input for a deterministic game tick.
    PlayerInput,
    /// Full score/funds/line snapshot.
    ScoreSnapshot,
    /// Full board snapshot.
    BoardSnapshot,
    /// Full arsenal snapshot.
    ArsenalSnapshot,
    /// Arsenal launch notification.
    WeaponLaunch,
    /// Timed weapon activation notification.
    WeaponActive,
    /// Timed weapon expiration notification.
    WeaponExpired,
    /// Player finished bazaar shopping.
    BazaarDone,
    /// Bazaar state snapshot.
    BazaarState,
    /// Final game-over result.
    GameOver,
    /// Pause or resume notification.
    Pause,
    /// Graceful disconnect notification.
    Disconnect,
    /// Register a hosted/self-hosted lobby presence entry.
    LobbyRegister,
    /// Request the hosted/self-hosted lobby list.
    LobbyListRequest,
    /// Hosted/self-hosted lobby list response.
    LobbyList,
    /// Server-issued deterministic hosted game start.
    HostedGameStart,
    /// Participant claim for a hosted ranked result.
    RankedResultClaim,
    /// Server accepted and recorded a ranked result.
    RankedResultAccepted,
    /// Server rejected a ranked result claim.
    RankedResultRejected,
    /// Highest deterministic tick through which a peer has sent all local input.
    TickWatermark,
    /// Sparse keepalive carrying the sender's current tick watermark.
    Heartbeat,
    /// Bazaar purchase intent.
    BazaarBuy,
    /// Bazaar removal intent.
    BazaarRemove,
    /// Join request for a self-hosted lobby session.
    HostedJoinRequest,
    /// Host or joiner status poll for a self-hosted lobby session.
    HostedSessionStatusRequest,
    /// Server status for a self-hosted lobby session.
    HostedSessionStatus,
    /// Server accepted a ranked claim and is waiting for the peer claim.
    RankedResultPending,
    /// Deterministic whole-game checksum diagnostic.
    GameChecksum,
    /// Request server-owned ranked records for a hosted community.
    RankedRecordsRequest,
    /// Server-owned ranked records response for a hosted community.
    RankedRecords,
    /// Request cancellation/expiry of an available hosted session.
    HostedSessionCancel,
}

/// The frame discriminant of a message kind.
pub open spec fn kind_code(kind: MessageKind) -> int {
    match kind {
        MessageKind::Hello => 1,
        MessageKind::Challenge => 2,
        MessageKind::ChallengeAccepted => 3,
        MessageKind::ChallengeDenied => 4,
        MessageKind::StartGame => 5,
        MessageKind::PlayerInput => 6,
        MessageKind::ScoreSnapshot => 7,
        MessageKind::BoardSnapshot => 8,
        MessageKind::ArsenalSnapshot => 9,
        MessageKind::WeaponLaunch => 10,
        MessageKind::WeaponActive => 11,
        MessageKind::WeaponExpired => 12,
        MessageKind::BazaarDone => 13,
        MessageKind::BazaarState => 14,
        MessageKind::GameOver => 15,
        MessageKind::Pause => 16,
        MessageKind::Disconnect => 17,
        MessageKind::LobbyRegister => 18,
        MessageKind::LobbyListRequest => 19,
        MessageKind::LobbyList => 20,
        MessageKind::HostedGameStart => 21,
        MessageKind::RankedResultClaim => 22,
        MessageKind::RankedResultAccepted => 23,
        MessageKind::RankedResultRejected => 24,
        MessageKind::TickWatermark => 25,
        MessageKind::Heartbeat => 26,
        MessageKind::BazaarBuy => 27,
        MessageKind::BazaarRemove => 28,
        MessageKind::HostedJoinRequest => 29,
        MessageKind::HostedSessionStatusRequest => 30,
        MessageKind::HostedSessionStatus => 31,
        MessageKind::RankedResultPending => 32,
        MessageKind::GameChecksum => 33,
        MessageKind::RankedRecordsRequest => 34,
        MessageKind::RankedRecords => 35,
        MessageKind::HostedSessionCancel => 36,
    }
}

/// The message kind with a given frame discriminant, if any.
pub open spec fn kind_of_code(code: u16) -> Option<MessageKind> {
    match code {
        1 => Some(MessageKind::Hello),
        2 => Some(MessageKind::Challenge),
        3 => Some(MessageKind::ChallengeAccepted),
        4 => Some(MessageKind::ChallengeDenied),
        5 => Some(MessageKind::StartGame),
        6 => Some(MessageKind::PlayerInput),
        7 => Some(MessageKind::ScoreSnapshot),
        8 => Some(MessageKind::BoardSnapshot),
        9 => Some(MessageKind::ArsenalSnapshot),
        10 => Some(MessageKind::WeaponLaunch),
        11 => Some(MessageKind::WeaponActive),
        12 => Some(MessageKind::WeaponExpired),
        13 => Some(MessageKind::BazaarDone),
        14 => Some(MessageKind::BazaarState),
        15 => Some(MessageKind::GameOver),
        16 => Some(MessageKind::Pause),
        17 => Some(MessageKind::Disconnect),
        18 => Some(MessageKind::LobbyRegister),
        19 => Some(MessageKind::LobbyListRequest),
        20 => Some(MessageKind::LobbyList),
        21 => Some(MessageKind::HostedGameStart),
        22 => Some(MessageKind::RankedResultClaim),
        23 => Some(MessageKind::RankedResultAccepted),
        24 => Some(MessageKind::RankedResultRejected),
        25 => Some(MessageKind::TickWatermark),
        26 => Some(MessageKind::Heartbeat),
        27 => Some(MessageKind::BazaarBuy),
        28 => Some(MessageKind::BazaarRemove),
        29 => Some(MessageKind::HostedJoinRequest),
        30 => Some(MessageKind::HostedSessionStatusRequest),
        31 => Some(MessageKind::HostedSessionStatus),
        32 => Some(MessageKind::RankedResultPending),
        33 => Some(MessageKind::GameChecksum),
        34 => Some(MessageKind::RankedRecordsRequest),
        35 => Some(MessageKind::RankedRecords),
        36 => Some(MessageKind::HostedSessionCancel),
        _ => None,
    }
}

/// Every message kind is found again from its own discriminant.
pub proof fn lemma_kind_code_round_trip(kind: MessageKind)
    ensures
        kind_of_code(kind_code(kind) as u16) == Some(kind),
        1 <= kind_code(kind) <= 36,
{
}

/// Exactly the discriminants `1..=36` name a message kind, and that kind carries the discriminant.
pub proof fn lemma_kind_of_code(code: u16)
    ensures
        kind_of_code(code) is Some <==> 1 <= code <= 36,
        kind_of_code(code) matches Some(k) ==> kind_code(k) == code,
{
}

impl MessageKind {
    /// Returns the frame discriminant of this message kind.
    #[must_use]
    pub fn to_u16(self) -> (r: u16)
        ensures
            r == kind_code(self),
    {
        match self {
            Self::Hello => 1,
            Self::Challenge => 2,
            Self::ChallengeAccepted => 3,
            Self::ChallengeDenied => 4,
            Self::StartGame => 5,
            Self::PlayerInput => 6,
            Self::ScoreSnapshot => 7,
            Self::BoardSnapshot => 8,
            Self::ArsenalSnapshot => 9,
            Self::WeaponLaunch => 10,
            Self::WeaponActive => 11,
            Self::WeaponExpired => 12,
            Self::BazaarDone => 13,
            Self::BazaarState => 14,
            Self::GameOver => 15,
            Self::Pause => 16,
            Self::Disconnect => 17,
            Self::LobbyRegister => 18,
            Self::LobbyListRequest => 19,
            Self::LobbyList => 20,
            Self::HostedGameStart => 21,
            Self::RankedResultClaim => 22,
            Self::RankedResultAccepted => 23,
            Self::RankedResultRejected => 24,
            Self::TickWatermark => 25,
            Self::Heartbeat => 26,
            Self::BazaarBuy => 27,
            Self::BazaarRemove => 28,
            Self::HostedJoinRequest => 29,
            Self::HostedSessionStatusRequest => 30,
            Self::HostedSessionStatus => 31,
            Self::RankedResultPending => 32,
            Self::GameChecksum => 33,
            Self::RankedRecordsRequest => 34,
            Self::RankedRecords => 35,
            Self::HostedSessionCancel => 36,
        }
    }

    /// Converts a raw frame discriminant to a known message kind.
    #[must_use]
    pub fn from_u16(value: u16) -> (r: Option<Self>)
        ensures
            r == kind_of_code(value),
    {
        match value {
            1 => Some(Self::Hello),
            2 => Some(Self::Challenge),
            3 => Some(Self::ChallengeAccepted),
            4 => Some(Self::ChallengeDenied),
            5 => Some(Self::StartGame),
            6 => Some(Self::PlayerInput),
            7 => Some(Self::ScoreSnapshot),
            8 => Some(Self::BoardSnapshot),
            9 => Some(Self::ArsenalSnapshot),
            10 => Some(Self::WeaponLaunch),
            11 => Some(Self::WeaponActive),
            12 => Some(Self::WeaponExpired),
            13 => Some(Self::BazaarDone),
            14 => Some(Self::BazaarState),
            15 => Some(Self::GameOver),
            16 => Some(Self::Pause),
            17 => Some(Self::Disconnect),
            18 => Some(Self::LobbyRegister),
            19 => Some(Self::LobbyListRequest),
            20 => Some(Self::LobbyList),
            21 => Some(Self::HostedGameStart),
            22 => Some(Self::RankedResultClaim),
            23 => Some(Self::RankedResultAccepted),
            24 => Some(Self::RankedResultRejected),
            25 => Some(Self::TickWatermark),
            26 => Some(Self::Heartbeat),
            27 => Some(Self::BazaarBuy),
            28 => Some(Self::BazaarRemove),
            29 => Some(Self::HostedJoinRequest),
            30 => Some(Self::HostedSessionStatusRequest),
            31 => Some(Self::HostedSessionStatus),
            32 => Some(Self::RankedResultPending),
            33 => Some(Self::GameChecksum),
            34 => Some(Self::RankedRecordsRequest),
            35 => Some(Self::RankedRecords),
            36 => Some(Self::HostedSessionCancel),
            _ => None,
        }
    }
}

impl FrameHeader {
    /// Creates a current-version header for a message kind and payload length.
    #[must_use]
    pub fn new(kind: MessageKind, payload_len: u32) -> (r: Self)
        ensures
            r == (FrameHeader { major: 1, minor: 0, kind: kind_code(kind) as u16, flags: 0, payload_len }),
    {
        Self { major: PROTOCOL_MAJOR, minor: PROTOCOL_MINOR, kind: kind.to_u16(), flags: FLAG_NONE, payload_len }
    }
}

/// Stable peer slot used by protocol messages.
#[derive(Debug, Clone, Copy, PartialEq, Eq, Structural)]
pub enum PlayerSlot {
    /// First peer/player slot.
    One,
    /// Second peer/player slot.
    Two,
}

/// Protocol-owned piece of player identity for friendly direct-connect games.
#[derive(Debug, Clone, PartialEq, Eq)]
pub struct PlayerIdentity {
    /// User-facing name displayed to the peer.
    pub display_name: String,
}

/// Server-scoped player identity used by hosted/self-hosted communities.
#[derive(Debug, Clone, PartialEq, Eq)]
pub struct HostedPlayer {
    /// Stable player id within the hosting server/community.
    pub player_id: String,
    /// User-facing display name.
    pub display_name: String,
}

/// Server-issued hosted game session id.
#[derive(Debug, Clone, PartialEq, Eq, PartialOrd, Ord, Hash)]
pub struct HostedSessionId(pub String);

/// Metadata advertised for best-effort LAN discovery.
#[derive(Debug, Clone, PartialEq, Eq)]
pub struct LanAdvertisement {
    /// DNS-SD service name.
    pub service: &'static str,
    /// TCP port that accepts the same direct protocol as manual connect.
    pub port: u16,
    /// TXT-style key/value metadata.
    pub txt: BTreeMap<String, String>,
}

/// Initial peer greeting.
#[derive(Debug, Clone, PartialEq, Eq)]
pub struct Hello {
    /// Highest protocol major version supported by the sender.
    pub major: u16,
    /// Highest protocol minor version supported by the sender.
    pub minor: u16,
    /// Friendly local identity.
    pub identity: PlayerIdentity,
    /// Capability tokens understood by the sender.
    pub capabilities: Vec<String>,
}

/// A direct challenge request.
#[derive(Debug, Clone, PartialEq, Eq)]
pub struct Challenge {
    /// Challenging player identity.
    pub challenger: PlayerIdentity,
    /// Optional short challenge text.
    pub message: String,
    /// Server-issued hosted session id when this direct challenge belongs to a hosted game.
    pub hosted_session_id: Option<HostedSessionId>,
    /// Server-scoped joining player id for hosted challenges.
    pub hosted_player_id: Option<String>,
}

/// Acceptance of a challenge.
#[derive(Debug, Clone, PartialEq, Eq)]
pub struct ChallengeAccepted {
    /// Accepting player identity.
    pub accepter: PlayerIdentity,
}

/// Denial of a challenge.
#[derive(Debug, Clone, PartialEq, Eq)]
pub struct ChallengeDenied {
    /// User-facing denial reason.
    pub reason: String,
}

/// Deterministic match start parameters.
#[derive(Debug, Clone, PartialEq, Eq)]
pub struct StartGame {
    /// Local slot assigned to the receiving peer.
    pub receiving_peer_slot: PlayerSlot,
    /// Deterministic game seed shared by both peers.
    pub seed: u64,
    /// Whether this direct game may submit ranked results later.
    pub ranked: bool,
}

/// Input command token carried over the wire.
#[derive(Debug, Clone, Copy, PartialEq, Eq, Structural)]
pub enum InputCommand {
    /// Move the active piece left.
    MoveLeft,
    /// Move the active piece right.
    MoveRight,
    /// Rotate the active piece clockwise.
    RotateClockwise,
    /// Rotate the active piece counter-clockwise.
    RotateCounterClockwise,
    /// Start fast drop.
    StartFastDrop,
    /// Stop fast drop.
    StopFastDrop,
    /// Launch an arsenal slot. Slot labels use `1..9,0`; normalized index is `0..9`.
    LaunchWeapon {
        /// Normalized arsenal slot index `0..9`.
        slot_index: u8,
    },
}

/// One player input at a deterministic simulation tick.
#[derive(Debug, Clone, PartialEq, Eq)]
pub struct PlayerInput {
    /// Player that issued the input.
    pub player: PlayerSlot,
    /// Deterministic tick number.
    pub tick: u64,
    /// Input command.
    pub command: InputCommand,
}

/// Highest deterministic tick through which a peer has sent all local input.
#[derive(Debug, Clone, PartialEq, Eq)]
pub struct TickWatermark {
    /// Player that owns this tick watermark.
    pub player: PlayerSlot,
    /// Inclusive tick through which all local input has been sent.
    pub through_tick: u64,
}

/// Sparse keepalive carrying liveness and deterministic progress.
#[derive(Debug, Clone, PartialEq, Eq)]
pub struct Heartbeat {
    /// Player that sent the heartbeat.
    pub player: PlayerSlot,
    /// Sender's current local network tick.
    pub current_tick: u64,
    /// Sender's current input watermark.
    pub watermark_tick: u64,
}

/// Full score, funds, and line-count snapshot for one player.
#[derive(Debug, Clone, PartialEq, Eq)]
pub struct ScoreSnapshot {
    /// Player that owns this score.
    pub player: PlayerSlot,
    /// Display score.
    pub score: i32,
    /// Spendable funds. Negative values are legal for legacy Reagan behavior.
    pub funds: i32,
    /// Total lines cleared by this player.
    pub lines: u32,
}

/// Full row-major board snapshot using protocol-owned legacy-compatible cell IDs.
#[derive(Debug, Clone, PartialEq, Eq)]
pub struct BoardSnapshot {
    /// Player that owns this board.
    pub player: PlayerSlot,
    /// Legacy motivation field preserved for swap/recon adapters.
    pub motivation: i32,
    /// Board width in cells.
    pub width: u16,
    /// Board height in cells.
    pub height: u16,
    /// Row-major signed cell IDs.
    pub cells: Vec<i16>,
}

/// One arsenal slot entry in a full arsenal snapshot.
#[derive(Debug, Clone, Copy, PartialEq, Eq, Structural)]
pub struct ArsenalEntry {
    /// Stable legacy weapon token ID.
    pub weapon: u8,
    /// Quantity stacked in the slot.
    pub quantity: u16,
}

/// Full ten-slot arsenal snapshot. `None` entries preserve holes.
#[derive(Debug, Clone, PartialEq, Eq)]
pub struct ArsenalSnapshot {
    /// Player that owns this arsenal.
    pub player: PlayerSlot,
    /// Ten entries preserving slot order and holes.
    pub slots: [Option<ArsenalEntry>; 10],
}

/// Arsenal launch notification after local slot consumption.
#[derive(Debug, Clone, PartialEq, Eq)]
pub struct WeaponLaunch {
    /// Launching player.
    pub launcher: PlayerSlot,
    /// Target player.
    pub target: PlayerSlot,
    /// Stable legacy weapon token ID.
    pub weapon: u8,
    /// Consumed arsenal slot index `0..9`.
    pub slot_index: u8,
    /// Deterministic launch sequence number.
    pub sequence: u64,
}

/// Timed weapon activation snapshot.
#[derive(Debug, Clone, PartialEq, Eq)]
pub struct WeaponActive {
    /// Player affected by the weapon.
    pub target: PlayerSlot,
    /// Stable legacy weapon token ID.
    pub weapon: u8,
    /// Remaining target-player line clears after stacking.
    pub remaining_lines: u32,
}

/// Timed weapon expiration notification.
#[derive(Debug, Clone, PartialEq, Eq)]
pub struct WeaponExpired {
    /// Player affected by the weapon.
    pub target: PlayerSlot,
    /// Stable legacy weapon token ID.
    pub weapon: u8,
}

/// Player finished bazaar shopping.
#[derive(Debug, Clone, PartialEq, Eq)]
pub struct BazaarDone {
    /// Player that clicked Done.
    pub player: PlayerSlot,
}

/// Bazaar purchase intent. Arsenal snapshots remain diagnostic.
#[derive(Debug, Clone, PartialEq, Eq)]
pub struct BazaarBuy {
    /// Player buying the weapon.
    pub player: PlayerSlot,
    /// Stable legacy weapon token ID.
    pub weapon: u8,
    /// Deterministic per-player Bazaar action sequence.
    pub sequence: u64,
}

/// Bazaar removal intent. Arsenal snapshots remain diagnostic.
#[derive(Debug, Clone, PartialEq, Eq)]
pub struct BazaarRemove {
    /// Player removing from an arsenal slot.
    pub player: PlayerSlot,
    /// Normalized arsenal slot index `0..9`.
    pub slot_index: u8,
    /// Deterministic per-player Bazaar action sequence.
    pub sequence: u64,
}

/// Bazaar progress snapshot.
#[derive(Debug, Clone, PartialEq, Eq)]
pub struct BazaarState {
    /// Whether player one is done shopping.
    pub player_one_done: bool,
    /// Whether player two is done shopping.
    pub player_two_done: bool,
}

/// Final game-over result.
#[derive(Debug, Clone, PartialEq, Eq)]
pub struct GameOver {
    /// Winning player.
    pub winner: PlayerSlot,
    /// Losing player.
    pub loser: PlayerSlot,
    /// Deterministic tick or event sequence where the game ended.
    pub sequence: u64,
}

/// Pause state notification. Legacy had a toggle token; the rewrite sends state.
#[derive(Debug, Clone, PartialEq, Eq)]
pub struct Pause {
    /// `true` when paused, `false` when resumed.
    pub paused: bool,
}

/// Graceful disconnect notification.
#[derive(Debug, Clone, PartialEq, Eq)]
pub struct Disconnect {
    /// User-facing reason.
    pub reason: String,
}

/// Registers a player as available in a self-hosted lobby.
#[derive(Debug, Clone, PartialEq, Eq)]
pub struct LobbyRegister {
    /// Hosted player identity.
    pub player: HostedPlayer,
    /// Direct TCP address peers should use for gameplay transport.
    pub direct_addr: String,
    /// Whether the advertised game requests ranked server verification.
    pub ranked: bool,
}

/// Requests currently available lobby entries.
#[derive(Debug, Clone, PartialEq, Eq)]
pub struct LobbyListRequest {
    /// If true, omit unranked entries.
    pub ranked_only: bool,
}

/// One hosted lobby listing.
#[derive(Debug, Clone, PartialEq, Eq)]
pub struct LobbyEntry {
    /// Server-issued session id.
    pub session_id: HostedSessionId,
    /// Hosting player.
    pub host: HostedPlayer,
    /// Direct TCP address peers should use for gameplay transport.
    pub direct_addr: String,
    /// Whether this entry is eligible for ranked result verification.
    pub ranked: bool,
    /// Host protocol major version admitted by the server.
    pub protocol_major: u16,
    /// Host protocol minor version admitted by the server.
    pub protocol_minor: u16,
}

/// Hosted lobby list response.
#[derive(Debug, Clone, PartialEq, Eq)]
pub struct LobbyList {
    /// Available sessions.
    pub entries: Vec<LobbyEntry>,
}

/// Server-issued deterministic hosted game start parameters.
#[derive(Debug, Clone, PartialEq, Eq)]
pub struct HostedGameStart {
    /// Server-issued session id.
    pub session_id: HostedSessionId,
    /// Player one identity.
    pub player_one: HostedPlayer,
    /// Player two identity.
    pub player_two: HostedPlayer,
    /// Deterministic seed assigned by the hosting server.
    pub seed: u64,
    /// Whether matching result claims may update server records.
    pub ranked: bool,
    /// Server/community ranking label.
    pub community_label: String,
}

/// Join request for a server-owned hosted lobby session.
#[derive(Debug, Clone, PartialEq, Eq)]
pub struct HostedJoinRequest {
    /// Session the joiner wants to start.
    pub session_id: HostedSessionId,
    /// Joining player identity.
    pub joiner: HostedPlayer,
}

/// Host or joiner poll request for server-owned session status.
#[derive(Debug, Clone, PartialEq, Eq)]
pub struct HostedSessionStatusRequest {
    /// Session being polled.
    pub session_id: HostedSessionId,
    /// Player id of the polling participant.
    pub requester_player_id: String,
}

/// Host-owned request to cancel an available hosted lobby session.
#[derive(Debug, Clone, PartialEq, Eq)]
pub struct HostedSessionCancel {
    /// Session being canceled.
    pub session_id: HostedSessionId,
    /// Player id of the hosting participant.
    pub requester_player_id: String,
}

/// Server-owned hosted lobby session status.
#[derive(Debug, Clone, PartialEq, Eq)]
pub struct HostedSessionStatus {
    /// Session being reported.
    pub session_id: HostedSessionId,
    /// Current status value.
    pub status: HostedSessionStatusKind,
}

/// Status value for a server-owned hosted lobby session.
#[derive(Debug, Clone, PartialEq, Eq)]
pub enum HostedSessionStatusKind {
    /// Session exists and is waiting for a joiner.
    WaitingForPeer,
    /// Session has started with server-owned deterministic metadata.
    Started(HostedGameStart),
    /// Session is no longer joinable or reportable.
    Unavailable {
        /// User-facing reason the session is unavailable.
        reason: String,
    },
}

/// Participant claim for a completed hosted ranked game.
#[derive(Debug, Clone, PartialEq, Eq)]
pub struct RankedResultClaim {
    /// Server-issued session id.
    pub session_id: HostedSessionId,
    /// Player id of the client submitting the claim.
    pub reporter_player_id: String,
    /// Winning player id.
    pub winner_player_id: String,
    /// Losing player id.
    pub loser_player_id: String,
    /// Winner final score.
    pub winner_score: u64,
    /// Winner final line count.
    pub winner_lines: u64,
    /// Winner final funds.
    pub winner_funds: i64,
    /// Loser final score.
    pub loser_score: u64,
    /// Loser final line count.
    pub loser_lines: u64,
    /// Loser final funds.
    pub loser_funds: i64,
    /// Game duration in seconds.
    pub duration_secs: u64,
    /// Deterministic simulation duration in network ticks.
    pub duration_ticks: u64,
    /// Deterministic event count observed by the reporter.
    pub event_count: u64,
    /// Final deterministic whole-game checksum observed by the reporter.
    pub final_checksum: u64,
}

/// Server accepted and recorded a hosted ranked result.
#[derive(Debug, Clone, PartialEq, Eq)]
pub struct RankedResultAccepted {
    /// Recorded session id.
    pub session_id: HostedSessionId,
}

/// Server rejected a hosted ranked result claim.
#[derive(Debug, Clone, PartialEq, Eq)]
pub struct RankedResultRejected {
    /// Rejected session id, if the claim included a known shape.
    pub session_id: Option<HostedSessionId>,
    /// User-facing rejection reason.
    pub reason: String,
}

/// First ranked result claim accepted while the server waits for the peer claim.
#[derive(Debug, Clone, PartialEq, Eq)]
pub struct RankedResultPending {
    /// Pending session id.
    pub session_id: HostedSessionId,
    /// User-facing pending status.
    pub reason: String,
}

/// Deterministic whole-game checksum diagnostic.
#[derive(Debug, Clone, PartialEq, Eq)]
pub struct GameChecksum {
    /// Player reporting the checksum.
    pub reporter: PlayerSlot,
    /// Deterministic tick covered by the checksum.
    pub tick: u64,
    /// Whole-game checksum value.
    pub checksum: u64,
    /// Deterministic event count covered by the checksum.
    pub event_count: u64,
}

/// Request for server-owned ranked records.
#[derive(Debug, Clone, PartialEq, Eq)]
pub struct RankedRecordsRequest {
    /// Maximum rows requested, after server-side clamping.
    pub limit: u16,
}

/// Server-owned ranked records response.
#[derive(Debug, Clone, PartialEq, Eq)]
pub struct RankedRecords {
    /// Server/community ranking label.
    pub community_label: String,
    /// Records sorted by server rank policy.
    pub records: Vec<RankedPlayerRecord>,
}

/// Public server-owned player record row.
#[derive(Debug, Clone, PartialEq, Eq)]
pub struct RankedPlayerRecord {
    /// Stable server/community player id.
    pub player_id: String,
    /// User-facing display name.
    pub display_name: String,
    /// Current rank value.
    pub rank: u64,
    /// Ranked wins.
    pub wins: u64,
    /// Ranked losses.
    pub losses: u64,
    /// Best score in a ranked game.
    pub high_score: u64,
    /// Best line count in a ranked game.
    pub high_lines: u64,
    /// Best funds value in a ranked game.
    pub high_funds: u64,
}

/// Every known public wire message. These are intentionally distinct from local core events.
#[derive(Debug, Clone, PartialEq, Eq)]
pub enum WireMessage {
    /// Initial peer greeting and version/capability advertisement.
    Hello(Hello),
    /// Challenge request before accepting a match.
    Challenge(Challenge),
    /// Challenge acceptance.
    ChallengeAccepted(ChallengeAccepted),
    /// Challenge denial.
    ChallengeDenied(ChallengeDenied),
    /// Deterministic match start parameters.
    StartGame(StartGame),
    /// Player input for a deterministic game tick.
    PlayerInput(PlayerInput),
    /// Full score/funds/line snapshot.
    ScoreSnapshot(ScoreSnapshot),
    /// Full board snapshot.
    BoardSnapshot(BoardSnapshot),
    /// Full arsenal snapshot.
    ArsenalSnapshot(ArsenalSnapshot),
    /// Arsenal launch notification.
    WeaponLaunch(WeaponLaunch),
    /// Timed weapon activation notification.
    WeaponActive(WeaponActive),
    /// Timed weapon expiration notification.
    WeaponExpired(WeaponExpired),
    /// Player finished bazaar shopping.
    BazaarDone(BazaarDone),
    /// Bazaar state snapshot.
    BazaarState(BazaarState),
    /// Final game-over result.
    GameOver(GameOver),
    /// Pause or resume notification.
    Pause(Pause),
    /// Graceful disconnect notification.
    Disconnect(Disconnect),
    /// Register a hosted/self-hosted lobby presence entry.
    LobbyRegister(LobbyRegister),
    /// Request the hosted/self-hosted lobby list.
    LobbyListRequest(LobbyListRequest),
    /// Hosted/self-hosted lobby list response.
    LobbyList(LobbyList),
    /// Server-issued deterministic hosted game start.
    HostedGameStart(HostedGameStart),
    /// Participant claim for a hosted ranked result.
    RankedResultClaim(RankedResultClaim),
    /// Server accepted and recorded a ranked result.
    RankedResultAccepted(RankedResultAccepted),
    /// Server rejected a ranked result claim.
    RankedResultRejected(RankedResultRejected),
    /// Highest deterministic tick through which a peer has sent all local input.
    TickWatermark(TickWatermark),
    /// Sparse keepalive carrying the sender's current tick watermark.
    Heartbeat(Heartbeat),
    /// Bazaar purchase intent.
    BazaarBuy(BazaarBuy),
    /// Bazaar removal intent.
    BazaarRemove(BazaarRemove),
    /// Join request for a self-hosted lobby session.
    HostedJoinRequest(HostedJoinRequest),
    /// Host or joiner status poll for a self-hosted lobby session.
    HostedSessionStatusRequest(HostedSessionStatusRequest),
    /// Server status for a self-hosted lobby session.
    HostedSessionStatus(HostedSessionStatus),
    /// Server accepted a ranked claim and is waiting for the peer claim.
    RankedResultPending(RankedResultPending),
    /// Deterministic whole-game checksum diagnostic.
    GameChecksum(GameChecksum),
    /// Request server-owned ranked records for a hosted community.
    RankedRecordsRequest(RankedRecordsRequest),
    /// Server-owned ranked records response for a hosted community.
    RankedRecords(RankedRecords),
    /// Request cancellation/expiry of an available hosted session.
    HostedSessionCancel(HostedSessionCancel),
}

/// The frame kind of a wire message.
pub open spec fn message_kind(message: WireMessage) -> MessageKind {
    match message {
        WireMessage::Hello(_) => MessageKind::Hello,
        WireMessage::Challenge(_) => MessageKind::Challenge,
        WireMessage::ChallengeAccepted(_) => MessageKind::ChallengeAccepted,
        WireMessage::ChallengeDenied(_) => MessageKind::ChallengeDenied,
        WireMessage::StartGame(_) => MessageKind::StartGame,
        WireMessage::PlayerInput(_) => MessageKind::PlayerInput,
        WireMessage::ScoreSnapshot(_) => MessageKind::ScoreSnapshot,
        WireMessage::BoardSnapshot(_) => MessageKind::BoardSnapshot,
        WireMessage::ArsenalSnapshot(_) => MessageKind::ArsenalSnapshot,
        WireMessage::WeaponLaunch(_) => MessageKind::WeaponLaunch,
        WireMessage::WeaponActive(_) => MessageKind::WeaponActive,
        WireMessage::WeaponExpired(_) => MessageKind::WeaponExpired,
        WireMessage::BazaarDone(_) => MessageKind::BazaarDone,
        WireMessage::BazaarState(_) => MessageKind::BazaarState,
        WireMessage::GameOver(_) => MessageKind::GameOver,
        WireMessage::Pause(_) => MessageKind::Pause,
        WireMessage::Disconnect(_) => MessageKind::Disconnect,
        WireMessage::LobbyRegister(_) => MessageKind::LobbyRegister,
        WireMessage::LobbyListRequest(_) => MessageKind::LobbyListRequest,
        WireMessage::LobbyList(_) => MessageKind::LobbyList,
        WireMessage::HostedGameStart(_) => MessageKind::HostedGameStart,
        WireMessage::RankedResultClaim(_) => MessageKind::RankedResultClaim,
        WireMessage::RankedResultAccepted(_) => MessageKind::RankedResultAccepted,
        WireMessage::RankedResultRejected(_) => MessageKind::RankedResultRejected,
        WireMessage::TickWatermark(_) => MessageKind::TickWatermark,
        WireMessage::Heartbeat(_) => MessageKind::Heartbeat,
        WireMessage::BazaarBuy(_) => MessageKind::BazaarBuy,
        WireMessage::BazaarRemove(_) => MessageKind::BazaarRemove,
        WireMessage::HostedJoinRequest(_) => MessageKind::HostedJoinRequest,
        WireMessage::HostedSessionStatusRequest(_) => MessageKind::HostedSessionStatusRequest,
        WireMessage::HostedSessionStatus(_) => MessageKind::HostedSessionStatus,
        WireMessage::RankedResultPending(_) => MessageKind::RankedResultPending,
        WireMessage::GameChecksum(_) => MessageKind::GameChecksum,
        WireMessage::RankedRecordsRequest(_) => MessageKind::RankedRecordsRequest,
        WireMessage::RankedRecords(_) => MessageKind::RankedRecords,
        WireMessage::HostedSessionCancel(_) => MessageKind::HostedSessionCancel,
    }
}

impl WireMessage {
    /// Returns this message's public frame kind.
    #[must_use]
    pub fn kind(&self) -> (r: MessageKind)
        ensures
            r == message_kind(*self),
    {
        match self {
            Self::Hello(_) => MessageKind::Hello,
            Self::Challenge(_) => MessageKind::Challenge,
            Self::ChallengeAccepted(_) => MessageKind::ChallengeAccepted,
            Self::ChallengeDenied(_) => MessageKind::ChallengeDenied,
            Self::StartGame(_) => MessageKind::StartGame,
            Self::PlayerInput(_) => MessageKind::PlayerInput,
            Self::ScoreSnapshot(_) => MessageKind::ScoreSnapshot,
            Self::BoardSnapshot(_) => MessageKind::BoardSnapshot,
            Self::ArsenalSnapshot(_) => MessageKind::ArsenalSnapshot,
            Self::WeaponLaunch(_) => MessageKind::WeaponLaunch,
            Self::WeaponActive(_) => MessageKind::WeaponActive,
            Self::WeaponExpired(_) => MessageKind::WeaponExpired,
            Self::BazaarDone(_) => MessageKind::BazaarDone,
            Self::BazaarState(_) => MessageKind::BazaarState,
            Self::GameOver(_) => MessageKind::GameOver,
            Self::Pause(_) => MessageKind::Pause,
            Self::Disconnect(_) => MessageKind::Disconnect,
            Self::LobbyRegister(_) => MessageKind::LobbyRegister,
            Self::LobbyListRequest(_) => MessageKind::LobbyListRequest,
            Self::LobbyList(_) => MessageKind::LobbyList,
            Self::HostedGameStart(_) => MessageKind::HostedGameStart,
            Self::RankedResultClaim(_) => MessageKind::RankedResultClaim,
            Self::RankedResultAccepted(_) => MessageKind::RankedResultAccepted,
            Self::RankedResultRejected(_) => MessageKind::RankedResultRejected,
            Self::TickWatermark(_) => MessageKind::TickWatermark,
            Self::Heartbeat(_) => MessageKind::Heartbeat,
            Self::BazaarBuy(_) => MessageKind::BazaarBuy,
            Self::BazaarRemove(_) => MessageKind::BazaarRemove,
            Self::HostedJoinRequest(_) => MessageKind::HostedJoinRequest,
            Self::HostedSessionStatusRequest(_) => MessageKind::HostedSessionStatusRequest,
            Self::HostedSessionStatus(_) => MessageKind::HostedSessionStatus,
            Self::RankedResultPending(_) => MessageKind::RankedResultPending,
            Self::GameChecksum(_) => MessageKind::GameChecksum,
            Self::RankedRecordsRequest(_) => MessageKind::RankedRecordsRequest,
            Self::RankedRecords(_) => MessageKind::RankedRecords,
            Self::HostedSessionCancel(_) => MessageKind::HostedSessionCancel,
        }
    }
}

/// Derives the two core game seeds from one protocol base seed.
#[must_use]
pub fn derive_player_seeds(base_seed: u64) -> (r: (u64, u64))
    ensures
        r.0 == base_seed,
        r.1 == if base_seed == u64::MAX { 0 } else { base_seed + 1 },
{
    (base_seed, base_seed.wrapping_add(1))
}

/// A raw decoded frame whose kind may be unknown to this crate version.
#[derive(Debug, Clone, PartialEq, Eq)]
pub struct RawFrame {
    /// Validated frame header.
    pub header: FrameHeader,
    /// Raw payload bytes.
    pub payload: Vec<u8>,
}

/// Protocol encoding and decoding failures.
#[derive(Debug, Clone, PartialEq, Eq)]
pub enum ProtocolError {
    /// Frame is shorter than the fixed header.
    FrameTooShort {
        /// Actual frame bytes.
        actual: usize,
    },
    /// Frame magic did not match [`MAGIC`].
    BadMagic {
        /// Magic read from the frame.
        actual: [u8; 4],
    },
    /// Header major version is unsupported.
    UnsupportedMajor {
        /// Major version found in the frame.
        major: u16,
    },
    /// Payload length exceeds [`MAX_PAYLOAD_LEN`].
    PayloadTooLarge {
        /// Payload length found in the header.
        len: u32,
    },
    /// Frame byte count does not match the advertised payload length.
    LengthMismatch {
        /// Required full frame length.
        expected: usize,
        /// Actual full frame length.
        actual: usize,
    },
    /// Message kind is not known to this protocol version.
    UnknownKind {
        /// Raw message kind.
        kind: u16,
    },
    /// Payload serialization failed.
    Encode(String),
    /// Payload deserialization failed.
    Decode(String),
    /// Board snapshot cell count did not match width times height.
    InvalidSnapshotCellCount {
        /// Expected cell count.
        expected: usize,
        /// Actual cell count.
        actual: usize,
    },
    /// Transport I/O failed while reading or writing a frame.
    Io(String),
    /// A peer sent an unexpected message for the current session step.
    UnexpectedMessage {
        /// Expected message kind or flow state.
        expected: &'static str,
        /// Actual message kind received.
        actual: MessageKind,
    },
    /// The remote peer does not support this protocol major version.
    IncompatiblePeerVersion {
        /// Peer-advertised major version.
        major: u16,
        /// Peer-advertised minor version.
        minor: u16,
    },
    /// The remote host denied a direct challenge.
    ChallengeDenied {
        /// User-facing denial reason.
        reason: String,
    },
}


/// The sixteen header bytes of a frame: magic, major, minor, kind, flags, payload length.
pub open spec fn header_bytes(h: FrameHeader) -> Seq<u8> {
    seq![66u8, 84u8, 82u8, 83u8] + u16_be(h.major) + u16_be(h.minor) + u16_be(h.kind) + u16_be(h.flags) + u32_be(
        h.payload_len,
    )
}

/// Whether the first four bytes are the frame magic `BTRS`.
pub open spec fn magic_ok(b: Seq<u8>) -> bool {
    b[0] == 66 && b[1] == 84 && b[2] == 82 && b[3] == 83
}

/// The header fields that the first sixteen bytes encode, before validation.
pub open spec fn parse_header(b: Seq<u8>) -> FrameHeader {
    FrameHeader {
        major: be_u16(b, 4),
        minor: be_u16(b, 6),
        kind: be_u16(b, 8),
        flags: be_u16(b, 10),
        payload_len: be_u32(b, 12),
    }
}

/// The header of `b` is well formed: long enough, right magic, supported major,
/// and a payload length within the limit.
pub open spec fn header_valid(b: Seq<u8>) -> bool {
    &&& b.len() >= 16
    &&& magic_ok(b)
    &&& parse_header(b).major == 1
    &&& parse_header(b).payload_len <= 65536
}

/// The error reported for a header that is not valid.
pub open spec fn header_error(b: Seq<u8>, e: ProtocolError) -> bool {
    if b.len() < 16 {
        e == ProtocolError::FrameTooShort { actual: b.len() as usize }
    } else if !magic_ok(b) {
        e matches ProtocolError::BadMagic { actual } && actual@ == b.subrange(0, 4)
    } else if parse_header(b).major != 1 {
        e == ProtocolError::UnsupportedMajor { major: parse_header(b).major }
    } else {
        e == ProtocolError::PayloadTooLarge { len: parse_header(b).payload_len }
    }
}

/// Encoding a header and parsing it back gives the same fields.
pub proof fn lemma_header_round_trip(h: FrameHeader)
    ensures
        header_bytes(h).len() == 16,
        magic_ok(header_bytes(h)),
        parse_header(header_bytes(h)) == h,
{
    let b = header_bytes(h);
    lemma_u16_round_trip(h.major);
    lemma_u16_round_trip(h.minor);
    lemma_u16_round_trip(h.kind);
    lemma_u16_round_trip(h.flags);
    lemma_u32_round_trip(h.payload_len);
    assert(b.subrange(4, 6) =~= u16_be(h.major));
    assert(b.subrange(6, 8) =~= u16_be(h.minor));
    assert(b.subrange(8, 10) =~= u16_be(h.kind));
    assert(b.subrange(10, 12) =~= u16_be(h.flags));
    assert(b.subrange(12, 16) =~= u32_be(h.payload_len));
    assert(be_u16(b, 4) == be_u16(u16_be(h.major), 0));
    assert(be_u16(b, 6) == be_u16(u16_be(h.minor), 0));
    assert(be_u16(b, 8) == be_u16(u16_be(h.kind), 0));
    assert(be_u16(b, 10) == be_u16(u16_be(h.flags), 0));
    assert(be_u32(b, 12) == be_u32(u32_be(h.payload_len), 0));
}

/// A frame built from a known kind and a payload within the limit decodes to the
/// current-version header for that kind and exactly that payload.
pub proof fn lemma_frame_round_trip(kind: MessageKind, payload: Seq<u8>)
    requires
        payload.len() <= 65536,
    ensures
        ({
            let h = FrameHeader { major: 1, minor: 0, kind: kind_code(kind) as u16, flags: 0, payload_len: payload.len() as u32 };
            let f = header_bytes(h) + payload;
            &&& header_valid(f)
            &&& parse_header(f) == h
            &&& f.len() == 16 + h.payload_len
            &&& f.subrange(16, f.len() as int) == payload
            &&& kind_of_code(h.kind) == Some(kind)
        }),
{
    let h = FrameHeader { major: 1, minor: 0, kind: kind_code(kind) as u16, flags: 0, payload_len: payload.len() as u32 };
    let f = header_bytes(h) + payload;
    lemma_header_round_trip(h);
    lemma_kind_code_round_trip(kind);
    assert(f.subrange(0, 16) =~= header_bytes(h));
    assert forall|i: int| 0 <= i < 16 implies f[i] == header_bytes(h)[i] by {}
    assert(parse_header(f) == parse_header(header_bytes(h)));
    assert(f.subrange(16, f.len() as int) =~= payload);
}

fn header_to_bytes(h: FrameHeader) -> (r: Vec<u8>)
    ensures
        r@ == header_bytes(h),
{
    let mut r: Vec<u8> = Vec::new();
    r.push(MAGIC[0]);
    r.push(MAGIC[1]);
    r.push(MAGIC[2]);
    r.push(MAGIC[3]);
    push_u16_be(&mut r, h.major);
    push_u16_be(&mut r, h.minor);
    push_u16_be(&mut r, h.kind);
    push_u16_be(&mut r, h.flags);
    push_u32_be(&mut r, h.payload_len);
    assert(r@ =~= header_bytes(h));
    r
}

/// Frames an already encoded payload: the current-version header for `kind`, then the payload.
pub fn encode_frame(kind: MessageKind, payload: &[u8]) -> (r: Result<Vec<u8>, ProtocolError>)
    ensures
        payload@.len() > 65536 ==> r == Err::<Vec<u8>, ProtocolError>(
            ProtocolError::PayloadTooLarge { len: payload@.len() as u32 },
        ),
        payload@.len() <= 65536 ==> (r matches Ok(bytes) && bytes@ == header_bytes(
            FrameHeader { major: 1, minor: 0, kind: kind_code(kind) as u16, flags: 0, payload_len: payload@.len() as u32 },
        ) + payload@),
{
    if payload.len() > MAX_PAYLOAD_LEN as usize {
        return Err(ProtocolError::PayloadTooLarge { len: payload.len() as u32 });
    }
    let header = FrameHeader::new(kind, payload.len() as u32);
    let mut frame = header_to_bytes(header);
    let ghost start = frame@;
    let mut i: usize = 0;
    while i < payload.len()
        invariant
            i <= payload@.len(),
            frame@ == start + payload@.subrange(0, i as int),
        decreases payload@.len() - i,
    {
        frame.push(payload[i]);
        assert(payload@.subrange(0, i + 1) =~= payload@.subrange(0, i as int).push(payload@[i as int]));
        i = i + 1;
    }
    assert(payload@.subrange(0, payload@.len() as int) =~= payload@);
    Ok(frame)
}

/// Validates a frame header: the magic, this protocol major version and the payload limit.
pub fn decode_raw_frame_header(header: &[u8]) -> (r: Result<FrameHeader, ProtocolError>)
    ensures
        header_valid(header@) ==> r == Ok::<FrameHeader, ProtocolError>(parse_header(header@)),
        !header_valid(header@) ==> (r matches Err(e) && header_error(header@, e)),
{
    if header.len() < HEADER_LEN {
        return Err(ProtocolError::FrameTooShort { actual: header.len() });
    }
    if !(header[0] == MAGIC[0] && header[1] == MAGIC[1] && header[2] == MAGIC[2] && header[3] == MAGIC[3]) {
        let actual: [u8; 4] = [header[0], header[1], header[2], header[3]];
        assert(actual@ =~= header@.subrange(0, 4));
        return Err(ProtocolError::BadMagic { actual });
    }
    let parsed = FrameHeader {
        major: read_u16_be(header, 4),
        minor: read_u16_be(header, 6),
        kind: read_u16_be(header, 8),
        flags: read_u16_be(header, 10),
        payload_len: read_u32_be(header, 12),
    };
    if parsed.major != PROTOCOL_MAJOR {
        return Err(ProtocolError::UnsupportedMajor { major: parsed.major });
    }
    if parsed.payload_len > MAX_PAYLOAD_LEN {
        return Err(ProtocolError::PayloadTooLarge { len: parsed.payload_len });
    }
    Ok(parsed)
}

/// Decodes and validates a frame envelope without requiring the message kind to be known.
pub fn decode_raw_frame(frame: &[u8]) -> (r: Result<RawFrame, ProtocolError>)
    ensures
        !header_valid(frame@) ==> (r matches Err(e) && header_error(frame@, e)),
        header_valid(frame@) && frame@.len() != 16 + parse_header(frame@).payload_len ==> r
            == Err::<RawFrame, ProtocolError>(
            ProtocolError::LengthMismatch {
                expected: (16 + parse_header(frame@).payload_len) as usize,
                actual: frame@.len() as usize,
            },
        ),
        header_valid(frame@) && frame@.len() == 16 + parse_header(frame@).payload_len ==> (r matches Ok(raw)
            && raw.header == parse_header(frame@) && raw.payload@ == frame@.subrange(16, frame@.len() as int)),
{
    let header = decode_raw_frame_header(frame)?;
    let expected = HEADER_LEN + header.payload_len as usize;
    if frame.len() != expected {
        return Err(ProtocolError::LengthMismatch { expected, actual: frame.len() });
    }
    let mut payload: Vec<u8> = Vec::new();
    let mut i: usize = HEADER_LEN;
    while i < frame.len()
        invariant
            16 <= i <= frame@.len(),
            payload@ == frame@.subrange(16, i as int),
        decreases frame@.len() - i,
    {
        payload.push(frame[i]);
        assert(frame@.subrange(16, i + 1) =~= frame@.subrange(16, i as int).push(frame@[i as int]));
        i = i + 1;
    }
    Ok(RawFrame { header, payload })
}

/// Decodes a frame envelope and resolves its message kind, leaving the payload
/// bytes for the message codec.
pub fn decode_known_frame(frame: &[u8]) -> (r: Result<(MessageKind, Vec<u8>), ProtocolError>)
    ensures
        !header_valid(frame@) ==> (r matches Err(e) && header_error(frame@, e)),
        header_valid(frame@) && frame@.len() != 16 + parse_header(frame@).payload_len ==> r
            == Err::<(MessageKind, Vec<u8>), ProtocolError>(
            ProtocolError::LengthMismatch {
                expected: (16 + parse_header(frame@).payload_len) as usize,
                actual: frame@.len() as usize,
            },
        ),
        header_valid(frame@) && frame@.len() == 16 + parse_header(frame@).payload_len ==> match kind_of_code(parse_header(frame@).kind) {
            None => r == Err::<(MessageKind, Vec<u8>), ProtocolError>(
                ProtocolError::UnknownKind { kind: parse_header(frame@).kind },
            ),
            Some(k) => (r matches Ok((kind, payload)) && kind == k && payload@ == frame@.subrange(
                16,
                frame@.len() as int,
            )),
        },
{
    let raw = decode_raw_frame(frame)?;
    match MessageKind::from_u16(raw.header.kind) {
        Some(kind) => Ok((kind, raw.payload)),
        None => Err(ProtocolError::UnknownKind { kind: raw.header.kind }),
    }
}

impl BoardSnapshot {
    /// Creates a board snapshot after validating the row-major cell count.
    pub fn new(player: PlayerSlot, motivation: i32, width: u16, height: u16, cells: Vec<i16>) -> (r: Result<
        Self,
        ProtocolError,
    >)
        ensures
            cells@.len() != width * height ==> r == Err::<Self, ProtocolError>(
                ProtocolError::InvalidSnapshotCellCount {
                    expected: (width * height) as usize,
                    actual: cells@.len() as usize,
                },
            ),
            cells@.len() == width * height ==> (r matches Ok(s) && s.player == player && s.motivation == motivation
                && s.width == width && s.height == height && s.cells@ == cells@),
    {
        assert((width as int) * (height as int) <= 0xFFFE_0001) by (nonlinear_arith)
            requires
                width <= 0xFFFF,
                height <= 0xFFFF,
        ;
        let expected = (width as usize) * (height as usize);
        if cells.len() != expected {
            return Err(ProtocolError::InvalidSnapshotCellCount { expected, actual: cells.len() });
        }
        Ok(Self { player, motivation, width, height, cells })
    }
}

/// Some key of `m` reads `key` and maps to a value reading `value`.
pub open spec fn txt_entry(m: Map<String, String>, key: Seq<char>, value: Seq<char>) -> bool {
    exists|k: String| m.contains_key(k) && k@ == key && #[trigger] m[k]@ == value
}

/// The decimal text of a port number.
pub open spec fn port_text(port: u16) -> Seq<char> {
    decimal(port as nat)
}

fn port_string(port: u16) -> (r: String)
    ensures
        r@ == port_text(port),
{
    decimal_string(port as u64)
}

impl LanAdvertisement {
    /// Builds TXT metadata for a locally hosted direct-connect game.
    ///
    /// The map's contents are stated under the standard-library ordering law for
    /// `String` keys, which is what `BTreeMap` relies on.
    #[must_use]
    pub fn available(identity: &PlayerIdentity, port: u16) -> (r: Self)
        ensures
            r.service == LAN_DISCOVERY_SERVICE,
            r.port == port,
            vstd::laws_cmp::obeys_cmp::<String>() ==> {
                &&& txt_entry(r.txt@, "protocol_major"@, decimal(1))
                &&& txt_entry(r.txt@, "protocol_minor"@, decimal(0))
                &&& txt_entry(r.txt@, "display_name"@, identity.display_name@)
                &&& txt_entry(r.txt@, "port"@, port_text(port))
                &&& txt_entry(r.txt@, "state"@, "available"@)
                &&& forall|k: String| #[trigger] r.txt@.contains_key(k) ==> k@ == "protocol_major"@ || k@ == "protocol_minor"@
                    || k@ == "display_name"@ || k@ == "port"@ || k@ == "state"@
            },
    {
        proof {
            reveal_strlit("protocol_major");
            reveal_strlit("protocol_minor");
            reveal_strlit("display_name");
            reveal_strlit("port");
            reveal_strlit("state");
        }
        let k1 = "protocol_major".to_owned();
        let k2 = "protocol_minor".to_owned();
        let k3 = "display_name".to_owned();
        let k4 = "port".to_owned();
        let k5 = "state".to_owned();
        let v1 = decimal_string(1);
        let v2 = decimal_string(0);
        let v3 = identity.display_name.clone();
        let v4 = port_string(port);
        let v5 = "available".to_owned();
        let ghost (g1, g2, g3, g4, g5) = (k1, k2, k3, k4, k5);
        let ghost (w1, w2, w3, w4, w5) = (v1, v2, v3, v4, v5);
        let mut txt: BTreeMap<String, String> = BTreeMap::new();
        txt.insert(k1, v1);
        txt.insert(k2, v2);
        txt.insert(k3, v3);
        txt.insert(k4, v4);
        txt.insert(k5, v5);
        proof {
            if vstd::laws_cmp::obeys_cmp::<String>() {
                assert(g1@.len() == 14 && g2@.len() == 14 && g3@.len() == 12 && g4@.len() == 4 && g5@.len() == 5);
                assert(g1@[10] != g2@[10]);
                assert(g1@ != g2@ && g1@ != g3@ && g1@ != g4@ && g1@ != g5@);
                assert(g2@ != g3@ && g2@ != g4@ && g2@ != g5@);
                assert(g3@ != g4@ && g3@ != g5@ && g4@ != g5@);
                assert(txt@ == Map::<String, String>::empty().insert(g1, w1).insert(g2, w2).insert(g3, w3).insert(g4, w4).insert(g5, w5));
                assert(txt@.contains_key(g1) && txt@[g1] == w1);
                assert(txt@.contains_key(g2) && txt@[g2] == w2);
                assert(txt@.contains_key(g3) && txt@[g3] == w3);
                assert(txt@.contains_key(g4) && txt@[g4] == w4);
                assert(txt@.contains_key(g5) && txt@[g5] == w5);
            }
        }
        Self { service: LAN_DISCOVERY_SERVICE, port, txt }
    }
}


/// The greeting a peer opens a direct session with: this protocol version, the identity and
/// every capability this crate speaks.
pub fn hello_for(identity: PlayerIdentity) -> (r: WireMessage)
    ensures
        r matches WireMessage::Hello(h) && {
            &&& h.major == PROTOCOL_MAJOR
            &&& h.minor == PROTOCOL_MINOR
            &&& h.identity.display_name@ == identity.display_name@
            &&& h.capabilities@.len() == 3
            &&& h.capabilities@[0]@ == CAPABILITY_DIRECT_TCP@
            &&& h.capabilities@[1]@ == CAPABILITY_LAN_DISCOVERY@
            &&& h.capabilities@[2]@ == CAPABILITY_SELF_HOSTED_LOBBY@
        },
{
    let mut capabilities: Vec<String> = Vec::new();
    capabilities.push(CAPABILITY_DIRECT_TCP.to_owned());
    capabilities.push(CAPABILITY_LAN_DISCOVERY.to_owned());
    capabilities.push(CAPABILITY_SELF_HOSTED_LOBBY.to_owned());
    WireMessage::Hello(Hello { major: PROTOCOL_MAJOR, minor: PROTOCOL_MINOR, identity, capabilities })
}

/// The first message of a session must be a hello of this protocol major version; gives the
/// peer's identity.
pub fn expect_hello(message: WireMessage) -> (r: Result<PlayerIdentity, ProtocolError>)
    ensures
        match message {
            WireMessage::Hello(h) => if h.major != PROTOCOL_MAJOR {
                r == Err::<PlayerIdentity, ProtocolError>(ProtocolError::IncompatiblePeerVersion { major: h.major, minor: h.minor })
            } else {
                r == Ok::<PlayerIdentity, ProtocolError>(h.identity)
            },
            _ => r matches Err(ProtocolError::UnexpectedMessage { expected, actual }) && expected@ == "hello"@
                && actual == message_kind(message),
        },
{
    proof {
        reveal_strlit("hello");
    }
    match message {
        WireMessage::Hello(hello) => {
            if hello.major != PROTOCOL_MAJOR {
                return Err(ProtocolError::IncompatiblePeerVersion { major: hello.major, minor: hello.minor });
            }
            Ok(hello.identity)
        },
        message => {
            let actual = message.kind();
            Err(ProtocolError::UnexpectedMessage { expected: "hello", actual })
        },
    }
}

/// After the greetings a host waits for the challenge itself.
pub fn expect_challenge(message: WireMessage) -> (r: Result<Challenge, ProtocolError>)
    ensures
        match message {
            WireMessage::Challenge(c) => r == Ok::<Challenge, ProtocolError>(c),
            _ => r matches Err(ProtocolError::UnexpectedMessage { expected, actual }) && expected@ == "challenge"@
                && actual == message_kind(message),
        },
{
    proof {
        reveal_strlit("challenge");
    }
    match message {
        WireMessage::Challenge(challenge) => Ok(challenge),
        message => {
            let actual = message.kind();
            Err(ProtocolError::UnexpectedMessage { expected: "challenge", actual })
        },
    }
}

/// A challenger waits for the host's answer: acceptance goes on, a denial ends the join with
/// its reason.
pub fn expect_acceptance(message: WireMessage) -> (r: Result<(), ProtocolError>)
    ensures
        match message {
            WireMessage::ChallengeAccepted(_) => r is Ok,
            WireMessage::ChallengeDenied(d) => r == Err::<(), ProtocolError>(ProtocolError::ChallengeDenied { reason: d.reason }),
            _ => r matches Err(ProtocolError::UnexpectedMessage { expected, actual }) && expected@ == "challenge accepted"@
                && actual == message_kind(message),
        },
{
    proof {
        reveal_strlit("challenge accepted");
    }
    match message {
        WireMessage::ChallengeAccepted(_) => Ok(()),
        WireMessage::ChallengeDenied(denied) => Err(ProtocolError::ChallengeDenied { reason: denied.reason }),
        message => {
            let actual = message.kind();
            Err(ProtocolError::UnexpectedMessage { expected: "challenge accepted", actual })
        },
    }
}

/// After acceptance a challenger waits for the start parameters.
pub fn expect_start(message: WireMessage) -> (r: Result<StartGame, ProtocolError>)
    ensures
        match message {
            WireMessage::StartGame(s) => r == Ok::<StartGame, ProtocolError>(s),
            _ => r matches Err(ProtocolError::UnexpectedMessage { expected, actual }) && expected@ == "start game"@
                && actual == message_kind(message),
        },
{
    proof {
        reveal_strlit("start game");
    }
    match message {
        WireMessage::StartGame(start) => Ok(start),
        message => {
            let actual = message.kind();
            Err(ProtocolError::UnexpectedMessage { expected: "start game", actual })
        },
    }
}

} // verus!
