//! Self-hosted BattleTris lobby and ranked-result authority.
//!
//! The server issues lobby sessions and seeds, admits only matching protocol-major clients,
//! and lets a ranked result be recorded only after both players submit matching claims.
//! Reading and writing player records is left to the caller: the steps that need the store
//! hand back what to write, and a second step commits the session change once it is written.

use crate::db::{CommunityLabel, GameResult, OpponentKind, PlayerId, PlayerProfile, StoreError};
use crate::protocol::{
    HostedGameStart, HostedPlayer, HostedSessionId, HostedSessionStatus, HostedSessionStatusKind, LobbyEntry,
    LobbyRegister, RankedPlayerRecord, RankedRecords, RankedResultClaim, PROTOCOL_MAJOR, PROTOCOL_MINOR,
};
use crate::text::{string_from_chars, text_chars, trim_chars, trimmed};
use vstd::prelude::*;

verus! {

/// Server-side lobby and ranked-result failures.
#[derive(Debug)]
pub enum ServerError {
    /// Client protocol major version does not match this server.
    ProtocolMajorMismatch {
        /// Client major version.
        client_major: u16,
        /// Server major version.
        server_major: u16,
    },
    /// A required string field was empty.
    InvalidLobbyEntry(&'static str),
    /// The referenced session does not exist.
    UnknownSession(HostedSessionId),
    /// The referenced session is no longer accepting the requested operation.
    SessionUnavailable(HostedSessionId),
    /// The player is not one of the two session participants.
    WrongParticipant(String),
    /// The result does not identify the two session participants as winner/loser.
    InvalidResultParticipants,
    /// The second claim for a session did not match the first claim.
    ResultClaimMismatch,
    /// The persistence layer rejected a ranked write.
    Persistence(StoreError),
}

/// Result of submitting a hosted ranked result claim.
#[derive(Debug, Clone, Copy, PartialEq, Eq)]
pub enum VerificationOutcome {
    /// The first matching participant claim was accepted; the server is waiting
    /// for the other participant before mutating records.
    AwaitingPeer,
    /// Both participants submitted matching claims and the server recorded the result.
    Recorded,
}

/// Where a hosted session stands.
#[derive(Debug)]
pub enum SessionState {
    /// Listed in the lobby, waiting for a joiner.
    Available,
    /// Started with a joiner.
    InProgress {
        /// The joining player.
        joiner: HostedPlayer,
        /// The start parameters handed to both players.
        start: HostedGameStart,
    },
    /// Its ranked result was recorded.
    Completed,
}

/// One hosted lobby session.
#[derive(Debug)]
pub struct Session {
    /// Server-issued session id.
    pub id: HostedSessionId,
    /// Hosting player.
    pub host: HostedPlayer,
    /// Direct TCP address peers use for gameplay transport.
    pub direct_addr: String,
    /// Whether matching result claims may update records.
    pub ranked: bool,
    /// Host protocol major version.
    pub protocol_major: u16,
    /// Host protocol minor version.
    pub protocol_minor: u16,
    /// Where the session stands.
    pub state: SessionState,
    /// The first participant's result claim, while the other one's is awaited.
    pub pending_claim: Option<RankedResultClaim>,
}

/// Code-point lexicographic order, which is the byte order of UTF-8 text.
pub open spec fn text_lt(a: Seq<char>, b: Seq<char>) -> bool
    decreases a.len(),
{
    if a.len() == 0 {
        b.len() > 0
    } else if b.len() == 0 {
        false
    } else if a[0] != b[0] {
        a[0] < b[0]
    } else {
        text_lt(a.drop_first(), b.drop_first())
    }
}

/// Two texts are equal or ordered one way or the other, never both ways.
pub proof fn lemma_text_order(a: Seq<char>, b: Seq<char>)
    ensures
        a == b || text_lt(a, b) || text_lt(b, a),
        !(text_lt(a, b) && text_lt(b, a)),
        !text_lt(a, a),
    decreases a.len(),
{
    if a.len() > 0 {
        lemma_text_order(a.drop_first(), a.drop_first());
    }
    if a.len() == 0 {
        if b.len() == 0 {
            assert(a =~= b);
        }
    } else if b.len() == 0 {
    } else if a[0] != b[0] {
    } else {
        lemma_text_order(a.drop_first(), b.drop_first());
        lemma_text_order(a.drop_first(), a.drop_first());
        if a.drop_first() == b.drop_first() {
            assert forall|i: int| 0 <= i < a.len() implies a[i] == b[i] by {
                if i > 0 {
                    assert(a[i] == a.drop_first()[i - 1]);
                    assert(b[i] == b.drop_first()[i - 1]);
                }
            }
            assert(a =~= b);
        }
    }
}

/// The text order is transitive.
pub proof fn lemma_text_trans(a: Seq<char>, b: Seq<char>, c: Seq<char>)
    requires
        text_lt(a, b),
        text_lt(b, c),
    ensures
        text_lt(a, c),
    decreases a.len(),
{
    if a.len() > 0 && b.len() > 0 && c.len() > 0 && a[0] == b[0] && b[0] == c[0] {
        lemma_text_trans(a.drop_first(), b.drop_first(), c.drop_first());
    }
}

/// The id text of a session.
pub open spec fn id_of(s: Session) -> Seq<char> {
    s.id.0@
}

/// Sessions ordered strictly by id, as a sorted map holds them.
pub open spec fn ids_sorted(sessions: Seq<Session>) -> bool {
    forall|i: int, j: int| 0 <= i < j < sessions.len() ==> text_lt(id_of(#[trigger] sessions[i]), id_of(#[trigger] sessions[j]))
}

/// The position of the session with an id, if there is one.
pub open spec fn position_of(sessions: Seq<Session>, id: Seq<char>) -> Option<int> {
    if exists|k: int| 0 <= k < sessions.len() && id_of(#[trigger] sessions[k]) == id {
        Some(choose|k: int| 0 <= k < sessions.len() && id_of(#[trigger] sessions[k]) == id)
    } else {
        None
    }
}

/// The text of a session id the server issues for a number.
pub open spec fn session_label(n: u64) -> Seq<char> {
    "session-"@ + crate::wire::decimal(n as nat)
}

/// The error for a session that is not there: unavailable once expired, otherwise unknown.
pub open spec fn missing_error(stale: Set<Seq<char>>, id: Seq<char>, e: ServerError) -> bool {
    if stale.contains(id) {
        e matches ServerError::SessionUnavailable(i) && i.0@ == id
    } else {
        e matches ServerError::UnknownSession(i) && i.0@ == id
    }
}

/// Whether a player is a copy of another, field by field.
pub open spec fn same_player(a: HostedPlayer, b: HostedPlayer) -> bool {
    a.player_id@ == b.player_id@ && a.display_name@ == b.display_name@
}

/// A lobby entry lists a session.
pub open spec fn lists(entry: LobbyEntry, s: Session) -> bool {
    &&& entry.session_id.0@ == id_of(s)
    &&& same_player(entry.host, s.host)
    &&& entry.direct_addr@ == s.direct_addr@
    &&& entry.ranked == s.ranked
    &&& entry.protocol_major == s.protocol_major
    &&& entry.protocol_minor == s.protocol_minor
}

/// The sessions a lobby listing shows among the first `n`: the available ones, and only
/// ranked ones when asked.
pub open spec fn listed(sessions: Seq<Session>, ranked_only: bool, n: int) -> Seq<Session>
    decreases n,
{
    if n <= 0 {
        Seq::empty()
    } else {
        let prev = listed(sessions, ranked_only, n - 1);
        let s = sessions[n - 1];
        if s.state is Available && (s.ranked || !ranked_only) {
            prev.push(s)
        } else {
            prev
        }
    }
}

/// Why a player's presence is refused, if it is: an empty id, then an empty name.
pub open spec fn player_fault(p: HostedPlayer) -> Option<Seq<char>> {
    if trimmed(p.player_id@).len() == 0 {
        Some("player_id"@)
    } else if trimmed(p.display_name@).len() == 0 {
        Some("display_name"@)
    } else {
        None
    }
}

fn copy_player(p: &HostedPlayer) -> (r: HostedPlayer)
    ensures
        same_player(r, *p),
{
    HostedPlayer { player_id: p.player_id.clone(), display_name: p.display_name.clone() }
}

fn copy_id(id: &HostedSessionId) -> (r: HostedSessionId)
    ensures
        r.0@ == id.0@,
{
    HostedSessionId(id.0.clone())
}

fn blank(s: &String) -> (r: bool)
    ensures
        r == (trimmed(s@).len() == 0),
{
    trim_chars(&text_chars(s.as_str()), false).len() == 0
}

fn text_less(a: &String, b: &String) -> (r: bool)
    ensures
        r == text_lt(a@, b@),
{
    let x = text_chars(a.as_str());
    let y = text_chars(b.as_str());
    let mut i: usize = 0;
    assert(x@.skip(0) =~= x@);
    assert(y@.skip(0) =~= y@);
    while i < x.len() && i < y.len() && x[i] == y[i]
        invariant
            i <= x@.len(),
            i <= y@.len(),
            text_lt(a@, b@) == text_lt(x@.skip(i as int), y@.skip(i as int)),
            x@ == a@,
            y@ == b@,
        decreases x@.len() - i,
    {
        assert(x@.skip(i as int).drop_first() =~= x@.skip(i + 1));
        assert(y@.skip(i as int).drop_first() =~= y@.skip(i + 1));
        i = i + 1;
    }
    let ghost xs = x@.skip(i as int);
    let ghost ys = y@.skip(i as int);
    if i == x.len() {
        assert(xs.len() == 0);
        return i < y.len();
    }
    if i == y.len() {
        return false;
    }
    assert(xs[0] == x@[i as int] && ys[0] == y@[i as int]);
    x[i] < y[i]
}

fn validate_hosted_player(player: &HostedPlayer) -> (r: Result<(), ServerError>)
    ensures
        match player_fault(*player) {
            Some(f) => r matches Err(ServerError::InvalidLobbyEntry(k)) && k@ == f,
            None => r is Ok,
        },
{
    if blank(&player.player_id) {
        return Err(ServerError::InvalidLobbyEntry("player_id"));
    }
    if blank(&player.display_name) {
        return Err(ServerError::InvalidLobbyEntry("display_name"));
    }
    Ok(())
}

/// Current server protocol version for lobby admission.
#[must_use]
pub fn server_protocol_version() -> (r: (u16, u16))
    ensures
        r == (PROTOCOL_MAJOR, PROTOCOL_MINOR),
{
    (PROTOCOL_MAJOR, PROTOCOL_MINOR)
}

/// In-memory self-hosted lobby authority for one community label.
#[derive(Debug)]
pub struct HostedLobbyServer {
    community_label: CommunityLabel,
    next_session_number: u64,
    next_seed: u64,
    sessions: Vec<Session>,
    stale_sessions: Vec<HostedSessionId>,
}

impl HostedLobbyServer {
    /// The sessions, ordered by id.
    pub closed spec fn sessions_spec(&self) -> Seq<Session> {
        self.sessions@
    }

    /// The ids of expired sessions.
    pub closed spec fn stale_spec(&self) -> Set<Seq<char>> {
        Set::new(|id: Seq<char>| exists|k: int| 0 <= k < self.stale_sessions@.len() && #[trigger] self.stale_sessions@[k].0@ == id)
    }

    /// The number of the next session id.
    pub closed spec fn next_number(&self) -> u64 {
        self.next_session_number
    }

    /// The seed the next started game gets.
    pub closed spec fn next_seed_spec(&self) -> u64 {
        self.next_seed
    }

    /// The community the server ranks.
    pub closed spec fn label_spec(&self) -> Seq<char> {
        self.community_label@
    }

    /// Sessions are kept ordered by id.
    pub closed spec fn wf(&self) -> bool {
        ids_sorted(self.sessions@)
    }

    /// Creates an empty hosted lobby authority.
    #[must_use]
    pub fn new(community_label: CommunityLabel, first_seed: u64) -> (r: Self)
        ensures
            r.wf(),
            r.sessions_spec().len() == 0,
            r.stale_spec() == Set::<Seq<char>>::empty(),
            r.next_number() == 1,
            r.next_seed_spec() == first_seed,
            r.label_spec() == community_label@,
    {
        let r = Self {
            community_label,
            next_session_number: 1,
            next_seed: first_seed,
            sessions: Vec::new(),
            stale_sessions: Vec::new(),
        };
        assert(r.stale_spec() =~= Set::<Seq<char>>::empty());
        r
    }

    /// The community this server ranks.
    pub fn community_label(&self) -> (r: &CommunityLabel)
        ensures
            r@ == self.label_spec(),
    {
        &self.community_label
    }

    /// Whether another session id can still be issued.
    pub fn can_register(&self) -> (r: bool)
        ensures
            r == (self.next_number() < u64::MAX),
    {
        self.next_session_number < u64::MAX
    }

    fn position(&self, id: &HostedSessionId) -> (r: Option<usize>)
        requires
            self.wf(),
        ensures
            r is Some <==> position_of(self.sessions@, id.0@) is Some,
            r matches Some(k) ==> position_of(self.sessions@, id.0@) == Some(k as int) && k < self.sessions@.len(),
    {
        let mut k: usize = 0;
        while k < self.sessions.len()
            invariant
                k <= self.sessions@.len(),
                ids_sorted(self.sessions@),
                forall|j: int| 0 <= j < k ==> id_of(#[trigger] self.sessions@[j]) != id.0@,
            decreases self.sessions@.len() - k,
        {
            if self.sessions[k].id.0 == id.0 {
                proof {
                    assert(id_of(self.sessions@[k as int]) == id.0@);
                    let c = choose|j: int| 0 <= j < self.sessions@.len() && id_of(#[trigger] self.sessions@[j]) == id.0@;
                    if c != k {
                        lemma_text_order(id.0@, id.0@);
                        if c < k {
                            assert(text_lt(id_of(self.sessions@[c]), id_of(self.sessions@[k as int])));
                        } else {
                            assert(text_lt(id_of(self.sessions@[k as int]), id_of(self.sessions@[c])));
                        }
                    }
                }
                return Some(k);
            }
            k = k + 1;
        }
        None
    }

    fn missing_session_error(&self, session_id: &HostedSessionId) -> (r: ServerError)
        ensures
            missing_error(self.stale_spec(), session_id.0@, r),
    {
        let mut k: usize = 0;
        while k < self.stale_sessions.len()
            invariant
                k <= self.stale_sessions@.len(),
                forall|j: int| 0 <= j < k ==> (#[trigger] self.stale_sessions@[j]).0@ != session_id.0@,
            decreases self.stale_sessions@.len() - k,
        {
            if self.stale_sessions[k].0 == session_id.0 {
                return ServerError::SessionUnavailable(copy_id(session_id));
            }
            k = k + 1;
        }
        ServerError::UnknownSession(copy_id(session_id))
    }
}


/// `after` holds `s` under its id and otherwise the sessions of `before`: replacing the session
/// with that id, or inserted in order.
pub open spec fn upserted(before: Seq<Session>, after: Seq<Session>, s: Session) -> bool {
    match position_of(before, id_of(s)) {
        Some(k) => after == before.update(k, s),
        None => exists|k: int| 0 <= k <= before.len() && after == before.insert(k, s),
    }
}

fn copy_start(start: &HostedGameStart) -> (r: HostedGameStart)
    ensures
        same_start(r, *start),
{
    HostedGameStart {
        session_id: copy_id(&start.session_id),
        player_one: copy_player(&start.player_one),
        player_two: copy_player(&start.player_two),
        seed: start.seed,
        ranked: start.ranked,
        community_label: start.community_label.clone(),
    }
}

/// Whether a start record is a copy of another, field by field.
pub open spec fn same_start(a: HostedGameStart, b: HostedGameStart) -> bool {
    &&& a.session_id.0@ == b.session_id.0@
    &&& same_player(a.player_one, b.player_one)
    &&& same_player(a.player_two, b.player_two)
    &&& a.seed == b.seed
    &&& a.ranked == b.ranked
    &&& a.community_label@ == b.community_label@
}

impl HostedLobbyServer {
    fn next_session_id(&mut self) -> (r: HostedSessionId)
        requires
            old(self).next_number() < u64::MAX,
        ensures
            r.0@ == session_label(old(self).next_number()),
            final(self).next_number() == old(self).next_number() + 1,
            final(self).sessions_spec() == old(self).sessions_spec(),
            final(self).stale_spec() == old(self).stale_spec(),
            final(self).next_seed_spec() == old(self).next_seed_spec(),
            final(self).label_spec() == old(self).label_spec(),
    {
        proof {
            reveal_strlit("session-");
        }
        let value = self.next_session_number;
        self.next_session_number = self.next_session_number + 1;
        let mut text = string_from_chars(&text_chars("session-"));
        crate::wire::push_decimal(&mut text, value);
        HostedSessionId(text)
    }

    fn upsert(&mut self, session: Session)
        requires
            old(self).wf(),
        ensures
            final(self).wf(),
            upserted(old(self).sessions_spec(), final(self).sessions_spec(), session),
            final(self).stale_spec() == old(self).stale_spec(),
            final(self).next_number() == old(self).next_number(),
            final(self).next_seed_spec() == old(self).next_seed_spec(),
            final(self).label_spec() == old(self).label_spec(),
    {
        let ghost before = self.sessions@;
        let ghost id = id_of(session);
        let mut k: usize = 0;
        while k < self.sessions.len() && text_less(&self.sessions[k].id.0, &session.id.0)
            invariant
                k <= self.sessions@.len(),
                self.sessions@ == before,
                ids_sorted(before),
                id == id_of(session),
                forall|j: int| 0 <= j < k ==> text_lt(id_of(#[trigger] before[j]), id),
            decreases self.sessions@.len() - k,
        {
            k = k + 1;
        }
        if k < self.sessions.len() && self.sessions[k].id.0 == session.id.0 {
            proof {
                assert(id_of(before[k as int]) == id);
                assert(position_of(before, id) == Some(k as int)) by {
                    let c = choose|j: int| 0 <= j < before.len() && id_of(#[trigger] before[j]) == id;
                    lemma_text_order(id, id);
                    if c < k {
                        assert(text_lt(id_of(before[c]), id));
                    } else if c > k {
                        assert(text_lt(id_of(before[k as int]), id_of(before[c])));
                    }
                }
            }
            self.sessions.set(k, session);
            proof {
                assert forall|i: int, j: int| 0 <= i < j < self.sessions@.len() implies text_lt(
                    id_of(#[trigger] self.sessions@[i]),
                    id_of(#[trigger] self.sessions@[j]),
                ) by {
                    assert(id_of(self.sessions@[i]) == id_of(before[i]));
                    assert(id_of(self.sessions@[j]) == id_of(before[j]));
                }
            }
        } else {
            proof {
                if k < before.len() {
                    lemma_text_order(id, id_of(before[k as int]));
                }
                assert(position_of(before, id) is None) by {
                    if exists|j: int| 0 <= j < before.len() && id_of(#[trigger] before[j]) == id {
                        let c = choose|j: int| 0 <= j < before.len() && id_of(#[trigger] before[j]) == id;
                        lemma_text_order(id, id);
                        if c > k {
                            assert(text_lt(id_of(before[k as int]), id_of(before[c])));
                            lemma_text_order(id, id_of(before[k as int]));
                        }
                    }
                }
            }
            self.sessions.insert(k, session);
            proof {
                let after = self.sessions@;
                assert(after == before.insert(k as int, session));
                assert forall|i: int, j: int| 0 <= i < j < after.len() implies text_lt(
                    id_of(#[trigger] after[i]),
                    id_of(#[trigger] after[j]),
                ) by {
                    if j < k {
                        assert(after[i] == before[i] && after[j] == before[j]);
                    } else if j == k {
                        assert(after[i] == before[i]);
                    } else if i == k {
                        assert(after[j] == before[j - 1]);
                        if j - 1 > k {
                            assert(text_lt(id_of(before[k as int]), id_of(before[j - 1])));
                            lemma_text_trans(id, id_of(before[k as int]), id_of(before[j - 1]));
                        }
                    } else if i < k {
                        assert(after[i] == before[i] && after[j] == before[j - 1]);
                        lemma_text_trans(id_of(before[i]), id, id_of(before[k as int]));
                        if j - 1 > k {
                            assert(text_lt(id_of(before[k as int]), id_of(before[j - 1])));
                            lemma_text_trans(id_of(before[i]), id_of(before[k as int]), id_of(before[j - 1]));
                        }
                    } else {
                        assert(after[i] == before[i - 1] && after[j] == before[j - 1]);
                    }
                }
            }
        }
    }

    /// Registers a host as discoverable and returns its lobby entry.
    pub fn register_host(&mut self, request: LobbyRegister, protocol_major: u16, protocol_minor: u16) -> (r: Result<LobbyEntry, ServerError>)
        requires
            old(self).wf(),
            old(self).next_number() < u64::MAX,
        ensures
            final(self).wf(),
            protocol_major != PROTOCOL_MAJOR ==> (r matches Err(ServerError::ProtocolMajorMismatch { client_major, server_major })
                && client_major == protocol_major && server_major == PROTOCOL_MAJOR && *final(self) == *old(self)),
            protocol_major == PROTOCOL_MAJOR && player_fault(request.player) is Some ==> (r matches Err(ServerError::InvalidLobbyEntry(k))
                && k@ == player_fault(request.player)->0 && *final(self) == *old(self)),
            protocol_major == PROTOCOL_MAJOR && player_fault(request.player) is None && trimmed(request.direct_addr@).len() == 0
                ==> (r matches Err(ServerError::InvalidLobbyEntry(k)) && k@ == "direct_addr"@ && *final(self) == *old(self)),
            protocol_major == PROTOCOL_MAJOR && player_fault(request.player) is None && trimmed(request.direct_addr@).len() > 0
                ==> (r matches Ok(entry) && {
                &&& entry.session_id.0@ == session_label(old(self).next_number())
                &&& same_player(entry.host, request.player)
                &&& entry.direct_addr@ == request.direct_addr@
                &&& entry.ranked == request.ranked
                &&& entry.protocol_major == protocol_major
                &&& entry.protocol_minor == protocol_minor
                &&& final(self).next_number() == old(self).next_number() + 1
                &&& final(self).stale_spec() == old(self).stale_spec()
                &&& final(self).next_seed_spec() == old(self).next_seed_spec()
                &&& final(self).label_spec() == old(self).label_spec()
                &&& exists|s: Session| {
                    &&& #[trigger] upserted(old(self).sessions_spec(), final(self).sessions_spec(), s)
                    &&& lists(entry, s)
                    &&& s.state is Available
                    &&& s.pending_claim is None
                }
            }),
    {
        proof {
            reveal_strlit("direct_addr");
        }
        if protocol_major != PROTOCOL_MAJOR {
            return Err(ServerError::ProtocolMajorMismatch { client_major: protocol_major, server_major: PROTOCOL_MAJOR });
        }
        if let Err(e) = validate_hosted_player(&request.player) {
            return Err(e);
        }
        if blank(&request.direct_addr) {
            return Err(ServerError::InvalidLobbyEntry("direct_addr"));
        }
        let session_id = self.next_session_id();
        let entry = LobbyEntry {
            session_id: copy_id(&session_id),
            host: copy_player(&request.player),
            direct_addr: request.direct_addr.clone(),
            ranked: request.ranked,
            protocol_major,
            protocol_minor,
        };
        let session = Session {
            id: session_id,
            host: request.player,
            direct_addr: request.direct_addr,
            ranked: request.ranked,
            protocol_major,
            protocol_minor,
            state: SessionState::Available,
            pending_claim: None,
        };
        let ghost s = session;
        let ghost mid = self.sessions@;
        self.upsert(session);
        assert(upserted(mid, self.sessions@, s));
        Ok(entry)
    }

    /// Lists currently discoverable sessions, in id order.
    #[must_use]
    pub fn lobby_entries(&self, ranked_only: bool) -> (r: Vec<LobbyEntry>)
        ensures
            r@.len() == listed(self.sessions_spec(), ranked_only, self.sessions_spec().len() as int).len(),
            forall|i: int| 0 <= i < r@.len() ==> lists(#[trigger] r@[i], listed(self.sessions_spec(), ranked_only, self.sessions_spec().len() as int)[i]),
    {
        let mut r: Vec<LobbyEntry> = Vec::new();
        let mut k: usize = 0;
        while k < self.sessions.len()
            invariant
                k <= self.sessions@.len(),
                r@.len() == listed(self.sessions@, ranked_only, k as int).len(),
                forall|i: int| 0 <= i < r@.len() ==> lists(#[trigger] r@[i], listed(self.sessions@, ranked_only, k as int)[i]),
            decreases self.sessions@.len() - k,
        {
            let session = &self.sessions[k];
            let available = match session.state {
                SessionState::Available => true,
                _ => false,
            };
            if available && (session.ranked || !ranked_only) {
                let ghost prev = listed(self.sessions@, ranked_only, k as int);
                r.push(LobbyEntry {
                    session_id: copy_id(&session.id),
                    host: copy_player(&session.host),
                    direct_addr: session.direct_addr.clone(),
                    ranked: session.ranked,
                    protocol_major: session.protocol_major,
                    protocol_minor: session.protocol_minor,
                });
                proof {
                    assert(listed(self.sessions@, ranked_only, k + 1) == prev.push(self.sessions@[k as int]));
                    assert forall|i: int| 0 <= i < r@.len() implies lists(#[trigger] r@[i], listed(self.sessions@, ranked_only, k + 1)[i]) by {
                        if i < prev.len() {
                            assert(listed(self.sessions@, ranked_only, k + 1)[i] == prev[i]);
                        }
                    }
                }
            }
            k = k + 1;
        }
        r
    }

    /// Marks a session stale after a disconnect, timeout, or operator action.
    pub fn expire_session(&mut self, session_id: &HostedSessionId) -> (r: bool)
        requires
            old(self).wf(),
        ensures
            final(self).wf(),
            r == position_of(old(self).sessions_spec(), session_id.0@) is Some,
            r ==> final(self).sessions_spec() == old(self).sessions_spec().remove(
                position_of(old(self).sessions_spec(), session_id.0@)->0,
            ) && final(self).stale_spec() == old(self).stale_spec().insert(session_id.0@),
            !r ==> *final(self) == *old(self),
            final(self).next_number() == old(self).next_number(),
            final(self).next_seed_spec() == old(self).next_seed_spec(),
            final(self).label_spec() == old(self).label_spec(),
    {
        match self.position(session_id) {
            None => false,
            Some(k) => {
                let ghost before = self.sessions@;
                let ghost stale_before = self.stale_sessions@;
                proof {
                    let pk = position_of(before, session_id.0@)->0;
                    assert(0 <= pk < before.len());
                    assert(pk == k);
                }
                let _removed = self.sessions.remove(k);
                self.stale_sessions.push(copy_id(session_id));
                proof {
                    assert(self.sessions@ == before.remove(k as int));
                    assert forall|i: int, j: int| 0 <= i < j < self.sessions@.len() implies text_lt(
                        id_of(#[trigger] self.sessions@[i]),
                        id_of(#[trigger] self.sessions@[j]),
                    ) by {
                        let bi = if i < k { i } else { i + 1 };
                        let bj = if j < k { j } else { j + 1 };
                        assert(self.sessions@[i] == before[bi]);
                        assert(self.sessions@[j] == before[bj]);
                    }
                    assert(self.stale_spec() =~= old(self).stale_spec().insert(session_id.0@)) by {
                        assert forall|id: Seq<char>| self.stale_spec().contains(id) == old(self).stale_spec().insert(session_id.0@).contains(id) by {
                            if old(self).stale_spec().contains(id) {
                                let w = choose|m: int| 0 <= m < stale_before.len() && #[trigger] stale_before[m].0@ == id;
                                assert(self.stale_sessions@[w] == stale_before[w]);
                            }
                            if id == session_id.0@ {
                                assert(self.stale_sessions@[stale_before.len() as int].0@ == id);
                            }
                            if self.stale_spec().contains(id) && id != session_id.0@ {
                                let w = choose|m: int| 0 <= m < self.stale_sessions@.len() && #[trigger] self.stale_sessions@[m].0@ == id;
                                assert(w < stale_before.len());
                                assert(stale_before[w] == self.stale_sessions@[w]);
                            }
                        }
                    }
                }
                true
            },
        }
    }
}


/// What a status request for a session gives.
pub open spec fn status_of(s: Session, id: Seq<char>, requester: Seq<char>, r: Result<HostedSessionStatus, ServerError>) -> bool {
    match s.state {
        SessionState::Available => if requester != s.host.player_id@ {
            r matches Err(ServerError::WrongParticipant(p)) && p@ == requester
        } else {
            r matches Ok(st) && st.session_id.0@ == id && st.status is WaitingForPeer
        },
        SessionState::InProgress { joiner, start } => if requester != s.host.player_id@ && requester != joiner.player_id@ {
            r matches Err(ServerError::WrongParticipant(p)) && p@ == requester
        } else {
            r matches Ok(st) && st.session_id.0@ == id && (st.status matches HostedSessionStatusKind::Started(s2) && same_start(s2, start))
        },
        SessionState::Completed => r matches Ok(st) && st.session_id.0@ == id && (st.status matches HostedSessionStatusKind::Unavailable {
            reason,
        } && reason@ == "session completed"@),
    }
}

/// Why a claim does not name the session's players, if it does not: a reporter who is not
/// one of them, then a winner and loser that are not the two of them.
pub open spec fn claim_fault(claim: RankedResultClaim, host: Seq<char>, joiner: Seq<char>) -> Option<bool> {
    let reporter = claim.reporter_player_id@;
    let winner = claim.winner_player_id@;
    let loser = claim.loser_player_id@;
    if reporter != host && reporter != joiner {
        Some(true)
    } else if winner == loser || (winner != host && winner != joiner) || (loser != host && loser != joiner) {
        Some(false)
    } else {
        None
    }
}

/// Two claims report the same game: every field but the reporter agrees.
pub open spec fn claims_agree(a: RankedResultClaim, b: RankedResultClaim) -> bool {
    &&& a.session_id.0@ == b.session_id.0@
    &&& a.winner_player_id@ == b.winner_player_id@
    &&& a.loser_player_id@ == b.loser_player_id@
    &&& a.winner_score == b.winner_score
    &&& a.winner_lines == b.winner_lines
    &&& a.winner_funds == b.winner_funds
    &&& a.loser_score == b.loser_score
    &&& a.loser_lines == b.loser_lines
    &&& a.loser_funds == b.loser_funds
    &&& a.duration_secs == b.duration_secs
    &&& a.duration_ticks == b.duration_ticks
    &&& a.event_count == b.event_count
    &&& a.final_checksum == b.final_checksum
}

fn same_text(a: &String, b: &String) -> (r: bool)
    ensures
        r == (a@ == b@),
{
    *a == *b
}

fn claims_match(left: &RankedResultClaim, right: &RankedResultClaim) -> (r: bool)
    ensures
        r == claims_agree(*left, *right),
{
    same_text(&left.session_id.0, &right.session_id.0) && same_text(&left.winner_player_id, &right.winner_player_id)
        && same_text(&left.loser_player_id, &right.loser_player_id) && left.winner_score == right.winner_score
        && left.winner_lines == right.winner_lines && left.winner_funds == right.winner_funds && left.loser_score
        == right.loser_score && left.loser_lines == right.loser_lines && left.loser_funds == right.loser_funds
        && left.duration_secs == right.duration_secs && left.duration_ticks == right.duration_ticks
        && left.event_count == right.event_count && left.final_checksum == right.final_checksum
}

fn validate_claim(claim: &RankedResultClaim, host: &HostedPlayer, joiner: &HostedPlayer) -> (r: Result<(), ServerError>)
    ensures
        match claim_fault(*claim, host.player_id@, joiner.player_id@) {
            Some(true) => r matches Err(ServerError::WrongParticipant(p)) && p@ == claim.reporter_player_id@,
            Some(false) => r matches Err(ServerError::InvalidResultParticipants),
            None => r is Ok,
        },
{
    let reporter = &claim.reporter_player_id;
    if !same_text(reporter, &host.player_id) && !same_text(reporter, &joiner.player_id) {
        return Err(ServerError::WrongParticipant(claim.reporter_player_id.clone()));
    }
    let winner = &claim.winner_player_id;
    let loser = &claim.loser_player_id;
    let winner_in = same_text(winner, &host.player_id) || same_text(winner, &joiner.player_id);
    let loser_in = same_text(loser, &host.player_id) || same_text(loser, &joiner.player_id);
    if same_text(winner, loser) || !winner_in || !loser_in {
        return Err(ServerError::InvalidResultParticipants);
    }
    Ok(())
}

/// The ranked human result a claim describes in a community, if both ids are valid.
pub open spec fn claimed_result(claim: RankedResultClaim, label: Seq<char>, r: Result<GameResult, ServerError>) -> bool {
    match crate::db::label_fault("player id"@, claim.winner_player_id@, 128) {
        Some(msg) => r matches Err(ServerError::Persistence(crate::db::StoreError::InvalidIdentity(m))) && m@ == msg,
        None => match crate::db::label_fault("player id"@, claim.loser_player_id@, 128) {
            Some(msg) => r matches Err(ServerError::Persistence(crate::db::StoreError::InvalidIdentity(m))) && m@ == msg,
            None => r matches Ok(g) && {
                &&& g.community_label@ == label
                &&& g.winner_id@ == trimmed(claim.winner_player_id@)
                &&& g.loser_id@ == trimmed(claim.loser_player_id@)
                &&& g.winner_score == claim.winner_score
                &&& g.winner_lines == claim.winner_lines
                &&& g.winner_funds == claim.winner_funds
                &&& g.loser_score == claim.loser_score
                &&& g.loser_lines == claim.loser_lines
                &&& g.loser_funds == claim.loser_funds
                &&& g.duration_secs == claim.duration_secs
                &&& g.ranked
                &&& g.opponent_kind == OpponentKind::Human
            },
        },
    }
}

fn game_result_from_claim(claim: &RankedResultClaim, community_label: &CommunityLabel) -> (r: Result<GameResult, ServerError>)
    ensures
        claimed_result(*claim, community_label@, r),
{
    let winner_id = match PlayerId::new(claim.winner_player_id.as_str()) {
        Ok(id) => id,
        Err(e) => {
            return Err(ServerError::Persistence(e));
        },
    };
    let loser_id = match PlayerId::new(claim.loser_player_id.as_str()) {
        Ok(id) => id,
        Err(e) => {
            return Err(ServerError::Persistence(e));
        },
    };
    Ok(GameResult {
        community_label: community_label.duplicate(),
        winner_id,
        loser_id,
        winner_score: claim.winner_score,
        winner_lines: claim.winner_lines,
        winner_funds: claim.winner_funds,
        loser_score: claim.loser_score,
        loser_lines: claim.loser_lines,
        loser_funds: claim.loser_funds,
        duration_secs: claim.duration_secs,
        ranked: true,
        opponent_kind: OpponentKind::Human,
    })
}

/// The next step after a valid claim: wait for the other player, or record this result.
#[derive(Debug)]
pub enum ClaimStep {
    /// The claim is held until the other participant's arrives.
    AwaitingPeer,
    /// Both claims agree: this result is to be recorded, then the session completed.
    Record(GameResult),
}

impl HostedLobbyServer {
    /// Returns server-owned status for a hosted lobby session participant.
    pub fn session_status(&self, session_id: &HostedSessionId, requester_player_id: &str) -> (r: Result<HostedSessionStatus, ServerError>)
        requires
            self.wf(),
        ensures
            match position_of(self.sessions_spec(), session_id.0@) {
                None => r matches Err(e) && missing_error(self.stale_spec(), session_id.0@, e),
                Some(k) => status_of(self.sessions_spec()[k], session_id.0@, requester_player_id@, r),
            },
    {
        proof {
            reveal_strlit("session completed");
        }
        let k = match self.position(session_id) {
            Some(k) => k,
            None => {
                return Err(self.missing_session_error(session_id));
            },
        };
        let session = &self.sessions[k];
        let requester = requester_player_id.to_owned();
        match &session.state {
            SessionState::Available => {
                if !same_text(&requester, &session.host.player_id) {
                    return Err(ServerError::WrongParticipant(requester));
                }
                Ok(HostedSessionStatus { session_id: copy_id(session_id), status: HostedSessionStatusKind::WaitingForPeer })
            },
            SessionState::InProgress { joiner, start } => {
                if !same_text(&requester, &session.host.player_id) && !same_text(&requester, &joiner.player_id) {
                    return Err(ServerError::WrongParticipant(requester));
                }
                Ok(HostedSessionStatus { session_id: copy_id(session_id), status: HostedSessionStatusKind::Started(copy_start(start)) })
            },
            SessionState::Completed => Ok(
                HostedSessionStatus {
                    session_id: copy_id(session_id),
                    status: HostedSessionStatusKind::Unavailable { reason: string_from_chars(&text_chars("session completed")) },
                },
            ),
        }
    }

    /// Checks a join and draws the seed for it: the start parameters a hosted game would get.
    /// The session stays available until `confirm_start`; once the joiner is admitted the
    /// seed is drawn whether or not the session can start.
    pub fn start_game(&mut self, session_id: &HostedSessionId, joiner: HostedPlayer, joiner_protocol_major: u16) -> (r: Result<HostedGameStart, ServerError>)
        requires
            old(self).wf(),
        ensures
            final(self).wf(),
            final(self).sessions_spec() == old(self).sessions_spec(),
            final(self).stale_spec() == old(self).stale_spec(),
            final(self).next_number() == old(self).next_number(),
            final(self).label_spec() == old(self).label_spec(),
            joiner_protocol_major != PROTOCOL_MAJOR ==> (r matches Err(ServerError::ProtocolMajorMismatch { client_major, server_major })
                && client_major == joiner_protocol_major && server_major == PROTOCOL_MAJOR && *final(self) == *old(self)),
            joiner_protocol_major == PROTOCOL_MAJOR && player_fault(joiner) is Some ==> (r matches Err(ServerError::InvalidLobbyEntry(k))
                && k@ == player_fault(joiner)->0 && *final(self) == *old(self)),
            joiner_protocol_major == PROTOCOL_MAJOR && player_fault(joiner) is None ==> {
                &&& final(self).next_seed_spec() == (if old(self).next_seed_spec() == u64::MAX { 0 } else { old(self).next_seed_spec() + 1 })
                &&& match position_of(old(self).sessions_spec(), session_id.0@) {
                    None => r matches Err(e) && missing_error(old(self).stale_spec(), session_id.0@, e),
                    Some(k) => {
                        let s = old(self).sessions_spec()[k];
                        if !(s.state is Available) {
                            r matches Err(ServerError::SessionUnavailable(i)) && i.0@ == session_id.0@
                        } else if s.host.player_id@ == joiner.player_id@ {
                            r matches Err(ServerError::WrongParticipant(p)) && p@ == joiner.player_id@
                        } else {
                            r matches Ok(start) && {
                                &&& start.session_id.0@ == session_id.0@
                                &&& same_player(start.player_one, s.host)
                                &&& same_player(start.player_two, joiner)
                                &&& start.seed == old(self).next_seed_spec()
                                &&& start.ranked == s.ranked
                                &&& start.community_label@ == old(self).label_spec()
                            }
                        }
                    },
                }
            },
    {
        if joiner_protocol_major != PROTOCOL_MAJOR {
            return Err(ServerError::ProtocolMajorMismatch { client_major: joiner_protocol_major, server_major: PROTOCOL_MAJOR });
        }
        if let Err(e) = validate_hosted_player(&joiner) {
            return Err(e);
        }
        let seed = self.next_seed;
        self.next_seed = self.next_seed.wrapping_add(1);
        let k = match self.position(session_id) {
            Some(k) => k,
            None => {
                return Err(self.missing_session_error(session_id));
            },
        };
        let session = &self.sessions[k];
        let available = match session.state {
            SessionState::Available => true,
            _ => false,
        };
        if !available {
            return Err(ServerError::SessionUnavailable(copy_id(session_id)));
        }
        if same_text(&session.host.player_id, &joiner.player_id) {
            return Err(ServerError::WrongParticipant(joiner.player_id));
        }
        Ok(HostedGameStart {
            session_id: copy_id(session_id),
            player_one: copy_player(&session.host),
            player_two: joiner,
            seed,
            ranked: session.ranked,
            community_label: self.community_label.as_str().to_owned(),
        })
    }

    /// Starts the session a `start_game` admitted: it leaves the lobby, in progress with its joiner.
    pub fn confirm_start(&mut self, start: HostedGameStart)
        requires
            old(self).wf(),
        ensures
            final(self).wf(),
            match position_of(old(self).sessions_spec(), start.session_id.0@) {
                None => *final(self) == *old(self),
                Some(k) => {
                    let s = final(self).sessions_spec()[k];
                    &&& final(self).sessions_spec().len() == old(self).sessions_spec().len()
                    &&& forall|j: int| 0 <= j < old(self).sessions_spec().len() && j != k ==> #[trigger] final(self).sessions_spec()[j]
                        == old(self).sessions_spec()[j]
                    &&& id_of(s) == start.session_id.0@
                    &&& same_player(s.host, old(self).sessions_spec()[k].host)
                    &&& s.ranked == old(self).sessions_spec()[k].ranked
                    &&& (s.state matches SessionState::InProgress { joiner, start: s2 } && same_player(joiner, start.player_two)
                        && same_start(s2, start))
                },
            },
            final(self).stale_spec() == old(self).stale_spec(),
            final(self).next_number() == old(self).next_number(),
            final(self).next_seed_spec() == old(self).next_seed_spec(),
            final(self).label_spec() == old(self).label_spec(),
    {
        let k = match self.position(&start.session_id) {
            Some(k) => k,
            None => {
                return;
            },
        };
        let ghost before = self.sessions@;
        let joiner = copy_player(&start.player_two);
        let old_session = self.sessions.remove(k);
        let updated = Session {
            id: old_session.id,
            host: old_session.host,
            direct_addr: old_session.direct_addr,
            ranked: old_session.ranked,
            protocol_major: old_session.protocol_major,
            protocol_minor: old_session.protocol_minor,
            state: SessionState::InProgress { joiner, start },
            pending_claim: old_session.pending_claim,
        };
        self.sessions.insert(k, updated);
        proof {
            assert forall|j: int| 0 <= j < before.len() && j != k implies #[trigger] self.sessions@[j] == before[j] by {
            }
            assert forall|i: int, j: int| 0 <= i < j < self.sessions@.len() implies text_lt(
                id_of(#[trigger] self.sessions@[i]),
                id_of(#[trigger] self.sessions@[j]),
            ) by {
                assert(id_of(self.sessions@[i]) == id_of(before[i]));
                assert(id_of(self.sessions@[j]) == id_of(before[j]));
            }
        }
    }
}


/// `s` holding a claim while the other participant's is awaited.
pub open spec fn with_claim(s: Session, claim: RankedResultClaim) -> Session {
    Session { pending_claim: Some(claim), ..s }
}

/// `s` once its ranked result is recorded.
pub open spec fn completed(s: Session) -> Session {
    Session { state: SessionState::Completed, pending_claim: None, ..s }
}

/// A claim's step read as the result it records: `claimed_result` over `Record`.
pub open spec fn step_records(claim: RankedResultClaim, label: Seq<char>, r: Result<ClaimStep, ServerError>) -> bool {
    match r {
        Ok(ClaimStep::Record(g)) => claimed_result(claim, label, Ok(g)),
        Ok(ClaimStep::AwaitingPeer) => false,
        Err(e) => claimed_result(claim, label, Err(e)),
    }
}

/// The answer to a ranked claim on session `s`: only a ranked game in progress takes claims,
/// from one of its players naming both of them; the first is held, a second from the other
/// player that agrees with it gives the result to record.
pub open spec fn claim_answer(s: Session, claim: RankedResultClaim, label: Seq<char>, r: Result<ClaimStep, ServerError>) -> bool {
    match s.state {
        SessionState::InProgress { joiner, .. } => if !s.ranked {
            r matches Err(ServerError::SessionUnavailable(i)) && i.0@ == claim.session_id.0@
        } else {
            match claim_fault(claim, s.host.player_id@, joiner.player_id@) {
                Some(true) => r matches Err(ServerError::WrongParticipant(p)) && p@ == claim.reporter_player_id@,
                Some(false) => r matches Err(ServerError::InvalidResultParticipants),
                None => match s.pending_claim {
                    None => r matches Ok(ClaimStep::AwaitingPeer),
                    Some(first) => if first.reporter_player_id@ == claim.reporter_player_id@ {
                        r matches Err(ServerError::WrongParticipant(p)) && p@ == claim.reporter_player_id@
                    } else if !claims_agree(first, claim) {
                        r matches Err(ServerError::ResultClaimMismatch)
                    } else {
                        step_records(claim, label, r)
                    },
                },
            }
        },
        _ => r matches Err(ServerError::SessionUnavailable(i)) && i.0@ == claim.session_id.0@,
    }
}

/// The rows a records listing holds for a roster: its first `limit` profiles, `limit` taken
/// between 1 and 200.
pub open spec fn records_len(roster_len: int, limit: u16) -> int {
    let n: int = if limit < 1 { 1 } else if limit > 200 { 200 } else { limit as int };
    if roster_len < n { roster_len } else { n }
}

/// A records row shows a profile.
pub open spec fn record_of(r: RankedPlayerRecord, p: PlayerProfile) -> bool {
    &&& r.player_id@ == p.player_id@
    &&& r.display_name@ == p.display_name@
    &&& r.rank == p.rank
    &&& r.wins == p.wins
    &&& r.losses == p.losses
    &&& r.high_score == p.high_score
    &&& r.high_lines == p.high_lines
    &&& r.high_funds == p.high_funds
}

impl HostedLobbyServer {
    /// Submits one participant's ranked result claim. The first valid claim is held and the
    /// answer is `AwaitingPeer`; a matching second claim gives the result to record, and the
    /// session stays as it is until `mark_recorded` says the result was written.
    pub fn submit_ranked_result(&mut self, claim: RankedResultClaim) -> (r: Result<ClaimStep, ServerError>)
        requires
            old(self).wf(),
        ensures
            final(self).wf(),
            final(self).stale_spec() == old(self).stale_spec(),
            final(self).next_number() == old(self).next_number(),
            final(self).next_seed_spec() == old(self).next_seed_spec(),
            final(self).label_spec() == old(self).label_spec(),
            match position_of(old(self).sessions_spec(), claim.session_id.0@) {
                None => (r matches Err(e) && missing_error(old(self).stale_spec(), claim.session_id.0@, e)) && *final(self) == *old(self),
                Some(k) => {
                    &&& claim_answer(old(self).sessions_spec()[k], claim, old(self).label_spec(), r)
                    &&& if r matches Ok(ClaimStep::AwaitingPeer) {
                        final(self).sessions_spec() == old(self).sessions_spec().update(k, with_claim(old(self).sessions_spec()[k], claim))
                    } else {
                        *final(self) == *old(self)
                    }
                },
            },
    {
        let k = match self.position(&claim.session_id) {
            Some(k) => k,
            None => {
                return Err(self.missing_session_error(&claim.session_id));
            },
        };
        let session = &self.sessions[k];
        let joiner = match &session.state {
            SessionState::InProgress { joiner, .. } => joiner,
            _ => {
                return Err(ServerError::SessionUnavailable(copy_id(&claim.session_id)));
            },
        };
        if !session.ranked {
            return Err(ServerError::SessionUnavailable(copy_id(&claim.session_id)));
        }
        if let Err(e) = validate_claim(&claim, &session.host, joiner) {
            return Err(e);
        }
        if let Some(first) = &session.pending_claim {
            if same_text(&first.reporter_player_id, &claim.reporter_player_id) {
                return Err(ServerError::WrongParticipant(claim.reporter_player_id));
            }
            if !claims_match(first, &claim) {
                return Err(ServerError::ResultClaimMismatch);
            }
            return match game_result_from_claim(&claim, &self.community_label) {
                Ok(g) => Ok(ClaimStep::Record(g)),
                Err(e) => Err(e),
            };
        }
        let ghost before = self.sessions@;
        let ghost c = claim;
        let old_session = self.sessions.remove(k);
        let updated = Session {
            id: old_session.id,
            host: old_session.host,
            direct_addr: old_session.direct_addr,
            ranked: old_session.ranked,
            protocol_major: old_session.protocol_major,
            protocol_minor: old_session.protocol_minor,
            state: old_session.state,
            pending_claim: Some(claim),
        };
        self.sessions.insert(k, updated);
        proof {
            assert(self.sessions@ =~= before.update(k as int, with_claim(before[k as int], c)));
            assert forall|i: int, j: int| 0 <= i < j < self.sessions@.len() implies text_lt(
                id_of(#[trigger] self.sessions@[i]),
                id_of(#[trigger] self.sessions@[j]),
            ) by {
                assert(id_of(self.sessions@[i]) == id_of(before[i]));
                assert(id_of(self.sessions@[j]) == id_of(before[j]));
            }
        }
        Ok(ClaimStep::AwaitingPeer)
    }

    /// Completes a session once its ranked result is written, dropping the held claim.
    pub fn mark_recorded(&mut self, session_id: &HostedSessionId)
        requires
            old(self).wf(),
        ensures
            final(self).wf(),
            match position_of(old(self).sessions_spec(), session_id.0@) {
                None => *final(self) == *old(self),
                Some(k) => final(self).sessions_spec() == old(self).sessions_spec().update(k, completed(old(self).sessions_spec()[k])),
            },
            final(self).stale_spec() == old(self).stale_spec(),
            final(self).next_number() == old(self).next_number(),
            final(self).next_seed_spec() == old(self).next_seed_spec(),
            final(self).label_spec() == old(self).label_spec(),
    {
        let k = match self.position(session_id) {
            Some(k) => k,
            None => {
                return;
            },
        };
        let ghost before = self.sessions@;
        let old_session = self.sessions.remove(k);
        let updated = Session {
            id: old_session.id,
            host: old_session.host,
            direct_addr: old_session.direct_addr,
            ranked: old_session.ranked,
            protocol_major: old_session.protocol_major,
            protocol_minor: old_session.protocol_minor,
            state: SessionState::Completed,
            pending_claim: None,
        };
        self.sessions.insert(k, updated);
        proof {
            assert(self.sessions@ =~= before.update(k as int, completed(before[k as int])));
            assert forall|i: int, j: int| 0 <= i < j < self.sessions@.len() implies text_lt(
                id_of(#[trigger] self.sessions@[i]),
                id_of(#[trigger] self.sessions@[j]),
            ) by {
                assert(id_of(self.sessions@[i]) == id_of(before[i]));
                assert(id_of(self.sessions@[j]) == id_of(before[j]));
            }
        }
    }

    /// Returns server-owned ranked records for this community from its roster in rank order:
    /// the first `limit` rows, `limit` taken between 1 and 200.
    pub fn ranked_records(&self, roster: &Vec<PlayerProfile>, limit: u16) -> (r: RankedRecords)
        ensures
            r.community_label@ == self.label_spec(),
            r.records@.len() == records_len(roster@.len() as int, limit),
            forall|i: int| 0 <= i < r.records@.len() ==> record_of(#[trigger] r.records@[i], roster@[i]),
    {
        let n: usize = if limit < 1 {
            1
        } else if limit > 200 {
            200
        } else {
            limit as usize
        };
        let mut records: Vec<RankedPlayerRecord> = Vec::new();
        let mut i: usize = 0;
        while i < n && i < roster.len()
            invariant
                i <= roster@.len(),
                i <= n,
                n as int == (if limit < 1 { 1 } else if limit > 200 { 200 } else { limit as int }),
                records@.len() == i,
                forall|j: int| 0 <= j < i ==> record_of(#[trigger] records@[j], roster@[j]),
            decreases roster@.len() - i,
        {
            let p = &roster[i];
            records.push(RankedPlayerRecord {
                player_id: p.player_id.as_str().to_owned(),
                display_name: p.display_name.clone(),
                rank: p.rank,
                wins: p.wins,
                losses: p.losses,
                high_score: p.high_score,
                high_lines: p.high_lines,
                high_funds: p.high_funds,
            });
            i = i + 1;
        }
        RankedRecords { community_label: self.community_label.as_str().to_owned(), records }
    }
}


/// A ranked result is handed out for recording only on the second of two agreeing claims,
/// made by the two different players of a ranked game in progress; a claim that finds no
/// held claim is only held.
pub proof fn lemma_record_needs_both_claims(s: Session, claim: RankedResultClaim, label: Seq<char>, r: Result<ClaimStep, ServerError>)
    requires
        claim_answer(s, claim, label, r),
    ensures
        r matches Ok(ClaimStep::Record(g)) ==> {
            &&& s.ranked
            &&& s.state matches SessionState::InProgress { joiner, .. }
            &&& s.pending_claim matches Some(first) && {
                &&& first.reporter_player_id@ != claim.reporter_player_id@
                &&& claims_agree(first, claim)
                &&& (claim.reporter_player_id@ == s.host.player_id@ || claim.reporter_player_id@ == joiner.player_id@)
            }
            &&& g.winner_id@ == trimmed(claim.winner_player_id@)
            &&& g.loser_id@ == trimmed(claim.loser_player_id@)
        },
        s.pending_claim is None ==> !(r matches Ok(ClaimStep::Record(_))),
{
}

/// An expired session leaves the session list, and any request naming it afterwards is
/// answered as unavailable rather than unknown.
pub proof fn lemma_expired_session_unavailable(sessions: Seq<Session>, stale: Set<Seq<char>>, id: Seq<char>, e: ServerError)
    requires
        ids_sorted(sessions),
        position_of(sessions, id) is Some,
    ensures
        position_of(sessions.remove(position_of(sessions, id)->0), id) is None,
        missing_error(stale.insert(id), id, e) <==> (e matches ServerError::SessionUnavailable(i) && i.0@ == id),
{
    let k = position_of(sessions, id)->0;
    let after = sessions.remove(k);
    assert(id_of(sessions[k]) == id);
    if exists|j: int| 0 <= j < after.len() && id_of(#[trigger] after[j]) == id {
        let j = choose|j: int| 0 <= j < after.len() && id_of(#[trigger] after[j]) == id;
        lemma_text_order(id, id);
        if j < k {
            assert(after[j] == sessions[j]);
            assert(text_lt(id_of(sessions[j]), id_of(sessions[k])));
        } else {
            assert(after[j] == sessions[j + 1]);
            assert(text_lt(id_of(sessions[k]), id_of(sessions[j + 1])));
        }
    }
}

/// Once a ranked result is recorded and its session marked completed, the session keeps
/// its place in the list and every later claim on it is refused as unavailable.
pub proof fn lemma_recorded_session_closed(
    sessions: Seq<Session>,
    id: Seq<char>,
    claim: RankedResultClaim,
    label: Seq<char>,
    r: Result<ClaimStep, ServerError>,
)
    requires
        ids_sorted(sessions),
        position_of(sessions, id) is Some,
        claim_answer(completed(sessions[position_of(sessions, id)->0]), claim, label, r),
    ensures
        position_of(sessions.update(position_of(sessions, id)->0, completed(sessions[position_of(sessions, id)->0])), id)
            == position_of(sessions, id),
        r matches Err(ServerError::SessionUnavailable(i)) && i.0@ == claim.session_id.0@,
{
    let k = position_of(sessions, id)->0;
    let after = sessions.update(k, completed(sessions[k]));
    assert(id_of(after[k]) == id);
    assert(position_of(after, id) is Some);
    let j = position_of(after, id)->0;
    if j != k {
        assert(id_of(sessions[j]) == id_of(after[j]));
        lemma_text_order(id, id);
        if j < k {
            assert(text_lt(id_of(sessions[j]), id_of(sessions[k])));
        } else {
            assert(text_lt(id_of(sessions[k]), id_of(sessions[j])));
        }
    }
}

/// The ranked two-claim flow on one session: on a ranked game in progress with no claim
/// held, a well-formed claim from one player is held; an agreeing claim from the other
/// player then gives the result to record (and nothing else); and once the session is
/// completed, any further claim is refused as unavailable.
pub proof fn lemma_ranked_claim_flow(
    s: Session,
    first: RankedResultClaim,
    second: RankedResultClaim,
    later: RankedResultClaim,
    label: Seq<char>,
    r1: Result<ClaimStep, ServerError>,
    r2: Result<ClaimStep, ServerError>,
    r3: Result<ClaimStep, ServerError>,
)
    requires
        s.ranked,
        s.state is InProgress,
        s.pending_claim is None,
        claim_fault(first, s.host.player_id@, s.state->joiner.player_id@) is None,
        claim_fault(second, s.host.player_id@, s.state->joiner.player_id@) is None,
        first.reporter_player_id@ != second.reporter_player_id@,
        claims_agree(first, second),
        claim_answer(s, first, label, r1),
        claim_answer(with_claim(s, first), second, label, r2),
        claim_answer(completed(with_claim(s, first)), later, label, r3),
    ensures
        r1 == Ok::<ClaimStep, ServerError>(ClaimStep::AwaitingPeer),
        step_records(second, label, r2),
        r3 matches Err(ServerError::SessionUnavailable(i)) && i.0@ == later.session_id.0@,
{
}

} // verus!
