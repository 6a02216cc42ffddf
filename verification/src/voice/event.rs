//! Voice events: what the voice core tells its host. Levels are the bit patterns
//! of 32-bit floats, carried as they are.
use vstd::prelude::*;

verus! {

/// What a peer connection is doing.
#[derive(Debug, Clone, Copy, PartialEq, Eq, Structural)]
pub enum PeerState {
    New,
    Connecting,
    Connected,
    Disconnected,
    Failed,
    Closed,
    Unknown,
}

impl PeerState {
    /// The name of the state.
    pub open spec fn name(self) -> Seq<char> {
        match self {
            PeerState::New => "new"@,
            PeerState::Connecting => "connecting"@,
            PeerState::Connected => "connected"@,
            PeerState::Disconnected => "disconnected"@,
            PeerState::Failed => "failed"@,
            PeerState::Closed => "closed"@,
            PeerState::Unknown => "unknown"@,
        }
    }

    pub fn as_str(self) -> (r: &'static str)
        ensures
            r@ == self.name(),
    {
        match self {
            PeerState::New => "new",
            PeerState::Connecting => "connecting",
            PeerState::Connected => "connected",
            PeerState::Disconnected => "disconnected",
            PeerState::Failed => "failed",
            PeerState::Closed => "closed",
            PeerState::Unknown => "unknown",
        }
    }
}

/// No two peer states share a name.
pub proof fn law_peer_state_names(a: PeerState, b: PeerState)
    requires
        a.name() == b.name(),
    ensures
        a == b,
{
    reveal_strlit("new");
    reveal_strlit("connecting");
    reveal_strlit("connected");
    reveal_strlit("disconnected");
    reveal_strlit("failed");
    reveal_strlit("closed");
    reveal_strlit("unknown");
    assert("new"@.len() == 3);
    assert("connecting"@.len() == 10);
    assert("connected"@.len() == 9);
    assert("disconnected"@.len() == 12);
    assert("failed"@.len() == 6 && "failed"@[0] == 'f');
    assert("closed"@.len() == 6 && "closed"@[0] == 'c');
    assert("unknown"@.len() == 7);
    assert(a.name().len() == b.name().len() && a.name()[0] == b.name()[0]);
}

/// Session-level signaling states.
#[derive(Debug, Clone, Copy, PartialEq, Eq, Structural)]
pub enum SignalingState {
    Closed,
    /// The server evicted this connection because the same user re-joined
    /// elsewhere. The host must not reconnect: it would fight the new one.
    Replaced,
}

impl SignalingState {
    /// The name of the state.
    pub open spec fn name(self) -> Seq<char> {
        match self {
            SignalingState::Closed => "closed"@,
            SignalingState::Replaced => "replaced"@,
        }
    }

    pub fn as_str(self) -> (r: &'static str)
        ensures
            r@ == self.name(),
    {
        match self {
            SignalingState::Closed => "closed",
            SignalingState::Replaced => "replaced",
        }
    }
}

/// A peer's level for the meter.
#[derive(Debug, Clone)]
pub struct PeerLevel {
    pub peer_id: String,
    /// Bit pattern of the level, a 32-bit float in 0..1.
    pub level: u32,
}

/// What the voice core tells the host.
#[derive(Debug, Clone)]
#[allow(inconsistent_fields)]
pub enum VoiceEvent {
    /// About ten times a second while a session lives.
    Levels { local: u32, peers: Vec<PeerLevel> },
    /// Signaling and negotiation diagnostics.
    Debug { peer_id: Option<String>, message: String },
    /// A participant joined the channel.
    PeerJoined { peer_id: String, user_id: String, username: String },
    PeerLeft { peer_id: String },
    /// A peer connection changed its state.
    State { peer_id: String, state: PeerState },
    /// Session-level signaling state, sent on teardown.
    Signaling { state: SignalingState },
    /// `code` is there only where the signaling layer reported it.
    Error { code: Option<String>, message: String },
    /// A message from a peer's data channel.
    DataChannelMessage { peer_id: String, data: Vec<u8> },
}

/// The states go by their names.
pub proof fn law_state_names(p: PeerState, a: &'static str, s: SignalingState, b: &'static str)
    requires
        call_ensures(PeerState::as_str, (p,), a),
        call_ensures(SignalingState::as_str, (s,), b),
    ensures
        p is New <==> a@ == "new"@,
        p is Connecting <==> a@ == "connecting"@,
        p is Connected <==> a@ == "connected"@,
        p is Disconnected <==> a@ == "disconnected"@,
        p is Failed <==> a@ == "failed"@,
        p is Closed <==> a@ == "closed"@,
        p is Unknown <==> a@ == "unknown"@,
        s is Closed <==> b@ == "closed"@,
        s is Replaced <==> b@ == "replaced"@,
{
    if a@ == PeerState::New.name() {
        law_peer_state_names(p, PeerState::New);
    }
    if a@ == PeerState::Connecting.name() {
        law_peer_state_names(p, PeerState::Connecting);
    }
    if a@ == PeerState::Connected.name() {
        law_peer_state_names(p, PeerState::Connected);
    }
    if a@ == PeerState::Disconnected.name() {
        law_peer_state_names(p, PeerState::Disconnected);
    }
    if a@ == PeerState::Failed.name() {
        law_peer_state_names(p, PeerState::Failed);
    }
    if a@ == PeerState::Closed.name() {
        law_peer_state_names(p, PeerState::Closed);
    }
    if a@ == PeerState::Unknown.name() {
        law_peer_state_names(p, PeerState::Unknown);
    }
    reveal_strlit("closed");
    reveal_strlit("replaced");
    assert("closed"@.len() == 6 && "replaced"@.len() == 8);
}

} // verus!
