//! The voice session: how signaling turns into peer connections and events.
//!
//! The session decides; the host connects, negotiates, sends and reports back.
use vstd::prelude::*;

use crate::random::random_u64;
use crate::strmap::StrMap;
use crate::text::{joined, replace_first};
use crate::voice::event::{SignalingState, VoiceEvent};
use crate::voice::signaling::{PeerInfo, SignalEvent, SignalOut};
use crate::voice::suppressor::SuppressorModel;

verus! {

/// A STUN or TURN server as the host supplies it.
#[derive(Debug, Clone)]
pub struct IceServer {
    pub urls: Vec<String>,
    pub username: Option<String>,
    pub credential: Option<String>,
}

/// Arguments of a join.
#[derive(Debug, Clone)]
pub struct VoiceJoinArgs {
    /// HTTP base of the server.
    pub backend_url: String,
    pub token: String,
    pub channel_id: String,
    pub user_id: String,
    /// Display name, sent on join.
    pub username: String,
    pub ice_servers: Vec<IceServer>,
    /// Open the local microphone and send.
    pub open_mic: bool,
    /// Feed a WAV file in place of the microphone.
    pub input_wav: Option<String>,
    /// Open the playback device.
    pub open_output: bool,
}

/// What `open_mic` and `open_output` are where a join leaves them out.
pub fn default_true() -> (r: bool)
    ensures
        r,
{
    true
}

/// Where a session takes its audio from.
#[derive(Debug)]
pub enum AudioSource {
    Wav(String),
    Microphone,
    Silent,
}

impl VoiceJoinArgs {
    /// The audio source: a WAV file before the microphone, nothing for a
    /// receive-only participant.
    pub fn source(&self) -> (r: AudioSource)
        ensures
            r == (match self.input_wav {
                Some(path) => AudioSource::Wav(path),
                None => if self.open_mic {
                    AudioSource::Microphone
                } else {
                    AudioSource::Silent
                },
            }),
    {
        match &self.input_wav {
            Some(path) => AudioSource::Wav(path.clone()),
            None => if self.open_mic {
                AudioSource::Microphone
            } else {
                AudioSource::Silent
            },
        }
    }
}

/// Where a session plays what its peers say.
#[derive(Debug, Clone, Copy, PartialEq, Eq, Structural)]
pub enum AudioSink {
    /// On the playback device.
    Device,
    /// Nowhere: the mix is made all the same.
    Headless,
}

impl VoiceJoinArgs {
    /// The audio sink: the playback device, unless the join does without one.
    pub fn sink(&self) -> (r: AudioSink)
        ensures
            r == (if self.open_output {
                AudioSink::Device
            } else {
                AudioSink::Headless
            }),
    {
        if self.open_output {
            AudioSink::Device
        } else {
            AudioSink::Headless
        }
    }
}

/// How the microphone decides when to transmit.
#[derive(Debug, Clone, Copy, PartialEq, Eq, Structural)]
pub enum TransmitMode {
    /// Always transmit.
    Always,
    /// Transmit only while voice is detected.
    VoiceActivated,
}

/// The WebSocket URL of a channel: the first `https://` becomes `wss://`, then
/// the first `http://` becomes `ws://`.
pub open spec fn channel_url(backend: Seq<char>, channel: Seq<char>) -> Seq<char> {
    crate::text::replaced_first(
        crate::text::replaced_first(backend, "https://"@, "wss://"@),
        "http://"@,
        "ws://"@,
    ) + "/api/ws/"@ + channel
}

/// The WebSocket URL of a channel on a backend.
pub fn voice_ws_url(backend_url: &str, channel_id: &str) -> (r: String)
    ensures
        r@ == channel_url(backend_url@, channel_id@),
{
    proof {
        reveal_strlit("https://");
        reveal_strlit("http://");
    }
    let secure: String = replace_first(backend_url, "https://", "wss://");
    let base: String = replace_first(secure.as_str(), "http://", "ws://");
    let head: String = joined(base.as_str(), "/api/ws/");
    joined(head.as_str(), channel_id)
}

/// What the session asks its host to do, in order.
#[derive(Debug)]
pub enum SessionAction {
    /// Hand an event to the host's listener.
    Emit(VoiceEvent),
    /// Send a message to the relay.
    Send(SignalOut),
    /// Connect to a newcomer and offer; report with `offered`.
    ConnectAndOffer { peer_id: String, user_id: String },
    /// Connect to a peer whose offer came first; report with `connected`.
    ConnectAndAnswer { from: String, sdp: String },
    /// Apply an offer and answer it; report with `answered`.
    Answer { from: String, sdp: String },
    /// Apply an answer.
    ApplyAnswer { from: String, sdp: String },
    /// Add a candidate; report with `candidate_added`.
    AddCandidate { from: String, candidate: serde_json::Value },
    /// Close a peer connection and stop its tasks.
    ClosePeer { peer_id: String },
}

/// How an offer to a newcomer went.
#[derive(Debug)]
pub enum OfferOutcome {
    /// There is no connection, or no offer of it: the reason.
    Failed(String),
    /// The connection refused its own offer.
    Refused,
    /// The offer stands.
    Ready(String),
}

/// How the answer to an offer went.
#[derive(Debug)]
pub enum AnswerOutcome {
    /// The offer did not parse, or a description was refused.
    Refused,
    /// No answer could be made: the reason.
    Failed(String),
    /// The answer stands.
    Ready(String),
}

/// An error event without a code.
pub open spec fn plain_error(message: String) -> SessionAction {
    SessionAction::Emit(VoiceEvent::Error { code: None, message })
}

/// The event by which a peer is announced.
pub open spec fn announced(p: PeerInfo) -> SessionAction {
    SessionAction::Emit(
        VoiceEvent::PeerJoined { peer_id: p.peer_id, user_id: p.user_id, username: p.username },
    )
}

/// The actions that close every peer of a session.
pub open spec fn close_all(peers: Seq<(String, String)>) -> Seq<SessionAction> {
    peers.map_values(|e: (String, String)| SessionAction::ClosePeer { peer_id: e.0 })
}

/// The actions that follow from a signaling event in a session that still has its
/// way out to the relay. Peers that were there first offer to a newcomer; an offer
/// that comes first makes the connection that answers it; an answer or a candidate
/// of an unknown peer goes nowhere.
pub open spec fn reaction(a: VoiceSession, event: SignalEvent, r: Seq<SessionAction>) -> bool {
    match event {
        SignalEvent::Joined { peer_id, peers } => {
            &&& r.len() == peers@.len() + 1
            &&& r[0] matches SessionAction::Emit(VoiceEvent::Debug { peer_id: p, message })
            &&& p is None
            &&& message@ == "joined channel as peer "@ + peer_id@
            &&& forall|i: int| 0 <= i < peers@.len() ==> #[trigger] r[i + 1] == announced(peers@[i])
        },
        SignalEvent::PeerJoined(p) => {
            if a.peers@.contains_key(p.peer_id@) {
                r =~= seq![announced(p)]
            } else {
                r =~= seq![
                    announced(p),
                    SessionAction::ConnectAndOffer { peer_id: p.peer_id, user_id: p.user_id },
                ]
            }
        },
        SignalEvent::Offer { from, sdp } => {
            if a.peers@.contains_key(from@) {
                r =~= seq![SessionAction::Answer { from, sdp }]
            } else {
                r =~= seq![SessionAction::ConnectAndAnswer { from, sdp }]
            }
        },
        SignalEvent::Answer { from, sdp } => {
            if a.peers@.contains_key(from@) {
                r =~= seq![SessionAction::ApplyAnswer { from, sdp }]
            } else {
                &&& r.len() == 1
                &&& r[0] matches SessionAction::Emit(VoiceEvent::Error { code, message })
                &&& code is None
                &&& message@ == "answer from unknown peer "@ + from@
            }
        },
        SignalEvent::IceCandidate { from, candidate } => {
            if a.peers@.contains_key(from@) {
                r =~= seq![SessionAction::AddCandidate { from, candidate }]
            } else {
                r.len() == 0
            }
        },
        SignalEvent::PeerLeft(id) => {
            if a.peers@.contains_key(id@) {
                r =~= seq![
                    SessionAction::ClosePeer { peer_id: id },
                    SessionAction::Emit(VoiceEvent::PeerLeft { peer_id: id }),
                ]
            } else {
                r.len() == 0
            }
        },
        SignalEvent::Error { code, message } => r =~= seq![
            SessionAction::Emit(VoiceEvent::Error { code: Some(code), message }),
        ],
        SignalEvent::Closed { .. } => r.len() == 0,
    }
}

/// What a signaling event does to a session: a session without its way out to the
/// relay does nothing; else the reaction follows, and a peer that left is gone.
pub open spec fn handled(
    a: VoiceSession,
    event: SignalEvent,
    b: VoiceSession,
    r: Seq<SessionAction>,
) -> bool {
    &&& b.signal_open == a.signal_open
    &&& b.same_switches(&a)
    &&& if a.signal_open {
        &&& reaction(a, event, r)
        &&& b.peers@ == (match event {
            SignalEvent::PeerLeft(id) => a.peers@.remove(id@),
            _ => a.peers@,
        })
    } else {
        r.len() == 0 && b.peers@ == a.peers@
    }
}

/// What the end of a session does: the relay is told once, every peer is closed,
/// playback is off.
pub open spec fn stopped(a: VoiceSession, b: VoiceSession, r: Seq<SessionAction>) -> bool {
    &&& b == (VoiceSession {
        stopping: true,
        signal_open: false,
        output_enabled: false,
        peers: b.peers,
        ..a
    })
    &&& b.peers@ == Map::<Seq<char>, String>::empty()
    &&& b.peers.entries@.len() == 0
    &&& r == (if a.signal_open {
        seq![SessionAction::Send(SignalOut::Close)]
    } else {
        Seq::empty()
    }) + close_all(a.peers.entries@)
}

/// What the end of the signaling loop does: every peer is closed, and the host
/// hears whether the connection was replaced.
pub open spec fn torn_down(
    a: VoiceSession,
    replaced: bool,
    b: VoiceSession,
    r: Seq<SessionAction>,
) -> bool {
    &&& b == (VoiceSession { stopping: true, peers: b.peers, ..a })
    &&& b.peers@ == Map::<Seq<char>, String>::empty()
    &&& b.peers.entries@.len() == 0
    &&& r == close_all(a.peers.entries@).push(
        SessionAction::Emit(
            VoiceEvent::Signaling {
                state: if replaced {
                    SignalingState::Replaced
                } else {
                    SignalingState::Closed
                },
            },
        ),
    )
}

/// A session that was stopped hears nothing any more: no event has an effect.
pub proof fn law_stopped_session_is_deaf(
    a: VoiceSession,
    b: VoiceSession,
    r: Seq<SessionAction>,
    event: SignalEvent,
    c: VoiceSession,
    s: Seq<SessionAction>,
)
    requires
        stopped(a, b, r),
        handled(b, event, c, s),
    ensures
        s.len() == 0,
        c.peers@ == Map::<Seq<char>, String>::empty(),
        c.stopping,
{
}

/// Leaving closes every peer once: stopping closes them all, and the teardown
/// that follows only reports the end.
pub proof fn law_leave_closes_once(
    a: VoiceSession,
    b: VoiceSession,
    r: Seq<SessionAction>,
    replaced: bool,
    c: VoiceSession,
    s: Seq<SessionAction>,
)
    requires
        a.signal_open,
        stopped(a, b, r),
        torn_down(b, replaced, c, s),
    ensures
        r.len() == a.peers.entries@.len() + 1,
        r[0] == SessionAction::Send(SignalOut::Close),
        forall|i: int|
            0 <= i < a.peers.entries@.len() ==> #[trigger] r[i + 1] == (SessionAction::ClosePeer {
                peer_id: a.peers.entries@[i].0,
            }),
        s.len() == 1,
        s[0] is Emit,
{
}

/// A peer that left is forgotten: its return is announced and connected anew.
pub proof fn law_peer_returns(
    a: VoiceSession,
    id: String,
    b: VoiceSession,
    r: Seq<SessionAction>,
    p: PeerInfo,
    c: VoiceSession,
    s: Seq<SessionAction>,
)
    requires
        a.signal_open,
        handled(a, SignalEvent::PeerLeft(id), b, r),
        p.peer_id@ == id@,
        handled(b, SignalEvent::PeerJoined(p), c, s),
    ensures
        s == seq![
            announced(p),
            SessionAction::ConnectAndOffer { peer_id: p.peer_id, user_id: p.user_id },
        ],
{
}

/// A voice session: its peers, by peer id, with their user ids; and its switches.
pub struct VoiceSession {
    pub peers: StrMap<String>,
    /// Whether the session still holds the way out to the relay.
    pub signal_open: bool,
    pub stopping: bool,
    pub muted: bool,
    pub deafened: bool,
    pub transmit_mode: TransmitMode,
    /// Whether playback is fed to the echo canceller.
    pub aec_enabled: bool,
    pub output_enabled: bool,
}

impl VoiceSession {
    /// Whether no peer occurs twice.
    pub open spec fn wf(&self) -> bool {
        self.peers.wf()
    }

    /// Everything but the peers and the signaling handle is as in `o`.
    pub open spec fn same_switches(&self, o: &Self) -> bool {
        &&& self.stopping == o.stopping
        &&& self.muted == o.muted
        &&& self.deafened == o.deafened
        &&& self.transmit_mode == o.transmit_mode
        &&& self.aec_enabled == o.aec_enabled
        &&& self.output_enabled == o.output_enabled
    }

    /// A session at its start.
    pub fn new(aec_enabled: bool) -> (r: Self)
        ensures
            r.wf(),
            r.peers@ == Map::<Seq<char>, String>::empty(),
            r.signal_open,
            !r.stopping,
            !r.muted,
            !r.deafened,
            r.transmit_mode == TransmitMode::Always,
            r.aec_enabled == aec_enabled,
            r.output_enabled,
    {
        VoiceSession {
            peers: StrMap::new(),
            signal_open: true,
            stopping: false,
            muted: false,
            deafened: false,
            transmit_mode: TransmitMode::Always,
            aec_enabled,
            output_enabled: true,
        }
    }

    /// What follows from a signaling event (see `handled`).
    pub fn handle_event(&mut self, event: SignalEvent) -> (r: Vec<SessionAction>)
        requires
            old(self).wf(),
        ensures
            final(self).wf(),
            handled(*old(self), event, *final(self), r@),
    {
        let mut out: Vec<SessionAction> = Vec::new();
        if !self.signal_open {
            return out;
        }
        match event {
            SignalEvent::Joined { peer_id, peers } => {
                let message: String = joined("joined channel as peer ", peer_id.as_str());
                out.push(SessionAction::Emit(VoiceEvent::Debug { peer_id: None, message }));
                let ghost first = out@[0];
                let n: usize = peers.len();
                let mut i: usize = 0;
                while i < n
                    invariant
                        n == peers@.len(),
                        i <= n,
                        out@.len() == i + 1,
                        out@[0] == first,
                        forall|j: int| 0 <= j < i ==> #[trigger] out@[j + 1] == announced(peers@[j]),
                    decreases n - i,
                {
                    let p: &PeerInfo = &peers[i];
                    out.push(
                        SessionAction::Emit(
                            VoiceEvent::PeerJoined {
                                peer_id: p.peer_id.clone(),
                                user_id: p.user_id.clone(),
                                username: p.username.clone(),
                            },
                        ),
                    );
                    i = i + 1;
                }
            },
            SignalEvent::PeerJoined(p) => {
                out.push(
                    SessionAction::Emit(
                        VoiceEvent::PeerJoined {
                            peer_id: p.peer_id.clone(),
                            user_id: p.user_id.clone(),
                            username: p.username.clone(),
                        },
                    ),
                );
                if !self.peers.contains(p.peer_id.as_str()) {
                    out.push(
                        SessionAction::ConnectAndOffer { peer_id: p.peer_id, user_id: p.user_id },
                    );
                }
            },
            SignalEvent::Offer { from, sdp } => {
                if self.peers.contains(from.as_str()) {
                    out.push(SessionAction::Answer { from, sdp });
                } else {
                    out.push(SessionAction::ConnectAndAnswer { from, sdp });
                }
            },
            SignalEvent::Answer { from, sdp } => {
                if self.peers.contains(from.as_str()) {
                    out.push(SessionAction::ApplyAnswer { from, sdp });
                } else {
                    let message: String = joined("answer from unknown peer ", from.as_str());
                    out.push(SessionAction::Emit(VoiceEvent::Error { code: None, message }));
                }
            },
            SignalEvent::IceCandidate { from, candidate } => {
                if self.peers.contains(from.as_str()) {
                    out.push(SessionAction::AddCandidate { from, candidate });
                }
            },
            SignalEvent::PeerLeft(id) => {
                let removed = self.peers.remove(id.as_str());
                if removed.is_some() {
                    out.push(SessionAction::ClosePeer { peer_id: id.clone() });
                    out.push(SessionAction::Emit(VoiceEvent::PeerLeft { peer_id: id }));
                }
            },
            SignalEvent::Error { code, message } => {
                out.push(SessionAction::Emit(VoiceEvent::Error { code: Some(code), message }));
            },
            SignalEvent::Closed { .. } => {},
        }
        out
    }

    /// How the offer to a newcomer went: a connection that refused its own offer
    /// is kept, one that could not be made is not.
    pub fn offered(&mut self, peer_id: String, user_id: String, outcome: OfferOutcome) -> (r: Vec<
        SessionAction,
    >)
        requires
            old(self).wf(),
        ensures
            final(self).wf(),
            final(self).signal_open == old(self).signal_open,
            final(self).same_switches(old(self)),
            match outcome {
                OfferOutcome::Failed(e) => {
                    &&& r@ == seq![plain_error(e)]
                    &&& final(self).peers@ == old(self).peers@
                },
                OfferOutcome::Refused => {
                    &&& r@.len() == 0
                    &&& final(self).peers@ == old(self).peers@.insert(peer_id@, user_id)
                },
                OfferOutcome::Ready(sdp) => {
                    &&& r@ == seq![SessionAction::Send(SignalOut::Offer { to: peer_id, sdp })]
                    &&& final(self).peers@ == old(self).peers@.insert(peer_id@, user_id)
                },
            },
    {
        let mut out: Vec<SessionAction> = Vec::new();
        match outcome {
            OfferOutcome::Failed(e) => {
                out.push(SessionAction::Emit(VoiceEvent::Error { code: None, message: e }));
            },
            OfferOutcome::Refused => {
                self.peers.insert(peer_id, user_id);
            },
            OfferOutcome::Ready(sdp) => {
                out.push(SessionAction::Send(SignalOut::Offer { to: peer_id.clone(), sdp }));
                self.peers.insert(peer_id, user_id);
            },
        }
        out
    }

    /// How connecting to a peer whose offer came first went: the peer is known
    /// from now on, without a user id, and its offer is answered.
    pub fn connected(&mut self, from: String, sdp: String, outcome: Result<(), String>) -> (r: Vec<
        SessionAction,
    >)
        requires
            old(self).wf(),
        ensures
            final(self).wf(),
            final(self).signal_open == old(self).signal_open,
            final(self).same_switches(old(self)),
            match outcome {
                Ok(_) => {
                    &&& r@ == seq![SessionAction::Answer { from, sdp }]
                    &&& final(self).peers@.dom() == old(self).peers@.dom().insert(from@)
                    &&& final(self).peers@[from@]@ == Seq::<char>::empty()
                    &&& forall|k: Seq<char>|
                        k != from@ && old(self).peers@.contains_key(k)
                            ==> #[trigger] final(self).peers@[k] == old(self).peers@[k]
                },
                Err(e) => {
                    &&& r@ == seq![plain_error(e)]
                    &&& final(self).peers@ == old(self).peers@
                },
            },
    {
        let mut out: Vec<SessionAction> = Vec::new();
        match outcome {
            Ok(_) => {
                self.peers.insert(from.clone(), String::new());
                out.push(SessionAction::Answer { from, sdp });
            },
            Err(e) => {
                out.push(SessionAction::Emit(VoiceEvent::Error { code: None, message: e }));
            },
        }
        out
    }

    /// How the answer to an offer went.
    pub fn answered(&self, from: String, outcome: AnswerOutcome) -> (r: Vec<SessionAction>)
        ensures
            match outcome {
                AnswerOutcome::Refused => r@.len() == 0,
                AnswerOutcome::Failed(e) => r@ == seq![plain_error(e)],
                AnswerOutcome::Ready(sdp) => r@ == seq![
                    SessionAction::Send(SignalOut::Answer { to: from, sdp }),
                ],
            },
    {
        let mut out: Vec<SessionAction> = Vec::new();
        match outcome {
            AnswerOutcome::Refused => {},
            AnswerOutcome::Failed(e) => {
                out.push(SessionAction::Emit(VoiceEvent::Error { code: None, message: e }));
            },
            AnswerOutcome::Ready(sdp) => {
                out.push(SessionAction::Send(SignalOut::Answer { to: from, sdp }));
            },
        }
        out
    }

    /// How adding a candidate went.
    pub fn candidate_added(&self, outcome: Result<(), String>) -> (r: Vec<SessionAction>)
        ensures
            match outcome {
                Ok(_) => r@.len() == 0,
                Err(e) => r@ == seq![plain_error(e)],
            },
    {
        let mut out: Vec<SessionAction> = Vec::new();
        match outcome {
            Ok(_) => {},
            Err(e) => {
                out.push(SessionAction::Emit(VoiceEvent::Error { code: None, message: e }));
            },
        }
        out
    }

    fn drain_peers(&mut self, out: &mut Vec<SessionAction>)
        requires
            old(self).wf(),
        ensures
            final(self).wf(),
            final(self).peers@ == Map::<Seq<char>, String>::empty(),
            final(self).peers.entries@.len() == 0,
            final(self).signal_open == old(self).signal_open,
            final(self).same_switches(old(self)),
            final(out)@ == old(out)@ + close_all(old(self).peers.entries@),
    {
        let n: usize = self.peers.entries.len();
        let mut i: usize = 0;
        assert(out@ =~= old(out)@ + close_all(self.peers.entries@.take(0)));
        while i < n
            invariant
                n == self.peers.entries@.len(),
                *self == *old(self),
                i <= n,
                out@ == old(out)@ + close_all(self.peers.entries@.take(i as int)),
            decreases n - i,
        {
            let id: String = self.peers.entries[i].0.clone();
            out.push(SessionAction::ClosePeer { peer_id: id });
            i = i + 1;
            assert(old(out)@ + close_all(self.peers.entries@.take(i as int)) =~= (old(out)@
                + close_all(self.peers.entries@.take(i - 1))).push(
                SessionAction::ClosePeer { peer_id: self.peers.entries@[i - 1].0 },
            ));
        }
        assert(self.peers.entries@.take(n as int) =~= self.peers.entries@);
        self.peers.clear();
    }

    /// The end of the signaling loop (see `torn_down`).
    pub fn teardown(&mut self, replaced: bool) -> (r: Vec<SessionAction>)
        requires
            old(self).wf(),
        ensures
            final(self).wf(),
            torn_down(*old(self), replaced, *final(self), r@),
    {
        let mut out: Vec<SessionAction> = Vec::new();
        self.stopping = true;
        self.drain_peers(&mut out);
        let state: SignalingState = if replaced {
            SignalingState::Replaced
        } else {
            SignalingState::Closed
        };
        out.push(SessionAction::Emit(VoiceEvent::Signaling { state }));
        assert(out@ =~= close_all(old(self).peers.entries@).push(
            SessionAction::Emit(VoiceEvent::Signaling { state }),
        ));
        out
    }

    /// Ends the session (see `stopped`).
    pub fn stop(&mut self) -> (r: Vec<SessionAction>)
        requires
            old(self).wf(),
        ensures
            final(self).wf(),
            stopped(*old(self), *final(self), r@),
    {
        let mut out: Vec<SessionAction> = Vec::new();
        self.stopping = true;
        if self.signal_open {
            self.signal_open = false;
            out.push(SessionAction::Send(SignalOut::Close));
        }
        self.drain_peers(&mut out);
        self.output_enabled = false;
        out
    }

    /// Mutes or unmutes the microphone.
    pub fn set_muted(&mut self, muted: bool)
        ensures
            *final(self) == (VoiceSession { muted, ..*old(self) }),
    {
        self.muted = muted;
    }

    /// Deafens or undeafens: playback follows.
    pub fn set_deafened(&mut self, deafened: bool)
        ensures
            *final(self) == (VoiceSession { deafened, output_enabled: !deafened, ..*old(self) }),
    {
        self.deafened = deafened;
        self.output_enabled = !deafened;
    }
}

/// What wakes the signaling loop of a session.
pub enum RunEvent {
    /// A signaling event.
    Signal(SignalEvent),
    /// The stream of events ended.
    StreamEnded,
    /// The poll timer fired.
    Tick,
}

/// What the signaling loop does.
pub enum RunStep {
    /// Hand the event to the session.
    Handle(SignalEvent),
    /// Wait on.
    Wait,
    /// Leave the loop and tear down.
    Teardown { replaced: bool },
}

/// Decides on a turn of the signaling loop: it ends with the socket, with the
/// stream of events, or at the next tick once the session stops.
pub fn run_step(event: RunEvent, stopping: bool) -> (r: RunStep)
    ensures
        r == (match event {
            RunEvent::Signal(SignalEvent::Closed { replaced }) => RunStep::Teardown { replaced },
            RunEvent::Signal(e) => RunStep::Handle(e),
            RunEvent::StreamEnded => RunStep::Teardown { replaced: false },
            RunEvent::Tick => if stopping {
                RunStep::Teardown { replaced: false }
            } else {
                RunStep::Wait
            },
        }),
{
    match event {
        RunEvent::Signal(SignalEvent::Closed { replaced }) => RunStep::Teardown { replaced },
        RunEvent::Signal(e) => RunStep::Handle(e),
        RunEvent::StreamEnded => RunStep::Teardown { replaced: false },
        RunEvent::Tick => {
            if stopping {
                RunStep::Teardown { replaced: false }
            } else {
                RunStep::Wait
            }
        },
    }
}

/// A STUN or TURN server as the connection takes it.
#[derive(Debug)]
pub struct IceEntry {
    pub urls: Vec<String>,
    pub username: String,
    pub credential: String,
}

/// The text of an optional field; empty where it is missing.
pub open spec fn text_or_empty(o: Option<String>) -> Seq<char> {
    match o {
        Some(s) => s@,
        None => Seq::empty(),
    }
}

fn or_empty(o: &Option<String>) -> (r: String)
    ensures
        r@ == text_or_empty(*o),
{
    match o {
        Some(s) => s.clone(),
        None => String::new(),
    }
}

/// The servers of a session as its connections take them.
pub fn ice_config(servers: &Vec<IceServer>) -> (r: Vec<IceEntry>)
    ensures
        r@.len() == servers@.len(),
        forall|i: int|
            0 <= i < r@.len() ==> (#[trigger] r@[i]).urls@ == servers@[i].urls@ && r@[i].username@
                == text_or_empty(servers@[i].username) && r@[i].credential@ == text_or_empty(
                servers@[i].credential,
            ),
{
    let mut out: Vec<IceEntry> = Vec::new();
    let n: usize = servers.len();
    let mut i: usize = 0;
    while i < n
        invariant
            n == servers@.len(),
            i <= n,
            out@.len() == i,
            forall|j: int|
                0 <= j < i ==> (#[trigger] out@[j]).urls@ == servers@[j].urls@ && out@[j].username@
                    == text_or_empty(servers@[j].username) && out@[j].credential@ == text_or_empty(
                    servers@[j].credential,
                ),
        decreases n - i,
    {
        let s: &IceServer = &servers[i];
        let urls: Vec<String> = s.urls.clone();
        assert(urls@ =~= s.urls@);
        out.push(
            IceEntry { urls, username: or_empty(&s.username), credential: or_empty(&s.credential) },
        );
        i = i + 1;
    }
    out
}

/// How the connection to one peer is set up.
#[derive(Debug)]
pub struct PeerPlan {
    pub stream_id: String,
    pub track_id: String,
    pub label: String,
    pub ssrc: u32,
    pub clock_rate: u32,
    pub channels: u16,
    pub fmtp: String,
    /// Jitter buffer: sample rate, channels, and delay limits in milliseconds.
    pub playout_rate: u32,
    pub playout_channels: u8,
    pub max_delay_ms: u32,
    pub min_delay_ms: u32,
    /// Payload type until one is negotiated.
    pub payload_type: u8,
    /// Local address of the UDP socket.
    pub bind: String,
}

/// The local address: the interface that the environment names, else any.
pub open spec fn bind_address(interface: Option<String>) -> Seq<char> {
    match interface {
        Some(ip) => if ip@.len() == 0 {
            "0.0.0.0:0"@
        } else {
            ip@ + ":0"@
        },
        None => "0.0.0.0:0"@,
    }
}

/// Plans the connection to a peer; the stream source is a random number, and
/// `interface` is the address that the environment names.
pub fn peer_plan(peer_id: &str, interface: &Option<String>) -> (r: PeerPlan)
    ensures
        r.stream_id@ == "lumen-stream-"@ + peer_id@,
        r.track_id@ == "lumen-audio-"@ + peer_id@,
        r.label@ == "microphone"@,
        r.clock_rate == 48000,
        r.channels == 2,
        r.fmtp@ == "useinbandfec=1"@,
        r.playout_rate == 48000,
        r.playout_channels == 1,
        r.max_delay_ms == 200,
        r.min_delay_ms == 20,
        r.payload_type == 111,
        r.bind@ == bind_address(*interface),
{
    let bind: String = match interface {
        Some(ip) => {
            if ip.as_str().is_empty() {
                "0.0.0.0:0".to_owned()
            } else {
                joined(ip.as_str(), ":0")
            }
        },
        None => "0.0.0.0:0".to_owned(),
    };
    PeerPlan {
        stream_id: joined("lumen-stream-", peer_id),
        track_id: joined("lumen-audio-", peer_id),
        label: "microphone".to_owned(),
        ssrc: #[verifier::truncate] (random_u64() as u32),
        clock_rate: 48_000,
        channels: 2,
        fmtp: "useinbandfec=1".to_owned(),
        playout_rate: 48_000,
        playout_channels: 1,
        max_delay_ms: 200,
        min_delay_ms: 20,
        payload_type: 111,
        bind,
    }
}

/// What a join starts a session with.
#[derive(Debug, Clone, Copy, PartialEq, Eq, Structural)]
pub struct JoinPlan {
    pub model: SuppressorModel,
    pub aec_enabled: bool,
}

/// The client: at most one session, and the settings of the next one.
pub struct VoiceClient {
    pub session: Option<VoiceSession>,
    pub suppressor_model: SuppressorModel,
    pub aec_enabled: bool,
}

impl VoiceClient {
    /// The peers of the session, if there is one, are sound.
    pub open spec fn wf(&self) -> bool {
        self.session matches Some(s) ==> s.wf()
    }

    /// A client without a session.
    pub fn new() -> (r: Self)
        ensures
            r.wf(),
            r.session is None,
            r.suppressor_model == SuppressorModel::FastEnhancerM,
            r.aec_enabled,
    {
        VoiceClient {
            session: None,
            suppressor_model: SuppressorModel::FastEnhancerM,
            aec_enabled: true,
        }
    }

    /// Chooses the suppression model, for a live session and the next one.
    pub fn set_suppressor_model(&mut self, model: SuppressorModel)
        ensures
            *final(self) == (VoiceClient { suppressor_model: model, ..*old(self) }),
    {
        self.suppressor_model = model;
    }

    pub fn suppressor_model(&self) -> (r: SuppressorModel)
        ensures
            r == self.suppressor_model,
    {
        self.suppressor_model
    }

    /// Begins a join. A session that died on its own (`run_ended`) makes room; a
    /// live one refuses.
    pub fn join(&mut self, run_ended: bool) -> (r: Result<JoinPlan, String>)
        ensures
            match r {
                Ok(plan) => {
                    &&& old(self).session is None || run_ended
                    &&& final(self).session is None
                    &&& plan.model == old(self).suppressor_model
                    &&& plan.aec_enabled == old(self).aec_enabled
                },
                Err(e) => {
                    &&& old(self).session is Some && !run_ended
                    &&& final(self).session == old(self).session
                    &&& e@ == "already in a voice channel"@
                },
            },
            final(self).suppressor_model == old(self).suppressor_model,
            final(self).aec_enabled == old(self).aec_enabled,
    {
        if self.session.is_some() && run_ended {
            self.session = None;
        }
        if self.session.is_some() {
            return Err("already in a voice channel".to_owned());
        }
        Ok(JoinPlan { model: self.suppressor_model, aec_enabled: self.aec_enabled })
    }

    /// Ends a join: the session that was started, or why none was.
    pub fn joined(&mut self, started: Result<VoiceSession, String>) -> (r: Result<(), String>)
        ensures
            match started {
                Ok(s) => r is Ok && final(self).session == Some(s),
                Err(e) => r == Err::<(), String>(e) && final(self).session == old(self).session,
            },
            final(self).suppressor_model == old(self).suppressor_model,
            final(self).aec_enabled == old(self).aec_enabled,
    {
        match started {
            Ok(s) => {
                self.session = Some(s);
                Ok(())
            },
            Err(e) => Err(e),
        }
    }

    /// Leaves the channel: the session, to be stopped.
    pub fn leave(&mut self) -> (r: Option<VoiceSession>)
        ensures
            r == old(self).session,
            final(self).session is None,
            final(self).suppressor_model == old(self).suppressor_model,
            final(self).aec_enabled == old(self).aec_enabled,
    {
        self.session.take()
    }

    /// The client's settings are as in `o`.
    pub open spec fn same_settings(&self, o: &Self) -> bool {
        self.suppressor_model == o.suppressor_model && self.aec_enabled == o.aec_enabled
    }

    /// Mutes or unmutes a live session.
    pub fn set_muted(&mut self, muted: bool)
        ensures
            final(self).same_settings(old(self)),
            final(self).session == (match old(self).session {
                Some(s) => Some(VoiceSession { muted, ..s }),
                None => None,
            }),
    {
        match self.session.take() {
            Some(s) => {
                let mut s: VoiceSession = s;
                s.set_muted(muted);
                self.session = Some(s);
            },
            None => {},
        }
    }

    /// Deafens or undeafens a live session.
    pub fn set_deafened(&mut self, deafened: bool)
        ensures
            final(self).same_settings(old(self)),
            final(self).session == (match old(self).session {
                Some(s) => Some(VoiceSession { deafened, output_enabled: !deafened, ..s }),
                None => None,
            }),
    {
        match self.session.take() {
            Some(s) => {
                let mut s: VoiceSession = s;
                s.set_deafened(deafened);
                self.session = Some(s);
            },
            None => {},
        }
    }

    /// Sets how the microphone of a live session decides to transmit.
    pub fn set_transmit_mode(&mut self, mode: TransmitMode)
        ensures
            final(self).same_settings(old(self)),
            final(self).session == (match old(self).session {
                Some(s) => Some(VoiceSession { transmit_mode: mode, ..s }),
                None => None,
            }),
    {
        match self.session.take() {
            Some(s) => {
                let mut s: VoiceSession = s;
                s.transmit_mode = mode;
                self.session = Some(s);
            },
            None => {},
        }
    }

    /// Turns the echo canceller on or off, for a live session and the next one.
    pub fn set_aec_enabled(&mut self, enabled: bool)
        ensures
            final(self).aec_enabled == enabled,
            final(self).suppressor_model == old(self).suppressor_model,
            final(self).session == (match old(self).session {
                Some(s) => Some(VoiceSession { aec_enabled: enabled, ..s }),
                None => None,
            }),
    {
        self.aec_enabled = enabled;
        match self.session.take() {
            Some(s) => {
                let mut s: VoiceSession = s;
                s.aec_enabled = enabled;
                self.session = Some(s);
            },
            None => {},
        }
    }

    /// Turns the echo canceller on or off for the next session alone.
    pub fn set_aec_enabled_now(&mut self, enabled: bool)
        ensures
            *final(self) == (VoiceClient { aec_enabled: enabled, ..*old(self) }),
    {
        self.aec_enabled = enabled;
    }

    pub fn aec_enabled(&self) -> (r: bool)
        ensures
            r == self.aec_enabled,
    {
        self.aec_enabled
    }
}

/// A newcomer is announced under its own name and offered to by those who were there:
/// once the connection stands, the offer goes to the newcomer, with the description
/// that was made, and the newcomer is known under its user.
pub proof fn law_newcomer_gets_offer(
    a: &mut VoiceSession,
    p: PeerInfo,
    x: Vec<SessionAction>,
    b: &mut VoiceSession,
    sdp: String,
    y: Vec<SessionAction>,
    other: Seq<char>,
)
    requires
        old(a).wf(),
        old(a).signal_open,
        !old(a).peers@.contains_key(p.peer_id@),
        call_ensures(VoiceSession::handle_event, (a, SignalEvent::PeerJoined(p)), x),
        *old(b) == *final(a),
        call_ensures(
            VoiceSession::offered,
            (b, p.peer_id, p.user_id, OfferOutcome::Ready(sdp)),
            y,
        ),
    ensures
        x@.len() == 2,
        (x@[0] matches SessionAction::Emit(VoiceEvent::PeerJoined { peer_id, user_id, username })
            && peer_id == p.peer_id && user_id == p.user_id && username == p.username),
        (x@[1] matches SessionAction::ConnectAndOffer { peer_id, user_id } && peer_id == p.peer_id
            && user_id == p.user_id),
        y@.len() == 1,
        (y@[0] matches SessionAction::Send(SignalOut::Offer { to, sdp: s }) && to == p.peer_id && s
            == sdp),
        final(b).peers@.contains_key(p.peer_id@),
        final(b).peers@[p.peer_id@] == p.user_id,
        final(b).muted == old(a).muted && final(b).deafened == old(a).deafened,
        final(b).output_enabled == old(a).output_enabled && final(b).stopping == old(a).stopping,
        final(b).aec_enabled == old(a).aec_enabled,
        final(b).transmit_mode == old(a).transmit_mode,
        final(b).signal_open == old(a).signal_open,
        other != p.peer_id@ ==> final(b).peers@.contains_key(other) == old(a).peers@.contains_key(
            other,
        ),
        other != p.peer_id@ && old(a).peers@.contains_key(other)
            ==> final(b).peers@[other] == old(a).peers@[other],
{
}

/// An offer of a peer that is not known yet makes a connection first; either way it
/// is applied as it came and answered to the one it came from, with the description
/// that was made.
pub proof fn law_offer_is_answered(
    a: &mut VoiceSession,
    from: String,
    sdp: String,
    x: Vec<SessionAction>,
    b: &mut VoiceSession,
    y: Vec<SessionAction>,
    c: &VoiceSession,
    answer: String,
    z: Vec<SessionAction>,
)
    requires
        old(a).wf(),
        old(a).signal_open,
        call_ensures(VoiceSession::handle_event, (a, SignalEvent::Offer { from, sdp }), x),
        *old(b) == *final(a),
        call_ensures(VoiceSession::connected, (b, from, sdp, Ok(())), y),
        call_ensures(VoiceSession::answered, (c, from, AnswerOutcome::Ready(answer)), z),
    ensures
        x@.len() == 1,
        old(a).peers@.contains_key(from@) ==> x@[0] == (SessionAction::Answer { from, sdp }),
        !old(a).peers@.contains_key(from@) ==> x@[0] == (SessionAction::ConnectAndAnswer {
            from,
            sdp,
        }),
        y@.len() == 1,
        y@[0] == (SessionAction::Answer { from, sdp }),
        final(b).peers@.contains_key(from@),
        final(b).muted == old(a).muted && final(b).deafened == old(a).deafened,
        final(b).output_enabled == old(a).output_enabled && final(b).stopping == old(a).stopping,
        final(b).aec_enabled == old(a).aec_enabled,
        final(b).transmit_mode == old(a).transmit_mode,
        final(b).signal_open == old(a).signal_open,
        z@.len() == 1,
        z@[0] == SessionAction::Send(SignalOut::Answer { to: from, sdp: answer }),
{
}

/// An answer and a candidate reach the connection to the one they came from, as they
/// came, and no other; those of an unknown peer reach none.
pub proof fn law_answer_reaches_its_peer(
    a: &mut VoiceSession,
    from: String,
    sdp: String,
    x: Vec<SessionAction>,
    b: &mut VoiceSession,
    candidate: serde_json::Value,
    y: Vec<SessionAction>,
)
    requires
        old(a).wf(),
        old(a).signal_open,
        call_ensures(VoiceSession::handle_event, (a, SignalEvent::Answer { from, sdp }), x),
        *old(b) == *final(a),
        call_ensures(VoiceSession::handle_event, (b, SignalEvent::IceCandidate { from, candidate }), y),
    ensures
        x@.len() == 1,
        old(a).peers@.contains_key(from@) ==> x@[0] == (SessionAction::ApplyAnswer { from, sdp }),
        !old(a).peers@.contains_key(from@) ==> (x@[0] matches SessionAction::Emit(
            VoiceEvent::Error { code: None, message },
        ) && message@ == "answer from unknown peer "@ + from@),
        old(a).peers@.contains_key(from@) ==> y@.len() == 1 && y@[0] == (
        SessionAction::AddCandidate { from, candidate }),
        !old(a).peers@.contains_key(from@) ==> y@.len() == 0,
        final(b).peers@ == old(a).peers@,
        final(b).muted == old(a).muted && final(b).deafened == old(a).deafened,
        final(b).output_enabled == old(a).output_enabled && final(b).stopping == old(a).stopping,
        final(b).aec_enabled == old(a).aec_enabled,
        final(b).transmit_mode == old(a).transmit_mode,
        final(b).signal_open == old(a).signal_open,
{
}

/// A peer that leaves is closed, forgotten and told of, by its own identifier; the
/// others stay. One that was not known leaves no trace.
pub proof fn law_peer_leaves(
    a: &mut VoiceSession,
    id: String,
    r: Vec<SessionAction>,
    other: Seq<char>,
)
    requires
        old(a).wf(),
        old(a).signal_open,
        call_ensures(VoiceSession::handle_event, (a, SignalEvent::PeerLeft(id)), r),
    ensures
        old(a).peers@.contains_key(id@) ==> r@.len() == 2 && r@[0] == (SessionAction::ClosePeer {
            peer_id: id,
        }) && r@[1] == SessionAction::Emit(VoiceEvent::PeerLeft { peer_id: id }),
        !old(a).peers@.contains_key(id@) ==> r@.len() == 0,
        !final(a).peers@.contains_key(id@),
        final(a).muted == old(a).muted && final(a).deafened == old(a).deafened,
        final(a).output_enabled == old(a).output_enabled && final(a).stopping == old(a).stopping,
        final(a).aec_enabled == old(a).aec_enabled,
        final(a).transmit_mode == old(a).transmit_mode,
        final(a).signal_open,
        other != id@ ==> final(a).peers@.contains_key(other) == old(a).peers@.contains_key(other),
        other != id@ && old(a).peers@.contains_key(other)
            ==> final(a).peers@[other] == old(a).peers@[other],
{
}

/// Joining tells of every peer that was there, in order and under its own name, and
/// connects to none of them: they offer. An error of the relay is told with its code.
pub proof fn law_joining(
    a: &mut VoiceSession,
    peer_id: String,
    peers: Vec<PeerInfo>,
    x: Vec<SessionAction>,
    i: int,
    b: &mut VoiceSession,
    code: String,
    message: String,
    y: Vec<SessionAction>,
)
    requires
        old(a).wf(),
        old(a).signal_open,
        call_ensures(VoiceSession::handle_event, (a, SignalEvent::Joined { peer_id, peers }), x),
        *old(b) == *final(a),
        call_ensures(VoiceSession::handle_event, (b, SignalEvent::Error { code, message }), y),
    ensures
        x@.len() == peers@.len() + 1,
        (x@[0] matches SessionAction::Emit(VoiceEvent::Debug { peer_id: None, message })
            && message@ == "joined channel as peer "@ + peer_id@),
        0 <= i < peers@.len() ==> (x@[i + 1] matches SessionAction::Emit(VoiceEvent::PeerJoined {
            peer_id: p,
            user_id,
            username,
        }) && p == peers@[i].peer_id && user_id == peers@[i].user_id && username
            == peers@[i].username),
        final(b).peers@ == old(a).peers@,
        final(b).muted == old(a).muted && final(b).deafened == old(a).deafened,
        final(b).output_enabled == old(a).output_enabled && final(b).stopping == old(a).stopping,
        final(b).aec_enabled == old(a).aec_enabled,
        final(b).transmit_mode == old(a).transmit_mode,
        final(b).signal_open == old(a).signal_open,
        y@.len() == 1,
        y@[0] == SessionAction::Emit(VoiceEvent::Error { code: Some(code), message }),
{
    if 0 <= i < peers@.len() {
        assert(x@[i + 1] == announced(peers@[i]));
    }
}

/// An offer that could not be made leaves the newcomer unknown and tells why; one
/// that was refused is kept quietly; and so with connections, answers and candidates.
pub proof fn law_negotiation_fails(
    a: &mut VoiceSession,
    peer_id: String,
    user_id: String,
    why: String,
    x: Vec<SessionAction>,
    b: &mut VoiceSession,
    y: Vec<SessionAction>,
    c: &mut VoiceSession,
    sdp: String,
    z: Vec<SessionAction>,
    s: &VoiceSession,
    u: Vec<SessionAction>,
    v: Vec<SessionAction>,
    w: Vec<SessionAction>,
)
    requires
        old(a).wf() && old(b).wf() && old(c).wf(),
        call_ensures(VoiceSession::offered, (a, peer_id, user_id, OfferOutcome::Failed(why)), x),
        call_ensures(VoiceSession::offered, (b, peer_id, user_id, OfferOutcome::Refused), y),
        call_ensures(VoiceSession::connected, (c, peer_id, sdp, Err(why)), z),
        call_ensures(VoiceSession::answered, (s, peer_id, AnswerOutcome::Failed(why)), u),
        call_ensures(VoiceSession::answered, (s, peer_id, AnswerOutcome::Refused), v),
        call_ensures(VoiceSession::candidate_added, (s, Err(why)), w),
    ensures
        ({
            let told = SessionAction::Emit(VoiceEvent::Error { code: None, message: why });
            &&& x@ == seq![told]
            &&& z@ == seq![told]
            &&& u@ == seq![told]
            &&& w@ == seq![told]
        }),
        y@.len() == 0 && v@.len() == 0,
        final(a).peers@ == old(a).peers@,
        final(b).peers@.contains_key(peer_id@) && final(b).peers@[peer_id@] == user_id,
        final(c).peers@ == old(c).peers@,
{
}

/// Leaving tells the relay once, closes every peer, silences the output and forgets
/// the peers; a second time there is nothing left to do, and no event is heard.
pub proof fn law_session_left(
    a: &mut VoiceSession,
    x: Vec<SessionAction>,
    b: &mut VoiceSession,
    y: Vec<SessionAction>,
    c: &mut VoiceSession,
    event: SignalEvent,
    z: Vec<SessionAction>,
    i: int,
)
    requires
        old(a).wf(),
        old(a).signal_open,
        call_ensures(VoiceSession::stop, (a,), x),
        *old(b) == *final(a),
        call_ensures(VoiceSession::stop, (b,), y),
        *old(c) == *final(b),
        call_ensures(VoiceSession::handle_event, (c, event), z),
    ensures
        x@.len() == old(a).peers.entries@.len() + 1,
        x@[0] == SessionAction::Send(SignalOut::Close),
        0 <= i < old(a).peers.entries@.len() ==> x@[i + 1] == (SessionAction::ClosePeer {
            peer_id: old(a).peers.entries@[i].0,
        }),
        final(a).stopping && !final(a).output_enabled && !final(a).signal_open,
        final(a).peers@.dom() =~= Set::<Seq<char>>::empty(),
        final(a).muted == old(a).muted && final(a).deafened == old(a).deafened,
        final(a).transmit_mode == old(a).transmit_mode,
        final(a).aec_enabled == old(a).aec_enabled,
        y@.len() == 0,
        z@.len() == 0,
{
}

/// The end of signaling closes every peer and tells the host last, as replaced only
/// where it was.
pub proof fn law_session_torn_down(
    a: &mut VoiceSession,
    replaced: bool,
    r: Vec<SessionAction>,
    i: int,
)
    requires
        old(a).wf(),
        call_ensures(VoiceSession::teardown, (a, replaced), r),
    ensures
        r@.len() == old(a).peers.entries@.len() + 1,
        0 <= i < old(a).peers.entries@.len() ==> r@[i] == (SessionAction::ClosePeer {
            peer_id: old(a).peers.entries@[i].0,
        }),
        (r@.last() matches SessionAction::Emit(VoiceEvent::Signaling { state }) && (state
            is Replaced <==> replaced)),
        final(a).stopping,
        final(a).peers.entries@.len() == 0,
{
}

/// The loop hands every event to the session but the end of the socket, at which it
/// tears down, as it does at the end of the stream and, once the session stops, at
/// the next tick.
pub proof fn law_loop_turns(event: RunEvent, stopping: bool, r: RunStep)
    requires
        call_ensures(run_step, (event, stopping), r),
    ensures
        r matches RunStep::Handle(e) ==> event == RunEvent::Signal(e) && !(e is Closed),
        event matches RunEvent::Signal(e) ==> (!(e is Closed) ==> r == RunStep::Handle(e)),
        r matches RunStep::Teardown { replaced } ==> (replaced <==> event == RunEvent::Signal(
            SignalEvent::Closed { replaced: true },
        )),
        event is StreamEnded ==> r is Teardown,
        event == RunEvent::Signal(SignalEvent::Closed { replaced: false }) ==> r is Teardown,
        event == RunEvent::Signal(SignalEvent::Closed { replaced: true }) ==> r is Teardown,
        event is Tick ==> (r is Teardown <==> stopping) && (r is Wait <==> !stopping),
{
}

/// Servers keep their order, addresses, names and credentials.
pub proof fn law_servers_configured(servers: &Vec<IceServer>, r: Vec<IceEntry>, i: int)
    requires
        call_ensures(ice_config, (servers,), r),
        0 <= i < servers@.len(),
    ensures
        r@.len() == servers@.len(),
        r@[i].urls@ == servers@[i].urls@,
        servers@[i].username matches Some(u) ==> r@[i].username@ == u@,
        servers@[i].username is None ==> r@[i].username@.len() == 0,
        servers@[i].credential matches Some(c) ==> r@[i].credential@ == c@,
        servers@[i].credential is None ==> r@[i].credential@.len() == 0,
{
}

/// Every peer has a stream and a track of its own; all of them speak 48 kHz and wait
/// between 20 and 200 ms; the socket is bound to the interface that was named, or to
/// any, at a free port.
pub proof fn law_peers_apart(
    a: &str,
    b: &str,
    interface: &Option<String>,
    x: PeerPlan,
    y: PeerPlan,
)
    requires
        call_ensures(peer_plan, (a, interface), x),
        call_ensures(peer_plan, (b, interface), y),
    ensures
        x.stream_id@ == y.stream_id@ <==> a@ == b@,
        x.track_id@ == y.track_id@ <==> a@ == b@,
        x.stream_id@ == "lumen-stream-"@ + a@,
        x.track_id@ == "lumen-audio-"@ + a@,
        x.clock_rate == 48000 && x.playout_rate == 48000 && x.playout_channels == 1,
        x.min_delay_ms == 20 && x.max_delay_ms == 200,
        x.payload_type == 111 && x.channels == 2,
        x.label@ == "microphone"@ && x.fmtp@ == "useinbandfec=1"@,
        interface matches Some(ip) ==> (ip@.len() > 0 ==> x.bind@ == ip@ + ":0"@),
        interface matches Some(ip) ==> (ip@.len() == 0 ==> x.bind@ == "0.0.0.0:0"@),
        interface is None ==> x.bind@ == "0.0.0.0:0"@,
{
    let s = "lumen-stream-"@;
    let t = "lumen-audio-"@;
    if x.stream_id@ == y.stream_id@ {
        assert((s + a@).skip(s.len() as int) =~= a@);
        assert((s + b@).skip(s.len() as int) =~= b@);
    }
    if x.track_id@ == y.track_id@ {
        assert((t + a@).skip(t.len() as int) =~= a@);
        assert((t + b@).skip(t.len() as int) =~= b@);
    }
}

/// The socket of a channel: a secure address becomes a secure one, a plain address a
/// plain one, and the host, the path and the channel follow.
pub proof fn law_channel_address(backend: &str, channel: &str, r: String, host: Seq<char>)
    requires
        call_ensures(voice_ws_url, (backend, channel), r),
        forall|j: int| !#[trigger] crate::text::stands_at(host, "http"@, j),
    ensures
        backend@ == "https://"@ + host ==> r@ == "wss://"@ + host + "/api/ws/"@ + channel@,
        backend@ == "http://"@ + host ==> r@ == "ws://"@ + host + "/api/ws/"@ + channel@,
{
    reveal_strlit("https://");
    reveal_strlit("http://");
    reveal_strlit("wss://");
    reveal_strlit("ws://");
    reveal_strlit("http");
    let s = backend@;
    if s == "https://"@ + host {
        assert(crate::text::stands_at(s, "https://"@, 0));
        crate::text::lemma_first_replaced(s, "https://"@, "wss://"@, 0);
        assert(s.skip(8) =~= host);
        let t = "wss://"@ + host;
        assert(s.take(0) + "wss://"@ + host =~= t);
        lemma_no_plain_scheme("wss://"@, host);
        crate::text::lemma_first_missing(t, "http://"@, "ws://"@);
    }
    if s == "http://"@ + host {
        assert forall|j: int| !#[trigger] crate::text::stands_at(s, "https://"@, j) by {
            if crate::text::stands_at(s, "https://"@, j) {
                assert(s[j + 0] == "https://"@[0]);
                assert(s[j + 4] == "https://"@[4]);
                if j >= 7 {
                    assert forall|k: int| 0 <= k < 4 implies host[j - 7 + k]
                        == #[trigger] "http"@[k] by {
                        assert(s[j + k] == "https://"@[k]);
                    }
                    assert(crate::text::stands_at(host, "http"@, j - 7));
                }
            }
        }
        crate::text::lemma_first_missing(s, "https://"@, "wss://"@);
        assert(crate::text::stands_at(s, "http://"@, 0));
        crate::text::lemma_first_replaced(s, "http://"@, "ws://"@, 0);
        assert(s.skip(7) =~= host);
        assert(s.take(0) + "ws://"@ + host =~= "ws://"@ + host);
    }
}

proof fn lemma_no_plain_scheme(scheme: Seq<char>, host: Seq<char>)
    requires
        scheme == "wss://"@,
        forall|j: int| !#[trigger] crate::text::stands_at(host, "http"@, j),
    ensures
        forall|j: int| !#[trigger] crate::text::stands_at(scheme + host, "http://"@, j),
{
    reveal_strlit("wss://");
    reveal_strlit("http://");
    reveal_strlit("http");
    let t = scheme + host;
    assert forall|j: int| !#[trigger] crate::text::stands_at(t, "http://"@, j) by {
        if crate::text::stands_at(t, "http://"@, j) {
            assert(t[j + 0] == "http://"@[0]);
            if j >= 6 {
                assert forall|k: int| 0 <= k < 4 implies host[j - 6 + k]
                    == #[trigger] "http"@[k] by {
                    assert(t[j + k] == "http://"@[k]);
                }
                assert(crate::text::stands_at(host, "http"@, j - 6));
            }
        }
    }
}

/// A client is in one channel at most: a second join is refused until the first
/// session has left or died, and a join starts with the model and the switch that the
/// user chose last.
pub proof fn law_one_session(
    a: &mut VoiceClient,
    model: SuppressorModel,
    b: &mut VoiceClient,
    enabled: bool,
    c: &mut VoiceClient,
    first: Result<JoinPlan, String>,
    d: &mut VoiceClient,
    s: VoiceSession,
    ok: Result<(), String>,
    e: &mut VoiceClient,
    second: Result<JoinPlan, String>,
    f: &mut VoiceClient,
    left: Option<VoiceSession>,
    g: &mut VoiceClient,
    third: Result<JoinPlan, String>,
)
    requires
        old(a).session is None,
        call_ensures(VoiceClient::set_suppressor_model, (a, model), ()),
        *old(b) == *final(a),
        call_ensures(VoiceClient::set_aec_enabled, (b, enabled), ()),
        *old(c) == *final(b),
        call_ensures(VoiceClient::join, (c, false), first),
        *old(d) == *final(c),
        call_ensures(VoiceClient::joined, (d, Ok(s)), ok),
        *old(e) == *final(d),
        call_ensures(VoiceClient::join, (e, false), second),
        *old(f) == *final(e),
        call_ensures(VoiceClient::leave, (f,), left),
        *old(g) == *final(f),
        call_ensures(VoiceClient::join, (g, false), third),
    ensures
        first matches Ok(plan) && plan.model == model && plan.aec_enabled == enabled,
        ok is Ok,
        (second matches Err(why) && why@ == "already in a voice channel"@),
        final(e).session == Some(s),
        left == Some(s),
        third is Ok,
{
}

/// A session that died makes room for the next join, and a start that failed leaves
/// the client without one.
pub proof fn law_dead_session_makes_room(
    a: &mut VoiceClient,
    x: Result<JoinPlan, String>,
    b: &mut VoiceClient,
    why: String,
    y: Result<(), String>,
)
    requires
        call_ensures(VoiceClient::join, (a, true), x),
        *old(b) == *final(a),
        call_ensures(VoiceClient::joined, (b, Err(why)), y),
    ensures
        x is Ok,
        final(a).session is None,
        y == Err::<(), String>(why),
        final(b).session is None,
{
}

/// The switches of a live session turn what they name and nothing else: muting, being
/// deaf, which silences the output, the transmit mode and the canceller.
pub proof fn law_switches(
    a: &mut VoiceClient,
    muted: bool,
    b: &mut VoiceClient,
    deafened: bool,
    c: &mut VoiceClient,
    mode: TransmitMode,
    d: &mut VoiceClient,
    enabled: bool,
    e: &mut VoiceClient,
    later: bool,
    asked: bool,
)
    requires
        old(a).session is Some,
        call_ensures(VoiceClient::set_muted, (a, muted), ()),
        *old(b) == *final(a),
        call_ensures(VoiceClient::set_deafened, (b, deafened), ()),
        *old(c) == *final(b),
        call_ensures(VoiceClient::set_transmit_mode, (c, mode), ()),
        *old(d) == *final(c),
        call_ensures(VoiceClient::set_aec_enabled, (d, enabled), ()),
        *old(e) == *final(d),
        call_ensures(VoiceClient::set_aec_enabled_now, (e, later), ()),
        call_ensures(VoiceClient::aec_enabled, (&*final(e),), asked),
    ensures
        ({
            let x = old(a).session->0;
            &&& final(a).session matches Some(m)
            &&& m.muted == muted && m.deafened == x.deafened && m.output_enabled == x.output_enabled
            &&& m.aec_enabled == x.aec_enabled && m.transmit_mode == x.transmit_mode
            &&& final(e).session matches Some(s)
            &&& s.muted == muted
            &&& s.deafened == deafened
            &&& s.output_enabled == !deafened
            &&& s.transmit_mode == mode
            &&& s.aec_enabled == enabled
            &&& s.peers == x.peers && s.stopping == x.stopping && s.signal_open == x.signal_open
        }),
        final(d).aec_enabled == enabled,
        asked == later,
        final(e).suppressor_model == old(a).suppressor_model,
{
}

/// A new session transmits, hears and plays, knows nobody, and has the canceller that
/// it was asked for; a new client is in no channel.
pub proof fn law_fresh_start(aec: bool, s: VoiceSession, c: VoiceClient)
    requires
        call_ensures(VoiceSession::new, (aec,), s),
        call_ensures(VoiceClient::new, (), c),
    ensures
        s.aec_enabled == aec,
        !s.muted && !s.deafened && !s.stopping && s.output_enabled && s.signal_open,
        s.transmit_mode is Always,
        s.peers@.dom() =~= Set::<Seq<char>>::empty(),
        c.session is None && c.aec_enabled,
        c.suppressor_model is FastEnhancerM,
{
}

/// A recording stands in for the microphone, and without either nothing is sent; the
/// device plays unless the join does without it.
pub proof fn law_sources(args: &VoiceJoinArgs, source: AudioSource, sink: AudioSink)
    requires
        call_ensures(VoiceJoinArgs::source, (args,), source),
        call_ensures(VoiceJoinArgs::sink, (args,), sink),
    ensures
        source is Wav <==> args.input_wav is Some,
        source matches AudioSource::Wav(path) ==> args.input_wav == Some(path),
        source is Microphone <==> args.input_wav is None && args.open_mic,
        source is Silent <==> args.input_wav is None && !args.open_mic,
        sink is Device <==> args.open_output,
{
}

/// A session's own switches turn what they name.
pub proof fn law_session_switches(
    a: &mut VoiceSession,
    muted: bool,
    b: &mut VoiceSession,
    deafened: bool,
    c: &mut VoiceClient,
    model: SuppressorModel,
    r: SuppressorModel,
)
    requires
        call_ensures(VoiceSession::set_muted, (a, muted), ()),
        *old(b) == *final(a),
        call_ensures(VoiceSession::set_deafened, (b, deafened), ()),
        call_ensures(VoiceClient::set_suppressor_model, (c, model), ()),
        call_ensures(VoiceClient::suppressor_model, (&*final(c),), r),
    ensures
        final(b).muted == muted,
        final(b).deafened == deafened,
        final(b).output_enabled == !deafened,
        final(a).output_enabled == old(a).output_enabled,
        final(b).peers == old(a).peers && final(b).aec_enabled == old(a).aec_enabled,
        r == model,
        final(c).session == old(c).session,
{
}

/// An address that names no scheme is taken as it is.
pub proof fn law_bare_channel_address(backend: &str, channel: &str, r: String)
    requires
        call_ensures(voice_ws_url, (backend, channel), r),
        forall|j: int| !#[trigger] crate::text::stands_at(backend@, "https://"@, j),
        forall|j: int| !#[trigger] crate::text::stands_at(backend@, "http://"@, j),
    ensures
        r@ == backend@ + "/api/ws/"@ + channel@,
{
    crate::text::lemma_first_missing(backend@, "https://"@, "wss://"@);
    crate::text::lemma_first_missing(backend@, "http://"@, "ws://"@);
}

} // verus!
