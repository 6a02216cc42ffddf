//! Signaling with the channel relay: what goes out, what comes in, and when the
//! socket counts as dead.
use vstd::prelude::*;

use crate::text::{joined, url_encode};

verus! {

/// Peer identity as the relay hands it on.
#[derive(Debug, Clone)]
pub struct PeerInfo {
    pub peer_id: String,
    pub user_id: String,
    /// Display name, sent by the peer on join.
    pub username: String,
}

/// Inbound messages, as the session takes them.
#[derive(Debug)]
pub enum SignalEvent {
    Joined { peer_id: String, peers: Vec<PeerInfo> },
    PeerJoined(PeerInfo),
    PeerLeft(String),
    /// `from` is the sender's peer id.
    Offer { from: String, sdp: String },
    Answer { from: String, sdp: String },
    IceCandidate { from: String, candidate: serde_json::Value },
    Error { code: String, message: String },
    /// The socket closed; the session is over. `replaced`: the server evicted
    /// this connection because the same user re-joined elsewhere.
    Closed { replaced: bool },
}

/// Outbound messages.
#[derive(Debug)]
pub enum SignalOut {
    Join { channel_id: String, user_id: String, username: String },
    Offer { to: String, sdp: String },
    Answer { to: String, sdp: String },
    IceCandidate { to: String, candidate: serde_json::Value },
    /// Heartbeat: the relay answers `pong`.
    Ping,
    /// Close the socket now: the writer stops forwarding.
    Close,
}

/// What a client writes on the wire.
#[derive(Debug)]
pub enum ClientMessage {
    Join { channel_id: String, user_id: String, username: String },
    Offer { to: String, sdp: String },
    Answer { to: String, sdp: String },
    IceCandidate { to: String, candidate: serde_json::Value },
    Ping,
}

/// What the relay writes on the wire.
#[derive(Debug)]
pub enum ServerMessage {
    Joined { peer_id: String, peers: Vec<PeerInfo> },
    PeerJoined { peer: PeerInfo },
    PeerLeft { peer_id: String },
    Offer { from: String, sdp: String },
    Answer { from: String, sdp: String },
    IceCandidate { from: String, candidate: serde_json::Value },
    Presence { user_id: String, status: String },
    Pong,
    Error { code: String, message: String },
}

impl ServerMessage {
    /// The session event of a wire message; presence and pong are none.
    pub open spec fn event(self) -> Option<SignalEvent> {
        match self {
            ServerMessage::Joined { peer_id, peers } => Some(
                SignalEvent::Joined { peer_id, peers },
            ),
            ServerMessage::PeerJoined { peer } => Some(SignalEvent::PeerJoined(peer)),
            ServerMessage::PeerLeft { peer_id } => Some(SignalEvent::PeerLeft(peer_id)),
            ServerMessage::Offer { from, sdp } => Some(SignalEvent::Offer { from, sdp }),
            ServerMessage::Answer { from, sdp } => Some(SignalEvent::Answer { from, sdp }),
            ServerMessage::IceCandidate { from, candidate } => Some(
                SignalEvent::IceCandidate { from, candidate },
            ),
            ServerMessage::Error { code, message } => Some(SignalEvent::Error { code, message }),
            ServerMessage::Presence { .. } => None,
            ServerMessage::Pong => None,
        }
    }

    pub fn into_event(self) -> (r: Option<SignalEvent>)
        ensures
            r == self.event(),
    {
        match self {
            ServerMessage::Joined { peer_id, peers } => Some(
                SignalEvent::Joined { peer_id, peers },
            ),
            ServerMessage::PeerJoined { peer } => Some(SignalEvent::PeerJoined(peer)),
            ServerMessage::PeerLeft { peer_id } => Some(SignalEvent::PeerLeft(peer_id)),
            ServerMessage::Offer { from, sdp } => Some(SignalEvent::Offer { from, sdp }),
            ServerMessage::Answer { from, sdp } => Some(SignalEvent::Answer { from, sdp }),
            ServerMessage::IceCandidate { from, candidate } => Some(
                SignalEvent::IceCandidate { from, candidate },
            ),
            ServerMessage::Error { code, message } => Some(SignalEvent::Error { code, message }),
            ServerMessage::Presence { .. } => None,
            ServerMessage::Pong => None,
        }
    }
}

/// One read of the socket.
pub enum InFrame {
    /// A text frame, with the message that it holds where it parses as one.
    Text(Option<ServerMessage>),
    /// A close frame, with its code where it has one.
    Close(Option<u16>),
    /// A frame of another kind.
    Other,
    /// The read failed, or the stream ended.
    Ended,
}

/// What the reader does about a read.
pub enum ReadStep {
    /// The socket lives, and the session gets an event.
    Deliver(SignalEvent),
    /// The socket lives; there is nothing to deliver.
    Alive,
    /// Read on.
    Skip,
    /// Stop reading; the session gets `Closed`.
    End { replaced: bool },
}

/// Close code by which the relay evicts a connection that the same user replaced.
pub const CLOSE_REPLACED: u16 = 4000;

/// The reader's decision on a read, in full.
pub open spec fn read_decision(frame: InFrame) -> ReadStep {
    match frame {
        InFrame::Text(Some(m)) => match m.event() {
            Some(e) => ReadStep::Deliver(e),
            None => ReadStep::Alive,
        },
        InFrame::Text(None) => ReadStep::Alive,
        InFrame::Close(Some(code)) => ReadStep::End { replaced: code == CLOSE_REPLACED },
        InFrame::Close(None) => ReadStep::End { replaced: false },
        InFrame::Other => ReadStep::Skip,
        InFrame::Ended => ReadStep::End { replaced: false },
    }
}

/// Decides what a read of the socket means.
pub fn read_step(frame: InFrame) -> (r: ReadStep)
    ensures
        r == read_decision(frame),
{
    match frame {
        InFrame::Text(Some(m)) => match m.into_event() {
            Some(e) => ReadStep::Deliver(e),
            None => ReadStep::Alive,
        },
        InFrame::Text(None) => ReadStep::Alive,
        InFrame::Close(Some(code)) => ReadStep::End { replaced: code == CLOSE_REPLACED },
        InFrame::Close(None) => ReadStep::End { replaced: false },
        InFrame::Other => ReadStep::Skip,
        InFrame::Ended => ReadStep::End { replaced: false },
    }
}

/// The wire message of an outbound one; `Close` has none.
pub open spec fn written(out: SignalOut) -> Option<ClientMessage> {
    match out {
        SignalOut::Join { channel_id, user_id, username } => Some(
            ClientMessage::Join { channel_id, user_id, username },
        ),
        SignalOut::Offer { to, sdp } => Some(ClientMessage::Offer { to, sdp }),
        SignalOut::Answer { to, sdp } => Some(ClientMessage::Answer { to, sdp }),
        SignalOut::IceCandidate { to, candidate } => Some(
            ClientMessage::IceCandidate { to, candidate },
        ),
        SignalOut::Ping => Some(ClientMessage::Ping),
        SignalOut::Close => None,
    }
}

/// What the writer puts on the wire; `None` is the end: it aborts the reader and
/// closes the socket.
pub fn write_step(out: SignalOut) -> (r: Option<ClientMessage>)
    ensures
        r == written(out),
{
    match out {
        SignalOut::Join { channel_id, user_id, username } => Some(
            ClientMessage::Join { channel_id, user_id, username },
        ),
        SignalOut::Offer { to, sdp } => Some(ClientMessage::Offer { to, sdp }),
        SignalOut::Answer { to, sdp } => Some(ClientMessage::Answer { to, sdp }),
        SignalOut::IceCandidate { to, candidate } => Some(
            ClientMessage::IceCandidate { to, candidate },
        ),
        SignalOut::Ping => Some(ClientMessage::Ping),
        SignalOut::Close => None,
    }
}

/// The relay hears of a session's end only by the socket: the writer forwards
/// every message but `Close`, and stops at that one.
pub proof fn law_only_close_ends_writer(out: SignalOut)
    ensures
        written(out) is None <==> out == SignalOut::Close,
{
}

/// Milliseconds between two pings.
pub const PING_EVERY_MS: u64 = 5000;

/// Milliseconds without an inbound frame after which the socket counts as dead.
pub const DEAD_AFTER_MS: u64 = 20000;

/// What wakes the heartbeat.
pub enum Beat {
    /// The ping timer fired.
    PingDue,
    /// A frame came in.
    Heard,
    /// The reader ended.
    ReaderEnded,
    /// The deadline timer fired.
    Deadline,
}

/// What the heartbeat does.
pub enum BeatStep {
    SendPing,
    Wait,
    Stop,
    /// Tell the session that the socket closed, and stop.
    Dead,
}

/// Pings the relay and watches for its silence. Instants are milliseconds of a
/// monotonic clock.
pub struct Heartbeat {
    pub deadline: u64,
}

impl Heartbeat {
    /// A heartbeat that starts at `now`.
    pub fn start(now: u64) -> (r: Self)
        requires
            now + DEAD_AFTER_MS <= u64::MAX,
        ensures
            r.deadline == now + DEAD_AFTER_MS,
    {
        Heartbeat { deadline: now + DEAD_AFTER_MS }
    }

    /// Reacts to what woke the heartbeat at `now`. Only an inbound frame moves
    /// the deadline.
    pub fn step(&mut self, beat: Beat, now: u64) -> (r: BeatStep)
        requires
            now + DEAD_AFTER_MS <= u64::MAX,
        ensures
            r == (match beat {
                Beat::PingDue => BeatStep::SendPing,
                Beat::Heard => BeatStep::Wait,
                Beat::ReaderEnded => BeatStep::Stop,
                Beat::Deadline => if now >= old(self).deadline {
                    BeatStep::Dead
                } else {
                    BeatStep::Wait
                },
            }),
            final(self).deadline == next_deadline(old(self).deadline as int, beat, now),
    {
        match beat {
            Beat::PingDue => BeatStep::SendPing,
            Beat::Heard => {
                self.deadline = now + DEAD_AFTER_MS;
                BeatStep::Wait
            },
            Beat::ReaderEnded => BeatStep::Stop,
            Beat::Deadline => {
                if now >= self.deadline {
                    BeatStep::Dead
                } else {
                    BeatStep::Wait
                }
            },
        }
    }
}

/// The deadline after a beat: only an inbound frame moves it.
pub open spec fn next_deadline(deadline: int, beat: Beat, now: u64) -> int {
    if beat is Heard {
        now + DEAD_AFTER_MS
    } else {
        deadline
    }
}

/// The deadline after beats, each with its instant.
pub open spec fn deadline_after(deadline: int, beats: Seq<(Beat, u64)>) -> int
    decreases beats.len(),
{
    if beats.len() == 0 {
        deadline
    } else {
        next_deadline(
            deadline_after(deadline, beats.drop_last()),
            beats.last().0,
            beats.last().1,
        )
    }
}

/// The socket counts as dead twenty seconds after the last inbound frame: the
/// deadline is set by the last frame heard, however many pings went out and timers
/// fired since.
pub proof fn law_silence_since_last_frame(
    deadline: int,
    before: Seq<(Beat, u64)>,
    heard_at: u64,
    since: Seq<(Beat, u64)>,
)
    requires
        forall|i: int| 0 <= i < since.len() ==> !((#[trigger] since[i]).0 is Heard),
    ensures
        deadline_after(deadline, before.push((Beat::Heard, heard_at)) + since) == heard_at
            + DEAD_AFTER_MS,
    decreases since.len(),
{
    let head = before.push((Beat::Heard, heard_at));
    if since.len() == 0 {
        assert(head + since =~= head);
        assert(head.drop_last() =~= before);
    } else {
        let rest = since.drop_last();
        assert forall|i: int| 0 <= i < rest.len() implies !((#[trigger] rest[i]).0 is Heard) by {
            assert(rest[i] == since[i]);
        }
        law_silence_since_last_frame(deadline, before, heard_at, rest);
        assert((head + since).drop_last() =~= head + rest);
        assert((head + since).last() == since[since.len() - 1]);
    }
}

/// The upgrade URL and the first message of a signaling connection.
pub struct SignalingPlan {
    pub url: String,
    pub join: SignalOut,
}

/// How to connect to `ws_url`: the token rides in the query, and `join` is the
/// first message out.
pub fn signaling_plan(
    ws_url: &str,
    token: &str,
    channel_id: &str,
    user_id: &str,
    username: &str,
) -> (r: SignalingPlan)
    ensures
        r.url@ == ws_url@ + "?token="@ + crate::text::url_encoded(
            vstd::utf8::encode_utf8(token@),
        ),
        r.join matches SignalOut::Join { channel_id: c, user_id: u, username: n } && c@
            == channel_id@ && u@ == user_id@ && n@ == username@,
{
    let head: String = joined(ws_url, "?token=");
    let url: String = joined(head.as_str(), url_encode(token).as_str());
    SignalingPlan {
        url,
        join: SignalOut::Join {
            channel_id: channel_id.to_owned(),
            user_id: user_id.to_owned(),
            username: username.to_owned(),
        },
    }
}

/// What the relay hands to the peer that a message is for: the same message with the
/// sender in place of the receiver. Other messages are for the relay itself.
pub open spec fn relayed(sender: String, m: ClientMessage) -> Option<(String, ServerMessage)> {
    match m {
        ClientMessage::Offer { to, sdp } => Some((to, ServerMessage::Offer { from: sender, sdp })),
        ClientMessage::Answer { to, sdp } => Some((to, ServerMessage::Answer { from: sender, sdp })),
        ClientMessage::IceCandidate { to, candidate } => Some(
            (to, ServerMessage::IceCandidate { from: sender, candidate }),
        ),
        _ => None,
    }
}

/// What one client writes is what the other reads: an offer is delivered as an offer,
/// an answer as an answer and a candidate as a candidate, to the peer that it is for,
/// from the one that sent it, with the same payload. A join, a ping and a close reach
/// no peer.
pub proof fn law_peers_understand_each_other(
    sender: String,
    out: SignalOut,
    wire: Option<ClientMessage>,
    got: ReadStep,
)
    requires
        call_ensures(write_step, (out,), wire),
        wire matches Some(m) ==> (relayed(sender, m) matches Some(d) ==> call_ensures(
            read_step,
            (InFrame::Text(Some(d.1)),),
            got,
        )),
    ensures
        match out {
            SignalOut::Offer { to, sdp } => {
                &&& wire matches Some(m)
                &&& relayed(sender, m) matches Some(d)
                &&& d.0 == to
                &&& got == ReadStep::Deliver(SignalEvent::Offer { from: sender, sdp })
            },
            SignalOut::Answer { to, sdp } => {
                &&& wire matches Some(m)
                &&& relayed(sender, m) matches Some(d)
                &&& d.0 == to
                &&& got == ReadStep::Deliver(SignalEvent::Answer { from: sender, sdp })
            },
            SignalOut::IceCandidate { to, candidate } => {
                &&& wire matches Some(m)
                &&& relayed(sender, m) matches Some(d)
                &&& d.0 == to
                &&& got == ReadStep::Deliver(SignalEvent::IceCandidate { from: sender, candidate })
            },
            _ => wire matches Some(m) ==> relayed(sender, m) is None,
        },
{
}

/// The kind of a message is the same on the wire, and so is what it carries.
pub proof fn law_written_as_meant(out: SignalOut, wire: Option<ClientMessage>)
    requires
        call_ensures(write_step, (out,), wire),
    ensures
        out is Offer <==> (wire matches Some(m) && m is Offer),
        out is Answer <==> (wire matches Some(m) && m is Answer),
        out is IceCandidate <==> (wire matches Some(m) && m is IceCandidate),
        out is Join <==> (wire matches Some(m) && m is Join),
        out is Ping <==> (wire matches Some(m) && m is Ping),
        out is Close <==> wire is None,
        wire matches Some(ClientMessage::Offer { to, sdp }) ==> to == out->Offer_to && sdp
            == out->Offer_sdp,
        wire matches Some(ClientMessage::Answer { to, sdp }) ==> to == out->Answer_to && sdp
            == out->Answer_sdp,
        wire matches Some(ClientMessage::IceCandidate { to, candidate }) ==> to
            == out->IceCandidate_to && candidate == out->candidate,
        wire matches Some(ClientMessage::Join { channel_id, user_id, username }) ==> channel_id
            == out->channel_id && user_id == out->user_id && username == out->username,
{
}

/// Nothing that the relay tells is lost or mistaken: each kind of message is
/// delivered as the event of that kind with the same parts, and only presence and
/// pongs, which show that the socket lives, deliver nothing.
pub proof fn law_read_as_told(m: ServerMessage, got: ReadStep)
    requires
        call_ensures(read_step, (InFrame::Text(Some(m)),), got),
    ensures
        m is Presence || m is Pong <==> got is Alive,
        got is Alive || got is Deliver,
        got matches ReadStep::Deliver(e) ==> {
            &&& e is Joined <==> m is Joined
            &&& e is PeerJoined <==> m is PeerJoined
            &&& e is PeerLeft <==> m is PeerLeft
            &&& e is Offer <==> m is Offer
            &&& e is Answer <==> m is Answer
            &&& e is IceCandidate <==> m is IceCandidate
            &&& e is Error <==> m is Error
            &&& !(e is Closed)
            &&& e matches SignalEvent::Joined { peer_id, peers } ==> peer_id == m->Joined_peer_id
                && peers == m->peers
            &&& e matches SignalEvent::PeerJoined(peer) ==> peer == m->peer
            &&& e matches SignalEvent::PeerLeft(id) ==> id == m->PeerLeft_peer_id
            &&& e matches SignalEvent::Offer { from, sdp } ==> from == m->Offer_from && sdp
                == m->Offer_sdp
            &&& e matches SignalEvent::Answer { from, sdp } ==> from == m->Answer_from && sdp
                == m->Answer_sdp
            &&& e matches SignalEvent::IceCandidate { from, candidate } ==> from
                == m->IceCandidate_from && candidate == m->candidate
            &&& e matches SignalEvent::Error { code, message } ==> code == m->code && message
                == m->message
        },
{
}

/// A socket ends by a close frame or a failed read and by nothing else, and the
/// session counts as replaced only by the relay's close code for that.
pub proof fn law_end_of_reading(frame: InFrame, got: ReadStep)
    requires
        call_ensures(read_step, (frame,), got),
    ensures
        got is End <==> frame is Close || frame is Ended,
        got matches ReadStep::End { replaced } ==> (replaced <==> frame == InFrame::Close(
            Some(4000u16),
        )),
        got is Skip <==> frame is Other,
        frame == InFrame::Text(None) ==> got is Alive,
{
}

/// A heartbeat pings when a ping is due and at no other time, stops with the reader,
/// and tells of a dead socket only at a deadline that has come: with no frame heard
/// since `heard_at`, not before twenty seconds later, and from then on always.
pub proof fn law_heartbeat(
    h: &mut Heartbeat,
    last: &mut Heartbeat,
    heard_at: u64,
    beat: Beat,
    now: u64,
    a: BeatStep,
    b: BeatStep,
)
    requires
        call_ensures(Heartbeat::step, (h, Beat::Heard, heard_at), a),
        *old(last) == *final(h),
        call_ensures(Heartbeat::step, (last, beat, now), b),
    ensures
        a is Wait,
        b is SendPing <==> beat is PingDue,
        b is Stop <==> beat is ReaderEnded,
        b is Dead <==> beat is Deadline && now - heard_at >= 20000,
        !(beat is Heard) ==> final(last).deadline == heard_at + 20000,
        beat is Heard ==> final(last).deadline == now + 20000,
{
}

/// A heartbeat that starts counts its start as a frame heard.
pub proof fn law_heartbeat_starts(now: u64, a: Heartbeat, h: &mut Heartbeat, r: BeatStep)
    requires
        call_ensures(Heartbeat::start, (now,), a),
        call_ensures(Heartbeat::step, (h, Beat::Heard, now), r),
    ensures
        *final(h) == a,
{
}

/// A connection carries its token in the query of its address, and its first message
/// joins the channel as the user.
pub proof fn law_plan_joins(
    ws_url: &str,
    token: &str,
    channel_id: &str,
    user_id: &str,
    username: &str,
    plan: SignalingPlan,
    wire: Option<ClientMessage>,
)
    requires
        call_ensures(signaling_plan, (ws_url, token, channel_id, user_id, username), plan),
        call_ensures(write_step, (plan.join,), wire),
    ensures
        wire matches Some(ClientMessage::Join { channel_id: c, user_id: u, username: n }) && c@
            == channel_id@ && u@ == user_id@ && n@ == username@,
        plan.url@ == ws_url@ + ("?token="@ + crate::text::url_encoded(
            vstd::utf8::encode_utf8(token@),
        )),
{
    assert(plan.url@ =~= ws_url@ + ("?token="@ + crate::text::url_encoded(
        vstd::utf8::encode_utf8(token@),
    )));
}

/// A socket is pinged four times before its silence counts as its end.
pub proof fn law_pings_before_the_end()
    ensures
        PING_EVERY_MS * 4 == DEAD_AFTER_MS,
        DEAD_AFTER_MS == 20000,
{
}

} // verus!
