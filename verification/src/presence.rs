//! The presence socket: what goes out, what comes in, and when to reconnect.
use vstd::prelude::*;

use crate::event::CoreEvent;
use crate::protocol::{DmSignalKind, PresenceClientMessage, PresenceServerMessage, PresenceV2Status};
use crate::text::{joined, replace_all, trim_end_slashes, url_encode};

verus! {

/// What the client sends on the presence socket.
#[derive(Debug)]
#[allow(inconsistent_fields)]
pub enum PresenceOut {
    Status(PresenceV2Status),
    VoiceJoin { channel_id: String, server_id: String },
    VoiceLeave,
    Chat {
        channel_id: String,
        server_id: String,
        content: String,
        client_id: String,
        reply_to: Option<String>,
        attachment_url: Option<String>,
    },
    ChatEdit {
        channel_id: String,
        server_id: String,
        message_id: String,
        content: String,
        client_id: String,
    },
    ChatDelete { channel_id: String, server_id: String, message_id: String, client_id: String },
    Typing { channel_id: String, server_id: String },
    Subscribe(String),
    Unsubscribe(String),
    DmSignal {
        to: String,
        kind: DmSignalKind,
        sdp: Option<String>,
        candidate: Option<serde_json::Value>,
    },
}

/// The wire message of an outbound one.
pub open spec fn encoded(msg: PresenceOut) -> PresenceClientMessage {
    match msg {
        PresenceOut::Status(status) => PresenceClientMessage::Status { status },
        PresenceOut::VoiceJoin { channel_id, server_id } => PresenceClientMessage::VoiceJoin {
            channel_id,
            server_id,
        },
        PresenceOut::VoiceLeave => PresenceClientMessage::VoiceLeave,
        PresenceOut::Chat {
            channel_id,
            server_id,
            content,
            client_id,
            reply_to,
            attachment_url,
        } => PresenceClientMessage::Chat {
            channel_id,
            server_id,
            content,
            client_id,
            reply_to,
            attachment_url,
        },
        PresenceOut::ChatEdit { channel_id, server_id, message_id, content, client_id } => {
            PresenceClientMessage::ChatEdit { channel_id, server_id, message_id, content, client_id }
        },
        PresenceOut::ChatDelete { channel_id, server_id, message_id, client_id } => {
            PresenceClientMessage::ChatDelete { channel_id, server_id, message_id, client_id }
        },
        PresenceOut::Typing { channel_id, server_id } => PresenceClientMessage::Typing {
            channel_id,
            server_id,
        },
        PresenceOut::Subscribe(channel_id) => PresenceClientMessage::Subscribe { channel_id },
        PresenceOut::Unsubscribe(channel_id) => PresenceClientMessage::Unsubscribe { channel_id },
        PresenceOut::DmSignal { to, kind, sdp, candidate } => PresenceClientMessage::DmSignal {
            to,
            kind,
            sdp,
            candidate,
        },
    }
}

/// Turns an outbound message into its wire message.
pub fn encode_out(msg: PresenceOut) -> (r: PresenceClientMessage)
    ensures
        r == encoded(msg),
{
    match msg {
        PresenceOut::Status(status) => PresenceClientMessage::Status { status },
        PresenceOut::VoiceJoin { channel_id, server_id } => PresenceClientMessage::VoiceJoin {
            channel_id,
            server_id,
        },
        PresenceOut::VoiceLeave => PresenceClientMessage::VoiceLeave,
        PresenceOut::Chat {
            channel_id,
            server_id,
            content,
            client_id,
            reply_to,
            attachment_url,
        } => PresenceClientMessage::Chat {
            channel_id,
            server_id,
            content,
            client_id,
            reply_to,
            attachment_url,
        },
        PresenceOut::ChatEdit { channel_id, server_id, message_id, content, client_id } => {
            PresenceClientMessage::ChatEdit { channel_id, server_id, message_id, content, client_id }
        },
        PresenceOut::ChatDelete { channel_id, server_id, message_id, client_id } => {
            PresenceClientMessage::ChatDelete { channel_id, server_id, message_id, client_id }
        },
        PresenceOut::Typing { channel_id, server_id } => PresenceClientMessage::Typing {
            channel_id,
            server_id,
        },
        PresenceOut::Subscribe(channel_id) => PresenceClientMessage::Subscribe { channel_id },
        PresenceOut::Unsubscribe(channel_id) => PresenceClientMessage::Unsubscribe { channel_id },
        PresenceOut::DmSignal { to, kind, sdp, candidate } => PresenceClientMessage::DmSignal {
            to,
            kind,
            sdp,
            candidate,
        },
    }
}

/// Whether `ev` is the event of an inbound message: its fields carried over, an
/// error as `presence: code: message`, nothing for a pong.
pub open spec fn publishes(msg: PresenceServerMessage, ev: Option<CoreEvent>) -> bool {
    match msg {
        PresenceServerMessage::Ready { online_friends, servers } => ev == Some(
            CoreEvent::PresenceReady { online_friends, servers },
        ),
        PresenceServerMessage::FriendOnline { user_id, username } => ev == Some(
            CoreEvent::FriendOnline { user_id, username },
        ),
        PresenceServerMessage::FriendOffline { user_id } => ev == Some(
            CoreEvent::FriendOffline { user_id },
        ),
        PresenceServerMessage::FriendStatus { user_id, status } => ev == Some(
            CoreEvent::FriendStatus { user_id, status },
        ),
        PresenceServerMessage::VoiceUpdate { server_id, channel_id, peers } => ev == Some(
            CoreEvent::VoiceOccupancyChanged { server_id, channel_id, peers },
        ),
        PresenceServerMessage::MemberOnline { server_id, user_id, username } => ev == Some(
            CoreEvent::MemberOnline { server_id, user_id, username },
        ),
        PresenceServerMessage::MemberOffline { server_id, user_id } => ev == Some(
            CoreEvent::MemberOffline { server_id, user_id },
        ),
        PresenceServerMessage::Typing { channel_id, user_id } => ev == Some(
            CoreEvent::Typing { channel_id, user_id },
        ),
        PresenceServerMessage::SubscribeAck { channel_id } => ev == Some(
            CoreEvent::SubscribeAck { channel_id },
        ),
        PresenceServerMessage::Chat { channel_id, message } => ev == Some(
            CoreEvent::RealtimeMessage { channel_id, message },
        ),
        PresenceServerMessage::ChatAck { client_id, message_id, created_at } => ev == Some(
            CoreEvent::ChatAck { client_id, message_id, created_at },
        ),
        PresenceServerMessage::ChatEditAck { client_id, message_id } => ev == Some(
            CoreEvent::ChatEditAck { client_id, message_id },
        ),
        PresenceServerMessage::ChatDeleteAck { client_id, message_id } => ev == Some(
            CoreEvent::ChatDeleteAck { client_id, message_id },
        ),
        PresenceServerMessage::ChatEdited { channel_id, message } => ev == Some(
            CoreEvent::ChatEdited { channel_id, message },
        ),
        PresenceServerMessage::ChatDeleted { channel_id, message_id } => ev == Some(
            CoreEvent::ChatDeleted { channel_id, message_id },
        ),
        PresenceServerMessage::ChatError { client_id, code } => ev == Some(
            CoreEvent::ChatError { client_id, code },
        ),
        PresenceServerMessage::Reaction { channel_id, message_id, emoji, user_id, added } => ev
            == Some(CoreEvent::Reaction { channel_id, message_id, emoji, user_id, added }),
        PresenceServerMessage::DmOffer { from, sdp } => ev == Some(
            CoreEvent::DmOffer { from, sdp },
        ),
        PresenceServerMessage::DmAnswer { from, sdp } => ev == Some(
            CoreEvent::DmAnswer { from, sdp },
        ),
        PresenceServerMessage::DmIce { from, candidate } => ev == Some(
            CoreEvent::DmIce { from, candidate },
        ),
        PresenceServerMessage::Pong => ev is None,
        PresenceServerMessage::Error { code, message } => {
            &&& ev matches Some(CoreEvent::Error { message: m })
            &&& m@ == "presence: "@ + code@ + ": "@ + message@
        },
    }
}

/// The event to publish for an inbound message.
pub fn publish_event(msg: PresenceServerMessage) -> (r: Option<CoreEvent>)
    ensures
        publishes(msg, r),
{
    let ev: CoreEvent = match msg {
        PresenceServerMessage::Ready { online_friends, servers } => CoreEvent::PresenceReady {
            online_friends,
            servers,
        },
        PresenceServerMessage::FriendOnline { user_id, username } => CoreEvent::FriendOnline {
            user_id,
            username,
        },
        PresenceServerMessage::FriendOffline { user_id } => CoreEvent::FriendOffline { user_id },
        PresenceServerMessage::FriendStatus { user_id, status } => CoreEvent::FriendStatus {
            user_id,
            status,
        },
        PresenceServerMessage::VoiceUpdate { server_id, channel_id, peers } => {
            CoreEvent::VoiceOccupancyChanged { server_id, channel_id, peers }
        },
        PresenceServerMessage::MemberOnline { server_id, user_id, username } => {
            CoreEvent::MemberOnline { server_id, user_id, username }
        },
        PresenceServerMessage::MemberOffline { server_id, user_id } => CoreEvent::MemberOffline {
            server_id,
            user_id,
        },
        PresenceServerMessage::Typing { channel_id, user_id } => CoreEvent::Typing {
            channel_id,
            user_id,
        },
        PresenceServerMessage::SubscribeAck { channel_id } => CoreEvent::SubscribeAck {
            channel_id,
        },
        PresenceServerMessage::Chat { channel_id, message } => CoreEvent::RealtimeMessage {
            channel_id,
            message,
        },
        PresenceServerMessage::ChatAck { client_id, message_id, created_at } => {
            CoreEvent::ChatAck { client_id, message_id, created_at }
        },
        PresenceServerMessage::ChatEditAck { client_id, message_id } => CoreEvent::ChatEditAck {
            client_id,
            message_id,
        },
        PresenceServerMessage::ChatDeleteAck { client_id, message_id } => {
            CoreEvent::ChatDeleteAck { client_id, message_id }
        },
        PresenceServerMessage::ChatEdited { channel_id, message } => CoreEvent::ChatEdited {
            channel_id,
            message,
        },
        PresenceServerMessage::ChatDeleted { channel_id, message_id } => CoreEvent::ChatDeleted {
            channel_id,
            message_id,
        },
        PresenceServerMessage::ChatError { client_id, code } => CoreEvent::ChatError {
            client_id,
            code,
        },
        PresenceServerMessage::Reaction { channel_id, message_id, emoji, user_id, added } => {
            CoreEvent::Reaction { channel_id, message_id, emoji, user_id, added }
        },
        PresenceServerMessage::DmOffer { from, sdp } => CoreEvent::DmOffer { from, sdp },
        PresenceServerMessage::DmAnswer { from, sdp } => CoreEvent::DmAnswer { from, sdp },
        PresenceServerMessage::DmIce { from, candidate } => CoreEvent::DmIce { from, candidate },
        PresenceServerMessage::Pong => {
            return None;
        },
        PresenceServerMessage::Error { code, message } => {
            let a: String = joined("presence: ", code.as_str());
            let b: String = joined(a.as_str(), ": ");
            CoreEvent::Error { message: joined(b.as_str(), message.as_str()) }
        },
    };
    Some(ev)
}

/// The URL of the presence socket of a backend: every `https` becomes `wss`, then
/// every `http` becomes `ws`, slashes at the end go, and the token rides in the
/// query.
pub open spec fn presence_url(base: Seq<char>, token: Seq<char>) -> Seq<char> {
    crate::text::trimmed_slashes(
        crate::text::replaced_all(
            crate::text::replaced_all(base, "https"@, "wss"@),
            "http"@,
            "ws"@,
        ),
    ) + "/api/presence"@ + "?token="@ + crate::text::url_encoded(vstd::utf8::encode_utf8(token))
}

/// The URL of the presence socket.
pub fn presence_ws_url(base: &str, token: &str) -> (r: String)
    ensures
        r@ == presence_url(base@, token@),
{
    proof {
        reveal_strlit("https");
        reveal_strlit("http");
    }
    let secure: String = replace_all(base, "https", "wss");
    let plain: String = replace_all(secure.as_str(), "http", "ws");
    let trimmed: String = trim_end_slashes(plain.as_str());
    let path: String = joined(trimmed.as_str(), "/api/presence");
    let query: String = joined(path.as_str(), "?token=");
    joined(query.as_str(), url_encode(token).as_str())
}

/// What happens to the presence loop.
pub enum LoopEvent {
    /// There is no token: the user is logged out.
    NoToken,
    /// The socket is open.
    Connected,
    /// The socket broke.
    SocketDied,
    /// The user disconnected while the socket was open.
    Disconnected,
    /// The socket could not be opened.
    ConnectFailed,
    /// The wait is over; `closed` when the user disconnected meanwhile.
    Waited { closed: bool },
}

/// What the presence loop does next.
#[derive(Debug, Clone, Copy, PartialEq, Eq, Structural)]
pub enum LoopStep {
    Stop,
    /// Drive the open socket.
    Drive,
    /// Wait this many seconds.
    Wait(u64),
    /// Connect again.
    Connect,
}

/// The reconnect state of the presence loop.
pub struct PresenceLoop {
    /// Seconds of the next wait.
    pub backoff: u64,
}

impl PresenceLoop {
    /// The next wait is between one and thirty seconds.
    pub open spec fn wf(&self) -> bool {
        1 <= self.backoff <= 30
    }

    pub fn new() -> (r: Self)
        ensures
            r.wf(),
            r.backoff == 1,
    {
        PresenceLoop { backoff: 1 }
    }

    /// Reacts to an event: a lost or refused socket is retried after a wait that
    /// doubles up to thirty seconds and starts anew with each success.
    pub fn step(&mut self, event: LoopEvent) -> (r: LoopStep)
        requires
            old(self).wf(),
        ensures
            final(self).wf(),
            r == (match event {
                LoopEvent::NoToken => LoopStep::Stop,
                LoopEvent::Connected => LoopStep::Drive,
                LoopEvent::Disconnected => LoopStep::Stop,
                LoopEvent::SocketDied => LoopStep::Wait(old(self).backoff),
                LoopEvent::ConnectFailed => LoopStep::Wait(old(self).backoff),
                LoopEvent::Waited { closed } => if closed {
                    LoopStep::Stop
                } else {
                    LoopStep::Connect
                },
            }),
            final(self).backoff == (match event {
                LoopEvent::Connected => 1,
                LoopEvent::SocketDied => doubled(old(self).backoff as int),
                LoopEvent::ConnectFailed => doubled(old(self).backoff as int),
                _ => old(self).backoff as int,
            }),
    {
        match event {
            LoopEvent::NoToken => LoopStep::Stop,
            LoopEvent::Connected => {
                self.backoff = 1;
                LoopStep::Drive
            },
            LoopEvent::Disconnected => LoopStep::Stop,
            LoopEvent::SocketDied | LoopEvent::ConnectFailed => {
                let wait: u64 = self.backoff;
                self.backoff = if wait * 2 > 30 {
                    30
                } else {
                    wait * 2
                };
                LoopStep::Wait(wait)
            },
            LoopEvent::Waited { closed } => {
                if closed {
                    LoopStep::Stop
                } else {
                    LoopStep::Connect
                }
            },
        }
    }
}

/// Twice a wait, at most thirty seconds.
pub open spec fn doubled(secs: int) -> int {
    if secs * 2 > 30 {
        30
    } else {
        secs * 2
    }
}

/// The wait before retry `n` of a socket that keeps failing, counted from 0.
pub open spec fn nth_wait(n: nat) -> int
    decreases n,
{
    if n == 0 {
        1
    } else {
        doubled(nth_wait((n - 1) as nat))
    }
}

/// Retries back off exponentially: one, two, four, eight, sixteen seconds, then
/// thirty for good.
pub proof fn law_backoff(n: nat)
    ensures
        n <= 4 ==> nth_wait(n) == vstd::arithmetic::power2::pow2(n),
        n >= 5 ==> nth_wait(n) == 30,
    decreases n,
{
    vstd::arithmetic::power2::lemma2_to64();
    if n > 0 {
        law_backoff((n - 1) as nat);
    }
}

/// What the open socket has for the client.
pub enum SocketEvent {
    /// A message to send; `None` when the user disconnected.
    Outbound(Option<PresenceOut>),
    /// A text frame, with the message in it where it parses as one.
    Text(Option<PresenceServerMessage>),
    /// A frame of another kind.
    OtherFrame,
    /// The socket ended or broke, in or out.
    Broken,
}

/// What to do about it.
pub enum SocketStep {
    /// Write a message.
    Write(PresenceClientMessage),
    /// Publish an event.
    Publish(CoreEvent),
    /// Nothing.
    Ignore,
    /// Leave the socket: reconnect or end for good.
    Leave { reconnect: bool },
}

/// Decides on a turn of the open socket.
pub fn socket_step(event: SocketEvent) -> (r: SocketStep)
    ensures
        match event {
            SocketEvent::Outbound(Some(msg)) => r == SocketStep::Write(encoded(msg)),
            SocketEvent::Outbound(None) => r == (SocketStep::Leave { reconnect: false }),
            SocketEvent::Text(Some(msg)) => match r {
                SocketStep::Publish(ev) => publishes(msg, Some(ev)),
                SocketStep::Ignore => publishes(msg, None),
                _ => false,
            },
            SocketEvent::Text(None) => r == SocketStep::Ignore,
            SocketEvent::OtherFrame => r == SocketStep::Ignore,
            SocketEvent::Broken => r == (SocketStep::Leave { reconnect: true }),
        },
{
    match event {
        SocketEvent::Outbound(Some(msg)) => SocketStep::Write(encode_out(msg)),
        SocketEvent::Outbound(None) => SocketStep::Leave { reconnect: false },
        SocketEvent::Text(Some(msg)) => match publish_event(msg) {
            Some(ev) => SocketStep::Publish(ev),
            None => SocketStep::Ignore,
        },
        SocketEvent::Text(None) => SocketStep::Ignore,
        SocketEvent::OtherFrame => SocketStep::Ignore,
        SocketEvent::Broken => SocketStep::Leave { reconnect: true },
    }
}

/// What the client means is what it writes: each message goes out as the one of its
/// kind, with every part in its own place.
pub proof fn law_out_written_as_meant(msg: PresenceOut, r: PresenceClientMessage)
    requires
        call_ensures(encode_out, (msg,), r),
    ensures
        msg is Status <==> r is Status,
        msg is VoiceJoin <==> r is VoiceJoin,
        msg is VoiceLeave <==> r is VoiceLeave,
        msg is Chat <==> r is Chat,
        msg is ChatEdit <==> r is ChatEdit,
        msg is ChatDelete <==> r is ChatDelete,
        msg is Typing <==> r is Typing,
        msg is Subscribe <==> r is Subscribe,
        msg is Unsubscribe <==> r is Unsubscribe,
        msg is DmSignal <==> r is DmSignal,
        msg is Status ==> r->status == msg->Status_0,
        msg is VoiceJoin ==> {
            &&& r->VoiceJoin_channel_id == msg->VoiceJoin_channel_id
            &&& r->VoiceJoin_server_id == msg->VoiceJoin_server_id
        },
        msg is Chat ==> {
            &&& r->Chat_channel_id == msg->Chat_channel_id
            &&& r->Chat_server_id == msg->Chat_server_id
            &&& r->Chat_content == msg->Chat_content
            &&& r->Chat_client_id == msg->Chat_client_id
            &&& r->reply_to == msg->reply_to
            &&& r->attachment_url == msg->attachment_url
        },
        msg is ChatEdit ==> {
            &&& r->ChatEdit_channel_id == msg->ChatEdit_channel_id
            &&& r->ChatEdit_server_id == msg->ChatEdit_server_id
            &&& r->ChatEdit_message_id == msg->ChatEdit_message_id
            &&& r->ChatEdit_content == msg->ChatEdit_content
            &&& r->ChatEdit_client_id == msg->ChatEdit_client_id
        },
        msg is ChatDelete ==> {
            &&& r->ChatDelete_channel_id == msg->ChatDelete_channel_id
            &&& r->ChatDelete_server_id == msg->ChatDelete_server_id
            &&& r->ChatDelete_message_id == msg->ChatDelete_message_id
            &&& r->ChatDelete_client_id == msg->ChatDelete_client_id
        },
        msg is Typing ==> {
            &&& r->Typing_channel_id == msg->Typing_channel_id
            &&& r->Typing_server_id == msg->Typing_server_id
        },
        msg is Subscribe ==> r->Subscribe_channel_id == msg->Subscribe_0,
        msg is Unsubscribe ==> r->Unsubscribe_channel_id == msg->Unsubscribe_0,
        msg is DmSignal ==> {
            &&& r->to == msg->to
            &&& r->kind == msg->kind
            &&& r->sdp == msg->sdp
            &&& r->candidate == msg->candidate
        },
{
}

/// What the hub tells is what is published: each message becomes the event of its
/// kind, with every part in its own place, and only a pong becomes nothing.
pub proof fn law_in_published_as_told(msg: PresenceServerMessage, r: Option<CoreEvent>)
    requires
        call_ensures(publish_event, (msg,), r),
    ensures
        msg is Pong <==> r is None,
        msg is Error <==> (r matches Some(e) && e is Error),
        msg matches PresenceServerMessage::Error { code, message } ==> (r matches Some(
            CoreEvent::Error { message: m },
        ) && m@ == "presence: "@ + code@ + ": "@ + message@),
        msg is Ready <==> (r matches Some(e) && e is PresenceReady),
        msg is Ready ==> {
            &&& r matches Some(CoreEvent::PresenceReady { online_friends, servers })
            &&& online_friends == msg->online_friends
            &&& servers == msg->servers
        },
        msg is FriendOnline <==> (r matches Some(e) && e is FriendOnline),
        msg is FriendOnline ==> {
            &&& r matches Some(CoreEvent::FriendOnline { user_id, username })
            &&& user_id == msg->FriendOnline_user_id
            &&& username == msg->FriendOnline_username
        },
        msg is FriendOffline <==> (r matches Some(e) && e is FriendOffline),
        msg is FriendOffline ==> {
            &&& r matches Some(CoreEvent::FriendOffline { user_id })
            &&& user_id == msg->FriendOffline_user_id
        },
        msg is FriendStatus <==> (r matches Some(e) && e is FriendStatus),
        msg is FriendStatus ==> {
            &&& r matches Some(CoreEvent::FriendStatus { user_id, status })
            &&& user_id == msg->FriendStatus_user_id
            &&& status == msg->status
        },
        msg is VoiceUpdate <==> (r matches Some(e) && e is VoiceOccupancyChanged),
        msg is VoiceUpdate ==> {
            &&& r matches Some(CoreEvent::VoiceOccupancyChanged { server_id, channel_id, peers })
            &&& server_id == msg->VoiceUpdate_server_id
            &&& channel_id == msg->VoiceUpdate_channel_id
            &&& peers == msg->peers
        },
        msg is MemberOnline <==> (r matches Some(e) && e is MemberOnline),
        msg is MemberOnline ==> {
            &&& r matches Some(CoreEvent::MemberOnline { server_id, user_id, username })
            &&& server_id == msg->MemberOnline_server_id
            &&& user_id == msg->MemberOnline_user_id
            &&& username == msg->MemberOnline_username
        },
        msg is MemberOffline <==> (r matches Some(e) && e is MemberOffline),
        msg is MemberOffline ==> {
            &&& r matches Some(CoreEvent::MemberOffline { server_id, user_id })
            &&& server_id == msg->MemberOffline_server_id
            &&& user_id == msg->MemberOffline_user_id
        },
        msg is Typing <==> (r matches Some(e) && e is Typing),
        msg is Typing ==> {
            &&& r matches Some(CoreEvent::Typing { channel_id, user_id })
            &&& channel_id == msg->Typing_channel_id
            &&& user_id == msg->Typing_user_id
        },
        msg is SubscribeAck <==> (r matches Some(e) && e is SubscribeAck),
        msg is SubscribeAck ==> {
            &&& r matches Some(CoreEvent::SubscribeAck { channel_id })
            &&& channel_id == msg->SubscribeAck_channel_id
        },
        msg is Chat <==> (r matches Some(e) && e is RealtimeMessage),
        msg is Chat ==> {
            &&& r matches Some(CoreEvent::RealtimeMessage { channel_id, message })
            &&& channel_id == msg->Chat_channel_id
            &&& message == msg->Chat_message
        },
        msg is ChatAck <==> (r matches Some(e) && e is ChatAck),
        msg is ChatAck ==> {
            &&& r matches Some(CoreEvent::ChatAck { client_id, message_id, created_at })
            &&& client_id == msg->ChatAck_client_id
            &&& message_id == msg->ChatAck_message_id
            &&& created_at == msg->created_at
        },
        msg is ChatEditAck <==> (r matches Some(e) && e is ChatEditAck),
        msg is ChatEditAck ==> {
            &&& r matches Some(CoreEvent::ChatEditAck { client_id, message_id })
            &&& client_id == msg->ChatEditAck_client_id
            &&& message_id == msg->ChatEditAck_message_id
        },
        msg is ChatDeleteAck <==> (r matches Some(e) && e is ChatDeleteAck),
        msg is ChatDeleteAck ==> {
            &&& r matches Some(CoreEvent::ChatDeleteAck { client_id, message_id })
            &&& client_id == msg->ChatDeleteAck_client_id
            &&& message_id == msg->ChatDeleteAck_message_id
        },
        msg is ChatEdited <==> (r matches Some(e) && e is ChatEdited),
        msg is ChatEdited ==> {
            &&& r matches Some(CoreEvent::ChatEdited { channel_id, message })
            &&& channel_id == msg->ChatEdited_channel_id
            &&& message == msg->ChatEdited_message
        },
        msg is ChatDeleted <==> (r matches Some(e) && e is ChatDeleted),
        msg is ChatDeleted ==> {
            &&& r matches Some(CoreEvent::ChatDeleted { channel_id, message_id })
            &&& channel_id == msg->ChatDeleted_channel_id
            &&& message_id == msg->ChatDeleted_message_id
        },
        msg is ChatError <==> (r matches Some(e) && e is ChatError),
        msg is ChatError ==> {
            &&& r matches Some(CoreEvent::ChatError { client_id, code })
            &&& client_id == msg->ChatError_client_id
            &&& code == msg->ChatError_code
        },
        msg is Reaction <==> (r matches Some(e) && e is Reaction),
        msg is Reaction ==> {
            &&& r matches Some(CoreEvent::Reaction {
                channel_id,
                message_id,
                emoji,
                user_id,
                added,
            })
            &&& channel_id == msg->Reaction_channel_id
            &&& message_id == msg->Reaction_message_id
            &&& emoji == msg->emoji
            &&& user_id == msg->Reaction_user_id
            &&& added == msg->added
        },
        msg is DmOffer <==> (r matches Some(e) && e is DmOffer),
        msg is DmOffer ==> {
            &&& r matches Some(CoreEvent::DmOffer { from, sdp })
            &&& from == msg->DmOffer_from
            &&& sdp == msg->DmOffer_sdp
        },
        msg is DmAnswer <==> (r matches Some(e) && e is DmAnswer),
        msg is DmAnswer ==> {
            &&& r matches Some(CoreEvent::DmAnswer { from, sdp })
            &&& from == msg->DmAnswer_from
            &&& sdp == msg->DmAnswer_sdp
        },
        msg is DmIce <==> (r matches Some(e) && e is DmIce),
        msg is DmIce ==> {
            &&& r matches Some(CoreEvent::DmIce { from, candidate })
            &&& from == msg->DmIce_from
            &&& candidate == msg->candidate
        },
{
}

/// The events of the open socket: a message to send is written, a message that came
/// is published or passed over, and the socket is left only when the user disconnects,
/// for good, or when it breaks, to reconnect.
pub proof fn law_socket_turn(
    event: SocketEvent,
    r: SocketStep,
    wire: PresenceClientMessage,
)
    requires
        call_ensures(socket_step, (event,), r),
        event matches SocketEvent::Outbound(Some(msg)) ==> call_ensures(encode_out, (msg,), wire),
    ensures
        event matches SocketEvent::Outbound(Some(msg)) ==> r == SocketStep::Write(wire),
        r is Write ==> (event matches SocketEvent::Outbound(Some(_))),
        r is Publish ==> (event matches SocketEvent::Text(Some(m)) && !(m is Pong)),
        event matches SocketEvent::Text(Some(m)) ==> (r is Ignore <==> m is Pong),
        event matches SocketEvent::Text(Some(PresenceServerMessage::Chat { channel_id, message }))
            ==> r == SocketStep::Publish(CoreEvent::RealtimeMessage { channel_id, message }),
        r matches SocketStep::Leave { reconnect } ==> (event is Broken && reconnect) || (event
            matches SocketEvent::Outbound(None) && !reconnect),
        event is Broken ==> r is Leave,
        event == SocketEvent::Outbound(None) ==> r is Leave,
{
}

/// A socket that keeps failing is tried again after waits that double from one second
/// up to thirty, and a socket that opens starts them anew.
pub proof fn law_waits_double(
    a: &mut PresenceLoop,
    b: &mut PresenceLoop,
    first: LoopEvent,
    second: LoopEvent,
    x: LoopStep,
    y: LoopStep,
)
    requires
        old(a).wf(),
        first is SocketDied || first is ConnectFailed,
        second is SocketDied || second is ConnectFailed,
        call_ensures(PresenceLoop::step, (a, first), x),
        *old(b) == *final(a),
        call_ensures(PresenceLoop::step, (b, second), y),
    ensures
        x matches LoopStep::Wait(m) && y matches LoopStep::Wait(n) && (n == 2 * m || (n == 30 && 2
            * m > 30)),
{
}

/// An open socket is driven, and the wait after it is one second; the end of a wait
/// connects, unless the user disconnected; without a token, or once the user
/// disconnects, the loop stops.
pub proof fn law_loop_turn(
    a: &mut PresenceLoop,
    b: &mut PresenceLoop,
    event: LoopEvent,
    x: LoopStep,
    y: LoopStep,
)
    requires
        old(a).wf(),
        call_ensures(PresenceLoop::step, (a, event), x),
        *old(b) == *final(a),
        call_ensures(PresenceLoop::step, (b, LoopEvent::SocketDied), y),
    ensures
        event is Connected ==> x is Drive && y == LoopStep::Wait(1),
        event == (LoopEvent::Waited { closed: false }) ==> x is Connect,
        event == (LoopEvent::Waited { closed: true }) ==> x is Stop,
        event is NoToken || event is Disconnected ==> x is Stop,
        x is Wait <==> event is SocketDied || event is ConnectFailed,
        event is Waited ==> y == LoopStep::Wait(old(a).backoff),
{
}

/// The presence socket of a backend: a secure address becomes a secure one, a plain
/// address a plain one, the host stays, and path and token follow.
pub proof fn law_presence_address(base: &str, token: &str, r: String, rest: Seq<char>)
    requires
        call_ensures(presence_ws_url, (base, token), r),
        rest.len() > 0,
        rest[0] == ':',
        rest.last() != '/',
        forall|j: int| !#[trigger] crate::text::stands_at(rest, "http"@, j),
    ensures
        base@ == "https"@ + rest ==> r@ == "wss"@ + rest + "/api/presence?token="@
            + crate::text::url_encoded(vstd::utf8::encode_utf8(token@)),
        base@ == "http"@ + rest ==> r@ == "ws"@ + rest + "/api/presence?token="@
            + crate::text::url_encoded(vstd::utf8::encode_utf8(token@)),
{
    reveal_strlit("https");
    reveal_strlit("http");
    reveal_strlit("wss");
    reveal_strlit("ws");
    reveal_strlit("/api/presence");
    reveal_strlit("?token=");
    reveal_strlit("/api/presence?token=");
    let code = crate::text::url_encoded(vstd::utf8::encode_utf8(token@));
    let s = base@;
    assert("/api/presence"@ + "?token="@ =~= "/api/presence?token="@);
    assert forall|j: int| !#[trigger] crate::text::stands_at(rest, "https"@, j) by {
        if crate::text::stands_at(rest, "https"@, j) {
            assert forall|k: int| 0 <= k < 4 implies rest[j + k] == #[trigger] "http"@[k] by {
                assert("https"@[k] == "http"@[k]);
            }
            assert(crate::text::stands_at(rest, "http"@, j));
        }
    }
    if s == "https"@ + rest {
        assert(crate::text::stands_at(s, "https"@, 0));
        crate::text::lemma_all_replaced(s, "https"@, "wss"@, 0);
        assert(s.skip(5) =~= rest);
        crate::text::lemma_nothing_replaced(rest, "https"@, "wss"@);
        let t = "wss"@ + rest;
        assert(s.take(0) + "wss"@ + rest =~= t);
        lemma_no_scheme_left("wss"@, rest);
        crate::text::lemma_nothing_replaced(t, "http"@, "ws"@);
        assert(t.last() == rest.last());
        assert(t + "/api/presence"@ + "?token="@ + code =~= t + ("/api/presence"@ + "?token="@)
            + code);
    }
    if s == "http"@ + rest {
        assert forall|j: int| 0 <= j < s.len() implies !#[trigger] crate::text::stands_at(
            s,
            "https"@,
            j,
        ) by {
            if crate::text::stands_at(s, "https"@, j) {
                if j == 0 {
                    assert(s[j + 4] == "https"@[4]);
                    assert(s[4] == rest[0]);
                } else if j < 4 {
                    assert(s[j + 0] == "https"@[0]);
                } else {
                    assert forall|k: int| 0 <= k < 5 implies rest[j - 4 + k]
                        == #[trigger] "https"@[k] by {
                        assert(s[j + k] == "https"@[k]);
                    }
                    assert(crate::text::stands_at(rest, "https"@, j - 4));
                }
            }
        }
        crate::text::lemma_nothing_replaced(s, "https"@, "wss"@);
        assert(crate::text::stands_at(s, "http"@, 0));
        crate::text::lemma_all_replaced(s, "http"@, "ws"@, 0);
        assert(s.skip(4) =~= rest);
        crate::text::lemma_nothing_replaced(rest, "http"@, "ws"@);
        let t = "ws"@ + rest;
        assert(s.take(0) + "ws"@ + rest =~= t);
        assert(t.last() == rest.last());
        assert(t + "/api/presence"@ + "?token="@ + code =~= t + ("/api/presence"@ + "?token="@)
            + code);
    }
}

proof fn lemma_no_scheme_left(scheme: Seq<char>, rest: Seq<char>)
    requires
        scheme == "wss"@,
        forall|j: int| !#[trigger] crate::text::stands_at(rest, "http"@, j),
    ensures
        forall|j: int|
            0 <= j < (scheme + rest).len() ==> !#[trigger] crate::text::stands_at(
                scheme + rest,
                "http"@,
                j,
            ),
{
    reveal_strlit("wss");
    reveal_strlit("http");
    let t = scheme + rest;
    assert forall|j: int| 0 <= j < t.len() implies !#[trigger] crate::text::stands_at(
        t,
        "http"@,
        j,
    ) by {
        if crate::text::stands_at(t, "http"@, j) {
            assert(t[j + 0] == "http"@[0]);
            if j >= 3 {
                assert forall|k: int| 0 <= k < 4 implies rest[j - 3 + k]
                    == #[trigger] "http"@[k] by {
                    assert(t[j + k] == "http"@[k]);
                }
                assert(crate::text::stands_at(rest, "http"@, j - 3));
            }
        }
    }
}

/// The first wait of a new loop is one second.
pub proof fn law_first_wait(a: PresenceLoop, b: &mut PresenceLoop, r: LoopStep)
    requires
        call_ensures(PresenceLoop::new, (), a),
        *old(b) == a,
        call_ensures(PresenceLoop::step, (b, LoopEvent::ConnectFailed), r),
    ensures
        r == LoopStep::Wait(1),
        final(b).backoff == 2,
{
}

} // verus!
