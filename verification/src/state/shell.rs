//! The shell: navigation, loaded data, messages, and what events do to them.
use vstd::prelude::*;

use crate::api::{ApiClient, ApiError, ApiRequest};
use crate::event::CoreEvent;
use crate::presence::PresenceOut;
use crate::protocol::{
    BufferedMessage, Channel, ChannelKind, DmSummary, FriendInfo, FriendshipRequest,
    OnlineFriendLite, PeerLite, PresenceV2Status, ServerPresence, ServerWithChannels, TextMessage,
};
use crate::random::random_u64;
use crate::state::acks::{sweep, PendingSend, Retransmission};
use crate::state::find::{find_channel, find_dm, find_message, find_server, find_text};
use crate::state::online::PresenceState;
use crate::state::{acks, find, online, pane};
use crate::strmap::StrMap;
use crate::text::hex16;
use crate::time::now_iso;

verus! {

/// How many messages a channel shows when it is opened.
pub const MESSAGE_LIMIT: u32 = 50;

/// What the user sees.
pub struct ShellState {
    /// The number of the newest load of the servers.
    pub load_seq: u64,
    pub view: pane::View,
    pub servers: Vec<ServerWithChannels>,
    pub selected_server_id: Option<String>,
    pub selected_channel_id: Option<String>,
    pub messages: Vec<TextMessage>,
    pub loading: bool,
    pub error: Option<String>,
    pub friends: Vec<FriendInfo>,
    pub pending: Vec<FriendshipRequest>,
    pub dm_list: Vec<DmSummary>,
    pub dm_call: bool,
    pub presence: PresenceState,
    /// Messages that wait for their confirmation, by client identifier.
    pub pending_acks: StrMap<PendingSend>,
}

/// What follows the arrival of the servers.
pub enum ServersStep {
    /// A newer load is on its way; this one changes nothing.
    Superseded,
    /// Load the messages of the selected channel, and then publish the servers.
    LoadMessages,
    /// Publish the servers.
    Publish,
    /// Publish the error.
    Failed(CoreEvent),
}

/// An optional text, as it reads.
pub open spec fn opt_view(o: Option<String>) -> Option<Seq<char>> {
    match o {
        Some(s) => Some(s@),
        None => None,
    }
}

/// The channel that a selection stands for: one of the selected server, else a
/// direct conversation.
pub open spec fn chosen(
    servers: Seq<ServerWithChannels>,
    dms: Seq<DmSummary>,
    server_id: Option<Seq<char>>,
    channel_id: Option<Seq<char>>,
) -> Option<Channel> {
    match channel_id {
        None => None,
        Some(c) => match channel_in(servers, server_id, c) {
            Some(ch) => Some(ch),
            None => match find::dm_at(dms, c) {
                Some(i) => Some(dms[i].channel),
                None => None,
            },
        },
    }
}

/// The channel of the selected server with an identifier.
pub open spec fn channel_in(
    servers: Seq<ServerWithChannels>,
    server_id: Option<Seq<char>>,
    channel_id: Seq<char>,
) -> Option<Channel> {
    match server_id {
        None => None,
        Some(s) => match find::server_at(servers, s) {
            None => None,
            Some(i) => match find::channel_at(servers[i].channels@, channel_id) {
                Some(j) => Some(servers[i].channels@[j]),
                None => None,
            },
        },
    }
}

/// The first text channel of a server.
pub open spec fn first_text(s: ServerWithChannels) -> Option<Channel> {
    match find::text_at(s.channels@) {
        Some(j) => Some(s.channels@[j]),
        None => None,
    }
}

/// Whether the selected server is still among `servers`.
pub open spec fn still_there(servers: Seq<ServerWithChannels>, server_id: Option<Seq<char>>) -> bool {
    server_id matches Some(s) && find::server_at(servers, s) is Some
}

/// Whether two lists hold the same servers.
pub open spec fn same_servers(a: Seq<ServerWithChannels>, b: Seq<ServerWithChannels>) -> bool {
    a.len() == b.len() && forall|i: int| 0 <= i < a.len() ==> (#[trigger] a[i]).same(b[i])
}

/// Whether `after` is `before` but for an error, which the event tells.
pub open spec fn failed_with(
    before: ShellState,
    after: ShellState,
    event: CoreEvent,
    message: String,
) -> bool {
    &&& after == (ShellState { error: Some(message), ..before })
    &&& event == (CoreEvent::Error { message })
}

/// A broadcast message as one of a channel.
pub open spec fn as_text_message(channel_id: String, m: BufferedMessage) -> TextMessage {
    TextMessage {
        id: m.id,
        channel_id,
        author_id: m.author_id,
        author_name: m.author_name,
        content: m.content,
        created_at: m.created_at,
        edited_at: m.edited_at,
        deleted_at: m.deleted_at,
        reply_to: m.reply_to,
    }
}

/// Whether sending a message under `client_id` turns `before` into `after` and
/// puts `out` on the presence socket.
pub open spec fn sent_as(
    before: ShellState,
    after: ShellState,
    out: PresenceOut,
    client_id: Seq<char>,
    content: String,
    reply_to: Option<String>,
    attachment_url: Option<String>,
    now: u64,
) -> bool {
    &&& out matches PresenceOut::Chat {
        channel_id: c,
        server_id: s,
        content: t,
        client_id: id,
        reply_to: rt,
        attachment_url: au,
    }
    &&& before.selected_channel_id == Some(c)
    &&& s@ == (match before.selected_server_id {
        Some(s) => s@,
        None => Seq::empty(),
    })
    &&& t == content
    &&& id@ == client_id
    &&& rt == reply_to
    &&& au == attachment_url
    &&& after.pending_acks@ == before.pending_acks@.insert(
        client_id,
        PendingSend { channel_id: c, server_id: s, content, sent_at: now, attempts: 0 },
    )
    &&& after == (ShellState { pending_acks: after.pending_acks, ..before })
}

/// Whether editing a message turns the messages `before` into `after`: the first
/// one with that identifier gets the text and the time.
pub open spec fn edited_as(
    before: Seq<TextMessage>,
    after: Seq<TextMessage>,
    channel_id: Seq<char>,
    id: Seq<char>,
    content: Seq<char>,
    edited_at: Seq<char>,
) -> bool {
    match find::message_at(before, channel_id, id) {
        Some(i) => {
            &&& after.len() == before.len()
            &&& after =~= before.update(i, after[i])
            &&& after[i] == (TextMessage {
                content: after[i].content,
                edited_at: after[i].edited_at,
                ..before[i]
            })
            &&& after[i].content@ == content
            &&& opt_view(after[i].edited_at) == Some(edited_at)
        },
        None => after == before,
    }
}

/// Whether marking a message as deleted at `at` turns `before` into `after`.
pub open spec fn deleted_as(
    before: ShellState,
    after: ShellState,
    channel_id: Seq<char>,
    id: Seq<char>,
    at: Seq<char>,
) -> bool {
    let x = before.messages@;
    let y = after.messages@;
    &&& after == (ShellState { messages: after.messages, ..before })
    &&& match find::message_at(x, channel_id, id) {
        Some(i) => {
            &&& y.len() == x.len()
            &&& y =~= x.update(i, y[i])
            &&& y[i] == (TextMessage { deleted_at: y[i].deleted_at, ..x[i] })
            &&& opt_view(y[i].deleted_at) == Some(at)
        },
        None => after.messages == before.messages,
    }
}

fn copy_servers(s: &Vec<ServerWithChannels>) -> (r: Vec<ServerWithChannels>)
    ensures
        same_servers(r@, s@),
{
    let mut out: Vec<ServerWithChannels> = Vec::new();
    let mut i: usize = 0;
    while i < s.len()
        invariant
            i <= s@.len(),
            out@.len() == i,
            forall|j: int| 0 <= j < i ==> (#[trigger] out@[j]).same(s@[j]),
        decreases s@.len() - i,
    {
        out.push(s[i].clone());
        i = i + 1;
    }
    out
}

fn copy_messages(s: &Vec<TextMessage>) -> (r: Vec<TextMessage>)
    ensures
        r@ == s@,
{
    let r: Vec<TextMessage> = s.clone();
    assert(r@ =~= s@);
    r
}

pub(crate) fn copy_friends(s: &Vec<FriendInfo>) -> (r: Vec<FriendInfo>)
    ensures
        r@ == s@,
{
    let r: Vec<FriendInfo> = s.clone();
    assert(r@ =~= s@);
    r
}

pub(crate) fn copy_pending(s: &Vec<FriendshipRequest>) -> (r: Vec<FriendshipRequest>)
    ensures
        r@ == s@,
{
    let r: Vec<FriendshipRequest> = s.clone();
    assert(r@ =~= s@);
    r
}

pub(crate) fn copy_dms(s: &Vec<DmSummary>) -> (r: Vec<DmSummary>)
    ensures
        r@ == s@,
{
    let r: Vec<DmSummary> = s.clone();
    assert(r@ =~= s@);
    r
}

impl ShellState {
    /// Whether the maps are well formed.
    pub open spec fn wf(&self) -> bool {
        self.presence.wf() && self.pending_acks.wf()
    }

    /// The selected channel, where the loaded data know it.
    pub open spec fn selection(&self) -> Option<Channel> {
        chosen(
            self.servers@,
            self.dm_list@,
            opt_view(self.selected_server_id),
            opt_view(self.selected_channel_id),
        )
    }

    /// Whether nothing is selected, listed or wrong.
    pub open spec fn blank(&self) -> bool {
        &&& self.view == pane::View::Servers
        &&& self.servers@.len() == 0
        &&& self.selected_server_id is None
        &&& self.selected_channel_id is None
        &&& self.messages@.len() == 0
        &&& self.friends@.len() == 0
        &&& self.pending@.len() == 0
        &&& self.dm_list@.len() == 0
        &&& !self.dm_call
        &&& self.error is None
    }

    /// An empty shell.
    pub fn new() -> (r: Self)
        ensures
            r.wf(),
            r.blank(),
            r.load_seq == 0,
            !r.loading,
            r.presence.online_friends@ == Map::<Seq<char>, online::FriendPresence>::empty(),
            r.presence.server_presence@ == Map::<Seq<char>, ServerPresence>::empty(),
            r.pending_acks@ == Map::<Seq<char>, PendingSend>::empty(),
    {
        ShellState {
            load_seq: 0,
            view: pane::View::Servers,
            servers: Vec::new(),
            selected_server_id: None,
            selected_channel_id: None,
            messages: Vec::new(),
            loading: false,
            error: None,
            friends: Vec::new(),
            pending: Vec::new(),
            dm_list: Vec::new(),
            dm_call: false,
            presence: PresenceState::new(),
            pending_acks: StrMap::new(),
        }
    }

    /// The selected channel, where the loaded data know it.
    pub fn selected_channel(&self) -> (r: Option<Channel>)
        ensures
            r == self.selection(),
    {
        let id: &str = match &self.selected_channel_id {
            Some(id) => id.as_str(),
            None => {
                return None;
            },
        };
        if let Some(server_id) = &self.selected_server_id {
            if let Some(i) = find_server(&self.servers, server_id.as_str()) {
                if let Some(j) = find_channel(&self.servers[i].channels, id) {
                    return Some(self.servers[i].channels[j].clone());
                }
            }
        }
        match find_dm(&self.dm_list, id) {
            Some(i) => Some(self.dm_list[i].channel.clone()),
            None => None,
        }
    }

    /// Shows an error; the event is to be published.
    pub fn set_error(&mut self, msg: String) -> (r: CoreEvent)
        ensures
            failed_with(*old(self), *final(self), r, msg),
    {
        self.error = Some(msg.clone());
        CoreEvent::Error { message: msg }
    }

    /// Starts a load of the servers and returns its number, to be handed to
    /// [`ShellState::servers_arrived`].
    pub fn load_servers(&mut self, api: &ApiClient) -> (r: (u64, ApiRequest))
        ensures
            load_started(*old(self), *final(self), r.0),
            r.1.method == crate::api::Method::Get,
            r.1.path@ == "/api/servers"@,
            r.1.body is Empty,
            r.1.refreshable,
    {
        self.load_seq = self.load_seq.wrapping_add(1);
        self.loading = true;
        (self.load_seq, api.list_servers())
    }

    /// Takes in what load `seq` brought. Only the newest load may commit servers: it
    /// keeps the selected server if that is still there, else selects the first
    /// server and its first text channel.
    pub fn servers_arrived(
        &mut self,
        seq: u64,
        result: Result<Vec<ServerWithChannels>, ApiError>,
    ) -> (r: ServersStep)
        ensures
            match result {
                Ok(servers) => if seq != old(self).load_seq {
                    r is Superseded && *final(self) == *old(self)
                } else {
                    &&& *final(self) == (ShellState {
                        servers,
                        selected_server_id: final(self).selected_server_id,
                        selected_channel_id: final(self).selected_channel_id,
                        ..*old(self)
                    })
                    &&& if still_there(servers@, opt_view(old(self).selected_server_id)) {
                        final(self).selected_server_id == old(self).selected_server_id
                            && final(self).selected_channel_id == old(self).selected_channel_id
                    } else if servers@.len() == 0 {
                        final(self).selected_server_id is None && final(self).selected_channel_id
                            is None
                    } else {
                        final(self).selected_server_id == Some(servers@[0].server.id)
                            && final(self).selected_channel_id == (match first_text(servers@[0]) {
                            Some(c) => Some(c.id),
                            None => None,
                        })
                    }
                    &&& r == (if final(self).selection() matches Some(c) && c.kind
                        != ChannelKind::Voice {
                        ServersStep::LoadMessages
                    } else {
                        ServersStep::Publish
                    })
                    &&& still_there(servers@, opt_view(final(self).selected_server_id)) == (
                    servers@.len() > 0)
                },
                Err(e) => r matches ServersStep::Failed(ev) && failed_with(
                    ShellState { loading: false, ..*old(self) },
                    *final(self),
                    ev,
                    e.code,
                ),
            },
    {
        match result {
            Ok(servers) => {
                if seq != self.load_seq {
                    return ServersStep::Superseded;
                }
                let keep: bool = match &self.selected_server_id {
                    Some(id) => find_server(&servers, id.as_str()).is_some(),
                    None => false,
                };
                if !keep {
                    if servers.len() == 0 {
                        self.selected_server_id = None;
                        self.selected_channel_id = None;
                    } else {
                        self.selected_channel_id = match find_text(&servers[0].channels) {
                            Some(j) => Some(servers[0].channels[j].id.clone()),
                            None => None,
                        };
                        self.selected_server_id = Some(servers[0].server.id.clone());
                    }
                }
                proof {
                    if servers@.len() == 0 {
                        assert(!still_there(servers@, opt_view(old(self).selected_server_id)));
                    } else if !keep {
                        let id = servers@[0].server.id@;
                        assert(find::has_server_id(servers@, id)(0));
                    }
                }
                self.servers = servers;
                match self.selected_channel() {
                    Some(c) => {
                        if c.kind != ChannelKind::Voice {
                            ServersStep::LoadMessages
                        } else {
                            ServersStep::Publish
                        }
                    },
                    None => ServersStep::Publish,
                }
            },
            Err(e) => {
                let event: CoreEvent = self.set_error(e.code);
                self.loading = false;
                ServersStep::Failed(event)
            },
        }
    }

    /// Ends a load of the servers; the event is to be published.
    pub fn servers_loaded(&mut self) -> (r: CoreEvent)
        ensures
            r matches CoreEvent::ServersLoaded { servers } && same_servers(
                servers@,
                old(self).servers@,
            ),
            *final(self) == (ShellState { loading: false, ..*old(self) }),
    {
        self.loading = false;
        CoreEvent::ServersLoaded { servers: copy_servers(&self.servers) }
    }

    /// Selects a server and its first text channel. The result says whether the
    /// messages of the channel are to be loaded.
    pub fn select_server(&mut self, server_id: String) -> (r: bool)
        ensures
            *final(self) == (ShellState {
                view: pane::View::Servers,
                selected_server_id: Some(server_id),
                selected_channel_id: match find::server_at(old(self).servers@, server_id@) {
                    Some(i) => match first_text(old(self).servers@[i]) {
                        Some(c) => Some(c.id),
                        None => None,
                    },
                    None => None,
                },
                ..*old(self)
            }),
            r == final(self).selected_channel_id is Some,
    {
        self.view = pane::View::Servers;
        let channel: Option<String> = match find_server(&self.servers, server_id.as_str()) {
            Some(i) => match find_text(&self.servers[i].channels) {
                Some(j) => Some(self.servers[i].channels[j].id.clone()),
                None => None,
            },
            None => None,
        };
        self.selected_server_id = Some(server_id);
        let load: bool = channel.is_some();
        self.selected_channel_id = channel;
        load
    }

    /// Selects a channel. The result says whether its messages are to be loaded,
    /// which is so unless it is known to be a voice channel.
    pub fn select_channel(&mut self, channel_id: String) -> (r: bool)
        ensures
            *final(self) == (ShellState { selected_channel_id: Some(channel_id), ..*old(self) }),
            r == !(final(self).selection() matches Some(c) && c.kind == ChannelKind::Voice),
    {
        self.selected_channel_id = Some(channel_id);
        match self.selected_channel() {
            Some(c) => c.kind != ChannelKind::Voice,
            None => true,
        }
    }

    /// The request for the messages of the selected channel, and that channel, to
    /// be handed to [`ShellState::messages_arrived`].
    pub fn load_messages(&self, api: &ApiClient) -> (r: Option<(String, ApiRequest)>)
        ensures
            match self.selected_channel_id {
                Some(c) => r matches Some(p) && p.0 == c && p.1.method == crate::api::Method::Get
                    && p.1.path@ == "/api/channels/"@ + crate::api::enc(c@) + "/messages?limit="@
                    + crate::text::decimal(50) && p.1.body is Empty && p.1.refreshable,
                None => r is None,
            },
    {
        match &self.selected_channel_id {
            Some(c) => Some((c.clone(), api.list_messages(c.as_str(), MESSAGE_LIMIT))),
            None => None,
        }
    }

    /// Takes in the messages of a channel; the event is to be published.
    pub fn messages_arrived(
        &mut self,
        channel_id: String,
        result: Result<Vec<TextMessage>, ApiError>,
    ) -> (r: CoreEvent)
        ensures
            match result {
                Ok(messages) => *final(self) == (ShellState { messages, ..*old(self) })
                    && (r matches CoreEvent::MessagesLoaded { channel_id: c, messages: m } && c
                    == channel_id && m@ == messages@),
                Err(e) => failed_with(*old(self), *final(self), r, e.code),
            },
    {
        match result {
            Ok(messages) => {
                self.messages = messages;
                CoreEvent::MessagesLoaded { channel_id, messages: copy_messages(&self.messages) }
            },
            Err(e) => self.set_error(e.code),
        }
    }

    /// Sends a message to the selected channel at `now`.
    pub fn send_message(&mut self, content: String, now: u64) -> (r: Result<PresenceOut, String>)
        requires
            old(self).wf(),
        ensures
            final(self).wf(),
            match r {
                Ok(out) => old(self).selected_channel_id is Some && exists|n: u64|
                    sent_as(
                        *old(self),
                        *final(self),
                        out,
                        #[trigger] crate::text::hex_digits(n as nat, 16),
                        content,
                        None,
                        None,
                        now,
                    ),
                Err(e) => old(self).selected_channel_id is None && e@ == "no channel selected"@
                    && *final(self) == *old(self),
            },
    {
        self.send_message_with(content, None, None, now)
    }

    /// Sends a message to the selected channel at `now`, with what it replies to
    /// and an attachment, under a random client identifier.
    pub fn send_message_with(
        &mut self,
        content: String,
        reply_to: Option<String>,
        attachment_url: Option<String>,
        now: u64,
    ) -> (r: Result<PresenceOut, String>)
        requires
            old(self).wf(),
        ensures
            final(self).wf(),
            match r {
                Ok(out) => old(self).selected_channel_id is Some && exists|n: u64|
                    sent_as(
                        *old(self),
                        *final(self),
                        out,
                        #[trigger] crate::text::hex_digits(n as nat, 16),
                        content,
                        reply_to,
                        attachment_url,
                        now,
                    ),
                Err(e) => old(self).selected_channel_id is None && e@ == "no channel selected"@
                    && *final(self) == *old(self),
            },
    {
        let n: u64 = random_u64();
        self.send_message_as(hex16(n), content, reply_to, attachment_url, now)
    }

    /// Sends a message to the selected channel under a given client identifier, and
    /// waits for its confirmation.
    pub fn send_message_as(
        &mut self,
        client_id: String,
        content: String,
        reply_to: Option<String>,
        attachment_url: Option<String>,
        now: u64,
    ) -> (r: Result<PresenceOut, String>)
        requires
            old(self).wf(),
        ensures
            final(self).wf(),
            r is Ok == old(self).selected_channel_id is Some,
            match r {
                Ok(out) => sent_as(
                    *old(self),
                    *final(self),
                    out,
                    client_id@,
                    content,
                    reply_to,
                    attachment_url,
                    now,
                ),
                Err(e) => e@ == "no channel selected"@ && *final(self) == *old(self),
            },
    {
        let channel_id: String = match &self.selected_channel_id {
            Some(c) => c.clone(),
            None => {
                return Err("no channel selected".to_owned());
            },
        };
        let server_id: String = match &self.selected_server_id {
            Some(s) => s.clone(),
            None => String::new(),
        };
        let out: PresenceOut = PresenceOut::Chat {
            channel_id: channel_id.clone(),
            server_id: server_id.clone(),
            content: content.clone(),
            client_id: client_id.clone(),
            reply_to,
            attachment_url,
        };
        self.pending_acks.insert(
            client_id,
            PendingSend { channel_id, server_id, content, sent_at: now, attempts: 0 },
        );
        Ok(out)
    }

    /// The presence socket is closed: nothing waits for a confirmation any more.
    pub fn disconnect_presence(&mut self)
        requires
            old(self).wf(),
        ensures
            final(self).wf(),
            final(self).pending_acks@ == Map::<Seq<char>, PendingSend>::empty(),
            *final(self) == (ShellState { pending_acks: final(self).pending_acks, ..*old(self) }),
    {
        self.pending_acks.clear();
    }

    /// Takes over the snapshot of who is online.
    pub fn apply_presence_ready(
        &mut self,
        online_friends: Vec<OnlineFriendLite>,
        servers: Vec<ServerPresence>,
    )
        requires
            old(self).wf(),
        ensures
            final(self).wf(),
            final(self).presence.online_friends@ == online::friends_by_id(online_friends@),
            final(self).presence.server_presence@ == online::servers_by_id(servers@),
            *final(self) == (ShellState { presence: final(self).presence, ..*old(self) }),
    {
        self.presence.ready(online_friends, servers);
    }

    /// A friend came online.
    pub fn apply_friend_online(&mut self, user_id: &str, username: &str)
        requires
            old(self).wf(),
        ensures
            final(self).wf(),
            *final(self) == (ShellState { presence: final(self).presence, ..*old(self) }),
            final(self).presence.server_presence == old(self).presence.server_presence,
            final(self).presence.online_friends@.contains_key(user_id@),
            final(self).presence.online_friends@[user_id@].username@ == username@,
            final(self).presence.online_friends@[user_id@].status == PresenceV2Status::Online,
            final(self).presence.online_friends@.remove(user_id@)
                == old(self).presence.online_friends@.remove(user_id@),
    {
        self.presence.friend_online(user_id, username);
    }

    /// A friend went offline.
    pub fn apply_friend_offline(&mut self, user_id: &str)
        requires
            old(self).wf(),
        ensures
            final(self).wf(),
            *final(self) == (ShellState { presence: final(self).presence, ..*old(self) }),
            final(self).presence.server_presence == old(self).presence.server_presence,
            final(self).presence.online_friends@ == old(self).presence.online_friends@.remove(
                user_id@,
            ),
    {
        self.presence.friend_offline(user_id);
    }

    /// A friend changed status; one who is not online is passed over.
    pub fn apply_friend_status(&mut self, user_id: &str, status: PresenceV2Status)
        requires
            old(self).wf(),
        ensures
            final(self).wf(),
            *final(self) == (ShellState { presence: final(self).presence, ..*old(self) }),
            final(self).presence.server_presence == old(self).presence.server_presence,
            ({
                let before = old(self).presence.online_friends@;
                final(self).presence.online_friends@ == (if before.contains_key(user_id@) {
                    before.insert(
                        user_id@,
                        online::FriendPresence { status, ..before[user_id@] },
                    )
                } else {
                    before
                })
            }),
    {
        self.presence.friend_status(user_id, status);
    }

    /// A member of a server came online; an unknown server is passed over.
    pub fn apply_member_online(&mut self, server_id: &str, user_id: &str, username: &str)
        requires
            old(self).wf(),
        ensures
            final(self).wf(),
            *final(self) == (ShellState { presence: final(self).presence, ..*old(self) }),
            final(self).presence.online_friends == old(self).presence.online_friends,
            online::only_at(
                old(self).presence.server_presence@,
                final(self).presence.server_presence@,
                server_id@,
            ),
            old(self).presence.server_presence@.contains_key(server_id@) ==> online::member_came(
                old(self).presence.server_presence@[server_id@],
                final(self).presence.server_presence@[server_id@],
                user_id@,
                username@,
            ),
    {
        self.presence.member_online(server_id, user_id, username);
    }

    /// A member of a server went offline.
    pub fn apply_member_offline(&mut self, server_id: &str, user_id: &str)
        requires
            old(self).wf(),
        ensures
            final(self).wf(),
            *final(self) == (ShellState { presence: final(self).presence, ..*old(self) }),
            final(self).presence.online_friends == old(self).presence.online_friends,
            online::only_at(
                old(self).presence.server_presence@,
                final(self).presence.server_presence@,
                server_id@,
            ),
            old(self).presence.server_presence@.contains_key(server_id@) ==> {
                let before = old(self).presence.server_presence@[server_id@];
                let after = final(self).presence.server_presence@[server_id@];
                &&& after.server_id == before.server_id
                &&& after.voice_channels == before.voice_channels
                &&& after.online_members@ == online::without(before.online_members@, user_id@)
            },
    {
        self.presence.member_offline(server_id, user_id);
    }

    /// The people in a voice channel changed; an unknown channel is passed over.
    pub fn apply_voice_occupancy(&mut self, server_id: &str, channel_id: &str, peers: Vec<PeerLite>)
        requires
            old(self).wf(),
        ensures
            final(self).wf(),
            *final(self) == (ShellState { presence: final(self).presence, ..*old(self) }),
            final(self).presence.online_friends == old(self).presence.online_friends,
            online::only_at(
                old(self).presence.server_presence@,
                final(self).presence.server_presence@,
                server_id@,
            ),
            old(self).presence.server_presence@.contains_key(server_id@) ==> online::channel_filled(
                old(self).presence.server_presence@[server_id@],
                final(self).presence.server_presence@[server_id@],
                channel_id@,
                peers,
            ),
    {
        self.presence.voice_occupancy(server_id, channel_id, peers);
    }

    /// A message was edited: the copy here follows, where there is one.
    pub fn apply_chat_edited(&mut self, channel_id: &str, id: &str, content: &str, edited_at: &str)
        ensures
            *final(self) == (ShellState { messages: final(self).messages, ..*old(self) }),
            edited_as(
                old(self).messages@,
                final(self).messages@,
                channel_id@,
                id@,
                content@,
                edited_at@,
            ),
    {
        if let Some(i) = find_message(&self.messages, channel_id, id) {
            self.messages[i].content = content.to_owned();
            self.messages[i].edited_at = Some(edited_at.to_owned());
        }
    }

    /// A message was deleted: the copy here gets the time of the system clock, where
    /// there is one.
    pub fn apply_chat_deleted(&mut self, channel_id: &str, id: &str)
        ensures
            exists|t: std::time::SystemTime|
                deleted_as(
                    *old(self),
                    *final(self),
                    channel_id@,
                    id@,
                    crate::time::iso_text(#[trigger] crate::time::instant_millis(t) as int),
                ),
    {
        self.mark_deleted(channel_id, id, now_iso());
    }

    /// Marks the copy of a message as deleted at a time, where there is one.
    pub fn mark_deleted(&mut self, channel_id: &str, id: &str, at: String)
        ensures
            deleted_as(*old(self), *final(self), channel_id@, id@, at@),
    {
        if let Some(i) = find_message(&self.messages, channel_id, id) {
            self.messages[i].deleted_at = Some(at);
        }
    }

    /// A chat message was broadcast: it comes last if its channel is open. The event
    /// is to be published.
    pub fn on_realtime_message(&mut self, channel_id: &str, message: BufferedMessage) -> (r: Option<
        CoreEvent,
    >)
        ensures
            if opt_view(old(self).selected_channel_id) == Some(channel_id@) {
                &&& final(self).messages@.len() == old(self).messages@.len() + 1
                &&& final(self).messages@.drop_last() == old(self).messages@
                &&& final(self).messages@.last().channel_id@ == channel_id@
                &&& final(self).messages@.last() == as_text_message(
                    final(self).messages@.last().channel_id,
                    message,
                )
                &&& *final(self) == (ShellState { messages: final(self).messages, ..*old(self) })
                &&& r matches Some(CoreEvent::MessagesLoaded { channel_id: c, messages: m })
                &&& c@ == channel_id@
                &&& m@ == final(self).messages@
            } else {
                r is None && *final(self) == *old(self)
            },
    {
        let open: bool = match &self.selected_channel_id {
            Some(c) => *c.as_str() == *channel_id,
            None => false,
        };
        if !open {
            return None;
        }
        self.messages.push(
            TextMessage {
                id: message.id,
                channel_id: channel_id.to_owned(),
                author_id: message.author_id,
                author_name: message.author_name,
                content: message.content,
                created_at: message.created_at,
                edited_at: message.edited_at,
                deleted_at: message.deleted_at,
                reply_to: message.reply_to,
            },
        );
        assert(self.messages@.drop_last() =~= old(self).messages@);
        Some(
            CoreEvent::MessagesLoaded {
                channel_id: channel_id.to_owned(),
                messages: copy_messages(&self.messages),
            },
        )
    }

    /// A message was confirmed: it waits no more.
    pub fn on_chat_ack(&mut self, client_id: &str)
        requires
            old(self).wf(),
        ensures
            final(self).wf(),
            final(self).pending_acks@ == old(self).pending_acks@.remove(client_id@),
            *final(self) == (ShellState { pending_acks: final(self).pending_acks, ..*old(self) }),
    {
        let _ = self.pending_acks.remove(client_id);
    }

    /// Goes through the messages that wait for their confirmation: late ones are to
    /// be sent again, or given up, which shows an error.
    pub fn retransmit(&mut self, now: u64) -> (r: Vec<Retransmission>)
        requires
            old(self).wf(),
        ensures
            final(self).wf(),
            r@ == acks::retransmissions(old(self).pending_acks.entries@, now),
            final(self).pending_acks.entries@ == acks::kept(old(self).pending_acks.entries@, now),
            forall|k: Seq<char>| #[trigger]
                final(self).pending_acks@.contains_key(k) == (old(self).pending_acks@.contains_key(k)
                    && acks::next_pending(old(self).pending_acks@[k], now) is Some),
            forall|k: Seq<char>| #[trigger]
                final(self).pending_acks@.contains_key(k) ==> Some(final(self).pending_acks@[k])
                    == acks::next_pending(old(self).pending_acks@[k], now),
            if acks::any_given_up(old(self).pending_acks.entries@, now) {
                opt_view(final(self).error) == Some("no se pudo enviar el mensaje"@)
            } else {
                final(self).error == old(self).error
            },
            *final(self) == (ShellState {
                pending_acks: final(self).pending_acks,
                error: final(self).error,
                ..*old(self)
            }),
    {
        let (keep, todo, given_up) = sweep(&self.pending_acks.entries, now);
        proof {
            let e = self.pending_acks.entries@;
            acks::lemma_kept_distinct(e, now);
            assert forall|k: Seq<char>| #[trigger]
                crate::strmap::lookup(acks::kept(e, now), k) == match crate::strmap::lookup(e, k) {
                    Some(p) => acks::next_pending(p, now),
                    None => None,
                } by {
                acks::lemma_kept_lookup(e, now, k);
            }
        }
        self.pending_acks = StrMap { entries: keep };
        if given_up {
            self.error = Some("no se pudo enviar el mensaje".to_owned());
        }
        todo
    }

    /// Empties the shell, as after logging out.
    pub fn reset(&mut self)
        ensures
            final(self).blank(),
            *final(self) == (ShellState {
                load_seq: old(self).load_seq,
                loading: old(self).loading,
                presence: old(self).presence,
                pending_acks: old(self).pending_acks,
                ..*final(self)
            }),
    {
        self.view = pane::View::Servers;
        self.servers = Vec::new();
        self.selected_server_id = None;
        self.selected_channel_id = None;
        self.messages = Vec::new();
        self.friends = Vec::new();
        self.pending = Vec::new();
        self.dm_list = Vec::new();
        self.dm_call = false;
        self.error = None;
    }
}

/// Whether starting a load turns `before` into `after` and numbers it `seq`.
pub open spec fn load_started(before: ShellState, after: ShellState, seq: u64) -> bool {
    &&& seq == before.load_seq.wrapping_add(1)
    &&& after == (ShellState { load_seq: seq, loading: true, ..before })
}

/// Once a second load has started, the first one is not the newest any more, so
/// that its servers are passed over.
pub proof fn law_newest_load_wins(
    a: ShellState,
    b: ShellState,
    c: ShellState,
    first: u64,
    second: u64,
)
    requires
        load_started(a, b, first),
        load_started(b, c, second),
    ensures
        first != c.load_seq,
        second == c.load_seq,
{
}

/// The events that tell of a message that was given up.
pub fn give_up_events(client_id: String) -> (r: (CoreEvent, CoreEvent))
    ensures
        r.0 matches CoreEvent::ChatError { client_id: c, code } && c == client_id && code@
            == "send_timeout"@,
        r.1 matches CoreEvent::Error { message } && message@ == "no se pudo enviar el mensaje"@,
{
    (
        CoreEvent::ChatError { client_id, code: "send_timeout".to_owned() },
        CoreEvent::Error { message: "no se pudo enviar el mensaje".to_owned() },
    )
}

/// A message that is sent again goes where it went the first time: the channel, the
/// server, the text and the identifier of the repeated frame are those of the frame
/// that sending it put on the socket.
pub proof fn law_resent_as_sent(
    s: &mut ShellState,
    client_id: String,
    content: String,
    reply_to: Option<String>,
    attachment_url: Option<String>,
    now: u64,
    sent: Result<PresenceOut, String>,
    t: &mut ShellState,
    later: u64,
    again: Vec<Retransmission>,
)
    requires
        old(s).wf(),
        old(s).selected_channel_id is Some,
        call_ensures(
            ShellState::send_message_as,
            (s, client_id, content, reply_to, attachment_url, now),
            sent,
        ),
        *old(t) == *final(s),
        later - now >= 3000,
        call_ensures(ShellState::retransmit, (t, later), again),
    ensures
        sent matches Ok(PresenceOut::Chat { channel_id, server_id, content: text, client_id: id, .. })
            && id@ == client_id@ && text == content && exists|k: int|
            {
                &&& 0 <= k < again@.len()
                &&& #[trigger] again@[k] matches Retransmission::Send(
                    PresenceOut::Chat {
                        channel_id: c,
                        server_id: v,
                        content: x,
                        client_id: i,
                        reply_to: None,
                        attachment_url: None,
                    },
                )
                &&& c == channel_id
                &&& v == server_id
                &&& x == text
                &&& i@ == id@
            },
{
    let m = old(t).pending_acks;
    let e = m.entries@;
    assert(m@.contains_key(client_id@));
    crate::strmap::lemma_lookup_none(e, client_id@);
    let p = m@[client_id@];
    lemma_entry_of(e, client_id@);
    let i = choose|i: int|
        0 <= i < e.len() && (#[trigger] e[i]).0@ == client_id@ && Some(e[i].1)
            == crate::strmap::lookup(e, client_id@);
    assert(e[i].1 == p);
    acks::lemma_late_is_resent(e, later, i);
}

/// What is found under a key stands under it.
proof fn lemma_entry_of(e: Seq<(String, PendingSend)>, k: Seq<char>)
    requires
        crate::strmap::lookup(e, k) is Some,
    ensures
        exists|i: int|
            0 <= i < e.len() && (#[trigger] e[i]).0@ == k && Some(e[i].1) == crate::strmap::lookup(
                e,
                k,
            ),
    decreases e.len(),
{
    if e.len() > 0 {
        let d = e.drop_last();
        assert(e =~= d.push(e.last()));
        crate::strmap::lemma_lookup_push(d, e.last(), k);
        if crate::strmap::lookup(d, k) is Some {
            lemma_entry_of(d, k);
            let i = choose|i: int|
                0 <= i < d.len() && (#[trigger] d[i]).0@ == k && Some(d[i].1)
                    == crate::strmap::lookup(d, k);
            assert(e[i] == d[i]);
        } else {
            assert(e[e.len() - 1].0@ == k);
        }
    }
}

/// A message that arrives for the open channel is shown last, field by field as it
/// came: its author, text, times and what it replies to; those before it stay. One
/// for another channel changes nothing.
pub proof fn law_message_shown_as_it_came(
    s: &mut ShellState,
    channel_id: &str,
    message: BufferedMessage,
    r: Option<CoreEvent>,
)
    requires
        call_ensures(ShellState::on_realtime_message, (s, channel_id, message), r),
    ensures
        (old(s).selected_channel_id matches Some(c) && c@ == channel_id@) ==> {
            let shown = final(s).messages@.last();
            &&& final(s).messages@.len() == old(s).messages@.len() + 1
            &&& forall|i: int|
                0 <= i < old(s).messages@.len()
                    ==> #[trigger] final(s).messages@[i] == old(s).messages@[i]
            &&& shown.id == message.id
            &&& shown.channel_id@ == channel_id@
            &&& shown.author_id == message.author_id
            &&& shown.author_name == message.author_name
            &&& shown.content == message.content
            &&& shown.created_at == message.created_at
            &&& shown.edited_at == message.edited_at
            &&& shown.deleted_at == message.deleted_at
            &&& shown.reply_to == message.reply_to
            &&& r matches Some(CoreEvent::MessagesLoaded { channel_id: c, messages })
            &&& c@ == channel_id@
            &&& messages@ == final(s).messages@
        },
        !(old(s).selected_channel_id matches Some(c) && c@ == channel_id@) ==> r is None
            && *final(s) == *old(s),
        *final(s) == (ShellState { messages: final(s).messages, ..*old(s) }),
{
    if old(s).selected_channel_id matches Some(c) && c@ == channel_id@ {
        assert forall|i: int| 0 <= i < old(s).messages@.len()
            implies #[trigger] final(s).messages@[i] == old(s).messages@[i] by {
            assert(final(s).messages@.drop_last()[i] == old(s).messages@[i]);
        }
    }
}

/// Whether message `i` is the first one of its channel with an identifier.
pub open spec fn first_with(
    m: Seq<TextMessage>,
    channel_id: Seq<char>,
    id: Seq<char>,
    i: int,
) -> bool {
    &&& m[i].channel_id@ == channel_id
    &&& m[i].id@ == id
    &&& forall|j: int|
        0 <= j < i ==> !((#[trigger] m[j]).channel_id@ == channel_id && m[j].id@ == id)
}

/// An edit reaches the first message of the channel with the identifier, which gets
/// the text and the time and keeps the rest, and no other message.
pub proof fn law_edit_reaches_its_message(
    s: &mut ShellState,
    channel_id: &str,
    id: &str,
    content: &str,
    edited_at: &str,
    i: int,
)
    requires
        call_ensures(ShellState::apply_chat_edited, (s, channel_id, id, content, edited_at), ()),
        0 <= i < old(s).messages@.len(),
    ensures
        *final(s) == (ShellState { messages: final(s).messages, ..*old(s) }),
        final(s).messages@.len() == old(s).messages@.len(),
        ({
            let a = old(s).messages@[i];
            let b = final(s).messages@[i];
            if first_with(old(s).messages@, channel_id@, id@, i) {
                &&& b.content@ == content@
                &&& (b.edited_at matches Some(t) && t@ == edited_at@)
                &&& b.id == a.id && b.channel_id == a.channel_id
                &&& b.author_id == a.author_id && b.author_name == a.author_name
                &&& b.created_at == a.created_at && b.deleted_at == a.deleted_at
                &&& b.reply_to == a.reply_to
            } else {
                b == a
            }
        }),
{
    let m = old(s).messages@;
    lemma_first_with(m, channel_id@, id@, i);
    find::law_first_index(m.len() as int, 0, find::is_message(m, channel_id@, id@));
}

/// A deletion reaches the first message of the channel with the identifier, which
/// gets the time and keeps the rest, and no other message.
pub proof fn law_deletion_reaches_its_message(
    s: &mut ShellState,
    channel_id: &str,
    id: &str,
    at: String,
    i: int,
)
    requires
        call_ensures(ShellState::mark_deleted, (s, channel_id, id, at), ()),
        0 <= i < old(s).messages@.len(),
    ensures
        *final(s) == (ShellState { messages: final(s).messages, ..*old(s) }),
        final(s).messages@.len() == old(s).messages@.len(),
        ({
            let a = old(s).messages@[i];
            let b = final(s).messages@[i];
            if first_with(old(s).messages@, channel_id@, id@, i) {
                &&& (b.deleted_at matches Some(t) && t@ == at@)
                &&& b.id == a.id && b.channel_id == a.channel_id
                &&& b.author_id == a.author_id && b.author_name == a.author_name
                &&& b.content == a.content && b.edited_at == a.edited_at
                &&& b.created_at == a.created_at && b.reply_to == a.reply_to
            } else {
                b == a
            }
        }),
{
    let m = old(s).messages@;
    lemma_first_with(m, channel_id@, id@, i);
    find::law_first_index(m.len() as int, 0, find::is_message(m, channel_id@, id@));
}

proof fn lemma_first_with(m: Seq<TextMessage>, channel_id: Seq<char>, id: Seq<char>, i: int)
    requires
        0 <= i < m.len(),
    ensures
        first_with(m, channel_id, id, i) <==> find::message_at(m, channel_id, id) == Some(i),
{
    let p = find::is_message(m, channel_id, id);
    find::law_first_index(m.len() as int, 0, p);
    assert forall|j: int| 0 <= j < m.len() implies #[trigger] p(j) == (m[j].channel_id@
        == channel_id && m[j].id@ == id) by {}
    if first_with(m, channel_id, id, i) {
        assert(p(i));
        if let Some(k) = find::message_at(m, channel_id, id) {
            if k < i {
                assert(p(k));
                assert(!(m[k].channel_id@ == channel_id && m[k].id@ == id));
            }
        }
    }
    if find::message_at(m, channel_id, id) == Some(i) {
        assert forall|j: int| 0 <= j < i implies !((#[trigger] m[j]).channel_id@ == channel_id
            && m[j].id@ == id) by {
            assert(!p(j));
        }
    }
}

/// A sent message waits for its confirmation and for nothing else: once it is
/// confirmed, no sweep names it, and the other messages wait as before.
pub proof fn law_confirmed_message_rests(
    s: &mut ShellState,
    client_id: &str,
    t: &mut ShellState,
    now: u64,
    again: Vec<Retransmission>,
    other: Seq<char>,
)
    requires
        old(s).wf(),
        call_ensures(ShellState::on_chat_ack, (s, client_id), ()),
        *old(t) == *final(s),
        call_ensures(ShellState::retransmit, (t, now), again),
    ensures
        forall|k: int| 0 <= k < again@.len() ==> acks::names(#[trigger] again@[k]) != client_id@,
        !final(s).pending_acks@.contains_key(client_id@),
        *final(s) == (ShellState { pending_acks: final(s).pending_acks, ..*old(s) }),
        other != client_id@ ==> final(s).pending_acks@.contains_key(other)
            == old(s).pending_acks@.contains_key(other),
        other != client_id@ && old(s).pending_acks@.contains_key(other)
            ==> final(s).pending_acks@[other] == old(s).pending_acks@[other],
{
    let e = old(t).pending_acks.entries@;
    assert(!old(t).pending_acks@.contains_key(client_id@));
    acks::law_confirmed_is_left_alone(e, now, client_id@);
}

/// A sweep leaves a waiting message with its channel, server and text, counts every
/// time that it is sent again, and drops it only when it is late for the fourth time.
pub proof fn law_waiting_message_swept(
    t: &mut ShellState,
    now: u64,
    again: Vec<Retransmission>,
    k: Seq<char>,
)
    requires
        old(t).wf(),
        old(t).pending_acks@.contains_key(k),
        call_ensures(ShellState::retransmit, (t, now), again),
    ensures
        ({
            let p = old(t).pending_acks@[k];
            let q = final(t).pending_acks@[k];
            if now - p.sent_at < 3000 {
                final(t).pending_acks@.contains_key(k) && q == p
            } else if p.attempts < 3 {
                &&& final(t).pending_acks@.contains_key(k)
                &&& q.channel_id == p.channel_id
                &&& q.server_id == p.server_id
                &&& q.content == p.content
                &&& q.sent_at == now
                &&& q.attempts == p.attempts + 1
            } else {
                &&& !final(t).pending_acks@.contains_key(k)
                &&& (final(t).error matches Some(e) && e@ == "no se pudo enviar el mensaje"@)
            }
        }),
{
    let e = old(t).pending_acks.entries@;
    let p = old(t).pending_acks@[k];
    lemma_entry_of(e, k);
    let i = choose|i: int|
        0 <= i < e.len() && (#[trigger] e[i]).0@ == k
            && Some(e[i].1) == crate::strmap::lookup(e, k);
    assert(e[i].1 == p);
    assert(acks::next_pending(e[i].1, now) is None ==> acks::any_given_up(e, now));
    assert(final(t).pending_acks@.contains_key(k) == (acks::next_pending(p, now) is Some));
}

/// A message goes to the selected channel and server, with the text and identifier
/// given, and waits from now on with no attempt counted; other messages wait as
/// before. Without a selected channel nothing is sent.
pub proof fn law_message_goes_to_selection(
    s: &mut ShellState,
    client_id: String,
    content: String,
    reply_to: Option<String>,
    attachment_url: Option<String>,
    now: u64,
    r: Result<PresenceOut, String>,
    other: Seq<char>,
)
    requires
        old(s).wf(),
        call_ensures(
            ShellState::send_message_as,
            (s, client_id, content, reply_to, attachment_url, now),
            r,
        ),
    ensures
        old(s).selected_channel_id is None ==> (r matches Err(e) && e@ == "no channel selected"@)
            && *final(s) == *old(s),
        old(s).selected_channel_id matches Some(channel) ==> {
            &&& r matches Ok(PresenceOut::Chat {
                channel_id,
                server_id,
                content: text,
                client_id: id,
                reply_to: rt,
                attachment_url: au,
            })
            &&& channel_id@ == channel@
            &&& (old(s).selected_server_id matches Some(server) ==> server_id@ == server@)
            &&& (old(s).selected_server_id is None ==> server_id@.len() == 0)
            &&& text == content
            &&& id@ == client_id@
            &&& rt == reply_to
            &&& au == attachment_url
            &&& final(s).pending_acks@.contains_key(client_id@)
            &&& final(s).pending_acks@[client_id@].channel_id == channel_id
            &&& final(s).pending_acks@[client_id@].server_id == server_id
            &&& final(s).pending_acks@[client_id@].content == content
            &&& final(s).pending_acks@[client_id@].sent_at == now
            &&& final(s).pending_acks@[client_id@].attempts == 0
            &&& other != client_id@ && old(s).pending_acks@.contains_key(other)
                ==> final(s).pending_acks@.contains_key(other)
                && final(s).pending_acks@[other] == old(s).pending_acks@[other]
            &&& *final(s) == (ShellState { pending_acks: final(s).pending_acks, ..*old(s) })
        },
{
}

/// Selecting a server opens the first text channel of the first server with the
/// identifier, and no channel where there is none.
pub proof fn law_server_opens_first_text(
    s: &mut ShellState,
    server_id: String,
    load: bool,
    i: int,
    j: int,
)
    requires
        call_ensures(ShellState::select_server, (s, server_id), load),
        0 <= i < old(s).servers@.len(),
        old(s).servers@[i].server.id@ == server_id@,
        forall|k: int| 0 <= k < i ==> (#[trigger] old(s).servers@[k]).server.id@ != server_id@,
        0 <= j < old(s).servers@[i].channels@.len(),
    ensures
        final(s).selected_server_id == Some(server_id),
        final(s).view is Servers,
        load <==> final(s).selected_channel_id is Some,
        old(s).servers@[i].channels@[j].kind == ChannelKind::Text && (forall|k: int|
            0 <= k < j ==> (#[trigger] old(s).servers@[i].channels@[k]).kind != ChannelKind::Text)
            ==> final(s).selected_channel_id == Some(old(s).servers@[i].channels@[j].id),
        (forall|k: int|
            0 <= k < old(s).servers@[i].channels@.len()
                ==> (#[trigger] old(s).servers@[i].channels@[k]).kind != ChannelKind::Text)
            ==> final(s).selected_channel_id is None,
        final(s).messages == old(s).messages,
        final(s).servers == old(s).servers,
{
    let v = old(s).servers@;
    let p = find::has_server_id(v, server_id@);
    find::law_first_index(v.len() as int, 0, p);
    assert(p(i));
    assert forall|k: int| 0 <= k < i implies !#[trigger] p(k) by {
        assert(v[k].server.id@ != server_id@);
    }
    assert(find::server_at(v, server_id@) == Some(i));
    let c = v[i].channels@;
    let q = find::is_text(c);
    find::law_first_index(c.len() as int, 0, q);
    assert(q(j) == (c[j].kind == ChannelKind::Text));
    if let Some(k) = find::text_at(c) {
        assert(q(k));
        assert(c[k].kind == ChannelKind::Text);
    }
}

/// A load that a newer one has overtaken changes nothing; the newest one puts its
/// servers in place of the old ones.
pub proof fn law_overtaken_load_is_dropped(
    a: &mut ShellState,
    api: &ApiClient,
    first: (u64, ApiRequest),
    b: &mut ShellState,
    second: (u64, ApiRequest),
    c: &mut ShellState,
    servers: Vec<ServerWithChannels>,
    x: ServersStep,
    d: &mut ShellState,
    newer: Vec<ServerWithChannels>,
    y: ServersStep,
)
    requires
        call_ensures(ShellState::load_servers, (a, api), first),
        *old(b) == *final(a),
        call_ensures(ShellState::load_servers, (b, api), second),
        *old(c) == *final(b),
        call_ensures(ShellState::servers_arrived, (c, first.0, Ok(servers)), x),
        *old(d) == *final(c),
        call_ensures(ShellState::servers_arrived, (d, second.0, Ok(newer)), y),
    ensures
        x is Superseded,
        *final(c) == *old(c),
        !(y is Superseded),
        final(d).servers == newer,
        old(a).loading ==> final(b).loading,
        final(a).loading && final(b).loading,
{
}

/// Servers that arrive leave a selection alone that they still hold; else the first
/// server and its first text channel are selected.
pub proof fn law_selection_after_load(
    s: &mut ShellState,
    servers: Vec<ServerWithChannels>,
    r: ServersStep,
    i: int,
    j: int,
)
    requires
        call_ensures(ShellState::servers_arrived, (s, old(s).load_seq, Ok(servers)), r),
    ensures
        0 <= i < servers@.len() && (old(s).selected_server_id matches Some(id)
            && servers@[i].server.id@ == id@)
                ==> final(s).selected_server_id == old(s).selected_server_id
                && final(s).selected_channel_id == old(s).selected_channel_id,
        (forall|k: int|
            0 <= k < servers@.len() ==> !(old(s).selected_server_id matches Some(id) && (
            #[trigger] servers@[k]).server.id@ == id@)) && servers@.len() > 0
                ==> final(s).selected_server_id == Some(servers@[0].server.id)
                && (0 <= j < servers@[0].channels@.len()
            && servers@[0].channels@[j].kind == ChannelKind::Text && (forall|k: int|
            0 <= k < j ==> (#[trigger] servers@[0].channels@[k]).kind != ChannelKind::Text)
            ==> final(s).selected_channel_id == Some(servers@[0].channels@[j].id)),
        servers@.len() == 0 ==> final(s).selected_server_id is None
            && final(s).selected_channel_id is None,
        final(s).messages == old(s).messages,
{
    let v = servers@;
    if let Some(id) = old(s).selected_server_id {
        let p = find::has_server_id(v, id@);
        find::law_first_index(v.len() as int, 0, p);
        assert(0 <= i < v.len() ==> p(i) == (v[i].server.id@ == id@));
        if let Some(k) = find::server_at(v, id@) {
            assert(p(k));
            assert(v[k].server.id@ == id@);
        }
    }
    if v.len() > 0 {
        let c = v[0].channels@;
        let q = find::is_text(c);
        find::law_first_index(c.len() as int, 0, q);
        assert(0 <= j < c.len() ==> q(j) == (c[j].kind == ChannelKind::Text));
        if let Some(k) = find::text_at(c) {
            assert(q(k));
            assert(c[k].kind == ChannelKind::Text);
        }
    }
}

/// An error is told and shown in the same words, and changes nothing else.
pub proof fn law_error_told_and_shown(s: &mut ShellState, msg: String, r: CoreEvent)
    requires
        call_ensures(ShellState::set_error, (s, msg), r),
    ensures
        r == (CoreEvent::Error { message: msg }),
        final(s).error == Some(msg),
        final(s).servers == old(s).servers,
        final(s).messages == old(s).messages,
        final(s).selected_server_id == old(s).selected_server_id,
        final(s).selected_channel_id == old(s).selected_channel_id,
        final(s).pending_acks == old(s).pending_acks,
        final(s).presence == old(s).presence,
{
}

/// A snapshot replaces what was known: exactly the friends and servers that it names
/// are known, each as its last entry has it.
pub proof fn law_snapshot(
    s: &mut ShellState,
    friends: Vec<OnlineFriendLite>,
    servers: Vec<ServerPresence>,
    k: Seq<char>,
    i: int,
)
    requires
        old(s).wf(),
        call_ensures(ShellState::apply_presence_ready, (s, friends, servers), ()),
    ensures
        ({
            let f = final(s).presence.online_friends@;
            let v = final(s).presence.server_presence@;
            &&& f.contains_key(k) <==> exists|j: int|
                0 <= j < friends@.len() && (#[trigger] friends@[j]).user_id@ == k
            &&& v.contains_key(k) <==> exists|j: int|
                0 <= j < servers@.len() && (#[trigger] servers@[j]).server_id@ == k
            &&& 0 <= i < friends@.len() && friends@[i].user_id@ == k && (forall|j: int|
                i < j < friends@.len() ==> (#[trigger] friends@[j]).user_id@ != k)
                ==> f[k].username == friends@[i].username && f[k].status == friends@[i].status
            &&& 0 <= i < servers@.len() && servers@[i].server_id@ == k && (forall|j: int|
                i < j < servers@.len() ==> (#[trigger] servers@[j]).server_id@ != k) ==> v[k]
                == servers@[i]
        }),
        final(s).messages == old(s).messages,
        final(s).servers == old(s).servers,
{
    let f = friends@;
    let v = servers@;
    if online::friends_by_id(f).contains_key(k) {
        online::lemma_friend_named(f, k);
    }
    if exists|j: int| 0 <= j < f.len() && (#[trigger] f[j]).user_id@ == k {
        let j = choose|j: int| 0 <= j < f.len() && (#[trigger] f[j]).user_id@ == k;
        online::lemma_friend_known(f, j);
    }
    if online::servers_by_id(v).contains_key(k) {
        online::lemma_server_named(v, k);
    }
    if exists|j: int| 0 <= j < v.len() && (#[trigger] v[j]).server_id@ == k {
        let j = choose|j: int| 0 <= j < v.len() && (#[trigger] v[j]).server_id@ == k;
        online::lemma_server_known(v, j);
    }
    if 0 <= i < f.len() && f[i].user_id@ == k && (forall|j: int|
        i < j < f.len() ==> (#[trigger] f[j]).user_id@ != k) {
        online::lemma_friend_last(f, i);
    }
    if 0 <= i < v.len() && v[i].server_id@ == k && (forall|j: int|
        i < j < v.len() ==> (#[trigger] v[j]).server_id@ != k) {
        online::lemma_server_last(v, i);
    }
}

/// A friend who comes online is listed as such by name, and one who goes offline is
/// listed no more; the other friends stay as they are.
pub proof fn law_friend_comes_and_goes(
    s: &mut ShellState,
    t: &mut ShellState,
    user_id: &str,
    username: &str,
    other: Seq<char>,
)
    requires
        old(s).wf(),
        call_ensures(ShellState::apply_friend_online, (s, user_id, username), ()),
        *old(t) == *final(s),
        call_ensures(ShellState::apply_friend_offline, (t, user_id), ()),
    ensures
        final(s).presence.online_friends@.contains_key(user_id@),
        final(s).presence.online_friends@[user_id@].username@ == username@,
        final(s).presence.online_friends@[user_id@].status is Online,
        !final(t).presence.online_friends@.contains_key(user_id@),
        other != user_id@ ==> {
            &&& final(s).presence.online_friends@.contains_key(other)
                == old(s).presence.online_friends@.contains_key(other)
            &&& final(t).presence.online_friends@.contains_key(other)
                == old(s).presence.online_friends@.contains_key(other)
            &&& old(s).presence.online_friends@.contains_key(other)
                ==> final(t).presence.online_friends@[other]
                == old(s).presence.online_friends@[other]
        },
        final(t).presence.server_presence == old(s).presence.server_presence,
        *final(t) == (ShellState { presence: final(t).presence, ..*old(s) }),
{
    let a = old(s).presence.online_friends@;
    let b = final(s).presence.online_friends@;
    assert(b.remove(user_id@).contains_key(other) == a.remove(user_id@).contains_key(other));
    if other != user_id@ && a.contains_key(other) {
        assert(b.remove(user_id@)[other] == a.remove(user_id@)[other]);
    }
}

/// A friend's status is the one that was told last, under the same name; a friend who
/// is not online stays so.
pub proof fn law_friend_status(
    s: &mut ShellState,
    user_id: &str,
    status: PresenceV2Status,
    other: Seq<char>,
)
    requires
        old(s).wf(),
        call_ensures(ShellState::apply_friend_status, (s, user_id, status), ()),
    ensures
        ({
            let a = old(s).presence.online_friends@;
            let b = final(s).presence.online_friends@;
            &&& b.contains_key(other) == a.contains_key(other)
            &&& a.contains_key(user_id@) ==> b[user_id@].status == status && b[user_id@].username
                == a[user_id@].username
            &&& a.contains_key(other) && other != user_id@ ==> b[other] == a[other]
        }),
{
}

/// A member who comes online is listed in the server, behind those who were there, by
/// name; one who was there stays as listed. Voice channels and other servers stay.
pub proof fn law_member_comes(
    s: &mut ShellState,
    server_id: &str,
    user_id: &str,
    username: &str,
    other: Seq<char>,
    i: int,
)
    requires
        old(s).wf(),
        old(s).presence.server_presence@.contains_key(server_id@),
        call_ensures(ShellState::apply_member_online, (s, server_id, user_id, username), ()),
    ensures
        ({
            let a = old(s).presence.server_presence@[server_id@].online_members@;
            let b = final(s).presence.server_presence@[server_id@].online_members@;
            let listed = exists|j: int|
                0 <= j < a.len() && (#[trigger] a[j]).user_id@ == user_id@;
            &&& b.len() == a.len() + if listed {
                0int
            } else {
                1int
            }
            &&& !listed ==> b.last().user_id@ == user_id@ && b.last().username@ == username@
            &&& 0 <= i < a.len() ==> b[i].user_id@ == a[i].user_id@ && b[i].username@
                == a[i].username@
            &&& final(s).presence.server_presence@[server_id@].voice_channels
                == old(s).presence.server_presence@[server_id@].voice_channels
            &&& other != server_id@ && old(s).presence.server_presence@.contains_key(other)
                ==> final(s).presence.server_presence@[other]
                    == old(s).presence.server_presence@[other]
            &&& final(s).presence.online_friends == old(s).presence.online_friends
        }),
{
    let x = old(s).presence.server_presence@[server_id@].online_members@;
    let y = final(s).presence.server_presence@[server_id@].online_members@;
    if !online::among(x, user_id@) {
        let p = online::people(y);
        let q = online::people(x).push((user_id@, username@));
        assert(p == q);
        assert(p.len() == y.len() && q.len() == x.len() + 1);
        assert(p[x.len() as int] == (user_id@, username@));
        assert(0 <= i < x.len() ==> p[i] == q[i] && q[i] == (x[i].user_id@, x[i].username@));
    }
}

/// A member who goes offline is listed no more, and everybody else stays, in order.
pub proof fn law_member_goes(s: &mut ShellState, server_id: &str, user_id: &str, i: int)
    requires
        old(s).wf(),
        old(s).presence.server_presence@.contains_key(server_id@),
        call_ensures(ShellState::apply_member_offline, (s, server_id, user_id), ()),
    ensures
        ({
            let a = old(s).presence.server_presence@[server_id@].online_members@;
            let b = final(s).presence.server_presence@[server_id@].online_members@;
            &&& 0 <= i < b.len() ==> b[i].user_id@ != user_id@ && a.contains(b[i])
            &&& 0 <= i < a.len() && a[i].user_id@ != user_id@ ==> b.contains(a[i])
            &&& (forall|j: int| 0 <= j < a.len() ==> (#[trigger] a[j]).user_id@ != user_id@) ==> b
                == a
        }),
{
    let a = old(s).presence.server_presence@[server_id@].online_members@;
    let b = final(s).presence.server_presence@[server_id@].online_members@;
    assert(b == online::without(a, user_id@));
    online::law_member_gone(a, user_id@);
    if 0 <= i < b.len() {
        assert(b[i].user_id@ != user_id@);
        lemma_stayed(a, user_id@, i);
    }
    if forall|j: int| 0 <= j < a.len() ==> (#[trigger] a[j]).user_id@ != user_id@ {
        lemma_nobody_leaves(a, user_id@);
    }
}

proof fn lemma_stayed(a: Seq<PeerLite>, user_id: Seq<char>, i: int)
    requires
        0 <= i < online::without(a, user_id).len(),
    ensures
        a.contains(online::without(a, user_id)[i]),
    decreases a.len(),
{
    let b = online::without(a, user_id);
    if a.len() == 0 {
        online::lemma_without_splits(a, arbitrary(), user_id);
        assert(a =~= Seq::<PeerLite>::empty());
    } else {
        let d = a.drop_last();
        online::lemma_without_splits(d, a.last(), user_id);
        assert(a =~= d.push(a.last()));
        let e = online::without(d, user_id);
        if i < e.len() {
            lemma_stayed(d, user_id, i);
            let j = choose|j: int| 0 <= j < d.len() && d[j] == e[i];
            assert(a[j] == b[i]);
        } else {
            assert(a[a.len() - 1] == b[i]);
        }
    }
}

proof fn lemma_nobody_leaves(a: Seq<PeerLite>, user_id: Seq<char>)
    requires
        forall|j: int| 0 <= j < a.len() ==> (#[trigger] a[j]).user_id@ != user_id,
    ensures
        online::without(a, user_id) == a,
    decreases a.len(),
{
    if a.len() == 0 {
        online::lemma_without_splits(a, arbitrary(), user_id);
        assert(a =~= Seq::<PeerLite>::empty());
    } else {
        let d = a.drop_last();
        assert forall|j: int| 0 <= j < d.len() implies (#[trigger] d[j]).user_id@ != user_id by {
            assert(d[j] == a[j]);
        }
        lemma_nobody_leaves(d, user_id);
        online::lemma_without_splits(d, a.last(), user_id);
        assert(a =~= d.push(a.last()));
        assert(a[a.len() - 1].user_id@ != user_id);
    }
}

/// The people of a voice channel are those that were told last, of its server's first
/// channel with the identifier; no other channel, member or server changes.
pub proof fn law_voice_channel_filled(
    s: &mut ShellState,
    server_id: &str,
    channel_id: &str,
    peers: Vec<PeerLite>,
    i: int,
)
    requires
        old(s).wf(),
        old(s).presence.server_presence@.contains_key(server_id@),
        call_ensures(ShellState::apply_voice_occupancy, (s, server_id, channel_id, peers), ()),
        0 <= i < old(s).presence.server_presence@[server_id@].voice_channels@.len(),
    ensures
        ({
            let a = old(s).presence.server_presence@[server_id@];
            let b = final(s).presence.server_presence@[server_id@];
            &&& b.voice_channels@.len() == a.voice_channels@.len()
            &&& b.voice_channels@[i].channel_id@ == a.voice_channels@[i].channel_id@
            &&& a.voice_channels@[i].channel_id@ == channel_id@ && (forall|j: int|
                0 <= j < i ==> (#[trigger] a.voice_channels@[j]).channel_id@ != channel_id@)
                ==> b.voice_channels@[i].peers == peers
            &&& a.voice_channels@[i].channel_id@ != channel_id@ ==> b.voice_channels@[i]
                == a.voice_channels@[i]
            &&& b.online_members == a.online_members
        }),
        final(s).presence.online_friends == old(s).presence.online_friends,
{
    let v = old(s).presence.server_presence@[server_id@].voice_channels@;
    let p = online::has_voice_id(v, channel_id@);
    find::law_first_index(v.len() as int, 0, p);
    assert(p(i) == (v[i].channel_id@ == channel_id@));
    if let Some(k) = online::voice_at(v, channel_id@) {
        assert(p(k));
        assert(v[k].channel_id@ == channel_id@);
    }
}

/// The selected channel, where it is known, has the selected identifier and stands in
/// the first server with the selected identifier or else among the conversations; a
/// channel that stands there is known.
pub proof fn law_selected_channel(s: &ShellState, r: Option<Channel>, i: int, j: int)
    requires
        call_ensures(ShellState::selected_channel, (s,), r),
    ensures
        s.selected_channel_id is None ==> r is None,
        r matches Some(c) ==> (s.selected_channel_id matches Some(id) && c.id@ == id@),
        r matches Some(c) ==> ({
            ||| exists|k: int, l: int|
                {
                    &&& 0 <= k < s.servers@.len()
                    &&& 0 <= l < s.servers@[k].channels@.len()
                    &&& Some(s.servers@[k].server.id@) == opt_view(s.selected_server_id)
                    &&& c == #[trigger] s.servers@[k].channels@[l]
                }
            ||| exists|k: int| 0 <= k < s.dm_list@.len() && c == (#[trigger] s.dm_list@[k]).channel
        }),
        0 <= i < s.dm_list@.len() && (s.selected_channel_id matches Some(id)
            && s.dm_list@[i].channel.id@ == id@) ==> r is Some,
        0 <= i < s.servers@.len() && 0 <= j < s.servers@[i].channels@.len() && (s.selected_server_id
            matches Some(id) && s.servers@[i].server.id@ == id@) && (forall|k: int|
            0 <= k < i ==> Some((#[trigger] s.servers@[k]).server.id@) != opt_view(
                s.selected_server_id,
            )) && (s.selected_channel_id matches Some(id) && s.servers@[i].channels@[j].id@ == id@)
            && (forall|k: int|
            0 <= k < j ==> Some((#[trigger] s.servers@[i].channels@[k]).id@) != opt_view(
                s.selected_channel_id,
            )) ==> r == Some(s.servers@[i].channels@[j]),
{
    let v = s.servers@;
    let d = s.dm_list@;
    if let Some(c) = s.selected_channel_id {
        let q = find::has_dm_id(d, c@);
        find::law_first_index(d.len() as int, 0, q);
        assert(0 <= i < d.len() ==> q(i) == (d[i].channel.id@ == c@));
        if let Some(k) = find::dm_at(d, c@) {
            assert(q(k));
            assert(d[k].channel.id@ == c@);
        }
        if let Some(id) = s.selected_server_id {
            let p = find::has_server_id(v, id@);
            find::law_first_index(v.len() as int, 0, p);
            assert(0 <= i < v.len() ==> p(i) == (v[i].server.id@ == id@));
            if let Some(k) = find::server_at(v, id@) {
                assert(p(k));
                assert(v[k].server.id@ == id@);
                let w = v[k].channels@;
                let t = find::has_channel_id(w, c@);
                find::law_first_index(w.len() as int, 0, t);
                if let Some(l) = find::channel_at(w, c@) {
                    assert(t(l));
                    assert(w[l].id@ == c@);
                    assert(v[k].channels@[l] == w[l]);
                }
                if k == i {
                    assert(0 <= j < w.len() ==> t(j) == (w[j].id@ == c@));
                }
            }
        }
    }
}

/// Selecting a channel selects it and nothing else; its messages are to be loaded
/// unless it is known to be a voice channel.
pub proof fn law_channel_selected(
    s: &mut ShellState,
    channel_id: String,
    load: bool,
    known: Option<Channel>,
    api: &ApiClient,
    asked: Option<(String, ApiRequest)>,
    request: ApiRequest,
    id: &str,
)
    requires
        call_ensures(ShellState::select_channel, (s, channel_id), load),
        call_ensures(ShellState::selected_channel, (&*final(s),), known),
        call_ensures(ShellState::load_messages, (&*final(s), api), asked),
        id@ == channel_id@,
        call_ensures(ApiClient::list_messages, (api, id, 50u32), request),
    ensures
        final(s).selected_channel_id == Some(channel_id),
        final(s).selected_server_id == old(s).selected_server_id,
        final(s).servers == old(s).servers,
        final(s).messages == old(s).messages,
        load <==> !(known matches Some(c) && c.kind is Voice),
        asked matches Some(a) && a.0 == channel_id && a.1.path@ == request.path@ && a.1.method
            == request.method && a.1.body is Empty,
{
}

/// The messages that arrived are shown and told as they came, for their channel; an
/// error leaves the messages and is told.
pub proof fn law_messages_shown(
    s: &mut ShellState,
    channel_id: String,
    messages: Vec<TextMessage>,
    x: CoreEvent,
    t: &mut ShellState,
    e: ApiError,
    y: CoreEvent,
)
    requires
        call_ensures(ShellState::messages_arrived, (s, channel_id, Ok(messages)), x),
        call_ensures(ShellState::messages_arrived, (t, channel_id, Err(e)), y),
    ensures
        final(s).messages == messages,
        final(s).selected_channel_id == old(s).selected_channel_id,
        (x matches CoreEvent::MessagesLoaded { channel_id: c, messages: m } && c == channel_id && m@
            == messages@),
        final(t).messages == old(t).messages,
        final(t).error == Some(e.code),
        y == (CoreEvent::Error { message: e.code }),
{
}

/// The end of a load is told with the servers that are shown.
pub proof fn law_servers_told(s: &mut ShellState, r: CoreEvent, i: int)
    requires
        call_ensures(ShellState::servers_loaded, (s,), r),
        0 <= i < old(s).servers@.len(),
    ensures
        !final(s).loading,
        final(s).servers == old(s).servers,
        r matches CoreEvent::ServersLoaded { servers } && servers@.len() == old(s).servers@.len()
            && servers@[i].server == old(s).servers@[i].server
                && servers@[i].channels@ == old(s).servers@[i].channels@,
{
}

/// Logging out leaves nothing of the user to be seen; closing the presence socket
/// leaves nothing waiting.
pub proof fn law_nothing_left(s: &mut ShellState, t: &mut ShellState)
    requires
        call_ensures(ShellState::reset, (s,), ()),
        old(t).wf(),
        call_ensures(ShellState::disconnect_presence, (t,), ()),
    ensures
        final(s).servers@.len() == 0 && final(s).messages@.len() == 0,
        final(s).friends@.len() == 0 && final(s).pending@.len() == 0,
        final(s).dm_list@.len() == 0,
        final(s).selected_server_id is None && final(s).selected_channel_id is None,
        final(s).error is None && !final(s).dm_call,
        final(s).view is Servers,
        final(s).load_seq == old(s).load_seq,
        final(t).pending_acks@.dom() =~= Set::<Seq<char>>::empty(),
        final(t).messages == old(t).messages,
{
}

/// A message is sent to the selected channel under an identifier of sixteen digits,
/// and waits under it, with its text, what it replies to and its attachment.
pub proof fn law_message_sent(
    s: &mut ShellState,
    content: String,
    reply_to: Option<String>,
    attachment_url: Option<String>,
    now: u64,
    r: Result<PresenceOut, String>,
    t: &mut ShellState,
    q: Result<PresenceOut, String>,
)
    requires
        old(s).wf() && old(t).wf(),
        call_ensures(ShellState::send_message_with, (s, content, reply_to, attachment_url, now), r),
        call_ensures(ShellState::send_message, (t, content, now), q),
    ensures
        r is Ok <==> old(s).selected_channel_id is Some,
        q is Ok <==> old(t).selected_channel_id is Some,
        r is Err ==> *final(s) == *old(s),
        r matches Ok(out) ==> {
            &&& out is Chat
            &&& Some(out->Chat_channel_id) == old(s).selected_channel_id
            &&& out->Chat_content == content
            &&& out->reply_to == reply_to
            &&& out->attachment_url == attachment_url
            &&& out->Chat_client_id@.len() == 16
            &&& final(s).pending_acks@.contains_key(out->Chat_client_id@)
            &&& final(s).pending_acks@[out->Chat_client_id@].content == content
            &&& final(s).pending_acks@[out->Chat_client_id@].channel_id == out->Chat_channel_id
            &&& final(s).pending_acks@[out->Chat_client_id@].server_id == out->Chat_server_id
            &&& final(s).pending_acks@[out->Chat_client_id@].sent_at == now
            &&& final(s).pending_acks@[out->Chat_client_id@].attempts == 0
        },
        q matches Ok(out) ==> {
            &&& out is Chat
            &&& Some(out->Chat_channel_id) == old(t).selected_channel_id
            &&& out->Chat_content == content
            &&& out->reply_to is None
            &&& out->attachment_url is None
            &&& final(t).pending_acks@.contains_key(out->Chat_client_id@)
        },
{
    if let Ok(out) = r {
        let n = choose|n: u64|
            sent_as(
                *old(s),
                *final(s),
                out,
                #[trigger] crate::text::hex_digits(n as nat, 16),
                content,
                reply_to,
                attachment_url,
                now,
            );
        crate::text::lemma_hex(n as nat, 16);
    }
}

/// A message that was deleted gets the time of some instant of the clock, and is
/// otherwise marked as with any time.
pub proof fn law_deletion_by_clock(s: &mut ShellState, channel_id: &str, id: &str, i: int)
    requires
        call_ensures(ShellState::apply_chat_deleted, (s, channel_id, id), ()),
        0 <= i < old(s).messages@.len(),
    ensures
        *final(s) == (ShellState { messages: final(s).messages, ..*old(s) }),
        final(s).messages@.len() == old(s).messages@.len(),
        ({
            let a = old(s).messages@[i];
            let b = final(s).messages@[i];
            if first_with(old(s).messages@, channel_id@, id@, i) {
                &&& b.deleted_at is Some
                &&& b.id == a.id && b.channel_id == a.channel_id
                &&& b.author_id == a.author_id && b.author_name == a.author_name
                &&& b.content == a.content && b.edited_at == a.edited_at
            } else {
                b == a
            }
        }),
{
    let m = old(s).messages@;
    lemma_first_with(m, channel_id@, id@, i);
    find::law_first_index(m.len() as int, 0, find::is_message(m, channel_id@, id@));
}

/// A message that is given up is told by its own identifier and as an error, in the
/// words that are shown.
pub proof fn law_give_up_told(client_id: String, r: (CoreEvent, CoreEvent))
    requires
        call_ensures(give_up_events, (client_id,), r),
    ensures
        (r.0 matches CoreEvent::ChatError { client_id: c, code } && c == client_id && code@
            == "send_timeout"@),
        (r.1 matches CoreEvent::Error { message } && message@ == "no se pudo enviar el mensaje"@),
{
}

/// A new shell shows nothing and waits for nothing.
pub proof fn law_new_shell(s: ShellState)
    requires
        call_ensures(ShellState::new, (), s),
    ensures
        s.wf(),
        s.servers@.len() == 0 && s.messages@.len() == 0 && s.dm_list@.len() == 0,
        s.selected_server_id is None && s.selected_channel_id is None,
        s.error is None && !s.loading && s.load_seq == 0,
        s.pending_acks@.dom() =~= Set::<Seq<char>>::empty(),
        s.presence.online_friends@.dom() =~= Set::<Seq<char>>::empty(),
{
}

/// Servers that arrived lead to loading the messages of the selected channel where it
/// is known and not for voice, and are published otherwise; a failed load is told by
/// its code, shown, and leaves the servers.
pub proof fn law_load_goes_on(
    s: &mut ShellState,
    servers: Vec<ServerWithChannels>,
    x: ServersStep,
    known: Option<Channel>,
    t: &mut ShellState,
    seq: u64,
    e: ApiError,
    y: ServersStep,
)
    requires
        call_ensures(ShellState::servers_arrived, (s, old(s).load_seq, Ok(servers)), x),
        call_ensures(ShellState::selected_channel, (&*final(s),), known),
        call_ensures(ShellState::servers_arrived, (t, seq, Err(e)), y),
    ensures
        x is LoadMessages <==> (known matches Some(c) && !(c.kind is Voice)),
        x is Publish <==> !(known matches Some(c) && !(c.kind is Voice)),
        final(s).servers == servers,
        y == ServersStep::Failed(CoreEvent::Error { message: e.code }),
        final(t).error == Some(e.code),
        !final(t).loading,
        final(t).servers == old(t).servers,
        final(t).selected_channel_id == old(t).selected_channel_id,
{
}

} // verus!
