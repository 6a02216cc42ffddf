//! Data of the wire contract: signaling of a channel, REST entities and presence.
use vstd::prelude::*;

verus! {

/// Presence of a user in a channel.
#[derive(Debug, Clone, Copy, PartialEq, Eq, Structural)]
pub enum PresenceStatus {
    Online,
    Idle,
    Offline,
}

/// A participant of a channel.
#[derive(Debug)]
pub struct PeerInfo {
    pub peer_id: String,
    pub user_id: String,
}

impl Clone for PeerInfo {
    fn clone(&self) -> (r: Self)
        ensures
            r == *self,
    {
        PeerInfo {
            peer_id: self.peer_id.clone(),
            user_id: self.user_id.clone(),
        }
    }
}

/// What a client sends to the channel relay.
#[derive(Debug)]
pub enum ClientMessage {
    Join { channel_id: String, user_id: String },
    Offer { to: String, sdp: String },
    Answer { to: String, sdp: String },
    IceCandidate { to: String, candidate: serde_json::Value },
    Presence { status: PresenceStatus },
    Ping,
}

/// What the channel relay sends to clients.
#[derive(Debug)]
pub enum ServerMessage {
    Joined { peer_id: String, peers: Vec<PeerInfo> },
    PeerJoined { peer: PeerInfo },
    PeerLeft { peer_id: String },
    Offer { from: String, sdp: String },
    Answer { from: String, sdp: String },
    IceCandidate { from: String, candidate: serde_json::Value },
    Presence { user_id: String, status: PresenceStatus },
    Pong,
    Error { code: String, message: String },
}

/// A user.
#[derive(Debug)]
pub struct User {
    pub id: String,
    pub username: String,
    pub last_seen: String,
    pub created_at: String,
}

impl Clone for User {
    fn clone(&self) -> (r: Self)
        ensures
            r == *self,
    {
        User {
            id: self.id.clone(),
            username: self.username.clone(),
            last_seen: self.last_seen.clone(),
            created_at: self.created_at.clone(),
        }
    }
}

/// A server.
#[derive(Debug)]
pub struct Server {
    pub id: String,
    pub name: String,
    pub owner_id: String,
    pub invite_code: String,
    pub created_at: String,
    /// Key of the stored image.
    pub icon: Option<String>,
}

impl Clone for Server {
    fn clone(&self) -> (r: Self)
        ensures
            r == *self,
    {
        Server {
            id: self.id.clone(),
            name: self.name.clone(),
            owner_id: self.owner_id.clone(),
            invite_code: self.invite_code.clone(),
            created_at: self.created_at.clone(),
            icon: self.icon.clone(),
        }
    }
}

/// Kinds of channel.
#[derive(Debug, Clone, Copy, PartialEq, Eq, Structural)]
pub enum ChannelKind {
    Text,
    Voice,
    Dm,
}

impl ChannelKind {
    /// The name of the kind.
    pub open spec fn name(self) -> Seq<char> {
        match self {
            ChannelKind::Text => "text"@,
            ChannelKind::Voice => "voice"@,
            ChannelKind::Dm => "dm"@,
        }
    }

    pub fn as_str(self) -> (r: &'static str)
        ensures
            r@ == self.name(),
    {
        match self {
            ChannelKind::Text => "text",
            ChannelKind::Voice => "voice",
            ChannelKind::Dm => "dm",
        }
    }
}

/// No two kinds of channel share a name.
pub proof fn law_channel_kind_names(a: ChannelKind, b: ChannelKind)
    requires
        a.name() == b.name(),
    ensures
        a == b,
{
    reveal_strlit("text");
    reveal_strlit("voice");
    reveal_strlit("dm");
    assert("text"@.len() == 4);
    assert("voice"@.len() == 5);
    assert("dm"@.len() == 2);
    assert(a.name().len() == b.name().len());
}

/// A channel.
#[derive(Debug)]
pub struct Channel {
    pub id: String,
    /// Empty for direct messages.
    pub server_id: String,
    pub name: String,
    pub kind: ChannelKind,
    pub created_at: String,
    pub topic: Option<String>,
    /// Manual order within the server.
    pub position: Option<u32>,
}

impl Clone for Channel {
    fn clone(&self) -> (r: Self)
        ensures
            r == *self,
    {
        Channel {
            id: self.id.clone(),
            server_id: self.server_id.clone(),
            name: self.name.clone(),
            kind: self.kind,
            created_at: self.created_at.clone(),
            topic: self.topic.clone(),
            position: self.position,
        }
    }
}

/// A server and its channels.
#[derive(Debug)]
pub struct ServerWithChannels {
    pub server: Server,
    pub channels: Vec<Channel>,
}

impl ServerWithChannels {
    /// Whether two hold the same server and the same channels.
    pub open spec fn same(self, o: Self) -> bool {
        self.server == o.server && self.channels@ == o.channels@
    }
}

impl Clone for ServerWithChannels {
    fn clone(&self) -> (r: Self)
        ensures
            r.same(*self),
    {
        let channels: Vec<Channel> = self.channels.clone();
        assert(channels@ =~= self.channels@);
        ServerWithChannels { server: self.server.clone(), channels }
    }
}

/// Who asked for a friendship.
#[derive(Debug, Clone, Copy, PartialEq, Eq, Structural)]
pub enum RequestDirection {
    /// Someone asked this user.
    Incoming,
    /// This user asked.
    Outgoing,
}

/// A pending friendship.
#[derive(Debug)]
pub struct FriendshipRequest {
    pub id: String,
    pub user: User,
    pub direction: RequestDirection,
    pub created_at: String,
}

impl Clone for FriendshipRequest {
    fn clone(&self) -> (r: Self)
        ensures
            r == *self,
    {
        FriendshipRequest {
            id: self.id.clone(),
            user: self.user.clone(),
            direction: self.direction,
            created_at: self.created_at.clone(),
        }
    }
}

/// A friend.
#[derive(Debug)]
pub struct FriendInfo {
    pub user: User,
    /// Servers that both are in.
    pub shared_servers: u32,
}

impl Clone for FriendInfo {
    fn clone(&self) -> (r: Self)
        ensures
            r == *self,
    {
        FriendInfo {
            user: self.user.clone(),
            shared_servers: self.shared_servers,
        }
    }
}

/// A direct conversation.
#[derive(Debug)]
pub struct DmSummary {
    pub channel: Channel,
    /// The other participant.
    pub other_username: String,
}

impl Clone for DmSummary {
    fn clone(&self) -> (r: Self)
        ensures
            r == *self,
    {
        DmSummary {
            channel: self.channel.clone(),
            other_username: self.other_username.clone(),
        }
    }
}

/// A chat message.
#[derive(Debug)]
pub struct TextMessage {
    pub id: String,
    pub channel_id: String,
    pub author_id: String,
    pub author_name: String,
    pub content: String,
    pub created_at: String,
    /// Set when it was edited.
    pub edited_at: Option<String>,
    /// Set when it was deleted; a placeholder stands for it.
    pub deleted_at: Option<String>,
    /// The message that it replies to.
    pub reply_to: Option<String>,
}

impl Clone for TextMessage {
    fn clone(&self) -> (r: Self)
        ensures
            r == *self,
    {
        TextMessage {
            id: self.id.clone(),
            channel_id: self.channel_id.clone(),
            author_id: self.author_id.clone(),
            author_name: self.author_name.clone(),
            content: self.content.clone(),
            created_at: self.created_at.clone(),
            edited_at: self.edited_at.clone(),
            deleted_at: self.deleted_at.clone(),
            reply_to: self.reply_to.clone(),
        }
    }
}

/// A stored block of messages.
#[derive(Debug)]
pub struct MessageBlock {
    pub id: String,
    pub channel_id: String,
    pub count: u32,
    pub first_at: String,
    pub last_at: String,
}

impl Clone for MessageBlock {
    fn clone(&self) -> (r: Self)
        ensures
            r == *self,
    {
        MessageBlock {
            id: self.id.clone(),
            channel_id: self.channel_id.clone(),
            count: self.count,
            first_at: self.first_at.clone(),
            last_at: self.last_at.clone(),
        }
    }
}

/// The result of an edit.
#[derive(Debug)]
pub struct EditMessageResult {
    pub id: String,
    pub content: String,
    pub edited_at: String,
}

impl Clone for EditMessageResult {
    fn clone(&self) -> (r: Self)
        ensures
            r == *self,
    {
        EditMessageResult {
            id: self.id.clone(),
            content: self.content.clone(),
            edited_at: self.edited_at.clone(),
        }
    }
}

/// Roles of a member.
#[derive(Debug, Clone, Copy, PartialEq, Eq, Structural)]
pub enum ServerRole {
    Owner,
    Member,
}

/// The answer to a login or a registration.
#[derive(Debug)]
pub struct AuthResponse {
    pub token: String,
    /// Missing in answers without refresh tokens.
    pub refresh_token: Option<String>,
    pub user: User,
}

impl Clone for AuthResponse {
    fn clone(&self) -> (r: Self)
        ensures
            r == *self,
    {
        AuthResponse {
            token: self.token.clone(),
            refresh_token: self.refresh_token.clone(),
            user: self.user.clone(),
        }
    }
}

/// The answer to a token rotation.
#[derive(Debug)]
pub struct RefreshResponse {
    pub token: String,
    pub refresh_token: String,
}

impl Clone for RefreshResponse {
    fn clone(&self) -> (r: Self)
        ensures
            r == *self,
    {
        RefreshResponse {
            token: self.token.clone(),
            refresh_token: self.refresh_token.clone(),
        }
    }
}

/// A STUN or TURN server as the backend lists it.
#[derive(Debug)]
pub struct IceServerConfig {
    /// One URL or a list of them.
    pub urls: serde_json::Value,
    pub username: Option<String>,
    pub credential: Option<String>,
}

/// The backend's configuration of realtime connections.
#[derive(Debug)]
pub struct RealtimeConfig {
    pub ice_servers: Vec<IceServerConfig>,
}

/// A member of a server.
#[derive(Debug)]
pub struct Member {
    pub id: String,
    pub username: String,
}

impl Clone for Member {
    fn clone(&self) -> (r: Self)
        ensures
            r == *self,
    {
        Member {
            id: self.id.clone(),
            username: self.username.clone(),
        }
    }
}

/// A server with its channels and members.
#[derive(Debug, Clone)]
pub struct ServerDetail {
    pub server: Server,
    pub channels: Vec<Channel>,
    pub members: Vec<Member>,
}

/// The answer to the question who is logged in.
#[derive(Debug)]
pub struct MeResponse {
    pub user: User,
}

impl Clone for MeResponse {
    fn clone(&self) -> (r: Self)
        ensures
            r == *self,
    {
        MeResponse {
            user: self.user.clone(),
        }
    }
}

/// The answer to creating or joining a server.
#[derive(Debug, Clone)]
pub struct CreateServerResponse {
    pub server: Server,
    pub channels: Vec<Channel>,
}

/// The answer to creating a channel.
#[derive(Debug)]
pub struct CreateChannelResponse {
    pub channel: Channel,
}

impl Clone for CreateChannelResponse {
    fn clone(&self) -> (r: Self)
        ensures
            r == *self,
    {
        CreateChannelResponse {
            channel: self.channel.clone(),
        }
    }
}

/// The answer to posting a message.
#[derive(Debug)]
pub struct MessageResponse {
    pub message: TextMessage,
}

impl Clone for MessageResponse {
    fn clone(&self) -> (r: Self)
        ensures
            r == *self,
    {
        MessageResponse {
            message: self.message.clone(),
        }
    }
}

/// Friends and pending friendships.
#[derive(Debug, Clone)]
pub struct FriendsResponse {
    pub friends: Vec<FriendInfo>,
    pub pending: Vec<FriendshipRequest>,
}

/// The answer to asking for a friendship.
#[derive(Debug)]
pub struct RequestResponse {
    pub request: FriendshipRequest,
}

impl Clone for RequestResponse {
    fn clone(&self) -> (r: Self)
        ensures
            r == *self,
    {
        RequestResponse {
            request: self.request.clone(),
        }
    }
}

/// The answer to accepting a friendship.
#[derive(Debug)]
pub struct FriendAcceptedResponse {
    pub friend: User,
}

impl Clone for FriendAcceptedResponse {
    fn clone(&self) -> (r: Self)
        ensures
            r == *self,
    {
        FriendAcceptedResponse {
            friend: self.friend.clone(),
        }
    }
}

/// The answer to opening a direct conversation.
#[derive(Debug)]
pub struct DmCreatedResponse {
    pub channel: DmSummary,
}

impl Clone for DmCreatedResponse {
    fn clone(&self) -> (r: Self)
        ensures
            r == *self,
    {
        DmCreatedResponse {
            channel: self.channel.clone(),
        }
    }
}

/// Presence of a user in the hub.
#[derive(Debug, Clone, Copy, PartialEq, Eq, Structural)]
pub enum PresenceV2Status {
    Online,
    Idle,
    Dnd,
}

/// A user in a list.
#[derive(Debug)]
pub struct PeerLite {
    pub user_id: String,
    pub username: String,
}

impl Clone for PeerLite {
    fn clone(&self) -> (r: Self)
        ensures
            r == *self,
    {
        PeerLite {
            user_id: self.user_id.clone(),
            username: self.username.clone(),
        }
    }
}

/// A friend who is online.
#[derive(Debug)]
pub struct OnlineFriendLite {
    pub user_id: String,
    pub username: String,
    pub status: PresenceV2Status,
}

impl Clone for OnlineFriendLite {
    fn clone(&self) -> (r: Self)
        ensures
            r == *self,
    {
        OnlineFriendLite {
            user_id: self.user_id.clone(),
            username: self.username.clone(),
            status: self.status,
        }
    }
}

/// Who is in a voice channel.
#[derive(Debug, Clone)]
pub struct VoiceChannelPresence {
    pub channel_id: String,
    pub peers: Vec<PeerLite>,
}

/// Who is online in a server.
#[derive(Debug, Clone)]
pub struct ServerPresence {
    pub server_id: String,
    pub online_members: Vec<PeerLite>,
    pub voice_channels: Vec<VoiceChannelPresence>,
}

/// A chat message as it is broadcast.
#[derive(Debug)]
pub struct BufferedMessage {
    pub id: String,
    pub author_id: String,
    pub author_name: String,
    pub content: String,
    pub created_at: String,
    pub edited_at: Option<String>,
    pub deleted_at: Option<String>,
    pub reply_to: Option<String>,
}

impl Clone for BufferedMessage {
    fn clone(&self) -> (r: Self)
        ensures
            r == *self,
    {
        BufferedMessage {
            id: self.id.clone(),
            author_id: self.author_id.clone(),
            author_name: self.author_name.clone(),
            content: self.content.clone(),
            created_at: self.created_at.clone(),
            edited_at: self.edited_at.clone(),
            deleted_at: self.deleted_at.clone(),
            reply_to: self.reply_to.clone(),
        }
    }
}

/// Kinds of signal between two friends.
#[derive(Debug, Clone, Copy, PartialEq, Eq, Structural)]
pub enum DmSignalKind {
    Offer,
    Answer,
    Ice,
}

/// What a client sends to the presence hub.
#[derive(Debug)]
#[allow(inconsistent_fields)]
pub enum PresenceClientMessage {
    Ready,
    Status { status: PresenceV2Status },
    VoiceJoin { channel_id: String, server_id: String },
    VoiceLeave,
    Chat {
        channel_id: String,
        server_id: String,
        content: String,
        client_id: String,
        reply_to: Option<String>,
        attachment_url: Option<String>,
    },
    ChatEdit {
        channel_id: String,
        server_id: String,
        message_id: String,
        content: String,
        client_id: String,
    },
    ChatDelete { channel_id: String, server_id: String, message_id: String, client_id: String },
    Typing { channel_id: String, server_id: String },
    Subscribe { channel_id: String },
    Unsubscribe { channel_id: String },
    DmSignal {
        to: String,
        kind: DmSignalKind,
        sdp: Option<String>,
        candidate: Option<serde_json::Value>,
    },
    ReactionToggle { channel_id: String, server_id: String, message_id: String, emoji: String },
    Ping,
}

/// What the presence hub sends to clients.
#[derive(Debug)]
#[allow(inconsistent_fields)]
pub enum PresenceServerMessage {
    Ready { online_friends: Vec<OnlineFriendLite>, servers: Vec<ServerPresence> },
    FriendOnline { user_id: String, username: String },
    FriendOffline { user_id: String },
    FriendStatus { user_id: String, status: PresenceV2Status },
    VoiceUpdate { server_id: String, channel_id: String, peers: Vec<PeerLite> },
    MemberOnline { server_id: String, user_id: String, username: String },
    MemberOffline { server_id: String, user_id: String },
    Typing { channel_id: String, user_id: String },
    SubscribeAck { channel_id: String },
    Chat { channel_id: String, message: BufferedMessage },
    ChatAck { client_id: String, message_id: String, created_at: String },
    ChatEditAck { client_id: String, message_id: String },
    ChatDeleteAck { client_id: String, message_id: String },
    ChatEdited { channel_id: String, message: EditedMessage },
    ChatDeleted { channel_id: String, message_id: String },
    ChatError { client_id: String, code: String },
    Reaction {
        channel_id: String,
        message_id: String,
        emoji: String,
        user_id: String,
        added: bool,
    },
    DmOffer { from: String, sdp: String },
    DmAnswer { from: String, sdp: String },
    DmIce { from: String, candidate: serde_json::Value },
    Pong,
    Error { code: String, message: String },
}

/// An edit as it is broadcast.
#[derive(Debug)]
pub struct EditedMessage {
    pub id: String,
    pub content: String,
    pub edited_at: String,
}

impl Clone for EditedMessage {
    fn clone(&self) -> (r: Self)
        ensures
            r == *self,
    {
        EditedMessage {
            id: self.id.clone(),
            content: self.content.clone(),
            edited_at: self.edited_at.clone(),
        }
    }
}

/// The kinds of channel go by their names.
pub proof fn law_channel_kinds_named(k: ChannelKind, r: &'static str)
    requires
        call_ensures(ChannelKind::as_str, (k,), r),
    ensures
        k is Text <==> r@ == "text"@,
        k is Voice <==> r@ == "voice"@,
        k is Dm <==> r@ == "dm"@,
{
    reveal_strlit("text");
    reveal_strlit("voice");
    reveal_strlit("dm");
    assert("text"@.len() == 4 && "voice"@.len() == 5 && "dm"@.len() == 2);
}

} // verus!
