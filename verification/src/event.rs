//! Everything observable about the app, as typed events.
use vstd::prelude::*;

use crate::protocol::{
    BufferedMessage, Channel, DmSummary, EditedMessage, FriendInfo, FriendshipRequest,
    OnlineFriendLite, PeerLite, PresenceV2Status, Server, ServerPresence, ServerWithChannels,
    TextMessage, User,
};

verus! {

/// What the core tells its listeners.
#[derive(Debug)]
#[allow(inconsistent_fields)]
pub enum CoreEvent {
    Authenticated { user: User },
    LoggedOut,
    ServersLoaded { servers: Vec<ServerWithChannels> },
    MessagesLoaded { channel_id: String, messages: Vec<TextMessage> },
    FriendsLoaded {
        friends: Vec<FriendInfo>,
        pending: Vec<FriendshipRequest>,
        dms: Vec<DmSummary>,
    },
    /// A recoverable error for the user.
    Error { message: String },
    ServerUpdated { server: Server },
    ServerDeleted { server_id: String },
    ServerLeft { server_id: String },
    ChannelUpdated { channel: Channel },
    ChannelDeleted { channel_id: String },
    MessageUpdated { message: TextMessage },
    MessageDeleted { channel_id: String, message_id: String },
    FriendsChanged,
    PresenceReady { online_friends: Vec<OnlineFriendLite>, servers: Vec<ServerPresence> },
    FriendOnline { user_id: String, username: String },
    FriendOffline { user_id: String },
    FriendStatus { user_id: String, status: PresenceV2Status },
    VoiceOccupancyChanged { server_id: String, channel_id: String, peers: Vec<PeerLite> },
    MemberOnline { server_id: String, user_id: String, username: String },
    MemberOffline { server_id: String, user_id: String },
    Typing { channel_id: String, user_id: String },
    /// The hub confirmed a subscription: from now on broadcasts arrive.
    SubscribeAck { channel_id: String },
    RealtimeMessage { channel_id: String, message: BufferedMessage },
    ChatAck { client_id: String, message_id: String, created_at: String },
    ChatEditAck { client_id: String, message_id: String },
    ChatDeleteAck { client_id: String, message_id: String },
    ChatEdited { channel_id: String, message: EditedMessage },
    ChatDeleted { channel_id: String, message_id: String },
    ChatError { client_id: String, code: String },
    /// Signaling between two friends.
    DmOffer { from: String, sdp: String },
    DmAnswer { from: String, sdp: String },
    DmIce { from: String, candidate: serde_json::Value },
    /// A frame of a direct data channel.
    InCallChat { peer_id: String, data: Vec<u8> },
    /// A reaction came or went.
    Reaction {
        channel_id: String,
        message_id: String,
        emoji: String,
        user_id: String,
        added: bool,
    },
    /// A transient notification.
    Toast { message: String, kind: String },
}

} // verus!
