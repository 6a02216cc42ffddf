//! The shell: selection, messages, presence, confirmations and actions.
use lumen::api::{ApiClient, ApiError, Body, Method};
use lumen::event::CoreEvent;
use lumen::presence::PresenceOut;
use lumen::protocol::{
    BufferedMessage, Channel, ChannelKind, DmCreatedResponse, DmSummary, FriendsResponse,
    OnlineFriendLite, PeerLite, PresenceV2Status, Server, ServerPresence, ServerWithChannels,
    TextMessage, VoiceChannelPresence,
};
use lumen::state::acks::Retransmission;
use lumen::state::actions::{action_result, Reload};
use lumen::state::shell::{give_up_events, ServersStep};
use lumen::state::{ShellState, View};

fn api() -> ApiClient {
    ApiClient::new("http://h".to_string())
}

fn channel(id: &str, kind: ChannelKind) -> Channel {
    Channel {
        id: id.into(),
        server_id: "s".into(),
        name: id.into(),
        kind,
        created_at: "c".into(),
        topic: None,
        position: None,
    }
}

fn server(id: &str, channels: Vec<Channel>) -> ServerWithChannels {
    ServerWithChannels {
        server: Server {
            id: id.into(),
            name: id.into(),
            owner_id: "o".into(),
            invite_code: "i".into(),
            created_at: "c".into(),
            icon: None,
        },
        channels,
    }
}

fn servers() -> Vec<ServerWithChannels> {
    vec![
        server("s1", vec![channel("v1", ChannelKind::Voice), channel("t1", ChannelKind::Text)]),
        server("s2", vec![channel("v2", ChannelKind::Voice)]),
    ]
}

fn message(id: &str, channel_id: &str) -> TextMessage {
    TextMessage {
        id: id.into(),
        channel_id: channel_id.into(),
        author_id: "a".into(),
        author_name: "A".into(),
        content: "hola".into(),
        created_at: "c".into(),
        edited_at: None,
        deleted_at: None,
        reply_to: None,
    }
}

fn peer(id: &str) -> PeerLite {
    PeerLite { user_id: id.into(), username: id.into() }
}

fn dm(id: &str) -> DmSummary {
    DmSummary { channel: channel(id, ChannelKind::Dm), other_username: "bob".into() }
}

fn loaded() -> ShellState {
    let mut shell = ShellState::new();
    let (seq, _) = shell.load_servers(&api());
    shell.servers_arrived(seq, Ok(servers()));
    shell.servers_loaded();
    shell
}

#[test]
fn first_text_channel_is_selected() {
    let mut shell = ShellState::new();
    assert_eq!(shell.view, View::Servers);
    let (seq, request) = shell.load_servers(&api());
    assert_eq!((seq, request.path.as_str()), (1, "/api/servers"));
    assert!(shell.loading);
    assert!(matches!(shell.servers_arrived(seq, Ok(servers())), ServersStep::LoadMessages));
    assert_eq!(shell.selected_server_id.as_deref(), Some("s1"));
    assert_eq!(shell.selected_channel_id.as_deref(), Some("t1"));
    assert_eq!(shell.selected_channel().unwrap().id, "t1");
    match shell.servers_loaded() {
        CoreEvent::ServersLoaded { servers } => assert_eq!(servers.len(), 2),
        _ => panic!("wrong event"),
    }
    assert!(!shell.loading);
}

#[test]
fn stale_load_changes_nothing() {
    let mut shell = ShellState::new();
    let (first, _) = shell.load_servers(&api());
    let (second, _) = shell.load_servers(&api());
    assert!(matches!(shell.servers_arrived(first, Ok(servers())), ServersStep::Superseded));
    assert!(shell.servers.is_empty() && shell.loading);
    assert!(matches!(shell.servers_arrived(second, Ok(Vec::new())), ServersStep::Publish));
    assert!(shell.selected_server_id.is_none() && shell.selected_channel_id.is_none());
}

#[test]
fn failed_load_shows_its_code() {
    let mut shell = ShellState::new();
    let (seq, _) = shell.load_servers(&api());
    match shell.servers_arrived(seq, Err(ApiError { status: 500, code: "http_500".into() })) {
        ServersStep::Failed(CoreEvent::Error { message }) => assert_eq!(message, "http_500"),
        _ => panic!("must fail"),
    }
    assert_eq!(shell.error.as_deref(), Some("http_500"));
    assert!(!shell.loading);
}

#[test]
fn selection_survives_a_reload() {
    let mut shell = loaded();
    assert!(!shell.select_server("s2".into()));
    assert!(shell.selected_channel_id.is_none());
    assert!(!shell.select_channel("v2".into()));
    let (seq, _) = shell.load_servers(&api());
    assert!(matches!(shell.servers_arrived(seq, Ok(servers())), ServersStep::Publish));
    assert_eq!(shell.selected_server_id.as_deref(), Some("s2"));
    assert_eq!(shell.selected_channel_id.as_deref(), Some("v2"));
    assert!(shell.select_server("s1".into()));
    assert!(shell.select_channel("unknown".into()));
    assert!(shell.selected_channel().is_none());
}

#[test]
fn direct_conversation_can_be_selected() {
    let mut shell = loaded();
    let friends = FriendsResponse { friends: Vec::new(), pending: Vec::new() };
    match shell.load_friends(Ok((friends, Ok(vec![dm("d1")])))) {
        CoreEvent::FriendsLoaded { dms, .. } => assert_eq!(dms.len(), 1),
        _ => panic!("wrong event"),
    }
    shell.dm_opened(DmCreatedResponse { channel: dm("d1") });
    assert_eq!(shell.view, View::Friends);
    assert_eq!(shell.selected_channel().unwrap().kind, ChannelKind::Dm);
    let friends = FriendsResponse { friends: Vec::new(), pending: Vec::new() };
    shell.refresh_friends(Ok(friends));
    assert_eq!(shell.dm_list.len(), 1);
    let friends = FriendsResponse { friends: Vec::new(), pending: Vec::new() };
    shell.load_friends(Ok((friends, Err(ApiError { status: 500, code: "x".into() }))));
    assert!(shell.dm_list.is_empty());
    shell.load_friends(Err(ApiError { status: 500, code: "x".into() }));
    assert_eq!(shell.error.as_deref(), Some("x"));
}

#[test]
fn messages_are_loaded_and_appended() {
    let mut shell = loaded();
    let (id, request) = shell.load_messages(&api()).unwrap();
    assert_eq!((id.as_str(), request.path.as_str()), ("t1", "/api/channels/t1/messages?limit=50"));
    shell.messages_arrived(id, Ok(vec![message("m1", "t1")]));
    let live = BufferedMessage {
        id: "m2".into(),
        author_id: "b".into(),
        author_name: "B".into(),
        content: "hey".into(),
        created_at: "c".into(),
        edited_at: None,
        deleted_at: None,
        reply_to: Some("m1".into()),
    };
    match shell.on_realtime_message("t1", live.clone()) {
        Some(CoreEvent::MessagesLoaded { channel_id, messages }) => {
            assert_eq!(channel_id, "t1");
            assert_eq!(messages.len(), 2);
            assert_eq!(messages[1].id, "m2");
            assert_eq!(messages[1].reply_to.as_deref(), Some("m1"));
        }
        _ => panic!("must append"),
    }
    assert!(shell.on_realtime_message("other", live).is_none());
    assert_eq!(shell.messages.len(), 2);
    shell.apply_chat_edited("t1", "m1", "adios", "2026");
    assert_eq!(shell.messages[0].content, "adios");
    assert_eq!(shell.messages[0].edited_at.as_deref(), Some("2026"));
    shell.apply_chat_edited("other", "m1", "nope", "2027");
    assert_eq!(shell.messages[0].content, "adios");
    shell.mark_deleted("t1", "m1", "2028".into());
    assert_eq!(shell.messages[0].deleted_at.as_deref(), Some("2028"));
    shell.apply_chat_deleted("t1", "m2");
    assert_eq!(shell.messages[1].deleted_at.as_ref().unwrap().len(), 24);
    shell.apply_chat_deleted("t1", "m9");
    let (id, _) = shell.load_messages(&api()).unwrap();
    match shell.messages_arrived(id, Err(ApiError { status: 403, code: "no".into() })) {
        CoreEvent::Error { message } => assert_eq!(message, "no"),
        _ => panic!("must fail"),
    }
    assert_eq!(shell.messages.len(), 2);
}

#[test]
fn sending_waits_for_its_confirmation() {
    let mut shell = ShellState::new();
    assert_eq!(shell.send_message("hola".into(), 0).unwrap_err(), "no channel selected");
    let mut shell = loaded();
    let out = shell.send_message_with("hola".into(), Some("m1".into()), None, 10).unwrap();
    let id = match out {
        PresenceOut::Chat { channel_id, server_id, content, client_id, reply_to, attachment_url } => {
            assert_eq!((channel_id.as_str(), server_id.as_str()), ("t1", "s1"));
            assert_eq!(content, "hola");
            assert_eq!(reply_to.as_deref(), Some("m1"));
            assert!(attachment_url.is_none());
            client_id
        }
        _ => panic!("must send a chat"),
    };
    assert_eq!(id.len(), 16);
    assert!(id.chars().all(|c| c.is_ascii_hexdigit()));
    assert!(shell.pending_acks.contains(&id));
    shell.on_chat_ack("other");
    assert!(shell.pending_acks.contains(&id));
    shell.on_chat_ack(&id);
    assert!(!shell.pending_acks.contains(&id));
    assert!(shell.retransmit(1_000_000).is_empty());
    let a = shell.send_message("a".into(), 0).unwrap();
    let b = shell.send_message("a".into(), 0).unwrap();
    assert_ne!(format!("{a:?}"), format!("{b:?}"));
    shell.disconnect_presence();
    assert!(shell.pending_acks.entries.is_empty());
}

#[test]
fn unconfirmed_message_is_resent_three_times() {
    let mut shell = loaded();
    shell.send_message_as("c-1".into(), "hola".into(), Some("m".into()), None, 1_000).unwrap();
    assert!(shell.retransmit(3_999).is_empty());
    for now in [4_000u64, 7_000, 10_000] {
        let todo = shell.retransmit(now);
        assert_eq!(todo.len(), 1);
        match &todo[0] {
            Retransmission::Send(PresenceOut::Chat { client_id, content, reply_to, .. }) => {
                assert_eq!((client_id.as_str(), content.as_str()), ("c-1", "hola"));
                assert!(reply_to.is_none());
            }
            _ => panic!("must resend"),
        }
        assert!(shell.error.is_none());
    }
    let todo = shell.retransmit(13_000);
    match &todo[..] {
        [Retransmission::GiveUp { client_id }] => assert_eq!(client_id, "c-1"),
        _ => panic!("must give up"),
    }
    assert_eq!(shell.error.as_deref(), Some("no se pudo enviar el mensaje"));
    assert!(shell.retransmit(99_000).is_empty());
    match give_up_events("c-1".into()) {
        (CoreEvent::ChatError { client_id, code }, CoreEvent::Error { message }) => {
            assert_eq!((client_id.as_str(), code.as_str()), ("c-1", "send_timeout"));
            assert_eq!(message, "no se pudo enviar el mensaje");
        }
        _ => panic!("wrong events"),
    }
}

#[test]
fn presence_follows_the_events() {
    let mut shell = loaded();
    let friend = |id: &str, status| OnlineFriendLite {
        user_id: id.into(),
        username: id.into(),
        status,
    };
    let place = |id: &str, members: Vec<PeerLite>| ServerPresence {
        server_id: id.into(),
        online_members: members,
        voice_channels: vec![VoiceChannelPresence { channel_id: "v1".into(), peers: Vec::new() }],
    };
    shell.apply_presence_ready(
        vec![friend("u1", PresenceV2Status::Online), friend("u1", PresenceV2Status::Idle)],
        vec![place("s1", vec![peer("x")]), place("s1", vec![peer("y")])],
    );
    assert_eq!(shell.presence.online_friends.get("u1").unwrap().status, PresenceV2Status::Idle);
    assert_eq!(shell.presence.server_presence.get("s1").unwrap().online_members[0].user_id, "y");
    shell.apply_friend_online("u2", "bob");
    assert_eq!(shell.presence.online_friends.get("u2").unwrap().username, "bob");
    shell.apply_friend_status("u2", PresenceV2Status::Idle);
    assert_eq!(shell.presence.online_friends.get("u2").unwrap().status, PresenceV2Status::Idle);
    shell.apply_friend_status("nobody", PresenceV2Status::Idle);
    assert!(!shell.presence.online_friends.contains("nobody"));
    shell.apply_friend_offline("u2");
    assert!(!shell.presence.online_friends.contains("u2"));
    shell.apply_member_online("s1", "z", "zed");
    shell.apply_member_online("s1", "z", "again");
    let members = &shell.presence.server_presence.get("s1").unwrap().online_members;
    assert_eq!(members.len(), 2);
    assert_eq!(members[1].username, "zed");
    shell.apply_member_offline("s1", "y");
    let members = &shell.presence.server_presence.get("s1").unwrap().online_members;
    assert_eq!(members.len(), 1);
    assert_eq!(members[0].user_id, "z");
    shell.apply_member_online("s9", "z", "zed");
    assert!(!shell.presence.server_presence.contains("s9"));
    shell.apply_voice_occupancy("s1", "v1", vec![peer("p")]);
    shell.apply_voice_occupancy("s1", "v9", vec![peer("q")]);
    let voice = &shell.presence.server_presence.get("s1").unwrap().voice_channels;
    assert_eq!(voice.len(), 1);
    assert_eq!(voice[0].peers[0].user_id, "p");
}

#[test]
fn frames_of_the_presence_socket() {
    let mut shell = ShellState::new();
    assert!(shell.send_typing().is_none());
    shell = loaded();
    match shell.send_typing() {
        Some(PresenceOut::Typing { channel_id, server_id }) => {
            assert_eq!((channel_id.as_str(), server_id.as_str()), ("t1", "s1"));
        }
        _ => panic!("must tell"),
    }
    match shell.edit_message_ws("c".into(), "s".into(), "m".into(), "x".into()) {
        PresenceOut::ChatEdit { message_id, content, client_id, .. } => {
            assert_eq!((message_id.as_str(), content.as_str()), ("m", "x"));
            assert_eq!(client_id.len(), 16);
        }
        _ => panic!("must edit"),
    }
    match shell.delete_message_ws("c".into(), "s".into(), "m".into()) {
        PresenceOut::ChatDelete { message_id, client_id, .. } => {
            assert_eq!(message_id, "m");
            assert_eq!(client_id.len(), 16);
        }
        _ => panic!("must delete"),
    }
    assert!(matches!(shell.subscribe_channel("c".into()), PresenceOut::Subscribe(c) if c == "c"));
    assert!(matches!(shell.unsubscribe_channel("c".into()), PresenceOut::Unsubscribe(c) if c == "c"));
    assert!(matches!(shell.presence_voice_leave(), PresenceOut::VoiceLeave));
    assert!(matches!(
        shell.presence_voice_join("c".into(), "s".into()),
        PresenceOut::VoiceJoin { channel_id, .. } if channel_id == "c"
    ));
}

#[test]
fn actions_say_what_to_load_again() {
    let mut shell = ShellState::new();
    let e = shell.create_channel(&api(), "x", ChannelKind::Text).unwrap_err();
    assert_eq!(e, "no server selected");
    shell = loaded();
    let a = shell.create_channel(&api(), "x", ChannelKind::Text).unwrap();
    assert_eq!((a.request.path.as_str(), a.reload), ("/api/servers/s1/channels", Reload::Servers));
    let a = shell.kick_member(&api(), "s1", "u");
    assert_eq!((a.request.method, a.reload), (Method::Delete, Reload::Nothing));
    let a = shell.edit_message(&api(), "m", "x");
    assert_eq!((a.request.method, a.reload), (Method::Patch, Reload::Messages));
    let a = shell.accept_friend(&api(), "q");
    assert_eq!((a.request.path.as_str(), a.reload), ("/api/friends/requests/q/accept", Reload::Friends));
    let a = shell.update_server(&api(), "s1", "name");
    match a.request.body {
        Body::Object(v) => assert_eq!(v, vec![("name".to_string(), Some("name".to_string()))]),
        _ => panic!("no object"),
    }
    assert_eq!(action_result(Reload::Servers, Ok(())), Ok(Reload::Servers));
    let e = action_result(Reload::Servers, Err(ApiError { status: 403, code: "no".into() }));
    assert_eq!(e, Err("no".to_string()));
    shell.channel_deleted("other");
    assert_eq!(shell.selected_channel_id.as_deref(), Some("t1"));
    shell.channel_deleted("t1");
    assert!(shell.selected_channel_id.is_none());
}

#[test]
fn reset_empties_the_shell() {
    let mut shell = loaded();
    shell.messages.push(message("m", "t1"));
    shell.dm_call = true;
    shell.send_message("x".into(), 0).unwrap();
    shell.set_error("oops".into());
    shell.reset();
    assert!(shell.servers.is_empty() && shell.messages.is_empty() && shell.error.is_none());
    assert!(shell.selected_server_id.is_none() && shell.selected_channel_id.is_none());
    assert!(!shell.dm_call);
    assert_eq!(shell.load_seq, 1);
    assert_eq!(shell.pending_acks.entries.len(), 1);
}
