//! The presence socket, the signaling socket, and the direct data channel.
use lumen::event::CoreEvent;
use lumen::presence::{
    encode_out, presence_ws_url, publish_event, socket_step, LoopEvent, LoopStep, PresenceLoop,
    PresenceOut, SocketEvent, SocketStep,
};
use lumen::protocol::{PresenceClientMessage, PresenceServerMessage, PresenceV2Status};
use lumen::voice::client::IceServer;
use lumen::voice::dm::{
    create_answer, create_offer, handle_signal, open_plan, poll_step, ChannelReport, DmEvent,
    DmSignalIn, DmSignalOut, DmStep, PollStep,
};
use lumen::voice::signaling::{
    read_step, signaling_plan, write_step, Beat, BeatStep, ClientMessage, Heartbeat, InFrame,
    ReadStep, ServerMessage, SignalEvent, SignalOut,
};

#[test]
fn outbound_frames_keep_their_fields() {
    let out = encode_out(PresenceOut::Chat {
        channel_id: "ch-1".into(),
        server_id: "s-1".into(),
        content: "hola".into(),
        client_id: "c-1".into(),
        reply_to: None,
        attachment_url: None,
    });
    match out {
        PresenceClientMessage::Chat { channel_id, server_id, content, client_id, .. } => {
            assert_eq!((channel_id.as_str(), server_id.as_str()), ("ch-1", "s-1"));
            assert_eq!((content.as_str(), client_id.as_str()), ("hola", "c-1"));
        }
        _ => panic!("wrong message"),
    }
    assert!(matches!(
        encode_out(PresenceOut::Subscribe("c".into())),
        PresenceClientMessage::Subscribe { channel_id } if channel_id == "c"
    ));
    assert!(matches!(
        encode_out(PresenceOut::Status(PresenceV2Status::Idle)),
        PresenceClientMessage::Status { status: PresenceV2Status::Idle }
    ));
}

#[test]
fn inbound_frames_are_published() {
    let ack = PresenceServerMessage::ChatAck {
        client_id: "c".into(),
        message_id: "m".into(),
        created_at: "2026-08-13T10:00:00.000Z".into(),
    };
    match publish_event(ack) {
        Some(CoreEvent::ChatAck { client_id, message_id, created_at }) => {
            assert_eq!((client_id.as_str(), message_id.as_str()), ("c", "m"));
            assert_eq!(created_at, "2026-08-13T10:00:00.000Z");
        }
        _ => panic!("wrong event"),
    }
    assert!(publish_event(PresenceServerMessage::Pong).is_none());
}

#[test]
fn presence_url_carries_the_token() {
    assert_eq!(
        presence_ws_url("https://x.io/", "a b"),
        "wss://x.io/api/presence?token=a+b"
    );
    assert_eq!(presence_ws_url("http://h", "t"), "ws://h/api/presence?token=t");
}

#[test]
fn presence_backs_off() {
    let mut l = PresenceLoop::new();
    let mut waits = Vec::new();
    for _ in 0..7 {
        match l.step(LoopEvent::ConnectFailed) {
            LoopStep::Wait(s) => waits.push(s),
            _ => panic!("must wait"),
        }
        assert_eq!(l.step(LoopEvent::Waited { closed: false }), LoopStep::Connect);
    }
    assert_eq!(waits, vec![1, 2, 4, 8, 16, 30, 30]);
    assert_eq!(l.step(LoopEvent::Connected), LoopStep::Drive);
    assert_eq!(l.step(LoopEvent::SocketDied), LoopStep::Wait(1));
    assert_eq!(l.step(LoopEvent::Waited { closed: true }), LoopStep::Stop);
    assert_eq!(l.step(LoopEvent::Disconnected), LoopStep::Stop);
    assert_eq!(l.step(LoopEvent::NoToken), LoopStep::Stop);
}

#[test]
fn presence_socket_turns() {
    assert!(matches!(
        socket_step(SocketEvent::Outbound(Some(PresenceOut::VoiceLeave))),
        SocketStep::Write(PresenceClientMessage::VoiceLeave)
    ));
    assert!(matches!(
        socket_step(SocketEvent::Outbound(None)),
        SocketStep::Leave { reconnect: false }
    ));
    assert!(matches!(socket_step(SocketEvent::Broken), SocketStep::Leave { reconnect: true }));
    assert!(matches!(socket_step(SocketEvent::Text(None)), SocketStep::Ignore));
    assert!(matches!(socket_step(SocketEvent::OtherFrame), SocketStep::Ignore));
    assert!(matches!(
        socket_step(SocketEvent::Text(Some(PresenceServerMessage::FriendOffline { user_id: "u".into() }))),
        SocketStep::Publish(CoreEvent::FriendOffline { .. })
    ));
}

#[test]
fn signaling_plan_joins_first() {
    let plan = signaling_plan("wss://x/api/ws/c", "a+b", "c", "u", "alice");
    assert_eq!(plan.url, "wss://x/api/ws/c?token=a%2Bb");
    match plan.join {
        SignalOut::Join { channel_id, user_id, username } => {
            assert_eq!((channel_id.as_str(), user_id.as_str(), username.as_str()), ("c", "u", "alice"));
        }
        _ => panic!("must join"),
    }
}

#[test]
fn signaling_frames() {
    assert!(matches!(
        read_step(InFrame::Text(Some(ServerMessage::PeerLeft { peer_id: "p".into() }))),
        ReadStep::Deliver(SignalEvent::PeerLeft(p)) if p == "p"
    ));
    assert!(matches!(read_step(InFrame::Text(Some(ServerMessage::Pong))), ReadStep::Alive));
    assert!(matches!(read_step(InFrame::Text(None)), ReadStep::Alive));
    assert!(matches!(read_step(InFrame::Other), ReadStep::Skip));
    assert!(matches!(read_step(InFrame::Close(Some(4000))), ReadStep::End { replaced: true }));
    assert!(matches!(read_step(InFrame::Close(Some(1000))), ReadStep::End { replaced: false }));
    assert!(matches!(read_step(InFrame::Close(None)), ReadStep::End { replaced: false }));
    assert!(matches!(read_step(InFrame::Ended), ReadStep::End { replaced: false }));
    assert!(matches!(write_step(SignalOut::Ping), Some(ClientMessage::Ping)));
    assert!(write_step(SignalOut::Close).is_none());
}

#[test]
fn silent_socket_dies_after_twenty_seconds() {
    let mut h = Heartbeat::start(1_000);
    assert!(matches!(h.step(Beat::PingDue, 6_000), BeatStep::SendPing));
    assert!(matches!(h.step(Beat::Deadline, 20_999), BeatStep::Wait));
    assert!(matches!(h.step(Beat::Heard, 20_999), BeatStep::Wait));
    assert!(matches!(h.step(Beat::Deadline, 21_000), BeatStep::Wait));
    assert!(matches!(h.step(Beat::PingDue, 40_000), BeatStep::SendPing));
    assert!(matches!(h.step(Beat::Deadline, 40_999), BeatStep::Dead));
    assert!(matches!(h.step(Beat::ReaderEnded, 41_000), BeatStep::Stop));
}

#[test]
fn direct_channel_reports() {
    assert!(matches!(poll_step(ChannelReport::Opened), PollStep::Tell(DmEvent::Open)));
    assert!(matches!(
        poll_step(ChannelReport::Message { data: vec![1] }),
        PollStep::Tell(DmEvent::Message(d)) if d == vec![1]
    ));
    assert!(matches!(poll_step(ChannelReport::Closed), PollStep::TellAndStop(DmEvent::Closed)));
    assert!(matches!(poll_step(ChannelReport::Other), PollStep::Ignore));
}

#[test]
fn direct_channel_signals() {
    let steps = handle_signal(DmSignalIn::Offer { sdp: "v=0".into() });
    assert!(matches!(&steps[..], [DmStep::SetRemoteOffer { sdp }, DmStep::Answer] if sdp == "v=0"));
    let steps = handle_signal(DmSignalIn::Answer { sdp: "v=0".into() });
    assert!(matches!(&steps[..], [DmStep::SetRemoteAnswer { .. }]));
    let steps = handle_signal(DmSignalIn::Ice { candidate: serde_json::Value::Null });
    assert!(matches!(&steps[..], [DmStep::AddCandidate { .. }]));
    assert!(matches!(create_offer("o".into()), DmSignalOut::Offer(s) if s == "o"));
    assert!(matches!(create_answer("a".into()), DmSignalOut::Answer(s) if s == "a"));
    let plan = open_plan(&vec![IceServer {
        urls: vec!["stun:x".into()],
        username: None,
        credential: Some("k".into()),
    }]);
    assert_eq!((plan.label.as_str(), plan.bind.as_str()), ("dm", "0.0.0.0:0"));
    assert_eq!((plan.ice[0].username.as_str(), plan.ice[0].credential.as_str()), ("", "k"));
}
