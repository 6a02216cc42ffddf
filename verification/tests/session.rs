//! The voice session and its client.
use lumen::strmap::StrMap;
use lumen::voice::client::{
    default_true, ice_config, peer_plan, run_step, voice_ws_url, AnswerOutcome, AudioSink,
    AudioSource, IceServer, OfferOutcome, RunEvent, RunStep, SessionAction, TransmitMode,
    VoiceClient, VoiceSession,
};
use lumen::voice::diag::{file_stem, flipped_model, join_args, probe_ice_servers, window_energies};
use lumen::voice::event::{PeerState, SignalingState, VoiceEvent};
use lumen::voice::mixer::levels_event;
use lumen::voice::signaling::{PeerInfo, SignalEvent, SignalOut};
use lumen::voice::suppressor::SuppressorModel;

fn info(id: &str) -> PeerInfo {
    PeerInfo { peer_id: id.into(), user_id: "u".into(), username: "n".into() }
}

fn ice(urls: &[&str]) -> IceServer {
    IceServer {
        urls: urls.iter().map(|u| u.to_string()).collect(),
        username: Some("me".into()),
        credential: None,
    }
}

#[test]
fn newcomers_are_offered_to() {
    let mut s = VoiceSession::new(true);
    let actions = s.handle_event(SignalEvent::Joined { peer_id: "me".into(), peers: vec![info("a")] });
    assert_eq!(actions.len(), 2);
    match &actions[0] {
        SessionAction::Emit(VoiceEvent::Debug { message, .. }) => {
            assert_eq!(message, "joined channel as peer me");
        }
        _ => panic!("must tell"),
    }
    assert!(matches!(&actions[1], SessionAction::Emit(VoiceEvent::PeerJoined { peer_id, .. }) if peer_id == "a"));
    let actions = s.handle_event(SignalEvent::PeerJoined(info("b")));
    assert!(matches!(&actions[1], SessionAction::ConnectAndOffer { peer_id, .. } if peer_id == "b"));
    let actions = s.offered("b".into(), "u".into(), OfferOutcome::Ready("v=0".into()));
    assert!(matches!(&actions[..], [SessionAction::Send(SignalOut::Offer { to, sdp })] if to == "b" && sdp == "v=0"));
    let actions = s.handle_event(SignalEvent::PeerJoined(info("b")));
    assert_eq!(actions.len(), 1);
    let actions = s.handle_event(SignalEvent::Answer { from: "b".into(), sdp: "x".into() });
    assert!(matches!(&actions[..], [SessionAction::ApplyAnswer { .. }]));
    let actions = s.handle_event(SignalEvent::PeerLeft("b".into()));
    assert!(matches!(
        &actions[..],
        [SessionAction::ClosePeer { .. }, SessionAction::Emit(VoiceEvent::PeerLeft { .. })]
    ));
    let actions = s.handle_event(SignalEvent::PeerJoined(info("b")));
    assert_eq!(actions.len(), 2);
}

#[test]
fn offers_are_answered() {
    let mut s = VoiceSession::new(true);
    let actions = s.handle_event(SignalEvent::Offer { from: "a".into(), sdp: "x".into() });
    assert!(matches!(&actions[..], [SessionAction::ConnectAndAnswer { .. }]));
    let actions = s.connected("a".into(), "x".into(), Err("no".into()));
    assert!(matches!(&actions[..], [SessionAction::Emit(VoiceEvent::Error { code: None, message })] if message == "no"));
    let actions = s.connected("a".into(), "x".into(), Ok(()));
    assert!(matches!(&actions[..], [SessionAction::Answer { .. }]));
    let actions = s.answered("a".into(), AnswerOutcome::Ready("y".into()));
    assert!(matches!(&actions[..], [SessionAction::Send(SignalOut::Answer { to, .. })] if to == "a"));
    assert!(s.answered("a".into(), AnswerOutcome::Refused).is_empty());
    assert_eq!(s.answered("a".into(), AnswerOutcome::Failed("e".into())).len(), 1);
    let actions = s.handle_event(SignalEvent::Offer { from: "a".into(), sdp: "x".into() });
    assert!(matches!(&actions[..], [SessionAction::Answer { .. }]));
    let actions = s.handle_event(SignalEvent::IceCandidate { from: "a".into(), candidate: serde_json::Value::Null });
    assert!(matches!(&actions[..], [SessionAction::AddCandidate { .. }]));
    assert!(s.candidate_added(Ok(())).is_empty());
    assert_eq!(s.candidate_added(Err("bad".into())).len(), 1);
}

#[test]
fn unknown_peers_go_nowhere() {
    let mut s = VoiceSession::new(true);
    let actions = s.handle_event(SignalEvent::Answer { from: "z".into(), sdp: "x".into() });
    match &actions[..] {
        [SessionAction::Emit(VoiceEvent::Error { code: None, message })] => {
            assert_eq!(message, "answer from unknown peer z");
        }
        _ => panic!("must complain"),
    }
    let actions = s.handle_event(SignalEvent::IceCandidate { from: "z".into(), candidate: serde_json::Value::Null });
    assert!(actions.is_empty());
    assert!(s.handle_event(SignalEvent::PeerLeft("z".into())).is_empty());
    let actions = s.handle_event(SignalEvent::Error { code: "full".into(), message: "m".into() });
    assert!(matches!(&actions[..], [SessionAction::Emit(VoiceEvent::Error { code: Some(c), .. })] if c == "full"));
    let actions = s.offered("q".into(), "u".into(), OfferOutcome::Failed("e".into()));
    assert_eq!(actions.len(), 1);
    assert!(!s.peers.contains("q"));
    assert!(s.offered("q".into(), "u".into(), OfferOutcome::Refused).is_empty());
    assert!(s.peers.contains("q"));
}

#[test]
fn leaving_closes_every_peer_once() {
    let mut s = VoiceSession::new(true);
    s.offered("a".into(), "u".into(), OfferOutcome::Refused);
    s.offered("b".into(), "u".into(), OfferOutcome::Refused);
    let actions = s.stop();
    assert!(matches!(
        &actions[..],
        [
            SessionAction::Send(SignalOut::Close),
            SessionAction::ClosePeer { .. },
            SessionAction::ClosePeer { .. }
        ]
    ));
    assert!(s.stopping && !s.output_enabled);
    assert!(s.handle_event(SignalEvent::PeerJoined(info("c"))).is_empty());
    let actions = s.teardown(false);
    assert!(matches!(
        &actions[..],
        [SessionAction::Emit(VoiceEvent::Signaling { state: SignalingState::Closed })]
    ));
    let mut s = VoiceSession::new(true);
    let actions = s.teardown(true);
    assert!(matches!(
        &actions[..],
        [SessionAction::Emit(VoiceEvent::Signaling { state: SignalingState::Replaced })]
    ));
}

#[test]
fn loop_ends_with_the_socket() {
    assert!(matches!(
        run_step(RunEvent::Signal(SignalEvent::Closed { replaced: true }), false),
        RunStep::Teardown { replaced: true }
    ));
    assert!(matches!(run_step(RunEvent::StreamEnded, false), RunStep::Teardown { replaced: false }));
    assert!(matches!(run_step(RunEvent::Tick, false), RunStep::Wait));
    assert!(matches!(run_step(RunEvent::Tick, true), RunStep::Teardown { replaced: false }));
    assert!(matches!(
        run_step(RunEvent::Signal(SignalEvent::PeerLeft("p".into())), true),
        RunStep::Handle(SignalEvent::PeerLeft(_))
    ));
}

#[test]
fn one_session_at_a_time() {
    let mut c = VoiceClient::new();
    assert_eq!(c.suppressor_model(), SuppressorModel::FastEnhancerM);
    c.set_suppressor_model(SuppressorModel::NsOnly);
    c.set_aec_enabled_now(false);
    let plan = c.join(false).unwrap();
    assert_eq!((plan.model, plan.aec_enabled), (SuppressorModel::NsOnly, false));
    c.joined(Ok(VoiceSession::new(plan.aec_enabled))).unwrap();
    assert_eq!(c.join(false).unwrap_err(), "already in a voice channel");
    c.set_muted(true);
    c.set_deafened(true);
    c.set_transmit_mode(TransmitMode::VoiceActivated);
    c.set_aec_enabled(true);
    let s = c.session.as_ref().unwrap();
    assert!(s.muted && s.deafened && !s.output_enabled && s.aec_enabled);
    assert_eq!(s.transmit_mode, TransmitMode::VoiceActivated);
    assert!(c.aec_enabled());
    assert!(c.join(true).is_ok());
    assert!(c.leave().is_none());
    assert_eq!(c.joined(Err("refused".into())).unwrap_err(), "refused");
}

#[test]
fn plans_of_connections() {
    assert!(default_true());
    assert_eq!(voice_ws_url("https://x.io", "c"), "wss://x.io/api/ws/c");
    assert_eq!(voice_ws_url("http://h:1", "c"), "ws://h:1/api/ws/c");
    let p = peer_plan("p1", &None);
    assert_eq!((p.stream_id.as_str(), p.track_id.as_str()), ("lumen-stream-p1", "lumen-audio-p1"));
    assert_eq!(p.bind, "0.0.0.0:0");
    assert_eq!(peer_plan("p", &Some(String::new())).bind, "0.0.0.0:0");
    assert_eq!(peer_plan("p", &Some("10.77.0.2".into())).bind, "10.77.0.2:0");
    let e = ice_config(&vec![ice(&["stun:a", "stun:b"])]);
    assert_eq!(e[0].urls, vec!["stun:a", "stun:b"]);
    assert_eq!((e[0].username.as_str(), e[0].credential.as_str()), ("me", ""));
}

#[test]
fn names_of_states() {
    assert_eq!(SignalingState::Closed.as_str(), "closed");
    assert_eq!(SignalingState::Replaced.as_str(), "replaced");
    assert_eq!(PeerState::Connected.as_str(), "connected");
    assert_eq!(PeerState::Failed.as_str(), "failed");
}

#[test]
fn probes() {
    let a = join_args("http://h", "t", "u", "c", Vec::new(), true, None, false);
    assert!(matches!(a.source(), AudioSource::Microphone));
    assert_eq!(a.sink(), AudioSink::Headless);
    assert_eq!((a.user_id.as_str(), a.username.as_str()), ("u", "u"));
    let a = join_args("http://h", "t", "u", "c", Vec::new(), true, Some("x.wav".into()), false);
    assert!(matches!(a.source(), AudioSource::Wav(p) if p == "x.wav"));
    let a = join_args("http://h", "t", "u", "c", Vec::new(), false, None, false);
    assert!(matches!(a.source(), AudioSource::Silent));
    let a = join_args("http://h", "t", "u", "c", Vec::new(), false, None, true);
    assert_eq!(a.sink(), AudioSink::Device);
    let servers = vec![ice(&["stun:a", "turn:b", "turns:c"]), ice(&["turn:d"])];
    let kept = probe_ice_servers(&servers, true);
    assert_eq!(kept.len(), 1);
    assert_eq!(kept[0].urls, vec!["stun:a"]);
    assert_eq!(probe_ice_servers(&servers, false).len(), 2);
    assert_eq!(flipped_model(SuppressorModel::FastEnhancerM), SuppressorModel::NsOnly);
    assert_eq!(flipped_model(SuppressorModel::NsOnly), SuppressorModel::FastEnhancerM);
    assert_eq!(file_stem("a/b/voice.test.wav"), "voice");
    assert_eq!(file_stem("plain"), "plain");
    assert_eq!(window_energies(&[1, -2, 3, 4, 5], 2), vec![(5, 2), (25, 2), (25, 1)]);
    assert_eq!(window_energies(&[1, -2, 3], usize::MAX), vec![(14, 3)]);
    assert!(window_energies(&[], usize::MAX).is_empty());
}

#[test]
fn levels_of_every_peer() {
    let mut levels: StrMap<u32> = StrMap::new();
    levels.insert("a".into(), 7);
    levels.insert("b".into(), 8);
    match levels_event(5, &levels) {
        VoiceEvent::Levels { local, peers } => {
            assert_eq!(local, 5);
            assert_eq!((peers[0].peer_id.as_str(), peers[0].level), ("a", 7));
            assert_eq!((peers[1].peer_id.as_str(), peers[1].level), ("b", 8));
        }
        _ => panic!("wrong event"),
    }
}
