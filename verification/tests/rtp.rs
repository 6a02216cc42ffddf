//! RTP packets and the send worker.
use lumen::voice::frames::FRAME_SAMPLES;
use lumen::voice::rtp::{
    receive_step, sequence_gap, AudioPacketizer, ReceiveStep, SendStep, SendWorker, TrackReport,
};

#[test]
fn packet_advances_seq_and_ts() {
    let mut p = AudioPacketizer::new(0xdead_beef, 111);
    let a = p.packet(&[1, 2, 3]);
    let b = p.packet(&[4, 5]);
    assert_eq!(a.header.ssrc, 0xdead_beef);
    assert_eq!(a.header.payload_type, 111);
    assert_eq!(a.header.version, 2);
    assert_eq!(b.header.sequence_number, a.header.sequence_number.wrapping_add(1));
    assert_eq!(b.header.timestamp, a.header.timestamp.wrapping_add(FRAME_SAMPLES as u32));
    let payload: &[u8] = a.payload.as_ref();
    assert_eq!(payload, &[1, 2, 3]);
}

#[test]
fn stream_wraps_around() {
    let mut p = AudioPacketizer::new(1, 96);
    p.seq = 65_535;
    p.ts = 4_294_967_000;
    let a = p.packet(&[]);
    assert_eq!((a.header.sequence_number, a.header.timestamp), (65_535, 4_294_967_000));
    assert_eq!((p.seq, p.ts), (0, 664));
}

#[test]
fn streams_start_at_random() {
    let starts: Vec<(u16, u32)> =
        (0..8).map(|_| AudioPacketizer::new(1, 111)).map(|p| (p.seq, p.ts)).collect();
    assert!(starts.iter().any(|s| *s != starts[0]));
}

#[test]
fn worker_waits_for_the_payload_type() {
    let mut w = SendWorker::new(9);
    assert!(w.needs_payload_type());
    let before = w.packetizer.seq;
    assert!(matches!(w.step(&[1], false, None), SendStep::Skip));
    assert_eq!(w.packetizer.seq, before);
    match w.step(&[1], false, Some(96)) {
        SendStep::Write(p) => {
            assert_eq!(p.header.payload_type, 96);
            assert_eq!(p.header.ssrc, 9);
            assert_eq!(p.payload, vec![1]);
        }
        _ => panic!("must write"),
    }
    assert!(!w.needs_payload_type());
    match w.step(&[2], false, Some(97)) {
        SendStep::Write(p) => assert_eq!(p.header.payload_type, 96),
        _ => panic!("must write"),
    }
    assert!(matches!(w.step(&[2], true, None), SendStep::Stop));
}

#[test]
fn receiver_takes_packets_until_the_end() {
    let mut p = AudioPacketizer::new(5, 111);
    match receive_step(TrackReport::Packet { packet: p.packet(&[1, 2]) }, false) {
        ReceiveStep::Insert(q) => {
            assert_eq!(q.packet.payload, vec![1, 2]);
            assert_eq!((q.sample_rate, q.channels, q.duration_ms), (48_000, 1, 20));
        }
        _ => panic!("must insert"),
    }
    assert!(matches!(receive_step(TrackReport::Other, false), ReceiveStep::Ignore));
    assert!(matches!(receive_step(TrackReport::Gone, false), ReceiveStep::Stop));
    assert!(matches!(receive_step(TrackReport::Other, true), ReceiveStep::Stop));
}

#[test]
fn gaps_count_missing_packets() {
    assert_eq!(sequence_gap(None, 7), 0);
    assert_eq!(sequence_gap(Some(7), 8), 0);
    assert_eq!(sequence_gap(Some(7), 7), 0);
    assert_eq!(sequence_gap(Some(7), 10), 2);
    assert_eq!(sequence_gap(Some(65_535), 1), 1);
}
