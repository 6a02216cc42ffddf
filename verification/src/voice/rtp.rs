//! RTP packetization of audio: one frame per packet, no payload header. Sequence
//! numbers and 48 kHz timestamps advance with each frame.
use vstd::prelude::*;

use crate::random::random_u64;

verus! {

/// The header of an RTP packet.
#[derive(Debug)]
pub struct RtpHeader {
    pub version: u8,
    pub padding: bool,
    pub extension: bool,
    pub marker: bool,
    pub payload_type: u8,
    pub sequence_number: u16,
    pub timestamp: u32,
    pub ssrc: u32,
    pub csrc: Vec<u32>,
    pub extension_profile: u16,
    pub extensions_padding: usize,
}

/// An RTP packet.
#[derive(Debug)]
pub struct RtpPacket {
    pub header: RtpHeader,
    pub payload: Vec<u8>,
}

/// Numbers and stamps the packets of one stream.
pub struct AudioPacketizer {
    pub ssrc: u32,
    pub payload_type: u8,
    pub seq: u16,
    pub ts: u32,
}

impl AudioPacketizer {
    /// A stream that starts at a random sequence number and timestamp.
    pub fn new(ssrc: u32, payload_type: u8) -> (r: Self)
        ensures
            r.ssrc == ssrc,
            r.payload_type == payload_type,
    {
        AudioPacketizer {
            ssrc,
            payload_type,
            seq: #[verifier::truncate] (random_u64() as u16),
            ts: #[verifier::truncate] (random_u64() as u32),
        }
    }

    /// Wraps one encoded frame in an RTP packet and advances the clock.
    pub fn packet(&mut self, frame: &[u8]) -> (r: RtpPacket)
        ensures
            r.header.version == 2,
            !r.header.padding,
            !r.header.extension,
            !r.header.marker,
            r.header.payload_type == old(self).payload_type,
            r.header.sequence_number == old(self).seq,
            r.header.timestamp == old(self).ts,
            r.header.ssrc == old(self).ssrc,
            r.header.csrc@.len() == 0,
            r.header.extension_profile == 0x0BED,
            r.header.extensions_padding == 0,
            r.payload@ == frame@,
            final(self).ssrc == old(self).ssrc,
            final(self).payload_type == old(self).payload_type,
            final(self).seq == (old(self).seq + 1) % 65536,
            final(self).ts == (old(self).ts + 960) % 4294967296,
    {
        let mut payload: Vec<u8> = Vec::new();
        let n: usize = frame.len();
        let mut i: usize = 0;
        while i < n
            invariant
                n == frame@.len(),
                i <= n,
                payload@ == frame@.take(i as int),
            decreases n - i,
        {
            payload.push(frame[i]);
            i = i + 1;
            assert(frame@.take(i as int) =~= frame@.take(i - 1).push(frame@[i - 1]));
        }
        assert(frame@.take(n as int) =~= frame@);
        let pkt = RtpPacket {
            header: RtpHeader {
                version: 2,
                padding: false,
                extension: false,
                marker: false,
                payload_type: self.payload_type,
                sequence_number: self.seq,
                timestamp: self.ts,
                ssrc: self.ssrc,
                csrc: Vec::new(),
                extension_profile: 0x0BED,
                extensions_padding: 0,
            },
            payload,
        };
        self.seq = self.seq.wrapping_add(1);
        self.ts = self.ts.wrapping_add(960);
        pkt
    }
}

/// The sequence number of the `n`-th packet behind one with number `seq`.
pub open spec fn seq_after(seq: int, n: nat) -> int
    decreases n,
{
    if n == 0 {
        seq
    } else {
        (seq_after(seq, (n - 1) as nat) + 1) % 65536
    }
}

/// The timestamp of the `n`-th packet behind one with timestamp `ts`.
pub open spec fn ts_after(ts: int, n: nat) -> int
    decreases n,
{
    if n == 0 {
        ts
    } else {
        (ts_after(ts, (n - 1) as nat) + 960) % 4294967296
    }
}

/// The `n`-th packet of a stream has its number `n` ahead and its stamp 960 `n`
/// samples ahead, each modulo its width: the numbers come round after 65536
/// packets.
pub proof fn law_stream_clock(seq: u16, ts: u32, n: nat)
    ensures
        seq_after(seq as int, n) == (seq + n) % 65536,
        ts_after(ts as int, n) == (ts + 960 * n) % 4294967296,
    decreases n,
{
    if n > 0 {
        law_stream_clock(seq, ts, (n - 1) as nat);
    }
}

/// What a send worker does with an encoded frame.
pub enum SendStep {
    /// The peer is gone: end the worker.
    Stop,
    /// The payload type is not negotiated yet: drop the frame.
    Skip,
    /// Write the packet to the track.
    Write(RtpPacket),
}

/// The send worker of one peer: packetizes frames once the payload type is known.
pub struct SendWorker {
    pub packetizer: AudioPacketizer,
    pub negotiated: Option<u8>,
}

impl SendWorker {
    /// A worker for a stream whose payload type is still to be negotiated.
    pub fn new(ssrc: u32) -> (r: Self)
        ensures
            r.packetizer.ssrc == ssrc,
            r.packetizer.payload_type == 111,
            r.negotiated is None,
    {
        SendWorker { packetizer: AudioPacketizer::new(ssrc, 111), negotiated: None }
    }

    /// Whether the payload type has to be asked for before the next frame.
    pub fn needs_payload_type(&self) -> (r: bool)
        ensures
            r == self.negotiated is None,
    {
        self.negotiated.is_none()
    }

    /// Takes a frame; `negotiated` is the payload type that the sender reports,
    /// read only while none is known.
    pub fn step(&mut self, frame: &[u8], stopped: bool, negotiated: Option<u8>) -> (r: SendStep)
        ensures
            final(self).packetizer.ssrc == old(self).packetizer.ssrc,
            stopped ==> r == SendStep::Stop && *final(self) == *old(self),
            !stopped && old(self).negotiated is None && negotiated is None ==> r == SendStep::Skip
                && *final(self) == *old(self),
            !stopped && (old(self).negotiated is Some || negotiated is Some) ==> {
                &&& r matches SendStep::Write(p)
                &&& p.payload@ == frame@
                &&& p.header.sequence_number == old(self).packetizer.seq
                &&& p.header.timestamp == old(self).packetizer.ts
                &&& p.header.ssrc == old(self).packetizer.ssrc
                &&& p.header.payload_type == (if old(self).negotiated is Some {
                    old(self).packetizer.payload_type
                } else {
                    negotiated->0
                })
                &&& final(self).packetizer.payload_type == p.header.payload_type
                &&& final(self).negotiated == (if old(self).negotiated is Some {
                    old(self).negotiated
                } else {
                    negotiated
                })
                &&& final(self).packetizer.seq == (old(self).packetizer.seq + 1) % 65536
                &&& final(self).packetizer.ts == (old(self).packetizer.ts + 960) % 4294967296
            },
    {
        if stopped {
            return SendStep::Stop;
        }
        if self.negotiated.is_none() {
            match negotiated {
                Some(p) => {
                    self.packetizer.payload_type = p;
                    self.negotiated = Some(p);
                },
                None => {
                    return SendStep::Skip;
                },
            }
        }
        SendStep::Write(self.packetizer.packet(frame))
    }
}

/// What a remote track reports.
pub enum TrackReport {
    Packet { packet: RtpPacket },
    /// The track ended, is about to end, or failed.
    Gone,
    Other,
}

/// A packet for the playout buffer of a peer.
pub struct PlayoutPacket {
    pub packet: RtpPacket,
    pub sample_rate: u32,
    pub channels: u8,
    pub duration_ms: u32,
}

/// What the receiver of a track does with a report.
pub enum ReceiveStep {
    Stop,
    /// Put the packet into the playout buffer.
    Insert(PlayoutPacket),
    Ignore,
}

/// Decides on a report of a remote track: every packet is one 20 ms frame of mono
/// sound at 48 kHz, and the end of the peer or of the track ends the receiver.
pub fn receive_step(report: TrackReport, stopped: bool) -> (r: ReceiveStep)
    ensures
        r == (if stopped {
            ReceiveStep::Stop
        } else {
            match report {
                TrackReport::Packet { packet } => ReceiveStep::Insert(
                    PlayoutPacket { packet, sample_rate: 48000, channels: 1, duration_ms: 20 },
                ),
                TrackReport::Gone => ReceiveStep::Stop,
                TrackReport::Other => ReceiveStep::Ignore,
            }
        }),
{
    if stopped {
        return ReceiveStep::Stop;
    }
    match report {
        TrackReport::Packet { packet } => ReceiveStep::Insert(
            PlayoutPacket { packet, sample_rate: 48_000, channels: 1, duration_ms: 20 },
        ),
        TrackReport::Gone => ReceiveStep::Stop,
        TrackReport::Other => ReceiveStep::Ignore,
    }
}

/// How many packets are missing between one sequence number and a later one, across
/// the wrap; a repeated packet misses none.
pub fn sequence_gap(last: Option<u16>, seq: u16) -> (r: u16)
    ensures
        r == (match last {
            None => 0,
            Some(s) => if s == seq {
                0
            } else {
                (seq - s) % 65536 - 1
            },
        }),
{
    match last {
        None => 0,
        Some(s) => {
            let ahead: u16 = seq.wrapping_sub(s);
            if ahead == 0 {
                0
            } else {
                ahead - 1
            }
        },
    }
}

/// Two packets behind each other carry their frames unchanged, belong to one stream,
/// have consecutive numbers and stand 960 samples apart; nothing is missing between
/// them.
pub proof fn law_packets_follow(
    a: &mut AudioPacketizer,
    b: &mut AudioPacketizer,
    first: &[u8],
    second: &[u8],
    p: RtpPacket,
    q: RtpPacket,
    gap: u16,
)
    requires
        call_ensures(AudioPacketizer::packet, (a, first), p),
        *old(b) == *final(a),
        call_ensures(AudioPacketizer::packet, (b, second), q),
        call_ensures(sequence_gap, (Some(p.header.sequence_number), q.header.sequence_number), gap),
    ensures
        p.payload@ == first@ && q.payload@ == second@,
        p.header.ssrc == q.header.ssrc,
        p.header.payload_type == q.header.payload_type,
        p.header.version == 2 && q.header.version == 2,
        !p.header.padding && !p.header.extension && !p.header.marker,
        p.header.csrc@.len() == 0 && p.header.extensions_padding == 0,
        (q.header.sequence_number - p.header.sequence_number) % 65536 == 1,
        (q.header.timestamp - p.header.timestamp) % 4294967296 == 960,
        gap == 0,
{
}

/// A stream has the source and payload type that it was made for.
pub proof fn law_stream_identity(
    ssrc: u32,
    payload_type: u8,
    made: AudioPacketizer,
    a: &mut AudioPacketizer,
    frame: &[u8],
    p: RtpPacket,
)
    requires
        call_ensures(AudioPacketizer::new, (ssrc, payload_type), made),
        *old(a) == made,
        call_ensures(AudioPacketizer::packet, (a, frame), p),
    ensures
        p.header.ssrc == ssrc,
        p.header.payload_type == payload_type,
        p.payload@ == frame@,
{
}

/// The gap counts the packets that are missing, across the wrap of the numbers: none
/// for the first, a repeated or the next packet, and one for each number left out.
pub proof fn law_gap_counts(last: u16, missing: u16, seq: u16, r: u16, first: u16, again: u16)
    requires
        missing < 65535,
        seq == (last + 1 + missing) % 65536,
        call_ensures(sequence_gap, (Some(last), seq), r),
        call_ensures(sequence_gap, (None, seq), first),
        call_ensures(sequence_gap, (Some(last), last), again),
    ensures
        r == missing,
        first == 0,
        again == 0,
{
}

/// A worker writes nothing before its payload type is known, then every frame under
/// that type, and stops when told to; what it drops does not move its clock.
pub proof fn law_worker(
    ssrc: u32,
    made: SendWorker,
    a: &mut SendWorker,
    b: &mut SendWorker,
    c: &mut SendWorker,
    frame: &[u8],
    kind: u8,
    later: Option<u8>,
    x: SendStep,
    y: SendStep,
    z: SendStep,
)
    requires
        call_ensures(SendWorker::new, (ssrc,), made),
        *old(a) == made,
        call_ensures(SendWorker::step, (a, frame, false, None), x),
        *old(b) == *final(a),
        call_ensures(SendWorker::step, (b, frame, false, Some(kind)), y),
        *old(c) == *final(b),
        call_ensures(SendWorker::step, (c, frame, false, later), z),
    ensures
        x is Skip,
        *final(a) == made,
        (y matches SendStep::Write(p) && p.header.payload_type == kind && p.header.ssrc == ssrc
            && p.payload@ == frame@),
        (z matches SendStep::Write(p) && p.header.payload_type == kind && p.header.ssrc == ssrc
            && p.payload@ == frame@),
        (z->Write_0.header.sequence_number - y->Write_0.header.sequence_number) % 65536 == 1,
        (z->Write_0.header.timestamp - y->Write_0.header.timestamp) % 4294967296 == 960,
{
}

/// A stopped worker or receiver does nothing more. A packet that came is put into the
/// buffer as it came, as 20 ms of mono sound at 48 kHz, and only a track that is gone
/// ends its receiver.
pub proof fn law_receiver(report: TrackReport, r: ReceiveStep, halted: ReceiveStep)
    requires
        call_ensures(receive_step, (report, false), r),
        call_ensures(receive_step, (report, true), halted),
    ensures
        halted is Stop,
        r is Stop <==> report is Gone,
        r is Insert <==> report is Packet,
        report matches TrackReport::Packet { packet } ==> (r matches ReceiveStep::Insert(p)
            && p.packet == packet && p.sample_rate == 48000 && p.channels == 1 && p.duration_ms
            == 20 && p.sample_rate * p.duration_ms == 960 * 1000),
{
}

/// A worker asks for its payload type until it knows one, and not again.
pub proof fn law_asks_once(
    ssrc: u32,
    made: SendWorker,
    a: &mut SendWorker,
    frame: &[u8],
    kind: u8,
    r: SendStep,
    before: bool,
    after: bool,
)
    requires
        call_ensures(SendWorker::new, (ssrc,), made),
        call_ensures(SendWorker::needs_payload_type, (&made,), before),
        *old(a) == made,
        call_ensures(SendWorker::step, (a, frame, false, Some(kind)), r),
        call_ensures(SendWorker::needs_payload_type, (&*final(a),), after),
    ensures
        before,
        !after,
{
}

/// A stopped worker writes nothing and stays as it is.
pub proof fn law_stopped_worker(a: &mut SendWorker, frame: &[u8], kind: Option<u8>, r: SendStep)
    requires
        call_ensures(SendWorker::step, (a, frame, true, kind), r),
    ensures
        r is Stop,
        *final(a) == *old(a),
{
}

} // verus!
