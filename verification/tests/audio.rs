//! Frames, recordings, the mix, the send loop and the suppression chain.
use lumen::voice::capture::{
    parse_format, pick_input_config, raw_step, zero_samples, FormatError, InputRange, MixFormat,
    RawFormat, RawStep, SampleFormat, SubFormat,
};
use lumen::voice::frames::{
    downmix, feed, next_chunk_len, BlockQueue, WavFeed, CLOCK_RATE, FRAME_SAMPLES,
};
use lumen::voice::mixer::{append_pull, mix};
use lumen::voice::sendloop::{SendLoop, SendQueue, SendTurn};
use lumen::voice::suppressor::{
    merge_suppressed, silence_reuse_decision, EnhancerQueue, EnhancerSize, NoiseSuppressor,
    SonoraAec, Stage, SuppressorModel, Tier,
};
use lumen::voice::wav::{load_wav_pcm, pcm_after_header, wav_bytes, wav_complete, WavError};

fn make_frame(seq: i16) -> Vec<i16> {
    let mut frame = vec![0i16; FRAME_SAMPLES];
    frame[0] = seq;
    frame
}

/// Takes a frame through the whole chain, with nothing behind the suppressor, the
/// denoiser and the limiter.
fn through(ns: &mut NoiseSuppressor, frame: &[i16]) -> Option<Vec<i16>> {
    let signal = match ns.process(frame) {
        Stage::Suppress { signal } => signal,
        _ => panic!("must suppress"),
    };
    let signal = match ns.suppressed(signal, None) {
        Stage::Denoise { signal, .. } => signal,
        _ => panic!("must denoise"),
    };
    let signal = match ns.denoised(signal, false, 0) {
        Stage::Limit { signal } => signal,
        _ => panic!("must limit"),
    };
    ns.process_gated(signal)
}

#[test]
fn noise_suppressor_pipeline() {
    // A speech-like voiced signal goes through and keeps its length.
    let mut ns = NoiseSuppressor::new();
    let mut frame = vec![0i16; FRAME_SAMPLES];
    for i in 0..FRAME_SAMPLES {
        let t = i as f64 / CLOCK_RATE as f64;
        let mut v = 0.0;
        for (n, amp) in [
            (1, 1.0), (2, 0.5), (3, 0.33), (4, 0.25),
            (5, 0.2), (6, 0.16), (7, 0.14), (8, 0.12),
        ] {
            v += amp * (2.0 * std::f64::consts::PI * 150.0 * n as f64 * t).sin();
        }
        let am = 0.7 + 0.3 * (2.0 * std::f64::consts::PI * 8.0 * t).sin();
        frame[i] = (v * am * 3000.0) as i16;
    }
    for _ in 0..10 {
        let out = through(&mut ns, &frame).unwrap();
        assert_eq!(out.len(), FRAME_SAMPLES);
        assert!(ns.last_lsnr.is_none());
    }
}

#[test]
fn process_gated_always_transmits() {
    // The send path always transmits the denoised frame: no binary gate that
    // would create audible cuts at speech edges.
    let mut ns = NoiseSuppressor::new();
    let silence = vec![0i16; FRAME_SAMPLES];
    assert!(
        through(&mut ns, &silence).is_some(),
        "process_gated must always return Some (no gate)"
    );

    // Noisy mic: still always transmits.
    let mut state = 0x1234_5678u32;
    let noise: Vec<i16> = (0..FRAME_SAMPLES)
        .map(|_| {
            state ^= state << 13;
            state ^= state >> 17;
            state ^= state << 5;
            ((state >> 8) as i16) / 4
        })
        .collect();
    let mut ns = NoiseSuppressor::new();
    for _ in 0..30 {
        assert!(
            through(&mut ns, &noise).is_some(),
            "process_gated must always return Some even on noise"
        );
    }
}

#[test]
fn chains_of_the_models() {
    let ns = NoiseSuppressor::with_model(SuppressorModel::FastEnhancerM, true);
    assert_eq!(ns.tier(), Tier::Enhancer);
    assert!(ns.neural_available() && ns.has_aec());
    let ns = NoiseSuppressor::with_model(SuppressorModel::FastEnhancerM, false);
    assert_eq!(ns.tier(), Tier::Plain);
    assert!(!ns.neural_available());
    let ns = NoiseSuppressor::with_model_and_aec(SuppressorModel::NsOnly, false, true);
    assert!(!ns.has_aec());
    assert_eq!(NoiseSuppressor::new_neural(true).tier(), Tier::DeepFilter);
    assert_eq!(NoiseSuppressor::new_neural(false).tier(), Tier::Plain);
    assert_eq!(NoiseSuppressor::new_light().tier(), Tier::Light);
    let mut ns = NoiseSuppressor::new_neural(true);
    ns.denoised(Vec::new(), true, 42);
    assert!(ns.speech_detected());
    assert_eq!(ns.last_lsnr, Some(42));
    let mut ns = NoiseSuppressor::new();
    ns.denoised(Vec::new(), true, 42);
    assert_eq!(ns.last_lsnr, None);
}

#[test]
fn chain_without_canceller_keeps_the_frame() {
    let mut ns = NoiseSuppressor::with_model_and_aec(SuppressorModel::NsOnly, false, false);
    let frame: Vec<i16> = (0..960).collect();
    ns.process_render_frame(&frame);
    ns.reset_aec();
    assert!(!ns.has_aec());
    assert_eq!(through(&mut ns, &frame), Some(frame));
}

#[test]
fn canceller_changes_the_echo() {
    let mut aec = SonoraAec::new(48_000);
    let tone: Vec<i16> = (0..960).map(|i| if (i / 50) % 2 == 0 { 8000 } else { -8000 }).collect();
    let mut last = Vec::new();
    for _ in 0..50 {
        aec.process_render_frame(&tone);
        last = aec.process_capture(&tone);
        assert_eq!(last.len(), 960);
    }
    let energy = |s: &[i16]| s.iter().map(|&v| v as i64 * v as i64).sum::<i64>();
    assert_ne!(last, tone);
    assert!(energy(&last) < energy(&tone));
    let short = aec.process_capture(&tone[..500]);
    assert_eq!(short[480..], tone[480..500]);
}

#[test]
fn suppressed_blocks_are_merged() {
    let input: Vec<i16> = vec![5; 1000];
    let out = merge_suppressed(&input, &vec![Some(vec![7; 480]), None]);
    assert_eq!(out.len(), 1000);
    assert!(out[..480].iter().all(|&v| v == 7));
    assert!(out[480..960].iter().all(|&v| v == 5));
    assert!(out[960..].iter().all(|&v| v == 0));
}

#[test]
fn models_have_names() {
    for m in [SuppressorModel::NsOnly, SuppressorModel::FastEnhancerS, SuppressorModel::FastEnhancerM] {
        assert_eq!(SuppressorModel::parse(m.as_str()), Some(m));
    }
    assert_eq!(SuppressorModel::parse("other"), None);
    assert!(SuppressorModel::NsOnly.available(false));
    assert!(!SuppressorModel::FastEnhancerM.available(false));
    assert!(SuppressorModel::FastEnhancerS.available(true));
}

#[test]
fn silence_is_reused_in_runs() {
    assert_eq!(silence_reuse_decision(true, 9, true), (false, 0));
    let mut streak = 0u32;
    let mut reused = Vec::new();
    for _ in 0..5 {
        let (reuse, next) = silence_reuse_decision(false, streak, true);
        reused.push(reuse);
        streak = next;
    }
    assert_eq!(reused, vec![false, false, true, true, true]);
    assert!(!silence_reuse_decision(false, 50, false).0);
}

#[test]
fn denoiser_queues_keep_order() {
    assert_eq!(EnhancerSize::Medium.frame_size(), 320);
    assert_eq!(EnhancerSize::Small.frame_size(), 512);
    let mut q: EnhancerQueue<i16> = EnhancerQueue::new(512);
    let frame: Vec<i16> = (0..960).collect();
    q.accept(&frame);
    while let Some(block) = q.next_input() {
        q.denoised(&block);
    }
    assert!(q.emit(960).is_empty());
    q.accept(&frame);
    while let Some(block) = q.next_input() {
        q.denoised(&block);
    }
    assert_eq!(q.emit(960), frame);
    assert!(q.emit(960).is_empty());
}

#[test]
fn send_loop_sheds_only_a_backlog() {
    let mut queue = SendQueue::new();
    let mut tap: BlockQueue<i16> = BlockQueue::new();
    let mut chain = NoiseSuppressor::with_model(SuppressorModel::NsOnly, false);
    let mut l = SendLoop::new(SuppressorModel::NsOnly);
    let ns = SuppressorModel::NsOnly;
    assert!(matches!(
        l.turn(&mut queue, &mut tap, &mut chain, ns, false, false, false, true),
        SendTurn::Wait
    ));
    for seq in 0..5 {
        queue.push(make_frame(seq));
    }
    match l.turn(&mut queue, &mut tap, &mut chain, ns, false, false, false, true) {
        SendTurn::Process { frame } => assert_eq!(frame[0], 0),
        _ => panic!("must send"),
    }
    assert_eq!(queue.frames.len(), 4);
    for seq in 5..50 {
        queue.push(make_frame(seq));
    }
    tap.push_all(&make_frame(1));
    match l.turn(&mut queue, &mut tap, &mut chain, ns, false, false, false, true) {
        SendTurn::Process { frame } => assert_eq!(frame[0], 45),
        _ => panic!("must send"),
    }
    assert_eq!(queue.frames.len(), 4);
    assert!(tap.buf.is_empty());
    assert!(matches!(
        l.turn(&mut queue, &mut tap, &mut chain, ns, false, false, true, true),
        SendTurn::Dropped
    ));
    assert_eq!(queue.frames.len(), 3);
    assert!(matches!(
        l.turn(&mut queue, &mut tap, &mut chain, ns, false, true, true, true),
        SendTurn::Stop
    ));
    let m = SuppressorModel::FastEnhancerM;
    l.turn(&mut queue, &mut tap, &mut chain, m, true, false, false, false);
    assert_eq!(chain.tier(), Tier::Enhancer);
    assert_eq!(l.model, m);
}

#[test]
fn canceller_follows_the_switch() {
    let mut queue = SendQueue::new();
    let mut tap: BlockQueue<i16> = BlockQueue::new();
    let mut chain = NoiseSuppressor::with_model(SuppressorModel::NsOnly, false);
    let mut l = SendLoop::new(SuppressorModel::NsOnly);
    let ns = SuppressorModel::NsOnly;
    let fe = SuppressorModel::FastEnhancerM;
    let rounds = [
        // model, muted, canceller wanted
        (ns, false, true),
        (fe, false, false),
        (fe, false, true),
        (ns, true, false),
        (ns, true, true),
        (ns, false, false),
        (fe, false, true),
    ];
    for (model, muted, aec) in rounds {
        queue.push(make_frame(1));
        l.turn(&mut queue, &mut tap, &mut chain, model, true, false, muted, aec);
        assert_eq!(chain.has_aec(), aec);
        assert_eq!(chain.tier(), if model == fe { Tier::Enhancer } else { Tier::Plain });
    }
    // Without a frame nothing changes.
    l.turn(&mut queue, &mut tap, &mut chain, ns, true, false, false, false);
    assert!(chain.has_aec());
    assert_eq!(chain.tier(), Tier::Enhancer);
}

#[test]
fn overflow_starts_the_canceller_anew() {
    let ns = SuppressorModel::NsOnly;
    let tone: Vec<i16> = (0..960).map(|i| if (i / 50) % 2 == 0 { 8000 } else { -8000 }).collect();
    let played: Vec<i16> = tone.iter().cycle().take(24_000).copied().collect();
    // What the next frame becomes, after `warm` frames of echo, where `shed` samples
    // more than fit were played before it.
    let next = |warm: usize, shed: usize| -> Vec<i16> {
        let mut queue = SendQueue::new();
        let mut tap: BlockQueue<i16> = BlockQueue::new();
        let mut chain = NoiseSuppressor::with_model(ns, false);
        let mut l = SendLoop::new(ns);
        for _ in 0..warm {
            queue.push(tone.clone());
            tap.push_all(&tone);
            l.turn(&mut queue, &mut tap, &mut chain, ns, false, false, false, true);
            through(&mut chain, &tone);
        }
        tap.push_all(&vec![77; shed]);
        tap.push_all(&played);
        queue.push(tone.clone());
        l.turn(&mut queue, &mut tap, &mut chain, ns, false, false, false, true);
        assert!(tap.buf.is_empty());
        through(&mut chain, &tone).unwrap()
    };
    let fresh = next(0, 0);
    assert_eq!(next(100, 1), fresh);
    assert_eq!(next(100, 5000), fresh);
    assert_ne!(next(100, 0), fresh);
}

#[test]
fn muted_drain_clears_stale() {
    let mut queue = SendQueue::new();
    let mut tap: BlockQueue<i16> = BlockQueue::new();
    let mut chain = NoiseSuppressor::with_model(SuppressorModel::NsOnly, false);
    let mut l = SendLoop::new(SuppressorModel::NsOnly);
    let ns = SuppressorModel::NsOnly;
    for seq in 0..100 {
        queue.push(make_frame(seq));
    }
    while let SendTurn::Dropped =
        l.turn(&mut queue, &mut tap, &mut chain, ns, false, false, true, true)
    {}
    queue.push(make_frame(999));
    match l.turn(&mut queue, &mut tap, &mut chain, ns, false, false, false, true) {
        SendTurn::Process { frame } => assert_eq!(frame[0], 999, "should get the fresh frame"),
        _ => panic!("must send"),
    }
    assert!(queue.pop().is_none(), "no stale frames remain");
}

#[test]
fn denoiser_lags_one_frame_at_most() {
    for size in [EnhancerSize::Small, EnhancerSize::Medium] {
        let mut q: EnhancerQueue<i16> = EnhancerQueue::new(size.frame_size());
        for turn in 0..20 {
            q.accept(&make_frame(turn));
            while let Some(block) = q.next_input() {
                assert_eq!(block.len(), size.frame_size());
                q.denoised(&block);
            }
            let out = q.emit(960);
            let waiting = q.input.buf.len() + q.output.buf.len();
            assert!(waiting == 0 || waiting == 960);
            assert_eq!(out.len() % 960, 0);
        }
    }
}

#[test]
fn mixing_sums_and_clamps() {
    assert_eq!(mix(&Vec::new()), vec![0i16; 960]);
    let a = vec![100i16; 960];
    let b = vec![30_000i16; 480];
    let c = vec![5_000i16; 960];
    let m = mix(&vec![a.clone(), b.clone(), c.clone()]);
    assert_eq!(m[0], 32_767);
    assert_eq!(m[480], 5_100);
    assert_eq!(mix(&vec![c, b, a.clone()]), m);
    assert_eq!(mix(&vec![a.clone()]), a);
    let mut pcm = vec![1i16; 900];
    append_pull(&mut pcm, &[2; 480]);
    assert_eq!(pcm.len(), 960);
    assert_eq!(pcm[900], 2);
}

#[test]
fn captured_samples_become_frames() {
    assert_eq!(CLOCK_RATE, 48_000);
    assert_eq!(downmix(&[1, 2, 3, 4, 5], 2), vec![1, 3, 5]);
    let mut acc: BlockQueue<i16> = BlockQueue::new();
    let stereo: Vec<i16> = (0..1000).flat_map(|i| [i as i16, -1]).collect();
    let frames = feed(&mut acc, &stereo, 2);
    assert_eq!(frames.len(), 1);
    assert_eq!(frames[0], (0..960).collect::<Vec<i16>>());
    assert_eq!(acc.buf, (960..1000).collect::<Vec<i16>>());
    // No data, no frames: not even one that waits already.
    let mut full: BlockQueue<i16> = BlockQueue::new();
    full.push_all(&[5; 970]);
    assert!(feed(&mut full, &[], 1).is_empty());
    assert!(feed(&mut full, &[], 0).is_empty());
    assert_eq!(full.buf.len(), 970);
    assert_eq!(feed(&mut full, &[5], 1), vec![vec![5i16; 960]]);
    assert_eq!(full.buf.len(), 11);
    let mut left = 10_000usize;
    let mut total = 0usize;
    while left > 0 {
        let n = next_chunk_len(left, 3);
        assert!(n > 0);
        total += n;
        left -= n;
    }
    assert_eq!(total, 10_000);
}

#[test]
fn recordings_loop() {
    let mut w = WavFeed::new((0..2000).map(|i| i as i16).collect());
    assert_eq!(w.next_frame()[0], 0);
    assert_eq!(w.next_frame()[0], 960);
    assert_eq!(w.next_frame()[0], 0);
}

#[test]
fn wav_round_trip() {
    let pcm: Vec<i16> = vec![0, 1, -1, i16::MAX, i16::MIN, 300];
    let bytes = wav_bytes(&pcm);
    assert_eq!(bytes.len(), 44 + 12);
    assert_eq!(&bytes[..4], b"RIFF");
    assert!(wav_complete(&bytes));
    assert_eq!(pcm_after_header(&bytes), pcm);
    assert_eq!(load_wav_pcm(&bytes), Ok(pcm));
}

#[test]
fn wav_errors() {
    assert_eq!(load_wav_pcm(b"nope"), Err(WavError::NotRiff));
    assert_eq!(WavError::NotRiff.message("x"), "not a RIFF/WAV file");
    assert_eq!(load_wav_pcm(b"RIFF\x04\0\0\0WAVE"), Err(WavError::NoPcm));
    assert_eq!(WavError::NoPcm.message("a.wav"), "no PCM data found in a.wav (need 16-bit)");
    let mut cut = wav_bytes(&[1, 2, 3]);
    cut.truncate(46);
    assert!(!wav_complete(&cut));
    assert!(!wav_complete(b"RI"));
}

#[test]
fn input_configuration_is_picked() {
    let range = |format, min_rate, max_rate, channels| InputRange { format, min_rate, max_rate, channels };
    let configs = vec![
        range(SampleFormat::Other, 8_000, 96_000, 1),
        range(SampleFormat::F32, 8_000, 44_100, 1),
        range(SampleFormat::I16, 8_000, 48_000, 2),
        range(SampleFormat::F32, 48_000, 48_000, 1),
    ];
    assert_eq!(pick_input_config(&configs), Some(3));
    assert_eq!(pick_input_config(&configs[..3].to_vec()), Some(2));
    assert_eq!(pick_input_config(&configs[..2].to_vec()), None);
}

#[test]
fn mix_formats_are_read() {
    let mix = |tag, bits, sub| MixFormat { rate: 48_000, channels: 2, tag, bits, sub };
    assert_eq!(parse_format(mix(3, 32, SubFormat::Other)), Ok((48_000, 2, RawFormat::F32)));
    assert_eq!(parse_format(mix(1, 16, SubFormat::Other)), Ok((48_000, 2, RawFormat::I16)));
    assert_eq!(parse_format(mix(65_534, 32, SubFormat::IeeeFloat)), Ok((48_000, 2, RawFormat::F32)));
    let e = parse_format(mix(65_534, 24, SubFormat::Pcm)).unwrap_err();
    assert_eq!(e, FormatError::Extensible { bits: 24 });
    assert_eq!(e.message(), "unsupported extensible mic format (24)");
    let e = parse_format(mix(1, 24, SubFormat::Pcm)).unwrap_err();
    assert_eq!(e.message(), "unsupported mic format tag 1");
    let e = parse_format(MixFormat { rate: 0, channels: 2, tag: 1, bits: 16, sub: SubFormat::Pcm }).unwrap_err();
    assert_eq!(e.message(), "bad mix format: rate=0 ch=2");
}

#[test]
fn raw_buffers() {
    assert_eq!(raw_step(0, 2, true, true), RawStep::Skip);
    assert_eq!(raw_step(10, 2, true, false), RawStep::Silence(20));
    assert_eq!(raw_step(10, 2, false, true), RawStep::Samples(20));
    assert_eq!(raw_step(10, 2, false, false), RawStep::Skip);
    assert_eq!(zero_samples(3), vec![0, 0, 0]);
}
