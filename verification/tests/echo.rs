//! The echo canceller on ten seconds of signal: an echo is suppressed, and a voice
//! is left alone.
use lumen::voice::suppressor::SonoraAec;

const RATE: usize = 48_000;
const FRAME: usize = 960;
const TOTAL_SAMPLES: usize = RATE * 10;
const MEASURE_SAMPLES: usize = RATE * 5;
const TONE_HZ: f64 = 440.0;
const ECHO_DELAY: usize = 240;
const RENDER_CAP: usize = 7200;

fn far_end_tone() -> Vec<i16> {
    (0..TOTAL_SAMPLES)
        .map(|n| {
            let phase = 2.0 * std::f64::consts::PI * TONE_HZ * n as f64 / RATE as f64;
            (phase.sin() * 0.9 * 32767.0).round() as i16
        })
        .collect()
}

fn echo_only(far: &[i16]) -> Vec<i16> {
    let mut out = vec![0i16; TOTAL_SAMPLES];
    for n in ECHO_DELAY..TOTAL_SAMPLES {
        out[n] = ((far[n - ECHO_DELAY] as i32 * 5) / 10).clamp(-32768, 32767) as i16;
    }
    out
}

fn synthetic_voice_clean() -> Vec<i16> {
    let mut out = Vec::with_capacity(TOTAL_SAMPLES);
    for n in 0..TOTAL_SAMPLES {
        let t = n as f64 / RATE as f64;
        let am = 0.5 + 0.5 * (2.0 * std::f64::consts::PI * 4.0 * t).sin();
        let mut v = 0.0;
        for (k, a) in [(1usize, 0.5f64), (2, 0.35), (3, 0.22), (4, 0.14), (5, 0.09)] {
            v += a * (2.0 * std::f64::consts::PI * 120.0 * k as f64 * t).sin();
        }
        v *= am * 0.28;
        out.push((v * 32767.0).round().clamp(-32768.0, 32767.0) as i16);
    }
    out
}

fn far_noise_alternating() -> Vec<i16> {
    let mut out = Vec::with_capacity(TOTAL_SAMPLES);
    for chunk_idx in 0..TOTAL_SAMPLES / 480 {
        let target_rms: f64 = if chunk_idx % 2 == 0 { 0.0005 } else { 0.002 };
        let mut raw = [0.0f64; 480];
        for j in 0..480 {
            let n = chunk_idx * 480 + j;
            let mut state = (n as u32).wrapping_mul(747796405).wrapping_add(2891336453);
            state = state.wrapping_mul(1103515245).wrapping_add(12345);
            let u = (state >> 16) & 0x7FFF;
            raw[j] = u as f64 / 16383.0 * 2.0 - 1.0;
        }
        let rms_raw = (raw.iter().map(|x| x * x).sum::<f64>() / 480.0).sqrt().max(1e-9);
        let scale = target_rms / rms_raw;
        for &v in &raw {
            out.push((v * scale * 32767.0).round().clamp(-32768.0, 32767.0) as i16);
        }
    }
    out
}

fn goertzel_amp(xs: &[i16], freq: f64) -> f64 {
    let n = xs.len() as f64;
    let w = 2.0 * std::f64::consts::PI * freq / RATE as f64;
    let coeff = 2.0 * w.cos();
    let (mut s1, mut s2) = (0.0, 0.0);
    for &x in xs {
        let s0 = (x as f64 / 32768.0) + coeff * s1 - s2;
        s2 = s1;
        s1 = s0;
    }
    let power: f64 = s1 * s1 + s2 * s2 - coeff * s1 * s2;
    (2.0 * power.sqrt() / n).max(1e-12)
}

fn pearson(a: &[f64], b: &[f64]) -> f64 {
    let n = a.len() as f64;
    if n < 2.0 {
        return 0.0;
    }
    let (mut sa, mut sb, mut saa, mut sbb, mut sab) = (0.0, 0.0, 0.0, 0.0, 0.0);
    for (&x, &y) in a.iter().zip(b) {
        sa += x;
        sb += y;
        saa += x * x;
        sbb += y * y;
        sab += x * y;
    }
    let cov = sab - sa * sb / n;
    let va: f64 = saa - sa * sa / n;
    let vb: f64 = sbb - sb * sb / n;
    cov / (va * vb).sqrt().max(1e-12)
}

fn frame_rms(frame: &[i16]) -> f64 {
    (frame.iter().map(|&x| (x as f64 / 32768.0).powi(2)).sum::<f64>() / FRAME as f64).sqrt()
}

fn pearson_norm_frames(a: &[i16], b: &[i16]) -> f64 {
    assert_eq!(a.len(), b.len());
    let normed = |xs: &[i16]| -> Vec<f64> {
        let mut out = Vec::with_capacity(xs.len());
        for frame in xs.chunks_exact(FRAME) {
            let rms = frame_rms(frame);
            let gain = if rms > 1e-6 { 1.0 / rms } else { 0.0 };
            out.extend(frame.iter().map(|&x| (x as f64 / 32768.0) * gain));
        }
        out
    };
    pearson(&normed(a), &normed(b))
}

fn envelope(xs: &[i16]) -> Vec<f64> {
    xs.chunks_exact(FRAME).map(frame_rms).collect()
}

/// Feeds playback frame by frame, padded to whole frames, each before the captured
/// frame of its time.
fn run_tap(capture: &[i16], far: &[i16]) -> Vec<i16> {
    assert_eq!(capture.len(), far.len());
    let mut aec = SonoraAec::new(48_000);
    let mut tap: Vec<i16> = Vec::new();
    let mut out = Vec::with_capacity(capture.len());
    for (frame, played) in capture.chunks_exact(FRAME).zip(far.chunks_exact(FRAME)) {
        tap.extend_from_slice(played);
        if tap.len() > RENDER_CAP {
            let excess = tap.len() - RENDER_CAP;
            tap.drain(..excess);
            aec = SonoraAec::new(48_000);
        }
        let to_feed = (tap.len() / 480 * 480).min(FRAME);
        let mut render: Vec<i16> = tap.drain(..to_feed).collect();
        render.resize(FRAME, 0);
        for chunk in render.chunks(480) {
            aec.process_render_frame(chunk);
        }
        out.extend(aec.process_capture(frame));
    }
    out
}

#[test]
fn pure_aec_suppresses_tone() {
    let far = far_end_tone();
    let echo = echo_only(&far);
    let out = run_tap(&echo, &far);
    let a_in = goertzel_amp(&echo[TOTAL_SAMPLES - MEASURE_SAMPLES..], TONE_HZ);
    let a_out = goertzel_amp(&out[TOTAL_SAMPLES - MEASURE_SAMPLES..], TONE_HZ);
    let suppression_db = 20.0 * (a_out / a_in).log10();
    assert!(
        suppression_db <= -10.0,
        "the echo should be suppressed by 10 dB, got {suppression_db:.2} dB"
    );
}

#[test]
fn pure_aec_preserves_voice_with_render_fed() {
    let voice = synthetic_voice_clean();
    let far_noise = far_noise_alternating();
    let out = run_tap(&voice, &far_noise);
    let in_win = &voice[TOTAL_SAMPLES - MEASURE_SAMPLES..];
    let out_win = &out[TOTAL_SAMPLES - MEASURE_SAMPLES..];
    let corr_norm = pearson_norm_frames(in_win, out_win);
    let env_corr = pearson(&envelope(in_win), &envelope(out_win));
    assert!(
        corr_norm >= 0.85 || env_corr >= 0.85,
        "the voice should be preserved (corr_norm {corr_norm:.4}, env {env_corr:.4})"
    );
}
