//! Playback: the output ring and the echo canceller's tap.
use lumen::voice::frames::{BlockQueue, FRAME_SAMPLES};
use lumen::voice::output::{take_render, AudioOutput, OutputState};

fn output(channels: usize) -> AudioOutput {
    let mut output = AudioOutput::new();
    output.state = Some(OutputState {
        buf: BlockQueue::new(),
        channels,
        frame_size: FRAME_SAMPLES,
        dropped_samples: 0,
    });
    output
}

#[test]
fn output_expands_mono_to_stereo_without_chipmunk() {
    // Mono PCM written sequentially into an interleaved stereo buffer would play
    // each channel at 2x speed. drain_into must duplicate every mono sample into
    // both channels.
    let mut output = output(2);
    let frame: Vec<i16> = (0..FRAME_SAMPLES as i16).collect();
    output.push(&frame);
    let mut out = vec![0i16; 480 * 2]; // 10 ms of stereo
    output.drain_into(&mut out);
    for f in 0..480 {
        assert_eq!(out[2 * f], f as i16, "left sample of frame {f}");
        assert_eq!(out[2 * f + 1], f as i16, "right sample of frame {f}");
    }
    // The untouched tail stays silent (only 480 frames were drained).
    let mut tail = vec![1i16; 480 * 2];
    output.drain_into(&mut tail);
    assert!(tail[480 * 2..].iter().all(|&v| v == 0) || tail[..480 * 2].iter().all(|&v| v == 0));
}

#[test]
fn output_bounds_playout_latency() {
    // A push/drain imbalance must not let the output ring grow to seconds of
    // stale audio: push() sheds the oldest samples to keep latency bounded to
    // about 4 frames.
    let mut output = output(1);
    let frame: Vec<i16> = (0..FRAME_SAMPLES as i16).collect();
    // Push far more frames than could ever drain (e.g. 30 s of audio).
    for _ in 0..(30 * 50) {
        output.push(&frame);
    }
    let len = output.state.as_ref().unwrap().buf.buf.len();
    assert!(
        len <= FRAME_SAMPLES * 4,
        "output buffer grew to {len} samples (> 80 ms latency)"
    );
    assert_eq!(output.stats(), (4, (30 * 50 - 4) * 960));
}

#[test]
fn output_keeps_the_newest_samples() {
    let mut output = output(1);
    let frame: Vec<i16> = (0..5000).map(|i| i as i16).collect();
    output.push(&frame);
    let held = &output.state.as_ref().unwrap().buf.buf;
    assert_eq!(held[..], frame[5000 - 3840..]);
}

#[test]
fn output_fills_up_with_silence() {
    let mut output = output(2);
    output.push(&[7, 8]);
    let mut out = vec![9i16; 7];
    let played = output.drain_into(&mut out);
    assert_eq!(out, vec![7, 7, 8, 8, 0, 0, 0]);
    assert_eq!(played, vec![7, 8]);
    assert_eq!(output.stats(), (0, 0));
}

#[test]
fn output_without_device_is_silent() {
    let mut output = AudioOutput::new();
    output.push(&[1, 2, 3]);
    let mut out = vec![9i16; 3];
    assert!(output.drain_into(&mut out).is_empty());
    assert_eq!(out, vec![0, 0, 0]);
    assert_eq!(output.stats(), (0, 0));
}

#[test]
fn deafened_output_plays_silence_and_forgets() {
    let mut output = output(1);
    output.push(&[1, 2, 3]);
    output.set_enabled(false);
    let mut out = vec![9i16; 2];
    assert!(output.play(&mut out).is_empty());
    assert_eq!(out, vec![0, 0]);
    output.set_enabled(true);
    let mut out = vec![9i16; 2];
    output.play(&mut out);
    assert_eq!(out, vec![0, 0]);
    output.push(&[4, 5]);
    output.play(&mut out);
    assert_eq!(out, vec![4, 5]);
}

#[test]
fn device_frame_is_twenty_milliseconds() {
    assert_eq!(OutputState::for_device(48_000, 2).frame_size, 960);
    assert_eq!(OutputState::for_device(44_100, 2).frame_size, 882);
    assert_eq!(OutputState::for_device(10, 1).frame_size, 1);
}

#[test]
fn render_tap_keeps_half_a_second() {
    let mut output = AudioOutput::new();
    let long: Vec<i16> = (0..24_010).map(|i| (i % 100) as i16).collect();
    output.tap(&long);
    let render = take_render(&mut output.render_tap);
    assert_eq!(render[..], long[10..]);
    assert!(take_render(&mut output.render_tap).is_empty());
}
