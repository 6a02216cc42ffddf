//! The jitter buffer.
use lumen::voice::frames::FRAME_SAMPLES;
use lumen::voice::jitter::JitterBuffer;

#[test]
fn jitter_orders_waits_and_plc() {
    let mut jb = JitterBuffer::new(3);
    let payload = |i: usize| vec![i as u8; 10];
    // Arrive out of order; frame 2 is late (after 3).
    jb.push(3, 3 * 960, payload(3));
    jb.push(1, 1 * 960, payload(1));
    jb.push(4, 4 * 960, payload(4));
    jb.push(0, 0, payload(0));
    // Only 4 frames (0,1,3,4): newest 4*960, oldest 0, target 2880:
    // five frames lie between oldest and newest, so playout starts at 0.
    assert!(matches!(jb.pop(), Some(Some((0, _)))));
    assert!(matches!(jb.pop(), Some(Some((960, _)))));
    // Frame 2 not arrived yet: conceal.
    assert!(matches!(jb.pop(), Some(None)));
    // Frame 2 arrives late: it must be dropped (its ts < play cursor).
    jb.push(2, 2 * 960, payload(2));
    assert!(matches!(jb.pop(), Some(Some((2880, _)))));
    assert!(matches!(jb.pop(), Some(Some((3840, _)))));
    // Nothing left to play: keep waiting (not concealing, just idle).
    assert!(jb.pop().is_none());
    assert_eq!(jb.dropped(), 1);
}

#[test]
fn jitter_waits_for_target() {
    let mut jb = JitterBuffer::new(3);
    jb.push(0, 0, vec![0]);
    // Only one frame buffered: not enough to start.
    assert!(jb.pop().is_none());
}

#[test]
fn jitter_starts_with_its_target_of_frames() {
    let mut jb = JitterBuffer::new(2);
    jb.push(0, 0, vec![7]);
    assert!(jb.pop().is_none());
    jb.push(1, 960, vec![8]);
    assert_eq!(jb.pop(), Some(Some((0, vec![7]))));
    assert_eq!(jb.pop(), Some(Some((960, vec![8]))));
    assert!(jb.pop().is_none());

    let mut jb = JitterBuffer::new(3);
    jb.push(0, 0, vec![7]);
    jb.push(1, 960, vec![8]);
    assert!(jb.pop().is_none());
    jb.push(2, 1920, vec![9]);
    assert_eq!(jb.pop(), Some(Some((0, vec![7]))));
}

#[test]
fn jitter_never_plays_a_late_packet() {
    let mut jb = JitterBuffer::new(1);
    jb.push(0, 0, vec![1]);
    jb.push(2, 1920, vec![3]);
    assert_eq!(jb.pop(), Some(Some((0, vec![1]))));
    assert_eq!(jb.pop(), Some(None));
    assert_eq!(jb.dropped(), 0);
    // The frame whose turn has passed is shed and counted.
    jb.push(1, 960, vec![2]);
    assert_eq!(jb.dropped(), 1);
    // One that is still to come is kept, and not counted.
    jb.push(3, 2880, vec![4]);
    assert_eq!(jb.dropped(), 1);
    assert_eq!(jb.pop(), Some(Some((1920, vec![3]))));
    assert_eq!(jb.pop(), Some(Some((2880, vec![4]))));
    assert!(jb.pop().is_none());
    assert_eq!(jb.dropped(), 1);
}

/// 30 seconds of matched-clock audio: push one, pop one. Pending count must
/// stay bounded (no drift).
#[test]
fn jitter_buffer_no_drift_30s() {
    let mut jb = JitterBuffer::new(2);
    let payload = vec![0u8; 50];

    let mut max_pending = 0usize;
    let mut pending_now = 0usize;

    for i in 0u32..1500 {
        let ts = i * FRAME_SAMPLES as u32;
        jb.push(i as u16, ts, payload.clone());
        pending_now += 1;

        match jb.pop() {
            Some(Some(_)) => {
                pending_now -= 1;
            }
            Some(None) => {}
            None => {}
        }
        if pending_now > max_pending {
            max_pending = pending_now;
        }
    }

    assert!(
        max_pending <= 4,
        "jitter buffer pending grew to {max_pending} — drift!"
    );
    assert_eq!(jb.dropped(), 0, "no frames should be dropped");
}

/// Sender runs 1% faster: 1010 pushes for 1000 pops. The 10 extra frames
/// accumulate in pending, bounded by the skew, not growing without limit.
#[test]
fn jitter_buffer_sender_faster_bounded_pending() {
    let mut jb = JitterBuffer::new(2);
    let payload = vec![0u8; 50];

    let mut pushed = 0u32;
    let mut played = 0u32;
    let mut max_pending = 0usize;

    for cycle in 0..10 {
        for _ in 0..101 {
            let ts = pushed * FRAME_SAMPLES as u32;
            jb.push(pushed as u16, ts, payload.clone());
            pushed += 1;
        }
        for _ in 0..100 {
            match jb.pop() {
                Some(Some(_)) => {
                    played += 1;
                }
                Some(None) | None => {}
            }
        }
        let pending = pushed - played - jb.dropped() as u32;
        if pending as usize > max_pending {
            max_pending = pending as usize;
        }
        println!("  cycle {cycle}: pushed {pushed}, played {played}, pending ~{pending}");
    }

    assert!(max_pending <= 20);
    assert!(played >= 990, "should play most frames: got {played}");
}

#[test]
fn jitter_plays_lowest_sequence_of_a_timestamp() {
    let mut jb = JitterBuffer::new(0);
    jb.push(7, 0, vec![7]);
    jb.push(5, 0, vec![5]);
    jb.push(5, 0, vec![55]);
    assert_eq!(jb.pop(), Some(Some((0, vec![5]))));
    assert!(jb.pop().is_none());
}

#[test]
fn jitter_plays_in_order_whatever_came_first() {
    let mut jb = JitterBuffer::new(1);
    let order = [4u32, 0, 3, 1, 2];
    for i in order {
        jb.push(i as u16, i * 960, vec![i as u8]);
    }
    let mut played = Vec::new();
    while let Some(Some((ts, _))) = jb.pop() {
        played.push(ts);
    }
    assert_eq!(played, vec![0, 960, 1920, 2880, 3840]);
}
