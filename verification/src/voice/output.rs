//! Playback: a bounded ring of device-rate samples, drained by the device.
use vstd::prelude::*;

use crate::voice::frames::BlockQueue;

verus! {

/// The playout buffer of an open output device.
pub struct OutputState {
    /// Device-rate mono samples that wait to be played.
    pub buf: BlockQueue<i16>,
    /// Channels of the device.
    pub channels: usize,
    /// Device-rate samples of a 20 ms frame.
    pub frame_size: usize,
    /// Samples shed because they could not be played in time.
    pub dropped_samples: u64,
}

impl OutputState {
    /// The buffer of a device with a sample rate and a channel count.
    pub fn for_device(rate: u32, channels: usize) -> (r: Self)
        ensures
            r.buf.buf@ == Seq::<i16>::empty(),
            r.channels == channels,
            r.frame_size == (if rate < 50 {
                1
            } else {
                rate as int / 50
            }),
            r.dropped_samples == 0,
    {
        let size: u64 = rate as u64 * 960 / 48_000;
        assert(size == rate as int / 50) by (nonlinear_arith)
            requires
                size == rate as int * 960 / 48000,
        ;
        let frame_size: usize = if size < 1 {
            1
        } else {
            size as usize
        };
        OutputState { buf: BlockQueue::new(), channels, frame_size, dropped_samples: 0 }
    }

    /// How many samples may wait: four frames.
    pub open spec fn room(&self) -> int {
        if self.frame_size * 4 <= usize::MAX {
            self.frame_size * 4
        } else {
            usize::MAX as int
        }
    }
}

/// The samples of a buffer with room for `room`: the newest ones.
pub open spec fn newest(s: Seq<i16>, room: int) -> Seq<i16> {
    if s.len() > room {
        s.skip(s.len() - room)
    } else {
        s
    }
}

/// Channels of a device, at least one.
pub open spec fn at_least_one(channels: usize) -> int {
    if channels >= 1 {
        channels as int
    } else {
        1
    }
}

/// How many samples a device buffer of `len` values takes from `held` ones.
pub open spec fn taken(len: int, channels: usize, held: int) -> int {
    if len / at_least_one(channels) <= held {
        len / at_least_one(channels)
    } else {
        held
    }
}

/// Whether draining the sink `a` into a device buffer of `len` values leaves `b`,
/// fills the buffer with `out` and plays `played`: every waiting sample goes to all
/// channels, in order, and silence follows.
pub open spec fn drained(
    a: AudioOutput,
    b: AudioOutput,
    len: int,
    out: Seq<i16>,
    played: Seq<i16>,
) -> bool {
    &&& b.enabled == a.enabled
    &&& b.render_tap == a.render_tap
    &&& out.len() == len
    &&& match (a.state, b.state) {
        (Some(x), Some(y)) => {
            let n = taken(len, x.channels, x.buf.buf@.len() as int);
            let ch = at_least_one(x.channels);
            &&& played == x.buf.buf@.take(n)
            &&& y.buf.buf@ == x.buf.buf@.skip(n)
            &&& y.channels == x.channels
            &&& y.frame_size == x.frame_size
            &&& y.dropped_samples == x.dropped_samples
            &&& forall|i: int|
                0 <= i < len ==> #[trigger] out[i] == (if i / ch < n {
                    x.buf.buf@[i / ch]
                } else {
                    0i16
                })
        },
        (None, None) => {
            &&& played.len() == 0
            &&& forall|i: int| 0 <= i < len ==> #[trigger] out[i] == 0
        },
        _ => false,
    }
}

/// The sink of a session: what the device plays, and what the echo canceller is
/// told that it played.
pub struct AudioOutput {
    pub state: Option<OutputState>,
    /// When false, the device plays silence.
    pub enabled: bool,
    /// Samples that were played, for the echo canceller.
    pub render_tap: BlockQueue<i16>,
}

impl AudioOutput {
    /// A sink without a device.
    pub fn new() -> (r: Self)
        ensures
            r.state is None,
            r.enabled,
            r.render_tap.buf@ == Seq::<i16>::empty(),
    {
        AudioOutput { state: None, enabled: true, render_tap: BlockQueue::new() }
    }

    /// Lets the device play, or silences it; silencing drops what waits.
    pub fn set_enabled(&mut self, enabled: bool)
        ensures
            final(self).enabled == enabled,
            final(self).render_tap == old(self).render_tap,
            final(self).state is Some == old(self).state is Some,
            final(self).state matches Some(b) ==> {
                let a = old(self).state->0;
                &&& b.buf.buf@ == if enabled {
                    a.buf.buf@
                } else {
                    Seq::<i16>::empty()
                }
                &&& b.channels == a.channels
                &&& b.frame_size == a.frame_size
                &&& b.dropped_samples == a.dropped_samples
            },
    {
        self.enabled = enabled;
        if !enabled {
            match self.state.take() {
                Some(st) => {
                    let mut st: OutputState = st;
                    st.buf = BlockQueue::new();
                    self.state = Some(st);
                },
                None => {},
            }
        }
    }

    /// Appends device-rate samples. Latency stays bounded: past four frames the
    /// oldest samples are shed and counted.
    pub fn push(&mut self, frame: &[i16])
        requires
            old(self).state matches Some(st) ==> st.dropped_samples + st.buf.buf@.len()
                + frame@.len() - newest(st.buf.buf@ + frame@, st.room()).len() <= u64::MAX,
        ensures
            pushed(*old(self), frame@, *final(self)),
    {
        match self.state.take() {
            Some(st) => {
                let mut st: OutputState = st;
                st.buf.push_all(frame);
                let room: usize = if st.frame_size <= usize::MAX / 4 {
                    st.frame_size * 4
                } else {
                    usize::MAX
                };
                let len: usize = st.buf.buf.len();
                if len > room {
                    let excess: usize = len - room;
                    st.dropped_samples = st.dropped_samples + excess as u64;
                    let _shed: Vec<i16> = st.buf.take_front(excess);
                }
                self.state = Some(st);
            },
            None => {},
        }
    }

    /// How many whole frames wait, and how many samples were shed.
    pub fn stats(&self) -> (r: (usize, u64))
        ensures
            match self.state {
                Some(st) => {
                    &&& r.0 == st.buf.buf@.len() as int / (if st.frame_size >= 1 {
                        st.frame_size as int
                    } else {
                        1
                    })
                    &&& r.1 == st.dropped_samples
                },
                None => r == (0usize, 0u64),
            },
    {
        match &self.state {
            Some(st) => {
                let size: usize = if st.frame_size >= 1 {
                    st.frame_size
                } else {
                    1
                };
                (st.buf.buf.len() / size, st.dropped_samples)
            },
            None => (0, 0),
        }
    }

    /// Fills a device buffer of interleaved samples: every waiting sample goes to
    /// all channels, in order, and silence follows. Returns the mono samples that
    /// were played, at the device rate.
    pub fn drain_into(&mut self, out: &mut Vec<i16>) -> (r: Vec<i16>)
        ensures
            drained(*old(self), *final(self), old(out)@.len() as int, final(out)@, r@),
    {
        let len: usize = out.len();
        match self.state.take() {
            Some(st) => {
                let mut st: OutputState = st;
                let ch: usize = if st.channels >= 1 {
                    st.channels
                } else {
                    1
                };
                let held: usize = st.buf.buf.len();
                let frames: usize = len / ch;
                let n: usize = if frames <= held {
                    frames
                } else {
                    held
                };
                let played: Vec<i16> = st.buf.take_front(n);
                let mut i: usize = 0;
                while i < len
                    invariant
                        len == out@.len(),
                        ch >= 1,
                        n == played@.len(),
                        i <= len,
                        forall|k: int|
                            0 <= k < i ==> #[trigger] out@[k] == (if k / ch as int >= n {
                                0i16
                            } else {
                                played@[k / ch as int]
                            }),
                    decreases len - i,
                {
                    let f: usize = i / ch;
                    if f < n {
                        out.set(i, played[f]);
                    } else {
                        out.set(i, 0);
                    }
                    i = i + 1;
                }
                self.state = Some(st);
                proof {
                    let a = old(self).state->0;
                    assert forall|k: int| 0 <= k < out@.len() implies #[trigger] out@[k] == (if k
                        / (ch as int) < n {
                        a.buf.buf@[k / ch as int]
                    } else {
                        0i16
                    }) by {
                        vstd::arithmetic::div_mod::lemma_div_pos_is_pos(k, ch as int);
                    }
                }
                played
            },
            None => {
                silence(out);
                Vec::new()
            },
        }
    }

    /// One callback of the device: what waits while enabled, else silence.
    /// Returns the mono samples that were played.
    pub fn play(&mut self, out: &mut Vec<i16>) -> (r: Vec<i16>)
        ensures
            if old(self).enabled {
                drained(*old(self), *final(self), old(out)@.len() as int, final(out)@, r@)
            } else {
                &&& *final(self) == *old(self)
                &&& r@.len() == 0
                &&& final(out)@ == Seq::new(old(out)@.len(), |i: int| 0i16)
            },
    {
        if self.enabled {
            self.drain_into(out)
        } else {
            silence(out);
            Vec::new()
        }
    }

    /// Hands played samples, at 48 kHz, to the echo canceller's queue.
    pub fn tap(&mut self, played: &[i16])
        ensures
            final(self).render_tap.buf@ == old(self).render_tap.buf@ + played@,
            final(self).enabled == old(self).enabled,
            final(self).state == old(self).state,
    {
        self.render_tap.push_all(played);
    }
}

/// Fills a buffer with silence.
fn silence(out: &mut Vec<i16>)
    ensures
        final(out)@.len() == old(out)@.len(),
        forall|i: int| 0 <= i < final(out)@.len() ==> #[trigger] final(out)@[i] == 0,
{
    let len: usize = out.len();
    let mut i: usize = 0;
    while i < len
        invariant
            len == out@.len(),
            len == old(out)@.len(),
            i <= len,
            forall|k: int| 0 <= k < i ==> #[trigger] out@[k] == 0,
        decreases len - i,
    {
        out.set(i, 0);
        i = i + 1;
    }
}

/// Played samples that the echo canceller's queue holds before it overflows: half a
/// second.
pub const RENDER_CAP: usize = 24000;

/// What the echo canceller is told in one go: the queue is emptied, and only the
/// newest half second is kept.
pub fn take_render(tap: &mut BlockQueue<i16>) -> (r: Vec<i16>)
    ensures
        r@ == newest(old(tap).buf@, RENDER_CAP as int),
        final(tap).buf@ == Seq::<i16>::empty(),
{
    let len: usize = tap.buf.len();
    if len > RENDER_CAP {
        let _shed: Vec<i16> = tap.take_front(len - RENDER_CAP);
    }
    let rest: usize = tap.buf.len();
    let ghost held = tap.buf@;
    let r: Vec<i16> = tap.take_front(rest);
    assert(r@ =~= held);
    assert(tap.buf@ =~= Seq::<i16>::empty());
    r
}

/// What pushing device-rate samples does to a sink: without a device nothing, else
/// the newest samples stay, as many as there is room for, and the others are counted
/// as shed.
pub open spec fn pushed(a: AudioOutput, frame: Seq<i16>, b: AudioOutput) -> bool {
    &&& b.enabled == a.enabled
    &&& b.render_tap == a.render_tap
    &&& match (a.state, b.state) {
        (Some(x), Some(y)) => {
            let all = x.buf.buf@ + frame;
            &&& y.buf.buf@ == newest(all, x.room())
            &&& y.dropped_samples == x.dropped_samples + (all.len() - y.buf.buf@.len())
            &&& y.channels == x.channels
            &&& y.frame_size == x.frame_size
        },
        (None, None) => true,
        _ => false,
    }
}

/// Playout latency is bounded whatever is pushed: at most four frames wait after a
/// push, they are the newest samples in their order, and exactly the others are
/// counted as shed. A sink without a device stays as it is.
pub proof fn law_playout_bounded(a: AudioOutput, frame: Seq<i16>, b: AudioOutput)
    requires
        pushed(a, frame, b),
    ensures
        match a.state {
            Some(x) => {
                let all = x.buf.buf@ + frame;
                let kept = if all.len() <= x.room() {
                    all.len() as int
                } else {
                    x.room()
                };
                &&& b.state matches Some(y)
                &&& y.buf.buf@ == all.skip(all.len() - kept)
                &&& y.buf.buf@.len() == kept
                &&& kept <= 4 * x.frame_size
                &&& y.dropped_samples == x.dropped_samples + (all.len() - kept)
            },
            None => b == a,
        },
{
    if let Some(x) = a.state {
        let all = x.buf.buf@ + frame;
        assert(all.skip(0) =~= all);
    }
}

/// A device plays at its own speed however many channels it has: sample `f` of
/// the queue stands in every channel of device frame `f`, and nowhere else.
pub proof fn law_channels_share_sample(f: int, c: int, channels: usize)
    requires
        0 <= f,
        0 <= c < at_least_one(channels),
    ensures
        (f * at_least_one(channels) + c) / at_least_one(channels) == f,
{
    let ch = at_least_one(channels);
    vstd::arithmetic::div_mod::lemma_fundamental_div_mod_converse(f * ch + c, ch, f, c);
}

/// Values of one device frame: one for each channel, and one where a device names none.
pub open spec fn width_of(channels: usize) -> int {
    if channels == 0 {
        1
    } else {
        channels as int
    }
}

/// A device of several channels plays each waiting sample in all channels of one
/// device frame, in order, and silence behind them; what was not played still waits,
/// and what was played is told.
pub proof fn law_device_plays_in_order(
    a: &mut AudioOutput,
    out: &mut Vec<i16>,
    played: Vec<i16>,
    f: int,
    c: int,
)
    requires
        call_ensures(AudioOutput::drain_into, (a, out), played),
        old(a).state is Some,
        0 <= c < width_of(old(a).state->0.channels),
        0 <= f,
        (f + 1) * width_of(old(a).state->0.channels) <= old(out)@.len(),
    ensures
        ({
            let held = old(a).state->0.buf.buf@;
            let ch = width_of(old(a).state->0.channels);
            &&& final(out)@.len() == old(out)@.len()
            &&& f < held.len() ==> final(out)@[f * ch + c] == held[f] && played@[f] == held[f]
            &&& f >= held.len() ==> final(out)@[f * ch + c] == 0
            &&& final(a).state matches Some(st)
            &&& played@ + st.buf.buf@ == held
            &&& played@.len() <= held.len()
            &&& st.dropped_samples == old(a).state->0.dropped_samples
            &&& st.channels == old(a).state->0.channels
            &&& st.frame_size == old(a).state->0.frame_size
            &&& final(a).enabled == old(a).enabled
            &&& final(a).render_tap == old(a).render_tap
        }),
{
    let st = old(a).state->0;
    let held = st.buf.buf@;
    let ch = width_of(st.channels);
    let len = old(out)@.len() as int;
    vstd::arithmetic::mul::lemma_mul_is_distributive_add_other_way(ch, f, 1);
    assert((f + 1) * ch == f * ch + ch);
    vstd::arithmetic::mul::lemma_mul_nonnegative(f, ch);
    vstd::arithmetic::div_mod::lemma_fundamental_div_mod_converse(f * ch + c, ch, f, c);
    vstd::arithmetic::div_mod::lemma_div_is_ordered((f + 1) * ch, len, ch);
    vstd::arithmetic::div_mod::lemma_div_by_multiple(f + 1, ch);
    let n = taken(len, st.channels, held.len() as int);
    assert(len / ch >= f + 1);
    vstd::arithmetic::div_mod::lemma_div_pos_is_pos(len, ch);
    assert(held.take(n) + held.skip(n) =~= held);
    assert(0 <= f * ch + c < len);
}

/// Samples that fit are played as they were pushed; past four frames only the newest
/// four frames wait, and what was shed is counted.
pub proof fn law_push_keeps_newest(a: &mut AudioOutput, frame: &[i16], i: int)
    requires
        call_ensures(AudioOutput::push, (a, frame), ()),
        old(a).state is Some,
        4 * old(a).state->0.frame_size <= usize::MAX,
    ensures
        ({
            let x = old(a).state->0;
            let all = x.buf.buf@ + frame@;
            let most = 4 * x.frame_size as int;
            &&& final(a).state matches Some(y)
            &&& y.buf.buf@.len() == (if all.len() <= most {
                all.len() as int
            } else {
                most
            })
            &&& 0 <= i < y.buf.buf@.len() ==> y.buf.buf@[i] == all[all.len() - y.buf.buf@.len() + i]
            &&& y.dropped_samples - x.dropped_samples == all.len() - y.buf.buf@.len()
            &&& y.channels == x.channels && y.frame_size == x.frame_size
            &&& final(a).enabled == old(a).enabled
            &&& final(a).render_tap == old(a).render_tap
        }),
{
}

/// A silenced sink plays silence and keeps nothing: what waited is not heard when it
/// is let play again.
pub proof fn law_silenced_sink(
    a: &mut AudioOutput,
    b: &mut AudioOutput,
    c: &mut AudioOutput,
    quiet: &mut Vec<i16>,
    later: &mut Vec<i16>,
    x: Vec<i16>,
    y: Vec<i16>,
    d: &mut AudioOutput,
    i: int,
)
    requires
        call_ensures(AudioOutput::set_enabled, (a, false), ()),
        *old(b) == *final(a),
        call_ensures(AudioOutput::play, (b, quiet), x),
        *old(c) == *final(b),
        call_ensures(AudioOutput::set_enabled, (c, true), ()),
        *old(d) == *final(c),
        call_ensures(AudioOutput::play, (d, later), y),
        old(a).state is Some ==> old(a).state->0.channels >= 1,
    ensures
        x@.len() == 0 && y@.len() == 0,
        final(quiet)@.len() == old(quiet)@.len(),
        0 <= i < old(quiet)@.len() ==> final(quiet)@[i] == 0,
        0 <= i < old(later)@.len() ==> final(later)@[i] == 0,
        final(d).enabled,
{
    if old(d).state is Some {
        let st = old(d).state->0;
        assert(st.buf.buf@.len() == 0);
        vstd::arithmetic::div_mod::lemma_div_pos_is_pos(
            old(later)@.len() as int,
            st.channels as int,
        );
        if 0 <= i < old(later)@.len() {
            vstd::arithmetic::div_mod::lemma_div_pos_is_pos(i, st.channels as int);
        }
    }
}

/// The echo canceller is told what was played, in order: at most half a second, the
/// newest, and each sample once.
pub proof fn law_render_told_once(
    a: &mut AudioOutput,
    played: &[i16],
    tap: &mut BlockQueue<i16>,
    r: Vec<i16>,
    i: int,
)
    requires
        call_ensures(AudioOutput::tap, (a, played), ()),
        *old(tap) == final(a).render_tap,
        call_ensures(take_render, (tap,), r),
    ensures
        ({
            let all = old(a).render_tap.buf@ + played@;
            &&& final(a).render_tap.buf@ == all
            &&& r@.len() == (if all.len() <= 24000 {
                all.len() as int
            } else {
                24000
            })
            &&& 0 <= i < r@.len() ==> r@[i] == all[all.len() - r@.len() + i]
            &&& final(tap).buf@.len() == 0
        }),
        final(a).state == old(a).state,
{
}

/// A frame of a device is 20 ms of its rate, at least one sample; a new buffer is
/// empty and has shed nothing.
pub proof fn law_device_frame(rate: u32, channels: usize, r: OutputState)
    requires
        call_ensures(OutputState::for_device, (rate, channels), r),
    ensures
        rate >= 50 ==> r.frame_size * 50 <= rate && rate < (r.frame_size + 1) * 50,
        r.frame_size >= 1,
        r.channels == channels,
        r.buf.buf@.len() == 0,
        r.dropped_samples == 0,
{
}

/// The statistics count whole frames that wait and samples that were shed; a sink
/// without a device has none of either.
pub proof fn law_statistics(a: &AudioOutput, r: (usize, u64), fresh: AudioOutput)
    requires
        call_ensures(AudioOutput::stats, (a,), r),
        call_ensures(AudioOutput::new, (), fresh),
    ensures
        a.state is None ==> r.0 == 0 && r.1 == 0,
        a.state matches Some(st) ==> r.1 == st.dropped_samples,
        a.state matches Some(st) ==> (st.frame_size >= 1 ==> r.0 * st.frame_size
            <= st.buf.buf@.len() < (r.0 + 1) * st.frame_size),
        fresh.state is None && fresh.enabled,
{
    if let Some(st) = a.state {
        if st.frame_size >= 1 {
            let n = st.buf.buf@.len() as int;
            let f = st.frame_size as int;
            vstd::arithmetic::div_mod::lemma_fundamental_div_mod(n, f);
            vstd::arithmetic::div_mod::lemma_mod_bound(n, f);
            assert((n / f + 1) * f == f * (n / f) + f) by (nonlinear_arith);
            assert(n / f * f == f * (n / f)) by (nonlinear_arith);
        }
    }
}

} // verus!
