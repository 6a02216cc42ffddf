//! Framing: sample queues that hand out whole blocks, down-mixing, and the chunk
//! sizes of a conversion through a fixed buffer.
use vstd::prelude::*;

verus! {

/// Samples per frame: 20 ms at 48 kHz.
pub const FRAME_SAMPLES: usize = 960;

/// Clock of audio: 48 kHz.
pub const CLOCK_RATE: u32 = 48000;

/// A first-in, first-out queue that hands out whole blocks and keeps the rest.
pub struct BlockQueue<T> {
    pub buf: Vec<T>,
}

impl<T: Copy> BlockQueue<T> {
    /// An empty queue.
    pub fn new() -> (r: Self)
        ensures
            r.buf@ == Seq::<T>::empty(),
    {
        BlockQueue { buf: Vec::new() }
    }

    /// Appends `items`.
    pub fn push_all(&mut self, items: &[T])
        ensures
            final(self).buf@ == old(self).buf@ + items@,
    {
        let n: usize = items.len();
        let mut i: usize = 0;
        assert(self.buf@ =~= old(self).buf@ + items@.take(0));
        while i < n
            invariant
                n == items@.len(),
                i <= n,
                self.buf@ == old(self).buf@ + items@.take(i as int),
            decreases n - i,
        {
            self.buf.push(items[i]);
            i = i + 1;
            assert(old(self).buf@ + items@.take(i as int) =~= (old(self).buf@ + items@.take(
                i - 1,
            )).push(items@[i - 1]));
        }
        assert(items@.take(n as int) =~= items@);
    }

    /// Takes the `n` oldest items out.
    pub fn take_front(&mut self, n: usize) -> (r: Vec<T>)
        requires
            n <= old(self).buf@.len(),
        ensures
            r@ == old(self).buf@.take(n as int),
            final(self).buf@ == old(self).buf@.skip(n as int),
    {
        let rest: Vec<T> = self.buf.split_off(n);
        let mut rest: Vec<T> = rest;
        std::mem::swap(&mut self.buf, &mut rest);
        assert(rest@ =~= old(self).buf@.take(n as int));
        assert(self.buf@ =~= old(self).buf@.skip(n as int));
        rest
    }

    /// Takes one block of `n` items out, where as many are there.
    pub fn take_block(&mut self, n: usize) -> (r: Option<Vec<T>>)
        ensures
            match r {
                Some(block) => {
                    &&& n <= old(self).buf@.len()
                    &&& block@ == old(self).buf@.take(n as int)
                    &&& final(self).buf@ == old(self).buf@.skip(n as int)
                },
                None => {
                    &&& n > old(self).buf@.len()
                    &&& final(self).buf@ == old(self).buf@
                },
            },
    {
        if self.buf.len() < n {
            None
        } else {
            Some(self.take_front(n))
        }
    }

    /// Takes out as many whole blocks of `unit` items as there are, in one piece.
    pub fn take_whole(&mut self, unit: usize) -> (r: Vec<T>)
        requires
            unit > 0,
        ensures
            r@ == old(self).buf@.take(whole_len(old(self).buf@.len() as int, unit as int)),
            final(self).buf@ == old(self).buf@.skip(
                whole_len(old(self).buf@.len() as int, unit as int),
            ),
            final(self).buf@.len() < unit,
            r@.len() % unit as nat == 0,
    {
        let n: usize = self.buf.len();
        proof {
            lemma_whole_len(n as int, unit as int);
        }
        let emit: usize = n / unit * unit;
        self.take_front(emit)
    }
}

/// The largest multiple of `unit` that is at most `n`.
pub open spec fn whole_len(n: int, unit: int) -> int {
    n / unit * unit
}

/// Cutting off a rest leaves at most what was there, and less than a unit behind.
pub(crate) proof fn lemma_whole_len(n: int, unit: int)
    requires
        n >= 0,
        unit > 0,
    ensures
        0 <= whole_len(n, unit) <= n,
        n - whole_len(n, unit) < unit,
        whole_len(n, unit) % unit == 0,
{
    vstd::arithmetic::div_mod::lemma_fundamental_div_mod(n, unit);
    vstd::arithmetic::div_mod::lemma_mod_bound(n, unit);
    vstd::arithmetic::mul::lemma_mul_is_commutative(n / unit, unit);
    vstd::arithmetic::div_mod::lemma_mod_multiples_basic(n / unit, unit);
    vstd::arithmetic::div_mod::lemma_div_pos_is_pos(n, unit);
    vstd::arithmetic::mul::lemma_mul_nonnegative(n / unit, unit);
}

/// Nothing is lost, repeated or reordered: what a queue hands out, followed by
/// what it keeps, is what it held.
pub proof fn law_queue_conserves<T>(held: Seq<T>, n: int)
    requires
        0 <= n <= held.len(),
    ensures
        held.take(n) + held.skip(n) == held,
{
    assert(held.take(n) + held.skip(n) =~= held);
}

/// The blocks of `n` samples that lie whole in `s`, in order.
pub open spec fn blocks(s: Seq<i16>, n: nat) -> Seq<Seq<i16>>
    decreases s.len(),
{
    if n == 0 || s.len() < n {
        Seq::empty()
    } else {
        seq![s.take(n as int)] + blocks(s.skip(n as int), n)
    }
}

/// How many samples whole blocks cover, and that each block has its size.
pub proof fn law_blocks_cover(s: Seq<i16>, n: nat)
    requires
        n > 0,
    ensures
        blocks(s, n).len() == s.len() / n,
        blocks(s, n).len() * n <= s.len() < (blocks(s, n).len() + 1) * n,
        forall|i: int| 0 <= i < blocks(s, n).len() ==> (#[trigger] blocks(s, n)[i]).len() == n,
        forall|i: int, k: int|
            0 <= i < blocks(s, n).len() && 0 <= k < n ==> (#[trigger] blocks(s, n)[i][k]) == s[i * n
                + k],
    decreases s.len(),
{
    if s.len() >= n {
        let t = s.skip(n as int);
        law_blocks_cover(t, n);
        assert((t.len() + n) / n == t.len() / n + 1) by (nonlinear_arith)
            requires
                n > 0,
        ;
        let q = blocks(t, n).len();
        assert((q + 1) * n == q * n + n) by (nonlinear_arith);
        assert((q + 2) * n == (q + 1) * n + n) by (nonlinear_arith);
        assert(blocks(s, n).len() == q + 1);
        assert forall|i: int, k: int|
            0 <= i < blocks(s, n).len() && 0 <= k < n implies (#[trigger] blocks(s, n)[i][k])
            == s[i * n + k] by {
            if i > 0 {
                assert(blocks(s, n)[i] == blocks(t, n)[i - 1]);
                assert((i - 1) * n + n == i * n) by (nonlinear_arith);
                assert(0 <= (i - 1) * n) by (nonlinear_arith)
                    requires
                        i > 0,
                ;
                assert((i - 1) * n <= (q - 1) * n) by (nonlinear_arith)
                    requires
                        i - 1 <= q - 1,
                ;
                assert((q - 1) * n + n == q * n) by (nonlinear_arith);
                assert(t[(i - 1) * n + k] == s[(i - 1) * n + k + n]);
            } else {
                assert(0 * n == 0);
            }
        }
    } else {
        assert(s.len() / n == 0) by (nonlinear_arith)
            requires
                s.len() < n,
        ;
        let q = blocks(s, n).len();
        assert(q * n == 0 && (q + 1) * n == n) by (nonlinear_arith)
            requires
                q == 0,
        ;
    }
}

/// The first channel of interleaved samples: every `channels`-th one.
pub open spec fn first_channel(s: Seq<i16>, channels: int) -> Seq<i16>
    decreases s.len(),
{
    if s.len() == 0 || channels <= 0 {
        Seq::empty()
    } else if s.len() <= channels {
        seq![s[0]]
    } else {
        seq![s[0]] + first_channel(s.skip(channels), channels)
    }
}

/// Down-mixes interleaved samples to the first channel.
pub fn downmix(data: &[i16], channels: usize) -> (r: Vec<i16>)
    requires
        channels > 0,
    ensures
        r@ == first_channel(data@, channels as int),
{
    let mut out: Vec<i16> = Vec::new();
    let n: usize = data.len();
    let mut i: usize = 0;
    assert(data@.skip(0) =~= data@);
    while i < n
        invariant
            n == data@.len(),
            channels > 0,
            i <= n,
            out@ + first_channel(data@.skip(i as int), channels as int) == first_channel(
                data@,
                channels as int,
            ),
        decreases n - i,
    {
        let ghost rest = data@.skip(i as int);
        let ghost before = out@;
        out.push(data[i]);
        assert(rest[0] == data@[i as int]);
        if n - i <= channels {
            assert(before + seq![rest[0]] =~= out@);
            i = n;
            assert(data@.skip(n as int).len() == 0);
            assert(out@ + Seq::<i16>::empty() =~= out@);
        } else {
            assert(rest.skip(channels as int) =~= data@.skip(i + channels));
            assert(before + (seq![rest[0]] + first_channel(
                data@.skip(i + channels),
                channels as int,
            )) =~= out@ + first_channel(data@.skip(i + channels), channels as int));
            i = i + channels;
        }
    }
    assert(out@ + Seq::<i16>::empty() =~= out@);
    out
}

/// Cuts captured samples into frames: down-mixes interleaved data (resampled
/// samples arrive with one channel) and hands out every whole 20 ms frame. Without
/// data nothing happens.
pub fn feed(acc: &mut BlockQueue<i16>, data: &[i16], channels: usize) -> (r: Vec<Vec<i16>>)
    requires
        data@.len() > 0 ==> channels > 0,
    ensures
        if data@.len() == 0 {
            r@.len() == 0 && *final(acc) == *old(acc)
        } else {
            let all = old(acc).buf@ + (if channels == 1 {
                data@
            } else {
                first_channel(data@, channels as int)
            });
            &&& r@.len() == blocks(all, 960).len()
            &&& forall|i: int| 0 <= i < r@.len() ==> (#[trigger] r@[i])@ == blocks(all, 960)[i]
            &&& final(acc).buf@ == all.skip(whole_len(all.len() as int, 960))
        },
{
    let mut out: Vec<Vec<i16>> = Vec::new();
    if data.len() == 0 {
        return out;
    }
    if channels == 1 {
        acc.push_all(data);
    } else {
        let mono: Vec<i16> = downmix(data, channels);
        acc.push_all(mono.as_slice());
    }
    let ghost all = acc.buf@;
    assert(all.skip(0) =~= all);
    let ghost mut done: int = 0;
    while acc.buf.len() >= FRAME_SAMPLES
        invariant
            done == out@.len(),
            0 <= done * 960 <= all.len(),
            acc.buf@ == all.skip(done * 960),
            blocks(all, 960).len() == out@.len() + blocks(acc.buf@, 960).len(),
            forall|i: int| 0 <= i < out@.len() ==> (#[trigger] out@[i])@ == blocks(all, 960)[i],
            forall|i: int|
                0 <= i < blocks(acc.buf@, 960).len() ==> blocks(all, 960)[out@.len() + i]
                    == #[trigger] blocks(acc.buf@, 960)[i],
        decreases acc.buf@.len(),
    {
        let ghost cur = acc.buf@;
        let ghost k = out@.len();
        let frame: Vec<i16> = acc.take_front(FRAME_SAMPLES);
        assert(frame@ == blocks(cur, 960)[0]);
        assert(blocks(all, 960)[k as int + 0] == blocks(cur, 960)[0]);
        out.push(frame);
        proof {
            done = done + 1;
            assert(acc.buf@ =~= all.skip(done * 960));
            assert forall|i: int| 0 <= i < blocks(acc.buf@, 960).len() implies blocks(all, 960)[k
                + 1 + i] == #[trigger] blocks(acc.buf@, 960)[i] by {
                assert(blocks(cur, 960)[i + 1] == blocks(acc.buf@, 960)[i]);
                assert(blocks(all, 960)[k + (i + 1)] == blocks(cur, 960)[i + 1]);
            }
        }
    }
    assert(all.len() as int / 960 == done);
    out
}

/// The length of the next chunk, of `left` samples still to convert, that fits a
/// buffer of 4096 samples: whole groups of `channels` samples, or what is left.
/// Zero ends the conversion.
pub open spec fn chunk_len(left: int, channels: int) -> int {
    let ch = if channels >= 1 {
        channels
    } else {
        1
    };
    let cap = if 4096int / ch * ch >= ch {
        4096int / ch * ch
    } else {
        ch
    };
    if left <= cap {
        left
    } else {
        cap / ch * ch
    }
}

/// The length of the next chunk of a conversion (see `chunk_len`).
pub fn next_chunk_len(left: usize, channels: usize) -> (r: usize)
    ensures
        r == chunk_len(left as int, channels as int),
        r <= left,
        left > 0 ==> r > 0,
        channels <= 4096 ==> r <= 4096,
{
    let ch: usize = if channels >= 1 {
        channels
    } else {
        1
    };
    proof {
        lemma_whole_len(4096, ch as int);
    }
    let fit: usize = 4096 / ch * ch;
    let cap: usize = if fit >= ch {
        fit
    } else {
        ch
    };
    if left <= cap {
        left
    } else {
        proof {
            lemma_whole_len(cap as int, ch as int);
        }
        cap / ch * ch
    }
}

/// A recording that feeds the send path in place of a microphone: frame after
/// frame, from the start again where no whole frame is left.
pub struct WavFeed {
    pub samples: Vec<i16>,
    pub index: usize,
}

impl WavFeed {
    /// The next frame lies whole in the recording.
    pub open spec fn wf(&self) -> bool {
        self.samples@.len() <= usize::MAX && (self.index + 1) * 960 <= self.samples@.len()
    }

    /// How many whole frames the recording has.
    pub open spec fn frames(&self) -> int {
        self.samples@.len() as int / 960
    }

    /// A feed from the start of a recording of at least one frame.
    pub fn new(samples: Vec<i16>) -> (r: Self)
        requires
            samples@.len() >= 960,
        ensures
            r.wf(),
            r.samples == samples,
            r.index == 0,
    {
        assert(samples.len() <= usize::MAX);
        WavFeed { samples, index: 0 }
    }

    /// The current frame; the feed moves on to the next one.
    pub fn next_frame(&mut self) -> (r: Vec<i16>)
        requires
            old(self).wf(),
        ensures
            final(self).wf(),
            final(self).samples == old(self).samples,
            r@ == old(self).samples@.subrange(old(self).index * 960, (old(self).index + 1) * 960),
            final(self).index == (old(self).index + 1) % old(self).frames(),
    {
        let from: usize = self.index * FRAME_SAMPLES;
        let to: usize = from + FRAME_SAMPLES;
        let mut out: Vec<i16> = Vec::new();
        let mut k: usize = from;
        assert(out@ =~= self.samples@.subrange(from as int, from as int));
        while k < to
            invariant
                *self == *old(self),
                from <= k <= to <= self.samples@.len(),
                out@ == self.samples@.subrange(from as int, k as int),
            decreases to - k,
        {
            out.push(self.samples[k]);
            k = k + 1;
            assert(self.samples@.subrange(from as int, k as int) =~= self.samples@.subrange(
                from as int,
                k - 1,
            ).push(self.samples@[k - 1]));
        }
        if self.samples.len() - to < FRAME_SAMPLES {
            self.index = 0;
        } else {
            self.index = self.index + 1;
        }
        proof {
            let n = old(self).frames();
            let i = old(self).index as int;
            if old(self).samples@.len() - to < 960 {
                assert(n == i + 1);
            } else {
                assert(i + 1 < n);
                vstd::arithmetic::div_mod::lemma_small_mod((i + 1) as nat, n as nat);
            }
        }
        out
    }
}

/// Where a feed stands after `steps` frames: the recording loops.
pub open spec fn feed_index(start: int, frames: int, steps: nat) -> int
    decreases steps,
{
    if steps == 0 {
        start
    } else {
        (feed_index(start, frames, (steps - 1) as nat) + 1) % frames
    }
}

/// A recording of `frames` frames loops: the `steps`-th frame from the start is
/// frame `steps` modulo `frames`.
pub proof fn law_wav_loops(frames: int, steps: nat)
    requires
        frames > 0,
    ensures
        feed_index(0, frames, steps) == steps as int % frames,
    decreases steps,
{
    if steps > 0 {
        law_wav_loops(frames, (steps - 1) as nat);
        vstd::arithmetic::div_mod::lemma_add_mod_noop((steps - 1) as int, 1, frames);
        let a = (steps - 1) as int % frames;
        vstd::arithmetic::div_mod::lemma_mod_bound((steps - 1) as int, frames);
        if frames == 1 {
        } else {
            vstd::arithmetic::div_mod::lemma_small_mod(1, frames as nat);
        }
        vstd::arithmetic::div_mod::lemma_add_mod_noop_right(1, (steps - 1) as int, frames);
    } else {
        vstd::arithmetic::div_mod::lemma_small_mod(0, frames as nat);
    }
}

/// A queue gives back what was put in, in order and once: what it hands out and what
/// it keeps are what it held, followed by what came.
pub proof fn law_first_in_first_out<T: Copy>(
    a: &mut BlockQueue<T>,
    items: &[T],
    b: &mut BlockQueue<T>,
    n: usize,
    r: Option<Vec<T>>,
)
    requires
        call_ensures(BlockQueue::<T>::push_all, (a, items), ()),
        *old(b) == *final(a),
        call_ensures(BlockQueue::<T>::take_block, (b, n), r),
    ensures
        r is Some <==> n <= old(a).buf@.len() + items@.len(),
        r matches Some(block) ==> block@.len() == n && block@ + final(b).buf@ == old(a).buf@
            + items@,
        r is None ==> final(b).buf@ == old(a).buf@ + items@,
{
    let all = old(a).buf@ + items@;
    if let Some(block) = r {
        assert(block@ + final(b).buf@ =~= all);
    }
}

/// Taking whole blocks out leaves less than one, and loses nothing.
pub proof fn law_whole_blocks_out<T: Copy>(q: &mut BlockQueue<T>, unit: usize, r: Vec<T>)
    requires
        unit > 0,
        call_ensures(BlockQueue::<T>::take_whole, (q, unit), r),
    ensures
        r@ + final(q).buf@ == old(q).buf@,
        r@.len() % unit as nat == 0,
        final(q).buf@.len() < unit,
{
    lemma_whole_len(old(q).buf@.len() as int, unit as int);
    assert(r@ + final(q).buf@ =~= old(q).buf@);
}

/// Down-mixing takes the first sample of every group of channels, the last group
/// whole or not, and no other.
pub proof fn law_downmix(data: &[i16], channels: usize, r: Vec<i16>, k: int)
    requires
        channels > 0,
        call_ensures(downmix, (data, channels), r),
    ensures
        0 <= k < r@.len() ==> 0 <= k * channels < data@.len() && r@[k] == data@[k * channels],
        (r@.len() - 1) * channels < data@.len() <= r@.len() * channels || data@.len() == 0,
        data@.len() == 0 ==> r@.len() == 0,
        channels == 1 ==> r@ == data@,
{
    lemma_first_channel(data@, channels as int, k);
    if channels == 1 {
        assert forall|i: int| 0 <= i < r@.len() implies r@[i] == data@[i] by {
            lemma_first_channel(data@, 1, i);
        }
        assert(r@ =~= data@);
    }
}

/// [`law_downmix`] over the samples.
pub proof fn lemma_first_channel(s: Seq<i16>, channels: int, k: int)
    requires
        channels > 0,
    ensures
        ({
            let r = first_channel(s, channels);
            &&& 0 <= k < r.len() ==> 0 <= k * channels < s.len() && r[k] == s[k * channels]
            &&& s.len() > 0 ==> (r.len() - 1) * channels < s.len() <= r.len() * channels
            &&& s.len() == 0 ==> r.len() == 0
        }),
    decreases s.len(),
{
    let r = first_channel(s, channels);
    if s.len() > channels {
        let t = s.skip(channels);
        let q = first_channel(t, channels);
        lemma_first_channel(t, channels, k - 1);
        assert(r.len() == q.len() + 1);
        assert((q.len() + 1) * channels == q.len() * channels + channels) by (nonlinear_arith);
        assert((q.len() - 1) * channels == q.len() * channels - channels) by (nonlinear_arith);
        assert((k - 1) * channels == k * channels - channels) by (nonlinear_arith);
        if 0 < k < r.len() {
            assert(r[k] == q[k - 1]);
            assert(t[(k - 1) * channels] == s[k * channels]);
        }
        assert(0 * channels == 0);
    } else if s.len() > 0 {
        assert(r =~= seq![s[0]]);
        assert(0 * channels == 0 && 1 * channels == channels);
        assert((1 - 1) * channels == 0) by (nonlinear_arith);
    }
}

/// Captured sound is cut into frames without losing, repeating or reordering a
/// sample: the frames one behind the other, followed by what is kept, are what was
/// kept before, followed by the new samples; and less than a frame is kept.
pub proof fn law_feed_conserves(
    acc: &mut BlockQueue<i16>,
    data: &[i16],
    r: Vec<Vec<i16>>,
    i: int,
    k: int,
)
    requires
        data@.len() > 0,
        call_ensures(feed, (acc, data, 1usize), r),
    ensures
        ({
            let all = old(acc).buf@ + data@;
            &&& r@.len() * 960 + final(acc).buf@.len() == all.len()
            &&& final(acc).buf@.len() < 960
            &&& 0 <= i < r@.len() ==> r@[i]@.len() == 960
            &&& 0 <= i < r@.len() && 0 <= k < 960 ==> r@[i]@[k] == all[i * 960 + k]
            &&& 0 <= k < final(acc).buf@.len() ==> final(acc).buf@[k] == all[r@.len() * 960 + k]
        }),
{
    let all = old(acc).buf@ + data@;
    law_blocks_cover(all, 960);
    if 0 <= i < r@.len() {
        assert(r@[i]@ == blocks(all, 960)[i]);
    }
}

/// Sound of several channels is cut as its down-mix is; and without data nothing
/// happens.
pub proof fn law_feed_mixes_down(
    a: &mut BlockQueue<i16>,
    data: &[i16],
    channels: usize,
    x: Vec<Vec<i16>>,
    b: &mut BlockQueue<i16>,
    mono: Vec<i16>,
    single: &[i16],
    y: Vec<Vec<i16>>,
    i: int,
)
    requires
        channels > 0,
        *old(b) == *old(a),
        call_ensures(feed, (a, data, channels), x),
        call_ensures(downmix, (data, channels), mono),
        single@ == mono@,
        call_ensures(feed, (b, single, 1usize), y),
    ensures
        final(a).buf@ == final(b).buf@,
        x@.len() == y@.len(),
        0 <= i < x@.len() ==> x@[i]@ == y@[i]@,
        data@.len() == 0 ==> x@.len() == 0 && final(a).buf@ == old(a).buf@,
{
    lemma_first_channel(data@, channels as int, 0);
    if channels == 1 {
        assert forall|i: int| 0 <= i < mono@.len() implies mono@[i] == data@[i] by {
            lemma_first_channel(data@, 1, i);
        }
        assert(mono@ =~= data@);
    }
    if 0 <= i < x@.len() && data@.len() > 0 {
        assert(x@[i]@ == y@[i]@);
    }
}

/// A chunk of a conversion is some of what is left: all of it, or as many whole
/// groups of channels as fit 4096 samples, so that the conversion ends and no group
/// is torn.
pub proof fn law_chunks(left: usize, channels: usize, r: usize)
    requires
        1 <= channels <= 4096,
        call_ensures(next_chunk_len, (left, channels), r),
    ensures
        r <= left,
        r <= 4096,
        r == 0 <==> left == 0,
        r < left ==> r as int % channels as int == 0 && r + channels > 4096,
{
    let ch = channels as int;
    lemma_whole_len(4096, ch);
    let fit = whole_len(4096, ch);
    assert(fit >= ch) by {
        vstd::arithmetic::div_mod::lemma_div_is_ordered(ch, 4096, ch);
        vstd::arithmetic::div_mod::lemma_div_by_self(ch);
        vstd::arithmetic::mul::lemma_mul_inequality(1, 4096int / ch, ch);
    }
    vstd::arithmetic::div_mod::lemma_div_by_multiple(4096int / ch, ch);
}

/// A recording is played frame by frame, each sample in its place, and from the start
/// again where no whole frame is left.
pub proof fn law_recording_plays(a: &mut WavFeed, r: Vec<i16>, k: int)
    requires
        old(a).wf(),
        call_ensures(WavFeed::next_frame, (a,), r),
    ensures
        r@.len() == 960,
        0 <= k < 960 ==> r@[k] == old(a).samples@[old(a).index * 960 + k],
        final(a).samples == old(a).samples,
        (old(a).index + 2) * 960 <= old(a).samples@.len() ==> final(a).index == old(a).index + 1,
        (old(a).index + 2) * 960 > old(a).samples@.len() ==> final(a).index == 0,
{
    let n = old(a).frames();
    let i = old(a).index as int;
    if (i + 2) * 960 <= old(a).samples@.len() {
        assert(i + 1 < n);
        vstd::arithmetic::div_mod::lemma_small_mod((i + 1) as nat, n as nat);
    } else {
        assert(n == i + 1);
        vstd::arithmetic::div_mod::lemma_mod_self_0(n);
    }
}

/// A frame is 20 ms of the clock.
pub proof fn law_frame_length()
    ensures
        FRAME_SAMPLES * 1000 == 20 * CLOCK_RATE,
        CLOCK_RATE == 48000,
{
}

} // verus!
