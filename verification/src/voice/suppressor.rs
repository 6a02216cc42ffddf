//! The send-path signal chain: which stages run, in what order and on which
//! blocks. Echo cancellation runs here; the other stages are numeric and run in
//! the host, which hands their blocks back.
use sonora::config::{DownmixMethod, EchoCanceller, MaxProcessingRate, TransparentModeType};
use vstd::prelude::*;

use crate::voice::frames::BlockQueue;

verus! {

/// Suppression models that a user can choose.
#[derive(Debug, Clone, Copy, PartialEq, Eq, Structural)]
pub enum SuppressorModel {
    /// Noise suppression without a neural denoiser.
    NsOnly,
    /// The small neural denoiser.
    FastEnhancerS,
    /// The medium neural denoiser, the default.
    FastEnhancerM,
}

impl SuppressorModel {
    /// The identifier by which a model is stored.
    pub open spec fn name(self) -> Seq<char> {
        match self {
            SuppressorModel::NsOnly => "ns-only"@,
            SuppressorModel::FastEnhancerS => "fastenhancer-s"@,
            SuppressorModel::FastEnhancerM => "fastenhancer"@,
        }
    }

    pub fn as_str(&self) -> (r: &'static str)
        ensures
            r@ == self.name(),
    {
        match self {
            SuppressorModel::NsOnly => "ns-only",
            SuppressorModel::FastEnhancerS => "fastenhancer-s",
            SuppressorModel::FastEnhancerM => "fastenhancer",
        }
    }

    /// The model with an identifier.
    pub fn parse(s: &str) -> (r: Option<Self>)
        ensures
            r matches Some(m) ==> s@ == m.name(),
            r is None ==> forall|m: SuppressorModel| #![trigger m.name()] s@ != m.name(),
    {
        if *s == *"ns-only" {
            Some(SuppressorModel::NsOnly)
        } else if *s == *"fastenhancer-s" {
            Some(SuppressorModel::FastEnhancerS)
        } else if *s == *"fastenhancer" {
            Some(SuppressorModel::FastEnhancerM)
        } else {
            None
        }
    }

    /// Whether a model can run where the neural denoiser can (`enhancer`), or
    /// cannot.
    pub fn available(&self, enhancer: bool) -> (r: bool)
        ensures
            r == (*self == SuppressorModel::NsOnly || enhancer),
    {
        match self {
            SuppressorModel::NsOnly => true,
            SuppressorModel::FastEnhancerS => enhancer,
            SuppressorModel::FastEnhancerM => enhancer,
        }
    }
}

/// No two models share an identifier, so that a stored one comes back as it was.
pub proof fn law_model_names(a: SuppressorModel, b: SuppressorModel)
    requires
        a.name() == b.name(),
    ensures
        a == b,
{
    reveal_strlit("ns-only");
    reveal_strlit("fastenhancer-s");
    reveal_strlit("fastenhancer");
    assert("ns-only"@.len() == 7);
    assert("fastenhancer-s"@.len() == 14);
    assert("fastenhancer"@.len() == 12);
    assert(a.name().len() == b.name().len());
}

/// What the silence path does with a frame: whether the last silence packet is
/// sent again, and how long the streak of silence is then.
pub open spec fn silence_decision(speech: bool, streak: int, have_pkt: bool) -> (bool, int) {
    if speech {
        (false, 0)
    } else if streak >= 400 {
        (false, 0)
    } else {
        (have_pkt && streak >= 2, streak + 1)
    }
}

/// Decides whether the send loop can send the last encoded silence packet again
/// in place of encoding the frame, and the new length of the streak: the first
/// two frames of silence are encoded, and one every eight seconds.
pub fn silence_reuse_decision(speech: bool, streak: u32, have_pkt: bool) -> (r: (bool, u32))
    ensures
        (r.0, r.1 as int) == silence_decision(speech, streak as int, have_pkt),
{
    if speech {
        return (false, 0);
    }
    let new_streak: u32 = if streak >= 400 {
        0
    } else {
        streak + 1
    };
    if have_pkt && new_streak > 2 && streak < 400 {
        (true, new_streak)
    } else {
        (false, new_streak)
    }
}

/// Speech is encoded at once and ends the streak: an onset is never delayed.
pub proof fn law_speech_encodes_fresh(streak: int, have_pkt: bool)
    ensures
        silence_decision(true, streak, have_pkt) == (false, 0int),
{
}

/// The length of the streak after `n` frames of silence.
pub open spec fn streak_after(n: nat) -> int
    decreases n,
{
    if n == 0 {
        0
    } else {
        silence_decision(false, streak_after((n - 1) as nat), true).1
    }
}

/// The first two frames of silence are encoded, then the packet is sent again,
/// until the encoder runs anew after eight seconds: frame `n` of the silence,
/// counted from 0, reuses the packet exactly when `n` modulo 401 is none of 0, 1
/// and 400.
pub proof fn law_silence_refreshes(n: nat)
    ensures
        streak_after(n) == n as int % 401,
        silence_decision(false, streak_after(n), true).0 == (2 <= n as int % 401 < 400),
    decreases n,
{
    if n > 0 {
        law_silence_refreshes((n - 1) as nat);
    }
}

/// The processor of `sonora`, opaque.
#[verifier::external_type_specification]
#[verifier::external_body]
pub struct ExAudioProcessing(sonora::AudioProcessing);

/// How the echo canceller decides that there is no echo path.
#[derive(Debug, Clone, Copy, PartialEq, Eq, Structural)]
pub enum TransparentMode {
    Legacy,
    Hmm,
}

/// How several capture channels become one.
#[derive(Debug, Clone, Copy, PartialEq, Eq, Structural)]
pub enum CaptureDownmix {
    AverageChannels,
    UseFirstChannel,
}

/// The highest rate at which the echo canceller works inside.
#[derive(Debug, Clone, Copy, PartialEq, Eq, Structural)]
pub enum InternalRate {
    Rate32kHz,
    Rate48kHz,
}

/// What the echo canceller is built with.
#[derive(Debug, Clone, Copy, PartialEq, Eq, Structural)]
pub struct AecSettings {
    pub sample_rate: u32,
    pub channels: u16,
    pub high_pass: bool,
    pub transparent_mode: TransparentMode,
    pub internal_rate: InternalRate,
    pub multi_channel: bool,
    pub downmix: CaptureDownmix,
}

/// One call of the echo canceller.
pub enum AecCall {
    /// A block of playback.
    Render(Seq<i16>),
    /// A block of capture, and the block that came back for it.
    Capture(Seq<i16>, Seq<i16>),
}

/// The blocks that a processor was given, in order, with what it gave back.
pub uninterp spec fn given(p: sonora::AudioProcessing) -> Seq<AecCall>;

/// What a processor was built with.
pub uninterp spec fn built_with(p: sonora::AudioProcessing) -> AecSettings;

/// `sonora::AudioProcessing::builder` and `build`: a processor with an echo
/// canceller alone, built with the settings, that was given nothing yet. Nothing is
/// claimed of its numeric state.
#[verifier::external_body]
fn echo_processor(s: AecSettings) -> (r: sonora::AudioProcessing)
    requires
        8000 <= s.sample_rate <= 48000,
        s.channels == 1,
    ensures
        built_with(r) == s,
        given(r) == Seq::<AecCall>::empty(),
{
    let mut cfg = sonora::Config::default();
    let transparent_mode = match s.transparent_mode { TransparentMode::Legacy => TransparentModeType::Legacy, TransparentMode::Hmm => TransparentModeType::Hmm };
    cfg.echo_canceller = Some(EchoCanceller { enforce_high_pass_filtering: s.high_pass, transparent_mode });
    cfg.pipeline.maximum_internal_processing_rate = match s.internal_rate { InternalRate::Rate48kHz => MaxProcessingRate::Rate48kHz, InternalRate::Rate32kHz => MaxProcessingRate::Rate32kHz };
    cfg.pipeline.multi_channel_render = s.multi_channel;
    cfg.pipeline.multi_channel_capture = s.multi_channel;
    cfg.pipeline.capture_downmix_method = match s.downmix { CaptureDownmix::AverageChannels => DownmixMethod::AverageChannels, CaptureDownmix::UseFirstChannel => DownmixMethod::UseFirstChannel };
    let stream = sonora::StreamConfig::new(s.sample_rate, s.channels);
    sonora::AudioProcessing::builder().config(cfg).capture_config(stream).render_config(stream).build()
}

/// `sonora::AudioProcessing::process_render_i16` on one 10 ms block: the processor
/// is given it as playback. A refusal by the processor is passed over.
#[verifier::external_body]
fn processor_render(p: &mut sonora::AudioProcessing, block: &Vec<i16>)
    requires
        block@.len() == 480,
    ensures
        given(*final(p)) == given(*old(p)).push(AecCall::Render(block@)),
        built_with(*final(p)) == built_with(*old(p)),
{
    let mut out = vec![0i16; block.len()];
    let _ = p.process_render_i16(block, &mut out);
}

/// `sonora::AudioProcessing::process_capture_i16` on one 10 ms block: the processor
/// is given it as capture, and gives back a block of the same length. Its samples
/// come out of adaptive floating-point filters, whose code depends on the machine:
/// that they are what came back is all that is claimed of them.
#[verifier::external_body]
fn processor_capture(p: &mut sonora::AudioProcessing, block: &Vec<i16>) -> (r: Vec<i16>)
    requires
        block@.len() == 480,
    ensures
        r@.len() == block@.len(),
        given(*final(p)) == given(*old(p)).push(AecCall::Capture(block@, r@)),
        built_with(*final(p)) == built_with(*old(p)),
{
    let mut out = vec![0i16; block.len()];
    let _ = p.process_capture_i16(block, &mut out);
    out
}

/// The calls that blocks of playback make, in order.
pub open spec fn render_calls(blocks: Seq<Seq<i16>>) -> Seq<AecCall> {
    blocks.map_values(|b: Seq<i16>| AecCall::Render(b))
}

/// The calls that blocks of capture make, in order, where `cleaned` came back.
pub open spec fn capture_calls(blocks: Seq<Seq<i16>>, cleaned: Seq<Seq<i16>>) -> Seq<AecCall> {
    Seq::new(blocks.len(), |i: int| AecCall::Capture(blocks[i], cleaned[i]))
}

/// The echo canceller: playback in, capture through it, in blocks of 10 ms.
pub struct SonoraAec {
    inner: sonora::AudioProcessing,
}

/// What the echo canceller of a session is built with: the full pipeline at its
/// sample rate, one channel, and the statistical test for a missing echo path.
pub open spec fn aec_settings(sample_rate: u32) -> AecSettings {
    AecSettings {
        sample_rate,
        channels: 1,
        high_pass: true,
        transparent_mode: TransparentMode::Hmm,
        internal_rate: InternalRate::Rate48kHz,
        multi_channel: false,
        downmix: CaptureDownmix::AverageChannels,
    }
}

impl SonoraAec {
    /// What the canceller was given so far, block by block.
    pub closed spec fn calls(&self) -> Seq<AecCall> {
        given(self.inner)
    }

    /// What the canceller was built with.
    pub closed spec fn settings(&self) -> AecSettings {
        built_with(self.inner)
    }

    /// A canceller for one channel at a sample rate.
    pub fn new(sample_rate: u32) -> (r: Self)
        requires
            8000 <= sample_rate <= 48000,
        ensures
            r.calls() == Seq::<AecCall>::empty(),
            r.settings() == aec_settings(sample_rate),
    {
        let inner = echo_processor(
            AecSettings {
                sample_rate,
                channels: 1,
                high_pass: true,
                transparent_mode: TransparentMode::Hmm,
                internal_rate: InternalRate::Rate48kHz,
                multi_channel: false,
                downmix: CaptureDownmix::AverageChannels,
            },
        );
        SonoraAec { inner }
    }

    /// Feeds playback, whole blocks of 480 samples; a rest is left out.
    pub fn process_render_frame(&mut self, frame: &[i16])
        ensures
            final(self).calls() == old(self).calls() + render_calls(
                crate::voice::frames::blocks(frame@, 480),
            ),
            final(self).settings() == old(self).settings(),
    {
        let mut queue: BlockQueue<i16> = BlockQueue::new();
        queue.push_all(frame);
        let ghost all = crate::voice::frames::blocks(frame@, 480);
        assert(queue.buf@ =~= frame@);
        assert(self.calls() + render_calls(all) =~= old(self).calls() + render_calls(all));
        while queue.buf.len() >= 480
            invariant
                self.settings() == old(self).settings(),
                self.calls() + render_calls(crate::voice::frames::blocks(queue.buf@, 480))
                    == old(self).calls() + render_calls(all),
            decreases queue.buf@.len(),
        {
            let ghost before = queue.buf@;
            let ghost done = self.calls();
            let block: Vec<i16> = queue.take_front(480);
            processor_render(&mut self.inner, &block);
            proof {
                let rest = crate::voice::frames::blocks(queue.buf@, 480);
                assert(crate::voice::frames::blocks(before, 480) == seq![block@] + rest);
                assert(done + render_calls(seq![block@] + rest) =~= done.push(
                    AecCall::Render(block@),
                ) + render_calls(rest));
            }
        }
        assert(self.calls() + render_calls(crate::voice::frames::blocks(queue.buf@, 480))
            =~= self.calls());
    }

    /// Passes one 10 ms block of capture through the canceller.
    pub fn process_capture_frame(&mut self, block: &Vec<i16>) -> (r: Vec<i16>)
        requires
            block@.len() == 480,
        ensures
            r@.len() == 480,
            final(self).calls() == old(self).calls().push(AecCall::Capture(block@, r@)),
            final(self).settings() == old(self).settings(),
    {
        processor_capture(&mut self.inner, block)
    }

    /// Passes a frame through the canceller, whole blocks of 480 samples; a rest
    /// stays as it is.
    pub fn process_capture(&mut self, frame: &[i16]) -> (r: Vec<i16>)
        ensures
            r@.len() == frame@.len(),
            r@.skip(crate::voice::frames::whole_len(frame@.len() as int, 480)) == frame@.skip(
                crate::voice::frames::whole_len(frame@.len() as int, 480),
            ),
            final(self).calls() == old(self).calls() + capture_calls(
                crate::voice::frames::blocks(frame@, 480),
                crate::voice::frames::blocks(r@, 480),
            ),
            final(self).settings() == old(self).settings(),
    {
        let mut queue: BlockQueue<i16> = BlockQueue::new();
        queue.push_all(frame);
        let mut out: BlockQueue<i16> = BlockQueue::new();
        let ghost all = crate::voice::frames::blocks(frame@, 480);
        let ghost mut cleaned = Seq::<Seq<i16>>::empty();
        assert(queue.buf@ =~= frame@);
        assert(frame@.skip(0) =~= frame@);
        assert(all.skip(0) =~= all);
        assert(self.calls() + capture_calls(all.take(0), cleaned) =~= old(self).calls());
        while queue.buf.len() >= 480
            invariant
                self.settings() == old(self).settings(),
                out.buf@.len() == 480 * cleaned.len(),
                out.buf@.len() <= frame@.len(),
                queue.buf@ == frame@.skip(out.buf@.len() as int),
                all == crate::voice::frames::blocks(frame@, 480),
                cleaned.len() <= all.len(),
                crate::voice::frames::blocks(queue.buf@, 480) == all.skip(cleaned.len() as int),
                forall|i: int| 0 <= i < cleaned.len() ==> (#[trigger] cleaned[i]).len() == 480,
                forall|i: int, k: int|
                    0 <= i < cleaned.len() && 0 <= k < 480 ==> out.buf@[i * 480 + k]
                        == #[trigger] cleaned[i][k],
                self.calls() == old(self).calls() + capture_calls(
                    all.take(cleaned.len() as int),
                    cleaned,
                ),
            decreases queue.buf@.len(),
        {
            let ghost before = queue.buf@;
            let ghost done = cleaned;
            let block: Vec<i16> = queue.take_front(480);
            let given_back: Vec<i16> = self.process_capture_frame(&block);
            out.push_all(given_back.as_slice());
            proof {
                let n = done.len() as int;
                let rest = crate::voice::frames::blocks(queue.buf@, 480);
                assert(crate::voice::frames::blocks(before, 480) == seq![block@] + rest);
                assert(all.skip(n)[0] == block@);
                assert((seq![block@] + rest).skip(1) =~= rest);
                assert(all.skip(n).skip(1) =~= all.skip(n + 1));
                cleaned = done.push(given_back@);
                assert(old(self).calls() + capture_calls(all.take(n + 1), cleaned) =~= (old(self).calls()
                    + capture_calls(all.take(n), done)).push(
                    AecCall::Capture(block@, given_back@),
                ));
                assert(queue.buf@ =~= frame@.skip(out.buf@.len() as int));
            }
        }
        assert(all.take(cleaned.len() as int) =~= all);
        let ghost whole = out.buf@.len() as int;
        assert(whole == crate::voice::frames::whole_len(frame@.len() as int, 480));
        out.push_all(queue.buf.as_slice());
        proof {
            assert(out.buf@.skip(whole) =~= frame@.skip(whole));
            crate::voice::frames::law_blocks_cover(out.buf@, 480);
            let came_back = crate::voice::frames::blocks(out.buf@, 480);
            assert forall|i: int| 0 <= i < cleaned.len() implies came_back[i]
                == #[trigger] cleaned[i] by {
                assert(came_back[i] =~= cleaned[i]);
            }
            assert(capture_calls(all, cleaned) =~= capture_calls(all, came_back));
        }
        out.buf
    }
}

/// Sizes of the neural denoiser.
#[derive(Debug, Clone, Copy, PartialEq, Eq, Structural)]
pub enum EnhancerSize {
    Small,
    Medium,
}

impl EnhancerSize {
    /// Samples that one run of the denoiser takes and gives.
    pub fn frame_size(self) -> (r: usize)
        ensures
            r == (match self {
                EnhancerSize::Small => 512int,
                EnhancerSize::Medium => 320int,
            }),
    {
        match self {
            EnhancerSize::Small => 512,
            EnhancerSize::Medium => 320,
        }
    }
}

/// The queues in front of and behind a denoiser whose frames are not those of the
/// send path: frames of the send path in, whole denoiser frames through it, whole
/// blocks of the send path out.
pub struct EnhancerQueue<T> {
    pub input: BlockQueue<T>,
    pub output: BlockQueue<T>,
    pub frame_size: usize,
}

impl<T: Copy> EnhancerQueue<T> {
    /// Empty queues for a denoiser frame.
    pub fn new(frame_size: usize) -> (r: Self)
        ensures
            r.input.buf@ == Seq::<T>::empty(),
            r.output.buf@ == Seq::<T>::empty(),
            r.frame_size == frame_size,
    {
        EnhancerQueue { input: BlockQueue::new(), output: BlockQueue::new(), frame_size }
    }

    /// Takes a frame of the send path in.
    pub fn accept(&mut self, frame: &[T])
        ensures
            final(self).input.buf@ == old(self).input.buf@ + frame@,
            final(self).output == old(self).output,
            final(self).frame_size == old(self).frame_size,
    {
        self.input.push_all(frame);
    }

    /// The next whole denoiser frame.
    pub fn next_input(&mut self) -> (r: Option<Vec<T>>)
        ensures
            final(self).output == old(self).output,
            final(self).frame_size == old(self).frame_size,
            match r {
                Some(block) => {
                    &&& old(self).frame_size <= old(self).input.buf@.len()
                    &&& block@ == old(self).input.buf@.take(old(self).frame_size as int)
                    &&& final(self).input.buf@ == old(self).input.buf@.skip(
                        old(self).frame_size as int,
                    )
                },
                None => {
                    &&& old(self).frame_size > old(self).input.buf@.len()
                    &&& final(self).input.buf@ == old(self).input.buf@
                },
            },
    {
        self.input.take_block(self.frame_size)
    }

    /// Takes a denoised frame.
    pub fn denoised(&mut self, block: &[T])
        ensures
            final(self).output.buf@ == old(self).output.buf@ + block@,
            final(self).input == old(self).input,
            final(self).frame_size == old(self).frame_size,
    {
        self.output.push_all(block);
    }

    /// Hands out whole blocks of `unit` samples and keeps the rest.
    pub fn emit(&mut self, unit: usize) -> (r: Vec<T>)
        requires
            unit > 0,
        ensures
            r@ == old(self).output.buf@.take(
                crate::voice::frames::whole_len(old(self).output.buf@.len() as int, unit as int),
            ),
            final(self).output.buf@ == old(self).output.buf@.skip(
                crate::voice::frames::whole_len(old(self).output.buf@.len() as int, unit as int),
            ),
            final(self).output.buf@.len() < unit,
            final(self).input == old(self).input,
            final(self).frame_size == old(self).frame_size,
    {
        self.output.take_whole(unit)
    }
}

impl<T> EnhancerQueue<T> {
    /// Samples that wait in front of the denoiser and behind it.
    pub open spec fn waiting(&self) -> nat {
        self.input.buf@.len() + self.output.buf@.len()
    }

    /// Between two frames of the send path: less than a denoiser frame waits in
    /// front, less than a frame of the send path behind, and in all either nothing
    /// or one frame of the send path.
    pub open spec fn settled(&self) -> bool {
        &&& self.input.buf@.len() < self.frame_size
        &&& self.output.buf@.len() < 960
        &&& self.waiting() == 0 || self.waiting() == 960
    }
}

/// The lag of the queues is at most one frame of the send path: they are settled
/// when new, and settled again after each frame of 960 samples that was taken in,
/// whose whole denoiser frames went `through` a denoiser that gives as many samples
/// as it takes, and behind which whole blocks of 960 samples were `emitted`.
pub proof fn law_enhancer_lag<T>(
    before: EnhancerQueue<T>,
    frame: Seq<T>,
    through: Seq<T>,
    emitted: Seq<T>,
    after: EnhancerQueue<T>,
)
    requires
        before.settled(),
        before.frame_size <= 960,
        frame.len() == 960,
        ({
            let all = before.input.buf@ + frame;
            let whole = crate::voice::frames::whole_len(
                all.len() as int,
                before.frame_size as int,
            );
            &&& after.input.buf@ == all.skip(whole)
            &&& through.len() == whole
        }),
        ({
            let ready = before.output.buf@ + through;
            let whole = crate::voice::frames::whole_len(ready.len() as int, 960);
            &&& emitted == ready.take(whole)
            &&& after.output.buf@ == ready.skip(whole)
        }),
        after.frame_size == before.frame_size,
    ensures
        after.settled(),
        emitted.len() == 960 + before.waiting() - after.waiting(),
{
    let all = before.input.buf@ + frame;
    let ready = before.output.buf@ + through;
    crate::voice::frames::lemma_whole_len(all.len() as int, before.frame_size as int);
    crate::voice::frames::lemma_whole_len(ready.len() as int, 960);
}

/// The denoiser stage of a chain.
#[derive(Debug, Clone, Copy, PartialEq, Eq, Structural)]
pub enum Tier {
    /// The sized neural denoiser.
    Enhancer,
    /// The deep filter.
    DeepFilter,
    /// The light denoiser.
    Light,
    /// None: the suppressed signal is final.
    Plain,
}

/// The chain of the send path: echo canceller, noise suppression, denoiser,
/// limiter.
pub struct NoiseSuppressor {
    /// The echo canceller, where it is on.
    pub aec: Option<SonoraAec>,
    /// Whether the light denoiser is there.
    pub rnnoise: bool,
    /// Whether the deep filter is there.
    pub neural: bool,
    /// The sized denoiser, where the machine runs it.
    pub fe: Option<EnhancerSize>,
    /// Whether the last frame held speech.
    pub speech_detected: bool,
    /// Bit pattern of the last local signal-to-noise ratio, a 32-bit float; the
    /// deep filter alone gives one.
    pub last_lsnr: Option<u32>,
}

/// Where a frame is in the chain: what has to be done with its signal next.
pub enum Stage {
    /// Suppress noise; hand what comes out to [`NoiseSuppressor::suppressed`].
    Suppress { signal: Vec<i16> },
    /// Run the denoiser; hand what comes out to [`NoiseSuppressor::denoised`].
    Denoise { tier: Tier, signal: Vec<i16> },
    /// Limit the peaks; hand what comes out to [`NoiseSuppressor::process_gated`].
    Limit { signal: Vec<i16> },
}

/// Whether `after` is the chain `before` whose echo canceller, where it is on, was
/// given `more`.
pub open spec fn fed(before: NoiseSuppressor, after: NoiseSuppressor, more: Seq<AecCall>) -> bool {
    &&& after.same_but_aec(&before)
    &&& match (before.aec, after.aec) {
        (Some(a), Some(b)) => b.calls() == a.calls() + more && b.settings() == a.settings(),
        (None, None) => true,
        _ => false,
    }
}

/// Whether `signal` is `frame` behind the echo canceller of the chain `before`,
/// which is `after` thereafter. A rest shorter than a block stays as it is, and so
/// does the whole frame where the canceller is off.
pub open spec fn cancelled(
    before: NoiseSuppressor,
    frame: Seq<i16>,
    after: NoiseSuppressor,
    signal: Seq<i16>,
) -> bool {
    let whole = crate::voice::frames::whole_len(frame.len() as int, 480);
    &&& fed(
        before,
        after,
        capture_calls(
            crate::voice::frames::blocks(frame, 480),
            crate::voice::frames::blocks(signal, 480),
        ),
    )
    &&& signal.len() == frame.len()
    &&& signal.skip(whole) == frame.skip(whole)
    &&& before.aec is None ==> signal == frame
}

/// Whether `out` is `signal` behind the noise suppressor, which gave `outcomes`, or
/// is missing.
pub open spec fn behind_suppressor(
    signal: Seq<i16>,
    outcomes: Option<Vec<Option<Vec<i16>>>>,
    out: Seq<i16>,
) -> bool {
    match outcomes {
        Some(o) => is_merged(signal, o@, out),
        None => out == signal,
    }
}

/// Whether a frame can leave a chain without a denoiser as `out`: through the echo
/// canceller, through the noise suppressor, and past the denoiser unchanged.
pub open spec fn plain_pass(
    before: NoiseSuppressor,
    frame: Seq<i16>,
    after: NoiseSuppressor,
    out: Seq<i16>,
) -> bool {
    exists|
        mid: NoiseSuppressor,
        signal: Seq<i16>,
        outcomes: Option<Vec<Option<Vec<i16>>>>,
        speech: bool,
        lsnr: u32,
    |
        #[trigger] cancelled(before, frame, mid, signal) && #[trigger] behind_suppressor(
            signal,
            outcomes,
            out,
        ) && after == #[trigger] mid.behind_denoiser(speech, lsnr)
}

/// A chain that starts without a denoiser stays so: whatever frames pass through it
/// and whatever the suppressor makes of them, each gives as many samples as went in,
/// and no signal-to-noise ratio is kept.
pub proof fn law_plain_chain(
    states: Seq<NoiseSuppressor>,
    frames: Seq<Seq<i16>>,
    outs: Seq<Seq<i16>>,
    i: int,
)
    requires
        states.len() == frames.len() + 1,
        outs.len() == frames.len(),
        states[0].stage_tier() == Tier::Plain,
        forall|k: int|
            0 <= k < frames.len() ==> #[trigger] plain_pass(
                states[k],
                frames[k],
                states[k + 1],
                outs[k],
            ),
        0 <= i < frames.len(),
    ensures
        outs[i].len() == frames[i].len(),
        states[i].stage_tier() == Tier::Plain,
        states[i + 1].stage_tier() == Tier::Plain,
        states[i + 1].last_lsnr is None,
        states[i + 1].aec is Some == states[i].aec is Some,
    decreases i,
{
    if i > 0 {
        law_plain_chain(states, frames, outs, i - 1);
    }
    assert(plain_pass(states[i], frames[i], states[i + 1], outs[i]));
}

/// The denoiser that a model asks for.
pub open spec fn model_enhancer(model: SuppressorModel) -> Option<EnhancerSize> {
    match model {
        SuppressorModel::NsOnly => None,
        SuppressorModel::FastEnhancerS => Some(EnhancerSize::Small),
        SuppressorModel::FastEnhancerM => Some(EnhancerSize::Medium),
    }
}

impl NoiseSuppressor {
    /// Whether the echo canceller is on or off as `aec` says and has heard nothing.
    pub open spec fn fresh_aec(&self, aec: bool) -> bool {
        &&& self.aec is Some == aec
        &&& self.aec matches Some(a) ==> a.calls() == Seq::<AecCall>::empty() && a.settings()
            == aec_settings(48000)
    }

    /// The parts of a chain, before its first frame.
    pub open spec fn fresh(
        &self,
        neural: bool,
        rnnoise: bool,
        fe: Option<EnhancerSize>,
        aec: bool,
    ) -> bool {
        &&& self.neural == neural
        &&& self.rnnoise == rnnoise
        &&& self.fe == fe
        &&& self.fresh_aec(aec)
        &&& !self.speech_detected
        &&& self.last_lsnr is None
    }

    fn chain_with_aec(
        neural: bool,
        rnnoise: bool,
        fe: Option<EnhancerSize>,
        aec: bool,
    ) -> (r: Self)
        ensures
            r.fresh(neural, rnnoise, fe, aec),
    {
        let aec: Option<SonoraAec> = if aec {
            Some(SonoraAec::new(48_000))
        } else {
            None
        };
        NoiseSuppressor { aec, rnnoise, neural, fe, speech_detected: false, last_lsnr: None }
    }

    /// The plain chain: no denoiser.
    pub fn new() -> (r: Self)
        ensures
            r.fresh(false, false, None, true),
    {
        Self::chain_with_aec(false, false, None, true)
    }

    /// The chain of a model; `loaded` tells whether the machine runs its
    /// denoiser, without which the chain is the plain one.
    pub fn with_model(model: SuppressorModel, loaded: bool) -> (r: Self)
        ensures
            r.fresh(
                false,
                false,
                if loaded {
                    model_enhancer(model)
                } else {
                    None
                },
                true,
            ),
    {
        Self::with_model_and_aec(model, true, loaded)
    }

    /// The chain of a model, with the echo canceller on or off.
    pub fn with_model_and_aec(model: SuppressorModel, aec: bool, loaded: bool) -> (r: Self)
        ensures
            r.fresh(
                false,
                false,
                if loaded {
                    model_enhancer(model)
                } else {
                    None
                },
                aec,
            ),
    {
        let fe: Option<EnhancerSize> = if loaded {
            match model {
                SuppressorModel::NsOnly => None,
                SuppressorModel::FastEnhancerS => Some(EnhancerSize::Small),
                SuppressorModel::FastEnhancerM => Some(EnhancerSize::Medium),
            }
        } else {
            None
        };
        Self::chain_with_aec(false, false, fe, aec)
    }

    /// The chain with the deep filter, where it loaded.
    pub fn new_neural(loaded: bool) -> (r: Self)
        ensures
            r.fresh(loaded, false, None, true),
    {
        Self::chain_with_aec(loaded, false, None, true)
    }

    /// The chain with the light denoiser.
    pub fn new_light() -> (r: Self)
        ensures
            r.fresh(false, true, None, true),
    {
        Self::chain_with_aec(false, true, None, true)
    }

    /// Feeds playback to the echo canceller, where it is on.
    pub fn process_render_frame(&mut self, frame: &[i16])
        ensures
            fed(*old(self), *final(self), render_calls(crate::voice::frames::blocks(frame@, 480))),
    {
        match self.aec.take() {
            Some(a) => {
                let mut a: SonoraAec = a;
                a.process_render_frame(frame);
                self.aec = Some(a);
            },
            None => {},
        }
    }

    /// Everything but the echo canceller is as in `o`.
    pub open spec fn same_but_aec(&self, o: &Self) -> bool {
        &&& self.rnnoise == o.rnnoise
        &&& self.neural == o.neural
        &&& self.fe == o.fe
        &&& self.speech_detected == o.speech_detected
        &&& self.last_lsnr == o.last_lsnr
    }

    /// Starts a captured frame on its way through the chain. The echo canceller
    /// comes first; without it the frame is as it was.
    pub fn process(&mut self, frame: &[i16]) -> (r: Stage)
        ensures
            r matches Stage::Suppress { signal } && cancelled(
                *old(self),
                frame@,
                *final(self),
                signal@,
            ),
    {
        match self.aec.take() {
            Some(a) => {
                let mut a: SonoraAec = a;
                let signal: Vec<i16> = a.process_capture(frame);
                self.aec = Some(a);
                Stage::Suppress { signal }
            },
            None => {
                let mut copy: BlockQueue<i16> = BlockQueue::new();
                copy.push_all(frame);
                assert(copy.buf@ =~= frame@);
                Stage::Suppress { signal: copy.buf }
            },
        }
    }

    /// Goes on behind the noise suppressor: `outcomes` holds what it gave for each
    /// whole block, and is missing where there is no suppressor, so that the signal
    /// stays as it is. The denoiser comes next.
    pub fn suppressed(&self, signal: Vec<i16>, outcomes: Option<Vec<Option<Vec<i16>>>>) -> (r:
        Stage)
        requires
            outcomes matches Some(o) ==> blocks_fit(signal@, o@),
        ensures
            r matches Stage::Denoise { tier, signal: s } && tier == self.stage_tier()
                && behind_suppressor(signal@, outcomes, s@),
    {
        let tier: Tier = self.tier();
        match outcomes {
            Some(o) => Stage::Denoise { tier, signal: merge_suppressed(signal.as_slice(), &o) },
            None => Stage::Denoise { tier, signal },
        }
    }

    /// Goes on behind the denoiser, which found speech or not, and, if it is the
    /// deep filter, a signal-to-noise ratio. The limiter comes next.
    pub fn denoised(&mut self, signal: Vec<i16>, speech: bool, lsnr: u32) -> (r: Stage)
        ensures
            r == (Stage::Limit { signal }),
            *final(self) == old(self).behind_denoiser(speech, lsnr),
    {
        self.speech_detected = speech;
        self.last_lsnr = if self.fe.is_none() && self.neural {
            Some(lsnr)
        } else {
            None
        };
        Stage::Limit { signal }
    }

    /// The chain behind its denoiser, which found speech or not, and a
    /// signal-to-noise ratio; only the deep filter's is kept.
    pub open spec fn behind_denoiser(self, speech: bool, lsnr: u32) -> NoiseSuppressor {
        NoiseSuppressor {
            speech_detected: speech,
            last_lsnr: if self.stage_tier() == Tier::DeepFilter {
                Some(lsnr)
            } else {
                None
            },
            ..self
        }
    }

    /// Starts the echo canceller anew, where it is on.
    pub fn reset_aec(&mut self)
        ensures
            final(self).fresh_aec(old(self).aec is Some),
            final(self).same_but_aec(old(self)),
    {
        if self.aec.is_some() {
            self.aec = Some(SonoraAec::new(48_000));
        }
    }

    /// Switches the echo canceller on, where it starts anew, or off. Nothing happens
    /// where it is as wanted already.
    pub fn set_aec(&mut self, aec: bool)
        ensures
            if old(self).aec is Some == aec {
                *final(self) == *old(self)
            } else {
                final(self).fresh_aec(aec) && final(self).same_but_aec(old(self))
            },
    {
        if self.aec.is_some() != aec {
            self.aec = if aec {
                Some(SonoraAec::new(48_000))
            } else {
                None
            };
        }
    }

    /// Whether the echo canceller is on.
    pub fn has_aec(&self) -> (r: bool)
        ensures
            r == self.aec is Some,
    {
        self.aec.is_some()
    }

    /// The denoiser that runs: the sized one before the deep filter before the
    /// light one.
    pub open spec fn stage_tier(&self) -> Tier {
        if self.fe is Some {
            Tier::Enhancer
        } else if self.neural {
            Tier::DeepFilter
        } else if self.rnnoise {
            Tier::Light
        } else {
            Tier::Plain
        }
    }

    pub fn tier(&self) -> (r: Tier)
        ensures
            r == self.stage_tier(),
    {
        if self.fe.is_some() {
            Tier::Enhancer
        } else if self.neural {
            Tier::DeepFilter
        } else if self.rnnoise {
            Tier::Light
        } else {
            Tier::Plain
        }
    }

    /// Whether a neural denoiser runs.
    pub fn neural_available(&self) -> (r: bool)
        ensures
            r == (self.fe is Some || self.neural),
    {
        self.fe.is_some() || self.neural
    }

    /// The end of the chain: every frame is transmitted.
    pub fn process_gated(&self, cleaned: Vec<i16>) -> (r: Option<Vec<i16>>)
        ensures
            r == Some(cleaned),
    {
        Some(cleaned)
    }

    /// Whether the last frame held speech.
    pub fn speech_detected(&self) -> (r: bool)
        ensures
            r == self.speech_detected,
    {
        self.speech_detected
    }
}

/// Block `b` of the suppressed signal: what the suppressor gave, or the block as
/// it was where the suppressor refused it.
pub open spec fn merged_block(input: Seq<i16>, outcomes: Seq<Option<Vec<i16>>>, b: int) -> Seq<i16> {
    match outcomes[b] {
        Some(block) => block@,
        None => input.subrange(480 * b, 480 * b + 480),
    }
}

/// Whether `outcomes` holds one outcome for each whole block of the signal.
pub open spec fn blocks_fit(signal: Seq<i16>, outcomes: Seq<Option<Vec<i16>>>) -> bool {
    &&& outcomes.len() == signal.len() / 480
    &&& forall|b: int|
        0 <= b < outcomes.len() ==> ((#[trigger] outcomes[b]) matches Some(block) ==> block@.len()
            == 480)
}

/// Whether `out` is the signal behind the noise suppressor, block by block, and
/// silence for a rest that is shorter than a block.
pub open spec fn is_merged(
    signal: Seq<i16>,
    outcomes: Seq<Option<Vec<i16>>>,
    out: Seq<i16>,
) -> bool {
    &&& out.len() == signal.len()
    &&& forall|k: int|
        0 <= k < out.len() ==> #[trigger] out[k] == (if k < signal.len() as int / 480 * 480 {
            merged_block(signal, outcomes, k / 480)[k % 480]
        } else {
            0i16
        })
}

/// Puts the signal behind the noise suppressor together: `outcomes` holds, for
/// each whole block of 480 samples, what the suppressor gave for it. A rest
/// shorter than a block becomes silence.
pub fn merge_suppressed(input: &[i16], outcomes: &Vec<Option<Vec<i16>>>) -> (r: Vec<i16>)
    requires
        blocks_fit(input@, outcomes@),
    ensures
        is_merged(input@, outcomes@, r@),
{
    let n: usize = input.len();
    let whole: usize = n / 480 * 480;
    let mut out: Vec<i16> = Vec::new();
    let mut k: usize = 0;
    while k < n
        invariant
            n == input@.len(),
            whole == n as int / 480 * 480,
            whole <= n,
            blocks_fit(input@, outcomes@),
            k <= n,
            out@.len() == k,
            forall|j: int|
                0 <= j < k ==> #[trigger] out@[j] == (if j < whole {
                    merged_block(input@, outcomes@, j / 480)[j % 480]
                } else {
                    0i16
                }),
        decreases n - k,
    {
        let mut s: i16 = 0;
        if k < whole {
            let b: usize = k / 480;
            let o: usize = k % 480;
            s = input[k];
            assert(480 * b + 480 <= whole) by {
                assert(b < whole / 480);
            }
            assert(input@.subrange(480 * b, 480 * b + 480)[o as int] == input@[k as int]);
            match &outcomes[b] {
                Some(block) => {
                    s = block[o];
                },
                None => {},
            }
        }
        out.push(s);
        k = k + 1;
    }
    out
}

/// A model is stored under one name and found again under it, and under no other.
pub proof fn law_model_stored(
    m: SuppressorModel,
    name: &'static str,
    s: &str,
    r: Option<SuppressorModel>,
)
    requires
        call_ensures(SuppressorModel::as_str, (&m,), name),
        call_ensures(SuppressorModel::parse, (s,), r),
    ensures
        s@ == name@ <==> r == Some(m),
        m is NsOnly <==> name@ == "ns-only"@,
        m is FastEnhancerS <==> name@ == "fastenhancer-s"@,
        m is FastEnhancerM <==> name@ == "fastenhancer"@,
{
    reveal_strlit("ns-only");
    reveal_strlit("fastenhancer-s");
    reveal_strlit("fastenhancer");
    assert("ns-only"@.len() == 7 && "fastenhancer-s"@.len() == 14 && "fastenhancer"@.len() == 12);
    if s@ == name@ {
        assert(s@ == m.name());
        if let Some(k) = r {
            law_model_names(k, m);
        }
    }
}

/// A packet of silence is sent again only in silence, only where there is one, and
/// only behind two frames of silence that were encoded; every eight seconds of silence
/// one frame is encoded anew. Speech is encoded at once and ends the silence.
pub proof fn law_silence_reuse(speech: bool, streak: u32, have_pkt: bool, r: (bool, u32))
    requires
        call_ensures(silence_reuse_decision, (speech, streak, have_pkt), r),
    ensures
        r.0 <==> !speech && have_pkt && 2 <= streak && streak < 400,
        speech || streak >= 400 ==> r.1 == 0,
        !speech && streak < 400 ==> r.1 == streak + 1,
{
}

/// Without an echo canceller a captured frame passes as it is. With one, its whole
/// blocks of 10 ms go through it in order, each coming back in its own place, and what
/// is left over passes as it is.
pub proof fn law_capture_cancelled_in_order(
    ns: &mut NoiseSuppressor,
    frame: &[i16],
    r: Stage,
    i: int,
    k: int,
)
    requires
        call_ensures(NoiseSuppressor::process, (ns, frame), r),
    ensures
        r matches Stage::Suppress { signal } && {
            &&& signal@.len() == frame@.len()
            &&& old(ns).aec is None ==> signal@ == frame@
            &&& final(ns).aec is Some == old(ns).aec is Some
            &&& final(ns).fe == old(ns).fe && final(ns).neural == old(ns).neural
            &&& final(ns).rnnoise == old(ns).rnnoise && final(ns).last_lsnr == old(ns).last_lsnr
            &&& final(ns).speech_detected == old(ns).speech_detected
            &&& frame@.len() - frame@.len() % 480 <= k < frame@.len() ==> signal@[k] == frame@[k]
            &&& old(ns).aec is Some && 0 <= i < frame@.len() as int / 480 ==> {
                let n = old(ns).aec->0.calls().len() as int;
                &&& final(ns).aec->0.calls().len() == n + frame@.len() as int / 480
                &&& final(ns).aec->0.calls()[n + i] == AecCall::Capture(
                    frame@.subrange(480 * i, 480 * i + 480),
                    signal@.subrange(480 * i, 480 * i + 480),
                )
            }
            &&& old(ns).aec is Some && 0 <= i < old(ns).aec->0.calls().len()
                ==> final(ns).aec->0.calls()[i] == old(ns).aec->0.calls()[i]
        },
{
    let signal = r->Suppress_signal@;
    let f = frame@;
    crate::voice::frames::law_blocks_cover(f, 480);
    crate::voice::frames::law_blocks_cover(signal, 480);
    crate::voice::frames::lemma_whole_len(f.len() as int, 480);
    let whole = crate::voice::frames::whole_len(f.len() as int, 480);
    if f.len() - f.len() % 480 <= k < f.len() {
        assert(signal.skip(whole)[k - whole] == f.skip(whole)[k - whole]);
    }
    if 0 <= i < f.len() as int / 480 {
        lemma_block_is_range(f, i);
        lemma_block_is_range(signal, i);
    }
}

/// A block of 10 ms is what stands in its place.
pub proof fn lemma_block_is_range(s: Seq<i16>, i: int)
    requires
        0 <= i < s.len() as int / 480,
    ensures
        crate::voice::frames::blocks(s, 480).len() == s.len() / 480,
        crate::voice::frames::blocks(s, 480)[i] == s.subrange(480 * i, 480 * i + 480),
{
    crate::voice::frames::law_blocks_cover(s, 480);
    let b = crate::voice::frames::blocks(s, 480)[i];
    assert(b =~= s.subrange(480 * i, 480 * i + 480)) by {
        assert forall|k: int| 0 <= k < 480 implies b[k] == s[480 * i + k] by {
            assert(crate::voice::frames::blocks(s, 480)[i][k] == s[i * 480 + k]);
        }
    }
}

/// The echo canceller is told what was played in whole blocks of 10 ms, in order,
/// behind what it heard before; a chain without one hears nothing.
pub proof fn law_render_heard_in_order(ns: &mut NoiseSuppressor, frame: &[i16], i: int)
    requires
        call_ensures(NoiseSuppressor::process_render_frame, (ns, frame), ()),
    ensures
        old(ns).aec is None ==> final(ns).aec is None,
        old(ns).aec is Some ==> {
            let n = old(ns).aec->0.calls().len() as int;
            &&& final(ns).aec is Some
            &&& final(ns).aec->0.calls().len() == n + frame@.len() as int / 480
            &&& 0 <= i < n ==> final(ns).aec->0.calls()[i] == old(ns).aec->0.calls()[i]
            &&& 0 <= i < frame@.len() as int / 480 ==> final(ns).aec->0.calls()[n + i]
                == AecCall::Render(frame@.subrange(480 * i, 480 * i + 480))
        },
{
    crate::voice::frames::law_blocks_cover(frame@, 480);
    if 0 <= i < frame@.len() as int / 480 {
        lemma_block_is_range(frame@, i);
    }
}

/// The canceller of a session runs at 48 kHz on one channel, from nothing.
pub proof fn law_canceller_fresh(rate: u32, r: SonoraAec)
    requires
        call_ensures(SonoraAec::new, (rate,), r),
    ensures
        r.calls().len() == 0,
        r.settings().sample_rate == rate,
        r.settings().channels == 1,
        r.settings().high_pass,
        r.settings().transparent_mode is Hmm,
        r.settings().internal_rate is Rate48kHz,
        !r.settings().multi_channel,
        r.settings().downmix is AverageChannels,
{
}

/// Behind the noise suppressor each whole block of 10 ms is what the suppressor gave
/// for it, or as it was where it was refused; what is left over is silence.
pub proof fn law_blocks_merged(
    input: &[i16],
    outcomes: &Vec<Option<Vec<i16>>>,
    r: Vec<i16>,
    b: int,
    k: int,
)
    requires
        blocks_fit(input@, outcomes@),
        call_ensures(merge_suppressed, (input, outcomes), r),
        0 <= k < 480,
    ensures
        r@.len() == input@.len(),
        0 <= b < input@.len() as int / 480 ==> {
            &&& 0 <= 480 * b + k < r@.len()
            &&& outcomes@[b] matches Some(block) ==> r@[480 * b + k] == block@[k]
            &&& outcomes@[b] is None ==> r@[480 * b + k] == input@[480 * b + k]
        },
        b == input@.len() as int / 480 && 480 * b + k < input@.len() ==> r@[480 * b + k] == 0,
{
    if 0 <= b < input@.len() as int / 480 {
        let p = 480 * b + k;
        assert(p / 480 == b && p % 480 == k);
        assert(p < input@.len() as int / 480 * 480);
        if outcomes@[b] is None {
            assert(input@.subrange(480 * b, 480 * b + 480)[k] == input@[480 * b + k]);
        }
    }
}

/// The denoiser of a model runs where it loaded, and none where it did not; the other
/// chains have their own. Each has the canceller that it was asked for, nothing heard,
/// and no speech found yet.
pub proof fn law_chain_of_model(
    model: SuppressorModel,
    loaded: bool,
    aec: bool,
    a: NoiseSuppressor,
    b: NoiseSuppressor,
    c: NoiseSuppressor,
    d: NoiseSuppressor,
    e: NoiseSuppressor,
    t: Tier,
)
    requires
        call_ensures(NoiseSuppressor::with_model_and_aec, (model, aec, loaded), a),
        call_ensures(NoiseSuppressor::with_model, (model, loaded), b),
        call_ensures(NoiseSuppressor::new, (), c),
        call_ensures(NoiseSuppressor::new_neural, (loaded,), d),
        call_ensures(NoiseSuppressor::new_light, (), e),
        call_ensures(NoiseSuppressor::tier, (&a,), t),
    ensures
        t is Enhancer <==> loaded && !(model is NsOnly),
        t is Plain <==> !loaded || model is NsOnly,
        loaded && model is FastEnhancerS ==> a.fe == Some(EnhancerSize::Small),
        loaded && model is FastEnhancerM ==> a.fe == Some(EnhancerSize::Medium),
        a.aec is Some <==> aec,
        b.aec is Some && b.fe == a.fe,
        b.stage_tier() == a.stage_tier(),
        c.aec is Some && c.stage_tier() is Plain,
        d.aec is Some && d.stage_tier() == (if loaded {
            Tier::DeepFilter
        } else {
            Tier::Plain
        }),
        e.aec is Some && e.stage_tier() is Light,
        !a.speech_detected && a.last_lsnr is None,
        a.aec matches Some(x) ==> x.calls().len() == 0,
{
}

/// Behind the denoiser the signal goes on as it gave it, speech is what it found, and
/// a signal-to-noise ratio is kept only of the deep filter.
pub proof fn law_denoised(
    ns: &mut NoiseSuppressor,
    signal: Vec<i16>,
    speech: bool,
    lsnr: u32,
    r: Stage,
    heard: bool,
    out: Option<Vec<i16>>,
)
    requires
        call_ensures(NoiseSuppressor::denoised, (ns, signal, speech, lsnr), r),
        call_ensures(NoiseSuppressor::speech_detected, (&*final(ns),), heard),
        call_ensures(NoiseSuppressor::process_gated, (&*final(ns), signal), out),
    ensures
        r == (Stage::Limit { signal }),
        heard == speech,
        out == Some(signal),
        old(ns).fe is None && old(ns).neural ==> final(ns).last_lsnr == Some(lsnr),
        old(ns).fe is Some || !old(ns).neural ==> final(ns).last_lsnr is None,
        final(ns).fe == old(ns).fe,
        final(ns).aec == old(ns).aec,
{
}

/// The frames of the send path come out of a denoiser's queues in the order in which
/// they went in: taking in, denoising and handing out lose and reorder nothing.
pub proof fn law_denoiser_queue<T: Copy>(
    a: &mut EnhancerQueue<T>,
    frame: &[T],
    b: &mut EnhancerQueue<T>,
    block: Option<Vec<T>>,
    c: &mut EnhancerQueue<T>,
    denoised: &[T],
    d: &mut EnhancerQueue<T>,
    r: Vec<T>,
)
    requires
        call_ensures(EnhancerQueue::<T>::accept, (a, frame), ()),
        *old(b) == *final(a),
        call_ensures(EnhancerQueue::<T>::next_input, (b,), block),
        *old(c) == *final(b),
        call_ensures(EnhancerQueue::<T>::denoised, (c, denoised), ()),
        *old(d) == *final(c),
        call_ensures(EnhancerQueue::<T>::emit, (d, 960usize), r),
    ensures
        block matches Some(x) ==> x@.len() == old(a).frame_size
            && x@ + final(b).input.buf@ == old(a).input.buf@ + frame@,
        block is None ==> final(b).input.buf@ == old(a).input.buf@ + frame@
            && final(b).input.buf@.len() < old(a).frame_size,
        r@ + final(d).output.buf@ == old(a).output.buf@ + denoised@,
        r@.len() % 960 == 0,
        final(d).output.buf@.len() < 960,
        final(d).input.buf@ == final(b).input.buf@,
{
    if let Some(x) = block {
        assert(x@ + final(b).input.buf@ =~= old(a).input.buf@ + frame@);
    }
    crate::voice::frames::lemma_whole_len(old(d).output.buf@.len() as int, 960);
    assert(r@ + final(d).output.buf@ =~= old(a).output.buf@ + denoised@);
}

/// A frame through the bare canceller: its whole blocks of 10 ms go in order, each
/// coming back in its own place, and what is left over stays as it is.
pub proof fn law_canceller_in_order(
    a: &mut SonoraAec,
    frame: &[i16],
    r: Vec<i16>,
    b: &mut SonoraAec,
    i: int,
    k: int,
)
    requires
        call_ensures(SonoraAec::process_capture, (a, frame), r),
        *old(b) == *final(a),
        call_ensures(SonoraAec::process_render_frame, (b, frame), ()),
        0 <= i < frame@.len() as int / 480,
        frame@.len() - frame@.len() % 480 <= k < frame@.len() || k < 0,
    ensures
        r@.len() == frame@.len(),
        k >= 0 ==> r@[k] == frame@[k],
        ({
            let n = old(a).calls().len() as int;
            let m = frame@.len() as int / 480;
            &&& final(a).calls().len() == n + m
            &&& final(a).calls()[n + i] == AecCall::Capture(
                frame@.subrange(480 * i, 480 * i + 480),
                r@.subrange(480 * i, 480 * i + 480),
            )
            &&& final(b).calls().len() == n + m + m
            &&& final(b).calls()[n + i] == final(a).calls()[n + i]
            &&& final(b).calls()[n + m + i] == AecCall::Render(
                frame@.subrange(480 * i, 480 * i + 480),
            )
        }),
        final(b).settings() == old(a).settings(),
{
    let f = frame@;
    crate::voice::frames::law_blocks_cover(f, 480);
    crate::voice::frames::law_blocks_cover(r@, 480);
    crate::voice::frames::lemma_whole_len(f.len() as int, 480);
    let whole = crate::voice::frames::whole_len(f.len() as int, 480);
    if k >= 0 {
        assert(r@.skip(whole)[k - whole] == f.skip(whole)[k - whole]);
    }
    lemma_block_is_range(f, i);
    lemma_block_is_range(r@, i);
}

/// The noise suppressor's outcome goes to the denoiser of the chain; without a
/// suppressor the signal goes as it is.
pub proof fn law_suppressed_goes_on(
    ns: &NoiseSuppressor,
    signal: Vec<i16>,
    outcomes: Vec<Option<Vec<i16>>>,
    x: Stage,
    y: Stage,
    t: Tier,
    input: &[i16],
    merged: Vec<i16>,
    k: int,
)
    requires
        blocks_fit(signal@, outcomes@),
        call_ensures(NoiseSuppressor::suppressed, (ns, signal, None), x),
        call_ensures(NoiseSuppressor::suppressed, (ns, signal, Some(outcomes)), y),
        call_ensures(NoiseSuppressor::tier, (ns,), t),
        input@ == signal@,
        call_ensures(merge_suppressed, (input, &outcomes), merged),
        0 <= k < signal@.len(),
    ensures
        x matches Stage::Denoise { tier, signal: s } && tier == t && s@ == signal@,
        y matches Stage::Denoise { tier, signal: s } && tier == t && s@.len() == signal@.len()
            && s@[k] == merged@[k],
{
}

/// The canceller is on or off as asked for: switching it on starts it anew, switching
/// it off takes it out, asking for what it is changes nothing, and a reset leaves it
/// on with nothing heard. The denoiser stays.
pub proof fn law_canceller_switched(
    a: &mut NoiseSuppressor,
    aec: bool,
    has: bool,
    b: &mut NoiseSuppressor,
    still: bool,
)
    requires
        call_ensures(NoiseSuppressor::set_aec, (a, aec), ()),
        call_ensures(NoiseSuppressor::has_aec, (&*final(a),), has),
        *old(b) == *final(a),
        call_ensures(NoiseSuppressor::reset_aec, (b,), ()),
        call_ensures(NoiseSuppressor::has_aec, (&*final(b),), still),
    ensures
        has == aec && still == aec,
        old(a).aec is Some && aec ==> final(a).aec == old(a).aec,
        old(a).aec is None && aec ==> final(a).aec->0.calls().len() == 0,
        final(b).aec matches Some(x) ==> x.calls().len() == 0 && x.settings().sample_rate == 48000,
        final(b).fe == old(a).fe && final(b).neural == old(a).neural
            && final(b).rnnoise == old(a).rnnoise,
        final(b).speech_detected == old(a).speech_detected,
{
}

/// A model runs where its denoiser can, and the plain one everywhere; a chain has a
/// neural denoiser exactly if it is one of the two.
pub proof fn law_availability(
    m: SuppressorModel,
    can: bool,
    cannot: bool,
    ns: &NoiseSuppressor,
    neural: bool,
    t: Tier,
    size: EnhancerSize,
    n: usize,
)
    requires
        call_ensures(SuppressorModel::available, (&m, true), can),
        call_ensures(SuppressorModel::available, (&m, false), cannot),
        call_ensures(NoiseSuppressor::neural_available, (ns,), neural),
        call_ensures(NoiseSuppressor::tier, (ns,), t),
        call_ensures(EnhancerSize::frame_size, (size,), n),
    ensures
        can,
        cannot <==> m is NsOnly,
        neural <==> t is Enhancer || t is DeepFilter,
        t is Enhancer <==> ns.fe is Some,
        t is DeepFilter <==> ns.fe is None && ns.neural,
        t is Light ==> ns.rnnoise,
        t is Plain ==> !ns.rnnoise && !ns.neural && ns.fe is None,
        size is Small ==> n == 512,
        size is Medium ==> n == 320,
{
}

} // verus!
