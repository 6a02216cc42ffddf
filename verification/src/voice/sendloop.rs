//! The send loop: what happens to a captured frame before it is encoded.
use std::collections::VecDeque;
use vstd::prelude::*;

use crate::voice::frames::BlockQueue;
use crate::voice::output::{take_render, RENDER_CAP};
use crate::voice::suppressor::{NoiseSuppressor, SuppressorModel};

verus! {

/// Captured frames that wait for the send loop.
pub struct SendQueue {
    pub frames: VecDeque<Vec<i16>>,
}

impl SendQueue {
    /// An empty queue.
    pub fn new() -> (r: Self)
        ensures
            r.frames@.len() == 0,
    {
        SendQueue { frames: VecDeque::new() }
    }

    /// A frame came in.
    pub fn push(&mut self, frame: Vec<i16>)
        ensures
            final(self).frames@ == old(self).frames@.push(frame),
    {
        self.frames.push_back(frame);
    }

    /// The oldest frame.
    pub fn pop(&mut self) -> (r: Option<Vec<i16>>)
        ensures
            match r {
                Some(f) => {
                    &&& old(self).frames@.len() > 0
                    &&& f == old(self).frames@[0]
                    &&& final(self).frames@ == old(self).frames@.skip(1)
                },
                None => {
                    &&& old(self).frames@.len() == 0
                    &&& final(self).frames@ == old(self).frames@
                },
            },
    {
        let r: Option<Vec<i16>> = self.frames.pop_front();
        assert(r is Some ==> self.frames@ =~= old(self).frames@.skip(1));
        r
    }

    /// Sheds a backlog behind `frame`: while more than four frames wait, the next
    /// one takes its place. Bursts of a few frames are left alone.
    pub fn shed(&mut self, frame: Vec<i16>) -> (r: Vec<i16>)
        ensures
            seq![r] + final(self).frames@ == newest_five(seq![frame] + old(self).frames@),
    {
        let mut current: Vec<i16> = frame;
        let ghost mut gone: int = 0;
        let ghost all = seq![frame] + self.frames@;
        assert(self.frames@.skip(0) =~= self.frames@);
        while self.frames.len() > 4
            invariant
                0 <= gone <= old(self).frames@.len(),
                self.frames@ == old(self).frames@.skip(gone),
                gone == 0 ==> current == frame,
                gone > 0 ==> current == old(self).frames@[gone - 1] && old(self).frames@.len() - gone
                    >= 4,
            decreases self.frames@.len(),
        {
            match self.frames.pop_front() {
                Some(f) => {
                    current = f;
                    proof {
                        gone = gone + 1;
                        assert(self.frames@ =~= old(self).frames@.skip(gone));
                    }
                },
                None => {},
            }
        }
        assert(seq![current] + self.frames@ =~= newest_five(all));
        current
    }
}

/// The newest five of captured frames: one to send and four that may wait.
pub open spec fn newest_five(frames: Seq<Vec<i16>>) -> Seq<Vec<i16>> {
    if frames.len() > 5 {
        frames.skip(frames.len() - 5)
    } else {
        frames
    }
}

/// What the send loop does with a frame.
#[derive(Debug, Clone, Copy, PartialEq, Eq, Structural)]
pub enum FrameVerdict {
    /// The session ends: leave the loop.
    Stop,
    /// Muted: drop the frame.
    Drop,
    /// Process, encode and send it.
    Send,
}

/// What the send loop does next.
pub enum SendTurn {
    /// No frame waits.
    Wait,
    /// The session ends: leave the loop.
    Stop,
    /// The frame was dropped.
    Dropped,
    /// Measure this frame, pass it through the chain, encode it, and hand it to
    /// every peer.
    Process { frame: Vec<i16> },
}

/// The chain with which a frame is taken up: a new one if the user chose another
/// model. Either way its echo canceller is on if and only if the user wants it; one
/// that was off starts anew.
pub open spec fn chain_for(
    before: NoiseSuppressor,
    after: NoiseSuppressor,
    built_for: SuppressorModel,
    model: SuppressorModel,
    loaded: bool,
    aec_enabled: bool,
) -> bool {
    if model != built_for {
        after.fresh(
            false,
            false,
            if loaded {
                crate::voice::suppressor::model_enhancer(model)
            } else {
                None
            },
            aec_enabled,
        )
    } else if before.aec is Some == aec_enabled {
        after == before
    } else {
        after.fresh_aec(aec_enabled) && after.same_but_aec(&before)
    }
}

/// The chain once its echo canceller, where it is on, has heard the `played` samples.
/// Where these were more than its queue holds, some are missing from what it was
/// told, and it starts anew with the newest of them.
pub open spec fn heard(before: NoiseSuppressor, played: Seq<i16>, after: NoiseSuppressor) -> bool {
    let told = crate::voice::suppressor::render_calls(
        crate::voice::frames::blocks(crate::voice::output::newest(played, RENDER_CAP as int), 480),
    );
    if played.len() <= RENDER_CAP {
        crate::voice::suppressor::fed(before, after, told)
    } else {
        &&& after.same_but_aec(&before)
        &&& match (before.aec, after.aec) {
            (Some(_), Some(b)) => b.calls() == told && b.settings()
                == crate::voice::suppressor::aec_settings(48000),
            (None, None) => true,
            _ => false,
        }
    }
}

/// The state of the send loop between frames.
pub struct SendLoop {
    /// The model that the chain was built with.
    pub model: SuppressorModel,
}

impl SendLoop {
    /// A loop whose chain is built with `model`.
    pub fn new(model: SuppressorModel) -> (r: Self)
        ensures
            r.model == model,
    {
        SendLoop { model }
    }

    /// Takes up a frame: whether the chain has to be rebuilt because the user
    /// chose another model, and what becomes of the frame.
    pub fn begin(&mut self, model: SuppressorModel, stopping: bool, muted: bool) -> (r: (
        bool,
        FrameVerdict,
    ))
        ensures
            r.0 == (model != old(self).model),
            r.1 == (if stopping {
                FrameVerdict::Stop
            } else if muted {
                FrameVerdict::Drop
            } else {
                FrameVerdict::Send
            }),
            final(self).model == model,
    {
        let rebuild: bool = model != self.model;
        self.model = model;
        if stopping {
            (rebuild, FrameVerdict::Stop)
        } else if muted {
            (rebuild, FrameVerdict::Drop)
        } else {
            (rebuild, FrameVerdict::Send)
        }
    }

    /// Takes up the next captured frame. Whatever becomes of it, a change of the
    /// model rebuilds the chain, and its echo canceller follows the user's switch. A
    /// frame to send first lets the canceller, if it is on, hear what was played, and
    /// gives way to newer ones if a backlog waits.
    pub fn turn(
        &mut self,
        queue: &mut SendQueue,
        tap: &mut BlockQueue<i16>,
        chain: &mut NoiseSuppressor,
        model: SuppressorModel,
        loaded: bool,
        stopping: bool,
        muted: bool,
        aec_enabled: bool,
    ) -> (r: SendTurn)
        ensures
            if old(queue).frames@.len() == 0 {
                &&& r is Wait
                &&& *final(self) == *old(self)
                &&& final(queue).frames@ == old(queue).frames@
                &&& *final(tap) == *old(tap)
                &&& *final(chain) == *old(chain)
            } else {
                &&& final(self).model == model
                &&& final(chain).aec is Some == aec_enabled
                &&& if stopping || muted {
                    &&& r == (if stopping {
                        SendTurn::Stop
                    } else {
                        SendTurn::Dropped
                    })
                    &&& final(queue).frames@ == old(queue).frames@.skip(1)
                    &&& *final(tap) == *old(tap)
                    &&& chain_for(
                        *old(chain),
                        *final(chain),
                        old(self).model,
                        model,
                        loaded,
                        aec_enabled,
                    )
                } else {
                    &&& r matches SendTurn::Process { frame }
                    &&& seq![frame] + final(queue).frames@ == newest_five(old(queue).frames@)
                    &&& final(tap).buf@.len() == 0
                    &&& exists|c: NoiseSuppressor|
                        {
                            &&& #[trigger] chain_for(
                                *old(chain),
                                c,
                                old(self).model,
                                model,
                                loaded,
                                aec_enabled,
                            )
                            &&& if aec_enabled {
                                heard(c, old(tap).buf@, *final(chain))
                            } else {
                                *final(chain) == c
                            }
                        }
                }
            },
    {
        let frame: Vec<i16> = match queue.pop() {
            Some(f) => f,
            None => {
                return SendTurn::Wait;
            },
        };
        assert(seq![frame] + queue.frames@ =~= old(queue).frames@);
        let (rebuild, verdict) = self.begin(model, stopping, muted);
        if rebuild {
            *chain = NoiseSuppressor::with_model_and_aec(model, aec_enabled, loaded);
        } else {
            chain.set_aec(aec_enabled);
        }
        let ghost c = *chain;
        assert(chain_for(*old(chain), c, old(self).model, model, loaded, aec_enabled));
        match verdict {
            FrameVerdict::Stop => SendTurn::Stop,
            FrameVerdict::Drop => SendTurn::Dropped,
            FrameVerdict::Send => {
                let overflow: bool = tap.buf.len() > RENDER_CAP;
                let render: Vec<i16> = take_render(tap);
                if aec_enabled {
                    if overflow {
                        chain.reset_aec();
                    }
                    chain.process_render_frame(render.as_slice());
                }
                SendTurn::Process { frame: queue.shed(frame) }
            },
        }
    }
}

/// A backlog never outlives one turn: at most four frames wait behind the one that
/// is sent, in the order in which they were captured, and the newest frame is never
/// shed.
pub proof fn law_backlog_bounded(frames: Seq<Vec<i16>>)
    requires
        frames.len() > 0,
    ensures
        1 <= newest_five(frames).len() <= 5,
        newest_five(frames).last() == frames.last(),
        newest_five(frames) == frames.skip(frames.len() - newest_five(frames).len()),
{
    assert(frames.skip(0) =~= frames);
}

/// What is sent is the oldest captured frame, unless more than five wait: of these
/// only the newest five count, and the others are shed. The rest waits on in order.
pub proof fn law_turn_sends_oldest(
    l: &mut SendLoop,
    q: &mut SendQueue,
    tap: &mut BlockQueue<i16>,
    chain: &mut NoiseSuppressor,
    model: SuppressorModel,
    loaded: bool,
    aec_enabled: bool,
    r: SendTurn,
    i: int,
)
    requires
        call_ensures(
            SendLoop::turn,
            (l, q, tap, chain, model, loaded, false, false, aec_enabled),
            r,
        ),
    ensures
        old(q).frames@.len() == 0 <==> r is Wait,
        old(q).frames@.len() > 0 ==> {
            let n = old(q).frames@.len() as int;
            let first = if n > 5 {
                n - 5
            } else {
                0
            };
            &&& r matches SendTurn::Process { frame }
            &&& frame == old(q).frames@[first]
            &&& final(q).frames@.len() == n - first - 1
            &&& 0 <= i < n - first - 1 ==> final(q).frames@[i] == old(q).frames@[first + 1 + i]
            &&& final(tap).buf@.len() == 0
        },
{
    if old(q).frames@.len() > 0 {
        let frame = r->frame;
        let all = seq![frame] + final(q).frames@;
        assert(all == newest_five(old(q).frames@));
        assert(all[0] == frame);
        assert(all.len() == final(q).frames@.len() + 1);
        if 0 <= i < final(q).frames@.len() {
            assert(all[i + 1] == final(q).frames@[i]);
        }
    }
}

/// A muted loop drops one frame at a time and a stopping one ends, whatever waits;
/// neither tells the canceller anything.
pub proof fn law_turn_drops(
    l: &mut SendLoop,
    q: &mut SendQueue,
    tap: &mut BlockQueue<i16>,
    chain: &mut NoiseSuppressor,
    model: SuppressorModel,
    loaded: bool,
    stopping: bool,
    muted: bool,
    aec_enabled: bool,
    r: SendTurn,
)
    requires
        stopping || muted,
        old(q).frames@.len() > 0,
        call_ensures(
            SendLoop::turn,
            (l, q, tap, chain, model, loaded, stopping, muted, aec_enabled),
            r,
        ),
    ensures
        r is Stop <==> stopping,
        r is Dropped <==> !stopping,
        final(q).frames@ == old(q).frames@.skip(1),
        *final(tap) == *old(tap),
        final(l).model == model,
{
}

/// The chain follows the user: another model makes a new chain with that model's
/// denoiser, the same model keeps the denoiser and what it found, and the canceller is
/// on exactly if it is wanted. A canceller that stays on is told what was played, in
/// blocks of 10 ms and in order, behind what it heard before; one that was just
/// switched on, or whose queue held more than half a second, hears nothing else.
pub proof fn law_turn_keeps_chain(
    l: &mut SendLoop,
    q: &mut SendQueue,
    tap: &mut BlockQueue<i16>,
    chain: &mut NoiseSuppressor,
    model: SuppressorModel,
    loaded: bool,
    aec_enabled: bool,
    r: SendTurn,
    i: int,
)
    requires
        old(q).frames@.len() > 0,
        call_ensures(
            SendLoop::turn,
            (l, q, tap, chain, model, loaded, false, false, aec_enabled),
            r,
        ),
    ensures
        final(l).model == model,
        final(chain).aec is Some <==> aec_enabled,
        model == old(l).model ==> final(chain).fe == old(chain).fe
            && final(chain).neural == old(chain).neural
            && final(chain).rnnoise == old(chain).rnnoise
            && final(chain).speech_detected == old(chain).speech_detected
            && final(chain).last_lsnr == old(chain).last_lsnr,
        model != old(l).model ==> final(chain).fe is Some == (loaded && !(model is NsOnly))
            && !final(chain).speech_detected,
        aec_enabled ==> {
            let played = old(tap).buf@;
            let told = if played.len() <= 24000 {
                played
            } else {
                played.skip(played.len() - 24000)
            };
            let before = if model == old(l).model && old(chain).aec is Some && played.len()
                <= 24000 {
                old(chain).aec->0.calls()
            } else {
                Seq::empty()
            };
            let after = final(chain).aec->0.calls();
            &&& after.len() == before.len() + told.len() as int / 480
            &&& 0 <= i < before.len() ==> after[i] == before[i]
            &&& 0 <= i < told.len() as int / 480 ==> after[before.len() + i]
                == crate::voice::suppressor::AecCall::Render(
                told.subrange(480 * i, 480 * i + 480),
            )
        },
{
    let played = old(tap).buf@;
    let told = if played.len() <= 24000 {
        played
    } else {
        played.skip(played.len() - 24000)
    };
    crate::voice::frames::law_blocks_cover(told, 480);
    if 0 <= i < told.len() as int / 480 {
        crate::voice::suppressor::lemma_block_is_range(told, i);
    }
}

/// Captured frames are queued in their order, and shedding keeps the newest.
pub proof fn law_queue_order(
    fresh: SendQueue,
    a: &mut SendQueue,
    frame: Vec<i16>,
    b: &mut SendQueue,
    oldest: Option<Vec<i16>>,
    c: &mut SendQueue,
    current: Vec<i16>,
    r: Vec<i16>,
)
    requires
        call_ensures(SendQueue::new, (), fresh),
        call_ensures(SendQueue::push, (a, frame), ()),
        *old(b) == *final(a),
        call_ensures(SendQueue::pop, (b,), oldest),
        call_ensures(SendQueue::shed, (c, current), r),
    ensures
        fresh.frames@.len() == 0,
        final(a).frames@.last() == frame,
        final(a).frames@.drop_last() == old(a).frames@,
        (oldest matches Some(f) && f == final(a).frames@[0]
            && final(b).frames@ == final(a).frames@.skip(1)),
        old(c).frames@.len() <= 4 ==> r == current && final(c).frames@ == old(c).frames@,
        old(c).frames@.len() > 4 ==> final(c).frames@.len() == 4
            && r == old(c).frames@[old(c).frames@.len() - 5]
            && final(c).frames@ == old(c).frames@.skip(
            old(c).frames@.len() - 4,
        ),
{
    assert(final(a).frames@.drop_last() =~= old(a).frames@);
    let all = seq![current] + old(c).frames@;
    let got = seq![r] + final(c).frames@;
    assert(got == newest_five(all));
    assert(got[0] == r);
    assert(final(c).frames@ =~= got.skip(1));
    if old(c).frames@.len() <= 4 {
        assert(got == all);
        assert(all[0] == current);
        assert(all.skip(1) =~= old(c).frames@);
    } else {
        let n = old(c).frames@.len() as int;
        assert(got[0] == all[n - 4]);
        assert(got.skip(1) =~= old(c).frames@.skip(n - 4));
    }
}

/// A loop notices another model once, and stopping comes before muting.
pub proof fn law_begin(
    made: SendLoop,
    first: SuppressorModel,
    a: &mut SendLoop,
    model: SuppressorModel,
    stopping: bool,
    muted: bool,
    x: (bool, FrameVerdict),
    b: &mut SendLoop,
    y: (bool, FrameVerdict),
)
    requires
        call_ensures(SendLoop::new, (first,), made),
        *old(a) == made,
        call_ensures(SendLoop::begin, (a, model, stopping, muted), x),
        *old(b) == *final(a),
        call_ensures(SendLoop::begin, (b, model, stopping, muted), y),
    ensures
        x.0 <==> model != first,
        !y.0,
        x.1 is Stop <==> stopping,
        x.1 is Drop <==> !stopping && muted,
        x.1 is Send <==> !stopping && !muted,
        y.1 == x.1,
{
}

} // verus!
