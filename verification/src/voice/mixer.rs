//! The playout mixer: one 20 ms frame of every peer summed into one frame.
use vstd::prelude::*;

use crate::strmap::StrMap;
use crate::voice::event::{PeerLevel, VoiceEvent};

verus! {

/// A sum held in 32 bits, cut off at the ends of the range.
pub open spec fn saturated(v: int) -> int {
    if v > i32::MAX {
        i32::MAX as int
    } else if v < i32::MIN {
        i32::MIN as int
    } else {
        v
    }
}

/// A sample held in 16 bits, cut off at the ends of the range.
pub open spec fn clamped(v: int) -> int {
    if v > i16::MAX {
        i16::MAX as int
    } else if v < i16::MIN {
        i16::MIN as int
    } else {
        v
    }
}

/// Sample `k` of a frame; silence behind its end.
pub open spec fn sample_at(frame: Seq<i16>, k: int) -> int {
    if 0 <= k < frame.len() {
        frame[k] as int
    } else {
        0
    }
}

/// Sample `k` of the sum of frames, each step cut off to 32 bits.
pub open spec fn mix_at(frames: Seq<Vec<i16>>, k: int) -> int
    decreases frames.len(),
{
    if frames.len() == 0 {
        0
    } else {
        saturated(mix_at(frames.drop_last(), k) + sample_at(frames.last()@, k))
    }
}

/// Mixes the frames of the peers that have something to play. Without any, the
/// mix is silence.
pub fn mix(frames: &Vec<Vec<i16>>) -> (r: Vec<i16>)
    requires
        forall|i: int| 0 <= i < frames@.len() ==> (#[trigger] frames@[i])@.len() <= 960,
    ensures
        r@.len() == 960,
        forall|k: int| 0 <= k < 960 ==> #[trigger] r@[k] == clamped(mix_at(frames@, k)),
{
    let mut acc: Vec<i32> = Vec::new();
    let mut i: usize = 0;
    while i < 960
        invariant
            i <= 960,
            acc@.len() == i,
            forall|k: int| 0 <= k < i ==> #[trigger] acc@[k] == 0,
        decreases 960 - i,
    {
        acc.push(0);
        i = i + 1;
    }
    let n: usize = frames.len();
    let mut p: usize = 0;
    assert(frames@.take(0) =~= Seq::<Vec<i16>>::empty());
    while p < n
        invariant
            n == frames@.len(),
            p <= n,
            acc@.len() == 960,
            forall|i: int| 0 <= i < frames@.len() ==> (#[trigger] frames@[i])@.len() <= 960,
            forall|k: int| 0 <= k < 960 ==> #[trigger] acc@[k] == mix_at(frames@.take(p as int), k),
        decreases n - p,
    {
        let frame: &Vec<i16> = &frames[p];
        let len: usize = frame.len();
        let ghost before = acc@;
        let mut k: usize = 0;
        while k < len
            invariant
                len == frame@.len(),
                len <= 960,
                acc@.len() == 960,
                before.len() == 960,
                k <= len,
                forall|j: int| 0 <= j < k ==> #[trigger] acc@[j] == saturated(before[j] + frame@[j]),
                forall|j: int| k <= j < 960 ==> #[trigger] acc@[j] == before[j],
            decreases len - k,
        {
            let sum: i64 = acc[k] as i64 + frame[k] as i64;
            let held: i32 = if sum > i32::MAX as i64 {
                i32::MAX
            } else if sum < i32::MIN as i64 {
                i32::MIN
            } else {
                sum as i32
            };
            acc.set(k, held);
            k = k + 1;
        }
        proof {
            let t = frames@.take(p + 1);
            assert(t.drop_last() =~= frames@.take(p as int));
            assert(t.last() == frames@[p as int]);
            assert forall|j: int| 0 <= j < 960 implies #[trigger] acc@[j] == mix_at(t, j) by {
                assert(before[j] == mix_at(frames@.take(p as int), j));
            }
        }
        p = p + 1;
    }
    assert(frames@.take(n as int) =~= frames@);
    let mut out: Vec<i16> = Vec::new();
    let mut k: usize = 0;
    while k < 960
        invariant
            k <= 960,
            acc@.len() == 960,
            out@.len() == k,
            forall|j: int| 0 <= j < k ==> #[trigger] out@[j] == clamped(acc@[j] as int),
        decreases 960 - k,
    {
        let v: i32 = acc[k];
        let s: i16 = if v > i16::MAX as i32 {
            i16::MAX
        } else if v < i16::MIN as i32 {
            i16::MIN
        } else {
            v as i16
        };
        out.push(s);
        k = k + 1;
    }
    out
}

/// Sample `k` of the plain sum of frames.
pub open spec fn sum_at(frames: Seq<Vec<i16>>, k: int) -> int
    decreases frames.len(),
{
    if frames.len() == 0 {
        0
    } else {
        let rest = sum_at(frames.drop_last(), k);
        if 0 <= k < frames.last()@.len() {
            rest + frames.last()@[k]
        } else {
            rest
        }
    }
}

/// With up to 65535 peers no step of the sum is cut off: the mix is the clamped
/// plain sum of the samples, in whatever order the peers come.
pub proof fn law_mix_is_sum(frames: Seq<Vec<i16>>, k: int)
    requires
        frames.len() <= 65535,
    ensures
        mix_at(frames, k) == sum_at(frames, k),
        -32768 * frames.len() <= sum_at(frames, k) <= 32767 * frames.len(),
    decreases frames.len(),
{
    if frames.len() > 0 {
        law_mix_is_sum(frames.drop_last(), k);
    }
}

proof fn lemma_sum_without(frames: Seq<Vec<i16>>, i: int, k: int)
    requires
        0 <= i < frames.len(),
    ensures
        sum_at(frames, k) == sum_at(frames.remove(i), k) + sample_at(frames[i]@, k),
    decreases frames.len(),
{
    if i < frames.len() - 1 {
        let p = frames.drop_last();
        lemma_sum_without(p, i, k);
        assert(frames.remove(i).drop_last() =~= p.remove(i));
        assert(frames.remove(i).last() == frames.last());
    } else {
        assert(frames.remove(i) =~= frames.drop_last());
    }
}

/// The order of the peers does not matter.
pub proof fn law_mix_order(a: Seq<Vec<i16>>, b: Seq<Vec<i16>>, k: int)
    requires
        a.to_multiset() == b.to_multiset(),
    ensures
        sum_at(a, k) == sum_at(b, k),
    decreases a.len(),
{
    broadcast use vstd::seq_lib::group_to_multiset_ensures;

    assert(a.to_multiset().len() == a.len() && b.to_multiset().len() == b.len());
    if a.len() > 0 {
        let x = a.last();
        assert(a.contains(x));
        assert(a.to_multiset().count(x) > 0);
        assert(b.contains(x));
        let i = choose|i: int| 0 <= i < b.len() && b[i] == x;
        lemma_sum_without(b, i, k);
        assert(a.remove(a.len() - 1) =~= a.drop_last());
        assert(a.drop_last().to_multiset() =~= b.remove(i).to_multiset());
        law_mix_order(a.drop_last(), b.remove(i), k);
    }
}

/// One peer alone is heard as it is.
pub proof fn law_single_peer_unchanged(frame: Vec<i16>, k: int)
    requires
        0 <= k < frame@.len(),
    ensures
        clamped(mix_at(seq![frame], k)) == frame@[k],
{
    assert(seq![frame].drop_last() =~= Seq::<Vec<i16>>::empty());
    assert(mix_at(seq![frame].drop_last(), k) == 0);
}

/// Appends what one pull of the decoder gave to a peer's frame, as far as the
/// frame has room.
pub fn append_pull(pcm: &mut Vec<i16>, samples: &[i16])
    requires
        old(pcm)@.len() <= 960,
    ensures
        final(pcm)@.len() <= 960,
        final(pcm)@ == old(pcm)@ + samples@.take(
            if samples@.len() <= 960 - old(pcm)@.len() {
                samples@.len() as int
            } else {
                960 - old(pcm)@.len()
            },
        ),
{
    let room: usize = 960 - pcm.len();
    let n: usize = if samples.len() <= room {
        samples.len()
    } else {
        room
    };
    let mut i: usize = 0;
    assert(pcm@ =~= old(pcm)@ + samples@.take(0));
    while i < n
        invariant
            n <= samples@.len(),
            i <= n,
            pcm@ == old(pcm)@ + samples@.take(i as int),
        decreases n - i,
    {
        pcm.push(samples[i]);
        i = i + 1;
        assert(old(pcm)@ + samples@.take(i as int) =~= (old(pcm)@ + samples@.take(i - 1)).push(
            samples@[i - 1],
        ));
    }
}

/// The level event of a tick: the local level and the level of every peer.
pub fn levels_event(local: u32, levels: &StrMap<u32>) -> (r: VoiceEvent)
    ensures
        r matches VoiceEvent::Levels { local: l, peers } && l == local && peers@.len()
            == levels.entries@.len() && forall|i: int|
            0 <= i < peers@.len() ==> (#[trigger] peers@[i]).peer_id == levels.entries@[i].0
                && peers@[i].level == levels.entries@[i].1,
{
    let mut peers: Vec<PeerLevel> = Vec::new();
    let n: usize = levels.entries.len();
    let mut i: usize = 0;
    while i < n
        invariant
            n == levels.entries@.len(),
            i <= n,
            peers@.len() == i,
            forall|j: int|
                0 <= j < i ==> (#[trigger] peers@[j]).peer_id == levels.entries@[j].0
                    && peers@[j].level == levels.entries@[j].1,
        decreases n - i,
    {
        peers.push(
            PeerLevel { peer_id: levels.entries[i].0.clone(), level: levels.entries[i].1 },
        );
        i = i + 1;
    }
    VoiceEvent::Levels { local, peers }
}

/// Every sample of a mix is the 16-bit number nearest to the plain sum of the peers'
/// samples: no other is nearer, and the sum itself is taken wherever it fits.
pub proof fn law_mix_is_nearest(frames: &Vec<Vec<i16>>, r: Vec<i16>, k: int, other: i16)
    requires
        frames@.len() <= 65535,
        call_ensures(mix, (frames,), r),
        0 <= k < 960,
    ensures
        r@.len() == 960,
        sum_at(frames@, k) < i16::MIN ==> r@[k] == i16::MIN,
        sum_at(frames@, k) > i16::MAX ==> r@[k] == i16::MAX,
        i16::MIN <= sum_at(frames@, k) <= i16::MAX ==> r@[k] == sum_at(frames@, k),
        distance(r@[k] as int, sum_at(frames@, k)) <= distance(other as int, sum_at(frames@, k)),
{
    law_mix_is_sum(frames@, k);
}

/// How far two numbers are apart.
pub open spec fn distance(a: int, b: int) -> int {
    if a <= b {
        b - a
    } else {
        a - b
    }
}

/// A mix follows its parts: where one peer's sample rises and the others' stay, the
/// mix does not fall.
pub proof fn law_mix_monotone(
    a: &Vec<Vec<i16>>,
    b: &Vec<Vec<i16>>,
    x: Vec<i16>,
    y: Vec<i16>,
    k: int,
)
    requires
        a@.len() == b@.len(),
        a@.len() <= 65535,
        0 <= k < 960,
        forall|i: int|
            0 <= i < a@.len() ==> (#[trigger] a@[i])@.len() == 960 && b@[i]@.len() == 960
                && a@[i]@[k] <= b@[i]@[k],
        call_ensures(mix, (a,), x),
        call_ensures(mix, (b,), y),
    ensures
        x@[k] <= y@[k],
{
    law_mix_is_sum(a@, k);
    law_mix_is_sum(b@, k);
    lemma_sum_monotone(a@, b@, k);
}

proof fn lemma_sum_monotone(a: Seq<Vec<i16>>, b: Seq<Vec<i16>>, k: int)
    requires
        a.len() == b.len(),
        0 <= k < 960,
        forall|i: int|
            0 <= i < a.len() ==> (#[trigger] a[i])@.len() == 960 && b[i]@.len() == 960 && a[i]@[k]
                <= b[i]@[k],
    ensures
        sum_at(a, k) <= sum_at(b, k),
    decreases a.len(),
{
    if a.len() > 0 {
        assert(a.last() == a[a.len() - 1] && b.last() == b[b.len() - 1]);
        lemma_sum_monotone(a.drop_last(), b.drop_last(), k);
    }
}

/// Nobody, or only silence, is silence; and one peer alone is heard as it is, with
/// silence behind the end of its frame.
pub proof fn law_mix_of_one(frames: &Vec<Vec<i16>>, r: Vec<i16>, k: int)
    requires
        call_ensures(mix, (frames,), r),
        0 <= k < 960,
        frames@.len() <= 1,
    ensures
        frames@.len() == 0 ==> r@[k] == 0,
        frames@.len() == 1 && k < frames@[0]@.len() ==> r@[k] == frames@[0]@[k],
        frames@.len() == 1 && k >= frames@[0]@.len() ==> r@[k] == 0,
{
    law_mix_is_sum(frames@, k);
    if frames@.len() == 1 {
        assert(frames@.drop_last() =~= Seq::<Vec<i16>>::empty());
        assert(sum_at(frames@.drop_last(), k) == 0);
    }
}

/// A peer more adds its samples: the mix with it is nearest to the sum of the others
/// and its own.
pub proof fn law_mix_adds(
    few: &Vec<Vec<i16>>,
    more: &Vec<Vec<i16>>,
    peer: Vec<i16>,
    x: Vec<i16>,
    y: Vec<i16>,
    k: int,
)
    requires
        more@ == few@.push(peer),
        more@.len() <= 65535,
        peer@.len() == 960,
        0 <= k < 960,
        call_ensures(mix, (few,), x),
        call_ensures(mix, (more,), y),
    ensures
        i16::MIN < x@[k] < i16::MAX && i16::MIN <= x@[k] + peer@[k] <= i16::MAX ==> y@[k] == x@[k]
            + peer@[k],
        peer@[k] == 0 ==> y@[k] == x@[k],
        peer@[k] >= 0 ==> y@[k] >= x@[k],
        peer@[k] <= 0 ==> y@[k] <= x@[k],
{
    law_mix_is_sum(few@, k);
    law_mix_is_sum(more@, k);
    assert(more@.drop_last() =~= few@);
}

/// A frame grows by what the decoder gives and never beyond 960 samples: what was
/// there stays in front, and what follows are the first of the new samples.
pub proof fn law_pull_appends(pcm: &mut Vec<i16>, samples: &[i16], k: int)
    requires
        old(pcm)@.len() <= 960,
        call_ensures(append_pull, (pcm, samples), ()),
    ensures
        final(pcm)@.len() == (if old(pcm)@.len() + samples@.len() <= 960 {
            old(pcm)@.len() + samples@.len()
        } else {
            960
        }),
        0 <= k < old(pcm)@.len() ==> final(pcm)@[k] == old(pcm)@[k],
        old(pcm)@.len() <= k < final(pcm)@.len()
            ==> final(pcm)@[k] == samples@[k - old(pcm)@.len()],
{
}

/// Each peer has its own level in the event of a tick.
pub proof fn law_levels_by_peer(local: u32, levels: &StrMap<u32>, r: VoiceEvent, i: int)
    requires
        call_ensures(levels_event, (local, levels), r),
        0 <= i < levels.entries@.len(),
    ensures
        r matches VoiceEvent::Levels { local: l, peers } && {
            &&& l == local
            &&& peers@.len() == levels.entries@.len()
            &&& peers@[i].peer_id@ == levels.entries@[i].0@
            &&& peers@[i].level == levels.entries@[i].1
        },
{
}

} // verus!
