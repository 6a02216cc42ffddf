//! The jitter buffer: RTP packets in, frames out in play order.
use std::collections::BTreeMap;
use vstd::prelude::*;

verus! {

/// Orders RTP packets by timestamp and hands frames out in play order, one for
/// each 20 ms tick. Playout starts once the target of frames is buffered, counted
/// from the oldest to the newest timestamp; from then on a missing timestamp is a
/// lost frame, and packets that come after their play time are discarded.
pub struct JitterBuffer {
    /// Packets by timestamp, with their sequence numbers.
    pub pending: BTreeMap<u32, Vec<(u16, Vec<u8>)>>,
    /// The play cursor, once playout runs.
    pub next_ts: Option<u32>,
    /// The samples of the target of frames.
    pub target: u32,
    /// Timestamps that came too late to be played.
    pub dropped: u64,
}

/// The place of the packet with the lowest sequence number, the one that came
/// first among equals.
pub open spec fn earliest(s: Seq<(u16, Vec<u8>)>) -> int {
    choose|i: int| #[trigger] is_earliest(s, i)
}

/// Whether `i` is the place of the packet to play.
pub open spec fn is_earliest(s: Seq<(u16, Vec<u8>)>, i: int) -> bool {
    &&& 0 <= i < s.len()
    &&& forall|j: int| 0 <= j < s.len() ==> s[i].0 <= (#[trigger] s[j]).0
    &&& forall|j: int| 0 <= j < i ==> (#[trigger] s[j]).0 > s[i].0
}

/// Whether `k` is the smallest of `s`.
pub open spec fn is_least(s: Set<u32>, k: u32) -> bool {
    s.contains(k) && forall|j: u32| #[trigger] s.contains(j) ==> k <= j
}

/// Whether `k` is the largest of `s`.
pub open spec fn is_greatest(s: Set<u32>, k: u32) -> bool {
    s.contains(k) && forall|j: u32| #[trigger] s.contains(j) ==> j <= k
}

impl JitterBuffer {
    /// Every timestamp in the buffer has a packet.
    pub open spec fn wf(&self) -> bool {
        forall|t: u32| #[trigger] self.pending@.contains_key(t) ==> self.pending@[t]@.len() > 0
    }

    /// The packets of a timestamp, in order of arrival.
    pub open spec fn packets(&self, t: u32) -> Seq<(u16, Vec<u8>)> {
        if self.pending@.contains_key(t) {
            self.pending@[t]@
        } else {
            Seq::empty()
        }
    }

    /// An empty buffer that starts to play when `target_frames` are buffered.
    pub fn new(target_frames: u32) -> (r: Self)
        requires
            target_frames * 960 <= u32::MAX,
        ensures
            r.wf(),
            r.pending@ == Map::<u32, Vec<(u16, Vec<u8>)>>::empty(),
            r.next_ts is None,
            r.target == target_frames * 960,
            r.dropped == 0,
    {
        JitterBuffer {
            pending: BTreeMap::new(),
            next_ts: None,
            target: target_frames * 960,
            dropped: 0,
        }
    }

    fn first_and_last(&self) -> (r: Option<(u32, u32)>)
        ensures
            r is None ==> self.pending@.dom() =~= Set::<u32>::empty(),
            r matches Some((a, b)) ==> is_least(self.pending@.dom(), a) && is_greatest(
                self.pending@.dom(),
                b,
            ),
    {
        let mut found: Option<(u32, u32)> = None;
        for kv in it: self.pending.iter()
            invariant
                found is None ==> it.index() == 0,
                found matches Some((a, b)) ==> {
                    &&& exists|i: int| 0 <= i < it.index() && *(#[trigger] it.seq()[i]).0 == a
                    &&& exists|i: int| 0 <= i < it.index() && *(#[trigger] it.seq()[i]).0 == b
                    &&& forall|i: int|
                        0 <= i < it.index() ==> a <= *(#[trigger] it.seq()[i]).0 <= b
                },
        {
            let k: u32 = *kv.0;
            found = match found {
                None => Some((k, k)),
                Some((a, b)) => Some((if k < a { k } else { a }, if k > b { k } else { b })),
            };
        }
        found
    }

    /// Adds a packet. Once playout runs, whatever lies before the play cursor is
    /// discarded and counted, timestamp by timestamp.
    pub fn push(&mut self, seq: u16, timestamp: u32, payload: Vec<u8>)
        requires
            old(self).wf(),
            old(self).dropped + stale(
                old(self).pending@.dom().insert(timestamp),
                old(self).next_ts,
            ).len() <= u64::MAX,
        ensures
            final(self).wf(),
            push_result(*old(self), seq, timestamp, payload, *final(self)),
    {
        let mut list: Vec<(u16, Vec<u8>)> = match self.pending.remove(&timestamp) {
            Some(l) => l,
            None => Vec::new(),
        };
        list.push((seq, payload));
        self.pending.insert(timestamp, list);
        let ghost held = self.pending@;
        assert(held.dom() =~= old(self).pending@.dom().insert(timestamp));
        proof {
            if old(self).pending@.contains_key(timestamp) {
                assert(old(self).pending@.dom().insert(timestamp) =~= old(self).pending@.dom());
            }
        }
        match self.next_ts {
            None => {
                assert(stale(held.dom(), self.next_ts) =~= Set::<u32>::empty());
            },
            Some(next) => {
                let ghost total = stale(held.dom(), Some(next)).len();
                proof {
                    lemma_stale_len(held.dom(), Some(next));
                }
                loop
                    invariant
                        self.next_ts == Some(next),
                        self.target == old(self).target,
                        old(self).dropped + total <= u64::MAX,
                        self.dropped + stale(self.pending@.dom(), Some(next)).len()
                            == old(self).dropped + total,
                        forall|t: u32| #[trigger]
                            self.pending@.contains_key(t) ==> held.contains_key(t)
                                && self.pending@[t] == held[t],
                        forall|t: u32|
                            held.contains_key(t) && t >= next ==> #[trigger] self.pending@.contains_key(t),
                    ensures
                        forall|t: u32| #[trigger] self.pending@.contains_key(t) ==> t >= next,
                        stale(self.pending@.dom(), Some(next)).len() == 0,
                    decreases self.pending@.dom().len(),
                {
                    match self.first_and_last() {
                        None => {
                            assert(stale(self.pending@.dom(), Some(next)) =~= Set::<u32>::empty());
                            break;
                        },
                        Some((first, _)) => {
                            if first >= next {
                                assert(stale(self.pending@.dom(), Some(next)) =~= Set::<
                                    u32,
                                >::empty());
                                break;
                            }
                            let ghost dom = self.pending@.dom();
                            let _gone = self.pending.remove(&first);
                            proof {
                                assert(self.pending@.dom() =~= dom.remove(first));
                                assert(stale(dom, Some(next)).contains(first));
                                assert(stale(dom.remove(first), Some(next)) =~= stale(
                                    dom,
                                    Some(next),
                                ).remove(first));
                                lemma_stale_len(dom, Some(next));
                            }
                            self.dropped = self.dropped + 1;
                        },
                    }
                }
            },
        }
    }

    /// The place of the packet to play.
    fn earliest_of(list: &Vec<(u16, Vec<u8>)>) -> (r: usize)
        requires
            list@.len() > 0,
        ensures
            is_earliest(list@, r as int),
            r == earliest(list@),
    {
        let n: usize = list.len();
        let mut best: usize = 0;
        let mut i: usize = 1;
        while i < n
            invariant
                n == list@.len(),
                1 <= i <= n,
                best < i,
                forall|j: int| 0 <= j < i ==> list@[best as int].0 <= (#[trigger] list@[j]).0,
                forall|j: int| 0 <= j < best ==> (#[trigger] list@[j]).0 > list@[best as int].0,
            decreases n - i,
        {
            if list[i].0 < list[best].0 {
                best = i;
            }
            i = i + 1;
        }
        assert(is_earliest(list@, best as int));
        best
    }

    /// Advances playout by one frame. `Some(Some(..))`: play this frame, with its
    /// timestamp; `Some(None)`: the frame is lost, conceal it; `None`: wait.
    pub fn pop(&mut self) -> (r: Option<Option<(u32, Vec<u8>)>>)
        requires
            old(self).wf(),
            can_pop(*old(self)),
        ensures
            final(self).wf(),
            pop_result(*old(self), *final(self), r),
    {
        let (first, newest): (u32, u32) = match self.first_and_last() {
            None => {
                return None;
            },
            Some(p) => p,
        };
        let ts: u32 = match self.next_ts {
            None => {
                if newest - first < self.target && self.target - (newest - first) > 960 {
                    return None;
                }
                first
            },
            Some(ts) => ts,
        };
        self.next_ts = Some(ts + 960);
        match self.pending.remove(&ts) {
            Some(list) => {
                let mut list: Vec<(u16, Vec<u8>)> = list;
                let i: usize = Self::earliest_of(&list);
                let (_, payload) = list.remove(i);
                Some(Some((ts, payload)))
            },
            None => Some(None),
        }
    }

    /// How many timestamps came too late to be played.
    pub fn dropped(&self) -> (r: u64)
        ensures
            r == self.dropped,
    {
        self.dropped
    }
}

/// Whether a timestamp lies before the play cursor.
pub open spec fn behind(next: Option<u32>, t: u32) -> bool {
    next matches Some(n) && t < n
}

/// The timestamps that can never play.
pub open spec fn stale(s: Set<u32>, next: Option<u32>) -> Set<u32> {
    match next {
        Some(_) => s.filter(|t: u32| behind(next, t)),
        None => Set::empty(),
    }
}

/// What a packet can push out is no more than what is there, nor more than there
/// are timestamps: the counter has room wherever it is that far from its end.
pub proof fn lemma_stale_len(s: Set<u32>, next: Option<u32>)
    requires
        s.finite(),
    ensures
        stale(s, next).finite(),
        stale(s, next).len() <= s.len(),
        stale(s, next).len() <= 0x1_0000_0000,
{
    s.lemma_len_filter(|t: u32| behind(next, t));
    let range = vstd::set_lib::set_int_range(0, 0x1_0000_0000);
    let numbers = stale(s, next).map(|t: u32| t as int);
    vstd::set_lib::lemma_int_range(0, 0x1_0000_0000);
    vstd::set_lib::lemma_map_size(stale(s, next), numbers, |t: u32| t as int);
    assert(numbers.subset_of(range));
    vstd::set_lib::lemma_len_subset(numbers, range);
}

/// Whether a buffer whose oldest and newest timestamps are `first` and `newest` is
/// still filling: the frames from the one to the other are fewer than the target.
pub open spec fn filling(first: u32, newest: u32, target: u32) -> bool {
    newest + 960 < first + target
}

/// What `push` does to a buffer.
pub open spec fn push_result(
    a: JitterBuffer,
    seq: u16,
    timestamp: u32,
    payload: Vec<u8>,
    b: JitterBuffer,
) -> bool {
    &&& b.next_ts == a.next_ts
    &&& b.target == a.target
    &&& forall|t: u32| #[trigger]
        b.pending@.contains_key(t) <==> (a.pending@.contains_key(t) || t == timestamp) && !behind(
            a.next_ts,
            t,
        )
    &&& forall|t: u32| #[trigger]
        b.pending@.contains_key(t) ==> b.packets(t) == if t == timestamp {
            a.packets(t).push((seq, payload))
        } else {
            a.packets(t)
        }
    &&& b.dropped == a.dropped + stale(a.pending@.dom().insert(timestamp), a.next_ts).len()
}

/// Whether the play cursor of a buffer can move on by a frame, where it does.
pub open spec fn can_pop(a: JitterBuffer) -> bool {
    match a.next_ts {
        Some(ts) => !(a.pending@.dom() =~= Set::<u32>::empty()) ==> ts + 960 <= u32::MAX,
        None => forall|first: u32, newest: u32|
            #![trigger is_least(a.pending@.dom(), first), is_greatest(a.pending@.dom(), newest)]
            is_least(a.pending@.dom(), first) && is_greatest(a.pending@.dom(), newest) && !filling(
                first,
                newest,
                a.target,
            ) ==> first + 960 <= u32::MAX,
    }
}

/// What `pop` does to a buffer, and what it returns.
pub open spec fn pop_result(
    a: JitterBuffer,
    b: JitterBuffer,
    r: Option<Option<(u32, Vec<u8>)>>,
) -> bool {
    &&& b.target == a.target
    &&& b.dropped == a.dropped
    &&& if a.pending@.dom() =~= Set::<u32>::empty() {
        r is None && b == a
    } else {
        match a.next_ts {
            Some(ts) => {
                &&& b.next_ts == Some((ts + 960) as u32)
                &&& b.pending@ == a.pending@.remove(ts)
                &&& r is Some
                &&& if a.pending@.contains_key(ts) {
                    r->0 == Some((ts, a.packets(ts)[earliest(a.packets(ts))].1))
                } else {
                    r->0 is None
                }
            },
            None => exists|first: u32, newest: u32|
                {
                    &&& #[trigger] is_least(a.pending@.dom(), first)
                    &&& #[trigger] is_greatest(a.pending@.dom(), newest)
                    &&& first_pop(a, first, newest, b, r)
                },
        }
    }
}

/// What the first `pop` of a buffer with these oldest and newest timestamps does.
pub open spec fn first_pop(
    a: JitterBuffer,
    first: u32,
    newest: u32,
    b: JitterBuffer,
    r: Option<Option<(u32, Vec<u8>)>>,
) -> bool {
    if filling(first, newest, a.target) {
        r is None && b == a
    } else {
        &&& b.next_ts == Some((first + 960) as u32)
        &&& b.pending@ == a.pending@.remove(first)
        &&& r == Some(Some((first, a.packets(first)[earliest(a.packets(first))].1)))
    }
}

/// What is done with a buffer.
pub enum JitterEvent {
    /// A packet comes in.
    Push { seq: u16, timestamp: u32, payload: Vec<u8> },
    /// A frame is asked for, and this is the answer.
    Pop { answer: Option<Option<(u32, Vec<u8>)>> },
}

/// Whether an event turns a buffer into another one.
pub open spec fn event_step(a: JitterBuffer, e: JitterEvent, b: JitterBuffer) -> bool {
    match e {
        JitterEvent::Push { seq, timestamp, payload } => push_result(a, seq, timestamp, payload, b),
        JitterEvent::Pop { answer } => can_pop(a) && pop_result(a, b, answer),
    }
}

/// Whether `states` is what a buffer goes through in the course of `events`.
pub open spec fn playout(states: Seq<JitterBuffer>, events: Seq<JitterEvent>) -> bool {
    &&& states.len() == events.len() + 1
    &&& forall|i: int|
        0 <= i < events.len() ==> event_step(states[i], #[trigger] events[i], states[i + 1])
}

/// The timestamp of the frame that an event hands out.
pub open spec fn played(e: JitterEvent) -> Option<u32> {
    match e {
        JitterEvent::Pop { answer: Some(Some(frame)) } => Some(frame.0),
        _ => None,
    }
}

/// Frames play in the order of their timestamps, none of them twice, on a grid of
/// frames, however the packets came in.
pub proof fn law_frames_play_in_order(
    states: Seq<JitterBuffer>,
    events: Seq<JitterEvent>,
    i: int,
    j: int,
)
    requires
        playout(states, events),
        0 <= i < j < events.len(),
        played(events[i]) is Some,
        played(events[j]) is Some,
    ensures
        played(events[i])->0 < played(events[j])->0,
        (played(events[j])->0 - played(events[i])->0) % 960 == 0,
{
    assert(event_step(states[i], events[i], states[i + 1]));
    lemma_plays_at_cursor(states[i], events[i], states[i + 1]);
    lemma_cursor_advances(states, events, i + 1, j);
    assert(event_step(states[j], events[j], states[j + 1]));
    lemma_plays_at_cursor(states[j], events[j], states[j + 1]);
}

/// A frame plays at the cursor, and the cursor stands a frame behind it.
proof fn lemma_plays_at_cursor(a: JitterBuffer, e: JitterEvent, b: JitterBuffer)
    requires
        event_step(a, e, b),
        played(e) is Some,
    ensures
        a.next_ts matches Some(c) ==> played(e) == Some(c),
        b.next_ts matches Some(c) && c == played(e)->0 + 960,
{
    if a.next_ts is None {
        let (first, newest) = choose|first: u32, newest: u32|
            {
                &&& #[trigger] is_least(a.pending@.dom(), first)
                &&& #[trigger] is_greatest(a.pending@.dom(), newest)
                &&& first_pop(a, first, newest, b, e->answer)
            };
        assert(is_least(a.pending@.dom(), first) && is_greatest(a.pending@.dom(), newest));
    }
}

/// The cursor never goes back, and moves by whole frames.
proof fn lemma_cursor_advances(states: Seq<JitterBuffer>, events: Seq<JitterEvent>, i: int, j: int)
    requires
        playout(states, events),
        0 <= i <= j <= events.len(),
        states[i].next_ts is Some,
    ensures
        states[j].next_ts matches Some(c) && c >= states[i].next_ts->0 && (c
            - states[i].next_ts->0) % 960 == 0,
    decreases j,
{
    if i < j {
        lemma_cursor_advances(states, events, i, j - 1);
        assert(event_step(states[j - 1], events[j - 1], states[j]));
    }
}

/// A packet that comes after its play time is never heard: once playout runs, no
/// frame from before the play cursor is handed out.
pub proof fn law_late_packet_never_plays(
    states: Seq<JitterBuffer>,
    events: Seq<JitterEvent>,
    timestamp: u32,
    i: int,
    j: int,
)
    requires
        playout(states, events),
        0 <= i <= j < events.len(),
        states[i].next_ts matches Some(c) && timestamp < c,
    ensures
        played(events[j]) != Some(timestamp),
{
    lemma_cursor_advances(states, events, i, j);
    assert(event_step(states[j], events[j], states[j + 1]));
    if played(events[j]) is Some {
        lemma_plays_at_cursor(states[j], events[j], states[j + 1]);
    }
}

/// Whether every timestamp that comes in lies on a grid of frames with this offset.
pub open spec fn on_grid(events: Seq<JitterEvent>, offset: int) -> bool {
    forall|i: int|
        0 <= i < events.len() ==> ((#[trigger] events[i]) matches JitterEvent::Push {
            timestamp,
            ..
        } ==> timestamp as int % 960 == offset)
}

/// Whether all timestamps of a buffer lie on a grid of frames, none of them before
/// the play cursor.
pub open spec fn ahead(a: JitterBuffer, offset: int) -> bool {
    &&& a.next_ts matches Some(c) ==> c as int % 960 == offset
    &&& forall|t: u32| #[trigger]
        a.pending@.contains_key(t) ==> t as int % 960 == offset && !behind(a.next_ts, t)
}

/// Where all timestamps lie on a grid of frames, nothing in the buffer ever lies
/// before the play cursor.
pub proof fn law_buffer_is_ahead(
    states: Seq<JitterBuffer>,
    events: Seq<JitterEvent>,
    offset: int,
    i: int,
)
    requires
        playout(states, events),
        on_grid(events, offset),
        ahead(states[0], offset),
        0 <= i <= events.len(),
    ensures
        ahead(states[i], offset),
    decreases i,
{
    if i > 0 {
        law_buffer_is_ahead(states, events, offset, i - 1);
        let a = states[i - 1];
        let b = states[i];
        assert(event_step(a, events[i - 1], b));
        match events[i - 1] {
            JitterEvent::Push { .. } => {},
            JitterEvent::Pop { answer } => {
                if a.next_ts is None && !(a.pending@.dom() =~= Set::<u32>::empty()) {
                    let (first, newest) = choose|first: u32, newest: u32|
                        {
                            &&& #[trigger] is_least(a.pending@.dom(), first)
                            &&& #[trigger] is_greatest(a.pending@.dom(), newest)
                            &&& first_pop(a, first, newest, b, answer)
                        };
                    assert(is_least(a.pending@.dom(), first));
                    assert(a.pending@.contains_key(first));
                    assert forall|t: u32| #[trigger] b.pending@.contains_key(t) implies !behind(
                        b.next_ts,
                        t,
                    ) by {
                        assert(a.pending@.contains_key(t));
                        assert(a.pending@.dom().contains(t));
                    }
                }
            },
        }
    }
}

/// A packet that comes after its play time is discarded and counted once; one that
/// comes in time is not counted; and either way every packet that was buffered stays
/// buffered. This holds of each packet of a stream whose timestamps lie on a grid of
/// frames, from an empty buffer on, once playout runs.
pub proof fn law_late_packets(
    states: Seq<JitterBuffer>,
    events: Seq<JitterEvent>,
    offset: int,
    i: int,
)
    requires
        playout(states, events),
        on_grid(events, offset),
        states[0].pending@ == Map::<u32, Vec<(u16, Vec<u8>)>>::empty(),
        states[0].next_ts is None,
        0 <= i < events.len(),
        events[i] is Push,
        states[i].next_ts is Some,
    ensures
        ({
            let a = states[i];
            let b = states[i + 1];
            let timestamp = events[i]->timestamp;
            let sent = (events[i]->seq, events[i]->payload);
            &&& forall|t: u32|
                t != timestamp && #[trigger] a.pending@.contains_key(t)
                    ==> b.pending@.contains_key(t) && b.packets(t) == a.packets(t)
            &&& if timestamp < a.next_ts->0 {
                &&& b.dropped == a.dropped + 1
                &&& b.pending@.dom() == a.pending@.dom()
                &&& !a.pending@.contains_key(timestamp)
            } else {
                &&& b.dropped == a.dropped
                &&& b.pending@.contains_key(timestamp)
                &&& b.packets(timestamp) == a.packets(timestamp).push(sent)
            }
        }),
{
    law_buffer_is_ahead(states, events, offset, i);
    let a = states[i];
    let b = states[i + 1];
    let timestamp = events[i]->timestamp;
    let held = a.pending@.dom().insert(timestamp);
    assert(event_step(a, events[i], b));
    if timestamp < a.next_ts->0 {
        assert(stale(held, a.next_ts) =~= set![timestamp]) by {
            assert forall|t: u32| stale(held, a.next_ts).contains(t) implies t == timestamp by {
                if t != timestamp {
                    assert(a.pending@.contains_key(t));
                }
            }
        }
        assert(b.pending@.dom() =~= a.pending@.dom()) by {
            assert forall|t: u32| b.pending@.dom().contains(t) == a.pending@.dom().contains(t) by {
                assert(b.pending@.contains_key(t) <==> (a.pending@.contains_key(t) || t
                    == timestamp) && !behind(a.next_ts, t));
            }
        }
    } else {
        assert(stale(held, a.next_ts) =~= Set::<u32>::empty()) by {
            assert forall|t: u32| !stale(held, a.next_ts).contains(t) by {
                if held.contains(t) && t != timestamp {
                    assert(a.pending@.contains_key(t));
                }
            }
        }
        assert(b.pending@.contains_key(timestamp));
    }
    assert forall|t: u32| t != timestamp && #[trigger] a.pending@.contains_key(t) implies
        b.pending@.contains_key(t) && b.packets(t) == a.packets(t) by {
        assert(b.pending@.contains_key(t));
    }
}

/// Whether the timestamps of `b` are those of `a`, each later by `d`.
pub open spec fn shifted(a: JitterBuffer, b: JitterBuffer, d: int) -> bool {
    &&& forall|t: u32| #[trigger] a.pending@.contains_key(t) ==> 0 <= t + d <= u32::MAX
        && b.pending@.contains_key((t + d) as u32)
    &&& forall|t: u32| #[trigger] b.pending@.contains_key(t) ==> 0 <= t - d <= u32::MAX
        && a.pending@.contains_key((t - d) as u32)
}

/// Before playout, whether a buffer waits is a matter of the span of its timestamps,
/// not of where a stream begins: two buffers with one target whose timestamps differ
/// by a constant both wait or both start, and start at the same place.
pub proof fn law_wait_by_span(
    a: &mut JitterBuffer,
    b: &mut JitterBuffer,
    d: int,
    x: Option<Option<(u32, Vec<u8>)>>,
    y: Option<Option<(u32, Vec<u8>)>>,
)
    requires
        old(a).next_ts is None,
        old(b).next_ts is None,
        old(a).target == old(b).target,
        shifted(*old(a), *old(b), d),
        call_ensures(JitterBuffer::pop, (a,), x),
        call_ensures(JitterBuffer::pop, (b,), y),
    ensures
        x is None <==> y is None,
        x matches Some(Some(f)) ==> (y matches Some(Some(g)) && g.0 == f.0 + d),
{
    let m = old(a).pending@;
    let n = old(b).pending@;
    if m.dom() =~= Set::<u32>::empty() {
        assert forall|t: u32| !n.dom().contains(t) by {
            if n.contains_key(t) {
                assert(m.contains_key((t - d) as u32));
                assert(m.dom().contains((t - d) as u32));
            }
        }
        assert(n.dom() =~= Set::<u32>::empty());
    } else {
        let t0 = m.dom().choose();
        assert(m.dom().contains(t0));
        assert(m.contains_key(t0));
        assert(n.dom().contains((t0 + d) as u32));
        let (f, l) = choose|f: u32, l: u32|
            {
                &&& #[trigger] is_least(m.dom(), f)
                &&& #[trigger] is_greatest(m.dom(), l)
                &&& first_pop(*old(a), f, l, *final(a), x)
            };
        let (g, k) = choose|g: u32, k: u32|
            {
                &&& #[trigger] is_least(n.dom(), g)
                &&& #[trigger] is_greatest(n.dom(), k)
                &&& first_pop(*old(b), g, k, *final(b), y)
            };
        assert(m.contains_key(f) && m.contains_key(l));
        assert(n.contains_key(g) && n.contains_key(k));
        assert(n.dom().contains((f + d) as u32) && n.dom().contains((l + d) as u32));
        assert(m.dom().contains((g - d) as u32) && m.dom().contains((k - d) as u32));
    }
}

/// Before playout a buffer waits exactly while all its frames, the last one included,
/// span less than the target; it stays as it is then.
pub proof fn law_waits_for_target(b: &mut JitterBuffer, r: Option<Option<(u32, Vec<u8>)>>)
    requires
        old(b).next_ts is None,
        old(b).wf(),
        can_pop(*old(b)),
        call_ensures(JitterBuffer::pop, (b,), r),
    ensures
        (forall|t: u32, u: u32| #[trigger]
            old(b).pending@.contains_key(t) && #[trigger] old(b).pending@.contains_key(u) ==> t - u
                + 960 < old(b).target) ==> r is None,
        forall|t: u32, u: u32| #[trigger]
            old(b).pending@.contains_key(t) && #[trigger] old(b).pending@.contains_key(u) && t - u
                + 960 >= old(b).target ==> r is Some,
        r is None ==> *final(b) == *old(b),
{
    let m = old(b).pending@;
    if !(m.dom() =~= Set::<u32>::empty()) {
        let (f, l) = choose|f: u32, l: u32|
            {
                &&& #[trigger] is_least(m.dom(), f)
                &&& #[trigger] is_greatest(m.dom(), l)
                &&& first_pop(*old(b), f, l, *final(b), r)
            };
        assert(is_least(m.dom(), f) && is_greatest(m.dom(), l));
        assert(m.contains_key(f) && m.contains_key(l));
        assert forall|t: u32, u: u32| #[trigger]
            m.contains_key(t) && #[trigger] m.contains_key(u) && t - u + 960
                >= old(b).target implies r is Some by {
            assert(m.dom().contains(t) && m.dom().contains(u));
        }
    } else {
        assert forall|t: u32| !m.contains_key(t) by {
            assert(!m.dom().contains(t));
        }
    }
}

/// Playout starts with the oldest timestamp, played from its packet with the lowest
/// sequence number; the cursor then stands a frame behind it, and every other packet
/// stays.
pub proof fn law_starts_with_oldest(
    b: &mut JitterBuffer,
    r: Option<Option<(u32, Vec<u8>)>>,
    u: u32,
)
    requires
        old(b).next_ts is None,
        old(b).wf(),
        can_pop(*old(b)),
        call_ensures(JitterBuffer::pop, (b,), r),
        r is Some,
    ensures
        r->0 matches Some(f) && {
            &&& old(b).pending@.contains_key(f.0)
            &&& old(b).pending@.contains_key(u) ==> f.0 <= u
            &&& (final(b).next_ts matches Some(c) && c == f.0 + 960)
            &&& !final(b).pending@.contains_key(f.0)
            &&& u != f.0 ==> final(b).pending@.contains_key(u) == old(b).pending@.contains_key(u)
            &&& u != f.0 && old(b).pending@.contains_key(u)
                ==> final(b).pending@[u] == old(b).pending@[u]
            &&& exists|i: int|
                {
                    &&& 0 <= i < old(b).pending@[f.0]@.len()
                    &&& (#[trigger] old(b).pending@[f.0]@[i]).1 == f.1
                    &&& forall|j: int|
                        0 <= j < old(b).pending@[f.0]@.len() ==> old(b).pending@[f.0]@[i].0 <= (
                        #[trigger] old(b).pending@[f.0]@[j]).0
                }
            &&& final(b).dropped == old(b).dropped
            &&& final(b).target == old(b).target
        },
{
    let m = old(b).pending@;
    let (f, l) = choose|f: u32, l: u32|
        {
            &&& #[trigger] is_least(m.dom(), f)
            &&& #[trigger] is_greatest(m.dom(), l)
            &&& first_pop(*old(b), f, l, *final(b), r)
        };
    assert(is_least(m.dom(), f) && is_greatest(m.dom(), l));
    assert(m.contains_key(f) && m.contains_key(l));
    assert(m.contains_key(u) ==> m.dom().contains(u));
    lemma_earliest(m[f]@);
}

/// A new buffer for `target_frames` starts to play with that many consecutive frames,
/// wherever in the stream they stand, and not with fewer.
pub proof fn law_starts_with_target_frames(
    target_frames: u32,
    made: JitterBuffer,
    b: &mut JitterBuffer,
    start: u32,
    frames: int,
    r: Option<Option<(u32, Vec<u8>)>>,
)
    requires
        call_ensures(JitterBuffer::new, (target_frames,), made),
        old(b).target == made.target,
        old(b).next_ts == made.next_ts,
        old(b).wf(),
        frames > 0,
        start + 960 * frames <= u32::MAX,
        forall|t: u32| #[trigger]
            old(b).pending@.contains_key(t) <==> start <= t < start + 960 * frames && (t - start)
                % 960 == 0,
        call_ensures(JitterBuffer::pop, (b,), r),
    ensures
        r is None <==> frames < target_frames,
        r matches Some(a) ==> (a matches Some(f) && f.0 == start),
{
    let last = (start + 960 * (frames - 1)) as u32;
    assert(old(b).pending@.contains_key(start));
    assert((last - start) % 960 == 0) by (nonlinear_arith)
        requires
            last - start == 960 * (frames - 1),
    ;
    assert(old(b).pending@.contains_key(last));
    let m = old(b).pending@;
    assert(m.dom().contains(start) && m.dom().contains(last));
    assert forall|t: u32| #[trigger] m.dom().contains(t) implies start <= t <= last by {
        assert(m.contains_key(t));
        let q = (t - start) / 960;
        assert(t - start == 960 * q && q < frames) by (nonlinear_arith)
            requires
                q == (t - start) / 960,
                (t - start) % 960 == 0,
                t - start < 960 * frames,
        ;
        assert(960 * q <= 960 * (frames - 1)) by (nonlinear_arith)
            requires
                q < frames,
        ;
    }
    let (f, l) = choose|f: u32, l: u32|
        {
            &&& #[trigger] is_least(m.dom(), f)
            &&& #[trigger] is_greatest(m.dom(), l)
            &&& first_pop(*old(b), f, l, *final(b), r)
        };
    assert(is_least(m.dom(), f) && is_greatest(m.dom(), l));
    assert(f == start && l == last);
}

/// Some packet of a timestamp is the one to play.
proof fn lemma_earliest(s: Seq<(u16, Vec<u8>)>)
    requires
        s.len() > 0,
    ensures
        is_earliest(s, earliest(s)),
    decreases s.len(),
{
    if s.len() == 1 {
        assert(is_earliest(s, 0));
    } else {
        let d = s.drop_last();
        lemma_earliest(d);
        let i = earliest(d);
        assert(forall|j: int| 0 <= j < d.len() ==> d[j] == s[j]);
        if s.last().0 < s[i].0 {
            assert(is_earliest(s, s.len() - 1)) by {
                assert forall|j: int| 0 <= j < s.len() - 1
                    implies (#[trigger] s[j]).0 > s.last().0 by {
                    assert(d[i].0 <= d[j].0);
                }
            }
        } else {
            assert(is_earliest(s, i)) by {
                assert forall|j: int| 0 <= j < s.len() implies s[i].0 <= (#[trigger] s[j]).0 by {
                    if j < d.len() {
                        assert(d[i].0 <= d[j].0);
                    }
                }
                assert forall|j: int| 0 <= j < i implies (#[trigger] s[j]).0 > s[i].0 by {
                    assert(d[j].0 > d[i].0);
                }
            }
        }
    }
}

/// Once playout runs, each tick answers for the cursor's own timestamp and moves the
/// cursor by one frame: a frame that is there is played from the packet with the
/// lowest sequence number, one that is missing is concealed, and only an empty buffer
/// leaves everything as it is. No other timestamp is touched.
pub proof fn law_tick(b: &mut JitterBuffer, ts: u32, r: Option<Option<(u32, Vec<u8>)>>)
    requires
        old(b).wf(),
        can_pop(*old(b)),
        old(b).next_ts == Some(ts),
        call_ensures(JitterBuffer::pop, (b,), r),
    ensures
        (forall|t: u32| !#[trigger] old(b).pending@.contains_key(t)) ==> r is None && *final(b)
            == *old(b),
        forall|u: u32| #[trigger]
            old(b).pending@.contains_key(u) ==> {
                &&& r is Some
                &&& final(b).next_ts matches Some(c)
                &&& c == ts + 960
                &&& !final(b).pending@.contains_key(ts)
                &&& u != ts ==> final(b).pending@.contains_key(u)
                    && final(b).pending@[u] == old(b).pending@[u]
            },
        r matches Some(Some(f)) ==> {
            &&& f.0 == ts
            &&& old(b).pending@.contains_key(ts)
            &&& exists|i: int|
                {
                    &&& 0 <= i < old(b).pending@[ts]@.len()
                    &&& (#[trigger] old(b).pending@[ts]@[i]).1 == f.1
                    &&& forall|j: int|
                        0 <= j < old(b).pending@[ts]@.len() ==> old(b).pending@[ts]@[i].0 <= (
                        #[trigger] old(b).pending@[ts]@[j]).0
                }
        },
        r == Some(None::<(u32, Vec<u8>)>) ==> !old(b).pending@.contains_key(ts),
        final(b).dropped == old(b).dropped,
        final(b).target == old(b).target,
{
    let m = old(b).pending@;
    if m.dom() =~= Set::<u32>::empty() {
        assert forall|t: u32| !m.contains_key(t) by {
            assert(!m.dom().contains(t));
        }
    } else {
        let t0 = m.dom().choose();
        assert(m.contains_key(t0));
        if m.contains_key(ts) {
            lemma_earliest(m[ts]@);
        }
    }
}

/// A packet that is in time is kept with its payload: before playout every packet
/// is, and once it runs every packet at or behind the cursor. It changes nothing
/// else.
pub proof fn law_timely_packet_kept(
    b: &mut JitterBuffer,
    seq: u16,
    timestamp: u32,
    payload: Vec<u8>,
)
    requires
        old(b).wf(),
        old(b).next_ts matches Some(c) ==> c <= timestamp,
        call_ensures(JitterBuffer::push, (b, seq, timestamp, payload), ()),
    ensures
        final(b).pending@.contains_key(timestamp),
        final(b).pending@[timestamp]@.last() == (seq, payload),
        final(b).pending@[timestamp]@.drop_last() == (if old(b).pending@.contains_key(timestamp) {
            old(b).pending@[timestamp]@
        } else {
            Seq::empty()
        }),
        final(b).next_ts == old(b).next_ts,
        final(b).target == old(b).target,
        old(b).next_ts is None ==> final(b).dropped == old(b).dropped,
        old(b).next_ts is None ==> forall|t: u32| #[trigger]
            final(b).pending@.contains_key(t) == (t
                == timestamp || old(b).pending@.contains_key(t)),
{
    assert(final(b).pending@.contains_key(timestamp));
    assert(final(b).packets(timestamp) == old(b).packets(timestamp).push((seq, payload)));
    assert(final(b).pending@[timestamp]@.drop_last() =~= old(b).packets(timestamp));
}

/// Once playout runs, a packet from before the cursor is not kept and is counted, and
/// whatever lies at or behind the cursor stays as it is.
pub proof fn law_late_packet_shed(
    b: &mut JitterBuffer,
    seq: u16,
    timestamp: u32,
    payload: Vec<u8>,
    cursor: u32,
    t: u32,
    shed: u64,
)
    requires
        old(b).wf(),
        old(b).next_ts == Some(cursor),
        timestamp < cursor,
        forall|u: u32| #[trigger] old(b).pending@.contains_key(u) ==> cursor <= u,
        call_ensures(JitterBuffer::push, (b, seq, timestamp, payload), ()),
        call_ensures(JitterBuffer::dropped, (&*final(b),), shed),
    ensures
        !final(b).pending@.contains_key(timestamp),
        shed == old(b).dropped + 1,
        final(b).next_ts == Some(cursor),
        final(b).pending@.contains_key(t) == old(b).pending@.contains_key(t),
        old(b).pending@.contains_key(t) ==> final(b).pending@[t]@ == old(b).pending@[t]@,
{
    let held = old(b).pending@.dom().insert(timestamp);
    assert(stale(held, Some(cursor)) =~= set![timestamp]) by {
        assert forall|u: u32| stale(held, Some(cursor)).contains(u) implies u == timestamp by {
            if u != timestamp {
                assert(old(b).pending@.contains_key(u));
            }
        }
    }
    assert(!final(b).pending@.contains_key(timestamp));
    assert(final(b).pending@.contains_key(t) <==> (old(b).pending@.contains_key(t) || t
        == timestamp) && !behind(Some(cursor), t));
    if old(b).pending@.contains_key(t) {
        assert(final(b).packets(t) == old(b).packets(t));
    }
}

/// A packet that is in time leaves the others that are in time as they are.
pub proof fn law_timely_packet_alone(
    b: &mut JitterBuffer,
    seq: u16,
    timestamp: u32,
    payload: Vec<u8>,
    t: u32,
)
    requires
        old(b).wf(),
        t != timestamp,
        old(b).pending@.contains_key(t),
        old(b).next_ts matches Some(c) ==> c <= t && c <= timestamp,
        call_ensures(JitterBuffer::push, (b, seq, timestamp, payload), ()),
    ensures
        final(b).pending@.contains_key(t),
        final(b).pending@[t]@ == old(b).pending@[t]@,
{
    assert(final(b).pending@.contains_key(t));
    assert(final(b).packets(t) == old(b).packets(t));
}

} // verus!
