//! Chat messages that wait for their confirmation, and when to send them again.
use vstd::prelude::*;

use crate::presence::PresenceOut;

verus! {

/// How long to wait for a confirmation, in milliseconds.
pub const ACK_WAIT_MS: u64 = 3_000;

/// How often a message is sent again.
pub const MAX_ATTEMPTS: u8 = 3;

/// A chat message that waits for its confirmation.
#[derive(Debug)]
pub struct PendingSend {
    pub channel_id: String,
    pub server_id: String,
    pub content: String,
    /// When it was last sent, in milliseconds of a steady clock.
    pub sent_at: u64,
    /// How often it was sent again.
    pub attempts: u8,
}

impl Clone for PendingSend {
    fn clone(&self) -> (r: Self)
        ensures
            r == *self,
    {
        PendingSend {
            channel_id: self.channel_id.clone(),
            server_id: self.server_id.clone(),
            content: self.content.clone(),
            sent_at: self.sent_at,
            attempts: self.attempts,
        }
    }
}

/// What to do about a message that was not confirmed in time.
#[derive(Debug)]
pub enum Retransmission {
    Send(PresenceOut),
    GiveUp { client_id: String },
}

/// Whether the confirmation of a message is late.
pub open spec fn overdue(p: PendingSend, now: u64) -> bool {
    now - p.sent_at >= ACK_WAIT_MS
}

/// A message sent once more.
pub open spec fn resent(p: PendingSend, now: u64) -> PendingSend {
    PendingSend { sent_at: now, attempts: (p.attempts + 1) as u8, ..p }
}

/// What becomes of a waiting message: it goes on waiting, is sent again, or is
/// dropped.
pub open spec fn next_pending(p: PendingSend, now: u64) -> Option<PendingSend> {
    if !overdue(p, now) {
        Some(p)
    } else if p.attempts < MAX_ATTEMPTS {
        Some(resent(p, now))
    } else {
        None
    }
}

/// What is done about a waiting message.
pub open spec fn retransmission(client_id: String, p: PendingSend, now: u64) -> Option<
    Retransmission,
> {
    if !overdue(p, now) {
        None
    } else if p.attempts < MAX_ATTEMPTS {
        Some(
            Retransmission::Send(
                PresenceOut::Chat {
                    channel_id: p.channel_id,
                    server_id: p.server_id,
                    content: p.content,
                    client_id,
                    reply_to: None,
                    attachment_url: None,
                },
            ),
        )
    } else {
        Some(Retransmission::GiveUp { client_id })
    }
}

/// The messages that go on waiting.
pub open spec fn kept(e: Seq<(String, PendingSend)>, now: u64) -> Seq<(String, PendingSend)>
    decreases e.len(),
{
    if e.len() == 0 {
        Seq::empty()
    } else {
        let rest = kept(e.drop_last(), now);
        match next_pending(e.last().1, now) {
            Some(p) => rest.push((e.last().0, p)),
            None => rest,
        }
    }
}

/// Everything that is done about the waiting messages.
pub open spec fn retransmissions(e: Seq<(String, PendingSend)>, now: u64) -> Seq<Retransmission>
    decreases e.len(),
{
    if e.len() == 0 {
        Seq::empty()
    } else {
        let rest = retransmissions(e.drop_last(), now);
        match retransmission(e.last().0, e.last().1, now) {
            Some(r) => rest.push(r),
            None => rest,
        }
    }
}

/// Whether some message is given up.
pub open spec fn any_given_up(e: Seq<(String, PendingSend)>, now: u64) -> bool {
    exists|i: int| 0 <= i < e.len() && next_pending((#[trigger] e[i]).1, now) is None
}

/// Goes through the waiting messages at `now`: what goes on waiting, what to do,
/// and whether a message is given up.
pub fn sweep(entries: &Vec<(String, PendingSend)>, now: u64) -> (r: (
    Vec<(String, PendingSend)>,
    Vec<Retransmission>,
    bool,
))
    ensures
        r.0@ == kept(entries@, now),
        r.1@ == retransmissions(entries@, now),
        r.2 == any_given_up(entries@, now),
{
    let mut keep: Vec<(String, PendingSend)> = Vec::new();
    let mut todo: Vec<Retransmission> = Vec::new();
    let mut given_up: bool = false;
    let mut i: usize = 0;
    assert(entries@.take(0) =~= Seq::empty());
    while i < entries.len()
        invariant
            i <= entries@.len(),
            keep@ == kept(entries@.take(i as int), now),
            todo@ == retransmissions(entries@.take(i as int), now),
            given_up == exists|j: int|
                0 <= j < i && next_pending((#[trigger] entries@[j]).1, now) is None,
        decreases entries@.len() - i,
    {
        assert(entries@.take(i + 1).drop_last() =~= entries@.take(i as int));
        assert(entries@.take(i + 1).last() == entries@[i as int]);
        let client_id: String = entries[i].0.clone();
        let mut p: PendingSend = entries[i].1.clone();
        if now < p.sent_at || now - p.sent_at < ACK_WAIT_MS {
            keep.push((client_id, p));
        } else if p.attempts >= MAX_ATTEMPTS {
            given_up = true;
            todo.push(Retransmission::GiveUp { client_id });
        } else {
            p.attempts = p.attempts + 1;
            p.sent_at = now;
            todo.push(
                Retransmission::Send(
                    PresenceOut::Chat {
                        channel_id: p.channel_id.clone(),
                        server_id: p.server_id.clone(),
                        content: p.content.clone(),
                        client_id: client_id.clone(),
                        reply_to: None,
                        attachment_url: None,
                    },
                ),
            );
            keep.push((client_id, p));
        }
        i = i + 1;
    }
    assert(entries@.take(i as int) =~= entries@);
    (keep, todo, given_up)
}

/// Keys that a sweep leaves were there before it.
proof fn lemma_kept_keys(e: Seq<(String, PendingSend)>, now: u64, j: int)
    requires
        0 <= j < kept(e, now).len(),
    ensures
        exists|i: int| 0 <= i < e.len() && (#[trigger] e[i]).0 == kept(e, now)[j].0,
    decreases e.len(),
{
    let d = e.drop_last();
    if j < kept(d, now).len() {
        lemma_kept_keys(d, now, j);
        let i = choose|i: int| 0 <= i < d.len() && (#[trigger] d[i]).0 == kept(d, now)[j].0;
        assert(e[i] == d[i]);
        assert(kept(e, now)[j] == kept(d, now)[j]);
    } else {
        assert(e[e.len() - 1].0 == kept(e, now)[j].0);
    }
}

/// A sweep keeps keys distinct.
pub proof fn lemma_kept_distinct(e: Seq<(String, PendingSend)>, now: u64)
    requires
        crate::strmap::keys_distinct(e),
    ensures
        crate::strmap::keys_distinct(kept(e, now)),
    decreases e.len(),
{
    if e.len() > 0 {
        let d = e.drop_last();
        assert forall|i: int, j: int| 0 <= i < j < d.len() implies (#[trigger] d[i]).0@ != (
        #[trigger] d[j]).0@ by {
            assert(d[i] == e[i] && d[j] == e[j]);
        }
        lemma_kept_distinct(d, now);
        let k = kept(e, now);
        assert forall|i: int, j: int| 0 <= i < j < k.len() implies (#[trigger] k[i]).0@ != (
        #[trigger] k[j]).0@ by {
            let r = kept(d, now);
            assert(k[i] == r[i]);
            if j < r.len() {
                assert(k[j] == r[j]);
            } else {
                lemma_kept_keys(d, now, i);
                let m = choose|m: int| 0 <= m < d.len() && (#[trigger] d[m]).0 == r[i].0;
                assert(d[m] == e[m]);
                assert(e[m].0@ != e[e.len() - 1].0@);
            }
        }
    }
}

/// What a sweep leaves under a key is what becomes of the message under it.
pub proof fn lemma_kept_lookup(e: Seq<(String, PendingSend)>, now: u64, k: Seq<char>)
    requires
        crate::strmap::keys_distinct(e),
    ensures
        crate::strmap::lookup(kept(e, now), k) == match crate::strmap::lookup(e, k) {
            Some(p) => next_pending(p, now),
            None => None,
        },
    decreases e.len(),
{
    if e.len() > 0 {
        let d = e.drop_last();
        assert forall|i: int, j: int| 0 <= i < j < d.len() implies (#[trigger] d[i]).0@ != (
        #[trigger] d[j]).0@ by {
            assert(d[i] == e[i] && d[j] == e[j]);
        }
        lemma_kept_lookup(d, now, k);
        assert(e =~= d.push(e.last()));
        crate::strmap::lemma_lookup_push(d, e.last(), k);
        if let Some(p) = next_pending(e.last().1, now) {
            crate::strmap::lemma_lookup_push(kept(d, now), (e.last().0, p), k);
        }
        if e.last().0@ == k {
            crate::strmap::lemma_lookup_none(d, k);
            assert forall|i: int| 0 <= i < d.len() implies (#[trigger] d[i]).0@ != k by {
                assert(d[i] == e[i]);
                assert(e[i].0@ != e[e.len() - 1].0@);
            }
        }
    }
}

/// The client identifier that something done about a message names.
pub open spec fn names(r: Retransmission) -> Seq<char> {
    match r {
        Retransmission::Send(out) => match out {
            PresenceOut::Chat { client_id, .. } => client_id@,
            _ => Seq::empty(),
        },
        Retransmission::GiveUp { client_id } => client_id@,
    }
}

/// A message that does not wait, such as a confirmed one, is neither sent again nor
/// given up.
pub proof fn law_confirmed_is_left_alone(e: Seq<(String, PendingSend)>, now: u64, k: Seq<char>)
    requires
        crate::strmap::lookup(e, k) is None,
    ensures
        forall|i: int|
            0 <= i < retransmissions(e, now).len() ==> names(#[trigger] retransmissions(e, now)[i])
                != k,
    decreases e.len(),
{
    if e.len() > 0 {
        let d = e.drop_last();
        assert(e =~= d.push(e.last()));
        crate::strmap::lemma_lookup_push(d, e.last(), k);
        law_confirmed_is_left_alone(d, now, k);
        let r = retransmissions(d, now);
        assert forall|i: int| 0 <= i < retransmissions(e, now).len() implies names(
            #[trigger] retransmissions(e, now)[i],
        ) != k by {
            if i < r.len() {
                assert(retransmissions(e, now)[i] == r[i]);
            }
        }
    }
}

/// The message under a key after sweeps at `times`.
pub open spec fn after_sweeps(p: Option<PendingSend>, times: Seq<u64>) -> Option<PendingSend>
    decreases times.len(),
{
    if times.len() == 0 {
        p
    } else {
        match after_sweeps(p, times.drop_last()) {
            Some(q) => next_pending(q, times.last()),
            None => None,
        }
    }
}

/// How often a message under a key is sent again in sweeps at `times`.
pub open spec fn resends(p: Option<PendingSend>, times: Seq<u64>) -> nat
    decreases times.len(),
{
    if times.len() == 0 {
        0
    } else {
        resends(p, times.drop_last()) + match after_sweeps(p, times.drop_last()) {
            Some(q) => if overdue(q, times.last()) && q.attempts < MAX_ATTEMPTS {
                1nat
            } else {
                0nat
            },
            None => 0,
        }
    }
}

/// A message that is never confirmed is sent again at most three times, however
/// often and whenever the sweeps come; each time counts as one attempt.
pub proof fn law_resends_bounded(p: PendingSend, times: Seq<u64>)
    requires
        p.attempts <= MAX_ATTEMPTS,
    ensures
        resends(Some(p), times) + p.attempts <= MAX_ATTEMPTS,
        after_sweeps(Some(p), times) matches Some(q) ==> q.attempts == p.attempts + resends(
            Some(p),
            times,
        ),
    decreases times.len(),
{
    if times.len() > 0 {
        law_resends_bounded(p, times.drop_last());
    }
}

/// A message that was just sent is dropped by the fourth sweep that comes at least
/// three seconds after the one before it, and not earlier: the three before it
/// send it again.
pub proof fn law_fourth_sweep_drops(p: PendingSend, a: u64, b: u64, c: u64, d: u64)
    requires
        p.attempts == 0,
        a - p.sent_at >= ACK_WAIT_MS,
        b - a >= ACK_WAIT_MS,
        c - b >= ACK_WAIT_MS,
        d - c >= ACK_WAIT_MS,
    ensures
        after_sweeps(Some(p), seq![a, b, c]) is Some,
        resends(Some(p), seq![a, b, c]) == 3,
        after_sweeps(Some(p), seq![a, b, c, d]) is None,
{
    let s0 = Seq::<u64>::empty();
    let s1 = seq![a];
    let s2 = seq![a, b];
    let s3 = seq![a, b, c];
    let s4 = seq![a, b, c, d];
    assert(s1.drop_last() =~= s0);
    assert(s2.drop_last() =~= s1);
    assert(s3.drop_last() =~= s2);
    assert(s4.drop_last() =~= s3);
    let p1 = resent(p, a);
    let p2 = resent(p1, b);
    let p3 = resent(p2, c);
    assert(after_sweeps(Some(p), s0) == Some(p) && resends(Some(p), s0) == 0);
    assert(after_sweeps(Some(p), s1) == Some(p1) && resends(Some(p), s1) == 1);
    assert(after_sweeps(Some(p), s2) == Some(p2) && resends(Some(p), s2) == 2);
    assert(after_sweeps(Some(p), s3) == Some(p3) && resends(Some(p), s3) == 3);
}

/// Messages are swept one by one, in their order: a sweep of two lists behind each
/// other is the two sweeps behind each other.
pub proof fn law_sweep_splits(
    a: &Vec<(String, PendingSend)>,
    b: &Vec<(String, PendingSend)>,
    c: &Vec<(String, PendingSend)>,
    now: u64,
    x: (Vec<(String, PendingSend)>, Vec<Retransmission>, bool),
    y: (Vec<(String, PendingSend)>, Vec<Retransmission>, bool),
    z: (Vec<(String, PendingSend)>, Vec<Retransmission>, bool),
)
    requires
        c@ == a@ + b@,
        call_ensures(sweep, (a, now), x),
        call_ensures(sweep, (b, now), y),
        call_ensures(sweep, (c, now), z),
    ensures
        z.0@ == x.0@ + y.0@,
        z.1@ == x.1@ + y.1@,
        z.2 == (x.2 || y.2),
{
    lemma_sweep_splits(a@, b@, now);
    if x.2 {
        let i = choose|i: int| 0 <= i < a@.len() && next_pending((#[trigger] a@[i]).1, now) is None;
        assert(c@[i] == a@[i]);
    }
    if y.2 {
        let i = choose|i: int| 0 <= i < b@.len() && next_pending((#[trigger] b@[i]).1, now) is None;
        assert(c@[a@.len() + i] == b@[i]);
    }
    if z.2 {
        let i = choose|i: int| 0 <= i < c@.len() && next_pending((#[trigger] c@[i]).1, now) is None;
        if i < a@.len() {
            assert(c@[i] == a@[i]);
        } else {
            assert(c@[i] == b@[i - a@.len()]);
        }
    }
}

proof fn lemma_sweep_splits(
    a: Seq<(String, PendingSend)>,
    b: Seq<(String, PendingSend)>,
    now: u64,
)
    ensures
        kept(a + b, now) == kept(a, now) + kept(b, now),
        retransmissions(a + b, now) == retransmissions(a, now) + retransmissions(b, now),
    decreases b.len(),
{
    if b.len() == 0 {
        assert(a + b =~= a);
        assert(kept(a, now) + kept(b, now) =~= kept(a, now));
        assert(retransmissions(a, now) + retransmissions(b, now) =~= retransmissions(a, now));
    } else {
        let d = b.drop_last();
        lemma_sweep_splits(a, d, now);
        assert((a + b).drop_last() =~= a + d);
        assert((a + b).last() == b.last());
        assert(kept(a + b, now) =~= kept(a, now) + kept(b, now));
        assert(retransmissions(a + b, now) =~= retransmissions(a, now) + retransmissions(b, now));
    }
}

/// One message that waits less than three seconds goes on waiting as it is. One that
/// waits longer is sent again, to the channel and server and with the text and the
/// identifier that it has, and waits from now on with one attempt more; after three
/// attempts it is given up and waits no more.
pub proof fn law_sweep_of_one(
    entries: &Vec<(String, PendingSend)>,
    id: String,
    p: PendingSend,
    now: u64,
    r: (Vec<(String, PendingSend)>, Vec<Retransmission>, bool),
)
    requires
        entries@ == seq![(id, p)],
        call_ensures(sweep, (entries, now), r),
    ensures
        now - p.sent_at < 3000 ==> r.0@ == seq![(id, p)] && r.1@.len() == 0 && !r.2,
        now - p.sent_at >= 3000 && p.attempts < 3 ==> {
            &&& !r.2
            &&& r.1@.len() == 1
            &&& r.1@[0] matches Retransmission::Send(PresenceOut::Chat {
                channel_id,
                server_id,
                content,
                client_id,
                reply_to,
                attachment_url,
            })
            &&& channel_id == p.channel_id
            &&& server_id == p.server_id
            &&& content == p.content
            &&& client_id == id
            &&& reply_to is None
            &&& attachment_url is None
            &&& r.0@.len() == 1
            &&& r.0@[0].0 == id
            &&& r.0@[0].1.channel_id == p.channel_id
            &&& r.0@[0].1.server_id == p.server_id
            &&& r.0@[0].1.content == p.content
            &&& r.0@[0].1.sent_at == now
            &&& r.0@[0].1.attempts == p.attempts + 1
        },
        now - p.sent_at >= 3000 && p.attempts >= 3 ==> {
            &&& r.2
            &&& r.0@.len() == 0
            &&& r.1@.len() == 1
            &&& r.1@[0] matches Retransmission::GiveUp { client_id }
            &&& client_id == id
        },
{
    let e = entries@;
    assert(e.drop_last() =~= Seq::<(String, PendingSend)>::empty());
    assert(e.last() == (id, p));
    assert(kept(e.drop_last(), now) =~= Seq::<(String, PendingSend)>::empty());
    assert(retransmissions(e.drop_last(), now) =~= Seq::<Retransmission>::empty());
    assert(e[0] == (id, p));
    if any_given_up(e, now) {
        let i = choose|i: int| 0 <= i < e.len() && next_pending((#[trigger] e[i]).1, now) is None;
        assert(e[i] == (id, p));
    }
}

/// A late message is among those that are sent again, with its own channel, server,
/// text and identifier.
pub proof fn lemma_late_is_resent(e: Seq<(String, PendingSend)>, now: u64, i: int)
    requires
        0 <= i < e.len(),
        now - e[i].1.sent_at >= 3000,
        e[i].1.attempts < 3,
    ensures
        exists|k: int|
            0 <= k < retransmissions(e, now).len() && #[trigger] retransmissions(e, now)[k]
                == Retransmission::Send(
                PresenceOut::Chat {
                    channel_id: e[i].1.channel_id,
                    server_id: e[i].1.server_id,
                    content: e[i].1.content,
                    client_id: e[i].0,
                    reply_to: None,
                    attachment_url: None,
                },
            ),
    decreases e.len(),
{
    let d = e.drop_last();
    let r = retransmissions(e, now);
    if i < d.len() {
        assert(d[i] == e[i]);
        lemma_late_is_resent(d, now, i);
        let q = retransmissions(d, now);
        let k = choose|k: int|
            0 <= k < q.len() && #[trigger] q[k] == Retransmission::Send(
                PresenceOut::Chat {
                    channel_id: e[i].1.channel_id,
                    server_id: e[i].1.server_id,
                    content: e[i].1.content,
                    client_id: e[i].0,
                    reply_to: None,
                    attachment_url: None,
                },
            );
        assert(r[k] == q[k]);
    } else {
        assert(e[i] == e.last());
        assert(r[r.len() - 1] == retransmission(e.last().0, e.last().1, now)->0);
    }
}

} // verus!
