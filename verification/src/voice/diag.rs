//! Probes: joining a channel for a measurement, and measuring recordings.
use vstd::prelude::*;

use crate::text::{chars_of, push_chars, starts_with};
use crate::voice::client::{IceServer, VoiceJoinArgs};
use crate::voice::suppressor::SuppressorModel;

verus! {

/// Join arguments of a probe: the user's id is its display name.
pub fn join_args(
    backend: &str,
    token: &str,
    user: &str,
    ch: &str,
    ice: Vec<IceServer>,
    open_mic: bool,
    input_wav: Option<String>,
    open_output: bool,
) -> (r: VoiceJoinArgs)
    ensures
        r.backend_url@ == backend@,
        r.token@ == token@,
        r.channel_id@ == ch@,
        r.user_id@ == user@,
        r.username@ == user@,
        r.ice_servers == ice,
        r.open_mic == open_mic,
        r.input_wav == input_wav,
        r.open_output == open_output,
{
    VoiceJoinArgs {
        backend_url: backend.to_owned(),
        token: token.to_owned(),
        channel_id: ch.to_owned(),
        user_id: user.to_owned(),
        username: user.to_owned(),
        ice_servers: ice,
        open_mic,
        input_wav,
        open_output,
    }
}

/// Whether a URL is kept: all of them, or all but relays.
pub open spec fn url_kept(url: Seq<char>, stun_only: bool) -> bool {
    !stun_only || !crate::text::matches_at(url, "turn"@, 0)
}

/// The URLs that are kept, in order.
pub open spec fn kept_urls(urls: Seq<String>, stun_only: bool) -> Seq<String>
    decreases urls.len(),
{
    if urls.len() == 0 {
        Seq::empty()
    } else if url_kept(urls.last()@, stun_only) {
        kept_urls(urls.drop_last(), stun_only).push(urls.last())
    } else {
        kept_urls(urls.drop_last(), stun_only)
    }
}

/// What is said of a server: its URLs and its credentials.
pub open spec fn ice_view(s: IceServer) -> (Seq<String>, Option<String>, Option<String>) {
    (s.urls@, s.username, s.credential)
}

/// The servers that have a URL left, in order.
pub open spec fn kept_servers(servers: Seq<IceServer>, stun_only: bool) -> Seq<
    (Seq<String>, Option<String>, Option<String>),
>
    decreases servers.len(),
{
    if servers.len() == 0 {
        Seq::empty()
    } else {
        let rest = kept_servers(servers.drop_last(), stun_only);
        let s = servers.last();
        let urls = kept_urls(s.urls@, stun_only);
        if urls.len() == 0 {
            rest
        } else {
            rest.push((urls, s.username, s.credential))
        }
    }
}

fn keep_urls(urls: &Vec<String>, stun_only: bool) -> (r: Vec<String>)
    ensures
        r@ == kept_urls(urls@, stun_only),
{
    let mut out: Vec<String> = Vec::new();
    let n: usize = urls.len();
    let mut i: usize = 0;
    while i < n
        invariant
            n == urls@.len(),
            i <= n,
            out@ == kept_urls(urls@.take(i as int), stun_only),
        decreases n - i,
    {
        proof {
            assert(urls@.take(i + 1).drop_last() =~= urls@.take(i as int));
            assert(urls@.take(i + 1).last() == urls@[i as int]);
        }
        if !stun_only || !starts_with(urls[i].as_str(), "turn") {
            out.push(urls[i].clone());
        }
        i = i + 1;
    }
    assert(urls@.take(n as int) =~= urls@);
    out
}

/// Servers for a probe: without relays where `stun_only`, and without servers
/// that have no URL left.
pub fn probe_ice_servers(servers: &Vec<IceServer>, stun_only: bool) -> (r: Vec<IceServer>)
    ensures
        r@.map_values(|s: IceServer| ice_view(s)) == kept_servers(servers@, stun_only),
{
    let mut out: Vec<IceServer> = Vec::new();
    let n: usize = servers.len();
    let mut i: usize = 0;
    assert(out@.map_values(|s: IceServer| ice_view(s)) =~= kept_servers(servers@.take(0), stun_only));
    while i < n
        invariant
            n == servers@.len(),
            i <= n,
            out@.map_values(|s: IceServer| ice_view(s)) == kept_servers(
                servers@.take(i as int),
                stun_only,
            ),
        decreases n - i,
    {
        proof {
            assert(servers@.take(i + 1).drop_last() =~= servers@.take(i as int));
            assert(servers@.take(i + 1).last() == servers@[i as int]);
        }
        let s: &IceServer = &servers[i];
        let urls: Vec<String> = keep_urls(&s.urls, stun_only);
        if urls.len() > 0 {
            let ghost before = out@;
            let kept = IceServer {
                urls,
                username: s.username.clone(),
                credential: s.credential.clone(),
            };
            assert(ice_view(kept) == (urls@, s.username, s.credential));
            out.push(kept);
            assert(out@.map_values(|s: IceServer| ice_view(s)) =~= before.map_values(
                |s: IceServer| ice_view(s),
            ).push(ice_view(kept)));
        }
        i = i + 1;
    }
    assert(servers@.take(n as int) =~= servers@);
    out
}

/// The model that a probe flips to: from a denoiser to none, from none to the
/// default one.
pub fn flipped_model(current: SuppressorModel) -> (r: SuppressorModel)
    ensures
        r == (if current == SuppressorModel::NsOnly {
            SuppressorModel::FastEnhancerM
        } else {
            SuppressorModel::NsOnly
        }),
{
    match current {
        SuppressorModel::FastEnhancerM => SuppressorModel::NsOnly,
        SuppressorModel::FastEnhancerS => SuppressorModel::NsOnly,
        SuppressorModel::NsOnly => SuppressorModel::FastEnhancerM,
    }
}

/// The part of a path behind its last slash.
pub open spec fn base_name(s: Seq<char>) -> Seq<char>
    decreases s.len(),
{
    if s.len() == 0 || s.last() == '/' {
        Seq::empty()
    } else {
        base_name(s.drop_last()).push(s.last())
    }
}

/// The part of a name before its first dot.
pub open spec fn before_dot(s: Seq<char>) -> Seq<char>
    decreases s.len(),
{
    if s.len() == 0 || s[0] == '.' {
        Seq::empty()
    } else {
        seq![s[0]] + before_dot(s.skip(1))
    }
}

/// The stem of a file path: behind the last slash, before the first dot.
pub fn file_stem(path: &str) -> (r: String)
    ensures
        r@ == before_dot(base_name(path@)),
{
    let v: Vec<char> = chars_of(path);
    let n: usize = v.len();
    let mut start: usize = n;
    assert(v@.take(n as int) =~= path@);
    assert(v@.subrange(n as int, n as int) =~= Seq::<char>::empty());
    assert(base_name(path@) =~= base_name(v@.take(n as int)) + v@.subrange(n as int, n as int));
    while start > 0 && v[start - 1] != '/'
        invariant
            start <= n,
            n == v@.len(),
            base_name(path@) == base_name(v@.take(start as int)) + v@.subrange(
                start as int,
                n as int,
            ),
        decreases start,
    {
        let ghost t = v@.take(start as int);
        assert(t.drop_last() =~= v@.take(start - 1));
        assert(base_name(t) + v@.subrange(start as int, n as int) =~= base_name(v@.take(start - 1))
            + v@.subrange(start - 1, n as int));
        start = start - 1;
    }
    let ghost name = v@.subrange(start as int, n as int);
    assert(base_name(v@.take(start as int)) =~= Seq::<char>::empty());
    assert(base_name(path@) =~= name);
    let mut end: usize = start;
    assert(name.skip(0) =~= name);
    assert(before_dot(name) =~= v@.subrange(start as int, start as int) + before_dot(name.skip(0)));
    while end < n && v[end] != '.'
        invariant
            start <= end <= n,
            n == v@.len(),
            name == v@.subrange(start as int, n as int),
            before_dot(name) == v@.subrange(start as int, end as int) + before_dot(
                name.skip(end - start),
            ),
        decreases n - end,
    {
        let ghost rest = name.skip(end - start);
        assert(rest[0] == v@[end as int]);
        assert(rest.skip(1) =~= name.skip(end + 1 - start));
        assert(v@.subrange(start as int, end as int) + before_dot(rest) =~= v@.subrange(
            start as int,
            end + 1,
        ) + before_dot(name.skip(end + 1 - start)));
        end = end + 1;
    }
    assert(before_dot(name.skip(end - start)) =~= Seq::<char>::empty());
    let mut out: String = String::new();
    push_chars(&mut out, v.as_slice(), start, end);
    assert(out@ =~= v@.subrange(start as int, end as int));
    out
}

/// The energy of samples: the sum of their squares.
pub open spec fn energy(s: Seq<i16>) -> int
    decreases s.len(),
{
    if s.len() == 0 {
        0
    } else {
        energy(s.drop_last()) + s.last() * s.last()
    }
}

proof fn lemma_square(v: i16)
    ensures
        0 <= v * v <= 1073741824,
{
    let w = v as int;
    if w >= 0 {
        assert(0 <= w * w <= 1073741824) by (nonlinear_arith)
            requires
                0 <= w <= 32768,
        ;
    } else {
        let m = -w;
        assert(0 <= m * m <= 1073741824) by (nonlinear_arith)
            requires
                0 <= m <= 32768,
        ;
        assert(w * w == m * m) by (nonlinear_arith)
            requires
                m == -w,
        ;
    }
}

proof fn lemma_energy_bound(s: Seq<i16>)
    ensures
        0 <= energy(s) <= 1073741824 * s.len(),
    decreases s.len(),
{
    if s.len() > 0 {
        lemma_energy_bound(s.drop_last());
        lemma_square(s.last());
    }
}

/// The energies and lengths of consecutive windows of `win` samples; the last
/// window may be shorter. A window is not so long that its energy could leave an
/// `i64`.
pub fn window_energies(pcm: &[i16], win: usize) -> (r: Vec<(i64, usize)>)
    requires
        0 < win,
        win <= 8_589_934_591 || pcm@.len() <= 8_589_934_591,
    ensures
        r@.len() == (pcm@.len() + win - 1) / win as int,
        forall|i: int|
            0 <= i < r@.len() ==> {
                let to = if (i + 1) * win <= pcm@.len() {
                    (i + 1) * win
                } else {
                    pcm@.len() as int
                };
                &&& (#[trigger] r@[i]).1 == to - i * win
                &&& r@[i].0 == energy(pcm@.subrange(i * win, to))
            },
{
    let n: usize = pcm.len();
    let mut out: Vec<(i64, usize)> = Vec::new();
    let mut from: usize = 0;
    let ghost mut k: int = 0;
    while from < n
        invariant
            n == pcm@.len(),
            0 < win,
            win <= 8_589_934_591 || n <= 8_589_934_591,
            from <= n,
            k == out@.len(),
            from < n ==> from == k * win,
            from == n ==> (k - 1) * win < n <= k * win,
            k >= 0,
            forall|i: int|
                0 <= i < out@.len() ==> {
                    let to = if (i + 1) * win <= pcm@.len() {
                        (i + 1) * win
                    } else {
                        pcm@.len() as int
                    };
                    &&& (#[trigger] out@[i]).1 == to - i * win
                    &&& out@[i].0 == energy(pcm@.subrange(i * win, to))
                },
        decreases n - from,
    {
        let to: usize = if n - from <= win {
            n
        } else {
            from + win
        };
        let mut sum: i64 = 0;
        let mut j: usize = from;
        assert(pcm@.subrange(from as int, from as int).len() == 0);
        while j < to
            invariant
                from <= j <= to <= pcm@.len(),
                to - from <= 8_589_934_591,
                sum == energy(pcm@.subrange(from as int, j as int)),
            decreases to - j,
        {
            let v: i16 = pcm[j];
            proof {
                let s = pcm@.subrange(from as int, j + 1);
                assert(s.drop_last() =~= pcm@.subrange(from as int, j as int));
                assert(s.last() == v);
                lemma_energy_bound(pcm@.subrange(from as int, j as int));
                lemma_square(v);
            }
            let w: i64 = v as i64;
            sum = sum + w * w;
            j = j + 1;
        }
        out.push((sum, to - from));
        proof {
            assert((k + 1) * win == k * win + win) by (nonlinear_arith);
            k = k + 1;
        }
        from = to;
    }
    proof {
        let w = win as int;
        if n > 0 {
            assert((k - 1) * w < n <= k * w);
            assert((n + w - 1) / w == k) by (nonlinear_arith)
                requires
                    (k - 1) * w < n,
                    n <= k * w,
                    w > 0,
            ;
        } else {
            assert((w - 1) / w == 0) by (nonlinear_arith)
                requires
                    w > 0,
            ;
        }
    }
    out
}

/// Whether the file name begins at `from`: behind the last slash, or at the start.
pub open spec fn name_starts(path: Seq<char>, from: int) -> bool {
    &&& 0 <= from <= path.len()
    &&& from > 0 ==> path[from - 1] == '/'
    &&& forall|i: int| from <= i < path.len() ==> #[trigger] path[i] != '/'
}

/// The stem of a path is what stands in its file name before the first dot: it stands
/// where the name begins, holds neither slash nor dot, and a dot or the end follows.
pub proof fn law_file_stem(path: &str, r: String, from: int)
    requires
        call_ensures(file_stem, (path,), r),
        name_starts(path@, from),
    ensures
        from + r@.len() <= path@.len(),
        path@.subrange(from, from + r@.len()) == r@,
        forall|i: int| 0 <= i < r@.len() ==> #[trigger] r@[i] != '.' && r@[i] != '/',
        from + r@.len() < path@.len() ==> path@[from + r@.len()] == '.',
{
    lemma_base_name(path@, from);
    let name = path@.skip(from);
    lemma_before_dot(name);
    assert(path@.subrange(from, from + r@.len()) =~= name.take(r@.len() as int));
    assert forall|i: int| 0 <= i < r@.len() implies #[trigger] r@[i] != '.' && r@[i] != '/' by {
        assert(r@[i] == name.take(r@.len() as int)[i]);
        assert(name[i] == path@[from + i]);
    }
}

proof fn lemma_base_name(s: Seq<char>, from: int)
    requires
        name_starts(s, from),
    ensures
        base_name(s) == s.skip(from),
    decreases s.len(),
{
    if from < s.len() {
        let d = s.drop_last();
        assert(s[s.len() - 1] != '/');
        assert forall|i: int| from <= i < d.len() implies #[trigger] d[i] != '/' by {
            assert(d[i] == s[i]);
        }
        lemma_base_name(d, from);
        assert(d.skip(from).push(s.last()) =~= s.skip(from));
    } else {
        assert(s.skip(from) =~= Seq::<char>::empty());
    }
}

proof fn lemma_before_dot(s: Seq<char>)
    ensures
        before_dot(s).len() <= s.len(),
        before_dot(s) == s.take(before_dot(s).len() as int),
        forall|i: int| 0 <= i < before_dot(s).len() ==> #[trigger] before_dot(s)[i] != '.',
        before_dot(s).len() < s.len() ==> s[before_dot(s).len() as int] == '.',
    decreases s.len(),
{
    if s.len() > 0 && s[0] != '.' {
        let t = s.skip(1);
        lemma_before_dot(t);
        let b = before_dot(t);
        assert(before_dot(s) =~= s.take(b.len() as int + 1)) by {
            assert forall|i: int| 0 < i < b.len() + 1 implies before_dot(s)[i] == s[i] by {
                assert(b[i - 1] == t.take(b.len() as int)[i - 1]);
            }
        }
        assert forall|i: int| 0 <= i < before_dot(s).len() implies #[trigger] before_dot(s)[i]
            != '.' by {
            if i > 0 {
                assert(before_dot(s)[i] == b[i - 1]);
            }
        }
    } else {
        assert(before_dot(s) =~= s.take(0));
    }
}

/// A window's energy is the sum of the squares of its samples: one sample more adds
/// its square, and windows behind each other add up.
pub proof fn law_energy(s: Seq<i16>, v: i16, t: Seq<i16>)
    ensures
        energy(Seq::<i16>::empty()) == 0,
        energy(s.push(v)) == energy(s) + v * v,
        energy(s + t) == energy(s) + energy(t),
        energy(s) >= 0,
    decreases t.len(),
{
    assert(s.push(v).drop_last() =~= s);
    lemma_energy_bound(s);
    if t.len() == 0 {
        assert(s + t =~= s);
    } else {
        law_energy(s, v, t.drop_last());
        assert((s + t).drop_last() =~= s + t.drop_last());
    }
}

/// The windows of a recording follow each other without gap or overlap, each of the
/// given length but for the last, and each with its own energy.
pub proof fn law_windows(pcm: &[i16], win: usize, r: Vec<(i64, usize)>, i: int)
    requires
        win > 0,
        call_ensures(window_energies, (pcm, win), r),
    ensures
        pcm@.len() == 0 <==> r@.len() == 0,
        (r@.len() - 1) * win < pcm@.len() <= r@.len() * win || pcm@.len() == 0,
        0 <= i < r@.len() - 1 ==> r@[i].1 == win,
        0 <= i < r@.len() ==> 0 <= i * win && i * win + r@[i].1 <= pcm@.len() && r@[i].0 == energy(
            pcm@.subrange(i * win, i * win + r@[i].1),
        ),
        i == r@.len() - 1 && i >= 0 ==> i * win + r@[i].1 == pcm@.len() && r@[i].1 > 0,
{
    let w = win as int;
    let n = pcm@.len() as int;
    let k = r@.len() as int;
    vstd::arithmetic::div_mod::lemma_fundamental_div_mod(n + w - 1, w);
    vstd::arithmetic::div_mod::lemma_mod_bound(n + w - 1, w);
    assert(w * k == k * w) by (nonlinear_arith);
    assert((k - 1) * w == k * w - w) by (nonlinear_arith);
    if n == 0 {
        vstd::arithmetic::div_mod::lemma_basic_div(w - 1, w);
    }
    if 0 <= i < k {
        assert((i + 1) * w == i * w + w) by (nonlinear_arith);
        assert(0 <= i * w) by (nonlinear_arith)
            requires
                0 <= i,
                w > 0,
        ;
        let e = r@[i];
        if i < k - 1 {
            assert((i + 1) * w <= (k - 1) * w) by (nonlinear_arith)
                requires
                    i + 1 <= k - 1,
                    w > 0,
            ;
        }
    }
}

/// A probe joins as the user it was given, in the channel it was given, by the token
/// it was given.
pub proof fn law_probe_joins(
    backend: &str,
    token: &str,
    user: &str,
    ch: &str,
    ice: Vec<IceServer>,
    open_mic: bool,
    input_wav: Option<String>,
    open_output: bool,
    r: VoiceJoinArgs,
)
    requires
        call_ensures(
            join_args,
            (backend, token, user, ch, ice, open_mic, input_wav, open_output),
            r,
        ),
    ensures
        r.backend_url@ == backend@,
        r.token@ == token@,
        r.user_id@ == user@ && r.username@ == user@,
        r.channel_id@ == ch@,
        r.ice_servers == ice,
        r.open_mic == open_mic && r.open_output == open_output && r.input_wav == input_wav,
{
}

/// A probe flips between the plain chain and the default model.
pub proof fn law_flip(
    m: SuppressorModel,
    once: SuppressorModel,
    twice: SuppressorModel,
)
    requires
        call_ensures(flipped_model, (m,), once),
        call_ensures(flipped_model, (once,), twice),
    ensures
        once != m,
        once is NsOnly || once is FastEnhancerM,
        twice != once,
        twice is NsOnly || twice is FastEnhancerM,
{
}

/// Without relays a probe keeps exactly the addresses that do not begin with `turn`,
/// else all of them; a server without an address is left out, and every other one
/// keeps its name and credentials. The order stays: one server more is decided on its
/// own and comes last.
pub proof fn law_probe_servers(
    servers: &Vec<IceServer>,
    more: &Vec<IceServer>,
    s: IceServer,
    stun_only: bool,
    x: Vec<IceServer>,
    y: Vec<IceServer>,
    i: int,
)
    requires
        more@ == servers@.push(s),
        call_ensures(probe_ice_servers, (servers, stun_only), x),
        call_ensures(probe_ice_servers, (more, stun_only), y),
    ensures
        0 <= i < x@.len() ==> i < y@.len() && y@[i].urls@ == x@[i].urls@ && y@[i].username
            == x@[i].username && y@[i].credential == x@[i].credential,
        y@.len() == x@.len() || y@.len() == x@.len() + 1,
        y@.len() == x@.len() + 1 ==> y@.last().username == s.username && y@.last().credential
            == s.credential && y@.last().urls@ == kept_urls(s.urls@, stun_only),
        y@.len() == x@.len() <==> kept_urls(s.urls@, stun_only).len() == 0,
{
    let f = |t: IceServer| ice_view(t);
    assert(more@.drop_last() =~= servers@);
    let a = x@.map_values(f);
    let b = y@.map_values(f);
    assert(a.len() == x@.len() && b.len() == y@.len());
    if 0 <= i < x@.len() {
        assert(a[i] == ice_view(x@[i]));
        assert(b[i] == ice_view(y@[i]));
    }
    if b.len() == a.len() + 1 {
        assert(b.last() == ice_view(y@.last()));
    }
}

/// Which addresses are kept, one by one.
pub proof fn law_addresses_kept(urls: Seq<String>, url: String, stun_only: bool)
    ensures
        kept_urls(Seq::<String>::empty(), stun_only).len() == 0,
        stun_only && crate::text::stands_at(url@, "turn"@, 0) ==> kept_urls(
            urls.push(url),
            stun_only,
        ) == kept_urls(urls, stun_only),
        !stun_only || !crate::text::stands_at(url@, "turn"@, 0) ==> kept_urls(
            urls.push(url),
            stun_only,
        ) == kept_urls(urls, stun_only).push(url),
{
    assert(urls.push(url).drop_last() =~= urls);
    crate::text::lemma_stands_at(url@, "turn"@, 0);
}

} // verus!
