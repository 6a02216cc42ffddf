//! Who is online: friends, members of servers, people in voice channels.
use vstd::prelude::*;

use crate::protocol::{
    OnlineFriendLite, PeerLite, PresenceV2Status, ServerPresence, VoiceChannelPresence,
};
use crate::strmap::StrMap;

verus! {

/// A friend who is online.
#[derive(Debug)]
pub struct FriendPresence {
    pub username: String,
    pub status: PresenceV2Status,
}

impl Clone for FriendPresence {
    fn clone(&self) -> (r: Self)
        ensures
            r == *self,
    {
        FriendPresence { username: self.username.clone(), status: self.status }
    }
}

/// Who is online, by user and by server.
pub struct PresenceState {
    pub online_friends: StrMap<FriendPresence>,
    pub server_presence: StrMap<ServerPresence>,
}

/// Friends by user; of two entries for one user the later counts.
pub open spec fn friends_by_id(s: Seq<OnlineFriendLite>) -> Map<Seq<char>, FriendPresence>
    decreases s.len(),
{
    if s.len() == 0 {
        Map::empty()
    } else {
        friends_by_id(s.drop_last()).insert(
            s.last().user_id@,
            FriendPresence { username: s.last().username, status: s.last().status },
        )
    }
}

/// Servers by identifier; of two entries for one server the later counts.
pub open spec fn servers_by_id(s: Seq<ServerPresence>) -> Map<Seq<char>, ServerPresence>
    decreases s.len(),
{
    if s.len() == 0 {
        Map::empty()
    } else {
        servers_by_id(s.drop_last()).insert(s.last().server_id@, s.last())
    }
}

/// Whether two maps have the same keys and differ at most at `k`.
pub open spec fn only_at<V>(a: Map<Seq<char>, V>, b: Map<Seq<char>, V>, k: Seq<char>) -> bool {
    &&& a.dom() =~= b.dom()
    &&& forall|j: Seq<char>| j != k && a.contains_key(j) ==> #[trigger] b[j] == a[j]
}

/// People as identifiers and names.
pub open spec fn people(s: Seq<PeerLite>) -> Seq<(Seq<char>, Seq<char>)> {
    s.map_values(|p: PeerLite| (p.user_id@, p.username@))
}

/// Whether a user is among people.
pub open spec fn among(s: Seq<PeerLite>, user_id: Seq<char>) -> bool {
    exists|i: int| 0 <= i < s.len() && (#[trigger] s[i]).user_id@ == user_id
}

/// People without a user.
pub open spec fn without(s: Seq<PeerLite>, user_id: Seq<char>) -> Seq<PeerLite> {
    s.filter(|p: PeerLite| p.user_id@ != user_id)
}

pub open spec fn has_voice_id(s: Seq<VoiceChannelPresence>, id: Seq<char>) -> spec_fn(int) -> bool {
    |k: int| s[k].channel_id@ == id
}

/// Where the voice channel with an identifier is.
pub open spec fn voice_at(s: Seq<VoiceChannelPresence>, id: Seq<char>) -> Option<int> {
    crate::state::find::first_index(s.len() as int, 0, has_voice_id(s, id))
}

/// Who is online in a server after a member came: the member comes last, unless
/// it was there.
pub open spec fn member_came(
    before: ServerPresence,
    after: ServerPresence,
    user_id: Seq<char>,
    username: Seq<char>,
) -> bool {
    &&& after.server_id == before.server_id
    &&& after.voice_channels == before.voice_channels
    &&& if among(before.online_members@, user_id) {
        after.online_members == before.online_members
    } else {
        people(after.online_members@) =~= people(before.online_members@).push((user_id, username))
    }
}

/// Who is in the voice channels of a server after one channel got new people.
pub open spec fn channel_filled(
    before: ServerPresence,
    after: ServerPresence,
    channel_id: Seq<char>,
    peers: Vec<PeerLite>,
) -> bool {
    &&& after.server_id == before.server_id
    &&& after.online_members == before.online_members
    &&& match voice_at(before.voice_channels@, channel_id) {
        Some(i) => after.voice_channels@ == before.voice_channels@.update(
            i,
            VoiceChannelPresence { channel_id: before.voice_channels@[i].channel_id, peers },
        ),
        None => after.voice_channels == before.voice_channels,
    }
}

fn is_among(s: &Vec<PeerLite>, user_id: &str) -> (r: bool)
    ensures
        r == among(s@, user_id@),
{
    let mut i: usize = 0;
    while i < s.len()
        invariant
            i <= s@.len(),
            forall|j: int| 0 <= j < i ==> (#[trigger] s@[j]).user_id@ != user_id@,
        decreases s@.len() - i,
    {
        if *s[i].user_id.as_str() == *user_id {
            assert(s@[i as int].user_id@ == user_id@);
            return true;
        }
        i = i + 1;
    }
    false
}

fn remove_user(s: &mut Vec<PeerLite>, user_id: &str)
    ensures
        final(s)@ == without(old(s)@, user_id@),
{
    let ghost all = s@;
    let ghost keep = |p: PeerLite| p.user_id@ != user_id@;
    let ghost mut seen: int = 0;
    let mut i: usize = 0;
    proof {
        assert(all.take(0) =~= Seq::<PeerLite>::empty());
        reveal(Seq::filter);
        assert(all.take(0).filter(keep) =~= Seq::<PeerLite>::empty());
        assert(s@ =~= all.take(0).filter(keep) + all.skip(0));
    }
    while i < s.len()
        invariant
            0 <= seen <= all.len(),
            i == all.take(seen).filter(keep).len(),
            keep == (|p: PeerLite| p.user_id@ != user_id@),
            s@ == all.take(seen).filter(keep) + all.skip(seen),
        decreases all.len() - seen,
    {
        proof {
            reveal(Seq::filter);
            assert(s@[i as int] == all[seen]);
            assert(all.take(seen + 1).drop_last() =~= all.take(seen));
            assert(all.take(seen + 1).last() == all[seen]);
        }
        if *s[i].user_id.as_str() == *user_id {
            let _ = s.remove(i);
            proof {
                assert(all.take(seen + 1).filter(keep) == all.take(seen).filter(keep));
                assert(s@ =~= all.take(seen + 1).filter(keep) + all.skip(seen + 1));
            }
        } else {
            proof {
                assert(all.take(seen + 1).filter(keep) == all.take(seen).filter(keep).push(
                    all[seen],
                ));
                assert(s@ =~= all.take(seen + 1).filter(keep) + all.skip(seen + 1));
            }
            i = i + 1;
        }
        proof {
            seen = seen + 1;
        }
    }
    proof {
        assert(seen == all.len());
        assert(all.take(seen) =~= all);
        assert(s@ =~= all.filter(keep));
    }
}

fn find_voice(s: &Vec<VoiceChannelPresence>, id: &str) -> (r: Option<usize>)
    ensures
        crate::state::find::ix(r) == voice_at(s@, id@),
        r matches Some(i) ==> i < s@.len(),
{
    let mut i: usize = 0;
    while i < s.len()
        invariant
            i <= s@.len(),
            voice_at(s@, id@) == crate::state::find::first_index(
                s@.len() as int,
                i as int,
                has_voice_id(s@, id@),
            ),
        decreases s@.len() - i,
    {
        if *s[i].channel_id.as_str() == *id {
            return Some(i);
        }
        i = i + 1;
    }
    None
}

impl PresenceState {
    /// Whether the maps are well formed.
    pub open spec fn wf(&self) -> bool {
        self.online_friends.wf() && self.server_presence.wf()
    }

    /// Nobody is known to be online.
    pub fn new() -> (r: Self)
        ensures
            r.wf(),
            r.online_friends@ == Map::<Seq<char>, FriendPresence>::empty(),
            r.server_presence@ == Map::<Seq<char>, ServerPresence>::empty(),
    {
        PresenceState { online_friends: StrMap::new(), server_presence: StrMap::new() }
    }

    /// Takes over a snapshot of who is online; what was known before goes.
    pub fn ready(&mut self, online_friends: Vec<OnlineFriendLite>, servers: Vec<ServerPresence>)
        ensures
            final(self).wf(),
            final(self).online_friends@ == friends_by_id(online_friends@),
            final(self).server_presence@ == servers_by_id(servers@),
    {
        let mut friends: StrMap<FriendPresence> = StrMap::new();
        let mut i: usize = 0;
        assert(online_friends@.take(0) =~= Seq::empty());
        while i < online_friends.len()
            invariant
                i <= online_friends@.len(),
                friends.wf(),
                friends@ == friends_by_id(online_friends@.take(i as int)),
            decreases online_friends@.len() - i,
        {
            assert(online_friends@.take(i + 1).drop_last() =~= online_friends@.take(i as int));
            let f: &OnlineFriendLite = &online_friends[i];
            friends.insert(
                f.user_id.clone(),
                FriendPresence { username: f.username.clone(), status: f.status },
            );
            i = i + 1;
        }
        assert(online_friends@.take(i as int) =~= online_friends@);
        let mut map: StrMap<ServerPresence> = StrMap::new();
        let mut left: Vec<ServerPresence> = servers;
        assert(servers_by_id(servers@) =~= servers_by_id(left@).union_prefer_right(map@));
        loop
            invariant
                map.wf(),
                servers_by_id(servers@) == servers_by_id(left@).union_prefer_right(map@),
            ensures
                map.wf(),
                map@ == servers_by_id(servers@),
            decreases left@.len(),
        {
            let ghost before = left@;
            match left.pop() {
                Some(s) => {
                    assert(left@ =~= before.drop_last());
                    if map.contains(s.server_id.as_str()) {
                        assert(servers_by_id(before).union_prefer_right(map@) =~= servers_by_id(
                            left@,
                        ).union_prefer_right(map@));
                    } else {
                        let ghost m = map@;
                        map.insert(s.server_id.clone(), s);
                        assert(servers_by_id(before).union_prefer_right(m) =~= servers_by_id(
                            left@,
                        ).union_prefer_right(map@));
                    }
                },
                None => {
                    assert(map@ =~= servers_by_id(left@).union_prefer_right(map@));
                    break;
                },
            }
        }
        self.online_friends = friends;
        self.server_presence = map;
    }

    /// A friend came online.
    pub fn friend_online(&mut self, user_id: &str, username: &str)
        requires
            old(self).wf(),
        ensures
            final(self).wf(),
            final(self).server_presence == old(self).server_presence,
            final(self).online_friends@.contains_key(user_id@),
            final(self).online_friends@[user_id@].username@ == username@,
            final(self).online_friends@[user_id@].status == PresenceV2Status::Online,
            final(self).online_friends@.remove(user_id@) == old(self).online_friends@.remove(
                user_id@,
            ),
    {
        self.online_friends.insert(
            user_id.to_owned(),
            FriendPresence { username: username.to_owned(), status: PresenceV2Status::Online },
        );
        assert(self.online_friends@.remove(user_id@) =~= old(self).online_friends@.remove(user_id@));
    }

    /// A friend went offline.
    pub fn friend_offline(&mut self, user_id: &str)
        requires
            old(self).wf(),
        ensures
            final(self).wf(),
            final(self).server_presence == old(self).server_presence,
            final(self).online_friends@ == old(self).online_friends@.remove(user_id@),
    {
        let _ = self.online_friends.remove(user_id);
    }

    /// A friend changed status; one who is not online is passed over.
    pub fn friend_status(&mut self, user_id: &str, status: PresenceV2Status)
        requires
            old(self).wf(),
        ensures
            final(self).wf(),
            final(self).server_presence == old(self).server_presence,
            final(self).online_friends@ == (if old(self).online_friends@.contains_key(user_id@) {
                old(self).online_friends@.insert(
                    user_id@,
                    FriendPresence { status, ..old(self).online_friends@[user_id@] },
                )
            } else {
                old(self).online_friends@
            }),
    {
        if let Some(f) = self.online_friends.get_mut(user_id) {
            f.status = status;
        }
    }

    /// A member of a server came online; an unknown server is passed over.
    pub fn member_online(&mut self, server_id: &str, user_id: &str, username: &str)
        requires
            old(self).wf(),
        ensures
            final(self).wf(),
            final(self).online_friends == old(self).online_friends,
            only_at(old(self).server_presence@, final(self).server_presence@, server_id@),
            old(self).server_presence@.contains_key(server_id@) ==> member_came(
                old(self).server_presence@[server_id@],
                final(self).server_presence@[server_id@],
                user_id@,
                username@,
            ),
    {
        if let Some(sp) = self.server_presence.get_mut(server_id) {
            if !is_among(&sp.online_members, user_id) {
                let ghost before = sp.online_members@;
                sp.online_members.push(
                    PeerLite { user_id: user_id.to_owned(), username: username.to_owned() },
                );
                assert(people(sp.online_members@) =~= people(before).push((user_id@, username@)));
            }
        }
    }

    /// A member of a server went offline.
    pub fn member_offline(&mut self, server_id: &str, user_id: &str)
        requires
            old(self).wf(),
        ensures
            final(self).wf(),
            final(self).online_friends == old(self).online_friends,
            only_at(old(self).server_presence@, final(self).server_presence@, server_id@),
            old(self).server_presence@.contains_key(server_id@) ==> {
                let before = old(self).server_presence@[server_id@];
                let after = final(self).server_presence@[server_id@];
                &&& after.server_id == before.server_id
                &&& after.voice_channels == before.voice_channels
                &&& after.online_members@ == without(before.online_members@, user_id@)
            },
    {
        if let Some(sp) = self.server_presence.get_mut(server_id) {
            remove_user(&mut sp.online_members, user_id);
        }
    }

    /// The people in a voice channel changed; an unknown channel is passed over.
    pub fn voice_occupancy(&mut self, server_id: &str, channel_id: &str, peers: Vec<PeerLite>)
        requires
            old(self).wf(),
        ensures
            final(self).wf(),
            final(self).online_friends == old(self).online_friends,
            only_at(old(self).server_presence@, final(self).server_presence@, server_id@),
            old(self).server_presence@.contains_key(server_id@) ==> channel_filled(
                old(self).server_presence@[server_id@],
                final(self).server_presence@[server_id@],
                channel_id@,
                peers,
            ),
    {
        if let Some(sp) = self.server_presence.get_mut(server_id) {
            if let Some(i) = find_voice(&sp.voice_channels, channel_id) {
                sp.voice_channels[i].peers = peers;
            }
        }
    }
}

/// A member who comes online twice is listed once, as after the first time.
pub proof fn law_member_listed_once(
    before: ServerPresence,
    once: ServerPresence,
    twice: ServerPresence,
    user_id: Seq<char>,
    first_name: Seq<char>,
    second_name: Seq<char>,
)
    requires
        member_came(before, once, user_id, first_name),
        member_came(once, twice, user_id, second_name),
    ensures
        twice == once,
{
    if !among(before.online_members@, user_id) {
        let n = before.online_members@.len() as int;
        assert(people(once.online_members@).len() == n + 1);
        assert(people(once.online_members@)[n] == (user_id, first_name));
        assert(once.online_members@[n].user_id@ == user_id);
    }
    assert(among(once.online_members@, user_id));
}

/// A member who went offline is listed no more, and nobody else is lost.
pub proof fn law_member_gone(s: Seq<PeerLite>, user_id: Seq<char>)
    ensures
        !among(without(s, user_id), user_id),
        forall|i: int|
            0 <= i < s.len() && (#[trigger] s[i]).user_id@ != user_id ==> without(
                s,
                user_id,
            ).contains(s[i]),
{
    broadcast use vstd::seq_lib::group_filter_ensures;

}

/// Whom a snapshot names is known from it.
pub proof fn lemma_friend_known(s: Seq<OnlineFriendLite>, i: int)
    requires
        0 <= i < s.len(),
    ensures
        friends_by_id(s).contains_key(s[i].user_id@),
    decreases s.len(),
{
    if i < s.len() - 1 {
        assert(s.drop_last()[i] == s[i]);
        lemma_friend_known(s.drop_last(), i);
    }
}

/// Whom a snapshot makes known it names.
pub proof fn lemma_friend_named(s: Seq<OnlineFriendLite>, k: Seq<char>)
    requires
        friends_by_id(s).contains_key(k),
    ensures
        exists|i: int| 0 <= i < s.len() && (#[trigger] s[i]).user_id@ == k,
    decreases s.len(),
{
    if s.len() > 0 {
        if s.last().user_id@ == k {
            assert(s[s.len() - 1].user_id@ == k);
        } else {
            let d = s.drop_last();
            lemma_friend_named(d, k);
            let i = choose|i: int| 0 <= i < d.len() && (#[trigger] d[i]).user_id@ == k;
            assert(s[i].user_id@ == k);
        }
    }
}

/// The last entry for an identifier counts.
pub proof fn lemma_friend_last(s: Seq<OnlineFriendLite>, i: int)
    requires
        0 <= i < s.len(),
        forall|j: int| i < j < s.len() ==> (#[trigger] s[j]).user_id@ != s[i].user_id@,
    ensures
        friends_by_id(s)[s[i].user_id@].username == s[i].username,
        friends_by_id(s)[s[i].user_id@].status == s[i].status,
    decreases s.len(),
{
    if i < s.len() - 1 {
        let d = s.drop_last();
        assert(d[i] == s[i]);
        assert forall|j: int| i < j < d.len()
            implies (#[trigger] d[j]).user_id@ != d[i].user_id@ by {
            assert(d[j] == s[j]);
        }
        lemma_friend_last(d, i);
        assert(s[s.len() - 1].user_id@ != s[i].user_id@);
    }
}

/// Whom a snapshot names is known from it.
pub proof fn lemma_server_known(s: Seq<ServerPresence>, i: int)
    requires
        0 <= i < s.len(),
    ensures
        servers_by_id(s).contains_key(s[i].server_id@),
    decreases s.len(),
{
    if i < s.len() - 1 {
        assert(s.drop_last()[i] == s[i]);
        lemma_server_known(s.drop_last(), i);
    }
}

/// Whom a snapshot makes known it names.
pub proof fn lemma_server_named(s: Seq<ServerPresence>, k: Seq<char>)
    requires
        servers_by_id(s).contains_key(k),
    ensures
        exists|i: int| 0 <= i < s.len() && (#[trigger] s[i]).server_id@ == k,
    decreases s.len(),
{
    if s.len() > 0 {
        if s.last().server_id@ == k {
            assert(s[s.len() - 1].server_id@ == k);
        } else {
            let d = s.drop_last();
            lemma_server_named(d, k);
            let i = choose|i: int| 0 <= i < d.len() && (#[trigger] d[i]).server_id@ == k;
            assert(s[i].server_id@ == k);
        }
    }
}

/// The last entry for an identifier counts.
pub proof fn lemma_server_last(s: Seq<ServerPresence>, i: int)
    requires
        0 <= i < s.len(),
        forall|j: int| i < j < s.len() ==> (#[trigger] s[j]).server_id@ != s[i].server_id@,
    ensures
        servers_by_id(s)[s[i].server_id@] == s[i],
    decreases s.len(),
{
    if i < s.len() - 1 {
        let d = s.drop_last();
        assert(d[i] == s[i]);
        assert forall|j: int| i < j < d.len()
            implies (#[trigger] d[j]).server_id@ != d[i].server_id@ by {
            assert(d[j] == s[j]);
        }
        lemma_server_last(d, i);
        assert(s[s.len() - 1].server_id@ != s[i].server_id@);
    }
}

/// Leaving keeps the others in their order.
pub proof fn lemma_without_splits(a: Seq<PeerLite>, p: PeerLite, user_id: Seq<char>)
    ensures
        p.user_id@ == user_id ==> without(a.push(p), user_id) == without(a, user_id),
        p.user_id@ != user_id ==> without(a.push(p), user_id) == without(a, user_id).push(p),
        without(Seq::<PeerLite>::empty(), user_id) == Seq::<PeerLite>::empty(),
{
    reveal(Seq::filter);
    assert(a.push(p).drop_last() =~= a);
    assert(Seq::<PeerLite>::empty().filter(|p: PeerLite| p.user_id@ != user_id) =~= Seq::<
        PeerLite,
    >::empty());
}

} // verus!
