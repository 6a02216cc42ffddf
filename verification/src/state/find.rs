//! Looking things up by their identifiers: the first one that has it.
use vstd::prelude::*;

use crate::protocol::{Channel, ChannelKind, DmSummary, ServerWithChannels, TextMessage};

verus! {

/// The first index from `i` on, below `n`, at which `p` holds.
pub open spec fn first_index(n: int, i: int, p: spec_fn(int) -> bool) -> Option<int>
    decreases
            if i < n {
                n - i
            } else {
                0
            },
{
    if i >= n {
        None
    } else if p(i) {
        Some(i)
    } else {
        first_index(n, i + 1, p)
    }
}

/// What [`first_index`] gives is what its name says.
pub proof fn law_first_index(n: int, i: int, p: spec_fn(int) -> bool)
    ensures
        match first_index(n, i, p) {
            Some(k) => i <= k < n && p(k) && forall|j: int| i <= j < k ==> !#[trigger] p(j),
            None => forall|j: int| i <= j < n ==> !#[trigger] p(j),
        },
    decreases
            if i < n {
                n - i
            } else {
                0
            },
{
    if i < n && !p(i) {
        law_first_index(n, i + 1, p);
    }
}

/// An index as a mathematical one.
pub open spec fn ix(r: Option<usize>) -> Option<int> {
    match r {
        Some(i) => Some(i as int),
        None => None,
    }
}

pub open spec fn has_server_id(s: Seq<ServerWithChannels>, id: Seq<char>) -> spec_fn(int) -> bool {
    |k: int| s[k].server.id@ == id
}

pub open spec fn has_channel_id(s: Seq<Channel>, id: Seq<char>) -> spec_fn(int) -> bool {
    |k: int| s[k].id@ == id
}

pub open spec fn is_text(s: Seq<Channel>) -> spec_fn(int) -> bool {
    |k: int| s[k].kind == ChannelKind::Text
}

pub open spec fn has_dm_id(s: Seq<DmSummary>, id: Seq<char>) -> spec_fn(int) -> bool {
    |k: int| s[k].channel.id@ == id
}

pub open spec fn is_message(
    s: Seq<TextMessage>,
    channel_id: Seq<char>,
    id: Seq<char>,
) -> spec_fn(int) -> bool {
    |k: int| s[k].id@ == id && s[k].channel_id@ == channel_id
}

/// Where the server with an identifier is.
pub open spec fn server_at(s: Seq<ServerWithChannels>, id: Seq<char>) -> Option<int> {
    first_index(s.len() as int, 0, has_server_id(s, id))
}

/// Where the channel with an identifier is.
pub open spec fn channel_at(s: Seq<Channel>, id: Seq<char>) -> Option<int> {
    first_index(s.len() as int, 0, has_channel_id(s, id))
}

/// Where the first text channel is.
pub open spec fn text_at(s: Seq<Channel>) -> Option<int> {
    first_index(s.len() as int, 0, is_text(s))
}

/// Where the direct conversation with an identifier is.
pub open spec fn dm_at(s: Seq<DmSummary>, id: Seq<char>) -> Option<int> {
    first_index(s.len() as int, 0, has_dm_id(s, id))
}

/// Where the message of a channel with an identifier is.
pub open spec fn message_at(s: Seq<TextMessage>, channel_id: Seq<char>, id: Seq<char>) -> Option<
    int,
> {
    first_index(s.len() as int, 0, is_message(s, channel_id, id))
}

pub fn find_server(s: &Vec<ServerWithChannels>, id: &str) -> (r: Option<usize>)
    ensures
        ix(r) == server_at(s@, id@),
        r matches Some(i) ==> i < s@.len(),
{
    let mut i: usize = 0;
    while i < s.len()
        invariant
            i <= s@.len(),
            server_at(s@, id@) == first_index(s@.len() as int, i as int, has_server_id(s@, id@)),
        decreases s@.len() - i,
    {
        if *s[i].server.id.as_str() == *id {
            return Some(i);
        }
        i = i + 1;
    }
    None
}

pub fn find_channel(s: &Vec<Channel>, id: &str) -> (r: Option<usize>)
    ensures
        ix(r) == channel_at(s@, id@),
        r matches Some(i) ==> i < s@.len(),
{
    let mut i: usize = 0;
    while i < s.len()
        invariant
            i <= s@.len(),
            channel_at(s@, id@) == first_index(s@.len() as int, i as int, has_channel_id(s@, id@)),
        decreases s@.len() - i,
    {
        if *s[i].id.as_str() == *id {
            return Some(i);
        }
        i = i + 1;
    }
    None
}

pub fn find_text(s: &Vec<Channel>) -> (r: Option<usize>)
    ensures
        ix(r) == text_at(s@),
        r matches Some(i) ==> i < s@.len() && s@[i as int].kind == ChannelKind::Text,
{
    let mut i: usize = 0;
    while i < s.len()
        invariant
            i <= s@.len(),
            text_at(s@) == first_index(s@.len() as int, i as int, is_text(s@)),
        decreases s@.len() - i,
    {
        if s[i].kind == ChannelKind::Text {
            return Some(i);
        }
        i = i + 1;
    }
    None
}

pub fn find_dm(s: &Vec<DmSummary>, id: &str) -> (r: Option<usize>)
    ensures
        ix(r) == dm_at(s@, id@),
        r matches Some(i) ==> i < s@.len(),
{
    let mut i: usize = 0;
    while i < s.len()
        invariant
            i <= s@.len(),
            dm_at(s@, id@) == first_index(s@.len() as int, i as int, has_dm_id(s@, id@)),
        decreases s@.len() - i,
    {
        if *s[i].channel.id.as_str() == *id {
            return Some(i);
        }
        i = i + 1;
    }
    None
}

pub fn find_message(s: &Vec<TextMessage>, channel_id: &str, id: &str) -> (r: Option<usize>)
    ensures
        ix(r) == message_at(s@, channel_id@, id@),
        r matches Some(i) ==> i < s@.len(),
{
    let mut i: usize = 0;
    while i < s.len()
        invariant
            i <= s@.len(),
            message_at(s@, channel_id@, id@) == first_index(
                s@.len() as int,
                i as int,
                is_message(s@, channel_id@, id@),
            ),
        decreases s@.len() - i,
    {
        if *s[i].id.as_str() == *id && *s[i].channel_id.as_str() == *channel_id {
            return Some(i);
        }
        i = i + 1;
    }
    None
}

/// The server that is found has the identifier, and no server before it has; none is
/// found only where none has it.
pub proof fn law_server_found(s: &Vec<ServerWithChannels>, id: &str, r: Option<usize>, j: int)
    requires
        call_ensures(find_server, (s, id), r),
        0 <= j < s@.len(),
    ensures
        r matches Some(i) ==> i < s@.len() && s@[i as int].server.id@ == id@,
        s@[j].server.id@ == id@ ==> (r matches Some(i) && i <= j),
{
    law_first_index(s@.len() as int, 0, has_server_id(s@, id@));
    assert(has_server_id(s@, id@)(j) == (s@[j].server.id@ == id@));
}

/// The channel that is found has the identifier, and no channel before it has; none
/// is found only where none has it.
pub proof fn law_channel_found(s: &Vec<Channel>, id: &str, r: Option<usize>, j: int)
    requires
        call_ensures(find_channel, (s, id), r),
        0 <= j < s@.len(),
    ensures
        r matches Some(i) ==> i < s@.len() && s@[i as int].id@ == id@,
        s@[j].id@ == id@ ==> (r matches Some(i) && i <= j),
{
    law_first_index(s@.len() as int, 0, has_channel_id(s@, id@));
    assert(has_channel_id(s@, id@)(j) == (s@[j].id@ == id@));
}

/// The text channel that is found is one, and no channel before it is.
pub proof fn law_text_found(s: &Vec<Channel>, r: Option<usize>, j: int)
    requires
        call_ensures(find_text, (s,), r),
        0 <= j < s@.len(),
    ensures
        r matches Some(i) ==> i < s@.len() && s@[i as int].kind == ChannelKind::Text,
        s@[j].kind == ChannelKind::Text ==> (r matches Some(i) && i <= j),
{
    law_first_index(s@.len() as int, 0, is_text(s@));
    assert(is_text(s@)(j) == (s@[j].kind == ChannelKind::Text));
}

/// The conversation that is found has the identifier, and none before it has.
pub proof fn law_dm_found(s: &Vec<DmSummary>, id: &str, r: Option<usize>, j: int)
    requires
        call_ensures(find_dm, (s, id), r),
        0 <= j < s@.len(),
    ensures
        r matches Some(i) ==> i < s@.len() && s@[i as int].channel.id@ == id@,
        s@[j].channel.id@ == id@ ==> (r matches Some(i) && i <= j),
{
    law_first_index(s@.len() as int, 0, has_dm_id(s@, id@));
    assert(has_dm_id(s@, id@)(j) == (s@[j].channel.id@ == id@));
}

/// The message that is found has the identifier and stands in the channel, and none
/// before it does.
pub proof fn law_message_found(
    s: &Vec<TextMessage>,
    channel_id: &str,
    id: &str,
    r: Option<usize>,
    j: int,
)
    requires
        call_ensures(find_message, (s, channel_id, id), r),
        0 <= j < s@.len(),
    ensures
        r matches Some(i) ==> i < s@.len() && s@[i as int].id@ == id@ && s@[i as int].channel_id@
            == channel_id@,
        s@[j].id@ == id@ && s@[j].channel_id@ == channel_id@ ==> (r matches Some(i) && i <= j),
{
    law_first_index(s@.len() as int, 0, is_message(s@, channel_id@, id@));
    assert(is_message(s@, channel_id@, id@)(j) == (s@[j].id@ == id@ && s@[j].channel_id@
        == channel_id@));
}

} // verus!
