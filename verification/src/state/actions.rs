//! What the user can do: the request or the frame that each action makes, and what
//! follows its success.
use vstd::prelude::*;

use crate::api::{ApiClient, ApiError, ApiRequest};
use crate::event::CoreEvent;
use crate::presence::PresenceOut;
use crate::protocol::{ChannelKind, DmCreatedResponse, DmSummary, FriendsResponse};
use crate::random::random_u64;
use crate::state::pane;
use crate::state::shell::{copy_dms, copy_friends, copy_pending, ShellState};
use crate::text::hex16;

verus! {

/// What to load again after an action.
#[derive(Debug, Clone, Copy, PartialEq, Eq, Structural)]
pub enum Reload {
    Nothing,
    Servers,
    Messages,
    Friends,
}

/// A request, and what to load again once it succeeded.
#[derive(Debug)]
pub struct Action {
    pub request: ApiRequest,
    pub reload: Reload,
}

/// What an action came to: what to load again, or the code of the error.
pub fn action_result(reload: Reload, result: Result<(), ApiError>) -> (r: Result<Reload, String>)
    ensures
        r == (match result {
            Ok(_) => Ok(reload),
            Err(e) => Err(e.code),
        }),
{
    match result {
        Ok(()) => Ok(reload),
        Err(e) => Err(e.code),
    }
}

impl ShellState {
    /// The frame that tells of typing in the selected channel of the selected
    /// server, where both are selected.
    pub fn send_typing(&self) -> (r: Option<PresenceOut>)
        ensures
            r == (match (self.selected_channel_id, self.selected_server_id) {
                (Some(channel_id), Some(server_id)) => Some(
                    PresenceOut::Typing { channel_id, server_id },
                ),
                _ => None,
            }),
    {
        match (&self.selected_channel_id, &self.selected_server_id) {
            (Some(c), Some(s)) => Some(
                PresenceOut::Typing { channel_id: c.clone(), server_id: s.clone() },
            ),
            _ => None,
        }
    }

    pub fn presence_voice_join(&self, channel_id: String, server_id: String) -> (r: PresenceOut)
        ensures
            r == (PresenceOut::VoiceJoin { channel_id, server_id }),
    {
        PresenceOut::VoiceJoin { channel_id, server_id }
    }

    pub fn presence_voice_leave(&self) -> (r: PresenceOut)
        ensures
            r == PresenceOut::VoiceLeave,
    {
        PresenceOut::VoiceLeave
    }

    /// The frame that edits a message, under a random client identifier.
    pub fn edit_message_ws(
        &self,
        channel_id: String,
        server_id: String,
        message_id: String,
        content: String,
    ) -> (r: PresenceOut)
        ensures
            r matches PresenceOut::ChatEdit {
                channel_id: c,
                server_id: s,
                message_id: m,
                content: t,
                client_id: id,
            } && c == channel_id && s == server_id && m == message_id && t == content && exists|
                n: u64,
            |
                id@ == #[trigger] crate::text::hex_digits(n as nat, 16),
    {
        let n: u64 = random_u64();
        let client_id: String = hex16(n);
        assert(client_id@ == crate::text::hex_digits(n as nat, 16));
        PresenceOut::ChatEdit { channel_id, server_id, message_id, content, client_id }
    }

    /// The frame that deletes a message, under a random client identifier.
    pub fn delete_message_ws(&self, channel_id: String, server_id: String, message_id: String) -> (r:
        PresenceOut)
        ensures
            r matches PresenceOut::ChatDelete {
                channel_id: c,
                server_id: s,
                message_id: m,
                client_id: id,
            } && c == channel_id && s == server_id && m == message_id && exists|n: u64|
                id@ == #[trigger] crate::text::hex_digits(n as nat, 16),
    {
        let n: u64 = random_u64();
        let client_id: String = hex16(n);
        assert(client_id@ == crate::text::hex_digits(n as nat, 16));
        PresenceOut::ChatDelete { channel_id, server_id, message_id, client_id }
    }

    pub fn subscribe_channel(&self, channel_id: String) -> (r: PresenceOut)
        ensures
            r == PresenceOut::Subscribe(channel_id),
    {
        PresenceOut::Subscribe(channel_id)
    }

    pub fn unsubscribe_channel(&self, channel_id: String) -> (r: PresenceOut)
        ensures
            r == PresenceOut::Unsubscribe(channel_id),
    {
        PresenceOut::Unsubscribe(channel_id)
    }

    /// Takes in friends, pending friendships and direct conversations; conversations
    /// that could not be listed count as none. The event is to be published.
    pub fn load_friends(
        &mut self,
        result: Result<(FriendsResponse, Result<Vec<DmSummary>, ApiError>), ApiError>,
    ) -> (r: CoreEvent)
        ensures
            match result {
                Ok(got) => {
                    &&& *final(self) == (ShellState {
                        friends: got.0.friends,
                        pending: got.0.pending,
                        dm_list: final(self).dm_list,
                        ..*old(self)
                    })
                    &&& final(self).dm_list@ == (match got.1 {
                        Ok(dms) => dms@,
                        Err(_) => Seq::empty(),
                    })
                    &&& r matches CoreEvent::FriendsLoaded { friends, pending, dms }
                    &&& friends@ == got.0.friends@
                    &&& pending@ == got.0.pending@
                    &&& dms@ == final(self).dm_list@
                },
                Err(e) => crate::state::shell::failed_with(*old(self), *final(self), r, e.code),
            },
    {
        match result {
            Ok((f, dms)) => {
                self.friends = f.friends;
                self.pending = f.pending;
                self.dm_list = match dms {
                    Ok(dms) => dms,
                    Err(_) => Vec::new(),
                };
                self.friends_loaded()
            },
            Err(e) => self.set_error(e.code),
        }
    }

    /// Takes in friends and pending friendships; the direct conversations stay. The
    /// event is to be published.
    pub fn refresh_friends(&mut self, result: Result<FriendsResponse, ApiError>) -> (r: CoreEvent)
        ensures
            match result {
                Ok(got) => {
                    &&& *final(self) == (ShellState {
                        friends: got.friends,
                        pending: got.pending,
                        ..*old(self)
                    })
                    &&& r matches CoreEvent::FriendsLoaded { friends, pending, dms }
                    &&& friends@ == got.friends@
                    &&& pending@ == got.pending@
                    &&& dms@ == old(self).dm_list@
                },
                Err(e) => crate::state::shell::failed_with(*old(self), *final(self), r, e.code),
            },
    {
        match result {
            Ok(f) => {
                self.friends = f.friends;
                self.pending = f.pending;
                self.friends_loaded()
            },
            Err(e) => self.set_error(e.code),
        }
    }

    fn friends_loaded(&self) -> (r: CoreEvent)
        ensures
            r matches CoreEvent::FriendsLoaded { friends, pending, dms } && friends@
                == self.friends@ && pending@ == self.pending@ && dms@ == self.dm_list@,
    {
        CoreEvent::FriendsLoaded {
            friends: copy_friends(&self.friends),
            pending: copy_pending(&self.pending),
            dms: copy_dms(&self.dm_list),
        }
    }

    /// A direct conversation was opened: it is shown. Its messages are to be loaded.
    pub fn dm_opened(&mut self, dm: DmCreatedResponse)
        ensures
            *final(self) == (ShellState {
                selected_channel_id: Some(dm.channel.channel.id),
                view: pane::View::Friends,
                ..*old(self)
            }),
    {
        self.selected_channel_id = Some(dm.channel.channel.id);
        self.view = pane::View::Friends;
    }

    /// A channel was deleted: if it was selected, nothing is.
    pub fn channel_deleted(&mut self, channel_id: &str)
        ensures
            *final(self) == (ShellState {
                selected_channel_id: if crate::state::shell::opt_view(old(self).selected_channel_id)
                    == Some(channel_id@) {
                    None
                } else {
                    old(self).selected_channel_id
                },
                ..*old(self)
            }),
    {
        let gone: bool = match &self.selected_channel_id {
            Some(c) => *c.as_str() == *channel_id,
            None => false,
        };
        if gone {
            self.selected_channel_id = None;
        }
    }

    /// Creates a channel in the selected server.
    pub fn create_channel(&self, api: &ApiClient, name: &str, kind: ChannelKind) -> (r: Result<
        Action,
        String,
    >)
        ensures
            match self.selected_server_id {
                Some(s) => r matches Ok(a) && a.reload == Reload::Servers && a.request.method
                    == crate::api::Method::Post && a.request.path@ == "/api/servers/"@
                    + crate::api::enc(s@) + "/channels"@ && a.request.body.is_object(
                    seq![("name"@, Some(name@)), ("kind"@, Some(kind.name()))],
                ) && a.request.refreshable,
                None => r matches Err(e) && e@ == "no server selected"@,
            },
    {
        match &self.selected_server_id {
            Some(s) => Ok(
                Action {
                    request: api.create_channel(s.as_str(), name, kind),
                    reload: Reload::Servers,
                },
            ),
            None => Err("no server selected".to_owned()),
        }
    }

    /// Creates a server.
    pub fn create_server(&self, api: &ApiClient, name: &str) -> (r: Action)
        ensures
            r.reload == Reload::Servers,
            r.request.method == crate::api::Method::Post,
            r.request.path@ == "/api/servers"@,
            r.request.body.is_object(seq![("name"@, Some(name@))]),
            r.request.refreshable,
    {
        Action { request: api.create_server(name), reload: Reload::Servers }
    }

    /// Joins a server by its invite code.
    pub fn join_server(&self, api: &ApiClient, invite_code: &str) -> (r: Action)
        ensures
            r.reload == Reload::Servers,
            r.request.method == crate::api::Method::Post,
            r.request.path@ == "/api/servers/join"@,
            r.request.body.is_object(seq![("inviteCode"@, Some(invite_code@))]),
            r.request.refreshable,
    {
        Action { request: api.join_server(invite_code), reload: Reload::Servers }
    }

    /// Asks for a friendship.
    pub fn send_friend_request(&self, api: &ApiClient, username: &str) -> (r: Action)
        ensures
            r.reload == Reload::Friends,
            r.request.method == crate::api::Method::Post,
            r.request.path@ == "/api/friends/requests"@,
            r.request.body.is_object(seq![("username"@, Some(username@))]),
            r.request.refreshable,
    {
        Action { request: api.send_friend_request(username), reload: Reload::Friends }
    }

    /// Accepts a friendship.
    pub fn accept_friend(&self, api: &ApiClient, request_id: &str) -> (r: Action)
        ensures
            r.reload == Reload::Friends,
            r.request.method == crate::api::Method::Post,
            r.request.path@ == "/api/friends/requests/"@ + crate::api::enc(request_id@)
                + "/accept"@,
            r.request.body is Empty,
            r.request.refreshable,
    {
        Action { request: api.accept_friend_request(request_id), reload: Reload::Friends }
    }

    /// Declines a friendship.
    pub fn decline_friend(&self, api: &ApiClient, request_id: &str) -> (r: Action)
        ensures
            r.reload == Reload::Friends,
            r.request.method == crate::api::Method::Delete,
            r.request.path@ == "/api/friends/requests/"@ + crate::api::enc(request_id@),
            r.request.body is Empty,
            r.request.refreshable,
    {
        Action { request: api.decline_friend_request(request_id), reload: Reload::Friends }
    }

    /// Opens a direct conversation with a friend; [`ShellState::dm_opened`] shows it.
    pub fn open_dm(&self, api: &ApiClient, username: &str) -> (r: Action)
        ensures
            r.reload == Reload::Friends,
            r.request.method == crate::api::Method::Post,
            r.request.path@ == "/api/dms"@,
            r.request.body.is_object(seq![("username"@, Some(username@))]),
            r.request.refreshable,
    {
        Action { request: api.create_dm(username), reload: Reload::Friends }
    }

    /// Renames a server.
    pub fn update_server(&self, api: &ApiClient, server_id: &str, name: &str) -> (r: Action)
        ensures
            r.reload == Reload::Servers,
            r.request.method == crate::api::Method::Patch,
            r.request.path@ == "/api/servers/"@ + crate::api::enc(server_id@),
            r.request.body.is_object(seq![("name"@, Some(name@))]),
            r.request.refreshable,
    {
        Action { request: api.update_server(server_id, Some(name)), reload: Reload::Servers }
    }

    /// Deletes a server.
    pub fn delete_server(&self, api: &ApiClient, server_id: &str) -> (r: Action)
        ensures
            r.reload == Reload::Servers,
            r.request.method == crate::api::Method::Delete,
            r.request.path@ == "/api/servers/"@ + crate::api::enc(server_id@) + "?confirm=true"@,
            r.request.body is Empty,
            r.request.refreshable,
    {
        Action { request: api.delete_server(server_id), reload: Reload::Servers }
    }

    /// Leaves a server.
    pub fn leave_server(&self, api: &ApiClient, server_id: &str) -> (r: Action)
        ensures
            r.reload == Reload::Servers,
            r.request.method == crate::api::Method::Post,
            r.request.path@ == "/api/servers/"@ + crate::api::enc(server_id@) + "/leave"@,
            r.request.body is Empty,
            r.request.refreshable,
    {
        Action { request: api.leave_server(server_id), reload: Reload::Servers }
    }

    /// Makes a new invite code.
    pub fn regenerate_invite(&self, api: &ApiClient, server_id: &str) -> (r: Action)
        ensures
            r.reload == Reload::Servers,
            r.request.method == crate::api::Method::Post,
            r.request.path@ == "/api/servers/"@ + crate::api::enc(server_id@) + "/invite"@,
            r.request.body is Empty,
            r.request.refreshable,
    {
        Action { request: api.regenerate_invite(server_id), reload: Reload::Servers }
    }

    /// Removes a member.
    pub fn kick_member(&self, api: &ApiClient, server_id: &str, user_id: &str) -> (r: Action)
        ensures
            r.reload == Reload::Nothing,
            r.request.method == crate::api::Method::Delete,
            r.request.path@ == "/api/servers/"@ + crate::api::enc(server_id@) + "/members/"@
                + crate::api::enc(user_id@),
            r.request.body is Empty,
            r.request.refreshable,
    {
        Action { request: api.kick_member(server_id, user_id), reload: Reload::Nothing }
    }

    /// Changes a channel.
    pub fn update_channel(
        &self,
        api: &ApiClient,
        channel_id: &str,
        patch: serde_json::Value,
    ) -> (r: Action)
        ensures
            r.reload == Reload::Servers,
            r.request.method == crate::api::Method::Patch,
            r.request.path@ == "/api/channels/"@ + crate::api::enc(channel_id@),
            r.request.body == crate::api::Body::Json(patch),
            r.request.refreshable,
    {
        Action { request: api.update_channel(channel_id, patch), reload: Reload::Servers }
    }

    /// Deletes a channel; [`ShellState::channel_deleted`] follows success.
    pub fn delete_channel(&self, api: &ApiClient, channel_id: &str) -> (r: Action)
        ensures
            r.reload == Reload::Servers,
            r.request.method == crate::api::Method::Delete,
            r.request.path@ == "/api/channels/"@ + crate::api::enc(channel_id@),
            r.request.body is Empty,
            r.request.refreshable,
    {
        Action { request: api.delete_channel(channel_id), reload: Reload::Servers }
    }

    /// Edits a message.
    pub fn edit_message(&self, api: &ApiClient, message_id: &str, content: &str) -> (r: Action)
        ensures
            r.reload == Reload::Messages,
            r.request.method == crate::api::Method::Patch,
            r.request.path@ == "/api/messages/"@ + crate::api::enc(message_id@),
            r.request.body.is_object(seq![("content"@, Some(content@))]),
            r.request.refreshable,
    {
        Action { request: api.edit_message(message_id, content), reload: Reload::Messages }
    }

    /// Deletes a message.
    pub fn delete_message(&self, api: &ApiClient, message_id: &str) -> (r: Action)
        ensures
            r.reload == Reload::Messages,
            r.request.method == crate::api::Method::Delete,
            r.request.path@ == "/api/messages/"@ + crate::api::enc(message_id@),
            r.request.body is Empty,
            r.request.refreshable,
    {
        Action { request: api.delete_message(message_id), reload: Reload::Messages }
    }

    /// Ends a friendship.
    pub fn remove_friend(&self, api: &ApiClient, user_id: &str) -> (r: Action)
        ensures
            r.reload == Reload::Friends,
            r.request.method == crate::api::Method::Delete,
            r.request.path@ == "/api/friends/"@ + crate::api::enc(user_id@),
            r.request.body is Empty,
            r.request.refreshable,
    {
        Action { request: api.remove_friend(user_id), reload: Reload::Friends }
    }

    /// Deletes a direct conversation.
    pub fn delete_dm(&self, api: &ApiClient, channel_id: &str) -> (r: Action)
        ensures
            r.reload == Reload::Friends,
            r.request.method == crate::api::Method::Delete,
            r.request.path@ == "/api/dms/"@ + crate::api::enc(channel_id@),
            r.request.body is Empty,
            r.request.refreshable,
    {
        Action { request: api.delete_dm(channel_id), reload: Reload::Friends }
    }

    /// Changes the password.
    pub fn change_password(&self, api: &ApiClient, current: &str, new: &str) -> (r: Action)
        ensures
            r.reload == Reload::Nothing,
            r.request.method == crate::api::Method::Put,
            r.request.path@ == "/api/me/password"@,
            r.request.body.is_object(
                seq![("currentPassword"@, Some(current@)), ("newPassword"@, Some(new@))],
            ),
            r.request.refreshable,
    {
        Action { request: api.change_password(current, new), reload: Reload::Nothing }
    }

    /// Deletes the account.
    pub fn delete_account(&self, api: &ApiClient) -> (r: Action)
        ensures
            r.reload == Reload::Nothing,
            r.request.method == crate::api::Method::Delete,
            r.request.path@ == "/api/me"@,
            r.request.body is Empty,
            r.request.refreshable,
    {
        Action { request: api.delete_account(), reload: Reload::Nothing }
    }

    /// Bans a member.
    pub fn ban_member(
        &self,
        api: &ApiClient,
        server_id: &str,
        user_id: &str,
        reason: Option<&str>,
    ) -> (r: Action)
        ensures
            r.reload == Reload::Nothing,
            r.request.method == crate::api::Method::Post,
            r.request.path@ == "/api/servers/"@ + crate::api::enc(server_id@) + "/bans"@,
            r.request.body.is_object(
                seq![("userId"@, Some(user_id@)), ("reason"@, crate::api::opt_text(reason))],
            ),
            r.request.refreshable,
    {
        Action { request: api.ban_member(server_id, user_id, reason), reload: Reload::Nothing }
    }

    /// Lifts a ban.
    pub fn unban_member(&self, api: &ApiClient, server_id: &str, user_id: &str) -> (r: Action)
        ensures
            r.reload == Reload::Nothing,
            r.request.method == crate::api::Method::Delete,
            r.request.path@ == "/api/servers/"@ + crate::api::enc(server_id@) + "/bans/"@
                + crate::api::enc(user_id@),
            r.request.body is Empty,
            r.request.refreshable,
    {
        Action { request: api.unban_member(server_id, user_id), reload: Reload::Nothing }
    }

    /// Blocks a user.
    pub fn block_user(&self, api: &ApiClient, user_id: &str) -> (r: Action)
        ensures
            r.reload == Reload::Nothing,
            r.request.method == crate::api::Method::Post,
            r.request.path@ == "/api/blocks"@,
            r.request.body.is_object(seq![("userId"@, Some(user_id@))]),
            r.request.refreshable,
    {
        Action { request: api.block_user(user_id), reload: Reload::Nothing }
    }

    /// Unblocks a user.
    pub fn unblock_user(&self, api: &ApiClient, user_id: &str) -> (r: Action)
        ensures
            r.reload == Reload::Nothing,
            r.request.method == crate::api::Method::Delete,
            r.request.path@ == "/api/blocks/"@ + crate::api::enc(user_id@),
            r.request.body is Empty,
            r.request.refreshable,
    {
        Action { request: api.unblock_user(user_id), reload: Reload::Nothing }
    }

    /// Reports something.
    pub fn report(
        &self,
        api: &ApiClient,
        target_type: &str,
        target_id: &str,
        reason: Option<&str>,
    ) -> (r: Action)
        ensures
            r.reload == Reload::Nothing,
            r.request.method == crate::api::Method::Post,
            r.request.path@ == "/api/reports"@,
            r.request.body.is_object(
                seq![
                    ("targetType"@, Some(target_type@)),
                    ("targetId"@, Some(target_id@)),
                    ("reason"@, crate::api::opt_text(reason)),
                ],
            ),
            r.request.refreshable,
    {
        Action { request: api.report(target_type, target_id, reason), reload: Reload::Nothing }
    }

    /// Hands a server over.
    pub fn transfer_server(&self, api: &ApiClient, server_id: &str, user_id: &str) -> (r: Action)
        ensures
            r.reload == Reload::Servers,
            r.request.method == crate::api::Method::Post,
            r.request.path@ == "/api/servers/"@ + crate::api::enc(server_id@) + "/transfer"@,
            r.request.body.is_object(seq![("userId"@, Some(user_id@))]),
            r.request.refreshable,
    {
        Action { request: api.transfer_server(server_id, user_id), reload: Reload::Servers }
    }
}

/// Whether two requests ask for the same: by the same method, at the same path, and
/// with a body that reads the same.
pub open spec fn same_request(a: ApiRequest, b: ApiRequest) -> bool {
    &&& a.method == b.method
    &&& a.path@ == b.path@
    &&& a.refreshable == b.refreshable
    &&& a.body is Empty <==> b.body is Empty
    &&& forall|m: Seq<(Seq<char>, Option<Seq<char>>)>|
        #![trigger a.body.is_object(m)]
        #![trigger b.body.is_object(m)]
        a.body.is_object(m) <==> b.body.is_object(m)
}

/// What the user does with a server is the request for that, of that server and
/// member, and the servers are loaded again where the list changes.
pub proof fn law_server_actions(
    s: &ShellState,
    api: &ApiClient,
    name: &str,
    code: &str,
    server: &str,
    user: &str,
    reason: Option<&str>,
    a: Seq<Action>,
    q: Seq<ApiRequest>,
)
    requires
        a.len() == 9,
        q.len() == 9,
        call_ensures(ShellState::create_server, (s, api, name), a[0]),
        call_ensures(ApiClient::create_server, (api, name), q[0]),
        call_ensures(ShellState::join_server, (s, api, code), a[1]),
        call_ensures(ApiClient::join_server, (api, code), q[1]),
        call_ensures(ShellState::delete_server, (s, api, server), a[2]),
        call_ensures(ApiClient::delete_server, (api, server), q[2]),
        call_ensures(ShellState::leave_server, (s, api, server), a[3]),
        call_ensures(ApiClient::leave_server, (api, server), q[3]),
        call_ensures(ShellState::regenerate_invite, (s, api, server), a[4]),
        call_ensures(ApiClient::regenerate_invite, (api, server), q[4]),
        call_ensures(ShellState::kick_member, (s, api, server, user), a[5]),
        call_ensures(ApiClient::kick_member, (api, server, user), q[5]),
        call_ensures(ShellState::ban_member, (s, api, server, user, reason), a[6]),
        call_ensures(ApiClient::ban_member, (api, server, user, reason), q[6]),
        call_ensures(ShellState::unban_member, (s, api, server, user), a[7]),
        call_ensures(ApiClient::unban_member, (api, server, user), q[7]),
        call_ensures(ShellState::transfer_server, (s, api, server, user), a[8]),
        call_ensures(ApiClient::transfer_server, (api, server, user), q[8]),
    ensures
        forall|i: int| 0 <= i < a.len() ==> same_request((#[trigger] a[i]).request, q[i]),
        a[0].reload is Servers,
        a[1].reload is Servers,
        a[2].reload is Servers,
        a[3].reload is Servers,
        a[4].reload is Servers,
        a[5].reload is Nothing,
        a[6].reload is Nothing,
        a[7].reload is Nothing,
        a[8].reload is Servers,
{
    assert(same_request(a[0].request, q[0]));
    assert(same_request(a[1].request, q[1]));
    assert(same_request(a[2].request, q[2]));
    assert(same_request(a[3].request, q[3]));
    assert(same_request(a[4].request, q[4]));
    assert(same_request(a[5].request, q[5]));
    assert(same_request(a[6].request, q[6]));
    assert(same_request(a[7].request, q[7]));
    assert(same_request(a[8].request, q[8]));
}

/// What the user does with a friend is the request for that, and friends are loaded
/// again where they change.
pub proof fn law_friend_actions(
    s: &ShellState,
    api: &ApiClient,
    name: &str,
    id: &str,
    a: Seq<Action>,
    q: Seq<ApiRequest>,
)
    requires
        a.len() == 8,
        q.len() == 8,
        call_ensures(ShellState::send_friend_request, (s, api, name), a[0]),
        call_ensures(ApiClient::send_friend_request, (api, name), q[0]),
        call_ensures(ShellState::accept_friend, (s, api, id), a[1]),
        call_ensures(ApiClient::accept_friend_request, (api, id), q[1]),
        call_ensures(ShellState::decline_friend, (s, api, id), a[2]),
        call_ensures(ApiClient::decline_friend_request, (api, id), q[2]),
        call_ensures(ShellState::open_dm, (s, api, name), a[3]),
        call_ensures(ApiClient::create_dm, (api, name), q[3]),
        call_ensures(ShellState::remove_friend, (s, api, id), a[4]),
        call_ensures(ApiClient::remove_friend, (api, id), q[4]),
        call_ensures(ShellState::delete_dm, (s, api, id), a[5]),
        call_ensures(ApiClient::delete_dm, (api, id), q[5]),
        call_ensures(ShellState::block_user, (s, api, id), a[6]),
        call_ensures(ApiClient::block_user, (api, id), q[6]),
        call_ensures(ShellState::unblock_user, (s, api, id), a[7]),
        call_ensures(ApiClient::unblock_user, (api, id), q[7]),
    ensures
        forall|i: int| 0 <= i < a.len() ==> same_request((#[trigger] a[i]).request, q[i]),
        a[0].reload is Friends,
        a[1].reload is Friends,
        a[2].reload is Friends,
        a[3].reload is Friends,
        a[4].reload is Friends,
        a[5].reload is Friends,
        a[6].reload is Nothing,
        a[7].reload is Nothing,
{
    assert(same_request(a[0].request, q[0]));
    assert(same_request(a[1].request, q[1]));
    assert(same_request(a[2].request, q[2]));
    assert(same_request(a[3].request, q[3]));
    assert(same_request(a[4].request, q[4]));
    assert(same_request(a[5].request, q[5]));
    assert(same_request(a[6].request, q[6]));
    assert(same_request(a[7].request, q[7]));
}

/// What the user does with a channel, a message or the account is the request for
/// that, and what changes by it is loaded again.
pub proof fn law_message_actions(
    s: &ShellState,
    api: &ApiClient,
    id: &str,
    text: &str,
    new: &str,
    reason: Option<&str>,
    a: Seq<Action>,
    q: Seq<ApiRequest>,
)
    requires
        a.len() == 6,
        q.len() == 6,
        call_ensures(ShellState::delete_channel, (s, api, id), a[0]),
        call_ensures(ApiClient::delete_channel, (api, id), q[0]),
        call_ensures(ShellState::edit_message, (s, api, id, text), a[1]),
        call_ensures(ApiClient::edit_message, (api, id, text), q[1]),
        call_ensures(ShellState::delete_message, (s, api, id), a[2]),
        call_ensures(ApiClient::delete_message, (api, id), q[2]),
        call_ensures(ShellState::change_password, (s, api, text, new), a[3]),
        call_ensures(ApiClient::change_password, (api, text, new), q[3]),
        call_ensures(ShellState::delete_account, (s, api), a[4]),
        call_ensures(ApiClient::delete_account, (api,), q[4]),
        call_ensures(ShellState::report, (s, api, text, id, reason), a[5]),
        call_ensures(ApiClient::report, (api, text, id, reason), q[5]),
    ensures
        forall|i: int| 0 <= i < a.len() ==> same_request((#[trigger] a[i]).request, q[i]),
        a[0].reload is Servers,
        a[1].reload is Messages,
        a[2].reload is Messages,
        a[3].reload is Nothing,
        a[4].reload is Nothing,
        a[5].reload is Nothing,
{
    assert(same_request(a[0].request, q[0]));
    assert(same_request(a[1].request, q[1]));
    assert(same_request(a[2].request, q[2]));
    assert(same_request(a[3].request, q[3]));
    assert(same_request(a[4].request, q[4]));
    assert(same_request(a[5].request, q[5]));
}

/// A channel is made in the selected server, under its name and kind; without a
/// selected server nothing is asked for. Changes of a server or channel ask for
/// just that.
pub proof fn law_channel_actions(
    s: &ShellState,
    api: &ApiClient,
    server: &str,
    name: &str,
    kind: ChannelKind,
    patch: serde_json::Value,
    made: Result<Action, String>,
    create: ApiRequest,
    renamed: Action,
    rename: ApiRequest,
    changed: Action,
    change: ApiRequest,
)
    requires
        call_ensures(ShellState::create_channel, (s, api, name, kind), made),
        call_ensures(ApiClient::create_channel, (api, server, name, kind), create),
        call_ensures(ShellState::update_server, (s, api, server, name), renamed),
        call_ensures(ApiClient::update_server, (api, server, Some(name)), rename),
        call_ensures(ShellState::update_channel, (s, api, server, patch), changed),
        call_ensures(ApiClient::update_channel, (api, server, patch), change),
    ensures
        s.selected_server_id is None <==> made is Err,
        made matches Err(e) ==> e@ == "no server selected"@,
        (s.selected_server_id matches Some(id) && id@ == server@) ==> (made matches Ok(a)
            && same_request(a.request, create) && a.reload is Servers),
        same_request(renamed.request, rename) && renamed.reload is Servers,
        changed.request.path@ == change.path@ && changed.request.method == change.method,
        changed.request.body == change.body && changed.reload is Servers,
{
}

/// Typing is told where a channel and a server are selected, about these two; joining
/// a voice channel names it and its server; edits and deletions name the message and
/// where it stands; a subscription names its channel.
pub proof fn law_frames_name_their_places(
    s: &ShellState,
    typing: Option<PresenceOut>,
    channel: String,
    server: String,
    message: String,
    content: String,
    join: PresenceOut,
    leave: PresenceOut,
    edit: PresenceOut,
    delete: PresenceOut,
    on: PresenceOut,
    off: PresenceOut,
)
    requires
        call_ensures(ShellState::send_typing, (s,), typing),
        call_ensures(ShellState::presence_voice_join, (s, channel, server), join),
        call_ensures(ShellState::presence_voice_leave, (s,), leave),
        call_ensures(ShellState::edit_message_ws, (s, channel, server, message, content), edit),
        call_ensures(ShellState::delete_message_ws, (s, channel, server, message), delete),
        call_ensures(ShellState::subscribe_channel, (s, channel), on),
        call_ensures(ShellState::unsubscribe_channel, (s, channel), off),
    ensures
        typing is Some <==> s.selected_channel_id is Some && s.selected_server_id is Some,
        typing matches Some(t) ==> t is Typing && Some(t->Typing_channel_id)
            == s.selected_channel_id && Some(t->Typing_server_id) == s.selected_server_id,
        join is VoiceJoin && join->VoiceJoin_channel_id == channel && join->VoiceJoin_server_id
            == server,
        leave is VoiceLeave,
        edit is ChatEdit && edit->ChatEdit_channel_id == channel && edit->ChatEdit_server_id
            == server && edit->ChatEdit_message_id == message && edit->ChatEdit_content == content
            && edit->ChatEdit_client_id@.len() == 16,
        delete is ChatDelete && delete->ChatDelete_channel_id == channel
            && delete->ChatDelete_server_id == server && delete->ChatDelete_message_id == message
            && delete->ChatDelete_client_id@.len() == 16,
        on == PresenceOut::Subscribe(channel),
        off == PresenceOut::Unsubscribe(channel),
{
    let n = choose|n: u64|
        edit->ChatEdit_client_id@ == #[trigger] crate::text::hex_digits(n as nat, 16);
    crate::text::lemma_hex(n as nat, 16);
    let m = choose|n: u64|
        delete->ChatDelete_client_id@ == #[trigger] crate::text::hex_digits(n as nat, 16);
    crate::text::lemma_hex(m as nat, 16);
}

/// Friends, requests and conversations that arrive are shown and told as they came;
/// conversations that could not be listed count as none, and a refresh leaves them.
pub proof fn law_friends_shown(
    s: &mut ShellState,
    got: FriendsResponse,
    dms: Result<Vec<DmSummary>, ApiError>,
    x: CoreEvent,
    t: &mut ShellState,
    newer: FriendsResponse,
    y: CoreEvent,
)
    requires
        call_ensures(ShellState::load_friends, (s, Ok((got, dms))), x),
        call_ensures(ShellState::refresh_friends, (t, Ok(newer)), y),
    ensures
        final(s).friends == got.friends,
        final(s).pending == got.pending,
        dms matches Ok(d) ==> final(s).dm_list@ == d@,
        dms is Err ==> final(s).dm_list@.len() == 0,
        (x matches CoreEvent::FriendsLoaded { friends, pending, dms } && friends@
            == got.friends@ && pending@ == got.pending@ && dms@ == final(s).dm_list@),
        final(s).servers == old(s).servers,
        final(s).messages == old(s).messages,
        final(t).friends == newer.friends,
        final(t).pending == newer.pending,
        final(t).dm_list == old(t).dm_list,
        (y matches CoreEvent::FriendsLoaded { friends, pending, dms } && friends@
            == newer.friends@ && pending@ == newer.pending@ && dms@ == old(t).dm_list@),
{
}

/// A conversation that was opened is the selected channel, among the friends; a
/// channel that was deleted is selected no more, and another one stays selected.
pub proof fn law_selection_follows(
    s: &mut ShellState,
    dm: DmCreatedResponse,
    t: &mut ShellState,
    channel_id: &str,
)
    requires
        call_ensures(ShellState::dm_opened, (s, dm), ()),
        call_ensures(ShellState::channel_deleted, (t, channel_id), ()),
    ensures
        final(s).selected_channel_id == Some(dm.channel.channel.id),
        final(s).view is Friends,
        final(s).selected_server_id == old(s).selected_server_id,
        old(t).selected_channel_id matches Some(c) ==> (c@ == channel_id@
            ==> final(t).selected_channel_id is None),
        old(t).selected_channel_id matches Some(c) ==> (c@ != channel_id@
            ==> final(t).selected_channel_id == old(t).selected_channel_id),
        old(t).selected_channel_id is None ==> final(t).selected_channel_id is None,
        final(t).selected_server_id == old(t).selected_server_id,
        final(t).messages == old(t).messages,
{
}

/// An action that succeeds asks for the load that belongs to it, and one that fails
/// tells its code.
pub proof fn law_action_result(
    reload: Reload,
    e: ApiError,
    x: Result<Reload, String>,
    y: Result<Reload, String>,
)
    requires
        call_ensures(action_result, (reload, Ok(())), x),
        call_ensures(action_result, (reload, Err(e)), y),
    ensures
        x == Ok::<Reload, String>(reload),
        y == Err::<Reload, String>(e.code),
{
}

} // verus!
