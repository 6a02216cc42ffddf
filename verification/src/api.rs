//! The REST client: which request each action makes, and what its answer means.
use vstd::prelude::*;

use crate::json::json_text_field;
use crate::protocol::ChannelKind;
use crate::text::{joined, push_decimal, trim_end_slashes, url_encode};

verus! {

/// An error with its HTTP status and a machine-readable code. Status 0 stands for
/// a request that got no answer.
#[derive(Debug)]
pub struct ApiError {
    pub status: u16,
    pub code: String,
}

impl Clone for ApiError {
    fn clone(&self) -> (r: Self)
        ensures
            r == *self,
    {
        ApiError { status: self.status, code: self.code.clone() }
    }
}

impl ApiError {
    pub fn code(&self) -> (r: &str)
        ensures
            r@ == self.code@,
    {
        self.code.as_str()
    }

    /// The words for the user: the code and the status.
    pub fn message(&self) -> (r: String)
        ensures
            r@ == self.code@ + " (http "@ + crate::text::decimal(self.status as nat) + ")"@,
    {
        let mut out: String = joined(self.code.as_str(), " (http ");
        push_decimal(&mut out, self.status as u64);
        joined(out.as_str(), ")")
    }
}

/// HTTP methods.
#[derive(Debug, Clone, Copy, PartialEq, Eq, Structural)]
pub enum Method {
    Get,
    Post,
    Put,
    Patch,
    Delete,
}

/// The body of a request.
#[derive(Debug)]
pub enum Body {
    Empty,
    /// A JSON object of texts; `None` is null.
    Object(Vec<(String, Option<String>)>),
    /// Any JSON value.
    Json(serde_json::Value),
    /// Bytes of a content type.
    Bytes { bytes: Vec<u8>, content_type: String },
}

/// A request: method, path below the base, body, and whether a refused access
/// token is worth refreshing for it.
#[derive(Debug)]
pub struct ApiRequest {
    pub method: Method,
    pub path: String,
    pub body: Body,
    pub refreshable: bool,
}

/// A member of a JSON object, as it reads.
pub open spec fn member(e: (String, Option<String>)) -> (Seq<char>, Option<Seq<char>>) {
    (
        e.0@,
        match e.1 {
            Some(s) => Some(s@),
            None => None,
        },
    )
}

impl Body {
    /// Whether the body is a JSON object with exactly these members, in order.
    pub open spec fn is_object(self, members: Seq<(Seq<char>, Option<Seq<char>>)>) -> bool {
        self matches Body::Object(v) && v@.map_values(|e: (String, Option<String>)| member(e))
            =~= members
    }
}

/// Text in URL form encoding.
pub open spec fn enc(s: Seq<char>) -> Seq<char> {
    crate::text::url_encoded(vstd::utf8::encode_utf8(s))
}

/// An optional text, as it reads.
pub open spec fn opt_text(o: Option<&str>) -> Option<Seq<char>> {
    match o {
        Some(s) => Some(s@),
        None => None,
    }
}

fn text_field(key: &str, value: &str) -> (r: (String, Option<String>))
    ensures
        member(r) == (key@, Some(value@)),
{
    (key.to_owned(), Some(value.to_owned()))
}

fn opt_field(key: &str, value: Option<&str>) -> (r: (String, Option<String>))
    ensures
        member(r) == (key@, opt_text(value)),
{
    match value {
        Some(s) => (key.to_owned(), Some(s.to_owned())),
        None => (key.to_owned(), None),
    }
}

fn object1(a: (String, Option<String>)) -> (r: Body)
    ensures
        r.is_object(seq![member(a)]),
{
    let mut v: Vec<(String, Option<String>)> = Vec::new();
    v.push(a);
    Body::Object(v)
}

fn object2(a: (String, Option<String>), b: (String, Option<String>)) -> (r: Body)
    ensures
        r.is_object(seq![member(a), member(b)]),
{
    let mut v: Vec<(String, Option<String>)> = Vec::new();
    v.push(a);
    v.push(b);
    Body::Object(v)
}

fn object3(
    a: (String, Option<String>),
    b: (String, Option<String>),
    c: (String, Option<String>),
) -> (r: Body)
    ensures
        r.is_object(seq![member(a), member(b), member(c)]),
{
    let mut v: Vec<(String, Option<String>)> = Vec::new();
    v.push(a);
    v.push(b);
    v.push(c);
    Body::Object(v)
}

/// A path with an identifier at its end.
fn path_to(head: &str, id: &str) -> (r: String)
    ensures
        r@ == head@ + enc(id@),
{
    joined(head, url_encode(id).as_str())
}

/// A path with one identifier in it.
fn path1(head: &str, id: &str, tail: &str) -> (r: String)
    ensures
        r@ == head@ + enc(id@) + tail@,
{
    let a: String = joined(head, url_encode(id).as_str());
    joined(a.as_str(), tail)
}

/// A path with two identifiers in it.
fn path2(head: &str, first: &str, middle: &str, second: &str) -> (r: String)
    ensures
        r@ == head@ + enc(first@) + middle@ + enc(second@),
{
    let a: String = joined(head, url_encode(first).as_str());
    let b: String = joined(a.as_str(), middle);
    joined(b.as_str(), url_encode(second).as_str())
}

/// Texts with commas between them.
pub open spec fn comma_joined(ids: Seq<&str>) -> Seq<char>
    decreases ids.len(),
{
    if ids.len() == 0 {
        Seq::empty()
    } else if ids.len() == 1 {
        ids[0]@
    } else {
        comma_joined(ids.drop_last()) + ","@ + ids.last()@
    }
}

fn join_commas(ids: &[&str]) -> (r: String)
    ensures
        r@ == comma_joined(ids@),
{
    let mut out: String = String::new();
    let n: usize = ids.len();
    let mut i: usize = 0;
    assert(ids@.take(0).len() == 0);
    while i < n
        invariant
            n == ids@.len(),
            i <= n,
            out@ == comma_joined(ids@.take(i as int)),
        decreases n - i,
    {
        proof {
            assert(ids@.take(i + 1).drop_last() =~= ids@.take(i as int));
            assert(ids@.take(i + 1).last() == ids@[i as int]);
        }
        if i > 0 {
            out.append(",");
        }
        out.append(ids[i]);
        i = i + 1;
        proof {
            if i == 1 {
                assert(out@ =~= ids@[0]@);
            }
        }
    }
    assert(ids@.take(n as int) =~= ids@);
    out
}

/// The client: where the backend is, and the access token.
#[derive(Clone)]
pub struct ApiClient {
    pub base: String,
    pub token: Option<String>,
}

impl ApiClient {
    /// A client of a backend, without a token.
    pub fn new(base: String) -> (r: Self)
        ensures
            r.base == base,
            r.token is None,
    {
        ApiClient { base, token: None }
    }

    /// Moves to another backend; slashes at the end of its URL go.
    pub fn set_base(&mut self, base: &str)
        ensures
            final(self).base@ == crate::text::trimmed_slashes(base@),
            final(self).token == old(self).token,
    {
        self.base = trim_end_slashes(base);
    }

    pub fn set_token(&mut self, token: Option<String>)
        ensures
            *final(self) == (ApiClient { token, ..*old(self) }),
    {
        self.token = token;
    }

    pub fn token(&self) -> (r: Option<String>)
        ensures
            r == self.token,
    {
        self.token.clone()
    }

    /// The URL of the backend.
    pub fn base_url(&self) -> (r: String)
        ensures
            r == self.base,
    {
        self.base.clone()
    }

    /// The URL of a path.
    pub fn url(&self, path: &str) -> (r: String)
        ensures
            r@ == self.base@ + path@,
    {
        joined(self.base.as_str(), path)
    }

    /// The authorization header, where there is a token.
    pub fn authorization(&self) -> (r: Option<String>)
        ensures
            match self.token {
                Some(t) => r matches Some(h) && h@ == "Bearer "@ + t@,
                None => r is None,
            },
    {
        match &self.token {
            Some(t) => Some(joined("Bearer ", t.as_str())),
            None => None,
        }
    }

    /// Registers a user.
    pub fn register(&self, username: &str, password: &str) -> (r: ApiRequest)
        ensures
            r.method == Method::Post,
            r.path@ == "/api/auth/register"@,
            r.body.is_object(seq![("username"@, Some(username@)), ("password"@, Some(password@))]),
            r.refreshable,
    {
        ApiRequest {
            method: Method::Post,
            path: "/api/auth/register".to_owned(),
            body: object2(text_field("username", username), text_field("password", password)),
            refreshable: true,
        }
    }

    /// Logs a user in.
    pub fn login(&self, username: &str, password: &str) -> (r: ApiRequest)
        ensures
            r.method == Method::Post,
            r.path@ == "/api/auth/login"@,
            r.body.is_object(seq![("username"@, Some(username@)), ("password"@, Some(password@))]),
            r.refreshable,
    {
        ApiRequest {
            method: Method::Post,
            path: "/api/auth/login".to_owned(),
            body: object2(text_field("username", username), text_field("password", password)),
            refreshable: true,
        }
    }

    /// Rotates the refresh token. Never itself a reason to refresh.
    pub fn refresh(&self, refresh_token: &str) -> (r: ApiRequest)
        ensures
            r.method == Method::Post,
            r.path@ == "/api/auth/refresh"@,
            r.body.is_object(seq![("refreshToken"@, Some(refresh_token@))]),
            !r.refreshable,
    {
        ApiRequest {
            method: Method::Post,
            path: "/api/auth/refresh".to_owned(),
            body: object1(text_field("refreshToken", refresh_token)),
            refreshable: false,
        }
    }

    /// Revokes the refresh token.
    pub fn logout(&self, refresh_token: &str) -> (r: ApiRequest)
        ensures
            r.method == Method::Post,
            r.path@ == "/api/auth/logout"@,
            r.body.is_object(seq![("refreshToken"@, Some(refresh_token@))]),
            r.refreshable,
    {
        ApiRequest {
            method: Method::Post,
            path: "/api/auth/logout".to_owned(),
            body: object1(text_field("refreshToken", refresh_token)),
            refreshable: true,
        }
    }

    /// Asks who is logged in.
    pub fn me(&self) -> (r: ApiRequest)
        ensures
            r.method == Method::Get,
            r.path@ == "/api/me"@,
            r.body is Empty,
            r.refreshable,
    {
        ApiRequest {
            method: Method::Get,
            path: "/api/me".to_owned(),
            body: Body::Empty,
            refreshable: true,
        }
    }

    /// Creates a server.
    pub fn create_server(&self, name: &str) -> (r: ApiRequest)
        ensures
            r.method == Method::Post,
            r.path@ == "/api/servers"@,
            r.body.is_object(seq![("name"@, Some(name@))]),
            r.refreshable,
    {
        ApiRequest {
            method: Method::Post,
            path: "/api/servers".to_owned(),
            body: object1(text_field("name", name)),
            refreshable: true,
        }
    }

    /// Lists the servers.
    pub fn list_servers(&self) -> (r: ApiRequest)
        ensures
            r.method == Method::Get,
            r.path@ == "/api/servers"@,
            r.body is Empty,
            r.refreshable,
    {
        ApiRequest {
            method: Method::Get,
            path: "/api/servers".to_owned(),
            body: Body::Empty,
            refreshable: true,
        }
    }

    /// Joins a server by its invite code.
    pub fn join_server(&self, invite_code: &str) -> (r: ApiRequest)
        ensures
            r.method == Method::Post,
            r.path@ == "/api/servers/join"@,
            r.body.is_object(seq![("inviteCode"@, Some(invite_code@))]),
            r.refreshable,
    {
        ApiRequest {
            method: Method::Post,
            path: "/api/servers/join".to_owned(),
            body: object1(text_field("inviteCode", invite_code)),
            refreshable: true,
        }
    }

    /// Asks for a server with its members.
    pub fn get_server(&self, server_id: &str) -> (r: ApiRequest)
        ensures
            r.method == Method::Get,
            r.path@ == "/api/servers/"@ + enc(server_id@),
            r.body is Empty,
            r.refreshable,
    {
        ApiRequest {
            method: Method::Get,
            path: path_to("/api/servers/", server_id),
            body: Body::Empty,
            refreshable: true,
        }
    }

    /// Creates a channel.
    pub fn create_channel(&self, server_id: &str, name: &str, kind: ChannelKind) -> (r: ApiRequest)
        ensures
            r.method == Method::Post,
            r.path@ == "/api/servers/"@ + enc(server_id@) + "/channels"@,
            r.body.is_object(seq![("name"@, Some(name@)), ("kind"@, Some(kind.name()))]),
            r.refreshable,
    {
        ApiRequest {
            method: Method::Post,
            path: path1("/api/servers/", server_id, "/channels"),
            body: object2(text_field("name", name), text_field("kind", kind.as_str())),
            refreshable: true,
        }
    }

    /// Posts a message.
    pub fn post_message(&self, channel_id: &str, content: &str) -> (r: ApiRequest)
        ensures
            r.method == Method::Post,
            r.path@ == "/api/channels/"@ + enc(channel_id@) + "/messages"@,
            r.body.is_object(seq![("content"@, Some(content@))]),
            r.refreshable,
    {
        ApiRequest {
            method: Method::Post,
            path: path1("/api/channels/", channel_id, "/messages"),
            body: object1(text_field("content", content)),
            refreshable: true,
        }
    }

    /// Lists the newest messages of a channel.
    pub fn list_messages(&self, channel_id: &str, limit: u32) -> (r: ApiRequest)
        ensures
            r.method == Method::Get,
            r.path@ == "/api/channels/"@ + enc(channel_id@) + "/messages?limit="@
                + crate::text::decimal(limit as nat),
            r.body is Empty,
            r.refreshable,
    {
        let mut path: String = path1("/api/channels/", channel_id, "/messages?limit=");
        push_decimal(&mut path, limit as u64);
        ApiRequest { method: Method::Get, path, body: Body::Empty, refreshable: true }
    }

    /// Lists friends and pending friendships.
    pub fn get_friends(&self) -> (r: ApiRequest)
        ensures
            r.method == Method::Get,
            r.path@ == "/api/friends"@,
            r.body is Empty,
            r.refreshable,
    {
        ApiRequest {
            method: Method::Get,
            path: "/api/friends".to_owned(),
            body: Body::Empty,
            refreshable: true,
        }
    }

    /// Asks for a friendship.
    pub fn send_friend_request(&self, username: &str) -> (r: ApiRequest)
        ensures
            r.method == Method::Post,
            r.path@ == "/api/friends/requests"@,
            r.body.is_object(seq![("username"@, Some(username@))]),
            r.refreshable,
    {
        ApiRequest {
            method: Method::Post,
            path: "/api/friends/requests".to_owned(),
            body: object1(text_field("username", username)),
            refreshable: true,
        }
    }

    /// Accepts a friendship.
    pub fn accept_friend_request(&self, request_id: &str) -> (r: ApiRequest)
        ensures
            r.method == Method::Post,
            r.path@ == "/api/friends/requests/"@ + enc(request_id@) + "/accept"@,
            r.body is Empty,
            r.refreshable,
    {
        ApiRequest {
            method: Method::Post,
            path: path1("/api/friends/requests/", request_id, "/accept"),
            body: Body::Empty,
            refreshable: true,
        }
    }

    /// Declines a friendship.
    pub fn decline_friend_request(&self, request_id: &str) -> (r: ApiRequest)
        ensures
            r.method == Method::Delete,
            r.path@ == "/api/friends/requests/"@ + enc(request_id@),
            r.body is Empty,
            r.refreshable,
    {
        ApiRequest {
            method: Method::Delete,
            path: path_to("/api/friends/requests/", request_id),
            body: Body::Empty,
            refreshable: true,
        }
    }

    /// Lists direct conversations.
    pub fn list_dms(&self) -> (r: ApiRequest)
        ensures
            r.method == Method::Get,
            r.path@ == "/api/dms"@,
            r.body is Empty,
            r.refreshable,
    {
        ApiRequest {
            method: Method::Get,
            path: "/api/dms".to_owned(),
            body: Body::Empty,
            refreshable: true,
        }
    }

    /// Opens a direct conversation.
    pub fn create_dm(&self, username: &str) -> (r: ApiRequest)
        ensures
            r.method == Method::Post,
            r.path@ == "/api/dms"@,
            r.body.is_object(seq![("username"@, Some(username@))]),
            r.refreshable,
    {
        ApiRequest {
            method: Method::Post,
            path: "/api/dms".to_owned(),
            body: object1(text_field("username", username)),
            refreshable: true,
        }
    }

    /// Asks for the configuration of realtime connections.
    pub fn get_realtime_config(&self) -> (r: ApiRequest)
        ensures
            r.method == Method::Get,
            r.path@ == "/api/realtime/config"@,
            r.body is Empty,
            r.refreshable,
    {
        ApiRequest {
            method: Method::Get,
            path: "/api/realtime/config".to_owned(),
            body: Body::Empty,
            refreshable: true,
        }
    }

    /// Renames a server.
    pub fn update_server(&self, id: &str, name: Option<&str>) -> (r: ApiRequest)
        ensures
            r.method == Method::Patch,
            r.path@ == "/api/servers/"@ + enc(id@),
            r.body.is_object(seq![("name"@, opt_text(name))]),
            r.refreshable,
    {
        ApiRequest {
            method: Method::Patch,
            path: path_to("/api/servers/", id),
            body: object1(opt_field("name", name)),
            refreshable: true,
        }
    }

    /// Deletes a server.
    pub fn delete_server(&self, id: &str) -> (r: ApiRequest)
        ensures
            r.method == Method::Delete,
            r.path@ == "/api/servers/"@ + enc(id@) + "?confirm=true"@,
            r.body is Empty,
            r.refreshable,
    {
        ApiRequest {
            method: Method::Delete,
            path: path1("/api/servers/", id, "?confirm=true"),
            body: Body::Empty,
            refreshable: true,
        }
    }

    /// Leaves a server.
    pub fn leave_server(&self, id: &str) -> (r: ApiRequest)
        ensures
            r.method == Method::Post,
            r.path@ == "/api/servers/"@ + enc(id@) + "/leave"@,
            r.body is Empty,
            r.refreshable,
    {
        ApiRequest {
            method: Method::Post,
            path: path1("/api/servers/", id, "/leave"),
            body: Body::Empty,
            refreshable: true,
        }
    }

    /// Makes a new invite code.
    pub fn regenerate_invite(&self, id: &str) -> (r: ApiRequest)
        ensures
            r.method == Method::Post,
            r.path@ == "/api/servers/"@ + enc(id@) + "/invite"@,
            r.body is Empty,
            r.refreshable,
    {
        ApiRequest {
            method: Method::Post,
            path: path1("/api/servers/", id, "/invite"),
            body: Body::Empty,
            refreshable: true,
        }
    }

    /// Removes a member.
    pub fn kick_member(&self, server_id: &str, user_id: &str) -> (r: ApiRequest)
        ensures
            r.method == Method::Delete,
            r.path@ == "/api/servers/"@ + enc(server_id@) + "/members/"@ + enc(user_id@),
            r.body is Empty,
            r.refreshable,
    {
        ApiRequest {
            method: Method::Delete,
            path: path2("/api/servers/", server_id, "/members/", user_id),
            body: Body::Empty,
            refreshable: true,
        }
    }

    /// Changes a channel.
    pub fn update_channel(&self, id: &str, patch: serde_json::Value) -> (r: ApiRequest)
        ensures
            r.method == Method::Patch,
            r.path@ == "/api/channels/"@ + enc(id@),
            r.body == Body::Json(patch),
            r.refreshable,
    {
        ApiRequest {
            method: Method::Patch,
            path: path_to("/api/channels/", id),
            body: Body::Json(patch),
            refreshable: true,
        }
    }

    /// Deletes a channel.
    pub fn delete_channel(&self, id: &str) -> (r: ApiRequest)
        ensures
            r.method == Method::Delete,
            r.path@ == "/api/channels/"@ + enc(id@),
            r.body is Empty,
            r.refreshable,
    {
        ApiRequest {
            method: Method::Delete,
            path: path_to("/api/channels/", id),
            body: Body::Empty,
            refreshable: true,
        }
    }

    /// Edits a message.
    pub fn edit_message(&self, id: &str, content: &str) -> (r: ApiRequest)
        ensures
            r.method == Method::Patch,
            r.path@ == "/api/messages/"@ + enc(id@),
            r.body.is_object(seq![("content"@, Some(content@))]),
            r.refreshable,
    {
        ApiRequest {
            method: Method::Patch,
            path: path_to("/api/messages/", id),
            body: object1(text_field("content", content)),
            refreshable: true,
        }
    }

    /// Deletes a message.
    pub fn delete_message(&self, id: &str) -> (r: ApiRequest)
        ensures
            r.method == Method::Delete,
            r.path@ == "/api/messages/"@ + enc(id@),
            r.body is Empty,
            r.refreshable,
    {
        ApiRequest {
            method: Method::Delete,
            path: path_to("/api/messages/", id),
            body: Body::Empty,
            refreshable: true,
        }
    }

    /// Renames the user.
    pub fn update_username(&self, username: &str) -> (r: ApiRequest)
        ensures
            r.method == Method::Patch,
            r.path@ == "/api/me"@,
            r.body.is_object(seq![("username"@, Some(username@))]),
            r.refreshable,
    {
        ApiRequest {
            method: Method::Patch,
            path: "/api/me".to_owned(),
            body: object1(text_field("username", username)),
            refreshable: true,
        }
    }

    /// Changes the password.
    pub fn change_password(&self, current: &str, new: &str) -> (r: ApiRequest)
        ensures
            r.method == Method::Put,
            r.path@ == "/api/me/password"@,
            r.body.is_object(
                seq![("currentPassword"@, Some(current@)), ("newPassword"@, Some(new@))],
            ),
            r.refreshable,
    {
        ApiRequest {
            method: Method::Put,
            path: "/api/me/password".to_owned(),
            body: object2(text_field("currentPassword", current), text_field("newPassword", new)),
            refreshable: true,
        }
    }

    /// Deletes the account.
    pub fn delete_account(&self) -> (r: ApiRequest)
        ensures
            r.method == Method::Delete,
            r.path@ == "/api/me"@,
            r.body is Empty,
            r.refreshable,
    {
        ApiRequest {
            method: Method::Delete,
            path: "/api/me".to_owned(),
            body: Body::Empty,
            refreshable: true,
        }
    }

    /// Ends a friendship.
    pub fn remove_friend(&self, user_id: &str) -> (r: ApiRequest)
        ensures
            r.method == Method::Delete,
            r.path@ == "/api/friends/"@ + enc(user_id@),
            r.body is Empty,
            r.refreshable,
    {
        ApiRequest {
            method: Method::Delete,
            path: path_to("/api/friends/", user_id),
            body: Body::Empty,
            refreshable: true,
        }
    }

    /// Deletes a direct conversation.
    pub fn delete_dm(&self, channel_id: &str) -> (r: ApiRequest)
        ensures
            r.method == Method::Delete,
            r.path@ == "/api/dms/"@ + enc(channel_id@),
            r.body is Empty,
            r.refreshable,
    {
        ApiRequest {
            method: Method::Delete,
            path: path_to("/api/dms/", channel_id),
            body: Body::Empty,
            refreshable: true,
        }
    }

    /// Bans a member.
    pub fn ban_member(
        &self,
        server_id: &str,
        user_id: &str,
        reason: Option<&str>,
    ) -> (r: ApiRequest)
        ensures
            r.method == Method::Post,
            r.path@ == "/api/servers/"@ + enc(server_id@) + "/bans"@,
            r.body.is_object(seq![("userId"@, Some(user_id@)), ("reason"@, opt_text(reason))]),
            r.refreshable,
    {
        ApiRequest {
            method: Method::Post,
            path: path1("/api/servers/", server_id, "/bans"),
            body: object2(text_field("userId", user_id), opt_field("reason", reason)),
            refreshable: true,
        }
    }

    /// Lifts a ban.
    pub fn unban_member(&self, server_id: &str, user_id: &str) -> (r: ApiRequest)
        ensures
            r.method == Method::Delete,
            r.path@ == "/api/servers/"@ + enc(server_id@) + "/bans/"@ + enc(user_id@),
            r.body is Empty,
            r.refreshable,
    {
        ApiRequest {
            method: Method::Delete,
            path: path2("/api/servers/", server_id, "/bans/", user_id),
            body: Body::Empty,
            refreshable: true,
        }
    }

    /// Lists the bans of a server.
    pub fn list_bans(&self, server_id: &str) -> (r: ApiRequest)
        ensures
            r.method == Method::Get,
            r.path@ == "/api/servers/"@ + enc(server_id@) + "/bans"@,
            r.body is Empty,
            r.refreshable,
    {
        ApiRequest {
            method: Method::Get,
            path: path1("/api/servers/", server_id, "/bans"),
            body: Body::Empty,
            refreshable: true,
        }
    }

    /// Blocks a user.
    pub fn block_user(&self, user_id: &str) -> (r: ApiRequest)
        ensures
            r.method == Method::Post,
            r.path@ == "/api/blocks"@,
            r.body.is_object(seq![("userId"@, Some(user_id@))]),
            r.refreshable,
    {
        ApiRequest {
            method: Method::Post,
            path: "/api/blocks".to_owned(),
            body: object1(text_field("userId", user_id)),
            refreshable: true,
        }
    }

    /// Unblocks a user.
    pub fn unblock_user(&self, user_id: &str) -> (r: ApiRequest)
        ensures
            r.method == Method::Delete,
            r.path@ == "/api/blocks/"@ + enc(user_id@),
            r.body is Empty,
            r.refreshable,
    {
        ApiRequest {
            method: Method::Delete,
            path: path_to("/api/blocks/", user_id),
            body: Body::Empty,
            refreshable: true,
        }
    }

    /// Reports something.
    pub fn report(
        &self,
        target_type: &str,
        target_id: &str,
        reason: Option<&str>,
    ) -> (r: ApiRequest)
        ensures
            r.method == Method::Post,
            r.path@ == "/api/reports"@,
            r.body.is_object(
                seq![
                    ("targetType"@, Some(target_type@)),
                    ("targetId"@, Some(target_id@)),
                    ("reason"@, opt_text(reason)),
                ],
            ),
            r.refreshable,
    {
        ApiRequest {
            method: Method::Post,
            path: "/api/reports".to_owned(),
            body: object3(
                text_field("targetType", target_type),
                text_field("targetId", target_id),
                opt_field("reason", reason),
            ),
            refreshable: true,
        }
    }

    /// Hands a server over.
    pub fn transfer_server(&self, server_id: &str, user_id: &str) -> (r: ApiRequest)
        ensures
            r.method == Method::Post,
            r.path@ == "/api/servers/"@ + enc(server_id@) + "/transfer"@,
            r.body.is_object(seq![("userId"@, Some(user_id@))]),
            r.refreshable,
    {
        ApiRequest {
            method: Method::Post,
            path: path1("/api/servers/", server_id, "/transfer"),
            body: object1(text_field("userId", user_id)),
            refreshable: true,
        }
    }

    /// Toggles a reaction.
    pub fn toggle_reaction(&self, message_id: &str, emoji: &str) -> (r: ApiRequest)
        ensures
            r.method == Method::Put,
            r.path@ == "/api/messages/"@ + enc(message_id@) + "/reactions/"@ + enc(emoji@),
            r.body is Empty,
            r.refreshable,
    {
        ApiRequest {
            method: Method::Put,
            path: path2("/api/messages/", message_id, "/reactions/", emoji),
            body: Body::Empty,
            refreshable: true,
        }
    }

    /// Counts the reactions of messages.
    pub fn get_reactions(&self, channel_id: &str, message_ids: &[&str]) -> (r: ApiRequest)
        ensures
            r.method == Method::Get,
            r.path@ == "/api/channels/"@ + enc(channel_id@) + "/messages/reactions?messageIds="@
                + enc(comma_joined(message_ids@)),
            r.body is Empty,
            r.refreshable,
    {
        let ids: String = join_commas(message_ids);
        let path: String = path2(
            "/api/channels/",
            channel_id,
            "/messages/reactions?messageIds=",
            ids.as_str(),
        );
        ApiRequest { method: Method::Get, path, body: Body::Empty, refreshable: true }
    }

    /// Uploads an attachment.
    pub fn upload_attachment(&self, filename: &str, bytes: Vec<u8>, content_type: &str) -> (r:
        ApiRequest)
        ensures
            r.method == Method::Put,
            r.path@ == "/api/uploads?filename="@ + enc(filename@),
            r.body matches Body::Bytes { bytes: b, content_type: c } && b == bytes && c@
                == content_type@,
            !r.refreshable,
    {
        let path: String = path_to("/api/uploads?filename=", filename);
        self.put_bytes(path.as_str(), bytes, content_type)
    }

    /// Uploads bytes to a path.
    pub fn put_bytes(&self, path: &str, bytes: Vec<u8>, content_type: &str) -> (r: ApiRequest)
        ensures
            r.method == Method::Put,
            r.path@ == path@,
            r.body matches Body::Bytes { bytes: b, content_type: c } && b == bytes && c@
                == content_type@,
            !r.refreshable,
    {
        ApiRequest {
            method: Method::Put,
            path: path.to_owned(),
            body: Body::Bytes { bytes, content_type: content_type.to_owned() },
            refreshable: false,
        }
    }
}

/// Seconds that an upload may take.
pub const UPLOAD_TIMEOUT_SECS: u64 = 60;

/// The error of a request that got no answer.
pub fn network_error(reason: &str) -> (r: ApiError)
    ensures
        r.status == 0,
        r.code@ == "network_error: "@ + reason@,
{
    ApiError { status: 0, code: joined("network_error: ", reason) }
}

/// The error of an answer that does not hold what it should.
pub fn deserialize_error(status: u16, reason: &str) -> (r: ApiError)
    ensures
        r.status == status,
        r.code@ == "deserialize: "@ + reason@,
{
    ApiError { status, code: joined("deserialize: ", reason) }
}

/// Whether a status tells success.
pub open spec fn is_success(status: u16) -> bool {
    200 <= status < 300
}

/// The code of a refused request: what the backend says, else the status.
pub open spec fn refusal_code(status: u16, said: Option<Seq<char>>) -> Seq<char> {
    match said {
        Some(s) => s,
        None => "http_"@ + crate::text::decimal(status as nat),
    }
}

/// What a status means, given the error that the body names.
pub fn status_result(status: u16, said: Option<String>) -> (r: Result<(), ApiError>)
    ensures
        r is Ok == is_success(status),
        r matches Err(e) ==> e.status == status && e.code@ == refusal_code(
            status,
            match said {
                Some(s) => Some(s@),
                None => None,
            },
        ),
{
    if status >= 200 && status < 300 {
        return Ok(());
    }
    let code: String = match said {
        Some(s) => s,
        None => {
            let mut code: String = "http_".to_owned();
            push_decimal(&mut code, status as u64);
            code
        },
    };
    Err(ApiError { status, code })
}

/// What an answer means: success, or the error that its body names in `error`.
pub fn check_response(status: u16, body: &[u8]) -> (r: Result<(), ApiError>)
    ensures
        r is Ok == is_success(status),
        r matches Err(e) ==> e.status == status && e.code@ == refusal_code(
            status,
            crate::json::json_text(body@, "error"@),
        ),
{
    status_result(status, json_text_field(body, "error"))
}

/// A text that may be missing, as a text.
pub open spec fn or_nothing(said: Option<Seq<char>>) -> Seq<char> {
    match said {
        Some(s) => s,
        None => Seq::empty(),
    }
}

/// A text that may be missing: empty where it is.
pub fn text_or_default(said: Option<String>) -> (r: String)
    ensures
        r@ == or_nothing(
            match said {
                Some(s) => Some(s@),
                None => None,
            },
        ),
{
    match said {
        Some(s) => s,
        None => String::new(),
    }
}

/// The invite code in an answer; empty where there is none.
pub fn invite_code(body: &[u8]) -> (r: String)
    ensures
        r@ == or_nothing(crate::json::json_text(body@, "inviteCode"@)),
{
    text_or_default(json_text_field(body, "inviteCode"))
}

/// The URL of an upload in an answer; empty where there is none.
pub fn upload_url(body: &[u8]) -> (r: String)
    ensures
        r@ == or_nothing(crate::json::json_text(body@, "url"@)),
{
    text_or_default(json_text_field(body, "url"))
}

/// What happens to a request on its way.
pub enum CallEvent {
    /// The backend answered.
    Answer { status: u16, body: Vec<u8> },
    /// No answer came.
    Failed { reason: String },
    /// The attempt to refresh the access token ended.
    Refreshed { ok: bool },
}

/// What to do next about a request.
pub enum CallAction {
    Send,
    Refresh,
    /// The request is over: the status and the body of the answer, or the error.
    Done { result: Result<(u16, Vec<u8>), ApiError> },
    /// The event does not belong to this moment.
    Wait,
}

/// Where a request stands.
pub enum ApiCall {
    Sending { refreshable: bool },
    Refreshing { status: u16, body: Vec<u8> },
    Retrying,
    Over,
}

/// Whether a result is what an answer means.
pub open spec fn answered(
    result: Result<(u16, Vec<u8>), ApiError>,
    status: u16,
    body: Seq<u8>,
) -> bool {
    match result {
        Ok(answer) => is_success(status) && answer.0 == status && answer.1@ == body,
        Err(e) => !is_success(status) && e.status == status && e.code@ == refusal_code(
            status,
            crate::json::json_text(body, "error"@),
        ),
    }
}

/// Whether a result is what a missing answer means.
pub open spec fn unanswered(result: Result<(u16, Vec<u8>), ApiError>, reason: Seq<char>) -> bool {
    result matches Err(e) && e.status == 0 && e.code@ == "network_error: "@ + reason
}

/// Whether an answer starts a refresh: the first 401 of a refreshable request.
pub open spec fn starts_refresh(before: ApiCall, event: CallEvent) -> bool {
    before is Sending && before->refreshable && event is Answer && event->status == 401
}

/// How a request goes on: the first 401 of a refreshable request leads to a
/// refresh, a refresh that worked leads to a second try, and everything else ends
/// the request with what the last answer means.
pub open spec fn call_step(
    before: ApiCall,
    event: CallEvent,
    after: ApiCall,
    action: CallAction,
) -> bool {
    match (before, event) {
        (ApiCall::Sending { .. }, CallEvent::Answer { status, body }) => if starts_refresh(
            before,
            event,
        ) {
            after == (ApiCall::Refreshing { status, body }) && action is Refresh
        } else {
            after is Over && action is Done && answered(action->result, status, body@)
        },
        (ApiCall::Retrying, CallEvent::Answer { status, body }) => after is Over && action is Done
            && answered(action->result, status, body@),
        (ApiCall::Sending { .. }, CallEvent::Failed { reason }) => after is Over && action is Done
            && unanswered(action->result, reason@),
        (ApiCall::Retrying, CallEvent::Failed { reason }) => after is Over && action is Done
            && unanswered(action->result, reason@),
        (ApiCall::Refreshing { status, body }, CallEvent::Refreshed { ok }) => if ok {
            after is Retrying && action is Send
        } else {
            after is Over && action is Done && answered(action->result, status, body@)
        },
        _ => after == before && action is Wait,
    }
}

/// What an answer means, with its status and body.
fn outcome(status: u16, body: Vec<u8>) -> (r: Result<(u16, Vec<u8>), ApiError>)
    ensures
        answered(r, status, body@),
{
    match check_response(status, body.as_slice()) {
        Ok(()) => Ok((status, body)),
        Err(e) => Err(e),
    }
}

impl ApiCall {
    /// A request that was just sent for the first time.
    pub fn start(request: &ApiRequest) -> (r: Self)
        ensures
            r == (ApiCall::Sending { refreshable: request.refreshable }),
    {
        ApiCall::Sending { refreshable: request.refreshable }
    }

    /// Takes an event and says what to do.
    pub fn step(self, event: CallEvent) -> (r: (ApiCall, CallAction))
        ensures
            call_step(self, event, r.0, r.1),
    {
        match (self, event) {
            (ApiCall::Sending { refreshable }, CallEvent::Answer { status, body }) => {
                if refreshable && status == 401 {
                    (ApiCall::Refreshing { status, body }, CallAction::Refresh)
                } else {
                    (ApiCall::Over, CallAction::Done { result: outcome(status, body) })
                }
            },
            (ApiCall::Retrying, CallEvent::Answer { status, body }) => (
                ApiCall::Over,
                CallAction::Done { result: outcome(status, body) },
            ),
            (ApiCall::Sending { .. }, CallEvent::Failed { reason }) => (
                ApiCall::Over,
                CallAction::Done { result: Err(network_error(reason.as_str())) },
            ),
            (ApiCall::Retrying, CallEvent::Failed { reason }) => (
                ApiCall::Over,
                CallAction::Done { result: Err(network_error(reason.as_str())) },
            ),
            (ApiCall::Refreshing { status, body }, CallEvent::Refreshed { ok }) => {
                if ok {
                    (ApiCall::Retrying, CallAction::Send)
                } else {
                    (ApiCall::Over, CallAction::Done { result: outcome(status, body) })
                }
            },
            (state, _) => (state, CallAction::Wait),
        }
    }
}

/// Whether `states` and `actions` are a run of a request through `events`.
pub open spec fn call_run(
    states: Seq<ApiCall>,
    events: Seq<CallEvent>,
    actions: Seq<CallAction>,
) -> bool {
    &&& states.len() == events.len() + 1
    &&& actions.len() == events.len()
    &&& states[0] is Sending
    &&& forall|i: int|
        0 <= i < events.len() ==> call_step(
            #[trigger] states[i],
            events[i],
            states[i + 1],
            actions[i],
        )
}

/// How often an action that satisfies `which` was taken.
pub open spec fn count_actions(actions: Seq<CallAction>, which: spec_fn(CallAction) -> bool) -> nat
    decreases actions.len(),
{
    if actions.len() == 0 {
        0
    } else {
        count_actions(actions.drop_last(), which) + if which(actions.last()) {
            1nat
        } else {
            0nat
        }
    }
}

/// How far a request has come.
spec fn stage(c: ApiCall) -> nat {
    match c {
        ApiCall::Sending { .. } => 0,
        ApiCall::Refreshing { .. } => 1,
        ApiCall::Retrying => 2,
        ApiCall::Over => 3,
    }
}

/// However the backend answers, a request is refreshed at most once, sent again at
/// most once, and ends at most once; one that is not refreshable is never
/// refreshed nor sent again.
pub proof fn law_one_refresh_one_retry(
    states: Seq<ApiCall>,
    events: Seq<CallEvent>,
    actions: Seq<CallAction>,
)
    requires
        call_run(states, events, actions),
    ensures
        count_actions(actions, |a: CallAction| a is Refresh) <= 1,
        count_actions(actions, |a: CallAction| a is Send) <= count_actions(
            actions,
            |a: CallAction| a is Refresh,
        ),
        count_actions(actions, |a: CallAction| a is Done) == (if states.last() is Over {
            1nat
        } else {
            0nat
        }),
        !states[0]->refreshable ==> count_actions(actions, |a: CallAction| a is Refresh) == 0,
{
    lemma_stages(states, events, actions);
}

proof fn lemma_stages(states: Seq<ApiCall>, events: Seq<CallEvent>, actions: Seq<CallAction>)
    requires
        call_run(states, events, actions),
    ensures
        ({
            let refreshes = count_actions(actions, |a: CallAction| a is Refresh);
            let sends = count_actions(actions, |a: CallAction| a is Send);
            let ends = count_actions(actions, |a: CallAction| a is Done);
            let at = stage(states.last());
            &&& at == 0 ==> refreshes == 0 && sends == 0 && ends == 0 && states.last() == states[0]
            &&& at == 1 ==> refreshes == 1 && sends == 0 && ends == 0
            &&& at == 2 ==> refreshes == 1 && sends == 1 && ends == 0
            &&& at == 3 ==> refreshes <= 1 && sends <= refreshes && ends == 1
            &&& !states[0]->refreshable ==> refreshes == 0
        }),
    decreases events.len(),
{
    if events.len() > 0 {
        let s = states.drop_last();
        let e = events.drop_last();
        let a = actions.drop_last();
        assert forall|i: int| 0 <= i < e.len() implies call_step(
            #[trigger] s[i],
            e[i],
            s[i + 1],
            a[i],
        ) by {
            assert(call_step(states[i], events[i], states[i + 1], actions[i]));
        }
        lemma_stages(s, e, a);
        let n = events.len() - 1;
        assert(call_step(states[n], events[n], states[n + 1], actions[n]));
    }
}

/// A text that may be left out.
pub open spec fn said(o: Option<&str>) -> Option<Seq<char>> {
    if o is Some {
        Some(o->0@)
    } else {
        None
    }
}

/// A path one step below another one.
pub open spec fn below(path: Seq<char>, step: Seq<char>) -> Seq<char> {
    path + "/"@ + step
}

/// What is done with one server is asked for below its own path, which stands below
/// the list of servers: its channels, members and bans, leaving it, its invite and its
/// transfer. A ban that is lifted stands below the bans that it was put in.
pub proof fn law_server_requests(
    api: &ApiClient,
    id: &str,
    user: &str,
    name: &str,
    new_name: Option<&str>,
    reason: Option<&str>,
    code: &str,
    kind: ChannelKind,
    list: ApiRequest,
    create: ApiRequest,
    enter: ApiRequest,
    get: ApiRequest,
    update: ApiRequest,
    delete: ApiRequest,
    leave: ApiRequest,
    invite: ApiRequest,
    kick: ApiRequest,
    ban: ApiRequest,
    unban: ApiRequest,
    bans: ApiRequest,
    channel: ApiRequest,
    transfer: ApiRequest,
)
    requires
        call_ensures(ApiClient::list_servers, (api,), list),
        call_ensures(ApiClient::create_server, (api, name), create),
        call_ensures(ApiClient::join_server, (api, code), enter),
        call_ensures(ApiClient::get_server, (api, id), get),
        call_ensures(ApiClient::update_server, (api, id, new_name), update),
        call_ensures(ApiClient::delete_server, (api, id), delete),
        call_ensures(ApiClient::leave_server, (api, id), leave),
        call_ensures(ApiClient::regenerate_invite, (api, id), invite),
        call_ensures(ApiClient::kick_member, (api, id, user), kick),
        call_ensures(ApiClient::ban_member, (api, id, user, reason), ban),
        call_ensures(ApiClient::unban_member, (api, id, user), unban),
        call_ensures(ApiClient::list_bans, (api, id), bans),
        call_ensures(ApiClient::create_channel, (api, id, name, kind), channel),
        call_ensures(ApiClient::transfer_server, (api, id, user), transfer),
    ensures
        list.path@ == "/api/servers"@,
        list.method is Get && get.method is Get && bans.method is Get,
        create.method is Post && create.path@ == list.path@,
        create.body.is_object(seq![("name"@, Some(name@))]),
        enter.method is Post && enter.path@ == below(list.path@, "join"@),
        enter.body.is_object(seq![("inviteCode"@, Some(code@))]),
        get.path@ == below(list.path@, enc(id@)),
        update.method is Patch && update.path@ == get.path@,
        update.body.is_object(seq![("name"@, said(new_name))]),
        delete.method is Delete && delete.path@ == get.path@ + "?confirm=true"@,
        leave.method is Post && leave.path@ == below(get.path@, "leave"@),
        invite.method is Post && invite.path@ == below(get.path@, "invite"@),
        kick.method is Delete && kick.path@ == below(below(get.path@, "members"@), enc(user@)),
        bans.path@ == below(get.path@, "bans"@),
        ban.method is Post && ban.path@ == bans.path@,
        ban.body.is_object(seq![("userId"@, Some(user@)), ("reason"@, said(reason))]),
        unban.method is Delete && unban.path@ == below(ban.path@, enc(user@)),
        channel.method is Post && channel.path@ == below(get.path@, "channels"@),
        channel.body.is_object(seq![("name"@, Some(name@)), ("kind"@, Some(kind.name()))]),
        transfer.method is Post && transfer.path@ == below(get.path@, "transfer"@),
        transfer.body.is_object(seq![("userId"@, Some(user@))]),
{
    reveal_strlit("/api/servers");
    reveal_strlit("/api/servers/");
    reveal_strlit("/");
    reveal_strlit("/channels");
    reveal_strlit("channels");
    reveal_strlit("/leave");
    reveal_strlit("leave");
    reveal_strlit("/invite");
    reveal_strlit("invite");
    reveal_strlit("/members/");
    reveal_strlit("members");
    reveal_strlit("/bans");
    reveal_strlit("/bans/");
    reveal_strlit("bans");
    reveal_strlit("/transfer");
    reveal_strlit("transfer");
    reveal_strlit("?confirm=true");
    reveal_strlit("/api/servers/join");
    reveal_strlit("join");
    assert(get.path@ =~= below(list.path@, enc(id@)));
    assert(kick.path@ =~= below(below(get.path@, "members"@), enc(user@)));
    assert(unban.path@ =~= below(ban.path@, enc(user@)));
}

/// What is done with one channel is asked for at its own path: its messages stand
/// below it, as many as asked for, and so do their reactions.
pub proof fn law_channel_requests(
    api: &ApiClient,
    id: &str,
    content: &str,
    limit: u32,
    patch: serde_json::Value,
    ids: &[&str],
    update: ApiRequest,
    delete: ApiRequest,
    post: ApiRequest,
    list: ApiRequest,
    reactions: ApiRequest,
)
    requires
        call_ensures(ApiClient::update_channel, (api, id, patch), update),
        call_ensures(ApiClient::delete_channel, (api, id), delete),
        call_ensures(ApiClient::post_message, (api, id, content), post),
        call_ensures(ApiClient::list_messages, (api, id, limit), list),
        call_ensures(ApiClient::get_reactions, (api, id, ids), reactions),
    ensures
        update.path@ == below("/api/channels"@, enc(id@)),
        update.method is Patch,
        update.body == Body::Json(patch),
        delete.method is Delete && delete.path@ == update.path@,
        post.method is Post && post.path@ == below(update.path@, "messages"@),
        post.body.is_object(seq![("content"@, Some(content@))]),
        list.method is Get && list.path@
            == post.path@ + "?limit="@ + crate::text::decimal(limit as nat),
        reactions.method is Get
            && reactions.path@
            == below(post.path@, "reactions?messageIds="@) + enc(comma_joined(ids@)),
{
    reveal_strlit("/api/channels");
    reveal_strlit("/api/channels/");
    reveal_strlit("/");
    reveal_strlit("messages");
    reveal_strlit("/messages");
    reveal_strlit("/messages?limit=");
    reveal_strlit("?limit=");
    reveal_strlit("/messages/reactions?messageIds=");
    reveal_strlit("reactions?messageIds=");
    assert(list.path@ =~= post.path@ + "?limit="@ + crate::text::decimal(limit as nat));
    assert(reactions.path@ =~= below(post.path@, "reactions?messageIds="@) + enc(
        comma_joined(ids@),
    ));
}

/// What is done with one message is asked for at its own path, and a reaction below
/// it.
pub proof fn law_message_requests(
    api: &ApiClient,
    id: &str,
    content: &str,
    emoji: &str,
    edit: ApiRequest,
    delete: ApiRequest,
    react: ApiRequest,
)
    requires
        call_ensures(ApiClient::edit_message, (api, id, content), edit),
        call_ensures(ApiClient::delete_message, (api, id), delete),
        call_ensures(ApiClient::toggle_reaction, (api, id, emoji), react),
    ensures
        edit.method is Patch && edit.path@ == below("/api/messages"@, enc(id@)),
        edit.body.is_object(seq![("content"@, Some(content@))]),
        delete.method is Delete && delete.path@ == edit.path@,
        react.method is Put && react.path@ == below(below(edit.path@, "reactions"@), enc(emoji@)),
{
    reveal_strlit("/api/messages");
    reveal_strlit("/api/messages/");
    reveal_strlit("/");
    reveal_strlit("/reactions/");
    reveal_strlit("reactions");
    assert(react.path@ =~= below(below(edit.path@, "reactions"@), enc(emoji@)));
}

/// Friendships are listed at one path, asked for below it, and accepted or declined
/// below the requests; a friend is removed below the list.
pub proof fn law_friend_requests(
    api: &ApiClient,
    username: &str,
    request: &str,
    user: &str,
    list: ApiRequest,
    ask: ApiRequest,
    accept: ApiRequest,
    decline: ApiRequest,
    remove: ApiRequest,
)
    requires
        call_ensures(ApiClient::get_friends, (api,), list),
        call_ensures(ApiClient::send_friend_request, (api, username), ask),
        call_ensures(ApiClient::accept_friend_request, (api, request), accept),
        call_ensures(ApiClient::decline_friend_request, (api, request), decline),
        call_ensures(ApiClient::remove_friend, (api, user), remove),
    ensures
        list.method is Get && list.path@ == "/api/friends"@,
        ask.method is Post && ask.path@ == below(list.path@, "requests"@),
        ask.body.is_object(seq![("username"@, Some(username@))]),
        decline.method is Delete && decline.path@ == below(ask.path@, enc(request@)),
        accept.method is Post && accept.path@ == below(decline.path@, "accept"@),
        remove.method is Delete && remove.path@ == below(list.path@, enc(user@)),
{
    reveal_strlit("/api/friends");
    reveal_strlit("/api/friends/");
    reveal_strlit("/");
    reveal_strlit("/api/friends/requests");
    reveal_strlit("requests");
    reveal_strlit("/api/friends/requests/");
    reveal_strlit("/accept");
    reveal_strlit("accept");
    assert(decline.path@ =~= below(ask.path@, enc(request@)));
    assert(accept.path@ =~= below(decline.path@, "accept"@));
}

/// Conversations are listed and opened at one path and deleted below it, and so are
/// blocks.
pub proof fn law_conversation_requests(
    api: &ApiClient,
    username: &str,
    channel: &str,
    user: &str,
    list: ApiRequest,
    open: ApiRequest,
    delete: ApiRequest,
    block: ApiRequest,
    unblock: ApiRequest,
)
    requires
        call_ensures(ApiClient::list_dms, (api,), list),
        call_ensures(ApiClient::create_dm, (api, username), open),
        call_ensures(ApiClient::delete_dm, (api, channel), delete),
        call_ensures(ApiClient::block_user, (api, user), block),
        call_ensures(ApiClient::unblock_user, (api, user), unblock),
    ensures
        list.method is Get && list.path@ == "/api/dms"@,
        open.method is Post && open.path@ == list.path@,
        open.body.is_object(seq![("username"@, Some(username@))]),
        delete.method is Delete && delete.path@ == below(list.path@, enc(channel@)),
        block.method is Post && block.path@ == "/api/blocks"@,
        block.body.is_object(seq![("userId"@, Some(user@))]),
        unblock.method is Delete && unblock.path@ == below(block.path@, enc(user@)),
{
    reveal_strlit("/api/dms");
    reveal_strlit("/api/dms/");
    reveal_strlit("/");
    reveal_strlit("/api/blocks");
    reveal_strlit("/api/blocks/");
}

/// The user is asked for, renamed and deleted at one path, and the password is
/// changed below it, the current one given as such.
pub proof fn law_account_requests(
    api: &ApiClient,
    username: &str,
    current: &str,
    new: &str,
    me: ApiRequest,
    rename: ApiRequest,
    delete: ApiRequest,
    password: ApiRequest,
)
    requires
        call_ensures(ApiClient::me, (api,), me),
        call_ensures(ApiClient::update_username, (api, username), rename),
        call_ensures(ApiClient::delete_account, (api,), delete),
        call_ensures(ApiClient::change_password, (api, current, new), password),
    ensures
        me.method is Get && me.path@ == "/api/me"@,
        rename.method is Patch && rename.path@ == me.path@,
        rename.body.is_object(seq![("username"@, Some(username@))]),
        delete.method is Delete && delete.path@ == me.path@,
        password.method is Put && password.path@ == below(me.path@, "password"@),
        password.body.is_object(seq![("currentPassword"@, Some(current@)), ("newPassword"@, Some(new@))]),
{
    reveal_strlit("/api/me");
    reveal_strlit("/");
    reveal_strlit("/api/me/password");
    reveal_strlit("password");
}

/// Sessions are made and ended below one path; only the refresh is no reason to
/// refresh.
pub proof fn law_session_requests(
    api: &ApiClient,
    username: &str,
    password: &str,
    token: &str,
    register: ApiRequest,
    login: ApiRequest,
    refresh: ApiRequest,
    logout: ApiRequest,
)
    requires
        call_ensures(ApiClient::register, (api, username, password), register),
        call_ensures(ApiClient::login, (api, username, password), login),
        call_ensures(ApiClient::refresh, (api, token), refresh),
        call_ensures(ApiClient::logout, (api, token), logout),
    ensures
        register.path@ == below("/api/auth"@, "register"@),
        login.path@ == below("/api/auth"@, "login"@),
        refresh.path@ == below("/api/auth"@, "refresh"@),
        logout.path@ == below("/api/auth"@, "logout"@),
        register.method is Post && login.method is Post && refresh.method is Post
            && logout.method is Post,
        register.body.is_object(seq![("username"@, Some(username@)), ("password"@, Some(password@))]),
        login.body.is_object(seq![("username"@, Some(username@)), ("password"@, Some(password@))]),
        refresh.body.is_object(seq![("refreshToken"@, Some(token@))]),
        logout.body.is_object(seq![("refreshToken"@, Some(token@))]),
        register.refreshable && login.refreshable && logout.refreshable && !refresh.refreshable,
{
    reveal_strlit("/api/auth");
    reveal_strlit("/");
    reveal_strlit("register");
    reveal_strlit("login");
    reveal_strlit("refresh");
    reveal_strlit("logout");
    reveal_strlit("/api/auth/register");
    reveal_strlit("/api/auth/login");
    reveal_strlit("/api/auth/refresh");
    reveal_strlit("/api/auth/logout");
}

/// Reports name their target by kind and identifier, and an upload carries its bytes
/// under its file name and is never sent again.
pub proof fn law_other_requests(
    api: &ApiClient,
    kind: &str,
    target: &str,
    reason: Option<&str>,
    file: &str,
    bytes: Vec<u8>,
    content_type: &str,
    path: &str,
    report: ApiRequest,
    upload: ApiRequest,
    put: ApiRequest,
    realtime: ApiRequest,
)
    requires
        call_ensures(ApiClient::report, (api, kind, target, reason), report),
        call_ensures(ApiClient::upload_attachment, (api, file, bytes, content_type), upload),
        call_ensures(ApiClient::put_bytes, (api, path, bytes, content_type), put),
        call_ensures(ApiClient::get_realtime_config, (api,), realtime),
    ensures
        report.method is Post && report.path@ == "/api/reports"@,
        report.body.is_object(seq![("targetType"@, Some(kind@)), ("targetId"@, Some(target@)), ("reason"@, said(reason))]),
        upload.method is Put && upload.path@ == "/api/uploads?filename="@ + enc(file@),
        (upload.body matches Body::Bytes { bytes: b, content_type: c } && b == bytes
            && c@ == content_type@),
        put.method is Put && put.path@ == path@,
        (put.body matches Body::Bytes { bytes: b, content_type: c } && b == bytes
            && c@ == content_type@),
        !upload.refreshable && !put.refreshable,
        realtime.method is Get && realtime.path@ == "/api/realtime/config"@,
{
}

/// An object has its members in order, each name with its own value.
pub proof fn law_object_members(b: Body, members: Seq<(Seq<char>, Option<Seq<char>>)>, i: int)
    requires
        b.is_object(members),
        0 <= i < members.len(),
    ensures
        b matches Body::Object(v) && {
            &&& v@.len() == members.len()
            &&& v@[i].0@ == members[i].0
            &&& v@[i].1 is Some <==> members[i].1 is Some
            &&& v@[i].1 matches Some(s) ==> members[i].1 == Some(s@)
        },
{
    let v = b->Object_0@;
    let m = v.map_values(|e: (String, Option<String>)| member(e));
    assert(m[i] == member(v[i]));
    assert(m.len() == v.len());
}

/// Identifiers in a list stand in their order with a comma between any two.
pub proof fn law_commas(ids: Seq<&str>, more: &str)
    ensures
        comma_joined(ids.push(more)) == (if ids.len() == 0 {
            more@
        } else {
            comma_joined(ids) + ","@ + more@
        }),
        ids.len() == 0 ==> comma_joined(ids).len() == 0,
{
    assert(ids.push(more).drop_last() =~= ids);
}

/// A request is addressed below the backend and carries the token as a bearer.
pub proof fn law_request_addressed(api: &ApiClient, path: &str, url: String, auth: Option<String>)
    requires
        call_ensures(ApiClient::url, (api, path), url),
        call_ensures(ApiClient::authorization, (api,), auth),
    ensures
        url@.len() == api.base@.len() + path@.len(),
        url@.take(api.base@.len() as int) == api.base@,
        url@.skip(api.base@.len() as int) == path@,
        auth is Some <==> api.token is Some,
        auth matches Some(h) ==> h@ == "Bearer "@ + api.token->0@,
{
    assert(url@.take(api.base@.len() as int) =~= api.base@);
    assert(url@.skip(api.base@.len() as int) =~= path@);
}

/// What a status means: from 200 to 299 success, anything else an error with that
/// status, in the words of the backend where there are any, else by the status.
pub proof fn law_status(status: u16, said: Option<String>, r: Result<(), ApiError>)
    requires
        call_ensures(status_result, (status, said), r),
    ensures
        r is Ok <==> status / 100 == 2,
        r matches Err(e) ==> e.status == status,
        r matches Err(e) ==> (said matches Some(s) ==> e.code@ == s@),
        r matches Err(e) ==> (said is None ==> e.code@ == "http_"@ + crate::text::decimal(
            status as nat,
        )),
{
}

/// Where a request stands, it goes on by the answers alone: a first refusal of the
/// token of a refreshable request leads to one refresh, a refresh that worked to
/// sending it again, one that failed to the refusal as it was; every other answer is
/// the result, whole where its status is one of success; and no answer is an error
/// without a status.
pub proof fn law_call_goes_on(call: ApiCall, event: CallEvent, r: (ApiCall, CallAction))
    requires
        call_ensures(ApiCall::step, (call, event), r),
    ensures
        r.1 is Refresh <==> (call matches ApiCall::Sending { refreshable } && refreshable && (event
            matches CallEvent::Answer { status, .. } && status == 401)),
        r.1 is Send <==> (call is Refreshing && event == (CallEvent::Refreshed { ok: true })),
        r.1 is Send ==> r.0 is Retrying,
        r.1 is Done ==> r.0 is Over,
        event matches CallEvent::Answer { status, body } ==> (r.1 is Refresh ==> r.0 == (
        ApiCall::Refreshing { status, body })),
        event matches CallEvent::Answer { status, body }
            ==> (r.1 matches CallAction::Done { result }
            ==> match result {
            Ok(a) => a.0 == status && a.1@ == body@ && status / 100 == 2,
            Err(e) => e.status == status && status / 100 != 2 && (match crate::json::json_text(
                body@,
                "error"@,
            ) {
                Some(s) => e.code@ == s,
                None => e.code@ == "http_"@ + crate::text::decimal(status as nat),
            }),
        }),
        event matches CallEvent::Failed { reason } ==> (r.1 matches CallAction::Done { result }
            ==> (result matches Err(e) && e.code@ == "network_error: "@ + reason@)),
        event is Answer && (call is Retrying || call is Sending) ==> r.1 is Done || r.1 is Refresh,
        call matches ApiCall::Refreshing { status, .. } ==> (event == (CallEvent::Refreshed {
            ok: false,
        }) && status / 100 != 2 ==> (r.1 matches CallAction::Done { result } && (result matches Err(
            e,
        ) && e.status == status))),
        event is Failed && (call is Sending || call is Retrying) ==> (r.1 matches CallAction::Done {
            result,
        } && (result matches Err(e) && e.status == 0)),
        r.1 is Wait ==> r.0 == call,
        call is Over ==> r.1 is Wait,
{
}

/// A request that was just sent may be refreshed exactly if it is one that can.
pub proof fn law_call_starts(
    request: &ApiRequest,
    call: ApiCall,
    body: Vec<u8>,
    r: (ApiCall, CallAction),
)
    requires
        call_ensures(ApiCall::start, (request,), call),
        call_ensures(ApiCall::step, (call, CallEvent::Answer { status: 401, body }), r),
    ensures
        r.1 is Refresh <==> request.refreshable,
        !request.refreshable ==> (r.1 matches CallAction::Done { result } && (result matches Err(e)
            && e.status == 401)),
{
}

/// An error says its code and its status; one without an answer has none.
pub proof fn law_errors_tell(
    e: &ApiError,
    words: String,
    reason: &str,
    lost: ApiError,
    status: u16,
    odd: ApiError,
)
    requires
        call_ensures(ApiError::message, (e,), words),
        call_ensures(network_error, (reason,), lost),
        call_ensures(deserialize_error, (status, reason), odd),
    ensures
        words@.take(e.code@.len() as int) == e.code@,
        words@ == e.code@ + (" (http "@ + crate::text::decimal(e.status as nat) + ")"@),
        lost.status == 0,
        lost.code@ == "network_error: "@ + reason@,
        odd.status == status,
        odd.code@ == "deserialize: "@ + reason@,
{
    assert(words@.take(e.code@.len() as int) =~= e.code@);
    assert(words@ =~= e.code@ + (" (http "@ + crate::text::decimal(e.status as nat) + ")"@));
}

/// The text that an answer holds under a name is taken as it is, and an answer
/// without it counts as an empty one.
pub proof fn law_texts_in_answers(
    said: Option<String>,
    r: String,
    body: &[u8],
    code: String,
    url: String,
)
    requires
        call_ensures(text_or_default, (said,), r),
        call_ensures(invite_code, (body,), code),
        call_ensures(upload_url, (body,), url),
    ensures
        said matches Some(s) ==> r@ == s@,
        said is None ==> r@.len() == 0,
        crate::json::json_text(body@, "inviteCode"@) matches Some(s) ==> code@ == s,
        crate::json::json_text(body@, "inviteCode"@) is None ==> code@.len() == 0,
        crate::json::json_text(body@, "url"@) matches Some(s) ==> url@ == s,
        crate::json::json_text(body@, "url"@) is None ==> url@.len() == 0,
{
}

/// A refused request tells the error that its body names, else its status; an answer
/// of success tells none.
pub proof fn law_refusal_told(status: u16, body: &[u8], r: Result<(), ApiError>)
    requires
        call_ensures(check_response, (status, body), r),
    ensures
        r is Ok <==> status / 100 == 2,
        r matches Err(e) ==> e.status == status,
        r matches Err(e) ==> (crate::json::json_text(body@, "error"@) matches Some(s) ==> e.code@
            == s),
        r matches Err(e) ==> (crate::json::json_text(body@, "error"@) is None ==> e.code@
            == "http_"@ + crate::text::decimal(status as nat)),
{
}

/// A client keeps its backend, without slashes at the end once it moved, and its
/// token, each as given last, and neither changes the other.
pub proof fn law_client_keeps(
    base: String,
    a: ApiClient,
    b: &mut ApiClient,
    token: Option<String>,
    c: &mut ApiClient,
    url: &str,
    held: Option<String>,
    shown: String,
)
    requires
        call_ensures(ApiClient::new, (base,), a),
        *old(b) == a,
        call_ensures(ApiClient::set_token, (b, token), ()),
        *old(c) == *final(b),
        call_ensures(ApiClient::set_base, (c, url), ()),
        call_ensures(ApiClient::token, (&*final(c),), held),
        call_ensures(ApiClient::base_url, (&*final(c),), shown),
    ensures
        a.base == base && a.token is None,
        final(b).base == base,
        held == token,
        shown@.len() <= url@.len(),
        url@.take(shown@.len() as int) == shown@,
        shown@.len() > 0 ==> shown@.last() != '/',
        forall|i: int| shown@.len() <= i < url@.len() ==> #[trigger] url@[i] == '/',
{
    crate::text::lemma_slashes_trimmed(url@);
}

/// The code of an error is what it is asked for by.
pub proof fn law_error_code(e: &ApiError, r: &str)
    requires
        call_ensures(ApiError::code, (e,), r),
    ensures
        r@ == e.code@,
{
}

/// An upload may take a minute.
pub proof fn law_upload_time()
    ensures
        UPLOAD_TIMEOUT_SECS == 60,
{
}

} // verus!
