//! The session: tokens, user, and what logging in, refreshing and logging out do
//! to them.
use vstd::prelude::*;

use crate::api::{ApiClient, ApiError, ApiRequest};
use crate::event::CoreEvent;
use crate::protocol::{AuthResponse, MeResponse, RefreshResponse, User};
use crate::settings::Settings;
use crate::text::{trim, trim_end_slashes};

verus! {

/// The session.
pub struct AuthService {
    pub api: ApiClient,
    pub settings: Settings,
    pub user: Option<User>,
    /// Whether an attempt to log in is on its way.
    pub busy: bool,
    pub error: Option<String>,
    pub refresh_token: Option<String>,
}

/// The first step of a refresh.
pub enum RefreshStep {
    /// Ask the backend; hand what it says to [`AuthService::refreshed`].
    Ask(ApiRequest),
    /// There is nothing to refresh with; the session is over.
    Over(CoreEvent),
}

/// Whether `after` is the session `before` with these two tokens, in use and
/// stored, and everything else as it was.
pub open spec fn has_tokens(
    before: AuthService,
    after: AuthService,
    token: Option<String>,
    refresh_token: Option<String>,
) -> bool {
    &&& after.api == (ApiClient { token, ..before.api })
    &&& after.refresh_token == refresh_token
    &&& after.settings.unsaved
    &&& after.settings.data == (crate::settings::SettingsData {
        token,
        refresh_token,
        ..before.settings.data
    })
    &&& after.busy == before.busy
}

/// Whether `after` is `before` with its session taken down: no user, no tokens,
/// neither in use nor stored.
pub open spec fn cleared(before: AuthService, after: AuthService) -> bool {
    has_tokens(before, after, None, None) && after.user is None
}

impl AuthService {
    /// Whether the tokens in use are the stored ones.
    pub open spec fn in_step(&self) -> bool {
        self.api.token == self.settings.data.token && self.refresh_token
            == self.settings.data.refresh_token
    }

    /// Restores the stored session. The second result says whether there is an
    /// access token, so that the session should be checked by asking who is logged
    /// in.
    pub fn new(api: ApiClient, settings: Settings) -> (r: (Self, bool))
        ensures
            r.0.api.base@ == crate::text::trimmed_slashes(settings.backend()),
            r.0.api.token == (if settings.data.token is Some {
                settings.data.token
            } else {
                api.token
            }),
            r.0.settings == settings,
            r.0.refresh_token == settings.data.refresh_token,
            r.0.user is None,
            !r.0.busy,
            r.0.error is None,
            r.1 == settings.data.token is Some,
            api.token is None ==> r.0.in_step(),
    {
        let mut api = api;
        let backend: String = settings.backend_url();
        api.set_base(backend.as_str());
        let refresh_token: Option<String> = settings.refresh_token();
        let token: Option<String> = settings.token();
        let check: bool = token.is_some();
        if check {
            api.set_token(token);
        }
        (
            AuthService { api, settings, user: None, busy: false, error: None, refresh_token },
            check,
        )
    }

    pub fn backend_url(&self) -> (r: String)
        ensures
            r@ == self.settings.backend(),
    {
        self.settings.backend_url()
    }

    /// Moves to another backend: white space around the URL and slashes at its end
    /// go, and an error of the old one is forgotten.
    pub fn set_backend_url(&mut self, url: &str)
        ensures
            final(self).api.base@ == crate::text::trimmed_slashes(crate::text::trimmed(url@)),
            final(self).settings.backend() == final(self).api.base@,
            final(self).settings.unsaved,
            final(self).settings.data == (crate::settings::SettingsData {
                backend_url: final(self).settings.data.backend_url,
                ..old(self).settings.data
            }),
            *final(self) == (AuthService {
                api: ApiClient { base: final(self).api.base, ..old(self).api },
                settings: final(self).settings,
                error: None,
                ..*old(self)
            }),
            old(self).in_step() ==> final(self).in_step(),
    {
        let bare: String = trim(url);
        let url: String = trim_end_slashes(bare.as_str());
        proof {
            crate::text::law_trim_slashes_twice(bare@);
        }
        self.settings.set_backend_url(url.as_str());
        self.api.set_base(url.as_str());
        self.error = None;
    }

    pub fn set_error(&mut self, msg: Option<String>)
        ensures
            *final(self) == (AuthService { error: msg, ..*old(self) }),
    {
        self.error = msg;
    }

    /// Takes in what the backend said to the question who is logged in: a user is
    /// taken over, a refusal ends the session, and so does any other error, which
    /// is kept.
    pub fn refresh_me(&mut self, result: Result<MeResponse, ApiError>) -> (r: CoreEvent)
        ensures
            match result {
                Ok(resp) => r == (CoreEvent::Authenticated { user: resp.user }) && *final(self) == (
                AuthService { user: Some(resp.user), ..*old(self) }),
                Err(e) => r is LoggedOut && cleared(*old(self), *final(self)) && final(self).error
                    == (if e.status == 401 {
                    old(self).error
                } else {
                    Some(e.code)
                }),
            },
            old(self).in_step() ==> final(self).in_step(),
    {
        match result {
            Ok(resp) => {
                self.user = Some(resp.user.clone());
                CoreEvent::Authenticated { user: resp.user }
            },
            Err(e) => {
                if e.status != 401 {
                    self.error = Some(e.code);
                }
                self.clear_session()
            },
        }
    }

    /// Starts logging in: the request to send. Hand what it brings to
    /// [`AuthService::authenticate`].
    pub fn login(&mut self, username: &str, password: &str) -> (r: ApiRequest)
        ensures
            r.method == crate::api::Method::Post,
            r.path@ == "/api/auth/login"@,
            r.body.is_object(
                seq![("username"@, Some(username@)), ("password"@, Some(password@))],
            ),
            r.refreshable,
            *final(self) == (AuthService { busy: true, error: None, ..*old(self) }),
    {
        self.busy = true;
        self.error = None;
        self.api.login(username, password)
    }

    /// Starts registering: the request to send. Hand what it brings to
    /// [`AuthService::authenticate`].
    pub fn register(&mut self, username: &str, password: &str) -> (r: ApiRequest)
        ensures
            r.method == crate::api::Method::Post,
            r.path@ == "/api/auth/register"@,
            r.body.is_object(
                seq![("username"@, Some(username@)), ("password"@, Some(password@))],
            ),
            r.refreshable,
            *final(self) == (AuthService { busy: true, error: None, ..*old(self) }),
    {
        self.busy = true;
        self.error = None;
        self.api.register(username, password)
    }

    /// Takes in what logging in brought: on success the session and the event to
    /// publish, else the error, which for a missing answer is `network_error`.
    pub fn authenticate(&mut self, result: Result<AuthResponse, ApiError>) -> (r: Option<CoreEvent>)
        ensures
            !final(self).busy,
            match result {
                Ok(resp) => r == Some(CoreEvent::Authenticated { user: resp.user }) && has_tokens(
                    AuthService { busy: false, ..*old(self) },
                    *final(self),
                    Some(resp.token),
                    resp.refresh_token,
                ) && final(self).user == Some(resp.user) && final(self).error == old(self).error,
                Err(e) => final(self).error matches Some(code) && code@ == (if e.status == 0 {
                    "network_error"@
                } else {
                    e.code@
                }) && r is None && *final(self) == (AuthService {
                    busy: false,
                    error: final(self).error,
                    ..*old(self)
                }),
            },
            result is Ok ==> final(self).in_step(),
            old(self).in_step() ==> final(self).in_step(),
    {
        self.busy = false;
        match result {
            Ok(resp) => {
                self.take_tokens(resp.token, resp.refresh_token);
                self.user = Some(resp.user.clone());
                Some(CoreEvent::Authenticated { user: resp.user })
            },
            Err(e) => {
                let code: String = if e.status == 0 {
                    "network_error".to_owned()
                } else {
                    e.code
                };
                self.error = Some(code);
                None
            },
        }
    }

    /// Puts tokens into use and stores them.
    fn take_tokens(&mut self, token: String, refresh_token: Option<String>)
        ensures
            has_tokens(*old(self), *final(self), Some(token), refresh_token),
            final(self).user == old(self).user,
            final(self).error == old(self).error,
    {
        self.api.set_token(Some(token.clone()));
        self.settings.set_token(Some(token));
        self.refresh_token = refresh_token.clone();
        self.settings.set_refresh_token(refresh_token);
    }

    /// Starts a refresh of the access token. Without a refresh token the session
    /// is over at once.
    pub fn try_refresh(&mut self) -> (r: RefreshStep)
        ensures
            match old(self).refresh_token {
                Some(rt) => r matches RefreshStep::Ask(q) && q.method == crate::api::Method::Post
                    && q.path@ == "/api/auth/refresh"@ && q.body.is_object(
                    seq![("refreshToken"@, Some(rt@))],
                ) && !q.refreshable && *final(self) == *old(self),
                None => r matches RefreshStep::Over(ev) && ev is LoggedOut && cleared(
                    *old(self),
                    *final(self),
                ) && final(self).error == old(self).error,
            },
            old(self).in_step() ==> final(self).in_step(),
    {
        match &self.refresh_token {
            Some(rt) => RefreshStep::Ask(self.api.refresh(rt.as_str())),
            None => RefreshStep::Over(self.clear_session()),
        }
    }

    /// Takes in what the refresh brought: new tokens, or the end of the session.
    /// `None` is success; an event is to be published.
    pub fn refreshed(&mut self, result: Result<RefreshResponse, ApiError>) -> (r: Option<CoreEvent>)
        ensures
            match result {
                Ok(resp) => r is None && has_tokens(
                    *old(self),
                    *final(self),
                    Some(resp.token),
                    Some(resp.refresh_token),
                ) && final(self).user == old(self).user,
                Err(_) => r matches Some(ev) && ev is LoggedOut && cleared(
                    *old(self),
                    *final(self),
                ),
            },
            final(self).error == old(self).error,
            final(self).in_step(),
    {
        match result {
            Ok(resp) => {
                self.take_tokens(resp.token, Some(resp.refresh_token));
                None
            },
            Err(_) => Some(self.clear_session()),
        }
    }

    /// Starts logging out: the request that revokes the refresh token, where there
    /// is one. Whatever it brings, [`AuthService::clear_session`] comes next.
    pub fn logout(&self) -> (r: Option<ApiRequest>)
        ensures
            match self.refresh_token {
                Some(rt) => r matches Some(q) && q.method == crate::api::Method::Post && q.path@
                    == "/api/auth/logout"@ && q.body.is_object(seq![("refreshToken"@, Some(rt@))])
                    && q.refreshable,
                None => r is None,
            },
    {
        match &self.refresh_token {
            Some(rt) => Some(self.api.logout(rt.as_str())),
            None => None,
        }
    }

    /// Takes the session down, here only; the event is to be published.
    pub fn clear_session(&mut self) -> (r: CoreEvent)
        ensures
            r is LoggedOut,
            cleared(*old(self), *final(self)),
            final(self).error == old(self).error,
            final(self).in_step(),
    {
        self.user = None;
        self.api.set_token(None);
        self.refresh_token = None;
        self.settings.set_token(None);
        self.settings.set_refresh_token(None);
        CoreEvent::LoggedOut
    }

    /// Takes over tokens from a link that the system handed to the app; a missing
    /// refresh token leaves the one there is. The session should be checked by
    /// asking who is logged in.
    pub fn restore_from_deeplink(&mut self, token: String, refresh_token: Option<String>)
        ensures
            final(self).api == (ApiClient { token: Some(token), ..old(self).api }),
            final(self).refresh_token == (if refresh_token is Some {
                refresh_token
            } else {
                old(self).refresh_token
            }),
            final(self).settings.unsaved,
            final(self).settings.data == (crate::settings::SettingsData {
                token: Some(token),
                refresh_token: if refresh_token is Some {
                    refresh_token
                } else {
                    old(self).settings.data.refresh_token
                },
                ..old(self).settings.data
            }),
            final(self).user == old(self).user,
            final(self).busy == old(self).busy,
            final(self).error == old(self).error,
            old(self).in_step() ==> final(self).in_step(),
    {
        self.api.set_token(Some(token.clone()));
        self.settings.set_token(Some(token));
        if let Some(rt) = refresh_token {
            self.refresh_token = Some(rt.clone());
            self.settings.set_refresh_token(Some(rt));
        }
    }
}

/// A session that was taken down is the same whatever it was: nobody is logged
/// in, nothing is left to refresh with, and nothing is stored to restore.
pub proof fn law_no_trace_of_a_session(a: AuthService, b: AuthService, x: AuthService, y: AuthService)
    requires
        cleared(a, x),
        cleared(b, y),
    ensures
        x.user == y.user,
        x.api.token == y.api.token,
        x.refresh_token == y.refresh_token,
        x.settings.data.token is None && y.settings.data.token is None,
        x.settings.data.refresh_token is None && y.settings.data.refresh_token is None,
        x.in_step() && y.in_step(),
{
}

/// What a session was given is what the next start restores: the tokens, and the
/// backend.
pub proof fn law_session_survives_restart(
    before: AuthService,
    after: AuthService,
    token: String,
    refresh_token: Option<String>,
)
    requires
        has_tokens(before, after, Some(token), refresh_token),
    ensures
        after.settings.data.token == Some(token),
        after.settings.data.refresh_token == refresh_token,
        after.settings.backend() == before.settings.backend(),
        after.settings.unsaved,
        after.in_step(),
{
}

/// Logging in gives the user and both tokens of the answer, the access token in use
/// for requests, the refresh token for the next refresh, and a new start with the
/// stored settings has the same ones.
pub proof fn law_login_lasts(
    s: &mut AuthService,
    resp: AuthResponse,
    event: Option<CoreEvent>,
    api: ApiClient,
    next: (AuthService, bool),
    t: &mut AuthService,
    step: RefreshStep,
)
    requires
        call_ensures(AuthService::authenticate, (s, Ok(resp)), event),
        call_ensures(AuthService::new, (api, final(s).settings), next),
        *old(t) == next.0,
        call_ensures(AuthService::try_refresh, (t,), step),
    ensures
        event == Some(CoreEvent::Authenticated { user: resp.user }),
        final(s).user == Some(resp.user),
        final(s).api.token == Some(resp.token),
        final(s).refresh_token == resp.refresh_token,
        final(s).api.base == old(s).api.base,
        final(s).settings.unsaved,
        !final(s).busy,
        next.1,
        next.0.api.token == Some(resp.token),
        next.0.refresh_token == resp.refresh_token,
        next.0.user is None,
        resp.refresh_token matches Some(rt) ==> (step matches RefreshStep::Ask(q)
            && q.body.is_object(seq![("refreshToken"@, Some(rt@))])),
        resp.refresh_token is None ==> step is Over,
{
}

/// A refresh that succeeds puts both new tokens in place of the old ones, in use and
/// stored, and leaves the user logged in.
pub proof fn law_refresh_rotates(
    s: &mut AuthService,
    resp: RefreshResponse,
    event: Option<CoreEvent>,
    api: ApiClient,
    next: (AuthService, bool),
)
    requires
        call_ensures(AuthService::refreshed, (s, Ok(resp)), event),
        call_ensures(AuthService::new, (api, final(s).settings), next),
    ensures
        event is None,
        final(s).user == old(s).user,
        final(s).busy == old(s).busy && final(s).error == old(s).error,
        final(s).api.base == old(s).api.base,
        final(s).api.token == Some(resp.token),
        final(s).refresh_token == Some(resp.refresh_token),
        next.0.api.token == Some(resp.token),
        next.0.refresh_token == Some(resp.refresh_token),
        final(s).settings.data.backend_url == old(s).settings.data.backend_url,
        final(s).settings.data.suppressor_model == old(s).settings.data.suppressor_model,
        final(s).settings.data.aec_enabled == old(s).settings.data.aec_enabled,
{
}

/// A session that ends, by a refused refresh, a failed question who is logged in, or
/// logging out, leaves no user and no token, neither in use nor for the next start;
/// the backend stays.
pub proof fn law_session_ends(
    s: &mut AuthService,
    a: ApiError,
    x: Option<CoreEvent>,
    t: &mut AuthService,
    b: ApiError,
    y: CoreEvent,
    u: &mut AuthService,
    z: CoreEvent,
    api: ApiClient,
    next: (AuthService, bool),
    w: AuthService,
)
    requires
        call_ensures(AuthService::refreshed, (s, Err(a)), x),
        call_ensures(AuthService::refresh_me, (t, Err(b)), y),
        call_ensures(AuthService::clear_session, (u,), z),
        w == *final(s) || w == *final(t) || w == *final(u),
        api.token is None,
        call_ensures(AuthService::new, (api, w.settings), next),
    ensures
        x == Some(CoreEvent::LoggedOut),
        y == CoreEvent::LoggedOut,
        z == CoreEvent::LoggedOut,
        w.user is None,
        w.api.token is None,
        w.refresh_token is None,
        w.settings.unsaved,
        !next.1,
        next.0.api.token is None,
        next.0.refresh_token is None,
        final(u).settings.data.backend_url == old(u).settings.data.backend_url,
        final(u).api.base == old(u).api.base,
        final(t).error == (if b.status == 401 {
            old(t).error
        } else {
            Some(b.code)
        }),
{
}

/// Who the backend says is logged in is the user, and nothing else changes.
pub proof fn law_me_is_user(s: &mut AuthService, resp: MeResponse, event: CoreEvent)
    requires
        call_ensures(AuthService::refresh_me, (s, Ok(resp)), event),
    ensures
        event == (CoreEvent::Authenticated { user: resp.user }),
        final(s).user == Some(resp.user),
        final(s).api == old(s).api,
        final(s).refresh_token == old(s).refresh_token,
        final(s).settings == old(s).settings,
        final(s).error == old(s).error,
{
}

/// A login that fails leaves the session as it was, but for an error: the backend's
/// code, or `network_error` where no answer came.
pub proof fn law_failed_login(s: &mut AuthService, e: ApiError, event: Option<CoreEvent>)
    requires
        call_ensures(AuthService::authenticate, (s, Err(e)), event),
    ensures
        event is None,
        final(s).user == old(s).user,
        final(s).api == old(s).api,
        final(s).refresh_token == old(s).refresh_token,
        final(s).settings == old(s).settings,
        !final(s).busy,
        e.status == 0 ==> (final(s).error matches Some(c) && c@ == "network_error"@),
        e.status != 0 ==> (final(s).error matches Some(c) && c@ == e.code@),
{
}

/// A backend is remembered: the address in use is the stored one, which neither begins
/// nor ends with white space or ends with a slash, and a new start uses it.
pub proof fn law_backend_remembered(
    s: &mut AuthService,
    url: &str,
    bare: String,
    api: ApiClient,
    next: (AuthService, bool),
    shown: String,
)
    requires
        call_ensures(AuthService::set_backend_url, (s, url), ()),
        call_ensures(trim, (url,), bare),
        call_ensures(AuthService::new, (api, final(s).settings), next),
        call_ensures(AuthService::backend_url, (&next.0,), shown),
    ensures
        final(s).api.base@.len() <= bare@.len(),
        bare@.take(final(s).api.base@.len() as int) == final(s).api.base@,
        final(s).api.base@.len() > 0 ==> final(s).api.base@.last() != '/',
        forall|i: int|
            final(s).api.base@.len() <= i < bare@.len() ==> #[trigger] bare@[i] == '/',
        next.0.api.base@ == final(s).api.base@,
        shown@ == final(s).api.base@,
        final(s).api.token == old(s).api.token,
        final(s).refresh_token == old(s).refresh_token,
        final(s).error is None,
{
    crate::text::lemma_slashes_trimmed(bare@);
    crate::text::law_trim_slashes_twice(bare@);
}

/// A link puts its tokens into use and into store; without a refresh token the one
/// there is stays.
pub proof fn law_link_tokens(s: &mut AuthService, token: String, refresh_token: Option<String>)
    requires
        call_ensures(AuthService::restore_from_deeplink, (s, token, refresh_token), ()),
    ensures
        final(s).api.token == Some(token),
        final(s).settings.data.token == Some(token),
        refresh_token is Some ==> final(s).refresh_token == refresh_token
            && final(s).settings.data.refresh_token == refresh_token,
        refresh_token is None ==> final(s).refresh_token == old(s).refresh_token
            && final(s).settings.data.refresh_token == old(s).settings.data.refresh_token,
        final(s).user == old(s).user,
        final(s).settings.unsaved,
        final(s).settings.data.backend_url == old(s).settings.data.backend_url,
{
}

/// A login asks with the name as the name and the password as the password.
pub proof fn law_credentials_in_place(
    s: &mut AuthService,
    username: &str,
    password: &str,
    r: ApiRequest,
    t: &mut AuthService,
    q: ApiRequest,
)
    requires
        call_ensures(AuthService::login, (s, username, password), r),
        call_ensures(AuthService::register, (t, username, password), q),
    ensures
        r.body.is_object(seq![("username"@, Some(username@)), ("password"@, Some(password@))]),
        q.body.is_object(seq![("username"@, Some(username@)), ("password"@, Some(password@))]),
        r.path@ == "/api/auth/login"@,
        q.path@ == "/api/auth/register"@,
        final(s).busy && final(s).error is None,
        final(s).user == old(s).user,
{
}

/// Logging out asks the backend to revoke the very token that a refresh would use,
/// and asks nothing where there is none.
pub proof fn law_logout_revokes(
    s: &AuthService,
    r: Option<ApiRequest>,
    t: &mut AuthService,
    step: RefreshStep,
)
    requires
        call_ensures(AuthService::logout, (s,), r),
        *old(t) == *s,
        call_ensures(AuthService::try_refresh, (t,), step),
    ensures
        r is Some <==> step is Ask,
        s.refresh_token matches Some(rt) ==> (r matches Some(q) && q.path@ == "/api/auth/logout"@
            && q.body.is_object(seq![("refreshToken"@, Some(rt@))])),
        s.refresh_token matches Some(rt) ==> (step matches RefreshStep::Ask(q) && q.path@
            == "/api/auth/refresh"@ && q.body.is_object(seq![("refreshToken"@, Some(rt@))])
            && !q.refreshable),
        step is Over ==> final(t).user is None && final(t).api.token is None,
{
}

/// An error that is set is the one that is shown, and nothing else changes.
pub proof fn law_error_set(s: &mut AuthService, msg: Option<String>)
    requires
        call_ensures(AuthService::set_error, (s, msg), ()),
    ensures
        final(s).error == msg,
        final(s).user == old(s).user && final(s).api == old(s).api
            && final(s).settings == old(s).settings
            && final(s).refresh_token == old(s).refresh_token,
{
}

} // verus!
