//! The REST client and the session.
use lumen::api::{
    check_response, deserialize_error, invite_code, network_error, status_result, text_or_default,
    upload_url, ApiCall, ApiClient, ApiError, ApiRequest, Body, CallAction, CallEvent, Method,
};
use lumen::auth::{AuthService, RefreshStep};
use lumen::event::CoreEvent;
use lumen::protocol::{AuthResponse, ChannelKind, MeResponse, RefreshResponse, User};
use lumen::settings::{Settings, SettingsData, DEFAULT_BACKEND_URL};

fn client() -> ApiClient {
    ApiClient::new("http://h".to_string())
}

fn members(r: &ApiRequest) -> Vec<(String, Option<String>)> {
    match &r.body {
        Body::Object(v) => v.clone(),
        _ => panic!("no object"),
    }
}

fn pair(k: &str, v: &str) -> (String, Option<String>) {
    (k.to_string(), Some(v.to_string()))
}

fn user() -> User {
    User {
        id: "u-1".into(),
        username: "alice".into(),
        last_seen: "x".into(),
        created_at: "y".into(),
    }
}

fn auth_response() -> AuthResponse {
    AuthResponse {
        token: "t-1".into(),
        refresh_token: Some("r-1".into()),
        user: user(),
    }
}

#[test]
fn urls_and_authorization() {
    let mut c = client();
    assert_eq!(c.authorization(), None);
    c.set_base("https://x.io//");
    assert_eq!(c.base_url(), "https://x.io");
    assert_eq!(c.url("/api/me"), "https://x.io/api/me");
    c.set_token(Some("abc".to_string()));
    assert_eq!(c.authorization(), Some("Bearer abc".to_string()));
    assert_eq!(c.token(), Some("abc".to_string()));
}

#[test]
fn requests_of_the_endpoints() {
    let c = client();
    let r = c.login("bob", "pw");
    assert_eq!((r.method, r.path.as_str()), (Method::Post, "/api/auth/login"));
    assert_eq!(members(&r), vec![pair("username", "bob"), pair("password", "pw")]);
    assert!(r.refreshable);
    let r = c.refresh("rt");
    assert_eq!(r.path, "/api/auth/refresh");
    assert_eq!(members(&r), vec![pair("refreshToken", "rt")]);
    assert!(!r.refreshable);
    let r = c.create_channel("s 1", "general", ChannelKind::Voice);
    assert_eq!(r.path, "/api/servers/s+1/channels");
    assert_eq!(members(&r), vec![pair("name", "general"), pair("kind", "voice")]);
    let r = c.list_messages("ch/ü", 50);
    assert_eq!((r.method, r.path.as_str()), (Method::Get, "/api/channels/ch%2F%C3%BC/messages?limit=50"));
    assert!(matches!(r.body, Body::Empty));
    let r = c.delete_server("s");
    assert_eq!((r.method, r.path.as_str()), (Method::Delete, "/api/servers/s?confirm=true"));
    let r = c.update_server("s", None);
    assert_eq!(members(&r), vec![("name".to_string(), None)]);
    let r = c.kick_member("s", "u");
    assert_eq!(r.path, "/api/servers/s/members/u");
    let r = c.ban_member("s", "u", Some("spam"));
    assert_eq!(members(&r), vec![pair("userId", "u"), pair("reason", "spam")]);
    let r = c.report("user", "u", None);
    assert_eq!(
        members(&r),
        vec![pair("targetType", "user"), pair("targetId", "u"), ("reason".to_string(), None)]
    );
    let r = c.toggle_reaction("m", "👍");
    assert_eq!((r.method, r.path.as_str()), (Method::Put, "/api/messages/m/reactions/%F0%9F%91%8D"));
    let r = c.get_reactions("c", &["a", "b"]);
    assert_eq!(r.path, "/api/channels/c/messages/reactions?messageIds=a%2Cb");
    let r = c.get_reactions("c", &[]);
    assert_eq!(r.path, "/api/channels/c/messages/reactions?messageIds=");
    let r = c.change_password("a", "b");
    assert_eq!((r.method, r.path.as_str()), (Method::Put, "/api/me/password"));
    assert_eq!(members(&r), vec![pair("currentPassword", "a"), pair("newPassword", "b")]);
}

#[test]
fn uploads_are_sent_as_bytes() {
    let r = client().upload_attachment("a b.png", vec![1, 2], "image/png");
    assert_eq!((r.method, r.path.as_str()), (Method::Put, "/api/uploads?filename=a+b.png"));
    assert!(!r.refreshable);
    match r.body {
        Body::Bytes { bytes, content_type } => {
            assert_eq!(bytes, vec![1, 2]);
            assert_eq!(content_type, "image/png");
        }
        _ => panic!("no bytes"),
    }
}

#[test]
fn errors_have_words() {
    let e = ApiError { status: 403, code: "forbidden".into() };
    assert_eq!(e.code(), "forbidden");
    assert_eq!(e.message(), "forbidden (http 403)");
    let e = network_error("timeout");
    assert_eq!((e.status, e.code()), (0, "network_error: timeout"));
    let e = deserialize_error(200, "eof");
    assert_eq!((e.status, e.code()), (200, "deserialize: eof"));
}

#[test]
fn answers_are_read() {
    assert!(check_response(200, b"null").is_ok());
    assert!(check_response(299, b"not json").is_ok());
    let e = check_response(404, b"{\"error\":\"not_found\"}").unwrap_err();
    assert_eq!((e.status, e.code()), (404, "not_found"));
    let e = check_response(500, b"<html>").unwrap_err();
    assert_eq!(e.code(), "http_500");
    let e = check_response(300, b"{\"error\":7}").unwrap_err();
    assert_eq!(e.code(), "http_300");
    assert!(status_result(204, None).is_ok());
    assert_eq!(status_result(199, Some("x".into())).unwrap_err().code(), "x");
    assert_eq!(invite_code(b"{\"inviteCode\":\"abc\"}"), "abc");
    assert_eq!(invite_code(b"{}"), "");
    assert_eq!(upload_url(b"{\"url\":\"/u/1\"}"), "/u/1");
    assert_eq!(text_or_default(None), "");
}

#[test]
fn refused_token_is_refreshed_once() {
    let request = client().me();
    let call = ApiCall::start(&request);
    let (call, action) = call.step(CallEvent::Answer { status: 401, body: b"{}".to_vec() });
    assert!(matches!(action, CallAction::Refresh));
    let (call, action) = call.step(CallEvent::Refreshed { ok: true });
    assert!(matches!(action, CallAction::Send));
    let (call, action) = call.step(CallEvent::Answer { status: 401, body: b"{\"error\":\"no\"}".to_vec() });
    match action {
        CallAction::Done { result: Err(e) } => assert_eq!((e.status, e.code()), (401, "no")),
        _ => panic!("must end"),
    }
    let (_, action) = call.step(CallEvent::Refreshed { ok: true });
    assert!(matches!(action, CallAction::Wait));
}

#[test]
fn failed_refresh_gives_the_first_answer() {
    let call = ApiCall::start(&client().me());
    let (call, _) = call.step(CallEvent::Answer { status: 401, body: b"{\"error\":\"expired\"}".to_vec() });
    let (_, action) = call.step(CallEvent::Refreshed { ok: false });
    match action {
        CallAction::Done { result: Err(e) } => assert_eq!(e.code(), "expired"),
        _ => panic!("must end"),
    }
}

#[test]
fn refresh_itself_is_not_refreshed() {
    let call = ApiCall::start(&client().refresh("rt"));
    let (_, action) = call.step(CallEvent::Answer { status: 401, body: Vec::new() });
    match action {
        CallAction::Done { result: Err(e) } => assert_eq!(e.code(), "http_401"),
        _ => panic!("must end"),
    }
    let call = ApiCall::start(&client().me());
    let (_, action) = call.step(CallEvent::Failed { reason: "down".into() });
    match action {
        CallAction::Done { result: Err(e) } => assert_eq!(e.code(), "network_error: down"),
        _ => panic!("must end"),
    }
    let call = ApiCall::start(&client().me());
    let (_, action) = call.step(CallEvent::Answer { status: 200, body: b"[]".to_vec() });
    match action {
        CallAction::Done { result: Ok(answer) } => assert_eq!(answer, (200, b"[]".to_vec())),
        _ => panic!("must end"),
    }
}

#[test]
fn settings_have_defaults() {
    let mut s = Settings::load(None);
    assert_eq!(s.backend_url(), DEFAULT_BACKEND_URL);
    assert_eq!(s.backend_url(), "http://localhost:8787");
    assert!(s.token().is_none() && s.refresh_token().is_none());
    assert!(s.suppressor_model().is_none() && s.aec_enabled().is_none());
    assert!(s.to_save().is_none());
    s.set_backend_url("https://x.io/");
    s.set_suppressor_model("ns-only".into());
    s.set_aec_enabled(false);
    let saved = s.to_save().unwrap();
    assert!(s.to_save().is_none());
    let s = Settings::load(Some(saved));
    assert_eq!(s.backend_url(), "https://x.io");
    assert_eq!(s.suppressor_model(), Some("ns-only".to_string()));
    assert_eq!(s.aec_enabled(), Some(false));
}

#[test]
fn login_survives_a_restart() {
    let (mut auth, check) = AuthService::new(client(), Settings::load(None));
    assert!(!check);
    assert_eq!(auth.api.base_url(), "http://localhost:8787");
    let request = auth.login("alice", "pw");
    assert_eq!(request.path, "/api/auth/login");
    assert!(auth.busy);
    let event = auth.authenticate(Ok(auth_response()));
    assert!(matches!(event, Some(CoreEvent::Authenticated { .. })));
    assert!(!auth.busy);
    assert_eq!(auth.api.token(), Some("t-1".to_string()));
    let saved = auth.settings.to_save().unwrap();
    let (auth, check) = AuthService::new(client(), Settings::load(Some(saved)));
    assert!(check);
    assert_eq!(auth.api.token(), Some("t-1".to_string()));
    assert_eq!(auth.refresh_token, Some("r-1".to_string()));
}

#[test]
fn failed_login_shows_its_code() {
    let (mut auth, _) = AuthService::new(client(), Settings::load(None));
    auth.register("alice", "pw");
    assert!(auth.authenticate(Err(network_error("down"))).is_none());
    assert_eq!(auth.error, Some("network_error".to_string()));
    auth.login("alice", "pw");
    assert!(auth.error.is_none());
    auth.authenticate(Err(ApiError { status: 401, code: "bad_credentials".into() }));
    assert_eq!(auth.error, Some("bad_credentials".to_string()));
    assert!(auth.user.is_none() && auth.api.token().is_none());
}

#[test]
fn refresh_rotates_or_ends_the_session() {
    let (mut auth, _) = AuthService::new(client(), Settings::load(None));
    auth.authenticate(Ok(auth_response()));
    match auth.try_refresh() {
        RefreshStep::Ask(q) => assert_eq!(members(&q), vec![pair("refreshToken", "r-1")]),
        RefreshStep::Over(_) => panic!("must ask"),
    }
    let event = auth.refreshed(Ok(RefreshResponse { token: "t-2".into(), refresh_token: "r-2".into() }));
    assert!(event.is_none());
    assert_eq!(auth.settings.refresh_token(), Some("r-2".to_string()));
    assert_eq!(auth.api.token(), Some("t-2".to_string()));
    let event = auth.refreshed(Err(network_error("down")));
    assert!(matches!(event, Some(CoreEvent::LoggedOut)));
    assert!(auth.api.token().is_none() && auth.user.is_none());
    assert!(auth.settings.token().is_none() && auth.settings.refresh_token().is_none());
    assert!(matches!(auth.try_refresh(), RefreshStep::Over(CoreEvent::LoggedOut)));
}

#[test]
fn logout_revokes_the_refresh_token() {
    let (mut auth, _) = AuthService::new(client(), Settings::load(None));
    assert!(auth.logout().is_none());
    auth.authenticate(Ok(auth_response()));
    let q = auth.logout().unwrap();
    assert_eq!(q.path, "/api/auth/logout");
    assert_eq!(members(&q), vec![pair("refreshToken", "r-1")]);
    assert!(matches!(auth.clear_session(), CoreEvent::LoggedOut));
    assert!(auth.logout().is_none());
}

#[test]
fn session_check_outcomes() {
    let (mut auth, _) = AuthService::new(client(), Settings::load(None));
    auth.restore_from_deeplink("t-9".into(), None);
    assert_eq!(auth.settings.token(), Some("t-9".to_string()));
    assert!(auth.refresh_token.is_none());
    auth.restore_from_deeplink("t-9".into(), Some("r-9".into()));
    assert_eq!(auth.refresh_token, Some("r-9".to_string()));
    let event = auth.refresh_me(Ok(MeResponse { user: user() }));
    assert!(matches!(event, CoreEvent::Authenticated { .. }));
    assert_eq!(auth.user.as_ref().unwrap().id, "u-1");
    let event = auth.refresh_me(Err(ApiError { status: 401, code: "expired".into() }));
    assert!(matches!(event, CoreEvent::LoggedOut));
    assert!(auth.error.is_none() && auth.user.is_none());
    auth.refresh_me(Err(ApiError { status: 500, code: "http_500".into() }));
    assert_eq!(auth.error, Some("http_500".to_string()));
}

#[test]
fn backend_url_is_trimmed() {
    let data = SettingsData { backend_url: Some("https://a.io/".into()), ..SettingsData::default() };
    let (mut auth, _) = AuthService::new(client(), Settings::load(Some(data)));
    assert_eq!(auth.api.base_url(), "https://a.io");
    assert_eq!(auth.backend_url(), "https://a.io/");
    auth.set_error(Some("x".into()));
    auth.set_backend_url(" \u{a0}https://b.io//\t\n");
    assert_eq!(auth.api.base_url(), "https://b.io");
    assert_eq!(auth.backend_url(), "https://b.io");
    assert!(auth.error.is_none());
}
