use mcp_rust::archery_client::ArcherySession;
use mcp_rust::archery_login::{HttpOutcome, LoginAction, LoginFlow, LoginPhase};
use mcp_rust::archery_session::{
    session_after_validation, session_first_step, SessionCache, SessionStep, SESSION_TTL_MS,
};
use mcp_rust::json::{Json, JsonMember, JsonNumber, JsonValue};
use mcp_rust::tool_args::{
    optional_str_arg, required_str_arg, resolve_archery_client, resolve_credentials, u64_arg_or,
    EnvCredentials, Service,
};
use serde_json::Value;
use std::sync::Arc;

fn to_json(v: &Value) -> Json {
    let text = v.to_string();
    let value = match v {
        Value::Null => JsonValue::Null,
        Value::Bool(b) => JsonValue::Bool(*b),
        Value::Number(n) => {
            if let Some(u) = n.as_u64() {
                JsonValue::Number(JsonNumber::PosInt(u))
            } else if let Some(i) = n.as_i64() {
                JsonValue::Number(JsonNumber::NegInt(i))
            } else {
                JsonValue::Number(JsonNumber::Float)
            }
        }
        Value::String(s) => JsonValue::Str(s.clone()),
        Value::Array(a) => JsonValue::Array(a.iter().map(to_json).collect()),
        Value::Object(m) => JsonValue::Object(
            m.iter()
                .map(|(k, v)| JsonMember { key: k.clone(), value: to_json(v) })
                .collect(),
        ),
    };
    Json { value, text }
}

fn j(s: &str) -> Json {
    to_json(&serde_json::from_str(s).unwrap())
}

fn session(base: &str, token: &str) -> ArcherySession {
    ArcherySession {
        base_url: base.to_string(),
        client: reqwest::Client::new(),
        jar: Arc::new(reqwest::cookie::Jar::default()),
        csrf_token: token.to_string(),
    }
}

#[test]
fn cached_session_read_after_write() {
    let mut cache = SessionCache::new();
    assert!(cache.lookup("http://a", "u", 0).is_none());
    cache.store("http://a", "u", session("http://a", "t1"), 1000);
    assert_eq!(cache.lookup("http://a", "u", 1000).unwrap().csrf_token, "t1");
    assert_eq!(cache.lookup("http://a", "u", 1000 + SESSION_TTL_MS - 1).unwrap().csrf_token, "t1");
    assert!(cache.lookup("http://a", "u", 1000 + SESSION_TTL_MS).is_none());
    assert!(cache.lookup("http://a", "v", 1000).is_none());
    cache.store("http://b", "u", session("http://b", "t2"), 2000);
    cache.store("http://a", "u", session("http://a", "t3"), 3000);
    assert_eq!(cache.entries.len(), 2);
    assert_eq!(cache.lookup("http://a", "u", 3000).unwrap().csrf_token, "t3");
    assert_eq!(cache.lookup("http://b", "u", 3000).unwrap().csrf_token, "t2");
}

#[test]
fn cached_session_decisions() {
    assert!(matches!(session_first_step(true), SessionStep::ValidateCached));
    assert!(matches!(session_first_step(false), SessionStep::Login));
    let ok = HttpOutcome::Received { status: 200, status_text: "200 OK".to_string() };
    assert!(matches!(session_after_validation(&ok), SessionStep::UseCached));
    let forbidden = HttpOutcome::Received { status: 403, status_text: "403 Forbidden".to_string() };
    assert!(matches!(session_after_validation(&forbidden), SessionStep::Login));
    let failed = HttpOutcome::SendFailed("timeout".to_string());
    assert!(matches!(session_after_validation(&failed), SessionStep::Login));
}

#[test]
fn login_flow_with_cookie_token() {
    let mut f = LoginFlow::new("http://arch/", "alice", "pw", 15000);
    match f.begin() {
        LoginAction::BuildClient { timeout_ms, user_agent } => {
            assert_eq!(timeout_ms, 15000);
            assert!(user_agent.starts_with("Mozilla/5.0"));
        }
        _ => panic!("expected client"),
    }
    match f.client_built(None) {
        LoginAction::FetchLoginPage { url } => assert_eq!(url, "http://arch/login/"),
        _ => panic!("expected fetch"),
    }
    match f.login_page_fetched(HttpOutcome::Received { status: 200, status_text: "200 OK".into() }) {
        LoginAction::ReadLoginCookies { url } => assert_eq!(url, "http://arch"),
        _ => panic!("expected cookies"),
    }
    match f.login_cookies_read(Ok(Some("csrftoken=T0K; x=y".to_string()))) {
        LoginAction::PostCredentials { url, csrf_token, referer, form } => {
            assert_eq!(url, "http://arch/authenticate/");
            assert_eq!(csrf_token, "T0K");
            assert_eq!(referer, "http://arch/login/");
            assert_eq!(form, vec![("username".to_string(), "alice".to_string()), ("password".to_string(), "pw".to_string())]);
        }
        _ => panic!("expected post"),
    }
    assert!(matches!(
        f.auth_sent(HttpOutcome::Received { status: 200, status_text: "200 OK".into() }),
        LoginAction::ReadAuthBody
    ));
    let body = r#"{"status":0,"msg":"ok"}"#.to_string();
    match f.auth_body_read(Ok((body.clone(), Ok(j(&body))))) {
        LoginAction::ReadSessionCookies { url } => assert_eq!(url, "http://arch"),
        _ => panic!("expected session cookies"),
    }
    match f.session_cookies_read(Some("csrftoken=T0K; sessionid=S".to_string())) {
        LoginAction::Finish { base_url, csrf_token } => {
            assert_eq!(base_url, "http://arch");
            assert_eq!(csrf_token, "T0K");
        }
        _ => panic!("expected finish"),
    }
    assert!(matches!(f.phase, LoginPhase::Done));
}

#[test]
fn login_flow_with_body_token_and_failures() {
    let mut f = LoginFlow::new("http://arch", "a", "b", 1);
    f.begin();
    f.client_built(None);
    f.login_page_fetched(HttpOutcome::Received { status: 204, status_text: "204 No Content".into() });
    assert!(matches!(f.login_cookies_read(Ok(None)), LoginAction::ReadLoginBody));
    match f.login_body_read("<input name=\"csrfmiddlewaretoken\" value=\"B0DY\">") {
        LoginAction::PostCredentials { csrf_token, .. } => assert_eq!(csrf_token, "B0DY"),
        _ => panic!("expected post"),
    }
    match f.auth_sent(HttpOutcome::Received { status: 302, status_text: "302 Found".into() }) {
        LoginAction::Fail { message } => assert_eq!(message, "POST /authenticate/ returned HTTP 302 Found"),
        _ => panic!("expected failure"),
    }

    let mut g = LoginFlow::new("http://arch", "a", "b", 1);
    g.begin();
    match g.client_built(Some("no tls".into())) {
        LoginAction::Fail { message } => assert_eq!(message, "Failed to create HTTP client: no tls"),
        _ => panic!("expected failure"),
    }

    let mut h = LoginFlow::new("http://arch", "a", "b", 1);
    h.begin();
    h.client_built(None);
    match h.login_page_fetched(HttpOutcome::SendFailed("refused".into())) {
        LoginAction::Fail { message } => assert_eq!(message, "GET /login/ request failed: refused"),
        _ => panic!("expected failure"),
    }

    let mut k = LoginFlow::new("http://arch", "a", "b", 1);
    k.begin();
    k.client_built(None);
    k.login_page_fetched(HttpOutcome::Received { status: 200, status_text: "200 OK".into() });
    k.login_cookies_read(Ok(Some("csrftoken=".into())));
    match k.login_body_read("nothing") {
        LoginAction::Fail { message } => assert_eq!(message, "csrftoken not found in cookies or HTML response"),
        _ => panic!("expected failure"),
    }
}

#[test]
fn login_flow_auth_reply_failures() {
    let start = |f: &mut LoginFlow| {
        f.begin();
        f.client_built(None);
        f.login_page_fetched(HttpOutcome::Received { status: 200, status_text: "200 OK".into() });
        f.login_cookies_read(Ok(Some("csrftoken=t".into())));
        f.auth_sent(HttpOutcome::Received { status: 200, status_text: "200 OK".into() });
    };
    let mut f = LoginFlow::new("http://arch", "a", "b", 1);
    start(&mut f);
    let body = r#"{"status":1,"msg":"bad password"}"#.to_string();
    match f.auth_body_read(Ok((body.clone(), Ok(j(&body))))) {
        LoginAction::Fail { message } => assert_eq!(message, "Authentication failed (status 1): bad password"),
        _ => panic!("expected failure"),
    }
    let mut g = LoginFlow::new("http://arch", "a", "b", 1);
    start(&mut g);
    match g.auth_body_read(Ok(("<html>".to_string(), Err("expected value".to_string())))) {
        LoginAction::Fail { message } => {
            assert_eq!(message, "Failed to parse JSON from /authenticate/: expected value (body: <html>)")
        }
        _ => panic!("expected failure"),
    }
    let mut h = LoginFlow::new("http://arch", "a", "b", 1);
    start(&mut h);
    let body = r#"{"msg":"?"}"#.to_string();
    match h.auth_body_read(Ok((body.clone(), Ok(j(&body))))) {
        LoginAction::Fail { message } => assert_eq!(message, "Authentication failed (status -1): ?"),
        _ => panic!("expected failure"),
    }
    let mut k = LoginFlow::new("http://arch", "a", "b", 1);
    start(&mut k);
    let body = r#"{"status":0}"#.to_string();
    k.auth_body_read(Ok((body.clone(), Ok(j(&body)))));
    match k.session_cookies_read(Some("csrftoken=t".into())) {
        LoginAction::Fail { message } => {
            assert_eq!(message, "Login succeeded but sessionid cookie was not set in client jar")
        }
        _ => panic!("expected failure"),
    }
}

fn env(url: &str, user: &str, pass: &str) -> EnvCredentials {
    EnvCredentials { url: url.into(), username: user.into(), password: pass.into() }
}

#[test]
fn credentials_from_call_or_environment() {
    let c = resolve_credentials(&j(r#"{"url":"http://x","username":""}"#), &env("http://env", "eu", "ep"), Service::Archery).unwrap();
    assert_eq!(c.url, "http://x");
    assert_eq!(c.username, "eu");
    assert_eq!(c.password, "ep");
    match resolve_credentials(&j("{}"), &env("", "", "p"), Service::Archery) {
        Err(e) => assert_eq!(
            e,
            "缺少必要参数: url, username。请传入参数或在 .env 文件中配置 ARCHERY_URL / ARCHERY_USERNAME / ARCHERY_PASSWORD"
        ),
        Ok(_) => panic!("expected error"),
    }
    match resolve_credentials(&j(r#"{"password":5}"#), &env("", "u", ""), Service::Graylog) {
        Err(e) => assert_eq!(
            e,
            "缺少必要参数: url, password。请传入参数或在 .env 文件中配置 GRAYLOG_URL / GRAYLOG_USERNAME / GRAYLOG_PASSWORD"
        ),
        Ok(_) => panic!("expected error"),
    }
}

#[test]
fn tool_arguments() {
    let args = j(r#"{"instance":"i","limit":5,"neg":-1,"url":"http://a/","username":"u","password":"p"}"#);
    assert_eq!(required_str_arg(&args, "instance"), Ok("i".to_string()));
    assert_eq!(required_str_arg(&args, "sql"), Err("缺少必要参数: sql".to_string()));
    assert_eq!(optional_str_arg(&args, "database"), None);
    assert_eq!(u64_arg_or(&args, "limit", 100), 5);
    assert_eq!(u64_arg_or(&args, "neg", 100), 100);
    assert_eq!(u64_arg_or(&args, "missing", 60000), 60000);
    let c = resolve_archery_client(&args, &env("", "", "")).unwrap();
    assert_eq!(c.url, "http://a");
    assert_eq!(c.login_timeout_ms, 15000);
}
