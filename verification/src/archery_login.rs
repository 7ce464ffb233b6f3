//! Logging in to Archery: the CSRF token, cookies, the authentication reply,
//! the order of the login requests, and the cache of live sessions.

use vstd::prelude::*;
use crate::archery_client::{ArcherySession, form_view, trim_trailing, trim_trailing_char};
use crate::archery_format::is_success_status;
use crate::json::{Json, deref_opt};
use crate::query_result::{opt_as_i64, opt_as_str, opt_i64, opt_str};
use crate::text::{
    chars_of, find, find_char_from, find_chars_from, find_from, push_signed_decimal, push_str,
    signed_decimal, split_on, split_string, string_from_chars, string_of, trim, views,
};
use crate::archery_format::trim_string;
use crate::json::str_eq;

verus! {

// ---------------------------------------------------------------------------
// CSRF token in the login page
// ---------------------------------------------------------------------------

/// The CSRF token of a login page: after the first `csrfmiddlewaretoken`, the
/// first `value=`, then a quote (`"` or `'`) and the text up to the next
/// same quote.
pub open spec fn csrf_token_in(html: Seq<char>) -> Option<Seq<char>> {
    match find(html, "csrfmiddlewaretoken"@) {
        None => None,
        Some(p) => match find_from(html, "value="@, p) {
            None => None,
            Some(v) => if v + 6 < html.len() && (html[v + 6] == '"' || html[v + 6] == '\'') {
                match find_from(html, seq![html[v + 6]], v + 7) {
                    Some(e) => Some(html.subrange(v + 7, e)),
                    None => None,
                }
            } else {
                None
            },
        },
    }
}

/// Reads the CSRF token out of the login page's HTML.
pub fn extract_csrf_token(html: &str) -> (r: Option<String>)
    ensures
        match r {
            Some(t) => csrf_token_in(html@) == Some(t@),
            None => csrf_token_in(html@) is None,
        },
{
    let cs = chars_of(html);
    let marker = chars_of("csrfmiddlewaretoken");
    let value_key = chars_of("value=");
    let p = match find_chars_from(cs.as_slice(), marker.as_slice(), 0) {
        Some(p) => p,
        None => {
            return None;
        },
    };
    let v = match find_chars_from(cs.as_slice(), value_key.as_slice(), p) {
        Some(v) => v,
        None => {
            return None;
        },
    };
    proof {
        reveal_strlit("value=");
        assert(find_from(cs@, value_key@, p as int) == Some(v as int));
        lemma_find_from_bounds(cs@, value_key@, p as int);
    }
    if v + 6 >= cs.len() {
        return None;
    }
    let quote = cs[v + 6];
    if quote != '"' && quote != '\'' {
        return None;
    }
    match find_char_from(cs.as_slice(), quote, v + 7) {
        Some(e) => {
            proof {
                lemma_find_from_bounds(cs@, seq![quote], (v + 7) as int);
            }
            Some(string_from_chars(cs.as_slice(), v + 7, e))
        },
        None => None,
    }
}

/// Where `find_from` finds something, it lies at or after the start, inside `s`.
pub proof fn lemma_find_from_bounds(s: Seq<char>, p: Seq<char>, i: int)
    ensures
        find_from(s, p, i) matches Some(k) ==> i <= k && k + p.len() <= s.len(),
    decreases s.len() + 1 - i,
{
    if !(i < 0 || i + p.len() > s.len()) && !(0 <= i && i + p.len() <= s.len() && s.subrange(
        i,
        i + p.len(),
    ) == p) {
        lemma_find_from_bounds(s, p, i + 1);
    }
}

// ---------------------------------------------------------------------------
// Cookies
// ---------------------------------------------------------------------------

/// A `name=value` cookie, both sides trimmed; `None` unless there is exactly one `=`.
pub open spec fn cookie_pair(part: Seq<char>) -> Option<(Seq<char>, Seq<char>)> {
    let ps = split_on(part, '=');
    if ps.len() == 2 {
        Some((trim(ps[0]), trim(ps[1])))
    } else {
        None
    }
}

/// The value of the first of `parts` that is the cookie `name`.
pub open spec fn cookie_in(parts: Seq<Seq<char>>, name: Seq<char>) -> Option<Seq<char>>
    decreases parts.len(),
{
    if parts.len() == 0 {
        None
    } else {
        match cookie_pair(parts[0]) {
            Some((k, v)) => if k == name {
                Some(v)
            } else {
                cookie_in(parts.drop_first(), name)
            },
            None => cookie_in(parts.drop_first(), name),
        }
    }
}

/// The value of the cookie `name` in a `Cookie` header (`a=1; b=2`).
pub open spec fn cookie_value_in(header: Seq<char>, name: Seq<char>) -> Option<Seq<char>> {
    cookie_in(split_on(header, ';'), name)
}

/// Reads the cookie `name` out of a `Cookie` header.
pub fn cookie_value(header: &str, name: &str) -> (r: Option<String>)
    ensures
        match r {
            Some(v) => cookie_value_in(header@, name@) == Some(v@),
            None => cookie_value_in(header@, name@) is None,
        },
{
    let parts = split_string(header, ';');
    let ghost pv = views(parts@);
    let mut i: usize = 0;
    assert(pv.skip(0) =~= pv);
    while i < parts.len()
        invariant
            i <= parts@.len(),
            pv == views(parts@),
            cookie_value_in(header@, name@) == cookie_in(pv.skip(i as int), name@),
        decreases parts.len() - i,
    {
        assert(pv.skip(i as int)[0] == parts@[i as int]@);
        assert(pv.skip(i as int).drop_first() =~= pv.skip(i + 1));
        let kv = split_string(parts[i].as_str(), '=');
        if kv.len() == 2 {
            let k = trim_string(kv[0].as_str());
            if str_eq(k.as_str(), name) {
                return Some(trim_string(kv[1].as_str()));
            }
        }
        i = i + 1;
    }
    None
}

// ---------------------------------------------------------------------------
// The authentication reply
// ---------------------------------------------------------------------------

/// What the `/authenticate/` reply says: `Ok` when its `status` is 0, else
/// the failure with its status (-1 when missing) and message.
pub open spec fn auth_outcome(j: Json) -> Result<(), Seq<char>> {
    let status = match opt_i64(j.field("status"@)) {
        Some(s) => s,
        None => -1i64,
    };
    if status != 0 {
        Err(
            "Authentication failed (status "@ + signed_decimal(status as int) + "): "@ + match opt_str(
                j.field("msg"@),
            ) {
                Some(m) => m,
                None => "Unknown authentication error"@,
            },
        )
    } else {
        Ok(())
    }
}

/// Checks the `/authenticate/` reply.
pub fn check_auth_reply(j: &Json) -> (r: Result<(), String>)
    ensures
        match r {
            Ok(()) => auth_outcome(*j) is Ok,
            Err(e) => auth_outcome(*j) == Err::<(), Seq<char>>(e@),
        },
{
    let status = match opt_as_i64(j.get("status")) {
        Some(s) => s,
        None => -1i64,
    };
    if status != 0 {
        let mut e = string_of("Authentication failed (status ");
        push_signed_decimal(&mut e, status);
        push_str(&mut e, "): ");
        match opt_as_str(j.get("msg")) {
            Some(m) => push_str(&mut e, m),
            None => push_str(&mut e, "Unknown authentication error"),
        }
        Err(e)
    } else {
        Ok(())
    }
}

// ---------------------------------------------------------------------------
// The order of the login requests
// ---------------------------------------------------------------------------

/// What came of sending an HTTP request.
pub enum HttpOutcome {
    /// The request could not be sent; the error's text.
    SendFailed(String),
    /// A reply with its status code and status text (`404 Not Found`).
    Received { status: u16, status_text: String },
}

/// The next thing to do to log in.
pub enum LoginAction {
    /// Build an HTTP client with a cookie jar, this timeout and this user agent.
    BuildClient { timeout_ms: u64, user_agent: String },
    /// `GET` the login page.
    FetchLoginPage { url: String },
    /// Read the `Cookie` header the jar holds for this URL.
    ReadLoginCookies { url: String },
    /// Read the login page's body.
    ReadLoginBody,
    /// `POST` the credentials.
    PostCredentials { url: String, csrf_token: String, referer: String, form: Vec<(String, String)> },
    /// Read the authentication reply's body.
    ReadAuthBody,
    /// Read the `Cookie` header the jar now holds.
    ReadSessionCookies { url: String },
    /// Logged in.
    Finish { base_url: String, csrf_token: String },
    /// Logging in failed.
    Fail { message: String },
}

/// Where a login stands.
pub enum LoginPhase {
    Start,
    BuildingClient,
    FetchingLoginPage,
    ReadingLoginCookies,
    ReadingLoginBody,
    Authenticating,
    ReadingAuthBody,
    ReadingSessionCookies,
    Done,
}

/// A login in progress.
pub struct LoginFlow {
    pub base_url: String,
    pub username: String,
    pub password: String,
    pub timeout_ms: u64,
    pub csrf_token: String,
    pub phase: LoginPhase,
    /// What the steps have been told so far, in order.
    pub events: Ghost<Seq<LoginEvent>>,
}

/// What a login step is told: the outside result it is handed.
pub enum LoginEvent {
    /// The client was built, or not.
    ClientBuilt { failed: bool },
    LoginPageFetched(HttpOutcome),
    LoginCookiesRead(Result<Option<String>, String>),
    LoginBodyRead(Ghost<Seq<char>>),
    AuthSent(HttpOutcome),
    AuthBodyRead(Result<(String, Result<Json, String>), String>),
    SessionCookiesRead(Option<String>),
}

/// The HTTP client was built.
pub open spec fn client_ok(e: LoginEvent) -> bool {
    e == (LoginEvent::ClientBuilt { failed: false })
}

/// The login page was answered with a 2xx status.
pub open spec fn page_ok(e: LoginEvent) -> bool {
    match e {
        LoginEvent::LoginPageFetched(HttpOutcome::Received { status, .. }) => is_success_status(status),
        _ => false,
    }
}

/// The jar's cookies were read (the URL parsed).
pub open spec fn cookies_read(e: LoginEvent) -> bool {
    e matches LoginEvent::LoginCookiesRead(Ok(_))
}

/// The non-empty `csrftoken` cookie the jar holds.
pub open spec fn cookie_token(e: LoginEvent) -> Option<Seq<char>> {
    match e {
        LoginEvent::LoginCookiesRead(Ok(Some(h))) => match cookie_value_in(h@, "csrftoken"@) {
            Some(t) => if t.len() > 0 {
                Some(t)
            } else {
                None
            },
            None => None,
        },
        _ => None,
    }
}

/// The CSRF token of the login page's body.
pub open spec fn body_token(e: LoginEvent) -> Option<Seq<char>> {
    match e {
        LoginEvent::LoginBodyRead(b) => csrf_token_in(b@),
        _ => None,
    }
}

/// The credentials were answered with a 2xx status.
pub open spec fn auth_ok(e: LoginEvent) -> bool {
    match e {
        LoginEvent::AuthSent(HttpOutcome::Received { status, .. }) => is_success_status(status),
        _ => false,
    }
}

/// The authentication reply is JSON whose `status` is 0.
pub open spec fn auth_reply_ok(e: LoginEvent) -> bool {
    match e {
        LoginEvent::AuthBodyRead(Ok((_, Ok(j)))) => auth_outcome(j) is Ok,
        _ => false,
    }
}

/// The jar then holds a `sessionid` cookie.
pub open spec fn session_cookie_set(e: LoginEvent) -> bool {
    match e {
        LoginEvent::SessionCookiesRead(Some(h)) => cookie_value_in(h@, "sessionid"@) is Some,
        _ => false,
    }
}

/// The client was built and the login page requested.
pub open spec fn page_requested(ev: Seq<LoginEvent>) -> bool {
    ev.len() == 1 && client_ok(ev[0])
}

/// ... and the login page was answered with a 2xx status.
pub open spec fn page_answered(ev: Seq<LoginEvent>) -> bool {
    ev.len() == 2 && client_ok(ev[0]) && page_ok(ev[1])
}

/// ... and the jar's cookies were read but hold no non-empty `csrftoken`.
pub open spec fn no_cookie_token(ev: Seq<LoginEvent>) -> bool {
    ev.len() == 3 && page_answered(ev.take(2)) && cookies_read(ev[2]) && cookie_token(ev[2]) is None
}

/// ... and a CSRF token was found: in the cookies, else in the login page.
pub open spec fn token_found(ev: Seq<LoginEvent>) -> bool {
    ||| (ev.len() == 3 && page_answered(ev.take(2)) && cookie_token(ev[2]) is Some)
    ||| (ev.len() == 4 && no_cookie_token(ev.take(3)) && body_token(ev[3]) is Some)
}

/// ... and the credentials were answered with a 2xx status.
pub open spec fn credentials_answered(ev: Seq<LoginEvent>) -> bool {
    ev.len() > 0 && token_found(ev.drop_last()) && auth_ok(ev.last())
}

/// ... and the authentication reply is JSON whose `status` is 0.
pub open spec fn credentials_accepted(ev: Seq<LoginEvent>) -> bool {
    ev.len() > 0 && credentials_answered(ev.drop_last()) && auth_reply_ok(ev.last())
}

/// A login succeeds exactly when the client is built, the login page is
/// answered with a 2xx status, the URL parses, a CSRF token is found (in a
/// cookie, else in the page), the credentials are answered with a 2xx status
/// and a JSON reply whose `status` is 0, and the jar then holds a
/// `sessionid` cookie.
pub open spec fn login_succeeds(ev: Seq<LoginEvent>) -> bool {
    ev.len() > 0 && credentials_accepted(ev.drop_last()) && session_cookie_set(ev.last())
}

/// The browser a login presents itself as.
pub open spec fn login_user_agent() -> Seq<char> {
    "Mozilla/5.0 (Macintosh; Intel Mac OS X 10_15_7) AppleWebKit/537.36 (KHTML, like Gecko) Chrome/120.0.0.0 Safari/537.36"@
}

/// The login page of an Archery.
pub open spec fn login_url(base: Seq<char>) -> Seq<char> {
    base + "/login/"@
}

/// The authentication endpoint of an Archery.
pub open spec fn authenticate_url(base: Seq<char>) -> Seq<char> {
    base + "/authenticate/"@
}

/// The credentials form.
pub open spec fn credentials_form(username: Seq<char>, password: Seq<char>) -> Seq<
    (Seq<char>, Seq<char>),
> {
    seq![("username"@, username), ("password"@, password)]
}

/// The action is a failure with this message.
pub open spec fn fails_with(a: LoginAction, m: Seq<char>) -> bool {
    a matches LoginAction::Fail { message } && message@ == m
}

/// The action posts the credentials of `f` with its token.
pub open spec fn posts_credentials(f: LoginFlow, a: LoginAction) -> bool {
    a matches LoginAction::PostCredentials { url, csrf_token, referer, form } && {
        &&& url@ == authenticate_url(f.base_url@)
        &&& csrf_token@ == f.csrf_token@
        &&& referer@ == login_url(f.base_url@)
        &&& form_view(form@) == credentials_form(f.username@, f.password@)
    }
}

/// The two flows are the same login, perhaps in another phase or with another token.
pub open spec fn same_login(a: LoginFlow, b: LoginFlow) -> bool {
    &&& a.base_url == b.base_url
    &&& a.username == b.username
    &&& a.password == b.password
    &&& a.timeout_ms == b.timeout_ms
}

impl LoginFlow {
    /// The phase agrees with what the steps were told: each phase is reached
    /// only by the results that lead to it.
    pub open spec fn wf(&self) -> bool {
        let ev = self.events@;
        match self.phase {
            LoginPhase::Start => ev.len() == 0,
            LoginPhase::BuildingClient => ev.len() == 0,
            LoginPhase::FetchingLoginPage => page_requested(ev),
            LoginPhase::ReadingLoginCookies => page_answered(ev),
            LoginPhase::ReadingLoginBody => no_cookie_token(ev),
            LoginPhase::Authenticating => token_found(ev),
            LoginPhase::ReadingAuthBody => credentials_answered(ev),
            LoginPhase::ReadingSessionCookies => credentials_accepted(ev),
            LoginPhase::Done => true,
        }
    }

    /// A login to the Archery at `base_url` (trailing slashes dropped).
    pub fn new(base_url: &str, username: &str, password: &str, timeout_ms: u64) -> (r: LoginFlow)
        ensures
            r.base_url@ == trim_trailing(base_url@, '/'),
            r.username@ == username@,
            r.password@ == password@,
            r.timeout_ms == timeout_ms,
            r.csrf_token@ == Seq::<char>::empty(),
            r.phase is Start,
            r.events@ == Seq::<LoginEvent>::empty(),
            r.wf(),
    {
        LoginFlow {
            base_url: trim_trailing_char(base_url, '/'),
            username: string_of(username),
            password: string_of(password),
            timeout_ms,
            csrf_token: String::new(),
            phase: LoginPhase::Start,
            events: Ghost(Seq::empty()),
        }
    }

    fn fail(&mut self, message: String) -> (a: LoginAction)
        ensures
            same_login(*old(self), *final(self)),
            final(self).csrf_token == old(self).csrf_token,
            final(self).phase is Done,
            final(self).events == old(self).events,
            a == (LoginAction::Fail { message }),
    {
        self.phase = LoginPhase::Done;
        LoginAction::Fail { message }
    }

    /// First step: build the HTTP client.
    pub fn begin(&mut self) -> (a: LoginAction)
        requires
            old(self).phase is Start,
            old(self).wf(),
        ensures
            final(self).wf(),
            final(self).events == old(self).events,
            same_login(*old(self), *final(self)),
            final(self).csrf_token == old(self).csrf_token,
            final(self).phase is BuildingClient,
            a matches LoginAction::BuildClient { timeout_ms, user_agent } && timeout_ms
                == old(self).timeout_ms && user_agent@ == login_user_agent(),
    {
        self.phase = LoginPhase::BuildingClient;
        LoginAction::BuildClient {
            timeout_ms: self.timeout_ms,
            user_agent: string_of(
                "Mozilla/5.0 (Macintosh; Intel Mac OS X 10_15_7) AppleWebKit/537.36 (KHTML, like Gecko) Chrome/120.0.0.0 Safari/537.36",
            ),
        }
    }

    /// The client was built, or not (the error's text).
    pub fn client_built(&mut self, error: Option<String>) -> (a: LoginAction)
        requires
            old(self).phase is BuildingClient,
            old(self).wf(),
        ensures
            final(self).wf(),
            final(self).events@ == old(self).events@.push(LoginEvent::ClientBuilt { failed: error is Some }),
            final(self).phase is Done ==> ((a is Finish) <==> login_succeeds(final(self).events@)),
            same_login(*old(self), *final(self)),
            final(self).csrf_token == old(self).csrf_token,
            match error {
                Some(e) => fails_with(a, "Failed to create HTTP client: "@ + e@) && final(self).phase is Done,
                None => final(self).phase is FetchingLoginPage && (a matches LoginAction::FetchLoginPage { url }
                    && url@ == login_url(old(self).base_url@)),
            },
    {
        self.events = Ghost(self.events@.push(LoginEvent::ClientBuilt { failed: error is Some }));
        match error {
            Some(e) => {
                let mut m = string_of("Failed to create HTTP client: ");
                push_str(&mut m, e.as_str());
                self.fail(m)
            },
            None => {
                self.phase = LoginPhase::FetchingLoginPage;
                let mut url = string_of(self.base_url.as_str());
                push_str(&mut url, "/login/");
                LoginAction::FetchLoginPage { url }
            },
        }
    }

    /// The login page came back, or not.
    pub fn login_page_fetched(&mut self, outcome: HttpOutcome) -> (a: LoginAction)
        requires
            old(self).phase is FetchingLoginPage,
            old(self).wf(),
        ensures
            final(self).wf(),
            final(self).events@ == old(self).events@.push(LoginEvent::LoginPageFetched(outcome)),
            final(self).phase is Done ==> ((a is Finish) <==> login_succeeds(final(self).events@)),
            same_login(*old(self), *final(self)),
            final(self).csrf_token == old(self).csrf_token,
            match outcome {
                HttpOutcome::SendFailed(e) => fails_with(a, "GET /login/ request failed: "@ + e@)
                    && final(self).phase is Done,
                HttpOutcome::Received { status, status_text } => if is_success_status(status) {
                    final(self).phase is ReadingLoginCookies && (a matches LoginAction::ReadLoginCookies {
                        url,
                    } && url@ == old(self).base_url@)
                } else {
                    fails_with(a, "GET /login/ returned HTTP "@ + status_text@) && final(self).phase is Done
                },
            },
    {
        self.events = Ghost(self.events@.push(LoginEvent::LoginPageFetched(outcome)));
        match outcome {
            HttpOutcome::SendFailed(e) => {
                let mut m = string_of("GET /login/ request failed: ");
                push_str(&mut m, e.as_str());
                self.fail(m)
            },
            HttpOutcome::Received { status, status_text } => {
                if 200 <= status && status < 300 {
                    self.phase = LoginPhase::ReadingLoginCookies;
                    LoginAction::ReadLoginCookies { url: string_of(self.base_url.as_str()) }
                } else {
                    let mut m = string_of("GET /login/ returned HTTP ");
                    push_str(&mut m, status_text.as_str());
                    self.fail(m)
                }
            },
        }
    }

    fn post_credentials(&mut self) -> (a: LoginAction)
        ensures
            same_login(*old(self), *final(self)),
            final(self).csrf_token == old(self).csrf_token,
            final(self).phase is Authenticating,
            final(self).events == old(self).events,
            posts_credentials(*final(self), a),
    {
        self.phase = LoginPhase::Authenticating;
        let mut url = string_of(self.base_url.as_str());
        push_str(&mut url, "/authenticate/");
        let mut referer = string_of(self.base_url.as_str());
        push_str(&mut referer, "/login/");
        let mut form: Vec<(String, String)> = Vec::new();
        form.push((string_of("username"), string_of(self.username.as_str())));
        form.push((string_of("password"), string_of(self.password.as_str())));
        assert(form_view(form@) =~= credentials_form(self.username@, self.password@));
        LoginAction::PostCredentials {
            url,
            csrf_token: string_of(self.csrf_token.as_str()),
            referer,
            form,
        }
    }

    /// The jar's `Cookie` header for the Archery's URL (`None` when the jar
    /// has none), or the error that came of parsing that URL.
    pub fn login_cookies_read(&mut self, cookies: Result<Option<String>, String>) -> (a: LoginAction)
        requires
            old(self).phase is ReadingLoginCookies,
            old(self).wf(),
        ensures
            final(self).wf(),
            final(self).events@ == old(self).events@.push(LoginEvent::LoginCookiesRead(cookies)),
            final(self).phase is Done ==> ((a is Finish) <==> login_succeeds(final(self).events@)),
            same_login(*old(self), *final(self)),
            match cookies {
                Err(e) => fails_with(a, "Failed to parse URL: "@ + e@) && final(self).phase is Done,
                Ok(header) => {
                    let token = match header {
                        Some(h) => cookie_value_in(h@, "csrftoken"@),
                        None => None,
                    };
                    match token {
                        Some(t) => if t.len() > 0 {
                            final(self).csrf_token@ == t && final(self).phase is Authenticating
                                && posts_credentials(*final(self), a)
                        } else {
                            final(self).phase is ReadingLoginBody && a is ReadLoginBody
                        },
                        None => final(self).phase is ReadingLoginBody && a is ReadLoginBody,
                    }
                },
            },
    {
        self.events = Ghost(self.events@.push(LoginEvent::LoginCookiesRead(cookies)));
        match cookies {
            Err(e) => {
                let mut m = string_of("Failed to parse URL: ");
                push_str(&mut m, e.as_str());
                self.fail(m)
            },
            Ok(header) => {
                let token = match &header {
                    Some(h) => cookie_value(h.as_str(), "csrftoken"),
                    None => None,
                };
                match token {
                    Some(t) => {
                        if t.as_str().is_empty() {
                            self.phase = LoginPhase::ReadingLoginBody;
                            LoginAction::ReadLoginBody
                        } else {
                            self.csrf_token = t;
                            self.post_credentials()
                        }
                    },
                    None => {
                        self.phase = LoginPhase::ReadingLoginBody;
                        LoginAction::ReadLoginBody
                    },
                }
            },
        }
    }

    /// The login page's body (empty when it could not be read).
    pub fn login_body_read(&mut self, body: &str) -> (a: LoginAction)
        requires
            old(self).phase is ReadingLoginBody,
            old(self).wf(),
        ensures
            final(self).wf(),
            final(self).events@ == old(self).events@.push(LoginEvent::LoginBodyRead(Ghost(body@))),
            final(self).phase is Done ==> ((a is Finish) <==> login_succeeds(final(self).events@)),
            same_login(*old(self), *final(self)),
            match csrf_token_in(body@) {
                Some(t) => final(self).csrf_token@ == t && final(self).phase is Authenticating
                    && posts_credentials(*final(self), a),
                None => fails_with(a, "csrftoken not found in cookies or HTML response"@)
                    && final(self).phase is Done,
            },
    {
        self.events = Ghost(self.events@.push(LoginEvent::LoginBodyRead(Ghost(body@))));
        match extract_csrf_token(body) {
            Some(t) => {
                self.csrf_token = t;
                self.post_credentials()
            },
            None => self.fail(string_of("csrftoken not found in cookies or HTML response")),
        }
    }

    /// The authentication reply came back, or not.
    pub fn auth_sent(&mut self, outcome: HttpOutcome) -> (a: LoginAction)
        requires
            old(self).phase is Authenticating,
            old(self).wf(),
        ensures
            final(self).wf(),
            final(self).events@ == old(self).events@.push(LoginEvent::AuthSent(outcome)),
            final(self).phase is Done ==> ((a is Finish) <==> login_succeeds(final(self).events@)),
            same_login(*old(self), *final(self)),
            final(self).csrf_token == old(self).csrf_token,
            match outcome {
                HttpOutcome::SendFailed(e) => fails_with(a, "POST /authenticate/ request failed: "@ + e@)
                    && final(self).phase is Done,
                HttpOutcome::Received { status, status_text } => if is_success_status(status) {
                    final(self).phase is ReadingAuthBody && a is ReadAuthBody
                } else {
                    fails_with(a, "POST /authenticate/ returned HTTP "@ + status_text@)
                        && final(self).phase is Done
                },
            },
    {
        self.events = Ghost(self.events@.push(LoginEvent::AuthSent(outcome)));
        match outcome {
            HttpOutcome::SendFailed(e) => {
                let mut m = string_of("POST /authenticate/ request failed: ");
                push_str(&mut m, e.as_str());
                self.fail(m)
            },
            HttpOutcome::Received { status, status_text } => {
                if 200 <= status && status < 300 {
                    self.phase = LoginPhase::ReadingAuthBody;
                    LoginAction::ReadAuthBody
                } else {
                    let mut m = string_of("POST /authenticate/ returned HTTP ");
                    push_str(&mut m, status_text.as_str());
                    self.fail(m)
                }
            },
        }
    }

    /// The authentication reply's body: its text and what parsing it as JSON
    /// gave (the parse error's text), or the error that came of reading it.
    pub fn auth_body_read(&mut self, body: Result<(String, Result<Json, String>), String>) -> (a:
        LoginAction)
        requires
            old(self).phase is ReadingAuthBody,
            old(self).wf(),
        ensures
            final(self).wf(),
            final(self).events@ == old(self).events@.push(LoginEvent::AuthBodyRead(body)),
            final(self).phase is Done ==> ((a is Finish) <==> login_succeeds(final(self).events@)),
            same_login(*old(self), *final(self)),
            final(self).csrf_token == old(self).csrf_token,
            match body {
                Err(e) => fails_with(a, "Failed to read authenticate response text: "@ + e@)
                    && final(self).phase is Done,
                Ok((text, Err(pe))) => fails_with(
                    a,
                    "Failed to parse JSON from /authenticate/: "@ + pe@ + " (body: "@ + text@ + ")"@,
                ) && final(self).phase is Done,
                Ok((text, Ok(j))) => match auth_outcome(j) {
                    Err(m) => fails_with(a, m) && final(self).phase is Done,
                    Ok(()) => final(self).phase is ReadingSessionCookies && (a matches LoginAction::ReadSessionCookies {
                        url,
                    } && url@ == old(self).base_url@),
                },
            },
    {
        self.events = Ghost(self.events@.push(LoginEvent::AuthBodyRead(body)));
        match body {
            Err(e) => {
                let mut m = string_of("Failed to read authenticate response text: ");
                push_str(&mut m, e.as_str());
                self.fail(m)
            },
            Ok((text, Err(pe))) => {
                let mut m = string_of("Failed to parse JSON from /authenticate/: ");
                push_str(&mut m, pe.as_str());
                push_str(&mut m, " (body: ");
                push_str(&mut m, text.as_str());
                push_str(&mut m, ")");
                self.fail(m)
            },
            Ok((_text, Ok(j))) => match check_auth_reply(&j) {
                Err(m) => self.fail(m),
                Ok(()) => {
                    self.phase = LoginPhase::ReadingSessionCookies;
                    LoginAction::ReadSessionCookies { url: string_of(self.base_url.as_str()) }
                },
            },
        }
    }

    /// The jar's `Cookie` header after authenticating (`None` when it has none).
    pub fn session_cookies_read(&mut self, cookies: Option<String>) -> (a: LoginAction)
        requires
            old(self).phase is ReadingSessionCookies,
            old(self).wf(),
        ensures
            final(self).wf(),
            final(self).events@ == old(self).events@.push(LoginEvent::SessionCookiesRead(cookies)),
            final(self).phase is Done ==> ((a is Finish) <==> login_succeeds(final(self).events@)),
            same_login(*old(self), *final(self)),
            final(self).csrf_token == old(self).csrf_token,
            final(self).phase is Done,
            ({
                let has_session = match cookies {
                    Some(h) => cookie_value_in(h@, "sessionid"@) is Some,
                    None => false,
                };
                if has_session {
                    a matches LoginAction::Finish { base_url, csrf_token } && base_url@
                        == old(self).base_url@ && csrf_token@ == old(self).csrf_token@
                } else {
                    fails_with(a, "Login succeeded but sessionid cookie was not set in client jar"@)
                }
            }),
    {
        self.events = Ghost(self.events@.push(LoginEvent::SessionCookiesRead(cookies)));
        let has_session = match &cookies {
            Some(h) => cookie_value(h.as_str(), "sessionid").is_some(),
            None => false,
        };
        if has_session {
            self.phase = LoginPhase::Done;
            LoginAction::Finish {
                base_url: string_of(self.base_url.as_str()),
                csrf_token: string_of(self.csrf_token.as_str()),
            }
        } else {
            self.fail(string_of("Login succeeded but sessionid cookie was not set in client jar"))
        }
    }
}

} // verus!
