//! The arguments of the tools: credentials taken from the call or from the
//! environment, required strings, and numbers with defaults.

use vstd::prelude::*;
use crate::archery_client::{ArcheryClient, trim_trailing};
use crate::graylog::{GRAYLOG_TIMEOUT_MS, GraylogClient, graylog_user_agent};
use crate::json::{Json, deref_opt};
use crate::query_result::{opt_as_str, opt_str};
use crate::text::{join, join_strings, push_str, string_of, views};

verus! {

/// Which service the credentials are for.
pub enum Service {
    Archery,
    Graylog,
}

/// The environment variables a service's credentials can come from.
pub open spec fn env_hint(service: Service) -> Seq<char> {
    match service {
        Service::Archery => "ARCHERY_URL / ARCHERY_USERNAME / ARCHERY_PASSWORD"@,
        Service::Graylog => "GRAYLOG_URL / GRAYLOG_USERNAME / GRAYLOG_PASSWORD"@,
    }
}

/// Credentials read from the environment; an unset variable reads as empty.
pub struct EnvCredentials {
    pub url: String,
    pub username: String,
    pub password: String,
}

/// Credentials for a service.
pub struct Credentials {
    pub url: String,
    pub username: String,
    pub password: String,
}

/// A credential: the call's non-empty value, else the environment's non-empty one.
pub open spec fn pick(arg: Option<Seq<char>>, env: Seq<char>) -> Option<Seq<char>> {
    match arg {
        Some(a) => if a.len() > 0 {
            Some(a)
        } else if env.len() > 0 {
            Some(env)
        } else {
            None
        },
        None => if env.len() > 0 {
            Some(env)
        } else {
            None
        },
    }
}

/// A string argument of a call.
pub open spec fn arg_str(args: Json, key: Seq<char>) -> Option<Seq<char>> {
    opt_str(args.field(key))
}

/// The names of the credentials that are missing, in order.
pub open spec fn missing_names(url: Option<Seq<char>>, user: Option<Seq<char>>, pass: Option<Seq<char>>) -> Seq<
    Seq<char>,
> {
    (if url is None { seq!["url"@] } else { Seq::empty() }) + (if user is None {
        seq!["username"@]
    } else {
        Seq::empty()
    }) + (if pass is None { seq!["password"@] } else { Seq::empty() })
}

/// What resolving the credentials gives: all three, or the error that names
/// the missing ones.
pub open spec fn credentials_outcome(
    args: Json,
    env: EnvCredentials,
    service: Service,
    r: Result<Credentials, String>,
) -> bool {
    let url = pick(arg_str(args, "url"@), env.url@);
    let user = pick(arg_str(args, "username"@), env.username@);
    let pass = pick(arg_str(args, "password"@), env.password@);
    if url is Some && user is Some && pass is Some {
        r matches Ok(c) && Some(c.url@) == url && Some(c.username@) == user && Some(c.password@)
            == pass
    } else {
        r matches Err(e) && e@ == "缺少必要参数: "@ + join(missing_names(url, user, pass), ", "@)
            + "。请传入参数或在 .env 文件中配置 "@ + env_hint(service)
    }
}

/// `pick` of a call's argument.
fn pick_credential(args: &Json, key: &str, env: &String) -> (r: Option<String>)
    ensures
        match r {
            Some(v) => pick(arg_str(*args, key@), env@) == Some(v@),
            None => pick(arg_str(*args, key@), env@) is None,
        },
{
    match opt_as_str(args.get(key)) {
        Some(a) => {
            if !a.is_empty() {
                return Some(string_of(a));
            }
        },
        None => {},
    }
    if env.as_str().is_empty() {
        None
    } else {
        Some(string_of(env.as_str()))
    }
}

/// The credentials of a call: each from the call, else from the environment.
pub fn resolve_credentials(args: &Json, env: &EnvCredentials, service: Service) -> (r: Result<
    Credentials,
    String,
>)
    ensures
        credentials_outcome(*args, *env, service, r),
{
    let url = pick_credential(args, "url", &env.url);
    let username = pick_credential(args, "username", &env.username);
    let password = pick_credential(args, "password", &env.password);
    match (url, username, password) {
        (Some(u), Some(n), Some(p)) => Ok(Credentials { url: u, username: n, password: p }),
        (u, n, p) => {
            let mut missing: Vec<String> = Vec::new();
            if u.is_none() {
                missing.push(string_of("url"));
            }
            if n.is_none() {
                missing.push(string_of("username"));
            }
            if p.is_none() {
                missing.push(string_of("password"));
            }
            let ghost uv = pick(arg_str(*args, "url"@), env.url@);
            let ghost nv = pick(arg_str(*args, "username"@), env.username@);
            let ghost pv = pick(arg_str(*args, "password"@), env.password@);
            assert(views(missing@) =~= missing_names(uv, nv, pv));
            let mut e = string_of("缺少必要参数: ");
            let list = join_strings(&missing, ", ");
            push_str(&mut e, list.as_str());
            push_str(&mut e, "。请传入参数或在 .env 文件中配置 ");
            match service {
                Service::Archery => push_str(
                    &mut e,
                    "ARCHERY_URL / ARCHERY_USERNAME / ARCHERY_PASSWORD",
                ),
                Service::Graylog => push_str(
                    &mut e,
                    "GRAYLOG_URL / GRAYLOG_USERNAME / GRAYLOG_PASSWORD",
                ),
            }
            Err(e)
        },
    }
}

/// A numeric argument, else a default.
pub open spec fn arg_u64_or(args: Json, key: Seq<char>, default: u64) -> u64 {
    match args.field(key) {
        Some(v) => match v.u64_value() {
            Some(n) => n,
            None => default,
        },
        None => default,
    }
}

/// `args.get(key).and_then(|v| v.as_u64()).unwrap_or(default)`.
pub fn u64_arg_or(args: &Json, key: &str, default: u64) -> (r: u64)
    ensures
        r == arg_u64_or(*args, key@, default),
{
    match args.get(key) {
        Some(v) => match v.as_u64() {
            Some(n) => n,
            None => default,
        },
        None => default,
    }
}

/// A required string argument; its absence is the error `缺少必要参数: <key>`.
pub fn required_str_arg(args: &Json, key: &str) -> (r: Result<String, String>)
    ensures
        match arg_str(*args, key@) {
            Some(v) => r matches Ok(s) && s@ == v,
            None => r matches Err(e) && e@ == "缺少必要参数: "@ + key@,
        },
{
    match opt_as_str(args.get(key)) {
        Some(v) => Ok(string_of(v)),
        None => {
            let mut e = string_of("缺少必要参数: ");
            push_str(&mut e, key);
            Err(e)
        },
    }
}

/// An optional string argument.
pub fn optional_str_arg(args: &Json, key: &str) -> (r: Option<String>)
    ensures
        match arg_str(*args, key@) {
            Some(v) => r matches Some(s) && s@ == v,
            None => r is None,
        },
{
    match opt_as_str(args.get(key)) {
        Some(v) => Some(string_of(v)),
        None => None,
    }
}

/// How long to wait for the Archery login when the call does not say, in milliseconds.
pub const DEFAULT_LOGIN_TIMEOUT_MS: u64 = 15000;

/// The Archery client of a call: its credentials and login timeout
/// (`loginTimeout`, else 15000 ms).
pub fn resolve_archery_client(args: &Json, env: &EnvCredentials) -> (r: Result<ArcheryClient, String>)
    ensures
        match r {
            Ok(c) => exists|creds: Credentials|
                credentials_outcome(*args, *env, Service::Archery, Ok(creds)) && c.url@
                    == trim_trailing(creds.url@, '/') && c.username@ == creds.username@
                    && c.password@ == creds.password@ && c.login_timeout_ms == arg_u64_or(
                    *args,
                    "loginTimeout"@,
                    DEFAULT_LOGIN_TIMEOUT_MS,
                ),
            Err(e) => credentials_outcome(*args, *env, Service::Archery, Err(e)),
        },
{
    let creds = resolve_credentials(args, env, Service::Archery)?;
    let timeout = u64_arg_or(args, "loginTimeout", DEFAULT_LOGIN_TIMEOUT_MS);
    let c = ArcheryClient::new(
        creds.url.as_str(),
        creds.username.as_str(),
        creds.password.as_str(),
        timeout,
    );
    Ok(c)
}


/// The Graylog client of a call: its credentials, then the client built
/// from them.
pub fn resolve_graylog_client(args: &Json, env: &EnvCredentials) -> (r: Result<GraylogClient, String>)
    ensures
        match r {
            Ok(c) => exists|creds: Credentials|
                credentials_outcome(*args, *env, Service::Graylog, Ok(creds)) && c.base_url@
                    == trim_trailing(creds.url@, '/') && c.username@ == creds.username@
                    && c.password@ == creds.password@ && c.client.built_timeout_ms()
                    == GRAYLOG_TIMEOUT_MS && c.client.built_user_agent() == graylog_user_agent(),
            Err(e) => credentials_outcome(*args, *env, Service::Graylog, Err(e)) || ((exists|
                creds: Credentials,
            | credentials_outcome(*args, *env, Service::Graylog, Ok(creds)))
                && e@.len() >= "Failed to build HTTP client: "@.len() && e@.take(
                "Failed to build HTTP client: "@.len() as int,
            ) == "Failed to build HTTP client: "@),
        },
{
    let creds = resolve_credentials(args, env, Service::Graylog)?;
    GraylogClient::new(creds.url.as_str(), creds.username.as_str(), creds.password.as_str())
}

} // verus!
