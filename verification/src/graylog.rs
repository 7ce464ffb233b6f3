//! The Graylog client: its configuration, the search request it sends, and
//! the Markdown it makes of the search result.

use vstd::prelude::*;
use crate::archery_client::{form_view, trim_trailing, trim_trailing_char};
use crate::archery_format::trim_string;
use crate::json::{Json, JsonValue, deref_opt, or_else, or_else_ref};
use crate::query_result::{opt_array, opt_as_i64, opt_as_str, opt_i64, opt_str};
use crate::text::{
    LineText, byte_len, byte_length, byte_prefix, byte_prefix_of, char_boundary_at, decimal, join,
    push_decimal, push_signed_decimal, push_str, signed_decimal, split_on, split_string,
    string_of, trim, views, lemma_views_push,
};
use crate::json::str_eq;
use crate::archery_login::HttpOutcome;
use crate::archery_format::is_success_status;
use crate::query_result::result_view;

verus! {

/// `reqwest::Error`, carried through opaque.
#[verifier::external_type_specification]
#[verifier::external_body]
pub struct ExHttpError(reqwest::Error);

/// An HTTP client and the settings it was built with.
pub struct HttpClient {
    client: reqwest::Client,
    timeout_ms: u64,
    user_agent: String,
}

impl HttpClient {
    /// The timeout the client was built with, in milliseconds.
    pub closed spec fn built_timeout_ms(&self) -> u64 {
        self.timeout_ms
    }

    /// The user agent the client was built with.
    pub closed spec fn built_user_agent(&self) -> Seq<char> {
        self.user_agent@
    }

    /// The client, to send requests with.
    pub fn reqwest_client(&self) -> &reqwest::Client {
        &self.client
    }
}

/// `reqwest::Client::builder().timeout(..).user_agent(..).build()`. Whether
/// the build succeeds depends on the machine, so that is not stated; a client
/// that was built records the timeout and user agent it was built with.
#[verifier::external_body]
fn build_http_client(timeout_ms: u64, user_agent: &str) -> (r: Result<HttpClient, reqwest::Error>)
    ensures
        r matches Ok(c) ==> c.built_timeout_ms() == timeout_ms && c.built_user_agent() == user_agent@,
{
    let client = reqwest::Client::builder()
        .timeout(std::time::Duration::from_millis(timeout_ms))
        .user_agent(user_agent)
        .build()?;
    Ok(HttpClient { client, timeout_ms, user_agent: user_agent.to_string() })
}

/// The `Display` text of a `reqwest::Error`; nothing is stated of it.
#[verifier::external_body]
fn http_error_text(e: &reqwest::Error) -> (r: String) {
    format!("{}", e)
}

/// Most seconds a search reaches back: thirty days.
pub const MAX_RANGE_SECS: u64 = 2592000;

/// Most messages a search returns.
pub const MAX_LIMIT: u64 = 100;

/// How long the client waits for Graylog, in milliseconds.
pub const GRAYLOG_TIMEOUT_MS: u64 = 30000;

/// The user agent the Graylog client sends.
pub open spec fn graylog_user_agent() -> Seq<char> {
    "mcp-rust-graylog/0.1.0"@
}

/// A Graylog client using HTTP Basic authentication.
pub struct GraylogClient {
    pub base_url: String,
    pub username: String,
    pub password: String,
    pub client: HttpClient,
}

/// The client for the Graylog at `base_url` once its HTTP client was built:
/// `Ok` with the trimmed URL, the credentials and that client; or, when the
/// build failed (the error's text), `Err("Failed to build HTTP client: " + e)`.
pub fn client_from_build(
    base_url: &str,
    username: &str,
    password: &str,
    built: Result<HttpClient, String>,
) -> (r: Result<GraylogClient, String>)
    ensures
        match built {
            Ok(h) => r matches Ok(c) && c.base_url@ == trim_trailing(base_url@, '/') && c.username@
                == username@ && c.password@ == password@ && c.client == h,
            Err(e) => r matches Err(m) && m@ == "Failed to build HTTP client: "@ + e@,
        },
{
    match built {
        Ok(client) => Ok(
            GraylogClient {
                base_url: trim_trailing_char(base_url, '/'),
                username: string_of(username),
                password: string_of(password),
                client,
            },
        ),
        Err(e) => {
            let mut m = string_of("Failed to build HTTP client: ");
            push_str(&mut m, e.as_str());
            Err(m)
        },
    }
}

impl GraylogClient {
    /// A client for the Graylog at `base_url` (trailing slashes dropped); it
    /// fails only when the HTTP client cannot be built.
    pub fn new(base_url: &str, username: &str, password: &str) -> (r: Result<Self, String>)
        ensures
            r matches Ok(c) ==> c.base_url@ == trim_trailing(base_url@, '/') && c.username@
                == username@ && c.password@ == password@ && c.client.built_timeout_ms() == GRAYLOG_TIMEOUT_MS
                && c.client.built_user_agent() == graylog_user_agent(),
            r matches Err(e) ==> e@.len() >= "Failed to build HTTP client: "@.len() && e@.take(
                "Failed to build HTTP client: "@.len() as int,
            ) == "Failed to build HTTP client: "@,
    {
        let built = match build_http_client(GRAYLOG_TIMEOUT_MS, "mcp-rust-graylog/0.1.0") {
            Ok(c) => Ok(c),
            Err(e) => Err(http_error_text(&e)),
        };
        client_from_build(base_url, username, password, built)
    }

    /// The search endpoint.
    pub fn search_url(&self) -> (r: String)
        ensures
            r@ == self.base_url@ + "/api/search/universal/relative"@,
    {
        let mut r = string_of(self.base_url.as_str());
        push_str(&mut r, "/api/search/universal/relative");
        r
    }
}

/// The range a search uses: at most thirty days.
pub open spec fn capped_range(range_secs: u64) -> u64 {
    if range_secs < MAX_RANGE_SECS {
        range_secs
    } else {
        MAX_RANGE_SECS
    }
}

/// The limit a search uses: at most 100 messages.
pub open spec fn capped_limit(limit: u64) -> u64 {
    if limit < MAX_LIMIT {
        limit
    } else {
        MAX_LIMIT
    }
}

/// `min(range_secs, 2592000)`.
pub fn cap_range(range_secs: u64) -> (r: u64)
    ensures
        r == capped_range(range_secs),
        r <= MAX_RANGE_SECS,
{
    if range_secs < MAX_RANGE_SECS {
        range_secs
    } else {
        MAX_RANGE_SECS
    }
}

/// `min(limit, 100)`.
pub fn cap_limit(limit: u64) -> (r: u64)
    ensures
        r == capped_limit(limit),
        r <= MAX_LIMIT,
{
    if limit < MAX_LIMIT {
        limit
    } else {
        MAX_LIMIT
    }
}

/// The query parameters of a search, in order; `fields` last when given.
pub open spec fn search_params(
    query: Seq<char>,
    stream_id: Seq<char>,
    range_secs: u64,
    limit: u64,
    fields: Option<Seq<char>>,
    sort: Seq<char>,
) -> Seq<(Seq<char>, Seq<char>)> {
    let base = seq![
        ("query"@, query),
        ("range"@, decimal(capped_range(range_secs) as nat)),
        ("limit"@, decimal(capped_limit(limit) as nat)),
        ("decorate"@, "false"@),
        ("sort"@, sort),
        ("filter"@, "streams:"@ + stream_id),
    ];
    match fields {
        Some(f) => base.push(("fields"@, f)),
        None => base,
    }
}

/// The view of an optional string slice.
pub open spec fn opt_slice_view(o: Option<&str>) -> Option<Seq<char>> {
    match o {
        Some(s) => Some(s@),
        None => None,
    }
}

/// The query parameters of a search.
pub fn search_query(
    query: &str,
    stream_id: &str,
    range_secs: u64,
    limit: u64,
    fields: Option<&str>,
    sort: &str,
) -> (r: Vec<(String, String)>)
    ensures
        form_view(r@) == search_params(
            query@,
            stream_id@,
            range_secs,
            limit,
            opt_slice_view(fields),
            sort@,
        ),
{
    let mut r: Vec<(String, String)> = Vec::new();
    r.push((string_of("query"), string_of(query)));
    let mut range = String::new();
    push_decimal(&mut range, cap_range(range_secs) as u128);
    r.push((string_of("range"), range));
    let mut lim = String::new();
    push_decimal(&mut lim, cap_limit(limit) as u128);
    r.push((string_of("limit"), lim));
    r.push((string_of("decorate"), string_of("false")));
    r.push((string_of("sort"), string_of(sort)));
    let mut filter = string_of("streams:");
    push_str(&mut filter, stream_id);
    r.push((string_of("filter"), filter));
    match fields {
        Some(f) => {
            r.push((string_of("fields"), string_of(f)));
        },
        None => {},
    }
    assert(form_view(r@) =~= search_params(
        query@,
        stream_id@,
        range_secs,
        limit,
        opt_slice_view(fields),
        sort@,
    ));
    r
}

/// The error for a search Graylog answered with a failure: its status and
/// the first 300 bytes of its body.
pub open spec fn search_http_error(status_text: Seq<char>, body: Seq<char>) -> Seq<char> {
    "Graylog API HTTP "@ + status_text + ": "@ + if byte_len(body) > 300 {
        byte_prefix(body, 300)
    } else {
        body
    }
}

/// `search_http_error`.
pub fn search_http_error_message(status_text: &str, body: &str) -> (r: String)
    requires
        byte_len(body@) > 300 ==> char_boundary_at(body@, 300),
    ensures
        r@ == search_http_error(status_text@, body@),
{
    let mut r = string_of("Graylog API HTTP ");
    push_str(&mut r, status_text);
    push_str(&mut r, ": ");
    let ghost head = r@;
    if byte_length(body) > 300 {
        push_str(&mut r, byte_prefix_of(body, 300));
    } else {
        push_str(&mut r, body);
    }
    assert(r@ =~= search_http_error(status_text@, body@));
    r
}

// ---------------------------------------------------------------------------
// The search result
// ---------------------------------------------------------------------------

/// The fields shown for each message: the given ones (split at commas,
/// trimmed, blanks dropped), else the default ones.
pub open spec fn display_fields(filter: Option<Seq<char>>) -> Seq<Seq<char>> {
    match filter {
        Some(f) => nonblank(split_on(f, ',').map_values(|p: Seq<char>| trim(p))),
        None => seq!["timestamp"@, "source"@, "message"@, "level"@, "tag"@],
    }
}

/// The non-empty items, in order.
pub open spec fn nonblank(items: Seq<Seq<char>>) -> Seq<Seq<char>>
    decreases items.len(),
{
    if items.len() == 0 {
        Seq::empty()
    } else if items.last().len() > 0 {
        nonblank(items.drop_last()).push(items.last())
    } else {
        nonblank(items.drop_last())
    }
}

/// A field shown in its own way, not in the list of extra fields.
pub open spec fn is_fixed_field(f: Seq<char>) -> bool {
    f == "timestamp"@ || f == "source"@ || f == "message"@ || f == "tag"@
}

/// The message object of a search hit, if it is an object.
pub open spec fn hit_message(hit: Json) -> Option<Json> {
    match hit.field("message"@) {
        Some(m) => if m.value is Object {
            Some(m)
        } else {
            None
        },
        None => None,
    }
}

/// A field of the message object, if any.
pub open spec fn message_field(msg: Option<Json>, key: Seq<char>) -> Option<Json> {
    match msg {
        Some(m) => m.field(key),
        None => None,
    }
}

/// A string field of the message object, else empty.
pub open spec fn message_text(msg: Option<Json>, key: Seq<char>) -> Seq<char> {
    match opt_str(message_field(msg, key)) {
        Some(s) => s,
        None => Seq::empty(),
    }
}

/// The lines of the extra fields a message has, in the order of `fields`.
pub open spec fn extra_field_lines(msg: Option<Json>, fields: Seq<Seq<char>>) -> Seq<Seq<char>>
    decreases fields.len(),
{
    if fields.len() == 0 {
        Seq::empty()
    } else {
        let rest = extra_field_lines(msg, fields.drop_last());
        let f = fields.last();
        if is_fixed_field(f) {
            rest
        } else {
            match message_field(msg, f) {
                Some(v) => rest.push(f + ": "@ + v.text@),
                None => rest,
            }
        }
    }
}

/// A message body as shown: at most 1200 bytes.
pub open spec fn shown_body(body: Seq<char>) -> Seq<char> {
    if byte_len(body) > 1200 {
        byte_prefix(body, 1200) + "\n... (已截断)"@
    } else {
        body
    }
}

/// The lines of the `i`-th hit.
pub open spec fn hit_lines(i: int, hit: Json, fields: Seq<Seq<char>>) -> Seq<Seq<char>> {
    let msg = hit_message(hit);
    let body = message_text(msg, "message"@);
    let tag_line = match opt_str(message_field(msg, "tag"@)) {
        Some(t) => seq!["标签: `"@ + t + "`"@],
        None => Seq::empty(),
    };
    let body_lines = if body.len() > 0 { seq![""@, shown_body(body)] } else { Seq::empty() };
    seq![
        "---"@,
        "**#"@ + decimal((i + 1) as nat) + "**  "@ + message_text(msg, "timestamp"@) + "  |  "@
            + message_text(msg, "source"@),
    ] + tag_line + extra_field_lines(msg, fields) + body_lines + seq![""@]
}

/// The lines of all hits, in order.
pub open spec fn hits_lines(hits: Seq<Json>, fields: Seq<Seq<char>>) -> Seq<Seq<char>>
    decreases hits.len(),
{
    if hits.len() == 0 {
        Seq::empty()
    } else {
        hits_lines(hits.drop_last(), fields) + hit_lines(hits.len() - 1, hits.last(), fields)
    }
}

/// The hits of a search result.
pub open spec fn hits_of(j: Json) -> Option<Seq<Json>> {
    opt_array(j.field("messages"@))
}

/// The total of a search result: `total_results`, else `total`, else 0.
pub open spec fn total_of(j: Json) -> i64 {
    match opt_i64(or_else(j.field("total_results"@), j.field("total"@))) {
        Some(t) => t,
        None => 0,
    }
}

/// How long the search took, in milliseconds (0 when not given).
pub open spec fn took_of(j: Json) -> i64 {
    match opt_i64(j.field("time"@)) {
        Some(t) => t,
        None => 0,
    }
}

/// A string field of the result, else empty.
pub open spec fn text_of(j: Json, key: Seq<char>) -> Seq<char> {
    match opt_str(j.field(key)) {
        Some(s) => s,
        None => Seq::empty(),
    }
}

/// The hint given when nothing matched within less than two hours.
pub open spec fn short_range_hint(range_secs: u64) -> Seq<char> {
    if range_secs < 7200 {
        "。提示：当前时间范围较短，可尝试增大 range 参数（如 7200=2小时）"@
    } else {
        Seq::empty()
    }
}

/// The query as shown when nothing matched: at most 80 bytes.
pub open spec fn short_query(query: Seq<char>) -> Seq<char> {
    if byte_len(query) > 80 {
        byte_prefix(query, 80)
    } else {
        query
    }
}

/// What a search result reads as.
pub open spec fn search_output(
    j: Json,
    query: Seq<char>,
    range_secs: u64,
    fields: Option<Seq<char>>,
) -> Seq<char> {
    match hits_of(j) {
        Some(hits) => if hits.len() > 0 {
            join(
                seq![
                    "✅ **搜索完成** ("@ + signed_decimal(took_of(j) as int) + "ms) | 共 "@
                        + signed_decimal(total_of(j) as int) + " 条 | 显示前 "@ + decimal(hits.len())
                        + " 条"@,
                    "查询: `"@ + query + "`"@,
                    "时间: "@ + text_of(j, "from"@) + " ~ "@ + text_of(j, "to"@),
                    ""@,
                ] + hits_lines(hits, display_fields(fields)) + seq![
                    "---"@,
                    "💡 **提示**: 可通过 fields 参数自定义返回字段，或用更精确的 query 缩小范围"@,
                ],
                "\n"@,
            )
        } else {
            no_match_output(j, query, range_secs)
        },
        None => no_match_output(j, query, range_secs),
    }
}

/// What a search result without hits reads as.
pub open spec fn no_match_output(j: Json, query: Seq<char>, range_secs: u64) -> Seq<char> {
    "✅ 查询完成 ("@ + signed_decimal(took_of(j) as int) + "ms)，共 "@ + signed_decimal(
        total_of(j) as int,
    ) + " 条结果\n\n查询: "@ + short_query(query) + "\n时间范围: 过去 "@ + decimal(range_secs as nat)
        + " 秒"@ + short_range_hint(range_secs) + "\n\n未匹配到日志消息。"@
}

/// The texts that a search result cuts short can be cut there: the query at
/// 80 bytes when nothing matched, each message body at 1200 bytes.
pub open spec fn search_result_cuttable(j: Json, query: Seq<char>) -> bool {
    match hits_of(j) {
        Some(hits) => if hits.len() > 0 {
            forall|i: int|
                0 <= i < hits.len() ==> {
                    let body = #[trigger] message_text(hit_message(hits[i]), "message"@);
                    byte_len(body) > 1200 ==> char_boundary_at(body, 1200)
                }
        } else {
            byte_len(query) > 80 ==> char_boundary_at(query, 80)
        },
        None => byte_len(query) > 80 ==> char_boundary_at(query, 80),
    }
}

/// The message object of a hit.
fn hit_message_of(hit: &Json) -> (r: Option<&Json>)
    ensures
        deref_opt(r) == hit_message(*hit),
{
    match hit.get("message") {
        Some(m) => match &m.value {
            JsonValue::Object(_) => Some(m),
            _ => None,
        },
        None => None,
    }
}

/// A field of the message object.
fn message_field_of<'a>(msg: Option<&'a Json>, key: &str) -> (r: Option<&'a Json>)
    ensures
        deref_opt(r) == message_field(deref_opt(msg), key@),
{
    match msg {
        Some(m) => m.get(key),
        None => None,
    }
}

/// A string field of the message object, else empty.
fn message_text_of<'a>(msg: Option<&'a Json>, key: &str) -> (r: String)
    ensures
        r@ == message_text(deref_opt(msg), key@),
{
    match opt_as_str(message_field_of(msg, key)) {
        Some(s) => string_of(s),
        None => String::new(),
    }
}

/// Decides `search_result_cuttable`.
pub fn search_result_is_cuttable(j: &Json, query: &str) -> (b: bool)
    ensures
        b == search_result_cuttable(*j, query@),
{
    let query_ok = byte_length(query) <= 80 || query.is_char_boundary(80);
    let hits = match j.get("messages") {
        Some(m) => match m.as_array() {
            Some(h) => h,
            None => {
                return query_ok;
            },
        },
        None => {
            return query_ok;
        },
    };
    if hits.len() == 0 {
        return query_ok;
    }
    let mut i: usize = 0;
    while i < hits.len()
        invariant
            i <= hits@.len(),
            hits_of(*j) == Some(hits@),
            hits@.len() > 0,
            forall|k: int|
                0 <= k < i ==> {
                    let body = #[trigger] message_text(hit_message(hits@[k]), "message"@);
                    byte_len(body) > 1200 ==> char_boundary_at(body, 1200)
                },
        decreases hits.len() - i,
    {
        let body = message_text_of(hit_message_of(&hits[i]), "message");
        let b = body.as_str();
        if byte_length(b) > 1200 && !b.is_char_boundary(1200) {
            assert(message_text(hit_message(hits@[i as int]), "message"@) == b@);
            return false;
        }
        i = i + 1;
    }
    true
}

/// `display_fields`.
fn display_fields_of(filter: Option<&str>) -> (r: Vec<String>)
    ensures
        views(r@) == display_fields(opt_slice_view(filter)),
{
    let mut r: Vec<String> = Vec::new();
    match filter {
        Some(f) => {
            let parts = split_string(f, ',');
            let ghost trimmed = views(parts@).map_values(|p: Seq<char>| trim(p));
            let mut i: usize = 0;
            assert(trimmed.take(0) =~= Seq::<Seq<char>>::empty());
            while i < parts.len()
                invariant
                    i <= parts@.len(),
                    trimmed == views(parts@).map_values(|p: Seq<char>| trim(p)),
                    views(r@) == nonblank(trimmed.take(i as int)),
                decreases parts.len() - i,
            {
                assert(trimmed.take(i + 1).drop_last() =~= trimmed.take(i as int));
                assert(trimmed.take(i + 1).last() == trim(parts@[i as int]@));
                let t = trim_string(parts[i].as_str());
                if t.as_str().is_empty() {
                } else {
                    let ghost before = r@;
                    r.push(t);
                    proof {
                        lemma_views_push(before, t);
                    }
                }
                i = i + 1;
            }
            assert(trimmed.take(parts@.len() as int) =~= trimmed);
            assert(split_on(f@, ',').map_values(|p: Seq<char>| trim(p)) =~= trimmed);
        },
        None => {
            r.push(string_of("timestamp"));
            r.push(string_of("source"));
            r.push(string_of("message"));
            r.push(string_of("level"));
            r.push(string_of("tag"));
            assert(views(r@) =~= display_fields(opt_slice_view(filter)));
        },
    }
    r
}

/// Appends the lines of the `i`-th hit.
#[verifier::spinoff_prover]
#[verifier::rlimit(40)]
fn push_hit(out: &mut LineText, i: usize, hit: &Json, fields: &Vec<String>)
    requires
        old(out).wf(),
        i < usize::MAX,
        ({
            let body = message_text(hit_message(*hit), "message"@);
            byte_len(body) > 1200 ==> char_boundary_at(body, 1200)
        }),
    ensures
        final(out).wf(),
        final(out).lines@ == old(out).lines@ + hit_lines(i as int, *hit, views(fields@)),
{
    let ghost start = out.lines@;
    let ghost fv = views(fields@);
    let msg = hit_message_of(hit);
    let ts = message_text_of(msg, "timestamp");
    let src = message_text_of(msg, "source");
    let body = message_text_of(msg, "message");
    out.push_line("---");
    let mut head = string_of("**#");
    push_decimal(&mut head, (i as u128) + 1);
    push_str(&mut head, "**  ");
    push_str(&mut head, ts.as_str());
    push_str(&mut head, "  |  ");
    push_str(&mut head, src.as_str());
    out.push_string(head);
    match opt_as_str(message_field_of(msg, "tag")) {
        Some(tag) => {
            let mut l = string_of("标签: `");
            push_str(&mut l, tag);
            push_str(&mut l, "`");
            out.push_string(l);
        },
        None => {},
    }
    let ghost mid = out.lines@;
    let mut k: usize = 0;
    assert(fv.take(0) =~= Seq::<Seq<char>>::empty());
    assert(mid + extra_field_lines(deref_opt(msg), Seq::empty()) =~= mid);
    while k < fields.len()
        invariant
            k <= fields@.len(),
            fv == views(fields@),
            out.wf(),
            out.lines@ == mid + extra_field_lines(deref_opt(msg), fv.take(k as int)),
        decreases fields.len() - k,
    {
        assert(fv.take(k + 1).drop_last() =~= fv.take(k as int));
        assert(fv.take(k + 1).last() == fields@[k as int]@);
        let f = fields[k].as_str();
        let fixed = str_eq(f, "timestamp") || str_eq(f, "source") || str_eq(f, "message") || str_eq(
            f,
            "tag",
        );
        if !fixed {
            match message_field_of(msg, f) {
                Some(v) => {
                    let mut l = string_of(f);
                    push_str(&mut l, ": ");
                    push_str(&mut l, v.as_text());
                    let ghost before = out.lines@;
                    out.push_string(l);
                    assert(out.lines@ =~= mid + extra_field_lines(
                        deref_opt(msg),
                        fv.take(k + 1),
                    ));
                },
                None => {},
            }
        }
        k = k + 1;
    }
    assert(fv.take(fv.len() as int) =~= fv);
    if body.as_str().is_empty() {
    } else {
        out.push_line("");
        let b = body.as_str();
        if byte_length(b) > 1200 {
            let mut t = string_of(byte_prefix_of(b, 1200));
            push_str(&mut t, "\n... (已截断)");
            out.push_string(t);
        } else {
            out.push_line(b);
        }
    }
    out.push_line("");
    assert(out.lines@ =~= start + hit_lines(i as int, *hit, fv));
}

/// Renders a Graylog search result as Markdown.
pub fn format_search_result(j: &Json, query: &str, range_secs: u64, fields_filter: Option<&str>) -> (r:
    Result<String, String>)
    requires
        search_result_cuttable(*j, query@),
    ensures
        r matches Ok(s) && s@ == search_output(*j, query@, range_secs, opt_slice_view(fields_filter)),
{
    let total = match opt_as_i64(or_else_ref(j.get("total_results"), j.get("total"))) {
        Some(t) => t,
        None => 0,
    };
    let took = match opt_as_i64(j.get("time")) {
        Some(t) => t,
        None => 0,
    };
    let hits = match j.get("messages") {
        Some(m) => m.as_array(),
        None => None,
    };
    let hits = match hits {
        Some(h) => {
            if h.len() == 0 {
                return Ok(no_match_text(took, total, query, range_secs));
            }
            h
        },
        None => {
            return Ok(no_match_text(took, total, query, range_secs));
        },
    };
    let fields = display_fields_of(fields_filter);
    let ghost fv = views(fields@);
    let mut out = LineText::new();
    let mut l1 = string_of("✅ **搜索完成** (");
    push_signed_decimal(&mut l1, took);
    push_str(&mut l1, "ms) | 共 ");
    push_signed_decimal(&mut l1, total);
    push_str(&mut l1, " 条 | 显示前 ");
    push_decimal(&mut l1, hits.len() as u128);
    push_str(&mut l1, " 条");
    out.push_string(l1);
    let mut l2 = string_of("查询: `");
    push_str(&mut l2, query);
    push_str(&mut l2, "`");
    out.push_string(l2);
    let from = match opt_as_str(j.get("from")) {
        Some(s) => string_of(s),
        None => String::new(),
    };
    let to = match opt_as_str(j.get("to")) {
        Some(s) => string_of(s),
        None => String::new(),
    };
    let mut l3 = string_of("时间: ");
    push_str(&mut l3, from.as_str());
    push_str(&mut l3, " ~ ");
    push_str(&mut l3, to.as_str());
    out.push_string(l3);
    out.push_line("");
    let ghost head = out.lines@;
    let mut i: usize = 0;
    assert(hits@.take(0) =~= Seq::<Json>::empty());
    assert(head + hits_lines(Seq::empty(), fv) =~= head);
    while i < hits.len()
        invariant
            i <= hits@.len(),
            hits_of(*j) == Some(hits@),
            fv == views(fields@),
            out.wf(),
            out.lines@ == head + hits_lines(hits@.take(i as int), fv),
            forall|k: int|
                0 <= k < hits@.len() ==> {
                    let body = #[trigger] message_text(hit_message(hits@[k]), "message"@);
                    byte_len(body) > 1200 ==> char_boundary_at(body, 1200)
                },
        decreases hits.len() - i,
    {
        assert(hits@.take(i + 1).drop_last() =~= hits@.take(i as int));
        assert(hits@.take(i + 1).last() == hits@[i as int]);
        let ghost k = i as int;
        assert({
            let body = message_text(hit_message(hits@[k]), "message"@);
            byte_len(body) > 1200 ==> char_boundary_at(body, 1200)
        });
        push_hit(&mut out, i, &hits[i], &fields);
        assert(out.lines@ =~= head + hits_lines(hits@.take(i + 1), fv));
        i = i + 1;
    }
    assert(hits@.take(hits@.len() as int) =~= hits@);
    out.push_line("---");
    out.push_line("💡 **提示**: 可通过 fields 参数自定义返回字段，或用更精确的 query 缩小范围");
    assert(out.lines@ =~= seq![
        "✅ **搜索完成** ("@ + signed_decimal(took_of(*j) as int) + "ms) | 共 "@ + signed_decimal(
            total_of(*j) as int,
        ) + " 条 | 显示前 "@ + decimal(hits@.len()) + " 条"@,
        "查询: `"@ + query@ + "`"@,
        "时间: "@ + text_of(*j, "from"@) + " ~ "@ + text_of(*j, "to"@),
        ""@,
    ] + hits_lines(hits@, display_fields(opt_slice_view(fields_filter))) + seq![
        "---"@,
        "💡 **提示**: 可通过 fields 参数自定义返回字段，或用更精确的 query 缩小范围"@,
    ]);
    Ok(out.text)
}

/// The text of a search result without hits.
fn no_match_text(took: i64, total: i64, query: &str, range_secs: u64) -> (r: String)
    requires
        byte_len(query@) > 80 ==> char_boundary_at(query@, 80),
    ensures
        r@ == "✅ 查询完成 ("@ + signed_decimal(took as int) + "ms)，共 "@ + signed_decimal(total as int)
            + " 条结果\n\n查询: "@ + short_query(query@) + "\n时间范围: 过去 "@ + decimal(
            range_secs as nat,
        ) + " 秒"@ + short_range_hint(range_secs) + "\n\n未匹配到日志消息。"@,
{
    let mut r = string_of("✅ 查询完成 (");
    push_signed_decimal(&mut r, took);
    push_str(&mut r, "ms)，共 ");
    push_signed_decimal(&mut r, total);
    push_str(&mut r, " 条结果\n\n查询: ");
    if byte_length(query) > 80 {
        push_str(&mut r, byte_prefix_of(query, 80));
    } else {
        push_str(&mut r, query);
    }
    push_str(&mut r, "\n时间范围: 过去 ");
    push_decimal(&mut r, range_secs as u128);
    push_str(&mut r, " 秒");
    if range_secs < 7200 {
        push_str(&mut r, "。提示：当前时间范围较短，可尝试增大 range 参数（如 7200=2小时）");
    }
    push_str(&mut r, "\n\n未匹配到日志消息。");
    assert(r@ =~= "✅ 查询完成 ("@ + signed_decimal(took as int) + "ms)，共 "@ + signed_decimal(
        total as int,
    ) + " 条结果\n\n查询: "@ + short_query(query@) + "\n时间范围: 过去 "@ + decimal(range_secs as nat)
        + " 秒"@ + short_range_hint(range_secs) + "\n\n未匹配到日志消息。"@);
    r
}

/// What a search gives once the request was sent: the error of a request
/// that could not be sent; Graylog's failure status with the start of its
/// body; the error of parsing the reply; or the hits rendered, reported with
/// the capped range.
pub open spec fn search_reply_output(
    query: Seq<char>,
    range_secs: u64,
    fields: Option<Seq<char>>,
    sent: HttpOutcome,
    error_body: Option<String>,
    parsed: Option<Result<Json, String>>,
) -> Result<Seq<char>, Seq<char>> {
    match sent {
        HttpOutcome::SendFailed(e) => Err("Graylog API request failed: "@ + e@),
        HttpOutcome::Received { status, status_text } => if !is_success_status(status) {
            Err(
                search_http_error(
                    status_text@,
                    match error_body {
                        Some(b) => b@,
                        None => Seq::empty(),
                    },
                ),
            )
        } else {
            match parsed {
                Some(Ok(j)) => Ok(search_output(j, query, capped_range(range_secs), fields)),
                Some(Err(e)) => Err("Failed to parse Graylog response JSON: "@ + e@),
                None => Err(Seq::empty()),
            }
        },
    }
}

/// `search_reply_output`. The body of a failure (empty when it could not be
/// read) is needed for a failure status, the parsed reply for a success; the
/// cuts at 300, 80 and 1200 bytes must fall on character boundaries.
pub fn search_reply(
    query: &str,
    range_secs: u64,
    fields: Option<&str>,
    sent: HttpOutcome,
    error_body: Option<String>,
    parsed: Option<Result<Json, String>>,
) -> (r: Result<String, String>)
    requires
        sent matches HttpOutcome::Received { status, .. } && !is_success_status(status) ==> (
        error_body matches Some(b) && (byte_len(b@) > 300 ==> char_boundary_at(b@, 300))),
        sent matches HttpOutcome::Received { status, .. } && is_success_status(status) ==> (
        parsed is Some && (parsed matches Some(Ok(j)) ==> search_result_cuttable(j, query@))),
    ensures
        result_view(r) == search_reply_output(
            query@,
            range_secs,
            opt_slice_view(fields),
            sent,
            error_body,
            parsed,
        ),
{
    match sent {
        HttpOutcome::SendFailed(e) => {
            let mut m = string_of("Graylog API request failed: ");
            push_str(&mut m, e.as_str());
            Err(m)
        },
        HttpOutcome::Received { status, status_text } => {
            if !(200 <= status && status < 300) {
                let body = match error_body {
                    Some(b) => b,
                    None => String::new(),
                };
                return Err(search_http_error_message(status_text.as_str(), body.as_str()));
            }
            match parsed {
                Some(Ok(j)) => {
                    let r = format_search_result(&j, query, cap_range(range_secs), fields);
                    match r {
                        Ok(t) => Ok(t),
                        Err(e) => Err(e),
                    }
                },
                Some(Err(e)) => {
                    let mut m = string_of("Failed to parse Graylog response JSON: ");
                    push_str(&mut m, e.as_str());
                    Err(m)
                },
                None => Err(String::new()),
            }
        },
    }
}

/// A successful search renders the parsed reply with the fields the caller
/// chose and the capped range; two searches that differ only in the text of
/// a failure body render alike.
pub proof fn law_search_reply_uses_callers_fields(
    query: Seq<char>,
    range_secs: u64,
    fields: Option<Seq<char>>,
    status: u16,
    status_text: String,
    error_body: Option<String>,
    j: Json,
)
    requires
        is_success_status(status),
    ensures
        search_reply_output(
            query,
            range_secs,
            fields,
            HttpOutcome::Received { status, status_text },
            error_body,
            Some(Ok(j)),
        ) == Ok::<Seq<char>, Seq<char>>(search_output(j, query, capped_range(range_secs), fields)),
{
}

/// Every chosen field other than timestamp, source, message and tag that a
/// hit's message has is shown as `<field>: <its JSON>`.
pub proof fn law_chosen_fields_shown(msg: Option<Json>, fields: Seq<Seq<char>>, k: int, v: Json)
    requires
        0 <= k < fields.len(),
        !is_fixed_field(fields[k]),
        message_field(msg, fields[k]) == Some(v),
    ensures
        extra_field_lines(msg, fields).contains(fields[k] + ": "@ + v.text@),
    decreases fields.len(),
{
    let rest = extra_field_lines(msg, fields.drop_last());
    if k < fields.len() - 1 {
        assert(fields.drop_last()[k] == fields[k]);
        law_chosen_fields_shown(msg, fields.drop_last(), k, v);
        let i = choose|i: int| 0 <= i < rest.len() && rest[i] == fields[k] + ": "@ + v.text@;
        let f = fields.last();
        if !is_fixed_field(f) {
            match message_field(msg, f) {
                Some(w) => {
                    assert(rest.push(f + ": "@ + w.text@)[i] == rest[i]);
                },
                None => {},
            }
        }
    } else {
        assert(rest.push(fields[k] + ": "@ + v.text@)[rest.len() as int] == fields[k] + ": "@ + v.text@);
    }
}

/// The fields a caller names are those shown, in order: each non-blank name
/// of the comma-separated list, trimmed.
pub proof fn law_display_fields_from_caller(f: Seq<char>)
    ensures
        display_fields(Some(f)) == nonblank(split_on(f, ',').map_values(|p: Seq<char>| trim(p))),
        forall|i: int| 0 <= i < display_fields(Some(f)).len() ==> (#[trigger] display_fields(Some(f))[i]).len() > 0,
{
    lemma_nonblank_nonempty(split_on(f, ',').map_values(|p: Seq<char>| trim(p)));
}

proof fn lemma_nonblank_nonempty(items: Seq<Seq<char>>)
    ensures
        forall|i: int| 0 <= i < nonblank(items).len() ==> (#[trigger] nonblank(items)[i]).len() > 0,
    decreases items.len(),
{
    if items.len() > 0 {
        let rest = nonblank(items.drop_last());
        lemma_nonblank_nonempty(items.drop_last());
        if items.last().len() > 0 {
            assert forall|i: int| 0 <= i < nonblank(items).len() implies (
            #[trigger] nonblank(items)[i]).len() > 0 by {
                if i < rest.len() {
                    assert(rest.push(items.last())[i] == rest[i]);
                }
            }
        }
    }
}

/// A hit shows every chosen field (other than timestamp, source, message and
/// tag) that its message has, as `<field>: <its JSON>`.
pub proof fn law_hit_shows_chosen_fields(i: int, hit: Json, fields: Seq<Seq<char>>, k: int, v: Json)
    requires
        0 <= k < fields.len(),
        !is_fixed_field(fields[k]),
        message_field(hit_message(hit), fields[k]) == Some(v),
    ensures
        hit_lines(i, hit, fields).contains(fields[k] + ": "@ + v.text@),
{
    let msg = hit_message(hit);
    law_chosen_fields_shown(msg, fields, k, v);
    let extra = extra_field_lines(msg, fields);
    let x = choose|x: int| 0 <= x < extra.len() && extra[x] == fields[k] + ": "@ + v.text@;
    let tag_line = match opt_str(message_field(msg, "tag"@)) {
        Some(t) => seq!["标签: `"@ + t + "`"@],
        None => Seq::<Seq<char>>::empty(),
    };
    let body = message_text(msg, "message"@);
    let body_lines = if body.len() > 0 { seq![""@, shown_body(body)] } else { Seq::<Seq<char>>::empty() };
    let head = seq![
        "---"@,
        "**#"@ + decimal((i + 1) as nat) + "**  "@ + message_text(msg, "timestamp"@) + "  |  "@
            + message_text(msg, "source"@),
    ];
    let all = head + tag_line + extra + body_lines + seq![""@];
    assert(all == hit_lines(i, hit, fields));
    assert(all[head.len() + tag_line.len() + x] == extra[x]);
}

} // verus!
