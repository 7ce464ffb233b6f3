//! What each Archery tool makes of its exchange with the server once a
//! session is had: how the request went, the reply's body, and what that
//! body holds, each taken as a value.

use vstd::prelude::*;
use crate::archery_format::{
    InstanceListing, check_http_status, quoted_text, databases_output, describe_output, format_databases,
    format_table_description, format_tables, instance_listing_ok, is_success_status,
    summarize_instances, tables_output, text_result,
};
use crate::archery_login::HttpOutcome;
use crate::json::Json;
use crate::query_result::opt_array;
use crate::query_result::opt_i64;
use crate::query_result::{
    MAX_PLAIN_BYTES, reports_error, is_json_content_type, query_json_output, query_plain_output,
    render_plain_result, render_query_json, result_view,
};
use crate::text::{byte_len, char_boundary_at, find, push_str, string_of};

verus! {

/// The request was answered with a 2xx status.
pub open spec fn answered(sent: HttpOutcome) -> bool {
    sent matches HttpOutcome::Received { status, .. } && is_success_status(status)
}

/// The error of a request that was not answered with a 2xx status: it could
/// not be sent, or the status it got.
pub open spec fn exchange_error(what: Seq<char>, sent: HttpOutcome) -> Option<Seq<char>> {
    match sent {
        HttpOutcome::SendFailed(e) => Some(what + " request failed: "@ + e@),
        HttpOutcome::Received { status, status_text } => if is_success_status(status) {
            None
        } else {
            Some(what + " returned HTTP "@ + status_text@)
        },
    }
}

/// Checks how a request went: `Ok` when it was answered with a 2xx status.
pub fn check_exchange(what: &str, sent: &HttpOutcome) -> (r: Result<(), String>)
    ensures
        match exchange_error(what@, *sent) {
            Some(e) => r matches Err(m) && m@ == e,
            None => r is Ok && answered(*sent),
        },
{
    match sent {
        HttpOutcome::SendFailed(e) => {
            let mut m = string_of(what);
            push_str(&mut m, " request failed: ");
            push_str(&mut m, e.as_str());
            Err(m)
        },
        HttpOutcome::Received { status, status_text } => check_http_status(
            *status,
            what,
            status_text.as_str(),
        ),
    }
}

/// The JSON reply of a request (`what` names the request in errors,
/// `parsed_what` names the reply): the parsed body when the request was
/// answered and the body is JSON.
pub open spec fn json_reply(
    what: Seq<char>,
    parsed_what: Seq<char>,
    sent: HttpOutcome,
    body: Option<Result<Json, String>>,
) -> Result<Json, Seq<char>> {
    match exchange_error(what, sent) {
        Some(e) => Err(e),
        None => match body {
            Some(Ok(j)) => Ok(j),
            Some(Err(e)) => Err("Failed to parse "@ + parsed_what + " JSON: "@ + e@),
            None => Err(Seq::empty()),
        },
    }
}

/// `json_reply`.
fn json_reply_of(what: &str, parsed_what: &str, sent: &HttpOutcome, body: Option<Result<Json, String>>) -> (r:
    Result<Json, String>)
    requires
        answered(*sent) ==> body is Some,
    ensures
        match json_reply(what@, parsed_what@, *sent, body) {
            Ok(j) => r == Ok::<Json, String>(j),
            Err(e) => r matches Err(m) && m@ == e,
        },
{
    check_exchange(what, sent)?;
    match body {
        Some(Ok(j)) => Ok(j),
        Some(Err(e)) => {
            let mut m = string_of("Failed to parse ");
            push_str(&mut m, parsed_what);
            push_str(&mut m, " JSON: ");
            push_str(&mut m, e.as_str());
            Err(m)
        },
        None => Err(String::new()),
    }
}

/// What `list_instances` gives: the request's error, the body's, or the
/// instances grouped.
pub fn instances_reply(sent: HttpOutcome, body: Option<Result<Json, String>>) -> (r: Result<
    InstanceListing,
    String,
>)
    requires
        answered(sent) ==> body is Some,
    ensures
        match json_reply("List instances"@, "list instances"@, sent, body) {
            Err(e) => r matches Err(m) && m@ == e,
            Ok(j) => instance_listing_ok(j, r),
        },
{
    let j = json_reply_of("List instances", "list instances", &sent, body)?;
    summarize_instances(j)
}

/// A formatter's result after the reply was had.
pub open spec fn after_reply(
    reply: Result<Json, Seq<char>>,
    output: spec_fn(Json) -> Result<Seq<char>, Seq<char>>,
) -> Result<Seq<char>, Seq<char>> {
    match reply {
        Err(e) => Err(e),
        Ok(j) => output(j),
    }
}

/// What `list_databases` gives: the request's error, the body's, or the
/// databases listed.
pub fn databases_reply(instance: &str, sent: HttpOutcome, body: Option<Result<Json, String>>) -> (r:
    Result<String, String>)
    requires
        answered(sent) ==> body is Some,
    ensures
        text_result(r) == after_reply(
            json_reply("List databases"@, "list databases"@, sent, body),
            |j: Json| databases_output(instance@, j),
        ),
{
    let j = json_reply_of("List databases", "list databases", &sent, body)?;
    format_databases(instance, &j)
}

/// What `list_tables` gives: the request's error, the body's, or the tables
/// listed.
pub fn tables_reply(database: &str, sent: HttpOutcome, body: Option<Result<Json, String>>) -> (r:
    Result<String, String>)
    requires
        answered(sent) ==> body is Some,
    ensures
        text_result(r) == after_reply(
            json_reply("List tables"@, "list tables"@, sent, body),
            |j: Json| tables_output(database@, j),
        ),
{
    let j = json_reply_of("List tables", "list tables", &sent, body)?;
    format_tables(database, &j)
}

/// What `describe_table` gives: the request's error, the body's, or the
/// table described.
pub fn describe_reply(
    instance: &str,
    database: &str,
    table: &str,
    sent: HttpOutcome,
    body: Option<Result<Json, String>>,
) -> (r: Result<String, String>)
    requires
        answered(sent) ==> body is Some,
    ensures
        text_result(r) == after_reply(
            json_reply("Describe table"@, "describe table"@, sent, body),
            |j: Json| describe_output(instance@, database@, table@, j),
        ),
{
    let j = json_reply_of("Describe table", "describe table", &sent, body)?;
    format_table_description(instance, database, table, &j)
}

/// What `execute_sql` gives: the request's error; the error of reading the
/// body; a reply that is not JSON shown as text; the error of parsing a JSON
/// reply; or what the JSON reply says.
pub open spec fn sql_reply_output(
    sent: HttpOutcome,
    elapsed: nat,
    content_type: Seq<char>,
    text: Option<Result<String, String>>,
    parsed: Option<Result<Json, String>>,
) -> Result<Seq<char>, Seq<char>> {
    match exchange_error("SQL Query"@, sent) {
        Some(e) => Err(e),
        None => match text {
            Some(Err(e)) => Err("Failed to read response text: "@ + e@),
            Some(Ok(t)) => if find(content_type, "json"@) is None {
                Ok(query_plain_output(t@, elapsed))
            } else {
                match parsed {
                    Some(Err(e)) => Err("Failed to parse query response JSON: "@ + e@),
                    Some(Ok(j)) => query_json_output(j, elapsed),
                    None => Err(Seq::empty()),
                }
            },
            None => Err(Seq::empty()),
        },
    }
}

/// `sql_reply_output`. The body's text is needed once the request was
/// answered, and its parse once the content type names JSON; a text that is
/// not JSON and is cut must be cut at a character boundary.
pub fn sql_reply(
    sent: HttpOutcome,
    elapsed_ms: u128,
    content_type: &str,
    text: Option<Result<String, String>>,
    parsed: Option<Result<Json, String>>,
) -> (r: Result<String, String>)
    requires
        answered(sent) ==> text is Some,
        answered(sent) ==> match text {
            Some(Ok(t)) => if find(content_type@, "json"@) is None {
                byte_len(t@) > MAX_PLAIN_BYTES ==> char_boundary_at(t@, MAX_PLAIN_BYTES as int)
            } else {
                parsed is Some
            },
            _ => true,
        },
    ensures
        result_view(r) == sql_reply_output(sent, elapsed_ms as nat, content_type@, text, parsed),
{
    check_exchange("SQL Query", &sent)?;
    let t = match text {
        Some(Ok(t)) => t,
        Some(Err(e)) => {
            let mut m = string_of("Failed to read response text: ");
            push_str(&mut m, e.as_str());
            return Err(m);
        },
        None => {
            return Err(String::new());
        },
    };
    if !is_json_content_type(content_type) {
        return Ok(render_plain_result(t.as_str(), elapsed_ms));
    }
    match parsed {
        Some(Ok(j)) => render_query_json(&j, elapsed_ms),
        Some(Err(e)) => {
            let mut m = string_of("Failed to parse query response JSON: ");
            push_str(&mut m, e.as_str());
            Err(m)
        },
        None => Err(String::new()),
    }
}

/// A query fails exactly when the request was not answered with a 2xx
/// status, its body could not be read, or the reply is JSON that does not
/// parse or that reports an error (status 1 or 2, an `error` or `err` key).
pub proof fn law_sql_reply_fails_exactly_when(
    sent: HttpOutcome,
    elapsed: nat,
    content_type: Seq<char>,
    text: Option<Result<String, String>>,
    parsed: Option<Result<Json, String>>,
)
    requires
        answered(sent) ==> text is Some,
        answered(sent) && (text matches Some(Ok(_))) && find(content_type, "json"@) is Some
            ==> parsed is Some,
    ensures
        sql_reply_output(sent, elapsed, content_type, text, parsed) is Err <==> {
            ||| !answered(sent)
            ||| text matches Some(Err(_))
            ||| (find(content_type, "json"@) is Some && (text matches Some(Ok(_))) && ((
            parsed matches Some(Err(_))) || (parsed matches Some(Ok(j)) && reports_error(j))))
        },
{
}

/// A table description fails exactly when the request was not answered with
/// a 2xx status, the reply is not JSON, its `status` is not 0 (a missing
/// status counts as -1), or it has no `data.rows` array; in that last case the
/// error says the table returned no structure.
pub proof fn law_describe_reply_fails_exactly_when(
    instance: Seq<char>,
    database: Seq<char>,
    table: Seq<char>,
    sent: HttpOutcome,
    body: Option<Result<Json, String>>,
)
    requires
        answered(sent) ==> body is Some,
    ensures
        ({
            let r = after_reply(
                json_reply("Describe table"@, "describe table"@, sent, body),
                |j: Json| describe_output(instance, database, table, j),
            );
            let status_ok = |j: Json| match opt_i64(j.field("status"@)) {
                Some(s) => s == 0,
                None => false,
            };
            let rows = |j: Json| match j.field("data"@) {
                Some(d) => opt_array(d.field("rows"@)),
                None => None,
            };
            &&& r is Err <==> {
                ||| !answered(sent)
                ||| body matches Some(Err(_))
                ||| (body matches Some(Ok(j)) && (!status_ok(j) || rows(j) is None))
            }
            &&& (answered(sent) && (body matches Some(Ok(j)) && status_ok(j) && rows(j) is None)) ==> r
                == Err::<Seq<char>, Seq<char>>(quoted_text("表 "@, table, " 没有返回结构信息。"@))
        }),
{
}

/// A JSON reply to a query is rendered, never shown as it came: once the
/// request was answered with a 2xx status, the content type names JSON and
/// the body parsed as `j`, the result is what `render_query_json` makes of
/// `j`; and two replies that parse to the same JSON give the same result,
/// whatever their text.
pub proof fn law_sql_json_reply_rendered(
    sent: HttpOutcome,
    elapsed: nat,
    content_type: Seq<char>,
    text: String,
    other_text: String,
    j: Json,
)
    requires
        answered(sent),
        find(content_type, "json"@) is Some,
    ensures
        sql_reply_output(sent, elapsed, content_type, Some(Ok(text)), Some(Ok(j))) == query_json_output(
            j,
            elapsed,
        ),
        sql_reply_output(sent, elapsed, content_type, Some(Ok(text)), Some(Ok(j))) == sql_reply_output(
            sent,
            elapsed,
            content_type,
            Some(Ok(other_text)),
            Some(Ok(j)),
        ),
        sql_reply_output(sent, elapsed, content_type, Some(Ok(text)), Some(Ok(j))) is Err
            <==> reports_error(j),
{
}

} // verus!
