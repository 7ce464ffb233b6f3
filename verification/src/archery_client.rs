//! The Archery client's configuration, its session, and the requests it
//! sends: URLs and form fields.

use std::sync::Arc;
use vstd::prelude::*;
use vstd::utf8::encode_utf8;
use crate::text::{chars_of, decimal, push_decimal, push_str, string_from_chars, string_of};

verus! {

/// `reqwest::Client`, carried through opaque.
#[verifier::external_type_specification]
#[verifier::external_body]
pub struct ExHttpClient(reqwest::Client);

/// `reqwest::cookie::Jar`, carried through opaque.
#[verifier::external_type_specification]
#[verifier::external_body]
pub struct ExCookieJar(reqwest::cookie::Jar);

// ---------------------------------------------------------------------------
// Percent-encoding
// ---------------------------------------------------------------------------

/// Bytes that `urlencoding::encode` leaves as they are.
pub open spec fn is_unreserved(b: u8) -> bool {
    ||| (0x30 <= b && b <= 0x39)
    ||| (0x41 <= b && b <= 0x5a)
    ||| (0x61 <= b && b <= 0x7a)
    ||| b == 0x2d
    ||| b == 0x2e
    ||| b == 0x5f
    ||| b == 0x7e
}

/// An upper-case hexadecimal digit.
pub open spec fn hex_digit(d: u8) -> char {
    if d < 10 {
        (0x30 + d) as char
    } else {
        (0x41 - 10 + d) as char
    }
}

/// The percent-encoding of a byte string: unreserved bytes stay, every other
/// byte becomes `%` and two upper-case hex digits.
pub open spec fn percent_encoded(bytes: Seq<u8>) -> Seq<char>
    decreases bytes.len(),
{
    if bytes.len() == 0 {
        Seq::empty()
    } else {
        let b = bytes.last();
        percent_encoded(bytes.drop_last()) + if is_unreserved(b) {
            seq![b as char]
        } else {
            seq!['%', hex_digit(b >> 4u8), hex_digit(b & 15u8)]
        }
    }
}

/// `urlencoding::encode`: percent-encodes every byte of the UTF-8 encoding of
/// `s` except ASCII letters, digits and `-`, `.`, `_`, `~`, with upper-case
/// hex digits.
#[verifier::external_body]
fn url_encode(s: &str) -> (r: String)
    ensures
        r@ == percent_encoded(encode_utf8(s@)),
{
    urlencoding::encode(s).into_owned()
}

// ---------------------------------------------------------------------------
// Client configuration
// ---------------------------------------------------------------------------

/// `s` without its trailing `c` characters, as `str::trim_end_matches(c)` gives it.
pub open spec fn trim_trailing(s: Seq<char>, c: char) -> Seq<char>
    decreases s.len(),
{
    if s.len() > 0 && s.last() == c {
        trim_trailing(s.drop_last(), c)
    } else {
        s
    }
}

/// `s.trim_end_matches(c)`.
pub fn trim_trailing_char(s: &str, c: char) -> (r: String)
    ensures
        r@ == trim_trailing(s@, c),
{
    let cs = chars_of(s);
    let mut n = cs.len();
    assert(cs@.take(n as int) =~= cs@);
    while n > 0 && cs[n - 1] == c
        invariant
            n <= cs@.len(),
            cs@ == s@,
            trim_trailing(s@, c) == trim_trailing(cs@.take(n as int), c),
        decreases n,
    {
        assert(cs@.take(n as int).drop_last() =~= cs@.take(n - 1));
        n = n - 1;
    }
    string_from_chars(cs.as_slice(), 0, n)
}

/// Where and as whom to log in to Archery.
pub struct ArcheryClient {
    pub url: String,
    pub username: String,
    pub password: String,
    pub login_timeout_ms: u64,
}

impl ArcheryClient {
    /// A client for the Archery at `url` (trailing slashes dropped).
    pub fn new(url: &str, username: &str, password: &str, login_timeout_ms: u64) -> (r: Self)
        ensures
            r.url@ == trim_trailing(url@, '/'),
            r.username@ == username@,
            r.password@ == password@,
            r.login_timeout_ms == login_timeout_ms,
    {
        ArcheryClient {
            url: trim_trailing_char(url, '/'),
            username: string_of(username),
            password: string_of(password),
            login_timeout_ms,
        }
    }
}

// ---------------------------------------------------------------------------
// Session and requests
// ---------------------------------------------------------------------------

/// A logged-in Archery session: the HTTP client that holds its cookies and
/// the CSRF token that every request sends.
pub struct ArcherySession {
    pub base_url: String,
    pub client: reqwest::Client,
    pub jar: Arc<reqwest::cookie::Jar>,
    pub csrf_token: String,
}

/// The URL that lists the instances the user may read.
pub open spec fn instances_url(base: Seq<char>) -> Seq<char> {
    base + "/group/user_all_instances/?tag_codes%5B%5D=can_read"@
}

/// The `Referer` every query request sends.
pub open spec fn query_referer(base: Seq<char>) -> Seq<char> {
    base + "/sqlquery/"@
}

/// The URL that lists the databases of an instance.
pub open spec fn databases_url(base: Seq<char>, instance: Seq<char>) -> Seq<char> {
    base + "/instance/instance_resource/?instance_name="@ + percent_encoded(encode_utf8(instance))
        + "&resource_type=database"@
}

/// The URL that lists the tables of a database.
pub open spec fn tables_url(base: Seq<char>, instance: Seq<char>, database: Seq<char>) -> Seq<
    char,
> {
    base + "/instance/instance_resource/?instance_name="@ + percent_encoded(encode_utf8(instance))
        + "&db_name="@ + percent_encoded(encode_utf8(database)) + "&resource_type=table"@
}

/// The URL that describes a table.
pub open spec fn describe_url(base: Seq<char>) -> Seq<char> {
    base + "/instance/describetable/"@
}

/// The URL that runs a query.
pub open spec fn query_url(base: Seq<char>) -> Seq<char> {
    base + "/query/"@
}

/// The views of a list of form fields.
pub open spec fn form_view(fields: Seq<(String, String)>) -> Seq<(Seq<char>, Seq<char>)> {
    fields.map_values(|f: (String, String)| (f.0@, f.1@))
}

/// The form fields of a table description.
pub open spec fn describe_form(instance: Seq<char>, database: Seq<char>, table: Seq<char>) -> Seq<
    (Seq<char>, Seq<char>),
> {
    seq![
        ("instance_name"@, instance),
        ("db_name"@, database),
        ("schema_name"@, Seq::empty()),
        ("tb_name"@, table),
    ]
}

/// The form fields of a query; the database defaults to the instance's name.
pub open spec fn query_form(
    instance: Seq<char>,
    database: Option<Seq<char>>,
    sql: Seq<char>,
    limit: nat,
) -> Seq<(Seq<char>, Seq<char>)> {
    seq![
        ("instance_name"@, instance),
        (
            "db_name"@,
            match database {
                Some(d) => d,
                None => instance,
            },
        ),
        ("sql_content"@, sql),
        ("limit_num"@, decimal(limit)),
    ]
}

/// The view of an optional string slice.
pub open spec fn opt_view(o: Option<&str>) -> Option<Seq<char>> {
    match o {
        Some(s) => Some(s@),
        None => None,
    }
}

fn pair(a: &str, b: &str) -> (r: (String, String))
    ensures
        r.0@ == a@,
        r.1@ == b@,
{
    (string_of(a), string_of(b))
}

impl ArcherySession {
    /// `instances_url`.
    pub fn instances_url(&self) -> (r: String)
        ensures
            r@ == instances_url(self.base_url@),
    {
        let mut r = string_of(self.base_url.as_str());
        push_str(&mut r, "/group/user_all_instances/?tag_codes%5B%5D=can_read");
        r
    }

    /// `query_referer`.
    pub fn referer(&self) -> (r: String)
        ensures
            r@ == query_referer(self.base_url@),
    {
        let mut r = string_of(self.base_url.as_str());
        push_str(&mut r, "/sqlquery/");
        r
    }

    /// `databases_url`.
    pub fn databases_url(&self, instance: &str) -> (r: String)
        ensures
            r@ == databases_url(self.base_url@, instance@),
    {
        let mut r = string_of(self.base_url.as_str());
        push_str(&mut r, "/instance/instance_resource/?instance_name=");
        let enc = url_encode(instance);
        push_str(&mut r, enc.as_str());
        push_str(&mut r, "&resource_type=database");
        r
    }

    /// `tables_url`.
    pub fn tables_url(&self, instance: &str, database: &str) -> (r: String)
        ensures
            r@ == tables_url(self.base_url@, instance@, database@),
    {
        let mut r = string_of(self.base_url.as_str());
        push_str(&mut r, "/instance/instance_resource/?instance_name=");
        let enc = url_encode(instance);
        push_str(&mut r, enc.as_str());
        push_str(&mut r, "&db_name=");
        let enc_db = url_encode(database);
        push_str(&mut r, enc_db.as_str());
        push_str(&mut r, "&resource_type=table");
        r
    }

    /// `describe_url`.
    pub fn describe_url(&self) -> (r: String)
        ensures
            r@ == describe_url(self.base_url@),
    {
        let mut r = string_of(self.base_url.as_str());
        push_str(&mut r, "/instance/describetable/");
        r
    }

    /// `query_url`.
    pub fn query_url(&self) -> (r: String)
        ensures
            r@ == query_url(self.base_url@),
    {
        let mut r = string_of(self.base_url.as_str());
        push_str(&mut r, "/query/");
        r
    }
}

/// The form fields that describe a table.
pub fn describe_table_form(instance: &str, database: &str, table: &str) -> (r: Vec<
    (String, String),
>)
    ensures
        form_view(r@) == describe_form(instance@, database@, table@),
{
    let mut r: Vec<(String, String)> = Vec::new();
    r.push(pair("instance_name", instance));
    r.push(pair("db_name", database));
    r.push((string_of("schema_name"), String::new()));
    r.push(pair("tb_name", table));
    assert(form_view(r@) =~= describe_form(instance@, database@, table@));
    r
}

/// The form fields that run a query.
pub fn execute_sql_form(instance: &str, database: Option<&str>, sql: &str, limit: u64) -> (r: Vec<
    (String, String),
>)
    ensures
        form_view(r@) == query_form(instance@, opt_view(database), sql@, limit as nat),
{
    let db_name = match database {
        Some(d) => d,
        None => instance,
    };
    let mut r: Vec<(String, String)> = Vec::new();
    r.push(pair("instance_name", instance));
    r.push(pair("db_name", db_name));
    r.push(pair("sql_content", sql));
    let mut l = String::new();
    push_decimal(&mut l, limit as u128);
    r.push((string_of("limit_num"), l));
    assert(form_view(r@) =~= query_form(instance@, opt_view(database), sql@, limit as nat));
    r
}

} // verus!
