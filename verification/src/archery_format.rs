//! What the Archery client makes of the JSON replies that list instances,
//! databases and tables, and of a table's description.

use vstd::prelude::*;
use crate::json::{Json, JsonValue, deref_opt, or_else, or_else_ref};
use crate::query_result::{opt_array, opt_as_i64, opt_as_str, opt_i64, opt_str};
use crate::text::{
    LineText, chars_of, decimal, has_prefix, join, lemma_split_on_nonempty, lemma_split_step,
    push_decimal, push_str, split_on, starts_with, string_from_chars, string_of, trim,
    trim_bounds,
};

verus! {

/// The status an HTTP client reports success for (2xx).
pub open spec fn is_success_status(code: u16) -> bool {
    200 <= code && code < 300
}

/// An HTTP status check: `Ok` on success, else `"<what> returned HTTP <status>"`.
pub fn check_http_status(code: u16, what: &str, status_text: &str) -> (r: Result<(), String>)
    ensures
        r is Ok <==> is_success_status(code),
        r matches Err(e) ==> e@ == what@ + " returned HTTP "@ + status_text@,
{
    if 200 <= code && code < 300 {
        Ok(())
    } else {
        let mut e = string_of(what);
        push_str(&mut e, " returned HTTP ");
        push_str(&mut e, status_text);
        Err(e)
    }
}

// ---------------------------------------------------------------------------
// Instances
// ---------------------------------------------------------------------------

/// The instances the user may read, grouped.
pub enum InstanceListing {
    /// The user may read no instance.
    NoInstances { message: String },
    /// Names of `hotel_distribution` instances, names of the others, and the
    /// instances as Archery listed them.
    Found { message: String, hotel: Vec<String>, other: Vec<String>, instances: Vec<Json> },
}

/// The name of a listed instance: `instance_name`, else `name`, if a string;
/// else the instance as JSON text.
pub open spec fn instance_name(inst: Json) -> Seq<char> {
    match opt_str(or_else(inst.field("instance_name"@), inst.field("name"@))) {
        Some(s) => s,
        None => inst.text@,
    }
}

/// Names of hotel instances (those beginning with `hotel_distribution`), in order.
pub open spec fn hotel_names(items: Seq<Json>) -> Seq<Seq<char>>
    decreases items.len(),
{
    if items.len() == 0 {
        Seq::empty()
    } else {
        let rest = hotel_names(items.drop_last());
        if has_prefix(instance_name(items.last()), "hotel_distribution"@) {
            rest.push(instance_name(items.last()))
        } else {
            rest
        }
    }
}

/// Names of the other instances, in order.
pub open spec fn other_names(items: Seq<Json>) -> Seq<Seq<char>>
    decreases items.len(),
{
    if items.len() == 0 {
        Seq::empty()
    } else {
        let rest = other_names(items.drop_last());
        if has_prefix(instance_name(items.last()), "hotel_distribution"@) {
            rest
        } else {
            rest.push(instance_name(items.last()))
        }
    }
}

/// The string views of a list of strings.
pub open spec fn name_views(v: Seq<String>) -> Seq<Seq<char>> {
    v.map_values(|s: String| s@)
}

/// What `list_instances` makes of the reply: it fails without a `data` array.
pub open spec fn instance_listing_ok(j: Json, r: Result<InstanceListing, String>) -> bool {
    match opt_array(j.field("data"@)) {
        None => r matches Err(e) && e@ == "Missing 'data' array in response"@,
        Some(items) => if items.len() == 0 {
            r matches Ok(InstanceListing::NoInstances { message }) && message@
                == "当前用户没有可访问的数据库实例。"@
        } else {
            r matches Ok(InstanceListing::Found { message, hotel, other, instances }) && {
                &&& message@ == "登录成功，共 "@ + decimal(items.len()) + " 个可用数据库实例"@
                &&& name_views(hotel@) == hotel_names(items)
                &&& name_views(other@) == other_names(items)
                &&& instances@ == items
            }
        },
    }
}

/// `instance_name`.
fn instance_name_string(inst: &Json) -> (r: String)
    ensures
        r@ == instance_name(*inst),
{
    match opt_as_str(or_else_ref(inst.get("instance_name"), inst.get("name"))) {
        Some(s) => string_of(s),
        None => string_of(inst.as_text()),
    }
}

/// Groups the instances of a `user_all_instances` reply.
pub fn summarize_instances(j: Json) -> (r: Result<InstanceListing, String>)
    ensures
        instance_listing_ok(j, r),
{
    let data = j.into_field("data");
    let items = match data {
        Some(d) => match d.value {
            JsonValue::Array(items) => items,
            _ => {
                return Err(string_of("Missing 'data' array in response"));
            },
        },
        None => {
            return Err(string_of("Missing 'data' array in response"));
        },
    };
    if items.len() == 0 {
        return Ok(InstanceListing::NoInstances { message: string_of("当前用户没有可访问的数据库实例。") });
    }
    let mut hotel: Vec<String> = Vec::new();
    let mut other: Vec<String> = Vec::new();
    let mut i: usize = 0;
    while i < items.len()
        invariant
            i <= items@.len(),
            name_views(hotel@) == hotel_names(items@.take(i as int)),
            name_views(other@) == other_names(items@.take(i as int)),
        decreases items.len() - i,
    {
        assert(items@.take(i + 1).drop_last() =~= items@.take(i as int));
        assert(items@.take(i + 1).last() == items@[i as int]);
        let name = instance_name_string(&items[i]);
        let nc = chars_of(name.as_str());
        let ghost h = hotel@;
        let ghost o = other@;
        if starts_with(nc.as_slice(), "hotel_distribution") {
            hotel.push(name);
            assert(name_views(hotel@) =~= name_views(h).push(name@));
        } else {
            other.push(name);
            assert(name_views(other@) =~= name_views(o).push(name@));
        }
        i = i + 1;
    }
    assert(items@.take(items@.len() as int) =~= items@);
    let mut message = string_of("登录成功，共 ");
    push_decimal(&mut message, items.len() as u128);
    push_str(&mut message, " 个可用数据库实例");
    Ok(InstanceListing::Found { message, hotel, other, instances: items })
}

// ---------------------------------------------------------------------------
// Databases and tables
// ---------------------------------------------------------------------------

/// `"   - <name>"` for each string item, in order; other items are skipped.
pub open spec fn bullet_lines(items: Seq<Json>) -> Seq<Seq<char>>
    decreases items.len(),
{
    if items.len() == 0 {
        Seq::empty()
    } else {
        let rest = bullet_lines(items.drop_last());
        match items.last().str_value() {
            Some(s) => rest.push("   - "@ + s),
            None => rest,
        }
    }
}

/// `<a>"<name>"<b>`.
pub open spec fn quoted_text(a: Seq<char>, name: Seq<char>, b: Seq<char>) -> Seq<char> {
    a + "\""@ + name + "\""@ + b
}

/// A list of names under a heading, followed by a hint.
pub open spec fn listing_text(heading: Seq<char>, items: Seq<Json>, hint: Seq<Seq<char>>) -> Seq<
    char,
> {
    join(seq![heading, ""@] + bullet_lines(items) + seq![""@, "---"@] + hint, "\n"@)
}

/// What `list_databases` makes of the reply.
pub open spec fn databases_output(instance: Seq<char>, j: Json) -> Result<Seq<char>, Seq<char>> {
    let none = quoted_text("实例 "@, instance, " 下没有数据库。"@);
    match opt_array(j.field("data"@)) {
        None => Err(none),
        Some(items) => if items.len() == 0 {
            Ok(none)
        } else {
            Ok(
                listing_text(
                    quoted_text("📂 **实例 "@, instance, " 下的数据库 ("@) + decimal(items.len()) + "个)**"@,
                    items,
                    seq![
                        "💡 **下一步**: 选择数据库后可使用:"@,
                        "   1. list_archery_tables → 查看表列表"@,
                        "   2. execute_archery_sql → 直接执行 SQL"@,
                    ],
                ),
            )
        },
    }
}

/// What `list_tables` makes of the reply.
pub open spec fn tables_output(database: Seq<char>, j: Json) -> Result<Seq<char>, Seq<char>> {
    let none = quoted_text("数据库 "@, database, " 中没有表。"@);
    match opt_array(j.field("data"@)) {
        None => Err(none),
        Some(items) => if items.len() == 0 {
            Ok(none)
        } else {
            Ok(
                listing_text(
                    quoted_text("📋 **数据库 "@, database, " 中的表 ("@) + decimal(items.len()) + "个)**"@,
                    items,
                    seq![
                        "💡 **下一步**: 选择表后可使用:"@,
                        "   1. describe_archery_table → 查看表结构"@,
                        "   2. execute_archery_sql → 执行 SQL 查询"@,
                    ],
                ),
            )
        },
    }
}

/// The view of a `Result` of strings.
pub open spec fn text_result(r: Result<String, String>) -> Result<Seq<char>, Seq<char>> {
    match r {
        Ok(s) => Ok(s@),
        Err(e) => Err(e@),
    }
}

/// Appends the bullet lines of `items`.
fn push_bullets(out: &mut LineText, items: &Vec<Json>)
    requires
        old(out).wf(),
    ensures
        final(out).wf(),
        final(out).lines@ == old(out).lines@ + bullet_lines(items@),
{
    let ghost start = out.lines@;
    let mut i: usize = 0;
    assert(items@.take(0) =~= Seq::<Json>::empty());
    assert(start + bullet_lines(Seq::empty()) =~= start);
    while i < items.len()
        invariant
            i <= items@.len(),
            out.wf(),
            out.lines@ == start + bullet_lines(items@.take(i as int)),
        decreases items.len() - i,
    {
        assert(items@.take(i + 1).drop_last() =~= items@.take(i as int));
        assert(items@.take(i + 1).last() == items@[i as int]);
        match items[i].as_str() {
            Some(s) => {
                let mut line = string_of("   - ");
                push_str(&mut line, s);
                let ghost before = out.lines@;
                out.push_string(line);
                assert(out.lines@ =~= start + bullet_lines(items@.take(i + 1)));
            },
            None => {},
        }
        i = i + 1;
    }
    assert(items@.take(items@.len() as int) =~= items@);
}

/// A quoted name between two texts: `<a>"<name>"<b>`.
fn quoted(a: &str, name: &str, b: &str) -> (r: String)
    ensures
        r@ == quoted_text(a@, name@, b@),
{
    let mut r = string_of(a);
    push_str(&mut r, "\"");
    push_str(&mut r, name);
    push_str(&mut r, "\"");
    push_str(&mut r, b);
    r
}

/// Renders the databases of an instance as a Markdown list.
pub fn format_databases(instance: &str, j: &Json) -> (r: Result<String, String>)
    ensures
        text_result(r) == databases_output(instance@, *j),
{
    let items = match j.get("data") {
        Some(d) => match d.as_array() {
            Some(items) => items,
            None => {
                let e = quoted("实例 ", instance, " 下没有数据库。");
                assert(e@ =~= quoted_text("实例 "@, instance@, " 下没有数据库。"@));
                return Err(e);
            },
        },
        None => {
            let e = quoted("实例 ", instance, " 下没有数据库。");
            assert(e@ =~= quoted_text("实例 "@, instance@, " 下没有数据库。"@));
            return Err(e);
        },
    };
    if items.len() == 0 {
        let e = quoted("实例 ", instance, " 下没有数据库。");
        assert(e@ =~= quoted_text("实例 "@, instance@, " 下没有数据库。"@));
        return Ok(e);
    }
    let mut out = LineText::new();
    let mut heading = quoted("📂 **实例 ", instance, " 下的数据库 (");
    push_decimal(&mut heading, items.len() as u128);
    push_str(&mut heading, "个)**");
    assert(heading@ =~= quoted_text("📂 **实例 "@, instance@, " 下的数据库 ("@) + decimal(items@.len())
        + "个)**"@);
    out.push_string(heading);
    out.push_line("");
    push_bullets(&mut out, items);
    out.push_line("");
    out.push_line("---");
    out.push_line("💡 **下一步**: 选择数据库后可使用:");
    out.push_line("   1. list_archery_tables → 查看表列表");
    out.push_line("   2. execute_archery_sql → 直接执行 SQL");
    assert(out.lines@ =~= seq![
        quoted_text("📂 **实例 "@, instance@, " 下的数据库 ("@) + decimal(items@.len()) + "个)**"@,
        ""@,
    ] + bullet_lines(items@) + seq![""@, "---"@] + seq![
        "💡 **下一步**: 选择数据库后可使用:"@,
        "   1. list_archery_tables → 查看表列表"@,
        "   2. execute_archery_sql → 直接执行 SQL"@,
    ]);
    Ok(out.text)
}

/// Renders the tables of a database as a Markdown list.
pub fn format_tables(database: &str, j: &Json) -> (r: Result<String, String>)
    ensures
        text_result(r) == tables_output(database@, *j),
{
    let items = match j.get("data") {
        Some(d) => match d.as_array() {
            Some(items) => items,
            None => {
                let e = quoted("数据库 ", database, " 中没有表。");
                assert(e@ =~= quoted_text("数据库 "@, database@, " 中没有表。"@));
                return Err(e);
            },
        },
        None => {
            let e = quoted("数据库 ", database, " 中没有表。");
            assert(e@ =~= quoted_text("数据库 "@, database@, " 中没有表。"@));
            return Err(e);
        },
    };
    if items.len() == 0 {
        let e = quoted("数据库 ", database, " 中没有表。");
        assert(e@ =~= quoted_text("数据库 "@, database@, " 中没有表。"@));
        return Ok(e);
    }
    let mut out = LineText::new();
    let mut heading = quoted("📋 **数据库 ", database, " 中的表 (");
    push_decimal(&mut heading, items.len() as u128);
    push_str(&mut heading, "个)**");
    assert(heading@ =~= quoted_text("📋 **数据库 "@, database@, " 中的表 ("@) + decimal(items@.len())
        + "个)**"@);
    out.push_string(heading);
    out.push_line("");
    push_bullets(&mut out, items);
    out.push_line("");
    out.push_line("---");
    out.push_line("💡 **下一步**: 选择表后可使用:");
    out.push_line("   1. describe_archery_table → 查看表结构");
    out.push_line("   2. execute_archery_sql → 执行 SQL 查询");
    assert(out.lines@ =~= seq![
        quoted_text("📋 **数据库 "@, database@, " 中的表 ("@) + decimal(items@.len()) + "个)**"@,
        ""@,
    ] + bullet_lines(items@) + seq![""@, "---"@] + seq![
        "💡 **下一步**: 选择表后可使用:"@,
        "   1. describe_archery_table → 查看表结构"@,
        "   2. execute_archery_sql → 执行 SQL 查询"@,
    ]);
    Ok(out.text)
}


// ---------------------------------------------------------------------------
// Table description
// ---------------------------------------------------------------------------

/// The pattern that reads a column definition of a `CREATE TABLE` statement:
/// its name, its type, and its comment.
pub open spec fn field_pattern() -> Seq<char> {
    "^`([^`]+)`\\s+([^\\s,]+[^,]*?)(?:\\s+(?:NOT\\s+)?NULL)?(?:\\s+AUTO_INCREMENT)?(?:\\s+DEFAULT\\s+[^,\\s]+)?(?:\\s+COMMENT\\s+'([^']*)')?"@
}

/// Capture groups 1 to 3 of the leftmost-first match of the regular
/// expression `pattern` in `haystack`, as the `regex` crate finds them; each
/// group is `None` when it took no part in the match. `None` when nothing
/// matches or `pattern` is not a valid expression.
pub uninterp spec fn regex_captures(pattern: Seq<char>, haystack: Seq<char>) -> Option<
    (Option<Seq<char>>, Option<Seq<char>>, Option<Seq<char>>),
>;

/// The views of three optional captured strings.
pub open spec fn captures_view(r: Option<(Option<String>, Option<String>, Option<String>)>) -> Option<
    (Option<Seq<char>>, Option<Seq<char>>, Option<Seq<char>>),
> {
    match r {
        Some((a, b, c)) => Some((opt_string_view(a), opt_string_view(b), opt_string_view(c))),
        None => None,
    }
}

/// The view of an optional string.
pub open spec fn opt_string_view(o: Option<String>) -> Option<Seq<char>> {
    match o {
        Some(s) => Some(s@),
        None => None,
    }
}

/// `regex::Regex::new(pattern)` then `captures(haystack)`, groups 1 to 3:
/// the result is `regex_captures(pattern, haystack)`.
#[verifier::external_body]
fn regex_captures_of(pattern: &str, haystack: &str) -> (r: Option<
    (Option<String>, Option<String>, Option<String>),
>)
    ensures
        captures_view(r) == regex_captures(pattern@, haystack@),
{
    let re = regex::Regex::new(pattern).ok()?;
    let caps = re.captures(haystack)?;
    let g1 = caps.get(1).map(|m| m.as_str().to_string());
    let g2 = caps.get(2).map(|m| m.as_str().to_string());
    let g3 = caps.get(3).map(|m| m.as_str().to_string());
    Some((g1, g2, g3))
}

/// An optional text, empty when missing.
pub open spec fn or_empty(o: Option<Seq<char>>) -> Seq<char> {
    match o {
        Some(s) => s,
        None => Seq::empty(),
    }
}

/// The name, type and comment of a column out of the capture groups of
/// `field_pattern`; a group that took no part reads as empty.
pub open spec fn column_of(
    caps: Option<(Option<Seq<char>>, Option<Seq<char>>, Option<Seq<char>>)>,
) -> Option<(Seq<char>, Seq<char>, Seq<char>)> {
    match caps {
        Some((a, b, c)) => Some((or_empty(a), or_empty(b), or_empty(c))),
        None => None,
    }
}

/// `column_of` of captured groups.
pub fn column_from_captures(caps: Option<(Option<String>, Option<String>, Option<String>)>) -> (r:
    Option<(String, String, String)>)
    ensures
        match r {
            Some(f) => column_of(captures_view(caps)) == Some((f.0@, f.1@, f.2@)),
            None => column_of(captures_view(caps)) is None,
        },
{
    match caps {
        Some((g1, g2, g3)) => {
            let name = match g1 {
                Some(x) => x,
                None => String::new(),
            };
            let typ = match g2 {
                Some(x) => x,
                None => String::new(),
            };
            let comment = match g3 {
                Some(x) => x,
                None => String::new(),
            };
            Some((name, typ, comment))
        },
        None => None,
    }
}

/// A trimmed DDL line that defines a column.
pub open spec fn is_column_line(t: Seq<char>) -> bool {
    &&& has_prefix(t, "`"@)
    &&& !has_prefix(t, "PRIMARY KEY"@)
    &&& !has_prefix(t, "KEY"@)
    &&& !has_prefix(t, "UNIQUE KEY"@)
    &&& !has_prefix(t, "CONSTRAINT"@)
}

/// The name, type and comment a DDL line defines, if it defines a column.
pub open spec fn field_of(line: Seq<char>) -> Option<(Seq<char>, Seq<char>, Seq<char>)> {
    let t = trim(line);
    if is_column_line(t) {
        column_of(regex_captures(field_pattern(), t))
    } else {
        None
    }
}

/// The columns that the lines of a DDL define, in order.
pub open spec fn ddl_fields(lines: Seq<Seq<char>>) -> Seq<(Seq<char>, Seq<char>, Seq<char>)>
    decreases lines.len(),
{
    if lines.len() == 0 {
        Seq::empty()
    } else {
        let rest = ddl_fields(lines.drop_last());
        match field_of(lines.last()) {
            Some(f) => rest.push(f),
            None => rest,
        }
    }
}

/// The views of a list of columns.
pub open spec fn fields_view(v: Seq<(String, String, String)>) -> Seq<(Seq<char>, Seq<char>, Seq<char>)> {
    v.map_values(|f: (String, String, String)| (f.0@, f.1@, f.2@))
}

/// The DDL of a description row: its second item, if it is a string.
pub open spec fn ddl_of(row: Json) -> Option<Seq<char>> {
    match row.value {
        JsonValue::Array(a) => if a@.len() >= 2 {
            a@[1].str_value()
        } else {
            None
        },
        _ => None,
    }
}

/// The DDL of the first row that has one.
pub open spec fn first_ddl(rows: Seq<Json>) -> Option<Seq<char>>
    decreases rows.len(),
{
    if rows.len() == 0 {
        None
    } else {
        match ddl_of(rows[0]) {
            Some(d) => Some(d),
            None => first_ddl(rows.drop_first()),
        }
    }
}

/// A row of the column summary table.
pub open spec fn field_line(f: (Seq<char>, Seq<char>, Seq<char>)) -> Seq<char> {
    "| `"@ + f.0 + "` | "@ + trim(f.1) + " | "@ + f.2 + " |"@
}

/// The column summary of a DDL (nothing when it defines no column).
pub open spec fn summary_lines(ddl: Seq<char>) -> Seq<Seq<char>> {
    let fields = if ddl.len() > 0 { ddl_fields(split_on(ddl, '\n')) } else { Seq::empty() };
    column_summary(fields)
}

/// The summary of some columns: a heading with their count and a Markdown
/// table with one row per column (nothing when there is no column).
pub open spec fn column_summary(fields: Seq<(Seq<char>, Seq<char>, Seq<char>)>) -> Seq<Seq<char>> {
    if fields.len() > 0 {
        seq![
            ""@,
            "**字段摘要 ("@ + decimal(fields.len()) + "个)**"@,
            ""@,
            "| 字段名 | 类型 | 注释 |"@,
            "| --- | --- | --- |"@,
        ] + fields.map_values(|f: (Seq<char>, Seq<char>, Seq<char>)| field_line(f))
    } else {
        Seq::empty()
    }
}

/// The lines of a table description.
pub open spec fn describe_lines(
    instance: Seq<char>,
    database: Seq<char>,
    table: Seq<char>,
    rows: Seq<Json>,
) -> Seq<Seq<char>> {
    let head = seq![
        "## 📐 表结构: "@ + table,
        ""@,
        "**实例**: "@ + instance,
        "**数据库**: "@ + database,
        ""@,
    ];
    let ddl_part = match first_ddl(rows) {
        Some(d) => seq!["```sql"@, d, "```"@] + summary_lines(d),
        None => Seq::empty(),
    };
    head + ddl_part + seq![""@, "---"@, "💡 **下一步**: 使用 execute_archery_sql 执行查询"@]
}

/// What `describe_table` makes of the reply.
pub open spec fn describe_output(
    instance: Seq<char>,
    database: Seq<char>,
    table: Seq<char>,
    j: Json,
) -> Result<Seq<char>, Seq<char>> {
    let status = match opt_i64(j.field("status"@)) {
        Some(s) => s,
        None => -1i64,
    };
    if status != 0 {
        Err(
            "获取表结构失败: "@ + match opt_str(or_else(j.field("msg"@), j.field("error"@))) {
                Some(m) => m,
                None => "未知错误"@,
            },
        )
    } else {
        let rows = match j.field("data"@) {
            Some(d) => opt_array(d.field("rows"@)),
            None => None,
        };
        let none = quoted_text("表 "@, table, " 没有返回结构信息。"@);
        match rows {
            None => Err(none),
            Some(rs) => if rs.len() == 0 {
                Ok(none)
            } else {
                Ok(join(describe_lines(instance, database, table, rs), "\n"@))
            },
        }
    }
}

/// `trim`.
pub fn trim_string(s: &str) -> (r: String)
    ensures
        r@ == trim(s@),
{
    let cs = chars_of(s);
    let (a, b) = trim_bounds(cs.as_slice(), 0, cs.len());
    assert(cs@.subrange(0, cs@.len() as int) =~= cs@);
    string_from_chars(cs.as_slice(), a, b)
}

/// `field_of` of the line `cs[start..end]`.
fn field_of_line(cs: &Vec<char>, start: usize, end: usize) -> (r: Option<(String, String, String)>)
    requires
        start <= end <= cs@.len(),
    ensures
        match r {
            Some(f) => field_of(cs@.subrange(start as int, end as int)) == Some((f.0@, f.1@, f.2@)),
            None => field_of(cs@.subrange(start as int, end as int)) is None,
        },
{
    let (a, b) = trim_bounds(cs.as_slice(), start, end);
    let t = string_from_chars(cs.as_slice(), a, b);
    let tc = chars_of(t.as_str());
    if starts_with(tc.as_slice(), "`") && !starts_with(tc.as_slice(), "PRIMARY KEY")
        && !starts_with(tc.as_slice(), "KEY") && !starts_with(tc.as_slice(), "UNIQUE KEY")
        && !starts_with(tc.as_slice(), "CONSTRAINT") {
        let pattern = "^`([^`]+)`\\s+([^\\s,]+[^,]*?)(?:\\s+(?:NOT\\s+)?NULL)?(?:\\s+AUTO_INCREMENT)?(?:\\s+DEFAULT\\s+[^,\\s]+)?(?:\\s+COMMENT\\s+'([^']*)')?";
        column_from_captures(regex_captures_of(pattern, t.as_str()))
    } else {
        None
    }
}

/// The columns a DDL defines: `ddl_fields` of its lines.
pub fn ddl_field_list(ddl: &str) -> (r: Vec<(String, String, String)>)
    ensures
        fields_view(r@) == ddl_fields(split_on(ddl@, '\n')),
{
    let cs = chars_of(ddl);
    let mut fields: Vec<(String, String, String)> = Vec::new();
    let mut start: usize = 0;
    let mut i: usize = 0;
    let ghost mut done: Seq<Seq<char>> = Seq::empty();
    assert(cs@.take(0) =~= Seq::<char>::empty());
    assert(split_on(cs@.take(0), '\n') =~= done.push(cs@.subrange(0, 0)));
    assert(fields_view(fields@) =~= ddl_fields(done));
    while i < cs.len()
        invariant
            start <= i <= cs@.len(),
            split_on(cs@.take(i as int), '\n') == done.push(cs@.subrange(start as int, i as int)),
            fields_view(fields@) == ddl_fields(done),
        decreases cs.len() - i,
    {
        proof {
            lemma_split_step(cs@, '\n', i as int, start as int, done);
        }
        if cs[i] == '\n' {
            let ghost seg = cs@.subrange(start as int, i as int);
            let ghost before = fields@;
            match field_of_line(&cs, start, i) {
                Some(f) => {
                    fields.push(f);
                    assert(fields_view(fields@) =~= fields_view(before).push((f.0@, f.1@, f.2@)));
                },
                None => {},
            }
            proof {
                assert(done.push(seg).drop_last() =~= done);
                done = done.push(seg);
            }
            start = i + 1;
        }
        i = i + 1;
    }
    assert(cs@.take(cs@.len() as int) =~= cs@);
    let ghost seg = cs@.subrange(start as int, cs@.len() as int);
    let ghost before = fields@;
    assert(done.push(seg).drop_last() =~= done);
    match field_of_line(&cs, start, cs.len()) {
        Some(f) => {
            fields.push(f);
            assert(fields_view(fields@) =~= fields_view(before).push((f.0@, f.1@, f.2@)));
        },
        None => {},
    }
    fields
}

/// The DDL of the first description row that has one.
fn first_ddl_of(rows: &Vec<Json>) -> (r: Option<&str>)
    ensures
        match r {
            Some(d) => first_ddl(rows@) == Some(d@),
            None => first_ddl(rows@) is None,
        },
{
    let mut i: usize = 0;
    assert(rows@.skip(0) =~= rows@);
    while i < rows.len()
        invariant
            i <= rows@.len(),
            first_ddl(rows@) == first_ddl(rows@.skip(i as int)),
        decreases rows.len() - i,
    {
        assert(rows@.skip(i as int)[0] == rows@[i as int]);
        assert(rows@.skip(i as int).drop_first() =~= rows@.skip(i + 1));
        match &rows[i].value {
            JsonValue::Array(a) => {
                if a.len() >= 2 {
                    match a[1].as_str() {
                        Some(d) => {
                            return Some(d);
                        },
                        None => {},
                    }
                }
            },
            _ => {},
        }
        i = i + 1;
    }
    None
}

/// Appends the column summary of a DDL.
fn push_summary(out: &mut LineText, ddl: &str)
    requires
        old(out).wf(),
    ensures
        final(out).wf(),
        final(out).lines@ == old(out).lines@ + summary_lines(ddl@),
{
    let ghost start = out.lines@;
    if ddl.as_bytes().len() == 0 {
        proof {
            vstd::string::is_ascii_spec_bytes(ddl);
        }
        assert(ddl@.len() == 0) by {
            if ddl@.len() > 0 {
                vstd::utf8::encode_utf8_first_scalar(ddl@);
            }
        }
        assert(out.lines@ =~= start + summary_lines(ddl@));
        return;
    }
    assert(ddl@.len() > 0);
    let fields = ddl_field_list(ddl);
    push_column_summary(out, &fields);
    assert(out.lines@ =~= start + summary_lines(ddl@));
}

/// Appends the summary of some columns (name, type, comment).
pub fn push_column_summary(out: &mut LineText, fields: &Vec<(String, String, String)>)
    requires
        old(out).wf(),
    ensures
        final(out).wf(),
        final(out).lines@ == old(out).lines@ + column_summary(fields_view(fields@)),
{
    let ghost start = out.lines@;
    let ghost fv = fields_view(fields@);
    if fields.len() == 0 {
        assert(out.lines@ =~= start + column_summary(fv));
        return;
    }
    out.push_line("");
    let mut count = string_of("**字段摘要 (");
    push_decimal(&mut count, fields.len() as u128);
    push_str(&mut count, "个)**");
    out.push_string(count);
    out.push_line("");
    out.push_line("| 字段名 | 类型 | 注释 |");
    out.push_line("| --- | --- | --- |");
    let ghost head = out.lines@;
    let mut i: usize = 0;
    while i < fields.len()
        invariant
            i <= fields@.len(),
            fv == fields_view(fields@),
            out.wf(),
            out.lines@ =~= head + fv.take(i as int).map_values(
                |f: (Seq<char>, Seq<char>, Seq<char>)| field_line(f),
            ),
        decreases fields.len() - i,
    {
        let mut line = string_of("| `");
        push_str(&mut line, fields[i].0.as_str());
        push_str(&mut line, "` | ");
        let typ = trim_string(fields[i].1.as_str());
        push_str(&mut line, typ.as_str());
        push_str(&mut line, " | ");
        push_str(&mut line, fields[i].2.as_str());
        push_str(&mut line, " |");
        proof {
            assert(fv[i as int] == (fields@[i as int].0@, fields@[i as int].1@, fields@[i as int].2@));
            assert(line@ =~= field_line(fv[i as int]));
            assert(fv.take(i + 1).map_values(|f: (Seq<char>, Seq<char>, Seq<char>)| field_line(f))
                =~= fv.take(i as int).map_values(
                |f: (Seq<char>, Seq<char>, Seq<char>)| field_line(f),
            ).push(field_line(fv[i as int])));
        }
        out.push_string(line);
        i = i + 1;
    }
    assert(fv.take(fv.len() as int) =~= fv);
    assert(out.lines@ =~= start + column_summary(fv));
}

/// Renders the description of a table: its DDL and a summary of its columns.
pub fn format_table_description(instance: &str, database: &str, table: &str, j: &Json) -> (r:
    Result<String, String>)
    ensures
        text_result(r) == describe_output(instance@, database@, table@, *j),
{
    let status = match opt_as_i64(j.get("status")) {
        Some(s) => s,
        None => -1i64,
    };
    if status != 0 {
        let mut e = string_of("获取表结构失败: ");
        match opt_as_str(or_else_ref(j.get("msg"), j.get("error"))) {
            Some(m) => push_str(&mut e, m),
            None => push_str(&mut e, "未知错误"),
        }
        return Err(e);
    }
    let rows = match j.get("data") {
        Some(d) => match d.get("rows") {
            Some(r) => r.as_array(),
            None => None,
        },
        None => None,
    };
    let rows = match rows {
        Some(rs) => rs,
        None => {
            return Err(quoted("表 ", table, " 没有返回结构信息。"));
        },
    };
    if rows.len() == 0 {
        return Ok(quoted("表 ", table, " 没有返回结构信息。"));
    }
    let mut out = LineText::new();
    out.push_string(concat_two("## 📐 表结构: ", table));
    out.push_line("");
    out.push_string(concat_two("**实例**: ", instance));
    out.push_string(concat_two("**数据库**: ", database));
    out.push_line("");
    let ghost head = out.lines@;
    match first_ddl_of(rows) {
        Some(ddl) => {
            out.push_line("```sql");
            out.push_line(ddl);
            out.push_line("```");
            push_summary(&mut out, ddl);
        },
        None => {},
    }
    out.push_line("");
    out.push_line("---");
    out.push_line("💡 **下一步**: 使用 execute_archery_sql 执行查询");
    assert(out.lines@ =~= describe_lines(instance@, database@, table@, rows@));
    Ok(out.text)
}

fn concat_two(a: &str, b: &str) -> (r: String)
    ensures
        r@ == a@ + b@,
{
    let mut r = string_of(a);
    push_str(&mut r, b);
    r
}

/// The bullet of a listed item: `   - <s>` for a string item, none otherwise.
pub open spec fn bullet_of(item: Json) -> Option<Seq<char>> {
    match item.str_value() {
        Some(s) => Some("   - "@ + s),
        None => None,
    }
}

/// A listing has one bullet line `   - <s>` for every string item `s`, in
/// order, and none for other items, whatever the number of items.
pub proof fn law_one_bullet_per_string(items: Seq<Json>)
    ensures
        bullet_lines(items) == items.filter_map(|j: Json| bullet_of(j)),
        bullet_lines(items).len() <= items.len(),
        (forall|i: int| 0 <= i < items.len() ==> (#[trigger] items[i]).str_value() is Some) ==> {
            &&& bullet_lines(items).len() == items.len()
            &&& forall|i: int|
                0 <= i < items.len() ==> #[trigger] bullet_lines(items)[i] == "   - "@
                    + items[i].str_value().unwrap()
        },
    decreases items.len(),
{
    if items.len() > 0 {
        law_one_bullet_per_string(items.drop_last());
        let f = |j: Json| bullet_of(j);
        assert(items.filter_map(f) == match f(items.last()) {
            Some(b) => items.drop_last().filter_map(f) + seq![b],
            None => items.drop_last().filter_map(f),
        });
        if forall|i: int| 0 <= i < items.len() ==> (#[trigger] items[i]).str_value() is Some {
            assert forall|i: int| 0 <= i < items.drop_last().len() implies (
            #[trigger] items.drop_last()[i]).str_value() is Some by {
                assert(items.drop_last()[i] == items[i]);
            }
            assert(items.last().str_value() is Some) by {
                assert(items[items.len() - 1].str_value() is Some);
            }
            assert forall|i: int| 0 <= i < items.len() implies #[trigger] bullet_lines(items)[i]
                == "   - "@ + items[i].str_value().unwrap() by {
                if i < items.len() - 1 {
                    assert(items.drop_last()[i] == items[i]);
                    assert(bullet_lines(items.drop_last())[i] == "   - "@ + items.drop_last()[i].str_value().unwrap());
                }
            }
        }
    }
}

/// Every listed instance is grouped exactly once: the hotel names and the
/// other names together number the instances, a name is a hotel name exactly
/// when it begins with `hotel_distribution`, and each instance's name is in
/// its group.
pub proof fn law_instances_grouped(items: Seq<Json>)
    ensures
        hotel_names(items).len() + other_names(items).len() == items.len(),
        forall|k: int|
            0 <= k < hotel_names(items).len() ==> has_prefix(
                #[trigger] hotel_names(items)[k],
                "hotel_distribution"@,
            ),
        forall|k: int|
            0 <= k < other_names(items).len() ==> !has_prefix(
                #[trigger] other_names(items)[k],
                "hotel_distribution"@,
            ),
        forall|i: int|
            0 <= i < items.len() ==> if has_prefix(
                instance_name(#[trigger] items[i]),
                "hotel_distribution"@,
            ) {
                hotel_names(items).contains(instance_name(items[i]))
            } else {
                other_names(items).contains(instance_name(items[i]))
            },
    decreases items.len(),
{
    if items.len() > 0 {
        let rest = items.drop_last();
        law_instances_grouped(rest);
        let h0 = hotel_names(rest);
        let o0 = other_names(rest);
        let n = instance_name(items.last());
        assert forall|i: int| 0 <= i < items.len() implies if has_prefix(
            instance_name(#[trigger] items[i]),
            "hotel_distribution"@,
        ) {
            hotel_names(items).contains(instance_name(items[i]))
        } else {
            other_names(items).contains(instance_name(items[i]))
        } by {
            if i < items.len() - 1 {
                assert(rest[i] == items[i]);
                if has_prefix(instance_name(items[i]), "hotel_distribution"@) {
                    let k = choose|k: int| 0 <= k < h0.len() && h0[k] == instance_name(rest[i]);
                    if has_prefix(n, "hotel_distribution"@) {
                        assert(h0.push(n)[k] == h0[k]);
                    }
                } else {
                    let k = choose|k: int| 0 <= k < o0.len() && o0[k] == instance_name(rest[i]);
                    if !has_prefix(n, "hotel_distribution"@) {
                        assert(o0.push(n)[k] == o0[k]);
                    }
                }
            } else {
                if has_prefix(n, "hotel_distribution"@) {
                    assert(h0.push(n)[h0.len() as int] == n);
                } else {
                    assert(o0.push(n)[o0.len() as int] == n);
                }
            }
        }
    }
}

/// A listing of instances groups every instance: its hotel and other names
/// together number the instances listed, each hotel name begins with
/// `hotel_distribution`, no other name does, and every instance's name is in
/// its group.
pub proof fn law_listing_groups_every_instance(j: Json, r: Result<InstanceListing, String>)
    requires
        instance_listing_ok(j, r),
    ensures
        r matches Ok(InstanceListing::Found { hotel, other, instances, .. }) ==> {
            &&& hotel@.len() + other@.len() == instances@.len()
            &&& forall|k: int| 0 <= k < hotel@.len() ==> has_prefix(#[trigger] hotel@[k]@, "hotel_distribution"@)
            &&& forall|k: int| 0 <= k < other@.len() ==> !has_prefix(#[trigger] other@[k]@, "hotel_distribution"@)
            &&& forall|i: int|
                0 <= i < instances@.len() ==> name_views(hotel@).contains(instance_name(#[trigger] instances@[i]))
                    || name_views(other@).contains(instance_name(instances@[i]))
        },
{
    match opt_array(j.field("data"@)) {
        Some(items) => {
            law_instances_grouped(items);
            match r {
                Ok(InstanceListing::Found { hotel, other, instances, .. }) => {
                    assert forall|k: int| 0 <= k < hotel@.len() implies has_prefix(
                        #[trigger] hotel@[k]@,
                        "hotel_distribution"@,
                    ) by {
                        assert(name_views(hotel@)[k] == hotel@[k]@);
                    }
                    assert forall|k: int| 0 <= k < other@.len() implies !has_prefix(
                        #[trigger] other@[k]@,
                        "hotel_distribution"@,
                    ) by {
                        assert(name_views(other@)[k] == other@[k]@);
                    }
                    assert forall|i: int| 0 <= i < instances@.len() implies name_views(hotel@).contains(
                        instance_name(#[trigger] instances@[i]),
                    ) || name_views(other@).contains(instance_name(instances@[i])) by {
                        assert(instances@[i] == items[i]);
                    }
                },
                _ => {},
            }
        },
        None => {},
    }
}

/// The pattern that reads a column is the one the Archery client has always
/// used: a name in backquotes, a type, then optional `NOT NULL`/`NULL`,
/// `AUTO_INCREMENT`, a `DEFAULT` of any single token, and `COMMENT '<c>'`.
pub proof fn law_column_pattern()
    ensures
        field_pattern()
            == "^`([^`]+)`\\s+([^\\s,]+[^,]*?)(?:\\s+(?:NOT\\s+)?NULL)?(?:\\s+AUTO_INCREMENT)?(?:\\s+DEFAULT\\s+[^,\\s]+)?(?:\\s+COMMENT\\s+'([^']*)')?"@,
        forall|line: Seq<char>|
            is_column_line(trim(line)) ==> #[trigger] field_of(line) == column_of(
                regex_captures(
                    "^`([^`]+)`\\s+([^\\s,]+[^,]*?)(?:\\s+(?:NOT\\s+)?NULL)?(?:\\s+AUTO_INCREMENT)?(?:\\s+DEFAULT\\s+[^,\\s]+)?(?:\\s+COMMENT\\s+'([^']*)')?"@,
                    trim(line),
                ),
            ),
{
}

/// A column's name, type and comment are the three groups captured, each
/// as captured, and empty where a group took no part.
pub proof fn law_column_from_groups(
    a: Option<Seq<char>>,
    b: Option<Seq<char>>,
    c: Option<Seq<char>>,
)
    ensures
        column_of(Some((a, b, c))) matches Some((name, typ, comment)) && (a matches Some(x) ==> name == x)
            && (a is None ==> name.len() == 0) && (b matches Some(x) ==> typ == x) && (b is None
            ==> typ.len() == 0) && (c matches Some(x) ==> comment == x) && (c is None ==> comment.len()
            == 0),
        column_of(None) is None,
{
}

/// The column summary has, after its five heading lines, one row per
/// column in order: `| `<name>` | <type trimmed> | <comment> |`.
pub proof fn law_column_summary_rows(fields: Seq<(Seq<char>, Seq<char>, Seq<char>)>)
    ensures
        fields.len() > 0 ==> column_summary(fields).len() == 5 + fields.len(),
        fields.len() == 0 ==> column_summary(fields).len() == 0,
        forall|i: int|
            0 <= i < fields.len() ==> #[trigger] column_summary(fields)[5 + i] == "| `"@ + fields[i].0
                + "` | "@ + trim(fields[i].1) + " | "@ + fields[i].2 + " |"@,
{
}

} // verus!
