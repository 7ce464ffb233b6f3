//! Rendering of the Archery `/query/` response as Markdown.

use vstd::prelude::*;
use crate::json::{Json, JsonValue, JsonMember, member_value, or_else, or_else_ref, deref_opt};
use crate::text::{
    LineText, byte_len, byte_length, char_boundary_at, byte_prefix, byte_prefix_of, decimal, find, find_chars_from, chars_of,
    join, join_strings, newlines_to_spaces, push_decimal, push_signed_decimal, push_str,
    replace_newlines, signed_decimal, string_of, views, lemma_views_push,
};

verus! {

/// Most table rows shown.
pub const MAX_ROWS_SHOWN: usize = 200;

/// Most bytes of a non-JSON reply shown.
pub const MAX_PLAIN_BYTES: usize = 2000;

/// The view of a `Result` of strings.
pub open spec fn result_view(r: Result<String, String>) -> Result<Seq<char>, Seq<char>> {
    match r {
        Ok(s) => Ok(s@),
        Err(e) => Err(e@),
    }
}

/// `o.and_then(|v| v.as_str())`.
pub open spec fn opt_str(o: Option<Json>) -> Option<Seq<char>> {
    match o {
        Some(v) => v.str_value(),
        None => None,
    }
}

/// `o.and_then(|v| v.as_i64())`.
pub open spec fn opt_i64(o: Option<Json>) -> Option<i64> {
    match o {
        Some(v) => v.i64_value(),
        None => None,
    }
}

/// `o.and_then(|v| v.as_array())`.
pub open spec fn opt_array(o: Option<Json>) -> Option<Seq<Json>> {
    match o {
        Some(v) => v.array_value(),
        None => None,
    }
}

/// The reply reports a failed statement.
pub open spec fn reports_error(j: Json) -> bool {
    ||| opt_i64(j.field("status"@)) == Some(1i64)
    ||| opt_i64(j.field("status"@)) == Some(2i64)
    ||| j.field("error"@) is Some
    ||| j.field("err"@) is Some
}

/// The message of a failed statement.
pub open spec fn error_text(j: Json) -> Seq<char> {
    match opt_str(or_else(j.field("error"@), or_else(j.field("err"@), j.field("msg"@)))) {
        Some(s) => s,
        None => "未知错误"@,
    }
}

/// The node that holds the result set: `data`, else `results`, else the reply itself.
pub open spec fn raw_data(j: Json) -> Json {
    match or_else(j.field("data"@), j.field("results"@)) {
        Some(d) => d,
        None => j,
    }
}

/// The node that holds the rows.
pub open spec fn rows_node(j: Json) -> Json {
    match raw_data(j).field("rows"@) {
        Some(r) => r,
        None => raw_data(j),
    }
}

/// The rows as JSON values (empty when they are not an array).
pub open spec fn data_rows(j: Json) -> Seq<Json> {
    match rows_node(j).array_value() {
        Some(a) => a,
        None => Seq::empty(),
    }
}

/// Where the column names are given, if anywhere.
pub open spec fn column_names_node(j: Json) -> Option<Json> {
    or_else(
        raw_data(j).field("column_list"@),
        or_else(
            raw_data(j).field("column_names"@),
            or_else(j.field("column_names"@), or_else(j.field("columns"@), j.field("headers"@))),
        ),
    )
}

/// A column name: a string as it is, anything else as JSON text.
pub open spec fn header_text(c: Json) -> Seq<char> {
    match c.str_value() {
        Some(s) => s,
        None => c.text@,
    }
}

/// A cell: empty for null, a string as it is, anything else as JSON text.
pub open spec fn cell_text(c: Json) -> Seq<char> {
    match c.value {
        JsonValue::Null => Seq::empty(),
        JsonValue::Str(s) => s@,
        _ => c.text@,
    }
}

/// A cell that may be missing; a missing one reads as null.
pub open spec fn opt_cell_text(c: Option<Json>) -> Seq<char> {
    match c {
        Some(v) => cell_text(v),
        None => Seq::empty(),
    }
}

/// The column names given by the reply (empty when none or an empty list).
pub open spec fn declared_headers(j: Json) -> Seq<Seq<char>> {
    match opt_array(column_names_node(j)) {
        Some(cols) => cols.map_values(|c: Json| header_text(c)),
        None => Seq::empty(),
    }
}

/// `col_0`, `col_1`, ... for `n` columns.
pub open spec fn numbered_headers(n: nat) -> Seq<Seq<char>> {
    Seq::new(n, |i: int| "col_"@ + decimal(i as nat))
}

/// The keys of an object, in document order.
pub open spec fn member_keys(ms: Seq<JsonMember>) -> Seq<Seq<char>> {
    ms.map_values(|m: JsonMember| m.key@)
}

/// The table headers: the declared names, else derived from the first row.
pub open spec fn headers(j: Json) -> Seq<Seq<char>> {
    if declared_headers(j).len() > 0 {
        declared_headers(j)
    } else {
        match data_rows(j)[0].value {
            JsonValue::Array(a) => numbered_headers(a@.len()),
            JsonValue::Object(ms) => member_keys(ms@),
            _ => Seq::empty(),
        }
    }
}

/// The cells of one row: an array row cell by cell, an object row one cell per
/// header; `None` for a row of the other kind, which is skipped.
pub open spec fn row_of(item: Json, by_object: bool, hs: Seq<Seq<char>>) -> Option<Seq<Seq<char>>> {
    if by_object {
        match item.value {
            JsonValue::Object(ms) => Some(
                hs.map_values(|h: Seq<char>| opt_cell_text(member_value(ms@, h))),
            ),
            _ => None,
        }
    } else {
        match item.value {
            JsonValue::Array(a) => Some(a@.map_values(|c: Json| cell_text(c))),
            _ => None,
        }
    }
}

/// The rows of the table, in order.
pub open spec fn collect_rows(data: Seq<Json>, by_object: bool, hs: Seq<Seq<char>>) -> Seq<Seq<Seq<char>>>
    decreases data.len(),
{
    if data.len() == 0 {
        Seq::empty()
    } else {
        let rest = collect_rows(data.drop_last(), by_object, hs);
        match row_of(data.last(), by_object, hs) {
            Some(r) => rest.push(r),
            None => rest,
        }
    }
}

/// The total row count the reply states, else the number of rows.
pub open spec fn total_rows(j: Json) -> i64 {
    match opt_i64(or_else(j.field("total"@), j.field("count"@))) {
        Some(t) => t,
        None => data_rows(j).len() as i64,
    }
}

/// A Markdown table row.
pub open spec fn table_line(cells: Seq<Seq<char>>) -> Seq<char> {
    "| "@ + join(cells, " | "@) + " |"@
}

/// The separator row under a header of `n` columns.
pub open spec fn dashes(n: nat) -> Seq<Seq<char>> {
    Seq::new(n, |i: int| "---"@)
}

/// The heading of a result table.
pub open spec fn table_heading(elapsed: nat, total: i64) -> Seq<char> {
    "✅ **查询完成** ("@ + decimal(elapsed) + "ms) | 共 "@ + signed_decimal(total as int) + " 行"@
}

/// The rows that are shown: the first `MAX_ROWS_SHOWN`.
pub open spec fn shown_rows(rows: Seq<Seq<Seq<char>>>) -> Seq<Seq<Seq<char>>> {
    if rows.len() > MAX_ROWS_SHOWN {
        rows.take(MAX_ROWS_SHOWN as int)
    } else {
        rows
    }
}

/// A table row, with newlines in its cells turned into spaces.
pub open spec fn row_line(row: Seq<Seq<char>>) -> Seq<char> {
    table_line(row.map_values(|c: Seq<char>| newlines_to_spaces(c)))
}

/// The table lines of some rows.
pub open spec fn row_lines(rows: Seq<Seq<Seq<char>>>) -> Seq<Seq<char>> {
    rows.map_values(|row: Seq<Seq<char>>| row_line(row))
}

/// The lines of a result table; at most `MAX_ROWS_SHOWN` rows appear.
pub open spec fn table_lines(
    elapsed: nat,
    total: i64,
    hs: Seq<Seq<char>>,
    rows: Seq<Seq<Seq<char>>>,
) -> Seq<Seq<char>> {
    let body = seq![table_heading(elapsed, total), ""@, table_line(hs), table_line(dashes(hs.len()))]
        + row_lines(shown_rows(rows));
    if rows.len() > MAX_ROWS_SHOWN {
        body + seq![
            ""@,
            "*... 仅显示前 "@ + decimal(MAX_ROWS_SHOWN as nat) + " 行，共 "@ + signed_decimal(total as int) + " 行*"@,
        ]
    } else {
        body
    }
}

/// One item of a result that is a plain list.
pub open spec fn list_item(i: int, item: Json) -> Seq<char> {
    decimal((i + 1) as nat) + ". "@ + item.text@
}

/// The lines of a result whose rows are plain values.
pub open spec fn list_lines(elapsed: nat, total: i64, data: Seq<Json>) -> Seq<Seq<char>> {
    seq!["✅ **查询完成** ("@ + decimal(elapsed) + "ms) | 共 "@ + signed_decimal(total as int) + " 条"@]
        + Seq::new(data.len(), |i: int| list_item(i, data[i]))
}

/// What `execute_sql` makes of a JSON reply.
pub open spec fn query_json_output(j: Json, elapsed: nat) -> Result<Seq<char>, Seq<char>> {
    let data = data_rows(j);
    if reports_error(j) {
        Err("⚠️ SQL 执行错误: "@ + error_text(j))
    } else if data.len() == 0 {
        Ok(
            "✅ "@ + match opt_str(j.field("msg"@)) {
                Some(m) => m,
                None => "查询成功，未返回数据（0 条记录）。"@,
            },
        )
    } else {
        match data[0].value {
            JsonValue::Array(_) => Ok(
                join(
                    table_lines(elapsed, total_rows(j), headers(j), collect_rows(data, false, headers(j))),
                    "\n"@,
                ),
            ),
            JsonValue::Object(_) => Ok(
                join(
                    table_lines(elapsed, total_rows(j), headers(j), collect_rows(data, true, headers(j))),
                    "\n"@,
                ),
            ),
            _ => Ok(join(list_lines(elapsed, total_rows(j), data), "\n"@)),
        }
    }
}

/// What `execute_sql` makes of a reply that is not JSON.
pub open spec fn query_plain_output(text: Seq<char>, elapsed: nat) -> Seq<char> {
    let preview = if byte_len(text) > MAX_PLAIN_BYTES {
        byte_prefix(text, MAX_PLAIN_BYTES as int) + "\n... (已截断)"@
    } else {
        text
    };
    "✅ 查询完成 ("@ + decimal(elapsed) + "ms)\n\n"@ + preview
}


/// `o.and_then(|v| v.as_str())` on a borrowed node.
pub fn opt_as_str<'a>(o: Option<&'a Json>) -> (r: Option<&'a str>)
    ensures
        match r {
            Some(s) => opt_str(deref_opt(o)) == Some(s@),
            None => opt_str(deref_opt(o)) is None,
        },
{
    match o {
        Some(v) => v.as_str(),
        None => None,
    }
}

/// `o.and_then(|v| v.as_i64())` on a borrowed node.
pub fn opt_as_i64(o: Option<&Json>) -> (r: Option<i64>)
    ensures
        r == opt_i64(deref_opt(o)),
{
    match o {
        Some(v) => v.as_i64(),
        None => None,
    }
}

/// Decides `reports_error`.
fn query_reports_error(j: &Json) -> (b: bool)
    ensures
        b == reports_error(*j),
{
    let status = opt_as_i64(j.get("status"));
    status == Some(1i64) || status == Some(2i64) || j.get("error").is_some() || j.get(
        "err",
    ).is_some()
}

/// The message of a failed statement.
fn query_error_message(j: &Json) -> (r: String)
    ensures
        r@ == "⚠️ SQL 执行错误: "@ + error_text(*j),
{
    let node = or_else_ref(j.get("error"), or_else_ref(j.get("err"), j.get("msg")));
    let mut r = string_of("⚠️ SQL 执行错误: ");
    match opt_as_str(node) {
        Some(m) => push_str(&mut r, m),
        None => push_str(&mut r, "未知错误"),
    }
    r
}

/// The node that holds the rows.
fn rows_node_of(j: &Json) -> (r: &Json)
    ensures
        *r == rows_node(*j),
{
    let raw = match or_else_ref(j.get("data"), j.get("results")) {
        Some(d) => d,
        None => j,
    };
    match raw.get("rows") {
        Some(r) => r,
        None => raw,
    }
}

/// `header_text` of a column name.
fn header_string(c: &Json) -> (r: String)
    ensures
        r@ == header_text(*c),
{
    match c.as_str() {
        Some(s) => string_of(s),
        None => string_of(c.as_text()),
    }
}

/// `cell_text` of a cell, with newlines turned into spaces.
fn clean_cell_string(c: &Json) -> (r: String)
    ensures
        r@ == newlines_to_spaces(cell_text(*c)),
{
    match &c.value {
        JsonValue::Null => {
            let r = String::new();
            assert(r@ =~= newlines_to_spaces(cell_text(*c)));
            r
        },
        JsonValue::Str(s) => replace_newlines(s.as_str()),
        _ => replace_newlines(c.as_text()),
    }
}

/// `opt_cell_text`, with newlines turned into spaces.
fn clean_opt_cell_string(c: Option<&Json>) -> (r: String)
    ensures
        r@ == newlines_to_spaces(opt_cell_text(deref_opt(c))),
{
    match c {
        Some(v) => clean_cell_string(v),
        None => {
            let r = String::new();
            assert(r@ =~= newlines_to_spaces(opt_cell_text(deref_opt(c))));
            r
        },
    }
}

/// The table headers of a reply with at least one row.
fn headers_of(j: &Json, data: &Vec<Json>) -> (hs: Vec<String>)
    requires
        data@ == data_rows(*j),
        data@.len() > 0,
    ensures
        views(hs@) == headers(*j),
{
    let raw = match or_else_ref(j.get("data"), j.get("results")) {
        Some(d) => d,
        None => j,
    };
    let names = or_else_ref(
        raw.get("column_list"),
        or_else_ref(
            raw.get("column_names"),
            or_else_ref(
                j.get("column_names"),
                or_else_ref(j.get("columns"), j.get("headers")),
            ),
        ),
    );
    let mut hs: Vec<String> = Vec::new();
    match names {
        Some(n) => match n.as_array() {
            Some(cols) => {
                let mut i: usize = 0;
                while i < cols.len()
                    invariant
                        i <= cols@.len(),
                        views(hs@) == cols@.take(i as int).map_values(|c: Json| header_text(c)),
                    decreases cols.len() - i,
                {
                    let ghost before = hs@;
                    let h = header_string(&cols[i]);
                    hs.push(h);
                    proof {
                        lemma_views_push(before, h);
                        assert(cols@.take(i + 1).map_values(|c: Json| header_text(c)) =~= cols@.take(
                            i as int,
                        ).map_values(|c: Json| header_text(c)).push(header_text(cols@[i as int])));
                    }
                    i = i + 1;
                }
                assert(cols@.take(cols@.len() as int) =~= cols@);
            },
            None => {},
        },
        None => {},
    }
    assert(views(hs@) == declared_headers(*j));
    if hs.len() > 0 {
        return hs;
    }
    match &data[0].value {
        JsonValue::Array(a) => {
            let mut i: usize = 0;
            assert(views(hs@) =~= numbered_headers(0));
            while i < a.len()
                invariant
                    i <= a@.len(),
                    views(hs@) =~= numbered_headers(i as nat),
                decreases a.len() - i,
            {
                let ghost before = hs@;
                let mut h = string_of("col_");
                push_decimal(&mut h, i as u128);
                hs.push(h);
                proof {
                    lemma_views_push(before, h);
                    assert(numbered_headers((i + 1) as nat) =~= numbered_headers(i as nat).push(
                        "col_"@ + decimal(i as nat),
                    ));
                }
                i = i + 1;
            }
            hs
        },
        JsonValue::Object(ms) => {
            let mut i: usize = 0;
            while i < ms.len()
                invariant
                    i <= ms@.len(),
                    views(hs@) =~= member_keys(ms@.take(i as int)),
                decreases ms.len() - i,
            {
                let ghost before = hs@;
                let k = string_of(ms[i].key.as_str());
                hs.push(k);
                proof {
                    lemma_views_push(before, k);
                    assert(member_keys(ms@.take(i + 1)) =~= member_keys(ms@.take(i as int)).push(
                        ms@[i as int].key@,
                    ));
                }
                i = i + 1;
            }
            assert(ms@.take(ms@.len() as int) =~= ms@);
            hs
        },
        _ => {
            assert(views(hs@) =~= Seq::<Seq<char>>::empty());
            hs
        },
    }
}

/// `total_rows`.
fn total_of(j: &Json, n: usize) -> (t: i64)
    requires
        n == data_rows(*j).len(),
    ensures
        t == total_rows(*j),
{
    match opt_as_i64(or_else_ref(j.get("total"), j.get("count"))) {
        Some(t) => t,
        None => n as i64,
    }
}

/// A Markdown table row from its cells.
fn table_line_string(cells: &Vec<String>) -> (r: String)
    ensures
        r@ == table_line(views(cells@)),
{
    let mut r = string_of("| ");
    let inner = join_strings(cells, " | ");
    push_str(&mut r, inner.as_str());
    push_str(&mut r, " |");
    r
}


/// The shown cells of one row (see `row_of`), or `None` for a skipped row.
fn row_cells(item: &Json, by_object: bool, hs: &Vec<String>) -> (r: Option<Vec<String>>)
    ensures
        match row_of(*item, by_object, views(hs@)) {
            Some(raw) => r is Some && views(r->0@) == raw.map_values(
                |c: Seq<char>| newlines_to_spaces(c),
            ),
            None => r is None,
        },
{
    let mut cells: Vec<String> = Vec::new();
    if by_object {
        match &item.value {
            JsonValue::Object(ms) => {
                let ghost raw = views(hs@).map_values(
                    |h: Seq<char>| opt_cell_text(member_value(ms@, h)),
                );
                let mut k: usize = 0;
                while k < hs.len()
                    invariant
                        k <= hs@.len(),
                        item.value == JsonValue::Object(*ms),
                        raw == views(hs@).map_values(
                            |h: Seq<char>| opt_cell_text(member_value(ms@, h)),
                        ),
                        views(cells@) =~= raw.take(k as int).map_values(
                            |c: Seq<char>| newlines_to_spaces(c),
                        ),
                    decreases hs.len() - k,
                {
                    let ghost before = cells@;
                    let c = clean_opt_cell_string(item.get(hs[k].as_str()));
                    cells.push(c);
                    proof {
                        lemma_views_push(before, c);
                        assert(raw[k as int] == opt_cell_text(member_value(ms@, hs@[k as int]@)));
                        assert(raw.take(k + 1).map_values(|c: Seq<char>| newlines_to_spaces(c))
                            =~= raw.take(k as int).map_values(
                            |c: Seq<char>| newlines_to_spaces(c),
                        ).push(newlines_to_spaces(raw[k as int])));
                    }
                    k = k + 1;
                }
                assert(raw.take(hs@.len() as int) =~= raw);
                Some(cells)
            },
            _ => None,
        }
    } else {
        match &item.value {
            JsonValue::Array(a) => {
                let ghost raw = a@.map_values(|c: Json| cell_text(c));
                let mut k: usize = 0;
                while k < a.len()
                    invariant
                        k <= a@.len(),
                        raw == a@.map_values(|c: Json| cell_text(c)),
                        views(cells@) =~= raw.take(k as int).map_values(
                            |c: Seq<char>| newlines_to_spaces(c),
                        ),
                    decreases a.len() - k,
                {
                    let ghost before = cells@;
                    let c = clean_cell_string(&a[k]);
                    cells.push(c);
                    proof {
                        lemma_views_push(before, c);
                        assert(raw.take(k + 1).map_values(|c: Seq<char>| newlines_to_spaces(c))
                            =~= raw.take(k as int).map_values(
                            |c: Seq<char>| newlines_to_spaces(c),
                        ).push(newlines_to_spaces(raw[k as int])));
                    }
                    k = k + 1;
                }
                assert(raw.take(a@.len() as int) =~= raw);
                Some(cells)
            },
            _ => None,
        }
    }
}

/// `row_lines` of rows with one more row.
proof fn lemma_row_lines_push(rows: Seq<Seq<Seq<char>>>, row: Seq<Seq<char>>)
    ensures
        row_lines(rows.push(row)) == row_lines(rows).push(row_line(row)),
{
    assert(row_lines(rows.push(row)) =~= row_lines(rows).push(row_line(row)));
}

/// Renders a result table.
fn render_table(
    elapsed_ms: u128,
    total: i64,
    hs: &Vec<String>,
    data: &Vec<Json>,
    by_object: bool,
) -> (r: String)
    ensures
        r@ == join(
            table_lines(
                elapsed_ms as nat,
                total,
                views(hs@),
                collect_rows(data@, by_object, views(hs@)),
            ),
            "\n"@,
        ),
{
    let ghost vh = views(hs@);
    let mut out = LineText::new();
    let mut heading = string_of("✅ **查询完成** (");
    push_decimal(&mut heading, elapsed_ms);
    push_str(&mut heading, "ms) | 共 ");
    push_signed_decimal(&mut heading, total);
    push_str(&mut heading, " 行");
    out.push_string(heading);
    out.push_line("");
    out.push_string(table_line_string(hs));
    let mut dash_cells: Vec<String> = Vec::new();
    let mut k: usize = 0;
    while k < hs.len()
        invariant
            k <= hs@.len(),
            views(dash_cells@) =~= dashes(k as nat),
        decreases hs.len() - k,
    {
        let ghost before = dash_cells@;
        let d = string_of("---");
        dash_cells.push(d);
        proof {
            lemma_views_push(before, d);
            assert(dashes((k + 1) as nat) =~= dashes(k as nat).push("---"@));
        }
        k = k + 1;
    }
    assert(vh.len() == hs@.len());
    out.push_string(table_line_string(&dash_cells));
    let ghost prefix = out.lines@;
    assert(prefix =~= seq![
        table_heading(elapsed_ms as nat, total),
        ""@,
        table_line(vh),
        table_line(dashes(vh.len())),
    ]);
    let mut count: usize = 0;
    let mut i: usize = 0;
    assert(data@.take(0) =~= Seq::<Json>::empty());
    assert(row_lines(shown_rows(Seq::empty())) =~= Seq::<Seq<char>>::empty());
    assert(prefix + Seq::<Seq<char>>::empty() =~= prefix);
    while i < data.len()
        invariant
            i <= data@.len(),
            vh == views(hs@),
            out.wf(),
            count <= i,
            count == collect_rows(data@.take(i as int), by_object, vh).len(),
            out.lines@ == prefix + row_lines(shown_rows(collect_rows(data@.take(i as int), by_object, vh))),
        decreases data.len() - i,
    {
        let ghost rows = collect_rows(data@.take(i as int), by_object, vh);
        assert(data@.take(i + 1).drop_last() =~= data@.take(i as int));
        assert(data@.take(i + 1).last() == data@[i as int]);
        match row_cells(&data[i], by_object, hs) {
            Some(cells) => {
                let ghost raw = row_of(data@[i as int], by_object, vh)->0;
                assert(collect_rows(data@.take(i + 1), by_object, vh) == rows.push(raw));
                if count < MAX_ROWS_SHOWN {
                    let line = table_line_string(&cells);
                    out.push_string(line);
                    proof {
                        assert(shown_rows(rows) == rows);
                        assert(shown_rows(rows.push(raw)) == rows.push(raw));
                        lemma_row_lines_push(rows, raw);
                        assert(line@ == row_line(raw));
                        assert(out.lines@ =~= prefix + row_lines(rows.push(raw)));
                    }
                } else {
                    proof {
                        assert(shown_rows(rows.push(raw)) =~= shown_rows(rows));
                    }
                }
                count = count + 1;
            },
            None => {
                assert(collect_rows(data@.take(i + 1), by_object, vh) == rows);
            },
        }
        i = i + 1;
    }
    assert(data@.take(data@.len() as int) =~= data@);
    let ghost rows = collect_rows(data@, by_object, vh);
    if count > MAX_ROWS_SHOWN {
        out.push_line("");
        let mut footer = string_of("*... 仅显示前 ");
        push_decimal(&mut footer, MAX_ROWS_SHOWN as u128);
        push_str(&mut footer, " 行，共 ");
        push_signed_decimal(&mut footer, total);
        push_str(&mut footer, " 行*");
        out.push_string(footer);
        assert(out.lines@ =~= table_lines(elapsed_ms as nat, total, vh, rows));
    } else {
        assert(out.lines@ =~= table_lines(elapsed_ms as nat, total, vh, rows));
    }
    out.text
}


/// Renders a result whose rows are plain values, one numbered line each.
fn render_list(elapsed_ms: u128, total: i64, data: &Vec<Json>) -> (r: String)
    ensures
        r@ == join(list_lines(elapsed_ms as nat, total, data@), "\n"@),
{
    let mut out = LineText::new();
    let mut heading = string_of("✅ **查询完成** (");
    push_decimal(&mut heading, elapsed_ms);
    push_str(&mut heading, "ms) | 共 ");
    push_signed_decimal(&mut heading, total);
    push_str(&mut heading, " 条");
    out.push_string(heading);
    let ghost first = out.lines@;
    let mut i: usize = 0;
    while i < data.len()
        invariant
            i <= data@.len(),
            out.wf(),
            out.lines@ =~= first + Seq::new(i as nat, |k: int| list_item(k, data@[k])),
        decreases data.len() - i,
    {
        let mut line = String::new();
        push_decimal(&mut line, (i as u128) + 1);
        push_str(&mut line, ". ");
        push_str(&mut line, data[i].as_text());
        proof {
            assert(line@ =~= list_item(i as int, data@[i as int]));
        }
        out.push_string(line);
        i = i + 1;
    }
    assert(out.lines@ =~= list_lines(elapsed_ms as nat, total, data@));
    out.text
}

/// Renders a JSON reply of `/query/`: an error, a message when there are no
/// rows, a Markdown table of at most 200 rows, or a numbered list.
pub fn render_query_json(j: &Json, elapsed_ms: u128) -> (r: Result<String, String>)
    ensures
        result_view(r) == query_json_output(*j, elapsed_ms as nat),
{
    if query_reports_error(j) {
        return Err(query_error_message(j));
    }
    let node = rows_node_of(j);
    let data = match node.as_array() {
        Some(d) => d,
        None => {
            assert(data_rows(*j).len() == 0);
            let mut r = string_of("✅ ");
            match opt_as_str(j.get("msg")) {
                Some(m) => push_str(&mut r, m),
                None => push_str(&mut r, "查询成功，未返回数据（0 条记录）。"),
            }
            return Ok(r);
        },
    };
    if data.len() == 0 {
        let mut r = string_of("✅ ");
        match opt_as_str(j.get("msg")) {
            Some(m) => push_str(&mut r, m),
            None => push_str(&mut r, "查询成功，未返回数据（0 条记录）。"),
        }
        return Ok(r);
    }
    let hs = headers_of(j, data);
    let total = total_of(j, data.len());
    match &data[0].value {
        JsonValue::Array(_) => Ok(render_table(elapsed_ms, total, &hs, data, false)),
        JsonValue::Object(_) => Ok(render_table(elapsed_ms, total, &hs, data, true)),
        _ => Ok(render_list(elapsed_ms, total, data)),
    }
}

/// Whether a `Content-Type` names JSON (contains `json`).
pub fn is_json_content_type(content_type: &str) -> (b: bool)
    ensures
        b == (find(content_type@, "json"@) is Some),
{
    let cs = chars_of(content_type);
    let pat = chars_of("json");
    find_chars_from(cs.as_slice(), pat.as_slice(), 0).is_some()
}

/// Renders a reply that is not JSON: its first 2000 bytes at most.
pub fn render_plain_result(text: &str, elapsed_ms: u128) -> (r: String)
    requires
        byte_len(text@) > MAX_PLAIN_BYTES ==> char_boundary_at(text@, MAX_PLAIN_BYTES as int),
    ensures
        r@ == query_plain_output(text@, elapsed_ms as nat),
{
    let mut r = string_of("✅ 查询完成 (");
    push_decimal(&mut r, elapsed_ms);
    push_str(&mut r, "ms)\n\n");
    let ghost head = r@;
    assert(head =~= "✅ 查询完成 ("@ + decimal(elapsed_ms as nat) + "ms)\n\n"@);
    if byte_length(text) > MAX_PLAIN_BYTES {
        assert(byte_len(text@) > MAX_PLAIN_BYTES);
        push_str(&mut r, byte_prefix_of(text, MAX_PLAIN_BYTES));
        push_str(&mut r, "\n... (已截断)");
        assert(r@ =~= head + (byte_prefix(text@, MAX_PLAIN_BYTES as int) + "\n... (已截断)"@));
    } else {
        assert(byte_len(text@) <= MAX_PLAIN_BYTES);
        push_str(&mut r, text);
    }
    r
}

/// A result table shows the first rows of the result, in order, and at most
/// `MAX_ROWS_SHOWN` of them; when rows are left out it ends with a note that
/// says how many rows there are.
pub proof fn law_table_shows_first_rows(
    elapsed: nat,
    total: i64,
    hs: Seq<Seq<char>>,
    rows: Seq<Seq<Seq<char>>>,
)
    ensures
        ({
            let shown = if rows.len() > MAX_ROWS_SHOWN { MAX_ROWS_SHOWN as int } else { rows.len() as int };
            let lines = table_lines(elapsed, total, hs, rows);
            &&& lines.len() == 4 + shown + if rows.len() > MAX_ROWS_SHOWN { 2int } else { 0int }
            &&& forall|i: int| 0 <= i < shown ==> #[trigger] lines[4 + i] == row_line(rows[i])
            &&& rows.len() > MAX_ROWS_SHOWN ==> lines.last() == "*... 仅显示前 "@ + decimal(
                MAX_ROWS_SHOWN as nat,
            ) + " 行，共 "@ + signed_decimal(total as int) + " 行*"@
        }),
{
    let shown = shown_rows(rows);
    let head = seq![table_heading(elapsed, total), ""@, table_line(hs), table_line(dashes(hs.len()))];
    let body = head + row_lines(shown);
    assert(row_lines(shown).len() == shown.len());
    assert forall|i: int| 0 <= i < shown.len() implies #[trigger] body[4 + i] == row_line(rows[i]) by {
        assert(body[4 + i] == row_lines(shown)[i]);
        assert(shown[i] == rows[i]);
    }
}

} // verus!
