use mcp_rust::json::{Json, JsonMember, JsonNumber, JsonValue};
use mcp_rust::query_result::{is_json_content_type, render_plain_result, render_query_json};
use serde_json::Value;

fn to_json(v: &Value) -> Json {
    let text = v.to_string();
    let value = match v {
        Value::Null => JsonValue::Null,
        Value::Bool(b) => JsonValue::Bool(*b),
        Value::Number(n) => {
            if let Some(u) = n.as_u64() {
                JsonValue::Number(JsonNumber::PosInt(u))
            } else if let Some(i) = n.as_i64() {
                JsonValue::Number(JsonNumber::NegInt(i))
            } else {
                JsonValue::Number(JsonNumber::Float)
            }
        }
        Value::String(s) => JsonValue::Str(s.clone()),
        Value::Array(a) => JsonValue::Array(a.iter().map(to_json).collect()),
        Value::Object(m) => JsonValue::Object(
            m.iter()
                .map(|(k, v)| JsonMember { key: k.clone(), value: to_json(v) })
                .collect(),
        ),
    };
    Json { value, text }
}

fn j(s: &str) -> Json {
    to_json(&serde_json::from_str(s).unwrap())
}

#[test]
fn json_content_type_detected() {
    assert!(is_json_content_type("application/json; charset=utf-8"));
    assert!(!is_json_content_type("text/html"));
    assert!(!is_json_content_type(""));
}

#[test]
fn plain_reply_shown_whole_when_short() {
    assert_eq!(render_plain_result("hello", 12), "✅ 查询完成 (12ms)\n\nhello");
}

#[test]
fn plain_reply_cut_at_two_thousand_bytes() {
    let text = "a".repeat(2500);
    let r = render_plain_result(&text, 0);
    assert_eq!(r, format!("✅ 查询完成 (0ms)\n\n{}\n... (已截断)", "a".repeat(2000)));
    let exact = "b".repeat(2000);
    assert_eq!(render_plain_result(&exact, 5), format!("✅ 查询完成 (5ms)\n\n{}", exact));
}

#[test]
fn sql_error_reported() {
    assert_eq!(
        render_query_json(&j(r#"{"status":1,"msg":"syntax error"}"#), 3),
        Err("⚠️ SQL 执行错误: syntax error".to_string())
    );
    assert_eq!(
        render_query_json(&j(r#"{"status":0,"error":"boom","msg":"m"}"#), 3),
        Err("⚠️ SQL 执行错误: boom".to_string())
    );
    assert_eq!(
        render_query_json(&j(r#"{"err":5}"#), 3),
        Err("⚠️ SQL 执行错误: 未知错误".to_string())
    );
    assert_eq!(
        render_query_json(&j(r#"{"status":2}"#), 3),
        Err("⚠️ SQL 执行错误: 未知错误".to_string())
    );
}

#[test]
fn sql_no_rows() {
    assert_eq!(
        render_query_json(&j(r#"{"status":0,"data":{"rows":[]}}"#), 3),
        Ok("✅ 查询成功，未返回数据（0 条记录）。".to_string())
    );
    assert_eq!(
        render_query_json(&j(r#"{"status":0,"msg":"done","data":{"rows":[]}}"#), 3),
        Ok("✅ done".to_string())
    );
    assert_eq!(
        render_query_json(&j(r#"{"status":0,"data":{"rows":"x"}}"#), 3),
        Ok("✅ 查询成功，未返回数据（0 条记录）。".to_string())
    );
}

#[test]
fn sql_array_rows_as_table() {
    let r = render_query_json(
        &j(r#"{"status":0,"data":{"column_list":["id","name"],"rows":[[1,"a\nb"],[2,null],"skip"],"affected_rows":2}}"#),
        42,
    );
    assert_eq!(
        r,
        Ok("✅ **查询完成** (42ms) | 共 3 行\n\n| id | name |\n| --- | --- |\n| 1 | a b |\n| 2 |  |".to_string())
    );
}

#[test]
fn sql_total_and_numbered_headers() {
    let r = render_query_json(&j(r#"{"status":0,"total":10,"data":{"rows":[[true,1.5]]}}"#), 1);
    assert_eq!(
        r,
        Ok("✅ **查询完成** (1ms) | 共 10 行\n\n| col_0 | col_1 |\n| --- | --- |\n| true | 1.5 |".to_string())
    );
}

#[test]
fn sql_object_rows_by_header() {
    let r = render_query_json(&j(r#"{"rows":[{"b":2,"a":"x"},{"a":"y"}]}"#), 7);
    assert_eq!(
        r,
        Ok("✅ **查询完成** (7ms) | 共 2 行\n\n| a | b |\n| --- | --- |\n| x | 2 |\n| y |  |".to_string())
    );
}

#[test]
fn sql_plain_values_as_list() {
    let r = render_query_json(&j(r#"{"results":[5,"s",{"k":1}],"count":-4}"#), 9);
    assert_eq!(
        r,
        Ok("✅ **查询完成** (9ms) | 共 -4 条\n1. 5\n2. \"s\"\n3. {\"k\":1}".to_string())
    );
}

#[test]
fn sql_shows_at_most_two_hundred_rows() {
    let rows: Vec<String> = (0..205).map(|i| format!("[{}]", i)).collect();
    let text = format!(r#"{{"data":{{"column_list":["n"],"rows":[{}]}}}}"#, rows.join(","));
    let r = render_query_json(&j(&text), 0).unwrap();
    let lines: Vec<&str> = r.split('\n').collect();
    assert_eq!(lines.len(), 4 + 200 + 2);
    assert_eq!(lines[0], "✅ **查询完成** (0ms) | 共 205 行");
    assert_eq!(lines[4], "| 0 |");
    assert_eq!(lines[203], "| 199 |");
    assert_eq!(lines[204], "");
    assert_eq!(lines[205], "*... 仅显示前 200 行，共 205 行*");
}

#[test]
fn sql_column_names_fallbacks() {
    let r = render_query_json(&j(r#"{"headers":["h",7],"data":[[1,2]]}"#), 0);
    assert_eq!(r, Ok("✅ **查询完成** (0ms) | 共 1 行\n\n| h | 7 |\n| --- | --- |\n| 1 | 2 |".to_string()));
}
