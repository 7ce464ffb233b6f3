use mcp_rust::archery_format::InstanceListing;
use mcp_rust::archery_login::HttpOutcome;
use mcp_rust::archery_replies::{
    check_exchange, databases_reply, describe_reply, instances_reply, sql_reply, tables_reply,
};
use mcp_rust::json::{Json, JsonMember, JsonNumber, JsonValue};
use serde_json::Value;

fn to_json(v: &Value) -> Json {
    let text = v.to_string();
    let value = match v {
        Value::Null => JsonValue::Null,
        Value::Bool(b) => JsonValue::Bool(*b),
        Value::Number(n) => {
            if let Some(u) = n.as_u64() {
                JsonValue::Number(JsonNumber::PosInt(u))
            } else if let Some(i) = n.as_i64() {
                JsonValue::Number(JsonNumber::NegInt(i))
            } else {
                JsonValue::Number(JsonNumber::Float)
            }
        }
        Value::String(s) => JsonValue::Str(s.clone()),
        Value::Array(a) => JsonValue::Array(a.iter().map(to_json).collect()),
        Value::Object(m) => JsonValue::Object(
            m.iter()
                .map(|(k, v)| JsonMember { key: k.clone(), value: to_json(v) })
                .collect(),
        ),
    };
    Json { value, text }
}

fn j(s: &str) -> Json {
    to_json(&serde_json::from_str(s).unwrap())
}

fn ok() -> HttpOutcome {
    HttpOutcome::Received { status: 200, status_text: "200 OK".to_string() }
}

fn not_found() -> HttpOutcome {
    HttpOutcome::Received { status: 404, status_text: "404 Not Found".to_string() }
}

#[test]
fn exchange_checked() {
    assert_eq!(check_exchange("List tables", &ok()), Ok(()));
    assert_eq!(
        check_exchange("List tables", &not_found()),
        Err("List tables returned HTTP 404 Not Found".to_string())
    );
    assert_eq!(
        check_exchange("List tables", &HttpOutcome::SendFailed("timed out".to_string())),
        Err("List tables request failed: timed out".to_string())
    );
}

#[test]
fn databases_reply_cases() {
    assert_eq!(
        databases_reply("inst", HttpOutcome::SendFailed("refused".to_string()), None),
        Err("List databases request failed: refused".to_string())
    );
    assert_eq!(
        databases_reply("inst", not_found(), None),
        Err("List databases returned HTTP 404 Not Found".to_string())
    );
    assert_eq!(
        databases_reply("inst", ok(), Some(Err("expected value".to_string()))),
        Err("Failed to parse list databases JSON: expected value".to_string())
    );
    assert_eq!(
        databases_reply("inst", ok(), Some(Ok(j(r#"{"data":[]}"#)))),
        Ok("实例 \"inst\" 下没有数据库。".to_string())
    );
}

#[test]
fn tables_and_instances_replies() {
    assert_eq!(
        tables_reply("db", ok(), Some(Ok(j(r#"{"data":["t1"]}"#)))).unwrap().lines().next(),
        Some("📋 **数据库 \"db\" 中的表 (1个)**")
    );
    match instances_reply(ok(), Some(Ok(j(r#"{"data":[]}"#)))) {
        Ok(InstanceListing::NoInstances { message }) => {
            assert_eq!(message, "当前用户没有可访问的数据库实例。")
        }
        _ => panic!("expected no instances"),
    }
    assert!(matches!(
        instances_reply(not_found(), None),
        Err(e) if e == "List instances returned HTTP 404 Not Found"
    ));
}

#[test]
fn describe_reply_cases() {
    assert_eq!(
        describe_reply("i", "d", "t", ok(), Some(Ok(j(r#"{"status":1,"msg":"denied"}"#)))),
        Err("获取表结构失败: denied".to_string())
    );
    assert_eq!(
        describe_reply("i", "d", "t", ok(), Some(Err("eof".to_string()))),
        Err("Failed to parse describe table JSON: eof".to_string())
    );
}

#[test]
fn sql_reply_cases() {
    assert_eq!(
        sql_reply(HttpOutcome::SendFailed("timeout".to_string()), 3, "", None, None),
        Err("SQL Query request failed: timeout".to_string())
    );
    assert_eq!(
        sql_reply(ok(), 3, "text/html", Some(Err("reset".to_string())), None),
        Err("Failed to read response text: reset".to_string())
    );
    assert_eq!(
        sql_reply(ok(), 7, "text/html", Some(Ok("hi".to_string())), None),
        Ok("✅ 查询完成 (7ms)\n\nhi".to_string())
    );
    assert_eq!(
        sql_reply(ok(), 7, "application/json", Some(Ok("{".to_string())), Some(Err("eof".to_string()))),
        Err("Failed to parse query response JSON: eof".to_string())
    );
    assert_eq!(
        sql_reply(
            ok(),
            7,
            "application/json",
            Some(Ok("{}".to_string())),
            Some(Ok(j(r#"{"status":1,"msg":"bad sql"}"#)))
        ),
        Err("⚠️ SQL 执行错误: bad sql".to_string())
    );
}
