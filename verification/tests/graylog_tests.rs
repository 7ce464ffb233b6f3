use mcp_rust::graylog::{
    cap_limit, cap_range, client_from_build, format_search_result, search_http_error_message,
    search_query, search_reply, search_result_is_cuttable, GraylogClient,
};
use mcp_rust::archery_login::HttpOutcome;
use mcp_rust::json::{Json, JsonMember, JsonNumber, JsonValue};
use serde_json::Value;

fn to_json(v: &Value) -> Json {
    let text = v.to_string();
    let value = match v {
        Value::Null => JsonValue::Null,
        Value::Bool(b) => JsonValue::Bool(*b),
        Value::Number(n) => {
            if let Some(u) = n.as_u64() {
                JsonValue::Number(JsonNumber::PosInt(u))
            } else if let Some(i) = n.as_i64() {
                JsonValue::Number(JsonNumber::NegInt(i))
            } else {
                JsonValue::Number(JsonNumber::Float)
            }
        }
        Value::String(s) => JsonValue::Str(s.clone()),
        Value::Array(a) => JsonValue::Array(a.iter().map(to_json).collect()),
        Value::Object(m) => JsonValue::Object(
            m.iter()
                .map(|(k, v)| JsonMember { key: k.clone(), value: to_json(v) })
                .collect(),
        ),
    };
    Json { value, text }
}

fn j(s: &str) -> Json {
    to_json(&serde_json::from_str(s).unwrap())
}

#[test]
fn graylog_client_trims_url() {
    let c = GraylogClient::new("http://graylog:9000/", "u", "p").unwrap();
    assert_eq!(c.base_url, "http://graylog:9000");
    assert_eq!(c.username, "u");
    assert_eq!(c.password, "p");
    assert_eq!(c.search_url(), "http://graylog:9000/api/search/universal/relative");
}

#[test]
fn range_and_limit_capped() {
    assert_eq!(cap_range(3600), 3600);
    assert_eq!(cap_range(10_000_000), 2_592_000);
    assert_eq!(cap_limit(20), 20);
    assert_eq!(cap_limit(500), 100);
}

#[test]
fn search_parameters() {
    let p = search_query("ERROR", "abc", 99_999_999, 1000, Some("message,source"), "timestamp:desc");
    let expected: Vec<(String, String)> = vec![
        ("query".into(), "ERROR".into()),
        ("range".into(), "2592000".into()),
        ("limit".into(), "100".into()),
        ("decorate".into(), "false".into()),
        ("sort".into(), "timestamp:desc".into()),
        ("filter".into(), "streams:abc".into()),
        ("fields".into(), "message,source".into()),
    ];
    assert_eq!(p, expected);
    assert_eq!(search_query("q", "s", 1, 1, None, "x").len(), 6);
}

#[test]
fn http_error_cut_at_three_hundred_bytes() {
    let body = "x".repeat(400);
    assert_eq!(
        search_http_error_message("500 Internal Server Error", &body),
        format!("Graylog API HTTP 500 Internal Server Error: {}", "x".repeat(300))
    );
    assert_eq!(search_http_error_message("401 Unauthorized", "no"), "Graylog API HTTP 401 Unauthorized: no");
}

#[test]
fn no_hits_short_range_hint() {
    let r = format_search_result(&j(r#"{"messages":[],"total_results":0,"time":12}"#), "ERROR", 300, None).unwrap();
    assert_eq!(
        r,
        "✅ 查询完成 (12ms)，共 0 条结果\n\n查询: ERROR\n时间范围: 过去 300 秒。提示：当前时间范围较短，可尝试增大 range 参数（如 7200=2小时）\n\n未匹配到日志消息。"
    );
    let r2 = format_search_result(&j(r#"{"total":3}"#), "q", 7200, None).unwrap();
    assert_eq!(r2, "✅ 查询完成 (0ms)，共 3 条结果\n\n查询: q\n时间范围: 过去 7200 秒\n\n未匹配到日志消息。");
}

#[test]
fn no_hits_long_query_cut_at_eighty_bytes() {
    let q = "q".repeat(100);
    let r = format_search_result(&j(r#"{"messages":[]}"#), &q, 8000, None).unwrap();
    assert!(r.contains(&format!("查询: {}\n", "q".repeat(80))));
}

#[test]
fn hits_formatted() {
    let json = j(r#"{"messages":[{"message":{"timestamp":"2024-01-01T00:00:00Z","source":"host1","message":"boom","level":3,"tag":"api"}},{"message":"not an object"}],"total_results":2,"time":5,"from":"A","to":"B"}"#);
    let r = format_search_result(&json, "boom", 3600, None).unwrap();
    let expected = "✅ **搜索完成** (5ms) | 共 2 条 | 显示前 2 条\n查询: `boom`\n时间: A ~ B\n\n---\n**#1**  2024-01-01T00:00:00Z  |  host1\n标签: `api`\nlevel: 3\n\nboom\n\n---\n**#2**    |  \n\n---\n💡 **提示**: 可通过 fields 参数自定义返回字段，或用更精确的 query 缩小范围";
    assert_eq!(r, expected);
}

#[test]
fn hits_with_chosen_fields_and_long_body() {
    let body = "z".repeat(1300);
    let json = j(&format!(r#"{{"messages":[{{"message":{{"message":"{}","host":"h","pid":7}}}}]}}"#, body));
    let r = format_search_result(&json, "q", 3600, Some(" pid , ,host,message")).unwrap();
    let expected = format!(
        "✅ **搜索完成** (0ms) | 共 0 条 | 显示前 1 条\n查询: `q`\n时间:  ~ \n\n---\n**#1**    |  \npid: 7\nhost: \"h\"\n\n{}\n... (已截断)\n\n---\n💡 **提示**: 可通过 fields 参数自定义返回字段，或用更精确的 query 缩小范围",
        "z".repeat(1200)
    );
    assert_eq!(r, expected);
}

#[test]
fn cut_points_checked() {
    assert!(search_result_is_cuttable(&j(r#"{"messages":[]}"#), "short"));
    let q = format!("{}é", "a".repeat(80));
    assert!(search_result_is_cuttable(&j(r#"{"messages":[]}"#), &q));
    let q2 = format!("{}é", "a".repeat(79));
    assert!(!search_result_is_cuttable(&j(r#"{"messages":[]}"#), &q2));
    let body = format!("{}é", "a".repeat(1199));
    let json = j(&format!(r#"{{"messages":[{{"message":{{"message":"{}"}}}}]}}"#, body));
    assert!(!search_result_is_cuttable(&json, "q"));
}

#[test]
fn client_from_failed_build() {
    match client_from_build("http://g/", "u", "p", Err("no TLS backend".to_string())) {
        Err(e) => assert_eq!(e, "Failed to build HTTP client: no TLS backend"),
        Ok(_) => panic!("expected an error"),
    }
}

#[test]
fn search_reply_cases() {
    assert_eq!(
        search_reply("q", 3600, None, HttpOutcome::SendFailed("refused".to_string()), None, None),
        Err("Graylog API request failed: refused".to_string())
    );
    let long = "x".repeat(400);
    assert_eq!(
        search_reply(
            "q",
            3600,
            None,
            HttpOutcome::Received { status: 500, status_text: "500 Internal Server Error".to_string() },
            Some(long),
            None
        ),
        Err(format!("Graylog API HTTP 500 Internal Server Error: {}", "x".repeat(300)))
    );
    let ok = HttpOutcome::Received { status: 200, status_text: "200 OK".to_string() };
    assert_eq!(
        search_reply("q", 3600, None, ok, None, Some(Err("eof".to_string()))),
        Err("Failed to parse Graylog response JSON: eof".to_string())
    );
    let ok = HttpOutcome::Received { status: 200, status_text: "200 OK".to_string() };
    let r = search_reply("q", 99999999, None, ok, None, Some(Ok(j(r#"{"messages":[]}"#)))).unwrap();
    assert!(r.contains("时间范围: 过去 2592000 秒"));
}
