use mcp_rust::archery_client::{describe_table_form, execute_sql_form, ArcheryClient, ArcherySession};
use mcp_rust::archery_format::{
    check_http_status, column_from_captures, ddl_field_list, push_column_summary, format_databases, format_table_description, format_tables,
    summarize_instances, trim_string, InstanceListing,
};
use mcp_rust::archery_login::{cookie_value, extract_csrf_token};
use mcp_rust::text::LineText;
use mcp_rust::json::{Json, JsonMember, JsonNumber, JsonValue};
use serde_json::Value;
use std::sync::Arc;

fn to_json(v: &Value) -> Json {
    let text = v.to_string();
    let value = match v {
        Value::Null => JsonValue::Null,
        Value::Bool(b) => JsonValue::Bool(*b),
        Value::Number(n) => {
            if let Some(u) = n.as_u64() {
                JsonValue::Number(JsonNumber::PosInt(u))
            } else if let Some(i) = n.as_i64() {
                JsonValue::Number(JsonNumber::NegInt(i))
            } else {
                JsonValue::Number(JsonNumber::Float)
            }
        }
        Value::String(s) => JsonValue::Str(s.clone()),
        Value::Array(a) => JsonValue::Array(a.iter().map(to_json).collect()),
        Value::Object(m) => JsonValue::Object(
            m.iter()
                .map(|(k, v)| JsonMember { key: k.clone(), value: to_json(v) })
                .collect(),
        ),
    };
    Json { value, text }
}

fn j(s: &str) -> Json {
    to_json(&serde_json::from_str(s).unwrap())
}

fn session(base: &str) -> ArcherySession {
    ArcherySession {
        base_url: base.to_string(),
        client: reqwest::Client::new(),
        jar: Arc::new(reqwest::cookie::Jar::default()),
        csrf_token: "tok".to_string(),
    }
}

#[test]
fn new_client_drops_trailing_slashes() {
    let c = ArcheryClient::new("http://archery.local///", "alice", "pw", 1500);
    assert_eq!(c.url, "http://archery.local");
    assert_eq!(c.username, "alice");
    assert_eq!(c.password, "pw");
    assert_eq!(c.login_timeout_ms, 1500);
    let c2 = ArcheryClient::new("http://a/b", "u", "p", 0);
    assert_eq!(c2.url, "http://a/b");
    let c3 = ArcheryClient::new("///", "u", "p", 0);
    assert_eq!(c3.url, "");
}

#[test]
fn csrf_token_from_double_quotes() {
    let html = r#"<form><input type="hidden" name="csrfmiddlewaretoken" value="abc123XYZ"></form>"#;
    assert_eq!(extract_csrf_token(html), Some("abc123XYZ".to_string()));
}

#[test]
fn csrf_token_from_single_quotes() {
    let html = "<input name='csrfmiddlewaretoken' value='s1ngle'>";
    assert_eq!(extract_csrf_token(html), Some("s1ngle".to_string()));
}

#[test]
fn csrf_token_missing_cases() {
    assert_eq!(extract_csrf_token("<html>no token here</html>"), None);
    assert_eq!(extract_csrf_token("csrfmiddlewaretoken but no value"), None);
    assert_eq!(extract_csrf_token("csrfmiddlewaretoken value=abc"), None);
    assert_eq!(extract_csrf_token("csrfmiddlewaretoken value=\"unterminated"), None);
    assert_eq!(extract_csrf_token("csrfmiddlewaretoken value="), None);
    assert_eq!(extract_csrf_token("value=\"early\" csrfmiddlewaretoken value=\"late\""), Some("late".to_string()));
    assert_eq!(extract_csrf_token("csrfmiddlewaretoken value=\"\""), Some(String::new()));
}

#[test]
fn cookie_values() {
    let h = "sessionid=abc; csrftoken = xyz ;other=1";
    assert_eq!(cookie_value(h, "csrftoken"), Some("xyz".to_string()));
    assert_eq!(cookie_value(h, "sessionid"), Some("abc".to_string()));
    assert_eq!(cookie_value(h, "missing"), None);
    assert_eq!(cookie_value("a=b=c; a=d", "a"), Some("d".to_string()));
    assert_eq!(cookie_value("", "a"), None);
}

#[test]
fn http_status_check() {
    assert!(check_http_status(200, "List instances", "200 OK").is_ok());
    assert!(check_http_status(299, "x", "299").is_ok());
    assert_eq!(
        check_http_status(404, "List instances", "404 Not Found"),
        Err("List instances returned HTTP 404 Not Found".to_string())
    );
    assert!(check_http_status(300, "x", "300").is_err());
    assert!(check_http_status(199, "x", "199").is_err());
}

#[test]
fn session_urls_percent_encode() {
    let s = session("http://h");
    assert_eq!(
        s.instances_url(),
        "http://h/group/user_all_instances/?tag_codes%5B%5D=can_read"
    );
    assert_eq!(s.referer(), "http://h/sqlquery/");
    assert_eq!(
        s.databases_url("db one/ç"),
        "http://h/instance/instance_resource/?instance_name=db%20one%2F%C3%A7&resource_type=database"
    );
    assert_eq!(
        s.tables_url("i-1_.~", "a&b"),
        "http://h/instance/instance_resource/?instance_name=i-1_.~&db_name=a%26b&resource_type=table"
    );
    assert_eq!(s.describe_url(), "http://h/instance/describetable/");
    assert_eq!(s.query_url(), "http://h/query/");
}

#[test]
fn request_forms() {
    let f = describe_table_form("inst", "db", "tb");
    let expected: Vec<(String, String)> = vec![
        ("instance_name".into(), "inst".into()),
        ("db_name".into(), "db".into()),
        ("schema_name".into(), "".into()),
        ("tb_name".into(), "tb".into()),
    ];
    assert_eq!(f, expected);
    let q = execute_sql_form("inst", None, "select 1", 100);
    assert_eq!(q[1], ("db_name".to_string(), "inst".to_string()));
    assert_eq!(q[3], ("limit_num".to_string(), "100".to_string()));
    let q2 = execute_sql_form("inst", Some("other"), "select 1", 0);
    assert_eq!(q2[1], ("db_name".to_string(), "other".to_string()));
    assert_eq!(q2[2], ("sql_content".to_string(), "select 1".to_string()));
    assert_eq!(q2[3], ("limit_num".to_string(), "0".to_string()));
}

#[test]
fn instances_grouped() {
    let r = summarize_instances(j(
        r#"{"data":[{"instance_name":"hotel_distribution_fp"},{"name":"crm"},{"id":7},{"instance_name":"hotel_distribution_sp"}]}"#,
    ));
    match r {
        Ok(InstanceListing::Found { message, hotel, other, instances }) => {
            assert_eq!(message, "登录成功，共 4 个可用数据库实例");
            assert_eq!(hotel, vec!["hotel_distribution_fp", "hotel_distribution_sp"]);
            assert_eq!(other, vec!["crm".to_string(), "{\"id\":7}".to_string()]);
            assert_eq!(instances.len(), 4);
        }
        _ => panic!("expected instances"),
    }
}

#[test]
fn instances_empty_and_missing() {
    match summarize_instances(j(r#"{"data":[]}"#)) {
        Ok(InstanceListing::NoInstances { message }) => {
            assert_eq!(message, "当前用户没有可访问的数据库实例。")
        }
        _ => panic!("expected no instances"),
    }
    match summarize_instances(j(r#"{"status":0}"#)) {
        Err(e) => assert_eq!(e, "Missing 'data' array in response"),
        _ => panic!("expected error"),
    }
    assert!(summarize_instances(j(r#"{"data":"x"}"#)).is_err());
}

#[test]
fn databases_listed() {
    let r = format_databases("inst", &j(r#"{"data":["a","b",3]}"#)).unwrap();
    let expected = "📂 **实例 \"inst\" 下的数据库 (3个)**\n\n   - a\n   - b\n\n---\n💡 **下一步**: 选择数据库后可使用:\n   1. list_archery_tables → 查看表列表\n   2. execute_archery_sql → 直接执行 SQL";
    assert_eq!(r, expected);
    assert_eq!(
        format_databases("inst", &j(r#"{"data":[]}"#)),
        Ok("实例 \"inst\" 下没有数据库。".to_string())
    );
    assert_eq!(
        format_databases("inst", &j(r#"{}"#)),
        Err("实例 \"inst\" 下没有数据库。".to_string())
    );
}

#[test]
fn tables_listed() {
    let r = format_tables("db", &j(r#"{"data":["t1"]}"#)).unwrap();
    let expected = "📋 **数据库 \"db\" 中的表 (1个)**\n\n   - t1\n\n---\n💡 **下一步**: 选择表后可使用:\n   1. describe_archery_table → 查看表结构\n   2. execute_archery_sql → 执行 SQL 查询";
    assert_eq!(r, expected);
    assert_eq!(format_tables("db", &j(r#"{"data":[]}"#)), Ok("数据库 \"db\" 中没有表。".to_string()));
    assert_eq!(format_tables("db", &j(r#"{"data":1}"#)), Err("数据库 \"db\" 中没有表。".to_string()));
}

const DDL: &str = "CREATE TABLE `orders` (\n  `id` bigint(20) NOT NULL AUTO_INCREMENT COMMENT '主键',\n  `name` varchar(64) DEFAULT NULL COMMENT '名称',\n  `flag` tinyint(1) NOT NULL,\n  PRIMARY KEY (`id`),\n  KEY `idx_name` (`name`)\n) ENGINE=InnoDB";

#[test]
fn ddl_fields_read_by_regex() {
    let f = ddl_field_list(DDL);
    let expected: Vec<(String, String, String)> = vec![
        ("id".into(), "bigint(20)".into(), "主键".into()),
        ("name".into(), "varchar(64)".into(), "名称".into()),
        ("flag".into(), "tinyint(1)".into(), "".into()),
    ];
    assert_eq!(f, expected);
    assert!(ddl_field_list("").is_empty());
    assert_eq!(trim_string("  a b \t"), "a b");
}

#[test]
fn column_from_capture_groups() {
    let caps = Some((Some("id".to_string()), Some("bigint(20)".to_string()), None));
    assert_eq!(
        column_from_captures(caps),
        Some(("id".to_string(), "bigint(20)".to_string(), String::new()))
    );
    assert_eq!(column_from_captures(None), None);
}

#[test]
fn column_summary_rendered() {
    let fields: Vec<(String, String, String)> = vec![
        ("id".into(), " bigint(20) ".into(), "主键".into()),
        ("flag".into(), "tinyint(1)".into(), "".into()),
    ];
    let mut out = LineText::new();
    push_column_summary(&mut out, &fields);
    assert_eq!(
        out.text,
        "\n**字段摘要 (2个)**\n\n| 字段名 | 类型 | 注释 |\n| --- | --- | --- |\n| `id` | bigint(20) | 主键 |\n| `flag` | tinyint(1) |  |"
    );
    let mut empty = LineText::new();
    push_column_summary(&mut empty, &Vec::new());
    assert_eq!(empty.text, "");
}

#[test]
fn table_described() {
    let text = format!(r#"{{"status":0,"data":{{"rows":[["orders",{}]]}}}}"#, serde_json::to_string(DDL).unwrap());
    let r = format_table_description("inst", "db", "orders", &j(&text)).unwrap();
    let expected = format!(
        "## 📐 表结构: orders\n\n**实例**: inst\n**数据库**: db\n\n```sql\n{}\n```\n\n**字段摘要 (3个)**\n\n| 字段名 | 类型 | 注释 |\n| --- | --- | --- |\n| `id` | bigint(20) | 主键 |\n| `name` | varchar(64) | 名称 |\n| `flag` | tinyint(1) |  |\n\n---\n💡 **下一步**: 使用 execute_archery_sql 执行查询",
        DDL
    );
    assert_eq!(r, expected);
}

#[test]
fn table_description_errors() {
    assert_eq!(
        format_table_description("i", "d", "t", &j(r#"{"status":1,"msg":"denied"}"#)),
        Err("获取表结构失败: denied".to_string())
    );
    assert_eq!(
        format_table_description("i", "d", "t", &j(r#"{"data":{"rows":[]}}"#)),
        Err("获取表结构失败: 未知错误".to_string())
    );
    assert_eq!(
        format_table_description("i", "d", "t", &j(r#"{"status":0,"data":{"rows":[]}}"#)),
        Ok("表 \"t\" 没有返回结构信息。".to_string())
    );
    assert_eq!(
        format_table_description("i", "d", "t", &j(r#"{"status":0,"data":{}}"#)),
        Err("表 \"t\" 没有返回结构信息。".to_string())
    );
    let no_ddl = format_table_description("i", "d", "t", &j(r#"{"status":0,"data":{"rows":[["t"]]}}"#)).unwrap();
    assert_eq!(
        no_ddl,
        "## 📐 表结构: t\n\n**实例**: i\n**数据库**: d\n\n\n---\n💡 **下一步**: 使用 execute_archery_sql 执行查询"
    );
}
