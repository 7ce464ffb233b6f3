use mcp_rust::json::{Json, JsonMember, JsonNumber, JsonValue};
use mcp_rust::mcp::{
    answer_message, message_text, parse_error_response, text_result, tool_call_response, JsonRpcRequest, McpServer,
    MessageOutcome, RpcResult, ToolContent, ToolResult, INVALID_PARAMS, METHOD_NOT_FOUND, PARSE_ERROR,
};
use mcp_rust::serve_loop::{LoopAction, ServeLoop};
use serde_json::Value;

fn to_json(v: &Value) -> Json {
    let text = v.to_string();
    let value = match v {
        Value::Null => JsonValue::Null,
        Value::Bool(b) => JsonValue::Bool(*b),
        Value::Number(n) => {
            if let Some(u) = n.as_u64() {
                JsonValue::Number(JsonNumber::PosInt(u))
            } else if let Some(i) = n.as_i64() {
                JsonValue::Number(JsonNumber::NegInt(i))
            } else {
                JsonValue::Number(JsonNumber::Float)
            }
        }
        Value::String(s) => JsonValue::Str(s.clone()),
        Value::Array(a) => JsonValue::Array(a.iter().map(to_json).collect()),
        Value::Object(m) => JsonValue::Object(
            m.iter()
                .map(|(k, v)| JsonMember { key: k.clone(), value: to_json(v) })
                .collect(),
        ),
    };
    Json { value, text }
}

fn j(s: &str) -> Json {
    to_json(&serde_json::from_str(s).unwrap())
}

fn request(id: Option<&str>, method: &str, params: &str) -> JsonRpcRequest {
    JsonRpcRequest {
        jsonrpc: "2.0".to_string(),
        id: id.map(j),
        method: method.to_string(),
        params: j(params),
    }
}

fn server() -> McpServer {
    let mut s = McpServer::new("demo", "0.1.0");
    s.register_tool("echo", "Echoes", j(r#"{"type":"object"}"#));
    s
}

#[test]
fn initialize_answers_name_and_version() {
    let s = server();
    match s.handle_message(request(Some("1"), "initialize", "{}")) {
        MessageOutcome::Respond(resp) => {
            assert_eq!(resp.jsonrpc, "2.0");
            assert_eq!(resp.id.text, "1");
            assert!(resp.error.is_none());
            match resp.result {
                Some(RpcResult::Initialize { protocol_version, server_name, server_version }) => {
                    assert_eq!(protocol_version, "2024-11-05");
                    assert_eq!(server_name, "demo");
                    assert_eq!(server_version, "0.1.0");
                }
                _ => panic!("expected initialize result"),
            }
        }
        _ => panic!("expected a response"),
    }
}

#[test]
fn tools_list_answered() {
    let s = server();
    match s.handle_message(request(Some("\"a\""), "tools/list", "null")) {
        MessageOutcome::Respond(resp) => {
            assert_eq!(resp.id.text, "\"a\"");
            assert!(matches!(resp.result, Some(RpcResult::ToolList)));
        }
        _ => panic!("expected a response"),
    }
    assert_eq!(s.tools.len(), 1);
    assert_eq!(s.tools[0].name, "echo");
}

#[test]
fn tools_call_runs_registered_tool() {
    let s = server();
    match s.handle_message(request(Some("7"), "tools/call", r#"{"name":"echo","arguments":{"x":1}}"#)) {
        MessageOutcome::CallTool { id, name, arguments } => {
            assert_eq!(id.text, "7");
            assert_eq!(name, "echo");
            assert_eq!(arguments.text, "{\"x\":1}");
        }
        _ => panic!("expected a tool call"),
    }
    match s.handle_message(request(Some("8"), "tools/call", r#"{"name":"echo"}"#)) {
        MessageOutcome::CallTool { arguments, .. } => {
            assert_eq!(arguments.text, "{}");
            assert!(matches!(arguments.value, JsonValue::Object(ref m) if m.is_empty()));
        }
        _ => panic!("expected a tool call"),
    }
}

#[test]
fn tools_call_errors() {
    let s = server();
    match s.handle_message(request(Some("2"), "tools/call", r#"{"name":"nope"}"#)) {
        MessageOutcome::Respond(resp) => {
            let e = resp.error.unwrap();
            assert_eq!(e.code, METHOD_NOT_FOUND);
            assert_eq!(e.message, "Tool not found: nope");
            assert!(resp.result.is_none());
        }
        _ => panic!("expected an error"),
    }
    match s.handle_message(request(Some("3"), "tools/call", r#"{"arguments":{}}"#)) {
        MessageOutcome::Respond(resp) => {
            let e = resp.error.unwrap();
            assert_eq!(e.code, INVALID_PARAMS);
            assert_eq!(e.message, "Missing 'name' in tools/call parameters");
        }
        _ => panic!("expected an error"),
    }
}

#[test]
fn unknown_method_and_notifications() {
    let s = server();
    match s.handle_message(request(Some("4"), "resources/list", "{}")) {
        MessageOutcome::Respond(resp) => {
            let e = resp.error.unwrap();
            assert_eq!(e.code, -32601);
            assert_eq!(e.message, "Method not found: resources/list");
        }
        _ => panic!("expected an error"),
    }
    match s.handle_message(request(None, "notifications/initialized", "{}")) {
        MessageOutcome::Notification { method } => assert_eq!(method, "notifications/initialized"),
        _ => panic!("expected a notification"),
    }
}

#[test]
fn register_replaces_same_name() {
    let mut s = server();
    s.register_tool("other", "Other", j("{}"));
    s.register_tool("echo", "Echoes again", j(r#"{"type":"string"}"#));
    assert_eq!(s.tools.len(), 2);
    let t = s.tool("echo").unwrap();
    assert_eq!(t.description, "Echoes again");
    assert_eq!(t.input_schema.text, "{\"type\":\"string\"}");
    assert_eq!(s.tool("other").unwrap().description, "Other");
    assert!(s.tool("none").is_none());
}

#[test]
fn tool_call_outcomes() {
    let ok = tool_call_response(j("5"), Ok(text_result("hi".to_string())));
    assert_eq!(ok.id.text, "5");
    match ok.result {
        Some(RpcResult::ToolCall(ToolResult { content, is_error })) => {
            assert!(!is_error);
            assert!(matches!(&content[0], ToolContent::Text { text } if text == "hi"));
        }
        _ => panic!("expected a tool result"),
    }
    let err = tool_call_response(j("6"), Err("down".to_string()));
    assert!(err.error.is_none());
    match err.result {
        Some(RpcResult::ToolCall(ToolResult { content, is_error })) => {
            assert!(is_error);
            assert_eq!(content.len(), 1);
            assert!(matches!(&content[0], ToolContent::Text { text } if text == "❌ Tool execution failed: down"));
        }
        _ => panic!("expected a tool result"),
    }
}

#[test]
fn parse_errors_and_lines() {
    let r = parse_error_response("expected value at line 1 column 1");
    assert_eq!(r.id.text, "null");
    assert!(matches!(r.id.value, JsonValue::Null));
    let e = r.error.unwrap();
    assert_eq!(e.code, PARSE_ERROR);
    assert_eq!(e.message, "Parse error: expected value at line 1 column 1");
    assert_eq!(message_text("  {\"a\":1}\r\n"), Some("{\"a\":1}".to_string()));
    assert_eq!(message_text(" \t "), None);
    assert_eq!(message_text(""), None);
}

#[test]
fn lines_answered() {
    let s = server();
    match answer_message(&s, Err("expected value at line 1 column 1".to_string())) {
        MessageOutcome::Respond(resp) => {
            assert_eq!(resp.id.text, "null");
            let e = resp.error.unwrap();
            assert_eq!(e.code, PARSE_ERROR);
            assert_eq!(e.message, "Parse error: expected value at line 1 column 1");
        }
        _ => panic!("expected a parse error"),
    }
    assert!(matches!(
        answer_message(&s, Ok(request(None, "notifications/initialized", "{}"))),
        MessageOutcome::Notification { .. }
    ));
    assert!(matches!(
        answer_message(&s, Ok(request(Some("3"), "tools/call", r#"{"name":"echo"}"#))),
        MessageOutcome::CallTool { .. }
    ));
}

#[test]
fn loop_answers_each_line() {
    let s = server();
    let mut l = ServeLoop::new(&s);
    assert!(matches!(l.line_read(&s, "   ", None), LoopAction::Next));
    match l.line_read(&s, "{", Some(Err("EOF while parsing".to_string()))) {
        LoopAction::Write(resp) => assert_eq!(resp.error.unwrap().message, "Parse error: EOF while parsing"),
        _ => panic!("expected a parse error"),
    }
    assert!(matches!(
        l.line_read(&s, "n", Some(Ok(request(None, "notifications/initialized", "{}")))),
        LoopAction::Notified { .. }
    ));
    match l.line_read(&s, "c", Some(Ok(request(Some("9"), "tools/call", r#"{"name":"echo","arguments":{"a":1}}"#)))) {
        LoopAction::RunTool { name, arguments } => {
            assert_eq!(name, "echo");
            assert_eq!(arguments.text, r#"{"a":1}"#);
        }
        _ => panic!("expected a tool run"),
    }
    let resp = l.tool_finished(Err("down".to_string()));
    assert_eq!(resp.id.text, "9");
    match resp.result {
        Some(RpcResult::ToolCall(r)) => {
            assert!(r.is_error);
            assert!(matches!(&r.content[0], ToolContent::Text { text } if text == "❌ Tool execution failed: down"));
        }
        _ => panic!("expected a tool result"),
    }
}
