//! The MCP server: its messages, its registry of tools, and how it answers a
//! JSON-RPC message read from standard input.

use vstd::prelude::*;
use crate::json::{Json, JsonValue, or_else, str_eq};
use crate::query_result::opt_str;
use crate::text::{chars_of, push_str, string_from_chars, string_of, trim, trim_bounds};

verus! {

/// A tool as `tools/list` describes it.
pub struct Tool {
    pub name: String,
    pub description: String,
    pub input_schema: Json,
}

/// One piece of a tool's output.
pub enum ToolContent {
    Text { text: String },
}

/// What a tool call gives back.
pub struct ToolResult {
    pub content: Vec<ToolContent>,
    pub is_error: bool,
}

/// A JSON-RPC message; it is a notification when it has no `id`.
pub struct JsonRpcRequest {
    pub jsonrpc: String,
    pub id: Option<Json>,
    pub method: String,
    pub params: Json,
}

/// A JSON-RPC error.
pub struct JsonRpcError {
    pub code: i32,
    pub message: String,
    pub data: Option<Json>,
}

/// The result of a request.
pub enum RpcResult {
    /// The answer to `initialize`: the protocol version and who the server is.
    Initialize { protocol_version: String, server_name: String, server_version: String },
    /// The answer to `tools/list`: the server's registered tools.
    ToolList,
    /// The answer to `tools/call`.
    ToolCall(ToolResult),
}

/// A JSON-RPC response.
pub struct JsonRpcResponse {
    pub jsonrpc: String,
    pub id: Json,
    pub result: Option<RpcResult>,
    pub error: Option<JsonRpcError>,
}

/// What the server does with a message.
pub enum MessageOutcome {
    /// A notification: nothing is answered.
    Notification { method: String },
    /// Answer with this response.
    Respond(JsonRpcResponse),
    /// Run this tool's handler with these arguments, then answer with
    /// `tool_call_response`.
    CallTool { id: Json, name: String, arguments: Json },
}

/// The code of a method or tool that does not exist.
pub const METHOD_NOT_FOUND: i32 = -32601;

/// The code of missing parameters.
pub const INVALID_PARAMS: i32 = -32602;

/// The code of a message that is not JSON-RPC.
pub const PARSE_ERROR: i32 = -32700;

/// An MCP server: its name, version and tools.
pub struct McpServer {
    pub name: String,
    pub version: String,
    pub tools: Vec<Tool>,
}

/// The first tool named `name`.
pub open spec fn tool_named(tools: Seq<Tool>, name: Seq<char>) -> Option<Tool>
    decreases tools.len(),
{
    if tools.len() == 0 {
        None
    } else if tools[0].name@ == name {
        Some(tools[0])
    } else {
        tool_named(tools.drop_first(), name)
    }
}

/// No two tools share a name.
pub open spec fn names_unique(tools: Seq<Tool>) -> bool {
    forall|i: int, j: int|
        0 <= i < tools.len() && 0 <= j < tools.len() && i != j ==> tools[i].name@ != tools[j].name@
}

/// A successful response.
pub open spec fn is_result(r: JsonRpcResponse, id: Json) -> bool {
    &&& r.jsonrpc@ == "2.0"@
    &&& r.id == id
    &&& r.result is Some
    &&& r.error is None
}

/// An error response.
pub open spec fn is_error(r: JsonRpcResponse, id: Json, code: i32, message: Seq<char>) -> bool {
    &&& r.jsonrpc@ == "2.0"@
    &&& r.id == id
    &&& r.result is None
    &&& r.error matches Some(e) && e.code == code && e.message@ == message && e.data is None
}

/// `tool_named` finds the tool at the first index that bears the name.
proof fn lemma_tool_named_at(tools: Seq<Tool>, name: Seq<char>, i: int)
    requires
        0 <= i < tools.len(),
        tools[i].name@ == name,
        forall|k: int| 0 <= k < i ==> #[trigger] tools[k].name@ != name,
    ensures
        tool_named(tools, name) == Some(tools[i]),
    decreases i,
{
    if i > 0 {
        assert forall|k: int| 0 <= k < i - 1 implies #[trigger] tools.drop_first()[k].name@ != name by {
            assert(tools.drop_first()[k] == tools[k + 1]);
        }
        lemma_tool_named_at(tools.drop_first(), name, i - 1);
    }
}

/// `tool_named` finds nothing when no tool bears the name.
proof fn lemma_tool_named_none(tools: Seq<Tool>, name: Seq<char>)
    requires
        forall|k: int| 0 <= k < tools.len() ==> #[trigger] tools[k].name@ != name,
    ensures
        tool_named(tools, name) is None,
    decreases tools.len(),
{
    if tools.len() > 0 {
        assert forall|k: int| 0 <= k < tools.len() - 1 implies #[trigger] tools.drop_first()[k].name@
            != name by {
            assert(tools.drop_first()[k] == tools[k + 1]);
        }
        lemma_tool_named_none(tools.drop_first(), name);
    }
}

/// In a list with unique names, the tool at index `i` is the one `tool_named` finds.
proof fn lemma_tool_named_unique(tools: Seq<Tool>, i: int)
    requires
        names_unique(tools),
        0 <= i < tools.len(),
    ensures
        tool_named(tools, tools[i].name@) == Some(tools[i]),
{
    assert forall|k: int| 0 <= k < i implies #[trigger] tools[k].name@ != tools[i].name@ by {}
    lemma_tool_named_at(tools, tools[i].name@, i);
}

impl McpServer {
    /// The server's tools have unique names.
    pub open spec fn wf(&self) -> bool {
        names_unique(self.tools@)
    }

    /// A server with no tools.
    pub fn new(name: &str, version: &str) -> (r: McpServer)
        ensures
            r.name@ == name@,
            r.version@ == version@,
            r.tools@.len() == 0,
            r.wf(),
    {
        McpServer { name: string_of(name), version: string_of(version), tools: Vec::new() }
    }

    /// The index of the tool named `name`.
    fn tool_index(&self, name: &str) -> (r: Option<usize>)
        ensures
            match r {
                Some(i) => i < self.tools@.len() && self.tools@[i as int].name@ == name@
                    && tool_named(self.tools@, name@) == Some(self.tools@[i as int]),
                None => tool_named(self.tools@, name@) is None && forall|k: int|
                    0 <= k < self.tools@.len() ==> #[trigger] self.tools@[k].name@ != name@,
            },
    {
        let mut i: usize = 0;
        while i < self.tools.len()
            invariant
                i <= self.tools@.len(),
                forall|k: int| 0 <= k < i ==> #[trigger] self.tools@[k].name@ != name@,
            decreases self.tools.len() - i,
        {
            if str_eq(self.tools[i].name.as_str(), name) {
                proof {
                    lemma_tool_named_at(self.tools@, name@, i as int);
                }
                return Some(i);
            }
            i = i + 1;
        }
        proof {
            lemma_tool_named_none(self.tools@, name@);
        }
        None
    }

    /// The tool named `name`, if registered.
    pub fn tool(&self, name: &str) -> (r: Option<&Tool>)
        ensures
            match r {
                Some(t) => tool_named(self.tools@, name@) == Some(*t),
                None => tool_named(self.tools@, name@) is None,
            },
    {
        match self.tool_index(name) {
            Some(i) => Some(&self.tools[i]),
            None => None,
        }
    }

    /// Registers a tool, in place of any tool of the same name.
    pub fn register_tool(&mut self, name: &str, description: &str, schema: Json)
        requires
            old(self).wf(),
        ensures
            final(self).wf(),
            final(self).name == old(self).name,
            final(self).version == old(self).version,
            tool_named(final(self).tools@, name@) matches Some(t) && t.name@ == name@
                && t.description@ == description@ && t.input_schema == schema,
            forall|n: Seq<char>|
                n != name@ ==> #[trigger] tool_named(final(self).tools@, n) == tool_named(
                    old(self).tools@,
                    n,
                ),
    {
        let tool = Tool {
            name: string_of(name),
            description: string_of(description),
            input_schema: schema,
        };
        let ghost before = self.tools@;
        match self.tool_index(name) {
            Some(i) => {
                self.tools.set(i, tool);
                let ghost after = self.tools@;
                proof {
                    assert(after == before.update(i as int, tool));
                    assert forall|a: int, b: int|
                        0 <= a < after.len() && 0 <= b < after.len() && a != b implies after[a].name@
                        != after[b].name@ by {
                        if a == i {
                            assert(after[b] == before[b]);
                        } else if b == i {
                            assert(after[a] == before[a]);
                        } else {
                            assert(after[a] == before[a] && after[b] == before[b]);
                        }
                    }
                    lemma_tool_named_unique(after, i as int);
                    assert forall|n: Seq<char>| n != name@ implies #[trigger] tool_named(after, n)
                        == tool_named(before, n) by {
                        lemma_tool_named_other(before, i as int, tool, name@, n);
                    }
                }
            },
            None => {
                self.tools.push(tool);
                let ghost after = self.tools@;
                proof {
                    assert(after == before.push(tool));
                    assert forall|a: int, b: int|
                        0 <= a < after.len() && 0 <= b < after.len() && a != b implies after[a].name@
                        != after[b].name@ by {
                        if a == before.len() {
                            assert(after[b] == before[b]);
                        } else if b == before.len() {
                            assert(after[a] == before[a]);
                        } else {
                            assert(after[a] == before[a] && after[b] == before[b]);
                        }
                    }
                    lemma_tool_named_unique(after, before.len() as int);
                    assert forall|n: Seq<char>| n != name@ implies #[trigger] tool_named(after, n)
                        == tool_named(before, n) by {
                        lemma_tool_named_push(before, tool, name@, n);
                    }
                }
            },
        }
    }

    /// Answers a message (see `message_outcome`).
    pub fn handle_message(&self, req: JsonRpcRequest) -> (r: MessageOutcome)
        requires
            self.wf(),
        ensures
            message_outcome(*self, req, r),
    {
        let id = match req.id {
            Some(id) => id,
            None => {
                return MessageOutcome::Notification { method: req.method };
            },
        };
        let ghost id_view = id;
        let m = req.method.as_str();
        if str_eq(m, "initialize") {
            MessageOutcome::Respond(
                JsonRpcResponse {
                    jsonrpc: string_of("2.0"),
                    id,
                    result: Some(
                        RpcResult::Initialize {
                            protocol_version: string_of("2024-11-05"),
                            server_name: string_of(self.name.as_str()),
                            server_version: string_of(self.version.as_str()),
                        },
                    ),
                    error: None,
                },
            )
        } else if str_eq(m, "tools/list") {
            MessageOutcome::Respond(
                JsonRpcResponse {
                    jsonrpc: string_of("2.0"),
                    id,
                    result: Some(RpcResult::ToolList),
                    error: None,
                },
            )
        } else if str_eq(m, "tools/call") {
            let name = match req.params.get("name") {
                Some(v) => match v.as_str() {
                    Some(s) => Some(string_of(s)),
                    None => None,
                },
                None => None,
            };
            match name {
                Some(name) => {
                    if self.tool(name.as_str()).is_some() {
                        let arguments = match req.params.into_field("arguments") {
                            Some(a) => a,
                            None => Json::empty_object(),
                        };
                        MessageOutcome::CallTool { id, name, arguments }
                    } else {
                        let mut message = string_of("Tool not found: ");
                        push_str(&mut message, name.as_str());
                        MessageOutcome::Respond(error_response(id, METHOD_NOT_FOUND, message))
                    }
                },
                None => MessageOutcome::Respond(
                    error_response(
                        id,
                        INVALID_PARAMS,
                        string_of("Missing 'name' in tools/call parameters"),
                    ),
                ),
            }
        } else {
            let mut message = string_of("Method not found: ");
            push_str(&mut message, m);
            MessageOutcome::Respond(error_response(id, METHOD_NOT_FOUND, message))
        }
    }
}

/// Replacing the tool of one name leaves the tools of other names.
proof fn lemma_tool_named_other(tools: Seq<Tool>, i: int, t: Tool, name: Seq<char>, n: Seq<char>)
    requires
        0 <= i < tools.len(),
        tools[i].name@ == name,
        t.name@ == name,
        n != name,
    ensures
        tool_named(tools.update(i, t), n) == tool_named(tools, n),
    decreases tools.len(),
{
    if i > 0 {
        assert(tools.update(i, t).drop_first() =~= tools.drop_first().update(i - 1, t));
        lemma_tool_named_other(tools.drop_first(), i - 1, t, name, n);
    } else {
        assert(tools.update(i, t).drop_first() =~= tools.drop_first());
    }
}

/// Adding a tool of one name leaves the tools of other names.
proof fn lemma_tool_named_push(tools: Seq<Tool>, t: Tool, name: Seq<char>, n: Seq<char>)
    requires
        t.name@ == name,
        n != name,
    ensures
        tool_named(tools.push(t), n) == tool_named(tools, n),
    decreases tools.len(),
{
    if tools.len() > 0 {
        assert(tools.push(t)[0] == tools[0]);
        assert(tools.push(t).drop_first() =~= tools.drop_first().push(t));
        lemma_tool_named_push(tools.drop_first(), t, name, n);
    } else {
        assert(tools.push(t)[0] == t);
        assert(t.name@ != n);
        assert(tools.push(t).drop_first() =~= Seq::<Tool>::empty());
        assert(tool_named(Seq::<Tool>::empty(), n) is None);
        assert(tool_named(tools.push(t), n) == tool_named(tools.push(t).drop_first(), n));
    }
}

/// An error response.
fn error_response(id: Json, code: i32, message: String) -> (r: JsonRpcResponse)
    ensures
        is_error(r, id, code, message@),
{
    JsonRpcResponse {
        jsonrpc: string_of("2.0"),
        id,
        result: None,
        error: Some(JsonRpcError { code, message, data: None }),
    }
}

/// The arguments of a `tools/call`: its `arguments`, else an empty object.
pub open spec fn call_arguments(params: Json, arguments: Json) -> bool {
    match params.field("arguments"@) {
        Some(a) => arguments == a,
        None => arguments.object_value() == Some(Seq::<crate::json::JsonMember>::empty())
            && arguments.text@ == "{}"@,
    }
}

/// How the server answers a message: a notification (no `id`) is not
/// answered; `initialize` tells the protocol version and the server's name
/// and version; `tools/list` lists the tools; `tools/call` runs the named
/// tool, or fails when the name is missing or no such tool is registered;
/// any other method fails. Every answer carries the message's `id`.
pub open spec fn message_outcome(s: McpServer, req: JsonRpcRequest, r: MessageOutcome) -> bool {
    match req.id {
        None => r matches MessageOutcome::Notification { method } && method@ == req.method@,
        Some(id) => if req.method@ == "initialize"@ {
            r matches MessageOutcome::Respond(resp) && is_result(resp, id) && match resp.result {
                Some(RpcResult::Initialize { protocol_version, server_name, server_version }) => {
                    &&& protocol_version@ == "2024-11-05"@
                    &&& server_name@ == s.name@
                    &&& server_version@ == s.version@
                },
                _ => false,
            }
        } else if req.method@ == "tools/list"@ {
            r matches MessageOutcome::Respond(resp) && is_result(resp, id) && resp.result
                matches Some(RpcResult::ToolList)
        } else if req.method@ == "tools/call"@ {
            match opt_str(req.params.field("name"@)) {
                None => r matches MessageOutcome::Respond(resp) && is_error(
                    resp,
                    id,
                    INVALID_PARAMS,
                    "Missing 'name' in tools/call parameters"@,
                ),
                Some(n) => if tool_named(s.tools@, n) is Some {
                    r matches MessageOutcome::CallTool { id: cid, name, arguments } && cid == id
                        && name@ == n && call_arguments(req.params, arguments)
                } else {
                    r matches MessageOutcome::Respond(resp) && is_error(
                        resp,
                        id,
                        METHOD_NOT_FOUND,
                        "Tool not found: "@ + n,
                    )
                },
            }
        } else {
            r matches MessageOutcome::Respond(resp) && is_error(
                resp,
                id,
                METHOD_NOT_FOUND,
                "Method not found: "@ + req.method@,
            )
        },
    }
}

/// The answer to a `tools/call` once the handler has run: its result, or,
/// when it failed, a text result that says so and is marked as an error.
pub fn tool_call_response(id: Json, outcome: Result<ToolResult, String>) -> (r: JsonRpcResponse)
    ensures
        is_result(r, id),
        match outcome {
            Ok(res) => r.result == Some(RpcResult::ToolCall(res)),
            Err(e) => match r.result {
                Some(RpcResult::ToolCall(res)) => {
                    &&& res.is_error
                    &&& res.content@.len() == 1
                    &&& res.content@[0] == (ToolContent::Text {
                        text: res.content@[0]->Text_text,
                    })
                    &&& res.content@[0]->Text_text@ == "❌ Tool execution failed: "@ + e@
                },
                _ => false,
            },
        },
{
    let result = match outcome {
        Ok(res) => res,
        Err(e) => {
            let mut text = string_of("❌ Tool execution failed: ");
            push_str(&mut text, e.as_str());
            let mut content: Vec<ToolContent> = Vec::new();
            content.push(ToolContent::Text { text });
            ToolResult { content, is_error: true }
        },
    };
    JsonRpcResponse {
        jsonrpc: string_of("2.0"),
        id,
        result: Some(RpcResult::ToolCall(result)),
        error: None,
    }
}

/// The answer to a line that is not a JSON-RPC message (the parser's error text).
pub fn parse_error_response(error: &str) -> (r: JsonRpcResponse)
    ensures
        r.id.value is Null,
        r.id.text@ == "null"@,
        r.jsonrpc@ == "2.0"@,
        r.result is None,
        r.error matches Some(e) && e.code == PARSE_ERROR && e.message@ == "Parse error: "@ + error@
            && e.data is None,
{
    let mut message = string_of("Parse error: ");
    push_str(&mut message, error);
    JsonRpcResponse {
        jsonrpc: string_of("2.0"),
        id: Json::null(),
        result: None,
        error: Some(JsonRpcError { code: PARSE_ERROR, message, data: None }),
    }
}

/// The message on a line of input: the line trimmed; `None` for a blank line.
pub fn message_text(line: &str) -> (r: Option<String>)
    ensures
        match r {
            Some(t) => t@ == trim(line@) && t@.len() > 0,
            None => trim(line@).len() == 0,
        },
{
    let cs = chars_of(line);
    let (a, b) = trim_bounds(cs.as_slice(), 0, cs.len());
    assert(cs@.subrange(0, cs@.len() as int) =~= cs@);
    if a == b {
        None
    } else {
        Some(string_from_chars(cs.as_slice(), a, b))
    }
}

/// What the server does with the message on a line: a line that did not
/// parse as a JSON-RPC message (the parser's error text) is answered with a
/// parse error whose id is null; a message is handled by `handle_message`.
pub fn answer_message(server: &McpServer, parsed: Result<JsonRpcRequest, String>) -> (r: MessageOutcome)
    requires
        server.wf(),
    ensures
        match parsed {
            Err(e) => r matches MessageOutcome::Respond(resp) && resp.id.value is Null && resp.id.text@
                == "null"@ && resp.jsonrpc@ == "2.0"@ && resp.result is None && (resp.error matches Some(
                err,
            ) && err.code == PARSE_ERROR && err.message@ == "Parse error: "@ + e@ && err.data is None),
            Ok(req) => message_outcome(*server, req, r),
        },
{
    match parsed {
        Err(e) => MessageOutcome::Respond(parse_error_response(e.as_str())),
        Ok(req) => server.handle_message(req),
    }
}

/// A text result.
pub fn text_result(text: String) -> (r: ToolResult)
    ensures
        r.content@.len() == 1,
        r.content@[0] == (ToolContent::Text { text }),
        !r.is_error,
{
    let mut content: Vec<ToolContent> = Vec::new();
    content.push(ToolContent::Text { text });
    ToolResult { content, is_error: false }
}

/// Registering a tool makes it the one `tools/call` finds under its name,
/// keeps names unique, and leaves the tools of other names as they were.
pub proof fn law_register_then_find(before: McpServer, after: McpServer, name: Seq<char>, t: Tool)
    requires
        before.wf(),
        after.wf(),
        tool_named(after.tools@, name) == Some(t),
        forall|n: Seq<char>|
            n != name ==> #[trigger] tool_named(after.tools@, n) == tool_named(before.tools@, n),
    ensures
        forall|i: int|
            0 <= i < after.tools@.len() ==> tool_named(after.tools@, #[trigger] after.tools@[i].name@)
                == Some(after.tools@[i]),
        tool_named(after.tools@, name) == Some(t),
{
    assert forall|i: int| 0 <= i < after.tools@.len() implies tool_named(
        after.tools@,
        #[trigger] after.tools@[i].name@,
    ) == Some(after.tools@[i]) by {
        lemma_tool_named_unique(after.tools@, i);
    }
}


/// Every answer to a request carries the request's `id` and `"jsonrpc": "2.0"`,
/// and holds either a result or an error, never both; a tool call keeps the
/// `id` for the answer that follows it.
pub proof fn law_answers_carry_the_id(s: McpServer, req: JsonRpcRequest, r: MessageOutcome)
    requires
        message_outcome(s, req, r),
        req.id is Some,
    ensures
        r matches MessageOutcome::Respond(resp) ==> resp.id == req.id->0 && resp.jsonrpc@ == "2.0"@
            && (resp.result is Some) != (resp.error is Some),
        r matches MessageOutcome::CallTool { id, .. } ==> id == req.id->0,
        !(r is Notification),
{
}

} // verus!
