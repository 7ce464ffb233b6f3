//! The server's read loop as a state machine: each line read from standard
//! input, and each tool's outcome, is handed in; the loop says what to do
//! next and keeps a record of every line and of every response written.

use vstd::prelude::*;
use crate::json::Json;
use crate::mcp::{
    JsonRpcRequest, JsonRpcResponse, McpServer, MessageOutcome, PARSE_ERROR, RpcResult,
    ToolContent, ToolResult, answer_message, message_outcome, message_text, tool_call_response,
};
use crate::text::trim;

verus! {

/// What the loop does next.
pub enum LoopAction {
    /// Nothing to write: read the next line.
    Next,
    /// A notification arrived: log it, then read the next line.
    Notified { method: String },
    /// Write this response, then read the next line.
    Write(JsonRpcResponse),
    /// Run this tool, then hand its outcome to `tool_finished`.
    RunTool { name: String, arguments: Json },
}

/// A line read and what came of it: the line, the message parsed from it
/// (the parser's error text; `None` for a blank line), the outcome of the
/// tool it called, if any, and the response written for it, if any.
pub struct LineRecord {
    pub line: Seq<char>,
    pub parsed: Option<Result<JsonRpcRequest, String>>,
    pub tool: Option<Result<ToolResult, String>>,
    pub written: Option<JsonRpcResponse>,
}

/// The response to a parse error with the parser's error text `e`.
pub open spec fn is_parse_error(r: JsonRpcResponse, e: Seq<char>) -> bool {
    &&& r.id.value is Null
    &&& r.id.text@ == "null"@
    &&& r.jsonrpc@ == "2.0"@
    &&& r.result is None
    &&& r.error matches Some(err) && err.code == PARSE_ERROR && err.message@ == "Parse error: "@ + e
        && err.data is None
}

/// The response to a tool call with this id once the tool gave `outcome`:
/// its result, or a failure result that says why.
pub open spec fn is_tool_answer(r: JsonRpcResponse, id: Json, outcome: Result<ToolResult, String>) -> bool {
    &&& r.jsonrpc@ == "2.0"@
    &&& r.id == id
    &&& r.error is None
    &&& match outcome {
        Ok(res) => r.result == Some(RpcResult::ToolCall(res)),
        Err(e) => match r.result {
            Some(RpcResult::ToolCall(res)) => {
                &&& res.is_error
                &&& res.content@.len() == 1
                &&& res.content@[0] == (ToolContent::Text { text: res.content@[0]->Text_text })
                &&& res.content@[0]->Text_text@ == "❌ Tool execution failed: "@ + e@
            },
            _ => false,
        },
    }
}

/// What the server writes for one line: nothing for a blank line; a parse
/// error for a line that is not a JSON-RPC message; nothing for a
/// notification; the answer `handle_message` gives for a request, where a
/// tool call is answered with its tool's outcome.
pub open spec fn line_answered(s: McpServer, rec: LineRecord) -> bool {
    if trim(rec.line).len() == 0 {
        rec.parsed is None && rec.tool is None && rec.written is None
    } else {
        match rec.parsed {
            None => false,
            Some(Err(e)) => rec.tool is None && (rec.written matches Some(r) && is_parse_error(r, e@)),
            Some(Ok(req)) => match req.id {
                None => rec.tool is None && rec.written is None,
                Some(id) => exists|o: MessageOutcome|
                    #[trigger] message_outcome(s, req, o) && match o {
                        MessageOutcome::Respond(resp) => rec.tool is None && rec.written == Some(resp),
                        MessageOutcome::CallTool { id: cid, .. } => rec.tool matches Some(t) && (
                        rec.written matches Some(r) && is_tool_answer(r, cid, t)),
                        MessageOutcome::Notification { .. } => false,
                    },
            },
        }
    }
}

/// The responses written for some lines, in order.
pub open spec fn responses(recs: Seq<LineRecord>) -> Seq<JsonRpcResponse>
    decreases recs.len(),
{
    if recs.len() == 0 {
        Seq::empty()
    } else {
        match recs.last().written {
            Some(r) => responses(recs.drop_last()).push(r),
            None => responses(recs.drop_last()),
        }
    }
}

/// The read loop of a server.
pub struct ServeLoop {
    /// The id of the tool call whose outcome is awaited.
    pub pending: Option<Json>,
    /// The server the loop answers for.
    pub server: Ghost<McpServer>,
    /// The lines answered so far.
    pub lines: Ghost<Seq<LineRecord>>,
    /// Every response written so far, in order.
    pub written: Ghost<Seq<JsonRpcResponse>>,
    /// The line whose tool is running, the request on it, and what
    /// `handle_message` made of it.
    pub current: Ghost<Option<(Seq<char>, JsonRpcRequest, MessageOutcome)>>,
}

impl ServeLoop {
    /// Each line answered was answered as `line_answered` says, the responses
    /// written are those of the lines in order, and a pending tool call is the
    /// one `handle_message` asked for on the current line.
    pub open spec fn wf(&self) -> bool {
        &&& forall|i: int| 0 <= i < self.lines@.len() ==> line_answered(self.server@, #[trigger] self.lines@[i])
        &&& self.written@ == responses(self.lines@)
        &&& match self.pending {
            None => self.current@ is None,
            Some(id) => self.current@ matches Some((line, req, o)) && trim(line).len() > 0
                && req.id == Some(id) && message_outcome(self.server@, req, o) && (o matches MessageOutcome::CallTool {
                id: cid,
                ..
            } && cid == id),
        }
    }

    /// A loop that has read nothing yet.
    pub fn new(server: &McpServer) -> (r: ServeLoop)
        ensures
            r.wf(),
            r.server@ == *server,
            r.pending is None,
            r.lines@.len() == 0,
            r.written@.len() == 0,
    {
        ServeLoop {
            pending: None,
            server: Ghost(*server),
            lines: Ghost(Seq::empty()),
            written: Ghost(Seq::empty()),
            current: Ghost(None),
        }
    }

    /// A line was read; `parsed` is the message parsed from the trimmed line
    /// (the parser's error text), given exactly when the line is not blank.
    pub fn line_read(&mut self, server: &McpServer, line: &str, parsed: Option<
        Result<JsonRpcRequest, String>,
    >) -> (a: LoopAction)
        requires
            old(self).wf(),
            old(self).pending is None,
            *server == old(self).server@,
            server.wf(),
            parsed is Some <==> trim(line@).len() > 0,
        ensures
            final(self).wf(),
            final(self).server == old(self).server,
            match a {
                LoopAction::RunTool { .. } => final(self).pending is Some && final(self).lines
                    == old(self).lines && final(self).written == old(self).written,
                LoopAction::Write(r) => final(self).pending is None && final(self).lines@ == old(
                    self,
                ).lines@.push(LineRecord { line: line@, parsed, tool: None, written: Some(r) })
                    && final(self).written@ == old(self).written@.push(r),
                _ => final(self).pending is None && final(self).lines@ == old(self).lines@.push(
                    LineRecord { line: line@, parsed, tool: None, written: None },
                ) && final(self).written == old(self).written,
            },
            a matches LoopAction::RunTool { name, arguments } ==> (final(self).current@ matches Some(
                (_, _, MessageOutcome::CallTool { name: n, arguments: args, .. }),
            ) && n == name && args == arguments),
    {
        let ghost before = self.lines@;
        let ghost rec_blank = LineRecord { line: line@, parsed, tool: None, written: None };
        let p = match parsed {
            None => {
                proof {
                    self.lines@ = before.push(rec_blank);
                    assert(self.lines@.drop_last() == before);
                    assert(forall|i: int| 0 <= i < before.len() ==> self.lines@[i] == before[i]);
                }
                return LoopAction::Next;
            },
            Some(p) => p,
        };
        let ghost p_view = p;
        match answer_message(server, p) {
            MessageOutcome::Notification { method } => {
                proof {
                    self.lines@ = before.push(rec_blank);
                    assert(self.lines@.drop_last() == before);
                    assert(forall|i: int| 0 <= i < before.len() ==> self.lines@[i] == before[i]);
                }
                LoopAction::Notified { method }
            },
            MessageOutcome::Respond(resp) => {
                let ghost rec = LineRecord { line: line@, parsed, tool: None, written: Some(resp) };
                proof {
                    match p_view {
                        Ok(req) => {
                            let o = MessageOutcome::Respond(resp);
                            assert(message_outcome(*server, req, o));
                        },
                        Err(_) => {},
                    }
                    self.lines@ = before.push(rec);
                    self.written@ = self.written@.push(resp);
                    assert(self.lines@.drop_last() == before);
                    assert(forall|i: int| 0 <= i < before.len() ==> self.lines@[i] == before[i]);
                }
                LoopAction::Write(resp)
            },
            MessageOutcome::CallTool { id, name, arguments } => {
                let ghost o = MessageOutcome::CallTool { id, name, arguments };
                proof {
                    match p_view {
                        Ok(req) => {
                            self.current@ = Some((line@, req, o));
                        },
                        Err(_) => {},
                    }
                }
                self.pending = Some(id);
                LoopAction::RunTool { name, arguments }
            },
        }
    }

    /// The tool of the current line finished with `outcome`; the response to
    /// write.
    pub fn tool_finished(&mut self, outcome: Result<ToolResult, String>) -> (r: JsonRpcResponse)
        requires
            old(self).wf(),
            old(self).pending is Some,
        ensures
            final(self).wf(),
            final(self).server == old(self).server,
            final(self).pending is None,
            final(self).written@ == old(self).written@.push(r),
            old(self).current@ matches Some((line, req, _)) && final(self).lines@ == old(
                self,
            ).lines@.push(
                LineRecord { line, parsed: Some(Ok(req)), tool: Some(outcome), written: Some(r) },
            ),
    {
        let id = match self.pending.take() {
            Some(id) => id,
            None => Json::null(),
        };
        let ghost before = self.lines@;
        let ghost cur = self.current@;
        let ghost out = outcome;
        let r = tool_call_response(id, outcome);
        proof {
            match cur {
                Some((line, req, o)) => {
                    let rec = LineRecord {
                        line,
                        parsed: Some(Ok(req)),
                        tool: Some(out),
                        written: Some(r),
                    };
                    assert(message_outcome(self.server@, req, o));
                    assert(line_answered(self.server@, rec));
                    self.lines@ = before.push(rec);
                    self.written@ = self.written@.push(r);
                    assert(self.lines@.drop_last() == before);
                    assert(forall|i: int| 0 <= i < before.len() ==> self.lines@[i] == before[i]);
                },
                None => {},
            }
            self.current@ = None;
        }
        r
    }
}

/// What the server writes for a whole input: the lines read so far are each
/// answered as `line_answered` says, and what was written is their
/// responses, one line after another in input order.
pub proof fn law_stream_written(l: ServeLoop)
    requires
        l.wf(),
    ensures
        forall|i: int| 0 <= i < l.lines@.len() ==> line_answered(l.server@, #[trigger] l.lines@[i]),
        l.written@ == responses(l.lines@),
{
}

} // verus!
