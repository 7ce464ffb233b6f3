//! Verified core of an MCP (Model Context Protocol) server that fronts an
//! Archery SQL console and a Graylog log store.

pub mod text;
pub mod json;
pub mod query_result;
pub mod archery_client;
pub mod archery_format;
pub mod archery_login;
pub mod archery_session;
pub mod archery_replies;
pub mod mcp;
pub mod serve_loop;
pub mod graylog;
pub mod tool_args;
