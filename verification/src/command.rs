//! What the commands answer: every outcome as the text that the caller is shown.

use vstd::prelude::*;
use vstd::string::*;
use serde_json::Value;
use crate::json::json_text;
use crate::wire::{error_text, McpError, McpErrorView, Operation};

verus! {

pub open spec fn greeting(name: Seq<char>) -> Seq<char> {
    "Hello, "@ + name + "! You've been greeted from Rust!"@
}

pub open spec fn connected_text(server: Seq<char>) -> Seq<char> {
    "Connected to MCP server with environment: "@ + server
}

pub open spec fn disconnected_text(server: Seq<char>) -> Seq<char> {
    "Disconnected MCP server: "@ + server
}

pub open spec fn already_connected_text(server: Seq<char>) -> Seq<char> {
    "Server "@ + server + " is already connected"@
}

pub open spec fn not_connected_text(server: Seq<char>) -> Seq<char> {
    "Server "@ + server + " not connected"@
}

pub open spec fn connect_failed_text(server: Seq<char>, e: McpErrorView) -> Seq<char> {
    "Failed to connect to "@ + server + ": "@ + error_text(e)
}

pub open spec fn shutdown_failed_text(server: Seq<char>, e: McpErrorView) -> Seq<char> {
    "Failed to shutdown "@ + server + ": "@ + error_text(e)
}

/// How the failure of an operation is introduced.
pub open spec fn failure_prefix(op: Operation) -> Seq<char> {
    match op {
        Operation::ListTools => "Failed to list tools: "@,
        Operation::CallTool { .. } => "Failed to call tool: "@,
        Operation::ListResources => "Failed to list resources: "@,
        Operation::ReadResource { .. } => "Failed to read resource: "@,
    }
}

/// The answer to a connect under `server`.
pub open spec fn connect_answer(server: Seq<char>, outcome: Result<(), McpError>) -> Result<
    Seq<char>,
    Seq<char>,
> {
    match outcome {
        Ok(()) => Ok(connected_text(server)),
        Err(McpError::AlreadyConnected) => Err(already_connected_text(server)),
        Err(e) => Err(connect_failed_text(server, e@)),
    }
}

/// The answer to a disconnect of `server`.
pub open spec fn disconnect_answer(server: Seq<char>, outcome: Result<(), McpError>) -> Result<
    Seq<char>,
    Seq<char>,
> {
    match outcome {
        Ok(()) => Ok(disconnected_text(server)),
        Err(McpError::NotConnected) => Err(not_connected_text(server)),
        Err(e) => Err(shutdown_failed_text(server, e@)),
    }
}

/// The answer to an operation on `server`: the payload by its compact text, or the
/// error as text.
pub open spec fn operation_answer(
    server: Seq<char>,
    op: Operation,
    outcome: Result<Value, McpError>,
) -> Result<Seq<char>, Seq<char>> {
    match outcome {
        Ok(v) => Ok(json_text(v)),
        Err(McpError::NotConnected) => Err(not_connected_text(server)),
        Err(e) => Err(failure_prefix(op) + error_text(e@)),
    }
}

pub open spec fn text_result(r: Result<String, String>) -> Result<Seq<char>, Seq<char>> {
    match r {
        Ok(s) => Ok(s@),
        Err(s) => Err(s@),
    }
}

pub open spec fn payload_result(r: Result<Value, String>) -> Result<Seq<char>, Seq<char>> {
    match r {
        Ok(v) => Ok(json_text(v)),
        Err(s) => Err(s@),
    }
}

/// The greeting for `name`.
pub fn greet(name: &str) -> (r: String)
    ensures
        r@ == greeting(name@),
{
    let mut out = String::from_str("Hello, ");
    out.append(name);
    out.append("! You've been greeted from Rust!");
    out
}

fn not_connected(server_name: &str) -> (r: String)
    ensures
        r@ == not_connected_text(server_name@),
{
    let mut out = String::from_str("Server ");
    out.append(server_name);
    out.append(" not connected");
    out
}

fn with_reason(lead: &str, server_name: &str, e: &McpError) -> (r: String)
    ensures
        r@ == lead@ + server_name@ + ": "@ + error_text(e@),
{
    let mut out = String::from_str(lead);
    out.append(server_name);
    out.append(": ");
    let reason = e.message();
    out.append(reason.as_str());
    out
}

/// What a connect under `server_name` answers, given how it went.
pub fn connect_reply(server_name: &str, outcome: Result<(), McpError>) -> (r: Result<String, String>)
    ensures
        text_result(r) == connect_answer(server_name@, outcome),
{
    match outcome {
        Ok(()) => {
            let mut out = String::from_str("Connected to MCP server with environment: ");
            out.append(server_name);
            Ok(out)
        },
        Err(McpError::AlreadyConnected) => {
            let mut out = String::from_str("Server ");
            out.append(server_name);
            out.append(" is already connected");
            Err(out)
        },
        Err(e) => Err(with_reason("Failed to connect to ", server_name, &e)),
    }
}

/// What a disconnect of `server_name` answers, given how it went.
pub fn disconnect_reply(server_name: &str, outcome: Result<(), McpError>) -> (r: Result<
    String,
    String,
>)
    ensures
        text_result(r) == disconnect_answer(server_name@, outcome),
{
    match outcome {
        Ok(()) => {
            let mut out = String::from_str("Disconnected MCP server: ");
            out.append(server_name);
            Ok(out)
        },
        Err(McpError::NotConnected) => Err(not_connected(server_name)),
        Err(e) => Err(with_reason("Failed to shutdown ", server_name, &e)),
    }
}

/// What an operation on `server_name` answers, given how it went: the payload as it came,
/// or the failure as text.
pub fn operation_reply(server_name: &str, op: &Operation, outcome: Result<Value, McpError>) -> (r:
    Result<Value, String>)
    ensures
        payload_result(r) == operation_answer(server_name@, *op, outcome),
        outcome matches Ok(v) ==> r == Ok::<Value, String>(v),
{
    match outcome {
        Ok(v) => Ok(v),
        Err(McpError::NotConnected) => Err(not_connected(server_name)),
        Err(e) => {
            let mut out = String::from_str(
                match op {
                    Operation::ListTools => "Failed to list tools: ",
                    Operation::CallTool { .. } => "Failed to call tool: ",
                    Operation::ListResources => "Failed to list resources: ",
                    Operation::ReadResource { .. } => "Failed to read resource: ",
                },
            );
            let reason = e.message();
            out.append(reason.as_str());
            Err(out)
        },
    }
}

} // verus!
