//! The messages of the protocol: JSON-RPC 2.0, one message to a line.

use vstd::prelude::*;
use vstd::string::*;
use serde_json::Value;
use crate::json::{
    as_i64, as_string, as_u64, json_i64, json_member, json_parse, json_quote, json_str, json_text,
    json_u64, member, newline_free, parse, render, string_value,
};
use crate::text::{decimal, push_decimal, push_signed_decimal, signed_decimal};

verus! {

/// Why an operation on a connection failed.
#[derive(Debug, Clone, PartialEq, Eq)]
pub enum McpError {
    /// The process could not be started.
    SpawnError,
    /// The opening exchange was rejected or malformed.
    HandshakeFailed,
    /// A message could not be written to the process.
    WriteError,
    /// The stream from the process could not be read.
    ReadError,
    /// The connection ended while the request was pending.
    ConnectionClosed,
    /// The process answered the request with an error of its own.
    RemoteError { code: i64, message: String },
    /// The name is already connected.
    AlreadyConnected,
    /// There is no usable connection.
    NotConnected,
    /// The process did not exit within the grace period.
    ShutdownError,
}

/// An error as plain values.
pub enum McpErrorView {
    SpawnError,
    HandshakeFailed,
    WriteError,
    ReadError,
    ConnectionClosed,
    RemoteError { code: i64, message: Seq<char> },
    AlreadyConnected,
    NotConnected,
    ShutdownError,
}

impl View for McpError {
    type V = McpErrorView;

    open spec fn view(&self) -> McpErrorView {
        match self {
            McpError::SpawnError => McpErrorView::SpawnError,
            McpError::HandshakeFailed => McpErrorView::HandshakeFailed,
            McpError::WriteError => McpErrorView::WriteError,
            McpError::ReadError => McpErrorView::ReadError,
            McpError::ConnectionClosed => McpErrorView::ConnectionClosed,
            McpError::RemoteError { code, message } => McpErrorView::RemoteError {
                code: *code,
                message: message@,
            },
            McpError::AlreadyConnected => McpErrorView::AlreadyConnected,
            McpError::NotConnected => McpErrorView::NotConnected,
            McpError::ShutdownError => McpErrorView::ShutdownError,
        }
    }
}

/// The sentence that stands for an error where only text can be shown.
pub open spec fn error_text(e: McpErrorView) -> Seq<char> {
    match e {
        McpErrorView::SpawnError => "the server process could not be started"@,
        McpErrorView::HandshakeFailed => "the handshake with the server failed"@,
        McpErrorView::WriteError => "a message could not be written to the server"@,
        McpErrorView::ReadError => "the stream from the server could not be read"@,
        McpErrorView::ConnectionClosed => "connection closed"@,
        McpErrorView::RemoteError { code, message } => "server error "@ + signed_decimal(
            code as int,
        ) + ": "@ + message,
        McpErrorView::AlreadyConnected => "already connected"@,
        McpErrorView::NotConnected => "not connected"@,
        McpErrorView::ShutdownError => "the server process did not exit in time"@,
    }
}

impl McpError {
    /// The error as a sentence.
    pub fn message(&self) -> (r: String)
        ensures
            r@ == error_text(self@),
    {
        match self {
            McpError::SpawnError => String::from_str("the server process could not be started"),
            McpError::HandshakeFailed => String::from_str("the handshake with the server failed"),
            McpError::WriteError => String::from_str(
                "a message could not be written to the server",
            ),
            McpError::ReadError => String::from_str("the stream from the server could not be read"),
            McpError::ConnectionClosed => String::from_str("connection closed"),
            McpError::RemoteError { code, message } => {
                let mut out = String::from_str("server error ");
                push_signed_decimal(&mut out, *code);
                out.append(": ");
                out.append(message.as_str());
                out
            },
            McpError::AlreadyConnected => String::from_str("already connected"),
            McpError::NotConnected => String::from_str("not connected"),
            McpError::ShutdownError => String::from_str("the server process did not exit in time"),
        }
    }
}

/// How a request ended, the payload taken by its compact text.
pub open spec fn outcome_view(o: Result<Value, McpError>) -> Result<Seq<char>, McpErrorView> {
    match o {
        Ok(v) => Ok(json_text(v)),
        Err(e) => Err(e@),
    }
}

/// One of the four operations that a ready connection offers.
#[derive(Debug, PartialEq, Eq)]
pub enum Operation {
    ListTools,
    CallTool { name: String, arguments: Value },
    ListResources,
    ReadResource { uri: String },
}

impl Operation {
    /// The method that the operation is sent under.
    pub open spec fn method(&self) -> Seq<char> {
        match self {
            Operation::ListTools => "tools/list"@,
            Operation::CallTool { .. } => "tools/call"@,
            Operation::ListResources => "resources/list"@,
            Operation::ReadResource { .. } => "resources/read"@,
        }
    }

    /// The parameters that the operation is sent with, as JSON text; the two listings
    /// have none.
    pub open spec fn params(&self) -> Option<Seq<char>> {
        match self {
            Operation::ListTools => None,
            Operation::CallTool { name, arguments } => Some(
                "{\"name\":"@ + json_quote(name@) + ",\"arguments\":"@ + json_text(*arguments)
                    + "}"@,
            ),
            Operation::ListResources => None,
            Operation::ReadResource { uri } => Some("{\"uri\":"@ + json_quote(uri@) + "}"@),
        }
    }

    /// The name of the method.
    pub fn method_name(&self) -> (r: &'static str)
        ensures
            r@ == self.method(),
    {
        match self {
            Operation::ListTools => "tools/list",
            Operation::CallTool { .. } => "tools/call",
            Operation::ListResources => "resources/list",
            Operation::ReadResource { .. } => "resources/read",
        }
    }

    /// The parameters as JSON text, where the operation has any.
    pub fn params_text(&self) -> (r: Option<String>)
        ensures
            match r {
                Some(p) => self.params() == Some(p@) && newline_free(p@),
                None => self.params() is None,
            },
    {
        proof {
            reveal_strlit("{\"name\":");
            reveal_strlit(",\"arguments\":");
            reveal_strlit("{\"uri\":");
            reveal_strlit("}");
        }
        match self {
            Operation::ListTools => None,
            Operation::CallTool { name, arguments } => {
                let quoted = render(&string_value(name.as_str()));
                let payload = render(arguments);
                let mut out = String::from_str("{\"name\":");
                out.append(quoted.as_str());
                out.append(",\"arguments\":");
                out.append(payload.as_str());
                out.append("}");
                Some(out)
            },
            Operation::ListResources => None,
            Operation::ReadResource { uri } => {
                let quoted = render(&string_value(uri.as_str()));
                let mut out = String::from_str("{\"uri\":");
                out.append(quoted.as_str());
                out.append("}");
                Some(out)
            },
        }
    }
}

/// A request without its closing line feed.
pub open spec fn request_body(id: u64, method: Seq<char>, params: Option<Seq<char>>) -> Seq<char> {
    "{\"jsonrpc\":\"2.0\",\"id\":"@ + decimal(id as nat) + ",\"method\":\""@ + method + "\""@
        + match params {
        Some(p) => ",\"params\":"@ + p,
        None => Seq::empty(),
    } + "}"@
}

/// The line that carries a request: the request object and one line feed.
pub open spec fn request_line(id: u64, method: Seq<char>, params: Option<Seq<char>>) -> Seq<char> {
    request_body(id, method, params).push('\n')
}

/// The line that tells the process that the handshake is complete.
pub open spec fn initialized_line() -> Seq<char> {
    "{\"jsonrpc\":\"2.0\",\"method\":\"notifications/initialized\"}"@.push('\n')
}

/// Exactly one message: the only line feed of the text is its last character.
pub open spec fn is_line(s: Seq<char>) -> bool {
    s.len() > 0 && s.last() == '\n' && newline_free(s.drop_last())
}

/// A decimal numeral holds no line feed.
pub proof fn lemma_decimal_newline_free(n: nat)
    ensures
        newline_free(decimal(n)),
    decreases n,
{
    if n >= 10 {
        lemma_decimal_newline_free(n / 10);
    }
}

fn assemble(id: u64, method: &str, params: Option<String>) -> (r: String)
    requires
        newline_free(method@),
        params matches Some(p) ==> newline_free(p@),
    ensures
        r@ == request_line(
            id,
            method@,
            match params {
                Some(p) => Some(p@),
                None => None,
            },
        ),
        is_line(r@),
{
    proof {
        reveal_strlit("{\"jsonrpc\":\"2.0\",\"id\":");
        reveal_strlit(",\"method\":\"");
        reveal_strlit("\"");
        reveal_strlit(",\"params\":");
        reveal_strlit("}");
        reveal_strlit("\n");
        lemma_decimal_newline_free(id as nat);
    }
    let mut out = String::from_str("{\"jsonrpc\":\"2.0\",\"id\":");
    push_decimal(&mut out, id);
    out.append(",\"method\":\"");
    out.append(method);
    out.append("\"");
    match params {
        Some(p) => {
            out.append(",\"params\":");
            out.append(p.as_str());
        },
        None => {},
    }
    out.append("}");
    let ghost body = out@;
    assert(newline_free(body));
    out.append("\n");
    assert(out@ =~= body.push('\n'));
    assert(out@.drop_last() =~= body);
    assert(body =~= request_body(
        id,
        method@,
        match params {
            Some(p) => Some(p@),
            None => None,
        },
    ));
    out
}

/// The line that carries `op` under the identifier `id`.
pub fn frame_request(id: u64, op: &Operation) -> (line: String)
    ensures
        line@ == request_line(id, op.method(), op.params()),
        is_line(line@),
{
    proof {
        reveal_strlit("tools/list");
        reveal_strlit("tools/call");
        reveal_strlit("resources/list");
        reveal_strlit("resources/read");
    }
    assemble(id, op.method_name(), op.params_text())
}

/// The line that opens the handshake under the identifier `id`, with `params` as the
/// client's description of itself.
pub fn frame_initialize(id: u64, params: &Value) -> (line: String)
    ensures
        line@ == request_line(id, "initialize"@, Some(json_text(*params))),
        is_line(line@),
{
    proof {
        reveal_strlit("initialize");
    }
    assemble(id, "initialize", Some(render(params)))
}

/// The line that closes the handshake.
pub fn initialized_notification() -> (line: String)
    ensures
        line@ == initialized_line(),
        is_line(line@),
{
    proof {
        reveal_strlit("{\"jsonrpc\":\"2.0\",\"method\":\"notifications/initialized\"}");
        reveal_strlit("\n");
    }
    let mut out = String::from_str("{\"jsonrpc\":\"2.0\",\"method\":\"notifications/initialized\"}");
    let ghost body = out@;
    out.append("\n");
    assert(out@ =~= body.push('\n'));
    assert(out@.drop_last() =~= body);
    out
}

/// The error that a response carries.
#[derive(Debug, Clone, PartialEq, Eq)]
pub struct Fault {
    pub code: i64,
    pub message: String,
}

/// What a response says of its request.
#[derive(Debug, PartialEq, Eq)]
pub enum Reply {
    Success(Value),
    Failure(Fault),
}

/// One message from the process.
#[derive(Debug, PartialEq, Eq)]
pub enum Incoming {
    /// The answer to the request `id`.
    Response { id: u64, reply: Reply },
    /// A message that names a method: a notification, or a request of the process's own.
    Notice { method: String },
    /// Anything else.
    Malformed,
}

/// The members of a message that the protocol reads.
#[derive(Debug, PartialEq, Eq)]
pub struct Fields {
    /// `method`, where it is a string.
    pub method: Option<String>,
    /// `id`, where it is a number that fits `u64`.
    pub id: Option<u64>,
    /// `error`, where it holds an integer `code` and a string `message`.
    pub error: Option<Fault>,
    /// `result`, where present.
    pub result: Option<Value>,
}

pub struct FaultView {
    pub code: i64,
    pub message: Seq<char>,
}

pub enum ReplyView {
    Success(Seq<char>),
    Failure(FaultView),
}

pub enum IncomingView {
    Response { id: u64, reply: ReplyView },
    Notice { method: Seq<char> },
    Malformed,
}

pub struct FieldsView {
    pub method: Option<Seq<char>>,
    pub id: Option<u64>,
    pub error: Option<FaultView>,
    pub result: Option<Seq<char>>,
}

impl View for Fault {
    type V = FaultView;

    open spec fn view(&self) -> FaultView {
        FaultView { code: self.code, message: self.message@ }
    }
}

impl View for Reply {
    type V = ReplyView;

    open spec fn view(&self) -> ReplyView {
        match self {
            Reply::Success(v) => ReplyView::Success(json_text(*v)),
            Reply::Failure(f) => ReplyView::Failure(f@),
        }
    }
}

impl View for Incoming {
    type V = IncomingView;

    open spec fn view(&self) -> IncomingView {
        match self {
            Incoming::Response { id, reply } => IncomingView::Response { id: *id, reply: reply@ },
            Incoming::Notice { method } => IncomingView::Notice { method: method@ },
            Incoming::Malformed => IncomingView::Malformed,
        }
    }
}

impl View for Fields {
    type V = FieldsView;

    open spec fn view(&self) -> FieldsView {
        FieldsView {
            method: match self.method {
                Some(m) => Some(m@),
                None => None,
            },
            id: self.id,
            error: match self.error {
                Some(f) => Some(f@),
                None => None,
            },
            result: match self.result {
                Some(v) => Some(json_text(v)),
                None => None,
            },
        }
    }
}

/// The error that the object with compact text `doc` describes, where it holds both an
/// integer `code` and a string `message`.
pub open spec fn fault_of(doc: Seq<char>) -> Option<FaultView> {
    match (json_member(doc, "code"@), json_member(doc, "message"@)) {
        (Some(c), Some(m)) => match (json_i64(c), json_str(m)) {
            (Some(code), Some(message)) => Some(FaultView { code, message }),
            _ => None,
        },
        _ => None,
    }
}

/// The members that the protocol reads of the message with compact text `doc`.
pub open spec fn fields_of(doc: Seq<char>) -> FieldsView {
    FieldsView {
        method: match json_member(doc, "method"@) {
            Some(m) => json_str(m),
            None => None,
        },
        id: match json_member(doc, "id"@) {
            Some(i) => json_u64(i),
            None => None,
        },
        error: match json_member(doc, "error"@) {
            Some(e) => fault_of(e),
            None => None,
        },
        result: json_member(doc, "result"@),
    }
}

/// What a message with the given members is. One that names a method is a notice,
/// whatever else it holds. Otherwise it is a response if it has an identifier and either
/// a well-formed error, which wins, or a result.
pub open spec fn classified(f: FieldsView) -> IncomingView {
    match f.method {
        Some(method) => IncomingView::Notice { method },
        None => match f.id {
            None => IncomingView::Malformed,
            Some(id) => match f.error {
                Some(fault) => IncomingView::Response { id, reply: ReplyView::Failure(fault) },
                None => match f.result {
                    Some(payload) => IncomingView::Response {
                        id,
                        reply: ReplyView::Success(payload),
                    },
                    None => IncomingView::Malformed,
                },
            },
        },
    }
}

/// What the bytes of one line are as a message.
pub open spec fn decoded(line: Seq<u8>) -> IncomingView {
    match json_parse(line) {
        Some(doc) => classified(fields_of(doc)),
        None => IncomingView::Malformed,
    }
}

/// How the request that a reply answers ends.
pub open spec fn reply_outcome(r: ReplyView) -> Result<Seq<char>, McpErrorView> {
    match r {
        ReplyView::Success(payload) => Ok(payload),
        ReplyView::Failure(f) => Err(McpErrorView::RemoteError { code: f.code, message: f.message }),
    }
}

impl Reply {
    /// Turns the reply into the outcome of its request: the payload, or the error of the
    /// process.
    pub fn into_outcome(self) -> (o: Result<Value, McpError>)
        ensures
            outcome_view(o) == reply_outcome(self@),
    {
        match self {
            Reply::Success(v) => Ok(v),
            Reply::Failure(f) => Err(McpError::RemoteError { code: f.code, message: f.message }),
        }
    }
}

/// Says what a message with the given members is.
pub fn classify(fields: Fields) -> (m: Incoming)
    ensures
        m@ == classified(fields@),
{
    match fields.method {
        Some(method) => Incoming::Notice { method },
        None => match fields.id {
            None => Incoming::Malformed,
            Some(id) => match fields.error {
                Some(fault) => Incoming::Response { id, reply: Reply::Failure(fault) },
                None => match fields.result {
                    Some(payload) => Incoming::Response { id, reply: Reply::Success(payload) },
                    None => Incoming::Malformed,
                },
            },
        },
    }
}

fn extract_fault(doc: &Value) -> (r: Option<Fault>)
    ensures
        match r {
            Some(f) => fault_of(json_text(*doc)) == Some(f@),
            None => fault_of(json_text(*doc)) is None,
        },
{
    match (member(doc, "code"), member(doc, "message")) {
        (Some(c), Some(m)) => match (as_i64(&c), as_string(&m)) {
            (Some(code), Some(message)) => Some(Fault { code, message }),
            _ => None,
        },
        _ => None,
    }
}

/// Reads the members of a message.
pub fn extract(doc: &Value) -> (fields: Fields)
    ensures
        fields@ == fields_of(json_text(*doc)),
{
    let method = match member(doc, "method") {
        Some(m) => as_string(&m),
        None => None,
    };
    let id = match member(doc, "id") {
        Some(i) => as_u64(&i),
        None => None,
    };
    let error = match member(doc, "error") {
        Some(e) => extract_fault(&e),
        None => None,
    };
    let result = member(doc, "result");
    Fields { method, id, error, result }
}

/// Decodes one line from the process.
pub fn decode(line: &[u8]) -> (m: Incoming)
    ensures
        m@ == decoded(line@),
{
    match parse(line) {
        Some(doc) => classify(extract(&doc)),
        None => Incoming::Malformed,
    }
}

} // verus!
