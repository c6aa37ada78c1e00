use deskmcp::wire::{
    classify, decode, extract, frame_initialize, frame_request, initialized_notification, Fault,
    Fields, Incoming, McpError, Operation, Reply,
};
use serde_json::Value;

fn json(text: &str) -> Value {
    serde_json::from_str(text).unwrap()
}

#[test]
fn list_tools_frame_is_exact() {
    assert_eq!(
        frame_request(1, &Operation::ListTools),
        "{\"jsonrpc\":\"2.0\",\"id\":1,\"method\":\"tools/list\"}\n"
    );
}

#[test]
fn list_resources_frame_is_exact() {
    assert_eq!(
        frame_request(27, &Operation::ListResources),
        "{\"jsonrpc\":\"2.0\",\"id\":27,\"method\":\"resources/list\"}\n"
    );
}

#[test]
fn call_tool_frame_is_exact() {
    let op = Operation::CallTool { name: "echo".to_string(), arguments: json("{\"text\": \"hi\"}") };
    assert_eq!(
        frame_request(2, &op),
        "{\"jsonrpc\":\"2.0\",\"id\":2,\"method\":\"tools/call\",\"params\":{\"name\":\"echo\",\"arguments\":{\"text\":\"hi\"}}}\n"
    );
}

#[test]
fn read_resource_frame_is_exact() {
    let op = Operation::ReadResource { uri: "file:///tmp/a b".to_string() };
    assert_eq!(
        frame_request(u64::MAX, &op),
        "{\"jsonrpc\":\"2.0\",\"id\":18446744073709551615,\"method\":\"resources/read\",\"params\":{\"uri\":\"file:///tmp/a b\"}}\n"
    );
}

#[test]
fn initialize_frame_is_exact() {
    let params = json("{\"protocolVersion\":\"2024-11-05\",\"capabilities\":{}}");
    assert_eq!(
        frame_initialize(1, &params),
        "{\"jsonrpc\":\"2.0\",\"id\":1,\"method\":\"initialize\",\"params\":{\"capabilities\":{},\"protocolVersion\":\"2024-11-05\"}}\n"
    );
}

#[test]
fn initialized_notification_is_exact() {
    assert_eq!(
        initialized_notification(),
        "{\"jsonrpc\":\"2.0\",\"method\":\"notifications/initialized\"}\n"
    );
}

#[test]
fn names_are_escaped_and_frames_stay_on_one_line() {
    let op = Operation::CallTool {
        name: "a\"b\\c\nd".to_string(),
        arguments: json("{\"text\":\"line1\\nline2\",\"k\":[1,2.5,null,true]}"),
    };
    let line = frame_request(3, &op);
    assert!(line.ends_with('\n'));
    assert_eq!(line.matches('\n').count(), 1);
    let back = json(line.trim_end());
    assert_eq!(back["jsonrpc"], json("\"2.0\""));
    assert_eq!(back["id"], json("3"));
    assert_eq!(back["method"], json("\"tools/call\""));
    assert_eq!(back["params"]["name"].as_str(), Some("a\"b\\c\nd"));
    assert_eq!(back["params"]["arguments"], json("{\"text\":\"line1\\nline2\",\"k\":[1,2.5,null,true]}"));
}

#[test]
fn uri_is_escaped() {
    let op = Operation::ReadResource { uri: "mem://\u{1}\t\"x\"".to_string() };
    let line = frame_request(9, &op);
    assert_eq!(line.matches('\n').count(), 1);
    let back = json(line.trim_end());
    assert_eq!(back["params"]["uri"].as_str(), Some("mem://\u{1}\t\"x\""));
}

#[test]
fn arguments_pass_through_verbatim() {
    for text in ["null", "0", "-7", "1.5", "\"s\"", "[]", "[[],{}]", "{\"a\":{\"b\":[1,{\"c\":null}]}}"] {
        let op = Operation::CallTool { name: "t".to_string(), arguments: json(text) };
        let back = json(frame_request(5, &op).trim_end());
        assert_eq!(back["params"]["arguments"], json(text));
    }
}

#[test]
fn method_names() {
    assert_eq!(Operation::ListTools.method_name(), "tools/list");
    assert_eq!(Operation::CallTool { name: String::new(), arguments: Value::Null }.method_name(), "tools/call");
    assert_eq!(Operation::ListResources.method_name(), "resources/list");
    assert_eq!(Operation::ReadResource { uri: String::new() }.method_name(), "resources/read");
}

#[test]
fn params_text_only_where_there_are_params() {
    assert_eq!(Operation::ListTools.params_text(), None);
    assert_eq!(Operation::ListResources.params_text(), None);
    assert_eq!(
        Operation::ReadResource { uri: "u".to_string() }.params_text().as_deref(),
        Some("{\"uri\":\"u\"}")
    );
}

#[test]
fn decode_success_response() {
    let m = decode(b"{\"jsonrpc\":\"2.0\",\"id\":2,\"result\":{\"text\":\"hi\"}}");
    assert_eq!(m, Incoming::Response { id: 2, reply: Reply::Success(json("{\"text\":\"hi\"}")) });
}

#[test]
fn decode_success_with_trailing_newline() {
    let m = decode(b"{\"jsonrpc\":\"2.0\",\"id\":4,\"result\":null}\r\n");
    assert_eq!(m, Incoming::Response { id: 4, reply: Reply::Success(Value::Null) });
}

#[test]
fn decode_error_response() {
    let m = decode(b"{\"jsonrpc\":\"2.0\",\"id\":3,\"error\":{\"code\":-32601,\"message\":\"Method not found\"}}");
    assert_eq!(
        m,
        Incoming::Response {
            id: 3,
            reply: Reply::Failure(Fault { code: -32601, message: "Method not found".to_string() }),
        }
    );
}

#[test]
fn decode_error_wins_over_result() {
    let m = decode(b"{\"id\":3,\"result\":1,\"error\":{\"code\":5,\"message\":\"m\",\"data\":[1]}}");
    assert_eq!(
        m,
        Incoming::Response { id: 3, reply: Reply::Failure(Fault { code: 5, message: "m".to_string() }) }
    );
}

#[test]
fn decode_ill_formed_error_falls_back_to_result() {
    let m = decode(b"{\"id\":3,\"result\":1,\"error\":null}");
    assert_eq!(m, Incoming::Response { id: 3, reply: Reply::Success(json("1")) });
    assert_eq!(decode(b"{\"id\":3,\"error\":{\"code\":\"x\",\"message\":\"m\"}}"), Incoming::Malformed);
    assert_eq!(decode(b"{\"id\":3,\"error\":{\"code\":1}}"), Incoming::Malformed);
    assert_eq!(decode(b"{\"id\":3,\"error\":{\"code\":1.5,\"message\":\"m\"}}"), Incoming::Malformed);
}

#[test]
fn decode_notice() {
    assert_eq!(
        decode(b"{\"jsonrpc\":\"2.0\",\"method\":\"notifications/message\",\"params\":{}}"),
        Incoming::Notice { method: "notifications/message".to_string() }
    );
    assert_eq!(
        decode(b"{\"jsonrpc\":\"2.0\",\"id\":7,\"method\":\"sampling/createMessage\"}"),
        Incoming::Notice { method: "sampling/createMessage".to_string() }
    );
}

#[test]
fn decode_malformed() {
    for line in [&b""[..], b"\n", b"not json", b"{", b"[]", b"42", b"{}", b"{\"id\":1}",
        b"{\"result\":1}", b"{\"id\":\"1\",\"result\":1}", b"{\"id\":-1,\"result\":1}",
        b"{\"id\":1.0,\"result\":1}", b"{\"id\":1,\"result\":1} x", b"\xff\xfe",
        b"{\"method\":5,\"params\":1}"]
    {
        assert_eq!(decode(line), Incoming::Malformed, "line {:?}", line);
    }
}

#[test]
fn decode_largest_id() {
    assert_eq!(
        decode(b"{\"id\":18446744073709551615,\"result\":true}"),
        Incoming::Response { id: u64::MAX, reply: Reply::Success(json("true")) }
    );
}

#[test]
fn extract_reads_each_member() {
    let f = extract(&json("{\"id\":9,\"method\":\"m\",\"error\":{\"code\":-1,\"message\":\"e\"},\"result\":[1]}"));
    assert_eq!(
        f,
        Fields {
            method: Some("m".to_string()),
            id: Some(9),
            error: Some(Fault { code: -1, message: "e".to_string() }),
            result: Some(json("[1]")),
        }
    );
    assert_eq!(extract(&json("[1,2]")), Fields { method: None, id: None, error: None, result: None });
    assert_eq!(
        extract(&json("{\"id\":\"9\",\"method\":1,\"error\":3}")),
        Fields { method: None, id: None, error: None, result: None }
    );
}

#[test]
fn classify_each_shape() {
    let fault = Fault { code: 1, message: "e".to_string() };
    assert_eq!(
        classify(Fields { method: Some("m".to_string()), id: Some(1), error: Some(fault.clone()), result: Some(Value::Null) }),
        Incoming::Notice { method: "m".to_string() }
    );
    assert_eq!(
        classify(Fields { method: None, id: None, error: Some(fault.clone()), result: Some(Value::Null) }),
        Incoming::Malformed
    );
    assert_eq!(
        classify(Fields { method: None, id: Some(4), error: Some(fault.clone()), result: Some(Value::Null) }),
        Incoming::Response { id: 4, reply: Reply::Failure(fault) }
    );
    assert_eq!(
        classify(Fields { method: None, id: Some(4), error: None, result: Some(json("{\"a\":1}")) }),
        Incoming::Response { id: 4, reply: Reply::Success(json("{\"a\":1}")) }
    );
    assert_eq!(classify(Fields { method: None, id: Some(4), error: None, result: None }), Incoming::Malformed);
}

#[test]
fn reply_into_outcome() {
    assert_eq!(Reply::Success(json("[1]")).into_outcome(), Ok(json("[1]")));
    assert_eq!(
        Reply::Failure(Fault { code: -3, message: "no".to_string() }).into_outcome(),
        Err(McpError::RemoteError { code: -3, message: "no".to_string() })
    );
}

#[test]
fn error_messages() {
    assert_eq!(McpError::SpawnError.message(), "the server process could not be started");
    assert_eq!(McpError::HandshakeFailed.message(), "the handshake with the server failed");
    assert_eq!(McpError::WriteError.message(), "a message could not be written to the server");
    assert_eq!(McpError::ReadError.message(), "the stream from the server could not be read");
    assert_eq!(McpError::ConnectionClosed.message(), "connection closed");
    assert_eq!(
        McpError::RemoteError { code: -32601, message: "Method not found".to_string() }.message(),
        "server error -32601: Method not found"
    );
    assert_eq!(
        McpError::RemoteError { code: i64::MIN, message: String::new() }.message(),
        "server error -9223372036854775808: "
    );
    assert_eq!(McpError::AlreadyConnected.message(), "already connected");
    assert_eq!(McpError::NotConnected.message(), "not connected");
    assert_eq!(McpError::ShutdownError.message(), "the server process did not exit in time");
}
