use deskmcp::client::{handshake_verdict, Delivery, Phase, ProtocolClient, Routed};
use deskmcp::registry::Registry;
use deskmcp::wire::{McpError, Operation};
use serde_json::Value;
use std::cell::RefCell;
use std::rc::Rc;

fn json(text: &str) -> Value {
    serde_json::from_str(text).unwrap()
}

fn result_line(id: u64, result: &str) -> Vec<u8> {
    format!("{{\"jsonrpc\":\"2.0\",\"id\":{},\"result\":{}}}\n", id, result).into_bytes()
}

fn error_line(id: u64, code: i64, message: &str) -> Vec<u8> {
    format!(
        "{{\"jsonrpc\":\"2.0\",\"id\":{},\"error\":{{\"code\":{},\"message\":\"{}\"}}}}\n",
        id, code, message
    )
    .into_bytes()
}

fn delivered<W>(r: Routed<W>) -> Delivery<W> {
    match r {
        Routed::Delivered(d) => d,
        Routed::Notice { method } => panic!("notice {}", method),
        Routed::Dropped => panic!("dropped"),
    }
}

fn ready_client() -> ProtocolClient<u32> {
    let mut c = ProtocolClient::new();
    let issued = c.begin_handshake(&json("{}"), 0).ok().unwrap();
    assert_eq!(issued.id, 1);
    let d = delivered(c.on_message(&result_line(1, "{\"capabilities\":{}}")));
    assert_eq!(d.waiter, 0);
    assert!(c.is_ready());
    c
}

fn echo_call() -> Operation {
    Operation::CallTool { name: "echo".to_string(), arguments: json("{\"text\":\"hi\"}") }
}

/// Stands in for the process: answers `tools/call` of `echo` with its arguments.
fn echo_server(line: &str) -> Vec<u8> {
    let request = json(line.trim_end());
    assert_eq!(request["method"].as_str(), Some("tools/call"));
    assert_eq!(request["params"]["name"].as_str(), Some("echo"));
    let id = request["id"].as_u64().unwrap();
    result_line(id, &request["params"]["arguments"].to_string())
}

#[test]
fn new_client_is_connecting() {
    let c: ProtocolClient<()> = ProtocolClient::new();
    assert_eq!(c.phase(), Phase::Connecting);
    assert!(!c.is_ready());
    assert!(!c.has_pending());
    assert!(c.can_issue());
}

#[test]
fn handshake_makes_the_connection_ready() {
    let mut c: ProtocolClient<&str> = ProtocolClient::new();
    let issued = c.begin_handshake(&json("{\"clientInfo\":{\"name\":\"desk\"}}"), "connect").ok().unwrap();
    assert_eq!(issued.id, 1);
    assert_eq!(
        issued.line,
        "{\"jsonrpc\":\"2.0\",\"id\":1,\"method\":\"initialize\",\"params\":{\"clientInfo\":{\"name\":\"desk\"}}}\n"
    );
    assert_eq!(c.phase(), Phase::Connecting);
    assert!(c.is_pending(1));
    let d = delivered(c.on_message(&result_line(1, "{\"protocolVersion\":\"1\"}")));
    assert_eq!(d.id, 1);
    assert_eq!(d.waiter, "connect");
    assert_eq!(d.outcome, Ok(json("{\"protocolVersion\":\"1\"}")));
    assert_eq!(c.phase(), Phase::Ready);
    assert!(!c.has_pending());
    assert_eq!(handshake_verdict(d.outcome), Ok(()));
}

#[test]
fn rejected_handshake_closes_the_connection() {
    let mut c: ProtocolClient<u8> = ProtocolClient::new();
    c.begin_handshake(&json("{}"), 7).ok().unwrap();
    let d = delivered(c.on_message(&error_line(1, -32600, "unsupported")));
    assert_eq!(d.waiter, 7);
    assert_eq!(d.outcome, Err(McpError::RemoteError { code: -32600, message: "unsupported".to_string() }));
    assert_eq!(handshake_verdict(d.outcome), Err(McpError::HandshakeFailed));
    assert_eq!(c.phase(), Phase::Closed);
    let refused = c.begin_request(&Operation::ListTools, 8).err().unwrap();
    assert_eq!(refused.error, McpError::NotConnected);
    assert_eq!(refused.waiter, 8);
}

#[test]
fn handshake_is_accepted_once() {
    let mut c: ProtocolClient<u8> = ProtocolClient::new();
    c.begin_handshake(&json("{}"), 1).ok().unwrap();
    let again = c.begin_handshake(&json("{}"), 2).err().unwrap();
    assert_eq!(again.error, McpError::HandshakeFailed);
    assert_eq!(again.waiter, 2);
    assert!(c.is_pending(1));
    let mut ready = ready_client();
    let late = ready.begin_handshake(&json("{}"), 3).err().unwrap();
    assert_eq!(late.error, McpError::HandshakeFailed);
    assert!(ready.is_ready());
}

#[test]
fn operations_need_a_ready_connection() {
    let mut c: ProtocolClient<u8> = ProtocolClient::new();
    for op in [Operation::ListTools, echo_call(), Operation::ListResources,
        Operation::ReadResource { uri: "x".to_string() }]
    {
        let refused = c.begin_request(&op, 1).err().unwrap();
        assert_eq!(refused.error, McpError::NotConnected);
        assert_eq!(refused.waiter, 1);
    }
    assert!(!c.has_pending());
    assert_eq!(c.phase(), Phase::Connecting);
}

#[test]
fn stream_end_during_handshake_fails_it() {
    let mut c: ProtocolClient<u8> = ProtocolClient::new();
    c.begin_handshake(&json("{}"), 5).ok().unwrap();
    let ds = c.on_stream_end();
    assert_eq!(ds.len(), 1);
    assert_eq!(ds[0].waiter, 5);
    assert_eq!(ds[0].outcome, Err(McpError::ConnectionClosed));
    assert_eq!(c.phase(), Phase::Closed);
}

#[test]
fn requests_get_fresh_identifiers_and_exact_frames() {
    let mut c = ready_client();
    let a = c.begin_request(&Operation::ListTools, 10).ok().unwrap();
    let b = c.begin_request(&Operation::ListResources, 11).ok().unwrap();
    let d = c.begin_request(&Operation::ReadResource { uri: "file:///a".to_string() }, 12).ok().unwrap();
    assert_eq!((a.id, b.id, d.id), (2, 3, 4));
    assert_eq!(a.line, "{\"jsonrpc\":\"2.0\",\"id\":2,\"method\":\"tools/list\"}\n");
    assert_eq!(b.line, "{\"jsonrpc\":\"2.0\",\"id\":3,\"method\":\"resources/list\"}\n");
    assert_eq!(
        d.line,
        "{\"jsonrpc\":\"2.0\",\"id\":4,\"method\":\"resources/read\",\"params\":{\"uri\":\"file:///a\"}}\n"
    );
    assert!(c.is_pending(2) && c.is_pending(3) && c.is_pending(4));
}

#[test]
fn named_operations_frame_their_requests() {
    let mut c = ready_client();
    let a = c.list_tools(1).ok().unwrap();
    let b = c.call_tool("echo".to_string(), json("{\"text\":\"hi\"}"), 2).ok().unwrap();
    let d = c.list_resources(3).ok().unwrap();
    let e = c.read_resource("file:///etc/hosts".to_string(), 4).ok().unwrap();
    assert_eq!(a.line, "{\"jsonrpc\":\"2.0\",\"id\":2,\"method\":\"tools/list\"}\n");
    assert_eq!(
        b.line,
        "{\"jsonrpc\":\"2.0\",\"id\":3,\"method\":\"tools/call\",\"params\":{\"name\":\"echo\",\"arguments\":{\"text\":\"hi\"}}}\n"
    );
    assert_eq!(d.line, "{\"jsonrpc\":\"2.0\",\"id\":4,\"method\":\"resources/list\"}\n");
    assert_eq!(
        e.line,
        "{\"jsonrpc\":\"2.0\",\"id\":5,\"method\":\"resources/read\",\"params\":{\"uri\":\"file:///etc/hosts\"}}\n"
    );
    for (id, waiter) in [(2u64, 1u32), (3, 2), (4, 3), (5, 4)] {
        assert_eq!(delivered(c.on_message(&result_line(id, "{}"))).waiter, waiter);
    }
    let mut closed: ProtocolClient<u32> = ProtocolClient::new();
    assert_eq!(closed.list_tools(9).err().unwrap().error, McpError::NotConnected);
    assert_eq!(closed.call_tool("t".to_string(), Value::Null, 9).err().unwrap().error, McpError::NotConnected);
    assert_eq!(closed.list_resources(9).err().unwrap().error, McpError::NotConnected);
    assert_eq!(closed.read_resource("u".to_string(), 9).err().unwrap().waiter, 9);
}

#[test]
fn concurrent_calls_are_answered_by_identifier() {
    let mut c = ready_client();
    let mut ids = Vec::new();
    for k in 0..8u32 {
        let op = Operation::CallTool { name: "echo".to_string(), arguments: json(&format!("{{\"n\":{}}}", k)) };
        ids.push(c.begin_request(&op, 100 + k).ok().unwrap().id);
    }
    for &k in [5usize, 2, 7, 0, 1, 6, 3, 4].iter() {
        let d = delivered(c.on_message(&result_line(ids[k], &format!("{{\"n\":{}}}", k))));
        assert_eq!(d.id, ids[k]);
        assert_eq!(d.waiter, 100 + k as u32);
        assert_eq!(d.outcome, Ok(json(&format!("{{\"n\":{}}}", k))));
    }
    assert!(!c.has_pending());
    assert!(c.is_ready());
}

#[test]
fn unknown_and_repeated_responses_are_dropped() {
    let mut c = ready_client();
    let id = c.begin_request(&Operation::ListTools, 1).ok().unwrap().id;
    assert!(matches!(c.on_message(&result_line(999, "1")), Routed::Dropped));
    assert!(matches!(c.on_message(&result_line(1, "1")), Routed::Dropped));
    assert!(matches!(c.on_message(b"garbage"), Routed::Dropped));
    assert!(matches!(c.on_message(b"{\"id\":2}"), Routed::Dropped));
    assert!(c.is_pending(id));
    assert!(c.is_ready());
    let d = delivered(c.on_message(&result_line(id, "{\"tools\":[]}")));
    assert_eq!(d.waiter, 1);
    assert!(matches!(c.on_message(&result_line(id, "{\"tools\":[]}")), Routed::Dropped));
    assert!(!c.has_pending());
}

#[test]
fn notices_are_reported_and_change_nothing() {
    let mut c = ready_client();
    let id = c.begin_request(&Operation::ListTools, 1).ok().unwrap().id;
    match c.on_message(b"{\"jsonrpc\":\"2.0\",\"method\":\"notifications/message\",\"params\":{\"level\":\"info\"}}") {
        Routed::Notice { method } => assert_eq!(method, "notifications/message"),
        _ => panic!("not a notice"),
    }
    assert!(c.is_pending(id));
}

#[test]
fn remote_error_fails_only_its_request() {
    let mut c = ready_client();
    let a = c.begin_request(&echo_call(), 1).ok().unwrap().id;
    let b = c.begin_request(&echo_call(), 2).ok().unwrap().id;
    let d = delivered(c.on_message(&error_line(a, -32000, "tool failed")));
    assert_eq!(d.waiter, 1);
    assert_eq!(d.outcome, Err(McpError::RemoteError { code: -32000, message: "tool failed".to_string() }));
    assert!(c.is_ready());
    assert!(c.is_pending(b));
}

#[test]
fn application_error_inside_a_result_stays_a_success() {
    let mut c = ready_client();
    let id = c.begin_request(&echo_call(), 1).ok().unwrap().id;
    let d = delivered(c.on_message(&result_line(id, "{\"isError\":true,\"content\":[]}")));
    assert_eq!(d.outcome, Ok(json("{\"isError\":true,\"content\":[]}")));
}

#[test]
fn shutdown_fails_every_pending_request() {
    let mut c = ready_client();
    let mut expected = Vec::new();
    for k in 0..5u32 {
        let id = c.begin_request(&Operation::ListTools, k).ok().unwrap().id;
        expected.push((id, k));
    }
    let step = c.begin_shutdown();
    assert!(step.terminate);
    assert_eq!(step.deliveries.len(), 5);
    let mut got = Vec::new();
    for d in step.deliveries {
        assert_eq!(d.outcome, Err(McpError::ConnectionClosed));
        got.push((d.id, d.waiter));
    }
    got.sort();
    assert_eq!(got, expected);
    assert!(!c.has_pending());
    assert_eq!(c.phase(), Phase::ShuttingDown);
    assert_eq!(c.begin_request(&Operation::ListTools, 9).err().unwrap().error, McpError::NotConnected);
    assert_eq!(c.finish_shutdown(true), Ok(()));
    assert_eq!(c.phase(), Phase::Closed);
}

#[test]
fn shutdown_is_idempotent_once_closed() {
    let mut c = ready_client();
    c.begin_shutdown();
    assert_eq!(c.finish_shutdown(true), Ok(()));
    let again = c.begin_shutdown();
    assert!(!again.terminate);
    assert!(again.deliveries.is_empty());
    assert_eq!(c.phase(), Phase::Closed);
    assert_eq!(c.finish_shutdown(false), Ok(()));
    assert_eq!(c.phase(), Phase::Closed);
}

#[test]
fn slow_exit_is_a_shutdown_error_and_still_closes() {
    let mut c = ready_client();
    c.begin_shutdown();
    assert_eq!(c.finish_shutdown(false), Err(McpError::ShutdownError));
    assert_eq!(c.phase(), Phase::Closed);
}

#[test]
fn finish_without_begin_is_refused() {
    let mut c = ready_client();
    assert_eq!(c.finish_shutdown(true), Err(McpError::NotConnected));
    assert!(c.is_ready());
}

#[test]
fn stream_end_fails_pending_and_closes() {
    let mut c = ready_client();
    c.begin_request(&Operation::ListTools, 1).ok().unwrap();
    c.begin_request(&Operation::ListTools, 2).ok().unwrap();
    let ds = c.on_stream_end();
    let mut waiters: Vec<u32> = ds.iter().map(|d| d.waiter).collect();
    waiters.sort();
    assert_eq!(waiters, vec![1, 2]);
    assert!(ds.iter().all(|d| d.outcome == Err(McpError::ConnectionClosed)));
    assert_eq!(c.phase(), Phase::Closed);
    assert_eq!(c.begin_request(&Operation::ListTools, 3).err().unwrap().error, McpError::NotConnected);
    assert!(c.on_stream_end().is_empty());
}

#[test]
fn stream_end_while_shutting_down_keeps_the_phase() {
    let mut c = ready_client();
    c.begin_shutdown();
    assert!(c.on_stream_end().is_empty());
    assert_eq!(c.phase(), Phase::ShuttingDown);
}

#[test]
fn abandon_takes_one_request_out() {
    let mut c = ready_client();
    let a = c.begin_request(&Operation::ListTools, 1).ok().unwrap().id;
    let b = c.begin_request(&Operation::ListTools, 2).ok().unwrap().id;
    assert_eq!(c.abandon(a), Some(1));
    assert_eq!(c.abandon(a), None);
    assert!(matches!(c.on_message(&result_line(a, "1")), Routed::Dropped));
    assert!(c.is_pending(b));
    assert!(c.is_ready());
    let next = c.begin_request(&Operation::ListTools, 3).ok().unwrap().id;
    assert_eq!(next, b + 1);
}

#[test]
fn abandoned_handshake_closes_the_connection() {
    let mut c: ProtocolClient<u8> = ProtocolClient::new();
    c.begin_handshake(&json("{}"), 1).ok().unwrap();
    assert_eq!(c.abandon(1), Some(1));
    assert_eq!(c.phase(), Phase::Closed);
}

#[test]
fn echo_scenario_through_the_registry() {
    let mut registry: Registry<Rc<RefCell<ProtocolClient<u32>>>> = Registry::new();
    assert!(!registry.contains("fs-tools"));
    let client = Rc::new(RefCell::new(ready_client()));
    assert!(registry.insert("fs-tools".to_string(), client).is_ok());

    let connection = registry.get("fs-tools").ok().unwrap().clone();
    let issued = connection.borrow_mut().begin_request(&echo_call(), 42).ok().unwrap();
    let answer = echo_server(&issued.line);
    let d = delivered(connection.borrow_mut().on_message(&answer));
    assert_eq!(d.waiter, 42);
    assert_eq!(d.outcome, Ok(json("{\"text\": \"hi\"}")));

    let removed = registry.remove("fs-tools").ok().unwrap();
    let step = removed.borrow_mut().begin_shutdown();
    assert!(step.terminate);
    assert!(step.deliveries.is_empty());
    assert_eq!(removed.borrow_mut().finish_shutdown(true), Ok(()));
    assert!(registry.is_empty());

    assert_eq!(registry.get("fs-tools").err(), Some(McpError::NotConnected));
    let late = connection.borrow_mut().begin_request(&echo_call(), 43).err().unwrap();
    assert_eq!(late.error, McpError::NotConnected);
}
