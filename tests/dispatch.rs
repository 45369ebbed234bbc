use a2a_client::binding::{AgentCard, AgentInterface, SelectedBinding};
use a2a_client::client::{build_request, params_json, ClientBuilder, Operation, RequestIds};
use a2a_client::error::{ClientError, JsonRpcErrorCode, ProtocolError};
use a2a_client::http::Method;
use a2a_client::jsonrpc::{
    decode_task_members, encode_request, into_result, JsonRpcError, JsonRpcRequest, JsonRpcResult,
};
use a2a_client::types::{Binding, TaskId};

struct MockTransport;

fn card(entries: &[(&str, &str)]) -> AgentCard {
    AgentCard {
        supported_interfaces: entries
            .iter()
            .map(|(u, b)| AgentInterface { url: u.to_string(), protocol_binding: b.to_string(), tenant: String::new() })
            .collect(),
        url: None,
        preferred_transport: None,
        additional_interfaces: vec![],
    }
}

#[test]
fn test_builder_default_preference() {
    let builder = ClientBuilder::new(MockTransport, "https://example.com");
    assert!(builder.preference.is_none());
}

#[test]
fn test_builder_custom_preference() {
    let builder = ClientBuilder::new(MockTransport, "https://example.com")
        .prefer(&[Binding::Rest, Binding::JsonRpc]);
    assert_eq!(
        builder.preference,
        Some(vec![Binding::Rest, Binding::JsonRpc])
    );
}

#[test]
fn test_builder_forced_binding() {
    let builder =
        ClientBuilder::new(MockTransport, "https://example.com").binding(Binding::Rest);
    assert_eq!(builder.forced_binding, Some(Binding::Rest));
}

#[test]
fn builder_discovery_url_and_status() {
    let builder = ClientBuilder::new(MockTransport, "https://example.com/");
    assert_eq!(builder.discovery_url(), "https://example.com/.well-known/agent-card.json");
    let req = builder.discovery_request();
    assert_eq!(req.method, Method::Get);
    assert_eq!(req.headers, vec![("Accept".to_string(), "application/json".to_string())]);
    assert!(builder.check_discovery(200).is_ok());
    match builder.check_discovery(503) {
        Err(ClientError::AgentNotFound(url)) => {
            assert_eq!(url, "https://example.com/.well-known/agent-card.json")
        }
        other => panic!("unexpected: {:?}", other),
    }
}

#[test]
fn builder_finish_negotiates() {
    let builder = ClientBuilder::new(MockTransport, "https://example.com");
    let c = card(&[("https://a/v1", "HTTP+JSON"), ("https://a/", "JSONRPC")]);
    let (_t, client) = builder.finish(c).unwrap();
    assert_eq!(client.binding(), &SelectedBinding::JsonRpc { url: "https://a/".to_string() });
}

#[test]
fn scenario_empty_card_fails_build() {
    let builder = ClientBuilder::new(MockTransport, "https://example.com");
    match builder.finish(card(&[])) {
        Err(ClientError::NoCompatibleBinding { available }) => assert!(available.is_empty()),
        Err(other) => panic!("unexpected: {:?}", other),
        Ok(_) => panic!("expected failure"),
    }
}

#[test]
fn builder_forced_absent_kind_fails() {
    let builder = ClientBuilder::new(MockTransport, "https://example.com").binding(Binding::Rest);
    match builder.finish(card(&[("https://a/", "JSONRPC")])) {
        Err(ClientError::NoCompatibleBinding { available }) => {
            assert_eq!(available, vec![Binding::JsonRpc])
        }
        Err(other) => panic!("unexpected: {:?}", other),
        Ok(_) => panic!("expected failure"),
    }
}

#[test]
fn jsonrpc_request_consumes_one_id() {
    let binding = SelectedBinding::JsonRpc { url: "https://agent/rpc".to_string() };
    let mut ids = RequestIds::new();
    let op = Operation::GetTask { task_id: TaskId::new("t\"1".to_string()), history_length: Some(3) };
    let first = build_request(&binding, &op, &mut ids).unwrap();
    assert_eq!(first.method, Method::Post);
    assert_eq!(first.url, "https://agent/rpc");
    assert_eq!(
        String::from_utf8(first.body.unwrap()).unwrap(),
        r#"{"jsonrpc":"2.0","id":"1","method":"tasks/get","params":{"id":"t\"1","historyLength":3}}"#
    );
    let second = build_request(&binding, &Operation::CancelTask { task_id: TaskId::new("t2".to_string()) }, &mut ids).unwrap();
    assert_eq!(
        String::from_utf8(second.body.unwrap()).unwrap(),
        r#"{"jsonrpc":"2.0","id":"2","method":"tasks/cancel","params":{"id":"t2"}}"#
    );
    let send = Operation::SendMessage { params: r#"{"message":{}}"#.to_string() };
    let third = build_request(&binding, &send, &mut ids).unwrap();
    assert_eq!(
        String::from_utf8(third.body.unwrap()).unwrap(),
        r#"{"jsonrpc":"2.0","id":"3","method":"message/send","params":{"message":{}}}"#
    );
}

#[test]
fn rest_request_consumes_no_id() {
    let binding = SelectedBinding::Rest { url: "https://agent/".to_string() };
    let mut ids = RequestIds::new();
    let op = Operation::GetTask { task_id: TaskId::new("t1".to_string()), history_length: None };
    let req = build_request(&binding, &op, &mut ids).unwrap();
    assert_eq!(req.method, Method::Get);
    assert_eq!(req.url, "https://agent/v1/tasks/t1");
    let jsonrpc = SelectedBinding::JsonRpc { url: "u".to_string() };
    let next = build_request(&jsonrpc, &op, &mut ids).unwrap();
    assert!(String::from_utf8(next.body.unwrap()).unwrap().contains(r#""id":"1""#));
}

#[test]
fn params_are_escaped_json() {
    let op = Operation::CancelTask { task_id: TaskId::new("a\\b\n".to_string()) };
    assert_eq!(params_json(&op).unwrap(), r#"{"id":"a\\b\n"}"#);
}

#[test]
fn encode_request_frames_envelope() {
    let req = JsonRpcRequest::new("7".to_string(), "x/y".to_string(), "[1]".to_string());
    assert_eq!(
        encode_request(&req).unwrap(),
        r#"{"jsonrpc":"2.0","id":"7","method":"x/y","params":[1]}"#
    );
}

#[test]
fn scenario_jsonrpc_task_not_found_error() {
    let reply: serde_json::Value =
        serde_json::from_str(r#"{"jsonrpc":"2.0","id":"1","error":{"code":-32001,"message":"Task not found"}}"#)
            .unwrap();
    let err = &reply["error"];
    let error = JsonRpcError {
        code: err["code"].as_i64().unwrap() as i32,
        message: err["message"].as_str().unwrap().to_string(),
        data: err.get("data").cloned(),
    };
    match decode_task_members(reply.get("result").cloned(), Some(error)) {
        Err(ClientError::Agent { message, source: ProtocolError::JsonRpc { code, message: m, data } }) => {
            assert_eq!(code, JsonRpcErrorCode::ServerError(-32001));
            assert_eq!(message, "Task not found");
            assert_eq!(m, "Task not found");
            assert!(data.is_none());
        }
        other => panic!("unexpected: {:?}", other),
    }
}

#[test]
fn jsonrpc_null_result_is_absent_task() {
    assert!(matches!(decode_task_members(None, None), Ok(None)));
    let task: serde_json::Value = serde_json::from_str(r#"{"id":"t1"}"#).unwrap();
    let got = decode_task_members(Some(task.clone()), None).unwrap();
    assert_eq!(got, Some(task));
}

#[test]
fn into_result_keeps_success_and_data() {
    let ok: JsonRpcResult<u32> = JsonRpcResult::Success { result: 5 };
    assert_eq!(into_result(ok).unwrap(), 5);
    let data: serde_json::Value = serde_json::from_str(r#"{"detail":1}"#).unwrap();
    let failed: JsonRpcResult<u32> = JsonRpcResult::Error {
        error: JsonRpcError { code: -32602, message: "bad".to_string(), data: Some(data.clone()) },
    };
    match into_result(failed) {
        Err(ClientError::Agent { message, source: ProtocolError::JsonRpc { code, data: d, .. } }) => {
            assert_eq!(message, "bad");
            assert_eq!(code, JsonRpcErrorCode::InvalidParams);
            assert_eq!(d, Some(data));
        }
        other => panic!("unexpected: {:?}", other),
    }
}

#[test]
fn error_member_wins_over_result() {
    let error = JsonRpcError { code: 1, message: "m".to_string(), data: None };
    let outcome = JsonRpcResult::from_members(Some(3u8), Some(error)).unwrap();
    assert!(matches!(outcome, JsonRpcResult::Error { .. }));
    assert!(JsonRpcResult::<u8>::from_members(None, None).is_none());
}

#[test]
fn test_serialize_request() {
    let req = JsonRpcRequest::new(
        "1".to_string(),
        "SendMessage".to_string(),
        r#"{"content":"hello"}"#.to_string(),
    );
    let json = encode_request(&req).unwrap();
    assert!(json.contains("\"jsonrpc\":\"2.0\""));
    assert!(json.contains("\"method\":\"SendMessage\""));
}

#[test]
fn session_prepare_keeps_binding() {
    let builder = ClientBuilder::new(MockTransport, "https://example.com");
    let (_t, mut client) = builder.finish(card(&[("https://a/", "JSONRPC")])).unwrap();
    let op = Operation::CancelTask { task_id: TaskId::new("x".to_string()) };
    client.prepare(&op).unwrap();
    let rpc = client.prepare_rpc("custom/op", "[]").unwrap();
    assert_eq!(rpc.url, "https://a/");
    assert_eq!(
        String::from_utf8(rpc.body.unwrap()).unwrap(),
        r#"{"jsonrpc":"2.0","id":"2","method":"custom/op","params":[]}"#
    );
    assert_eq!(client.binding(), &SelectedBinding::JsonRpc { url: "https://a/".to_string() });
}

#[test]
fn control_characters_are_escaped() {
    let op = Operation::GetTask { task_id: TaskId::new("a\u{1}\u{1f}\t\u{8}\u{c}\r/\u{7f}".to_string()), history_length: None };
    assert_eq!(params_json(&op).unwrap(), "{\"id\":\"a\\u0001\\u001f\\t\\b\\f\\r/\u{7f}\"}");
}
