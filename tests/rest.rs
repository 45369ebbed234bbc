use a2a_client::error::{ClientError, ProtocolError};
use a2a_client::http::Method;
use a2a_client::rest::{
    cancel_task_request, decode_send_reply, decode_task_reply, endpoint, get_task_request,
    get_task_with_history_request, send_message_request,
};
use a2a_client::types::TaskId;

#[test]
fn test_endpoint_with_trailing_slash() {
    assert_eq!(
        endpoint("https://example.com/", "/v1/message:send"),
        "https://example.com/v1/message:send"
    );
}

#[test]
fn test_endpoint_without_trailing_slash() {
    assert_eq!(
        endpoint("https://example.com", "/v1/message:send"),
        "https://example.com/v1/message:send"
    );
}

#[test]
fn test_get_task_request() {
    let req = get_task_request("https://example.com", &TaskId::new("task-123".to_string()));
    assert!(req.url.contains("/v1/tasks/task-123"));
}

#[test]
fn test_cancel_task_request() {
    let req = cancel_task_request("https://example.com", &TaskId::new("task-456".to_string()));
    assert!(req.url.contains("/v1/tasks/task-456:cancel"));
}

#[test]
fn endpoint_strips_every_trailing_slash() {
    assert_eq!(endpoint("https://a.example///", "/x"), "https://a.example/x");
    assert_eq!(endpoint("", "/x"), "/x");
}

#[test]
fn rest_requests_are_exact() {
    let send = send_message_request("https://a/", b"{}");
    assert_eq!(send.method, Method::Post);
    assert_eq!(send.url, "https://a/v1/message:send");
    assert_eq!(
        send.headers,
        vec![
            ("Content-Type".to_string(), "application/json".to_string()),
            ("Accept".to_string(), "application/json".to_string())
        ]
    );
    assert_eq!(send.body, Some(b"{}".to_vec()));

    let get = get_task_with_history_request("https://a", &TaskId::new("t1".to_string()), 25);
    assert_eq!(get.method, Method::Get);
    assert_eq!(get.url, "https://a/v1/tasks/t1?historyLength=25");
    assert_eq!(get.headers, vec![("Accept".to_string(), "application/json".to_string())]);
    assert_eq!(get.body, None);

    let cancel = cancel_task_request("https://a", &TaskId::new("t1".to_string()));
    assert_eq!(cancel.method, Method::Post);
    assert_eq!(cancel.url, "https://a/v1/tasks/t1:cancel");
    assert_eq!(cancel.body, Some(vec![]));
}

#[test]
fn scenario_rest_lookup_404_is_absent() {
    assert!(matches!(decode_task_reply(404, b"not json"), Ok(None)));
}

#[test]
fn rest_lookup_200_decodes_task() {
    let task = decode_task_reply(200, br#"{"id":"t1"}"#).unwrap().unwrap();
    assert_eq!(task["id"], "t1");
    assert!(matches!(decode_task_reply(200, b"{oops"), Err(ClientError::Json(_))));
}

#[test]
fn rest_other_status_is_agent_error_with_body() {
    match decode_task_reply(500, br#"{"error":"boom"}"#) {
        Err(ClientError::Agent { message, source: ProtocolError::Rest { status, body } }) => {
            assert_eq!(message, "REST error 500");
            assert_eq!(status, 500);
            assert_eq!(body.unwrap()["error"], "boom");
        }
        other => panic!("unexpected: {:?}", other),
    }
    match decode_task_reply(400, b"plain text") {
        Err(ClientError::Agent { message, source: ProtocolError::Rest { status, body } }) => {
            assert_eq!(message, "REST error 400");
            assert_eq!(status, 400);
            assert!(body.is_none());
        }
        other => panic!("unexpected: {:?}", other),
    }
}

#[test]
fn rest_send_404_is_an_error() {
    match decode_send_reply(404, b"") {
        Err(ClientError::Agent { message, source: ProtocolError::Rest { status, .. } }) => {
            assert_eq!(message, "REST error 404");
            assert_eq!(status, 404);
        }
        other => panic!("unexpected: {:?}", other),
    }
    let ok = decode_send_reply(200, br#"{"message":{"role":"agent"}}"#).unwrap();
    assert_eq!(ok["message"]["role"], "agent");
}
