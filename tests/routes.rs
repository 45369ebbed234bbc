use a2a_client::http::Method;
use a2a_client::rest::{cancel_task_request, get_task_with_history_request};
use a2a_client::routes::{
    extract_task_id_before_action, is_task_get, parse_task_get, parse_u32, route_jsonrpc, route_rest,
    RestRoute, RpcRoute,
};
use a2a_client::types::TaskId;

#[test]
fn task_get_paths() {
    assert!(is_task_get("/v1/tasks/abc"));
    assert!(!is_task_get("/v1/tasks/abc:cancel"));
    assert!(!is_task_get("/v1/other"));
    assert_eq!(parse_task_get("/v1/tasks/abc"), Ok(("abc".to_string(), None)));
    assert_eq!(
        parse_task_get("/v1/tasks/abc?x=1&historyLength=5"),
        Ok(("abc".to_string(), Some(5)))
    );
    assert_eq!(parse_task_get("/v1/tasks/abc?historyLength=+7"), Ok(("abc".to_string(), Some(7))));
    assert_eq!(parse_task_get("/v1/tasks/abc?historyLength=oops"), Ok(("abc".to_string(), None)));
    assert_eq!(
        parse_task_get("/v1/tasks/abc?historyLength=x&historyLength=3"),
        Ok(("abc".to_string(), None))
    );
    assert_eq!(parse_task_get("/v1/tasks/?historyLength=1"), Err((400, "Missing task ID".to_string())));
}

#[test]
fn cancel_paths() {
    assert_eq!(extract_task_id_before_action("/v1/tasks/t9:cancel"), Ok("t9".to_string()));
    assert_eq!(extract_task_id_before_action("/v1/tasks/:cancel"), Err((400, "Missing task ID".to_string())));
    assert_eq!(extract_task_id_before_action("/v2/tasks/t9:cancel"), Err((400, "Invalid path".to_string())));
    assert_eq!(extract_task_id_before_action("/v1/tasks/t9"), Err((400, "Invalid path".to_string())));
}

#[test]
fn u32_parsing() {
    assert_eq!(parse_u32("0"), Some(0));
    assert_eq!(parse_u32("4294967295"), Some(u32::MAX));
    assert_eq!(parse_u32("4294967296"), None);
    assert_eq!(parse_u32("99999999999x"), None);
    assert_eq!(parse_u32("+"), None);
    assert_eq!(parse_u32(""), None);
    assert_eq!(parse_u32("-1"), None);
    assert_eq!(parse_u32("12a"), None);
}

#[test]
fn rest_routing() {
    assert_eq!(route_rest(Method::Post, "/v1/message:send"), Ok(RestRoute::SendMessage));
    assert_eq!(
        route_rest(Method::Get, "/v1/tasks/t1?historyLength=2"),
        Ok(RestRoute::GetTask { task_id: "t1".to_string(), history_length: Some(2) })
    );
    assert_eq!(
        route_rest(Method::Post, "/v1/tasks/t1:cancel"),
        Ok(RestRoute::CancelTask { task_id: "t1".to_string() })
    );
    assert_eq!(route_rest(Method::Get, "/v1/agentCard"), Ok(RestRoute::ExtendedAgentCard));
    assert_eq!(route_rest(Method::Delete, "/v1/tasks/t1"), Err((404, "Not Found".to_string())));
    assert_eq!(route_rest(Method::Get, "/v1/tasks/"), Err((400, "Missing task ID".to_string())));
}

#[test]
fn client_paths_route_back() {
    let id = TaskId::new("task-77".to_string());
    let get = get_task_with_history_request("https://agent.example", &id, 12);
    let path = get.url.strip_prefix("https://agent.example").unwrap();
    assert_eq!(
        route_rest(Method::Get, path),
        Ok(RestRoute::GetTask { task_id: "task-77".to_string(), history_length: Some(12) })
    );
    let cancel = cancel_task_request("https://agent.example/", &id);
    let path = cancel.url.strip_prefix("https://agent.example").unwrap();
    assert_eq!(
        route_rest(Method::Post, path),
        Ok(RestRoute::CancelTask { task_id: "task-77".to_string() })
    );
}

#[test]
fn jsonrpc_routing() {
    assert_eq!(route_jsonrpc("message/send"), RpcRoute::MessageSend);
    assert_eq!(route_jsonrpc("tasks/get"), RpcRoute::TasksGet);
    assert_eq!(route_jsonrpc("tasks/cancel"), RpcRoute::TasksCancel);
    assert_eq!(route_jsonrpc("tasks/resubscribe"), RpcRoute::Streaming);
    assert_eq!(route_jsonrpc("message/stream"), RpcRoute::Streaming);
    assert_eq!(route_jsonrpc("tasks/list"), RpcRoute::MethodNotFound);
    assert_eq!(RpcRoute::Streaming.rejection(), Some((-32601, "Streaming not implemented")));
    assert_eq!(RpcRoute::MethodNotFound.rejection(), Some((-32601, "Method not found")));
    assert_eq!(RpcRoute::TasksGet.rejection(), None);
}
