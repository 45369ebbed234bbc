//! The REST binding: endpoint paths for each operation, and the reading of
//! replies by HTTP status.
use vstd::prelude::*;

use crate::error::{ClientError, ProtocolError};
use crate::http::{body_view, headers_view, HeaderView, HttpRequest, Method};
use crate::json::{json_parses, parse_json};
use crate::types::{decimal, decimal_text, TaskId};

verus! {

/// `s` without its trailing slashes.
pub open spec fn trim_slashes(s: Seq<char>) -> Seq<char>
    decreases s.len(),
{
    if s.len() > 0 && s.last() == '/' {
        trim_slashes(s.drop_last())
    } else {
        s
    }
}

/// The URL of `path` under `base`.
pub open spec fn endpoint_url(base: Seq<char>, path: Seq<char>) -> Seq<char> {
    trim_slashes(base) + path
}

/// Joins a base URL, stripped of trailing slashes, and a path.
pub fn endpoint(base_url: &str, path: &str) -> (r: String)
    ensures
        r@ == endpoint_url(base_url@, path@),
{
    let mut k = base_url.unicode_len();
    assert(base_url@.subrange(0, k as int) == base_url@);
    while k > 0 && base_url.get_char(k - 1) == '/'
        invariant
            k <= base_url@.len(),
            trim_slashes(base_url@) == trim_slashes(base_url@.subrange(0, k as int)),
        decreases k,
    {
        assert(base_url@.subrange(0, k as int).drop_last() == base_url@.subrange(0, k - 1));
        k = k - 1;
    }
    let mut out = String::from_str(base_url.substring_char(0, k));
    out.append(path);
    out
}

pub open spec fn send_path() -> Seq<char> {
    "/v1/message:send"@
}

pub open spec fn task_path(id: Seq<char>) -> Seq<char> {
    "/v1/tasks/"@ + id
}

pub open spec fn task_history_path(id: Seq<char>, n: nat) -> Seq<char> {
    "/v1/tasks/"@ + id + "?historyLength="@ + decimal_text(n)
}

pub open spec fn cancel_path(id: Seq<char>) -> Seq<char> {
    "/v1/tasks/"@ + id + ":cancel"@
}

/// Headers of a request that carries a JSON body.
pub open spec fn json_body_headers() -> Seq<HeaderView> {
    seq![("Content-Type"@, "application/json"@), ("Accept"@, "application/json"@)]
}

/// Headers of a request without a body.
pub open spec fn accept_headers() -> Seq<HeaderView> {
    seq![("Accept"@, "application/json"@)]
}

/// POST /v1/message:send with a JSON body.
pub fn send_message_request(base_url: &str, body: &[u8]) -> (r: HttpRequest)
    ensures
        r.method == Method::Post,
        r.url@ == endpoint_url(base_url@, send_path()),
        headers_view(r.headers@) == json_body_headers(),
        body_view(r.body) == Some(body@),
{
    let url = endpoint(base_url, "/v1/message:send");
    let r = HttpRequest::post(url.as_str(), body).with_header("Content-Type", "application/json").with_header(
        "Accept",
        "application/json",
    );
    assert(headers_view(r.headers@) =~= json_body_headers());
    r
}

/// GET /v1/tasks/{id}.
pub fn get_task_request(base_url: &str, task_id: &TaskId) -> (r: HttpRequest)
    ensures
        r.method == Method::Get,
        r.url@ == endpoint_url(base_url@, task_path(task_id.0@)),
        headers_view(r.headers@) == accept_headers(),
        r.body is None,
{
    let mut path = String::from_str("/v1/tasks/");
    path.append(task_id.as_str());
    let url = endpoint(base_url, path.as_str());
    let r = HttpRequest::get(url.as_str()).with_header("Accept", "application/json");
    assert(headers_view(r.headers@) =~= accept_headers());
    r
}

/// GET /v1/tasks/{id}?historyLength={n}.
pub fn get_task_with_history_request(base_url: &str, task_id: &TaskId, history_length: u32) -> (r:
    HttpRequest)
    ensures
        r.method == Method::Get,
        r.url@ == endpoint_url(base_url@, task_history_path(task_id.0@, history_length as nat)),
        headers_view(r.headers@) == accept_headers(),
        r.body is None,
{
    let mut path = String::from_str("/v1/tasks/");
    path.append(task_id.as_str());
    path.append("?historyLength=");
    let n = decimal(history_length as u64);
    path.append(n.as_str());
    let url = endpoint(base_url, path.as_str());
    let r = HttpRequest::get(url.as_str()).with_header("Accept", "application/json");
    assert(headers_view(r.headers@) =~= accept_headers());
    r
}

/// POST /v1/tasks/{id}:cancel with an empty body.
pub fn cancel_task_request(base_url: &str, task_id: &TaskId) -> (r: HttpRequest)
    ensures
        r.method == Method::Post,
        r.url@ == endpoint_url(base_url@, cancel_path(task_id.0@)),
        headers_view(r.headers@) == accept_headers(),
        body_view(r.body) == Some(Seq::<u8>::empty()),
{
    let mut path = String::from_str("/v1/tasks/");
    path.append(task_id.as_str());
    path.append(":cancel");
    let url = endpoint(base_url, path.as_str());
    let empty: Vec<u8> = Vec::new();
    let r = HttpRequest::post(url.as_str(), empty.as_slice()).with_header("Accept", "application/json");
    assert(headers_view(r.headers@) =~= accept_headers());
    r
}

/// Whether `e` is the agent error of a REST reply with `status` and `body`:
/// the message names the status, the structured body is kept when it parses.
pub open spec fn is_rest_failure(e: ClientError, status: u16, body: Seq<u8>) -> bool {
    match e {
        ClientError::Agent { message, source: ProtocolError::Rest { status: s, body: b } } => {
            &&& message@ == "REST error "@ + decimal_text(status as nat)
            &&& s == status
            &&& (b is Some <==> json_parses(body))
        },
        _ => false,
    }
}

/// The agent error for a non-success REST reply.
pub fn rest_failure(status: u16, body: &[u8]) -> (r: ClientError)
    ensures
        is_rest_failure(r, status, body@),
{
    let mut message = String::from_str("REST error ");
    let code = decimal(status as u64);
    message.append(code.as_str());
    let parsed = match parse_json(body) {
        Ok(v) => Some(v),
        Err(_) => None,
    };
    ClientError::Agent { message, source: ProtocolError::Rest { status, body: parsed } }
}

/// Reads the reply to a task lookup or cancellation: 200 is the task, 404 is
/// "no such task" (not an error), any other status is an agent error.
pub fn decode_task_reply(status: u16, body: &[u8]) -> (r: Result<Option<serde_json::Value>, ClientError>)
    ensures
        status == 404 ==> r matches Ok(None),
        status == 200 ==> (r matches Ok(Some(_)) <==> json_parses(body@)),
        status == 200 && !json_parses(body@) ==> r matches Err(ClientError::Json(_)),
        status != 200 && status != 404 ==> (r matches Err(e) && is_rest_failure(e, status, body@)),
{
    if status == 404 {
        return Ok(None);
    }
    if status != 200 {
        return Err(rest_failure(status, body));
    }
    match parse_json(body) {
        Ok(v) => Ok(Some(v)),
        Err(e) => Err(ClientError::Json(e)),
    }
}

/// Reads the reply to a message send: 200 is the result, any other status is
/// an agent error.
pub fn decode_send_reply(status: u16, body: &[u8]) -> (r: Result<serde_json::Value, ClientError>)
    ensures
        status == 200 ==> (r is Ok <==> json_parses(body@)),
        status == 200 && !json_parses(body@) ==> r matches Err(ClientError::Json(_)),
        status != 200 ==> (r matches Err(e) && is_rest_failure(e, status, body@)),
{
    if status != 200 {
        return Err(rest_failure(status, body));
    }
    match parse_json(body) {
        Ok(v) => Ok(v),
        Err(e) => Err(ClientError::Json(e)),
    }
}

} // verus!
