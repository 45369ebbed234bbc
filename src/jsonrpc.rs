//! The JSON-RPC envelope: request framing and the reading of replies.
use vstd::prelude::*;

use crate::error::{classify, ClientError, JsonRpcErrorCode, ProtocolError};
use crate::json::{json_quote, json_string_of};

verus! {

/// A JSON-RPC request.
#[derive(Debug)]
pub struct JsonRpcRequest<T> {
    pub jsonrpc: &'static str,
    pub id: String,
    pub method: String,
    pub params: T,
}

impl<T> JsonRpcRequest<T> {
    pub fn new(id: String, method: String, params: T) -> (r: Self)
        ensures
            r.jsonrpc@ == "2.0"@,
            r.id@ == id@,
            r.method@ == method@,
            r.params == params,
    {
        JsonRpcRequest { jsonrpc: "2.0", id, method, params }
    }
}

/// The wire text of a request whose members are already encoded as JSON.
pub open spec fn envelope_text(
    version: Seq<char>,
    id: Seq<char>,
    method: Seq<char>,
    params: Seq<char>,
) -> Seq<char> {
    "{\"jsonrpc\":"@ + version + ",\"id\":"@ + id + ",\"method\":"@ + method + ",\"params\":"@
        + params + "}"@
}

/// The wire text of `req`, whose parameters are JSON text.
pub open spec fn request_text(req: JsonRpcRequest<String>) -> Seq<char> {
    envelope_text(
        json_string_of(req.jsonrpc@),
        json_string_of(req.id@),
        json_string_of(req.method@),
        req.params@,
    )
}

/// Frames a request whose parameters are already JSON text.
pub fn encode_request(req: &JsonRpcRequest<String>) -> (r: Result<String, ClientError>)
    ensures
        r matches Ok(s) && s@ == request_text(*req),
{
    let version = match json_quote(req.jsonrpc) {
        Ok(q) => q,
        Err(e) => return Err(ClientError::Json(e)),
    };
    let id = match json_quote(req.id.as_str()) {
        Ok(q) => q,
        Err(e) => return Err(ClientError::Json(e)),
    };
    let method = match json_quote(req.method.as_str()) {
        Ok(q) => q,
        Err(e) => return Err(ClientError::Json(e)),
    };
    let mut out = String::from_str("{\"jsonrpc\":");
    out.append(version.as_str());
    out.append(",\"id\":");
    out.append(id.as_str());
    out.append(",\"method\":");
    out.append(method.as_str());
    out.append(",\"params\":");
    out.append(req.params.as_str());
    out.append("}");
    Ok(out)
}

/// The error member of a JSON-RPC reply.
#[derive(Debug)]
pub struct JsonRpcError {
    pub code: i32,
    pub message: String,
    pub data: Option<serde_json::Value>,
}

/// The outcome member of a JSON-RPC reply.
#[derive(Debug)]
pub enum JsonRpcResult<T> {
    Success { result: T },
    Error { error: JsonRpcError },
}

/// A JSON-RPC reply.
#[derive(Debug)]
pub struct JsonRpcResponse<T> {
    pub jsonrpc: String,
    pub id: String,
    pub result: JsonRpcResult<T>,
}

impl<T> JsonRpcResult<T> {
    /// The outcome of a reply with the given members: an error member wins
    /// over a result member; a reply with neither has no outcome.
    pub fn from_members(result: Option<T>, error: Option<JsonRpcError>) -> (r: Option<Self>)
        ensures
            error matches Some(e) ==> r == Some(JsonRpcResult::<T>::Error { error: e }),
            error is None ==> match result {
                Some(v) => r == Some(JsonRpcResult::Success { result: v }),
                None => r is None,
            },
    {
        match error {
            Some(e) => Some(JsonRpcResult::Error { error: e }),
            None => match result {
                Some(v) => Some(JsonRpcResult::Success { result: v }),
                None => None,
            },
        }
    }
}

/// Whether `e` is the agent error unified from JSON-RPC error member `err`:
/// the code classified, message and structured data kept.
pub open spec fn is_jsonrpc_failure(e: ClientError, err: JsonRpcError) -> bool {
    match e {
        ClientError::Agent { message, source: ProtocolError::JsonRpc { code, message: m, data } } => {
            &&& message@ == err.message@
            &&& m@ == err.message@
            &&& code == classify(err.code)
            &&& data == err.data
        },
        _ => false,
    }
}

/// Unifies a JSON-RPC error member into the client error taxonomy.
pub fn agent_error(error: JsonRpcError) -> (r: ClientError)
    ensures
        is_jsonrpc_failure(r, error),
{
    let JsonRpcError { code, message, data } = error;
    ClientError::Agent {
        message: message.clone(),
        source: ProtocolError::JsonRpc { code: JsonRpcErrorCode::from_code(code), message, data },
    }
}

/// The result of a reply, or its error unified.
pub fn into_result<T>(outcome: JsonRpcResult<T>) -> (r: Result<T, ClientError>)
    ensures
        match outcome {
            JsonRpcResult::Success { result } => r == Ok::<T, ClientError>(result),
            JsonRpcResult::Error { error } => r matches Err(e) && is_jsonrpc_failure(e, error),
        },
{
    match outcome {
        JsonRpcResult::Success { result } => Ok(result),
        JsonRpcResult::Error { error } => Err(agent_error(error)),
    }
}

/// Reads the members of a reply to a task lookup or cancellation: an error
/// member is unified into an agent error; otherwise the result, where an
/// absent or null result means "no such task".
pub fn decode_task_members(result: Option<serde_json::Value>, error: Option<JsonRpcError>) -> (r: Result<
    Option<serde_json::Value>,
    ClientError,
>)
    ensures
        match error {
            Some(e) => r matches Err(x) && is_jsonrpc_failure(x, e),
            None => r == Ok::<_, ClientError>(result),
        },
{
    match JsonRpcResult::from_members(Some(result), error) {
        Some(outcome) => into_result(outcome),
        None => Ok(None),
    }
}

} // verus!
