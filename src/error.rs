//! The client-visible error taxonomy and the JSON-RPC code classification.
use vstd::prelude::*;

use crate::types::{signed_decimal, signed_text, Binding, TaskId};

verus! {

/// Client errors, with the protocol detail of an agent-side rejection.
#[derive(Debug)]
pub enum ClientError {
    /// Discovery of the agent descriptor failed.
    AgentNotFound(String),
    /// Negotiation failed; the kinds the agent does advertise.
    NoCompatibleBinding { available: Vec<Binding> },
    TaskNotFound(TaskId),
    InvalidParams(ParamError),
    /// The remote agent rejected the request.
    Agent { message: String, source: ProtocolError },
    /// Opaque failure from the transport collaborator.
    Transport(String),
    Json(serde_json::Error),
    InvalidUrl(String),
}

/// Parameter validation error.
#[derive(Debug)]
pub enum ParamError {
    MissingField { field: &'static str },
    InvalidValue { field: &'static str, reason: String },
}

/// Protocol-specific detail of an agent rejection.
#[derive(Debug)]
pub enum ProtocolError {
    JsonRpc { code: JsonRpcErrorCode, message: String, data: Option<serde_json::Value> },
    Rest { status: u16, body: Option<serde_json::Value> },
}

/// Classified JSON-RPC error codes.
#[derive(Debug, Clone, Copy, PartialEq, Eq, Structural)]
pub enum JsonRpcErrorCode {
    ParseError,
    InvalidRequest,
    MethodNotFound,
    InvalidParams,
    InternalError,
    ServerError(i32),
    ApplicationError(i32),
}

/// The classification of a numeric JSON-RPC error code.
pub open spec fn classify(code: i32) -> JsonRpcErrorCode {
    if code == -32700 {
        JsonRpcErrorCode::ParseError
    } else if code == -32600 {
        JsonRpcErrorCode::InvalidRequest
    } else if code == -32601 {
        JsonRpcErrorCode::MethodNotFound
    } else if code == -32602 {
        JsonRpcErrorCode::InvalidParams
    } else if code == -32603 {
        JsonRpcErrorCode::InternalError
    } else if -32099 <= code <= -32000 {
        JsonRpcErrorCode::ServerError(code)
    } else {
        JsonRpcErrorCode::ApplicationError(code)
    }
}

impl JsonRpcErrorCode {
    /// The numeric code a classification stands for.
    pub open spec fn spec_code(&self) -> i32 {
        match self {
            JsonRpcErrorCode::ParseError => -32700i32,
            JsonRpcErrorCode::InvalidRequest => -32600i32,
            JsonRpcErrorCode::MethodNotFound => -32601i32,
            JsonRpcErrorCode::InvalidParams => -32602i32,
            JsonRpcErrorCode::InternalError => -32603i32,
            JsonRpcErrorCode::ServerError(c) => *c,
            JsonRpcErrorCode::ApplicationError(c) => *c,
        }
    }

    pub fn from_code(code: i32) -> (r: Self)
        ensures
            r == classify(code),
            r.spec_code() == code,
    {
        match code {
            -32700 => JsonRpcErrorCode::ParseError,
            -32600 => JsonRpcErrorCode::InvalidRequest,
            -32601 => JsonRpcErrorCode::MethodNotFound,
            -32602 => JsonRpcErrorCode::InvalidParams,
            -32603 => JsonRpcErrorCode::InternalError,
            c => {
                if -32099 <= c && c <= -32000 {
                    JsonRpcErrorCode::ServerError(c)
                } else {
                    JsonRpcErrorCode::ApplicationError(c)
                }
            },
        }
    }

    /// The numeric code as decimal text.
    pub fn to_text(&self) -> (r: String)
        ensures
            r@ == signed_text(self.spec_code() as int),
    {
        signed_decimal(self.code() as i64)
    }

    pub fn code(&self) -> (r: i32)
        ensures
            r == self.spec_code(),
    {
        match self {
            JsonRpcErrorCode::ParseError => -32700,
            JsonRpcErrorCode::InvalidRequest => -32600,
            JsonRpcErrorCode::MethodNotFound => -32601,
            JsonRpcErrorCode::InvalidParams => -32602,
            JsonRpcErrorCode::InternalError => -32603,
            JsonRpcErrorCode::ServerError(c) => *c,
            JsonRpcErrorCode::ApplicationError(c) => *c,
        }
    }
}

} // verus!
