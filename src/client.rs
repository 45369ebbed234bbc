//! The request dispatcher: one descriptor per logical operation, encoded for
//! whichever binding the session selected, and the builder that negotiates
//! that binding.
use vstd::prelude::*;

use crate::binding::{
    extract_interfaces, extracted, negotiate, negotiated, negotiation_view, AgentCard,
    SelectedBinding,
};
use crate::error::ClientError;
use crate::http::{body_view, headers_view, HttpRequest, Method};
use crate::json::{json_quote, json_string_of};
use crate::jsonrpc::{encode_request, envelope_text, JsonRpcRequest};
use crate::rest::{
    accept_headers, cancel_path, cancel_task_request, endpoint, endpoint_url, get_task_request,
    get_task_with_history_request, json_body_headers, send_message_request, send_path, task_history_path,
    task_path,
};
use crate::types::{decimal, decimal_text, Binding, TaskId};

verus! {

/// Monotonic request ids of one client, starting at 1.
#[derive(Debug)]
pub struct RequestIds {
    next: u64,
}

impl View for RequestIds {
    type V = u64;

    closed spec fn view(&self) -> u64 {
        self.next
    }
}

impl RequestIds {
    pub fn new() -> (r: Self)
        ensures
            r@ == 1,
    {
        RequestIds { next: 1 }
    }

    /// Whether another id can be issued.
    pub fn has_next(&self) -> (r: bool)
        ensures
            r == (self@ < u64::MAX),
    {
        self.next < u64::MAX
    }

    /// Issues the next id.
    pub fn take(&mut self) -> (r: u64)
        requires
            old(self)@ < u64::MAX,
        ensures
            r == old(self)@,
            final(self)@ == old(self)@ + 1,
    {
        let r = self.next;
        self.next = self.next + 1;
        r
    }
}

/// A logical operation with its typed parameters.
#[derive(Debug, Clone)]
pub enum Operation {
    /// Send a message; the parameters as JSON text.
    SendMessage { params: String },
    GetTask { task_id: TaskId, history_length: Option<u32> },
    CancelTask { task_id: TaskId },
}

/// The JSON-RPC method name of an operation.
pub open spec fn method_of(op: Operation) -> Seq<char> {
    match op {
        Operation::SendMessage { .. } => "message/send"@,
        Operation::GetTask { .. } => "tasks/get"@,
        Operation::CancelTask { .. } => "tasks/cancel"@,
    }
}

/// The JSON-RPC parameters of an operation, as JSON text.
pub open spec fn params_of(op: Operation) -> Seq<char> {
    match op {
        Operation::SendMessage { params } => params@,
        Operation::GetTask { task_id, history_length } => "{\"id\":"@ + json_string_of(task_id.0@)
            + match history_length {
            Some(n) => ",\"historyLength\":"@ + decimal_text(n as nat),
            None => Seq::<char>::empty(),
        } + "}"@,
        Operation::CancelTask { task_id } => "{\"id\":"@ + json_string_of(task_id.0@) + "}"@,
    }
}

/// Whether `req` is the REST encoding of `op` against base URL `url`.
pub open spec fn rest_encoding(req: HttpRequest, url: Seq<char>, op: Operation) -> bool {
    match op {
        Operation::SendMessage { params } => {
            &&& req.method == Method::Post
            &&& req.url@ == endpoint_url(url, send_path())
            &&& headers_view(req.headers@) == json_body_headers()
            &&& body_view(req.body) == Some(vstd::utf8::encode_utf8(params@))
        },
        Operation::GetTask { task_id, history_length } => {
            &&& req.method == Method::Get
            &&& req.url@ == endpoint_url(
                url,
                match history_length {
                    Some(n) => task_history_path(task_id.0@, n as nat),
                    None => task_path(task_id.0@),
                },
            )
            &&& headers_view(req.headers@) == accept_headers()
            &&& req.body is None
        },
        Operation::CancelTask { task_id } => {
            &&& req.method == Method::Post
            &&& req.url@ == endpoint_url(url, cancel_path(task_id.0@))
            &&& headers_view(req.headers@) == accept_headers()
            &&& body_view(req.body) == Some(Seq::<u8>::empty())
        },
    }
}

/// Whether `req` is the JSON-RPC encoding of `op` with request id `id`,
/// posted to `url`.
pub open spec fn jsonrpc_encoding(req: HttpRequest, url: Seq<char>, id: u64, op: Operation) -> bool {
    &&& req.method == Method::Post
    &&& req.url@ == url
    &&& headers_view(req.headers@) == json_body_headers()
    &&& body_view(req.body) == Some(
        vstd::utf8::encode_utf8(
            envelope_text(
                json_string_of("2.0"@),
                json_string_of(decimal_text(id as nat)),
                json_string_of(method_of(op)),
                params_of(op),
            ),
        ),
    )
}

/// The JSON-RPC method name of an operation.
pub fn method_name(op: &Operation) -> (r: &'static str)
    ensures
        r@ == method_of(*op),
{
    match op {
        Operation::SendMessage { .. } => "message/send",
        Operation::GetTask { .. } => "tasks/get",
        Operation::CancelTask { .. } => "tasks/cancel",
    }
}

/// The JSON-RPC parameters of an operation, as JSON text.
pub fn params_json(op: &Operation) -> (r: Result<String, ClientError>)
    ensures
        r matches Ok(s) && s@ == params_of(*op),
{
    match op {
        Operation::SendMessage { params } => Ok(params.clone()),
        Operation::GetTask { task_id, history_length } => {
            let id = match json_quote(task_id.as_str()) {
                Ok(q) => q,
                Err(e) => return Err(ClientError::Json(e)),
            };
            let mut out = String::from_str("{\"id\":");
            out.append(id.as_str());
            if let Some(n) = history_length {
                out.append(",\"historyLength\":");
                let digits = decimal(*n as u64);
                out.append(digits.as_str());
            }
            out.append("}");
            Ok(out)
        },
        Operation::CancelTask { task_id } => {
            let id = match json_quote(task_id.as_str()) {
                Ok(q) => q,
                Err(e) => return Err(ClientError::Json(e)),
            };
            let mut out = String::from_str("{\"id\":");
            out.append(id.as_str());
            out.append("}");
            Ok(out)
        },
    }
}

/// The REST encoding of an operation against base URL `url`.
pub fn rest_request(url: &str, op: &Operation) -> (r: HttpRequest)
    ensures
        rest_encoding(r, url@, *op),
{
    match op {
        Operation::SendMessage { params } => send_message_request(url, params.as_str().as_bytes()),
        Operation::GetTask { task_id, history_length } => match history_length {
            Some(n) => get_task_with_history_request(url, task_id, *n),
            None => get_task_request(url, task_id),
        },
        Operation::CancelTask { task_id } => cancel_task_request(url, task_id),
    }
}

/// The JSON-RPC encoding of an operation with request id `id`.
pub fn jsonrpc_request(url: &str, id: u64, op: &Operation) -> (r: Result<HttpRequest, ClientError>)
    ensures
        r matches Ok(req) && jsonrpc_encoding(req, url@, id, *op),
{
    let params = match params_json(op) {
        Ok(p) => p,
        Err(e) => return Err(e),
    };
    let method = method_name(op);
    let request = JsonRpcRequest::new(decimal(id), String::from_str(method), params);
    let text = match encode_request(&request) {
        Ok(t) => t,
        Err(e) => return Err(e),
    };
    let r = HttpRequest::post(url, text.as_str().as_bytes()).with_header(
        "Content-Type",
        "application/json",
    ).with_header("Accept", "application/json");
    assert(headers_view(r.headers@) =~= json_body_headers());
    Ok(r)
}

/// Whether `req` is a generic JSON-RPC call of `method` with JSON parameters
/// `params` and request id `id`, posted to `url` with one trailing slash.
pub open spec fn rpc_encoding(
    req: HttpRequest,
    url: Seq<char>,
    id: u64,
    method: Seq<char>,
    params: Seq<char>,
) -> bool {
    &&& req.method == Method::Post
    &&& req.url@ == endpoint_url(url, "/"@)
    &&& headers_view(req.headers@) == json_body_headers()
    &&& body_view(req.body) == Some(
        vstd::utf8::encode_utf8(
            envelope_text(
                json_string_of("2.0"@),
                json_string_of(decimal_text(id as nat)),
                json_string_of(method),
                params,
            ),
        ),
    )
}

/// A generic JSON-RPC call, whatever the session's binding.
pub fn rpc_request(url: &str, id: u64, method: &str, params: &str) -> (r: Result<HttpRequest, ClientError>)
    ensures
        r matches Ok(req) && rpc_encoding(req, url@, id, method@, params@),
{
    let request = JsonRpcRequest::new(decimal(id), String::from_str(method), String::from_str(params));
    let text = match encode_request(&request) {
        Ok(t) => t,
        Err(e) => return Err(e),
    };
    let target = endpoint(url, "/");
    let r = HttpRequest::post(target.as_str(), text.as_str().as_bytes()).with_header(
        "Content-Type",
        "application/json",
    ).with_header("Accept", "application/json");
    assert(headers_view(r.headers@) =~= json_body_headers());
    Ok(r)
}

/// Encodes an operation for the selected binding. A JSON-RPC call consumes
/// exactly one request id; a REST call consumes none. Encoding always
/// succeeds.
pub fn build_request(binding: &SelectedBinding, op: &Operation, ids: &mut RequestIds) -> (r: Result<
    HttpRequest,
    ClientError,
>)
    requires
        binding is JsonRpc ==> old(ids)@ < u64::MAX,
    ensures
        binding is JsonRpc ==> {
            &&& final(ids)@ == old(ids)@ + 1
            &&& r matches Ok(req) && jsonrpc_encoding(req, binding.endpoint(), old(ids)@, *op)
        },
        binding is Rest ==> {
            &&& final(ids)@ == old(ids)@
            &&& r matches Ok(req) && rest_encoding(req, binding.endpoint(), *op)
        },
{
    match binding {
        SelectedBinding::JsonRpc { url } => {
            let id = ids.take();
            jsonrpc_request(url.as_str(), id, op)
        },
        SelectedBinding::Rest { url } => Ok(rest_request(url.as_str(), op)),
    }
}

pub open spec fn discovery_path() -> Seq<char> {
    "/.well-known/agent-card.json"@
}

pub open spec fn opt_seq(o: Option<Vec<Binding>>) -> Option<Seq<Binding>> {
    match o {
        Some(v) => Some(v@),
        None => None,
    }
}

/// Configuration of a client before the agent is discovered.
pub struct ClientBuilder<T> {
    pub transport: T,
    pub base_url: String,
    pub preference: Option<Vec<Binding>>,
    pub forced_binding: Option<Binding>,
}

impl<T> ClientBuilder<T> {
    pub fn new(transport: T, base_url: &str) -> (r: Self)
        ensures
            r.transport == transport,
            r.base_url@ == base_url@,
            r.preference is None,
            r.forced_binding is None,
    {
        ClientBuilder { transport, base_url: String::from_str(base_url), preference: None, forced_binding: None }
    }

    /// Sets the binding preference order.
    pub fn prefer(self, preference: &[Binding]) -> (r: Self)
        ensures
            r.transport == self.transport,
            r.base_url@ == self.base_url@,
            opt_seq(r.preference) == Some(preference@),
            r.forced_binding == self.forced_binding,
    {
        let mut out = self;
        let mut v: Vec<Binding> = Vec::new();
        v.extend_from_slice(preference);
        out.preference = Some(v);
        out
    }

    /// Forces one binding, skipping negotiation by preference.
    pub fn binding(self, binding: Binding) -> (r: Self)
        ensures
            r.transport == self.transport,
            r.base_url@ == self.base_url@,
            opt_seq(r.preference) == opt_seq(self.preference),
            r.forced_binding == Some(binding),
    {
        let mut out = self;
        out.forced_binding = Some(binding);
        out
    }

    /// The URL of the agent descriptor.
    pub fn discovery_url(&self) -> (r: String)
        ensures
            r@ == endpoint_url(self.base_url@, discovery_path()),
    {
        endpoint(self.base_url.as_str(), "/.well-known/agent-card.json")
    }

    /// The discovery request: GET of the descriptor, accepting JSON.
    pub fn discovery_request(&self) -> (r: HttpRequest)
        ensures
            r.method == Method::Get,
            r.url@ == endpoint_url(self.base_url@, discovery_path()),
            headers_view(r.headers@) == accept_headers(),
            r.body is None,
    {
        let url = self.discovery_url();
        let r = HttpRequest::get(url.as_str()).with_header("Accept", "application/json");
        assert(headers_view(r.headers@) =~= accept_headers());
        r
    }

    /// Reads the status of the discovery reply: anything but 200 means the
    /// agent was not found at the descriptor URL.
    pub fn check_discovery(&self, status: u16) -> (r: Result<(), ClientError>)
        ensures
            status == 200 ==> r is Ok,
            status != 200 ==> (r matches Err(ClientError::AgentNotFound(u)) && u@ == endpoint_url(
                self.base_url@,
                discovery_path(),
            )),
    {
        if status != 200 {
            return Err(ClientError::AgentNotFound(self.discovery_url()));
        }
        Ok(())
    }

    /// Negotiates the session binding from a discovered descriptor.
    pub fn select(&self, card: &AgentCard) -> (r: Result<SelectedBinding, ClientError>)
        ensures
            negotiation_view(r) == Some(
                negotiated(extracted(*card), opt_seq(self.preference), self.forced_binding),
            ),
    {
        let interfaces = extract_interfaces(card);
        match &self.preference {
            Some(p) => negotiate(interfaces.as_slice(), Some(p.as_slice()), self.forced_binding),
            None => negotiate(interfaces.as_slice(), None, self.forced_binding),
        }
    }

    /// Completes the build with a discovered descriptor: the transport and a
    /// session bound to the negotiated binding, with ids starting at 1.
    pub fn finish(self, agent_card: AgentCard) -> (r: Result<(T, Client), ClientError>)
        ensures
            match r {
                Ok((t, c)) => {
                    &&& t == self.transport
                    &&& c.agent_card == agent_card
                    &&& c.request_ids@ == 1
                    &&& negotiated(extracted(agent_card), opt_seq(self.preference), self.forced_binding)
                        == Ok::<_, Seq<Binding>>(c.binding.view_pair())
                },
                Err(e) => negotiation_view(Err(e)) == Some(
                    negotiated(extracted(agent_card), opt_seq(self.preference), self.forced_binding),
                ),
            },
    {
        let selected = self.select(&agent_card);
        match selected {
            Ok(binding) => Ok((self.transport, Client { agent_card, binding, request_ids: RequestIds::new() })),
            Err(e) => Err(e),
        }
    }
}

/// A client session: the discovered descriptor, the binding fixed for the
/// session's lifetime, and its request ids.
pub struct Client {
    pub agent_card: AgentCard,
    pub binding: SelectedBinding,
    pub request_ids: RequestIds,
}

impl Client {
    pub fn agent_card(&self) -> (r: &AgentCard)
        ensures
            r == &self.agent_card,
    {
        &self.agent_card
    }

    pub fn binding(&self) -> (r: &SelectedBinding)
        ensures
            r == &self.binding,
    {
        &self.binding
    }

    /// Encodes a generic JSON-RPC call to the session's endpoint; it consumes
    /// one request id.
    pub fn prepare_rpc(&mut self, method: &str, params: &str) -> (r: Result<HttpRequest, ClientError>)
        requires
            old(self).request_ids@ < u64::MAX,
        ensures
            final(self).binding == old(self).binding,
            final(self).agent_card == old(self).agent_card,
            final(self).request_ids@ == old(self).request_ids@ + 1,
            r matches Ok(req) && rpc_encoding(
                req,
                old(self).binding.endpoint(),
                old(self).request_ids@,
                method@,
                params@,
            ),
    {
        let id = self.request_ids.take();
        rpc_request(self.binding.url(), id, method, params)
    }

    /// Encodes an operation with the session's binding.
    pub fn prepare(&mut self, op: &Operation) -> (r: Result<HttpRequest, ClientError>)
        requires
            old(self).binding is JsonRpc ==> old(self).request_ids@ < u64::MAX,
        ensures
            final(self).binding == old(self).binding,
            final(self).agent_card == old(self).agent_card,
            old(self).binding is JsonRpc ==> {
                &&& final(self).request_ids@ == old(self).request_ids@ + 1
                &&& r matches Ok(req) && jsonrpc_encoding(
                    req,
                    old(self).binding.endpoint(),
                    old(self).request_ids@,
                    *op,
                )
            },
            old(self).binding is Rest ==> {
                &&& final(self).request_ids@ == old(self).request_ids@
                &&& r matches Ok(req) && rest_encoding(req, old(self).binding.endpoint(), *op)
            },
    {
        build_request(&self.binding, op, &mut self.request_ids)
    }
}

} // verus!
