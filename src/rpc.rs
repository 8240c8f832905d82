//! The JSON-RPC envelope: requests, their parameters and payloads, and the
//! responses that acknowledge them.

use crate::ids::{id_text, new_id, uuid_text};
use crate::json::{json_quoted, quoted};
use crate::schema::{meta_text, schema_text, Meta, Schema};
use vstd::prelude::*;

verus! {

/// The JSON-RPC protocol version that every message carries.
pub const JSONRPC_VERSION: &'static str = "2.0";

#[derive(Clone, Copy, Debug, PartialEq, Eq, Structural)]
pub enum RpcMethod {
    Post,
    Put,
    Patch,
    Get,
    Delete,
}

/// The kind of entity a request is about; it decides the request's url.
#[derive(Clone, Copy, Debug, PartialEq, Eq, Structural)]
pub enum RpcType {
    Network,
    State,
}

/// A state report: the data, when it was taken, and the state it belongs to.
#[derive(Debug)]
pub struct RpcStateData {
    pub data: String,
    pub timestamp: String,
    pub meta: Meta,
}

/// The payload of a request.
#[derive(Debug)]
pub enum RpcData {
    Schema(Schema),
    Data(RpcStateData),
    Empty,
}

#[derive(Debug)]
pub struct RpcParams {
    pub url: String,
    pub data: RpcData,
}

#[derive(Debug)]
pub struct RpcRequest {
    pub jsonrpc: String,
    pub method: RpcMethod,
    pub id: String,
    pub params: RpcParams,
}

/// Assembles a request; by default a `POST` about the network, with no
/// payload.
#[derive(Debug)]
pub struct RpcRequestBuilder {
    pub method: RpcMethod,
    pub rpc_type: RpcType,
    pub data: RpcData,
}

#[derive(Clone, Copy, Debug, PartialEq, Eq, Structural)]
pub struct RpcResponseResult {
    pub success: bool,
}

/// The acknowledgement of the request with the same id.
#[derive(Debug)]
pub struct RpcResponse {
    pub jsonrpc: String,
    pub id: String,
    pub result: RpcResponseResult,
}

pub open spec fn method_name(m: RpcMethod) -> Seq<char> {
    match m {
        RpcMethod::Post => "POST"@,
        RpcMethod::Put => "PUT"@,
        RpcMethod::Patch => "PATCH"@,
        RpcMethod::Get => "GET"@,
        RpcMethod::Delete => "DELETE"@,
    }
}

/// The url that requests about `t` go to.
pub open spec fn url_of(t: RpcType) -> Seq<char> {
    match t {
        RpcType::Network => "/network"@,
        RpcType::State => "/state"@,
    }
}

impl RpcStateData {
    pub fn new(data: &str, timestamp: &str, meta: Meta) -> (r: RpcStateData)
        ensures
            r.data@ == data@,
            r.timestamp@ == timestamp@,
            r.meta == meta,
    {
        RpcStateData { data: data.to_owned(), timestamp: timestamp.to_owned(), meta }
    }
}

impl RpcParams {
    pub fn new(rpc_type: RpcType, data: RpcData) -> (r: RpcParams)
        ensures
            r.url@ == url_of(rpc_type),
            r.data == data,
    {
        let url = match rpc_type {
            RpcType::Network => "/network".to_owned(),
            RpcType::State => "/state".to_owned(),
        };
        RpcParams { url, data }
    }
}

impl RpcRequest {
    pub fn builder() -> (r: RpcRequestBuilder)
        ensures
            r.method == RpcMethod::Post,
            r.rpc_type == RpcType::Network,
            r.data is Empty,
    {
        RpcRequestBuilder::new()
    }

    /// A request under the id `id`.
    pub fn new_with_id(method: RpcMethod, rpc_type: RpcType, data: RpcData, id: &str) -> (r: RpcRequest)
        ensures
            r.jsonrpc@ == JSONRPC_VERSION@,
            r.method == method,
            r.id@ == id@,
            r.params.url@ == url_of(rpc_type),
            r.params.data == data,
    {
        RpcRequest {
            jsonrpc: JSONRPC_VERSION.to_owned(),
            method,
            id: id.to_owned(),
            params: RpcParams::new(rpc_type, data),
        }
    }

    /// A request under a fresh random id, written as a UUID.
    pub fn new(method: RpcMethod, rpc_type: RpcType, data: RpcData) -> (r: RpcRequest)
        ensures
            r.jsonrpc@ == JSONRPC_VERSION@,
            r.method == method,
            exists|id: u128| r.id@ == uuid_text(id),
            r.params.url@ == url_of(rpc_type),
            r.params.data == data,
    {
        let id = new_id();
        RpcRequest::new_with_id(method, rpc_type, data, id_text(id).as_str())
    }
}

impl RpcRequestBuilder {
    pub fn new() -> (r: RpcRequestBuilder)
        ensures
            r.method == RpcMethod::Post,
            r.rpc_type == RpcType::Network,
            r.data is Empty,
    {
        RpcRequestBuilder { method: RpcMethod::Post, rpc_type: RpcType::Network, data: RpcData::Empty }
    }

    pub fn method(self, method: RpcMethod) -> (r: RpcRequestBuilder)
        ensures
            r.method == method,
            r.rpc_type == self.rpc_type,
            r.data == self.data,
    {
        RpcRequestBuilder { method, ..self }
    }

    pub fn on_type(self, rpc_type: RpcType) -> (r: RpcRequestBuilder)
        ensures
            r.method == self.method,
            r.rpc_type == rpc_type,
            r.data == self.data,
    {
        RpcRequestBuilder { rpc_type, ..self }
    }

    pub fn data(self, data: RpcData) -> (r: RpcRequestBuilder)
        ensures
            r.method == self.method,
            r.rpc_type == self.rpc_type,
            r.data == data,
    {
        RpcRequestBuilder { data, ..self }
    }

    pub fn create(self) -> (r: RpcRequest)
        ensures
            r.jsonrpc@ == JSONRPC_VERSION@,
            r.method == self.method,
            exists|id: u128| r.id@ == uuid_text(id),
            r.params.url@ == url_of(self.rpc_type),
            r.params.data == self.data,
    {
        RpcRequest::new(self.method, self.rpc_type, self.data)
    }
}

impl RpcResponseResult {
    pub fn new(success: bool) -> (r: RpcResponseResult)
        ensures
            r.success == success,
    {
        RpcResponseResult { success }
    }
}

impl RpcResponse {
    pub fn new(id: String, success: bool) -> (r: RpcResponse)
        ensures
            r.jsonrpc@ == JSONRPC_VERSION@,
            r.id == id,
            r.result.success == success,
    {
        RpcResponse { jsonrpc: JSONRPC_VERSION.to_owned(), id, result: RpcResponseResult::new(success) }
    }
}

// ---------------------------------------------------------------------------
// JSON text

pub open spec fn state_data_text(d: RpcStateData) -> Seq<char> {
    "{\"data\":"@ + json_quoted(d.data@) + ",\"timestamp\":"@ + json_quoted(d.timestamp@)
        + ",\"meta\":"@ + meta_text(d.meta) + "}"@
}

pub open spec fn rpc_data_text(d: RpcData) -> Seq<char> {
    match d {
        RpcData::Schema(s) => schema_text(s),
        RpcData::Data(s) => state_data_text(s),
        RpcData::Empty => "null"@,
    }
}

pub open spec fn request_text(r: RpcRequest) -> Seq<char> {
    "{\"jsonrpc\":"@ + json_quoted(r.jsonrpc@) + ",\"method\":\""@ + method_name(r.method)
        + "\",\"id\":"@ + json_quoted(r.id@) + ",\"params\":{\"url\":"@ + json_quoted(
        r.params.url@,
    ) + ",\"data\":"@ + rpc_data_text(r.params.data) + "}}"@
}

pub open spec fn response_text(r: RpcResponse) -> Seq<char> {
    "{\"jsonrpc\":"@ + json_quoted(r.jsonrpc@) + ",\"id\":"@ + json_quoted(r.id@)
        + ",\"result\":{\"success\":"@ + (if r.result.success {
        "true"@
    } else {
        "false"@
    }) + "}}"@
}

impl RpcStateData {
    pub fn to_text(&self) -> (r: String)
        ensures
            r@ == state_data_text(*self),
    {
        let mut out = "{\"data\":".to_owned();
        out.append(quoted(self.data.as_str()).as_str());
        out.append(",\"timestamp\":");
        out.append(quoted(self.timestamp.as_str()).as_str());
        out.append(",\"meta\":");
        out.append(self.meta.to_text().as_str());
        out.append("}");
        out
    }
}

impl RpcData {
    pub fn to_text(&self) -> (r: String)
        ensures
            r@ == rpc_data_text(*self),
    {
        match self {
            RpcData::Schema(s) => s.to_text(),
            RpcData::Data(d) => d.to_text(),
            RpcData::Empty => "null".to_owned(),
        }
    }
}

impl RpcRequest {
    /// The request as one JSON message.
    pub fn to_text(&self) -> (r: String)
        ensures
            r@ == request_text(*self),
    {
        let mut out = "{\"jsonrpc\":".to_owned();
        out.append(quoted(self.jsonrpc.as_str()).as_str());
        out.append(",\"method\":\"");
        out.append(
            match self.method {
                RpcMethod::Post => "POST",
                RpcMethod::Put => "PUT",
                RpcMethod::Patch => "PATCH",
                RpcMethod::Get => "GET",
                RpcMethod::Delete => "DELETE",
            },
        );
        out.append("\",\"id\":");
        out.append(quoted(self.id.as_str()).as_str());
        out.append(",\"params\":{\"url\":");
        out.append(quoted(self.params.url.as_str()).as_str());
        out.append(",\"data\":");
        out.append(self.params.data.to_text().as_str());
        out.append("}}");
        out
    }
}

impl RpcResponse {
    /// The response as one JSON message.
    pub fn to_text(&self) -> (r: String)
        ensures
            r@ == response_text(*self),
    {
        let mut out = "{\"jsonrpc\":".to_owned();
        out.append(quoted(self.jsonrpc.as_str()).as_str());
        out.append(",\"id\":");
        out.append(quoted(self.id.as_str()).as_str());
        out.append(",\"result\":{\"success\":");
        out.append(if self.result.success { "true" } else { "false" });
        out.append("}}");
        out
    }
}

} // verus!
