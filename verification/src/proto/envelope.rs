//! JSON-RPC 2.0 envelope shapes.
use vstd::prelude::*;

verus! {

/// JSON-RPC version marker; always `"2.0"` on the wire.
#[derive(Debug, Clone, Copy, PartialEq, Eq)]
pub enum JsonRpc {
    V2,
}

/// A request/response id: a number or a string.
#[derive(Debug, Clone, PartialEq, Eq)]
pub enum Id {
    Num(i64),
    Str(String),
}

impl Id {
    pub fn num(n: i64) -> (id: Id)
        ensures
            id == Id::Num(n),
    {
        Id::Num(n)
    }

    pub fn string(s: String) -> (id: Id)
        ensures
            id == Id::Str(s),
    {
        Id::Str(s)
    }
}

/// A JSON-RPC error object; `data` is the serialized JSON payload, if any.
#[derive(Debug, Clone, PartialEq, Eq)]
pub struct RpcError {
    pub code: i32,
    pub message: String,
    pub data: Option<String>,
}

#[derive(Debug, Clone, PartialEq, Eq)]
pub struct Request<P> {
    pub jsonrpc: JsonRpc,
    pub id: Id,
    pub method: String,
    pub params: Option<P>,
}

impl<P> Request<P> {
    pub fn new(id: Id, method: String, params: Option<P>) -> (r: Self)
        ensures
            r.jsonrpc == JsonRpc::V2,
            r.id == id,
            r.method == method,
            r.params == params,
    {
        Request { jsonrpc: JsonRpc::V2, id, method, params }
    }
}

#[derive(Debug, Clone, PartialEq, Eq)]
pub struct Response<R> {
    pub jsonrpc: JsonRpc,
    pub id: Id,
    pub result: Option<R>,
    pub error: Option<RpcError>,
}

impl<R> Response<R> {
    pub fn err(id: Id, code: i32, message: String) -> (r: Self)
        ensures
            r.jsonrpc == JsonRpc::V2,
            r.id == id,
            r.result.is_none(),
            r.error == Some(RpcError { code, message, data: None }),
    {
        Response { jsonrpc: JsonRpc::V2, id, result: None, error: Some(RpcError { code, message, data: None }) }
    }

    pub fn ok(id: Id, result: R) -> (r: Self)
        ensures
            r.jsonrpc == JsonRpc::V2,
            r.id == id,
            r.result == Some(result),
            r.error.is_none(),
    {
        Response { jsonrpc: JsonRpc::V2, id, result: Some(result), error: None }
    }
}

#[derive(Debug, Clone, PartialEq, Eq)]
pub struct Notification<P> {
    pub jsonrpc: JsonRpc,
    pub method: String,
    pub params: Option<P>,
}

} // verus!
